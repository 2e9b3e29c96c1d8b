//! The brand pages: the list, creating, editing, deleting and the live
//! search.
use vstd::prelude::*;
use crate::domain::brand::dto::{
    clean_notes, BrandCreateTemplate, BrandResponseDTO, BrandSearchQuery,
    BrandSearchResultsTemplate, BrandUpdateTemplate, BrandsTemplate, CreateBrandForm, FlashParams,
};
use crate::text::{clone_opt, contains_pattern, opt_chars, opt_str_equals, owned, str_equals, trim, trim_str};
use super::category2::{
    foreign_key_violation_code, is_foreign_key_violation, is_unique_violation, unique_violation_code,
};
use super::{error_code, opt_is, DbError, WebResponse};

verus! {

/// The page that this module's pages name as the current one.
pub open spec fn brand_page() -> Seq<char> {
    "brand"@
}

/// The notice shown on the brand list after a redirect from an action.
pub open spec fn brand_success_message(action: Option<Seq<char>>) -> Option<Seq<char>> {
    if action == Some("created"@) {
        Some("تم إضافة البراند بنجاح"@)
    } else if action == Some("updated"@) {
        Some("تم تعديل البراند بنجاح"@)
    } else if action == Some("deleted"@) {
        Some("تم حذف البراند بنجاح"@)
    } else {
        None
    }
}

/// The error shown on a list page after a redirect that reports one.
pub open spec fn list_error_message(error: Option<Seq<char>>) -> Option<Seq<char>> {
    if error == Some("not_found"@) {
        Some("غير موجود بقاعدة البيانات"@)
    } else if error == Some("db_error"@) {
        Some("خطأ عام بقاعدة البيانات"@)
    } else {
        None
    }
}

/// The brand list shows a notice exactly for the actions `created`,
/// `updated` and `deleted`, each with its own text.
pub proof fn lemma_brand_notices(action: Option<Seq<char>>)
    ensures
        brand_success_message(action) is Some <==> (action == Some("created"@) || action == Some("updated"@)
            || action == Some("deleted"@)),
        action == Some("created"@) ==> brand_success_message(action) == Some("تم إضافة البراند بنجاح"@),
        action == Some("updated"@) ==> brand_success_message(action) == Some("تم تعديل البراند بنجاح"@),
        action == Some("deleted"@) ==> brand_success_message(action) == Some("تم حذف البراند بنجاح"@),
{
    reveal_strlit("created");
    reveal_strlit("updated");
    reveal_strlit("deleted");
    assert("updated"@[0] != "created"@[0]);
    assert("deleted"@[0] != "created"@[0]);
    assert("deleted"@[0] != "updated"@[0]);
}

/// A list page shows an error exactly for `not_found` and `db_error`, each
/// with its own text.
pub proof fn lemma_list_errors(error: Option<Seq<char>>)
    ensures
        list_error_message(error) is Some <==> (error == Some("not_found"@) || error == Some("db_error"@)),
        error == Some("not_found"@) ==> list_error_message(error) == Some("غير موجود بقاعدة البيانات"@),
        error == Some("db_error"@) ==> list_error_message(error) == Some("خطأ عام بقاعدة البيانات"@),
{
    reveal_strlit("not_found");
    reveal_strlit("db_error");
    assert("db_error"@[0] != "not_found"@[0]);
}

/// A failed save reports a duplicate exactly for the SQLSTATE code 23505,
/// and a general failure otherwise.
pub proof fn lemma_save_failure(err: DbError)
    ensures
        (err matches DbError::Database { code: Some(c) } && c@ == "23505"@) ==> save_failure_message(err)
            == "هذا البيان مسجل بالفعل"@,
        !(err matches DbError::Database { code: Some(c) } && c@ == "23505"@) ==> save_failure_message(err)
            == "حدث خطأ عام .. برجاء المحاولة لاحقاً"@,
{
}

/// The error of a list page, from the `error` query parameter.
pub fn list_error_of(error: &Option<String>) -> (r: Option<String>)
    ensures
        opt_chars(r) == list_error_message(opt_chars(*error)),
{
    if opt_is(error, "not_found") {
        Some(owned("غير موجود بقاعدة البيانات"))
    } else if opt_is(error, "db_error") {
        Some(owned("خطأ عام بقاعدة البيانات"))
    } else {
        None
    }
}

/// The page that creates a brand, with an empty form.
pub fn render_create_page() -> (t: BrandCreateTemplate)
    ensures
        t.form.name_en@ == Seq::<char>::empty(),
        t.form.name_ar@ == Seq::<char>::empty(),
        t.form.notes is None,
        t.errors is None,
        t.error_message is None,
        t.success_message is None,
        t.current_page@ == brand_page(),
{
    BrandCreateTemplate {
        form: CreateBrandForm::default(),
        errors: None,
        error_message: None,
        success_message: None,
        current_page: owned("brand"),
    }
}

/// The brand list for the brands read from the database, with the notice
/// and the error that the redirect asked for.
pub fn render_brands_page(brands: Vec<BrandResponseDTO>, params: &FlashParams) -> (t: BrandsTemplate)
    ensures
        t.brands == brands,
        opt_chars(t.success_message) == brand_success_message(opt_chars(params.action)),
        opt_chars(t.error_message) == list_error_message(opt_chars(params.error)),
        t.current_page@ == "brands"@,
{
    let success_message = if opt_is(&params.action, "created") {
        Some(owned("تم إضافة البراند بنجاح"))
    } else if opt_is(&params.action, "updated") {
        Some(owned("تم تعديل البراند بنجاح"))
    } else if opt_is(&params.action, "deleted") {
        Some(owned("تم حذف البراند بنجاح"))
    } else {
        None
    };
    BrandsTemplate {
        brands,
        error_message: list_error_of(&params.error),
        success_message,
        current_page: owned("brands"),
    }
}

/// Asks the user to correct the form before it is saved.
pub open spec fn msg_fix_to_create() -> Seq<char> {
    "يرجى تصحيح الأخطاء لإستكمال التسجيل"@
}

/// Asks the user to correct the form before it is updated.
pub open spec fn msg_fix_to_edit() -> Seq<char> {
    "يرجى تصحيح الأخطاء لإستكمال التعديل"@
}

/// Reported when the database already holds the same value.
pub open spec fn msg_duplicate() -> Seq<char> {
    "هذا البيان مسجل بالفعل"@
}

/// Reported when saving failed for another reason.
pub open spec fn msg_general_failure() -> Seq<char> {
    "حدث خطأ عام .. برجاء المحاولة لاحقاً"@
}

/// Reported when an edit changes nothing.
pub open spec fn msg_nothing_changed() -> Seq<char> {
    "لم يتم إجراء أي تغييرات على البيانات"@
}

/// The message for a failed insert or update: a duplicate, or anything else.
pub open spec fn save_failure_message(err: DbError) -> Seq<char> {
    if error_code(err) == Some(unique_violation_code()) {
        msg_duplicate()
    } else {
        msg_general_failure()
    }
}

/// The message for a failed insert or update.
pub fn save_failure_of(err: &DbError) -> (r: String)
    ensures
        r@ == save_failure_message(*err),
{
    if is_unique_violation(err) {
        owned("هذا البيان مسجل بالفعل")
    } else {
        owned("حدث خطأ عام .. برجاء المحاولة لاحقاً")
    }
}

/// What to do with a submitted brand form.
pub enum CreateBrandStep {
    /// Show the form again.
    Render(BrandCreateTemplate),
    /// Insert this (cleaned) brand.
    Insert(CreateBrandForm),
}

/// Handles a submitted brand: a form that breaks a rule is shown again,
/// unchanged, with its errors; a valid one is cleaned (trimmed, blank notes
/// dropped) and is to be inserted.
pub fn create_brand(form: CreateBrandForm) -> (step: CreateBrandStep)
    ensures
        form.is_invalid() <==> step is Render,
        step matches CreateBrandStep::Render(t) ==> {
            &&& t.form == form
            &&& t.errors matches Some(e) && e.reports(form)
            &&& opt_chars(t.error_message) == Some(msg_fix_to_create())
            &&& t.success_message is None
            &&& t.current_page@ == brand_page()
        },
        step matches CreateBrandStep::Insert(f) ==> {
            &&& f.name_en@ == trim(form.name_en@)
            &&& f.name_ar@ == trim(form.name_ar@)
            &&& opt_chars(f.notes) == clean_notes(opt_chars(form.notes))
        },
{
    let mut form = form;
    match form.validate() {
        Err(errors) => CreateBrandStep::Render(BrandCreateTemplate {
            form,
            errors: Some(errors),
            error_message: Some(owned("يرجى تصحيح الأخطاء لإستكمال التسجيل")),
            success_message: None,
            current_page: owned("brand"),
        }),
        Ok(()) => {
            form.sanitize();
            CreateBrandStep::Insert(form)
        },
    }
}

/// Answers once the insert of a brand is done: back to the list when it
/// worked, else the form again with the reason.
pub fn create_brand_done(form: CreateBrandForm, result: Result<(), DbError>) -> (r: WebResponse<BrandCreateTemplate>)
    ensures
        result is Ok <==> r is Redirect,
        r matches WebResponse::Redirect(to) ==> to@ == "/web/brands?action=created"@,
        r matches WebResponse::Page(t) ==> {
            &&& t.form == form
            &&& t.errors is None
            &&& result matches Err(e) && opt_chars(t.error_message) == Some(save_failure_message(e))
            &&& t.success_message is None
            &&& t.current_page@ == brand_page()
        },
{
    match result {
        Ok(()) => WebResponse::Redirect(owned("/web/brands?action=created")),
        Err(e) => WebResponse::Page(BrandCreateTemplate {
            form,
            errors: None,
            error_message: Some(save_failure_of(&e)),
            success_message: None,
            current_page: owned("brand"),
        }),
    }
}

/// The edit form filled with a stored brand.
pub fn form_of(b: &BrandResponseDTO) -> (f: CreateBrandForm)
    ensures
        f.name_en == b.name_en,
        f.name_ar == b.name_ar,
        f.notes == b.notes,
{
    CreateBrandForm { name_en: b.name_en.clone(), name_ar: b.name_ar.clone(), notes: clone_opt(&b.notes) }
}

/// The page that edits a brand, from what reading it gave: the brand and a
/// form filled with it; back to the list with an error when it is missing
/// or reading failed.
pub fn render_edit_page(fetched: Result<Option<BrandResponseDTO>, DbError>) -> (r: WebResponse<BrandUpdateTemplate>)
    ensures
        match fetched {
            Ok(Some(b)) => r matches WebResponse::Page(t) && {
                &&& t.brand == Some(b)
                &&& t.form.name_en == b.name_en
                &&& t.form.name_ar == b.name_ar
                &&& t.form.notes == b.notes
                &&& t.errors is None
                &&& t.error_message is None
                &&& t.success_message is None
                &&& t.current_page@ == brand_page()
            },
            Ok(None) => r matches WebResponse::Redirect(to) && to@ == "/web/brands?error=not_found"@,
            Err(_) => r matches WebResponse::Redirect(to) && to@ == "/web/brands?error=db_error"@,
        },
{
    match fetched {
        Ok(Some(b)) => {
            let form = form_of(&b);
            WebResponse::Page(BrandUpdateTemplate {
                brand: Some(b),
                form,
                errors: None,
                current_page: owned("brand"),
                error_message: None,
                success_message: None,
            })
        },
        Ok(None) => WebResponse::Redirect(owned("/web/brands?error=not_found")),
        Err(_) => WebResponse::Redirect(owned("/web/brands?error=db_error")),
    }
}

/// Whether a cleaned form holds exactly what is stored.
pub open spec fn same_as_stored(b: BrandResponseDTO, f: CreateBrandForm) -> bool {
    &&& b.name_en@ == f.name_en@
    &&& b.name_ar@ == f.name_ar@
    &&& opt_chars(b.notes) == opt_chars(f.notes)
}

/// What to do with a submitted edit of a brand.
pub enum EditBrandStep {
    /// Go to this location.
    Redirect(String),
    /// Show the edit page again.
    Render(BrandUpdateTemplate),
    /// Update the stored brand with this (cleaned) form.
    Update { existing: BrandResponseDTO, form: CreateBrandForm },
}

/// Handles a submitted edit of the brand `existing` (none when it is not
/// stored): a missing brand goes back to the list; otherwise the form is
/// cleaned, then shown again when it breaks a rule or changes nothing, and
/// else is to be saved.
pub fn edit_brand(existing: Option<BrandResponseDTO>, form: CreateBrandForm) -> (step: EditBrandStep)
    ensures
        existing is None <==> step is Redirect,
        step matches EditBrandStep::Redirect(to) ==> to@ == "/web/brands?error=not_found"@,
        existing matches Some(b) ==> {
            let cleaned_invalid = CreateBrandForm::spec_invalid(
                trim(form.name_en@),
                trim(form.name_ar@),
                clean_notes(opt_chars(form.notes)),
            );
            &&& step matches EditBrandStep::Render(t) ==> {
                &&& t.brand == Some(b)
                &&& t.form.name_en@ == trim(form.name_en@)
                &&& t.form.name_ar@ == trim(form.name_ar@)
                &&& opt_chars(t.form.notes) == clean_notes(opt_chars(form.notes))
                &&& t.success_message is None
                &&& t.current_page@ == brand_page()
                &&& if cleaned_invalid {
                    &&& t.errors matches Some(e) && e.reports(t.form)
                    &&& opt_chars(t.error_message) == Some(msg_fix_to_edit())
                } else {
                    &&& same_as_stored(b, t.form)
                    &&& t.errors is None
                    &&& opt_chars(t.error_message) == Some(msg_nothing_changed())
                }
            }
            &&& (step is Render <==> cleaned_invalid || {
                &&& b.name_en@ == trim(form.name_en@)
                &&& b.name_ar@ == trim(form.name_ar@)
                &&& opt_chars(b.notes) == clean_notes(opt_chars(form.notes))
            })
            &&& step matches EditBrandStep::Update { existing: e, form: f } ==> {
                &&& e == b
                &&& f.name_en@ == trim(form.name_en@)
                &&& f.name_ar@ == trim(form.name_ar@)
                &&& opt_chars(f.notes) == clean_notes(opt_chars(form.notes))
            }
        },
{
    let existing_brand = match existing {
        Some(b) => b,
        None => {
            return EditBrandStep::Redirect(owned("/web/brands?error=not_found"));
        },
    };
    let mut form = form;
    form.sanitize();
    match form.validate() {
        Err(form_err) => {
            return EditBrandStep::Render(BrandUpdateTemplate {
                brand: Some(existing_brand),
                form,
                errors: Some(form_err),
                current_page: owned("brand"),
                error_message: Some(owned("يرجى تصحيح الأخطاء لإستكمال التعديل")),
                success_message: None,
            });
        },
        Ok(()) => {},
    }
    let is_unchanged = str_equals(existing_brand.name_en.as_str(), form.name_en.as_str())
        && str_equals(existing_brand.name_ar.as_str(), form.name_ar.as_str())
        && opt_str_equals(&existing_brand.notes, &form.notes);
    if is_unchanged {
        return EditBrandStep::Render(BrandUpdateTemplate {
            brand: Some(existing_brand),
            form,
            errors: None,
            current_page: owned("brand"),
            error_message: Some(owned("لم يتم إجراء أي تغييرات على البيانات")),
            success_message: None,
        });
    }
    EditBrandStep::Update { existing: existing_brand, form }
}

/// Answers once the update of a brand is done: back to the list when it
/// worked, else the edit page again with the reason.
pub fn edit_brand_done(existing: BrandResponseDTO, form: CreateBrandForm, result: Result<(), DbError>) -> (r: WebResponse<BrandUpdateTemplate>)
    ensures
        result is Ok <==> r is Redirect,
        r matches WebResponse::Redirect(to) ==> to@ == "/web/brands?action=updated"@,
        r matches WebResponse::Page(t) ==> {
            &&& t.brand == Some(existing)
            &&& t.form == form
            &&& t.errors is None
            &&& result matches Err(e) && opt_chars(t.error_message) == Some(save_failure_message(e))
            &&& t.success_message is None
            &&& t.current_page@ == brand_page()
        },
{
    match result {
        Ok(()) => WebResponse::Redirect(owned("/web/brands?action=updated")),
        Err(e) => WebResponse::Page(BrandUpdateTemplate {
            brand: Some(existing),
            form,
            errors: None,
            current_page: owned("brand"),
            error_message: Some(save_failure_of(&e)),
            success_message: None,
        }),
    }
}

/// What to do with a live search.
pub enum SearchStep {
    /// Answer at once with this fragment.
    Done(BrandSearchResultsTemplate),
    /// Search the brands whose names match `pattern`, for the trimmed
    /// `query`.
    Search { pattern: String, query: String },
}

/// Handles a live search: a blank query answers with no brands at once;
/// any other is trimmed and searched as a pattern that matches names
/// containing it.
pub fn search_brands(query: &BrandSearchQuery) -> (step: SearchStep)
    ensures
        trim(query.q@).len() == 0 <==> step is Done,
        step matches SearchStep::Done(t) ==> t.brands@.len() == 0 && t.query@.len() == 0,
        step matches SearchStep::Search { pattern, query: q } ==> {
            &&& q@ == trim(query.q@)
            &&& pattern@ == "%"@ + trim(query.q@) + "%"@
        },
{
    let q = trim_str(query.q.as_str());
    if q.is_empty() {
        return SearchStep::Done(BrandSearchResultsTemplate { brands: Vec::new(), query: String::new() });
    }
    SearchStep::Search { pattern: contains_pattern(q), query: owned(q) }
}

/// The HTTP status of a search that the database failed.
pub const SEARCH_FAILED_STATUS: u16 = 500;

/// Answers a live search once the database has run it: the brands it
/// found for the query, or the status of a server error.
pub fn search_brands_done(result: Result<Vec<BrandResponseDTO>, DbError>, query: String) -> (r: Result<BrandSearchResultsTemplate, u16>)
    ensures
        match result {
            Ok(brands) => r matches Ok(t) && t.brands == brands && t.query == query,
            Err(_) => r == Err::<BrandSearchResultsTemplate, u16>(SEARCH_FAILED_STATUS),
        },
{
    match result {
        Ok(brands) => Ok(BrandSearchResultsTemplate { brands, query }),
        Err(_) => Err(SEARCH_FAILED_STATUS),
    }
}

/// Reported when a brand that other records use is deleted.
pub open spec fn msg_brand_in_use() -> Seq<char> {
    "لا يمكن حذف هذا البراند لأنه مرتبط بسجلات أخرى. قم بإزالتها أو نقلها أولاً."@
}

/// Reported when deleting a brand failed for another reason.
pub open spec fn msg_delete_failed() -> Seq<char> {
    "حدث خطأ أثناء حذف البراند"@
}

/// Answers once the delete of a brand is done: back to the list when it
/// worked; else the error to show on the brand list.
pub fn delete_brand(result: &Result<(), DbError>) -> (r: WebResponse<String>)
    ensures
        *result is Ok <==> r is Redirect,
        r matches WebResponse::Redirect(to) ==> to@ == "/web/brands?action=deleted"@,
        r matches WebResponse::Page(msg) ==> *result matches Err(e) && msg@ == (
            if error_code(e) == Some(foreign_key_violation_code()) {
                msg_brand_in_use()
            } else {
                msg_delete_failed()
            }),
{
    match result {
        Ok(()) => WebResponse::Redirect(owned("/web/brands?action=deleted")),
        Err(e) => {
            if is_foreign_key_violation(e) {
                WebResponse::Page(
                    owned("لا يمكن حذف هذا البراند لأنه مرتبط بسجلات أخرى. قم بإزالتها أو نقلها أولاً."),
                )
            } else {
                WebResponse::Page(owned("حدث خطأ أثناء حذف البراند"))
            }
        },
    }
}

/// The brand list showing an error and no notice.
pub fn brands_page_with_error(brands: Vec<BrandResponseDTO>, message: String) -> (t: BrandsTemplate)
    ensures
        t.brands == brands,
        t.error_message == Some(message),
        t.success_message is None,
        t.current_page@ == "brands"@,
{
    BrandsTemplate { brands, error_message: Some(message), success_message: None, current_page: owned("brands") }
}

} // verus!
