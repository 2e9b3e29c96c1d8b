//! The category pages: the list split into main categories and
//! sub-categories, creating a category, and editing one.
use vstd::prelude::*;
use crate::domain::brand::dto::clean_notes;
use crate::domain::category::dto::{
    CategoryCreateTemplate, CategoryEditTemplate, CategoryFormErrors, CategoryResponseDTO,
    CategoryTemplate, CreateCategoryForm, FlashParams,
};
use crate::text::{clone_opt, opt_chars, owned, trim};
use super::brand::{list_error_message, list_error_of, msg_fix_to_create, save_failure_message, save_failure_of};
use super::{opt_is, DbError, WebResponse};

verus! {

/// The categories of `cats` that have (`with_parent`) or lack a parent, in
/// order.
pub open spec fn by_parent(cats: Seq<CategoryResponseDTO>, with_parent: bool) -> Seq<CategoryResponseDTO>
    decreases cats.len(),
{
    if cats.len() == 0 {
        Seq::empty()
    } else {
        let prev = by_parent(cats.drop_last(), with_parent);
        if (cats.last().parent_id is Some) == with_parent {
            prev.push(cats.last())
        } else {
            prev
        }
    }
}

/// Splits the categories into main categories (without a parent) and
/// sub-categories (with one), each in the order of the list.
pub fn get_main_and_sub_categories(categories: Vec<CategoryResponseDTO>) -> (r: (Vec<CategoryResponseDTO>, Vec<CategoryResponseDTO>))
    ensures
        r.0@ == by_parent(categories@, false),
        r.1@ == by_parent(categories@, true),
        forall|k: int| 0 <= k < r.0@.len() ==> (#[trigger] r.0@[k]).parent_id is None,
        forall|k: int| 0 <= k < r.1@.len() ==> (#[trigger] r.1@[k]).parent_id is Some,
        r.0@.len() + r.1@.len() == categories@.len(),
{
    let ghost all = categories@;
    let mut mains: Vec<CategoryResponseDTO> = Vec::new();
    let mut subs: Vec<CategoryResponseDTO> = Vec::new();
    for c in it: categories.into_iter()
        invariant
            it.seq() == all,
            mains@ == by_parent(all.take(it.index() as int), false),
            subs@ == by_parent(all.take(it.index() as int), true),
    {
        proof {
            assert(all.take(it.index() + 1).drop_last() =~= all.take(it.index() as int));
        }
        if c.parent_id.is_none() {
            mains.push(c);
        } else {
            subs.push(c);
        }
    }
    assert(all.take(all.len() as int) =~= all);
    proof {
        lemma_split_by_parent(all);
        lemma_split_keeps_all(all);
    }
    (mains, subs)
}

/// Every category lands in exactly one of the two lists.
pub proof fn lemma_split_keeps_all(cats: Seq<CategoryResponseDTO>)
    ensures
        by_parent(cats, false).len() + by_parent(cats, true).len() == cats.len(),
    decreases cats.len(),
{
    if cats.len() > 0 {
        lemma_split_keeps_all(cats.drop_last());
    }
}

/// Whether a category has a parent (`true`) or not (`false`).
pub open spec fn parent_presence(with_parent: bool) -> spec_fn(CategoryResponseDTO) -> bool {
    |c: CategoryResponseDTO| (c.parent_id is Some) == with_parent
}

/// The main categories are, in order, the categories without a parent, and
/// the sub-categories, in order, those with one: each list is the list of
/// categories filtered by that test, so every category of either list has
/// the right kind of parent and none is lost.
pub proof fn lemma_split_by_parent(cats: Seq<CategoryResponseDTO>)
    ensures
        by_parent(cats, false) == cats.filter(parent_presence(false)),
        by_parent(cats, true) == cats.filter(parent_presence(true)),
        forall|k: int| 0 <= k < by_parent(cats, false).len() ==> (#[trigger] by_parent(cats, false)[k]).parent_id is None,
        forall|k: int| 0 <= k < by_parent(cats, true).len() ==> (#[trigger] by_parent(cats, true)[k]).parent_id is Some,
        forall|k: int| 0 <= k < cats.len() && (#[trigger] cats[k]).parent_id is None ==> by_parent(cats, false).contains(cats[k]),
        forall|k: int| 0 <= k < cats.len() && (#[trigger] cats[k]).parent_id is Some ==> by_parent(cats, true).contains(cats[k]),
    decreases cats.len(),
{
    reveal(Seq::filter);
    if cats.len() > 0 {
        lemma_split_by_parent(cats.drop_last());
    }
    assert(by_parent(cats, false) == cats.filter(parent_presence(false)));
    assert(by_parent(cats, true) == cats.filter(parent_presence(true)));
    broadcast use vstd::seq_lib::group_filter_ensures;
    assert forall|k: int| 0 <= k < by_parent(cats, false).len() implies (#[trigger] by_parent(cats, false)[k]).parent_id is None by {
        assert(parent_presence(false)(cats.filter(parent_presence(false))[k]));
    }
    assert forall|k: int| 0 <= k < by_parent(cats, true).len() implies (#[trigger] by_parent(cats, true)[k]).parent_id is Some by {
        assert(parent_presence(true)(cats.filter(parent_presence(true))[k]));
    }
    assert forall|k: int| 0 <= k < cats.len() && (#[trigger] cats[k]).parent_id is None implies by_parent(cats, false).contains(cats[k]) by {
        assert(parent_presence(false)(cats[k]));
        assert(cats.contains(cats[k]));
    }
    assert forall|k: int| 0 <= k < cats.len() && (#[trigger] cats[k]).parent_id is Some implies by_parent(cats, true).contains(cats[k]) by {
        assert(parent_presence(true)(cats[k]));
        assert(cats.contains(cats[k]));
    }
}

/// The notice shown on the category list after a redirect from an action.
pub open spec fn category_success_message(action: Option<Seq<char>>) -> Option<Seq<char>> {
    if action == Some("created"@) {
        Some("تم إضافة الفئة بنجاح"@)
    } else if action == Some("updated"@) {
        Some("تم تعديل الفئة بنجاح"@)
    } else if action == Some("deleted"@) {
        Some("تم حذف الفئة بنجاح"@)
    } else {
        None
    }
}

/// The category list shows a notice exactly for the actions `created`,
/// `updated` and `deleted`, each with its own text.
pub proof fn lemma_category_notices(action: Option<Seq<char>>)
    ensures
        category_success_message(action) is Some <==> (action == Some("created"@) || action == Some("updated"@)
            || action == Some("deleted"@)),
        action == Some("created"@) ==> category_success_message(action) == Some("تم إضافة الفئة بنجاح"@),
        action == Some("updated"@) ==> category_success_message(action) == Some("تم تعديل الفئة بنجاح"@),
        action == Some("deleted"@) ==> category_success_message(action) == Some("تم حذف الفئة بنجاح"@),
{
    reveal_strlit("created");
    reveal_strlit("updated");
    reveal_strlit("deleted");
    assert("updated"@[0] != "created"@[0]);
    assert("deleted"@[0] != "created"@[0]);
    assert("deleted"@[0] != "updated"@[0]);
}

/// The page that this module's pages name as the current one.
pub open spec fn categories_page() -> Seq<char> {
    "categories"@
}

/// The category list for the categories read from the database, split into
/// main categories and sub-categories, with the notice and the error that
/// the redirect asked for.
pub fn render_categories_page(categories: Vec<CategoryResponseDTO>, params: &FlashParams) -> (t: CategoryTemplate)
    ensures
        t.main_categories@ == by_parent(categories@, false),
        t.sub_categories@ == by_parent(categories@, true),
        opt_chars(t.success_message) == category_success_message(opt_chars(params.action)),
        opt_chars(t.error_message) == list_error_message(opt_chars(params.error)),
        t.current_page@ == categories_page(),
{
    let success_message = if opt_is(&params.action, "created") {
        Some(owned("تم إضافة الفئة بنجاح"))
    } else if opt_is(&params.action, "updated") {
        Some(owned("تم تعديل الفئة بنجاح"))
    } else if opt_is(&params.action, "deleted") {
        Some(owned("تم حذف الفئة بنجاح"))
    } else {
        None
    };
    let error_message = list_error_of(&params.error);
    let (main_categories, sub_categories) = get_main_and_sub_categories(categories);
    CategoryTemplate {
        main_categories,
        sub_categories,
        error_message,
        success_message,
        current_page: owned("categories"),
    }
}

/// The page that creates a category, with an empty form and the main
/// categories to choose a parent from.
pub fn render_create_page(categories: Vec<CategoryResponseDTO>) -> (t: CategoryCreateTemplate)
    ensures
        t.main_categories@ == by_parent(categories@, false),
        t.sub_categories@.len() == 0,
        t.form.name_en@ == Seq::<char>::empty(),
        t.form.name_ar@ == Seq::<char>::empty(),
        t.form.parent_name is None,
        t.form.notes is None,
        t.errors is None,
        t.error_message is None,
        t.success_message is None,
        t.current_page@ == categories_page(),
{
    let (main_categories, _) = get_main_and_sub_categories(categories);
    CategoryCreateTemplate {
        main_categories,
        sub_categories: Vec::new(),
        form: CreateCategoryForm::default(),
        errors: None,
        error_message: None,
        success_message: None,
        current_page: owned("categories"),
    }
}

/// Reported when the parent that the form names does not exist.
pub open spec fn msg_parent_missing() -> Seq<char> {
    "الفئة الأب غير موجودة"@
}

/// What to do with a submitted category form.
pub enum CreateCategoryStep {
    /// Show the form again.
    Render(CategoryCreateTemplate),
    /// Look up the id of the parent category named `parent_name`, then
    /// call `create_category_parent`.
    LookupParent { main_categories: Vec<CategoryResponseDTO>, form: CreateCategoryForm, parent_name: String },
    /// Insert the (cleaned) category under the parent with id `parent_id`.
    Insert { main_categories: Vec<CategoryResponseDTO>, form: CreateCategoryForm, parent_id: Option<i64> },
}

/// The form after cleaning: names trimmed, parent name and notes trimmed
/// and dropped when blank.
pub open spec fn is_cleaned(f: CreateCategoryForm, form: CreateCategoryForm) -> bool {
    &&& f.name_en@ == trim(form.name_en@)
    &&& f.name_ar@ == trim(form.name_ar@)
    &&& opt_chars(f.parent_name) == clean_notes(opt_chars(form.parent_name))
    &&& opt_chars(f.notes) == clean_notes(opt_chars(form.notes))
}

/// Handles a submitted category, with the categories read from the
/// database: the form is cleaned, then shown again with its errors when it
/// is refused; otherwise the parent it names, if any, is to be looked up,
/// and with no parent it is to be inserted.
pub fn create_category(categories: Vec<CategoryResponseDTO>, form: CreateCategoryForm) -> (step: CreateCategoryStep)
    ensures
        match step {
            CreateCategoryStep::Render(t) => {
                &&& t.main_categories@ == by_parent(categories@, false)
                &&& t.sub_categories@.len() == 0
                &&& is_cleaned(t.form, form)
                &&& t.form.is_refused()
                &&& t.errors matches Some(e) && e.reports(t.form)
                &&& opt_chars(t.error_message) == Some(msg_fix_to_create())
                &&& t.success_message is None
                &&& t.current_page@ == categories_page()
            },
            CreateCategoryStep::LookupParent { main_categories, form: f, parent_name } => {
                &&& main_categories@ == by_parent(categories@, false)
                &&& is_cleaned(f, form)
                &&& !f.is_refused()
                &&& f.parent_name == Some(parent_name)
            },
            CreateCategoryStep::Insert { main_categories, form: f, parent_id } => {
                &&& main_categories@ == by_parent(categories@, false)
                &&& is_cleaned(f, form)
                &&& !f.is_refused()
                &&& f.parent_name is None
                &&& parent_id is None
            },
        },
{
    let (main_categories, _) = get_main_and_sub_categories(categories);
    let mut form = form;
    form.sanitize();
    match form.validate() {
        Err(form_err) => {
            return CreateCategoryStep::Render(CategoryCreateTemplate {
                main_categories,
                sub_categories: Vec::new(),
                form,
                errors: Some(form_err),
                error_message: Some(owned("يرجى تصحيح الأخطاء لإستكمال التسجيل")),
                success_message: None,
                current_page: owned("categories"),
            });
        },
        Ok(()) => {},
    }
    match clone_opt(&form.parent_name) {
        Some(parent_name) => CreateCategoryStep::LookupParent { main_categories, form, parent_name },
        None => CreateCategoryStep::Insert { main_categories, form, parent_id: None },
    }
}

/// Continues once the parent named in the form was looked up (`parent_id`
/// is none when it was not found, or the lookup failed): a missing parent
/// shows the form again with that error, else the category is to be
/// inserted under the parent.
pub fn create_category_parent(
    main_categories: Vec<CategoryResponseDTO>,
    form: CreateCategoryForm,
    parent_id: Option<i64>,
) -> (step: CreateCategoryStep)
    ensures
        (form.parent_name is Some && parent_id is None) <==> step is Render,
        step matches CreateCategoryStep::Render(t) ==> {
            &&& t.main_categories == main_categories
            &&& t.sub_categories@.len() == 0
            &&& t.form == form
            &&& t.errors matches Some(e) && {
                &&& e.name_en is None
                &&& e.name_ar is None
                &&& e.parent_id is None
                &&& opt_chars(e.parent_name) == Some(msg_parent_missing())
                &&& e.notes is None
            }
            &&& opt_chars(t.error_message) == Some(msg_fix_to_create())
            &&& t.success_message is None
            &&& t.current_page@ == categories_page()
        },
        step matches CreateCategoryStep::Insert { main_categories: m, form: f, parent_id: p } ==> {
            &&& m == main_categories
            &&& f == form
            &&& p == parent_id
        },
        !(step is LookupParent),
{
    if form.parent_name.is_some() && parent_id.is_none() {
        let mut errors = CategoryFormErrors::default();
        errors.parent_name = Some(owned("الفئة الأب غير موجودة"));
        return CreateCategoryStep::Render(CategoryCreateTemplate {
            main_categories,
            sub_categories: Vec::new(),
            form,
            errors: Some(errors),
            error_message: Some(owned("يرجى تصحيح الأخطاء لإستكمال التسجيل")),
            success_message: None,
            current_page: owned("categories"),
        });
    }
    CreateCategoryStep::Insert { main_categories, form, parent_id }
}

/// Answers once the insert of a category is done: back to the list when it
/// worked, else the form again with the reason.
pub fn create_category_done(
    main_categories: Vec<CategoryResponseDTO>,
    form: CreateCategoryForm,
    result: Result<(), DbError>,
) -> (r: WebResponse<CategoryCreateTemplate>)
    ensures
        result is Ok <==> r is Redirect,
        r matches WebResponse::Redirect(to) ==> to@ == "/web/categories?action=created"@,
        r matches WebResponse::Page(t) ==> {
            &&& t.main_categories == main_categories
            &&& t.sub_categories@.len() == 0
            &&& t.form == form
            &&& t.errors is None
            &&& result matches Err(e) && opt_chars(t.error_message) == Some(save_failure_message(e))
            &&& t.success_message is None
            &&& t.current_page@ == categories_page()
        },
{
    match result {
        Ok(()) => WebResponse::Redirect(owned("/web/categories?action=created")),
        Err(e) => WebResponse::Page(CategoryCreateTemplate {
            main_categories,
            sub_categories: Vec::new(),
            form,
            errors: None,
            error_message: Some(save_failure_of(&e)),
            success_message: None,
            current_page: owned("categories"),
        }),
    }
}

/// The page that edits a category, from the categories read from the
/// database and what reading the category gave: the category and a form
/// filled with it; a redirect when it is missing or reading failed.
pub fn render_edit_page(
    categories: Vec<CategoryResponseDTO>,
    fetched: Result<Option<CategoryResponseDTO>, DbError>,
) -> (r: WebResponse<CategoryEditTemplate>)
    ensures
        match fetched {
            Ok(Some(c)) => r matches WebResponse::Page(t) && {
                &&& t.main_categories@ == by_parent(categories@, false)
                &&& t.sub_categories@ == by_parent(categories@, true)
                &&& t.category == Some(c)
                &&& t.form.name_en == c.name_en
                &&& t.form.name_ar == c.name_ar
                &&& t.form.parent_name == c.parent_name
                &&& t.form.notes == c.notes
                &&& t.errors is None
                &&& t.error_message is None
                &&& t.success_message is None
                &&& t.current_page@ == categories_page()
            },
            Ok(None) => r matches WebResponse::Redirect(to) && to@ == "/web/categories/error=not_found"@,
            Err(_) => r matches WebResponse::Redirect(to) && to@ == "/web/categories/error=db_err"@,
        },
{
    let (main_categories, sub_categories) = get_main_and_sub_categories(categories);
    match fetched {
        Ok(Some(c)) => {
            let form = CreateCategoryForm {
                name_en: c.name_en.clone(),
                name_ar: c.name_ar.clone(),
                parent_name: clone_opt(&c.parent_name),
                notes: clone_opt(&c.notes),
            };
            WebResponse::Page(CategoryEditTemplate {
                main_categories,
                sub_categories,
                category: Some(c),
                form,
                errors: None,
                success_message: None,
                error_message: None,
                current_page: owned("categories"),
            })
        },
        Ok(None) => WebResponse::Redirect(owned("/web/categories/error=not_found")),
        Err(_) => WebResponse::Redirect(owned("/web/categories/error=db_err")),
    }
}

} // verus!
