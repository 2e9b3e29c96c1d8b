use catalog::common::Timestamp;
use catalog::domain::brand::dto::{BrandResponseDTO, BrandSearchQuery, CreateBrandForm, FlashParams};
use catalog::domain::category::dto as cdto;
use catalog::domain::category::dto2::CategoryResponseDto;
use catalog::web::brand::{
    brands_page_with_error, create_brand, create_brand_done, delete_brand, edit_brand, edit_brand_done,
    render_brands_page, render_create_page, render_edit_page, search_brands, search_brands_done,
    CreateBrandStep, EditBrandStep, SearchStep,
};
use catalog::web::category::{
    create_category, create_category_done, create_category_parent, render_categories_page,
    render_create_page as render_category_create_page, render_edit_page as render_category_edit_page,
    CreateCategoryStep,
};
use catalog::web::category2::{is_foreign_key_violation, is_unique_violation};
use catalog::web::{DbError, WebResponse};

fn stored(id: i64, en: &str, ar: &str, notes: Option<&str>) -> BrandResponseDTO {
    BrandResponseDTO {
        id,
        name_en: en.to_string(),
        name_ar: ar.to_string(),
        notes: notes.map(|s| s.to_string()),
        created_at: Timestamp { secs: 1, nanos: 0 },
        updated_at: Timestamp { secs: 2, nanos: 0 },
    }
}

fn form(en: &str, ar: &str, notes: Option<&str>) -> CreateBrandForm {
    CreateBrandForm { name_en: en.to_string(), name_ar: ar.to_string(), notes: notes.map(|s| s.to_string()) }
}

fn db(code: &str) -> DbError {
    DbError::Database { code: Some(code.to_string()) }
}

fn flash(action: Option<&str>, error: Option<&str>) -> FlashParams {
    FlashParams { action: action.map(|s| s.to_string()), error: error.map(|s| s.to_string()) }
}

#[test]
fn violations_are_recognised_by_code() {
    assert!(is_unique_violation(&db("23505")));
    assert!(!is_unique_violation(&db("23503")));
    assert!(is_foreign_key_violation(&db("23503")));
    assert!(!is_foreign_key_violation(&db("23505")));
    assert!(!is_unique_violation(&DbError::Other));
    assert!(!is_unique_violation(&DbError::Database { code: None }));
}

#[test]
fn brand_list_shows_the_requested_notices() {
    let t = render_brands_page(vec![stored(1, "a", "b", None)], &flash(Some("created"), Some("not_found")));
    assert_eq!(t.brands.len(), 1);
    assert_eq!(t.success_message.as_deref(), Some("تم إضافة البراند بنجاح"));
    assert_eq!(t.error_message.as_deref(), Some("غير موجود بقاعدة البيانات"));
    assert_eq!(t.current_page, "brands");
    let t = render_brands_page(vec![], &flash(Some("deleted"), Some("db_error")));
    assert_eq!(t.success_message.as_deref(), Some("تم حذف البراند بنجاح"));
    assert_eq!(t.error_message.as_deref(), Some("خطأ عام بقاعدة البيانات"));
    let t = render_brands_page(vec![], &flash(Some("other"), None));
    assert!(t.success_message.is_none() && t.error_message.is_none());
    let t = render_brands_page(vec![], &flash(Some("updated"), None));
    assert_eq!(t.success_message.as_deref(), Some("تم تعديل البراند بنجاح"));
}

#[test]
fn create_page_starts_empty() {
    let t = render_create_page();
    assert!(t.form.name_en.is_empty() && t.form.name_ar.is_empty() && t.form.notes.is_none());
    assert!(t.errors.is_none());
    assert_eq!(t.current_page, "brand");
}

#[test]
fn invalid_brand_is_shown_again_unchanged() {
    match create_brand(form("  ", "x ", None)) {
        CreateBrandStep::Render(t) => {
            assert_eq!(t.form.name_en, "  ");
            assert_eq!(t.form.name_ar, "x ");
            assert!(t.errors.unwrap().name_en.is_some());
            assert_eq!(t.error_message.as_deref(), Some("يرجى تصحيح الأخطاء لإستكمال التسجيل"));
        }
        CreateBrandStep::Insert(_) => panic!("an invalid form must not be inserted"),
    }
}

#[test]
fn valid_brand_is_cleaned_for_insert() {
    match create_brand(form(" Nike ", " نايكي", Some("  "))) {
        CreateBrandStep::Insert(f) => {
            assert_eq!(f.name_en, "Nike");
            assert_eq!(f.name_ar, "نايكي");
            assert!(f.notes.is_none());
        }
        CreateBrandStep::Render(_) => panic!("a valid form must be inserted"),
    }
}

#[test]
fn insert_outcomes() {
    match create_brand_done(form("a", "b", None), Ok(())) {
        WebResponse::Redirect(to) => assert_eq!(to, "/web/brands?action=created"),
        WebResponse::Page(_) => panic!(),
    }
    match create_brand_done(form("a", "b", None), Err(db("23505"))) {
        WebResponse::Page(t) => assert_eq!(t.error_message.as_deref(), Some("هذا البيان مسجل بالفعل")),
        WebResponse::Redirect(_) => panic!(),
    }
    match create_brand_done(form("a", "b", None), Err(DbError::Other)) {
        WebResponse::Page(t) => {
            assert_eq!(t.error_message.as_deref(), Some("حدث خطأ عام .. برجاء المحاولة لاحقاً"));
            assert!(t.errors.is_none());
        }
        WebResponse::Redirect(_) => panic!(),
    }
}

#[test]
fn edit_page_outcomes() {
    match render_edit_page(Ok(Some(stored(3, "a", "b", Some("n"))))) {
        WebResponse::Page(t) => {
            assert_eq!(t.form.name_en, "a");
            assert_eq!(t.form.notes.as_deref(), Some("n"));
            assert_eq!(t.brand.unwrap().id, 3);
        }
        WebResponse::Redirect(_) => panic!(),
    }
    match render_edit_page(Ok(None)) {
        WebResponse::Redirect(to) => assert_eq!(to, "/web/brands?error=not_found"),
        WebResponse::Page(_) => panic!(),
    }
    match render_edit_page(Err(DbError::Other)) {
        WebResponse::Redirect(to) => assert_eq!(to, "/web/brands?error=db_error"),
        WebResponse::Page(_) => panic!(),
    }
}

#[test]
fn editing_a_missing_brand_goes_back_to_the_list() {
    match edit_brand(None, form("a", "b", None)) {
        EditBrandStep::Redirect(to) => assert_eq!(to, "/web/brands?error=not_found"),
        _ => panic!(),
    }
}

#[test]
fn an_edit_that_changes_nothing_is_not_saved() {
    match edit_brand(Some(stored(1, "Nike", "نايكي", None)), form(" Nike ", "نايكي", Some("  "))) {
        EditBrandStep::Render(t) => {
            assert_eq!(t.error_message.as_deref(), Some("لم يتم إجراء أي تغييرات على البيانات"));
            assert!(t.errors.is_none());
            assert_eq!(t.form.name_en, "Nike");
        }
        _ => panic!(),
    }
}

#[test]
fn an_invalid_edit_is_shown_again_cleaned() {
    match edit_brand(Some(stored(1, "Nike", "نايكي", None)), form("   ", " x ", None)) {
        EditBrandStep::Render(t) => {
            assert_eq!(t.error_message.as_deref(), Some("يرجى تصحيح الأخطاء لإستكمال التعديل"));
            assert_eq!(t.form.name_ar, "x");
            assert!(t.errors.unwrap().name_en.is_some());
        }
        _ => panic!(),
    }
}

#[test]
fn a_real_edit_is_saved() {
    match edit_brand(Some(stored(1, "Nike", "نايكي", None)), form("Nike", "نايكي", Some(" new "))) {
        EditBrandStep::Update { existing, form } => {
            assert_eq!(existing.id, 1);
            assert_eq!(form.notes.as_deref(), Some("new"));
        }
        _ => panic!(),
    }
    match edit_brand_done(stored(1, "a", "b", None), form("c", "d", None), Ok(())) {
        WebResponse::Redirect(to) => assert_eq!(to, "/web/brands?action=updated"),
        WebResponse::Page(_) => panic!(),
    }
    match edit_brand_done(stored(1, "a", "b", None), form("c", "d", None), Err(db("23505"))) {
        WebResponse::Page(t) => assert_eq!(t.error_message.as_deref(), Some("هذا البيان مسجل بالفعل")),
        WebResponse::Redirect(_) => panic!(),
    }
}

#[test]
fn search_steps() {
    match search_brands(&BrandSearchQuery { q: "   ".to_string() }) {
        SearchStep::Done(t) => assert!(t.brands.is_empty() && t.query.is_empty()),
        _ => panic!(),
    }
    match search_brands(&BrandSearchQuery { q: " نايك ".to_string() }) {
        SearchStep::Search { pattern, query } => {
            assert_eq!(pattern, "%نايك%");
            assert_eq!(query, "نايك");
        }
        _ => panic!(),
    }
    let t = search_brands_done(Ok(vec![stored(1, "a", "b", None)]), "a".to_string()).ok().unwrap();
    assert_eq!(t.brands.len(), 1);
    assert_eq!(t.query, "a");
    assert_eq!(search_brands_done(Err(DbError::Other), "a".to_string()).err(), Some(500));
}

#[test]
fn delete_outcomes() {
    match delete_brand(&Ok(())) {
        WebResponse::Redirect(to) => assert_eq!(to, "/web/brands?action=deleted"),
        WebResponse::Page(_) => panic!(),
    }
    match delete_brand(&Err(db("23503"))) {
        WebResponse::Page(m) => {
            assert_eq!(m, "لا يمكن حذف هذا البراند لأنه مرتبط بسجلات أخرى. قم بإزالتها أو نقلها أولاً.")
        }
        WebResponse::Redirect(_) => panic!(),
    }
    match delete_brand(&Err(db("23505"))) {
        WebResponse::Page(m) => assert_eq!(m, "حدث خطأ أثناء حذف البراند"),
        WebResponse::Redirect(_) => panic!(),
    }
    let t = brands_page_with_error(vec![], "oops".to_string());
    assert_eq!(t.error_message.as_deref(), Some("oops"));
    assert!(t.success_message.is_none());
}

fn listed(id: i64, parent: Option<i64>) -> cdto::CategoryResponseDTO {
    cdto::CategoryResponseDTO {
        id,
        name_en: format!("c{}", id),
        name_ar: format!("ف{}", id),
        parent_id: parent,
        parent_name: parent.map(|p| format!("ف{}", p)),
        notes: None,
        created_at: Timestamp { secs: id, nanos: 5 },
        updated_at: Timestamp { secs: id, nanos: 6 },
    }
}

fn cform(en: &str, ar: &str, parent: Option<&str>) -> cdto::CreateCategoryForm {
    cdto::CreateCategoryForm {
        name_en: en.to_string(),
        name_ar: ar.to_string(),
        parent_name: parent.map(|s| s.to_string()),
        notes: None,
    }
}

#[test]
fn category_list_and_create_pages() {
    let t = render_categories_page(
        vec![listed(1, None), listed(2, Some(1))],
        &cdto::FlashParams { action: Some("created".to_string()), error: None },
    );
    assert_eq!(t.main_categories.len(), 1);
    assert_eq!(t.sub_categories.len(), 1);
    assert_eq!(t.success_message.as_deref(), Some("تم إضافة الفئة بنجاح"));
    assert_eq!(t.current_page, "categories");
    let c = render_category_create_page(vec![listed(1, None), listed(2, Some(1))]);
    assert_eq!(c.main_categories.len(), 1);
    assert!(c.sub_categories.is_empty());
    assert!(c.form.name_en.is_empty());
}

#[test]
fn category_creation_flow() {
    match create_category(vec![listed(1, None)], cform(" ", "b", None)) {
        CreateCategoryStep::Render(t) => {
            assert!(t.errors.unwrap().name_en.is_some());
            assert_eq!(t.main_categories.len(), 1);
        }
        _ => panic!(),
    }
    let (mains, form) = match create_category(vec![listed(1, None)], cform(" a ", "b", Some(" ف1 "))) {
        CreateCategoryStep::LookupParent { main_categories, form, parent_name } => {
            assert_eq!(parent_name, "ف1");
            assert_eq!(form.name_en, "a");
            (main_categories, form)
        }
        _ => panic!(),
    };
    match create_category_parent(mains, form, None) {
        CreateCategoryStep::Render(t) => {
            assert_eq!(t.errors.unwrap().parent_name.as_deref(), Some("الفئة الأب غير موجودة"));
        }
        _ => panic!(),
    }
    match create_category(vec![], cform("a", "b", Some("   "))) {
        CreateCategoryStep::Insert { parent_id, form, .. } => {
            assert!(parent_id.is_none());
            assert!(form.parent_name.is_none());
        }
        _ => panic!(),
    }
    match create_category_parent(vec![], cform("a", "b", Some("p")), Some(9)) {
        CreateCategoryStep::Insert { parent_id, .. } => assert_eq!(parent_id, Some(9)),
        _ => panic!(),
    }
    match create_category_done(vec![], cform("a", "b", None), Ok(())) {
        WebResponse::Redirect(to) => assert_eq!(to, "/web/categories?action=created"),
        WebResponse::Page(_) => panic!(),
    }
    match create_category_done(vec![], cform("a", "b", None), Err(db("23505"))) {
        WebResponse::Page(t) => assert_eq!(t.error_message.as_deref(), Some("هذا البيان مسجل بالفعل")),
        WebResponse::Redirect(_) => panic!(),
    }
}

#[test]
fn category_edit_page_outcomes() {
    match render_category_edit_page(vec![listed(1, None)], Ok(Some(listed(2, Some(1))))) {
        WebResponse::Page(t) => {
            assert_eq!(t.form.parent_name.as_deref(), Some("ف1"));
            assert_eq!(t.category.unwrap().id, 2);
        }
        WebResponse::Redirect(_) => panic!(),
    }
    match render_category_edit_page(vec![], Ok(None)) {
        WebResponse::Redirect(to) => assert_eq!(to, "/web/categories/error=not_found"),
        WebResponse::Page(_) => panic!(),
    }
    match render_category_edit_page(vec![], Err(DbError::Other)) {
        WebResponse::Redirect(to) => assert_eq!(to, "/web/categories/error=db_err"),
        WebResponse::Page(_) => panic!(),
    }
}

#[test]
fn tree_page_notices() {
    let all = vec![
        CategoryResponseDto {
            id: 1,
            name_en: "A".to_string(),
            name_ar: "أ".to_string(),
            parent_id: None,
            notes: None,
            created_at: Timestamp { secs: 0, nanos: 0 },
            updated_at: Timestamp { secs: 0, nanos: 0 },
        },
    ];
    let t = catalog::web::category2::render_categories_page(
        all,
        &cdto::FlashParams { action: Some("created".to_string()), error: Some("not_found".to_string()) },
    );
    assert_eq!(t.success_message.as_deref(), Some("تم إنشاء الفئة بنجاح"));
    assert!(t.error_message.is_none());
    assert_eq!(t.categories.len(), 1);
    assert_eq!(t.root_categories.len(), 1);
}
