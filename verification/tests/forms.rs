use catalog::common::ApiResponse;
use catalog::domain::brand::dto::filters::{first_letter, initial_color};
use catalog::domain::brand::dto::{BrandFormErrors, CreateBrandForm};
use catalog::domain::category::dto::{
    empty_number_as_none, empty_string_as_none, CategoryFormErrors, CreateCategoryForm,
};
use catalog::number::NumberError;

const REQUIRED: &str = "لا يمكن ترك هذه القيمة فارغة";
const NAME_TOO_LONG: &str = "لا يمكن أن يزيد عدد أحرف هذه الخانة عن 100 حرف";
const NOTES_TOO_LONG: &str = "لا يمكن أن يزيد عدد أحرف الملاحظات عن 500 حرف";
const PARENT_TOO_LONG: &str = "لا يمكن أن يزيد عدد أحرف الفئة عن 500 حرف";

fn brand(name_en: &str, name_ar: &str, notes: Option<&str>) -> CreateBrandForm {
    CreateBrandForm {
        name_en: name_en.to_string(),
        name_ar: name_ar.to_string(),
        notes: notes.map(|s| s.to_string()),
    }
}

#[test]
fn api_error_has_no_payload() {
    let r: ApiResponse<i32> = ApiResponse::error(404, "missing".to_string());
    assert_eq!(r.status, 404);
    assert_eq!(r.message, "missing");
    assert!(r.data.is_none());
}

#[test]
fn valid_brand_passes() {
    assert!(brand("Nike", "نايكي", None).validate().is_ok());
    assert!(brand("  Nike ", " نايكي ", Some("   ")).validate().is_ok());
}

#[test]
fn blank_names_are_required() {
    let e = brand("   ", "", None).validate().unwrap_err();
    assert_eq!(e.name_en.as_deref(), Some(REQUIRED));
    assert_eq!(e.name_ar.as_deref(), Some(REQUIRED));
    assert!(e.notes.is_none());
    assert!(e.has_errors());
}

#[test]
fn names_are_limited_to_100_characters_after_trimming() {
    let hundred = "ب".repeat(100);
    let padded = format!("  {}  ", hundred);
    assert!(brand(&padded, &hundred, None).validate().is_ok());
    let long = "a".repeat(101);
    let e = brand(&long, "ok", None).validate().unwrap_err();
    assert_eq!(e.name_en.as_deref(), Some(NAME_TOO_LONG));
    assert!(e.name_ar.is_none());
}

#[test]
fn notes_are_limited_to_500_characters() {
    let ok = "n".repeat(500);
    assert!(brand("a", "b", Some(&ok)).validate().is_ok());
    let long = "n".repeat(501);
    let e = brand("a", "b", Some(&long)).validate().unwrap_err();
    assert_eq!(e.notes.as_deref(), Some(NOTES_TOO_LONG));
    assert!(e.name_en.is_none() && e.name_ar.is_none());
}

#[test]
fn has_errors_looks_at_every_brand_field() {
    let mut e = BrandFormErrors::default();
    assert!(!e.has_errors());
    e.notes = Some("x".to_string());
    assert!(e.has_errors());
}

#[test]
fn sanitize_trims_and_drops_blank_notes() {
    let mut f = brand("  Nike ", "\tنايكي\n", Some("   "));
    f.sanitize();
    assert_eq!(f.name_en, "Nike");
    assert_eq!(f.name_ar, "نايكي");
    assert!(f.notes.is_none());
    let mut g = brand("a", "b", Some("  keep me  "));
    g.sanitize();
    assert_eq!(g.notes.as_deref(), Some("keep me"));
    g.sanitize();
    assert_eq!(g.notes.as_deref(), Some("keep me"));
}

#[test]
fn sanitize_does_not_change_validation() {
    let forms = [
        brand("  ", " x ", None),
        brand(&format!(" {} ", "a".repeat(100)), "b", Some(&" ".repeat(600))),
        brand("a", "b", Some(&format!("  {}  ", "n".repeat(501)))),
    ];
    for f in forms {
        let before = f.validate().err().map(|e| (e.name_en, e.name_ar, e.notes));
        let mut g = CreateBrandForm { name_en: f.name_en.clone(), name_ar: f.name_ar.clone(), notes: f.notes.clone() };
        g.sanitize();
        let after = g.validate().err().map(|e| (e.name_en, e.name_ar, e.notes));
        assert_eq!(before, after);
    }
}

fn category(name_en: &str, name_ar: &str, parent: Option<&str>, notes: Option<&str>) -> CreateCategoryForm {
    CreateCategoryForm {
        name_en: name_en.to_string(),
        name_ar: name_ar.to_string(),
        parent_name: parent.map(|s| s.to_string()),
        notes: notes.map(|s| s.to_string()),
    }
}

#[test]
fn a_long_parent_name_alone_does_not_refuse_the_category_form() {
    let long = "p".repeat(501);
    assert!(category("a", "b", Some(&long), None).validate().is_ok());
}

#[test]
fn refused_category_form_reports_the_parent_name_too() {
    let long = "p".repeat(501);
    let e = category("", "b", Some(&long), None).validate().unwrap_err();
    assert_eq!(e.name_en.as_deref(), Some(REQUIRED));
    assert_eq!(e.parent_name.as_deref(), Some(PARENT_TOO_LONG));
    assert!(e.parent_id.is_none());
    assert!(e.notes.is_none());
}

#[test]
fn category_has_errors_ignores_the_parent() {
    let mut e = CategoryFormErrors::default();
    e.parent_name = Some("x".to_string());
    e.parent_id = Some(3);
    assert!(!e.has_errors());
    e.name_ar = Some("x".to_string());
    assert!(e.has_errors());
}

#[test]
fn category_sanitize_cleans_every_field() {
    let mut f = category(" a ", " b ", Some("   "), Some(" n "));
    f.sanitize();
    assert_eq!(f.name_en, "a");
    assert_eq!(f.name_ar, "b");
    assert!(f.parent_name.is_none());
    assert_eq!(f.notes.as_deref(), Some("n"));
}

#[test]
fn blank_strings_become_none() {
    assert_eq!(empty_string_as_none(None), None);
    assert_eq!(empty_string_as_none(Some(" \t ".to_string())), None);
    assert_eq!(empty_string_as_none(Some(" x ".to_string())), Some(" x ".to_string()));
}

#[test]
fn number_fields_are_trimmed_and_parsed() {
    assert_eq!(empty_number_as_none(None), Ok(None));
    assert_eq!(empty_number_as_none(Some("   ".to_string())), Ok(None));
    assert_eq!(empty_number_as_none(Some(" 42 ".to_string())), Ok(Some(42)));
    assert_eq!(empty_number_as_none(Some("-3".to_string())), Ok(Some(-3)));
    assert_eq!(empty_number_as_none(Some("4 2".to_string())), Err(NumberError::InvalidDigit));
    assert_eq!(
        empty_number_as_none(Some("99999999999999999999".to_string())),
        Err(NumberError::PosOverflow)
    );
}

#[test]
fn first_letter_is_the_capitalised_first_character() {
    assert_eq!(first_letter("  apple"), "A");
    assert_eq!(first_letter("Zed"), "Z");
    assert_eq!(first_letter("ßeta"), "SS");
    assert_eq!(first_letter("نايكي"), "ن");
    assert_eq!(first_letter("   "), "؟");
    assert_eq!(first_letter(""), "؟");
}

#[test]
fn initial_color_picks_by_byte_sum() {
    let palette = ["#0E7C66", "#2563EB", "#D97706", "#7C3AED", "#DB2777", "#0891B2"];
    for name in ["", "a", "Nike", "نايكي", "Adidas Originals"] {
        let sum: u32 = name.bytes().map(|b| b as u32).sum();
        assert_eq!(initial_color(name), palette[sum as usize % 6], "name {:?}", name);
    }
    assert_eq!(initial_color("a"), "#2563EB");
    assert_eq!(initial_color("b"), "#D97706");
    assert_eq!(initial_color("Nike"), initial_color("Nike"));
}
