//! Brand records, the brand form and its rules, and the data of the brand
//! pages.
pub mod filters;

use vstd::prelude::*;
use crate::common::Timestamp;
use crate::domain::rules::{
    check_name, check_notes, msg_notes_too_long, name_error, text_error,
};
use crate::text::{is_space, lemma_trim_idempotent, lemma_trim_shape, opt_chars, owned, trim, trim_str};

verus! {

/// A brand as the database stores it.
pub struct BrandResponseDTO {
    pub id: i64,
    pub name_en: String,
    pub name_ar: String,
    pub notes: Option<String>,
    pub created_at: Timestamp,
    pub updated_at: Timestamp,
}

/// What a user typed into the brand form.
pub struct CreateBrandForm {
    pub name_en: String,
    pub name_ar: String,
    pub notes: Option<String>,
}

/// The message for each field of the brand form that breaks a rule.
pub struct BrandFormErrors {
    pub name_en: Option<String>,
    pub name_ar: Option<String>,
    pub notes: Option<String>,
}

/// Optional notes as they are stored: trimmed, and absent when blank.
pub open spec fn clean_notes(notes: Option<Seq<char>>) -> Option<Seq<char>> {
    match notes {
        Some(n) => if trim(n).len() == 0 {
            None
        } else {
            Some(trim(n))
        },
        None => None,
    }
}

/// Cleaned notes are absent exactly when the notes are absent or only white
/// space; otherwise they are the notes with the white space around them cut
/// off: a non-empty piece of the notes that neither starts nor ends with
/// white space, with only white space before and after it.
pub proof fn lemma_clean_notes(notes: Option<Seq<char>>)
    ensures
        clean_notes(notes) is None <==> (notes is None || forall|k: int|
            0 <= k < notes->0.len() ==> is_space(#[trigger] notes->0[k])),
        clean_notes(notes) matches Some(t) ==> notes matches Some(s) && t.len() > 0 && !is_space(t[0])
            && !is_space(t[t.len() - 1]) && exists|i: int|
            0 <= i && i + t.len() <= s.len() && #[trigger] s.subrange(i, i + t.len()) == t && (forall|k: int|
                0 <= k < i ==> is_space(s[k])) && (forall|k: int| i + t.len() <= k < s.len() ==> is_space(s[k])),
{
    if let Some(s) = notes {
        let (i, j) = lemma_trim_shape(s);
        if i == j {
            assert forall|k: int| 0 <= k < s.len() implies is_space(#[trigger] s[k]) by {
                if k >= i {
                    assert(k >= j);
                }
            }
        } else {
            let t = trim(s);
            assert(t[0] == s[i]);
            assert(t[t.len() - 1] == s[j - 1]);
            assert(s.subrange(i, i + t.len()) == t);
            assert(!is_space(s[i]));
        }
    }
}

/// Trims `notes` and drops them when nothing is left.
pub fn clean_notes_of(notes: &Option<String>) -> (r: Option<String>)
    ensures
        opt_chars(r) == clean_notes(opt_chars(*notes)),
{
    match notes {
        Some(n) => {
            let t = trim_str(n.as_str());
            if t.is_empty() {
                None
            } else {
                Some(owned(t))
            }
        },
        None => None,
    }
}

impl CreateBrandForm {
    /// Whether the form, given by its fields, breaks any rule.
    pub open spec fn spec_invalid(name_en: Seq<char>, name_ar: Seq<char>, notes: Option<Seq<char>>) -> bool {
        name_error(name_en) is Some || name_error(name_ar) is Some
            || text_error(notes, msg_notes_too_long()) is Some
    }

    /// Whether the form breaks any rule.
    pub open spec fn is_invalid(self) -> bool {
        Self::spec_invalid(self.name_en@, self.name_ar@, opt_chars(self.notes))
    }

    /// Checks the form: both names must be non-empty and at most 100
    /// characters after trimming, and notes, when present, at most 500
    /// characters after trimming. On failure the error holds a message for
    /// each field that breaks its rule, and nothing for the others.
    pub fn validate(&self) -> (r: Result<(), BrandFormErrors>)
        ensures
            r is Ok <==> !self.is_invalid(),
            r is Err <==> {
                ||| trim(self.name_en@).len() == 0
                ||| trim(self.name_en@).len() > 100
                ||| trim(self.name_ar@).len() == 0
                ||| trim(self.name_ar@).len() > 100
                ||| (self.notes matches Some(n) && trim(n@).len() > 500)
            },
            r matches Err(e) ==> e.reports(*self),
    {
        let mut errors = BrandFormErrors::default();
        errors.name_en = check_name(self.name_en.as_str());
        errors.name_ar = check_name(self.name_ar.as_str());
        errors.notes = check_notes(&self.notes);
        if errors.has_errors() {
            Err(errors)
        } else {
            Ok(())
        }
    }

    /// Trims both names and the notes, and drops notes that are blank.
    pub fn sanitize(&mut self)
        ensures
            final(self).name_en@ == trim(old(self).name_en@),
            final(self).name_ar@ == trim(old(self).name_ar@),
            opt_chars(final(self).notes) == clean_notes(opt_chars(old(self).notes)),
    {
        self.name_en = owned(trim_str(self.name_en.as_str()));
        self.name_ar = owned(trim_str(self.name_ar.as_str()));
        self.notes = clean_notes_of(&self.notes);
    }
}

impl Default for CreateBrandForm {
    /// An empty form.
    fn default() -> (r: Self)
        ensures
            r.name_en@ == Seq::<char>::empty(),
            r.name_ar@ == Seq::<char>::empty(),
            r.notes is None,
    {
        CreateBrandForm { name_en: String::new(), name_ar: String::new(), notes: None }
    }
}

impl BrandFormErrors {
    /// The errors hold, field by field, the message of the rule that `form`
    /// breaks there, and nothing for a field that keeps its rule.
    pub open spec fn reports(self, form: CreateBrandForm) -> bool {
        &&& opt_chars(self.name_en) == name_error(form.name_en@)
        &&& opt_chars(self.name_ar) == name_error(form.name_ar@)
        &&& opt_chars(self.notes) == text_error(opt_chars(form.notes), msg_notes_too_long())
    }

    /// Whether any field holds a message.
    pub fn has_errors(&self) -> (r: bool)
        ensures
            r == (self.name_en is Some || self.name_ar is Some || self.notes is Some),
    {
        self.name_en.is_some() || self.name_ar.is_some() || self.notes.is_some()
    }
}

impl Default for BrandFormErrors {
    /// No messages.
    fn default() -> (r: Self)
        ensures
            r.name_en is None,
            r.name_ar is None,
            r.notes is None,
    {
        BrandFormErrors { name_en: None, name_ar: None, notes: None }
    }
}

/// Cleaning the form twice is cleaning it once.
pub proof fn lemma_sanitize_idempotent(name_en: Seq<char>, name_ar: Seq<char>, notes: Option<Seq<char>>)
    ensures
        trim(trim(name_en)) == trim(name_en),
        trim(trim(name_ar)) == trim(name_ar),
        clean_notes(clean_notes(notes)) == clean_notes(notes),
{
    lemma_trim_idempotent(name_en);
    lemma_trim_idempotent(name_ar);
    if let Some(n) = notes {
        lemma_trim_idempotent(n);
    }
}

/// Cleaning the form does not change which rules it breaks, nor the
/// messages: each rule already looks at the trimmed text.
pub proof fn lemma_validate_after_sanitize(name_en: Seq<char>, name_ar: Seq<char>, notes: Option<Seq<char>>)
    ensures
        name_error(trim(name_en)) == name_error(name_en),
        name_error(trim(name_ar)) == name_error(name_ar),
        text_error(clean_notes(notes), msg_notes_too_long())
            == text_error(notes, msg_notes_too_long()),
        CreateBrandForm::spec_invalid(trim(name_en), trim(name_ar), clean_notes(notes))
            == CreateBrandForm::spec_invalid(name_en, name_ar, notes),
{
    lemma_sanitize_idempotent(name_en, name_ar, notes);
}

/// A brand form breaks a rule exactly when a name is empty or longer than
/// 100 characters after trimming, or the notes are longer than 500
/// characters after trimming.
pub proof fn lemma_brand_form_rules(f: CreateBrandForm)
    ensures
        f.is_invalid() <==> {
            ||| trim(f.name_en@).len() == 0
            ||| trim(f.name_en@).len() > 100
            ||| trim(f.name_ar@).len() == 0
            ||| trim(f.name_ar@).len() > 100
            ||| (f.notes matches Some(n) && trim(n@).len() > 500)
        },
{
}

/// The errors that report a brand form hold, for each field, the message of
/// the rule it breaks and nothing else; they hold some message exactly when
/// the form breaks a rule.
pub proof fn lemma_brand_errors(e: BrandFormErrors, f: CreateBrandForm)
    requires
        e.reports(f),
    ensures
        (e.name_en is Some || e.name_ar is Some || e.notes is Some) <==> f.is_invalid(),
        trim(f.name_en@).len() == 0 ==> opt_chars(e.name_en) == Some("لا يمكن ترك هذه القيمة فارغة"@),
        trim(f.name_en@).len() > 100 ==> opt_chars(e.name_en) == Some(
            "لا يمكن أن يزيد عدد أحرف هذه الخانة عن 100 حرف"@,
        ),
        0 < trim(f.name_en@).len() <= 100 ==> e.name_en is None,
        trim(f.name_ar@).len() == 0 ==> opt_chars(e.name_ar) == Some("لا يمكن ترك هذه القيمة فارغة"@),
        trim(f.name_ar@).len() > 100 ==> opt_chars(e.name_ar) == Some(
            "لا يمكن أن يزيد عدد أحرف هذه الخانة عن 100 حرف"@,
        ),
        0 < trim(f.name_ar@).len() <= 100 ==> e.name_ar is None,
        (f.notes matches Some(n) && trim(n@).len() > 500) ==> opt_chars(e.notes) == Some(
            "لا يمكن أن يزيد عدد أحرف الملاحظات عن 500 حرف"@,
        ),
        !(f.notes matches Some(n) && trim(n@).len() > 500) ==> e.notes is None,
{
}

/// The brand list page.
pub struct BrandsTemplate {
    pub brands: Vec<BrandResponseDTO>,
    pub error_message: Option<String>,
    pub success_message: Option<String>,
    pub current_page: String,
}

/// The page that creates a brand.
pub struct BrandCreateTemplate {
    pub form: CreateBrandForm,
    pub errors: Option<BrandFormErrors>,
    pub current_page: String,
    pub error_message: Option<String>,
    pub success_message: Option<String>,
}

/// The page that edits a brand.
pub struct BrandUpdateTemplate {
    pub brand: Option<BrandResponseDTO>,
    pub form: CreateBrandForm,
    pub errors: Option<BrandFormErrors>,
    pub current_page: String,
    pub error_message: Option<String>,
    pub success_message: Option<String>,
}

/// The fragment that lists the brands a live search found.
pub struct BrandSearchResultsTemplate {
    pub brands: Vec<BrandResponseDTO>,
    pub query: String,
}

/// The query of a live brand search; empty when the request has none.
pub struct BrandSearchQuery {
    pub q: String,
}

/// The one-time notices that a redirect carries in its query string.
pub struct FlashParams {
    pub action: Option<String>,
    pub error: Option<String>,
}

} // verus!
