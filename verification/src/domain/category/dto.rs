//! Category records, the category form and its rules, the rows of the
//! category list, and the data of the category pages.
pub mod filters;

use vstd::prelude::*;
use crate::common::Timestamp;
use crate::domain::brand::dto::{clean_notes, clean_notes_of};
use crate::domain::category::lookup::{index_by_id, last_with_id, lemma_last_is_last, lemma_last_with_id, lookup};
use crate::domain::rules::{
    check_name, check_notes, check_parent_name, msg_notes_too_long, msg_parent_too_long,
    name_error, text_error,
};
use crate::number::{parse_i64, spec_parse_i64, NumberError};
use crate::text::{
    clone_opt, is_blank, is_space, lemma_trim_bounds, lemma_trim_idempotent, lemma_trim_shape, opt_chars, owned,
    trim, trim_str,
};

verus! {

/// What a form field that may hold a number turns into: nothing when it is
/// absent or blank, else the number that its trimmed text spells.
pub open spec fn spec_number_field(opt: Option<Seq<char>>) -> Result<Option<i64>, NumberError> {
    match opt {
        None => Ok(None),
        Some(s) => if trim(s).len() == 0 {
            Ok(None)
        } else {
            match spec_parse_i64(trim(s)) {
                Ok(v) => Ok(Some(v)),
                Err(e) => Err(e),
            }
        },
    }
}

/// White space around a number field changes nothing; a field that is only
/// white space, or absent, holds no number; a field without surrounding
/// white space reads as `str::parse::<i64>` reads it.
pub proof fn lemma_number_field(s: Seq<char>)
    ensures
        spec_number_field(Some(s)) == spec_number_field(Some(trim(s))),
        spec_number_field(None) == Ok::<Option<i64>, NumberError>(None),
        (forall|k: int| 0 <= k < s.len() ==> is_space(#[trigger] s[k])) ==> spec_number_field(Some(s))
            == Ok::<Option<i64>, NumberError>(None),
        (s.len() > 0 && !is_space(s[0]) && !is_space(s[s.len() - 1])) ==> spec_number_field(Some(s)) == (
        match spec_parse_i64(s) {
            Ok(v) => Ok(Some(v)),
            Err(e) => Err(e),
        }),
{
    lemma_trim_idempotent(s);
    let (i, j) = lemma_trim_shape(s);
    if forall|k: int| 0 <= k < s.len() ==> is_space(#[trigger] s[k]) {
        if i < j {
            assert(is_space(s[i]));
        }
    }
    if s.len() > 0 && !is_space(s[0]) && !is_space(s[s.len() - 1]) {
        lemma_trim_bounds(s, 0, s.len() as int);
        assert(s.subrange(0, s.len() as int) =~= s);
    }
}

/// Reads an optional form field as a number: a missing or blank field is
/// `None`, other text is trimmed and parsed, and text that is not a number
/// is an error.
pub fn empty_number_as_none(opt: Option<String>) -> (r: Result<Option<i64>, NumberError>)
    ensures
        r == spec_number_field(opt_chars(opt)),
{
    match opt {
        None => Ok(None),
        Some(s) => {
            let t = trim_str(s.as_str());
            if t.is_empty() {
                Ok(None)
            } else {
                match parse_i64(t) {
                    Ok(v) => Ok(Some(v)),
                    Err(e) => Err(e),
                }
            }
        },
    }
}

/// Reads an optional text field: a blank field becomes `None`, any other
/// text is kept as it is (untrimmed).
pub fn empty_string_as_none(opt: Option<String>) -> (r: Option<String>)
    ensures
        match opt {
            Some(s) => if is_blank(s@) {
                r is None
            } else {
                r == Some(s)
            },
            None => r is None,
        },
{
    match opt {
        Some(s) => {
            if trim_str(s.as_str()).is_empty() {
                None
            } else {
                Some(s)
            }
        },
        None => None,
    }
}

/// A category as the list query gives it, with the Arabic name of its
/// parent when it has one.
pub struct CategoryResponseDTO {
    pub id: i64,
    pub name_en: String,
    pub name_ar: String,
    pub parent_id: Option<i64>,
    pub parent_name: Option<String>,
    pub notes: Option<String>,
    pub created_at: Timestamp,
    pub updated_at: Timestamp,
}

/// The category list page: main categories and sub-categories.
pub struct CategoryTemplate {
    pub main_categories: Vec<CategoryResponseDTO>,
    pub sub_categories: Vec<CategoryResponseDTO>,
    pub error_message: Option<String>,
    pub success_message: Option<String>,
    pub current_page: String,
}

/// The message for each field of the category form that breaks a rule.
pub struct CategoryFormErrors {
    pub name_en: Option<String>,
    pub name_ar: Option<String>,
    pub parent_id: Option<i64>,
    pub parent_name: Option<String>,
    pub notes: Option<String>,
}

impl CategoryFormErrors {
    /// The errors hold, field by field, the message of the rule that `form`
    /// breaks there, and nothing for a field that keeps its rule; the parent
    /// id is never reported.
    pub open spec fn reports(self, form: CreateCategoryForm) -> bool {
        &&& opt_chars(self.name_en) == name_error(form.name_en@)
        &&& opt_chars(self.name_ar) == name_error(form.name_ar@)
        &&& self.parent_id is None
        &&& opt_chars(self.parent_name) == text_error(opt_chars(form.parent_name), msg_parent_too_long())
        &&& opt_chars(self.notes) == text_error(opt_chars(form.notes), msg_notes_too_long())
    }

    /// Whether the names or the notes hold a message. The parent fields are
    /// not looked at.
    pub fn has_errors(&self) -> (r: bool)
        ensures
            r == (self.name_en is Some || self.name_ar is Some || self.notes is Some),
    {
        self.name_en.is_some() || self.name_ar.is_some() || self.notes.is_some()
    }
}

impl Default for CategoryFormErrors {
    /// No messages.
    fn default() -> (r: Self)
        ensures
            r.name_en is None,
            r.name_ar is None,
            r.parent_id is None,
            r.parent_name is None,
            r.notes is None,
    {
        CategoryFormErrors { name_en: None, name_ar: None, parent_id: None, parent_name: None, notes: None }
    }
}

/// What a user typed into the category form; the parent is given by name.
pub struct CreateCategoryForm {
    pub name_en: String,
    pub name_ar: String,
    pub parent_name: Option<String>,
    pub notes: Option<String>,
}

impl CreateCategoryForm {
    /// Whether the form, given by its fields, is refused: a name or the notes
    /// break their rule. A parent name that is too long is reported but
    /// does not by itself refuse the form.
    pub open spec fn spec_refused(name_en: Seq<char>, name_ar: Seq<char>, notes: Option<Seq<char>>) -> bool {
        name_error(name_en) is Some || name_error(name_ar) is Some
            || text_error(notes, msg_notes_too_long()) is Some
    }

    /// Whether the form is refused.
    pub open spec fn is_refused(self) -> bool {
        Self::spec_refused(self.name_en@, self.name_ar@, opt_chars(self.notes))
    }

    /// Checks the form: both names must be non-empty and at most 100
    /// characters after trimming, the parent name and the notes, when
    /// present, at most 500 characters after trimming. The form is refused
    /// when a name or the notes break their rule; the error then holds a
    /// message for each field that breaks its rule, the parent name's
    /// included.
    pub fn validate(&self) -> (r: Result<(), CategoryFormErrors>)
        ensures
            r is Ok <==> !self.is_refused(),
            r is Err <==> {
                ||| trim(self.name_en@).len() == 0
                ||| trim(self.name_en@).len() > 100
                ||| trim(self.name_ar@).len() == 0
                ||| trim(self.name_ar@).len() > 100
                ||| (self.notes matches Some(n) && trim(n@).len() > 500)
            },
            r matches Err(e) ==> e.reports(*self),
    {
        let mut errors = CategoryFormErrors::default();
        errors.name_en = check_name(self.name_en.as_str());
        errors.name_ar = check_name(self.name_ar.as_str());
        errors.parent_name = check_parent_name(&self.parent_name);
        errors.notes = check_notes(&self.notes);
        if errors.has_errors() {
            Err(errors)
        } else {
            Ok(())
        }
    }

    /// Trims both names, and trims the parent name and the notes, dropping
    /// them when they are blank.
    pub fn sanitize(&mut self)
        ensures
            final(self).name_en@ == trim(old(self).name_en@),
            final(self).name_ar@ == trim(old(self).name_ar@),
            opt_chars(final(self).parent_name) == clean_notes(opt_chars(old(self).parent_name)),
            opt_chars(final(self).notes) == clean_notes(opt_chars(old(self).notes)),
    {
        self.name_en = owned(trim_str(self.name_en.as_str()));
        self.name_ar = owned(trim_str(self.name_ar.as_str()));
        self.parent_name = clean_notes_of(&self.parent_name);
        self.notes = clean_notes_of(&self.notes);
    }
}

impl Default for CreateCategoryForm {
    /// An empty form.
    fn default() -> (r: Self)
        ensures
            r.name_en@ == Seq::<char>::empty(),
            r.name_ar@ == Seq::<char>::empty(),
            r.parent_name is None,
            r.notes is None,
    {
        CreateCategoryForm { name_en: String::new(), name_ar: String::new(), parent_name: None, notes: None }
    }
}

/// Cleaning the category form does not change whether it is refused, nor
/// any message: each rule already looks at the trimmed text.
pub proof fn lemma_category_validate_after_sanitize(
    name_en: Seq<char>,
    name_ar: Seq<char>,
    parent_name: Option<Seq<char>>,
    notes: Option<Seq<char>>,
)
    ensures
        name_error(trim(name_en)) == name_error(name_en),
        name_error(trim(name_ar)) == name_error(name_ar),
        text_error(clean_notes(parent_name), msg_parent_too_long())
            == text_error(parent_name, msg_parent_too_long()),
        text_error(clean_notes(notes), msg_notes_too_long())
            == text_error(notes, msg_notes_too_long()),
        CreateCategoryForm::spec_refused(trim(name_en), trim(name_ar), clean_notes(notes))
            == CreateCategoryForm::spec_refused(name_en, name_ar, notes),
{
    lemma_trim_idempotent(name_en);
    lemma_trim_idempotent(name_ar);
    if let Some(p) = parent_name {
        lemma_trim_idempotent(p);
    }
    if let Some(n) = notes {
        lemma_trim_idempotent(n);
    }
}

/// A category form is refused exactly when a name is empty or longer than
/// 100 characters after trimming, or the notes are longer than 500
/// characters after trimming; the parent name plays no part.
pub proof fn lemma_category_form_rules(f: CreateCategoryForm)
    ensures
        f.is_refused() <==> {
            ||| trim(f.name_en@).len() == 0
            ||| trim(f.name_en@).len() > 100
            ||| trim(f.name_ar@).len() == 0
            ||| trim(f.name_ar@).len() > 100
            ||| (f.notes matches Some(n) && trim(n@).len() > 500)
        },
{
}

/// The errors that report a category form hold, for each field, the message
/// of the rule it breaks and nothing else; a parent name longer than 500
/// characters after trimming is reported too. They hold a message for a
/// name or the notes exactly when the form is refused.
pub proof fn lemma_category_errors(e: CategoryFormErrors, f: CreateCategoryForm)
    requires
        e.reports(f),
    ensures
        (e.name_en is Some || e.name_ar is Some || e.notes is Some) <==> f.is_refused(),
        e.parent_id is None,
        trim(f.name_en@).len() == 0 ==> opt_chars(e.name_en) == Some("لا يمكن ترك هذه القيمة فارغة"@),
        trim(f.name_en@).len() > 100 ==> opt_chars(e.name_en) == Some(
            "لا يمكن أن يزيد عدد أحرف هذه الخانة عن 100 حرف"@,
        ),
        0 < trim(f.name_en@).len() <= 100 ==> e.name_en is None,
        trim(f.name_ar@).len() == 0 ==> opt_chars(e.name_ar) == Some("لا يمكن ترك هذه القيمة فارغة"@),
        trim(f.name_ar@).len() > 100 ==> opt_chars(e.name_ar) == Some(
            "لا يمكن أن يزيد عدد أحرف هذه الخانة عن 100 حرف"@,
        ),
        0 < trim(f.name_ar@).len() <= 100 ==> e.name_ar is None,
        (f.parent_name matches Some(p) && trim(p@).len() > 500) ==> opt_chars(e.parent_name) == Some(
            "لا يمكن أن يزيد عدد أحرف الفئة عن 500 حرف"@,
        ),
        !(f.parent_name matches Some(p) && trim(p@).len() > 500) ==> e.parent_name is None,
        (f.notes matches Some(n) && trim(n@).len() > 500) ==> opt_chars(e.notes) == Some(
            "لا يمكن أن يزيد عدد أحرف الملاحظات عن 500 حرف"@,
        ),
        !(f.notes matches Some(n) && trim(n@).len() > 500) ==> e.notes is None,
{
}

/// The page that creates a category.
pub struct CategoryCreateTemplate {
    pub main_categories: Vec<CategoryResponseDTO>,
    pub sub_categories: Vec<CategoryResponseDTO>,
    pub form: CreateCategoryForm,
    pub errors: Option<CategoryFormErrors>,
    pub current_page: String,
    pub error_message: Option<String>,
    pub success_message: Option<String>,
}

/// The page that edits a category.
pub struct CategoryEditTemplate {
    pub main_categories: Vec<CategoryResponseDTO>,
    pub sub_categories: Vec<CategoryResponseDTO>,
    pub category: Option<CategoryResponseDTO>,
    pub form: CreateCategoryForm,
    pub errors: Option<CategoryFormErrors>,
    pub success_message: Option<String>,
    pub error_message: Option<String>,
    pub current_page: String,
}

/// One line of the category table.
pub struct CategoryRow {
    pub id: i64,
    pub name: String,
    pub name_ar: String,
    pub notes: Option<String>,
    pub created_at: Timestamp,
    pub parent_name: Option<String>,
}

/// The ids of a list of categories, in order.
pub open spec fn ids_of(cats: Seq<CategoryResponseDTO>) -> Seq<i64> {
    cats.map_values(|c: CategoryResponseDTO| c.id)
}

/// The English name of the category with id `parent`, taking the last one
/// in the list when several share it; none when there is no parent or no
/// such category.
pub open spec fn parent_name_in(cats: Seq<CategoryResponseDTO>, parent: Option<i64>) -> Option<String> {
    match parent {
        Some(pid) => match last_with_id(ids_of(cats), pid) {
            Some(k) => Some(cats[k].name_en),
            None => None,
        },
        None => None,
    }
}

/// A row names a parent exactly when some category of the list has the
/// parent id, and then it names the last such category.
pub proof fn lemma_parent_name_found(cats: Seq<CategoryResponseDTO>, pid: i64)
    ensures
        parent_name_in(cats, Some(pid)) is Some <==> exists|k: int| 0 <= k < cats.len() && #[trigger] cats[k].id == pid,
        parent_name_in(cats, Some(pid)) matches Some(name) ==> exists|k: int|
            0 <= k < cats.len() && #[trigger] cats[k].id == pid && cats[k].name_en == name && forall|j: int|
                k < j < cats.len() ==> cats[j].id != pid,
        parent_name_in(cats, None) is None,
{
    let ids = ids_of(cats);
    lemma_last_with_id(ids, pid);
    lemma_last_is_last(ids, pid);
    if exists|k: int| 0 <= k < cats.len() && #[trigger] cats[k].id == pid {
        let k = choose|k: int| 0 <= k < cats.len() && #[trigger] cats[k].id == pid;
        assert(ids[k] == pid);
    }
    if let Some(k) = last_with_id(ids, pid) {
        assert(cats[k].id == ids[k]);
        assert forall|j: int| k < j < cats.len() implies cats[j].id != pid by {
            assert(ids[j] == cats[j].id);
        }
    }
}

/// The ids of `categories`, in order.
fn collect_ids(categories: &[CategoryResponseDTO]) -> (v: Vec<i64>)
    ensures
        v@ == ids_of(categories@),
{
    let mut v: Vec<i64> = Vec::new();
    let n = categories.len();
    let mut i: usize = 0;
    while i < n
        invariant
            i <= n,
            n == categories@.len(),
            v@ == ids_of(categories@).take(i as int),
        decreases n - i,
    {
        v.push(categories[i].id);
        i = i + 1;
        assert(v@ =~= ids_of(categories@).take(i as int));
    }
    assert(v@ =~= ids_of(categories@));
    v
}

impl CategoryRow {
    /// One row per category, in the same order, with the English name of
    /// its parent looked up by id in the same list.
    pub fn build_rows(categories: &[CategoryResponseDTO]) -> (rows: Vec<CategoryRow>)
        ensures
            rows@.len() == categories@.len(),
            forall|i: int|
                #![trigger rows@[i]]
                0 <= i < rows@.len() ==> {
                    let c = categories@[i];
                    let r = rows@[i];
                    &&& r.id == c.id
                    &&& r.name == c.name_en
                    &&& r.name_ar == c.name_ar
                    &&& r.notes == c.notes
                    &&& r.created_at == c.created_at
                    &&& r.parent_name == parent_name_in(categories@, c.parent_id)
                },
    {
        let ids = collect_ids(categories);
        let index = index_by_id(&ids);
        let mut rows: Vec<CategoryRow> = Vec::new();
        let n = categories.len();
        let mut i: usize = 0;
        while i < n
            invariant
                i <= n,
                n == categories@.len(),
                ids@ == ids_of(categories@),
                forall|id: i64|
                    #![trigger index@.contains_key(id)]
                    #![trigger last_with_id(ids@, id)]
                    (index@.contains_key(id) <==> last_with_id(ids@, id) is Some)
                    && (index@.contains_key(id) ==> last_with_id(ids@, id) == Some(index@[id] as int)),
                rows@.len() == i,
                forall|j: int|
                    #![trigger rows@[j]]
                    0 <= j < i ==> {
                        let c = categories@[j];
                        let r = rows@[j];
                        &&& r.id == c.id
                        &&& r.name == c.name_en
                        &&& r.name_ar == c.name_ar
                        &&& r.notes == c.notes
                        &&& r.created_at == c.created_at
                        &&& r.parent_name == parent_name_in(categories@, c.parent_id)
                    },
            decreases n - i,
        {
            let c = &categories[i];
            let parent_name = match c.parent_id {
                Some(pid) => match lookup(&index, pid) {
                    Some(k) => {
                        proof {
                            lemma_last_with_id(ids@, pid);
                        }
                        Some(categories[k].name_en.clone())
                    },
                    None => None,
                },
                None => None,
            };
            rows.push(CategoryRow {
                id: c.id,
                name: c.name_en.clone(),
                name_ar: c.name_ar.clone(),
                notes: clone_opt(&c.notes),
                created_at: c.created_at,
                parent_name,
            });
            i = i + 1;
        }
        rows
    }
}

/// The one-time notices that a redirect carries in its query string.
pub struct FlashParams {
    pub action: Option<String>,
    pub error: Option<String>,
}

} // verus!
