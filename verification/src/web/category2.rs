//! The category tree page, and how a failed statement is recognised.
use vstd::prelude::*;
use crate::domain::category::dto::FlashParams;
use crate::domain::category::dto2::{CategoryResponseDto, CategoryRow, CategoryTemplate};
use crate::text::{clone_opt, opt_chars, owned};
use super::{error_code, opt_is, DbError};

verus! {

/// The SQLSTATE code of a unique constraint violation.
pub open spec fn unique_violation_code() -> Seq<char> {
    "23505"@
}

/// The SQLSTATE code of a foreign key constraint violation.
pub open spec fn foreign_key_violation_code() -> Seq<char> {
    "23503"@
}

/// Whether the database refused a statement because it would duplicate a
/// unique value.
pub fn is_unique_violation(err: &DbError) -> (r: bool)
    ensures
        r == (error_code(*err) == Some(unique_violation_code())),
{
    match err {
        DbError::Database { code } => opt_is(code, "23505"),
        DbError::Other => false,
    }
}

/// Whether the database refused a statement because a row that other rows
/// refer to would go.
pub fn is_foreign_key_violation(err: &DbError) -> (r: bool)
    ensures
        r == (error_code(*err) == Some(foreign_key_violation_code())),
{
    match err {
        DbError::Database { code } => opt_is(code, "23503"),
        DbError::Other => false,
    }
}

/// A failure is never both kinds of violation.
pub proof fn lemma_violations_exclusive(err: DbError)
    ensures
        !(error_code(err) == Some(unique_violation_code()) && error_code(err) == Some(
            foreign_key_violation_code(),
        )),
{
    reveal_strlit("23505");
    reveal_strlit("23503");
    assert(unique_violation_code()[4] != foreign_key_violation_code()[4]);
}

/// A copy of a category.
pub fn copy_category(c: &CategoryResponseDto) -> (r: CategoryResponseDto)
    ensures
        r == *c,
{
    CategoryResponseDto {
        id: c.id,
        name_en: c.name_en.clone(),
        name_ar: c.name_ar.clone(),
        parent_id: c.parent_id,
        notes: clone_opt(&c.notes),
        created_at: c.created_at,
        updated_at: c.updated_at,
    }
}

/// The categories of `cats` at the top (without a parent), in order, but
/// for the one whose id is `exclude_id`.
pub open spec fn roots_except(cats: Seq<CategoryResponseDto>, exclude_id: Option<i64>) -> Seq<CategoryResponseDto>
    decreases cats.len(),
{
    if cats.len() == 0 {
        Seq::empty()
    } else {
        let prev = roots_except(cats.drop_last(), exclude_id);
        let c = cats.last();
        if c.parent_id is None && Some(c.id) != exclude_id {
            prev.push(c)
        } else {
            prev
        }
    }
}

/// The categories that may be a parent are all at the top, none has the
/// excluded id, and every such category of the list is among them.
pub proof fn lemma_roots_except(cats: Seq<CategoryResponseDto>, exclude_id: Option<i64>)
    ensures
        forall|k: int|
            0 <= k < roots_except(cats, exclude_id).len() ==> {
                let c = #[trigger] roots_except(cats, exclude_id)[k];
                &&& c.parent_id is None
                &&& Some(c.id) != exclude_id
                &&& cats.contains(c)
            },
        forall|k: int|
            0 <= k < cats.len() && cats[k].parent_id is None && Some(cats[k].id) != exclude_id
                ==> roots_except(cats, exclude_id).contains(#[trigger] cats[k]),
    decreases cats.len(),
{
    if cats.len() > 0 {
        let rest = cats.drop_last();
        lemma_roots_except(rest, exclude_id);
        let prev = roots_except(rest, exclude_id);
        let cur = roots_except(cats, exclude_id);
        assert forall|k: int| 0 <= k < cur.len() implies {
            let c = #[trigger] cur[k];
            &&& c.parent_id is None
            &&& Some(c.id) != exclude_id
            &&& cats.contains(c)
        } by {
            if k < prev.len() {
                assert(cur[k] == prev[k]);
                let j = choose|j: int| 0 <= j < rest.len() && rest[j] == prev[k];
                assert(cats[j] == rest[j]);
            } else {
                assert(cats[cats.len() - 1] == cur[k]);
            }
        }
        assert forall|k: int|
            0 <= k < cats.len() && cats[k].parent_id is None && Some(cats[k].id) != exclude_id
            implies cur.contains(#[trigger] cats[k]) by {
            if k < cats.len() - 1 {
                assert(rest[k] == cats[k]);
                let j = choose|j: int| 0 <= j < prev.len() && prev[j] == rest[k];
                assert(cur[j] == prev[j]);
            } else {
                assert(cur[cur.len() - 1] == cats[k]);
            }
        }
    }
}

/// Whether a category may be a parent when `exclude_id` is left out.
pub open spec fn may_be_parent(exclude_id: Option<i64>) -> spec_fn(CategoryResponseDto) -> bool {
    |c: CategoryResponseDto| c.parent_id is None && Some(c.id) != exclude_id
}

/// The categories that may be a parent are the list filtered, in order, by
/// having no parent and not the excluded id.
pub proof fn lemma_roots_except_filter(cats: Seq<CategoryResponseDto>, exclude_id: Option<i64>)
    ensures
        roots_except(cats, exclude_id) == cats.filter(may_be_parent(exclude_id)),
    decreases cats.len(),
{
    reveal(Seq::filter);
    if cats.len() > 0 {
        lemma_roots_except_filter(cats.drop_last(), exclude_id);
    }
}

/// The categories that may be chosen as a parent: those at the top, in
/// order, leaving out the one with id `exclude_id`.
pub fn build_root_categories(categories: &[CategoryResponseDto], exclude_id: Option<i64>) -> (r: Vec<CategoryResponseDto>)
    ensures
        r@ == roots_except(categories@, exclude_id),
{
    let mut r: Vec<CategoryResponseDto> = Vec::new();
    let n = categories.len();
    let mut i: usize = 0;
    while i < n
        invariant
            i <= n,
            n == categories@.len(),
            r@ == roots_except(categories@.take(i as int), exclude_id),
        decreases n - i,
    {
        proof {
            assert(categories@.take(i + 1).drop_last() =~= categories@.take(i as int));
        }
        let c = &categories[i];
        let keep = c.parent_id.is_none() && match exclude_id {
            Some(x) => c.id != x,
            None => true,
        };
        if keep {
            r.push(copy_category(c));
        }
        i = i + 1;
    }
    assert(categories@.take(n as int) =~= categories@);
    r
}

/// The notice shown on the tree page after a redirect from an action.
pub open spec fn tree_success_message(action: Option<Seq<char>>) -> Option<Seq<char>> {
    if action == Some("created"@) {
        Some("تم إنشاء الفئة بنجاح"@)
    } else if action == Some("updated"@) {
        Some("تم تحديث الفئة بنجاح"@)
    } else if action == Some("deleted"@) {
        Some("تم حذف الفئة بنجاح"@)
    } else {
        None
    }
}

/// The tree page shows a notice exactly for the actions `created`,
/// `updated` and `deleted`, each with its own text.
pub proof fn lemma_tree_notices(action: Option<Seq<char>>)
    ensures
        tree_success_message(action) is Some <==> (action == Some("created"@) || action == Some("updated"@)
            || action == Some("deleted"@)),
        action == Some("created"@) ==> tree_success_message(action) == Some("تم إنشاء الفئة بنجاح"@),
        action == Some("updated"@) ==> tree_success_message(action) == Some("تم تحديث الفئة بنجاح"@),
        action == Some("deleted"@) ==> tree_success_message(action) == Some("تم حذف الفئة بنجاح"@),
{
    reveal_strlit("created");
    reveal_strlit("updated");
    reveal_strlit("deleted");
    assert("updated"@[0] != "created"@[0]);
    assert("deleted"@[0] != "created"@[0]);
    assert("deleted"@[0] != "updated"@[0]);
}

/// A failure is a unique violation exactly for the SQLSTATE code 23505, and
/// a foreign key violation exactly for 23503.
pub proof fn lemma_violation_codes(err: DbError)
    ensures
        (error_code(err) == Some(unique_violation_code())) <==> (err matches DbError::Database { code: Some(c) }
            && c@ == "23505"@),
        (error_code(err) == Some(foreign_key_violation_code())) <==> (err matches DbError::Database {
            code: Some(c),
        } && c@ == "23503"@),
{
}

/// The category tree page for the categories read from the database: a row
/// for each of them and the list of categories that may be a parent, with
/// the notice that the redirect asked for.
pub fn render_categories_page(all: Vec<CategoryResponseDto>, params: &FlashParams) -> (t: CategoryTemplate)
    ensures
        t.root_categories@ == roots_except(all@, None),
        t.categories@.len() == all@.len(),
        forall|i: int|
            #![trigger t.categories@[i]]
            0 <= i < all@.len() ==> {
                let c = all@[i];
                let r = t.categories@[i];
                &&& r.id == c.id
                &&& r.name_en == c.name_en
                &&& r.name_ar == c.name_ar
                &&& r.notes == c.notes
                &&& r.created_at == c.created_at
                &&& r.parent_name == crate::domain::category::dto2::parent_name_in(all@, c.parent_id)
            },
        opt_chars(t.success_message) == tree_success_message(opt_chars(params.action)),
        t.error_message is None,
        t.current_page@ == "categories"@,
{
    let success_message = if opt_is(&params.action, "created") {
        Some(owned("تم إنشاء الفئة بنجاح"))
    } else if opt_is(&params.action, "updated") {
        Some(owned("تم تحديث الفئة بنجاح"))
    } else if opt_is(&params.action, "deleted") {
        Some(owned("تم حذف الفئة بنجاح"))
    } else {
        None
    };
    CategoryTemplate {
        root_categories: build_root_categories(all.as_slice(), None),
        categories: CategoryRow::build_rows(all.as_slice()),
        error_message: None,
        success_message,
        current_page: owned("categories"),
    }
}

} // verus!
