//! Categories as a tree: each category under its parent, the categories
//! without a parent at the top. Also the rows of the category table and
//! the data of the category page built from them.
use vstd::prelude::*;
use std::collections::HashMap;
use crate::common::Timestamp;
use crate::domain::category::lookup::{index_by_id, last_with_id, lemma_last_is_last, lemma_last_with_id, lookup};
use crate::text::clone_opt;

pub use crate::domain::category::dto::{empty_number_as_none, empty_string_as_none};

verus! {

broadcast use vstd::std_specs::hash::group_hash_axioms;

/// A category as the database stores it.
pub struct CategoryResponseDto {
    pub id: i64,
    pub name_en: String,
    pub name_ar: String,
    pub parent_id: Option<i64>,
    pub notes: Option<String>,
    pub created_at: Timestamp,
    pub updated_at: Timestamp,
}

/// A category with the categories under it.
pub struct CategoryTreeDto {
    pub id: i64,
    pub name_en: String,
    pub name_ar: String,
    pub notes: Option<String>,
    pub created_at: Timestamp,
    pub updated_at: Timestamp,
    pub children: Vec<CategoryTreeDto>,
}

/// The positions, below `n` and in order, of the categories whose parent is
/// `parent` (`None`: the categories at the top).
pub open spec fn with_parent(cats: Seq<CategoryResponseDto>, parent: Option<i64>, n: int) -> Seq<usize>
    decreases n,
{
    if n <= 0 {
        Seq::empty()
    } else {
        let prev = with_parent(cats, parent, n - 1);
        if cats[n - 1].parent_id == parent {
            prev.push((n - 1) as usize)
        } else {
            prev
        }
    }
}

/// The positions of the categories at the top, in order.
pub open spec fn root_positions(cats: Seq<CategoryResponseDto>) -> Seq<usize> {
    with_parent(cats, None, cats.len() as int)
}

/// The positions of the categories directly under category `i`, in order.
pub open spec fn child_positions(cats: Seq<CategoryResponseDto>, i: int) -> Seq<usize> {
    with_parent(cats, Some(cats[i].id), cats.len() as int)
}

/// Each position that `with_parent` lists is in range and has that parent.
pub proof fn lemma_with_parent(cats: Seq<CategoryResponseDto>, parent: Option<i64>, n: int)
    requires
        n <= cats.len(),
        cats.len() <= usize::MAX,
    ensures
        forall|k: int|
            0 <= k < with_parent(cats, parent, n).len() ==> {
                let p = #[trigger] with_parent(cats, parent, n)[k];
                &&& 0 <= p < n
                &&& cats[p as int].parent_id == parent
            },
    decreases n,
{
    if n > 0 {
        lemma_with_parent(cats, parent, n - 1);
        let prev = with_parent(cats, parent, n - 1);
        assert forall|k: int| 0 <= k < with_parent(cats, parent, n).len() implies {
            let p = #[trigger] with_parent(cats, parent, n)[k];
            &&& 0 <= p < n
            &&& cats[p as int].parent_id == parent
        } by {
            if k < prev.len() {
                assert(with_parent(cats, parent, n)[k] == prev[k]);
            }
        }
    }
}

/// The positions that `with_parent` lists come in increasing order.
pub proof fn lemma_with_parent_increasing(cats: Seq<CategoryResponseDto>, parent: Option<i64>, n: int)
    requires
        n <= cats.len(),
        cats.len() <= usize::MAX,
    ensures
        forall|a: int, b: int|
            0 <= a < b < with_parent(cats, parent, n).len() ==> with_parent(cats, parent, n)[a]
                < with_parent(cats, parent, n)[b],
    decreases n,
{
    if n > 0 {
        lemma_with_parent_increasing(cats, parent, n - 1);
        lemma_with_parent(cats, parent, n - 1);
        let prev = with_parent(cats, parent, n - 1);
        let cur = with_parent(cats, parent, n);
        assert forall|a: int, b: int| 0 <= a < b < cur.len() implies cur[a] < cur[b] by {
            assert(cur[a] == prev[a]);
            if b < prev.len() {
                assert(cur[b] == prev[b]);
            } else {
                assert(prev[a] < n - 1);
            }
        }
    }
}

/// Whether a category's parent is `parent`.
pub open spec fn parent_is(parent: Option<i64>) -> spec_fn(CategoryResponseDto) -> bool {
    |c: CategoryResponseDto| c.parent_id == parent
}

/// `with_parent` lists as many positions as there are categories with that
/// parent among the first `n`.
pub proof fn lemma_with_parent_count(cats: Seq<CategoryResponseDto>, parent: Option<i64>, n: int)
    requires
        0 <= n <= cats.len(),
    ensures
        with_parent(cats, parent, n).len() == cats.take(n).filter(parent_is(parent)).len(),
    decreases n,
{
    if n == 0 {
        assert(cats.take(0) =~= Seq::<CategoryResponseDto>::empty());
    } else {
        lemma_with_parent_count(cats, parent, n - 1);
        let t = cats.take(n);
        assert(t.drop_last() =~= cats.take(n - 1));
        assert(t.last() == cats[n - 1]);
        let f = parent_is(parent);
        reveal(Seq::filter);
        assert(f(cats[n - 1]) == (cats[n - 1].parent_id == parent));
        assert(t.filter(f) == if f(t.last()) {
            t.drop_last().filter(f).push(t.last())
        } else {
            t.drop_last().filter(f)
        });
    }
}

/// The trees of the forest start, in the order of the list, at exactly the
/// categories without a parent: every position listed holds a category
/// without a parent, every category without a parent is listed, and the
/// positions increase.
pub proof fn lemma_root_positions_exact(cats: Seq<CategoryResponseDto>)
    requires
        cats.len() <= usize::MAX,
    ensures
        forall|k: int|
            0 <= k < root_positions(cats).len() ==> {
                let p = #[trigger] root_positions(cats)[k];
                &&& 0 <= p < cats.len()
                &&& cats[p as int].parent_id is None
            },
        forall|p: int|
            0 <= p < cats.len() && #[trigger] cats[p].parent_id is None ==> root_positions(cats).contains(
                p as usize,
            ),
        forall|a: int, b: int|
            0 <= a < b < root_positions(cats).len() ==> root_positions(cats)[a] < root_positions(cats)[b],
        root_positions(cats).len() == cats.filter(parent_is(None)).len(),
{
    lemma_with_parent_count(cats, None, cats.len() as int);
    assert(cats.take(cats.len() as int) =~= cats);
    lemma_with_parent(cats, None, cats.len() as int);
    lemma_with_parent_increasing(cats, None, cats.len() as int);
    assert forall|p: int| 0 <= p < cats.len() && #[trigger] cats[p].parent_id is None implies root_positions(
        cats,
    ).contains(p as usize) by {
        lemma_with_parent_complete(cats, None, cats.len() as int, p);
    }
}

/// The children of category `i` are, in the order of the list, exactly the
/// categories whose parent id is the id of `i`.
pub proof fn lemma_child_positions_exact(cats: Seq<CategoryResponseDto>, i: int)
    requires
        cats.len() <= usize::MAX,
        0 <= i < cats.len(),
    ensures
        forall|k: int|
            0 <= k < child_positions(cats, i).len() ==> {
                let p = #[trigger] child_positions(cats, i)[k];
                &&& 0 <= p < cats.len()
                &&& cats[p as int].parent_id == Some(cats[i].id)
            },
        forall|p: int|
            0 <= p < cats.len() && #[trigger] cats[p].parent_id == Some(cats[i].id)
                ==> child_positions(cats, i).contains(p as usize),
        forall|a: int, b: int|
            0 <= a < b < child_positions(cats, i).len() ==> child_positions(cats, i)[a]
                < child_positions(cats, i)[b],
        child_positions(cats, i).len() == cats.filter(parent_is(Some(cats[i].id))).len(),
{
    lemma_with_parent_count(cats, Some(cats[i].id), cats.len() as int);
    assert(cats.take(cats.len() as int) =~= cats);
    lemma_with_parent(cats, Some(cats[i].id), cats.len() as int);
    lemma_with_parent_increasing(cats, Some(cats[i].id), cats.len() as int);
    assert forall|p: int|
        0 <= p < cats.len() && #[trigger] cats[p].parent_id == Some(cats[i].id) implies child_positions(
        cats,
        i,
    ).contains(p as usize) by {
        lemma_with_parent_complete(cats, Some(cats[i].id), cats.len() as int, p);
    }
}

/// `t` is category `i` of `cats` with, in order, the trees of the
/// categories directly under it.
pub open spec fn is_tree_of(t: CategoryTreeDto, cats: Seq<CategoryResponseDto>, i: int) -> bool
    decreases t,
{
    let c = cats[i];
    let kids = child_positions(cats, i);
    &&& t.id == c.id
    &&& t.name_en == c.name_en
    &&& t.name_ar == c.name_ar
    &&& t.notes == c.notes
    &&& t.created_at == c.created_at
    &&& t.updated_at == c.updated_at
    &&& t.children@.len() == kids.len()
    &&& forall|j: int|
        0 <= j < kids.len() ==> is_tree_of(#[trigger] t.children@[j], cats, kids[j] as int)
}

/// A tree of category `i` carries that category's fields and has one child
/// for each category whose parent id is the id of `i`, in the order of the
/// list, each carrying that category's fields.
pub proof fn lemma_tree_node(t: CategoryTreeDto, cats: Seq<CategoryResponseDto>, i: int)
    requires
        cats.len() <= usize::MAX,
        0 <= i < cats.len(),
        is_tree_of(t, cats, i),
    ensures
        t.id == cats[i].id,
        t.name_en == cats[i].name_en,
        t.name_ar == cats[i].name_ar,
        t.notes == cats[i].notes,
        t.created_at == cats[i].created_at,
        t.updated_at == cats[i].updated_at,
        t.children@.len() == cats.filter(parent_is(Some(cats[i].id))).len(),
        forall|j: int|
            0 <= j < t.children@.len() ==> {
                let q = child_positions(cats, i)[j] as int;
                let child = #[trigger] t.children@[j];
                &&& 0 <= q < cats.len()
                &&& cats[q].parent_id == Some(cats[i].id)
                &&& child.id == cats[q].id
                &&& child.name_en == cats[q].name_en
                &&& child.name_ar == cats[q].name_ar
            },
{
    lemma_child_positions_exact(cats, i);
    let kids = child_positions(cats, i);
    assert forall|j: int| 0 <= j < t.children@.len() implies {
        let q = child_positions(cats, i)[j] as int;
        let child = #[trigger] t.children@[j];
        &&& 0 <= q < cats.len()
        &&& cats[q].parent_id == Some(cats[i].id)
        &&& child.id == cats[q].id
        &&& child.name_en == cats[q].name_en
        &&& child.name_ar == cats[q].name_ar
    } by {
        assert(is_tree_of(t.children@[j], cats, kids[j] as int));
        assert(0 <= kids[j] < cats.len());
    }
}

/// The forest has one tree for each category without a parent, in the order
/// of the list, each headed by that category.
pub proof fn lemma_forest_roots(cats: Seq<CategoryResponseDto>, forest: Seq<CategoryTreeDto>)
    requires
        cats.len() <= usize::MAX,
        forest.len() == root_positions(cats).len(),
        forall|i: int| 0 <= i < forest.len() ==> is_tree_of(#[trigger] forest[i], cats, root_positions(cats)[i] as int),
    ensures
        forest.len() == cats.filter(parent_is(None)).len(),
        forall|i: int|
            0 <= i < forest.len() ==> {
                let p = root_positions(cats)[i] as int;
                &&& 0 <= p < cats.len()
                &&& cats[p].parent_id is None
                &&& (#[trigger] forest[i]).id == cats[p].id
                &&& forest[i].name_en == cats[p].name_en
            },
        forall|p: int|
            0 <= p < cats.len() && #[trigger] cats[p].parent_id is None ==> exists|i: int|
                0 <= i < forest.len() && root_positions(cats)[i] == p && forest[i].id == cats[p].id,
{
    lemma_root_positions_exact(cats);
    let roots = root_positions(cats);
    assert forall|i: int| 0 <= i < forest.len() implies {
        let p = root_positions(cats)[i] as int;
        &&& 0 <= p < cats.len()
        &&& cats[p].parent_id is None
        &&& (#[trigger] forest[i]).id == cats[p].id
        &&& forest[i].name_en == cats[p].name_en
    } by {
        assert(0 <= roots[i] < cats.len());
        assert(is_tree_of(forest[i], cats, roots[i] as int));
    }
    assert forall|p: int| 0 <= p < cats.len() && #[trigger] cats[p].parent_id is None implies exists|i: int|
        0 <= i < forest.len() && root_positions(cats)[i] == p && forest[i].id == cats[p].id by {
        assert(roots.contains(p as usize));
        let i = choose|i: int| 0 <= i < roots.len() && roots[i] == p as usize;
        assert(is_tree_of(forest[i], cats, roots[i] as int));
    }
}

/// Category `c` is directly under category `p`.
pub open spec fn is_child(cats: Seq<CategoryResponseDto>, p: int, c: int) -> bool {
    &&& 0 <= p < cats.len()
    &&& 0 <= c < cats.len()
    &&& cats[c].parent_id == Some(cats[p].id)
}

/// `path` leads from a category at the top down through children.
pub open spec fn is_root_path(cats: Seq<CategoryResponseDto>, path: Seq<int>) -> bool {
    &&& path.len() > 0
    &&& 0 <= path[0] < cats.len()
    &&& cats[path[0]].parent_id is None
    &&& forall|k: int| 0 <= k < path.len() - 1 ==> is_child(cats, #[trigger] path[k], path[k + 1])
}

/// No path from the top goes deeper than there are categories: walking from
/// the categories at the top to their children ends. (A longer path would
/// pass a category twice and could go on for ever.)
pub open spec fn descent_ends(cats: Seq<CategoryResponseDto>) -> bool {
    forall|path: Seq<int>| #[trigger] is_root_path(cats, path) ==> path.len() <= cats.len()
}

/// No two categories share an id.
pub open spec fn unique_ids(cats: Seq<CategoryResponseDto>) -> bool {
    forall|a: int, b: int|
        0 <= a < cats.len() && 0 <= b < cats.len() && a != b ==> #[trigger] cats[a].id != #[trigger] cats[b].id
}

/// With unique ids, a path from the top never passes a category twice: the
/// earliest repeat would need two different parents with one id, or a
/// category at the top with a parent.
pub proof fn lemma_root_path_no_repeat(cats: Seq<CategoryResponseDto>, path: Seq<int>, a: int, b: int)
    requires
        unique_ids(cats),
        is_root_path(cats, path),
        0 <= a < b < path.len(),
    ensures
        path[a] != path[b],
    decreases a,
{
    if path[a] == path[b] {
        assert(is_child(cats, path[b - 1], path[b]));
        if a > 0 {
            assert(is_child(cats, path[a - 1], path[a]));
            lemma_root_path_no_repeat(cats, path, a - 1, b - 1);
            assert(cats[path[a - 1]].id != cats[path[b - 1]].id);
        }
    }
}

/// When no two categories share an id, walking down from the top always
/// ends, so `build_tree` accepts the list.
pub proof fn lemma_unique_ids_descent_ends(cats: Seq<CategoryResponseDto>)
    requires
        unique_ids(cats),
    ensures
        descent_ends(cats),
{
    assert forall|path: Seq<int>| #[trigger] is_root_path(cats, path) implies path.len() <= cats.len() by {
        assert forall|i: int, j: int|
            0 <= i < path.len() && 0 <= j < path.len() && i != j implies path[i] != path[j] by {
            if i < j {
                lemma_root_path_no_repeat(cats, path, i, j);
            } else {
                lemma_root_path_no_repeat(cats, path, j, i);
            }
        }
        assert(path.no_duplicates());
        path.unique_seq_to_set();
        vstd::set_lib::lemma_int_range(0, cats.len() as int);
        assert forall|x: int| path.to_set().contains(x) implies vstd::set_lib::set_int_range(
            0,
            cats.len() as int,
        ).contains(x) by {
            let k = choose|k: int| 0 <= k < path.len() && path[k] == x;
            if k > 0 {
                assert(is_child(cats, path[k - 1], path[k]));
            }
        }
        vstd::set_lib::lemma_len_subset(path.to_set(), vstd::set_lib::set_int_range(0, cats.len() as int));
    }
}

/// The children of each category, by the id of the parent.
pub open spec fn kids_in(m: Map<i64, Vec<usize>>, id: i64) -> Seq<usize> {
    if m.contains_key(id) {
        m[id]@
    } else {
        Seq::empty()
    }
}

/// The positions of the categories at the top, and for each parent id the
/// positions of the categories under it, all in the order of the list.
fn children_by_parent(cats: &[CategoryResponseDto]) -> (r: (HashMap<i64, Vec<usize>>, Vec<usize>))
    ensures
        r.1@ == root_positions(cats@),
        forall|id: i64|
            #[trigger] kids_in(r.0@, id) == with_parent(cats@, Some(id), cats@.len() as int),
{
    let n = cats.len();
    let mut children_map: HashMap<i64, Vec<usize>> = HashMap::new();
    let mut roots: Vec<usize> = Vec::new();
    let mut i: usize = 0;
    while i < n
        invariant
            i <= n,
            n == cats@.len(),
            roots@ == with_parent(cats@, None, i as int),
            forall|id: i64|
                #[trigger] kids_in(children_map@, id) == with_parent(cats@, Some(id), i as int),
        decreases n - i,
    {
        let ghost old_map = children_map@;
        match cats[i].parent_id {
            Some(pid) => {
                let mut v = match children_map.remove(&pid) {
                    Some(v) => v,
                    None => Vec::new(),
                };
                assert(v@ == kids_in(old_map, pid));
                v.push(i);
                children_map.insert(pid, v);
            },
            None => {
                roots.push(i);
            },
        }
        i = i + 1;
        assert forall|id: i64|
            #[trigger] kids_in(children_map@, id) == with_parent(cats@, Some(id), i as int) by {
            assert(kids_in(old_map, id) == with_parent(cats@, Some(id), i - 1));
        }
    }
    (children_map, roots)
}

impl CategoryTreeDto {
    /// Category `cat` with no children yet.
    fn from_flat(cat: &CategoryResponseDto) -> (t: CategoryTreeDto)
        ensures
            t.id == cat.id,
            t.name_en == cat.name_en,
            t.name_ar == cat.name_ar,
            t.notes == cat.notes,
            t.created_at == cat.created_at,
            t.updated_at == cat.updated_at,
            t.children@.len() == 0,
    {
        CategoryTreeDto {
            id: cat.id,
            name_en: cat.name_en.clone(),
            name_ar: cat.name_ar.clone(),
            notes: clone_opt(&cat.notes),
            created_at: cat.created_at,
            updated_at: cat.updated_at,
            children: Vec::new(),
        }
    }

    /// Arranges flat categories as a forest: one tree for each category
    /// without a parent, in the order of the list, each holding, in the
    /// order of the list, the trees of the categories whose parent id is its
    /// id. Requires that walking down from the top ends.
    pub fn build_tree(flat_categories: Vec<CategoryResponseDto>) -> (forest: Vec<CategoryTreeDto>)
        requires
            descent_ends(flat_categories@),
        ensures
            forest@.len() == root_positions(flat_categories@).len(),
            forest@.len() == flat_categories@.filter(parent_is(None)).len(),
            forall|i: int|
                0 <= i < forest@.len() ==> is_tree_of(
                    #[trigger] forest@[i],
                    flat_categories@,
                    root_positions(flat_categories@)[i] as int,
                ),
    {
        let cats = flat_categories.as_slice();
        let n = cats.len();
        let (children_map, roots) = children_by_parent(cats);
        proof {
            lemma_with_parent(cats@, None, n as int);
        }
        let mut forest: Vec<CategoryTreeDto> = Vec::new();
        let m = roots.len();
        let mut k: usize = 0;
        while k < m
            invariant
                k <= m,
                n == cats@.len(),
                cats@ == flat_categories@,
                m == roots@.len(),
                roots@ == root_positions(cats@),
                descent_ends(cats@),
                forall|id: i64|
                    #[trigger] kids_in(children_map@, id) == with_parent(cats@, Some(id), n as int),
                forall|j: int|
                    0 <= j < roots@.len() ==> {
                        let p = #[trigger] roots@[j];
                        &&& 0 <= p < n
                        &&& cats@[p as int].parent_id is None
                    },
                forest@.len() == k,
                forall|j: int|
                    0 <= j < k ==> is_tree_of(#[trigger] forest@[j], cats@, roots@[j] as int),
            decreases m - k,
        {
            let r = roots[k];
            let ghost path = seq![r as int];
            proof {
                assert(is_root_path(cats@, path));
            }
            let t = Self::build_node(cats, &children_map, r, n, Ghost(path));
            forest.push(t);
            k = k + 1;
        }
        proof {
            lemma_root_positions_exact(cats@);
        }
        forest
    }

    /// The tree of category `idx`, reached from the top by `path`.
    fn build_node(
        cats: &[CategoryResponseDto],
        children_map: &HashMap<i64, Vec<usize>>,
        idx: usize,
        fuel: usize,
        Ghost(path): Ghost<Seq<int>>,
    ) -> (t: CategoryTreeDto)
        requires
            descent_ends(cats@),
            forall|id: i64|
                #[trigger] kids_in(children_map@, id) == with_parent(cats@, Some(id), cats@.len() as int),
            is_root_path(cats@, path),
            path.last() == idx,
            fuel + path.len() == cats@.len() + 1,
        ensures
            is_tree_of(t, cats@, idx as int),
        decreases fuel,
    {
        proof {
            if path.len() > 1 {
                assert(is_child(cats@, path[path.len() - 2], path[path.len() - 1]));
            }
        }
        let c = &cats[idx];
        let mut node = Self::from_flat(c);
        proof {
            assert(kids_in(children_map@, c.id) == child_positions(cats@, idx as int));
            lemma_with_parent(cats@, Some(c.id), cats@.len() as int);
        }
        match children_map.get(&c.id) {
            Some(children) => {
                let mut subtrees: Vec<CategoryTreeDto> = Vec::new();
                let m = children.len();
                let mut j: usize = 0;
                while j < m
                    invariant
                        j <= m,
                        m == children@.len(),
                        children@ == child_positions(cats@, idx as int),
                        descent_ends(cats@),
                        forall|id: i64|
                            #[trigger] kids_in(children_map@, id) == with_parent(
                                cats@,
                                Some(id),
                                cats@.len() as int,
                            ),
                        is_root_path(cats@, path),
                        path.last() == idx,
                        fuel + path.len() == cats@.len() + 1,
                        0 <= idx < cats@.len(),
                        c == cats@[idx as int],
                        forall|q: int|
                            0 <= q < children@.len() ==> {
                                let p = #[trigger] children@[q];
                                &&& 0 <= p < cats@.len()
                                &&& cats@[p as int].parent_id == Some(c.id)
                            },
                        subtrees@.len() == j,
                        forall|q: int|
                            0 <= q < j ==> is_tree_of(
                                #[trigger] subtrees@[q],
                                cats@,
                                children@[q] as int,
                            ),
                    decreases m - j,
                {
                    let k = children[j];
                    let ghost next = path.push(k as int);
                    proof {
                        assert(is_child(cats@, path.last(), k as int));
                        assert forall|q: int| 0 <= q < next.len() - 1 implies is_child(
                            cats@,
                            #[trigger] next[q],
                            next[q + 1],
                        ) by {
                            assert(next[q] == path[q]);
                            if q + 1 < path.len() {
                                assert(next[q + 1] == path[q + 1]);
                            }
                        }
                        assert(is_root_path(cats@, next));
                    }
                    let t = Self::build_node(cats, children_map, k, fuel - 1, Ghost(next));
                    subtrees.push(t);
                    j = j + 1;
                }
                node.children = subtrees;
            },
            None => {},
        }
        node
    }
}

/// The category form of the tree page; the parent is given by id.
pub struct CreateCategoryForm {
    pub name: String,
    pub name_ar: String,
    pub parent_id: Option<i64>,
    pub notes: Option<String>,
}

/// One line of the category table.
pub struct CategoryRow {
    pub id: i64,
    pub name_en: String,
    pub name_ar: String,
    pub notes: Option<String>,
    pub created_at: Timestamp,
    pub parent_name: Option<String>,
}

/// The ids of a list of categories, in order.
pub open spec fn ids_of(cats: Seq<CategoryResponseDto>) -> Seq<i64> {
    cats.map_values(|c: CategoryResponseDto| c.id)
}

/// The English name of the category with id `parent`, taking the last one
/// in the list when several share it; none when there is no parent or no
/// such category.
pub open spec fn parent_name_in(cats: Seq<CategoryResponseDto>, parent: Option<i64>) -> Option<String> {
    match parent {
        Some(pid) => match last_with_id(ids_of(cats), pid) {
            Some(k) => Some(cats[k].name_en),
            None => None,
        },
        None => None,
    }
}

/// A row names a parent exactly when some category of the list has the
/// parent id, and then it names the last such category.
pub proof fn lemma_parent_name_found(cats: Seq<CategoryResponseDto>, pid: i64)
    ensures
        parent_name_in(cats, Some(pid)) is Some <==> exists|k: int| 0 <= k < cats.len() && #[trigger] cats[k].id == pid,
        parent_name_in(cats, Some(pid)) matches Some(name) ==> exists|k: int|
            0 <= k < cats.len() && #[trigger] cats[k].id == pid && cats[k].name_en == name && forall|j: int|
                k < j < cats.len() ==> cats[j].id != pid,
        parent_name_in(cats, None) is None,
{
    let ids = ids_of(cats);
    lemma_last_with_id(ids, pid);
    lemma_last_is_last(ids, pid);
    if exists|k: int| 0 <= k < cats.len() && #[trigger] cats[k].id == pid {
        let k = choose|k: int| 0 <= k < cats.len() && #[trigger] cats[k].id == pid;
        assert(ids[k] == pid);
    }
    if let Some(k) = last_with_id(ids, pid) {
        assert(cats[k].id == ids[k]);
        assert forall|j: int| k < j < cats.len() implies cats[j].id != pid by {
            assert(ids[j] == cats[j].id);
        }
    }
}

/// The ids of `categories`, in order.
fn collect_ids(categories: &[CategoryResponseDto]) -> (v: Vec<i64>)
    ensures
        v@ == ids_of(categories@),
{
    let mut v: Vec<i64> = Vec::new();
    let n = categories.len();
    let mut i: usize = 0;
    while i < n
        invariant
            i <= n,
            n == categories@.len(),
            v@ == ids_of(categories@).take(i as int),
        decreases n - i,
    {
        v.push(categories[i].id);
        i = i + 1;
        assert(v@ =~= ids_of(categories@).take(i as int));
    }
    assert(v@ =~= ids_of(categories@));
    v
}

impl CategoryRow {
    /// One row per category, in the same order, with the English name of
    /// its parent looked up by id in the same list.
    pub fn build_rows(categories: &[CategoryResponseDto]) -> (rows: Vec<CategoryRow>)
        ensures
            rows@.len() == categories@.len(),
            forall|i: int|
                #![trigger rows@[i]]
                0 <= i < rows@.len() ==> {
                    let c = categories@[i];
                    let r = rows@[i];
                    &&& r.id == c.id
                    &&& r.name_en == c.name_en
                    &&& r.name_ar == c.name_ar
                    &&& r.notes == c.notes
                    &&& r.created_at == c.created_at
                    &&& r.parent_name == parent_name_in(categories@, c.parent_id)
                },
    {
        let ids = collect_ids(categories);
        let index = index_by_id(&ids);
        let mut rows: Vec<CategoryRow> = Vec::new();
        let n = categories.len();
        let mut i: usize = 0;
        while i < n
            invariant
                i <= n,
                n == categories@.len(),
                ids@ == ids_of(categories@),
                forall|id: i64|
                    #![trigger index@.contains_key(id)]
                    #![trigger last_with_id(ids@, id)]
                    (index@.contains_key(id) <==> last_with_id(ids@, id) is Some)
                    && (index@.contains_key(id) ==> last_with_id(ids@, id) == Some(index@[id] as int)),
                rows@.len() == i,
                forall|j: int|
                    #![trigger rows@[j]]
                    0 <= j < i ==> {
                        let c = categories@[j];
                        let r = rows@[j];
                        &&& r.id == c.id
                        &&& r.name_en == c.name_en
                        &&& r.name_ar == c.name_ar
                        &&& r.notes == c.notes
                        &&& r.created_at == c.created_at
                        &&& r.parent_name == parent_name_in(categories@, c.parent_id)
                    },
            decreases n - i,
        {
            let c = &categories[i];
            let parent_name = match c.parent_id {
                Some(pid) => match lookup(&index, pid) {
                    Some(k) => {
                        proof {
                            lemma_last_with_id(ids@, pid);
                        }
                        Some(categories[k].name_en.clone())
                    },
                    None => None,
                },
                None => None,
            };
            rows.push(CategoryRow {
                id: c.id,
                name_en: c.name_en.clone(),
                name_ar: c.name_ar.clone(),
                notes: clone_opt(&c.notes),
                created_at: c.created_at,
                parent_name,
            });
            i = i + 1;
        }
        rows
    }
}

/// The category table page.
pub struct CategoryTemplate {
    pub categories: Vec<CategoryRow>,
    pub root_categories: Vec<CategoryResponseDto>,
    pub error_message: Option<String>,
    pub success_message: Option<String>,
    pub current_page: String,
}

/// Each category under parent `parent` below `n` is listed by `with_parent`.
pub proof fn lemma_with_parent_complete(cats: Seq<CategoryResponseDto>, parent: Option<i64>, n: int, y: int)
    requires
        0 <= y < n <= cats.len(),
        cats.len() <= usize::MAX,
        cats[y].parent_id == parent,
    ensures
        with_parent(cats, parent, n).contains(y as usize),
    decreases n,
{
    let prev = with_parent(cats, parent, n - 1);
    if y == n - 1 {
        assert(with_parent(cats, parent, n).last() == y as usize);
    } else {
        lemma_with_parent_complete(cats, parent, n - 1, y);
        let k = choose|k: int| 0 <= k < prev.len() && prev[k] == y as usize;
        if cats[n - 1].parent_id == parent {
            assert(with_parent(cats, parent, n)[k] == y as usize);
        }
    }
}

/// Some path from the top through `d + 1` categories ends at category `x`.
pub open spec fn reaches(cats: Seq<CategoryResponseDto>, d: nat, x: int) -> bool {
    exists|path: Seq<int>| #[trigger] is_root_path(cats, path) && path.len() == d + 1 && path.last() == x
}

/// Every category on a path from the top is in the list.
pub proof fn lemma_root_path_in_range(cats: Seq<CategoryResponseDto>, path: Seq<int>, k: int)
    requires
        is_root_path(cats, path),
        0 <= k < path.len(),
    ensures
        0 <= path[k] < cats.len(),
{
    if k > 0 {
        assert(is_child(cats, path[k - 1], path[k]));
    }
}

/// A category is reached through one category exactly when it is at the top.
pub proof fn lemma_reaches_zero(cats: Seq<CategoryResponseDto>, x: int)
    ensures
        reaches(cats, 0, x) <==> (0 <= x < cats.len() && cats[x].parent_id is None),
{
    if 0 <= x < cats.len() && cats[x].parent_id is None {
        assert(is_root_path(cats, seq![x]));
    }
}

/// A category is reached through `d + 2` categories exactly when it is
/// directly under a category reached through `d + 1`.
pub proof fn lemma_reaches_step(cats: Seq<CategoryResponseDto>, d: nat, y: int)
    ensures
        reaches(cats, d + 1, y) <==> exists|x: int| #[trigger] reaches(cats, d, x) && is_child(cats, x, y),
{
    if reaches(cats, d + 1, y) {
        let p = choose|path: Seq<int>| #[trigger] is_root_path(cats, path) && path.len() == d + 2 && path.last() == y;
        let q = p.drop_last();
        assert(is_child(cats, p[d as int], p[d + 1int]));
        assert forall|k: int| 0 <= k < q.len() - 1 implies is_child(cats, #[trigger] q[k], q[k + 1]) by {
            assert(is_child(cats, p[k], p[k + 1]));
        }
        assert(is_root_path(cats, q));
        assert(reaches(cats, d, p[d as int]));
    }
    if exists|x: int| #[trigger] reaches(cats, d, x) && is_child(cats, x, y) {
        let x = choose|x: int| #[trigger] reaches(cats, d, x) && is_child(cats, x, y);
        let q = choose|path: Seq<int>| #[trigger] is_root_path(cats, path) && path.len() == d + 1 && path.last() == x;
        let p = q.push(y);
        assert forall|k: int| 0 <= k < p.len() - 1 implies is_child(cats, #[trigger] p[k], p[k + 1]) by {
            if k < q.len() - 1 {
                assert(is_child(cats, q[k], q[k + 1]));
            }
        }
        assert(is_root_path(cats, p));
    }
}

/// When no category is reached through `d + 1` categories, no path from the
/// top holds more than `d`.
pub proof fn lemma_no_reach_bounds(cats: Seq<CategoryResponseDto>, d: nat)
    requires
        forall|x: int| 0 <= x < cats.len() ==> !reaches(cats, d, x),
    ensures
        forall|path: Seq<int>| #[trigger] is_root_path(cats, path) ==> path.len() <= d,
{
    assert forall|path: Seq<int>| #[trigger] is_root_path(cats, path) implies path.len() <= d by {
        if path.len() > d {
            let q = path.take(d + 1int);
            assert forall|k: int| 0 <= k < q.len() - 1 implies is_child(cats, #[trigger] q[k], q[k + 1]) by {
                assert(is_child(cats, path[k], path[k + 1]));
            }
            assert(is_root_path(cats, q));
            lemma_root_path_in_range(cats, path, d as int);
            assert(reaches(cats, d, path[d as int]));
        }
    }
}

/// Some category at position below `upto` that `level` marks has `y`
/// directly under it.
pub open spec fn fed_by(cats: Seq<CategoryResponseDto>, level: Seq<bool>, upto: int, y: int) -> bool {
    exists|x: int| 0 <= x < upto && #[trigger] level[x] && is_child(cats, x, y)
}

/// The categories directly under the categories that `level` marks.
fn next_level(
    cats: &[CategoryResponseDto],
    children_map: &HashMap<i64, Vec<usize>>,
    level: &Vec<bool>,
) -> (next: Vec<bool>)
    requires
        level@.len() == cats@.len(),
        forall|id: i64|
            #[trigger] kids_in(children_map@, id) == with_parent(cats@, Some(id), cats@.len() as int),
    ensures
        next@.len() == cats@.len(),
        forall|y: int| 0 <= y < cats@.len() ==> #[trigger] next@[y] == fed_by(cats@, level@, cats@.len() as int, y),
{
    let n = cats.len();
    let mut next: Vec<bool> = Vec::new();
    let mut i: usize = 0;
    while i < n
        invariant
            i <= n,
            next@.len() == i,
            forall|y: int| 0 <= y < i ==> !#[trigger] next@[y],
        decreases n - i,
    {
        next.push(false);
        i = i + 1;
    }
    let mut x: usize = 0;
    while x < n
        invariant
            x <= n,
            n == cats@.len(),
            level@.len() == n,
            next@.len() == n,
            forall|id: i64|
                #[trigger] kids_in(children_map@, id) == with_parent(cats@, Some(id), cats@.len() as int),
            forall|y: int| 0 <= y < n ==> #[trigger] next@[y] == fed_by(cats@, level@, x as int, y),
        decreases n - x,
    {
        let ghost before = next@;
        let ghost xi = x as int;
        if level[x] {
            let id = cats[x].id;
            proof {
                lemma_with_parent(cats@, Some(id), n as int);
            }
            match children_map.get(&id) {
                Some(kids) => {
                    proof {
                        assert(kids@ == kids_in(children_map@, id));
                    }
                    let m = kids.len();
                    let mut j: usize = 0;
                    while j < m
                        invariant
                            j <= m,
                            m == kids@.len(),
                            n == cats@.len(),
                            next@.len() == n,
                            kids@ == with_parent(cats@, Some(id), n as int),
                            forall|q: int|
                                0 <= q < kids@.len() ==> {
                                    let p = #[trigger] kids@[q];
                                    &&& 0 <= p < n
                                    &&& cats@[p as int].parent_id == Some(id)
                                },
                            forall|y: int|
                                0 <= y < n ==> #[trigger] next@[y] == (before[y] || exists|q: int|
                                    0 <= q < j && #[trigger] kids@[q] == y),
                        decreases m - j,
                    {
                        let k = kids[j];
                        next.set(k, true);
                        j = j + 1;
                        assert forall|y: int| 0 <= y < n implies #[trigger] next@[y] == (before[y]
                            || exists|q: int| 0 <= q < j && #[trigger] kids@[q] == y) by {
                            if y == k {
                                assert(kids@[j - 1] == y);
                            }
                        }
                    }
                    proof {
                        assert forall|y: int| 0 <= y < n implies #[trigger] next@[y] == (before[y]
                            || is_child(cats@, xi, y)) by {
                            if is_child(cats@, xi, y) {
                                lemma_with_parent_complete(cats@, Some(id), n as int, y);
                                let q = choose|q: int| 0 <= q < kids@.len() && kids@[q] == y as usize;
                                assert(kids@[q] == y);
                            }
                        }
                    }
                },
                None => {
                    proof {
                        assert forall|y: int| 0 <= y < n implies !is_child(cats@, xi, y) by {
                            if is_child(cats@, xi, y) {
                                lemma_with_parent_complete(cats@, Some(id), n as int, y);
                                assert(kids_in(children_map@, id).len() == 0);
                            }
                        }
                    }
                },
            }
        }
        proof {
            assert forall|y: int| 0 <= y < n implies #[trigger] next@[y] == fed_by(cats@, level@, xi + 1, y) by {
                if fed_by(cats@, level@, xi + 1, y) && !fed_by(cats@, level@, xi, y) {
                    let w = choose|w: int| 0 <= w < xi + 1 && #[trigger] level@[w] && is_child(cats@, w, y);
                    assert(w == xi);
                }
                if fed_by(cats@, level@, xi, y) {
                    let w = choose|w: int| 0 <= w < xi && #[trigger] level@[w] && is_child(cats@, w, y);
                    assert(0 <= w < xi + 1 && level@[w] && is_child(cats@, w, y));
                }
                if level@[xi] && is_child(cats@, xi, y) {
                    assert(0 <= xi < xi + 1 && level@[xi] && is_child(cats@, xi, y));
                }
            }
        }
        x = x + 1;
    }
    next
}

impl CategoryTreeDto {
    /// Whether `build_tree` accepts the list: walking down from the
    /// categories at the top always ends.
    pub fn can_build_tree(cats: &[CategoryResponseDto]) -> (r: bool)
        ensures
            r == descent_ends(cats@),
    {
        let n = cats.len();
        let (children_map, _roots) = children_by_parent(cats);
        let mut level: Vec<bool> = Vec::new();
        let mut i: usize = 0;
        while i < n
            invariant
                i <= n,
                n == cats@.len(),
                level@.len() == i,
                forall|x: int| 0 <= x < i ==> #[trigger] level@[x] == reaches(cats@, 0, x),
            decreases n - i,
        {
            proof {
                lemma_reaches_zero(cats@, i as int);
            }
            level.push(cats[i].parent_id.is_none());
            i = i + 1;
        }
        let mut d: usize = 0;
        loop
            invariant
                d <= n,
                n == cats@.len(),
                level@.len() == n,
                forall|id: i64|
                    #[trigger] kids_in(children_map@, id) == with_parent(cats@, Some(id), cats@.len() as int),
                forall|x: int| 0 <= x < n ==> #[trigger] level@[x] == reaches(cats@, d as nat, x),
            decreases n - d,
        {
            let mut any = false;
            let mut x: usize = 0;
            while x < n
                invariant
                    x <= n,
                    d <= n,
                    n == cats@.len(),
                    level@.len() == n,
                    forall|w: int| 0 <= w < n ==> #[trigger] level@[w] == reaches(cats@, d as nat, w),
                    any == exists|w: int| 0 <= w < x && #[trigger] level@[w],
                decreases n - x,
            {
                if level[x] {
                    any = true;
                }
                x = x + 1;
            }
            if !any {
                proof {
                    assert forall|w: int| 0 <= w < n implies !reaches(cats@, d as nat, w) by {
                        assert(!level@[w]);
                    }
                    lemma_no_reach_bounds(cats@, d as nat);
                    assert forall|path: Seq<int>| #[trigger] is_root_path(cats@, path) implies path.len()
                        <= cats@.len() by {}
                }
                return true;
            }
            if d == n {
                proof {
                    let w = choose|w: int| 0 <= w < x && #[trigger] level@[w];
                    assert(reaches(cats@, d as nat, w));
                    let p = choose|path: Seq<int>| #[trigger] is_root_path(cats@, path) && path.len() == d + 1
                        && path.last() == w;
                    assert(is_root_path(cats@, p));
                    assert(!(p.len() <= cats@.len()));
                }
                return false;
            }
            let next = next_level(cats, &children_map, &level);
            proof {
                assert forall|y: int| 0 <= y < n implies #[trigger] next@[y] == reaches(cats@, (d + 1) as nat, y) by {
                    lemma_reaches_step(cats@, d as nat, y);
                    if fed_by(cats@, level@, n as int, y) {
                        let w = choose|w: int| 0 <= w < n && #[trigger] level@[w] && is_child(cats@, w, y);
                        assert(reaches(cats@, d as nat, w));
                    }
                    if reaches(cats@, (d + 1) as nat, y) {
                        let w = choose|w: int| #[trigger] reaches(cats@, d as nat, w) && is_child(cats@, w, y);
                        assert(level@[w]);
                    }
                }
            }
            level = next;
            d = d + 1;
        }
    }
}

} // verus!
