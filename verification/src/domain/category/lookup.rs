//! Finding a category by its id, as a map built from a list does it: when
//! two categories share an id, the later one wins.
use vstd::prelude::*;
use std::collections::HashMap;

verus! {

broadcast use vstd::std_specs::hash::group_hash_axioms;

/// The position of the last entry of `ids` equal to `id`, if any.
pub open spec fn last_with_id(ids: Seq<i64>, id: i64) -> Option<int>
    decreases ids.len(),
{
    if ids.len() == 0 {
        None
    } else if ids.last() == id {
        Some(ids.len() - 1)
    } else {
        last_with_id(ids.drop_last(), id)
    }
}

/// A position that `last_with_id` finds holds the id and lies in range.
pub proof fn lemma_last_with_id(ids: Seq<i64>, id: i64)
    ensures
        last_with_id(ids, id) matches Some(k) ==> 0 <= k < ids.len() && ids[k] == id,
        last_with_id(ids, id) is None ==> forall|k: int| 0 <= k < ids.len() ==> ids[k] != id,
    decreases ids.len(),
{
    if ids.len() > 0 && ids.last() != id {
        lemma_last_with_id(ids.drop_last(), id);
        assert forall|k: int| 0 <= k < ids.len() - 1 implies ids[k] == ids.drop_last()[k] by {}
    }
}

/// No entry after the position that `last_with_id` finds has the id.
pub proof fn lemma_last_is_last(ids: Seq<i64>, id: i64)
    ensures
        last_with_id(ids, id) matches Some(k) ==> forall|j: int| k < j < ids.len() ==> ids[j] != id,
    decreases ids.len(),
{
    if ids.len() > 0 && ids.last() != id {
        let rest = ids.drop_last();
        lemma_last_is_last(rest, id);
        lemma_last_with_id(ids, id);
        if let Some(k) = last_with_id(ids, id) {
            assert(last_with_id(rest, id) == Some(k));
            assert forall|j: int| k < j < ids.len() implies ids[j] != id by {
                if j < ids.len() - 1 {
                    assert(rest[j] != id);
                    assert(ids[j] == rest[j]);
                }
            }
        }
    }
}

/// A map from each id to the position of the last entry of `ids` with that id.
pub fn index_by_id(ids: &Vec<i64>) -> (m: HashMap<i64, usize>)
    ensures
        forall|id: i64|
            #![trigger m@.contains_key(id)]
            #![trigger last_with_id(ids@, id)]
            (m@.contains_key(id) <==> last_with_id(ids@, id) is Some)
            && (m@.contains_key(id) ==> last_with_id(ids@, id) == Some(m@[id] as int)),
{
    let mut m: HashMap<i64, usize> = HashMap::new();
    let n = ids.len();
    let mut i: usize = 0;
    while i < n
        invariant
            i <= n,
            n == ids@.len(),
            forall|id: i64|
                #![trigger m@.contains_key(id)]
                (m@.contains_key(id) <==> last_with_id(ids@.take(i as int), id) is Some)
                && (m@.contains_key(id) ==> last_with_id(ids@.take(i as int), id) == Some(m@[id] as int)),
        decreases n - i,
    {
        let ghost prefix = ids@.take(i + 1);
        proof {
            assert(prefix.drop_last() =~= ids@.take(i as int));
        }
        m.insert(ids[i], i);
        i = i + 1;
        assert forall|id: i64| #![trigger m@.contains_key(id)]
            (m@.contains_key(id) <==> last_with_id(ids@.take(i as int), id) is Some)
            && (m@.contains_key(id) ==> last_with_id(ids@.take(i as int), id) == Some(m@[id] as int)) by {
            assert(ids@.take(i as int) == prefix);
        }
    }
    assert(ids@.take(n as int) =~= ids@);
    m
}

/// Looks up `id` in a map built by `index_by_id`.
pub fn lookup(m: &HashMap<i64, usize>, id: i64) -> (r: Option<usize>)
    ensures
        match r {
            Some(k) => m@.contains_key(id) && m@[id] == k,
            None => !m@.contains_key(id),
        },
{
    match m.get(&id) {
        Some(k) => Some(*k),
        None => None,
    }
}

} // verus!
