//! Sets of strings and maps from strings, kept in `indexmap` collections.

use indexmap::IndexSet;
use vstd::prelude::*;

verus! {

#[verifier::external_type_specification]
#[verifier::external_body]
#[verifier::reject_recursive_types(T)]
#[verifier::reject_recursive_types(S)]
pub struct ExIndexSet<T, S>(IndexSet<T, S>);

/// The strings that the set holds, in the order in which they went in.
pub uninterp spec fn index_set_items(s: IndexSet<String>) -> Seq<Seq<char>>;

/// Relies on `IndexSet::new`: a new set is empty.
#[verifier::external_body]
pub(crate) fn new_name_set() -> (r: IndexSet<String>)
    ensures
        index_set_items(r) == Seq::<Seq<char>>::empty(),
{
    IndexSet::new()
}

/// Relies on `IndexSet::insert`: a string that is already there leaves the
/// set as it was and gives `false`; another one goes in last and gives `true`.
#[verifier::external_body]
pub(crate) fn insert_name(s: &mut IndexSet<String>, v: String) -> (r: bool)
    ensures
        r == !index_set_items(*old(s)).contains(v@),
        index_set_items(*final(s)) == if r {
            index_set_items(*old(s)).push(v@)
        } else {
            index_set_items(*old(s))
        },
{
    s.insert(v)
}

/// Relies on `IndexSet::contains`: whether an equal string is in the set.
#[verifier::external_body]
pub(crate) fn contains_name(s: &IndexSet<String>, v: &String) -> (r: bool)
    ensures
        r == index_set_items(*s).contains(v@),
{
    s.contains(v)
}

} // verus!

verus! {

#[verifier::external_type_specification]
#[verifier::external_body]
#[verifier::reject_recursive_types(K)]
#[verifier::reject_recursive_types(V)]
#[verifier::reject_recursive_types(S)]
pub struct ExIndexMap<K, V, S>(indexmap::IndexMap<K, V, S>);

/// A map from strings to places in a list.
pub type NameMap = indexmap::IndexMap<String, usize>;

/// What the map holds: each key's text with its value.
pub uninterp spec fn index_map_contents(m: NameMap) -> Map<Seq<char>, usize>;

/// Relies on `IndexMap::new`: a new map is empty.
#[verifier::external_body]
pub(crate) fn new_name_map() -> (r: NameMap)
    ensures
        index_map_contents(r).dom() == Set::<Seq<char>>::empty(),
{
    indexmap::IndexMap::new()
}

/// Relies on `IndexMap::insert`: the key is then bound to the value, and the
/// value it was bound to before, if any, comes back.
#[verifier::external_body]
pub(crate) fn map_insert(m: &mut NameMap, k: String, v: usize) -> (r: Option<usize>)
    ensures
        index_map_contents(*final(m)) == index_map_contents(*old(m)).insert(k@, v),
        r == if index_map_contents(*old(m)).contains_key(k@) {
            Some(index_map_contents(*old(m))[k@])
        } else {
            None
        },
{
    m.insert(k, v)
}

/// Relies on `IndexMap::get`: the value bound to the key, if any.
#[verifier::external_body]
pub(crate) fn map_get(m: &NameMap, k: &String) -> (r: Option<usize>)
    ensures
        r == if index_map_contents(*m).contains_key(k@) {
            Some(index_map_contents(*m)[k@])
        } else {
            None
        },
{
    m.get(k).copied()
}

/// Relies on `IndexMap::contains_key`: whether the key is bound.
#[verifier::external_body]
pub(crate) fn map_contains_key(m: &NameMap, k: &String) -> (r: bool)
    ensures
        r == index_map_contents(*m).contains_key(k@),
{
    m.contains_key(k)
}

} // verus!
