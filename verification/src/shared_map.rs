//! The concurrent hash map that holds the tasks, and what is taken on trust
//! about it. Nothing in this file is proved: each contract restates what the
//! `dashmap` crate does, for a caller that has the map to itself.
//!
//! `DashMap` changes through `&self`. The functions here that change a map
//! take it by `&mut` all the same, so that no other reference to the map is
//! alive during the call: the contracts then need not speak of other callers,
//! and the deadlocks that the crate warns of, for a caller that holds a
//! reference into the map, cannot arise.

use crate::task::{Task, TaskView};
use dashmap::DashMap;
use vstd::prelude::*;

verus! {

/// Makes `dashmap::DashMap` known as a type. Nothing inside a map is
/// visible; what it holds is spoken of through [`entries_of`].
#[verifier::external_type_specification]
#[verifier::external_body]
#[verifier::reject_recursive_types(K)]
#[verifier::reject_recursive_types(V)]
#[verifier::reject_recursive_types(S)]
pub struct ExDashMap<K, V, S>(DashMap<K, V, S>);

/// What a map of tasks holds: every key that is present, with the value of
/// the task stored under it.
pub uninterp spec fn entries_of(map: DashMap<String, Task>) -> Map<Seq<char>, TaskView>;

/// `DashMap::new`: a map that holds nothing.
#[verifier::external_body]
pub(crate) fn empty_map() -> (map: DashMap<String, Task>)
    ensures
        entries_of(map) == (Map::<Seq<char>, TaskView>::empty()),
{
    DashMap::new()
}

/// `DashMap::insert`: afterwards `key` leads to `task`, whether or not it was
/// present before, and every other key is as it was. The value that the call
/// hands back, the one that was replaced, is dropped.
#[verifier::external_body]
pub(crate) fn put(map: &mut DashMap<String, Task>, key: String, task: Task)
    ensures
        entries_of(*final(map)) == entries_of(*old(map)).insert(key@, task@),
{
    map.insert(key, task);
}

/// `DashMap::remove`: afterwards `key` is absent and every other key is as it
/// was; where `key` was absent already, nothing changes. The removed entry
/// that the call hands back is dropped.
#[verifier::external_body]
pub(crate) fn take_out(map: &mut DashMap<String, Task>, key: &String)
    ensures
        entries_of(*final(map)) == entries_of(*old(map)).remove(key@),
{
    map.remove(key);
}

/// `DashMap::clear`: afterwards the map holds nothing.
#[verifier::external_body]
pub(crate) fn wipe(map: &mut DashMap<String, Task>)
    ensures
        entries_of(*final(map)) == (Map::<Seq<char>, TaskView>::empty()),
{
    map.clear();
}

/// `DashMap::clone`: a second map with the same keys, each leading to a
/// `Clone::clone` of the task, which has the same value.
#[verifier::external_body]
pub(crate) fn copy_of(map: &DashMap<String, Task>) -> (copy: DashMap<String, Task>)
    ensures
        entries_of(copy) == entries_of(*map),
{
    map.clone()
}

/// `DashMap::into_iter`, collected: every entry of the map exactly once, as a
/// pair of key and task. The order follows a hasher that each map seeds anew,
/// so nothing is said of it.
#[verifier::external_body]
pub(crate) fn into_pairs(map: DashMap<String, Task>) -> (pairs: Vec<(String, Task)>)
    ensures
        forall|i: int|
            0 <= i < pairs@.len() ==> {
                &&& #[trigger] entries_of(map).contains_key(pairs@[i].0@)
                &&& entries_of(map)[pairs@[i].0@] == pairs@[i].1@
            },
        forall|i: int, j: int|
            0 <= i < j < pairs@.len() ==> pairs@[i].0@ != pairs@[j].0@,
        forall|key: Seq<char>| #[trigger]
            entries_of(map).contains_key(key) ==> exists|i: int|
                0 <= i < pairs@.len() && pairs@[i].0@ == key,
{
    map.into_iter().collect()
}

} // verus!
