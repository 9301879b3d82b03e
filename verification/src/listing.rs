//! Snapshots of the registry: what it means for a sequence of tasks to list
//! the live tasks, and what follows for the registry's operations.
//!
//! The registry's value is a map from each live identifier to the label of
//! its task. Storing a task is `insert` on that map, removing one is `remove`,
//! and removing all leaves the empty map. The theorems below are stated over
//! these, for every listing that an operation may return.

use crate::task::{Task, TaskView};
use vstd::prelude::*;

verus! {

/// The value of a registry: the label of each live task, under the task's
/// identifier.
pub type LiveTasks = Map<Seq<char>, Seq<char>>;

/// The values of a sequence of tasks, in the same order.
pub open spec fn views_of(tasks: Seq<Task>) -> Seq<TaskView> {
    tasks.map_values(|task: Task| task@)
}

/// `listing` is a snapshot of `live`: each of its tasks is live under its
/// identifier with its label, no identifier occurs twice, and no live
/// identifier is missing. The order is free.
pub open spec fn is_listing(live: LiveTasks, listing: Seq<TaskView>) -> bool {
    &&& forall|i: int|
        0 <= i < listing.len() ==> {
            &&& #[trigger] live.contains_key(listing[i].id)
            &&& live[listing[i].id] == listing[i].name
        }
    &&& forall|i: int, j: int| 0 <= i < j < listing.len() ==> listing[i].id != listing[j].id
    &&& forall|id: Seq<char>| #[trigger]
        live.contains_key(id) ==> exists|i: int| 0 <= i < listing.len() && listing[i].id == id
}

/// The identifiers of a sequence of tasks, in the same order.
pub open spec fn ids_of(tasks: Seq<TaskView>) -> Seq<Seq<char>> {
    tasks.map_values(|task: TaskView| task.id)
}

/// The registry's value after the tasks of `added` were stored one after the
/// other, the first of them first.
pub open spec fn with_all(live: LiveTasks, added: Seq<TaskView>) -> LiveTasks
    decreases added.len(),
{
    if added.len() == 0 {
        live
    } else {
        with_all(live, added.drop_last()).insert(added.last().id, added.last().name)
    }
}

/// A task is listed exactly when it is live: when its identifier is a key of
/// the registry and leads to its label.
pub proof fn lemma_listed_iff_live(live: LiveTasks, listing: Seq<TaskView>, task: TaskView)
    requires
        is_listing(live, listing),
    ensures
        listing.contains(task) <==> live.contains_key(task.id) && live[task.id] == task.name,
{
    if listing.contains(task) {
        let i = choose|i: int| 0 <= i < listing.len() && listing[i] == task;
        assert(live.contains_key(listing[i].id));
    }
    if live.contains_key(task.id) && live[task.id] == task.name {
        let i = choose|i: int| 0 <= i < listing.len() && listing[i].id == task.id;
        assert(live.contains_key(listing[i].id));
        assert(listing[i] == task);
    }
}

/// No task occurs twice in a listing.
pub proof fn lemma_listing_has_no_duplicates(live: LiveTasks, listing: Seq<TaskView>)
    requires
        is_listing(live, listing),
    ensures
        listing.no_duplicates(),
        ids_of(listing).no_duplicates(),
{
}

/// A listing has as many tasks as the registry has live identifiers, and the
/// registry has finitely many.
pub proof fn lemma_listing_counts_live(live: LiveTasks, listing: Seq<TaskView>)
    requires
        is_listing(live, listing),
    ensures
        live.dom().finite(),
        live.dom().len() == listing.len(),
{
    let ids = ids_of(listing);
    assert forall|id: Seq<char>| ids.contains(id) <==> live.contains_key(id) by {
        if ids.contains(id) {
            let i = choose|i: int| 0 <= i < ids.len() && ids[i] == id;
            assert(live.contains_key(listing[i].id));
        }
        if live.contains_key(id) {
            let i = choose|i: int| 0 <= i < listing.len() && listing[i].id == id;
            assert(ids[i] == id);
        }
    }
    assert(ids.to_set() =~= live.dom());
    vstd::seq_lib::seq_to_set_is_finite(ids);
    ids.unique_seq_to_set();
}

/// Two listings of one registry hold the same tasks, whatever their order.
pub proof fn lemma_listings_agree(live: LiveTasks, first: Seq<TaskView>, second: Seq<TaskView>)
    requires
        is_listing(live, first),
        is_listing(live, second),
    ensures
        first.to_set() == second.to_set(),
        first.len() == second.len(),
{
    assert forall|task: TaskView| first.contains(task) <==> second.contains(task) by {
        lemma_listed_iff_live(live, first, task);
        lemma_listed_iff_live(live, second, task);
    }
    assert(first.to_set() =~= second.to_set());
    lemma_listing_counts_live(live, first);
    lemma_listing_counts_live(live, second);
}

/// Round trip. Once a task was stored under `id` with the label `name`, every
/// listing holds that task exactly once. It was listed before only if `id`
/// was live already, with the same label; if `id` was not live, the listing
/// has grown by this one task.
pub proof fn lemma_added_task_is_listed_once(
    before: LiveTasks,
    prior: Seq<TaskView>,
    id: Seq<char>,
    name: Seq<char>,
    listing: Seq<TaskView>,
)
    requires
        is_listing(before, prior),
        is_listing(before.insert(id, name), listing),
    ensures
        listing.to_multiset().count(TaskView { id, name }) == 1,
        prior.contains(TaskView { id, name }) <==> before.contains_key(id) && before[id] == name,
        !before.contains_key(id) ==> listing.len() == prior.len() + 1,
{
    let task = TaskView { id, name };
    let after = before.insert(id, name);
    lemma_listed_iff_live(after, listing, task);
    lemma_listed_iff_live(before, prior, task);
    lemma_listing_has_no_duplicates(after, listing);
    listing.to_multiset_ensures();
    listing.lemma_multiset_has_no_duplicates();
    lemma_listing_counts_live(before, prior);
    lemma_listing_counts_live(after, listing);
}

/// Removal. Once the task under `id` was removed, no listing holds a task
/// with that identifier; in particular none holds a task that was stored
/// under `id` just before. Storing a task under an identifier that was not
/// live and removing it again leaves the registry as it was.
pub proof fn lemma_removed_task_is_not_listed(
    before: LiveTasks,
    id: Seq<char>,
    name: Seq<char>,
    listing: Seq<TaskView>,
)
    requires
        is_listing(before.insert(id, name).remove(id), listing),
    ensures
        forall|i: int| 0 <= i < listing.len() ==> (#[trigger] listing[i]).id != id,
        !listing.contains(TaskView { id, name }),
        before.insert(id, name).remove(id) == before.remove(id),
        !before.contains_key(id) ==> before.insert(id, name).remove(id) == before,
{
    let after = before.insert(id, name).remove(id);
    assert forall|i: int| 0 <= i < listing.len() implies (#[trigger] listing[i]).id != id by {
        assert(after.contains_key(listing[i].id));
    }
    assert(after =~= before.remove(id));
    if !before.contains_key(id) {
        assert(after =~= before);
    }
}

/// Removing an identifier that is not live changes nothing: the registry
/// keeps its value, and a listing taken afterwards holds the same tasks as
/// one taken before.
pub proof fn lemma_removing_absent_id_changes_nothing(
    live: LiveTasks,
    id: Seq<char>,
    prior: Seq<TaskView>,
    listing: Seq<TaskView>,
)
    requires
        !live.contains_key(id),
        is_listing(live, prior),
        is_listing(live.remove(id), listing),
    ensures
        live.remove(id) == live,
        listing.to_set() == prior.to_set(),
        listing.len() == prior.len(),
{
    assert(live.remove(id) =~= live);
    lemma_listings_agree(live, prior, listing);
}

/// Once every task was removed, the only listing is the empty one.
pub proof fn lemma_cleared_registry_lists_nothing(listing: Seq<TaskView>)
    requires
        is_listing(LiveTasks::empty(), listing),
    ensures
        listing.len() == 0,
        listing == Seq::<TaskView>::empty(),
{
    if listing.len() > 0 {
        assert(LiveTasks::empty().contains_key(listing[0].id));
    }
    assert(listing =~= Seq::<TaskView>::empty());
}

/// The live identifiers after a run of additions are those that were live
/// before and those that were added.
pub proof fn lemma_with_all_keys(live: LiveTasks, added: Seq<TaskView>)
    ensures
        with_all(live, added).dom() == live.dom().union(ids_of(added).to_set()),
    decreases added.len(),
{
    let ids = ids_of(added);
    if added.len() == 0 {
        assert(ids.to_set() =~= Set::<Seq<char>>::empty());
        assert(with_all(live, added).dom() =~= live.dom().union(ids.to_set()));
    } else {
        let front = added.drop_last();
        lemma_with_all_keys(live, front);
        assert forall|id: Seq<char>|
            ids.contains(id) <==> ids_of(front).contains(id) || id == added.last().id by {
            if ids.contains(id) {
                let i = choose|i: int| 0 <= i < ids.len() && ids[i] == id;
                if i < front.len() {
                    assert(ids_of(front)[i] == id);
                }
            }
            if ids_of(front).contains(id) {
                let i = choose|i: int| 0 <= i < front.len() && ids_of(front)[i] == id;
                assert(ids[i] == id);
            }
            if id == added.last().id {
                assert(ids[added.len() - 1] == id);
            }
        }
        assert(with_all(live, added).dom() =~= live.dom().union(ids.to_set()));
    }
}

/// A run of additions under identifiers that differ from each other and from
/// the live ones loses nothing: the earlier listing followed by the added
/// tasks lists the registry, so that every later listing holds exactly these
/// tasks.
pub proof fn lemma_adds_under_distinct_ids_are_all_listed(
    live: LiveTasks,
    prior: Seq<TaskView>,
    added: Seq<TaskView>,
)
    requires
        is_listing(live, prior),
        forall|i: int| 0 <= i < added.len() ==> !live.contains_key(#[trigger] added[i].id),
        forall|i: int, j: int| 0 <= i < j < added.len() ==> added[i].id != added[j].id,
    ensures
        is_listing(with_all(live, added), prior + added),
        with_all(live, added).dom().len() == prior.len() + added.len(),
    decreases added.len(),
{
    if added.len() == 0 {
        assert(prior + added =~= prior);
    } else {
        let front = added.drop_last();
        let last = added.last();
        let so_far = with_all(live, front);
        lemma_adds_under_distinct_ids_are_all_listed(live, prior, front);
        lemma_with_all_keys(live, front);
        assert(!so_far.contains_key(last.id)) by {
            if ids_of(front).contains(last.id) {
                let i = choose|i: int| 0 <= i < front.len() && ids_of(front)[i] == last.id;
                assert(added[i].id == added[added.len() - 1].id);
            }
        }
        let now = so_far.insert(last.id, last.name);
        let listing = prior + added;
        assert(listing =~= (prior + front).push(last));
        assert forall|i: int| 0 <= i < listing.len() implies #[trigger] now.contains_key(
            listing[i].id,
        ) && now[listing[i].id] == listing[i].name by {
            if i < listing.len() - 1 {
                assert(so_far.contains_key((prior + front)[i].id));
            }
        }
        assert forall|i: int, j: int| 0 <= i < j < listing.len() implies listing[i].id
            != listing[j].id by {
            if j == listing.len() - 1 {
                assert(so_far.contains_key((prior + front)[i].id));
            }
        }
        assert forall|id: Seq<char>| #[trigger] now.contains_key(id) implies exists|i: int|
            0 <= i < listing.len() && listing[i].id == id by {
            if id == last.id {
                assert(listing[listing.len() - 1].id == id);
            } else {
                assert(so_far.contains_key(id));
                let i = choose|i: int| 0 <= i < (prior + front).len() && (prior + front)[i].id == id;
                assert(listing[i].id == id);
            }
        }
    }
    lemma_listing_counts_live(with_all(live, added), prior + added);
}

/// After a run of additions to an empty registry there are as many live
/// tasks as additions exactly when the identifiers of the additions differ
/// from each other; an identifier that comes twice costs a task.
pub proof fn lemma_live_count_after_adds(added: Seq<TaskView>)
    ensures
        with_all(LiveTasks::empty(), added).dom().finite(),
        with_all(LiveTasks::empty(), added).dom().len() <= added.len(),
        with_all(LiveTasks::empty(), added).dom().len() == added.len() <==> ids_of(added).no_duplicates(),
{
    let ids = ids_of(added);
    lemma_with_all_keys(LiveTasks::empty(), added);
    assert(with_all(LiveTasks::empty(), added).dom() =~= ids.to_set());
    vstd::seq_lib::seq_to_set_is_finite(ids);
    ids.lemma_cardinality_of_set();
    if ids.no_duplicates() {
        ids.unique_seq_to_set();
    }
    if ids.to_set().len() == ids.len() {
        ids.lemma_no_dup_set_cardinality();
    }
}

} // verus!
