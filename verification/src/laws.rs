//! What holds across the operations of the store, stated on its value.

use crate::database::{loadable, loaded, StoreView};
use crate::models::{TaskStatus, TaskView};
use vstd::prelude::*;

verus! {

/// Adding a task files it, as it is, under an id that no task had before
/// and that is at least 1, leaves the tasks that were there as they were,
/// and raises the next id.
pub proof fn lemma_add_uses_fresh_id(store: StoreView, task: TaskView)
    requires
        store.wf(),
        store.next_id < i32::MAX,
    ensures
        1 <= store.next_id,
        !store.tasks.contains_key(store.next_id),
        store.added(task).wf(),
        store.added(task).next_id == store.next_id + 1,
        store.added(task).tasks.dom() == store.tasks.dom().insert(store.next_id),
        store.added(task).tasks[store.next_id] == (TaskView { id: store.next_id, ..task }),
        forall|k: i32| #[trigger]
            store.tasks.contains_key(k) ==> store.added(task).tasks[k] == store.tasks[k],
{
}

/// Of two tasks added one after the other, the second gets the larger id,
/// and both are then in the store with the status they came with.
pub proof fn lemma_add_ids_increase(store: StoreView, first: TaskView, second: TaskView)
    requires
        store.wf(),
        store.next_id < i32::MAX - 1,
    ensures
        ({
            let once = store.added(first);
            let twice = once.added(second);
            &&& once.next_id > store.next_id
            &&& twice.tasks.contains_key(store.next_id)
            &&& twice.tasks.contains_key(once.next_id)
            &&& twice.tasks[store.next_id].status == first.status
            &&& twice.tasks[once.next_id].status == second.status
        }),
{
    lemma_add_uses_fresh_id(store, first);
    lemma_add_uses_fresh_id(store.added(first), second);
}

/// Completing, or dispatching some tasks, hands out no id: the next id
/// stays, and so do the ids in use.
pub proof fn lemma_ids_stay(store: StoreView, id: i32, ids: Set<i32>)
    requires
        store.wf(),
        store.tasks.contains_key(id),
    ensures
        store.completed(id).next_id == store.next_id,
        store.completed(id).tasks.dom() == store.tasks.dom(),
        store.completed(id).wf(),
        store.processing(ids).next_id == store.next_id,
        store.processing(ids).tasks.dom() == store.tasks.dom(),
        store.processing(ids).wf(),
{
}

/// A list of the store's tasks under a filter names each id that passes
/// the filter once and no other id: all ids in use where there is no
/// filter, else the ids of the tasks with the wanted status.
pub proof fn lemma_list_is_exact(store: StoreView, wanted: Option<TaskStatus>, list: Seq<TaskView>)
    requires
        store.wf(),
        store.lists(wanted, list),
    ensures
        list.map_values(|t: TaskView| t.id).no_duplicates(),
        list.map_values(|t: TaskView| t.id).to_set() == (match wanted {
            Some(status) => store.ids_with(status),
            None => store.tasks.dom(),
        }),
        list.len() == (match wanted {
            Some(status) => store.count(status),
            None => store.total(),
        }),
{
    let ids = list.map_values(|t: TaskView| t.id);
    let expected = match wanted {
        Some(status) => store.ids_with(status),
        None => store.tasks.dom(),
    };
    assert forall|k: i32| ids.to_set().contains(k) implies expected.contains(k) by {
        let i = choose|i: int| 0 <= i < ids.len() && ids[i] == k;
        assert(store.tasks.contains_key(list[i].id));
    }
    assert forall|k: i32| expected.contains(k) implies ids.to_set().contains(k) by {
        let i = choose|i: int| 0 <= i < list.len() && #[trigger] list[i].id == k;
        assert(ids[i] == k);
    }
    assert forall|i: int, j: int| 0 <= i < ids.len() && 0 <= j < ids.len() && i != j implies ids[i]
        != ids[j] by {
        if i < j {
            assert(list[i].id != list[j].id);
        } else {
            assert(list[j].id != list[i].id);
        }
    }
    ids.unique_seq_to_set();
}

/// Completing a task a second time changes nothing: the task is there
/// after the first time, completed, and the store is the same after the
/// second.
pub proof fn lemma_complete_is_idempotent(store: StoreView, id: i32)
    requires
        store.wf(),
        store.tasks.contains_key(id),
    ensures
        store.completed(id).tasks.contains_key(id),
        store.completed(id).tasks[id].status == TaskStatus::Completed,
        store.completed(id).completed(id) == store.completed(id),
{
    assert(store.completed(id).completed(id).tasks =~= store.completed(id).tasks);
}

/// The three counts by status add up to the total.
pub proof fn lemma_counts_sum_to_total(store: StoreView)
    requires
        store.wf(),
    ensures
        store.count(TaskStatus::Pending) + store.count(TaskStatus::Processing) + store.count(
            TaskStatus::Completed,
        ) == store.total(),
{
    let ids = store.tasks.dom();
    let pending = store.ids_with(TaskStatus::Pending);
    let processing = store.ids_with(TaskStatus::Processing);
    let completed = store.ids_with(TaskStatus::Completed);
    ids.lemma_len_filter(|k: i32| store.tasks[k].status == TaskStatus::Pending);
    ids.lemma_len_filter(|k: i32| store.tasks[k].status == TaskStatus::Processing);
    ids.lemma_len_filter(|k: i32| store.tasks[k].status == TaskStatus::Completed);
    vstd::set_lib::lemma_set_disjoint_lens(pending, processing);
    vstd::set_lib::lemma_set_disjoint_lens(pending + processing, completed);
    assert(pending + processing + completed =~= ids);
}

/// The total is the number of tasks added: each added task raises it by
/// one, and neither completing nor dispatching changes it.
pub proof fn lemma_total_counts_added(store: StoreView, task: TaskView, id: i32, ids: Set<i32>)
    requires
        store.wf(),
        store.next_id < i32::MAX,
    ensures
        store.added(task).total() == store.total() + 1,
        store.tasks.contains_key(id) ==> store.completed(id).total() == store.total(),
        store.processing(ids).total() == store.total(),
{
    lemma_add_uses_fresh_id(store, task);
    assert(store.processing(ids).tasks.dom() =~= store.tasks.dom());
}

/// Dispatching turns every pending task into one being processed, changes
/// nothing else of it, and leaves every other task as it was. No task is
/// pending afterwards, and those being processed are the ones that were so
/// before and the ones that were pending.
pub proof fn lemma_dispatch_moves_pending(store: StoreView)
    requires
        store.wf(),
    ensures
        store.dispatched().wf(),
        store.dispatched().tasks.dom() == store.tasks.dom(),
        forall|k: i32| #[trigger]
            store.tasks.contains_key(k) ==> store.dispatched().tasks[k] == (
            if store.tasks[k].status == TaskStatus::Pending {
                TaskView { status: TaskStatus::Processing, ..store.tasks[k] }
            } else {
                store.tasks[k]
            }),
        store.dispatched().count(TaskStatus::Pending) == 0,
        store.dispatched().count(TaskStatus::Processing) == store.count(TaskStatus::Pending)
            + store.count(TaskStatus::Processing),
        store.dispatched().count(TaskStatus::Completed) == store.count(TaskStatus::Completed),
{
    let after = store.dispatched();
    let ids = store.tasks.dom();
    let pending = store.ids_with(TaskStatus::Pending);
    let processing = store.ids_with(TaskStatus::Processing);
    assert(after.tasks.dom() =~= ids);
    ids.lemma_len_filter(|k: i32| store.tasks[k].status == TaskStatus::Pending);
    ids.lemma_len_filter(|k: i32| store.tasks[k].status == TaskStatus::Processing);
    assert(after.ids_with(TaskStatus::Pending) =~= Set::<i32>::empty());
    assert(after.ids_with(TaskStatus::Processing) =~= pending + processing);
    assert(after.ids_with(TaskStatus::Completed) =~= store.ids_with(TaskStatus::Completed));
    vstd::set_lib::lemma_set_disjoint_lens(pending, processing);
}

/// A task added after a dispatch is not touched by it: it is in the store
/// with the status it came with.
pub proof fn lemma_added_after_dispatch(store: StoreView, task: TaskView)
    requires
        store.wf(),
        store.next_id < i32::MAX,
    ensures
        store.dispatched().added(task).tasks[store.next_id] == (TaskView {
            id: store.next_id,
            ..task
        }),
{
}

/// Saving and loading gives the same store back: the entries of any list
/// of all tasks, with the next id, are accepted, and the store rebuilt
/// from them has the same tasks under the same ids, the same next id and
/// the same path.
pub proof fn lemma_restore_round_trip(store: StoreView, list: Seq<TaskView>)
    requires
        store.wf(),
        store.lists(None, list),
    ensures
        loadable(list.map_values(|t: TaskView| (t.id, t)), store.next_id),
        loaded(store.path, list.map_values(|t: TaskView| (t.id, t)), store.next_id) == store,
{
    let entries = list.map_values(|t: TaskView| (t.id, t));
    let rebuilt = loaded(store.path, entries, store.next_id);
    assert forall|i: int| 0 <= i < entries.len() implies (#[trigger] entries[i]).0
        == entries[i].1.id && entries[i].0 < store.next_id by {
        assert(store.tasks.contains_key(list[i].id));
    }
    assert forall|i: int, j: int| 0 <= i < j < entries.len() implies (#[trigger] entries[i]).0 != (
    #[trigger] entries[j]).0 by {
        assert(list[i].id != list[j].id);
    }
    assert forall|k: i32| rebuilt.tasks.contains_key(k) implies store.tasks.contains_key(k)
        && rebuilt.tasks[k] == store.tasks[k] by {
        let i = choose|i: int| 0 <= i < entries.len() && (#[trigger] entries[i]).0 == k;
        assert(store.tasks.contains_key(list[i].id));
    }
    assert forall|k: i32| store.tasks.contains_key(k) implies rebuilt.tasks.contains_key(k) by {
        let i = choose|i: int| 0 <= i < list.len() && #[trigger] list[i].id == k;
        assert(entries[i].0 == k);
    }
    assert(rebuilt.tasks =~= store.tasks);
}

} // verus!
