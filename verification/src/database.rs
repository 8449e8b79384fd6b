//! The task store: tasks keyed by id, and the counter that hands out ids.

use crate::models::{Task, TaskStatistics, TaskStatus, TaskView};
use crate::text::{decimal, decimal_string};
use std::collections::hash_map::Entry;
use std::collections::HashMap;
use vstd::prelude::*;
use vstd::std_specs::hash::*;
use vstd::std_specs::iter::IteratorSpec;
use vstd::string::*;

verus! {

broadcast use vstd::std_specs::hash::group_hash_axioms;

/// The mathematical value of a [`Database`].
pub struct StoreView {
    pub tasks: Map<i32, TaskView>,
    pub next_id: i32,
    pub path: Seq<char>,
}

impl StoreView {
    /// Ids start at 1: the next one to be handed out is at least 1, every
    /// id in use lies from 1 up to, and not including, the next one, and
    /// every task is filed under its own id.
    pub open spec fn wf(self) -> bool {
        &&& self.tasks.dom().finite()
        &&& 1 <= self.next_id
        &&& forall|k: i32| #[trigger]
            self.tasks.contains_key(k) ==> self.tasks[k].id == k && 1 <= k < self.next_id
    }

    /// Whether a task with status `status` passes the filter `wanted`.
    pub open spec fn passes(wanted: Option<TaskStatus>, status: TaskStatus) -> bool {
        match wanted {
            Some(s) => status == s,
            None => true,
        }
    }

    /// Whether `list` holds exactly the tasks of the store that pass the
    /// filter `wanted`, each of them once, in any order.
    pub open spec fn lists(self, wanted: Option<TaskStatus>, list: Seq<TaskView>) -> bool {
        &&& forall|i: int|
            0 <= i < list.len() ==> {
                &&& self.tasks.contains_key(#[trigger] list[i].id)
                &&& self.tasks[list[i].id] == list[i]
                &&& Self::passes(wanted, list[i].status)
            }
        &&& forall|i: int, j: int|
            0 <= i < j < list.len() ==> #[trigger] list[i].id != #[trigger] list[j].id
        &&& forall|k: i32|
            #[trigger] self.tasks.contains_key(k) && Self::passes(wanted, self.tasks[k].status)
                ==> exists|i: int| 0 <= i < list.len() && #[trigger] list[i].id == k
    }

    /// The ids of the tasks with the status `status`.
    pub open spec fn ids_with(self, status: TaskStatus) -> Set<i32> {
        self.tasks.dom().filter(|k: i32| self.tasks[k].status == status)
    }

    /// How many tasks have the status `status`.
    pub open spec fn count(self, status: TaskStatus) -> nat {
        self.ids_with(status).len()
    }

    /// How many tasks the store holds.
    pub open spec fn total(self) -> nat {
        self.tasks.dom().len()
    }

    /// The store after `task` was added under the next id.
    pub open spec fn added(self, task: TaskView) -> StoreView {
        StoreView {
            tasks: self.tasks.insert(self.next_id, TaskView { id: self.next_id, ..task }),
            next_id: (self.next_id + 1) as i32,
            path: self.path,
        }
    }

    /// The store after the tasks `ids` were marked as being processed.
    pub open spec fn processing(self, ids: Set<i32>) -> StoreView {
        StoreView {
            tasks: Map::new(
                |k: i32| self.tasks.contains_key(k),
                |k: i32|
                    if ids.contains(k) {
                        TaskView { status: TaskStatus::Processing, ..self.tasks[k] }
                    } else {
                        self.tasks[k]
                    },
            ),
            ..self
        }
    }

    /// The store after every pending task was marked as being processed.
    pub open spec fn dispatched(self) -> StoreView {
        self.processing(self.ids_with(TaskStatus::Pending))
    }

    /// Whether `after` is the store with some of its pending tasks, and at
    /// least one of them, marked as being processed.
    pub open spec fn partly_dispatched(self, after: StoreView) -> bool {
        exists|sent: Set<i32>|
            {
                &&& sent.subset_of(self.ids_with(TaskStatus::Pending))
                &&& sent.finite()
                &&& sent.len() > 0
                &&& after == #[trigger] self.processing(sent)
            }
    }

    /// The store after the task `id` was marked as completed.
    pub open spec fn completed(self, id: i32) -> StoreView {
        StoreView {
            tasks: self.tasks.insert(
                id,
                TaskView { status: TaskStatus::Completed, ..self.tasks[id] },
            ),
            ..self
        }
    }
}

/// Whether the entries read from a saved store, each an id with the task
/// filed under it, are those of a well-formed store with `next_id` as its
/// next id: the next id at least 1, every task filed under its own id, no
/// id twice, every id from 1 up to, and not including, `next_id`.
pub open spec fn loadable(entries: Seq<(i32, TaskView)>, next_id: i32) -> bool {
    &&& 1 <= next_id
    &&& forall|i: int|
        0 <= i < entries.len() ==> (#[trigger] entries[i]).0 == entries[i].1.id && 1
            <= entries[i].0 < next_id
    &&& forall|i: int, j: int|
        0 <= i < j < entries.len() ==> (#[trigger] entries[i]).0 != (#[trigger] entries[j]).0
}

/// The store that holds the given entries.
pub open spec fn loaded(path: Seq<char>, entries: Seq<(i32, TaskView)>, next_id: i32) -> StoreView {
    StoreView {
        tasks: Map::new(
            |k: i32| exists|i: int| 0 <= i < entries.len() && (#[trigger] entries[i]).0 == k,
            |k: i32|
                entries[choose|i: int| 0 <= i < entries.len() && (#[trigger] entries[i]).0 == k].1,
        ),
        next_id,
        path,
    }
}

/// The entries as values: each id with the value of its task.
pub open spec fn entry_views(entries: Seq<(i32, Task)>) -> Seq<(i32, TaskView)> {
    entries.map_values(|e: (i32, Task)| (e.0, e.1@))
}

/// What is said of an id that the store does not hold.
pub open spec fn not_found_text(id: i32) -> Seq<char> {
    "Task "@ + decimal(id as int) + " not found"@
}

/// The task store. Its value is a [`StoreView`].
pub struct Database {
    tasks: HashMap<i32, Task>,
    next_id: i32,
    path: String,
}

impl View for Database {
    type V = StoreView;

    closed spec fn view(&self) -> StoreView {
        StoreView {
            tasks: self.tasks@.map_values(|t: Task| t@),
            next_id: self.next_id,
            path: self.path@,
        }
    }
}

impl Database {
    /// The store's invariant, stated on its value.
    pub open spec fn wf(&self) -> bool {
        self@.wf()
    }

    /// The empty store for the file at `path`: no task, and 1 as the first id.
    pub fn new(path: &str) -> (db: Database)
        ensures
            db@ == (StoreView { tasks: Map::empty(), next_id: 1, path: path@ }),
            db.wf(),
    {
        let db = Database { tasks: HashMap::new(), next_id: 1, path: path.to_owned() };
        assert(db@.tasks =~= Map::empty());
        db
    }

    /// Whether `content`, the text of the store's file, holds no store: so
    /// it is where the file is empty, or was not there and read as empty.
    /// The empty store then takes its place.
    pub fn is_unsaved(content: &str) -> (unsaved: bool)
        ensures
            unsaved == (content@.len() == 0),
    {
        content.is_empty()
    }

    /// Rebuilds a store from what was saved of it: the entries, each an id
    /// with the task filed under it, and the next id. What no well-formed
    /// store holds is refused: a next id below 1, an id below 1 or not
    /// below the next id, an id twice, a task filed under another id than
    /// its own.
    pub fn restore(path: &str, entries: Vec<(i32, Task)>, next_id: i32) -> (res: Result<
        Database,
        String,
    >)
        ensures
            res is Ok <==> loadable(entry_views(entries@), next_id),
            match res {
                Ok(db) => db.wf() && db@ == loaded(path@, entry_views(entries@), next_id),
                Err(e) => e@ == "Corrupt store"@,
            },
    {
        if next_id < 1 {
            return Err("Corrupt store".to_owned());
        }
        let ghost saved = entry_views(entries@);
        let mut rest = entries;
        let mut tasks: HashMap<i32, Task> = HashMap::new();
        let ghost mut place: Map<i32, int> = Map::empty();
        while rest.len() > 0
            invariant
                saved == entry_views(entries@),
                1 <= next_id,
                rest.len() <= saved.len(),
                entry_views(rest@) == saved.take(rest.len() as int),
                place.dom() == tasks@.dom(),
                forall|i: int|
                    rest.len() <= i < saved.len() ==> {
                        &&& (#[trigger] saved[i]).0 == saved[i].1.id
                        &&& 1 <= saved[i].0 < next_id
                        &&& tasks@.contains_key(saved[i].0)
                        &&& tasks@[saved[i].0]@ == saved[i].1
                        &&& place[saved[i].0] == i
                    },
                forall|k: i32| #[trigger]
                    tasks@.contains_key(k) ==> rest.len() <= place[k] < saved.len() && saved[place[k]].0
                        == k,
            decreases rest.len(),
        {
            let ghost n = rest.len() - 1;
            let ghost before = rest@;
            let entry = rest.pop().unwrap();
            let id = entry.0;
            let task = entry.1;
            proof {
                assert(entry_views(before)[n] == saved.take(before.len() as int)[n]);
            }
            if task.id != id || id < 1 || id >= next_id || tasks.contains_key(&id) {
                return Err("Corrupt store".to_owned());
            }
            tasks.insert(id, task);
            proof {
                place = place.insert(id, n);
            }
        }
        let db = Database { tasks, next_id, path: path.to_owned() };
        proof {
            let restored = loaded(path@, saved, next_id);
            assert(db@.tasks.dom() =~= db.tasks@.dom());
            assert forall|k: i32| db@.tasks.contains_key(k) implies restored.tasks.contains_key(k)
                && restored.tasks[k] == db@.tasks[k] by {
                assert(saved[place[k]].0 == k);
                let i = choose|i: int| 0 <= i < saved.len() && (#[trigger] saved[i]).0 == k;
                assert(tasks@[saved[i].0]@ == saved[i].1);
            }
            assert forall|k: i32| restored.tasks.contains_key(k) implies db@.tasks.contains_key(
                k,
            ) by {
                let i = choose|i: int| 0 <= i < saved.len() && (#[trigger] saved[i]).0 == k;
                assert(tasks@.contains_key(saved[i].0));
            }
            assert(db@.tasks =~= restored.tasks);
            assert forall|i: int, j: int| 0 <= i < j < saved.len() implies (#[trigger] saved[i]).0
                != (#[trigger] saved[j]).0 by {
                assert(place[saved[i].0] == i);
                assert(place[saved[j].0] == j);
            }
        }
        Ok(db)
    }

    /// The id that the next task will get.
    pub fn next_id(&self) -> (id: i32)
        ensures
            id == self@.next_id,
    {
        self.next_id
    }

    /// The path of the file that the store is saved to.
    pub fn path(&self) -> (path: &str)
        ensures
            path@ == self@.path,
    {
        self.path.as_str()
    }

    /// Files `task` under the next id and returns that id.
    pub fn add_task(&mut self, task: Task) -> (res: Result<i32, String>)
        requires
            old(self).wf(),
        ensures
            final(self).wf(),
            res is Ok <==> old(self)@.next_id < i32::MAX,
            match res {
                Ok(id) => id == old(self)@.next_id && final(self)@ == old(self)@.added(task@),
                Err(e) => final(self)@ == old(self)@ && e@ == "No task id left"@,
            },
    {
        if self.next_id == i32::MAX {
            return Err("No task id left".to_owned());
        }
        let id = self.next_id;
        let mut task = task;
        task.id = id;
        self.tasks.insert(id, task);
        self.next_id = id + 1;
        assert(self@.tasks =~= old(self)@.added(task@).tasks);
        Ok(id)
    }

    /// The tasks with the status `status`, or all tasks where none is given,
    /// in no particular order.
    pub fn list_tasks(&self, status: Option<TaskStatus>) -> (res: Result<Vec<&Task>, String>)
        requires
            self.wf(),
        ensures
            res matches Ok(list) && self@.lists(status, list@.map_values(|t: &Task| t@)),
    {
        Ok(self.select(status))
    }

    /// One pass over the store that keeps the tasks which pass the filter.
    fn select(&self, status: Option<TaskStatus>) -> (list: Vec<&Task>)
        requires
            self.wf(),
        ensures
            self@.lists(status, list@.map_values(|t: &Task| t@)),
    {
        assert(forall|k: i32| #[trigger] self.tasks@.contains_key(k) ==> self@.tasks.contains_key(k));
        let mut list: Vec<&Task> = Vec::new();
        let ghost entries = self.tasks.iter().remaining();
        let ghost mut picked: Seq<int> = Seq::empty();
        let ghost mut slot: Seq<int> = Seq::empty();
        for entry in it: self.tasks.iter()
            invariant
                it.seq() == entries,
                picked.len() == list.len(),
                slot.len() == it.index(),
                forall|i: int|
                    0 <= i < list.len() ==> {
                        &&& 0 <= #[trigger] picked[i] < it.index()
                        &&& *list[i] == *entries[picked[i]].1
                        &&& StoreView::passes(status, list[i].status)
                    },
                forall|i: int, j: int|
                    0 <= i < j < list.len() ==> #[trigger] picked[i] < #[trigger] picked[j],
                forall|j: int|
                    0 <= j < it.index() && StoreView::passes(status, entries[j].1.status) ==> 0
                        <= #[trigger] slot[j] < list.len() && picked[slot[j]] == j,
        {
            let task: &Task = entry.1;
            let keep = match status {
                Some(s) => task.status == s,
                None => true,
            };
            if keep {
                proof {
                    slot = slot.push(list.len() as int);
                    picked = picked.push(it.index());
                }
                list.push(task);
                assert(forall|i: int| 0 <= i < list.len() - 1 ==> 0 <= #[trigger] picked[i] < it.index());
            } else {
                proof {
                    slot = slot.push(-1);
                }
            }
        }
        proof {
            lemma_entries_list(self.tasks, entries, picked, slot, status, list@);
        }
        list
    }

    /// The ids of the pending tasks, each once, in no particular order.
    pub fn pending_ids(&self) -> (ids: Vec<i32>)
        requires
            self.wf(),
        ensures
            ids@.no_duplicates(),
            ids@.to_set() == self@.ids_with(TaskStatus::Pending),
    {
        let list = self.select(Some(TaskStatus::Pending));
        let ghost views = list@.map_values(|t: &Task| t@);
        let mut ids: Vec<i32> = Vec::new();
        let mut i: usize = 0;
        while i < list.len()
            invariant
                i <= list.len(),
                ids.len() == i,
                views == list@.map_values(|t: &Task| t@),
                forall|j: int| 0 <= j < i ==> ids[j] == (#[trigger] views[j]).id,
            decreases list.len() - i,
        {
            ids.push(list[i].id);
            i += 1;
        }
        proof {
            lemma_pending_ids(self@, views, ids@);
        }
        ids
    }

    /// Marks the task `id` as completed. An id that the store does not hold
    /// is refused, and the store stays as it was.
    pub fn complete_task(&mut self, id: i32) -> (res: Result<(), String>)
        requires
            old(self).wf(),
        ensures
            final(self).wf(),
            match res {
                Ok(()) => old(self)@.tasks.contains_key(id) && final(self)@ == old(self)@.completed(
                    id,
                ),
                Err(e) => !old(self)@.tasks.contains_key(id) && final(self)@ == old(self)@ && e@
                    == not_found_text(id),
            },
    {
        match self.get_task(id) {
            Some(task) => {
                task.status = TaskStatus::Completed;
                Ok(())
            },
            None => {
                let mut message = "Task ".to_owned();
                message.append(decimal_string(id as i64).as_str());
                message.append(" not found");
                Err(message)
            },
        }
    }

    /// Counts the tasks, in all and by status, in one pass.
    pub fn get_statistics(&self) -> (res: Result<TaskStatistics, String>)
        requires
            self.wf(),
        ensures
            res matches Ok(stats) && {
                &&& stats.total == self@.total()
                &&& stats.pending == self@.count(TaskStatus::Pending)
                &&& stats.processing == self@.count(TaskStatus::Processing)
                &&& stats.completed == self@.count(TaskStatus::Completed)
            },
    {
        let mut stats = TaskStatistics::default();
        let ghost store = self@;
        let ghost entries = self.tasks.iter().remaining();
        let ghost mut seen: Set<i32> = Set::empty();
        let ghost mut place: Map<i32, int> = Map::empty();
        proof {
            lemma_store_size(store);
            assert(store.tasks.dom() =~= self.tasks@.dom());
            assert(forall|status: TaskStatus| #[trigger]
                having(store, seen, status) =~= Set::<i32>::empty());
        }
        for entry in it: self.tasks.iter()
            invariant
                store == self@,
                store.wf(),
                it.seq() == entries,
                entries == self.tasks.iter().remaining(),
                entries.no_duplicates(),
                entries.len() <= u32::MAX,
                seen.finite(),
                seen.len() == it.index(),
                seen.subset_of(store.tasks.dom()),
                place.dom() == seen,
                forall|k: i32| #[trigger]
                    seen.contains(k) ==> 0 <= place[k] < it.index() && *entries[place[k]].0 == k,
                forall|j: int| 0 <= j < it.index() ==> seen.contains(*(#[trigger] entries[j]).0),
                stats.total == it.index(),
                stats.pending == having(store, seen, TaskStatus::Pending).len(),
                stats.processing == having(store, seen, TaskStatus::Processing).len(),
                stats.completed == having(store, seen, TaskStatus::Completed).len(),
                stats.pending <= it.index(),
                stats.processing <= it.index(),
                stats.completed <= it.index(),
        {
            let ghost id = *entry.0;
            proof {
                lemma_having_grows(store, seen, id);
                seen = seen.insert(id);
                place = place.insert(id, it.index());
            }
            stats.total += 1;
            match entry.1.status {
                TaskStatus::Pending => stats.pending += 1,
                TaskStatus::Processing => stats.processing += 1,
                TaskStatus::Completed => stats.completed += 1,
            }
        }
        proof {
            assert forall|k: i32| store.tasks.dom().contains(k) implies seen.contains(k) by {
                let j = entries.index_of((&k, &self.tasks@[k]));
                assert(seen.contains(*entries[j].0));
            }
            assert(seen =~= store.tasks.dom());
        }
        Ok(stats)
    }

    /// Hands out the task `id` for change in place. The store then holds
    /// whatever the caller leaves there: it stays well-formed as long as
    /// the task keeps its id.
    pub fn get_task(&mut self, id: i32) -> (res: Option<&mut Task>)
        ensures
            match res {
                Some(task) => {
                    &&& old(self)@.tasks.contains_key(id)
                    &&& task@ == old(self)@.tasks[id]
                    &&& final(self)@ == (StoreView {
                        tasks: old(self)@.tasks.insert(id, final(task)@),
                        ..old(self)@
                    })
                },
                None => !old(self)@.tasks.contains_key(id) && final(self)@ == old(self)@,
            },
    {
        match self.tasks.entry(id) {
            Entry::Occupied(entry) => {
                let task = entry.into_mut();
                proof {
                    lemma_views_after_insert(old(self).tasks@, id, *final(task));
                }
                Some(task)
            },
            Entry::Vacant(_) => {
                assert(old(self).tasks@.remove(id) =~= old(self).tasks@);
                None
            },
        }
    }
}

/// The ids of a list of the pending tasks are the pending ids, each once.
proof fn lemma_pending_ids(store: StoreView, list: Seq<TaskView>, ids: Seq<i32>)
    requires
        store.wf(),
        store.lists(Some(TaskStatus::Pending), list),
        ids.len() == list.len(),
        forall|j: int| 0 <= j < ids.len() ==> ids[j] == (#[trigger] list[j]).id,
    ensures
        ids.no_duplicates(),
        ids.to_set() == store.ids_with(TaskStatus::Pending),
{
    assert forall|k: i32| ids.to_set().contains(k) implies store.ids_with(
        TaskStatus::Pending,
    ).contains(k) by {
        let j = choose|j: int| 0 <= j < ids.len() && ids[j] == k;
        assert(store.tasks.contains_key(list[j].id));
    }
    assert forall|k: i32| store.ids_with(TaskStatus::Pending).contains(k) implies ids.to_set().contains(
        k,
    ) by {
        assert(store.tasks.contains_key(k));
        let i = choose|i: int| 0 <= i < list.len() && #[trigger] list[i].id == k;
        assert(ids[i] == k);
    }
    assert forall|i: int, j: int| 0 <= i < ids.len() && 0 <= j < ids.len() && i != j implies ids[i]
        != ids[j] by {
        if i < j {
            assert(list[i].id != list[j].id);
        } else {
            assert(list[j].id != list[i].id);
        }
    }
}

/// The ids in `ids` whose task has the status `status`.
spec fn having(store: StoreView, ids: Set<i32>, status: TaskStatus) -> Set<i32> {
    ids.filter(|k: i32| store.tasks[k].status == status)
}

/// One more id adds one to the count of its task's status and leaves the
/// other counts as they were.
proof fn lemma_having_grows(store: StoreView, ids: Set<i32>, id: i32)
    requires
        ids.finite(),
        !ids.contains(id),
    ensures
        forall|status: TaskStatus| #[trigger]
            having(store, ids.insert(id), status).len() == having(store, ids, status).len() + (
            if store.tasks[id].status == status {
                1nat
            } else {
                0nat
            }),
{
    assert forall|status: TaskStatus| #[trigger]
        having(store, ids.insert(id), status).len() == having(store, ids, status).len() + (
        if store.tasks[id].status == status {
            1nat
        } else {
            0nat
        }) by {
        let before = having(store, ids, status);
        let after = having(store, ids.insert(id), status);
        ids.lemma_len_filter(|k: i32| store.tasks[k].status == status);
        if store.tasks[id].status == status {
            assert(after =~= before.insert(id));
        } else {
            assert(after =~= before);
        }
    }
}

/// A store holds at most as many tasks as there are ids below the largest.
proof fn lemma_store_size(store: StoreView)
    requires
        store.wf(),
    ensures
        store.tasks.dom().len() <= u32::MAX,
{
    let ids = store.tasks.dom();
    let widen = |k: i32| k as int;
    let wide = ids.map(widen);
    let range = vstd::set_lib::set_int_range(i32::MIN as int, i32::MAX as int);
    vstd::set_lib::lemma_map_size(ids, wide, widen);
    vstd::set_lib::lemma_int_range(i32::MIN as int, i32::MAX as int);
    assert(wide.subset_of(range)) by {
        assert forall|v: int| wide.contains(v) implies range.contains(v) by {
            let k = choose|k: i32| ids.contains(k) && widen(k) == v;
            assert(store.tasks.contains_key(k));
        }
    }
    vstd::set_lib::lemma_len_subset(wide, range);
}

/// A pass over the entries of a map that keeps those which pass a filter
/// ends with a list of exactly the map's tasks that pass it.
proof fn lemma_entries_list(
    tasks: HashMap<i32, Task>,
    entries: Seq<(&i32, &Task)>,
    picked: Seq<int>,
    slot: Seq<int>,
    wanted: Option<TaskStatus>,
    list: Seq<&Task>,
)
    requires
        entries == tasks.iter().remaining(),
        entries.no_duplicates(),
        forall|k: i32| #[trigger] tasks@.contains_key(k) ==> tasks@[k].id == k,
        picked.len() == list.len(),
        slot.len() == entries.len(),
        forall|i: int|
            0 <= i < list.len() ==> {
                &&& 0 <= #[trigger] picked[i] < entries.len()
                &&& *list[i] == *entries[picked[i]].1
                &&& StoreView::passes(wanted, list[i].status)
            },
        forall|i: int, j: int|
            0 <= i < j < list.len() ==> #[trigger] picked[i] < #[trigger] picked[j],
        forall|j: int|
            0 <= j < entries.len() && StoreView::passes(wanted, entries[j].1.status) ==> 0
                <= #[trigger] slot[j] < list.len() && picked[slot[j]] == j,
    ensures
        (StoreView { tasks: tasks@.map_values(|t: Task| t@), next_id: 0, path: Seq::empty() }).lists(
            wanted,
            list.map_values(|t: &Task| t@),
        ),
{
    let store = StoreView { tasks: tasks@.map_values(|t: Task| t@), next_id: 0, path: Seq::empty() };
    let views = list.map_values(|t: &Task| t@);
    assert forall|i: int| 0 <= i < views.len() implies {
        &&& store.tasks.contains_key(#[trigger] views[i].id)
        &&& store.tasks[views[i].id] == views[i]
        &&& StoreView::passes(wanted, views[i].status)
    } by {
        let j = picked[i];
        assert(tasks@.contains_key(*entries[j].0));
    }
    assert forall|i: int, j: int| 0 <= i < j < views.len() implies #[trigger] views[i].id
        != #[trigger] views[j].id by {
        let a = picked[i];
        let b = picked[j];
        assert(tasks@.contains_key(*entries[a].0));
        assert(tasks@.contains_key(*entries[b].0));
        assert(entries[a] != entries[b]);
    }
    assert forall|k: i32| #[trigger]
        store.tasks.contains_key(k) && StoreView::passes(
            wanted,
            store.tasks[k].status,
        ) implies exists|i: int| 0 <= i < views.len() && #[trigger] views[i].id == k by {
        let j = entries.index_of((&k, &tasks@[k]));
        let i = slot[j];
        assert(views[i].id == k);
    }
}

/// Taking the views of all tasks commutes with filing one task.
proof fn lemma_views_after_insert(tasks: Map<i32, Task>, id: i32, task: Task)
    ensures
        tasks.insert(id, task).map_values(|t: Task| t@) == tasks.map_values(|t: Task| t@).insert(
            id,
            task@,
        ),
{
}

} // verus!
