//! The order in which tasks are listed, and the listing of a store: the
//! one sequence that holds each entry of the store once, in that order.

use vstd::prelude::*;
use crate::order::{name_before, is_name_before, lemma_name_order};
use crate::task::{Task, TaskView, distinct_names, position_of, task_map, lemma_task_map_entries,
    lemma_task_map_insert, lemma_task_map_remove};

verus! {

/// `a` is listed before `b`: its priority is the higher one, or the two
/// priorities are equal and its name comes first.
pub open spec fn precedes(a: TaskView, b: TaskView) -> bool {
    a.priority > b.priority || (a.priority == b.priority && name_before(a.name, b.name))
}

/// Every task of `tasks` is listed before all that follow it.
pub open spec fn by_priority(tasks: Seq<TaskView>) -> bool {
    forall|i: int, j: int| 0 <= i < j < tasks.len() ==> precedes(tasks[i], tasks[j])
}

impl Task {
    /// Tells whether `self` is listed before `other`.
    pub fn is_listed_before(&self, other: &Task) -> (before: bool)
        ensures
            before == precedes(self@, other@),
    {
        self.priority > other.priority || (self.priority == other.priority && is_name_before(
            self.name.as_str(),
            other.name.as_str(),
        ))
    }
}

/// `precedes` is a strict total order on tasks with different names: no
/// task precedes itself, no two precede each other, the relation is
/// transitive, and of two tasks with different names one precedes the other.
pub proof fn lemma_precedes_order(a: TaskView, b: TaskView, c: TaskView)
    ensures
        !precedes(a, a),
        !(precedes(a, b) && precedes(b, a)),
        precedes(a, b) && precedes(b, c) ==> precedes(a, c),
        a.name != b.name ==> precedes(a, b) || precedes(b, a),
{
    lemma_name_order(a.name, b.name, c.name);
    lemma_name_order(a.name, b.name, a.name);
}

/// The listing of a store is determined by the store alone: two sequences
/// in the listing order, neither with a repeated name, that stand for the
/// same mapping are equal.
pub proof fn lemma_listing_unique(a: Seq<TaskView>, b: Seq<TaskView>)
    requires
        distinct_names(a),
        distinct_names(b),
        by_priority(a),
        by_priority(b),
        task_map(a) == task_map(b),
    ensures
        a == b,
    decreases a.len(),
{
    let store = task_map(a);
    lemma_task_map_entries(a);
    lemma_task_map_entries(b);
    if a.len() == 0 {
        if b.len() > 0 {
            assert(store.contains_key(b[0].name));
        }
        assert(a =~= b);
    } else if b.len() == 0 {
        assert(store.contains_key(a[0].name));
    } else {
        // The first task of each sequence occurs in the other one; were it
        // not at the front there, the two front tasks would precede each other.
        assert(store.contains_key(a[0].name));
        assert(store.contains_key(b[0].name));
        let j = position_of(b, a[0].name);
        let i = position_of(a, b[0].name);
        assert(store.contains_pair(b[j].name, b[j].priority));
        assert(store.contains_pair(a[i].name, a[i].priority));
        assert(b[j] == a[0]);
        assert(a[i] == b[0]);
        lemma_precedes_order(a[0], b[0], a[0]);
        if j > 0 {
            assert(precedes(b[0], b[j]));
            if i > 0 {
                assert(precedes(a[0], a[i]));
            }
        }
        assert(a[0] == b[0]);
        let a1 = a.drop_first();
        let b1 = b.drop_first();
        assert(a1 =~= a.remove(0));
        assert(b1 =~= b.remove(0));
        lemma_task_map_remove(a, 0);
        lemma_task_map_remove(b, 0);
        assert(by_priority(a1)) by {
            assert forall|x: int, y: int| 0 <= x < y < a1.len() implies precedes(a1[x], a1[y]) by {
                assert(precedes(a[x + 1], a[y + 1]));
            }
        }
        assert(by_priority(b1)) by {
            assert forall|x: int, y: int| 0 <= x < y < b1.len() implies precedes(b1[x], b1[y]) by {
                assert(precedes(b[x + 1], b[y + 1]));
            }
        }
        lemma_listing_unique(a1, b1);
        assert(a =~= seq![a[0]] + a1);
        assert(b =~= seq![b[0]] + b1);
    }
}

/// `tasks` is a listing of `store`: it holds each entry of the store once,
/// in the listing order.
pub open spec fn is_listing(tasks: Seq<TaskView>, store: Map<Seq<char>, i32>) -> bool {
    &&& distinct_names(tasks)
    &&& task_map(tasks) == store
    &&& by_priority(tasks)
}

/// The listing of `store`, where it has one.
pub open spec fn listing_of(store: Map<Seq<char>, i32>) -> Seq<TaskView> {
    choose|tasks: Seq<TaskView>| is_listing(tasks, store)
}

/// A listing of a store is the listing of that store.
pub proof fn lemma_listing_of(tasks: Seq<TaskView>, store: Map<Seq<char>, i32>)
    requires
        is_listing(tasks, store),
    ensures
        listing_of(store) == tasks,
{
    lemma_listing_unique(listing_of(store), tasks);
}

/// Where `task` goes in a sequence in the listing order: behind the tasks
/// at the front that precede it.
pub open spec fn place_of(sorted: Seq<TaskView>, task: TaskView) -> int
    decreases sorted.len(),
{
    if sorted.len() == 0 || !precedes(sorted[0], task) {
        0
    } else {
        1 + place_of(sorted.drop_first(), task)
    }
}

/// Every task in front of the place of `task` precedes it, and the task at
/// that place, if there is one, does not.
pub proof fn lemma_place_of(sorted: Seq<TaskView>, task: TaskView)
    ensures
        0 <= place_of(sorted, task) <= sorted.len(),
        forall|q: int| 0 <= q < place_of(sorted, task) ==> precedes(#[trigger] sorted[q], task),
        place_of(sorted, task) < sorted.len() ==> !precedes(sorted[place_of(sorted, task)], task),
    decreases sorted.len(),
{
    if sorted.len() == 0 || !precedes(sorted[0], task) {
    } else {
        let rest = sorted.drop_first();
        lemma_place_of(rest, task);
        assert forall|q: int| 0 <= q < place_of(sorted, task) implies precedes(
            #[trigger] sorted[q],
            task,
        ) by {
            if q > 0 {
                assert(sorted[q] == rest[q - 1]);
            }
        }
    }
}

/// Putting a task with a new name at its place in a listing gives the
/// listing of the store with that task inserted.
pub proof fn lemma_place(sorted: Seq<TaskView>, at: int, task: TaskView)
    requires
        distinct_names(sorted),
        by_priority(sorted),
        !task_map(sorted).contains_key(task.name),
        0 <= at <= sorted.len(),
        forall|q: int| 0 <= q < at ==> precedes(#[trigger] sorted[q], task),
        at < sorted.len() ==> !precedes(sorted[at], task),
    ensures
        is_listing(sorted.insert(at, task), task_map(sorted).insert(task.name, task.priority)),
{
    let grown = sorted.insert(at, task);
    lemma_task_map_entries(sorted);
    assert forall|q: int| 0 <= q < sorted.len() implies (#[trigger] sorted[q]).name
        != task.name by {
        assert(task_map(sorted).contains_key(sorted[q].name));
    }
    lemma_task_map_insert(sorted, at, task);
    assert forall|x: int, y: int| 0 <= x < y < grown.len() implies precedes(grown[x], grown[y]) by {
        let x0 = if x < at { x } else { x - 1 };
        let y0 = if y < at { y } else { y - 1 };
        if y == at {
            assert(grown[x] == sorted[x]);
        } else if x == at {
            // What follows the new task did not precede it, or follows
            // a task that did not.
            let first = sorted[at];
            assert(first.name != task.name);
            lemma_precedes_order(first, task, first);
            assert(grown[y] == sorted[y0]);
            if y0 > at {
                assert(precedes(first, sorted[y0]));
                lemma_precedes_order(task, first, sorted[y0]);
            }
        } else {
            assert(grown[x] == sorted[x0]);
            assert(grown[y] == sorted[y0]);
            assert(precedes(sorted[x0], sorted[y0]));
        }
    }
}

/// Every finite store has a listing.
pub proof fn lemma_listing_exists(store: Map<Seq<char>, i32>)
    requires
        store.dom().finite(),
    ensures
        is_listing(listing_of(store), store),
    decreases store.dom().len(),
{
    if store.dom().len() == 0 {
        let none = Seq::<TaskView>::empty();
        assert(store.dom() =~= Set::empty());
        assert(task_map(none) =~= store);
        assert(is_listing(none, store));
    } else {
        let name = store.dom().choose();
        let task = TaskView { name, priority: store[name] };
        let rest = store.remove(name);
        lemma_listing_exists(rest);
        let sorted = listing_of(rest);
        lemma_place_of(sorted, task);
        lemma_place(sorted, place_of(sorted, task), task);
        assert(rest.insert(name, store[name]) =~= store);
        assert(is_listing(sorted.insert(place_of(sorted, task), task), store));
    }
}

} // verus!
