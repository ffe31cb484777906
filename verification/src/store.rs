//! The task store: a mapping from name to task with insert-or-overwrite,
//! removal, and enumeration by priority.

use vstd::prelude::*;
use crate::listing::{precedes, is_listing, listing_of, lemma_place, lemma_listing_of,
    lemma_listing_exists};
use crate::task::{Task, views, distinct_names, task_map, position_of,
    lemma_task_map_entries, lemma_task_map_update, lemma_task_map_push, lemma_task_map_remove};

verus! {

/// The store of tasks. It stands for a mapping from name to priority; the
/// order in which tasks were added is not part of what it stands for.
pub struct App {
    tasks: Vec<Task>,
}

impl View for App {
    type V = Map<Seq<char>, i32>;

    closed spec fn view(&self) -> Map<Seq<char>, i32> {
        task_map(views(self.tasks@))
    }
}

impl App {
    /// No name is held twice.
    #[verifier::type_invariant]
    spec fn well_formed(&self) -> bool {
        distinct_names(views(self.tasks@))
    }

    /// An empty store.
    pub fn new() -> (app: Self)
        ensures
            app@ == Map::<Seq<char>, i32>::empty(),
    {
        let app = App { tasks: Vec::new() };
        assert(app@ =~= Map::<Seq<char>, i32>::empty());
        app
    }

    /// The position of `name` among the tasks, if it is held.
    fn position(&self, name: &str) -> (found: Option<usize>)
        ensures
            match found {
                Some(i) => i < self.tasks@.len() && self.tasks@[i as int].name@ == name@,
                None => forall|j: int| 0 <= j < self.tasks@.len() ==> self.tasks@[j].name@ != name@,
            },
    {
        let wanted = name.to_owned();
        let mut i: usize = 0;
        while i < self.tasks.len()
            invariant
                i <= self.tasks@.len(),
                wanted@ == name@,
                forall|j: int| 0 <= j < i ==> self.tasks@[j].name@ != name@,
            decreases self.tasks@.len() - i,
        {
            if self.tasks[i].name == wanted {
                return Some(i);
            }
            i = i + 1;
        }
        None
    }

    /// Inserts the task `name` with `priority`, or overwrites the priority
    /// of the task of that name.
    pub fn add_task(&mut self, name: &str, priority: i32)
        ensures
            final(self)@ == old(self)@.insert(name@, priority),
    {
        proof {
            use_type_invariant(&*self);
        }
        let task = Task { name: name.to_owned(), priority };
        let found = self.position(name);
        let ghost before = views(self.tasks@);
        let mut tasks: Vec<Task> = Vec::new();
        std::mem::swap(&mut tasks, &mut self.tasks);
        match found {
            Some(i) => {
                tasks.set(i, task);
                proof {
                    assert(views(tasks@) =~= before.update(i as int, task@));
                    lemma_task_map_update(before, i as int, priority);
                }
            },
            None => {
                tasks.push(task);
                proof {
                    assert(views(tasks@) =~= before.push(task@));
                    lemma_task_map_push(before, task@);
                }
            },
        }
        self.tasks = tasks;
    }

    /// Deletes the task `name` if it is held; otherwise nothing changes.
    pub fn remove_task(&mut self, name: &str)
        ensures
            final(self)@ == old(self)@.remove(name@),
            !old(self)@.contains_key(name@) ==> *final(self) == *old(self),
    {
        proof {
            use_type_invariant(&*self);
            lemma_task_map_entries(views(self.tasks@));
        }
        let ghost before = views(self.tasks@);
        match self.position(name) {
            Some(i) => {
                let mut tasks: Vec<Task> = Vec::new();
                std::mem::swap(&mut tasks, &mut self.tasks);
                tasks.remove(i);
                proof {
                    assert(before[i as int].name == name@);
                    assert(views(tasks@) =~= before.remove(i as int));
                    lemma_task_map_remove(before, i as int);
                }
                self.tasks = tasks;
            },
            None => {
                proof {
                    assert(!self@.contains_key(name@)) by {
                        if self@.contains_key(name@) {
                            let k = position_of(before, name@);
                            assert(self.tasks@[k].name@ == name@);
                        }
                    }
                    assert(self@.remove(name@) =~= self@);
                }
            },
        }
    }

    /// The tasks in the listing order: by descending priority, and by
    /// ascending name where priorities are equal. The listing holds each
    /// task of the store exactly once; there is only one such sequence.
    pub fn list_by_priority(&self) -> (listing: Vec<Task>)
        ensures
            is_listing(views(listing@), self@),
            views(listing@) == listing_of(self@),
    {
        proof {
            use_type_invariant(self);
            lemma_task_map_entries(views(self.tasks@));
        }
        let ghost held = views(self.tasks@);
        let mut listing: Vec<Task> = Vec::new();
        let mut taken: usize = 0;
        proof {
            assert(task_map(views(listing@)) =~= task_map(held.take(0)));
        }
        while taken < self.tasks.len()
            invariant
                taken <= self.tasks@.len(),
                held == views(self.tasks@),
                distinct_names(held),
                is_listing(views(listing@), task_map(held.take(taken as int))),
            decreases self.tasks@.len() - taken,
        {
            let task = self.tasks[taken].clone();
            let ghost sorted = views(listing@);
            let mut at: usize = 0;
            while at < listing.len() && listing[at].is_listed_before(&task)
                invariant
                    at <= listing@.len(),
                    sorted == views(listing@),
                    forall|q: int| 0 <= q < at ==> precedes(#[trigger] sorted[q], task@),
                decreases listing@.len() - at,
            {
                at = at + 1;
            }
            listing.insert(at, task);
            proof {
                let seen = held.take(taken as int);
                assert(views(listing@) =~= sorted.insert(at as int, task@));
                assert(held.take(taken + 1) =~= seen.push(task@));
                lemma_task_map_entries(seen);
                assert(!task_map(seen).contains_key(task@.name)) by {
                    if task_map(seen).contains_key(task@.name) {
                        let j = position_of(seen, task@.name);
                        assert(held[j].name == held[taken as int].name);
                    }
                }
                lemma_task_map_push(seen, task@);
                lemma_place(sorted, at as int, task@);
            }
            taken = taken + 1;
        }
        proof {
            assert(held.take(taken as int) =~= held);
            lemma_listing_of(views(listing@), self@);
        }
        listing
    }
}

/// One operation on a store.
pub enum Operation {
    /// Insert the task, or overwrite the priority of the task of that name.
    Add { name: Seq<char>, priority: i32 },
    /// Delete the task of that name, if there is one.
    Remove { name: Seq<char> },
}

/// What a store stands for after `operations`, done in turn on an empty one.
pub open spec fn after(operations: Seq<Operation>) -> Map<Seq<char>, i32>
    decreases operations.len(),
{
    if operations.len() == 0 {
        Map::empty()
    } else {
        let before = after(operations.drop_last());
        match operations.last() {
            Operation::Add { name, priority } => before.insert(name, priority),
            Operation::Remove { name } => before.remove(name),
        }
    }
}

/// After any sequence of operations the store has its listing: one sequence
/// that holds exactly the names then present, each once, with the priority
/// last given to it, by descending priority and, where priorities are equal,
/// by ascending name.
pub proof fn lemma_listing_after(operations: Seq<Operation>)
    ensures
        is_listing(listing_of(after(operations)), after(operations)),
{
    lemma_after_finite(operations);
    lemma_listing_exists(after(operations));
}

/// Operations leave a store finite.
proof fn lemma_after_finite(operations: Seq<Operation>)
    ensures
        after(operations).dom().finite(),
    decreases operations.len(),
{
    if operations.len() > 0 {
        lemma_after_finite(operations.drop_last());
    }
}

} // verus!
