//! The sample session: a store is filled with three tasks and displayed,
//! then one task is removed and the store is displayed again.

use vstd::prelude::*;
use crate::display::table;
use crate::listing::{is_listing, lemma_listing_of};
use crate::store::App;
use crate::task::{TaskView, task_map, lemma_task_map_push};

verus! {

/// The three sample tasks in the listing order.
pub open spec fn sample_listing() -> Seq<TaskView> {
    seq![
        TaskView { name: "Do laundry"@, priority: 3 },
        TaskView { name: "Clean kitchen"@, priority: 2 },
        TaskView { name: "Take out the trash"@, priority: 1 },
    ]
}

/// The sample tasks that are left when the laundry is done.
pub open spec fn sample_rest() -> Seq<TaskView> {
    seq![
        TaskView { name: "Clean kitchen"@, priority: 2 },
        TaskView { name: "Take out the trash"@, priority: 1 },
    ]
}

/// Runs the sample session and returns what it displays: the table of the
/// three sample tasks, and the table after "Do laundry" has been removed.
pub fn try_main() -> (shown: (String, String))
    ensures
        shown.0@ == table(sample_listing()),
        shown.1@ == table(sample_rest()),
{
    let mut app = App::new();
    app.add_task("Take out the trash", 1);
    app.add_task("Do laundry", 3);
    app.add_task("Clean kitchen", 2);
    proof {
        lemma_sample_names();
        lemma_entries(sample_listing());
        assert(task_map(sample_listing()) =~= app@);
        assert(is_listing(sample_listing(), app@));
        lemma_listing_of(sample_listing(), app@);
    }
    let all = app.display_tasks();
    app.remove_task("Do laundry");
    proof {
        lemma_entries(sample_rest());
        assert(task_map(sample_rest()) =~= app@);
        assert(is_listing(sample_rest(), app@));
        lemma_listing_of(sample_rest(), app@);
    }
    let rest = app.display_tasks();
    (all, rest)
}

/// The names of the three sample tasks differ from one another.
proof fn lemma_sample_names()
    ensures
        "Do laundry"@ != "Clean kitchen"@,
        "Do laundry"@ != "Take out the trash"@,
        "Clean kitchen"@ != "Take out the trash"@,
{
    reveal_strlit("Do laundry");
    reveal_strlit("Clean kitchen");
    reveal_strlit("Take out the trash");
    assert("Do laundry"@[0] == 'D');
    assert("Clean kitchen"@[0] == 'C');
    assert("Take out the trash"@[0] == 'T');
}

/// What two or three tasks with different names stand for, entry by entry.
proof fn lemma_entries(tasks: Seq<TaskView>)
    requires
        2 <= tasks.len() <= 3,
        forall|i: int, j: int| 0 <= i < j < tasks.len() ==> tasks[i].name != tasks[j].name,
    ensures
        tasks.len() == 2 ==> task_map(tasks) == Map::<Seq<char>, i32>::empty().insert(
            tasks[0].name,
            tasks[0].priority,
        ).insert(tasks[1].name, tasks[1].priority),
        tasks.len() == 3 ==> task_map(tasks) == Map::<Seq<char>, i32>::empty().insert(
            tasks[0].name,
            tasks[0].priority,
        ).insert(tasks[1].name, tasks[1].priority).insert(tasks[2].name, tasks[2].priority),
{
    let none = Seq::<TaskView>::empty();
    let one = none.push(tasks[0]);
    let two = one.push(tasks[1]);
    assert(task_map(none) =~= Map::<Seq<char>, i32>::empty());
    lemma_task_map_push(none, tasks[0]);
    lemma_task_map_push(one, tasks[1]);
    if tasks.len() == 3 {
        lemma_task_map_push(two, tasks[2]);
        assert(tasks =~= two.push(tasks[2]));
    } else {
        assert(tasks =~= two);
    }
}

} // verus!
