//! Tasks, and the mapping from name to priority that a sequence of tasks
//! stands for.

use vstd::prelude::*;

verus! {

/// A named item with a priority.
#[derive(Debug)]
pub struct Task {
    pub name: String,
    pub priority: i32,
}

/// What a task stands for: its name as text, and its priority.
pub struct TaskView {
    pub name: Seq<char>,
    pub priority: i32,
}

impl View for Task {
    type V = TaskView;

    open spec fn view(&self) -> TaskView {
        TaskView { name: self.name@, priority: self.priority }
    }
}

impl PartialEq for Task {
    fn eq(&self, other: &Self) -> (equal: bool) {
        self.name == other.name && self.priority == other.priority
    }
}

impl vstd::std_specs::cmp::PartialEqSpecImpl for Task {
    open spec fn obeys_eq_spec() -> bool {
        true
    }

    open spec fn eq_spec(&self, other: &Self) -> bool {
        self@ == other@
    }
}

impl Clone for Task {
    fn clone(&self) -> (copy: Self)
        ensures
            copy@ == self@,
    {
        Task { name: self.name.clone(), priority: self.priority }
    }
}

/// The tasks of a sequence, each as what it stands for.
pub open spec fn views(tasks: Seq<Task>) -> Seq<TaskView> {
    tasks.map_values(|t: Task| t@)
}

/// No name occurs twice in `tasks`.
pub open spec fn distinct_names(tasks: Seq<TaskView>) -> bool {
    forall|i: int, j: int| 0 <= i < j < tasks.len() ==> tasks[i].name != tasks[j].name
}

/// A position of `name` in `tasks`, where it has one.
pub open spec fn position_of(tasks: Seq<TaskView>, name: Seq<char>) -> int {
    choose|i: int| 0 <= i < tasks.len() && #[trigger] tasks[i].name == name
}

/// The mapping from name to priority that a sequence of tasks stands for.
/// Its keys are the names that occur in the sequence. (Where no name occurs
/// twice, each name has the priority of its one task.)
pub open spec fn task_map(tasks: Seq<TaskView>) -> Map<Seq<char>, i32> {
    Map::new(
        |name: Seq<char>| exists|i: int| 0 <= i < tasks.len() && #[trigger] tasks[i].name == name,
        |name: Seq<char>| tasks[position_of(tasks, name)].priority,
    )
}

/// In a sequence without a repeated name every task is an entry of the
/// mapping, and every key of the mapping is the name of a task.
pub proof fn lemma_task_map_entries(tasks: Seq<TaskView>)
    requires
        distinct_names(tasks),
    ensures
        forall|i: int|
            0 <= i < tasks.len() ==> task_map(tasks).contains_pair(
                (#[trigger] tasks[i]).name,
                tasks[i].priority,
            ),
        forall|name: Seq<char>| #[trigger]
            task_map(tasks).contains_key(name) ==> 0 <= position_of(tasks, name) < tasks.len()
                && tasks[position_of(tasks, name)].name == name,
{
    let store = task_map(tasks);
    assert forall|i: int| 0 <= i < tasks.len() implies store.contains_pair(
        (#[trigger] tasks[i]).name,
        tasks[i].priority,
    ) by {
        let j = position_of(tasks, tasks[i].name);
        assert(tasks[j].name == tasks[i].name);
        assert(i == j);
    }
}

/// Overwriting the priority at one position overwrites that name's entry.
pub proof fn lemma_task_map_update(tasks: Seq<TaskView>, i: int, priority: i32)
    requires
        distinct_names(tasks),
        0 <= i < tasks.len(),
    ensures
        distinct_names(tasks.update(i, TaskView { name: tasks[i].name, priority })),
        task_map(tasks.update(i, TaskView { name: tasks[i].name, priority })) == task_map(
            tasks,
        ).insert(tasks[i].name, priority),
{
    let after = tasks.update(i, TaskView { name: tasks[i].name, priority });
    assert(distinct_names(after)) by {
        assert forall|x: int, y: int| 0 <= x < y < after.len() implies after[x].name
            != after[y].name by {
            assert(tasks[x].name != tasks[y].name);
        }
    }
    lemma_task_map_entries(tasks);
    lemma_task_map_entries(after);
    let m0 = task_map(tasks).insert(tasks[i].name, priority);
    let m1 = task_map(after);
    assert forall|name: Seq<char>| m1.contains_key(name) <==> #[trigger] m0.contains_key(name) by {
        if m1.contains_key(name) {
            assert(tasks[position_of(after, name)].name == name);
        }
        if task_map(tasks).contains_key(name) {
            assert(after[position_of(tasks, name)].name == name);
        }
        assert(after[i].name == tasks[i].name);
    }
    assert forall|name: Seq<char>| #[trigger] m1.contains_key(name) implies m1[name]
        == m0[name] by {
        let k = position_of(after, name);
        assert(m1.contains_pair(after[k].name, after[k].priority));
        assert(task_map(tasks).contains_pair(tasks[k].name, tasks[k].priority));
    }
    assert(m1 =~= m0);
}

/// Putting a task with a new name at any position inserts its entry.
pub proof fn lemma_task_map_insert(tasks: Seq<TaskView>, at: int, task: TaskView)
    requires
        distinct_names(tasks),
        0 <= at <= tasks.len(),
        forall|j: int| 0 <= j < tasks.len() ==> tasks[j].name != task.name,
    ensures
        distinct_names(tasks.insert(at, task)),
        task_map(tasks.insert(at, task)) == task_map(tasks).insert(task.name, task.priority),
{
    let after = tasks.insert(at, task);
    assert(distinct_names(after)) by {
        assert forall|x: int, y: int| 0 <= x < y < after.len() implies after[x].name
            != after[y].name by {
            let x0 = if x < at { x } else { x - 1 };
            let y0 = if y < at { y } else { y - 1 };
            if x != at && y != at {
                assert(tasks[x0].name != tasks[y0].name);
            }
        }
    }
    lemma_task_map_entries(tasks);
    lemma_task_map_entries(after);
    let m0 = task_map(tasks).insert(task.name, task.priority);
    let m1 = task_map(after);
    assert forall|name: Seq<char>| m1.contains_key(name) <==> #[trigger] m0.contains_key(name) by {
        if m1.contains_key(name) {
            let k = position_of(after, name);
            let k0 = if k < at { k } else { k - 1 };
            if k != at {
                assert(tasks[k0].name == name);
            }
        }
        if task_map(tasks).contains_key(name) {
            let k = position_of(tasks, name);
            let k1 = if k < at { k } else { k + 1 };
            assert(after[k1].name == name);
        }
        assert(after[at].name == task.name);
    }
    assert forall|name: Seq<char>| #[trigger] m1.contains_key(name) implies m1[name]
        == m0[name] by {
        let k = position_of(after, name);
        let k0 = if k < at { k } else { k - 1 };
        assert(m1.contains_pair(after[k].name, after[k].priority));
        if k != at {
            assert(task_map(tasks).contains_pair(tasks[k0].name, tasks[k0].priority));
        }
    }
    assert(m1 =~= m0);
}

/// Appending a task with a new name inserts its entry.
pub proof fn lemma_task_map_push(tasks: Seq<TaskView>, task: TaskView)
    requires
        distinct_names(tasks),
        forall|j: int| 0 <= j < tasks.len() ==> tasks[j].name != task.name,
    ensures
        distinct_names(tasks.push(task)),
        task_map(tasks.push(task)) == task_map(tasks).insert(task.name, task.priority),
{
    assert(tasks.push(task) =~= tasks.insert(tasks.len() as int, task));
    lemma_task_map_insert(tasks, tasks.len() as int, task);
}

/// Taking out one position removes that name's entry.
pub proof fn lemma_task_map_remove(tasks: Seq<TaskView>, i: int)
    requires
        distinct_names(tasks),
        0 <= i < tasks.len(),
    ensures
        distinct_names(tasks.remove(i)),
        task_map(tasks.remove(i)) == task_map(tasks).remove(tasks[i].name),
{
    let after = tasks.remove(i);
    assert(distinct_names(after)) by {
        assert forall|x: int, y: int| 0 <= x < y < after.len() implies after[x].name
            != after[y].name by {
            let x0 = if x < i { x } else { x + 1 };
            let y0 = if y < i { y } else { y + 1 };
            assert(tasks[x0].name != tasks[y0].name);
        }
    }
    lemma_task_map_entries(tasks);
    lemma_task_map_entries(after);
    let m0 = task_map(tasks).remove(tasks[i].name);
    let m1 = task_map(after);
    assert forall|name: Seq<char>| m1.contains_key(name) <==> #[trigger] m0.contains_key(name) by {
        if m1.contains_key(name) {
            let k = position_of(after, name);
            let k0 = if k < i { k } else { k + 1 };
            assert(tasks[k0].name == name);
            assert(tasks[k0].name != tasks[i].name);
        }
        if task_map(tasks).contains_key(name) && name != tasks[i].name {
            let k = position_of(tasks, name);
            let k1 = if k < i { k } else { k - 1 };
            assert(after[k1].name == name);
        }
    }
    assert forall|name: Seq<char>| #[trigger] m1.contains_key(name) implies m1[name]
        == m0[name] by {
        let k = position_of(after, name);
        let k0 = if k < i { k } else { k + 1 };
        assert(m1.contains_pair(after[k].name, after[k].priority));
        assert(task_map(tasks).contains_pair(tasks[k0].name, tasks[k0].priority));
    }
    assert(m1 =~= m0);
}

} // verus!
