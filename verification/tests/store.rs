use loa::order::{is_before, is_name_before};
use loa::{App, Task};

fn pairs(listing: &[Task]) -> Vec<(String, i32)> {
    listing.iter().map(|task| (task.name.clone(), task.priority)).collect()
}

fn expect(entries: &[(&str, i32)]) -> Vec<(String, i32)> {
    entries.iter().map(|(name, priority)| (name.to_string(), *priority)).collect()
}

fn sample() -> App {
    let mut app = App::new();
    app.add_task("Take out the trash", 1);
    app.add_task("Do laundry", 3);
    app.add_task("Clean kitchen", 2);
    app
}

#[test]
fn new_store_lists_nothing() {
    assert!(App::new().list_by_priority().is_empty());
}

#[test]
fn sample_tasks_are_listed_by_priority() {
    assert_eq!(
        pairs(&sample().list_by_priority()),
        expect(&[("Do laundry", 3), ("Clean kitchen", 2), ("Take out the trash", 1)])
    );
}

#[test]
fn removing_the_laundry_leaves_the_other_two() {
    let mut app = sample();
    app.remove_task("Do laundry");
    assert_eq!(
        pairs(&app.list_by_priority()),
        expect(&[("Clean kitchen", 2), ("Take out the trash", 1)])
    );
}

#[test]
fn listing_holds_each_name_once_after_adds_and_removes() {
    let mut app = App::new();
    app.add_task("write", 5);
    app.add_task("read", 5);
    app.add_task("write", 7);
    app.remove_task("read");
    app.add_task("rest", -1);
    app.add_task("read", 0);
    app.remove_task("absent");
    app.add_task("write", 2);
    let listing = app.list_by_priority();
    let mut names: Vec<&str> = listing.iter().map(|task| task.name.as_str()).collect();
    assert_eq!(names, vec!["write", "read", "rest"]);
    names.sort();
    names.dedup();
    assert_eq!(names.len(), 3);
    assert_eq!(pairs(&listing), expect(&[("write", 2), ("read", 0), ("rest", -1)]));
}

#[test]
fn adding_a_held_name_overwrites_its_priority() {
    let mut app = App::new();
    app.add_task("only", 1);
    app.add_task("only", 9);
    assert_eq!(pairs(&app.list_by_priority()), expect(&[("only", 9)]));
}

#[test]
fn priorities_never_rise_along_the_listing() {
    let mut app = App::new();
    let priorities = [4, -3, 17, 0, 4, i32::MAX, i32::MIN, 9, -3];
    for (i, priority) in priorities.iter().enumerate() {
        app.add_task(&format!("task {i}"), *priority);
    }
    let listing = app.list_by_priority();
    assert_eq!(listing.len(), priorities.len());
    for pair in listing.windows(2) {
        assert!(pair[0].priority >= pair[1].priority);
        if pair[0].priority == pair[1].priority {
            assert!(pair[0].name < pair[1].name);
        }
    }
    assert_eq!(listing[0].priority, i32::MAX);
    assert_eq!(listing[8].priority, i32::MIN);
}

#[test]
fn equal_priorities_are_listed_by_name() {
    let mut app = App::new();
    for name in ["pear", "apple", "fig", "Zebra", "apples", "\u{e9}clair", ""] {
        app.add_task(name, 1);
    }
    app.add_task("last by name, first by priority", 2);
    let listing = app.list_by_priority();
    let names: Vec<&str> = listing.iter().map(|task| task.name.as_str()).collect();
    assert_eq!(
        names,
        vec![
            "last by name, first by priority",
            "",
            "Zebra",
            "apple",
            "apples",
            "fig",
            "pear",
            "\u{e9}clair"
        ]
    );
}

#[test]
fn listing_does_not_depend_on_the_order_of_adding() {
    let entries = [("a", 1), ("b", 1), ("c", 3), ("d", 2), ("e", 3)];
    let mut forward = App::new();
    for (name, priority) in entries {
        forward.add_task(name, priority);
    }
    let mut backward = App::new();
    for (name, priority) in entries.iter().rev() {
        backward.add_task(name, *priority);
    }
    assert_eq!(forward.list_by_priority(), backward.list_by_priority());
    assert_eq!(
        pairs(&forward.list_by_priority()),
        expect(&[("c", 3), ("e", 3), ("d", 2), ("a", 1), ("b", 1)])
    );
}

#[test]
fn removing_a_name_that_is_not_held_changes_nothing() {
    let mut app = sample();
    let before = app.list_by_priority();
    let shown = app.display_tasks();
    app.remove_task("Water the plants");
    app.remove_task("do laundry");
    app.remove_task("");
    assert_eq!(app.list_by_priority(), before);
    assert_eq!(app.display_tasks(), shown);
}

#[test]
fn removing_from_an_empty_store_leaves_it_empty() {
    let mut app = App::new();
    app.remove_task("anything");
    assert!(app.list_by_priority().is_empty());
}

#[test]
fn removing_every_task_empties_the_store() {
    let mut app = sample();
    app.remove_task("Clean kitchen");
    app.remove_task("Take out the trash");
    app.remove_task("Do laundry");
    assert!(app.list_by_priority().is_empty());
}

#[test]
fn a_clone_of_a_task_equals_it() {
    let task = Task { name: "copy me".to_string(), priority: -4 };
    let copy = task.clone();
    assert_eq!(copy, task);
    assert_ne!(copy, Task { name: "copy me".to_string(), priority: 4 });
    assert_ne!(copy, Task { name: "copy you".to_string(), priority: -4 });
}

#[test]
fn a_task_is_listed_before_those_of_lower_priority_or_later_name() {
    let high = Task { name: "z".to_string(), priority: 2 };
    let low = Task { name: "a".to_string(), priority: 1 };
    let low_later = Task { name: "b".to_string(), priority: 1 };
    assert!(high.is_listed_before(&low));
    assert!(!low.is_listed_before(&high));
    assert!(low.is_listed_before(&low_later));
    assert!(!low_later.is_listed_before(&low));
    assert!(!low.is_listed_before(&low));
}

#[test]
fn bytes_are_ordered_lexicographically() {
    assert!(is_before(b"", b"a"));
    assert!(!is_before(b"", b""));
    assert!(!is_before(b"a", b""));
    assert!(is_before(b"ab", b"abc"));
    assert!(!is_before(b"abc", b"ab"));
    assert!(is_before(b"abc", b"abd"));
    assert!(!is_before(b"abd", b"abc"));
    assert!(is_before(b"a\xff", b"b"));
    assert!(!is_before(b"same", b"same"));
}

#[test]
fn names_are_ordered_as_text_is() {
    let names = ["", "A", "Z", "a", "ab", "b", "\u{e9}", "\u{4e2d}", "\u{1f600}"];
    for (i, a) in names.iter().enumerate() {
        for (j, b) in names.iter().enumerate() {
            assert_eq!(is_name_before(a, b), i < j, "{a:?} before {b:?}");
            assert_eq!(is_name_before(a, b), a < b);
        }
    }
}
