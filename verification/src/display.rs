//! The text in which a listing is displayed: a bordered table with one
//! numbered row for each task.

use vstd::prelude::*;
use vstd::string::StringExecFns;
use crate::store::App;
use crate::listing::listing_of;
use crate::task::{Task, TaskView, views};

verus! {

/// The character of the decimal digit `d`.
pub open spec fn digit(d: int) -> char
    recommends
        0 <= d < 10,
{
    if d == 0 {
        '0'
    } else if d == 1 {
        '1'
    } else if d == 2 {
        '2'
    } else if d == 3 {
        '3'
    } else if d == 4 {
        '4'
    } else if d == 5 {
        '5'
    } else if d == 6 {
        '6'
    } else if d == 7 {
        '7'
    } else if d == 8 {
        '8'
    } else {
        '9'
    }
}

/// The decimal digits of `n`, without leading zeros.
pub open spec fn decimal(n: nat) -> Seq<char>
    decreases n,
{
    if n < 10 {
        seq![digit(n as int)]
    } else {
        decimal(n / 10).push(digit((n % 10) as int))
    }
}

/// The decimal text of an integer, with a minus sign where it is negative.
pub open spec fn signed_decimal(i: int) -> Seq<char> {
    if i < 0 {
        seq!['-'] + decimal((-i) as nat)
    } else {
        decimal(i as nat)
    }
}

/// The number of a row, set to the right in a field of two characters.
pub open spec fn row_number(index: nat) -> Seq<char> {
    if index < 10 {
        seq![' '] + decimal(index)
    } else {
        decimal(index)
    }
}

/// The row of the task at position `index` of a listing.
pub open spec fn row(index: nat, task: TaskView) -> Seq<char> {
    "| "@ + row_number(index) + " | "@ + signed_decimal(task.priority as int) + ": "@ + task.name
        + "\n"@
}

/// The rows of a listing, numbered from zero.
pub open spec fn rows(tasks: Seq<TaskView>) -> Seq<char>
    decreases tasks.len(),
{
    if tasks.len() == 0 {
        Seq::empty()
    } else {
        rows(tasks.drop_last()) + row((tasks.len() - 1) as nat, tasks.last())
    }
}

/// The table of a listing: an empty line, the heading between two rules,
/// the rows, and a closing rule.
pub open spec fn table(tasks: Seq<TaskView>) -> Seq<char> {
    "\n|-------------------------------\n| id |  Tasks (by priority): \n|-------------------------------\n"@
        + rows(tasks) + "|-------------------------------\n"@
}

/// The text of one decimal digit.
fn digit_text(d: u64) -> (text: &'static str)
    requires
        d < 10,
    ensures
        text@ == seq![digit(d as int)],
{
    proof {
        reveal_strlit("0");
        reveal_strlit("1");
        reveal_strlit("2");
        reveal_strlit("3");
        reveal_strlit("4");
        reveal_strlit("5");
        reveal_strlit("6");
        reveal_strlit("7");
        reveal_strlit("8");
        reveal_strlit("9");
    }
    let text = if d == 0 {
        "0"
    } else if d == 1 {
        "1"
    } else if d == 2 {
        "2"
    } else if d == 3 {
        "3"
    } else if d == 4 {
        "4"
    } else if d == 5 {
        "5"
    } else if d == 6 {
        "6"
    } else if d == 7 {
        "7"
    } else if d == 8 {
        "8"
    } else {
        "9"
    };
    assert(text@ =~= seq![digit(d as int)]);
    text
}

/// The decimal text of `n`.
pub fn decimal_text(n: u64) -> (text: String)
    ensures
        text@ == decimal(n as nat),
    decreases n,
{
    if n < 10 {
        String::from_str(digit_text(n))
    } else {
        let mut text = decimal_text(n / 10);
        text.append(digit_text(n % 10));
        assert(text@ =~= decimal(n as nat));
        text
    }
}

/// The decimal text of a priority.
pub fn priority_text(priority: i32) -> (text: String)
    ensures
        text@ == signed_decimal(priority as int),
{
    if priority < 0 {
        let size: u64 = (-(priority as i64)) as u64;
        let mut text = String::from_str("-");
        text.append(decimal_text(size).as_str());
        proof {
            reveal_strlit("-");
            assert(text@ =~= signed_decimal(priority as int));
        }
        text
    } else {
        decimal_text(priority as u64)
    }
}

/// The text of a row's number.
fn row_number_text(index: usize) -> (text: String)
    ensures
        text@ == row_number(index as nat),
{
    if index < 10 {
        let mut text = String::from_str(" ");
        text.append(decimal_text(index as u64).as_str());
        proof {
            reveal_strlit(" ");
            assert(text@ =~= row_number(index as nat));
        }
        text
    } else {
        decimal_text(index as u64)
    }
}

/// The text of the row of `task` at position `index`.
pub fn row_text(index: usize, task: &Task) -> (text: String)
    ensures
        text@ == row(index as nat, task@),
{
    let mut text = String::from_str("| ");
    text.append(row_number_text(index).as_str());
    text.append(" | ");
    text.append(priority_text(task.priority).as_str());
    text.append(": ");
    text.append(task.name.as_str());
    text.append("\n");
    assert(text@ =~= row(index as nat, task@));
    text
}

impl App {
    /// The table of the store's tasks in the listing order.
    pub fn display_tasks(&self) -> (text: String)
        ensures
            text@ == table(listing_of(self@)),
    {
        let listing = self.list_by_priority();
        let mut text = String::from_str(
            "\n|-------------------------------\n| id |  Tasks (by priority): \n|-------------------------------\n",
        );
        let ghost heading = text@;
        let mut i: usize = 0;
        while i < listing.len()
            invariant
                i <= listing@.len(),
                text@ == heading + rows(views(listing@).take(i as int)),
            decreases listing@.len() - i,
        {
            text.append(row_text(i, &listing[i]).as_str());
            proof {
                let shown = views(listing@).take(i + 1);
                assert(shown.drop_last() =~= views(listing@).take(i as int));
                assert(shown.last() == listing@[i as int]@);
                assert(text@ =~= heading + rows(shown));
            }
            i = i + 1;
        }
        text.append("|-------------------------------\n");
        proof {
            assert(views(listing@).take(i as int) =~= views(listing@));
        }
        text
    }
}

} // verus!
