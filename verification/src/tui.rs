//! How a layout and the time that a search has taken are written.

use crate::words::{decimal, write_number};
use vstd::prelude::*;
use vstd::string::*;

verus! {

/// A number in decimal, with a zero before it where it has one digit only.
pub open spec fn two_digits(n: nat) -> Seq<char> {
    if n < 10 {
        seq!['0'] + decimal(n)
    } else {
        decimal(n)
    }
}

/// A number of seconds as hours, minutes and seconds, each in two digits at
/// least, with colons between them.
pub open spec fn duration_text(seconds: nat) -> Seq<char> {
    two_digits(seconds / 3600) + seq![':'] + two_digits((seconds % 3600) / 60) + seq![':']
        + two_digits(seconds % 60)
}

/// Appends a number in two digits at least.
fn push_two_digits(text: &mut String, n: u64)
    ensures
        final(text)@ == old(text)@ + two_digits(n as nat),
{
    if n < 10 {
        text.push('0');
    }
    text.append(write_number(n).as_str());
}

/// Writes a number of seconds as `hh:mm:ss`.
pub fn format_duration(seconds: u64) -> (text: String)
    ensures
        text@ == duration_text(seconds as nat),
{
    let mut text = String::new();
    push_two_digits(&mut text, seconds / 3600);
    text.push(':');
    push_two_digits(&mut text, (seconds % 3600) / 60);
    text.push(':');
    push_two_digits(&mut text, seconds % 60);
    text
}

/// What stands before the key at position `i` of a layout: a line break
/// where a row of ten keys begins, but not before the first, and a space
/// where the second half of a row begins.
pub open spec fn gap_before(i: nat) -> Seq<char> {
    (if i % 10 == 0 && i > 0 {
        seq!['\n']
    } else {
        seq![]
    }) + (if (i + 5) % 10 == 0 {
        seq![' ']
    } else {
        seq![]
    })
}

/// The first `n` keys of a layout in rows of ten, each row in two halves, a
/// space behind every key.
pub open spec fn rows_of(keys: Seq<String>, n: nat) -> Seq<char>
    decreases n,
{
    if n == 0 {
        seq![]
    } else {
        rows_of(keys, (n - 1) as nat) + gap_before((n - 1) as nat) + keys[n - 1]@ + seq![' ']
    }
}

/// Writes the keys of a layout, each as it is to be shown, in rows of ten.
pub fn heatmap_string(keys: &Vec<String>) -> (text: String)
    ensures
        text@ == rows_of(keys@, keys@.len()),
{
    let mut text = String::new();
    let mut i: usize = 0;
    while i < keys.len()
        invariant
            i <= keys.len(),
            text@ == rows_of(keys@, i as nat),
        decreases keys.len() - i,
    {
        let ghost before = text@;
        if i % 10 == 0 && i > 0 {
            text.push('\n');
        }
        if i % 10 == 5 {
            text.push(' ');
        }
        assert(text@ == before + gap_before(i as nat));
        text.append(keys[i].as_str());
        text.push(' ');
        i += 1;
    }
    text
}

/// The number of keys of a layout.
pub const KEYS: usize = 30;

/// The first `n` keys of row `y` of a layout, a space behind every key and
/// one more behind the fifth.
pub open spec fn row_of(keys: Seq<String>, y: nat, n: nat) -> Seq<char>
    decreases n,
{
    if n == 0 {
        seq![]
    } else {
        row_of(keys, y, (n - 1) as nat) + keys[10 * y + n - 1]@ + (if n == 5 {
            seq![' ', ' ']
        } else {
            seq![' ']
        })
    }
}

/// What stands between the rows of two layouts that are shown side by side.
pub open spec fn gutter() -> Seq<char> {
    "          "@
}

/// The first `n` rows of two layouts side by side, each pair of rows on a
/// line of its own.
pub open spec fn rows_side_by_side(left: Seq<String>, right: Seq<String>, n: nat) -> Seq<char>
    decreases n,
{
    if n == 0 {
        seq![]
    } else {
        rows_side_by_side(left, right, (n - 1) as nat) + row_of(left, (n - 1) as nat, 10)
            + gutter() + row_of(right, (n - 1) as nat, 10) + seq!['\n']
    }
}

/// Appends row `y` of a layout.
fn push_row(text: &mut String, keys: &Vec<String>, y: usize)
    requires
        y < 3,
        keys.len() >= KEYS,
    ensures
        final(text)@ == old(text)@ + row_of(keys@, y as nat, 10),
{
    let mut x: usize = 0;
    while x < 10
        invariant
            x <= 10,
            y < 3,
            keys.len() >= KEYS,
            text@ == old(text)@ + row_of(keys@, y as nat, x as nat),
        decreases 10 - x,
    {
        text.append(keys[10 * y + x].as_str());
        text.push(' ');
        if x == 4 {
            text.push(' ');
        }
        x += 1;
    }
}

/// Writes two layouts side by side, each key as it is to be shown, in three
/// rows of ten.
pub fn compare_rows(left: &Vec<String>, right: &Vec<String>) -> (text: String)
    requires
        left.len() >= KEYS,
        right.len() >= KEYS,
    ensures
        text@ == rows_side_by_side(left@, right@, 3),
{
    let mut text = String::new();
    let mut y: usize = 0;
    while y < 3
        invariant
            y <= 3,
            left.len() >= KEYS,
            right.len() >= KEYS,
            text@ == rows_side_by_side(left@, right@, y as nat),
        decreases 3 - y,
    {
        push_row(&mut text, left, y);
        text.append("          ");
        push_row(&mut text, right, y);
        text.push('\n');
        y += 1;
    }
    text
}

/// The most bigrams that `sfbs` shows.
pub const MOST_SFBS: usize = 48;

/// The line above the worst bigrams of a layout: it names how many are shown,
/// which is no more than forty-eight.
pub open spec fn sfbs_heading_of(name: Seq<char>, top_n: nat) -> Seq<char> {
    "top "@ + decimal(if top_n < MOST_SFBS {
        top_n
    } else {
        MOST_SFBS as nat
    }) + " sfbs for "@ + name + ":"@
}

/// The line above the worst bigrams of a layout.
pub fn sfbs_heading(name: &str, top_n: usize) -> (text: String)
    ensures
        text@ == sfbs_heading_of(name@, top_n as nat),
{
    let shown = if top_n < MOST_SFBS {
        top_n
    } else {
        MOST_SFBS
    };
    let mut text = String::from_str("top ");
    text.append(write_number(shown as u64).as_str());
    text.append(" sfbs for ");
    text.append(name);
    text.append(":");
    text
}

} // verus!
