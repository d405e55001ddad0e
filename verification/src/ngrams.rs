//! The first pass over a text: counting the windows of a fixed width.
//!
//! A window is taken at every position that has `width` characters and one
//! more character after them, so a text of `n` characters has `n - width`
//! windows. The characters at the end of a chunk get their windows from the
//! chunk's boundary buffer.

use crate::count_table::CountTable;
use crate::error::LoadError;
use crate::table::{
    keys_distinct, lemma_add_total, lemma_put_keeps_distinct, table_add, table_total,
    table_weight,
};
use crate::text::{chars_of, string_of};
use vstd::prelude::*;

verus! {

/// The number of windows of `width` characters in `s`.
pub open spec fn window_count(s: Seq<char>, width: nat) -> nat {
    if s.len() > width {
        (s.len() - width) as nat
    } else {
        0
    }
}

/// The window of `s` that starts at `at`.
pub open spec fn window_at(s: Seq<char>, width: nat, at: int) -> Seq<char> {
    s.subrange(at, at + width)
}

/// `t` after the first `n` windows of `s` were counted into it, one each.
pub open spec fn count_windows(
    t: Seq<(Seq<char>, nat)>,
    s: Seq<char>,
    width: nat,
    n: nat,
) -> Seq<(Seq<char>, nat)>
    decreases n,
{
    if n == 0 {
        t
    } else {
        table_add(count_windows(t, s, width, (n - 1) as nat), window_at(s, width, n - 1), 1)
    }
}

/// `t` after all windows of `s` were counted into it.
pub open spec fn count_text(t: Seq<(Seq<char>, nat)>, s: Seq<char>, width: nat) -> Seq<
    (Seq<char>, nat),
> {
    count_windows(t, s, width, window_count(s, width))
}

/// The window counts of a chunk: those of its text, then those of its
/// boundary buffer.
pub open spec fn window_counts(s: Seq<char>, last: Seq<char>, width: nat) -> Seq<(Seq<char>, nat)> {
    count_text(count_text(Seq::empty(), s, width), last, width)
}

/// `a` after the first `n` entries of `b` were added to it.
pub open spec fn merge_first(a: Seq<(Seq<char>, nat)>, b: Seq<(Seq<char>, nat)>, n: nat) -> Seq<
    (Seq<char>, nat),
>
    decreases n,
{
    if n == 0 {
        a
    } else {
        table_add(merge_first(a, b, (n - 1) as nat), b[n - 1].0, b[n - 1].1)
    }
}

/// The key-wise sum of two tables: the keys of `a` in their order, then the
/// keys that only `b` has, in theirs.
pub open spec fn merged(a: Seq<(Seq<char>, nat)>, b: Seq<(Seq<char>, nat)>) -> Seq<
    (Seq<char>, nat),
> {
    merge_first(a, b, b.len())
}

/// Counting windows keeps the keys distinct and raises the total by one for
/// each window.
pub proof fn lemma_count_windows(t: Seq<(Seq<char>, nat)>, s: Seq<char>, width: nat, n: nat)
    requires
        keys_distinct(t),
    ensures
        keys_distinct(count_windows(t, s, width, n)),
        table_total(count_windows(t, s, width, n)) == table_total(t) + n,
    decreases n,
{
    if n > 0 {
        let before = count_windows(t, s, width, (n - 1) as nat);
        let key = window_at(s, width, n - 1);
        lemma_count_windows(t, s, width, (n - 1) as nat);
        lemma_put_keeps_distinct(before, key, table_weight(before, key) + 1);
        lemma_add_total(before, key, 1);
    }
}

/// The total of the first `n` entries of a table.
pub open spec fn prefix_total(t: Seq<(Seq<char>, nat)>, n: nat) -> nat {
    table_total(t.take(n as int))
}

/// Prefix totals grow entry by entry up to the total.
pub proof fn lemma_prefix_total(t: Seq<(Seq<char>, nat)>, n: nat)
    requires
        n <= t.len(),
    ensures
        prefix_total(t, n) <= table_total(t),
        n < t.len() ==> prefix_total(t, n + 1) == prefix_total(t, n) + t[n as int].1,
    decreases t.len() - n,
{
    if n < t.len() {
        assert(t.take(n + 1 as int).drop_last() == t.take(n as int));
        lemma_prefix_total(t, n + 1);
    } else {
        assert(t.take(n as int) == t);
    }
}

/// Merging keeps the keys distinct and adds the totals.
pub proof fn lemma_merge_first(a: Seq<(Seq<char>, nat)>, b: Seq<(Seq<char>, nat)>, n: nat)
    requires
        keys_distinct(a),
        n <= b.len(),
    ensures
        keys_distinct(merge_first(a, b, n)),
        table_total(merge_first(a, b, n)) == table_total(a) + prefix_total(b, n),
    decreases n,
{
    if n > 0 {
        let before = merge_first(a, b, (n - 1) as nat);
        let e = b[n - 1];
        lemma_merge_first(a, b, (n - 1) as nat);
        lemma_put_keeps_distinct(before, e.0, table_weight(before, e.0) + e.1);
        lemma_add_total(before, e.0, e.1);
        lemma_prefix_total(b, (n - 1) as nat);
    } else {
        assert(b.take(0) == Seq::<(Seq<char>, nat)>::empty());
    }
}

/// Counts all windows of `chars` into `table`.
pub fn count_into(table: &mut CountTable, chars: &Vec<char>, width: usize)
    requires
        old(table).wf(),
        table_total(old(table)@) + window_count(chars@, width as nat) <= u64::MAX,
    ensures
        final(table).wf(),
        final(table)@ == count_text(old(table)@, chars@, width as nat),
        table_total(final(table)@) == table_total(old(table)@) + window_count(
            chars@,
            width as nat,
        ),
{
    proof {
        old(table).lemma_wf();
        lemma_count_windows(
            old(table)@,
            chars@,
            width as nat,
            window_count(chars@, width as nat),
        );
    }
    if chars.len() <= width {
        return ;
    }
    let n = chars.len() - width;
    let mut i: usize = 0;
    while i < n
        invariant
            i <= n,
            n + width == chars.len(),
            n == window_count(chars@, width as nat),
            table.wf(),
            table@ == count_windows(old(table)@, chars@, width as nat, i as nat),
            table_total(old(table)@) + n <= u64::MAX,
            old(table).wf(),
        decreases n - i,
    {
        proof {
            old(table).lemma_wf();
            lemma_count_windows(old(table)@, chars@, width as nat, i as nat);
        }
        let key = string_of(chars, i, i + width);
        table.add(key.as_str(), 1);
        i += 1;
    }
}

/// The counts of the windows of width `N` in a chunk of text.
#[derive(Debug)]
pub struct TextNgrams<const N: usize> {
    pub ngrams: CountTable,
}

impl<const N: usize> Default for TextNgrams<N> {
    /// No window counted yet.
    fn default() -> (r: Self)
        ensures
            r.ngrams.wf(),
            r.ngrams@ == Seq::<(Seq<char>, nat)>::empty(),
    {
        TextNgrams { ngrams: CountTable::new() }
    }
}

impl<const N: usize> TextNgrams<N> {
    /// No window counted yet.
    pub fn new() -> (r: Self)
        ensures
            r.ngrams.wf(),
            r.ngrams@ == Seq::<(Seq<char>, nat)>::empty(),
    {
        TextNgrams { ngrams: CountTable::new() }
    }

    /// Counts the windows of a chunk's text `s`, then those of its boundary
    /// buffer `last`.
    pub fn from_str_last(s: &str, last: &str) -> (r: Self)
        requires
            s@.len() + last@.len() <= u64::MAX,
        ensures
            r.ngrams.wf(),
            r.ngrams@ == window_counts(s@, last@, N as nat),
    {
        let text = chars_of(s);
        let tail = chars_of(last);
        let mut ngrams = CountTable::new();
        count_into(&mut ngrams, &text, N);
        proof {
            lemma_count_windows(Seq::empty(), s@, N as nat, window_count(s@, N as nat));
        }
        count_into(&mut ngrams, &tail, N);
        TextNgrams { ngrams }
    }

    /// The key-wise sum of two counts.
    pub fn combine_with(self, rhs: Self) -> (r: Self)
        requires
            self.ngrams.wf(),
            rhs.ngrams.wf(),
            table_total(self.ngrams@) + table_total(rhs.ngrams@) <= u64::MAX,
        ensures
            r.ngrams.wf(),
            r.ngrams@ == merged(self.ngrams@, rhs.ngrams@),
            table_total(r.ngrams@) == table_total(self.ngrams@) + table_total(rhs.ngrams@),
    {
        proof {
            self.ngrams.lemma_wf();
            lemma_merge_first(self.ngrams@, rhs.ngrams@, rhs.ngrams@.len());
            lemma_prefix_total(rhs.ngrams@, rhs.ngrams@.len());
            assert(rhs.ngrams@.take(rhs.ngrams@.len() as int) == rhs.ngrams@);
        }
        let mut ngrams = self.ngrams;
        let n = rhs.ngrams.len();
        let mut i: usize = 0;
        while i < n
            invariant
                i <= n,
                n == rhs.ngrams@.len(),
                ngrams.wf(),
                self.ngrams.wf(),
                rhs.ngrams.wf(),
                ngrams@ == merge_first(self.ngrams@, rhs.ngrams@, i as nat),
                table_total(self.ngrams@) + table_total(rhs.ngrams@) <= u64::MAX,
            decreases n - i,
        {
            proof {
                self.ngrams.lemma_wf();
                lemma_merge_first(self.ngrams@, rhs.ngrams@, i as nat);
                lemma_prefix_total(rhs.ngrams@, i as nat);
                lemma_prefix_total(rhs.ngrams@, (i + 1) as nat);
            }
            match rhs.ngrams.entry(i) {
                Some((key, weight)) => {
                    ngrams.add(key.as_str(), weight);
                },
                None => {},
            }
            i += 1;
        }
        TextNgrams { ngrams }
    }

    /// The key-wise sum of two counts, where their totals together are no more
    /// than a count can hold.
    pub fn checked_combine_with(self, rhs: Self) -> (r: Result<Self, LoadError>)
        requires
            self.ngrams.wf(),
            rhs.ngrams.wf(),
        ensures
            r is Ok <==> table_total(self.ngrams@) + table_total(rhs.ngrams@) <= u64::MAX,
            r is Ok ==> r->Ok_0.ngrams.wf() && r->Ok_0.ngrams@ == merged(
                self.ngrams@,
                rhs.ngrams@,
            ),
            r is Err ==> r->Err_0 == LoadError::CountOverflow,
    {
        if rhs.ngrams.total() > u64::MAX - self.ngrams.total() {
            Err(LoadError::CountOverflow)
        } else {
            Ok(self.combine_with(rhs))
        }
    }
}

} // verus!
