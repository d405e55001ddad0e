//! Where a corpus is cut does not matter, as long as it is cut in wide gaps.
//!
//! A chunk is counted with its boundary buffer, which stands for the spaces
//! that may follow its last characters. So the windows that a chunk adds to a
//! model are those of its text with five spaces behind it. Where a chunk ends
//! in four spaces, no window that counts reaches over its end, and the chunks
//! of a corpus give the weights that the whole text would give in one chunk.
//! Where a chunk ends in fewer spaces, the windows over its end are lost.

use crate::load_text::{chunk_counts, corpus_counts};
use crate::model::{contributes, empty_model, model_of, rewindow_count};
use crate::ngrams::{count_text, count_windows, merge_first, window_at, window_count};
use crate::order::{
    gain, gain_total, lemma_derive_measure, lemma_model_measure, measure, windows_gain, Measure,
};
use crate::table::{lemma_position, table_add, table_contains, table_position, table_weight};
use crate::text::{boundary_buffer_of, normalized_language, SPACE};
use crate::translation::{translate_char, translate_text};
use vstd::prelude::*;
use vstd::utf8::decode_utf8;

verus! {

/// What the `n` windows of `s` from the one at `from` on add to a measure,
/// each seen once.
pub open spec fn range_gain(
    table: Map<char, Seq<char>>,
    s: Seq<char>,
    from: nat,
    n: nat,
    of: Measure,
) -> nat
    decreases n,
{
    if n == 0 {
        0
    } else {
        range_gain(table, s, from, (n - 1) as nat, of) + gain(
            table,
            window_at(s, 5, from + n - 1),
            1,
            of,
        )
    }
}

/// The window of five characters that starts `k` characters after `from`.
pub open spec fn window_after(s: Seq<char>, from: nat, k: int) -> Seq<char> {
    window_at(s, 5, from + k)
}

/// Five spaces.
pub open spec fn gap() -> Seq<char> {
    seq![SPACE, SPACE, SPACE, SPACE, SPACE]
}

/// What a chunk of text adds to a measure: what the windows of the text with
/// five spaces behind it add, one window for each character of the text.
pub open spec fn chunk_gain(table: Map<char, Seq<char>>, text: Seq<char>, of: Measure) -> nat {
    range_gain(table, text + gap(), 0, text.len(), of)
}

/// Whether a text ends in four spaces.
pub open spec fn ends_in_wide_gap(text: Seq<char>) -> bool {
    &&& text.len() >= 4
    &&& forall|i: int| text.len() - 4 <= i < text.len() ==> text[i] == SPACE
}

/// The texts of the first `n` chunks, joined.
pub open spec fn joined(chunks: Seq<Vec<u8>>, n: nat) -> Seq<char>
    decreases n,
{
    if n == 0 {
        Seq::empty()
    } else {
        joined(chunks, (n - 1) as nat) + decode_utf8(chunks[n - 1]@)
    }
}

/// Whether each of the first `n` chunks ends in four spaces.
pub open spec fn cut_in_wide_gaps(chunks: Seq<Vec<u8>>, n: nat) -> bool {
    forall|i: int| 0 <= i < n ==> ends_in_wide_gap(decode_utf8(#[trigger] chunks[i]@))
}

/// What windows add grows with the count in proportion.
pub proof fn lemma_windows_gain_linear(s: Seq<char>, a: nat, b: nat, n: nat, of: Measure)
    ensures
        windows_gain(s, a + b, n, of) == windows_gain(s, a, n, of) + windows_gain(s, b, n, of),
    decreases n,
{
    if n > 0 {
        lemma_windows_gain_linear(s, a, b, (n - 1) as nat, of);
    }
}

/// What a quingram adds grows with its count in proportion.
pub proof fn lemma_gain_linear(
    table: Map<char, Seq<char>>,
    quingram: Seq<char>,
    a: nat,
    b: nat,
    of: Measure,
)
    ensures
        gain(table, quingram, a + b, of) == gain(table, quingram, a, of) + gain(
            table,
            quingram,
            b,
            of,
        ),
        gain(table, quingram, 0, of) == 0,
{
    let translated = translate_text(table, quingram);
    let n = rewindow_count(translate_char(table, quingram[0]), translated);
    lemma_windows_gain_linear(translated.push(SPACE), a, b, n, of);
    lemma_windows_gain_linear(translated.push(SPACE), 0, 0, n, of);
}

/// The gain of counts after one entry was replaced.
pub proof fn lemma_gain_total_update(
    table: Map<char, Seq<char>>,
    counts: Seq<(Seq<char>, nat)>,
    i: int,
    entry: (Seq<char>, nat),
    of: Measure,
)
    requires
        0 <= i < counts.len(),
    ensures
        gain_total(table, counts.update(i, entry), of) + gain(
            table,
            counts[i].0,
            counts[i].1,
            of,
        ) == gain_total(table, counts, of) + gain(table, entry.0, entry.1, of),
    decreases counts.len(),
{
    let updated = counts.update(i, entry);
    if i == counts.len() - 1 {
        assert(updated.drop_last() == counts.drop_last());
    } else {
        lemma_gain_total_update(table, counts.drop_last(), i, entry, of);
        assert(updated.drop_last() == counts.drop_last().update(i, entry));
    }
}

/// Adding a weight under a key adds what the key gains with that weight.
pub proof fn lemma_gain_total_add(
    table: Map<char, Seq<char>>,
    counts: Seq<(Seq<char>, nat)>,
    key: Seq<char>,
    weight: nat,
    of: Measure,
)
    ensures
        gain_total(table, table_add(counts, key, weight), of) == gain_total(table, counts, of)
            + gain(table, key, weight, of),
{
    lemma_position(counts, key);
    let held = table_weight(counts, key);
    lemma_gain_linear(table, key, held, weight, of);
    if table_contains(counts, key) {
        lemma_gain_total_update(
            table,
            counts,
            table_position(counts, key),
            (key, held + weight),
            of,
        );
    } else {
        assert(counts.push((key, held + weight)).drop_last() == counts);
    }
}

/// Counting windows adds what the windows gain, each seen once.
pub proof fn lemma_gain_total_count_windows(
    table: Map<char, Seq<char>>,
    counts: Seq<(Seq<char>, nat)>,
    s: Seq<char>,
    n: nat,
    of: Measure,
)
    ensures
        gain_total(table, count_windows(counts, s, 5, n), of) == gain_total(table, counts, of)
            + range_gain(table, s, 0, n, of),
    decreases n,
{
    if n > 0 {
        lemma_gain_total_count_windows(table, counts, s, (n - 1) as nat, of);
        lemma_gain_total_add(
            table,
            count_windows(counts, s, 5, (n - 1) as nat),
            window_at(s, 5, n - 1),
            1,
            of,
        );
    }
}

/// Merging counts adds their gains.
pub proof fn lemma_gain_total_merge_first(
    table: Map<char, Seq<char>>,
    a: Seq<(Seq<char>, nat)>,
    b: Seq<(Seq<char>, nat)>,
    n: nat,
    of: Measure,
)
    requires
        n <= b.len(),
    ensures
        gain_total(table, merge_first(a, b, n), of) == gain_total(table, a, of) + gain_total(
            table,
            b.take(n as int),
            of,
        ),
    decreases n,
{
    if n > 0 {
        lemma_gain_total_merge_first(table, a, b, (n - 1) as nat, of);
        lemma_gain_total_add(table, merge_first(a, b, (n - 1) as nat), b[n - 1].0, b[n - 1].1, of);
        assert(b.take(n as int).drop_last() == b.take(n - 1));
    } else {
        assert(b.take(0).len() == 0);
    }
}

/// A range of windows is the range up to a window and the range from it on.
pub proof fn lemma_range_gain_split(
    table: Map<char, Seq<char>>,
    s: Seq<char>,
    from: nat,
    a: nat,
    b: nat,
    of: Measure,
)
    ensures
        range_gain(table, s, from, a + b, of) == range_gain(table, s, from, a, of) + range_gain(
            table,
            s,
            from + a,
            b,
            of,
        ),
    decreases b,
{
    if b > 0 {
        lemma_range_gain_split(table, s, from, a, (b - 1) as nat, of);
        assert(from + (a + b) - 1 == (from + a) + b - 1);
    }
}

/// Ranges of equal windows gain the same.
pub proof fn lemma_range_gain_agree(
    table: Map<char, Seq<char>>,
    s: Seq<char>,
    from: nat,
    t: Seq<char>,
    start: nat,
    n: nat,
    of: Measure,
)
    requires
        forall|k: int|
            0 <= k < n ==> #[trigger] window_after(s, from, k) == window_after(t, start, k),
    ensures
        range_gain(table, s, from, n, of) == range_gain(table, t, start, n, of),
    decreases n,
{
    if n > 0 {
        lemma_range_gain_agree(table, s, from, t, start, (n - 1) as nat, of);
        assert(window_after(s, from, n - 1) == window_after(t, start, n - 1));
    }
}

/// Windows that begin with a space gain nothing.
pub proof fn lemma_range_gain_of_spaces(
    table: Map<char, Seq<char>>,
    s: Seq<char>,
    from: nat,
    n: nat,
    of: Measure,
)
    requires
        from + n + 5 <= s.len(),
        forall|k: int| from <= k < from + n ==> s[k] == SPACE,
    ensures
        range_gain(table, s, from, n, of) == 0,
    decreases n,
{
    if n > 0 {
        lemma_range_gain_of_spaces(table, s, from, (n - 1) as nat, of);
        let w = window_at(s, 5, from + n - 1);
        assert(w[0] == s[from + n - 1]);
        assert(!contributes(table, w));
    }
}

/// What the counts of a chunk gain is what the windows of its text with five
/// spaces behind it gain.
pub proof fn lemma_chunk_gain(table: Map<char, Seq<char>>, text: Seq<char>, of: Measure)
    ensures
        gain_total(table, chunk_counts(text), of) == chunk_gain(table, text, of),
{
    let buffer = boundary_buffer_of(text);
    let padded = text + gap();
    let inner = window_count(text, 5);
    let first = count_text(Seq::empty(), text, 5);
    lemma_gain_total_count_windows(table, Seq::empty(), text, inner, of);
    lemma_gain_total_count_windows(table, first, buffer, 5, of);
    assert(gain_total(table, Seq::empty(), of) == 0);
    if text.len() >= 5 {
        let n = (text.len() - 5) as nat;
        lemma_range_gain_split(table, padded, 0, n, 5, of);
        assert forall|k: int| 0 <= k < n implies #[trigger] window_after(text, 0, k)
            == window_after(padded, 0, k) by {
            assert(window_at(text, 5, k) =~= window_at(padded, 5, k));
        }
        lemma_range_gain_agree(table, text, 0, padded, 0, n, of);
        assert forall|k: int| 0 <= k < 5 implies #[trigger] window_after(buffer, 0, k)
            == window_after(padded, n, k) by {
            assert(window_at(buffer, 5, k) =~= window_at(padded, 5, n + k));
        }
        lemma_range_gain_agree(table, buffer, 0, padded, n, 5, of);
    } else {
        let pad = (5 - text.len()) as nat;
        lemma_range_gain_split(table, buffer, 0, pad, text.len(), of);
        lemma_range_gain_of_spaces(table, buffer, 0, pad, of);
        assert forall|k: int| 0 <= k < text.len() implies #[trigger] window_after(buffer, pad, k)
            == window_after(padded, 0, k) by {
            assert(window_at(buffer, 5, pad + k) =~= window_at(padded, 5, k));
        }
        lemma_range_gain_agree(table, buffer, pad, padded, 0, text.len(), of);
    }
}

/// Where a text ends in four spaces, what it and a text behind it gain as
/// one chunk is what they gain as two.
pub proof fn lemma_chunk_gain_joined(
    table: Map<char, Seq<char>>,
    x: Seq<char>,
    y: Seq<char>,
    of: Measure,
)
    requires
        ends_in_wide_gap(x),
    ensures
        chunk_gain(table, x + y, of) == chunk_gain(table, x, of) + chunk_gain(table, y, of),
{
    let whole = (x + y) + gap();
    let left = x + gap();
    let right = y + gap();
    let n = (x.len() - 4) as nat;
    lemma_range_gain_split(table, whole, 0, x.len(), y.len(), of);
    assert forall|k: int| 0 <= k < y.len() implies #[trigger] window_after(whole, x.len(), k)
        == window_after(right, 0, k) by {
        assert(window_at(whole, 5, x.len() + k) =~= window_at(right, 5, k));
    }
    lemma_range_gain_agree(table, whole, x.len(), right, 0, y.len(), of);
    lemma_range_gain_split(table, whole, 0, n, 4, of);
    lemma_range_gain_split(table, left, 0, n, 4, of);
    assert forall|k: int| 0 <= k < n implies #[trigger] window_after(whole, 0, k)
        == window_after(left, 0, k) by {
        assert(window_at(whole, 5, k) =~= window_at(left, 5, k));
    }
    lemma_range_gain_agree(table, whole, 0, left, 0, n, of);
    assert forall|k: int| n <= k < n + 4 implies whole[k] == SPACE && left[k] == SPACE by {
        assert(whole[k] == x[k]);
        assert(left[k] == x[k]);
    }
    lemma_range_gain_of_spaces(table, whole, n, 4, of);
    lemma_range_gain_of_spaces(table, left, n, 4, of);
}

/// Where every chunk but the last ends in four spaces, what the merged counts
/// of the chunks gain is what the joined text gains as one chunk.
pub proof fn lemma_corpus_gain(
    table: Map<char, Seq<char>>,
    chunks: Seq<Vec<u8>>,
    n: nat,
    of: Measure,
)
    requires
        n <= chunks.len(),
        n > 0 ==> cut_in_wide_gaps(chunks, (n - 1) as nat),
    ensures
        gain_total(table, corpus_counts(chunks, n), of) == chunk_gain(
            table,
            joined(chunks, n),
            of,
        ),
        n > 0 && ends_in_wide_gap(decode_utf8(chunks[n - 1]@)) ==> ends_in_wide_gap(
            joined(chunks, n),
        ),
    decreases n,
{
    if n == 0 {
        assert(gain_total(table, corpus_counts(chunks, 0), of) == 0);
    } else {
        let before = corpus_counts(chunks, (n - 1) as nat);
        let text = decode_utf8(chunks[n - 1]@);
        let counts = chunk_counts(text);
        let so_far = joined(chunks, (n - 1) as nat);
        lemma_corpus_gain(table, chunks, (n - 1) as nat, of);
        lemma_gain_total_merge_first(table, before, counts, counts.len(), of);
        assert(counts.take(counts.len() as int) == counts);
        lemma_chunk_gain(table, text, of);
        if n == 1 {
            assert(so_far + text =~= text);
        } else {
            assert(ends_in_wide_gap(decode_utf8(chunks[n - 2]@)));
            lemma_chunk_gain_joined(table, so_far, text, of);
        }
        if ends_in_wide_gap(text) {
            let all = so_far + text;
            assert forall|i: int| all.len() - 4 <= i < all.len() implies all[i] == SPACE by {
                assert(all[i] == text[i - so_far.len()]);
            }
        }
    }
}

/// Where every chunk but the last ends in four spaces, the chunks of a corpus
/// give the weights and the totals, and with them the frequencies, that their
/// joined text gives as one chunk.
pub proof fn law_cuts_in_wide_gaps_keep_weights(
    chunks: Seq<Vec<u8>>,
    language: Seq<char>,
    table: Map<char, Seq<char>>,
    of: Measure,
)
    requires
        chunks.len() > 0 ==> cut_in_wide_gaps(chunks, (chunks.len() - 1) as nat),
    ensures
        measure(model_of(corpus_counts(chunks, chunks.len()), language, table), of) == measure(
            model_of(chunk_counts(joined(chunks, chunks.len())), language, table),
            of,
        ),
{
    let start = empty_model(normalized_language(language));
    let split = corpus_counts(chunks, chunks.len());
    let whole = chunk_counts(joined(chunks, chunks.len()));
    lemma_derive_measure(start, table, split, split.len(), of);
    lemma_derive_measure(start, table, whole, whole.len(), of);
    assert(split.take(split.len() as int) == split);
    assert(whole.take(whole.len() as int) == whole);
    lemma_corpus_gain(table, chunks, chunks.len(), of);
    lemma_chunk_gain(table, joined(chunks, chunks.len()), of);
    lemma_model_measure(split, language, table, of);
    lemma_model_measure(whole, language, table, of);
}

} // verus!
