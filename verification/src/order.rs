//! The weights of a model do not depend on the order of the counts.
//!
//! What a quingram adds to a table depends on the quingram, its count and the
//! translator alone, not on what the table holds. So the weight under a key,
//! and the total of a table, are sums over the counts, and a sum does not
//! change when its terms change places. Only the order of the entries of a
//! table, and with it the order among equal weights, follows the order of the
//! counts.

use crate::laws::{law_merge_adds_weights, lemma_add_weight};
use crate::model::{
    accumulate, accumulate_windows, contribute, contributes, derive_first, empty_model, gate,
    law_model, lemma_publication, model_of, publication, raw_model, rewindow_count, sub_ngram,
    table_of, Category, Model,
};
use crate::ngrams::{lemma_merge_first, merged};
use crate::table::{
    keys_distinct, lemma_add_total, lemma_permutation_keys, lemma_position,
    lemma_position_of_entry, lemma_weight_below_total, table_contains, table_position,
    table_total, table_weight,
};
use crate::text::{normalized_language, SPACE};
use crate::translation::{translate_char, translate_text};
use vstd::prelude::*;
use vstd::seq_lib::{to_multiset_contains, to_multiset_len, to_multiset_remove};

verus! {

/// Something that is read off a model and grows by what each window adds.
pub enum Measure {
    /// The weight that a table holds under a key.
    Weight(Category, Seq<char>),
    /// The total of a table.
    Total(Category),
}

/// What a model measures.
pub open spec fn measure(m: Model, of: Measure) -> nat {
    match of {
        Measure::Weight(category, key) => table_weight(table_of(m, category), key),
        Measure::Total(category) => table_total(table_of(m, category)),
    }
}

/// What a window adds to a measure.
pub open spec fn increment(s: Seq<char>, weight: nat, of: Measure) -> nat {
    match of {
        Measure::Weight(category, key) => if gate(s, category) && sub_ngram(s, category) == key {
            weight
        } else {
            0
        },
        Measure::Total(category) => if gate(s, category) {
            weight
        } else {
            0
        },
    }
}

/// What the first `n` five-character windows of `s` add to a measure.
pub open spec fn windows_gain(s: Seq<char>, weight: nat, n: nat, of: Measure) -> nat
    decreases n,
{
    if n == 0 {
        0
    } else {
        windows_gain(s, weight, (n - 1) as nat, of) + increment(
            s.subrange(n - 1, n + 4 as int),
            weight,
            of,
        )
    }
}

/// What a quingram that was seen `count` times adds to a measure.
pub open spec fn gain(
    table: Map<char, Seq<char>>,
    quingram: Seq<char>,
    count: nat,
    of: Measure,
) -> nat {
    let translated = translate_text(table, quingram);
    if !contributes(table, quingram) {
        0
    } else if translated.len() >= 5 {
        windows_gain(
            translated.push(SPACE),
            count,
            rewindow_count(translate_char(table, quingram[0]), translated),
            of,
        )
    } else {
        increment(translated, count, of)
    }
}

/// What all of `counts` add to a measure.
pub open spec fn gain_total(
    table: Map<char, Seq<char>>,
    counts: Seq<(Seq<char>, nat)>,
    of: Measure,
) -> nat
    decreases counts.len(),
{
    if counts.len() == 0 {
        0
    } else {
        gain_total(table, counts.drop_last(), of) + gain(
            table,
            counts.last().0,
            counts.last().1,
            of,
        )
    }
}

/// A window adds its increment, whatever the model holds.
pub proof fn lemma_accumulate_measure(m: Model, s: Seq<char>, weight: nat, of: Measure)
    ensures
        measure(accumulate(m, s, weight), of) == measure(m, of) + increment(s, weight, of),
{
    match of {
        Measure::Weight(category, key) => {
            lemma_add_weight(table_of(m, category), sub_ngram(s, category), weight, key);
        },
        Measure::Total(category) => {
            lemma_add_total(table_of(m, category), sub_ngram(s, category), weight);
        },
    }
}

/// Windows add their gain, whatever the model holds.
pub proof fn lemma_windows_measure(m: Model, s: Seq<char>, weight: nat, n: nat, of: Measure)
    ensures
        measure(accumulate_windows(m, s, weight, n), of) == measure(m, of) + windows_gain(
            s,
            weight,
            n,
            of,
        ),
    decreases n,
{
    if n > 0 {
        lemma_windows_measure(m, s, weight, (n - 1) as nat, of);
        lemma_accumulate_measure(
            accumulate_windows(m, s, weight, (n - 1) as nat),
            s.subrange(n - 1, n + 4 as int),
            weight,
            of,
        );
    }
}

/// A quingram adds its gain, whatever the model holds.
pub proof fn lemma_contribute_measure(
    m: Model,
    table: Map<char, Seq<char>>,
    quingram: Seq<char>,
    count: nat,
    of: Measure,
)
    ensures
        measure(contribute(m, table, quingram, count), of) == measure(m, of) + gain(
            table,
            quingram,
            count,
            of,
        ),
{
    let translated = translate_text(table, quingram);
    lemma_windows_measure(
        m,
        translated.push(SPACE),
        count,
        rewindow_count(translate_char(table, quingram[0]), translated),
        of,
    );
    lemma_accumulate_measure(m, translated, count, of);
}

/// Counts add their gains, whatever the model holds.
pub proof fn lemma_derive_measure(
    m: Model,
    table: Map<char, Seq<char>>,
    counts: Seq<(Seq<char>, nat)>,
    n: nat,
    of: Measure,
)
    requires
        n <= counts.len(),
    ensures
        measure(derive_first(m, table, counts, n), of) == measure(m, of) + gain_total(
            table,
            counts.take(n as int),
            of,
        ),
    decreases n,
{
    if n > 0 {
        lemma_derive_measure(m, table, counts, (n - 1) as nat, of);
        lemma_contribute_measure(
            derive_first(m, table, counts, (n - 1) as nat),
            table,
            counts[n - 1].0,
            counts[n - 1].1,
            of,
        );
        assert(counts.take(n as int).drop_last() == counts.take(n - 1));
    }
}

/// The gain of counts is the gain of one of them and of the others.
pub proof fn lemma_gain_total_remove(
    table: Map<char, Seq<char>>,
    counts: Seq<(Seq<char>, nat)>,
    i: int,
    of: Measure,
)
    requires
        0 <= i < counts.len(),
    ensures
        gain_total(table, counts.remove(i), of) + gain(table, counts[i].0, counts[i].1, of)
            == gain_total(table, counts, of),
    decreases counts.len(),
{
    if i == counts.len() - 1 {
        assert(counts.remove(i) == counts.drop_last());
    } else {
        lemma_gain_total_remove(table, counts.drop_last(), i, of);
        assert(counts.remove(i).drop_last() == counts.drop_last().remove(i));
        assert(counts.remove(i).last() == counts.last());
    }
}

/// The gain of counts does not depend on their order.
pub proof fn lemma_gain_total_permutation(
    table: Map<char, Seq<char>>,
    a: Seq<(Seq<char>, nat)>,
    b: Seq<(Seq<char>, nat)>,
    of: Measure,
)
    requires
        a.to_multiset() == b.to_multiset(),
    ensures
        gain_total(table, a, of) == gain_total(table, b, of),
    decreases a.len(),
{
    to_multiset_len(a);
    to_multiset_len(b);
    if a.len() > 0 {
        let x = a.last();
        assert(a[a.len() - 1] == x);
        to_multiset_contains(a, x);
        to_multiset_contains(b, x);
        let j = choose|j: int| 0 <= j < b.len() && b[j] == x;
        to_multiset_remove(a, a.len() - 1);
        to_multiset_remove(b, j);
        assert(a.remove(a.len() - 1) == a.drop_last());
        lemma_gain_total_permutation(table, a.drop_last(), b.remove(j), of);
        lemma_gain_total_remove(table, b, j, of);
    }
}

/// Publishing a table changes neither what it holds under a key nor its
/// total.
pub proof fn lemma_published_measure(
    raw: Seq<(Seq<char>, nat)>,
    t: Seq<(Seq<char>, nat)>,
    key: Seq<char>,
)
    requires
        keys_distinct(raw),
        publication(raw, t),
    ensures
        table_weight(t, key) == table_weight(raw, key),
        table_total(t) == table_total(raw),
{
    lemma_publication(raw, t);
    if table_total(raw) == 0 {
        lemma_weight_below_total(raw, key);
    } else {
        lemma_permutation_keys(raw, t);
    }
}

/// The model of a language measures what its weights measure before they are
/// put in order.
pub proof fn lemma_model_measure(
    counts: Seq<(Seq<char>, nat)>,
    language: Seq<char>,
    table: Map<char, Seq<char>>,
    of: Measure,
)
    ensures
        measure(model_of(counts, language, table), of) == measure(
            raw_model(counts, language, table),
            of,
        ),
{
    let raw = raw_model(counts, language, table);
    let m = model_of(counts, language, table);
    law_model(counts, language, table);
    let key = match of {
        Measure::Weight(_, key) => key,
        Measure::Total(_) => Seq::empty(),
    };
    lemma_published_measure(raw.characters, m.characters, key);
    lemma_published_measure(raw.bigrams, m.bigrams, key);
    lemma_published_measure(raw.skipgrams, m.skipgrams, key);
    lemma_published_measure(raw.skipgrams2, m.skipgrams2, key);
    lemma_published_measure(raw.skipgrams3, m.skipgrams3, key);
    lemma_published_measure(raw.trigrams, m.trigrams, key);
}

/// The weights and the totals of a model, and with them its frequencies, do
/// not depend on the order in which the counts are listed.
pub proof fn law_order_independence(
    a: Seq<(Seq<char>, nat)>,
    b: Seq<(Seq<char>, nat)>,
    language: Seq<char>,
    table: Map<char, Seq<char>>,
    of: Measure,
)
    requires
        a.to_multiset() == b.to_multiset(),
    ensures
        measure(raw_model(a, language, table), of) == measure(
            raw_model(b, language, table),
            of,
        ),
        measure(model_of(a, language, table), of) == measure(model_of(b, language, table), of),
{
    let start = empty_model(normalized_language(language));
    lemma_derive_measure(start, table, a, a.len(), of);
    lemma_derive_measure(start, table, b, b.len(), of);
    assert(a.take(a.len() as int) == a);
    assert(b.take(b.len() as int) == b);
    lemma_gain_total_permutation(table, a, b, of);
    lemma_model_measure(a, language, table, of);
    lemma_model_measure(b, language, table, of);
}

/// Two tables of distinct keys that hold the same weight under every key hold
/// the same entries.
pub proof fn lemma_same_weights_same_entries(a: Seq<(Seq<char>, nat)>, b: Seq<(Seq<char>, nat)>)
    requires
        keys_distinct(a),
        keys_distinct(b),
        forall|key: Seq<char>| table_contains(a, key) == table_contains(b, key),
        forall|key: Seq<char>| table_weight(a, key) == table_weight(b, key),
    ensures
        a.to_multiset() == b.to_multiset(),
{
    assert(a.no_duplicates());
    assert(b.no_duplicates());
    a.lemma_multiset_has_no_duplicates();
    b.lemma_multiset_has_no_duplicates();
    assert forall|e: (Seq<char>, nat)| a.to_multiset().count(e) == b.to_multiset().count(e) by {
        to_multiset_contains(a, e);
        to_multiset_contains(b, e);
        lemma_position(a, e.0);
        lemma_position(b, e.0);
        if a.contains(e) {
            let i = choose|i: int| 0 <= i < a.len() && a[i] == e;
            lemma_position_of_entry(a, i);
            assert(table_contains(b, e.0));
            let p = table_position(b, e.0);
            assert(b[p] == e);
            assert(b.contains(e));
        }
        if b.contains(e) {
            let i = choose|i: int| 0 <= i < b.len() && b[i] == e;
            lemma_position_of_entry(b, i);
            assert(table_contains(a, e.0));
            let p = table_position(a, e.0);
            assert(a[p] == e);
            assert(a.contains(e));
        }
    }
    assert(a.to_multiset() =~= b.to_multiset());
}

/// Whichever of two counts is merged into the other, the model that the
/// merged counts give has the same weights and the same totals.
pub proof fn law_merge_order_keeps_weights(
    a: Seq<(Seq<char>, nat)>,
    b: Seq<(Seq<char>, nat)>,
    language: Seq<char>,
    table: Map<char, Seq<char>>,
    of: Measure,
)
    requires
        keys_distinct(a),
        keys_distinct(b),
    ensures
        measure(model_of(merged(a, b), language, table), of) == measure(
            model_of(merged(b, a), language, table),
            of,
        ),
{
    lemma_merge_first(a, b, b.len());
    lemma_merge_first(b, a, a.len());
    assert forall|key: Seq<char>|
        table_contains(merged(a, b), key) == table_contains(merged(b, a), key) && table_weight(
            merged(a, b),
            key,
        ) == table_weight(merged(b, a), key) by {
        law_merge_adds_weights(a, b, key);
        law_merge_adds_weights(b, a, key);
    }
    lemma_same_weights_same_entries(merged(a, b), merged(b, a));
    law_order_independence(merged(a, b), merged(b, a), language, table, of);
}

} // verus!
