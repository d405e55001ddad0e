//! Laws of counting and merging.
//!
//! Counting gives every window the number of its occurrences. Merging two
//! tables adds their weights key by key; it is associative as an operation on
//! tables, commutative as far as the weights go, and has the empty table as
//! its identity. So the counts of a corpus can be merged by any fan-in tree
//! that keeps the chunks in their order.

use crate::ngrams::{count_windows, lemma_merge_first, merge_first, merged, window_at};
use crate::table::{
    keys_distinct, lemma_position, lemma_put_weight, table_add, table_contains, table_position,
    table_put, table_weight,
};
use vstd::prelude::*;

verus! {

/// How many of the first `n` windows of `s` are equal to `window`.
pub open spec fn occurrences(s: Seq<char>, width: nat, window: Seq<char>, n: nat) -> nat
    decreases n,
{
    if n == 0 {
        0
    } else if window_at(s, width, n - 1) == window {
        occurrences(s, width, window, (n - 1) as nat) + 1
    } else {
        occurrences(s, width, window, (n - 1) as nat)
    }
}

/// What a table holds under any key after a weight was added.
pub proof fn lemma_add_weight(
    t: Seq<(Seq<char>, nat)>,
    key: Seq<char>,
    weight: nat,
    other: Seq<char>,
)
    ensures
        table_contains(table_add(t, key, weight), other) == (other == key || table_contains(
            t,
            other,
        )),
        table_weight(table_add(t, key, weight), other) == table_weight(t, other) + (if other
            == key {
            weight
        } else {
            0
        }),
{
    lemma_put_weight(t, key, table_weight(t, key) + weight, other);
}

/// Counting adds to every window the number of its occurrences.
pub proof fn law_counts_are_occurrences(
    t: Seq<(Seq<char>, nat)>,
    s: Seq<char>,
    width: nat,
    window: Seq<char>,
    n: nat,
)
    ensures
        table_weight(count_windows(t, s, width, n), window) == table_weight(t, window)
            + occurrences(s, width, window, n),
    decreases n,
{
    if n > 0 {
        law_counts_are_occurrences(t, s, width, window, (n - 1) as nat);
        lemma_add_weight(
            count_windows(t, s, width, (n - 1) as nat),
            window_at(s, width, n - 1),
            1,
            window,
        );
    }
}

/// Merging depends on no more entries of the second table than it takes.
pub proof fn lemma_merge_first_prefix(
    a: Seq<(Seq<char>, nat)>,
    b: Seq<(Seq<char>, nat)>,
    c: Seq<(Seq<char>, nat)>,
    n: nat,
)
    requires
        n <= b.len(),
        n <= c.len(),
        forall|i: int| 0 <= i < n ==> b[i] == c[i],
    ensures
        merge_first(a, b, n) == merge_first(a, c, n),
    decreases n,
{
    if n > 0 {
        lemma_merge_first_prefix(a, b, c, (n - 1) as nat);
    }
}

/// After merging, the first table holds under every key what it held and
/// what the merged entries of the second hold.
pub proof fn lemma_merge_first_weight(
    a: Seq<(Seq<char>, nat)>,
    b: Seq<(Seq<char>, nat)>,
    n: nat,
    key: Seq<char>,
)
    requires
        keys_distinct(b),
        n <= b.len(),
    ensures
        table_weight(merge_first(a, b, n), key) == table_weight(a, key) + table_weight(
            b.take(n as int),
            key,
        ),
        table_contains(merge_first(a, b, n), key) == (table_contains(a, key) || table_contains(
            b.take(n as int),
            key,
        )),
    decreases n,
{
    if n == 0 {
        assert(b.take(0).len() == 0);
    } else {
        let before = merge_first(a, b, (n - 1) as nat);
        let e = b[n - 1];
        let shorter = b.take(n - 1);
        lemma_merge_first_weight(a, b, (n - 1) as nat, key);
        lemma_add_weight(before, e.0, e.1, key);
        lemma_position(shorter, e.0);
        if table_contains(shorter, e.0) {
            assert(shorter[table_position(shorter, e.0)] == b[table_position(shorter, e.0)]);
        }
        assert(b.take(n as int) == table_put(shorter, e.0, e.1));
        lemma_put_weight(shorter, e.0, e.1, key);
    }
}

/// Merging adds the weights key by key.
pub proof fn law_merge_adds_weights(
    a: Seq<(Seq<char>, nat)>,
    b: Seq<(Seq<char>, nat)>,
    key: Seq<char>,
)
    requires
        keys_distinct(b),
    ensures
        table_weight(merged(a, b), key) == table_weight(a, key) + table_weight(b, key),
        table_contains(merged(a, b), key) == (table_contains(a, key) || table_contains(b, key)),
{
    lemma_merge_first_weight(a, b, b.len(), key);
    assert(b.take(b.len() as int) == b);
}

/// As far as the weights go, merging is commutative.
pub proof fn law_merge_commutative(
    a: Seq<(Seq<char>, nat)>,
    b: Seq<(Seq<char>, nat)>,
    key: Seq<char>,
)
    requires
        keys_distinct(a),
        keys_distinct(b),
    ensures
        table_weight(merged(a, b), key) == table_weight(merged(b, a), key),
        table_contains(merged(a, b), key) == table_contains(merged(b, a), key),
{
    law_merge_adds_weights(a, b, key);
    law_merge_adds_weights(b, a, key);
}

/// The empty table is the identity of merging.
pub proof fn law_merge_identity(a: Seq<(Seq<char>, nat)>)
    requires
        keys_distinct(a),
    ensures
        merged(a, Seq::empty()) == a,
        merged(Seq::empty(), a) == a,
{
    lemma_merge_from_empty(a, a.len());
    assert(a.take(a.len() as int) == a);
}

/// Merging the first entries of a table into the empty table gives those
/// entries.
pub proof fn lemma_merge_from_empty(a: Seq<(Seq<char>, nat)>, n: nat)
    requires
        keys_distinct(a),
        n <= a.len(),
    ensures
        merge_first(Seq::empty(), a, n) == a.take(n as int),
    decreases n,
{
    if n == 0 {
        assert(a.take(0) == Seq::<(Seq<char>, nat)>::empty());
    } else {
        let shorter = a.take(n - 1);
        let e = a[n - 1];
        lemma_merge_from_empty(a, (n - 1) as nat);
        lemma_position(shorter, e.0);
        if table_contains(shorter, e.0) {
            assert(shorter[table_position(shorter, e.0)] == a[table_position(shorter, e.0)]);
        }
        assert(table_add(shorter, e.0, e.1) == shorter.push(e));
        assert(a.take(n as int) == shorter.push(e));
    }
}

/// Adding twice under one key is adding the sum.
pub proof fn lemma_add_twice(t: Seq<(Seq<char>, nat)>, key: Seq<char>, x: nat, y: nat)
    ensures
        table_add(table_add(t, key, x), key, y) == table_add(t, key, x + y),
{
    let once = table_add(t, key, x);
    lemma_position(t, key);
    lemma_position(once, key);
    lemma_add_weight(t, key, x, key);
    let p = table_position(t, key);
    if table_contains(t, key) {
        lemma_put_weight(t, key, table_weight(t, key) + x, key);
    } else {
        assert(once[t.len() as int].0 == key);
        assert(forall|i: int| 0 <= i < t.len() ==> #[trigger] once[i] == t[i]);
    }
    assert(table_position(once, key) == p);
    assert(table_add(once, key, y) =~= table_add(t, key, x + y));
}

/// Additions under two keys can change places where the table has one of
/// the keys.
pub proof fn lemma_add_commutes(
    t: Seq<(Seq<char>, nat)>,
    k1: Seq<char>,
    w1: nat,
    k2: Seq<char>,
    w2: nat,
)
    requires
        k1 != k2,
        table_contains(t, k1) || table_contains(t, k2),
    ensures
        table_add(table_add(t, k1, w1), k2, w2) == table_add(table_add(t, k2, w2), k1, w1),
{
    let a1 = table_add(t, k1, w1);
    let a2 = table_add(t, k2, w2);
    lemma_position(t, k1);
    lemma_position(t, k2);
    lemma_position(a1, k2);
    lemma_position(a2, k1);
    lemma_add_weight(t, k1, w1, k2);
    lemma_add_weight(t, k2, w2, k1);
    lemma_put_weight(t, k1, table_weight(t, k1) + w1, k2);
    lemma_put_weight(t, k2, table_weight(t, k2) + w2, k1);
    if !table_contains(t, k2) {
        assert(forall|i: int| 0 <= i < t.len() ==> #[trigger] a2[i] == t[i]);
        assert(forall|i: int| 0 <= i < a1.len() ==> (#[trigger] a1[i]).0 == t[i].0);
    }
    if !table_contains(t, k1) {
        assert(forall|i: int| 0 <= i < t.len() ==> #[trigger] a1[i] == t[i]);
        assert(forall|i: int| 0 <= i < a2.len() ==> (#[trigger] a2[i]).0 == t[i].0);
    }
    assert(table_add(a1, k2, w2) =~= table_add(a2, k1, w1));
}

/// Merging a table to which a weight was added is adding that weight after
/// merging.
pub proof fn lemma_merge_of_added(
    a: Seq<(Seq<char>, nat)>,
    m: Seq<(Seq<char>, nat)>,
    key: Seq<char>,
    weight: nat,
)
    requires
        keys_distinct(m),
    ensures
        merged(a, table_add(m, key, weight)) == table_add(merged(a, m), key, weight),
{
    let added = table_add(m, key, weight);
    lemma_position(m, key);
    if !table_contains(m, key) {
        lemma_merge_first_prefix(a, m, added, m.len());
    } else {
        let p = table_position(m, key);
        lemma_merge_first_prefix(a, m, added, p as nat);
        lemma_add_twice(merge_first(a, m, p as nat), key, m[p].1, weight);
        lemma_merge_of_added_from(a, m, key, weight, m.len());
    }
}

/// The step of `lemma_merge_of_added` for a key that the table has: from its
/// entry on, the merged tables differ by the added weight.
pub proof fn lemma_merge_of_added_from(
    a: Seq<(Seq<char>, nat)>,
    m: Seq<(Seq<char>, nat)>,
    key: Seq<char>,
    weight: nat,
    n: nat,
)
    requires
        keys_distinct(m),
        table_contains(m, key),
        table_position(m, key) < n <= m.len(),
    ensures
        merge_first(a, table_add(m, key, weight), n) == table_add(
            merge_first(a, m, n),
            key,
            weight,
        ),
    decreases n,
{
    let added = table_add(m, key, weight);
    let p = table_position(m, key);
    lemma_position(m, key);
    if n == p + 1 {
        lemma_merge_first_prefix(a, m, added, p as nat);
        lemma_add_twice(merge_first(a, m, p as nat), key, m[p].1, weight);
    } else {
        lemma_merge_of_added_from(a, m, key, weight, (n - 1) as nat);
        let e = m[n - 1];
        assert(added[n - 1] == e);
        let before = merge_first(a, m, (n - 1) as nat);
        lemma_merge_first_weight(a, m, (n - 1) as nat, key);
        let shorter = m.take(n - 1);
        lemma_position(shorter, key);
        assert(shorter[p].0 == key);
        assert(table_contains(shorter, key)) by {
            if table_position(shorter, key) >= shorter.len() {
                assert(shorter[p].0 != key);
            }
        }
        lemma_add_commutes(before, key, weight, e.0, e.1);
    }
}

/// Merging is associative: whichever two of three tables are merged first,
/// the same table comes out, entry for entry.
pub proof fn law_merge_associative(
    a: Seq<(Seq<char>, nat)>,
    b: Seq<(Seq<char>, nat)>,
    c: Seq<(Seq<char>, nat)>,
)
    requires
        keys_distinct(b),
    ensures
        merged(merged(a, b), c) == merged(a, merged(b, c)),
{
    lemma_merge_associative_first(a, b, c, c.len());
}

/// The step of `law_merge_associative`.
pub proof fn lemma_merge_associative_first(
    a: Seq<(Seq<char>, nat)>,
    b: Seq<(Seq<char>, nat)>,
    c: Seq<(Seq<char>, nat)>,
    n: nat,
)
    requires
        keys_distinct(b),
        n <= c.len(),
    ensures
        merge_first(merged(a, b), c, n) == merged(a, merge_first(b, c, n)),
    decreases n,
{
    if n > 0 {
        lemma_merge_associative_first(a, b, c, (n - 1) as nat);
        lemma_merge_first(b, c, (n - 1) as nat);
        lemma_merge_of_added(a, merge_first(b, c, (n - 1) as nat), c[n - 1].0, c[n - 1].1);
    }
}

} // verus!
