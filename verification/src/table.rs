//! The mathematical model of a weight table: a sequence of `(key, weight)`
//! entries in insertion order, in which no key occurs twice.

use crate::text::SPACE;
use vstd::prelude::*;
use vstd::seq_lib::*;

verus! {

// ---------------------------------------------------------------------------
// The model
// ---------------------------------------------------------------------------

/// The index of the first entry of `t` under `key`, or `t.len()` if there is none.
pub open spec fn table_position(t: Seq<(Seq<char>, nat)>, key: Seq<char>) -> int
    decreases t.len(),
{
    if t.len() == 0 {
        0
    } else if t[0].0 == key {
        0
    } else {
        1 + table_position(t.drop_first(), key)
    }
}

/// Whether `t` has an entry under `key`.
pub open spec fn table_contains(t: Seq<(Seq<char>, nat)>, key: Seq<char>) -> bool {
    table_position(t, key) < t.len()
}

/// The weight that `t` holds under `key`; zero where it holds none.
pub open spec fn table_weight(t: Seq<(Seq<char>, nat)>, key: Seq<char>) -> nat {
    if table_contains(t, key) {
        t[table_position(t, key)].1
    } else {
        0
    }
}

/// `t` with the weight under `key` set to `weight`: an entry that exists keeps
/// its place, a new one goes to the end.
pub open spec fn table_put(t: Seq<(Seq<char>, nat)>, key: Seq<char>, weight: nat) -> Seq<
    (Seq<char>, nat),
> {
    if table_contains(t, key) {
        t.update(table_position(t, key), (key, weight))
    } else {
        t.push((key, weight))
    }
}

/// `t` with `weight` added to what it holds under `key`.
pub open spec fn table_add(t: Seq<(Seq<char>, nat)>, key: Seq<char>, weight: nat) -> Seq<
    (Seq<char>, nat),
> {
    table_put(t, key, table_weight(t, key) + weight)
}

/// The sum of all weights of `t`.
pub open spec fn table_total(t: Seq<(Seq<char>, nat)>) -> nat
    decreases t.len(),
{
    if t.len() == 0 {
        0
    } else {
        table_total(t.drop_last()) + t.last().1
    }
}

/// No key occurs twice in `t`.
pub open spec fn keys_distinct(t: Seq<(Seq<char>, nat)>) -> bool {
    forall|i: int, j: int| 0 <= i < j < t.len() ==> t[i].0 != t[j].0
}

/// No character of `key` is a space.
pub open spec fn spaceless(key: Seq<char>) -> bool {
    forall|j: int| 0 <= j < key.len() ==> key[j] != SPACE
}

/// No key of `t` holds a space.
pub open spec fn symbols_only(t: Seq<(Seq<char>, nat)>) -> bool {
    forall|i: int| 0 <= i < t.len() ==> spaceless(#[trigger] t[i].0)
}

/// The order in which a table is published: heavier entries first, and among
/// equally heavy ones the entry that stood first in `origin`.
pub open spec fn precedes(origin: Seq<(Seq<char>, nat)>, a: (Seq<char>, nat), b: (Seq<char>, nat)) -> bool {
    a.1 > b.1 || (a.1 == b.1 && table_position(origin, a.0) < table_position(origin, b.0))
}

/// Every entry of `t` precedes all that follow it.
pub open spec fn ordered_by(origin: Seq<(Seq<char>, nat)>, t: Seq<(Seq<char>, nat)>) -> bool {
    forall|i: int, j: int| 0 <= i < j < t.len() ==> precedes(origin, t[i], t[j])
}

/// `sorted` holds the entries of `origin`, by descending weight, entries of
/// equal weight in the order they had in `origin`.
pub open spec fn is_stable_descending(
    origin: Seq<(Seq<char>, nat)>,
    sorted: Seq<(Seq<char>, nat)>,
) -> bool {
    &&& sorted.to_multiset() == origin.to_multiset()
    &&& ordered_by(origin, sorted)
}

// ---------------------------------------------------------------------------
// Facts about the model
// ---------------------------------------------------------------------------

/// `table_position` is the least index under `key`, and `t.len()` exactly when
/// no entry has that key.
pub proof fn lemma_position(t: Seq<(Seq<char>, nat)>, key: Seq<char>)
    ensures
        0 <= table_position(t, key) <= t.len(),
        table_contains(t, key) ==> t[table_position(t, key)].0 == key,
        forall|i: int| 0 <= i < table_position(t, key) ==> (#[trigger] t[i]).0 != key,
    decreases t.len(),
{
    if t.len() > 0 && t[0].0 != key {
        let rest = t.drop_first();
        lemma_position(rest, key);
        assert forall|i: int| 0 <= i < table_position(t, key) implies (#[trigger] t[i]).0
            != key by {
            if i > 0 {
                assert(t[i] == rest[i - 1]);
            }
        }
    }
}

/// In a table of distinct keys, each entry is the one found under its key.
pub proof fn lemma_position_of_entry(t: Seq<(Seq<char>, nat)>, i: int)
    requires
        keys_distinct(t),
        0 <= i < t.len(),
    ensures
        table_position(t, t[i].0) == i,
        table_weight(t, t[i].0) == t[i].1,
{
    lemma_position(t, t[i].0);
    let p = table_position(t, t[i].0);
    if p > i {
        assert(t[i].0 != t[i].0);
    }
}

/// Setting a weight keeps the keys distinct.
pub proof fn lemma_put_keeps_distinct(t: Seq<(Seq<char>, nat)>, key: Seq<char>, weight: nat)
    requires
        keys_distinct(t),
    ensures
        keys_distinct(table_put(t, key, weight)),
{
    lemma_position(t, key);
    let u = table_put(t, key, weight);
    assert forall|i: int, j: int| 0 <= i < j < u.len() implies u[i].0 != u[j].0 by {
        if table_contains(t, key) {
            assert(u[i].0 == t[i].0);
            assert(u[j].0 == t[j].0);
        } else if j == t.len() {
            assert(u[i] == t[i]);
        }
    }
}

/// What a table holds under any key after a weight was set.
pub proof fn lemma_put_weight(
    t: Seq<(Seq<char>, nat)>,
    key: Seq<char>,
    weight: nat,
    other: Seq<char>,
)
    ensures
        table_contains(table_put(t, key, weight), other) == (other == key || table_contains(
            t,
            other,
        )),
        table_weight(table_put(t, key, weight), other) == (if other == key {
            weight
        } else {
            table_weight(t, other)
        }),
        table_contains(t, other) ==> table_position(table_put(t, key, weight), other)
            == table_position(t, other),
{
    let u = table_put(t, key, weight);
    lemma_position(t, key);
    lemma_position(t, other);
    lemma_position(u, other);
    let p = table_position(t, other);
    let q = table_position(u, other);
    if table_contains(t, key) {
        let k = table_position(t, key);
        assert(forall|i: int| 0 <= i < t.len() ==> (#[trigger] u[i]).0 == t[i].0);
        if p < t.len() {
            assert(u[p].0 == other);
            if q < p {
                assert(t[q].0 != other);
            }
            if p < q {
                assert(u[p].0 != other);
            }
        } else if q < u.len() {
            assert(t[q].0 != other);
        }
    } else {
        assert(forall|i: int| 0 <= i < t.len() ==> #[trigger] u[i] == t[i]);
        if p < t.len() {
            assert(u[p].0 == other);
            if q < p {
                assert(t[q].0 != other);
            }
            if p < q {
                assert(u[p].0 != other);
            }
        } else if q < t.len() {
            assert(t[q].0 != other);
        } else if other == key {
            assert(u[t.len() as int].0 == other);
        }
    }
}

/// The total after one entry was replaced.
pub proof fn lemma_total_update(t: Seq<(Seq<char>, nat)>, i: int, entry: (Seq<char>, nat))
    requires
        0 <= i < t.len(),
    ensures
        table_total(t.update(i, entry)) + t[i].1 == table_total(t) + entry.1,
        t[i].1 <= table_total(t),
    decreases t.len(),
{
    let u = t.update(i, entry);
    if i == t.len() - 1 {
        assert(u.drop_last() == t.drop_last());
    } else {
        lemma_total_update(t.drop_last(), i, entry);
        assert(u.drop_last() == t.drop_last().update(i, entry));
    }
}

/// No weight under a key exceeds the total.
pub proof fn lemma_weight_below_total(t: Seq<(Seq<char>, nat)>, key: Seq<char>)
    ensures
        table_weight(t, key) <= table_total(t),
{
    lemma_position(t, key);
    if table_contains(t, key) {
        lemma_total_update(t, table_position(t, key), (key, 0nat));
    }
}

/// Adding a weight raises the total by that weight.
pub proof fn lemma_add_total(t: Seq<(Seq<char>, nat)>, key: Seq<char>, weight: nat)
    ensures
        table_total(table_add(t, key, weight)) == table_total(t) + weight,
{
    lemma_position(t, key);
    let sum = table_weight(t, key) + weight;
    if table_contains(t, key) {
        lemma_total_update(t, table_position(t, key), (key, sum));
    } else {
        assert(t.push((key, sum)).drop_last() == t);
    }
}

/// The total after one entry was taken out.
pub proof fn lemma_total_remove(t: Seq<(Seq<char>, nat)>, i: int)
    requires
        0 <= i < t.len(),
    ensures
        table_total(t.remove(i)) + t[i].1 == table_total(t),
    decreases t.len(),
{
    if i == t.len() - 1 {
        assert(t.remove(i) == t.drop_last());
    } else {
        lemma_total_remove(t.drop_last(), i);
        assert(t.remove(i).drop_last() == t.drop_last().remove(i));
        assert(t.remove(i).last() == t.last());
    }
}

/// Two tables with the same entries, in whatever order, have the same total.
pub proof fn lemma_permutation_total(a: Seq<(Seq<char>, nat)>, b: Seq<(Seq<char>, nat)>)
    requires
        a.to_multiset() == b.to_multiset(),
    ensures
        table_total(a) == table_total(b),
    decreases a.len(),
{
    to_multiset_len(a);
    to_multiset_len(b);
    if a.len() > 0 {
        let x = a.last();
        assert(a[a.len() - 1] == x);
        to_multiset_contains(a, x);
        to_multiset_contains(b, x);
        let j = choose|j: int| 0 <= j < b.len() && b[j] == x;
        to_multiset_remove(a, a.len() - 1);
        to_multiset_remove(b, j);
        assert(a.remove(a.len() - 1) == a.drop_last());
        lemma_permutation_total(a.drop_last(), b.remove(j));
        lemma_total_remove(b, j);
    }
}

/// Reordering the entries of a table keeps its keys distinct, and keeps what
/// it holds under every key.
pub proof fn lemma_permutation_keys(a: Seq<(Seq<char>, nat)>, b: Seq<(Seq<char>, nat)>)
    requires
        keys_distinct(a),
        a.to_multiset() == b.to_multiset(),
    ensures
        keys_distinct(b),
        forall|key: Seq<char>| table_contains(b, key) == table_contains(a, key),
        forall|key: Seq<char>| table_weight(b, key) == table_weight(a, key),
{
    assert(a.no_duplicates());
    a.lemma_multiset_has_no_duplicates();
    b.lemma_multiset_has_no_duplicates_conv();
    assert forall|i: int, j: int| 0 <= i < j < b.len() implies b[i].0 != b[j].0 by {
        if b[i].0 == b[j].0 {
            to_multiset_contains(b, b[i]);
            to_multiset_contains(a, b[i]);
            to_multiset_contains(b, b[j]);
            to_multiset_contains(a, b[j]);
            let p = choose|p: int| 0 <= p < a.len() && a[p] == b[i];
            let q = choose|q: int| 0 <= q < a.len() && a[q] == b[j];
            assert(p == q);
        }
    }
    assert forall|key: Seq<char>|
        table_contains(b, key) == table_contains(a, key) && table_weight(b, key) == table_weight(
            a,
            key,
        ) by {
        lemma_position(a, key);
        lemma_position(b, key);
        if table_contains(a, key) {
            let e = a[table_position(a, key)];
            to_multiset_contains(a, e);
            to_multiset_contains(b, e);
            let q = choose|q: int| 0 <= q < b.len() && b[q] == e;
            lemma_position_of_entry(b, q);
        } else if table_contains(b, key) {
            let e = b[table_position(b, key)];
            to_multiset_contains(a, e);
            to_multiset_contains(b, e);
            let p = choose|p: int| 0 <= p < a.len() && a[p] == e;
            assert(a[p].0 == key);
        }
    }
}

/// Two arrangements of the same entries in which every entry precedes all
/// that follow it are the same arrangement.
pub proof fn lemma_ordered_unique(
    origin: Seq<(Seq<char>, nat)>,
    a: Seq<(Seq<char>, nat)>,
    b: Seq<(Seq<char>, nat)>,
)
    requires
        a.to_multiset() == b.to_multiset(),
        ordered_by(origin, a),
        ordered_by(origin, b),
    ensures
        a == b,
    decreases a.len(),
{
    to_multiset_len(a);
    to_multiset_len(b);
    if a.len() > 0 {
        to_multiset_contains(a, b[0]);
        to_multiset_contains(b, b[0]);
        to_multiset_contains(a, a[0]);
        to_multiset_contains(b, a[0]);
        let i = choose|i: int| 0 <= i < a.len() && a[i] == b[0];
        let j = choose|j: int| 0 <= j < b.len() && b[j] == a[0];
        if i > 0 && j > 0 {
            assert(precedes(origin, a[0], a[i]));
            assert(precedes(origin, b[0], b[j]));
        }
        assert(a[0] == b[0]);
        to_multiset_remove(a, 0);
        to_multiset_remove(b, 0);
        let ra = a.remove(0);
        let rb = b.remove(0);
        assert forall|x: int, y: int| 0 <= x < y < ra.len() implies precedes(
            origin,
            ra[x],
            ra[y],
        ) by {
            assert(ra[x] == a[x + 1] && ra[y] == a[y + 1]);
        }
        assert forall|x: int, y: int| 0 <= x < y < rb.len() implies precedes(
            origin,
            rb[x],
            rb[y],
        ) by {
            assert(rb[x] == b[x + 1] && rb[y] == b[y + 1]);
        }
        lemma_ordered_unique(origin, ra, rb);
        assert forall|x: int| 0 <= x < a.len() implies a[x] == b[x] by {
            if x > 0 {
                assert(ra[x - 1] == a[x] && rb[x - 1] == b[x]);
            }
        }
    }
    assert(a =~= b);
}

/// The entries of `origin` by descending weight, entries of equal weight in
/// the order they had.
pub open spec fn stable_descending(origin: Seq<(Seq<char>, nat)>) -> Seq<(Seq<char>, nat)> {
    choose|sorted: Seq<(Seq<char>, nat)>| is_stable_descending(origin, sorted)
}

/// There is only one stable descending arrangement of a table.
pub proof fn lemma_stable_descending(origin: Seq<(Seq<char>, nat)>, sorted: Seq<(Seq<char>, nat)>)
    requires
        is_stable_descending(origin, sorted),
    ensures
        sorted == stable_descending(origin),
{
    lemma_ordered_unique(origin, sorted, stable_descending(origin));
}

/// Setting a weight under a key without spaces keeps a table free of spaces.
pub proof fn lemma_put_keeps_symbols(t: Seq<(Seq<char>, nat)>, key: Seq<char>, weight: nat)
    requires
        symbols_only(t),
        spaceless(key),
    ensures
        symbols_only(table_put(t, key, weight)),
{
    lemma_position(t, key);
    let u = table_put(t, key, weight);
    assert forall|i: int| 0 <= i < u.len() implies spaceless(#[trigger] u[i].0) by {
        if i < t.len() {
            assert(u[i].0 == t[i].0);
        }
    }
}

/// Reordering the entries of a table keeps it free of spaces.
pub proof fn lemma_permutation_symbols(a: Seq<(Seq<char>, nat)>, b: Seq<(Seq<char>, nat)>)
    requires
        symbols_only(a),
        a.to_multiset() == b.to_multiset(),
    ensures
        symbols_only(b),
{
    assert forall|i: int| 0 <= i < b.len() implies spaceless(#[trigger] b[i].0) by {
        to_multiset_contains(a, b[i]);
        to_multiset_contains(b, b[i]);
        let p = choose|p: int| 0 <= p < a.len() && a[p] == b[i];
        assert(spaceless(a[p].0));
    }
}

/// The place at which an entry is put into an arrangement: before the first
/// entry that it precedes.
pub open spec fn place_of(
    origin: Seq<(Seq<char>, nat)>,
    t: Seq<(Seq<char>, nat)>,
    entry: (Seq<char>, nat),
) -> int
    decreases t.len(),
{
    if t.len() == 0 || precedes(origin, entry, t[0]) {
        0
    } else {
        1 + place_of(origin, t.drop_first(), entry)
    }
}

/// The first `n` entries of `origin`, arranged one after the other, each at
/// its place.
pub open spec fn arranged(origin: Seq<(Seq<char>, nat)>, n: nat) -> Seq<(Seq<char>, nat)>
    decreases n,
{
    if n == 0 {
        Seq::empty()
    } else {
        let before = arranged(origin, (n - 1) as nat);
        before.insert(place_of(origin, before, origin[n - 1]), origin[n - 1])
    }
}

/// The place of an entry is behind all that it does not precede and before
/// one that it precedes.
pub proof fn lemma_place_of(
    origin: Seq<(Seq<char>, nat)>,
    t: Seq<(Seq<char>, nat)>,
    entry: (Seq<char>, nat),
)
    ensures
        0 <= place_of(origin, t, entry) <= t.len(),
        forall|i: int| 0 <= i < place_of(origin, t, entry) ==> !precedes(origin, entry, t[i]),
        place_of(origin, t, entry) < t.len() ==> precedes(
            origin,
            entry,
            t[place_of(origin, t, entry)],
        ),
    decreases t.len(),
{
    if t.len() > 0 && !precedes(origin, entry, t[0]) {
        let rest = t.drop_first();
        lemma_place_of(origin, rest, entry);
        assert forall|i: int| 0 <= i < place_of(origin, t, entry) implies !precedes(
            origin,
            entry,
            t[i],
        ) by {
            if i > 0 {
                assert(t[i] == rest[i - 1]);
            }
        }
    }
}

/// The first entries of a table of distinct keys can be arranged so that every
/// entry precedes all that follow it.
pub proof fn lemma_arranged(origin: Seq<(Seq<char>, nat)>, n: nat)
    requires
        keys_distinct(origin),
        n <= origin.len(),
    ensures
        arranged(origin, n).to_multiset() == origin.take(n as int).to_multiset(),
        ordered_by(origin, arranged(origin, n)),
    decreases n,
{
    if n == 0 {
        assert(origin.take(0) == Seq::<(Seq<char>, nat)>::empty());
    } else {
        let before = arranged(origin, (n - 1) as nat);
        let entry = origin[n - 1];
        let place = place_of(origin, before, entry);
        let after = before.insert(place, entry);
        lemma_arranged(origin, (n - 1) as nat);
        lemma_place_of(origin, before, entry);
        to_multiset_insert(before, place, entry);
        assert(origin.take(n as int) == origin.take(n - 1).push(entry));
        to_multiset_build(origin.take(n - 1), entry);
        lemma_position_of_entry(origin, n - 1);
        assert forall|i: int, j: int| 0 <= i < j < after.len() implies precedes(
            origin,
            after[i],
            after[j],
        ) by {
            if j == place {
                // `after[i]` stood before the place, so the entry does not
                // precede it; being another entry of `origin`, it precedes
                // the entry.
                let e = before[i];
                assert(after[i] == e);
                let shorter = origin.take(n - 1);
                to_multiset_contains(before, e);
                to_multiset_contains(shorter, e);
                let p = choose|p: int| 0 <= p < shorter.len() && shorter[p] == e;
                assert(origin[p] == e);
                lemma_position_of_entry(origin, p);
            } else if i == place {
                assert(after[j] == before[j - 1]);
                if j - 1 > place {
                    assert(precedes(origin, before[place], before[j - 1]));
                }
            } else {
                let x = if i < place {
                    i
                } else {
                    i - 1
                };
                let y = if j < place {
                    j
                } else {
                    j - 1
                };
                assert(after[i] == before[x]);
                assert(after[j] == before[y]);
            }
        }
    }
}

/// Every table of distinct keys has its stable descending arrangement.
pub proof fn lemma_stable_descending_exists(origin: Seq<(Seq<char>, nat)>)
    requires
        keys_distinct(origin),
    ensures
        is_stable_descending(origin, stable_descending(origin)),
{
    lemma_arranged(origin, origin.len());
    assert(origin.take(origin.len() as int) == origin);
    assert(is_stable_descending(origin, arranged(origin, origin.len())));
}

} // verus!
