//! The executable weight table.
//!
//! Its entries live in an `IndexMap` that hashes with Fx and keeps its keys as
//! `SmartString`s, so that a key of a few characters needs no allocation of
//! its own. Everything Verus knows of that map is stated by the trusted
//! declarations in this file; the table's own operations are proved from
//! them.

use crate::table::{
    is_stable_descending, keys_distinct, lemma_add_total, lemma_permutation_keys,
    lemma_permutation_total, lemma_put_keeps_distinct, lemma_stable_descending,
    lemma_total_update, lemma_weight_below_total, stable_descending, table_add, table_contains,
    table_put, table_total, table_weight,
};
use fxhash::FxHasher;
use indexmap::IndexMap;
use smartstring::{LazyCompact, SmartString};
use std::cmp::Ordering;
use std::hash::BuildHasherDefault;
use vstd::prelude::*;

verus! {

/// How two weights compare when the heavier one is to come first.
pub fn heavier_first(a: u64, b: u64) -> (o: Ordering)
    ensures
        o == (if a > b {
            Ordering::Less
        } else if a == b {
            Ordering::Equal
        } else {
            Ordering::Greater
        }),
{
    if a > b {
        Ordering::Less
    } else if a == b {
        Ordering::Equal
    } else {
        Ordering::Greater
    }
}

// ---------------------------------------------------------------------------
// What is taken on trust of `indexmap`, `fxhash` and `smartstring`
// ---------------------------------------------------------------------------

/// An `IndexMap` from `SmartString` keys to weights that hashes with Fx.
/// Verus sees nothing inside it: what it holds is `map_entries`, and what its
/// methods do is stated by the functions below.
#[verifier::external_body]
#[derive(Debug)]
pub struct WeightMap {
    map: IndexMap<SmartString<LazyCompact>, u64, BuildHasherDefault<FxHasher>>,
}

/// The entries that a map holds, in the order in which it holds them.
pub uninterp spec fn map_entries(m: WeightMap) -> Seq<(Seq<char>, nat)>;

/// `IndexMap::with_hasher`, given the default Fx hasher: the new map holds
/// nothing.
#[verifier::external_body]
fn map_new() -> (m: WeightMap)
    ensures
        map_entries(m) == Seq::<(Seq<char>, nat)>::empty(),
{
    WeightMap { map: IndexMap::with_hasher(BuildHasherDefault::default()) }
}

/// `IndexMap::len`: the number of entries.
#[verifier::external_body]
fn map_len(m: &WeightMap) -> (n: usize)
    ensures
        n == map_entries(*m).len(),
{
    m.map.len()
}

/// `IndexMap::get`: the value stored under `key`, if the map has that key.
#[verifier::external_body]
fn map_get(m: &WeightMap, key: &str) -> (r: Option<u64>)
    ensures
        r is Some <==> table_contains(map_entries(*m), key@),
        r is Some ==> r->Some_0 == table_weight(map_entries(*m), key@),
{
    m.map.get(key).copied()
}

/// `IndexMap::insert`, with the key made by `SmartString::from`: a key that
/// the map has keeps its place and gets the new value; a key that it lacks is
/// put last.
#[verifier::external_body]
fn map_insert(m: &mut WeightMap, key: &str, value: u64)
    ensures
        map_entries(*final(m)) == table_put(map_entries(*old(m)), key@, value as nat),
{
    m.map.insert(SmartString::from(key), value);
}

/// `IndexMap::get_index`: the entry at position `index`, if there is one.
#[verifier::external_body]
fn map_get_index(m: &WeightMap, index: usize) -> (r: Option<(String, u64)>)
    ensures
        r is Some <==> index < map_entries(*m).len(),
        r is Some ==> r->Some_0.0@ == map_entries(*m)[index as int].0,
        r is Some ==> r->Some_0.1 == map_entries(*m)[index as int].1,
{
    m.map.get_index(index).map(|(key, value)| (String::from(key.as_str()), *value))
}

/// `IndexMap::sort_by`, comparing values with `heavier_first`: a stable sort,
/// so the entries come out by descending value and equal values keep the
/// order they had.
#[verifier::external_body]
fn map_sort_heaviest_first(m: &mut WeightMap)
    ensures
        is_stable_descending(map_entries(*old(m)), map_entries(*final(m))),
{
    m.map.sort_by(|_, a, _, b| heavier_first(*a, *b));
}

// ---------------------------------------------------------------------------
// The table
// ---------------------------------------------------------------------------

/// An insertion-ordered table of weights, with the sum of its weights.
#[derive(Debug)]
pub struct CountTable {
    map: WeightMap,
    total: u64,
}

impl View for CountTable {
    type V = Seq<(Seq<char>, nat)>;

    closed spec fn view(&self) -> Seq<(Seq<char>, nat)> {
        map_entries(self.map)
    }
}

impl CountTable {
    /// The table's invariant: the recorded total is the sum of the weights,
    /// and no key occurs twice.
    pub closed spec fn wf(&self) -> bool {
        &&& keys_distinct(map_entries(self.map))
        &&& table_total(map_entries(self.map)) == self.total
    }

    /// What the invariant says of the view.
    pub proof fn lemma_wf(&self)
        requires
            self.wf(),
        ensures
            keys_distinct(self@),
            table_total(self@) <= u64::MAX,
            forall|i: int| 0 <= i < self@.len() ==> (#[trigger] self@[i]).1 <= table_total(self@),
    {
        assert forall|i: int| 0 <= i < self@.len() implies (#[trigger] self@[i]).1 <= table_total(
            self@,
        ) by {
            lemma_total_update(self@, i, self@[i]);
        }
    }

    /// The empty table.
    pub fn new() -> (t: CountTable)
        ensures
            t.wf(),
            t@ == Seq::<(Seq<char>, nat)>::empty(),
    {
        CountTable { map: map_new(), total: 0 }
    }

    /// The number of entries.
    pub fn len(&self) -> (n: usize)
        ensures
            n == self@.len(),
    {
        map_len(&self.map)
    }

    /// The sum of all weights.
    pub fn total(&self) -> (n: u64)
        requires
            self.wf(),
        ensures
            n == table_total(self@),
    {
        self.total
    }

    /// The weight under `key`, if the table has that key.
    pub fn get(&self, key: &str) -> (r: Option<u64>)
        ensures
            r is Some <==> table_contains(self@, key@),
            r is Some ==> r->Some_0 == table_weight(self@, key@),
    {
        map_get(&self.map, key)
    }

    /// The entry at position `index`.
    pub fn entry(&self, index: usize) -> (r: Option<(String, u64)>)
        ensures
            r is Some <==> index < self@.len(),
            r is Some ==> r->Some_0.0@ == self@[index as int].0,
            r is Some ==> r->Some_0.1 == self@[index as int].1,
    {
        map_get_index(&self.map, index)
    }

    /// Adds `weight` to what the table holds under `key`.
    pub fn add(&mut self, key: &str, weight: u64)
        requires
            old(self).wf(),
            table_total(old(self)@) + weight <= u64::MAX,
        ensures
            final(self).wf(),
            final(self)@ == table_add(old(self)@, key@, weight as nat),
            table_total(final(self)@) == table_total(old(self)@) + weight,
    {
        proof {
            lemma_weight_below_total(self@, key@);
            lemma_add_total(self@, key@, weight as nat);
            lemma_put_keeps_distinct(self@, key@, table_weight(self@, key@) + weight as nat);
        }
        let sum = match map_get(&self.map, key) {
            Some(held) => held + weight,
            None => weight,
        };
        map_insert(&mut self.map, key, sum);
        self.total = self.total + weight;
    }

    /// Puts the entries in the order in which a table is published: by
    /// descending weight, equal weights in the order of their first insertion.
    pub fn sort(&mut self)
        requires
            old(self).wf(),
        ensures
            final(self).wf(),
            is_stable_descending(old(self)@, final(self)@),
            final(self)@ == stable_descending(old(self)@),
            table_total(final(self)@) == table_total(old(self)@),
    {
        map_sort_heaviest_first(&mut self.map);
        proof {
            lemma_permutation_total(old(self)@, self@);
            lemma_permutation_keys(old(self)@, self@);
            lemma_stable_descending(old(self)@, self@);
        }
    }
}

} // verus!
