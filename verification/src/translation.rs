//! Translators: per-language substitution of source characters.
//!
//! A translator is a table from characters to the text that stands for them.
//! A character that the table lacks counts as a space: it ends words and is
//! never part of a statistic.

use crate::text::SPACE;
use std::collections::HashMap;
use vstd::prelude::*;
use vstd::std_specs::hash::*;
use vstd::string::*;

verus! {

/// What a table makes of one character.
pub open spec fn translate_char(table: Map<char, Seq<char>>, c: char) -> Seq<char> {
    if table.contains_key(c) {
        table[c]
    } else {
        seq![SPACE]
    }
}

/// What a table makes of a text: the translations of its characters, one after
/// the other.
pub open spec fn translate_text(table: Map<char, Seq<char>>, s: Seq<char>) -> Seq<char>
    decreases s.len(),
{
    if s.len() == 0 {
        Seq::empty()
    } else {
        translate_text(table, s.drop_last()) + translate_char(table, s.last())
    }
}

/// `table` after every character of `chars` was mapped to itself, first to last.
pub open spec fn keep_all(table: Map<char, Seq<char>>, chars: Seq<char>) -> Map<char, Seq<char>>
    decreases chars.len(),
{
    if chars.len() == 0 {
        table
    } else {
        keep_all(table, chars.drop_last()).insert(chars.last(), seq![chars.last()])
    }
}

/// A substitution table with the mode in which its models are filed.
#[derive(Debug)]
pub struct Translator {
    table: HashMap<u32, String>,
    raw: bool,
}

impl View for Translator {
    type V = Map<char, Seq<char>>;

    closed spec fn view(&self) -> Map<char, Seq<char>> {
        Map::new(
            |c: char| self.table@.contains_key(c as u32),
            |c: char| self.table@[c as u32]@,
        )
    }
}

impl Translator {
    /// Whether the translator keeps the literal source alphabet.
    pub closed spec fn raw_mode(&self) -> bool {
        self.raw
    }

    /// A translator that knows no character yet.
    pub fn new(is_raw: bool) -> (t: Translator)
        ensures
            t@ == Map::<char, Seq<char>>::empty(),
            t.raw_mode() == is_raw,
    {
        let t = Translator { table: HashMap::new(), raw: is_raw };
        assert(t@ =~= Map::<char, Seq<char>>::empty());
        t
    }

    /// Whether the translator keeps the literal source alphabet.
    pub fn is_raw(&self) -> (raw: bool)
        ensures
            raw == self.raw_mode(),
    {
        self.raw
    }

    /// Lets `to` stand for `from`.
    pub fn set(&mut self, from: char, to: &str)
        ensures
            final(self)@ == old(self)@.insert(from, to@),
            final(self).raw_mode() == old(self).raw_mode(),
    {
        broadcast use group_hash_axioms;

        self.table.insert(from as u32, to.to_owned());
        let ghost after = old(self)@.insert(from, to@);
        assert forall|c: char| #[trigger]
            self@.contains_key(c) == after.contains_key(c) && (self@.contains_key(c)
                ==> self@[c] == after[c]) by {
            vstd::utf8::char_u32_cast(c, c as u32);
            vstd::utf8::char_u32_cast(from, from as u32);
        }
        assert(self@ =~= after);
    }

    /// Lets every character of `chars` stand for itself.
    pub fn keep(&mut self, chars: &str)
        ensures
            final(self)@ == keep_all(old(self)@, chars@),
            final(self).raw_mode() == old(self).raw_mode(),
    {
        for c in it: chars.chars()
            invariant
                it.seq() == chars@,
                self@ == keep_all(old(self)@, chars@.take(it.index() as int)),
                self.raw_mode() == old(self).raw_mode(),
        {
            let mut one = String::new();
            one.push(c);
            proof {
                let n = it.index() as int;
                assert(chars@.take(n + 1).drop_last() == chars@.take(n));
                assert(one@ == seq![c]);
            }
            self.set(c, one.as_str());
        }
        assert(chars@.take(chars@.len() as int) == chars@);
    }

    /// The text that stands for `c`.
    pub fn translate_one(&self, c: char) -> (r: String)
        ensures
            r@ == translate_char(self@, c),
    {
        broadcast use group_hash_axioms;

        match self.table.get(&(c as u32)) {
            Some(to) => to.clone(),
            None => {
                let mut r = String::new();
                r.push(SPACE);
                assert(r@ == seq![SPACE]);
                r
            },
        }
    }

    /// The text that stands for `s`.
    pub fn translate(&self, s: &str) -> (r: String)
        ensures
            r@ == translate_text(self@, s@),
    {
        broadcast use group_hash_axioms;

        let mut r = String::new();
        for c in it: s.chars()
            invariant
                it.seq() == s@,
                r@ == translate_text(self@, s@.take(it.index() as int)),
        {
            proof {
                let n = it.index() as int;
                assert(s@.take(n + 1).drop_last() == s@.take(n));
            }
            match self.table.get(&(c as u32)) {
                Some(to) => {
                    r.append(to.as_str());
                },
                None => {
                    r.push(SPACE);
                },
            }
        }
        assert(s@.take(s@.len() as int) == s@);
        r
    }
}

} // verus!
