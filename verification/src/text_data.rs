//! The frequency model of a language and its derivation from window counts.

use crate::count_table::CountTable;
use crate::error::LoadError;
use crate::model::{
    accumulate, accumulate_windows, contribute, derive_first, empty_model, finished,
    lemma_accumulate, lemma_accumulate_windows, lemma_derive_first, lemma_published_from,
    model_of, normalized, prefix, publication, published_from, raw_model, sound, symbol_at, Model,
};
use crate::ngrams::TextNgrams;
use crate::table::{table_add, table_total};
use crate::text::{chars_of, language_key, normalized_language, SPACE};
use crate::translation::Translator;
use vstd::prelude::*;
use vstd::string::*;

verus! {

/// The directory below `root` in which models are filed: `language_data`, or
/// `language_data_raw` for the models of raw translators.
pub open spec fn data_dir_of(root: Seq<char>, raw: bool) -> Seq<char> {
    root + "/language_data"@ + (if raw {
        "_raw"@
    } else {
        ""@
    })
}

/// The file below `root` in which the model of a language is filed.
pub open spec fn data_file_of(root: Seq<char>, raw: bool, language: Seq<char>) -> Seq<char> {
    data_dir_of(root, raw) + "/"@ + language + ".json"@
}

/// The directory below `root` in which models are filed.
pub fn data_dir(root: &str, raw: bool) -> (dir: String)
    ensures
        dir@ == data_dir_of(root@, raw),
{
    let mut dir = String::from_str(root);
    dir.append("/language_data");
    if raw {
        dir.append("_raw");
    }
    proof {
        reveal_strlit("");
    }
    dir
}

/// The characters of `chars`, as a string.
fn key_of(chars: &[char]) -> (key: String)
    ensures
        key@ == chars@,
{
    let mut key = String::new();
    let mut i: usize = 0;
    while i < chars.len()
        invariant
            i <= chars.len(),
            key@ == chars@.take(i as int),
        decreases chars.len() - i,
    {
        key.push(chars[i]);
        i += 1;
    }
    assert(chars@.take(chars@.len() as int) == chars@);
    key
}

/// The frequency model of one language: six tables of weights, each with its
/// total, from which the relative frequencies are read.
#[derive(Debug)]
pub struct TextData {
    language: String,
    characters: CountTable,
    bigrams: CountTable,
    skipgrams: CountTable,
    skipgrams2: CountTable,
    skipgrams3: CountTable,
    trigrams: CountTable,
}

impl View for TextData {
    type V = Model;

    closed spec fn view(&self) -> Model {
        Model {
            language: self.language@,
            characters: self.characters@,
            bigrams: self.bigrams@,
            skipgrams: self.skipgrams@,
            skipgrams2: self.skipgrams2@,
            skipgrams3: self.skipgrams3@,
            trigrams: self.trigrams@,
        }
    }
}

impl Default for TextData {
    /// The model of a language without a name, with nothing observed yet.
    fn default() -> (r: TextData)
        ensures
            r.wf(),
            r@ == empty_model(Seq::empty()),
    {
        TextData {
            language: String::new(),
            characters: CountTable::new(),
            bigrams: CountTable::new(),
            skipgrams: CountTable::new(),
            skipgrams2: CountTable::new(),
            skipgrams3: CountTable::new(),
            trigrams: CountTable::new(),
        }
    }
}

impl TextData {
    /// The invariant of the six tables.
    pub closed spec fn tables_wf(&self) -> bool {
        &&& self.characters.wf()
        &&& self.bigrams.wf()
        &&& self.skipgrams.wf()
        &&& self.skipgrams2.wf()
        &&& self.skipgrams3.wf()
        &&& self.trigrams.wf()
    }

    /// The invariant of the model: each table is consistent, no key holds a
    /// space, and no table weighs more than the table of characters.
    pub open spec fn wf(&self) -> bool {
        self.tables_wf() && sound(self@)
    }

    /// The model of `language` with nothing observed yet.
    pub fn new(language: &str) -> (r: TextData)
        ensures
            r.wf(),
            r@ == empty_model(normalized_language(language@)),
    {
        TextData {
            language: language_key(language),
            characters: CountTable::new(),
            bigrams: CountTable::new(),
            skipgrams: CountTable::new(),
            skipgrams2: CountTable::new(),
            skipgrams3: CountTable::new(),
            trigrams: CountTable::new(),
        }
    }

    /// The name under which the model is filed.
    pub fn language(&self) -> (r: &String)
        ensures
            r@ == self@.language,
    {
        &self.language
    }

    /// The file below `root` in which the model is filed.
    pub fn data_file(&self, root: &str, raw: bool) -> (file: String)
        ensures
            file@ == data_file_of(root@, raw, self@.language),
    {
        let mut file = data_dir(root, raw);
        file.append("/");
        file.append(self.language.as_str());
        file.append(".json");
        file
    }

    /// The table of single characters.
    pub fn characters(&self) -> (r: &CountTable)
        ensures
            r@ == self@.characters,
            self.tables_wf() ==> r.wf(),
    {
        &self.characters
    }

    /// The table of adjacent pairs.
    pub fn bigrams(&self) -> (r: &CountTable)
        ensures
            r@ == self@.bigrams,
            self.tables_wf() ==> r.wf(),
    {
        &self.bigrams
    }

    /// The table of pairs with one character between them.
    pub fn skipgrams(&self) -> (r: &CountTable)
        ensures
            r@ == self@.skipgrams,
            self.tables_wf() ==> r.wf(),
    {
        &self.skipgrams
    }

    /// The table of pairs with two characters between them.
    pub fn skipgrams2(&self) -> (r: &CountTable)
        ensures
            r@ == self@.skipgrams2,
            self.tables_wf() ==> r.wf(),
    {
        &self.skipgrams2
    }

    /// The table of pairs with three characters between them.
    pub fn skipgrams3(&self) -> (r: &CountTable)
        ensures
            r@ == self@.skipgrams3,
            self.tables_wf() ==> r.wf(),
    {
        &self.skipgrams3
    }

    /// The table of adjacent triples.
    pub fn trigrams(&self) -> (r: &CountTable)
        ensures
            r@ == self@.trigrams,
            self.tables_wf() ==> r.wf(),
    {
        &self.trigrams
    }

    /// Adds `freq` to the character `c`.
    pub(crate) fn add_character(&mut self, c: char, freq: u64)
        requires
            old(self).tables_wf(),
            table_total(old(self)@.characters) + freq <= u64::MAX,
        ensures
            final(self).tables_wf(),
            final(self)@ == (Model {
                characters: table_add(old(self)@.characters, seq![c], freq as nat),
                ..old(self)@
            }),
    {
        let key = key_of(&[c]);
        assert(key@ == seq![c]);
        self.characters.add(key.as_str(), freq);
    }

    /// Adds `freq` to the adjacent pair `bigram`.
    pub(crate) fn add_bigram(&mut self, bigram: [char; 2], freq: u64)
        requires
            old(self).tables_wf(),
            table_total(old(self)@.bigrams) + freq <= u64::MAX,
        ensures
            final(self).tables_wf(),
            final(self)@ == (Model {
                bigrams: table_add(old(self)@.bigrams, bigram@, freq as nat),
                ..old(self)@
            }),
    {
        let key = key_of(&bigram);
        self.bigrams.add(key.as_str(), freq);
    }

    /// Adds `freq` to the pair `skipgram`, whose characters stood one apart.
    pub(crate) fn add_skipgram(&mut self, skipgram: [char; 2], freq: u64)
        requires
            old(self).tables_wf(),
            table_total(old(self)@.skipgrams) + freq <= u64::MAX,
        ensures
            final(self).tables_wf(),
            final(self)@ == (Model {
                skipgrams: table_add(old(self)@.skipgrams, skipgram@, freq as nat),
                ..old(self)@
            }),
    {
        let key = key_of(&skipgram);
        self.skipgrams.add(key.as_str(), freq);
    }

    /// Adds `freq` to the pair `skipgram`, whose characters stood two apart.
    pub(crate) fn add_skipgram2(&mut self, skipgram: [char; 2], freq: u64)
        requires
            old(self).tables_wf(),
            table_total(old(self)@.skipgrams2) + freq <= u64::MAX,
        ensures
            final(self).tables_wf(),
            final(self)@ == (Model {
                skipgrams2: table_add(old(self)@.skipgrams2, skipgram@, freq as nat),
                ..old(self)@
            }),
    {
        let key = key_of(&skipgram);
        self.skipgrams2.add(key.as_str(), freq);
    }

    /// Adds `freq` to the pair `skipgram`, whose characters stood three apart.
    pub(crate) fn add_skipgram3(&mut self, skipgram: [char; 2], freq: u64)
        requires
            old(self).tables_wf(),
            table_total(old(self)@.skipgrams3) + freq <= u64::MAX,
        ensures
            final(self).tables_wf(),
            final(self)@ == (Model {
                skipgrams3: table_add(old(self)@.skipgrams3, skipgram@, freq as nat),
                ..old(self)@
            }),
    {
        let key = key_of(&skipgram);
        self.skipgrams3.add(key.as_str(), freq);
    }

    /// Adds `freq` to the adjacent triple `trigram`.
    pub(crate) fn add_trigram(&mut self, trigram: [char; 3], freq: u64)
        requires
            old(self).tables_wf(),
            table_total(old(self)@.trigrams) + freq <= u64::MAX,
        ensures
            final(self).tables_wf(),
            final(self)@ == (Model {
                trigrams: table_add(old(self)@.trigrams, trigram@, freq as nat),
                ..old(self)@
            }),
    {
        let key = key_of(&trigram);
        self.trigrams.add(key.as_str(), freq);
    }

    /// Adds the sub-n-grams of the window of `len` characters that starts at
    /// `from`, each with `freq`.
    fn accumulate_window(&mut self, chars: &Vec<char>, from: usize, len: usize, freq: u64)
        requires
            old(self).wf(),
            from + len <= chars.len(),
            symbol_at(chars@.subrange(from as int, from + len), 0) ==> table_total(
                old(self)@.characters,
            ) + freq <= u64::MAX,
        ensures
            final(self).wf(),
            final(self)@ == accumulate(
                old(self)@,
                chars@.subrange(from as int, from + len),
                freq as nat,
            ),
    {
        let ghost s = chars@.subrange(from as int, from + len);
        proof {
            lemma_accumulate(old(self)@, s, freq as nat);
        }
        if len < 1 || chars[from] == SPACE {
            return ;
        }
        let c1 = chars[from];
        self.add_character(c1, freq);
        let second = len >= 2 && chars[from + 1] != SPACE;
        if second {
            let pair = [c1, chars[from + 1]];
            assert(pair@ == seq![s[0], s[1]]);
            self.add_bigram(pair, freq);
        }
        if len >= 3 && chars[from + 2] != SPACE {
            let pair = [c1, chars[from + 2]];
            assert(pair@ == seq![s[0], s[2]]);
            self.add_skipgram(pair, freq);
            if second {
                let triple = [c1, chars[from + 1], chars[from + 2]];
                assert(triple@ == seq![s[0], s[1], s[2]]);
                self.add_trigram(triple, freq);
            }
        }
        if len >= 4 && chars[from + 3] != SPACE {
            let pair = [c1, chars[from + 3]];
            assert(pair@ == seq![s[0], s[3]]);
            self.add_skipgram2(pair, freq);
        }
        if len >= 5 && chars[from + 4] != SPACE {
            let pair = [c1, chars[from + 4]];
            assert(pair@ == seq![s[0], s[4]]);
            self.add_skipgram3(pair, freq);
        }
    }

    /// Adds the sub-n-grams of the first `N` characters of `ngram`, each with
    /// `freq`: the first character where it is a symbol, and with it every
    /// pair and triple that it starts and that holds no space. More than five
    /// characters are never looked at.
    pub fn from_n_subsequent<const N: usize>(&mut self, ngram: &str, freq: u64)
        requires
            old(self).wf(),
            symbol_at(prefix(ngram@, N as nat), 0) ==> table_total(old(self)@.characters) + freq
                <= u64::MAX,
        ensures
            final(self).wf(),
            final(self)@ == accumulate(old(self)@, prefix(ngram@, N as nat), freq as nat),
    {
        let chars = chars_of(ngram);
        let len = if N < chars.len() {
            N
        } else {
            chars.len()
        };
        assert(chars@.subrange(0, len as int) == prefix(ngram@, N as nat));
        self.accumulate_window(&chars, 0, len, freq);
    }

    /// Takes in one quingram that was seen `count` times: translates it and
    /// accumulates the windows of its translation. Gives `false`, with the
    /// model left somewhere on the way, where the weight of the characters
    /// would pass what a total can hold.
    pub fn contribute(&mut self, quingram: &str, count: u64, translator: &Translator) -> (fits:
        bool)
        requires
            old(self).wf(),
        ensures
            final(self).wf(),
            fits <==> table_total(
                contribute(old(self)@, translator@, quingram@, count as nat).characters,
            ) <= u64::MAX,
            fits ==> final(self)@ == contribute(
                old(self)@,
                translator@,
                quingram@,
                count as nat,
            ),
    {
        proof {
            self.characters.lemma_wf();
        }
        let source = chars_of(quingram);
        if source.len() == 0 || source[0] == SPACE {
            return true;
        }
        let first = chars_of(translator.translate_one(source[0]).as_str());
        if first.len() == 1 && first[0] == SPACE {
            assert(first@ == seq![SPACE]);
            return true;
        }
        let mut translated = chars_of(translator.translate(quingram).as_str());
        let ghost text = translated@;
        let len = translated.len();
        if len < 5 {
            proof {
                lemma_accumulate(self@, text, count as nat);
                assert(text.subrange(0, len as int) == text);
            }
            if len > 0 && translated[0] != SPACE && count > u64::MAX - self.characters.total() {
                return false;
            }
            self.accumulate_window(&translated, 0, len, count);
            return true;
        }
        translated.push(SPACE);
        let wanted = if first.len() == 0 {
            1
        } else {
            first.len()
        };
        let n = if wanted <= len - 4 {
            wanted
        } else {
            len - 4
        };
        let ghost target = contribute(old(self)@, translator@, quingram@, count as nat);
        assert(target == accumulate_windows(old(self)@, translated@, count as nat, n as nat));
        let mut i: usize = 0;
        while i < n
            invariant
                i <= n <= len - 4,
                target == accumulate_windows(old(self)@, translated@, count as nat, n as nat),
                target == contribute(old(self)@, translator@, quingram@, count as nat),
                translated@ == text.push(SPACE),
                len == text.len(),
                self.wf(),
                old(self).wf(),
                self@ == accumulate_windows(old(self)@, translated@, count as nat, i as nat),
            decreases n - i,
        {
            proof {
                self.characters.lemma_wf();
                lemma_accumulate_windows(old(self)@, translated@, count as nat, i as nat, i as nat);
                lemma_accumulate_windows(
                    old(self)@,
                    translated@,
                    count as nat,
                    (i + 1) as nat,
                    n as nat,
                );
                lemma_accumulate(self@, translated@.subrange(i as int, i + 5), count as nat);
            }
            if translated[i] != SPACE && count > u64::MAX - self.characters.total() {
                return false;
            }
            self.accumulate_window(&translated, i, 5, count);
            i += 1;
        }
        proof {
            self.characters.lemma_wf();
            lemma_accumulate_windows(old(self)@, translated@, count as nat, n as nat, n as nat);
        }
        true
    }

    /// Puts every table in the order in which it is published, and empties a
    /// table that has no weight.
    pub fn finish(&mut self)
        requires
            old(self).wf(),
        ensures
            final(self).wf(),
            final(self)@ == finished(old(self)@),
            published_from(old(self)@, final(self)@),
            normalized(final(self)@),
    {
        publish(&mut self.characters);
        publish(&mut self.bigrams);
        publish(&mut self.skipgrams);
        publish(&mut self.skipgrams2);
        publish(&mut self.skipgrams3);
        publish(&mut self.trigrams);
        proof {
            lemma_published_from(old(self)@, self@);
        }
    }

    /// The frequency model that the counts `ngrams` give for `language` under
    /// `translator`. Fails where the weight of the characters is more than a
    /// total can hold.
    pub fn from(ngrams: &TextNgrams<5>, language: &str, translator: &Translator) -> (r: Result<
        TextData,
        LoadError,
    >)
        ensures
            r is Ok <==> table_total(
                raw_model(ngrams.ngrams@, language@, translator@).characters,
            ) <= u64::MAX,
            r is Ok ==> r->Ok_0.wf() && r->Ok_0@ == model_of(
                ngrams.ngrams@,
                language@,
                translator@,
            ),
            r is Ok ==> normalized(r->Ok_0@) && published_from(
                raw_model(ngrams.ngrams@, language@, translator@),
                r->Ok_0@,
            ),
            r is Err ==> r->Err_0 == LoadError::WeightOverflow,
    {
        let mut data = TextData::new(language);
        let ghost start = data@;
        let n = ngrams.ngrams.len();
        let mut i: usize = 0;
        while i < n
            invariant
                i <= n,
                n == ngrams.ngrams@.len(),
                data.wf(),
                sound(start),
                start == empty_model(normalized_language(language@)),
                data@ == derive_first(start, translator@, ngrams.ngrams@, i as nat),
            decreases n - i,
        {
            proof {
                lemma_derive_first(start, translator@, ngrams.ngrams@, i as nat, i as nat);
                lemma_derive_first(start, translator@, ngrams.ngrams@, (i + 1) as nat, n as nat);
            }
            match ngrams.ngrams.entry(i) {
                Some((quingram, count)) => {
                    if !data.contribute(quingram.as_str(), count, translator) {
                        return Err(LoadError::WeightOverflow);
                    }
                },
                None => {},
            }
            i += 1;
        }
        proof {
            data.characters.lemma_wf();
        }
        data.finish();
        Ok(data)
    }
}

/// Puts a table in the order in which it is published, or empties it where it
/// has no weight.
fn publish(table: &mut CountTable)
    requires
        old(table).wf(),
    ensures
        final(table).wf(),
        publication(old(table)@, final(table)@),
{
    if table.total() == 0 {
        *table = CountTable::new();
    } else {
        table.sort();
    }
}

} // verus!
