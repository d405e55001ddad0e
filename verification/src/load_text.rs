//! From the chunks of a corpus to the frequency model of its language.
//!
//! A corpus reaches this module as byte chunks, each cut at a space. Every
//! chunk is decoded, gets its boundary buffer, and has its windows counted;
//! the counts are merged in the order of the chunks and handed to the model
//! builder.

use crate::count_table::CountTable;
use crate::error::LoadError;
use crate::model::{model_of, normalized, published_from, raw_model};
use crate::ngrams::{
    count_into, count_text, lemma_count_windows, lemma_merge_first, lemma_prefix_total, merged,
    window_count, window_counts, TextNgrams,
};
use crate::table::{keys_distinct, table_total};
use crate::text::{boundary_buffer, boundary_buffer_of, chars_of, decode};
use crate::text_data::TextData;
use crate::translation::Translator;
use vstd::prelude::*;
use vstd::utf8::{decode_utf8, valid_utf8};

verus! {

/// The size that a chunk is meant not to pass by much: four mebibytes.
pub const FOUR_MB: u64 = 4194304;

/// The number of chunks that a file of `size` bytes is cut into: as many
/// chunks of four mebibytes as it takes to hold one byte more than the file,
/// and never less than one.
pub open spec fn chunk_count_of(size: nat) -> nat {
    let chunks = (size + 1 + (FOUR_MB - 1)) / (FOUR_MB as int);
    if chunks < 1 {
        1
    } else {
        chunks as nat
    }
}

/// The number of chunks that a file of `size` bytes is cut into.
pub fn chunk_count(size: u64) -> (count: u64)
    ensures
        count == chunk_count_of(size as nat),
        count >= 1,
{
    size / FOUR_MB + 1
}

/// The window counts of a chunk of text: the windows of five characters of
/// the text, then those of its boundary buffer.
pub open spec fn chunk_counts(text: Seq<char>) -> Seq<(Seq<char>, nat)> {
    window_counts(text, boundary_buffer_of(text), 5)
}

/// Whether each of the first `n` chunks is valid UTF-8.
pub open spec fn all_valid(chunks: Seq<Vec<u8>>, n: nat) -> bool {
    forall|i: int| 0 <= i < n ==> valid_utf8(#[trigger] chunks[i]@)
}

/// The merged window counts of the first `n` chunks, in their order.
pub open spec fn corpus_counts(chunks: Seq<Vec<u8>>, n: nat) -> Seq<(Seq<char>, nat)>
    decreases n,
{
    if n == 0 {
        Seq::empty()
    } else {
        merged(corpus_counts(chunks, (n - 1) as nat), chunk_counts(decode_utf8(chunks[n - 1]@)))
    }
}

/// The number of windows that a chunk of text has with its boundary buffer.
pub open spec fn chunk_windows(text: Seq<char>) -> nat {
    window_count(text, 5) + 5
}

/// The counts of a chunk have distinct keys and add up to its windows.
pub proof fn lemma_chunk_counts(text: Seq<char>)
    ensures
        keys_distinct(chunk_counts(text)),
        table_total(chunk_counts(text)) == chunk_windows(text),
{
    let first = count_text(Seq::empty(), text, 5);
    lemma_count_windows(Seq::empty(), text, 5, window_count(text, 5));
    lemma_count_windows(first, boundary_buffer_of(text), 5, 5);
}

/// The counts of a corpus have distinct keys, and their total grows chunk by
/// chunk.
pub proof fn lemma_corpus_counts(chunks: Seq<Vec<u8>>, from: nat, n: nat)
    requires
        from <= n,
    ensures
        keys_distinct(corpus_counts(chunks, n)),
        table_total(corpus_counts(chunks, from)) <= table_total(corpus_counts(chunks, n)),
        n > 0 ==> table_total(corpus_counts(chunks, n)) == table_total(
            corpus_counts(chunks, (n - 1) as nat),
        ) + chunk_windows(decode_utf8(chunks[n - 1]@)),
    decreases n,
{
    if n > 0 {
        let before = corpus_counts(chunks, (n - 1) as nat);
        let chunk = chunk_counts(decode_utf8(chunks[n - 1]@));
        if from < n {
            lemma_corpus_counts(chunks, from, (n - 1) as nat);
        } else {
            lemma_corpus_counts(chunks, (n - 1) as nat, (n - 1) as nat);
        }
        lemma_chunk_counts(decode_utf8(chunks[n - 1]@));
        lemma_merge_first(before, chunk, chunk.len());
        lemma_prefix_total(chunk, chunk.len());
        assert(chunk.take(chunk.len() as int) == chunk);
    }
}

/// The failure that loading a corpus ends in, if any: the first that applies
/// of a chunk that is not valid UTF-8, more windows than a count can hold, and
/// more weight on the characters than a total can hold.
pub open spec fn load_failure(
    chunks: Seq<Vec<u8>>,
    language: Seq<char>,
    table: Map<char, Seq<char>>,
) -> Option<LoadError> {
    let counts = corpus_counts(chunks, chunks.len());
    if !all_valid(chunks, chunks.len()) {
        Some(LoadError::Encoding)
    } else if table_total(counts) > u64::MAX {
        Some(LoadError::CountOverflow)
    } else if table_total(raw_model(counts, language, table).characters) > u64::MAX {
        Some(LoadError::WeightOverflow)
    } else {
        None
    }
}

/// What loading a corpus owes: the failure where there is one, else the model
/// that the merged counts of the chunks give.
pub open spec fn loaded(
    chunks: Seq<Vec<u8>>,
    language: Seq<char>,
    table: Map<char, Seq<char>>,
    r: Result<TextData, LoadError>,
) -> bool {
    match r {
        Ok(data) => load_failure(chunks, language, table) is None && data@ == model_of(
            corpus_counts(chunks, chunks.len()),
            language,
            table,
        ),
        Err(e) => load_failure(chunks, language, table) == Some(e),
    }
}

/// Two runs over an unchanged corpus end alike: in the same failure, or in
/// models that are equal table by table, entry by entry.
pub proof fn law_determinism(
    chunks: Seq<Vec<u8>>,
    language: Seq<char>,
    table: Map<char, Seq<char>>,
    first: Result<TextData, LoadError>,
    second: Result<TextData, LoadError>,
)
    requires
        loaded(chunks, language, table, first),
        loaded(chunks, language, table, second),
    ensures
        first is Ok <==> second is Ok,
        first is Ok ==> first->Ok_0@ == second->Ok_0@,
        first is Err ==> first->Err_0 == second->Err_0,
{
}

/// Counts the windows of one chunk: decodes it, builds its boundary buffer,
/// and counts the windows of both. Fails where the chunk is not valid UTF-8.
pub fn count_chunk(bytes: &[u8]) -> (r: Result<TextNgrams<5>, LoadError>)
    ensures
        r is Ok <==> valid_utf8(bytes@),
        r is Ok ==> r->Ok_0.ngrams.wf() && r->Ok_0.ngrams@ == chunk_counts(decode_utf8(bytes@)),
        r is Err ==> r->Err_0 == LoadError::Encoding,
{
    match decode(bytes) {
        None => Err(LoadError::Encoding),
        Some(text) => {
            let chars = chars_of(text);
            let last = boundary_buffer(&chars);
            let mut ngrams = CountTable::new();
            assert(table_total(ngrams@) == 0);
            assert(window_count(chars@, 5) + 5 <= u64::MAX) by {
                assert(chars.len() <= usize::MAX);
            }
            count_into(&mut ngrams, &chars, 5);
            proof {
                lemma_count_windows(Seq::empty(), chars@, 5, window_count(chars@, 5));
            }
            count_into(&mut ngrams, &last, 5);
            Ok(TextNgrams { ngrams })
        },
    }
}

/// The chunks of a corpus, as they were read.
#[derive(Debug)]
pub struct LoadText {
    pub chunks: Vec<Vec<u8>>,
}

impl LoadText {
    /// A corpus of no chunks.
    pub fn new() -> (r: LoadText)
        ensures
            r.chunks@.len() == 0,
    {
        LoadText { chunks: Vec::new() }
    }

    /// Takes one more chunk.
    pub fn push_chunk(&mut self, chunk: Vec<u8>)
        ensures
            final(self).chunks@ == old(self).chunks@.push(chunk),
    {
        self.chunks.push(chunk);
    }

    /// The merged window counts of all chunks. Fails with `Encoding` where a
    /// chunk is not valid UTF-8, else with `CountOverflow` where the windows
    /// are more than a count can hold.
    pub fn count(&self) -> (r: Result<TextNgrams<5>, LoadError>)
        ensures
            r is Ok <==> all_valid(self.chunks@, self.chunks@.len()) && table_total(
                corpus_counts(self.chunks@, self.chunks@.len()),
            ) <= u64::MAX,
            r is Ok ==> r->Ok_0.ngrams.wf() && r->Ok_0.ngrams@ == corpus_counts(
                self.chunks@,
                self.chunks@.len(),
            ),
            r is Err ==> r->Err_0 == (if all_valid(self.chunks@, self.chunks@.len()) {
                LoadError::CountOverflow
            } else {
                LoadError::Encoding
            }),
    {
        let n = self.chunks.len();
        let mut i: usize = 0;
        while i < n
            invariant
                i <= n,
                n == self.chunks@.len(),
                all_valid(self.chunks@, i as nat),
            decreases n - i,
        {
            if decode(self.chunks[i].as_slice()).is_none() {
                return Err(LoadError::Encoding);
            }
            i += 1;
        }
        let mut total = TextNgrams::<5>::new();
        let mut i: usize = 0;
        while i < n
            invariant
                i <= n,
                n == self.chunks@.len(),
                all_valid(self.chunks@, n as nat),
                total.ngrams.wf(),
                total.ngrams@ == corpus_counts(self.chunks@, i as nat),
            decreases n - i,
        {
            proof {
                lemma_corpus_counts(self.chunks@, (i + 1) as nat, n as nat);
                lemma_corpus_counts(self.chunks@, (i + 1) as nat, (i + 1) as nat);
                lemma_chunk_counts(decode_utf8(self.chunks@[i as int]@));
                total.ngrams.lemma_wf();
            }
            match count_chunk(self.chunks[i].as_slice()) {
                Ok(chunk) => {
                    match total.checked_combine_with(chunk) {
                        Ok(sum) => {
                            total = sum;
                        },
                        Err(e) => {
                            return Err(e);
                        },
                    }
                },
                Err(e) => {
                    return Err(e);
                },
            }
            i += 1;
        }
        proof {
            total.ngrams.lemma_wf();
        }
        Ok(total)
    }

    /// The frequency model of `language` that the corpus gives under
    /// `translator`. Fails with `Encoding` where a chunk is not valid UTF-8,
    /// else with `CountOverflow` where the windows are more than a count can
    /// hold, else with `WeightOverflow` where the weight of the characters is
    /// more than a total can hold.
    pub fn load_data(&self, language: &str, translator: &Translator) -> (r: Result<
        TextData,
        LoadError,
    >)
        ensures
            loaded(self.chunks@, language@, translator@, r),
            r is Ok ==> r->Ok_0.wf() && normalized(r->Ok_0@) && published_from(
                raw_model(corpus_counts(self.chunks@, self.chunks@.len()), language@, translator@),
                r->Ok_0@,
            ),
    {
        match self.count() {
            Ok(counts) => TextData::from(&counts, language, translator),
            Err(e) => Err(e),
        }
    }
}

} // verus!
