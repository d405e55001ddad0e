//! The mathematical model of a frequency model and of its derivation from
//! window counts.

use crate::table::{
    is_stable_descending, keys_distinct, lemma_add_total, lemma_permutation_keys,
    lemma_permutation_symbols, lemma_permutation_total, lemma_put_keeps_distinct,
    lemma_put_keeps_symbols, lemma_stable_descending, lemma_stable_descending_exists,
    stable_descending, symbols_only, table_add, table_total, table_weight,
};
use crate::text::{normalized_language, SPACE};
use crate::translation::{translate_char, translate_text};
use vstd::prelude::*;

verus! {

/// The six tables of a language, each from a symbol sequence to the weight
/// observed for it.
pub struct Model {
    pub language: Seq<char>,
    pub characters: Seq<(Seq<char>, nat)>,
    pub bigrams: Seq<(Seq<char>, nat)>,
    pub skipgrams: Seq<(Seq<char>, nat)>,
    pub skipgrams2: Seq<(Seq<char>, nat)>,
    pub skipgrams3: Seq<(Seq<char>, nat)>,
    pub trigrams: Seq<(Seq<char>, nat)>,
}

/// The model of a language of which nothing was observed.
pub open spec fn empty_model(language: Seq<char>) -> Model {
    Model {
        language,
        characters: Seq::empty(),
        bigrams: Seq::empty(),
        skipgrams: Seq::empty(),
        skipgrams2: Seq::empty(),
        skipgrams3: Seq::empty(),
        trigrams: Seq::empty(),
    }
}

/// Whether the character of `s` at `at` exists and is no space.
pub open spec fn symbol_at(s: Seq<char>, at: int) -> bool {
    0 <= at < s.len() && s[at] != SPACE
}

/// `t` with `weight` added under `key` where `gate` holds, else `t`.
pub open spec fn add_if(gate: bool, t: Seq<(Seq<char>, nat)>, key: Seq<char>, weight: nat) -> Seq<
    (Seq<char>, nat),
> {
    if gate {
        table_add(t, key, weight)
    } else {
        t
    }
}

/// The six statistics of a language.
#[derive(Clone, Copy, Debug, PartialEq, Eq, Structural)]
pub enum Category {
    /// Single characters.
    Characters,
    /// Adjacent pairs.
    Bigrams,
    /// Pairs with one character between them.
    Skipgrams,
    /// Pairs with two characters between them.
    Skipgrams2,
    /// Pairs with three characters between them.
    Skipgrams3,
    /// Adjacent triples.
    Trigrams,
}

/// The table that a model holds for a statistic.
pub open spec fn table_of(m: Model, category: Category) -> Seq<(Seq<char>, nat)> {
    match category {
        Category::Characters => m.characters,
        Category::Bigrams => m.bigrams,
        Category::Skipgrams => m.skipgrams,
        Category::Skipgrams2 => m.skipgrams2,
        Category::Skipgrams3 => m.skipgrams3,
        Category::Trigrams => m.trigrams,
    }
}

/// Whether the window `s` counts for a statistic: the characters that the
/// statistic is made of all exist and none of them is a space. A space
/// between them does not matter, except to the triple.
pub open spec fn gate(s: Seq<char>, category: Category) -> bool {
    match category {
        Category::Characters => symbol_at(s, 0),
        Category::Bigrams => symbol_at(s, 0) && symbol_at(s, 1),
        Category::Skipgrams => symbol_at(s, 0) && symbol_at(s, 2),
        Category::Skipgrams2 => symbol_at(s, 0) && symbol_at(s, 3),
        Category::Skipgrams3 => symbol_at(s, 0) && symbol_at(s, 4),
        Category::Trigrams => symbol_at(s, 0) && symbol_at(s, 1) && symbol_at(s, 2),
    }
}

/// The characters of the window `s` that a statistic is made of.
pub open spec fn sub_ngram(s: Seq<char>, category: Category) -> Seq<char> {
    match category {
        Category::Characters => seq![s[0]],
        Category::Bigrams => seq![s[0], s[1]],
        Category::Skipgrams => seq![s[0], s[2]],
        Category::Skipgrams2 => seq![s[0], s[3]],
        Category::Skipgrams3 => seq![s[0], s[4]],
        Category::Trigrams => seq![s[0], s[1], s[2]],
    }
}

/// The table of a statistic after the window `s` was taken in with `weight`.
pub open spec fn accumulated(
    t: Seq<(Seq<char>, nat)>,
    s: Seq<char>,
    weight: nat,
    category: Category,
) -> Seq<(Seq<char>, nat)> {
    add_if(gate(s, category), t, sub_ngram(s, category), weight)
}

/// The model after the sub-n-grams of the window `s` were added with `weight`:
/// each statistic for which the window counts takes its characters of the
/// window. No more than the first five characters of `s` are looked at.
pub open spec fn accumulate(m: Model, s: Seq<char>, weight: nat) -> Model {
    Model {
        language: m.language,
        characters: accumulated(m.characters, s, weight, Category::Characters),
        bigrams: accumulated(m.bigrams, s, weight, Category::Bigrams),
        skipgrams: accumulated(m.skipgrams, s, weight, Category::Skipgrams),
        skipgrams2: accumulated(m.skipgrams2, s, weight, Category::Skipgrams2),
        skipgrams3: accumulated(m.skipgrams3, s, weight, Category::Skipgrams3),
        trigrams: accumulated(m.trigrams, s, weight, Category::Trigrams),
    }
}

/// The first `n` characters of `s`, or all of `s` where it has fewer.
pub open spec fn prefix(s: Seq<char>, n: nat) -> Seq<char> {
    if n < s.len() {
        s.take(n as int)
    } else {
        s
    }
}

/// The model after the first `n` five-character windows of `s` were
/// accumulated with `weight`.
pub open spec fn accumulate_windows(m: Model, s: Seq<char>, weight: nat, n: nat) -> Model
    decreases n,
{
    if n == 0 {
        m
    } else {
        accumulate(
            accumulate_windows(m, s, weight, (n - 1) as nat),
            s.subrange(n - 1, n + 4 as int),
            weight,
        )
    }
}

/// The number of windows that a quingram contributes once translated: one for
/// each character that stands for its first character, at least one, and no
/// more than the translation has windows when a space is put behind it.
pub open spec fn rewindow_count(first: Seq<char>, translated: Seq<char>) -> nat {
    let wanted = if first.len() == 0 {
        1
    } else {
        first.len()
    };
    if translated.len() < 5 {
        0
    } else if wanted <= translated.len() - 4 {
        wanted
    } else {
        (translated.len() - 4) as nat
    }
}

/// Whether a quingram counts at all: its first character is a symbol, and what
/// stands for that character is not a lone space.
pub open spec fn contributes(table: Map<char, Seq<char>>, quingram: Seq<char>) -> bool {
    &&& symbol_at(quingram, 0)
    &&& translate_char(table, quingram[0]) != seq![SPACE]
}

/// The model after one quingram, seen `count` times, was taken in.
pub open spec fn contribute(
    m: Model,
    table: Map<char, Seq<char>>,
    quingram: Seq<char>,
    count: nat,
) -> Model {
    let translated = translate_text(table, quingram);
    if !contributes(table, quingram) {
        m
    } else if translated.len() >= 5 {
        accumulate_windows(
            m,
            translated.push(SPACE),
            count,
            rewindow_count(translate_char(table, quingram[0]), translated),
        )
    } else {
        accumulate(m, translated, count)
    }
}

/// The model after the first `n` of `counts` were taken in, in their order.
pub open spec fn derive_first(
    m: Model,
    table: Map<char, Seq<char>>,
    counts: Seq<(Seq<char>, nat)>,
    n: nat,
) -> Model
    decreases n,
{
    if n == 0 {
        m
    } else {
        contribute(
            derive_first(m, table, counts, (n - 1) as nat),
            table,
            counts[n - 1].0,
            counts[n - 1].1,
        )
    }
}

/// A table as it is published: empty where it has no weight at all, else by
/// descending weight, equal weights in the order of their first insertion.
pub open spec fn published(t: Seq<(Seq<char>, nat)>) -> Seq<(Seq<char>, nat)> {
    if table_total(t) == 0 {
        Seq::empty()
    } else {
        stable_descending(t)
    }
}

/// The model with every table as it is published.
pub open spec fn finished(m: Model) -> Model {
    Model {
        language: m.language,
        characters: published(m.characters),
        bigrams: published(m.bigrams),
        skipgrams: published(m.skipgrams),
        skipgrams2: published(m.skipgrams2),
        skipgrams3: published(m.skipgrams3),
        trigrams: published(m.trigrams),
    }
}

/// The weights of a language before they are put in order.
pub open spec fn raw_model(
    counts: Seq<(Seq<char>, nat)>,
    language: Seq<char>,
    table: Map<char, Seq<char>>,
) -> Model {
    derive_first(empty_model(normalized_language(language)), table, counts, counts.len())
}

/// The frequency model of a language: what its window counts give under a
/// translator, every table as it is published.
pub open spec fn model_of(
    counts: Seq<(Seq<char>, nat)>,
    language: Seq<char>,
    table: Map<char, Seq<char>>,
) -> Model {
    finished(raw_model(counts, language, table))
}

/// No table weighs more than the table of characters: whatever is added to
/// another table is added to that one too.
pub open spec fn balanced(m: Model) -> bool {
    &&& table_total(m.bigrams) <= table_total(m.characters)
    &&& table_total(m.skipgrams) <= table_total(m.characters)
    &&& table_total(m.skipgrams2) <= table_total(m.characters)
    &&& table_total(m.skipgrams3) <= table_total(m.characters)
    &&& table_total(m.trigrams) <= table_total(m.characters)
}

/// No key of any table holds a space.
pub open spec fn spaceless_keys(m: Model) -> bool {
    &&& symbols_only(m.characters)
    &&& symbols_only(m.bigrams)
    &&& symbols_only(m.skipgrams)
    &&& symbols_only(m.skipgrams2)
    &&& symbols_only(m.skipgrams3)
    &&& symbols_only(m.trigrams)
}

/// No key occurs twice in any table.
pub open spec fn distinct_keys(m: Model) -> bool {
    &&& keys_distinct(m.characters)
    &&& keys_distinct(m.bigrams)
    &&& keys_distinct(m.skipgrams)
    &&& keys_distinct(m.skipgrams2)
    &&& keys_distinct(m.skipgrams3)
    &&& keys_distinct(m.trigrams)
}

/// What holds of a model at every stage of its derivation.
pub open spec fn sound(m: Model) -> bool {
    balanced(m) && spaceless_keys(m) && distinct_keys(m)
}

/// A table with entries has weight. The relative frequency of an entry is its
/// weight over the total of its table, so in such a table the frequencies are
/// defined and add up to one.
pub open spec fn table_normalized(t: Seq<(Seq<char>, nat)>) -> bool {
    t.len() > 0 ==> table_total(t) > 0
}

/// Every table with entries has weight.
pub open spec fn normalized(m: Model) -> bool {
    &&& table_normalized(m.characters)
    &&& table_normalized(m.bigrams)
    &&& table_normalized(m.skipgrams)
    &&& table_normalized(m.skipgrams2)
    &&& table_normalized(m.skipgrams3)
    &&& table_normalized(m.trigrams)
}

/// `t` is `raw` as it is published: nothing where `raw` has no weight, else
/// the entries of `raw` by descending weight, equal weights in the order they
/// had.
pub open spec fn publication(raw: Seq<(Seq<char>, nat)>, t: Seq<(Seq<char>, nat)>) -> bool {
    if table_total(raw) == 0 {
        t == Seq::<(Seq<char>, nat)>::empty()
    } else {
        is_stable_descending(raw, t)
    }
}

/// Every table of `m` is the table of `raw` as it is published.
pub open spec fn published_from(raw: Model, m: Model) -> bool {
    &&& m.language == raw.language
    &&& publication(raw.characters, m.characters)
    &&& publication(raw.bigrams, m.bigrams)
    &&& publication(raw.skipgrams, m.skipgrams)
    &&& publication(raw.skipgrams2, m.skipgrams2)
    &&& publication(raw.skipgrams3, m.skipgrams3)
    &&& publication(raw.trigrams, m.trigrams)
}

/// What being published makes of a table: it is the one published table of
/// `raw`, has weight wherever it has entries, weighs what `raw` weighs, and
/// holds no space and no key twice where `raw` holds none.
pub proof fn lemma_publication(raw: Seq<(Seq<char>, nat)>, t: Seq<(Seq<char>, nat)>)
    requires
        publication(raw, t),
    ensures
        t == published(raw),
        table_normalized(t),
        table_total(t) == table_total(raw),
        symbols_only(raw) ==> symbols_only(t),
        keys_distinct(raw) ==> keys_distinct(t),
{
    if table_total(raw) != 0 {
        lemma_stable_descending(raw, t);
        lemma_permutation_total(raw, t);
        if symbols_only(raw) {
            lemma_permutation_symbols(raw, t);
        }
        if keys_distinct(raw) {
            lemma_permutation_keys(raw, t);
        }
    }
}

/// Every table of distinct keys has its published table.
pub proof fn lemma_published(raw: Seq<(Seq<char>, nat)>)
    requires
        keys_distinct(raw),
    ensures
        publication(raw, published(raw)),
{
    lemma_stable_descending_exists(raw);
}

/// A model whose tables were published is the finished model, is normalized,
/// and is sound where the model it came from was.
pub proof fn lemma_published_from(raw: Model, m: Model)
    requires
        published_from(raw, m),
    ensures
        m == finished(raw),
        normalized(m),
        sound(raw) ==> sound(m),
{
    lemma_publication(raw.characters, m.characters);
    lemma_publication(raw.bigrams, m.bigrams);
    lemma_publication(raw.skipgrams, m.skipgrams);
    lemma_publication(raw.skipgrams2, m.skipgrams2);
    lemma_publication(raw.skipgrams3, m.skipgrams3);
    lemma_publication(raw.trigrams, m.trigrams);
}

/// The weight that `accumulate` adds to the table of characters.
pub open spec fn accumulated_weight(s: Seq<char>, weight: nat) -> nat {
    if symbol_at(s, 0) {
        weight
    } else {
        0
    }
}

/// Accumulating keeps a model sound and adds the weight to the characters
/// exactly when the first character is a symbol.
pub proof fn lemma_accumulate(m: Model, s: Seq<char>, weight: nat)
    requires
        sound(m),
    ensures
        sound(accumulate(m, s, weight)),
        table_total(accumulate(m, s, weight).characters) == table_total(m.characters)
            + accumulated_weight(s, weight),
        accumulate(m, s, weight).language == m.language,
{
    lemma_add_total(m.characters, seq![s[0]], weight);
    lemma_add_total(m.bigrams, seq![s[0], s[1]], weight);
    lemma_add_total(m.skipgrams, seq![s[0], s[2]], weight);
    lemma_add_total(m.skipgrams2, seq![s[0], s[3]], weight);
    lemma_add_total(m.skipgrams3, seq![s[0], s[4]], weight);
    lemma_add_total(m.trigrams, seq![s[0], s[1], s[2]], weight);
    lemma_accumulated(m.characters, s, weight, Category::Characters);
    lemma_accumulated(m.bigrams, s, weight, Category::Bigrams);
    lemma_accumulated(m.skipgrams, s, weight, Category::Skipgrams);
    lemma_accumulated(m.skipgrams2, s, weight, Category::Skipgrams2);
    lemma_accumulated(m.skipgrams3, s, weight, Category::Skipgrams3);
    lemma_accumulated(m.trigrams, s, weight, Category::Trigrams);
}

/// Taking a window into a table keeps its keys distinct and free of spaces.
pub proof fn lemma_accumulated(
    t: Seq<(Seq<char>, nat)>,
    s: Seq<char>,
    weight: nat,
    category: Category,
)
    requires
        symbols_only(t),
        keys_distinct(t),
    ensures
        symbols_only(accumulated(t, s, weight, category)),
        keys_distinct(accumulated(t, s, weight, category)),
{
    if gate(s, category) {
        let key = sub_ngram(s, category);
        lemma_put_keeps_symbols(t, key, table_weight(t, key) + weight);
        lemma_put_keeps_distinct(t, key, table_weight(t, key) + weight);
    }
}

/// Accumulating windows keeps a model sound and never lowers the weight of
/// the characters.
pub proof fn lemma_accumulate_windows(m: Model, s: Seq<char>, weight: nat, from: nat, n: nat)
    requires
        sound(m),
        from <= n,
    ensures
        sound(accumulate_windows(m, s, weight, n)),
        accumulate_windows(m, s, weight, n).language == m.language,
        table_total(accumulate_windows(m, s, weight, from).characters) <= table_total(
            accumulate_windows(m, s, weight, n).characters,
        ),
    decreases n,
{
    if n > 0 {
        let before = accumulate_windows(m, s, weight, (n - 1) as nat);
        if from < n {
            lemma_accumulate_windows(m, s, weight, from, (n - 1) as nat);
        } else {
            lemma_accumulate_windows(m, s, weight, (n - 1) as nat, (n - 1) as nat);
        }
        lemma_accumulate(before, s.subrange(n - 1, n + 4 as int), weight);
    }
}

/// Taking a quingram in keeps a model sound and never lowers the weight of
/// the characters.
pub proof fn lemma_contribute(m: Model, table: Map<char, Seq<char>>, quingram: Seq<char>, count: nat)
    requires
        sound(m),
    ensures
        sound(contribute(m, table, quingram, count)),
        contribute(m, table, quingram, count).language == m.language,
        table_total(m.characters) <= table_total(
            contribute(m, table, quingram, count).characters,
        ),
{
    let translated = translate_text(table, quingram);
    lemma_accumulate_windows(
        m,
        translated.push(SPACE),
        count,
        0,
        rewindow_count(translate_char(table, quingram[0]), translated),
    );
    lemma_accumulate(m, translated, count);
}

/// Deriving keeps a model sound and never lowers the weight of the
/// characters.
pub proof fn lemma_derive_first(
    m: Model,
    table: Map<char, Seq<char>>,
    counts: Seq<(Seq<char>, nat)>,
    from: nat,
    n: nat,
)
    requires
        sound(m),
        from <= n,
    ensures
        sound(derive_first(m, table, counts, n)),
        derive_first(m, table, counts, n).language == m.language,
        table_total(derive_first(m, table, counts, from).characters) <= table_total(
            derive_first(m, table, counts, n).characters,
        ),
    decreases n,
{
    if n > 0 {
        let before = derive_first(m, table, counts, (n - 1) as nat);
        if from < n {
            lemma_derive_first(m, table, counts, from, (n - 1) as nat);
        } else {
            lemma_derive_first(m, table, counts, (n - 1) as nat, (n - 1) as nat);
        }
        lemma_contribute(before, table, counts[n - 1].0, counts[n - 1].1);
    }
}

/// The model of a language is sound and normalized, and each of its tables
/// is the table of the weights as it is published: no key holds a space, no
/// key occurs twice, every table that has entries has weight, and the entries
/// stand by descending weight, equal weights in the order of their first
/// insertion.
pub proof fn law_model(
    counts: Seq<(Seq<char>, nat)>,
    language: Seq<char>,
    table: Map<char, Seq<char>>,
)
    ensures
        sound(raw_model(counts, language, table)),
        published_from(raw_model(counts, language, table), model_of(counts, language, table)),
        sound(model_of(counts, language, table)),
        normalized(model_of(counts, language, table)),
{
    let raw = raw_model(counts, language, table);
    lemma_derive_first(empty_model(normalized_language(language)), table, counts, 0, counts.len());
    lemma_published(raw.characters);
    lemma_published(raw.bigrams);
    lemma_published(raw.skipgrams);
    lemma_published(raw.skipgrams2);
    lemma_published(raw.skipgrams3);
    lemma_published(raw.trigrams);
    lemma_published_from(raw, model_of(counts, language, table));
}

} // verus!
