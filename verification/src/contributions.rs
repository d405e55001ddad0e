//! What one quingram adds to a model, as a list.
//!
//! The derivation of a model can be read as two steps: a quingram with its
//! count is turned into a list of additions, each naming a statistic, a key
//! and a weight; and the additions are applied to the tables. The first step
//! looks at no table, so it can be tried on its own.

use crate::model::{
    accumulate, accumulate_windows, contribute, contributes, gate, rewindow_count, sub_ngram,
    Category, Model,
};
use crate::table::table_add;
use crate::text::{chars_of, SPACE};
use crate::translation::{translate_char, translate_text, Translator};
use vstd::prelude::*;

verus! {

/// One addition to a model: a weight for a key of a statistic.
#[derive(Debug)]
pub struct Contribution {
    pub category: Category,
    pub key: String,
    pub weight: u64,
}

impl View for Contribution {
    type V = (Category, Seq<char>, nat);

    open spec fn view(&self) -> (Category, Seq<char>, nat) {
        (self.category, self.key@, self.weight as nat)
    }
}

/// The additions of a list, as values of the model.
pub open spec fn additions(list: Seq<Contribution>) -> Seq<(Category, Seq<char>, nat)> {
    Seq::new(list.len(), |i: int| list[i]@)
}

/// The addition that a window makes to a statistic, if it counts for it.
pub open spec fn addition(s: Seq<char>, weight: nat, category: Category) -> Seq<
    (Category, Seq<char>, nat),
> {
    if gate(s, category) {
        seq![(category, sub_ngram(s, category), weight)]
    } else {
        seq![]
    }
}

/// The additions that a window makes: to the characters, the bigrams, the
/// skipgrams, the trigrams, and the skipgrams of two and of three characters
/// between, in this order.
pub open spec fn window_additions(s: Seq<char>, weight: nat) -> Seq<(Category, Seq<char>, nat)> {
    addition(s, weight, Category::Characters) + addition(s, weight, Category::Bigrams) + addition(
        s,
        weight,
        Category::Skipgrams,
    ) + addition(s, weight, Category::Trigrams) + addition(s, weight, Category::Skipgrams2)
        + addition(s, weight, Category::Skipgrams3)
}

/// The additions that the first `n` five-character windows of `s` make.
pub open spec fn windows_additions(s: Seq<char>, weight: nat, n: nat) -> Seq<
    (Category, Seq<char>, nat),
>
    decreases n,
{
    if n == 0 {
        seq![]
    } else {
        windows_additions(s, weight, (n - 1) as nat) + window_additions(
            s.subrange(n - 1, n + 4 as int),
            weight,
        )
    }
}

/// The additions that a quingram makes that was seen `count` times.
pub open spec fn contributions_of(
    table: Map<char, Seq<char>>,
    quingram: Seq<char>,
    count: nat,
) -> Seq<(Category, Seq<char>, nat)> {
    let translated = translate_text(table, quingram);
    if !contributes(table, quingram) {
        seq![]
    } else if translated.len() >= 5 {
        windows_additions(
            translated.push(SPACE),
            count,
            rewindow_count(translate_char(table, quingram[0]), translated),
        )
    } else {
        window_additions(translated, count)
    }
}

/// The model after one addition.
pub open spec fn applied_one(m: Model, a: (Category, Seq<char>, nat)) -> Model {
    match a.0 {
        Category::Characters => Model { characters: table_add(m.characters, a.1, a.2), ..m },
        Category::Bigrams => Model { bigrams: table_add(m.bigrams, a.1, a.2), ..m },
        Category::Skipgrams => Model { skipgrams: table_add(m.skipgrams, a.1, a.2), ..m },
        Category::Skipgrams2 => Model { skipgrams2: table_add(m.skipgrams2, a.1, a.2), ..m },
        Category::Skipgrams3 => Model { skipgrams3: table_add(m.skipgrams3, a.1, a.2), ..m },
        Category::Trigrams => Model { trigrams: table_add(m.trigrams, a.1, a.2), ..m },
    }
}

/// The model after the additions of a list, first to last.
pub open spec fn applied(m: Model, list: Seq<(Category, Seq<char>, nat)>) -> Model
    decreases list.len(),
{
    if list.len() == 0 {
        m
    } else {
        applied_one(applied(m, list.drop_last()), list.last())
    }
}

/// Applying two lists one after the other is applying them joined.
pub proof fn lemma_applied_joined(
    m: Model,
    a: Seq<(Category, Seq<char>, nat)>,
    b: Seq<(Category, Seq<char>, nat)>,
)
    ensures
        applied(m, a + b) == applied(applied(m, a), b),
    decreases b.len(),
{
    if b.len() == 0 {
        assert(a + b == a);
    } else {
        lemma_applied_joined(m, a, b.drop_last());
        assert((a + b).drop_last() == a + b.drop_last());
    }
}

/// Applying the addition of a window to a statistic changes the table of that
/// statistic, and no other, as accumulating the window does.
pub proof fn lemma_applied_addition(m: Model, s: Seq<char>, weight: nat, category: Category)
    ensures
        applied(m, addition(s, weight, category)) == (if gate(s, category) {
            applied_one(m, (category, sub_ngram(s, category), weight))
        } else {
            m
        }),
{
    let list = addition(s, weight, category);
    if gate(s, category) {
        assert(list.drop_last() == Seq::<(Category, Seq<char>, nat)>::empty());
        assert(applied(m, list.drop_last()) == m);
    }
}

/// Applying the additions of a window is accumulating the window.
pub proof fn lemma_window_additions(m: Model, s: Seq<char>, weight: nat)
    ensures
        applied(m, window_additions(s, weight)) == accumulate(m, s, weight),
{
    let a1 = addition(s, weight, Category::Characters);
    let a2 = addition(s, weight, Category::Bigrams);
    let a3 = addition(s, weight, Category::Skipgrams);
    let a4 = addition(s, weight, Category::Trigrams);
    let a5 = addition(s, weight, Category::Skipgrams2);
    let a6 = addition(s, weight, Category::Skipgrams3);
    let m1 = applied(m, a1);
    let m2 = applied(m1, a2);
    let m3 = applied(m2, a3);
    let m4 = applied(m3, a4);
    let m5 = applied(m4, a5);
    lemma_applied_addition(m, s, weight, Category::Characters);
    lemma_applied_addition(m1, s, weight, Category::Bigrams);
    lemma_applied_addition(m2, s, weight, Category::Skipgrams);
    lemma_applied_addition(m3, s, weight, Category::Trigrams);
    lemma_applied_addition(m4, s, weight, Category::Skipgrams2);
    lemma_applied_addition(m5, s, weight, Category::Skipgrams3);
    lemma_applied_joined(m, a1, a2);
    lemma_applied_joined(m, a1 + a2, a3);
    lemma_applied_joined(m, a1 + a2 + a3, a4);
    lemma_applied_joined(m, a1 + a2 + a3 + a4, a5);
    lemma_applied_joined(m, a1 + a2 + a3 + a4 + a5, a6);
}

/// Applying the additions of windows is accumulating the windows.
pub proof fn lemma_windows_additions(m: Model, s: Seq<char>, weight: nat, n: nat)
    ensures
        applied(m, windows_additions(s, weight, n)) == accumulate_windows(m, s, weight, n),
    decreases n,
{
    if n > 0 {
        lemma_windows_additions(m, s, weight, (n - 1) as nat);
        lemma_applied_joined(
            m,
            windows_additions(s, weight, (n - 1) as nat),
            window_additions(s.subrange(n - 1, n + 4 as int), weight),
        );
        lemma_window_additions(
            accumulate_windows(m, s, weight, (n - 1) as nat),
            s.subrange(n - 1, n + 4 as int),
            weight,
        );
    }
}

/// Taking a quingram into a model is applying its additions.
pub proof fn law_contributions(
    m: Model,
    table: Map<char, Seq<char>>,
    quingram: Seq<char>,
    count: nat,
)
    ensures
        applied(m, contributions_of(table, quingram, count)) == contribute(
            m,
            table,
            quingram,
            count,
        ),
{
    let translated = translate_text(table, quingram);
    lemma_windows_additions(
        m,
        translated.push(SPACE),
        count,
        rewindow_count(translate_char(table, quingram[0]), translated),
    );
    lemma_window_additions(m, translated, count);
}

/// Appends the addition that the window of `len` characters from `from` on
/// makes to a statistic, if it counts for it.
fn push_addition(
    list: &mut Vec<Contribution>,
    chars: &Vec<char>,
    from: usize,
    len: usize,
    weight: u64,
    category: Category,
)
    requires
        from + len <= chars.len(),
    ensures
        additions(final(list)@) == additions(old(list)@) + addition(
            chars@.subrange(from as int, from + len),
            weight as nat,
            category,
        ),
{
    let ghost s = chars@.subrange(from as int, from + len);
    let (second, third): (usize, usize) = match category {
        Category::Characters => (0, 0),
        Category::Bigrams => (1, 1),
        Category::Skipgrams => (2, 2),
        Category::Skipgrams2 => (3, 3),
        Category::Skipgrams3 => (4, 4),
        Category::Trigrams => (1, 2),
    };
    if third < len && chars[from] != SPACE && chars[from + second] != SPACE && chars[from
        + third] != SPACE {
        let mut key = String::new();
        key.push(chars[from]);
        if second > 0 {
            key.push(chars[from + second]);
        }
        if third > second {
            key.push(chars[from + third]);
        }
        assert(key@ =~= sub_ngram(s, category));
        list.push(Contribution { category, key, weight });
        assert(additions(list@) =~= additions(old(list)@) + addition(
            s,
            weight as nat,
            category,
        ));
    } else {
        assert(additions(list@) =~= additions(old(list)@) + addition(
            s,
            weight as nat,
            category,
        ));
    }
}

/// Appends the additions that the window of `len` characters from `from` on
/// makes.
fn push_window(list: &mut Vec<Contribution>, chars: &Vec<char>, from: usize, len: usize, weight: u64)
    requires
        from + len <= chars.len(),
    ensures
        additions(final(list)@) == additions(old(list)@) + window_additions(
            chars@.subrange(from as int, from + len),
            weight as nat,
        ),
{
    push_addition(list, chars, from, len, weight, Category::Characters);
    push_addition(list, chars, from, len, weight, Category::Bigrams);
    push_addition(list, chars, from, len, weight, Category::Skipgrams);
    push_addition(list, chars, from, len, weight, Category::Trigrams);
    push_addition(list, chars, from, len, weight, Category::Skipgrams2);
    push_addition(list, chars, from, len, weight, Category::Skipgrams3);
}

/// The additions that a quingram makes that was seen `count` times: it is
/// translated, and the windows of its translation give a key and the count
/// to every statistic that they count for.
pub fn contributions(quingram: &str, count: u64, translator: &Translator) -> (list: Vec<
    Contribution,
>)
    ensures
        additions(list@) == contributions_of(translator@, quingram@, count as nat),
{
    let mut list: Vec<Contribution> = Vec::new();
    assert(additions(list@) =~= seq![]);
    let source = chars_of(quingram);
    if source.len() == 0 || source[0] == SPACE {
        return list;
    }
    let first = chars_of(translator.translate_one(source[0]).as_str());
    if first.len() == 1 && first[0] == SPACE {
        assert(first@ == seq![SPACE]);
        return list;
    }
    let mut translated = chars_of(translator.translate(quingram).as_str());
    let ghost text = translated@;
    let len = translated.len();
    if len < 5 {
        assert(text.subrange(0, len as int) == text);
        push_window(&mut list, &translated, 0, len, count);
        return list;
    }
    translated.push(SPACE);
    let wanted = if first.len() == 0 {
        1
    } else {
        first.len()
    };
    let n = if wanted <= len - 4 {
        wanted
    } else {
        len - 4
    };
    let mut i: usize = 0;
    while i < n
        invariant
            i <= n <= len - 4,
            translated@ == text.push(SPACE),
            len == text.len(),
            additions(list@) == windows_additions(translated@, count as nat, i as nat),
        decreases n - i,
    {
        push_window(&mut list, &translated, i, 5, count);
        i += 1;
    }
    list
}

} // verus!
