use oxeylyzer::contributions::contributions;
use oxeylyzer::count_table::CountTable;
use oxeylyzer::error::LoadError;
use oxeylyzer::load_text::LoadText;
use oxeylyzer::model::Category;
use oxeylyzer::ngrams::TextNgrams;
use oxeylyzer::text_data::{data_dir, TextData};
use oxeylyzer::translation::Translator;

fn identity(alphabet: &str) -> Translator {
    let mut translator = Translator::new(true);
    translator.keep(alphabet);
    translator
}

fn load(corpus: &str, translator: &Translator) -> TextData {
    let mut loader = LoadText::new();
    loader.push_chunk(corpus.as_bytes().to_vec());
    loader.load_data("test", translator).unwrap()
}

fn entries(table: &CountTable) -> Vec<(String, u64)> {
    let mut all = Vec::new();
    let mut i = 0;
    while let Some(entry) = table.entry(i) {
        all.push(entry);
        i += 1;
    }
    assert_eq!(all.len(), table.len());
    all
}

fn listed(pairs: &[(&str, u64)]) -> Vec<(String, u64)> {
    pairs.iter().map(|(key, weight)| (key.to_string(), *weight)).collect()
}

fn frequencies(table: &CountTable) -> Vec<(String, f64)> {
    let total = table.total() as f64;
    entries(table).into_iter().map(|(key, weight)| (key, weight as f64 / total)).collect()
}

fn close(a: f64, b: f64) -> bool {
    (a - b).abs() < 1e-9
}

fn tables(data: &TextData) -> Vec<&CountTable> {
    vec![
        data.characters(),
        data.bigrams(),
        data.skipgrams(),
        data.skipgrams2(),
        data.skipgrams3(),
        data.trigrams(),
    ]
}

#[test]
fn pass_through_mode() {
    let data = load("hello hello", &identity("helo"));
    let characters = frequencies(data.characters());
    assert_eq!(characters.len(), 4);
    for (key, frequency) in characters {
        match key.as_str() {
            "h" | "e" | "o" => assert!(close(frequency, 0.2)),
            "l" => assert!(close(frequency, 0.4)),
            other => panic!("unexpected key {other:?}"),
        }
    }
    assert_eq!(data.characters().get(" "), None);
    assert_eq!(data.characters().total(), 10);
    assert_eq!(
        entries(data.characters()),
        listed(&[("l", 4), ("h", 2), ("e", 2), ("o", 2)])
    );
}

#[test]
fn uniform_synthetic_corpus() {
    let data = load("abcde ", &identity("abcde"));
    let characters = frequencies(data.characters());
    assert_eq!(characters.len(), 5);
    assert!(characters.iter().all(|(_, f)| close(*f, 0.2)));
    let bigrams = frequencies(data.bigrams());
    assert_eq!(
        bigrams.iter().map(|(k, _)| k.as_str()).collect::<Vec<_>>(),
        vec!["ab", "bc", "cd", "de"]
    );
    assert!(bigrams.iter().all(|(_, f)| close(*f, 0.25)));
    let trigrams = frequencies(data.trigrams());
    assert_eq!(
        trigrams.iter().map(|(k, _)| k.as_str()).collect::<Vec<_>>(),
        vec!["abc", "bcd", "cde"]
    );
    assert!(trigrams.iter().all(|(_, f)| close(*f, 1.0 / 3.0)));
    let skipgrams = frequencies(data.skipgrams());
    assert_eq!(
        skipgrams.iter().map(|(k, _)| k.as_str()).collect::<Vec<_>>(),
        vec!["ac", "bd", "ce"]
    );
    assert!(skipgrams.iter().all(|(_, f)| close(*f, 1.0 / 3.0)));
    assert_eq!(entries(data.skipgrams2()), listed(&[("ad", 1), ("be", 1)]));
    assert_eq!(entries(data.skipgrams3()), listed(&[("ae", 1)]));
}

#[test]
fn uniform_synthetic_corpus_repeated() {
    let data = load("abcde abcde abcde ", &identity("abcde"));
    assert_eq!(
        entries(data.characters()),
        listed(&[("a", 3), ("b", 3), ("c", 3), ("d", 3), ("e", 3)])
    );
    assert!(frequencies(data.characters()).iter().all(|(_, f)| close(*f, 0.2)));
    assert_eq!(
        entries(data.bigrams()),
        listed(&[("ab", 3), ("bc", 3), ("cd", 3), ("de", 3)])
    );
    assert!(frequencies(data.bigrams()).iter().all(|(_, f)| close(*f, 0.25)));
    assert_eq!(entries(data.trigrams()), listed(&[("abc", 3), ("bcd", 3), ("cde", 3)]));
    assert!(frequencies(data.trigrams()).iter().all(|(_, f)| close(*f, 1.0 / 3.0)));
    // The pair that spans the space between two repetitions is a skipgram too.
    assert_eq!(
        entries(data.skipgrams()),
        listed(&[("ac", 3), ("bd", 3), ("ce", 3), ("ea", 2)])
    );
    assert_eq!(
        entries(data.skipgrams2()),
        listed(&[("ad", 3), ("be", 3), ("da", 2), ("eb", 2)])
    );
    assert_eq!(
        entries(data.skipgrams3()),
        listed(&[("ae", 3), ("ca", 2), ("db", 2), ("ec", 2)])
    );
}

#[test]
fn multi_character_expansion() {
    let mut translator = identity("abcde");
    translator.set('ä', "ae");
    let data = load("äbcde", &translator);
    assert_eq!(
        entries(data.characters()),
        listed(&[("e", 2), ("a", 1), ("b", 1), ("c", 1), ("d", 1)])
    );
    assert_eq!(
        entries(data.bigrams()),
        listed(&[("ae", 1), ("eb", 1), ("bc", 1), ("cd", 1), ("de", 1)])
    );
    assert_eq!(
        entries(data.trigrams()),
        listed(&[("aeb", 1), ("ebc", 1), ("bcd", 1), ("cde", 1)])
    );
    for table in tables(&data) {
        for (key, _) in entries(table) {
            assert!(!key.contains('ä'));
        }
    }
    // Each window of the expansion carries the weight of the source quingram.
    let plain = load("äbcde", &identity("äbcde"));
    assert_eq!(plain.characters().get("ä"), Some(1));
    assert_eq!(data.characters().get("a"), plain.characters().get("ä"));
    assert_eq!(data.bigrams().get("ae"), plain.characters().get("ä"));
    assert_eq!(data.bigrams().get("eb"), plain.bigrams().get("äb"));
}

#[test]
fn expansion_weighs_each_window_with_the_count() {
    let mut translator = identity("abcde");
    translator.set('ä', "ae");
    let mut ngrams = TextNgrams::<5>::new();
    ngrams.ngrams.add("äbcde", 7);
    let data = TextData::from(&ngrams, "test", &translator).unwrap();
    assert_eq!(entries(data.characters()), listed(&[("a", 7), ("e", 7)]));
    assert_eq!(entries(data.bigrams()), listed(&[("ae", 7), ("eb", 7)]));
    assert_eq!(entries(data.skipgrams()), listed(&[("ab", 7), ("ec", 7)]));
    assert_eq!(entries(data.skipgrams2()), listed(&[("ac", 7), ("ed", 7)]));
    assert_eq!(entries(data.skipgrams3()), listed(&[("ad", 7), ("ee", 7)]));
    assert_eq!(entries(data.trigrams()), listed(&[("aeb", 7), ("ebc", 7)]));
}

#[test]
fn normalization_of_every_category() {
    let data = load(
        "the quick brown fox jumps over the lazy dog and the cat ",
        &identity("abcdefghijklmnopqrstuvwxyz"),
    );
    for table in tables(&data) {
        assert!(table.len() > 0);
        let sum: f64 = frequencies(table).iter().map(|(_, f)| *f).sum();
        assert!(close(sum, 1.0));
        let weights: u64 = entries(table).iter().map(|(_, w)| *w).sum();
        assert_eq!(weights, table.total());
    }
}

#[test]
fn no_key_holds_a_space() {
    let data = load("a b  c   d    e     f ab cd ", &identity("abcdef"));
    for table in tables(&data) {
        for (key, _) in entries(table) {
            assert!(!key.contains(' '));
        }
    }
    assert_eq!(data.skipgrams().get("ab"), Some(1));
    assert_eq!(data.bigrams().get("ab"), Some(1));
}

#[test]
fn tables_are_ordered_by_descending_weight() {
    let data = load(
        "the quick brown fox jumps over the lazy dog and the cat ",
        &identity("abcdefghijklmnopqrstuvwxyz"),
    );
    for table in tables(&data) {
        let all = entries(table);
        assert!(all.windows(2).all(|pair| pair[0].1 >= pair[1].1));
    }
}

#[test]
fn two_runs_give_the_same_model() {
    let corpus = "so many words, so little time; so it goes ";
    let translator = identity("abcdefghijklmnopqrstuvwxyz");
    let first = load(corpus, &translator);
    let second = load(corpus, &translator);
    let firsts = tables(&first);
    let seconds = tables(&second);
    for i in 0..6 {
        assert_eq!(entries(firsts[i]), entries(seconds[i]));
        assert_eq!(firsts[i].total(), seconds[i].total());
    }
    assert_eq!(first.language(), second.language());
}

#[test]
fn unknown_characters_count_as_spaces() {
    let data = load("a?b a?b ", &identity("ab"));
    assert_eq!(entries(data.characters()), listed(&[("a", 2), ("b", 2)]));
    assert_eq!(data.bigrams().len(), 0);
    assert_eq!(entries(data.skipgrams()), listed(&[("ab", 2), ("ba", 1)]));
}

#[test]
fn quingram_whose_first_character_stands_for_a_space_is_dropped() {
    let mut translator = identity("bcde");
    translator.set('a', " ");
    let mut ngrams = TextNgrams::<5>::new();
    ngrams.ngrams.add("abcde", 3);
    let data = TextData::from(&ngrams, "test", &translator).unwrap();
    for table in tables(&data) {
        assert_eq!(table.len(), 0);
    }
}

#[test]
fn short_translations_are_accumulated_whole() {
    let mut translator = Translator::new(false);
    translator.set('a', "x");
    translator.set('b', "y");
    translator.set('c', "");
    translator.set('d', "");
    translator.set('e', "z");
    let mut ngrams = TextNgrams::<5>::new();
    ngrams.ngrams.add("abcde", 2);
    ngrams.ngrams.add("acdcd", 5);
    ngrams.ngrams.add("ccccc", 9);
    let data = TextData::from(&ngrams, "test", &translator).unwrap();
    assert_eq!(entries(data.characters()), listed(&[("x", 7)]));
    assert_eq!(entries(data.bigrams()), listed(&[("xy", 2)]));
    assert_eq!(entries(data.skipgrams()), listed(&[("xz", 2)]));
    assert_eq!(entries(data.trigrams()), listed(&[("xyz", 2)]));
    assert_eq!(data.skipgrams2().len(), 0);
    assert_eq!(data.skipgrams3().len(), 0);
}

#[test]
fn category_without_weight_is_left_empty() {
    let mut ngrams = TextNgrams::<5>::new();
    ngrams.ngrams.add("abcde", 0);
    let data = TextData::from(&ngrams, "test", &identity("abcde")).unwrap();
    for table in tables(&data) {
        assert_eq!(table.len(), 0);
        assert_eq!(table.total(), 0);
    }
}

#[test]
fn empty_corpus_gives_empty_model() {
    let data = LoadText::new().load_data("None", &identity("ab")).unwrap();
    for table in tables(&data) {
        assert_eq!(table.len(), 0);
    }
    assert_eq!(data.language().as_str(), "none");
}

#[test]
fn from_n_subsequent_follows_the_gates() {
    let mut data = TextData::new("test");
    data.from_n_subsequent::<5>("ab cd", 2);
    assert_eq!(entries(data.characters()), listed(&[("a", 2)]));
    assert_eq!(entries(data.bigrams()), listed(&[("ab", 2)]));
    assert_eq!(data.skipgrams().len(), 0);
    assert_eq!(data.trigrams().len(), 0);
    assert_eq!(entries(data.skipgrams2()), listed(&[("ac", 2)]));
    assert_eq!(entries(data.skipgrams3()), listed(&[("ad", 2)]));

    let mut data = TextData::new("test");
    data.from_n_subsequent::<5>("a cde", 1);
    assert_eq!(data.bigrams().len(), 0);
    assert_eq!(entries(data.skipgrams()), listed(&[("ac", 1)]));
    assert_eq!(data.trigrams().len(), 0);

    let mut data = TextData::new("test");
    data.from_n_subsequent::<5>(" bcde", 1);
    for table in tables(&data) {
        assert_eq!(table.len(), 0);
    }
}

#[test]
fn from_n_subsequent_looks_at_no_more_than_n_characters() {
    let mut data = TextData::new("test");
    data.from_n_subsequent::<3>("abcde", 4);
    assert_eq!(entries(data.characters()), listed(&[("a", 4)]));
    assert_eq!(entries(data.bigrams()), listed(&[("ab", 4)]));
    assert_eq!(entries(data.skipgrams()), listed(&[("ac", 4)]));
    assert_eq!(entries(data.trigrams()), listed(&[("abc", 4)]));
    assert_eq!(data.skipgrams2().len(), 0);
    assert_eq!(data.skipgrams3().len(), 0);

    let mut data = TextData::new("test");
    data.from_n_subsequent::<1>("abcde", 4);
    assert_eq!(entries(data.characters()), listed(&[("a", 4)]));
    assert_eq!(data.bigrams().len(), 0);

    let mut data = TextData::new("test");
    data.from_n_subsequent::<0>("abcde", 4);
    assert_eq!(data.characters().len(), 0);
}

#[test]
fn contribute_rewindows_by_the_length_of_the_first_translation() {
    let mut translator = identity("bcdef");
    translator.set('a', "xyz");
    let mut data = TextData::new("test");
    assert!(data.contribute("abcde", 1, &translator));
    // "xyzbcde" and a space: three windows, one for each of x, y, z.
    assert_eq!(entries(data.characters()), listed(&[("x", 1), ("y", 1), ("z", 1)]));
    assert_eq!(entries(data.skipgrams3()), listed(&[("xc", 1), ("yd", 1), ("ze", 1)]));
}

#[test]
fn weight_overflow_is_reported() {
    let mut translator = Translator::new(false);
    translator.set('a', "aa");
    let mut ngrams = TextNgrams::<5>::new();
    ngrams.ngrams.add("aaaaa", u64::MAX);
    let outcome = TextData::from(&ngrams, "test", &translator);
    assert!(matches!(outcome, Err(LoadError::WeightOverflow)));
    let fits = TextData::from(&ngrams, "test", &identity("a"));
    assert_eq!(fits.unwrap().characters().total(), u64::MAX);
}

#[test]
fn invalid_utf8_is_reported() {
    let mut loader = LoadText::new();
    loader.push_chunk("fine ".as_bytes().to_vec());
    loader.push_chunk(vec![0x66, 0xff, 0x67]);
    assert!(matches!(
        loader.load_data("test", &identity("fine")),
        Err(LoadError::Encoding)
    ));
    assert!(matches!(loader.count(), Err(LoadError::Encoding)));
}

#[test]
fn language_is_normalized() {
    assert_eq!(TextData::new("Old English").language().as_str(), "old_english");
    assert_eq!(TextData::new("ÉCRIT  x").language().as_str(), "écrit__x");
}

#[test]
fn model_files() {
    assert_eq!(data_dir("static", false), "static/language_data");
    assert_eq!(data_dir("static", true), "static/language_data_raw");
    let data = TextData::new("Old English");
    assert_eq!(data.data_file("static", true), "static/language_data_raw/old_english.json");
    assert_eq!(data.data_file("/srv/data", false), "/srv/data/language_data/old_english.json");
}

#[test]
fn error_messages() {
    assert_eq!(
        LoadError::Encoding.message(),
        "one of the files provided is not encoded as utf-8"
    );
    assert_ne!(LoadError::CountOverflow.message(), LoadError::WeightOverflow.message());
}

fn load_chunks(chunks: &[&str], translator: &Translator) -> TextData {
    let mut loader = LoadText::new();
    for chunk in chunks {
        loader.push_chunk(chunk.as_bytes().to_vec());
    }
    loader.load_data("test", translator).unwrap()
}

fn weights(table: &CountTable) -> Vec<(String, u64)> {
    let mut all = entries(table);
    all.sort();
    all
}

#[test]
fn cuts_in_wide_gaps_keep_the_weights() {
    let translator = identity("abcdefghijklmnopqrstuvwxyz");
    let whole = load("the quick    brown fox    jumps over the lazy dog", &translator);
    let split = load_chunks(
        &["the quick    ", "brown fox    ", "jumps over the lazy dog"],
        &translator,
    );
    let wholes = tables(&whole);
    let splits = tables(&split);
    for i in 0..6 {
        assert_eq!(weights(wholes[i]), weights(splits[i]));
        assert_eq!(wholes[i].total(), splits[i].total());
        let sum: f64 = frequencies(splits[i]).iter().map(|(_, f)| *f).sum();
        assert!(close(sum, 1.0));
    }
}

#[test]
fn cuts_in_narrow_gaps_lose_the_windows_over_them() {
    let translator = identity("abcdefgh");
    let whole = load("ab cd ef gh", &translator);
    let split = load_chunks(&["ab cd ", "ef gh"], &translator);
    assert_eq!(whole.characters().total(), split.characters().total());
    assert_eq!(weights(whole.characters()), weights(split.characters()));
    assert_eq!(weights(whole.bigrams()), weights(split.bigrams()));
    assert_eq!(whole.skipgrams().get("de"), Some(1));
    assert_eq!(split.skipgrams().get("de"), None);
}

#[test]
fn translation_of_four_characters_is_accumulated_once() {
    let mut translator = identity("abcd");
    translator.set('e', "");
    let mut ngrams = TextNgrams::<5>::new();
    ngrams.ngrams.add("abcde", 6);
    let data = TextData::from(&ngrams, "test", &translator).unwrap();
    assert_eq!(entries(data.characters()), listed(&[("a", 6)]));
    assert_eq!(entries(data.bigrams()), listed(&[("ab", 6)]));
    assert_eq!(entries(data.skipgrams()), listed(&[("ac", 6)]));
    assert_eq!(entries(data.skipgrams2()), listed(&[("ad", 6)]));
    assert_eq!(entries(data.trigrams()), listed(&[("abc", 6)]));
    assert_eq!(data.skipgrams3().len(), 0);
}

#[test]
fn no_more_windows_than_the_translation_has() {
    let mut translator = Translator::new(false);
    translator.set('a', "xyz");
    translator.set('b', "p");
    translator.set('c', "q");
    translator.set('d', "");
    translator.set('e', "");
    let mut data = TextData::new("test");
    assert!(data.contribute("abcde", 2, &translator));
    // "xyzpq" has one window of five, though three characters stand for `a`.
    assert_eq!(entries(data.characters()), listed(&[("x", 2)]));
    assert_eq!(entries(data.skipgrams3()), listed(&[("xq", 2)]));

    let mut translator = identity("bcde");
    translator.set('a', "");
    let mut data = TextData::new("test");
    assert!(data.contribute("abcde", 3, &translator));
    // Nothing stands for `a`: the translation "bcde" is accumulated whole.
    assert_eq!(entries(data.characters()), listed(&[("b", 3)]));
    assert_eq!(entries(data.skipgrams2()), listed(&[("be", 3)]));
}

#[test]
fn contributions_of_a_quingram() {
    let mut translator = identity("bcde");
    translator.set('ä', "ae");
    let list = contributions("äb de", 3, &translator);
    let shown: Vec<(Category, &str, u64)> =
        list.iter().map(|c| (c.category, c.key.as_str(), c.weight)).collect();
    assert_eq!(
        shown,
        vec![
            (Category::Characters, "a", 3),
            (Category::Bigrams, "ae", 3),
            (Category::Skipgrams, "ab", 3),
            (Category::Trigrams, "aeb", 3),
            (Category::Skipgrams3, "ad", 3),
            (Category::Characters, "e", 3),
            (Category::Bigrams, "eb", 3),
            (Category::Skipgrams2, "ed", 3),
            (Category::Skipgrams3, "ee", 3),
        ]
    );
    assert!(contributions(" bcde", 3, &translator).is_empty());
    assert!(contributions("?bcde", 3, &translator).is_empty());
    assert!(contributions("", 3, &translator).is_empty());

    let mut data = TextData::new("test");
    assert!(data.contribute("äb de", 3, &translator));
    let mut by_list = TextData::new("test");
    for addition in &list {
        let word = [addition.key.as_str(), "    "].concat();
        match addition.category {
            Category::Characters => by_list.from_n_subsequent::<1>(&word, addition.weight),
            _ => {}
        }
    }
    assert_eq!(entries(data.characters()), entries(by_list.characters()));
}
