use oxeylyzer::count_table::{heavier_first, CountTable};
use oxeylyzer::error::LoadError;
use oxeylyzer::load_text::{chunk_count, count_chunk, LoadText, FOUR_MB};
use oxeylyzer::ngrams::{count_into, TextNgrams};
use oxeylyzer::text::{
    boundary_buffer, chars_of, decode, language_key, replace_spaces, string_of,
};
use oxeylyzer::translation::Translator;
use std::cmp::Ordering;

fn all(table: &CountTable) -> Vec<(String, u64)> {
    let mut entries = Vec::new();
    let mut i = 0;
    while let Some(entry) = table.entry(i) {
        entries.push(entry);
        i += 1;
    }
    entries
}

fn listed(pairs: &[(&str, u64)]) -> Vec<(String, u64)> {
    pairs.iter().map(|(key, weight)| (key.to_string(), *weight)).collect()
}

fn table_of(pairs: &[(&str, u64)]) -> TextNgrams<5> {
    let mut counts = TextNgrams::<5>::new();
    for (key, weight) in pairs {
        counts.ngrams.add(key, *weight);
    }
    counts
}

#[test]
fn table_adds_and_keeps_first_insertion_order() {
    let mut table = CountTable::new();
    assert_eq!(table.len(), 0);
    assert_eq!(table.total(), 0);
    assert_eq!(table.entry(0), None);
    table.add("b", 2);
    table.add("a", 1);
    table.add("b", 3);
    assert_eq!(table.len(), 2);
    assert_eq!(table.total(), 6);
    assert_eq!(table.get("b"), Some(5));
    assert_eq!(table.get("a"), Some(1));
    assert_eq!(table.get("c"), None);
    assert_eq!(all(&table), listed(&[("b", 5), ("a", 1)]));
    assert_eq!(table.entry(2), None);
}

#[test]
fn sort_is_descending_and_stable() {
    let mut table = CountTable::new();
    table.add("x", 1);
    table.add("y", 2);
    table.add("z", 1);
    table.add("w", 2);
    table.add("v", 3);
    table.sort();
    assert_eq!(
        all(&table),
        listed(&[("v", 3), ("y", 2), ("w", 2), ("x", 1), ("z", 1)])
    );
    assert_eq!(table.total(), 9);
    assert_eq!(table.get("w"), Some(2));
}

#[test]
fn heavier_weights_come_first() {
    assert_eq!(heavier_first(3, 2), Ordering::Less);
    assert_eq!(heavier_first(2, 2), Ordering::Equal);
    assert_eq!(heavier_first(2, 3), Ordering::Greater);
}

#[test]
fn windows_need_a_following_character() {
    let counts = TextNgrams::<5>::from_str_last("abcdef", "");
    assert_eq!(all(&counts.ngrams), listed(&[("abcde", 1)]));
    let counts = TextNgrams::<5>::from_str_last("abcde", "");
    assert_eq!(counts.ngrams.len(), 0);
    let counts = TextNgrams::<5>::from_str_last("abc", "abc");
    assert_eq!(counts.ngrams.len(), 0);
}

#[test]
fn windows_are_counted_by_occurrence() {
    let counts = TextNgrams::<5>::from_str_last("aaaaaaaa", "aaaaab");
    assert_eq!(all(&counts.ngrams), listed(&[("aaaaa", 4)]));
    let counts = TextNgrams::<2>::from_str_last("ababa", "ba ");
    assert_eq!(all(&counts.ngrams), listed(&[("ab", 2), ("ba", 2)]));
    let counts = TextNgrams::<5>::from_str_last("héllo wörld", "");
    assert_eq!(
        all(&counts.ngrams),
        listed(&[
            ("héllo", 1),
            ("éllo ", 1),
            ("llo w", 1),
            ("lo wö", 1),
            ("o wör", 1),
            (" wörl", 1)
        ])
    );
}

#[test]
fn count_into_adds_to_what_is_there() {
    let mut table = CountTable::new();
    table.add("ab", 10);
    count_into(&mut table, &vec!['a', 'b', 'c', 'a', 'b', 'x'], 2);
    assert_eq!(all(&table), listed(&[("ab", 12), ("bc", 1), ("ca", 1)]));
}

#[test]
fn chunk_is_counted_with_its_boundary_buffer() {
    let counts = count_chunk("hello hello".as_bytes()).unwrap();
    assert_eq!(
        all(&counts.ngrams),
        listed(&[
            ("hello", 2),
            ("ello ", 2),
            ("llo h", 1),
            ("lo he", 1),
            ("o hel", 1),
            (" hell", 1),
            ("llo  ", 1),
            ("lo   ", 1),
            ("o    ", 1)
        ])
    );
    assert_eq!(counts.ngrams.total(), 11);
    let short = count_chunk("ab".as_bytes()).unwrap();
    assert_eq!(
        all(&short.ngrams),
        listed(&[("   ab", 1), ("  ab ", 1), (" ab  ", 1), ("ab   ", 1), ("b    ", 1)])
    );
    assert!(matches!(count_chunk(&[0xc3, 0x28]), Err(LoadError::Encoding)));
}

#[test]
fn boundary_buffers() {
    let buffer = |s: &str| -> String { boundary_buffer(&chars_of(s)).into_iter().collect() };
    assert_eq!(buffer(""), "          ");
    assert_eq!(buffer("ab"), "   ab     ");
    assert_eq!(buffer("abcde"), "abcde     ");
    assert_eq!(buffer("abcdefg"), "cdefg     ");
    assert_eq!(buffer("wörld"), "wörld     ");
}

#[test]
fn merge_adds_key_by_key() {
    let a = table_of(&[("aaaaa", 1), ("bbbbb", 2)]);
    let b = table_of(&[("ccccc", 5), ("aaaaa", 3)]);
    let sum = a.combine_with(b);
    assert_eq!(all(&sum.ngrams), listed(&[("aaaaa", 4), ("bbbbb", 2), ("ccccc", 5)]));
    assert_eq!(sum.ngrams.total(), 11);
}

#[test]
fn merge_is_associative() {
    let parts = || {
        (
            table_of(&[("aaaaa", 1), ("bbbbb", 2)]),
            table_of(&[("ccccc", 5), ("aaaaa", 3)]),
            table_of(&[("ddddd", 7), ("ccccc", 1), ("bbbbb", 1)]),
        )
    };
    let (a, b, c) = parts();
    let left = a.combine_with(b).combine_with(c);
    let (a, b, c) = parts();
    let right = a.combine_with(b.combine_with(c));
    assert_eq!(all(&left.ngrams), all(&right.ngrams));
    assert_eq!(
        all(&left.ngrams),
        listed(&[("aaaaa", 4), ("bbbbb", 3), ("ccccc", 6), ("ddddd", 7)])
    );
}

#[test]
fn merge_is_commutative_in_the_weights() {
    let a = table_of(&[("aaaaa", 1), ("bbbbb", 2)]);
    let b = table_of(&[("ccccc", 5), ("aaaaa", 3)]);
    let ab = a.combine_with(b);
    let a = table_of(&[("aaaaa", 1), ("bbbbb", 2)]);
    let b = table_of(&[("ccccc", 5), ("aaaaa", 3)]);
    let ba = b.combine_with(a);
    for key in ["aaaaa", "bbbbb", "ccccc", "ddddd"] {
        assert_eq!(ab.ngrams.get(key), ba.ngrams.get(key));
    }
    assert_eq!(all(&ba.ngrams), listed(&[("ccccc", 5), ("aaaaa", 4), ("bbbbb", 2)]));
}

#[test]
fn empty_counts_are_the_identity_of_merging() {
    let a = table_of(&[("aaaaa", 1), ("bbbbb", 2)]);
    let left = TextNgrams::<5>::new().combine_with(a);
    assert_eq!(all(&left.ngrams), listed(&[("aaaaa", 1), ("bbbbb", 2)]));
    let right = left.combine_with(TextNgrams::<5>::new());
    assert_eq!(all(&right.ngrams), listed(&[("aaaaa", 1), ("bbbbb", 2)]));
}

#[test]
fn count_overflow_is_reported() {
    let a = table_of(&[("aaaaa", u64::MAX)]);
    let b = table_of(&[("bbbbb", 1)]);
    assert!(matches!(a.checked_combine_with(b), Err(LoadError::CountOverflow)));
    let a = table_of(&[("aaaaa", u64::MAX - 1)]);
    let b = table_of(&[("aaaaa", 1)]);
    let sum = a.checked_combine_with(b).unwrap();
    assert_eq!(sum.ngrams.get("aaaaa"), Some(u64::MAX));
}

#[test]
fn chunks_are_merged_in_their_order() {
    let mut loader = LoadText::new();
    loader.push_chunk("abcdef ".as_bytes().to_vec());
    loader.push_chunk("abcdef ".as_bytes().to_vec());
    let counts = loader.count().unwrap();
    assert_eq!(counts.ngrams.get("abcde"), Some(2));
    assert_eq!(counts.ngrams.get("bcdef"), Some(2));
    assert_eq!(counts.ngrams.get("     "), Some(2));
    assert_eq!(counts.ngrams.entry(0), Some(("abcde".to_string(), 2)));
    assert_eq!(counts.ngrams.total(), 14);
}

#[test]
fn chunk_counts_per_file() {
    assert_eq!(FOUR_MB, 4 * 1024 * 1024);
    assert_eq!(chunk_count(0), 1);
    assert_eq!(chunk_count(1), 1);
    assert_eq!(chunk_count(FOUR_MB - 1), 1);
    assert_eq!(chunk_count(FOUR_MB), 2);
    assert_eq!(chunk_count(2 * FOUR_MB - 1), 2);
    assert_eq!(chunk_count(10 * FOUR_MB + 17), 11);
    assert_eq!(chunk_count(u64::MAX), 4398046511104);
}

#[test]
fn decoding() {
    assert_eq!(decode("hä".as_bytes()), Some("hä"));
    assert_eq!(decode(&[0x68, 0xc3, 0xa4]), Some("hä"));
    assert_eq!(decode(&[]), Some(""));
    assert_eq!(decode(&[0x68, 0xc3]), None);
    assert_eq!(decode(&[0xff]), None);
}

#[test]
fn characters_and_strings() {
    assert_eq!(chars_of("wö r"), vec!['w', 'ö', ' ', 'r']);
    let chars = chars_of("wörld");
    assert_eq!(string_of(&chars, 1, 4), "örl");
    assert_eq!(string_of(&chars, 2, 2), "");
    assert_eq!(replace_spaces("a b  c"), "a_b__c");
    assert_eq!(language_key("Old High German"), "old_high_german");
}

#[test]
fn translators() {
    let mut translator = Translator::new(false);
    assert!(!translator.is_raw());
    assert!(Translator::new(true).is_raw());
    translator.keep("helo");
    translator.set('É', "e");
    translator.set('ß', "ss");
    translator.set('-', "");
    assert_eq!(translator.translate_one('h'), "h");
    assert_eq!(translator.translate_one('ß'), "ss");
    assert_eq!(translator.translate_one('-'), "");
    assert_eq!(translator.translate_one('?'), " ");
    assert_eq!(translator.translate("hÉl-lo ßx"), "hello ss ");
    assert_eq!(translator.translate(""), "");
    translator.set('h', "H");
    assert_eq!(translator.translate("hh"), "HH");
}
