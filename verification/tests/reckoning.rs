//! The library against a plain reckoning of the same statistics on corpora
//! made by a small generator.

use std::collections::BTreeMap;

use oxeylyzer::count_table::CountTable;
use oxeylyzer::load_text::LoadText;
use oxeylyzer::text_data::TextData;
use oxeylyzer::translation::Translator;

struct Generator(u64);

impl Generator {
    fn next(&mut self, below: usize) -> usize {
        self.0 = self.0.wrapping_mul(6364136223846793005).wrapping_add(1442695040888963407);
        ((self.0 >> 33) as usize) % below
    }

    fn text(&mut self, alphabet: &[char], length: usize) -> String {
        (0..length).map(|_| alphabet[self.next(alphabet.len())]).collect()
    }
}

type Table = BTreeMap<String, u64>;

#[derive(Default, Debug, PartialEq)]
struct Plain {
    characters: Table,
    bigrams: Table,
    skipgrams: Table,
    skipgrams2: Table,
    skipgrams3: Table,
    trigrams: Table,
}

fn add(table: &mut Table, key: &[char], weight: u64) {
    if key.iter().all(|c| *c != ' ') {
        *table.entry(key.iter().collect()).or_insert(0) += weight;
    }
}

impl Plain {
    fn window(&mut self, w: &[char], weight: u64) {
        if w.is_empty() || w[0] == ' ' {
            return;
        }
        add(&mut self.characters, &w[..1], weight);
        if w.len() >= 2 {
            add(&mut self.bigrams, &w[..2], weight);
        }
        if w.len() >= 3 {
            add(&mut self.skipgrams, &[w[0], w[2]], weight);
            add(&mut self.trigrams, &w[..3], weight);
        }
        if w.len() >= 4 {
            add(&mut self.skipgrams2, &[w[0], w[3]], weight);
        }
        if w.len() >= 5 {
            add(&mut self.skipgrams3, &[w[0], w[4]], weight);
        }
    }

    fn quingram(&mut self, quingram: &[char], translate: &dyn Fn(char) -> String) {
        if quingram[0] == ' ' {
            return;
        }
        let first = translate(quingram[0]);
        if first == " " {
            return;
        }
        let mut translated: Vec<char> =
            quingram.iter().flat_map(|c| translate(*c).chars().collect::<Vec<_>>()).collect();
        if translated.len() >= 5 {
            translated.push(' ');
            let wanted = first.chars().count().max(1);
            for start in 0..wanted {
                if start + 5 < translated.len() {
                    self.window(&translated[start..start + 5], 1);
                }
            }
        } else {
            self.window(&translated, 1);
        }
    }

    fn chunk(&mut self, text: &str, translate: &dyn Fn(char) -> String) {
        let mut chars: Vec<char> = text.chars().collect();
        while chars.len() < 5 {
            chars.insert(0, ' ');
        }
        chars.extend([' '; 5]);
        for start in 0..chars.len() - 5 {
            self.quingram(&chars[start..start + 5], translate);
        }
    }
}

fn weights(table: &CountTable) -> Table {
    let mut all = Table::new();
    let mut i = 0;
    while let Some((key, weight)) = table.entry(i) {
        assert!(all.insert(key, weight).is_none());
        i += 1;
    }
    all.retain(|_, weight| *weight > 0);
    all
}

fn plain_of(data: &TextData) -> Plain {
    Plain {
        characters: weights(data.characters()),
        bigrams: weights(data.bigrams()),
        skipgrams: weights(data.skipgrams()),
        skipgrams2: weights(data.skipgrams2()),
        skipgrams3: weights(data.skipgrams3()),
        trigrams: weights(data.trigrams()),
    }
}

fn pairs() -> Vec<(char, &'static str)> {
    vec![
        ('a', "a"),
        ('b', "b"),
        ('c', "c"),
        ('ä', "ae"),
        ('ß', "sss"),
        ('-', ""),
        ('_', " "),
        ('x', "x y"),
    ]
}

#[test]
fn models_agree_with_a_plain_reckoning() {
    let table = pairs();
    let translate = |c: char| -> String {
        table.iter().find(|(from, _)| *from == c).map_or(" ".to_string(), |(_, to)| to.to_string())
    };
    let mut translator = Translator::new(false);
    for (from, to) in &table {
        translator.set(*from, to);
    }
    let alphabet = ['a', 'b', 'c', 'ä', 'ß', '-', '_', 'x', ' ', ' ', '?'];
    let mut generator = Generator(2024);
    for round in 0..60 {
        let chunks: Vec<String> = (0..1 + round % 3)
            .map(|_| {
                let length = generator.next(40);
                generator.text(&alphabet, length)
            })
            .collect();
        let mut loader = LoadText::new();
        let mut plain = Plain::default();
        for chunk in &chunks {
            loader.push_chunk(chunk.as_bytes().to_vec());
            plain.chunk(chunk, &translate);
        }
        let data = loader.load_data("test", &translator).unwrap();
        assert_eq!(plain_of(&data), plain, "chunks {chunks:?}");
        for table in [data.characters(), data.bigrams(), data.skipgrams(), data.trigrams()] {
            let mut previous = u64::MAX;
            let mut i = 0;
            while let Some((_, weight)) = table.entry(i) {
                assert!(weight <= previous);
                previous = weight;
                i += 1;
            }
        }
    }
}
