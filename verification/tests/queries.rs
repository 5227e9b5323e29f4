// Scenario checks of search and analyze over a small loaded store.

use jpv::database::Database;
use jpv::elements::{KanjiCharacter, KanjiElement, LexicalEntry, ReadingElement, Sense};
use jpv::entities::PartOfSpeech;
use jpv::sets::Bits;
use jpv::store::{encode, DataSet};

fn chars(s: &str) -> Vec<char> {
    s.chars().collect()
}

fn pos_set(pos: PartOfSpeech) -> Bits {
    Bits::empty().with(pos.index())
}

fn entry(key: u64, kanji: &str, reading: &str, pos: Option<PartOfSpeech>) -> LexicalEntry {
    LexicalEntry {
        key,
        kanji: if kanji.is_empty() {
            vec![]
        } else {
            vec![KanjiElement { text: chars(kanji), info: vec![], priority: vec![] }]
        },
        readings: vec![ReadingElement {
            text: chars(reading),
            no_kanji: false,
            reading_string: vec![],
            priority: vec![],
            info: vec![],
        }],
        senses: vec![Sense {
            gloss: vec![chars("gloss")],
            pos: match pos {
                Some(p) => pos_set(p),
                None => Bits::empty(),
            },
            misc: Bits::empty(),
            dialect: Bits::empty(),
            field: Bits::empty(),
        }],
    }
}

fn sample_db() -> Database {
    // 話 (a literal noun entry), 話す (godan, -su class)
    let data = DataSet {
        entries: vec![
            entry(1, "話", "はなし", Some(PartOfSpeech::Noun)),
            entry(2, "話す", "はなす", Some(PartOfSpeech::VerbGodanS)),
        ],
        characters: vec![KanjiCharacter {
            literal: '話',
            readings: vec![chars("わ")],
            meanings: vec![chars("tale")],
            stroke_count: 13,
            classification: 0,
        }],
    };
    Database::new(encode(&data)).expect("loads")
}

#[test]
fn analyze_prefers_longest_match() {
    let db = sample_db();
    let text = chars("話した");
    let r = db.analyze(&text, 0);
    assert!(!r.is_empty());
    // the conjugated past form of 話す matches the whole text and ranks first
    let first: String = r[0].1.iter().collect();
    assert_eq!(first, "話した");
    assert_eq!(r[0].0.entry, 2);
    // the literal entry 話 must still be reported, after per length
    let lit = r
        .iter()
        .find(|(k, _)| k.entry == 1)
        .expect("literal entry reported");
    let lit_s: String = lit.1.iter().collect();
    assert_eq!(lit_s, "話");
}

#[test]
fn analyze_results_are_prefixes_and_ordered() {
    let db = sample_db();
    let text = chars("話した friend");
    let r = db.analyze(&text, 0);
    for (_, s) in &r {
        assert!(!s.is_empty());
        assert!(s.len() <= text.len());
        assert_eq!(&text[..s.len()], &s[..]);
    }
    for w in r.windows(2) {
        let (ref a, ref b) = (&w[0], &w[1]);
        let strictly_before = a.1.len() > b.1.len()
            || (a.1.len() == b.1.len()
                && (a.0.entry < b.0.entry
                    || (a.0.entry == b.0.entry && a.0.variant < b.0.variant)));
        assert!(strictly_before);
    }
}

#[test]
fn analyze_with_start_offset() {
    let db = sample_db();
    let text = chars("と話した");
    let r = db.analyze(&text, 1);
    let first: String = r[0].1.iter().collect();
    assert_eq!(first, "話した");
    // past the end: nothing
    assert!(db.analyze(&text, 4).is_empty());
}

#[test]
fn search_finds_entry_and_character() {
    let db = sample_db();
    let r = db.search(&chars("話す"));
    assert_eq!(r.entries.len(), 1);
    assert_eq!(r.entries[0].0.key, 2);
    assert_eq!(r.entries[0].1.kanji[0].text, chars("話す"));
    // the character record of 話 appears among the characters
    assert!(r.characters.iter().any(|c| c.literal == '話'));
}

#[test]
fn search_by_reading() {
    let db = sample_db();
    let r = db.search(&chars("はなし"));
    assert_eq!(r.entries.len(), 1);
    assert_eq!(r.entries[0].0.key, 1);
}

#[test]
fn search_misses_cleanly() {
    let db = sample_db();
    let r = db.search(&chars("犬"));
    assert!(r.entries.is_empty());
    assert!(r.characters.is_empty());
    let empty = db.search(&chars(""));
    assert!(empty.entries.is_empty());
}
