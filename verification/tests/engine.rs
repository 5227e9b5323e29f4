// Golden checks of the conjugation engine and the store round trip.

use jpv::conjugation::{Conjugation, Conjugations, Word};
use jpv::elements::{LexicalEntry, ReadingElement, Sense};
use jpv::entities::PartOfSpeech;
use jpv::sets::Bits;
use jpv::store::{encode, load, DataSet};
use jpv::tables::class_templates;

fn chars(s: &str) -> Vec<char> {
    s.chars().collect()
}

fn paradigm(text: &str, reading: &str, pos: PartOfSpeech) -> Conjugations {
    let word = Word { text: chars(text), reading: chars(reading) };
    Conjugations::build(word, &class_templates(pos))
}

fn surface(c: &Conjugations, form_bits: u128, flag_bits: u128) -> Option<String> {
    let key = Conjugation::new(Bits { bits: form_bits }, Bits { bits: flag_bits });
    c.get(key).map(|p| p.text().iter().collect())
}

#[test]
fn godan_su_past() {
    let c = paradigm("話す", "はなす", PartOfSpeech::VerbGodanS);
    assert_eq!(surface(&c, 8, 0).as_deref(), Some("話した"));
    assert_eq!(surface(&c, 2, 0).as_deref(), Some("話す"));
    assert_eq!(surface(&c, 2, 1).as_deref(), Some("話します"));
    assert_eq!(surface(&c, 4, 0).as_deref(), Some("話さない"));
    assert!(c.has_polite());
}

#[test]
fn ichidan_forms() {
    let c = paradigm("食べる", "たべる", PartOfSpeech::VerbIchidan);
    assert_eq!(surface(&c, 8, 0).as_deref(), Some("食べた"));
    assert_eq!(surface(&c, 1, 0).as_deref(), Some("食べて"));
    assert_eq!(surface(&c, 256, 0).as_deref(), Some("食べられる"));
    assert_eq!(surface(&c, 256, 4).as_deref(), Some("食べれる"));
}

#[test]
fn kuru_reading_track() {
    let c = paradigm("来る", "くる", PartOfSpeech::VerbKuru);
    let key = Conjugation::new(Bits { bits: 8 }, Bits { bits: 0 });
    let pair = c.get(key).expect("past form");
    let text: String = pair.text().iter().collect();
    let reading: String = pair.reading().iter().collect();
    assert_eq!(text, "来た");
    assert_eq!(reading, "きた");
}

#[test]
fn adjective_i_negative() {
    let c = paradigm("高い", "たかい", PartOfSpeech::AdjectiveI);
    assert_eq!(surface(&c, 4, 0).as_deref(), Some("高くない"));
    assert_eq!(surface(&c, 8, 0).as_deref(), Some("高かった"));
}

#[test]
fn no_paradigm_for_nouns() {
    let c = paradigm("山", "やま", PartOfSpeech::Noun);
    assert!(!c.has_polite());
    assert!(c.iter().is_empty());
}

fn sample_entry(key: u64, text: &str, reading: &str) -> LexicalEntry {
    LexicalEntry {
        key,
        kanji: vec![],
        readings: vec![ReadingElement {
            text: chars(text),
            no_kanji: false,
            reading_string: vec![chars(reading)],
            priority: vec![],
            info: vec![],
        }],
        senses: vec![Sense {
            gloss: vec![chars("to speak")],
            pos: Bits { bits: 0 },
            misc: Bits { bits: 0 },
            dialect: Bits { bits: 0 },
            field: Bits { bits: 0 },
        }],
    }
}

#[test]
fn store_round_trip() {
    let data = DataSet {
        entries: vec![sample_entry(1, "話す", "はなす"), sample_entry(2, "山", "やま")],
        characters: vec![],
    };
    let buf = encode(&data);
    let store = load(buf).expect("loads");
    let e = store.entry(1).expect("key 1");
    assert_eq!(e.key, 1);
    assert_eq!(e.readings.len(), 1);
    assert_eq!(e.readings[0].text, chars("話す"));
    assert_eq!(e.readings[0].reading_string, vec![chars("はなす")]);
    assert_eq!(e.senses[0].gloss, vec![chars("to speak")]);
    assert!(store.entry(3).is_none());
}

#[test]
fn corrupted_header_is_rejected() {
    let data = DataSet { entries: vec![sample_entry(1, "話す", "はなす")], characters: vec![] };
    let mut buf = encode(&data);
    buf[0] = 0;
    assert!(load(buf).is_err());
}

#[test]
fn unsorted_keys_are_rejected() {
    let data = DataSet {
        entries: vec![sample_entry(2, "山", "やま"), sample_entry(1, "話す", "はなす")],
        characters: vec![],
    };
    let buf = encode(&data);
    assert!(load(buf).is_err());
}

#[test]
fn builder_requires_text() {
    let mut b = jpv::elements::Builder::new();
    assert!(b.build().is_err());
    let mut b2 = jpv::elements::Builder::new();
    b2.text(chars("はなす")).unwrap();
    b2.no_kanji();
    let e = b2.build().unwrap();
    assert!(e.no_kanji);
    assert_eq!(e.text, chars("はなす"));
    let d: String = e.debug_sparse().iter().collect();
    assert_eq!(d, "はなす!");
    // the text and the no-kanji marker stay; the repeatable parts drained
    let e2 = b2.build().unwrap();
    assert_eq!(e2.text, chars("はなす"));
    assert!(e2.no_kanji);
    assert!(e2.reading_string.is_empty());
}
