//! The database façade: one loaded store plus the conjugation engine,
//! answering `search` and `analyze`. Each query is a pure read.

use vstd::prelude::*;

use crate::codec::{entry_model, EntryM};
use crate::conjugation::{
    entry_from_templates, first_template_for, pair_of_template, template_model, Conjugations,
    TemplateM, Word,
};
use crate::elements::{KanjiCharacter, LexicalEntry};
use crate::entities::PartOfSpeech;
use crate::sets::Bits;
use crate::store::{lead_mem, LoadError, Store};
use crate::tables::{class_table_spec, class_templates, templates_model};
use crate::text::{chars_copy, chars_eq, is_prefix_at, starts_with_at};

verus! {

/// A stable sortable identifier of one search result.
#[derive(Clone, Copy, Debug, PartialEq, Eq, Structural)]
pub struct EntryResultKey {
    /// The entry's stable key.
    pub key: u64,
}

/// A stable sortable identifier of one analysis result: the entry and the
/// matched variant of it.
#[derive(Clone, Copy, Debug, PartialEq, Eq, Structural)]
pub struct EntryKey {
    /// The entry's stable key.
    pub entry: u64,
    /// Which literal form or conjugated form of the entry matched.
    pub variant: u64,
}

/// The ascending order on analysis keys.
pub open spec fn key_lt(a: EntryKey, b: EntryKey) -> bool {
    a.entry < b.entry || (a.entry == b.entry && a.variant < b.variant)
}

/// Result `a` ranks strictly before result `b`: longer matched strings
/// first, then ascending key.
pub open spec fn res_before(a: (EntryKey, Vec<char>), b: (EntryKey, Vec<char>)) -> bool {
    a.1@.len() > b.1@.len() || (a.1@.len() == b.1@.len() && key_lt(a.0, b.0))
}

/// The list is strictly ordered by descending matched length, then
/// ascending key.
pub open spec fn sorted_res(v: Seq<(EntryKey, Vec<char>)>) -> bool {
    forall|t: int, t2: int| 0 <= t < t2 < v.len() ==> res_before(#[trigger] v[t], #[trigger] v[t2])
}

/// A caller error: the required query text is missing.
#[derive(Clone, Copy, Debug, PartialEq, Eq, Structural)]
pub enum QueryError {
    /// No query text was supplied.
    MissingQuery,
}

/// What `search` returns: matching entries and matching character records.
pub struct SearchResult {
    /// Entries whose reading or kanji text equals the query.
    pub entries: Vec<(EntryResultKey, LexicalEntry)>,
    /// Character records of the query's characters.
    pub characters: Vec<KanjiCharacter>,
}

/// Entry `e` owns a kanji spelling or reading whose text is exactly `q`.
pub open spec fn entry_matches_exact(e: EntryM, q: Seq<char>) -> bool {
    (exists|j: int| 0 <= j < e.kanji.len() && (#[trigger] e.kanji[j]).text == q) || (exists|j: int|
        0 <= j < e.readings.len() && (#[trigger] e.readings[j]).text == q)
}

/// One returned search entry is a stored entry, under its own key, whose
/// reading or kanji text equals the query.
pub open spec fn result_entry_ok(store: Store, q: Seq<char>, te: (EntryResultKey, LexicalEntry)) -> bool {
    exists|i: int|
        {
            &&& 0 <= i < store.entries().len()
            &&& #[trigger] store.entries()[i] == entry_model(te.1)
            &&& store.entries()[i].key == te.0.key
            &&& entry_matches_exact(store.entries()[i], q)
        }
}

/// Every stored entry whose reading or kanji text equals the non-empty
/// query appears in the result.
pub open spec fn entries_complete(store: Store, q: Seq<char>, rs: Seq<(EntryResultKey, LexicalEntry)>) -> bool {
    forall|i: int|
        0 <= i < store.entries().len() && entry_matches_exact(#[trigger] store.entries()[i], q)
            && q.len() > 0 ==> exists|t: int|
            0 <= t < rs.len() && (#[trigger] rs[t]).0.key == store.entries()[i].key
}

/// One returned character record is stored and its literal occurs in the
/// query.
pub open spec fn result_character_ok(store: Store, q: Seq<char>, rec: KanjiCharacter) -> bool {
    (exists|i: int|
        0 <= i < store.characters().len() && #[trigger] store.characters()[i]
            == crate::codec::character_model(rec)) && q.contains(rec.literal)
}

/// Every query character with a stored record appears in the result.
pub open spec fn characters_complete(store: Store, q: Seq<char>, cs: Seq<KanjiCharacter>) -> bool {
    forall|j: int|
        0 <= j < q.len() && (exists|i: int|
            0 <= i < store.char_index@.len() && (#[trigger] store.char_index@[i]).0 == (
            #[trigger] q[j]) as u32) ==> exists|t: int|
            0 <= t < cs.len() && (#[trigger] cs[t]).literal == q[j]
}

/// Entry `e` carries class index `c` on one of its senses.
pub open spec fn entry_has_class(e: EntryM, c: u8) -> bool {
    exists|si: int| 0 <= si < e.senses.len() && (#[trigger] e.senses[si]).pos.has(c as int)
}

/// `wt` is a headword track of entry `e`: the text of one of its kanji
/// spellings or reading elements.
pub open spec fn word_text_of(e: EntryM, wt: Seq<char>) -> bool {
    (exists|j: int| 0 <= j < e.kanji.len() && (#[trigger] e.kanji[j]).text == wt) || (exists|j: int|
        0 <= j < e.readings.len() && (#[trigger] e.readings[j]).text == wt)
}

/// Template `t` writes surface form `s` on track `wt`: the declared stem
/// strip fits and the suffix follows the stem.
pub open spec fn template_writes(t: TemplateM, wt: Seq<char>, s: Seq<char>) -> bool {
    t.strip_text <= wt.len() && s == wt.take(wt.len() - t.strip_text) + t.suffix_text
}

/// Some template of the class's table writes `s` on track `wt`.
pub open spec fn class_surface(pos: PartOfSpeech, wt: Seq<char>, s: Seq<char>) -> bool {
    exists|m: int|
        0 <= m < class_table_spec(pos).len() && template_writes(
            #[trigger] class_table_spec(pos)[m],
            wt,
            s,
        )
}

/// `s` is a conjugated surface form of entry `e`: a class of one of its
/// senses owns a template writing `s` on one of its headword tracks.
pub open spec fn conjugated_surface(e: EntryM, s: Seq<char>) -> bool {
    exists|wt: Seq<char>, c: u8|
        #![trigger word_text_of(e, wt), entry_has_class(e, c)]
        {
            &&& word_text_of(e, wt)
            &&& c < 128
            &&& entry_has_class(e, c)
            &&& match PartOfSpeech::from_idx(c) {
                Some(pos) => class_surface(pos, wt, s),
                None => false,
            }
        }
}

/// `s` is a literal or conjugated surface form of the stored entry under
/// key `k`.
pub open spec fn surface_of(store: Store, k: u64, s: Seq<char>) -> bool {
    exists|i: int|
        0 <= i < store.entries().len() && (#[trigger] store.entries()[i]).key == k && (
        entry_matches_exact(store.entries()[i], s) || conjugated_surface(store.entries()[i], s))
}

/// One analysis result is sound: a non-empty true prefix of the text at
/// `start`, and a surface form of the stored entry it names.
pub open spec fn result_ok(
    store: Store,
    text: Seq<char>,
    start: int,
    item: (EntryKey, Vec<char>),
) -> bool {
    &&& item.1@.len() > 0
    &&& is_prefix_at(item.1@, text, start)
    &&& surface_of(store, item.0.entry, item.1@)
}

/// The database: one immutable store shared by every reader.
pub struct Database {
    /// The loaded store.
    pub store: Store,
}

impl Database {
    /// The store is validated.
    pub open spec fn wf(self) -> bool {
        self.store.wf()
    }

    /// Load a database from one immutable byte buffer.
    pub fn new(buf: Vec<u8>) -> (r: Result<Database, LoadError>)
        ensures
            r is Ok <==> crate::store::loadable(buf@),
            r matches Ok(d) ==> d.wf() && d.store.entries() == crate::store::dec_dataset(
                buf@,
            )->Some_0.entries && d.store.characters() == crate::store::dec_dataset(
                buf@,
            )->Some_0.characters,
    {
        match crate::store::load(buf) {
            Err(e) => Err(e),
            Ok(store) => Ok(Database { store }),
        }
    }

    /// Look up the query text: entries whose reading or kanji text equals
    /// it, and the character records of its characters. Duplicate-free in
    /// both parts; an empty query matches nothing.
    pub fn search(&self, q: &Vec<char>) -> (r: SearchResult)
        requires
            self.wf(),
        ensures
            forall|t: int|
                0 <= t < r.entries@.len() ==> result_entry_ok(
                    self.store,
                    q@,
                    #[trigger] r.entries@[t],
                ),
            entries_complete(self.store, q@, r.entries@),
            forall|t: int, t2: int|
                0 <= t < t2 < r.entries@.len() ==> (#[trigger] r.entries@[t]).0.key != (
                #[trigger] r.entries@[t2]).0.key,
            forall|t: int|
                0 <= t < r.characters@.len() ==> result_character_ok(
                    self.store,
                    q@,
                    #[trigger] r.characters@[t],
                ),
            characters_complete(self.store, q@, r.characters@),
            forall|t: int, t2: int|
                0 <= t < t2 < r.characters@.len() ==> (#[trigger] r.characters@[t]).literal != (
                #[trigger] r.characters@[t2]).literal,
    {
        let entries = self.search_entries(q);
        let characters = self.search_characters(q);
        SearchResult { entries, characters }
    }

    /// The entry part of one search.
    fn search_entries(&self, q: &Vec<char>) -> (r: Vec<(EntryResultKey, LexicalEntry)>)
        requires
            self.wf(),
        ensures
            forall|t: int|
                0 <= t < r@.len() ==> result_entry_ok(self.store, q@, #[trigger] r@[t]),
            entries_complete(self.store, q@, r@),
            forall|t: int, t2: int|
                0 <= t < t2 < r@.len() ==> (#[trigger] r@[t]).0.key != (#[trigger] r@[t2]).0.key,
    {
        let mut entries: Vec<(EntryResultKey, LexicalEntry)> = Vec::new();
        if q.len() == 0 {
            return entries;
        }
        let ks = self.store.lead_keys(q[0]);
        let mut m: usize = 0;
        while m < ks.len()
            invariant
                self.wf(),
                m <= ks@.len(),
                q@.len() > 0,
                forall|a: int, b: int| 0 <= a < b < ks@.len() ==> ks@[a] != ks@[b],
                forall|mm: int|
                    0 <= mm < ks@.len() ==> lead_mem(
                        self.store.lead_index@,
                        q@[0] as u32,
                        #[trigger] ks@[mm],
                    ),
                forall|t: int|
                    0 <= t < entries@.len() ==> exists|mm: int|
                        0 <= mm < m && ks@[mm] == (#[trigger] entries@[t]).0.key,
                forall|t: int|
                    0 <= t < entries@.len() ==> result_entry_ok(
                        self.store,
                        q@,
                        #[trigger] entries@[t],
                    ),
                forall|i: int|
                    0 <= i < self.store.entries().len() && entry_matches_exact(
                        #[trigger] self.store.entries()[i],
                        q@,
                    ) && (exists|mm: int|
                        0 <= mm < m && ks@[mm] == self.store.entries()[i].key) ==> exists|t: int|
                        0 <= t < entries@.len() && (#[trigger] entries@[t]).0.key
                            == self.store.entries()[i].key,
                forall|t: int, t2: int|
                    0 <= t < t2 < entries@.len() ==> (#[trigger] entries@[t]).0.key != (
                    #[trigger] entries@[t2]).0.key,
            decreases ks@.len() - m,
        {
            let key = ks[m];
            proof {
                assert(lead_mem(self.store.lead_index@, q@[0] as u32, ks@[m as int]));
                let (a, mq) = choose|a: int, mq: int|
                    0 <= a < self.store.lead_index@.len() && self.store.lead_index@[a].0 == q@[0]
                        as u32 && 0 <= mq < self.store.lead_index@[a].1@.len()
                        && self.store.lead_index@[a].1@[mq] == ks@[m as int];
                assert(self.store.has_entry_key(self.store.lead_index@[a].1@[mq]));
            }
            let ghost entries0 = entries@;
            proof {
                assert forall|t: int|
                    0 <= t < entries@.len() implies (#[trigger] entries@[t]).0.key != key by {
                    let mm = choose|mm: int| 0 <= mm < m && ks@[mm] == entries0[t].0.key;
                    assert(ks@[mm] != ks@[m as int]);
                }
            }
            let pushed = self.collect_match(key, q, &mut entries);
            proof {
                assert forall|t: int|
                    0 <= t < entries@.len() implies exists|mm: int|
                    0 <= mm < m + 1 && ks@[mm] == (#[trigger] entries@[t]).0.key by {
                    if t < entries0.len() {
                        assert(entries@[t] == entries0[t]);
                        let mm = choose|mm: int| 0 <= mm < m && ks@[mm] == entries0[t].0.key;
                        assert(ks@[mm] == entries@[t].0.key);
                    } else {
                        assert(entries@[t].0.key == ks@[m as int]);
                    }
                }
                assert forall|i: int|
                    0 <= i < self.store.entries().len() && entry_matches_exact(
                        #[trigger] self.store.entries()[i],
                        q@,
                    ) && (exists|mm: int|
                        0 <= mm < m + 1 && ks@[mm] == self.store.entries()[i].key) implies exists|
                    t: int,
                |
                    0 <= t < entries@.len() && (#[trigger] entries@[t]).0.key
                        == self.store.entries()[i].key by {
                    let mm = choose|mm: int|
                        0 <= mm < m + 1 && ks@[mm] == self.store.entries()[i].key;
                    if mm == m as int {
                        assert(pushed);
                        assert(entries@[entries@.len() - 1].0.key == key);
                    } else {
                        let t = choose|t: int|
                            0 <= t < entries0.len() && (#[trigger] entries0[t]).0.key
                                == self.store.entries()[i].key;
                        assert(entries@[t].0.key == self.store.entries()[i].key);
                    }
                }
            }
            m += 1;
        }
        proof {
            assert forall|i: int|
                0 <= i < self.store.entries().len() && entry_matches_exact(
                    #[trigger] self.store.entries()[i],
                    q@,
                ) && q@.len() > 0 implies exists|t: int|
                0 <= t < entries@.len() && (#[trigger] entries@[t]).0.key
                    == self.store.entries()[i].key by {
                let e = self.store.entries()[i];
                if exists|j: int| 0 <= j < e.kanji.len() && (#[trigger] e.kanji[j]).text == q@ {
                    let j = choose|j: int|
                        0 <= j < e.kanji.len() && (#[trigger] e.kanji[j]).text == q@;
                    assert(e.kanji[j].text[0] == q@[0]);
                    assert(Store::entry_has_lead(e, q@[0] as u32));
                } else {
                    let j = choose|j: int|
                        0 <= j < e.readings.len() && (#[trigger] e.readings[j]).text == q@;
                    assert(e.readings[j].text[0] == q@[0]);
                    assert(Store::entry_has_lead(e, q@[0] as u32));
                }
                assert(lead_mem(
                    self.store.lead_index@,
                    q@[0] as u32,
                    self.store.entry_index@[i].0,
                ));
            }
        }
        entries
    }

    /// Fetch the entry of `key` and append it exactly when its reading or
    /// kanji text equals the query.
    fn collect_match(
        &self,
        key: u64,
        q: &Vec<char>,
        entries: &mut Vec<(EntryResultKey, LexicalEntry)>,
    ) -> (pushed: bool)
        requires
            self.wf(),
            self.store.has_entry_key(key),
        ensures
            pushed ==> final(entries)@ == old(entries)@.push(final(entries)@.last())
                && final(entries)@.last().0.key == key && result_entry_ok(
                self.store,
                q@,
                final(entries)@.last(),
            ),
            !pushed ==> final(entries)@ == old(entries)@,
            pushed <==> exists|i: int|
                0 <= i < self.store.entries().len() && (#[trigger] self.store.entries()[i]).key
                    == key && entry_matches_exact(self.store.entries()[i], q@),
    {
        match self.store.entry(key) {
            None => {
                proof {
                    assert(false);
                }
                false
            },
            Some(e) => {
                let ghost i = choose|i: int|
                    0 <= i < self.store.entries().len() && self.store.entries()[i] == entry_model(
                        e,
                    ) && entry_model(e).key == key;
                let matched = entry_text_match(&e, q);
                if matched {
                    entries.push((EntryResultKey { key }, e));
                    proof {
                        assert(entries@ =~= old(entries)@.push(entries@.last()));
                    }
                    true
                } else {
                    proof {
                        assert forall|i2: int|
                            0 <= i2 < self.store.entries().len() && (
                            #[trigger] self.store.entries()[i2]).key == key implies
                            !entry_matches_exact(self.store.entries()[i2], q@) by {
                            assert(self.store.entries()[i2].key == self.store.entry_index@[i2].0);
                            assert(self.store.entries()[i].key == self.store.entry_index@[i].0);
                            assert(i2 == i) by {
                                if i2 < i {
                                    assert(self.store.entry_index@[i2].0
                                        < self.store.entry_index@[i].0);
                                } else if i < i2 {
                                    assert(self.store.entry_index@[i].0
                                        < self.store.entry_index@[i2].0);
                                }
                            }
                        }
                    }
                    false
                }
            },
        }
    }

    /// The character part of one search.
    fn search_characters(&self, q: &Vec<char>) -> (r: Vec<KanjiCharacter>)
        requires
            self.wf(),
        ensures
            forall|t: int|
                0 <= t < r@.len() ==> result_character_ok(self.store, q@, #[trigger] r@[t]),
            characters_complete(self.store, q@, r@),
            forall|t: int, t2: int|
                0 <= t < t2 < r@.len() ==> (#[trigger] r@[t]).literal != (
                #[trigger] r@[t2]).literal,
    {
        let mut characters: Vec<KanjiCharacter> = Vec::new();
        let mut j: usize = 0;
        while j < q.len()
            invariant
                self.wf(),
                j <= q@.len(),
                forall|t: int|
                    0 <= t < characters@.len() ==> result_character_ok(
                        self.store,
                        q@,
                        #[trigger] characters@[t],
                    ),
                forall|j2: int|
                    0 <= j2 < j && (exists|i: int|
                        0 <= i < self.store.char_index@.len() && (
                        #[trigger] self.store.char_index@[i]).0 == (#[trigger] q@[j2]) as u32)
                        ==> exists|t: int|
                        0 <= t < characters@.len() && (#[trigger] characters@[t]).literal
                            == q@[j2],
                forall|t: int, t2: int|
                    0 <= t < t2 < characters@.len() ==> (#[trigger] characters@[t]).literal != (
                    #[trigger] characters@[t2]).literal,
            decreases q@.len() - j,
        {
            let c = q[j];
            match self.store.character(c) {
                None => {},
                Some(rec) => {
                    if !characters_contain(&characters, c) {
                        let ghost characters0 = characters@;
                        proof {
                            assert(q@.contains(q@[j as int]));
                            assert(crate::codec::character_model(rec).literal == c);
                            assert(rec.literal == c);
                        }
                        characters.push(rec);
                        proof {
                            assert(characters@ =~= characters0.push(rec));
                            assert(result_character_ok(self.store, q@, rec));
                            assert forall|j2: int|
                                0 <= j2 < j + 1 && (exists|i: int|
                                    0 <= i < self.store.char_index@.len() && (
                                    #[trigger] self.store.char_index@[i]).0 == (
                                    #[trigger] q@[j2]) as u32) implies exists|t: int|
                                0 <= t < characters@.len() && (#[trigger] characters@[t]).literal
                                    == q@[j2] by {
                                if j2 < j {
                                    let t = choose|t: int|
                                        0 <= t < characters0.len() && (
                                        #[trigger] characters0[t]).literal == q@[j2];
                                    assert(characters@[t].literal == q@[j2]);
                                } else {
                                    assert(characters@[characters@.len() - 1].literal == q@[j2]);
                                }
                            }
                        }
                    } else {
                        proof {
                            let t = choose|t: int|
                                0 <= t < characters@.len() && (#[trigger] characters@[t]).literal
                                    == c;
                            assert(characters@[t].literal == q@[j as int]);
                        }
                    }
                },
            }
            proof {
                assert(q@.contains(q@[j as int]));
            }
            j += 1;
        }
        characters
    }

    /// Segment the text at `start`: every literal or conjugated surface
    /// form of an index-reachable entry that is a non-empty prefix of
    /// `text[start..]`, strictly ordered by descending matched length and
    /// then ascending key.
    pub fn analyze(&self, text: &Vec<char>, start: usize) -> (r: Vec<(EntryKey, Vec<char>)>)
        requires
            self.wf(),
        ensures
            forall|t: int|
                0 <= t < r@.len() ==> result_ok(
                    self.store,
                    text@,
                    start as int,
                    #[trigger] r@[t],
                ),
            sorted_res(r@),
    {
        let mut res: Vec<(EntryKey, Vec<char>)> = Vec::new();
        if start >= text.len() {
            return res;
        }
        let ks = self.store.lead_keys(text[start]);
        let mut m: usize = 0;
        while m < ks.len()
            invariant
                self.wf(),
                m <= ks@.len(),
                start < text@.len(),
                forall|a: int, b: int| 0 <= a < b < ks@.len() ==> ks@[a] != ks@[b],
                forall|mm: int|
                    0 <= mm < ks@.len() ==> lead_mem(
                        self.store.lead_index@,
                        text@[start as int] as u32,
                        #[trigger] ks@[mm],
                    ),
                sorted_res(res@),
                forall|t: int|
                    0 <= t < res@.len() ==> result_ok(
                        self.store,
                        text@,
                        start as int,
                        #[trigger] res@[t],
                    ),
                forall|t: int|
                    0 <= t < res@.len() ==> exists|mm: int|
                        0 <= mm < m && ks@[mm] == (#[trigger] res@[t]).0.entry,
                forall|t: int, t2: int|
                    0 <= t < t2 < res@.len() ==> (#[trigger] res@[t]).0 != (#[trigger] res@[t2]).0,
            decreases ks@.len() - m,
        {
            let key = ks[m];
            proof {
                assert(lead_mem(self.store.lead_index@, text@[start as int] as u32, ks@[m as int]));
                let (a, mq) = choose|a: int, mq: int|
                    0 <= a < self.store.lead_index@.len() && self.store.lead_index@[a].0 == (text@[start as int] as u32) && 0 <= mq < self.store.lead_index@[a].1@.len()
                        && self.store.lead_index@[a].1@[mq] == ks@[m as int];
                assert(self.store.has_entry_key(self.store.lead_index@[a].1@[mq]));
            }
            let ghost res0 = res@;
            proof {
                assert forall|t: int|
                    0 <= t < res@.len() implies (#[trigger] res@[t]).0.entry != key by {
                    let mm = choose|mm: int| 0 <= mm < m && ks@[mm] == res0[t].0.entry;
                    assert(ks@[mm] != ks@[m as int]);
                }
            }
            self.collect_candidates(key, text, start, &mut res);
            proof {
                assert forall|t: int|
                    0 <= t < res@.len() implies exists|mm: int|
                    0 <= mm < m + 1 && ks@[mm] == (#[trigger] res@[t]).0.entry by {
                    if exists|t0: int| 0 <= t0 < res0.len() && res@[t] == res0[t0] {
                        let t0 = choose|t0: int| 0 <= t0 < res0.len() && res@[t] == res0[t0];
                        let mm = choose|mm: int| 0 <= mm < m && ks@[mm] == res0[t0].0.entry;
                        assert(ks@[mm] == res@[t].0.entry);
                    } else {
                        assert(res@[t].0.entry == ks@[m as int]);
                    }
                }
            }
            m += 1;
        }
        res
    }

    /// Gather every literal and conjugated prefix match of one entry.
    fn collect_candidates(
        &self,
        key: u64,
        text: &Vec<char>,
        start: usize,
        res: &mut Vec<(EntryKey, Vec<char>)>,
    )
        requires
            self.wf(),
            self.store.has_entry_key(key),
            sorted_res(old(res)@),
            forall|t: int|
                0 <= t < old(res)@.len() ==> result_ok(
                    self.store,
                    text@,
                    start as int,
                    #[trigger] old(res)@[t],
                ),
            forall|t: int| 0 <= t < old(res)@.len() ==> (#[trigger] old(res)@[t]).0.entry != key,
            forall|t: int, t2: int|
                0 <= t < t2 < old(res)@.len() ==> (#[trigger] old(res)@[t]).0 != (
                #[trigger] old(res)@[t2]).0,
        ensures
            sorted_res(final(res)@),
            forall|t: int|
                0 <= t < final(res)@.len() ==> result_ok(
                    self.store,
                    text@,
                    start as int,
                    #[trigger] final(res)@[t],
                ),
            forall|t: int|
                0 <= t < final(res)@.len() ==> (exists|t0: int|
                    0 <= t0 < old(res)@.len() && final(res)@[t] == old(res)@[t0]) || (
                #[trigger] final(res)@[t]).0.entry == key,
            forall|t: int, t2: int|
                0 <= t < t2 < final(res)@.len() ==> (#[trigger] final(res)@[t]).0 != (
                #[trigger] final(res)@[t2]).0,
    {
        let e = match self.store.entry(key) {
            None => {
                proof {
                    assert(false);
                }
                vstd::pervasive::unreached()
            },
            Some(e) => e,
        };
        let ghost ei = choose|ei: int|
            0 <= ei < self.store.entries().len() && self.store.entries()[ei] == entry_model(e)
                && entry_model(e).key == key;
        let ghost em = entry_model(e);
        let mut vcount: u64 = 0;
        // literal kanji spellings
        let mut j: usize = 0;
        while j < e.kanji.len()
            invariant
                self.wf(),
                j <= e.kanji@.len(),
                0 <= ei < self.store.entries().len(),
                self.store.entries()[ei] == em,
                em == entry_model(e),
                em.key == key,
                sorted_res(res@),
                forall|t: int|
                    0 <= t < res@.len() ==> result_ok(
                        self.store,
                        text@,
                        start as int,
                        #[trigger] res@[t],
                    ),
                forall|t: int|
                    0 <= t < res@.len() ==> (exists|t0: int|
                        0 <= t0 < old(res)@.len() && res@[t] == old(res)@[t0]) || (
                    #[trigger] res@[t]).0.entry == key,
                forall|t: int, t2: int|
                    0 <= t < t2 < res@.len() ==> (#[trigger] res@[t]).0 != (#[trigger] res@[t2]).0,
                forall|t: int|
                    0 <= t < res@.len() ==> (#[trigger] res@[t]).0.entry != key || res@[t].0.variant < vcount,
                forall|t: int| 0 <= t < old(res)@.len() ==> (#[trigger] old(res)@[t]).0.entry != key,
            decreases e.kanji@.len() - j,
        {
            let txt = &e.kanji[j].text;
            if txt.len() > 0 && starts_with_at(text, start, txt) && vcount < u64::MAX {
                let s = chars_copy(txt);
                proof {
                    assert(em.kanji[j as int] == crate::codec::kanji_elem_model(
                        e.kanji@[j as int],
                    ));
                    assert(em.kanji[j as int].text == s@);
                    assert(entry_matches_exact(em, s@));
                    assert(surface_of(self.store, key, s@));
                }
                push_candidate(res, EntryKey { entry: key, variant: vcount }, s, Ghost(self.store), Ghost(text@), Ghost(start as int), Ghost(key), Ghost(vcount));
                vcount = vcount + 1;
            }
            j += 1;
        }
        // literal readings
        let mut j2: usize = 0;
        while j2 < e.readings.len()
            invariant
                self.wf(),
                j2 <= e.readings@.len(),
                0 <= ei < self.store.entries().len(),
                self.store.entries()[ei] == em,
                em == entry_model(e),
                em.key == key,
                sorted_res(res@),
                forall|t: int|
                    0 <= t < res@.len() ==> result_ok(
                        self.store,
                        text@,
                        start as int,
                        #[trigger] res@[t],
                    ),
                forall|t: int|
                    0 <= t < res@.len() ==> (exists|t0: int|
                        0 <= t0 < old(res)@.len() && res@[t] == old(res)@[t0]) || (
                    #[trigger] res@[t]).0.entry == key,
                forall|t: int, t2: int|
                    0 <= t < t2 < res@.len() ==> (#[trigger] res@[t]).0 != (#[trigger] res@[t2]).0,
                forall|t: int|
                    0 <= t < res@.len() ==> (#[trigger] res@[t]).0.entry != key || res@[t].0.variant < vcount,
                forall|t: int| 0 <= t < old(res)@.len() ==> (#[trigger] old(res)@[t]).0.entry != key,
            decreases e.readings@.len() - j2,
        {
            let txt = &e.readings[j2].text;
            if txt.len() > 0 && starts_with_at(text, start, txt) && vcount < u64::MAX {
                let s = chars_copy(txt);
                proof {
                    assert(em.readings[j2 as int] == crate::codec::reading_model(
                        e.readings@[j2 as int],
                    ));
                    assert(em.readings[j2 as int].text == s@);
                    assert(entry_matches_exact(em, s@));
                    assert(surface_of(self.store, key, s@));
                }
                push_candidate(res, EntryKey { entry: key, variant: vcount }, s, Ghost(self.store), Ghost(text@), Ghost(start as int), Ghost(key), Ghost(vcount));
                vcount = vcount + 1;
            }
            j2 += 1;
        }
        // the entry's classes: the union of its senses' part-of-speech sets
        let mut cls = Bits::empty();
        let mut si: usize = 0;
        while si < e.senses.len()
            invariant
                si <= e.senses@.len(),
                em == entry_model(e),
                forall|b: int|
                    cls.has(b) <==> exists|s2: int|
                        0 <= s2 < si && (#[trigger] em.senses[s2]).pos.has(b),
            decreases e.senses@.len() - si,
        {
            let ghost cls0 = cls;
            cls = cls.union(e.senses[si].pos);
            proof {
                assert forall|b: int|
                    cls.has(b) <==> exists|s2: int|
                        0 <= s2 < si + 1 && (#[trigger] em.senses[s2]).pos.has(b) by {
                    assert(em.senses[si as int] == crate::codec::sense_model(
                        e.senses@[si as int],
                    ));
                    assert(em.senses[si as int].pos == e.senses@[si as int].pos);
                    if cls.has(b) {
                        if cls0.has(b) {
                            let s2 = choose|s2: int|
                                0 <= s2 < si && (#[trigger] em.senses[s2]).pos.has(b);
                            assert(em.senses[s2].pos.has(b));
                        } else {
                            assert(em.senses[si as int].pos.has(b));
                        }
                    }
                    if exists|s2: int| 0 <= s2 < si + 1 && (#[trigger] em.senses[s2]).pos.has(b) {
                        let s2 = choose|s2: int|
                            0 <= s2 < si + 1 && (#[trigger] em.senses[s2]).pos.has(b);
                        if s2 < si {
                            assert(cls0.has(b));
                        }
                    }
                }
            }
            si += 1;
        }
        // conjugated forms of every class over every headword track
        let mut cbit: u8 = 0;
        while cbit < 128
            invariant
                self.wf(),
                cbit <= 128,
                0 <= ei < self.store.entries().len(),
                self.store.entries()[ei] == em,
                em == entry_model(e),
                em.key == key,
                forall|b: int|
                    cls.has(b) <==> exists|s2: int|
                        0 <= s2 < em.senses.len() && (#[trigger] em.senses[s2]).pos.has(b),
                sorted_res(res@),
                forall|t: int|
                    0 <= t < res@.len() ==> result_ok(
                        self.store,
                        text@,
                        start as int,
                        #[trigger] res@[t],
                    ),
                forall|t: int|
                    0 <= t < res@.len() ==> (exists|t0: int|
                        0 <= t0 < old(res)@.len() && res@[t] == old(res)@[t0]) || (
                    #[trigger] res@[t]).0.entry == key,
                forall|t: int, t2: int|
                    0 <= t < t2 < res@.len() ==> (#[trigger] res@[t]).0 != (#[trigger] res@[t2]).0,
                forall|t: int|
                    0 <= t < res@.len() ==> (#[trigger] res@[t]).0.entry != key || res@[t].0.variant < vcount,
                forall|t: int| 0 <= t < old(res)@.len() ==> (#[trigger] old(res)@[t]).0.entry != key,
            decreases 128 - cbit,
        {
            if cls.contains(cbit) {
                match PartOfSpeech::from_index(cbit) {
                    None => {},
                    Some(pos) => {
                        proof {
                            assert(entry_has_class(em, cbit));
                        }
                        let mut j3: usize = 0;
                        while j3 < e.kanji.len()
                            invariant
                                self.wf(),
                                j3 <= e.kanji@.len(),
                                0 <= ei < self.store.entries().len(),
                                self.store.entries()[ei] == em,
                                em == entry_model(e),
                                em.key == key,
                                cbit < 128,
                                entry_has_class(em, cbit),
                                PartOfSpeech::from_idx(cbit) == Some(pos),
                                sorted_res(res@),
                                forall|t: int|
                                    0 <= t < res@.len() ==> result_ok(
                                        self.store,
                                        text@,
                                        start as int,
                                        #[trigger] res@[t],
                                    ),
                                forall|t: int|
                                    0 <= t < res@.len() ==> (exists|t0: int|
                                        0 <= t0 < old(res)@.len() && res@[t] == old(res)@[t0]) || (
                                    #[trigger] res@[t]).0.entry == key,
                                forall|t: int, t2: int|
                                    0 <= t < t2 < res@.len() ==> (#[trigger] res@[t]).0 != (
                                    #[trigger] res@[t2]).0,
                                forall|t: int|
                                    0 <= t < res@.len() ==> (#[trigger] res@[t]).0.entry != key
                                        || res@[t].0.variant < vcount,
                                forall|t: int|
                                    0 <= t < old(res)@.len() ==> (#[trigger] old(res)@[t]).0.entry != key,
                            decreases e.kanji@.len() - j3,
                        {
                            if e.kanji[j3].text.len() > 0 {
                                let w = Word {
                                    text: chars_copy(&e.kanji[j3].text),
                                    reading: chars_copy(&e.kanji[j3].text),
                                };
                                proof {
                                    assert(em.kanji[j3 as int] == crate::codec::kanji_elem_model(
                                        e.kanji@[j3 as int],
                                    ));
                                    assert(em.kanji[j3 as int].text == w.text@);
                                    assert(word_text_of(em, w.text@));
                                }
                                self.conj_candidates(
                                    key,
                                    Ghost(em),
                                    Ghost(ei),
                                    w,
                                    pos,
                                    Ghost(cbit),
                                    text,
                                    start,
                                    &mut vcount,
                                    res,
                                );
                            }
                            j3 += 1;
                        }
                        let mut j4: usize = 0;
                        while j4 < e.readings.len()
                            invariant
                                self.wf(),
                                j4 <= e.readings@.len(),
                                0 <= ei < self.store.entries().len(),
                                self.store.entries()[ei] == em,
                                em == entry_model(e),
                                em.key == key,
                                cbit < 128,
                                entry_has_class(em, cbit),
                                PartOfSpeech::from_idx(cbit) == Some(pos),
                                sorted_res(res@),
                                forall|t: int|
                                    0 <= t < res@.len() ==> result_ok(
                                        self.store,
                                        text@,
                                        start as int,
                                        #[trigger] res@[t],
                                    ),
                                forall|t: int|
                                    0 <= t < res@.len() ==> (exists|t0: int|
                                        0 <= t0 < old(res)@.len() && res@[t] == old(res)@[t0]) || (
                                    #[trigger] res@[t]).0.entry == key,
                                forall|t: int, t2: int|
                                    0 <= t < t2 < res@.len() ==> (#[trigger] res@[t]).0 != (
                                    #[trigger] res@[t2]).0,
                                forall|t: int|
                                    0 <= t < res@.len() ==> (#[trigger] res@[t]).0.entry != key
                                        || res@[t].0.variant < vcount,
                                forall|t: int|
                                    0 <= t < old(res)@.len() ==> (#[trigger] old(res)@[t]).0.entry != key,
                            decreases e.readings@.len() - j4,
                        {
                            if e.readings[j4].text.len() > 0 {
                                let w = Word {
                                    text: chars_copy(&e.readings[j4].text),
                                    reading: chars_copy(&e.readings[j4].text),
                                };
                                proof {
                                    assert(em.readings[j4 as int] == crate::codec::reading_model(
                                        e.readings@[j4 as int],
                                    ));
                                    assert(em.readings[j4 as int].text == w.text@);
                                    assert(word_text_of(em, w.text@));
                                }
                                self.conj_candidates(
                                    key,
                                    Ghost(em),
                                    Ghost(ei),
                                    w,
                                    pos,
                                    Ghost(cbit),
                                    text,
                                    start,
                                    &mut vcount,
                                    res,
                                );
                            }
                            j4 += 1;
                        }
                    },
                }
            }
            cbit += 1;
        }
    }

    /// Conjugate one headword track under one class and gather its
    /// prefix-matching surface forms.
    fn conj_candidates(
        &self,
        key: u64,
        Ghost(em): Ghost<EntryM>,
        Ghost(ei): Ghost<int>,
        w: Word,
        pos: PartOfSpeech,
        Ghost(cbit): Ghost<u8>,
        text: &Vec<char>,
        start: usize,
        vcount: &mut u64,
        res: &mut Vec<(EntryKey, Vec<char>)>,
    )
        requires
            self.wf(),
            0 <= ei < self.store.entries().len(),
            self.store.entries()[ei] == em,
            em.key == key,
            cbit < 128,
            entry_has_class(em, cbit),
            PartOfSpeech::from_idx(cbit) == Some(pos),
            word_text_of(em, w.text@),
            sorted_res(old(res)@),
            forall|t: int|
                0 <= t < old(res)@.len() ==> result_ok(
                    self.store,
                    text@,
                    start as int,
                    #[trigger] old(res)@[t],
                ),
            forall|t: int, t2: int|
                0 <= t < t2 < old(res)@.len() ==> (#[trigger] old(res)@[t]).0 != (
                #[trigger] old(res)@[t2]).0,
            forall|t: int|
                0 <= t < old(res)@.len() ==> (#[trigger] old(res)@[t]).0.entry != key || old(res)@[t].0.variant < *old(vcount),
        ensures
            sorted_res(final(res)@),
            forall|t: int|
                0 <= t < final(res)@.len() ==> result_ok(
                    self.store,
                    text@,
                    start as int,
                    #[trigger] final(res)@[t],
                ),
            forall|t: int|
                0 <= t < final(res)@.len() ==> (exists|t0: int|
                    0 <= t0 < old(res)@.len() && final(res)@[t] == old(res)@[t0]) || (
                #[trigger] final(res)@[t]).0.entry == key,
            forall|t: int, t2: int|
                0 <= t < t2 < final(res)@.len() ==> (#[trigger] final(res)@[t]).0 != (
                #[trigger] final(res)@[t2]).0,
            forall|t: int|
                0 <= t < final(res)@.len() ==> (#[trigger] final(res)@[t]).0.entry != key
                    || final(res)@[t].0.variant < *final(vcount),
            *final(vcount) >= *old(vcount),
    {
        let templates = class_templates(pos);
        let ghost wtext = w.text@;
        let conj = Conjugations::build(w, &templates);
        let mut ci: usize = 0;
        while ci < conj.conjugations.len()
            invariant
                self.wf(),
                ci <= conj.conjugations@.len(),
                0 <= ei < self.store.entries().len(),
                self.store.entries()[ei] == em,
                em.key == key,
                cbit < 128,
                entry_has_class(em, cbit),
                PartOfSpeech::from_idx(cbit) == Some(pos),
                word_text_of(em, wtext),
                templates_model(templates@) == class_table_spec(pos),
                conj.dictionary.text@ == wtext,
                forall|i: int|
                    0 <= i < conj.conjugations@.len() ==> entry_from_templates(
                        templates@,
                        conj.dictionary,
                        #[trigger] conj.conjugations@[i],
                    ),
                sorted_res(res@),
                forall|t: int|
                    0 <= t < res@.len() ==> result_ok(
                        self.store,
                        text@,
                        start as int,
                        #[trigger] res@[t],
                    ),
                forall|t: int|
                    0 <= t < res@.len() ==> (exists|t0: int|
                        0 <= t0 < old(res)@.len() && res@[t] == old(res)@[t0]) || (
                    #[trigger] res@[t]).0.entry == key,
                forall|t: int, t2: int|
                    0 <= t < t2 < res@.len() ==> (#[trigger] res@[t]).0 != (#[trigger] res@[t2]).0,
                forall|t: int|
                    0 <= t < res@.len() ==> (#[trigger] res@[t]).0.entry != key || res@[t].0.variant < *vcount,
                *vcount >= *old(vcount),
            decreases conj.conjugations@.len() - ci,
        {
            let s = conj.conjugations[ci].1.text();
            if s.len() > 0 && starts_with_at(text, start, &s) && *vcount < u64::MAX {
                proof {
                    assert(entry_from_templates(
                        templates@,
                        conj.dictionary,
                        conj.conjugations@[ci as int],
                    ));
                    let m = choose|m: int|
                        #[trigger] first_template_for(
                            templates@,
                            conj.dictionary,
                            conj.conjugations@[ci as int].0,
                            m,
                        ) && pair_of_template(
                            templates@[m],
                            conj.dictionary,
                            conj.conjugations@[ci as int].1,
                        );
                    let tmpl = templates@[m];
                    assert(s@ == wtext.take(wtext.len() - tmpl.strip_text) + tmpl.suffix_text@);
                    assert(class_table_spec(pos)[m] == templates_model(templates@)[m]);
                    assert(templates_model(templates@)[m] == template_model(tmpl));
                    assert(template_writes(template_model(tmpl), wtext, s@));
                    assert(class_surface(pos, wtext, s@));
                    assert(conjugated_surface(em, s@));
                    assert(surface_of(self.store, key, s@));
                }
                push_candidate(res, EntryKey { entry: key, variant: *vcount }, s, Ghost(self.store), Ghost(text@), Ghost(start as int), Ghost(key), Ghost(*vcount));
                *vcount = *vcount + 1;
            }
            ci += 1;
        }
    }
}

/// Insert one sound candidate into the ordered results, keeping the strict
/// order and the candidate bookkeeping.
fn push_candidate(
    res: &mut Vec<(EntryKey, Vec<char>)>,
    ek: EntryKey,
    s: Vec<char>,
    Ghost(store): Ghost<Store>,
    Ghost(text): Ghost<Seq<char>>,
    Ghost(start): Ghost<int>,
    Ghost(key): Ghost<u64>,
    Ghost(vcount): Ghost<u64>,
)
    requires
        sorted_res(old(res)@),
        result_ok(store, text, start, (ek, s)),
        ek.entry == key,
        ek.variant == vcount,
        forall|t: int|
            0 <= t < old(res)@.len() ==> (#[trigger] old(res)@[t]).0.entry != key || old(res)@[t].0.variant < vcount,
        forall|t: int, t2: int|
            0 <= t < t2 < old(res)@.len() ==> (#[trigger] old(res)@[t]).0 != (#[trigger] old(res)@[t2]).0,
        forall|t: int|
            0 <= t < old(res)@.len() ==> result_ok(store, text, start, #[trigger] old(res)@[t]),
    ensures
        sorted_res(final(res)@),
        forall|t: int|
            0 <= t < final(res)@.len() ==> result_ok(store, text, start, #[trigger] final(res)@[t]),
        forall|t: int|
            0 <= t < final(res)@.len() ==> (exists|t0: int|
                0 <= t0 < old(res)@.len() && final(res)@[t] == old(res)@[t0]) || final(res)@[t]
                == (ek, s),
        forall|t: int, t2: int|
            0 <= t < t2 < final(res)@.len() ==> (#[trigger] final(res)@[t]).0 != (
            #[trigger] final(res)@[t2]).0,
        forall|t: int|
            0 <= t < final(res)@.len() ==> (#[trigger] final(res)@[t]).0.entry != key || final(res)@[t].0.variant < vcount + 1,
{
    let ghost v0 = res@;
    let ghost item = (ek, s);
    proof {
        assert forall|t: int| 0 <= t < v0.len() implies (#[trigger] v0[t]).0 != ek by {
            if v0[t].0.entry == key {
                assert(v0[t].0.variant < vcount);
            }
        }
    }
    let mut lo: usize = 0;
    let mut stop = false;
    while lo < res.len() && !stop
        invariant
            lo <= res@.len(),
            res@ == v0,
            item == (ek, s),
            sorted_res(v0),
            forall|t: int| 0 <= t < v0.len() ==> (#[trigger] v0[t]).0 != ek,
            forall|t: int| 0 <= t < lo ==> res_before(#[trigger] v0[t], item),
            stop ==> lo < v0.len() && res_before(item, v0[lo as int]),
        decreases v0.len() - lo + (if stop { 0int } else { 1int }),
    {
        if res_lt(&res[lo], &ek, &s) {
            lo += 1;
        } else {
            proof {
                // keys differ, so the order is total
                assert(v0[lo as int].0 != ek);
                assert(res_before(item, v0[lo as int]));
            }
            stop = true;
        }
    }
    proof {
        assert forall|t: int| lo <= t < v0.len() implies res_before(item, #[trigger] v0[t]) by {
            if t > lo {
                assert(res_before(v0[lo as int], v0[t]));
            }
        }
    }
    res.insert(lo, (ek, s));
    proof {
        let w = res@;
        assert(w == v0.insert(lo as int, item));
        assert forall|t: int, t2: int| 0 <= t < t2 < w.len() implies res_before(
            #[trigger] w[t],
            #[trigger] w[t2],
        ) by {
            if t2 < lo {
            } else if t < lo && t2 == lo {
            } else if t < lo && t2 > lo {
                assert(w[t] == v0[t] && w[t2] == v0[t2 - 1]);
            } else if t == lo {
                assert(w[t2] == v0[t2 - 1]);
            } else {
                assert(w[t] == v0[t - 1] && w[t2] == v0[t2 - 1]);
            }
        }
        assert forall|t: int|
            0 <= t < w.len() implies ((exists|t0: int| 0 <= t0 < v0.len() && w[t] == v0[t0])
            || w[t] == item) by {
            if t < lo {
                assert(w[t] == v0[t]);
            } else if t == lo {
            } else {
                assert(w[t] == v0[t - 1]);
            }
        }
        assert forall|t: int|
            0 <= t < w.len() implies result_ok(store, text, start, #[trigger] w[t]) by {
            if t < lo {
                assert(w[t] == v0[t]);
            } else if t == lo {
                assert(w[t] == item);
            } else {
                assert(w[t] == v0[t - 1]);
            }
        }
        assert forall|t: int, t2: int| 0 <= t < t2 < w.len() implies (#[trigger] w[t]).0 != (
        #[trigger] w[t2]).0 by {
            if t2 < lo {
            } else if t < lo && t2 == lo {
                assert(w[t] == v0[t]);
            } else if t < lo && t2 > lo {
                assert(w[t] == v0[t] && w[t2] == v0[t2 - 1]);
            } else if t == lo {
                assert(w[t2] == v0[t2 - 1]);
            } else {
                assert(w[t] == v0[t - 1] && w[t2] == v0[t2 - 1]);
            }
        }
        assert forall|t: int|
            0 <= t < w.len() implies (#[trigger] w[t]).0.entry != key || w[t].0.variant < vcount
            + 1 by {
            if t < lo {
                assert(w[t] == v0[t]);
            } else if t == lo {
            } else {
                assert(w[t] == v0[t - 1]);
            }
        }
    }
}

/// Does `a` rank strictly before the candidate `(ek, s)`?
fn res_lt(a: &(EntryKey, Vec<char>), ek: &EntryKey, s: &Vec<char>) -> (r: bool)
    ensures
        r == res_before(*a, (*ek, *s)),
{
    if a.1.len() > s.len() {
        true
    } else if a.1.len() == s.len() {
        if a.0.entry < ek.entry {
            true
        } else if a.0.entry == ek.entry {
            a.0.variant < ek.variant
        } else {
            false
        }
    } else {
        false
    }
}

/// Does the entry own a kanji spelling or reading exactly equal to `q`?
fn entry_text_match(e: &LexicalEntry, q: &Vec<char>) -> (r: bool)
    ensures
        r == entry_matches_exact(entry_model(*e), q@),
{
    let ghost em = entry_model(*e);
    let mut j: usize = 0;
    while j < e.kanji.len()
        invariant
            j <= e.kanji@.len(),
            em == entry_model(*e),
            forall|j2: int| 0 <= j2 < j ==> (#[trigger] em.kanji[j2]).text != q@,
        decreases e.kanji@.len() - j,
    {
        if chars_eq(&e.kanji[j].text, q) {
            proof {
                assert(em.kanji[j as int].text == q@);
            }
            return true;
        }
        proof {
            assert(em.kanji[j as int].text == e.kanji@[j as int].text@);
        }
        j += 1;
    }
    let mut j2: usize = 0;
    while j2 < e.readings.len()
        invariant
            j2 <= e.readings@.len(),
            em == entry_model(*e),
            forall|j3: int| 0 <= j3 < em.kanji.len() ==> (#[trigger] em.kanji[j3]).text != q@,
            forall|j3: int| 0 <= j3 < j2 ==> (#[trigger] em.readings[j3]).text != q@,
        decreases e.readings@.len() - j2,
    {
        if chars_eq(&e.readings[j2].text, q) {
            proof {
                assert(em.readings[j2 as int].text == q@);
            }
            return true;
        }
        proof {
            assert(em.readings[j2 as int].text == e.readings@[j2 as int].text@);
        }
        j2 += 1;
    }
    false
}

/// Does the result list already hold a record of this literal?
fn characters_contain(v: &Vec<KanjiCharacter>, c: char) -> (r: bool)
    ensures
        r == exists|t: int| 0 <= t < v@.len() && (#[trigger] v@[t]).literal == c,
{
    let mut t: usize = 0;
    while t < v.len()
        invariant
            t <= v@.len(),
            forall|t2: int| 0 <= t2 < t ==> (#[trigger] v@[t2]).literal != c,
        decreases v@.len() - t,
    {
        if v[t].literal == c {
            return true;
        }
        t += 1;
    }
    false
}

} // verus!
