//! The binary store: an immutable backing buffer, validated once at load,
//! with zero-copy accessors and pre-built indices.
//!
//! `load` validates the header (magic and version) before trusting any
//! offset, walks every record once, and keeps only the buffer, the record
//! positions and the indices: a lexical entry or character record is decoded
//! from its bytes again on each access. A malformed header, a truncated
//! buffer or keys out of order give a fatal [`LoadError`]; no query is
//! served on a partially trusted store.

use vstd::prelude::*;

use crate::codec::{
    dec_entry, dec_character, dec_u64, decode_entry, decode_character, decode_u64, enc_u64,
    enc_list_character, enc_list_entry, encode_character, encode_entry, encode_u64,
    entry_model, character_model, lemma_dec_enc_u64, lemma_dec_enc_list_character,
    lemma_dec_enc_list_entry, lemma_enc_parts, models_character, models_entry, wf_character,
    wf_entry, CharacterM, EntryM,
};
use crate::elements::{KanjiCharacter, LexicalEntry};

verus! {

/// The database held as plain values, before encoding.
#[derive(Clone, Debug)]
#[verifier::ext_equal]
pub struct DataSet {
    /// Lexical entries, strictly ascending by key.
    pub entries: Vec<LexicalEntry>,
    /// Character records, strictly ascending by codepoint.
    pub characters: Vec<KanjiCharacter>,
}

/// The abstract value of a data set.
pub struct DataSetM {
    pub entries: Seq<EntryM>,
    pub characters: Seq<CharacterM>,
}

/// The abstract value of a data set.
pub open spec fn dataset_model(d: DataSet) -> DataSetM {
    DataSetM { entries: models_entry(d.entries@), characters: models_character(d.characters@) }
}

/// The four magic bytes opening every database buffer.
pub open spec fn magic() -> Seq<u8> {
    seq![106u8, 112u8, 118u8, 100u8]
}

/// The format version written after the magic bytes.
pub const FORMAT_VERSION: u64 = 1;

/// Entry keys are strictly ascending.
pub open spec fn entries_sorted(es: Seq<EntryM>) -> bool {
    forall|i: int, j: int| 0 <= i < j < es.len() ==> (#[trigger] es[i]).key < (#[trigger] es[j]).key
}

/// Character codepoints are strictly ascending.
pub open spec fn characters_sorted(cs: Seq<CharacterM>) -> bool {
    forall|i: int, j: int|
        0 <= i < j < cs.len() ==> ((#[trigger] cs[i]).literal as u32) < ((
        #[trigger] cs[j]).literal as u32)
}

/// Every sequence of the data set fits in a vector.
pub open spec fn wf_dataset(m: DataSetM) -> bool {
    &&& m.entries.len() <= usize::MAX
    &&& m.characters.len() <= usize::MAX
    &&& forall|i: int| 0 <= i < m.entries.len() ==> wf_entry(#[trigger] m.entries[i])
    &&& forall|i: int| 0 <= i < m.characters.len() ==> wf_character(#[trigger] m.characters[i])
}

/// The whole buffer: header, lexical entry table, character table.
pub open spec fn enc_dataset(m: DataSetM) -> Seq<u8> {
    magic() + enc_u64(FORMAT_VERSION) + enc_list_entry(m.entries) + enc_list_character(
        m.characters,
    )
}

/// The data set read back from a buffer: the header must carry the magic
/// bytes and the exact format version before any offset is trusted.
pub open spec fn dec_dataset(b: Seq<u8>) -> Option<DataSetM> {
    if b.len() >= 4 && b.subrange(0, 4) == magic() {
        match dec_u64(b, 4) {
            None => None,
            Some((v, p)) => {
                if v == FORMAT_VERSION {
                    match crate::codec::dec_list_entry(b, p) {
                        None => None,
                        Some((es, p2)) => {
                            match crate::codec::dec_list_character(b, p2) {
                                None => None,
                                Some((cs, _p3)) => Some(
                                    DataSetM { entries: es, characters: cs },
                                ),
                            }
                        },
                    }
                } else {
                    None
                }
            },
        }
    } else {
        None
    }
}

/// A buffer that loads: it decodes, and its tables are sorted.
pub open spec fn loadable(b: Seq<u8>) -> bool {
    match dec_dataset(b) {
        None => false,
        Some(m) => entries_sorted(m.entries) && characters_sorted(m.characters),
    }
}

/// Encode a data set into one dense buffer.
pub fn encode(data: &DataSet) -> (r: Vec<u8>)
    ensures
        r@ == enc_dataset(dataset_model(*data)),
{
    let mut out: Vec<u8> = Vec::new();
    out.push(106);
    out.push(112);
    out.push(118);
    out.push(100);
    assert(out@ =~= magic());
    encode_u64(&mut out, FORMAT_VERSION);
    crate::codec::encode_list_entry(&mut out, &data.entries);
    crate::codec::encode_list_character(&mut out, &data.characters);
    assert(out@ =~= enc_dataset(dataset_model(*data)));
    out
}

/// Writing a data set and loading it back yields the same records.
pub proof fn lemma_dataset_round_trip(m: DataSetM)
    requires
        wf_dataset(m),
    ensures
        dec_dataset(enc_dataset(m)) == Some(m),
{
    let b = enc_dataset(m);
    let h = magic();
    let ver = enc_u64(FORMAT_VERSION);
    let es = enc_list_entry(m.entries);
    let cs = enc_list_character(m.characters);
    assert(b =~= h + (ver + (es + cs)));
    assert(b.subrange(0, 4) =~= h) by {
        assert forall|i: int| 0 <= i < 4 implies b.subrange(0, 4)[i] == h[i] by {
            assert(b[i] == (h + (ver + (es + cs)))[i]);
        }
    }
    assert(b.subrange(0, b.len() as int) =~= h + (ver + (es + cs)));
    lemma_enc_parts(b, 0, h, ver + (es + cs));
    lemma_enc_parts(b, 4, ver, es + cs);
    lemma_dec_enc_u64(b, 4, FORMAT_VERSION);
    lemma_enc_parts(b, 4 + ver.len() as int, es, cs);
    lemma_dec_enc_list_entry(b, 12, m.entries);
    lemma_dec_enc_list_character(b, 12 + es.len() as int, m.characters);
    let d = dec_dataset(b);
    assert(d matches Some(x) && x.entries == m.entries && x.characters == m.characters);
    assert(dec_dataset(b) == Some(m)) by {
        assert(d->Some_0 == DataSetM { entries: m.entries, characters: m.characters });
    }
}

/// Why a buffer was rejected.
#[derive(Clone, Copy, Debug, PartialEq, Eq, Structural)]
pub enum LoadError {
    /// The magic bytes or the format version do not match.
    BadHeader,
    /// A record table does not decode: truncated buffer, an offset out of
    /// range, or a malformed record.
    BadRecord,
    /// Entry keys or character codepoints are not strictly ascending.
    Unsorted,
}

/// The immutable store: the backing buffer, one record-position table per
/// record kind, and the leading-character index.
pub struct Store {
    /// The immutable backing buffer.
    pub buf: Vec<u8>,
    /// Key and record position of every lexical entry, ascending by key.
    pub entry_index: Vec<(u64, usize)>,
    /// Codepoint and record position of every character record, ascending.
    pub char_index: Vec<(u32, usize)>,
    /// Leading character to the keys of the entries led by it.
    pub lead_index: Vec<(u32, Vec<u64>)>,
}

/// Key `k` is listed under leading character `c`.
pub open spec fn lead_mem(v: Seq<(u32, Vec<u64>)>, c: u32, k: u64) -> bool {
    exists|a: int, m: int|
        0 <= a < v.len() && v[a].0 == c && 0 <= m < v[a].1@.len() && v[a].1@[m] == k
}

impl Store {
    /// The decoded entry at position `i` of the entry table.
    pub open spec fn entry_at(self, i: int) -> EntryM {
        dec_entry(self.buf@, self.entry_index@[i].1 as int)->Some_0.0
    }

    /// The decoded character record at position `i` of the character table.
    pub open spec fn character_at(self, i: int) -> CharacterM {
        dec_character(self.buf@, self.char_index@[i].1 as int)->Some_0.0
    }

    /// The stored entries, in key order.
    pub open spec fn entries(self) -> Seq<EntryM> {
        Seq::new(self.entry_index@.len(), |i: int| self.entry_at(i))
    }

    /// The stored character records, in codepoint order.
    pub open spec fn characters(self) -> Seq<CharacterM> {
        Seq::new(self.char_index@.len(), |i: int| self.character_at(i))
    }

    /// Some stored entry has key `k`.
    pub open spec fn has_entry_key(self, k: u64) -> bool {
        exists|i: int| 0 <= i < self.entry_index@.len() && (#[trigger] self.entry_index@[i]).0 == k
    }

    /// Entry `e` owns a kanji spelling or reading whose text begins with
    /// character `c`.
    pub open spec fn entry_has_lead(e: EntryM, c: u32) -> bool {
        (exists|j: int|
            0 <= j < e.kanji.len() && (#[trigger] e.kanji[j]).text.len() > 0 && e.kanji[j].text[0]
                as u32 == c) || (exists|j: int|
            0 <= j < e.readings.len() && (#[trigger] e.readings[j]).text.len() > 0
                && e.readings[j].text[0] as u32 == c)
    }

    /// The store is validated: every indexed position decodes, the tables
    /// are strictly sorted, every key of the leading-character index
    /// resolves, and every leading character of every entry is indexed.
    pub open spec fn wf(self) -> bool {
        &&& forall|i: int|
            0 <= i < self.entry_index@.len() ==> {
                &&& dec_entry(self.buf@, (#[trigger] self.entry_index@[i]).1 as int) is Some
                &&& self.entry_at(i).key == self.entry_index@[i].0
            }
        &&& forall|i: int, j: int|
            0 <= i < j < self.entry_index@.len() ==> (#[trigger] self.entry_index@[i]).0 < (
            #[trigger] self.entry_index@[j]).0
        &&& forall|i: int|
            0 <= i < self.char_index@.len() ==> {
                &&& dec_character(self.buf@, (#[trigger] self.char_index@[i]).1 as int) is Some
                &&& self.character_at(i).literal as u32 == self.char_index@[i].0
            }
        &&& forall|i: int, j: int|
            0 <= i < j < self.char_index@.len() ==> (#[trigger] self.char_index@[i]).0 < (
            #[trigger] self.char_index@[j]).0
        &&& forall|i: int, j: int|
            0 <= i < j < self.lead_index@.len() ==> (#[trigger] self.lead_index@[i]).0 < (
            #[trigger] self.lead_index@[j]).0
        &&& forall|a: int, m: int|
            0 <= a < self.lead_index@.len() && 0 <= m < (#[trigger] self.lead_index@[a]).1@.len()
                ==> self.has_entry_key(#[trigger] self.lead_index@[a].1@[m])
        &&& forall|a: int, m: int, m2: int|
            0 <= a < self.lead_index@.len() && 0 <= m < m2 < (
            #[trigger] self.lead_index@[a]).1@.len() ==> #[trigger] self.lead_index@[a].1@[m]
                != #[trigger] self.lead_index@[a].1@[m2]
        &&& forall|i: int, c: u32|
            0 <= i < self.entry_index@.len() && #[trigger] Store::entry_has_lead(
                self.entry_at(i),
                c,
            ) ==> lead_mem(self.lead_index@, c, self.entry_index@[i].0)
    }

    /// The keys listed under the leading character `c`, in store order;
    /// empty when none is.
    pub fn lead_keys(&self, c: char) -> (r: Vec<u64>)
        requires
            self.wf(),
        ensures
            forall|m: int| 0 <= m < r@.len() ==> lead_mem(self.lead_index@, c as u32, #[trigger] r@[m]),
            forall|k: u64| #[trigger] lead_mem(self.lead_index@, c as u32, k) ==> exists|m: int|
                0 <= m < r@.len() && r@[m] == k,
            forall|m: int, m2: int| 0 <= m < m2 < r@.len() ==> r@[m] != r@[m2],
    {
        let cc = c as u32;
        match binary_search_u32(&self.lead_index, cc) {
            Some(a) => {
                let r = clone_keys(&self.lead_index[a].1);
                proof {
                    assert forall|k: u64|
                        lead_mem(self.lead_index@, cc, k) implies exists|m: int|
                        0 <= m < r@.len() && r@[m] == k by {
                        let (a2, m) = choose|a2: int, m: int|
                            0 <= a2 < self.lead_index@.len() && self.lead_index@[a2].0 == cc && 0
                                <= m < self.lead_index@[a2].1@.len() && self.lead_index@[a2].1@[m]
                                == k;
                        assert(a2 == a) by {
                            if a2 < a as int {
                                assert(self.lead_index@[a2].0 < self.lead_index@[a as int].0);
                            } else if a2 > a as int {
                                assert(self.lead_index@[a as int].0 < self.lead_index@[a2].0);
                            }
                        }
                        assert(r@[m] == k);
                    }
                }
                r
            },
            None => {
                let r: Vec<u64> = Vec::new();
                proof {
                    assert forall|k: u64|
                        lead_mem(self.lead_index@, cc, k) implies exists|m: int|
                        0 <= m < r@.len() && r@[m] == k by {
                        let (a2, m) = choose|a2: int, m: int|
                            0 <= a2 < self.lead_index@.len() && self.lead_index@[a2].0 == cc && 0
                                <= m < self.lead_index@[a2].1@.len() && self.lead_index@[a2].1@[m]
                                == k;
                        assert(self.lead_index@[a2].0 == cc);
                        assert(false);
                    }
                }
                r
            },
        }
    }

    /// The entry under key `k`, decoded from its bytes, or `None` exactly
    /// when the store has no such key.
    pub fn entry(&self, k: u64) -> (r: Option<LexicalEntry>)
        requires
            self.wf(),
        ensures
            r is Some <==> self.has_entry_key(k),
            r matches Some(e) ==> exists|i: int|
                0 <= i < self.entries().len() && #[trigger] self.entries()[i] == entry_model(e)
                    && entry_model(e).key == k,
    {
        match binary_search_u64(&self.entry_index, k) {
            None => None,
            Some(i) => {
                let pos = self.entry_index[i].1;
                match decode_entry(&self.buf, pos) {
                    None => {
                        proof {
                            assert(false);
                        }
                        None
                    },
                    Some((e, _)) => {
                        proof {
                            assert(self.entries()[i as int] == entry_model(e));
                        }
                        Some(e)
                    },
                }
            },
        }
    }

    /// The character record of one codepoint, or `None` exactly when the
    /// store has none.
    pub fn character(&self, c: char) -> (r: Option<KanjiCharacter>)
        requires
            self.wf(),
        ensures
            r is Some <==> exists|i: int|
                0 <= i < self.char_index@.len() && (#[trigger] self.char_index@[i]).0 == c as u32,
            r matches Some(e) ==> exists|i: int|
                0 <= i < self.characters().len() && #[trigger] self.characters()[i]
                    == character_model(e) && character_model(e).literal == c,
    {
        match binary_search_u32_pos(&self.char_index, c as u32) {
            None => None,
            Some(i) => {
                let pos = self.char_index[i].1;
                match decode_character(&self.buf, pos) {
                    None => {
                        proof {
                            assert(false);
                        }
                        None
                    },
                    Some((e, _)) => {
                        proof {
                            assert(self.characters()[i as int] == character_model(e));
                            vstd::utf8::char_u32_cast(c, c as u32);
                            vstd::utf8::char_u32_cast(e.literal, e.literal as u32);
                            assert(character_model(e).literal == c);
                        }
                        Some(e)
                    },
                }
            },
        }
    }

    /// How many entries the store holds.
    pub fn entry_count(&self) -> (r: usize)
        ensures
            r == self.entries().len(),
    {
        self.entry_index.len()
    }

    /// The key of the entry at one position of the key order.
    pub fn entry_key_at(&self, i: usize) -> (r: u64)
        requires
            self.wf(),
            i < self.entries().len(),
        ensures
            r == self.entries()[i as int].key,
    {
        self.entry_index[i].0
    }
}

/// Copy a key list.
fn clone_keys(v: &Vec<u64>) -> (r: Vec<u64>)
    ensures
        r@ == v@,
{
    let mut r: Vec<u64> = Vec::new();
    let mut i: usize = 0;
    while i < v.len()
        invariant
            i <= v@.len(),
            r@ =~= v@.take(i as int),
        decreases v@.len() - i,
    {
        r.push(v[i]);
        i += 1;
    }
    assert(r@ =~= v@);
    r
}

/// Binary search over a strictly sorted key table.
fn binary_search_u64(v: &Vec<(u64, usize)>, k: u64) -> (r: Option<usize>)
    requires
        forall|i: int, j: int| 0 <= i < j < v@.len() ==> (#[trigger] v@[i]).0 < (#[trigger] v@[j]).0,
    ensures
        r matches Some(i) ==> i < v@.len() && v@[i as int].0 == k,
        r is None ==> forall|i: int| 0 <= i < v@.len() ==> (#[trigger] v@[i]).0 != k,
{
    let mut lo: usize = 0;
    let mut hi: usize = v.len();
    while lo < hi
        invariant
            lo <= hi <= v@.len(),
            forall|i: int, j: int|
                0 <= i < j < v@.len() ==> (#[trigger] v@[i]).0 < (#[trigger] v@[j]).0,
            forall|i: int| 0 <= i < lo ==> (#[trigger] v@[i]).0 < k,
            forall|i: int| hi <= i < v@.len() ==> k < (#[trigger] v@[i]).0,
        decreases hi - lo,
    {
        let mid = lo + (hi - lo) / 2;
        let key = v[mid].0;
        if key == k {
            return Some(mid);
        } else if key < k {
            proof {
                assert forall|i: int| 0 <= i < mid + 1 implies (#[trigger] v@[i]).0 < k by {
                    if i < mid {
                        assert(v@[i].0 < v@[mid as int].0);
                    }
                }
            }
            lo = mid + 1;
        } else {
            proof {
                assert forall|i: int| mid <= i < v@.len() implies k < (#[trigger] v@[i]).0 by {
                    if i > mid {
                        assert(v@[mid as int].0 < v@[i].0);
                    }
                }
            }
            hi = mid;
        }
    }
    None
}

/// Binary search over a strictly sorted leading-character table.
fn binary_search_u32(v: &Vec<(u32, Vec<u64>)>, k: u32) -> (r: Option<usize>)
    requires
        forall|i: int, j: int| 0 <= i < j < v@.len() ==> (#[trigger] v@[i]).0 < (#[trigger] v@[j]).0,
    ensures
        r matches Some(i) ==> i < v@.len() && v@[i as int].0 == k,
        r is None ==> forall|i: int| 0 <= i < v@.len() ==> (#[trigger] v@[i]).0 != k,
{
    let mut lo: usize = 0;
    let mut hi: usize = v.len();
    while lo < hi
        invariant
            lo <= hi <= v@.len(),
            forall|i: int, j: int|
                0 <= i < j < v@.len() ==> (#[trigger] v@[i]).0 < (#[trigger] v@[j]).0,
            forall|i: int| 0 <= i < lo ==> (#[trigger] v@[i]).0 < k,
            forall|i: int| hi <= i < v@.len() ==> k < (#[trigger] v@[i]).0,
        decreases hi - lo,
    {
        let mid = lo + (hi - lo) / 2;
        let key = v[mid].0;
        if key == k {
            return Some(mid);
        } else if key < k {
            proof {
                assert forall|i: int| 0 <= i < mid + 1 implies (#[trigger] v@[i]).0 < k by {
                    if i < mid {
                        assert(v@[i].0 < v@[mid as int].0);
                    }
                }
            }
            lo = mid + 1;
        } else {
            proof {
                assert forall|i: int| mid <= i < v@.len() implies k < (#[trigger] v@[i]).0 by {
                    if i > mid {
                        assert(v@[mid as int].0 < v@[i].0);
                    }
                }
            }
            hi = mid;
        }
    }
    None
}

/// Binary search over the strictly sorted codepoint table.
fn binary_search_u32_pos(v: &Vec<(u32, usize)>, k: u32) -> (r: Option<usize>)
    requires
        forall|i: int, j: int| 0 <= i < j < v@.len() ==> (#[trigger] v@[i]).0 < (#[trigger] v@[j]).0,
    ensures
        r matches Some(i) ==> i < v@.len() && v@[i as int].0 == k,
        r is None ==> forall|i: int| 0 <= i < v@.len() ==> (#[trigger] v@[i]).0 != k,
{
    let mut lo: usize = 0;
    let mut hi: usize = v.len();
    while lo < hi
        invariant
            lo <= hi <= v@.len(),
            forall|i: int, j: int|
                0 <= i < j < v@.len() ==> (#[trigger] v@[i]).0 < (#[trigger] v@[j]).0,
            forall|i: int| 0 <= i < lo ==> (#[trigger] v@[i]).0 < k,
            forall|i: int| hi <= i < v@.len() ==> k < (#[trigger] v@[i]).0,
        decreases hi - lo,
    {
        let mid = lo + (hi - lo) / 2;
        let key = v[mid].0;
        if key == k {
            return Some(mid);
        } else if key < k {
            proof {
                assert forall|i: int| 0 <= i < mid + 1 implies (#[trigger] v@[i]).0 < k by {
                    if i < mid {
                        assert(v@[i].0 < v@[mid as int].0);
                    }
                }
            }
            lo = mid + 1;
        } else {
            proof {
                assert forall|i: int| mid <= i < v@.len() implies k < (#[trigger] v@[i]).0 by {
                    if i > mid {
                        assert(v@[mid as int].0 < v@[i].0);
                    }
                }
            }
            hi = mid;
        }
    }
    None
}


/// The decoded entries of a position table.
pub open spec fn stored_entries(b: Seq<u8>, idx: Seq<(u64, usize)>) -> Seq<EntryM> {
    Seq::new(idx.len(), |j: int| dec_entry(b, idx[j].1 as int)->Some_0.0)
}

/// Scan the entry table: record each record's key and byte position, check
/// that keys strictly ascend, and discard the decoded records.
fn scan_entries(buf: &Vec<u8>, pos: usize) -> (r: Result<(Vec<(u64, usize)>, usize), LoadError>)
    ensures
        r matches Ok((idx, p)) ==> {
            &&& crate::codec::dec_list_entry(buf@, pos as int) matches Some((es, pe)) && pe
                == p as int && stored_entries(buf@, idx@) == es && entries_sorted(es)
            &&& forall|j: int|
                0 <= j < idx@.len() ==> dec_entry(buf@, (#[trigger] idx@[j]).1 as int) is Some
                    && dec_entry(buf@, idx@[j].1 as int)->Some_0.0.key == idx@[j].0
            &&& forall|i: int, j: int|
                0 <= i < j < idx@.len() ==> (#[trigger] idx@[i]).0 < (#[trigger] idx@[j]).0
            &&& pos < p <= buf@.len()
        },
        r is Err ==> (crate::codec::dec_list_entry(buf@, pos as int) is None || !entries_sorted(
            crate::codec::dec_list_entry(buf@, pos as int)->Some_0.0,
        )),
{
    let (n64, p0) = match decode_u64(buf, pos) {
        None => {
            return Err(LoadError::BadRecord);
        },
        Some(x) => x,
    };
    if n64 > usize::MAX as u64 {
        return Err(LoadError::BadRecord);
    }
    let n = n64 as usize;
    assert(n as int == n64 as int);
    let mut idx: Vec<(u64, usize)> = Vec::new();
    let mut p = p0;
    let mut i: usize = 0;
    proof {
        assert(stored_entries(buf@, idx@) =~= Seq::<EntryM>::empty());
        assert(stored_entries(buf@, idx@) + crate::codec::dec_seq_entry(
            buf@,
            p as int,
            n as int,
        )->Some_0.0 =~= crate::codec::dec_seq_entry(buf@, p as int, n as int)->Some_0.0);
    }
    while i < n
        invariant
            i <= n,
            pos < p <= buf@.len(),
            idx@.len() == i,
            crate::codec::dec_list_entry(buf@, pos as int) == crate::codec::dec_seq_entry(
                buf@,
                p0 as int,
                n as int,
            ),
            crate::codec::dec_seq_entry(buf@, p0 as int, n as int)
                == match crate::codec::dec_seq_entry(buf@, p as int, n - i) {
                None => None::<(Seq<EntryM>, int)>,
                Some((s, q)) => Some((stored_entries(buf@, idx@) + s, q)),
            },
            forall|j: int|
                0 <= j < idx@.len() ==> dec_entry(buf@, (#[trigger] idx@[j]).1 as int) is Some
                    && dec_entry(buf@, idx@[j].1 as int)->Some_0.0.key == idx@[j].0,
            forall|a: int, b2: int|
                0 <= a < b2 < idx@.len() ==> (#[trigger] idx@[a]).0 < (#[trigger] idx@[b2]).0,
        decreases n - i,
    {
        let ghost idx0 = idx@;
        match decode_entry(buf, p) {
            None => {
                proof {
                    assert(crate::codec::dec_seq_entry(buf@, p as int, n - i) is None);
                }
                return Err(LoadError::BadRecord);
            },
            Some((e, p2)) => {
                if idx.len() > 0 {
                    let last = idx[idx.len() - 1].0;
                    if last >= e.key {
                        proof {
                            let dl = crate::codec::dec_list_entry(buf@, pos as int);
                            if dl is Some {
                                let es = dl->Some_0.0;
                                let s = crate::codec::dec_seq_entry(
                                    buf@,
                                    p as int,
                                    n - i,
                                )->Some_0.0;
                                assert(es == stored_entries(buf@, idx@) + s);
                                assert(es[i - 1] == stored_entries(buf@, idx@)[i - 1]);
                                assert(s[0] == entry_model(e));
                                assert(es[i as int] == s[0]);
                                assert(es[i - 1].key >= es[i as int].key);
                                assert(!entries_sorted(es));
                            }
                        }
                        return Err(LoadError::Unsorted);
                    }
                }
                idx.push((e.key, p));
                proof {
                    assert(stored_entries(buf@, idx@) =~= stored_entries(buf@, idx0).push(
                        entry_model(e),
                    ));
                    match crate::codec::dec_seq_entry(buf@, p2 as int, n - i - 1) {
                        None => {},
                        Some((s, q)) => {
                            assert(stored_entries(buf@, idx0) + (seq![entry_model(e)] + s)
                                =~= stored_entries(buf@, idx0).push(entry_model(e)) + s);
                        },
                    }
                }
                p = p2;
                i += 1;
            },
        }
    }
    proof {
        assert(stored_entries(buf@, idx@) + Seq::<EntryM>::empty() =~= stored_entries(
            buf@,
            idx@,
        ));
        let es = stored_entries(buf@, idx@);
        assert forall|a: int, b2: int| 0 <= a < b2 < es.len() implies (#[trigger] es[a]).key < (
        #[trigger] es[b2]).key by {
            assert(es[a].key == idx@[a].0 && es[b2].key == idx@[b2].0);
        }
    }
    Ok((idx, p))
}

/// The decoded character records of a position table.
pub open spec fn stored_characters(b: Seq<u8>, idx: Seq<(u32, usize)>) -> Seq<CharacterM> {
    Seq::new(idx.len(), |j: int| dec_character(b, idx[j].1 as int)->Some_0.0)
}

/// Scan the character table, as [`scan_entries`] does the entry table.
fn scan_characters(buf: &Vec<u8>, pos: usize) -> (r: Result<
    (Vec<(u32, usize)>, usize),
    LoadError,
>)
    ensures
        r matches Ok((idx, p)) ==> {
            &&& crate::codec::dec_list_character(buf@, pos as int) matches Some((cs, pe)) && pe
                == p as int && stored_characters(buf@, idx@) == cs && characters_sorted(cs)
            &&& forall|j: int|
                0 <= j < idx@.len() ==> dec_character(buf@, (#[trigger] idx@[j]).1 as int) is Some
                    && dec_character(buf@, idx@[j].1 as int)->Some_0.0.literal as u32 == idx@[j].0
            &&& forall|i: int, j: int|
                0 <= i < j < idx@.len() ==> (#[trigger] idx@[i]).0 < (#[trigger] idx@[j]).0
            &&& pos < p <= buf@.len()
        },
        r is Err ==> (crate::codec::dec_list_character(buf@, pos as int) is None
            || !characters_sorted(
            crate::codec::dec_list_character(buf@, pos as int)->Some_0.0,
        )),
{
    let (n64, p0) = match decode_u64(buf, pos) {
        None => {
            return Err(LoadError::BadRecord);
        },
        Some(x) => x,
    };
    if n64 > usize::MAX as u64 {
        return Err(LoadError::BadRecord);
    }
    let n = n64 as usize;
    assert(n as int == n64 as int);
    let mut idx: Vec<(u32, usize)> = Vec::new();
    let mut p = p0;
    let mut i: usize = 0;
    proof {
        assert(stored_characters(buf@, idx@) =~= Seq::<CharacterM>::empty());
        assert(stored_characters(buf@, idx@) + crate::codec::dec_seq_character(
            buf@,
            p as int,
            n as int,
        )->Some_0.0 =~= crate::codec::dec_seq_character(buf@, p as int, n as int)->Some_0.0);
    }
    while i < n
        invariant
            i <= n,
            pos < p <= buf@.len(),
            idx@.len() == i,
            crate::codec::dec_list_character(buf@, pos as int) == crate::codec::dec_seq_character(
                buf@,
                p0 as int,
                n as int,
            ),
            crate::codec::dec_seq_character(buf@, p0 as int, n as int)
                == match crate::codec::dec_seq_character(buf@, p as int, n - i) {
                None => None::<(Seq<CharacterM>, int)>,
                Some((s, q)) => Some((stored_characters(buf@, idx@) + s, q)),
            },
            forall|j: int|
                0 <= j < idx@.len() ==> dec_character(buf@, (#[trigger] idx@[j]).1 as int) is Some
                    && dec_character(buf@, idx@[j].1 as int)->Some_0.0.literal as u32 == idx@[j].0,
            forall|a: int, b2: int|
                0 <= a < b2 < idx@.len() ==> (#[trigger] idx@[a]).0 < (#[trigger] idx@[b2]).0,
        decreases n - i,
    {
        let ghost idx0 = idx@;
        match decode_character(buf, p) {
            None => {
                proof {
                    assert(crate::codec::dec_seq_character(buf@, p as int, n - i) is None);
                }
                return Err(LoadError::BadRecord);
            },
            Some((e, p2)) => {
                let lit = e.literal as u32;
                if idx.len() > 0 {
                    let last = idx[idx.len() - 1].0;
                    if last >= lit {
                        proof {
                            let dl = crate::codec::dec_list_character(buf@, pos as int);
                            if dl is Some {
                                let cs = dl->Some_0.0;
                                let s = crate::codec::dec_seq_character(
                                    buf@,
                                    p as int,
                                    n - i,
                                )->Some_0.0;
                                assert(cs == stored_characters(buf@, idx@) + s);
                                assert(cs[i - 1] == stored_characters(buf@, idx@)[i - 1]);
                                assert(s[0] == character_model(e));
                                assert(cs[i as int] == s[0]);
                                assert(cs[i - 1].literal as u32 >= cs[i as int].literal as u32);
                                assert(!characters_sorted(cs));
                            }
                        }
                        return Err(LoadError::Unsorted);
                    }
                }
                idx.push((lit, p));
                proof {
                    assert(stored_characters(buf@, idx@) =~= stored_characters(buf@, idx0).push(
                        character_model(e),
                    ));
                    match crate::codec::dec_seq_character(buf@, p2 as int, n - i - 1) {
                        None => {},
                        Some((s, q)) => {
                            assert(stored_characters(buf@, idx0) + (seq![character_model(e)] + s)
                                =~= stored_characters(buf@, idx0).push(character_model(e)) + s);
                        },
                    }
                }
                p = p2;
                i += 1;
            },
        }
    }
    proof {
        assert(stored_characters(buf@, idx@) + Seq::<CharacterM>::empty() =~= stored_characters(
            buf@,
            idx@,
        ));
        let cs = stored_characters(buf@, idx@);
        assert forall|a: int, b2: int|
            0 <= a < b2 < cs.len() implies ((#[trigger] cs[a]).literal as u32) < ((
        #[trigger] cs[b2]).literal as u32) by {
            assert(cs[a].literal as u32 == idx@[a].0 && cs[b2].literal as u32 == idx@[b2].0);
        }
    }
    Ok((idx, p))
}


/// Locate a leading character in the sorted index: its own position when
/// present, else the position where it belongs.
fn lead_find_slot(v: &Vec<(u32, Vec<u64>)>, c: u32) -> (r: (usize, bool))
    requires
        forall|i: int, j: int|
            0 <= i < j < v@.len() ==> (#[trigger] v@[i]).0 < (#[trigger] v@[j]).0,
    ensures
        r.1 ==> r.0 < v@.len() && v@[r.0 as int].0 == c,
        !r.1 ==> {
            &&& r.0 <= v@.len()
            &&& forall|i: int| 0 <= i < r.0 ==> (#[trigger] v@[i]).0 < c
            &&& forall|i: int| r.0 <= i < v@.len() ==> c < (#[trigger] v@[i]).0
        },
{
    let mut lo: usize = 0;
    let mut stop = false;
    while lo < v.len() && !stop
        invariant
            lo <= v@.len(),
            forall|i: int, j: int|
                0 <= i < j < v@.len() ==> (#[trigger] v@[i]).0 < (#[trigger] v@[j]).0,
            forall|i: int| 0 <= i < lo ==> (#[trigger] v@[i]).0 < c,
            stop ==> lo < v@.len() && c < v@[lo as int].0,
        decreases v@.len() - lo + (if stop { 0int } else { 1int }),
    {
        let key = v[lo].0;
        if key == c {
            return (lo, true);
        }
        if key > c {
            stop = true;
        } else {
            lo += 1;
        }
    }
    proof {
        assert forall|i: int| lo <= i < v@.len() implies c < (#[trigger] v@[i]).0 by {
            if i > lo {
                assert(v@[lo as int].0 < v@[i].0);
            }
        }
    }
    (lo, false)
}

/// Does the key list hold `k`?
fn keys_contain(v: &Vec<u64>, k: u64) -> (r: bool)
    ensures
        r == exists|m: int| 0 <= m < v@.len() && v@[m] == k,
{
    let mut m: usize = 0;
    while m < v.len()
        invariant
            m <= v@.len(),
            forall|j: int| 0 <= j < m ==> v@[j] != k,
        decreases v@.len() - m,
    {
        if v[m] == k {
            return true;
        }
        m += 1;
    }
    false
}

/// List key `k` under leading character `c`, keeping the index sorted, each
/// bucket duplicate-free, and every earlier listing in place.
#[verifier::rlimit(60)]
fn lead_insert(v: &mut Vec<(u32, Vec<u64>)>, c: u32, k: u64)
    requires
        forall|i: int, j: int|
            0 <= i < j < old(v)@.len() ==> (#[trigger] old(v)@[i]).0 < (#[trigger] old(v)@[j]).0,
        forall|a: int, m: int, m2: int|
            0 <= a < old(v)@.len() && 0 <= m < m2 < (#[trigger] old(v)@[a]).1@.len()
                ==> #[trigger] old(v)@[a].1@[m] != #[trigger] old(v)@[a].1@[m2],
    ensures
        forall|i: int, j: int|
            0 <= i < j < final(v)@.len() ==> (#[trigger] final(v)@[i]).0 < (
            #[trigger] final(v)@[j]).0,
        forall|a: int, m: int, m2: int|
            0 <= a < final(v)@.len() && 0 <= m < m2 < (#[trigger] final(v)@[a]).1@.len()
                ==> #[trigger] final(v)@[a].1@[m] != #[trigger] final(v)@[a].1@[m2],
        lead_mem(final(v)@, c, k),
        forall|c2: u32, k2: u64|
            #[trigger] lead_mem(final(v)@, c2, k2) ==> lead_mem(old(v)@, c2, k2) || (c2 == c && k2
                == k),
        forall|c2: u32, k2: u64|
            #[trigger] lead_mem(old(v)@, c2, k2) ==> lead_mem(final(v)@, c2, k2),
{
    let ghost v0 = v@;
    let (slot, present) = lead_find_slot(v, c);
    if present {
        if keys_contain(&v[slot].1, k) {
            proof {
                let m = choose|m: int|
                    0 <= m < v@[slot as int].1@.len() && v@[slot as int].1@[m] == k;
                assert(lead_mem(v@, c, k));
                assert forall|c2: u32, k2: u64|
                    #[trigger] lead_mem(v@, c2, k2) implies lead_mem(v0, c2, k2) || (c2 == c && k2
                    == k) by {}
            }
            return;
        }
        let row = &mut v[slot];
        row.1.push(k);
        proof {
            assert(v@ =~= v0.update(slot as int, (v0[slot as int].0, v@[slot as int].1)));
            assert(v@[slot as int].1@ =~= v0[slot as int].1@.push(k));
            assert(lead_mem(v@, c, k)) by {
                let m = v@[slot as int].1@.len() - 1;
                assert(v@[slot as int].1@[m] == k);
            }
            assert forall|c2: u32, k2: u64|
                #[trigger] lead_mem(v@, c2, k2) implies lead_mem(v0, c2, k2) || (c2 == c && k2
                == k) by {
                let (a, m) = choose|a: int, m: int|
                    0 <= a < v@.len() && v@[a].0 == c2 && 0 <= m < v@[a].1@.len() && v@[a].1@[m]
                        == k2;
                if a != slot as int {
                    assert(v@[a] == v0[a]);
                    assert(lead_mem(v0, c2, k2));
                } else {
                    if m < v0[a].1@.len() {
                        assert(v0[a].1@[m] == k2);
                        assert(lead_mem(v0, c2, k2));
                    } else {
                        assert(k2 == k && c2 == c);
                    }
                }
            }
            assert forall|c2: u32, k2: u64|
                #[trigger] lead_mem(v0, c2, k2) implies lead_mem(v@, c2, k2) by {
                let (a, m) = choose|a: int, m: int|
                    0 <= a < v0.len() && v0[a].0 == c2 && 0 <= m < v0[a].1@.len() && v0[a].1@[m]
                        == k2;
                if a != slot as int {
                    assert(v@[a] == v0[a]);
                    assert(v@[a].0 == c2 && v@[a].1@[m] == k2);
                } else {
                    assert(v@[a].0 == c2 && v@[a].1@[m] == k2);
                }
            }
            assert forall|a: int, m: int, m2: int|
                0 <= a < v@.len() && 0 <= m < m2 < (#[trigger] v@[a]).1@.len()
                    implies #[trigger] v@[a].1@[m] != #[trigger] v@[a].1@[m2] by {
                if a == slot as int {
                    if m2 == v@[a].1@.len() - 1 {
                        assert(v@[a].1@[m] == v0[a].1@[m]);
                    } else {
                        assert(v@[a].1@[m] == v0[a].1@[m] && v@[a].1@[m2] == v0[a].1@[m2]);
                    }
                } else {
                    assert(v@[a] == v0[a]);
                }
            }
        }
        return;
    }
    let mut fresh: Vec<u64> = Vec::new();
    fresh.push(k);
    v.insert(slot, (c, fresh));
    proof {
        assert(v@ =~= v0.insert(slot as int, (c, fresh)));
        assert(v@[slot as int].1@[0] == k);
        assert(lead_mem(v@, c, k));
        assert forall|i: int, j: int| 0 <= i < j < v@.len() implies (#[trigger] v@[i]).0 < (
        #[trigger] v@[j]).0 by {
            if j < slot {
            } else if i < slot && j == slot {
            } else if i < slot && j > slot {
                assert(v@[i] == v0[i] && v@[j] == v0[j - 1]);
            } else if i == slot {
                assert(v@[j] == v0[j - 1]);
            } else {
                assert(v@[i] == v0[i - 1] && v@[j] == v0[j - 1]);
            }
        }
        assert forall|c2: u32, k2: u64|
            #[trigger] lead_mem(v@, c2, k2) implies lead_mem(v0, c2, k2) || (c2 == c && k2
            == k) by {
            let (a, m) = choose|a: int, m: int|
                0 <= a < v@.len() && v@[a].0 == c2 && 0 <= m < v@[a].1@.len() && v@[a].1@[m] == k2;
            if a < slot as int {
                assert(v@[a] == v0[a]);
                assert(lead_mem(v0, c2, k2));
            } else if a == slot as int {
                assert(k2 == k && c2 == c);
            } else {
                assert(v@[a] == v0[a - 1]);
                assert(v0[a - 1].0 == c2 && v0[a - 1].1@[m] == k2);
                assert(lead_mem(v0, c2, k2));
            }
        }
        assert forall|c2: u32, k2: u64|
            #[trigger] lead_mem(v0, c2, k2) implies lead_mem(v@, c2, k2) by {
            let (a, m) = choose|a: int, m: int|
                0 <= a < v0.len() && v0[a].0 == c2 && 0 <= m < v0[a].1@.len() && v0[a].1@[m] == k2;
            if a < slot as int {
                assert(v@[a] == v0[a]);
                assert(v@[a].0 == c2 && v@[a].1@[m] == k2);
            } else {
                assert(v@[a + 1] == v0[a]);
                assert(v@[a + 1].0 == c2 && v@[a + 1].1@[m] == k2);
            }
        }
        assert forall|a: int, m: int, m2: int|
            0 <= a < v@.len() && 0 <= m < m2 < (#[trigger] v@[a]).1@.len()
                implies #[trigger] v@[a].1@[m] != #[trigger] v@[a].1@[m2] by {
            if a < slot as int {
                assert(v@[a] == v0[a]);
            } else if a == slot as int {
                assert(v@[a].1@.len() == 1);
            } else {
                assert(v@[a] == v0[a - 1]);
            }
        }
    }
}


/// Key `k` stands in the entry table.
pub open spec fn key_in_index(idx: Seq<(u64, usize)>, k: u64) -> bool {
    exists|i: int| 0 <= i < idx.len() && (#[trigger] idx[i]).0 == k
}

/// Build the leading-character index over a validated entry table.
fn build_lead(buf: &Vec<u8>, idx: &Vec<(u64, usize)>) -> (r: Vec<(u32, Vec<u64>)>)
    requires
        forall|j: int|
            0 <= j < idx@.len() ==> dec_entry(buf@, (#[trigger] idx@[j]).1 as int) is Some
                && dec_entry(buf@, idx@[j].1 as int)->Some_0.0.key == idx@[j].0,
    ensures
        forall|i: int, j: int|
            0 <= i < j < r@.len() ==> (#[trigger] r@[i]).0 < (#[trigger] r@[j]).0,
        forall|a: int, m: int, m2: int|
            0 <= a < r@.len() && 0 <= m < m2 < (#[trigger] r@[a]).1@.len() ==> #[trigger] r@[
                a
            ].1@[m] != #[trigger] r@[a].1@[m2],
        forall|c2: u32, k2: u64| #[trigger] lead_mem(r@, c2, k2) ==> key_in_index(idx@, k2),
        forall|i: int, c: u32|
            0 <= i < idx@.len() && #[trigger] Store::entry_has_lead(
                dec_entry(buf@, idx@[i].1 as int)->Some_0.0,
                c,
            ) ==> lead_mem(r@, c, idx@[i].0),
{
    let mut r: Vec<(u32, Vec<u64>)> = Vec::new();
    let mut i: usize = 0;
    while i < idx.len()
        invariant
            i <= idx@.len(),
            forall|j: int|
                0 <= j < idx@.len() ==> dec_entry(buf@, (#[trigger] idx@[j]).1 as int) is Some
                    && dec_entry(buf@, idx@[j].1 as int)->Some_0.0.key == idx@[j].0,
            forall|a: int, b2: int|
                0 <= a < b2 < r@.len() ==> (#[trigger] r@[a]).0 < (#[trigger] r@[b2]).0,
            forall|a: int, m: int, m2: int|
                0 <= a < r@.len() && 0 <= m < m2 < (#[trigger] r@[a]).1@.len() ==> #[trigger] r@[
                    a
                ].1@[m] != #[trigger] r@[a].1@[m2],
            forall|c2: u32, k2: u64| #[trigger] lead_mem(r@, c2, k2) ==> key_in_index(idx@, k2),
            forall|i2: int, c: u32|
                0 <= i2 < i && #[trigger] Store::entry_has_lead(
                    dec_entry(buf@, idx@[i2].1 as int)->Some_0.0,
                    c,
                ) ==> lead_mem(r@, c, idx@[i2].0),
        decreases idx@.len() - i,
    {
        let key = idx[i].0;
        let ghost em = dec_entry(buf@, idx@[i as int].1 as int)->Some_0.0;
        let e = match decode_entry(buf, idx[i].1) {
            None => {
                proof {
                    assert(false);
                }
                vstd::pervasive::unreached()
            },
            Some((e, _)) => e,
        };
        proof {
            assert(entry_model(e) == em);
        }
        let mut j: usize = 0;
        while j < e.kanji.len()
            invariant
                i < idx@.len(),
                j <= e.kanji@.len(),
                entry_model(e) == em,
                em.key == idx@[i as int].0,
                forall|a: int, b2: int|
                    0 <= a < b2 < r@.len() ==> (#[trigger] r@[a]).0 < (#[trigger] r@[b2]).0,
                forall|a: int, m: int, m2: int|
                    0 <= a < r@.len() && 0 <= m < m2 < (#[trigger] r@[a]).1@.len()
                        ==> #[trigger] r@[a].1@[m] != #[trigger] r@[a].1@[m2],
                forall|c2: u32, k2: u64|
                    #[trigger] lead_mem(r@, c2, k2) ==> key_in_index(idx@, k2),
                forall|i2: int, c: u32|
                    0 <= i2 < i && #[trigger] Store::entry_has_lead(
                        dec_entry(buf@, idx@[i2].1 as int)->Some_0.0,
                        c,
                    ) ==> lead_mem(r@, c, idx@[i2].0),
                forall|j2: int|
                    0 <= j2 < j && (#[trigger] em.kanji[j2]).text.len() > 0 ==> lead_mem(
                        r@,
                        em.kanji[j2].text[0] as u32,
                        idx@[i as int].0,
                    ),
                key == idx@[i as int].0,
                key_in_index(idx@, idx@[i as int].0),
            decreases e.kanji@.len() - j,
        {
            if e.kanji[j].text.len() > 0 {
                let c = e.kanji[j].text[0] as u32;
                proof {
                    assert(em.kanji[j as int] == crate::codec::kanji_elem_model(
                        e.kanji@[j as int],
                    ));
                    assert(em.kanji[j as int].text[0] == e.kanji@[j as int].text@[0]);
                }
                let ghost r0 = r@;
                lead_insert(&mut r, c, key);
                proof {
                    assert forall|c2: u32, k2: u64|
                        #[trigger] lead_mem(r@, c2, k2) implies key_in_index(idx@, k2) by {
                        if lead_mem(r0, c2, k2) {
                        } else {
                            assert(c2 == c && k2 == key);
                        }
                    }
                    assert forall|j3: int|
                        0 <= j3 < j + 1 && (#[trigger] em.kanji[j3]).text.len() > 0 implies lead_mem(
                        r@,
                        em.kanji[j3].text[0] as u32,
                        idx@[i as int].0,
                    ) by {
                        if j3 < j {
                            assert(lead_mem(r0, em.kanji[j3].text[0] as u32, idx@[i as int].0));
                        }
                    }
                    assert forall|i2: int, c3: u32|
                        0 <= i2 < i && #[trigger] Store::entry_has_lead(
                            dec_entry(buf@, idx@[i2].1 as int)->Some_0.0,
                            c3,
                        ) implies lead_mem(r@, c3, idx@[i2].0) by {
                        assert(lead_mem(r0, c3, idx@[i2].0));
                    }
                }
            }
            j += 1;
        }
        let mut j2: usize = 0;
        while j2 < e.readings.len()
            invariant
                i < idx@.len(),
                j2 <= e.readings@.len(),
                entry_model(e) == em,
                em.key == idx@[i as int].0,
                forall|a: int, b2: int|
                    0 <= a < b2 < r@.len() ==> (#[trigger] r@[a]).0 < (#[trigger] r@[b2]).0,
                forall|a: int, m: int, m2: int|
                    0 <= a < r@.len() && 0 <= m < m2 < (#[trigger] r@[a]).1@.len()
                        ==> #[trigger] r@[a].1@[m] != #[trigger] r@[a].1@[m2],
                forall|c2: u32, k2: u64|
                    #[trigger] lead_mem(r@, c2, k2) ==> key_in_index(idx@, k2),
                forall|i2: int, c: u32|
                    0 <= i2 < i && #[trigger] Store::entry_has_lead(
                        dec_entry(buf@, idx@[i2].1 as int)->Some_0.0,
                        c,
                    ) ==> lead_mem(r@, c, idx@[i2].0),
                forall|j3: int|
                    0 <= j3 < em.kanji.len() && (#[trigger] em.kanji[j3]).text.len() > 0
                        ==> lead_mem(r@, em.kanji[j3].text[0] as u32, idx@[i as int].0),
                forall|j3: int|
                    0 <= j3 < j2 && (#[trigger] em.readings[j3]).text.len() > 0 ==> lead_mem(
                        r@,
                        em.readings[j3].text[0] as u32,
                        idx@[i as int].0,
                    ),
                key == idx@[i as int].0,
                key_in_index(idx@, idx@[i as int].0),
            decreases e.readings@.len() - j2,
        {
            if e.readings[j2].text.len() > 0 {
                let c = e.readings[j2].text[0] as u32;
                proof {
                    assert(em.readings[j2 as int] == crate::codec::reading_model(
                        e.readings@[j2 as int],
                    ));
                    assert(em.readings[j2 as int].text[0] == e.readings@[j2 as int].text@[0]);
                }
                let ghost r0 = r@;
                lead_insert(&mut r, c, key);
                proof {
                    assert forall|c2: u32, k2: u64|
                        #[trigger] lead_mem(r@, c2, k2) implies key_in_index(idx@, k2) by {
                        if lead_mem(r0, c2, k2) {
                        } else {
                            assert(c2 == c && k2 == key);
                        }
                    }
                    assert forall|j3: int|
                        0 <= j3 < em.kanji.len() && (#[trigger] em.kanji[j3]).text.len() > 0
                            implies lead_mem(r@, em.kanji[j3].text[0] as u32, idx@[i as int].0) by {
                        assert(lead_mem(r0, em.kanji[j3].text[0] as u32, idx@[i as int].0));
                    }
                    assert forall|j3: int|
                        0 <= j3 < j2 + 1 && (#[trigger] em.readings[j3]).text.len() > 0
                            implies lead_mem(
                        r@,
                        em.readings[j3].text[0] as u32,
                        idx@[i as int].0,
                    ) by {
                        if j3 < j2 {
                            assert(lead_mem(r0, em.readings[j3].text[0] as u32, idx@[i as int].0));
                        }
                    }
                    assert forall|i2: int, c3: u32|
                        0 <= i2 < i && #[trigger] Store::entry_has_lead(
                            dec_entry(buf@, idx@[i2].1 as int)->Some_0.0,
                            c3,
                        ) implies lead_mem(r@, c3, idx@[i2].0) by {
                        assert(lead_mem(r0, c3, idx@[i2].0));
                    }
                }
            }
            j2 += 1;
        }
        proof {
            assert forall|i2: int, c: u32|
                0 <= i2 < i + 1 && #[trigger] Store::entry_has_lead(
                    dec_entry(buf@, idx@[i2].1 as int)->Some_0.0,
                    c,
                ) implies lead_mem(r@, c, idx@[i2].0) by {
                if i2 == i as int {
                    assert(Store::entry_has_lead(em, c));
                }
            }
        }
        i += 1;
    }
    r
}

/// Validate one buffer and build the store over it. Succeeds exactly when
/// the header carries the magic bytes and the format version, every record
/// decodes, and both tables are strictly sorted; the payload is indexed in
/// place, never copied.
pub fn load(buf: Vec<u8>) -> (r: Result<Store, LoadError>)
    ensures
        r is Ok <==> loadable(buf@),
        r matches Ok(s) ==> {
            &&& s.wf()
            &&& s.buf@ == buf@
            &&& s.entries() == dec_dataset(buf@)->Some_0.entries
            &&& s.characters() == dec_dataset(buf@)->Some_0.characters
        },
{
    if buf.len() < 4 {
        return Err(LoadError::BadHeader);
    }
    if buf[0] != 106 || buf[1] != 112 || buf[2] != 118 || buf[3] != 100 {
        proof {
            let s = buf@.subrange(0, 4);
            assert(s[0] == buf@[0] && s[1] == buf@[1] && s[2] == buf@[2] && s[3] == buf@[3]);
            assert(s != magic());
        }
        return Err(LoadError::BadHeader);
    }
    proof {
        assert(buf@.subrange(0, 4) =~= magic());
    }
    let version = match decode_u64(&buf, 4) {
        None => {
            return Err(LoadError::BadHeader);
        },
        Some((v, _)) => v,
    };
    if version != FORMAT_VERSION {
        return Err(LoadError::BadHeader);
    }
    let (entry_index, p1) = match scan_entries(&buf, 12) {
        Err(e) => {
            return Err(e);
        },
        Ok(x) => x,
    };
    let (char_index, _p2) = match scan_characters(&buf, p1) {
        Err(e) => {
            return Err(e);
        },
        Ok(x) => x,
    };
    let lead_index = build_lead(&buf, &entry_index);
    let s = Store { buf, entry_index, char_index, lead_index };
    proof {
        assert(s.entries() =~= stored_entries(s.buf@, s.entry_index@));
        assert(s.characters() =~= stored_characters(s.buf@, s.char_index@));
        assert forall|a: int, m: int|
            0 <= a < s.lead_index@.len() && 0 <= m < (#[trigger] s.lead_index@[a]).1@.len()
                implies s.has_entry_key(#[trigger] s.lead_index@[a].1@[m]) by {
            assert(lead_mem(s.lead_index@, s.lead_index@[a].0, s.lead_index@[a].1@[m]));
        }
        assert(loadable(s.buf@));
    }
    Ok(s)
}

} // verus!
