//! The binary codec of the store.
//!
//! The logical schema: every record is a flat concatenation of fields;
//! counts and keys are 64-bit little-endian words, characters are 32-bit
//! scalar values, annotation sets are 128-bit words, and every sequence is
//! count-prefixed. The specification-level encoders and decoders below are
//! the format's definition; the executable encoders and decoders are
//! verified against them, and the decoders recover exactly what the
//! encoders wrote.

use vstd::prelude::*;

use vstd::bytes::{
    lemma_auto_spec_u128_to_from_le_bytes, lemma_auto_spec_u64_to_from_le_bytes,
    lemma_auto_spec_u32_to_from_le_bytes, spec_u128_from_le_bytes, spec_u128_to_le_bytes,
    spec_u32_from_le_bytes, spec_u32_to_le_bytes, spec_u64_from_le_bytes, spec_u64_to_le_bytes,
    u128_from_le_bytes, u128_to_le_bytes, u32_from_le_bytes, u32_to_le_bytes, u64_from_le_bytes,
    u64_to_le_bytes,
};
use vstd::slice::slice_subrange;

use crate::elements::{
    KanjiCharacter, KanjiElement, LexicalEntry, Priority, ReadingElement, Sense,
};
use crate::entities::{KanjiInfo, ReadingInfo};
use crate::sets::Bits;

verus! {

// ---------------------------------------------------------------------
// Abstract record models: the records with every vector seen as a sequence.
// ---------------------------------------------------------------------

/// The abstract value of one reading element.
pub struct ReadingM {
    pub text: Seq<char>,
    pub no_kanji: bool,
    pub reading_string: Seq<Seq<char>>,
    pub priority: Seq<Priority>,
    pub info: Seq<ReadingInfo>,
}

/// The abstract value of one kanji spelling element.
pub struct KanjiElementM {
    pub text: Seq<char>,
    pub info: Seq<KanjiInfo>,
    pub priority: Seq<Priority>,
}

/// The abstract value of one sense.
pub struct SenseM {
    pub gloss: Seq<Seq<char>>,
    pub pos: Bits,
    pub misc: Bits,
    pub dialect: Bits,
    pub field: Bits,
}

/// The abstract value of one lexical entry.
pub struct EntryM {
    pub key: u64,
    pub kanji: Seq<KanjiElementM>,
    pub readings: Seq<ReadingM>,
    pub senses: Seq<SenseM>,
}

/// The abstract value of one kanji character record.
pub struct CharacterM {
    pub literal: char,
    pub readings: Seq<Seq<char>>,
    pub meanings: Seq<Seq<char>>,
    pub stroke_count: u8,
    pub classification: u8,
}

// ---------------------------------------------------------------------
// Primitive fields.
// ---------------------------------------------------------------------

/// One byte.
pub open spec fn enc_u8(v: u8) -> Seq<u8> {
    seq![v]
}

/// One byte, when available.
pub open spec fn dec_u8(b: Seq<u8>, pos: int) -> Option<(u8, int)> {
    if 0 <= pos && pos + 1 <= b.len() {
        Some((b[pos], pos + 1))
    } else {
        None
    }
}

/// A boolean as one byte; any non-zero byte reads back as true.
pub open spec fn enc_bool(v: bool) -> Seq<u8> {
    seq![if v { 1u8 } else { 0u8 }]
}

/// The boolean of one byte.
pub open spec fn dec_bool(b: Seq<u8>, pos: int) -> Option<(bool, int)> {
    match dec_u8(b, pos) {
        None => None,
        Some((v, p)) => Some((v != 0, p)),
    }
}

/// A 64-bit word, little endian.
pub open spec fn enc_u64(v: u64) -> Seq<u8> {
    spec_u64_to_le_bytes(v)
}

/// The 64-bit word at `pos`, when eight bytes are available.
pub open spec fn dec_u64(b: Seq<u8>, pos: int) -> Option<(u64, int)> {
    if 0 <= pos && pos + 8 <= b.len() {
        Some((spec_u64_from_le_bytes(b.subrange(pos, pos + 8)), pos + 8))
    } else {
        None
    }
}

/// A 128-bit annotation-set word, little endian.
pub open spec fn enc_bits(v: Bits) -> Seq<u8> {
    spec_u128_to_le_bytes(v.bits)
}

/// The 128-bit annotation-set word at `pos`.
pub open spec fn dec_bits(b: Seq<u8>, pos: int) -> Option<(Bits, int)> {
    if 0 <= pos && pos + 16 <= b.len() {
        Some((Bits { bits: spec_u128_from_le_bytes(b.subrange(pos, pos + 16)) }, pos + 16))
    } else {
        None
    }
}

/// True when `v` is a Unicode scalar value, so that a character can carry
/// it.
pub open spec fn is_unicode_scalar(v: u32) -> bool {
    v < 0xD800 || (0xE000 <= v && v <= 0x10FFFF)
}

/// A character as its 32-bit scalar value, little endian.
pub open spec fn enc_char(c: char) -> Seq<u8> {
    spec_u32_to_le_bytes(c as u32)
}

/// The character at `pos`: four bytes forming a Unicode scalar value.
pub open spec fn dec_char(b: Seq<u8>, pos: int) -> Option<(char, int)> {
    if 0 <= pos && pos + 4 <= b.len() {
        let v = spec_u32_from_le_bytes(b.subrange(pos, pos + 4));
        if is_unicode_scalar(v) {
            Some((v as char, pos + 4))
        } else {
            None
        }
    } else {
        None
    }
}

/// Append the bytes of `bs` to `out`.
fn append_bytes(out: &mut Vec<u8>, bs: &Vec<u8>)
    ensures
        final(out)@ == old(out)@ + bs@,
{
    let mut i: usize = 0;
    while i < bs.len()
        invariant
            i <= bs@.len(),
            out@ =~= old(out)@ + bs@.take(i as int),
        decreases bs@.len() - i,
    {
        out.push(bs[i]);
        i += 1;
    }
    assert(out@ =~= old(out)@ + bs@);
}

/// Encode one byte.
pub fn encode_u8(out: &mut Vec<u8>, v: u8)
    ensures
        final(out)@ == old(out)@ + enc_u8(v),
{
    out.push(v);
    assert(out@ =~= old(out)@ + enc_u8(v));
}

/// Decode one byte.
pub fn decode_u8(buf: &Vec<u8>, pos: usize) -> (r: Option<(u8, usize)>)
    ensures
        r is Some <==> dec_u8(buf@, pos as int) is Some,
        r matches Some((v, p)) ==> dec_u8(buf@, pos as int) == Some((v, p as int)) && pos < p
            <= buf@.len(),
{
    if pos < buf.len() {
        Some((buf[pos], pos + 1))
    } else {
        None
    }
}

/// Encode a boolean as one byte.
pub fn encode_bool(out: &mut Vec<u8>, v: bool)
    ensures
        final(out)@ == old(out)@ + enc_bool(v),
{
    out.push(if v { 1 } else { 0 });
    assert(out@ =~= old(out)@ + enc_bool(v));
}

/// Decode a boolean.
pub fn decode_bool(buf: &Vec<u8>, pos: usize) -> (r: Option<(bool, usize)>)
    ensures
        r is Some <==> dec_bool(buf@, pos as int) is Some,
        r matches Some((v, p)) ==> dec_bool(buf@, pos as int) == Some((v, p as int)) && pos < p
            <= buf@.len(),
{
    match decode_u8(buf, pos) {
        None => None,
        Some((v, p)) => Some((v != 0, p)),
    }
}

/// Encode a 64-bit word.
pub fn encode_u64(out: &mut Vec<u8>, v: u64)
    ensures
        final(out)@ == old(out)@ + enc_u64(v),
{
    let bs = u64_to_le_bytes(v);
    append_bytes(out, &bs);
}

/// Decode a 64-bit word.
pub fn decode_u64(buf: &Vec<u8>, pos: usize) -> (r: Option<(u64, usize)>)
    ensures
        r is Some <==> dec_u64(buf@, pos as int) is Some,
        r matches Some((v, p)) ==> dec_u64(buf@, pos as int) == Some((v, p as int)) && pos < p
            <= buf@.len(),
{
    if pos <= buf.len() && buf.len() - pos >= 8 {
        let s = slice_subrange(buf.as_slice(), pos, pos + 8);
        Some((u64_from_le_bytes(s), pos + 8))
    } else {
        None
    }
}

/// Encode a 128-bit annotation-set word.
pub fn encode_bits(out: &mut Vec<u8>, v: Bits)
    ensures
        final(out)@ == old(out)@ + enc_bits(v),
{
    let bs = u128_to_le_bytes(v.bits);
    append_bytes(out, &bs);
}

/// Decode a 128-bit annotation-set word.
pub fn decode_bits(buf: &Vec<u8>, pos: usize) -> (r: Option<(Bits, usize)>)
    ensures
        r is Some <==> dec_bits(buf@, pos as int) is Some,
        r matches Some((v, p)) ==> dec_bits(buf@, pos as int) == Some((v, p as int)) && pos < p
            <= buf@.len(),
{
    if pos <= buf.len() && buf.len() - pos >= 16 {
        let s = slice_subrange(buf.as_slice(), pos, pos + 16);
        Some((Bits { bits: u128_from_le_bytes(s) }, pos + 16))
    } else {
        None
    }
}

/// Encode one character as its scalar value.
///
/// Relies on `char::from_u32` for the decoding direction; the encoder casts
/// the character to its scalar value directly.
pub fn encode_char(out: &mut Vec<u8>, c: char)
    ensures
        final(out)@ == old(out)@ + enc_char(c),
{
    let bs = u32_to_le_bytes(c as u32);
    append_bytes(out, &bs);
}

/// Relies on `core::char::from_u32`: it returns the character of `v`
/// exactly when `v` is a Unicode scalar value, that is, neither a surrogate
/// nor beyond the last code point.
#[verifier::external_body]
fn char_from_u32(v: u32) -> (r: Option<char>)
    ensures
        r is Some <==> is_unicode_scalar(v),
        r matches Some(c) ==> c as u32 == v,
{
    char::from_u32(v)
}

/// Decode one character.
pub fn decode_char(buf: &Vec<u8>, pos: usize) -> (r: Option<(char, usize)>)
    ensures
        r is Some <==> dec_char(buf@, pos as int) is Some,
        r matches Some((v, p)) ==> dec_char(buf@, pos as int) == Some((v, p as int)) && pos < p
            <= buf@.len(),
{
    if pos <= buf.len() && buf.len() - pos >= 4 {
        let s = slice_subrange(buf.as_slice(), pos, pos + 4);
        let v = u32_from_le_bytes(s);
        match char_from_u32(v) {
            None => None,
            Some(c) => {
                proof {
                    vstd::utf8::char_u32_cast(c, c as u32);
                }
                Some((c, pos + 4))
            },
        }
    } else {
        None
    }
}

// ---------------------------------------------------------------------
// Round trips of the primitive fields.
// ---------------------------------------------------------------------

/// Splitting a two-part encoding at its seam.
pub proof fn lemma_enc_parts(b: Seq<u8>, pos: int, s1: Seq<u8>, s2: Seq<u8>)
    requires
        0 <= pos,
        pos + s1.len() + s2.len() <= b.len(),
        b.subrange(pos, pos + s1.len() + s2.len()) == s1 + s2,
    ensures
        b.subrange(pos, pos + s1.len()) == s1,
        b.subrange(pos + s1.len(), pos + s1.len() + s2.len()) == s2,
{
    let whole = b.subrange(pos, pos + s1.len() + s2.len());
    assert(b.subrange(pos, pos + s1.len()) =~= s1) by {
        assert forall|i: int| 0 <= i < s1.len() implies b.subrange(pos, pos + s1.len())[i] == s1[i]
            by {
            assert(whole[i] == (s1 + s2)[i]);
        }
    }
    assert(b.subrange(pos + s1.len(), pos + s1.len() + s2.len()) =~= s2) by {
        assert forall|i: int|
            0 <= i < s2.len() implies b.subrange(pos + s1.len(), pos + s1.len() + s2.len())[i]
            == s2[i] by {
            assert(whole[s1.len() + i] == (s1 + s2)[s1.len() + i]);
        }
    }
}

/// The byte written is the byte read.
pub proof fn lemma_dec_enc_u8(b: Seq<u8>, pos: int, x: u8)
    requires
        0 <= pos,
        pos + enc_u8(x).len() <= b.len(),
        b.subrange(pos, pos + enc_u8(x).len()) == enc_u8(x),
    ensures
        dec_u8(b, pos) == Some((x, pos + enc_u8(x).len())),
{
    assert(b[pos] == b.subrange(pos, pos + 1)[0]);
}

/// The boolean written is the boolean read.
pub proof fn lemma_dec_enc_bool(b: Seq<u8>, pos: int, x: bool)
    requires
        0 <= pos,
        pos + enc_bool(x).len() <= b.len(),
        b.subrange(pos, pos + enc_bool(x).len()) == enc_bool(x),
    ensures
        dec_bool(b, pos) == Some((x, pos + enc_bool(x).len())),
{
    lemma_dec_enc_u8(b, pos, if x { 1u8 } else { 0u8 });
}

/// The word written is the word read.
pub proof fn lemma_dec_enc_u64(b: Seq<u8>, pos: int, x: u64)
    requires
        0 <= pos,
        pos + enc_u64(x).len() <= b.len(),
        b.subrange(pos, pos + enc_u64(x).len()) == enc_u64(x),
    ensures
        dec_u64(b, pos) == Some((x, pos + enc_u64(x).len())),
{
    lemma_auto_spec_u64_to_from_le_bytes();
}

/// The set word written is the set word read.
pub proof fn lemma_dec_enc_bits(b: Seq<u8>, pos: int, x: Bits)
    requires
        0 <= pos,
        pos + enc_bits(x).len() <= b.len(),
        b.subrange(pos, pos + enc_bits(x).len()) == enc_bits(x),
    ensures
        dec_bits(b, pos) == Some((x, pos + enc_bits(x).len())),
{
    lemma_auto_spec_u128_to_from_le_bytes();
}

/// The character written is the character read.
pub proof fn lemma_dec_enc_char(b: Seq<u8>, pos: int, x: char)
    requires
        0 <= pos,
        pos + enc_char(x).len() <= b.len(),
        b.subrange(pos, pos + enc_char(x).len()) == enc_char(x),
    ensures
        dec_char(b, pos) == Some((x, pos + enc_char(x).len())),
{
    lemma_auto_spec_u32_to_from_le_bytes();
    vstd::utf8::char_is_scalar(x);
    vstd::utf8::char_u32_cast(x, x as u32);
}

/// One ReadingInfo marker as its index byte.
pub open spec fn enc_rinfo(x: ReadingInfo) -> Seq<u8> {
    seq![x.idx()]
}

/// The ReadingInfo marker of the byte at `pos`.
pub open spec fn dec_rinfo(b: Seq<u8>, pos: int) -> Option<(ReadingInfo, int)> {
    match dec_u8(b, pos) {
        None => None,
        Some((v, p)) => match ReadingInfo::from_idx(v) {
            None => None,
            Some(x) => Some((x, p)),
        },
    }
}

/// Encode one ReadingInfo marker.
pub fn encode_rinfo(out: &mut Vec<u8>, x: ReadingInfo)
    ensures
        final(out)@ == old(out)@ + enc_rinfo(x),
{
    encode_u8(out, x.index());
}

/// Decode one ReadingInfo marker.
pub fn decode_rinfo(buf: &Vec<u8>, pos: usize) -> (r: Option<(ReadingInfo, usize)>)
    ensures
        r is Some <==> dec_rinfo(buf@, pos as int) is Some,
        r matches Some((v, p)) ==> dec_rinfo(buf@, pos as int) == Some((v, p as int)) && pos < p
            <= buf@.len(),
{
    match decode_u8(buf, pos) {
        None => None,
        Some((v, p)) => match ReadingInfo::from_index(v) {
            None => None,
            Some(x) => Some((x, p)),
        },
    }
}

/// The marker written is the marker read.
pub proof fn lemma_dec_enc_rinfo(b: Seq<u8>, pos: int, x: ReadingInfo)
    requires
        0 <= pos,
        pos + enc_rinfo(x).len() <= b.len(),
        b.subrange(pos, pos + enc_rinfo(x).len()) == enc_rinfo(x),
    ensures
        dec_rinfo(b, pos) == Some((x, pos + enc_rinfo(x).len())),
{
    lemma_dec_enc_u8(b, pos, x.idx());
    ReadingInfo::lemma_from_idx_of_idx(x);
}

/// One KanjiInfo marker as its index byte.
pub open spec fn enc_kinfo(x: KanjiInfo) -> Seq<u8> {
    seq![x.idx()]
}

/// The KanjiInfo marker of the byte at `pos`.
pub open spec fn dec_kinfo(b: Seq<u8>, pos: int) -> Option<(KanjiInfo, int)> {
    match dec_u8(b, pos) {
        None => None,
        Some((v, p)) => match KanjiInfo::from_idx(v) {
            None => None,
            Some(x) => Some((x, p)),
        },
    }
}

/// Encode one KanjiInfo marker.
pub fn encode_kinfo(out: &mut Vec<u8>, x: KanjiInfo)
    ensures
        final(out)@ == old(out)@ + enc_kinfo(x),
{
    encode_u8(out, x.index());
}

/// Decode one KanjiInfo marker.
pub fn decode_kinfo(buf: &Vec<u8>, pos: usize) -> (r: Option<(KanjiInfo, usize)>)
    ensures
        r is Some <==> dec_kinfo(buf@, pos as int) is Some,
        r matches Some((v, p)) ==> dec_kinfo(buf@, pos as int) == Some((v, p as int)) && pos < p
            <= buf@.len(),
{
    match decode_u8(buf, pos) {
        None => None,
        Some((v, p)) => match KanjiInfo::from_index(v) {
            None => None,
            Some(x) => Some((x, p)),
        },
    }
}

/// The marker written is the marker read.
pub proof fn lemma_dec_enc_kinfo(b: Seq<u8>, pos: int, x: KanjiInfo)
    requires
        0 <= pos,
        pos + enc_kinfo(x).len() <= b.len(),
        b.subrange(pos, pos + enc_kinfo(x).len()) == enc_kinfo(x),
    ensures
        dec_kinfo(b, pos) == Some((x, pos + enc_kinfo(x).len())),
{
    lemma_dec_enc_u8(b, pos, x.idx());
    KanjiInfo::lemma_from_idx_of_idx(x);
}

/// One priority marker: its category byte then its level byte.
pub open spec fn enc_priority(x: Priority) -> Seq<u8> {
    seq![x.category, x.level]
}

/// The priority marker at `pos`.
pub open spec fn dec_priority(b: Seq<u8>, pos: int) -> Option<(Priority, int)> {
    if 0 <= pos && pos + 2 <= b.len() {
        Some((Priority { category: b[pos], level: b[pos + 1] }, pos + 2))
    } else {
        None
    }
}

/// Encode one priority marker.
pub fn encode_priority(out: &mut Vec<u8>, x: Priority)
    ensures
        final(out)@ == old(out)@ + enc_priority(x),
{
    out.push(x.category);
    out.push(x.level);
    assert(out@ =~= old(out)@ + enc_priority(x));
}

/// Decode one priority marker.
pub fn decode_priority(buf: &Vec<u8>, pos: usize) -> (r: Option<(Priority, usize)>)
    ensures
        r is Some <==> dec_priority(buf@, pos as int) is Some,
        r matches Some((v, p)) ==> dec_priority(buf@, pos as int) == Some((v, p as int)) && pos < p
            <= buf@.len(),
{
    if pos <= buf.len() && buf.len() - pos >= 2 {
        Some((Priority { category: buf[pos], level: buf[pos + 1] }, pos + 2))
    } else {
        None
    }
}

/// The priority written is the priority read.
pub proof fn lemma_dec_enc_priority(b: Seq<u8>, pos: int, x: Priority)
    requires
        0 <= pos,
        pos + enc_priority(x).len() <= b.len(),
        b.subrange(pos, pos + enc_priority(x).len()) == enc_priority(x),
    ensures
        dec_priority(b, pos) == Some((x, pos + enc_priority(x).len())),
{
    assert(b[pos] == b.subrange(pos, pos + 2)[0]);
    assert(b[pos + 1] == b.subrange(pos, pos + 2)[1]);
}

/// The items themselves: the item is its own abstract value.
pub open spec fn models_char(s: Seq<char>) -> Seq<char> {
    s
}

/// The items of a sequence, one after the other.
pub open spec fn enc_seq_char(xs: Seq<char>) -> Seq<u8>
    decreases xs.len(),
{
    if xs.len() == 0 {
        Seq::empty()
    } else {
        enc_char(xs[0]) + enc_seq_char(xs.drop_first())
    }
}

/// Exactly `n` items read one after the other.
pub open spec fn dec_seq_char(b: Seq<u8>, pos: int, n: int) -> Option<(Seq<char>, int)>
    decreases n,
{
    if n <= 0 {
        Some((Seq::empty(), pos))
    } else {
        match dec_char(b, pos) {
            None => None,
            Some((x, p)) => match dec_seq_char(b, p, n - 1) {
                None => None,
                Some((xs, p2)) => Some((seq![x] + xs, p2)),
            },
        }
    }
}

/// A count-prefixed sequence of items.
pub open spec fn enc_list_char(xs: Seq<char>) -> Seq<u8> {
    enc_u64(xs.len() as u64) + enc_seq_char(xs)
}

/// The count-prefixed sequence of items at `pos`.
pub open spec fn dec_list_char(b: Seq<u8>, pos: int) -> Option<(Seq<char>, int)> {
    match dec_u64(b, pos) {
        None => None,
        Some((n, p)) => if n <= usize::MAX as u64 {
            dec_seq_char(b, p, n as int)
        } else {
            None
        },
    }
}

/// One more item extends the encoding at its end.
pub proof fn lemma_enc_seq_char_push(xs: Seq<char>, x: char)
    ensures
        enc_seq_char(xs.push(x)) == enc_seq_char(xs) + enc_char(x),
    decreases xs.len(),
{
    reveal_with_fuel(enc_seq_char, 3);
    if xs.len() == 0 {
        assert(xs.push(x)[0] == x);
        assert(xs.push(x).drop_first() =~= Seq::<char>::empty());
        assert(enc_seq_char(xs.push(x)) =~= enc_seq_char(xs) + enc_char(x));
    } else {
        assert(xs.push(x)[0] == xs[0]);
        assert(xs.push(x).drop_first() =~= xs.drop_first().push(x));
        lemma_enc_seq_char_push(xs.drop_first(), x);
        assert(enc_seq_char(xs.push(x)) == enc_char(xs[0]) + enc_seq_char(
            xs.drop_first().push(x),
        ));
        assert(enc_seq_char(xs.push(x)) =~= enc_seq_char(xs) + enc_char(x));
    }
}

/// Encode a count-prefixed sequence of items.
pub fn encode_list_char(out: &mut Vec<u8>, s: &Vec<char>)
    ensures
        final(out)@ == old(out)@ + enc_list_char(models_char(s@)),
{
    encode_u64(out, s.len() as u64);
    let ghost base = out@;
    let mut i: usize = 0;
    while i < s.len()
        invariant
            i <= s@.len(),
            out@ == base + enc_seq_char(models_char(s@).take(i as int)),
        decreases s@.len() - i,
    {
        let ghost before = out@;
        encode_char(out, s[i]);
        proof {
            let m = models_char(s@);
            assert(m.take(i + 1) =~= m.take(i as int).push(m[i as int]));
            lemma_enc_seq_char_push(m.take(i as int), m[i as int]);
            assert(out@ =~= base + enc_seq_char(m.take(i + 1)));
        }
        i += 1;
    }
    proof {
        let m = models_char(s@);
        assert(m.take(s@.len() as int) =~= m);
    }
}

/// Decode a count-prefixed sequence of items.
pub fn decode_list_char(buf: &Vec<u8>, pos: usize) -> (r: Option<(Vec<char>, usize)>)
    ensures
        r is Some <==> dec_list_char(buf@, pos as int) is Some,
        r matches Some((v, p)) ==> dec_list_char(buf@, pos as int) == Some(
            (models_char(v@), p as int),
        ) && pos < p <= buf@.len(),
{
    let (n64, p0) = match decode_u64(buf, pos) {
        None => {
            return None;
        },
        Some(x) => x,
    };
    if n64 > usize::MAX as u64 {
        return None;
    }
    let n = n64 as usize;
    assert(n as int == n64 as int);
    let mut acc: Vec<char> = Vec::new();
    let mut p = p0;
    let mut i: usize = 0;
    proof {
        assert(models_char(acc@) + dec_seq_char(buf@, p as int, n as int)->Some_0.0
            =~= dec_seq_char(buf@, p as int, n as int)->Some_0.0);
    }
    while i < n
        invariant
            i <= n,
            pos < p <= buf@.len(),
            acc@.len() == i,
            dec_list_char(buf@, pos as int) == dec_seq_char(buf@, p0 as int, n as int),
            dec_seq_char(buf@, p0 as int, n as int) == match dec_seq_char(
                buf@,
                p as int,
                n - i,
            ) {
                None => None::<(Seq<char>, int)>,
                Some((s, q)) => Some((models_char(acc@) + s, q)),
            },
        decreases n - i,
    {
        match decode_char(buf, p) {
            None => {
                proof {
                    assert(dec_seq_char(buf@, p as int, n - i) is None);
                }
                return None;
            },
            Some((x, p2)) => {
                proof {
                    let m = models_char(acc@);
                    let mx = models_char(acc@.push(x))[i as int];
                    assert(models_char(acc@.push(x)) =~= m.push(mx));
                    match dec_seq_char(buf@, p2 as int, n - i - 1) {
                        None => {},
                        Some((s, q)) => {
                            assert(m + (seq![mx] + s) =~= m.push(mx) + s);
                        },
                    }
                }
                acc.push(x);
                p = p2;
                i += 1;
            },
        }
    }
    proof {
        assert(models_char(acc@) + Seq::<char>::empty() =~= models_char(acc@));
    }
    Some((acc, p))
}

/// The sequence written is the sequence read.
pub proof fn lemma_dec_enc_seq_char(b: Seq<u8>, pos: int, xs: Seq<char>)
    requires
        0 <= pos,
        pos + enc_seq_char(xs).len() <= b.len(),
        b.subrange(pos, pos + enc_seq_char(xs).len()) == enc_seq_char(xs),
    ensures
        dec_seq_char(b, pos, xs.len() as int) == Some((xs, pos + enc_seq_char(xs).len())),
    decreases xs.len(),
{
    if xs.len() == 0 {
    } else {
        let e0 = enc_char(xs[0]);
        let rest = enc_seq_char(xs.drop_first());
        lemma_enc_parts(b, pos, e0, rest);
        lemma_dec_enc_char(b, pos, xs[0]);
        lemma_dec_enc_seq_char(b, pos + e0.len(), xs.drop_first());
        assert(seq![xs[0]] + xs.drop_first() =~= xs);
    }
}

/// The count-prefixed sequence written is the sequence read.
pub proof fn lemma_dec_enc_list_char(b: Seq<u8>, pos: int, xs: Seq<char>)
    requires
        0 <= pos,
        xs.len() <= usize::MAX,
        pos + enc_list_char(xs).len() <= b.len(),
        b.subrange(pos, pos + enc_list_char(xs).len()) == enc_list_char(xs),
    ensures
        dec_list_char(b, pos) == Some((xs, pos + enc_list_char(xs).len())),
{
    let cnt = enc_u64(xs.len() as u64);
    let rest = enc_seq_char(xs);
    lemma_enc_parts(b, pos, cnt, rest);
    lemma_dec_enc_u64(b, pos, xs.len() as u64);
    lemma_dec_enc_seq_char(b, pos + cnt.len(), xs);
}

/// The items themselves: the item is its own abstract value.
pub open spec fn models_priority(s: Seq<Priority>) -> Seq<Priority> {
    s
}

/// The items of a sequence, one after the other.
pub open spec fn enc_seq_priority(xs: Seq<Priority>) -> Seq<u8>
    decreases xs.len(),
{
    if xs.len() == 0 {
        Seq::empty()
    } else {
        enc_priority(xs[0]) + enc_seq_priority(xs.drop_first())
    }
}

/// Exactly `n` items read one after the other.
pub open spec fn dec_seq_priority(b: Seq<u8>, pos: int, n: int) -> Option<(Seq<Priority>, int)>
    decreases n,
{
    if n <= 0 {
        Some((Seq::empty(), pos))
    } else {
        match dec_priority(b, pos) {
            None => None,
            Some((x, p)) => match dec_seq_priority(b, p, n - 1) {
                None => None,
                Some((xs, p2)) => Some((seq![x] + xs, p2)),
            },
        }
    }
}

/// A count-prefixed sequence of items.
pub open spec fn enc_list_priority(xs: Seq<Priority>) -> Seq<u8> {
    enc_u64(xs.len() as u64) + enc_seq_priority(xs)
}

/// The count-prefixed sequence of items at `pos`.
pub open spec fn dec_list_priority(b: Seq<u8>, pos: int) -> Option<(Seq<Priority>, int)> {
    match dec_u64(b, pos) {
        None => None,
        Some((n, p)) => if n <= usize::MAX as u64 {
            dec_seq_priority(b, p, n as int)
        } else {
            None
        },
    }
}

/// One more item extends the encoding at its end.
pub proof fn lemma_enc_seq_priority_push(xs: Seq<Priority>, x: Priority)
    ensures
        enc_seq_priority(xs.push(x)) == enc_seq_priority(xs) + enc_priority(x),
    decreases xs.len(),
{
    reveal_with_fuel(enc_seq_priority, 3);
    if xs.len() == 0 {
        assert(xs.push(x)[0] == x);
        assert(xs.push(x).drop_first() =~= Seq::<Priority>::empty());
        assert(enc_seq_priority(xs.push(x)) =~= enc_seq_priority(xs) + enc_priority(x));
    } else {
        assert(xs.push(x)[0] == xs[0]);
        assert(xs.push(x).drop_first() =~= xs.drop_first().push(x));
        lemma_enc_seq_priority_push(xs.drop_first(), x);
        assert(enc_seq_priority(xs.push(x)) == enc_priority(xs[0]) + enc_seq_priority(
            xs.drop_first().push(x),
        ));
        assert(enc_seq_priority(xs.push(x)) =~= enc_seq_priority(xs) + enc_priority(x));
    }
}

/// Encode a count-prefixed sequence of items.
pub fn encode_list_priority(out: &mut Vec<u8>, s: &Vec<Priority>)
    ensures
        final(out)@ == old(out)@ + enc_list_priority(models_priority(s@)),
{
    encode_u64(out, s.len() as u64);
    let ghost base = out@;
    let mut i: usize = 0;
    while i < s.len()
        invariant
            i <= s@.len(),
            out@ == base + enc_seq_priority(models_priority(s@).take(i as int)),
        decreases s@.len() - i,
    {
        let ghost before = out@;
        encode_priority(out, s[i]);
        proof {
            let m = models_priority(s@);
            assert(m.take(i + 1) =~= m.take(i as int).push(m[i as int]));
            lemma_enc_seq_priority_push(m.take(i as int), m[i as int]);
            assert(out@ =~= base + enc_seq_priority(m.take(i + 1)));
        }
        i += 1;
    }
    proof {
        let m = models_priority(s@);
        assert(m.take(s@.len() as int) =~= m);
    }
}

/// Decode a count-prefixed sequence of items.
pub fn decode_list_priority(buf: &Vec<u8>, pos: usize) -> (r: Option<(Vec<Priority>, usize)>)
    ensures
        r is Some <==> dec_list_priority(buf@, pos as int) is Some,
        r matches Some((v, p)) ==> dec_list_priority(buf@, pos as int) == Some(
            (models_priority(v@), p as int),
        ) && pos < p <= buf@.len(),
{
    let (n64, p0) = match decode_u64(buf, pos) {
        None => {
            return None;
        },
        Some(x) => x,
    };
    if n64 > usize::MAX as u64 {
        return None;
    }
    let n = n64 as usize;
    assert(n as int == n64 as int);
    let mut acc: Vec<Priority> = Vec::new();
    let mut p = p0;
    let mut i: usize = 0;
    proof {
        assert(models_priority(acc@) + dec_seq_priority(buf@, p as int, n as int)->Some_0.0
            =~= dec_seq_priority(buf@, p as int, n as int)->Some_0.0);
    }
    while i < n
        invariant
            i <= n,
            pos < p <= buf@.len(),
            acc@.len() == i,
            dec_list_priority(buf@, pos as int) == dec_seq_priority(buf@, p0 as int, n as int),
            dec_seq_priority(buf@, p0 as int, n as int) == match dec_seq_priority(
                buf@,
                p as int,
                n - i,
            ) {
                None => None::<(Seq<Priority>, int)>,
                Some((s, q)) => Some((models_priority(acc@) + s, q)),
            },
        decreases n - i,
    {
        match decode_priority(buf, p) {
            None => {
                proof {
                    assert(dec_seq_priority(buf@, p as int, n - i) is None);
                }
                return None;
            },
            Some((x, p2)) => {
                proof {
                    let m = models_priority(acc@);
                    let mx = models_priority(acc@.push(x))[i as int];
                    assert(models_priority(acc@.push(x)) =~= m.push(mx));
                    match dec_seq_priority(buf@, p2 as int, n - i - 1) {
                        None => {},
                        Some((s, q)) => {
                            assert(m + (seq![mx] + s) =~= m.push(mx) + s);
                        },
                    }
                }
                acc.push(x);
                p = p2;
                i += 1;
            },
        }
    }
    proof {
        assert(models_priority(acc@) + Seq::<Priority>::empty() =~= models_priority(acc@));
    }
    Some((acc, p))
}

/// The sequence written is the sequence read.
pub proof fn lemma_dec_enc_seq_priority(b: Seq<u8>, pos: int, xs: Seq<Priority>)
    requires
        0 <= pos,
        pos + enc_seq_priority(xs).len() <= b.len(),
        b.subrange(pos, pos + enc_seq_priority(xs).len()) == enc_seq_priority(xs),
    ensures
        dec_seq_priority(b, pos, xs.len() as int) == Some((xs, pos + enc_seq_priority(xs).len())),
    decreases xs.len(),
{
    if xs.len() == 0 {
    } else {
        let e0 = enc_priority(xs[0]);
        let rest = enc_seq_priority(xs.drop_first());
        lemma_enc_parts(b, pos, e0, rest);
        lemma_dec_enc_priority(b, pos, xs[0]);
        lemma_dec_enc_seq_priority(b, pos + e0.len(), xs.drop_first());
        assert(seq![xs[0]] + xs.drop_first() =~= xs);
    }
}

/// The count-prefixed sequence written is the sequence read.
pub proof fn lemma_dec_enc_list_priority(b: Seq<u8>, pos: int, xs: Seq<Priority>)
    requires
        0 <= pos,
        xs.len() <= usize::MAX,
        pos + enc_list_priority(xs).len() <= b.len(),
        b.subrange(pos, pos + enc_list_priority(xs).len()) == enc_list_priority(xs),
    ensures
        dec_list_priority(b, pos) == Some((xs, pos + enc_list_priority(xs).len())),
{
    let cnt = enc_u64(xs.len() as u64);
    let rest = enc_seq_priority(xs);
    lemma_enc_parts(b, pos, cnt, rest);
    lemma_dec_enc_u64(b, pos, xs.len() as u64);
    lemma_dec_enc_seq_priority(b, pos + cnt.len(), xs);
}

/// The items themselves: the item is its own abstract value.
pub open spec fn models_rinfo(s: Seq<ReadingInfo>) -> Seq<ReadingInfo> {
    s
}

/// The items of a sequence, one after the other.
pub open spec fn enc_seq_rinfo(xs: Seq<ReadingInfo>) -> Seq<u8>
    decreases xs.len(),
{
    if xs.len() == 0 {
        Seq::empty()
    } else {
        enc_rinfo(xs[0]) + enc_seq_rinfo(xs.drop_first())
    }
}

/// Exactly `n` items read one after the other.
pub open spec fn dec_seq_rinfo(b: Seq<u8>, pos: int, n: int) -> Option<(Seq<ReadingInfo>, int)>
    decreases n,
{
    if n <= 0 {
        Some((Seq::empty(), pos))
    } else {
        match dec_rinfo(b, pos) {
            None => None,
            Some((x, p)) => match dec_seq_rinfo(b, p, n - 1) {
                None => None,
                Some((xs, p2)) => Some((seq![x] + xs, p2)),
            },
        }
    }
}

/// A count-prefixed sequence of items.
pub open spec fn enc_list_rinfo(xs: Seq<ReadingInfo>) -> Seq<u8> {
    enc_u64(xs.len() as u64) + enc_seq_rinfo(xs)
}

/// The count-prefixed sequence of items at `pos`.
pub open spec fn dec_list_rinfo(b: Seq<u8>, pos: int) -> Option<(Seq<ReadingInfo>, int)> {
    match dec_u64(b, pos) {
        None => None,
        Some((n, p)) => if n <= usize::MAX as u64 {
            dec_seq_rinfo(b, p, n as int)
        } else {
            None
        },
    }
}

/// One more item extends the encoding at its end.
pub proof fn lemma_enc_seq_rinfo_push(xs: Seq<ReadingInfo>, x: ReadingInfo)
    ensures
        enc_seq_rinfo(xs.push(x)) == enc_seq_rinfo(xs) + enc_rinfo(x),
    decreases xs.len(),
{
    reveal_with_fuel(enc_seq_rinfo, 3);
    if xs.len() == 0 {
        assert(xs.push(x)[0] == x);
        assert(xs.push(x).drop_first() =~= Seq::<ReadingInfo>::empty());
        assert(enc_seq_rinfo(xs.push(x)) =~= enc_seq_rinfo(xs) + enc_rinfo(x));
    } else {
        assert(xs.push(x)[0] == xs[0]);
        assert(xs.push(x).drop_first() =~= xs.drop_first().push(x));
        lemma_enc_seq_rinfo_push(xs.drop_first(), x);
        assert(enc_seq_rinfo(xs.push(x)) == enc_rinfo(xs[0]) + enc_seq_rinfo(
            xs.drop_first().push(x),
        ));
        assert(enc_seq_rinfo(xs.push(x)) =~= enc_seq_rinfo(xs) + enc_rinfo(x));
    }
}

/// Encode a count-prefixed sequence of items.
pub fn encode_list_rinfo(out: &mut Vec<u8>, s: &Vec<ReadingInfo>)
    ensures
        final(out)@ == old(out)@ + enc_list_rinfo(models_rinfo(s@)),
{
    encode_u64(out, s.len() as u64);
    let ghost base = out@;
    let mut i: usize = 0;
    while i < s.len()
        invariant
            i <= s@.len(),
            out@ == base + enc_seq_rinfo(models_rinfo(s@).take(i as int)),
        decreases s@.len() - i,
    {
        let ghost before = out@;
        encode_rinfo(out, s[i]);
        proof {
            let m = models_rinfo(s@);
            assert(m.take(i + 1) =~= m.take(i as int).push(m[i as int]));
            lemma_enc_seq_rinfo_push(m.take(i as int), m[i as int]);
            assert(out@ =~= base + enc_seq_rinfo(m.take(i + 1)));
        }
        i += 1;
    }
    proof {
        let m = models_rinfo(s@);
        assert(m.take(s@.len() as int) =~= m);
    }
}

/// Decode a count-prefixed sequence of items.
pub fn decode_list_rinfo(buf: &Vec<u8>, pos: usize) -> (r: Option<(Vec<ReadingInfo>, usize)>)
    ensures
        r is Some <==> dec_list_rinfo(buf@, pos as int) is Some,
        r matches Some((v, p)) ==> dec_list_rinfo(buf@, pos as int) == Some(
            (models_rinfo(v@), p as int),
        ) && pos < p <= buf@.len(),
{
    let (n64, p0) = match decode_u64(buf, pos) {
        None => {
            return None;
        },
        Some(x) => x,
    };
    if n64 > usize::MAX as u64 {
        return None;
    }
    let n = n64 as usize;
    assert(n as int == n64 as int);
    let mut acc: Vec<ReadingInfo> = Vec::new();
    let mut p = p0;
    let mut i: usize = 0;
    proof {
        assert(models_rinfo(acc@) + dec_seq_rinfo(buf@, p as int, n as int)->Some_0.0
            =~= dec_seq_rinfo(buf@, p as int, n as int)->Some_0.0);
    }
    while i < n
        invariant
            i <= n,
            pos < p <= buf@.len(),
            acc@.len() == i,
            dec_list_rinfo(buf@, pos as int) == dec_seq_rinfo(buf@, p0 as int, n as int),
            dec_seq_rinfo(buf@, p0 as int, n as int) == match dec_seq_rinfo(
                buf@,
                p as int,
                n - i,
            ) {
                None => None::<(Seq<ReadingInfo>, int)>,
                Some((s, q)) => Some((models_rinfo(acc@) + s, q)),
            },
        decreases n - i,
    {
        match decode_rinfo(buf, p) {
            None => {
                proof {
                    assert(dec_seq_rinfo(buf@, p as int, n - i) is None);
                }
                return None;
            },
            Some((x, p2)) => {
                proof {
                    let m = models_rinfo(acc@);
                    let mx = models_rinfo(acc@.push(x))[i as int];
                    assert(models_rinfo(acc@.push(x)) =~= m.push(mx));
                    match dec_seq_rinfo(buf@, p2 as int, n - i - 1) {
                        None => {},
                        Some((s, q)) => {
                            assert(m + (seq![mx] + s) =~= m.push(mx) + s);
                        },
                    }
                }
                acc.push(x);
                p = p2;
                i += 1;
            },
        }
    }
    proof {
        assert(models_rinfo(acc@) + Seq::<ReadingInfo>::empty() =~= models_rinfo(acc@));
    }
    Some((acc, p))
}

/// The sequence written is the sequence read.
pub proof fn lemma_dec_enc_seq_rinfo(b: Seq<u8>, pos: int, xs: Seq<ReadingInfo>)
    requires
        0 <= pos,
        pos + enc_seq_rinfo(xs).len() <= b.len(),
        b.subrange(pos, pos + enc_seq_rinfo(xs).len()) == enc_seq_rinfo(xs),
    ensures
        dec_seq_rinfo(b, pos, xs.len() as int) == Some((xs, pos + enc_seq_rinfo(xs).len())),
    decreases xs.len(),
{
    if xs.len() == 0 {
    } else {
        let e0 = enc_rinfo(xs[0]);
        let rest = enc_seq_rinfo(xs.drop_first());
        lemma_enc_parts(b, pos, e0, rest);
        lemma_dec_enc_rinfo(b, pos, xs[0]);
        lemma_dec_enc_seq_rinfo(b, pos + e0.len(), xs.drop_first());
        assert(seq![xs[0]] + xs.drop_first() =~= xs);
    }
}

/// The count-prefixed sequence written is the sequence read.
pub proof fn lemma_dec_enc_list_rinfo(b: Seq<u8>, pos: int, xs: Seq<ReadingInfo>)
    requires
        0 <= pos,
        xs.len() <= usize::MAX,
        pos + enc_list_rinfo(xs).len() <= b.len(),
        b.subrange(pos, pos + enc_list_rinfo(xs).len()) == enc_list_rinfo(xs),
    ensures
        dec_list_rinfo(b, pos) == Some((xs, pos + enc_list_rinfo(xs).len())),
{
    let cnt = enc_u64(xs.len() as u64);
    let rest = enc_seq_rinfo(xs);
    lemma_enc_parts(b, pos, cnt, rest);
    lemma_dec_enc_u64(b, pos, xs.len() as u64);
    lemma_dec_enc_seq_rinfo(b, pos + cnt.len(), xs);
}

/// The items themselves: the item is its own abstract value.
pub open spec fn models_kinfo(s: Seq<KanjiInfo>) -> Seq<KanjiInfo> {
    s
}

/// The items of a sequence, one after the other.
pub open spec fn enc_seq_kinfo(xs: Seq<KanjiInfo>) -> Seq<u8>
    decreases xs.len(),
{
    if xs.len() == 0 {
        Seq::empty()
    } else {
        enc_kinfo(xs[0]) + enc_seq_kinfo(xs.drop_first())
    }
}

/// Exactly `n` items read one after the other.
pub open spec fn dec_seq_kinfo(b: Seq<u8>, pos: int, n: int) -> Option<(Seq<KanjiInfo>, int)>
    decreases n,
{
    if n <= 0 {
        Some((Seq::empty(), pos))
    } else {
        match dec_kinfo(b, pos) {
            None => None,
            Some((x, p)) => match dec_seq_kinfo(b, p, n - 1) {
                None => None,
                Some((xs, p2)) => Some((seq![x] + xs, p2)),
            },
        }
    }
}

/// A count-prefixed sequence of items.
pub open spec fn enc_list_kinfo(xs: Seq<KanjiInfo>) -> Seq<u8> {
    enc_u64(xs.len() as u64) + enc_seq_kinfo(xs)
}

/// The count-prefixed sequence of items at `pos`.
pub open spec fn dec_list_kinfo(b: Seq<u8>, pos: int) -> Option<(Seq<KanjiInfo>, int)> {
    match dec_u64(b, pos) {
        None => None,
        Some((n, p)) => if n <= usize::MAX as u64 {
            dec_seq_kinfo(b, p, n as int)
        } else {
            None
        },
    }
}

/// One more item extends the encoding at its end.
pub proof fn lemma_enc_seq_kinfo_push(xs: Seq<KanjiInfo>, x: KanjiInfo)
    ensures
        enc_seq_kinfo(xs.push(x)) == enc_seq_kinfo(xs) + enc_kinfo(x),
    decreases xs.len(),
{
    reveal_with_fuel(enc_seq_kinfo, 3);
    if xs.len() == 0 {
        assert(xs.push(x)[0] == x);
        assert(xs.push(x).drop_first() =~= Seq::<KanjiInfo>::empty());
        assert(enc_seq_kinfo(xs.push(x)) =~= enc_seq_kinfo(xs) + enc_kinfo(x));
    } else {
        assert(xs.push(x)[0] == xs[0]);
        assert(xs.push(x).drop_first() =~= xs.drop_first().push(x));
        lemma_enc_seq_kinfo_push(xs.drop_first(), x);
        assert(enc_seq_kinfo(xs.push(x)) == enc_kinfo(xs[0]) + enc_seq_kinfo(
            xs.drop_first().push(x),
        ));
        assert(enc_seq_kinfo(xs.push(x)) =~= enc_seq_kinfo(xs) + enc_kinfo(x));
    }
}

/// Encode a count-prefixed sequence of items.
pub fn encode_list_kinfo(out: &mut Vec<u8>, s: &Vec<KanjiInfo>)
    ensures
        final(out)@ == old(out)@ + enc_list_kinfo(models_kinfo(s@)),
{
    encode_u64(out, s.len() as u64);
    let ghost base = out@;
    let mut i: usize = 0;
    while i < s.len()
        invariant
            i <= s@.len(),
            out@ == base + enc_seq_kinfo(models_kinfo(s@).take(i as int)),
        decreases s@.len() - i,
    {
        let ghost before = out@;
        encode_kinfo(out, s[i]);
        proof {
            let m = models_kinfo(s@);
            assert(m.take(i + 1) =~= m.take(i as int).push(m[i as int]));
            lemma_enc_seq_kinfo_push(m.take(i as int), m[i as int]);
            assert(out@ =~= base + enc_seq_kinfo(m.take(i + 1)));
        }
        i += 1;
    }
    proof {
        let m = models_kinfo(s@);
        assert(m.take(s@.len() as int) =~= m);
    }
}

/// Decode a count-prefixed sequence of items.
pub fn decode_list_kinfo(buf: &Vec<u8>, pos: usize) -> (r: Option<(Vec<KanjiInfo>, usize)>)
    ensures
        r is Some <==> dec_list_kinfo(buf@, pos as int) is Some,
        r matches Some((v, p)) ==> dec_list_kinfo(buf@, pos as int) == Some(
            (models_kinfo(v@), p as int),
        ) && pos < p <= buf@.len(),
{
    let (n64, p0) = match decode_u64(buf, pos) {
        None => {
            return None;
        },
        Some(x) => x,
    };
    if n64 > usize::MAX as u64 {
        return None;
    }
    let n = n64 as usize;
    assert(n as int == n64 as int);
    let mut acc: Vec<KanjiInfo> = Vec::new();
    let mut p = p0;
    let mut i: usize = 0;
    proof {
        assert(models_kinfo(acc@) + dec_seq_kinfo(buf@, p as int, n as int)->Some_0.0
            =~= dec_seq_kinfo(buf@, p as int, n as int)->Some_0.0);
    }
    while i < n
        invariant
            i <= n,
            pos < p <= buf@.len(),
            acc@.len() == i,
            dec_list_kinfo(buf@, pos as int) == dec_seq_kinfo(buf@, p0 as int, n as int),
            dec_seq_kinfo(buf@, p0 as int, n as int) == match dec_seq_kinfo(
                buf@,
                p as int,
                n - i,
            ) {
                None => None::<(Seq<KanjiInfo>, int)>,
                Some((s, q)) => Some((models_kinfo(acc@) + s, q)),
            },
        decreases n - i,
    {
        match decode_kinfo(buf, p) {
            None => {
                proof {
                    assert(dec_seq_kinfo(buf@, p as int, n - i) is None);
                }
                return None;
            },
            Some((x, p2)) => {
                proof {
                    let m = models_kinfo(acc@);
                    let mx = models_kinfo(acc@.push(x))[i as int];
                    assert(models_kinfo(acc@.push(x)) =~= m.push(mx));
                    match dec_seq_kinfo(buf@, p2 as int, n - i - 1) {
                        None => {},
                        Some((s, q)) => {
                            assert(m + (seq![mx] + s) =~= m.push(mx) + s);
                        },
                    }
                }
                acc.push(x);
                p = p2;
                i += 1;
            },
        }
    }
    proof {
        assert(models_kinfo(acc@) + Seq::<KanjiInfo>::empty() =~= models_kinfo(acc@));
    }
    Some((acc, p))
}

/// The sequence written is the sequence read.
pub proof fn lemma_dec_enc_seq_kinfo(b: Seq<u8>, pos: int, xs: Seq<KanjiInfo>)
    requires
        0 <= pos,
        pos + enc_seq_kinfo(xs).len() <= b.len(),
        b.subrange(pos, pos + enc_seq_kinfo(xs).len()) == enc_seq_kinfo(xs),
    ensures
        dec_seq_kinfo(b, pos, xs.len() as int) == Some((xs, pos + enc_seq_kinfo(xs).len())),
    decreases xs.len(),
{
    if xs.len() == 0 {
    } else {
        let e0 = enc_kinfo(xs[0]);
        let rest = enc_seq_kinfo(xs.drop_first());
        lemma_enc_parts(b, pos, e0, rest);
        lemma_dec_enc_kinfo(b, pos, xs[0]);
        lemma_dec_enc_seq_kinfo(b, pos + e0.len(), xs.drop_first());
        assert(seq![xs[0]] + xs.drop_first() =~= xs);
    }
}

/// The count-prefixed sequence written is the sequence read.
pub proof fn lemma_dec_enc_list_kinfo(b: Seq<u8>, pos: int, xs: Seq<KanjiInfo>)
    requires
        0 <= pos,
        xs.len() <= usize::MAX,
        pos + enc_list_kinfo(xs).len() <= b.len(),
        b.subrange(pos, pos + enc_list_kinfo(xs).len()) == enc_list_kinfo(xs),
    ensures
        dec_list_kinfo(b, pos) == Some((xs, pos + enc_list_kinfo(xs).len())),
{
    let cnt = enc_u64(xs.len() as u64);
    let rest = enc_seq_kinfo(xs);
    lemma_enc_parts(b, pos, cnt, rest);
    lemma_dec_enc_u64(b, pos, xs.len() as u64);
    lemma_dec_enc_seq_kinfo(b, pos + cnt.len(), xs);
}

/// One text: a count-prefixed character sequence.
pub open spec fn enc_text(s: Seq<char>) -> Seq<u8> {
    enc_list_char(s)
}

/// The text at `pos`.
pub open spec fn dec_text(b: Seq<u8>, pos: int) -> Option<(Seq<char>, int)> {
    dec_list_char(b, pos)
}

/// Encode one text.
pub fn encode_text(out: &mut Vec<u8>, s: &Vec<char>)
    ensures
        final(out)@ == old(out)@ + enc_text(s@),
{
    encode_list_char(out, s);
}

/// Decode one text.
pub fn decode_text(buf: &Vec<u8>, pos: usize) -> (r: Option<(Vec<char>, usize)>)
    ensures
        r is Some <==> dec_text(buf@, pos as int) is Some,
        r matches Some((v, p)) ==> dec_text(buf@, pos as int) == Some((v@, p as int)) && pos < p
            <= buf@.len(),
{
    decode_list_char(buf, pos)
}

/// A text whose length a vector can carry.
pub open spec fn wf_text(s: Seq<char>) -> bool {
    s.len() <= usize::MAX
}

/// The text written is the text read.
pub proof fn lemma_dec_enc_text(b: Seq<u8>, pos: int, x: Seq<char>)
    requires
        0 <= pos,
        wf_text(x),
        pos + enc_text(x).len() <= b.len(),
        b.subrange(pos, pos + enc_text(x).len()) == enc_text(x),
    ensures
        dec_text(b, pos) == Some((x, pos + enc_text(x).len())),
{
    lemma_dec_enc_list_char(b, pos, x);
}

/// The abstract values of the items.
pub open spec fn models_text(s: Seq<Vec<char>>) -> Seq<Seq<char>> {
    s.map_values(|e: Vec<char>| e@)
}

/// The items of a sequence, one after the other.
pub open spec fn enc_seq_text(xs: Seq<Seq<char>>) -> Seq<u8>
    decreases xs.len(),
{
    if xs.len() == 0 {
        Seq::empty()
    } else {
        enc_text(xs[0]) + enc_seq_text(xs.drop_first())
    }
}

/// Exactly `n` items read one after the other.
pub open spec fn dec_seq_text(b: Seq<u8>, pos: int, n: int) -> Option<(Seq<Seq<char>>, int)>
    decreases n,
{
    if n <= 0 {
        Some((Seq::empty(), pos))
    } else {
        match dec_text(b, pos) {
            None => None,
            Some((x, p)) => match dec_seq_text(b, p, n - 1) {
                None => None,
                Some((xs, p2)) => Some((seq![x] + xs, p2)),
            },
        }
    }
}

/// A count-prefixed sequence of items.
pub open spec fn enc_list_text(xs: Seq<Seq<char>>) -> Seq<u8> {
    enc_u64(xs.len() as u64) + enc_seq_text(xs)
}

/// The count-prefixed sequence of items at `pos`.
pub open spec fn dec_list_text(b: Seq<u8>, pos: int) -> Option<(Seq<Seq<char>>, int)> {
    match dec_u64(b, pos) {
        None => None,
        Some((n, p)) => if n <= usize::MAX as u64 {
            dec_seq_text(b, p, n as int)
        } else {
            None
        },
    }
}

/// One more item extends the encoding at its end.
pub proof fn lemma_enc_seq_text_push(xs: Seq<Seq<char>>, x: Seq<char>)
    ensures
        enc_seq_text(xs.push(x)) == enc_seq_text(xs) + enc_text(x),
    decreases xs.len(),
{
    reveal_with_fuel(enc_seq_text, 3);
    if xs.len() == 0 {
        assert(xs.push(x)[0] == x);
        assert(xs.push(x).drop_first() =~= Seq::<Seq<char>>::empty());
        assert(enc_seq_text(xs.push(x)) =~= enc_seq_text(xs) + enc_text(x));
    } else {
        assert(xs.push(x)[0] == xs[0]);
        assert(xs.push(x).drop_first() =~= xs.drop_first().push(x));
        lemma_enc_seq_text_push(xs.drop_first(), x);
        assert(enc_seq_text(xs.push(x)) == enc_text(xs[0]) + enc_seq_text(
            xs.drop_first().push(x),
        ));
        assert(enc_seq_text(xs.push(x)) =~= enc_seq_text(xs) + enc_text(x));
    }
}

/// Encode a count-prefixed sequence of items.
pub fn encode_list_text(out: &mut Vec<u8>, s: &Vec<Vec<char>>)
    ensures
        final(out)@ == old(out)@ + enc_list_text(models_text(s@)),
{
    encode_u64(out, s.len() as u64);
    let ghost base = out@;
    let mut i: usize = 0;
    while i < s.len()
        invariant
            i <= s@.len(),
            out@ == base + enc_seq_text(models_text(s@).take(i as int)),
        decreases s@.len() - i,
    {
        let ghost before = out@;
        encode_text(out, &s[i]);
        proof {
            let m = models_text(s@);
            assert(m.take(i + 1) =~= m.take(i as int).push(m[i as int]));
            lemma_enc_seq_text_push(m.take(i as int), m[i as int]);
            assert(out@ =~= base + enc_seq_text(m.take(i + 1)));
        }
        i += 1;
    }
    proof {
        let m = models_text(s@);
        assert(m.take(s@.len() as int) =~= m);
    }
}

/// Decode a count-prefixed sequence of items.
pub fn decode_list_text(buf: &Vec<u8>, pos: usize) -> (r: Option<(Vec<Vec<char>>, usize)>)
    ensures
        r is Some <==> dec_list_text(buf@, pos as int) is Some,
        r matches Some((v, p)) ==> dec_list_text(buf@, pos as int) == Some(
            (models_text(v@), p as int),
        ) && pos < p <= buf@.len(),
{
    let (n64, p0) = match decode_u64(buf, pos) {
        None => {
            return None;
        },
        Some(x) => x,
    };
    if n64 > usize::MAX as u64 {
        return None;
    }
    let n = n64 as usize;
    assert(n as int == n64 as int);
    let mut acc: Vec<Vec<char>> = Vec::new();
    let mut p = p0;
    let mut i: usize = 0;
    proof {
        assert(models_text(acc@) + dec_seq_text(buf@, p as int, n as int)->Some_0.0
            =~= dec_seq_text(buf@, p as int, n as int)->Some_0.0);
    }
    while i < n
        invariant
            i <= n,
            pos < p <= buf@.len(),
            acc@.len() == i,
            dec_list_text(buf@, pos as int) == dec_seq_text(buf@, p0 as int, n as int),
            dec_seq_text(buf@, p0 as int, n as int) == match dec_seq_text(
                buf@,
                p as int,
                n - i,
            ) {
                None => None::<(Seq<Seq<char>>, int)>,
                Some((s, q)) => Some((models_text(acc@) + s, q)),
            },
        decreases n - i,
    {
        match decode_text(buf, p) {
            None => {
                proof {
                    assert(dec_seq_text(buf@, p as int, n - i) is None);
                }
                return None;
            },
            Some((x, p2)) => {
                proof {
                    let m = models_text(acc@);
                    let mx = models_text(acc@.push(x))[i as int];
                    assert(models_text(acc@.push(x)) =~= m.push(mx));
                    match dec_seq_text(buf@, p2 as int, n - i - 1) {
                        None => {},
                        Some((s, q)) => {
                            assert(m + (seq![mx] + s) =~= m.push(mx) + s);
                        },
                    }
                }
                acc.push(x);
                p = p2;
                i += 1;
            },
        }
    }
    proof {
        assert(models_text(acc@) + Seq::<Seq<char>>::empty() =~= models_text(acc@));
    }
    Some((acc, p))
}

/// The sequence written is the sequence read.
pub proof fn lemma_dec_enc_seq_text(b: Seq<u8>, pos: int, xs: Seq<Seq<char>>)
    requires
        0 <= pos,
        pos + enc_seq_text(xs).len() <= b.len(),
        b.subrange(pos, pos + enc_seq_text(xs).len()) == enc_seq_text(xs),
        forall|i: int| 0 <= i < xs.len() ==> wf_text(#[trigger] xs[i]),
    ensures
        dec_seq_text(b, pos, xs.len() as int) == Some((xs, pos + enc_seq_text(xs).len())),
    decreases xs.len(),
{
    if xs.len() == 0 {
    } else {
        let e0 = enc_text(xs[0]);
        let rest = enc_seq_text(xs.drop_first());
        lemma_enc_parts(b, pos, e0, rest);
        lemma_dec_enc_text(b, pos, xs[0]);
        assert forall|i: int| 0 <= i < xs.drop_first().len() implies wf_text(#[trigger] xs.drop_first()[i]) by {
            assert(xs.drop_first()[i] == xs[i + 1]);
        }
        lemma_dec_enc_seq_text(b, pos + e0.len(), xs.drop_first());
        assert(seq![xs[0]] + xs.drop_first() =~= xs);
    }
}

/// The count-prefixed sequence written is the sequence read.
pub proof fn lemma_dec_enc_list_text(b: Seq<u8>, pos: int, xs: Seq<Seq<char>>)
    requires
        0 <= pos,
        xs.len() <= usize::MAX,
        pos + enc_list_text(xs).len() <= b.len(),
        b.subrange(pos, pos + enc_list_text(xs).len()) == enc_list_text(xs),
        forall|i: int| 0 <= i < xs.len() ==> wf_text(#[trigger] xs[i]),
    ensures
        dec_list_text(b, pos) == Some((xs, pos + enc_list_text(xs).len())),
{
    let cnt = enc_u64(xs.len() as u64);
    let rest = enc_seq_text(xs);
    lemma_enc_parts(b, pos, cnt, rest);
    lemma_dec_enc_u64(b, pos, xs.len() as u64);
    lemma_dec_enc_seq_text(b, pos + cnt.len(), xs);
}

/// The abstract value of one record.
pub open spec fn kanji_elem_model(e: KanjiElement) -> KanjiElementM {
    KanjiElementM {
        text: e.text@,
        info: e.info@,
        priority: e.priority@,
    }
}

/// Every sequence of the record fits in a vector.
pub open spec fn wf_kanji_elem(m: KanjiElementM) -> bool {
    &&& (wf_text(m.text))
    &&& (m.info.len() <= usize::MAX)
    &&& (m.priority.len() <= usize::MAX)
}

/// One record: its fields one after the other.
pub open spec fn enc_kanji_elem(m: KanjiElementM) -> Seq<u8> {
    enc_text(m.text) + enc_list_kinfo(m.info) + enc_list_priority(m.priority)
}

/// The record at `pos`.
pub open spec fn dec_kanji_elem(b: Seq<u8>, pos: int) -> Option<(KanjiElementM, int)> {
    match dec_text(b, pos) {
        None => None,
        Some((f0, p0)) => {
        match dec_list_kinfo(b, p0) {
            None => None,
            Some((f1, p1)) => {
            match dec_list_priority(b, p1) {
                None => None,
                Some((f2, p2)) => Some((KanjiElementM { text: f0, info: f1, priority: f2 }, p2)),
            }
                },
        }
            },
    }
}

/// Encode one record.
pub fn encode_kanji_elem(out: &mut Vec<u8>, e: &KanjiElement)
    ensures
        final(out)@ == old(out)@ + enc_kanji_elem(kanji_elem_model(*e)),
{
    encode_text(out, &e.text);
    encode_list_kinfo(out, &e.info);
    encode_list_priority(out, &e.priority);
    assert(out@ =~= old(out)@ + enc_kanji_elem(kanji_elem_model(*e)));
}

/// Decode one record.
pub fn decode_kanji_elem(buf: &Vec<u8>, pos: usize) -> (r: Option<(KanjiElement, usize)>)
    ensures
        r is Some <==> dec_kanji_elem(buf@, pos as int) is Some,
        r matches Some((v, p)) ==> dec_kanji_elem(buf@, pos as int) == Some(
            (kanji_elem_model(v), p as int),
        ) && pos < p <= buf@.len(),
{
    let (x0, q0) = match decode_text(buf, pos) {
        None => {
            return None;
        },
        Some(v) => v,
    };
    let (x1, q1) = match decode_list_kinfo(buf, q0) {
        None => {
            return None;
        },
        Some(v) => v,
    };
    let (x2, q2) = match decode_list_priority(buf, q1) {
        None => {
            return None;
        },
        Some(v) => v,
    };
    Some((KanjiElement { text: x0, info: x1, priority: x2 }, q2))
}

/// The record written is the record read.
pub proof fn lemma_dec_enc_kanji_elem(b: Seq<u8>, pos: int, x: KanjiElementM)
    requires
        0 <= pos,
        wf_kanji_elem(x),
        pos + enc_kanji_elem(x).len() <= b.len(),
        b.subrange(pos, pos + enc_kanji_elem(x).len()) == enc_kanji_elem(x),
    ensures
        dec_kanji_elem(b, pos) == Some((x, pos + enc_kanji_elem(x).len())),
{
    let m = x;
    let e0 = enc_text(m.text);
    let e1 = enc_list_kinfo(m.info);
    let e2 = enc_list_priority(m.priority);
    assert(enc_kanji_elem(m) =~= (e0 + (e1 + e2)));
    lemma_enc_parts(b, pos, e0, (e1 + e2));
    lemma_dec_enc_text(b, pos, m.text);
    lemma_enc_parts(b, pos + e0.len(), e1, e2);
    lemma_dec_enc_list_kinfo(b, pos + e0.len(), m.info);
    lemma_dec_enc_list_priority(b, pos + e0.len() + e1.len(), m.priority);
}

/// The abstract values of the items.
pub open spec fn models_kanji_elem(s: Seq<KanjiElement>) -> Seq<KanjiElementM> {
    s.map_values(|e: KanjiElement| kanji_elem_model(e))
}

/// The items of a sequence, one after the other.
pub open spec fn enc_seq_kanji_elem(xs: Seq<KanjiElementM>) -> Seq<u8>
    decreases xs.len(),
{
    if xs.len() == 0 {
        Seq::empty()
    } else {
        enc_kanji_elem(xs[0]) + enc_seq_kanji_elem(xs.drop_first())
    }
}

/// Exactly `n` items read one after the other.
pub open spec fn dec_seq_kanji_elem(b: Seq<u8>, pos: int, n: int) -> Option<(Seq<KanjiElementM>, int)>
    decreases n,
{
    if n <= 0 {
        Some((Seq::empty(), pos))
    } else {
        match dec_kanji_elem(b, pos) {
            None => None,
            Some((x, p)) => match dec_seq_kanji_elem(b, p, n - 1) {
                None => None,
                Some((xs, p2)) => Some((seq![x] + xs, p2)),
            },
        }
    }
}

/// A count-prefixed sequence of items.
pub open spec fn enc_list_kanji_elem(xs: Seq<KanjiElementM>) -> Seq<u8> {
    enc_u64(xs.len() as u64) + enc_seq_kanji_elem(xs)
}

/// The count-prefixed sequence of items at `pos`.
pub open spec fn dec_list_kanji_elem(b: Seq<u8>, pos: int) -> Option<(Seq<KanjiElementM>, int)> {
    match dec_u64(b, pos) {
        None => None,
        Some((n, p)) => if n <= usize::MAX as u64 {
            dec_seq_kanji_elem(b, p, n as int)
        } else {
            None
        },
    }
}

/// One more item extends the encoding at its end.
pub proof fn lemma_enc_seq_kanji_elem_push(xs: Seq<KanjiElementM>, x: KanjiElementM)
    ensures
        enc_seq_kanji_elem(xs.push(x)) == enc_seq_kanji_elem(xs) + enc_kanji_elem(x),
    decreases xs.len(),
{
    reveal_with_fuel(enc_seq_kanji_elem, 3);
    if xs.len() == 0 {
        assert(xs.push(x)[0] == x);
        assert(xs.push(x).drop_first() =~= Seq::<KanjiElementM>::empty());
        assert(enc_seq_kanji_elem(xs.push(x)) =~= enc_seq_kanji_elem(xs) + enc_kanji_elem(x));
    } else {
        assert(xs.push(x)[0] == xs[0]);
        assert(xs.push(x).drop_first() =~= xs.drop_first().push(x));
        lemma_enc_seq_kanji_elem_push(xs.drop_first(), x);
        assert(enc_seq_kanji_elem(xs.push(x)) == enc_kanji_elem(xs[0]) + enc_seq_kanji_elem(
            xs.drop_first().push(x),
        ));
        assert(enc_seq_kanji_elem(xs.push(x)) =~= enc_seq_kanji_elem(xs) + enc_kanji_elem(x));
    }
}

/// Encode a count-prefixed sequence of items.
pub fn encode_list_kanji_elem(out: &mut Vec<u8>, s: &Vec<KanjiElement>)
    ensures
        final(out)@ == old(out)@ + enc_list_kanji_elem(models_kanji_elem(s@)),
{
    encode_u64(out, s.len() as u64);
    let ghost base = out@;
    let mut i: usize = 0;
    while i < s.len()
        invariant
            i <= s@.len(),
            out@ == base + enc_seq_kanji_elem(models_kanji_elem(s@).take(i as int)),
        decreases s@.len() - i,
    {
        let ghost before = out@;
        encode_kanji_elem(out, &s[i]);
        proof {
            let m = models_kanji_elem(s@);
            assert(m.take(i + 1) =~= m.take(i as int).push(m[i as int]));
            lemma_enc_seq_kanji_elem_push(m.take(i as int), m[i as int]);
            assert(out@ =~= base + enc_seq_kanji_elem(m.take(i + 1)));
        }
        i += 1;
    }
    proof {
        let m = models_kanji_elem(s@);
        assert(m.take(s@.len() as int) =~= m);
    }
}

/// Decode a count-prefixed sequence of items.
pub fn decode_list_kanji_elem(buf: &Vec<u8>, pos: usize) -> (r: Option<(Vec<KanjiElement>, usize)>)
    ensures
        r is Some <==> dec_list_kanji_elem(buf@, pos as int) is Some,
        r matches Some((v, p)) ==> dec_list_kanji_elem(buf@, pos as int) == Some(
            (models_kanji_elem(v@), p as int),
        ) && pos < p <= buf@.len(),
{
    let (n64, p0) = match decode_u64(buf, pos) {
        None => {
            return None;
        },
        Some(x) => x,
    };
    if n64 > usize::MAX as u64 {
        return None;
    }
    let n = n64 as usize;
    assert(n as int == n64 as int);
    let mut acc: Vec<KanjiElement> = Vec::new();
    let mut p = p0;
    let mut i: usize = 0;
    proof {
        assert(models_kanji_elem(acc@) + dec_seq_kanji_elem(buf@, p as int, n as int)->Some_0.0
            =~= dec_seq_kanji_elem(buf@, p as int, n as int)->Some_0.0);
    }
    while i < n
        invariant
            i <= n,
            pos < p <= buf@.len(),
            acc@.len() == i,
            dec_list_kanji_elem(buf@, pos as int) == dec_seq_kanji_elem(buf@, p0 as int, n as int),
            dec_seq_kanji_elem(buf@, p0 as int, n as int) == match dec_seq_kanji_elem(
                buf@,
                p as int,
                n - i,
            ) {
                None => None::<(Seq<KanjiElementM>, int)>,
                Some((s, q)) => Some((models_kanji_elem(acc@) + s, q)),
            },
        decreases n - i,
    {
        match decode_kanji_elem(buf, p) {
            None => {
                proof {
                    assert(dec_seq_kanji_elem(buf@, p as int, n - i) is None);
                }
                return None;
            },
            Some((x, p2)) => {
                proof {
                    let m = models_kanji_elem(acc@);
                    let mx = models_kanji_elem(acc@.push(x))[i as int];
                    assert(models_kanji_elem(acc@.push(x)) =~= m.push(mx));
                    match dec_seq_kanji_elem(buf@, p2 as int, n - i - 1) {
                        None => {},
                        Some((s, q)) => {
                            assert(m + (seq![mx] + s) =~= m.push(mx) + s);
                        },
                    }
                }
                acc.push(x);
                p = p2;
                i += 1;
            },
        }
    }
    proof {
        assert(models_kanji_elem(acc@) + Seq::<KanjiElementM>::empty() =~= models_kanji_elem(acc@));
    }
    Some((acc, p))
}

/// The sequence written is the sequence read.
pub proof fn lemma_dec_enc_seq_kanji_elem(b: Seq<u8>, pos: int, xs: Seq<KanjiElementM>)
    requires
        0 <= pos,
        pos + enc_seq_kanji_elem(xs).len() <= b.len(),
        b.subrange(pos, pos + enc_seq_kanji_elem(xs).len()) == enc_seq_kanji_elem(xs),
        forall|i: int| 0 <= i < xs.len() ==> wf_kanji_elem(#[trigger] xs[i]),
    ensures
        dec_seq_kanji_elem(b, pos, xs.len() as int) == Some((xs, pos + enc_seq_kanji_elem(xs).len())),
    decreases xs.len(),
{
    if xs.len() == 0 {
    } else {
        let e0 = enc_kanji_elem(xs[0]);
        let rest = enc_seq_kanji_elem(xs.drop_first());
        lemma_enc_parts(b, pos, e0, rest);
        lemma_dec_enc_kanji_elem(b, pos, xs[0]);
        assert forall|i: int| 0 <= i < xs.drop_first().len() implies wf_kanji_elem(#[trigger] xs.drop_first()[i]) by {
            assert(xs.drop_first()[i] == xs[i + 1]);
        }
        lemma_dec_enc_seq_kanji_elem(b, pos + e0.len(), xs.drop_first());
        assert(seq![xs[0]] + xs.drop_first() =~= xs);
    }
}

/// The count-prefixed sequence written is the sequence read.
pub proof fn lemma_dec_enc_list_kanji_elem(b: Seq<u8>, pos: int, xs: Seq<KanjiElementM>)
    requires
        0 <= pos,
        xs.len() <= usize::MAX,
        pos + enc_list_kanji_elem(xs).len() <= b.len(),
        b.subrange(pos, pos + enc_list_kanji_elem(xs).len()) == enc_list_kanji_elem(xs),
        forall|i: int| 0 <= i < xs.len() ==> wf_kanji_elem(#[trigger] xs[i]),
    ensures
        dec_list_kanji_elem(b, pos) == Some((xs, pos + enc_list_kanji_elem(xs).len())),
{
    let cnt = enc_u64(xs.len() as u64);
    let rest = enc_seq_kanji_elem(xs);
    lemma_enc_parts(b, pos, cnt, rest);
    lemma_dec_enc_u64(b, pos, xs.len() as u64);
    lemma_dec_enc_seq_kanji_elem(b, pos + cnt.len(), xs);
}

/// The abstract value of one record.
pub open spec fn reading_model(e: ReadingElement) -> ReadingM {
    ReadingM {
        text: e.text@,
        no_kanji: e.no_kanji,
        reading_string: models_text(e.reading_string@),
        priority: e.priority@,
        info: e.info@,
    }
}

/// Every sequence of the record fits in a vector.
pub open spec fn wf_reading(m: ReadingM) -> bool {
    &&& (wf_text(m.text))
    &&& (m.reading_string.len() <= usize::MAX && (forall|i: int| 0 <= i < m.reading_string.len() ==> wf_text(#[trigger] m.reading_string[i])))
    &&& (m.priority.len() <= usize::MAX)
    &&& (m.info.len() <= usize::MAX)
}

/// One record: its fields one after the other.
pub open spec fn enc_reading(m: ReadingM) -> Seq<u8> {
    enc_text(m.text) + enc_bool(m.no_kanji) + enc_list_text(m.reading_string) + enc_list_priority(m.priority) + enc_list_rinfo(m.info)
}

/// The record at `pos`.
pub open spec fn dec_reading(b: Seq<u8>, pos: int) -> Option<(ReadingM, int)> {
    match dec_text(b, pos) {
        None => None,
        Some((f0, p0)) => {
        match dec_bool(b, p0) {
            None => None,
            Some((f1, p1)) => {
            match dec_list_text(b, p1) {
                None => None,
                Some((f2, p2)) => {
                match dec_list_priority(b, p2) {
                    None => None,
                    Some((f3, p3)) => {
                    match dec_list_rinfo(b, p3) {
                        None => None,
                        Some((f4, p4)) => Some((ReadingM { text: f0, no_kanji: f1, reading_string: f2, priority: f3, info: f4 }, p4)),
                    }
                        },
                }
                    },
            }
                },
        }
            },
    }
}

/// Encode one record.
pub fn encode_reading(out: &mut Vec<u8>, e: &ReadingElement)
    ensures
        final(out)@ == old(out)@ + enc_reading(reading_model(*e)),
{
    encode_text(out, &e.text);
    encode_bool(out, e.no_kanji);
    encode_list_text(out, &e.reading_string);
    encode_list_priority(out, &e.priority);
    encode_list_rinfo(out, &e.info);
    assert(out@ =~= old(out)@ + enc_reading(reading_model(*e)));
}

/// Decode one record.
pub fn decode_reading(buf: &Vec<u8>, pos: usize) -> (r: Option<(ReadingElement, usize)>)
    ensures
        r is Some <==> dec_reading(buf@, pos as int) is Some,
        r matches Some((v, p)) ==> dec_reading(buf@, pos as int) == Some(
            (reading_model(v), p as int),
        ) && pos < p <= buf@.len(),
{
    let (x0, q0) = match decode_text(buf, pos) {
        None => {
            return None;
        },
        Some(v) => v,
    };
    let (x1, q1) = match decode_bool(buf, q0) {
        None => {
            return None;
        },
        Some(v) => v,
    };
    let (x2, q2) = match decode_list_text(buf, q1) {
        None => {
            return None;
        },
        Some(v) => v,
    };
    let (x3, q3) = match decode_list_priority(buf, q2) {
        None => {
            return None;
        },
        Some(v) => v,
    };
    let (x4, q4) = match decode_list_rinfo(buf, q3) {
        None => {
            return None;
        },
        Some(v) => v,
    };
    Some((ReadingElement { text: x0, no_kanji: x1, reading_string: x2, priority: x3, info: x4 }, q4))
}

/// The record written is the record read.
pub proof fn lemma_dec_enc_reading(b: Seq<u8>, pos: int, x: ReadingM)
    requires
        0 <= pos,
        wf_reading(x),
        pos + enc_reading(x).len() <= b.len(),
        b.subrange(pos, pos + enc_reading(x).len()) == enc_reading(x),
    ensures
        dec_reading(b, pos) == Some((x, pos + enc_reading(x).len())),
{
    let m = x;
    let e0 = enc_text(m.text);
    let e1 = enc_bool(m.no_kanji);
    let e2 = enc_list_text(m.reading_string);
    let e3 = enc_list_priority(m.priority);
    let e4 = enc_list_rinfo(m.info);
    assert(enc_reading(m) =~= (e0 + (e1 + (e2 + (e3 + e4)))));
    lemma_enc_parts(b, pos, e0, (e1 + (e2 + (e3 + e4))));
    lemma_dec_enc_text(b, pos, m.text);
    lemma_enc_parts(b, pos + e0.len(), e1, (e2 + (e3 + e4)));
    lemma_dec_enc_bool(b, pos + e0.len(), m.no_kanji);
    lemma_enc_parts(b, pos + e0.len() + e1.len(), e2, (e3 + e4));
    lemma_dec_enc_list_text(b, pos + e0.len() + e1.len(), m.reading_string);
    lemma_enc_parts(b, pos + e0.len() + e1.len() + e2.len(), e3, e4);
    lemma_dec_enc_list_priority(b, pos + e0.len() + e1.len() + e2.len(), m.priority);
    lemma_dec_enc_list_rinfo(b, pos + e0.len() + e1.len() + e2.len() + e3.len(), m.info);
}

/// The abstract values of the items.
pub open spec fn models_reading(s: Seq<ReadingElement>) -> Seq<ReadingM> {
    s.map_values(|e: ReadingElement| reading_model(e))
}

/// The items of a sequence, one after the other.
pub open spec fn enc_seq_reading(xs: Seq<ReadingM>) -> Seq<u8>
    decreases xs.len(),
{
    if xs.len() == 0 {
        Seq::empty()
    } else {
        enc_reading(xs[0]) + enc_seq_reading(xs.drop_first())
    }
}

/// Exactly `n` items read one after the other.
pub open spec fn dec_seq_reading(b: Seq<u8>, pos: int, n: int) -> Option<(Seq<ReadingM>, int)>
    decreases n,
{
    if n <= 0 {
        Some((Seq::empty(), pos))
    } else {
        match dec_reading(b, pos) {
            None => None,
            Some((x, p)) => match dec_seq_reading(b, p, n - 1) {
                None => None,
                Some((xs, p2)) => Some((seq![x] + xs, p2)),
            },
        }
    }
}

/// A count-prefixed sequence of items.
pub open spec fn enc_list_reading(xs: Seq<ReadingM>) -> Seq<u8> {
    enc_u64(xs.len() as u64) + enc_seq_reading(xs)
}

/// The count-prefixed sequence of items at `pos`.
pub open spec fn dec_list_reading(b: Seq<u8>, pos: int) -> Option<(Seq<ReadingM>, int)> {
    match dec_u64(b, pos) {
        None => None,
        Some((n, p)) => if n <= usize::MAX as u64 {
            dec_seq_reading(b, p, n as int)
        } else {
            None
        },
    }
}

/// One more item extends the encoding at its end.
pub proof fn lemma_enc_seq_reading_push(xs: Seq<ReadingM>, x: ReadingM)
    ensures
        enc_seq_reading(xs.push(x)) == enc_seq_reading(xs) + enc_reading(x),
    decreases xs.len(),
{
    reveal_with_fuel(enc_seq_reading, 3);
    if xs.len() == 0 {
        assert(xs.push(x)[0] == x);
        assert(xs.push(x).drop_first() =~= Seq::<ReadingM>::empty());
        assert(enc_seq_reading(xs.push(x)) =~= enc_seq_reading(xs) + enc_reading(x));
    } else {
        assert(xs.push(x)[0] == xs[0]);
        assert(xs.push(x).drop_first() =~= xs.drop_first().push(x));
        lemma_enc_seq_reading_push(xs.drop_first(), x);
        assert(enc_seq_reading(xs.push(x)) == enc_reading(xs[0]) + enc_seq_reading(
            xs.drop_first().push(x),
        ));
        assert(enc_seq_reading(xs.push(x)) =~= enc_seq_reading(xs) + enc_reading(x));
    }
}

/// Encode a count-prefixed sequence of items.
pub fn encode_list_reading(out: &mut Vec<u8>, s: &Vec<ReadingElement>)
    ensures
        final(out)@ == old(out)@ + enc_list_reading(models_reading(s@)),
{
    encode_u64(out, s.len() as u64);
    let ghost base = out@;
    let mut i: usize = 0;
    while i < s.len()
        invariant
            i <= s@.len(),
            out@ == base + enc_seq_reading(models_reading(s@).take(i as int)),
        decreases s@.len() - i,
    {
        let ghost before = out@;
        encode_reading(out, &s[i]);
        proof {
            let m = models_reading(s@);
            assert(m.take(i + 1) =~= m.take(i as int).push(m[i as int]));
            lemma_enc_seq_reading_push(m.take(i as int), m[i as int]);
            assert(out@ =~= base + enc_seq_reading(m.take(i + 1)));
        }
        i += 1;
    }
    proof {
        let m = models_reading(s@);
        assert(m.take(s@.len() as int) =~= m);
    }
}

/// Decode a count-prefixed sequence of items.
pub fn decode_list_reading(buf: &Vec<u8>, pos: usize) -> (r: Option<(Vec<ReadingElement>, usize)>)
    ensures
        r is Some <==> dec_list_reading(buf@, pos as int) is Some,
        r matches Some((v, p)) ==> dec_list_reading(buf@, pos as int) == Some(
            (models_reading(v@), p as int),
        ) && pos < p <= buf@.len(),
{
    let (n64, p0) = match decode_u64(buf, pos) {
        None => {
            return None;
        },
        Some(x) => x,
    };
    if n64 > usize::MAX as u64 {
        return None;
    }
    let n = n64 as usize;
    assert(n as int == n64 as int);
    let mut acc: Vec<ReadingElement> = Vec::new();
    let mut p = p0;
    let mut i: usize = 0;
    proof {
        assert(models_reading(acc@) + dec_seq_reading(buf@, p as int, n as int)->Some_0.0
            =~= dec_seq_reading(buf@, p as int, n as int)->Some_0.0);
    }
    while i < n
        invariant
            i <= n,
            pos < p <= buf@.len(),
            acc@.len() == i,
            dec_list_reading(buf@, pos as int) == dec_seq_reading(buf@, p0 as int, n as int),
            dec_seq_reading(buf@, p0 as int, n as int) == match dec_seq_reading(
                buf@,
                p as int,
                n - i,
            ) {
                None => None::<(Seq<ReadingM>, int)>,
                Some((s, q)) => Some((models_reading(acc@) + s, q)),
            },
        decreases n - i,
    {
        match decode_reading(buf, p) {
            None => {
                proof {
                    assert(dec_seq_reading(buf@, p as int, n - i) is None);
                }
                return None;
            },
            Some((x, p2)) => {
                proof {
                    let m = models_reading(acc@);
                    let mx = models_reading(acc@.push(x))[i as int];
                    assert(models_reading(acc@.push(x)) =~= m.push(mx));
                    match dec_seq_reading(buf@, p2 as int, n - i - 1) {
                        None => {},
                        Some((s, q)) => {
                            assert(m + (seq![mx] + s) =~= m.push(mx) + s);
                        },
                    }
                }
                acc.push(x);
                p = p2;
                i += 1;
            },
        }
    }
    proof {
        assert(models_reading(acc@) + Seq::<ReadingM>::empty() =~= models_reading(acc@));
    }
    Some((acc, p))
}

/// The sequence written is the sequence read.
pub proof fn lemma_dec_enc_seq_reading(b: Seq<u8>, pos: int, xs: Seq<ReadingM>)
    requires
        0 <= pos,
        pos + enc_seq_reading(xs).len() <= b.len(),
        b.subrange(pos, pos + enc_seq_reading(xs).len()) == enc_seq_reading(xs),
        forall|i: int| 0 <= i < xs.len() ==> wf_reading(#[trigger] xs[i]),
    ensures
        dec_seq_reading(b, pos, xs.len() as int) == Some((xs, pos + enc_seq_reading(xs).len())),
    decreases xs.len(),
{
    if xs.len() == 0 {
    } else {
        let e0 = enc_reading(xs[0]);
        let rest = enc_seq_reading(xs.drop_first());
        lemma_enc_parts(b, pos, e0, rest);
        lemma_dec_enc_reading(b, pos, xs[0]);
        assert forall|i: int| 0 <= i < xs.drop_first().len() implies wf_reading(#[trigger] xs.drop_first()[i]) by {
            assert(xs.drop_first()[i] == xs[i + 1]);
        }
        lemma_dec_enc_seq_reading(b, pos + e0.len(), xs.drop_first());
        assert(seq![xs[0]] + xs.drop_first() =~= xs);
    }
}

/// The count-prefixed sequence written is the sequence read.
pub proof fn lemma_dec_enc_list_reading(b: Seq<u8>, pos: int, xs: Seq<ReadingM>)
    requires
        0 <= pos,
        xs.len() <= usize::MAX,
        pos + enc_list_reading(xs).len() <= b.len(),
        b.subrange(pos, pos + enc_list_reading(xs).len()) == enc_list_reading(xs),
        forall|i: int| 0 <= i < xs.len() ==> wf_reading(#[trigger] xs[i]),
    ensures
        dec_list_reading(b, pos) == Some((xs, pos + enc_list_reading(xs).len())),
{
    let cnt = enc_u64(xs.len() as u64);
    let rest = enc_seq_reading(xs);
    lemma_enc_parts(b, pos, cnt, rest);
    lemma_dec_enc_u64(b, pos, xs.len() as u64);
    lemma_dec_enc_seq_reading(b, pos + cnt.len(), xs);
}

/// The abstract value of one record.
pub open spec fn sense_model(e: Sense) -> SenseM {
    SenseM {
        gloss: models_text(e.gloss@),
        pos: e.pos,
        misc: e.misc,
        dialect: e.dialect,
        field: e.field,
    }
}

/// Every sequence of the record fits in a vector.
pub open spec fn wf_sense(m: SenseM) -> bool {
    &&& (m.gloss.len() <= usize::MAX && (forall|i: int| 0 <= i < m.gloss.len() ==> wf_text(#[trigger] m.gloss[i])))
}

/// One record: its fields one after the other.
pub open spec fn enc_sense(m: SenseM) -> Seq<u8> {
    enc_list_text(m.gloss) + enc_bits(m.pos) + enc_bits(m.misc) + enc_bits(m.dialect) + enc_bits(m.field)
}

/// The record at `pos`.
pub open spec fn dec_sense(b: Seq<u8>, pos: int) -> Option<(SenseM, int)> {
    match dec_list_text(b, pos) {
        None => None,
        Some((f0, p0)) => {
        match dec_bits(b, p0) {
            None => None,
            Some((f1, p1)) => {
            match dec_bits(b, p1) {
                None => None,
                Some((f2, p2)) => {
                match dec_bits(b, p2) {
                    None => None,
                    Some((f3, p3)) => {
                    match dec_bits(b, p3) {
                        None => None,
                        Some((f4, p4)) => Some((SenseM { gloss: f0, pos: f1, misc: f2, dialect: f3, field: f4 }, p4)),
                    }
                        },
                }
                    },
            }
                },
        }
            },
    }
}

/// Encode one record.
pub fn encode_sense(out: &mut Vec<u8>, e: &Sense)
    ensures
        final(out)@ == old(out)@ + enc_sense(sense_model(*e)),
{
    encode_list_text(out, &e.gloss);
    encode_bits(out, e.pos);
    encode_bits(out, e.misc);
    encode_bits(out, e.dialect);
    encode_bits(out, e.field);
    assert(out@ =~= old(out)@ + enc_sense(sense_model(*e)));
}

/// Decode one record.
pub fn decode_sense(buf: &Vec<u8>, pos: usize) -> (r: Option<(Sense, usize)>)
    ensures
        r is Some <==> dec_sense(buf@, pos as int) is Some,
        r matches Some((v, p)) ==> dec_sense(buf@, pos as int) == Some(
            (sense_model(v), p as int),
        ) && pos < p <= buf@.len(),
{
    let (x0, q0) = match decode_list_text(buf, pos) {
        None => {
            return None;
        },
        Some(v) => v,
    };
    let (x1, q1) = match decode_bits(buf, q0) {
        None => {
            return None;
        },
        Some(v) => v,
    };
    let (x2, q2) = match decode_bits(buf, q1) {
        None => {
            return None;
        },
        Some(v) => v,
    };
    let (x3, q3) = match decode_bits(buf, q2) {
        None => {
            return None;
        },
        Some(v) => v,
    };
    let (x4, q4) = match decode_bits(buf, q3) {
        None => {
            return None;
        },
        Some(v) => v,
    };
    Some((Sense { gloss: x0, pos: x1, misc: x2, dialect: x3, field: x4 }, q4))
}

/// The record written is the record read.
pub proof fn lemma_dec_enc_sense(b: Seq<u8>, pos: int, x: SenseM)
    requires
        0 <= pos,
        wf_sense(x),
        pos + enc_sense(x).len() <= b.len(),
        b.subrange(pos, pos + enc_sense(x).len()) == enc_sense(x),
    ensures
        dec_sense(b, pos) == Some((x, pos + enc_sense(x).len())),
{
    let m = x;
    let e0 = enc_list_text(m.gloss);
    let e1 = enc_bits(m.pos);
    let e2 = enc_bits(m.misc);
    let e3 = enc_bits(m.dialect);
    let e4 = enc_bits(m.field);
    assert(enc_sense(m) =~= (e0 + (e1 + (e2 + (e3 + e4)))));
    lemma_enc_parts(b, pos, e0, (e1 + (e2 + (e3 + e4))));
    lemma_dec_enc_list_text(b, pos, m.gloss);
    lemma_enc_parts(b, pos + e0.len(), e1, (e2 + (e3 + e4)));
    lemma_dec_enc_bits(b, pos + e0.len(), m.pos);
    lemma_enc_parts(b, pos + e0.len() + e1.len(), e2, (e3 + e4));
    lemma_dec_enc_bits(b, pos + e0.len() + e1.len(), m.misc);
    lemma_enc_parts(b, pos + e0.len() + e1.len() + e2.len(), e3, e4);
    lemma_dec_enc_bits(b, pos + e0.len() + e1.len() + e2.len(), m.dialect);
    lemma_dec_enc_bits(b, pos + e0.len() + e1.len() + e2.len() + e3.len(), m.field);
}

/// The abstract values of the items.
pub open spec fn models_sense(s: Seq<Sense>) -> Seq<SenseM> {
    s.map_values(|e: Sense| sense_model(e))
}

/// The items of a sequence, one after the other.
pub open spec fn enc_seq_sense(xs: Seq<SenseM>) -> Seq<u8>
    decreases xs.len(),
{
    if xs.len() == 0 {
        Seq::empty()
    } else {
        enc_sense(xs[0]) + enc_seq_sense(xs.drop_first())
    }
}

/// Exactly `n` items read one after the other.
pub open spec fn dec_seq_sense(b: Seq<u8>, pos: int, n: int) -> Option<(Seq<SenseM>, int)>
    decreases n,
{
    if n <= 0 {
        Some((Seq::empty(), pos))
    } else {
        match dec_sense(b, pos) {
            None => None,
            Some((x, p)) => match dec_seq_sense(b, p, n - 1) {
                None => None,
                Some((xs, p2)) => Some((seq![x] + xs, p2)),
            },
        }
    }
}

/// A count-prefixed sequence of items.
pub open spec fn enc_list_sense(xs: Seq<SenseM>) -> Seq<u8> {
    enc_u64(xs.len() as u64) + enc_seq_sense(xs)
}

/// The count-prefixed sequence of items at `pos`.
pub open spec fn dec_list_sense(b: Seq<u8>, pos: int) -> Option<(Seq<SenseM>, int)> {
    match dec_u64(b, pos) {
        None => None,
        Some((n, p)) => if n <= usize::MAX as u64 {
            dec_seq_sense(b, p, n as int)
        } else {
            None
        },
    }
}

/// One more item extends the encoding at its end.
pub proof fn lemma_enc_seq_sense_push(xs: Seq<SenseM>, x: SenseM)
    ensures
        enc_seq_sense(xs.push(x)) == enc_seq_sense(xs) + enc_sense(x),
    decreases xs.len(),
{
    reveal_with_fuel(enc_seq_sense, 3);
    if xs.len() == 0 {
        assert(xs.push(x)[0] == x);
        assert(xs.push(x).drop_first() =~= Seq::<SenseM>::empty());
        assert(enc_seq_sense(xs.push(x)) =~= enc_seq_sense(xs) + enc_sense(x));
    } else {
        assert(xs.push(x)[0] == xs[0]);
        assert(xs.push(x).drop_first() =~= xs.drop_first().push(x));
        lemma_enc_seq_sense_push(xs.drop_first(), x);
        assert(enc_seq_sense(xs.push(x)) == enc_sense(xs[0]) + enc_seq_sense(
            xs.drop_first().push(x),
        ));
        assert(enc_seq_sense(xs.push(x)) =~= enc_seq_sense(xs) + enc_sense(x));
    }
}

/// Encode a count-prefixed sequence of items.
pub fn encode_list_sense(out: &mut Vec<u8>, s: &Vec<Sense>)
    ensures
        final(out)@ == old(out)@ + enc_list_sense(models_sense(s@)),
{
    encode_u64(out, s.len() as u64);
    let ghost base = out@;
    let mut i: usize = 0;
    while i < s.len()
        invariant
            i <= s@.len(),
            out@ == base + enc_seq_sense(models_sense(s@).take(i as int)),
        decreases s@.len() - i,
    {
        let ghost before = out@;
        encode_sense(out, &s[i]);
        proof {
            let m = models_sense(s@);
            assert(m.take(i + 1) =~= m.take(i as int).push(m[i as int]));
            lemma_enc_seq_sense_push(m.take(i as int), m[i as int]);
            assert(out@ =~= base + enc_seq_sense(m.take(i + 1)));
        }
        i += 1;
    }
    proof {
        let m = models_sense(s@);
        assert(m.take(s@.len() as int) =~= m);
    }
}

/// Decode a count-prefixed sequence of items.
pub fn decode_list_sense(buf: &Vec<u8>, pos: usize) -> (r: Option<(Vec<Sense>, usize)>)
    ensures
        r is Some <==> dec_list_sense(buf@, pos as int) is Some,
        r matches Some((v, p)) ==> dec_list_sense(buf@, pos as int) == Some(
            (models_sense(v@), p as int),
        ) && pos < p <= buf@.len(),
{
    let (n64, p0) = match decode_u64(buf, pos) {
        None => {
            return None;
        },
        Some(x) => x,
    };
    if n64 > usize::MAX as u64 {
        return None;
    }
    let n = n64 as usize;
    assert(n as int == n64 as int);
    let mut acc: Vec<Sense> = Vec::new();
    let mut p = p0;
    let mut i: usize = 0;
    proof {
        assert(models_sense(acc@) + dec_seq_sense(buf@, p as int, n as int)->Some_0.0
            =~= dec_seq_sense(buf@, p as int, n as int)->Some_0.0);
    }
    while i < n
        invariant
            i <= n,
            pos < p <= buf@.len(),
            acc@.len() == i,
            dec_list_sense(buf@, pos as int) == dec_seq_sense(buf@, p0 as int, n as int),
            dec_seq_sense(buf@, p0 as int, n as int) == match dec_seq_sense(
                buf@,
                p as int,
                n - i,
            ) {
                None => None::<(Seq<SenseM>, int)>,
                Some((s, q)) => Some((models_sense(acc@) + s, q)),
            },
        decreases n - i,
    {
        match decode_sense(buf, p) {
            None => {
                proof {
                    assert(dec_seq_sense(buf@, p as int, n - i) is None);
                }
                return None;
            },
            Some((x, p2)) => {
                proof {
                    let m = models_sense(acc@);
                    let mx = models_sense(acc@.push(x))[i as int];
                    assert(models_sense(acc@.push(x)) =~= m.push(mx));
                    match dec_seq_sense(buf@, p2 as int, n - i - 1) {
                        None => {},
                        Some((s, q)) => {
                            assert(m + (seq![mx] + s) =~= m.push(mx) + s);
                        },
                    }
                }
                acc.push(x);
                p = p2;
                i += 1;
            },
        }
    }
    proof {
        assert(models_sense(acc@) + Seq::<SenseM>::empty() =~= models_sense(acc@));
    }
    Some((acc, p))
}

/// The sequence written is the sequence read.
pub proof fn lemma_dec_enc_seq_sense(b: Seq<u8>, pos: int, xs: Seq<SenseM>)
    requires
        0 <= pos,
        pos + enc_seq_sense(xs).len() <= b.len(),
        b.subrange(pos, pos + enc_seq_sense(xs).len()) == enc_seq_sense(xs),
        forall|i: int| 0 <= i < xs.len() ==> wf_sense(#[trigger] xs[i]),
    ensures
        dec_seq_sense(b, pos, xs.len() as int) == Some((xs, pos + enc_seq_sense(xs).len())),
    decreases xs.len(),
{
    if xs.len() == 0 {
    } else {
        let e0 = enc_sense(xs[0]);
        let rest = enc_seq_sense(xs.drop_first());
        lemma_enc_parts(b, pos, e0, rest);
        lemma_dec_enc_sense(b, pos, xs[0]);
        assert forall|i: int| 0 <= i < xs.drop_first().len() implies wf_sense(#[trigger] xs.drop_first()[i]) by {
            assert(xs.drop_first()[i] == xs[i + 1]);
        }
        lemma_dec_enc_seq_sense(b, pos + e0.len(), xs.drop_first());
        assert(seq![xs[0]] + xs.drop_first() =~= xs);
    }
}

/// The count-prefixed sequence written is the sequence read.
pub proof fn lemma_dec_enc_list_sense(b: Seq<u8>, pos: int, xs: Seq<SenseM>)
    requires
        0 <= pos,
        xs.len() <= usize::MAX,
        pos + enc_list_sense(xs).len() <= b.len(),
        b.subrange(pos, pos + enc_list_sense(xs).len()) == enc_list_sense(xs),
        forall|i: int| 0 <= i < xs.len() ==> wf_sense(#[trigger] xs[i]),
    ensures
        dec_list_sense(b, pos) == Some((xs, pos + enc_list_sense(xs).len())),
{
    let cnt = enc_u64(xs.len() as u64);
    let rest = enc_seq_sense(xs);
    lemma_enc_parts(b, pos, cnt, rest);
    lemma_dec_enc_u64(b, pos, xs.len() as u64);
    lemma_dec_enc_seq_sense(b, pos + cnt.len(), xs);
}

/// The abstract value of one record.
pub open spec fn entry_model(e: LexicalEntry) -> EntryM {
    EntryM {
        key: e.key,
        kanji: models_kanji_elem(e.kanji@),
        readings: models_reading(e.readings@),
        senses: models_sense(e.senses@),
    }
}

/// Every sequence of the record fits in a vector.
pub open spec fn wf_entry(m: EntryM) -> bool {
    &&& (m.kanji.len() <= usize::MAX && (forall|i: int| 0 <= i < m.kanji.len() ==> wf_kanji_elem(#[trigger] m.kanji[i])))
    &&& (m.readings.len() <= usize::MAX && (forall|i: int| 0 <= i < m.readings.len() ==> wf_reading(#[trigger] m.readings[i])))
    &&& (m.senses.len() <= usize::MAX && (forall|i: int| 0 <= i < m.senses.len() ==> wf_sense(#[trigger] m.senses[i])))
}

/// One record: its fields one after the other.
pub open spec fn enc_entry(m: EntryM) -> Seq<u8> {
    enc_u64(m.key) + enc_list_kanji_elem(m.kanji) + enc_list_reading(m.readings) + enc_list_sense(m.senses)
}

/// The record at `pos`.
pub open spec fn dec_entry(b: Seq<u8>, pos: int) -> Option<(EntryM, int)> {
    match dec_u64(b, pos) {
        None => None,
        Some((f0, p0)) => {
        match dec_list_kanji_elem(b, p0) {
            None => None,
            Some((f1, p1)) => {
            match dec_list_reading(b, p1) {
                None => None,
                Some((f2, p2)) => {
                match dec_list_sense(b, p2) {
                    None => None,
                    Some((f3, p3)) => Some((EntryM { key: f0, kanji: f1, readings: f2, senses: f3 }, p3)),
                }
                    },
            }
                },
        }
            },
    }
}

/// Encode one record.
pub fn encode_entry(out: &mut Vec<u8>, e: &LexicalEntry)
    ensures
        final(out)@ == old(out)@ + enc_entry(entry_model(*e)),
{
    encode_u64(out, e.key);
    encode_list_kanji_elem(out, &e.kanji);
    encode_list_reading(out, &e.readings);
    encode_list_sense(out, &e.senses);
    assert(out@ =~= old(out)@ + enc_entry(entry_model(*e)));
}

/// Decode one record.
pub fn decode_entry(buf: &Vec<u8>, pos: usize) -> (r: Option<(LexicalEntry, usize)>)
    ensures
        r is Some <==> dec_entry(buf@, pos as int) is Some,
        r matches Some((v, p)) ==> dec_entry(buf@, pos as int) == Some(
            (entry_model(v), p as int),
        ) && pos < p <= buf@.len(),
{
    let (x0, q0) = match decode_u64(buf, pos) {
        None => {
            return None;
        },
        Some(v) => v,
    };
    let (x1, q1) = match decode_list_kanji_elem(buf, q0) {
        None => {
            return None;
        },
        Some(v) => v,
    };
    let (x2, q2) = match decode_list_reading(buf, q1) {
        None => {
            return None;
        },
        Some(v) => v,
    };
    let (x3, q3) = match decode_list_sense(buf, q2) {
        None => {
            return None;
        },
        Some(v) => v,
    };
    Some((LexicalEntry { key: x0, kanji: x1, readings: x2, senses: x3 }, q3))
}

/// The record written is the record read.
pub proof fn lemma_dec_enc_entry(b: Seq<u8>, pos: int, x: EntryM)
    requires
        0 <= pos,
        wf_entry(x),
        pos + enc_entry(x).len() <= b.len(),
        b.subrange(pos, pos + enc_entry(x).len()) == enc_entry(x),
    ensures
        dec_entry(b, pos) == Some((x, pos + enc_entry(x).len())),
{
    let m = x;
    let e0 = enc_u64(m.key);
    let e1 = enc_list_kanji_elem(m.kanji);
    let e2 = enc_list_reading(m.readings);
    let e3 = enc_list_sense(m.senses);
    assert(enc_entry(m) =~= (e0 + (e1 + (e2 + e3))));
    lemma_enc_parts(b, pos, e0, (e1 + (e2 + e3)));
    lemma_dec_enc_u64(b, pos, m.key);
    lemma_enc_parts(b, pos + e0.len(), e1, (e2 + e3));
    lemma_dec_enc_list_kanji_elem(b, pos + e0.len(), m.kanji);
    lemma_enc_parts(b, pos + e0.len() + e1.len(), e2, e3);
    lemma_dec_enc_list_reading(b, pos + e0.len() + e1.len(), m.readings);
    lemma_dec_enc_list_sense(b, pos + e0.len() + e1.len() + e2.len(), m.senses);
}

/// The abstract values of the items.
pub open spec fn models_entry(s: Seq<LexicalEntry>) -> Seq<EntryM> {
    s.map_values(|e: LexicalEntry| entry_model(e))
}

/// The items of a sequence, one after the other.
pub open spec fn enc_seq_entry(xs: Seq<EntryM>) -> Seq<u8>
    decreases xs.len(),
{
    if xs.len() == 0 {
        Seq::empty()
    } else {
        enc_entry(xs[0]) + enc_seq_entry(xs.drop_first())
    }
}

/// Exactly `n` items read one after the other.
pub open spec fn dec_seq_entry(b: Seq<u8>, pos: int, n: int) -> Option<(Seq<EntryM>, int)>
    decreases n,
{
    if n <= 0 {
        Some((Seq::empty(), pos))
    } else {
        match dec_entry(b, pos) {
            None => None,
            Some((x, p)) => match dec_seq_entry(b, p, n - 1) {
                None => None,
                Some((xs, p2)) => Some((seq![x] + xs, p2)),
            },
        }
    }
}

/// A count-prefixed sequence of items.
pub open spec fn enc_list_entry(xs: Seq<EntryM>) -> Seq<u8> {
    enc_u64(xs.len() as u64) + enc_seq_entry(xs)
}

/// The count-prefixed sequence of items at `pos`.
pub open spec fn dec_list_entry(b: Seq<u8>, pos: int) -> Option<(Seq<EntryM>, int)> {
    match dec_u64(b, pos) {
        None => None,
        Some((n, p)) => if n <= usize::MAX as u64 {
            dec_seq_entry(b, p, n as int)
        } else {
            None
        },
    }
}

/// One more item extends the encoding at its end.
pub proof fn lemma_enc_seq_entry_push(xs: Seq<EntryM>, x: EntryM)
    ensures
        enc_seq_entry(xs.push(x)) == enc_seq_entry(xs) + enc_entry(x),
    decreases xs.len(),
{
    reveal_with_fuel(enc_seq_entry, 3);
    if xs.len() == 0 {
        assert(xs.push(x)[0] == x);
        assert(xs.push(x).drop_first() =~= Seq::<EntryM>::empty());
        assert(enc_seq_entry(xs.push(x)) =~= enc_seq_entry(xs) + enc_entry(x));
    } else {
        assert(xs.push(x)[0] == xs[0]);
        assert(xs.push(x).drop_first() =~= xs.drop_first().push(x));
        lemma_enc_seq_entry_push(xs.drop_first(), x);
        assert(enc_seq_entry(xs.push(x)) == enc_entry(xs[0]) + enc_seq_entry(
            xs.drop_first().push(x),
        ));
        assert(enc_seq_entry(xs.push(x)) =~= enc_seq_entry(xs) + enc_entry(x));
    }
}

/// Encode a count-prefixed sequence of items.
pub fn encode_list_entry(out: &mut Vec<u8>, s: &Vec<LexicalEntry>)
    ensures
        final(out)@ == old(out)@ + enc_list_entry(models_entry(s@)),
{
    encode_u64(out, s.len() as u64);
    let ghost base = out@;
    let mut i: usize = 0;
    while i < s.len()
        invariant
            i <= s@.len(),
            out@ == base + enc_seq_entry(models_entry(s@).take(i as int)),
        decreases s@.len() - i,
    {
        let ghost before = out@;
        encode_entry(out, &s[i]);
        proof {
            let m = models_entry(s@);
            assert(m.take(i + 1) =~= m.take(i as int).push(m[i as int]));
            lemma_enc_seq_entry_push(m.take(i as int), m[i as int]);
            assert(out@ =~= base + enc_seq_entry(m.take(i + 1)));
        }
        i += 1;
    }
    proof {
        let m = models_entry(s@);
        assert(m.take(s@.len() as int) =~= m);
    }
}

/// Decode a count-prefixed sequence of items.
pub fn decode_list_entry(buf: &Vec<u8>, pos: usize) -> (r: Option<(Vec<LexicalEntry>, usize)>)
    ensures
        r is Some <==> dec_list_entry(buf@, pos as int) is Some,
        r matches Some((v, p)) ==> dec_list_entry(buf@, pos as int) == Some(
            (models_entry(v@), p as int),
        ) && pos < p <= buf@.len(),
{
    let (n64, p0) = match decode_u64(buf, pos) {
        None => {
            return None;
        },
        Some(x) => x,
    };
    if n64 > usize::MAX as u64 {
        return None;
    }
    let n = n64 as usize;
    assert(n as int == n64 as int);
    let mut acc: Vec<LexicalEntry> = Vec::new();
    let mut p = p0;
    let mut i: usize = 0;
    proof {
        assert(models_entry(acc@) + dec_seq_entry(buf@, p as int, n as int)->Some_0.0
            =~= dec_seq_entry(buf@, p as int, n as int)->Some_0.0);
    }
    while i < n
        invariant
            i <= n,
            pos < p <= buf@.len(),
            acc@.len() == i,
            dec_list_entry(buf@, pos as int) == dec_seq_entry(buf@, p0 as int, n as int),
            dec_seq_entry(buf@, p0 as int, n as int) == match dec_seq_entry(
                buf@,
                p as int,
                n - i,
            ) {
                None => None::<(Seq<EntryM>, int)>,
                Some((s, q)) => Some((models_entry(acc@) + s, q)),
            },
        decreases n - i,
    {
        match decode_entry(buf, p) {
            None => {
                proof {
                    assert(dec_seq_entry(buf@, p as int, n - i) is None);
                }
                return None;
            },
            Some((x, p2)) => {
                proof {
                    let m = models_entry(acc@);
                    let mx = models_entry(acc@.push(x))[i as int];
                    assert(models_entry(acc@.push(x)) =~= m.push(mx));
                    match dec_seq_entry(buf@, p2 as int, n - i - 1) {
                        None => {},
                        Some((s, q)) => {
                            assert(m + (seq![mx] + s) =~= m.push(mx) + s);
                        },
                    }
                }
                acc.push(x);
                p = p2;
                i += 1;
            },
        }
    }
    proof {
        assert(models_entry(acc@) + Seq::<EntryM>::empty() =~= models_entry(acc@));
    }
    Some((acc, p))
}

/// The sequence written is the sequence read.
pub proof fn lemma_dec_enc_seq_entry(b: Seq<u8>, pos: int, xs: Seq<EntryM>)
    requires
        0 <= pos,
        pos + enc_seq_entry(xs).len() <= b.len(),
        b.subrange(pos, pos + enc_seq_entry(xs).len()) == enc_seq_entry(xs),
        forall|i: int| 0 <= i < xs.len() ==> wf_entry(#[trigger] xs[i]),
    ensures
        dec_seq_entry(b, pos, xs.len() as int) == Some((xs, pos + enc_seq_entry(xs).len())),
    decreases xs.len(),
{
    if xs.len() == 0 {
    } else {
        let e0 = enc_entry(xs[0]);
        let rest = enc_seq_entry(xs.drop_first());
        lemma_enc_parts(b, pos, e0, rest);
        lemma_dec_enc_entry(b, pos, xs[0]);
        assert forall|i: int| 0 <= i < xs.drop_first().len() implies wf_entry(#[trigger] xs.drop_first()[i]) by {
            assert(xs.drop_first()[i] == xs[i + 1]);
        }
        lemma_dec_enc_seq_entry(b, pos + e0.len(), xs.drop_first());
        assert(seq![xs[0]] + xs.drop_first() =~= xs);
    }
}

/// The count-prefixed sequence written is the sequence read.
pub proof fn lemma_dec_enc_list_entry(b: Seq<u8>, pos: int, xs: Seq<EntryM>)
    requires
        0 <= pos,
        xs.len() <= usize::MAX,
        pos + enc_list_entry(xs).len() <= b.len(),
        b.subrange(pos, pos + enc_list_entry(xs).len()) == enc_list_entry(xs),
        forall|i: int| 0 <= i < xs.len() ==> wf_entry(#[trigger] xs[i]),
    ensures
        dec_list_entry(b, pos) == Some((xs, pos + enc_list_entry(xs).len())),
{
    let cnt = enc_u64(xs.len() as u64);
    let rest = enc_seq_entry(xs);
    lemma_enc_parts(b, pos, cnt, rest);
    lemma_dec_enc_u64(b, pos, xs.len() as u64);
    lemma_dec_enc_seq_entry(b, pos + cnt.len(), xs);
}

/// The abstract value of one record.
pub open spec fn character_model(e: KanjiCharacter) -> CharacterM {
    CharacterM {
        literal: e.literal,
        readings: models_text(e.readings@),
        meanings: models_text(e.meanings@),
        stroke_count: e.stroke_count,
        classification: e.classification,
    }
}

/// Every sequence of the record fits in a vector.
pub open spec fn wf_character(m: CharacterM) -> bool {
    &&& (m.readings.len() <= usize::MAX && (forall|i: int| 0 <= i < m.readings.len() ==> wf_text(#[trigger] m.readings[i])))
    &&& (m.meanings.len() <= usize::MAX && (forall|i: int| 0 <= i < m.meanings.len() ==> wf_text(#[trigger] m.meanings[i])))
}

/// One record: its fields one after the other.
pub open spec fn enc_character(m: CharacterM) -> Seq<u8> {
    enc_char(m.literal) + enc_list_text(m.readings) + enc_list_text(m.meanings) + enc_u8(m.stroke_count) + enc_u8(m.classification)
}

/// The record at `pos`.
pub open spec fn dec_character(b: Seq<u8>, pos: int) -> Option<(CharacterM, int)> {
    match dec_char(b, pos) {
        None => None,
        Some((f0, p0)) => {
        match dec_list_text(b, p0) {
            None => None,
            Some((f1, p1)) => {
            match dec_list_text(b, p1) {
                None => None,
                Some((f2, p2)) => {
                match dec_u8(b, p2) {
                    None => None,
                    Some((f3, p3)) => {
                    match dec_u8(b, p3) {
                        None => None,
                        Some((f4, p4)) => Some((CharacterM { literal: f0, readings: f1, meanings: f2, stroke_count: f3, classification: f4 }, p4)),
                    }
                        },
                }
                    },
            }
                },
        }
            },
    }
}

/// Encode one record.
pub fn encode_character(out: &mut Vec<u8>, e: &KanjiCharacter)
    ensures
        final(out)@ == old(out)@ + enc_character(character_model(*e)),
{
    encode_char(out, e.literal);
    encode_list_text(out, &e.readings);
    encode_list_text(out, &e.meanings);
    encode_u8(out, e.stroke_count);
    encode_u8(out, e.classification);
    assert(out@ =~= old(out)@ + enc_character(character_model(*e)));
}

/// Decode one record.
pub fn decode_character(buf: &Vec<u8>, pos: usize) -> (r: Option<(KanjiCharacter, usize)>)
    ensures
        r is Some <==> dec_character(buf@, pos as int) is Some,
        r matches Some((v, p)) ==> dec_character(buf@, pos as int) == Some(
            (character_model(v), p as int),
        ) && pos < p <= buf@.len(),
{
    let (x0, q0) = match decode_char(buf, pos) {
        None => {
            return None;
        },
        Some(v) => v,
    };
    let (x1, q1) = match decode_list_text(buf, q0) {
        None => {
            return None;
        },
        Some(v) => v,
    };
    let (x2, q2) = match decode_list_text(buf, q1) {
        None => {
            return None;
        },
        Some(v) => v,
    };
    let (x3, q3) = match decode_u8(buf, q2) {
        None => {
            return None;
        },
        Some(v) => v,
    };
    let (x4, q4) = match decode_u8(buf, q3) {
        None => {
            return None;
        },
        Some(v) => v,
    };
    Some((KanjiCharacter { literal: x0, readings: x1, meanings: x2, stroke_count: x3, classification: x4 }, q4))
}

/// The record written is the record read.
pub proof fn lemma_dec_enc_character(b: Seq<u8>, pos: int, x: CharacterM)
    requires
        0 <= pos,
        wf_character(x),
        pos + enc_character(x).len() <= b.len(),
        b.subrange(pos, pos + enc_character(x).len()) == enc_character(x),
    ensures
        dec_character(b, pos) == Some((x, pos + enc_character(x).len())),
{
    let m = x;
    let e0 = enc_char(m.literal);
    let e1 = enc_list_text(m.readings);
    let e2 = enc_list_text(m.meanings);
    let e3 = enc_u8(m.stroke_count);
    let e4 = enc_u8(m.classification);
    assert(enc_character(m) =~= (e0 + (e1 + (e2 + (e3 + e4)))));
    lemma_enc_parts(b, pos, e0, (e1 + (e2 + (e3 + e4))));
    lemma_dec_enc_char(b, pos, m.literal);
    lemma_enc_parts(b, pos + e0.len(), e1, (e2 + (e3 + e4)));
    lemma_dec_enc_list_text(b, pos + e0.len(), m.readings);
    lemma_enc_parts(b, pos + e0.len() + e1.len(), e2, (e3 + e4));
    lemma_dec_enc_list_text(b, pos + e0.len() + e1.len(), m.meanings);
    lemma_enc_parts(b, pos + e0.len() + e1.len() + e2.len(), e3, e4);
    lemma_dec_enc_u8(b, pos + e0.len() + e1.len() + e2.len(), m.stroke_count);
    lemma_dec_enc_u8(b, pos + e0.len() + e1.len() + e2.len() + e3.len(), m.classification);
}

/// The abstract values of the items.
pub open spec fn models_character(s: Seq<KanjiCharacter>) -> Seq<CharacterM> {
    s.map_values(|e: KanjiCharacter| character_model(e))
}

/// The items of a sequence, one after the other.
pub open spec fn enc_seq_character(xs: Seq<CharacterM>) -> Seq<u8>
    decreases xs.len(),
{
    if xs.len() == 0 {
        Seq::empty()
    } else {
        enc_character(xs[0]) + enc_seq_character(xs.drop_first())
    }
}

/// Exactly `n` items read one after the other.
pub open spec fn dec_seq_character(b: Seq<u8>, pos: int, n: int) -> Option<(Seq<CharacterM>, int)>
    decreases n,
{
    if n <= 0 {
        Some((Seq::empty(), pos))
    } else {
        match dec_character(b, pos) {
            None => None,
            Some((x, p)) => match dec_seq_character(b, p, n - 1) {
                None => None,
                Some((xs, p2)) => Some((seq![x] + xs, p2)),
            },
        }
    }
}

/// A count-prefixed sequence of items.
pub open spec fn enc_list_character(xs: Seq<CharacterM>) -> Seq<u8> {
    enc_u64(xs.len() as u64) + enc_seq_character(xs)
}

/// The count-prefixed sequence of items at `pos`.
pub open spec fn dec_list_character(b: Seq<u8>, pos: int) -> Option<(Seq<CharacterM>, int)> {
    match dec_u64(b, pos) {
        None => None,
        Some((n, p)) => if n <= usize::MAX as u64 {
            dec_seq_character(b, p, n as int)
        } else {
            None
        },
    }
}

/// One more item extends the encoding at its end.
pub proof fn lemma_enc_seq_character_push(xs: Seq<CharacterM>, x: CharacterM)
    ensures
        enc_seq_character(xs.push(x)) == enc_seq_character(xs) + enc_character(x),
    decreases xs.len(),
{
    reveal_with_fuel(enc_seq_character, 3);
    if xs.len() == 0 {
        assert(xs.push(x)[0] == x);
        assert(xs.push(x).drop_first() =~= Seq::<CharacterM>::empty());
        assert(enc_seq_character(xs.push(x)) =~= enc_seq_character(xs) + enc_character(x));
    } else {
        assert(xs.push(x)[0] == xs[0]);
        assert(xs.push(x).drop_first() =~= xs.drop_first().push(x));
        lemma_enc_seq_character_push(xs.drop_first(), x);
        assert(enc_seq_character(xs.push(x)) == enc_character(xs[0]) + enc_seq_character(
            xs.drop_first().push(x),
        ));
        assert(enc_seq_character(xs.push(x)) =~= enc_seq_character(xs) + enc_character(x));
    }
}

/// Encode a count-prefixed sequence of items.
pub fn encode_list_character(out: &mut Vec<u8>, s: &Vec<KanjiCharacter>)
    ensures
        final(out)@ == old(out)@ + enc_list_character(models_character(s@)),
{
    encode_u64(out, s.len() as u64);
    let ghost base = out@;
    let mut i: usize = 0;
    while i < s.len()
        invariant
            i <= s@.len(),
            out@ == base + enc_seq_character(models_character(s@).take(i as int)),
        decreases s@.len() - i,
    {
        let ghost before = out@;
        encode_character(out, &s[i]);
        proof {
            let m = models_character(s@);
            assert(m.take(i + 1) =~= m.take(i as int).push(m[i as int]));
            lemma_enc_seq_character_push(m.take(i as int), m[i as int]);
            assert(out@ =~= base + enc_seq_character(m.take(i + 1)));
        }
        i += 1;
    }
    proof {
        let m = models_character(s@);
        assert(m.take(s@.len() as int) =~= m);
    }
}

/// Decode a count-prefixed sequence of items.
pub fn decode_list_character(buf: &Vec<u8>, pos: usize) -> (r: Option<(Vec<KanjiCharacter>, usize)>)
    ensures
        r is Some <==> dec_list_character(buf@, pos as int) is Some,
        r matches Some((v, p)) ==> dec_list_character(buf@, pos as int) == Some(
            (models_character(v@), p as int),
        ) && pos < p <= buf@.len(),
{
    let (n64, p0) = match decode_u64(buf, pos) {
        None => {
            return None;
        },
        Some(x) => x,
    };
    if n64 > usize::MAX as u64 {
        return None;
    }
    let n = n64 as usize;
    assert(n as int == n64 as int);
    let mut acc: Vec<KanjiCharacter> = Vec::new();
    let mut p = p0;
    let mut i: usize = 0;
    proof {
        assert(models_character(acc@) + dec_seq_character(buf@, p as int, n as int)->Some_0.0
            =~= dec_seq_character(buf@, p as int, n as int)->Some_0.0);
    }
    while i < n
        invariant
            i <= n,
            pos < p <= buf@.len(),
            acc@.len() == i,
            dec_list_character(buf@, pos as int) == dec_seq_character(buf@, p0 as int, n as int),
            dec_seq_character(buf@, p0 as int, n as int) == match dec_seq_character(
                buf@,
                p as int,
                n - i,
            ) {
                None => None::<(Seq<CharacterM>, int)>,
                Some((s, q)) => Some((models_character(acc@) + s, q)),
            },
        decreases n - i,
    {
        match decode_character(buf, p) {
            None => {
                proof {
                    assert(dec_seq_character(buf@, p as int, n - i) is None);
                }
                return None;
            },
            Some((x, p2)) => {
                proof {
                    let m = models_character(acc@);
                    let mx = models_character(acc@.push(x))[i as int];
                    assert(models_character(acc@.push(x)) =~= m.push(mx));
                    match dec_seq_character(buf@, p2 as int, n - i - 1) {
                        None => {},
                        Some((s, q)) => {
                            assert(m + (seq![mx] + s) =~= m.push(mx) + s);
                        },
                    }
                }
                acc.push(x);
                p = p2;
                i += 1;
            },
        }
    }
    proof {
        assert(models_character(acc@) + Seq::<CharacterM>::empty() =~= models_character(acc@));
    }
    Some((acc, p))
}

/// The sequence written is the sequence read.
pub proof fn lemma_dec_enc_seq_character(b: Seq<u8>, pos: int, xs: Seq<CharacterM>)
    requires
        0 <= pos,
        pos + enc_seq_character(xs).len() <= b.len(),
        b.subrange(pos, pos + enc_seq_character(xs).len()) == enc_seq_character(xs),
        forall|i: int| 0 <= i < xs.len() ==> wf_character(#[trigger] xs[i]),
    ensures
        dec_seq_character(b, pos, xs.len() as int) == Some((xs, pos + enc_seq_character(xs).len())),
    decreases xs.len(),
{
    if xs.len() == 0 {
    } else {
        let e0 = enc_character(xs[0]);
        let rest = enc_seq_character(xs.drop_first());
        lemma_enc_parts(b, pos, e0, rest);
        lemma_dec_enc_character(b, pos, xs[0]);
        assert forall|i: int| 0 <= i < xs.drop_first().len() implies wf_character(#[trigger] xs.drop_first()[i]) by {
            assert(xs.drop_first()[i] == xs[i + 1]);
        }
        lemma_dec_enc_seq_character(b, pos + e0.len(), xs.drop_first());
        assert(seq![xs[0]] + xs.drop_first() =~= xs);
    }
}

/// The count-prefixed sequence written is the sequence read.
pub proof fn lemma_dec_enc_list_character(b: Seq<u8>, pos: int, xs: Seq<CharacterM>)
    requires
        0 <= pos,
        xs.len() <= usize::MAX,
        pos + enc_list_character(xs).len() <= b.len(),
        b.subrange(pos, pos + enc_list_character(xs).len()) == enc_list_character(xs),
        forall|i: int| 0 <= i < xs.len() ==> wf_character(#[trigger] xs[i]),
    ensures
        dec_list_character(b, pos) == Some((xs, pos + enc_list_character(xs).len())),
{
    let cnt = enc_u64(xs.len() as u64);
    let rest = enc_seq_character(xs);
    lemma_enc_parts(b, pos, cnt, rest);
    lemma_dec_enc_u64(b, pos, xs.len() as u64);
    lemma_dec_enc_seq_character(b, pos + cnt.len(), xs);
}

} // verus!
