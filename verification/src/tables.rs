//! Class tables for the conjugation engine.
//!
//! Each morphological class owns a static table of templates: a conjugation
//! key, a stem-strip count per track and a suffix per track. The tables are
//! stated twice: once at the specification level ([`class_table_spec`]),
//! which is the linguistic reference, and once as executable constructors
//! proved to build exactly that table. Building a headword's paradigm
//! applies every template of its class; a class without a table simply has
//! no inflected forms.
//!
//! Godan rows shift the ending consonant through the vowel row; ichidan
//! drops the final mora; the suru / kuru / aru irregulars and the archaic
//! nidan and yodan classes use literal per-form tables.

use vstd::prelude::*;

use crate::conjugation::{template_model, Conjugation, Template, TemplateM};
use crate::entities::PartOfSpeech;
use crate::sets::Bits;

verus! {

// Bit values of the forms, matching `Form::idx`.
pub const TE: u128 = 1;
pub const PRESENT: u128 = 2;
pub const NEGATIVE: u128 = 4;
pub const PAST: u128 = 8;
pub const COMMAND: u128 = 16;
pub const HYPOTHETICAL: u128 = 32;
pub const CONDITIONAL: u128 = 64;
pub const PASSIVE: u128 = 128;
pub const POTENTIAL: u128 = 256;
pub const VOLITIONAL: u128 = 512;
pub const CAUSATIVE: u128 = 1024;
pub const TAI: u128 = 2048;

// Bit values of the flags, matching `Flag::idx`.
pub const POLITE: u128 = 1;
pub const ALTERNATE: u128 = 2;
pub const CONVERSATION: u128 = 4;

/// One specification-level table row: both tracks strip `strip` characters
/// and append the same suffix.
pub open spec fn tm(form: u128, flag: u128, strip: usize, suffix: Seq<char>) -> TemplateM {
    TemplateM {
        conjugation: Conjugation { form: Bits { bits: form }, flag: Bits { bits: flag } },
        strip_text: strip,
        suffix_text: suffix,
        strip_reading: strip,
        suffix_reading: suffix,
    }
}

/// One specification-level table row with distinct tracks.
pub open spec fn tm2(
    form: u128,
    flag: u128,
    strip_text: usize,
    suffix_text: Seq<char>,
    strip_reading: usize,
    suffix_reading: Seq<char>,
) -> TemplateM {
    TemplateM {
        conjugation: Conjugation { form: Bits { bits: form }, flag: Bits { bits: flag } },
        strip_text,
        suffix_text,
        strip_reading,
        suffix_reading,
    }
}

/// The abstract values of a template list.
pub open spec fn templates_model(ts: Seq<Template>) -> Seq<TemplateM> {
    ts.map_values(|t: Template| template_model(t))
}

fn s0() -> (r: Vec<char>)
    ensures
        r@ == Seq::<char>::empty(),
{
    Vec::new()
}

fn s1(c0: char) -> (r: Vec<char>)
    ensures
        r@ == seq![c0],
{
    let mut v: Vec<char> = Vec::new();
    v.push(c0);
    assert(v@ =~= seq![c0]);
    v
}

fn s2(c0: char, c1: char) -> (r: Vec<char>)
    ensures
        r@ == seq![c0, c1],
{
    let mut v: Vec<char> = Vec::new();
    v.push(c0);
    v.push(c1);
    assert(v@ =~= seq![c0, c1]);
    v
}

fn s3(c0: char, c1: char, c2: char) -> (r: Vec<char>)
    ensures
        r@ == seq![c0, c1, c2],
{
    let mut v: Vec<char> = Vec::new();
    v.push(c0);
    v.push(c1);
    v.push(c2);
    assert(v@ =~= seq![c0, c1, c2]);
    v
}

fn s4(c0: char, c1: char, c2: char, c3: char) -> (r: Vec<char>)
    ensures
        r@ == seq![c0, c1, c2, c3],
{
    let mut v: Vec<char> = Vec::new();
    v.push(c0);
    v.push(c1);
    v.push(c2);
    v.push(c3);
    assert(v@ =~= seq![c0, c1, c2, c3]);
    v
}

fn s5(c0: char, c1: char, c2: char, c3: char, c4: char) -> (r: Vec<char>)
    ensures
        r@ == seq![c0, c1, c2, c3, c4],
{
    let mut v: Vec<char> = Vec::new();
    v.push(c0);
    v.push(c1);
    v.push(c2);
    v.push(c3);
    v.push(c4);
    assert(v@ =~= seq![c0, c1, c2, c3, c4]);
    v
}

fn s6(c0: char, c1: char, c2: char, c3: char, c4: char, c5: char) -> (r: Vec<char>)
    ensures
        r@ == seq![c0, c1, c2, c3, c4, c5],
{
    let mut v: Vec<char> = Vec::new();
    v.push(c0);
    v.push(c1);
    v.push(c2);
    v.push(c3);
    v.push(c4);
    v.push(c5);
    assert(v@ =~= seq![c0, c1, c2, c3, c4, c5]);
    v
}

fn s7(c0: char, c1: char, c2: char, c3: char, c4: char, c5: char, c6: char) -> (r: Vec<char>)
    ensures
        r@ == seq![c0, c1, c2, c3, c4, c5, c6],
{
    let mut v: Vec<char> = Vec::new();
    v.push(c0);
    v.push(c1);
    v.push(c2);
    v.push(c3);
    v.push(c4);
    v.push(c5);
    v.push(c6);
    assert(v@ =~= seq![c0, c1, c2, c3, c4, c5, c6]);
    v
}

/// Push one single-track template row.
fn row(v: &mut Vec<Template>, form: u128, flag: u128, strip: usize, suffix: Vec<char>)
    ensures
        templates_model(final(v)@) == templates_model(old(v)@).push(
            tm(form, flag, strip, suffix@),
        ),
{
    let conjugation = Conjugation { form: Bits { bits: form }, flag: Bits { bits: flag } };
    let suffix_reading = crate::text::chars_copy(&suffix);
    let t = Template {
        conjugation,
        strip_text: strip,
        suffix_text: suffix,
        strip_reading: strip,
        suffix_reading,
    };
    proof {
        assert(template_model(t) == tm(form, flag, strip, t.suffix_text@));
    }
    v.push(t);
    assert(templates_model(v@) =~= templates_model(old(v)@).push(template_model(t)));
}

/// Push one split-track template row.
fn row2(
    v: &mut Vec<Template>,
    form: u128,
    flag: u128,
    strip_text: usize,
    suffix_text: Vec<char>,
    strip_reading: usize,
    suffix_reading: Vec<char>,
)
    ensures
        templates_model(final(v)@) == templates_model(old(v)@).push(
            tm2(form, flag, strip_text, suffix_text@, strip_reading, suffix_reading@),
        ),
{
    let conjugation = Conjugation { form: Bits { bits: form }, flag: Bits { bits: flag } };
    let t = Template { conjugation, strip_text, suffix_text, strip_reading, suffix_reading };
    v.push(t);
    assert(templates_model(v@) =~= templates_model(old(v)@).push(template_model(t)));
}

/// The shared godan table: the ending consonant shifts through its vowel
/// row; the te and past forms carry the class's euphonic change.
pub open spec fn godan_spec(a: char, i: char, u: char, e: char, o: char, te: Seq<char>, ta: Seq<char>) -> Seq<TemplateM> {
    seq![
        tm(TE, 0, 1, te),
        tm(TE, POLITE, 1, seq![i, 'ま', 'し', 'て']),
        tm(PRESENT, 0, 1, seq![u]),
        tm(PRESENT, POLITE, 1, seq![i, 'ま', 'す']),
        tm(NEGATIVE, 0, 1, seq![a, 'な', 'い']),
        tm(NEGATIVE, ALTERNATE, 1, seq![a, 'ぬ']),
        tm(NEGATIVE, POLITE, 1, seq![i, 'ま', 'せ', 'ん']),
        tm(PAST, 0, 1, ta),
        tm(PAST, POLITE, 1, seq![i, 'ま', 'し', 'た']),
        tm(NEGATIVE | PAST, 0, 1, seq![a, 'な', 'か', 'っ', 'た']),
        tm(NEGATIVE | PAST, POLITE, 1, seq![i, 'ま', 'せ', 'ん', 'で', 'し', 'た']),
        tm(COMMAND, 0, 1, seq![e]),
        tm(HYPOTHETICAL, 0, 1, seq![e, 'ば']),
        tm(CONDITIONAL, 0, 1, ta + seq!['ら']),
        tm(PASSIVE, 0, 1, seq![a, 'れ', 'る']),
        tm(POTENTIAL, 0, 1, seq![e, 'る']),
        tm(VOLITIONAL, 0, 1, seq![o, 'う']),
        tm(VOLITIONAL, POLITE, 1, seq![i, 'ま', 'し', 'ょ', 'う']),
        tm(CAUSATIVE, 0, 1, seq![a, 'せ', 'る']),
        tm(TAI, 0, 1, seq![i, 'た', 'い']),
    ]
}

/// The shared godan table: the ending consonant shifts through its vowel
/// row; the te and past forms carry the class's euphonic change.
#[verifier::rlimit(100)]
fn godan(a: char, i: char, u: char, e: char, o: char, te: Vec<char>, ta: Vec<char>) -> (r: Vec<Template>)
    ensures
        templates_model(r@) == godan_spec(a, i, u, e, o, te@, ta@),
{
    let mut v: Vec<Template> = Vec::new();
    let tara = crate::text::chars_concat(&ta, &s1('ら'));
    let ta2 = crate::text::chars_copy(&ta);
    proof {
        assert(templates_model(v@) =~= Seq::<TemplateM>::empty());
    }
    row(&mut v, TE, 0, 1, te);
    row(&mut v, TE, POLITE, 1, s4(i, 'ま', 'し', 'て'));
    row(&mut v, PRESENT, 0, 1, s1(u));
    row(&mut v, PRESENT, POLITE, 1, s3(i, 'ま', 'す'));
    row(&mut v, NEGATIVE, 0, 1, s3(a, 'な', 'い'));
    row(&mut v, NEGATIVE, ALTERNATE, 1, s2(a, 'ぬ'));
    row(&mut v, NEGATIVE, POLITE, 1, s4(i, 'ま', 'せ', 'ん'));
    row(&mut v, PAST, 0, 1, ta2);
    row(&mut v, PAST, POLITE, 1, s4(i, 'ま', 'し', 'た'));
    row(&mut v, NEGATIVE | PAST, 0, 1, s5(a, 'な', 'か', 'っ', 'た'));
    row(&mut v, NEGATIVE | PAST, POLITE, 1, s7(i, 'ま', 'せ', 'ん', 'で', 'し', 'た'));
    row(&mut v, COMMAND, 0, 1, s1(e));
    row(&mut v, HYPOTHETICAL, 0, 1, s2(e, 'ば'));
    row(&mut v, CONDITIONAL, 0, 1, tara);
    row(&mut v, PASSIVE, 0, 1, s3(a, 'れ', 'る'));
    row(&mut v, POTENTIAL, 0, 1, s2(e, 'る'));
    row(&mut v, VOLITIONAL, 0, 1, s2(o, 'う'));
    row(&mut v, VOLITIONAL, POLITE, 1, s5(i, 'ま', 'し', 'ょ', 'う'));
    row(&mut v, CAUSATIVE, 0, 1, s3(a, 'せ', 'る'));
    row(&mut v, TAI, 0, 1, s3(i, 'た', 'い'));
    assert(templates_model(v@) =~= godan_spec(a, i, u, e, o, te@, ta@));
    v
}

/// The plain ichidan table: the final mora drops before every suffix.
pub open spec fn ichidan_spec() -> Seq<TemplateM> {
    seq![
        tm(TE, 0, 1, seq!['て']),
        tm(TE, POLITE, 1, seq!['ま', 'し', 'て']),
        tm(PRESENT, 0, 1, seq!['る']),
        tm(PRESENT, POLITE, 1, seq!['ま', 'す']),
        tm(NEGATIVE, 0, 1, seq!['な', 'い']),
        tm(NEGATIVE, ALTERNATE, 1, seq!['ぬ']),
        tm(NEGATIVE, POLITE, 1, seq!['ま', 'せ', 'ん']),
        tm(PAST, 0, 1, seq!['た']),
        tm(PAST, POLITE, 1, seq!['ま', 'し', 'た']),
        tm(NEGATIVE | PAST, 0, 1, seq!['な', 'か', 'っ', 'た']),
        tm(NEGATIVE | PAST, POLITE, 1, seq!['ま', 'せ', 'ん', 'で', 'し', 'た']),
        tm(HYPOTHETICAL, 0, 1, seq!['れ', 'ば']),
        tm(CONDITIONAL, 0, 1, seq!['た', 'ら']),
        tm(PASSIVE, 0, 1, seq!['ら', 'れ', 'る']),
        tm(POTENTIAL, 0, 1, seq!['ら', 'れ', 'る']),
        tm(POTENTIAL, CONVERSATION, 1, seq!['れ', 'る']),
        tm(VOLITIONAL, 0, 1, seq!['よ', 'う']),
        tm(VOLITIONAL, POLITE, 1, seq!['ま', 'し', 'ょ', 'う']),
        tm(CAUSATIVE, 0, 1, seq!['さ', 'せ', 'る']),
        tm(TAI, 0, 1, seq!['た', 'い']),
        tm(COMMAND, 0, 1, seq!['ろ']),
        tm(COMMAND, ALTERNATE, 1, seq!['よ']),
    ]
}

/// The plain ichidan table: the final mora drops before every suffix.
#[verifier::rlimit(100)]
fn ichidan() -> (r: Vec<Template>)
    ensures
        templates_model(r@) == ichidan_spec(),
{
    let mut v: Vec<Template> = Vec::new();
    proof {
        assert(templates_model(v@) =~= Seq::<TemplateM>::empty());
    }
    row(&mut v, TE, 0, 1, s1('て'));
    row(&mut v, TE, POLITE, 1, s3('ま', 'し', 'て'));
    row(&mut v, PRESENT, 0, 1, s1('る'));
    row(&mut v, PRESENT, POLITE, 1, s2('ま', 'す'));
    row(&mut v, NEGATIVE, 0, 1, s2('な', 'い'));
    row(&mut v, NEGATIVE, ALTERNATE, 1, s1('ぬ'));
    row(&mut v, NEGATIVE, POLITE, 1, s3('ま', 'せ', 'ん'));
    row(&mut v, PAST, 0, 1, s1('た'));
    row(&mut v, PAST, POLITE, 1, s3('ま', 'し', 'た'));
    row(&mut v, NEGATIVE | PAST, 0, 1, s4('な', 'か', 'っ', 'た'));
    row(&mut v, NEGATIVE | PAST, POLITE, 1, s6('ま', 'せ', 'ん', 'で', 'し', 'た'));
    row(&mut v, HYPOTHETICAL, 0, 1, s2('れ', 'ば'));
    row(&mut v, CONDITIONAL, 0, 1, s2('た', 'ら'));
    row(&mut v, PASSIVE, 0, 1, s3('ら', 'れ', 'る'));
    row(&mut v, POTENTIAL, 0, 1, s3('ら', 'れ', 'る'));
    row(&mut v, POTENTIAL, CONVERSATION, 1, s2('れ', 'る'));
    row(&mut v, VOLITIONAL, 0, 1, s2('よ', 'う'));
    row(&mut v, VOLITIONAL, POLITE, 1, s4('ま', 'し', 'ょ', 'う'));
    row(&mut v, CAUSATIVE, 0, 1, s3('さ', 'せ', 'る'));
    row(&mut v, TAI, 0, 1, s2('た', 'い'));
    row(&mut v, COMMAND, 0, 1, s1('ろ'));
    row(&mut v, COMMAND, ALTERNATE, 1, s1('よ'));
    assert(templates_model(v@) =~= ichidan_spec());
    v
}

/// The kureru special class: as ichidan, but the command is the bare stem.
pub open spec fn kureru_spec() -> Seq<TemplateM> {
    seq![
        tm(TE, 0, 1, seq!['て']),
        tm(TE, POLITE, 1, seq!['ま', 'し', 'て']),
        tm(PRESENT, 0, 1, seq!['る']),
        tm(PRESENT, POLITE, 1, seq!['ま', 'す']),
        tm(NEGATIVE, 0, 1, seq!['な', 'い']),
        tm(NEGATIVE, ALTERNATE, 1, seq!['ぬ']),
        tm(NEGATIVE, POLITE, 1, seq!['ま', 'せ', 'ん']),
        tm(PAST, 0, 1, seq!['た']),
        tm(PAST, POLITE, 1, seq!['ま', 'し', 'た']),
        tm(NEGATIVE | PAST, 0, 1, seq!['な', 'か', 'っ', 'た']),
        tm(NEGATIVE | PAST, POLITE, 1, seq!['ま', 'せ', 'ん', 'で', 'し', 'た']),
        tm(HYPOTHETICAL, 0, 1, seq!['れ', 'ば']),
        tm(CONDITIONAL, 0, 1, seq!['た', 'ら']),
        tm(PASSIVE, 0, 1, seq!['ら', 'れ', 'る']),
        tm(POTENTIAL, 0, 1, seq!['ら', 'れ', 'る']),
        tm(POTENTIAL, CONVERSATION, 1, seq!['れ', 'る']),
        tm(VOLITIONAL, 0, 1, seq!['よ', 'う']),
        tm(VOLITIONAL, POLITE, 1, seq!['ま', 'し', 'ょ', 'う']),
        tm(CAUSATIVE, 0, 1, seq!['さ', 'せ', 'る']),
        tm(TAI, 0, 1, seq!['た', 'い']),
        tm(COMMAND, 0, 1, Seq::<char>::empty()),
    ]
}

/// The kureru special class: as ichidan, but the command is the bare stem.
#[verifier::rlimit(100)]
fn kureru() -> (r: Vec<Template>)
    ensures
        templates_model(r@) == kureru_spec(),
{
    let mut v: Vec<Template> = Vec::new();
    proof {
        assert(templates_model(v@) =~= Seq::<TemplateM>::empty());
    }
    row(&mut v, TE, 0, 1, s1('て'));
    row(&mut v, TE, POLITE, 1, s3('ま', 'し', 'て'));
    row(&mut v, PRESENT, 0, 1, s1('る'));
    row(&mut v, PRESENT, POLITE, 1, s2('ま', 'す'));
    row(&mut v, NEGATIVE, 0, 1, s2('な', 'い'));
    row(&mut v, NEGATIVE, ALTERNATE, 1, s1('ぬ'));
    row(&mut v, NEGATIVE, POLITE, 1, s3('ま', 'せ', 'ん'));
    row(&mut v, PAST, 0, 1, s1('た'));
    row(&mut v, PAST, POLITE, 1, s3('ま', 'し', 'た'));
    row(&mut v, NEGATIVE | PAST, 0, 1, s4('な', 'か', 'っ', 'た'));
    row(&mut v, NEGATIVE | PAST, POLITE, 1, s6('ま', 'せ', 'ん', 'で', 'し', 'た'));
    row(&mut v, HYPOTHETICAL, 0, 1, s2('れ', 'ば'));
    row(&mut v, CONDITIONAL, 0, 1, s2('た', 'ら'));
    row(&mut v, PASSIVE, 0, 1, s3('ら', 'れ', 'る'));
    row(&mut v, POTENTIAL, 0, 1, s3('ら', 'れ', 'る'));
    row(&mut v, POTENTIAL, CONVERSATION, 1, s2('れ', 'る'));
    row(&mut v, VOLITIONAL, 0, 1, s2('よ', 'う'));
    row(&mut v, VOLITIONAL, POLITE, 1, s4('ま', 'し', 'ょ', 'う'));
    row(&mut v, CAUSATIVE, 0, 1, s3('さ', 'せ', 'る'));
    row(&mut v, TAI, 0, 1, s2('た', 'い'));
    row(&mut v, COMMAND, 0, 1, s0());
    assert(templates_model(v@) =~= kureru_spec());
    v
}

/// The suru table: literal per-form rows over the two-character ending.
/// The potential form varies by subclass: できる for the plain and included
/// classes, せる for the special class.
pub open spec fn suru_spec(potential: Seq<char>) -> Seq<TemplateM> {
    seq![
        tm(TE, 0, 2, seq!['し', 'て']),
        tm(TE, POLITE, 2, seq!['し', 'ま', 'し', 'て']),
        tm(PRESENT, 0, 2, seq!['す', 'る']),
        tm(PRESENT, POLITE, 2, seq!['し', 'ま', 'す']),
        tm(NEGATIVE, 0, 2, seq!['し', 'な', 'い']),
        tm(NEGATIVE, ALTERNATE, 2, seq!['せ', 'ぬ']),
        tm(NEGATIVE, POLITE, 2, seq!['し', 'ま', 'せ', 'ん']),
        tm(PAST, 0, 2, seq!['し', 'た']),
        tm(PAST, POLITE, 2, seq!['し', 'ま', 'し', 'た']),
        tm(NEGATIVE | PAST, 0, 2, seq!['し', 'な', 'か', 'っ', 'た']),
        tm(NEGATIVE | PAST, POLITE, 2, seq!['し', 'ま', 'せ', 'ん', 'で', 'し', 'た']),
        tm(COMMAND, 0, 2, seq!['し', 'ろ']),
        tm(COMMAND, ALTERNATE, 2, seq!['せ', 'よ']),
        tm(HYPOTHETICAL, 0, 2, seq!['す', 'れ', 'ば']),
        tm(CONDITIONAL, 0, 2, seq!['し', 'た', 'ら']),
        tm(PASSIVE, 0, 2, seq!['さ', 'れ', 'る']),
        tm(VOLITIONAL, 0, 2, seq!['し', 'よ', 'う']),
        tm(VOLITIONAL, POLITE, 2, seq!['し', 'ま', 'し', 'ょ', 'う']),
        tm(CAUSATIVE, 0, 2, seq!['さ', 'せ', 'る']),
        tm(TAI, 0, 2, seq!['し', 'た', 'い']),
        tm(POTENTIAL, 0, 2, potential),
    ]
}

/// The suru table: literal per-form rows over the two-character ending.
/// The potential form varies by subclass: できる for the plain and included
/// classes, せる for the special class.
#[verifier::rlimit(100)]
fn suru(potential: Vec<char>) -> (r: Vec<Template>)
    ensures
        templates_model(r@) == suru_spec(potential@),
{
    let mut v: Vec<Template> = Vec::new();
    proof {
        assert(templates_model(v@) =~= Seq::<TemplateM>::empty());
    }
    row(&mut v, TE, 0, 2, s2('し', 'て'));
    row(&mut v, TE, POLITE, 2, s4('し', 'ま', 'し', 'て'));
    row(&mut v, PRESENT, 0, 2, s2('す', 'る'));
    row(&mut v, PRESENT, POLITE, 2, s3('し', 'ま', 'す'));
    row(&mut v, NEGATIVE, 0, 2, s3('し', 'な', 'い'));
    row(&mut v, NEGATIVE, ALTERNATE, 2, s2('せ', 'ぬ'));
    row(&mut v, NEGATIVE, POLITE, 2, s4('し', 'ま', 'せ', 'ん'));
    row(&mut v, PAST, 0, 2, s2('し', 'た'));
    row(&mut v, PAST, POLITE, 2, s4('し', 'ま', 'し', 'た'));
    row(&mut v, NEGATIVE | PAST, 0, 2, s5('し', 'な', 'か', 'っ', 'た'));
    row(&mut v, NEGATIVE | PAST, POLITE, 2, s7('し', 'ま', 'せ', 'ん', 'で', 'し', 'た'));
    row(&mut v, COMMAND, 0, 2, s2('し', 'ろ'));
    row(&mut v, COMMAND, ALTERNATE, 2, s2('せ', 'よ'));
    row(&mut v, HYPOTHETICAL, 0, 2, s3('す', 'れ', 'ば'));
    row(&mut v, CONDITIONAL, 0, 2, s3('し', 'た', 'ら'));
    row(&mut v, PASSIVE, 0, 2, s3('さ', 'れ', 'る'));
    row(&mut v, VOLITIONAL, 0, 2, s3('し', 'よ', 'う'));
    row(&mut v, VOLITIONAL, POLITE, 2, s5('し', 'ま', 'し', 'ょ', 'う'));
    row(&mut v, CAUSATIVE, 0, 2, s3('さ', 'せ', 'る'));
    row(&mut v, TAI, 0, 2, s3('し', 'た', 'い'));
    row(&mut v, POTENTIAL, 0, 2, crate::text::chars_copy(&potential));
    assert(templates_model(v@) =~= suru_spec(potential@));
    v
}

/// The zuru table: ずる verbs inflect on the じ stem.
pub open spec fn zuru_spec() -> Seq<TemplateM> {
    seq![
        tm(TE, 0, 2, seq!['じ', 'て']),
        tm(PRESENT, 0, 2, seq!['ず', 'る']),
        tm(PRESENT, POLITE, 2, seq!['じ', 'ま', 'す']),
        tm(NEGATIVE, 0, 2, seq!['じ', 'な', 'い']),
        tm(NEGATIVE, POLITE, 2, seq!['じ', 'ま', 'せ', 'ん']),
        tm(PAST, 0, 2, seq!['じ', 'た']),
        tm(PAST, POLITE, 2, seq!['じ', 'ま', 'し', 'た']),
        tm(NEGATIVE | PAST, 0, 2, seq!['じ', 'な', 'か', 'っ', 'た']),
        tm(COMMAND, 0, 2, seq!['じ', 'ろ']),
        tm(HYPOTHETICAL, 0, 2, seq!['ず', 'れ', 'ば']),
        tm(CONDITIONAL, 0, 2, seq!['じ', 'た', 'ら']),
        tm(PASSIVE, 0, 2, seq!['じ', 'ら', 'れ', 'る']),
        tm(POTENTIAL, 0, 2, seq!['じ', 'ら', 'れ', 'る']),
        tm(VOLITIONAL, 0, 2, seq!['じ', 'よ', 'う']),
        tm(CAUSATIVE, 0, 2, seq!['じ', 'さ', 'せ', 'る']),
        tm(TAI, 0, 2, seq!['じ', 'た', 'い']),
    ]
}

/// The zuru table: ずる verbs inflect on the じ stem.
#[verifier::rlimit(100)]
fn zuru() -> (r: Vec<Template>)
    ensures
        templates_model(r@) == zuru_spec(),
{
    let mut v: Vec<Template> = Vec::new();
    proof {
        assert(templates_model(v@) =~= Seq::<TemplateM>::empty());
    }
    row(&mut v, TE, 0, 2, s2('じ', 'て'));
    row(&mut v, PRESENT, 0, 2, s2('ず', 'る'));
    row(&mut v, PRESENT, POLITE, 2, s3('じ', 'ま', 'す'));
    row(&mut v, NEGATIVE, 0, 2, s3('じ', 'な', 'い'));
    row(&mut v, NEGATIVE, POLITE, 2, s4('じ', 'ま', 'せ', 'ん'));
    row(&mut v, PAST, 0, 2, s2('じ', 'た'));
    row(&mut v, PAST, POLITE, 2, s4('じ', 'ま', 'し', 'た'));
    row(&mut v, NEGATIVE | PAST, 0, 2, s5('じ', 'な', 'か', 'っ', 'た'));
    row(&mut v, COMMAND, 0, 2, s2('じ', 'ろ'));
    row(&mut v, HYPOTHETICAL, 0, 2, s3('ず', 'れ', 'ば'));
    row(&mut v, CONDITIONAL, 0, 2, s3('じ', 'た', 'ら'));
    row(&mut v, PASSIVE, 0, 2, s4('じ', 'ら', 'れ', 'る'));
    row(&mut v, POTENTIAL, 0, 2, s4('じ', 'ら', 'れ', 'る'));
    row(&mut v, VOLITIONAL, 0, 2, s3('じ', 'よ', 'う'));
    row(&mut v, CAUSATIVE, 0, 2, s4('じ', 'さ', 'せ', 'る'));
    row(&mut v, TAI, 0, 2, s3('じ', 'た', 'い'));
    assert(templates_model(v@) =~= zuru_spec());
    v
}

/// The kuru special class: the written track keeps the kanji and strips
/// only る, while the reading track replaces both of くる with the shifted
/// stem sound.
pub open spec fn kuru_spec() -> Seq<TemplateM> {
    seq![
        tm2(TE, 0, 1, seq!['て'], 2, seq!['き', 'て']),
        tm2(TE, POLITE, 1, seq!['ま', 'し', 'て'], 2, seq!['き', 'ま', 'し', 'て']),
        tm2(PRESENT, 0, 1, seq!['る'], 2, seq!['く', 'る']),
        tm2(PRESENT, POLITE, 1, seq!['ま', 'す'], 2, seq!['き', 'ま', 'す']),
        tm2(NEGATIVE, 0, 1, seq!['な', 'い'], 2, seq!['こ', 'な', 'い']),
        tm2(NEGATIVE, POLITE, 1, seq!['ま', 'せ', 'ん'], 2, seq!['き', 'ま', 'せ', 'ん']),
        tm2(PAST, 0, 1, seq!['た'], 2, seq!['き', 'た']),
        tm2(PAST, POLITE, 1, seq!['ま', 'し', 'た'], 2, seq!['き', 'ま', 'し', 'た']),
        tm2(NEGATIVE | PAST, 0, 1, seq!['な', 'か', 'っ', 'た'], 2, seq!['こ', 'な', 'か', 'っ', 'た']),
        tm2(NEGATIVE | PAST, POLITE, 1, seq!['ま', 'せ', 'ん', 'で', 'し', 'た'], 2, seq!['き', 'ま', 'せ', 'ん', 'で', 'し', 'た']),
        tm2(COMMAND, 0, 1, seq!['い'], 2, seq!['こ', 'い']),
        tm2(HYPOTHETICAL, 0, 1, seq!['れ', 'ば'], 2, seq!['く', 'れ', 'ば']),
        tm2(CONDITIONAL, 0, 1, seq!['た', 'ら'], 2, seq!['き', 'た', 'ら']),
        tm2(PASSIVE, 0, 1, seq!['ら', 'れ', 'る'], 2, seq!['こ', 'ら', 'れ', 'る']),
        tm2(POTENTIAL, 0, 1, seq!['ら', 'れ', 'る'], 2, seq!['こ', 'ら', 'れ', 'る']),
        tm2(POTENTIAL, CONVERSATION, 1, seq!['れ', 'る'], 2, seq!['こ', 'れ', 'る']),
        tm2(VOLITIONAL, 0, 1, seq!['よ', 'う'], 2, seq!['こ', 'よ', 'う']),
        tm2(VOLITIONAL, POLITE, 1, seq!['ま', 'し', 'ょ', 'う'], 2, seq!['き', 'ま', 'し', 'ょ', 'う']),
        tm2(CAUSATIVE, 0, 1, seq!['さ', 'せ', 'る'], 2, seq!['こ', 'さ', 'せ', 'る']),
        tm2(TAI, 0, 1, seq!['た', 'い'], 2, seq!['き', 'た', 'い']),
    ]
}

/// The kuru special class: the written track keeps the kanji and strips
/// only る, while the reading track replaces both of くる with the shifted
/// stem sound.
#[verifier::rlimit(100)]
fn kuru() -> (r: Vec<Template>)
    ensures
        templates_model(r@) == kuru_spec(),
{
    let mut v: Vec<Template> = Vec::new();
    proof {
        assert(templates_model(v@) =~= Seq::<TemplateM>::empty());
    }
    row2(&mut v, TE, 0, 1, s1('て'), 2, s2('き', 'て'));
    row2(&mut v, TE, POLITE, 1, s3('ま', 'し', 'て'), 2, s4('き', 'ま', 'し', 'て'));
    row2(&mut v, PRESENT, 0, 1, s1('る'), 2, s2('く', 'る'));
    row2(&mut v, PRESENT, POLITE, 1, s2('ま', 'す'), 2, s3('き', 'ま', 'す'));
    row2(&mut v, NEGATIVE, 0, 1, s2('な', 'い'), 2, s3('こ', 'な', 'い'));
    row2(&mut v, NEGATIVE, POLITE, 1, s3('ま', 'せ', 'ん'), 2, s4('き', 'ま', 'せ', 'ん'));
    row2(&mut v, PAST, 0, 1, s1('た'), 2, s2('き', 'た'));
    row2(&mut v, PAST, POLITE, 1, s3('ま', 'し', 'た'), 2, s4('き', 'ま', 'し', 'た'));
    row2(&mut v, NEGATIVE | PAST, 0, 1, s4('な', 'か', 'っ', 'た'), 2, s5('こ', 'な', 'か', 'っ', 'た'));
    row2(&mut v, NEGATIVE | PAST, POLITE, 1, s6('ま', 'せ', 'ん', 'で', 'し', 'た'), 2, s7('き', 'ま', 'せ', 'ん', 'で', 'し', 'た'));
    row2(&mut v, COMMAND, 0, 1, s1('い'), 2, s2('こ', 'い'));
    row2(&mut v, HYPOTHETICAL, 0, 1, s2('れ', 'ば'), 2, s3('く', 'れ', 'ば'));
    row2(&mut v, CONDITIONAL, 0, 1, s2('た', 'ら'), 2, s3('き', 'た', 'ら'));
    row2(&mut v, PASSIVE, 0, 1, s3('ら', 'れ', 'る'), 2, s4('こ', 'ら', 'れ', 'る'));
    row2(&mut v, POTENTIAL, 0, 1, s3('ら', 'れ', 'る'), 2, s4('こ', 'ら', 'れ', 'る'));
    row2(&mut v, POTENTIAL, CONVERSATION, 1, s2('れ', 'る'), 2, s3('こ', 'れ', 'る'));
    row2(&mut v, VOLITIONAL, 0, 1, s2('よ', 'う'), 2, s3('こ', 'よ', 'う'));
    row2(&mut v, VOLITIONAL, POLITE, 1, s4('ま', 'し', 'ょ', 'う'), 2, s5('き', 'ま', 'し', 'ょ', 'う'));
    row2(&mut v, CAUSATIVE, 0, 1, s3('さ', 'せ', 'る'), 2, s4('こ', 'さ', 'せ', 'る'));
    row2(&mut v, TAI, 0, 1, s2('た', 'い'), 2, s3('き', 'た', 'い'));
    assert(templates_model(v@) =~= kuru_spec());
    v
}

/// The irregular ru verb ある: godan on the ら row, except that the plain
/// negative replaces the whole ending with ない.
pub open spec fn aru_irregular_spec() -> Seq<TemplateM> {
    seq![
        tm(TE, 0, 1, seq!['っ', 'て']),
        tm(TE, POLITE, 1, seq!['り', 'ま', 'し', 'て']),
        tm(PRESENT, 0, 1, seq!['る']),
        tm(PRESENT, POLITE, 1, seq!['り', 'ま', 'す']),
        tm(NEGATIVE, 0, 2, seq!['な', 'い']),
        tm(NEGATIVE, ALTERNATE, 1, seq!['ら', 'ぬ']),
        tm(NEGATIVE, POLITE, 1, seq!['り', 'ま', 'せ', 'ん']),
        tm(PAST, 0, 1, seq!['っ', 'た']),
        tm(PAST, POLITE, 1, seq!['り', 'ま', 'し', 'た']),
        tm(NEGATIVE | PAST, 0, 2, seq!['な', 'か', 'っ', 'た']),
        tm(NEGATIVE | PAST, POLITE, 1, seq!['り', 'ま', 'せ', 'ん', 'で', 'し', 'た']),
        tm(COMMAND, 0, 1, seq!['れ']),
        tm(HYPOTHETICAL, 0, 1, seq!['れ', 'ば']),
        tm(CONDITIONAL, 0, 1, seq!['っ', 'た', 'ら']),
        tm(VOLITIONAL, 0, 1, seq!['ろ', 'う']),
        tm(VOLITIONAL, POLITE, 1, seq!['り', 'ま', 'し', 'ょ', 'う']),
    ]
}

/// The irregular ru verb ある: godan on the ら row, except that the plain
/// negative replaces the whole ending with ない.
#[verifier::rlimit(100)]
fn aru_irregular() -> (r: Vec<Template>)
    ensures
        templates_model(r@) == aru_irregular_spec(),
{
    let mut v: Vec<Template> = Vec::new();
    proof {
        assert(templates_model(v@) =~= Seq::<TemplateM>::empty());
    }
    row(&mut v, TE, 0, 1, s2('っ', 'て'));
    row(&mut v, TE, POLITE, 1, s4('り', 'ま', 'し', 'て'));
    row(&mut v, PRESENT, 0, 1, s1('る'));
    row(&mut v, PRESENT, POLITE, 1, s3('り', 'ま', 'す'));
    row(&mut v, NEGATIVE, 0, 2, s2('な', 'い'));
    row(&mut v, NEGATIVE, ALTERNATE, 1, s2('ら', 'ぬ'));
    row(&mut v, NEGATIVE, POLITE, 1, s4('り', 'ま', 'せ', 'ん'));
    row(&mut v, PAST, 0, 1, s2('っ', 'た'));
    row(&mut v, PAST, POLITE, 1, s4('り', 'ま', 'し', 'た'));
    row(&mut v, NEGATIVE | PAST, 0, 2, s4('な', 'か', 'っ', 'た'));
    row(&mut v, NEGATIVE | PAST, POLITE, 1, s7('り', 'ま', 'せ', 'ん', 'で', 'し', 'た'));
    row(&mut v, COMMAND, 0, 1, s1('れ'));
    row(&mut v, HYPOTHETICAL, 0, 1, s2('れ', 'ば'));
    row(&mut v, CONDITIONAL, 0, 1, s3('っ', 'た', 'ら'));
    row(&mut v, VOLITIONAL, 0, 1, s2('ろ', 'う'));
    row(&mut v, VOLITIONAL, POLITE, 1, s5('り', 'ま', 'し', 'ょ', 'う'));
    assert(templates_model(v@) =~= aru_irregular_spec());
    v
}

/// The -aru special class of honorifics: godan on the ら row, with the
/// polite stem and the command on い.
pub open spec fn aru_special_spec() -> Seq<TemplateM> {
    seq![
        tm(TE, 0, 1, seq!['っ', 'て']),
        tm(TE, POLITE, 1, seq!['い', 'ま', 'し', 'て']),
        tm(PRESENT, 0, 1, seq!['る']),
        tm(PRESENT, POLITE, 1, seq!['い', 'ま', 'す']),
        tm(NEGATIVE, 0, 1, seq!['ら', 'な', 'い']),
        tm(NEGATIVE, POLITE, 1, seq!['い', 'ま', 'せ', 'ん']),
        tm(PAST, 0, 1, seq!['っ', 'た']),
        tm(PAST, POLITE, 1, seq!['い', 'ま', 'し', 'た']),
        tm(NEGATIVE | PAST, 0, 1, seq!['ら', 'な', 'か', 'っ', 'た']),
        tm(COMMAND, 0, 1, seq!['い']),
        tm(HYPOTHETICAL, 0, 1, seq!['れ', 'ば']),
        tm(CONDITIONAL, 0, 1, seq!['っ', 'た', 'ら']),
        tm(VOLITIONAL, POLITE, 1, seq!['い', 'ま', 'し', 'ょ', 'う']),
        tm(TAI, 0, 1, seq!['り', 'た', 'い']),
    ]
}

/// The -aru special class of honorifics: godan on the ら row, with the
/// polite stem and the command on い.
#[verifier::rlimit(100)]
fn aru_special() -> (r: Vec<Template>)
    ensures
        templates_model(r@) == aru_special_spec(),
{
    let mut v: Vec<Template> = Vec::new();
    proof {
        assert(templates_model(v@) =~= Seq::<TemplateM>::empty());
    }
    row(&mut v, TE, 0, 1, s2('っ', 'て'));
    row(&mut v, TE, POLITE, 1, s4('い', 'ま', 'し', 'て'));
    row(&mut v, PRESENT, 0, 1, s1('る'));
    row(&mut v, PRESENT, POLITE, 1, s3('い', 'ま', 'す'));
    row(&mut v, NEGATIVE, 0, 1, s3('ら', 'な', 'い'));
    row(&mut v, NEGATIVE, POLITE, 1, s4('い', 'ま', 'せ', 'ん'));
    row(&mut v, PAST, 0, 1, s2('っ', 'た'));
    row(&mut v, PAST, POLITE, 1, s4('い', 'ま', 'し', 'た'));
    row(&mut v, NEGATIVE | PAST, 0, 1, s5('ら', 'な', 'か', 'っ', 'た'));
    row(&mut v, COMMAND, 0, 1, s1('い'));
    row(&mut v, HYPOTHETICAL, 0, 1, s2('れ', 'ば'));
    row(&mut v, CONDITIONAL, 0, 1, s3('っ', 'た', 'ら'));
    row(&mut v, VOLITIONAL, POLITE, 1, s5('い', 'ま', 'し', 'ょ', 'う'));
    row(&mut v, TAI, 0, 1, s3('り', 'た', 'い'));
    assert(templates_model(v@) =~= aru_special_spec());
    v
}

/// The archaic irregular り class.
pub open spec fn ri_irregular_spec() -> Seq<TemplateM> {
    seq![
        tm(PRESENT, 0, 1, seq!['り']),
        tm(NEGATIVE, 0, 1, seq!['ら', 'ず']),
        tm(TE, 0, 1, seq!['り', 'て']),
        tm(PAST, 0, 1, seq!['り', 'き']),
        tm(COMMAND, 0, 1, seq!['れ']),
    ]
}

/// The archaic irregular り class.
#[verifier::rlimit(100)]
fn ri_irregular() -> (r: Vec<Template>)
    ensures
        templates_model(r@) == ri_irregular_spec(),
{
    let mut v: Vec<Template> = Vec::new();
    proof {
        assert(templates_model(v@) =~= Seq::<TemplateM>::empty());
    }
    row(&mut v, PRESENT, 0, 1, s1('り'));
    row(&mut v, NEGATIVE, 0, 1, s2('ら', 'ず'));
    row(&mut v, TE, 0, 1, s2('り', 'て'));
    row(&mut v, PAST, 0, 1, s2('り', 'き'));
    row(&mut v, COMMAND, 0, 1, s1('れ'));
    assert(templates_model(v@) =~= ri_irregular_spec());
    v
}

/// The i-adjective table.
pub open spec fn adjective_i_spec() -> Seq<TemplateM> {
    seq![
        tm(PRESENT, 0, 1, seq!['い']),
        tm(PRESENT, POLITE, 1, seq!['い', 'で', 'す']),
        tm(PAST, 0, 1, seq!['か', 'っ', 'た']),
        tm(PAST, POLITE, 1, seq!['か', 'っ', 'た', 'で', 'す']),
        tm(NEGATIVE, 0, 1, seq!['く', 'な', 'い']),
        tm(NEGATIVE, POLITE, 1, seq!['く', 'な', 'い', 'で', 'す']),
        tm(NEGATIVE | PAST, 0, 1, seq!['く', 'な', 'か', 'っ', 'た']),
        tm(TE, 0, 1, seq!['く', 'て']),
        tm(HYPOTHETICAL, 0, 1, seq!['け', 'れ', 'ば']),
        tm(CONDITIONAL, 0, 1, seq!['か', 'っ', 'た', 'ら']),
    ]
}

/// The i-adjective table.
#[verifier::rlimit(100)]
fn adjective_i() -> (r: Vec<Template>)
    ensures
        templates_model(r@) == adjective_i_spec(),
{
    let mut v: Vec<Template> = Vec::new();
    proof {
        assert(templates_model(v@) =~= Seq::<TemplateM>::empty());
    }
    row(&mut v, PRESENT, 0, 1, s1('い'));
    row(&mut v, PRESENT, POLITE, 1, s3('い', 'で', 'す'));
    row(&mut v, PAST, 0, 1, s3('か', 'っ', 'た'));
    row(&mut v, PAST, POLITE, 1, s5('か', 'っ', 'た', 'で', 'す'));
    row(&mut v, NEGATIVE, 0, 1, s3('く', 'な', 'い'));
    row(&mut v, NEGATIVE, POLITE, 1, s5('く', 'な', 'い', 'で', 'す'));
    row(&mut v, NEGATIVE | PAST, 0, 1, s5('く', 'な', 'か', 'っ', 'た'));
    row(&mut v, TE, 0, 1, s2('く', 'て'));
    row(&mut v, HYPOTHETICAL, 0, 1, s3('け', 'れ', 'ば'));
    row(&mut v, CONDITIONAL, 0, 1, s4('か', 'っ', 'た', 'ら'));
    assert(templates_model(v@) =~= adjective_i_spec());
    v
}

/// The yoi / ii adjective class: inflected forms build on the よ stem.
pub open spec fn adjective_ix_spec() -> Seq<TemplateM> {
    seq![
        tm(PRESENT, 0, 2, seq!['い', 'い']),
        tm(PRESENT, POLITE, 2, seq!['い', 'い', 'で', 'す']),
        tm(PAST, 0, 2, seq!['よ', 'か', 'っ', 'た']),
        tm(PAST, POLITE, 2, seq!['よ', 'か', 'っ', 'た', 'で', 'す']),
        tm(NEGATIVE, 0, 2, seq!['よ', 'く', 'な', 'い']),
        tm(NEGATIVE, POLITE, 2, seq!['よ', 'く', 'な', 'い', 'で', 'す']),
        tm(NEGATIVE | PAST, 0, 2, seq!['よ', 'く', 'な', 'か', 'っ', 'た']),
        tm(TE, 0, 2, seq!['よ', 'く', 'て']),
        tm(HYPOTHETICAL, 0, 2, seq!['よ', 'け', 'れ', 'ば']),
        tm(CONDITIONAL, 0, 2, seq!['よ', 'か', 'っ', 'た', 'ら']),
    ]
}

/// The yoi / ii adjective class: inflected forms build on the よ stem.
#[verifier::rlimit(100)]
fn adjective_ix() -> (r: Vec<Template>)
    ensures
        templates_model(r@) == adjective_ix_spec(),
{
    let mut v: Vec<Template> = Vec::new();
    proof {
        assert(templates_model(v@) =~= Seq::<TemplateM>::empty());
    }
    row(&mut v, PRESENT, 0, 2, s2('い', 'い'));
    row(&mut v, PRESENT, POLITE, 2, s4('い', 'い', 'で', 'す'));
    row(&mut v, PAST, 0, 2, s4('よ', 'か', 'っ', 'た'));
    row(&mut v, PAST, POLITE, 2, s6('よ', 'か', 'っ', 'た', 'で', 'す'));
    row(&mut v, NEGATIVE, 0, 2, s4('よ', 'く', 'な', 'い'));
    row(&mut v, NEGATIVE, POLITE, 2, s6('よ', 'く', 'な', 'い', 'で', 'す'));
    row(&mut v, NEGATIVE | PAST, 0, 2, s6('よ', 'く', 'な', 'か', 'っ', 'た'));
    row(&mut v, TE, 0, 2, s3('よ', 'く', 'て'));
    row(&mut v, HYPOTHETICAL, 0, 2, s4('よ', 'け', 'れ', 'ば'));
    row(&mut v, CONDITIONAL, 0, 2, s5('よ', 'か', 'っ', 'た', 'ら'));
    assert(templates_model(v@) =~= adjective_ix_spec());
    v
}

/// The archaic ku adjective class.
pub open spec fn adjective_ku_spec() -> Seq<TemplateM> {
    seq![
        tm(PRESENT, 0, 1, seq!['し']),
        tm(TE, 0, 1, seq!['く']),
        tm(NEGATIVE, 0, 1, seq!['か', 'ら', 'ず']),
    ]
}

/// The archaic ku adjective class.
#[verifier::rlimit(100)]
fn adjective_ku() -> (r: Vec<Template>)
    ensures
        templates_model(r@) == adjective_ku_spec(),
{
    let mut v: Vec<Template> = Vec::new();
    proof {
        assert(templates_model(v@) =~= Seq::<TemplateM>::empty());
    }
    row(&mut v, PRESENT, 0, 1, s1('し'));
    row(&mut v, TE, 0, 1, s1('く'));
    row(&mut v, NEGATIVE, 0, 1, s3('か', 'ら', 'ず'));
    assert(templates_model(v@) =~= adjective_ku_spec());
    v
}

/// The archaic shiku adjective class.
pub open spec fn adjective_shiku_spec() -> Seq<TemplateM> {
    seq![
        tm(PRESENT, 0, 1, seq!['し']),
        tm(TE, 0, 1, seq!['し', 'く']),
        tm(NEGATIVE, 0, 1, seq!['し', 'か', 'ら', 'ず']),
    ]
}

/// The archaic shiku adjective class.
#[verifier::rlimit(100)]
fn adjective_shiku() -> (r: Vec<Template>)
    ensures
        templates_model(r@) == adjective_shiku_spec(),
{
    let mut v: Vec<Template> = Vec::new();
    proof {
        assert(templates_model(v@) =~= Seq::<TemplateM>::empty());
    }
    row(&mut v, PRESENT, 0, 1, s1('し'));
    row(&mut v, TE, 0, 1, s2('し', 'く'));
    row(&mut v, NEGATIVE, 0, 1, s4('し', 'か', 'ら', 'ず'));
    assert(templates_model(v@) =~= adjective_shiku_spec());
    v
}

/// A shared archaic yodan table over one consonant row.
pub open spec fn yodan_spec(a: char, i: char, u: char, e: char) -> Seq<TemplateM> {
    seq![
        tm(PRESENT, 0, 1, seq![u]),
        tm(NEGATIVE, 0, 1, seq![a, 'ず']),
        tm(PAST, 0, 1, seq![i, 'た', 'り']),
        tm(TE, 0, 1, seq![i, 'て']),
        tm(COMMAND, 0, 1, seq![e]),
        tm(HYPOTHETICAL, 0, 1, seq![e, 'ば']),
    ]
}

/// A shared archaic yodan table over one consonant row.
#[verifier::rlimit(100)]
fn yodan(a: char, i: char, u: char, e: char) -> (r: Vec<Template>)
    ensures
        templates_model(r@) == yodan_spec(a, i, u, e),
{
    let mut v: Vec<Template> = Vec::new();
    proof {
        assert(templates_model(v@) =~= Seq::<TemplateM>::empty());
    }
    row(&mut v, PRESENT, 0, 1, s1(u));
    row(&mut v, NEGATIVE, 0, 1, s2(a, 'ず'));
    row(&mut v, PAST, 0, 1, s3(i, 'た', 'り'));
    row(&mut v, TE, 0, 1, s2(i, 'て'));
    row(&mut v, COMMAND, 0, 1, s1(e));
    row(&mut v, HYPOTHETICAL, 0, 1, s2(e, 'ば'));
    assert(templates_model(v@) =~= yodan_spec(a, i, u, e));
    v
}

/// A shared archaic nidan table: the stem vowel is the い row for the
/// upper class and the え row for the lower class.
pub open spec fn nidan_spec(u: char, x: char) -> Seq<TemplateM> {
    seq![
        tm(PRESENT, 0, 1, seq![u]),
        tm(NEGATIVE, 0, 1, seq![x, 'ず']),
        tm(PAST, 0, 1, seq![x, 'た', 'り']),
        tm(TE, 0, 1, seq![x, 'て']),
        tm(COMMAND, 0, 1, seq![x, 'よ']),
        tm(HYPOTHETICAL, 0, 1, seq![u, 'れ', 'ば']),
    ]
}

/// A shared archaic nidan table: the stem vowel is the い row for the
/// upper class and the え row for the lower class.
#[verifier::rlimit(100)]
fn nidan(u: char, x: char) -> (r: Vec<Template>)
    ensures
        templates_model(r@) == nidan_spec(u, x),
{
    let mut v: Vec<Template> = Vec::new();
    proof {
        assert(templates_model(v@) =~= Seq::<TemplateM>::empty());
    }
    row(&mut v, PRESENT, 0, 1, s1(u));
    row(&mut v, NEGATIVE, 0, 1, s2(x, 'ず'));
    row(&mut v, PAST, 0, 1, s3(x, 'た', 'り'));
    row(&mut v, TE, 0, 1, s2(x, 'て'));
    row(&mut v, COMMAND, 0, 1, s2(x, 'よ'));
    row(&mut v, HYPOTHETICAL, 0, 1, s3(u, 'れ', 'ば'));
    assert(templates_model(v@) =~= nidan_spec(u, x));
    v
}

/// The class table of one morphological class, at the specification
/// level: the linguistic reference that the executable tables are held to.
/// A class that is not conjugated (nouns, particles, the unmodelled archaic
/// adjective classes) owns the empty table: the absence of a template is
/// the normal representation of "this inflection does not exist".
pub open spec fn class_table_spec(pos: PartOfSpeech) -> Seq<TemplateM> {
    match pos {
        PartOfSpeech::VerbGodanB => godan_spec('ば', 'び', 'ぶ', 'べ', 'ぼ', seq!['ん', 'で'], seq!['ん', 'だ']),
        PartOfSpeech::VerbGodanG => godan_spec('が', 'ぎ', 'ぐ', 'げ', 'ご', seq!['い', 'で'], seq!['い', 'だ']),
        PartOfSpeech::VerbGodanK => godan_spec('か', 'き', 'く', 'け', 'こ', seq!['い', 'て'], seq!['い', 'た']),
        PartOfSpeech::VerbGodanKS => godan_spec('か', 'き', 'く', 'け', 'こ', seq!['っ', 'て'], seq!['っ', 'た']),
        PartOfSpeech::VerbGodanM => godan_spec('ま', 'み', 'む', 'め', 'も', seq!['ん', 'で'], seq!['ん', 'だ']),
        PartOfSpeech::VerbGodanN => godan_spec('な', 'に', 'ぬ', 'ね', 'の', seq!['ん', 'で'], seq!['ん', 'だ']),
        PartOfSpeech::VerbNu => godan_spec('な', 'に', 'ぬ', 'ね', 'の', seq!['ん', 'で'], seq!['ん', 'だ']),
        PartOfSpeech::VerbGodanR => godan_spec('ら', 'り', 'る', 'れ', 'ろ', seq!['っ', 'て'], seq!['っ', 'た']),
        PartOfSpeech::VerbGodanS => godan_spec('さ', 'し', 'す', 'せ', 'そ', seq!['し', 'て'], seq!['し', 'た']),
        PartOfSpeech::VerbSuC => godan_spec('さ', 'し', 'す', 'せ', 'そ', seq!['し', 'て'], seq!['し', 'た']),
        PartOfSpeech::VerbGodanT => godan_spec('た', 'ち', 'つ', 'て', 'と', seq!['っ', 'て'], seq!['っ', 'た']),
        PartOfSpeech::VerbGodanU => godan_spec('わ', 'い', 'う', 'え', 'お', seq!['っ', 'て'], seq!['っ', 'た']),
        PartOfSpeech::VerbGodanUS => godan_spec('わ', 'い', 'う', 'え', 'お', seq!['う', 'て'], seq!['う', 'た']),
        PartOfSpeech::VerbYodanB => yodan_spec('ば', 'び', 'ぶ', 'べ'),
        PartOfSpeech::VerbYodanG => yodan_spec('が', 'ぎ', 'ぐ', 'げ'),
        PartOfSpeech::VerbYodanH => yodan_spec('は', 'ひ', 'ふ', 'へ'),
        PartOfSpeech::VerbYodanK => yodan_spec('か', 'き', 'く', 'け'),
        PartOfSpeech::VerbYodanM => yodan_spec('ま', 'み', 'む', 'め'),
        PartOfSpeech::VerbYodanN => yodan_spec('な', 'に', 'ぬ', 'ね'),
        PartOfSpeech::VerbYodanR => yodan_spec('ら', 'り', 'る', 'れ'),
        PartOfSpeech::VerbYodanS => yodan_spec('さ', 'し', 'す', 'せ'),
        PartOfSpeech::VerbYodanT => yodan_spec('た', 'ち', 'つ', 'て'),
        PartOfSpeech::VerbNidanAS => nidan_spec('う', 'え'),
        PartOfSpeech::VerbNidanBK => nidan_spec('ぶ', 'び'),
        PartOfSpeech::VerbNidanBS => nidan_spec('ぶ', 'べ'),
        PartOfSpeech::VerbNidanDK => nidan_spec('づ', 'ぢ'),
        PartOfSpeech::VerbNidanDS => nidan_spec('づ', 'で'),
        PartOfSpeech::VerbNidanGK => nidan_spec('ぐ', 'ぎ'),
        PartOfSpeech::VerbNidanGS => nidan_spec('ぐ', 'げ'),
        PartOfSpeech::VerbNidanHK => nidan_spec('ふ', 'ひ'),
        PartOfSpeech::VerbNidanHS => nidan_spec('ふ', 'へ'),
        PartOfSpeech::VerbNidanKK => nidan_spec('く', 'き'),
        PartOfSpeech::VerbNidanKS => nidan_spec('く', 'け'),
        PartOfSpeech::VerbNidanMK => nidan_spec('む', 'み'),
        PartOfSpeech::VerbNidanMS => nidan_spec('む', 'め'),
        PartOfSpeech::VerbNidanNS => nidan_spec('ぬ', 'ね'),
        PartOfSpeech::VerbNidanRK => nidan_spec('る', 'り'),
        PartOfSpeech::VerbNidanRS => nidan_spec('る', 'れ'),
        PartOfSpeech::VerbNidanSS => nidan_spec('す', 'せ'),
        PartOfSpeech::VerbNidanTK => nidan_spec('つ', 'ち'),
        PartOfSpeech::VerbNidanTS => nidan_spec('つ', 'て'),
        PartOfSpeech::VerbNidanWS => nidan_spec('う', 'ゑ'),
        PartOfSpeech::VerbNidanYK => nidan_spec('ゆ', 'い'),
        PartOfSpeech::VerbNidanYS => nidan_spec('ゆ', 'え'),
        PartOfSpeech::VerbNidanZS => nidan_spec('ず', 'ぜ'),
        PartOfSpeech::VerbGodanRI => aru_irregular_spec(),
        PartOfSpeech::VerbGodanAru => aru_special_spec(),
        PartOfSpeech::VerbGodanUru => ichidan_spec(),
        PartOfSpeech::VerbIchidan => ichidan_spec(),
        PartOfSpeech::VerbZuru => zuru_spec(),
        PartOfSpeech::VerbIchidanS => kureru_spec(),
        PartOfSpeech::VerbKuru => kuru_spec(),
        PartOfSpeech::VerbSuru => suru_spec(seq!['で', 'き', 'る']),
        PartOfSpeech::VerbSuruIncluded => suru_spec(seq!['で', 'き', 'る']),
        PartOfSpeech::VerbSuruSpecial => suru_spec(seq!['せ', 'る']),
        PartOfSpeech::VerbRu => ri_irregular_spec(),
        PartOfSpeech::AdjectiveI => adjective_i_spec(),
        PartOfSpeech::AdjectiveIx => adjective_ix_spec(),
        PartOfSpeech::AdjectiveKu => adjective_ku_spec(),
        PartOfSpeech::AdjectiveShiku => adjective_shiku_spec(),
        _ => Seq::<TemplateM>::empty(),
    }
}

/// The class table of one morphological class.
pub fn class_templates(pos: PartOfSpeech) -> (r: Vec<Template>)
    ensures
        templates_model(r@) == class_table_spec(pos),
{
    let r = match pos {
        PartOfSpeech::VerbGodanB => godan('ば', 'び', 'ぶ', 'べ', 'ぼ', s2('ん', 'で'), s2('ん', 'だ')),
        PartOfSpeech::VerbGodanG => godan('が', 'ぎ', 'ぐ', 'げ', 'ご', s2('い', 'で'), s2('い', 'だ')),
        PartOfSpeech::VerbGodanK => godan('か', 'き', 'く', 'け', 'こ', s2('い', 'て'), s2('い', 'た')),
        PartOfSpeech::VerbGodanKS => godan('か', 'き', 'く', 'け', 'こ', s2('っ', 'て'), s2('っ', 'た')),
        PartOfSpeech::VerbGodanM => godan('ま', 'み', 'む', 'め', 'も', s2('ん', 'で'), s2('ん', 'だ')),
        PartOfSpeech::VerbGodanN => godan('な', 'に', 'ぬ', 'ね', 'の', s2('ん', 'で'), s2('ん', 'だ')),
        PartOfSpeech::VerbNu => godan('な', 'に', 'ぬ', 'ね', 'の', s2('ん', 'で'), s2('ん', 'だ')),
        PartOfSpeech::VerbGodanR => godan('ら', 'り', 'る', 'れ', 'ろ', s2('っ', 'て'), s2('っ', 'た')),
        PartOfSpeech::VerbGodanS => godan('さ', 'し', 'す', 'せ', 'そ', s2('し', 'て'), s2('し', 'た')),
        PartOfSpeech::VerbSuC => godan('さ', 'し', 'す', 'せ', 'そ', s2('し', 'て'), s2('し', 'た')),
        PartOfSpeech::VerbGodanT => godan('た', 'ち', 'つ', 'て', 'と', s2('っ', 'て'), s2('っ', 'た')),
        PartOfSpeech::VerbGodanU => godan('わ', 'い', 'う', 'え', 'お', s2('っ', 'て'), s2('っ', 'た')),
        PartOfSpeech::VerbGodanUS => godan('わ', 'い', 'う', 'え', 'お', s2('う', 'て'), s2('う', 'た')),
        PartOfSpeech::VerbYodanB => yodan('ば', 'び', 'ぶ', 'べ'),
        PartOfSpeech::VerbYodanG => yodan('が', 'ぎ', 'ぐ', 'げ'),
        PartOfSpeech::VerbYodanH => yodan('は', 'ひ', 'ふ', 'へ'),
        PartOfSpeech::VerbYodanK => yodan('か', 'き', 'く', 'け'),
        PartOfSpeech::VerbYodanM => yodan('ま', 'み', 'む', 'め'),
        PartOfSpeech::VerbYodanN => yodan('な', 'に', 'ぬ', 'ね'),
        PartOfSpeech::VerbYodanR => yodan('ら', 'り', 'る', 'れ'),
        PartOfSpeech::VerbYodanS => yodan('さ', 'し', 'す', 'せ'),
        PartOfSpeech::VerbYodanT => yodan('た', 'ち', 'つ', 'て'),
        PartOfSpeech::VerbNidanAS => nidan('う', 'え'),
        PartOfSpeech::VerbNidanBK => nidan('ぶ', 'び'),
        PartOfSpeech::VerbNidanBS => nidan('ぶ', 'べ'),
        PartOfSpeech::VerbNidanDK => nidan('づ', 'ぢ'),
        PartOfSpeech::VerbNidanDS => nidan('づ', 'で'),
        PartOfSpeech::VerbNidanGK => nidan('ぐ', 'ぎ'),
        PartOfSpeech::VerbNidanGS => nidan('ぐ', 'げ'),
        PartOfSpeech::VerbNidanHK => nidan('ふ', 'ひ'),
        PartOfSpeech::VerbNidanHS => nidan('ふ', 'へ'),
        PartOfSpeech::VerbNidanKK => nidan('く', 'き'),
        PartOfSpeech::VerbNidanKS => nidan('く', 'け'),
        PartOfSpeech::VerbNidanMK => nidan('む', 'み'),
        PartOfSpeech::VerbNidanMS => nidan('む', 'め'),
        PartOfSpeech::VerbNidanNS => nidan('ぬ', 'ね'),
        PartOfSpeech::VerbNidanRK => nidan('る', 'り'),
        PartOfSpeech::VerbNidanRS => nidan('る', 'れ'),
        PartOfSpeech::VerbNidanSS => nidan('す', 'せ'),
        PartOfSpeech::VerbNidanTK => nidan('つ', 'ち'),
        PartOfSpeech::VerbNidanTS => nidan('つ', 'て'),
        PartOfSpeech::VerbNidanWS => nidan('う', 'ゑ'),
        PartOfSpeech::VerbNidanYK => nidan('ゆ', 'い'),
        PartOfSpeech::VerbNidanYS => nidan('ゆ', 'え'),
        PartOfSpeech::VerbNidanZS => nidan('ず', 'ぜ'),
        PartOfSpeech::VerbGodanRI => aru_irregular(),
        PartOfSpeech::VerbGodanAru => aru_special(),
        PartOfSpeech::VerbGodanUru => ichidan(),
        PartOfSpeech::VerbIchidan => ichidan(),
        PartOfSpeech::VerbZuru => zuru(),
        PartOfSpeech::VerbIchidanS => kureru(),
        PartOfSpeech::VerbKuru => kuru(),
        PartOfSpeech::VerbSuru => suru(s3('で', 'き', 'る')),
        PartOfSpeech::VerbSuruIncluded => suru(s3('で', 'き', 'る')),
        PartOfSpeech::VerbSuruSpecial => suru(s2('せ', 'る')),
        PartOfSpeech::VerbRu => ri_irregular(),
        PartOfSpeech::AdjectiveI => adjective_i(),
        PartOfSpeech::AdjectiveIx => adjective_ix(),
        PartOfSpeech::AdjectiveKu => adjective_ku(),
        PartOfSpeech::AdjectiveShiku => adjective_shiku(),
        _ => Vec::new(),
    };
    proof {
        if templates_model(r@).len() == 0 {
            assert(templates_model(r@) =~= Seq::<TemplateM>::empty());
        }
    }
    r
}

/// True when the class owns a non-empty table.
pub fn conjugable(pos: PartOfSpeech) -> (r: bool)
    ensures
        r == (class_table_spec(pos).len() > 0),
{
    !class_templates(pos).is_empty()
}

} // verus!

