//! The conjugation engine.
//!
//! A dictionary headword of a verb or adjective class expands into a full
//! paradigm of inflected surface forms. Each class owns a static table of
//! templates; applying a template strips a declared number of trailing
//! characters from the headword's written and reading tracks and appends a
//! fixed suffix to each, yielding one [`Pair`]. A [`Conjugations`] collection
//! maps each conjugation key to at most one pair, in canonical order.

use vstd::prelude::*;

use crate::sets::Bits;
use crate::text::{chars_concat, chars_take};

verus! {

/// A grammatical form of an inflected word.
#[derive(Clone, Copy, Debug, PartialEq, Eq, Structural)]
pub enum Form {
    Te,
    Present,
    Negative,
    Past,
    Command,
    Hypothetical,
    Conditional,
    Passive,
    Potential,
    /// Volitional / presumptive.
    Volitional,
    Causative,
    Tai,
}

/// An orthogonal register modifier of an inflected form.
#[derive(Clone, Copy, Debug, PartialEq, Eq, Structural)]
pub enum Flag {
    Polite,
    Alternate,
    Conversation,
}

impl Form {
    /// The stable bit index of this form.
    pub open spec fn idx(self) -> u8 {
        match self {
            Form::Te => 0,
            Form::Present => 1,
            Form::Negative => 2,
            Form::Past => 3,
            Form::Command => 4,
            Form::Hypothetical => 5,
            Form::Conditional => 6,
            Form::Passive => 7,
            Form::Potential => 8,
            Form::Volitional => 9,
            Form::Causative => 10,
            Form::Tai => 11,
        }
    }

    /// The stable bit index of this form.
    pub fn index(self) -> (r: u8)
        ensures
            r == self.idx(),
            r < 12,
    {
        match self {
            Form::Te => 0,
            Form::Present => 1,
            Form::Negative => 2,
            Form::Past => 3,
            Form::Command => 4,
            Form::Hypothetical => 5,
            Form::Conditional => 6,
            Form::Passive => 7,
            Form::Potential => 8,
            Form::Volitional => 9,
            Form::Causative => 10,
            Form::Tai => 11,
        }
    }
}

impl Flag {
    /// The stable bit index of this flag.
    pub open spec fn idx(self) -> u8 {
        match self {
            Flag::Polite => 0,
            Flag::Alternate => 1,
            Flag::Conversation => 2,
        }
    }

    /// The stable bit index of this flag.
    pub fn index(self) -> (r: u8)
        ensures
            r == self.idx(),
            r < 3,
    {
        match self {
            Flag::Polite => 0,
            Flag::Alternate => 1,
            Flag::Conversation => 2,
        }
    }
}

/// A conjugation key: a duplicate-free set of forms paired with a
/// duplicate-free set of flags. Equality is set equality; the canonical
/// order is lexicographic over each set's bit word.
#[derive(Clone, Copy, Debug, PartialEq, Eq, Structural)]
pub struct Conjugation {
    pub form: Bits,
    pub flag: Bits,
}

impl Conjugation {
    /// Construct a conjugation key from a form set and a flag set.
    pub fn new(form: Bits, flag: Bits) -> (r: Conjugation)
        ensures
            r.form == form,
            r.flag == flag,
    {
        Conjugation { form, flag }
    }

    /// True when the flag set contains [`Flag::Polite`].
    pub open spec fn is_polite(self) -> bool {
        self.flag.has(Flag::Polite.idx() as int)
    }
}

/// The canonical strict order on conjugation keys.
pub open spec fn conj_lt(a: Conjugation, b: Conjugation) -> bool {
    a.form.bits < b.form.bits || (a.form.bits == b.form.bits && a.flag.bits < b.flag.bits)
}

/// Three-way comparison deciding [`conj_lt`] and equality.
pub fn conj_cmp(a: &Conjugation, b: &Conjugation) -> (r: i32)
    ensures
        r == -1 ==> conj_lt(*a, *b),
        r == 1 ==> conj_lt(*b, *a),
        r == 0 ==> *a == *b,
        r == -1 || r == 0 || r == 1,
{
    if a.form.bits < b.form.bits {
        -1
    } else if b.form.bits < a.form.bits {
        1
    } else if a.flag.bits < b.flag.bits {
        -1
    } else if b.flag.bits < a.flag.bits {
        1
    } else {
        0
    }
}

/// A headword: its written text and its kana reading.
#[derive(Clone, Debug)]
pub struct Word {
    pub text: Vec<char>,
    pub reading: Vec<char>,
}

/// A transformation rule applied to one headword: on each track, a common
/// stem followed by the class-varying suffix.
#[derive(Clone, Debug)]
pub struct Pair {
    pub text_stem: Vec<char>,
    pub text_suffix: Vec<char>,
    pub reading_stem: Vec<char>,
    pub reading_suffix: Vec<char>,
}

impl Pair {
    /// The full written surface form.
    pub fn text(&self) -> (r: Vec<char>)
        ensures
            r@ == self.text_stem@ + self.text_suffix@,
    {
        chars_concat(&self.text_stem, &self.text_suffix)
    }

    /// The full reading surface form.
    pub fn reading(&self) -> (r: Vec<char>)
        ensures
            r@ == self.reading_stem@ + self.reading_suffix@,
    {
        chars_concat(&self.reading_stem, &self.reading_suffix)
    }

    /// Both expanded surface forms as a word.
    pub fn word(&self) -> (r: Word)
        ensures
            r.text@ == self.text_stem@ + self.text_suffix@,
            r.reading@ == self.reading_stem@ + self.reading_suffix@,
    {
        Word { text: self.text(), reading: self.reading() }
    }
}

/// One class-table row: a conjugation key, the number of trailing characters
/// to strip from each track of the headword, and the suffix appended to each.
#[derive(Clone, Debug)]
pub struct Template {
    pub conjugation: Conjugation,
    pub strip_text: usize,
    pub suffix_text: Vec<char>,
    pub strip_reading: usize,
    pub suffix_reading: Vec<char>,
}

/// The abstract value of one class-table row, with each suffix seen as a
/// sequence.
pub struct TemplateM {
    pub conjugation: Conjugation,
    pub strip_text: usize,
    pub suffix_text: Seq<char>,
    pub strip_reading: usize,
    pub suffix_reading: Seq<char>,
}

/// The abstract value of one class-table row.
pub open spec fn template_model(t: Template) -> TemplateM {
    TemplateM {
        conjugation: t.conjugation,
        strip_text: t.strip_text,
        suffix_text: t.suffix_text@,
        strip_reading: t.strip_reading,
        suffix_reading: t.suffix_reading@,
    }
}

/// The template fits the headword: both tracks are at least as long as the
/// declared stem-strip counts.
pub open spec fn template_applies(t: Template, w: Word) -> bool {
    t.strip_text <= w.text@.len() && t.strip_reading <= w.reading@.len()
}

/// The pair produced by one template on one headword: each track keeps the
/// headword with the declared count of trailing characters stripped, and
/// carries the template's suffix.
pub open spec fn pair_of_template(t: Template, w: Word, p: Pair) -> bool {
    &&& p.text_stem@ == w.text@.take(w.text@.len() - t.strip_text)
    &&& p.text_suffix@ == t.suffix_text@
    &&& p.reading_stem@ == w.reading@.take(w.reading@.len() - t.strip_reading)
    &&& p.reading_suffix@ == t.suffix_reading@
}

/// Template `m` is the first applicable template of `ts` that declares the
/// conjugation key `c`: any earlier template with that key does not fit the
/// headword.
pub open spec fn first_template_for(ts: Seq<Template>, d: Word, c: Conjugation, m: int) -> bool {
    &&& 0 <= m < ts.len()
    &&& ts[m].conjugation == c
    &&& template_applies(ts[m], d)
    &&& forall|m2: int|
        0 <= m2 < m && (#[trigger] ts[m2]).conjugation == c ==> !template_applies(ts[m2], d)
}

/// Entry `e` is what the first applicable template of `ts` declaring its
/// key produces on the headword `d`: when two templates declare the same
/// key, the first wins.
pub open spec fn entry_from_templates(ts: Seq<Template>, d: Word, e: (Conjugation, Pair)) -> bool {
    exists|m: int| #[trigger] first_template_for(ts, d, e.0, m) && pair_of_template(ts[m], d, e.1)
}

/// Apply one class-table template to a headword. Returns `None` exactly when
/// the headword is shorter than the declared stem-strip count: the form does
/// not exist for that word, which is not an error.
pub fn apply_template(w: &Word, t: &Template) -> (r: Option<Pair>)
    ensures
        r is Some <==> template_applies(*t, *w),
        r matches Some(p) ==> pair_of_template(*t, *w, p),
{
    if t.strip_text > w.text.len() || t.strip_reading > w.reading.len() {
        return None;
    }
    let text_stem = chars_take(&w.text, w.text.len() - t.strip_text);
    let reading_stem = chars_take(&w.reading, w.reading.len() - t.strip_reading);
    Some(
        Pair {
            text_stem,
            text_suffix: t.suffix_text.clone(),
            reading_stem,
            reading_suffix: t.suffix_reading.clone(),
        },
    )
}

/// A collection of conjugations: one headword plus an ordered mapping from
/// conjugation key to pair, with at most one pair per key.
#[derive(Clone, Debug)]
pub struct Conjugations {
    pub dictionary: Word,
    pub conjugations: Vec<(Conjugation, Pair)>,
}

impl Conjugations {
    /// The mapping is strictly sorted in the canonical key order, so every
    /// key owns at most one pair.
    pub open spec fn wf(self) -> bool {
        forall|i: int, j: int|
            0 <= i < j < self.conjugations@.len() ==> conj_lt(
                #[trigger] self.conjugations@[i].0,
                #[trigger] self.conjugations@[j].0,
            )
    }

    /// The mapping has an entry for key `c`.
    pub open spec fn contains_key(self, c: Conjugation) -> bool {
        exists|i: int| 0 <= i < self.conjugations@.len() && self.conjugations@[i].0 == c
    }

    /// Some key of the mapping carries the polite flag.
    pub open spec fn any_polite(self) -> bool {
        exists|i: int|
            0 <= i < self.conjugations@.len() && (#[trigger] self.conjugations@[i].0).is_polite()
    }

    /// Test if any polite conjugations exist.
    pub fn has_polite(&self) -> (r: bool)
        ensures
            r == self.any_polite(),
    {
        let mut i: usize = 0;
        while i < self.conjugations.len()
            invariant
                i <= self.conjugations@.len(),
                forall|j: int|
                    0 <= j < i ==> !(#[trigger] self.conjugations@[j].0).is_polite(),
            decreases self.conjugations@.len() - i,
        {
            let c = &self.conjugations[i].0;
            if c.flag.contains(0) {
                assert(self.conjugations@[i as int].0.is_polite());
                return true;
            }
            i += 1;
        }
        false
    }

    /// Get the pair for a conjugation key, if the class table had one.
    pub fn get(&self, conjugation: Conjugation) -> (r: Option<&Pair>)
        requires
            self.wf(),
        ensures
            r matches Some(p) ==> exists|i: int|
                0 <= i < self.conjugations@.len() && self.conjugations@[i] == (conjugation, *p),
            r is None ==> !self.contains_key(conjugation),
    {
        let mut i: usize = 0;
        while i < self.conjugations.len()
            invariant
                i <= self.conjugations@.len(),
                forall|j: int| 0 <= j < i ==> self.conjugations@[j].0 != conjugation,
            decreases self.conjugations@.len() - i,
        {
            if conj_cmp(&self.conjugations[i].0, &conjugation) == 0 {
                return Some(&self.conjugations[i].1);
            }
            i += 1;
        }
        None
    }

    /// All conjugations with their expanded surface forms, in canonical
    /// order.
    pub fn iter(&self) -> (r: Vec<(Conjugation, Word)>)
        ensures
            r@.len() == self.conjugations@.len(),
            forall|i: int|
                0 <= i < r@.len() ==> {
                    let (c, p) = #[trigger] self.conjugations@[i];
                    &&& r@[i].0 == c
                    &&& r@[i].1.text@ == p.text_stem@ + p.text_suffix@
                    &&& r@[i].1.reading@ == p.reading_stem@ + p.reading_suffix@
                },
    {
        let mut r: Vec<(Conjugation, Word)> = Vec::new();
        let mut i: usize = 0;
        while i < self.conjugations.len()
            invariant
                i <= self.conjugations@.len(),
                r@.len() == i,
                forall|j: int|
                    0 <= j < i ==> {
                        let (c, p) = #[trigger] self.conjugations@[j];
                        &&& r@[j].0 == c
                        &&& r@[j].1.text@ == p.text_stem@ + p.text_suffix@
                        &&& r@[j].1.reading@ == p.reading_stem@ + p.reading_suffix@
                    },
            decreases self.conjugations@.len() - i,
        {
            let entry = &self.conjugations[i];
            r.push((entry.0, entry.1.word()));
            i += 1;
        }
        r
    }

    /// Build the paradigm of one headword from a class table.
    ///
    /// Every entry of the result is some applicable template applied to the
    /// headword, and every applicable template's key is present; when two
    /// templates declare the same key, the first wins.
    pub fn build(dictionary: Word, templates: &Vec<Template>) -> (r: Conjugations)
        ensures
            r.wf(),
            r.dictionary == dictionary,
            forall|i: int|
                0 <= i < r.conjugations@.len() ==> entry_from_templates(
                    templates@,
                    dictionary,
                    #[trigger] r.conjugations@[i],
                ),
            forall|k: int|
                0 <= k < templates@.len() && template_applies(#[trigger] templates@[k], dictionary)
                    ==> r.contains_key(templates@[k].conjugation),
    {
        let ghost dict = dictionary;
        let mut r = Conjugations { dictionary, conjugations: Vec::new() };
        let mut k: usize = 0;
        while k < templates.len()
            invariant
                k <= templates@.len(),
                r.wf(),
                r.dictionary == dict,
                forall|i: int|
                    0 <= i < r.conjugations@.len() ==> entry_from_templates(
                        templates@,
                        dict,
                        #[trigger] r.conjugations@[i],
                    ),
                forall|m: int|
                    0 <= m < k && template_applies(#[trigger] templates@[m], dict)
                        ==> r.contains_key(templates@[m].conjugation),
            decreases templates@.len() - k,
        {
            let t = &templates[k];
            let ghost r0 = r;
            match apply_template(&r.dictionary, t) {
                None => {},
                Some(pair) => {
                    insert_pair(&mut r.conjugations, t.conjugation, pair);
                    proof {
                        let w = r.conjugations@;
                        let w0 = r0.conjugations@;
                        if w != w0 {
                            // the key was new, so template k is the first
                            // applicable one declaring it: an earlier
                            // applicable one would have put the key in
                            assert(first_template_for(templates@, dict, t.conjugation, k as int))
                                by {
                                assert forall|m2: int|
                                    0 <= m2 < k && (#[trigger] templates@[m2]).conjugation
                                        == t.conjugation implies !template_applies(
                                    templates@[m2],
                                    dict,
                                ) by {
                                    if template_applies(templates@[m2], dict) {
                                        assert(r0.contains_key(templates@[m2].conjugation));
                                    }
                                }
                            }
                            assert(entry_from_templates(
                                templates@,
                                dict,
                                (t.conjugation, pair),
                            )) by {
                                assert(pair_of_template(templates@[k as int], dict, pair));
                            }
                            let n = choose|n: int|
                                0 <= n <= w0.len() && w == w0.insert(n, (t.conjugation, pair));
                            assert forall|i: int|
                                0 <= i < w.len() implies entry_from_templates(
                                templates@,
                                dict,
                                #[trigger] w[i],
                            ) by {
                                if i < n {
                                    assert(w[i] == w0[i]);
                                } else if i == n {
                                    assert(w[i] == (t.conjugation, pair));
                                } else {
                                    assert(w[i] == w0[i - 1]);
                                }
                            }
                            assert forall|m: int|
                                0 <= m < k + 1 && template_applies(#[trigger] templates@[m], dict)
                                    implies r.contains_key(templates@[m].conjugation) by {
                                if m < k {
                                    let j = choose|j: int|
                                        0 <= j < w0.len() && w0[j].0 == templates@[m].conjugation;
                                    if j < n {
                                        assert(w[j] == w0[j]);
                                    } else {
                                        assert(w[j + 1] == w0[j]);
                                    }
                                }
                            }
                        }
                    }
                },
            }
            k += 1;
        }
        r
    }
}

/// Locate a conjugation key in a strictly sorted mapping: the key's own
/// position when present, else the position where it belongs.
fn find_slot(v: &Vec<(Conjugation, Pair)>, c: &Conjugation) -> (r: (usize, bool))
    requires
        forall|i: int, j: int|
            0 <= i < j < v@.len() ==> conj_lt(#[trigger] v@[i].0, #[trigger] v@[j].0),
    ensures
        r.1 ==> r.0 < v@.len() && v@[r.0 as int].0 == *c,
        !r.1 ==> {
            &&& r.0 <= v@.len()
            &&& forall|i: int| 0 <= i < r.0 ==> conj_lt(#[trigger] v@[i].0, *c)
            &&& forall|i: int| r.0 <= i < v@.len() ==> conj_lt(*c, #[trigger] v@[i].0)
        },
{
    let mut lo: usize = 0;
    let mut stop = false;
    while lo < v.len() && !stop
        invariant
            lo <= v@.len(),
            forall|i: int, j: int|
                0 <= i < j < v@.len() ==> conj_lt(#[trigger] v@[i].0, #[trigger] v@[j].0),
            forall|i: int| 0 <= i < lo ==> conj_lt(#[trigger] v@[i].0, *c),
            stop ==> lo < v@.len() && conj_lt(*c, v@[lo as int].0),
        decreases v@.len() - lo + (if stop { 0int } else { 1int }),
    {
        let o = conj_cmp(&v[lo].0, c);
        if o == 0 {
            return (lo, true);
        }
        if o == 1 {
            stop = true;
        } else {
            assert(conj_lt(v@[lo as int].0, *c));
            lo += 1;
        }
    }
    proof {
        assert forall|i: int| lo <= i < v@.len() implies conj_lt(*c, #[trigger] v@[i].0) by {
            if i > lo {
                assert(conj_lt(v@[lo as int].0, v@[i].0));
            }
        }
    }
    (lo, false)
}

/// Insert one keyed pair into a strictly sorted mapping, keeping it sorted;
/// a key that is already present keeps its earlier pair.
fn insert_pair(v: &mut Vec<(Conjugation, Pair)>, c: Conjugation, p: Pair)
    requires
        forall|i: int, j: int|
            0 <= i < j < old(v)@.len() ==> conj_lt(
                #[trigger] old(v)@[i].0,
                #[trigger] old(v)@[j].0,
            ),
    ensures
        forall|i: int, j: int|
            0 <= i < j < final(v)@.len() ==> conj_lt(
                #[trigger] final(v)@[i].0,
                #[trigger] final(v)@[j].0,
            ),
        // either the key was present and nothing moved, or the key was new
        // and the pair sits at its slot with everything else in place
        final(v)@ == old(v)@ || ((forall|i: int|
            0 <= i < old(v)@.len() ==> (#[trigger] old(v)@[i]).0 != c) && exists|n: int|
            0 <= n <= old(v)@.len() && final(v)@ == old(v)@.insert(n, (c, p))),
        // the key is now present
        exists|i: int| 0 <= i < final(v)@.len() && final(v)@[i].0 == c,
{
    let ghost v0 = v@;
    let (lo, present) = find_slot(v, &c);
    if present {
        assert(v@[lo as int].0 == c);
        return;
    }
    proof {
        assert forall|i: int| 0 <= i < v0.len() implies (#[trigger] v0[i]).0 != c by {
            if i < lo {
                assert(conj_lt(v0[i].0, c));
            } else {
                assert(conj_lt(c, v0[i].0));
            }
        }
    }
    v.insert(lo, (c, p));
    proof {
        assert(v@ == v0.insert(lo as int, (c, p)));
        assert forall|i: int, j: int| 0 <= i < j < v@.len() implies conj_lt(
            #[trigger] v@[i].0,
            #[trigger] v@[j].0,
        ) by {
            if j < lo {
            } else if i < lo && j == lo {
            } else if i < lo && j > lo {
                assert(v@[i] == v0[i] && v@[j] == v0[j - 1]);
            } else if i == lo {
                assert(v@[j] == v0[j - 1]);
            } else {
                assert(v@[i] == v0[i - 1] && v@[j] == v0[j - 1]);
            }
        }
        assert(v@[lo as int] == (c, p));
    }
}

} // verus!
