//! The lexical record model: the decoded shape of one dictionary headword
//! and one kanji-character record, immutable after load.

use vstd::prelude::*;

use crate::entities::{KanjiInfo, ReadingInfo};
use crate::sets::Bits;

verus! {

/// A frequency-of-use priority marker: a list category and a rank in it.
#[derive(Clone, Copy, Debug, PartialEq, Eq, Structural)]
pub struct Priority {
    /// The marker's list: news, ichi, spec, gai or nf.
    pub category: u8,
    /// The rank inside the list.
    pub level: u8,
}

/// One reading element of a lexical entry: a kana rendering of the
/// headword.
#[derive(Clone, Debug)]
#[verifier::ext_equal]
pub struct ReadingElement {
    /// The reading text.
    pub text: Vec<char>,
    /// The reading does not truly apply to any kanji spelling.
    pub no_kanji: bool,
    /// The kanji spellings this reading is restricted to.
    pub reading_string: Vec<Vec<char>>,
    /// Priority markers.
    pub priority: Vec<Priority>,
    /// Annotations on the reading.
    pub info: Vec<ReadingInfo>,
}

impl ReadingElement {
    /// The sparse description: the reading text followed by one marker for
    /// each optional part that is set: `!` for the no-kanji flag, `~` for
    /// spelling restrictions, `*` for priority markers, `#` for
    /// annotations.
    pub open spec fn debug_sparse_spec(self) -> Seq<char> {
        self.text@ + (if self.no_kanji {
            seq!['!']
        } else {
            Seq::<char>::empty()
        }) + (if self.reading_string@.len() > 0 {
            seq!['~']
        } else {
            Seq::<char>::empty()
        }) + (if self.priority@.len() > 0 {
            seq!['*']
        } else {
            Seq::<char>::empty()
        }) + (if self.info@.len() > 0 {
            seq!['#']
        } else {
            Seq::<char>::empty()
        })
    }

    /// Describe the reading element while leaving out the parts which are
    /// not defined.
    pub fn debug_sparse(&self) -> (r: Vec<char>)
        ensures
            r@ == self.debug_sparse_spec(),
    {
        let mut r = self.text.clone();
        if self.no_kanji {
            r.push('!');
        }
        if self.reading_string.len() > 0 {
            r.push('~');
        }
        if self.priority.len() > 0 {
            r.push('*');
        }
        if self.info.len() > 0 {
            r.push('#');
        }
        assert(r@ =~= self.debug_sparse_spec());
        r
    }
}

/// Why a reading element could not be built.
#[derive(Clone, Copy, Debug, PartialEq, Eq, Structural)]
pub enum BuildError {
    /// The required reading text was never supplied.
    MissingText,
    /// The reading text was supplied twice.
    DuplicateText,
}

/// A finite-state accumulator for one reading element: events arrive one at
/// a time from a record source, and one terminal build step yields the
/// element or fails when the required text is absent.
#[derive(Clone, Debug)]
#[verifier::ext_equal]
pub struct Builder {
    pub text: Option<Vec<char>>,
    pub no_kanji: bool,
    pub reading_string: Vec<Vec<char>>,
    pub priority: Vec<Priority>,
    pub info: Vec<ReadingInfo>,
}

impl Builder {
    /// An accumulator with nothing seen yet.
    pub fn new() -> (r: Builder)
        ensures
            r.text is None,
            !r.no_kanji,
            r.reading_string@.len() == 0,
            r.priority@.len() == 0,
            r.info@.len() == 0,
    {
        Builder {
            text: None,
            no_kanji: false,
            reading_string: Vec::new(),
            priority: Vec::new(),
            info: Vec::new(),
        }
    }

    /// The reading text. At most one is allowed.
    pub fn text(&mut self, value: Vec<char>) -> (r: Result<(), BuildError>)
        ensures
            old(self).text is None ==> r is Ok && *final(self) == (Builder {
                text: Some(value),
                ..*old(self)
            }),
            old(self).text is Some ==> r == Result::<(), BuildError>::Err(
                BuildError::DuplicateText,
            ) && *final(self) == *old(self),
    {
        if self.text.is_some() {
            return Err(BuildError::DuplicateText);
        }
        self.text = Some(value);
        Ok(())
    }

    /// The no-kanji marker.
    pub fn no_kanji(&mut self)
        ensures
            *final(self) == (Builder { no_kanji: true, ..*old(self) }),
    {
        self.no_kanji = true;
    }

    /// One spelling restriction.
    pub fn reading_string(&mut self, value: Vec<char>)
        ensures
            final(self).reading_string@ == old(self).reading_string@.push(value),
            final(self).text == old(self).text,
            final(self).no_kanji == old(self).no_kanji,
            final(self).priority == old(self).priority,
            final(self).info == old(self).info,
    {
        self.reading_string.push(value);
    }

    /// One priority marker.
    pub fn priority(&mut self, value: Priority)
        ensures
            final(self).priority@ == old(self).priority@.push(value),
            final(self).text == old(self).text,
            final(self).no_kanji == old(self).no_kanji,
            final(self).reading_string == old(self).reading_string,
            final(self).info == old(self).info,
    {
        self.priority.push(value);
    }

    /// One reading annotation.
    pub fn info(&mut self, value: ReadingInfo)
        ensures
            final(self).info@ == old(self).info@.push(value),
            final(self).text == old(self).text,
            final(self).no_kanji == old(self).no_kanji,
            final(self).reading_string == old(self).reading_string,
            final(self).priority == old(self).priority,
    {
        self.info.push(value);
    }

    /// The terminal step: yield the accumulated element, failing exactly
    /// when the required text is absent. The three repeatable parts are
    /// drained; the text and the no-kanji marker stay for a further build.
    pub fn build(&mut self) -> (r: Result<ReadingElement, BuildError>)
        ensures
            old(self).text is None ==> r == Result::<ReadingElement, BuildError>::Err(
                BuildError::MissingText,
            ) && *final(self) == *old(self),
            old(self).text matches Some(t) ==> {
                &&& r matches Ok(e) && e.text@ == t@ && e.no_kanji == old(self).no_kanji
                    && e.reading_string == old(self).reading_string && e.priority == old(
                    self,
                ).priority && e.info == old(self).info
                &&& final(self).text == old(self).text
                &&& final(self).no_kanji == old(self).no_kanji
                &&& final(self).reading_string@ == Seq::<Vec<char>>::empty()
                &&& final(self).priority@ == Seq::<Priority>::empty()
                &&& final(self).info@ == Seq::<ReadingInfo>::empty()
            },
    {
        let text = match &self.text {
            None => {
                return Err(BuildError::MissingText);
            },
            Some(t) => crate::text::chars_copy(t),
        };
        let mut reading_string: Vec<Vec<char>> = Vec::new();
        core::mem::swap(&mut reading_string, &mut self.reading_string);
        let mut priority: Vec<Priority> = Vec::new();
        core::mem::swap(&mut priority, &mut self.priority);
        let mut info: Vec<ReadingInfo> = Vec::new();
        core::mem::swap(&mut info, &mut self.info);
        let e = ReadingElement { text, no_kanji: self.no_kanji, reading_string, priority, info };
        Ok(e)
    }
}

/// One kanji spelling element of a lexical entry.
#[derive(Clone, Debug)]
#[verifier::ext_equal]
pub struct KanjiElement {
    /// The written form.
    pub text: Vec<char>,
    /// Annotations on the spelling.
    pub info: Vec<KanjiInfo>,
    /// Priority markers.
    pub priority: Vec<Priority>,
}

/// One sense of a lexical entry: its glosses and annotation sets over the
/// entity tables.
#[derive(Clone, Debug)]
#[verifier::ext_equal]
pub struct Sense {
    /// English glosses.
    pub gloss: Vec<Vec<char>>,
    /// Part-of-speech set, indexed by `PartOfSpeech::idx`.
    pub pos: Bits,
    /// Miscellaneous-marker set, indexed by `Miscellaneous::idx`.
    pub misc: Bits,
    /// Dialect set, indexed by `Dialect::idx`.
    pub dialect: Bits,
    /// Field-of-use set, indexed by `Field::idx`.
    pub field: Bits,
}

/// One decoded dictionary headword: its kanji spellings, reading elements
/// and senses, under a stable numeric key.
#[derive(Clone, Debug)]
#[verifier::ext_equal]
pub struct LexicalEntry {
    /// The stable numeric key.
    pub key: u64,
    /// Kanji spelling elements.
    pub kanji: Vec<KanjiElement>,
    /// Reading elements.
    pub readings: Vec<ReadingElement>,
    /// Senses.
    pub senses: Vec<Sense>,
}

/// One kanji character record. Identity is the codepoint of the literal.
#[derive(Clone, Debug)]
#[verifier::ext_equal]
pub struct KanjiCharacter {
    /// The character itself.
    pub literal: char,
    /// Kana readings.
    pub readings: Vec<Vec<char>>,
    /// English meanings.
    pub meanings: Vec<Vec<char>>,
    /// Stroke count.
    pub stroke_count: u8,
    /// Classification code.
    pub classification: u8,
}

} // verus!
