//! Entity tables: fixed enumerations used to annotate lexical records.
//!
//! Each enumeration carries a stable short code and a bit-set-friendly
//! index; annotation sets such as a sense's part-of-speech set are
//! [`crate::sets::Bits`] words over these indices.

use vstd::prelude::*;

verus! {

/// Fixed annotation markers.
#[derive(Clone, Copy, Debug, PartialEq, Eq, Structural)]
pub enum Miscellaneous {
    /// abbr
    Abbreviation,
    /// arch
    Archaic,
    /// char
    Character,
    /// chn
    Children,
    /// col
    Colloquial,
    /// company
    Company,
    /// creat
    Creature,
    /// dated
    Dated,
    /// dei
    Deity,
    /// derog
    Derogatory,
    /// doc
    Document,
    /// euph
    Euphemistic,
    /// ev
    Event,
    /// fam
    Familiar,
    /// fem
    Feminine,
    /// fict
    Fict,
    /// form
    Form,
    /// given
    Given,
    /// group
    Group,
    /// hist
    Historical,
    /// hon
    Honorific,
    /// hum
    Humble,
    /// id
    Idiomatic,
    /// joc
    Jocular,
    /// leg
    Legend,
    /// m-sl
    MangaSlang,
    /// male
    Male,
    /// myth
    Mythology,
    /// net-sl
    NetSlang,
    /// obj
    Object,
    /// obs
    Obsolete,
    /// on-mim
    OnMim,
    /// organization
    Organization,
    /// oth
    Other,
    /// person
    Person,
    /// place
    Place,
    /// poet
    Poetic,
    /// pol
    Polite,
    /// product
    Product,
    /// proverb
    Proverb,
    /// quote
    Quote,
    /// rare
    Rare,
    /// relig
    Relig,
    /// sens
    Sens,
    /// serv
    Service,
    /// ship
    Ship,
    /// sl
    Slang,
    /// station
    Station,
    /// surname
    Surname,
    /// uk
    UsuallyKana,
    /// unclass
    Unclass,
    /// vulg
    Vulgar,
    /// work
    Work,
    /// X
    X,
    /// yoji
    Yojijukugo,
}

impl Miscellaneous {
    /// The stable bit index of this marker.
    pub open spec fn idx(self) -> u8 {
        match self {
            Miscellaneous::Abbreviation => 0,
            Miscellaneous::Archaic => 1,
            Miscellaneous::Character => 2,
            Miscellaneous::Children => 3,
            Miscellaneous::Colloquial => 4,
            Miscellaneous::Company => 5,
            Miscellaneous::Creature => 6,
            Miscellaneous::Dated => 7,
            Miscellaneous::Deity => 8,
            Miscellaneous::Derogatory => 9,
            Miscellaneous::Document => 10,
            Miscellaneous::Euphemistic => 11,
            Miscellaneous::Event => 12,
            Miscellaneous::Familiar => 13,
            Miscellaneous::Feminine => 14,
            Miscellaneous::Fict => 15,
            Miscellaneous::Form => 16,
            Miscellaneous::Given => 17,
            Miscellaneous::Group => 18,
            Miscellaneous::Historical => 19,
            Miscellaneous::Honorific => 20,
            Miscellaneous::Humble => 21,
            Miscellaneous::Idiomatic => 22,
            Miscellaneous::Jocular => 23,
            Miscellaneous::Legend => 24,
            Miscellaneous::MangaSlang => 25,
            Miscellaneous::Male => 26,
            Miscellaneous::Mythology => 27,
            Miscellaneous::NetSlang => 28,
            Miscellaneous::Object => 29,
            Miscellaneous::Obsolete => 30,
            Miscellaneous::OnMim => 31,
            Miscellaneous::Organization => 32,
            Miscellaneous::Other => 33,
            Miscellaneous::Person => 34,
            Miscellaneous::Place => 35,
            Miscellaneous::Poetic => 36,
            Miscellaneous::Polite => 37,
            Miscellaneous::Product => 38,
            Miscellaneous::Proverb => 39,
            Miscellaneous::Quote => 40,
            Miscellaneous::Rare => 41,
            Miscellaneous::Relig => 42,
            Miscellaneous::Sens => 43,
            Miscellaneous::Service => 44,
            Miscellaneous::Ship => 45,
            Miscellaneous::Slang => 46,
            Miscellaneous::Station => 47,
            Miscellaneous::Surname => 48,
            Miscellaneous::UsuallyKana => 49,
            Miscellaneous::Unclass => 50,
            Miscellaneous::Vulgar => 51,
            Miscellaneous::Work => 52,
            Miscellaneous::X => 53,
            Miscellaneous::Yojijukugo => 54,
        }
    }

    /// The stable bit index of this marker.
    pub fn index(self) -> (r: u8)
        ensures
            r == self.idx(),
            r < 55,
    {
        match self {
            Miscellaneous::Abbreviation => 0,
            Miscellaneous::Archaic => 1,
            Miscellaneous::Character => 2,
            Miscellaneous::Children => 3,
            Miscellaneous::Colloquial => 4,
            Miscellaneous::Company => 5,
            Miscellaneous::Creature => 6,
            Miscellaneous::Dated => 7,
            Miscellaneous::Deity => 8,
            Miscellaneous::Derogatory => 9,
            Miscellaneous::Document => 10,
            Miscellaneous::Euphemistic => 11,
            Miscellaneous::Event => 12,
            Miscellaneous::Familiar => 13,
            Miscellaneous::Feminine => 14,
            Miscellaneous::Fict => 15,
            Miscellaneous::Form => 16,
            Miscellaneous::Given => 17,
            Miscellaneous::Group => 18,
            Miscellaneous::Historical => 19,
            Miscellaneous::Honorific => 20,
            Miscellaneous::Humble => 21,
            Miscellaneous::Idiomatic => 22,
            Miscellaneous::Jocular => 23,
            Miscellaneous::Legend => 24,
            Miscellaneous::MangaSlang => 25,
            Miscellaneous::Male => 26,
            Miscellaneous::Mythology => 27,
            Miscellaneous::NetSlang => 28,
            Miscellaneous::Object => 29,
            Miscellaneous::Obsolete => 30,
            Miscellaneous::OnMim => 31,
            Miscellaneous::Organization => 32,
            Miscellaneous::Other => 33,
            Miscellaneous::Person => 34,
            Miscellaneous::Place => 35,
            Miscellaneous::Poetic => 36,
            Miscellaneous::Polite => 37,
            Miscellaneous::Product => 38,
            Miscellaneous::Proverb => 39,
            Miscellaneous::Quote => 40,
            Miscellaneous::Rare => 41,
            Miscellaneous::Relig => 42,
            Miscellaneous::Sens => 43,
            Miscellaneous::Service => 44,
            Miscellaneous::Ship => 45,
            Miscellaneous::Slang => 46,
            Miscellaneous::Station => 47,
            Miscellaneous::Surname => 48,
            Miscellaneous::UsuallyKana => 49,
            Miscellaneous::Unclass => 50,
            Miscellaneous::Vulgar => 51,
            Miscellaneous::Work => 52,
            Miscellaneous::X => 53,
            Miscellaneous::Yojijukugo => 54,
        }
    }

    /// The marker with the given bit index, if any.
    pub fn from_index(i: u8) -> (r: Option<Miscellaneous>)
        ensures
            i < 55 ==> (r matches Some(v) && v.idx() == i),
            i >= 55 ==> r is None,
    {
        match i {
            0 => Some(Miscellaneous::Abbreviation),
            1 => Some(Miscellaneous::Archaic),
            2 => Some(Miscellaneous::Character),
            3 => Some(Miscellaneous::Children),
            4 => Some(Miscellaneous::Colloquial),
            5 => Some(Miscellaneous::Company),
            6 => Some(Miscellaneous::Creature),
            7 => Some(Miscellaneous::Dated),
            8 => Some(Miscellaneous::Deity),
            9 => Some(Miscellaneous::Derogatory),
            10 => Some(Miscellaneous::Document),
            11 => Some(Miscellaneous::Euphemistic),
            12 => Some(Miscellaneous::Event),
            13 => Some(Miscellaneous::Familiar),
            14 => Some(Miscellaneous::Feminine),
            15 => Some(Miscellaneous::Fict),
            16 => Some(Miscellaneous::Form),
            17 => Some(Miscellaneous::Given),
            18 => Some(Miscellaneous::Group),
            19 => Some(Miscellaneous::Historical),
            20 => Some(Miscellaneous::Honorific),
            21 => Some(Miscellaneous::Humble),
            22 => Some(Miscellaneous::Idiomatic),
            23 => Some(Miscellaneous::Jocular),
            24 => Some(Miscellaneous::Legend),
            25 => Some(Miscellaneous::MangaSlang),
            26 => Some(Miscellaneous::Male),
            27 => Some(Miscellaneous::Mythology),
            28 => Some(Miscellaneous::NetSlang),
            29 => Some(Miscellaneous::Object),
            30 => Some(Miscellaneous::Obsolete),
            31 => Some(Miscellaneous::OnMim),
            32 => Some(Miscellaneous::Organization),
            33 => Some(Miscellaneous::Other),
            34 => Some(Miscellaneous::Person),
            35 => Some(Miscellaneous::Place),
            36 => Some(Miscellaneous::Poetic),
            37 => Some(Miscellaneous::Polite),
            38 => Some(Miscellaneous::Product),
            39 => Some(Miscellaneous::Proverb),
            40 => Some(Miscellaneous::Quote),
            41 => Some(Miscellaneous::Rare),
            42 => Some(Miscellaneous::Relig),
            43 => Some(Miscellaneous::Sens),
            44 => Some(Miscellaneous::Service),
            45 => Some(Miscellaneous::Ship),
            46 => Some(Miscellaneous::Slang),
            47 => Some(Miscellaneous::Station),
            48 => Some(Miscellaneous::Surname),
            49 => Some(Miscellaneous::UsuallyKana),
            50 => Some(Miscellaneous::Unclass),
            51 => Some(Miscellaneous::Vulgar),
            52 => Some(Miscellaneous::Work),
            53 => Some(Miscellaneous::X),
            54 => Some(Miscellaneous::Yojijukugo),
            _ => None,
        }
    }

    /// The stable short code of this marker, as a character sequence.
    pub open spec fn code_spec(self) -> Seq<char> {
        match self {
            Miscellaneous::Abbreviation => "abbr"@,
            Miscellaneous::Archaic => "arch"@,
            Miscellaneous::Character => "char"@,
            Miscellaneous::Children => "chn"@,
            Miscellaneous::Colloquial => "col"@,
            Miscellaneous::Company => "company"@,
            Miscellaneous::Creature => "creat"@,
            Miscellaneous::Dated => "dated"@,
            Miscellaneous::Deity => "dei"@,
            Miscellaneous::Derogatory => "derog"@,
            Miscellaneous::Document => "doc"@,
            Miscellaneous::Euphemistic => "euph"@,
            Miscellaneous::Event => "ev"@,
            Miscellaneous::Familiar => "fam"@,
            Miscellaneous::Feminine => "fem"@,
            Miscellaneous::Fict => "fict"@,
            Miscellaneous::Form => "form"@,
            Miscellaneous::Given => "given"@,
            Miscellaneous::Group => "group"@,
            Miscellaneous::Historical => "hist"@,
            Miscellaneous::Honorific => "hon"@,
            Miscellaneous::Humble => "hum"@,
            Miscellaneous::Idiomatic => "id"@,
            Miscellaneous::Jocular => "joc"@,
            Miscellaneous::Legend => "leg"@,
            Miscellaneous::MangaSlang => "m-sl"@,
            Miscellaneous::Male => "male"@,
            Miscellaneous::Mythology => "myth"@,
            Miscellaneous::NetSlang => "net-sl"@,
            Miscellaneous::Object => "obj"@,
            Miscellaneous::Obsolete => "obs"@,
            Miscellaneous::OnMim => "on-mim"@,
            Miscellaneous::Organization => "organization"@,
            Miscellaneous::Other => "oth"@,
            Miscellaneous::Person => "person"@,
            Miscellaneous::Place => "place"@,
            Miscellaneous::Poetic => "poet"@,
            Miscellaneous::Polite => "pol"@,
            Miscellaneous::Product => "product"@,
            Miscellaneous::Proverb => "proverb"@,
            Miscellaneous::Quote => "quote"@,
            Miscellaneous::Rare => "rare"@,
            Miscellaneous::Relig => "relig"@,
            Miscellaneous::Sens => "sens"@,
            Miscellaneous::Service => "serv"@,
            Miscellaneous::Ship => "ship"@,
            Miscellaneous::Slang => "sl"@,
            Miscellaneous::Station => "station"@,
            Miscellaneous::Surname => "surname"@,
            Miscellaneous::UsuallyKana => "uk"@,
            Miscellaneous::Unclass => "unclass"@,
            Miscellaneous::Vulgar => "vulg"@,
            Miscellaneous::Work => "work"@,
            Miscellaneous::X => "X"@,
            Miscellaneous::Yojijukugo => "yoji"@,
        }
    }

    /// The stable short code of this marker.
    pub fn ident(self) -> (r: &'static str)
        ensures
            r@ == self.code_spec(),
    {
        match self {
            Miscellaneous::Abbreviation => "abbr",
            Miscellaneous::Archaic => "arch",
            Miscellaneous::Character => "char",
            Miscellaneous::Children => "chn",
            Miscellaneous::Colloquial => "col",
            Miscellaneous::Company => "company",
            Miscellaneous::Creature => "creat",
            Miscellaneous::Dated => "dated",
            Miscellaneous::Deity => "dei",
            Miscellaneous::Derogatory => "derog",
            Miscellaneous::Document => "doc",
            Miscellaneous::Euphemistic => "euph",
            Miscellaneous::Event => "ev",
            Miscellaneous::Familiar => "fam",
            Miscellaneous::Feminine => "fem",
            Miscellaneous::Fict => "fict",
            Miscellaneous::Form => "form",
            Miscellaneous::Given => "given",
            Miscellaneous::Group => "group",
            Miscellaneous::Historical => "hist",
            Miscellaneous::Honorific => "hon",
            Miscellaneous::Humble => "hum",
            Miscellaneous::Idiomatic => "id",
            Miscellaneous::Jocular => "joc",
            Miscellaneous::Legend => "leg",
            Miscellaneous::MangaSlang => "m-sl",
            Miscellaneous::Male => "male",
            Miscellaneous::Mythology => "myth",
            Miscellaneous::NetSlang => "net-sl",
            Miscellaneous::Object => "obj",
            Miscellaneous::Obsolete => "obs",
            Miscellaneous::OnMim => "on-mim",
            Miscellaneous::Organization => "organization",
            Miscellaneous::Other => "oth",
            Miscellaneous::Person => "person",
            Miscellaneous::Place => "place",
            Miscellaneous::Poetic => "poet",
            Miscellaneous::Polite => "pol",
            Miscellaneous::Product => "product",
            Miscellaneous::Proverb => "proverb",
            Miscellaneous::Quote => "quote",
            Miscellaneous::Rare => "rare",
            Miscellaneous::Relig => "relig",
            Miscellaneous::Sens => "sens",
            Miscellaneous::Service => "serv",
            Miscellaneous::Ship => "ship",
            Miscellaneous::Slang => "sl",
            Miscellaneous::Station => "station",
            Miscellaneous::Surname => "surname",
            Miscellaneous::UsuallyKana => "uk",
            Miscellaneous::Unclass => "unclass",
            Miscellaneous::Vulgar => "vulg",
            Miscellaneous::Work => "work",
            Miscellaneous::X => "X",
            Miscellaneous::Yojijukugo => "yoji",
        }
    }
}

/// Part-of-speech and morphological class markers.
#[derive(Clone, Copy, Debug, PartialEq, Eq, Structural)]
pub enum PartOfSpeech {
    /// adj-f
    AdjectiveF,
    /// adj-i
    AdjectiveI,
    /// adj-ix
    AdjectiveIx,
    /// adj-kari
    AdjectiveKari,
    /// adj-ku
    AdjectiveKu,
    /// adj-na
    AdjectiveNa,
    /// adj-nari
    AdjectiveNari,
    /// adj-no
    AdjectiveNo,
    /// adj-pn
    AdjectivePn,
    /// adj-shiku
    AdjectiveShiku,
    /// adj-t
    AdjectiveT,
    /// adv
    Adverb,
    /// adv-to
    AdverbTo,
    /// aux
    Auxiliary,
    /// aux-adj
    AuxiliaryAdjective,
    /// aux-v
    AuxiliaryVerb,
    /// conj
    Conjunction,
    /// cop
    Copular,
    /// ctr
    Counter,
    /// exp
    Expression,
    /// int
    Interjection,
    /// n
    Noun,
    /// n-adv
    NounAdverbial,
    /// n-pr
    NounProper,
    /// n-pref
    NounPrefix,
    /// n-suf
    NounSuffix,
    /// n-t
    NounTemporal,
    /// num
    Numeric,
    /// pn
    Pronoun,
    /// pref
    Prefix,
    /// prt
    Particle,
    /// suf
    Suffix,
    /// unc
    Unclassified,
    /// v-unspec
    VerbUnspecified,
    /// v1
    VerbIchidan,
    /// v1-s
    VerbIchidanS,
    /// v2a-s
    VerbNidanAS,
    /// v2b-k
    VerbNidanBK,
    /// v2b-s
    VerbNidanBS,
    /// v2d-k
    VerbNidanDK,
    /// v2d-s
    VerbNidanDS,
    /// v2g-k
    VerbNidanGK,
    /// v2g-s
    VerbNidanGS,
    /// v2h-k
    VerbNidanHK,
    /// v2h-s
    VerbNidanHS,
    /// v2k-k
    VerbNidanKK,
    /// v2k-s
    VerbNidanKS,
    /// v2m-k
    VerbNidanMK,
    /// v2m-s
    VerbNidanMS,
    /// v2n-s
    VerbNidanNS,
    /// v2r-k
    VerbNidanRK,
    /// v2r-s
    VerbNidanRS,
    /// v2s-s
    VerbNidanSS,
    /// v2t-k
    VerbNidanTK,
    /// v2t-s
    VerbNidanTS,
    /// v2w-s
    VerbNidanWS,
    /// v2y-k
    VerbNidanYK,
    /// v2y-s
    VerbNidanYS,
    /// v2z-s
    VerbNidanZS,
    /// v4b
    VerbYodanB,
    /// v4g
    VerbYodanG,
    /// v4h
    VerbYodanH,
    /// v4k
    VerbYodanK,
    /// v4m
    VerbYodanM,
    /// v4n
    VerbYodanN,
    /// v4r
    VerbYodanR,
    /// v4s
    VerbYodanS,
    /// v4t
    VerbYodanT,
    /// v5aru
    VerbGodanAru,
    /// v5b
    VerbGodanB,
    /// v5g
    VerbGodanG,
    /// v5k
    VerbGodanK,
    /// v5k-s
    VerbGodanKS,
    /// v5m
    VerbGodanM,
    /// v5n
    VerbGodanN,
    /// v5r
    VerbGodanR,
    /// v5r-i
    VerbGodanRI,
    /// v5s
    VerbGodanS,
    /// v5t
    VerbGodanT,
    /// v5u
    VerbGodanU,
    /// v5u-s
    VerbGodanUS,
    /// v5uru
    VerbGodanUru,
    /// vi
    VerbIntransitive,
    /// vk
    VerbKuru,
    /// vn
    VerbNu,
    /// vr
    VerbRu,
    /// vs
    VerbSuru,
    /// vs-c
    VerbSuC,
    /// vs-i
    VerbSuruIncluded,
    /// vs-s
    VerbSuruSpecial,
    /// vt
    VerbTransitive,
    /// vz
    VerbZuru,
}

impl PartOfSpeech {
    /// The stable bit index of this marker.
    pub open spec fn idx(self) -> u8 {
        match self {
            PartOfSpeech::AdjectiveF => 0,
            PartOfSpeech::AdjectiveI => 1,
            PartOfSpeech::AdjectiveIx => 2,
            PartOfSpeech::AdjectiveKari => 3,
            PartOfSpeech::AdjectiveKu => 4,
            PartOfSpeech::AdjectiveNa => 5,
            PartOfSpeech::AdjectiveNari => 6,
            PartOfSpeech::AdjectiveNo => 7,
            PartOfSpeech::AdjectivePn => 8,
            PartOfSpeech::AdjectiveShiku => 9,
            PartOfSpeech::AdjectiveT => 10,
            PartOfSpeech::Adverb => 11,
            PartOfSpeech::AdverbTo => 12,
            PartOfSpeech::Auxiliary => 13,
            PartOfSpeech::AuxiliaryAdjective => 14,
            PartOfSpeech::AuxiliaryVerb => 15,
            PartOfSpeech::Conjunction => 16,
            PartOfSpeech::Copular => 17,
            PartOfSpeech::Counter => 18,
            PartOfSpeech::Expression => 19,
            PartOfSpeech::Interjection => 20,
            PartOfSpeech::Noun => 21,
            PartOfSpeech::NounAdverbial => 22,
            PartOfSpeech::NounProper => 23,
            PartOfSpeech::NounPrefix => 24,
            PartOfSpeech::NounSuffix => 25,
            PartOfSpeech::NounTemporal => 26,
            PartOfSpeech::Numeric => 27,
            PartOfSpeech::Pronoun => 28,
            PartOfSpeech::Prefix => 29,
            PartOfSpeech::Particle => 30,
            PartOfSpeech::Suffix => 31,
            PartOfSpeech::Unclassified => 32,
            PartOfSpeech::VerbUnspecified => 33,
            PartOfSpeech::VerbIchidan => 34,
            PartOfSpeech::VerbIchidanS => 35,
            PartOfSpeech::VerbNidanAS => 36,
            PartOfSpeech::VerbNidanBK => 37,
            PartOfSpeech::VerbNidanBS => 38,
            PartOfSpeech::VerbNidanDK => 39,
            PartOfSpeech::VerbNidanDS => 40,
            PartOfSpeech::VerbNidanGK => 41,
            PartOfSpeech::VerbNidanGS => 42,
            PartOfSpeech::VerbNidanHK => 43,
            PartOfSpeech::VerbNidanHS => 44,
            PartOfSpeech::VerbNidanKK => 45,
            PartOfSpeech::VerbNidanKS => 46,
            PartOfSpeech::VerbNidanMK => 47,
            PartOfSpeech::VerbNidanMS => 48,
            PartOfSpeech::VerbNidanNS => 49,
            PartOfSpeech::VerbNidanRK => 50,
            PartOfSpeech::VerbNidanRS => 51,
            PartOfSpeech::VerbNidanSS => 52,
            PartOfSpeech::VerbNidanTK => 53,
            PartOfSpeech::VerbNidanTS => 54,
            PartOfSpeech::VerbNidanWS => 55,
            PartOfSpeech::VerbNidanYK => 56,
            PartOfSpeech::VerbNidanYS => 57,
            PartOfSpeech::VerbNidanZS => 58,
            PartOfSpeech::VerbYodanB => 59,
            PartOfSpeech::VerbYodanG => 60,
            PartOfSpeech::VerbYodanH => 61,
            PartOfSpeech::VerbYodanK => 62,
            PartOfSpeech::VerbYodanM => 63,
            PartOfSpeech::VerbYodanN => 64,
            PartOfSpeech::VerbYodanR => 65,
            PartOfSpeech::VerbYodanS => 66,
            PartOfSpeech::VerbYodanT => 67,
            PartOfSpeech::VerbGodanAru => 68,
            PartOfSpeech::VerbGodanB => 69,
            PartOfSpeech::VerbGodanG => 70,
            PartOfSpeech::VerbGodanK => 71,
            PartOfSpeech::VerbGodanKS => 72,
            PartOfSpeech::VerbGodanM => 73,
            PartOfSpeech::VerbGodanN => 74,
            PartOfSpeech::VerbGodanR => 75,
            PartOfSpeech::VerbGodanRI => 76,
            PartOfSpeech::VerbGodanS => 77,
            PartOfSpeech::VerbGodanT => 78,
            PartOfSpeech::VerbGodanU => 79,
            PartOfSpeech::VerbGodanUS => 80,
            PartOfSpeech::VerbGodanUru => 81,
            PartOfSpeech::VerbIntransitive => 82,
            PartOfSpeech::VerbKuru => 83,
            PartOfSpeech::VerbNu => 84,
            PartOfSpeech::VerbRu => 85,
            PartOfSpeech::VerbSuru => 86,
            PartOfSpeech::VerbSuC => 87,
            PartOfSpeech::VerbSuruIncluded => 88,
            PartOfSpeech::VerbSuruSpecial => 89,
            PartOfSpeech::VerbTransitive => 90,
            PartOfSpeech::VerbZuru => 91,
        }
    }

    /// The stable bit index of this marker.
    pub fn index(self) -> (r: u8)
        ensures
            r == self.idx(),
            r < 92,
    {
        match self {
            PartOfSpeech::AdjectiveF => 0,
            PartOfSpeech::AdjectiveI => 1,
            PartOfSpeech::AdjectiveIx => 2,
            PartOfSpeech::AdjectiveKari => 3,
            PartOfSpeech::AdjectiveKu => 4,
            PartOfSpeech::AdjectiveNa => 5,
            PartOfSpeech::AdjectiveNari => 6,
            PartOfSpeech::AdjectiveNo => 7,
            PartOfSpeech::AdjectivePn => 8,
            PartOfSpeech::AdjectiveShiku => 9,
            PartOfSpeech::AdjectiveT => 10,
            PartOfSpeech::Adverb => 11,
            PartOfSpeech::AdverbTo => 12,
            PartOfSpeech::Auxiliary => 13,
            PartOfSpeech::AuxiliaryAdjective => 14,
            PartOfSpeech::AuxiliaryVerb => 15,
            PartOfSpeech::Conjunction => 16,
            PartOfSpeech::Copular => 17,
            PartOfSpeech::Counter => 18,
            PartOfSpeech::Expression => 19,
            PartOfSpeech::Interjection => 20,
            PartOfSpeech::Noun => 21,
            PartOfSpeech::NounAdverbial => 22,
            PartOfSpeech::NounProper => 23,
            PartOfSpeech::NounPrefix => 24,
            PartOfSpeech::NounSuffix => 25,
            PartOfSpeech::NounTemporal => 26,
            PartOfSpeech::Numeric => 27,
            PartOfSpeech::Pronoun => 28,
            PartOfSpeech::Prefix => 29,
            PartOfSpeech::Particle => 30,
            PartOfSpeech::Suffix => 31,
            PartOfSpeech::Unclassified => 32,
            PartOfSpeech::VerbUnspecified => 33,
            PartOfSpeech::VerbIchidan => 34,
            PartOfSpeech::VerbIchidanS => 35,
            PartOfSpeech::VerbNidanAS => 36,
            PartOfSpeech::VerbNidanBK => 37,
            PartOfSpeech::VerbNidanBS => 38,
            PartOfSpeech::VerbNidanDK => 39,
            PartOfSpeech::VerbNidanDS => 40,
            PartOfSpeech::VerbNidanGK => 41,
            PartOfSpeech::VerbNidanGS => 42,
            PartOfSpeech::VerbNidanHK => 43,
            PartOfSpeech::VerbNidanHS => 44,
            PartOfSpeech::VerbNidanKK => 45,
            PartOfSpeech::VerbNidanKS => 46,
            PartOfSpeech::VerbNidanMK => 47,
            PartOfSpeech::VerbNidanMS => 48,
            PartOfSpeech::VerbNidanNS => 49,
            PartOfSpeech::VerbNidanRK => 50,
            PartOfSpeech::VerbNidanRS => 51,
            PartOfSpeech::VerbNidanSS => 52,
            PartOfSpeech::VerbNidanTK => 53,
            PartOfSpeech::VerbNidanTS => 54,
            PartOfSpeech::VerbNidanWS => 55,
            PartOfSpeech::VerbNidanYK => 56,
            PartOfSpeech::VerbNidanYS => 57,
            PartOfSpeech::VerbNidanZS => 58,
            PartOfSpeech::VerbYodanB => 59,
            PartOfSpeech::VerbYodanG => 60,
            PartOfSpeech::VerbYodanH => 61,
            PartOfSpeech::VerbYodanK => 62,
            PartOfSpeech::VerbYodanM => 63,
            PartOfSpeech::VerbYodanN => 64,
            PartOfSpeech::VerbYodanR => 65,
            PartOfSpeech::VerbYodanS => 66,
            PartOfSpeech::VerbYodanT => 67,
            PartOfSpeech::VerbGodanAru => 68,
            PartOfSpeech::VerbGodanB => 69,
            PartOfSpeech::VerbGodanG => 70,
            PartOfSpeech::VerbGodanK => 71,
            PartOfSpeech::VerbGodanKS => 72,
            PartOfSpeech::VerbGodanM => 73,
            PartOfSpeech::VerbGodanN => 74,
            PartOfSpeech::VerbGodanR => 75,
            PartOfSpeech::VerbGodanRI => 76,
            PartOfSpeech::VerbGodanS => 77,
            PartOfSpeech::VerbGodanT => 78,
            PartOfSpeech::VerbGodanU => 79,
            PartOfSpeech::VerbGodanUS => 80,
            PartOfSpeech::VerbGodanUru => 81,
            PartOfSpeech::VerbIntransitive => 82,
            PartOfSpeech::VerbKuru => 83,
            PartOfSpeech::VerbNu => 84,
            PartOfSpeech::VerbRu => 85,
            PartOfSpeech::VerbSuru => 86,
            PartOfSpeech::VerbSuC => 87,
            PartOfSpeech::VerbSuruIncluded => 88,
            PartOfSpeech::VerbSuruSpecial => 89,
            PartOfSpeech::VerbTransitive => 90,
            PartOfSpeech::VerbZuru => 91,
        }
    }

    /// The marker with the given bit index, if any.
    pub fn from_index(i: u8) -> (r: Option<PartOfSpeech>)
        ensures
            r == PartOfSpeech::from_idx(i),
            i < 92 ==> (r matches Some(v) && v.idx() == i),
            i >= 92 ==> r is None,
    {
        match i {
            0 => Some(PartOfSpeech::AdjectiveF),
            1 => Some(PartOfSpeech::AdjectiveI),
            2 => Some(PartOfSpeech::AdjectiveIx),
            3 => Some(PartOfSpeech::AdjectiveKari),
            4 => Some(PartOfSpeech::AdjectiveKu),
            5 => Some(PartOfSpeech::AdjectiveNa),
            6 => Some(PartOfSpeech::AdjectiveNari),
            7 => Some(PartOfSpeech::AdjectiveNo),
            8 => Some(PartOfSpeech::AdjectivePn),
            9 => Some(PartOfSpeech::AdjectiveShiku),
            10 => Some(PartOfSpeech::AdjectiveT),
            11 => Some(PartOfSpeech::Adverb),
            12 => Some(PartOfSpeech::AdverbTo),
            13 => Some(PartOfSpeech::Auxiliary),
            14 => Some(PartOfSpeech::AuxiliaryAdjective),
            15 => Some(PartOfSpeech::AuxiliaryVerb),
            16 => Some(PartOfSpeech::Conjunction),
            17 => Some(PartOfSpeech::Copular),
            18 => Some(PartOfSpeech::Counter),
            19 => Some(PartOfSpeech::Expression),
            20 => Some(PartOfSpeech::Interjection),
            21 => Some(PartOfSpeech::Noun),
            22 => Some(PartOfSpeech::NounAdverbial),
            23 => Some(PartOfSpeech::NounProper),
            24 => Some(PartOfSpeech::NounPrefix),
            25 => Some(PartOfSpeech::NounSuffix),
            26 => Some(PartOfSpeech::NounTemporal),
            27 => Some(PartOfSpeech::Numeric),
            28 => Some(PartOfSpeech::Pronoun),
            29 => Some(PartOfSpeech::Prefix),
            30 => Some(PartOfSpeech::Particle),
            31 => Some(PartOfSpeech::Suffix),
            32 => Some(PartOfSpeech::Unclassified),
            33 => Some(PartOfSpeech::VerbUnspecified),
            34 => Some(PartOfSpeech::VerbIchidan),
            35 => Some(PartOfSpeech::VerbIchidanS),
            36 => Some(PartOfSpeech::VerbNidanAS),
            37 => Some(PartOfSpeech::VerbNidanBK),
            38 => Some(PartOfSpeech::VerbNidanBS),
            39 => Some(PartOfSpeech::VerbNidanDK),
            40 => Some(PartOfSpeech::VerbNidanDS),
            41 => Some(PartOfSpeech::VerbNidanGK),
            42 => Some(PartOfSpeech::VerbNidanGS),
            43 => Some(PartOfSpeech::VerbNidanHK),
            44 => Some(PartOfSpeech::VerbNidanHS),
            45 => Some(PartOfSpeech::VerbNidanKK),
            46 => Some(PartOfSpeech::VerbNidanKS),
            47 => Some(PartOfSpeech::VerbNidanMK),
            48 => Some(PartOfSpeech::VerbNidanMS),
            49 => Some(PartOfSpeech::VerbNidanNS),
            50 => Some(PartOfSpeech::VerbNidanRK),
            51 => Some(PartOfSpeech::VerbNidanRS),
            52 => Some(PartOfSpeech::VerbNidanSS),
            53 => Some(PartOfSpeech::VerbNidanTK),
            54 => Some(PartOfSpeech::VerbNidanTS),
            55 => Some(PartOfSpeech::VerbNidanWS),
            56 => Some(PartOfSpeech::VerbNidanYK),
            57 => Some(PartOfSpeech::VerbNidanYS),
            58 => Some(PartOfSpeech::VerbNidanZS),
            59 => Some(PartOfSpeech::VerbYodanB),
            60 => Some(PartOfSpeech::VerbYodanG),
            61 => Some(PartOfSpeech::VerbYodanH),
            62 => Some(PartOfSpeech::VerbYodanK),
            63 => Some(PartOfSpeech::VerbYodanM),
            64 => Some(PartOfSpeech::VerbYodanN),
            65 => Some(PartOfSpeech::VerbYodanR),
            66 => Some(PartOfSpeech::VerbYodanS),
            67 => Some(PartOfSpeech::VerbYodanT),
            68 => Some(PartOfSpeech::VerbGodanAru),
            69 => Some(PartOfSpeech::VerbGodanB),
            70 => Some(PartOfSpeech::VerbGodanG),
            71 => Some(PartOfSpeech::VerbGodanK),
            72 => Some(PartOfSpeech::VerbGodanKS),
            73 => Some(PartOfSpeech::VerbGodanM),
            74 => Some(PartOfSpeech::VerbGodanN),
            75 => Some(PartOfSpeech::VerbGodanR),
            76 => Some(PartOfSpeech::VerbGodanRI),
            77 => Some(PartOfSpeech::VerbGodanS),
            78 => Some(PartOfSpeech::VerbGodanT),
            79 => Some(PartOfSpeech::VerbGodanU),
            80 => Some(PartOfSpeech::VerbGodanUS),
            81 => Some(PartOfSpeech::VerbGodanUru),
            82 => Some(PartOfSpeech::VerbIntransitive),
            83 => Some(PartOfSpeech::VerbKuru),
            84 => Some(PartOfSpeech::VerbNu),
            85 => Some(PartOfSpeech::VerbRu),
            86 => Some(PartOfSpeech::VerbSuru),
            87 => Some(PartOfSpeech::VerbSuC),
            88 => Some(PartOfSpeech::VerbSuruIncluded),
            89 => Some(PartOfSpeech::VerbSuruSpecial),
            90 => Some(PartOfSpeech::VerbTransitive),
            91 => Some(PartOfSpeech::VerbZuru),
            _ => None,
        }
    }

    /// The stable short code of this marker, as a character sequence.
    pub open spec fn code_spec(self) -> Seq<char> {
        match self {
            PartOfSpeech::AdjectiveF => "adj-f"@,
            PartOfSpeech::AdjectiveI => "adj-i"@,
            PartOfSpeech::AdjectiveIx => "adj-ix"@,
            PartOfSpeech::AdjectiveKari => "adj-kari"@,
            PartOfSpeech::AdjectiveKu => "adj-ku"@,
            PartOfSpeech::AdjectiveNa => "adj-na"@,
            PartOfSpeech::AdjectiveNari => "adj-nari"@,
            PartOfSpeech::AdjectiveNo => "adj-no"@,
            PartOfSpeech::AdjectivePn => "adj-pn"@,
            PartOfSpeech::AdjectiveShiku => "adj-shiku"@,
            PartOfSpeech::AdjectiveT => "adj-t"@,
            PartOfSpeech::Adverb => "adv"@,
            PartOfSpeech::AdverbTo => "adv-to"@,
            PartOfSpeech::Auxiliary => "aux"@,
            PartOfSpeech::AuxiliaryAdjective => "aux-adj"@,
            PartOfSpeech::AuxiliaryVerb => "aux-v"@,
            PartOfSpeech::Conjunction => "conj"@,
            PartOfSpeech::Copular => "cop"@,
            PartOfSpeech::Counter => "ctr"@,
            PartOfSpeech::Expression => "exp"@,
            PartOfSpeech::Interjection => "int"@,
            PartOfSpeech::Noun => "n"@,
            PartOfSpeech::NounAdverbial => "n-adv"@,
            PartOfSpeech::NounProper => "n-pr"@,
            PartOfSpeech::NounPrefix => "n-pref"@,
            PartOfSpeech::NounSuffix => "n-suf"@,
            PartOfSpeech::NounTemporal => "n-t"@,
            PartOfSpeech::Numeric => "num"@,
            PartOfSpeech::Pronoun => "pn"@,
            PartOfSpeech::Prefix => "pref"@,
            PartOfSpeech::Particle => "prt"@,
            PartOfSpeech::Suffix => "suf"@,
            PartOfSpeech::Unclassified => "unc"@,
            PartOfSpeech::VerbUnspecified => "v-unspec"@,
            PartOfSpeech::VerbIchidan => "v1"@,
            PartOfSpeech::VerbIchidanS => "v1-s"@,
            PartOfSpeech::VerbNidanAS => "v2a-s"@,
            PartOfSpeech::VerbNidanBK => "v2b-k"@,
            PartOfSpeech::VerbNidanBS => "v2b-s"@,
            PartOfSpeech::VerbNidanDK => "v2d-k"@,
            PartOfSpeech::VerbNidanDS => "v2d-s"@,
            PartOfSpeech::VerbNidanGK => "v2g-k"@,
            PartOfSpeech::VerbNidanGS => "v2g-s"@,
            PartOfSpeech::VerbNidanHK => "v2h-k"@,
            PartOfSpeech::VerbNidanHS => "v2h-s"@,
            PartOfSpeech::VerbNidanKK => "v2k-k"@,
            PartOfSpeech::VerbNidanKS => "v2k-s"@,
            PartOfSpeech::VerbNidanMK => "v2m-k"@,
            PartOfSpeech::VerbNidanMS => "v2m-s"@,
            PartOfSpeech::VerbNidanNS => "v2n-s"@,
            PartOfSpeech::VerbNidanRK => "v2r-k"@,
            PartOfSpeech::VerbNidanRS => "v2r-s"@,
            PartOfSpeech::VerbNidanSS => "v2s-s"@,
            PartOfSpeech::VerbNidanTK => "v2t-k"@,
            PartOfSpeech::VerbNidanTS => "v2t-s"@,
            PartOfSpeech::VerbNidanWS => "v2w-s"@,
            PartOfSpeech::VerbNidanYK => "v2y-k"@,
            PartOfSpeech::VerbNidanYS => "v2y-s"@,
            PartOfSpeech::VerbNidanZS => "v2z-s"@,
            PartOfSpeech::VerbYodanB => "v4b"@,
            PartOfSpeech::VerbYodanG => "v4g"@,
            PartOfSpeech::VerbYodanH => "v4h"@,
            PartOfSpeech::VerbYodanK => "v4k"@,
            PartOfSpeech::VerbYodanM => "v4m"@,
            PartOfSpeech::VerbYodanN => "v4n"@,
            PartOfSpeech::VerbYodanR => "v4r"@,
            PartOfSpeech::VerbYodanS => "v4s"@,
            PartOfSpeech::VerbYodanT => "v4t"@,
            PartOfSpeech::VerbGodanAru => "v5aru"@,
            PartOfSpeech::VerbGodanB => "v5b"@,
            PartOfSpeech::VerbGodanG => "v5g"@,
            PartOfSpeech::VerbGodanK => "v5k"@,
            PartOfSpeech::VerbGodanKS => "v5k-s"@,
            PartOfSpeech::VerbGodanM => "v5m"@,
            PartOfSpeech::VerbGodanN => "v5n"@,
            PartOfSpeech::VerbGodanR => "v5r"@,
            PartOfSpeech::VerbGodanRI => "v5r-i"@,
            PartOfSpeech::VerbGodanS => "v5s"@,
            PartOfSpeech::VerbGodanT => "v5t"@,
            PartOfSpeech::VerbGodanU => "v5u"@,
            PartOfSpeech::VerbGodanUS => "v5u-s"@,
            PartOfSpeech::VerbGodanUru => "v5uru"@,
            PartOfSpeech::VerbIntransitive => "vi"@,
            PartOfSpeech::VerbKuru => "vk"@,
            PartOfSpeech::VerbNu => "vn"@,
            PartOfSpeech::VerbRu => "vr"@,
            PartOfSpeech::VerbSuru => "vs"@,
            PartOfSpeech::VerbSuC => "vs-c"@,
            PartOfSpeech::VerbSuruIncluded => "vs-i"@,
            PartOfSpeech::VerbSuruSpecial => "vs-s"@,
            PartOfSpeech::VerbTransitive => "vt"@,
            PartOfSpeech::VerbZuru => "vz"@,
        }
    }

    /// The stable short code of this marker.
    pub fn ident(self) -> (r: &'static str)
        ensures
            r@ == self.code_spec(),
    {
        match self {
            PartOfSpeech::AdjectiveF => "adj-f",
            PartOfSpeech::AdjectiveI => "adj-i",
            PartOfSpeech::AdjectiveIx => "adj-ix",
            PartOfSpeech::AdjectiveKari => "adj-kari",
            PartOfSpeech::AdjectiveKu => "adj-ku",
            PartOfSpeech::AdjectiveNa => "adj-na",
            PartOfSpeech::AdjectiveNari => "adj-nari",
            PartOfSpeech::AdjectiveNo => "adj-no",
            PartOfSpeech::AdjectivePn => "adj-pn",
            PartOfSpeech::AdjectiveShiku => "adj-shiku",
            PartOfSpeech::AdjectiveT => "adj-t",
            PartOfSpeech::Adverb => "adv",
            PartOfSpeech::AdverbTo => "adv-to",
            PartOfSpeech::Auxiliary => "aux",
            PartOfSpeech::AuxiliaryAdjective => "aux-adj",
            PartOfSpeech::AuxiliaryVerb => "aux-v",
            PartOfSpeech::Conjunction => "conj",
            PartOfSpeech::Copular => "cop",
            PartOfSpeech::Counter => "ctr",
            PartOfSpeech::Expression => "exp",
            PartOfSpeech::Interjection => "int",
            PartOfSpeech::Noun => "n",
            PartOfSpeech::NounAdverbial => "n-adv",
            PartOfSpeech::NounProper => "n-pr",
            PartOfSpeech::NounPrefix => "n-pref",
            PartOfSpeech::NounSuffix => "n-suf",
            PartOfSpeech::NounTemporal => "n-t",
            PartOfSpeech::Numeric => "num",
            PartOfSpeech::Pronoun => "pn",
            PartOfSpeech::Prefix => "pref",
            PartOfSpeech::Particle => "prt",
            PartOfSpeech::Suffix => "suf",
            PartOfSpeech::Unclassified => "unc",
            PartOfSpeech::VerbUnspecified => "v-unspec",
            PartOfSpeech::VerbIchidan => "v1",
            PartOfSpeech::VerbIchidanS => "v1-s",
            PartOfSpeech::VerbNidanAS => "v2a-s",
            PartOfSpeech::VerbNidanBK => "v2b-k",
            PartOfSpeech::VerbNidanBS => "v2b-s",
            PartOfSpeech::VerbNidanDK => "v2d-k",
            PartOfSpeech::VerbNidanDS => "v2d-s",
            PartOfSpeech::VerbNidanGK => "v2g-k",
            PartOfSpeech::VerbNidanGS => "v2g-s",
            PartOfSpeech::VerbNidanHK => "v2h-k",
            PartOfSpeech::VerbNidanHS => "v2h-s",
            PartOfSpeech::VerbNidanKK => "v2k-k",
            PartOfSpeech::VerbNidanKS => "v2k-s",
            PartOfSpeech::VerbNidanMK => "v2m-k",
            PartOfSpeech::VerbNidanMS => "v2m-s",
            PartOfSpeech::VerbNidanNS => "v2n-s",
            PartOfSpeech::VerbNidanRK => "v2r-k",
            PartOfSpeech::VerbNidanRS => "v2r-s",
            PartOfSpeech::VerbNidanSS => "v2s-s",
            PartOfSpeech::VerbNidanTK => "v2t-k",
            PartOfSpeech::VerbNidanTS => "v2t-s",
            PartOfSpeech::VerbNidanWS => "v2w-s",
            PartOfSpeech::VerbNidanYK => "v2y-k",
            PartOfSpeech::VerbNidanYS => "v2y-s",
            PartOfSpeech::VerbNidanZS => "v2z-s",
            PartOfSpeech::VerbYodanB => "v4b",
            PartOfSpeech::VerbYodanG => "v4g",
            PartOfSpeech::VerbYodanH => "v4h",
            PartOfSpeech::VerbYodanK => "v4k",
            PartOfSpeech::VerbYodanM => "v4m",
            PartOfSpeech::VerbYodanN => "v4n",
            PartOfSpeech::VerbYodanR => "v4r",
            PartOfSpeech::VerbYodanS => "v4s",
            PartOfSpeech::VerbYodanT => "v4t",
            PartOfSpeech::VerbGodanAru => "v5aru",
            PartOfSpeech::VerbGodanB => "v5b",
            PartOfSpeech::VerbGodanG => "v5g",
            PartOfSpeech::VerbGodanK => "v5k",
            PartOfSpeech::VerbGodanKS => "v5k-s",
            PartOfSpeech::VerbGodanM => "v5m",
            PartOfSpeech::VerbGodanN => "v5n",
            PartOfSpeech::VerbGodanR => "v5r",
            PartOfSpeech::VerbGodanRI => "v5r-i",
            PartOfSpeech::VerbGodanS => "v5s",
            PartOfSpeech::VerbGodanT => "v5t",
            PartOfSpeech::VerbGodanU => "v5u",
            PartOfSpeech::VerbGodanUS => "v5u-s",
            PartOfSpeech::VerbGodanUru => "v5uru",
            PartOfSpeech::VerbIntransitive => "vi",
            PartOfSpeech::VerbKuru => "vk",
            PartOfSpeech::VerbNu => "vn",
            PartOfSpeech::VerbRu => "vr",
            PartOfSpeech::VerbSuru => "vs",
            PartOfSpeech::VerbSuC => "vs-c",
            PartOfSpeech::VerbSuruIncluded => "vs-i",
            PartOfSpeech::VerbSuruSpecial => "vs-s",
            PartOfSpeech::VerbTransitive => "vt",
            PartOfSpeech::VerbZuru => "vz",
        }
    }
    /// The marker of a bit index, at the specification level.
    pub open spec fn from_idx(i: u8) -> Option<PartOfSpeech> {
        if i == 0 {
            Some(PartOfSpeech::AdjectiveF)
        } else if i == 1 {
            Some(PartOfSpeech::AdjectiveI)
        } else if i == 2 {
            Some(PartOfSpeech::AdjectiveIx)
        } else if i == 3 {
            Some(PartOfSpeech::AdjectiveKari)
        } else if i == 4 {
            Some(PartOfSpeech::AdjectiveKu)
        } else if i == 5 {
            Some(PartOfSpeech::AdjectiveNa)
        } else if i == 6 {
            Some(PartOfSpeech::AdjectiveNari)
        } else if i == 7 {
            Some(PartOfSpeech::AdjectiveNo)
        } else if i == 8 {
            Some(PartOfSpeech::AdjectivePn)
        } else if i == 9 {
            Some(PartOfSpeech::AdjectiveShiku)
        } else if i == 10 {
            Some(PartOfSpeech::AdjectiveT)
        } else if i == 11 {
            Some(PartOfSpeech::Adverb)
        } else if i == 12 {
            Some(PartOfSpeech::AdverbTo)
        } else if i == 13 {
            Some(PartOfSpeech::Auxiliary)
        } else if i == 14 {
            Some(PartOfSpeech::AuxiliaryAdjective)
        } else if i == 15 {
            Some(PartOfSpeech::AuxiliaryVerb)
        } else if i == 16 {
            Some(PartOfSpeech::Conjunction)
        } else if i == 17 {
            Some(PartOfSpeech::Copular)
        } else if i == 18 {
            Some(PartOfSpeech::Counter)
        } else if i == 19 {
            Some(PartOfSpeech::Expression)
        } else if i == 20 {
            Some(PartOfSpeech::Interjection)
        } else if i == 21 {
            Some(PartOfSpeech::Noun)
        } else if i == 22 {
            Some(PartOfSpeech::NounAdverbial)
        } else if i == 23 {
            Some(PartOfSpeech::NounProper)
        } else if i == 24 {
            Some(PartOfSpeech::NounPrefix)
        } else if i == 25 {
            Some(PartOfSpeech::NounSuffix)
        } else if i == 26 {
            Some(PartOfSpeech::NounTemporal)
        } else if i == 27 {
            Some(PartOfSpeech::Numeric)
        } else if i == 28 {
            Some(PartOfSpeech::Pronoun)
        } else if i == 29 {
            Some(PartOfSpeech::Prefix)
        } else if i == 30 {
            Some(PartOfSpeech::Particle)
        } else if i == 31 {
            Some(PartOfSpeech::Suffix)
        } else if i == 32 {
            Some(PartOfSpeech::Unclassified)
        } else if i == 33 {
            Some(PartOfSpeech::VerbUnspecified)
        } else if i == 34 {
            Some(PartOfSpeech::VerbIchidan)
        } else if i == 35 {
            Some(PartOfSpeech::VerbIchidanS)
        } else if i == 36 {
            Some(PartOfSpeech::VerbNidanAS)
        } else if i == 37 {
            Some(PartOfSpeech::VerbNidanBK)
        } else if i == 38 {
            Some(PartOfSpeech::VerbNidanBS)
        } else if i == 39 {
            Some(PartOfSpeech::VerbNidanDK)
        } else if i == 40 {
            Some(PartOfSpeech::VerbNidanDS)
        } else if i == 41 {
            Some(PartOfSpeech::VerbNidanGK)
        } else if i == 42 {
            Some(PartOfSpeech::VerbNidanGS)
        } else if i == 43 {
            Some(PartOfSpeech::VerbNidanHK)
        } else if i == 44 {
            Some(PartOfSpeech::VerbNidanHS)
        } else if i == 45 {
            Some(PartOfSpeech::VerbNidanKK)
        } else if i == 46 {
            Some(PartOfSpeech::VerbNidanKS)
        } else if i == 47 {
            Some(PartOfSpeech::VerbNidanMK)
        } else if i == 48 {
            Some(PartOfSpeech::VerbNidanMS)
        } else if i == 49 {
            Some(PartOfSpeech::VerbNidanNS)
        } else if i == 50 {
            Some(PartOfSpeech::VerbNidanRK)
        } else if i == 51 {
            Some(PartOfSpeech::VerbNidanRS)
        } else if i == 52 {
            Some(PartOfSpeech::VerbNidanSS)
        } else if i == 53 {
            Some(PartOfSpeech::VerbNidanTK)
        } else if i == 54 {
            Some(PartOfSpeech::VerbNidanTS)
        } else if i == 55 {
            Some(PartOfSpeech::VerbNidanWS)
        } else if i == 56 {
            Some(PartOfSpeech::VerbNidanYK)
        } else if i == 57 {
            Some(PartOfSpeech::VerbNidanYS)
        } else if i == 58 {
            Some(PartOfSpeech::VerbNidanZS)
        } else if i == 59 {
            Some(PartOfSpeech::VerbYodanB)
        } else if i == 60 {
            Some(PartOfSpeech::VerbYodanG)
        } else if i == 61 {
            Some(PartOfSpeech::VerbYodanH)
        } else if i == 62 {
            Some(PartOfSpeech::VerbYodanK)
        } else if i == 63 {
            Some(PartOfSpeech::VerbYodanM)
        } else if i == 64 {
            Some(PartOfSpeech::VerbYodanN)
        } else if i == 65 {
            Some(PartOfSpeech::VerbYodanR)
        } else if i == 66 {
            Some(PartOfSpeech::VerbYodanS)
        } else if i == 67 {
            Some(PartOfSpeech::VerbYodanT)
        } else if i == 68 {
            Some(PartOfSpeech::VerbGodanAru)
        } else if i == 69 {
            Some(PartOfSpeech::VerbGodanB)
        } else if i == 70 {
            Some(PartOfSpeech::VerbGodanG)
        } else if i == 71 {
            Some(PartOfSpeech::VerbGodanK)
        } else if i == 72 {
            Some(PartOfSpeech::VerbGodanKS)
        } else if i == 73 {
            Some(PartOfSpeech::VerbGodanM)
        } else if i == 74 {
            Some(PartOfSpeech::VerbGodanN)
        } else if i == 75 {
            Some(PartOfSpeech::VerbGodanR)
        } else if i == 76 {
            Some(PartOfSpeech::VerbGodanRI)
        } else if i == 77 {
            Some(PartOfSpeech::VerbGodanS)
        } else if i == 78 {
            Some(PartOfSpeech::VerbGodanT)
        } else if i == 79 {
            Some(PartOfSpeech::VerbGodanU)
        } else if i == 80 {
            Some(PartOfSpeech::VerbGodanUS)
        } else if i == 81 {
            Some(PartOfSpeech::VerbGodanUru)
        } else if i == 82 {
            Some(PartOfSpeech::VerbIntransitive)
        } else if i == 83 {
            Some(PartOfSpeech::VerbKuru)
        } else if i == 84 {
            Some(PartOfSpeech::VerbNu)
        } else if i == 85 {
            Some(PartOfSpeech::VerbRu)
        } else if i == 86 {
            Some(PartOfSpeech::VerbSuru)
        } else if i == 87 {
            Some(PartOfSpeech::VerbSuC)
        } else if i == 88 {
            Some(PartOfSpeech::VerbSuruIncluded)
        } else if i == 89 {
            Some(PartOfSpeech::VerbSuruSpecial)
        } else if i == 90 {
            Some(PartOfSpeech::VerbTransitive)
        } else if i == 91 {
            Some(PartOfSpeech::VerbZuru)
        } else {
            None
        }
    }

    /// Reading back the index of a marker yields the marker.
    pub proof fn lemma_from_idx_of_idx(x: PartOfSpeech)
        ensures
            PartOfSpeech::from_idx(x.idx()) == Some(x),
    {
    }

}

/// Fixed annotation markers.
#[derive(Clone, Copy, Debug, PartialEq, Eq, Structural)]
pub enum KanjiInfo {
    /// ateji
    Ateji,
    /// ik
    IrregularKana,
    /// iK
    IrregularKanji,
    /// io
    IrregularOkurigana,
    /// oK
    OutdatedKanji,
    /// rK
    RareKanji,
    /// sK
    SearchOnlyKanji,
}

impl KanjiInfo {
    /// The stable bit index of this marker.
    pub open spec fn idx(self) -> u8 {
        match self {
            KanjiInfo::Ateji => 0,
            KanjiInfo::IrregularKana => 1,
            KanjiInfo::IrregularKanji => 2,
            KanjiInfo::IrregularOkurigana => 3,
            KanjiInfo::OutdatedKanji => 4,
            KanjiInfo::RareKanji => 5,
            KanjiInfo::SearchOnlyKanji => 6,
        }
    }

    /// The stable bit index of this marker.
    pub fn index(self) -> (r: u8)
        ensures
            r == self.idx(),
            r < 7,
    {
        match self {
            KanjiInfo::Ateji => 0,
            KanjiInfo::IrregularKana => 1,
            KanjiInfo::IrregularKanji => 2,
            KanjiInfo::IrregularOkurigana => 3,
            KanjiInfo::OutdatedKanji => 4,
            KanjiInfo::RareKanji => 5,
            KanjiInfo::SearchOnlyKanji => 6,
        }
    }

    /// The marker with the given bit index, if any.
    pub fn from_index(i: u8) -> (r: Option<KanjiInfo>)
        ensures
            r == KanjiInfo::from_idx(i),
            i < 7 ==> (r matches Some(v) && v.idx() == i),
            i >= 7 ==> r is None,
    {
        match i {
            0 => Some(KanjiInfo::Ateji),
            1 => Some(KanjiInfo::IrregularKana),
            2 => Some(KanjiInfo::IrregularKanji),
            3 => Some(KanjiInfo::IrregularOkurigana),
            4 => Some(KanjiInfo::OutdatedKanji),
            5 => Some(KanjiInfo::RareKanji),
            6 => Some(KanjiInfo::SearchOnlyKanji),
            _ => None,
        }
    }

    /// The stable short code of this marker, as a character sequence.
    pub open spec fn code_spec(self) -> Seq<char> {
        match self {
            KanjiInfo::Ateji => "ateji"@,
            KanjiInfo::IrregularKana => "ik"@,
            KanjiInfo::IrregularKanji => "iK"@,
            KanjiInfo::IrregularOkurigana => "io"@,
            KanjiInfo::OutdatedKanji => "oK"@,
            KanjiInfo::RareKanji => "rK"@,
            KanjiInfo::SearchOnlyKanji => "sK"@,
        }
    }

    /// The stable short code of this marker.
    pub fn ident(self) -> (r: &'static str)
        ensures
            r@ == self.code_spec(),
    {
        match self {
            KanjiInfo::Ateji => "ateji",
            KanjiInfo::IrregularKana => "ik",
            KanjiInfo::IrregularKanji => "iK",
            KanjiInfo::IrregularOkurigana => "io",
            KanjiInfo::OutdatedKanji => "oK",
            KanjiInfo::RareKanji => "rK",
            KanjiInfo::SearchOnlyKanji => "sK",
        }
    }
    /// The marker of a bit index, at the specification level.
    pub open spec fn from_idx(i: u8) -> Option<KanjiInfo> {
        if i == 0 {
            Some(KanjiInfo::Ateji)
        } else if i == 1 {
            Some(KanjiInfo::IrregularKana)
        } else if i == 2 {
            Some(KanjiInfo::IrregularKanji)
        } else if i == 3 {
            Some(KanjiInfo::IrregularOkurigana)
        } else if i == 4 {
            Some(KanjiInfo::OutdatedKanji)
        } else if i == 5 {
            Some(KanjiInfo::RareKanji)
        } else if i == 6 {
            Some(KanjiInfo::SearchOnlyKanji)
        } else {
            None
        }
    }

    /// Reading back the index of a marker yields the marker.
    pub proof fn lemma_from_idx_of_idx(x: KanjiInfo)
        ensures
            KanjiInfo::from_idx(x.idx()) == Some(x),
    {
    }

}

/// Fixed annotation markers.
#[derive(Clone, Copy, Debug, PartialEq, Eq, Structural)]
pub enum ReadingInfo {
    /// gikun
    Gikun,
    /// ik
    IrregularKana,
    /// ok
    ObsoleteKana,
    /// sk
    SearchOnlyKana,
}

impl ReadingInfo {
    /// The stable bit index of this marker.
    pub open spec fn idx(self) -> u8 {
        match self {
            ReadingInfo::Gikun => 0,
            ReadingInfo::IrregularKana => 1,
            ReadingInfo::ObsoleteKana => 2,
            ReadingInfo::SearchOnlyKana => 3,
        }
    }

    /// The stable bit index of this marker.
    pub fn index(self) -> (r: u8)
        ensures
            r == self.idx(),
            r < 4,
    {
        match self {
            ReadingInfo::Gikun => 0,
            ReadingInfo::IrregularKana => 1,
            ReadingInfo::ObsoleteKana => 2,
            ReadingInfo::SearchOnlyKana => 3,
        }
    }

    /// The marker with the given bit index, if any.
    pub fn from_index(i: u8) -> (r: Option<ReadingInfo>)
        ensures
            r == ReadingInfo::from_idx(i),
            i < 4 ==> (r matches Some(v) && v.idx() == i),
            i >= 4 ==> r is None,
    {
        match i {
            0 => Some(ReadingInfo::Gikun),
            1 => Some(ReadingInfo::IrregularKana),
            2 => Some(ReadingInfo::ObsoleteKana),
            3 => Some(ReadingInfo::SearchOnlyKana),
            _ => None,
        }
    }

    /// The stable short code of this marker, as a character sequence.
    pub open spec fn code_spec(self) -> Seq<char> {
        match self {
            ReadingInfo::Gikun => "gikun"@,
            ReadingInfo::IrregularKana => "ik"@,
            ReadingInfo::ObsoleteKana => "ok"@,
            ReadingInfo::SearchOnlyKana => "sk"@,
        }
    }

    /// The stable short code of this marker.
    pub fn ident(self) -> (r: &'static str)
        ensures
            r@ == self.code_spec(),
    {
        match self {
            ReadingInfo::Gikun => "gikun",
            ReadingInfo::IrregularKana => "ik",
            ReadingInfo::ObsoleteKana => "ok",
            ReadingInfo::SearchOnlyKana => "sk",
        }
    }
    /// The marker of a bit index, at the specification level.
    pub open spec fn from_idx(i: u8) -> Option<ReadingInfo> {
        if i == 0 {
            Some(ReadingInfo::Gikun)
        } else if i == 1 {
            Some(ReadingInfo::IrregularKana)
        } else if i == 2 {
            Some(ReadingInfo::ObsoleteKana)
        } else if i == 3 {
            Some(ReadingInfo::SearchOnlyKana)
        } else {
            None
        }
    }

    /// Reading back the index of a marker yields the marker.
    pub proof fn lemma_from_idx_of_idx(x: ReadingInfo)
        ensures
            ReadingInfo::from_idx(x.idx()) == Some(x),
    {
    }

}

/// Fixed annotation markers.
#[derive(Clone, Copy, Debug, PartialEq, Eq, Structural)]
pub enum Dialect {
    /// bra
    Brazilian,
    /// hob
    HokkaidoBen,
    /// ksb
    KansaiBen,
    /// ktb
    KantouBen,
    /// kyb
    KyotoBen,
    /// kyu
    KyuushuuBen,
    /// nab
    NaganoBen,
    /// osb
    OsakaBen,
    /// rkb
    RyuukyuuBen,
    /// thb
    TouhokuBen,
    /// tsb
    TosaBen,
    /// tsug
    TsugaruBen,
}

impl Dialect {
    /// The stable bit index of this marker.
    pub open spec fn idx(self) -> u8 {
        match self {
            Dialect::Brazilian => 0,
            Dialect::HokkaidoBen => 1,
            Dialect::KansaiBen => 2,
            Dialect::KantouBen => 3,
            Dialect::KyotoBen => 4,
            Dialect::KyuushuuBen => 5,
            Dialect::NaganoBen => 6,
            Dialect::OsakaBen => 7,
            Dialect::RyuukyuuBen => 8,
            Dialect::TouhokuBen => 9,
            Dialect::TosaBen => 10,
            Dialect::TsugaruBen => 11,
        }
    }

    /// The stable bit index of this marker.
    pub fn index(self) -> (r: u8)
        ensures
            r == self.idx(),
            r < 12,
    {
        match self {
            Dialect::Brazilian => 0,
            Dialect::HokkaidoBen => 1,
            Dialect::KansaiBen => 2,
            Dialect::KantouBen => 3,
            Dialect::KyotoBen => 4,
            Dialect::KyuushuuBen => 5,
            Dialect::NaganoBen => 6,
            Dialect::OsakaBen => 7,
            Dialect::RyuukyuuBen => 8,
            Dialect::TouhokuBen => 9,
            Dialect::TosaBen => 10,
            Dialect::TsugaruBen => 11,
        }
    }

    /// The marker with the given bit index, if any.
    pub fn from_index(i: u8) -> (r: Option<Dialect>)
        ensures
            i < 12 ==> (r matches Some(v) && v.idx() == i),
            i >= 12 ==> r is None,
    {
        match i {
            0 => Some(Dialect::Brazilian),
            1 => Some(Dialect::HokkaidoBen),
            2 => Some(Dialect::KansaiBen),
            3 => Some(Dialect::KantouBen),
            4 => Some(Dialect::KyotoBen),
            5 => Some(Dialect::KyuushuuBen),
            6 => Some(Dialect::NaganoBen),
            7 => Some(Dialect::OsakaBen),
            8 => Some(Dialect::RyuukyuuBen),
            9 => Some(Dialect::TouhokuBen),
            10 => Some(Dialect::TosaBen),
            11 => Some(Dialect::TsugaruBen),
            _ => None,
        }
    }

    /// The stable short code of this marker, as a character sequence.
    pub open spec fn code_spec(self) -> Seq<char> {
        match self {
            Dialect::Brazilian => "bra"@,
            Dialect::HokkaidoBen => "hob"@,
            Dialect::KansaiBen => "ksb"@,
            Dialect::KantouBen => "ktb"@,
            Dialect::KyotoBen => "kyb"@,
            Dialect::KyuushuuBen => "kyu"@,
            Dialect::NaganoBen => "nab"@,
            Dialect::OsakaBen => "osb"@,
            Dialect::RyuukyuuBen => "rkb"@,
            Dialect::TouhokuBen => "thb"@,
            Dialect::TosaBen => "tsb"@,
            Dialect::TsugaruBen => "tsug"@,
        }
    }

    /// The stable short code of this marker.
    pub fn ident(self) -> (r: &'static str)
        ensures
            r@ == self.code_spec(),
    {
        match self {
            Dialect::Brazilian => "bra",
            Dialect::HokkaidoBen => "hob",
            Dialect::KansaiBen => "ksb",
            Dialect::KantouBen => "ktb",
            Dialect::KyotoBen => "kyb",
            Dialect::KyuushuuBen => "kyu",
            Dialect::NaganoBen => "nab",
            Dialect::OsakaBen => "osb",
            Dialect::RyuukyuuBen => "rkb",
            Dialect::TouhokuBen => "thb",
            Dialect::TosaBen => "tsb",
            Dialect::TsugaruBen => "tsug",
        }
    }
}

/// Fixed annotation markers.
#[derive(Clone, Copy, Debug, PartialEq, Eq, Structural)]
pub enum Field {
    /// agric
    Agric,
    /// anat
    Anat,
    /// archeol
    Archeol,
    /// archit
    Archit,
    /// art
    Art,
    /// astron
    Astron,
    /// audvid
    Audvid,
    /// aviat
    Aviat,
    /// baseb
    Baseb,
    /// biochem
    Biochem,
    /// biol
    Biol,
    /// bot
    Bot,
    /// Buddh
    Buddh,
    /// bus
    Bus,
    /// cards
    Cards,
    /// chem
    Chem,
    /// Christn
    Christn,
    /// cloth
    Cloth,
    /// comp
    Comp,
    /// cryst
    Cryst,
    /// dent
    Dent,
    /// ecol
    Ecol,
    /// econ
    Econ,
    /// elec
    Elec,
    /// electr
    Electr,
    /// embryo
    Embryo,
    /// engr
    Engr,
    /// ent
    Ent,
    /// film
    Film,
    /// finc
    Finc,
    /// fish
    Fish,
    /// food
    Food,
    /// gardn
    Gardn,
    /// genet
    Genet,
    /// geogr
    Geogr,
    /// geol
    Geol,
    /// geom
    Geom,
    /// go
    Go,
    /// golf
    Golf,
    /// gramm
    Gramm,
    /// grmyth
    Grmyth,
    /// hanaf
    Hanaf,
    /// horse
    Horse,
    /// kabuki
    Kabuki,
    /// law
    Law,
    /// ling
    Ling,
    /// logic
    Logic,
    /// MA
    Ma,
    /// mahj
    Mahj,
    /// manga
    Manga,
    /// math
    Math,
    /// mech
    Mech,
    /// med
    Med,
    /// met
    Met,
    /// mil
    Mil,
    /// mining
    Mining,
    /// music
    Music,
    /// noh
    Noh,
    /// ornith
    Ornith,
    /// paleo
    Paleo,
    /// pathol
    Pathol,
    /// pharm
    Pharm,
    /// phil
    Phil,
    /// photo
    Photo,
    /// physics
    Physics,
    /// physiol
    Physiol,
    /// politics
    Politics,
    /// print
    Print,
    /// psy
    Psy,
    /// psyanal
    Psyanal,
    /// psych
    Psych,
    /// rail
    Rail,
    /// rommyth
    Rommyth,
    /// Shinto
    Shinto,
    /// shogi
    Shogi,
    /// ski
    Ski,
    /// sports
    Sports,
    /// stat
    Stat,
    /// stockm
    Stockm,
    /// sumo
    Sumo,
    /// telec
    Telec,
    /// tradem
    Tradem,
    /// tv
    Tv,
    /// vidg
    Vidg,
    /// zool
    Zool,
}

impl Field {
    /// The stable bit index of this marker.
    pub open spec fn idx(self) -> u8 {
        match self {
            Field::Agric => 0,
            Field::Anat => 1,
            Field::Archeol => 2,
            Field::Archit => 3,
            Field::Art => 4,
            Field::Astron => 5,
            Field::Audvid => 6,
            Field::Aviat => 7,
            Field::Baseb => 8,
            Field::Biochem => 9,
            Field::Biol => 10,
            Field::Bot => 11,
            Field::Buddh => 12,
            Field::Bus => 13,
            Field::Cards => 14,
            Field::Chem => 15,
            Field::Christn => 16,
            Field::Cloth => 17,
            Field::Comp => 18,
            Field::Cryst => 19,
            Field::Dent => 20,
            Field::Ecol => 21,
            Field::Econ => 22,
            Field::Elec => 23,
            Field::Electr => 24,
            Field::Embryo => 25,
            Field::Engr => 26,
            Field::Ent => 27,
            Field::Film => 28,
            Field::Finc => 29,
            Field::Fish => 30,
            Field::Food => 31,
            Field::Gardn => 32,
            Field::Genet => 33,
            Field::Geogr => 34,
            Field::Geol => 35,
            Field::Geom => 36,
            Field::Go => 37,
            Field::Golf => 38,
            Field::Gramm => 39,
            Field::Grmyth => 40,
            Field::Hanaf => 41,
            Field::Horse => 42,
            Field::Kabuki => 43,
            Field::Law => 44,
            Field::Ling => 45,
            Field::Logic => 46,
            Field::Ma => 47,
            Field::Mahj => 48,
            Field::Manga => 49,
            Field::Math => 50,
            Field::Mech => 51,
            Field::Med => 52,
            Field::Met => 53,
            Field::Mil => 54,
            Field::Mining => 55,
            Field::Music => 56,
            Field::Noh => 57,
            Field::Ornith => 58,
            Field::Paleo => 59,
            Field::Pathol => 60,
            Field::Pharm => 61,
            Field::Phil => 62,
            Field::Photo => 63,
            Field::Physics => 64,
            Field::Physiol => 65,
            Field::Politics => 66,
            Field::Print => 67,
            Field::Psy => 68,
            Field::Psyanal => 69,
            Field::Psych => 70,
            Field::Rail => 71,
            Field::Rommyth => 72,
            Field::Shinto => 73,
            Field::Shogi => 74,
            Field::Ski => 75,
            Field::Sports => 76,
            Field::Stat => 77,
            Field::Stockm => 78,
            Field::Sumo => 79,
            Field::Telec => 80,
            Field::Tradem => 81,
            Field::Tv => 82,
            Field::Vidg => 83,
            Field::Zool => 84,
        }
    }

    /// The stable bit index of this marker.
    pub fn index(self) -> (r: u8)
        ensures
            r == self.idx(),
            r < 85,
    {
        match self {
            Field::Agric => 0,
            Field::Anat => 1,
            Field::Archeol => 2,
            Field::Archit => 3,
            Field::Art => 4,
            Field::Astron => 5,
            Field::Audvid => 6,
            Field::Aviat => 7,
            Field::Baseb => 8,
            Field::Biochem => 9,
            Field::Biol => 10,
            Field::Bot => 11,
            Field::Buddh => 12,
            Field::Bus => 13,
            Field::Cards => 14,
            Field::Chem => 15,
            Field::Christn => 16,
            Field::Cloth => 17,
            Field::Comp => 18,
            Field::Cryst => 19,
            Field::Dent => 20,
            Field::Ecol => 21,
            Field::Econ => 22,
            Field::Elec => 23,
            Field::Electr => 24,
            Field::Embryo => 25,
            Field::Engr => 26,
            Field::Ent => 27,
            Field::Film => 28,
            Field::Finc => 29,
            Field::Fish => 30,
            Field::Food => 31,
            Field::Gardn => 32,
            Field::Genet => 33,
            Field::Geogr => 34,
            Field::Geol => 35,
            Field::Geom => 36,
            Field::Go => 37,
            Field::Golf => 38,
            Field::Gramm => 39,
            Field::Grmyth => 40,
            Field::Hanaf => 41,
            Field::Horse => 42,
            Field::Kabuki => 43,
            Field::Law => 44,
            Field::Ling => 45,
            Field::Logic => 46,
            Field::Ma => 47,
            Field::Mahj => 48,
            Field::Manga => 49,
            Field::Math => 50,
            Field::Mech => 51,
            Field::Med => 52,
            Field::Met => 53,
            Field::Mil => 54,
            Field::Mining => 55,
            Field::Music => 56,
            Field::Noh => 57,
            Field::Ornith => 58,
            Field::Paleo => 59,
            Field::Pathol => 60,
            Field::Pharm => 61,
            Field::Phil => 62,
            Field::Photo => 63,
            Field::Physics => 64,
            Field::Physiol => 65,
            Field::Politics => 66,
            Field::Print => 67,
            Field::Psy => 68,
            Field::Psyanal => 69,
            Field::Psych => 70,
            Field::Rail => 71,
            Field::Rommyth => 72,
            Field::Shinto => 73,
            Field::Shogi => 74,
            Field::Ski => 75,
            Field::Sports => 76,
            Field::Stat => 77,
            Field::Stockm => 78,
            Field::Sumo => 79,
            Field::Telec => 80,
            Field::Tradem => 81,
            Field::Tv => 82,
            Field::Vidg => 83,
            Field::Zool => 84,
        }
    }

    /// The marker with the given bit index, if any.
    pub fn from_index(i: u8) -> (r: Option<Field>)
        ensures
            i < 85 ==> (r matches Some(v) && v.idx() == i),
            i >= 85 ==> r is None,
    {
        match i {
            0 => Some(Field::Agric),
            1 => Some(Field::Anat),
            2 => Some(Field::Archeol),
            3 => Some(Field::Archit),
            4 => Some(Field::Art),
            5 => Some(Field::Astron),
            6 => Some(Field::Audvid),
            7 => Some(Field::Aviat),
            8 => Some(Field::Baseb),
            9 => Some(Field::Biochem),
            10 => Some(Field::Biol),
            11 => Some(Field::Bot),
            12 => Some(Field::Buddh),
            13 => Some(Field::Bus),
            14 => Some(Field::Cards),
            15 => Some(Field::Chem),
            16 => Some(Field::Christn),
            17 => Some(Field::Cloth),
            18 => Some(Field::Comp),
            19 => Some(Field::Cryst),
            20 => Some(Field::Dent),
            21 => Some(Field::Ecol),
            22 => Some(Field::Econ),
            23 => Some(Field::Elec),
            24 => Some(Field::Electr),
            25 => Some(Field::Embryo),
            26 => Some(Field::Engr),
            27 => Some(Field::Ent),
            28 => Some(Field::Film),
            29 => Some(Field::Finc),
            30 => Some(Field::Fish),
            31 => Some(Field::Food),
            32 => Some(Field::Gardn),
            33 => Some(Field::Genet),
            34 => Some(Field::Geogr),
            35 => Some(Field::Geol),
            36 => Some(Field::Geom),
            37 => Some(Field::Go),
            38 => Some(Field::Golf),
            39 => Some(Field::Gramm),
            40 => Some(Field::Grmyth),
            41 => Some(Field::Hanaf),
            42 => Some(Field::Horse),
            43 => Some(Field::Kabuki),
            44 => Some(Field::Law),
            45 => Some(Field::Ling),
            46 => Some(Field::Logic),
            47 => Some(Field::Ma),
            48 => Some(Field::Mahj),
            49 => Some(Field::Manga),
            50 => Some(Field::Math),
            51 => Some(Field::Mech),
            52 => Some(Field::Med),
            53 => Some(Field::Met),
            54 => Some(Field::Mil),
            55 => Some(Field::Mining),
            56 => Some(Field::Music),
            57 => Some(Field::Noh),
            58 => Some(Field::Ornith),
            59 => Some(Field::Paleo),
            60 => Some(Field::Pathol),
            61 => Some(Field::Pharm),
            62 => Some(Field::Phil),
            63 => Some(Field::Photo),
            64 => Some(Field::Physics),
            65 => Some(Field::Physiol),
            66 => Some(Field::Politics),
            67 => Some(Field::Print),
            68 => Some(Field::Psy),
            69 => Some(Field::Psyanal),
            70 => Some(Field::Psych),
            71 => Some(Field::Rail),
            72 => Some(Field::Rommyth),
            73 => Some(Field::Shinto),
            74 => Some(Field::Shogi),
            75 => Some(Field::Ski),
            76 => Some(Field::Sports),
            77 => Some(Field::Stat),
            78 => Some(Field::Stockm),
            79 => Some(Field::Sumo),
            80 => Some(Field::Telec),
            81 => Some(Field::Tradem),
            82 => Some(Field::Tv),
            83 => Some(Field::Vidg),
            84 => Some(Field::Zool),
            _ => None,
        }
    }

    /// The stable short code of this marker, as a character sequence.
    pub open spec fn code_spec(self) -> Seq<char> {
        match self {
            Field::Agric => "agric"@,
            Field::Anat => "anat"@,
            Field::Archeol => "archeol"@,
            Field::Archit => "archit"@,
            Field::Art => "art"@,
            Field::Astron => "astron"@,
            Field::Audvid => "audvid"@,
            Field::Aviat => "aviat"@,
            Field::Baseb => "baseb"@,
            Field::Biochem => "biochem"@,
            Field::Biol => "biol"@,
            Field::Bot => "bot"@,
            Field::Buddh => "Buddh"@,
            Field::Bus => "bus"@,
            Field::Cards => "cards"@,
            Field::Chem => "chem"@,
            Field::Christn => "Christn"@,
            Field::Cloth => "cloth"@,
            Field::Comp => "comp"@,
            Field::Cryst => "cryst"@,
            Field::Dent => "dent"@,
            Field::Ecol => "ecol"@,
            Field::Econ => "econ"@,
            Field::Elec => "elec"@,
            Field::Electr => "electr"@,
            Field::Embryo => "embryo"@,
            Field::Engr => "engr"@,
            Field::Ent => "ent"@,
            Field::Film => "film"@,
            Field::Finc => "finc"@,
            Field::Fish => "fish"@,
            Field::Food => "food"@,
            Field::Gardn => "gardn"@,
            Field::Genet => "genet"@,
            Field::Geogr => "geogr"@,
            Field::Geol => "geol"@,
            Field::Geom => "geom"@,
            Field::Go => "go"@,
            Field::Golf => "golf"@,
            Field::Gramm => "gramm"@,
            Field::Grmyth => "grmyth"@,
            Field::Hanaf => "hanaf"@,
            Field::Horse => "horse"@,
            Field::Kabuki => "kabuki"@,
            Field::Law => "law"@,
            Field::Ling => "ling"@,
            Field::Logic => "logic"@,
            Field::Ma => "MA"@,
            Field::Mahj => "mahj"@,
            Field::Manga => "manga"@,
            Field::Math => "math"@,
            Field::Mech => "mech"@,
            Field::Med => "med"@,
            Field::Met => "met"@,
            Field::Mil => "mil"@,
            Field::Mining => "mining"@,
            Field::Music => "music"@,
            Field::Noh => "noh"@,
            Field::Ornith => "ornith"@,
            Field::Paleo => "paleo"@,
            Field::Pathol => "pathol"@,
            Field::Pharm => "pharm"@,
            Field::Phil => "phil"@,
            Field::Photo => "photo"@,
            Field::Physics => "physics"@,
            Field::Physiol => "physiol"@,
            Field::Politics => "politics"@,
            Field::Print => "print"@,
            Field::Psy => "psy"@,
            Field::Psyanal => "psyanal"@,
            Field::Psych => "psych"@,
            Field::Rail => "rail"@,
            Field::Rommyth => "rommyth"@,
            Field::Shinto => "Shinto"@,
            Field::Shogi => "shogi"@,
            Field::Ski => "ski"@,
            Field::Sports => "sports"@,
            Field::Stat => "stat"@,
            Field::Stockm => "stockm"@,
            Field::Sumo => "sumo"@,
            Field::Telec => "telec"@,
            Field::Tradem => "tradem"@,
            Field::Tv => "tv"@,
            Field::Vidg => "vidg"@,
            Field::Zool => "zool"@,
        }
    }

    /// The stable short code of this marker.
    pub fn ident(self) -> (r: &'static str)
        ensures
            r@ == self.code_spec(),
    {
        match self {
            Field::Agric => "agric",
            Field::Anat => "anat",
            Field::Archeol => "archeol",
            Field::Archit => "archit",
            Field::Art => "art",
            Field::Astron => "astron",
            Field::Audvid => "audvid",
            Field::Aviat => "aviat",
            Field::Baseb => "baseb",
            Field::Biochem => "biochem",
            Field::Biol => "biol",
            Field::Bot => "bot",
            Field::Buddh => "Buddh",
            Field::Bus => "bus",
            Field::Cards => "cards",
            Field::Chem => "chem",
            Field::Christn => "Christn",
            Field::Cloth => "cloth",
            Field::Comp => "comp",
            Field::Cryst => "cryst",
            Field::Dent => "dent",
            Field::Ecol => "ecol",
            Field::Econ => "econ",
            Field::Elec => "elec",
            Field::Electr => "electr",
            Field::Embryo => "embryo",
            Field::Engr => "engr",
            Field::Ent => "ent",
            Field::Film => "film",
            Field::Finc => "finc",
            Field::Fish => "fish",
            Field::Food => "food",
            Field::Gardn => "gardn",
            Field::Genet => "genet",
            Field::Geogr => "geogr",
            Field::Geol => "geol",
            Field::Geom => "geom",
            Field::Go => "go",
            Field::Golf => "golf",
            Field::Gramm => "gramm",
            Field::Grmyth => "grmyth",
            Field::Hanaf => "hanaf",
            Field::Horse => "horse",
            Field::Kabuki => "kabuki",
            Field::Law => "law",
            Field::Ling => "ling",
            Field::Logic => "logic",
            Field::Ma => "MA",
            Field::Mahj => "mahj",
            Field::Manga => "manga",
            Field::Math => "math",
            Field::Mech => "mech",
            Field::Med => "med",
            Field::Met => "met",
            Field::Mil => "mil",
            Field::Mining => "mining",
            Field::Music => "music",
            Field::Noh => "noh",
            Field::Ornith => "ornith",
            Field::Paleo => "paleo",
            Field::Pathol => "pathol",
            Field::Pharm => "pharm",
            Field::Phil => "phil",
            Field::Photo => "photo",
            Field::Physics => "physics",
            Field::Physiol => "physiol",
            Field::Politics => "politics",
            Field::Print => "print",
            Field::Psy => "psy",
            Field::Psyanal => "psyanal",
            Field::Psych => "psych",
            Field::Rail => "rail",
            Field::Rommyth => "rommyth",
            Field::Shinto => "Shinto",
            Field::Shogi => "shogi",
            Field::Ski => "ski",
            Field::Sports => "sports",
            Field::Stat => "stat",
            Field::Stockm => "stockm",
            Field::Sumo => "sumo",
            Field::Telec => "telec",
            Field::Tradem => "tradem",
            Field::Tv => "tv",
            Field::Vidg => "vidg",
            Field::Zool => "zool",
        }
    }
}

} // verus!
