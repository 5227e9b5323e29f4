//! Offline Japanese-English dictionary engine.
//!
//! A pre-built dense binary database holds lexical entries and kanji
//! character records. [`store::Store::load`] validates such a buffer and
//! exposes zero-copy accessors and indices over it; the conjugation engine
//! in [`conjugation`] expands a headword into its full paradigm of inflected
//! surface forms; and [`database::Database`] combines the two to answer
//! `search` and `analyze` queries.

pub mod codec;
pub mod conjugation;
pub mod database;
pub mod elements;
pub mod entities;
pub mod sets;
pub mod store;
pub mod tables;
pub mod text;
