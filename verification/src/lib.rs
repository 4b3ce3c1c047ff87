//! Word persistence and in-memory mirroring for a personal vocabulary tool:
//! a reversible text codec for grammatical classes, a fluent constructor for
//! word records, and a store that keeps an on-disk table of words and a
//! synchronized in-memory mirror.

pub mod db_util;
pub mod word_builder;
pub mod word_model;
