//! A localization engine: message patterns are compiled from per-locale
//! resource text, kept in an immutable store, and formatted against named
//! arguments. Every function is verified against a mathematical model of the
//! pattern language.

pub mod args;
pub mod bundle;
pub mod compiler;
pub mod formatter;
pub mod grammar;
pub mod laws;
pub mod log_id;
pub mod pattern;
pub mod scanner;
pub mod store;
pub mod table;
pub mod text;
