//! Core intermediate representation of a Standard ML compiler: typed
//! expressions, patterns and declarations, the type language with
//! generalization and instantiation, record rows, match coverage, the
//! built-in table, and the driver's command-line settings.

pub mod names;
pub mod types;
pub mod builtin;
pub mod core_ir;
pub mod config;
pub mod record;
pub mod matching;
