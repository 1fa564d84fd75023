//! A parser and value model for the dotted "levelspec" notation that names a
//! production entity at one of three nesting levels: show, sequence, shot.
//!
//! A levelspec string is `SHOW`, `SHOW.SEQ` or `SHOW.SEQ.SHOT`, where each
//! segment is either an alphanumeric token or the wildcard marker `%`, and the
//! show token must not start with a digit. `LevelSpec::new` parses such a
//! string into a [`LevelSpec`], whose three segments are [`LevelType`] values.

pub mod errors;
pub mod leveltype;
pub mod lspec;
pub mod parse_string;

pub use errors::LSpecError;
pub use leveltype::LevelType;
pub use lspec::LevelSpec;
