//! Rendering of enumeration variant names as strings under a configurable
//! naming policy (a case style, and optionally the enumeration's name put in
//! front), together with the inverse lookup used to read such strings back.
//!
//! - `ascii`: ASCII letter case of characters and strings.
//! - `string_transform`: splitting identifiers into words and the eight case
//!   styles.
//! - `options`: the configuration of a mapping, read from attribute
//!   parameters.
//! - `guard`: refusing enumerations that already derive a serializer.
//! - `mapping`: the string table, its reverse index, and the error for text
//!   that names no variant.
//! - `enum_string`: the steps above, in order, for one enumeration.

pub mod ascii;
pub mod enum_string;
pub mod guard;
pub mod mapping;
pub mod options;
pub mod string_transform;
