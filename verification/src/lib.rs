//! Offline triage of serialized "Encrypted Document Encryption Key" (EDEK)
//! records: decode a textual blob (hex or base64), parse it as a wire-format
//! container of encrypted-key records, and classify each input line against a
//! set of predicate filters.

pub mod decode;
pub mod filters;
pub mod parser;
pub mod pipeline;
pub mod schema;

use vstd::prelude::*;

verus! {

/// Textual encoding of an EDEK blob: hexadecimal (with optional `0x`/`0X`
/// prefix) or standard base64 with padding.
#[derive(Clone, Copy, PartialEq, Eq, Structural, Debug)]
pub enum Mode {
    Hex,
    Base64,
}

} // verus!
