//! Human-readable formatting of byte counts, done by the `byte-unit` crate.
//!
//! The exact text is a pure function of the byte count; the library gives it
//! the name `formatted_size` and states nothing further about it.

use vstd::prelude::*;

verus! {

/// The human-readable text that `byte_unit` renders for a byte count, with
/// binary multiples.  What the text is on a given count is left unstated:
/// only that it depends on the count alone.
pub uninterp spec fn formatted_size(bytes: u128) -> Seq<char>;

/// Relies on byte_unit::Byte: `from_bytes(byte).get_appropriate_unit(true)`
/// picks the binary unit fitting the count, and its display renders the
/// value and the unit's name.  The text depends on the count alone.
#[verifier::external_body]
pub fn size(byte: u128) -> (r: String)
    ensures
        r@ == formatted_size(byte),
{
    let size = byte_unit::Byte::from_bytes(byte);
    size.get_appropriate_unit(true).to_string()
}

} // verus!
