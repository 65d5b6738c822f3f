//! The default card capability container of the PIV applet, served until a
//! host writes one of its own.
use vstd::prelude::*;

verus! {

/// The container's wire bytes, the mandatory elements in table order: `F0`,
/// `F1` and `F2` without a value, and `F5` with the data model number.
pub const CCC: [u8; 9] = [0xF0, 0x00, 0xF1, 0x00, 0xF2, 0x00, 0xF5, 0x01, 0x10];

} // verus!
