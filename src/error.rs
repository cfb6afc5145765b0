//! The errors of decoding and encoding a header.

use crate::date::Date;
use crate::version::Version;
use vstd::prelude::*;

verus! {

/// Why a header could not be decoded or encoded. Each variant carries the offending value.
#[derive(Clone, Debug, PartialEq, Eq)]
pub enum Error {
    /// The version is not one of the revisions this library knows.
    UnsupportedVersion(Version),
    /// The bytes end before the header does; the value is their length.
    Truncated(usize),
    /// The file does not start with the expected signature.
    Signature([u8; 4]),
    /// The header size that a raw header declares is smaller than its version's fixed part.
    TooSmall(u16),
    /// The header size, fixed part plus padding, does not fit in 16 bits.
    TooLarge(u128),
    /// More extended variable length records than a 32-bit count holds.
    TooManyEvlrs(usize),
    /// A point count that this version cannot hold.
    TooManyPoints(u64, Version),
    /// More variable length records than a 32-bit count holds.
    TooManyVlrs(usize),
    /// The offset to the point data does not fit in 32 bits.
    OffsetToPointDataTooLarge(u128),
    /// A return number that the version cannot hold.
    ReturnNumber(u8, Option<Version>),
    /// A point format id that is not recognized.
    Format(u8),
    /// A creation date that is not a date of the calendar, or whose year the raw field cannot
    /// hold.
    InvalidDate(Date),
    /// A string whose encoding is longer than its fixed-width field.
    StringTooLong(String),
    /// A fixed-width text field that is not valid UTF-8 up to its first NUL.
    InvalidText([u8; 32]),
}

} // verus!
