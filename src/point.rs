//! Point format descriptors.

use crate::error::Error;
use vstd::prelude::*;

verus! {

/// The highest point format id this library knows.
pub const MAX_FORMAT_ID: u8 = 10;

/// Point format ids with this bit set mark compressed point data.
pub const COMPRESSED_BIT: u8 = 128;

/// Which attribute layout a point record uses, and whether the points are compressed.
#[derive(Clone, Copy, Debug, PartialEq, Eq, Structural)]
pub struct Format {
    pub id: u8,
    pub is_compressed: bool,
}

/// Size in bytes of a point record of each format, without extra bytes.
pub open spec fn record_len(id: u8) -> u16 {
    if id == 0 {
        20
    } else if id == 1 {
        28
    } else if id == 2 {
        26
    } else if id == 3 {
        34
    } else if id == 4 {
        57
    } else if id == 5 {
        63
    } else if id == 6 {
        30
    } else if id == 7 {
        36
    } else if id == 8 {
        38
    } else if id == 9 {
        59
    } else {
        67
    }
}

impl Format {
    /// The format ids this library knows.
    pub open spec fn is_valid(self) -> bool {
        self.id <= MAX_FORMAT_ID
    }

    /// The format that a raw format id names, if any.
    pub open spec fn spec_from_id(n: u8) -> Option<Format> {
        let is_compressed = n >= COMPRESSED_BIT;
        let id = if is_compressed { (n - COMPRESSED_BIT) as u8 } else { n };
        if id <= MAX_FORMAT_ID {
            Some(Format { id, is_compressed })
        } else {
            None
        }
    }

    /// The raw format id of a valid format.
    pub open spec fn spec_to_u8(self) -> u8 {
        if self.is_compressed {
            (self.id + COMPRESSED_BIT) as u8
        } else {
            self.id
        }
    }

    /// Decodes a raw point format id.
    pub fn new(n: u8) -> (r: Result<Format, Error>)
        ensures
            match r {
                Ok(f) => Self::spec_from_id(n) == Some(f),
                Err(e) => Self::spec_from_id(n) is None && e == Error::Format(n),
            },
    {
        let is_compressed = n >= COMPRESSED_BIT;
        let id = if is_compressed { n - COMPRESSED_BIT } else { n };
        if id <= MAX_FORMAT_ID {
            Ok(Format { id, is_compressed })
        } else {
            Err(Error::Format(n))
        }
    }

    /// Encodes this format as a raw point format id; fails if the id is not one this library
    /// knows.
    pub fn to_u8(&self) -> (r: Result<u8, Error>)
        ensures
            match r {
                Ok(n) => self.is_valid() && n == self.spec_to_u8(),
                Err(e) => !self.is_valid() && e == Error::Format(self.id),
            },
    {
        if self.id > MAX_FORMAT_ID {
            Err(Error::Format(self.id))
        } else if self.is_compressed {
            Ok(self.id + COMPRESSED_BIT)
        } else {
            Ok(self.id)
        }
    }

    /// The size in bytes of one point record of this format.
    pub fn len(&self) -> (r: u16)
        requires
            self.is_valid(),
        ensures
            r == record_len(self.id),
    {
        let id = self.id;
        if id == 0 {
            20
        } else if id == 1 {
            28
        } else if id == 2 {
            26
        } else if id == 3 {
            34
        } else if id == 4 {
            57
        } else if id == 5 {
            63
        } else if id == 6 {
            30
        } else if id == 7 {
            36
        } else if id == 8 {
            38
        } else if id == 9 {
            59
        } else {
            67
        }
    }

    /// A valid format survives encoding and decoding.
    pub proof fn lemma_id_round_trip(self)
        requires
            self.is_valid(),
        ensures
            Self::spec_from_id(self.spec_to_u8()) == Some(self),
    {
    }
}

impl Default for Format {
    /// Format 0, uncompressed.
    fn default() -> (r: Format)
        ensures
            r.id == 0 && !r.is_compressed,
    {
        Format { id: 0, is_compressed: false }
    }
}

} // verus!
