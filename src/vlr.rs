//! Variable length records.

use vstd::prelude::*;

verus! {

/// Bytes that a standard variable length record takes before its data.
pub const VLR_HEADER_LEN: usize = 54;

/// The largest total length that a standard variable length record can have.
pub const MAX_VLR_LEN: usize = 65535;

/// A tagged block of metadata attached to the file.
#[derive(Clone, Debug)]
pub struct Vlr {
    pub user_id: String,
    pub record_id: u16,
    pub description: String,
    pub data: Vec<u8>,
    /// Asks for this record to be written as an extended one, where the version allows.
    pub is_extended: bool,
}

impl Vlr {
    /// The encoded length: the fixed record header plus the data.
    pub open spec fn spec_len(self) -> int {
        VLR_HEADER_LEN + self.data@.len()
    }

    /// Returns true if the record cannot be written as a standard one, whatever the version.
    pub open spec fn is_oversized(self) -> bool {
        self.spec_len() > MAX_VLR_LEN
    }

    /// Returns the encoded length of this record.
    pub fn len(&self) -> (r: usize)
        requires
            self.spec_len() <= usize::MAX,
        ensures
            r == self.spec_len(),
    {
        VLR_HEADER_LEN + self.data.len()
    }
}

impl Default for Vlr {
    /// An empty, standard record.
    fn default() -> (r: Vlr)
        ensures
            r.user_id@.len() == 0,
            r.record_id == 0,
            r.description@.len() == 0,
            r.data@.len() == 0,
            !r.is_extended,
    {
        Vlr {
            user_id: String::new(),
            record_id: 0,
            description: String::new(),
            data: Vec::new(),
            is_extended: false,
        }
    }
}

} // verus!
