//! The meaning of GPS time stamps, as bit 0 of the global encoding field.

use vstd::prelude::*;

verus! {

/// How the GPS time of each point is counted.
#[derive(Clone, Copy, Debug, PartialEq, Eq, Structural)]
pub enum GpsTimeType {
    /// Seconds into the GPS week.
    Week,
    /// Standard GPS time, minus 1e9.
    Standard,
}

impl GpsTimeType {
    /// The time type that a global encoding field declares.
    pub open spec fn spec_from_encoding(encoding: u16) -> GpsTimeType {
        if encoding & 1 == 1 {
            GpsTimeType::Standard
        } else {
            GpsTimeType::Week
        }
    }

    /// The global encoding field that declares this time type.
    pub open spec fn spec_to_encoding(self) -> u16 {
        match self {
            GpsTimeType::Week => 0,
            GpsTimeType::Standard => 1,
        }
    }

    /// Reads the time type from a global encoding field.
    pub fn from_encoding(encoding: u16) -> (r: GpsTimeType)
        ensures
            r == Self::spec_from_encoding(encoding),
    {
        if encoding & 1 == 1 {
            GpsTimeType::Standard
        } else {
            GpsTimeType::Week
        }
    }

    /// Writes the time type as a global encoding field.
    pub fn to_encoding(&self) -> (r: u16)
        ensures
            r == self.spec_to_encoding(),
    {
        match self {
            GpsTimeType::Week => 0,
            GpsTimeType::Standard => 1,
        }
    }

    /// Reading back what was written gives the same time type.
    pub proof fn lemma_encoding_round_trip(self)
        ensures
            Self::spec_from_encoding(self.spec_to_encoding()) == self,
    {
        assert(0u16 & 1 == 0) by (bit_vector);
        assert(1u16 & 1 == 1) by (bit_vector);
    }
}

} // verus!
