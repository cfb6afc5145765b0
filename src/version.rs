//! Format revisions and what each of them can hold.

use vstd::prelude::*;

verus! {

/// A capability that some revisions of the format offer.
#[derive(Clone, Copy, Debug, PartialEq, Eq, Structural)]
pub enum Feature {
    /// Extended variable length records, stored after the point data.
    Evlrs,
    /// 64-bit point counts in the large-file block of the header.
    LargeFiles,
    /// Waveform data packets.
    Waveforms,
}

/// A revision of the format, as a (major, minor) pair.
#[derive(Clone, Copy, Debug, PartialEq, Eq, Structural)]
pub struct Version {
    pub major: u8,
    pub minor: u8,
}

/// Size in bytes of the fixed part of the header for revisions 1.0 to 1.2.
pub const HEADER_SIZE_1_0: u16 = 227;

/// Size in bytes of the fixed part of the header for revision 1.3.
pub const HEADER_SIZE_1_3: u16 = 235;

/// Size in bytes of the fixed part of the header for revision 1.4.
pub const HEADER_SIZE_1_4: u16 = 375;

impl Version {
    /// The revisions this library knows: 1.0 through 1.4.
    pub open spec fn is_known(self) -> bool {
        self.major == 1 && self.minor <= 4
    }

    /// The capability table.
    pub open spec fn spec_supports(self, feature: Feature) -> bool {
        self.major == 1 && match feature {
            Feature::Evlrs => self.minor == 4,
            Feature::LargeFiles => self.minor == 4,
            Feature::Waveforms => self.minor == 3 || self.minor == 4,
        }
    }

    /// The size of the fixed part of the raw header.
    pub open spec fn spec_header_size(self) -> u16 {
        if self.spec_supports(Feature::Evlrs) {
            HEADER_SIZE_1_4
        } else if self.spec_supports(Feature::Waveforms) {
            HEADER_SIZE_1_3
        } else {
            HEADER_SIZE_1_0
        }
    }

    /// Creates a version from its two parts.
    pub fn new(major: u8, minor: u8) -> (r: Version)
        ensures
            r.major == major,
            r.minor == minor,
    {
        Version { major, minor }
    }

    /// Returns true if this library knows this revision.
    pub fn is_supported(&self) -> (r: bool)
        ensures
            r == self.is_known(),
    {
        self.major == 1 && self.minor <= 4
    }

    /// Returns true if this revision offers the feature.
    pub fn supports(&self, feature: Feature) -> (r: bool)
        ensures
            r == self.spec_supports(feature),
    {
        if self.major != 1 {
            return false;
        }
        match feature {
            Feature::Evlrs => self.minor == 4,
            Feature::LargeFiles => self.minor == 4,
            Feature::Waveforms => self.minor == 3 || self.minor == 4,
        }
    }

    /// Returns the size of the fixed part of the raw header for this revision.
    pub fn header_size(&self) -> (r: u16)
        ensures
            r == self.spec_header_size(),
    {
        if self.supports(Feature::Evlrs) {
            HEADER_SIZE_1_4
        } else if self.supports(Feature::Waveforms) {
            HEADER_SIZE_1_3
        } else {
            HEADER_SIZE_1_0
        }
    }
}

impl From<(u8, u8)> for Version {
    fn from(pair: (u8, u8)) -> (r: Version) {
        Version { major: pair.0, minor: pair.1 }
    }
}

impl vstd::std_specs::convert::FromSpecImpl<(u8, u8)> for Version {
    open spec fn obeys_from_spec() -> bool {
        true
    }

    open spec fn from_spec(pair: (u8, u8)) -> Version {
        Version { major: pair.0, minor: pair.1 }
    }
}

impl Default for Version {
    /// Revision 1.2.
    fn default() -> (r: Version)
        ensures
            r.major == 1 && r.minor == 2,
    {
        Version { major: 1, minor: 2 }
    }
}

} // verus!
