//! The validated header and its mapping to and from the raw header.

use crate::date::{is_valid_ordinal_date, Date};
use crate::error::Error;
use crate::gps_time_type::GpsTimeType;
use crate::point::{record_len, Format};
use crate::raw;
use crate::text::{decode_field, encode_field, fits_field, padded, text_bytes};
use crate::transform::{default_transforms, zero_bounds, Bounds, Transform, Vector, DEFAULT_SCALE_BITS};
use crate::version::{Feature, Version};
use crate::vlr::{Vlr, MAX_VLR_LEN, VLR_HEADER_LEN};
use std::collections::HashMap;
use vstd::prelude::*;
use vstd::utf8::{decode_utf8, encode_utf8, valid_utf8};

verus! {

/// Metadata describing the layout, source, and interpretation of the points.
#[derive(Clone, Debug)]
pub struct Header {
    /// A project-wide unique ID for the file.
    pub file_source_id: u16,
    /// The time type for GPS time.
    pub gps_time_type: GpsTimeType,
    /// Optional globally-unique identifier.
    pub guid: [u8; 16],
    /// The format revision of this file.
    pub version: Version,
    /// The system that produced this file.
    pub system_identifier: String,
    /// The software which generated these data.
    pub generating_software: String,
    /// The date these data were collected; `None` if the raw header named no valid date.
    pub date: Option<Date>,
    /// Optional and discouraged padding between the header and the records.
    pub padding: Vec<u8>,
    /// Optional and discouraged padding between the records and the points.
    pub vlr_padding: Vec<u8>,
    /// The format of the points.
    pub point_format: Format,
    /// The transform of each axis between stored integers and physical coordinates.
    pub transforms: Vector<Transform>,
    /// The bounds of the points.
    pub bounds: Bounds,
    /// The number of points.
    pub number_of_points: u64,
    /// The number of points of each return number.
    pub number_of_points_by_return: HashMap<u8, u64>,
    /// Variable length records, standard and extended alike.
    pub vlrs: Vec<Vlr>,
}

/// The per-return counts that a slice of slots holds: slot `i` counts return number `i + 1`,
/// and empty slots are left out.
pub open spec fn return_map(counts: Seq<u64>) -> Map<u8, u64> {
    Map::new(
        |k: u8| 1 <= k <= counts.len() && counts[k - 1] > 0,
        |k: u8| counts[k - 1],
    )
}

/// The number of points that a raw header declares: the legacy count where it is not zero,
/// else the large-file count, else zero.
pub open spec fn points_from_raw(raw: raw::Header) -> u64 {
    if raw.number_of_point_records > 0 {
        raw.number_of_point_records as u64
    } else {
        match raw.large_file {
            Some(f) => f.number_of_point_records,
            None => 0,
        }
    }
}

/// The count that a raw header declares for return number `k` (1 to 15), slot by slot: the
/// legacy slot where `k` has one and it is not zero, else the large-file slot, else zero.
pub open spec fn raw_return_count(raw: raw::Header, k: int) -> u64 {
    if k <= LEGACY_MAX_RETURN && raw.number_of_points_by_return[k - 1] > 0 {
        raw.number_of_points_by_return[k - 1] as u64
    } else {
        match raw.large_file {
            Some(f) => f.number_of_points_by_return[k - 1],
            None => 0,
        }
    }
}

/// The 15 per-return slots that a raw header declares.
pub open spec fn raw_return_slots(raw: raw::Header) -> Seq<u64> {
    Seq::new(15, |i: int| raw_return_count(raw, i + 1))
}

/// The per-return counts that a raw header declares: the slots that are not zero.
pub open spec fn by_return_from_raw(raw: raw::Header) -> Map<u8, u64> {
    return_map(raw_return_slots(raw))
}

/// The creation date that a raw header names, if it is one.
pub open spec fn date_from_raw(raw: raw::Header) -> Option<Date> {
    if is_valid_ordinal_date(raw.file_creation_year as int, raw.file_creation_day_of_year as int) {
        Some(Date { year: raw.file_creation_year as i32, ordinal: raw.file_creation_day_of_year as u32 })
    } else {
        None
    }
}

/// Why a raw header cannot be decoded, checked in this order; `None` if it can.
pub open spec fn decode_failure(raw: raw::Header) -> Option<Error> {
    if !raw.version.is_known() {
        Some(Error::UnsupportedVersion(raw.version))
    } else if !valid_utf8(text_bytes(raw.system_identifier@)) {
        Some(Error::InvalidText(raw.system_identifier))
    } else if !valid_utf8(text_bytes(raw.generating_software@)) {
        Some(Error::InvalidText(raw.generating_software))
    } else if Format::spec_from_id(raw.point_data_format_id) is None {
        Some(Error::Format(raw.point_data_format_id))
    } else {
        None
    }
}

/// `h` is the header that decoding `raw` with these records and this padding gives.
pub open spec fn decodes_to(raw: raw::Header, vlrs: Seq<Vlr>, vlr_padding: Seq<u8>, h: Header) -> bool {
    &&& h.file_source_id == raw.file_source_id
    &&& h.gps_time_type == GpsTimeType::spec_from_encoding(raw.global_encoding)
    &&& h.guid == raw.guid
    &&& h.version == raw.version
    &&& h.system_identifier@ == decode_utf8(text_bytes(raw.system_identifier@))
    &&& h.generating_software@ == decode_utf8(text_bytes(raw.generating_software@))
    &&& h.date == date_from_raw(raw)
    &&& h.padding@ == raw.padding@
    &&& h.vlr_padding@ == vlr_padding
    &&& Format::spec_from_id(raw.point_data_format_id) == Some(h.point_format)
    &&& h.transforms == (Vector {
        x: Transform { scale: raw.x_scale_factor, offset: raw.x_offset },
        y: Transform { scale: raw.y_scale_factor, offset: raw.y_offset },
        z: Transform { scale: raw.z_scale_factor, offset: raw.z_offset },
    })
    &&& h.bounds == (Bounds {
        min: Vector { x: raw.min_x, y: raw.min_y, z: raw.min_z },
        max: Vector { x: raw.max_x, y: raw.max_y, z: raw.max_z },
    })
    &&& h.number_of_points == points_from_raw(raw)
    &&& h.number_of_points_by_return@ == by_return_from_raw(raw)
    &&& h.vlrs@ == vlrs
}

/// Builds the per-return counts of a slice of slots: slot `i` counts return number `i + 1`, and
/// only slots that are not zero are kept.
pub fn number_of_points_hash_map(slice: &[u64]) -> (r: HashMap<u8, u64>)
    requires
        slice@.len() < 255,
    ensures
        r@ == return_map(slice@),
{
    let mut map: HashMap<u8, u64> = HashMap::new();
    let mut i: usize = 0;
    while i < slice.len()
        invariant
            slice@.len() < 255,
            i <= slice@.len(),
            map@ == return_map(slice@.take(i as int)),
        decreases slice@.len() - i,
    {
        let n = slice[i];
        if n > 0 {
            map.insert((i + 1) as u8, n);
        }
        proof {
            let next = slice@.take(i + 1);
            assert(return_map(next) =~= if n > 0 {
                return_map(slice@.take(i as int)).insert((i + 1) as u8, n)
            } else {
                return_map(slice@.take(i as int))
            });
        }
        i = i + 1;
    }
    assert(slice@.take(i as int) =~= slice@);
    map
}

/// The per-return slots of a raw header, chosen slot by slot.
fn return_slots(raw_header: &raw::Header) -> (r: Vec<u64>)
    ensures
        r@ == raw_return_slots(*raw_header),
{
    let mut out: Vec<u64> = Vec::new();
    let mut i: usize = 0;
    while i < 15
        invariant
            i <= 15,
            raw_header.number_of_points_by_return@.len() == 5,
            out@ == raw_return_slots(*raw_header).take(i as int),
        decreases 15 - i,
    {
        let n = if i < 5 && raw_header.number_of_points_by_return[i] > 0 {
            raw_header.number_of_points_by_return[i] as u64
        } else {
            match raw_header.large_file {
                Some(f) => f.number_of_points_by_return[i],
                None => 0,
            }
        };
        out.push(n);
        i = i + 1;
        assert(out@ =~= raw_return_slots(*raw_header).take(i as int));
    }
    assert(raw_return_slots(*raw_header).take(15) =~= raw_return_slots(*raw_header));
    out
}

impl Header {
    /// Creates a header from a raw header, the records read after it, and the padding between
    /// the records and the points.
    pub fn new(raw_header: raw::Header, vlrs: Vec<Vlr>, vlr_padding: Vec<u8>) -> (r: Result<Header, Error>)
        ensures
            match r {
                Ok(h) => decode_failure(raw_header) is None && decodes_to(raw_header, vlrs@, vlr_padding@, h),
                Err(e) => decode_failure(raw_header) == Some(e),
            },
    {
        if !raw_header.version.is_supported() {
            return Err(Error::UnsupportedVersion(raw_header.version));
        }
        let system_identifier = match decode_field(&raw_header.system_identifier) {
            Ok(s) => s,
            Err(e) => return Err(e),
        };
        let generating_software = match decode_field(&raw_header.generating_software) {
            Ok(s) => s,
            Err(e) => return Err(e),
        };
        let point_format = match Format::new(raw_header.point_data_format_id) {
            Ok(f) => f,
            Err(e) => return Err(e),
        };
        let number_of_points = if raw_header.number_of_point_records > 0 {
            raw_header.number_of_point_records as u64
        } else {
            match raw_header.large_file {
                Some(f) => f.number_of_point_records,
                None => 0,
            }
        };
        let slots = return_slots(&raw_header);
        let number_of_points_by_return = number_of_points_hash_map(slots.as_slice());
        let date = Date::from_yo(
            raw_header.file_creation_year as i32,
            raw_header.file_creation_day_of_year as u32,
        );
        Ok(Header {
            file_source_id: raw_header.file_source_id,
            gps_time_type: GpsTimeType::from_encoding(raw_header.global_encoding),
            guid: raw_header.guid,
            version: raw_header.version,
            system_identifier,
            generating_software,
            date,
            padding: raw_header.padding,
            vlr_padding,
            point_format,
            transforms: Vector {
                x: Transform { scale: raw_header.x_scale_factor, offset: raw_header.x_offset },
                y: Transform { scale: raw_header.y_scale_factor, offset: raw_header.y_offset },
                z: Transform { scale: raw_header.z_scale_factor, offset: raw_header.z_offset },
            },
            bounds: Bounds {
                min: Vector { x: raw_header.min_x, y: raw_header.min_y, z: raw_header.min_z },
                max: Vector { x: raw_header.max_x, y: raw_header.max_y, z: raw_header.max_z },
            },
            number_of_points,
            number_of_points_by_return,
            vlrs,
        })
    }
}


/// Returns true if the record is written as an extended one under this version: it is too
/// long for a standard record, or it asks to be extended and the version has extended records.
pub open spec fn classifies_extended(vlr: Vlr, version: Version) -> bool {
    vlr.is_oversized() || (version.spec_supports(Feature::Evlrs) && vlr.is_extended)
}

/// The records of `s` that classify as extended (or, with `extended` false, as standard), in
/// their order.
pub open spec fn select_vlrs(s: Seq<Vlr>, version: Version, extended: bool) -> Seq<Vlr>
    decreases s.len(),
{
    if s.len() == 0 {
        s
    } else {
        let rest = select_vlrs(s.drop_last(), version, extended);
        if classifies_extended(s.last(), version) == extended {
            rest.push(s.last())
        } else {
            rest
        }
    }
}

/// The records that a sequence of references points to.
pub open spec fn derefs(s: Seq<&Vlr>) -> Seq<Vlr> {
    s.map_values(|v: &Vlr| *v)
}

/// The summed encoded length of the records.
pub open spec fn total_len(s: Seq<Vlr>) -> int
    decreases s.len(),
{
    if s.len() == 0 {
        0
    } else {
        total_len(s.drop_last()) + s.last().spec_len()
    }
}

/// The first key of a byte-keyed table that has the property, when some key has it.
pub open spec fn first_key(p: spec_fn(u8) -> bool) -> u8 {
    choose|k: u8| #[trigger] p(k) && forall|j: u8| j < k ==> !#[trigger] p(j)
}

proof fn lemma_first_key(p: spec_fn(u8) -> bool, k: u8)
    requires
        p(k),
        forall|j: u8| j < k ==> !#[trigger] p(j),
    ensures
        first_key(p) == k,
{
    let c = first_key(p);
    assert(p(c) && forall|j: u8| j < c ==> !#[trigger] p(j));
    if c < k {
        assert(!p(c));
    } else if k < c {
        assert(!p(k));
    }
}

/// The latest year that the raw year field holds.
pub const MAX_RAW_YEAR: i32 = 65535;

/// A date that the raw fields hold faithfully: a date of the calendar in a year from 0 to 65535.
pub open spec fn date_fits_raw(d: Date) -> bool {
    d.is_valid() && 0 <= d.year <= MAX_RAW_YEAR
}

/// Why a creation date cannot be written; `None` if it can (or there is none).
pub open spec fn date_failure(date: Option<Date>) -> Option<Error> {
    match date {
        Some(d) => if date_fits_raw(d) {
            None
        } else {
            Some(Error::InvalidDate(d))
        },
        None => None,
    }
}

/// The 16-bit limit of the header size.
pub const MAX_HEADER_SIZE: u128 = 0xFFFF;

/// The 32-bit limit of the legacy counts and of the offset to the point data.
pub const MAX_U32: u64 = 0xFFFF_FFFF;

/// The return numbers that the legacy slots can hold.
pub const LEGACY_MAX_RETURN: u8 = 5;

/// The return numbers that the large-file slots can hold.
pub const LARGE_FILE_MAX_RETURN: u8 = 15;

/// The legacy slots that a table of per-return counts fills: return numbers 1 to 5 whose
/// count fits in 32 bits; every other slot is zero.
pub open spec fn legacy_slots(m: Map<u8, u64>) -> Seq<u32> {
    Seq::new(
        5,
        |i: int|
            if m.contains_key((i + 1) as u8) && m[(i + 1) as u8] <= MAX_U32 {
                m[(i + 1) as u8] as u32
            } else {
                0u32
            },
    )
}

/// The large-file slots that a table of per-return counts fills: return numbers 1 to 15.
pub open spec fn large_file_slots(m: Map<u8, u64>) -> Seq<u64> {
    Seq::new(
        15,
        |i: int|
            if m.contains_key((i + 1) as u8) {
                m[(i + 1) as u8]
            } else {
                0u64
            },
    )
}

impl Header {
    /// The records that classify as extended (or, with `extended` false, as standard).
    pub open spec fn spec_vlrs_of(self, extended: bool) -> Seq<Vlr> {
        select_vlrs(self.vlrs@, self.version, extended)
    }

    /// The size of the fixed part of the raw header plus the padding after it.
    pub open spec fn spec_header_size(self) -> int {
        self.version.spec_header_size() + self.padding@.len()
    }

    /// Where the point data starts: after the header, the standard records and their padding.
    pub open spec fn spec_offset_to_point_data(self) -> int {
        self.spec_header_size() + total_len(self.spec_vlrs_of(false)) + self.vlr_padding@.len()
    }

    /// The byte length of the point data.
    pub open spec fn spec_point_data_len(self) -> int {
        self.number_of_points * record_len(self.point_format.id)
    }

    /// Whether this version has the large-file block.
    pub open spec fn has_large_files(self) -> bool {
        self.version.spec_supports(Feature::LargeFiles)
    }

    /// A per-return count that the legacy slots cannot hold.
    pub open spec fn legacy_misfit(self, k: u8) -> bool {
        let m = self.number_of_points_by_return@;
        m.contains_key(k) && (k > LEGACY_MAX_RETURN || (1 <= k && m[k] > MAX_U32))
    }

    /// The error for a per-return count that the legacy slots cannot hold.
    pub open spec fn legacy_misfit_error(self, k: u8) -> Error {
        if k > LEGACY_MAX_RETURN {
            Error::ReturnNumber(k, Some(self.version))
        } else {
            Error::TooManyPoints(self.number_of_points_by_return@[k], self.version)
        }
    }

    /// A per-return count that the large-file slots cannot hold.
    pub open spec fn large_file_misfit(self, k: u8) -> bool {
        self.number_of_points_by_return@.contains_key(k) && k > LARGE_FILE_MAX_RETURN
    }

    /// Why this header cannot be encoded, checked in the order of the raw fields; `None` if
    /// it can.
    pub open spec fn encode_failure(self) -> Option<Error> {
        let n_vlrs = self.spec_vlrs_of(false).len();
        let n_evlrs = self.spec_vlrs_of(true).len();
        if !self.version.is_known() {
            Some(Error::UnsupportedVersion(self.version))
        } else if !fits_field(self.system_identifier@) {
            Some(Error::StringTooLong(self.system_identifier))
        } else if !fits_field(self.generating_software@) {
            Some(Error::StringTooLong(self.generating_software))
        } else if date_failure(self.date) is Some {
            date_failure(self.date)
        } else if self.spec_header_size() > MAX_HEADER_SIZE {
            Some(Error::TooLarge(self.spec_header_size() as u128))
        } else if self.spec_offset_to_point_data() > MAX_U32 {
            Some(Error::OffsetToPointDataTooLarge(self.spec_offset_to_point_data() as u128))
        } else if n_vlrs > MAX_U32 {
            Some(Error::TooManyVlrs(n_vlrs as usize))
        } else if !self.point_format.is_valid() {
            Some(Error::Format(self.point_format.id))
        } else if self.number_of_points > MAX_U32 && !self.has_large_files() {
            Some(Error::TooManyPoints(self.number_of_points, self.version))
        } else if !self.has_large_files() && exists|k: u8| self.legacy_misfit(k) {
            Some(self.legacy_misfit_error(first_key(|k: u8| self.legacy_misfit(k))))
        } else if n_evlrs > MAX_U32 {
            Some(Error::TooManyEvlrs(n_evlrs as usize))
        } else if n_evlrs > 0 && self.spec_offset_to_point_data() + self.spec_point_data_len() > u64::MAX {
            Some(Error::TooManyPoints(self.number_of_points, self.version))
        } else if self.has_large_files() && exists|k: u8| self.large_file_misfit(k) {
            Some(Error::ReturnNumber(first_key(|k: u8| self.large_file_misfit(k)), Some(self.version)))
        } else {
            None
        }
    }

    /// `raw` is the raw header that encoding this header gives.
    pub open spec fn encodes_to(self, raw: raw::Header) -> bool {
        let m = self.number_of_points_by_return@;
        let n_evlrs = self.spec_vlrs_of(true).len();
        &&& raw.file_signature == raw::LASF
        &&& raw.file_source_id == self.file_source_id
        &&& raw.global_encoding == self.gps_time_type.spec_to_encoding()
        &&& raw.guid == self.guid
        &&& raw.version == self.version
        &&& raw.system_identifier@ == padded(encode_utf8(self.system_identifier@))
        &&& raw.generating_software@ == padded(encode_utf8(self.generating_software@))
        &&& raw.file_creation_day_of_year == match self.date {
            Some(d) => d.ordinal as u16,
            None => 0u16,
        }
        &&& raw.file_creation_year == match self.date {
            Some(d) => d.year as u16,
            None => 0u16,
        }
        &&& raw.header_size == self.spec_header_size()
        &&& raw.offset_to_point_data == self.spec_offset_to_point_data()
        &&& raw.number_of_variable_length_records == self.spec_vlrs_of(false).len()
        &&& raw.point_data_format_id == self.point_format.spec_to_u8()
        &&& raw.point_data_record_length == record_len(self.point_format.id)
        &&& raw.number_of_point_records == if self.number_of_points <= MAX_U32 {
            self.number_of_points as u32
        } else {
            0u32
        }
        &&& raw.number_of_points_by_return@ == legacy_slots(m)
        &&& raw.x_scale_factor == self.transforms.x.scale
        &&& raw.y_scale_factor == self.transforms.y.scale
        &&& raw.z_scale_factor == self.transforms.z.scale
        &&& raw.x_offset == self.transforms.x.offset
        &&& raw.y_offset == self.transforms.y.offset
        &&& raw.z_offset == self.transforms.z.offset
        &&& raw.max_x == self.bounds.max.x
        &&& raw.min_x == self.bounds.min.x
        &&& raw.max_y == self.bounds.max.y
        &&& raw.min_y == self.bounds.min.y
        &&& raw.max_z == self.bounds.max.z
        &&& raw.min_z == self.bounds.min.z
        &&& raw.start_of_waveform_data_packet_record is None
        &&& raw.evlr == if n_evlrs == 0 {
            None
        } else {
            Some(raw::Evlr {
                start_of_first_evlr: (self.spec_offset_to_point_data() + self.spec_point_data_len()) as u64,
                number_of_evlrs: n_evlrs as u32,
            })
        }
        &&& match raw.large_file {
            Some(f) => self.has_large_files() && f.number_of_point_records == self.number_of_points
                && f.number_of_points_by_return@ == large_file_slots(m),
            None => !self.has_large_files(),
        }
        &&& raw.padding@ == self.padding@
    }
}



impl Header {
    fn filter_vlrs(&self, extended: bool) -> (r: Vec<&Vlr>)
        ensures
            derefs(r@) == self.spec_vlrs_of(extended),
    {
        let evlrs_supported = self.version.supports(Feature::Evlrs);
        let mut out: Vec<&Vlr> = Vec::new();
        let mut i: usize = 0;
        while i < self.vlrs.len()
            invariant
                i <= self.vlrs@.len(),
                evlrs_supported == self.version.spec_supports(Feature::Evlrs),
                derefs(out@) == select_vlrs(self.vlrs@.take(i as int), self.version, extended),
            decreases self.vlrs@.len() - i,
        {
            let vlr = &self.vlrs[i];
            let is_extended = vlr.data.len() > MAX_VLR_LEN - VLR_HEADER_LEN || (evlrs_supported
                && vlr.is_extended);
            if is_extended == extended {
                out.push(vlr);
            }
            proof {
                let next = self.vlrs@.take(i + 1);
                assert(next.drop_last() =~= self.vlrs@.take(i as int));
                assert(derefs(out@) =~= select_vlrs(next, self.version, extended));
            }
            i = i + 1;
        }
        assert(self.vlrs@.take(i as int) =~= self.vlrs@);
        out
    }

    /// Returns the records that are written as standard ones: those that fit in a standard
    /// record and are not written as extended ones under this version.
    pub fn vlrs(&self) -> (r: Vec<&Vlr>)
        ensures
            derefs(r@) == self.spec_vlrs_of(false),
    {
        self.filter_vlrs(false)
    }

    /// Returns the records that are written as extended ones: those too long for a standard
    /// record, and, where the version has extended records, those that ask to be extended.
    /// Under a version without extended records the first kind is still returned, so that a
    /// writer can refuse the header.
    pub fn evlrs(&self) -> (r: Vec<&Vlr>)
        ensures
            derefs(r@) == self.spec_vlrs_of(true),
    {
        self.filter_vlrs(true)
    }

    fn number_of_variable_length_records(&self) -> (r: Result<u32, Error>)
        ensures
            match r {
                Ok(n) => self.spec_vlrs_of(false).len() <= MAX_U32 && n == self.spec_vlrs_of(false).len(),
                Err(e) => self.spec_vlrs_of(false).len() > MAX_U32
                    && e == Error::TooManyVlrs(self.spec_vlrs_of(false).len() as usize),
            },
    {
        let n = self.vlrs().len();
        if n as u64 > MAX_U32 {
            Err(Error::TooManyVlrs(n))
        } else {
            Ok(n as u32)
        }
    }

    fn header_size(&self) -> (r: Result<u16, Error>)
        ensures
            match r {
                Ok(n) => self.spec_header_size() <= MAX_HEADER_SIZE && n == self.spec_header_size(),
                Err(e) => self.spec_header_size() > MAX_HEADER_SIZE
                    && e == Error::TooLarge(self.spec_header_size() as u128),
            },
    {
        let header_size = self.version.header_size() as u128 + self.padding.len() as u128;
        if header_size > MAX_HEADER_SIZE {
            Err(Error::TooLarge(header_size))
        } else {
            Ok(header_size as u16)
        }
    }

    fn offset_to_point_data(&self) -> (r: Result<u32, Error>)
        ensures
            match r {
                Ok(n) => self.spec_header_size() <= MAX_HEADER_SIZE
                    && self.spec_offset_to_point_data() <= MAX_U32 && n == self.spec_offset_to_point_data(),
                Err(e) => if self.spec_header_size() > MAX_HEADER_SIZE {
                    e == Error::TooLarge(self.spec_header_size() as u128)
                } else {
                    self.spec_offset_to_point_data() > MAX_U32
                        && e == Error::OffsetToPointDataTooLarge(self.spec_offset_to_point_data() as u128)
                },
            },
    {
        let header_size = match self.header_size() {
            Ok(n) => n,
            Err(e) => return Err(e),
        };
        let vlrs = self.vlrs();
        proof {
            lemma_standard_vlrs_fit(self.vlrs@, self.version);
        }
        let mut offset: u128 = header_size as u128;
        let mut i: usize = 0;
        while i < vlrs.len()
            invariant
                i <= vlrs@.len(),
                derefs(vlrs@) == self.spec_vlrs_of(false),
                forall|j: int| 0 <= j < vlrs@.len() ==> (#[trigger] derefs(vlrs@)[j]).spec_len() <= MAX_VLR_LEN,
                header_size == self.spec_header_size(),
                offset == header_size + total_len(derefs(vlrs@).take(i as int)),
                offset <= header_size + MAX_VLR_LEN * i,
            decreases vlrs@.len() - i,
        {
            assert(derefs(vlrs@)[i as int] == *vlrs@[i as int]);
            offset = offset + VLR_HEADER_LEN as u128 + vlrs[i].data.len() as u128;
            proof {
                assert(derefs(vlrs@).take(i + 1).drop_last() =~= derefs(vlrs@).take(i as int));
                assert(derefs(vlrs@).take(i + 1).last() == *vlrs@[i as int]);
            }
            i = i + 1;
        }
        assert(derefs(vlrs@).take(i as int) =~= derefs(vlrs@));
        offset = offset + self.vlr_padding.len() as u128;
        if offset > MAX_U32 as u128 {
            Err(Error::OffsetToPointDataTooLarge(offset))
        } else {
            Ok(offset as u32)
        }
    }

    fn system_identifier(&self) -> (r: Result<[u8; 32], Error>)
        ensures
            match r {
                Ok(f) => fits_field(self.system_identifier@) && f@ == padded(encode_utf8(self.system_identifier@)),
                Err(e) => !fits_field(self.system_identifier@) && e == Error::StringTooLong(self.system_identifier),
            },
    {
        encode_field(&self.system_identifier)
    }

    fn generating_software(&self) -> (r: Result<[u8; 32], Error>)
        ensures
            match r {
                Ok(f) => fits_field(self.generating_software@) && f@ == padded(encode_utf8(self.generating_software@)),
                Err(e) => !fits_field(self.generating_software@) && e == Error::StringTooLong(self.generating_software),
            },
    {
        encode_field(&self.generating_software)
    }

    fn number_of_points(&self) -> (r: Result<u32, Error>)
        ensures
            match r {
                Ok(n) => !(self.number_of_points > MAX_U32 && !self.has_large_files())
                    && n == if self.number_of_points <= MAX_U32 { self.number_of_points as u32 } else { 0u32 },
                Err(e) => self.number_of_points > MAX_U32 && !self.has_large_files()
                    && e == Error::TooManyPoints(self.number_of_points, self.version),
            },
    {
        if self.number_of_points > MAX_U32 {
            if self.version.supports(Feature::LargeFiles) {
                Ok(0)
            } else {
                Err(Error::TooManyPoints(self.number_of_points, self.version))
            }
        } else {
            Ok(self.number_of_points as u32)
        }
    }

    fn number_of_points_by_return(&self) -> (r: Result<[u32; 5], Error>)
        ensures
            match r {
                Ok(slots) => !(!self.has_large_files() && exists|k: u8| self.legacy_misfit(k))
                    && slots@ == legacy_slots(self.number_of_points_by_return@),
                Err(e) => !self.has_large_files() && (exists|k: u8| self.legacy_misfit(k))
                    && e == self.legacy_misfit_error(first_key(|k: u8| self.legacy_misfit(k))),
            },
    {
        let ghost m = self.number_of_points_by_return@;
        let large = self.version.supports(Feature::LargeFiles);
        let mut slots: [u32; 5] = [0u32; 5];
        let mut k: u16 = 0;
        while k < 256
            invariant
                k <= 256,
                m == self.number_of_points_by_return@,
                large == self.has_large_files(),
                slots@.len() == 5,
                !large ==> forall|j: u8| (j as int) < k ==> !#[trigger] self.legacy_misfit(j),
                forall|i: int| 0 <= i < 5 ==> slots@[i] == if i + 1 < k && m.contains_key((i + 1) as u8)
                    && m[(i + 1) as u8] <= MAX_U32 {
                    m[(i + 1) as u8] as u32
                } else {
                    0u32
                },
            decreases 256 - k,
        {
            let key = k as u8;
            match self.number_of_points_by_return.get(&key) {
                Some(n) => {
                    if key > LEGACY_MAX_RETURN {
                        if !large {
                            proof {
                                lemma_first_key(|k: u8| self.legacy_misfit(k), key);
                            }
                            return Err(Error::ReturnNumber(key, Some(self.version)));
                        }
                    } else if key > 0 {
                        if *n > MAX_U32 {
                            if !large {
                                proof {
                                    lemma_first_key(|k: u8| self.legacy_misfit(k), key);
                                }
                                return Err(Error::TooManyPoints(*n, self.version));
                            }
                        } else {
                            slots[(key - 1) as usize] = *n as u32;
                        }
                    }
                },
                None => {},
            }
            k = k + 1;
        }
        assert(slots@ =~= legacy_slots(m));
        Ok(slots)
    }

    fn large_file(&self) -> (r: Result<Option<raw::LargeFile>, Error>)
        ensures
            match r {
                Ok(block) => match block {
                    Some(f) => self.has_large_files() && !(exists|k: u8| self.large_file_misfit(k))
                        && f.number_of_point_records == self.number_of_points
                        && f.number_of_points_by_return@ == large_file_slots(self.number_of_points_by_return@),
                    None => !self.has_large_files(),
                },
                Err(e) => self.has_large_files() && (exists|k: u8| self.large_file_misfit(k))
                    && e == Error::ReturnNumber(first_key(|k: u8| self.large_file_misfit(k)), Some(self.version)),
            },
    {
        if !self.version.supports(Feature::LargeFiles) {
            return Ok(None);
        }
        let ghost m = self.number_of_points_by_return@;
        let mut slots: [u64; 15] = [0u64; 15];
        let mut k: u16 = 0;
        while k < 256
            invariant
                k <= 256,
                m == self.number_of_points_by_return@,
                self.has_large_files(),
                slots@.len() == 15,
                forall|j: u8| (j as int) < k ==> !#[trigger] self.large_file_misfit(j),
                forall|i: int| 0 <= i < 15 ==> slots@[i] == if i + 1 < k && m.contains_key((i + 1) as u8) {
                    m[(i + 1) as u8]
                } else {
                    0u64
                },
            decreases 256 - k,
        {
            let key = k as u8;
            match self.number_of_points_by_return.get(&key) {
                Some(n) => {
                    if key > LARGE_FILE_MAX_RETURN {
                        proof {
                            lemma_first_key(|k: u8| self.large_file_misfit(k), key);
                        }
                        return Err(Error::ReturnNumber(key, Some(self.version)));
                    } else if key > 0 {
                        slots[(key - 1) as usize] = *n;
                    }
                },
                None => {},
            }
            k = k + 1;
        }
        assert(slots@ =~= large_file_slots(m));
        Ok(Some(raw::LargeFile { number_of_point_records: self.number_of_points, number_of_points_by_return: slots }))
    }
}

/// A record that classifies as standard fits the length limit of a standard record.
proof fn lemma_standard_vlrs_fit(s: Seq<Vlr>, version: Version)
    ensures
        forall|j: int| 0 <= j < select_vlrs(s, version, false).len()
            ==> (#[trigger] select_vlrs(s, version, false)[j]).spec_len() <= MAX_VLR_LEN,
    decreases s.len(),
{
    if s.len() > 0 {
        lemma_standard_vlrs_fit(s.drop_last(), version);
        let rest = select_vlrs(s.drop_last(), version, false);
        let all = select_vlrs(s, version, false);
        assert forall|j: int| 0 <= j < all.len() implies (#[trigger] all[j]).spec_len() <= MAX_VLR_LEN by {
            if j < rest.len() {
                assert(all[j] == rest[j]);
            } else {
                assert(all[j] == s.last());
            }
        }
    }
}


impl Header {
    fn point_data_len(&self, record_length: u16) -> (r: u128)
        requires
            record_length == record_len(self.point_format.id),
        ensures
            r == self.spec_point_data_len(),
    {
        self.number_of_points as u128 * record_length as u128
    }

    fn evlr(&self) -> (r: Result<Option<raw::Evlr>, Error>)
        ensures
            ({
                let n = self.spec_vlrs_of(true).len();
                let offset = self.spec_offset_to_point_data();
                let end = offset + self.spec_point_data_len();
                match r {
                    Ok(evlr) => n <= MAX_U32 && evlr == if n == 0 {
                        None
                    } else {
                        Some(raw::Evlr { start_of_first_evlr: end as u64, number_of_evlrs: n as u32 })
                    } && (n > 0 ==> self.spec_header_size() <= MAX_HEADER_SIZE && offset <= MAX_U32
                        && self.point_format.is_valid() && end <= u64::MAX),
                    Err(e) => n > 0 && if n > MAX_U32 {
                        e == Error::TooManyEvlrs(n as usize)
                    } else if self.spec_header_size() > MAX_HEADER_SIZE {
                        e == Error::TooLarge(self.spec_header_size() as u128)
                    } else if offset > MAX_U32 {
                        e == Error::OffsetToPointDataTooLarge(offset as u128)
                    } else if !self.point_format.is_valid() {
                        e == Error::Format(self.point_format.id)
                    } else {
                        end > u64::MAX && e == Error::TooManyPoints(self.number_of_points, self.version)
                    },
                }
            }),
    {
        let n = self.evlrs().len();
        if n == 0 {
            return Ok(None);
        }
        if n as u64 > MAX_U32 {
            return Err(Error::TooManyEvlrs(n));
        }
        let offset_to_point_data = match self.offset_to_point_data() {
            Ok(o) => o,
            Err(e) => return Err(e),
        };
        if let Err(e) = self.point_format.to_u8() {
            return Err(e);
        }
        let record_length = self.point_format.len();
        let start_of_first_evlr = offset_to_point_data as u128 + self.point_data_len(record_length);
        if start_of_first_evlr > u64::MAX as u128 {
            Err(Error::TooManyPoints(self.number_of_points, self.version))
        } else {
            Ok(Some(raw::Evlr { start_of_first_evlr: start_of_first_evlr as u64, number_of_evlrs: n as u32 }))
        }
    }

    /// Converts this header into a raw header, checking each derived field against what the
    /// raw layout and the version can hold.
    pub fn to_raw(&self) -> (r: Result<raw::Header, Error>)
        ensures
            match r {
                Ok(raw) => self.encode_failure() is None && self.encodes_to(raw),
                Err(e) => self.encode_failure() == Some(e),
            },
    {
        if !self.version.is_supported() {
            return Err(Error::UnsupportedVersion(self.version));
        }
        let system_identifier = match self.system_identifier() {
            Ok(f) => f,
            Err(e) => return Err(e),
        };
        let generating_software = match self.generating_software() {
            Ok(f) => f,
            Err(e) => return Err(e),
        };
        let (file_creation_day_of_year, file_creation_year) = match self.date {
            Some(d) => {
                if 0 <= d.year && d.year <= MAX_RAW_YEAR && Date::from_yo(d.year, d.ordinal).is_some() {
                    (d.ordinal as u16, d.year as u16)
                } else {
                    return Err(Error::InvalidDate(d));
                }
            },
            None => (0u16, 0u16),
        };
        let header_size = match self.header_size() {
            Ok(n) => n,
            Err(e) => return Err(e),
        };
        let offset_to_point_data = match self.offset_to_point_data() {
            Ok(n) => n,
            Err(e) => return Err(e),
        };
        let number_of_variable_length_records = match self.number_of_variable_length_records() {
            Ok(n) => n,
            Err(e) => return Err(e),
        };
        let point_data_format_id = match self.point_format.to_u8() {
            Ok(n) => n,
            Err(e) => return Err(e),
        };
        let point_data_record_length = self.point_format.len();
        let number_of_point_records = match self.number_of_points() {
            Ok(n) => n,
            Err(e) => return Err(e),
        };
        let number_of_points_by_return = match self.number_of_points_by_return() {
            Ok(slots) => slots,
            Err(e) => return Err(e),
        };
        let evlr = match self.evlr() {
            Ok(evlr) => evlr,
            Err(e) => return Err(e),
        };
        let large_file = match self.large_file() {
            Ok(f) => f,
            Err(e) => return Err(e),
        };
        let padding = self.padding.clone();
        assert(padding@ =~= self.padding@);
        Ok(raw::Header {
            file_signature: raw::LASF,
            file_source_id: self.file_source_id,
            global_encoding: self.gps_time_type.to_encoding(),
            guid: self.guid,
            version: self.version,
            system_identifier,
            generating_software,
            file_creation_day_of_year,
            file_creation_year,
            header_size,
            offset_to_point_data,
            number_of_variable_length_records,
            point_data_format_id,
            point_data_record_length,
            number_of_point_records,
            number_of_points_by_return,
            x_scale_factor: self.transforms.x.scale,
            y_scale_factor: self.transforms.y.scale,
            z_scale_factor: self.transforms.z.scale,
            x_offset: self.transforms.x.offset,
            y_offset: self.transforms.y.offset,
            z_offset: self.transforms.z.offset,
            max_x: self.bounds.max.x,
            min_x: self.bounds.min.x,
            max_y: self.bounds.max.y,
            min_y: self.bounds.min.y,
            max_z: self.bounds.max.z,
            min_z: self.bounds.min.z,
            start_of_waveform_data_packet_record: None,
            evlr,
            large_file,
            padding,
        })
    }
}


/// The name that a default header gives as its system and software.
pub const DEFAULT_IDENTIFIER: &'static str = "las-rs";

impl Default for Header {
    /// An empty revision 1.2 header of point format 0, dated today.
    fn default() -> (r: Header)
        ensures
            r.file_source_id == 0,
            r.gps_time_type == GpsTimeType::Week,
            r.guid@ == Seq::new(16, |i: int| 0u8),
            r.version == (Version { major: 1, minor: 2 }),
            r.system_identifier@ == DEFAULT_IDENTIFIER@,
            r.generating_software@ == DEFAULT_IDENTIFIER@,
            r.date matches Some(d) && d.is_valid(),
            r.padding@.len() == 0,
            r.vlr_padding@.len() == 0,
            r.point_format == (Format { id: 0, is_compressed: false }),
            r.transforms.x == (Transform { scale: DEFAULT_SCALE_BITS, offset: 0 }),
            r.transforms.y == (Transform { scale: DEFAULT_SCALE_BITS, offset: 0 }),
            r.transforms.z == (Transform { scale: DEFAULT_SCALE_BITS, offset: 0 }),
            r.bounds.min == (Vector::<u64> { x: 0, y: 0, z: 0 }),
            r.bounds.max == (Vector::<u64> { x: 0, y: 0, z: 0 }),
            r.number_of_points == 0,
            r.number_of_points_by_return@ == Map::<u8, u64>::empty(),
            r.vlrs@.len() == 0,
    {
        let guid: [u8; 16] = [0u8; 16];
        assert(guid@ =~= Seq::new(16, |i: int| 0u8));
        Header {
            file_source_id: 0,
            gps_time_type: GpsTimeType::Week,
            guid,
            version: Version { major: 1, minor: 2 },
            system_identifier: DEFAULT_IDENTIFIER.to_string(),
            generating_software: DEFAULT_IDENTIFIER.to_string(),
            date: Some(Date::today()),
            padding: Vec::new(),
            vlr_padding: Vec::new(),
            point_format: Format { id: 0, is_compressed: false },
            transforms: default_transforms(),
            bounds: zero_bounds(),
            number_of_points: 0,
            number_of_points_by_return: HashMap::new(),
            vlrs: Vec::new(),
        }
    }
}

} // verus!
