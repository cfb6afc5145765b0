//! The raw header record and its optional blocks.

use crate::transform::DEFAULT_SCALE_BITS;
use crate::error::Error;
use crate::version::{Feature, Version, HEADER_SIZE_1_0};
use vstd::prelude::*;

verus! {

/// The four bytes that every file starts with.
pub const LASF: [u8; 4] = [76, 65, 83, 70];

/// Slots for per-return counts in the legacy part of the header.
pub const LEGACY_RETURNS: usize = 5;

/// Slots for per-return counts in the large-file block.
pub const LARGE_FILE_RETURNS: usize = 15;

/// The 64-bit point counts of revision 1.4 and later.
#[derive(Clone, Copy, Debug, PartialEq, Eq)]
pub struct LargeFile {
    pub number_of_point_records: u64,
    pub number_of_points_by_return: [u64; 15],
}

/// Where the extended variable length records start, and how many there are.
#[derive(Clone, Copy, Debug, PartialEq, Eq, Structural)]
pub struct Evlr {
    pub start_of_first_evlr: u64,
    pub number_of_evlrs: u32,
}

/// The raw header. Real numbers are binary64 bit patterns.
#[derive(Clone, Debug)]
pub struct Header {
    pub file_signature: [u8; 4],
    pub file_source_id: u16,
    pub global_encoding: u16,
    pub guid: [u8; 16],
    pub version: Version,
    pub system_identifier: [u8; 32],
    pub generating_software: [u8; 32],
    pub file_creation_day_of_year: u16,
    pub file_creation_year: u16,
    pub header_size: u16,
    pub offset_to_point_data: u32,
    pub number_of_variable_length_records: u32,
    pub point_data_format_id: u8,
    pub point_data_record_length: u16,
    pub number_of_point_records: u32,
    pub number_of_points_by_return: [u32; 5],
    pub x_scale_factor: u64,
    pub y_scale_factor: u64,
    pub z_scale_factor: u64,
    pub x_offset: u64,
    pub y_offset: u64,
    pub z_offset: u64,
    pub max_x: u64,
    pub min_x: u64,
    pub max_y: u64,
    pub min_y: u64,
    pub max_z: u64,
    pub min_z: u64,
    pub start_of_waveform_data_packet_record: Option<u64>,
    pub evlr: Option<Evlr>,
    pub large_file: Option<LargeFile>,
    pub padding: Vec<u8>,
}

impl Default for LargeFile {
    /// No points.
    fn default() -> (r: LargeFile)
        ensures
            r.number_of_point_records == 0,
            forall|i: int| 0 <= i < LARGE_FILE_RETURNS ==> r.number_of_points_by_return[i] == 0,
    {
        LargeFile { number_of_point_records: 0, number_of_points_by_return: [0u64; 15] }
    }
}

impl Default for Header {
    /// An empty revision 1.2 header of point format 0, with the default scale on each axis.
    fn default() -> (r: Header)
        ensures
            r.file_signature == LASF,
            r.version == (Version { major: 1, minor: 2 }),
            r.header_size == HEADER_SIZE_1_0,
            r.offset_to_point_data == HEADER_SIZE_1_0,
            r.point_data_format_id == 0,
            r.number_of_point_records == 0,
            forall|i: int| 0 <= i < LEGACY_RETURNS ==> r.number_of_points_by_return[i] == 0,
            r.file_creation_day_of_year == 0,
            r.file_creation_year == 0,
            r.system_identifier@ == Seq::new(32, |i: int| 0u8),
            r.generating_software@ == Seq::new(32, |i: int| 0u8),
            r.large_file is None,
            r.evlr is None,
            r.padding@.len() == 0,
    {
        let r = Header {
            file_signature: LASF,
            file_source_id: 0,
            global_encoding: 0,
            guid: [0u8; 16],
            version: Version { major: 1, minor: 2 },
            system_identifier: [0u8; 32],
            generating_software: [0u8; 32],
            file_creation_day_of_year: 0,
            file_creation_year: 0,
            header_size: HEADER_SIZE_1_0,
            offset_to_point_data: HEADER_SIZE_1_0 as u32,
            number_of_variable_length_records: 0,
            point_data_format_id: 0,
            point_data_record_length: 20,
            number_of_point_records: 0,
            number_of_points_by_return: [0u32; 5],
            x_scale_factor: DEFAULT_SCALE_BITS,
            y_scale_factor: DEFAULT_SCALE_BITS,
            z_scale_factor: DEFAULT_SCALE_BITS,
            x_offset: 0,
            y_offset: 0,
            z_offset: 0,
            max_x: 0,
            min_x: 0,
            max_y: 0,
            min_y: 0,
            max_z: 0,
            min_z: 0,
            start_of_waveform_data_packet_record: None,
            evlr: None,
            large_file: None,
            padding: Vec::new(),
        };
        assert(r.system_identifier@ =~= Seq::new(32, |i: int| 0u8));
        assert(r.generating_software@ =~= Seq::new(32, |i: int| 0u8));
        r
    }
}


/// The little-endian bytes of a 16-bit field.
pub open spec fn le16(x: u16) -> Seq<u8> {
    seq![(x & 0xff) as u8, ((x >> 8) & 0xff) as u8]
}

/// The little-endian bytes of a 32-bit field.
pub open spec fn le32(x: u32) -> Seq<u8> {
    seq![(x & 0xff) as u8, ((x >> 8) & 0xff) as u8, ((x >> 16) & 0xff) as u8, ((x >> 24) & 0xff) as u8]
}

/// The little-endian bytes of a 64-bit field.
pub open spec fn le64(x: u64) -> Seq<u8> {
    seq![
        (x & 0xff) as u8,
        ((x >> 8) & 0xff) as u8,
        ((x >> 16) & 0xff) as u8,
        ((x >> 24) & 0xff) as u8,
        ((x >> 32) & 0xff) as u8,
        ((x >> 40) & 0xff) as u8,
        ((x >> 48) & 0xff) as u8,
        ((x >> 56) & 0xff) as u8,
    ]
}

/// The bytes of a run of 32-bit fields.
pub open spec fn le32s(s: Seq<u32>) -> Seq<u8>
    decreases s.len(),
{
    if s.len() == 0 {
        Seq::empty()
    } else {
        le32s(s.drop_last()) + le32(s.last())
    }
}

/// The bytes of a run of 64-bit fields.
pub open spec fn le64s(s: Seq<u64>) -> Seq<u8>
    decreases s.len(),
{
    if s.len() == 0 {
        Seq::empty()
    } else {
        le64s(s.drop_last()) + le64(s.last())
    }
}

fn push_u8(out: &mut Vec<u8>, x: u8)
    ensures
        final(out)@ == old(out)@ + seq![x],
{
    out.push(x);
    assert(final(out)@ =~= old(out)@ + seq![x]);
}

fn push_u16(out: &mut Vec<u8>, x: u16)
    ensures
        final(out)@ == old(out)@ + le16(x),
{
    out.push((x & 0xff) as u8);
    out.push(((x >> 8) & 0xff) as u8);
    assert(final(out)@ =~= old(out)@ + le16(x));
}

fn push_u32(out: &mut Vec<u8>, x: u32)
    ensures
        final(out)@ == old(out)@ + le32(x),
{
    out.push((x & 0xff) as u8);
    out.push(((x >> 8) & 0xff) as u8);
    out.push(((x >> 16) & 0xff) as u8);
    out.push(((x >> 24) & 0xff) as u8);
    assert(final(out)@ =~= old(out)@ + le32(x));
}

fn push_u64(out: &mut Vec<u8>, x: u64)
    ensures
        final(out)@ == old(out)@ + le64(x),
{
    out.push((x & 0xff) as u8);
    out.push(((x >> 8) & 0xff) as u8);
    out.push(((x >> 16) & 0xff) as u8);
    out.push(((x >> 24) & 0xff) as u8);
    out.push(((x >> 32) & 0xff) as u8);
    out.push(((x >> 40) & 0xff) as u8);
    out.push(((x >> 48) & 0xff) as u8);
    out.push(((x >> 56) & 0xff) as u8);
    assert(final(out)@ =~= old(out)@ + le64(x));
}

fn push_bytes(out: &mut Vec<u8>, b: &[u8])
    ensures
        final(out)@ == old(out)@ + b@,
{
    let ghost start = out@;
    let mut i: usize = 0;
    while i < b.len()
        invariant
            i <= b@.len(),
            out@ == start + b@.take(i as int),
        decreases b@.len() - i,
    {
        out.push(b[i]);
        i = i + 1;
        assert(out@ =~= start + b@.take(i as int));
    }
    assert(b@.take(i as int) =~= b@);
}

fn push_u32s(out: &mut Vec<u8>, s: &[u32])
    ensures
        final(out)@ == old(out)@ + le32s(s@),
{
    let ghost start = out@;
    let mut i: usize = 0;
    while i < s.len()
        invariant
            i <= s@.len(),
            out@ == start + le32s(s@.take(i as int)),
        decreases s@.len() - i,
    {
        push_u32(out, s[i]);
        i = i + 1;
        assert(s@.take(i as int).drop_last() =~= s@.take(i - 1));
        assert(out@ =~= start + le32s(s@.take(i as int)));
    }
    assert(s@.take(i as int) =~= s@);
}

fn push_u64s(out: &mut Vec<u8>, s: &[u64])
    ensures
        final(out)@ == old(out)@ + le64s(s@),
{
    let ghost start = out@;
    let mut i: usize = 0;
    while i < s.len()
        invariant
            i <= s@.len(),
            out@ == start + le64s(s@.take(i as int)),
        decreases s@.len() - i,
    {
        push_u64(out, s[i]);
        i = i + 1;
        assert(s@.take(i as int).drop_last() =~= s@.take(i - 1));
        assert(out@ =~= start + le64s(s@.take(i as int)));
    }
    assert(s@.take(i as int) =~= s@);
}

impl Header {
    /// The fields that every version has, in file order.
    pub open spec fn spec_base_bytes(self) -> Seq<u8> {
        self.file_signature@ + le16(self.file_source_id) + le16(self.global_encoding) + self.guid@
            + seq![self.version.major] + seq![self.version.minor] + self.system_identifier@
            + self.generating_software@ + le16(self.file_creation_day_of_year) + le16(
            self.file_creation_year,
        ) + le16(self.header_size) + le32(self.offset_to_point_data) + le32(
            self.number_of_variable_length_records,
        ) + seq![self.point_data_format_id] + le16(self.point_data_record_length) + le32(
            self.number_of_point_records,
        ) + le32s(self.number_of_points_by_return@) + le64(self.x_scale_factor) + le64(
            self.y_scale_factor,
        ) + le64(self.z_scale_factor) + le64(self.x_offset) + le64(self.y_offset) + le64(
            self.z_offset,
        ) + le64(self.max_x) + le64(self.min_x) + le64(self.max_y) + le64(self.min_y) + le64(
            self.max_z,
        ) + le64(self.min_z)
    }

    /// The waveform field of revision 1.3 and later; an absent value is written as zero.
    pub open spec fn spec_waveform_bytes(self) -> Seq<u8> {
        if self.version.spec_supports(Feature::Waveforms) {
            le64(
                match self.start_of_waveform_data_packet_record {
                    Some(n) => n,
                    None => 0,
                },
            )
        } else {
            Seq::empty()
        }
    }

    /// The extended-record locator and large-file block of revision 1.4 and later; absent
    /// blocks are written as zeros.
    pub open spec fn spec_large_file_bytes(self) -> Seq<u8> {
        if self.version.spec_supports(Feature::LargeFiles) {
            let (start, count) = match self.evlr {
                Some(e) => (e.start_of_first_evlr, e.number_of_evlrs),
                None => (0u64, 0u32),
            };
            let (points, by_return) = match self.large_file {
                Some(f) => (f.number_of_point_records, f.number_of_points_by_return@),
                None => (0u64, Seq::new(15, |i: int| 0u64)),
            };
            le64(start) + le32(count) + le64(points) + le64s(by_return)
        } else {
            Seq::empty()
        }
    }

    /// The header as it stands in a file: the fields in order, little-endian, then the padding.
    pub open spec fn spec_bytes(self) -> Seq<u8> {
        self.spec_base_bytes() + self.spec_waveform_bytes() + self.spec_large_file_bytes()
            + self.padding@
    }

    /// Writes the header as it stands in a file.
    pub fn to_bytes(&self) -> (r: Vec<u8>)
        ensures
            r@ == self.spec_bytes(),
    {
        let mut out: Vec<u8> = Vec::new();
        push_bytes(&mut out, self.file_signature.as_slice());
        assert(out@ =~= self.file_signature@);
        push_u16(&mut out, self.file_source_id);
        push_u16(&mut out, self.global_encoding);
        push_bytes(&mut out, self.guid.as_slice());
        push_u8(&mut out, self.version.major);
        push_u8(&mut out, self.version.minor);
        push_bytes(&mut out, self.system_identifier.as_slice());
        push_bytes(&mut out, self.generating_software.as_slice());
        push_u16(&mut out, self.file_creation_day_of_year);
        push_u16(&mut out, self.file_creation_year);
        push_u16(&mut out, self.header_size);
        push_u32(&mut out, self.offset_to_point_data);
        push_u32(&mut out, self.number_of_variable_length_records);
        push_u8(&mut out, self.point_data_format_id);
        push_u16(&mut out, self.point_data_record_length);
        push_u32(&mut out, self.number_of_point_records);
        push_u32s(&mut out, self.number_of_points_by_return.as_slice());
        push_u64(&mut out, self.x_scale_factor);
        push_u64(&mut out, self.y_scale_factor);
        push_u64(&mut out, self.z_scale_factor);
        push_u64(&mut out, self.x_offset);
        push_u64(&mut out, self.y_offset);
        push_u64(&mut out, self.z_offset);
        push_u64(&mut out, self.max_x);
        push_u64(&mut out, self.min_x);
        push_u64(&mut out, self.max_y);
        push_u64(&mut out, self.min_y);
        push_u64(&mut out, self.max_z);
        push_u64(&mut out, self.min_z);
        let ghost base = out@;
        if self.version.supports(Feature::Waveforms) {
            let start = match self.start_of_waveform_data_packet_record {
                Some(n) => n,
                None => 0,
            };
            push_u64(&mut out, start);
        }
        assert(out@ =~= base + self.spec_waveform_bytes());
        let ghost with_waveform = out@;
        if self.version.supports(Feature::LargeFiles) {
            match self.evlr {
                Some(e) => {
                    push_u64(&mut out, e.start_of_first_evlr);
                    push_u32(&mut out, e.number_of_evlrs);
                },
                None => {
                    push_u64(&mut out, 0);
                    push_u32(&mut out, 0);
                },
            }
            match self.large_file {
                Some(f) => {
                    push_u64(&mut out, f.number_of_point_records);
                    push_u64s(&mut out, f.number_of_points_by_return.as_slice());
                },
                None => {
                    let zeros: [u64; 15] = [0u64; 15];
                    assert(zeros@ =~= Seq::new(15, |i: int| 0u64));
                    push_u64(&mut out, 0);
                    push_u64s(&mut out, zeros.as_slice());
                },
            }
        }
        assert(out@ =~= with_waveform + self.spec_large_file_bytes());
        push_bytes(&mut out, self.padding.as_slice());
        out
    }
}


fn read_u16(b: &[u8], pos: usize) -> (r: u16)
    requires
        pos + 2 <= b@.len(),
    ensures
        b@.take(pos + 2) == b@.take(pos as int) + le16(r),
{
    let b0 = b[pos];
    let b1 = b[pos + 1];
    let r = (b0 as u16) | ((b1 as u16) << 8);
    assert((r & 0xff) as u8 == b0 && ((r >> 8) & 0xff) as u8 == b1) by (bit_vector)
        requires
            r == (b0 as u16) | ((b1 as u16) << 8),
    ;
    assert(b@.take(pos + 2) =~= b@.take(pos as int) + le16(r));
    r
}

fn read_u32(b: &[u8], pos: usize) -> (r: u32)
    requires
        pos + 4 <= b@.len(),
    ensures
        b@.take(pos + 4) == b@.take(pos as int) + le32(r),
{
    let b0 = b[pos];
    let b1 = b[pos + 1];
    let b2 = b[pos + 2];
    let b3 = b[pos + 3];
    let r = (b0 as u32) | ((b1 as u32) << 8) | ((b2 as u32) << 16) | ((b3 as u32) << 24);
    assert((r & 0xff) as u8 == b0 && ((r >> 8) & 0xff) as u8 == b1 && ((r >> 16) & 0xff) as u8
        == b2 && ((r >> 24) & 0xff) as u8 == b3) by (bit_vector)
        requires
            r == (b0 as u32) | ((b1 as u32) << 8) | ((b2 as u32) << 16) | ((b3 as u32) << 24),
    ;
    assert(b@.take(pos + 4) =~= b@.take(pos as int) + le32(r));
    r
}

fn read_u64(b: &[u8], pos: usize) -> (r: u64)
    requires
        pos + 8 <= b@.len(),
    ensures
        b@.take(pos + 8) == b@.take(pos as int) + le64(r),
{
    let len = b.len();
    assert(len == b@.len());
    let lo = read_u32(b, pos) as u64;
    let hi = read_u32(b, pos + 4) as u64;
    let r = lo | (hi << 32);
    assert((r & 0xff) == (lo & 0xff) && ((r >> 8) & 0xff) == ((lo >> 8) & 0xff) && ((r >> 16)
        & 0xff) == ((lo >> 16) & 0xff) && ((r >> 24) & 0xff) == ((lo >> 24) & 0xff) && ((r >> 32)
        & 0xff) == (hi & 0xff) && ((r >> 40) & 0xff) == ((hi >> 8) & 0xff) && ((r >> 48) & 0xff)
        == ((hi >> 16) & 0xff) && ((r >> 56) & 0xff) == ((hi >> 24) & 0xff)) by (bit_vector)
        requires
            r == lo | (hi << 32),
            lo <= 0xffff_ffff,
            hi <= 0xffff_ffff,
    ;
    let lo32 = lo as u32;
    let hi32 = hi as u32;
    assert(((lo32 & 0xff) as u64 == (lo & 0xff)) && (((lo32 >> 8) & 0xff) as u64 == ((lo >> 8)
        & 0xff)) && (((lo32 >> 16) & 0xff) as u64 == ((lo >> 16) & 0xff)) && (((lo32 >> 24)
        & 0xff) as u64 == ((lo >> 24) & 0xff))) by (bit_vector)
        requires
            lo == lo32 as u64,
    ;
    assert(((hi32 & 0xff) as u64 == (hi & 0xff)) && (((hi32 >> 8) & 0xff) as u64 == ((hi >> 8)
        & 0xff)) && (((hi32 >> 16) & 0xff) as u64 == ((hi >> 16) & 0xff)) && (((hi32 >> 24)
        & 0xff) as u64 == ((hi >> 24) & 0xff))) by (bit_vector)
        requires
            hi == hi32 as u64,
    ;
    assert(le64(r) =~= le32(lo32) + le32(hi32));
    r
}

fn read_bytes(b: &[u8], pos: usize, out: &mut [u8])
    requires
        pos + old(out)@.len() <= b@.len(),
    ensures
        final(out)@.len() == old(out)@.len(),
        b@.take(pos + old(out)@.len()) == b@.take(pos as int) + final(out)@,
{
    let n = out.len();
    let len = b.len();
    let mut i: usize = 0;
    while i < n
        invariant
            len == b@.len(),
            n == out@.len(),
            n == old(out)@.len(),
            pos + n <= b@.len(),
            i <= n,
            forall|j: int| 0 <= j < i ==> out@[j] == b@[pos + j],
        decreases n - i,
    {
        out[i] = b[pos + i];
        i = i + 1;
    }
    assert(b@.take(pos + n) =~= b@.take(pos as int) + out@);
}

fn read_u32s(b: &[u8], pos: usize, out: &mut [u32; 5])
    requires
        pos + 20 <= b@.len(),
    ensures
        b@.take(pos + 20) == b@.take(pos as int) + le32s(final(out)@),
{
    let len = b.len();
    let mut i: usize = 0;
    while i < 5
        invariant
            len == b@.len(),
            pos + 20 <= b@.len(),
            i <= 5,
            out@.len() == 5,
            b@.take(pos + 4 * i) == b@.take(pos as int) + le32s(out@.take(i as int)),
        decreases 5 - i,
    {
        let ghost before = out@;
        let x = read_u32(b, pos + 4 * i);
        out[i] = x;
        assert(out@.take(i + 1).drop_last() =~= before.take(i as int));
        i = i + 1;
    }
    assert(out@.take(5) =~= out@);
}

fn read_u64s(b: &[u8], pos: usize, out: &mut [u64; 15])
    requires
        pos + 120 <= b@.len(),
    ensures
        b@.take(pos + 120) == b@.take(pos as int) + le64s(final(out)@),
{
    let len = b.len();
    let mut i: usize = 0;
    while i < 15
        invariant
            len == b@.len(),
            pos + 120 <= b@.len(),
            i <= 15,
            out@.len() == 15,
            b@.take(pos + 8 * i) == b@.take(pos as int) + le64s(out@.take(i as int)),
        decreases 15 - i,
    {
        let ghost before = out@;
        let x = read_u64(b, pos + 8 * i);
        out[i] = x;
        assert(out@.take(i + 1).drop_last() =~= before.take(i as int));
        i = i + 1;
    }
    assert(out@.take(15) =~= out@);
}


fn read_u8(b: &[u8], pos: usize) -> (r: u8)
    requires
        pos + 1 <= b@.len(),
    ensures
        b@.take(pos + 1) == b@.take(pos as int) + seq![r],
{
    let r = b[pos];
    assert(b@.take(pos + 1) =~= b@.take(pos as int) + seq![r]);
    r
}

fn read_vec(b: &[u8], pos: usize, end: usize) -> (r: Vec<u8>)
    requires
        pos <= end <= b@.len(),
    ensures
        b@.take(end as int) == b@.take(pos as int) + r@,
{
    let mut out: Vec<u8> = Vec::new();
    let mut i: usize = pos;
    while i < end
        invariant
            pos <= i <= end <= b@.len(),
            b@.take(i as int) == b@.take(pos as int) + out@,
        decreases end - i,
    {
        let x = read_u8(b, i);
        out.push(x);
        i = i + 1;
    }
    out
}

/// The 16-bit little-endian value at a position.
pub open spec fn spec_u16_at(b: Seq<u8>, pos: int) -> u16 {
    (b[pos] as u16) | ((b[pos + 1] as u16) << 8)
}

/// Where the major version number stands in a header.
pub const VERSION_MAJOR_AT: usize = 24;

/// Where the minor version number stands in a header.
pub const VERSION_MINOR_AT: usize = 25;

/// Where the header size field stands in a header.
pub const HEADER_SIZE_AT: usize = 94;

/// The version that the bytes of a header declare.
pub open spec fn spec_version_in(b: Seq<u8>) -> Version {
    Version { major: b[VERSION_MAJOR_AT as int], minor: b[VERSION_MINOR_AT as int] }
}

/// Why the bytes do not hold a header, checked in this order; `None` if they do.
pub open spec fn read_failure(b: Seq<u8>) -> Option<Error> {
    if b.len() < HEADER_SIZE_1_0 {
        Some(Error::Truncated(b.len() as usize))
    } else if b.take(4) != LASF@ {
        Some(Error::Signature([b[0], b[1], b[2], b[3]]))
    } else if !spec_version_in(b).is_known() {
        Some(Error::UnsupportedVersion(spec_version_in(b)))
    } else if spec_u16_at(b, HEADER_SIZE_AT as int) < spec_version_in(b).spec_header_size() {
        Some(Error::TooSmall(spec_u16_at(b, HEADER_SIZE_AT as int)))
    } else if b.len() < spec_u16_at(b, HEADER_SIZE_AT as int) {
        Some(Error::Truncated(b.len() as usize))
    } else {
        None
    }
}

impl Header {
    /// Reads a header from the start of a file: the fixed part of its version, then padding up
    /// to the header size it declares. Bytes after that are not read. The optional fields are
    /// present exactly when the version has them, zeros included.
    pub fn from_bytes(b: &[u8]) -> (r: Result<Header, Error>)
        ensures
            match r {
                Ok(h) => read_failure(b@) is None && h.spec_bytes() == b@.take(h.header_size as int)
                    && h.version == spec_version_in(b@) && h.header_size == spec_u16_at(b@, HEADER_SIZE_AT as int)
                    && (h.start_of_waveform_data_packet_record is Some <==> h.version.spec_supports(Feature::Waveforms))
                    && (h.evlr is Some <==> h.version.spec_supports(Feature::Evlrs))
                    && (h.large_file is Some <==> h.version.spec_supports(Feature::LargeFiles)),
                Err(e) => read_failure(b@) == Some(e),
            },
    {
        let len = b.len();
        if len < HEADER_SIZE_1_0 as usize {
            return Err(Error::Truncated(len));
        }
        let mut file_signature: [u8; 4] = [0u8; 4];
        read_bytes(b, 0, &mut file_signature);
        assert(b@.take(0) =~= Seq::<u8>::empty());
        assert(b@.take(4) =~= file_signature@);
        if !(file_signature[0] == LASF[0] && file_signature[1] == LASF[1] && file_signature[2] == LASF[2]
            && file_signature[3] == LASF[3]) {
            assert(b@.take(4) != LASF@) by {
                if b@.take(4) == LASF@ {
                    assert(file_signature@ =~= LASF@);
                }
            }
            assert(file_signature == [b@[0], b@[1], b@[2], b@[3]]) by {
                assert(file_signature@ =~= [b@[0], b@[1], b@[2], b@[3]]@);
            }
            return Err(Error::Signature(file_signature));
        }
        assert(b@.take(4) =~= LASF@);
        let file_source_id = read_u16(b, 4);
        let global_encoding = read_u16(b, 6);
        let mut guid: [u8; 16] = [0u8; 16];
        read_bytes(b, 8, &mut guid);
        let major = read_u8(b, VERSION_MAJOR_AT);
        let minor = read_u8(b, VERSION_MINOR_AT);
        let version = Version { major, minor };
        assert(version == spec_version_in(b@)) by {
            assert(b@.take(25)[24] == b@[24]);
            assert(b@.take(26)[25] == b@[25]);
        }
        if !version.is_supported() {
            return Err(Error::UnsupportedVersion(version));
        }
        let mut system_identifier: [u8; 32] = [0u8; 32];
        read_bytes(b, 26, &mut system_identifier);
        let mut generating_software: [u8; 32] = [0u8; 32];
        read_bytes(b, 58, &mut generating_software);
        let file_creation_day_of_year = read_u16(b, 90);
        let file_creation_year = read_u16(b, 92);
        let header_size = read_u16(b, HEADER_SIZE_AT);
        assert(header_size == spec_u16_at(b@, HEADER_SIZE_AT as int)) by {
            assert(b@.take(96)[94] == b@[94] && b@.take(96)[95] == b@[95]);
            let b0 = b@[94];
            let b1 = b@[95];
            assert(le16(header_size) == seq![b0, b1]);
            assert(header_size == (b0 as u16) | ((b1 as u16) << 8)) by (bit_vector)
                requires
                    (header_size & 0xff) as u8 == b0,
                    ((header_size >> 8) & 0xff) as u8 == b1,
            ;
        }
        let fixed = version.header_size();
        if header_size < fixed {
            return Err(Error::TooSmall(header_size));
        }
        if len < header_size as usize {
            return Err(Error::Truncated(len));
        }
        let offset_to_point_data = read_u32(b, 96);
        let number_of_variable_length_records = read_u32(b, 100);
        let point_data_format_id = read_u8(b, 104);
        let point_data_record_length = read_u16(b, 105);
        let number_of_point_records = read_u32(b, 107);
        let mut number_of_points_by_return: [u32; 5] = [0u32; 5];
        read_u32s(b, 111, &mut number_of_points_by_return);
        let x_scale_factor = read_u64(b, 131);
        let y_scale_factor = read_u64(b, 139);
        let z_scale_factor = read_u64(b, 147);
        let x_offset = read_u64(b, 155);
        let y_offset = read_u64(b, 163);
        let z_offset = read_u64(b, 171);
        let max_x = read_u64(b, 179);
        let min_x = read_u64(b, 187);
        let max_y = read_u64(b, 195);
        let min_y = read_u64(b, 203);
        let max_z = read_u64(b, 211);
        let min_z = read_u64(b, 219);
        let ghost base = b@.take(227);
        let mut pos: usize = 227;
        let start_of_waveform_data_packet_record = if version.supports(Feature::Waveforms) {
            let n = read_u64(b, 227);
            pos = 235;
            Some(n)
        } else {
            None
        };
        let ghost with_waveform = b@.take(pos as int);
        let (evlr, large_file) = if version.supports(Feature::LargeFiles) {
            let start_of_first_evlr = read_u64(b, 235);
            let number_of_evlrs = read_u32(b, 243);
            let points = read_u64(b, 247);
            let mut by_return: [u64; 15] = [0u64; 15];
            read_u64s(b, 255, &mut by_return);
            pos = 375;
            (
                Some(Evlr { start_of_first_evlr, number_of_evlrs }),
                Some(LargeFile { number_of_point_records: points, number_of_points_by_return: by_return }),
            )
        } else {
            (None, None)
        };
        let ghost with_large_file = b@.take(pos as int);
        let padding = read_vec(b, pos, header_size as usize);
        let h = Header {
            file_signature,
            file_source_id,
            global_encoding,
            guid,
            version,
            system_identifier,
            generating_software,
            file_creation_day_of_year,
            file_creation_year,
            header_size,
            offset_to_point_data,
            number_of_variable_length_records,
            point_data_format_id,
            point_data_record_length,
            number_of_point_records,
            number_of_points_by_return,
            x_scale_factor,
            y_scale_factor,
            z_scale_factor,
            x_offset,
            y_offset,
            z_offset,
            max_x,
            min_x,
            max_y,
            min_y,
            max_z,
            min_z,
            start_of_waveform_data_packet_record,
            evlr,
            large_file,
            padding,
        };
        assert(base == h.spec_base_bytes());
        assert(with_waveform =~= base + h.spec_waveform_bytes());
        assert(with_large_file =~= with_waveform + h.spec_large_file_bytes());
        Ok(h)
    }
}

} // verus!
