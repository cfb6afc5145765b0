//! What holds across decoding and encoding a header.

use crate::error::Error;
use crate::date::is_valid_ordinal_date;
use crate::header::{
    classifies_extended, date_failure, first_key, date_fits_raw, date_from_raw, decode_failure, decodes_to,
    large_file_slots, legacy_slots, raw_return_count, raw_return_slots, return_map, Header,
    LARGE_FILE_MAX_RETURN, LEGACY_MAX_RETURN, MAX_HEADER_SIZE, MAX_U32,
};
use crate::raw;
use crate::raw::header::{le16, le32s, le64s, read_failure, spec_u16_at, spec_version_in, HEADER_SIZE_AT};
use crate::text::{fits_field, nul_index, padded, text_bytes, TEXT_FIELD_LEN};
use crate::version::{Feature, Version};
use crate::vlr::Vlr;
use vstd::prelude::*;
use vstd::utf8::*;

verus! {

/// The characters of a string up to its first NUL character (code point zero), or all of them.
pub open spec fn nul_char_index(s: Seq<char>) -> nat
    decreases s.len(),
{
    if s.len() == 0 || s[0] as u32 == 0 {
        0
    } else {
        1 + nul_char_index(s.drop_first())
    }
}

/// The text that a fixed-width field keeps of a string: its characters before the first NUL.
pub open spec fn text_chars(s: Seq<char>) -> Seq<char> {
    s.take(nul_char_index(s) as int)
}

/// The per-return counts that survive in a file: return numbers 1 to 15 whose count is not zero.
pub open spec fn kept_returns(m: Map<u8, u64>) -> Map<u8, u64> {
    Map::new(|k: u8| 1 <= k <= LARGE_FILE_MAX_RETURN && m.contains_key(k) && m[k] > 0, |k: u8| m[k])
}

proof fn lemma_scalar_has_no_nul(c: u32)
    requires
        c != 0,
    ensures
        forall|i: int| 0 <= i < encode_scalar(c).len() ==> encode_scalar(c)[i] != 0,
{
    assert(c != 0 && c <= 0x7F ==> (c & 0x7F) as u8 != 0) by (bit_vector);
    assert((0xC0u8 | ((c >> 6) & 0x1F) as u8) != 0) by (bit_vector);
    assert((0xE0u8 | ((c >> 12) & 0x0F) as u8) != 0) by (bit_vector);
    assert((0xF0u8 | ((c >> 18) & 0x7) as u8) != 0) by (bit_vector);
    assert((0x80u8 | (c & 0x3F) as u8) != 0) by (bit_vector);
    assert((0x80u8 | ((c >> 6) & 0x3F) as u8) != 0) by (bit_vector);
    assert((0x80u8 | ((c >> 12) & 0x3F) as u8) != 0) by (bit_vector);
}

proof fn lemma_nul_index_after(a: Seq<u8>, b: Seq<u8>)
    requires
        forall|i: int| 0 <= i < a.len() ==> a[i] != 0,
    ensures
        nul_index(a + b) == a.len() + nul_index(b),
    decreases a.len(),
{
    if a.len() > 0 {
        assert((a + b).drop_first() =~= a.drop_first() + b);
        lemma_nul_index_after(a.drop_first(), b);
    } else {
        assert(a + b =~= b);
    }
}

proof fn lemma_nul_index_padded(e: Seq<u8>, z: Seq<u8>)
    requires
        z.len() == 0 || z[0] == 0,
    ensures
        nul_index(e + z) == nul_index(e),
        nul_index(e) <= e.len(),
    decreases e.len(),
{
    if e.len() > 0 {
        assert((e + z)[0] == e[0]);
        if e[0] != 0 {
            assert((e + z).drop_first() =~= e.drop_first() + z);
            lemma_nul_index_padded(e.drop_first(), z);
        }
    } else {
        assert(e + z =~= z);
    }
}

proof fn lemma_encoding_cut_at_nul(s: Seq<char>)
    ensures
        nul_char_index(s) <= s.len(),
        nul_index(encode_utf8(s)) == encode_utf8(text_chars(s)).len(),
        encode_utf8(s).take(nul_index(encode_utf8(s)) as int) == encode_utf8(text_chars(s)),
    decreases s.len(),
{
    let e = encode_utf8(s);
    if s.len() == 0 {
        assert(text_chars(s) =~= s);
        assert(e.take(0) =~= e);
    } else if s[0] as u32 == 0 {
        let c = s[0] as u32;
        assert((c & 0x7F) as u8 == 0) by (bit_vector)
            requires
                c == 0,
        ;
        assert(e[0] == 0);
        assert(text_chars(s) =~= Seq::<char>::empty());
        assert(e.take(0) =~= Seq::<u8>::empty());
    } else {
        let rest = s.drop_first();
        let head = encode_scalar(s[0] as u32);
        let tail = encode_utf8(rest);
        lemma_scalar_has_no_nul(s[0] as u32);
        lemma_nul_index_after(head, tail);
        lemma_encoding_cut_at_nul(rest);
        assert(nul_char_index(s) == 1 + nul_char_index(rest));
        let t = text_chars(s);
        assert(t.len() > 0 && t[0] == s[0]);
        assert(t.drop_first() =~= text_chars(rest));
        assert(encode_utf8(t) == head + encode_utf8(t.drop_first()));
        assert(e == head + tail);
        lemma_nul_index_padded(tail, Seq::<u8>::empty());
        assert(e.take(nul_index(e) as int) =~= head + tail.take(nul_index(tail) as int));
    }
}

/// A string that fits a field is read back from the field as its characters before the first
/// NUL character, which is all of it where it holds none.
pub proof fn lemma_text_round_trip(s: Seq<char>)
    requires
        fits_field(s),
    ensures
        valid_utf8(text_bytes(padded(encode_utf8(s)))),
        decode_utf8(text_bytes(padded(encode_utf8(s)))) == text_chars(s),
{
    let e = encode_utf8(s);
    let z = Seq::new((TEXT_FIELD_LEN - e.len()) as nat, |i: int| 0u8);
    assert(padded(e) == e + z);
    lemma_nul_index_padded(e, z);
    lemma_encoding_cut_at_nul(s);
    assert(text_bytes(padded(e)) =~= e.take(nul_index(e) as int));
    encode_utf8_valid_utf8(text_chars(s));
    encode_utf8_decode_utf8(text_chars(s));
}

/// Every header that encodes gives a raw header that decodes.
pub proof fn lemma_encoded_header_decodes(h: Header, raw: raw::Header)
    requires
        h.encode_failure() is None,
        h.encodes_to(raw),
    ensures
        decode_failure(raw) is None,
{
    lemma_text_round_trip(h.system_identifier@);
    lemma_text_round_trip(h.generating_software@);
    h.point_format.lemma_id_round_trip();
}

/// Encoding a header and decoding the raw header with the same records and padding gives back
/// its point count, its per-return counts of return numbers 1 to 15 that are not zero, its
/// transforms, its bounds, its date, its version, and its identifiers up to a first NUL
/// character.
pub proof fn lemma_round_trip(h: Header, raw: raw::Header, h2: Header)
    requires
        h.encode_failure() is None,
        h.encodes_to(raw),
        decodes_to(raw, h.vlrs@, h.vlr_padding@, h2),
    ensures
        h2.number_of_points == h.number_of_points,
        h2.number_of_points_by_return@ == kept_returns(h.number_of_points_by_return@),
        h2.transforms == h.transforms,
        h2.bounds == h.bounds,
        h2.date == h.date,
        h2.version == h.version,
        h2.point_format == h.point_format,
        h2.gps_time_type == h.gps_time_type,
        h2.system_identifier@ == text_chars(h.system_identifier@),
        h2.generating_software@ == text_chars(h.generating_software@),
{
    let m = h.number_of_points_by_return@;
    let legacy = raw.number_of_points_by_return@;
    let slots = raw_return_slots(raw);
    assert(legacy == legacy_slots(m));
    assert forall|k: u8| 1 <= k <= LARGE_FILE_MAX_RETURN implies #[trigger] slots[k - 1] == if m.contains_key(k) {
        m[k]
    } else {
        0u64
    } by {
        if h.has_large_files() {
            if k <= LEGACY_MAX_RETURN {
                assert(legacy[k - 1] == legacy_slots(m)[k - 1]);
            }
        } else {
            assert(!h.legacy_misfit(k));
            if k <= LEGACY_MAX_RETURN {
                assert(legacy[k - 1] == legacy_slots(m)[k - 1]);
            }
        }
    }
    assert(h2.number_of_points_by_return@ =~= kept_returns(m)) by {
        assert forall|k: u8| #[trigger] kept_returns(m).contains_key(k) == return_map(slots).contains_key(k) by {
            if 1 <= k <= LARGE_FILE_MAX_RETURN {
                assert(slots[k - 1] == if m.contains_key(k) { m[k] } else { 0u64 });
            }
        }
        assert forall|k: u8| #[trigger] kept_returns(m).contains_key(k) implies kept_returns(m)[k] == return_map(slots)[k] by {
            assert(slots[k - 1] == if m.contains_key(k) { m[k] } else { 0u64 });
        }
    }
    lemma_text_round_trip(h.system_identifier@);
    lemma_text_round_trip(h.generating_software@);
    h.point_format.lemma_id_round_trip();
    h.gps_time_type.lemma_encoding_round_trip();
    match h.date {
        Some(d) => {
            assert(date_fits_raw(d));
            assert(date_from_raw(raw) == Some(d));
        },
        None => {
            assert(!is_valid_ordinal_date(0, 0));
        },
    }
}

/// On reading, a legacy point count that is not zero wins over the large-file count, and each
/// legacy per-return slot that is not zero wins over its large-file slot.
pub proof fn lemma_legacy_wins(raw: raw::Header, vlrs: Seq<Vlr>, vlr_padding: Seq<u8>, h: Header)
    requires
        decodes_to(raw, vlrs, vlr_padding, h),
    ensures
        raw.number_of_point_records > 0 ==> h.number_of_points == raw.number_of_point_records,
        forall|k: u8| 1 <= k <= LEGACY_MAX_RETURN && raw.number_of_points_by_return[k - 1] > 0
            ==> #[trigger] h.number_of_points_by_return@.contains_key(k)
            && h.number_of_points_by_return@[k] == raw.number_of_points_by_return[k - 1],
{
    assert forall|k: u8| 1 <= k <= LEGACY_MAX_RETURN && raw.number_of_points_by_return[k - 1] > 0
        implies #[trigger] h.number_of_points_by_return@.contains_key(k)
        && h.number_of_points_by_return@[k] == raw.number_of_points_by_return[k - 1] by {
        assert(raw_return_slots(raw)[k - 1] == raw_return_count(raw, k as int));
    }
}

/// Under a version with the large-file block, a point count beyond 32 bits is written as zero
/// in the legacy field and in full in the large-file block.
pub proof fn lemma_large_file_fallback(h: Header, raw: raw::Header)
    requires
        h.has_large_files(),
        h.number_of_points > MAX_U32,
        h.encodes_to(raw),
    ensures
        raw.number_of_point_records == 0,
        raw.large_file matches Some(f) && f.number_of_point_records == h.number_of_points,
{
}

/// Under a version without the large-file block, a point count beyond 32 bits cannot be
/// encoded; once the fields written before it are valid, the error is too many points.
pub proof fn lemma_too_many_points_without_large_files(h: Header)
    requires
        h.version.is_known(),
        !h.has_large_files(),
        h.number_of_points > MAX_U32,
    ensures
        h.encode_failure() is Some,
        fits_field(h.system_identifier@) && fits_field(h.generating_software@)
            && date_failure(h.date) is None && h.spec_header_size() <= MAX_HEADER_SIZE && h.spec_offset_to_point_data() <= MAX_U32
            && h.spec_vlrs_of(false).len() <= MAX_U32 && h.point_format.is_valid()
            ==> h.encode_failure() == Some(Error::TooManyPoints(h.number_of_points, h.version)),
{
}

/// A count filed under return number zero leaves no trace in the raw header.
pub proof fn lemma_return_number_zero_ignored(h: Header, raw: raw::Header)
    requires
        h.encodes_to(raw),
    ensures
        raw.number_of_points_by_return@ == legacy_slots(h.number_of_points_by_return@.remove(0)),
        raw.large_file matches Some(f) ==> f.number_of_points_by_return@ == large_file_slots(
            h.number_of_points_by_return@.remove(0),
        ),
{
    let m = h.number_of_points_by_return@;
    assert(legacy_slots(m) =~= legacy_slots(m.remove(0)));
    assert(large_file_slots(m) =~= large_file_slots(m.remove(0)));
}

proof fn lemma_first_key_found(p: spec_fn(u8) -> bool, k: u8)
    requires
        p(k),
    ensures
        p(first_key(p)),
    decreases k,
{
    if exists|j: u8| j < k && #[trigger] p(j) {
        let j = choose|j: u8| j < k && #[trigger] p(j);
        lemma_first_key_found(p, j);
    } else {
        assert(p(k) && forall|j: u8| j < k ==> !#[trigger] p(j));
    }
}

/// Two headers that differ at most in a count filed under return number zero.
pub open spec fn differ_in_return_zero_only(h: Header, h2: Header) -> bool {
    &&& h2.file_source_id == h.file_source_id
    &&& h2.gps_time_type == h.gps_time_type
    &&& h2.guid == h.guid
    &&& h2.version == h.version
    &&& h2.system_identifier == h.system_identifier
    &&& h2.generating_software == h.generating_software
    &&& h2.date == h.date
    &&& h2.padding == h.padding
    &&& h2.vlr_padding == h.vlr_padding
    &&& h2.point_format == h.point_format
    &&& h2.transforms == h.transforms
    &&& h2.bounds == h.bounds
    &&& h2.number_of_points == h.number_of_points
    &&& h2.vlrs == h.vlrs
    &&& h2.number_of_points_by_return@.remove(0) == h.number_of_points_by_return@.remove(0)
}

proof fn lemma_return_zero_misfits(h: Header, h2: Header)
    requires
        differ_in_return_zero_only(h, h2),
    ensures
        legacy_slots(h.number_of_points_by_return@) == legacy_slots(h2.number_of_points_by_return@),
        large_file_slots(h.number_of_points_by_return@) == large_file_slots(h2.number_of_points_by_return@),
        (exists|k: u8| h.legacy_misfit(k)) == (exists|k: u8| h2.legacy_misfit(k)),
        (exists|k: u8| h.large_file_misfit(k)) == (exists|k: u8| h2.large_file_misfit(k)),
        first_key(|k: u8| h.large_file_misfit(k)) == first_key(|k: u8| h2.large_file_misfit(k)),
        (exists|k: u8| h.legacy_misfit(k)) ==> h.legacy_misfit_error(first_key(|k: u8| h.legacy_misfit(k)))
            == h2.legacy_misfit_error(first_key(|k: u8| h2.legacy_misfit(k))),
{
    let m = h.number_of_points_by_return@;
    let m2 = h2.number_of_points_by_return@;
    assert forall|k: u8| k != 0 implies (#[trigger] m.contains_key(k)) == m2.contains_key(k) && (m.contains_key(k) ==> m[k] == m2[k]) by {
        assert(m.remove(0).contains_key(k) == m.contains_key(k));
        assert(m2.remove(0).contains_key(k) == m2.contains_key(k));
        if m.contains_key(k) {
            assert(m.remove(0)[k] == m[k]);
            assert(m2.remove(0)[k] == m2[k]);
        }
    }
    assert(legacy_slots(m) =~= legacy_slots(m2));
    assert(large_file_slots(m) =~= large_file_slots(m2));
    assert((|k: u8| h.legacy_misfit(k)) =~= (|k: u8| h2.legacy_misfit(k)));
    assert forall|k: u8| #[trigger] h.large_file_misfit(k) == h2.large_file_misfit(k) by {
        if k != 0 {
            assert(m.contains_key(k) == m2.contains_key(k));
        }
    }
    assert((|k: u8| h.large_file_misfit(k)) =~= (|k: u8| h2.large_file_misfit(k)));
    if exists|k: u8| h.legacy_misfit(k) {
        let k = choose|k: u8| h.legacy_misfit(k);
        lemma_first_key_found(|k: u8| h.legacy_misfit(k), k);
        let f = first_key(|k: u8| h.legacy_misfit(k));
        assert(h.legacy_misfit(f));
        assert(h.legacy_misfit_error(f) == h2.legacy_misfit_error(f));
    }
    assert(first_key(|k: u8| h.legacy_misfit(k)) == first_key(|k: u8| h2.legacy_misfit(k)));
    assert(first_key(|k: u8| h.large_file_misfit(k)) == first_key(|k: u8| h2.large_file_misfit(k)));
    assert forall|k: u8| #[trigger] h.legacy_misfit(k) == h2.legacy_misfit(k) by {
        if k != 0 {
            assert(m.contains_key(k) == m2.contains_key(k));
        }
    }
    if exists|k: u8| h.legacy_misfit(k) {
        let k = choose|k: u8| h.legacy_misfit(k);
        assert(h2.legacy_misfit(k));
    }
    if exists|k: u8| h2.legacy_misfit(k) {
        let k = choose|k: u8| h2.legacy_misfit(k);
        assert(h.legacy_misfit(k));
    }
    if exists|k: u8| h.large_file_misfit(k) {
        let k = choose|k: u8| h.large_file_misfit(k);
        assert(h2.large_file_misfit(k));
    }
    if exists|k: u8| h2.large_file_misfit(k) {
        let k = choose|k: u8| h2.large_file_misfit(k);
        assert(h.large_file_misfit(k));
    }


}

/// A count filed under return number zero changes neither whether a header encodes, nor the
/// error, nor the raw header it encodes to.
pub proof fn lemma_return_number_zero_changes_nothing(h: Header, h2: Header, raw: raw::Header)
    requires
        differ_in_return_zero_only(h, h2),
    ensures
        h2.encode_failure() == h.encode_failure(),
        h2.encodes_to(raw) == h.encodes_to(raw),
{
    lemma_return_zero_misfits(h, h2);
    assert(h.spec_vlrs_of(false) == h2.spec_vlrs_of(false));
    assert(h.spec_vlrs_of(true) == h2.spec_vlrs_of(true));
}

/// Under a version without the large-file block, a count for a return number above 5 cannot be
/// encoded.
pub proof fn lemma_high_return_needs_large_files(h: Header, k: u8)
    requires
        !h.has_large_files(),
        h.number_of_points_by_return@.contains_key(k),
        k > LEGACY_MAX_RETURN,
    ensures
        h.encode_failure() is Some,
{
    assert(h.legacy_misfit(k));
}

/// Under a version with the large-file block, a count for a return number from 6 to 15 is
/// written in its large-file slot only.
pub proof fn lemma_high_return_in_large_file(h: Header, raw: raw::Header, k: u8)
    requires
        h.has_large_files(),
        h.encodes_to(raw),
        h.number_of_points_by_return@.contains_key(k),
        LEGACY_MAX_RETURN < k <= 15,
    ensures
        raw.large_file matches Some(f) && f.number_of_points_by_return[k - 1] == h.number_of_points_by_return@[k],
        forall|i: int| 0 <= i < 5 ==> raw.number_of_points_by_return[i] == legacy_slots(
            h.number_of_points_by_return@.remove(k),
        )[i],
{
}

/// A record is extended when it is too long for a standard one, whatever the version; one that
/// only asks to be extended is extended under a version with extended records, and standard
/// under one without; one that neither asks nor is too long is standard.
pub proof fn lemma_vlr_classification(vlr: Vlr, version: Version)
    ensures
        vlr.is_oversized() ==> classifies_extended(vlr, version),
        !vlr.is_oversized() && !vlr.is_extended ==> !classifies_extended(vlr, version),
        vlr.is_extended && version.spec_supports(Feature::Evlrs) ==> classifies_extended(vlr, version),
        !vlr.is_oversized() && !version.spec_supports(Feature::Evlrs) ==> !classifies_extended(vlr, version),
{
}

/// The header size, fixed part plus padding, must fit in 16 bits: past that limit encoding fails
/// with a size error, once the identifiers fit; up to it, no size error comes.
pub proof fn lemma_header_size_limit(h: Header)
    requires
        h.version.is_known(),
    ensures
        fits_field(h.system_identifier@) && fits_field(h.generating_software@)
            && date_failure(h.date) is None && h.spec_header_size() > MAX_HEADER_SIZE ==> h.encode_failure() == Some(Error::TooLarge(h.spec_header_size() as u128)),
        h.spec_header_size() <= MAX_HEADER_SIZE ==> !(h.encode_failure() matches Some(Error::TooLarge(_))),
{
}


proof fn lemma_le32s_len(s: Seq<u32>)
    ensures
        le32s(s).len() == 4 * s.len(),
    decreases s.len(),
{
    if s.len() > 0 {
        lemma_le32s_len(s.drop_last());
    }
}

proof fn lemma_le64s_len(s: Seq<u64>)
    ensures
        le64s(s).len() == 8 * s.len(),
    decreases s.len(),
{
    if s.len() > 0 {
        lemma_le64s_len(s.drop_last());
    }
}

#[verifier::rlimit(50)]
/// The bytes written for an encoded header are exactly as many as its header size field says.
pub proof fn lemma_written_header_size(h: Header, raw: raw::Header)
    requires
        h.encode_failure() is None,
        h.encodes_to(raw),
    ensures
        raw.spec_bytes().len() == raw.header_size,
{
    lemma_le32s_len(raw.number_of_points_by_return@);
    match raw.large_file {
        Some(f) => lemma_le64s_len(f.number_of_points_by_return@),
        None => lemma_le64s_len(Seq::new(15, |i: int| 0u64)),
    }
}


proof fn lemma_leading_bytes(raw: raw::Header)
    ensures
        raw.spec_bytes().len() >= 96,
        raw.spec_bytes().take(4) == raw.file_signature@,
        raw.spec_bytes()[24] == raw.version.major,
        raw.spec_bytes()[25] == raw.version.minor,
        raw.spec_bytes()[94] == le16(raw.header_size)[0],
        raw.spec_bytes()[95] == le16(raw.header_size)[1],
{
    let prefix = raw.file_signature@ + le16(raw.file_source_id) + le16(raw.global_encoding)
        + raw.guid@ + seq![raw.version.major] + seq![raw.version.minor]
        + raw.system_identifier@ + raw.generating_software@ + le16(raw.file_creation_day_of_year)
        + le16(raw.file_creation_year) + le16(raw.header_size);
    let b = raw.spec_bytes();
    assert(prefix.len() == 96);
    assert(b.take(96) =~= prefix);
    assert(b.take(4) =~= raw.file_signature@);
    assert(b[24] == b.take(96)[24]);
    assert(b[25] == b.take(96)[25]);
    assert(b[94] == b.take(96)[94]);
    assert(b[95] == b.take(96)[95]);
}

#[verifier::rlimit(50)]
/// The bytes written for an encoded header read back: they hold no reason to refuse them, and
/// declare the same version and header size.
pub proof fn lemma_written_header_reads(h: Header, raw: raw::Header)
    requires
        h.encode_failure() is None,
        h.encodes_to(raw),
    ensures
        read_failure(raw.spec_bytes()) is None,
        spec_version_in(raw.spec_bytes()) == raw.version,
        spec_u16_at(raw.spec_bytes(), HEADER_SIZE_AT as int) == raw.header_size,
{
    lemma_written_header_size(h, raw);
    lemma_leading_bytes(raw);
    let x = raw.header_size;
    let b0 = (x & 0xff) as u8;
    let b1 = ((x >> 8) & 0xff) as u8;
    assert((b0 as u16) | ((b1 as u16) << 8) == x) by (bit_vector)
        requires
            b0 == (x & 0xff) as u8,
            b1 == ((x >> 8) & 0xff) as u8,
    ;
}

} // verus!
