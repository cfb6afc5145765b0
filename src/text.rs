//! Fixed-width, NUL-padded text fields.

use crate::error::Error;
use vstd::prelude::*;
use vstd::string::*;
use vstd::utf8::*;

verus! {

/// The width in bytes of a text field of the raw header.
pub const TEXT_FIELD_LEN: usize = 32;

/// The position of the first NUL byte, or the length if there is none.
pub open spec fn nul_index(b: Seq<u8>) -> nat
    decreases b.len(),
{
    if b.len() == 0 || b[0] == 0 {
        0
    } else {
        1 + nul_index(b.drop_first())
    }
}

/// The bytes of a field up to its first NUL.
pub open spec fn text_bytes(b: Seq<u8>) -> Seq<u8> {
    b.take(nul_index(b) as int)
}

/// The field that holds the given bytes, padded with NULs to the full width.
pub open spec fn padded(b: Seq<u8>) -> Seq<u8> {
    b + Seq::new((TEXT_FIELD_LEN - b.len()) as nat, |i: int| 0u8)
}

/// A string whose UTF-8 encoding fits in a field.
pub open spec fn fits_field(s: Seq<char>) -> bool {
    encode_utf8(s).len() <= TEXT_FIELD_LEN
}

/// The first NUL lies where every byte before it is not NUL and the byte there is (or the
/// bytes end).
pub proof fn lemma_nul_index(b: Seq<u8>, p: int)
    requires
        0 <= p <= b.len(),
        p < b.len() ==> b[p] == 0,
        forall|j: int| 0 <= j < p ==> b[j] != 0,
    ensures
        nul_index(b) == p,
    decreases p,
{
    if p > 0 {
        assert forall|j: int| 0 <= j < p - 1 implies b.drop_first()[j] != 0 by {
            assert(b[j + 1] != 0);
        }
        lemma_nul_index(b.drop_first(), p - 1);
    }
}

/// Relies on `std::str::from_utf8`: it succeeds exactly on valid UTF-8, and then holds the
/// characters that the bytes encode.
#[verifier::external_body]
fn utf8_to_string(b: &[u8]) -> (r: Option<String>)
    ensures
        r is Some <==> valid_utf8(b@),
        r matches Some(s) ==> s@ == decode_utf8(b@),
{
    std::str::from_utf8(b).ok().map(|s| s.to_string())
}

/// Decodes a fixed-width field: the bytes up to the first NUL, or all of them, must be UTF-8.
pub fn decode_field(field: &[u8; 32]) -> (r: Result<String, Error>)
    ensures
        match r {
            Ok(s) => valid_utf8(text_bytes(field@)) && s@ == decode_utf8(text_bytes(field@)),
            Err(e) => !valid_utf8(text_bytes(field@)) && e == Error::InvalidText(*field),
        },
{
    let mut prefix: Vec<u8> = Vec::new();
    let mut i: usize = 0;
    while i < TEXT_FIELD_LEN && field[i] != 0
        invariant
            i <= TEXT_FIELD_LEN,
            field@.len() == TEXT_FIELD_LEN,
            prefix@ == field@.take(i as int),
            forall|j: int| 0 <= j < i ==> field@[j] != 0,
        decreases TEXT_FIELD_LEN - i,
    {
        prefix.push(field[i]);
        i = i + 1;
        assert(prefix@ =~= field@.take(i as int));
    }
    proof {
        lemma_nul_index(field@, i as int);
    }
    match utf8_to_string(prefix.as_slice()) {
        Some(s) => Ok(s),
        None => Err(Error::InvalidText(*field)),
    }
}

/// Encodes a string into a fixed-width field, padded with NULs; fails if its UTF-8 encoding
/// is longer than the field.
pub fn encode_field(s: &String) -> (r: Result<[u8; 32], Error>)
    ensures
        match r {
            Ok(field) => fits_field(s@) && field@ == padded(encode_utf8(s@)),
            Err(e) => !fits_field(s@) && e == Error::StringTooLong(*s),
        },
{
    let bytes = s.as_str().as_bytes_vec();
    if bytes.len() > TEXT_FIELD_LEN {
        return Err(Error::StringTooLong(s.clone()));
    }
    let mut field: [u8; 32] = [0u8; 32];
    let mut i: usize = 0;
    while i < bytes.len()
        invariant
            bytes@ == encode_utf8(s@),
            bytes@.len() <= TEXT_FIELD_LEN,
            i <= bytes@.len(),
            field@.len() == TEXT_FIELD_LEN,
            forall|j: int| 0 <= j < i ==> field@[j] == bytes@[j],
            forall|j: int| i <= j < TEXT_FIELD_LEN ==> field@[j] == 0,
        decreases bytes@.len() - i,
    {
        field[i] = bytes[i];
        i = i + 1;
    }
    assert(field@ =~= padded(bytes@));
    Ok(field)
}

} // verus!
