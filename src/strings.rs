//! String data items: a declared length in UTF-16 code units, then
//! Modified-UTF-8 bytes up to a zero byte.
use crate::error::{DexParserError, Fault};
use crate::primitives::{first_zero, leb_span, take_uleb128, take_until_null_and_consume, uleb_value};
use crate::result_types::StringData;
use vstd::prelude::*;
use vstd::utf8::{decode_utf8, valid_utf8};

verus! {

/// What the mutf8 crate makes of a Modified-UTF-8 byte string: UTF-8 bytes,
/// or nothing where a multi-byte sequence is cut short.
pub uninterp spec fn utf8_of_mutf8(b: Seq<u8>) -> Option<Seq<u8>>;

/// Relies on mutf8::mutf8_to_utf8, which turns Modified-UTF-8 into UTF-8
/// bytes; its result depends on the bytes alone, and bytes below 0x80 come
/// back as they are.
#[verifier::external_body]
fn mutf8_to_utf8_bytes(b: &[u8]) -> (r: Option<Vec<u8>>)
    ensures
        r is Some <==> utf8_of_mutf8(b@) is Some,
        r is Some ==> utf8_of_mutf8(b@) == Some(r->Some_0@),
        (forall|i: int| 0 <= i < b@.len() ==> b@[i] < 0x80) ==> r is Some && r->Some_0@ == b@,
{
    mutf8::mutf8_to_utf8(b).ok().map(|c| c.into_owned())
}

/// Relies on String::from_utf8, which accepts exactly the valid UTF-8 byte
/// strings and keeps the characters they encode.
#[verifier::external_body]
pub(crate) fn string_from_utf8(b: Vec<u8>) -> (r: Option<String>)
    ensures
        r is Some <==> valid_utf8(b@),
        r is Some ==> r->Some_0@ == decode_utf8(b@),
{
    String::from_utf8(b).ok()
}

/// How many UTF-16 code units the character that a UTF-8 byte starts takes:
/// none for a continuation byte, two for the lead of a four-byte sequence.
pub open spec fn utf16_weight(b: u8) -> nat {
    if 0x80 <= b < 0xC0 {
        0
    } else if b >= 0xF0 {
        2
    } else {
        1
    }
}

/// The number of UTF-16 code units of the text that UTF-8 bytes encode.
pub open spec fn utf16_units(u: Seq<u8>) -> nat
    decreases u.len(),
{
    if u.len() == 0 {
        0
    } else {
        utf16_units(u.drop_last()) + utf16_weight(u.last())
    }
}

proof fn lemma_utf16_units_grow(u: Seq<u8>, i: int)
    requires
        0 <= i <= u.len(),
    ensures
        utf16_units(u.subrange(0, i)) <= utf16_units(u),
    decreases u.len() - i,
{
    if i < u.len() {
        lemma_utf16_units_grow(u, i + 1);
        assert(u.subrange(0, i + 1).drop_last() =~= u.subrange(0, i));
    } else {
        assert(u.subrange(0, i) =~= u);
    }
}

/// Counts the UTF-16 code units of UTF-8 bytes, stopping once the count is
/// past any 32-bit length.
fn count_utf16_units(u: &Vec<u8>) -> (r: u64)
    ensures
        r <= 0xFFFF_FFFF ==> r == utf16_units(u@),
        r > 0xFFFF_FFFF ==> utf16_units(u@) > 0xFFFF_FFFF,
{
    let mut n: u64 = 0;
    let mut i: usize = 0;
    while i < u.len() && n <= 0xFFFF_FFFF
        invariant
            i <= u@.len(),
            n == utf16_units(u@.subrange(0, i as int)),
            n <= 0x1_0000_0001,
        decreases u@.len() - i,
    {
        let b = u[i];
        let w: u64 = if 0x80 <= b && b < 0xC0 {
            0
        } else if b >= 0xF0 {
            2
        } else {
            1
        };
        proof {
            let t = u@.subrange(0, i + 1);
            assert(t.drop_last() =~= u@.subrange(0, i as int));
        }
        n = n + w;
        i = i + 1;
    }
    proof {
        lemma_utf16_units_grow(u@, i as int);
        if i == u@.len() {
            assert(u@.subrange(0, u@.len() as int) =~= u@);
        }
    }
    n
}

/// The Modified-UTF-8 bytes of the string data item at `pos`.
pub open spec fn string_bytes(s: Seq<u8>, pos: int) -> Seq<u8> {
    let p1 = leb_span(s, pos)->Ok_0;
    s.subrange(p1, first_zero(s, p1)->Some_0)
}

/// Where the string data item at `pos` ends, or why it cannot be decoded.
pub open spec fn string_span(s: Seq<u8>, pos: int) -> Result<int, Fault> {
    match leb_span(s, pos) {
        Err(f) => Err(f),
        Ok(p1) => match first_zero(s, p1) {
            None => Err(Fault::EndedEarly(1)),
            Some(z) => match utf8_of_mutf8(s.subrange(p1, z)) {
                None => Err(Fault::Encoding),
                Some(u) => if valid_utf8(u) && utf16_units(u) == uleb_value(s, pos) {
                    Ok(z + 1)
                } else {
                    Err(Fault::Encoding)
                },
            },
        },
    }
}

/// Makes the text of a string from its UTF-8 bytes, which must be valid and
/// take exactly `utf16_size` UTF-16 code units.
pub fn text_from_utf8(utf8: Vec<u8>, utf16_size: u32) -> (r: Result<String, DexParserError>)
    ensures
        match r {
            Ok(t) => valid_utf8(utf8@) && utf16_units(utf8@) == utf16_size && t@ == decode_utf8(
                utf8@,
            ),
            Err(e) => !(valid_utf8(utf8@) && utf16_units(utf8@) == utf16_size) && e.fault()
                == Fault::Encoding,
        },
{
    let units = count_utf16_units(&utf8);
    let ghost u = utf8@;
    let text = match string_from_utf8(utf8) {
        Some(t) => t,
        None => return Err(DexParserError::EncodingError),
    };
    if units != utf16_size as u64 {
        return Err(DexParserError::EncodingError);
    }
    Ok(text)
}

/// Decodes the string data item at `pos`; its declared length must be the
/// length of the decoded text in UTF-16 code units.
pub fn parse_string_data_item(data: &[u8], pos: usize) -> (r: Result<
    (StringData, usize),
    DexParserError,
>)
    requires
        pos <= data@.len(),
    ensures
        match r {
            Ok((sd, p)) => string_span(data@, pos as int) == Ok::<int, Fault>(p as int) && p
                <= data@.len() && sd.utf16_size == uleb_value(data@, pos as int) && sd.data@
                == decode_utf8(utf8_of_mutf8(string_bytes(data@, pos as int))->Some_0),
            Err(e) => string_span(data@, pos as int) == Err::<int, Fault>(e.fault()),
        },
{
    let (size, p1) = take_uleb128(data, pos)?;
    let (raw, p) = take_until_null_and_consume(data, p1)?;
    let utf8 = match mutf8_to_utf8_bytes(raw.as_slice()) {
        Some(u) => u,
        None => return Err(DexParserError::EncodingError),
    };
    let text = text_from_utf8(utf8, size)?;
    Ok((StringData { utf16_size: size, data: text }, p))
}

} // verus!
