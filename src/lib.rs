//! Decoder for the Dalvik executable (DEX) container format: from the bytes
//! of one file to an owned, fully cross-referenced model of its classes,
//! methods, fields, prototypes, annotations, code and constants.

pub mod annotations;
pub mod call_sites;
pub mod classes;
pub mod code;
pub mod dex;
pub mod encoded_value;
pub mod error;
pub mod items;
pub mod primitives;
pub mod raw;
pub mod raw_types;
pub mod resolve;
pub mod result_types;
pub mod strings;

pub use error::DexParserError;
pub use primitives::Endianness;
pub use result_types::{
    AccessFlag, AnnotationElement, CallSiteItem, AnnotationItem, Annotations, ClassAnnotation, ClassData,
    ClassDefinition, Code, DebugInfo, DebugItemBytecodes, DexFile, DexFileData, EncodedAnnotationItem,
    EncodedCatchHandler, EncodedField, EncodedMethod, EncodedTypeAddrPair, EncodedValue, Field,
    FieldAnnotation, Header, Method, MethodAnnotation, ParameterAnnotation, Prototype, StringData,
    TryItem, TypeIdentifier, Visibility,
};

use dex::{
    detect_endianness, dex_check, dex_matches, endianness_of, parse_dex_file, raw_file_check,
    raw_read, transform_dex_file,
};
use raw_types::RawDexFile;
use error::Fault;
use items::HEADER_SIZE;
use vstd::prelude::*;

verus! {

/// Whether a file decodes: it holds a header with a known endian tag, its
/// raw parts can be read, and the raw file read from it resolves.
pub open spec fn decodes(s: Seq<u8>) -> bool {
    &&& s.len() >= HEADER_SIZE
    &&& endianness_of(s) is Some
    &&& raw_file_check(s, endianness_of(s)->Some_0) is Ok
    &&& forall|raw: RawDexFile|
        #[trigger] raw_read(s, endianness_of(s)->Some_0, raw) ==> dex_check(
            raw,
            endianness_of(s)->Some_0,
        ) is Ok
}

/// Decoding `s` fails with `f`: the first stage that fails gives it.
pub open spec fn fails_with(s: Seq<u8>, f: Fault) -> bool {
    if s.len() < HEADER_SIZE {
        f == Fault::EndedEarly(HEADER_SIZE)
    } else {
        match endianness_of(s) {
            None => f == Fault::Malformed,
            Some(e) => match raw_file_check(s, e) {
                Err(g) => f == g,
                Ok(_) => exists|raw: RawDexFile|
                    #[trigger] raw_read(s, e, raw) && dex_check(raw, e) == Err::<(), Fault>(f),
            },
        }
    }
}

/// Decodes one DEX file. The byte order comes from the endian tag; the
/// checksum and signature are not checked.
pub fn parse(buf: &[u8]) -> (r: Result<DexFile, DexParserError>)
    ensures
        match r {
            Ok(d) => {
                let e = d.header.endianness;
                &&& buf@.len() >= HEADER_SIZE
                &&& endianness_of(buf@) == Some(e)
                &&& raw_file_check(buf@, e) is Ok
                &&& exists|raw: RawDexFile|
                    #[trigger] raw_read(buf@, e, raw) && dex_check(raw, e) is Ok && dex_matches(
                        raw,
                        e,
                        d,
                    )
            },
            Err(err) => fails_with(buf@, err.fault()),
        },
        decodes(buf@) ==> r is Ok,
{
    let e = detect_endianness(buf)?;
    let raw = parse_dex_file(buf, e)?;
    let ghost read = raw;
    let r = transform_dex_file(raw, e);
    proof {
        assert(raw_read(buf@, e, read));
        if r is Ok {
            assert(dex_matches(read, e, r->Ok_0));
        } else {
            assert(dex_check(read, e) == Err::<(), Fault>(r->Err_0.fault()));
        }
    }
    r
}

} // verus!
