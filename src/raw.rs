//! The raw parser: fixed-layout records and index pools, read verbatim in
//! the file's byte order.
use crate::error::{DexParserError, Fault};
use crate::primitives::{read_u16_at, read_u32_at, span, u16_at, u32_at, Endianness};
use crate::raw_types::{
    map_item_type_of, MapListItemType, RawAnnotationSetItem, RawAnnotations, RawAnnotationSetRefList,
    RawClassDefinition, RawField, RawFieldAnnotation, RawMapList, RawMapListItem, RawMethod,
    RawMethodAnnotation, RawMethodHandleItem, RawParameterAnnotation, RawPrototype, RawTypeList,
};
use vstd::prelude::*;

verus! {

/// Outcome of reading `n` records of `size` bytes each from `pos`: a record
/// that does not fit asks for its own size.
pub open spec fn records_span(len: int, pos: int, n: int, size: int) -> Result<int, Fault> {
    if pos + n * size <= len {
        Ok(pos + n * size)
    } else {
        Err(Fault::EndedEarly(size as usize))
    }
}

/// Reads `n` 32-bit unsigned integers.
pub fn parse_u32_list(input: &[u8], pos: usize, n: u32, e: Endianness) -> (r: Result<
    (Vec<u32>, usize),
    DexParserError,
>)
    requires
        pos <= input@.len(),
    ensures
        match r {
            Ok((v, p)) => records_span(input@.len() as int, pos as int, n as int, 4) == Ok::<
                int,
                Fault,
            >(p as int) && v@.len() == n && forall|i: int|
                0 <= i < n ==> #[trigger] v@[i] == u32_at(input@, pos + 4 * i, e),
            Err(err) => records_span(input@.len() as int, pos as int, n as int, 4) == Err::<
                int,
                Fault,
            >(err.fault()),
        },
{
    let mut v: Vec<u32> = Vec::new();
    let mut p = pos;
    let mut i: u32 = 0;
    while i < n
        invariant
            i <= n,
            p == pos + 4 * i,
            p <= input@.len(),
            v@.len() == i,
            forall|j: int| 0 <= j < i ==> #[trigger] v@[j] == u32_at(input@, pos + 4 * j, e),
        decreases n - i,
    {
        if input.len() - p < 4 {
            return Err(DexParserError::EndedEarly { needed: 4 });
        }
        v.push(read_u32_at(input, p, e));
        p = p + 4;
        i = i + 1;
    }
    Ok((v, p))
}

pub open spec fn prototype_at(s: Seq<u8>, q: int, e: Endianness, r: RawPrototype) -> bool {
    &&& r.shorty_idx == u32_at(s, q, e)
    &&& r.return_type_idx == u32_at(s, q + 4, e)
    &&& r.parameters_off == u32_at(s, q + 8, e)
}

/// Reads `n` prototype records of twelve bytes.
pub fn parse_proto_id_items(input: &[u8], pos: usize, n: u32, e: Endianness) -> (r: Result<
    (Vec<RawPrototype>, usize),
    DexParserError,
>)
    requires
        pos <= input@.len(),
    ensures
        match r {
            Ok((v, p)) => records_span(input@.len() as int, pos as int, n as int, 12) == Ok::<
                int,
                Fault,
            >(p as int) && v@.len() == n && forall|i: int|
                0 <= i < n ==> prototype_at(input@, pos + 12 * i, e, #[trigger] v@[i]),
            Err(err) => records_span(input@.len() as int, pos as int, n as int, 12) == Err::<
                int,
                Fault,
            >(err.fault()),
        },
{
    let mut v: Vec<RawPrototype> = Vec::new();
    let mut p = pos;
    let mut i: u32 = 0;
    while i < n
        invariant
            i <= n,
            p == pos + 12 * i,
            p <= input@.len(),
            v@.len() == i,
            forall|j: int| 0 <= j < i ==> prototype_at(input@, pos + 12 * j, e, #[trigger] v@[j]),
        decreases n - i,
    {
        if input.len() - p < 12 {
            return Err(DexParserError::EndedEarly { needed: 12 });
        }
        v.push(
            RawPrototype {
                shorty_idx: read_u32_at(input, p, e),
                return_type_idx: read_u32_at(input, p + 4, e),
                parameters_off: read_u32_at(input, p + 8, e),
            },
        );
        p = p + 12;
        i = i + 1;
    }
    Ok((v, p))
}

pub open spec fn field_at(s: Seq<u8>, q: int, e: Endianness, r: RawField) -> bool {
    &&& r.class_idx == u16_at(s, q, e)
    &&& r.type_idx == u16_at(s, q + 2, e)
    &&& r.name_idx == u32_at(s, q + 4, e)
}

/// Reads `n` field records of eight bytes.
pub fn parse_field_id_items(input: &[u8], pos: usize, n: u32, e: Endianness) -> (r: Result<
    (Vec<RawField>, usize),
    DexParserError,
>)
    requires
        pos <= input@.len(),
    ensures
        match r {
            Ok((v, p)) => records_span(input@.len() as int, pos as int, n as int, 8) == Ok::<
                int,
                Fault,
            >(p as int) && v@.len() == n && forall|i: int|
                0 <= i < n ==> field_at(input@, pos + 8 * i, e, #[trigger] v@[i]),
            Err(err) => records_span(input@.len() as int, pos as int, n as int, 8) == Err::<
                int,
                Fault,
            >(err.fault()),
        },
{
    let mut v: Vec<RawField> = Vec::new();
    let mut p = pos;
    let mut i: u32 = 0;
    while i < n
        invariant
            i <= n,
            p == pos + 8 * i,
            p <= input@.len(),
            v@.len() == i,
            forall|j: int| 0 <= j < i ==> field_at(input@, pos + 8 * j, e, #[trigger] v@[j]),
        decreases n - i,
    {
        if input.len() - p < 8 {
            return Err(DexParserError::EndedEarly { needed: 8 });
        }
        v.push(
            RawField {
                class_idx: read_u16_at(input, p, e),
                type_idx: read_u16_at(input, p + 2, e),
                name_idx: read_u32_at(input, p + 4, e),
            },
        );
        p = p + 8;
        i = i + 1;
    }
    Ok((v, p))
}

pub open spec fn method_at(s: Seq<u8>, q: int, e: Endianness, r: RawMethod) -> bool {
    &&& r.class_idx == u16_at(s, q, e)
    &&& r.proto_idx == u16_at(s, q + 2, e)
    &&& r.name_idx == u32_at(s, q + 4, e)
}

/// Reads `n` method records of eight bytes.
pub fn parse_method_id_items(input: &[u8], pos: usize, n: u32, e: Endianness) -> (r: Result<
    (Vec<RawMethod>, usize),
    DexParserError,
>)
    requires
        pos <= input@.len(),
    ensures
        match r {
            Ok((v, p)) => records_span(input@.len() as int, pos as int, n as int, 8) == Ok::<
                int,
                Fault,
            >(p as int) && v@.len() == n && forall|i: int|
                0 <= i < n ==> method_at(input@, pos + 8 * i, e, #[trigger] v@[i]),
            Err(err) => records_span(input@.len() as int, pos as int, n as int, 8) == Err::<
                int,
                Fault,
            >(err.fault()),
        },
{
    let mut v: Vec<RawMethod> = Vec::new();
    let mut p = pos;
    let mut i: u32 = 0;
    while i < n
        invariant
            i <= n,
            p == pos + 8 * i,
            p <= input@.len(),
            v@.len() == i,
            forall|j: int| 0 <= j < i ==> method_at(input@, pos + 8 * j, e, #[trigger] v@[j]),
        decreases n - i,
    {
        if input.len() - p < 8 {
            return Err(DexParserError::EndedEarly { needed: 8 });
        }
        v.push(
            RawMethod {
                class_idx: read_u16_at(input, p, e),
                proto_idx: read_u16_at(input, p + 2, e),
                name_idx: read_u32_at(input, p + 4, e),
            },
        );
        p = p + 8;
        i = i + 1;
    }
    Ok((v, p))
}

pub open spec fn class_def_at(s: Seq<u8>, q: int, e: Endianness, r: RawClassDefinition) -> bool {
    &&& r.class_idx == u32_at(s, q, e)
    &&& r.access_flags == u32_at(s, q + 4, e)
    &&& r.superclass_idx == u32_at(s, q + 8, e)
    &&& r.interfaces_off == u32_at(s, q + 12, e)
    &&& r.source_file_idx == u32_at(s, q + 16, e)
    &&& r.annotations_off == u32_at(s, q + 20, e)
    &&& r.class_data_off == u32_at(s, q + 24, e)
    &&& r.static_values_off == u32_at(s, q + 28, e)
}

/// Reads `n` class definition records of thirty-two bytes.
pub fn parse_class_def_items(input: &[u8], pos: usize, n: u32, e: Endianness) -> (r: Result<
    (Vec<RawClassDefinition>, usize),
    DexParserError,
>)
    requires
        pos <= input@.len(),
    ensures
        match r {
            Ok((v, p)) => records_span(input@.len() as int, pos as int, n as int, 32) == Ok::<
                int,
                Fault,
            >(p as int) && v@.len() == n && forall|i: int|
                0 <= i < n ==> class_def_at(input@, pos + 32 * i, e, #[trigger] v@[i]),
            Err(err) => records_span(input@.len() as int, pos as int, n as int, 32) == Err::<
                int,
                Fault,
            >(err.fault()),
        },
{
    let mut v: Vec<RawClassDefinition> = Vec::new();
    let mut p = pos;
    let mut i: u32 = 0;
    while i < n
        invariant
            i <= n,
            p == pos + 32 * i,
            p <= input@.len(),
            v@.len() == i,
            forall|j: int|
                0 <= j < i ==> class_def_at(input@, pos + 32 * j, e, #[trigger] v@[j]),
        decreases n - i,
    {
        if input.len() - p < 32 {
            return Err(DexParserError::EndedEarly { needed: 32 });
        }
        v.push(
            RawClassDefinition {
                class_idx: read_u32_at(input, p, e),
                access_flags: read_u32_at(input, p + 4, e),
                superclass_idx: read_u32_at(input, p + 8, e),
                interfaces_off: read_u32_at(input, p + 12, e),
                source_file_idx: read_u32_at(input, p + 16, e),
                annotations_off: read_u32_at(input, p + 20, e),
                class_data_off: read_u32_at(input, p + 24, e),
                static_values_off: read_u32_at(input, p + 28, e),
            },
        );
        p = p + 32;
        i = i + 1;
    }
    Ok((v, p))
}

pub open spec fn method_handle_at(s: Seq<u8>, q: int, e: Endianness, r: RawMethodHandleItem) -> bool {
    &&& r.type_ == u16_at(s, q, e)
    &&& r.unused_1 == u16_at(s, q + 2, e)
    &&& r.field_or_method_id == u16_at(s, q + 4, e)
    &&& r.unused_2 == u16_at(s, q + 6, e)
}

/// Reads `n` method handle records of eight bytes.
pub fn parse_method_handle_items(input: &[u8], pos: usize, n: u32, e: Endianness) -> (r: Result<
    (Vec<RawMethodHandleItem>, usize),
    DexParserError,
>)
    requires
        pos <= input@.len(),
    ensures
        match r {
            Ok((v, p)) => records_span(input@.len() as int, pos as int, n as int, 8) == Ok::<
                int,
                Fault,
            >(p as int) && v@.len() == n && forall|i: int|
                0 <= i < n ==> method_handle_at(input@, pos + 8 * i, e, #[trigger] v@[i]),
            Err(err) => records_span(input@.len() as int, pos as int, n as int, 8) == Err::<
                int,
                Fault,
            >(err.fault()),
        },
{
    let mut v: Vec<RawMethodHandleItem> = Vec::new();
    let mut p = pos;
    let mut i: u32 = 0;
    while i < n
        invariant
            i <= n,
            p == pos + 8 * i,
            p <= input@.len(),
            v@.len() == i,
            forall|j: int|
                0 <= j < i ==> method_handle_at(input@, pos + 8 * j, e, #[trigger] v@[j]),
        decreases n - i,
    {
        if input.len() - p < 8 {
            return Err(DexParserError::EndedEarly { needed: 8 });
        }
        v.push(
            RawMethodHandleItem {
                type_: read_u16_at(input, p, e),
                unused_1: read_u16_at(input, p + 2, e),
                field_or_method_id: read_u16_at(input, p + 4, e),
                unused_2: read_u16_at(input, p + 6, e),
            },
        );
        p = p + 8;
        i = i + 1;
    }
    Ok((v, p))
}

/// Reads `n` 16-bit unsigned integers.
pub fn parse_u16_list(input: &[u8], pos: usize, n: u32, e: Endianness) -> (r: Result<
    (Vec<u16>, usize),
    DexParserError,
>)
    requires
        pos <= input@.len(),
    ensures
        match r {
            Ok((v, p)) => records_span(input@.len() as int, pos as int, n as int, 2) == Ok::<
                int,
                Fault,
            >(p as int) && v@.len() == n && forall|i: int|
                0 <= i < n ==> #[trigger] v@[i] == u16_at(input@, pos + 2 * i, e),
            Err(err) => records_span(input@.len() as int, pos as int, n as int, 2) == Err::<
                int,
                Fault,
            >(err.fault()),
        },
{
    let mut v: Vec<u16> = Vec::new();
    let mut p = pos;
    let mut i: u32 = 0;
    while i < n
        invariant
            i <= n,
            p == pos + 2 * i,
            p <= input@.len(),
            v@.len() == i,
            forall|j: int| 0 <= j < i ==> #[trigger] v@[j] == u16_at(input@, pos + 2 * j, e),
        decreases n - i,
    {
        if input.len() - p < 2 {
            return Err(DexParserError::EndedEarly { needed: 2 });
        }
        v.push(read_u16_at(input, p, e));
        p = p + 2;
        i = i + 1;
    }
    Ok((v, p))
}

/// Where a list that starts with a 32-bit count of `size`-byte entries ends.
pub open spec fn counted_span(s: Seq<u8>, pos: int, size: int, e: Endianness) -> Result<int, Fault> {
    match span(s.len() as int, pos, 4) {
        Err(f) => Err(f),
        Ok(p) => records_span(s.len() as int, p, u32_at(s, pos, e), size),
    }
}

/// Reads a type list: a 32-bit count, then that many 16-bit type indices.
pub fn parse_type_list(input: &[u8], pos: usize, e: Endianness) -> (r: Result<
    RawTypeList,
    DexParserError,
>)
    requires
        pos <= input@.len(),
    ensures
        match r {
            Ok(t) => counted_span(input@, pos as int, 2, e) is Ok && t.size == u32_at(
                input@,
                pos as int,
                e,
            ) && t.list@.len() == t.size && forall|i: int|
                0 <= i < t.size ==> #[trigger] t.list@[i] == u16_at(input@, pos + 4 + 2 * i, e),
            Err(err) => counted_span(input@, pos as int, 2, e) == Err::<int, Fault>(err.fault()),
        },
{
    if input.len() - pos < 4 {
        return Err(DexParserError::EndedEarly { needed: 4 });
    }
    let size = read_u32_at(input, pos, e);
    let (list, _) = parse_u16_list(input, pos + 4, size, e)?;
    Ok(RawTypeList { size, list })
}

/// Reads an annotation set: a 32-bit count, then that many offsets of
/// annotation items.
pub fn parse_annotation_set_item(input: &[u8], pos: usize, e: Endianness) -> (r: Result<
    RawAnnotationSetItem,
    DexParserError,
>)
    requires
        pos <= input@.len(),
    ensures
        match r {
            Ok(t) => counted_span(input@, pos as int, 4, e) is Ok && t.size == u32_at(
                input@,
                pos as int,
                e,
            ) && t.entries@.len() == t.size && forall|i: int|
                0 <= i < t.size ==> #[trigger] t.entries@[i] == u32_at(input@, pos + 4 + 4 * i, e),
            Err(err) => counted_span(input@, pos as int, 4, e) == Err::<int, Fault>(err.fault()),
        },
{
    if input.len() - pos < 4 {
        return Err(DexParserError::EndedEarly { needed: 4 });
    }
    let size = read_u32_at(input, pos, e);
    let (entries, _) = parse_u32_list(input, pos + 4, size, e)?;
    Ok(RawAnnotationSetItem { size, entries })
}

/// Reads an annotation set reference list: a 32-bit count, then that many
/// offsets of annotation sets, zero where a parameter has none.
pub fn parse_annotation_set_ref_list(input: &[u8], pos: usize, e: Endianness) -> (r: Result<
    RawAnnotationSetRefList,
    DexParserError,
>)
    requires
        pos <= input@.len(),
    ensures
        match r {
            Ok(t) => counted_span(input@, pos as int, 4, e) is Ok && t.size == u32_at(
                input@,
                pos as int,
                e,
            ) && t.entries@.len() == t.size && forall|i: int|
                0 <= i < t.size ==> #[trigger] t.entries@[i] == u32_at(input@, pos + 4 + 4 * i, e),
            Err(err) => counted_span(input@, pos as int, 4, e) == Err::<int, Fault>(err.fault()),
        },
{
    if input.len() - pos < 4 {
        return Err(DexParserError::EndedEarly { needed: 4 });
    }
    let size = read_u32_at(input, pos, e);
    let (entries, _) = parse_u32_list(input, pos + 4, size, e)?;
    Ok(RawAnnotationSetRefList { size, entries })
}

pub open spec fn field_annotation_at(s: Seq<u8>, q: int, e: Endianness, r: RawFieldAnnotation) -> bool {
    &&& r.field_idx == u32_at(s, q, e)
    &&& r.annotations_offset == u32_at(s, q + 4, e)
}

/// Reads one field annotation record: an index, then the offset of its annotations.
pub fn parse_field_annotation_item(input: &[u8], pos: usize, e: Endianness) -> (r: Result<
    (RawFieldAnnotation, usize),
    DexParserError,
>)
    requires
        pos <= input@.len(),
    ensures
        match r {
            Ok((v, p)) => span(input@.len() as int, pos as int, 8) == Ok::<int, Fault>(p as int)
                && field_annotation_at(input@, pos as int, e, v),
            Err(err) => span(input@.len() as int, pos as int, 8) == Err::<int, Fault>(err.fault()),
        },
{
    if input.len() - pos < 8 {
        return Err(DexParserError::EndedEarly { needed: 8 });
    }
    Ok((RawFieldAnnotation { field_idx: read_u32_at(input, pos, e), annotations_offset: read_u32_at(input, pos + 4, e) }, pos + 8))
}

fn parse_field_annotation_items(input: &[u8], pos: usize, n: u32, e: Endianness) -> (r: Result<
    (Vec<RawFieldAnnotation>, usize),
    DexParserError,
>)
    requires
        pos <= input@.len(),
    ensures
        match r {
            Ok((v, p)) => records_span(input@.len() as int, pos as int, n as int, 8) == Ok::<
                int,
                Fault,
            >(p as int) && v@.len() == n && forall|i: int|
                0 <= i < n ==> field_annotation_at(input@, pos + 8 * i, e, #[trigger] v@[i]),
            Err(err) => records_span(input@.len() as int, pos as int, n as int, 8) == Err::<
                int,
                Fault,
            >(err.fault()),
        },
{
    let mut v: Vec<RawFieldAnnotation> = Vec::new();
    let mut p = pos;
    let mut i: u32 = 0;
    while i < n
        invariant
            i <= n,
            p == pos + 8 * i,
            p <= input@.len(),
            v@.len() == i,
            forall|j: int|
                0 <= j < i ==> field_annotation_at(input@, pos + 8 * j, e, #[trigger] v@[j]),
        decreases n - i,
    {
        let (item, q) = parse_field_annotation_item(input, p, e)?;
        v.push(item);
        p = q;
        i = i + 1;
    }
    Ok((v, p))
}

pub open spec fn method_annotation_at(s: Seq<u8>, q: int, e: Endianness, r: RawMethodAnnotation) -> bool {
    &&& r.method_idx == u32_at(s, q, e)
    &&& r.annotations_offset == u32_at(s, q + 4, e)
}

/// Reads one method annotation record: an index, then the offset of its annotations.
pub fn parse_method_annotation_item(input: &[u8], pos: usize, e: Endianness) -> (r: Result<
    (RawMethodAnnotation, usize),
    DexParserError,
>)
    requires
        pos <= input@.len(),
    ensures
        match r {
            Ok((v, p)) => span(input@.len() as int, pos as int, 8) == Ok::<int, Fault>(p as int)
                && method_annotation_at(input@, pos as int, e, v),
            Err(err) => span(input@.len() as int, pos as int, 8) == Err::<int, Fault>(err.fault()),
        },
{
    if input.len() - pos < 8 {
        return Err(DexParserError::EndedEarly { needed: 8 });
    }
    Ok((RawMethodAnnotation { method_idx: read_u32_at(input, pos, e), annotations_offset: read_u32_at(input, pos + 4, e) }, pos + 8))
}

fn parse_method_annotation_items(input: &[u8], pos: usize, n: u32, e: Endianness) -> (r: Result<
    (Vec<RawMethodAnnotation>, usize),
    DexParserError,
>)
    requires
        pos <= input@.len(),
    ensures
        match r {
            Ok((v, p)) => records_span(input@.len() as int, pos as int, n as int, 8) == Ok::<
                int,
                Fault,
            >(p as int) && v@.len() == n && forall|i: int|
                0 <= i < n ==> method_annotation_at(input@, pos + 8 * i, e, #[trigger] v@[i]),
            Err(err) => records_span(input@.len() as int, pos as int, n as int, 8) == Err::<
                int,
                Fault,
            >(err.fault()),
        },
{
    let mut v: Vec<RawMethodAnnotation> = Vec::new();
    let mut p = pos;
    let mut i: u32 = 0;
    while i < n
        invariant
            i <= n,
            p == pos + 8 * i,
            p <= input@.len(),
            v@.len() == i,
            forall|j: int|
                0 <= j < i ==> method_annotation_at(input@, pos + 8 * j, e, #[trigger] v@[j]),
        decreases n - i,
    {
        let (item, q) = parse_method_annotation_item(input, p, e)?;
        v.push(item);
        p = q;
        i = i + 1;
    }
    Ok((v, p))
}

pub open spec fn parameter_annotation_at(s: Seq<u8>, q: int, e: Endianness, r: RawParameterAnnotation) -> bool {
    &&& r.method_idx == u32_at(s, q, e)
    &&& r.annotations_offset == u32_at(s, q + 4, e)
}

/// Reads one parameter annotation record: an index, then the offset of its annotations.
pub fn parse_parameter_annotation_item(input: &[u8], pos: usize, e: Endianness) -> (r: Result<
    (RawParameterAnnotation, usize),
    DexParserError,
>)
    requires
        pos <= input@.len(),
    ensures
        match r {
            Ok((v, p)) => span(input@.len() as int, pos as int, 8) == Ok::<int, Fault>(p as int)
                && parameter_annotation_at(input@, pos as int, e, v),
            Err(err) => span(input@.len() as int, pos as int, 8) == Err::<int, Fault>(err.fault()),
        },
{
    if input.len() - pos < 8 {
        return Err(DexParserError::EndedEarly { needed: 8 });
    }
    Ok((RawParameterAnnotation { method_idx: read_u32_at(input, pos, e), annotations_offset: read_u32_at(input, pos + 4, e) }, pos + 8))
}

fn parse_parameter_annotation_items(input: &[u8], pos: usize, n: u32, e: Endianness) -> (r: Result<
    (Vec<RawParameterAnnotation>, usize),
    DexParserError,
>)
    requires
        pos <= input@.len(),
    ensures
        match r {
            Ok((v, p)) => records_span(input@.len() as int, pos as int, n as int, 8) == Ok::<
                int,
                Fault,
            >(p as int) && v@.len() == n && forall|i: int|
                0 <= i < n ==> parameter_annotation_at(input@, pos + 8 * i, e, #[trigger] v@[i]),
            Err(err) => records_span(input@.len() as int, pos as int, n as int, 8) == Err::<
                int,
                Fault,
            >(err.fault()),
        },
{
    let mut v: Vec<RawParameterAnnotation> = Vec::new();
    let mut p = pos;
    let mut i: u32 = 0;
    while i < n
        invariant
            i <= n,
            p == pos + 8 * i,
            p <= input@.len(),
            v@.len() == i,
            forall|j: int|
                0 <= j < i ==> parameter_annotation_at(input@, pos + 8 * j, e, #[trigger] v@[j]),
        decreases n - i,
    {
        let (item, q) = parse_parameter_annotation_item(input, p, e)?;
        v.push(item);
        p = q;
        i = i + 1;
    }
    Ok((v, p))
}

/// Where an annotations directory at `pos` ends: four 32-bit words, then
/// the field, method and parameter records they count.
pub open spec fn directory_span(s: Seq<u8>, pos: int, e: Endianness) -> Result<int, Fault> {
    match span(s.len() as int, pos, 16) {
        Err(f) => Err(f),
        Ok(p1) => match records_span(s.len() as int, p1, u32_at(s, pos + 4, e), 8) {
            Err(f) => Err(f),
            Ok(p2) => match records_span(s.len() as int, p2, u32_at(s, pos + 8, e), 8) {
                Err(f) => Err(f),
                Ok(p3) => records_span(s.len() as int, p3, u32_at(s, pos + 12, e), 8),
            },
        },
    }
}

/// Reads an annotations directory: the offset of the class annotations, then
/// the field, method and parameter annotation records; a kind with no
/// records is absent.
pub fn parse_annotations_directory_item(input: &[u8], pos: usize, e: Endianness) -> (r: Result<
    RawAnnotations,
    DexParserError,
>)
    requires
        pos <= input@.len(),
    ensures
        match r {
            Ok(d) => {
                let nf = u32_at(input@, pos + 4, e);
                let nm = u32_at(input@, pos + 8, e);
                let np = u32_at(input@, pos + 12, e);
                &&& directory_span(input@, pos as int, e) is Ok
                &&& d.class_annotations_off == u32_at(input@, pos as int, e)
                &&& (d.fld_annot is Some <==> nf > 0)
                &&& (d.mtd_annot is Some <==> nm > 0)
                &&& (d.prm_annot is Some <==> np > 0)
                &&& (d.fld_annot is Some ==> {
                    let v = d.fld_annot->Some_0@;
                    &&& v.len() == nf
                    &&& forall|i: int|
                        0 <= i < nf ==> field_annotation_at(input@, pos + 16 + 8 * i, e, #[trigger] v[i])
                })
                &&& (d.mtd_annot is Some ==> {
                    let v = d.mtd_annot->Some_0@;
                    &&& v.len() == nm
                    &&& forall|i: int|
                        0 <= i < nm ==> method_annotation_at(
                            input@,
                            pos + 16 + 8 * nf + 8 * i,
                            e,
                            #[trigger] v[i],
                        )
                })
                &&& (d.prm_annot is Some ==> {
                    let v = d.prm_annot->Some_0@;
                    &&& v.len() == np
                    &&& forall|i: int|
                        0 <= i < np ==> parameter_annotation_at(
                            input@,
                            pos + 16 + 8 * nf + 8 * nm + 8 * i,
                            e,
                            #[trigger] v[i],
                        )
                })
            },
            Err(err) => directory_span(input@, pos as int, e) == Err::<int, Fault>(err.fault()),
        },
{
    if input.len() - pos < 16 {
        return Err(DexParserError::EndedEarly { needed: 16 });
    }
    let class_annotations_off = read_u32_at(input, pos, e);
    let nf = read_u32_at(input, pos + 4, e);
    let nm = read_u32_at(input, pos + 8, e);
    let np = read_u32_at(input, pos + 12, e);
    let (fv, p2) = parse_field_annotation_items(input, pos + 16, nf, e)?;
    let (mv, p3) = parse_method_annotation_items(input, p2, nm, e)?;
    let (pv, _) = parse_parameter_annotation_items(input, p3, np, e)?;
    let fld_annot = if nf > 0 {
        Some(fv)
    } else {
        None
    };
    let mtd_annot = if nm > 0 {
        Some(mv)
    } else {
        None
    };
    let prm_annot = if np > 0 {
        Some(pv)
    } else {
        None
    };
    Ok(RawAnnotations { class_annotations_off, fld_annot, mtd_annot, prm_annot })
}

pub open spec fn map_item_at(s: Seq<u8>, q: int, e: Endianness, r: RawMapListItem) -> bool {
    &&& map_item_type_of(u16_at(s, q, e) as u16) == Some(r.type_)
    &&& r.unused == u16_at(s, q + 2, e)
    &&& r.size == u32_at(s, q + 4, e)
    &&& r.offset == u32_at(s, q + 8, e)
}

/// Where `n` map-list entries from `pos` end, or why they cannot be read.
pub open spec fn map_items_span(s: Seq<u8>, pos: int, n: nat, e: Endianness) -> Result<int, Fault>
    decreases n,
{
    if n == 0 {
        Ok(pos)
    } else {
        match map_items_span(s, pos, (n - 1) as nat, e) {
            Err(f) => Err(f),
            Ok(q) => if q + 12 > s.len() {
                Err(Fault::EndedEarly(12))
            } else if map_item_type_of(u16_at(s, q, e) as u16) is None {
                Err(Fault::Malformed)
            } else {
                Ok(q + 12)
            },
        }
    }
}

proof fn lemma_map_items_span(s: Seq<u8>, pos: int, n: nat, e: Endianness)
    requires
        map_items_span(s, pos, n, e) is Ok,
    ensures
        map_items_span(s, pos, n, e) == Ok::<int, Fault>(pos + 12 * n),
    decreases n,
{
    if n > 0 {
        lemma_map_items_span(s, pos, (n - 1) as nat, e);
    }
}

proof fn lemma_map_items_stay_err(s: Seq<u8>, pos: int, k: nat, n: nat, e: Endianness)
    requires
        k <= n,
        map_items_span(s, pos, k, e) is Err,
    ensures
        map_items_span(s, pos, n, e) == map_items_span(s, pos, k, e),
    decreases n,
{
    if n > k {
        lemma_map_items_stay_err(s, pos, k, (n - 1) as nat, e);
    }
}

pub open spec fn map_list_span(s: Seq<u8>, pos: int, e: Endianness) -> Result<int, Fault> {
    match span(s.len() as int, pos, 4) {
        Err(f) => Err(f),
        Ok(p) => map_items_span(s, p, u32_at(s, pos, e) as nat, e),
    }
}

/// Reads the map list: a 32-bit count, then that many twelve-byte entries.
pub fn parse_map_list(input: &[u8], pos: usize, e: Endianness) -> (r: Result<
    RawMapList,
    DexParserError,
>)
    requires
        pos <= input@.len(),
    ensures
        match r {
            Ok(m) => map_list_span(input@, pos as int, e) is Ok && m.size == u32_at(
                input@,
                pos as int,
                e,
            ) && m.list@.len() == m.size && forall|i: int|
                0 <= i < m.size ==> map_item_at(input@, pos + 4 + 12 * i, e, #[trigger] m.list@[i]),
            Err(err) => map_list_span(input@, pos as int, e) == Err::<int, Fault>(err.fault()),
        },
{
    if input.len() - pos < 4 {
        return Err(DexParserError::EndedEarly { needed: 4 });
    }
    let size = read_u32_at(input, pos, e);
    let start = pos + 4;
    let mut list: Vec<RawMapListItem> = Vec::new();
    let mut p = start;
    let mut i: u32 = 0;
    while i < size
        invariant
            start == pos + 4,
            map_list_span(input@, pos as int, e) == map_items_span(
                input@,
                start as int,
                size as nat,
                e,
            ),
            size == u32_at(input@, pos as int, e),
            i <= size,
            p == start + 12 * i,
            p <= input@.len(),
            map_items_span(input@, start as int, i as nat, e) == Ok::<int, Fault>(p as int),
            list@.len() == i,
            forall|j: int|
                0 <= j < i ==> map_item_at(input@, start + 12 * j, e, #[trigger] list@[j]),
        decreases size - i,
    {
        if input.len() - p < 12 {
            proof {
                assert(map_items_span(input@, start as int, (i + 1) as nat, e) == Err::<int, Fault>(
                    Fault::EndedEarly(12),
                ));
                lemma_map_items_stay_err(input@, start as int, (i + 1) as nat, size as nat, e);
            }
            return Err(DexParserError::EndedEarly { needed: 12 });
        }
        let type_ = match MapListItemType::parse(read_u16_at(input, p, e)) {
            Ok(t) => t,
            Err(err) => {
                proof {
                    assert(map_items_span(input@, start as int, (i + 1) as nat, e) == Err::<
                        int,
                        Fault,
                    >(Fault::Malformed));
                    lemma_map_items_stay_err(input@, start as int, (i + 1) as nat, size as nat, e);
                }
                return Err(err);
            },
        };
        list.push(
            RawMapListItem {
                type_,
                unused: read_u16_at(input, p + 2, e),
                size: read_u32_at(input, p + 4, e),
                offset: read_u32_at(input, p + 8, e),
            },
        );
        p = p + 12;
        i = i + 1;
    }
    Ok(RawMapList { size, list })
}

/// The number of map-list entries of type `t`.
pub open spec fn count_of_type(items: Seq<RawMapListItem>, t: MapListItemType) -> nat
    decreases items.len(),
{
    if items.len() == 0 {
        0
    } else {
        count_of_type(items.drop_last(), t) + if items.last().type_ == t {
            1nat
        } else {
            0nat
        }
    }
}

/// Counts the map-list entries of type `t`.
pub fn count_map_items(m: &RawMapList, t: MapListItemType) -> (r: u32)
    requires
        m.list@.len() <= u32::MAX,
    ensures
        r == count_of_type(m.list@, t),
{
    let mut n: u32 = 0;
    let mut i: usize = 0;
    while i < m.list.len()
        invariant
            i <= m.list@.len(),
            n == count_of_type(m.list@.subrange(0, i as int), t),
            n <= i,
            m.list@.len() <= u32::MAX,
        decreases m.list@.len() - i,
    {
        proof {
            assert(m.list@.subrange(0, i + 1).drop_last() =~= m.list@.subrange(0, i as int));
        }
        if m.list[i].type_ == t {
            n = n + 1;
        }
        i = i + 1;
    }
    proof {
        assert(m.list@.subrange(0, m.list@.len() as int) =~= m.list@);
    }
    n
}

} // verus!
