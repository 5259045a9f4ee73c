//! The whole file: the raw parse of the header and pools, then the
//! resolution of everything they refer to.
use crate::call_sites::{call_site_checks_sized, call_site_matches, parse_call_site_items};
use crate::classes::{class_checks_sized, class_matches, transform_class_defs};
use crate::error::{first_fault, DexParserError, Fault};
use crate::items::{has_magic, header_at, parse_header, HEADER_SIZE};
use crate::primitives::{span, take_bytes, u16_at, u32_at, Endianness};
use crate::raw::{
    method_handle_at, count_of_type, map_list_span, records_span, class_def_at, count_map_items, field_at, method_at, parse_class_def_items,
    parse_field_id_items, parse_map_list, parse_method_handle_items, parse_method_id_items,
    parse_proto_id_items, parse_u32_list, prototype_at,
};
use crate::raw_types::{map_item_type_of, MapListItemType, RawDexFile, RawHeader, RawMapListItem};
use crate::resolve::{
    prototypes_checks, strings_checks, prototype_matches, string_matches, transform_field_id_items, transform_method_id_items,
    transform_prototype_id_items, transform_string_id_items, transform_type_id_items,
};
use crate::result_types::{DexFile, DexFileData, Header, PoolSizes};
use crate::strings::string_from_utf8;
use vstd::prelude::*;
use vstd::utf8::{decode_utf8, valid_utf8};

verus! {

/// The byte order that the endian tag at bytes 40..44 announces: the bytes
/// 78 56 34 12 (the constant 0x12345678 stored little-endian) mark a
/// little-endian file, and 12 34 56 78 a big-endian one.
pub open spec fn endianness_of(s: Seq<u8>) -> Option<Endianness> {
    if s[40] == 0x78 && s[41] == 0x56 && s[42] == 0x34 && s[43] == 0x12 {
        Some(Endianness::Little)
    } else if s[40] == 0x12 && s[41] == 0x34 && s[42] == 0x56 && s[43] == 0x78 {
        Some(Endianness::Big)
    } else {
        None
    }
}

/// Reads the byte order from the endian tag of a buffer that holds a header.
pub fn detect_endianness(buffer: &[u8]) -> (r: Result<Endianness, DexParserError>)
    ensures
        match r {
            Ok(e) => buffer@.len() >= HEADER_SIZE && endianness_of(buffer@) == Some(e),
            Err(err) => if buffer@.len() < HEADER_SIZE {
                err.fault() == Fault::EndedEarly(HEADER_SIZE)
            } else {
                endianness_of(buffer@) is None && err.fault() == Fault::Malformed
            },
        },
{
    if buffer.len() < HEADER_SIZE {
        return Err(DexParserError::EndedEarly { needed: HEADER_SIZE });
    }
    if buffer[40] == 0x78 && buffer[41] == 0x56 && buffer[42] == 0x34 && buffer[43] == 0x12 {
        Ok(Endianness::Little)
    } else if buffer[40] == 0x12 && buffer[41] == 0x34 && buffer[42] == 0x56 && buffer[43] == 0x78 {
        Ok(Endianness::Big)
    } else {
        Err(DexParserError::malformed("bad endian tag"))
    }
}

/// The entries of the map list at `pos`, as read.
pub open spec fn map_items_of(s: Seq<u8>, pos: int, e: Endianness) -> Seq<RawMapListItem> {
    Seq::new(
        u32_at(s, pos, e) as nat,
        |i: int|
            RawMapListItem {
                type_: map_item_type_of(u16_at(s, pos + 4 + 12 * i, e) as u16)->Some_0,
                unused: u16_at(s, pos + 4 + 12 * i + 2, e) as u16,
                size: u32_at(s, pos + 4 + 12 * i + 4, e) as u32,
                offset: u32_at(s, pos + 4 + 12 * i + 8, e) as u32,
            },
    )
}

/// Whether the raw parts of a file can be read: the header, the map list,
/// the pools in order after the header, the data blob.
pub open spec fn raw_file_check(s: Seq<u8>, e: Endianness) -> Result<(), Fault> {
    let len = s.len() as int;
    let map_off = u32_at(s, 52, e);
    let data_off = u32_at(s, 108, e);
    if s.len() < HEADER_SIZE {
        Err(Fault::EndedEarly(HEADER_SIZE))
    } else if !has_magic(s) {
        Err(Fault::Malformed)
    } else if map_off > len {
        Err(Fault::Malformed)
    } else {
        let items = map_items_of(s, map_off, e);
        match map_list_span(s, map_off, e) {
            Err(f) => Err(f),
            Ok(_) => match records_span(len, HEADER_SIZE as int, u32_at(s, 56, e), 4) {
                Err(f) => Err(f),
                Ok(p1) => match records_span(len, p1, u32_at(s, 64, e), 4) {
                    Err(f) => Err(f),
                    Ok(p2) => match records_span(len, p2, u32_at(s, 72, e), 12) {
                        Err(f) => Err(f),
                        Ok(p3) => match records_span(len, p3, u32_at(s, 80, e), 8) {
                            Err(f) => Err(f),
                            Ok(p4) => match records_span(len, p4, u32_at(s, 88, e), 8) {
                                Err(f) => Err(f),
                                Ok(p5) => match records_span(len, p5, u32_at(s, 96, e), 32) {
                                    Err(f) => Err(f),
                                    Ok(p6) => match records_span(
                                        len,
                                        p6,
                                        count_of_type(items, MapListItemType::CALL_SITE_ID_ITEM) as int,
                                        4,
                                    ) {
                                        Err(f) => Err(f),
                                        Ok(p7) => match records_span(
                                            len,
                                            p7,
                                            count_of_type(items, MapListItemType::METHOD_HANDLE_ITEM) as int,
                                            8,
                                        ) {
                                            Err(f) => Err(f),
                                            Ok(_) => if data_off > len {
                                                Err(Fault::Malformed)
                                            } else {
                                                match span(len, data_off, u32_at(s, 104, e)) {
                                                    Err(f) => Err(f),
                                                    Ok(_) => Ok(()),
                                                }
                                            },
                                        },
                                    },
                                },
                            },
                        },
                    },
                },
            },
        }
    }
}

/// `raw` holds what the raw parse reads from `s` in byte order `e`: the
/// header, the pools that follow it in order, the pools that the map list
/// counts, the data blob and whether link data follows.
pub open spec fn raw_read(s: Seq<u8>, e: Endianness, raw: RawDexFile) -> bool {

    let h = raw.header;
    let p_type = HEADER_SIZE + 4 * h.string_ids_size;
    let p_proto = p_type + 4 * h.type_ids_size;
    let p_field = p_proto + 12 * h.proto_ids_size;
    let p_method = p_field + 8 * h.field_ids_size;
    let p_class = p_method + 8 * h.method_ids_size;
    let items = map_items_of(s, h.map_off as int, e);
    let n_call_sites = count_of_type(items, MapListItemType::CALL_SITE_ID_ITEM);
    let n_handles = count_of_type(items, MapListItemType::METHOD_HANDLE_ITEM);
    let p_call_site = p_class + 32 * h.class_defs_size;
    let p_handle = p_call_site + 4 * n_call_sites;
    &&& s.len() >= HEADER_SIZE && has_magic(s) && header_at(s, e, h)
    &&& raw.string_id_items@.len() == h.string_ids_size
    &&& forall|i: int|
        0 <= i < h.string_ids_size ==> #[trigger] raw.string_id_items@[i] == u32_at(
            s,
            HEADER_SIZE + 4 * i,
            e,
        )
    &&& raw.type_id_items@.len() == h.type_ids_size
    &&& forall|i: int|
        0 <= i < h.type_ids_size ==> #[trigger] raw.type_id_items@[i] == u32_at(
            s,
            p_type + 4 * i,
            e,
        )
    &&& raw.proto_id_items@.len() == h.proto_ids_size
    &&& forall|i: int|
        0 <= i < h.proto_ids_size ==> prototype_at(
            s,
            p_proto + 12 * i,
            e,
            #[trigger] raw.proto_id_items@[i],
        )
    &&& raw.field_id_items@.len() == h.field_ids_size
    &&& forall|i: int|
        0 <= i < h.field_ids_size ==> field_at(
            s,
            p_field + 8 * i,
            e,
            #[trigger] raw.field_id_items@[i],
        )
    &&& raw.method_id_items@.len() == h.method_ids_size
    &&& forall|i: int|
        0 <= i < h.method_ids_size ==> method_at(
            s,
            p_method + 8 * i,
            e,
            #[trigger] raw.method_id_items@[i],
        )
    &&& raw.class_def_items@.len() == h.class_defs_size
    &&& forall|i: int|
        0 <= i < h.class_defs_size ==> class_def_at(
            s,
            p_class + 32 * i,
            e,
            #[trigger] raw.class_def_items@[i],
        )
    &&& raw.data@ == s.subrange(h.data_off as int, h.data_off + h.data_size)
    &&& (raw.link_data is Some <==> h.link_off > 0)
    &&& raw.call_site_idxs@.len() == n_call_sites
    &&& forall|i: int|
        0 <= i < n_call_sites ==> #[trigger] raw.call_site_idxs@[i] == u32_at(
            s,
            p_call_site + 4 * i,
            e,
        )
    &&& raw.method_handle_idxs@.len() == n_handles
    &&& forall|i: int|
        0 <= i < n_handles ==> method_handle_at(
            s,
            p_handle + 8 * i,
            e,
            #[trigger] raw.method_handle_idxs@[i],
        )
}

/// Reads the header, the index pools that follow it in order, the pools
/// that the map list counts, the data blob and the link data.
pub fn parse_dex_file(input: &[u8], e: Endianness) -> (r: Result<RawDexFile, DexParserError>)
    ensures
        match r {
            Ok(raw) => raw_file_check(input@, e) is Ok && raw_read(input@, e, raw),
            Err(err) => raw_file_check(input@, e) == Err::<(), Fault>(err.fault()),
        },
{
    let header = parse_header(input, e)?;
    if header.map_off as usize > input.len() {
        return Err(DexParserError::malformed("map list outside the file"));
    }
    let map_list = parse_map_list(input, header.map_off as usize, e)?;
    assert(map_list.list@ =~= map_items_of(input@, header.map_off as int, e));
    let (string_id_items, p) = parse_u32_list(input, HEADER_SIZE, header.string_ids_size, e)?;
    let (type_id_items, p) = parse_u32_list(input, p, header.type_ids_size, e)?;
    let (proto_id_items, p) = parse_proto_id_items(input, p, header.proto_ids_size, e)?;
    let (field_id_items, p) = parse_field_id_items(input, p, header.field_ids_size, e)?;
    let (method_id_items, p) = parse_method_id_items(input, p, header.method_ids_size, e)?;
    let (class_def_items, p) = parse_class_def_items(input, p, header.class_defs_size, e)?;
    let n_call_sites = count_map_items(&map_list, MapListItemType::CALL_SITE_ID_ITEM);
    let (call_site_idxs, p) = parse_u32_list(input, p, n_call_sites, e)?;
    let n_handles = count_map_items(&map_list, MapListItemType::METHOD_HANDLE_ITEM);
    let (method_handle_idxs, _) = parse_method_handle_items(input, p, n_handles, e)?;
    if header.data_off as usize > input.len() {
        return Err(DexParserError::malformed("data blob outside the file"));
    }
    let (data, data_end) = take_bytes(input, header.data_off as usize, header.data_size as usize)?;
    let link_data = if header.link_off > 0 {
        let (tail, _) = take_bytes(input, data_end, input.len() - data_end)?;
        Some(tail)
    } else {
        None
    };
    Ok(
        RawDexFile {
            header,
            string_id_items,
            type_id_items,
            proto_id_items,
            field_id_items,
            method_id_items,
            class_def_items,
            call_site_idxs,
            method_handle_idxs,
            data,
            link_data,
        },
    )
}

/// Builds the resolved header: the three version digits as text, and the
/// byte order the file was read in.
pub fn transform_header(raw: &RawHeader, e: Endianness) -> (r: Result<Header, DexParserError>)
    requires
        raw.version@.len() == 4,
    ensures
        match r {
            Ok(h) => valid_utf8(raw.version@.subrange(0, 3)) && h.version@ == decode_utf8(
                raw.version@.subrange(0, 3),
            ) && h.checksum == raw.checksum && h.signature@ == raw.signature@ && h.file_size
                == raw.file_size && h.endianness == e,
            Err(err) => !valid_utf8(raw.version@.subrange(0, 3)) && err.fault() == Fault::Encoding,
        },
{
    let (digits, _) = take_bytes(raw.version.as_slice(), 0, 3)?;
    let version = match string_from_utf8(digits) {
        Some(v) => v,
        None => return Err(DexParserError::EncodingError),
    };
    let mut signature: Vec<u8> = Vec::new();
    let mut i: usize = 0;
    while i < raw.signature.len()
        invariant
            i <= raw.signature@.len(),
            signature@ == raw.signature@.subrange(0, i as int),
        decreases raw.signature@.len() - i,
    {
        signature.push(raw.signature[i]);
        i = i + 1;
    }
    proof {
        assert(signature@ =~= raw.signature@);
    }
    Ok(Header { version, checksum: raw.checksum, signature, file_size: raw.file_size, endianness: e })
}

/// Whether the pools of a raw file can be resolved, stage by stage: the
/// strings, then the types, prototypes, fields and methods, each of whose
/// indices must name an entry of the pools before it.
pub open spec fn pools_check(raw: RawDexFile, e: Endianness) -> Result<(), Fault> {
    let s = raw.data@;
    let data_off = raw.header.data_off as int;
    let ns = raw.string_id_items@.len() as int;
    let nt = raw.type_id_items@.len() as int;
    let np = raw.proto_id_items@.len() as int;
    match first_fault(strings_checks(s, raw.string_id_items@, data_off)) {
        Err(f) => Err(f),
        Ok(_) => if exists|i: int| 0 <= i < nt && #[trigger] raw.type_id_items@[i] >= ns {
            Err(Fault::Malformed)
        } else {
            match first_fault(prototypes_checks(s, raw.proto_id_items@, ns, nt, data_off, e)) {
                Err(f) => Err(f),
                Ok(_) => if exists|i: int|
                    0 <= i < raw.field_id_items@.len() && (#[trigger] raw.field_id_items@[i].class_idx
                        >= nt || raw.field_id_items@[i].type_idx >= nt
                        || raw.field_id_items@[i].name_idx >= ns) {
                    Err(Fault::Malformed)
                } else if exists|i: int|
                    0 <= i < raw.method_id_items@.len() && (
                    #[trigger] raw.method_id_items@[i].class_idx >= nt
                        || raw.method_id_items@[i].proto_idx >= np
                        || raw.method_id_items@[i].name_idx >= ns) {
                    Err(Fault::Malformed)
                } else {
                    Ok(())
                },
            }
        },
    }
}

/// The pool sizes that resolving a raw file gives.
pub open spec fn raw_sizes(raw: RawDexFile) -> PoolSizes {
    PoolSizes {
        strings: raw.string_id_items@.len(),
        types: raw.type_id_items@.len(),
        prototypes: raw.proto_id_items@.len(),
        fields: raw.field_id_items@.len(),
        methods: raw.method_id_items@.len(),
    }
}

/// Whether a raw file can be resolved: its version digits are text, its
/// pools resolve stage by stage, and then its class definitions and its
/// call sites do.
pub open spec fn dex_check(raw: RawDexFile, e: Endianness) -> Result<(), Fault> {
    if !valid_utf8(raw.header.version@.subrange(0, 3)) {
        Err(Fault::Encoding)
    } else {
        match pools_check(raw, e) {
            Err(f) => Err(f),
            Ok(_) => match first_fault(
                class_checks_sized(
                    raw.data@,
                    raw.class_def_items@,
                    raw_sizes(raw),
                    raw.header.data_off as int,
                    e,
                ),
            ) {
                Err(f) => Err(f),
                Ok(_) => first_fault(
                    call_site_checks_sized(
                        raw.data@,
                        raw.call_site_idxs@,
                        raw.header.data_off as int,
                        raw_sizes(raw),
                    ),
                ),
            },
        }
    }
}

/// `d` is the resolution of the raw file `raw`, read in byte order `e`: the
/// header, every pool in the order of the raw pools with its handles shared
/// from the pools before it, and every class.
pub open spec fn dex_matches(raw: RawDexFile, e: Endianness, d: DexFile) -> bool {
    let fd = d.file_data;
    let s = raw.data@;
    let data_off = raw.header.data_off as int;
    &&& d.header.endianness == e
    &&& fd.string_data@.len() == raw.string_id_items@.len()
    &&& forall|i: int|
        0 <= i < fd.string_data@.len() ==> string_matches(
            s,
            raw.string_id_items@[i] as int,
            data_off,
            *#[trigger] fd.string_data@[i],
        )
    &&& fd.type_identifiers@.len() == raw.type_id_items@.len()
    &&& forall|i: int|
        #![trigger fd.type_identifiers@[i]]
        0 <= i < fd.type_identifiers@.len() ==> raw.type_id_items@[i]
            < fd.string_data@.len() && fd.type_identifiers@[i].descriptor
            == fd.string_data@[raw.type_id_items@[i] as int]
    &&& fd.prototypes@.len() == raw.proto_id_items@.len()
    &&& forall|i: int|
        0 <= i < fd.prototypes@.len() ==> prototype_matches(
            s,
            raw.proto_id_items@[i],
            fd.string_data@,
            fd.type_identifiers@,
            data_off,
            e,
            *#[trigger] fd.prototypes@[i],
        )
    &&& fd.fields@.len() == raw.field_id_items@.len()
    &&& forall|i: int|
        #![trigger fd.fields@[i]]
        0 <= i < fd.fields@.len() ==> {
            let f = raw.field_id_items@[i];
            &&& fd.fields@[i].definer == fd.type_identifiers@[f.class_idx as int]
            &&& fd.fields@[i].type_ == fd.type_identifiers@[f.type_idx as int]
            &&& fd.fields@[i].name == fd.string_data@[f.name_idx as int]
        }
    &&& fd.methods@.len() == raw.method_id_items@.len()
    &&& forall|i: int|
        #![trigger fd.methods@[i]]
        0 <= i < fd.methods@.len() ==> {
            let m = raw.method_id_items@[i];
            &&& fd.methods@[i].definer == fd.type_identifiers@[m.class_idx as int]
            &&& fd.methods@[i].prototype == fd.prototypes@[m.proto_idx as int]
            &&& fd.methods@[i].name == fd.string_data@[m.name_idx as int]
        }
    &&& d.classes@.len() == raw.class_def_items@.len()
    &&& forall|i: int|
        0 <= i < d.classes@.len() ==> class_matches(
            s,
            raw.class_def_items@[i],
            fd,
            data_off,
            e,
            #[trigger] d.classes@[i],
        )
    &&& d.call_site_items@.len() == raw.call_site_idxs@.len()
    &&& forall|i: int|
        0 <= i < d.call_site_items@.len() ==> call_site_matches(
            s,
            raw.call_site_idxs@[i] - data_off,
            fd,
            #[trigger] d.call_site_items@[i],
        )
    &&& d.header.version@ == decode_utf8(raw.header.version@.subrange(0, 3))
    &&& d.header.checksum == raw.header.checksum
    &&& d.header.signature@ == raw.header.signature@
    &&& d.header.file_size == raw.header.file_size
}

/// Resolves a raw file: strings, then types, prototypes, fields, methods,
/// and last the classes, each stage using the pools of the ones before.
pub fn transform_dex_file(raw: RawDexFile, e: Endianness) -> (r: Result<DexFile, DexParserError>)
    requires
        raw.header.version@.len() == 4,
    ensures
        match r {
            Ok(d) => dex_check(raw, e) is Ok && dex_matches(raw, e, d),
            Err(err) => dex_check(raw, e) == Err::<(), Fault>(err.fault()),
        },
{
    let data_off = raw.header.data_off;
    let header = transform_header(&raw.header, e)?;
    let data = raw.data.as_slice();
    let sd = transform_string_id_items(data, raw.string_id_items.as_slice(), data_off)?;
    let ti = transform_type_id_items(raw.type_id_items.as_slice(), &sd)?;
    let pro = transform_prototype_id_items(data, raw.proto_id_items.as_slice(), &sd, &ti, data_off, e)?;
    let fields = transform_field_id_items(raw.field_id_items.as_slice(), &sd, &ti)?;
    let methods = transform_method_id_items(raw.method_id_items.as_slice(), &sd, &ti, &pro)?;
    let file_data = DexFileData { string_data: sd, type_identifiers: ti, prototypes: pro, fields, methods };
    let classes = transform_class_defs(data, data_off, raw.class_def_items.as_slice(), &file_data, e)?;
    let call_site_items = parse_call_site_items(data, data_off, raw.call_site_idxs.as_slice(), &file_data)?;
    Ok(DexFile { header, file_data, classes, call_site_items })
}

/// Decoding is deterministic: two decodings of the same bytes read the same
/// raw file and resolve it to the same header, to pools of the same sizes
/// holding the same strings in the same order, and to as many classes and
/// call sites.
pub proof fn lemma_file_decoding_is_deterministic(
    s: Seq<u8>,
    e: Endianness,
    raw1: RawDexFile,
    raw2: RawDexFile,
    d1: DexFile,
    d2: DexFile,
)
    requires
        raw_read(s, e, raw1),
        raw_read(s, e, raw2),
        dex_matches(raw1, e, d1),
        dex_matches(raw2, e, d2),
    ensures
        raw1.data@ == raw2.data@,
        raw1.string_id_items@ == raw2.string_id_items@,
        d1.file_data.sizes() == d2.file_data.sizes(),
        d1.classes@.len() == d2.classes@.len(),
        d1.call_site_items@.len() == d2.call_site_items@.len(),
        forall|i: int|
            0 <= i < d1.file_data.string_data@.len() ==> (#[trigger] d1.file_data.string_data@[i]).utf16_size
                == d2.file_data.string_data@[i].utf16_size && d1.file_data.string_data@[i].data@
                == d2.file_data.string_data@[i].data@,
        d1.header.version@ == d2.header.version@,
        d1.header.checksum == d2.header.checksum,
        d1.header.signature@ == d2.header.signature@,
        d1.header.file_size == d2.header.file_size,
        d1.header.endianness == d2.header.endianness,
{
    assert(raw1.string_id_items@ =~= raw2.string_id_items@);
    assert(raw1.header.version@ =~= raw2.header.version@);
    assert(raw1.header.signature@ =~= raw2.header.signature@);
}

} // verus!
