//! The raw tier: records as they are stored, every cross-reference still a
//! pool index or a byte offset.
use crate::error::{DexParserError, Fault};
use crate::result_types::EncodedValue;
use vstd::prelude::*;

verus! {

/// The file as stored, before any index or offset is followed.
#[derive(Debug, PartialEq, Clone)]
pub struct RawDexFile {
    pub header: RawHeader,
    /// Offsets of the string data items.
    pub string_id_items: Vec<u32>,
    /// String indices of the type descriptors.
    pub type_id_items: Vec<u32>,
    pub proto_id_items: Vec<RawPrototype>,
    pub field_id_items: Vec<RawField>,
    pub method_id_items: Vec<RawMethod>,
    pub class_def_items: Vec<RawClassDefinition>,
    pub call_site_idxs: Vec<u32>,
    pub method_handle_idxs: Vec<RawMethodHandleItem>,
    /// The data blob.
    pub data: Vec<u8>,
    /// The bytes after the data blob, kept when the header names a link section.
    pub link_data: Option<Vec<u8>>,
}

#[derive(Debug, PartialEq, Clone)]
pub struct RawHeader {
    /// Version bytes, such as "035\0".
    pub version: Vec<u8>,
    /// adler32 checksum of the rest of the file
    pub checksum: u32,
    /// SHA-1 hash of the rest of the file
    pub signature: Vec<u8>,
    pub file_size: u32,
    pub header_size: u32,
    pub endian_tag: u32,
    pub link_size: u32,
    pub link_off: u32,
    pub map_off: u32,
    pub string_ids_size: u32,
    pub string_ids_off: u32,
    pub type_ids_size: u32,
    pub type_ids_off: u32,
    pub proto_ids_size: u32,
    pub proto_ids_off: u32,
    pub field_ids_size: u32,
    pub field_ids_off: u32,
    pub method_ids_size: u32,
    pub method_ids_off: u32,
    pub class_defs_size: u32,
    pub class_defs_off: u32,
    pub data_size: u32,
    pub data_off: u32,
}

#[derive(Debug, PartialEq, Clone)]
pub struct RawClassDataItem {
    pub static_fields_size: u32,
    pub instance_fields_size: u32,
    pub direct_methods_size: u32,
    pub virtual_methods_size: u32,
    pub static_fields: Vec<RawEncodedField>,
    pub instance_fields: Vec<RawEncodedField>,
    pub direct_methods: Vec<RawEncodedMethod>,
    pub virtual_methods: Vec<RawEncodedMethod>,
}

#[derive(Debug, PartialEq, Clone, Copy)]
pub struct RawEncodedField {
    pub field_idx_diff: u32,
    pub access_flags: u32,
}

#[derive(Debug, PartialEq, Clone, Copy)]
pub struct RawEncodedMethod {
    pub method_idx_diff: u32,
    pub access_flags: u32,
    pub code_off: u32,
}

#[derive(Debug, PartialEq, Clone)]
pub struct RawAnnotations {
    pub class_annotations_off: u32,
    pub fld_annot: Option<Vec<RawFieldAnnotation>>,
    pub mtd_annot: Option<Vec<RawMethodAnnotation>>,
    pub prm_annot: Option<Vec<RawParameterAnnotation>>,
}

#[derive(Debug, PartialEq, Clone, Copy)]
pub struct RawFieldAnnotation {
    pub field_idx: u32,
    pub annotations_offset: u32,
}

#[derive(Debug, PartialEq, Clone, Copy)]
pub struct RawMethodAnnotation {
    pub method_idx: u32,
    pub annotations_offset: u32,
}

#[derive(Debug, PartialEq, Clone, Copy)]
pub struct RawParameterAnnotation {
    pub method_idx: u32,
    pub annotations_offset: u32,
}

/// A list of type indices.
#[derive(Debug, PartialEq, Clone)]
pub struct RawTypeList {
    pub size: u32,
    pub list: Vec<u16>,
}

/// A list of offsets of annotation items.
#[derive(Debug, PartialEq, Clone)]
pub struct RawAnnotationSetItem {
    pub size: u32,
    pub entries: Vec<u32>,
}

/// A list of offsets of annotation sets, zero where a parameter has none.
#[derive(Debug, PartialEq, Clone)]
pub struct RawAnnotationSetRefList {
    pub size: u32,
    pub entries: Vec<u32>,
}

/// An element of an encoded annotation: its name still a string index.
#[derive(Debug, PartialEq)]
pub struct RawAnnotationElementItem {
    pub name_idx: u32,
    pub value: EncodedValue,
}

#[derive(Debug, PartialEq, Clone, Copy)]
pub struct RawMethod {
    /// index into the type identifiers
    pub class_idx: u16,
    /// index into the prototypes
    pub proto_idx: u16,
    /// index into the strings
    pub name_idx: u32,
}

#[derive(Debug, PartialEq, Clone, Copy)]
pub struct RawClassDefinition {
    pub class_idx: u32,
    pub access_flags: u32,
    pub superclass_idx: u32,
    pub interfaces_off: u32,
    pub source_file_idx: u32,
    pub annotations_off: u32,
    pub class_data_off: u32,
    pub static_values_off: u32,
}

#[derive(Debug, PartialEq, Clone, Copy)]
pub struct RawField {
    pub class_idx: u16,
    pub type_idx: u16,
    pub name_idx: u32,
}

#[derive(Debug, PartialEq, Clone, Copy)]
pub struct RawPrototype {
    /// index into the strings: the short descriptor
    pub shorty_idx: u32,
    /// index into the type identifiers
    pub return_type_idx: u32,
    /// offset of the parameter type list, or zero
    pub parameters_off: u32,
}

#[derive(Debug, PartialEq, Clone)]
pub struct RawMapList {
    pub size: u32,
    pub list: Vec<RawMapListItem>,
}

#[derive(Debug, PartialEq, Clone, Copy)]
pub struct RawMapListItem {
    pub type_: MapListItemType,
    pub unused: u16,
    pub size: u32,
    pub offset: u32,
}

#[derive(Debug, PartialEq, Clone, Copy)]
pub struct RawMethodHandleItem {
    pub type_: u16,
    pub unused_1: u16,
    pub field_or_method_id: u16,
    pub unused_2: u16,
}

#[derive(Debug, PartialEq, Clone)]
pub struct RawCodeItem {
    pub registers_size: u16,
    pub ins_size: u16,
    pub outs_size: u16,
    pub tries_size: u16,
    pub debug_info_off: u32,
    pub insns_size: u32,
    pub insns: Vec<u16>,
    pub padding: Option<u16>,
    pub tries: Option<Vec<RawTryItem>>,
}

#[derive(Debug, PartialEq, Clone, Copy)]
pub struct RawTryItem {
    /// first covered 16-bit code unit
    pub start_addr: u32,
    /// number of covered 16-bit code units
    pub insn_count: u16,
    /// offset of the handler from the start of the handler list
    pub handler_off: u16,
}

#[derive(Debug, PartialEq, Clone)]
pub struct RawEncodedCatchHandler {
    pub size: i32,
    pub handlers: Vec<RawEncodedTypeAddrPair>,
    /// present only where `size` is not positive
    pub catch_all_addr: Option<u32>,
}

#[derive(Debug, PartialEq, Clone, Copy)]
pub struct RawEncodedTypeAddrPair {
    pub type_idx: u32,
    pub addr: u32,
}

#[derive(Debug, PartialEq, Clone)]
pub struct RawDebugInfoItem {
    pub line_start: u32,
    pub parameters_size: u32,
    pub parameter_names: Vec<u32>,
    pub bytecode: Vec<u8>,
}

#[allow(non_camel_case_types)]
#[derive(Debug, Clone, Copy, PartialEq, Eq, Structural)]
pub enum MapListItemType {
    HEADER_ITEM,
    STRING_ID_ITEM,
    TYPE_ID_ITEM,
    PROTO_ID_ITEM,
    FIELD_ID_ITEM,
    METHOD_ID_ITEM,
    CLASS_DEF_ITEM,
    CALL_SITE_ID_ITEM,
    METHOD_HANDLE_ITEM,
    MAP_LIST,
    TYPE_LIST,
    ANNOTATION_SET_REF_LIST,
    ANNOTATION_SET_ITEM,
    CLASS_DATA_ITEM,
    CODE_ITEM,
    STRING_DATA_ITEM,
    DEBUG_INFO_ITEM,
    ANNOTATION_ITEM,
    ENCODED_ARRAY_ITEM,
    ANNOTATIONS_DIRECTORY_ITEM,
}

pub open spec fn map_item_type_of(v: u16) -> Option<MapListItemType> {
    if v == 0x0000 {
        Some(MapListItemType::HEADER_ITEM)
    } else if v == 0x0001 {
        Some(MapListItemType::STRING_ID_ITEM)
    } else if v == 0x0002 {
        Some(MapListItemType::TYPE_ID_ITEM)
    } else if v == 0x0003 {
        Some(MapListItemType::PROTO_ID_ITEM)
    } else if v == 0x0004 {
        Some(MapListItemType::FIELD_ID_ITEM)
    } else if v == 0x0005 {
        Some(MapListItemType::METHOD_ID_ITEM)
    } else if v == 0x0006 {
        Some(MapListItemType::CLASS_DEF_ITEM)
    } else if v == 0x0007 {
        Some(MapListItemType::CALL_SITE_ID_ITEM)
    } else if v == 0x0008 {
        Some(MapListItemType::METHOD_HANDLE_ITEM)
    } else if v == 0x1000 {
        Some(MapListItemType::MAP_LIST)
    } else if v == 0x1001 {
        Some(MapListItemType::TYPE_LIST)
    } else if v == 0x1002 {
        Some(MapListItemType::ANNOTATION_SET_REF_LIST)
    } else if v == 0x1003 {
        Some(MapListItemType::ANNOTATION_SET_ITEM)
    } else if v == 0x2000 {
        Some(MapListItemType::CLASS_DATA_ITEM)
    } else if v == 0x2001 {
        Some(MapListItemType::CODE_ITEM)
    } else if v == 0x2002 {
        Some(MapListItemType::STRING_DATA_ITEM)
    } else if v == 0x2003 {
        Some(MapListItemType::DEBUG_INFO_ITEM)
    } else if v == 0x2004 {
        Some(MapListItemType::ANNOTATION_ITEM)
    } else if v == 0x2005 {
        Some(MapListItemType::ENCODED_ARRAY_ITEM)
    } else if v == 0x2006 {
        Some(MapListItemType::ANNOTATIONS_DIRECTORY_ITEM)
    } else {
        None
    }
}

impl MapListItemType {
    /// Decodes the type code of a map-list entry.
    pub fn parse(value: u16) -> (r: Result<MapListItemType, DexParserError>)
        ensures
            match r {
                Ok(t) => map_item_type_of(value) == Some(t),
                Err(e) => map_item_type_of(value) is None && e.fault() == Fault::Malformed,
            },
    {
        match value {
            0x0000 => Ok(MapListItemType::HEADER_ITEM),
            0x0001 => Ok(MapListItemType::STRING_ID_ITEM),
            0x0002 => Ok(MapListItemType::TYPE_ID_ITEM),
            0x0003 => Ok(MapListItemType::PROTO_ID_ITEM),
            0x0004 => Ok(MapListItemType::FIELD_ID_ITEM),
            0x0005 => Ok(MapListItemType::METHOD_ID_ITEM),
            0x0006 => Ok(MapListItemType::CLASS_DEF_ITEM),
            0x0007 => Ok(MapListItemType::CALL_SITE_ID_ITEM),
            0x0008 => Ok(MapListItemType::METHOD_HANDLE_ITEM),
            0x1000 => Ok(MapListItemType::MAP_LIST),
            0x1001 => Ok(MapListItemType::TYPE_LIST),
            0x1002 => Ok(MapListItemType::ANNOTATION_SET_REF_LIST),
            0x1003 => Ok(MapListItemType::ANNOTATION_SET_ITEM),
            0x2000 => Ok(MapListItemType::CLASS_DATA_ITEM),
            0x2001 => Ok(MapListItemType::CODE_ITEM),
            0x2002 => Ok(MapListItemType::STRING_DATA_ITEM),
            0x2003 => Ok(MapListItemType::DEBUG_INFO_ITEM),
            0x2004 => Ok(MapListItemType::ANNOTATION_ITEM),
            0x2005 => Ok(MapListItemType::ENCODED_ARRAY_ITEM),
            0x2006 => Ok(MapListItemType::ANNOTATIONS_DIRECTORY_ITEM),
            _ => Err(DexParserError::malformed("unknown map list item type")),
        }
    }
}

} // verus!
