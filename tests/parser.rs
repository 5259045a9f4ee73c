use byteorder::{LittleEndian, WriteBytesExt};
use dexparser::primitives::{determine_leb128_length, take_sleb128, take_uleb128, take_uleb128p1};
use dexparser::raw::{
    parse_class_def_items, parse_field_id_items, parse_map_list, parse_method_handle_items,
    parse_method_id_items, parse_proto_id_items, parse_type_list, parse_u32_list,
};
use dexparser::raw_types::{
    MapListItemType, RawClassDefinition, RawField, RawMapList, RawMapListItem, RawMethod,
    RawMethodHandleItem, RawPrototype, RawTypeList,
};
use dexparser::result_types::AnnotationType;
use dexparser::{AccessFlag, Endianness};

#[allow(non_upper_case_globals)]
const e: Endianness = Endianness::Little;

#[test]
fn test_access_flag_bitmasking() {
    assert_eq!(AccessFlag::parse(u32::MAX, AnnotationType::Method).len(), 18);
    assert_eq!(AccessFlag::parse(u32::MIN, AnnotationType::Method).len(), 0);
}

#[test]
fn test_parse_method_handle_item() {
    let mut writer = vec![];
    for d in &[1_u16, 2_u16, 3_u16, 4_u16, 5_u16, 6_u16, 7_u16, 8_u16] {
        writer.write_u16::<LittleEndian>(*d).unwrap();
    }
    let res = parse_method_handle_items(&writer, 0, 2, e).unwrap();
    assert_eq!(writer.len() - res.1, 0);
    assert_eq!(res.0.len(), 2);
    assert_eq!(res.0[0], RawMethodHandleItem { type_: 1, unused_1: 2, field_or_method_id: 3, unused_2: 4 });
    assert_eq!(res.0[1], RawMethodHandleItem { type_: 5, unused_1: 6, field_or_method_id: 7, unused_2: 8 });
}

#[test]
fn test_parse_class_def_items() {
    let mut writer = vec![];
    for d in &[1_u32, 1, 1, 1, 1, 1, 1, 1, 2, 2, 2, 2, 2, 2, 2, 2] {
        writer.write_u32::<LittleEndian>(*d).unwrap();
    }
    let res = parse_class_def_items(&writer, 0, 2, e).unwrap();
    assert_eq!(writer.len() - res.1, 0);
    assert_eq!(
        res.0,
        vec![
            RawClassDefinition {
                class_idx: 1,
                access_flags: 1,
                superclass_idx: 1,
                interfaces_off: 1,
                source_file_idx: 1,
                annotations_off: 1,
                class_data_off: 1,
                static_values_off: 1
            },
            RawClassDefinition {
                class_idx: 2,
                access_flags: 2,
                superclass_idx: 2,
                interfaces_off: 2,
                source_file_idx: 2,
                annotations_off: 2,
                class_data_off: 2,
                static_values_off: 2
            }
        ]
    )
}

#[test]
fn test_parse_method_id_items() {
    let mut writer = vec![];
    writer.write_u16::<LittleEndian>(1).unwrap();
    writer.write_u16::<LittleEndian>(1).unwrap();
    writer.write_u32::<LittleEndian>(1).unwrap();
    writer.write_u16::<LittleEndian>(2).unwrap();
    writer.write_u16::<LittleEndian>(2).unwrap();
    writer.write_u32::<LittleEndian>(2).unwrap();
    let res = parse_method_id_items(&writer, 0, 2, e).unwrap();
    assert_eq!(writer.len() - res.1, 0);
    assert_eq!(
        res.0,
        vec![
            RawMethod { class_idx: 1, proto_idx: 1, name_idx: 1 },
            RawMethod { class_idx: 2, proto_idx: 2, name_idx: 2 }
        ]
    );
}

#[test]
fn test_parse_field_id_items() {
    let mut writer = vec![];
    writer.write_u16::<LittleEndian>(1).unwrap();
    writer.write_u16::<LittleEndian>(1).unwrap();
    writer.write_u32::<LittleEndian>(1).unwrap();
    writer.write_u16::<LittleEndian>(2).unwrap();
    writer.write_u16::<LittleEndian>(2).unwrap();
    writer.write_u32::<LittleEndian>(2).unwrap();
    let res = parse_field_id_items(&writer, 0, 2, e).unwrap();
    assert_eq!(writer.len() - res.1, 0);
    assert_eq!(
        res.0,
        vec![
            RawField { class_idx: 1, type_idx: 1, name_idx: 1 },
            RawField { class_idx: 2, type_idx: 2, name_idx: 2 }
        ]
    );
}

#[test]
fn test_parse_proto_id_items() {
    let mut writer = vec![];
    for d in &[1_u32, 1, 1, 2, 2, 2] {
        writer.write_u32::<LittleEndian>(*d).unwrap();
    }
    let res = parse_proto_id_items(&writer, 0, 2, e).unwrap();
    assert_eq!(writer.len() - res.1, 0);
    assert_eq!(
        res.0,
        vec![
            RawPrototype { shorty_idx: 1, return_type_idx: 1, parameters_off: 1 },
            RawPrototype { shorty_idx: 2, return_type_idx: 2, parameters_off: 2 }
        ]
    );
}

#[test]
fn test_parse_type_list() {
    let mut writer = vec![];
    writer.write_u32::<LittleEndian>(2).unwrap();
    writer.write_u16::<LittleEndian>(1).unwrap();
    writer.write_u16::<LittleEndian>(1).unwrap();
    let res = parse_type_list(&writer, 0, e).unwrap();
    assert_eq!(writer.len(), 8);
    assert_eq!(res, RawTypeList { size: 2, list: vec![1, 1] });
}

#[test]
fn test_parse_map_list() {
    let mut writer = vec![];
    writer.write_u32::<LittleEndian>(2).unwrap();
    writer.write_u16::<LittleEndian>(0x0000).unwrap();
    writer.write_u16::<LittleEndian>(1).unwrap();
    writer.write_u32::<LittleEndian>(1).unwrap();
    writer.write_u32::<LittleEndian>(1).unwrap();
    writer.write_u16::<LittleEndian>(0x0001).unwrap();
    writer.write_u16::<LittleEndian>(2).unwrap();
    writer.write_u32::<LittleEndian>(2).unwrap();
    writer.write_u32::<LittleEndian>(2).unwrap();
    let res = parse_map_list(&writer, 0, e).unwrap();
    assert_eq!(res.list.len(), 2);
    assert_eq!(
        res,
        RawMapList {
            size: 2,
            list: vec![
                RawMapListItem { type_: MapListItemType::HEADER_ITEM, unused: 1, size: 1, offset: 1 },
                RawMapListItem { type_: MapListItemType::STRING_ID_ITEM, unused: 2, size: 2, offset: 2 }
            ]
        }
    );
}

#[test]
fn test_parse_string_id_items() {
    let mut writer = vec![];
    writer.write_u32::<LittleEndian>(1).unwrap();
    writer.write_u32::<LittleEndian>(2).unwrap();
    let res = parse_u32_list(&writer, 0, 2, e).unwrap();
    assert_eq!(writer.len() - res.1, 0);
    assert_eq!(res.0, vec![1, 2]);
}

#[test]
fn test_determine_leb128_length() {
    assert_eq!(determine_leb128_length(&[0b00000001]), 1);
    assert_eq!(determine_leb128_length(&[0b10000000, 0b00000001]), 2);
    assert_eq!(
        determine_leb128_length(&[0b10000000, 0b11111111, 0b11111111, 0b11111111, 0b00000001]),
        5
    );
}

#[test]
fn test_parse_uleb128() {
    let mut res = take_uleb128(&[0b00000001], 0).unwrap();
    assert_eq!(res.0, 1);
    res = take_uleb128(&[0b10000000, 0b00000001], 0).unwrap();
    assert_eq!(res.0, 128);
    res = take_uleb128(&[0b11111111, 0b11111111, 0b11111111, 0b11111111, 0b01111111], 0).unwrap();
    assert_eq!(res.0, u32::MAX);
}

#[test]
fn test_parse_uleb128p1() {
    let mut res = take_uleb128p1(&[0b00000001], 0).unwrap();
    assert_eq!(res.0, 0);
    res = take_uleb128p1(&[0b10000000, 0b00000001], 0).unwrap();
    assert_eq!(res.0, 127);
    res = take_uleb128p1(&[0b11111111, 0b11111111, 0b11111111, 0b11111111, 0b01111111], 0).unwrap();
    assert_eq!(res.0, u32::MAX - 1);
}

#[test]
fn test_parse_sleb128() {
    let mut res = take_sleb128(&[0b00000001], 0).unwrap();
    assert_eq!(res.0, 1);
    res = take_sleb128(&[0b10000000, 0b00000001], 0).unwrap();
    assert_eq!(res.0, 128);
    res = take_sleb128(&[0b11111111, 0b11111111, 0b11111111, 0b11111111, 0b00000111], 0).unwrap();
    assert_eq!(res.0, i32::MAX);
    res = take_sleb128(&[0b11111111, 0b11111111, 0b11111111, 0b11111111, 0b01111111], 0).unwrap();
    assert_eq!(res.0, -1);
}
