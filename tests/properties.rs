use dexparser::call_sites::parse_call_site_items;
use dexparser::encoded_value::{parse_encoded_array_item, parse_encoded_value_item};
use dexparser::resolve::transform_string_id_items;
use dexparser::primitives::{take_sleb128, take_uleb128, take_until_null_and_consume};
use dexparser::raw_types::RawEncodedField;
use dexparser::resolve::transform_encoded_fields;
use dexparser::strings::parse_string_data_item;
use dexparser::{
    DebugItemBytecodes, DexFileData, DexParserError, EncodedValue, Field, Method, Prototype,
    StringData, TypeIdentifier, Visibility,
};
use std::rc::Rc;

fn file_data(n: usize) -> DexFileData {
    let (mut string_data, mut type_identifiers, mut prototypes, mut fields, mut methods) =
        (vec![], vec![], vec![], vec![], vec![]);
    for i in 0..n {
        let data = Rc::new(StringData { utf16_size: 1, data: i.to_string() });
        string_data.push(data.clone());
        let ty = Rc::new(TypeIdentifier { descriptor: data.clone() });
        type_identifiers.push(ty.clone());
        let prototype = Rc::new(Prototype { shorty: data.clone(), return_type: ty.clone(), parameters: None });
        prototypes.push(prototype.clone());
        fields.push(Rc::new(Field { definer: ty.clone(), type_: ty.clone(), name: data.clone() }));
        methods.push(Rc::new(Method { definer: ty.clone(), prototype, name: data.clone() }));
    }
    DexFileData { string_data, type_identifiers, prototypes, fields, methods }
}

#[test]
fn byte_value_consumes_everything() {
    let fd = file_data(2);
    let input = [0x00, 0x01];
    let (v, end) = parse_encoded_value_item(&input, 0, &fd).unwrap();
    assert_eq!(v, EncodedValue::Byte(0x01));
    assert_eq!(input.len() - end, 0);
}

#[test]
fn short_with_two_bytes() {
    let fd = file_data(2);
    let (v, _) = parse_encoded_value_item(&[0b00100010, 0xFF, 0x7F], 0, &fd).unwrap();
    assert_eq!(v, EncodedValue::Short(32767));
}

#[test]
fn int_from_one_negative_byte() {
    let fd = file_data(2);
    let (v, _) = parse_encoded_value_item(&[0b00000100, 0xFF], 0, &fd).unwrap();
    assert_eq!(v, EncodedValue::Int(-1));
}

#[test]
fn float_is_zero_extended_on_the_right() {
    let fd = file_data(2);
    let (v, end) = parse_encoded_value_item(&[0b00110000, 0x33, 0x33], 0, &fd).unwrap();
    assert_eq!(v, EncodedValue::Float(u32::from_le_bytes([0x33, 0x33, 0x00, 0x00])));
    assert_eq!(end, 3);
    match v {
        EncodedValue::Float(bits) => assert!((f32::from_bits(bits) - 1.8367e-41_f32).abs() < 1e-44),
        _ => panic!(),
    }
}

#[test]
fn array_with_byte_and_boolean() {
    let fd = file_data(2);
    let input = [0b00011100, 0x02, 0x00, 0x05, 0x1F];
    let (v, end) = parse_encoded_value_item(&input, 0, &fd).unwrap();
    assert_eq!(v, EncodedValue::Array(vec![EncodedValue::Byte(0x05), EncodedValue::Boolean(false)]));
    assert_eq!(end, input.len());
}

#[test]
fn boolean_tags_take_one_byte() {
    let fd = file_data(2);
    for arg in 0u8..8 {
        let t = (arg << 5) | 0x1F;
        let (v, end) = parse_encoded_value_item(&[t, 0xAA], 0, &fd).unwrap();
        assert_eq!(v, EncodedValue::Boolean((t >> 5) & 1 == 1));
        assert_eq!(end, 1);
    }
}

#[test]
fn null_tags_take_one_byte() {
    let fd = file_data(2);
    for arg in 0u8..8 {
        let t = (arg << 5) | 0x1E;
        let (v, end) = parse_encoded_value_item(&[t, 0xAA], 0, &fd).unwrap();
        assert_eq!(v, EncodedValue::Null);
        assert_eq!(end, 1);
    }
}

#[test]
fn differential_field_indices_accumulate() {
    let fd = file_data(8);
    let raw = vec![
        RawEncodedField { field_idx_diff: 3, access_flags: 0 },
        RawEncodedField { field_idx_diff: 2, access_flags: 0 },
        RawEncodedField { field_idx_diff: 1, access_flags: 0 },
    ];
    let v = transform_encoded_fields(&raw, &fd).unwrap();
    assert_eq!(v[0].field, fd.fields[3]);
    assert_eq!(v[1].field, fd.fields[5]);
    assert_eq!(v[2].field, fd.fields[6]);
    assert_eq!(v[2].field.name.data, "6");
}

#[test]
fn differential_field_index_past_the_pool_is_malformed() {
    let fd = file_data(4);
    let raw = vec![
        RawEncodedField { field_idx_diff: 3, access_flags: 0 },
        RawEncodedField { field_idx_diff: 1, access_flags: 0 },
    ];
    assert!(matches!(transform_encoded_fields(&raw, &fd), Err(DexParserError::ParsingFailed { .. })));
}

#[test]
fn uleb128_round_trip() {
    for v in [0u32, 1, 127, 128, 300, 16383, 16384, 0x0FFF_FFFF, 0x1000_0000, u32::MAX] {
        let mut buf = vec![];
        let k = leb128::write::unsigned(&mut buf, v as u64).unwrap();
        let (back, end) = take_uleb128(&buf, 0).unwrap();
        assert_eq!(back, v);
        assert_eq!(end, k);
    }
}

#[test]
fn sleb128_negative_values() {
    for v in [-1i32, -64, -65, -128, 63, 64, i32::MIN, i32::MAX] {
        let mut buf = vec![];
        leb128::write::signed(&mut buf, v as i64).unwrap();
        assert_eq!(take_sleb128(&buf, 0).unwrap().0, v);
    }
}

#[test]
fn leb128_longer_than_five_bytes_is_malformed() {
    let bytes = [0x80, 0x80, 0x80, 0x80, 0x80, 0x01];
    assert!(matches!(take_uleb128(&bytes, 0), Err(DexParserError::ParsingFailed { .. })));
}

#[test]
fn leb128_cut_short_ends_early() {
    assert_eq!(take_uleb128(&[0x80, 0x80], 0).err().unwrap(), DexParserError::EndedEarly { needed: 3 });
}

#[test]
fn null_terminated_run() {
    let (v, end) = take_until_null_and_consume(&[b'a', b'b', 0, b'c'], 0).unwrap();
    assert_eq!(v, b"ab".to_vec());
    assert_eq!(end, 3);
    assert_eq!(take_until_null_and_consume(&[b'a'], 0).err().unwrap(), DexParserError::EndedEarly { needed: 1 });
}

#[test]
fn modified_utf8_nul_is_decoded() {
    let bytes = [0x03, b'a', 0xC0, 0x80, b'b', 0x00];
    let (sd, end) = parse_string_data_item(&bytes, 0).unwrap();
    assert_eq!(sd.data, "a\u{0}b");
    assert_eq!(sd.utf16_size, 3);
    assert_eq!(end, bytes.len());
}

#[test]
fn modified_utf8_surrogate_pair_is_one_character() {
    let bytes = [0x02, 0xED, 0xA0, 0xBD, 0xED, 0xB8, 0x80, 0x00];
    let (sd, _) = parse_string_data_item(&bytes, 0).unwrap();
    assert_eq!(sd.data, "\u{1F600}");
}

#[test]
fn string_length_mismatch_is_an_encoding_error() {
    let bytes = [0x05, b'a', b'b', 0x00];
    assert_eq!(parse_string_data_item(&bytes, 0).err().unwrap(), DexParserError::EncodingError);
}

#[test]
fn cut_multibyte_sequence_is_an_encoding_error() {
    let bytes = [0x01, 0xE2, 0x82, 0x00];
    assert_eq!(parse_string_data_item(&bytes, 0).err().unwrap(), DexParserError::EncodingError);
}

#[test]
fn index_past_the_pool_is_malformed() {
    let fd = file_data(2);
    assert!(matches!(
        parse_encoded_value_item(&[0x17, 0x02], 0, &fd),
        Err(DexParserError::ParsingFailed { .. })
    ));
}

#[test]
fn oversized_argument_is_malformed() {
    let fd = file_data(2);
    assert!(matches!(
        parse_encoded_value_item(&[0b01000010, 1, 2, 3], 0, &fd),
        Err(DexParserError::ParsingFailed { .. })
    ));
}

#[test]
fn nesting_past_the_limit_is_malformed() {
    let fd = file_data(2);
    let mut bytes = vec![];
    for _ in 0..70 {
        bytes.push(0x1C);
        bytes.push(0x01);
    }
    bytes.push(0x1E);
    assert!(matches!(
        parse_encoded_value_item(&bytes, 0, &fd),
        Err(DexParserError::ParsingFailed { .. })
    ));
}

#[test]
fn static_values_array() {
    let fd = file_data(2);
    let (values, end) = parse_encoded_array_item(&[0x02, 0x04, 0x07, 0x1E], 0, &fd).unwrap();
    assert_eq!(values, vec![EncodedValue::Int(7), EncodedValue::Null]);
    assert_eq!(end, 4);
}

#[test]
fn visibility_bytes() {
    assert_eq!(Visibility::parse(0).unwrap(), Visibility::BUILD);
    assert_eq!(Visibility::parse(2).unwrap(), Visibility::SYSTEM);
    assert!(Visibility::parse(3).is_err());
    assert_eq!(Visibility::RUNTIME.name(), "runtime");
}

#[test]
fn debug_opcodes() {
    assert_eq!(DebugItemBytecodes::parse(0x00), DebugItemBytecodes::DBG_END_SEQUENCE);
    assert_eq!(DebugItemBytecodes::parse(0x09), DebugItemBytecodes::DBG_SET_FILE);
    assert_eq!(DebugItemBytecodes::parse(0x0A), DebugItemBytecodes::SPECIAL_OPCODE(0x0A));
}

#[test]
fn byte_array_and_annotation_need_argument_zero() {
    let fd = file_data(2);
    for bytes in [vec![0x20u8, 0x05], vec![0x3C, 0x00], vec![0x3D, 0x00, 0x00]] {
        assert!(matches!(
            parse_encoded_value_item(&bytes, 0, &fd),
            Err(DexParserError::ParsingFailed { .. })
        ));
    }
}

#[test]
fn offset_at_the_end_of_the_blob_is_malformed() {
    let data = [0x01, b'a', 0x00];
    assert!(transform_string_id_items(&data, &[100], 100).is_ok());
    assert!(matches!(
        transform_string_id_items(&data, &[103], 100),
        Err(DexParserError::ParsingFailed { .. })
    ));
}

#[test]
fn call_site_items_resolve() {
    let fd = file_data(2);
    // an array of four values: method handle 1, string 0, method type 1, int 7
    let data = [0x04, 0x16, 0x01, 0x17, 0x00, 0x15, 0x01, 0x04, 0x07];
    let v = parse_call_site_items(&data, 10, &[10], &fd).unwrap();
    assert_eq!(v.len(), 1);
    assert_eq!(v[0].method_handle, fd.methods[1]);
    assert_eq!(v[0].method_name, fd.string_data[0]);
    assert_eq!(v[0].method_type, fd.prototypes[1]);
    assert_eq!(v[0].constant_values, vec![EncodedValue::Int(7)]);
}

#[test]
fn call_site_in_the_wrong_order_is_malformed() {
    let fd = file_data(2);
    let data = [0x03, 0x17, 0x00, 0x16, 0x01, 0x15, 0x01];
    assert!(matches!(parse_call_site_items(&data, 0, &[0], &fd), Err(DexParserError::ParsingFailed { .. })));
    let short = [0x02, 0x16, 0x01, 0x17, 0x00];
    assert!(matches!(parse_call_site_items(&short, 0, &[0], &fd), Err(DexParserError::ParsingFailed { .. })));
}
