use byteorder::{LittleEndian, WriteBytesExt};
use dexparser::encoded_value::{parse_annotation_element_item, parse_encoded_value_item};
use dexparser::raw_types::RawAnnotationElementItem;
use dexparser::{
    AnnotationElement, DexFileData, DexParserError, EncodedAnnotationItem, EncodedValue, Field,
    Method, Prototype, StringData, TypeIdentifier,
};
use std::rc::Rc;

fn generate_file_data() -> DexFileData {
    let (mut string_data, mut type_identifiers, mut prototypes, mut fields, mut methods) =
        (vec![], vec![], vec![], vec![], vec![]);
    for i in 0..2 {
        let data = Rc::new(StringData { utf16_size: 1, data: i.to_string() });
        string_data.push(data.clone());
        let ty = Rc::new(TypeIdentifier { descriptor: data.clone() });
        type_identifiers.push(ty.clone());
        let prototype = Rc::new(Prototype {
            shorty: data.clone(),
            return_type: ty.clone(),
            parameters: Some(vec![ty.clone(), ty.clone()]),
        });
        prototypes.push(prototype.clone());
        fields.push(Rc::new(Field { definer: ty.clone(), type_: ty.clone(), name: data.clone() }));
        methods.push(Rc::new(Method { definer: ty.clone(), prototype, name: data.clone() }));
    }
    DexFileData { string_data, type_identifiers, prototypes, fields, methods }
}

fn value_of(bytes: &[u8]) -> EncodedValue {
    let fd = generate_file_data();
    parse_encoded_value_item(bytes, 0, &fd).unwrap().0
}

#[test]
fn test_empty_encoded_value_item() {
    let fd = generate_file_data();
    let writer: Vec<u8> = vec![];
    let err = parse_encoded_value_item(&writer, 0, &fd);
    assert!(err.is_err());
    assert_eq!(err.err().unwrap(), DexParserError::EndedEarly { needed: 1 });
}

#[test]
fn test_invalid_encoded_value_item_type() {
    let fd = generate_file_data();
    let mut writer = vec![];
    writer.write_u8(0x01).unwrap();
    let err = parse_encoded_value_item(&writer, 0, &fd);
    assert!(err.is_err());
}

#[test]
fn test_parse_byte_value() {
    let fd = generate_file_data();
    let mut writer = vec![];
    writer.write_u8(0b00000000).unwrap();
    let err = parse_encoded_value_item(&writer, 0, &fd);
    assert!(err.is_err());
    writer.write_u8(0x01).unwrap();
    let res = parse_encoded_value_item(&writer, 0, &fd).unwrap();
    assert_eq!(res.0, EncodedValue::Byte(0x01));
    assert_eq!(res.1, writer.len());
}

#[test]
fn test_parse_short_value_single_byte() {
    let mut writer = vec![];
    writer.write_u8(0b00000010).unwrap();
    writer.write_u8(1 as u8).unwrap();
    assert_eq!(value_of(&writer), EncodedValue::Short(1));
}

#[test]
fn test_parse_short_value_multiple_bytes() {
    let mut writer = vec![];
    writer.write_u8(0b00100010).unwrap();
    writer.write_i16::<LittleEndian>(i16::MAX).unwrap();
    assert_eq!(value_of(&writer), EncodedValue::Short(i16::MAX));
}

#[test]
fn test_parse_char_value_single_byte() {
    let mut writer = vec![];
    writer.write_u8(0b00000011).unwrap();
    writer.write_u8('A' as u8).unwrap();
    assert_eq!(value_of(&writer), EncodedValue::Char('A' as u16));
}

#[test]
fn test_parse_char_value_multiple_byte() {
    let mut writer = vec![];
    writer.write_u8(0b00100011).unwrap();
    writer.write_u16::<LittleEndian>('ß' as u16).unwrap();
    assert_eq!(value_of(&writer), EncodedValue::Char('ß' as u16));
}

#[test]
fn test_parse_int_value_single_byte() {
    let mut writer = vec![];
    writer.write_u8(0b00000100).unwrap();
    writer.write_u8(1_i32 as u8).unwrap();
    assert_eq!(value_of(&writer), EncodedValue::Int(1_i32));
}

#[test]
fn test_parse_int_value_multiple_bytes() {
    let mut writer = vec![];
    writer.write_u8(0b01100100).unwrap();
    writer.write_i32::<LittleEndian>(i32::MAX).unwrap();
    assert_eq!(value_of(&writer), EncodedValue::Int(i32::MAX));
}

#[test]
fn test_parse_long_value_single_byte() {
    let mut writer = vec![];
    writer.write_u8(0b00000110).unwrap();
    writer.write_u8(1_i64 as u8).unwrap();
    assert_eq!(value_of(&writer), EncodedValue::Long(1_i64));
}

#[test]
fn test_parse_long_value_multiple_bytes() {
    let mut writer = vec![];
    writer.write_u8(0b11100110).unwrap();
    writer.write_i64::<LittleEndian>(i64::MAX).unwrap();
    assert_eq!(value_of(&writer), EncodedValue::Long(i64::MAX));
}

#[test]
fn test_parse_float_value_single_byte() {
    let mut writer = vec![];
    writer.write_u8(0b00010000).unwrap();
    writer.write_u8(0b00000000).unwrap();
    match value_of(&writer) {
        EncodedValue::Float(x) => assert_eq!(f32::from_bits(x), 0_f32),
        _ => panic!(),
    }
}

#[test]
fn test_parse_float_value_two_bytes() {
    let mut writer = vec![];
    writer.write_u8(0b00110000).unwrap();
    writer.write_u8(0b00110011).unwrap();
    writer.write_u8(0b00110011).unwrap();
    match value_of(&writer) {
        EncodedValue::Float(x) => {
            assert_eq!(f32::from_bits(x), 0.000000000000000000000000000000000000000018367_f32)
        }
        _ => panic!(),
    }
}

#[test]
fn test_parse_float_value_multiple_byte() {
    let mut writer = vec![];
    writer.write_u8(0b01110000).unwrap();
    writer.write_f32::<LittleEndian>(f32::MAX).unwrap();
    match value_of(&writer) {
        EncodedValue::Float(x) => assert_eq!(f32::from_bits(x), f32::MAX),
        _ => panic!(),
    }
}

#[test]
fn test_parse_double_value() {
    let mut writer = vec![];
    writer.write_u8(0b11110001).unwrap();
    writer.write_f64::<LittleEndian>(123_f64).unwrap();
    match value_of(&writer) {
        EncodedValue::Double(x) => assert_eq!(f64::from_bits(x), 123_f64),
        _ => panic!(),
    }
}

#[test]
fn test_parse_method_type() {
    let fd = generate_file_data();
    let mut writer = vec![];
    writer.write_u8(0x15).unwrap();
    writer.write_u32::<LittleEndian>(1_u32).unwrap();
    let res = parse_encoded_value_item(&writer, 0, &fd).unwrap();
    assert_eq!(res.0, EncodedValue::MethodType(fd.prototypes[1].clone()))
}

#[test]
fn test_parse_method_handle() {
    let fd = generate_file_data();
    let mut writer = vec![];
    writer.write_u8(0x16).unwrap();
    writer.write_u32::<LittleEndian>(1_u32).unwrap();
    let res = parse_encoded_value_item(&writer, 0, &fd).unwrap();
    assert_eq!(res.0, EncodedValue::MethodHandle(fd.methods[1].clone()))
}

#[test]
fn test_parse_string() {
    let fd = generate_file_data();
    let mut writer = vec![];
    writer.write_u8(0x17).unwrap();
    writer.write_u32::<LittleEndian>(0).unwrap();
    let res = parse_encoded_value_item(&writer, 0, &fd).unwrap();
    assert_eq!(res.0, EncodedValue::String(fd.string_data[0].clone()))
}

#[test]
fn test_parse_type() {
    let fd = generate_file_data();
    let mut writer = vec![];
    writer.write_u8(0x18).unwrap();
    writer.write_u32::<LittleEndian>(1_u32).unwrap();
    let res = parse_encoded_value_item(&writer, 0, &fd).unwrap();
    assert_eq!(res.0, EncodedValue::Type(fd.type_identifiers[1].clone()))
}

#[test]
fn test_parse_field() {
    let fd = generate_file_data();
    let mut writer = vec![];
    writer.write_u8(0x19).unwrap();
    writer.write_u32::<LittleEndian>(1_u32).unwrap();
    let res = parse_encoded_value_item(&writer, 0, &fd).unwrap();
    assert_eq!(res.0, EncodedValue::Field(fd.fields[1].clone()))
}

#[test]
fn test_parse_method() {
    let fd = generate_file_data();
    let mut writer = vec![];
    writer.write_u8(0x1A).unwrap();
    writer.write_u32::<LittleEndian>(0_u32).unwrap();
    let res = parse_encoded_value_item(&writer, 0, &fd).unwrap();
    assert_eq!(res.0, EncodedValue::Method(fd.methods[0].clone()))
}

#[test]
fn test_parse_enum() {
    let fd = generate_file_data();
    let mut writer = vec![];
    writer.write_u8(0x1B).unwrap();
    writer.write_u32::<LittleEndian>(1_u32).unwrap();
    let res = parse_encoded_value_item(&writer, 0, &fd).unwrap();
    assert_eq!(res.0, EncodedValue::Enum(fd.fields[1].clone()))
}

#[test]
fn test_parse_array_simple() {
    let mut writer = vec![];
    writer.write_u8(0x1C).unwrap();
    leb128::write::unsigned(&mut writer, 2).unwrap();
    writer.write_u8(0x00).unwrap();
    writer.write_u8(0x05).unwrap();
    writer.write_u8(0x00).unwrap();
    writer.write_u8(0x06).unwrap();
    assert_eq!(
        value_of(&writer),
        EncodedValue::Array(vec![EncodedValue::Byte(0x05), EncodedValue::Byte(0x06)])
    );
}

#[test]
fn test_parse_array_complex() {
    let mut writer = vec![];
    writer.write_u8(0b00011100).unwrap();
    leb128::write::unsigned(&mut writer, 4).unwrap();
    writer.write_u8(0b00000100).unwrap();
    writer.write_u8(0x01).unwrap();
    writer.write_u8(0b01100100).unwrap();
    writer.write_i32::<LittleEndian>(i32::MAX).unwrap();
    writer.write_u8(0b00111111).unwrap();
    writer.write_u8(0b00111110).unwrap();
    assert_eq!(
        value_of(&writer),
        EncodedValue::Array(vec![
            EncodedValue::Int(1),
            EncodedValue::Int(i32::MAX),
            EncodedValue::Boolean(true),
            EncodedValue::Null
        ])
    );
}

#[test]
fn test_parse_array_recursive() {
    let mut writer = vec![];
    writer.write_u8(0b00011100).unwrap();
    leb128::write::unsigned(&mut writer, 4).unwrap();
    writer.write_u8(0b00000100).unwrap();
    writer.write_u8(0x01).unwrap();
    writer.write_u8(0b00011100).unwrap();
    leb128::write::unsigned(&mut writer, 1).unwrap();
    writer.write_u8(0b00000100).unwrap();
    writer.write_u8(0x01).unwrap();
    writer.write_u8(0b00111111).unwrap();
    writer.write_u8(0b00111110).unwrap();
    assert_eq!(
        value_of(&writer),
        EncodedValue::Array(vec![
            EncodedValue::Int(1),
            EncodedValue::Array(vec![EncodedValue::Int(1)]),
            EncodedValue::Boolean(true),
            EncodedValue::Null
        ])
    )
}

#[test]
fn test_parse_annotation() {
    let fd = generate_file_data();
    let mut writer = vec![];
    writer.write_u8(0x1D).unwrap();
    leb128::write::unsigned(&mut writer, 1).unwrap();
    leb128::write::unsigned(&mut writer, 2).unwrap();
    leb128::write::unsigned(&mut writer, 0).unwrap();
    writer.write_u8(0x00).unwrap();
    writer.write_u8(0x05).unwrap();
    leb128::write::unsigned(&mut writer, 1).unwrap();
    writer.write_u8(0x00).unwrap();
    writer.write_u8(0x06).unwrap();
    let res = parse_encoded_value_item(&writer, 0, &fd).unwrap();
    assert_eq!(
        res.0,
        EncodedValue::Annotation(EncodedAnnotationItem {
            type_: fd.type_identifiers[1].clone(),
            values: vec![
                AnnotationElement { name: fd.string_data[0].clone(), value: EncodedValue::Byte(0x05) },
                AnnotationElement { name: fd.string_data[1].clone(), value: EncodedValue::Byte(0x06) },
            ]
        })
    )
}

#[test]
fn test_parse_null() {
    let mut writer = vec![];
    writer.write_u8(0x1E).unwrap();
    writer.write_u8(0x01).unwrap();
    assert_eq!(value_of(&writer), EncodedValue::Null)
}

#[test]
fn test_parse_boolean_true() {
    let mut writer = vec![];
    writer.write_u8(0b00111111).unwrap();
    assert_eq!(value_of(&writer), EncodedValue::Boolean(true))
}

#[test]
fn test_parse_boolean_false() {
    let mut writer = vec![];
    writer.write_u8(0b00011111).unwrap();
    assert_eq!(value_of(&writer), EncodedValue::Boolean(false))
}

#[test]
fn encoded_value_test_parse_annotation_element_item() {
    let fd = generate_file_data();
    let mut writer = vec![];
    leb128::write::unsigned(&mut writer, 1).unwrap();
    writer.write_u8(0x00).unwrap();
    writer.write_u8(0x01).unwrap();
    let res = parse_annotation_element_item(&writer, 0, &fd).unwrap();
    assert_eq!(res.0, RawAnnotationElementItem { name_idx: 1, value: EncodedValue::Byte(0x01) })
}
