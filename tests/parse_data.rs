use byteorder::{LittleEndian, WriteBytesExt};
use dexparser::annotations::{parse_annotations, transform_field_annotations};
use dexparser::encoded_value::parse_annotation_element_item;
use dexparser::items::{parse_class_data_item, parse_encoded_field, parse_encoded_method};
use dexparser::raw::{
    parse_annotation_set_item, parse_annotation_set_ref_list, parse_annotations_directory_item,
    parse_field_annotation_item, parse_method_annotation_item, parse_parameter_annotation_item,
};
use dexparser::raw_types::{
    RawAnnotationElementItem, RawAnnotationSetItem, RawAnnotationSetRefList, RawAnnotations,
    RawClassDataItem, RawEncodedField, RawEncodedMethod, RawFieldAnnotation, RawMethodAnnotation,
    RawParameterAnnotation,
};
use dexparser::{
    AnnotationElement, AnnotationItem, DexFileData, EncodedValue, Endianness, Field,
    FieldAnnotation, Method, Prototype, StringData, TypeIdentifier, Visibility,
};
use std::rc::Rc;

#[allow(non_upper_case_globals)]
const e: Endianness = Endianness::Little;

const DATA_OFFSET: u32 = 0;

fn generate_file_data() -> DexFileData {
    let (mut string_data, mut type_identifiers, mut prototypes, mut fields, mut methods) =
        (vec![], vec![], vec![], vec![], vec![]);
    for i in 0..2 {
        let data = Rc::new(StringData { utf16_size: 1, data: i.to_string() });
        string_data.push(data.clone());
        let ty = Rc::new(TypeIdentifier { descriptor: data.clone() });
        type_identifiers.push(ty.clone());
        let prototype = Rc::new(Prototype {
            shorty: data.clone(),
            return_type: ty.clone(),
            parameters: Some(vec![ty.clone(), ty.clone()]),
        });
        prototypes.push(prototype.clone());
        fields.push(Rc::new(Field { definer: ty.clone(), type_: ty.clone(), name: data.clone() }));
        methods.push(Rc::new(Method { definer: ty.clone(), prototype, name: data.clone() }));
    }
    DexFileData { string_data, type_identifiers, prototypes, fields, methods }
}

// appends an annotation set of two items, keeping the offsets relative to
// the start of the buffer
fn append_annotation_set_item_data(data: &mut Vec<u8>) {
    data.write_u32::<LittleEndian>(2).unwrap();
    let mut annot_1 = generate_annotation_item_data();
    let mut annot_2 = generate_annotation_item_data();
    let first_offset = data.len() as u32 + (2 * std::mem::size_of::<u32>()) as u32;
    data.write_u32::<LittleEndian>(first_offset).unwrap();
    data.write_u32::<LittleEndian>(first_offset + annot_1.len() as u32).unwrap();
    data.append(&mut annot_1);
    data.append(&mut annot_2);
}

fn generate_annotation_item_data() -> Vec<u8> {
    let mut data = vec![];
    data.write_u8(0x00).unwrap();
    data.append(&mut generate_encoded_annotation_item_data());
    data
}

fn generate_encoded_annotation_item_data() -> Vec<u8> {
    let mut data = vec![];
    leb128::write::unsigned(&mut data, 1).unwrap();
    leb128::write::unsigned(&mut data, 1).unwrap();
    leb128::write::unsigned(&mut data, 1).unwrap();
    data.write_u8(0x00).unwrap();
    data.write_u8(0x05).unwrap();
    data
}

fn expected_annotation(fd: &DexFileData) -> AnnotationItem {
    AnnotationItem {
        visibility: Visibility::BUILD,
        type_: fd.type_identifiers[1].clone(),
        annotations: vec![AnnotationElement {
            name: fd.string_data[1].clone(),
            value: EncodedValue::Byte(0x05),
        }],
    }
}

#[test]
fn test_parse_parameter_annotation_item() {
    let mut writer = vec![];
    for d in &[1_u32, 2_u32] {
        writer.write_u32::<LittleEndian>(*d).unwrap();
    }
    let res = parse_parameter_annotation_item(&writer, 0, e).unwrap();
    assert_eq!(writer.len() - res.1, 0);
    assert_eq!(res.0, RawParameterAnnotation { method_idx: 1, annotations_offset: 2 });
}

#[test]
fn test_parse_field_annotation_item() {
    let mut writer = vec![];
    for d in &[1_u32, 2_u32] {
        writer.write_u32::<LittleEndian>(*d).unwrap();
    }
    let res = parse_field_annotation_item(&writer, 0, e).unwrap();
    assert_eq!(writer.len() - res.1, 0);
    assert_eq!(res.0, RawFieldAnnotation { field_idx: 1, annotations_offset: 2 });
}

#[test]
fn test_parse_method_annotation_item() {
    let mut writer = vec![];
    for d in &[1_u32, 2_u32] {
        writer.write_u32::<LittleEndian>(*d).unwrap();
    }
    let res = parse_method_annotation_item(&writer, 0, e).unwrap();
    assert_eq!(writer.len() - res.1, 0);
    assert_eq!(res.0, RawMethodAnnotation { method_idx: 1, annotations_offset: 2 });
}

#[test]
fn test_parse_annotations_directory_item_full() {
    let mut writer = vec![];
    for d in &[0_u32, 1, 1, 1, 1, 2, 1, 2, 1, 2] {
        writer.write_u32::<LittleEndian>(*d).unwrap();
    }
    let res = parse_annotations_directory_item(&writer, 0, e).unwrap();
    assert_eq!(writer.len(), 40);
    assert_eq!(
        res,
        RawAnnotations {
            class_annotations_off: 0,
            fld_annot: Some(vec![RawFieldAnnotation { field_idx: 1, annotations_offset: 2 }]),
            mtd_annot: Some(vec![RawMethodAnnotation { method_idx: 1, annotations_offset: 2 }]),
            prm_annot: Some(vec![RawParameterAnnotation { method_idx: 1, annotations_offset: 2 }])
        }
    )
}

#[test]
fn test_parse_class_data_item() {
    let mut writer = vec![];
    for _ in 0..4 {
        leb128::write::unsigned(&mut writer, 1).unwrap();
    }
    for _ in 0..2 {
        leb128::write::unsigned(&mut writer, 1).unwrap();
        leb128::write::unsigned(&mut writer, 0b1011).unwrap();
    }
    for _ in 0..2 {
        leb128::write::unsigned(&mut writer, 1).unwrap();
        leb128::write::unsigned(&mut writer, 0b1011).unwrap();
        leb128::write::unsigned(&mut writer, 3).unwrap();
    }
    let res = parse_class_data_item(&writer, 0).unwrap();
    assert_eq!(writer.len(), 14);
    assert_eq!(
        res,
        RawClassDataItem {
            static_fields_size: 1,
            instance_fields_size: 1,
            direct_methods_size: 1,
            virtual_methods_size: 1,
            static_fields: vec![RawEncodedField { field_idx_diff: 1, access_flags: 11 }],
            instance_fields: vec![RawEncodedField { field_idx_diff: 1, access_flags: 11 }],
            direct_methods: vec![RawEncodedMethod { method_idx_diff: 1, access_flags: 11, code_off: 3 }],
            virtual_methods: vec![RawEncodedMethod { method_idx_diff: 1, access_flags: 11, code_off: 3 }]
        }
    );
}

#[test]
fn parse_data_test_parse_annotation_element_item() {
    let fd = generate_file_data();
    let mut writer = vec![];
    leb128::write::unsigned(&mut writer, 1).unwrap();
    writer.write_u8(0x00).unwrap();
    writer.write_u8(0x01).unwrap();
    let res = parse_annotation_element_item(&writer, 0, &fd).unwrap();
    assert_eq!(res.0, RawAnnotationElementItem { name_idx: 1, value: EncodedValue::Byte(0x01) })
}

#[test]
fn test_parse_annotation_set_ref_list() {
    let mut writer = vec![];
    writer.write_u32::<LittleEndian>(2).unwrap();
    writer.write_u32::<LittleEndian>(3).unwrap();
    writer.write_u32::<LittleEndian>(4).unwrap();
    let res = parse_annotation_set_ref_list(&writer, 0, e).unwrap();
    assert_eq!(writer.len(), 12);
    assert_eq!(res, RawAnnotationSetRefList { size: 2, entries: vec![3, 4] });
}

#[test]
fn test_parse_annotation_set_item() {
    let mut writer = vec![];
    writer.write_u32::<LittleEndian>(2).unwrap();
    writer.write_u32::<LittleEndian>(3).unwrap();
    writer.write_u32::<LittleEndian>(4).unwrap();
    let res = parse_annotation_set_item(&writer, 0, e).unwrap();
    assert_eq!(writer.len(), 12);
    assert_eq!(res, RawAnnotationSetItem { size: 2, entries: vec![3, 4] });
}

#[test]
fn test_parse_annotations_directory_item_empty() {
    let mut writer = vec![];
    for d in &[0_u32, 0, 0, 0] {
        writer.write_u32::<LittleEndian>(*d).unwrap();
    }
    let res = parse_annotations_directory_item(&writer, 0, e).unwrap();
    assert_eq!(writer.len(), 16);
    assert_eq!(
        res,
        RawAnnotations { class_annotations_off: 0, fld_annot: None, mtd_annot: None, prm_annot: None }
    )
}

#[test]
fn test_parse_encoded_method() {
    let mut writer = vec![];
    leb128::write::unsigned(&mut writer, 1).unwrap();
    leb128::write::unsigned(&mut writer, 0b1011).unwrap();
    leb128::write::unsigned(&mut writer, 3).unwrap();
    let res = parse_encoded_method(&writer, 0).unwrap();
    assert_eq!(res.0, RawEncodedMethod { method_idx_diff: 1, access_flags: 11, code_off: 3 });
}

#[test]
fn test_parse_encoded_field() {
    let mut writer = vec![];
    leb128::write::unsigned(&mut writer, 1).unwrap();
    leb128::write::unsigned(&mut writer, 0b1011).unwrap();
    let res = parse_encoded_field(&writer, 0).unwrap();
    assert_eq!(res.0, RawEncodedField { field_idx_diff: 1, access_flags: 11 });
}

#[test]
fn test_parse_annotations() {
    let mut data = vec![];
    append_annotation_set_item_data(&mut data);
    let fd = generate_file_data();
    let res = parse_annotations(&data, &fd, 0, DATA_OFFSET, e).unwrap();
    assert_eq!(res.len(), 2);
    assert_eq!(res, vec![expected_annotation(&fd), expected_annotation(&fd)]);
}

#[test]
fn test_transform_field_annotations() {
    let mut data = vec![];
    append_annotation_set_item_data(&mut data);
    let asi_2_offset = data.len() as u32;
    append_annotation_set_item_data(&mut data);
    let rfas = vec![
        RawFieldAnnotation { field_idx: 0, annotations_offset: 0 },
        RawFieldAnnotation { field_idx: 1, annotations_offset: asi_2_offset },
    ];
    let fd = generate_file_data();
    let res = transform_field_annotations(&data, &rfas, &fd, DATA_OFFSET, e).unwrap();
    assert_eq!(res.len(), 2);
    assert_eq!(
        res,
        vec![
            FieldAnnotation {
                field_data: fd.fields[0].clone(),
                annotations: vec![expected_annotation(&fd), expected_annotation(&fd)]
            },
            FieldAnnotation {
                field_data: fd.fields[1].clone(),
                annotations: vec![expected_annotation(&fd), expected_annotation(&fd)]
            }
        ]
    )
}
