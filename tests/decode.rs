use byteorder::{BigEndian, ByteOrder, LittleEndian, WriteBytesExt};
use dexparser::{parse, AccessFlag, DexParserError, Endianness};

const NO_INDEX: u32 = 0xFFFF_FFFF;

fn string_item(out: &mut Vec<u8>, text: &str) {
    leb128::write::unsigned(out, text.encode_utf16().count() as u64).unwrap();
    out.extend_from_slice(text.as_bytes());
    out.push(0);
}

/// A small file in byte order `B`: two classes, one field, one method with code.
fn sample_file_in<B: ByteOrder>() -> Vec<u8> {
    let strings = ["I", "LFoo;", "V", "LBar;", "x", "Foo.java"];
    let data_off: u32 = 0x70 + 4 * 6 + 4 * 4 + 12 * 2 + 8 + 8 + 32 * 2;

    let mut data = vec![];
    let mut string_offsets = vec![];
    for s in strings.iter() {
        string_offsets.push(data_off + data.len() as u32);
        string_item(&mut data, s);
    }
    let empty_list_off = data_off + data.len() as u32;
    data.write_u32::<B>(0).unwrap();
    let code_off = data_off + data.len() as u32;
    data.write_u16::<B>(1).unwrap();
    data.write_u16::<B>(1).unwrap();
    data.write_u16::<B>(0).unwrap();
    data.write_u16::<B>(0).unwrap();
    data.write_u32::<B>(0).unwrap();
    data.write_u32::<B>(1).unwrap();
    data.write_u16::<B>(0x000e).unwrap();
    let class_data_off = data_off + data.len() as u32;
    for v in &[0u64, 1, 1, 0, 0, 2, 0, 0x10001, code_off as u64] {
        leb128::write::unsigned(&mut data, *v).unwrap();
    }
    let map_off = data_off + data.len() as u32;
    data.write_u32::<B>(1).unwrap();
    data.write_u16::<B>(0x0000).unwrap();
    data.write_u16::<B>(0).unwrap();
    data.write_u32::<B>(1).unwrap();
    data.write_u32::<B>(0).unwrap();

    let file_size = data_off + data.len() as u32;
    let mut f = vec![0x64, 0x65, 0x78, 0x0A, 0x30, 0x33, 0x35, 0x00];
    f.write_u32::<B>(0).unwrap();
    f.extend_from_slice(&[0u8; 20]);
    for v in &[
        file_size, 0x70, 0x12345678, 0, 0, map_off, 6, 0x70, 4, 0x88, 2, 0x98, 1, 0xb0, 1, 0xb8, 2,
        0xc0, data.len() as u32, data_off,
    ] {
        f.write_u32::<B>(*v).unwrap();
    }
    assert_eq!(f.len(), 0x70);
    for o in &string_offsets {
        f.write_u32::<B>(*o).unwrap();
    }
    for t in &[0u32, 1, 2, 3] {
        f.write_u32::<B>(*t).unwrap();
    }
    for v in &[2u32, 2, 0, 0, 0, empty_list_off] {
        f.write_u32::<B>(*v).unwrap();
    }
    f.write_u16::<B>(1).unwrap();
    f.write_u16::<B>(0).unwrap();
    f.write_u32::<B>(4).unwrap();
    f.write_u16::<B>(1).unwrap();
    f.write_u16::<B>(0).unwrap();
    f.write_u32::<B>(4).unwrap();
    for v in &[1u32, 0x1, NO_INDEX, 0, 5, 0, class_data_off, 0] {
        f.write_u32::<B>(*v).unwrap();
    }
    for v in &[3u32, 0x11, 1, 0, NO_INDEX, 0, 0, 0] {
        f.write_u32::<B>(*v).unwrap();
    }
    assert_eq!(f.len() as u32, data_off);
    f.extend_from_slice(&data);
    f
}

fn sample_file() -> Vec<u8> {
    sample_file_in::<LittleEndian>()
}

#[test]
fn decodes_a_big_endian_file() {
    let d = parse(&sample_file_in::<BigEndian>()).unwrap();
    assert_eq!(d.header.endianness, Endianness::Big);
    assert_eq!(d.classes.len(), 2);
    assert_eq!(d.classes[0].source_file_name.as_ref().unwrap().data, "Foo.java");
    let code = d.classes[0].class_data.as_ref().unwrap().direct_methods[0].code.as_ref().unwrap();
    assert_eq!(code.insns, vec![0x000e]);
}

#[test]
fn decodes_a_small_file() {
    let d = parse(&sample_file()).unwrap();
    assert_eq!(d.header.version, "035");
    assert_eq!(d.header.endianness, Endianness::Little);
    let names: Vec<&str> = d.file_data.string_data.iter().map(|s| s.data.as_str()).collect();
    assert_eq!(names, vec!["I", "LFoo;", "V", "LBar;", "x", "Foo.java"]);
    assert_eq!(d.file_data.type_identifiers[3].descriptor.data, "LBar;");
    assert_eq!(d.file_data.fields[0].name.data, "x");
    assert_eq!(d.file_data.methods[0].prototype.return_type.descriptor.data, "V");
    assert_eq!(d.classes.len(), 2);
    let foo = &d.classes[0];
    assert_eq!(foo.class_type.descriptor.data, "LFoo;");
    assert_eq!(foo.access_flags, vec![AccessFlag::ACC_PUBLIC]);
    assert_eq!(foo.source_file_name.as_ref().unwrap().data, "Foo.java");
    let cd = foo.class_data.as_ref().unwrap();
    assert_eq!(cd.instance_fields.len(), 1);
    assert_eq!(cd.instance_fields[0].access_flags, vec![AccessFlag::ACC_PRIVATE]);
    assert_eq!(cd.direct_methods[0].access_flags, vec![AccessFlag::ACC_PUBLIC, AccessFlag::ACC_CONSTRUCTOR]);
    let code = cd.direct_methods[0].code.as_ref().unwrap();
    assert_eq!(code.insns, vec![0x000e]);
    assert_eq!(code.registers_size, 1);
    assert!(code.tries.is_none());
    assert!(d.call_site_items.is_empty());
}

#[test]
fn superclass_no_index_is_absent() {
    let d = parse(&sample_file()).unwrap();
    assert!(d.classes[0].superclass.is_none());
    assert_eq!(d.classes[1].superclass, Some(d.file_data.type_identifiers[1].clone()));
    assert!(d.classes[1].source_file_name.is_none());
}

#[test]
fn zero_parameters_offset_is_absent_and_empty_list_is_present() {
    let d = parse(&sample_file()).unwrap();
    assert_eq!(d.file_data.prototypes[0].parameters, None);
    assert_eq!(d.file_data.prototypes[1].parameters, Some(vec![]));
}

#[test]
fn decoding_twice_gives_equal_results() {
    let bytes = sample_file();
    assert_eq!(parse(&bytes).unwrap(), parse(&bytes).unwrap());
}

#[test]
fn empty_input_ends_early_on_the_header() {
    assert_eq!(parse(&[]).err().unwrap(), DexParserError::EndedEarly { needed: 112 });
}

#[test]
fn bad_endian_tag_is_malformed() {
    let mut bytes = sample_file();
    bytes[40] = 0x11;
    assert!(matches!(parse(&bytes), Err(DexParserError::ParsingFailed { .. })));
}

#[test]
fn missing_magic_is_malformed() {
    let mut bytes = sample_file();
    bytes[0] = 0x65;
    assert!(matches!(parse(&bytes), Err(DexParserError::ParsingFailed { .. })));
}

#[test]
fn class_index_out_of_range_is_malformed() {
    let mut bytes = sample_file();
    let class_defs = 0xc0;
    bytes[class_defs] = 9;
    assert!(matches!(parse(&bytes), Err(DexParserError::ParsingFailed { .. })));
}

#[test]
fn truncated_file_ends_early() {
    let bytes = sample_file();
    assert!(matches!(parse(&bytes[..bytes.len() - 2]), Err(DexParserError::EndedEarly { .. })));
}
