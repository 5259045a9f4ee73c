//! The resolved model: every index and offset of the file replaced by a
//! shared handle to the record it names.
use crate::error::{DexParserError, Fault};
use crate::primitives::Endianness;
use std::rc::Rc;
use vstd::prelude::*;

verus! {

/// The decoded file.
#[derive(Debug, PartialEq)]
pub struct DexFile {
    pub header: Header,
    pub file_data: DexFileData,
    pub classes: Vec<ClassDefinition>,
    pub call_site_items: Vec<CallSiteItem>,
}

/// A call site: the bootstrap method handle, the method name and type, and
/// the extra constant arguments.
#[derive(Debug, PartialEq)]
pub struct CallSiteItem {
    pub method_handle: Rc<Method>,
    pub method_name: Rc<StringData>,
    pub method_type: Rc<Prototype>,
    pub constant_values: Vec<EncodedValue>,
}

/// The pools that the rest of the file refers to by index.
#[derive(Debug, PartialEq, Clone)]
pub struct DexFileData {
    pub string_data: Vec<Rc<StringData>>,
    pub type_identifiers: Vec<Rc<TypeIdentifier>>,
    pub prototypes: Vec<Rc<Prototype>>,
    pub fields: Vec<Rc<Field>>,
    pub methods: Vec<Rc<Method>>,
}

/// The number of entries of each pool: all that decides whether an index
/// can be resolved.
pub struct PoolSizes {
    pub strings: nat,
    pub types: nat,
    pub prototypes: nat,
    pub fields: nat,
    pub methods: nat,
}

impl DexFileData {
    pub open spec fn sizes(&self) -> PoolSizes {
        PoolSizes {
            strings: self.string_data@.len(),
            types: self.type_identifiers@.len(),
            prototypes: self.prototypes@.len(),
            fields: self.fields@.len(),
            methods: self.methods@.len(),
        }
    }
}

#[derive(Debug, PartialEq, Clone)]
pub struct Header {
    /// The three version digits, such as "035".
    pub version: String,
    /// The adler32 checksum as stored; it is not checked here.
    pub checksum: u32,
    /// The SHA-1 signature as stored; it is not checked here.
    pub signature: Vec<u8>,
    pub file_size: u32,
    pub endianness: Endianness,
}

#[derive(Debug, PartialEq, Clone)]
pub struct StringData {
    /// The declared length in UTF-16 code units.
    pub utf16_size: u32,
    pub data: String,
}

#[derive(Debug, PartialEq, Clone)]
pub struct TypeIdentifier {
    pub descriptor: Rc<StringData>,
}

#[derive(Debug, PartialEq, Clone)]
pub struct Prototype {
    pub shorty: Rc<StringData>,
    pub return_type: Rc<TypeIdentifier>,
    pub parameters: Option<Vec<Rc<TypeIdentifier>>>,
}

#[derive(Debug, PartialEq, Clone)]
pub struct Field {
    pub definer: Rc<TypeIdentifier>,
    pub type_: Rc<TypeIdentifier>,
    pub name: Rc<StringData>,
}

#[derive(Debug, PartialEq, Clone)]
pub struct Method {
    pub definer: Rc<TypeIdentifier>,
    pub prototype: Rc<Prototype>,
    pub name: Rc<StringData>,
}

#[derive(Debug, PartialEq)]
pub struct ClassAnnotation {
    pub visibility: Visibility,
    pub type_: Rc<TypeIdentifier>,
    pub elements: Vec<AnnotationElement>,
}

#[derive(Debug, PartialEq)]
pub struct AnnotationElement {
    pub name: Rc<StringData>,
    pub value: EncodedValue,
}

#[derive(Debug, PartialEq)]
pub struct ClassDefinition {
    pub class_type: Rc<TypeIdentifier>,
    pub access_flags: Vec<AccessFlag>,
    pub superclass: Option<Rc<TypeIdentifier>>,
    pub interfaces: Option<Vec<Rc<TypeIdentifier>>>,
    pub source_file_name: Option<Rc<StringData>>,
    pub annotations: Option<Annotations>,
    pub class_data: Option<ClassData>,
    pub static_values: Option<Vec<EncodedValue>>,
}

#[derive(Debug, PartialEq)]
pub struct Annotations {
    pub class_annotations: Option<Vec<ClassAnnotation>>,
    pub field_annotations: Option<Vec<FieldAnnotation>>,
    pub method_annotations: Option<Vec<MethodAnnotation>>,
    pub parameter_annotations: Option<Vec<ParameterAnnotation>>,
}

#[derive(Debug, PartialEq, Clone)]
pub struct ClassData {
    pub static_fields: Vec<EncodedField>,
    pub instance_fields: Vec<EncodedField>,
    pub direct_methods: Vec<EncodedMethod>,
    pub virtual_methods: Vec<EncodedMethod>,
}

#[derive(Debug, PartialEq, Clone)]
pub struct EncodedField {
    pub field: Rc<Field>,
    pub access_flags: Vec<AccessFlag>,
}

#[derive(Debug, PartialEq, Clone)]
pub struct EncodedMethod {
    pub method: Rc<Method>,
    pub access_flags: Vec<AccessFlag>,
    pub code: Option<Code>,
}

#[derive(Debug, PartialEq)]
pub struct MethodAnnotation {
    pub method: Rc<Method>,
    pub annotations: Vec<AnnotationItem>,
}

#[derive(Debug, PartialEq)]
pub struct ParameterAnnotation {
    pub method: Rc<Method>,
    pub annotations: Vec<AnnotationItem>,
}

#[derive(Debug, PartialEq)]
pub struct FieldAnnotation {
    pub field_data: Rc<Field>,
    pub annotations: Vec<AnnotationItem>,
}

#[derive(Debug, PartialEq)]
pub struct AnnotationItem {
    pub visibility: Visibility,
    pub type_: Rc<TypeIdentifier>,
    pub annotations: Vec<AnnotationElement>,
}

#[allow(non_camel_case_types)]
#[derive(Debug, Clone, Copy, PartialEq, Eq, Structural)]
pub enum Visibility {
    BUILD,
    RUNTIME,
    SYSTEM,
}

/// The body of a method.
#[derive(Debug, PartialEq, Clone)]
pub struct Code {
    /// number of registers used by this code
    pub registers_size: u16,
    /// number of words of incoming arguments
    pub ins_size: u16,
    /// number of words of outgoing argument space
    pub outs_size: u16,
    pub debug_info: Option<DebugInfo>,
    pub insns: Vec<u16>,
    pub tries: Option<Vec<TryItem>>,
    pub handlers: Option<Vec<EncodedCatchHandler>>,
}

#[derive(Debug, PartialEq, Clone)]
pub struct TryItem {
    /// The first covered 16-bit code unit.
    pub start_addr: u32,
    /// The number of covered 16-bit code units.
    pub insn_count: u16,
    pub handler: EncodedCatchHandler,
}

#[derive(Debug, PartialEq, Clone)]
pub struct EncodedCatchHandler {
    pub handlers: Vec<EncodedTypeAddrPair>,
    /// present only where the stored size is not positive
    pub catch_all_addr: Option<u32>,
}

#[derive(Debug, PartialEq, Clone)]
pub struct EncodedTypeAddrPair {
    /// the type of exception to catch
    pub type_: Rc<TypeIdentifier>,
    /// bytecode address of the handler
    pub addr: u32,
}

#[derive(Debug, PartialEq, Clone)]
pub struct DebugInfo {
    pub line_start: u32,
    /// String indices of the parameter names; `0xFFFF_FFFF` where a name is absent.
    pub parameter_names: Vec<u32>,
    pub bytecode: Vec<DebugItemBytecodes>,
}

/// A constant of the encoded-value grammar. Floating-point values are kept
/// as their IEEE-754 bit patterns.
#[derive(Debug, PartialEq)]
pub enum EncodedValue {
    Byte(u8),
    Short(i16),
    Char(u16),
    Int(i32),
    Long(i64),
    /// bits of an IEEE-754 single
    Float(u32),
    /// bits of an IEEE-754 double
    Double(u64),
    MethodType(Rc<Prototype>),
    MethodHandle(Rc<Method>),
    String(Rc<StringData>),
    Type(Rc<TypeIdentifier>),
    Field(Rc<Field>),
    Method(Rc<Method>),
    Enum(Rc<Field>),
    Array(Vec<EncodedValue>),
    Annotation(EncodedAnnotationItem),
    Null,
    Boolean(bool),
}

#[derive(Debug, PartialEq)]
pub struct EncodedAnnotationItem {
    pub type_: Rc<TypeIdentifier>,
    pub values: Vec<AnnotationElement>,
}

#[allow(non_camel_case_types)]
#[derive(Debug, Clone, Copy, PartialEq, Eq, Structural)]
pub enum DebugItemBytecodes {
    DBG_END_SEQUENCE,
    DBG_ADVANCE_PC,
    DBG_ADVANCE_LINE,
    DBG_START_LOCAL,
    DBG_START_LOCAL_EXTENDED,
    DBG_END_LOCAL,
    DBG_RESTART_LOCAL,
    DBG_SET_PROLOGUE_END,
    DBG_SET_EPILOGUE_BEGIN,
    DBG_SET_FILE,
    SPECIAL_OPCODE(u8),
}

#[allow(non_camel_case_types)]
#[derive(Debug, Clone, Copy, PartialEq, Eq, Structural)]
pub enum AccessFlag {
    ACC_PUBLIC,
    ACC_PRIVATE,
    ACC_PROTECTED,
    ACC_STATIC,
    ACC_FINAL,
    ACC_SYNCHRONIZED,
    ACC_VOLATILE,
    ACC_BRIDGE,
    ACC_TRANSIENT,
    ACC_VARARGS,
    ACC_NATIVE,
    ACC_INTERFACE,
    ACC_ABSTRACT,
    ACC_STRICT,
    ACC_SYNTHETIC,
    ACC_ANNOTATION,
    ACC_ENUM,
    UNUSED,
    ACC_CONSTRUCTOR,
    ACC_DECLARED_SYNCHRONIZED,
}

/// What a set of access flags belongs to; three bits mean different things
/// on fields and on methods.
#[derive(Debug, Clone, Copy, PartialEq, Eq, Structural)]
pub enum AnnotationType {
    Class,
    Field,
    Method,
}

/// The bits of an access-flag word, in the order the flags are listed: each
/// with its mask, its flag, and the only target it applies to, if any.
pub open spec fn flag_entry(k: int) -> (u32, AccessFlag, Option<AnnotationType>) {
    if k == 0 {
        (0x1, AccessFlag::ACC_PUBLIC, None)
    } else if k == 1 {
        (0x2, AccessFlag::ACC_PRIVATE, None)
    } else if k == 2 {
        (0x4, AccessFlag::ACC_PROTECTED, None)
    } else if k == 3 {
        (0x8, AccessFlag::ACC_STATIC, None)
    } else if k == 4 {
        (0x10, AccessFlag::ACC_FINAL, None)
    } else if k == 5 {
        (0x20, AccessFlag::ACC_SYNCHRONIZED, None)
    } else if k == 6 {
        (0x40, AccessFlag::ACC_VOLATILE, Some(AnnotationType::Field))
    } else if k == 7 {
        (0x40, AccessFlag::ACC_BRIDGE, Some(AnnotationType::Method))
    } else if k == 8 {
        (0x80, AccessFlag::ACC_TRANSIENT, Some(AnnotationType::Field))
    } else if k == 9 {
        (0x80, AccessFlag::ACC_VARARGS, Some(AnnotationType::Method))
    } else if k == 10 {
        (0x100, AccessFlag::ACC_NATIVE, None)
    } else if k == 11 {
        (0x200, AccessFlag::ACC_INTERFACE, None)
    } else if k == 12 {
        (0x400, AccessFlag::ACC_ABSTRACT, None)
    } else if k == 13 {
        (0x800, AccessFlag::ACC_STRICT, None)
    } else if k == 14 {
        (0x1000, AccessFlag::ACC_SYNTHETIC, None)
    } else if k == 15 {
        (0x2000, AccessFlag::ACC_ANNOTATION, None)
    } else if k == 16 {
        (0x4000, AccessFlag::ACC_ENUM, None)
    } else if k == 17 {
        (0x8000, AccessFlag::UNUSED, None)
    } else if k == 18 {
        (0x10000, AccessFlag::ACC_CONSTRUCTOR, None)
    } else {
        (0x20000, AccessFlag::ACC_DECLARED_SYNCHRONIZED, Some(AnnotationType::Method))
    }
}

pub const FLAG_ENTRIES: usize = 20;

/// Whether entry `k` of the table is set in `v` and applies to `t`.
pub open spec fn flag_set(v: u32, t: AnnotationType, k: int) -> bool {
    let (mask, _, only) = flag_entry(k);
    v & mask != 0 && match only {
        Some(o) => o == t,
        None => true,
    }
}

/// The flags of the first `k` entries of the table that `v` sets.
pub open spec fn flags_upto(v: u32, t: AnnotationType, k: nat) -> Seq<AccessFlag>
    decreases k,
{
    if k == 0 {
        seq![]
    } else if flag_set(v, t, k - 1) {
        flags_upto(v, t, (k - 1) as nat).push(flag_entry(k - 1).1)
    } else {
        flags_upto(v, t, (k - 1) as nat)
    }
}

/// The flags that the bits of `v` stand for on a `t`, in the order of their bits.
pub open spec fn access_flags_of(v: u32, t: AnnotationType) -> Seq<AccessFlag> {
    flags_upto(v, t, FLAG_ENTRIES as nat)
}

fn flag_entry_at(k: usize) -> (r: (u32, AccessFlag, Option<AnnotationType>))
    ensures
        r == flag_entry(k as int),
{
    match k {
        0 => (0x1, AccessFlag::ACC_PUBLIC, None),
        1 => (0x2, AccessFlag::ACC_PRIVATE, None),
        2 => (0x4, AccessFlag::ACC_PROTECTED, None),
        3 => (0x8, AccessFlag::ACC_STATIC, None),
        4 => (0x10, AccessFlag::ACC_FINAL, None),
        5 => (0x20, AccessFlag::ACC_SYNCHRONIZED, None),
        6 => (0x40, AccessFlag::ACC_VOLATILE, Some(AnnotationType::Field)),
        7 => (0x40, AccessFlag::ACC_BRIDGE, Some(AnnotationType::Method)),
        8 => (0x80, AccessFlag::ACC_TRANSIENT, Some(AnnotationType::Field)),
        9 => (0x80, AccessFlag::ACC_VARARGS, Some(AnnotationType::Method)),
        10 => (0x100, AccessFlag::ACC_NATIVE, None),
        11 => (0x200, AccessFlag::ACC_INTERFACE, None),
        12 => (0x400, AccessFlag::ACC_ABSTRACT, None),
        13 => (0x800, AccessFlag::ACC_STRICT, None),
        14 => (0x1000, AccessFlag::ACC_SYNTHETIC, None),
        15 => (0x2000, AccessFlag::ACC_ANNOTATION, None),
        16 => (0x4000, AccessFlag::ACC_ENUM, None),
        17 => (0x8000, AccessFlag::UNUSED, None),
        18 => (0x10000, AccessFlag::ACC_CONSTRUCTOR, None),
        _ => (0x20000, AccessFlag::ACC_DECLARED_SYNCHRONIZED, Some(AnnotationType::Method)),
    }
}

impl AccessFlag {
    /// Decodes a set of access-flag bits for a class, a field or a method.
    pub fn parse(value: u32, type_: AnnotationType) -> (r: Vec<AccessFlag>)
        ensures
            r@ == access_flags_of(value, type_),
    {
        let mut v: Vec<AccessFlag> = Vec::new();
        let mut k: usize = 0;
        while k < FLAG_ENTRIES
            invariant
                k <= FLAG_ENTRIES,
                v@ == flags_upto(value, type_, k as nat),
            decreases FLAG_ENTRIES - k,
        {
            let (mask, flag, only) = flag_entry_at(k);
            let applies = match only {
                Some(o) => o == type_,
                None => true,
            };
            if value & mask != 0 && applies {
                v.push(flag);
            }
            k = k + 1;
        }
        v
    }
}

pub open spec fn visibility_of(value: u8) -> Option<Visibility> {
    if value == 0 {
        Some(Visibility::BUILD)
    } else if value == 1 {
        Some(Visibility::RUNTIME)
    } else if value == 2 {
        Some(Visibility::SYSTEM)
    } else {
        None
    }
}

impl Visibility {
    /// Decodes the visibility byte of an annotation.
    pub fn parse(value: u8) -> (r: Result<Visibility, DexParserError>)
        ensures
            match r {
                Ok(v) => visibility_of(value) == Some(v),
                Err(e) => visibility_of(value) is None && e.fault() == Fault::Malformed,
            },
    {
        match value {
            0x00 => Ok(Visibility::BUILD),
            0x01 => Ok(Visibility::RUNTIME),
            0x02 => Ok(Visibility::SYSTEM),
            _ => Err(DexParserError::malformed("unknown annotation visibility")),
        }
    }

    /// The name of the visibility in lower case.
    pub fn name(&self) -> String {
        match self {
            Visibility::BUILD => "build".to_string(),
            Visibility::RUNTIME => "runtime".to_string(),
            Visibility::SYSTEM => "system".to_string(),
        }
    }
}

pub open spec fn debug_opcode_of(value: u8) -> DebugItemBytecodes {
    if value == 0 {
        DebugItemBytecodes::DBG_END_SEQUENCE
    } else if value == 1 {
        DebugItemBytecodes::DBG_ADVANCE_PC
    } else if value == 2 {
        DebugItemBytecodes::DBG_ADVANCE_LINE
    } else if value == 3 {
        DebugItemBytecodes::DBG_START_LOCAL
    } else if value == 4 {
        DebugItemBytecodes::DBG_START_LOCAL_EXTENDED
    } else if value == 5 {
        DebugItemBytecodes::DBG_END_LOCAL
    } else if value == 6 {
        DebugItemBytecodes::DBG_RESTART_LOCAL
    } else if value == 7 {
        DebugItemBytecodes::DBG_SET_PROLOGUE_END
    } else if value == 8 {
        DebugItemBytecodes::DBG_SET_EPILOGUE_BEGIN
    } else if value == 9 {
        DebugItemBytecodes::DBG_SET_FILE
    } else {
        DebugItemBytecodes::SPECIAL_OPCODE(value)
    }
}

impl DebugItemBytecodes {
    /// Decodes one byte of a debug-info stream; bytes above the named
    /// opcodes are special opcodes, kept as they are.
    pub fn parse(value: u8) -> (r: DebugItemBytecodes)
        ensures
            r == debug_opcode_of(value),
    {
        match value {
            0x00 => DebugItemBytecodes::DBG_END_SEQUENCE,
            0x01 => DebugItemBytecodes::DBG_ADVANCE_PC,
            0x02 => DebugItemBytecodes::DBG_ADVANCE_LINE,
            0x03 => DebugItemBytecodes::DBG_START_LOCAL,
            0x04 => DebugItemBytecodes::DBG_START_LOCAL_EXTENDED,
            0x05 => DebugItemBytecodes::DBG_END_LOCAL,
            0x06 => DebugItemBytecodes::DBG_RESTART_LOCAL,
            0x07 => DebugItemBytecodes::DBG_SET_PROLOGUE_END,
            0x08 => DebugItemBytecodes::DBG_SET_EPILOGUE_BEGIN,
            0x09 => DebugItemBytecodes::DBG_SET_FILE,
            _ => DebugItemBytecodes::SPECIAL_OPCODE(value),
        }
    }
}

} // verus!
