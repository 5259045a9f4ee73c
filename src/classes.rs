//! Class definitions: the class, its flags, superclass, interfaces, source
//! file, annotations, members and static values, all resolved.
use crate::annotations::{annotations_check_sized, annotations_matches, transform_annotations};
use crate::encoded_value::{array_span_sized, array_matches, parse_encoded_array_item, MAX_DEPTH};
use crate::error::{
    first_fault, lemma_first_fault_all, lemma_first_fault_stays, lemma_first_fault_step,
    DexParserError, Fault,
};
use crate::items::{class_data_span, lebs_span, leb_nth, parse_class_data_item};
use crate::primitives::Endianness;
use crate::raw_types::{RawClassDefinition, RawEncodedField, RawEncodedMethod};
use crate::resolve::{
    methods_checks_sized,
    type_list_check, blob_pos, encoded_method_matches, field_index_at, locate, transform_encoded_fields,
    transform_encoded_methods, type_list_at, type_list_matches,
};
use crate::result_types::{PoolSizes, 
    access_flags_of, AccessFlag, AnnotationType, ClassData, ClassDefinition, DexFileData,
};
use vstd::prelude::*;

verus! {

/// The index value that marks an optional index as absent.
pub const NO_INDEX: u32 = 0xFFFF_FFFF;

/// The raw encoded fields of a class data item whose counts end at `p4`:
/// `n` entries from the `base`-th value on.
pub open spec fn raw_fields_at(s: Seq<u8>, p4: int, base: int, n: int) -> Seq<RawEncodedField> {
    Seq::new(
        n as nat,
        |i: int|
            RawEncodedField {
                field_idx_diff: leb_nth(s, p4, base + 2 * i) as u32,
                access_flags: leb_nth(s, p4, base + 2 * i + 1) as u32,
            },
    )
}

/// The raw encoded methods of a class data item whose counts end at `p4`.
pub open spec fn raw_methods_at(s: Seq<u8>, p4: int, base: int, n: int) -> Seq<RawEncodedMethod> {
    Seq::new(
        n as nat,
        |i: int|
            RawEncodedMethod {
                method_idx_diff: leb_nth(s, p4, base + 3 * i) as u32,
                access_flags: leb_nth(s, p4, base + 3 * i + 1) as u32,
                code_off: leb_nth(s, p4, base + 3 * i + 2) as u32,
            },
    )
}

pub open spec fn fields_match(raw: Seq<RawEncodedField>, fd: DexFileData, v: Seq<crate::result_types::EncodedField>) -> bool {
    &&& v.len() == raw.len()
    &&& forall|i: int|
        #![trigger v[i]]
        0 <= i < raw.len() ==> field_index_at(raw, i) < fd.fields@.len() && v[i].field
            == fd.fields@[field_index_at(raw, i)] && v[i].access_flags@ == access_flags_of(
            raw[i].access_flags,
            AnnotationType::Field,
        )
}

pub open spec fn methods_match(
    s: Seq<u8>,
    raw: Seq<RawEncodedMethod>,
    fd: DexFileData,
    data_off: int,
    e: Endianness,
    v: Seq<crate::result_types::EncodedMethod>,
) -> bool {
    &&& v.len() == raw.len()
    &&& forall|i: int|
        0 <= i < raw.len() ==> encoded_method_matches(s, raw, i, fd, data_off, e, #[trigger] v[i])
}

/// `c` is the class data item at blob position `q`, resolved.
pub open spec fn class_data_matches(
    s: Seq<u8>,
    q: int,
    fd: DexFileData,
    data_off: int,
    e: Endianness,
    c: ClassData,
) -> bool {
    let p4 = lebs_span(s, q, 4)->Ok_0;
    let n0 = leb_nth(s, q, 0);
    let n1 = leb_nth(s, q, 1);
    let n2 = leb_nth(s, q, 2);
    let n3 = leb_nth(s, q, 3);
    &&& fields_match(raw_fields_at(s, p4, 0, n0), fd, c.static_fields@)
    &&& fields_match(raw_fields_at(s, p4, 2 * n0, n1), fd, c.instance_fields@)
    &&& methods_match(s, raw_methods_at(s, p4, 2 * n0 + 2 * n1, n2), fd, data_off, e, c.direct_methods@)
    &&& methods_match(
        s,
        raw_methods_at(s, p4, 2 * n0 + 2 * n1 + 3 * n2, n3),
        fd,
        data_off,
        e,
        c.virtual_methods@,
    )
}

/// Whether every absolute index of a run of encoded fields names a field.
pub open spec fn field_indices_ok(raw: Seq<RawEncodedField>, fd: DexFileData) -> bool {
    field_indices_ok_sized(raw, fd.sizes())
}

/// The same, given only the sizes of the pools, which are all it depends on.
pub open spec fn field_indices_ok_sized(raw: Seq<RawEncodedField>, ps: PoolSizes) -> bool {
    forall|i: int| 0 <= i < raw.len() ==> #[trigger] field_index_at(raw, i) < (ps.fields as int)
}

/// Whether the class data item at blob position `q` can be read and its
/// members resolved.
pub open spec fn class_data_check(
    s: Seq<u8>,
    q: int,
    fd: DexFileData,
    data_off: int,
    e: Endianness,
) -> Result<(), Fault> {
    class_data_check_sized(s, q, fd.sizes(), data_off, e)
}

/// The same, given only the sizes of the pools, which are all it depends on.
pub open spec fn class_data_check_sized(
    s: Seq<u8>,
    q: int,
    ps: PoolSizes,
    data_off: int,
    e: Endianness,
) -> Result<(), Fault> {
    match class_data_span(s, q) {
        Err(f) => Err(f),
        Ok(_) => {
            let p4 = lebs_span(s, q, 4)->Ok_0;
            let n0 = leb_nth(s, q, 0);
            let n1 = leb_nth(s, q, 1);
            let n2 = leb_nth(s, q, 2);
            let n3 = leb_nth(s, q, 3);
            if !field_indices_ok_sized(raw_fields_at(s, p4, 0, n0), ps) || !field_indices_ok_sized(
                raw_fields_at(s, p4, 2 * n0, n1),
                ps,
            ) {
                Err(Fault::Malformed)
            } else {
                match first_fault(
                    methods_checks_sized(s, raw_methods_at(s, p4, 2 * n0 + 2 * n1, n2), ps, data_off, e),
                ) {
                    Err(f) => Err(f),
                    Ok(_) => first_fault(
                        methods_checks_sized(
                            s,
                            raw_methods_at(s, p4, 2 * n0 + 2 * n1 + 3 * n2, n3),
                            ps,
                            data_off,
                            e,
                        ),
                    ),
                }
            }
        },
    }
}

/// Reads the class data item at blob position `q` and resolves its fields
/// and methods, whose indices are stored as differences.
pub fn transform_class_data(
    data: &[u8],
    q: usize,
    fd: &DexFileData,
    data_off: u32,
    e: Endianness,
) -> (r: Result<ClassData, DexParserError>)
    requires
        q <= data@.len(),
    ensures
        match r {
            Ok(c) => class_data_check(data@, q as int, *fd, data_off as int, e) is Ok
                && class_data_matches(data@, q as int, *fd, data_off as int, e, c),
            Err(err) => class_data_check(data@, q as int, *fd, data_off as int, e) == Err::<
                (),
                Fault,
            >(err.fault()),
        },
{
    let raw = parse_class_data_item(data, q)?;
    let ghost p4 = lebs_span(data@, q as int, 4)->Ok_0;
    let ghost n0 = leb_nth(data@, q as int, 0);
    let ghost n1 = leb_nth(data@, q as int, 1);
    let ghost n2 = leb_nth(data@, q as int, 2);
    assert(raw.static_fields@ =~= raw_fields_at(data@, p4, 0, n0));
    assert(raw.instance_fields@ =~= raw_fields_at(data@, p4, 2 * n0, n1));
    assert(raw.direct_methods@ =~= raw_methods_at(data@, p4, 2 * n0 + 2 * n1, n2));
    assert(raw.virtual_methods@ =~= raw_methods_at(
        data@,
        p4,
        2 * n0 + 2 * n1 + 3 * n2,
        leb_nth(data@, q as int, 3),
    ));
    let static_fields = transform_encoded_fields(raw.static_fields.as_slice(), fd)?;
    let instance_fields = match transform_encoded_fields(raw.instance_fields.as_slice(), fd) {
        Ok(v) => v,
        Err(err) => {
            proof {
                assert(field_indices_ok(raw.static_fields@, *fd));
            }
            return Err(err);
        },
    };
    let direct_methods = transform_encoded_methods(data, data_off, raw.direct_methods.as_slice(), fd, e)?;
    let virtual_methods = transform_encoded_methods(data, data_off, raw.virtual_methods.as_slice(), fd, e)?;
    Ok(ClassData { static_fields, instance_fields, direct_methods, virtual_methods })
}

/// `c` is the class definition `cd`, resolved.
pub open spec fn class_matches(
    s: Seq<u8>,
    cd: RawClassDefinition,
    fd: DexFileData,
    data_off: int,
    e: Endianness,
    c: ClassDefinition,
) -> bool {
    &&& c.class_type == fd.type_identifiers@[cd.class_idx as int]
    &&& c.access_flags@ == access_flags_of(cd.access_flags, AnnotationType::Class)
    &&& (c.superclass is None <==> cd.superclass_idx == NO_INDEX)
    &&& (c.superclass is Some ==> c.superclass->Some_0 == fd.type_identifiers@[cd.superclass_idx as int])
    &&& (c.interfaces is None <==> cd.interfaces_off == 0)
    &&& (c.interfaces is Some ==> type_list_matches(
        s,
        cd.interfaces_off - data_off,
        fd.type_identifiers@,
        e,
        c.interfaces->Some_0@,
    ))
    &&& (c.source_file_name is None <==> cd.source_file_idx == NO_INDEX)
    &&& (c.source_file_name is Some ==> c.source_file_name->Some_0 == fd.string_data@[cd.source_file_idx as int])
    &&& (c.annotations is None <==> cd.annotations_off == 0)
    &&& (c.annotations is Some ==> annotations_matches(
        s,
        cd.annotations_off as int,
        data_off,
        fd,
        e,
        c.annotations->Some_0,
    ))
    &&& (c.class_data is None <==> cd.class_data_off == 0)
    &&& (c.class_data is Some ==> class_data_matches(
        s,
        cd.class_data_off - data_off,
        fd,
        data_off,
        e,
        c.class_data->Some_0,
    ))
    &&& (c.static_values is None <==> cd.static_values_off == 0)
    &&& (c.static_values is Some ==> array_matches(
        s,
        cd.static_values_off - data_off,
        fd,
        MAX_DEPTH as nat,
        c.static_values->Some_0@,
    ))
}

/// Whether the class definition `cd` can be resolved.
pub open spec fn class_check(
    s: Seq<u8>,
    cd: RawClassDefinition,
    fd: DexFileData,
    data_off: int,
    e: Endianness,
) -> Result<(), Fault> {
    class_check_sized(s, cd, fd.sizes(), data_off, e)
}

/// The same, given only the sizes of the pools, which are all it depends on.
pub open spec fn class_check_sized(
    s: Seq<u8>,
    cd: RawClassDefinition,
    ps: PoolSizes,
    data_off: int,
    e: Endianness,
) -> Result<(), Fault> {
    if class_index_fault_sized(cd, ps) {
        Err(Fault::Malformed)
    } else {
        match (if cd.interfaces_off == 0 {
            Ok(())
        } else {
            match blob_pos(cd.interfaces_off as int, data_off, s.len() as int) {
                Err(f) => Err(f),
                Ok(q) => type_list_check(s, q, (ps.types as int), e),
            }
        }) {
            Err(f) => Err(f),
            Ok(_) => match (if cd.annotations_off == 0 {
                Ok(())
            } else {
                annotations_check_sized(s, cd.annotations_off as int, data_off, ps, e)
            }) {
                Err(f) => Err(f),
                Ok(_) => match (if cd.class_data_off == 0 {
                    Ok(())
                } else {
                    match blob_pos(cd.class_data_off as int, data_off, s.len() as int) {
                        Err(f) => Err(f),
                        Ok(q) => class_data_check_sized(s, q, ps, data_off, e),
                    }
                }) {
                    Err(f) => Err(f),
                    Ok(_) => if cd.static_values_off == 0 {
                        Ok(())
                    } else {
                        match blob_pos(cd.static_values_off as int, data_off, s.len() as int) {
                            Err(f) => Err(f),
                            Ok(q) => match array_span_sized(s, q, ps, MAX_DEPTH as nat) {
                                Err(f) => Err(f),
                                Ok(_) => Ok(()),
                            },
                        }
                    },
                },
            },
        }
    }
}

pub open spec fn class_checks(
    s: Seq<u8>,
    cds: Seq<RawClassDefinition>,
    fd: DexFileData,
    data_off: int,
    e: Endianness,
) -> Seq<Result<(), Fault>> {
    class_checks_sized(s, cds, fd.sizes(), data_off, e)
}

/// The same, given only the sizes of the pools, which are all it depends on.
pub open spec fn class_checks_sized(
    s: Seq<u8>,
    cds: Seq<RawClassDefinition>,
    ps: PoolSizes,
    data_off: int,
    e: Endianness,
) -> Seq<Result<(), Fault>> {
    Seq::new(cds.len(), |i: int| class_check_sized(s, cds[i], ps, data_off, e))
}

/// An index of a class definition that names nothing: the class type, or a
/// superclass or source file that is not marked absent.
pub open spec fn class_index_fault(cd: RawClassDefinition, fd: DexFileData) -> bool {
    class_index_fault_sized(cd, fd.sizes())
}

/// The same, given only the sizes of the pools, which are all it depends on.
pub open spec fn class_index_fault_sized(cd: RawClassDefinition, ps: PoolSizes) -> bool {
    ||| cd.class_idx >= ps.types
    ||| (cd.superclass_idx != NO_INDEX && cd.superclass_idx >= ps.types)
    ||| (cd.source_file_idx != NO_INDEX && cd.source_file_idx >= ps.strings)
}

/// Resolves one class definition.
pub fn transform_class_def(
    data: &[u8],
    cd: &RawClassDefinition,
    fd: &DexFileData,
    data_off: u32,
    e: Endianness,
) -> (r: Result<ClassDefinition, DexParserError>)
    ensures
        match r {
            Ok(c) => class_check(data@, *cd, *fd, data_off as int, e) is Ok && class_matches(
                data@,
                *cd,
                *fd,
                data_off as int,
                e,
                c,
            ),
            Err(err) => class_check(data@, *cd, *fd, data_off as int, e) == Err::<(), Fault>(
                err.fault(),
            ),
        },
{
    let ti = &fd.type_identifiers;
    if cd.class_idx as usize >= ti.len() {
        return Err(DexParserError::malformed("class type index out of range"));
    }
    if cd.superclass_idx != NO_INDEX && cd.superclass_idx as usize >= ti.len() {
        return Err(DexParserError::malformed("superclass index out of range"));
    }
    if cd.source_file_idx != NO_INDEX && cd.source_file_idx as usize >= fd.string_data.len() {
        return Err(DexParserError::malformed("source file index out of range"));
    }
    let class_type = ti[cd.class_idx as usize].clone();
    let access_flags = AccessFlag::parse(cd.access_flags, AnnotationType::Class);
    let superclass = if cd.superclass_idx == NO_INDEX {
        None
    } else {
        Some(ti[cd.superclass_idx as usize].clone())
    };
    let source_file_name = if cd.source_file_idx == NO_INDEX {
        None
    } else {
        Some(fd.string_data[cd.source_file_idx as usize].clone())
    };
    let interfaces = if cd.interfaces_off == 0 {
        None
    } else {
        Some(type_list_at(data, cd.interfaces_off, data_off, ti, e)?)
    };
    let annotations = if cd.annotations_off == 0 {
        None
    } else {
        Some(transform_annotations(data, cd.annotations_off, data_off, fd, e)?)
    };
    let class_data = if cd.class_data_off == 0 {
        None
    } else {
        let q = locate(cd.class_data_off, data_off, data.len())?;
        Some(transform_class_data(data, q, fd, data_off, e)?)
    };
    let static_values = if cd.static_values_off == 0 {
        None
    } else {
        let q = locate(cd.static_values_off, data_off, data.len())?;
        let (values, _) = parse_encoded_array_item(data, q, fd)?;
        Some(values)
    };
    Ok(
        ClassDefinition {
            class_type,
            access_flags,
            superclass,
            interfaces,
            source_file_name,
            annotations,
            class_data,
            static_values,
        },
    )
}

/// Resolves the class definitions in order.
pub fn transform_class_defs(
    data: &[u8],
    data_off: u32,
    cdis: &[RawClassDefinition],
    fd: &DexFileData,
    e: Endianness,
) -> (r: Result<Vec<ClassDefinition>, DexParserError>)
    ensures
        match r {
            Ok(v) => first_fault(class_checks(data@, cdis@, *fd, data_off as int, e)) is Ok
                && v@.len() == cdis@.len() && forall|i: int|
                0 <= i < cdis@.len() ==> class_matches(
                    data@,
                    cdis@[i],
                    *fd,
                    data_off as int,
                    e,
                    #[trigger] v@[i],
                ),
            Err(err) => first_fault(class_checks(data@, cdis@, *fd, data_off as int, e)) == Err::<
                (),
                Fault,
            >(err.fault()),
        },
{
    let ghost checks = class_checks(data@, cdis@, *fd, data_off as int, e);
    let mut v: Vec<ClassDefinition> = Vec::new();
    let mut i: usize = 0;
    while i < cdis.len()
        invariant
            checks == class_checks(data@, cdis@, *fd, data_off as int, e),
            i <= cdis@.len(),
            first_fault(checks.take(i as int)) is Ok,
            v@.len() == i,
            forall|j: int|
                0 <= j < i ==> class_matches(
                    data@,
                    cdis@[j],
                    *fd,
                    data_off as int,
                    e,
                    #[trigger] v@[j],
                ),
        decreases cdis@.len() - i,
    {
        proof {
            lemma_first_fault_step(checks, i as int);
        }
        match transform_class_def(data, &cdis[i], fd, data_off, e) {
            Ok(c) => {
                v.push(c);
            },
            Err(err) => {
                proof {
                    lemma_first_fault_stays(checks, i + 1);
                }
                return Err(err);
            },
        }
        i = i + 1;
    }
    proof {
        lemma_first_fault_all(checks, i as int);
    }
    Ok(v)
}

} // verus!
