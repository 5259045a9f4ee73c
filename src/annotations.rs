//! Annotations: annotation items, the sets that list them, and the
//! directory that gives a class's annotations on itself, its fields, its
//! methods and their parameters.
use crate::encoded_value::{annotation_span_sized, annotation_matches, parse_encoded_annotation_item, MAX_DEPTH};
use crate::error::{
    first_fault, lemma_first_fault_all, lemma_first_fault_stays, lemma_first_fault_step,
    DexParserError, Fault,
};
use crate::primitives::{u32_at, Endianness};
use crate::raw::{
    counted_span, directory_span, parse_annotation_set_item, parse_annotation_set_ref_list,
    parse_annotations_directory_item,
};
use crate::raw_types::{RawFieldAnnotation, RawMethodAnnotation, RawParameterAnnotation};
use crate::resolve::{blob_pos, locate};
use crate::result_types::{PoolSizes, 
    visibility_of, AnnotationItem, Annotations, ClassAnnotation, DexFileData,
    EncodedAnnotationItem, FieldAnnotation, MethodAnnotation, ParameterAnnotation, Visibility,
};
use vstd::prelude::*;

verus! {

/// Whether the annotation item at file offset `o` can be read: a known
/// visibility byte, then an encoded annotation.
pub open spec fn annotation_item_check(s: Seq<u8>, o: int, data_off: int, fd: DexFileData) -> Result<
    (),
    Fault,
> {
    annotation_item_check_sized(s, o, data_off, fd.sizes())
}

/// The same, given only the sizes of the pools, which are all it depends on.
#[verifier::opaque]
pub open spec fn annotation_item_check_sized(s: Seq<u8>, o: int, data_off: int, ps: PoolSizes) -> Result<
    (),
    Fault,
> {
    match blob_pos(o, data_off, s.len() as int) {
        Err(f) => Err(f),
        Ok(q) => if visibility_of(s[q]) is None {
            Err(Fault::Malformed)
        } else {
            match annotation_span_sized(s, q + 1, ps, MAX_DEPTH as nat) {
                Err(f) => Err(f),
                Ok(_) => Ok(()),
            }
        },
    }
}

/// `a` is the annotation item at blob position `q`, resolved in `fd`.
#[verifier::opaque]
pub open spec fn annotation_item_matches(s: Seq<u8>, q: int, fd: DexFileData, a: AnnotationItem) -> bool {
    &&& visibility_of(s[q]) == Some(a.visibility)
    &&& annotation_matches(
        s,
        q + 1,
        fd,
        MAX_DEPTH as nat,
        EncodedAnnotationItem { type_: a.type_, values: a.annotations },
    )
}

/// Reads and resolves the annotation item at file offset `o`.
pub fn transform_annotation_item(data: &[u8], o: u32, data_off: u32, fd: &DexFileData) -> (r: Result<
    AnnotationItem,
    DexParserError,
>)
    ensures
        match r {
            Ok(a) => annotation_item_check(data@, o as int, data_off as int, *fd) is Ok
                && annotation_item_matches(data@, o - data_off, *fd, a),
            Err(e) => annotation_item_check(data@, o as int, data_off as int, *fd) == Err::<
                (),
                Fault,
            >(e.fault()),
        },
{
    proof {
        reveal(annotation_item_check_sized);
    }
    let q = locate(o, data_off, data.len())?;
    let visibility = Visibility::parse(data[q])?;
    let (ea, _) = parse_encoded_annotation_item(data, q + 1, fd)?;
    let a = AnnotationItem { visibility, type_: ea.type_, annotations: ea.values };
    proof {
        reveal(annotation_item_matches);
        assert(EncodedAnnotationItem { type_: a.type_, values: a.annotations } == ea);
    }
    Ok(a)
}

pub open spec fn set_checks(s: Seq<u8>, q: int, data_off: int, fd: DexFileData, e: Endianness) -> Seq<
    Result<(), Fault>,
> {
    set_checks_sized(s, q, data_off, fd.sizes(), e)
}

/// The same, given only the sizes of the pools, which are all it depends on.
pub open spec fn set_checks_sized(s: Seq<u8>, q: int, data_off: int, ps: PoolSizes, e: Endianness) -> Seq<
    Result<(), Fault>,
> {
    Seq::new(
        u32_at(s, q, e) as nat,
        |i: int| annotation_item_check_sized(s, u32_at(s, q + 4 + 4 * i, e), data_off, ps),
    )
}

/// Whether the annotation set at file offset `o` and every item it lists
/// can be read.
pub open spec fn annotation_set_check(
    s: Seq<u8>,
    o: int,
    data_off: int,
    fd: DexFileData,
    e: Endianness,
) -> Result<(), Fault> {
    annotation_set_check_sized(s, o, data_off, fd.sizes(), e)
}

/// The same, given only the sizes of the pools, which are all it depends on.
pub open spec fn annotation_set_check_sized(
    s: Seq<u8>,
    o: int,
    data_off: int,
    ps: PoolSizes,
    e: Endianness,
) -> Result<(), Fault> {
    match blob_pos(o, data_off, s.len() as int) {
        Err(f) => Err(f),
        Ok(q) => match counted_span(s, q, 4, e) {
            Err(f) => Err(f),
            Ok(_) => first_fault(set_checks_sized(s, q, data_off, ps, e)),
        },
    }
}

/// `v` are the annotation items of the set at file offset `o`, in order.
pub open spec fn annotation_set_matches(
    s: Seq<u8>,
    o: int,
    data_off: int,
    fd: DexFileData,
    e: Endianness,
    v: Seq<AnnotationItem>,
) -> bool {
    let q = o - data_off;
    &&& v.len() == u32_at(s, q, e)
    &&& forall|i: int|
        0 <= i < v.len() ==> annotation_item_matches(
            s,
            u32_at(s, q + 4 + 4 * i, e) - data_off,
            fd,
            #[trigger] v[i],
        )
}

/// Reads the annotation set at file offset `off` and the items it lists.
pub fn parse_annotations(data: &[u8], fd: &DexFileData, off: u32, data_off: u32, e: Endianness) -> (r:
    Result<Vec<AnnotationItem>, DexParserError>)
    ensures
        match r {
            Ok(v) => annotation_set_check(data@, off as int, data_off as int, *fd, e) is Ok
                && annotation_set_matches(data@, off as int, data_off as int, *fd, e, v@),
            Err(err) => annotation_set_check(data@, off as int, data_off as int, *fd, e) == Err::<
                (),
                Fault,
            >(err.fault()),
        },
{
    let q = locate(off, data_off, data.len())?;
    let set = parse_annotation_set_item(data, q, e)?;
    let ghost checks = set_checks(data@, q as int, data_off as int, *fd, e);
    let mut v: Vec<AnnotationItem> = Vec::new();
    let mut i: usize = 0;
    assert(annotation_set_check(data@, off as int, data_off as int, *fd, e) == first_fault(checks));
    while i < set.entries.len()
        invariant
            checks == set_checks(data@, q as int, data_off as int, *fd, e),
            annotation_set_check(data@, off as int, data_off as int, *fd, e) == first_fault(checks),
            q == off - data_off,
            set.entries@.len() == u32_at(data@, q as int, e),
            forall|j: int|
                0 <= j < set.entries@.len() ==> #[trigger] set.entries@[j] == u32_at(
                    data@,
                    q + 4 + 4 * j,
                    e,
                ),
            i <= set.entries@.len(),
            first_fault(checks.take(i as int)) is Ok,
            v@.len() == i,
            forall|j: int|
                0 <= j < i ==> annotation_item_matches(
                    data@,
                    u32_at(data@, q + 4 + 4 * j, e) - data_off,
                    *fd,
                    #[trigger] v@[j],
                ),
        decreases set.entries@.len() - i,
    {
        proof {
            lemma_first_fault_step(checks, i as int);
        }
        let ghost entry = set.entries@[i as int];
        match transform_annotation_item(data, set.entries[i], data_off, fd) {
            Ok(a) => {
                v.push(a);
            },
            Err(err) => {
                proof {
                    lemma_first_fault_stays(checks, i + 1);
                }
                return Err(err);
            },
        }
        i = i + 1;
    }
    proof {
        lemma_first_fault_all(checks, i as int);
    }
    Ok(v)
}

pub open spec fn field_annotation_check(
    s: Seq<u8>,
    r: RawFieldAnnotation,
    fd: DexFileData,
    data_off: int,
    e: Endianness,
) -> Result<(), Fault> {
    field_annotation_check_sized(s, r, fd.sizes(), data_off, e)
}

/// The same, given only the sizes of the pools, which are all it depends on.
pub open spec fn field_annotation_check_sized(
    s: Seq<u8>,
    r: RawFieldAnnotation,
    ps: PoolSizes,
    data_off: int,
    e: Endianness,
) -> Result<(), Fault> {
    if r.field_idx >= (ps.fields as int) {
        Err(Fault::Malformed)
    } else {
        annotation_set_check_sized(s, r.annotations_offset as int, data_off, ps, e)
    }
}

pub open spec fn field_annotation_checks(
    s: Seq<u8>,
    rs: Seq<RawFieldAnnotation>,
    fd: DexFileData,
    data_off: int,
    e: Endianness,
) -> Seq<Result<(), Fault>> {
    field_annotation_checks_sized(s, rs, fd.sizes(), data_off, e)
}

/// The same, given only the sizes of the pools, which are all it depends on.
pub open spec fn field_annotation_checks_sized(
    s: Seq<u8>,
    rs: Seq<RawFieldAnnotation>,
    ps: PoolSizes,
    data_off: int,
    e: Endianness,
) -> Seq<Result<(), Fault>> {
    Seq::new(rs.len(), |i: int| field_annotation_check_sized(s, rs[i], ps, data_off, e))
}

/// Resolves field annotation records: the field each names, and the
/// annotation set at its offset.
pub fn transform_field_annotations(
    data: &[u8],
    rs: &[RawFieldAnnotation],
    fd: &DexFileData,
    data_off: u32,
    e: Endianness,
) -> (r: Result<Vec<FieldAnnotation>, DexParserError>)
    ensures
        match r {
            Ok(v) => first_fault(field_annotation_checks(data@, rs@, *fd, data_off as int, e)) is Ok
                && v@.len() == rs@.len() && forall|i: int|
                #![trigger v@[i]]
                0 <= i < rs@.len() ==> v@[i].field_data == fd.fields@[rs@[i].field_idx as int]
                    && annotation_set_matches(
                    data@,
                    rs@[i].annotations_offset as int,
                    data_off as int,
                    *fd,
                    e,
                    v@[i].annotations@,
                ),
            Err(err) => first_fault(field_annotation_checks(data@, rs@, *fd, data_off as int, e))
                == Err::<(), Fault>(err.fault()),
        },
{
    let ghost checks = field_annotation_checks(data@, rs@, *fd, data_off as int, e);
    let mut v: Vec<FieldAnnotation> = Vec::new();
    let mut i: usize = 0;
    while i < rs.len()
        invariant
            checks == field_annotation_checks(data@, rs@, *fd, data_off as int, e),
            i <= rs@.len(),
            first_fault(checks.take(i as int)) is Ok,
            v@.len() == i,
            forall|j: int|
                #![trigger v@[j]]
                0 <= j < i ==> v@[j].field_data == fd.fields@[rs@[j].field_idx as int]
                    && annotation_set_matches(
                    data@,
                    rs@[j].annotations_offset as int,
                    data_off as int,
                    *fd,
                    e,
                    v@[j].annotations@,
                ),
        decreases rs@.len() - i,
    {
        proof {
            lemma_first_fault_step(checks, i as int);
        }
        let ra = rs[i];
        if ra.field_idx as usize >= fd.fields.len() {
            proof {
                lemma_first_fault_stays(checks, i + 1);
            }
            return Err(DexParserError::malformed("field index out of range"));
        }
        match parse_annotations(data, fd, ra.annotations_offset, data_off, e) {
            Ok(annotations) => {
                v.push(FieldAnnotation { field_data: fd.fields[ra.field_idx as usize].clone(), annotations });
            },
            Err(err) => {
                proof {
                    lemma_first_fault_stays(checks, i + 1);
                }
                return Err(err);
            },
        }
        i = i + 1;
    }
    proof {
        lemma_first_fault_all(checks, i as int);
    }
    Ok(v)
}

pub open spec fn method_annotation_check(
    s: Seq<u8>,
    r: RawMethodAnnotation,
    fd: DexFileData,
    data_off: int,
    e: Endianness,
) -> Result<(), Fault> {
    method_annotation_check_sized(s, r, fd.sizes(), data_off, e)
}

/// The same, given only the sizes of the pools, which are all it depends on.
pub open spec fn method_annotation_check_sized(
    s: Seq<u8>,
    r: RawMethodAnnotation,
    ps: PoolSizes,
    data_off: int,
    e: Endianness,
) -> Result<(), Fault> {
    if r.method_idx >= (ps.methods as int) {
        Err(Fault::Malformed)
    } else {
        annotation_set_check_sized(s, r.annotations_offset as int, data_off, ps, e)
    }
}

pub open spec fn method_annotation_checks(
    s: Seq<u8>,
    rs: Seq<RawMethodAnnotation>,
    fd: DexFileData,
    data_off: int,
    e: Endianness,
) -> Seq<Result<(), Fault>> {
    method_annotation_checks_sized(s, rs, fd.sizes(), data_off, e)
}

/// The same, given only the sizes of the pools, which are all it depends on.
pub open spec fn method_annotation_checks_sized(
    s: Seq<u8>,
    rs: Seq<RawMethodAnnotation>,
    ps: PoolSizes,
    data_off: int,
    e: Endianness,
) -> Seq<Result<(), Fault>> {
    Seq::new(rs.len(), |i: int| method_annotation_check_sized(s, rs[i], ps, data_off, e))
}

/// Resolves method annotation records: the method each names, and the
/// annotation set at its offset.
pub fn transform_method_annotations(
    data: &[u8],
    rs: &[RawMethodAnnotation],
    fd: &DexFileData,
    data_off: u32,
    e: Endianness,
) -> (r: Result<Vec<MethodAnnotation>, DexParserError>)
    ensures
        match r {
            Ok(v) => first_fault(method_annotation_checks(data@, rs@, *fd, data_off as int, e)) is Ok
                && v@.len() == rs@.len() && forall|i: int|
                #![trigger v@[i]]
                0 <= i < rs@.len() ==> v@[i].method == fd.methods@[rs@[i].method_idx as int]
                    && annotation_set_matches(
                    data@,
                    rs@[i].annotations_offset as int,
                    data_off as int,
                    *fd,
                    e,
                    v@[i].annotations@,
                ),
            Err(err) => first_fault(method_annotation_checks(data@, rs@, *fd, data_off as int, e))
                == Err::<(), Fault>(err.fault()),
        },
{
    let ghost checks = method_annotation_checks(data@, rs@, *fd, data_off as int, e);
    let mut v: Vec<MethodAnnotation> = Vec::new();
    let mut i: usize = 0;
    while i < rs.len()
        invariant
            checks == method_annotation_checks(data@, rs@, *fd, data_off as int, e),
            i <= rs@.len(),
            first_fault(checks.take(i as int)) is Ok,
            v@.len() == i,
            forall|j: int|
                #![trigger v@[j]]
                0 <= j < i ==> v@[j].method == fd.methods@[rs@[j].method_idx as int]
                    && annotation_set_matches(
                    data@,
                    rs@[j].annotations_offset as int,
                    data_off as int,
                    *fd,
                    e,
                    v@[j].annotations@,
                ),
        decreases rs@.len() - i,
    {
        proof {
            lemma_first_fault_step(checks, i as int);
        }
        let ra = rs[i];
        if ra.method_idx as usize >= fd.methods.len() {
            proof {
                lemma_first_fault_stays(checks, i + 1);
            }
            return Err(DexParserError::malformed("method index out of range"));
        }
        match parse_annotations(data, fd, ra.annotations_offset, data_off, e) {
            Ok(annotations) => {
                v.push(MethodAnnotation { method: fd.methods[ra.method_idx as usize].clone(), annotations });
            },
            Err(err) => {
                proof {
                    lemma_first_fault_stays(checks, i + 1);
                }
                return Err(err);
            },
        }
        i = i + 1;
    }
    proof {
        lemma_first_fault_all(checks, i as int);
    }
    Ok(v)
}

/// For the reference list at blob position `q` and method index `m`: a
/// (method, set offset) pair for each of its first `k` entries that is not
/// zero, in order.
pub open spec fn present_pairs(s: Seq<u8>, q: int, k: nat, m: u32, e: Endianness) -> Seq<(u32, u32)>
    decreases k,
{
    if k == 0 {
        seq![]
    } else {
        let rest = present_pairs(s, q, (k - 1) as nat, m, e);
        let so = u32_at(s, q + 4 + 4 * (k - 1), e);
        if so == 0 {
            rest
        } else {
            rest.push((m, so as u32))
        }
    }
}

/// The (method, set offset) pairs of the first `n` parameter annotation
/// records, in order.
pub open spec fn parameter_sets(
    s: Seq<u8>,
    rs: Seq<RawParameterAnnotation>,
    n: nat,
    data_off: int,
    e: Endianness,
) -> Seq<(u32, u32)>
    decreases n,
{
    if n == 0 {
        seq![]
    } else {
        let r = rs[n - 1];
        let q = r.annotations_offset - data_off;
        parameter_sets(s, rs, (n - 1) as nat, data_off, e) + present_pairs(
            s,
            q,
            u32_at(s, q, e) as nat,
            r.method_idx,
            e,
        )
    }
}

pub open spec fn ref_checks(s: Seq<u8>, q: int, data_off: int, fd: DexFileData, e: Endianness) -> Seq<
    Result<(), Fault>,
> {
    ref_checks_sized(s, q, data_off, fd.sizes(), e)
}

/// The same, given only the sizes of the pools, which are all it depends on.
pub open spec fn ref_checks_sized(s: Seq<u8>, q: int, data_off: int, ps: PoolSizes, e: Endianness) -> Seq<
    Result<(), Fault>,
> {
    Seq::new(
        u32_at(s, q, e) as nat,
        |k: int|
            {
                let so = u32_at(s, q + 4 + 4 * k, e);
                if so == 0 {
                    Ok(())
                } else {
                    annotation_set_check_sized(s, so, data_off, ps, e)
                }
            },
    )
}

/// Whether a parameter annotation record can be resolved: its method
/// exists, and its reference list and every set it names can be read.
pub open spec fn parameter_annotation_check(
    s: Seq<u8>,
    r: RawParameterAnnotation,
    fd: DexFileData,
    data_off: int,
    e: Endianness,
) -> Result<(), Fault> {
    parameter_annotation_check_sized(s, r, fd.sizes(), data_off, e)
}

/// The same, given only the sizes of the pools, which are all it depends on.
pub open spec fn parameter_annotation_check_sized(
    s: Seq<u8>,
    r: RawParameterAnnotation,
    ps: PoolSizes,
    data_off: int,
    e: Endianness,
) -> Result<(), Fault> {
    if r.method_idx >= (ps.methods as int) {
        Err(Fault::Malformed)
    } else {
        match blob_pos(r.annotations_offset as int, data_off, s.len() as int) {
            Err(f) => Err(f),
            Ok(q) => match counted_span(s, q, 4, e) {
                Err(f) => Err(f),
                Ok(_) => first_fault(ref_checks_sized(s, q, data_off, ps, e)),
            },
        }
    }
}

pub open spec fn parameter_annotation_checks(
    s: Seq<u8>,
    rs: Seq<RawParameterAnnotation>,
    fd: DexFileData,
    data_off: int,
    e: Endianness,
) -> Seq<Result<(), Fault>> {
    parameter_annotation_checks_sized(s, rs, fd.sizes(), data_off, e)
}

/// The same, given only the sizes of the pools, which are all it depends on.
pub open spec fn parameter_annotation_checks_sized(
    s: Seq<u8>,
    rs: Seq<RawParameterAnnotation>,
    ps: PoolSizes,
    data_off: int,
    e: Endianness,
) -> Seq<Result<(), Fault>> {
    Seq::new(rs.len(), |i: int| parameter_annotation_check_sized(s, rs[i], ps, data_off, e))
}

/// `v` are the parameter annotations for the (method, set offset) pairs `ps`.
pub open spec fn parameter_annotations_match(
    s: Seq<u8>,
    ps: Seq<(u32, u32)>,
    fd: DexFileData,
    data_off: int,
    e: Endianness,
    v: Seq<ParameterAnnotation>,
) -> bool {
    &&& v.len() == ps.len()
    &&& forall|j: int|
        #![trigger v[j]]
        0 <= j < v.len() ==> v[j].method == fd.methods@[ps[j].0 as int] && annotation_set_matches(
            s,
            ps[j].1 as int,
            data_off,
            fd,
            e,
            v[j].annotations@,
        )
}

/// Resolves parameter annotation records: for each, the annotation set
/// reference list at its offset; every set that is present (a non-zero
/// offset) gives one entry for the method, in order.
pub fn transform_parameter_annotations(
    data: &[u8],
    rs: &[RawParameterAnnotation],
    fd: &DexFileData,
    data_off: u32,
    e: Endianness,
) -> (r: Result<Vec<ParameterAnnotation>, DexParserError>)
    ensures
        match r {
            Ok(v) => first_fault(
                parameter_annotation_checks(data@, rs@, *fd, data_off as int, e),
            ) is Ok && parameter_annotations_match(
                data@,
                parameter_sets(data@, rs@, rs@.len(), data_off as int, e),
                *fd,
                data_off as int,
                e,
                v@,
            ),
            Err(err) => first_fault(
                parameter_annotation_checks(data@, rs@, *fd, data_off as int, e),
            ) == Err::<(), Fault>(err.fault()),
        },
{
    let ghost checks = parameter_annotation_checks(data@, rs@, *fd, data_off as int, e);
    let mut v: Vec<ParameterAnnotation> = Vec::new();
    let mut i: usize = 0;
    while i < rs.len()
        invariant
            checks == parameter_annotation_checks(data@, rs@, *fd, data_off as int, e),
            i <= rs@.len(),
            first_fault(checks.take(i as int)) is Ok,
            parameter_annotations_match(
                data@,
                parameter_sets(data@, rs@, i as nat, data_off as int, e),
                *fd,
                data_off as int,
                e,
                v@,
            ),
        decreases rs@.len() - i,
    {
        proof {
            lemma_first_fault_step(checks, i as int);
        }
        let ra = rs[i];
        if ra.method_idx as usize >= fd.methods.len() {
            proof {
                lemma_first_fault_stays(checks, i + 1);
            }
            return Err(DexParserError::malformed("method index out of range"));
        }
        let q = match locate(ra.annotations_offset, data_off, data.len()) {
            Ok(q) => q,
            Err(err) => {
                proof {
                    lemma_first_fault_stays(checks, i + 1);
                }
                return Err(err);
            },
        };
        let refs = match parse_annotation_set_ref_list(data, q, e) {
            Ok(r) => r,
            Err(err) => {
                proof {
                    lemma_first_fault_stays(checks, i + 1);
                }
                return Err(err);
            },
        };
        let ghost before = parameter_sets(data@, rs@, i as nat, data_off as int, e);
        let ghost rchecks = ref_checks(data@, q as int, data_off as int, *fd, e);
        let mut k: usize = 0;
        while k < refs.entries.len()
            invariant
                checks == parameter_annotation_checks(data@, rs@, *fd, data_off as int, e),
                i < rs@.len(),
                ra == rs@[i as int],
                ra.method_idx < fd.methods@.len(),
                q == ra.annotations_offset - data_off,
                counted_span(data@, q as int, 4, e) is Ok,
                checks[i as int] == first_fault(rchecks),
                rchecks == ref_checks(data@, q as int, data_off as int, *fd, e),
                refs.entries@.len() == u32_at(data@, q as int, e),
                forall|j: int|
                    0 <= j < refs.entries@.len() ==> #[trigger] refs.entries@[j] == u32_at(
                        data@,
                        q + 4 + 4 * j,
                        e,
                    ),
                k <= refs.entries@.len(),
                first_fault(checks.take(i as int)) is Ok,
                first_fault(rchecks.take(k as int)) is Ok,
                before == parameter_sets(data@, rs@, i as nat, data_off as int, e),
                parameter_annotations_match(
                    data@,
                    before + present_pairs(data@, q as int, k as nat, ra.method_idx, e),
                    *fd,
                    data_off as int,
                    e,
                    v@,
                ),
            decreases refs.entries@.len() - k,
        {
            proof {
                lemma_first_fault_step(rchecks, k as int);
            }
            let set_off = refs.entries[k];
            let ghost old_pairs = before + present_pairs(data@, q as int, k as nat, ra.method_idx, e);
            if set_off != 0 {
                let annotations = match parse_annotations(data, fd, set_off, data_off, e) {
                    Ok(a) => a,
                    Err(err) => {
                        proof {
                            assert(rchecks[k as int] == annotation_set_check(
                                data@,
                                set_off as int,
                                data_off as int,
                                *fd,
                                e,
                            ));
                            lemma_first_fault_stays(rchecks, k + 1);
                            lemma_first_fault_step(checks, i as int);
                            lemma_first_fault_stays(checks, i + 1);
                        }
                        return Err(err);
                    },
                };
                v.push(
                    ParameterAnnotation {
                        method: fd.methods[ra.method_idx as usize].clone(),
                        annotations,
                    },
                );
                proof {
                    assert(before + present_pairs(data@, q as int, (k + 1) as nat, ra.method_idx, e)
                        =~= old_pairs.push((ra.method_idx, set_off)));
                }
            } else {
                proof {
                    assert(before + present_pairs(data@, q as int, (k + 1) as nat, ra.method_idx, e)
                        =~= old_pairs);
                }
            }
            k = k + 1;
        }
        proof {
            lemma_first_fault_all(rchecks, k as int);
            assert(first_fault(checks.take(i + 1)) is Ok);
        }
        i = i + 1;
    }
    proof {
        lemma_first_fault_all(checks, i as int);
    }
    Ok(v)
}

/// The class annotations for the annotation items of a set, in order.
fn to_class_annotations(items: Vec<AnnotationItem>) -> (r: Vec<ClassAnnotation>)
    ensures
        r@.len() == items@.len(),
        forall|i: int|
            #![trigger r@[i]]
            0 <= i < items@.len() ==> r@[i].visibility == items@[i].visibility && r@[i].type_
                == items@[i].type_ && r@[i].elements == items@[i].annotations,
{
    let ghost orig = items@;
    let mut rest = items;
    let mut r: Vec<ClassAnnotation> = Vec::new();
    while rest.len() > 0
        invariant
            r@.len() + rest@.len() == orig.len(),
            rest@ == orig.subrange(r@.len() as int, orig.len() as int),
            forall|i: int|
                #![trigger r@[i]]
                0 <= i < r@.len() ==> r@[i].visibility == orig[i].visibility && r@[i].type_
                    == orig[i].type_ && r@[i].elements == orig[i].annotations,
        decreases rest@.len(),
    {
        let it = rest.remove(0);
        assert(it == orig[r@.len() as int]);
        r.push(ClassAnnotation { visibility: it.visibility, type_: it.type_, elements: it.annotations });
        assert(rest@ =~= orig.subrange(r@.len() as int, orig.len() as int));
    }
    r
}

pub open spec fn raw_field_annotations_at(s: Seq<u8>, p: int, n: int, e: Endianness) -> Seq<
    RawFieldAnnotation,
> {
    Seq::new(
        n as nat,
        |i: int|
            RawFieldAnnotation {
                field_idx: u32_at(s, p + 8 * i, e) as u32,
                annotations_offset: u32_at(s, p + 8 * i + 4, e) as u32,
            },
    )
}

pub open spec fn raw_method_annotations_at(s: Seq<u8>, p: int, n: int, e: Endianness) -> Seq<
    RawMethodAnnotation,
> {
    Seq::new(
        n as nat,
        |i: int|
            RawMethodAnnotation {
                method_idx: u32_at(s, p + 8 * i, e) as u32,
                annotations_offset: u32_at(s, p + 8 * i + 4, e) as u32,
            },
    )
}

pub open spec fn raw_parameter_annotations_at(s: Seq<u8>, p: int, n: int, e: Endianness) -> Seq<
    RawParameterAnnotation,
> {
    Seq::new(
        n as nat,
        |i: int|
            RawParameterAnnotation {
                method_idx: u32_at(s, p + 8 * i, e) as u32,
                annotations_offset: u32_at(s, p + 8 * i + 4, e) as u32,
            },
    )
}

/// Whether the annotations directory at file offset `off`, and everything
/// it refers to, can be read and resolved.
pub open spec fn annotations_check(
    s: Seq<u8>,
    off: int,
    data_off: int,
    fd: DexFileData,
    e: Endianness,
) -> Result<(), Fault> {
    annotations_check_sized(s, off, data_off, fd.sizes(), e)
}

/// The same, given only the sizes of the pools, which are all it depends on.
pub open spec fn annotations_check_sized(
    s: Seq<u8>,
    off: int,
    data_off: int,
    ps: PoolSizes,
    e: Endianness,
) -> Result<(), Fault> {
    match blob_pos(off, data_off, s.len() as int) {
        Err(f) => Err(f),
        Ok(q) => match directory_span(s, q, e) {
            Err(f) => Err(f),
            Ok(_) => {
                let c = u32_at(s, q, e);
                let nf = u32_at(s, q + 4, e);
                let nm = u32_at(s, q + 8, e);
                let np = u32_at(s, q + 12, e);
                let fr = raw_field_annotations_at(s, q + 16, nf, e);
                let mr = raw_method_annotations_at(s, q + 16 + 8 * nf, nm, e);
                let pr = raw_parameter_annotations_at(s, q + 16 + 8 * nf + 8 * nm, np, e);
                match (if c == 0 {
                    Ok(())
                } else {
                    annotation_set_check_sized(s, c, data_off, ps, e)
                }) {
                    Err(f) => Err(f),
                    Ok(_) => match first_fault(field_annotation_checks_sized(s, fr, ps, data_off, e)) {
                        Err(f) => Err(f),
                        Ok(_) => match first_fault(method_annotation_checks_sized(s, mr, ps, data_off, e)) {
                            Err(f) => Err(f),
                            Ok(_) => first_fault(parameter_annotation_checks_sized(s, pr, ps, data_off, e)),
                        },
                    },
                }
            },
        },
    }
}

/// `a` is the annotations directory at file offset `off`, resolved.
pub open spec fn annotations_matches(
    s: Seq<u8>,
    off: int,
    data_off: int,
    fd: DexFileData,
    e: Endianness,
    a: Annotations,
) -> bool {
    let q = off - data_off;
    let c = u32_at(s, q, e);
    let nf = u32_at(s, q + 4, e);
    let nm = u32_at(s, q + 8, e);
    let np = u32_at(s, q + 12, e);
    let fr = raw_field_annotations_at(s, q + 16, nf, e);
    let mr = raw_method_annotations_at(s, q + 16 + 8 * nf, nm, e);
    let pr = raw_parameter_annotations_at(s, q + 16 + 8 * nf + 8 * nm, np, e);
    &&& (a.class_annotations is None <==> c == 0)
    &&& (a.class_annotations is Some ==> {
        let v = a.class_annotations->Some_0@;
        let cq = c - data_off;
        &&& v.len() == u32_at(s, cq, e)
        &&& forall|i: int|
            #![trigger v[i]]
            0 <= i < v.len() ==> annotation_item_matches(
                s,
                u32_at(s, cq + 4 + 4 * i, e) - data_off,
                fd,
                AnnotationItem {
                    visibility: v[i].visibility,
                    type_: v[i].type_,
                    annotations: v[i].elements,
                },
            )
    })
    &&& (a.field_annotations is None <==> nf == 0)
    &&& (a.field_annotations is Some ==> {
        let v = a.field_annotations->Some_0@;
        &&& v.len() == nf
        &&& forall|i: int|
            #![trigger v[i]]
            0 <= i < nf ==> v[i].field_data == fd.fields@[fr[i].field_idx as int]
                && annotation_set_matches(
                s,
                fr[i].annotations_offset as int,
                data_off,
                fd,
                e,
                v[i].annotations@,
            )
    })
    &&& (a.method_annotations is None <==> nm == 0)
    &&& (a.method_annotations is Some ==> {
        let v = a.method_annotations->Some_0@;
        &&& v.len() == nm
        &&& forall|i: int|
            #![trigger v[i]]
            0 <= i < nm ==> v[i].method == fd.methods@[mr[i].method_idx as int]
                && annotation_set_matches(
                s,
                mr[i].annotations_offset as int,
                data_off,
                fd,
                e,
                v[i].annotations@,
            )
    })
    &&& (a.parameter_annotations is None <==> np == 0)
    &&& (a.parameter_annotations is Some ==> parameter_annotations_match(
        s,
        parameter_sets(s, pr, np as nat, data_off, e),
        fd,
        data_off,
        e,
        a.parameter_annotations->Some_0@,
    ))
}

/// Reads the annotations directory at file offset `off` and resolves the
/// annotations it gives: on the class, its fields, its methods and their
/// parameters; a kind with no entries is absent.
#[verifier::rlimit(60)]
pub fn transform_annotations(data: &[u8], off: u32, data_off: u32, fd: &DexFileData, e: Endianness) -> (r:
    Result<Annotations, DexParserError>)
    ensures
        match r {
            Ok(a) => annotations_check(data@, off as int, data_off as int, *fd, e) is Ok
                && annotations_matches(data@, off as int, data_off as int, *fd, e, a),
            Err(err) => annotations_check(data@, off as int, data_off as int, *fd, e) == Err::<
                (),
                Fault,
            >(err.fault()),
        },
{
    let q = locate(off, data_off, data.len())?;
    let adi = parse_annotations_directory_item(data, q, e)?;
    let ghost fr = raw_field_annotations_at(data@, q + 16, u32_at(data@, q + 4, e), e);
    let ghost mr = raw_method_annotations_at(
        data@,
        q + 16 + 8 * u32_at(data@, q + 4, e),
        u32_at(data@, q + 8, e),
        e,
    );
    let ghost pr = raw_parameter_annotations_at(
        data@,
        q + 16 + 8 * u32_at(data@, q + 4, e) + 8 * u32_at(data@, q + 8, e),
        u32_at(data@, q + 12, e),
        e,
    );
    proof {
        if adi.fld_annot is Some {
            assert(adi.fld_annot->Some_0@ =~= fr);
        } else {
            assert(fr =~= Seq::<RawFieldAnnotation>::empty());
        }
        if adi.mtd_annot is Some {
            assert(adi.mtd_annot->Some_0@ =~= mr);
        } else {
            assert(mr =~= Seq::<RawMethodAnnotation>::empty());
        }
        if adi.prm_annot is Some {
            assert(adi.prm_annot->Some_0@ =~= pr);
        } else {
            assert(pr =~= Seq::<RawParameterAnnotation>::empty());
        }
    }
    let class_annotations = if adi.class_annotations_off == 0 {
        None
    } else {
        let items = parse_annotations(data, fd, adi.class_annotations_off, data_off, e)?;
        let ghost orig = items@;
        let converted = to_class_annotations(items);
        proof {
            assert forall|i: int| 0 <= i < converted@.len() implies AnnotationItem {
                visibility: converted@[i].visibility,
                type_: converted@[i].type_,
                annotations: converted@[i].elements,
            } == orig[i] by {}
        }
        Some(converted)
    };
    let field_annotations = match &adi.fld_annot {
        Some(rfas) => Some(transform_field_annotations(data, rfas.as_slice(), fd, data_off, e)?),
        None => None,
    };
    let method_annotations = match &adi.mtd_annot {
        Some(rmas) => Some(transform_method_annotations(data, rmas.as_slice(), fd, data_off, e)?),
        None => None,
    };
    let parameter_annotations = match &adi.prm_annot {
        Some(rpas) => Some(transform_parameter_annotations(data, rpas.as_slice(), fd, data_off, e)?),
        None => None,
    };
    Ok(Annotations { class_annotations, field_annotations, method_annotations, parameter_annotations })
}

} // verus!
