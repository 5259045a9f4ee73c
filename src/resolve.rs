//! The resolver: follows the indices and offsets of the raw records and
//! builds the shared, resolved model.
use crate::error::{
    first_fault, lemma_first_fault_all, lemma_first_fault_stays, lemma_first_fault_step,
    DexParserError, Fault,
};
use crate::code::{code_check, code_matches, transform_code_item};
use crate::primitives::{u16_at, u32_at, uleb_value, Endianness};
use crate::raw::{counted_span, parse_type_list};
use crate::raw_types::{
    RawEncodedField, RawEncodedMethod, RawField, RawMethod,
    RawPrototype, RawTypeList,
};
use crate::result_types::{PoolSizes, 
    access_flags_of, AccessFlag, AnnotationType, DexFileData, EncodedField, EncodedMethod,
    Field, Method, Prototype, StringData, TypeIdentifier,
};
use crate::strings::{parse_string_data_item, string_bytes, string_span, utf8_of_mutf8};
use std::rc::Rc;
use vstd::prelude::*;
use vstd::utf8::decode_utf8;

verus! {

/// Where the file offset `o` falls in a data blob of `len` bytes that starts
/// at file offset `data_off`.
pub open spec fn blob_pos(o: int, data_off: int, len: int) -> Result<int, Fault> {
    if data_off <= o && o - data_off < len {
        Ok(o - data_off)
    } else {
        Err(Fault::Malformed)
    }
}

/// Turns a file offset into a position in the data blob.
pub fn locate(o: u32, data_off: u32, len: usize) -> (r: Result<usize, DexParserError>)
    ensures
        match r {
            Ok(p) => blob_pos(o as int, data_off as int, len as int) == Ok::<int, Fault>(p as int),
            Err(e) => blob_pos(o as int, data_off as int, len as int) == Err::<int, Fault>(
                e.fault(),
            ),
        },
{
    if o < data_off || (o - data_off) as usize >= len {
        return Err(DexParserError::malformed("offset outside the data blob"));
    }
    Ok((o - data_off) as usize)
}

pub open spec fn string_check(s: Seq<u8>, o: int, data_off: int) -> Result<(), Fault> {
    match blob_pos(o, data_off, s.len() as int) {
        Err(f) => Err(f),
        Ok(q) => match string_span(s, q) {
            Err(f) => Err(f),
            Ok(_) => Ok(()),
        },
    }
}

pub open spec fn strings_checks(s: Seq<u8>, offs: Seq<u32>, data_off: int) -> Seq<Result<(), Fault>> {
    Seq::new(offs.len(), |i: int| string_check(s, offs[i] as int, data_off))
}

/// `sd` is the string data item at file offset `o`.
pub open spec fn string_matches(s: Seq<u8>, o: int, data_off: int, sd: StringData) -> bool {
    let q = o - data_off;
    &&& sd.utf16_size == uleb_value(s, q)
    &&& sd.data@ == decode_utf8(utf8_of_mutf8(string_bytes(s, q))->Some_0)
}

/// Decodes the string data items at the file offsets `sdi`.
pub fn transform_string_id_items(data: &[u8], sdi: &[u32], data_off: u32) -> (r: Result<
    Vec<Rc<StringData>>,
    DexParserError,
>)
    ensures
        match r {
            Ok(v) => first_fault(strings_checks(data@, sdi@, data_off as int)) is Ok && v@.len()
                == sdi@.len() && forall|i: int|
                0 <= i < sdi@.len() ==> string_matches(
                    data@,
                    sdi@[i] as int,
                    data_off as int,
                    *#[trigger] v@[i],
                ),
            Err(e) => first_fault(strings_checks(data@, sdi@, data_off as int)) == Err::<(), Fault>(
                e.fault(),
            ),
        },
{
    let ghost checks = strings_checks(data@, sdi@, data_off as int);
    let mut v: Vec<Rc<StringData>> = Vec::new();
    let mut i: usize = 0;
    while i < sdi.len()
        invariant
            checks == strings_checks(data@, sdi@, data_off as int),
            i <= sdi@.len(),
            first_fault(checks.take(i as int)) is Ok,
            v@.len() == i,
            forall|j: int|
                0 <= j < i ==> string_matches(
                    data@,
                    sdi@[j] as int,
                    data_off as int,
                    *#[trigger] v@[j],
                ),
        decreases sdi@.len() - i,
    {
        proof {
            lemma_first_fault_step(checks, i as int);
        }
        let q = match locate(sdi[i], data_off, data.len()) {
            Ok(q) => q,
            Err(e) => {
                proof {
                    lemma_first_fault_stays(checks, i + 1);
                }
                return Err(e);
            },
        };
        let (sd, _) = match parse_string_data_item(data, q) {
            Ok(x) => x,
            Err(e) => {
                proof {
                    lemma_first_fault_stays(checks, i + 1);
                }
                return Err(e);
            },
        };
        v.push(Rc::new(sd));
        i = i + 1;
    }
    proof {
        lemma_first_fault_all(checks, i as int);
    }
    Ok(v)
}

/// Resolves string indices into type identifiers.
pub fn transform_type_id_items(tids: &[u32], sd: &Vec<Rc<StringData>>) -> (r: Result<
    Vec<Rc<TypeIdentifier>>,
    DexParserError,
>)
    ensures
        match r {
            Ok(v) => v@.len() == tids@.len() && forall|i: int|
                #![trigger v@[i]]
                #![trigger tids@[i]]
                0 <= i < tids@.len() ==> tids@[i] < sd@.len() && (*v@[i]).descriptor
                    == sd@[tids@[i] as int],
            Err(e) => e.fault() == Fault::Malformed && exists|i: int|
                0 <= i < tids@.len() && tids@[i] >= sd@.len(),
        },
{
    let mut v: Vec<Rc<TypeIdentifier>> = Vec::new();
    let mut i: usize = 0;
    while i < tids.len()
        invariant
            i <= tids@.len(),
            v@.len() == i,
            forall|j: int|
                #![trigger v@[j]]
                #![trigger tids@[j]]
                0 <= j < i ==> tids@[j] < sd@.len() && (*v@[j]).descriptor
                    == sd@[tids@[j] as int],
        decreases tids@.len() - i,
    {
        let k = tids[i] as usize;
        if k >= sd.len() {
            return Err(DexParserError::malformed("string index out of range"));
        }
        v.push(Rc::new(TypeIdentifier { descriptor: sd[k].clone() }));
        i = i + 1;
    }
    Ok(v)
}

/// Resolves the entries of a type list into type identifiers.
pub fn resolve_type_list(list: &RawTypeList, ti: &Vec<Rc<TypeIdentifier>>) -> (r: Result<
    Vec<Rc<TypeIdentifier>>,
    DexParserError,
>)
    ensures
        match r {
            Ok(v) => v@.len() == list.list@.len() && forall|j: int|
                #![trigger v@[j]]
                #![trigger list.list@[j]]
                0 <= j < list.list@.len() ==> list.list@[j] < ti@.len() && v@[j]
                    == ti@[list.list@[j] as int],
            Err(e) => e.fault() == Fault::Malformed && exists|j: int|
                0 <= j < list.list@.len() && list.list@[j] >= ti@.len(),
        },
{
    let mut v: Vec<Rc<TypeIdentifier>> = Vec::new();
    let mut i: usize = 0;
    while i < list.list.len()
        invariant
            i <= list.list@.len(),
            v@.len() == i,
            forall|j: int|
                #![trigger v@[j]]
                #![trigger list.list@[j]]
                0 <= j < i ==> list.list@[j] < ti@.len() && v@[j] == ti@[list.list@[j] as int],
        decreases list.list@.len() - i,
    {
        let k = list.list[i] as usize;
        if k >= ti.len() {
            return Err(DexParserError::malformed("type index out of range"));
        }
        v.push(ti[k].clone());
        i = i + 1;
    }
    Ok(v)
}

/// Whether the type list at blob position `q` can be read and names only
/// types that exist.
pub open spec fn type_list_check(s: Seq<u8>, q: int, ntypes: int, e: Endianness) -> Result<(), Fault> {
    match counted_span(s, q, 2, e) {
        Err(f) => Err(f),
        Ok(_) => if forall|j: int|
            0 <= j < u32_at(s, q, e) ==> #[trigger] u16_at(s, q + 4 + 2 * j, e) < ntypes {
            Ok(())
        } else {
            Err(Fault::Malformed)
        },
    }
}

/// `v` are the types of the type list at blob position `q`.
pub open spec fn type_list_matches(
    s: Seq<u8>,
    q: int,
    ti: Seq<Rc<TypeIdentifier>>,
    e: Endianness,
    v: Seq<Rc<TypeIdentifier>>,
) -> bool {
    &&& v.len() == u32_at(s, q, e)
    &&& forall|j: int| 0 <= j < v.len() ==> #[trigger] v[j] == ti[u16_at(s, q + 4 + 2 * j, e)]
}

/// Reads the type list at file offset `off` and resolves its types.
pub fn type_list_at(data: &[u8], off: u32, data_off: u32, ti: &Vec<Rc<TypeIdentifier>>, e: Endianness) -> (r: Result<
    Vec<Rc<TypeIdentifier>>,
    DexParserError,
>)
    ensures
        match r {
            Ok(v) => {
                let q = off - data_off;
                &&& blob_pos(off as int, data_off as int, data@.len() as int) is Ok
                &&& type_list_check(data@, q, ti@.len() as int, e) is Ok
                &&& type_list_matches(data@, q, ti@, e, v@)
            },
            Err(err) => match blob_pos(off as int, data_off as int, data@.len() as int) {
                Err(f) => err.fault() == f,
                Ok(q) => type_list_check(data@, q, ti@.len() as int, e) == Err::<(), Fault>(
                    err.fault(),
                ),
            },
        },
{
    let q = locate(off, data_off, data.len())?;
    let list = parse_type_list(data, q, e)?;
    match resolve_type_list(&list, ti) {
        Ok(v) => {
            assert forall|j: int| 0 <= j < u32_at(data@, q as int, e) implies #[trigger] u16_at(
                data@,
                q + 4 + 2 * j,
                e,
            ) < ti@.len() by {
                assert(list.list@[j] == u16_at(data@, q + 4 + 2 * j, e));
            }
            Ok(v)
        },
        Err(err) => {
            proof {
                let j = choose|j: int| 0 <= j < list.list@.len() && list.list@[j] >= ti@.len();
                assert(list.list@[j] == u16_at(data@, q + 4 + 2 * j, e));
            }
            Err(err)
        },
    }
}

pub open spec fn prototype_check(
    s: Seq<u8>,
    p: RawPrototype,
    nstrings: int,
    ntypes: int,
    data_off: int,
    e: Endianness,
) -> Result<(), Fault> {
    if p.shorty_idx >= nstrings || p.return_type_idx >= ntypes {
        Err(Fault::Malformed)
    } else if p.parameters_off == 0 {
        Ok(())
    } else {
        match blob_pos(p.parameters_off as int, data_off, s.len() as int) {
            Err(f) => Err(f),
            Ok(q) => type_list_check(s, q, ntypes, e),
        }
    }
}

/// `r` is the resolved form of the raw prototype `p`.
pub open spec fn prototype_matches(
    s: Seq<u8>,
    p: RawPrototype,
    sd: Seq<Rc<StringData>>,
    ti: Seq<Rc<TypeIdentifier>>,
    data_off: int,
    e: Endianness,
    r: Prototype,
) -> bool {
    &&& r.shorty == sd[p.shorty_idx as int]
    &&& r.return_type == ti[p.return_type_idx as int]
    &&& (r.parameters is None <==> p.parameters_off == 0)
    &&& (r.parameters is Some ==> type_list_matches(
        s,
        p.parameters_off - data_off,
        ti,
        e,
        r.parameters->Some_0@,
    ))
}

/// Resolves one raw prototype: its short descriptor, its return type, and
/// its parameter types, absent where the offset of their list is zero.
pub fn transform_prototype(
    data: &[u8],
    p: &RawPrototype,
    sd: &Vec<Rc<StringData>>,
    ti: &Vec<Rc<TypeIdentifier>>,
    data_off: u32,
    e: Endianness,
) -> (r: Result<Prototype, DexParserError>)
    ensures
        match r {
            Ok(v) => prototype_check(data@, *p, sd@.len() as int, ti@.len() as int, data_off as int, e) is Ok
                && prototype_matches(data@, *p, sd@, ti@, data_off as int, e, v),
            Err(err) => prototype_check(data@, *p, sd@.len() as int, ti@.len() as int, data_off as int, e)
                == Err::<(), Fault>(err.fault()),
        },
{
    if p.shorty_idx as usize >= sd.len() || p.return_type_idx as usize >= ti.len() {
        return Err(DexParserError::malformed("prototype index out of range"));
    }
    let parameters = if p.parameters_off == 0 {
        None
    } else {
        Some(type_list_at(data, p.parameters_off, data_off, ti, e)?)
    };
    Ok(
        Prototype {
            shorty: sd[p.shorty_idx as usize].clone(),
            return_type: ti[p.return_type_idx as usize].clone(),
            parameters,
        },
    )
}

/// A prototype whose parameters offset is zero has its parameters absent;
/// one whose offset names a type list of count zero has them present and
/// empty.
pub proof fn lemma_parameters_absent_or_empty(
    s: Seq<u8>,
    p: RawPrototype,
    sd: Seq<Rc<StringData>>,
    ti: Seq<Rc<TypeIdentifier>>,
    data_off: int,
    e: Endianness,
    r: Prototype,
)
    requires
        p.shorty_idx < sd.len(),
        p.return_type_idx < ti.len(),
    ensures
        p.parameters_off == 0 ==> prototype_check(
            s,
            p,
            sd.len() as int,
            ti.len() as int,
            data_off,
            e,
        ) is Ok && (prototype_matches(s, p, sd, ti, data_off, e, r) ==> r.parameters is None),
        ({
            let q = p.parameters_off - data_off;
            p.parameters_off != 0 && blob_pos(p.parameters_off as int, data_off, s.len() as int)
                is Ok && q + 4 <= s.len() && u32_at(s, q, e) == 0
        }) ==> prototype_check(s, p, sd.len() as int, ti.len() as int, data_off, e) is Ok && (
        prototype_matches(s, p, sd, ti, data_off, e, r) ==> r.parameters is Some
            && r.parameters->Some_0@.len() == 0),
{
}

pub open spec fn prototypes_checks(
    s: Seq<u8>,
    ps: Seq<RawPrototype>,
    nstrings: int,
    ntypes: int,
    data_off: int,
    e: Endianness,
) -> Seq<Result<(), Fault>> {
    Seq::new(ps.len(), |i: int| prototype_check(s, ps[i], nstrings, ntypes, data_off, e))
}

/// Resolves the raw prototypes in order.
pub fn transform_prototype_id_items(
    data: &[u8],
    proto_ids: &[RawPrototype],
    sd: &Vec<Rc<StringData>>,
    ti: &Vec<Rc<TypeIdentifier>>,
    data_off: u32,
    e: Endianness,
) -> (r: Result<Vec<Rc<Prototype>>, DexParserError>)
    ensures
        match r {
            Ok(v) => first_fault(
                prototypes_checks(data@, proto_ids@, sd@.len() as int, ti@.len() as int, data_off as int, e),
            ) is Ok && v@.len() == proto_ids@.len() && forall|i: int|
                0 <= i < proto_ids@.len() ==> prototype_matches(
                    data@,
                    proto_ids@[i],
                    sd@,
                    ti@,
                    data_off as int,
                    e,
                    *#[trigger] v@[i],
                ),
            Err(err) => first_fault(
                prototypes_checks(data@, proto_ids@, sd@.len() as int, ti@.len() as int, data_off as int, e),
            ) == Err::<(), Fault>(err.fault()),
        },
{
    let ghost checks = prototypes_checks(data@, proto_ids@, sd@.len() as int, ti@.len() as int, data_off as int, e);
    let mut v: Vec<Rc<Prototype>> = Vec::new();
    let mut i: usize = 0;
    while i < proto_ids.len()
        invariant
            checks == prototypes_checks(data@, proto_ids@, sd@.len() as int, ti@.len() as int, data_off as int, e),
            i <= proto_ids@.len(),
            first_fault(checks.take(i as int)) is Ok,
            v@.len() == i,
            forall|j: int|
                0 <= j < i ==> prototype_matches(
                    data@,
                    proto_ids@[j],
                    sd@,
                    ti@,
                    data_off as int,
                    e,
                    *#[trigger] v@[j],
                ),
        decreases proto_ids@.len() - i,
    {
        proof {
            lemma_first_fault_step(checks, i as int);
        }
        match transform_prototype(data, &proto_ids[i], sd, ti, data_off, e) {
            Ok(p) => {
                v.push(Rc::new(p));
            },
            Err(err) => {
                proof {
                    lemma_first_fault_stays(checks, i + 1);
                }
                return Err(err);
            },
        }
        i = i + 1;
    }
    proof {
        lemma_first_fault_all(checks, i as int);
    }
    Ok(v)
}

/// Resolves the raw field records: definer, type and name.
pub fn transform_field_id_items(
    raw: &[RawField],
    sd: &Vec<Rc<StringData>>,
    ti: &Vec<Rc<TypeIdentifier>>,
) -> (r: Result<Vec<Rc<Field>>, DexParserError>)
    ensures
        match r {
            Ok(v) => v@.len() == raw@.len() && forall|i: int|
                #![trigger v@[i]]
                #![trigger raw@[i]]
                0 <= i < raw@.len() ==> {
                    &&& raw@[i].class_idx < ti@.len() && raw@[i].type_idx < ti@.len()
                    &&& raw@[i].name_idx < sd@.len()
                    &&& v@[i].definer == ti@[raw@[i].class_idx as int]
                    &&& v@[i].type_ == ti@[raw@[i].type_idx as int]
                    &&& v@[i].name == sd@[raw@[i].name_idx as int]
                },
            Err(e) => e.fault() == Fault::Malformed && exists|i: int|
                0 <= i < raw@.len() && (raw@[i].class_idx >= ti@.len() || raw@[i].type_idx
                    >= ti@.len() || raw@[i].name_idx >= sd@.len()),
        },
{
    let mut v: Vec<Rc<Field>> = Vec::new();
    let mut i: usize = 0;
    while i < raw.len()
        invariant
            i <= raw@.len(),
            v@.len() == i,
            forall|j: int|
                #![trigger v@[j]]
                #![trigger raw@[j]]
                0 <= j < i ==> {
                    &&& raw@[j].class_idx < ti@.len() && raw@[j].type_idx < ti@.len()
                    &&& raw@[j].name_idx < sd@.len()
                    &&& v@[j].definer == ti@[raw@[j].class_idx as int]
                    &&& v@[j].type_ == ti@[raw@[j].type_idx as int]
                    &&& v@[j].name == sd@[raw@[j].name_idx as int]
                },
        decreases raw@.len() - i,
    {
        let f = raw[i];
        if f.class_idx as usize >= ti.len() || f.type_idx as usize >= ti.len() || f.name_idx as usize
            >= sd.len() {
            return Err(DexParserError::malformed("field index out of range"));
        }
        v.push(
            Rc::new(
                Field {
                    definer: ti[f.class_idx as usize].clone(),
                    type_: ti[f.type_idx as usize].clone(),
                    name: sd[f.name_idx as usize].clone(),
                },
            ),
        );
        i = i + 1;
    }
    Ok(v)
}

/// Resolves the raw method records: definer, prototype and name.
pub fn transform_method_id_items(
    raw: &[RawMethod],
    sd: &Vec<Rc<StringData>>,
    ti: &Vec<Rc<TypeIdentifier>>,
    pro: &Vec<Rc<Prototype>>,
) -> (r: Result<Vec<Rc<Method>>, DexParserError>)
    ensures
        match r {
            Ok(v) => v@.len() == raw@.len() && forall|i: int|
                #![trigger v@[i]]
                #![trigger raw@[i]]
                0 <= i < raw@.len() ==> {
                    &&& raw@[i].class_idx < ti@.len() && raw@[i].proto_idx < pro@.len()
                    &&& raw@[i].name_idx < sd@.len()
                    &&& v@[i].definer == ti@[raw@[i].class_idx as int]
                    &&& v@[i].prototype == pro@[raw@[i].proto_idx as int]
                    &&& v@[i].name == sd@[raw@[i].name_idx as int]
                },
            Err(e) => e.fault() == Fault::Malformed && exists|i: int|
                0 <= i < raw@.len() && (raw@[i].class_idx >= ti@.len() || raw@[i].proto_idx
                    >= pro@.len() || raw@[i].name_idx >= sd@.len()),
        },
{
    let mut v: Vec<Rc<Method>> = Vec::new();
    let mut i: usize = 0;
    while i < raw.len()
        invariant
            i <= raw@.len(),
            v@.len() == i,
            forall|j: int|
                #![trigger v@[j]]
                #![trigger raw@[j]]
                0 <= j < i ==> {
                    &&& raw@[j].class_idx < ti@.len() && raw@[j].proto_idx < pro@.len()
                    &&& raw@[j].name_idx < sd@.len()
                    &&& v@[j].definer == ti@[raw@[j].class_idx as int]
                    &&& v@[j].prototype == pro@[raw@[j].proto_idx as int]
                    &&& v@[j].name == sd@[raw@[j].name_idx as int]
                },
        decreases raw@.len() - i,
    {
        let m = raw[i];
        if m.class_idx as usize >= ti.len() || m.proto_idx as usize >= pro.len() || m.name_idx as usize
            >= sd.len() {
            return Err(DexParserError::malformed("method index out of range"));
        }
        v.push(
            Rc::new(
                Method {
                    definer: ti[m.class_idx as usize].clone(),
                    prototype: pro[m.proto_idx as usize].clone(),
                    name: sd[m.name_idx as usize].clone(),
                },
            ),
        );
        i = i + 1;
    }
    Ok(v)
}

/// The absolute index of entry `i` of a run of encoded fields: the sum of
/// the differences up to and including it.
pub open spec fn field_index_at(raw: Seq<RawEncodedField>, i: int) -> int
    decreases i + 1,
{
    if i < 0 || i >= raw.len() {
        0
    } else {
        field_index_at(raw, i - 1) + raw[i].field_idx_diff
    }
}

/// The absolute index of entry `i` of a run of encoded methods.
pub open spec fn method_index_at(raw: Seq<RawEncodedMethod>, i: int) -> int
    decreases i + 1,
{
    if i < 0 || i >= raw.len() {
        0
    } else {
        method_index_at(raw, i - 1) + raw[i].method_idx_diff
    }
}

proof fn lemma_field_index_grows(raw: Seq<RawEncodedField>, i: int, j: int)
    requires
        0 <= i <= j < raw.len(),
    ensures
        field_index_at(raw, i) <= field_index_at(raw, j),
    decreases j - i,
{
    if i < j {
        lemma_field_index_grows(raw, i, j - 1);
    }
}

proof fn lemma_method_index_grows(raw: Seq<RawEncodedMethod>, i: int, j: int)
    requires
        0 <= i <= j < raw.len(),
    ensures
        method_index_at(raw, i) <= method_index_at(raw, j),
    decreases j - i,
{
    if i < j {
        lemma_method_index_grows(raw, i, j - 1);
    }
}

/// Where every difference after the first is positive, the absolute
/// indices of a run of encoded fields strictly increase.
pub proof fn lemma_field_indices_increase(raw: Seq<RawEncodedField>, i: int, j: int)
    requires
        0 <= i < j < raw.len(),
        forall|k: int| 0 < k < raw.len() ==> #[trigger] raw[k].field_idx_diff > 0,
    ensures
        field_index_at(raw, i) < field_index_at(raw, j),
{
    lemma_field_index_grows(raw, i, j - 1);
}

/// Where every difference after the first is positive, the absolute
/// indices of a run of encoded methods strictly increase.
pub proof fn lemma_method_indices_increase(raw: Seq<RawEncodedMethod>, i: int, j: int)
    requires
        0 <= i < j < raw.len(),
        forall|k: int| 0 < k < raw.len() ==> #[trigger] raw[k].method_idx_diff > 0,
    ensures
        method_index_at(raw, i) < method_index_at(raw, j),
{
    lemma_method_index_grows(raw, i, j - 1);
}

/// Resolves a run of encoded fields: the absolute index of each is the
/// running sum of the stored differences.
pub fn transform_encoded_fields(raw: &[RawEncodedField], fd: &DexFileData) -> (r: Result<
    Vec<EncodedField>,
    DexParserError,
>)
    ensures
        match r {
            Ok(v) => v@.len() == raw@.len() && forall|i: int|
                #![trigger v@[i]]
                #![trigger field_index_at(raw@, i)]
                0 <= i < raw@.len() ==> field_index_at(raw@, i) < fd.fields@.len() && v@[i].field
                    == fd.fields@[field_index_at(raw@, i)] && v@[i].access_flags@
                    == access_flags_of(raw@[i].access_flags, AnnotationType::Field),
            Err(e) => e.fault() == Fault::Malformed && exists|i: int|
                0 <= i < raw@.len() && field_index_at(raw@, i) >= fd.fields@.len(),
        },
{
    let mut v: Vec<EncodedField> = Vec::new();
    let mut idx: usize = 0;
    let mut i: usize = 0;
    let n_fields = fd.fields.len();
    while i < raw.len()
        invariant
            n_fields == fd.fields@.len(),
            i <= raw@.len(),
            idx == field_index_at(raw@, i - 1),
            v@.len() == i,
            forall|j: int|
                #![trigger v@[j]]
                #![trigger field_index_at(raw@, j)]
                0 <= j < i ==> field_index_at(raw@, j) < fd.fields@.len() && v@[j].field
                    == fd.fields@[field_index_at(raw@, j)] && v@[j].access_flags@
                    == access_flags_of(raw@[j].access_flags, AnnotationType::Field),
        decreases raw@.len() - i,
    {
        let f = raw[i];
        assert(field_index_at(raw@, i as int) == idx + f.field_idx_diff);
        let next = match idx.checked_add(f.field_idx_diff as usize) {
            Some(n) => n,
            None => {
                return Err(DexParserError::malformed("field index out of range"));
            },
        };
        if next >= n_fields {
            return Err(DexParserError::malformed("field index out of range"));
        }
        idx = next;
        v.push(
            EncodedField {
                field: fd.fields[idx].clone(),
                access_flags: AccessFlag::parse(f.access_flags, AnnotationType::Field),
            },
        );
        i = i + 1;
    }
    Ok(v)
}

/// Whether entry `i` of a run of encoded methods can be resolved: its
/// absolute index names a method, and its code, if any, can be read.
pub open spec fn method_check(
    s: Seq<u8>,
    raw: Seq<RawEncodedMethod>,
    i: int,
    fd: DexFileData,
    data_off: int,
    e: Endianness,
) -> Result<(), Fault> {
    method_check_sized(s, raw, i, fd.sizes(), data_off, e)
}

/// The same, given only the sizes of the pools, which are all it depends on.
pub open spec fn method_check_sized(
    s: Seq<u8>,
    raw: Seq<RawEncodedMethod>,
    i: int,
    ps: PoolSizes,
    data_off: int,
    e: Endianness,
) -> Result<(), Fault> {
    if method_index_at(raw, i) >= (ps.methods as int) {
        Err(Fault::Malformed)
    } else if raw[i].code_off == 0 {
        Ok(())
    } else {
        match blob_pos(raw[i].code_off as int, data_off, s.len() as int) {
            Err(f) => Err(f),
            Ok(q) => code_check(s, q, (ps.types as int), data_off, e),
        }
    }
}

pub open spec fn methods_checks(
    s: Seq<u8>,
    raw: Seq<RawEncodedMethod>,
    fd: DexFileData,
    data_off: int,
    e: Endianness,
) -> Seq<Result<(), Fault>> {
    methods_checks_sized(s, raw, fd.sizes(), data_off, e)
}

/// The same, given only the sizes of the pools, which are all it depends on.
pub open spec fn methods_checks_sized(
    s: Seq<u8>,
    raw: Seq<RawEncodedMethod>,
    ps: PoolSizes,
    data_off: int,
    e: Endianness,
) -> Seq<Result<(), Fault>> {
    Seq::new(raw.len(), |i: int| method_check_sized(s, raw, i, ps, data_off, e))
}

/// `m` is entry `i` of a run of encoded methods, resolved.
pub open spec fn encoded_method_matches(
    s: Seq<u8>,
    raw: Seq<RawEncodedMethod>,
    i: int,
    fd: DexFileData,
    data_off: int,
    e: Endianness,
    m: EncodedMethod,
) -> bool {
    &&& m.method == fd.methods@[method_index_at(raw, i)]
    &&& m.access_flags@ == access_flags_of(raw[i].access_flags, AnnotationType::Method)
    &&& (m.code is None <==> raw[i].code_off == 0)
    &&& (m.code is Some ==> code_matches(
        s,
        raw[i].code_off - data_off,
        fd.type_identifiers@,
        data_off,
        e,
        m.code->Some_0,
    ))
}

/// Resolves a run of encoded methods: absolute indices from the running sum
/// of the differences, and the code of each method that has any.
pub fn transform_encoded_methods(
    data: &[u8],
    data_off: u32,
    raw: &[RawEncodedMethod],
    fd: &DexFileData,
    e: Endianness,
) -> (r: Result<Vec<EncodedMethod>, DexParserError>)
    ensures
        match r {
            Ok(v) => first_fault(methods_checks(data@, raw@, *fd, data_off as int, e)) is Ok
                && v@.len() == raw@.len() && forall|i: int|
                0 <= i < raw@.len() ==> encoded_method_matches(
                    data@,
                    raw@,
                    i,
                    *fd,
                    data_off as int,
                    e,
                    #[trigger] v@[i],
                ),
            Err(err) => first_fault(methods_checks(data@, raw@, *fd, data_off as int, e)) == Err::<
                (),
                Fault,
            >(err.fault()),
        },
{
    let ghost checks = methods_checks(data@, raw@, *fd, data_off as int, e);
    let mut v: Vec<EncodedMethod> = Vec::new();
    let mut idx: usize = 0;
    let mut i: usize = 0;
    let n_methods = fd.methods.len();
    while i < raw.len()
        invariant
            checks == methods_checks(data@, raw@, *fd, data_off as int, e),
            n_methods == fd.methods@.len(),
            i <= raw@.len(),
            idx == method_index_at(raw@, i - 1),
            first_fault(checks.take(i as int)) is Ok,
            v@.len() == i,
            forall|j: int|
                0 <= j < i ==> encoded_method_matches(
                    data@,
                    raw@,
                    j,
                    *fd,
                    data_off as int,
                    e,
                    #[trigger] v@[j],
                ),
        decreases raw@.len() - i,
    {
        proof {
            lemma_first_fault_step(checks, i as int);
        }
        let m = raw[i];
        assert(method_index_at(raw@, i as int) == idx + m.method_idx_diff);
        let next = match idx.checked_add(m.method_idx_diff as usize) {
            Some(n) => n,
            None => {
                proof {
                    lemma_first_fault_stays(checks, i + 1);
                }
                return Err(DexParserError::malformed("method index out of range"));
            },
        };
        if next >= n_methods {
            proof {
                lemma_first_fault_stays(checks, i + 1);
            }
            return Err(DexParserError::malformed("method index out of range"));
        }
        idx = next;
        let code = if m.code_off == 0 {
            None
        } else {
            let q = match locate(m.code_off, data_off, data.len()) {
                Ok(q) => q,
                Err(err) => {
                    proof {
                        lemma_first_fault_stays(checks, i + 1);
                    }
                    return Err(err);
                },
            };
            match transform_code_item(data, q, data_off, &fd.type_identifiers, e) {
                Ok(c) => Some(c),
                Err(err) => {
                    proof {
                        lemma_first_fault_stays(checks, i + 1);
                    }
                    return Err(err);
                },
            }
        };
        v.push(
            EncodedMethod {
                method: fd.methods[idx].clone(),
                access_flags: AccessFlag::parse(m.access_flags, AnnotationType::Method),
                code,
            },
        );
        i = i + 1;
    }
    proof {
        lemma_first_fault_all(checks, i as int);
    }
    Ok(v)
}

} // verus!
