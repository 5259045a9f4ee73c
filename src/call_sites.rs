//! Call sites: an encoded array whose first three values name the bootstrap
//! method handle, the method name and the method type.
use crate::encoded_value::{
    array_matches, array_span_sized, parse_encoded_array_item, value_type_of, values_span_sized,
    EncodedValueType, MAX_DEPTH,
};
use crate::error::{
    first_fault, lemma_first_fault_all, lemma_first_fault_stays, lemma_first_fault_step,
    DexParserError, Fault,
};
use crate::primitives::{leb_span, uleb_value};
use crate::resolve::{blob_pos, locate};
use crate::result_types::{CallSiteItem, DexFileData, EncodedValue, PoolSizes};
use vstd::prelude::*;

verus! {

/// The type that the tag byte of value `k` of the encoded array at `q` names.
pub open spec fn element_type(s: Seq<u8>, q: int, ps: PoolSizes, k: nat) -> Option<EncodedValueType> {
    let p1 = leb_span(s, q)->Ok_0;
    let pos = values_span_sized(s, p1, ps, k, MAX_DEPTH as nat)->Ok_0;
    value_type_of(s[pos] % 32)
}

/// Whether the call site item at file offset `o` can be read: an encoded
/// array of at least three values, a method handle, a string and a method
/// type first.
pub open spec fn call_site_check_sized(s: Seq<u8>, o: int, data_off: int, ps: PoolSizes) -> Result<
    (),
    Fault,
> {
    match blob_pos(o, data_off, s.len() as int) {
        Err(f) => Err(f),
        Ok(q) => match array_span_sized(s, q, ps, MAX_DEPTH as nat) {
            Err(f) => Err(f),
            Ok(_) => if uleb_value(s, q) >= 3 && element_type(s, q, ps, 0) == Some(
                EncodedValueType::MethodHandle,
            ) && element_type(s, q, ps, 1) == Some(EncodedValueType::String) && element_type(
                s,
                q,
                ps,
                2,
            ) == Some(EncodedValueType::MethodType) {
                Ok(())
            } else {
                Err(Fault::Malformed)
            },
        },
    }
}

/// The checks of the call site items at the file offsets `offs`, in order.
pub open spec fn call_site_checks_sized(s: Seq<u8>, offs: Seq<u32>, data_off: int, ps: PoolSizes) -> Seq<
    Result<(), Fault>,
> {
    Seq::new(offs.len(), |i: int| call_site_check_sized(s, offs[i] as int, data_off, ps))
}

pub open spec fn call_site_checks(s: Seq<u8>, offs: Seq<u32>, fd: DexFileData, data_off: int) -> Seq<
    Result<(), Fault>,
> {
    call_site_checks_sized(s, offs, data_off, fd.sizes())
}

/// `c` is the call site whose encoded array is at blob position `q`: its
/// three named values followed by its constants are that array.
pub open spec fn call_site_matches(s: Seq<u8>, q: int, fd: DexFileData, c: CallSiteItem) -> bool {
    array_matches(
        s,
        q,
        fd,
        MAX_DEPTH as nat,
        seq![
            EncodedValue::MethodHandle(c.method_handle),
            EncodedValue::String(c.method_name),
            EncodedValue::MethodType(c.method_type),
        ] + c.constant_values@,
    )
}

/// Reads and resolves the call site item at file offset `o`.
pub fn transform_call_site(data: &[u8], o: u32, data_off: u32, fd: &DexFileData) -> (r: Result<
    CallSiteItem,
    DexParserError,
>)
    ensures
        match r {
            Ok(c) => call_site_check_sized(data@, o as int, data_off as int, fd.sizes()) is Ok
                && call_site_matches(data@, o - data_off, *fd, c),
            Err(e) => call_site_check_sized(data@, o as int, data_off as int, fd.sizes()) == Err::<
                (),
                Fault,
            >(e.fault()),
        },
{
    let q = locate(o, data_off, data.len())?;
    let (mut values, _) = parse_encoded_array_item(data, q, fd)?;
    let ghost all = values@;
    if values.len() < 3 {
        return Err(DexParserError::malformed("call site with fewer than three values"));
    }
    let v0 = values.remove(0);
    let v1 = values.remove(0);
    let v2 = values.remove(0);
    assert(all =~= seq![v0, v1, v2] + values@);
    let ghost p1 = leb_span(data@, q as int)->Ok_0;
    assert(crate::encoded_value::value_matches(
        data@,
        values_span_sized(data@, p1, fd.sizes(), 0, MAX_DEPTH as nat)->Ok_0,
        *fd,
        MAX_DEPTH as nat,
        all[0],
    ));
    assert(crate::encoded_value::value_matches(
        data@,
        values_span_sized(data@, p1, fd.sizes(), 1, MAX_DEPTH as nat)->Ok_0,
        *fd,
        MAX_DEPTH as nat,
        all[1],
    ));
    assert(crate::encoded_value::value_matches(
        data@,
        values_span_sized(data@, p1, fd.sizes(), 2, MAX_DEPTH as nat)->Ok_0,
        *fd,
        MAX_DEPTH as nat,
        all[2],
    ));
    match (v0, v1, v2) {
        (EncodedValue::MethodHandle(h), EncodedValue::String(n), EncodedValue::MethodType(t)) => {
            let c = CallSiteItem {
                method_handle: h,
                method_name: n,
                method_type: t,
                constant_values: values,
            };
            proof {
                assert(seq![
                    EncodedValue::MethodHandle(c.method_handle),
                    EncodedValue::String(c.method_name),
                    EncodedValue::MethodType(c.method_type),
                ] + c.constant_values@ =~= all);
            }
            Ok(c)
        },
        _ => Err(DexParserError::malformed("call site does not start with a handle, a name and a type")),
    }
}

/// Resolves the call site items at the file offsets `csi`, in order.
pub fn parse_call_site_items(data: &[u8], data_off: u32, csi: &[u32], fd: &DexFileData) -> (r: Result<
    Vec<CallSiteItem>,
    DexParserError,
>)
    ensures
        match r {
            Ok(v) => first_fault(call_site_checks(data@, csi@, *fd, data_off as int)) is Ok
                && v@.len() == csi@.len() && forall|i: int|
                0 <= i < v@.len() ==> call_site_matches(
                    data@,
                    csi@[i] - data_off,
                    *fd,
                    #[trigger] v@[i],
                ),
            Err(e) => first_fault(call_site_checks(data@, csi@, *fd, data_off as int)) == Err::<
                (),
                Fault,
            >(e.fault()),
        },
{
    let ghost checks = call_site_checks(data@, csi@, *fd, data_off as int);
    let mut v: Vec<CallSiteItem> = Vec::new();
    let mut i: usize = 0;
    while i < csi.len()
        invariant
            checks == call_site_checks(data@, csi@, *fd, data_off as int),
            i <= csi@.len(),
            first_fault(checks.take(i as int)) is Ok,
            v@.len() == i,
            forall|j: int|
                0 <= j < i ==> call_site_matches(data@, csi@[j] - data_off, *fd, #[trigger] v@[j]),
        decreases csi@.len() - i,
    {
        proof {
            lemma_first_fault_step(checks, i as int);
        }
        match transform_call_site(data, csi[i], data_off, fd) {
            Ok(c) => {
                v.push(c);
            },
            Err(e) => {
                proof {
                    lemma_first_fault_stays(checks, i + 1);
                }
                return Err(e);
            },
        }
        i = i + 1;
    }
    proof {
        lemma_first_fault_all(checks, i as int);
    }
    Ok(v)
}

} // verus!
