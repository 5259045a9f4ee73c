//! Items of the data blob whose layout is variable: class data, code,
//! catch handlers and debug information, and the file header.
use crate::error::{DexParserError, Fault};
use crate::primitives::{
    first_zero, leb_span, read_u16_at, read_u32_at, sleb_value, span, take_bytes, take_sleb128,
    take_uleb128, take_until_null_and_consume, u16_at, u32_at, uleb_value, Endianness,
};
use crate::raw::{parse_u16_list, records_span};
use crate::raw_types::{
    RawClassDataItem, RawCodeItem, RawDebugInfoItem, RawEncodedCatchHandler, RawEncodedField,
    RawEncodedMethod, RawEncodedTypeAddrPair, RawHeader, RawTryItem,
};
use vstd::prelude::*;

verus! {

/// The size of the file header in bytes.
pub const HEADER_SIZE: usize = 112;

/// The magic that starts a file: "dex\n".
pub open spec fn has_magic(s: Seq<u8>) -> bool {
    s.len() >= 4 && s[0] == 0x64 && s[1] == 0x65 && s[2] == 0x78 && s[3] == 0x0A
}

/// `h` holds the header fields of `s`, read in byte order `e`.
pub open spec fn header_at(s: Seq<u8>, e: Endianness, h: RawHeader) -> bool {
    &&& h.version@ == s.subrange(4, 8)
    &&& h.checksum == u32_at(s, 8, e)
    &&& h.signature@ == s.subrange(12, 32)
    &&& h.file_size == u32_at(s, 32, e)
    &&& h.header_size == u32_at(s, 36, e)
    &&& h.endian_tag == u32_at(s, 40, e)
    &&& h.link_size == u32_at(s, 44, e)
    &&& h.link_off == u32_at(s, 48, e)
    &&& h.map_off == u32_at(s, 52, e)
    &&& h.string_ids_size == u32_at(s, 56, e)
    &&& h.string_ids_off == u32_at(s, 60, e)
    &&& h.type_ids_size == u32_at(s, 64, e)
    &&& h.type_ids_off == u32_at(s, 68, e)
    &&& h.proto_ids_size == u32_at(s, 72, e)
    &&& h.proto_ids_off == u32_at(s, 76, e)
    &&& h.field_ids_size == u32_at(s, 80, e)
    &&& h.field_ids_off == u32_at(s, 84, e)
    &&& h.method_ids_size == u32_at(s, 88, e)
    &&& h.method_ids_off == u32_at(s, 92, e)
    &&& h.class_defs_size == u32_at(s, 96, e)
    &&& h.class_defs_off == u32_at(s, 100, e)
    &&& h.data_size == u32_at(s, 104, e)
    &&& h.data_off == u32_at(s, 108, e)
}

/// Reads the header at the start of `input`; the checksum and signature are
/// kept as stored, not checked.
pub fn parse_header(input: &[u8], e: Endianness) -> (r: Result<RawHeader, DexParserError>)
    ensures
        match r {
            Ok(h) => input@.len() >= HEADER_SIZE && has_magic(input@) && header_at(input@, e, h),
            Err(err) => if input@.len() < HEADER_SIZE {
                err.fault() == Fault::EndedEarly(HEADER_SIZE)
            } else {
                !has_magic(input@) && err.fault() == Fault::Malformed
            },
        },
{
    if input.len() < HEADER_SIZE {
        return Err(DexParserError::EndedEarly { needed: HEADER_SIZE });
    }
    if !(input[0] == 0x64 && input[1] == 0x65 && input[2] == 0x78 && input[3] == 0x0A) {
        return Err(DexParserError::malformed("missing file magic"));
    }
    let (version, _) = take_bytes(input, 4, 4)?;
    let (signature, _) = take_bytes(input, 12, 20)?;
    Ok(
        RawHeader {
            version,
            checksum: read_u32_at(input, 8, e),
            signature,
            file_size: read_u32_at(input, 32, e),
            header_size: read_u32_at(input, 36, e),
            endian_tag: read_u32_at(input, 40, e),
            link_size: read_u32_at(input, 44, e),
            link_off: read_u32_at(input, 48, e),
            map_off: read_u32_at(input, 52, e),
            string_ids_size: read_u32_at(input, 56, e),
            string_ids_off: read_u32_at(input, 60, e),
            type_ids_size: read_u32_at(input, 64, e),
            type_ids_off: read_u32_at(input, 68, e),
            proto_ids_size: read_u32_at(input, 72, e),
            proto_ids_off: read_u32_at(input, 76, e),
            field_ids_size: read_u32_at(input, 80, e),
            field_ids_off: read_u32_at(input, 84, e),
            method_ids_size: read_u32_at(input, 88, e),
            method_ids_off: read_u32_at(input, 92, e),
            class_defs_size: read_u32_at(input, 96, e),
            class_defs_off: read_u32_at(input, 100, e),
            data_size: read_u32_at(input, 104, e),
            data_off: read_u32_at(input, 108, e),
        },
    )
}

/// Where `k` unsigned LEB128 values in a row from `pos` end.
pub open spec fn lebs_span(s: Seq<u8>, pos: int, k: nat) -> Result<int, Fault>
    decreases k,
{
    if k == 0 {
        Ok(pos)
    } else {
        match lebs_span(s, pos, (k - 1) as nat) {
            Ok(q) => leb_span(s, q),
            Err(f) => Err(f),
        }
    }
}

/// The value of the `k`-th of the unsigned LEB128 values in a row from `pos`.
pub open spec fn leb_nth(s: Seq<u8>, pos: int, k: int) -> int {
    uleb_value(s, lebs_span(s, pos, k as nat)->Ok_0)
}

proof fn lemma_lebs_stay_err(s: Seq<u8>, pos: int, k: nat, n: nat)
    requires
        k <= n,
        lebs_span(s, pos, k) is Err,
    ensures
        lebs_span(s, pos, n) == lebs_span(s, pos, k),
    decreases n,
{
    if n > k {
        lemma_lebs_stay_err(s, pos, k, (n - 1) as nat);
    }
}

/// Reads `k` unsigned LEB128 values in a row.
pub fn take_ulebs(input: &[u8], pos: usize, k: u64) -> (r: Result<(Vec<u32>, usize), DexParserError>)
    requires
        pos <= input@.len(),
    ensures
        match r {
            Ok((v, p)) => lebs_span(input@, pos as int, k as nat) == Ok::<int, Fault>(p as int) && p
                <= input@.len() && v@.len() == k && forall|i: int|
                0 <= i < k ==> #[trigger] v@[i] == leb_nth(input@, pos as int, i),
            Err(err) => lebs_span(input@, pos as int, k as nat) == Err::<int, Fault>(err.fault()),
        },
{
    let mut v: Vec<u32> = Vec::new();
    let mut p = pos;
    let mut i: u64 = 0;
    while i < k
        invariant
            i <= k,
            p <= input@.len(),
            lebs_span(input@, pos as int, i as nat) == Ok::<int, Fault>(p as int),
            v@.len() == i,
            forall|j: int| 0 <= j < i ==> #[trigger] v@[j] == leb_nth(input@, pos as int, j),
        decreases k - i,
    {
        match take_uleb128(input, p) {
            Ok((x, q)) => {
                v.push(x);
                p = q;
                i = i + 1;
            },
            Err(err) => {
                proof {
                    lemma_lebs_stay_err(input@, pos as int, (i + 1) as nat, k as nat);
                }
                return Err(err);
            },
        }
    }
    Ok((v, p))
}

/// The number of LEB128 values after the four counts of a class data item.
pub open spec fn class_data_len(s: Seq<u8>, pos: int) -> int {
    2 * leb_nth(s, pos, 0) + 2 * leb_nth(s, pos, 1) + 3 * leb_nth(s, pos, 2) + 3 * leb_nth(
        s,
        pos,
        3,
    )
}

/// Where the class data item at `pos` ends.
pub open spec fn class_data_span(s: Seq<u8>, pos: int) -> Result<int, Fault> {
    match lebs_span(s, pos, 4) {
        Err(f) => Err(f),
        Ok(p4) => lebs_span(s, p4, class_data_len(s, pos) as nat),
    }
}

/// `c` is the class data item at `pos`: four counts, then the encoded
/// fields (two values each) and methods (three values each) they count.
pub open spec fn class_data_at(s: Seq<u8>, pos: int, c: RawClassDataItem) -> bool {
    let p4 = lebs_span(s, pos, 4)->Ok_0;
    let n0 = leb_nth(s, pos, 0);
    let n1 = leb_nth(s, pos, 1);
    let n2 = leb_nth(s, pos, 2);
    let n3 = leb_nth(s, pos, 3);
    &&& c.static_fields_size == n0 && c.instance_fields_size == n1
    &&& c.direct_methods_size == n2 && c.virtual_methods_size == n3
    &&& c.static_fields@.len() == n0 && c.instance_fields@.len() == n1
    &&& c.direct_methods@.len() == n2 && c.virtual_methods@.len() == n3
    &&& forall|i: int|
        #![trigger c.static_fields@[i]]
        0 <= i < n0 ==> c.static_fields@[i].field_idx_diff == leb_nth(s, p4, 2 * i)
            && c.static_fields@[i].access_flags == leb_nth(s, p4, 2 * i + 1)
    &&& forall|i: int|
        #![trigger c.instance_fields@[i]]
        0 <= i < n1 ==> c.instance_fields@[i].field_idx_diff == leb_nth(s, p4, 2 * n0 + 2 * i)
            && c.instance_fields@[i].access_flags == leb_nth(s, p4, 2 * n0 + 2 * i + 1)
    &&& forall|i: int|
        #![trigger c.direct_methods@[i]]
        0 <= i < n2 ==> {
            let b = 2 * n0 + 2 * n1 + 3 * i;
            &&& c.direct_methods@[i].method_idx_diff == leb_nth(s, p4, b)
            &&& c.direct_methods@[i].access_flags == leb_nth(s, p4, b + 1)
            &&& c.direct_methods@[i].code_off == leb_nth(s, p4, b + 2)
        }
    &&& forall|i: int|
        #![trigger c.virtual_methods@[i]]
        0 <= i < n3 ==> {
            let b = 2 * n0 + 2 * n1 + 3 * n2 + 3 * i;
            &&& c.virtual_methods@[i].method_idx_diff == leb_nth(s, p4, b)
            &&& c.virtual_methods@[i].access_flags == leb_nth(s, p4, b + 1)
            &&& c.virtual_methods@[i].code_off == leb_nth(s, p4, b + 2)
        }
}

fn fields_from(flat: &Vec<u32>, base: u64, n: u32) -> (r: Vec<RawEncodedField>)
    requires
        base + 2 * n <= flat@.len(),
    ensures
        r@.len() == n,
        forall|i: int|
            #![trigger r@[i]]
            0 <= i < n ==> r@[i].field_idx_diff == flat@[base + 2 * i] && r@[i].access_flags
                == flat@[base + 2 * i + 1],
{
    let mut r: Vec<RawEncodedField> = Vec::new();
    let mut i: u32 = 0;
    while i < n
        invariant
            i <= n,
            base + 2 * n <= flat@.len(),
            base + 2 * n <= flat.len(),
            r@.len() == i,
            forall|j: int|
                #![trigger r@[j]]
                0 <= j < i ==> r@[j].field_idx_diff == flat@[base + 2 * j] && r@[j].access_flags
                    == flat@[base + 2 * j + 1],
        decreases n - i,
    {
        let k = (base + 2 * (i as u64)) as usize;
        r.push(RawEncodedField { field_idx_diff: flat[k], access_flags: flat[k + 1] });
        i = i + 1;
    }
    r
}

fn methods_from(flat: &Vec<u32>, base: u64, n: u32) -> (r: Vec<RawEncodedMethod>)
    requires
        base + 3 * n <= flat@.len(),
    ensures
        r@.len() == n,
        forall|i: int|
            #![trigger r@[i]]
            0 <= i < n ==> r@[i].method_idx_diff == flat@[base + 3 * i] && r@[i].access_flags
                == flat@[base + 3 * i + 1] && r@[i].code_off == flat@[base + 3 * i + 2],
{
    let mut r: Vec<RawEncodedMethod> = Vec::new();
    let mut i: u32 = 0;
    while i < n
        invariant
            i <= n,
            base + 3 * n <= flat@.len(),
            base + 3 * n <= flat.len(),
            r@.len() == i,
            forall|j: int|
                #![trigger r@[j]]
                0 <= j < i ==> r@[j].method_idx_diff == flat@[base + 3 * j] && r@[j].access_flags
                    == flat@[base + 3 * j + 1] && r@[j].code_off == flat@[base + 3 * j + 2],
        decreases n - i,
    {
        let k = (base + 3 * (i as u64)) as usize;
        r.push(
            RawEncodedMethod {
                method_idx_diff: flat[k],
                access_flags: flat[k + 1],
                code_off: flat[k + 2],
            },
        );
        i = i + 1;
    }
    r
}

/// Reads a class data item: four counts, then the encoded fields and
/// methods they count, their indices still differences.
pub fn parse_class_data_item(input: &[u8], pos: usize) -> (r: Result<
    RawClassDataItem,
    DexParserError,
>)
    requires
        pos <= input@.len(),
    ensures
        match r {
            Ok(c) => class_data_span(input@, pos as int) is Ok && class_data_at(
                input@,
                pos as int,
                c,
            ),
            Err(err) => class_data_span(input@, pos as int) == Err::<int, Fault>(err.fault()),
        },
{
    let (counts, p4) = take_ulebs(input, pos, 4)?;
    let n0 = counts[0];
    let n1 = counts[1];
    let n2 = counts[2];
    let n3 = counts[3];
    let total: u64 = 2 * (n0 as u64) + 2 * (n1 as u64) + 3 * (n2 as u64) + 3 * (n3 as u64);
    let (flat, _) = take_ulebs(input, p4, total)?;
    let static_fields = fields_from(&flat, 0, n0);
    let instance_fields = fields_from(&flat, 2 * (n0 as u64), n1);
    let direct_methods = methods_from(&flat, 2 * (n0 as u64) + 2 * (n1 as u64), n2);
    let virtual_methods = methods_from(
        &flat,
        2 * (n0 as u64) + 2 * (n1 as u64) + 3 * (n2 as u64),
        n3,
    );
    Ok(
        RawClassDataItem {
            static_fields_size: n0,
            instance_fields_size: n1,
            direct_methods_size: n2,
            virtual_methods_size: n3,
            static_fields,
            instance_fields,
            direct_methods,
            virtual_methods,
        },
    )
}

/// The number of type/address pairs of a catch handler whose size is `sz`.
pub open spec fn pair_count(sz: int) -> nat {
    if sz < 0 {
        (-sz) as nat
    } else {
        sz as nat
    }
}

/// Where the catch handler at `pos` ends: a signed size, that many pairs,
/// and a catch-all address where the size is not positive.
pub open spec fn catch_handler_span(s: Seq<u8>, pos: int) -> Result<int, Fault> {
    match leb_span(s, pos) {
        Err(f) => Err(f),
        Ok(p1) => {
            let sz = sleb_value(s, pos);
            match lebs_span(s, p1, 2 * pair_count(sz)) {
                Err(f) => Err(f),
                Ok(p2) => if sz <= 0 {
                    leb_span(s, p2)
                } else {
                    Ok(p2)
                },
            }
        },
    }
}

/// `h` is the catch handler at `pos`, its type indices not yet resolved.
#[verifier::opaque]
pub open spec fn catch_handler_at(s: Seq<u8>, pos: int, h: RawEncodedCatchHandler) -> bool {
    let p1 = leb_span(s, pos)->Ok_0;
    let sz = sleb_value(s, pos);
    let n = pair_count(sz);
    let p2 = lebs_span(s, p1, 2 * n)->Ok_0;
    &&& h.size == sz
    &&& h.handlers@.len() == n
    &&& forall|i: int|
        #![trigger h.handlers@[i]]
        0 <= i < n ==> h.handlers@[i].type_idx == leb_nth(s, p1, 2 * i) && h.handlers@[i].addr
            == leb_nth(s, p1, 2 * i + 1)
    &&& (h.catch_all_addr is Some <==> sz <= 0)
    &&& (sz <= 0 ==> h.catch_all_addr == Some(uleb_value(s, p2) as u32))
}

/// Reads a catch handler: a signed size, that many type/address pairs, and
/// a catch-all address where the size is not positive.
pub fn parse_encoded_catch_handler(input: &[u8], pos: usize) -> (r: Result<
    (RawEncodedCatchHandler, usize),
    DexParserError,
>)
    requires
        pos <= input@.len(),
    ensures
        match r {
            Ok((h, p)) => catch_handler_span(input@, pos as int) == Ok::<int, Fault>(p as int) && p
                <= input@.len() && catch_handler_at(input@, pos as int, h),
            Err(err) => catch_handler_span(input@, pos as int) == Err::<int, Fault>(err.fault()),
        },
{
    let (size, p1) = take_sleb128(input, pos)?;
    let n: u64 = if size < 0 {
        (-(size as i64)) as u64
    } else {
        size as u64
    };
    let (flat, p2) = take_ulebs(input, p1, 2 * n)?;
    let mut handlers: Vec<RawEncodedTypeAddrPair> = Vec::new();
    let mut i: u64 = 0;
    while i < n
        invariant
            i <= n,
            n == pair_count(size as int),
            flat@.len() == 2 * n,
            2 * n <= flat.len(),
            handlers@.len() == i,
            forall|j: int|
                #![trigger handlers@[j]]
                0 <= j < i ==> handlers@[j].type_idx == flat@[2 * j] && handlers@[j].addr
                    == flat@[2 * j + 1],
        decreases n - i,
    {
        let k = (2 * i) as usize;
        handlers.push(RawEncodedTypeAddrPair { type_idx: flat[k], addr: flat[k + 1] });
        i = i + 1;
    }
    proof {
        reveal(catch_handler_at);
    }
    if size <= 0 {
        let (all, p3) = take_uleb128(input, p2)?;
        Ok((RawEncodedCatchHandler { size, handlers, catch_all_addr: Some(all) }, p3))
    } else {
        Ok((RawEncodedCatchHandler { size, handlers, catch_all_addr: None }, p2))
    }
}

/// Where `n` catch handlers in a row from `pos` end.
pub open spec fn catch_handlers_span(s: Seq<u8>, pos: int, n: nat) -> Result<int, Fault>
    decreases n,
{
    if n == 0 {
        Ok(pos)
    } else {
        match catch_handlers_span(s, pos, (n - 1) as nat) {
            Ok(q) => catch_handler_span(s, q),
            Err(f) => Err(f),
        }
    }
}

proof fn lemma_catch_handlers_stay_err(s: Seq<u8>, pos: int, k: nat, n: nat)
    requires
        k <= n,
        catch_handlers_span(s, pos, k) is Err,
    ensures
        catch_handlers_span(s, pos, n) == catch_handlers_span(s, pos, k),
    decreases n,
{
    if n > k {
        lemma_catch_handlers_stay_err(s, pos, k, (n - 1) as nat);
    }
}

/// Where the catch handler list at `pos` ends: a count, then that many handlers.
pub open spec fn catch_handler_list_span(s: Seq<u8>, pos: int) -> Result<int, Fault> {
    match leb_span(s, pos) {
        Err(f) => Err(f),
        Ok(p1) => catch_handlers_span(s, p1, uleb_value(s, pos) as nat),
    }
}

/// Reads a catch handler list: a count, then that many handlers.
pub fn parse_encoded_catch_handler_list(input: &[u8], pos: usize) -> (r: Result<
    Vec<RawEncodedCatchHandler>,
    DexParserError,
>)
    requires
        pos <= input@.len(),
    ensures
        match r {
            Ok(v) => {
                let p1 = leb_span(input@, pos as int)->Ok_0;
                &&& catch_handler_list_span(input@, pos as int) is Ok
                &&& v@.len() == uleb_value(input@, pos as int)
                &&& forall|i: int|
                    0 <= i < v@.len() ==> catch_handler_at(
                        input@,
                        catch_handlers_span(input@, p1, i as nat)->Ok_0,
                        #[trigger] v@[i],
                    )
            },
            Err(err) => catch_handler_list_span(input@, pos as int) == Err::<int, Fault>(
                err.fault(),
            ),
        },
{
    let (n, p1) = take_uleb128(input, pos)?;
    let mut v: Vec<RawEncodedCatchHandler> = Vec::new();
    let mut p = p1;
    let mut i: u32 = 0;
    while i < n
        invariant
            catch_handler_list_span(input@, pos as int) == catch_handlers_span(
                input@,
                p1 as int,
                n as nat,
            ),
            leb_span(input@, pos as int) == Ok::<int, Fault>(p1 as int),
            n == uleb_value(input@, pos as int),
            i <= n,
            p <= input@.len(),
            catch_handlers_span(input@, p1 as int, i as nat) == Ok::<int, Fault>(p as int),
            v@.len() == i,
            forall|j: int|
                0 <= j < i ==> catch_handler_at(
                    input@,
                    catch_handlers_span(input@, p1 as int, j as nat)->Ok_0,
                    #[trigger] v@[j],
                ),
        decreases n - i,
    {
        match parse_encoded_catch_handler(input, p) {
            Ok((h, q)) => {
                v.push(h);
                p = q;
                i = i + 1;
            },
            Err(err) => {
                proof {
                    lemma_catch_handlers_stay_err(input@, p1 as int, (i + 1) as nat, n as nat);
                }
                return Err(err);
            },
        }
    }
    Ok(v)
}

/// Where the debug info item at `pos` ends: two counts, the parameter names,
/// then opcode bytes up to a zero byte.
pub open spec fn debug_info_span(s: Seq<u8>, pos: int) -> Result<int, Fault> {
    match lebs_span(s, pos, 2) {
        Err(f) => Err(f),
        Ok(p2) => match lebs_span(s, p2, leb_nth(s, pos, 1) as nat) {
            Err(f) => Err(f),
            Ok(p3) => match first_zero(s, p3) {
                None => Err(Fault::EndedEarly(1)),
                Some(z) => Ok(z + 1),
            },
        },
    }
}

/// `d` is the debug info item at `pos`.
pub open spec fn debug_info_at(s: Seq<u8>, pos: int, d: RawDebugInfoItem) -> bool {
    let p2 = lebs_span(s, pos, 2)->Ok_0;
    let n = leb_nth(s, pos, 1);
    let p3 = lebs_span(s, p2, n as nat)->Ok_0;
    &&& d.line_start == leb_nth(s, pos, 0)
    &&& d.parameters_size == n
    &&& d.parameter_names@.len() == n
    &&& forall|i: int|
        0 <= i < n ==> #[trigger] d.parameter_names@[i] == (leb_nth(s, p2, i) + 0xFFFF_FFFF)
            % 0x1_0000_0000
    &&& d.bytecode@ == s.subrange(p3, first_zero(s, p3)->Some_0)
}

/// Reads a debug info item: the first line, the parameter names (string
/// indices plus one, zero for none), then the opcode bytes up to a zero byte.
pub fn parse_debug_info_item(input: &[u8], pos: usize) -> (r: Result<
    RawDebugInfoItem,
    DexParserError,
>)
    requires
        pos <= input@.len(),
    ensures
        match r {
            Ok(d) => debug_info_span(input@, pos as int) is Ok && debug_info_at(
                input@,
                pos as int,
                d,
            ),
            Err(err) => debug_info_span(input@, pos as int) == Err::<int, Fault>(err.fault()),
        },
{
    let (head, p2) = take_ulebs(input, pos, 2)?;
    let line_start = head[0];
    let parameters_size = head[1];
    let (raw_names, p3) = take_ulebs(input, p2, parameters_size as u64)?;
    let mut parameter_names: Vec<u32> = Vec::new();
    let mut i: usize = 0;
    while i < raw_names.len()
        invariant
            i <= raw_names@.len(),
            parameter_names@.len() == i,
            forall|j: int|
                0 <= j < i ==> #[trigger] parameter_names@[j] == (raw_names@[j] + 0xFFFF_FFFF)
                    % 0x1_0000_0000,
        decreases raw_names@.len() - i,
    {
        parameter_names.push(raw_names[i].wrapping_sub(1));
        i = i + 1;
    }
    let (bytecode, _) = take_until_null_and_consume(input, p3)?;
    Ok(RawDebugInfoItem { line_start, parameters_size, parameter_names, bytecode })
}

/// Whether a code item has a padding unit between its instructions and its
/// try items.
pub open spec fn has_padding(tries_size: int, insns_size: int) -> bool {
    tries_size != 0 && insns_size % 2 == 1
}

/// Where the code item at `pos` ends (which is where its handler list
/// begins, when it has try items).
pub open spec fn code_span(s: Seq<u8>, pos: int, e: Endianness) -> Result<int, Fault> {
    let tries = u16_at(s, pos + 6, e);
    let insns = u32_at(s, pos + 12, e);
    match span(s.len() as int, pos, 16) {
        Err(f) => Err(f),
        Ok(p1) => match records_span(s.len() as int, p1, insns, 2) {
            Err(f) => Err(f),
            Ok(p2) => match (if has_padding(tries, insns) {
                span(s.len() as int, p2, 2)
            } else {
                Ok(p2)
            }) {
                Err(f) => Err(f),
                Ok(p3) => records_span(s.len() as int, p3, tries, 8),
            },
        },
    }
}

/// `c` is the code item at `pos`.
#[verifier::opaque]
pub open spec fn code_at(s: Seq<u8>, pos: int, e: Endianness, c: RawCodeItem) -> bool {
    let tries = u16_at(s, pos + 6, e);
    let insns = u32_at(s, pos + 12, e);
    let p3 = pos + 16 + 2 * insns + if has_padding(tries, insns) {
        2int
    } else {
        0int
    };
    &&& c.registers_size == u16_at(s, pos, e)
    &&& c.ins_size == u16_at(s, pos + 2, e)
    &&& c.outs_size == u16_at(s, pos + 4, e)
    &&& c.tries_size == tries
    &&& c.debug_info_off == u32_at(s, pos + 8, e)
    &&& c.insns_size == insns
    &&& c.insns@.len() == insns
    &&& forall|i: int| 0 <= i < insns ==> #[trigger] c.insns@[i] == u16_at(s, pos + 16 + 2 * i, e)
    &&& (c.padding is Some <==> has_padding(tries, insns))
    &&& (c.tries is Some <==> tries != 0)
    &&& (c.tries is Some ==> {
        let t = c.tries->Some_0@;
        &&& t.len() == tries
        &&& forall|i: int|
            #![trigger t[i]]
            0 <= i < tries ==> t[i].start_addr == u32_at(s, p3 + 8 * i, e) && t[i].insn_count
                == u16_at(s, p3 + 8 * i + 4, e) && t[i].handler_off == u16_at(s, p3 + 8 * i + 6, e)
    })
}

fn parse_try_items(input: &[u8], pos: usize, n: u16, e: Endianness) -> (r: Result<
    (Vec<RawTryItem>, usize),
    DexParserError,
>)
    requires
        pos <= input@.len(),
    ensures
        match r {
            Ok((v, p)) => records_span(input@.len() as int, pos as int, n as int, 8) == Ok::<
                int,
                Fault,
            >(p as int) && v@.len() == n && forall|i: int|
                #![trigger v@[i]]
                0 <= i < n ==> v@[i].start_addr == u32_at(input@, pos + 8 * i, e)
                    && v@[i].insn_count == u16_at(input@, pos + 8 * i + 4, e) && v@[i].handler_off
                    == u16_at(input@, pos + 8 * i + 6, e),
            Err(err) => records_span(input@.len() as int, pos as int, n as int, 8) == Err::<
                int,
                Fault,
            >(err.fault()),
        },
{
    let mut v: Vec<RawTryItem> = Vec::new();
    let mut p = pos;
    let mut i: u16 = 0;
    while i < n
        invariant
            i <= n,
            p == pos + 8 * i,
            p <= input@.len(),
            v@.len() == i,
            forall|j: int|
                #![trigger v@[j]]
                0 <= j < i ==> v@[j].start_addr == u32_at(input@, pos + 8 * j, e)
                    && v@[j].insn_count == u16_at(input@, pos + 8 * j + 4, e) && v@[j].handler_off
                    == u16_at(input@, pos + 8 * j + 6, e),
        decreases n - i,
    {
        if input.len() - p < 8 {
            return Err(DexParserError::EndedEarly { needed: 8 });
        }
        v.push(
            RawTryItem {
                start_addr: read_u32_at(input, p, e),
                insn_count: read_u16_at(input, p + 4, e),
                handler_off: read_u16_at(input, p + 6, e),
            },
        );
        p = p + 8;
        i = i + 1;
    }
    Ok((v, p))
}

/// Reads a code item up to its handler list, and returns where that list
/// begins.
pub fn parse_code_item(input: &[u8], pos: usize, e: Endianness) -> (r: Result<
    (RawCodeItem, usize),
    DexParserError,
>)
    requires
        pos <= input@.len(),
    ensures
        match r {
            Ok((c, p)) => code_span(input@, pos as int, e) == Ok::<int, Fault>(p as int) && p
                <= input@.len() && code_at(input@, pos as int, e, c),
            Err(err) => code_span(input@, pos as int, e) == Err::<int, Fault>(err.fault()),
        },
{
    if input.len() - pos < 16 {
        return Err(DexParserError::EndedEarly { needed: 16 });
    }
    let registers_size = read_u16_at(input, pos, e);
    let ins_size = read_u16_at(input, pos + 2, e);
    let outs_size = read_u16_at(input, pos + 4, e);
    let tries_size = read_u16_at(input, pos + 6, e);
    let debug_info_off = read_u32_at(input, pos + 8, e);
    let insns_size = read_u32_at(input, pos + 12, e);
    let (insns, p2) = parse_u16_list(input, pos + 16, insns_size, e)?;
    let mut p3 = p2;
    let mut padding: Option<u16> = None;
    if tries_size != 0 && insns_size % 2 == 1 {
        if input.len() - p2 < 2 {
            return Err(DexParserError::EndedEarly { needed: 2 });
        }
        padding = Some(read_u16_at(input, p2, e));
        p3 = p2 + 2;
    }
    let (try_list, p4) = parse_try_items(input, p3, tries_size, e)?;
    proof {
        reveal(code_at);
    }
    let tries = if tries_size != 0 {
        Some(try_list)
    } else {
        None
    };
    Ok(
        (
            RawCodeItem {
                registers_size,
                ins_size,
                outs_size,
                tries_size,
                debug_info_off,
                insns_size,
                insns,
                padding,
                tries,
            },
            p4,
        ),
    )
}

/// Reads one encoded field: an index difference, then access flags.
pub fn parse_encoded_field(input: &[u8], pos: usize) -> (r: Result<
    (RawEncodedField, usize),
    DexParserError,
>)
    requires
        pos <= input@.len(),
    ensures
        match r {
            Ok((f, p)) => lebs_span(input@, pos as int, 2) == Ok::<int, Fault>(p as int)
                && f.field_idx_diff == leb_nth(input@, pos as int, 0) && f.access_flags == leb_nth(
                input@,
                pos as int,
                1,
            ),
            Err(err) => lebs_span(input@, pos as int, 2) == Err::<int, Fault>(err.fault()),
        },
{
    let (v, p) = take_ulebs(input, pos, 2)?;
    Ok((RawEncodedField { field_idx_diff: v[0], access_flags: v[1] }, p))
}

/// Reads one encoded method: an index difference, access flags, then the
/// offset of its code.
pub fn parse_encoded_method(input: &[u8], pos: usize) -> (r: Result<
    (RawEncodedMethod, usize),
    DexParserError,
>)
    requires
        pos <= input@.len(),
    ensures
        match r {
            Ok((m, p)) => lebs_span(input@, pos as int, 3) == Ok::<int, Fault>(p as int)
                && m.method_idx_diff == leb_nth(input@, pos as int, 0) && m.access_flags == leb_nth(
                input@,
                pos as int,
                1,
            ) && m.code_off == leb_nth(input@, pos as int, 2),
            Err(err) => lebs_span(input@, pos as int, 3) == Err::<int, Fault>(err.fault()),
        },
{
    let (v, p) = take_ulebs(input, pos, 3)?;
    Ok((RawEncodedMethod { method_idx_diff: v[0], access_flags: v[1], code_off: v[2] }, p))
}

} // verus!
