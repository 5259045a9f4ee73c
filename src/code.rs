//! Method bodies: code items with their debug info, try items and catch
//! handlers, resolved against the type pool.
use crate::error::{
    first_fault, lemma_first_fault_all, lemma_first_fault_stays, lemma_first_fault_step,
    DexParserError, Fault,
};
use crate::items::{
    catch_handler_at, catch_handler_list_span, catch_handler_span, catch_handlers_span, code_at,
    code_span, debug_info_span, leb_nth, lebs_span, pair_count, parse_code_item,
    parse_debug_info_item, parse_encoded_catch_handler, parse_encoded_catch_handler_list,
};
use crate::primitives::{first_zero, leb_span, sleb_value, u16_at, u32_at, uleb_value, Endianness};
use crate::raw_types::{RawEncodedCatchHandler, RawTryItem};
use crate::resolve::{blob_pos, locate};
use crate::result_types::{
    debug_opcode_of, Code, DebugInfo, DebugItemBytecodes, EncodedCatchHandler,
    EncodedTypeAddrPair, TryItem, TypeIdentifier,
};
use std::rc::Rc;
use vstd::prelude::*;

verus! {

/// `h` is the raw handler `raw` with its exception types resolved in `ti`.
pub open spec fn handler_matches(
    raw: RawEncodedCatchHandler,
    ti: Seq<Rc<TypeIdentifier>>,
    h: EncodedCatchHandler,
) -> bool {
    &&& h.catch_all_addr == raw.catch_all_addr
    &&& h.handlers@.len() == raw.handlers@.len()
    &&& forall|i: int|
        #![trigger h.handlers@[i]]
        #![trigger raw.handlers@[i]]
        0 <= i < raw.handlers@.len() ==> raw.handlers@[i].type_idx < ti.len()
            && h.handlers@[i].type_ == ti[raw.handlers@[i].type_idx as int] && h.handlers@[i].addr
            == raw.handlers@[i].addr
}

/// Resolves the exception types of a catch handler.
pub fn transform_encoded_catch_handler(
    raw: &RawEncodedCatchHandler,
    ti: &Vec<Rc<TypeIdentifier>>,
) -> (r: Result<EncodedCatchHandler, DexParserError>)
    ensures
        match r {
            Ok(h) => handler_matches(*raw, ti@, h),
            Err(e) => e.fault() == Fault::Malformed && exists|i: int|
                0 <= i < raw.handlers@.len() && raw.handlers@[i].type_idx >= ti@.len(),
        },
{
    let mut handlers: Vec<EncodedTypeAddrPair> = Vec::new();
    let mut i: usize = 0;
    while i < raw.handlers.len()
        invariant
            i <= raw.handlers@.len(),
            handlers@.len() == i,
            forall|j: int|
                #![trigger handlers@[j]]
                #![trigger raw.handlers@[j]]
                0 <= j < i ==> raw.handlers@[j].type_idx < ti@.len() && handlers@[j].type_
                    == ti@[raw.handlers@[j].type_idx as int] && handlers@[j].addr
                    == raw.handlers@[j].addr,
        decreases raw.handlers@.len() - i,
    {
        let pair = raw.handlers[i];
        if pair.type_idx as usize >= ti.len() {
            return Err(DexParserError::malformed("type index out of range"));
        }
        handlers.push(EncodedTypeAddrPair { type_: ti[pair.type_idx as usize].clone(), addr: pair.addr });
        i = i + 1;
    }
    Ok(EncodedCatchHandler { handlers, catch_all_addr: raw.catch_all_addr })
}

/// Whether the exception types of the catch handler at `q` all exist.
pub open spec fn handler_types_ok(s: Seq<u8>, q: int, ntypes: int) -> bool {
    let p1 = leb_span(s, q)->Ok_0;
    forall|i: int|
        0 <= i < pair_count(sleb_value(s, q)) ==> #[trigger] leb_nth(s, p1, 2 * i) < ntypes
}

/// Whether the catch handler at blob position `q` can be read and names
/// only types that exist.
pub open spec fn handler_check(s: Seq<u8>, q: int, ntypes: int) -> Result<(), Fault> {
    if q > s.len() {
        Err(Fault::Malformed)
    } else {
        match catch_handler_span(s, q) {
            Err(f) => Err(f),
            Ok(_) => if handler_types_ok(s, q, ntypes) {
                Ok(())
            } else {
                Err(Fault::Malformed)
            },
        }
    }
}

/// `h` is the catch handler at blob position `q`, resolved in `ti`.
#[verifier::opaque]
pub open spec fn handler_at(s: Seq<u8>, q: int, ti: Seq<Rc<TypeIdentifier>>, h: EncodedCatchHandler) -> bool {
    let p1 = leb_span(s, q)->Ok_0;
    let sz = sleb_value(s, q);
    let n = pair_count(sz);
    let p2 = lebs_span(s, p1, 2 * n)->Ok_0;
    &&& h.handlers@.len() == n
    &&& forall|i: int|
        #![trigger h.handlers@[i]]
        0 <= i < n ==> h.handlers@[i].type_ == ti[leb_nth(s, p1, 2 * i)] && h.handlers@[i].addr
            == leb_nth(s, p1, 2 * i + 1)
    &&& h.catch_all_addr == if sz <= 0 {
        Some(uleb_value(s, p2) as u32)
    } else {
        None
    }
}

proof fn lemma_handler_at(
    s: Seq<u8>,
    q: int,
    ti: Seq<Rc<TypeIdentifier>>,
    raw: RawEncodedCatchHandler,
    h: EncodedCatchHandler,
)
    requires
        catch_handler_at(s, q, raw),
        handler_matches(raw, ti, h),
    ensures
        handler_at(s, q, ti, h),
{
    reveal(catch_handler_at);
    reveal(handler_at);
    let p1 = leb_span(s, q)->Ok_0;
    assert forall|i: int| 0 <= i < h.handlers@.len() implies #[trigger] h.handlers@[i].type_
        == ti[leb_nth(s, p1, 2 * i)] && h.handlers@[i].addr == leb_nth(s, p1, 2 * i + 1) by {
        assert(raw.handlers@[i].type_idx == leb_nth(s, p1, 2 * i));
    }
}

/// Reads the catch handler at blob position `q` and resolves it.
fn handler_at_pos(data: &[u8], q: usize, ti: &Vec<Rc<TypeIdentifier>>) -> (r: Result<
    EncodedCatchHandler,
    DexParserError,
>)
    ensures
        match r {
            Ok(h) => handler_check(data@, q as int, ti@.len() as int) is Ok && handler_at(
                data@,
                q as int,
                ti@,
                h,
            ),
            Err(e) => handler_check(data@, q as int, ti@.len() as int) == Err::<(), Fault>(
                e.fault(),
            ),
        },
{
    if q > data.len() {
        return Err(DexParserError::malformed("handler offset outside the data blob"));
    }
    let (raw, _) = parse_encoded_catch_handler(data, q)?;
    resolve_handler(data, Ghost(q as int), &raw, ti)
}

/// `d` is the debug info item at blob position `q`, its opcode bytes decoded.
pub open spec fn debug_matches(s: Seq<u8>, q: int, d: DebugInfo) -> bool {
    let p2 = lebs_span(s, q, 2)->Ok_0;
    let n = leb_nth(s, q, 1);
    let p3 = lebs_span(s, p2, n as nat)->Ok_0;
    let bytes = s.subrange(p3, first_zero(s, p3)->Some_0);
    &&& d.line_start == leb_nth(s, q, 0)
    &&& d.parameter_names@.len() == n
    &&& forall|i: int|
        0 <= i < n ==> #[trigger] d.parameter_names@[i] == (leb_nth(s, p2, i) + 0xFFFF_FFFF)
            % 0x1_0000_0000
    &&& d.bytecode@.len() == bytes.len()
    &&& forall|i: int| 0 <= i < bytes.len() ==> #[trigger] d.bytecode@[i] == debug_opcode_of(bytes[i])
}

pub open spec fn debug_check(s: Seq<u8>, off: int, data_off: int) -> Result<(), Fault> {
    if off == 0 {
        Ok(())
    } else {
        match blob_pos(off, data_off, s.len() as int) {
            Err(f) => Err(f),
            Ok(q) => match debug_info_span(s, q) {
                Err(f) => Err(f),
                Ok(_) => Ok(()),
            },
        }
    }
}

/// Reads and decodes the debug info item at file offset `off`.
fn transform_debug_info(data: &[u8], off: u32, data_off: u32) -> (r: Result<
    DebugInfo,
    DexParserError,
>)
    requires
        off != 0,
    ensures
        match r {
            Ok(d) => debug_check(data@, off as int, data_off as int) is Ok && debug_matches(
                data@,
                off - data_off,
                d,
            ),
            Err(e) => debug_check(data@, off as int, data_off as int) == Err::<(), Fault>(
                e.fault(),
            ),
        },
{
    let q = locate(off, data_off, data.len())?;
    let rdi = parse_debug_info_item(data, q)?;
    let mut bytecode: Vec<DebugItemBytecodes> = Vec::new();
    let mut i: usize = 0;
    while i < rdi.bytecode.len()
        invariant
            i <= rdi.bytecode@.len(),
            bytecode@.len() == i,
            forall|j: int| 0 <= j < i ==> #[trigger] bytecode@[j] == debug_opcode_of(rdi.bytecode@[j]),
        decreases rdi.bytecode@.len() - i,
    {
        bytecode.push(DebugItemBytecodes::parse(rdi.bytecode[i]));
        i = i + 1;
    }
    Ok(DebugInfo { line_start: rdi.line_start, parameter_names: rdi.parameter_names, bytecode })
}

/// Whether the catch handler list at blob position `q` can be read and
/// names only types that exist.
pub open spec fn handler_list_check(s: Seq<u8>, q: int, ntypes: int) -> Result<(), Fault> {
    match catch_handler_list_span(s, q) {
        Err(f) => Err(f),
        Ok(_) => {
            let p1 = leb_span(s, q)->Ok_0;
            if forall|i: int|
                0 <= i < uleb_value(s, q) ==> #[trigger] handler_types_ok(
                    s,
                    catch_handlers_span(s, p1, i as nat)->Ok_0,
                    ntypes,
                ) {
                Ok(())
            } else {
                Err(Fault::Malformed)
            }
        },
    }
}

/// Resolves the raw catch handler read at blob position `pos`.
fn resolve_handler(
    data: &[u8],
    pos: Ghost<int>,
    raw: &RawEncodedCatchHandler,
    ti: &Vec<Rc<TypeIdentifier>>,
) -> (r: Result<EncodedCatchHandler, DexParserError>)
    requires
        catch_handler_at(data@, pos@, *raw),
    ensures
        match r {
            Ok(h) => handler_types_ok(data@, pos@, ti@.len() as int) && handler_at(
                data@,
                pos@,
                ti@,
                h,
            ),
            Err(e) => !handler_types_ok(data@, pos@, ti@.len() as int) && e.fault()
                == Fault::Malformed,
        },
{
    let ghost p1 = leb_span(data@, pos@)->Ok_0;
    proof {
        reveal(catch_handler_at);
    }
    match transform_encoded_catch_handler(raw, ti) {
        Ok(h) => {
            proof {
                lemma_handler_at(data@, pos@, ti@, *raw, h);
                assert forall|k: int|
                    0 <= k < pair_count(sleb_value(data@, pos@)) implies #[trigger] leb_nth(
                    data@,
                    p1,
                    2 * k,
                ) < ti@.len() by {
                    assert(raw.handlers@[k].type_idx == leb_nth(data@, p1, 2 * k));
                }
            }
            Ok(h)
        },
        Err(e) => {
            proof {
                let k = choose|k: int|
                    0 <= k < raw.handlers@.len() && raw.handlers@[k].type_idx >= ti@.len();
                assert(raw.handlers@[k].type_idx == leb_nth(data@, p1, 2 * k));
            }
            Err(e)
        },
    }
}

/// Reads the catch handler list at blob position `q` and resolves it.
#[verifier::rlimit(40)]
fn transform_handler_list(data: &[u8], q: usize, ti: &Vec<Rc<TypeIdentifier>>) -> (r: Result<
    Vec<EncodedCatchHandler>,
    DexParserError,
>)
    requires
        q <= data@.len(),
    ensures
        match r {
            Ok(v) => {
                let p1 = leb_span(data@, q as int)->Ok_0;
                &&& handler_list_check(data@, q as int, ti@.len() as int) is Ok
                &&& v@.len() == uleb_value(data@, q as int)
                &&& forall|i: int|
                    0 <= i < v@.len() ==> handler_at(
                        data@,
                        catch_handlers_span(data@, p1, i as nat)->Ok_0,
                        ti@,
                        #[trigger] v@[i],
                    )
            },
            Err(e) => handler_list_check(data@, q as int, ti@.len() as int) == Err::<(), Fault>(
                e.fault(),
            ),
        },
{
    let raws = parse_encoded_catch_handler_list(data, q)?;
    let ghost p1 = leb_span(data@, q as int)->Ok_0;
    let mut v: Vec<EncodedCatchHandler> = Vec::new();
    let mut i: usize = 0;
    while i < raws.len()
        invariant
            p1 == leb_span(data@, q as int)->Ok_0,
            catch_handler_list_span(data@, q as int) is Ok,
            raws@.len() == uleb_value(data@, q as int),
            forall|j: int|
                0 <= j < raws@.len() ==> catch_handler_at(
                    data@,
                    catch_handlers_span(data@, p1, j as nat)->Ok_0,
                    #[trigger] raws@[j],
                ),
            i <= raws@.len(),
            v@.len() == i,
            forall|j: int|
                0 <= j < i ==> #[trigger] handler_types_ok(
                    data@,
                    catch_handlers_span(data@, p1, j as nat)->Ok_0,
                    ti@.len() as int,
                ),
            forall|j: int|
                0 <= j < i ==> handler_at(
                    data@,
                    catch_handlers_span(data@, p1, j as nat)->Ok_0,
                    ti@,
                    #[trigger] v@[j],
                ),
        decreases raws@.len() - i,
    {
        let ghost pos_i = catch_handlers_span(data@, p1, i as nat)->Ok_0;
        match resolve_handler(data, Ghost(pos_i), &raws[i], ti) {
            Ok(h) => {
                v.push(h);
            },
            Err(e) => {
                proof {
                    assert(!handler_types_ok(data@, pos_i, ti@.len() as int));
                    assert(handler_list_check(data@, q as int, ti@.len() as int) == Err::<
                        (),
                        Fault,
                    >(Fault::Malformed));
                }
                return Err(e);
            },
        }
        i = i + 1;
    }
    Ok(v)
}

pub open spec fn try_handler_checks(
    s: Seq<u8>,
    origin: int,
    tries: int,
    ntypes: int,
    e: Endianness,
) -> Seq<Result<(), Fault>> {
    Seq::new(
        tries as nat,
        |i: int| handler_check(s, origin + u16_at(s, origin - 8 * tries + 8 * i + 6, e), ntypes),
    )
}

/// Whether the code item at blob position `q` can be read and resolved.
pub open spec fn code_check(s: Seq<u8>, q: int, ntypes: int, data_off: int, e: Endianness) -> Result<
    (),
    Fault,
> {
    match code_span(s, q, e) {
        Err(f) => Err(f),
        Ok(origin) => match debug_check(s, u32_at(s, q + 8, e), data_off) {
            Err(f) => Err(f),
            Ok(_) => {
                let tries = u16_at(s, q + 6, e);
                if tries == 0 {
                    Ok(())
                } else {
                    match first_fault(try_handler_checks(s, origin, tries, ntypes, e)) {
                        Err(f) => Err(f),
                        Ok(_) => handler_list_check(s, origin, ntypes),
                    }
                }
            },
        },
    }
}

/// `c` is the code item at blob position `q`, resolved in `ti`.
pub open spec fn code_matches(
    s: Seq<u8>,
    q: int,
    ti: Seq<Rc<TypeIdentifier>>,
    data_off: int,
    e: Endianness,
    c: Code,
) -> bool {
    let tries = u16_at(s, q + 6, e);
    let insns = u32_at(s, q + 12, e);
    let dbg = u32_at(s, q + 8, e);
    let origin = code_span(s, q, e)->Ok_0;
    let t0 = origin - 8 * tries;
    &&& c.registers_size == u16_at(s, q, e)
    &&& c.ins_size == u16_at(s, q + 2, e)
    &&& c.outs_size == u16_at(s, q + 4, e)
    &&& c.insns@.len() == insns
    &&& forall|i: int| 0 <= i < insns ==> #[trigger] c.insns@[i] == u16_at(s, q + 16 + 2 * i, e)
    &&& (c.debug_info is None <==> dbg == 0)
    &&& (c.debug_info is Some ==> debug_matches(s, dbg - data_off, c.debug_info->Some_0))
    &&& (c.tries is None <==> tries == 0)
    &&& (c.tries is Some ==> {
        let t = c.tries->Some_0@;
        &&& t.len() == tries
        &&& forall|i: int|
            #![trigger t[i]]
            0 <= i < tries ==> t[i].start_addr == u32_at(s, t0 + 8 * i, e) && t[i].insn_count
                == u16_at(s, t0 + 8 * i + 4, e) && handler_at(
                s,
                origin + u16_at(s, t0 + 8 * i + 6, e),
                ti,
                t[i].handler,
            )
    })
    &&& (c.handlers is None <==> tries == 0)
    &&& (c.handlers is Some ==> {
        let h = c.handlers->Some_0@;
        let p1 = leb_span(s, origin)->Ok_0;
        &&& h.len() == uleb_value(s, origin)
        &&& forall|i: int|
            0 <= i < h.len() ==> handler_at(
                s,
                catch_handlers_span(s, p1, i as nat)->Ok_0,
                ti,
                #[trigger] h[i],
            )
    })
}

/// Resolves the try items of a code item whose handler list begins at
/// `origin`, each with the handler its offset names.
fn resolve_tries(
    data: &[u8],
    origin: usize,
    t0: Ghost<int>,
    rt: &Vec<RawTryItem>,
    ti: &Vec<Rc<TypeIdentifier>>,
    e: Endianness,
) -> (r: Result<Vec<TryItem>, DexParserError>)
    requires
        t0@ == origin - 8 * rt@.len(),
        origin <= data@.len(),
        forall|j: int|
            #![trigger rt@[j]]
            0 <= j < rt@.len() ==> rt@[j].start_addr == u32_at(data@, t0@ + 8 * j, e)
                && rt@[j].insn_count == u16_at(data@, t0@ + 8 * j + 4, e) && rt@[j].handler_off
                == u16_at(data@, t0@ + 8 * j + 6, e),
    ensures
        match r {
            Ok(tv) => first_fault(
                try_handler_checks(data@, origin as int, rt@.len() as int, ti@.len() as int, e),
            ) is Ok && tv@.len() == rt@.len() && forall|j: int|
                #![trigger tv@[j]]
                0 <= j < rt@.len() ==> tv@[j].start_addr == u32_at(data@, t0@ + 8 * j, e)
                    && tv@[j].insn_count == u16_at(data@, t0@ + 8 * j + 4, e) && handler_at(
                    data@,
                    origin + u16_at(data@, t0@ + 8 * j + 6, e),
                    ti@,
                    tv@[j].handler,
                ),
            Err(err) => first_fault(
                try_handler_checks(data@, origin as int, rt@.len() as int, ti@.len() as int, e),
            ) == Err::<(), Fault>(err.fault()),
        },
{
    let ghost tries_n = rt@.len() as int;
    let ghost checks = try_handler_checks(data@, origin as int, tries_n, ti@.len() as int, e);
    let mut tv: Vec<TryItem> = Vec::new();
    let mut i: usize = 0;
    while i < rt.len()
        invariant
            checks == try_handler_checks(data@, origin as int, tries_n, ti@.len() as int, e),
            rt@.len() == tries_n,
            t0@ == origin - 8 * tries_n,
            origin <= data@.len(),
            forall|j: int|
                #![trigger rt@[j]]
                0 <= j < tries_n ==> rt@[j].start_addr == u32_at(data@, t0@ + 8 * j, e)
                    && rt@[j].insn_count == u16_at(data@, t0@ + 8 * j + 4, e)
                    && rt@[j].handler_off == u16_at(data@, t0@ + 8 * j + 6, e),
            i <= rt@.len(),
            first_fault(checks.take(i as int)) is Ok,
            tv@.len() == i,
            forall|j: int|
                #![trigger tv@[j]]
                0 <= j < i ==> tv@[j].start_addr == u32_at(data@, t0@ + 8 * j, e)
                    && tv@[j].insn_count == u16_at(data@, t0@ + 8 * j + 4, e) && handler_at(
                    data@,
                    origin + u16_at(data@, t0@ + 8 * j + 6, e),
                    ti@,
                    tv@[j].handler,
                ),
        decreases rt@.len() - i,
    {
        proof {
            lemma_first_fault_step(checks, i as int);
        }
        let t = rt[i];
        assert(checks[i as int] == handler_check(
            data@,
            origin + t.handler_off as int,
            ti@.len() as int,
        ));
        let hq = match origin.checked_add(t.handler_off as usize) {
            Some(x) => x,
            None => {
                proof {
                    assert(data@.len() == data.len());
                    lemma_first_fault_stays(checks, i + 1);
                }
                return Err(DexParserError::malformed("handler offset outside the data blob"));
            },
        };
        let handler = match handler_at_pos(data, hq, ti) {
            Ok(h) => h,
            Err(err) => {
                proof {
                    lemma_first_fault_stays(checks, i + 1);
                }
                return Err(err);
            },
        };
        tv.push(TryItem { start_addr: t.start_addr, insn_count: t.insn_count, handler });
        i = i + 1;
    }
    proof {
        lemma_first_fault_all(checks, i as int);
    }
    Ok(tv)
}

/// Reads the code item at blob position `q` and resolves it: its debug
/// info, its try items each with the handler it names, and the handler list.
#[verifier::rlimit(60)]
pub fn transform_code_item(
    data: &[u8],
    q: usize,
    data_off: u32,
    ti: &Vec<Rc<TypeIdentifier>>,
    e: Endianness,
) -> (r: Result<Code, DexParserError>)
    requires
        q <= data@.len(),
    ensures
        match r {
            Ok(c) => code_check(data@, q as int, ti@.len() as int, data_off as int, e) is Ok
                && code_matches(data@, q as int, ti@, data_off as int, e, c),
            Err(err) => code_check(data@, q as int, ti@.len() as int, data_off as int, e)
                == Err::<(), Fault>(err.fault()),
        },
{
    let (raw, origin) = parse_code_item(data, q, e)?;
    proof {
        reveal(code_at);
    }
    let debug_info = if raw.debug_info_off == 0 {
        None
    } else {
        Some(transform_debug_info(data, raw.debug_info_off, data_off)?)
    };
    let ghost tries_n = raw.tries_size as int;
    let ghost t0 = origin - 8 * tries_n;
    proof {
        reveal(code_at);
    }
    let (tries, handlers) = match raw.tries {
        None => (None, None),
        Some(rt) => {
            let tv = resolve_tries(data, origin, Ghost(t0), &rt, ti, e)?;
            let hs = transform_handler_list(data, origin, ti)?;
            (Some(tv), Some(hs))
        },
    };
    Ok(
        Code {
            registers_size: raw.registers_size,
            ins_size: raw.ins_size,
            outs_size: raw.outs_size,
            debug_info,
            insns: raw.insns,
            tries,
            handlers,
        },
    )
}

} // verus!
