//! Bounded reads over a byte buffer: fixed-width integers in a chosen byte
//! order, LEB128 variable-length integers and NUL-terminated runs.
use crate::error::{DexParserError, Fault};
use vstd::prelude::*;

verus! {

/// Byte order of the multi-byte scalars of a file.
#[derive(Debug, Clone, Copy, PartialEq, Eq, Structural)]
pub enum Endianness {
    Big,
    Little,
}

/// Outcome of a read of `n` bytes at `pos` in a buffer of `len` bytes: the
/// position after it, or the shortfall.
pub open spec fn span(len: int, pos: int, n: int) -> Result<int, Fault> {
    if pos + n <= len {
        Ok(pos + n)
    } else {
        Err(Fault::EndedEarly(n as usize))
    }
}

pub open spec fn u16_at(s: Seq<u8>, pos: int, e: Endianness) -> int {
    match e {
        Endianness::Little => s[pos] + 0x100 * s[pos + 1],
        Endianness::Big => 0x100 * s[pos] + s[pos + 1],
    }
}

pub open spec fn u32_at(s: Seq<u8>, pos: int, e: Endianness) -> int {
    match e {
        Endianness::Little => s[pos] + 0x100 * s[pos + 1] + 0x1_0000 * s[pos + 2] + 0x100_0000 * s[
            pos + 3],
        Endianness::Big => 0x100_0000 * s[pos] + 0x1_0000 * s[pos + 1] + 0x100 * s[pos + 2] + s[pos
            + 3],
    }
}

/// Reads a 16-bit unsigned integer that is known to be in the buffer.
pub fn read_u16_at(input: &[u8], pos: usize, e: Endianness) -> (v: u16)
    requires
        pos + 2 <= input@.len(),
    ensures
        v == u16_at(input@, pos as int, e),
{
    let b0 = input[pos] as u16;
    let b1 = input[pos + 1] as u16;
    match e {
        Endianness::Little => b0 + 0x100 * b1,
        Endianness::Big => 0x100 * b0 + b1,
    }
}

/// Reads a 32-bit unsigned integer that is known to be in the buffer.
pub fn read_u32_at(input: &[u8], pos: usize, e: Endianness) -> (v: u32)
    requires
        pos + 4 <= input@.len(),
    ensures
        v == u32_at(input@, pos as int, e),
{
    let b0 = input[pos] as u32;
    let b1 = input[pos + 1] as u32;
    let b2 = input[pos + 2] as u32;
    let b3 = input[pos + 3] as u32;
    match e {
        Endianness::Little => b0 + 0x100 * b1 + 0x1_0000 * b2 + 0x100_0000 * b3,
        Endianness::Big => 0x100_0000 * b0 + 0x1_0000 * b1 + 0x100 * b2 + b3,
    }
}

/// Reads one byte.
pub fn take_u8(input: &[u8], pos: usize) -> (r: Result<(u8, usize), DexParserError>)
    requires
        pos <= input@.len(),
    ensures
        match r {
            Ok((v, p)) => span(input@.len() as int, pos as int, 1) == Ok::<int, Fault>(p as int)
                && v == input@[pos as int],
            Err(e) => span(input@.len() as int, pos as int, 1) == Err::<int, Fault>(e.fault()),
        },
{
    if input.len() - pos < 1 {
        return Err(DexParserError::EndedEarly { needed: 1 });
    }
    Ok((input[pos], pos + 1))
}

/// Reads a 16-bit unsigned integer in byte order `e`.
pub fn take_u16(input: &[u8], pos: usize, e: Endianness) -> (r: Result<(u16, usize), DexParserError>)
    requires
        pos <= input@.len(),
    ensures
        match r {
            Ok((v, p)) => span(input@.len() as int, pos as int, 2) == Ok::<int, Fault>(p as int)
                && v == u16_at(input@, pos as int, e),
            Err(err) => span(input@.len() as int, pos as int, 2) == Err::<int, Fault>(err.fault()),
        },
{
    if input.len() - pos < 2 {
        return Err(DexParserError::EndedEarly { needed: 2 });
    }
    Ok((read_u16_at(input, pos, e), pos + 2))
}

/// Reads a 32-bit unsigned integer in byte order `e`.
pub fn take_u32(input: &[u8], pos: usize, e: Endianness) -> (r: Result<(u32, usize), DexParserError>)
    requires
        pos <= input@.len(),
    ensures
        match r {
            Ok((v, p)) => span(input@.len() as int, pos as int, 4) == Ok::<int, Fault>(p as int)
                && v == u32_at(input@, pos as int, e),
            Err(err) => span(input@.len() as int, pos as int, 4) == Err::<int, Fault>(err.fault()),
        },
{
    if input.len() - pos < 4 {
        return Err(DexParserError::EndedEarly { needed: 4 });
    }
    Ok((read_u32_at(input, pos, e), pos + 4))
}

/// Copies `n` bytes.
pub fn take_bytes(input: &[u8], pos: usize, n: usize) -> (r: Result<(Vec<u8>, usize), DexParserError>)
    requires
        pos <= input@.len(),
    ensures
        match r {
            Ok((v, p)) => span(input@.len() as int, pos as int, n as int) == Ok::<int, Fault>(
                p as int,
            ) && v@ == input@.subrange(pos as int, p as int),
            Err(err) => span(input@.len() as int, pos as int, n as int) == Err::<int, Fault>(
                err.fault(),
            ),
        },
{
    if input.len() - pos < n {
        return Err(DexParserError::EndedEarly { needed: n });
    }
    let mut v: Vec<u8> = Vec::new();
    let mut i: usize = pos;
    let end = pos + n;
    while i < end
        invariant
            end == pos + n,
            pos <= i <= pos + n <= input@.len(),
            v@ == input@.subrange(pos as int, i as int),
        decreases pos + n - i,
    {
        v.push(input[i]);
        i = i + 1;
    }
    Ok((v, pos + n))
}

/// The length of the LEB128 encoding that starts at `pos`, looking at no
/// more than the `k` bytes from `pos` on; `None` when none of them ends it.
pub open spec fn leb_len_within(s: Seq<u8>, pos: int, k: nat) -> Option<nat>
    decreases k,
{
    if k == 0 || pos >= s.len() {
        None
    } else if s[pos] < 0x80 {
        Some(1)
    } else {
        match leb_len_within(s, pos + 1, (k - 1) as nat) {
            Some(n) => Some(n + 1),
            None => None,
        }
    }
}

/// The payload of the `n` LEB128 bytes from `pos`, low group first.
pub open spec fn leb_payload(s: Seq<u8>, pos: int, n: nat) -> nat
    decreases n,
{
    if n == 0 {
        0
    } else {
        ((s[pos] % 0x80) + 0x80 * leb_payload(s, pos + 1, (n - 1) as nat)) as nat
    }
}

pub open spec fn pow128(n: nat) -> nat
    decreases n,
{
    if n == 0 {
        1
    } else {
        0x80 * pow128((n - 1) as nat)
    }
}

/// Where a LEB128 value that starts at `pos` ends, as the DEX format has
/// them: at most five bytes.
pub open spec fn leb_span(s: Seq<u8>, pos: int) -> Result<int, Fault> {
    match leb_len_within(s, pos, 5) {
        Some(n) => Ok(pos + n),
        None => if s.len() - pos >= 5 {
            Err(Fault::Malformed)
        } else {
            Err(Fault::EndedEarly((s.len() - pos + 1) as usize))
        },
    }
}

/// The unsigned value of the LEB128 encoding at `pos`, kept to 32 bits.
pub open spec fn uleb_value(s: Seq<u8>, pos: int) -> int {
    leb_payload(s, pos, (leb_span(s, pos)->Ok_0 - pos) as nat) as int % 0x1_0000_0000
}

/// Wraps an integer to the range of `i32`.
pub open spec fn wrap_i32(x: int) -> int {
    let m = x % 0x1_0000_0000;
    if m >= 0x8000_0000 {
        m - 0x1_0000_0000
    } else {
        m
    }
}

/// The signed value of the LEB128 encoding at `pos`: the top bit of the last
/// group is the sign, then kept to 32 bits.
pub open spec fn sleb_value(s: Seq<u8>, pos: int) -> int {
    let n = (leb_span(s, pos)->Ok_0 - pos) as nat;
    let raw = leb_payload(s, pos, n) as int;
    let full = pow128(n) as int;
    wrap_i32(
        if 2 * raw >= full {
            raw - full
        } else {
            raw
        },
    )
}

proof fn lemma_pow128_bounds(n: nat)
    requires
        n <= 5,
    ensures
        1 <= pow128(n) <= 0x8_0000_0000,
        n >= 1 ==> pow128(n) == 0x80 * pow128((n - 1) as nat),
{
    reveal_with_fuel(pow128, 6);
}

proof fn lemma_leb_payload_bound(s: Seq<u8>, pos: int, n: nat)
    requires
        0 <= pos,
        pos + n <= s.len(),
    ensures
        leb_payload(s, pos, n) < pow128(n),
    decreases n,
{
    if n > 0 {
        lemma_leb_payload_bound(s, pos + 1, (n - 1) as nat);
        assert(leb_payload(s, pos, n) < pow128(n)) by (nonlinear_arith)
            requires
                leb_payload(s, pos, n) == (s[pos] % 0x80) + 0x80 * leb_payload(
                    s,
                    pos + 1,
                    (n - 1) as nat,
                ),
                leb_payload(s, pos + 1, (n - 1) as nat) < pow128((n - 1) as nat),
                pow128(n) == 0x80 * pow128((n - 1) as nat),
                s[pos] % 0x80 < 0x80,
        ;
    }
}

/// Scans a LEB128 value: its length and its payload as a 64-bit integer.
fn scan_leb(input: &[u8], pos: usize) -> (r: Result<(u64, usize), DexParserError>)
    requires
        pos <= input@.len(),
    ensures
        match r {
            Ok((raw, p)) => leb_span(input@, pos as int) == Ok::<int, Fault>(p as int) && raw
                == leb_payload(input@, pos as int, (p - pos) as nat),
            Err(err) => leb_span(input@, pos as int) == Err::<int, Fault>(err.fault()),
        },
{
    let mut n: usize = 0;
    let avail = input.len() - pos;
    // the length first
    while n < 5 && n < avail && input[pos + n] >= 0x80
        invariant
            avail == input@.len() - pos,
            pos + avail == input.len(),
            n <= 5,
            pos + n <= input@.len(),
            forall|j: int| pos <= j < pos + n ==> input@[j] >= 0x80,
        decreases 5 - n,
    {
        n = n + 1;
    }
    if n == 5 {
        proof {
            lemma_leb_all_cont(input@, pos as int, 5);
        }
        return Err(DexParserError::malformed("LEB128 value longer than five bytes"));
    }
    if n >= avail {
        proof {
            lemma_leb_short(input@, pos as int, 5);
        }
        return Err(DexParserError::EndedEarly { needed: input.len() - pos + 1 });
    }
    proof {
        lemma_leb_found(input@, pos as int, n as nat);
    }
    // then the payload, from the last group down
    let total = n + 1;
    let mut acc: u64 = 0;
    let mut k: usize = total;
    while k > 0
        invariant
            total == n + 1,
            n < 5,
            n < avail,
            avail == input@.len() - pos,
            pos + avail == input.len(),
            k <= total,
            pos + total <= input@.len(),
            acc == leb_payload(input@, pos + k, (total - k) as nat),
        decreases k,
    {
        let b = input[pos + k - 1];
        proof {
            lemma_leb_payload_bound(input@, pos + k, (total - k) as nat);
            lemma_pow128_bounds((total - k) as nat);
            assert(pow128((total - k) as nat) <= 0x1000_0000) by {
                reveal_with_fuel(pow128, 6);
            }
        }
        acc = (b % 0x80) as u64 + 0x80 * acc;
        k = k - 1;
    }
    Ok((acc, pos + total))
}

proof fn lemma_leb_short(s: Seq<u8>, pos: int, k: nat)
    requires
        0 <= pos <= s.len(),
        forall|j: int| pos <= j < s.len() ==> s[j] >= 0x80,
    ensures
        leb_len_within(s, pos, k) is None,
    decreases k,
{
    if k > 0 && pos < s.len() {
        lemma_leb_short(s, pos + 1, (k - 1) as nat);
    }
}

proof fn lemma_leb_found(s: Seq<u8>, pos: int, n: nat)
    requires
        0 <= pos,
        pos + n < s.len(),
        n < 5,
        s[pos + n] < 0x80,
        forall|j: int| pos <= j < pos + n ==> s[j] >= 0x80,
    ensures
        leb_len_within(s, pos, 5) == Some((n + 1) as nat),
{
    lemma_leb_found_k(s, pos, n, 5);
}

proof fn lemma_leb_found_k(s: Seq<u8>, pos: int, n: nat, k: nat)
    requires
        0 <= pos,
        pos + n < s.len(),
        n < k,
        s[pos + n] < 0x80,
        forall|j: int| pos <= j < pos + n ==> s[j] >= 0x80,
    ensures
        leb_len_within(s, pos, k) == Some((n + 1) as nat),
    decreases n,
{
    if n > 0 {
        lemma_leb_found_k(s, pos + 1, (n - 1) as nat, (k - 1) as nat);
    }
}

proof fn lemma_leb_all_cont(s: Seq<u8>, pos: int, k: nat)
    requires
        0 <= pos,
        pos + k <= s.len(),
        forall|j: int| pos <= j < pos + k ==> s[j] >= 0x80,
    ensures
        leb_len_within(s, pos, k) is None,
    decreases k,
{
    if k > 0 {
        lemma_leb_all_cont(s, pos + 1, (k - 1) as nat);
    }
}

/// Reads an unsigned LEB128 value of at most five bytes.
pub fn take_uleb128(input: &[u8], pos: usize) -> (r: Result<(u32, usize), DexParserError>)
    requires
        pos <= input@.len(),
    ensures
        match r {
            Ok((v, p)) => leb_span(input@, pos as int) == Ok::<int, Fault>(p as int) && pos < p
                <= input@.len() && v
                == uleb_value(input@, pos as int),
            Err(err) => leb_span(input@, pos as int) == Err::<int, Fault>(err.fault()),
        },
{
    let (raw, p) = scan_leb(input, pos)?;
    proof {
        lemma_leb_span_len(input@, pos as int);
    }
    Ok(((raw % 0x1_0000_0000) as u32, p))
}

/// Reads an unsigned LEB128 value and subtracts one, so that an encoded zero
/// stands for the absent index `0xFFFF_FFFF`.
pub fn take_uleb128p1(input: &[u8], pos: usize) -> (r: Result<(u32, usize), DexParserError>)
    requires
        pos <= input@.len(),
    ensures
        match r {
            Ok((v, p)) => leb_span(input@, pos as int) == Ok::<int, Fault>(p as int) && pos < p
                <= input@.len() && v == (
            uleb_value(input@, pos as int) + 0xFFFF_FFFF) % 0x1_0000_0000,
            Err(err) => leb_span(input@, pos as int) == Err::<int, Fault>(err.fault()),
        },
{
    let (v, p) = take_uleb128(input, pos)?;
    Ok((v.wrapping_sub(1), p))
}

fn pow128_exec(n: usize) -> (r: u64)
    requires
        n <= 5,
    ensures
        r == pow128(n as nat),
{
    let mut r: u64 = 1;
    let mut i: usize = 0;
    while i < n
        invariant
            i <= n <= 5,
            r == pow128(i as nat),
        decreases n - i,
    {
        proof {
            lemma_pow128_bounds(i as nat);
            lemma_pow128_bounds((i + 1) as nat);
        }
        r = r * 0x80;
        i = i + 1;
    }
    r
}

/// Reads a signed LEB128 value of at most five bytes.
pub fn take_sleb128(input: &[u8], pos: usize) -> (r: Result<(i32, usize), DexParserError>)
    requires
        pos <= input@.len(),
    ensures
        match r {
            Ok((v, p)) => leb_span(input@, pos as int) == Ok::<int, Fault>(p as int) && pos < p
                <= input@.len() && v
                == sleb_value(input@, pos as int),
            Err(err) => leb_span(input@, pos as int) == Err::<int, Fault>(err.fault()),
        },
{
    let (raw, p) = scan_leb(input, pos)?;
    let n = p - pos;
    proof {
        lemma_leb_span_len(input@, pos as int);
        lemma_leb_payload_bound(input@, pos as int, n as nat);
        lemma_pow128_bounds(n as nat);
    }
    let full = pow128_exec(n);
    let bits: u64 = if 2 * raw >= full {
        raw + (0x100_0000_0000 - full)
    } else {
        raw
    };
    let m = bits % 0x1_0000_0000;
    proof {
        let x: int = if 2 * raw >= full {
            raw - full
        } else {
            raw as int
        };
        assert(m == x % 0x1_0000_0000) by {
            if 2 * raw >= full {
                assert((x + 0x100_0000_0000) % 0x1_0000_0000 == x % 0x1_0000_0000) by (
                nonlinear_arith);
            }
        }
    }
    let v: i32 = if m >= 0x8000_0000 {
        (m as i64 - 0x1_0000_0000) as i32
    } else {
        m as i32
    };
    Ok((v, p))
}

proof fn lemma_leb_span_len(s: Seq<u8>, pos: int)
    requires
        0 <= pos <= s.len(),
        leb_span(s, pos) is Ok,
    ensures
        pos < leb_span(s, pos)->Ok_0 <= pos + 5,
        leb_span(s, pos)->Ok_0 <= s.len(),
{
    lemma_leb_len_bound(s, pos, 5);
}

proof fn lemma_leb_len_bound(s: Seq<u8>, pos: int, k: nat)
    requires
        0 <= pos,
        leb_len_within(s, pos, k) is Some,
    ensures
        1 <= leb_len_within(s, pos, k)->Some_0 <= k,
        pos + leb_len_within(s, pos, k)->Some_0 <= s.len(),
    decreases k,
{
    if s[pos] >= 0x80 {
        lemma_leb_len_bound(s, pos + 1, (k - 1) as nat);
    }
}

/// Counts the bytes of a LEB128 value at the start of `input`: the bytes
/// with the continuation bit set, plus the one that ends it.
pub fn determine_leb128_length(input: &[u8]) -> (r: usize)
    requires
        input@.len() < usize::MAX,
    ensures
        r >= 1,
        r <= input@.len() + 1,
        forall|j: int| 0 <= j < r - 1 ==> input@[j] >= 0x80,
        r - 1 < input@.len() ==> input@[r - 1] < 0x80,
{
    let mut n: usize = 0;
    while n < input.len() && input[n] >= 0x80
        invariant
            n <= input@.len(),
            forall|j: int| 0 <= j < n ==> input@[j] >= 0x80,
        decreases input@.len() - n,
    {
        n = n + 1;
    }
    n + 1
}

/// The position of the first zero byte at or after `i`.
pub open spec fn first_zero(s: Seq<u8>, i: int) -> Option<int>
    decreases s.len() - i,
{
    if i < 0 || i >= s.len() {
        None
    } else if s[i] == 0 {
        Some(i)
    } else {
        first_zero(s, i + 1)
    }
}

/// Copies the bytes up to the next zero byte and consumes that zero too.
pub fn take_until_null_and_consume(input: &[u8], pos: usize) -> (r: Result<
    (Vec<u8>, usize),
    DexParserError,
>)
    requires
        pos <= input@.len(),
    ensures
        match r {
            Ok((v, p)) => first_zero(input@, pos as int) == Some(p - 1) && pos < p <= input@.len()
                && v@ == input@.subrange(
                pos as int,
                p - 1,
            ),
            Err(err) => first_zero(input@, pos as int) is None && err.fault() == Fault::EndedEarly(
                1,
            ),
        },
{
    let mut v: Vec<u8> = Vec::new();
    let mut i: usize = pos;
    while i < input.len() && input[i] != 0
        invariant
            pos <= i <= input@.len(),
            v@ == input@.subrange(pos as int, i as int),
            first_zero(input@, pos as int) == first_zero(input@, i as int),
        decreases input@.len() - i,
    {
        v.push(input[i]);
        i = i + 1;
    }
    if i == input.len() {
        return Err(DexParserError::EndedEarly { needed: 1 });
    }
    Ok((v, i + 1))
}

/// The canonical unsigned LEB128 encoding of `v`.
pub open spec fn uleb_encoding(v: nat) -> Seq<u8>
    decreases v,
{
    if v < 0x80 {
        seq![v as u8]
    } else {
        seq![(v % 0x80 + 0x80) as u8] + uleb_encoding(v / 0x80)
    }
}

proof fn lemma_encoding_reads_back(s: Seq<u8>, pos: int, v: nat, k: nat)
    requires
        0 <= pos,
        pos + uleb_encoding(v).len() <= s.len(),
        s.subrange(pos, pos + uleb_encoding(v).len()) == uleb_encoding(v),
        uleb_encoding(v).len() <= k,
    ensures
        leb_len_within(s, pos, k) == Some(uleb_encoding(v).len()),
        leb_payload(s, pos, uleb_encoding(v).len()) == v,
    decreases v,
{
    let e = uleb_encoding(v);
    assert(s[pos] == e[0]) by {
        assert(s.subrange(pos, pos + e.len())[0] == s[pos]);
    }
    if v >= 0x80 {
        let rest = uleb_encoding(v / 0x80);
        assert(e == seq![(v % 0x80 + 0x80) as u8] + rest);
        assert(s.subrange(pos + 1, pos + 1 + rest.len()) == rest) by {
            assert(s.subrange(pos + 1, pos + 1 + rest.len()) =~= e.subrange(1, e.len() as int));
            assert(e.subrange(1, e.len() as int) =~= rest);
        }
        lemma_encoding_reads_back(s, pos + 1, v / 0x80, (k - 1) as nat);
        assert(leb_payload(s, pos, e.len()) == (s[pos] % 0x80) + 0x80 * leb_payload(
            s,
            pos + 1,
            rest.len(),
        ));
        assert(s[pos] % 0x80 == v % 0x80);
        assert(v == v % 0x80 + 0x80 * (v / 0x80));
    } else {
        assert(leb_payload(s, pos + 1, 0) == 0);
        assert(leb_payload(s, pos, 1) == (s[pos] % 0x80) + 0x80 * leb_payload(s, pos + 1, 0));
    }
}

proof fn lemma_encoding_len(v: nat, m: nat)
    requires
        v < pow128(m),
        m >= 1,
    ensures
        uleb_encoding(v).len() <= m,
        uleb_encoding(v).len() >= 1,
    decreases v,
{
    if v >= 0x80 {
        assert(m >= 2) by {
            if m == 1 {
                assert(pow128(1) == 0x80 * pow128(0));
            }
        }
        assert(v / 0x80 < pow128((m - 1) as nat)) by {
            assert(pow128(m) == 0x80 * pow128((m - 1) as nat));
        }
        lemma_encoding_len(v / 0x80, (m - 1) as nat);
    }
}

/// Decoding the canonical LEB128 encoding of a 32-bit value gives the value
/// back, and consumes the whole encoding, which is at most five bytes long.
pub proof fn lemma_uleb128_round_trip(v: u32)
    ensures
        uleb_encoding(v as nat).len() <= 5,
        leb_span(uleb_encoding(v as nat), 0) == Ok::<int, Fault>(
            uleb_encoding(v as nat).len() as int,
        ),
        uleb_value(uleb_encoding(v as nat), 0) == v,
{
    let e = uleb_encoding(v as nat);
    assert(pow128(5) == 0x8_0000_0000) by {
        reveal_with_fuel(pow128, 6);
    }
    lemma_encoding_len(v as nat, 5);
    assert(e.subrange(0, e.len() as int) =~= e);
    lemma_encoding_reads_back(e, 0, v as nat, 5);
}

proof fn lemma_encoding_bits(v: nat)
    ensures
        uleb_encoding(v).len() >= 1,
        forall|j: int|
            0 <= j < uleb_encoding(v).len() - 1 ==> #[trigger] uleb_encoding(v)[j] >= 0x80,
        uleb_encoding(v)[uleb_encoding(v).len() - 1] < 0x80,
    decreases v,
{
    if v >= 0x80 {
        lemma_encoding_bits(v / 0x80);
        let rest = uleb_encoding(v / 0x80);
        let e = uleb_encoding(v);
        assert(e == seq![(v % 0x80 + 0x80) as u8] + rest);
        assert forall|j: int| 0 <= j < e.len() - 1 implies #[trigger] e[j] >= 0x80 by {
            if j > 0 {
                assert(e[j] == rest[j - 1]);
            }
        }
        assert(e[e.len() - 1] == rest[rest.len() - 1]);
    }
}

/// The length of a canonical LEB128 encoding is found from its bits alone:
/// every byte but its last has the continuation bit, its last has not,
/// whatever bytes follow it.
pub proof fn lemma_uleb128_length(v: u32, rest: Seq<u8>)
    ensures
        ({
            let enc = uleb_encoding(v as nat);
            let l = enc + rest;
            &&& 1 <= enc.len() <= 5
            &&& forall|j: int| 0 <= j < enc.len() - 1 ==> #[trigger] l[j] >= 0x80
            &&& l[enc.len() - 1] < 0x80
        }),
{
    let enc = uleb_encoding(v as nat);
    lemma_uleb128_round_trip(v);
    lemma_encoding_bits(v as nat);
    let l = enc + rest;
    assert forall|j: int| 0 <= j < enc.len() - 1 implies #[trigger] l[j] >= 0x80 by {
        assert(l[j] == enc[j]);
    }
    assert(l[enc.len() - 1] == enc[enc.len() - 1]);
}

} // verus!
