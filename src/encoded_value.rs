//! The encoded-value grammar: a tag byte that packs a type and an argument,
//! then a payload, with arrays and annotations nesting values in turn.
use crate::error::{DexParserError, Fault};
use crate::primitives::{leb_span, span, take_u8, take_uleb128, uleb_value};
use crate::raw_types::RawAnnotationElementItem;
use crate::result_types::{PoolSizes, AnnotationElement, DexFileData, EncodedAnnotationItem, EncodedValue};
use vstd::prelude::*;

verus! {

/// How deep arrays and annotations may nest before a value is refused.
pub const MAX_DEPTH: usize = 64;

/// The type that the low five bits of a tag byte name.
#[derive(Debug, Clone, Copy, PartialEq, Eq, Structural)]
pub enum EncodedValueType {
    Byte,
    Short,
    Char,
    Int,
    Long,
    Float,
    Double,
    MethodType,
    MethodHandle,
    String,
    Type,
    Field,
    Method,
    Enum,
    Array,
    Annotation,
    Null,
    Boolean,
}

pub open spec fn value_type_of(v: u8) -> Option<EncodedValueType> {
    if v == 0x00 {
        Some(EncodedValueType::Byte)
    } else if v == 0x02 {
        Some(EncodedValueType::Short)
    } else if v == 0x03 {
        Some(EncodedValueType::Char)
    } else if v == 0x04 {
        Some(EncodedValueType::Int)
    } else if v == 0x06 {
        Some(EncodedValueType::Long)
    } else if v == 0x10 {
        Some(EncodedValueType::Float)
    } else if v == 0x11 {
        Some(EncodedValueType::Double)
    } else if v == 0x15 {
        Some(EncodedValueType::MethodType)
    } else if v == 0x16 {
        Some(EncodedValueType::MethodHandle)
    } else if v == 0x17 {
        Some(EncodedValueType::String)
    } else if v == 0x18 {
        Some(EncodedValueType::Type)
    } else if v == 0x19 {
        Some(EncodedValueType::Field)
    } else if v == 0x1A {
        Some(EncodedValueType::Method)
    } else if v == 0x1B {
        Some(EncodedValueType::Enum)
    } else if v == 0x1C {
        Some(EncodedValueType::Array)
    } else if v == 0x1D {
        Some(EncodedValueType::Annotation)
    } else if v == 0x1E {
        Some(EncodedValueType::Null)
    } else if v == 0x1F {
        Some(EncodedValueType::Boolean)
    } else {
        None
    }
}

impl EncodedValueType {
    /// Decodes the type bits of a tag byte (its low five bits).
    pub fn parse(value: u8) -> (r: Result<EncodedValueType, DexParserError>)
        ensures
            match r {
                Ok(t) => value_type_of(value) == Some(t),
                Err(e) => value_type_of(value) is None && e.fault() == Fault::Malformed,
            },
    {
        match value {
            0x00 => Ok(EncodedValueType::Byte),
            0x02 => Ok(EncodedValueType::Short),
            0x03 => Ok(EncodedValueType::Char),
            0x04 => Ok(EncodedValueType::Int),
            0x06 => Ok(EncodedValueType::Long),
            0x10 => Ok(EncodedValueType::Float),
            0x11 => Ok(EncodedValueType::Double),
            0x15 => Ok(EncodedValueType::MethodType),
            0x16 => Ok(EncodedValueType::MethodHandle),
            0x17 => Ok(EncodedValueType::String),
            0x18 => Ok(EncodedValueType::Type),
            0x19 => Ok(EncodedValueType::Field),
            0x1A => Ok(EncodedValueType::Method),
            0x1B => Ok(EncodedValueType::Enum),
            0x1C => Ok(EncodedValueType::Array),
            0x1D => Ok(EncodedValueType::Annotation),
            0x1E => Ok(EncodedValueType::Null),
            0x1F => Ok(EncodedValueType::Boolean),
            _ => Err(DexParserError::malformed("unknown encoded value type")),
        }
    }

    /// The largest argument that the type admits: for the sized types, one
    /// less than the largest payload; Byte, Array and Annotation admit only
    /// zero, Null and Boolean any argument.
    pub open spec fn max_arg(self) -> int {
        match self {
            EncodedValueType::Short | EncodedValueType::Char => 1,
            EncodedValueType::Int | EncodedValueType::Float | EncodedValueType::MethodType
            | EncodedValueType::MethodHandle | EncodedValueType::String | EncodedValueType::Type
            | EncodedValueType::Field | EncodedValueType::Method | EncodedValueType::Enum => 3,
            EncodedValueType::Byte | EncodedValueType::Array | EncodedValueType::Annotation => 0,
            _ => 7,
        }
    }

    fn max_arg_exec(self) -> (r: u8)
        ensures
            r == self.max_arg(),
    {
        match self {
            EncodedValueType::Short | EncodedValueType::Char => 1,
            EncodedValueType::Int | EncodedValueType::Float | EncodedValueType::MethodType
            | EncodedValueType::MethodHandle | EncodedValueType::String | EncodedValueType::Type
            | EncodedValueType::Field | EncodedValueType::Method | EncodedValueType::Enum => 3,
            EncodedValueType::Byte | EncodedValueType::Array | EncodedValueType::Annotation => 0,
            _ => 7,
        }
    }

    /// Whether the payload is an index into a pool.
    pub open spec fn is_index(self) -> bool {
        match self {
            EncodedValueType::MethodType | EncodedValueType::MethodHandle
            | EncodedValueType::String | EncodedValueType::Type | EncodedValueType::Field
            | EncodedValueType::Method | EncodedValueType::Enum => true,
            _ => false,
        }
    }
}

/// The number of entries of the pool that an index value of type `t` names.
pub open spec fn pool_len(fd: DexFileData, t: EncodedValueType) -> int {
    pool_len_sized(fd.sizes(), t)
}

/// The same, given only the sizes of the pools, which are all it depends on.
pub open spec fn pool_len_sized(ps: PoolSizes, t: EncodedValueType) -> int {
    match t {
        EncodedValueType::MethodType => (ps.prototypes as int),
        EncodedValueType::MethodHandle | EncodedValueType::Method => (ps.methods as int),
        EncodedValueType::String => (ps.strings as int),
        EncodedValueType::Type => (ps.types as int),
        _ => (ps.fields as int),
    }
}

pub open spec fn pow256(n: nat) -> nat
    decreases n,
{
    if n == 0 {
        1
    } else {
        0x100 * pow256((n - 1) as nat)
    }
}

/// The `n` bytes from `p` read as a little-endian unsigned integer.
pub open spec fn le_uint(s: Seq<u8>, p: int, n: nat) -> nat
    decreases n,
{
    if n == 0 {
        0
    } else {
        (s[p] + 0x100 * le_uint(s, p + 1, (n - 1) as nat)) as nat
    }
}

/// The `n` bytes from `p` read as a little-endian two's-complement integer.
pub open spec fn le_int(s: Seq<u8>, p: int, n: nat) -> int {
    let x = le_uint(s, p, n) as int;
    if 2 * x >= pow256(n) {
        x - pow256(n)
    } else {
        x
    }
}

/// The end of the value whose tag byte is at `pos`, or why it cannot be read.
pub open spec fn value_span(s: Seq<u8>, pos: int, fd: DexFileData, depth: nat) -> Result<
    int,
    Fault,
> {
    value_span_sized(s, pos, fd.sizes(), depth)
}

/// The same, given only the sizes of the pools, which are all it depends on.
pub open spec fn value_span_sized(s: Seq<u8>, pos: int, ps: PoolSizes, depth: nat) -> Result<
    int,
    Fault,
>
    decreases depth, 0nat, 0nat,
{
    if pos < 0 || pos >= s.len() {
        Err(Fault::EndedEarly(1))
    } else {
        let t = s[pos];
        let arg = t / 32;
        let p = pos + 1;
        match value_type_of(t % 32) {
            None => Err(Fault::Malformed),
            Some(ty) => if arg > ty.max_arg() {
                Err(Fault::Malformed)
            } else {
                match ty {
                    EncodedValueType::Null | EncodedValueType::Boolean => Ok(p),
                    EncodedValueType::Byte => span(s.len() as int, p, 1),
                    EncodedValueType::Array => if depth == 0 {
                        Err(Fault::Malformed)
                    } else {
                        array_span_sized(s, p, ps, (depth - 1) as nat)
                    },
                    EncodedValueType::Annotation => if depth == 0 {
                        Err(Fault::Malformed)
                    } else {
                        annotation_span_sized(s, p, ps, (depth - 1) as nat)
                    },
                    _ => match span(s.len() as int, p, arg + 1) {
                        Err(f) => Err(f),
                        Ok(e) => if ty.is_index() && le_uint(s, p, (arg + 1) as nat) >= pool_len_sized(
                            ps,
                            ty,
                        ) {
                            Err(Fault::Malformed)
                        } else {
                            Ok(e)
                        },
                    },
                }
            },
        }
    }
}

/// The end of `n` values in a row from `pos`.
pub open spec fn values_span(s: Seq<u8>, pos: int, fd: DexFileData, n: nat, depth: nat) -> Result<
    int,
    Fault,
> {
    values_span_sized(s, pos, fd.sizes(), n, depth)
}

/// The same, given only the sizes of the pools, which are all it depends on.
pub open spec fn values_span_sized(s: Seq<u8>, pos: int, ps: PoolSizes, n: nat, depth: nat) -> Result<
    int,
    Fault,
>
    decreases depth, 1nat, n,
{
    if n == 0 {
        Ok(pos)
    } else {
        match values_span_sized(s, pos, ps, (n - 1) as nat, depth) {
            Ok(q) => value_span_sized(s, q, ps, depth),
            Err(f) => Err(f),
        }
    }
}

/// The end of an encoded array (a count, then that many values) at `pos`.
pub open spec fn array_span(s: Seq<u8>, pos: int, fd: DexFileData, depth: nat) -> Result<
    int,
    Fault,
> {
    array_span_sized(s, pos, fd.sizes(), depth)
}

/// The same, given only the sizes of the pools, which are all it depends on.
pub open spec fn array_span_sized(s: Seq<u8>, pos: int, ps: PoolSizes, depth: nat) -> Result<
    int,
    Fault,
>
    decreases depth, 2nat, 0nat,
{
    match leb_span(s, pos) {
        Err(f) => Err(f),
        Ok(p1) => values_span_sized(s, p1, ps, uleb_value(s, pos) as nat, depth),
    }
}

/// The end of an annotation element (a name index, then a value) at `pos`.
pub open spec fn element_span(s: Seq<u8>, pos: int, fd: DexFileData, depth: nat) -> Result<
    int,
    Fault,
> {
    element_span_sized(s, pos, fd.sizes(), depth)
}

/// The same, given only the sizes of the pools, which are all it depends on.
pub open spec fn element_span_sized(s: Seq<u8>, pos: int, ps: PoolSizes, depth: nat) -> Result<
    int,
    Fault,
>
    decreases depth, 1nat, 0nat,
{
    match leb_span(s, pos) {
        Err(f) => Err(f),
        Ok(p1) => if uleb_value(s, pos) >= (ps.strings as int) {
            Err(Fault::Malformed)
        } else {
            value_span_sized(s, p1, ps, depth)
        },
    }
}

/// The end of `n` annotation elements in a row from `pos`.
pub open spec fn elements_span(s: Seq<u8>, pos: int, fd: DexFileData, n: nat, depth: nat) -> Result<
    int,
    Fault,
> {
    elements_span_sized(s, pos, fd.sizes(), n, depth)
}

/// The same, given only the sizes of the pools, which are all it depends on.
pub open spec fn elements_span_sized(s: Seq<u8>, pos: int, ps: PoolSizes, n: nat, depth: nat) -> Result<
    int,
    Fault,
>
    decreases depth, 1nat, n,
{
    if n == 0 {
        Ok(pos)
    } else {
        match elements_span_sized(s, pos, ps, (n - 1) as nat, depth) {
            Ok(q) => element_span_sized(s, q, ps, depth),
            Err(f) => Err(f),
        }
    }
}

/// The end of an encoded annotation (a type index, a count, then that many
/// elements) at `pos`.
pub open spec fn annotation_span(s: Seq<u8>, pos: int, fd: DexFileData, depth: nat) -> Result<
    int,
    Fault,
> {
    annotation_span_sized(s, pos, fd.sizes(), depth)
}

/// The same, given only the sizes of the pools, which are all it depends on.
pub open spec fn annotation_span_sized(s: Seq<u8>, pos: int, ps: PoolSizes, depth: nat) -> Result<
    int,
    Fault,
>
    decreases depth, 2nat, 0nat,
{
    match leb_span(s, pos) {
        Err(f) => Err(f),
        Ok(p1) => if uleb_value(s, pos) >= (ps.types as int) {
            Err(Fault::Malformed)
        } else {
            match leb_span(s, p1) {
                Err(f) => Err(f),
                Ok(p2) => elements_span_sized(s, p2, ps, uleb_value(s, p1) as nat, depth),
            }
        },
    }
}

/// `v` is the value whose tag byte is at `pos`, its indices resolved in `fd`.
pub open spec fn value_matches(
    s: Seq<u8>,
    pos: int,
    fd: DexFileData,
    depth: nat,
    v: EncodedValue,
) -> bool
    decreases depth, 0nat,
{
    let t = s[pos];
    let n = (t / 32 + 1) as nat;
    let p = pos + 1;
    match value_type_of(t % 32) {
        Some(EncodedValueType::Byte) => v == EncodedValue::Byte(s[p]),
        Some(EncodedValueType::Short) => v is Short && v->Short_0 == le_int(s, p, n),
        Some(EncodedValueType::Char) => v is Char && v->Char_0 == le_uint(s, p, n),
        Some(EncodedValueType::Int) => v is Int && v->Int_0 == le_int(s, p, n),
        Some(EncodedValueType::Long) => v is Long && v->Long_0 == le_int(s, p, n),
        Some(EncodedValueType::Float) => v is Float && v->Float_0 == le_uint(s, p, n),
        Some(EncodedValueType::Double) => v is Double && v->Double_0 == le_uint(s, p, n),
        Some(EncodedValueType::MethodType) => v == EncodedValue::MethodType(
            fd.prototypes@[le_uint(s, p, n) as int],
        ),
        Some(EncodedValueType::MethodHandle) => v == EncodedValue::MethodHandle(
            fd.methods@[le_uint(s, p, n) as int],
        ),
        Some(EncodedValueType::String) => v == EncodedValue::String(
            fd.string_data@[le_uint(s, p, n) as int],
        ),
        Some(EncodedValueType::Type) => v == EncodedValue::Type(
            fd.type_identifiers@[le_uint(s, p, n) as int],
        ),
        Some(EncodedValueType::Field) => v == EncodedValue::Field(
            fd.fields@[le_uint(s, p, n) as int],
        ),
        Some(EncodedValueType::Method) => v == EncodedValue::Method(
            fd.methods@[le_uint(s, p, n) as int],
        ),
        Some(EncodedValueType::Enum) => v == EncodedValue::Enum(
            fd.fields@[le_uint(s, p, n) as int],
        ),
        Some(EncodedValueType::Array) => depth > 0 && v is Array && array_matches(
            s,
            p,
            fd,
            (depth - 1) as nat,
            v->Array_0@,
        ),
        Some(EncodedValueType::Annotation) => depth > 0 && v is Annotation && annotation_matches(
            s,
            p,
            fd,
            (depth - 1) as nat,
            v->Annotation_0,
        ),
        Some(EncodedValueType::Null) => v is Null,
        Some(EncodedValueType::Boolean) => v == EncodedValue::Boolean(t / 32 % 2 == 1),
        None => false,
    }
}

/// `items` are the values of the encoded array at `pos`.
pub open spec fn array_matches(
    s: Seq<u8>,
    pos: int,
    fd: DexFileData,
    depth: nat,
    items: Seq<EncodedValue>,
) -> bool
    decreases depth, 1nat,
{
    let p1 = leb_span(s, pos)->Ok_0;
    &&& items.len() == uleb_value(s, pos)
    &&& forall|i: int|
        0 <= i < items.len() ==> value_matches(
            s,
            values_span(s, p1, fd, i as nat, depth)->Ok_0,
            fd,
            depth,
            #[trigger] items[i],
        )
}

/// `name` and `value` are the annotation element at `pos`.
pub open spec fn element_matches(
    s: Seq<u8>,
    pos: int,
    fd: DexFileData,
    depth: nat,
    name_idx: int,
    value: EncodedValue,
) -> bool
    decreases depth, 1nat,
{
    &&& name_idx == uleb_value(s, pos)
    &&& value_matches(s, leb_span(s, pos)->Ok_0, fd, depth, value)
}

/// `a` is the encoded annotation at `pos`, its type and names resolved in `fd`.
pub open spec fn annotation_matches(
    s: Seq<u8>,
    pos: int,
    fd: DexFileData,
    depth: nat,
    a: EncodedAnnotationItem,
) -> bool
    decreases depth, 2nat,
{
    let p1 = leb_span(s, pos)->Ok_0;
    let p2 = leb_span(s, p1)->Ok_0;
    &&& a.type_ == fd.type_identifiers@[uleb_value(s, pos)]
    &&& a.values@.len() == uleb_value(s, p1)
    &&& forall|i: int|
        #![trigger a.values@[i]]
        0 <= i < a.values@.len() ==> {
            let q = elements_span(s, p2, fd, i as nat, depth)->Ok_0;
            &&& a.values@[i].name == fd.string_data@[uleb_value(s, q)]
            &&& element_matches(s, q, fd, depth, uleb_value(s, q), a.values@[i].value)
        }
}

proof fn lemma_pow256(n: nat)
    requires
        n <= 8,
    ensures
        1 <= pow256(n) <= 0x1_0000_0000_0000_0000,
        n >= 1 ==> pow256(n) == 0x100 * pow256((n - 1) as nat),
        n <= 4 ==> pow256(n) <= 0x1_0000_0000,
        n <= 2 ==> pow256(n) <= 0x1_0000,
        n >= 1 ==> pow256(n) % 2 == 0,
{
    reveal_with_fuel(pow256, 9);
}

proof fn lemma_le_uint_bound(s: Seq<u8>, p: int, n: nat)
    ensures
        le_uint(s, p, n) < pow256(n),
    decreases n,
{
    if n > 0 {
        lemma_le_uint_bound(s, p + 1, (n - 1) as nat);
        assert(le_uint(s, p, n) < pow256(n)) by (nonlinear_arith)
            requires
                le_uint(s, p, n) == s[p] + 0x100 * le_uint(s, p + 1, (n - 1) as nat),
                le_uint(s, p + 1, (n - 1) as nat) < pow256((n - 1) as nat),
                pow256(n) == 0x100 * pow256((n - 1) as nat),
                s[p] < 0x100,
        ;
    }
}

/// Reads `n` bytes (at most eight) as a little-endian unsigned integer.
fn take_le_uint(input: &[u8], pos: usize, n: usize) -> (r: Result<(u64, usize), DexParserError>)
    requires
        pos <= input@.len(),
        1 <= n <= 8,
    ensures
        match r {
            Ok((v, p)) => span(input@.len() as int, pos as int, n as int) == Ok::<int, Fault>(
                p as int,
            ) && v == le_uint(input@, pos as int, n as nat),
            Err(err) => span(input@.len() as int, pos as int, n as int) == Err::<int, Fault>(
                err.fault(),
            ),
        },
{
    if input.len() - pos < n {
        return Err(DexParserError::EndedEarly { needed: n });
    }
    let mut acc: u64 = 0;
    let mut k: usize = n;
    while k > 0
        invariant
            k <= n <= 8,
            pos + n <= input@.len(),
            pos + n <= input.len(),
            acc == le_uint(input@, pos + k, (n - k) as nat),
        decreases k,
    {
        proof {
            lemma_le_uint_bound(input@, pos + k, (n - k) as nat);
            lemma_pow256((n - k) as nat);
            lemma_pow256((n - k + 1) as nat);
        }
        let b = input[pos + k - 1];
        acc = b as u64 + 0x100 * acc;
        k = k - 1;
    }
    Ok((acc, pos + n))
}

/// Reads `n` bytes (at most eight) as a little-endian two's-complement integer.
fn take_le_int(input: &[u8], pos: usize, n: usize) -> (r: Result<(i64, usize), DexParserError>)
    requires
        pos <= input@.len(),
        1 <= n <= 8,
    ensures
        match r {
            Ok((v, p)) => span(input@.len() as int, pos as int, n as int) == Ok::<int, Fault>(
                p as int,
            ) && v == le_int(input@, pos as int, n as nat) && -pow256(n as nat) <= 2 * v < pow256(
                n as nat,
            ),
            Err(err) => span(input@.len() as int, pos as int, n as int) == Err::<int, Fault>(
                err.fault(),
            ),
        },
{
    let (x, p) = take_le_uint(input, pos, n)?;
    proof {
        lemma_le_uint_bound(input@, pos as int, n as nat);
        lemma_pow256(n as nat);
    }
    proof {
        lemma_pow256(1);
        lemma_pow256(0);
    }
    let mut half: u64 = 0x80;
    let mut k: usize = 1;
    while k < n
        invariant
            1 <= k <= n <= 8,
            2 * half == pow256(k as nat),
        decreases n - k,
    {
        proof {
            lemma_pow256(k as nat);
            lemma_pow256((k + 1) as nat);
        }
        half = half * 0x100;
        k = k + 1;
    }
    let v: i64 = if x >= half {
        ((x - half) as i64) - ((half - 1) as i64) - 1
    } else {
        x as i64
    };
    Ok((v, p))
}

proof fn lemma_values_span_stays_err(
    s: Seq<u8>,
    pos: int,
    fd: DexFileData,
    k: nat,
    n: nat,
    depth: nat,
)
    requires
        k <= n,
        values_span(s, pos, fd, k, depth) is Err,
    ensures
        values_span(s, pos, fd, n, depth) == values_span(s, pos, fd, k, depth),
    decreases n,
{
    if n > k {
        lemma_values_span_stays_err(s, pos, fd, k, (n - 1) as nat, depth);
    }
}

proof fn lemma_elements_span_stays_err(
    s: Seq<u8>,
    pos: int,
    fd: DexFileData,
    k: nat,
    n: nat,
    depth: nat,
)
    requires
        k <= n,
        elements_span(s, pos, fd, k, depth) is Err,
    ensures
        elements_span(s, pos, fd, n, depth) == elements_span(s, pos, fd, k, depth),
    decreases n,
{
    if n > k {
        lemma_elements_span_stays_err(s, pos, fd, k, (n - 1) as nat, depth);
    }
}

/// Decodes the value whose tag byte is at `pos`, allowing `depth` more
/// levels of nesting.
fn value_at(data: &[u8], pos: usize, fd: &DexFileData, depth: usize) -> (r: Result<
    (EncodedValue, usize),
    DexParserError,
>)
    requires
        pos <= data@.len(),
    ensures
        match r {
            Ok((v, p)) => value_span(data@, pos as int, *fd, depth as nat) == Ok::<int, Fault>(
                p as int,
            ) && p <= data@.len() && value_matches(data@, pos as int, *fd, depth as nat, v),
            Err(e) => value_span(data@, pos as int, *fd, depth as nat) == Err::<int, Fault>(
                e.fault(),
            ),
        },
    decreases depth, 0nat, 0nat,
{
    let (t, p) = take_u8(data, pos)?;
    let arg = t / 32;
    let ty = EncodedValueType::parse(t % 32)?;
    if arg > ty.max_arg_exec() {
        return Err(DexParserError::malformed("encoded value argument out of range"));
    }
    let n = (arg + 1) as usize;
    match ty {
        EncodedValueType::Byte => {
            let (b, q) = take_u8(data, p)?;
            Ok((EncodedValue::Byte(b), q))
        },
        EncodedValueType::Short => {
            let (x, q) = take_le_int(data, p, n)?;
            proof {
                lemma_pow256(n as nat);
            }
            Ok((EncodedValue::Short(x as i16), q))
        },
        EncodedValueType::Char => {
            let (x, q) = take_le_uint(data, p, n)?;
            proof {
                lemma_pow256(n as nat);
                lemma_le_uint_bound(data@, p as int, n as nat);
            }
            Ok((EncodedValue::Char(x as u16), q))
        },
        EncodedValueType::Int => {
            let (x, q) = take_le_int(data, p, n)?;
            proof {
                lemma_pow256(n as nat);
            }
            Ok((EncodedValue::Int(x as i32), q))
        },
        EncodedValueType::Long => {
            let (x, q) = take_le_int(data, p, n)?;
            Ok((EncodedValue::Long(x), q))
        },
        EncodedValueType::Float => {
            let (x, q) = take_le_uint(data, p, n)?;
            proof {
                lemma_pow256(n as nat);
                lemma_le_uint_bound(data@, p as int, n as nat);
            }
            Ok((EncodedValue::Float(x as u32), q))
        },
        EncodedValueType::Double => {
            let (x, q) = take_le_uint(data, p, n)?;
            Ok((EncodedValue::Double(x), q))
        },
        EncodedValueType::Array => {
            if depth == 0 {
                return Err(DexParserError::malformed("values nested too deeply"));
            }
            let (items, q) = array_at(data, p, fd, depth - 1)?;
            Ok((EncodedValue::Array(items), q))
        },
        EncodedValueType::Annotation => {
            if depth == 0 {
                return Err(DexParserError::malformed("values nested too deeply"));
            }
            let (a, q) = annotation_at(data, p, fd, depth - 1)?;
            Ok((EncodedValue::Annotation(a), q))
        },
        EncodedValueType::Null => Ok((EncodedValue::Null, p)),
        EncodedValueType::Boolean => Ok((EncodedValue::Boolean(arg % 2 == 1), p)),
        _ => {
            let (x, q) = take_le_uint(data, p, n)?;
            proof {
                lemma_pow256(n as nat);
                lemma_le_uint_bound(data@, p as int, n as nat);
            }
            let i = x as usize;
            match ty {
                EncodedValueType::MethodType => {
                    if i >= fd.prototypes.len() {
                        return Err(DexParserError::malformed("prototype index out of range"));
                    }
                    Ok((EncodedValue::MethodType(fd.prototypes[i].clone()), q))
                },
                EncodedValueType::MethodHandle => {
                    if i >= fd.methods.len() {
                        return Err(DexParserError::malformed("method index out of range"));
                    }
                    Ok((EncodedValue::MethodHandle(fd.methods[i].clone()), q))
                },
                EncodedValueType::String => {
                    if i >= fd.string_data.len() {
                        return Err(DexParserError::malformed("string index out of range"));
                    }
                    Ok((EncodedValue::String(fd.string_data[i].clone()), q))
                },
                EncodedValueType::Type => {
                    if i >= fd.type_identifiers.len() {
                        return Err(DexParserError::malformed("type index out of range"));
                    }
                    Ok((EncodedValue::Type(fd.type_identifiers[i].clone()), q))
                },
                EncodedValueType::Field => {
                    if i >= fd.fields.len() {
                        return Err(DexParserError::malformed("field index out of range"));
                    }
                    Ok((EncodedValue::Field(fd.fields[i].clone()), q))
                },
                EncodedValueType::Method => {
                    if i >= fd.methods.len() {
                        return Err(DexParserError::malformed("method index out of range"));
                    }
                    Ok((EncodedValue::Method(fd.methods[i].clone()), q))
                },
                _ => {
                    if i >= fd.fields.len() {
                        return Err(DexParserError::malformed("field index out of range"));
                    }
                    Ok((EncodedValue::Enum(fd.fields[i].clone()), q))
                },
            }
        },
    }
}

/// Decodes `n` values in a row.
fn values_at(data: &[u8], pos: usize, fd: &DexFileData, n: u32, depth: usize) -> (r: Result<
    (Vec<EncodedValue>, usize),
    DexParserError,
>)
    requires
        pos <= data@.len(),
    ensures
        match r {
            Ok((items, p)) => values_span(data@, pos as int, *fd, n as nat, depth as nat) == Ok::<
                int,
                Fault,
            >(p as int) && p <= data@.len() && items@.len() == n && forall|j: int|
                0 <= j < n ==> value_matches(
                    data@,
                    values_span(data@, pos as int, *fd, j as nat, depth as nat)->Ok_0,
                    *fd,
                    depth as nat,
                    #[trigger] items@[j],
                ),
            Err(e) => values_span(data@, pos as int, *fd, n as nat, depth as nat) == Err::<
                int,
                Fault,
            >(e.fault()),
        },
    decreases depth, 1nat, 0nat,
{
    let mut items: Vec<EncodedValue> = Vec::new();
    let mut p = pos;
    let mut i: u32 = 0;
    while i < n
        invariant
            i <= n,
            p <= data@.len(),
            values_span(data@, pos as int, *fd, i as nat, depth as nat) == Ok::<int, Fault>(
                p as int,
            ),
            items@.len() == i,
            forall|j: int|
                0 <= j < i ==> value_matches(
                    data@,
                    values_span(data@, pos as int, *fd, j as nat, depth as nat)->Ok_0,
                    *fd,
                    depth as nat,
                    #[trigger] items@[j],
                ),
        decreases n - i,
    {
        match value_at(data, p, fd, depth) {
            Ok((v, q)) => {
                items.push(v);
                p = q;
                i = i + 1;
            },
            Err(e) => {
                proof {
                    lemma_values_span_stays_err(
                        data@,
                        pos as int,
                        *fd,
                        (i + 1) as nat,
                        n as nat,
                        depth as nat,
                    );
                }
                return Err(e);
            },
        }
    }
    Ok((items, p))
}

/// Decodes an encoded array: a count, then that many values.
fn array_at(data: &[u8], pos: usize, fd: &DexFileData, depth: usize) -> (r: Result<
    (Vec<EncodedValue>, usize),
    DexParserError,
>)
    requires
        pos <= data@.len(),
    ensures
        match r {
            Ok((items, p)) => array_span(data@, pos as int, *fd, depth as nat) == Ok::<int, Fault>(
                p as int,
            ) && p <= data@.len() && array_matches(data@, pos as int, *fd, depth as nat, items@),
            Err(e) => array_span(data@, pos as int, *fd, depth as nat) == Err::<int, Fault>(
                e.fault(),
            ),
        },
    decreases depth, 2nat, 0nat,
{
    let (n, p1) = take_uleb128(data, pos)?;
    values_at(data, p1, fd, n, depth)
}

/// Decodes an annotation element: a name index, then a value.
fn element_at(data: &[u8], pos: usize, fd: &DexFileData, depth: usize) -> (r: Result<
    (u32, EncodedValue, usize),
    DexParserError,
>)
    requires
        pos <= data@.len(),
    ensures
        match r {
            Ok((name, v, p)) => element_span(data@, pos as int, *fd, depth as nat) == Ok::<
                int,
                Fault,
            >(p as int) && p <= data@.len() && element_matches(data@, pos as int, *fd, depth as nat, name as int, v),
            Err(e) => element_span(data@, pos as int, *fd, depth as nat) == Err::<int, Fault>(
                e.fault(),
            ),
        },
    decreases depth, 1nat, 0nat,
{
    let (name, p1) = take_uleb128(data, pos)?;
    if name as usize >= fd.string_data.len() {
        return Err(DexParserError::malformed("string index out of range"));
    }
    let (v, p) = value_at(data, p1, fd, depth)?;
    Ok((name, v, p))
}

/// Decodes an encoded annotation: a type index, a count, then that many
/// elements, with the type and the element names resolved.
fn annotation_at(data: &[u8], pos: usize, fd: &DexFileData, depth: usize) -> (r: Result<
    (EncodedAnnotationItem, usize),
    DexParserError,
>)
    requires
        pos <= data@.len(),
    ensures
        match r {
            Ok((a, p)) => annotation_span(data@, pos as int, *fd, depth as nat) == Ok::<
                int,
                Fault,
            >(p as int) && p <= data@.len() && annotation_matches(data@, pos as int, *fd, depth as nat, a),
            Err(e) => annotation_span(data@, pos as int, *fd, depth as nat) == Err::<int, Fault>(
                e.fault(),
            ),
        },
    decreases depth, 2nat, 0nat,
{
    let (type_idx, p1) = take_uleb128(data, pos)?;
    if type_idx as usize >= fd.type_identifiers.len() {
        return Err(DexParserError::malformed("type index out of range"));
    }
    let (n, p2) = take_uleb128(data, p1)?;
    let mut values: Vec<AnnotationElement> = Vec::new();
    let mut p = p2;
    let mut i: u32 = 0;
    assert(annotation_span(data@, pos as int, *fd, depth as nat) == elements_span(
        data@,
        p2 as int,
        *fd,
        n as nat,
        depth as nat,
    ));
    while i < n
        invariant
            annotation_span(data@, pos as int, *fd, depth as nat) == elements_span(
                data@,
                p2 as int,
                *fd,
                n as nat,
                depth as nat,
            ),
            leb_span(data@, pos as int) == Ok::<int, Fault>(p1 as int),
            leb_span(data@, p1 as int) == Ok::<int, Fault>(p2 as int),
            type_idx == uleb_value(data@, pos as int),
            type_idx < fd.type_identifiers@.len(),
            n == uleb_value(data@, p1 as int),
            i <= n,
            p <= data@.len(),
            elements_span(data@, p2 as int, *fd, i as nat, depth as nat) == Ok::<int, Fault>(
                p as int,
            ),
            values@.len() == i,
            forall|j: int|
                #![trigger values@[j]]
                0 <= j < i ==> {
                    let q = elements_span(data@, p2 as int, *fd, j as nat, depth as nat)->Ok_0;
                    &&& values@[j].name == fd.string_data@[uleb_value(data@, q)]
                    &&& element_matches(
                        data@,
                        q,
                        *fd,
                        depth as nat,
                        uleb_value(data@, q),
                        values@[j].value,
                    )
                },
        decreases n - i,
    {
        match element_at(data, p, fd, depth) {
            Ok((name, v, q)) => {
                values.push(AnnotationElement { name: fd.string_data[name as usize].clone(), value: v });
                p = q;
                i = i + 1;
            },
            Err(e) => {
                proof {
                    assert(elements_span(data@, p2 as int, *fd, (i + 1) as nat, depth as nat)
                        == Err::<int, Fault>(e.fault()));
                    lemma_elements_span_stays_err(
                        data@,
                        p2 as int,
                        *fd,
                        (i + 1) as nat,
                        n as nat,
                        depth as nat,
                    );
                }
                return Err(e);
            },
        }
    }
    let a = EncodedAnnotationItem { type_: fd.type_identifiers[type_idx as usize].clone(), values };
    Ok((a, p))
}

/// Decodes the encoded value whose tag byte is at `pos`; arrays and
/// annotations may nest `MAX_DEPTH` levels deep.
pub fn parse_encoded_value_item(data: &[u8], pos: usize, fd: &DexFileData) -> (r: Result<
    (EncodedValue, usize),
    DexParserError,
>)
    requires
        pos <= data@.len(),
    ensures
        match r {
            Ok((v, p)) => value_span(data@, pos as int, *fd, MAX_DEPTH as nat) == Ok::<int, Fault>(
                p as int,
            ) && p <= data@.len() && value_matches(data@, pos as int, *fd, MAX_DEPTH as nat, v),
            Err(e) => value_span(data@, pos as int, *fd, MAX_DEPTH as nat) == Err::<int, Fault>(
                e.fault(),
            ),
        },
{
    value_at(data, pos, fd, MAX_DEPTH)
}

/// Decodes an encoded array at `pos`: a count, then that many values.
pub fn parse_encoded_array_item(data: &[u8], pos: usize, fd: &DexFileData) -> (r: Result<
    (Vec<EncodedValue>, usize),
    DexParserError,
>)
    requires
        pos <= data@.len(),
    ensures
        match r {
            Ok((items, p)) => array_span(data@, pos as int, *fd, MAX_DEPTH as nat) == Ok::<
                int,
                Fault,
            >(p as int) && p <= data@.len() && array_matches(
                data@,
                pos as int,
                *fd,
                MAX_DEPTH as nat,
                items@,
            ),
            Err(e) => array_span(data@, pos as int, *fd, MAX_DEPTH as nat) == Err::<int, Fault>(
                e.fault(),
            ),
        },
{
    array_at(data, pos, fd, MAX_DEPTH)
}

/// Decodes an encoded annotation at `pos`, with its type and element names
/// resolved.
pub fn parse_encoded_annotation_item(data: &[u8], pos: usize, fd: &DexFileData) -> (r: Result<
    (EncodedAnnotationItem, usize),
    DexParserError,
>)
    requires
        pos <= data@.len(),
    ensures
        match r {
            Ok((a, p)) => annotation_span(data@, pos as int, *fd, MAX_DEPTH as nat) == Ok::<
                int,
                Fault,
            >(p as int) && p <= data@.len() && annotation_matches(
                data@,
                pos as int,
                *fd,
                MAX_DEPTH as nat,
                a,
            ),
            Err(e) => annotation_span(data@, pos as int, *fd, MAX_DEPTH as nat) == Err::<
                int,
                Fault,
            >(e.fault()),
        },
{
    annotation_at(data, pos, fd, MAX_DEPTH)
}

/// Decodes one annotation element at `pos`, its name left as a string index.
pub fn parse_annotation_element_item(data: &[u8], pos: usize, fd: &DexFileData) -> (r: Result<
    (RawAnnotationElementItem, usize),
    DexParserError,
>)
    requires
        pos <= data@.len(),
    ensures
        match r {
            Ok((e, p)) => element_span(data@, pos as int, *fd, MAX_DEPTH as nat) == Ok::<
                int,
                Fault,
            >(p as int) && p <= data@.len() && element_matches(
                data@,
                pos as int,
                *fd,
                MAX_DEPTH as nat,
                e.name_idx as int,
                e.value,
            ),
            Err(e) => element_span(data@, pos as int, *fd, MAX_DEPTH as nat) == Err::<int, Fault>(
                e.fault(),
            ),
        },
{
    let (name_idx, value, p) = element_at(data, pos, fd, MAX_DEPTH)?;
    Ok((RawAnnotationElementItem { name_idx, value }, p))
}

/// A tag byte of the Boolean type is a whole value by itself: it takes no
/// payload, and the low bit of its argument is the value.
pub proof fn lemma_boolean_tag(s: Seq<u8>, pos: int, fd: DexFileData, depth: nat, v: EncodedValue)
    requires
        0 <= pos < s.len(),
        s[pos] & 0x1F == 0x1F,
    ensures
        value_span(s, pos, fd, depth) == Ok::<int, Fault>(pos + 1),
        value_matches(s, pos, fd, depth, v) <==> v == EncodedValue::Boolean(
            (s[pos] >> 5) & 1 == 1,
        ),
{
    let t = s[pos];
    assert(t % 32 == 0x1F && (t / 32 % 2 == 1 <==> (t >> 5) & 1 == 1)) by (bit_vector)
        requires
            t & 0x1F == 0x1F,
    ;
}

/// A tag byte of the Null type is a whole value by itself, whatever its
/// argument.
pub proof fn lemma_null_tag(s: Seq<u8>, pos: int, fd: DexFileData, depth: nat, v: EncodedValue)
    requires
        0 <= pos < s.len(),
        s[pos] & 0x1F == 0x1E,
    ensures
        value_span(s, pos, fd, depth) == Ok::<int, Fault>(pos + 1),
        value_matches(s, pos, fd, depth, v) <==> v is Null,
{
    let t = s[pos];
    assert(t % 32 == 0x1E) by (bit_vector)
        requires
            t & 0x1F == 0x1E,
    ;
}

/// Two values agree structurally: the same variant and payload, the same
/// handles, and arrays and annotations that agree element by element.
pub open spec fn same_value(a: EncodedValue, b: EncodedValue, depth: nat) -> bool
    decreases depth,
{
    match (a, b) {
        (EncodedValue::Array(x), EncodedValue::Array(y)) => depth > 0 && x@.len() == y@.len()
            && forall|i: int|
            0 <= i < x@.len() ==> same_value(#[trigger] x@[i], y@[i], (depth - 1) as nat),
        (EncodedValue::Annotation(x), EncodedValue::Annotation(y)) => depth > 0 && x.type_
            == y.type_ && x.values@.len() == y.values@.len() && forall|i: int|
            0 <= i < x.values@.len() ==> #[trigger] x.values@[i].name == y.values@[i].name
                && same_value(x.values@[i].value, y.values@[i].value, (depth - 1) as nat),
        _ => a == b,
    }
}

/// Decoding is deterministic: any two values that the same bytes decode to,
/// against the same pools, agree structurally.
pub proof fn lemma_decoding_is_deterministic(
    s: Seq<u8>,
    pos: int,
    fd: DexFileData,
    depth: nat,
    v1: EncodedValue,
    v2: EncodedValue,
)
    requires
        value_matches(s, pos, fd, depth, v1),
        value_matches(s, pos, fd, depth, v2),
    ensures
        same_value(v1, v2, depth),
    decreases depth,
{
    let t = s[pos];
    match value_type_of(t % 32) {
        Some(EncodedValueType::Array) => {
            let x = v1->Array_0@;
            let y = v2->Array_0@;
            let p1 = leb_span(s, pos + 1)->Ok_0;
            assert forall|i: int| 0 <= i < x.len() implies same_value(
                #[trigger] x[i],
                y[i],
                (depth - 1) as nat,
            ) by {
                let q = values_span(s, p1, fd, i as nat, (depth - 1) as nat)->Ok_0;
                lemma_decoding_is_deterministic(s, q, fd, (depth - 1) as nat, x[i], y[i]);
            }
        },
        Some(EncodedValueType::Annotation) => {
            let x = v1->Annotation_0;
            let y = v2->Annotation_0;
            let p1 = leb_span(s, pos + 1)->Ok_0;
            let p2 = leb_span(s, p1)->Ok_0;
            assert(annotation_matches(s, pos + 1, fd, (depth - 1) as nat, x));
            assert(annotation_matches(s, pos + 1, fd, (depth - 1) as nat, y));
            assert forall|i: int| 0 <= i < x.values@.len() implies #[trigger] x.values@[i].name
                == y.values@[i].name && same_value(
                x.values@[i].value,
                y.values@[i].value,
                (depth - 1) as nat,
            ) by {
                let q = elements_span(s, p2, fd, i as nat, (depth - 1) as nat)->Ok_0;
                assert(element_matches(
                    s,
                    q,
                    fd,
                    (depth - 1) as nat,
                    uleb_value(s, q),
                    x.values@[i].value,
                ));
                assert(element_matches(
                    s,
                    q,
                    fd,
                    (depth - 1) as nat,
                    uleb_value(s, q),
                    y.values@[i].value,
                ));
                lemma_decoding_is_deterministic(
                    s,
                    leb_span(s, q)->Ok_0,
                    fd,
                    (depth - 1) as nat,
                    x.values@[i].value,
                    y.values@[i].value,
                );
            }
        },
        _ => {},
    }
}

} // verus!
