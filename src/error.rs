use vstd::prelude::*;

verus! {

/// Why a decode failed.
#[derive(Debug, Clone, PartialEq)]
pub enum DexParserError {
    /// The input ended during a bounded read that asked for `needed` bytes.
    EndedEarly { needed: usize },
    /// A structural rule of the format was broken.
    ParsingFailed { reason: String },
    /// A string could not be decoded, or its length disagrees with its header.
    EncodingError,
}

/// The kind of a failure, without its message: what contracts speak of.
#[derive(Debug, Clone, Copy, PartialEq, Eq, Structural)]
pub enum Fault {
    EndedEarly(usize),
    Malformed,
    Encoding,
}

impl DexParserError {
    pub open spec fn fault(&self) -> Fault {
        match self {
            DexParserError::EndedEarly { needed } => Fault::EndedEarly(*needed),
            DexParserError::ParsingFailed { .. } => Fault::Malformed,
            DexParserError::EncodingError => Fault::Encoding,
        }
    }

    /// A structural failure with the given explanation.
    pub fn malformed(reason: &str) -> (r: DexParserError)
        ensures
            r.fault() == Fault::Malformed,
    {
        DexParserError::ParsingFailed { reason: reason.to_string() }
    }

    /// Returns a message that describes the failure.
    pub fn message(&self) -> String {
        match self {
            DexParserError::EndedEarly { .. } => "file unexpectedly ended early".to_string(),
            DexParserError::ParsingFailed { reason } => reason.clone(),
            DexParserError::EncodingError => "could not decode string: may be malformed".to_string(),
        }
    }
}

} // verus!

verus! {

/// The first failure among checks made in order, or success when none fails.
pub open spec fn first_fault(rs: Seq<Result<(), Fault>>) -> Result<(), Fault>
    decreases rs.len(),
{
    if rs.len() == 0 {
        Ok(())
    } else {
        match first_fault(rs.drop_last()) {
            Err(f) => Err(f),
            Ok(_) => rs.last(),
        }
    }
}

/// After `i` checks that passed, the outcome of `i + 1` is that of check `i`.
pub proof fn lemma_first_fault_step(rs: Seq<Result<(), Fault>>, i: int)
    requires
        0 <= i < rs.len(),
        first_fault(rs.take(i)) is Ok,
    ensures
        first_fault(rs.take(i + 1)) == rs[i],
{
    assert(rs.take(i + 1).drop_last() =~= rs.take(i));
}

/// Once a prefix of the checks fails, so do all of them, the same way.
pub proof fn lemma_first_fault_stays(rs: Seq<Result<(), Fault>>, i: int)
    requires
        0 <= i <= rs.len(),
        first_fault(rs.take(i)) is Err,
    ensures
        first_fault(rs) == first_fault(rs.take(i)),
    decreases rs.len() - i,
{
    if i < rs.len() {
        assert(rs.take(i + 1).drop_last() =~= rs.take(i));
        lemma_first_fault_stays(rs, i + 1);
    } else {
        assert(rs.take(i) =~= rs);
    }
}

/// When every check passes, so does the whole.
pub proof fn lemma_first_fault_all(rs: Seq<Result<(), Fault>>, i: int)
    requires
        0 <= i <= rs.len(),
        first_fault(rs.take(i)) is Ok,
    ensures
        i == rs.len() ==> first_fault(rs) is Ok,
{
    if i == rs.len() {
        assert(rs.take(i) =~= rs);
    }
}

} // verus!
