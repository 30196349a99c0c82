//! Shape checks on paired sample columns `xs`, `ys`, shared by training,
//! the closed-form fit and the evaluation metrics.

use vstd::prelude::*;

verus! {

/// Why a pair of sample columns cannot be used.
#[derive(Debug, Clone, Copy, PartialEq, Eq, Structural)]
pub enum SampleError {
    /// `xs` and `ys` have different lengths.
    LengthMismatch,
    /// The columns are paired but hold fewer points than the computation needs.
    TooFewPoints,
}

/// What `check_paired` answers for columns of lengths `x_len`, `y_len`
/// that must hold at least `min_len` points.
pub open spec fn paired_outcome(x_len: nat, y_len: nat, min_len: nat) -> Result<(), SampleError> {
    if x_len != y_len {
        Err(SampleError::LengthMismatch)
    } else if x_len < min_len {
        Err(SampleError::TooFewPoints)
    } else {
        Ok(())
    }
}

/// Checks that two columns pair up one to one and hold at least `min_len`
/// points. A length mismatch is reported before a shortage.
pub fn check_paired(x_len: usize, y_len: usize, min_len: usize) -> (r: Result<(), SampleError>)
    ensures
        r == paired_outcome(x_len as nat, y_len as nat, min_len as nat),
        x_len != y_len ==> r == Err::<(), SampleError>(SampleError::LengthMismatch),
        x_len == y_len && x_len < min_len ==> r == Err::<(), SampleError>(SampleError::TooFewPoints),
        r is Ok <==> (x_len == y_len && x_len >= min_len),
{
    if x_len != y_len {
        Err(SampleError::LengthMismatch)
    } else if x_len < min_len {
        Err(SampleError::TooFewPoints)
    } else {
        Ok(())
    }
}

/// Law: columns are accepted exactly when they pair up one to one and hold
/// at least `min_len` points; columns of different lengths are always
/// refused as mismatched, whatever their lengths and the minimum.
pub proof fn law_paired_outcome(x_len: nat, y_len: nat, min_len: nat)
    ensures
        paired_outcome(x_len, y_len, min_len) is Ok <==> (x_len == y_len && x_len >= min_len),
        x_len != y_len ==> paired_outcome(x_len, y_len, min_len) == Err::<(), SampleError>(
            SampleError::LengthMismatch,
        ),
        x_len == y_len && x_len < min_len ==> paired_outcome(x_len, y_len, min_len) == Err::<
            (),
            SampleError,
        >(SampleError::TooFewPoints),
{
}

} // verus!
