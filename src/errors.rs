use vstd::prelude::*;

verus! {

/// Why an operation on a pool was refused. Every error aborts the whole operation.
#[derive(Clone, Copy, Debug, PartialEq, Eq, Structural)]
pub enum ErrorCode {
    /// A required amount argument was zero.
    ZeroAmount,
    /// A deposit's two amounts do not match the pool's current price, or a pool
    /// was requested for a pair that is not two distinct assets, or with a share
    /// asset that is one of them.
    InvalidRatio,
    /// A computed amount fell below the caller's minimum.
    SlippageExceeded,
    /// Overflow, division by zero, or a degenerate result.
    CalculationFailure,
    /// A swap named an asset that is not one side of the pool, or a pool was
    /// requested for the zero key.
    UnknownAsset,
    /// A pool for the pair already exists.
    PoolAlreadyExists,
}

impl ErrorCode {
    /// A human-readable description of the error.
    pub fn message(&self) -> (r: &'static str) {
        match self {
            ErrorCode::ZeroAmount => "Amount must be greater than zero.",
            ErrorCode::InvalidRatio => "Deposited token amounts do not match the pool ratio.",
            ErrorCode::SlippageExceeded => "Slippage exceeded.",
            ErrorCode::CalculationFailure => "An error occurred during calculation.",
            ErrorCode::UnknownAsset => "The input asset is not part of this pool.",
            ErrorCode::PoolAlreadyExists => "A pool for this pair already exists.",
        }
    }
}

} // verus!
