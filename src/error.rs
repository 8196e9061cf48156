use vstd::prelude::*;

verus! {

/// Structured detail for failures that do not fit the three main kinds.
#[derive(Debug, Clone, Copy, PartialEq, Eq, Structural)]
pub enum CustomError {
    /// A seed part, or a generated seed, is longer than the maximum seed length.
    SeedTooLong,
    /// A derivation path is longer than the maximum seed length.
    DerivationPathTooLong,
    /// No bump byte yields a valid derived address for these seeds.
    NoViableBump,
    /// A basis-point value above 10000.
    BasisPointsTooLarge { basis_points: u16 },
    /// A decimal precision above 19.
    PrecisionTooLarge { decimals: u8 },
    /// A product that does not fit in 64 bits.
    MultiplicationOverflow,
    /// Fewer distinct byte values than required.
    EntropyTooLow { distinct: u16, required: u8 },
    /// A signature that is not 32 bytes long.
    InvalidSignatureLength,
    /// A security token older than its maximum age.
    TokenExpired,
    /// The wall clock could not be read.
    ClockUnavailable,
    /// A percentage outside 0 to 100.
    PercentageOutOfRange,
}

/// Error kinds of the core.
#[derive(Debug, Clone, Copy, PartialEq, Eq, Structural)]
pub enum CommonError {
    InvalidCalculation,
    AccountValidationFailed,
    InsufficientPermissions,
    Custom(CustomError),
}

/// Result type used across the core.
pub type CommonResult<T> = Result<T, CommonError>;

} // verus!
