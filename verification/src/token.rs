//! Errors of the fungible-token contract template, with their contract
//! error codes.

use vstd::prelude::*;

verus! {

/// Why a token operation was refused.
#[derive(Copy, Clone, Debug, PartialEq, Eq, Structural, PartialOrd, Ord)]
pub enum TokenError {
    /// Caller is not the admin.
    Unauthorized,
    /// Amount exceeds available balance.
    InsufficientBalance,
    /// Allowance is too small for the requested transfer.
    InsufficientAllowance,
    /// Zero-address or self-transfer not permitted.
    InvalidAddress,
    /// Integer overflow would occur.
    ArithmeticOverflow,
    /// Token has already been initialised.
    AlreadyInitialized,
}

/// The error code each error is reported with.
pub open spec fn token_error_code(e: TokenError) -> u32 {
    match e {
        TokenError::Unauthorized => 1,
        TokenError::InsufficientBalance => 2,
        TokenError::InsufficientAllowance => 3,
        TokenError::InvalidAddress => 4,
        TokenError::ArithmeticOverflow => 5,
        TokenError::AlreadyInitialized => 6,
    }
}

impl TokenError {
    /// The error's code.
    pub fn code(&self) -> (r: u32)
        ensures
            r == token_error_code(*self),
    {
        match self {
            TokenError::Unauthorized => 1,
            TokenError::InsufficientBalance => 2,
            TokenError::InsufficientAllowance => 3,
            TokenError::InvalidAddress => 4,
            TokenError::ArithmeticOverflow => 5,
            TokenError::AlreadyInitialized => 6,
        }
    }
}

} // verus!
