//! The ways an operation on a pool can be refused.

use vstd::prelude::*;

verus! {

/// Why an operation was refused. A refused operation leaves the pool as it
/// was.
#[derive(Clone, Copy, Debug, PartialEq, Eq, Structural)]
pub enum PoolError {
    /// The caller is not the configured admin.
    Unauthorized,
    /// The caller is not the configured operator.
    NotOperator,
    /// A deposit was announced by someone other than the custody token.
    WrongToken,
    /// The pool is switched off.
    Inactive,
    /// The deposit does not exceed the fee.
    BelowMinimum,
    /// The deposit came without a payload.
    DataRequired,
    /// The deposit's payload could not be read.
    MalformedPayload,
    /// The operator's share is not below the fee.
    InvalidShare,
    /// The stack bounds are not `1 <= min <= max`.
    InvalidBounds,
    /// No pending entry is filed under the key.
    NotFound,
    /// The operator's share exceeds the fee it is taken from.
    Underflow,
    /// A counter or a total would leave its integer type.
    Overflow,
    /// A freshly derived claim key is already taken.
    KeyInUse,
}

/// The classes of refusal.
#[derive(Clone, Copy, Debug, PartialEq, Eq, Structural)]
pub enum ErrorKind {
    /// The caller lacks the right to the operation.
    Authorization,
    /// The request does not meet the operation's conditions.
    Precondition,
    /// No entry is filed under the key presented.
    NotFound,
    /// An amount or a counter would leave its range.
    Arithmetic,
}

impl PoolError {
    /// The class of this refusal.
    pub open spec fn kind_of(self) -> ErrorKind {
        match self {
            PoolError::Unauthorized | PoolError::NotOperator => ErrorKind::Authorization,
            PoolError::NotFound => ErrorKind::NotFound,
            PoolError::Underflow | PoolError::Overflow => ErrorKind::Arithmetic,
            _ => ErrorKind::Precondition,
        }
    }

    /// The class of this refusal.
    pub fn kind(&self) -> (r: ErrorKind)
        ensures
            r == self.kind_of(),
    {
        match self {
            PoolError::Unauthorized => ErrorKind::Authorization,
            PoolError::NotOperator => ErrorKind::Authorization,
            PoolError::NotFound => ErrorKind::NotFound,
            PoolError::Underflow => ErrorKind::Arithmetic,
            PoolError::Overflow => ErrorKind::Arithmetic,
            PoolError::WrongToken => ErrorKind::Precondition,
            PoolError::Inactive => ErrorKind::Precondition,
            PoolError::BelowMinimum => ErrorKind::Precondition,
            PoolError::DataRequired => ErrorKind::Precondition,
            PoolError::MalformedPayload => ErrorKind::Precondition,
            PoolError::InvalidShare => ErrorKind::Precondition,
            PoolError::InvalidBounds => ErrorKind::Precondition,
            PoolError::KeyInUse => ErrorKind::Precondition,
        }
    }

    /// The text shown to the caller.
    pub open spec fn message_text(self) -> Seq<char> {
        match self {
            PoolError::Unauthorized => "This function is only usable by the Admin"@,
            PoolError::NotOperator => "You are not a verified operator"@,
            PoolError::WrongToken => "Address is not correct snip contract"@,
            PoolError::Inactive => "Transfers are currently disabled"@,
            PoolError::BelowMinimum => "You have not reached the minumum amount for a transaction"@,
            PoolError::DataRequired => "data should be given"@,
            PoolError::MalformedPayload => "data could not be read"@,
            PoolError::InvalidShare => "The operator share must be less than the total fee"@,
            PoolError::InvalidBounds => "The stack bounds must satisfy 1 <= min <= max"@,
            PoolError::NotFound => "There are no pending transactions with this key."@,
            PoolError::Underflow => "Cannot subtract below zero"@,
            PoolError::Overflow => "Amount or counter out of range"@,
            PoolError::KeyInUse => "The derived key is already in use"@,
        }
    }

    /// The text shown to the caller.
    pub fn message(&self) -> (r: &'static str)
        ensures
            r@ == self.message_text(),
    {
        match self {
            PoolError::Unauthorized => "This function is only usable by the Admin",
            PoolError::NotOperator => "You are not a verified operator",
            PoolError::WrongToken => "Address is not correct snip contract",
            PoolError::Inactive => "Transfers are currently disabled",
            PoolError::BelowMinimum => "You have not reached the minumum amount for a transaction",
            PoolError::DataRequired => "data should be given",
            PoolError::MalformedPayload => "data could not be read",
            PoolError::InvalidShare => "The operator share must be less than the total fee",
            PoolError::InvalidBounds => "The stack bounds must satisfy 1 <= min <= max",
            PoolError::NotFound => "There are no pending transactions with this key.",
            PoolError::Underflow => "Cannot subtract below zero",
            PoolError::Overflow => "Amount or counter out of range",
            PoolError::KeyInUse => "The derived key is already in use",
        }
    }
}

} // verus!
