//! Typed failures of the escrow engine.

use vstd::prelude::*;

verus! {

/// Every way an escrow operation can fail. All errors are returned to the
/// caller; a failed operation leaves the store unmodified.
#[derive(Clone, Debug, PartialEq, Eq)]
pub enum ContractError {
    /// A create or top-up carried no assets.
    ZeroBalance,
    /// A create named an id that is already occupied.
    IdAlreadyExists,
    /// The named escrow does not exist.
    NotFound,
    /// The caller is not the escrow's arbiter.
    Unauthorized,
    /// Approval was attempted past a deadline. Both deadline values are
    /// carried for diagnostics even if only one of them triggered.
    Expired { end_height: Option<u64>, end_time: Option<u64> },
    /// Merging balances would overflow an amount.
    ArithmeticOverflow,
}

} // verus!
