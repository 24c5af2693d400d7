//! Storage-rent settlement: measure the bytes a mutation occupied, convert
//! them to a cost, hold the caller's attached payment against that cost, and
//! describe the refund owed for any excess.
//!
//! The host environment that supplies the caller identity, the attached
//! payment and the storage-usage counters is out of scope here: a call hands
//! those values in as a [`CallContext`], and a refund is handed back as a
//! [`RefundEffect`] descriptor for the harness to execute.

use vstd::prelude::*;

verus! {

/// The abort conditions of a contract call.
#[derive(Clone, Copy, Debug, PartialEq, Eq, Structural)]
pub enum Error {
    /// The attached payment does not cover the computed storage cost.
    InsufficientPayment,
    /// An index at or past the end of the course ledger.
    OutOfRange,
    /// The storage-cost multiplication does not fit in its type.
    Overflow,
}

/// The host-supplied surroundings of one call: who calls, what payment is
/// attached, the storage-usage counter before and after the mutation, and the
/// host's price per stored byte.
pub struct CallContext {
    /// The account that signed the call.
    pub caller: String,
    /// The tokens the caller attached to the call.
    pub attached_payment: u128,
    /// Storage usage captured immediately before the mutation.
    pub usage_before: u64,
    /// Storage usage captured immediately after the mutation.
    pub usage_after: u64,
    /// Cost charged per byte of storage occupied.
    pub cost_per_byte: u128,
}

/// A scheduled token transfer back to a caller. The contract only describes
/// it; the host executes it after the call's own state change commits.
#[derive(Debug, PartialEq, Eq)]
pub struct RefundEffect {
    /// The account the tokens go back to.
    pub to: String,
    /// How many tokens go back.
    pub amount: u128,
}

/// The storage bytes a mutation occupied, as the difference of the two
/// usage snapshots.
pub open spec fn bytes_used(ctx: CallContext) -> int {
    ctx.usage_after - ctx.usage_before
}

/// The cost owed for a mutation: price per byte times bytes occupied.
pub open spec fn storage_owed(ctx: CallContext) -> int {
    ctx.cost_per_byte * bytes_used(ctx)
}

/// What settling a payment must produce, case by case: an overflowing cost
/// aborts, an insufficient payment aborts, an exact payment settles with no
/// effect, and an overpayment settles with a refund of exactly the excess,
/// addressed to the caller.
pub open spec fn settles_to(ctx: CallContext, r: Result<Option<RefundEffect>, Error>) -> bool {
    let owed = storage_owed(ctx);
    if owed > u128::MAX {
        r == Err::<Option<RefundEffect>, Error>(Error::Overflow)
    } else if (ctx.attached_payment as int) < owed {
        r == Err::<Option<RefundEffect>, Error>(Error::InsufficientPayment)
    } else if (ctx.attached_payment as int) > owed {
        match r {
            Ok(Some(f)) => f.to@ == ctx.caller@ && f.amount == ctx.attached_payment - owed,
            _ => false,
        }
    } else {
        r == Ok::<Option<RefundEffect>, Error>(None)
    }
}

} // verus!
