//! Shared vocabulary of the runtime: the error taxonomy, the result type that
//! every dispatchable operation returns, and the block structure fed to the
//! block executor.

use vstd::prelude::*;

verus! {

/// The terminal, non-retryable ways in which a dispatched operation or a block
/// submission can fail.
#[derive(Clone, Copy, Debug, PartialEq, Eq, Structural)]
pub enum DispatchError {
    /// A transfer asked for more than the sender holds.
    InsufficientFunds,
    /// A transfer would push the recipient's balance past the numeric range.
    BalanceOverflow,
    /// A claim was created on content that already has an owner.
    AlreadyClaimed,
    /// A claim was revoked on content that has no owner.
    NoSuchClaim,
    /// A claim was revoked by an account that does not own it.
    NotClaimOwner,
    /// A block's header number is not the successor of the current block number.
    InvalidBlockNumber,
}

/// The outcome of dispatching one call.
pub type DispatchResult = Result<(), DispatchError>;

/// A block header, carrying the number the block claims to have.
#[derive(Debug)]
pub struct Header<BlockNumber> {
    pub block_number: BlockNumber,
}

/// An externally submitted (caller, call) instruction. The caller is injected
/// by the execution environment, never carried inside the call itself.
#[derive(Debug)]
pub struct Extrinsic<Caller, Call> {
    pub caller: Caller,
    pub call: Call,
}

/// A header plus the ordered sequence of extrinsics to execute under it.
#[derive(Debug)]
pub struct Block<H, E> {
    pub header: H,
    pub extrinsics: Vec<E>,
}

} // verus!
