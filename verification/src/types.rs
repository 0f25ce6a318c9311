//! The plain data the crowdfunding module works on: account identifiers,
//! balances, spending requests, and the error type its operations return.

use vstd::prelude::*;

verus! {

/// Opaque identifier of an external account, as the host environment hands
/// it in. The module assumes nothing of it beyond equality.
#[derive(Clone, Copy, PartialEq, Eq, Hash, Debug, Structural)]
pub struct AccountId {
    pub id: u128,
}

/// An amount of native value, comparable and summable.
pub type Balance = u128;

/// Identifier of a spending request, issued from a monotonic counter.
pub type RequestId = u32;

/// A proposal to pay `value` to `recipient` for `description`, pending
/// approver votes before the intended release.
///
/// The voting fields (`voters`, `approval_count`, `complete`) are part of the
/// data model, but no operation mutates them after creation: casting a vote
/// and finalization are deliberate extension points, not implemented here.
#[derive(Clone, Debug)]
pub struct Request {
    pub request_id: RequestId,
    pub description: Vec<u8>,
    pub value: Balance,
    pub recipient: AccountId,
    pub complete: bool,
    pub voters: Vec<AccountId>,
    pub approval_count: u32,
}

impl Request {
    /// Internal consistency of one request: the approval counter mirrors the
    /// voters set, and no voter is recorded twice.
    pub open spec fn wf(self) -> bool {
        &&& self.approval_count == self.voters@.len()
        &&& self.voters@.no_duplicates()
    }
}

/// Errors surfaced to the immediate caller of an operation.
#[derive(Clone, Debug, PartialEq, Eq)]
pub enum PSP22Error {
    /// The value attached to a contribution is below the minimum threshold;
    /// the caller may retry with a sufficient value.
    InsufficientBalance,
    /// Open-ended error channel carrying an explanatory payload; reserved for
    /// forward extension, never produced by the current operations.
    Custom(Vec<u8>),
    /// An access-control violation: the call is voided as a whole, with no
    /// state change. Stands for what the host would surface as an aborted
    /// transaction.
    Unauthorized,
}

} // verus!
