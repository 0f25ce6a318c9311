//! A minimal crowdfunding ledger, verified with Verus.
//!
//! A manager account collects contributions from approvers above a minimum
//! threshold and may open spending requests that approvers are meant to vote
//! on. The module is a flat state container with guarded mutators: the host
//! environment resolves the caller's identity and the value attached to a
//! call, and hands both in as plain values; persistence and binary encoding
//! of the state are likewise the host's business and never appear here.

pub mod state;
pub mod types;

pub use state::Crowdfunding;
pub use types::AccountId;
pub use types::Balance;
pub use types::PSP22Error;
pub use types::Request;
pub use types::RequestId;
