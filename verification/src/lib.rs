//! A threshold-validated state-transition ledger.
//!
//! A committee of registered nodes votes on user-submitted state
//! transitions; once a configurable quorum of affirmative votes is
//! reached, the transition is finalized: the global state root advances,
//! a per-user state commitment is recorded, and the pending record is
//! retired. All state lives in a single [`state::Ledger`] value that the
//! host is expected to persist atomically around each operation.

pub mod encode;
pub mod model;
pub mod state;
pub mod msg;
pub mod contract;
pub mod laws;

use vstd::prelude::*;

verus! {

} // verus!
