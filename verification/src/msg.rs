//! The operations the contract accepts and the structured results it
//! returns, plus the error taxonomy. Every error is terminal: the host is
//! expected to roll an erring operation back as one transaction.

use vstd::prelude::*;
use crate::state::{State, StateCommitment, StateTransition, Transfer, PendingValidation};

verus! {

/// Why an operation was refused.
#[derive(Clone, Copy, Debug, PartialEq, Eq, Structural)]
pub enum ContractError {
    /// The submitted transition's signature field is empty.
    InvalidUserSignature,
    /// The voter is unregistered or deactivated.
    NotAnActiveNode,
    /// Unknown or already-finalized validation id.
    ValidationNotFound,
    /// The same node voted twice on one validation.
    AlreadyValidated,
    /// Explicit finalize called before the flag was raised.
    ThresholdNotReached,
    /// No commitment stored for the queried user.
    CommitmentNotFound,
    /// No pending validation under the queried id.
    NotFound,
}

#[derive(Debug)]
pub struct InstantiateMsg {
    pub threshold: u32,
}

#[derive(Debug)]
pub enum ExecuteMsg {
    RegisterMPCNode { public_key: Vec<u8> },
    SubmitStateTransition { transition: StateTransition },
    ValidateTransition { validation_id: String, valid: bool, partial_signature: Vec<u8> },
    FinalizeTransition { validation_id: String },
    SubmitTransfer { transfer: Transfer },
}

#[derive(Debug)]
pub enum QueryMsg {
    GetState {},
    GetStateCommitment { user_address: String },
    GetValidation { validation_id: String },
    GetCurrentRoot {},
    ListPendingValidations {},
}

/// What a successful operation reports back to the caller.
#[derive(Debug)]
pub enum Response {
    /// A node registered, or re-registered under its original id.
    Registered { node_id: u32, address: String, updated: bool },
    /// A transition was accepted and a pending record opened.
    Submitted { validation_id: String, user: String, old_root_hex: String, new_root_hex: String },
    /// A vote was recorded without reaching quorum.
    Voted { node_id: u32, valid: bool, threshold_reached: bool },
    /// A vote was recorded and reached quorum: finalized inline.
    VotedAndFinalized {
        node_id: u32,
        valid: bool,
        user: String,
        new_root_hex: String,
        block_height: u64,
        threshold_signature_hex: String,
    },
    /// An explicit finalization ran.
    Finalized {
        user: String,
        new_root_hex: String,
        block_height: u64,
        ipfs_cid: String,
        threshold_signature_hex: String,
    },
    /// Both legs of a transfer were submitted.
    TransferSubmitted {
        sender: String,
        recipient: String,
        amount_commitment_hex: String,
        sender_validation_id: String,
        recipient_validation_id: String,
    },
}

#[derive(Debug)]
pub struct StateResponse {
    pub state: State,
}

#[derive(Debug)]
pub struct StateCommitmentResponse {
    pub commitment: StateCommitment,
}

#[derive(Debug)]
pub struct ValidationResponse {
    pub validation: PendingValidation,
}

#[derive(Debug)]
pub struct CurrentRootResponse {
    pub root: Vec<u8>,
}

#[derive(Debug)]
pub struct PendingValidationsResponse {
    pub validation_ids: Vec<String>,
}

/// A query's structured answer.
#[derive(Debug)]
pub enum QueryAnswer {
    State(StateResponse),
    Commitment(StateCommitmentResponse),
    Validation(ValidationResponse),
    CurrentRoot(CurrentRootResponse),
    PendingList(PendingValidationsResponse),
}

} // verus!
