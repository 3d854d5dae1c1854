//! The stored data: the committee state, transitions, pending validations
//! and commitments, together with their views onto the ghost model and
//! verified deep clones for the query surface.

use vstd::prelude::*;
use crate::model::{
    NodeModel, StateModel, ProofElementModel, SharesModel, TransitionModel, VoteModel,
    PendingModel, CommitmentModel, LedgerModel, ledger_wf,
};
use crate::encode::clone_bytes;

verus! {

/// Global committee state: the registry, the quorum size, and the current
/// root/height record.
#[derive(Debug)]
pub struct State {
    pub mpc_nodes: Vec<MPCNode>,
    pub threshold: u32,
    pub current_state_root: Vec<u8>,
    pub block_height: u64,
}

/// A committee member.
#[derive(Debug)]
pub struct MPCNode {
    pub address: String,
    pub node_id: u32,
    pub public_key: Vec<u8>,
    pub active: bool,
}

/// A user's stored state commitment.
#[derive(Debug)]
pub struct StateCommitment {
    pub user_address: String,
    pub state_root: Vec<u8>,
    pub ipfs_cid: String,
    pub merkle_proof: Vec<u8>,
    pub nonce: u64,
    pub updated_at: u64,
}

/// Hex-encoded secret shares sent to a node for validation; carried
/// opaquely, never interpreted here.
#[derive(Debug)]
pub struct SecretShares {
    pub old_balance_share: String,
    pub new_balance_share: String,
    pub amount_share: String,
    pub old_nonce_share: String,
    pub new_nonce_share: String,
    pub gamma: String,
}

/// A user-submitted state transition request.
#[derive(Debug)]
pub struct StateTransition {
    pub user_address: String,
    pub old_state_root: Vec<u8>,
    pub new_state_root: Vec<u8>,
    pub merkle_proof: Vec<MerkleProofElement>,
    pub new_state_ipfs: String,
    pub user_signature: Vec<u8>,
    pub encrypted_shares: Vec<EncryptedShares>,
    pub vss_commitments: Vec<Vec<u8>>,
    pub vss_proof_polynomial: Vec<String>,
}

/// The encrypted share blob addressed to one node.
#[derive(Debug)]
pub struct EncryptedShares {
    pub node_id: u32,
    pub encrypted_data: Vec<u8>,
}

/// One Merkle proof element: a sibling hash and its side.
#[derive(Debug)]
pub struct MerkleProofElement {
    pub hash: Vec<u8>,
    pub is_left: bool,
}

/// A transfer: two independent transitions plus opaque commitments.
#[derive(Debug)]
pub struct Transfer {
    pub sender: String,
    pub recipient: String,
    pub sender_transition: StateTransition,
    pub recipient_transition: StateTransition,
    pub amount_commitment: Vec<u8>,
}

/// A transition awaiting quorum.
#[derive(Debug)]
pub struct PendingValidation {
    pub validation_id: String,
    pub transition: StateTransition,
    pub validations: Vec<NodeValidation>,
    pub threshold_reached: bool,
    pub created_at: u64,
}

/// One node's vote on a pending validation.
#[derive(Debug)]
pub struct NodeValidation {
    pub node_id: u32,
    pub valid: bool,
    pub partial_signature: Vec<u8>,
}

/// Everything the host persists for this contract: the singleton state and
/// the two keyed maps, each kept in insertion order.
#[derive(Debug)]
pub struct Ledger {
    pub state: State,
    pub pending: Vec<PendingValidation>,
    pub commitments: Vec<StateCommitment>,
}

/// The execution context the host hands to each operation: the caller and
/// the current block.
#[derive(Debug)]
pub struct Ctx {
    pub sender: String,
    pub block_height: u64,
    pub block_time: u64,
}

// ---------------------------------------------------------------------------
// Views onto the model
// ---------------------------------------------------------------------------

impl View for MPCNode {
    type V = NodeModel;

    open spec fn view(&self) -> NodeModel {
        NodeModel {
            address: self.address@,
            node_id: self.node_id,
            public_key: self.public_key@,
            active: self.active,
        }
    }
}

impl DeepView for MPCNode {
    type V = NodeModel;

    open spec fn deep_view(&self) -> NodeModel {
        self.view()
    }
}

impl View for State {
    type V = StateModel;

    open spec fn view(&self) -> StateModel {
        StateModel {
            mpc_nodes: self.mpc_nodes.deep_view(),
            threshold: self.threshold,
            current_state_root: self.current_state_root@,
            block_height: self.block_height,
        }
    }
}

impl View for MerkleProofElement {
    type V = ProofElementModel;

    open spec fn view(&self) -> ProofElementModel {
        ProofElementModel { hash: self.hash@, is_left: self.is_left }
    }
}

impl DeepView for MerkleProofElement {
    type V = ProofElementModel;

    open spec fn deep_view(&self) -> ProofElementModel {
        self.view()
    }
}

impl View for EncryptedShares {
    type V = SharesModel;

    open spec fn view(&self) -> SharesModel {
        SharesModel { node_id: self.node_id, encrypted_data: self.encrypted_data@ }
    }
}

impl DeepView for EncryptedShares {
    type V = SharesModel;

    open spec fn deep_view(&self) -> SharesModel {
        self.view()
    }
}

impl View for StateTransition {
    type V = TransitionModel;

    open spec fn view(&self) -> TransitionModel {
        TransitionModel {
            user_address: self.user_address@,
            old_state_root: self.old_state_root@,
            new_state_root: self.new_state_root@,
            merkle_proof: self.merkle_proof.deep_view(),
            new_state_ipfs: self.new_state_ipfs@,
            user_signature: self.user_signature@,
            encrypted_shares: self.encrypted_shares.deep_view(),
            vss_commitments: self.vss_commitments.deep_view(),
            vss_proof_polynomial: self.vss_proof_polynomial.deep_view(),
        }
    }
}

impl DeepView for StateTransition {
    type V = TransitionModel;

    open spec fn deep_view(&self) -> TransitionModel {
        self.view()
    }
}

impl View for NodeValidation {
    type V = VoteModel;

    open spec fn view(&self) -> VoteModel {
        VoteModel {
            node_id: self.node_id,
            valid: self.valid,
            partial_signature: self.partial_signature@,
        }
    }
}

impl DeepView for NodeValidation {
    type V = VoteModel;

    open spec fn deep_view(&self) -> VoteModel {
        self.view()
    }
}

impl View for PendingValidation {
    type V = PendingModel;

    open spec fn view(&self) -> PendingModel {
        PendingModel {
            validation_id: self.validation_id@,
            transition: self.transition@,
            validations: self.validations.deep_view(),
            threshold_reached: self.threshold_reached,
            created_at: self.created_at,
        }
    }
}

impl DeepView for PendingValidation {
    type V = PendingModel;

    open spec fn deep_view(&self) -> PendingModel {
        self.view()
    }
}

impl View for StateCommitment {
    type V = CommitmentModel;

    open spec fn view(&self) -> CommitmentModel {
        CommitmentModel {
            user_address: self.user_address@,
            state_root: self.state_root@,
            ipfs_cid: self.ipfs_cid@,
            merkle_proof: self.merkle_proof@,
            nonce: self.nonce,
            updated_at: self.updated_at,
        }
    }
}

impl DeepView for StateCommitment {
    type V = CommitmentModel;

    open spec fn deep_view(&self) -> CommitmentModel {
        self.view()
    }
}

impl View for Ledger {
    type V = LedgerModel;

    open spec fn view(&self) -> LedgerModel {
        LedgerModel {
            state: self.state@,
            pending: self.pending.deep_view(),
            commitments: self.commitments.deep_view(),
        }
    }
}

impl Ledger {
    /// The whole-ledger invariant, on the view.
    pub open spec fn wf(&self) -> bool {
        ledger_wf(self@)
    }
}

// ---------------------------------------------------------------------------
// Verified deep clones (for the query surface)
// ---------------------------------------------------------------------------

impl Clone for MPCNode {
    fn clone(&self) -> (r: Self)
        ensures
            r@ == self@,
    {
        MPCNode {
            address: self.address.clone(),
            node_id: self.node_id,
            public_key: clone_bytes(&self.public_key),
            active: self.active,
        }
    }
}

impl Clone for MerkleProofElement {
    fn clone(&self) -> (r: Self)
        ensures
            r@ == self@,
    {
        MerkleProofElement { hash: clone_bytes(&self.hash), is_left: self.is_left }
    }
}

impl Clone for EncryptedShares {
    fn clone(&self) -> (r: Self)
        ensures
            r@ == self@,
    {
        EncryptedShares {
            node_id: self.node_id,
            encrypted_data: clone_bytes(&self.encrypted_data),
        }
    }
}

impl Clone for NodeValidation {
    fn clone(&self) -> (r: Self)
        ensures
            r@ == self@,
    {
        NodeValidation {
            node_id: self.node_id,
            valid: self.valid,
            partial_signature: clone_bytes(&self.partial_signature),
        }
    }
}

fn clone_nodes(v: &Vec<MPCNode>) -> (r: Vec<MPCNode>)
    ensures
        r.deep_view() == v.deep_view(),
{
    let mut r: Vec<MPCNode> = Vec::new();
    let mut i: usize = 0;
    while i < v.len()
        invariant
            i <= v@.len(),
            r@.len() == i as int,
            forall|j: int| 0 <= j < i ==> (#[trigger] r@[j])@ == v@[j]@,
        decreases v@.len() - i,
    {
        r.push(v[i].clone());
        i = i + 1;
    }
    proof {
        assert forall|j: int| 0 <= j < v.deep_view().len() implies r.deep_view()[j]
            == v.deep_view()[j] by {
            assert(r@[j]@ == v@[j]@);
        }
        assert(r.deep_view() =~= v.deep_view());
    }
    r
}

fn clone_proof(v: &Vec<MerkleProofElement>) -> (r: Vec<MerkleProofElement>)
    ensures
        r.deep_view() == v.deep_view(),
{
    let mut r: Vec<MerkleProofElement> = Vec::new();
    let mut i: usize = 0;
    while i < v.len()
        invariant
            i <= v@.len(),
            r@.len() == i as int,
            forall|j: int| 0 <= j < i ==> (#[trigger] r@[j])@ == v@[j]@,
        decreases v@.len() - i,
    {
        r.push(v[i].clone());
        i = i + 1;
    }
    proof {
        assert forall|j: int| 0 <= j < v.deep_view().len() implies r.deep_view()[j]
            == v.deep_view()[j] by {
            assert(r@[j]@ == v@[j]@);
        }
        assert(r.deep_view() =~= v.deep_view());
    }
    r
}

fn clone_shares(v: &Vec<EncryptedShares>) -> (r: Vec<EncryptedShares>)
    ensures
        r.deep_view() == v.deep_view(),
{
    let mut r: Vec<EncryptedShares> = Vec::new();
    let mut i: usize = 0;
    while i < v.len()
        invariant
            i <= v@.len(),
            r@.len() == i as int,
            forall|j: int| 0 <= j < i ==> (#[trigger] r@[j])@ == v@[j]@,
        decreases v@.len() - i,
    {
        r.push(v[i].clone());
        i = i + 1;
    }
    proof {
        assert forall|j: int| 0 <= j < v.deep_view().len() implies r.deep_view()[j]
            == v.deep_view()[j] by {
            assert(r@[j]@ == v@[j]@);
        }
        assert(r.deep_view() =~= v.deep_view());
    }
    r
}

fn clone_votes(v: &Vec<NodeValidation>) -> (r: Vec<NodeValidation>)
    ensures
        r.deep_view() == v.deep_view(),
{
    let mut r: Vec<NodeValidation> = Vec::new();
    let mut i: usize = 0;
    while i < v.len()
        invariant
            i <= v@.len(),
            r@.len() == i as int,
            forall|j: int| 0 <= j < i ==> (#[trigger] r@[j])@ == v@[j]@,
        decreases v@.len() - i,
    {
        r.push(v[i].clone());
        i = i + 1;
    }
    proof {
        assert forall|j: int| 0 <= j < v.deep_view().len() implies r.deep_view()[j]
            == v.deep_view()[j] by {
            assert(r@[j]@ == v@[j]@);
        }
        assert(r.deep_view() =~= v.deep_view());
    }
    r
}

fn clone_byte_rows(v: &Vec<Vec<u8>>) -> (r: Vec<Vec<u8>>)
    ensures
        r.deep_view() == v.deep_view(),
{
    let mut r: Vec<Vec<u8>> = Vec::new();
    let mut i: usize = 0;
    while i < v.len()
        invariant
            i <= v@.len(),
            r@.len() == i as int,
            forall|j: int| 0 <= j < i ==> (#[trigger] r@[j])@ == v@[j]@,
        decreases v@.len() - i,
    {
        r.push(clone_bytes(&v[i]));
        i = i + 1;
    }
    proof {
        assert forall|j: int| 0 <= j < v.deep_view().len() implies r.deep_view()[j]
            == v.deep_view()[j] by {
            assert(r@[j]@ == v@[j]@);
            assert(r@[j].deep_view() =~= v@[j].deep_view());
        }
        assert(r.deep_view() =~= v.deep_view());
    }
    r
}

fn clone_strings(v: &Vec<String>) -> (r: Vec<String>)
    ensures
        r.deep_view() == v.deep_view(),
{
    let mut r: Vec<String> = Vec::new();
    let mut i: usize = 0;
    while i < v.len()
        invariant
            i <= v@.len(),
            r@.len() == i as int,
            forall|j: int| 0 <= j < i ==> (#[trigger] r@[j])@ == v@[j]@,
        decreases v@.len() - i,
    {
        r.push(v[i].clone());
        i = i + 1;
    }
    proof {
        assert forall|j: int| 0 <= j < v.deep_view().len() implies r.deep_view()[j]
            == v.deep_view()[j] by {
            assert(r@[j]@ == v@[j]@);
        }
        assert(r.deep_view() =~= v.deep_view());
    }
    r
}

impl Clone for State {
    fn clone(&self) -> (r: Self)
        ensures
            r@ == self@,
    {
        let r = State {
            mpc_nodes: clone_nodes(&self.mpc_nodes),
            threshold: self.threshold,
            current_state_root: clone_bytes(&self.current_state_root),
            block_height: self.block_height,
        };
        proof {
            assert(r@ =~~= self@);
        }
        r
    }
}

impl Clone for StateTransition {
    fn clone(&self) -> (r: Self)
        ensures
            r@ == self@,
    {
        let r = StateTransition {
            user_address: self.user_address.clone(),
            old_state_root: clone_bytes(&self.old_state_root),
            new_state_root: clone_bytes(&self.new_state_root),
            merkle_proof: clone_proof(&self.merkle_proof),
            new_state_ipfs: self.new_state_ipfs.clone(),
            user_signature: clone_bytes(&self.user_signature),
            encrypted_shares: clone_shares(&self.encrypted_shares),
            vss_commitments: clone_byte_rows(&self.vss_commitments),
            vss_proof_polynomial: clone_strings(&self.vss_proof_polynomial),
        };
        proof {
            assert(r@ =~~= self@);
        }
        r
    }
}

impl Clone for PendingValidation {
    fn clone(&self) -> (r: Self)
        ensures
            r@ == self@,
    {
        let r = PendingValidation {
            validation_id: self.validation_id.clone(),
            transition: self.transition.clone(),
            validations: clone_votes(&self.validations),
            threshold_reached: self.threshold_reached,
            created_at: self.created_at,
        };
        proof {
            assert(r@ =~~= self@);
        }
        r
    }
}

impl Clone for StateCommitment {
    fn clone(&self) -> (r: Self)
        ensures
            r@ == self@,
    {
        let r = StateCommitment {
            user_address: self.user_address.clone(),
            state_root: clone_bytes(&self.state_root),
            ipfs_cid: self.ipfs_cid.clone(),
            merkle_proof: clone_bytes(&self.merkle_proof),
            nonce: self.nonce,
            updated_at: self.updated_at,
        };
        proof {
            assert(r@ =~~= self@);
        }
        r
    }
}

} // verus!
