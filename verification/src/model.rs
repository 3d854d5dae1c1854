//! Mathematical model of the ledger: ghost mirrors of every stored record,
//! the well-formedness invariant, and one functional transition per
//! operation. Executable functions promise in their `ensures` that they
//! behave exactly as these transitions say; the laws in [`crate::laws`] are
//! proved about the transitions themselves.

use vstd::prelude::*;
use crate::msg::ContractError;
use crate::encode::validation_id_of;

verus! {

/// Ghost mirror of a committee member.
#[verifier::ext_equal]
pub ghost struct NodeModel {
    pub address: Seq<char>,
    pub node_id: u32,
    pub public_key: Seq<u8>,
    pub active: bool,
}

/// Ghost mirror of the singleton committee state.
#[verifier::ext_equal]
pub ghost struct StateModel {
    pub mpc_nodes: Seq<NodeModel>,
    pub threshold: u32,
    pub current_state_root: Seq<u8>,
    pub block_height: u64,
}

/// Ghost mirror of one Merkle proof element.
#[verifier::ext_equal]
pub ghost struct ProofElementModel {
    pub hash: Seq<u8>,
    pub is_left: bool,
}

/// Ghost mirror of the encrypted share addressed to one node.
#[verifier::ext_equal]
pub ghost struct SharesModel {
    pub node_id: u32,
    pub encrypted_data: Seq<u8>,
}

/// Ghost mirror of a submitted state transition.
#[verifier::ext_equal]
pub ghost struct TransitionModel {
    pub user_address: Seq<char>,
    pub old_state_root: Seq<u8>,
    pub new_state_root: Seq<u8>,
    pub merkle_proof: Seq<ProofElementModel>,
    pub new_state_ipfs: Seq<char>,
    pub user_signature: Seq<u8>,
    pub encrypted_shares: Seq<SharesModel>,
    pub vss_commitments: Seq<Seq<u8>>,
    pub vss_proof_polynomial: Seq<Seq<char>>,
}

/// Ghost mirror of one node's vote.
#[verifier::ext_equal]
pub ghost struct VoteModel {
    pub node_id: u32,
    pub valid: bool,
    pub partial_signature: Seq<u8>,
}

/// Ghost mirror of a pending validation record.
#[verifier::ext_equal]
pub ghost struct PendingModel {
    pub validation_id: Seq<char>,
    pub transition: TransitionModel,
    pub validations: Seq<VoteModel>,
    pub threshold_reached: bool,
    pub created_at: u64,
}

/// Ghost mirror of a user's stored state commitment.
#[verifier::ext_equal]
pub ghost struct CommitmentModel {
    pub user_address: Seq<char>,
    pub state_root: Seq<u8>,
    pub ipfs_cid: Seq<char>,
    pub merkle_proof: Seq<u8>,
    pub nonce: u64,
    pub updated_at: u64,
}

/// Ghost mirror of everything the host persists for this contract.
#[verifier::ext_equal]
pub ghost struct LedgerModel {
    pub state: StateModel,
    pub pending: Seq<PendingModel>,
    pub commitments: Seq<CommitmentModel>,
}

// ---------------------------------------------------------------------------
// Lookups
// ---------------------------------------------------------------------------

pub open spec fn has_node_with_address(nodes: Seq<NodeModel>, addr: Seq<char>) -> bool {
    exists|i: int| 0 <= i < nodes.len() && nodes[i].address == addr
}

pub open spec fn node_index_of(nodes: Seq<NodeModel>, addr: Seq<char>) -> int {
    choose|i: int| 0 <= i < nodes.len() && nodes[i].address == addr
}

/// Whether some registered node carries this address and is active.
pub open spec fn has_active_node(nodes: Seq<NodeModel>, addr: Seq<char>) -> bool {
    exists|i: int| 0 <= i < nodes.len() && nodes[i].address == addr && nodes[i].active
}

pub open spec fn has_pending(pending: Seq<PendingModel>, id: Seq<char>) -> bool {
    exists|i: int| 0 <= i < pending.len() && pending[i].validation_id == id
}

pub open spec fn pending_index_of(pending: Seq<PendingModel>, id: Seq<char>) -> int {
    choose|i: int| 0 <= i < pending.len() && pending[i].validation_id == id
}

pub open spec fn has_commitment(cs: Seq<CommitmentModel>, user: Seq<char>) -> bool {
    exists|i: int| 0 <= i < cs.len() && cs[i].user_address == user
}

pub open spec fn commitment_index_of(cs: Seq<CommitmentModel>, user: Seq<char>) -> int {
    choose|i: int| 0 <= i < cs.len() && cs[i].user_address == user
}

pub open spec fn has_vote(votes: Seq<VoteModel>, node_id: u32) -> bool {
    exists|i: int| 0 <= i < votes.len() && votes[i].node_id == node_id
}

/// How many votes approve, i.e. carry `valid == true`.
pub open spec fn valid_count(votes: Seq<VoteModel>) -> nat
    decreases votes.len(),
{
    if votes.len() == 0 {
        0
    } else {
        valid_count(votes.drop_last()) + if votes.last().valid {
            1nat
        } else {
            0nat
        }
    }
}

/// The partial signatures of all votes, concatenated in submission order:
/// the placeholder for threshold-signature aggregation.
pub open spec fn concat_signatures(votes: Seq<VoteModel>) -> Seq<u8>
    decreases votes.len(),
{
    if votes.len() == 0 {
        Seq::empty()
    } else {
        concat_signatures(votes.drop_last()) + votes.last().partial_signature
    }
}

/// The write-only flattening of a Merkle proof: the element hashes
/// concatenated in order, the position flags dropped.
pub open spec fn flat_proof(proof: Seq<ProofElementModel>) -> Seq<u8>
    decreases proof.len(),
{
    if proof.len() == 0 {
        Seq::empty()
    } else {
        flat_proof(proof.drop_last()) + proof.last().hash
    }
}

// ---------------------------------------------------------------------------
// Well-formedness
// ---------------------------------------------------------------------------

/// Committee invariant: a quorum size of at least one, node ids assigned
/// in registration order starting at one, and one node per address.
pub open spec fn state_wf(s: StateModel) -> bool {
    &&& s.threshold >= 1
    &&& forall|i: int|
        0 <= i < s.mpc_nodes.len() ==> (#[trigger] s.mpc_nodes[i]).node_id as int == i + 1
    &&& forall|i: int, j: int|
        0 <= i < j < s.mpc_nodes.len() ==> s.mpc_nodes[i].address != s.mpc_nodes[j].address
}

/// At most one vote per node id.
pub open spec fn votes_unique(votes: Seq<VoteModel>) -> bool {
    forall|i: int, j: int| 0 <= i < j < votes.len() ==> votes[i].node_id != votes[j].node_id
}

/// A pending record still awaiting quorum: votes are one per node, and the
/// approving votes have not reached the threshold (a record that reaches it
/// is finalized and deleted within the same operation).
pub open spec fn pending_wf(p: PendingModel, threshold: u32) -> bool {
    &&& votes_unique(p.validations)
    &&& valid_count(p.validations) < threshold as nat
}

/// The whole-ledger invariant every operation preserves.
pub open spec fn ledger_wf(l: LedgerModel) -> bool {
    &&& state_wf(l.state)
    &&& forall|i: int, j: int|
        0 <= i < j < l.pending.len() ==> l.pending[i].validation_id != l.pending[j].validation_id
    &&& forall|i: int|
        0 <= i < l.pending.len() ==> pending_wf(#[trigger] l.pending[i], l.state.threshold)
    &&& forall|i: int, j: int|
        0 <= i < j < l.commitments.len() ==> l.commitments[i].user_address
            != l.commitments[j].user_address
}

// ---------------------------------------------------------------------------
// Transitions
// ---------------------------------------------------------------------------

/// Registration: an address already present is updated in place (new key,
/// reactivated, same id); a new address is appended with id `count + 1`.
/// Returns the new committee state, the node id, and whether this was an
/// update of an existing node.
pub open spec fn register_model(s: StateModel, sender: Seq<char>, public_key: Seq<u8>) -> (
    StateModel,
    u32,
    bool,
) {
    if has_node_with_address(s.mpc_nodes, sender) {
        let i = node_index_of(s.mpc_nodes, sender);
        let n = s.mpc_nodes[i];
        (
            StateModel {
                mpc_nodes: s.mpc_nodes.update(
                    i,
                    NodeModel { public_key: public_key, active: true, ..n },
                ),
                ..s
            },
            n.node_id,
            true,
        )
    } else {
        let id = (s.mpc_nodes.len() + 1) as u32;
        (
            StateModel {
                mpc_nodes: s.mpc_nodes.push(
                    NodeModel { address: sender, node_id: id, public_key: public_key, active: true },
                ),
                ..s
            },
            id,
            false,
        )
    }
}

/// The pending record a submission opens: no votes, flag down.
pub open spec fn fresh_pending(id: Seq<char>, t: TransitionModel, time: u64) -> PendingModel {
    PendingModel {
        validation_id: id,
        transition: t,
        validations: Seq::empty(),
        threshold_reached: false,
        created_at: time,
    }
}

/// Keyed insert into the pending map: an existing record under the same id
/// is silently overwritten in place, a new id is appended.
pub open spec fn upsert_pending(pending: Seq<PendingModel>, p: PendingModel) -> Seq<PendingModel> {
    if has_pending(pending, p.validation_id) {
        pending.update(pending_index_of(pending, p.validation_id), p)
    } else {
        pending.push(p)
    }
}

/// Keyed insert into the commitment map: one commitment per user, a new
/// finalization overwrites.
pub open spec fn upsert_commitment(cs: Seq<CommitmentModel>, c: CommitmentModel) -> Seq<
    CommitmentModel,
> {
    if has_commitment(cs, c.user_address) {
        cs.update(commitment_index_of(cs, c.user_address), c)
    } else {
        cs.push(c)
    }
}

/// Transition intake: rejects an empty user signature, otherwise opens a
/// pending record under `"<block_height>-<user_address>"`.
pub open spec fn submit_model(l: LedgerModel, height: u64, time: u64, t: TransitionModel) -> Result<
    (LedgerModel, Seq<char>),
    ContractError,
> {
    if t.user_signature.len() == 0 {
        Err(ContractError::InvalidUserSignature)
    } else {
        let id = validation_id_of(height, t.user_address);
        Ok(
            (
                LedgerModel { pending: upsert_pending(l.pending, fresh_pending(id, t, time)), ..l },
                id,
            ),
        )
    }
}

/// The commitment a finalization writes for the transition's user.
pub open spec fn commitment_of(t: TransitionModel, time: u64) -> CommitmentModel {
    CommitmentModel {
        user_address: t.user_address,
        state_root: t.new_state_root,
        ipfs_cid: t.new_state_ipfs,
        merkle_proof: flat_proof(t.merkle_proof),
        nonce: 0,
        updated_at: time,
    }
}

/// The one finalization step both entry points converge on: advance the
/// global root to the transition's new root, raise the height by one,
/// upsert the user's commitment, delete the pending record at `pi`.
pub open spec fn finalize_apply(l: LedgerModel, pi: int, p: PendingModel, time: u64) -> LedgerModel
    recommends
        l.state.block_height < u64::MAX,
{
    LedgerModel {
        state: StateModel {
            current_state_root: p.transition.new_state_root,
            block_height: (l.state.block_height + 1) as u64,
            ..l.state
        },
        pending: l.pending.remove(pi),
        commitments: upsert_commitment(l.commitments, commitment_of(p.transition, time)),
    }
}

/// What a successful vote produced. When `finalized` holds, `ledger` is the
/// finalized ledger and the remaining fields describe the finalization;
/// otherwise only the vote was appended and the committee state is untouched.
#[verifier::ext_equal]
pub ghost struct VoteOutcome {
    pub ledger: LedgerModel,
    pub node_id: u32,
    pub finalized: bool,
    pub threshold_signature: Seq<u8>,
    pub user: Seq<char>,
    pub new_root: Seq<u8>,
    pub block_height: u64,
}

/// Vote tracking: the caller must be an active node that has not voted on
/// this record; the vote is appended, and the record auto-finalizes inline
/// the moment approving votes reach the threshold.
pub open spec fn vote_model(
    l: LedgerModel,
    sender: Seq<char>,
    id: Seq<char>,
    valid: bool,
    sig: Seq<u8>,
    time: u64,
) -> Result<VoteOutcome, ContractError> {
    if !has_active_node(l.state.mpc_nodes, sender) {
        Err(ContractError::NotAnActiveNode)
    } else {
        let node_id = l.state.mpc_nodes[node_index_of(l.state.mpc_nodes, sender)].node_id;
        if !has_pending(l.pending, id) {
            Err(ContractError::ValidationNotFound)
        } else {
            let pi = pending_index_of(l.pending, id);
            let p = l.pending[pi];
            if has_vote(p.validations, node_id) {
                Err(ContractError::AlreadyValidated)
            } else {
                let p2 = PendingModel {
                    validations: p.validations.push(
                        VoteModel { node_id: node_id, valid: valid, partial_signature: sig },
                    ),
                    ..p
                };
                if valid_count(p2.validations) >= l.state.threshold as nat {
                    Ok(
                        VoteOutcome {
                            ledger: finalize_apply(l, pi, p2, time),
                            node_id: node_id,
                            finalized: true,
                            threshold_signature: concat_signatures(p2.validations),
                            user: p2.transition.user_address,
                            new_root: p2.transition.new_state_root,
                            block_height: (l.state.block_height + 1) as u64,
                        },
                    )
                } else {
                    let p3 = PendingModel { threshold_reached: false, ..p2 };
                    Ok(
                        VoteOutcome {
                            ledger: LedgerModel { pending: l.pending.update(pi, p3), ..l },
                            node_id: node_id,
                            finalized: false,
                            threshold_signature: Seq::empty(),
                            user: p2.transition.user_address,
                            new_root: l.state.current_state_root,
                            block_height: l.state.block_height,
                        },
                    )
                }
            }
        }
    }
}

/// What an explicit finalization produced.
#[verifier::ext_equal]
pub ghost struct FinalizeOutcome {
    pub ledger: LedgerModel,
    pub user: Seq<char>,
    pub new_root: Seq<u8>,
    pub block_height: u64,
    pub ipfs_cid: Seq<char>,
    pub threshold_signature: Seq<u8>,
}

/// Explicit finalization: requires the record to exist with its
/// `threshold_reached` flag raised, then performs the same step as
/// auto-finalization. The tracker never raises the flag before deleting
/// the record, so under the normal flow this path only reports errors.
pub open spec fn finalize_model(l: LedgerModel, id: Seq<char>, time: u64) -> Result<
    FinalizeOutcome,
    ContractError,
> {
    if !has_pending(l.pending, id) {
        Err(ContractError::ValidationNotFound)
    } else {
        let pi = pending_index_of(l.pending, id);
        let p = l.pending[pi];
        if !p.threshold_reached {
            Err(ContractError::ThresholdNotReached)
        } else {
            Ok(
                FinalizeOutcome {
                    ledger: finalize_apply(l, pi, p, time),
                    user: p.transition.user_address,
                    new_root: p.transition.new_state_root,
                    block_height: (l.state.block_height + 1) as u64,
                    ipfs_cid: p.transition.new_state_ipfs,
                    threshold_signature: concat_signatures(p.validations),
                },
            )
        }
    }
}

/// Two-leg transfer: the sender's transition is submitted first, then the
/// recipient's, independently. Not atomic: the first leg's record survives
/// a failure of the second, and the result carries the ledger as far as it
/// got together with the error.
pub open spec fn transfer_model(
    l: LedgerModel,
    height: u64,
    time: u64,
    sender_t: TransitionModel,
    recipient_t: TransitionModel,
) -> (LedgerModel, Result<(Seq<char>, Seq<char>), ContractError>) {
    match submit_model(l, height, time, sender_t) {
        Err(e) => (l, Err(e)),
        Ok((l1, id1)) => match submit_model(l1, height, time, recipient_t) {
            Err(e) => (l1, Err(e)),
            Ok((l2, id2)) => (l2, Ok((id1, id2))),
        },
    }
}

/// The genesis state root: thirty-two zero bytes.
pub open spec fn genesis_root() -> Seq<u8> {
    Seq::new(32, |i: int| 0u8)
}

/// The ids of all pending validations, in storage order.
pub open spec fn pending_ids(pending: Seq<PendingModel>) -> Seq<Seq<char>> {
    Seq::new(pending.len(), |i: int| pending[i].validation_id)
}

// ---------------------------------------------------------------------------
// Small facts about the lookups and counters
// ---------------------------------------------------------------------------

/// Under unique addresses, any index whose node carries the address is
/// the index the lookup denotes.
pub proof fn lemma_node_index_is(nodes: Seq<NodeModel>, addr: Seq<char>, i: int)
    requires
        forall|x: int, y: int| 0 <= x < y < nodes.len() ==> nodes[x].address != nodes[y].address,
        0 <= i < nodes.len(),
        nodes[i].address == addr,
    ensures
        has_node_with_address(nodes, addr),
        node_index_of(nodes, addr) == i,
{
    assert(has_node_with_address(nodes, addr));
    let j = node_index_of(nodes, addr);
    if j != i {
        if j < i {
            assert(nodes[j].address != nodes[i].address);
        } else {
            assert(nodes[i].address != nodes[j].address);
        }
        assert(false);
    }
}

/// Under unique ids, any index whose record carries the id is the index
/// the lookup denotes.
pub proof fn lemma_pending_index_is(pending: Seq<PendingModel>, id: Seq<char>, i: int)
    requires
        forall|x: int, y: int|
            0 <= x < y < pending.len() ==> pending[x].validation_id != pending[y].validation_id,
        0 <= i < pending.len(),
        pending[i].validation_id == id,
    ensures
        has_pending(pending, id),
        pending_index_of(pending, id) == i,
{
    assert(has_pending(pending, id));
    let j = pending_index_of(pending, id);
    if j != i {
        if j < i {
            assert(pending[j].validation_id != pending[i].validation_id);
        } else {
            assert(pending[i].validation_id != pending[j].validation_id);
        }
        assert(false);
    }
}

/// Under unique users, any index whose commitment carries the user is the
/// index the lookup denotes.
pub proof fn lemma_commitment_index_is(cs: Seq<CommitmentModel>, user: Seq<char>, i: int)
    requires
        forall|x: int, y: int|
            0 <= x < y < cs.len() ==> cs[x].user_address != cs[y].user_address,
        0 <= i < cs.len(),
        cs[i].user_address == user,
    ensures
        has_commitment(cs, user),
        commitment_index_of(cs, user) == i,
{
    assert(has_commitment(cs, user));
    let j = commitment_index_of(cs, user);
    if j != i {
        if j < i {
            assert(cs[j].user_address != cs[i].user_address);
        } else {
            assert(cs[i].user_address != cs[j].user_address);
        }
        assert(false);
    }
}

/// Appending a vote raises the approving count by one exactly when the
/// vote approves.
pub proof fn lemma_valid_count_push(votes: Seq<VoteModel>, v: VoteModel)
    ensures
        valid_count(votes.push(v)) == valid_count(votes) + if v.valid {
            1nat
        } else {
            0nat
        },
{
    assert(votes.push(v).drop_last() =~= votes);
}

/// Appending a vote from a node that has not voted keeps votes unique.
pub proof fn lemma_votes_unique_push(votes: Seq<VoteModel>, v: VoteModel)
    requires
        votes_unique(votes),
        !has_vote(votes, v.node_id),
    ensures
        votes_unique(votes.push(v)),
{
    assert forall|i: int, j: int| 0 <= i < j < votes.push(v).len() implies votes.push(v)[i].node_id
        != votes.push(v)[j].node_id by {
        if j == votes.len() {
            assert(!(votes[i].node_id == v.node_id));
        }
    }
}

// ---------------------------------------------------------------------------
// The transitions preserve the invariant
// ---------------------------------------------------------------------------

/// Registration keeps the committee well formed and touches nothing but
/// the node list.
pub proof fn lemma_register_preserves_wf(s: StateModel, sender: Seq<char>, public_key: Seq<u8>)
    requires
        state_wf(s),
        s.mpc_nodes.len() < 0xFFFF_FFFF,
    ensures
        ({
            let (s2, id, upd) = register_model(s, sender, public_key);
            &&& state_wf(s2)
            &&& s2.threshold == s.threshold
            &&& s2.current_state_root == s.current_state_root
            &&& s2.block_height == s.block_height
            &&& s2.mpc_nodes.len() == s.mpc_nodes.len() + if upd {
                0int
            } else {
                1int
            }
        }),
{
    let (s2, id, upd) = register_model(s, sender, public_key);
    if has_node_with_address(s.mpc_nodes, sender) {
        let i = node_index_of(s.mpc_nodes, sender);
        assert(0 <= i < s.mpc_nodes.len());
        assert forall|x: int, y: int| 0 <= x < y < s2.mpc_nodes.len() implies s2.mpc_nodes[x].address
            != s2.mpc_nodes[y].address by {
            assert(s2.mpc_nodes[x].address == s.mpc_nodes[x].address);
            assert(s2.mpc_nodes[y].address == s.mpc_nodes[y].address);
        }
    } else {
        assert forall|x: int, y: int| 0 <= x < y < s2.mpc_nodes.len() implies s2.mpc_nodes[x].address
            != s2.mpc_nodes[y].address by {
            if y == s.mpc_nodes.len() {
                assert(!(s.mpc_nodes[x].address == sender));
            }
        }
    }
}

/// A well-formed fresh record keyed-inserted into a well-formed pending
/// map keeps the map well formed.
pub proof fn lemma_upsert_pending_wf(l: LedgerModel, p: PendingModel)
    requires
        ledger_wf(l),
        pending_wf(p, l.state.threshold),
    ensures
        ({
            let pending2 = upsert_pending(l.pending, p);
            &&& forall|i: int, j: int|
                0 <= i < j < pending2.len() ==> pending2[i].validation_id
                    != pending2[j].validation_id
            &&& forall|i: int|
                0 <= i < pending2.len() ==> pending_wf(#[trigger] pending2[i], l.state.threshold)
        }),
{
    let pending2 = upsert_pending(l.pending, p);
    if has_pending(l.pending, p.validation_id) {
        let i = pending_index_of(l.pending, p.validation_id);
        assert(0 <= i < l.pending.len() && l.pending[i].validation_id == p.validation_id);
        assert forall|x: int, y: int| 0 <= x < y < pending2.len() implies pending2[x].validation_id
            != pending2[y].validation_id by {
            assert(l.pending[x].validation_id != l.pending[y].validation_id);
        }
    } else {
        assert forall|x: int, y: int| 0 <= x < y < pending2.len() implies pending2[x].validation_id
            != pending2[y].validation_id by {
            if y == l.pending.len() {
                assert(!(l.pending[x].validation_id == p.validation_id));
            }
        }
    }
}

/// Intake keeps the ledger well formed: the fresh record has no votes, so
/// its approving count is below any threshold of at least one.
pub proof fn lemma_submit_preserves_wf(l: LedgerModel, height: u64, time: u64, t: TransitionModel)
    requires
        ledger_wf(l),
    ensures
        match submit_model(l, height, time, t) {
            Ok((l2, id)) => ledger_wf(l2),
            Err(_) => true,
        },
{
    match submit_model(l, height, time, t) {
        Ok((l2, id)) => {
            let p = fresh_pending(validation_id_of(height, t.user_address), t, time);
            assert(valid_count(p.validations) == 0);
            lemma_upsert_pending_wf(l, p);
        },
        Err(_) => {},
    }
}

/// The finalization step keeps the ledger well formed: it only deletes a
/// pending record and upserts one commitment.
pub proof fn lemma_finalize_apply_preserves_wf(l: LedgerModel, pi: int, p: PendingModel, time: u64)
    requires
        ledger_wf(l),
        0 <= pi < l.pending.len(),
    ensures
        ledger_wf(finalize_apply(l, pi, p, time)),
{
    let l2 = finalize_apply(l, pi, p, time);
    assert forall|x: int, y: int| 0 <= x < y < l2.pending.len() implies l2.pending[x].validation_id
        != l2.pending[y].validation_id by {
        let x0 = if x < pi { x } else { x + 1 };
        let y0 = if y < pi { y } else { y + 1 };
        assert(l2.pending[x] == l.pending[x0]);
        assert(l2.pending[y] == l.pending[y0]);
        assert(l.pending[x0].validation_id != l.pending[y0].validation_id);
    }
    assert forall|i: int| 0 <= i < l2.pending.len() implies pending_wf(
        #[trigger] l2.pending[i],
        l2.state.threshold,
    ) by {
        let i0 = if i < pi { i } else { i + 1 };
        assert(l2.pending[i] == l.pending[i0]);
        assert(pending_wf(l.pending[i0], l.state.threshold));
    }
    let c = commitment_of(p.transition, time);
    if has_commitment(l.commitments, c.user_address) {
        let ci = commitment_index_of(l.commitments, c.user_address);
        assert(0 <= ci < l.commitments.len() && l.commitments[ci].user_address == c.user_address);
        assert forall|x: int, y: int| 0 <= x < y < l2.commitments.len() implies l2.commitments[x].user_address
            != l2.commitments[y].user_address by {
            assert(l.commitments[x].user_address != l.commitments[y].user_address);
        }
    } else {
        assert forall|x: int, y: int| 0 <= x < y < l2.commitments.len() implies l2.commitments[x].user_address
            != l2.commitments[y].user_address by {
            if y == l.commitments.len() {
                assert(!(l.commitments[x].user_address == c.user_address));
            }
        }
    }
}

/// Vote tracking keeps the ledger well formed, whether or not the vote
/// finalizes.
pub proof fn lemma_vote_preserves_wf(
    l: LedgerModel,
    sender: Seq<char>,
    id: Seq<char>,
    valid: bool,
    sig: Seq<u8>,
    time: u64,
)
    requires
        ledger_wf(l),
    ensures
        match vote_model(l, sender, id, valid, sig, time) {
            Ok(o) => ledger_wf(o.ledger),
            Err(_) => true,
        },
{
    if has_active_node(l.state.mpc_nodes, sender) {
        let node_id = l.state.mpc_nodes[node_index_of(l.state.mpc_nodes, sender)].node_id;
        if has_pending(l.pending, id) {
            let pi = pending_index_of(l.pending, id);
            let p = l.pending[pi];
            if !has_vote(p.validations, node_id) {
                let v = VoteModel { node_id, valid, partial_signature: sig };
                let p2 = PendingModel { validations: p.validations.push(v), ..p };
                lemma_votes_unique_push(p.validations, v);
                lemma_valid_count_push(p.validations, v);
                if valid_count(p2.validations) >= l.state.threshold as nat {
                    lemma_finalize_apply_preserves_wf(l, pi, p2, time);
                } else {
                    let p3 = PendingModel { threshold_reached: false, ..p2 };
                    let l2 = LedgerModel { pending: l.pending.update(pi, p3), ..l };
                    assert forall|x: int, y: int| 0 <= x < y < l2.pending.len() implies l2.pending[x].validation_id
                        != l2.pending[y].validation_id by {
                        assert(l.pending[x].validation_id != l.pending[y].validation_id);
                    }
                    assert forall|i: int| 0 <= i < l2.pending.len() implies pending_wf(
                        #[trigger] l2.pending[i],
                        l2.state.threshold,
                    ) by {
                        if i != pi {
                            assert(pending_wf(l.pending[i], l.state.threshold));
                        }
                    }
                }
            }
        }
    }
}

/// Explicit finalization keeps the ledger well formed.
pub proof fn lemma_finalize_preserves_wf(l: LedgerModel, id: Seq<char>, time: u64)
    requires
        ledger_wf(l),
    ensures
        match finalize_model(l, id, time) {
            Ok(o) => ledger_wf(o.ledger),
            Err(_) => true,
        },
{
    if has_pending(l.pending, id) {
        let pi = pending_index_of(l.pending, id);
        if l.pending[pi].threshold_reached {
            lemma_finalize_apply_preserves_wf(l, pi, l.pending[pi], time);
        }
    }
}

} // verus!
