//! The operations: node registration, transition intake, vote tracking
//! with inline auto-finalization, explicit finalization, two-leg transfers,
//! and the read-only query surface. Each executable function promises to
//! behave exactly as the corresponding transition in [`crate::model`].

use vstd::prelude::*;
use vstd::pervasive::VecAdditionalExecFns;
use sha2::{Digest, Sha256};
use crate::encode::{hex_encode, hex_of, make_validation_id, validation_id_of, clone_bytes};
use crate::model::{
    NodeModel, ProofElementModel, VoteModel, PendingModel, CommitmentModel,
    has_node_with_address, node_index_of, has_active_node, has_pending, pending_index_of,
    has_commitment, commitment_index_of, has_vote, valid_count, concat_signatures, flat_proof,
    genesis_root, pending_ids, register_model, fresh_pending, submit_model, commitment_of,
    vote_model, finalize_model, transfer_model, lemma_node_index_is, lemma_pending_index_is,
    lemma_commitment_index_is, lemma_register_preserves_wf, lemma_submit_preserves_wf,
    lemma_vote_preserves_wf, lemma_finalize_preserves_wf,
};
use crate::msg::{
    ContractError, InstantiateMsg, ExecuteMsg, QueryMsg, Response, QueryAnswer, StateResponse,
    StateCommitmentResponse, ValidationResponse, CurrentRootResponse, PendingValidationsResponse,
};
use crate::state::{
    State, MPCNode, StateCommitment, StateTransition, Transfer, PendingValidation, NodeValidation,
    MerkleProofElement, Ledger, Ctx,
};

verus! {

/// The vote models of a sequence of stored votes.
pub open spec fn votes_view(s: Seq<NodeValidation>) -> Seq<VoteModel> {
    Seq::new(s.len(), |i: int| s[i]@)
}

/// The proof-element models of a sequence of stored elements.
pub open spec fn proof_view(s: Seq<MerkleProofElement>) -> Seq<ProofElementModel> {
    Seq::new(s.len(), |i: int| s[i]@)
}

/// What the digest of a node's balance and nonce shares is; fixed by the
/// arguments alone.
pub uninterp spec fn sha256_of_shares(balance: i64, nonce: i64) -> Seq<u8>;

/// The digest an off-chain node computes over its decrypted shares when it
/// checks a transition.
///
/// Relies on `sha2::Sha256` over the little-endian bytes of `balance`
/// followed by those of `nonce`: a pure 32-byte digest of its input.
#[verifier::external_body]
pub fn hash_shares(balance: i64, nonce: i64) -> (r: Vec<u8>)
    ensures
        r@ == sha256_of_shares(balance, nonce),
        r@.len() == 32,
{
    let mut hasher = Sha256::new();
    hasher.update(balance.to_le_bytes());
    hasher.update(nonce.to_le_bytes());
    hasher.finalize().to_vec()
}

/// The minimal authenticity check intake performs: the signature blob must
/// be non-empty. Real verification is an external collaborator.
pub fn verify_user_signature(transition: &StateTransition) -> (r: bool)
    ensures
        r == (transition@.user_signature.len() != 0),
{
    !transition.user_signature.is_empty()
}

/// Aggregates the partial signatures of all votes, in submission order, as
/// the threshold-signature placeholder.
pub fn aggregate_signatures(validations: &[NodeValidation]) -> (r: Vec<u8>)
    ensures
        r@ == concat_signatures(votes_view(validations@)),
{
    let ghost vv = votes_view(validations@);
    let mut r: Vec<u8> = Vec::new();
    let mut i: usize = 0;
    while i < validations.len()
        invariant
            vv == votes_view(validations@),
            i <= validations@.len(),
            r@ == concat_signatures(vv.subrange(0, i as int)),
        decreases validations@.len() - i,
    {
        let mut j: usize = 0;
        let n = validations[i].partial_signature.len();
        while j < n
            invariant
                vv == votes_view(validations@),
                i < validations@.len(),
                n == validations@[i as int]@.partial_signature.len(),
                j <= n,
                r@ == concat_signatures(vv.subrange(0, i as int)) + vv[i as int].partial_signature
                    .subrange(0, j as int),
            decreases n - j,
        {
            r.push(validations[i].partial_signature[j]);
            j = j + 1;
            proof {
                assert(r@ =~= concat_signatures(vv.subrange(0, i as int))
                    + vv[i as int].partial_signature.subrange(0, j as int));
            }
        }
        i = i + 1;
        proof {
            assert(vv.subrange(0, i as int).drop_last() =~= vv.subrange(0, i - 1));
            assert(vv[i - 1].partial_signature.subrange(
                0,
                vv[i - 1].partial_signature.len() as int,
            ) =~= vv[i - 1].partial_signature);
            assert(r@ =~= concat_signatures(vv.subrange(0, i as int)));
        }
    }
    proof {
        assert(vv.subrange(0, validations@.len() as int) =~= vv);
    }
    r
}

/// Flattens a Merkle proof for storage: the element hashes concatenated in
/// order. Write-only; no decoder exists.
pub fn serialize_merkle_proof(proof: &[MerkleProofElement]) -> (r: Vec<u8>)
    ensures
        r@ == flat_proof(proof_view(proof@)),
{
    let ghost pv = proof_view(proof@);
    let mut r: Vec<u8> = Vec::new();
    let mut i: usize = 0;
    while i < proof.len()
        invariant
            pv == proof_view(proof@),
            i <= proof@.len(),
            r@ == flat_proof(pv.subrange(0, i as int)),
        decreases proof@.len() - i,
    {
        let mut j: usize = 0;
        let n = proof[i].hash.len();
        while j < n
            invariant
                pv == proof_view(proof@),
                i < proof@.len(),
                n == proof@[i as int]@.hash.len(),
                j <= n,
                r@ == flat_proof(pv.subrange(0, i as int)) + pv[i as int].hash.subrange(
                    0,
                    j as int,
                ),
            decreases n - j,
        {
            r.push(proof[i].hash[j]);
            j = j + 1;
            proof {
                assert(r@ =~= flat_proof(pv.subrange(0, i as int)) + pv[i as int].hash.subrange(
                    0,
                    j as int,
                ));
            }
        }
        i = i + 1;
        proof {
            assert(pv.subrange(0, i as int).drop_last() =~= pv.subrange(0, i - 1));
            assert(pv[i - 1].hash.subrange(0, pv[i - 1].hash.len() as int) =~= pv[i - 1].hash);
            assert(r@ =~= flat_proof(pv.subrange(0, i as int)));
        }
    }
    proof {
        assert(pv.subrange(0, proof@.len() as int) =~= pv);
    }
    r
}

/// The index of the first node registered under this address, if any.
fn find_node_index(nodes: &Vec<MPCNode>, addr: &String) -> (r: Option<usize>)
    ensures
        match r {
            Some(i) => i < nodes@.len() && nodes@[i as int]@.address == addr@ && (forall|j: int|
                0 <= j < i ==> nodes@[j]@.address != addr@),
            None => forall|j: int| 0 <= j < nodes@.len() ==> nodes@[j]@.address != addr@,
        },
{
    let mut i: usize = 0;
    while i < nodes.len()
        invariant
            i <= nodes@.len(),
            forall|j: int| 0 <= j < i ==> nodes@[j]@.address != addr@,
        decreases nodes@.len() - i,
    {
        if nodes[i].address == *addr {
            return Some(i);
        }
        i = i + 1;
    }
    None
}

/// The index of the pending record filed under this id, if any.
fn find_pending_index(pending: &Vec<PendingValidation>, id: &String) -> (r: Option<usize>)
    ensures
        match r {
            Some(i) => i < pending@.len() && pending@[i as int]@.validation_id == id@ && (forall|
                j: int,
            |
                0 <= j < i ==> pending@[j]@.validation_id != id@),
            None => forall|j: int| 0 <= j < pending@.len() ==> pending@[j]@.validation_id != id@,
        },
{
    let mut i: usize = 0;
    while i < pending.len()
        invariant
            i <= pending@.len(),
            forall|j: int| 0 <= j < i ==> pending@[j]@.validation_id != id@,
        decreases pending@.len() - i,
    {
        if pending[i].validation_id == *id {
            return Some(i);
        }
        i = i + 1;
    }
    None
}

/// The index of the commitment stored for this user, if any.
fn find_commitment_index(cs: &Vec<StateCommitment>, user: &String) -> (r: Option<usize>)
    ensures
        match r {
            Some(i) => i < cs@.len() && cs@[i as int]@.user_address == user@ && (forall|j: int|
                0 <= j < i ==> cs@[j]@.user_address != user@),
            None => forall|j: int| 0 <= j < cs@.len() ==> cs@[j]@.user_address != user@,
        },
{
    let mut i: usize = 0;
    while i < cs.len()
        invariant
            i <= cs@.len(),
            forall|j: int| 0 <= j < i ==> cs@[j]@.user_address != user@,
        decreases cs@.len() - i,
    {
        if cs[i].user_address == *user {
            return Some(i);
        }
        i = i + 1;
    }
    None
}

/// Whether this node already voted on the record.
fn has_vote_by(votes: &Vec<NodeValidation>, node_id: u32) -> (r: bool)
    ensures
        r == has_vote(votes.deep_view(), node_id),
{
    let mut i: usize = 0;
    while i < votes.len()
        invariant
            i <= votes@.len(),
            forall|j: int| 0 <= j < i ==> votes@[j]@.node_id != node_id,
        decreases votes@.len() - i,
    {
        if votes[i].node_id == node_id {
            proof {
                assert(votes.deep_view()[i as int].node_id == node_id);
            }
            return true;
        }
        i = i + 1;
    }
    proof {
        assert forall|j: int| 0 <= j < votes.deep_view().len() implies votes.deep_view()[j].node_id
            != node_id by {
            assert(votes@[j]@.node_id != node_id);
        }
    }
    false
}

/// Counts the approving votes.
fn count_valid(votes: &Vec<NodeValidation>) -> (r: usize)
    ensures
        r as nat == valid_count(votes.deep_view()),
{
    let ghost dv = votes.deep_view();
    let mut cnt: usize = 0;
    let mut i: usize = 0;
    while i < votes.len()
        invariant
            dv == votes.deep_view(),
            i <= votes@.len(),
            cnt <= i,
            cnt as nat == valid_count(dv.subrange(0, i as int)),
        decreases votes@.len() - i,
    {
        if votes[i].valid {
            cnt = cnt + 1;
        }
        i = i + 1;
        proof {
            assert(dv.subrange(0, i as int).drop_last() =~= dv.subrange(0, i - 1));
        }
    }
    proof {
        assert(dv.subrange(0, votes@.len() as int) =~= dv);
    }
    cnt
}

/// Seeds the ledger: empty registry, the given quorum size, the all-zero
/// genesis root, height zero, and no pending records or commitments.
pub fn instantiate(msg: &InstantiateMsg) -> (l: Ledger)
    requires
        msg.threshold >= 1,
    ensures
        l.wf(),
        l@.state.threshold == msg.threshold,
        l@.state.mpc_nodes == Seq::<NodeModel>::empty(),
        l@.state.current_state_root == genesis_root(),
        l@.state.block_height == 0,
        l@.pending == Seq::<PendingModel>::empty(),
        l@.commitments == Seq::<CommitmentModel>::empty(),
{
    let mut root: Vec<u8> = Vec::new();
    let mut i: usize = 0;
    while i < 32
        invariant
            i <= 32,
            root@.len() == i as int,
            forall|k: int| 0 <= k < i ==> root@[k] == 0u8,
        decreases 32 - i,
    {
        root.push(0u8);
        i = i + 1;
    }
    let l = Ledger {
        state: State {
            mpc_nodes: Vec::new(),
            threshold: msg.threshold,
            current_state_root: root,
            block_height: 0,
        },
        pending: Vec::new(),
        commitments: Vec::new(),
    };
    proof {
        assert(l@.state.current_state_root =~= genesis_root());
        assert(l@.state.mpc_nodes =~= Seq::<NodeModel>::empty());
        assert(l@.pending =~= Seq::<PendingModel>::empty());
        assert(l@.commitments =~= Seq::<CommitmentModel>::empty());
    }
    l
}

/// Registers the caller as a committee node, or — if the address is
/// already registered — updates its key and reactivates it in place under
/// its original id. Never fails.
pub fn register_mpc_node(ledger: &mut Ledger, sender: &String, public_key: Vec<u8>) -> (r: Response)
    requires
        old(ledger).wf(),
        old(ledger)@.state.mpc_nodes.len() < 0xFFFF_FFFF,
    ensures
        final(ledger).wf(),
        ({
            let (s2, id, upd) = register_model(old(ledger)@.state, sender@, public_key@);
            &&& final(ledger)@.state == s2
            &&& final(ledger)@.pending == old(ledger)@.pending
            &&& final(ledger)@.commitments == old(ledger)@.commitments
            &&& r matches Response::Registered { node_id, address, updated } && node_id == id
                && address@ == sender@ && updated == upd
        }),
{
    let ghost pre = ledger@;
    match find_node_index(&ledger.state.mpc_nodes, sender) {
        Some(i) => {
            proof {
                lemma_node_index_is(pre.state.mpc_nodes, sender@, i as int);
                lemma_register_preserves_wf(pre.state, sender@, public_key@);
            }
            let node_id = ledger.state.mpc_nodes[i].node_id;
            let mut node = ledger.state.mpc_nodes.remove(i);
            node.public_key = public_key;
            node.active = true;
            ledger.state.mpc_nodes.insert(i, node);
            proof {
                let (s2, id, upd) = register_model(pre.state, sender@, public_key@);
                assert(ledger@.state.mpc_nodes =~~= s2.mpc_nodes);
                assert(ledger@.state =~~= s2);
                assert(ledger@.pending =~~= pre.pending);
                assert(ledger@.commitments =~~= pre.commitments);
            }
            Response::Registered { node_id, address: sender.clone(), updated: true }
        },
        None => {
            proof {
                lemma_register_preserves_wf(pre.state, sender@, public_key@);
            }
            let node_id = ledger.state.mpc_nodes.len() as u32 + 1;
            ledger.state.mpc_nodes.push(
                MPCNode { address: sender.clone(), node_id, public_key, active: true },
            );
            proof {
                let (s2, id, upd) = register_model(pre.state, sender@, public_key@);
                assert(!has_node_with_address(pre.state.mpc_nodes, sender@));
                assert(ledger@.state.mpc_nodes =~~= s2.mpc_nodes);
                assert(ledger@.state =~~= s2);
                assert(ledger@.pending =~~= pre.pending);
                assert(ledger@.commitments =~~= pre.commitments);
            }
            Response::Registered { node_id, address: sender.clone(), updated: false }
        },
    }
}

/// Accepts a user-submitted transition: rejects an empty signature blob,
/// otherwise opens a pending record under `"<block_height>-<user_address>"`,
/// silently overwriting any record already filed under that id.
pub fn submit_state_transition(ledger: &mut Ledger, ctx: &Ctx, transition: StateTransition) -> (r:
    Result<Response, ContractError>)
    requires
        old(ledger).wf(),
    ensures
        final(ledger).wf(),
        match submit_model(old(ledger)@, ctx.block_height, ctx.block_time, transition@) {
            Ok(pair) => final(ledger)@ == pair.0 && (r matches Ok(resp) && resp matches
                Response::Submitted { validation_id, user, old_root_hex, new_root_hex }
                && validation_id@ == pair.1 && user@ == transition@.user_address
                && old_root_hex@ == hex_of(transition@.old_state_root)
                && new_root_hex@ == hex_of(transition@.new_state_root)),
            Err(e) => final(ledger)@ == old(ledger)@ && (r matches Err(ae) && ae == e),
        },
{
    let ghost pre = ledger@;
    if !verify_user_signature(&transition) {
        return Err(ContractError::InvalidUserSignature);
    }
    proof {
        lemma_submit_preserves_wf(pre, ctx.block_height, ctx.block_time, transition@);
    }
    let ghost tm = transition@;
    let id = make_validation_id(ctx.block_height, &transition.user_address);
    let user = transition.user_address.clone();
    let old_root_hex = hex_encode(&transition.old_state_root);
    let new_root_hex = hex_encode(&transition.new_state_root);
    let pv = PendingValidation {
        validation_id: id.clone(),
        transition,
        validations: Vec::new(),
        threshold_reached: false,
        created_at: ctx.block_time,
    };
    proof {
        assert(pv@ =~~= fresh_pending(
            validation_id_of(ctx.block_height, tm.user_address),
            tm,
            ctx.block_time,
        ));
    }
    match find_pending_index(&ledger.pending, &id) {
        Some(i) => {
            proof {
                lemma_pending_index_is(pre.pending, id@, i as int);
            }
            ledger.pending.set(i, pv);
        },
        None => {
            proof {
                assert(!has_pending(pre.pending, id@));
            }
            ledger.pending.push(pv);
        },
    }
    proof {
        let pair = submit_model(pre, ctx.block_height, ctx.block_time, tm).unwrap();
        assert(ledger@ =~~= pair.0);
    }
    Ok(Response::Submitted { validation_id: id, user, old_root_hex, new_root_hex })
}

/// Records one committee vote. The caller must resolve to an active node,
/// the record must exist, and the node must not have voted on it; the vote
/// is appended, and the moment approving votes reach the threshold the
/// record auto-finalizes inline: root advanced, height raised by one,
/// commitment upserted, record deleted.
pub fn validate_transition(
    ledger: &mut Ledger,
    ctx: &Ctx,
    validation_id: String,
    valid: bool,
    partial_signature: Vec<u8>,
) -> (r: Result<Response, ContractError>)
    requires
        old(ledger).wf(),
        old(ledger)@.state.block_height < u64::MAX,
    ensures
        final(ledger).wf(),
        match vote_model(
            old(ledger)@,
            ctx.sender@,
            validation_id@,
            valid,
            partial_signature@,
            ctx.block_time,
        ) {
            Ok(o) => final(ledger)@ == o.ledger && (if o.finalized {
                r matches Ok(resp) && resp matches Response::VotedAndFinalized {
                    node_id,
                    valid: v,
                    user,
                    new_root_hex,
                    block_height,
                    threshold_signature_hex,
                } && node_id == o.node_id && v == valid && user@ == o.user && new_root_hex@
                    == hex_of(o.new_root) && block_height == o.block_height
                    && threshold_signature_hex@ == hex_of(o.threshold_signature)
            } else {
                r matches Ok(resp) && resp matches Response::Voted {
                    node_id,
                    valid: v,
                    threshold_reached,
                } && node_id == o.node_id && v == valid && threshold_reached == false
            }),
            Err(e) => final(ledger)@ == old(ledger)@ && (r matches Err(ae) && ae == e),
        },
{
    let ghost pre = ledger@;
    let ghost sigm = partial_signature@;
    proof {
        lemma_vote_preserves_wf(pre, ctx.sender@, validation_id@, valid, sigm, ctx.block_time);
    }
    let ni = match find_node_index(&ledger.state.mpc_nodes, &ctx.sender) {
        Some(i) => i,
        None => {
            proof {
                assert(!has_active_node(pre.state.mpc_nodes, ctx.sender@)) by {
                    if has_active_node(pre.state.mpc_nodes, ctx.sender@) {
                        let k = choose|k: int|
                            0 <= k < pre.state.mpc_nodes.len() && pre.state.mpc_nodes[k].address
                                == ctx.sender@ && pre.state.mpc_nodes[k].active;
                        assert(ledger.state.mpc_nodes@[k]@.address == ctx.sender@);
                    }
                }
            }
            return Err(ContractError::NotAnActiveNode);
        },
    };
    proof {
        lemma_node_index_is(pre.state.mpc_nodes, ctx.sender@, ni as int);
    }
    if !ledger.state.mpc_nodes[ni].active {
        proof {
            assert(!has_active_node(pre.state.mpc_nodes, ctx.sender@)) by {
                if has_active_node(pre.state.mpc_nodes, ctx.sender@) {
                    let k = choose|k: int|
                        0 <= k < pre.state.mpc_nodes.len() && pre.state.mpc_nodes[k].address
                            == ctx.sender@ && pre.state.mpc_nodes[k].active;
                    lemma_node_index_is(pre.state.mpc_nodes, ctx.sender@, k);
                }
            }
        }
        return Err(ContractError::NotAnActiveNode);
    }
    let node_id = ledger.state.mpc_nodes[ni].node_id;
    proof {
        assert(has_active_node(pre.state.mpc_nodes, ctx.sender@));
        assert(pre.state.mpc_nodes[node_index_of(pre.state.mpc_nodes, ctx.sender@)].node_id
            == node_id);
    }
    let pi = match find_pending_index(&ledger.pending, &validation_id) {
        Some(i) => i,
        None => {
            proof {
                assert(!has_pending(pre.pending, validation_id@));
            }
            return Err(ContractError::ValidationNotFound);
        },
    };
    proof {
        lemma_pending_index_is(pre.pending, validation_id@, pi as int);
    }
    if has_vote_by(&ledger.pending[pi].validations, node_id) {
        return Err(ContractError::AlreadyValidated);
    }
    let mut pv = ledger.pending.remove(pi);
    pv.validations.push(NodeValidation { node_id, valid, partial_signature });
    let ghost p2 = PendingModel {
        validations: pre.pending[pi as int].validations.push(
            VoteModel { node_id, valid, partial_signature: sigm },
        ),
        ..pre.pending[pi as int]
    };
    proof {
        assert(pv@ =~~= p2);
    }
    let cnt = count_valid(&pv.validations);
    if cnt >= ledger.state.threshold as usize {
        let threshold_signature = aggregate_signatures(pv.validations.as_slice());
        proof {
            assert(votes_view(pv.validations@) =~= pv.validations.deep_view());
        }
        let threshold_signature_hex = hex_encode(&threshold_signature);
        ledger.state.current_state_root = clone_bytes(&pv.transition.new_state_root);
        ledger.state.block_height = ledger.state.block_height + 1;
        let proof_bytes = serialize_merkle_proof(pv.transition.merkle_proof.as_slice());
        proof {
            assert(proof_view(pv.transition.merkle_proof@) =~= pv.transition.merkle_proof
                .deep_view());
        }
        let user = pv.transition.user_address.clone();
        let commitment = StateCommitment {
            user_address: pv.transition.user_address.clone(),
            state_root: clone_bytes(&pv.transition.new_state_root),
            ipfs_cid: pv.transition.new_state_ipfs.clone(),
            merkle_proof: proof_bytes,
            nonce: 0,
            updated_at: ctx.block_time,
        };
        proof {
            assert(commitment@ =~~= commitment_of(p2.transition, ctx.block_time));
        }
        match find_commitment_index(&ledger.commitments, &commitment.user_address) {
            Some(ci) => {
                proof {
                    lemma_commitment_index_is(pre.commitments, commitment@.user_address, ci as int);
                }
                ledger.commitments.set(ci, commitment);
            },
            None => {
                proof {
                    assert(!has_commitment(pre.commitments, commitment@.user_address));
                }
                ledger.commitments.push(commitment);
            },
        }
        let new_root_hex = hex_encode(&ledger.state.current_state_root);
        let block_height = ledger.state.block_height;
        proof {
            let o = vote_model(
                pre,
                ctx.sender@,
                validation_id@,
                valid,
                sigm,
                ctx.block_time,
            ).unwrap();
            assert(o.finalized);
            assert(ledger@ =~~= o.ledger);
        }
        Ok(
            Response::VotedAndFinalized {
                node_id,
                valid,
                user,
                new_root_hex,
                block_height,
                threshold_signature_hex,
            },
        )
    } else {
        pv.threshold_reached = false;
        ledger.pending.insert(pi, pv);
        proof {
            let o = vote_model(
                pre,
                ctx.sender@,
                validation_id@,
                valid,
                sigm,
                ctx.block_time,
            ).unwrap();
            assert(!o.finalized);
            assert(ledger@ =~~= o.ledger);
        }
        Ok(Response::Voted { node_id, valid, threshold_reached: false })
    }
}

/// Explicitly finalizes a pending validation whose `threshold_reached`
/// flag is raised. The tracker deletes records on auto-finalization
/// without ever raising the flag, so under the normal flow this reports
/// `ValidationNotFound` or `ThresholdNotReached`.
pub fn finalize_transition(ledger: &mut Ledger, ctx: &Ctx, validation_id: String) -> (r: Result<
    Response,
    ContractError,
>)
    requires
        old(ledger).wf(),
        old(ledger)@.state.block_height < u64::MAX,
    ensures
        final(ledger).wf(),
        match finalize_model(old(ledger)@, validation_id@, ctx.block_time) {
            Ok(o) => final(ledger)@ == o.ledger && (r matches Ok(resp) && resp matches
                Response::Finalized {
                    user,
                    new_root_hex,
                    block_height,
                    ipfs_cid,
                    threshold_signature_hex,
                } && user@ == o.user && new_root_hex@ == hex_of(o.new_root) && block_height
                == o.block_height && ipfs_cid@ == o.ipfs_cid && threshold_signature_hex@ == hex_of(
                o.threshold_signature,
            )),
            Err(e) => final(ledger)@ == old(ledger)@ && (r matches Err(ae) && ae == e),
        },
{
    let ghost pre = ledger@;
    proof {
        lemma_finalize_preserves_wf(pre, validation_id@, ctx.block_time);
    }
    let pi = match find_pending_index(&ledger.pending, &validation_id) {
        Some(i) => i,
        None => {
            proof {
                assert(!has_pending(pre.pending, validation_id@));
            }
            return Err(ContractError::ValidationNotFound);
        },
    };
    proof {
        lemma_pending_index_is(pre.pending, validation_id@, pi as int);
    }
    if !ledger.pending[pi].threshold_reached {
        return Err(ContractError::ThresholdNotReached);
    }
    let pv = ledger.pending.remove(pi);
    let ghost pm = pre.pending[pi as int];
    let threshold_signature = aggregate_signatures(pv.validations.as_slice());
    proof {
        assert(votes_view(pv.validations@) =~= pv.validations.deep_view());
    }
    let threshold_signature_hex = hex_encode(&threshold_signature);
    ledger.state.current_state_root = clone_bytes(&pv.transition.new_state_root);
    ledger.state.block_height = ledger.state.block_height + 1;
    let proof_bytes = serialize_merkle_proof(pv.transition.merkle_proof.as_slice());
    proof {
        assert(proof_view(pv.transition.merkle_proof@) =~= pv.transition.merkle_proof.deep_view());
    }
    let user = pv.transition.user_address.clone();
    let ipfs_cid = pv.transition.new_state_ipfs.clone();
    let commitment = StateCommitment {
        user_address: pv.transition.user_address.clone(),
        state_root: clone_bytes(&pv.transition.new_state_root),
        ipfs_cid: pv.transition.new_state_ipfs.clone(),
        merkle_proof: proof_bytes,
        nonce: 0,
        updated_at: ctx.block_time,
    };
    proof {
        assert(commitment@ =~~= commitment_of(pm.transition, ctx.block_time));
    }
    match find_commitment_index(&ledger.commitments, &commitment.user_address) {
        Some(ci) => {
            proof {
                lemma_commitment_index_is(pre.commitments, commitment@.user_address, ci as int);
            }
            ledger.commitments.set(ci, commitment);
        },
        None => {
            proof {
                assert(!has_commitment(pre.commitments, commitment@.user_address));
            }
            ledger.commitments.push(commitment);
        },
    }
    let new_root_hex = hex_encode(&ledger.state.current_state_root);
    let block_height = ledger.state.block_height;
    proof {
        let o = finalize_model(pre, validation_id@, ctx.block_time).unwrap();
        assert(ledger@ =~~= o.ledger);
    }
    Ok(
        Response::Finalized {
            user,
            new_root_hex,
            block_height,
            ipfs_cid,
            threshold_signature_hex,
        },
    )
}

/// Submits the two legs of a transfer independently, sender first. Not
/// atomic: if the second leg is rejected, the first leg's pending record
/// has already been created and stays.
pub fn submit_transfer(ledger: &mut Ledger, ctx: &Ctx, transfer: Transfer) -> (r: Result<
    Response,
    ContractError,
>)
    requires
        old(ledger).wf(),
    ensures
        final(ledger).wf(),
        ({
            let (l2, res) = transfer_model(
                old(ledger)@,
                ctx.block_height,
                ctx.block_time,
                transfer.sender_transition@,
                transfer.recipient_transition@,
            );
            &&& final(ledger)@ == l2
            &&& match res {
                Ok(ids) => r matches Ok(resp) && resp matches Response::TransferSubmitted {
                    sender,
                    recipient,
                    amount_commitment_hex,
                    sender_validation_id,
                    recipient_validation_id,
                } && sender@ == transfer.sender@ && recipient@ == transfer.recipient@
                    && amount_commitment_hex@ == hex_of(transfer.amount_commitment@)
                    && sender_validation_id@ == ids.0 && recipient_validation_id@ == ids.1,
                Err(e) => r matches Err(ae) && ae == e,
            }
        }),
{
    let Transfer { sender, recipient, sender_transition, recipient_transition, amount_commitment }
        = transfer;
    let amount_commitment_hex = hex_encode(&amount_commitment);
    let r1 = match submit_state_transition(ledger, ctx, sender_transition) {
        Ok(resp) => resp,
        Err(e) => {
            return Err(e);
        },
    };
    let r2 = match submit_state_transition(ledger, ctx, recipient_transition) {
        Ok(resp) => resp,
        Err(e) => {
            return Err(e);
        },
    };
    let sender_validation_id = match r1 {
        Response::Submitted { validation_id, .. } => validation_id,
        _ => {
            proof {
                assert(false);
            }
            String::new()
        },
    };
    let recipient_validation_id = match r2 {
        Response::Submitted { validation_id, .. } => validation_id,
        _ => {
            proof {
                assert(false);
            }
            String::new()
        },
    };
    Ok(
        Response::TransferSubmitted {
            sender,
            recipient,
            amount_commitment_hex,
            sender_validation_id,
            recipient_validation_id,
        },
    )
}

/// Dispatches one operation against the ledger.
pub fn execute(ledger: &mut Ledger, ctx: &Ctx, msg: ExecuteMsg) -> (r: Result<
    Response,
    ContractError,
>)
    requires
        old(ledger).wf(),
        msg matches ExecuteMsg::RegisterMPCNode { .. } ==> old(ledger)@.state.mpc_nodes.len()
            < 0xFFFF_FFFF,
        (msg matches ExecuteMsg::ValidateTransition { .. } || msg matches
            ExecuteMsg::FinalizeTransition { .. }) ==> old(ledger)@.state.block_height < u64::MAX,
    ensures
        final(ledger).wf(),
        match msg {
            ExecuteMsg::RegisterMPCNode { public_key } => ({
                let (s2, id, upd) = register_model(old(ledger)@.state, ctx.sender@, public_key@);
                &&& final(ledger)@.state == s2
                &&& final(ledger)@.pending == old(ledger)@.pending
                &&& final(ledger)@.commitments == old(ledger)@.commitments
                &&& r matches Ok(resp) && resp matches Response::Registered {
                    node_id,
                    address,
                    updated,
                } && node_id == id && address@ == ctx.sender@ && updated == upd
            }),
            ExecuteMsg::SubmitStateTransition { transition } => match submit_model(
                old(ledger)@,
                ctx.block_height,
                ctx.block_time,
                transition@,
            ) {
                Ok(pair) => final(ledger)@ == pair.0 && (r matches Ok(resp) && resp matches
                    Response::Submitted { validation_id, user, old_root_hex, new_root_hex }
                    && validation_id@ == pair.1 && user@ == transition@.user_address
                    && old_root_hex@ == hex_of(transition@.old_state_root)
                    && new_root_hex@ == hex_of(transition@.new_state_root)),
                Err(e) => final(ledger)@ == old(ledger)@ && (r matches Err(ae) && ae == e),
            },
            ExecuteMsg::ValidateTransition { validation_id, valid, partial_signature } => match
                vote_model(
                old(ledger)@,
                ctx.sender@,
                validation_id@,
                valid,
                partial_signature@,
                ctx.block_time,
            ) {
                Ok(o) => final(ledger)@ == o.ledger && (if o.finalized {
                    r matches Ok(resp) && resp matches Response::VotedAndFinalized {
                        node_id,
                        valid: v,
                        user,
                        new_root_hex,
                        block_height,
                        threshold_signature_hex,
                    } && node_id == o.node_id && v == valid && user@ == o.user && new_root_hex@
                        == hex_of(o.new_root) && block_height == o.block_height
                        && threshold_signature_hex@ == hex_of(o.threshold_signature)
                } else {
                    r matches Ok(resp) && resp matches Response::Voted {
                        node_id,
                        valid: v,
                        threshold_reached,
                    } && node_id == o.node_id && v == valid && threshold_reached == false
                }),
                Err(e) => final(ledger)@ == old(ledger)@ && (r matches Err(ae) && ae == e),
            },
            ExecuteMsg::FinalizeTransition { validation_id } => match finalize_model(
                old(ledger)@,
                validation_id@,
                ctx.block_time,
            ) {
                Ok(o) => final(ledger)@ == o.ledger && (r matches Ok(resp) && resp matches
                    Response::Finalized {
                        user,
                        new_root_hex,
                        block_height,
                        ipfs_cid,
                        threshold_signature_hex,
                    } && user@ == o.user && new_root_hex@ == hex_of(o.new_root) && block_height
                    == o.block_height && ipfs_cid@ == o.ipfs_cid && threshold_signature_hex@
                    == hex_of(o.threshold_signature)),
                Err(e) => final(ledger)@ == old(ledger)@ && (r matches Err(ae) && ae == e),
            },
            ExecuteMsg::SubmitTransfer { transfer } => ({
                let (l2, res) = transfer_model(
                    old(ledger)@,
                    ctx.block_height,
                    ctx.block_time,
                    transfer.sender_transition@,
                    transfer.recipient_transition@,
                );
                &&& final(ledger)@ == l2
                &&& match res {
                    Ok(ids) => r matches Ok(resp) && resp matches Response::TransferSubmitted {
                        sender,
                        recipient,
                        amount_commitment_hex,
                        sender_validation_id,
                        recipient_validation_id,
                    } && sender@ == transfer.sender@ && recipient@ == transfer.recipient@
                        && amount_commitment_hex@ == hex_of(transfer.amount_commitment@)
                        && sender_validation_id@ == ids.0 && recipient_validation_id@ == ids.1,
                    Err(e) => r matches Err(ae) && ae == e,
                }
            }),
        },
{
    match msg {
        ExecuteMsg::RegisterMPCNode { public_key } => Ok(
            register_mpc_node(ledger, &ctx.sender, public_key),
        ),
        ExecuteMsg::SubmitStateTransition { transition } => submit_state_transition(
            ledger,
            ctx,
            transition,
        ),
        ExecuteMsg::ValidateTransition { validation_id, valid, partial_signature } =>
            validate_transition(ledger, ctx, validation_id, valid, partial_signature),
        ExecuteMsg::FinalizeTransition { validation_id } => finalize_transition(
            ledger,
            ctx,
            validation_id,
        ),
        ExecuteMsg::SubmitTransfer { transfer } => submit_transfer(ledger, ctx, transfer),
    }
}

/// Answers a read-only query; the ledger is untouched.
pub fn query(ledger: &Ledger, msg: QueryMsg) -> (r: Result<QueryAnswer, ContractError>)
    requires
        ledger.wf(),
    ensures
        match msg {
            QueryMsg::GetState {} => r matches Ok(a) && a matches QueryAnswer::State(s) && s.state@
                == ledger@.state,
            QueryMsg::GetStateCommitment { user_address } => if has_commitment(
                ledger@.commitments,
                user_address@,
            ) {
                r matches Ok(a) && a matches QueryAnswer::Commitment(c) && c.commitment@
                    == ledger@.commitments[commitment_index_of(
                    ledger@.commitments,
                    user_address@,
                )]
            } else {
                r matches Err(e) && e == ContractError::CommitmentNotFound
            },
            QueryMsg::GetValidation { validation_id } => if has_pending(
                ledger@.pending,
                validation_id@,
            ) {
                r matches Ok(a) && a matches QueryAnswer::Validation(v) && v.validation@
                    == ledger@.pending[pending_index_of(ledger@.pending, validation_id@)]
            } else {
                r matches Err(e) && e == ContractError::NotFound
            },
            QueryMsg::GetCurrentRoot {} => r matches Ok(a) && a matches QueryAnswer::CurrentRoot(c)
                && c.root@ == ledger@.state.current_state_root,
            QueryMsg::ListPendingValidations {} => r matches Ok(a) && a matches
                QueryAnswer::PendingList(p) && p.validation_ids.deep_view() == pending_ids(
                ledger@.pending,
            ),
        },
{
    match msg {
        QueryMsg::GetState {} => Ok(
            QueryAnswer::State(StateResponse { state: ledger.state.clone() }),
        ),
        QueryMsg::GetStateCommitment { user_address } => {
            match find_commitment_index(&ledger.commitments, &user_address) {
                Some(i) => {
                    proof {
                        lemma_commitment_index_is(ledger@.commitments, user_address@, i as int);
                        assert(ledger@.commitments[i as int] == ledger.commitments@[i as int]@);
                    }
                    Ok(
                        QueryAnswer::Commitment(
                            StateCommitmentResponse { commitment: ledger.commitments[i].clone() },
                        ),
                    )
                },
                None => {
                    proof {
                        assert(!has_commitment(ledger@.commitments, user_address@));
                    }
                    Err(ContractError::CommitmentNotFound)
                },
            }
        },
        QueryMsg::GetValidation { validation_id } => {
            match find_pending_index(&ledger.pending, &validation_id) {
                Some(i) => {
                    proof {
                        lemma_pending_index_is(ledger@.pending, validation_id@, i as int);
                        assert(ledger@.pending[i as int] == ledger.pending@[i as int]@);
                    }
                    Ok(
                        QueryAnswer::Validation(
                            ValidationResponse { validation: ledger.pending[i].clone() },
                        ),
                    )
                },
                None => {
                    proof {
                        assert(!has_pending(ledger@.pending, validation_id@));
                    }
                    Err(ContractError::NotFound)
                },
            }
        },
        QueryMsg::GetCurrentRoot {} => Ok(
            QueryAnswer::CurrentRoot(
                CurrentRootResponse { root: clone_bytes(&ledger.state.current_state_root) },
            ),
        ),
        QueryMsg::ListPendingValidations {} => {
            let mut ids: Vec<String> = Vec::new();
            let mut i: usize = 0;
            while i < ledger.pending.len()
                invariant
                    i <= ledger.pending@.len(),
                    ids@.len() == i as int,
                    forall|j: int| 0 <= j < i ==> (#[trigger] ids@[j])@ == ledger.pending@[j]@
                        .validation_id,
                decreases ledger.pending@.len() - i,
            {
                ids.push(ledger.pending[i].validation_id.clone());
                i = i + 1;
            }
            proof {
                assert(ids.deep_view() =~= pending_ids(ledger@.pending));
            }
            Ok(QueryAnswer::PendingList(PendingValidationsResponse { validation_ids: ids }))
        },
    }
}

} // verus!
