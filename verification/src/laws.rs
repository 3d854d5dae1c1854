//! System-wide guarantees, proved once and for all over the transitions in
//! [`crate::model`]. The executable operations promise to follow those
//! transitions exactly, so everything here holds of the running code.

use vstd::prelude::*;
use crate::model::{
    StateModel, LedgerModel, VoteModel, VoteOutcome, FinalizeOutcome, has_node_with_address,
    node_index_of, has_active_node, has_pending, pending_index_of, has_vote, valid_count,
    state_wf, votes_unique, pending_wf, ledger_wf, register_model, submit_model, vote_model,
    finalize_model, lemma_node_index_is, lemma_pending_index_is, lemma_valid_count_push,
    lemma_register_preserves_wf, lemma_vote_preserves_wf,
};
use crate::msg::ContractError;

verus! {

/// Re-registering the same address never creates a second node id: the
/// second registration reports an update, leaves the registry size alone,
/// and stores the new key, reactivated, under the original id.
pub proof fn lemma_reregistration_keeps_node_id(
    s: StateModel,
    addr: Seq<char>,
    pk1: Seq<u8>,
    pk2: Seq<u8>,
)
    requires
        state_wf(s),
        s.mpc_nodes.len() < 0xFFFF_FFFF,
    ensures
        ({
            let (s1, id1, _) = register_model(s, addr, pk1);
            let (s2, id2, upd2) = register_model(s1, addr, pk2);
            let i = node_index_of(s1.mpc_nodes, addr);
            &&& id2 == id1
            &&& upd2 == true
            &&& s2.mpc_nodes.len() == s1.mpc_nodes.len()
            &&& s2.mpc_nodes[i].node_id == id1
            &&& s2.mpc_nodes[i].public_key == pk2
            &&& s2.mpc_nodes[i].active
        }),
{
    lemma_register_preserves_wf(s, addr, pk1);
    let (s1, id1, _) = register_model(s, addr, pk1);
    if has_node_with_address(s.mpc_nodes, addr) {
        let i = node_index_of(s.mpc_nodes, addr);
        assert(s1.mpc_nodes[i].address == addr);
        assert(s1.mpc_nodes[i].node_id == id1);
        lemma_node_index_is(s1.mpc_nodes, addr, i);
    } else {
        let i = s.mpc_nodes.len() as int;
        assert(s1.mpc_nodes[i].address == addr);
        assert(s1.mpc_nodes[i].node_id == id1);
        lemma_node_index_is(s1.mpc_nodes, addr, i);
    }
}

/// On every pending record that survives a successful vote, the node ids
/// across its votes are pairwise distinct: no node's vote can ever be
/// counted twice.
pub proof fn lemma_votes_have_no_duplicate_nodes(
    l: LedgerModel,
    sender: Seq<char>,
    id: Seq<char>,
    valid: bool,
    sig: Seq<u8>,
    time: u64,
)
    requires
        ledger_wf(l),
        vote_model(l, sender, id, valid, sig, time) is Ok,
    ensures
        ({
            let o = vote_model(l, sender, id, valid, sig, time).unwrap();
            forall|k: int|
                0 <= k < o.ledger.pending.len() ==> votes_unique(
                    (#[trigger] o.ledger.pending[k]).validations,
                )
        }),
{
    lemma_vote_preserves_wf(l, sender, id, valid, sig, time);
    let o = vote_model(l, sender, id, valid, sig, time).unwrap();
    assert forall|k: int| 0 <= k < o.ledger.pending.len() implies votes_unique(
        (#[trigger] o.ledger.pending[k]).validations,
    ) by {
        assert(pending_wf(o.ledger.pending[k], o.ledger.state.threshold));
    }
}

/// Quorum auto-finalization is monotonic: the vote that first brings the
/// approving count to the threshold finalizes within that very transition —
/// it leaves no residual pending record under the id and advances the
/// block height by exactly one, moving the root to the transition's new
/// root.
pub proof fn lemma_quorum_vote_finalizes(
    l: LedgerModel,
    sender: Seq<char>,
    id: Seq<char>,
    valid: bool,
    sig: Seq<u8>,
    time: u64,
)
    requires
        ledger_wf(l),
        l.state.block_height < u64::MAX,
        vote_model(l, sender, id, valid, sig, time) is Ok,
        vote_model(l, sender, id, valid, sig, time).unwrap().finalized,
    ensures
        ({
            let o = vote_model(l, sender, id, valid, sig, time).unwrap();
            &&& !has_pending(o.ledger.pending, id)
            &&& o.ledger.state.block_height == l.state.block_height + 1
            &&& o.ledger.state.current_state_root == o.new_root
        }),
{
    let o = vote_model(l, sender, id, valid, sig, time).unwrap();
    let pi = pending_index_of(l.pending, id);
    assert(!has_pending(o.ledger.pending, id)) by {
        if has_pending(o.ledger.pending, id) {
            let k = choose|k: int|
                0 <= k < o.ledger.pending.len() && o.ledger.pending[k].validation_id == id;
            let k0 = if k < pi {
                k
            } else {
                k + 1
            };
            assert(o.ledger.pending[k] == l.pending[k0]);
            assert(l.pending[pi].validation_id == id);
            if k0 < pi {
                assert(l.pending[k0].validation_id != l.pending[pi].validation_id);
            } else {
                assert(l.pending[pi].validation_id != l.pending[k0].validation_id);
            }
        }
    }
}

/// Finalization happens at most once per id: once an auto-finalizing vote
/// has run, the record is gone, and any later vote or explicit finalize
/// under the same id reports `ValidationNotFound`.
pub proof fn lemma_finalize_at_most_once(
    l: LedgerModel,
    sender: Seq<char>,
    id: Seq<char>,
    valid: bool,
    sig: Seq<u8>,
    time: u64,
    sender2: Seq<char>,
    valid2: bool,
    sig2: Seq<u8>,
    time2: u64,
)
    requires
        ledger_wf(l),
        l.state.block_height < u64::MAX,
        vote_model(l, sender, id, valid, sig, time) is Ok,
        vote_model(l, sender, id, valid, sig, time).unwrap().finalized,
    ensures
        ({
            let o = vote_model(l, sender, id, valid, sig, time).unwrap();
            &&& !has_pending(o.ledger.pending, id)
            &&& finalize_model(o.ledger, id, time2) == Result::<
                FinalizeOutcome,
                ContractError,
            >::Err(ContractError::ValidationNotFound)
            &&& has_active_node(o.ledger.state.mpc_nodes, sender2) ==> vote_model(
                o.ledger,
                sender2,
                id,
                valid2,
                sig2,
                time2,
            ) == Result::<VoteOutcome, ContractError>::Err(ContractError::ValidationNotFound)
        }),
{
    lemma_quorum_vote_finalizes(l, sender, id, valid, sig, time);
}

/// A dissenting vote (`valid == false`) blocks the node from voting again
/// but never counts toward quorum: it cannot finalize the record whatever
/// the threshold is, and the same node's next vote on the record fails
/// with `AlreadyValidated`.
pub proof fn lemma_false_vote_blocks_but_never_finalizes(
    l: LedgerModel,
    sender: Seq<char>,
    id: Seq<char>,
    sig: Seq<u8>,
    time: u64,
    valid2: bool,
    sig2: Seq<u8>,
    time2: u64,
)
    requires
        ledger_wf(l),
        vote_model(l, sender, id, false, sig, time) is Ok,
    ensures
        ({
            let o = vote_model(l, sender, id, false, sig, time).unwrap();
            &&& !o.finalized
            &&& o.ledger.state == l.state
            &&& vote_model(o.ledger, sender, id, valid2, sig2, time2) == Result::<
                VoteOutcome,
                ContractError,
            >::Err(ContractError::AlreadyValidated)
        }),
{
    lemma_vote_preserves_wf(l, sender, id, false, sig, time);
    let o = vote_model(l, sender, id, false, sig, time).unwrap();
    let node_id = l.state.mpc_nodes[node_index_of(l.state.mpc_nodes, sender)].node_id;
    let pi = pending_index_of(l.pending, id);
    let p = l.pending[pi];
    let v = VoteModel { node_id, valid: false, partial_signature: sig };
    lemma_valid_count_push(p.validations, v);
    assert(valid_count(p.validations.push(v)) < l.state.threshold as nat);
    assert(!o.finalized);
    // The record survives, under the same id, now carrying the node's vote.
    let p3 = o.ledger.pending[pi];
    assert(p3.validation_id == id);
    lemma_pending_index_is(o.ledger.pending, id, pi);
    assert(has_vote(p3.validations, node_id)) by {
        assert(p3.validations.last().node_id == node_id);
    }
}

/// Without a finalization the current root cannot move: registration,
/// intake, and a vote that does not reach quorum all leave the committee's
/// root and height untouched — so reads of the current root, which change
/// nothing themselves, keep returning the same value until a finalization
/// runs.
pub proof fn lemma_root_stable_without_finalization(
    l: LedgerModel,
    sender: Seq<char>,
    public_key: Seq<u8>,
    height: u64,
    time: u64,
    t: crate::model::TransitionModel,
    vid: Seq<char>,
    vvalid: bool,
    vsig: Seq<u8>,
)
    requires
        ledger_wf(l),
    ensures
        register_model(l.state, sender, public_key).0.current_state_root
            == l.state.current_state_root,
        register_model(l.state, sender, public_key).0.block_height == l.state.block_height,
        submit_model(l, height, time, t) matches Ok(pair) ==> pair.0.state == l.state,
        vote_model(l, sender, vid, vvalid, vsig, time) matches Ok(o) ==> (!o.finalized
            ==> o.ledger.state == l.state),
{
}

} // verus!
