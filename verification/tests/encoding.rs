use mpc_ledger::contract::{
    hash_shares, instantiate, query, serialize_merkle_proof, submit_state_transition,
    validate_transition, register_mpc_node,
};
use mpc_ledger::msg::{InstantiateMsg, QueryAnswer, QueryMsg, Response};
use mpc_ledger::state::{Ctx, MerkleProofElement, StateTransition};

fn ctx(sender: &str, height: u64) -> Ctx {
    Ctx { sender: sender.to_string(), block_height: height, block_time: 1700000000 }
}

fn plain_transition(user: &str, proof: Vec<MerkleProofElement>) -> StateTransition {
    StateTransition {
        user_address: user.to_string(),
        old_state_root: vec![0x00, 0x7f, 0xff],
        new_state_root: vec![0xde, 0xad, 0xbe, 0xef],
        merkle_proof: proof,
        new_state_ipfs: "QmXYZ".to_string(),
        user_signature: vec![1],
        encrypted_shares: vec![],
        vss_commitments: vec![],
        vss_proof_polynomial: vec![],
    }
}

#[test]
fn test_hex_rendering_in_submit_response() {
    let mut ledger = instantiate(&InstantiateMsg { threshold: 1 });
    let r = submit_state_transition(&mut ledger, &ctx("alice", 7), plain_transition("alice", vec![]))
        .unwrap();
    match r {
        Response::Submitted { validation_id, user, old_root_hex, new_root_hex } => {
            assert_eq!(validation_id, "7-alice");
            assert_eq!(user, "alice");
            assert_eq!(old_root_hex, "007fff");
            assert_eq!(new_root_hex, "deadbeef");
        }
        _ => panic!("unexpected response"),
    }
}

#[test]
fn test_validation_id_uses_decimal_height() {
    let mut ledger = instantiate(&InstantiateMsg { threshold: 1 });
    let r = submit_state_transition(
        &mut ledger,
        &ctx("alice", 18_446_744_073_709_551_615),
        plain_transition("alice", vec![]),
    )
    .unwrap();
    match r {
        Response::Submitted { validation_id, .. } => {
            assert_eq!(validation_id, "18446744073709551615-alice");
        }
        _ => panic!("unexpected response"),
    }
    let mut ledger = instantiate(&InstantiateMsg { threshold: 1 });
    let r = submit_state_transition(&mut ledger, &ctx("bob", 0), plain_transition("bob", vec![]))
        .unwrap();
    match r {
        Response::Submitted { validation_id, .. } => assert_eq!(validation_id, "0-bob"),
        _ => panic!("unexpected response"),
    }
}

#[test]
fn test_serialize_merkle_proof_flattens_hashes() {
    let proof = vec![
        MerkleProofElement { hash: vec![1, 2], is_left: true },
        MerkleProofElement { hash: vec![3], is_left: false },
        MerkleProofElement { hash: vec![], is_left: true },
        MerkleProofElement { hash: vec![4, 5, 6], is_left: false },
    ];
    assert_eq!(serialize_merkle_proof(&proof), vec![1, 2, 3, 4, 5, 6]);
    assert_eq!(serialize_merkle_proof(&[]), Vec::<u8>::new());
}

#[test]
fn test_commitment_stores_flattened_proof() {
    let mut ledger = instantiate(&InstantiateMsg { threshold: 1 });
    register_mpc_node(&mut ledger, &"node1".to_string(), vec![1; 32]);
    let proof = vec![
        MerkleProofElement { hash: vec![9, 8], is_left: true },
        MerkleProofElement { hash: vec![7], is_left: false },
    ];
    submit_state_transition(&mut ledger, &ctx("alice", 7), plain_transition("alice", proof))
        .unwrap();
    validate_transition(&mut ledger, &ctx("node1", 7), "7-alice".to_string(), true, vec![0xab])
        .unwrap();
    match query(&ledger, QueryMsg::GetStateCommitment { user_address: "alice".to_string() })
        .unwrap()
    {
        QueryAnswer::Commitment(c) => {
            assert_eq!(c.commitment.merkle_proof, vec![9, 8, 7]);
            assert_eq!(c.commitment.state_root, vec![0xde, 0xad, 0xbe, 0xef]);
            assert_eq!(c.commitment.ipfs_cid, "QmXYZ");
            assert_eq!(c.commitment.updated_at, 1700000000);
        }
        _ => panic!("unexpected answer"),
    }
}

#[test]
fn test_threshold_signature_concatenates_all_votes() {
    // The dissenting vote's partial signature is still part of the
    // aggregate, in submission order; only quorum counting ignores it.
    let mut ledger = instantiate(&InstantiateMsg { threshold: 1 });
    register_mpc_node(&mut ledger, &"node1".to_string(), vec![1; 32]);
    register_mpc_node(&mut ledger, &"node2".to_string(), vec![2; 32]);
    submit_state_transition(&mut ledger, &ctx("alice", 7), plain_transition("alice", vec![]))
        .unwrap();
    validate_transition(&mut ledger, &ctx("node1", 7), "7-alice".to_string(), false, vec![0x11])
        .unwrap();
    let r = validate_transition(
        &mut ledger,
        &ctx("node2", 7),
        "7-alice".to_string(),
        true,
        vec![0x22, 0x33],
    )
    .unwrap();
    match r {
        Response::VotedAndFinalized { threshold_signature_hex, .. } => {
            assert_eq!(threshold_signature_hex, "112233");
        }
        _ => panic!("second vote must finalize"),
    }
}

#[test]
fn test_commitments_kept_per_user() {
    let mut ledger = instantiate(&InstantiateMsg { threshold: 1 });
    register_mpc_node(&mut ledger, &"node1".to_string(), vec![1; 32]);
    submit_state_transition(&mut ledger, &ctx("alice", 1), plain_transition("alice", vec![]))
        .unwrap();
    validate_transition(&mut ledger, &ctx("node1", 1), "1-alice".to_string(), true, vec![1])
        .unwrap();
    submit_state_transition(&mut ledger, &ctx("bob", 2), plain_transition("bob", vec![]))
        .unwrap();
    validate_transition(&mut ledger, &ctx("node1", 2), "2-bob".to_string(), true, vec![2])
        .unwrap();
    for user in ["alice", "bob"] {
        match query(&ledger, QueryMsg::GetStateCommitment { user_address: user.to_string() }) {
            Ok(QueryAnswer::Commitment(c)) => assert_eq!(c.commitment.user_address, user),
            _ => panic!("commitment missing for {}", user),
        }
    }
    let heights = match query(&ledger, QueryMsg::GetState {}).unwrap() {
        QueryAnswer::State(s) => s.state.block_height,
        _ => panic!("unexpected answer"),
    };
    assert_eq!(heights, 2);
}

#[test]
fn test_hash_shares_digest() {
    let d1 = hash_shares(100, 1);
    let d2 = hash_shares(100, 1);
    let d3 = hash_shares(100, 2);
    assert_eq!(d1.len(), 32);
    assert_eq!(d1, d2);
    assert_ne!(d1, d3);
    // A digest, not the input echoed back.
    let mut input = Vec::new();
    input.extend_from_slice(&100i64.to_le_bytes());
    input.extend_from_slice(&1i64.to_le_bytes());
    assert_ne!(d1, input);
}

#[test]
fn test_list_pending_keeps_insertion_order() {
    let mut ledger = instantiate(&InstantiateMsg { threshold: 1 });
    for (user, h) in [("carol", 3u64), ("alice", 1), ("bob", 2)] {
        submit_state_transition(&mut ledger, &ctx(user, h), plain_transition(user, vec![]))
            .unwrap();
    }
    match query(&ledger, QueryMsg::ListPendingValidations {}).unwrap() {
        QueryAnswer::PendingList(p) => {
            assert_eq!(
                p.validation_ids,
                vec!["3-carol".to_string(), "1-alice".to_string(), "2-bob".to_string()]
            );
        }
        _ => panic!("unexpected answer"),
    }
}
