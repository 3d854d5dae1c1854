use mpc_ledger::contract::{
    execute, finalize_transition, instantiate, query, register_mpc_node, submit_state_transition,
    validate_transition,
};
use mpc_ledger::msg::{
    ContractError, ExecuteMsg, InstantiateMsg, QueryAnswer, QueryMsg, Response,
};
use mpc_ledger::state::{Ctx, EncryptedShares, Ledger, StateTransition, Transfer};

const MOCK_HEIGHT: u64 = 12345;
const MOCK_TIME: u64 = 1571797419;

fn ctx(sender: &str) -> Ctx {
    Ctx {
        sender: sender.to_string(),
        block_height: MOCK_HEIGHT,
        block_time: MOCK_TIME,
    }
}

fn transition(user: &str, old_root: Vec<u8>, new_root: Vec<u8>, signature: Vec<u8>) -> StateTransition {
    StateTransition {
        user_address: user.to_string(),
        old_state_root: old_root,
        new_state_root: new_root,
        merkle_proof: vec![],
        new_state_ipfs: "QmABC123".to_string(),
        user_signature: signature,
        encrypted_shares: vec![
            EncryptedShares { node_id: 1, encrypted_data: vec![] },
            EncryptedShares { node_id: 2, encrypted_data: vec![] },
            EncryptedShares { node_id: 3, encrypted_data: vec![] },
        ],
        vss_commitments: vec![],
        vss_proof_polynomial: vec![],
    }
}

fn setup(threshold: u32, nodes: u8) -> Ledger {
    let mut ledger = instantiate(&InstantiateMsg { threshold });
    for i in 1..=nodes {
        execute(
            &mut ledger,
            &ctx(&format!("node{}", i)),
            ExecuteMsg::RegisterMPCNode { public_key: vec![i; 32] },
        )
        .unwrap();
    }
    ledger
}

#[test]
fn test_complete_mpc_flow() {
    let mut ledger = instantiate(&InstantiateMsg { threshold: 2 });

    for i in 1..=3u8 {
        execute(
            &mut ledger,
            &ctx(&format!("node{}", i)),
            ExecuteMsg::RegisterMPCNode { public_key: vec![i; 32] },
        )
        .unwrap();
    }

    let t = transition("alice", vec![1; 32], vec![2; 32], vec![1, 2, 3]);
    execute(
        &mut ledger,
        &ctx("alice"),
        ExecuteMsg::SubmitStateTransition { transition: t },
    )
    .unwrap();

    let validation_id = format!("{}-{}", MOCK_HEIGHT, "alice");

    for i in 1..=2u8 {
        execute(
            &mut ledger,
            &ctx(&format!("node{}", i)),
            ExecuteMsg::ValidateTransition {
                validation_id: validation_id.clone(),
                valid: true,
                partial_signature: vec![i; 32],
            },
        )
        .unwrap();
    }

    // The second vote reached the quorum and auto-finalized inline,
    // deleting the pending record, so the explicit finalize call no
    // longer finds it.
    let finalize = execute(
        &mut ledger,
        &ctx("anyone"),
        ExecuteMsg::FinalizeTransition { validation_id: validation_id.clone() },
    );
    assert_eq!(finalize.unwrap_err(), ContractError::ValidationNotFound);

    let res = query(
        &ledger,
        QueryMsg::GetStateCommitment { user_address: "alice".to_string() },
    )
    .unwrap();
    match res {
        QueryAnswer::Commitment(c) => assert_eq!(c.commitment.ipfs_cid, "QmABC123"),
        _ => panic!("unexpected answer"),
    }
}

#[test]
fn test_reregister_same_address_keeps_node_id() {
    let mut ledger = setup(2, 3);
    let r = register_mpc_node(&mut ledger, &"node2".to_string(), vec![9; 32]);
    match r {
        Response::Registered { node_id, address, updated } => {
            assert_eq!(node_id, 2);
            assert_eq!(address, "node2");
            assert!(updated);
        }
        _ => panic!("unexpected response"),
    }
    // The registry did not grow and the stored key rotated.
    match query(&ledger, QueryMsg::GetState {}).unwrap() {
        QueryAnswer::State(s) => {
            assert_eq!(s.state.mpc_nodes.len(), 3);
            assert_eq!(s.state.mpc_nodes[1].node_id, 2);
            assert_eq!(s.state.mpc_nodes[1].public_key, vec![9; 32]);
            assert!(s.state.mpc_nodes[1].active);
        }
        _ => panic!("unexpected answer"),
    }
}

#[test]
fn test_end_to_end_scenario() {
    let mut ledger = setup(2, 3);
    let t = transition("alice", vec![1; 32], vec![2; 32], vec![1, 2, 3]);
    let submitted = submit_state_transition(&mut ledger, &ctx("alice"), t).unwrap();
    let id = match submitted {
        Response::Submitted { validation_id, user, old_root_hex, new_root_hex } => {
            assert_eq!(user, "alice");
            assert_eq!(old_root_hex, "01".repeat(32));
            assert_eq!(new_root_hex, "02".repeat(32));
            validation_id
        }
        _ => panic!("unexpected response"),
    };
    assert_eq!(id, "12345-alice");

    let first = validate_transition(&mut ledger, &ctx("node1"), id.clone(), true, vec![1; 32])
        .unwrap();
    match first {
        Response::Voted { node_id, valid, threshold_reached } => {
            assert_eq!(node_id, 1);
            assert!(valid);
            assert!(!threshold_reached);
        }
        _ => panic!("first vote must not finalize"),
    }

    let second = validate_transition(&mut ledger, &ctx("node2"), id.clone(), true, vec![2; 32])
        .unwrap();
    match second {
        Response::VotedAndFinalized {
            node_id,
            valid,
            user,
            new_root_hex,
            block_height,
            threshold_signature_hex,
        } => {
            assert_eq!(node_id, 2);
            assert!(valid);
            assert_eq!(user, "alice");
            assert_eq!(new_root_hex, "02".repeat(32));
            assert_eq!(block_height, 1);
            // Partial signatures concatenated in submission order.
            let expected = format!("{}{}", "01".repeat(32), "02".repeat(32));
            assert_eq!(threshold_signature_hex, expected);
        }
        _ => panic!("second vote must finalize"),
    }

    match query(&ledger, QueryMsg::GetCurrentRoot {}).unwrap() {
        QueryAnswer::CurrentRoot(c) => assert_eq!(c.root, vec![2; 32]),
        _ => panic!("unexpected answer"),
    }
    match query(&ledger, QueryMsg::GetState {}).unwrap() {
        QueryAnswer::State(s) => assert_eq!(s.state.block_height, 1),
        _ => panic!("unexpected answer"),
    }
    match query(&ledger, QueryMsg::GetStateCommitment { user_address: "alice".to_string() })
        .unwrap()
    {
        QueryAnswer::Commitment(c) => {
            assert_eq!(c.commitment.ipfs_cid, "QmABC123");
            assert_eq!(c.commitment.state_root, vec![2; 32]);
            assert_eq!(c.commitment.nonce, 0);
        }
        _ => panic!("unexpected answer"),
    }
}

#[test]
fn test_finalized_validation_lookup_not_found() {
    let mut ledger = setup(1, 1);
    let t = transition("alice", vec![1; 32], vec![2; 32], vec![7]);
    submit_state_transition(&mut ledger, &ctx("alice"), t).unwrap();
    let id = "12345-alice".to_string();
    let r = validate_transition(&mut ledger, &ctx("node1"), id.clone(), true, vec![5]).unwrap();
    assert!(matches!(r, Response::VotedAndFinalized { .. }));

    // The record is gone: every lookup under the id now fails.
    assert_eq!(
        query(&ledger, QueryMsg::GetValidation { validation_id: id.clone() }).unwrap_err(),
        ContractError::NotFound
    );
    assert_eq!(
        validate_transition(&mut ledger, &ctx("node1"), id.clone(), true, vec![5]).unwrap_err(),
        ContractError::ValidationNotFound
    );
    assert_eq!(
        finalize_transition(&mut ledger, &ctx("anyone"), id).unwrap_err(),
        ContractError::ValidationNotFound
    );
}

#[test]
fn test_false_vote_blocks_but_never_finalizes() {
    let mut ledger = setup(1, 2);
    let t = transition("alice", vec![1; 32], vec![2; 32], vec![7]);
    submit_state_transition(&mut ledger, &ctx("alice"), t).unwrap();
    let id = "12345-alice".to_string();

    // Even at threshold 1 a dissenting vote does not finalize.
    let r = validate_transition(&mut ledger, &ctx("node1"), id.clone(), false, vec![5]).unwrap();
    match r {
        Response::Voted { node_id, valid, threshold_reached } => {
            assert_eq!(node_id, 1);
            assert!(!valid);
            assert!(!threshold_reached);
        }
        _ => panic!("a dissenting vote must not finalize"),
    }

    // But it blocks the same node from voting again.
    assert_eq!(
        validate_transition(&mut ledger, &ctx("node1"), id.clone(), true, vec![5]).unwrap_err(),
        ContractError::AlreadyValidated
    );

    // Another node's approving vote still finalizes.
    let r = validate_transition(&mut ledger, &ctx("node2"), id, true, vec![6]).unwrap();
    assert!(matches!(r, Response::VotedAndFinalized { .. }));
}

#[test]
fn test_same_block_resubmission_overwrites() {
    let mut ledger = setup(2, 2);
    let t1 = transition("alice", vec![1; 32], vec![2; 32], vec![7]);
    submit_state_transition(&mut ledger, &ctx("alice"), t1).unwrap();
    let id = "12345-alice".to_string();
    validate_transition(&mut ledger, &ctx("node1"), id.clone(), true, vec![5]).unwrap();

    // The same user submits again at the same height: the identical id is
    // silently overwritten with a fresh, vote-less record.
    let t2 = transition("alice", vec![2; 32], vec![3; 32], vec![8]);
    submit_state_transition(&mut ledger, &ctx("alice"), t2).unwrap();

    match query(&ledger, QueryMsg::ListPendingValidations {}).unwrap() {
        QueryAnswer::PendingList(p) => assert_eq!(p.validation_ids, vec![id.clone()]),
        _ => panic!("unexpected answer"),
    }
    match query(&ledger, QueryMsg::GetValidation { validation_id: id }).unwrap() {
        QueryAnswer::Validation(v) => {
            assert_eq!(v.validation.transition.new_state_root, vec![3; 32]);
            assert_eq!(v.validation.validations.len(), 0);
            assert!(!v.validation.threshold_reached);
        }
        _ => panic!("unexpected answer"),
    }
}

#[test]
fn test_transfer_second_leg_failure_keeps_first() {
    let mut ledger = setup(2, 2);
    let transfer = Transfer {
        sender: "alice".to_string(),
        recipient: "bob".to_string(),
        sender_transition: transition("alice", vec![1; 32], vec![2; 32], vec![7]),
        recipient_transition: transition("bob", vec![3; 32], vec![4; 32], vec![]),
        amount_commitment: vec![0xaa, 0xbb],
    };
    let err = execute(&mut ledger, &ctx("alice"), ExecuteMsg::SubmitTransfer { transfer })
        .unwrap_err();
    assert_eq!(err, ContractError::InvalidUserSignature);

    // Not atomic: the sender's leg was already created and stays.
    match query(&ledger, QueryMsg::ListPendingValidations {}).unwrap() {
        QueryAnswer::PendingList(p) => {
            assert_eq!(p.validation_ids, vec!["12345-alice".to_string()]);
        }
        _ => panic!("unexpected answer"),
    }
    assert!(query(
        &ledger,
        QueryMsg::GetValidation { validation_id: "12345-bob".to_string() }
    )
    .is_err());
}

#[test]
fn test_transfer_both_legs_submitted() {
    let mut ledger = setup(2, 2);
    let transfer = Transfer {
        sender: "alice".to_string(),
        recipient: "bob".to_string(),
        sender_transition: transition("alice", vec![1; 32], vec![2; 32], vec![7]),
        recipient_transition: transition("bob", vec![3; 32], vec![4; 32], vec![8]),
        amount_commitment: vec![0xaa, 0xbb],
    };
    let r = execute(&mut ledger, &ctx("alice"), ExecuteMsg::SubmitTransfer { transfer }).unwrap();
    match r {
        Response::TransferSubmitted {
            sender,
            recipient,
            amount_commitment_hex,
            sender_validation_id,
            recipient_validation_id,
        } => {
            assert_eq!(sender, "alice");
            assert_eq!(recipient, "bob");
            assert_eq!(amount_commitment_hex, "aabb");
            assert_eq!(sender_validation_id, "12345-alice");
            assert_eq!(recipient_validation_id, "12345-bob");
        }
        _ => panic!("unexpected response"),
    }
    match query(&ledger, QueryMsg::ListPendingValidations {}).unwrap() {
        QueryAnswer::PendingList(p) => assert_eq!(p.validation_ids.len(), 2),
        _ => panic!("unexpected answer"),
    }
}

#[test]
fn test_get_current_root_idempotent() {
    let mut ledger = setup(2, 2);
    let root_of = |ledger: &Ledger| match query(ledger, QueryMsg::GetCurrentRoot {}).unwrap() {
        QueryAnswer::CurrentRoot(c) => c.root,
        _ => panic!("unexpected answer"),
    };
    let r1 = root_of(&ledger);
    let r2 = root_of(&ledger);
    assert_eq!(r1, r2);
    assert_eq!(r1, vec![0; 32]);

    // Registration, intake, and a non-quorum vote leave the root alone.
    register_mpc_node(&mut ledger, &"node3".to_string(), vec![3; 32]);
    let t = transition("alice", vec![1; 32], vec![2; 32], vec![7]);
    submit_state_transition(&mut ledger, &ctx("alice"), t).unwrap();
    validate_transition(&mut ledger, &ctx("node1"), "12345-alice".to_string(), true, vec![5])
        .unwrap();
    assert_eq!(root_of(&ledger), vec![0; 32]);
}

#[test]
fn test_invalid_user_signature_error() {
    let mut ledger = setup(2, 2);
    let t = transition("alice", vec![1; 32], vec![2; 32], vec![]);
    assert_eq!(
        submit_state_transition(&mut ledger, &ctx("alice"), t).unwrap_err(),
        ContractError::InvalidUserSignature
    );
    assert!(query(&ledger, QueryMsg::ListPendingValidations {}).is_ok());
    match query(&ledger, QueryMsg::ListPendingValidations {}).unwrap() {
        QueryAnswer::PendingList(p) => assert!(p.validation_ids.is_empty()),
        _ => panic!("unexpected answer"),
    }
}

#[test]
fn test_not_an_active_node_error() {
    let mut ledger = setup(2, 2);
    let t = transition("alice", vec![1; 32], vec![2; 32], vec![7]);
    submit_state_transition(&mut ledger, &ctx("alice"), t).unwrap();
    assert_eq!(
        validate_transition(&mut ledger, &ctx("mallory"), "12345-alice".to_string(), true, vec![5])
            .unwrap_err(),
        ContractError::NotAnActiveNode
    );
}

#[test]
fn test_validation_not_found_error() {
    let mut ledger = setup(2, 2);
    assert_eq!(
        validate_transition(&mut ledger, &ctx("node1"), "99-nobody".to_string(), true, vec![5])
            .unwrap_err(),
        ContractError::ValidationNotFound
    );
}

#[test]
fn test_threshold_not_reached_error() {
    let mut ledger = setup(2, 2);
    let t = transition("alice", vec![1; 32], vec![2; 32], vec![7]);
    submit_state_transition(&mut ledger, &ctx("alice"), t).unwrap();
    // The tracker never raises the flag, so the explicit path refuses.
    assert_eq!(
        finalize_transition(&mut ledger, &ctx("anyone"), "12345-alice".to_string()).unwrap_err(),
        ContractError::ThresholdNotReached
    );
}

#[test]
fn test_commitment_not_found_error() {
    let ledger = setup(2, 2);
    assert_eq!(
        query(&ledger, QueryMsg::GetStateCommitment { user_address: "nobody".to_string() })
            .unwrap_err(),
        ContractError::CommitmentNotFound
    );
}

#[test]
fn test_instantiate_state() {
    let ledger = instantiate(&InstantiateMsg { threshold: 3 });
    match query(&ledger, QueryMsg::GetState {}).unwrap() {
        QueryAnswer::State(s) => {
            assert_eq!(s.state.threshold, 3);
            assert!(s.state.mpc_nodes.is_empty());
            assert_eq!(s.state.current_state_root, vec![0; 32]);
            assert_eq!(s.state.block_height, 0);
        }
        _ => panic!("unexpected answer"),
    }
}
