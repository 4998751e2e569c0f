use state_machine::balances;
use state_machine::proof_of_existence;
use state_machine::runtime::{Block, Extrinsic, Header, Runtime, RuntimeCall};
use state_machine::support::DispatchError;

#[test]
fn fresh_runtime_reads_all_zero() {
    let runtime = Runtime::new();

    assert_eq!(runtime.system.block_number(), 0);
    assert_eq!(runtime.system.get_nonce("alice".to_string()), 0);
    assert_eq!(runtime.balances.balance(&"alice".to_string()), 0);
    assert_eq!(runtime.proof_of_existence.get_claim(&"0xABC".to_string()), None);
}

#[test]
fn block_of_two_transfers() {
    let alice = "alice".to_string();
    let bob = "bob".to_string();
    let mut runtime = Runtime::new();
    runtime.balances.set_balance(&alice, 100);

    let block = Block {
        header: Header { block_number: 1 },
        extrinsics: vec![
            Extrinsic {
                caller: alice.clone(),
                call: RuntimeCall::Balances(balances::Call::Transfer {
                    to: bob.clone(),
                    amount: 50,
                }),
            },
            Extrinsic {
                caller: alice.clone(),
                call: RuntimeCall::Balances(balances::Call::Transfer {
                    to: bob.clone(),
                    amount: 20,
                }),
            },
        ],
    };

    assert_eq!(runtime.execute_block(block), Ok(()));
    assert_eq!(runtime.balances.balance(&alice), 30);
    assert_eq!(runtime.balances.balance(&bob), 70);
    assert_eq!(runtime.system.get_nonce(alice), 2);
    assert_eq!(runtime.system.block_number(), 1);
}

#[test]
fn failed_extrinsic_is_contained() {
    let alice = "alice".to_string();
    let bob = "bob".to_string();
    let mut runtime = Runtime::new();
    runtime.balances.set_balance(&alice, 100);

    let block = Block {
        header: Header { block_number: 1 },
        extrinsics: vec![Extrinsic {
            caller: alice.clone(),
            call: RuntimeCall::Balances(balances::Call::Transfer {
                to: bob.clone(),
                amount: 200,
            }),
        }],
    };

    // The transfer fails inside the block, yet the block reports success,
    // the balances stand, and the attempt still counts against the nonce.
    assert_eq!(runtime.execute_block(block), Ok(()));
    assert_eq!(runtime.balances.balance(&alice), 100);
    assert_eq!(runtime.balances.balance(&bob), 0);
    assert_eq!(runtime.system.get_nonce(alice), 1);
}

#[test]
fn failing_and_succeeding_extrinsic_same_caller() {
    let alice = "alice".to_string();
    let bob = "bob".to_string();
    let mut runtime = Runtime::new();
    runtime.balances.set_balance(&alice, 100);

    let block = Block {
        header: Header { block_number: 1 },
        extrinsics: vec![
            Extrinsic {
                caller: alice.clone(),
                call: RuntimeCall::Balances(balances::Call::Transfer {
                    to: bob.clone(),
                    amount: 200,
                }),
            },
            Extrinsic {
                caller: alice.clone(),
                call: RuntimeCall::Balances(balances::Call::Transfer {
                    to: bob.clone(),
                    amount: 30,
                }),
            },
        ],
    };

    assert_eq!(runtime.execute_block(block), Ok(()));
    assert_eq!(runtime.balances.balance(&alice), 70);
    assert_eq!(runtime.balances.balance(&bob), 30);
    assert_eq!(runtime.system.get_nonce(alice), 2);
}

#[test]
fn block_report_lists_each_outcome() {
    let alice = "alice".to_string();
    let bob = "bob".to_string();
    let mut runtime = Runtime::new();
    runtime.balances.set_balance(&alice, 100);

    let block = Block {
        header: Header { block_number: 1 },
        extrinsics: vec![
            Extrinsic {
                caller: alice.clone(),
                call: RuntimeCall::Balances(balances::Call::Transfer {
                    to: bob.clone(),
                    amount: 200,
                }),
            },
            Extrinsic {
                caller: alice.clone(),
                call: RuntimeCall::Balances(balances::Call::Transfer {
                    to: bob.clone(),
                    amount: 30,
                }),
            },
        ],
    };

    assert_eq!(
        runtime.execute_block_with_report(block),
        Ok(vec![Err(DispatchError::InsufficientFunds), Ok(())])
    );
    assert_eq!(runtime.balances.balance(&alice), 70);
    assert_eq!(runtime.balances.balance(&bob), 30);

    let late_block = Block { header: Header { block_number: 5 }, extrinsics: vec![] };
    assert_eq!(
        runtime.execute_block_with_report(late_block),
        Err(DispatchError::InvalidBlockNumber)
    );
}

#[test]
fn wrong_block_number_rejects_the_block() {
    let alice = "alice".to_string();
    let bob = "bob".to_string();
    let mut runtime = Runtime::new();
    runtime.balances.set_balance(&alice, 100);

    let block = Block {
        header: Header { block_number: 2 },
        extrinsics: vec![Extrinsic {
            caller: alice.clone(),
            call: RuntimeCall::Balances(balances::Call::Transfer {
                to: bob.clone(),
                amount: 50,
            }),
        }],
    };

    assert_eq!(runtime.execute_block(block), Err(DispatchError::InvalidBlockNumber));
    // No extrinsic ran: balances and nonces are untouched.
    assert_eq!(runtime.balances.balance(&alice), 100);
    assert_eq!(runtime.balances.balance(&bob), 0);
    assert_eq!(runtime.system.get_nonce(alice), 0);
    // The block number itself was still advanced before the check.
    assert_eq!(runtime.system.block_number(), 1);
}

#[test]
fn empty_block_advances_the_number_only() {
    let mut runtime = Runtime::new();

    let block = Block { header: Header { block_number: 1 }, extrinsics: vec![] };

    assert_eq!(runtime.execute_block(block), Ok(()));
    assert_eq!(runtime.system.block_number(), 1);
    assert_eq!(runtime.system.get_nonce("alice".to_string()), 0);
}

#[test]
fn claim_lifecycle_through_dispatch() {
    let bob = "bob".to_string();
    let charlie = "charlie".to_string();
    let content = "0xABC".to_string();
    let mut runtime = Runtime::new();

    assert_eq!(
        runtime.dispatch(
            charlie.clone(),
            RuntimeCall::ProofOfExistence(proof_of_existence::Call::CreateClaim {
                claim: content.clone(),
            }),
        ),
        Ok(())
    );
    assert_eq!(runtime.proof_of_existence.get_claim(&content), Some(&charlie));

    assert_eq!(
        runtime.dispatch(
            bob.clone(),
            RuntimeCall::ProofOfExistence(proof_of_existence::Call::CreateClaim {
                claim: content.clone(),
            }),
        ),
        Err(DispatchError::AlreadyClaimed)
    );
    assert_eq!(runtime.proof_of_existence.get_claim(&content), Some(&charlie));

    assert_eq!(
        runtime.dispatch(
            charlie.clone(),
            RuntimeCall::ProofOfExistence(proof_of_existence::Call::RevokeClaim {
                claim: content.clone(),
            }),
        ),
        Ok(())
    );
    assert_eq!(runtime.proof_of_existence.get_claim(&content), None);

    assert_eq!(
        runtime.dispatch(
            bob.clone(),
            RuntimeCall::ProofOfExistence(proof_of_existence::Call::CreateClaim {
                claim: content.clone(),
            }),
        ),
        Ok(())
    );
    assert_eq!(runtime.proof_of_existence.get_claim(&content), Some(&bob));
}

#[test]
fn revoke_claims_through_dispatch_errors() {
    let mut runtime = Runtime::new();
    let content = "0xABC".to_string();

    assert_eq!(
        runtime.dispatch(
            "bob".to_string(),
            RuntimeCall::ProofOfExistence(proof_of_existence::Call::RevokeClaim {
                claim: content.clone(),
            }),
        ),
        Err(DispatchError::NoSuchClaim)
    );

    assert_eq!(
        runtime.dispatch(
            "charlie".to_string(),
            RuntimeCall::ProofOfExistence(proof_of_existence::Call::CreateClaim {
                claim: content.clone(),
            }),
        ),
        Ok(())
    );
    assert_eq!(
        runtime.dispatch(
            "bob".to_string(),
            RuntimeCall::ProofOfExistence(proof_of_existence::Call::RevokeClaim {
                claim: content.clone(),
            }),
        ),
        Err(DispatchError::NotClaimOwner)
    );
    assert_eq!(
        runtime.proof_of_existence.get_claim(&content),
        Some(&"charlie".to_string())
    );
}

#[test]
fn consecutive_blocks_keep_counting() {
    let alice = "alice".to_string();
    let bob = "bob".to_string();
    let mut runtime = Runtime::new();
    runtime.balances.set_balance(&alice, 100);

    let block_1 = Block {
        header: Header { block_number: 1 },
        extrinsics: vec![Extrinsic {
            caller: alice.clone(),
            call: RuntimeCall::Balances(balances::Call::Transfer {
                to: bob.clone(),
                amount: 60,
            }),
        }],
    };
    let block_2 = Block {
        header: Header { block_number: 2 },
        extrinsics: vec![Extrinsic {
            caller: bob.clone(),
            call: RuntimeCall::Balances(balances::Call::Transfer {
                to: alice.clone(),
                amount: 10,
            }),
        }],
    };

    assert_eq!(runtime.execute_block(block_1), Ok(()));
    assert_eq!(runtime.execute_block(block_2), Ok(()));
    assert_eq!(runtime.system.block_number(), 2);
    assert_eq!(runtime.balances.balance(&alice), 50);
    assert_eq!(runtime.balances.balance(&bob), 50);
    assert_eq!(runtime.system.get_nonce(alice), 1);
    assert_eq!(runtime.system.get_nonce(bob), 1);
}
