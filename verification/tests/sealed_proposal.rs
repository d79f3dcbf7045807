//! Sealed proposals: the commitment, its determinism, verification, and
//! sealed commits.

use std::time::Duration;
use topdown::finality::FinalityWithNull;
use topdown::payload::{CrossMessage, ParentViewPayload, ValidatorChangeRequest};
use topdown::sealed::SealedTopdownProposal;
use topdown::{Config, IPCParentFinality};

fn config() -> Config {
    Config {
        chain_head_delay: 2,
        polling_interval: Duration::default(),
        exponential_back_off: Duration::default(),
        exponential_retry_limit: 0,
        max_proposal_range: Some(6),
        max_cache_blocks: None,
        proposal_delay: Some(2),
    }
}

fn committed(height: u64, hash: Vec<u8>) -> Option<IPCParentFinality> {
    Some(IPCParentFinality {
        height,
        block_hash: hash,
    })
}

fn payload_with(hash: Vec<u8>, nonce_start: u64, bodies: Vec<Vec<u8>>) -> ParentViewPayload {
    let mut msgs = vec![];
    for (i, body) in bodies.into_iter().enumerate() {
        msgs.push(CrossMessage {
            nonce: nonce_start + i as u64,
            payload: body,
        });
    }
    ParentViewPayload {
        block_hash: hash,
        validator_changes: vec![ValidatorChangeRequest {
            configuration_number: nonce_start,
            payload: vec![1],
        }],
        top_down_msgs: msgs,
    }
}

fn provider_with_history() -> FinalityWithNull {
    let mut provider = FinalityWithNull::new(config(), 1, committed(100, vec![0; 32]));
    provider
        .new_parent_view(101, Some(payload_with(vec![1; 32], 0, vec![vec![10], vec![20]])))
        .unwrap();
    provider.new_parent_view(102, None).unwrap();
    provider
        .new_parent_view(103, Some(payload_with(vec![3; 32], 2, vec![vec![30]])))
        .unwrap();
    provider
        .new_parent_view(104, Some(payload_with(vec![4; 32], 3, vec![])))
        .unwrap();
    provider
}

#[test]
fn sealed_proposal_covers_the_half_open_range() {
    let provider = provider_with_history();
    let sp = provider.sealed_proposal_at_height(103).unwrap();
    assert_eq!(sp.finality().height, 103);
    assert_eq!(sp.finality().block_hash, vec![3; 32]);
    // heights 101 and 102 are covered; 103 itself is not (deferred
    // execution consumes it with the next commitment)
    let nonces: Vec<u64> = sp.cross_msgs().iter().map(|m| m.nonce).collect();
    assert_eq!(nonces, vec![0, 1]);
    assert_eq!(sp.validator_changes().len(), 1);
    assert_eq!(sp.validator_changes()[0].configuration_number, 0);
}

#[test]
fn sealed_proposal_is_refused_for_null_or_unknown_heights() {
    let provider = provider_with_history();
    // a null round
    assert!(provider.sealed_proposal_at_height(102).is_none());
    // not observed yet
    assert!(provider.sealed_proposal_at_height(105).is_none());
    // an unseeded provider proposes nothing
    let mut unseeded = FinalityWithNull::new(config(), 1, None);
    unseeded
        .new_parent_view(101, Some(payload_with(vec![1; 32], 0, vec![])))
        .unwrap();
    assert!(unseeded.sealed_proposal_at_height(101).is_none());
}

#[test]
fn sealed_commitments_are_deterministic() {
    // two providers fed the same history independently
    let a = provider_with_history();
    let b = provider_with_history();
    let sa = a.sealed_proposal_at_height(104).unwrap();
    let sb = b.sealed_proposal_at_height(104).unwrap();
    assert_eq!(sa.commitment(), sb.commitment());

    // and the standalone constructor agrees with itself as well
    let s1 = SealedTopdownProposal::new(
        104,
        vec![4; 32],
        vec![CrossMessage {
            nonce: 0,
            payload: vec![5],
        }],
        vec![],
    );
    let s2 = SealedTopdownProposal::new(
        104,
        vec![4; 32],
        vec![CrossMessage {
            nonce: 0,
            payload: vec![5],
        }],
        vec![],
    );
    assert_eq!(s1.commitment(), s2.commitment());
}

#[test]
fn commitments_fingerprint_the_content() {
    // a version-one CID with a 32-byte multihash: six prefix bytes plus the
    // digest
    let empty = SealedTopdownProposal::new(10, vec![0; 32], vec![], vec![]);
    assert_eq!(empty.commitment().len(), 38);
    assert_eq!(empty.commitment()[0], 0x01);
    assert_eq!(empty.commitment()[1], 0x55);

    // different side effects give a different commitment
    let one = SealedTopdownProposal::new(
        10,
        vec![0; 32],
        vec![CrossMessage {
            nonce: 0,
            payload: vec![1],
        }],
        vec![],
    );
    assert_ne!(empty.commitment(), one.commitment());

    // order matters: the same bodies behind swapped nonces differ
    let ab = SealedTopdownProposal::new(
        10,
        vec![0; 32],
        vec![
            CrossMessage {
                nonce: 0,
                payload: vec![0xaa],
            },
            CrossMessage {
                nonce: 1,
                payload: vec![0xbb],
            },
        ],
        vec![],
    );
    let ba = SealedTopdownProposal::new(
        10,
        vec![0; 32],
        vec![
            CrossMessage {
                nonce: 0,
                payload: vec![0xbb],
            },
            CrossMessage {
                nonce: 1,
                payload: vec![0xaa],
            },
        ],
        vec![],
    );
    assert_ne!(ab.commitment(), ba.commitment());
}

#[test]
fn sealed_round_trip_checks_out() {
    let provider = provider_with_history();
    let sp = provider.sealed_proposal_at_height(103).unwrap();
    assert!(provider.check_sealed_proposal(&sp));
}

#[test]
fn sealed_proposal_from_a_peer_with_the_same_view_is_accepted() {
    // one validator seals, another with the same observations verifies
    let proposer = provider_with_history();
    let verifier = provider_with_history();
    let sp = proposer.sealed_proposal_at_height(103).unwrap();
    assert!(verifier.check_sealed_proposal(&sp));
}

#[test]
fn check_sealed_proposal_rejects_foreign_content() {
    let provider = provider_with_history();

    // same height, same hash, but sealed over a different history
    let mut other = FinalityWithNull::new(config(), 1, committed(100, vec![0; 32]));
    other
        .new_parent_view(101, Some(payload_with(vec![1; 32], 5, vec![vec![99]])))
        .unwrap();
    other.new_parent_view(102, None).unwrap();
    other
        .new_parent_view(103, Some(payload_with(vec![3; 32], 6, vec![])))
        .unwrap();
    let foreign = other.sealed_proposal_at_height(103).unwrap();
    assert!(!provider.check_sealed_proposal(&foreign));

    // a sealed proposal for an already committed height is refused
    let stale = SealedTopdownProposal::new(100, vec![0; 32], vec![], vec![]);
    assert!(!provider.check_sealed_proposal(&stale));

    // a wrong block hash is refused even with the right content
    let sp = provider.sealed_proposal_at_height(103).unwrap();
    let tampered = SealedTopdownProposal::new(
        103,
        vec![9; 32],
        sp.cross_msgs().clone(),
        sp.validator_changes().clone(),
    );
    assert!(!provider.check_sealed_proposal(&tampered));
}

#[test]
fn set_new_sealed_finality_commits_and_prunes() {
    let mut provider = provider_with_history();
    let sp = provider.sealed_proposal_at_height(103).unwrap();
    assert!(provider.check_sealed_proposal(&sp));

    let prev = provider.last_committed_finality();
    let event = provider.set_new_sealed_finality(sp, prev);
    assert_eq!(event.block_height, 103);
    assert_eq!(event.block_hash, "03".repeat(32));

    let lc = provider.last_committed_finality().unwrap();
    assert_eq!(lc.height, 103);
    assert_eq!(lc.block_hash, vec![3; 32]);
    // pruned below 103, kept at 103
    assert!(provider.top_down_msgs(101).is_none());
    assert!(provider.top_down_msgs(102).is_none());
    assert!(provider.top_down_msgs(103).is_some());
}
