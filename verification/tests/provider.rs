//! Ingestion, queries, commits and errors of the finality provider.

use std::time::Duration;
use topdown::finality::FinalityWithNull;
use topdown::payload::{CrossMessage, ParentViewPayload, ValidatorChangeRequest};
use topdown::{Config, Error, IPCParentFinality};

fn config() -> Config {
    Config {
        chain_head_delay: 2,
        polling_interval: Duration::default(),
        exponential_back_off: Duration::default(),
        exponential_retry_limit: 0,
        max_proposal_range: Some(6),
        max_cache_blocks: None,
        proposal_delay: Some(2),
    }
}

fn committed(height: u64, hash: Vec<u8>) -> Option<IPCParentFinality> {
    Some(IPCParentFinality {
        height,
        block_hash: hash,
    })
}

fn plain(hash: Vec<u8>) -> Option<ParentViewPayload> {
    Some(ParentViewPayload {
        block_hash: hash,
        validator_changes: vec![],
        top_down_msgs: vec![],
    })
}

#[test]
fn consecutive_inserts_succeed_and_track_latest() {
    let mut provider = FinalityWithNull::new(config(), 1, committed(100, vec![0; 32]));
    assert_eq!(provider.latest_height_in_cache(), None);
    for h in 101..=120u64 {
        provider.new_parent_view(h, plain(vec![h as u8; 32])).unwrap();
        assert_eq!(provider.latest_height_in_cache(), Some(h));
        assert_eq!(provider.latest_height(), Some(h));
    }
    assert_eq!(provider.cached_blocks(), 20);
}

#[test]
fn non_consecutive_insert_fails_and_leaves_state() {
    let mut provider = FinalityWithNull::new(config(), 1, committed(100, vec![0; 32]));
    provider.new_parent_view(101, plain(vec![1; 32])).unwrap();
    provider.new_parent_view(102, None).unwrap();

    let r = provider.new_parent_view(104, plain(vec![4; 32]));
    assert_eq!(r, Err(Error::NonSequentialParentViewInsert));
    // nothing moved
    assert_eq!(provider.latest_height_in_cache(), Some(102));
    assert_eq!(provider.cached_blocks(), 2);

    // going backwards is refused too
    let r = provider.new_parent_view(101, plain(vec![1; 32]));
    assert_eq!(r, Err(Error::NonSequentialParentViewInsert));
    assert_eq!(provider.cached_blocks(), 2);
}

#[test]
fn non_sequential_nonces_are_refused() {
    let mut provider = FinalityWithNull::new(config(), 1, committed(100, vec![0; 32]));
    let payload = ParentViewPayload {
        block_hash: vec![1; 32],
        validator_changes: vec![],
        top_down_msgs: vec![
            CrossMessage {
                nonce: 0,
                payload: vec![],
            },
            CrossMessage {
                nonce: 2,
                payload: vec![],
            },
        ],
    };
    let r = provider.new_parent_view(101, Some(payload));
    assert_eq!(r, Err(Error::NonSequentialParentViewInsert));
    assert_eq!(provider.latest_height_in_cache(), None);
}

#[test]
fn non_sequential_configuration_numbers_are_refused() {
    let mut provider = FinalityWithNull::new(config(), 1, committed(100, vec![0; 32]));
    let payload = ParentViewPayload {
        block_hash: vec![1; 32],
        validator_changes: vec![
            ValidatorChangeRequest {
                configuration_number: 7,
                payload: vec![],
            },
            ValidatorChangeRequest {
                configuration_number: 9,
                payload: vec![],
            },
        ],
        top_down_msgs: vec![],
    };
    let r = provider.new_parent_view(101, Some(payload));
    assert_eq!(r, Err(Error::NonSequentialParentViewInsert));
    assert_eq!(provider.latest_height_in_cache(), None);
}

#[test]
fn bounded_cache_refuses_when_full() {
    let mut cfg = config();
    cfg.max_cache_blocks = Some(2);
    let mut provider = FinalityWithNull::new(cfg, 1, committed(100, vec![0; 32]));
    provider.new_parent_view(101, plain(vec![1; 32])).unwrap();
    provider.new_parent_view(102, None).unwrap();
    let r = provider.new_parent_view(103, plain(vec![3; 32]));
    assert_eq!(r, Err(Error::CacheFull));
    assert_eq!(provider.cached_blocks(), 2);
    assert_eq!(provider.latest_height_in_cache(), Some(102));
}

#[test]
fn commit_prunes_below_and_keeps_the_height() {
    let mut provider = FinalityWithNull::new(config(), 1, committed(100, vec![0; 32]));
    for h in 101..=107u64 {
        provider.new_parent_view(h, plain(vec![h as u8; 32])).unwrap();
    }
    let f = IPCParentFinality {
        height: 104,
        block_hash: vec![104; 32],
    };
    let prev = provider.last_committed_finality();
    let event = provider.set_new_finality(f.clone(), prev);

    assert_eq!(provider.last_committed_finality(), Some(f));
    // entries strictly below 104 are gone, 104 itself stays
    assert_eq!(provider.block_hash_at_height(103), None);
    assert_eq!(provider.block_hash_at_height(104), Some(vec![104; 32]));
    assert_eq!(provider.block_hash_at_height(105), Some(vec![105; 32]));
    assert_eq!(provider.cached_blocks(), 4);

    // the event carries the height and the hex-encoded hash
    assert_eq!(event.block_height, 104);
    assert_eq!(event.block_hash, "68".repeat(32));
}

#[test]
fn queries_return_what_was_fed_in() {
    let mut provider = FinalityWithNull::new(config(), 1, committed(100, vec![0; 32]));
    let msgs = vec![
        CrossMessage {
            nonce: 10,
            payload: vec![1, 2, 3],
        },
        CrossMessage {
            nonce: 11,
            payload: vec![4],
        },
    ];
    let changes = vec![ValidatorChangeRequest {
        configuration_number: 3,
        payload: vec![9, 9],
    }];
    let payload = ParentViewPayload {
        block_hash: vec![1; 32],
        validator_changes: changes,
        top_down_msgs: msgs,
    };
    provider.new_parent_view(101, Some(payload)).unwrap();
    provider.new_parent_view(102, None).unwrap();

    // filled height: the exact sequences come back
    let got_msgs = provider.top_down_msgs(101).unwrap();
    assert_eq!(got_msgs.len(), 2);
    assert_eq!(got_msgs[0].nonce, 10);
    assert_eq!(got_msgs[0].payload, vec![1, 2, 3]);
    assert_eq!(got_msgs[1].nonce, 11);
    assert_eq!(got_msgs[1].payload, vec![4]);
    let got_changes = provider.validator_changes(101).unwrap();
    assert_eq!(got_changes.len(), 1);
    assert_eq!(got_changes[0].configuration_number, 3);
    assert_eq!(got_changes[0].payload, vec![9, 9]);

    // null round: empty sequences
    assert_eq!(provider.top_down_msgs(102).unwrap().len(), 0);
    assert_eq!(provider.validator_changes(102).unwrap().len(), 0);

    // outside the cache: nothing
    assert!(provider.top_down_msgs(103).is_none());
    assert!(provider.validator_changes(103).is_none());
}

#[test]
fn reset_clears_the_cache_and_forces_the_finality() {
    let mut provider = FinalityWithNull::new(config(), 1, committed(100, vec![0; 32]));
    provider.new_parent_view(101, plain(vec![1; 32])).unwrap();
    provider.new_parent_view(102, plain(vec![2; 32])).unwrap();

    let f = IPCParentFinality {
        height: 200,
        block_hash: vec![7; 32],
    };
    provider.reset(f.clone());
    assert_eq!(provider.cached_blocks(), 0);
    assert_eq!(provider.last_committed_finality(), Some(f));
    assert_eq!(provider.latest_height(), Some(200));

    // the cache restarts from wherever the syncer resumes
    provider.new_parent_view(201, None).unwrap();
    assert_eq!(provider.latest_height_in_cache(), Some(201));
}

#[test]
fn latest_height_falls_back_to_committed() {
    let provider = FinalityWithNull::new(config(), 1, committed(100, vec![0; 32]));
    assert_eq!(provider.latest_height(), Some(100));

    let empty = FinalityWithNull::new(config(), 1, None);
    assert_eq!(empty.latest_height(), None);
}

#[test]
fn genesis_epoch_is_kept() {
    let provider = FinalityWithNull::new(config(), 42, None);
    assert_eq!(provider.genesis_epoch(), 42);
}

#[test]
fn block_hash_prefers_the_committed_finality() {
    let mut provider = FinalityWithNull::new(config(), 1, committed(100, vec![0; 32]));
    provider.new_parent_view(101, plain(vec![1; 32])).unwrap();
    assert_eq!(provider.block_hash_at_height(100), Some(vec![0; 32]));
    assert_eq!(provider.block_hash_at_height(101), Some(vec![1; 32]));
    assert_eq!(provider.block_hash_at_height(102), None);
}

#[test]
fn first_non_null_block_walks_down() {
    let mut provider = FinalityWithNull::new(config(), 1, committed(100, vec![0; 32]));
    provider.new_parent_view(101, plain(vec![1; 32])).unwrap();
    provider.new_parent_view(102, None).unwrap();
    provider.new_parent_view(103, None).unwrap();
    provider.new_parent_view(104, plain(vec![4; 32])).unwrap();
    provider.new_parent_view(105, None).unwrap();

    assert_eq!(provider.first_non_null_block(105), Some(104));
    assert_eq!(provider.first_non_null_block(104), Some(104));
    assert_eq!(provider.first_non_null_block(103), Some(101));
    assert_eq!(provider.first_non_null_block(101), Some(101));
    assert_eq!(provider.first_non_null_block(100), None);
}

#[test]
fn check_proposal_accepts_any_filled_height_above_committed() {
    let mut provider = FinalityWithNull::new(config(), 1, committed(100, vec![0; 32]));
    for h in 101..=105u64 {
        provider.new_parent_view(h, plain(vec![h as u8; 32])).unwrap();
    }
    // any filled height above the committed one with the right hash passes
    for h in 101..=105u64 {
        let p = IPCParentFinality {
            height: h,
            block_hash: vec![h as u8; 32],
        };
        assert!(provider.check_proposal(&p));
    }
    // already committed
    assert!(!provider.check_proposal(&IPCParentFinality {
        height: 100,
        block_hash: vec![0; 32],
    }));
    // beyond what we have observed
    assert!(!provider.check_proposal(&IPCParentFinality {
        height: 106,
        block_hash: vec![6; 32],
    }));
    // wrong hash
    assert!(!provider.check_proposal(&IPCParentFinality {
        height: 103,
        block_hash: vec![9; 32],
    }));
}

#[test]
fn check_proposal_rejects_when_unseeded_or_empty() {
    let unseeded = FinalityWithNull::new(config(), 1, None);
    assert!(!unseeded.check_proposal(&IPCParentFinality {
        height: 101,
        block_hash: vec![1; 32],
    }));

    let empty = FinalityWithNull::new(config(), 1, committed(100, vec![0; 32]));
    assert!(!empty.check_proposal(&IPCParentFinality {
        height: 101,
        block_hash: vec![1; 32],
    }));
}

#[test]
fn proposal_round_trip_checks_out() {
    let mut provider = FinalityWithNull::new(config(), 1, committed(100, vec![0; 32]));
    for h in 101..=107u64 {
        provider.new_parent_view(h, plain(vec![h as u8; 32])).unwrap();
    }
    let proposal = provider.next_proposal().unwrap();
    assert!(provider.check_proposal(&proposal));
}

#[test]
fn next_proposal_skips_null_rounds() {
    let mut provider = FinalityWithNull::new(config(), 1, committed(100, vec![0; 32]));
    provider.new_parent_view(101, plain(vec![1; 32])).unwrap();
    provider.new_parent_view(102, None).unwrap();
    provider.new_parent_view(103, None).unwrap();
    provider.new_parent_view(104, None).unwrap();
    provider.new_parent_view(105, plain(vec![5; 32])).unwrap();

    // candidate 105 is filled, the delay steps down to 103, and the walk
    // down from there ends at the filled 101
    let p = provider.next_proposal().unwrap();
    assert_eq!(p.height, 101);
    assert_eq!(p.block_hash, vec![1; 32]);
}

#[test]
fn next_proposal_refuses_the_committed_height() {
    // the cache still holds the committed height, as it does right after a
    // commit; the delay walks back down onto it, so nothing is proposed
    let mut provider = FinalityWithNull::new(config(), 1, committed(104, vec![4; 32]));
    provider.new_parent_view(104, plain(vec![4; 32])).unwrap();
    provider.new_parent_view(105, None).unwrap();
    provider.new_parent_view(106, plain(vec![6; 32])).unwrap();
    assert_eq!(provider.next_proposal(), None);
}

#[test]
fn next_proposal_with_nothing_after_the_delay() {
    // only two blocks past the committed one: the delay steps below the
    // cache and nothing can be proposed yet
    let mut provider = FinalityWithNull::new(config(), 1, committed(100, vec![0; 32]));
    provider.new_parent_view(101, plain(vec![1; 32])).unwrap();
    provider.new_parent_view(102, plain(vec![2; 32])).unwrap();
    assert_eq!(provider.next_proposal(), None);
}
