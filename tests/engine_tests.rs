use hbbft_engine::batch::{batch_transactions, median_timestamp, random_number, summarize_output, Batch, Contribution};
use hbbft_engine::codec::{decode, encode, Message};
use hbbft_engine::committee::{contribution_due, contribution_due_from, fault_bound, recipients, shares_suffice, Target};
use hbbft_engine::config::{enode_uri, node_settings, AccountUnlock, BasePath, ConfigType};
use hbbft_engine::engine::{keygen_step, EngineError, HbbftParams, HoneyBadgerBFT, KeygenStep};
use hbbft_engine::seal::{check_seal, seal_for};
use hbbft_engine::sealing::{SealingState, SealingTracker, ShareOutcome};
use hbbft_engine::timing::{epoch_start_due, timer_millis};

fn contribution(txns: Vec<&[u8]>, timestamp: u64, random_data: Vec<u8>) -> Contribution {
    Contribution {
        transactions: txns.into_iter().map(|t| t.to_vec()).collect(),
        timestamp,
        random_data,
    }
}

fn node(i: u8) -> Vec<u8> {
    vec![i; 64]
}

fn params() -> HbbftParams {
    HbbftParams {
        minimum_block_time: 5,
        transaction_queue_size_trigger: 2,
        block_reward_contract_address: None,
        is_unit_test: true,
    }
}

#[test]
fn envelope_encodes_as_tagged_json() {
    let m = Message::HoneyBadger(5, b"{\"a\":1}".to_vec());
    assert_eq!(encode(&m), b"{\"HoneyBadger\":[5,{\"a\":1}]}".to_vec());
    let s = Message::Sealing(1234, b"[1,2]".to_vec());
    assert_eq!(encode(&s), b"{\"Sealing\":[1234,[1,2]]}".to_vec());
}

#[test]
fn envelope_round_trip() {
    for m in [
        Message::HoneyBadger(0, b"null".to_vec()),
        Message::HoneyBadger(u64::MAX, b"{\"x\":[1,2]}".to_vec()),
        Message::Sealing(95, b"\"share\"".to_vec()),
        Message::Sealing(7, Vec::new()),
    ] {
        let bytes = encode(&m);
        match (decode(&bytes), m) {
            (Some(Message::HoneyBadger(n, p)), Message::HoneyBadger(n0, p0)) => {
                assert_eq!(n, n0);
                assert_eq!(p, p0);
            }
            (Some(Message::Sealing(n, p)), Message::Sealing(n0, p0)) => {
                assert_eq!(n, n0);
                assert_eq!(p, p0);
            }
            _ => panic!("decoding did not give the message back"),
        }
    }
}

#[test]
fn envelope_rejects_malformed_bytes() {
    assert!(decode(&b"".to_vec()).is_none());
    assert!(decode(&b"{\"Other\":[1,2]}".to_vec()).is_none());
    assert!(decode(&b"{\"Sealing\":[,2]}".to_vec()).is_none());
    assert!(decode(&b"{\"Sealing\":[01,2]}".to_vec()).is_none());
    assert!(decode(&b"{\"Sealing\":[1,2]".to_vec()).is_none());
    assert!(decode(&b"{\"Sealing\":[18446744073709551616,2]}".to_vec()).is_none());
}

#[test]
fn single_contribution_batch() {
    let mut random = vec![0u8; 32];
    random[0] = 0xab;
    random[31] = 0x01;
    let batch = Batch {
        epoch: 0,
        contributions: vec![(node(0), contribution(vec![b"tx1"], 1_000, random.clone()))],
    };
    let s = summarize_output(&vec![batch]).expect("one contribution gives a summary");
    assert_eq!(s.epoch, 0);
    assert_eq!(s.transactions, vec![b"tx1".to_vec()]);
    assert_eq!(s.timestamp, 1_000);
    assert_eq!(s.random_number, random);
}

#[test]
fn no_batch_gives_no_summary() {
    assert!(summarize_output(&Vec::new()).is_none());
    let empty = Batch { epoch: 3, contributions: Vec::new() };
    assert!(summarize_output(&vec![empty]).is_none());
}

#[test]
fn transactions_deduplicated_in_first_seen_order() {
    let batch = Batch {
        epoch: 1,
        contributions: vec![
            (node(1), contribution(vec![b"a", b"b", b"a"], 1, vec![0; 32])),
            (node(2), contribution(vec![b"c", b"b"], 2, vec![0; 32])),
        ],
    };
    assert_eq!(
        batch_transactions(&batch),
        vec![b"a".to_vec(), b"b".to_vec(), b"c".to_vec()]
    );
}

#[test]
fn median_timestamp_of_unsorted_contributions() {
    let three = Batch {
        epoch: 1,
        contributions: vec![
            (node(1), contribution(vec![], 50, vec![])),
            (node(2), contribution(vec![], 10, vec![])),
            (node(3), contribution(vec![], 30, vec![])),
        ],
    };
    assert_eq!(median_timestamp(&three), Some(30));
    let four = Batch {
        epoch: 1,
        contributions: vec![
            (node(1), contribution(vec![], 4, vec![])),
            (node(2), contribution(vec![], 1, vec![])),
            (node(3), contribution(vec![], 3, vec![])),
            (node(4), contribution(vec![], 2, vec![])),
        ],
    };
    assert_eq!(median_timestamp(&four), Some(3));
}

#[test]
fn random_number_xors_and_skips_short_data() {
    let mut a = vec![0u8; 40];
    a[0] = 0b1100;
    a[39] = 0xff;
    let mut b = vec![0u8; 32];
    b[0] = 0b1010;
    b[5] = 7;
    let batch = Batch {
        epoch: 2,
        contributions: vec![
            (node(1), contribution(vec![], 1, a)),
            (node(2), contribution(vec![], 1, b)),
            (node(3), contribution(vec![], 1, vec![0xff; 31])),
        ],
    };
    let mut expected = vec![0u8; 32];
    expected[0] = 0b0110;
    expected[5] = 7;
    assert_eq!(random_number(&batch), expected);
}

#[test]
fn fault_bounds() {
    assert_eq!(fault_bound(1), 0);
    assert_eq!(fault_bound(4), 1);
    assert_eq!(fault_bound(7), 2);
    assert_eq!(fault_bound(10), 3);
}

#[test]
fn late_join_contribution() {
    // n = 4, f = 1: two peer contributions make us join.
    assert!(!contribution_due(false, 0, 4));
    assert!(!contribution_due(false, 1, 4));
    assert!(contribution_due(false, 2, 4));
    assert!(!contribution_due(true, 3, 4));
    // n = 1, f = 0: one contribution suffices.
    assert!(contribution_due(false, 1, 1));
}

#[test]
fn share_threshold() {
    assert!(!shares_suffice(1, 4));
    assert!(shares_suffice(2, 4));
    assert!(shares_suffice(1, 1));
}

#[test]
fn message_targets() {
    let committee = vec![node(1), node(2), node(3), node(4)];
    let ours = node(1);
    let to_nodes = recipients(&Target::Nodes(vec![node(3), node(1)]), &committee, &ours);
    assert_eq!(to_nodes, vec![node(3)]);
    let all_except = recipients(&Target::AllExcept(vec![node(2)]), &committee, &ours);
    assert_eq!(all_except, vec![node(3), node(4)]);
    let repeated = recipients(&Target::Nodes(vec![node(3), node(2), node(3)]), &committee, &ours);
    assert_eq!(repeated, vec![node(3), node(2)]);
}

#[test]
fn obsolete_sealing_share() {
    let mut t = SealingTracker::new();
    let r = t.handle_peer_share(Some(100), 95, node(2), b"share".to_vec());
    assert!(matches!(r, ShareOutcome::Obsolete));
    assert!(t.signature(95).is_none());
    // The share did not open a session: completing it is refused.
    assert!(!t.complete(95, vec![1; 96]));
    let r = t.handle_peer_share(Some(100), 100, node(2), b"share".to_vec());
    assert!(matches!(r, ShareOutcome::Obsolete));
}

#[test]
fn shares_are_counted_per_sender() {
    let mut t = SealingTracker::new();
    assert!(matches!(t.add_share(7, node(1), b"s1".to_vec()), ShareOutcome::Collected(1)));
    assert!(matches!(t.handle_peer_share(Some(5), 7, node(2), b"s2".to_vec()), ShareOutcome::Collected(2)));
    assert!(matches!(t.handle_peer_share(None, 7, node(2), b"again".to_vec()), ShareOutcome::Collected(2)));
}

#[test]
fn one_combined_signature_per_block() {
    let mut t = SealingTracker::new();
    t.add_share(7, node(1), b"s1".to_vec());
    assert!(t.complete(7, vec![1; 96]));
    assert!(!t.complete(7, vec![2; 96]));
    assert_eq!(t.signature(7), Some(&vec![1; 96]));
    assert!(matches!(t.add_share(7, node(3), b"late".to_vec()), ShareOutcome::AlreadyComplete));
    assert_eq!(t.signature(7), Some(&vec![1; 96]));
}

#[test]
fn sealing_state_evicts_and_reports() {
    let mut t = SealingTracker::new();
    for b in [5u64, 6, 7] {
        t.add_share(b, node(1), b"s".to_vec());
        assert!(t.complete(b, vec![b as u8; 96]));
    }
    assert!(matches!(t.sealing_state(None), SealingState::NotReady));
    assert!(t.signature(5).is_some());
    assert!(matches!(t.sealing_state(Some(5)), SealingState::Ready));
    assert!(t.signature(5).is_none());
    assert!(t.signature(6).is_some());
    assert!(matches!(t.sealing_state(Some(7)), SealingState::NotReady));
    assert!(t.signature(6).is_none());
    assert!(t.signature(7).is_none());
}

#[test]
fn not_ready_while_in_progress() {
    let mut t = SealingTracker::new();
    t.add_share(11, node(1), b"s".to_vec());
    assert!(matches!(t.sealing_state(Some(10)), SealingState::NotReady));
    assert!(matches!(t.sealing_state(Some(u64::MAX)), SealingState::NotReady));
}

#[test]
fn timer_delay() {
    assert_eq!(timer_millis(None, 5, 0), 1000);
    // Next block at 105 s; now 104.5 s.
    assert_eq!(timer_millis(Some(100), 5, 104_500), 500);
    // Already past: the shortest delay.
    assert_eq!(timer_millis(Some(100), 5, 200_000), 1);
    assert_eq!(timer_millis(Some(100), 5, 105_000), 1);
    assert_eq!(timer_millis(Some(0), 1, 5000), 1);
    // A minimum block time of zero caps the delay at zero.
    assert_eq!(timer_millis(Some(100), 0, 200_000), 0);
    // Far ahead, beyond what a u64 of milliseconds holds: the minimum block time.
    assert_eq!(timer_millis(Some(u64::MAX), 5, 0), 5000);
    // Far ahead: capped at the minimum block time.
    assert_eq!(timer_millis(Some(100), 5, 0), 5000);
    assert_eq!(timer_millis(Some(100), 5, 104_999), 1);
}

#[test]
fn epoch_start_trigger() {
    assert!(!epoch_start_due(None, 5, 1000, 10, 1));
    assert!(epoch_start_due(Some(100), 5, 105, 2, 2));
    assert!(!epoch_start_due(Some(100), 5, 104, 2, 2));
    assert!(!epoch_start_due(Some(100), 5, 105, 1, 2));
    assert!(!epoch_start_due(Some(u64::MAX), 5, u64::MAX, 2, 2));
}

#[test]
fn seal_round_trip() {
    let sig = vec![9u8; 96];
    let seal = seal_for(Some(&sig), true).expect("a verified signature seals");
    assert_eq!(seal.len(), 1);
    assert_eq!(seal[0][0], 0xb8);
    assert_eq!(seal[0][1], 96);
    assert_eq!(seal[0].len(), 98);
    match check_seal(11, 10, &seal) {
        Ok(s) => assert_eq!(s, sig),
        Err(_) => panic!("a seal of the engine is accepted"),
    }
}

#[test]
fn seal_checks_refuse() {
    let sig = vec![9u8; 96];
    assert!(seal_for(Some(&sig), false).is_none());
    assert!(seal_for(None, true).is_none());
    assert!(seal_for(Some(&vec![1u8; 95]), true).is_none());
    let seal = seal_for(Some(&sig), true).unwrap();
    assert!(check_seal(12, 10, &seal).is_err());
    let mut two = seal.clone();
    two.push(seal[0].clone());
    assert!(check_seal(11, 10, &two).is_err());
    let mut bad = seal.clone();
    bad[0][0] = 0xb9;
    assert!(check_seal(11, 10, &bad).is_err());
}

#[test]
fn engine_random_numbers_and_transactions() {
    let mut e = HoneyBadgerBFT::new(params());
    assert!(matches!(e.generate_engine_transactions(4), Err(EngineError::Custom(_))));
    let batch = Batch {
        epoch: 4,
        contributions: vec![(node(1), contribution(vec![b"t"], 9, vec![3; 32]))],
    };
    let s = e.process_output(&vec![batch]).unwrap();
    assert_eq!(s.random_number, vec![3; 32]);
    match e.generate_engine_transactions(4) {
        Ok(txns) => assert!(txns.is_empty()),
        Err(_) => panic!("the batch of block 4 was processed"),
    }
}

#[test]
fn engine_handle_message_errors() {
    let e = HoneyBadgerBFT::new(params());
    let bytes = encode(&Message::Sealing(3, b"1".to_vec()));
    assert!(matches!(e.handle_message(&bytes, None), Err(EngineError::UnexpectedMessage)));
    assert!(matches!(
        e.handle_message(&b"garbage".to_vec(), Some(node(1))),
        Err(EngineError::MalformedMessage)
    ));
    match e.handle_message(&bytes, Some(node(2))) {
        Ok((id, Message::Sealing(3, p))) => {
            assert_eq!(id, node(2));
            assert_eq!(p, b"1".to_vec());
        }
        _ => panic!("a sealing message is routed"),
    }
}

#[test]
fn engine_sealing_flow() {
    let mut e = HoneyBadgerBFT::new(params());
    e.sign_block(8, node(1), b"own".to_vec());
    assert!(matches!(e.process_sealing_message(Some(7), 8, node(2), b"peer".to_vec()), ShareOutcome::Collected(2)));
    assert!(e.generate_seal(8, true).is_none());
    assert!(e.process_seal_output(8, vec![5; 96]));
    assert!(e.generate_seal(8, false).is_none());
    let seal = e.generate_seal(8, true).unwrap();
    assert!(e.verify_block_family(8, 7, &seal).is_ok());
    assert!(matches!(e.sealing_state(Some(7)), SealingState::Ready));
    assert!(matches!(e.sealing_state(Some(8)), SealingState::NotReady));
    assert!(e.seal_signature(8).is_none());
}

#[test]
fn engine_thresholds_and_timer() {
    let e = HoneyBadgerBFT::new(params());
    assert!(e.transaction_queue_and_time_thresholds_reached(Some(100), 105, 2));
    assert!(!e.transaction_queue_and_time_thresholds_reached(Some(100), 105, 1));
    assert!(!e.transaction_queue_and_time_thresholds_reached(None, 105, 2));
    assert_eq!(e.next_timer_millis(Some(100), 104_000), 1000);
    assert_eq!(e.next_timer_millis(Some(100), 101_000), 4000);
}

#[test]
fn engine_fixed_answers() {
    let mut e = HoneyBadgerBFT::new(params());
    assert_eq!(e.name(), "HoneyBadgerBFT");
    assert_eq!(e.seal_fields(), 1);
    assert!(!e.should_miner_prepare_blocks());
    assert!(!e.use_block_author());
    assert!(e.is_unit_test());
    assert!(!e.has_block_reward_contract());
    match e.wrap_hb_message(b"{}".to_vec()) {
        Message::HoneyBadger(n, _) => assert_eq!(n, 1),
        _ => panic!("a Honey Badger message"),
    }
    match e.wrap_hb_message(b"{}".to_vec()) {
        Message::HoneyBadger(n, _) => assert_eq!(n, 2),
        _ => panic!("a Honey Badger message"),
    }
}

#[test]
fn keygen_steps() {
    assert!(matches!(keygen_step(None, Some(true), Some(true)), KeygenStep::NotInKeygen));
    assert!(matches!(keygen_step(Some(0), Some(true), Some(true)), KeygenStep::NotInKeygen));
    assert!(matches!(keygen_step(Some(4), Some(true), Some(true)), KeygenStep::KeyReady));
    assert!(matches!(keygen_step(Some(4), Some(false), Some(true)), KeygenStep::PostTransactions));
    assert!(matches!(keygen_step(Some(4), None, None), KeygenStep::Wait));
}

#[test]
fn posdao_node_settings() {
    let s = node_settings(1, &ConfigType::PosdaoSetup, None);
    assert_eq!(s.network_port, 30301);
    assert_eq!(s.rpc_port, 8541);
    assert_eq!(s.websockets_port, 9541);
    assert_eq!(s.chain, "./spec/spec.json");
    assert_eq!(s.reserved_peers, "parity-data/reserved-peers");
    assert!(matches!(s.base_path, BasePath::NodeData(1)));
    assert!(s.external_ip.is_none());
    assert!(matches!(s.unlock, AccountUnlock::PosdaoAccounts));
    assert!(s.validator_keys);
}

#[test]
fn docker_and_rpc_node_settings() {
    let d = node_settings(3, &ConfigType::Docker, Some("10.0.0.1".to_string()));
    assert_eq!(d.chain, "spec.json");
    assert_eq!(d.reserved_peers, "reserved-peers");
    assert!(matches!(d.base_path, BasePath::Data));
    assert_eq!(d.external_ip.as_deref(), Some("10.0.0.1"));
    assert!(matches!(d.unlock, AccountUnlock::Signer));
    let r = node_settings(0, &ConfigType::Rpc, None);
    assert_eq!(r.network_port, 30300);
    assert!(matches!(r.unlock, AccountUnlock::NoAccount));
    assert!(!r.validator_keys);
}

#[test]
fn enode_uri_format() {
    let mut public = vec![0u8; 64];
    public[0] = 0x30;
    public[1] = 0xcc;
    public[63] = 0xb4;
    let uri = String::from_utf8(enode_uri(&public, &b"192.168.0.101".to_vec(), 1)).unwrap();
    let hex: String = public.iter().map(|b| format!("{:02x}", b)).collect();
    assert_eq!(uri, format!("enode://{}@192.168.0.101:30301", hex));
    assert!(uri.starts_with("enode://30cc00"));
}

#[test]
fn late_join_counts_distinct_senders() {
    // n = 4, f = 1: the same peer twice is one contribution.
    assert!(!contribution_due_from(false, vec![node(2), node(2)], 4));
    assert!(contribution_due_from(false, vec![node(2), node(3)], 4));
    assert!(!contribution_due_from(true, vec![node(2), node(3), node(4)], 4));
}

#[test]
fn contribution_needs_enough_randomness() {
    assert!(Contribution::new(vec![b"t".to_vec()], 5, vec![1; 31]).is_none());
    let c = Contribution::new(vec![b"t".to_vec()], 5, vec![1; 32]).unwrap();
    assert_eq!(c.timestamp, 5);
    assert_eq!(c.transactions, vec![b"t".to_vec()]);
    assert_eq!(c.random_data, vec![1; 32]);
}

#[test]
fn batch_validity_requires_ascending_ids() {
    let ok = Batch {
        epoch: 1,
        contributions: vec![
            (node(1), contribution(vec![], 1, vec![])),
            (node(2), contribution(vec![], 1, vec![])),
        ],
    };
    assert!(ok.is_valid());
    let repeated = Batch {
        epoch: 1,
        contributions: vec![
            (node(2), contribution(vec![], 1, vec![])),
            (node(2), contribution(vec![], 1, vec![])),
        ],
    };
    assert!(!repeated.is_valid());
    let descending = Batch {
        epoch: 1,
        contributions: vec![
            (vec![1, 2], contribution(vec![], 1, vec![])),
            (vec![1], contribution(vec![], 1, vec![])),
        ],
    };
    assert!(!descending.is_valid());
    assert!(Batch { epoch: 0, contributions: Vec::new() }.is_valid());
}

#[test]
fn reward_call_only_with_configured_contract() {
    let e = HoneyBadgerBFT::new(params());
    assert!(!e.has_block_reward_contract());
    assert!(e.reward_call(true).is_none());
    let mut p = params();
    p.block_reward_contract_address = Some(vec![0xaa; 20]);
    p.is_unit_test = false;
    let e = HoneyBadgerBFT::new(p);
    assert!(e.has_block_reward_contract());
    assert!(!e.is_unit_test());
    assert_eq!(e.reward_call(true), Some((vec![0xaa; 20], true)));
    assert_eq!(e.reward_call(false), Some((vec![0xaa; 20], false)));
}

#[test]
fn missing_random_number_error_text() {
    let e = HoneyBadgerBFT::new(params());
    match e.generate_engine_transactions(9) {
        Err(EngineError::Custom(t)) => assert_eq!(t, "No value available for calling randomness contract"),
        _ => panic!("no batch of block 9 was processed"),
    }
}
