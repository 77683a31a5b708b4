use attestor::correlator::{
    attest, header_filter, state_root_update, AttestError, ChainStats, HeaderCorrelator, WaitOutcome,
};
use attestor::notifier::{BlockFilter, Notifier, NotifierError};
use attestor::types::{bytes_eq, zeroed, DaBlock, Header, StateRootUpdateMessage};

fn header(number: u64, root: u8) -> Header {
    Header { number, timestamp: 1_700_000_000, state_root: [root; 32] }
}

fn block(rollup_id: u32, height: u64, root: u8, txid: u8, commitment: u8) -> DaBlock {
    DaBlock {
        rollup_id,
        block_height: height,
        state_root: [root; 32],
        transaction_id: [txid; 32],
        commitment: [commitment; 32],
    }
}

#[test]
fn matching_block_fills_da_fields() {
    let h = header(100, 0xAA);
    let mut n = Notifier::new();
    let id = n.subscribe(7, header_filter(7, &h));
    let d = block(7, 100, 0xAA, 0x01, 0x02);
    let delivered = n.publish(&d).unwrap();
    assert_eq!(delivered, vec![id]);
    assert!(!n.is_subscribed(7, id));
    let m = state_root_update(7, &h, &WaitOutcome::Matched(d));
    assert_eq!(m.rollup_id, 7);
    assert_eq!(m.block_height, 100);
    assert_eq!(m.timestamp, 1_700_000_000);
    assert_eq!(m.state_root, [0xAA; 32]);
    assert_eq!(m.near_da_transaction_id, [0x01; 32]);
    assert_eq!(m.near_da_commitment, [0x02; 32]);
}

#[test]
fn timeout_zero_fills_and_counts_a_miss() {
    let h = header(100, 0xAA);
    let mut stats = ChainStats::new();
    stats.observe_header(&h);
    stats.observe_outcome(&WaitOutcome::TimedOut);
    let m = state_root_update(7, &h, &WaitOutcome::TimedOut);
    assert_eq!(m.near_da_transaction_id, [0u8; 32]);
    assert_eq!(m.near_da_commitment, [0u8; 32]);
    assert_eq!(m.state_root, [0xAA; 32]);
    assert_eq!(stats.missed, 1);
    assert_eq!(stats.received, 1);
    assert_eq!(stats.last_block, 100);
    assert_eq!(stats.last_timestamp, 1_700_000_000);
}

#[test]
fn closed_channel_zero_fills_without_a_miss() {
    let h = header(5, 0x11);
    let mut stats = ChainStats::new();
    stats.observe_outcome(&WaitOutcome::ChannelClosed);
    let m = state_root_update(9, &h, &WaitOutcome::ChannelClosed);
    assert_eq!(m.rollup_id, 9);
    assert_eq!(m.near_da_transaction_id, [0u8; 32]);
    assert_eq!(m.near_da_commitment, [0u8; 32]);
    assert_eq!(stats.missed, 0);
}

#[test]
fn non_matching_blocks_are_not_delivered() {
    let h = header(100, 0xAA);
    let mut n = Notifier::new();
    let id = n.subscribe(7, header_filter(7, &h));
    assert_eq!(n.publish(&block(7, 101, 0xAA, 1, 2)).unwrap(), Vec::<u64>::new());
    assert_eq!(n.publish(&block(7, 100, 0xAB, 1, 2)).unwrap(), Vec::<u64>::new());
    assert_eq!(n.publish(&block(8, 100, 0xAA, 1, 2)).unwrap(), Vec::<u64>::new());
    assert!(n.is_subscribed(7, id));
    assert_eq!(n.len(), 1);
}

#[test]
fn thousand_blocks_deliver_once() {
    let h = header(500, 0x33);
    let mut n = Notifier::new();
    let id = n.subscribe(3, header_filter(3, &h));
    let mut deliveries = 0;
    for i in 0..1000u64 {
        let d = block(3, i, 0x33, (i % 256) as u8, 0x02);
        let delivered = n.publish(&d).unwrap();
        if delivered.contains(&id) {
            deliveries += 1;
            assert_eq!(i, 500);
        }
    }
    // the same matching block again reaches nobody
    assert_eq!(n.publish(&block(3, 500, 0x33, 0, 0)).unwrap(), Vec::<u64>::new());
    assert_eq!(deliveries, 1);
    assert_eq!(n.len(), 0);
}

#[test]
fn one_publish_reaches_all_matching_waiters() {
    let h = header(10, 0x44);
    let mut n = Notifier::new();
    let a = n.subscribe(1, header_filter(1, &h));
    let other = n.subscribe(1, header_filter(1, &header(11, 0x44)));
    let b = n.subscribe(1, header_filter(1, &h));
    assert_eq!(n.publish(&block(1, 10, 0x44, 0, 0)).unwrap(), vec![a, b]);
    assert!(n.is_subscribed(1, other));
    assert_eq!(n.len(), 1);
}

#[test]
fn unsubscribe_is_idempotent() {
    let h = header(10, 0x44);
    let mut n = Notifier::new();
    let a = n.subscribe(1, header_filter(1, &h));
    let b = n.subscribe(1, header_filter(1, &h));
    n.unsubscribe(1, a);
    n.unsubscribe(1, a);
    assert!(!n.is_subscribed(1, a));
    assert!(n.is_subscribed(1, b));
    assert_eq!(n.len(), 1);
}

#[test]
fn unsubscribe_after_delivery_changes_nothing() {
    let h = header(10, 0x44);
    let mut n = Notifier::new();
    let a = n.subscribe(1, header_filter(1, &h));
    let b = n.subscribe(1, header_filter(1, &header(12, 0x44)));
    assert_eq!(n.publish(&block(1, 10, 0x44, 0, 0)).unwrap(), vec![a]);
    n.unsubscribe(1, a);
    assert!(n.is_subscribed(1, b));
    assert_eq!(n.len(), 1);
}

#[test]
fn unsubscribe_on_another_chain_keeps_subscription() {
    let mut n = Notifier::new();
    let a = n.subscribe(1, header_filter(1, &header(10, 0x44)));
    n.unsubscribe(2, a);
    assert!(n.is_subscribed(1, a));
}

#[test]
fn chains_do_not_interfere() {
    let mut n = Notifier::new();
    let on_a = n.subscribe(1, header_filter(1, &header(10, 0x44)));
    let on_b = n.subscribe(2, header_filter(2, &header(10, 0x44)));
    assert_eq!(n.publish(&block(2, 10, 0x44, 0, 0)).unwrap(), vec![on_b]);
    assert!(n.is_subscribed(1, on_a));
    // a filter of chain 1 on a chain-2 subscription never sees chain 2's block
    let odd = n.subscribe(2, BlockFilter { rollup_id: 1, block_height: 10, state_root: [0x44; 32] });
    assert_eq!(n.publish(&block(2, 10, 0x44, 0, 0)).unwrap(), Vec::<u64>::new());
    assert!(n.is_subscribed(2, odd));
}

#[test]
fn subscription_ids_are_fresh() {
    let mut n = Notifier::new();
    let f = header_filter(1, &header(1, 1));
    let a = n.subscribe(1, f);
    let b = n.subscribe(2, f);
    let c = n.subscribe(1, f);
    assert_eq!((a, b, c), (0, 1, 2));
    assert!(n.can_subscribe());
}

#[test]
fn publish_after_shutdown_is_refused() {
    let mut n = Notifier::new();
    let a = n.subscribe(1, header_filter(1, &header(10, 0x44)));
    n.shutdown();
    assert!(n.closed());
    assert_eq!(n.publish(&block(1, 10, 0x44, 0, 0)), Err(NotifierError::Closed));
    assert!(n.is_subscribed(1, a));
}

#[test]
fn filter_tests_chain_height_and_root() {
    let f = header_filter(7, &header(100, 0xAA));
    assert!(f.test(&block(7, 100, 0xAA, 9, 9)));
    assert!(!f.test(&block(6, 100, 0xAA, 9, 9)));
    assert!(!f.test(&block(7, 99, 0xAA, 9, 9)));
    let mut root = [0xAA; 32];
    root[31] = 0;
    let mut d = block(7, 100, 0xAA, 9, 9);
    d.state_root = root;
    assert!(!f.test(&d));
}

#[test]
fn signed_message_keeps_message_and_signer() {
    let m = state_root_update(7, &header(100, 0xAA), &WaitOutcome::TimedOut);
    let s = attest(m, Ok(vec![1, 2, 3]), [0x05; 32]).unwrap();
    assert_eq!(s.bls_signature, vec![1, 2, 3]);
    assert_eq!(s.operator_id, [0x05; 32]);
    assert_eq!(s.message.block_height, 100);
    assert_eq!(s.message.rollup_id, 7);
}

#[test]
fn signing_failure_suppresses_emission() {
    let m: StateRootUpdateMessage = state_root_update(7, &header(100, 0xAA), &WaitOutcome::TimedOut);
    let r = attest(m, Err("no key".to_string()), [0x05; 32]);
    assert_eq!(r.unwrap_err(), AttestError::SignFailed("no key".to_string()));
}

#[test]
fn byte_helpers() {
    assert_eq!(zeroed(), [0u8; 32]);
    let a = [3u8; 32];
    let mut b = a;
    assert!(bytes_eq(&a, &b));
    b[0] = 4;
    assert!(!bytes_eq(&a, &b));
}

#[test]
fn header_cycle_emits_one_message_per_header() {
    let mut c = HeaderCorrelator::new(7);
    assert!(c.is_waiting());
    let h = header(100, 0xAA);
    let f = c.on_header(&h);
    assert_eq!((f.rollup_id, f.block_height, f.state_root), (7, 100, [0xAA; 32]));
    assert!(!c.is_waiting());
    let d = block(7, 100, 0xAA, 0x01, 0x02);
    let m = c.on_wait_over(&WaitOutcome::Matched(d));
    assert_eq!(m.near_da_transaction_id, [0x01; 32]);
    assert_eq!(m.near_da_commitment, [0x02; 32]);
    assert_eq!(m.block_height, 100);
    assert!(c.is_waiting());
    assert_eq!(c.emitted, 1);
    assert_eq!(c.stats.missed, 0);

    c.on_header(&header(101, 0xBB));
    let m = c.on_wait_over(&WaitOutcome::TimedOut);
    assert_eq!(m.block_height, 101);
    assert_eq!(m.state_root, [0xBB; 32]);
    assert_eq!(m.near_da_transaction_id, [0u8; 32]);
    assert_eq!(c.emitted, 2);
    assert_eq!(c.stats.missed, 1);
    assert_eq!(c.stats.received, 2);
    assert_eq!(c.stats.last_block, 101);

    c.on_header(&header(102, 0xCC));
    c.on_wait_over(&WaitOutcome::ChannelClosed);
    assert_eq!(c.emitted, 3);
    assert_eq!(c.stats.missed, 1);
}

#[test]
fn stats_counters_saturate() {
    let mut s = ChainStats { last_block: 0, last_timestamp: 0, received: u64::MAX, missed: u64::MAX };
    s.observe_header(&header(1, 1));
    s.observe_outcome(&WaitOutcome::TimedOut);
    assert_eq!(s.received, u64::MAX);
    assert_eq!(s.missed, u64::MAX);
}
