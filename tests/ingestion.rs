use attestor::consumer::consumer_config;
use attestor::supervisor::{ConsumerEvent, Phase, Supervisor, SupervisorAction};
use attestor::types::DaBlock;

fn is_sleep(a: SupervisorAction, secs: u64) -> bool {
    matches!(a, SupervisorAction::Sleep(s) if s == secs)
}

#[test]
fn start_retried_after_three_failures() {
    let mut s = Supervisor::unbounded();
    assert!(matches!(s.first_action(), SupervisorAction::StartConsumer));
    for k in 1..=3u64 {
        let a = s.step(ConsumerEvent::StartFailed);
        assert!(is_sleep(a, 5));
        assert_eq!(s.start_failures, k);
        let a = s.step(ConsumerEvent::DelayElapsed);
        assert!(matches!(a, SupervisorAction::StartConsumer));
    }
    let a = s.step(ConsumerEvent::Started);
    assert!(matches!(a, SupervisorAction::ReadStream));
    assert_eq!(s.phase, Phase::Streaming);
    assert_eq!(s.start_failures, 0);
}

#[test]
fn bounded_retries_give_up() {
    let mut s = Supervisor::new(1, Some(2));
    assert!(is_sleep(s.step(ConsumerEvent::StartFailed), 1));
    assert!(matches!(s.step(ConsumerEvent::DelayElapsed), SupervisorAction::StartConsumer));
    assert!(matches!(s.step(ConsumerEvent::StartFailed), SupervisorAction::GiveUp));
    assert_eq!(s.phase, Phase::Stopped);
    assert!(matches!(s.step(ConsumerEvent::DelayElapsed), SupervisorAction::GiveUp));
}

#[test]
fn stream_blocks_are_published_and_lag_is_survived() {
    let mut s = Supervisor::unbounded();
    s.step(ConsumerEvent::Started);
    let d = DaBlock {
        rollup_id: 3,
        block_height: 9,
        state_root: [1; 32],
        transaction_id: [2; 32],
        commitment: [3; 32],
    };
    match s.step(ConsumerEvent::Block(d)) {
        SupervisorAction::Publish(b) => {
            assert_eq!(b.rollup_id, 3);
            assert_eq!(b.block_height, 9);
        }
        _ => panic!("block not published"),
    }
    assert!(matches!(s.step(ConsumerEvent::Lagged(7)), SupervisorAction::ReadStream));
    assert!(matches!(s.step(ConsumerEvent::Lagged(3)), SupervisorAction::ReadStream));
    assert_eq!(s.lagged, 10);
    assert_eq!(s.phase, Phase::Streaming);
    assert!(is_sleep(s.step(ConsumerEvent::StreamClosed), 5));
    assert_eq!(s.phase, Phase::Backoff);
    assert!(matches!(s.step(ConsumerEvent::DelayElapsed), SupervisorAction::StartConsumer));
    assert_eq!(s.phase, Phase::Starting);
}

#[test]
fn events_out_of_place_repeat_the_pending_action() {
    let mut s = Supervisor::unbounded();
    assert!(matches!(s.step(ConsumerEvent::StreamClosed), SupervisorAction::StartConsumer));
    assert_eq!(s.phase, Phase::Starting);
    assert_eq!(s.start_failures, 0);
}

#[test]
fn consumer_id_is_lowercase_hex_of_operator() {
    let mut op = [0xABu8; 32];
    op[0] = 0x01;
    op[1] = 0x2f;
    let c = consumer_config(vec![1, 2], &op);
    assert_eq!(c.rollup_ids, vec![1, 2]);
    let mut expected = String::from("012f");
    for _ in 0..30 {
        expected.push_str("ab");
    }
    assert_eq!(c.id, expected);
}
