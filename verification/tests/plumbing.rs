use netsync::debug_queue::{DebugQueue, DEBUG_MESSAGES_PER_TICK, DEBUG_QUEUE_LIMIT};
use netsync::link_config::{i64_to_u32, LinkOption, LinkSimulation};

const OPTIONS: [LinkOption; 12] = [
    LinkOption::FakePingLagSend,
    LinkOption::FakePingLagRecv,
    LinkOption::FakeLossSend,
    LinkOption::FakeLossRecv,
    LinkOption::FakeJitterSend,
    LinkOption::FakeJitterRecv,
    LinkOption::FakeDupSend,
    LinkOption::FakeDupRecv,
    LinkOption::FakeDupMsMax,
    LinkOption::FakeReorderSend,
    LinkOption::FakeReorderRecv,
    LinkOption::FakeReorderMs,
];

#[test]
fn the_queue_hands_out_ten_messages_a_tick_oldest_first() {
    let mut queue = DebugQueue::new();
    assert_eq!(DEBUG_MESSAGES_PER_TICK, 10);
    assert!(queue.drain_tick().is_empty());
    for i in 0..25 {
        queue.push(format!("message {}", i));
    }
    assert_eq!(queue.len(), 25);
    let first = queue.drain_tick();
    assert_eq!(first.len(), 10);
    assert_eq!(first[0], "message 0");
    assert_eq!(first[9], "message 9");
    assert_eq!(queue.len(), 15);
    let second = queue.drain_tick();
    assert_eq!(second[0], "message 10");
    let third = queue.drain_tick();
    assert_eq!(third.len(), 5);
    assert_eq!(third[4], "message 24");
    assert_eq!(queue.len(), 0);
}

#[test]
fn a_full_queue_drops_its_oldest_message() {
    let mut queue = DebugQueue::new();
    assert_eq!(DEBUG_QUEUE_LIMIT, 1000);
    for i in 0..1000 {
        queue.push(format!("message {}", i));
    }
    assert_eq!(queue.len(), 1000);
    queue.push("message 1000".to_string());
    assert_eq!(queue.len(), 1000);
    queue.push("message 1001".to_string());
    assert_eq!(queue.len(), 1000);
    let drained = queue.drain_tick();
    assert_eq!(drained[0], "message 2");
    assert_eq!(queue.len(), 990);
}

#[test]
fn host_integers_reach_the_transport_narrowed_or_as_zero() {
    assert_eq!(i64_to_u32(0), 0);
    assert_eq!(i64_to_u32(250), 250);
    assert_eq!(i64_to_u32(4_294_967_295), 4_294_967_295);
    assert_eq!(i64_to_u32(4_294_967_296), 0);
    assert_eq!(i64_to_u32(-1), 0);
}

#[test]
fn all_knobs_start_at_zero() {
    let settings = LinkSimulation::new();
    for option in OPTIONS {
        assert_eq!(settings.get(option), 0);
    }
}

#[test]
fn a_client_turns_no_knob() {
    let mut settings = LinkSimulation::new();
    for option in OPTIONS {
        assert_eq!(settings.set(false, option, 55), None);
        assert_eq!(settings.get(option), 0);
    }
    assert_eq!(settings, LinkSimulation::new());
}

#[test]
fn a_server_turns_one_knob_at_a_time() {
    let mut settings = LinkSimulation::new();
    for (index, option) in OPTIONS.iter().enumerate() {
        let value = 100 + index as i64;
        assert_eq!(settings.set(true, *option, value), Some(value as u32));
        for (other_index, other) in OPTIONS.iter().enumerate() {
            let expected = if other_index <= index { 100 + other_index as i64 } else { 0 };
            assert_eq!(settings.get(*other), expected);
        }
    }
}

#[test]
fn a_setting_that_does_not_fit_is_kept_but_handed_on_as_zero() {
    let mut settings = LinkSimulation::new();
    assert_eq!(settings.set(true, LinkOption::FakeLossSend, -20), Some(0));
    assert_eq!(settings.get(LinkOption::FakeLossSend), -20);
    assert_eq!(settings.set(true, LinkOption::FakeLossSend, 5_000_000_000), Some(0));
    assert_eq!(settings.get(LinkOption::FakeLossSend), 5_000_000_000);
}
