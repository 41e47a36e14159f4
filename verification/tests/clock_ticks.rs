use lan_relay::clock::ActionTickStream;
use lan_relay::clock::PlayerAction;

fn action(player_id: u8, byte: u8) -> PlayerAction {
    PlayerAction { player_id, data: vec![byte] }
}

#[test]
fn step_is_clamped_on_new() {
    assert_eq!(ActionTickStream::new(5, 0).step(), 15);
    assert_eq!(ActionTickStream::new(500, 0).step(), 250);
    assert_eq!(ActionTickStream::new(50, 0).step(), 50);
}

#[test]
fn step_is_clamped_on_set_step() {
    let mut s = ActionTickStream::new(50, 0);
    s.set_step(1, 0);
    assert_eq!(s.step(), 15);
    s.set_step(9999, 0);
    assert_eq!(s.step(), 250);
    s.set_step(100, 0);
    assert_eq!(s.step(), 100);
}

#[test]
fn cadence_batches_actions_and_reports_the_increment() {
    let mut s = ActionTickStream::new(50, 0);
    s.add_action(action(1, b'a'));
    s.add_action(action(2, b'b'));
    assert!(s.poll_tick(40).is_none());
    s.add_action(action(1, b'c'));
    let tick = s.poll_tick(50).unwrap();
    assert!(tick.time_increment_ms >= 50);
    assert_eq!(tick.time_increment_ms, 50);
    let bytes: Vec<u8> = tick.actions.iter().map(|a| a.data[0]).collect();
    assert_eq!(bytes, vec![b'a', b'b', b'c']);

    s.add_action(action(1, b'd'));
    s.pause(70);
    assert!(s.poll_tick(120).is_none());
    assert!(s.is_paused());
    s.add_action(action(2, b'e'));
    s.resume(150);
    assert!(s.poll_tick(199).is_none());
    let tick2 = s.poll_tick(200).unwrap();
    let bytes2: Vec<u8> = tick2.actions.iter().map(|a| a.data[0]).collect();
    assert_eq!(bytes2, vec![b'd', b'e']);
}

#[test]
fn late_polls_report_overshoot_and_keep_the_cadence() {
    let mut s = ActionTickStream::new(20, 0);
    let tick = s.poll_tick(27).unwrap();
    assert_eq!(tick.time_increment_ms, 27);
    let tick2 = s.poll_tick(40).unwrap();
    assert_eq!(tick2.time_increment_ms, 20);
}

#[test]
fn increment_never_falls_below_the_step() {
    let mut s = ActionTickStream::new(250, 0);
    let tick = s.poll_tick(1_000_000).unwrap();
    assert!(tick.time_increment_ms >= 250);
    assert_eq!(tick.time_increment_ms, u16::MAX);
}

#[test]
fn replace_actions_swaps_the_pending_batch() {
    let mut s = ActionTickStream::new(20, 0);
    s.add_action(action(1, b'x'));
    s.replace_actions(vec![action(2, b'y')]);
    let tick = s.poll_tick(20).unwrap();
    let bytes: Vec<u8> = tick.actions.iter().map(|a| a.data[0]).collect();
    assert_eq!(bytes, vec![b'y']);
}

#[test]
fn no_tick_is_emitted_while_paused() {
    let mut s = ActionTickStream::new(20, 0);
    s.add_action(action(1, b'x'));
    s.pause(5);
    assert!(s.poll_tick(100).is_none());
    assert!(s.poll_tick(10_000).is_none());
    s.resume(10_000);
    assert!(s.poll_tick(10_020).is_some());
}
