use lan_relay::game::PlayerInfo;
use lan_relay::mute::MutePolicy;
use lan_relay::packet::ChatMessage;

fn player(slot: u8, idx: usize, pid: i32, name: &str) -> PlayerInfo {
    PlayerInfo { slot_player_id: slot, slot_index: idx, player_id: pid, name: String::from(name) }
}

#[test]
fn own_slot_is_never_muted() {
    let mut m = MutePolicy::new(1);
    m.mute(1);
    assert!(!m.is_muted(1));
    assert!(m.is_empty());
}

#[test]
fn mute_twice_is_identity() {
    let mut m = MutePolicy::new(1);
    m.mute(2);
    let count_once = m.count();
    m.mute(2);
    assert!(m.is_muted(2));
    assert_eq!(m.count(), count_once);
}

#[test]
fn unmute_after_mute_restores_the_previous_state() {
    let mut m = MutePolicy::new(1);
    m.mute(3);
    m.mute(2);
    m.unmute(2);
    assert!(m.is_muted(3));
    assert!(!m.is_muted(2));
    assert_eq!(m.count(), 1);
}

#[test]
fn mute_all_then_unmute_all_is_identity_from_empty() {
    let players = vec![player(1, 0, 100, "A"), player(2, 1, 200, "B"), player(3, 2, 300, "C")];
    let mut m = MutePolicy::new(1);
    m.mute_all_others(&players);
    assert!(m.is_muted(2));
    assert!(m.is_muted(3));
    assert!(!m.is_muted(1));
    m.unmute_all();
    assert!(m.is_empty());
}

#[test]
fn only_scoped_chat_from_muted_senders_is_dropped() {
    let mut m = MutePolicy::new(1);
    m.mute(2);
    let scoped = ChatMessage::Scoped { text: String::from("hi") };
    let broadcast = ChatMessage::Broadcast { text: String::from("hi") };
    assert!(m.should_drop_chat(2, &scoped));
    assert!(!m.should_drop_chat(3, &scoped));
    assert!(!m.should_drop_chat(2, &broadcast));
}
