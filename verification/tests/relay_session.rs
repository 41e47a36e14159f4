use lan_relay::game::GameEndReason;
use lan_relay::game::GameInfo;
use lan_relay::game::LanGameInfo;
use lan_relay::game::NodeInfo;
use lan_relay::game::PlayerInfo;
use lan_relay::game::Slot;
use lan_relay::game::SlotInfo;
use lan_relay::packet::ChatBody;
use lan_relay::packet::ChatMessage;
use lan_relay::packet::Packet;
use lan_relay::relay::GameHandler;
use lan_relay::relay::GameResult;
use lan_relay::relay::Output;
use lan_relay::relay::RelayEvent;
use lan_relay::relay::RelayExit;
use lan_relay::relay::mute_save_reply;

fn player(slot: u8, idx: usize, pid: i32, name: &str) -> PlayerInfo {
    PlayerInfo { slot_player_id: slot, slot_index: idx, player_id: pid, name: String::from(name) }
}

fn slot(name: Option<&str>, team: i32, race: u32) -> Slot {
    Slot { player_name: name.map(String::from), team, race }
}

/// Players {1:A, 2:B, 3:C}, self = slot 1 on team 0, B and C on team 1.
fn three_player_info() -> LanGameInfo {
    LanGameInfo {
        game: GameInfo {
            game_id: 7,
            name: String::from("Lost Temple"),
            slots: vec![
                slot(Some("A"), 0, 1),
                slot(Some("B"), 1, 2),
                slot(Some("C"), 1, 3),
                slot(None, 0, 0),
            ],
        },
        slot_info: SlotInfo {
            my_slot_player_id: 1,
            my_team: 0,
            player_infos: vec![player(1, 0, 100, "A"), player(2, 1, 200, "B"), player(3, 2, 300, "C")],
        },
    }
}

/// Players {1:self, 2:B}: a 1v1.
fn duel_info() -> LanGameInfo {
    LanGameInfo {
        game: GameInfo {
            game_id: 8,
            name: String::from("Twisted Meadows"),
            slots: vec![slot(Some("A"), 0, 1), slot(Some("B"), 1, 4)],
        },
        slot_info: SlotInfo {
            my_slot_player_id: 1,
            my_team: 0,
            player_infos: vec![player(1, 0, 100, "A"), player(2, 1, 200, "B")],
        },
    }
}

fn node() -> NodeInfo {
    NodeInfo {
        id: 9,
        name: String::from("EU"),
        location: String::from("Amsterdam"),
        country_id: String::from("NL"),
    }
}

fn scoped_to_host(from: u8, text: &str) -> Packet {
    Packet::ChatToHost {
        body: ChatBody {
            from_player: from,
            to_players: vec![],
            message: ChatMessage::Scoped { text: String::from(text) },
        },
    }
}

fn scoped_from_host(from: u8, text: &str) -> Packet {
    Packet::ChatFromHost {
        body: ChatBody {
            from_player: from,
            to_players: vec![],
            message: ChatMessage::Scoped { text: String::from(text) },
        },
    }
}

/// The text of a synthesised private-to-self chat output.
fn self_chat_text(out: &Output) -> &str {
    match out {
        Output::ToSelfQueue { pkt: Packet::ChatFromHost { body } } => match &body.message {
            ChatMessage::Scoped { text } => text.as_str(),
            _ => panic!("synthesised chat is not scoped"),
        },
        _ => panic!("not a synthesised self chat"),
    }
}

fn self_chat_texts(outs: &[Output]) -> Vec<&str> {
    outs.iter().map(self_chat_text).collect()
}

fn send_command(h: &mut GameHandler, text: &str) -> Vec<Output> {
    h.handle_game_packet(scoped_to_host(h.info.slot_info.my_slot_player_id, text))
}

#[test]
fn auto_mute_announcement() {
    let mut h = GameHandler::new(three_player_info(), node());
    let outs = h.start(&vec![200]);
    assert_eq!(outs.len(), 1);
    assert_eq!(self_chat_text(&outs[0]), "Auto muted: B");
    match &outs[0] {
        Output::ToSelfQueue { pkt: Packet::ChatFromHost { body } } => {
            assert_eq!(body.from_player, 1);
            assert_eq!(body.to_players, vec![1]);
        },
        _ => panic!("expected a self chat"),
    }
    assert!(h.mute.is_muted(2));
    assert!(!h.mute.is_muted(1));
    assert!(!h.mute.is_muted(3));
}

#[test]
fn start_with_empty_list_announces_nothing() {
    let mut h = GameHandler::new(three_player_info(), node());
    let outs = h.start(&vec![]);
    assert!(outs.is_empty());
    assert!(h.mute.is_empty());
}

#[test]
fn mute_by_id_mutes_and_confirms() {
    let mut h = GameHandler::new(three_player_info(), node());
    let outs = send_command(&mut h, "-mute 2");
    assert!(h.mute.is_muted(2));
    assert_eq!(h.mute.count(), 1);
    assert_eq!(self_chat_texts(&outs), vec!["Muted: B"]);
    assert!(!outs.iter().any(|o| matches!(o, Output::ToNode { .. })));
}

#[test]
fn filtered_scoped_chat_from_muted_peer() {
    let mut h = GameHandler::new(three_player_info(), node());
    send_command(&mut h, "-mute 2");
    let outs = h.handle_incoming_w3gs(scoped_from_host(2, "hi"));
    assert!(outs.is_empty());
    let outs2 = h.handle_incoming_w3gs(scoped_from_host(3, "hi"));
    assert_eq!(outs2.len(), 1);
    assert!(matches!(&outs2[0], Output::ToClient { .. }));
}

#[test]
fn leave_request_is_forwarded_acked_and_recorded() {
    let mut h = GameHandler::new(three_player_info(), node());
    let outs = h.handle_game_packet(Packet::LeaveReq { reason: 7 });
    assert_eq!(outs.len(), 2);
    assert!(matches!(&outs[0], Output::ToNode { pkt: Packet::LeaveReq { reason: 7 } }));
    assert!(matches!(&outs[1], Output::ToClient { pkt: Packet::LeaveAck }));
    assert_eq!(h.end_reason(), Some(GameEndReason::LeaveReq { reason: 7 }));
    let (outs2, exit) = h.handle_event(RelayEvent::ClientPacket { pkt: Packet::LeaveAck });
    assert_eq!(outs2.len(), 1);
    assert!(matches!(&outs2[0], Output::ToClient { pkt: Packet::LeaveAck }));
    assert_eq!(exit, Some(RelayExit::Finished { result: GameResult::Leave }));
}

#[test]
fn stats_in_a_duel_requests_the_opponent_solo() {
    let mut h = GameHandler::new(duel_info(), node());
    let outs = send_command(&mut h, "-stats");
    assert_eq!(outs.len(), 1);
    match &outs[0] {
        Output::StatsRequest { name, race, solo } => {
            assert_eq!(name.as_str(), "B");
            assert_eq!(*race, 4);
            assert!(*solo);
        },
        _ => panic!("expected a stats request"),
    }
}

#[test]
fn stats_by_name_prefix_folds_case() {
    let mut h = GameHandler::new(duel_info(), node());
    let outs = send_command(&mut h, "-stats b");
    assert_eq!(outs.len(), 1);
    match &outs[0] {
        Output::StatsRequest { name, solo, .. } => {
            assert_eq!(name.as_str(), "B");
            assert!(*solo);
        },
        _ => panic!("expected a stats request"),
    }
}

#[test]
fn stats_with_unknown_id_lists_the_players() {
    let mut h = GameHandler::new(three_player_info(), node());
    let outs = send_command(&mut h, "-stats 9");
    assert_eq!(
        self_chat_texts(&outs),
        vec!["Type `-stats <ID>` to get stats for:", " ID=1 A", " ID=2 B", " ID=3 C"],
    );
}

#[test]
fn help_text_is_printed_for_flo() {
    let mut h = GameHandler::new(three_player_info(), node());
    let outs = send_command(&mut h, "-flo");
    let texts = self_chat_texts(&outs);
    assert_eq!(texts.len(), 11);
    assert_eq!(texts[0], "-game: print game information.");
    assert_eq!(texts[10], "-stats <ID>: Print player statistics, or display a player list.");
}

#[test]
fn game_command_prints_game_server_and_slots() {
    let mut h = GameHandler::new(three_player_info(), node());
    let outs = send_command(&mut h, "-game");
    assert_eq!(
        self_chat_texts(&outs),
        vec![
            "Game: Lost Temple (#7)",
            "Server: EU, Amsterdam, NL (#9)",
            "Players:",
            "  A: Team 0, 1",
            "  B: Team 1, 2",
            "  C: Team 1, 3",
        ],
    );
}

#[test]
fn muteall_mutes_everyone_else() {
    let mut h = GameHandler::new(three_player_info(), node());
    let outs = send_command(&mut h, "-muteall");
    assert_eq!(self_chat_texts(&outs), vec!["All players muted."]);
    assert!(!h.mute.is_muted(1));
    assert!(h.mute.is_muted(2));
    assert!(h.mute.is_muted(3));
}

#[test]
fn muteopps_mutes_only_the_other_teams() {
    let mut h = GameHandler::new(three_player_info(), node());
    let outs = send_command(&mut h, "-muteopps");
    assert_eq!(self_chat_texts(&outs), vec!["All opponents muted."]);
    assert!(h.mute.is_muted(2));
    assert!(h.mute.is_muted(3));
    assert!(!h.mute.is_muted(1));
}

#[test]
fn unmuteall_clears_the_mute_set() {
    let mut h = GameHandler::new(three_player_info(), node());
    send_command(&mut h, "-muteall");
    let outs = send_command(&mut h, "-unmuteall");
    assert_eq!(self_chat_texts(&outs), vec!["All players un-muted."]);
    assert!(h.mute.is_empty());
}

#[test]
fn bare_mute_lists_candidates_when_several_are_eligible() {
    let mut h = GameHandler::new(three_player_info(), node());
    let outs = send_command(&mut h, "-mute");
    assert_eq!(
        self_chat_texts(&outs),
        vec!["Type `-mute or -mutef <ID>` to mute a player:", " ID=2 B", " ID=3 C"],
    );
}

#[test]
fn bare_mute_mutes_the_single_candidate() {
    let mut h = GameHandler::new(duel_info(), node());
    let outs = send_command(&mut h, "-mute");
    assert_eq!(self_chat_texts(&outs), vec!["Muted: B"]);
    assert!(h.mute.is_muted(2));
}

#[test]
fn bare_mute_with_nobody_left_reports_silence() {
    let mut h = GameHandler::new(duel_info(), node());
    send_command(&mut h, "-mute 2");
    let outs = send_command(&mut h, "-mute");
    assert_eq!(self_chat_texts(&outs), vec!["You have silenced all the players."]);
}

#[test]
fn mutef_requests_persistence_instead_of_confirming() {
    let mut h = GameHandler::new(duel_info(), node());
    let outs = send_command(&mut h, "-mutef 2");
    assert!(h.mute.is_muted(2));
    assert_eq!(outs.len(), 1);
    match &outs[0] {
        Output::MuteSave { player_id, name, muted } => {
            assert_eq!(*player_id, 200);
            assert_eq!(name.as_str(), "B");
            assert!(*muted);
        },
        _ => panic!("expected a mute save"),
    }
}

#[test]
fn mute_save_reply_reports_forever_or_temporary() {
    let pkt = mute_save_reply(1, true, &String::from("B"), true);
    match pkt {
        Packet::ChatFromHost { body } => match body.message {
            ChatMessage::Scoped { text } => assert_eq!(text.as_str(), "Muted forever: B"),
            _ => panic!("not scoped"),
        },
        _ => panic!("not a chat"),
    }
    let pkt2 = mute_save_reply(1, false, &String::from("B"), false);
    match pkt2 {
        Packet::ChatFromHost { body } => match body.message {
            ChatMessage::Scoped { text } => assert_eq!(text.as_str(), "Un-muted temporary: B"),
            _ => panic!("not scoped"),
        },
        _ => panic!("not a chat"),
    }
}

#[test]
fn you_cannot_mute_yourself() {
    let mut h = GameHandler::new(three_player_info(), node());
    let outs = send_command(&mut h, "-mute 1");
    assert_eq!(self_chat_texts(&outs), vec!["You cannot mute yourself."]);
    assert!(h.mute.is_empty());
}

#[test]
fn mute_with_unparsable_argument_reports_syntax() {
    let mut h = GameHandler::new(three_player_info(), node());
    let outs = send_command(&mut h, "-mute bob");
    assert_eq!(self_chat_texts(&outs), vec!["Invalid syntax. Example: -mute 1"]);
}

#[test]
fn mute_with_unknown_id_lists_the_candidates() {
    let mut h = GameHandler::new(three_player_info(), node());
    let outs = send_command(&mut h, "-mute 9");
    assert_eq!(
        self_chat_texts(&outs),
        vec!["Invalid player id. Players:", " ID=2 B", " ID=3 C"],
    );
}

#[test]
fn unmute_by_id_restores_the_peer() {
    let mut h = GameHandler::new(three_player_info(), node());
    send_command(&mut h, "-mute 2");
    let outs = send_command(&mut h, "-unmute 2");
    assert_eq!(self_chat_texts(&outs), vec!["Un-muted: B"]);
    assert!(!h.mute.is_muted(2));
}

#[test]
fn unmute_with_nobody_muted_says_so() {
    let mut h = GameHandler::new(three_player_info(), node());
    let outs = send_command(&mut h, "-unmute");
    assert_eq!(self_chat_texts(&outs), vec!["No player to unmute."]);
}

#[test]
fn unmutef_requests_persistence() {
    let mut h = GameHandler::new(three_player_info(), node());
    send_command(&mut h, "-mute 2");
    let outs = send_command(&mut h, "-unmutef 2");
    assert!(!h.mute.is_muted(2));
    assert_eq!(outs.len(), 1);
    match &outs[0] {
        Output::MuteSave { player_id, name, muted } => {
            assert_eq!(*player_id, 200);
            assert_eq!(name.as_str(), "B");
            assert!(!*muted);
        },
        _ => panic!("expected a mute save"),
    }
}

#[test]
fn unknown_commands_are_forwarded_as_chat() {
    let mut h = GameHandler::new(three_player_info(), node());
    let outs = h.handle_game_packet(scoped_to_host(1, "-gg well played"));
    assert_eq!(outs.len(), 1);
    assert!(matches!(&outs[0], Output::ToNode { .. }));
}

#[test]
fn pongs_are_swallowed_and_actions_forwarded() {
    let mut h = GameHandler::new(three_player_info(), node());
    assert!(h.handle_game_packet(Packet::PongToHost { payload: 3 }).is_empty());
    let outs = h.handle_game_packet(Packet::OutgoingAction { data: vec![1, 2] });
    assert!(matches!(&outs[0], Output::ToNode { pkt: Packet::OutgoingAction { .. } }));
}

#[test]
fn ping_timer_sends_a_ping_to_the_client() {
    let mut h = GameHandler::new(three_player_info(), node());
    let (outs, exit) = h.handle_event(RelayEvent::PingTick);
    assert!(exit.is_none());
    assert_eq!(outs.len(), 1);
    assert!(matches!(&outs[0], Output::ToClient { pkt: Packet::PingFromHost { payload: 0 } }));
}

#[test]
fn closed_channels_cancel_and_closed_client_disconnects() {
    let mut h = GameHandler::new(three_player_info(), node());
    let (_, exit) = h.handle_event(RelayEvent::NodeStatusClosed);
    assert_eq!(exit, Some(RelayExit::Cancelled));
    let (_, exit2) = h.handle_event(RelayEvent::QueueClosed);
    assert_eq!(exit2, Some(RelayExit::Cancelled));
    let (_, exit3) = h.handle_event(RelayEvent::ClientClosed);
    assert_eq!(exit3, Some(RelayExit::Finished { result: GameResult::Disconnected }));
}

#[test]
fn run_replays_deferred_packets_before_live_events() {
    let mut h = GameHandler::new(three_player_info(), node());
    let deferred_in = vec![Packet::OutgoingAction { data: vec![9] }];
    let deferred_out = vec![scoped_from_host(3, "lobby chat")];
    let events = vec![RelayEvent::PingTick, RelayEvent::ClientClosed, RelayEvent::PingTick];
    let (outs, exit) = h.run(vec![200], deferred_in, deferred_out, events);
    assert_eq!(exit, Some(RelayExit::Finished { result: GameResult::Disconnected }));
    assert_eq!(outs.len(), 4);
    assert_eq!(self_chat_text(&outs[0]), "Auto muted: B");
    assert!(matches!(&outs[1], Output::ToNode { pkt: Packet::OutgoingAction { .. } }));
    assert!(matches!(&outs[2], Output::ToClient { pkt: Packet::ChatFromHost { .. } }));
    assert!(matches!(&outs[3], Output::ToClient { pkt: Packet::PingFromHost { .. } }));
}

#[test]
fn deferred_scoped_chat_from_an_auto_muted_peer_is_dropped() {
    let mut h = GameHandler::new(three_player_info(), node());
    let deferred_out = vec![scoped_from_host(2, "pssst")];
    let (outs, exit) = h.run(vec![200], vec![], deferred_out, vec![]);
    assert_eq!(exit, None);
    assert_eq!(outs.len(), 1);
    assert_eq!(self_chat_text(&outs[0]), "Auto muted: B");
}

#[test]
fn deferred_chat_commands_are_intercepted_during_replay() {
    let mut h = GameHandler::new(three_player_info(), node());
    let deferred_in = vec![scoped_to_host(1, "-mute 2")];
    let (outs, exit) = h.run(vec![], deferred_in, vec![], vec![]);
    assert_eq!(exit, None);
    assert_eq!(self_chat_texts(&outs), vec!["Muted: B"]);
    assert!(h.mute.is_muted(2));
}

#[test]
fn a_deferred_leave_exchange_takes_the_fast_path_out() {
    let mut h = GameHandler::new(three_player_info(), node());
    let deferred_in = vec![Packet::LeaveReq { reason: 7 }, Packet::LeaveAck];
    let deferred_out = vec![scoped_from_host(3, "never delivered")];
    let events = vec![RelayEvent::PingTick];
    let (outs, exit) = h.run(vec![], deferred_in, deferred_out, events);
    assert_eq!(exit, Some(RelayExit::Finished { result: GameResult::Leave }));
    assert_eq!(h.end_reason(), Some(GameEndReason::LeaveReq { reason: 7 }));
    assert_eq!(outs.len(), 3);
    assert!(matches!(&outs[0], Output::ToNode { pkt: Packet::LeaveReq { reason: 7 } }));
    assert!(matches!(&outs[1], Output::ToClient { pkt: Packet::LeaveAck }));
    assert!(matches!(&outs[2], Output::ToClient { pkt: Packet::LeaveAck }));
}

#[test]
fn validity_check_accepts_and_rejects() {
    assert!(three_player_info().is_well_formed());
    assert!(duel_info().is_well_formed());
    let mut dup = three_player_info();
    dup.slot_info.player_infos[2].slot_player_id = 2;
    assert!(!dup.is_well_formed());
    let mut out_of_range = three_player_info();
    out_of_range.slot_info.my_slot_player_id = 0;
    assert!(!out_of_range.is_well_formed());
    let mut bad_index = three_player_info();
    bad_index.slot_info.player_infos[0].slot_index = 99;
    assert!(!bad_index.is_well_formed());
}
