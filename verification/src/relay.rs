//! The in-game relay: one task owns the session state and folds events from
//! its four sources — the client stream, the node stream, the node-status
//! watch and the ping timer — into actions for the surrounding loop to
//! perform. Chat commands are intercepted here, muted peers' scoped chat is
//! dropped, and packets deferred during the lobby hand-off are replayed
//! before any live event.

use crate::chat::ChatCommand;
use crate::chat::parse_chat_command;
use crate::chat::parse_spec;
use crate::game::GameEndReason;
use crate::game::LanGameInfo;
use crate::game::LanGameInfoV;
use crate::game::NodeGameStatus;
use crate::game::NodeInfo;
use crate::game::NodeInfoV;
use crate::game::PlayerInfo;
use crate::game::PlayerInfoV;
use crate::game::Slot;
use crate::game::SlotV;
use crate::mute::MutePolicy;
use crate::mute::mute_all_spec;
use crate::mute::mute_opps_spec;
use crate::mute::mute_spec;
use crate::mute::remove_val;
use crate::mute::should_drop_spec;
use crate::packet::ChatMessage;
use crate::packet::ChatMessageV;
use crate::packet::Packet;
use crate::packet::PacketV;
use crate::packet::private_to_self;
use crate::packet::private_to_self_spec;
use crate::text::dec_digits;
use crate::text::dec_int;
use crate::text::i32_dec;
use crate::text::is_prefix;
use crate::text::is_wspace;
use crate::text::lemma_trim_end;
use crate::text::join_comma;
use crate::text::join_comma_strs;
use crate::text::lower_of;
use crate::text::lowercase;
use crate::text::parse_u8_spec;
use crate::text::parse_u8_str;
use crate::text::str_eq;
use crate::text::str_starts_with;
use crate::text::trim_end_spec;
use crate::text::trim_end_str;
use crate::text::u8_dec;
use crate::text::u32_dec;
use crate::text::chars_from;
use vstd::prelude::*;
use vstd::string::StringExecFns;

verus! {

/// How the in-game session ended.
#[derive(Clone, Copy, PartialEq, Eq, Structural, Debug)]
pub enum GameResult {
    Disconnected,
    Leave,
}

/// A terminal outcome of the relay: a regular result, or the cancellation
/// surfaced when the status watch or the synthesised-chat queue is gone.
#[derive(Clone, Copy, PartialEq, Eq, Structural, Debug)]
pub enum RelayExit {
    Finished { result: GameResult },
    Cancelled,
}

/// One occurrence from the relay's event sources.
pub enum RelayEvent {
    PingTick,
    ClientPacket { pkt: Packet },
    ClientClosed,
    NodeStatus { status: Option<NodeGameStatus> },
    NodeStatusClosed,
    QueuedPacket { pkt: Packet },
    QueueClosed,
}

#[verifier::ext_equal]
pub enum RelayEventV {
    PingTick,
    ClientPacket { pkt: PacketV },
    ClientClosed,
    NodeStatus { status: Option<NodeGameStatus> },
    NodeStatusClosed,
    QueuedPacket { pkt: PacketV },
    QueueClosed,
}

impl View for RelayEvent {
    type V = RelayEventV;

    open spec fn view(&self) -> RelayEventV {
        match self {
            RelayEvent::PingTick => RelayEventV::PingTick,
            RelayEvent::ClientPacket { pkt } => RelayEventV::ClientPacket { pkt: pkt@ },
            RelayEvent::ClientClosed => RelayEventV::ClientClosed,
            RelayEvent::NodeStatus { status } => RelayEventV::NodeStatus { status: *status },
            RelayEvent::NodeStatusClosed => RelayEventV::NodeStatusClosed,
            RelayEvent::QueuedPacket { pkt } => RelayEventV::QueuedPacket { pkt: pkt@ },
            RelayEvent::QueueClosed => RelayEventV::QueueClosed,
        }
    }
}

impl DeepView for RelayEvent {
    type V = RelayEventV;

    open spec fn deep_view(&self) -> RelayEventV {
        self@
    }
}

/// An action the surrounding loop performs on the relay's behalf: a send on
/// one of the streams, a synthesised chat placed on the relay's own inbound
/// queue, a statistics lookup, or a mute persisted through the controller.
pub enum Output {
    ToClient { pkt: Packet },
    ToNode { pkt: Packet },
    ToSelfQueue { pkt: Packet },
    StatsRequest { name: String, race: u32, solo: bool },
    MuteSave { player_id: i32, name: String, muted: bool },
}

#[verifier::ext_equal]
pub enum OutputV {
    ToClient { pkt: PacketV },
    ToNode { pkt: PacketV },
    ToSelfQueue { pkt: PacketV },
    StatsRequest { name: Seq<char>, race: u32, solo: bool },
    MuteSave { player_id: i32, name: Seq<char>, muted: bool },
}

impl View for Output {
    type V = OutputV;

    open spec fn view(&self) -> OutputV {
        match self {
            Output::ToClient { pkt } => OutputV::ToClient { pkt: pkt@ },
            Output::ToNode { pkt } => OutputV::ToNode { pkt: pkt@ },
            Output::ToSelfQueue { pkt } => OutputV::ToSelfQueue { pkt: pkt@ },
            Output::StatsRequest { name, race, solo } => OutputV::StatsRequest {
                name: name@,
                race: *race,
                solo: *solo,
            },
            Output::MuteSave { player_id, name, muted } => OutputV::MuteSave {
                player_id: *player_id,
                name: name@,
                muted: *muted,
            },
        }
    }
}

impl DeepView for Output {
    type V = OutputV;

    open spec fn deep_view(&self) -> OutputV {
        self@
    }
}

/// A scoped `ChatFromHost` whose sender is muted is dropped; every other
/// packet from the node reaches the client unchanged.
pub open spec fn incoming_pass(muted: Seq<u8>, pkt: PacketV) -> bool {
    match pkt {
        PacketV::ChatFromHost { body } => !should_drop_spec(muted, body.from_player, body.message),
        _ => true,
    }
}

pub open spec fn incoming_outputs(muted: Seq<u8>, pkt: PacketV) -> Seq<OutputV> {
    if incoming_pass(muted, pkt) {
        seq![OutputV::ToClient { pkt }]
    } else {
        Seq::empty()
    }
}

/// The synthesised private-to-self chat lines for a list of reply texts.
pub open spec fn chats_to_self(me: u8, msgs: Seq<Seq<char>>) -> Seq<OutputV> {
    msgs.map_values(|m: Seq<char>| OutputV::ToSelfQueue { pkt: private_to_self_spec(me, m) })
}

fn push_chat(outputs: &mut Vec<Output>, me: u8, msg: String)
    ensures
        final (outputs).deep_view() == old(outputs).deep_view() + seq![
            OutputV::ToSelfQueue { pkt: private_to_self_spec(me, msg@) },
        ],
{
    let ghost text = msg@;
    outputs.push(Output::ToSelfQueue { pkt: private_to_self(me, msg) });
    proof {
        assert(outputs.deep_view() =~= old(outputs).deep_view() + seq![
            OutputV::ToSelfQueue { pkt: private_to_self_spec(me, text) },
        ]);
    }
}

fn push_chats(outputs: &mut Vec<Output>, me: u8, msgs: Vec<String>)
    ensures
        final (outputs).deep_view() == old(outputs).deep_view() + chats_to_self(
            me,
            msgs.deep_view(),
        ),
{
    let ghost dv = msgs.deep_view();
    let ghost base = old(outputs).deep_view();
    proof {
        assert(base + chats_to_self(me, dv.take(0)) =~= base);
    }
    let mut i: usize = 0;
    while i < msgs.len()
        invariant
            i <= msgs.len(),
            dv == msgs.deep_view(),
            dv.len() == msgs.len(),
            forall|k: int| 0 <= k < msgs.len() ==> dv[k] == msgs@[k]@,
            base == old(outputs).deep_view(),
            outputs.deep_view() == base + chats_to_self(me, dv.take(i as int)),
        decreases msgs.len() - i,
    {
        let m = msgs[i].clone();
        push_chat(outputs, me, m);
        proof {
            assert(outputs.deep_view() =~= base + chats_to_self(me, dv.take(i + 1)));
        }
        i = i + 1;
    }
    proof {
        assert(dv.take(msgs.len() as int) =~= dv);
    }
}

/// The help text printed for `-flo`.
pub open spec fn help_msgs() -> Seq<Seq<char>> {
    seq![
        "-game: print game information."@,
        "-muteall: Mute all players."@,
        "-muteopps: Mute all opponents."@,
        "-unmuteall: Unmute all players."@,
        "-mute/mutef: Mute your opponent (1v1), or display a player list."@,
        "-mute/mutef <ID>: Mute a player."@,
        "-unmute/unmutef: Unmute your opponent (1v1), or display a player list."@,
        "-unmute/unmutef <ID>: Unmute a player."@,
        "-rtt: Print round-trip time information."@,
        "-stats: Print opponent/opponents statistics."@,
        "-stats <ID>: Print player statistics, or display a player list."@,
    ]
}

fn build_help_msgs() -> (r: Vec<String>)
    ensures
        r.deep_view() == help_msgs(),
{
    let mut r: Vec<String> = Vec::new();
    r.push(String::from_str("-game: print game information."));
    r.push(String::from_str("-muteall: Mute all players."));
    r.push(String::from_str("-muteopps: Mute all opponents."));
    r.push(String::from_str("-unmuteall: Unmute all players."));
    r.push(String::from_str("-mute/mutef: Mute your opponent (1v1), or display a player list."));
    r.push(String::from_str("-mute/mutef <ID>: Mute a player."));
    r.push(
        String::from_str("-unmute/unmutef: Unmute your opponent (1v1), or display a player list."),
    );
    r.push(String::from_str("-unmute/unmutef <ID>: Unmute a player."));
    r.push(String::from_str("-rtt: Print round-trip time information."));
    r.push(String::from_str("-stats: Print opponent/opponents statistics."));
    r.push(String::from_str("-stats <ID>: Print player statistics, or display a player list."));
    proof {
        assert(r.deep_view() =~= help_msgs());
    }
    r
}

/// One `"  <name>: Team <team>, <race>"` line for each occupied slot.
pub open spec fn slot_lines(slots: Seq<SlotV>) -> Seq<Seq<char>>
    decreases slots.len(),
{
    if slots.len() == 0 {
        Seq::empty()
    } else {
        slot_lines(slots.drop_last()) + match slots.last().player_name {
            Some(n) => seq![
                "  "@ + n + ": Team "@ + dec_int(slots.last().team as int) + ", "@ + dec_digits(
                    slots.last().race as nat,
                ),
            ],
            None => Seq::empty(),
        }
    }
}

/// The lines printed for `-game`: the game, the server, and the occupied
/// slots.
pub open spec fn game_msgs(info: LanGameInfoV, node: NodeInfoV) -> Seq<Seq<char>> {
    seq![
        "Game: "@ + info.game.name + " (#"@ + dec_int(info.game.game_id as int) + ")"@,
        "Server: "@ + node.name + ", "@ + node.location + ", "@ + node.country_id + " (#"@
            + dec_int(node.id as int) + ")"@,
        "Players:"@,
    ] + slot_lines(info.game.slots)
}

fn build_game_msgs(info: &LanGameInfo, node: &NodeInfo) -> (r: Vec<String>)
    ensures
        r.deep_view() == game_msgs(info@, node@),
{
    let mut r: Vec<String> = Vec::new();
    let mut line1 = String::from_str("Game: ");
    line1.append(info.game.name.as_str());
    line1.append(" (#");
    let id_digits = i32_dec(info.game.game_id);
    line1.append(id_digits.as_str());
    line1.append(")");
    r.push(line1);
    let mut line2 = String::from_str("Server: ");
    line2.append(node.name.as_str());
    line2.append(", ");
    line2.append(node.location.as_str());
    line2.append(", ");
    line2.append(node.country_id.as_str());
    line2.append(" (#");
    let node_digits = i32_dec(node.id);
    line2.append(node_digits.as_str());
    line2.append(")");
    r.push(line2);
    r.push(String::from_str("Players:"));
    let ghost sv = info.game.slots.deep_view();
    let ghost head = r.deep_view();
    proof {
        assert(head + slot_lines(sv.take(0)) =~= head);
    }
    let mut i: usize = 0;
    while i < info.game.slots.len()
        invariant
            i <= info.game.slots.len(),
            sv == info.game.slots.deep_view(),
            sv.len() == info.game.slots.len(),
            forall|k: int| 0 <= k < sv.len() ==> sv[k] == info.game.slots@[k]@,
            head == seq![
                "Game: "@ + info@.game.name + " (#"@ + dec_int(info@.game.game_id as int) + ")"@,
                "Server: "@ + node@.name + ", "@ + node@.location + ", "@ + node@.country_id
                    + " (#"@ + dec_int(node@.id as int) + ")"@,
                "Players:"@,
            ],
            r.deep_view() == head + slot_lines(sv.take(i as int)),
        decreases info.game.slots.len() - i,
    {
        match &info.game.slots[i].player_name {
            Some(name) => {
                let mut line = String::from_str("  ");
                line.append(name.as_str());
                line.append(": Team ");
                let team_digits = i32_dec(info.game.slots[i].team);
                line.append(team_digits.as_str());
                line.append(", ");
                let race_digits = u32_dec(info.game.slots[i].race);
                line.append(race_digits.as_str());
                let ghost lv = line@;
                let ghost before = r.deep_view();
                r.push(line);
                proof {
                    assert(sv.take(i + 1).drop_last() =~= sv.take(i as int));
                    assert(sv.take(i + 1).last() == sv[i as int]);
                    assert(sv[i as int].player_name == Some(name@));
                    assert(lv == "  "@ + name@ + ": Team "@ + dec_int(sv[i as int].team as int)
                        + ", "@ + dec_digits(sv[i as int].race as nat));
                    assert(slot_lines(sv.take(i + 1)) =~= slot_lines(sv.take(i as int)) + seq![lv]);
                    assert(r.deep_view() =~= before.push(lv));
                    assert(r.deep_view() =~= head + slot_lines(sv.take(i + 1)));
                }
            },
            None => {
                proof {
                    assert(sv.take(i + 1).drop_last() =~= sv.take(i as int));
                    assert(sv.take(i + 1).last() == sv[i as int]);
                    assert(sv[i as int].player_name is None);
                    assert(slot_lines(sv.take(i + 1)) =~= slot_lines(sv.take(i as int)));
                    assert(r.deep_view() == head + slot_lines(sv.take(i + 1)));
                }
            },
        }
        i = i + 1;
    }
    proof {
        assert(sv.take(sv.len() as int) =~= sv);
        assert(r.deep_view() =~= game_msgs(info@, node@));
    }
    r
}

/// One `" ID=<slot> <name>"` line per listed player.
pub open spec fn id_lines(targets: Seq<PlayerInfoV>) -> Seq<Seq<char>>
    decreases targets.len(),
{
    if targets.len() == 0 {
        Seq::empty()
    } else {
        id_lines(targets.drop_last()) + seq![
            " ID="@ + dec_digits(targets.last().slot_player_id as nat) + " "@
                + targets.last().name,
        ]
    }
}

/// A header line followed by one id line per listed player.
pub open spec fn player_list_msgs(header: Seq<char>, targets: Seq<PlayerInfoV>) -> Seq<Seq<char>> {
    seq![header] + id_lines(targets)
}

fn build_player_list(header: String, targets: &Vec<PlayerInfo>) -> (r: Vec<String>)
    ensures
        r.deep_view() == player_list_msgs(header@, targets.deep_view()),
{
    let ghost hv = header@;
    let ghost dv = targets.deep_view();
    let mut r: Vec<String> = Vec::new();
    r.push(header);
    let ghost head = r.deep_view();
    proof {
        assert(head =~= seq![hv]);
        assert(head + id_lines(dv.take(0)) =~= head);
    }
    let mut i: usize = 0;
    while i < targets.len()
        invariant
            i <= targets.len(),
            dv == targets.deep_view(),
            dv.len() == targets.len(),
            forall|k: int| 0 <= k < dv.len() ==> dv[k] == targets@[k]@,
            head == seq![hv],
            r.deep_view() == head + id_lines(dv.take(i as int)),
        decreases targets.len() - i,
    {
        let mut line = String::from_str(" ID=");
        let digits = u8_dec(targets[i].slot_player_id);
        line.append(digits.as_str());
        line.append(" ");
        line.append(targets[i].name.as_str());
        let ghost lv = line@;
        let ghost before = r.deep_view();
        r.push(line);
        proof {
            assert(dv.take(i + 1).drop_last() =~= dv.take(i as int));
            assert(dv.take(i + 1).last() == dv[i as int]);
            assert(lv == " ID="@ + dec_digits(dv[i as int].slot_player_id as nat) + " "@
                + dv[i as int].name);
            assert(id_lines(dv.take(i + 1)) == id_lines(dv.take(i as int)) + seq![lv]);
            assert(r.deep_view() =~= before.push(lv));
            assert(r.deep_view() =~= head + id_lines(dv.take(i + 1)));
        }
        i = i + 1;
    }
    proof {
        assert(dv.take(dv.len() as int) =~= dv);
        assert(r.deep_view() =~= player_list_msgs(hv, dv));
    }
    r
}

fn clone_player(p: &PlayerInfo) -> (r: PlayerInfo)
    ensures
        r@ == p@,
{
    PlayerInfo {
        slot_player_id: p.slot_player_id,
        slot_index: p.slot_index,
        player_id: p.player_id,
        name: p.name.clone(),
    }
}

/// The players eligible for a bare `-mute`: everyone but us who is not
/// already muted, in player order.
pub open spec fn mute_targets(players: Seq<PlayerInfoV>, muted: Seq<u8>, me: u8) -> Seq<
    PlayerInfoV,
>
    decreases players.len(),
{
    if players.len() == 0 {
        Seq::empty()
    } else {
        let prev = mute_targets(players.drop_last(), muted, me);
        if players.last().slot_player_id != me && !muted.contains(players.last().slot_player_id) {
            prev + seq![players.last()]
        } else {
            prev
        }
    }
}

fn compute_mute_targets(players: &Vec<PlayerInfo>, mute: &MutePolicy) -> (r: Vec<PlayerInfo>)
    ensures
        r.deep_view() == mute_targets(players.deep_view(), mute@, mute.me()),
{
    let ghost dv = players.deep_view();
    let mut r: Vec<PlayerInfo> = Vec::new();
    proof {
        assert(r.deep_view() =~= mute_targets(dv.take(0), mute@, mute.me()));
    }
    let mut i: usize = 0;
    while i < players.len()
        invariant
            i <= players.len(),
            dv == players.deep_view(),
            dv.len() == players.len(),
            forall|k: int| 0 <= k < dv.len() ==> dv[k] == players@[k]@,
            r.deep_view() == mute_targets(dv.take(i as int), mute@, mute.me()),
        decreases players.len() - i,
    {
        let slot = players[i].slot_player_id;
        if slot != mute.my_slot() && !mute.is_muted(slot) {
            let p = clone_player(&players[i]);
            r.push(p);
        }
        proof {
            assert(dv.take(i + 1).drop_last() =~= dv.take(i as int));
            assert(dv.take(i + 1).last() == dv[i as int]);
            assert(r.deep_view() =~= mute_targets(dv.take(i + 1), mute@, mute.me()));
        }
        i = i + 1;
    }
    proof {
        assert(dv.take(dv.len() as int) =~= dv);
    }
    r
}

/// The first listed player holding a slot id, if any.
pub open spec fn find_player(players: Seq<PlayerInfoV>, slot: u8) -> Option<PlayerInfoV>
    decreases players.len(),
{
    if players.len() == 0 {
        None
    } else if players[0].slot_player_id == slot {
        Some(players[0])
    } else {
        find_player(players.drop_first(), slot)
    }
}

fn find_player_exec(players: &Vec<PlayerInfo>, slot: u8) -> (r: Option<usize>)
    ensures
        match r {
            Some(i) => i < players.len() && find_player(players.deep_view(), slot) == Some(
                players.deep_view()[i as int],
            ),
            None => find_player(players.deep_view(), slot) is None,
        },
{
    let ghost dv = players.deep_view();
    let mut i: usize = 0;
    proof {
        assert(dv.skip(0) =~= dv);
    }
    while i < players.len()
        invariant
            i <= players.len(),
            dv == players.deep_view(),
            dv.len() == players.len(),
            forall|k: int| 0 <= k < dv.len() ==> dv[k] == players@[k]@,
            find_player(dv, slot) == find_player(dv.skip(i as int), slot),
        decreases players.len() - i,
    {
        if players[i].slot_player_id == slot {
            proof {
                assert(dv.skip(i as int)[0] == dv[i as int]);
            }
            return Some(i);
        }
        proof {
            assert(dv.skip(i as int)[0] == dv[i as int]);
            assert(dv.skip(i as int).drop_first() =~= dv.skip(i + 1));
        }
        i = i + 1;
    }
    proof {
        assert(dv.skip(players.len() as int) =~= Seq::<PlayerInfoV>::empty());
    }
    None
}

/// The players a bare `-unmute` offers: the muted slots in mute order,
/// resolved to the players still present.
pub open spec fn unmute_targets(muted: Seq<u8>, players: Seq<PlayerInfoV>, me: u8) -> Seq<
    PlayerInfoV,
>
    decreases muted.len(),
{
    if muted.len() == 0 {
        Seq::empty()
    } else {
        let prev = unmute_targets(muted.drop_last(), players, me);
        if muted.last() != me {
            match find_player(players, muted.last()) {
                Some(p) => prev + seq![p],
                None => prev,
            }
        } else {
            prev
        }
    }
}

fn compute_unmute_targets(mute: &MutePolicy, players: &Vec<PlayerInfo>) -> (r: Vec<PlayerInfo>)
    ensures
        r.deep_view() == unmute_targets(mute@, players.deep_view(), mute.me()),
{
    let ghost mv = mute@;
    let ghost dv = players.deep_view();
    let listed = mute.listed();
    let mut r: Vec<PlayerInfo> = Vec::new();
    proof {
        assert(r.deep_view() =~= unmute_targets(mv.take(0), dv, mute.me()));
    }
    let mut i: usize = 0;
    while i < listed.len()
        invariant
            i <= listed.len(),
            mv == mute@,
            listed@ == mv,
            dv == players.deep_view(),
            r.deep_view() == unmute_targets(mv.take(i as int), dv, mute.me()),
        decreases listed.len() - i,
    {
        let id = listed[i];
        if id != mute.my_slot() {
            match find_player_exec(players, id) {
                Some(j) => {
                    let p = clone_player(&players[j]);
                    proof {
                        assert(p@ == dv[j as int]);
                    }
                    r.push(p);
                },
                None => {},
            }
        }
        proof {
            assert(mv.take(i + 1).drop_last() =~= mv.take(i as int));
            assert(mv.take(i + 1).last() == mv[i as int]);
            assert(r.deep_view() =~= unmute_targets(mv.take(i + 1), dv, mute.me()));
        }
        i = i + 1;
    }
    proof {
        assert(mv.take(mv.len() as int) =~= mv);
    }
    r
}

/// Our opponents: every listed player on a team other than ours, excluding
/// ourselves.
pub open spec fn stats_opponents(
    players: Seq<PlayerInfoV>,
    slots: Seq<SlotV>,
    me: u8,
    my_team: i32,
) -> Seq<PlayerInfoV>
    decreases players.len(),
{
    if players.len() == 0 {
        Seq::empty()
    } else {
        let prev = stats_opponents(players.drop_last(), slots, me, my_team);
        if players.last().slot_player_id != me && slots[players.last().slot_index as int].team
            != my_team {
            prev + seq![players.last()]
        } else {
            prev
        }
    }
}

fn compute_stats_opponents(players: &Vec<PlayerInfo>, slots: &Vec<Slot>, me: u8, my_team: i32) -> (
    r: Vec<PlayerInfo>)
    requires
        forall|k: int|
            0 <= k < players.deep_view().len() ==> (#[trigger] players.deep_view()[k]).slot_index
                < slots.deep_view().len(),
    ensures
        r.deep_view() == stats_opponents(players.deep_view(), slots.deep_view(), me, my_team),
{
    let ghost dv = players.deep_view();
    let ghost sv = slots.deep_view();
    let mut r: Vec<PlayerInfo> = Vec::new();
    proof {
        assert(r.deep_view() =~= stats_opponents(dv.take(0), sv, me, my_team));
    }
    let mut i: usize = 0;
    while i < players.len()
        invariant
            i <= players.len(),
            dv == players.deep_view(),
            sv == slots.deep_view(),
            dv.len() == players.len(),
            sv.len() == slots.len(),
            forall|k: int| 0 <= k < dv.len() ==> dv[k] == players@[k]@,
            forall|k: int| 0 <= k < sv.len() ==> sv[k] == slots@[k]@,
            forall|k: int| 0 <= k < dv.len() ==> (#[trigger] dv[k]).slot_index < sv.len(),
            r.deep_view() == stats_opponents(dv.take(i as int), sv, me, my_team),
        decreases players.len() - i,
    {
        proof {
            assert(dv[i as int] == players@[i as int]@);
            assert(dv[i as int].slot_index < sv.len());
        }
        let idx = players[i].slot_index;
        if players[i].slot_player_id != me && slots[idx].team != my_team {
            let p = clone_player(&players[i]);
            r.push(p);
        }
        proof {
            assert(dv.take(i + 1).drop_last() =~= dv.take(i as int));
            assert(dv.take(i + 1).last() == dv[i as int]);
            assert(r.deep_view() =~= stats_opponents(dv.take(i + 1), sv, me, my_team));
        }
        i = i + 1;
    }
    proof {
        assert(dv.take(dv.len() as int) =~= dv);
    }
    r
}

/// Every listed player holding the given slot id.
pub open spec fn players_with_slot(players: Seq<PlayerInfoV>, id: u8) -> Seq<PlayerInfoV>
    decreases players.len(),
{
    if players.len() == 0 {
        Seq::empty()
    } else {
        let prev = players_with_slot(players.drop_last(), id);
        if players.last().slot_player_id == id {
            prev + seq![players.last()]
        } else {
            prev
        }
    }
}

fn compute_players_with_slot(players: &Vec<PlayerInfo>, id: u8) -> (r: Vec<PlayerInfo>)
    ensures
        r.deep_view() == players_with_slot(players.deep_view(), id),
{
    let ghost dv = players.deep_view();
    let mut r: Vec<PlayerInfo> = Vec::new();
    proof {
        assert(r.deep_view() =~= players_with_slot(dv.take(0), id));
    }
    let mut i: usize = 0;
    while i < players.len()
        invariant
            i <= players.len(),
            dv == players.deep_view(),
            dv.len() == players.len(),
            forall|k: int| 0 <= k < dv.len() ==> dv[k] == players@[k]@,
            r.deep_view() == players_with_slot(dv.take(i as int), id),
        decreases players.len() - i,
    {
        if players[i].slot_player_id == id {
            let p = clone_player(&players[i]);
            r.push(p);
        }
        proof {
            assert(dv.take(i + 1).drop_last() =~= dv.take(i as int));
            assert(dv.take(i + 1).last() == dv[i as int]);
            assert(r.deep_view() =~= players_with_slot(dv.take(i + 1), id));
        }
        i = i + 1;
    }
    proof {
        assert(dv.take(dv.len() as int) =~= dv);
    }
    r
}

/// Every listed player whose lowercased name begins with the lowercased
/// argument.
pub open spec fn players_with_name_prefix(players: Seq<PlayerInfoV>, arg: Seq<char>) -> Seq<
    PlayerInfoV,
>
    decreases players.len(),
{
    if players.len() == 0 {
        Seq::empty()
    } else {
        let prev = players_with_name_prefix(players.drop_last(), arg);
        if is_prefix(lower_of(arg), lower_of(players.last().name)) {
            prev + seq![players.last()]
        } else {
            prev
        }
    }
}

fn compute_players_with_name_prefix(players: &Vec<PlayerInfo>, arg: &String) -> (r: Vec<
    PlayerInfo,
>)
    ensures
        r.deep_view() == players_with_name_prefix(players.deep_view(), arg@),
{
    let ghost dv = players.deep_view();
    let arg_lower = lowercase(arg);
    let mut r: Vec<PlayerInfo> = Vec::new();
    proof {
        assert(r.deep_view() =~= players_with_name_prefix(dv.take(0), arg@));
    }
    let mut i: usize = 0;
    while i < players.len()
        invariant
            i <= players.len(),
            dv == players.deep_view(),
            dv.len() == players.len(),
            arg_lower@ == lower_of(arg@),
            forall|k: int| 0 <= k < dv.len() ==> dv[k] == players@[k]@,
            r.deep_view() == players_with_name_prefix(dv.take(i as int), arg@),
        decreases players.len() - i,
    {
        let name_lower = lowercase(&players[i].name);
        if str_starts_with(name_lower.as_str(), arg_lower.as_str()) {
            let p = clone_player(&players[i]);
            r.push(p);
        }
        proof {
            assert(dv.take(i + 1).drop_last() =~= dv.take(i as int));
            assert(dv.take(i + 1).last() == dv[i as int]);
            assert(r.deep_view() =~= players_with_name_prefix(dv.take(i + 1), arg@));
        }
        i = i + 1;
    }
    proof {
        assert(dv.take(dv.len() as int) =~= dv);
    }
    r
}

/// One statistics lookup per target, in target order, each carrying the
/// target's name and race and whether the game is a 1v1.
pub open spec fn stats_requests(targets: Seq<PlayerInfoV>, slots: Seq<SlotV>, solo: bool) -> Seq<
    OutputV,
>
    decreases targets.len(),
{
    if targets.len() == 0 {
        Seq::empty()
    } else {
        stats_requests(targets.drop_last(), slots, solo) + seq![
            OutputV::StatsRequest {
                name: targets.last().name,
                race: slots[targets.last().slot_index as int].race,
                solo,
            },
        ]
    }
}

fn push_stats_requests(
    outputs: &mut Vec<Output>,
    targets: &Vec<PlayerInfo>,
    slots: &Vec<Slot>,
    solo: bool,
)
    requires
        forall|k: int|
            0 <= k < targets.deep_view().len() ==> (#[trigger] targets.deep_view()[k]).slot_index
                < slots.deep_view().len(),
    ensures
        final (outputs).deep_view() == old(outputs).deep_view() + stats_requests(
            targets.deep_view(),
            slots.deep_view(),
            solo,
        ),
{
    let ghost dv = targets.deep_view();
    let ghost sv = slots.deep_view();
    let ghost base = old(outputs).deep_view();
    proof {
        assert(base + stats_requests(dv.take(0), sv, solo) =~= base);
    }
    let mut i: usize = 0;
    while i < targets.len()
        invariant
            i <= targets.len(),
            dv == targets.deep_view(),
            sv == slots.deep_view(),
            dv.len() == targets.len(),
            sv.len() == slots.len(),
            forall|k: int| 0 <= k < dv.len() ==> dv[k] == targets@[k]@,
            forall|k: int| 0 <= k < sv.len() ==> sv[k] == slots@[k]@,
            forall|k: int| 0 <= k < dv.len() ==> (#[trigger] dv[k]).slot_index < sv.len(),
            base == old(outputs).deep_view(),
            outputs.deep_view() == base + stats_requests(dv.take(i as int), sv, solo),
        decreases targets.len() - i,
    {
        proof {
            assert(dv[i as int] == targets@[i as int]@);
            assert(dv[i as int].slot_index < sv.len());
        }
        let idx = targets[i].slot_index;
        let ghost ov = OutputV::StatsRequest {
            name: dv[i as int].name,
            race: sv[dv[i as int].slot_index as int].race,
            solo,
        };
        let ghost before = outputs.deep_view();
        outputs.push(
            Output::StatsRequest { name: targets[i].name.clone(), race: slots[idx].race, solo },
        );
        proof {
            assert(dv.take(i + 1).drop_last() =~= dv.take(i as int));
            assert(dv.take(i + 1).last() == dv[i as int]);
            assert(stats_requests(dv.take(i + 1), sv, solo) =~= stats_requests(
                dv.take(i as int),
                sv,
                solo,
            ) + seq![ov]);
            assert(outputs.deep_view() =~= before.push(ov));
            assert(outputs.deep_view() =~= base + stats_requests(dv.take(i + 1), sv, solo));
        }
        i = i + 1;
    }
    proof {
        assert(dv.take(dv.len() as int) =~= dv);
    }
}

proof fn lemma_stats_opponents_bounds(
    players: Seq<PlayerInfoV>,
    slots: Seq<SlotV>,
    me: u8,
    my_team: i32,
    n: int,
)
    requires
        forall|i: int| 0 <= i < players.len() ==> (#[trigger] players[i]).slot_index < n,
    ensures
        forall|k: int|
            0 <= k < stats_opponents(players, slots, me, my_team).len() ==> (#[trigger] stats_opponents(
                players,
                slots,
                me,
                my_team,
            )[k]).slot_index < n,
    decreases players.len(),
{
    if players.len() > 0 {
        lemma_stats_opponents_bounds(players.drop_last(), slots, me, my_team, n);
        let prev = stats_opponents(players.drop_last(), slots, me, my_team);
        assert(players[players.len() - 1] == players.last());
        assert forall|k: int|
            0 <= k < prev.len() + 1 implies ((prev + seq![players.last()])[k]).slot_index < n by {
            if k < prev.len() {
                assert((prev + seq![players.last()])[k] == prev[k]);
            } else {
                assert((prev + seq![players.last()])[k] == players.last());
            }
        }
    }
}

proof fn lemma_players_with_slot_bounds(players: Seq<PlayerInfoV>, id: u8, n: int)
    requires
        forall|i: int| 0 <= i < players.len() ==> (#[trigger] players[i]).slot_index < n,
    ensures
        forall|k: int|
            0 <= k < players_with_slot(players, id).len() ==> (#[trigger] players_with_slot(
                players,
                id,
            )[k]).slot_index < n,
    decreases players.len(),
{
    if players.len() > 0 {
        lemma_players_with_slot_bounds(players.drop_last(), id, n);
        let prev = players_with_slot(players.drop_last(), id);
        assert(players[players.len() - 1] == players.last());
        assert forall|k: int|
            0 <= k < prev.len() + 1 implies ((prev + seq![players.last()])[k]).slot_index < n by {
            if k < prev.len() {
                assert((prev + seq![players.last()])[k] == prev[k]);
            } else {
                assert((prev + seq![players.last()])[k] == players.last());
            }
        }
    }
}

proof fn lemma_players_with_name_prefix_bounds(players: Seq<PlayerInfoV>, arg: Seq<char>, n: int)
    requires
        forall|i: int| 0 <= i < players.len() ==> (#[trigger] players[i]).slot_index < n,
    ensures
        forall|k: int|
            0 <= k < players_with_name_prefix(players, arg).len() ==> (
            #[trigger] players_with_name_prefix(players, arg)[k]).slot_index < n,
    decreases players.len(),
{
    if players.len() > 0 {
        lemma_players_with_name_prefix_bounds(players.drop_last(), arg, n);
        let prev = players_with_name_prefix(players.drop_last(), arg);
        assert(players[players.len() - 1] == players.last());
        assert forall|k: int|
            0 <= k < prev.len() + 1 implies ((prev + seq![players.last()])[k]).slot_index < n by {
            if k < prev.len() {
                assert((prev + seq![players.last()])[k] == prev[k]);
            } else {
                assert((prev + seq![players.last()])[k] == players.last());
            }
        }
    }
}

/// What one recognised chat command does: whether it consumed the packet,
/// the mute state it leaves, and the actions it emits.
#[verifier::ext_equal]
pub struct ChatEffectV {
    pub handled: bool,
    pub muted: Seq<u8>,
    pub outputs: Seq<OutputV>,
}

/// The reply to a successful mute: persist it when asked to keep it
/// forever, else confirm it at once.
pub open spec fn mute_reply(me: u8, forever: bool, p: PlayerInfoV) -> Seq<OutputV> {
    if forever {
        seq![OutputV::MuteSave { player_id: p.player_id, name: p.name, muted: true }]
    } else {
        chats_to_self(me, seq!["Muted: "@ + p.name])
    }
}

pub open spec fn unmute_reply(me: u8, forever: bool, p: PlayerInfoV) -> Seq<OutputV> {
    if forever {
        seq![OutputV::MuteSave { player_id: p.player_id, name: p.name, muted: false }]
    } else {
        chats_to_self(me, seq!["Un-muted: "@ + p.name])
    }
}

/// The `-mute` family: with no argument, mute the one eligible player or
/// list them; with an id, mute that player; `mutef` also persists.
pub open spec fn mute_cmd_spec(info: LanGameInfoV, muted: Seq<u8>, raw: Seq<char>) -> ChatEffectV {
    let me = info.slot_info.my_slot_player_id;
    let players = info.slot_info.player_infos;
    let targets = mute_targets(players, muted, me);
    let t = trim_end_spec(raw);
    if t == "mute"@ || t == "mutef"@ {
        let forever = (t == "mutef"@);
        if targets.len() == 0 {
            ChatEffectV {
                handled: true,
                muted,
                outputs: chats_to_self(me, seq!["You have silenced all the players."@]),
            }
        } else if targets.len() == 1 {
            ChatEffectV {
                handled: true,
                muted: mute_spec(muted, me, targets[0].slot_player_id),
                outputs: mute_reply(me, forever, targets[0]),
            }
        } else {
            ChatEffectV {
                handled: true,
                muted,
                outputs: chats_to_self(
                    me,
                    player_list_msgs("Type `-mute or -mutef <ID>` to mute a player:"@, targets),
                ),
            }
        }
    } else {
        let forever = is_prefix("mutef"@, t);
        let arg = t.skip(
            if forever {
                6
            } else {
                5
            },
        );
        match parse_u8_spec(arg) {
            Some(id) => if id == me {
                ChatEffectV {
                    handled: true,
                    muted,
                    outputs: chats_to_self(me, seq!["You cannot mute yourself."@]),
                }
            } else {
                match find_player(players, id) {
                    Some(p) => ChatEffectV {
                        handled: true,
                        muted: mute_spec(muted, me, id),
                        outputs: mute_reply(me, forever, p),
                    },
                    None => ChatEffectV {
                        handled: true,
                        muted,
                        outputs: chats_to_self(
                            me,
                            player_list_msgs("Invalid player id. Players:"@, targets),
                        ),
                    },
                }
            },
            None => ChatEffectV {
                handled: true,
                muted,
                outputs: chats_to_self(me, seq!["Invalid syntax. Example: -mute 1"@]),
            },
        }
    }
}

/// The `-unmute` family, over the players currently muted.
pub open spec fn unmute_cmd_spec(info: LanGameInfoV, muted: Seq<u8>, raw: Seq<char>) -> ChatEffectV {
    let me = info.slot_info.my_slot_player_id;
    let players = info.slot_info.player_infos;
    let targets = unmute_targets(muted, players, me);
    let t = trim_end_spec(raw);
    if t == "unmute"@ || t == "unmutef"@ {
        let forever = (t == "unmutef"@);
        if targets.len() == 0 {
            ChatEffectV {
                handled: true,
                muted,
                outputs: chats_to_self(me, seq!["No player to unmute."@]),
            }
        } else if targets.len() == 1 {
            ChatEffectV {
                handled: true,
                muted: remove_val(muted, targets[0].slot_player_id),
                outputs: unmute_reply(me, forever, targets[0]),
            }
        } else {
            ChatEffectV {
                handled: true,
                muted,
                outputs: chats_to_self(
                    me,
                    player_list_msgs("Type `-unmute <ID>` to unmute a player:"@, targets),
                ),
            }
        }
    } else {
        let forever = is_prefix("unmutef"@, t);
        let arg = t.skip(
            if forever {
                8
            } else {
                7
            },
        );
        match parse_u8_spec(arg) {
            Some(id) => match find_player(targets, id) {
                Some(p) => ChatEffectV {
                    handled: true,
                    muted: remove_val(muted, id),
                    outputs: unmute_reply(me, forever, p),
                },
                None => ChatEffectV {
                    handled: true,
                    muted,
                    outputs: chats_to_self(
                        me,
                        player_list_msgs("Invalid player id. Muted players:"@, targets),
                    ),
                },
            },
            None => ChatEffectV {
                handled: true,
                muted,
                outputs: chats_to_self(me, seq!["Invalid syntax. Example: -unmute 1"@]),
            },
        }
    }
}

/// The `-stats` family: one lookup per resolved target, or the player list
/// when nothing matches the argument.
pub open spec fn stats_cmd_spec(info: LanGameInfoV, raw: Seq<char>) -> Seq<OutputV> {
    let me = info.slot_info.my_slot_player_id;
    let players = info.slot_info.player_infos;
    let slots = info.game.slots;
    let my_team = info.slot_info.my_team;
    let solo = players.len() == 2;
    let t = trim_end_spec(raw);
    if t == "stats"@ {
        let targets = stats_opponents(players, slots, me, my_team);
        if targets.len() > 0 {
            stats_requests(targets, slots, solo)
        } else {
            Seq::empty()
        }
    } else {
        let arg = t.skip(6);
        let targets = match parse_u8_spec(arg) {
            Some(id) => players_with_slot(players, id),
            None => players_with_name_prefix(players, arg),
        };
        if targets.len() > 0 {
            stats_requests(targets, slots, solo)
        } else {
            chats_to_self(me, player_list_msgs("Type `-stats <ID>` to get stats for:"@, players))
        }
    }
}

/// The whole chat-command table, dispatched by exact word first, then by
/// prefix, in a fixed order; anything unrecognised is left unhandled and
/// flows to the node as ordinary chat.
pub open spec fn chat_command_spec(
    info: LanGameInfoV,
    node: NodeInfoV,
    muted: Seq<u8>,
    raw: Seq<char>,
) -> ChatEffectV {
    let me = info.slot_info.my_slot_player_id;
    let players = info.slot_info.player_infos;
    if raw == "flo"@ {
        ChatEffectV { handled: true, muted, outputs: chats_to_self(me, help_msgs()) }
    } else if raw == "game"@ {
        ChatEffectV { handled: true, muted, outputs: chats_to_self(me, game_msgs(info, node)) }
    } else if raw == "muteall"@ {
        ChatEffectV {
            handled: true,
            muted: mute_all_spec(muted, me, players),
            outputs: chats_to_self(me, seq!["All players muted."@]),
        }
    } else if raw == "muteopps"@ {
        ChatEffectV {
            handled: true,
            muted: mute_opps_spec(muted, me, players, info.game.slots, info.slot_info.my_team),
            outputs: chats_to_self(me, seq!["All opponents muted."@]),
        }
    } else if raw == "unmuteall"@ {
        ChatEffectV {
            handled: true,
            muted: Seq::empty(),
            outputs: chats_to_self(me, seq!["All players un-muted."@]),
        }
    } else if is_prefix("stats"@, raw) {
        ChatEffectV { handled: true, muted, outputs: stats_cmd_spec(info, raw) }
    } else if is_prefix("mute"@, raw) {
        mute_cmd_spec(info, muted, raw)
    } else if is_prefix("unmute"@, raw) {
        unmute_cmd_spec(info, muted, raw)
    } else {
        ChatEffectV { handled: false, muted, outputs: Seq::empty() }
    }
}

/// The relay's session state: the immutable game and node data, the mute
/// policy, and the recorded end reason.
pub struct GameHandler {
    pub info: LanGameInfo,
    pub node: NodeInfo,
    pub mute: MutePolicy,
    pub end_reason: Option<GameEndReason>,
}

impl GameHandler {
    /// The muted slots, in the order they were muted.
    pub open spec fn muted(&self) -> Seq<u8> {
        self.mute@
    }

    /// The recorded end reason, set by a client `LeaveReq`.
    pub open spec fn spec_end_reason(&self) -> Option<GameEndReason> {
        self.end_reason
    }

    pub open spec fn me(&self) -> u8 {
        self.info@.slot_info.my_slot_player_id
    }

    pub open spec fn wf(&self) -> bool {
        &&& self.info@.wf()
        &&& self.mute.wf()
        &&& self.mute.me() == self.me()
    }

    pub fn new(info: LanGameInfo, node: NodeInfo) -> (r: GameHandler)
        requires
            info@.wf(),
        ensures
            r.wf(),
            r.info == info,
            r.node == node,
            r.muted() == Seq::<u8>::empty(),
            r.spec_end_reason() is None,
    {
        let mute = MutePolicy::new(info.slot_info.my_slot_player_id);
        GameHandler { info, node, mute, end_reason: None }
    }

    /// What a client `LeaveReq` recorded, read by the caller after the
    /// session returns.
    pub fn end_reason(&self) -> (r: Option<GameEndReason>)
        ensures
            r == self.spec_end_reason(),
    {
        self.end_reason
    }

    /// The node-to-client path: drop scoped chat from muted senders,
    /// forward everything else unchanged.
    pub fn handle_incoming_w3gs(&self, pkt: Packet) -> (r: Vec<Output>)
        ensures
            r.deep_view() == incoming_outputs(self.muted(), pkt@),
    {
        let drop = match &pkt {
            Packet::ChatFromHost { body } => self.mute.should_drop_chat(
                body.from_player,
                &body.message,
            ),
            _ => false,
        };
        let mut r: Vec<Output> = Vec::new();
        if !drop {
            r.push(Output::ToClient { pkt });
        }
        proof {
            if incoming_pass(self.muted(), pkt@) {
                assert(r.deep_view() =~= seq![OutputV::ToClient { pkt: pkt@ }]);
            } else {
                assert(r.deep_view() =~= Seq::<OutputV>::empty());
            }
        }
        r
    }

    /// A node status change is only observed; nothing is sent for it.
    pub fn handle_game_status_change(&self, status: NodeGameStatus) -> (r: Vec<Output>)
        ensures
            r.deep_view() == Seq::<OutputV>::empty(),
    {
        let _ = status;
        let r: Vec<Output> = Vec::new();
        proof {
            assert(r.deep_view() =~= Seq::<OutputV>::empty());
        }
        r
    }
}

impl GameHandler {
    /// The `-stats` family: resolve the targets and emit one statistics
    /// lookup per target, or the player list when nothing matches.
    fn chat_stats(&self, raw: &String) -> (r: Vec<Output>)
        requires
            self.wf(),
            is_prefix("stats"@, raw@),
        ensures
            r.deep_view() == stats_cmd_spec(self.info@, raw@),
    {
        let me = self.info.slot_info.my_slot_player_id;
        let my_team = self.info.slot_info.my_team;
        let players = &self.info.slot_info.player_infos;
        let slots = &self.info.game.slots;
        let solo = players.len() == 2;
        let mut outputs: Vec<Output> = Vec::new();
        let t = trim_end_str(raw);
        proof {
            assert forall|i: int|
                0 <= i < players.deep_view().len() implies (#[trigger] players.deep_view()[
                i]).slot_index < slots.deep_view().len() by {
                assert(self.info@.slot_info.player_infos[i].slot_index
                    < self.info@.game.slots.len());
            }
        }
        if str_eq(t.as_str(), "stats") {
            let targets = compute_stats_opponents(players, slots, me, my_team);
            if targets.len() > 0 {
                proof {
                    lemma_stats_opponents_bounds(
                        players.deep_view(),
                        slots.deep_view(),
                        me,
                        my_team,
                        slots.deep_view().len() as int,
                    );
                }
                push_stats_requests(&mut outputs, &targets, slots, solo);
            }
            proof {
                assert(outputs.deep_view() =~= stats_cmd_spec(self.info@, raw@));
            }
        } else {
            proof {
                reveal_strlit("stats");
                lemma_trim_end(raw@);
                assert(t@.len() >= 5) by {
                    if t@.len() < 5 {
                        assert(is_wspace(raw@[4]));
                        assert(raw@[4] == "stats"@[4]);
                    }
                }
                if t@.len() == 5 {
                    assert forall|j: int| 0 <= j < 5 implies t@[j] == "stats"@[j] by {
                        assert(t@[j] == raw@.take(5)[j]);
                    }
                    assert(t@ =~= "stats"@);
                }
                assert(t@.len() >= 6);
            }
            let arg = chars_from(&t, 6);
            match parse_u8_str(arg.as_str()) {
                Some(id) => {
                    let targets = compute_players_with_slot(players, id);
                    if targets.len() > 0 {
                        proof {
                            lemma_players_with_slot_bounds(
                                players.deep_view(),
                                id,
                                slots.deep_view().len() as int,
                            );
                        }
                        push_stats_requests(&mut outputs, &targets, slots, solo);
                    } else {
                        let msgs = build_player_list(
                            String::from_str("Type `-stats <ID>` to get stats for:"),
                            players,
                        );
                        push_chats(&mut outputs, me, msgs);
                    }
                },
                None => {
                    let targets = compute_players_with_name_prefix(players, &arg);
                    if targets.len() > 0 {
                        proof {
                            lemma_players_with_name_prefix_bounds(
                                players.deep_view(),
                                arg@,
                                slots.deep_view().len() as int,
                            );
                        }
                        push_stats_requests(&mut outputs, &targets, slots, solo);
                    } else {
                        let msgs = build_player_list(
                            String::from_str("Type `-stats <ID>` to get stats for:"),
                            players,
                        );
                        push_chats(&mut outputs, me, msgs);
                    }
                },
            }
            proof {
                assert(outputs.deep_view() =~= stats_cmd_spec(self.info@, raw@));
            }
        }
        outputs
    }

    /// The `-mute` family: mute the one eligible player, a player by id, or
    /// list the candidates; `mutef` asks for the mute to be persisted.
    fn chat_mute(&mut self, raw: &String) -> (r: Vec<Output>)
        requires
            old(self).wf(),
            is_prefix("mute"@, raw@),
        ensures
            final (self).wf(),
            final (self).info == old(self).info,
            final (self).node == old(self).node,
            final (self).end_reason == old(self).end_reason,
            final (self).mute.me() == old(self).mute.me(),
            final (self).muted() == mute_cmd_spec(old(self).info@, old(self).muted(), raw@).muted,
            r.deep_view() == mute_cmd_spec(old(self).info@, old(self).muted(), raw@).outputs,
    {
        let ghost eff = mute_cmd_spec(self.info@, self.muted(), raw@);
        let me = self.info.slot_info.my_slot_player_id;
        let targets = compute_mute_targets(&self.info.slot_info.player_infos, &self.mute);
        let t = trim_end_str(raw);
        let mut outputs: Vec<Output> = Vec::new();
        let is_plain = str_eq(t.as_str(), "mute");
        let is_forever = str_eq(t.as_str(), "mutef");
        if is_plain || is_forever {
            let forever = is_forever;
            if targets.len() == 0 {
                push_chat(&mut outputs, me, String::from_str("You have silenced all the players."));
                proof {
                    assert(outputs.deep_view() =~= eff.outputs);
                }
            } else if targets.len() == 1 {
                let slot = targets[0].slot_player_id;
                self.mute.mute(slot);
                if forever {
                    outputs.push(
                        Output::MuteSave {
                            player_id: targets[0].player_id,
                            name: targets[0].name.clone(),
                            muted: true,
                        },
                    );
                    proof {
                        assert(outputs.deep_view() =~= eff.outputs);
                    }
                } else {
                    let mut msg = String::from_str("Muted: ");
                    msg.append(targets[0].name.as_str());
                    push_chat(&mut outputs, me, msg);
                    proof {
                        assert(outputs.deep_view() =~= eff.outputs);
                    }
                }
            } else {
                let msgs = build_player_list(
                    String::from_str("Type `-mute or -mutef <ID>` to mute a player:"),
                    &targets,
                );
                push_chats(&mut outputs, me, msgs);
                proof {
                    assert(outputs.deep_view() =~= eff.outputs);
                }
            }
        } else {
            let forever = str_starts_with(t.as_str(), "mutef");
            proof {
                reveal_strlit("mute");
                reveal_strlit("mutef");
                lemma_trim_end(raw@);
                assert(t@.len() >= 4) by {
                    if t@.len() < 4 {
                        assert(is_wspace(raw@[3]));
                        assert(raw@[3] == "mute"@[3]);
                    }
                }
                if t@.len() == 4 {
                    assert forall|j: int| 0 <= j < 4 implies t@[j] == "mute"@[j] by {
                        assert(t@[j] == raw@.take(4)[j]);
                    }
                    assert(t@ =~= "mute"@);
                }
                assert(t@.len() >= 5);
                if forever && t@.len() == 5 {
                    assert(t@ =~= "mutef"@);
                }
                assert(forever ==> t@.len() >= 6);
            }
            let k: usize = if forever {
                6
            } else {
                5
            };
            let arg = chars_from(&t, k);
            match parse_u8_str(arg.as_str()) {
                Some(id) => {
                    if id == me {
                        push_chat(&mut outputs, me, String::from_str("You cannot mute yourself."));
                        proof {
                            assert(outputs.deep_view() =~= eff.outputs);
                        }
                    } else {
                        match find_player_exec(&self.info.slot_info.player_infos, id) {
                            Some(j) => {
                                self.mute.mute(id);
                                if forever {
                                    outputs.push(
                                        Output::MuteSave {
                                            player_id: self.info.slot_info.player_infos[
                                                j].player_id,
                                            name: self.info.slot_info.player_infos[
                                                j].name.clone(),
                                            muted: true,
                                        },
                                    );
                                    proof {
                                        assert(outputs.deep_view() =~= eff.outputs);
                                    }
                                } else {
                                    let mut msg = String::from_str("Muted: ");
                                    msg.append(self.info.slot_info.player_infos[j].name.as_str());
                                    push_chat(&mut outputs, me, msg);
                                    proof {
                                        assert(outputs.deep_view() =~= eff.outputs);
                                    }
                                }
                            },
                            None => {
                                let msgs = build_player_list(
                                    String::from_str("Invalid player id. Players:"),
                                    &targets,
                                );
                                push_chats(&mut outputs, me, msgs);
                                proof {
                                    assert(outputs.deep_view() =~= eff.outputs);
                                }
                            },
                        }
                    }
                },
                None => {
                    push_chat(&mut outputs, me, String::from_str("Invalid syntax. Example: -mute 1"));
                    proof {
                        assert(outputs.deep_view() =~= eff.outputs);
                    }
                },
            }
        }
        proof {
            assert(self.muted() == eff.muted);
        }
        outputs
    }

    /// The `-unmute` family, drawn from the currently muted players.
    fn chat_unmute(&mut self, raw: &String) -> (r: Vec<Output>)
        requires
            old(self).wf(),
            is_prefix("unmute"@, raw@),
        ensures
            final (self).wf(),
            final (self).info == old(self).info,
            final (self).node == old(self).node,
            final (self).end_reason == old(self).end_reason,
            final (self).mute.me() == old(self).mute.me(),
            final (self).muted() == unmute_cmd_spec(old(self).info@, old(self).muted(), raw@).muted,
            r.deep_view() == unmute_cmd_spec(old(self).info@, old(self).muted(), raw@).outputs,
    {
        let ghost eff = unmute_cmd_spec(self.info@, self.muted(), raw@);
        let me = self.info.slot_info.my_slot_player_id;
        let targets = compute_unmute_targets(&self.mute, &self.info.slot_info.player_infos);
        let t = trim_end_str(raw);
        let mut outputs: Vec<Output> = Vec::new();
        let is_plain = str_eq(t.as_str(), "unmute");
        let is_forever = str_eq(t.as_str(), "unmutef");
        if is_plain || is_forever {
            let forever = is_forever;
            if targets.len() == 0 {
                push_chat(&mut outputs, me, String::from_str("No player to unmute."));
                proof {
                    assert(outputs.deep_view() =~= eff.outputs);
                }
            } else if targets.len() == 1 {
                let slot = targets[0].slot_player_id;
                self.mute.unmute(slot);
                if forever {
                    outputs.push(
                        Output::MuteSave {
                            player_id: targets[0].player_id,
                            name: targets[0].name.clone(),
                            muted: false,
                        },
                    );
                    proof {
                        assert(outputs.deep_view() =~= eff.outputs);
                    }
                } else {
                    let mut msg = String::from_str("Un-muted: ");
                    msg.append(targets[0].name.as_str());
                    push_chat(&mut outputs, me, msg);
                    proof {
                        assert(outputs.deep_view() =~= eff.outputs);
                    }
                }
            } else {
                let msgs = build_player_list(
                    String::from_str("Type `-unmute <ID>` to unmute a player:"),
                    &targets,
                );
                push_chats(&mut outputs, me, msgs);
                proof {
                    assert(outputs.deep_view() =~= eff.outputs);
                }
            }
        } else {
            let forever = str_starts_with(t.as_str(), "unmutef");
            proof {
                reveal_strlit("unmute");
                reveal_strlit("unmutef");
                lemma_trim_end(raw@);
                assert(t@.len() >= 6) by {
                    if t@.len() < 6 {
                        assert(is_wspace(raw@[5]));
                        assert(raw@[5] == "unmute"@[5]);
                    }
                }
                if t@.len() == 6 {
                    assert forall|j: int| 0 <= j < 6 implies t@[j] == "unmute"@[j] by {
                        assert(t@[j] == raw@.take(6)[j]);
                    }
                    assert(t@ =~= "unmute"@);
                }
                assert(t@.len() >= 7);
                if forever && t@.len() == 7 {
                    assert(t@ =~= "unmutef"@);
                }
                assert(forever ==> t@.len() >= 8);
            }
            let k: usize = if forever {
                8
            } else {
                7
            };
            let arg = chars_from(&t, k);
            match parse_u8_str(arg.as_str()) {
                Some(id) => {
                    match find_player_exec(&targets, id) {
                        Some(j) => {
                            self.mute.unmute(id);
                            if forever {
                                outputs.push(
                                    Output::MuteSave {
                                        player_id: targets[j].player_id,
                                        name: targets[j].name.clone(),
                                        muted: false,
                                    },
                                );
                                proof {
                                    assert(outputs.deep_view() =~= eff.outputs);
                                }
                            } else {
                                let mut msg = String::from_str("Un-muted: ");
                                msg.append(targets[j].name.as_str());
                                push_chat(&mut outputs, me, msg);
                                proof {
                                    assert(outputs.deep_view() =~= eff.outputs);
                                }
                            }
                        },
                        None => {
                            let msgs = build_player_list(
                                String::from_str("Invalid player id. Muted players:"),
                                &targets,
                            );
                            push_chats(&mut outputs, me, msgs);
                            proof {
                                assert(outputs.deep_view() =~= eff.outputs);
                            }
                        },
                    }
                },
                None => {
                    push_chat(
                        &mut outputs,
                        me,
                        String::from_str("Invalid syntax. Example: -unmute 1"),
                    );
                    proof {
                        assert(outputs.deep_view() =~= eff.outputs);
                    }
                },
            }
        }
        proof {
            assert(self.muted() == eff.muted);
        }
        outputs
    }

    /// Dispatch one recognised chat command; the first component says
    /// whether the command was consumed, and with it whether the packet is
    /// withheld from the node.
    pub fn handle_chat_command(&mut self, cmd: &ChatCommand) -> (r: (bool, Vec<Output>))
        requires
            old(self).wf(),
        ensures
            final (self).wf(),
            final (self).info == old(self).info,
            final (self).node == old(self).node,
            final (self).end_reason == old(self).end_reason,
            final (self).mute.me() == old(self).mute.me(),
            r.0 == chat_command_spec(old(self).info@, old(self).node@, old(self).muted(), cmd@).handled,
            r.1.deep_view() == chat_command_spec(
                old(self).info@,
                old(self).node@,
                old(self).muted(),
                cmd@,
            ).outputs,
            final (self).muted() == chat_command_spec(
                old(self).info@,
                old(self).node@,
                old(self).muted(),
                cmd@,
            ).muted,
    {
        let ghost eff = chat_command_spec(self.info@, self.node@, self.muted(), cmd@);
        let raw = cmd.raw();
        let me = self.info.slot_info.my_slot_player_id;
        if str_eq(raw.as_str(), "flo") {
            let mut outputs: Vec<Output> = Vec::new();
            let msgs = build_help_msgs();
            push_chats(&mut outputs, me, msgs);
            proof {
                assert(outputs.deep_view() =~= eff.outputs);
            }
            return (true, outputs);
        }
        if str_eq(raw.as_str(), "game") {
            let mut outputs: Vec<Output> = Vec::new();
            let msgs = build_game_msgs(&self.info, &self.node);
            push_chats(&mut outputs, me, msgs);
            proof {
                assert(outputs.deep_view() =~= eff.outputs);
            }
            return (true, outputs);
        }
        if str_eq(raw.as_str(), "muteall") {
            self.mute.mute_all_others(&self.info.slot_info.player_infos);
            let mut outputs: Vec<Output> = Vec::new();
            push_chat(&mut outputs, me, String::from_str("All players muted."));
            proof {
                assert(outputs.deep_view() =~= eff.outputs);
            }
            return (true, outputs);
        }
        if str_eq(raw.as_str(), "muteopps") {
            proof {
                assert forall|i: int|
                    0 <= i < self.info.slot_info.player_infos.deep_view().len() implies (
                #[trigger] self.info.slot_info.player_infos.deep_view()[i]).slot_index
                    < self.info.game.slots.deep_view().len() by {
                    assert(self.info@.slot_info.player_infos[i].slot_index
                        < self.info@.game.slots.len());
                }
            }
            self.mute.mute_opponents(
                &self.info.slot_info.player_infos,
                &self.info.game.slots,
                self.info.slot_info.my_team,
            );
            let mut outputs: Vec<Output> = Vec::new();
            push_chat(&mut outputs, me, String::from_str("All opponents muted."));
            proof {
                assert(outputs.deep_view() =~= eff.outputs);
            }
            return (true, outputs);
        }
        if str_eq(raw.as_str(), "unmuteall") {
            self.mute.unmute_all();
            let mut outputs: Vec<Output> = Vec::new();
            push_chat(&mut outputs, me, String::from_str("All players un-muted."));
            proof {
                assert(outputs.deep_view() =~= eff.outputs);
            }
            return (true, outputs);
        }
        if str_starts_with(raw.as_str(), "stats") {
            let outputs = self.chat_stats(raw);
            return (true, outputs);
        }
        if str_starts_with(raw.as_str(), "mute") {
            let outputs = self.chat_mute(raw);
            return (true, outputs);
        }
        if str_starts_with(raw.as_str(), "unmute") {
            let outputs = self.chat_unmute(raw);
            return (true, outputs);
        }
        let outputs: Vec<Output> = Vec::new();
        proof {
            assert(outputs.deep_view() =~= eff.outputs);
        }
        (false, outputs)
    }
}

/// What one client packet does: the mute state and end reason it leaves
/// and the packets it sends.
#[verifier::ext_equal]
pub struct PacketEffectV {
    pub muted: Seq<u8>,
    pub end: Option<GameEndReason>,
    pub outputs: Seq<OutputV>,
}

/// The client-to-node dispatch: pongs are swallowed; scoped chat that
/// parses as a handled command is consumed; a `LeaveReq` is forwarded to
/// the node, answered with a `LeaveAck`, and recorded; everything else is
/// forwarded to the node unchanged.
pub open spec fn game_packet_spec(
    info: LanGameInfoV,
    node: NodeInfoV,
    muted: Seq<u8>,
    end: Option<GameEndReason>,
    pkt: PacketV,
) -> PacketEffectV {
    match pkt {
        PacketV::PongToHost { .. } => PacketEffectV { muted, end, outputs: Seq::empty() },
        PacketV::ChatToHost { body } => match body.message {
            ChatMessageV::Scoped { text } => match parse_spec(text) {
                Some(raw) => {
                    let eff = chat_command_spec(info, node, muted, raw);
                    if eff.handled {
                        PacketEffectV { muted: eff.muted, end, outputs: eff.outputs }
                    } else {
                        PacketEffectV { muted, end, outputs: seq![OutputV::ToNode { pkt }] }
                    }
                },
                None => PacketEffectV { muted, end, outputs: seq![OutputV::ToNode { pkt }] },
            },
            _ => PacketEffectV { muted, end, outputs: seq![OutputV::ToNode { pkt }] },
        },
        PacketV::LeaveReq { reason } => PacketEffectV {
            muted,
            end: Some(GameEndReason::LeaveReq { reason }),
            outputs: seq![
                OutputV::ToNode { pkt },
                OutputV::ToClient { pkt: PacketV::LeaveAck },
            ],
        },
        _ => PacketEffectV { muted, end, outputs: seq![OutputV::ToNode { pkt }] },
    }
}

/// What one event does: the state it leaves, the packets it sends, and
/// whether it ends the session.
#[verifier::ext_equal]
pub struct StepEffectV {
    pub muted: Seq<u8>,
    pub end: Option<GameEndReason>,
    pub outputs: Seq<OutputV>,
    pub exit: Option<RelayExit>,
}

/// The relay's state machine: a ping-timer tick sends a ping; a client
/// `LeaveAck` is echoed and ends the session with `Leave`; a closed client
/// stream ends it with `Disconnected`; other client packets dispatch as
/// `game_packet_spec`; a queued packet takes the node-to-client path; a
/// closed status watch or queue surfaces a cancellation.
pub open spec fn event_spec(
    info: LanGameInfoV,
    node: NodeInfoV,
    muted: Seq<u8>,
    end: Option<GameEndReason>,
    ev: RelayEventV,
) -> StepEffectV {
    match ev {
        RelayEventV::PingTick => StepEffectV {
            muted,
            end,
            outputs: seq![OutputV::ToClient { pkt: PacketV::PingFromHost { payload: 0 } }],
            exit: None,
        },
        RelayEventV::ClientPacket { pkt } => match pkt {
            PacketV::LeaveAck => StepEffectV {
                muted,
                end,
                outputs: seq![OutputV::ToClient { pkt: PacketV::LeaveAck }],
                exit: Some(RelayExit::Finished { result: GameResult::Leave }),
            },
            _ => {
                let e = game_packet_spec(info, node, muted, end, pkt);
                StepEffectV { muted: e.muted, end: e.end, outputs: e.outputs, exit: None }
            },
        },
        RelayEventV::ClientClosed => StepEffectV {
            muted,
            end,
            outputs: Seq::empty(),
            exit: Some(RelayExit::Finished { result: GameResult::Disconnected }),
        },
        RelayEventV::NodeStatus { .. } => StepEffectV {
            muted,
            end,
            outputs: Seq::empty(),
            exit: None,
        },
        RelayEventV::NodeStatusClosed => StepEffectV {
            muted,
            end,
            outputs: Seq::empty(),
            exit: Some(RelayExit::Cancelled),
        },
        RelayEventV::QueuedPacket { pkt } => StepEffectV {
            muted,
            end,
            outputs: incoming_outputs(muted, pkt),
            exit: None,
        },
        RelayEventV::QueueClosed => StepEffectV {
            muted,
            end,
            outputs: Seq::empty(),
            exit: Some(RelayExit::Cancelled),
        },
    }
}

/// The slots muted at startup: every player whose controller-wide id is on
/// the persisted list, except ourselves, in player order.
pub open spec fn auto_mute_ids(
    muted: Seq<u8>,
    me: u8,
    players: Seq<PlayerInfoV>,
    list: Seq<i32>,
) -> Seq<u8>
    decreases players.len(),
{
    if players.len() == 0 {
        muted
    } else {
        let prev = auto_mute_ids(muted, me, players.drop_last(), list);
        if list.contains(players.last().player_id) && players.last().slot_player_id != me {
            mute_spec(prev, me, players.last().slot_player_id)
        } else {
            prev
        }
    }
}

/// The names of the players muted at startup, in player order.
pub open spec fn auto_mute_names(me: u8, players: Seq<PlayerInfoV>, list: Seq<i32>) -> Seq<
    Seq<char>,
>
    decreases players.len(),
{
    if players.len() == 0 {
        Seq::empty()
    } else {
        let prev = auto_mute_names(me, players.drop_last(), list);
        if list.contains(players.last().player_id) && players.last().slot_player_id != me {
            prev + seq![players.last().name]
        } else {
            prev
        }
    }
}

/// The startup announcement: one private chat naming the auto-muted
/// players, or nothing when none were.
pub open spec fn startup_outputs(me: u8, names: Seq<Seq<char>>) -> Seq<OutputV> {
    if names.len() > 0 {
        chats_to_self(me, seq!["Auto muted: "@ + join_comma(names)])
    } else {
        Seq::empty()
    }
}

/// The deferred client packets, seen as the client-arrival events their
/// replay dispatches.
pub open spec fn client_events(pkts: Seq<PacketV>) -> Seq<RelayEventV> {
    pkts.map_values(|p: PacketV| RelayEventV::ClientPacket { pkt: p })
}

/// Replaying the deferred node-to-client packets, in order, through the
/// node-inbound filter, under a fixed mute state.
pub open spec fn replay_out_spec(muted: Seq<u8>, pkts: Seq<PacketV>) -> Seq<OutputV>
    decreases pkts.len(),
{
    if pkts.len() == 0 {
        Seq::empty()
    } else {
        replay_out_spec(muted, pkts.drop_last()) + incoming_outputs(muted, pkts.last())
    }
}

/// What a run leaves behind: everything sent, the exit if one was reached,
/// and the state at the end.
#[verifier::ext_equal]
pub struct RunTailV {
    pub outputs: Seq<OutputV>,
    pub exit: Option<RelayExit>,
    pub muted: Seq<u8>,
    pub end: Option<GameEndReason>,
}

/// Folding the live events in order, stopping at the first terminal one;
/// events after it are not processed.
pub open spec fn run_events_spec(
    info: LanGameInfoV,
    node: NodeInfoV,
    muted: Seq<u8>,
    end: Option<GameEndReason>,
    events: Seq<RelayEventV>,
) -> RunTailV
    decreases events.len(),
{
    if events.len() == 0 {
        RunTailV { outputs: Seq::empty(), exit: None, muted, end }
    } else {
        let st = event_spec(info, node, muted, end, events[0]);
        if st.exit is Some {
            RunTailV { outputs: st.outputs, exit: st.exit, muted: st.muted, end: st.end }
        } else {
            let rest = run_events_spec(info, node, st.muted, st.end, events.drop_first());
            RunTailV {
                outputs: st.outputs + rest.outputs,
                exit: rest.exit,
                muted: rest.muted,
                end: rest.end,
            }
        }
    }
}

/// The whole session: the startup auto-mute and its announcement; then the
/// deferred client packets, replayed in their supplied order through the
/// client-inbound dispatch — a terminal packet among them ends the session
/// right there, before anything else is touched; then the deferred
/// node-to-client packets through the node-inbound filter, in order; then
/// the live events.
pub open spec fn run_spec(
    info: LanGameInfoV,
    node: NodeInfoV,
    muted: Seq<u8>,
    end: Option<GameEndReason>,
    mute_list: Seq<i32>,
    deferred_in: Seq<PacketV>,
    deferred_out: Seq<PacketV>,
    events: Seq<RelayEventV>,
) -> RunTailV {
    let me = info.slot_info.my_slot_player_id;
    let players = info.slot_info.player_infos;
    let muted1 = auto_mute_ids(muted, me, players, mute_list);
    let startup = startup_outputs(me, auto_mute_names(me, players, mute_list));
    let replay = run_events_spec(info, node, muted1, end, client_events(deferred_in));
    if replay.exit is Some {
        RunTailV {
            outputs: startup + replay.outputs,
            exit: replay.exit,
            muted: replay.muted,
            end: replay.end,
        }
    } else {
        let filtered = replay_out_spec(replay.muted, deferred_out);
        let tail = run_events_spec(info, node, replay.muted, replay.end, events);
        RunTailV {
            outputs: startup + replay.outputs + filtered + tail.outputs,
            exit: tail.exit,
            muted: tail.muted,
            end: tail.end,
        }
    }
}

/// Deferred packets come first: a run's outputs are exactly the startup
/// announcement, then the replayed deferred client packets in their
/// supplied order, then the filtered deferred node packets in theirs, and
/// only then what the live events produced. This holds whenever the replay
/// itself reaches no terminal packet; with one — a deferred `LeaveAck` —
/// the session ends during the replay and live events are never processed.
pub proof fn lemma_deferred_before_live(
    info: LanGameInfoV,
    node: NodeInfoV,
    muted: Seq<u8>,
    end: Option<GameEndReason>,
    mute_list: Seq<i32>,
    deferred_in: Seq<PacketV>,
    deferred_out: Seq<PacketV>,
    events: Seq<RelayEventV>,
)
    requires
        ({
            let me = info.slot_info.my_slot_player_id;
            let players = info.slot_info.player_infos;
            let muted1 = auto_mute_ids(muted, me, players, mute_list);
            run_events_spec(info, node, muted1, end, client_events(deferred_in)).exit is None
        }),
    ensures
        ({
            let me = info.slot_info.my_slot_player_id;
            let players = info.slot_info.player_infos;
            let muted1 = auto_mute_ids(muted, me, players, mute_list);
            let replay = run_events_spec(info, node, muted1, end, client_events(deferred_in));
            run_spec(info, node, muted, end, mute_list, deferred_in, deferred_out, events).outputs
                == startup_outputs(me, auto_mute_names(me, players, mute_list)) + replay.outputs
                + replay_out_spec(replay.muted, deferred_out) + run_events_spec(
                info,
                node,
                replay.muted,
                replay.end,
                events,
            ).outputs
        }),
{
}

fn vec_contains_i32(v: &Vec<i32>, x: i32) -> (r: bool)
    ensures
        r == v@.contains(x),
{
    let mut i: usize = 0;
    while i < v.len()
        invariant
            i <= v.len(),
            forall|k: int| 0 <= k < i ==> v@[k] != x,
        decreases v.len() - i,
    {
        if v[i] == x {
            return true;
        }
        i = i + 1;
    }
    proof {
        if v@.contains(x) {
            let w = choose|w: int| 0 <= w < v@.len() && v@[w] == x;
            assert(v@[w] != x);
        }
    }
    false
}

/// The confirmation line after the controller answered a mute or unmute
/// persistence request: kept forever on success, temporary on failure.
pub open spec fn mute_save_reply_text(muted: bool, name: Seq<char>, ok: bool) -> Seq<char> {
    (if muted {
        "Muted"@
    } else {
        "Un-muted"@
    }) + (if ok {
        " forever: "@
    } else {
        " temporary: "@
    }) + name
}

/// Build the private chat confirming a persistence request's outcome; the
/// surrounding loop calls this with whatever the controller returned and
/// places the packet on the relay's inbound queue.
pub fn mute_save_reply(me: u8, muted: bool, name: &String, ok: bool) -> (r: Packet)
    ensures
        r@ == private_to_self_spec(me, mute_save_reply_text(muted, name@, ok)),
{
    let mut s = if muted {
        String::from_str("Muted")
    } else {
        String::from_str("Un-muted")
    };
    if ok {
        s.append(" forever: ");
    } else {
        s.append(" temporary: ");
    }
    s.append(name.as_str());
    private_to_self(me, s)
}

impl GameHandler {
    /// The client-to-node dispatch, by packet kind.
    pub fn handle_game_packet(&mut self, pkt: Packet) -> (r: Vec<Output>)
        requires
            old(self).wf(),
        ensures
            final (self).wf(),
            final (self).info == old(self).info,
            final (self).node == old(self).node,
            final (self).mute.me() == old(self).mute.me(),
            final (self).muted() == game_packet_spec(
                old(self).info@,
                old(self).node@,
                old(self).muted(),
                old(self).spec_end_reason(),
                pkt@,
            ).muted,
            final (self).spec_end_reason() == game_packet_spec(
                old(self).info@,
                old(self).node@,
                old(self).muted(),
                old(self).spec_end_reason(),
                pkt@,
            ).end,
            r.deep_view() == game_packet_spec(
                old(self).info@,
                old(self).node@,
                old(self).muted(),
                old(self).spec_end_reason(),
                pkt@,
            ).outputs,
    {
        let ghost eff = game_packet_spec(
            self.info@,
            self.node@,
            self.muted(),
            self.spec_end_reason(),
            pkt@,
        );
        match pkt {
            Packet::PongToHost { payload } => {
                let _ = payload;
                let r: Vec<Output> = Vec::new();
                proof {
                    assert(r.deep_view() =~= eff.outputs);
                }
                r
            },
            Packet::ChatToHost { body } => {
                let mut handled = false;
                let mut outs: Vec<Output> = Vec::new();
                match &body.message {
                    ChatMessage::Scoped { text } => {
                        match parse_chat_command(text) {
                            Some(cmd) => {
                                let (h, o) = self.handle_chat_command(&cmd);
                                handled = h;
                                outs = o;
                            },
                            None => {},
                        }
                    },
                    ChatMessage::Broadcast { .. } => {},
                }
                if handled {
                    outs
                } else {
                    let mut r: Vec<Output> = Vec::new();
                    r.push(Output::ToNode { pkt: Packet::ChatToHost { body } });
                    proof {
                        assert(r.deep_view() =~= eff.outputs);
                    }
                    r
                }
            },
            Packet::LeaveReq { reason } => {
                self.end_reason = Some(GameEndReason::LeaveReq { reason });
                let mut r: Vec<Output> = Vec::new();
                r.push(Output::ToNode { pkt: Packet::LeaveReq { reason } });
                r.push(Output::ToClient { pkt: Packet::LeaveAck });
                proof {
                    assert(r.deep_view() =~= eff.outputs);
                }
                r
            },
            other => {
                let mut r: Vec<Output> = Vec::new();
                r.push(Output::ToNode { pkt: other });
                proof {
                    assert(r.deep_view() =~= eff.outputs);
                }
                r
            },
        }
    }

    /// Fold one event from any of the four sources into actions and,
    /// possibly, a terminal outcome.
    pub fn handle_event(&mut self, event: RelayEvent) -> (r: (Vec<Output>, Option<RelayExit>))
        requires
            old(self).wf(),
        ensures
            final (self).wf(),
            final (self).info == old(self).info,
            final (self).node == old(self).node,
            final (self).mute.me() == old(self).mute.me(),
            final (self).muted() == event_spec(
                old(self).info@,
                old(self).node@,
                old(self).muted(),
                old(self).spec_end_reason(),
                event@,
            ).muted,
            final (self).spec_end_reason() == event_spec(
                old(self).info@,
                old(self).node@,
                old(self).muted(),
                old(self).spec_end_reason(),
                event@,
            ).end,
            r.0.deep_view() == event_spec(
                old(self).info@,
                old(self).node@,
                old(self).muted(),
                old(self).spec_end_reason(),
                event@,
            ).outputs,
            r.1 == event_spec(
                old(self).info@,
                old(self).node@,
                old(self).muted(),
                old(self).spec_end_reason(),
                event@,
            ).exit,
    {
        let ghost eff = event_spec(
            self.info@,
            self.node@,
            self.muted(),
            self.spec_end_reason(),
            event@,
        );
        match event {
            RelayEvent::PingTick => {
                let mut outs: Vec<Output> = Vec::new();
                outs.push(Output::ToClient { pkt: Packet::PingFromHost { payload: 0 } });
                proof {
                    assert(outs.deep_view() =~= eff.outputs);
                }
                (outs, None)
            },
            RelayEvent::ClientPacket { pkt } => {
                match pkt {
                    Packet::LeaveAck => {
                        let mut outs: Vec<Output> = Vec::new();
                        outs.push(Output::ToClient { pkt: Packet::LeaveAck });
                        proof {
                            assert(outs.deep_view() =~= eff.outputs);
                        }
                        (outs, Some(RelayExit::Finished { result: GameResult::Leave }))
                    },
                    other => {
                        let outs = self.handle_game_packet(other);
                        (outs, None)
                    },
                }
            },
            RelayEvent::ClientClosed => {
                let outs: Vec<Output> = Vec::new();
                proof {
                    assert(outs.deep_view() =~= eff.outputs);
                }
                (outs, Some(RelayExit::Finished { result: GameResult::Disconnected }))
            },
            RelayEvent::NodeStatus { status } => {
                let outs = match status {
                    Some(s) => self.handle_game_status_change(s),
                    None => Vec::new(),
                };
                proof {
                    assert(outs.deep_view() =~= eff.outputs);
                }
                (outs, None)
            },
            RelayEvent::NodeStatusClosed => {
                let outs: Vec<Output> = Vec::new();
                proof {
                    assert(outs.deep_view() =~= eff.outputs);
                }
                (outs, Some(RelayExit::Cancelled))
            },
            RelayEvent::QueuedPacket { pkt } => {
                let outs = self.handle_incoming_w3gs(pkt);
                (outs, None)
            },
            RelayEvent::QueueClosed => {
                let outs: Vec<Output> = Vec::new();
                proof {
                    assert(outs.deep_view() =~= eff.outputs);
                }
                (outs, Some(RelayExit::Cancelled))
            },
        }
    }

    /// Startup: mute the players on the controller's persisted list who are
    /// present in this game, and announce them to ourselves.
    pub fn start(&mut self, mute_list: &Vec<i32>) -> (r: Vec<Output>)
        requires
            old(self).wf(),
        ensures
            final (self).wf(),
            final (self).info == old(self).info,
            final (self).node == old(self).node,
            final (self).end_reason == old(self).end_reason,
            final (self).mute.me() == old(self).mute.me(),
            final (self).muted() == auto_mute_ids(
                old(self).muted(),
                old(self).me(),
                old(self).info@.slot_info.player_infos,
                mute_list@,
            ),
            r.deep_view() == startup_outputs(
                old(self).me(),
                auto_mute_names(old(self).me(), old(self).info@.slot_info.player_infos, mute_list@),
            ),
    {
        let me = self.info.slot_info.my_slot_player_id;
        let ghost m0 = self.muted();
        let ghost dv = self.info.slot_info.player_infos.deep_view();
        let mut names: Vec<String> = Vec::new();
        proof {
            assert(self.muted() == auto_mute_ids(m0, me, dv.take(0), mute_list@));
            assert(names.deep_view() =~= auto_mute_names(me, dv.take(0), mute_list@));
        }
        let mut i: usize = 0;
        while i < self.info.slot_info.player_infos.len()
            invariant
                i <= self.info.slot_info.player_infos.len(),
                self.wf(),
                self.info == old(self).info,
                self.node == old(self).node,
                self.end_reason == old(self).end_reason,
                self.mute.me() == old(self).mute.me(),
                me == self.info.slot_info.my_slot_player_id,
                self.mute.me() == me,
                dv == self.info.slot_info.player_infos.deep_view(),
                dv.len() == self.info.slot_info.player_infos.len(),
                forall|k: int|
                    0 <= k < dv.len() ==> dv[k] == self.info.slot_info.player_infos@[k]@,
                self.muted() == auto_mute_ids(m0, me, dv.take(i as int), mute_list@),
                names.deep_view() == auto_mute_names(me, dv.take(i as int), mute_list@),
            decreases self.info.slot_info.player_infos.len() - i,
        {
            let pid = self.info.slot_info.player_infos[i].player_id;
            let slot = self.info.slot_info.player_infos[i].slot_player_id;
            if vec_contains_i32(mute_list, pid) && slot != me {
                self.mute.mute(slot);
                let name = self.info.slot_info.player_infos[i].name.clone();
                names.push(name);
            }
            proof {
                assert(dv.take(i + 1).drop_last() =~= dv.take(i as int));
                assert(dv.take(i + 1).last() == dv[i as int]);
                assert(self.muted() == auto_mute_ids(m0, me, dv.take(i + 1), mute_list@));
                assert(names.deep_view() =~= auto_mute_names(me, dv.take(i + 1), mute_list@));
            }
            i = i + 1;
        }
        proof {
            assert(dv.take(dv.len() as int) =~= dv);
        }
        let mut outputs: Vec<Output> = Vec::new();
        if names.len() > 0 {
            let joined = join_comma_strs(&names);
            let mut msg = String::from_str("Auto muted: ");
            msg.append(joined.as_str());
            push_chat(&mut outputs, me, msg);
        }
        proof {
            assert(outputs.deep_view() =~= startup_outputs(me, auto_mute_names(me, dv, mute_list@)));
        }
        outputs
    }

    /// Run a whole session over explicit inputs: the controller's mute
    /// list, the packets deferred during the lobby hand-off, and the live
    /// events in arrival order, stopping at the first terminal event.
    pub fn run(
        &mut self,
        mute_list: Vec<i32>,
        deferred_in_packets: Vec<Packet>,
        deferred_out_packets: Vec<Packet>,
        events: Vec<RelayEvent>,
    ) -> (r: (Vec<Output>, Option<RelayExit>))
        requires
            old(self).wf(),
        ensures
            final (self).wf(),
            final (self).info == old(self).info,
            final (self).node == old(self).node,
            ({
                let t = run_spec(
                    old(self).info@,
                    old(self).node@,
                    old(self).muted(),
                    old(self).spec_end_reason(),
                    mute_list@,
                    deferred_in_packets.deep_view(),
                    deferred_out_packets.deep_view(),
                    events.deep_view(),
                );
                &&& r.0.deep_view() == t.outputs
                &&& r.1 == t.exit
                &&& final (self).muted() == t.muted
                &&& final (self).spec_end_reason() == t.end
            }),
    {
        let ghost info0 = self.info@;
        let ghost node0 = self.node@;
        let ghost t = run_spec(
            self.info@,
            self.node@,
            self.muted(),
            self.spec_end_reason(),
            mute_list@,
            deferred_in_packets.deep_view(),
            deferred_out_packets.deep_view(),
            events.deep_view(),
        );
        let ghost din = deferred_in_packets.deep_view();
        let ghost dout = deferred_out_packets.deep_view();
        let ghost evs = events.deep_view();
        let mut outputs = self.start(&mute_list);
        let ghost muted1 = self.muted();
        let ghost end0 = self.spec_end_reason();
        let ghost base1 = outputs.deep_view();
        let ghost replay = run_events_spec(info0, node0, muted1, end0, client_events(din));
        let mut din_work = deferred_in_packets;
        while din_work.len() > 0
            invariant
                self.wf(),
                self.info == old(self).info,
                self.node == old(self).node,
                info0 == self.info@,
                node0 == self.node@,
                muted1 == auto_mute_ids(
                    old(self).muted(),
                    old(self).me(),
                    old(self).info@.slot_info.player_infos,
                    mute_list@,
                ),
                end0 == old(self).spec_end_reason(),
                base1 == startup_outputs(
                    old(self).me(),
                    auto_mute_names(
                        old(self).me(),
                        old(self).info@.slot_info.player_infos,
                        mute_list@,
                    ),
                ),
                replay == run_events_spec(
                    info0,
                    node0,
                    muted1,
                    end0,
                    client_events(deferred_in_packets.deep_view()),
                ),
                t == run_spec(
                    old(self).info@,
                    old(self).node@,
                    old(self).muted(),
                    old(self).spec_end_reason(),
                    mute_list@,
                    deferred_in_packets.deep_view(),
                    deferred_out_packets.deep_view(),
                    events.deep_view(),
                ),
                ({
                    let rem = run_events_spec(
                        info0,
                        node0,
                        self.muted(),
                        self.spec_end_reason(),
                        client_events(din_work.deep_view()),
                    );
                    &&& base1 + replay.outputs == outputs.deep_view() + rem.outputs
                    &&& replay.exit == rem.exit
                    &&& replay.muted == rem.muted
                    &&& replay.end == rem.end
                }),
            decreases din_work.len(),
        {
            let ghost dv_now = din_work.deep_view();
            let ghost evs_now = client_events(dv_now);
            let ghost st = event_spec(
                info0,
                node0,
                self.muted(),
                self.spec_end_reason(),
                evs_now[0],
            );
            let ghost rem_old = run_events_spec(
                info0,
                node0,
                self.muted(),
                self.spec_end_reason(),
                evs_now,
            );
            let ghost sv_before = din_work@;
            let pkt = din_work.remove(0);
            proof {
                assert(dv_now[0] == pkt@);
                assert(evs_now[0] == RelayEventV::ClientPacket { pkt: pkt@ });
                assert(din_work@ =~= sv_before.subrange(1, sv_before.len() as int));
                assert forall|k: int|
                    0 <= k < din_work.deep_view().len()
                        implies din_work.deep_view()[k] == dv_now.drop_first()[k] by {
                    assert(din_work@[k] == sv_before[k + 1]);
                }
                assert(din_work.deep_view() =~= dv_now.drop_first());
                assert(client_events(din_work.deep_view()) =~= evs_now.drop_first());
            }
            let ghost out_before = outputs.deep_view();
            let (mut outs, exit) = self.handle_event(RelayEvent::ClientPacket { pkt });
            outputs.append(&mut outs);
            proof {
                assert(outputs.deep_view() =~= out_before + st.outputs);
            }
            match exit {
                Some(x) => {
                    proof {
                        assert(rem_old.outputs == st.outputs);
                        assert(outputs.deep_view() =~= base1 + replay.outputs);
                        assert(replay.exit == rem_old.exit);
                        assert(rem_old.exit == st.exit);
                        assert(st.exit == Some(x));
                        assert(replay.muted == st.muted);
                        assert(self.muted() == st.muted);
                        assert(replay.end == st.end);
                        assert(self.spec_end_reason() == st.end);
                        assert(t.outputs == base1 + replay.outputs);
                        assert(outputs.deep_view() == t.outputs);
                        assert(t.exit == replay.exit);
                        assert(t.muted == replay.muted);
                        assert(t.end == replay.end);
                    }
                    return (outputs, Some(x));
                },
                None => {
                    proof {
                        let rem_new = run_events_spec(
                            info0,
                            node0,
                            self.muted(),
                            self.spec_end_reason(),
                            client_events(din_work.deep_view()),
                        );
                        assert(rem_old.outputs == st.outputs + rem_new.outputs);
                        assert(outputs.deep_view() + rem_new.outputs =~= base1 + replay.outputs);
                    }
                },
            }
        }
        let ghost muted2 = self.muted();
        let ghost end2 = self.spec_end_reason();
        proof {
            assert(client_events(din_work.deep_view()).len() == 0);
            let rem = run_events_spec(
                info0,
                node0,
                self.muted(),
                self.spec_end_reason(),
                client_events(din_work.deep_view()),
            );
            assert(rem.outputs =~= Seq::<OutputV>::empty());
            assert(outputs.deep_view() =~= base1 + replay.outputs);
            assert(replay.exit is None);
            assert(replay.muted == muted2);
            assert(replay.end == end2);
        }
        let ghost base2 = outputs.deep_view();
        let mut dout_work = deferred_out_packets;
        let ghost mut j2: int = 0;
        proof {
            assert(dout.skip(0) =~= dout);
            assert(base2 + replay_out_spec(muted2, dout.take(0)) =~= base2);
        }
        while dout_work.len() > 0
            invariant
                self.wf(),
                self.info == old(self).info,
                self.node == old(self).node,
                self.muted() == muted2,
                self.spec_end_reason() == end2,
                0 <= j2 <= dout.len(),
                dout_work.deep_view() == dout.skip(j2),
                outputs.deep_view() == base2 + replay_out_spec(muted2, dout.take(j2)),
            decreases dout_work.len(),
        {
            let ghost dv_before = dout_work.deep_view();
            let ghost sv_before = dout_work@;
            let pkt = dout_work.remove(0);
            proof {
                assert(dv_before[0] == pkt@);
                assert(dv_before == dout.skip(j2));
                assert(dv_before.len() > 0);
                assert(j2 < dout.len());
                assert(dout.skip(j2)[0] == dout[j2]);
                assert(pkt@ == dout[j2]);
            }
            let mut outs = self.handle_incoming_w3gs(pkt);
            let ghost outs_dv = outs.deep_view();
            let ghost out_before = outputs.deep_view();
            outputs.append(&mut outs);
            proof {
                assert(dout.take(j2 + 1).drop_last() =~= dout.take(j2));
                assert(dout.take(j2 + 1).last() == dout[j2]);
                assert(outs_dv == incoming_outputs(muted2, dout[j2]));
                assert(outputs.deep_view() =~= out_before + outs_dv);
                assert(outputs.deep_view() =~= base2 + replay_out_spec(muted2, dout.take(j2 + 1)));
                assert(dout_work@ =~= sv_before.subrange(1, sv_before.len() as int));
                assert forall|k: int|
                    0 <= k < dout_work.deep_view().len()
                        implies dout_work.deep_view()[k] == dout.skip(j2 + 1)[k] by {
                    assert(dout_work@[k] == sv_before[k + 1]);
                    assert(dout.skip(j2)[k + 1] == dout[j2 + 1 + k]);
                    assert(dout.skip(j2 + 1)[k] == dout[j2 + 1 + k]);
                }
                assert(dout_work.deep_view() =~= dout.skip(j2 + 1));
            }
            proof {
                j2 = j2 + 1;
            }
        }
        proof {
            assert(dout.take(dout.len() as int) =~= dout);
        }
        let ghost pre = outputs.deep_view();
        let ghost tail = run_events_spec(info0, node0, muted2, end2, evs);
        let mut events_work = events;
        proof {
            assert(pre =~= base1 + replay.outputs + replay_out_spec(muted2, dout));
            assert(t.outputs == pre + tail.outputs);
            assert(t.exit == tail.exit);
            assert(t.muted == tail.muted);
            assert(t.end == tail.end);
        }
        while events_work.len() > 0
            invariant
                self.wf(),
                self.info == old(self).info,
                self.node == old(self).node,
                info0 == self.info@,
                node0 == self.node@,
                t == run_spec(
                    old(self).info@,
                    old(self).node@,
                    old(self).muted(),
                    old(self).spec_end_reason(),
                    mute_list@,
                    deferred_in_packets.deep_view(),
                    deferred_out_packets.deep_view(),
                    events.deep_view(),
                ),
                t.outputs == pre + tail.outputs,
                t.exit == tail.exit,
                t.muted == tail.muted,
                t.end == tail.end,
                ({
                    let rem = run_events_spec(
                        info0,
                        node0,
                        self.muted(),
                        self.spec_end_reason(),
                        events_work.deep_view(),
                    );
                    &&& pre + tail.outputs == outputs.deep_view() + rem.outputs
                    &&& tail.exit == rem.exit
                    &&& tail.muted == rem.muted
                    &&& tail.end == rem.end
                }),
            decreases events_work.len(),
        {
            let ghost evs_now = events_work.deep_view();
            let ghost st = event_spec(
                info0,
                node0,
                self.muted(),
                self.spec_end_reason(),
                evs_now[0],
            );
            let ghost rem_old = run_events_spec(
                info0,
                node0,
                self.muted(),
                self.spec_end_reason(),
                evs_now,
            );
            let ghost sv_before = events_work@;
            let ev = events_work.remove(0);
            proof {
                assert(evs_now[0] == ev@);
                assert(events_work@ =~= sv_before.subrange(1, sv_before.len() as int));
                assert forall|k: int|
                    0 <= k < events_work.deep_view().len()
                        implies events_work.deep_view()[k] == evs_now.drop_first()[k] by {
                    assert(events_work@[k] == sv_before[k + 1]);
                }
                assert(events_work.deep_view() =~= evs_now.drop_first());
            }
            let ghost out_before = outputs.deep_view();
            let (mut outs, exit) = self.handle_event(ev);
            outputs.append(&mut outs);
            proof {
                assert(outputs.deep_view() =~= out_before + st.outputs);
            }
            match exit {
                Some(x) => {
                    proof {
                        assert(rem_old.outputs == st.outputs);
                        assert(outputs.deep_view() =~= pre + tail.outputs);
                        assert(tail.exit == rem_old.exit);
                        assert(rem_old.exit == st.exit);
                        assert(st.exit == Some(x));
                        assert(tail.muted == st.muted);
                        assert(self.muted() == st.muted);
                        assert(tail.end == st.end);
                        assert(self.spec_end_reason() == st.end);
                        assert(outputs.deep_view() == t.outputs);
                        assert(Some(x) == t.exit);
                        assert(self.muted() == t.muted);
                        assert(self.spec_end_reason() == t.end);
                    }
                    return (outputs, Some(x));
                },
                None => {
                    proof {
                        let rem_new = run_events_spec(
                            info0,
                            node0,
                            self.muted(),
                            self.spec_end_reason(),
                            events_work.deep_view(),
                        );
                        assert(rem_old.outputs == st.outputs + rem_new.outputs);
                        assert(outputs.deep_view() + rem_new.outputs =~= pre + tail.outputs);
                    }
                },
            }
        }
        proof {
            let rem = run_events_spec(
                info0,
                node0,
                self.muted(),
                self.spec_end_reason(),
                events_work.deep_view(),
            );
            assert(rem.outputs =~= Seq::<OutputV>::empty());
            assert(outputs.deep_view() =~= pre + tail.outputs);
        }
        (outputs, None)
    }
}

} // verus!
