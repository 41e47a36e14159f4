//! The packets the relay handles, modeled as already-framed values: the
//! relay decodes only the few kinds it acts on and treats the rest as
//! opaque payloads behind their type id.

use vstd::prelude::*;

verus! {

/// The chat kinds the relay distinguishes: scoped chat is addressed to a
/// chosen subset of players and is the only kind subject to muting; all
/// other chat passes unfiltered.
pub enum ChatMessage {
    Scoped { text: String },
    Broadcast { text: String },
}

#[verifier::ext_equal]
pub enum ChatMessageV {
    Scoped { text: Seq<char> },
    Broadcast { text: Seq<char> },
}

impl View for ChatMessage {
    type V = ChatMessageV;

    open spec fn view(&self) -> ChatMessageV {
        match self {
            ChatMessage::Scoped { text } => ChatMessageV::Scoped { text: text@ },
            ChatMessage::Broadcast { text } => ChatMessageV::Broadcast { text: text@ },
        }
    }
}

/// The sender, the addressed slots, and the message of a chat packet.
pub struct ChatBody {
    pub from_player: u8,
    pub to_players: Vec<u8>,
    pub message: ChatMessage,
}

#[verifier::ext_equal]
pub struct ChatBodyV {
    pub from_player: u8,
    pub to_players: Seq<u8>,
    pub message: ChatMessageV,
}

impl View for ChatBody {
    type V = ChatBodyV;

    open spec fn view(&self) -> ChatBodyV {
        ChatBodyV {
            from_player: self.from_player,
            to_players: self.to_players@,
            message: self.message@,
        }
    }
}

/// A W3GS frame, decoded as far as the relay needs; every kind it does not
/// act on is carried opaquely under `Other`.
pub enum Packet {
    PingFromHost { payload: u32 },
    PongToHost { payload: u32 },
    ChatFromHost { body: ChatBody },
    ChatToHost { body: ChatBody },
    OutgoingKeepAlive { data: Vec<u8> },
    OutgoingAction { data: Vec<u8> },
    DropReq,
    LeaveReq { reason: u32 },
    LeaveAck,
    Other { type_id: u8, data: Vec<u8> },
}

#[verifier::ext_equal]
pub enum PacketV {
    PingFromHost { payload: u32 },
    PongToHost { payload: u32 },
    ChatFromHost { body: ChatBodyV },
    ChatToHost { body: ChatBodyV },
    OutgoingKeepAlive { data: Seq<u8> },
    OutgoingAction { data: Seq<u8> },
    DropReq,
    LeaveReq { reason: u32 },
    LeaveAck,
    Other { type_id: u8, data: Seq<u8> },
}

impl View for Packet {
    type V = PacketV;

    open spec fn view(&self) -> PacketV {
        match self {
            Packet::PingFromHost { payload } => PacketV::PingFromHost { payload: *payload },
            Packet::PongToHost { payload } => PacketV::PongToHost { payload: *payload },
            Packet::ChatFromHost { body } => PacketV::ChatFromHost { body: body@ },
            Packet::ChatToHost { body } => PacketV::ChatToHost { body: body@ },
            Packet::OutgoingKeepAlive { data } => PacketV::OutgoingKeepAlive { data: data@ },
            Packet::OutgoingAction { data } => PacketV::OutgoingAction { data: data@ },
            Packet::DropReq => PacketV::DropReq,
            Packet::LeaveReq { reason } => PacketV::LeaveReq { reason: *reason },
            Packet::LeaveAck => PacketV::LeaveAck,
            Packet::Other { type_id, data } => PacketV::Other { type_id: *type_id, data: data@ },
        }
    }
}

impl DeepView for Packet {
    type V = PacketV;

    open spec fn deep_view(&self) -> PacketV {
        self@
    }
}

/// The host-originated private chat the relay synthesises towards its own
/// slot: scoped, from us, addressed to us alone.
pub open spec fn private_to_self_spec(player_id: u8, text: Seq<char>) -> PacketV {
    PacketV::ChatFromHost {
        body: ChatBodyV {
            from_player: player_id,
            to_players: seq![player_id],
            message: ChatMessageV::Scoped { text },
        },
    }
}

/// Build the private-to-self chat packet for a synthesised reply line.
pub fn private_to_self(player_id: u8, text: String) -> (r: Packet)
    ensures
        r@ == private_to_self_spec(player_id, text@),
{
    let mut to_players: Vec<u8> = Vec::new();
    to_players.push(player_id);
    proof {
        assert(to_players@ =~= seq![player_id]);
    }
    Packet::ChatFromHost {
        body: ChatBody { from_player: player_id, to_players, message: ChatMessage::Scoped { text } },
    }
}

} // verus!
