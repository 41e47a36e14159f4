//! The session's immutable data: game metadata, the slot array, the players
//! present, and the node the game runs on, together with their views and
//! well-formedness.

use vstd::prelude::*;

verus! {

/// A player present in the game, keyed by the 1-based slot player id.
pub struct PlayerInfo {
    pub slot_player_id: u8,
    pub slot_index: usize,
    pub player_id: i32,
    pub name: String,
}

#[verifier::ext_equal]
pub struct PlayerInfoV {
    pub slot_player_id: u8,
    pub slot_index: usize,
    pub player_id: i32,
    pub name: Seq<char>,
}

impl View for PlayerInfo {
    type V = PlayerInfoV;

    open spec fn view(&self) -> PlayerInfoV {
        PlayerInfoV {
            slot_player_id: self.slot_player_id,
            slot_index: self.slot_index,
            player_id: self.player_id,
            name: self.name@,
        }
    }
}

impl DeepView for PlayerInfo {
    type V = PlayerInfoV;

    open spec fn deep_view(&self) -> PlayerInfoV {
        self@
    }
}

/// One slot of the game's slot array.
pub struct Slot {
    pub player_name: Option<String>,
    pub team: i32,
    pub race: u32,
}

#[verifier::ext_equal]
pub struct SlotV {
    pub player_name: Option<Seq<char>>,
    pub team: i32,
    pub race: u32,
}

impl View for Slot {
    type V = SlotV;

    open spec fn view(&self) -> SlotV {
        SlotV {
            player_name: match self.player_name {
                Some(ref n) => Some(n@),
                None => None,
            },
            team: self.team,
            race: self.race,
        }
    }
}

impl DeepView for Slot {
    type V = SlotV;

    open spec fn deep_view(&self) -> SlotV {
        self@
    }
}

/// Game metadata, immutable for the session.
pub struct GameInfo {
    pub game_id: i32,
    pub name: String,
    pub slots: Vec<Slot>,
}

#[verifier::ext_equal]
pub struct GameInfoV {
    pub game_id: i32,
    pub name: Seq<char>,
    pub slots: Seq<SlotV>,
}

impl View for GameInfo {
    type V = GameInfoV;

    open spec fn view(&self) -> GameInfoV {
        GameInfoV { game_id: self.game_id, name: self.name@, slots: self.slots.deep_view() }
    }
}

/// Which slot is ours, which team we are on, and who else is present.
pub struct SlotInfo {
    pub my_slot_player_id: u8,
    pub my_team: i32,
    pub player_infos: Vec<PlayerInfo>,
}

#[verifier::ext_equal]
pub struct SlotInfoV {
    pub my_slot_player_id: u8,
    pub my_team: i32,
    pub player_infos: Seq<PlayerInfoV>,
}

impl View for SlotInfo {
    type V = SlotInfoV;

    open spec fn view(&self) -> SlotInfoV {
        SlotInfoV {
            my_slot_player_id: self.my_slot_player_id,
            my_team: self.my_team,
            player_infos: self.player_infos.deep_view(),
        }
    }
}

/// Everything the relay knows about the session it bridges.
pub struct LanGameInfo {
    pub game: GameInfo,
    pub slot_info: SlotInfo,
}

#[verifier::ext_equal]
pub struct LanGameInfoV {
    pub game: GameInfoV,
    pub slot_info: SlotInfoV,
}

impl View for LanGameInfo {
    type V = LanGameInfoV;

    open spec fn view(&self) -> LanGameInfoV {
        LanGameInfoV { game: self.game@, slot_info: self.slot_info@ }
    }
}

impl LanGameInfoV {
    /// Slot player ids are 1 to 12 and unique, our own id is in range, and
    /// every player's slot index points into the slot array.
    pub open spec fn wf(self) -> bool {
        &&& 1 <= self.slot_info.my_slot_player_id <= 12
        &&& forall|i: int|
            0 <= i < self.slot_info.player_infos.len() ==> {
                &&& 1 <= (#[trigger] self.slot_info.player_infos[i]).slot_player_id <= 12
                &&& self.slot_info.player_infos[i].slot_index < self.game.slots.len()
            }
        &&& forall|i: int, j: int|
            0 <= i < j < self.slot_info.player_infos.len()
                ==> (#[trigger] self.slot_info.player_infos[i]).slot_player_id != (
            #[trigger] self.slot_info.player_infos[j]).slot_player_id
    }
}

impl LanGameInfo {
    /// Decide the data-model validity that the relay's operations assume,
    /// so an unverified caller can test it before handing the session in.
    pub fn is_well_formed(&self) -> (r: bool)
        ensures
            r == self@.wf(),
    {
        let me = self.slot_info.my_slot_player_id;
        if !(1 <= me && me <= 12) {
            return false;
        }
        let n = self.slot_info.player_infos.len();
        let ghost dv = self.slot_info.player_infos.deep_view();
        let mut i: usize = 0;
        while i < n
            invariant
                n == self.slot_info.player_infos.len(),
                dv == self.slot_info.player_infos.deep_view(),
                dv.len() == n,
                forall|k: int| 0 <= k < n ==> dv[k] == self.slot_info.player_infos@[k]@,
                i <= n,
                forall|k: int|
                    0 <= k < i ==> {
                        &&& 1 <= (#[trigger] dv[k]).slot_player_id <= 12
                        &&& dv[k].slot_index < self.game.slots@.len()
                    },
            decreases n - i,
        {
            let slot = self.slot_info.player_infos[i].slot_player_id;
            let idx = self.slot_info.player_infos[i].slot_index;
            if !(1 <= slot && slot <= 12) || idx >= self.game.slots.len() {
                proof {
                    assert(dv[i as int] == self.slot_info.player_infos@[i as int]@);
                    assert(self@.slot_info.player_infos[i as int] == dv[i as int]);
                    assert(!self@.wf());
                }
                return false;
            }
            i = i + 1;
        }
        let mut a: usize = 0;
        while a < n
            invariant
                n == self.slot_info.player_infos.len(),
                dv == self.slot_info.player_infos.deep_view(),
                dv.len() == n,
                forall|k: int| 0 <= k < n ==> dv[k] == self.slot_info.player_infos@[k]@,
                a <= n,
                forall|x: int, y: int|
                    0 <= x < y < n && x < a ==> (#[trigger] dv[x]).slot_player_id != (
                    #[trigger] dv[y]).slot_player_id,
            decreases n - a,
        {
            let mut b: usize = a + 1;
            while b < n
                invariant
                    n == self.slot_info.player_infos.len(),
                    dv == self.slot_info.player_infos.deep_view(),
                    dv.len() == n,
                    forall|k: int| 0 <= k < n ==> dv[k] == self.slot_info.player_infos@[k]@,
                    a < n,
                    a + 1 <= b <= n,
                    forall|x: int, y: int|
                        0 <= x < y < n && x < a ==> (#[trigger] dv[x]).slot_player_id != (
                        #[trigger] dv[y]).slot_player_id,
                    forall|y: int|
                        a < y < b ==> dv[a as int].slot_player_id != (
                        #[trigger] dv[y]).slot_player_id,
                decreases n - b,
            {
                if self.slot_info.player_infos[a].slot_player_id == self.slot_info.player_infos[
                    b].slot_player_id {
                    proof {
                        assert(self@.slot_info.player_infos[a as int] == dv[a as int]);
                        assert(self@.slot_info.player_infos[b as int] == dv[b as int]);
                        assert(!self@.wf());
                    }
                    return false;
                }
                b = b + 1;
            }
            a = a + 1;
        }
        proof {
            assert(self@.wf());
        }
        true
    }
}

/// The node hosting the authoritative game.
pub struct NodeInfo {
    pub id: i32,
    pub name: String,
    pub location: String,
    pub country_id: String,
}

#[verifier::ext_equal]
pub struct NodeInfoV {
    pub id: i32,
    pub name: Seq<char>,
    pub location: Seq<char>,
    pub country_id: Seq<char>,
}

impl View for NodeInfo {
    type V = NodeInfoV;

    open spec fn view(&self) -> NodeInfoV {
        NodeInfoV {
            id: self.id,
            name: self.name@,
            location: self.location@,
            country_id: self.country_id@,
        }
    }
}

/// The node-reported game status, observed through a latched watch channel.
#[derive(Clone, Copy, PartialEq, Eq, Structural, Debug)]
pub enum NodeGameStatus {
    Created,
    Waiting,
    Loading,
    Running,
    Ended,
}

/// Why the in-game session ended, kept for the caller past the relay's
/// return.
#[derive(Clone, Copy, PartialEq, Eq, Structural, Debug)]
pub enum GameEndReason {
    LeaveReq { reason: u32 },
}

} // verus!
