//! The per-session mute policy: which peer slots are muted, the bulk
//! operations over the players present, and the scoped-chat drop decision.
//! The muted slots form a set; it is held as a duplicate-free list, and our
//! own slot is never in it.

use crate::game::PlayerInfo;
use crate::game::PlayerInfoV;
use crate::game::Slot;
use crate::game::SlotV;
use crate::packet::ChatMessage;
use crate::packet::ChatMessageV;
use vstd::prelude::*;

verus! {

pub open spec fn no_dup(s: Seq<u8>) -> bool {
    forall|i: int, j: int| 0 <= i < j < s.len() ==> s[i] != s[j]
}

/// Muting `x`: a no-op for our own slot or one already muted, else added.
pub open spec fn mute_spec(s: Seq<u8>, me: u8, x: u8) -> Seq<u8> {
    if x == me || s.contains(x) {
        s
    } else {
        s.push(x)
    }
}

/// Unmuting `x`: the first occurrence of `x` removed, if any.
pub open spec fn remove_val(s: Seq<u8>, x: u8) -> Seq<u8>
    decreases s.len(),
{
    if s.len() == 0 {
        s
    } else if s[0] == x {
        s.drop_first()
    } else {
        seq![s[0]] + remove_val(s.drop_first(), x)
    }
}

pub proof fn lemma_remove_val_absent(s: Seq<u8>, x: u8)
    requires
        !s.contains(x),
    ensures
        remove_val(s, x) == s,
    decreases s.len(),
{
    if s.len() > 0 {
        assert(s[0] != x);
        assert(!s.drop_first().contains(x)) by {
            if s.drop_first().contains(x) {
                let i = choose|i: int| 0 <= i < s.drop_first().len() && s.drop_first()[i] == x;
                assert(s[i + 1] == x);
            }
        }
        lemma_remove_val_absent(s.drop_first(), x);
        assert(seq![s[0]] + s.drop_first() =~= s);
    }
}

pub proof fn lemma_remove_val_found(s: Seq<u8>, x: u8, i: int)
    requires
        0 <= i < s.len(),
        s[i] == x,
        forall|j: int| 0 <= j < i ==> s[j] != x,
    ensures
        remove_val(s, x) == s.take(i) + s.skip(i + 1),
    decreases i,
{
    if i == 0 {
        assert(remove_val(s, x) == s.drop_first());
        assert(s.take(0) + s.skip(1) =~= s.drop_first());
    } else {
        assert(s[0] != x);
        lemma_remove_val_found(s.drop_first(), x, i - 1);
        assert(seq![s[0]] + (s.drop_first().take(i - 1) + s.drop_first().skip(i)) =~= s.take(i)
            + s.skip(i + 1));
    }
}

/// Removal from a duplicate-free list takes exactly the removed value out.
pub proof fn lemma_remove_val_props(s: Seq<u8>, x: u8)
    requires
        no_dup(s),
    ensures
        no_dup(remove_val(s, x)),
        forall|y: u8| remove_val(s, x).contains(y) <==> (s.contains(y) && y != x),
        remove_val(s, x).len() == if s.contains(x) {
            s.len() - 1
        } else {
            s.len() as int
        },
{
    if !s.contains(x) {
        lemma_remove_val_absent(s, x);
        assert forall|y: u8| s.contains(y) <==> (s.contains(y) && y != x) by {
            if s.contains(y) && y == x {
                assert(s.contains(x));
            }
        }
    } else {
        let i = choose|i: int| 0 <= i < s.len() && s[i] == x;
        assert(forall|j: int| 0 <= j < i ==> s[j] != x) by {
            assert(forall|j: int| 0 <= j < i ==> s[j] != s[i]);
        }
        lemma_remove_val_found(s, x, i);
        let r = s.take(i) + s.skip(i + 1);
        assert(forall|k: int|
            0 <= k < r.len() ==> r[k] == if k < i {
                s[k]
            } else {
                s[k + 1]
            });
        assert forall|y: u8| r.contains(y) <==> (s.contains(y) && y != x) by {
            if r.contains(y) {
                let k = choose|k: int| 0 <= k < r.len() && r[k] == y;
                if k < i {
                    assert(s[k] == y);
                    assert(s[k] != s[i]);
                } else {
                    assert(s[k + 1] == y);
                    assert(s[k + 1] != s[i]);
                }
            }
            if s.contains(y) && y != x {
                let m = choose|m: int| 0 <= m < s.len() && s[m] == y;
                if m < i {
                    assert(r[m] == y);
                } else {
                    assert(m != i);
                    assert(r[m - 1] == y);
                }
            }
        }
    }
}

/// Session mute state: our own slot id and the muted peer slots.
pub struct MutePolicy {
    my_slot_player_id: u8,
    muted: Vec<u8>,
}

impl View for MutePolicy {
    type V = Seq<u8>;

    closed spec fn view(&self) -> Seq<u8> {
        self.muted@
    }
}

impl MutePolicy {
    /// Our own slot player id, which is never muted.
    pub closed spec fn me(&self) -> u8 {
        self.my_slot_player_id
    }

    /// The muted list holds no duplicates and never our own slot.
    pub open spec fn wf(&self) -> bool {
        no_dup(self@) && !self@.contains(self.me())
    }

    pub fn new(my_slot_player_id: u8) -> (r: MutePolicy)
        ensures
            r.wf(),
            r.me() == my_slot_player_id,
            r@ == Seq::<u8>::empty(),
    {
        let r = MutePolicy { my_slot_player_id, muted: Vec::new() };
        proof {
            assert(r@ =~= Seq::<u8>::empty());
        }
        r
    }

    pub fn my_slot(&self) -> (r: u8)
        ensures
            r == self.me(),
    {
        self.my_slot_player_id
    }

    pub fn is_muted(&self, x: u8) -> (r: bool)
        ensures
            r == self@.contains(x),
    {
        let mut i: usize = 0;
        while i < self.muted.len()
            invariant
                i <= self.muted.len(),
                self@ == self.muted@,
                forall|k: int| 0 <= k < i ==> self.muted@[k] != x,
            decreases self.muted.len() - i,
        {
            if self.muted[i] == x {
                return true;
            }
            i = i + 1;
        }
        false
    }

    pub fn is_empty(&self) -> (r: bool)
        ensures
            r == (self@.len() == 0),
    {
        self.muted.len() == 0
    }

    pub fn count(&self) -> (r: usize)
        ensures
            r == self@.len(),
    {
        self.muted.len()
    }

    /// The muted slots, in the order they were muted.
    pub fn listed(&self) -> (r: &Vec<u8>)
        ensures
            r@ == self@,
    {
        &self.muted
    }

    /// Mute a peer slot; our own slot and already-muted slots are left as
    /// they are.
    pub fn mute(&mut self, x: u8)
        requires
            old(self).wf(),
        ensures
            final (self).wf(),
            final (self).me() == old(self).me(),
            final (self)@ == mute_spec(old(self)@, old(self).me(), x),
    {
        if x == self.my_slot_player_id {
            return ;
        }
        if self.is_muted(x) {
            return ;
        }
        proof {
            assert(forall|i: int| 0 <= i < self@.len() ==> self@[i] != x);
        }
        self.muted.push(x);
    }

    /// Unmute a peer slot; absent slots are left as they are.
    pub fn unmute(&mut self, x: u8)
        requires
            old(self).wf(),
        ensures
            final (self).wf(),
            final (self).me() == old(self).me(),
            final (self)@ == remove_val(old(self)@, x),
    {
        let mut i: usize = 0;
        while i < self.muted.len()
            invariant
                i <= self.muted.len(),
                self == old(self),
                old(self).wf(),
                forall|k: int| 0 <= k < i ==> self.muted@[k] != x,
            decreases self.muted.len() - i,
        {
            if self.muted[i] == x {
                proof {
                    lemma_remove_val_found(self.muted@, x, i as int);
                    lemma_remove_val_props(self.muted@, x);
                }
                self.muted.remove(i);
                proof {
                    assert(self.muted@ =~= old(self).muted@.take(i as int) + old(
                        self,
                    ).muted@.skip(i as int + 1));
                }
                return ;
            }
            i = i + 1;
        }
        proof {
            assert(!self.muted@.contains(x));
            lemma_remove_val_absent(self.muted@, x);
        }
    }

    /// Clear the whole mute set.
    pub fn unmute_all(&mut self)
        ensures
            final (self).wf(),
            final (self).me() == old(self).me(),
            final (self)@ == unmute_all_spec(old(self)@),
    {
        self.muted.clear();
        proof {
            assert(self.muted@ =~= Seq::<u8>::empty());
        }
    }

    /// Mute every player slot but our own.
    pub fn mute_all_others(&mut self, players: &Vec<PlayerInfo>)
        requires
            old(self).wf(),
        ensures
            final (self).wf(),
            final (self).me() == old(self).me(),
            final (self)@ == mute_all_spec(old(self)@, old(self).me(), players.deep_view()),
    {
        let ghost dv = players.deep_view();
        let ghost s0 = self@;
        let mut i: usize = 0;
        proof {
            assert(dv.take(0) =~= Seq::<PlayerInfoV>::empty());
        }
        while i < players.len()
            invariant
                i <= players.len(),
                dv == players.deep_view(),
                dv.len() == players.len(),
                forall|k: int| 0 <= k < players.len() ==> dv[k] == players@[k]@,
                self.wf(),
                self.me() == old(self).me(),
                self@ == mute_all_spec(s0, old(self).me(), dv.take(i as int)),
            decreases players.len() - i,
        {
            self.mute(players[i].slot_player_id);
            proof {
                assert(dv.take(i + 1).drop_last() =~= dv.take(i as int));
                assert(dv.take(i + 1).last() == dv[i as int]);
            }
            i = i + 1;
        }
        proof {
            assert(dv.take(players.len() as int) =~= dv);
        }
    }

    /// Mute every player slot on a team other than ours.
    pub fn mute_opponents(&mut self, players: &Vec<PlayerInfo>, slots: &Vec<Slot>, my_team: i32)
        requires
            old(self).wf(),
            forall|k: int|
                0 <= k < players.deep_view().len() ==> (#[trigger] players.deep_view()[k]).slot_index
                    < slots.deep_view().len(),
        ensures
            final (self).wf(),
            final (self).me() == old(self).me(),
            final (self)@ == mute_opps_spec(
                old(self)@,
                old(self).me(),
                players.deep_view(),
                slots.deep_view(),
                my_team,
            ),
    {
        let ghost dv = players.deep_view();
        let ghost sv = slots.deep_view();
        let ghost s0 = self@;
        let mut i: usize = 0;
        proof {
            assert(dv.take(0) =~= Seq::<PlayerInfoV>::empty());
        }
        while i < players.len()
            invariant
                i <= players.len(),
                dv == players.deep_view(),
                sv == slots.deep_view(),
                dv.len() == players.len(),
                sv.len() == slots.len(),
                forall|k: int| 0 <= k < players.len() ==> dv[k] == players@[k]@,
                forall|k: int| 0 <= k < slots.len() ==> sv[k] == slots@[k]@,
                forall|k: int| 0 <= k < dv.len() ==> (#[trigger] dv[k]).slot_index < sv.len(),
                self.wf(),
                self.me() == old(self).me(),
                self@ == mute_opps_spec(s0, old(self).me(), dv.take(i as int), sv, my_team),
            decreases players.len() - i,
        {
            proof {
                assert(dv[i as int] == players@[i as int]@);
                assert(dv[i as int].slot_index < sv.len());
            }
            let idx = players[i].slot_index;
            if slots[idx].team != my_team {
                self.mute(players[i].slot_player_id);
            }
            proof {
                assert(dv.take(i + 1).drop_last() =~= dv.take(i as int));
                assert(dv.take(i + 1).last() == dv[i as int]);
            }
            i = i + 1;
        }
        proof {
            assert(dv.take(players.len() as int) =~= dv);
        }
    }

    /// Scoped chat from a muted sender is dropped; everything else passes.
    pub fn should_drop_chat(&self, from_slot_player_id: u8, message: &ChatMessage) -> (r: bool)
        ensures
            r == should_drop_spec(self@, from_slot_player_id, message@),
    {
        match message {
            ChatMessage::Scoped { .. } => self.is_muted(from_slot_player_id),
            ChatMessage::Broadcast { .. } => false,
        }
    }
}

/// Clearing the mute set leaves nothing muted, whatever was.
pub open spec fn unmute_all_spec(s: Seq<u8>) -> Seq<u8> {
    Seq::empty()
}

/// Muting every listed player slot but our own, in list order.
pub open spec fn mute_all_spec(s: Seq<u8>, me: u8, players: Seq<PlayerInfoV>) -> Seq<u8>
    decreases players.len(),
{
    if players.len() == 0 {
        s
    } else {
        mute_spec(mute_all_spec(s, me, players.drop_last()), me, players.last().slot_player_id)
    }
}

/// Muting every listed player slot whose team is not ours, in list order.
pub open spec fn mute_opps_spec(
    s: Seq<u8>,
    me: u8,
    players: Seq<PlayerInfoV>,
    slots: Seq<SlotV>,
    my_team: i32,
) -> Seq<u8>
    decreases players.len(),
{
    if players.len() == 0 {
        s
    } else {
        let prev = mute_opps_spec(s, me, players.drop_last(), slots, my_team);
        if slots[players.last().slot_index as int].team != my_team {
            mute_spec(prev, me, players.last().slot_player_id)
        } else {
            prev
        }
    }
}

/// Only scoped chat from a muted sender is dropped.
pub open spec fn should_drop_spec(muted: Seq<u8>, from: u8, m: ChatMessageV) -> bool {
    m is Scoped && muted.contains(from)
}

/// Muting twice is the same as muting once.
pub proof fn lemma_mute_idempotent(s: Seq<u8>, me: u8, x: u8)
    ensures
        mute_spec(mute_spec(s, me, x), me, x) == mute_spec(s, me, x),
{
    if x != me && !s.contains(x) {
        assert(s.push(x)[s.len() as int] == x);
        assert(s.push(x).contains(x));
    }
}

/// Unmuting after muting restores the state that was there before, for a
/// slot that was not muted to begin with.
pub proof fn lemma_mute_then_unmute(s: Seq<u8>, me: u8, x: u8)
    requires
        !s.contains(x),
    ensures
        remove_val(mute_spec(s, me, x), x) == s,
    decreases s.len(),
{
    if x == me {
        lemma_remove_val_absent(s, x);
    } else {
        lemma_push_then_remove(s, x);
    }
}

proof fn lemma_push_then_remove(s: Seq<u8>, x: u8)
    requires
        !s.contains(x),
    ensures
        remove_val(s.push(x), x) == s,
    decreases s.len(),
{
    if s.len() == 0 {
        assert(s.push(x)[0] == x);
        assert(s.push(x).drop_first() =~= s);
    } else {
        assert(s[0] != x);
        assert(s.push(x)[0] == s[0]);
        assert(s.push(x).drop_first() =~= s.drop_first().push(x));
        assert(!s.drop_first().contains(x)) by {
            if s.drop_first().contains(x) {
                let i = choose|i: int| 0 <= i < s.drop_first().len() && s.drop_first()[i] == x;
                assert(s[i + 1] == x);
            }
        }
        lemma_push_then_remove(s.drop_first(), x);
        assert(seq![s[0]] + s.drop_first() =~= s);
    }
}

/// Muting everyone and then unmuting everyone restores an initially empty
/// mute state.
pub proof fn lemma_mute_all_then_unmute_all(s: Seq<u8>, me: u8, players: Seq<PlayerInfoV>)
    requires
        s.len() == 0,
    ensures
        unmute_all_spec(mute_all_spec(s, me, players)) == s,
{
    assert(unmute_all_spec(mute_all_spec(s, me, players)) =~= s);
}

/// Our own slot is never muted, in any well-formed state.
pub proof fn lemma_never_self_muted(p: &MutePolicy)
    requires
        p.wf(),
    ensures
        !p@.contains(p.me()),
{
}

} // verus!
