//! The authoritative action-tick clock: a non-restartable sequence of ticks
//! at a clamped, adjustable cadence, with pause/resume and an atomic drain
//! of the pending player actions. Time enters as an explicit millisecond
//! reading; the owning loop sleeps until the armed deadline and polls.

use vstd::prelude::*;

verus! {

/// One player's buffered game action.
pub struct PlayerAction {
    pub player_id: u8,
    pub data: Vec<u8>,
}

#[verifier::ext_equal]
pub struct PlayerActionV {
    pub player_id: u8,
    pub data: Seq<u8>,
}

impl View for PlayerAction {
    type V = PlayerActionV;

    open spec fn view(&self) -> PlayerActionV {
        PlayerActionV { player_id: self.player_id, data: self.data@ }
    }
}

impl DeepView for PlayerAction {
    type V = PlayerActionV;

    open spec fn deep_view(&self) -> PlayerActionV {
        self@
    }
}

/// One quantum of the simulation clock: the time advance and the actions
/// batched for it.
pub struct Tick {
    pub time_increment_ms: u16,
    pub actions: Vec<PlayerAction>,
}

pub const MIN_STEP: u16 = 15;

pub const MAX_STEP: u16 = 250;

/// A step request clamped into `[MIN_STEP, MAX_STEP]`.
pub open spec fn clamp_step(v: u16) -> u16 {
    if v < MIN_STEP {
        MIN_STEP
    } else if v > MAX_STEP {
        MAX_STEP
    } else {
        v
    }
}

/// How late the poll came past the deadline, saturated to a `u16`.
pub open spec fn overshoot_ms(deadline: u64, now: u64) -> u16 {
    if now - deadline > 65535 {
        65535u16
    } else {
        (now - deadline) as u16
    }
}

/// The tick's time advance: the step plus the overshoot, saturated.
pub open spec fn increment_ms(step: u16, deadline: u64, now: u64) -> u16 {
    if step + overshoot_ms(deadline, now) > 65535 {
        65535u16
    } else {
        (step + overshoot_ms(deadline, now)) as u16
    }
}

/// The action-tick clock. Its view is the pending action queue.
pub struct ActionTickStream {
    paused: bool,
    step: u16,
    deadline_ms: u64,
    actions: Vec<PlayerAction>,
}

impl View for ActionTickStream {
    type V = Seq<PlayerActionV>;

    closed spec fn view(&self) -> Seq<PlayerActionV> {
        self.actions.deep_view()
    }
}

impl ActionTickStream {
    pub closed spec fn spec_step(&self) -> u16 {
        self.step
    }

    pub closed spec fn spec_paused(&self) -> bool {
        self.paused
    }

    pub closed spec fn spec_deadline(&self) -> u64 {
        self.deadline_ms
    }

    /// The stored step is always within the clamp bounds.
    pub open spec fn wf(&self) -> bool {
        MIN_STEP <= self.spec_step() <= MAX_STEP
    }

    /// Start the clock: the step is clamped and the first deadline armed one
    /// step from now.
    pub fn new(step: u16, now_ms: u64) -> (r: ActionTickStream)
        requires
            now_ms <= u64::MAX - MAX_STEP,
        ensures
            r.wf(),
            r.spec_step() == clamp_step(step),
            !r.spec_paused(),
            r.spec_deadline() == now_ms + clamp_step(step),
            r@ == Seq::<PlayerActionV>::empty(),
    {
        let clamped = if step < MIN_STEP {
            MIN_STEP
        } else if step > MAX_STEP {
            MAX_STEP
        } else {
            step
        };
        let r = ActionTickStream {
            paused: false,
            step: clamped,
            deadline_ms: now_ms + clamped as u64,
            actions: Vec::new(),
        };
        proof {
            assert(r@ =~= Seq::<PlayerActionV>::empty());
        }
        r
    }

    /// Change the cadence: the step is clamped and the next deadline re-armed
    /// one clamped step from now.
    pub fn set_step(&mut self, value: u16, now_ms: u64)
        requires
            now_ms <= u64::MAX - MAX_STEP,
        ensures
            final (self).wf(),
            final (self).spec_step() == clamp_step(value),
            final (self).spec_deadline() == now_ms + clamp_step(value),
            final (self).spec_paused() == old(self).spec_paused(),
            final (self)@ == old(self)@,
    {
        let clamped = if value < MIN_STEP {
            MIN_STEP
        } else if value > MAX_STEP {
            MAX_STEP
        } else {
            value
        };
        self.step = clamped;
        self.deadline_ms = now_ms + clamped as u64;
    }

    pub fn step(&self) -> (r: u16)
        ensures
            r == self.spec_step(),
    {
        self.step
    }

    /// Append one action to the pending queue.
    pub fn add_action(&mut self, action: PlayerAction)
        ensures
            final (self)@ == old(self)@.push(action@),
            final (self).spec_step() == old(self).spec_step(),
            final (self).spec_paused() == old(self).spec_paused(),
            final (self).spec_deadline() == old(self).spec_deadline(),
    {
        self.actions.push(action);
    }

    /// Replace the pending queue atomically.
    pub fn replace_actions(&mut self, actions: Vec<PlayerAction>)
        ensures
            final (self)@ == actions.deep_view(),
            final (self).spec_step() == old(self).spec_step(),
            final (self).spec_paused() == old(self).spec_paused(),
            final (self).spec_deadline() == old(self).spec_deadline(),
    {
        self.actions = actions;
    }

    /// Pause: no tick is emitted until `resume`; the deadline collapses to
    /// now so no stale wakeup fires.
    pub fn pause(&mut self, now_ms: u64)
        ensures
            final (self).spec_paused(),
            final (self).spec_step() == old(self).spec_step(),
            final (self).spec_deadline() == now_ms,
            final (self)@ == old(self)@,
    {
        self.paused = true;
        self.deadline_ms = now_ms;
    }

    pub fn is_paused(&self) -> (r: bool)
        ensures
            r == self.spec_paused(),
    {
        self.paused
    }

    /// Resume: the next deadline is armed one step from now; actions queued
    /// during the pause stay pending.
    pub fn resume(&mut self, now_ms: u64)
        requires
            old(self).wf(),
            now_ms <= u64::MAX - MAX_STEP,
        ensures
            !final (self).spec_paused(),
            final (self).spec_step() == old(self).spec_step(),
            final (self).spec_deadline() == now_ms + old(self).spec_step(),
            final (self)@ == old(self)@,
    {
        self.paused = false;
        self.deadline_ms = now_ms + self.step as u64;
    }

    /// Emit the next tick if the deadline has passed: its time advance is
    /// the step plus how late the poll was, never below the step; it drains
    /// every pending action in arrival order; the next deadline advances by
    /// exactly one step, keeping the fixed cadence. While paused, or before
    /// the deadline, nothing is emitted and nothing changes.
    pub fn poll_tick(&mut self, now_ms: u64) -> (r: Option<Tick>)
        requires
            old(self).wf(),
            old(self).spec_deadline() <= u64::MAX - MAX_STEP,
        ensures
            final (self).wf(),
            final (self).spec_step() == old(self).spec_step(),
            final (self).spec_paused() == old(self).spec_paused(),
            old(self).spec_paused() || now_ms < old(self).spec_deadline() ==> r is None && *final (
                self) == *old(self),
            !old(self).spec_paused() && now_ms >= old(self).spec_deadline() ==> match r {
                Some(t) => {
                    &&& t.time_increment_ms == increment_ms(
                        old(self).spec_step(),
                        old(self).spec_deadline(),
                        now_ms,
                    )
                    &&& t.time_increment_ms >= old(self).spec_step()
                    &&& t.actions.deep_view() == old(self)@
                    &&& final (self)@ == Seq::<PlayerActionV>::empty()
                    &&& final (self).spec_deadline() == old(self).spec_deadline() + old(
                        self,
                    ).spec_step()
                },
                None => false,
            },
    {
        if self.paused {
            return None;
        }
        if now_ms < self.deadline_ms {
            return None;
        }
        let late: u64 = now_ms - self.deadline_ms;
        let overshoot: u16 = if late > 65535 {
            65535
        } else {
            late as u16
        };
        let wide: u32 = self.step as u32 + overshoot as u32;
        let increment: u16 = if wide > 65535 {
            65535
        } else {
            wide as u16
        };
        self.deadline_ms = self.deadline_ms + self.step as u64;
        let mut drained: Vec<PlayerAction> = Vec::new();
        core::mem::swap(&mut drained, &mut self.actions);
        proof {
            assert(self@ =~= Seq::<PlayerActionV>::empty());
        }
        Some(Tick { time_increment_ms: increment, actions: drained })
    }
}

} // verus!
