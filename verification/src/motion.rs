//! Moving the desk: the firmware is given the target position again and again
//! (a dead-man scheme) until it reports standing still or a tick limit is hit.
use vstd::prelude::*;
use crate::protocol::{CMD_STOP, CMD_WAKEUP};
use crate::position::{Height, target_raw, spec_target_raw, MAX_HEIGHT, BASE_HEIGHT};

verus! {

/// Upper bound on the number of reference writes of one move; at 0.4 s per
/// tick this covers a full stroke up and down.
pub const MOVE_MAX_TICKS: u32 = 150;

/// Distance of one step of the command-line `up` and `down`: 2 cm.
pub const STEP_HEIGHT: i32 = 200;

/// What the driver of a move does next.
#[derive(Debug, Clone, Copy, PartialEq, Eq, Structural)]
pub enum MoveStep {
    /// Write this raw target to the reference input, wait one tick and read the position.
    WriteTarget(u16),
    /// Write this control command (the stop command), then read the final position.
    Finish(u16),
}

/// Abstract state of a move.
pub struct MoverView {
    /// Raw target written on every tick.
    pub target: int,
    /// Reference writes made so far, the first one included.
    pub writes: int,
    /// Whether the move has finished.
    pub done: bool,
}

impl MoverView {
    /// The bounds every move keeps.
    pub open spec fn wf(self) -> bool {
        &&& 1 <= self.writes <= MOVE_MAX_TICKS
        &&& 0 <= self.target <= MAX_HEIGHT - BASE_HEIGHT
    }
}

/// The decision after a position reading with speed `speed`: a move ends when
/// the desk stands still after its second write, or when the tick limit is
/// reached; otherwise the target is written again.
pub open spec fn spec_after_reading(v: MoverView, speed: int) -> (MoverView, MoveStep) {
    if v.done || (v.writes >= 2 && speed == 0) || v.writes >= MOVE_MAX_TICKS {
        (MoverView { done: true, ..v }, MoveStep::Finish(CMD_STOP))
    } else {
        (MoverView { writes: v.writes + 1, ..v }, MoveStep::WriteTarget(v.target as u16))
    }
}

/// State after feeding the readings `speeds` one by one.
pub open spec fn spec_run(v: MoverView, speeds: Seq<int>) -> MoverView
    decreases speeds.len(),
{
    if speeds.len() == 0 {
        v
    } else {
        spec_run(spec_after_reading(v, speeds[0]).0, speeds.drop_first())
    }
}

/// Control commands written before the first reference write of a move: the
/// desk is woken up, then stopped, so that it takes the reference input.
pub fn move_prelude() -> (c: [u16; 2])
    ensures
        c@ == seq![CMD_WAKEUP, CMD_STOP],
{
    let c = [CMD_WAKEUP, CMD_STOP];
    assert(c@ =~= seq![CMD_WAKEUP, CMD_STOP]);
    c
}

/// A move towards one target height: after `move_prelude`, the target is
/// written once a tick until `on_position` ends the move with a stop.
pub struct Mover {
    target: u16,
    writes: u32,
    done: bool,
}

impl View for Mover {
    type V = MoverView;

    closed spec fn view(&self) -> MoverView {
        MoverView { target: self.target as int, writes: self.writes as int, done: self.done }
    }
}

impl Mover {
    #[verifier::type_invariant]
    spec fn inv(self) -> bool {
        self@.wf()
    }

    /// Starts a move towards height `h` (clamped to the accepted range); the
    /// first write of the target is due at once.
    pub fn new(h: i64) -> (m: Mover)
        ensures
            m@.target == spec_target_raw(h as int),
            m@.writes == 1,
            !m@.done,
            m@.wf(),
    {
        Mover { target: target_raw(h), writes: 1, done: false }
    }

    /// Raw target of this move.
    pub fn target(&self) -> (t: u16)
        ensures
            t == self@.target,
    {
        self.target
    }

    /// Whether the move has finished.
    pub fn is_done(&self) -> (b: bool)
        ensures
            b == self@.done,
    {
        self.done
    }

    /// Decides the next step after a position reading with speed `speed`.
    pub fn on_position(&mut self, speed: i16) -> (step: MoveStep)
        ensures
            (final(self)@, step) == spec_after_reading(old(self)@, speed as int),
            final(self)@.wf(),
    {
        proof {
            use_type_invariant(&*self);
        }
        if self.done || (self.writes >= 2 && speed == 0) || self.writes >= MOVE_MAX_TICKS {
            self.done = true;
            MoveStep::Finish(CMD_STOP)
        } else {
            self.writes = self.writes + 1;
            MoveStep::WriteTarget(self.target)
        }
    }
}

/// Law: whatever positions the desk reports, a move never writes its
/// reference more than `MOVE_MAX_TICKS` times, never changes its target, and
/// once finished stays finished.
pub proof fn law_move_is_bounded(v: MoverView, speeds: Seq<int>)
    requires
        v.wf(),
    ensures
        spec_run(v, speeds).wf(),
        spec_run(v, speeds).target == v.target,
        v.done ==> spec_run(v, speeds).done && spec_run(v, speeds).writes == v.writes,
    decreases speeds.len(),
{
    if speeds.len() > 0 {
        law_move_is_bounded(spec_after_reading(v, speeds[0]).0, speeds.drop_first());
    }
}

/// Law: a reading of a still desk after the second write ends the move.
pub proof fn law_still_desk_finishes(v: MoverView)
    requires
        v.wf(),
        v.writes >= 2,
    ensures
        spec_after_reading(v, 0).1 == MoveStep::Finish(CMD_STOP),
        spec_after_reading(v, 0).0.done,
{
}

/// Law: every write a move asks for carries its own clamped target.
pub proof fn law_writes_carry_target(v: MoverView, speed: int)
    requires
        v.wf(),
    ensures
        spec_after_reading(v, speed).1 matches MoveStep::WriteTarget(t) ==> t == v.target,
{
}

/// Target height of a relative move of `delta` from the reading `start`.
pub fn relative_target(start: &Height, delta: i32) -> (h: i64)
    ensures
        h == start.spec_height() + delta,
{
    start.height() as i64 + delta as i64
}

} // verus!
