use std::rc::Rc;
use vstd::prelude::*;
use crate::definition::{AnimationDef, StepDirection, step_stop, RATE_ONE, FRACTION_ONE};

verus! {

/// Largest rate multiplier a control accepts.
pub const MAX_RATE: u32 = 0x7fff_ffff;

/// What happens when a running control reaches the end of its timeline.
#[derive(Clone, Copy, Debug, PartialEq, Eq, Structural)]
pub enum EndControl {
    /// The control is removed.
    Stop,
    /// The control stays at the end, finished.
    Normal,
    /// The cursor wraps to the start; with a count, the control finishes once
    /// that many completions have run (the count held is what is left).
    Loop(Option<u32>),
}

/// When a pending control starts, relative to its trigger.
#[derive(Clone, Copy, Debug, PartialEq, Eq, Structural)]
pub enum DeferStartRelation {
    /// When the trigger has finished or is gone.
    End,
    /// When the trigger has covered this fraction (in thousandths) of its timeline.
    Start(u32),
}

/// The state of one control.
#[derive(Clone, Copy, Debug, PartialEq, Eq, Structural)]
pub enum ControlState {
    /// Waiting on the control of `trigger`; does not advance.
    Pending { trigger: usize, relation: DeferStartRelation },
    Running,
    Paused,
    /// Reached the end under `Normal` or a spent loop count; stays at the end.
    Finished,
}

/// How a new control begins.
#[derive(Clone, Copy, Debug, PartialEq, Eq, Structural)]
pub enum AnimationCommand {
    /// Running at once.
    Start,
    /// Paused at the start, ready to be toggled.
    Init,
}

/// Playback state of one animation on one entity.
pub struct Control {
    /// The shared definition being played.
    pub def: Rc<AnimationDef>,
    pub state: ControlState,
    /// Position in rate-scaled time (`RATE_ONE` per time unit).
    pub cursor: u64,
    /// Rate multiplier in thousandths.
    pub rate: u32,
    pub end: EndControl,
}

impl Control {
    pub open spec fn wf(&self) -> bool {
        &&& self.def.wf()
        &&& self.cursor <= self.def.span()
        &&& self.rate <= MAX_RATE
    }

    /// A copy that shares the same definition.
    pub fn duplicate(&self) -> (r: Control)
        ensures
            r == *self,
    {
        Control {
            def: Rc::clone(&self.def),
            state: self.state,
            cursor: self.cursor,
            rate: self.rate,
            end: self.end,
        }
    }
}

/// The control with its cursor moved to `cursor` and everything else kept.
pub open spec fn at_cursor(c: Control, cursor: int) -> Control {
    Control { def: c.def, state: c.state, cursor: cursor as u64, rate: c.rate, end: c.end }
}

/// The control stopped at the end of its timeline.
pub open spec fn finished(c: Control) -> Control {
    Control { def: c.def, state: ControlState::Finished, cursor: c.def.span() as u64, rate: c.rate, end: c.end }
}

/// One tick of `dt` time units for one control: `None` when it is removed.
/// Only a running control moves, by `dt` times its rate; reaching the end of
/// its timeline applies its end policy, and a loop count goes down by the
/// number of completions the tick covered.
pub open spec fn tick(c: Control, dt: nat) -> Option<Control> {
    if c.state is Running {
        let d = c.def.span() as int;
        let x = c.cursor + dt * c.rate;
        if x < d {
            Some(at_cursor(c, x))
        } else {
            match c.end {
                EndControl::Stop => None,
                EndControl::Normal => Some(finished(c)),
                EndControl::Loop(None) => Some(at_cursor(c, x % d)),
                EndControl::Loop(Some(m)) => if x / d >= m {
                    Some(finished(c))
                } else {
                    Some(Control {
                        def: c.def,
                        state: c.state,
                        cursor: (x % d) as u64,
                        rate: c.rate,
                        end: EndControl::Loop(Some((m - x / d) as u32)),
                    })
                },
            }
        }
    } else {
        Some(c)
    }
}

/// Running and paused controls swap; any other control is kept.
pub open spec fn toggled(c: Control) -> Control {
    Control {
        def: c.def,
        state: match c.state {
            ControlState::Running => ControlState::Paused,
            ControlState::Paused => ControlState::Running,
            s => s,
        },
        cursor: c.cursor,
        rate: c.rate,
        end: c.end,
    }
}

/// A running control moves to the next keyframe in `direction`; any other is kept.
pub open spec fn stepped(c: Control, direction: StepDirection) -> Control {
    if c.state is Running {
        at_cursor(c, step_stop(c.def.key_times@, c.cursor as int, c.def.span() as int, direction))
    } else {
        c
    }
}

/// Whether the trigger control `t` has reached what `relation` waits for.
pub open spec fn relation_met(t: Control, relation: DeferStartRelation) -> bool {
    match relation {
        DeferStartRelation::End => t.state is Finished,
        DeferStartRelation::Start(f) => !(t.state is Pending) && t.cursor * FRACTION_ONE >= f
            * t.def.span(),
    }
}

/// The control started from the beginning.
pub open spec fn started(c: Control) -> Control {
    Control { def: c.def, state: ControlState::Running, cursor: 0, rate: c.rate, end: c.end }
}

proof fn lemma_step_stop_bounds(keys: Seq<u32>, cursor: int, end: int, direction: StepDirection)
    requires
        end >= 0,
        forall|i: int| 0 <= i < keys.len() ==> keys[i] * RATE_ONE <= end,
    ensures
        0 <= step_stop(keys, cursor, end, direction) <= end,
    decreases keys.len(),
{
    if keys.len() > 0 {
        lemma_step_stop_bounds(keys.drop_last(), cursor, end, direction);
    }
}

impl Control {
    /// Advances this control by one tick; `None` when its end policy removes it.
    pub fn tick(self, dt: u32) -> (r: Option<Control>)
        requires
            self.wf(),
        ensures
            r == tick(self, dt as nat),
            r matches Some(c) ==> c.wf(),
    {
        if self.state != ControlState::Running {
            return Some(self);
        }
        let d = self.def.span_exec();
        proof {
            assert(dt * self.rate <= 0xffff_ffffu64 * 0x7fff_ffffu64) by (nonlinear_arith)
                requires dt <= 0xffff_ffffu64, self.rate <= 0x7fff_ffffu64;
        }
        let x: u64 = self.cursor + dt as u64 * self.rate as u64;
        if x < d {
            return Some(Control { cursor: x, ..self });
        }
        match self.end {
            EndControl::Stop => None,
            EndControl::Normal => Some(Control { state: ControlState::Finished, cursor: d, ..self }),
            EndControl::Loop(None) => Some(Control { cursor: x % d, ..self }),
            EndControl::Loop(Some(m)) => {
                let laps = x / d;
                if laps >= m as u64 {
                    Some(Control { state: ControlState::Finished, cursor: d, ..self })
                } else {
                    Some(Control { cursor: x % d, end: EndControl::Loop(Some((m as u64 - laps) as u32)), ..self })
                }
            },
        }
    }

    /// Swaps running and paused.
    pub fn toggle(self) -> (r: Control)
        requires
            self.wf(),
        ensures
            r == toggled(self),
            r.wf(),
    {
        let state = match self.state {
            ControlState::Running => ControlState::Paused,
            ControlState::Paused => ControlState::Running,
            s => s,
        };
        Control { state, ..self }
    }

    /// Moves a running control to the next keyframe in `direction`.
    pub fn step(self, direction: StepDirection) -> (r: Control)
        requires
            self.wf(),
        ensures
            r == stepped(self, direction),
            r.wf(),
    {
        if self.state != ControlState::Running {
            return self;
        }
        let target = self.def.step_target(self.cursor, direction);
        proof {
            lemma_step_stop_bounds(self.def.key_times@, self.cursor as int, self.def.span() as int, direction);
        }
        Control { cursor: target, ..self }
    }

    /// Whether this control, as a trigger, has reached what `relation` waits for.
    pub fn meets(&self, relation: DeferStartRelation) -> (r: bool)
        requires
            self.wf(),
        ensures
            r == relation_met(*self, relation),
    {
        match relation {
            DeferStartRelation::End => self.state == ControlState::Finished,
            DeferStartRelation::Start(f) => {
                let pending = match self.state {
                    ControlState::Pending { .. } => true,
                    _ => false,
                };
                let d = self.def.span_exec();
                proof {
                    assert(self.cursor * FRACTION_ONE <= 0xffff_ffffu64 * 1000 * 1000) by (nonlinear_arith)
                        requires self.cursor <= self.def.duration * 1000, self.def.duration <= 0xffff_ffffu64;
                    assert(f * d <= 0xffff_ffffu64 * 0xffff_ffffu64 * 1000) by (nonlinear_arith)
                        requires f <= 0xffff_ffffu64, d == self.def.duration * 1000, self.def.duration <= 0xffff_ffffu64;
                }
                !pending && self.cursor as u128 * FRACTION_ONE as u128 >= f as u128 * d as u128
            },
        }
    }
}
} // verus!
