use vstd::prelude::*;

verus! {

/// Scale of a rate multiplier: a rate of `RATE_ONE` plays at normal speed.
/// A cursor counts rate-scaled time, so one time unit at normal speed moves it
/// by `RATE_ONE`.
pub const RATE_ONE: u32 = 1000;

/// Scale of a fraction of a timeline: `FRACTION_ONE` is the whole timeline.
pub const FRACTION_ONE: u32 = 1000;

/// An immutable animation clip as the controls see it: its total duration and
/// the times of its keyframes, in time units.
pub struct AnimationDef {
    pub duration: u32,
    pub key_times: Vec<u32>,
}

/// Which way `step` moves a cursor.
#[derive(Clone, Copy, Debug, PartialEq, Eq, Structural)]
pub enum StepDirection {
    Forward,
    Backward,
}

impl AnimationDef {
    /// A definition is usable when it lasts and its keyframes lie on its timeline.
    pub open spec fn wf(&self) -> bool {
        &&& self.duration > 0
        &&& forall|i: int| 0 <= i < self.key_times@.len() ==> self.key_times@[i] <= self.duration
    }

    /// The end of the timeline in cursor units.
    pub open spec fn span(&self) -> nat {
        (self.duration * RATE_ONE) as nat
    }

    /// Builds a definition; `None` when the duration is zero or a keyframe lies
    /// past the end.
    pub fn new(duration: u32, key_times: Vec<u32>) -> (r: Option<AnimationDef>)
        ensures
            r is Some <==> (duration > 0 && forall|i: int|
                0 <= i < key_times@.len() ==> key_times@[i] <= duration),
            r matches Some(d) ==> d.duration == duration && d.key_times@ == key_times@,
    {
        if duration == 0 {
            return None;
        }
        let mut i: usize = 0;
        while i < key_times.len()
            invariant
                i <= key_times@.len(),
                forall|j: int| 0 <= j < i ==> key_times@[j] <= duration,
            decreases key_times@.len() - i,
        {
            if key_times[i] > duration {
                return None;
            }
            i += 1;
        }
        Some(AnimationDef { duration, key_times })
    }

    /// The end of the timeline in cursor units.
    pub fn span_exec(&self) -> (r: u64)
        ensures
            r == self.span(),
    {
        self.duration as u64 * RATE_ONE as u64
    }

    /// The cursor that `step` reaches from `cursor`.
    pub fn step_target(&self, cursor: u64, direction: StepDirection) -> (r: u64)
        requires
            self.wf(),
        ensures
            r == step_stop(self.key_times@, cursor as int, self.span() as int, direction),
    {
        let end = self.span_exec();
        let mut best: u64 = match direction {
            StepDirection::Forward => end,
            StepDirection::Backward => 0,
        };
        let mut i: usize = 0;
        while i < self.key_times.len()
            invariant
                self.wf(),
                end == self.span(),
                i <= self.key_times@.len(),
                best as int == step_stop(
                    self.key_times@.take(i as int),
                    cursor as int,
                    end as int,
                    direction,
                ),
            decreases self.key_times@.len() - i,
        {
            let k: u64 = self.key_times[i] as u64 * RATE_ONE as u64;
            proof {
                assert(self.key_times@.take(i + 1).drop_last() == self.key_times@.take(i as int));
            }
            match direction {
                StepDirection::Forward => {
                    if k > cursor && k < best {
                        best = k;
                    }
                },
                StepDirection::Backward => {
                    if k < cursor && k > best {
                        best = k;
                    }
                },
            }
            i += 1;
        }
        proof {
            assert(self.key_times@.take(i as int) == self.key_times@);
        }
        best
    }
}

/// Where a step from `cursor` lands on a timeline ending at `end` with keyframes
/// at `keys`: forward, the nearest keyframe after `cursor`, else `end`;
/// backward, the nearest keyframe before `cursor`, else the start.
pub open spec fn step_stop(keys: Seq<u32>, cursor: int, end: int, direction: StepDirection) -> int
    decreases keys.len(),
{
    if keys.len() == 0 {
        match direction {
            StepDirection::Forward => end,
            StepDirection::Backward => 0,
        }
    } else {
        let rest = step_stop(keys.drop_last(), cursor, end, direction);
        let k = keys.last() * RATE_ONE;
        match direction {
            StepDirection::Forward => if cursor < k && k < rest { k } else { rest },
            StepDirection::Backward => if rest < k && k < cursor { k } else { rest },
        }
    }
}

} // verus!
