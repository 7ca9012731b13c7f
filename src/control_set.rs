use std::rc::Rc;
use vstd::prelude::*;
use crate::definition::{AnimationDef, StepDirection};
use crate::control::{
    AnimationCommand, Control, ControlState, DeferStartRelation, EndControl,
    relation_met, started, stepped, tick, toggled,
};

verus! {

/// Why an operation on a control set was refused.
#[derive(Clone, Copy, Debug, PartialEq, Eq, Structural)]
pub enum ControlError {
    /// No control exists for the id.
    NotFound,
    /// A deferred animation named a trigger with no control (or itself).
    UnknownTrigger,
    /// A negative rate.
    InvalidRate,
    /// A control that has not finished already holds the id.
    DuplicateId,
}

/// The entries of a control set, in the order they were first added.
pub type Entries = Seq<(usize, Control)>;

/// Whether a control exists for `id`.
pub open spec fn holds_id(s: Entries, id: usize) -> bool {
    exists|i: int| 0 <= i < s.len() && s[i].0 == id
}

/// Where the control for `id` stands (meaningful when `holds_id(s, id)`).
pub open spec fn index_of(s: Entries, id: usize) -> int {
    choose|i: int| 0 <= i < s.len() && s[i].0 == id
}

/// The control for `id` (meaningful when `holds_id(s, id)`).
pub open spec fn control_of(s: Entries, id: usize) -> Control {
    s[index_of(s, id)].1
}

/// At most one control per id.
pub open spec fn unique_ids(s: Entries) -> bool {
    forall|i: int, j: int| 0 <= i < s.len() && 0 <= j < s.len() && s[i].0 == s[j].0 ==> i == j
}

/// The entries with the control for `id` set to `c`: in its place when `id`
/// is present, else appended.
pub open spec fn with_control(s: Entries, id: usize, c: Control) -> Entries {
    if holds_id(s, id) {
        s.update(index_of(s, id), (id, c))
    } else {
        s.push((id, c))
    }
}

/// The entries with the control for `id` removed.
pub open spec fn without(s: Entries, id: usize) -> Entries {
    if holds_id(s, id) {
        s.remove(index_of(s, id))
    } else {
        s
    }
}

/// A control for `id` may be created: the id is free or its control finished.
pub open spec fn id_free(s: Entries, id: usize) -> bool {
    !holds_id(s, id) || control_of(s, id).state is Finished
}

/// A fresh control at the start of its timeline.
pub open spec fn fresh(def: Rc<AnimationDef>, end: EndControl, rate: int, state: ControlState) -> Control {
    Control { def, state, cursor: 0, rate: rate as u32, end }
}

/// The state a command starts a control in.
pub open spec fn initial_state(command: AnimationCommand) -> ControlState {
    match command {
        AnimationCommand::Start => ControlState::Running,
        AnimationCommand::Init => ControlState::Paused,
    }
}

/// What `add_animation` returns.
pub open spec fn add_outcome(s: Entries, id: usize, rate: int) -> Result<(), ControlError> {
    if rate < 0 {
        Err(ControlError::InvalidRate)
    } else if !id_free(s, id) {
        Err(ControlError::DuplicateId)
    } else {
        Ok(())
    }
}

/// What `add_deferred_animation` returns.
pub open spec fn deferred_outcome(s: Entries, id: usize, rate: int, trigger: usize) -> Result<(), ControlError> {
    if rate < 0 {
        Err(ControlError::InvalidRate)
    } else if !id_free(s, id) {
        Err(ControlError::DuplicateId)
    } else if trigger == id || !holds_id(s, trigger) {
        Err(ControlError::UnknownTrigger)
    } else {
        Ok(())
    }
}

/// `Ok` when `id` has a control, else `NotFound`.
pub open spec fn found(s: Entries, id: usize) -> Result<(), ControlError> {
    if holds_id(s, id) { Ok(()) } else { Err(ControlError::NotFound) }
}

/// What `set_rate` returns.
pub open spec fn rate_outcome(s: Entries, id: usize, rate: int) -> Result<(), ControlError> {
    if rate < 0 { Err(ControlError::InvalidRate) } else { found(s, id) }
}

/// The entries after `add_animation`.
pub open spec fn added(
    s: Entries,
    id: usize,
    def: Rc<AnimationDef>,
    end: EndControl,
    rate: int,
    command: AnimationCommand,
) -> Entries {
    if add_outcome(s, id, rate) is Ok {
        with_control(s, id, fresh(def, end, rate, initial_state(command)))
    } else {
        s
    }
}

/// The entries after `add_deferred_animation`.
pub open spec fn deferred(
    s: Entries,
    id: usize,
    def: Rc<AnimationDef>,
    end: EndControl,
    rate: int,
    trigger: usize,
    relation: DeferStartRelation,
) -> Entries {
    if deferred_outcome(s, id, rate, trigger) is Ok {
        with_control(s, id, fresh(def, end, rate, ControlState::Pending { trigger, relation }))
    } else {
        s
    }
}

/// The entries after `toggle`.
pub open spec fn toggle_entries(s: Entries, id: usize) -> Entries {
    if holds_id(s, id) { with_control(s, id, toggled(control_of(s, id))) } else { s }
}

/// The entries after `step`.
pub open spec fn step_entries(s: Entries, id: usize, direction: StepDirection) -> Entries {
    if holds_id(s, id) { with_control(s, id, stepped(control_of(s, id), direction)) } else { s }
}

/// The control with its rate set to `rate`.
pub open spec fn with_rate(c: Control, rate: int) -> Control {
    Control { def: c.def, state: c.state, cursor: c.cursor, rate: rate as u32, end: c.end }
}

/// The entries after `set_rate`.
pub open spec fn rate_entries(s: Entries, id: usize, rate: int) -> Entries {
    if rate_outcome(s, id, rate) is Ok { with_control(s, id, with_rate(control_of(s, id), rate)) } else { s }
}

/// Every control ticked by `dt`, in order, with those that ended under `Stop` left out.
pub open spec fn timeline(s: Entries, dt: nat) -> Entries
    decreases s.len(),
{
    if s.len() == 0 {
        s
    } else {
        let rest = timeline(s.drop_last(), dt);
        match tick(s.last().1, dt) {
            Some(c) => rest.push((s.last().0, c)),
            None => rest,
        }
    }
}

/// Whether a pending control waiting on `trigger` under `relation` starts, given
/// the entries `t`: its trigger is gone or has reached what it waits for.
pub open spec fn fires(t: Entries, trigger: usize, relation: DeferStartRelation) -> bool {
    !holds_id(t, trigger) || relation_met(control_of(t, trigger), relation)
}

/// The control after deferred starts are resolved against the entries `t`.
pub open spec fn promoted(t: Entries, c: Control) -> Control {
    match c.state {
        ControlState::Pending { trigger, relation } => if fires(t, trigger, relation) {
            started(c)
        } else {
            c
        },
        _ => c,
    }
}

/// Every pending control whose trigger fired in `t` started; the others kept.
pub open spec fn resolved(t: Entries) -> Entries {
    Seq::new(t.len(), |i: int| (t[i].0, promoted(t, t[i].1)))
}

/// The entries after `advance(dt)`.
pub open spec fn advanced(s: Entries, dt: nat) -> Entries {
    resolved(timeline(s, dt))
}

pub proof fn lemma_index_of(s: Entries, id: usize, i: int)
    requires
        unique_ids(s),
        0 <= i < s.len(),
        s[i].0 == id,
    ensures
        holds_id(s, id),
        index_of(s, id) == i,
{
    assert(holds_id(s, id));
}

proof fn lemma_timeline_ids(s: Entries, dt: nat)
    ensures
        forall|j: int| 0 <= j < timeline(s, dt).len() ==> holds_id(s, #[trigger] timeline(s, dt)[j].0),
        timeline(s, dt).len() <= s.len(),
    decreases s.len(),
{
    if s.len() > 0 {
        let p = s.drop_last();
        lemma_timeline_ids(p, dt);
        assert forall|j: int| 0 <= j < timeline(s, dt).len() implies holds_id(s, #[trigger] timeline(s, dt)[j].0) by {
            if j < timeline(p, dt).len() {
                let k = choose|k: int| 0 <= k < p.len() && p[k].0 == timeline(p, dt)[j].0;
                assert(s[k].0 == timeline(s, dt)[j].0);
            } else {
                assert(s[s.len() - 1].0 == timeline(s, dt)[j].0);
            }
        }
    }
}

/// The controls of one entity, at most one per animation id.
pub struct ControlSet {
    entries: Vec<(usize, Control)>,
}

impl View for ControlSet {
    type V = Entries;

    closed spec fn view(&self) -> Entries {
        self.entries@
    }
}

/// Where the control for `id` stands in `entries`.
fn position(entries: &Vec<(usize, Control)>, id: usize) -> (r: Option<usize>)
    requires
        unique_ids(entries@),
    ensures
        r is None <==> !holds_id(entries@, id),
        r matches Some(i) ==> i < entries@.len() && entries@[i as int].0 == id
            && index_of(entries@, id) == i,
{
    let mut i: usize = 0;
    while i < entries.len()
        invariant
            unique_ids(entries@),
            i <= entries@.len(),
            forall|j: int| 0 <= j < i ==> entries@[j].0 != id,
        decreases entries@.len() - i,
    {
        if entries[i].0 == id {
            proof {
                lemma_index_of(entries@, id, i as int);
            }
            return Some(i);
        }
        i += 1;
    }
    None
}

impl ControlSet {
    /// At most one control per id, each of them well formed.
    pub open spec fn wf(&self) -> bool {
        &&& unique_ids(self@)
        &&& forall|i: int| 0 <= i < self@.len() ==> (#[trigger] self@[i]).1.wf()
    }

    /// An empty set.
    pub fn new() -> (r: ControlSet)
        ensures
            r.wf(),
            r@ == Seq::<(usize, Control)>::empty(),
    {
        ControlSet { entries: Vec::new() }
    }

    /// Whether a control, in any state, exists for `id`.
    pub fn has_animation(&self, id: usize) -> (r: bool)
        requires
            self.wf(),
        ensures
            r == holds_id(self@, id),
    {
        position(&self.entries, id).is_some()
    }

    /// The control for `id`, if any.
    pub fn get(&self, id: usize) -> (r: Option<&Control>)
        requires
            self.wf(),
        ensures
            r is None <==> !holds_id(self@, id),
            r matches Some(c) ==> *c == control_of(self@, id),
    {
        match position(&self.entries, id) {
            Some(i) => Some(&self.entries[i].1),
            None => None,
        }
    }

    /// The number of controls.
    pub fn len(&self) -> (r: usize)
        ensures
            r == self@.len(),
    {
        self.entries.len()
    }

    /// Sets the control for `id` to `c`, in place or appended.
    fn put(&mut self, id: usize, c: Control)
        requires
            old(self).wf(),
            c.wf(),
        ensures
            final(self).wf(),
            final(self)@ == with_control(old(self)@, id, c),
    {
        match position(&self.entries, id) {
            Some(i) => {
                self.entries.set(i, (id, c));
                assert(unique_ids(self@));
            },
            None => {
                self.entries.push((id, c));
                assert(unique_ids(self@)) by {
                    assert forall|a: int, b: int|
                        0 <= a < self@.len() && 0 <= b < self@.len() && self@[a].0 == self@[b].0 implies a == b by {
                        if a < old(self)@.len() && b == old(self)@.len() {
                            assert(holds_id(old(self)@, id));
                        }
                        if b < old(self)@.len() && a == old(self)@.len() {
                            assert(holds_id(old(self)@, id));
                        }
                    }
                }
            },
        }
        assert(forall|i: int| 0 <= i < self@.len() ==> (#[trigger] self@[i]).1.wf()) by {
            assert forall|i: int| 0 <= i < self@.len() implies (#[trigger] self@[i]).1.wf() by {
                if i < old(self)@.len() && self@[i] != old(self)@[i] {
                    assert(self@[i].1 == c);
                }
            }
        }
    }
    /// Starts a control for `id` playing `def`, running or paused as `command`
    /// says. Refused with `InvalidRate` for a negative rate, and with
    /// `DuplicateId` while a control for `id` has not finished; a finished one
    /// is replaced in its place.
    pub fn add_animation(
        &mut self,
        id: usize,
        def: Rc<AnimationDef>,
        end: EndControl,
        rate: i32,
        command: AnimationCommand,
    ) -> (r: Result<(), ControlError>)
        requires
            old(self).wf(),
            def.wf(),
        ensures
            final(self).wf(),
            r == add_outcome(old(self)@, id, rate as int),
            final(self)@ == added(old(self)@, id, def, end, rate as int, command),
    {
        if rate < 0 {
            return Err(ControlError::InvalidRate);
        }
        if !self.id_is_free(id) {
            return Err(ControlError::DuplicateId);
        }
        let state = match command {
            AnimationCommand::Start => ControlState::Running,
            AnimationCommand::Init => ControlState::Paused,
        };
        let c = Control { def, state, cursor: 0, rate: rate as u32, end };
        self.put(id, c);
        Ok(())
    }

    /// Adds a control for `id` that waits, pending, until the control for
    /// `trigger` reaches what `relation` names. Refused with `InvalidRate` for
    /// a negative rate, `DuplicateId` while a control for `id` has not
    /// finished, and `UnknownTrigger` when `trigger` has no control or is `id`.
    pub fn add_deferred_animation(
        &mut self,
        id: usize,
        def: Rc<AnimationDef>,
        end: EndControl,
        rate: i32,
        trigger: usize,
        relation: DeferStartRelation,
    ) -> (r: Result<(), ControlError>)
        requires
            old(self).wf(),
            def.wf(),
        ensures
            final(self).wf(),
            r == deferred_outcome(old(self)@, id, rate as int, trigger),
            final(self)@ == deferred(old(self)@, id, def, end, rate as int, trigger, relation),
    {
        if rate < 0 {
            return Err(ControlError::InvalidRate);
        }
        if !self.id_is_free(id) {
            return Err(ControlError::DuplicateId);
        }
        if trigger == id || !self.has_animation(trigger) {
            return Err(ControlError::UnknownTrigger);
        }
        let c = Control {
            def,
            state: ControlState::Pending { trigger, relation },
            cursor: 0,
            rate: rate as u32,
            end,
        };
        self.put(id, c);
        Ok(())
    }

    /// Whether a control for `id` may be created.
    fn id_is_free(&self, id: usize) -> (r: bool)
        requires
            self.wf(),
        ensures
            r == id_free(self@, id),
    {
        match position(&self.entries, id) {
            Some(i) => self.entries[i].1.state == ControlState::Finished,
            None => true,
        }
    }

    /// Pauses a running control for `id` and resumes a paused one; a pending or
    /// finished control is kept. `NotFound` when there is none.
    pub fn toggle(&mut self, id: usize) -> (r: Result<(), ControlError>)
        requires
            old(self).wf(),
        ensures
            final(self).wf(),
            r == found(old(self)@, id),
            final(self)@ == toggle_entries(old(self)@, id),
    {
        match position(&self.entries, id) {
            Some(i) => {
                let c = self.entries[i].1.duplicate().toggle();
                self.put(id, c);
                Ok(())
            },
            None => Err(ControlError::NotFound),
        }
    }

    /// Moves a running control for `id` to the next keyframe in `direction`
    /// (the end or the start when there is none); other controls are kept.
    /// `NotFound` when there is none.
    pub fn step(&mut self, id: usize, direction: StepDirection) -> (r: Result<(), ControlError>)
        requires
            old(self).wf(),
        ensures
            final(self).wf(),
            r == found(old(self)@, id),
            final(self)@ == step_entries(old(self)@, id, direction),
    {
        match position(&self.entries, id) {
            Some(i) => {
                let c = self.entries[i].1.duplicate().step(direction);
                self.put(id, c);
                Ok(())
            },
            None => Err(ControlError::NotFound),
        }
    }

    /// Sets the rate multiplier of the control for `id`, in any state.
    /// `InvalidRate` for a negative rate, else `NotFound` when there is none;
    /// either way nothing changes.
    pub fn set_rate(&mut self, id: usize, rate: i32) -> (r: Result<(), ControlError>)
        requires
            old(self).wf(),
        ensures
            final(self).wf(),
            r == rate_outcome(old(self)@, id, rate as int),
            final(self)@ == rate_entries(old(self)@, id, rate as int),
    {
        if rate < 0 {
            return Err(ControlError::InvalidRate);
        }
        match position(&self.entries, id) {
            Some(i) => {
                let c = self.entries[i].1.duplicate();
                let c = Control { rate: rate as u32, ..c };
                self.put(id, c);
                Ok(())
            },
            None => Err(ControlError::NotFound),
        }
    }

    /// Removes the control for `id`, whatever its state; nothing when there is none.
    pub fn abort(&mut self, id: usize)
        requires
            old(self).wf(),
        ensures
            final(self).wf(),
            final(self)@ == without(old(self)@, id),
    {
        if let Some(i) = position(&self.entries, id) {
            self.entries.remove(i);
            assert(forall|j: int| 0 <= j < self@.len() ==> (#[trigger] self@[j]).1.wf()) by {
                assert forall|j: int| 0 <= j < self@.len() implies (#[trigger] self@[j]).1.wf() by {
                    if j >= i {
                        assert(self@[j] == old(self)@[j + 1]);
                    }
                }
            }
            assert(unique_ids(self@)) by {
                assert forall|a: int, b: int|
                    0 <= a < self@.len() && 0 <= b < self@.len() && self@[a].0 == self@[b].0 implies a == b by {
                    let a2 = if a < i { a } else { a + 1 };
                    let b2 = if b < i { b } else { b + 1 };
                    assert(self@[a] == old(self)@[a2]);
                    assert(self@[b] == old(self)@[b2]);
                }
            }
        }
    }
    /// Advances every running control by `dt` time units times its rate and
    /// applies end policies, then starts each pending control whose trigger,
    /// as it stands after that, has reached what it waits for or is gone.
    pub fn advance(&mut self, dt: u32)
        requires
            old(self).wf(),
        ensures
            final(self).wf(),
            final(self)@ == advanced(old(self)@, dt as nat),
    {
        let t = self.run_timelines(dt);
        let mut out: Vec<(usize, Control)> = Vec::new();
        let mut i: usize = 0;
        while i < t.len()
            invariant
                unique_ids(t@),
                forall|j: int| 0 <= j < t@.len() ==> (#[trigger] t@[j]).1.wf(),
                i <= t@.len(),
                out@.len() == i,
                forall|j: int| 0 <= j < i ==> (#[trigger] out@[j]) == (t@[j].0, promoted(t@, t@[j].1)),
            decreases t@.len() - i,
        {
            let id = t[i].0;
            let c = t[i].1.duplicate();
            let next = match c.state {
                ControlState::Pending { trigger, relation } => {
                    let fire = match position(&t, trigger) {
                        Some(j) => t[j].1.meets(relation),
                        None => true,
                    };
                    if fire {
                        Control { state: ControlState::Running, cursor: 0, ..c }
                    } else {
                        c
                    }
                },
                _ => c,
            };
            out.push((id, next));
            i += 1;
        }
        assert(out@ =~= resolved(t@));
        self.entries = out;
        assert(unique_ids(self@));
        assert(forall|j: int| 0 <= j < self@.len() ==> (#[trigger] self@[j]).1.wf()) by {
            assert forall|j: int| 0 <= j < self@.len() implies (#[trigger] self@[j]).1.wf() by {
                assert(t@[j].1.wf());
            }
        }
    }

    /// Every control ticked by `dt`, those that ended under `Stop` left out.
    fn run_timelines(&self, dt: u32) -> (r: Vec<(usize, Control)>)
        requires
            self.wf(),
        ensures
            r@ == timeline(self@, dt as nat),
            unique_ids(r@),
            forall|j: int| 0 <= j < r@.len() ==> (#[trigger] r@[j]).1.wf(),
    {
        let mut out: Vec<(usize, Control)> = Vec::new();
        let mut i: usize = 0;
        while i < self.entries.len()
            invariant
                self.wf(),
                i <= self@.len(),
                out@ == timeline(self@.take(i as int), dt as nat),
                unique_ids(out@),
                forall|j: int| 0 <= j < out@.len() ==> (#[trigger] out@[j]).1.wf(),
            decreases self@.len() - i,
        {
            let id = self.entries[i].0;
            let c = self.entries[i].1.duplicate();
            let ghost before = self@.take(i as int);
            let ghost upto = self@.take(i + 1);
            proof {
                assert(upto.drop_last() == before);
                assert(upto.last() == self@[i as int]);
                assert(self@[i as int].1.wf());
            }
            match c.tick(dt) {
                Some(c2) => {
                    proof {
                        lemma_timeline_ids(before, dt as nat);
                        assert forall|a: int| 0 <= a < out@.len() implies out@[a].0 != id by {
                            let k = choose|k: int| 0 <= k < before.len() && before[k].0 == out@[a].0;
                            assert(before[k] == self@[k]);
                            if out@[a].0 == id {
                                assert(self@[k].0 == self@[i as int].0);
                            }
                        }
                    }
                    out.push((id, c2));
                },
                None => {},
            }
            i += 1;
        }
        assert(self@.take(i as int) == self@);
        out
    }
}

} // verus!
