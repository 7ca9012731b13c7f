use std::rc::Rc;
use vstd::prelude::*;
use crate::definition::{AnimationDef, RATE_ONE};
use crate::control::{AnimationCommand, DeferStartRelation, EndControl};
use crate::control_set::{
    ControlError, ControlSet, Entries, add_outcome, added, deferred, deferred_outcome, holds_id,
    toggle_entries, without,
};

verus! {

/// The animations an entity can play; an animation's id is its position.
pub struct AnimationSet {
    animations: Vec<Rc<AnimationDef>>,
}

impl View for AnimationSet {
    type V = Seq<Rc<AnimationDef>>;

    closed spec fn view(&self) -> Seq<Rc<AnimationDef>> {
        self.animations@
    }
}

impl AnimationSet {
    /// Every definition is usable.
    pub open spec fn wf(&self) -> bool {
        forall|i: int| 0 <= i < self@.len() ==> (#[trigger] self@[i]).wf()
    }

    /// An empty catalog.
    pub fn new() -> (r: AnimationSet)
        ensures
            r.wf(),
            r@ == Seq::<Rc<AnimationDef>>::empty(),
    {
        AnimationSet { animations: Vec::new() }
    }

    /// Adds a definition and returns its id.
    pub fn insert(&mut self, def: AnimationDef) -> (r: usize)
        requires
            old(self).wf(),
            def.wf(),
        ensures
            final(self).wf(),
            r == old(self)@.len(),
            final(self)@ == old(self)@.push(Rc::new(def)),
    {
        let id = self.animations.len();
        self.animations.push(Rc::new(def));
        assert forall|i: int| 0 <= i < self@.len() implies (#[trigger] self@[i]).wf() by {
            if i < old(self)@.len() {
                assert(self@[i] == old(self)@[i]);
            }
        }
        id
    }

    /// The number of animations.
    pub fn len(&self) -> (r: usize)
        ensures
            r == self@.len(),
    {
        self.animations.len()
    }

    /// The definition for `id`, shared.
    pub fn lookup(&self, id: usize) -> (r: Option<Rc<AnimationDef>>)
        ensures
            r == (if id < self@.len() { Some(self@[id as int]) } else { None::<Rc<AnimationDef>> }),
    {
        if id < self.animations.len() {
            Some(Rc::clone(&self.animations[id]))
        } else {
            None
        }
    }
}

/// Where the cycle through an entity's animations stands.
pub struct Scene {
    /// The id that the next cycle step plays.
    pub animation_index: usize,
}

impl Scene {
    /// A cycle that starts with the first animation.
    pub fn new() -> (r: Scene)
        ensures
            r.animation_index == 0,
    {
        Scene { animation_index: 0 }
    }
}

/// What one cycle step did, for a host that mirrors it.
#[derive(Clone, Copy, Debug, PartialEq, Eq, Structural)]
pub enum CycleAction {
    /// Aborted `aborted`, then paused or resumed the existing control for `id`.
    Toggled { aborted: usize, id: usize },
    /// Aborted `aborted`, then started `id`, looping endlessly at normal speed.
    Started { aborted: usize, id: usize },
}

/// The id before `index` in a cycle of `len` ids.
pub open spec fn previous_index(index: usize, len: usize) -> usize {
    if index == 0 { (len - 1) as usize } else { (index - 1) as usize }
}

/// The id after `index` in a cycle of `len` ids.
pub open spec fn next_index(index: usize, len: usize) -> usize {
    if index + 1 >= len { 0 } else { (index + 1) as usize }
}

/// One cycle step: aborts the animation before the current one (the last
/// one when at the first), so the model is at rest, then toggles the current
/// one if it still has a control, else starts it looping; the index then moves
/// on, wrapping to the first. Nothing happens when the index is past the catalog.
pub fn toggle_or_cycle_animation(
    scene: &mut Scene,
    animations: &AnimationSet,
    set: &mut ControlSet,
) -> (r: Option<CycleAction>)
    requires
        old(set).wf(),
        animations.wf(),
    ensures
        final(set).wf(),
        old(scene).animation_index >= animations@.len() ==> r is None && final(scene).animation_index
            == old(scene).animation_index && final(set)@ == old(set)@,
        old(scene).animation_index < animations@.len() ==> ({
            let i = old(scene).animation_index;
            let len = animations@.len() as usize;
            let prev = previous_index(i, len);
            let rested = without(old(set)@, prev);
            &&& final(scene).animation_index == next_index(i, len)
            &&& holds_id(rested, i) ==> r == Some(CycleAction::Toggled { aborted: prev, id: i })
                && final(set)@ == toggle_entries(rested, i)
            &&& !holds_id(rested, i) ==> r == Some(CycleAction::Started { aborted: prev, id: i })
                && final(set)@ == added(
                rested,
                i,
                animations@[i as int],
                EndControl::Loop(None),
                RATE_ONE as int,
                AnimationCommand::Start,
            )
        }),
{
    let len = animations.len();
    let index = scene.animation_index;
    if index >= len {
        return None;
    }
    let def = match animations.lookup(index) {
        Some(d) => d,
        None => return None,
    };
    let prev = if index == 0 { len - 1 } else { index - 1 };
    set.abort(prev);
    let action = if set.has_animation(index) {
        let _ = set.toggle(index);
        CycleAction::Toggled { aborted: prev, id: index }
    } else {
        let _ = set.add_animation(
            index,
            def,
            EndControl::Loop(None),
            RATE_ONE as i32,
            AnimationCommand::Start,
        );
        CycleAction::Started { aborted: prev, id: index }
    };
    scene.animation_index = if index + 1 >= len { 0 } else { index + 1 };
    Some(action)
}

/// What `start_chain` returns once its ids are in the catalog: the first
/// refusal met, in order, or `Ok`.
pub open spec fn chain_outcome(
    s: Entries,
    defs: Seq<Rc<AnimationDef>>,
    ids: (usize, usize, usize),
    fraction: u32,
) -> Result<(), ControlError> {
    let one = RATE_ONE as int;
    let s1 = added(s, ids.0, defs[ids.0 as int], EndControl::Normal, one, AnimationCommand::Start);
    let s2 = deferred(s1, ids.1, defs[ids.1 as int], EndControl::Normal, one, ids.0, DeferStartRelation::Start(fraction));
    if add_outcome(s, ids.0, one) is Err {
        add_outcome(s, ids.0, one)
    } else if deferred_outcome(s1, ids.1, one, ids.0) is Err {
        deferred_outcome(s1, ids.1, one, ids.0)
    } else {
        deferred_outcome(s2, ids.2, one, ids.1)
    }
}

/// The entries after `start_chain`, once its ids are in the catalog: each
/// step that was not refused, up to the first that was.
pub open spec fn chain_entries(
    s: Entries,
    defs: Seq<Rc<AnimationDef>>,
    ids: (usize, usize, usize),
    fraction: u32,
) -> Entries {
    let one = RATE_ONE as int;
    let s1 = added(s, ids.0, defs[ids.0 as int], EndControl::Normal, one, AnimationCommand::Start);
    let s2 = deferred(s1, ids.1, defs[ids.1 as int], EndControl::Normal, one, ids.0, DeferStartRelation::Start(fraction));
    if add_outcome(s, ids.0, one) is Err {
        s
    } else if deferred_outcome(s1, ids.1, one, ids.0) is Err {
        s1
    } else {
        deferred(s2, ids.2, defs[ids.2 as int], EndControl::Normal, one, ids.1, DeferStartRelation::End)
    }
}

/// Plays three animations as a chain, each once at normal speed: `ids.0`
/// starts at once, `ids.1` once `ids.0` has covered `fraction` thousandths of
/// its timeline, and `ids.2` once `ids.1` has ended. `NotFound`, with nothing
/// changed, when an id is not in the catalog; otherwise the steps run in order
/// up to the first refusal, which is returned.
pub fn start_chain(
    set: &mut ControlSet,
    animations: &AnimationSet,
    ids: (usize, usize, usize),
    fraction: u32,
) -> (r: Result<(), ControlError>)
    requires
        old(set).wf(),
        animations.wf(),
    ensures
        final(set).wf(),
        !(ids.0 < animations@.len() && ids.1 < animations@.len() && ids.2 < animations@.len()) ==> r
            == Err::<(), ControlError>(ControlError::NotFound) && final(set)@ == old(set)@,
        ids.0 < animations@.len() && ids.1 < animations@.len() && ids.2 < animations@.len() ==> r
            == chain_outcome(old(set)@, animations@, ids, fraction) && final(set)@ == chain_entries(
            old(set)@,
            animations@,
            ids,
            fraction,
        ),
{
    let (a, b, c) = ids;
    let (da, db, dc) = match (animations.lookup(a), animations.lookup(b), animations.lookup(c)) {
        (Some(da), Some(db), Some(dc)) => (da, db, dc),
        _ => return Err(ControlError::NotFound),
    };
    let one = RATE_ONE as i32;
    set.add_animation(a, da, EndControl::Normal, one, AnimationCommand::Start)?;
    set.add_deferred_animation(b, db, EndControl::Normal, one, a, DeferStartRelation::Start(fraction))?;
    set.add_deferred_animation(c, dc, EndControl::Normal, one, b, DeferStartRelation::End)
}

} // verus!
