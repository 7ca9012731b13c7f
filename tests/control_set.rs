use std::rc::Rc;

use npr_app::control::{AnimationCommand, ControlState, DeferStartRelation, EndControl};
use npr_app::control_set::{ControlError, ControlSet};
use npr_app::definition::{AnimationDef, StepDirection, RATE_ONE};

fn clip(duration: u32) -> Rc<AnimationDef> {
    Rc::new(AnimationDef::new(duration, vec![0, duration / 4, duration / 2, duration]).unwrap())
}

fn rate_one() -> i32 {
    RATE_ONE as i32
}

fn state(set: &ControlSet, id: usize) -> ControlState {
    set.get(id).unwrap().state
}

fn cursor(set: &ControlSet, id: usize) -> u64 {
    set.get(id).unwrap().cursor
}

#[test]
fn added_animation_is_present() {
    let mut set = ControlSet::new();
    assert!(!set.has_animation(3));
    assert_eq!(set.add_animation(3, clip(1000), EndControl::Normal, rate_one(), AnimationCommand::Start), Ok(()));
    assert!(set.has_animation(3));
    assert_eq!(state(&set, 3), ControlState::Running);
    assert_eq!(cursor(&set, 3), 0);
}

#[test]
fn zero_rate_is_accepted_and_frozen() {
    let mut set = ControlSet::new();
    assert_eq!(set.add_animation(1, clip(1000), EndControl::Normal, 0, AnimationCommand::Start), Ok(()));
    assert!(set.has_animation(1));
    set.advance(500);
    assert_eq!(cursor(&set, 1), 0);
    assert_eq!(state(&set, 1), ControlState::Running);
}

#[test]
fn init_command_starts_paused() {
    let mut set = ControlSet::new();
    set.add_animation(1, clip(1000), EndControl::Normal, rate_one(), AnimationCommand::Init).unwrap();
    assert_eq!(state(&set, 1), ControlState::Paused);
    set.advance(100);
    assert_eq!(cursor(&set, 1), 0);
}

#[test]
fn negative_rate_on_add_is_refused() {
    let mut set = ControlSet::new();
    assert_eq!(
        set.add_animation(1, clip(1000), EndControl::Normal, -1, AnimationCommand::Start),
        Err(ControlError::InvalidRate)
    );
    assert!(!set.has_animation(1));
}

#[test]
fn duplicate_id_is_refused_while_active() {
    let mut set = ControlSet::new();
    set.add_animation(1, clip(1000), EndControl::Normal, rate_one(), AnimationCommand::Start).unwrap();
    set.advance(300);
    assert_eq!(
        set.add_animation(1, clip(2000), EndControl::Normal, rate_one(), AnimationCommand::Start),
        Err(ControlError::DuplicateId)
    );
    assert_eq!(cursor(&set, 1), 300 * RATE_ONE as u64);
    assert_eq!(set.get(1).unwrap().def.duration, 1000);
}

#[test]
fn finished_control_is_replaced() {
    let mut set = ControlSet::new();
    set.add_animation(1, clip(1000), EndControl::Normal, rate_one(), AnimationCommand::Start).unwrap();
    set.add_animation(2, clip(1000), EndControl::Loop(None), rate_one(), AnimationCommand::Start).unwrap();
    set.advance(1500);
    assert_eq!(state(&set, 1), ControlState::Finished);
    assert_eq!(set.add_animation(1, clip(2000), EndControl::Normal, rate_one(), AnimationCommand::Start), Ok(()));
    assert_eq!(state(&set, 1), ControlState::Running);
    assert_eq!(cursor(&set, 1), 0);
    assert_eq!(set.get(1).unwrap().def.duration, 2000);
    assert_eq!(set.len(), 2);
}

#[test]
fn abort_removes_in_any_state() {
    let mut set = ControlSet::new();
    set.add_animation(1, clip(1000), EndControl::Normal, rate_one(), AnimationCommand::Start).unwrap();
    set.add_animation(2, clip(1000), EndControl::Normal, rate_one(), AnimationCommand::Init).unwrap();
    set.add_deferred_animation(3, clip(1000), EndControl::Normal, rate_one(), 1, DeferStartRelation::End).unwrap();
    for id in 1..4 {
        set.abort(id);
        assert!(!set.has_animation(id));
    }
    set.abort(7);
    assert_eq!(set.len(), 0);
}

#[test]
fn toggle_twice_restores_state() {
    let mut set = ControlSet::new();
    set.add_animation(1, clip(1000), EndControl::Normal, rate_one(), AnimationCommand::Start).unwrap();
    assert_eq!(set.toggle(1), Ok(()));
    assert_eq!(state(&set, 1), ControlState::Paused);
    assert_eq!(set.toggle(1), Ok(()));
    assert_eq!(state(&set, 1), ControlState::Running);
    set.add_animation(2, clip(1000), EndControl::Normal, rate_one(), AnimationCommand::Init).unwrap();
    set.toggle(2).unwrap();
    set.toggle(2).unwrap();
    assert_eq!(state(&set, 2), ControlState::Paused);
}

#[test]
fn toggle_missing_is_not_found() {
    let mut set = ControlSet::new();
    assert_eq!(set.toggle(9), Err(ControlError::NotFound));
}

#[test]
fn toggle_leaves_pending_control() {
    let mut set = ControlSet::new();
    set.add_animation(1, clip(1000), EndControl::Normal, rate_one(), AnimationCommand::Start).unwrap();
    set.add_deferred_animation(2, clip(1000), EndControl::Normal, rate_one(), 1, DeferStartRelation::End).unwrap();
    let before = state(&set, 2);
    assert_eq!(set.toggle(2), Ok(()));
    assert_eq!(state(&set, 2), before);
}

#[test]
fn paused_control_does_not_advance() {
    let mut set = ControlSet::new();
    set.add_animation(1, clip(1000), EndControl::Normal, rate_one(), AnimationCommand::Start).unwrap();
    set.advance(100);
    set.toggle(1).unwrap();
    set.advance(100);
    assert_eq!(cursor(&set, 1), 100 * RATE_ONE as u64);
}

#[test]
fn stop_removes_at_end() {
    let mut set = ControlSet::new();
    set.add_animation(1, clip(1000), EndControl::Stop, rate_one(), AnimationCommand::Start).unwrap();
    set.advance(999);
    assert!(set.has_animation(1));
    set.advance(1);
    assert!(!set.has_animation(1));
}

#[test]
fn normal_clamps_and_finishes() {
    let mut set = ControlSet::new();
    set.add_animation(1, clip(1000), EndControl::Normal, rate_one(), AnimationCommand::Start).unwrap();
    set.advance(1700);
    assert_eq!(state(&set, 1), ControlState::Finished);
    assert_eq!(cursor(&set, 1), 1000 * RATE_ONE as u64);
    set.advance(100);
    assert_eq!(cursor(&set, 1), 1000 * RATE_ONE as u64);
}

#[test]
fn rate_scales_advance() {
    let mut set = ControlSet::new();
    set.add_animation(1, clip(1000), EndControl::Normal, 500, AnimationCommand::Start).unwrap();
    set.advance(100);
    assert_eq!(cursor(&set, 1), 50 * RATE_ONE as u64);
    set.add_animation(2, clip(1000), EndControl::Normal, 2500, AnimationCommand::Start).unwrap();
    set.advance(100);
    assert_eq!(cursor(&set, 2), 250 * RATE_ONE as u64);
}

#[test]
fn counted_loop_finishes_clamped() {
    let mut set = ControlSet::new();
    set.add_animation(1, clip(1000), EndControl::Loop(Some(3)), rate_one(), AnimationCommand::Start).unwrap();
    for _ in 0..29 {
        set.advance(100);
    }
    assert_eq!(state(&set, 1), ControlState::Running);
    assert_eq!(set.get(1).unwrap().end, EndControl::Loop(Some(1)));
    assert_eq!(cursor(&set, 1), 900 * RATE_ONE as u64);
    set.advance(101);
    assert_eq!(state(&set, 1), ControlState::Finished);
    assert_eq!(cursor(&set, 1), 1000 * RATE_ONE as u64);
}

#[test]
fn counted_loop_in_one_long_tick() {
    let mut set = ControlSet::new();
    set.add_animation(1, clip(1000), EndControl::Loop(Some(2)), rate_one(), AnimationCommand::Start).unwrap();
    set.advance(1200);
    assert_eq!(state(&set, 1), ControlState::Running);
    assert_eq!(cursor(&set, 1), 200 * RATE_ONE as u64);
    assert_eq!(set.get(1).unwrap().end, EndControl::Loop(Some(1)));
    set.advance(5000);
    assert_eq!(state(&set, 1), ControlState::Finished);
    assert_eq!(cursor(&set, 1), 1000 * RATE_ONE as u64);
}

#[test]
fn endless_loop_wraps() {
    let mut set = ControlSet::new();
    set.add_animation(1, clip(800), EndControl::Loop(None), rate_one(), AnimationCommand::Start).unwrap();
    for _ in 0..5 {
        set.advance(800);
        assert_eq!(state(&set, 1), ControlState::Running);
        assert_eq!(cursor(&set, 1), 0);
    }
    set.advance(1000);
    assert_eq!(cursor(&set, 1), 200 * RATE_ONE as u64);
}

#[test]
fn deferred_on_end_starts_when_trigger_finishes() {
    let mut set = ControlSet::new();
    set.add_animation(0, clip(2000), EndControl::Normal, rate_one(), AnimationCommand::Start).unwrap();
    set.add_deferred_animation(1, clip(1000), EndControl::Normal, rate_one(), 0, DeferStartRelation::End).unwrap();
    set.advance(1000);
    assert_eq!(state(&set, 1), ControlState::Pending { trigger: 0, relation: DeferStartRelation::End });
    set.advance(1100);
    assert_eq!(state(&set, 0), ControlState::Finished);
    assert_eq!(state(&set, 1), ControlState::Running);
    assert_eq!(cursor(&set, 1), 0);
}

#[test]
fn deferred_on_fraction_starts_in_the_same_tick() {
    let mut set = ControlSet::new();
    set.add_animation(0, clip(3000), EndControl::Normal, rate_one(), AnimationCommand::Start).unwrap();
    set.add_deferred_animation(1, clip(1000), EndControl::Normal, rate_one(), 0, DeferStartRelation::Start(500))
        .unwrap();
    set.advance(1000);
    assert!(matches!(state(&set, 1), ControlState::Pending { .. }));
    set.advance(499);
    assert!(matches!(state(&set, 1), ControlState::Pending { .. }));
    set.advance(1);
    assert_eq!(cursor(&set, 0), 1500 * RATE_ONE as u64);
    assert_eq!(state(&set, 1), ControlState::Running);
    assert_eq!(cursor(&set, 1), 0);
}

#[test]
fn deferred_starts_when_trigger_is_gone() {
    let mut set = ControlSet::new();
    set.add_animation(0, clip(3000), EndControl::Normal, rate_one(), AnimationCommand::Start).unwrap();
    set.add_deferred_animation(1, clip(1000), EndControl::Normal, rate_one(), 0, DeferStartRelation::Start(900))
        .unwrap();
    set.abort(0);
    set.advance(10);
    assert_eq!(state(&set, 1), ControlState::Running);
    assert_eq!(cursor(&set, 1), 0);
}

#[test]
fn deferred_on_end_of_stopped_trigger() {
    let mut set = ControlSet::new();
    set.add_animation(0, clip(500), EndControl::Stop, rate_one(), AnimationCommand::Start).unwrap();
    set.add_deferred_animation(1, clip(1000), EndControl::Normal, rate_one(), 0, DeferStartRelation::End).unwrap();
    set.advance(600);
    assert!(!set.has_animation(0));
    assert_eq!(state(&set, 1), ControlState::Running);
}

#[test]
fn deferred_refusals() {
    let mut set = ControlSet::new();
    assert_eq!(
        set.add_deferred_animation(1, clip(1000), EndControl::Normal, rate_one(), 0, DeferStartRelation::End),
        Err(ControlError::UnknownTrigger)
    );
    set.add_animation(0, clip(1000), EndControl::Normal, rate_one(), AnimationCommand::Start).unwrap();
    assert_eq!(
        set.add_deferred_animation(0, clip(1000), EndControl::Normal, rate_one(), 0, DeferStartRelation::End),
        Err(ControlError::DuplicateId)
    );
    assert_eq!(
        set.add_deferred_animation(1, clip(1000), EndControl::Normal, -5, 0, DeferStartRelation::End),
        Err(ControlError::InvalidRate)
    );
    assert!(!set.has_animation(1));
}

#[test]
fn negative_rate_is_refused_and_kept() {
    let mut set = ControlSet::new();
    set.add_animation(1, clip(1000), EndControl::Normal, 750, AnimationCommand::Start).unwrap();
    assert_eq!(set.set_rate(1, -1000), Err(ControlError::InvalidRate));
    assert_eq!(set.get(1).unwrap().rate, 750);
    assert_eq!(set.set_rate(1, 2000), Ok(()));
    assert_eq!(set.get(1).unwrap().rate, 2000);
    assert_eq!(set.set_rate(4, 2000), Err(ControlError::NotFound));
}

#[test]
fn step_moves_between_keyframes() {
    let mut set = ControlSet::new();
    let def = Rc::new(AnimationDef::new(1000, vec![0, 300, 700]).unwrap());
    set.add_animation(1, def, EndControl::Normal, rate_one(), AnimationCommand::Start).unwrap();
    set.advance(100);
    assert_eq!(set.step(1, StepDirection::Forward), Ok(()));
    assert_eq!(cursor(&set, 1), 300 * RATE_ONE as u64);
    set.step(1, StepDirection::Forward).unwrap();
    assert_eq!(cursor(&set, 1), 700 * RATE_ONE as u64);
    set.step(1, StepDirection::Forward).unwrap();
    assert_eq!(cursor(&set, 1), 1000 * RATE_ONE as u64);
    set.step(1, StepDirection::Backward).unwrap();
    assert_eq!(cursor(&set, 1), 700 * RATE_ONE as u64);
    set.step(1, StepDirection::Backward).unwrap();
    set.step(1, StepDirection::Backward).unwrap();
    set.step(1, StepDirection::Backward).unwrap();
    assert_eq!(cursor(&set, 1), 0);
    assert_eq!(state(&set, 1), ControlState::Running);
    assert_eq!(set.step(2, StepDirection::Forward), Err(ControlError::NotFound));
}

#[test]
fn step_leaves_paused_control() {
    let mut set = ControlSet::new();
    set.add_animation(1, clip(1000), EndControl::Normal, rate_one(), AnimationCommand::Init).unwrap();
    set.step(1, StepDirection::Forward).unwrap();
    assert_eq!(cursor(&set, 1), 0);
}

#[test]
fn definition_validity() {
    assert!(AnimationDef::new(0, vec![]).is_none());
    assert!(AnimationDef::new(100, vec![0, 101]).is_none());
    let d = AnimationDef::new(100, vec![0, 50, 100]).unwrap();
    assert_eq!(d.duration, 100);
    assert_eq!(d.span_exec(), 100 * RATE_ONE as u64);
}
