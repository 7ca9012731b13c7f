use vstd::prelude::*;
use vstd::arithmetic::div_mod::{lemma_fundamental_div_mod, lemma_fundamental_div_mod_converse, lemma_mod_bound};
use crate::definition::AnimationDef;
use std::rc::Rc;
use crate::control::{
    AnimationCommand, Control, ControlState, EndControl, at_cursor, tick, toggled,
};
use crate::control_set::{
    Entries, ControlError, added, holds_id, index_of, lemma_index_of, rate_entries, rate_outcome,
    toggle_entries, unique_ids, without, control_of,
};

verus! {

/// `k` successive ticks of `dt` for one control; `None` once it is removed.
pub open spec fn ticks(c: Control, dt: nat, k: nat) -> Option<Control>
    decreases k,
{
    if k == 0 {
        Some(c)
    } else {
        match ticks(c, dt, (k - 1) as nat) {
            Some(p) => tick(p, dt),
            None => None,
        }
    }
}

/// Adding an animation with a rate that is not negative leaves a control for its id.
pub proof fn law_added_is_present(
    s: Entries,
    id: usize,
    def: Rc<AnimationDef>,
    end: EndControl,
    rate: int,
    command: AnimationCommand,
)
    requires
        rate >= 0,
    ensures
        holds_id(added(s, id, def, end, rate, command), id),
{
    let r = added(s, id, def, end, rate, command);
    if holds_id(s, id) {
        let i = index_of(s, id);
        assert(r[i].0 == id);
    } else {
        assert(r[s.len() as int].0 == id);
    }
}

/// After an abort no control is left for the id, whatever came before.
pub proof fn law_aborted_is_absent(s: Entries, id: usize)
    requires
        unique_ids(s),
    ensures
        !holds_id(without(s, id), id),
{
    if holds_id(s, id) {
        let i = index_of(s, id);
        let r = without(s, id);
        assert forall|j: int| 0 <= j < r.len() implies r[j].0 != id by {
            let k = if j < i { j } else { j + 1 };
            assert(r[j] == s[k]);
        }
    }
}

/// Toggling the same id twice in a row gives back the entries as they were.
pub proof fn law_toggle_twice_restores(s: Entries, id: usize)
    requires
        unique_ids(s),
    ensures
        toggle_entries(toggle_entries(s, id), id) == s,
{
    if holds_id(s, id) {
        let i = index_of(s, id);
        let c = s[i].1;
        let once = toggle_entries(s, id);
        assert(once == s.update(i, (id, toggled(c))));
        assert(unique_ids(once));
        lemma_index_of(once, id, i);
        assert(control_of(once, id) == toggled(c));
        assert(toggled(toggled(c)) == c);
        assert(toggle_entries(once, id) =~= s);
    }
}

/// A negative rate is refused with `InvalidRate` and changes nothing.
pub proof fn law_negative_rate_refused(s: Entries, id: usize, rate: int)
    requires
        rate < 0,
    ensures
        rate_outcome(s, id, rate) == Err::<(), ControlError>(ControlError::InvalidRate),
        rate_entries(s, id, rate) == s,
{
}

proof fn lemma_carry(t: int, delta: int, d: int)
    requires
        d > 0,
        t >= 0,
        delta >= 0,
    ensures
        (t + delta) / d == t / d + (t % d + delta) / d,
        (t + delta) % d == (t % d + delta) % d,
{
    let x = t % d + delta;
    lemma_fundamental_div_mod(t, d);
    lemma_fundamental_div_mod(x, d);
    lemma_mod_bound(x, d);
    assert(t + delta == (t / d + x / d) * d + x % d) by (nonlinear_arith)
        requires
            t == d * (t / d) + t % d,
            x == d * (x / d) + x % d,
            x == t % d + delta,
    ;
    lemma_fundamental_div_mod_converse(t + delta, d, t / d + x / d, x % d);
}

proof fn lemma_div_at_least(t: int, d: int, n: int)
    requires
        d > 0,
        t >= 0,
    ensures
        t / d >= n <==> t >= n * d,
{
    lemma_fundamental_div_mod(t, d);
    lemma_mod_bound(t, d);
    let q = t / d;
    if q >= n {
        assert(t >= n * d) by (nonlinear_arith)
            requires t == d * q + t % d, t % d >= 0, q >= n, d > 0;
    } else {
        assert(t < n * d) by (nonlinear_arith)
            requires t == d * q + t % d, t % d < d, q < n, d > 0;
    }
}

proof fn lemma_counted_loop(c: Control, n: u32, dt: nat, j: nat)
    requires
        c.wf(),
        c.state is Running,
        c.cursor == 0,
        c.end == EndControl::Loop(Some(n)),
        n >= 1,
    ensures
        ({
            let t = j * dt * c.rate;
            let d = c.def.span() as int;
            if t < n * d {
                ticks(c, dt, j) == Some(Control {
                    def: c.def,
                    state: ControlState::Running,
                    cursor: (t % d) as u64,
                    rate: c.rate,
                    end: EndControl::Loop(Some((n - t / d) as u32)),
                })
            } else {
                ticks(c, dt, j) matches Some(f) && f.state is Finished && f.cursor == d
            }
        }),
    decreases j,
{
    let d = c.def.span() as int;
    let delta = dt * c.rate;
    if j == 0 {
        assert(0int % d == 0 && 0int / d == 0) by {
            lemma_fundamental_div_mod_converse(0, d, 0, 0);
        }
        assert(j * dt * c.rate == 0) by (nonlinear_arith)
            requires j == 0;
        assert(0 < n * d) by (nonlinear_arith)
            requires n >= 1, d > 0;
    } else {
        lemma_counted_loop(c, n, dt, (j - 1) as nat);
        let t0 = (j - 1) * dt * c.rate;
        let t = j * dt * c.rate;
        assert(t == t0 + delta) by (nonlinear_arith)
            requires t == j * dt * c.rate, t0 == (j - 1) * dt * c.rate, delta == dt * c.rate, j >= 1;
        assert(t0 >= 0 && delta >= 0) by (nonlinear_arith)
            requires t0 == (j - 1) * dt * c.rate, delta == dt * c.rate, j >= 1;
        lemma_carry(t0, delta, d);
        lemma_div_at_least(t0, d, n as int);
        lemma_div_at_least(t, d, n as int);
        lemma_mod_bound(t0, d);
        let x = t0 % d + delta;
        lemma_fundamental_div_mod(x, d);
        lemma_mod_bound(x, d);
        if t0 < n * d && x < d {
            lemma_fundamental_div_mod_converse(x, d, 0, x);
        }
    }
}

/// A control that loops a counted number of times (at least once), started
/// from the beginning, has finished at the end of its timeline, not wrapped,
/// once its ticks have covered that many full durations.
pub proof fn law_counted_loop_finishes(c: Control, n: u32, dt: nat, k: nat)
    requires
        c.wf(),
        c.state is Running,
        c.cursor == 0,
        c.end == EndControl::Loop(Some(n)),
        n >= 1,
        k * dt * c.rate >= n * c.def.span(),
    ensures
        ticks(c, dt, k) matches Some(f) && f.state is Finished && f.cursor == c.def.span(),
{
    lemma_counted_loop(c, n, dt, k);
}

proof fn lemma_endless_loop(c: Control, dt: nat, j: nat)
    requires
        c.wf(),
        c.state is Running,
        c.cursor == 0,
        c.end == EndControl::Loop(None),
    ensures
        ticks(c, dt, j) == Some(at_cursor(c, (j * dt * c.rate) % (c.def.span() as int))),
    decreases j,
{
    let d = c.def.span() as int;
    let delta = dt * c.rate;
    if j == 0 {
        assert(0int % d == 0) by {
            lemma_fundamental_div_mod_converse(0, d, 0, 0);
        }
        assert(j * dt * c.rate == 0) by (nonlinear_arith)
            requires j == 0;
        assert(at_cursor(c, 0) == c);
    } else {
        lemma_endless_loop(c, dt, (j - 1) as nat);
        let t0 = (j - 1) * dt * c.rate;
        let t = j * dt * c.rate;
        assert(t == t0 + delta) by (nonlinear_arith)
            requires t == j * dt * c.rate, t0 == (j - 1) * dt * c.rate, delta == dt * c.rate, j >= 1;
        assert(t0 >= 0 && delta >= 0) by (nonlinear_arith)
            requires t0 == (j - 1) * dt * c.rate, delta == dt * c.rate, j >= 1;
        lemma_carry(t0, delta, d);
        lemma_mod_bound(t0, d);
        let x = t0 % d + delta;
        let p = at_cursor(c, t0 % d);
        assert(ticks(c, dt, (j - 1) as nat) == Some(p));
        assert(p.cursor == t0 % d);
        assert(p.cursor + dt * p.rate == x);
        if x < d {
            lemma_fundamental_div_mod_converse(x, d, 0, x);
            assert(tick(p, dt) == Some(at_cursor(p, x)));
            assert(x == t % d);
            assert(at_cursor(p, x) == at_cursor(c, t % d));
        } else {
            assert(tick(p, dt) == Some(at_cursor(p, x % d)));
            assert(x % d == t % d);
            assert(at_cursor(p, x % d) == at_cursor(c, t % d));
        }
        assert(ticks(c, dt, j) == tick(p, dt));
    }
}

/// Looping without a count, a control started from the beginning keeps
/// running, its cursor at the rate-scaled time its ticks covered modulo its
/// duration; after whole durations it is back at the start.
pub proof fn law_endless_loop_wraps(c: Control, dt: nat, k: nat)
    requires
        c.wf(),
        c.state is Running,
        c.cursor == 0,
        c.end == EndControl::Loop(None),
    ensures
        ticks(c, dt, k) == Some(at_cursor(c, (k * dt * c.rate) % (c.def.span() as int))),
        dt * c.rate == c.def.span() ==> ticks(c, dt, k) == Some(at_cursor(c, 0)),
{
    lemma_endless_loop(c, dt, k);
    let d = c.def.span() as int;
    if dt * c.rate == d {
        assert(k * dt * c.rate == k * d) by (nonlinear_arith)
            requires dt * c.rate == d;
        lemma_fundamental_div_mod_converse(k * d, d, k as int, 0);
    }
}

} // verus!
