//! The sequencing engine: decides, action by action, whether the optional
//! global inter-action sleep runs immediately before the action.
//!
//! The rule: the global sleep is inserted between two consecutive probes,
//! never before the first action and never right after an explicit sleep
//! (which would double the pause).

use vstd::prelude::*;
use crate::opts::Target;

verus! {

/// The steps a run performs for `actions` when the global sleep lasts `gs`
/// seconds and `skip` tells whether the sleep before the next probe is
/// suppressed. A zero `gs` disables the feature entirely.
pub open spec fn spec_schedule_from(actions: Seq<Target>, gs: u8, skip: bool) -> Seq<Target>
    decreases actions.len(),
{
    if gs == 0 {
        actions
    } else if actions.len() == 0 {
        Seq::empty()
    } else {
        let a = actions[0];
        let rest = spec_schedule_from(actions.skip(1), gs, !a.spec_is_probe());
        if a.spec_is_probe() && !skip {
            seq![Target::Sleep { secs: gs }, a] + rest
        } else {
            seq![a] + rest
        }
    }
}

/// The steps of a whole run: the sleep before the very first action is
/// always suppressed.
pub open spec fn spec_schedule(actions: Seq<Target>, gs: u8) -> Seq<Target> {
    spec_schedule_from(actions, gs, true)
}

/// The state of the sequencing loop.
pub struct Sequencer {
    /// Seconds of the global inter-action sleep; 0 disables the feature.
    pub global_sleep: u8,
    /// True when no global sleep may precede the next probe: at the start
    /// of a run, and right after an explicit sleep.
    pub skip_sleep: bool,
}

impl Sequencer {
    /// A fresh sequencer: the very first action is never preceded by a
    /// global sleep.
    pub fn new(global_sleep: u8) -> (r: Sequencer)
        ensures
            r.global_sleep == global_sleep,
            r.skip_sleep,
    {
        Sequencer { global_sleep, skip_sleep: true }
    }

    /// Decides whether a global sleep runs immediately before `action`,
    /// and moves to the next state: after a probe the following round may
    /// sleep, after an explicit sleep it may not. With the feature
    /// disabled the state never changes and no sleep is ever inserted.
    pub fn advance(&mut self, action: &Target) -> (insert: bool)
        ensures
            insert == (old(self).global_sleep != 0 && action.spec_is_probe()
                && !old(self).skip_sleep),
            final(self).global_sleep == old(self).global_sleep,
            final(self).skip_sleep == if old(self).global_sleep != 0 {
                !action.spec_is_probe()
            } else {
                old(self).skip_sleep
            },
    {
        if self.global_sleep > 0 {
            let is_probe = action.is_sleep();
            let insert = is_probe && !self.skip_sleep;
            self.skip_sleep = !is_probe;
            insert
        } else {
            false
        }
    }
}

/// Expands a run configuration into the exact list of steps to execute, in
/// order: the input actions with a global sleep of `global_sleep` seconds
/// inserted between consecutive probes (never before the first action,
/// never right after an explicit sleep, never when `global_sleep` is 0).
pub fn schedule(actions: &Vec<Target>, global_sleep: u8) -> (r: Vec<Target>)
    ensures
        r@ == spec_schedule(actions@, global_sleep),
{
    let mut out: Vec<Target> = Vec::new();
    let mut state = Sequencer::new(global_sleep);
    let mut i: usize = 0;
    proof {
        assert(actions@.skip(0) =~= actions@);
        assert(out@ + spec_schedule_from(actions@.skip(0), global_sleep, true) =~= spec_schedule(
            actions@,
            global_sleep,
        ));
        assert(actions@.take(0) =~= out@);
    }
    while i < actions.len()
        invariant
            0 <= i <= actions@.len(),
            state.global_sleep == global_sleep,
            out@ + spec_schedule_from(actions@.skip(i as int), global_sleep, state.skip_sleep)
                == spec_schedule(actions@, global_sleep),
            global_sleep == 0 ==> out@ == actions@.take(i as int),
        decreases actions@.len() - i,
    {
        let a = actions[i];
        proof {
            assert(actions@.skip(i as int)[0] == a);
            assert(actions@.skip(i as int).skip(1) =~= actions@.skip(i as int + 1));
        }
        if state.advance(&a) {
            out.push(Target::Sleep { secs: global_sleep });
        }
        out.push(a);
        proof {
            if global_sleep == 0 {
                assert(out@ =~= actions@.take(i as int + 1));
                assert(out@ + actions@.skip(i as int + 1) =~= actions@);
            } else {
                assert(out@ + spec_schedule_from(
                    actions@.skip(i as int + 1),
                    global_sleep,
                    state.skip_sleep,
                ) =~= spec_schedule(actions@, global_sleep));
            }
        }
        i += 1;
    }
    proof {
        assert(actions@.skip(actions@.len() as int) =~= Seq::<Target>::empty());
        if global_sleep == 0 {
            assert(out@ =~= spec_schedule(actions@, global_sleep));
        } else {
            assert(out@ + Seq::<Target>::empty() =~= out@);
        }
    }
    out
}

/// Law: with the global sleep disabled (0 seconds), the schedule is the
/// action list itself — no delay is ever inserted, whatever the actions.
pub proof fn lemma_schedule_disabled(actions: Seq<Target>)
    ensures
        spec_schedule(actions, 0) == actions,
{
}

/// Law: a global sleep never runs before the first action of a run: the
/// schedule of a non-empty action list always begins with that list's
/// first action.
pub proof fn lemma_no_leading_sleep(actions: Seq<Target>, gs: u8)
    requires
        actions.len() > 0,
    ensures
        spec_schedule(actions, gs).len() > 0,
        spec_schedule(actions, gs)[0] == actions[0],
{
}

} // verus!
