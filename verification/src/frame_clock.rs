//! Fixed-step accounting of one frame: how many fixed steps a call may run
//! and when the unsimulated backlog is given up.

use vstd::prelude::*;

verus! {

/// A single call never runs more fixed steps than this.
pub const MAX_FIXED_STEPS_PER_FRAME: u32 = 8;

/// Whether one more fixed step is run, given the steps already run in this
/// call and whether the accumulator still holds a whole fixed step.
pub open spec fn runs_step(steps: nat, backlog: bool) -> bool {
    backlog && steps < MAX_FIXED_STEPS_PER_FRAME
}

/// Steps run once the observations `backlog` have been answered in turn,
/// starting from `steps`.
pub open spec fn steps_after(steps: nat, backlog: Seq<bool>) -> nat
    decreases backlog.len(),
{
    if backlog.len() == 0 {
        steps
    } else if runs_step(steps, backlog[0]) {
        steps_after(steps + 1, backlog.drop_first())
    } else {
        steps_after(steps, backlog.drop_first())
    }
}

/// Counter of the fixed steps run within one call.
pub struct FrameClock {
    steps: u32,
}

impl FrameClock {
    #[verifier::type_invariant]
    spec fn bounded(&self) -> bool {
        self.steps <= MAX_FIXED_STEPS_PER_FRAME
    }

    /// Fixed steps run so far in this call.
    pub closed spec fn steps_taken(&self) -> nat {
        self.steps as nat
    }

    /// Opens the accounting of one call. A call with a time step that is not
    /// positive, or without bodies, does nothing at all: it gets no clock.
    pub fn begin(dt_positive: bool, body_count: usize) -> (clock: Option<FrameClock>)
        ensures
            clock is Some <==> dt_positive && body_count > 0,
            clock matches Some(c) ==> c.steps_taken() == 0,
    {
        if !dt_positive || body_count == 0 {
            None
        } else {
            Some(FrameClock { steps: 0 })
        }
    }

    /// Decides whether one more fixed step is run. `backlog` says whether the
    /// accumulator holds at least one fixed step. A step that is granted is
    /// counted.
    pub fn take_step(&mut self, backlog: bool) -> (run: bool)
        ensures
            run == runs_step(old(self).steps_taken(), backlog),
            final(self).steps_taken() == old(self).steps_taken() + if run {
                1nat
            } else {
                0nat
            },
    {
        proof {
            use_type_invariant(&*self);
        }
        if backlog && self.steps < MAX_FIXED_STEPS_PER_FRAME {
            self.steps = self.steps + 1;
            true
        } else {
            false
        }
    }

    /// Whether the call has used up its fixed steps. What is then left in
    /// the accumulator is discarded rather than carried into the next call.
    pub fn saturated(&self) -> (full: bool)
        ensures
            full == (self.steps_taken() == MAX_FIXED_STEPS_PER_FRAME),
    {
        self.steps == MAX_FIXED_STEPS_PER_FRAME
    }

    /// Fixed steps run so far in this call.
    pub fn steps(&self) -> (n: u32)
        ensures
            n == self.steps_taken(),
            n <= MAX_FIXED_STEPS_PER_FRAME,
    {
        proof {
            use_type_invariant(self);
        }
        self.steps
    }
}

/// However long the backlog lasts, a call that starts with no step run never
/// runs more than `MAX_FIXED_STEPS_PER_FRAME` of them, nor more than it was
/// asked about.
pub proof fn lemma_steps_bounded(steps: nat, backlog: Seq<bool>)
    requires
        steps <= MAX_FIXED_STEPS_PER_FRAME,
    ensures
        steps <= steps_after(steps, backlog) <= MAX_FIXED_STEPS_PER_FRAME,
        steps_after(steps, backlog) <= steps + backlog.len(),
    decreases backlog.len(),
{
    if backlog.len() > 0 {
        if runs_step(steps, backlog[0]) {
            lemma_steps_bounded(steps + 1, backlog.drop_first());
        } else {
            lemma_steps_bounded(steps, backlog.drop_first());
        }
    }
}

/// While the backlog lasts, every answer is a step until the cap is reached:
/// after `n` observations of a backlog the call has run `n` steps, or the
/// cap if `n` is larger.
pub proof fn lemma_steps_under_backlog(n: nat)
    ensures
        steps_after(0, Seq::new(n, |i: int| true)) == if n <= MAX_FIXED_STEPS_PER_FRAME {
            n
        } else {
            MAX_FIXED_STEPS_PER_FRAME as nat
        },
{
    lemma_steps_under_backlog_from(0, n);
}

proof fn lemma_steps_under_backlog_from(steps: nat, n: nat)
    requires
        steps <= MAX_FIXED_STEPS_PER_FRAME,
    ensures
        steps_after(steps, Seq::new(n, |i: int| true)) == if steps + n
            <= MAX_FIXED_STEPS_PER_FRAME {
            steps + n
        } else {
            MAX_FIXED_STEPS_PER_FRAME as nat
        },
    decreases n,
{
    let all = Seq::new(n, |i: int| true);
    if n > 0 {
        assert(all.drop_first() =~= Seq::new((n - 1) as nat, |i: int| true));
        if steps < MAX_FIXED_STEPS_PER_FRAME {
            lemma_steps_under_backlog_from(steps + 1, (n - 1) as nat);
        } else {
            lemma_steps_under_backlog_from(steps, (n - 1) as nat);
        }
    }
}

} // verus!
