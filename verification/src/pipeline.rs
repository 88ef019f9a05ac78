//! The order in which the phases of one substep run.

use crate::settings::SolverSettings;
use vstd::prelude::*;

verus! {

/// One phase of a substep.
#[derive(Clone, Copy, Debug, PartialEq, Eq, Structural)]
pub enum Phase {
    Integrate,
    Broadphase,
    TimeOfImpact,
    Narrowphase,
    PrepareJoints,
    PrepareContacts,
    WarmStartContacts,
    WarmStartJoints,
    SolveJointVelocities,
    SolveContactVelocities,
    SolveJointPositions,
    SolveContactPositions,
    StoreContacts,
    StoreJoints,
    PruneContacts,
    PruneJoints,
    UpdateSleep,
}

/// From integration to warm start. The broadphase runs twice: once to find
/// the pairs the time-of-impact pass looks at, and again on the poses that
/// pass leaves behind.
pub open spec fn opening() -> Seq<Phase> {
    seq![
        Phase::Integrate,
        Phase::Broadphase,
        Phase::TimeOfImpact,
        Phase::Broadphase,
        Phase::Narrowphase,
        Phase::PrepareJoints,
        Phase::PrepareContacts,
        Phase::WarmStartContacts,
        Phase::WarmStartJoints,
    ]
}

/// `n` solver iterations, each of which visits the joints first and the
/// contacts second.
pub open spec fn rounds(joints: Phase, contacts: Phase, n: nat) -> Seq<Phase> {
    Seq::new(
        2 * n,
        |k: int|
            if k % 2 == 0 {
                joints
            } else {
                contacts
            },
    )
}

/// Cache update, pruning and the sleep update.
pub open spec fn closing() -> Seq<Phase> {
    seq![
        Phase::StoreContacts,
        Phase::StoreJoints,
        Phase::PruneContacts,
        Phase::PruneJoints,
        Phase::UpdateSleep,
    ]
}

/// The phases of one substep with `velocity_iterations` velocity iterations
/// and `position_iterations` position iterations, in the order they run.
pub open spec fn substep_plan(velocity_iterations: nat, position_iterations: nat) -> Seq<Phase> {
    opening() + rounds(
        Phase::SolveJointVelocities,
        Phase::SolveContactVelocities,
        velocity_iterations,
    ) + rounds(Phase::SolveJointPositions, Phase::SolveContactPositions, position_iterations)
        + closing()
}

/// Walks through the phases of one substep.
pub struct SubstepCursor {
    velocity_iterations: u64,
    position_iterations: u64,
    position: u64,
}

impl SubstepCursor {
    #[verifier::type_invariant]
    spec fn bounded(&self) -> bool {
        &&& 1 <= self.velocity_iterations <= i32::MAX
        &&& 1 <= self.position_iterations <= i32::MAX
        &&& self.position <= self.plan().len()
    }

    /// The whole sequence of phases the cursor walks through.
    pub closed spec fn plan(&self) -> Seq<Phase> {
        substep_plan(self.velocity_iterations as nat, self.position_iterations as nat)
    }

    /// Number of phases already handed out.
    pub closed spec fn done(&self) -> nat {
        self.position as nat
    }

    /// A cursor at the start of a substep run under `settings`.
    pub fn new(settings: &SolverSettings) -> (cursor: SubstepCursor)
        ensures
            cursor.plan() == substep_plan(
                settings@.velocity_iterations as nat,
                settings@.position_iterations as nat,
            ),
            cursor.done() == 0,
    {
        let v: i32 = settings.velocity_iterations();
        let p: i32 = settings.position_iterations();
        SubstepCursor { velocity_iterations: v as u64, position_iterations: p as u64, position: 0 }
    }

    /// Hands out the next phase, or `None` once the substep is complete.
    pub fn next(&mut self) -> (phase: Option<Phase>)
        ensures
            final(self).plan() == old(self).plan(),
            phase == if old(self).done() < old(self).plan().len() {
                Some(old(self).plan()[old(self).done() as int])
            } else {
                None::<Phase>
            },
            final(self).done() == if phase is Some {
                old(self).done() + 1
            } else {
                old(self).done()
            },
            final(self).done() <= final(self).plan().len(),
    {
        proof {
            use_type_invariant(&*self);
        }
        let velocity_len: u64 = 2 * self.velocity_iterations;
        let position_len: u64 = 2 * self.position_iterations;
        let k: u64 = self.position;
        let phase: Phase = if k < 9 {
            if k == 0 {
                Phase::Integrate
            } else if k == 1 {
                Phase::Broadphase
            } else if k == 2 {
                Phase::TimeOfImpact
            } else if k == 3 {
                Phase::Broadphase
            } else if k == 4 {
                Phase::Narrowphase
            } else if k == 5 {
                Phase::PrepareJoints
            } else if k == 6 {
                Phase::PrepareContacts
            } else if k == 7 {
                Phase::WarmStartContacts
            } else {
                Phase::WarmStartJoints
            }
        } else if k < 9 + velocity_len {
            if (k - 9) % 2 == 0 {
                Phase::SolveJointVelocities
            } else {
                Phase::SolveContactVelocities
            }
        } else if k < 9 + velocity_len + position_len {
            if (k - 9 - velocity_len) % 2 == 0 {
                Phase::SolveJointPositions
            } else {
                Phase::SolveContactPositions
            }
        } else if k < 9 + velocity_len + position_len + 5 {
            let r: u64 = k - 9 - velocity_len - position_len;
            if r == 0 {
                Phase::StoreContacts
            } else if r == 1 {
                Phase::StoreJoints
            } else if r == 2 {
                Phase::PruneContacts
            } else if r == 3 {
                Phase::PruneJoints
            } else {
                Phase::UpdateSleep
            }
        } else {
            return None;
        };
        self.position = k + 1;
        Some(phase)
    }
}

/// Every substep starts by integrating and ends with the sleep update, and
/// its length grows by two phases with each solver iteration.
pub proof fn lemma_plan_shape(velocity_iterations: nat, position_iterations: nat)
    ensures
        substep_plan(velocity_iterations, position_iterations).len() == 14 + 2
            * velocity_iterations + 2 * position_iterations,
        substep_plan(velocity_iterations, position_iterations).first() == Phase::Integrate,
        substep_plan(velocity_iterations, position_iterations).last() == Phase::UpdateSleep,
{
}

} // verus!
