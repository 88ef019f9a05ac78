//! The per-body sleep state machine: when a body is integrated, when it is
//! put to sleep and what wakes it.

use crate::body::BodyTag;
use crate::body::BODY_TYPE_DYNAMIC;
use vstd::prelude::*;

verus! {

/// Whether a body takes part in the simulation or rests.
#[derive(Clone, Copy, Debug, PartialEq, Eq, Structural)]
pub enum SleepState {
    Awake,
    Sleeping,
}

/// What the integrator does with one body in one substep.
#[derive(Clone, Copy, Debug, PartialEq, Eq, Structural)]
pub enum IntegrateGate {
    /// The body is left exactly as it is.
    Skip,
    /// The body is woken (its sleep timer cleared) and then integrated.
    WakeAndIntegrate,
    /// The body is integrated.
    Integrate,
}

/// What the sleep update does with one body at the end of a substep.
#[derive(Clone, Copy, Debug, PartialEq, Eq, Structural)]
pub enum SleepVerdict {
    /// The body is left exactly as it is.
    Untouched,
    /// The body is awake afterwards and its sleep timer is cleared.
    Wake,
    /// The sleep timer advances by the substep; the body stays as it was,
    /// awake or asleep.
    Rest,
    /// The sleep timer advances by the substep, the body is asleep
    /// afterwards and its velocities are cleared.
    FallAsleep,
}

/// What can happen to the sleep state of a body.
pub ghost enum SleepEvent {
    /// The integrator reaches the body; `pushed` says whether a force or
    /// torque is pending on it.
    Integrate { pushed: bool },
    /// A warm-start or external impulse of some size is applied to the body.
    Impulse,
    /// The body is rolled back to a time of impact.
    Rollback,
    /// The sleep update reaches the body; `quiet` says whether it moves
    /// slowly with no load pending, `due` whether its timer has run out.
    Settle { quiet: bool, due: bool },
}

/// The integrator skips every body that is not dynamic, and every sleeping
/// body unless a load is pending on it, which wakes it.
pub open spec fn gate(tag: BodyTag, state: SleepState, pushed: bool) -> IntegrateGate {
    if !tag.dynamic() {
        IntegrateGate::Skip
    } else if state == SleepState::Awake {
        IntegrateGate::Integrate
    } else if pushed {
        IntegrateGate::WakeAndIntegrate
    } else {
        IntegrateGate::Skip
    }
}

/// The sleep update leaves bodies that are not dynamic alone and keeps
/// dynamic bodies without the sleep flag awake. Of the others, a body that is
/// not quiet is woken; a quiet one rests, and falls asleep once its timer is
/// due.
pub open spec fn verdict(tag: BodyTag, quiet: bool, due: bool) -> SleepVerdict {
    if !tag.dynamic() {
        SleepVerdict::Untouched
    } else if !tag.sleep_flag() {
        SleepVerdict::Wake
    } else if !quiet {
        SleepVerdict::Wake
    } else if due {
        SleepVerdict::FallAsleep
    } else {
        SleepVerdict::Rest
    }
}

/// The state of a body after one event.
pub open spec fn next_state(tag: BodyTag, state: SleepState, event: SleepEvent) -> SleepState {
    match event {
        SleepEvent::Integrate { pushed } => match gate(tag, state, pushed) {
            IntegrateGate::WakeAndIntegrate => SleepState::Awake,
            _ => state,
        },
        SleepEvent::Impulse => if tag.dynamic() {
            SleepState::Awake
        } else {
            state
        },
        SleepEvent::Rollback => SleepState::Awake,
        SleepEvent::Settle { quiet, due } => match verdict(tag, quiet, due) {
            SleepVerdict::Untouched => state,
            SleepVerdict::Wake => SleepState::Awake,
            SleepVerdict::Rest => state,
            SleepVerdict::FallAsleep => SleepState::Sleeping,
        },
    }
}

/// The state of a body after the events `events`, in turn.
pub open spec fn state_after(tag: BodyTag, state: SleepState, events: Seq<SleepEvent>) -> SleepState
    decreases events.len(),
{
    if events.len() == 0 {
        state
    } else {
        state_after(tag, next_state(tag, state, events[0]), events.drop_first())
    }
}

/// An event that brings no stimulus: the integrator finding no load, or the
/// sleep update finding the body quiet.
pub open spec fn is_calm(event: SleepEvent) -> bool {
    match event {
        SleepEvent::Integrate { pushed } => !pushed,
        SleepEvent::Settle { quiet, due } => quiet,
        _ => false,
    }
}

/// The state that the flag word of a body record stands for: zero is asleep,
/// anything else awake.
pub open spec fn state_of_flag(is_awake: u32) -> SleepState {
    if is_awake != 0 {
        SleepState::Awake
    } else {
        SleepState::Sleeping
    }
}

/// The flag word written for a state: 1 awake, 0 asleep.
pub open spec fn flag_of(state: SleepState) -> u32 {
    match state {
        SleepState::Awake => 1,
        SleepState::Sleeping => 0,
    }
}

impl SleepState {
    /// Reads the state from the flag word of a body record.
    pub fn from_flag(is_awake: u32) -> (state: SleepState)
        ensures
            state == state_of_flag(is_awake),
    {
        if is_awake != 0 {
            SleepState::Awake
        } else {
            SleepState::Sleeping
        }
    }

    /// The flag word to write into a body record.
    pub fn flag(&self) -> (is_awake: u32)
        ensures
            is_awake == flag_of(*self),
    {
        match self {
            SleepState::Awake => 1,
            SleepState::Sleeping => 0,
        }
    }

    /// Whether the body is awake.
    pub fn is_awake(&self) -> (awake: bool)
        ensures
            awake == (*self == SleepState::Awake),
    {
        match self {
            SleepState::Awake => true,
            SleepState::Sleeping => false,
        }
    }

    /// The integrator reaches the body. Says what it does with the body and
    /// moves the state along.
    pub fn on_integrate(&mut self, tag: &BodyTag, pushed: bool) -> (g: IntegrateGate)
        ensures
            g == gate(*tag, *old(self), pushed),
            *final(self) == next_state(*tag, *old(self), SleepEvent::Integrate { pushed }),
    {
        if !tag.is_dynamic() {
            return IntegrateGate::Skip;
        }
        match *self {
            SleepState::Awake => IntegrateGate::Integrate,
            SleepState::Sleeping => {
                if pushed {
                    *self = SleepState::Awake;
                    IntegrateGate::WakeAndIntegrate
                } else {
                    IntegrateGate::Skip
                }
            },
        }
    }

    /// An impulse of some size is about to be applied. A dynamic body takes
    /// it and is awake afterwards, its sleep timer cleared; any other body
    /// does not respond. Says whether the body takes the impulse.
    pub fn on_impulse(&mut self, tag: &BodyTag) -> (taken: bool)
        ensures
            taken == tag.dynamic(),
            *final(self) == next_state(*tag, *old(self), SleepEvent::Impulse),
    {
        if tag.is_dynamic() {
            *self = SleepState::Awake;
            true
        } else {
            false
        }
    }

    /// The body is rolled back to a time of impact: it is awake afterwards
    /// and its sleep timer is cleared.
    pub fn on_rollback(&mut self)
        ensures
            *final(self) == SleepState::Awake,
            forall|tag: BodyTag|
                *final(self) == #[trigger] next_state(tag, *old(self), SleepEvent::Rollback),
    {
        *self = SleepState::Awake;
    }

    /// The sleep update reaches the body. Says what it does with the body
    /// and moves the state along.
    pub fn on_settle(&mut self, tag: &BodyTag, quiet: bool, due: bool) -> (v: SleepVerdict)
        ensures
            v == verdict(*tag, quiet, due),
            *final(self) == next_state(*tag, *old(self), SleepEvent::Settle { quiet, due }),
    {
        if !tag.is_dynamic() {
            return SleepVerdict::Untouched;
        }
        if !tag.enable_sleep() {
            *self = SleepState::Awake;
            return SleepVerdict::Wake;
        }
        if quiet {
            if due {
                *self = SleepState::Sleeping;
                SleepVerdict::FallAsleep
            } else {
                SleepVerdict::Rest
            }
        } else {
            *self = SleepState::Awake;
            SleepVerdict::Wake
        }
    }
}

/// The flag word written for a state reads back as that state, and a flag
/// word that is read and written back comes out as 0 or 1 with the same
/// meaning.
pub proof fn lemma_flag_round_trip(state: SleepState, word: u32)
    ensures
        state_of_flag(flag_of(state)) == state,
        flag_of(state_of_flag(word)) == if word != 0 {
            1u32
        } else {
            0u32
        },
        state_of_flag(flag_of(state_of_flag(word))) == state_of_flag(word),
{
}

/// A body whose type is not dynamic is closed to everything that moves
/// bodies: it is not dynamic, it is never swept, the integrator skips it,
/// the sleep update leaves it untouched and no impulse is taken by it. Its
/// sleep state never changes.
pub proof fn lemma_static_body_untouched(tag: BodyTag, state: SleepState, events: Seq<SleepEvent>)
    requires
        tag.body_type != BODY_TYPE_DYNAMIC,
        forall|i: int| 0 <= i < events.len() ==> events[i] != SleepEvent::Rollback,
    ensures
        !tag.dynamic(),
        !tag.swept(),
        forall|pushed: bool| gate(tag, state, pushed) == IntegrateGate::Skip,
        forall|quiet: bool, due: bool| verdict(tag, quiet, due) == SleepVerdict::Untouched,
        state_after(tag, state, events) == state,
    decreases events.len(),
{
    if events.len() > 0 {
        let rest = events.drop_first();
        assert(events[0] != SleepEvent::Rollback);
        assert forall|i: int| 0 <= i < rest.len() implies rest[i] != SleepEvent::Rollback by {
            assert(rest[i] == events[i + 1]);
        }
        lemma_static_body_untouched(tag, state, rest);
    }
}

/// A sleeping body that meets nothing but calm events stays asleep, for as
/// many substeps as one cares to look, and the integrator skips it every
/// time. This holds of bodies that may sleep: those with the sleep flag, and
/// those that are not dynamic.
pub proof fn lemma_sleeper_stays_asleep(tag: BodyTag, events: Seq<SleepEvent>)
    requires
        tag.sleep_flag() || !tag.dynamic(),
        forall|i: int| 0 <= i < events.len() ==> is_calm(#[trigger] events[i]),
    ensures
        gate(tag, SleepState::Sleeping, false) == IntegrateGate::Skip,
        state_after(tag, SleepState::Sleeping, events) == SleepState::Sleeping,
    decreases events.len(),
{
    if events.len() > 0 {
        let rest = events.drop_first();
        assert(is_calm(events[0]));
        assert forall|i: int| 0 <= i < rest.len() implies is_calm(#[trigger] rest[i]) by {
            assert(rest[i] == events[i + 1]);
        }
        lemma_sleeper_stays_asleep(tag, rest);
    }
}

/// What wakes a body and what puts it to sleep. A rollback wakes any body.
/// A dynamic body is woken by a pending load and by an impulse; if it may
/// sleep it is also woken by a sleep update that finds it not quiet, and it
/// falls asleep in the sleep update that finds it quiet with its timer due.
pub proof fn lemma_sleep_transitions(tag: BodyTag, state: SleepState, due: bool)
    ensures
        next_state(tag, state, SleepEvent::Rollback) == SleepState::Awake,
        tag.dynamic() ==> next_state(tag, state, SleepEvent::Integrate { pushed: true })
            == SleepState::Awake,
        tag.dynamic() ==> next_state(tag, state, SleepEvent::Impulse) == SleepState::Awake,
        tag.dynamic() ==> next_state(tag, state, SleepEvent::Settle { quiet: false, due })
            == SleepState::Awake,
        tag.dynamic() && tag.sleep_flag() ==> next_state(
            tag,
            state,
            SleepEvent::Settle { quiet: true, due: true },
        ) == SleepState::Sleeping,
{
}

} // verus!
