//! Iteration counts of the solver and the cap on adaptive substeps.

use vstd::prelude::*;

verus! {

/// Velocity iterations per substep in a new world.
pub const DEFAULT_VELOCITY_ITERATIONS: i32 = 10;

/// Position iterations per substep in a new world.
pub const DEFAULT_POSITION_ITERATIONS: i32 = 4;

/// Substep cap of a new world.
pub const DEFAULT_MAX_SUB_STEPS: i32 = 6;

/// No setting can raise the substep cap beyond this.
pub const SUB_STEP_LIMIT: i32 = 16;

/// Frames a manifold stays cached after its pair last touched.
pub const DEFAULT_CACHE_PERSISTENCE_FRAMES: u32 = 45;

/// `value`, raised to 1 where it is smaller.
pub open spec fn at_least_one(value: int) -> int {
    if value < 1 {
        1
    } else {
        value
    }
}

/// `value`, moved into `1..=cap`.
pub open spec fn within_cap(value: int, cap: int) -> int {
    if value < 1 {
        1
    } else if value > cap {
        cap
    } else {
        value
    }
}

/// The integer tunables of a world. Each count is at least one, and the
/// substep cap never exceeds `SUB_STEP_LIMIT`.
pub struct SolverSettings {
    velocity_iterations: i32,
    position_iterations: i32,
    max_sub_steps: i32,
    cache_persistence_frames: u32,
}

/// The settings as plain numbers.
pub ghost struct SettingsView {
    pub velocity_iterations: int,
    pub position_iterations: int,
    pub max_sub_steps: int,
    pub cache_persistence_frames: int,
}

impl View for SolverSettings {
    type V = SettingsView;

    closed spec fn view(&self) -> SettingsView {
        SettingsView {
            velocity_iterations: self.velocity_iterations as int,
            position_iterations: self.position_iterations as int,
            max_sub_steps: self.max_sub_steps as int,
            cache_persistence_frames: self.cache_persistence_frames as int,
        }
    }
}

impl SolverSettings {
    #[verifier::type_invariant]
    spec fn valid(&self) -> bool {
        &&& self.velocity_iterations >= 1
        &&& self.position_iterations >= 1
        &&& 1 <= self.max_sub_steps <= SUB_STEP_LIMIT
    }

    /// The settings of a freshly created world.
    pub fn new() -> (settings: SolverSettings)
        ensures
            settings@ == (SettingsView {
                velocity_iterations: DEFAULT_VELOCITY_ITERATIONS as int,
                position_iterations: DEFAULT_POSITION_ITERATIONS as int,
                max_sub_steps: DEFAULT_MAX_SUB_STEPS as int,
                cache_persistence_frames: DEFAULT_CACHE_PERSISTENCE_FRAMES as int,
            }),
    {
        SolverSettings {
            velocity_iterations: DEFAULT_VELOCITY_ITERATIONS,
            position_iterations: DEFAULT_POSITION_ITERATIONS,
            max_sub_steps: DEFAULT_MAX_SUB_STEPS,
            cache_persistence_frames: DEFAULT_CACHE_PERSISTENCE_FRAMES,
        }
    }

    /// Sets both iteration counts. A count below one is taken as one.
    pub fn set_solver_iterations(&mut self, velocity_iterations: i32, position_iterations: i32)
        ensures
            final(self)@ == (SettingsView {
                velocity_iterations: at_least_one(velocity_iterations as int),
                position_iterations: at_least_one(position_iterations as int),
                ..old(self)@
            }),
    {
        proof {
            use_type_invariant(&*self);
        }
        self.velocity_iterations = if velocity_iterations < 1 {
            1
        } else {
            velocity_iterations
        };
        self.position_iterations = if position_iterations < 1 {
            1
        } else {
            position_iterations
        };
    }

    /// Sets the substep cap, moved into `1..=SUB_STEP_LIMIT`.
    pub fn set_max_substeps(&mut self, max_sub_steps: i32)
        ensures
            final(self)@ == (SettingsView {
                max_sub_steps: within_cap(max_sub_steps as int, SUB_STEP_LIMIT as int),
                ..old(self)@
            }),
    {
        proof {
            use_type_invariant(&*self);
        }
        self.max_sub_steps = if max_sub_steps < 1 {
            1
        } else if max_sub_steps > SUB_STEP_LIMIT {
            SUB_STEP_LIMIT
        } else {
            max_sub_steps
        };
    }

    /// Velocity iterations per substep.
    pub fn velocity_iterations(&self) -> (n: i32)
        ensures
            n == self@.velocity_iterations,
            n >= 1,
    {
        proof {
            use_type_invariant(self);
        }
        self.velocity_iterations
    }

    /// Position iterations per substep.
    pub fn position_iterations(&self) -> (n: i32)
        ensures
            n == self@.position_iterations,
            n >= 1,
    {
        proof {
            use_type_invariant(self);
        }
        self.position_iterations
    }

    /// The most substeps a fixed step is cut into.
    pub fn max_sub_steps(&self) -> (n: i32)
        ensures
            n == self@.max_sub_steps,
            1 <= n <= SUB_STEP_LIMIT,
    {
        proof {
            use_type_invariant(self);
        }
        self.max_sub_steps
    }

    /// Frames a manifold stays cached after its pair last touched.
    pub fn cache_persistence_frames(&self) -> (n: u32)
        ensures
            n == self@.cache_persistence_frames,
    {
        self.cache_persistence_frames
    }

    /// Number of substeps a fixed step is cut into.
    ///
    /// `recommended` is the count that would keep every dynamic body's motion
    /// per substep within its safe distance, or `None` when the scene holds
    /// no dynamic body. The result is that count moved into
    /// `1..=max_sub_steps`; a scene without dynamic bodies takes one substep.
    pub fn sub_steps(&self, recommended: Option<i32>) -> (k: i32)
        ensures
            k == match recommended {
                Some(r) => within_cap(r as int, self@.max_sub_steps),
                None => 1,
            },
            1 <= k <= self@.max_sub_steps,
    {
        proof {
            use_type_invariant(self);
        }
        match recommended {
            None => 1,
            Some(r) => {
                if r < 1 {
                    1
                } else if r > self.max_sub_steps {
                    self.max_sub_steps
                } else {
                    r
                }
            },
        }
    }
}

} // verus!
