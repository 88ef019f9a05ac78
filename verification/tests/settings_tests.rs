use physics_core::settings::{
    SolverSettings, DEFAULT_CACHE_PERSISTENCE_FRAMES, DEFAULT_MAX_SUB_STEPS,
    DEFAULT_POSITION_ITERATIONS, DEFAULT_VELOCITY_ITERATIONS, SUB_STEP_LIMIT,
};

#[test]
fn default_constants() {
    assert_eq!(DEFAULT_VELOCITY_ITERATIONS, 10);
    assert_eq!(DEFAULT_POSITION_ITERATIONS, 4);
    assert_eq!(DEFAULT_MAX_SUB_STEPS, 6);
    assert_eq!(DEFAULT_CACHE_PERSISTENCE_FRAMES, 45);
    assert_eq!(SUB_STEP_LIMIT, 16);
}

#[test]
fn a_new_world_has_the_defaults() {
    let settings = SolverSettings::new();
    assert_eq!(settings.velocity_iterations(), 10);
    assert_eq!(settings.position_iterations(), 4);
    assert_eq!(settings.max_sub_steps(), 6);
    assert_eq!(settings.cache_persistence_frames(), 45);
}

#[test]
fn iterations_are_taken_as_given_when_positive() {
    let mut settings = SolverSettings::new();
    settings.set_solver_iterations(25, 7);
    assert_eq!(settings.velocity_iterations(), 25);
    assert_eq!(settings.position_iterations(), 7);
    assert_eq!(settings.max_sub_steps(), 6);
    assert_eq!(settings.cache_persistence_frames(), 45);
}

#[test]
fn iterations_below_one_become_one() {
    let mut settings = SolverSettings::new();
    settings.set_solver_iterations(0, -3);
    assert_eq!(settings.velocity_iterations(), 1);
    assert_eq!(settings.position_iterations(), 1);
    settings.set_solver_iterations(i32::MIN, 2);
    assert_eq!(settings.velocity_iterations(), 1);
    assert_eq!(settings.position_iterations(), 2);
    settings.set_solver_iterations(i32::MAX, i32::MAX);
    assert_eq!(settings.velocity_iterations(), i32::MAX);
    assert_eq!(settings.position_iterations(), i32::MAX);
}

#[test]
fn substep_cap_is_moved_into_range() {
    let mut settings = SolverSettings::new();
    settings.set_max_substeps(0);
    assert_eq!(settings.max_sub_steps(), 1);
    settings.set_max_substeps(-5);
    assert_eq!(settings.max_sub_steps(), 1);
    settings.set_max_substeps(1);
    assert_eq!(settings.max_sub_steps(), 1);
    settings.set_max_substeps(9);
    assert_eq!(settings.max_sub_steps(), 9);
    settings.set_max_substeps(16);
    assert_eq!(settings.max_sub_steps(), 16);
    settings.set_max_substeps(17);
    assert_eq!(settings.max_sub_steps(), 16);
    settings.set_max_substeps(i32::MAX);
    assert_eq!(settings.max_sub_steps(), 16);
    assert_eq!(settings.velocity_iterations(), 10);
    assert_eq!(settings.position_iterations(), 4);
}

#[test]
fn a_scene_without_dynamic_bodies_takes_one_substep() {
    let settings = SolverSettings::new();
    assert_eq!(settings.sub_steps(None), 1);
}

#[test]
fn substeps_follow_the_recommendation_up_to_the_cap() {
    let settings = SolverSettings::new();
    assert_eq!(settings.sub_steps(Some(1)), 1);
    assert_eq!(settings.sub_steps(Some(3)), 3);
    assert_eq!(settings.sub_steps(Some(6)), 6);
    assert_eq!(settings.sub_steps(Some(7)), 6);
    assert_eq!(settings.sub_steps(Some(i32::MAX)), 6);
}

#[test]
fn substeps_never_fall_below_one() {
    let settings = SolverSettings::new();
    assert_eq!(settings.sub_steps(Some(0)), 1);
    assert_eq!(settings.sub_steps(Some(-4)), 1);
    assert_eq!(settings.sub_steps(Some(i32::MIN)), 1);
}

#[test]
fn substeps_respect_a_changed_cap() {
    let mut settings = SolverSettings::new();
    settings.set_max_substeps(16);
    assert_eq!(settings.sub_steps(Some(12)), 12);
    assert_eq!(settings.sub_steps(Some(40)), 16);
    settings.set_max_substeps(1);
    assert_eq!(settings.sub_steps(Some(12)), 1);
}
