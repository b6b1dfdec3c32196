use nomercy::engine::{simulate, EngineConfig, SimulationSystem};
use nomercy::flake::{run_flake_schedule, Flake, FlakeConfig, FlakeObservation, FlakeOp, FlakeState};

fn scenario() -> Vec<FlakeOp> {
    vec![FlakeOp::Increment(2), FlakeOp::Decrement(1), FlakeOp::Reset(5)]
}

#[test]
fn empty_schedule_yields_fresh_state() {
    let outcome = run_flake_schedule(7, None, &[]);
    assert!(outcome.steps.is_empty());
    assert_eq!(outcome.crash_state, FlakeState { counter: 0, journal: vec![] });
    let initial = Flake::init(FlakeConfig::default()).observe();
    assert_eq!(outcome.post_crash_observation, initial);
    assert_eq!(outcome.post_crash_observation, FlakeObservation { counter: 0, applied: vec![] });
}

#[test]
fn repeated_runs_are_identical() {
    let operations = scenario();
    let first = run_flake_schedule(42, Some(10), &operations);
    let second = run_flake_schedule(42, Some(10), &operations);
    assert_eq!(first.steps.len(), second.steps.len());
    for (a, b) in first.steps.iter().zip(second.steps.iter()) {
        assert_eq!(a.index, b.index);
        assert_eq!(a.operation, b.operation);
        assert_eq!(a.observation, b.observation);
    }
    assert_eq!(first.crash_state, second.crash_state);
    assert_eq!(first.post_crash_observation, second.post_crash_observation);
}

#[test]
fn steps_are_numbered_from_one_and_hold_their_operation() {
    let operations = scenario();
    let outcome = run_flake_schedule(1, None, &operations);
    let indices: Vec<usize> = outcome.steps.iter().map(|step| step.index).collect();
    assert_eq!(indices, vec![1, 2, 3]);
    for (step, operation) in outcome.steps.iter().zip(operations.iter()) {
        assert_eq!(&step.operation, operation);
    }
}

#[test]
fn each_observation_holds_the_journal_so_far() {
    let operations = scenario();
    let outcome = run_flake_schedule(1, None, &operations);
    assert_eq!(outcome.steps[0].observation.applied, vec![FlakeOp::Increment(2)]);
    assert_eq!(
        outcome.steps[1].observation.applied,
        vec![FlakeOp::Increment(2), FlakeOp::Decrement(1)]
    );
    assert_eq!(outcome.steps[2].observation.applied, operations);
}

#[test]
fn configuration_is_carried_into_the_outcome() {
    let outcome = run_flake_schedule(42, Some(10), &scenario());
    assert_eq!(outcome.config.seed, 42);
    assert_eq!(outcome.config.budget, Some(10));
    assert_eq!(outcome.config.system_config.initial_counter, 0);
    let unbounded = run_flake_schedule(3, None, &[]);
    assert_eq!(unbounded.config.seed, 3);
    assert_eq!(unbounded.config.budget, None);
}

#[test]
fn simulate_starts_from_the_configured_counter() {
    let config = EngineConfig {
        seed: 0,
        budget: None,
        system_config: FlakeConfig { initial_counter: 10 },
    };
    let operations = vec![FlakeOp::Decrement(3), FlakeOp::Increment(-4), FlakeOp::Decrement(-1)];
    let outcome = simulate::<Flake>(config, &operations);
    let counters: Vec<i64> = outcome.steps.iter().map(|step| step.observation.counter).collect();
    assert_eq!(counters, vec![7, 3, 4]);
    assert_eq!(outcome.crash_state, FlakeState { counter: 4, journal: operations });
    assert_eq!(outcome.config.system_config.initial_counter, 10);
}

#[test]
fn reset_overrides_whatever_came_before() {
    let operations = vec![FlakeOp::Increment(100), FlakeOp::Reset(-7), FlakeOp::Increment(1)];
    let outcome = run_flake_schedule(0, None, &operations);
    let counters: Vec<i64> = outcome.steps.iter().map(|step| step.observation.counter).collect();
    assert_eq!(counters, vec![100, -7, -6]);
}

#[test]
fn counter_reaches_both_ends_of_its_range() {
    let operations = vec![
        FlakeOp::Increment(i64::MAX),
        FlakeOp::Decrement(i64::MAX),
        FlakeOp::Decrement(i64::MAX),
        FlakeOp::Decrement(1),
    ];
    let outcome = run_flake_schedule(0, None, &operations);
    let counters: Vec<i64> = outcome.steps.iter().map(|step| step.observation.counter).collect();
    assert_eq!(counters, vec![i64::MAX, 0, -i64::MAX, i64::MIN]);
}

#[test]
fn crash_and_restore_keep_counter_and_journal() {
    let mut system = Flake::init(FlakeConfig { initial_counter: 0 });
    system.apply(FlakeOp::Increment(4));
    system.apply(FlakeOp::Decrement(9));
    let before = system.observe();
    let snapshot = system.crash();
    assert_eq!(
        snapshot,
        FlakeState { counter: -5, journal: vec![FlakeOp::Increment(4), FlakeOp::Decrement(9)] }
    );
    let restored = Flake::restore(snapshot);
    let after = restored.observe();
    assert_eq!(after, before);
    assert_eq!(after.counter, -5);
    assert_eq!(after.applied, vec![FlakeOp::Increment(4), FlakeOp::Decrement(9)]);
}

#[test]
fn observing_twice_changes_nothing() {
    let mut system = Flake::init(FlakeConfig { initial_counter: 3 });
    system.apply(FlakeOp::Increment(1));
    let first = system.observe();
    let second = system.observe();
    assert_eq!(first, second);
    assert_eq!(first, FlakeObservation { counter: 4, applied: vec![FlakeOp::Increment(1)] });
}

#[test]
fn snapshot_in_outcome_matches_post_crash_observation() {
    let outcome = run_flake_schedule(5, Some(1), &scenario());
    assert_eq!(outcome.post_crash_observation.counter, outcome.crash_state.counter);
    assert_eq!(outcome.post_crash_observation.applied, outcome.crash_state.journal);
    let last = outcome.steps.last().map(|step| step.observation.clone());
    assert_eq!(last, Some(outcome.post_crash_observation.clone()));
}

#[test]
fn default_configuration_starts_at_zero() {
    assert_eq!(FlakeConfig::default().initial_counter, 0);
    let copy = FlakeConfig { initial_counter: 9 }.clone();
    assert_eq!(copy.initial_counter, 9);
    assert_eq!(FlakeOp::Reset(2).clone(), FlakeOp::Reset(2));
    let state = FlakeState { counter: 1, journal: vec![FlakeOp::Increment(1)] };
    assert_eq!(state.clone(), state);
}
