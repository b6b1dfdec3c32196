//! The capability contract of a system under test, and the driver that runs one
//! fixed schedule against it.

use vstd::prelude::*;

verus! {

/// The lifecycle that a mock or an adapter implements to be drivable.
///
/// Each step is a function of the views of its inputs: there is no hidden
/// entropy and no error channel. A system that can fail encodes the failure in
/// its state.
pub trait SimulationSystem: Sized + View {
    type Config: Clone + View;

    type Operation: Clone + View;

    type Observation: View;

    type PersistedState: Clone + View;

    /// The state of a fresh instance.
    spec fn initial(config: <Self::Config as View>::V) -> Self::V;

    /// Whether `op` can be carried out in `state` within machine limits.
    spec fn accepts(state: Self::V, op: <Self::Operation as View>::V) -> bool;

    /// The state that follows `state` under `op`.
    spec fn applied(state: Self::V, op: <Self::Operation as View>::V) -> Self::V;

    /// What of `state` survives a crash.
    spec fn persisted(state: Self::V) -> <Self::PersistedState as View>::V;

    /// The state of an instance that starts from `snapshot`.
    spec fn recovered(snapshot: <Self::PersistedState as View>::V) -> Self::V;

    /// What `state` shows to an observer.
    spec fn observed(state: Self::V) -> <Self::Observation as View>::V;

    fn init(config: Self::Config) -> (system: Self)
        ensures
            system@ == Self::initial(config@),
    ;

    fn apply(&mut self, op: Self::Operation)
        requires
            Self::accepts(old(self)@, op@),
        ensures
            final(self)@ == Self::applied(old(self)@, op@),
    ;

    fn crash(self) -> (snapshot: Self::PersistedState)
        ensures
            snapshot@ == Self::persisted(self@),
    ;

    fn restore(state: Self::PersistedState) -> (system: Self)
        ensures
            system@ == Self::recovered(state@),
    ;

    fn observe(&self) -> (observation: Self::Observation)
        ensures
            observation@ == Self::observed(self@),
    ;
}

/// What a run is started with. The seed and the budget are carried through
/// untouched; the system's own configuration is opaque to the engine.
#[derive(Debug)]
pub struct EngineConfig<C> {
    pub seed: u64,
    pub budget: Option<u64>,
    pub system_config: C,
}

impl<C: Clone> Clone for EngineConfig<C> {
    fn clone(&self) -> (copy: Self)
        ensures
            copy.seed == self.seed,
            copy.budget == self.budget,
            cloned(self.system_config, copy.system_config),
    {
        EngineConfig {
            seed: self.seed,
            budget: self.budget,
            system_config: self.system_config.clone(),
        }
    }
}

pub struct EngineConfigView<C> {
    pub seed: u64,
    pub budget: Option<u64>,
    pub system_config: C,
}

impl<C: View> View for EngineConfig<C> {
    type V = EngineConfigView<C::V>;

    open spec fn view(&self) -> Self::V {
        EngineConfigView {
            seed: self.seed,
            budget: self.budget,
            system_config: self.system_config@,
        }
    }
}

/// One executed operation: its 1-based position, the operation, and what the
/// system showed right after it.
pub struct SimulationStep<S: SimulationSystem> {
    pub index: usize,
    pub operation: S::Operation,
    pub observation: S::Observation,
}

pub struct SimulationStepView<Op, Obs> {
    pub index: nat,
    pub operation: Op,
    pub observation: Obs,
}

impl<S: SimulationSystem> View for SimulationStep<S> {
    type V = SimulationStepView<<S::Operation as View>::V, <S::Observation as View>::V>;

    open spec fn view(&self) -> Self::V {
        SimulationStepView {
            index: self.index as nat,
            operation: self.operation@,
            observation: self.observation@,
        }
    }
}

/// The record of one run of the single-schedule driver.
pub struct SimulationOutcome<S: SimulationSystem> {
    pub config: EngineConfig<S::Config>,
    pub steps: Vec<SimulationStep<S>>,
    pub crash_state: S::PersistedState,
    pub post_crash_observation: S::Observation,
}

#[verifier::ext_equal]
pub struct SimulationOutcomeView<C, Op, Obs, P> {
    pub config: EngineConfigView<C>,
    pub steps: Seq<SimulationStepView<Op, Obs>>,
    pub crash_state: P,
    pub post_crash_observation: Obs,
}

impl<S: SimulationSystem> View for SimulationOutcome<S> {
    type V = SimulationOutcomeView<
        <S::Config as View>::V,
        <S::Operation as View>::V,
        <S::Observation as View>::V,
        <S::PersistedState as View>::V,
    >;

    open spec fn view(&self) -> Self::V {
        SimulationOutcomeView {
            config: self.config@,
            steps: self.steps@.map_values(|step: SimulationStep<S>| step@),
            crash_state: self.crash_state@,
            post_crash_observation: self.post_crash_observation@,
        }
    }
}

/// The views of a list of operations, in order.
pub open spec fn operation_views<S: SimulationSystem>(operations: Seq<S::Operation>) -> Seq<
    <S::Operation as View>::V,
> {
    operations.map_values(|op: S::Operation| op@)
}

/// The state reached from `start` by applying `ops` from first to last.
pub open spec fn state_after<S: SimulationSystem>(
    start: S::V,
    ops: Seq<<S::Operation as View>::V>,
) -> S::V
    decreases ops.len(),
{
    if ops.len() == 0 {
        start
    } else {
        S::applied(state_after::<S>(start, ops.drop_last()), ops.last())
    }
}

/// Every operation of `ops` is accepted in the state that its predecessors
/// lead to from `start`.
pub open spec fn schedule_accepted<S: SimulationSystem>(
    start: S::V,
    ops: Seq<<S::Operation as View>::V>,
) -> bool {
    forall|k: int|
        0 <= k < ops.len() ==> S::accepts(#[trigger] state_after::<S>(start, ops.take(k)), ops[k])
}

/// The step recorded for the operation at position `k` (0-based) of `ops`.
pub open spec fn expected_step<S: SimulationSystem>(
    start: S::V,
    ops: Seq<<S::Operation as View>::V>,
    k: int,
) -> SimulationStepView<<S::Operation as View>::V, <S::Observation as View>::V> {
    SimulationStepView {
        index: (k + 1) as nat,
        operation: ops[k],
        observation: S::observed(state_after::<S>(start, ops.take(k + 1))),
    }
}

/// The outcome of running `ops` under `config`: one step per operation, the
/// snapshot of the last state, and what the instance restored from that
/// snapshot shows.
pub open spec fn expected_outcome<S: SimulationSystem>(
    config: EngineConfigView<<S::Config as View>::V>,
    ops: Seq<<S::Operation as View>::V>,
) -> SimulationOutcomeView<
    <S::Config as View>::V,
    <S::Operation as View>::V,
    <S::Observation as View>::V,
    <S::PersistedState as View>::V,
> {
    let start = S::initial(config.system_config);
    let snapshot = S::persisted(state_after::<S>(start, ops));
    SimulationOutcomeView {
        config,
        steps: Seq::new(ops.len(), |k: int| expected_step::<S>(start, ops, k)),
        crash_state: snapshot,
        post_crash_observation: S::observed(S::recovered(snapshot)),
    }
}

/// Runs `operations` in order against a fresh instance, observing after each,
/// then crashes the instance, restores a new one from the snapshot and
/// observes it once.
pub fn simulate<S: SimulationSystem>(
    config: EngineConfig<S::Config>,
    operations: &[S::Operation],
) -> (outcome: SimulationOutcome<S>)
    requires
        crate::cloning::clone_keeps_view::<S::Config>(),
        crate::cloning::clone_keeps_view::<S::Operation>(),
        crate::cloning::clone_keeps_view::<S::PersistedState>(),
        schedule_accepted::<S>(
            S::initial(config.system_config@),
            operation_views::<S>(operations@),
        ),
    ensures
        outcome@ == expected_outcome::<S>(config@, operation_views::<S>(operations@)),
{
    let ghost ops = operation_views::<S>(operations@);
    let ghost start = S::initial(config.system_config@);
    let system_config = config.system_config.clone();
    assert(cloned(config.system_config, system_config));
    let mut system = S::init(system_config);
    let mut steps: Vec<SimulationStep<S>> = Vec::new();
    let mut i: usize = 0;
    while i < operations.len()
        invariant
            i <= operations.len(),
            ops == operation_views::<S>(operations@),
            crate::cloning::clone_keeps_view::<S::Operation>(),
            schedule_accepted::<S>(start, ops),
            system@ == state_after::<S>(start, ops.take(i as int)),
            steps@.len() == i,
            forall|k: int| 0 <= k < i ==> (#[trigger] steps@[k])@ == expected_step::<S>(start, ops, k),
        decreases operations.len() - i,
    {
        let op = operations[i].clone();
        assert(cloned(operations[i as int], op));
        let recorded = operations[i].clone();
        assert(cloned(operations[i as int], recorded));
        assert(ops.take(i + 1).drop_last() =~= ops.take(i as int));
        system.apply(op);
        let observation = system.observe();
        steps.push(SimulationStep { index: i + 1, operation: recorded, observation });
        i += 1;
    }
    assert(ops.take(i as int) =~= ops);
    let crash_state = system.crash();
    let snapshot = crash_state.clone();
    assert(cloned(crash_state, snapshot));
    let restored = S::restore(snapshot);
    let post_crash_observation = restored.observe();
    let outcome = SimulationOutcome { config, steps, crash_state, post_crash_observation };
    assert(outcome@.steps =~= expected_outcome::<S>(config@, ops).steps);
    outcome
}

/// Nothing that an observer can see is lost across a crash and a restore.
pub open spec fn lossless<S: SimulationSystem>() -> bool {
    forall|state: S::V| #[trigger] S::observed(S::recovered(S::persisted(state))) == S::observed(state)
}

/// Determinism: two runs on configurations and operation lists with the same
/// views produce the same step trace, the same snapshot and the same
/// post-crash observation.
pub proof fn lemma_simulate_is_deterministic<S: SimulationSystem>(
    first_config: EngineConfig<S::Config>,
    first_operations: &[S::Operation],
    first: SimulationOutcome<S>,
    second_config: EngineConfig<S::Config>,
    second_operations: &[S::Operation],
    second: SimulationOutcome<S>,
)
    requires
        first_config@ == second_config@,
        operation_views::<S>(first_operations@) == operation_views::<S>(second_operations@),
        call_ensures(simulate::<S>, (first_config, first_operations), first),
        call_ensures(simulate::<S>, (second_config, second_operations), second),
    ensures
        first@ == second@,
        first@.steps == second@.steps,
        first@.crash_state == second@.crash_state,
        first@.post_crash_observation == second@.post_crash_observation,
{
}

/// Observation purity: whatever `observe` returns on one state, it returns the
/// same on every call.
pub proof fn lemma_observe_is_pure<S: SimulationSystem>(
    system: S,
    first: S::Observation,
    second: S::Observation,
)
    requires
        call_ensures(S::observe, (&system,), first),
        call_ensures(S::observe, (&system,), second),
    ensures
        first@ == second@,
{
}

/// Crash/restore round trip: for a lossless system, the instance restored from
/// the snapshot of `system` shows what `system` showed.
pub proof fn lemma_round_trip_keeps_observation<S: SimulationSystem>(
    system: S,
    before: S::Observation,
    snapshot: S::PersistedState,
    restored: S,
    after: S::Observation,
)
    requires
        lossless::<S>(),
        call_ensures(S::observe, (&system,), before),
        call_ensures(S::crash, (system,), snapshot),
        call_ensures(S::restore, (snapshot,), restored),
        call_ensures(S::observe, (&restored,), after),
    ensures
        after@ == before@,
{
}

/// For a lossless system the post-crash observation of a run is what the
/// system showed after its last operation.
pub proof fn lemma_post_crash_observation_is_last<S: SimulationSystem>(
    config: EngineConfigView<<S::Config as View>::V>,
    ops: Seq<<S::Operation as View>::V>,
)
    requires
        lossless::<S>(),
    ensures
        expected_outcome::<S>(config, ops).post_crash_observation == S::observed(
            state_after::<S>(S::initial(config.system_config), ops),
        ),
        ops.len() > 0 ==> expected_outcome::<S>(config, ops).post_crash_observation
            == expected_outcome::<S>(config, ops).steps.last().observation,
{
    assert(ops.take(ops.len() as int) =~= ops);
}

/// Zero operations: the trace is empty and the snapshot is that of the fresh
/// instance; for a lossless system the post-crash observation is the initial
/// observation.
pub proof fn lemma_empty_schedule<S: SimulationSystem>(
    config: EngineConfigView<<S::Config as View>::V>,
)
    ensures
        expected_outcome::<S>(config, Seq::empty()).steps == Seq::<
            SimulationStepView<<S::Operation as View>::V, <S::Observation as View>::V>,
        >::empty(),
        expected_outcome::<S>(config, Seq::empty()).crash_state == S::persisted(
            S::initial(config.system_config),
        ),
        lossless::<S>() ==> expected_outcome::<S>(config, Seq::empty()).post_crash_observation
            == S::observed(S::initial(config.system_config)),
{
}

} // verus!
