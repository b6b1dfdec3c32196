//! Flake: a small deterministic counter with a journal, the built-in system
//! under test.
//!
//! The live instance holds a counter and the list of operations applied so far.
//! A crash keeps both, so nothing that an observer can see is lost.

use vstd::prelude::*;
use crate::engine::{simulate, EngineConfig, SimulationOutcome, SimulationSystem};

verus! {

/// Configuration for the Flake system.
#[derive(Debug)]
pub struct FlakeConfig {
    pub initial_counter: i64,
}

impl View for FlakeConfig {
    type V = FlakeConfig;

    open spec fn view(&self) -> FlakeConfig {
        *self
    }
}

impl Clone for FlakeConfig {
    fn clone(&self) -> (copy: Self)
        ensures
            copy == *self,
    {
        FlakeConfig { initial_counter: self.initial_counter }
    }
}

impl Default for FlakeConfig {
    fn default() -> (config: Self)
        ensures
            config.initial_counter == 0,
    {
        FlakeConfig { initial_counter: 0 }
    }
}

/// Operations supported by Flake.
#[derive(Debug, PartialEq)]
pub enum FlakeOp {
    Increment(i64),
    Decrement(i64),
    Reset(i64),
}

impl View for FlakeOp {
    type V = FlakeOp;

    open spec fn view(&self) -> FlakeOp {
        *self
    }
}

impl Clone for FlakeOp {
    fn clone(&self) -> (copy: Self)
        ensures
            copy == *self,
    {
        match self {
            FlakeOp::Increment(amount) => FlakeOp::Increment(*amount),
            FlakeOp::Decrement(amount) => FlakeOp::Decrement(*amount),
            FlakeOp::Reset(value) => FlakeOp::Reset(*value),
        }
    }
}

/// A counter value together with the operations that led to it. This is the
/// shape of a live instance, of a snapshot and of an observation alike.
#[verifier::ext_equal]
pub struct Ledger {
    pub counter: int,
    pub journal: Seq<FlakeOp>,
}

/// Observations emitted by Flake after each operation.
#[derive(Debug, PartialEq)]
pub struct FlakeObservation {
    pub counter: i64,
    pub applied: Vec<FlakeOp>,
}

impl View for FlakeObservation {
    type V = Ledger;

    open spec fn view(&self) -> Ledger {
        Ledger { counter: self.counter as int, journal: self.applied@ }
    }
}

impl Clone for FlakeObservation {
    fn clone(&self) -> (copy: Self)
        ensures
            copy@ == self@,
    {
        FlakeObservation { counter: self.counter, applied: copy_journal(&self.applied) }
    }
}

/// Persisted state captured on crash.
#[derive(Debug, PartialEq)]
pub struct FlakeState {
    pub counter: i64,
    pub journal: Vec<FlakeOp>,
}

impl View for FlakeState {
    type V = Ledger;

    open spec fn view(&self) -> Ledger {
        Ledger { counter: self.counter as int, journal: self.journal@ }
    }
}

impl Clone for FlakeState {
    fn clone(&self) -> (copy: Self)
        ensures
            copy@ == self@,
    {
        FlakeState { counter: self.counter, journal: copy_journal(&self.journal) }
    }
}

/// The live instance: a counter and the journal of what was applied to it.
#[derive(Debug)]
pub struct Flake {
    counter: i64,
    journal: Vec<FlakeOp>,
}

impl View for Flake {
    type V = Ledger;

    closed spec fn view(&self) -> Ledger {
        Ledger { counter: self.counter as int, journal: self.journal@ }
    }
}

impl Clone for Flake {
    fn clone(&self) -> (copy: Self)
        ensures
            copy@ == self@,
    {
        Flake { counter: self.counter, journal: copy_journal(&self.journal) }
    }
}

/// An element-by-element copy of a journal.
fn copy_journal(journal: &Vec<FlakeOp>) -> (copy: Vec<FlakeOp>)
    ensures
        copy@ == journal@,
{
    let mut copy: Vec<FlakeOp> = Vec::new();
    let mut i: usize = 0;
    while i < journal.len()
        invariant
            i <= journal.len(),
            copy@ == journal@.take(i as int),
        decreases journal.len() - i,
    {
        copy.push(journal[i].clone());
        i += 1;
    }
    copy
}

/// The counter value that `op` leads to from `counter`, before any machine
/// limit is taken into account.
pub open spec fn counter_step(counter: int, op: FlakeOp) -> int {
    match op {
        FlakeOp::Increment(amount) => counter + amount,
        FlakeOp::Decrement(amount) => counter - amount,
        FlakeOp::Reset(value) => value as int,
    }
}

impl SimulationSystem for Flake {
    type Config = FlakeConfig;

    type Operation = FlakeOp;

    type Observation = FlakeObservation;

    type PersistedState = FlakeState;

    open spec fn initial(config: FlakeConfig) -> Ledger {
        Ledger { counter: config.initial_counter as int, journal: Seq::empty() }
    }

    open spec fn accepts(state: Ledger, op: FlakeOp) -> bool {
        i64::MIN <= counter_step(state.counter, op) <= i64::MAX
    }

    open spec fn applied(state: Ledger, op: FlakeOp) -> Ledger {
        Ledger { counter: counter_step(state.counter, op), journal: state.journal.push(op) }
    }

    open spec fn persisted(state: Ledger) -> Ledger {
        state
    }

    open spec fn recovered(snapshot: Ledger) -> Ledger {
        snapshot
    }

    open spec fn observed(state: Ledger) -> Ledger {
        state
    }

    fn init(config: FlakeConfig) -> (system: Flake) {
        Flake { counter: config.initial_counter, journal: Vec::new() }
    }

    fn apply(&mut self, op: FlakeOp) {
        match op {
            FlakeOp::Increment(amount) => self.counter += amount,
            FlakeOp::Decrement(amount) => self.counter -= amount,
            FlakeOp::Reset(value) => self.counter = value,
        }
        self.journal.push(op);
    }

    fn crash(self) -> (snapshot: FlakeState) {
        FlakeState { counter: self.counter, journal: self.journal }
    }

    fn restore(state: FlakeState) -> (system: Flake) {
        Flake { counter: state.counter, journal: state.journal }
    }

    fn observe(&self) -> (observation: FlakeObservation) {
        FlakeObservation { counter: self.counter, applied: copy_journal(&self.journal) }
    }
}

/// The counter after `ops`, starting from `start`.
pub open spec fn counter_after(start: int, ops: Seq<FlakeOp>) -> int
    decreases ops.len(),
{
    if ops.len() == 0 {
        start
    } else {
        counter_step(counter_after(start, ops.drop_last()), ops.last())
    }
}

/// No prefix of `ops` takes the counter out of the range of `i64`.
pub open spec fn schedule_fits(start: int, ops: Seq<FlakeOp>) -> bool {
    forall|k: int|
        0 < k <= ops.len() ==> i64::MIN <= #[trigger] counter_after(start, ops.take(k)) <= i64::MAX
}

/// Running `ops` on a Flake that starts at `start` leads to the counter that
/// `counter_after` gives, with `ops` as the journal.
pub proof fn lemma_flake_state_after(start: i64, ops: Seq<FlakeOp>)
    ensures
        crate::engine::state_after::<Flake>(
            Flake::initial(FlakeConfig { initial_counter: start }),
            ops,
        ) == (Ledger { counter: counter_after(start as int, ops), journal: ops }),
    decreases ops.len(),
{
    if ops.len() > 0 {
        lemma_flake_state_after(start, ops.drop_last());
    }
}

/// Flake persists all that it shows: a crash followed by a restore loses
/// neither the counter nor the journal.
pub proof fn lemma_flake_is_lossless()
    ensures
        crate::engine::lossless::<Flake>(),
        forall|state: Ledger| Flake::recovered(Flake::persisted(state)) == state,
{
}

/// Crash/restore round trip on Flake: the instance restored from the snapshot
/// of `system` shows the counter and the journal that `system` showed.
pub proof fn lemma_flake_round_trip(
    system: Flake,
    before: FlakeObservation,
    snapshot: FlakeState,
    restored: Flake,
    after: FlakeObservation,
)
    requires
        call_ensures(Flake::observe, (&system,), before),
        call_ensures(Flake::crash, (system,), snapshot),
        call_ensures(Flake::restore, (snapshot,), restored),
        call_ensures(Flake::observe, (&restored,), after),
    ensures
        after@ == before@,
        after.counter == before.counter,
        after.applied@ == before.applied@,
        snapshot.counter == before.counter,
        snapshot.journal@ == before.applied@,
{
}

/// Convenience helper for running a simple deterministic schedule against
/// Flake, starting from a counter of zero.
pub fn run_flake_schedule(seed: u64, budget: Option<u64>, operations: &[FlakeOp]) -> (outcome:
    SimulationOutcome<Flake>)
    requires
        schedule_fits(0, operations@),
    ensures
        outcome.config.seed == seed,
        outcome.config.budget == budget,
        outcome.config.system_config.initial_counter == 0,
        outcome.steps@.len() == operations@.len(),
        forall|k: int|
            0 <= k < operations@.len() ==> {
                let step = #[trigger] outcome.steps@[k];
                &&& step.index == k + 1
                &&& step.operation == operations@[k]
                &&& step.observation@ == (Ledger {
                    counter: counter_after(0, operations@.take(k + 1)),
                    journal: operations@.take(k + 1),
                })
            },
        outcome.crash_state@ == (Ledger {
            counter: counter_after(0, operations@),
            journal: operations@,
        }),
        outcome.post_crash_observation@ == outcome.crash_state@,
{
    let config = EngineConfig { seed, budget, system_config: FlakeConfig::default() };
    let ghost ops = crate::engine::operation_views::<Flake>(operations@);
    proof {
        assert(ops =~= operations@);
        let start = Flake::initial(config.system_config@);
        assert forall|k: int| 0 <= k < ops.len() implies Flake::accepts(
            #[trigger] crate::engine::state_after::<Flake>(start, ops.take(k)),
            ops[k],
        ) by {
            lemma_flake_state_after(0, ops.take(k));
            assert(ops.take(k + 1).drop_last() =~= ops.take(k));
            assert(counter_after(0, ops.take(k + 1)) == counter_step(
                counter_after(0, ops.take(k)),
                ops[k],
            ));
        }
    }
    let outcome = simulate::<Flake>(config, operations);
    proof {
        lemma_flake_state_after(0, ops);
        assert(outcome@.steps.len() == outcome.steps@.len());
        assert forall|k: int| 0 <= k < operations@.len() implies {
            let step = #[trigger] outcome.steps@[k];
            &&& step.index == k + 1
            &&& step.operation == operations@[k]
            &&& step.observation@ == (Ledger {
                counter: counter_after(0, operations@.take(k + 1)),
                journal: operations@.take(k + 1),
            })
        } by {
            lemma_flake_state_after(0, ops.take(k + 1));
            assert(outcome@.steps[k] == crate::engine::expected_step::<Flake>(
                Flake::initial(config@.system_config),
                ops,
                k,
            ));
        }
    }
    outcome
}

} // verus!
