//! The model-driven engine: replays a catalog of operations for a number of
//! rounds, checks every invariant after the start and after each operation,
//! and stops at the first one that is broken.

use vstd::prelude::*;
use crate::invariants::{Invariant, Predicate};
use crate::operation::Transition;
use crate::system::{Initializer, Observation, Projection, SystemModel};

verus! {

/// An operation that ran and left every invariant intact: its name and the
/// 0-based round in which it ran.
#[derive(Debug)]
pub struct SimulationStep {
    pub op: &'static str,
    pub iteration: usize,
}

impl Clone for SimulationStep {
    fn clone(&self) -> (copy: Self)
        ensures
            copy == *self,
    {
        SimulationStep { op: self.op, iteration: self.iteration }
    }
}

#[verifier::ext_equal]
pub struct StepView {
    pub op: Seq<char>,
    pub iteration: nat,
}

impl View for SimulationStep {
    type V = StepView;

    open spec fn view(&self) -> StepView {
        StepView { op: self.op@, iteration: self.iteration as nat }
    }
}

/// The first broken invariant, by name, and the step whose operation led to
/// the breach. There is no step when the initial state already breaks it.
#[derive(Debug)]
pub struct InvariantFailure {
    pub invariant_name: &'static str,
    pub step: Option<SimulationStep>,
}

#[verifier::ext_equal]
pub struct FailureView {
    pub invariant_name: Seq<char>,
    pub step: Option<StepView>,
}

impl View for InvariantFailure {
    type V = FailureView;

    open spec fn view(&self) -> FailureView {
        FailureView {
            invariant_name: self.invariant_name@,
            step: match self.step {
                Some(step) => Some(step@),
                None => None,
            },
        }
    }
}

/// How a run ended.
#[derive(Debug)]
pub enum SimulationStatus {
    Completed,
    InvariantViolated(InvariantFailure),
}

#[verifier::ext_equal]
pub enum StatusView {
    Completed,
    InvariantViolated(FailureView),
}

impl View for SimulationStatus {
    type V = StatusView;

    open spec fn view(&self) -> StatusView {
        match self {
            SimulationStatus::Completed => StatusView::Completed,
            SimulationStatus::InvariantViolated(failure) => StatusView::InvariantViolated(failure@),
        }
    }
}

/// The record of one run of the model-driven engine.
#[derive(Debug)]
pub struct SimulationOutcome {
    pub system: String,
    pub steps: Vec<SimulationStep>,
    pub status: SimulationStatus,
}

#[verifier::ext_equal]
pub struct OutcomeView {
    pub system: Seq<char>,
    pub steps: Seq<StepView>,
    pub status: StatusView,
}

/// The views of a list of steps, in order.
pub open spec fn step_views(steps: Seq<SimulationStep>) -> Seq<StepView> {
    Seq::new(steps.len(), |j: int| steps[j]@)
}

impl View for SimulationOutcome {
    type V = OutcomeView;

    open spec fn view(&self) -> OutcomeView {
        OutcomeView { system: self.system@, steps: step_views(self.steps@), status: self.status@ }
    }
}

impl<I, J, T, P> SystemModel<I, J, T, P> where
    I: Initializer,
    J: Projection<State = I::State>,
    T: Transition<State = I::State>,
    P: Predicate<Observation = J::Observation>,
 {
    /// The state after `k` operations. The operations are taken from the
    /// catalog in declared order, round after round.
    pub open spec fn state_at(&self, k: nat) -> <I::State as View>::V
        decreases k,
    {
        if k == 0 {
            self.init.initial()
        } else {
            let before = (k - 1) as nat;
            self.operations@[(before % self.operations@.len()) as int].next(self.state_at(before))
        }
    }

    /// The position of the first invariant that is broken after `k`
    /// operations, if any is.
    pub open spec fn breach_at(&self, k: nat) -> Option<int> {
        crate::invariants::first_broken(self.invariants@, self.observe.image(self.state_at(k)))
    }

    /// The least number of operations, up to `limit`, after which an invariant
    /// is broken.
    pub open spec fn first_breach(&self, limit: nat) -> Option<nat>
        decreases limit,
    {
        if limit == 0 {
            if self.breach_at(0) is Some {
                Some(0)
            } else {
                None
            }
        } else {
            match self.first_breach((limit - 1) as nat) {
                Some(k) => Some(k),
                None => if self.breach_at(limit) is Some {
                    Some(limit)
                } else {
                    None
                },
            }
        }
    }

    /// The step that stands for the operation at position `j` (0-based) of a
    /// run.
    pub open spec fn step_at(&self, j: nat) -> StepView {
        StepView {
            op: self.operations@[(j % self.operations@.len()) as int].name@,
            iteration: j / self.operations@.len(),
        }
    }

    /// The steps of the first `len` operations of a run.
    pub open spec fn trace(&self, len: nat) -> Seq<StepView> {
        Seq::new(len, |j: int| self.step_at(j as nat))
    }

    /// The outcome of a run of `rounds` rounds. Without a breach, every
    /// operation of every round is in the trace. With a breach, the trace
    /// holds the operations before the one that led to it, and that one is
    /// reported with the broken invariant.
    pub open spec fn expected_outcome(&self, rounds: nat) -> OutcomeView {
        match self.first_breach(rounds * self.operations@.len()) {
            None => OutcomeView {
                system: self.name@,
                steps: self.trace(rounds * self.operations@.len()),
                status: StatusView::Completed,
            },
            Some(k) => OutcomeView {
                system: self.name@,
                steps: if k == 0 {
                    Seq::empty()
                } else {
                    self.trace((k - 1) as nat)
                },
                status: StatusView::InvariantViolated(
                    FailureView {
                        invariant_name: self.invariants@[self.breach_at(k)->0].name@,
                        step: if k == 0 {
                            None
                        } else {
                            Some(self.step_at((k - 1) as nat))
                        },
                    },
                ),
            },
        }
    }

    /// `first_breach` gives the least count with a breach: none below it is
    /// one, and without a result there is none up to the limit.
    pub proof fn lemma_first_breach(&self, limit: nat)
        ensures
            match self.first_breach(limit) {
                Some(k) => {
                    &&& k <= limit
                    &&& self.breach_at(k) is Some
                    &&& forall|j: nat| j < k ==> #[trigger] self.breach_at(j) is None
                },
                None => forall|j: nat| j <= limit ==> #[trigger] self.breach_at(j) is None,
            },
        decreases limit,
    {
        if limit > 0 {
            self.lemma_first_breach((limit - 1) as nat);
        }
    }

    /// A breach that is found stays the first one under every larger limit.
    pub proof fn lemma_first_breach_is_stable(&self, limit: nat, larger: nat)
        requires
            limit <= larger,
            self.first_breach(limit) is Some,
        ensures
            self.first_breach(larger) == self.first_breach(limit),
        decreases larger,
    {
        if limit < larger {
            self.lemma_first_breach_is_stable(limit, (larger - 1) as nat);
        }
    }

    /// Initial-state check: when the freshly initialized state breaks the
    /// invariant at position `broken`, and none before it, the run reports
    /// that invariant without a step and with an empty trace, whatever the
    /// number of rounds.
    pub proof fn lemma_initial_breach_ends_run(&self, rounds: nat, broken: int)
        requires
            self.breach_at(0) == Some(broken),
        ensures
            self.expected_outcome(rounds) == (OutcomeView {
                system: self.name@,
                steps: Seq::empty(),
                status: StatusView::InvariantViolated(
                    FailureView { invariant_name: self.invariants@[broken].name@, step: None },
                ),
            }),
    {
        self.lemma_first_breach_is_stable(0, rounds * self.operations@.len());
    }

    /// Initial-state check for a model with a single invariant: when the
    /// freshly initialized state breaks it, the run reports it without a step
    /// and with an empty trace, even with a positive number of rounds.
    pub proof fn lemma_only_invariant_broken_at_start(&self, rounds: nat)
        requires
            self.invariants@.len() == 1,
            !self.invariants@[0].holds(self.observe.image(self.init.initial())),
        ensures
            self.expected_outcome(rounds) == (OutcomeView {
                system: self.name@,
                steps: Seq::empty(),
                status: StatusView::InvariantViolated(
                    FailureView { invariant_name: self.invariants@[0].name@, step: None },
                ),
            }),
    {
        reveal_with_fuel(crate::invariants::first_broken_among, 2);
        self.lemma_initial_breach_ends_run(rounds, 0);
    }

    /// Zero rounds, or an empty catalog: when the initial state meets every
    /// invariant, the run completes with an empty trace.
    pub proof fn lemma_nothing_to_run(&self, rounds: nat)
        requires
            rounds == 0 || self.operations@.len() == 0,
            self.breach_at(0) is None,
        ensures
            self.expected_outcome(rounds) == (OutcomeView {
                system: self.name@,
                steps: Seq::empty(),
                status: StatusView::Completed,
            }),
    {
        assert(rounds * self.operations@.len() == 0) by (nonlinear_arith)
            requires
                rounds == 0 || self.operations@.len() == 0,
        ;
    }
}

/// Observes `state` and evaluates the invariants on the observation in
/// declared order, up to the first that is broken. That one is reported along
/// with `step`; when all hold, nothing is.
pub fn check_invariants<J: Projection, P: Predicate<Observation = J::Observation>>(
    step: Option<SimulationStep>,
    invariants: &[Invariant<P>],
    observer: &Observation<J>,
    state: &J::State,
) -> (failure: Option<InvariantFailure>)
    ensures
        match crate::invariants::first_broken(invariants@, observer.image(state@)) {
            Some(broken) => failure == Some(
                InvariantFailure { invariant_name: invariants@[broken].name, step },
            ),
            None => failure is None,
        },
{
    let observation = observer.view(state);
    let mut i: usize = 0;
    while i < invariants.len()
        invariant
            i <= invariants.len(),
            observation@ == observer.image(state@),
            crate::invariants::first_broken_among(invariants@, observation@, i as nat) is None,
        decreases invariants.len() - i,
    {
        let result = invariants[i].evaluate(&observation);
        if !result.holds {
            proof {
                lemma_broken_stays_first(invariants@, observation@, (i + 1) as nat);
            }
            return Some(InvariantFailure { invariant_name: result.name, step });
        }
        i += 1;
    }
    None
}

/// The first broken invariant among the leading `count` is the first broken
/// one of the whole sequence.
proof fn lemma_broken_stays_first<P: Predicate>(
    invariants: Seq<Invariant<P>>,
    observation: <P::Observation as View>::V,
    count: nat,
)
    requires
        count <= invariants.len(),
        crate::invariants::first_broken_among(invariants, observation, count) is Some,
    ensures
        crate::invariants::first_broken(invariants, observation)
            == crate::invariants::first_broken_among(invariants, observation, count),
{
    crate::invariants::lemma_first_broken_among(invariants, observation, count);
    crate::invariants::lemma_first_broken_among(invariants, observation, invariants.len());
}

/// A model together with the engine that runs it.
pub struct Simulation<
    I: Initializer,
    J: Projection<State = I::State>,
    T: Transition<State = I::State>,
    P: Predicate<Observation = J::Observation>,
> {
    model: SystemModel<I, J, T, P>,
}

impl<I, J, T, P> Simulation<I, J, T, P> where
    I: Initializer,
    J: Projection<State = I::State>,
    T: Transition<State = I::State>,
    P: Predicate<Observation = J::Observation>,
 {
    /// The model that this engine runs.
    pub closed spec fn model(&self) -> SystemModel<I, J, T, P> {
        self.model
    }

    pub fn new(model: SystemModel<I, J, T, P>) -> (simulation: Self)
        ensures
            simulation.model() == model,
    {
        Simulation { model }
    }

    /// Determinism: two runs of the same number of rounds on one model end
    /// with the same name, trace and status.
    pub proof fn lemma_run_is_deterministic(
        &self,
        rounds: usize,
        first: SimulationOutcome,
        second: SimulationOutcome,
    )
        requires
            call_ensures(Self::run, (self, rounds), first),
            call_ensures(Self::run, (self, rounds), second),
        ensures
            first@ == second@,
    {
    }

    /// Runs `rounds` rounds of the whole catalog from a fresh state and
    /// returns how the run ended. The engine itself never fails: a broken
    /// invariant ends the run with a report.
    pub fn run(&self, rounds: usize) -> (outcome: SimulationOutcome)
        ensures
            outcome@ == self.model().expected_outcome(rounds as nat),
    {
        let model = &self.model;
        let count = model.operations.len();
        let ghost total = (rounds as nat) * (count as nat);
        let mut state = model.init.init();
        let mut steps: Vec<SimulationStep> = Vec::new();
        match check_invariants(None, model.invariants.as_slice(), &model.observe, &state) {
            Some(failure) => {
                let outcome = SimulationOutcome {
                    system: model.name.clone(),
                    steps,
                    status: SimulationStatus::InvariantViolated(failure),
                };
                proof {
                    model.lemma_first_breach_is_stable(0, total);
                }
                return outcome;
            },
            None => {},
        }
        let ghost mut done: nat = 0;
        let mut iteration: usize = 0;
        while iteration < rounds
            invariant
                iteration <= rounds,
                model == &self.model,
                count == model.operations@.len(),
                total == (rounds as nat) * (count as nat),
                done == (iteration as nat) * (count as nat),
                state@ == model.state_at(done),
                model.first_breach(done) is None,
                step_views(steps@) == model.trace(done),
            decreases rounds - iteration,
        {
            let mut i: usize = 0;
            while i < count
                invariant
                    i <= count,
                    iteration < rounds,
                    model == &self.model,
                    count == model.operations@.len(),
                    total == (rounds as nat) * (count as nat),
                    done == (iteration as nat) * (count as nat) + i,
                    state@ == model.state_at(done),
                    model.first_breach(done) is None,
                    step_views(steps@) == model.trace(done),
                decreases count - i,
            {
                let op = &model.operations[i];
                op.apply(&mut state);
                let step = SimulationStep { op: op.name, iteration };
                proof {
                    vstd::arithmetic::div_mod::lemma_fundamental_div_mod_converse(
                        done as int,
                        count as int,
                        iteration as int,
                        i as int,
                    );
                    assert(done + 1 <= total) by (nonlinear_arith)
                        requires
                            done == (iteration as nat) * (count as nat) + i,
                            total == (rounds as nat) * (count as nat),
                            iteration < rounds,
                            i < count,
                    ;
                }
                match check_invariants(
                    Some(step.clone()),
                    model.invariants.as_slice(),
                    &model.observe,
                    &state,
                ) {
                    Some(failure) => {
                        let outcome = SimulationOutcome {
                            system: model.name.clone(),
                            steps,
                            status: SimulationStatus::InvariantViolated(failure),
                        };
                        proof {
                            model.lemma_first_breach_is_stable(done + 1, total);
                        }
                        return outcome;
                    },
                    None => {},
                }
                let ghost earlier = steps@;
                steps.push(step);
                proof {
                    assert(step_views(earlier).len() == model.trace(done).len());
                    assert forall|j: int| 0 <= j < done + 1 implies #[trigger] step_views(steps@)[j]
                        == model.trace(done + 1)[j] by {
                        if j < done {
                            assert(step_views(earlier)[j] == model.trace(done)[j]);
                        }
                    }
                    done = done + 1;
                }
                i += 1;
            }
            proof {
                assert(done == ((iteration + 1) as nat) * (count as nat)) by (nonlinear_arith)
                    requires
                        done == (iteration as nat) * (count as nat) + count,
                ;
            }
            iteration += 1;
        }
        SimulationOutcome {
            system: model.name.clone(),
            steps,
            status: SimulationStatus::Completed,
        }
    }
}

} // verus!
