//! The model of a system: how it starts, what can be done to it, what is seen
//! of it, and what must hold of what is seen.

use vstd::prelude::*;
use std::marker::PhantomData;
use crate::invariants::{Invariant, Predicate};
use crate::operation::{Operation, Transition};

verus! {

/// A projection from the full state to what invariants are evaluated on.
pub trait Projection {
    type State: View;

    type Observation: View;

    spec fn image(&self, state: <Self::State as View>::V) -> <Self::Observation as View>::V;

    fn project(&self, state: &Self::State) -> (observation: Self::Observation)
        ensures
            observation@ == self.image(state@),
    ;
}

/// A boxed projection is a projection.
impl<J: Projection + ?Sized> Projection for Box<J> {
    type State = J::State;

    type Observation = J::Observation;

    open spec fn image(&self, state: <Self::State as View>::V) -> <Self::Observation as View>::V {
        (**self).image(state)
    }

    fn project(&self, state: &Self::State) -> (observation: Self::Observation) {
        (**self).project(state)
    }
}

/// A source of initial states. A model captures its configuration when it is
/// built, so the source takes no argument and always starts the same way.
pub trait Initializer {
    type State: View;

    spec fn initial(&self) -> <Self::State as View>::V;

    fn init(&self) -> (state: Self::State)
        ensures
            state@ == self.initial(),
    ;
}

/// A boxed initializer is an initializer.
impl<I: Initializer + ?Sized> Initializer for Box<I> {
    type State = I::State;

    open spec fn initial(&self) -> <Self::State as View>::V {
        (**self).initial()
    }

    fn init(&self) -> (state: Self::State) {
        (**self).init()
    }
}

/// The projection that shows the whole state, by cloning it.
pub struct Identity<S: Clone + View> {
    marker: PhantomData<S>,
}

impl<S: Clone + View> Identity<S> {
    #[verifier::type_invariant]
    spec fn clone_is_faithful(self) -> bool {
        crate::cloning::clone_keeps_view::<S>()
    }

    pub fn new() -> (identity: Self)
        requires
            crate::cloning::clone_keeps_view::<S>(),
    {
        Identity { marker: PhantomData }
    }
}

impl<S: Clone + View> Projection for Identity<S> {
    type State = S;

    type Observation = S;

    open spec fn image(&self, state: S::V) -> S::V {
        state
    }

    fn project(&self, state: &S) -> (observation: S) {
        proof {
            use_type_invariant(self);
        }
        let observation = state.clone();
        assert(cloned(*state, observation));
        observation
    }
}

/// What a model shows of its state.
pub struct Observation<J: Projection> {
    pub project: J,
}

impl<S: Clone + View> Observation<Identity<S>> {
    /// The observation that is the state itself.
    pub fn identity() -> (observation: Self)
        requires
            crate::cloning::clone_keeps_view::<S>(),
        ensures
            forall|state: S::V| #[trigger] observation.image(state) == state,
    {
        Observation { project: Identity::<S>::new() }
    }
}

impl<J: Projection> Observation<J> {
    /// What is shown of a state with view `state`.
    pub open spec fn image(&self, state: <J::State as View>::V) -> <J::Observation as View>::V {
        self.project.image(state)
    }

    pub fn project(project: J) -> (observation: Self)
        ensures
            observation.project == project,
    {
        Observation { project }
    }

    pub fn view(&self, state: &J::State) -> (observation: J::Observation)
        ensures
            observation@ == self.image(state@),
    {
        self.project.project(state)
    }
}

/// A runnable model: a name, a source of initial states, an observation, an
/// ordered catalog of operations and an ordered set of invariants.
pub struct SystemModel<
    I: Initializer,
    J: Projection<State = I::State>,
    T: Transition<State = I::State>,
    P: Predicate<Observation = J::Observation>,
> {
    pub name: String,
    pub init: I,
    pub observe: Observation<J>,
    pub operations: Vec<Operation<T>>,
    pub invariants: Vec<Invariant<P>>,
}

impl<I, T, P> SystemModel<I, Identity<I::State>, T, P> where
    I: Initializer,
    I::State: Clone,
    T: Transition<State = I::State>,
    P: Predicate<Observation = I::State>,
 {
    /// A model that observes its whole state, with no operation and no
    /// invariant yet.
    pub fn new(name: String, init: I) -> (model: Self)
        requires
            crate::cloning::clone_keeps_view::<I::State>(),
        ensures
            model.name == name,
            model.init == init,
            forall|state: <I::State as View>::V| #[trigger] model.observe.image(state) == state,
            model.operations@.len() == 0,
            model.invariants@.len() == 0,
    {
        SystemModel {
            name,
            init,
            observe: Observation::identity(),
            operations: Vec::new(),
            invariants: Vec::new(),
        }
    }

    /// Replaces the observation. The operations stay; invariants are stated
    /// over observations, so the new model starts without any.
    pub fn with_observer<K, Q>(self, observe: K) -> (model: SystemModel<I, K, T, Q>) where
        K: Projection<State = I::State>,
        Q: Predicate<Observation = K::Observation>,

        ensures
            model.name == self.name,
            model.init == self.init,
            model.observe.project == observe,
            model.operations == self.operations,
            model.invariants@.len() == 0,
    {
        SystemModel {
            name: self.name,
            init: self.init,
            observe: Observation::project(observe),
            operations: self.operations,
            invariants: Vec::new(),
        }
    }
}

impl<I, J, T, P> SystemModel<I, J, T, P> where
    I: Initializer,
    J: Projection<State = I::State>,
    T: Transition<State = I::State>,
    P: Predicate<Observation = J::Observation>,
 {
    /// Appends `operation` to the catalog.
    pub fn operation(self, operation: Operation<T>) -> (model: Self)
        ensures
            model.name == self.name,
            model.init == self.init,
            model.observe == self.observe,
            model.operations@ == self.operations@.push(operation),
            model.invariants == self.invariants,
    {
        let mut model = self;
        model.operations.push(operation);
        model
    }

    /// Appends `entry` to the invariant set.
    pub fn with_invariant(self, entry: Invariant<P>) -> (model: Self)
        ensures
            model.name == self.name,
            model.init == self.init,
            model.observe == self.observe,
            model.operations == self.operations,
            model.invariants@ == self.invariants@.push(entry),
    {
        let mut model = self;
        model.invariants.push(entry);
        model
    }
}

} // verus!
