//! Named state mutations.

use vstd::prelude::*;

verus! {

/// A mutation of the modelled state: the capability behind an [`Operation`].
///
/// `next` says which state follows; `apply` carries the step out in place. A
/// step that can fail records the failure in the state.
pub trait Transition {
    type State: View;

    spec fn next(&self, state: <Self::State as View>::V) -> <Self::State as View>::V;

    fn apply(&self, state: &mut Self::State)
        ensures
            final(state)@ == self.next(old(state)@),
    ;
}

/// A boxed transition is a transition, so a catalog can hold entries of
/// different kinds behind one boxed type.
impl<T: Transition + ?Sized> Transition for Box<T> {
    type State = T::State;

    open spec fn next(&self, state: <Self::State as View>::V) -> <Self::State as View>::V {
        (**self).next(state)
    }

    fn apply(&self, state: &mut Self::State) {
        (**self).apply(state);
    }
}

/// A named entry of an operation catalog.
pub struct Operation<T: Transition> {
    pub name: &'static str,
    pub apply: T,
}

impl<T: Transition> Operation<T> {
    /// The state that follows `state` under this operation.
    pub open spec fn next(&self, state: <T::State as View>::V) -> <T::State as View>::V {
        self.apply.next(state)
    }

    pub fn new(name: &'static str, apply: T) -> (operation: Self)
        ensures
            operation.name == name,
            operation.apply == apply,
    {
        Operation { name, apply }
    }

    pub fn apply(&self, state: &mut T::State)
        ensures
            final(state)@ == self.next(old(state)@),
    {
        self.apply.apply(state);
    }
}

} // verus!
