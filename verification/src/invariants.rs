//! Named predicates over observations.

use vstd::prelude::*;

verus! {

/// A predicate on observations: the capability behind an [`Invariant`].
///
/// `holds` says what the predicate means; `test` decides it at run time and
/// returns the same on every call.
pub trait Predicate {
    type Observation: View;

    spec fn holds(&self, observation: <Self::Observation as View>::V) -> bool;

    fn test(&self, observation: &Self::Observation) -> (verdict: bool)
        ensures
            verdict == self.holds(observation@),
    ;
}

/// A boxed predicate is a predicate, so an invariant set can hold entries of
/// different kinds behind one boxed type.
impl<P: Predicate + ?Sized> Predicate for Box<P> {
    type Observation = P::Observation;

    open spec fn holds(&self, observation: <Self::Observation as View>::V) -> bool {
        (**self).holds(observation)
    }

    fn test(&self, observation: &Self::Observation) -> (verdict: bool) {
        (**self).test(observation)
    }
}

/// The verdict of one invariant on one observation.
#[derive(Debug)]
pub struct InvariantResult {
    pub name: &'static str,
    pub holds: bool,
}

/// A named correctness condition that every observation of a run must meet.
pub struct Invariant<P: Predicate> {
    pub name: &'static str,
    pub check: P,
}

impl<P: Predicate> Invariant<P> {
    /// Whether an observation with view `observation` meets this invariant.
    pub open spec fn holds(&self, observation: <P::Observation as View>::V) -> bool {
        self.check.holds(observation)
    }

    pub fn new(name: &'static str, check: P) -> (entry: Self)
        ensures
            entry.name == name,
            entry.check == check,
    {
        Invariant { name, check }
    }

    pub fn evaluate(&self, observation: &P::Observation) -> (result: InvariantResult)
        ensures
            result.name == self.name,
            result.holds == self.holds(observation@),
    {
        InvariantResult { name: self.name, holds: self.check.test(observation) }
    }
}

/// The position of the first of the leading `count` invariants that
/// `observation` breaks, if it breaks any of them.
pub open spec fn first_broken_among<P: Predicate>(
    invariants: Seq<Invariant<P>>,
    observation: <P::Observation as View>::V,
    count: nat,
) -> Option<int>
    decreases count,
{
    if count == 0 {
        None
    } else {
        match first_broken_among(invariants, observation, (count - 1) as nat) {
            Some(earlier) => Some(earlier),
            None => if invariants[count - 1].holds(observation) {
                None
            } else {
                Some(count - 1)
            },
        }
    }
}

/// The position of the first invariant, in declared order, that `observation`
/// breaks, if it breaks any.
pub open spec fn first_broken<P: Predicate>(
    invariants: Seq<Invariant<P>>,
    observation: <P::Observation as View>::V,
) -> Option<int> {
    first_broken_among(invariants, observation, invariants.len())
}

/// What `first_broken_among` returns is a position below `count` whose
/// invariant is broken while all before it hold; it returns nothing exactly
/// when all of the leading `count` invariants hold.
pub proof fn lemma_first_broken_among<P: Predicate>(
    invariants: Seq<Invariant<P>>,
    observation: <P::Observation as View>::V,
    count: nat,
)
    requires
        count <= invariants.len(),
    ensures
        match first_broken_among(invariants, observation, count) {
            Some(i) => {
                &&& 0 <= i < count
                &&& !invariants[i].holds(observation)
                &&& forall|j: int| 0 <= j < i ==> (#[trigger] invariants[j]).holds(observation)
            },
            None => forall|j: int| 0 <= j < count ==> (#[trigger] invariants[j]).holds(observation),
        },
    decreases count,
{
    if count > 0 {
        lemma_first_broken_among(invariants, observation, (count - 1) as nat);
    }
}

/// Short-circuit: when `observation` breaks the invariants at two positions,
/// the one reported is at or before the earlier of the two, and so never the
/// later one.
pub proof fn lemma_earlier_invariant_is_reported<P: Predicate>(
    invariants: Seq<Invariant<P>>,
    observation: <P::Observation as View>::V,
    earlier: int,
    later: int,
)
    requires
        0 <= earlier < later < invariants.len(),
        !invariants[earlier].holds(observation),
        !invariants[later].holds(observation),
    ensures
        first_broken(invariants, observation) is Some,
        first_broken(invariants, observation)->0 <= earlier,
        first_broken(invariants, observation)->0 != later,
{
    lemma_first_broken_among(invariants, observation, invariants.len());
}

} // verus!
