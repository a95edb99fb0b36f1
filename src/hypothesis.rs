//! What a hypothesis is: a predicate on subjects, with a description.

use vstd::prelude::*;

verus! {

/// A candidate characterization of the unknown property: for every subject
/// it says whether the subject has the property.
pub trait Hypothesis<S> {
    /// Whether the hypothesis says that `study` has the property.
    spec fn holds(&self, study: S) -> bool;

    /// Evaluates the hypothesis on a subject.
    fn predicts_the_property(&self, study: &S) -> (r: bool)
        ensures
            r == self.holds(*study),
    ;

    /// A human-readable statement of the hypothesis, for display only.
    fn description(&self) -> String;
}

/// Values that can be told apart exactly, as keys of a belief distribution.
pub trait SameAs: Sized {
    /// Whether the two values are the same.
    fn same_as(&self, other: &Self) -> (r: bool)
        ensures
            r == (*self == *other),
    ;
}

} // verus!
