//! Outcomes of comparing two values for equality after normalization.
use vstd::prelude::*;

verus! {

/// How two values compare: equal as given, equal only after normalization (with the reason),
/// or not equal at all.
#[derive(Clone, Copy, Debug, PartialEq, Eq, Structural)]
pub enum NormalizedEqOutcome<N> {
    ExactMatch,
    MatchAfterNormalization { reason: N },
    NotAMatch,
}

impl<N> NormalizedEqOutcome<N> {
    /// Whether the two values matched, exactly or after normalization.
    pub fn matched(&self) -> (r: bool)
        ensures
            r == !(self is NotAMatch),
    {
        match self {
            NormalizedEqOutcome::NotAMatch => false,
            _ => true,
        }
    }
}

/// A normalization under which two values of type `T` may be found equal. `Facts` carries
/// what the comparison needs to know beyond the two values themselves.
pub trait Normalization<T>: Sized {
    type Facts;

    /// The outcome of comparing `t1` with `t2`, given `facts`.
    spec fn outcome(t1: &T, t2: &T, facts: &Self::Facts) -> NormalizedEqOutcome<Self>;

    /// Performs a normalized comparison of `t1` against `t2`.
    fn normalized_eq(t1: &T, t2: &T, facts: &Self::Facts) -> (r: NormalizedEqOutcome<Self>)
        ensures
            r == Self::outcome(t1, t2, facts),
    ;
}

} // verus!
