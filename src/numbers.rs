//! Hypotheses of the number game, whose subjects are natural numbers.

use vstd::prelude::*;
use vstd::string::*;

use crate::describe::{decimal, numeral};
use crate::hypothesis::{Hypothesis, SameAs};

verus! {

/// Whether `d` divides `m`: some multiple of `d` is `m`. Zero divides only
/// zero.
pub open spec fn divides(d: nat, m: nat) -> bool {
    if d == 0 {
        m == 0
    } else {
        m % d == 0
    }
}

/// The number is divisible by `n`.
#[derive(Debug, PartialEq, Eq, Hash, Clone, Copy, Structural)]
pub struct DivisibilityHypothesis {
    pub n: u16,
}

impl DivisibilityHypothesis {
    pub fn new(n: u16) -> (r: Self)
        ensures
            r.n == n,
    {
        DivisibilityHypothesis { n }
    }
}

impl Hypothesis<u16> for DivisibilityHypothesis {
    open spec fn holds(&self, study: u16) -> bool {
        divides(self.n as nat, study as nat)
    }

    fn predicts_the_property(&self, study: &u16) -> (r: bool) {
        if self.n == 0 {
            *study == 0
        } else {
            *study % self.n == 0
        }
    }

    fn description(&self) -> (r: String)
        ensures
            r@ == "it is divisible by "@ + decimal(self.n as nat),
    {
        let mut text = String::from_str("it is divisible by ");
        let n = numeral(self.n as usize);
        text.append(n.as_str());
        text
    }
}

impl SameAs for DivisibilityHypothesis {
    fn same_as(&self, other: &Self) -> (r: bool) {
        *self == *other
    }
}

/// The number lies within the bounds that are given.
#[derive(Debug, PartialEq, Eq, Hash, Clone, Copy, Structural)]
pub struct BoundednessHypothesis {
    pub lower: Option<u16>,
    pub upper: Option<u16>,
}

impl BoundednessHypothesis {
    pub fn new(lower: u16, upper: u16) -> (r: Self)
        ensures
            r == (BoundednessHypothesis { lower: Some(lower), upper: Some(upper) }),
    {
        BoundednessHypothesis { lower: Some(lower), upper: Some(upper) }
    }

    pub fn new_lower(lower: u16) -> (r: Self)
        ensures
            r == (BoundednessHypothesis { lower: Some(lower), upper: None }),
    {
        BoundednessHypothesis { lower: Some(lower), upper: None }
    }

    pub fn new_upper(upper: u16) -> (r: Self)
        ensures
            r == (BoundednessHypothesis { lower: None, upper: Some(upper) }),
    {
        BoundednessHypothesis { lower: None, upper: Some(upper) }
    }

    /// The statement of the hypothesis in words: "it is not less than a",
    /// "and", "it is not greater than b", for the bounds that are given.
    pub open spec fn statement(self) -> Seq<char> {
        let first: Seq<char> = if self.lower is Some {
            "it is not less than "@ + decimal(self.lower->0 as nat)
        } else {
            Seq::empty()
        };
        if self.lower is Some && self.upper is Some {
            first + " and "@ + "it is not greater than "@ + decimal(self.upper->0 as nat)
        } else if self.upper is Some {
            "it is not greater than "@ + decimal(self.upper->0 as nat)
        } else {
            first
        }
    }
}

impl Hypothesis<u16> for BoundednessHypothesis {
    open spec fn holds(&self, study: u16) -> bool {
        &&& (self.lower matches Some(min) ==> min <= study)
        &&& (self.upper matches Some(max) ==> study <= max)
    }

    fn predicts_the_property(&self, study: &u16) -> (r: bool) {
        if let Some(min) = self.lower {
            if *study < min {
                return false;
            }
        }
        if let Some(max) = self.upper {
            if *study > max {
                return false;
            }
        }
        true
    }

    fn description(&self) -> (r: String)
        ensures
            r@ == self.statement(),
    {
        let mut text = String::new();
        if let Some(min) = self.lower {
            text.append("it is not less than ");
            let n = numeral(min as usize);
            text.append(n.as_str());
        }
        if self.lower.is_some() && self.upper.is_some() {
            text.append(" and ");
        }
        if let Some(max) = self.upper {
            text.append("it is not greater than ");
            let n = numeral(max as usize);
            text.append(n.as_str());
        }
        assert(text@ =~= self.statement());
        text
    }
}

impl SameAs for BoundednessHypothesis {
    fn same_as(&self, other: &Self) -> (r: bool) {
        *self == *other
    }
}

/// Both of two hypotheses hold.
pub struct ConjunctiveHypothesis<H, I> {
    pub this: Box<H>,
    pub that: Box<I>,
}

impl<H: Hypothesis<u16>, I: Hypothesis<u16>> Hypothesis<u16> for ConjunctiveHypothesis<H, I> {
    open spec fn holds(&self, study: u16) -> bool {
        self.this.holds(study) && self.that.holds(study)
    }

    fn predicts_the_property(&self, study: &u16) -> (r: bool) {
        self.this.predicts_the_property(study) && self.that.predicts_the_property(study)
    }

    fn description(&self) -> (r: String) {
        let mut text = self.this.description();
        text.append(" and ");
        let rest = self.that.description();
        text.append(rest.as_str());
        text
    }
}

} // verus!
