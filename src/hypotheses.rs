//! Basic hypotheses as one closed kind, and hypotheses joined from two of
//! them by "and" or "or".

use rand::rngs::StdRng;
use vstd::prelude::*;
use vstd::string::*;

use crate::basics::{
    ColorCountBoundednessHypothesis, GroundednessCountBoundednessHypothesis,
    PipBoundednessHypothesis, PipParityHypothesis, SizeCountBoundednessHypothesis,
};
use crate::hypothesis::{Hypothesis, SameAs};
use crate::triangles::{Study, Triangle};

verus! {

/// One basic hypothesis, of any of the basic kinds.
#[derive(Debug, PartialEq, Eq, Hash, Clone, Copy, Structural)]
pub enum BasicHypothesis {
    ColorCountBoundedness(ColorCountBoundednessHypothesis),
    SizeCountBoundedness(SizeCountBoundednessHypothesis),
    GroundednessCountBoundedness(GroundednessCountBoundednessHypothesis),
    PipBoundedness(PipBoundednessHypothesis),
    PipParity(PipParityHypothesis),
}

impl From<ColorCountBoundednessHypothesis> for BasicHypothesis {
    fn from(h: ColorCountBoundednessHypothesis) -> (r: Self) {
        BasicHypothesis::ColorCountBoundedness(h)
    }
}

impl vstd::std_specs::convert::FromSpecImpl<ColorCountBoundednessHypothesis> for BasicHypothesis {
    open spec fn obeys_from_spec() -> bool {
        true
    }

    open spec fn from_spec(h: ColorCountBoundednessHypothesis) -> Self {
        BasicHypothesis::ColorCountBoundedness(h)
    }
}

impl From<SizeCountBoundednessHypothesis> for BasicHypothesis {
    fn from(h: SizeCountBoundednessHypothesis) -> (r: Self) {
        BasicHypothesis::SizeCountBoundedness(h)
    }
}

impl vstd::std_specs::convert::FromSpecImpl<SizeCountBoundednessHypothesis> for BasicHypothesis {
    open spec fn obeys_from_spec() -> bool {
        true
    }

    open spec fn from_spec(h: SizeCountBoundednessHypothesis) -> Self {
        BasicHypothesis::SizeCountBoundedness(h)
    }
}

impl From<GroundednessCountBoundednessHypothesis> for BasicHypothesis {
    fn from(h: GroundednessCountBoundednessHypothesis) -> (r: Self) {
        BasicHypothesis::GroundednessCountBoundedness(h)
    }
}

impl vstd::std_specs::convert::FromSpecImpl<GroundednessCountBoundednessHypothesis> for
    BasicHypothesis {
    open spec fn obeys_from_spec() -> bool {
        true
    }

    open spec fn from_spec(h: GroundednessCountBoundednessHypothesis) -> Self {
        BasicHypothesis::GroundednessCountBoundedness(h)
    }
}

impl From<PipBoundednessHypothesis> for BasicHypothesis {
    fn from(h: PipBoundednessHypothesis) -> (r: Self) {
        BasicHypothesis::PipBoundedness(h)
    }
}

impl vstd::std_specs::convert::FromSpecImpl<PipBoundednessHypothesis> for BasicHypothesis {
    open spec fn obeys_from_spec() -> bool {
        true
    }

    open spec fn from_spec(h: PipBoundednessHypothesis) -> Self {
        BasicHypothesis::PipBoundedness(h)
    }
}

impl From<PipParityHypothesis> for BasicHypothesis {
    fn from(h: PipParityHypothesis) -> (r: Self) {
        BasicHypothesis::PipParity(h)
    }
}

impl vstd::std_specs::convert::FromSpecImpl<PipParityHypothesis> for BasicHypothesis {
    open spec fn obeys_from_spec() -> bool {
        true
    }

    open spec fn from_spec(h: PipParityHypothesis) -> Self {
        BasicHypothesis::PipParity(h)
    }
}

/// Whether `a` makes joining it with `b` pointless: two count bounds over
/// the same color, size or groundedness; a color count bound with anything
/// about pips; anything about pips with a size or groundedness count bound
/// or with anything about pips.
#[verifier::opaque]
pub open spec fn obviation(a: BasicHypothesis, b: BasicHypothesis) -> bool {
    match a {
        BasicHypothesis::ColorCountBoundedness(h1) => match b {
            BasicHypothesis::ColorCountBoundedness(h2) => h1.color == h2.color,
            BasicHypothesis::PipBoundedness(_) => true,
            BasicHypothesis::PipParity(_) => true,
            _ => false,
        },
        BasicHypothesis::SizeCountBoundedness(h1) => match b {
            BasicHypothesis::SizeCountBoundedness(h2) => h1.size == h2.size,
            _ => false,
        },
        BasicHypothesis::GroundednessCountBoundedness(h1) => match b {
            BasicHypothesis::GroundednessCountBoundedness(h2) => h1.grounded == h2.grounded,
            _ => false,
        },
        BasicHypothesis::PipBoundedness(_) | BasicHypothesis::PipParity(_) => match b {
            BasicHypothesis::SizeCountBoundedness(_) => true,
            BasicHypothesis::GroundednessCountBoundedness(_) => true,
            BasicHypothesis::PipBoundedness(_) => true,
            BasicHypothesis::PipParity(_) => true,
            _ => false,
        },
    }
}

impl BasicHypothesis {
    /// Whether joining this hypothesis with `other` is pointless.
    pub fn obviates(&self, other: &BasicHypothesis) -> (r: bool)
        ensures
            r == obviation(*self, *other),
    {
        reveal(obviation);
        match *self {
            BasicHypothesis::ColorCountBoundedness(h1) => match *other {
                BasicHypothesis::ColorCountBoundedness(h2) => h1.color == h2.color,
                BasicHypothesis::PipBoundedness(_) => true,
                BasicHypothesis::PipParity(_) => true,
                _ => false,
            },
            BasicHypothesis::SizeCountBoundedness(h1) => match *other {
                BasicHypothesis::SizeCountBoundedness(h2) => h1.size == h2.size,
                _ => false,
            },
            BasicHypothesis::GroundednessCountBoundedness(h1) => match *other {
                BasicHypothesis::GroundednessCountBoundedness(h2) => h1.grounded == h2.grounded,
                _ => false,
            },
            BasicHypothesis::PipBoundedness(_) | BasicHypothesis::PipParity(_) => match *other {
                BasicHypothesis::SizeCountBoundedness(_) => true,
                BasicHypothesis::GroundednessCountBoundedness(_) => true,
                BasicHypothesis::PipBoundedness(_) => true,
                BasicHypothesis::PipParity(_) => true,
                _ => false,
            },
        }
    }
}

impl Hypothesis<Study> for BasicHypothesis {
    open spec fn holds(&self, study: Study) -> bool {
        match *self {
            BasicHypothesis::ColorCountBoundedness(h) => h.holds(study),
            BasicHypothesis::SizeCountBoundedness(h) => h.holds(study),
            BasicHypothesis::GroundednessCountBoundedness(h) => h.holds(study),
            BasicHypothesis::PipBoundedness(h) => h.holds(study),
            BasicHypothesis::PipParity(h) => h.holds(study),
        }
    }

    fn predicts_the_property(&self, study: &Study) -> (r: bool) {
        match *self {
            BasicHypothesis::ColorCountBoundedness(h) => h.predicts_the_property(study),
            BasicHypothesis::SizeCountBoundedness(h) => h.predicts_the_property(study),
            BasicHypothesis::GroundednessCountBoundedness(h) => h.predicts_the_property(study),
            BasicHypothesis::PipBoundedness(h) => h.predicts_the_property(study),
            BasicHypothesis::PipParity(h) => h.predicts_the_property(study),
        }
    }

    fn description(&self) -> (r: String)
        ensures
            r@ == basic_description(*self),
    {
        match *self {
            BasicHypothesis::ColorCountBoundedness(h) => h.description(),
            BasicHypothesis::SizeCountBoundedness(h) => h.description(),
            BasicHypothesis::GroundednessCountBoundedness(h) => h.description(),
            BasicHypothesis::PipBoundedness(h) => h.description(),
            BasicHypothesis::PipParity(h) => h.description(),
        }
    }
}

/// The description of a basic hypothesis: that of the hypothesis it holds.
pub open spec fn basic_description(h: BasicHypothesis) -> Seq<char> {
    match h {
        BasicHypothesis::ColorCountBoundedness(h) => h.statement(),
        BasicHypothesis::SizeCountBoundedness(h) => h.statement(),
        BasicHypothesis::GroundednessCountBoundedness(h) => h.statement(),
        BasicHypothesis::PipBoundedness(h) => h.statement(),
        BasicHypothesis::PipParity(h) => h.statement(),
    }
}

impl SameAs for BasicHypothesis {
    fn same_as(&self, other: &Self) -> (r: bool) {
        *self == *other
    }
}

/// What follows the first basic hypothesis of a joined one.
#[derive(Debug, PartialEq, Eq, Hash, Clone, Copy, Structural)]
pub enum Remainder {
    And(BasicHypothesis),
    Or(BasicHypothesis),
    FullStop,
}

/// A basic hypothesis alone, or joined with a second one by "and" or "or".
#[derive(Debug, PartialEq, Eq, Hash, Clone, Copy, Structural)]
pub struct JoinedHypothesis {
    pub proposition: BasicHypothesis,
    pub remainder: Remainder,
}

/// Whether the study has the sizes that `Study::sample` draws: one to four
/// stacks of one to four triangles each.
pub open spec fn sampleable(study: Seq<Seq<Triangle>>) -> bool {
    &&& 1 <= study.len() <= 4
    &&& forall|i: int| 0 <= i < study.len() ==> 1 <= #[trigger] study[i].len() <= 4
}

impl JoinedHypothesis {
    pub fn full_stop(hypothesis: BasicHypothesis) -> (r: Self)
        ensures
            r == (JoinedHypothesis { proposition: hypothesis, remainder: Remainder::FullStop }),
    {
        JoinedHypothesis { proposition: hypothesis, remainder: Remainder::FullStop }
    }

    pub fn and(first_conjunct: BasicHypothesis, second_conjunct: BasicHypothesis) -> (r: Self)
        ensures
            r == (JoinedHypothesis {
                proposition: first_conjunct,
                remainder: Remainder::And(second_conjunct),
            }),
    {
        JoinedHypothesis { proposition: first_conjunct, remainder: Remainder::And(second_conjunct) }
    }

    pub fn or(first_disjunct: BasicHypothesis, second_disjunct: BasicHypothesis) -> (r: Self)
        ensures
            r == (JoinedHypothesis {
                proposition: first_disjunct,
                remainder: Remainder::Or(second_disjunct),
            }),
    {
        JoinedHypothesis { proposition: first_disjunct, remainder: Remainder::Or(second_disjunct) }
    }

    /// Whether the hypothesis holds on one of the studies and fails on
    /// another.
    pub fn substantial_among(&self, studies: &Vec<Study>) -> (r: bool)
        ensures
            r == ((exists|i: int| 0 <= i < studies@.len() && self.holds(studies@[i])) && (exists|
                j: int,
            |
                0 <= j < studies@.len() && !self.holds(studies@[j]))),
    {
        let mut confirmable = false;
        let mut falsifiable = false;
        let mut k: usize = 0;
        while k < studies.len()
            invariant
                k <= studies@.len(),
                confirmable == exists|i: int| 0 <= i < k && self.holds(studies@[i]),
                falsifiable == exists|i: int| 0 <= i < k && !self.holds(studies@[i]),
            decreases studies@.len() - k,
        {
            if self.predicts_the_property(&studies[k]) {
                confirmable = true;
            } else {
                falsifiable = true;
            }
            k += 1;
        }
        confirmable && falsifiable
    }

    /// Draws random studies, at most `sample_cap` of them and none once the
    /// hypothesis has held on one and failed on another, and reports with
    /// `substantial_among` on what was drawn.
    ///
    /// A `true` is proof that the hypothesis is neither a tautology nor a
    /// contradiction; a `false` may come from too few samples.
    pub fn check_substantiality(&self, sample_cap: usize, rng: &mut StdRng) -> (r: bool)
        ensures
            r ==> exists|s: Study| sampleable(s@) && self.holds(s),
            r ==> exists|s: Study| sampleable(s@) && !self.holds(s),
            (forall|s: Study| sampleable(s@) ==> self.holds(s)) ==> !r,
            (forall|s: Study| sampleable(s@) ==> !self.holds(s)) ==> !r,
            sample_cap <= 1 ==> !r,
    {
        let mut drawn: Vec<Study> = Vec::new();
        let mut confirmable = false;
        let mut falsifiable = false;
        while drawn.len() < sample_cap && !(confirmable && falsifiable)
            invariant
                drawn@.len() <= sample_cap,
                forall|k: int| 0 <= k < drawn@.len() ==> sampleable(#[trigger] drawn@[k]@),
                confirmable == exists|i: int| 0 <= i < drawn@.len() && self.holds(drawn@[i]),
                falsifiable == exists|i: int| 0 <= i < drawn@.len() && !self.holds(drawn@[i]),
            decreases sample_cap - drawn@.len(),
        {
            let study = Study::sample(rng);
            if self.predicts_the_property(&study) {
                confirmable = true;
            } else {
                falsifiable = true;
            }
            let ghost before = drawn@;
            drawn.push(study);
            proof {
                assert forall|i: int| 0 <= i < before.len() implies drawn@[i] == before[i] by {}
                assert(drawn@[before.len() as int] == study);
            }
        }
        let r = self.substantial_among(&drawn);
        proof {
            if r {
                let i = choose|i: int| 0 <= i < drawn@.len() && self.holds(drawn@[i]);
                let j = choose|j: int| 0 <= j < drawn@.len() && !self.holds(drawn@[j]);
                assert(sampleable(drawn@[i]@));
                assert(sampleable(drawn@[j]@));
                assert(i != j);
            }
        }
        r
    }
}

impl Hypothesis<Study> for JoinedHypothesis {
    open spec fn holds(&self, study: Study) -> bool {
        match self.remainder {
            Remainder::And(conjunct) => self.proposition.holds(study) && conjunct.holds(study),
            Remainder::Or(disjunct) => self.proposition.holds(study) || disjunct.holds(study),
            Remainder::FullStop => self.proposition.holds(study),
        }
    }

    fn predicts_the_property(&self, study: &Study) -> (r: bool) {
        match self.remainder {
            Remainder::And(conjunct) => {
                self.proposition.predicts_the_property(study) && conjunct.predicts_the_property(
                    study,
                )
            },
            Remainder::Or(disjunct) => {
                self.proposition.predicts_the_property(study) || disjunct.predicts_the_property(
                    study,
                )
            },
            Remainder::FullStop => self.proposition.predicts_the_property(study),
        }
    }

    fn description(&self) -> (r: String)
        ensures
            r@ == joined_description(*self),
    {
        let mut text = self.proposition.description();
        match self.remainder {
            Remainder::And(conjunct) => {
                text.append(" and ");
                let rest = conjunct.description();
                text.append(rest.as_str());
            },
            Remainder::Or(disjunct) => {
                text.append(" or ");
                let rest = disjunct.description();
                text.append(rest.as_str());
            },
            Remainder::FullStop => {},
        }
        text
    }
}

/// The description of a joined hypothesis: its parts' descriptions, with
/// "and" or "or" between them.
pub open spec fn joined_description(h: JoinedHypothesis) -> Seq<char> {
    match h.remainder {
        Remainder::And(b) => basic_description(h.proposition) + " and "@ + basic_description(b),
        Remainder::Or(b) => basic_description(h.proposition) + " or "@ + basic_description(b),
        Remainder::FullStop => basic_description(h.proposition),
    }
}

impl SameAs for JoinedHypothesis {
    fn same_as(&self, other: &Self) -> (r: bool) {
        *self == *other
    }
}

} // verus!
