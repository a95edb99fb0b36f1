//! The basic hypotheses of the triangle game: bounds on counts of triangles
//! by color, by size and by groundedness; bounds on the total pip count; and
//! the pip count's residue modulo a number.

use vstd::prelude::*;
use vstd::string::*;

use crate::describe::{bound_clauses, decimal, numeral, push_bound_clauses};
use crate::hypothesis::{Hypothesis, SameAs};
use crate::triangles::{
    color_tally, flatten, groundedness_tally, pip_tally, size_tally, Color, Size, Study,
};

verus! {

/// Whether `count` lies within the bounds that are given.
pub open spec fn within(count: nat, lower: Option<usize>, upper: Option<usize>) -> bool {
    &&& (lower matches Some(min) ==> min <= count)
    &&& (upper matches Some(max) ==> count <= max)
}

/// Evaluates `within` on a machine count.
fn count_within(count: u128, lower: Option<usize>, upper: Option<usize>) -> (r: bool)
    ensures
        r == within(count as nat, lower, upper),
{
    if let Some(min) = lower {
        if count < min as u128 {
            return false;
        }
    }
    if let Some(max) = upper {
        if count > max as u128 {
            return false;
        }
    }
    true
}

/// Whether `a` is congruent to `r` modulo `m`; modulo zero that is equality.
pub open spec fn congruent(a: nat, m: nat, r: nat) -> bool {
    if m == 0 {
        a == r
    } else {
        a % m == r
    }
}

/// The name of a color, as it is displayed.
pub open spec fn color_name(color: Color) -> Seq<char> {
    match color {
        Color::Red => "Red"@,
        Color::Blue => "Blue"@,
        Color::Green => "Green"@,
        Color::Yellow => "Yellow"@,
    }
}

fn color_word(color: Color) -> (r: &'static str)
    ensures
        r@ == color_name(color),
{
    match color {
        Color::Red => "Red",
        Color::Blue => "Blue",
        Color::Green => "Green",
        Color::Yellow => "Yellow",
    }
}

/// The name of a size, as it is displayed.
pub open spec fn size_name(size: Size) -> Seq<char> {
    match size {
        Size::One => "One"@,
        Size::Two => "Two"@,
        Size::Three => "Three"@,
    }
}

fn size_word(size: Size) -> (r: &'static str)
    ensures
        r@ == size_name(size),
{
    match size {
        Size::One => "One",
        Size::Two => "Two",
        Size::Three => "Three",
    }
}

/// The number of triangles of a color lies within bounds.
#[derive(Debug, PartialEq, Eq, Hash, Clone, Copy, Structural)]
pub struct ColorCountBoundednessHypothesis {
    pub color: Color,
    pub lower: Option<usize>,
    pub upper: Option<usize>,
}

/// Another name for `ColorCountBoundednessHypothesis`: a bound on the
/// number of triangles of one color.
pub type ColorBoundednessHypothesis = ColorCountBoundednessHypothesis;

impl ColorCountBoundednessHypothesis {
    pub fn new(color: Color, lower: usize, upper: usize) -> (r: Self)
        ensures
            r == (ColorCountBoundednessHypothesis { color, lower: Some(lower), upper: Some(upper) }),
    {
        ColorCountBoundednessHypothesis { color, lower: Some(lower), upper: Some(upper) }
    }

    pub fn new_lower(color: Color, lower: usize) -> (r: Self)
        ensures
            r == (ColorCountBoundednessHypothesis { color, lower: Some(lower), upper: None }),
    {
        ColorCountBoundednessHypothesis { color, lower: Some(lower), upper: None }
    }

    pub fn new_upper(color: Color, upper: usize) -> (r: Self)
        ensures
            r == (ColorCountBoundednessHypothesis { color, lower: None, upper: Some(upper) }),
    {
        ColorCountBoundednessHypothesis { color, lower: None, upper: Some(upper) }
    }
}

impl ColorCountBoundednessHypothesis {
    /// The statement of the hypothesis in words.
    pub open spec fn statement(self) -> Seq<char> {
        "the number of "@ + color_name(self.color) + " triangles"@ + bound_clauses(
                self.lower,
                self.upper,
                true,
            )
    }
}

impl Hypothesis<Study> for ColorCountBoundednessHypothesis {
    open spec fn holds(&self, study: Study) -> bool {
        within(color_tally(flatten(study@), self.color), self.lower, self.upper)
    }

    fn predicts_the_property(&self, study: &Study) -> (r: bool) {
        let count = study.color_count(self.color);
        count_within(count as u128, self.lower, self.upper)
    }

    fn description(&self) -> (r: String)
        ensures
            r@ == self.statement(),
    {
        let mut text = String::from_str("the number of ");
        text.append(color_word(self.color));
        text.append(" triangles");
        push_bound_clauses(&mut text, self.lower, self.upper, true);
        text
    }
}

impl SameAs for ColorCountBoundednessHypothesis {
    fn same_as(&self, other: &Self) -> (r: bool) {
        *self == *other
    }
}

/// The number of triangles of a size lies within bounds.
#[derive(Debug, PartialEq, Eq, Hash, Clone, Copy, Structural)]
pub struct SizeCountBoundednessHypothesis {
    pub size: Size,
    pub lower: Option<usize>,
    pub upper: Option<usize>,
}

impl SizeCountBoundednessHypothesis {
    pub fn new(size: Size, lower: usize, upper: usize) -> (r: Self)
        ensures
            r == (SizeCountBoundednessHypothesis { size, lower: Some(lower), upper: Some(upper) }),
    {
        SizeCountBoundednessHypothesis { size, lower: Some(lower), upper: Some(upper) }
    }

    pub fn new_lower(size: Size, lower: usize) -> (r: Self)
        ensures
            r == (SizeCountBoundednessHypothesis { size, lower: Some(lower), upper: None }),
    {
        SizeCountBoundednessHypothesis { size, lower: Some(lower), upper: None }
    }

    pub fn new_upper(size: Size, upper: usize) -> (r: Self)
        ensures
            r == (SizeCountBoundednessHypothesis { size, lower: None, upper: Some(upper) }),
    {
        SizeCountBoundednessHypothesis { size, lower: None, upper: Some(upper) }
    }
}

impl SizeCountBoundednessHypothesis {
    /// The statement of the hypothesis in words.
    pub open spec fn statement(self) -> Seq<char> {
        "the number of size-"@ + size_name(self.size) + " triangles"@ + bound_clauses(
                self.lower,
                self.upper,
                false,
            )
    }
}

impl Hypothesis<Study> for SizeCountBoundednessHypothesis {
    open spec fn holds(&self, study: Study) -> bool {
        within(size_tally(flatten(study@), self.size), self.lower, self.upper)
    }

    fn predicts_the_property(&self, study: &Study) -> (r: bool) {
        let count = study.size_count(self.size);
        count_within(count as u128, self.lower, self.upper)
    }

    fn description(&self) -> (r: String)
        ensures
            r@ == self.statement(),
    {
        let mut text = String::from_str("the number of size-");
        text.append(size_word(self.size));
        text.append(" triangles");
        push_bound_clauses(&mut text, self.lower, self.upper, false);
        text
    }
}

impl SameAs for SizeCountBoundednessHypothesis {
    fn same_as(&self, other: &Self) -> (r: bool) {
        *self == *other
    }
}

/// The number of grounded (or of ungrounded) triangles lies within bounds.
#[derive(Debug, PartialEq, Eq, Hash, Clone, Copy, Structural)]
pub struct GroundednessCountBoundednessHypothesis {
    pub grounded: bool,
    pub lower: Option<usize>,
    pub upper: Option<usize>,
}

impl GroundednessCountBoundednessHypothesis {
    pub fn new(grounded: bool, lower: usize, upper: usize) -> (r: Self)
        ensures
            r == (GroundednessCountBoundednessHypothesis {
                grounded,
                lower: Some(lower),
                upper: Some(upper),
            }),
    {
        GroundednessCountBoundednessHypothesis { grounded, lower: Some(lower), upper: Some(upper) }
    }

    pub fn new_lower(grounded: bool, lower: usize) -> (r: Self)
        ensures
            r == (GroundednessCountBoundednessHypothesis {
                grounded,
                lower: Some(lower),
                upper: None,
            }),
    {
        GroundednessCountBoundednessHypothesis { grounded, lower: Some(lower), upper: None }
    }

    pub fn new_upper(grounded: bool, upper: usize) -> (r: Self)
        ensures
            r == (GroundednessCountBoundednessHypothesis {
                grounded,
                lower: None,
                upper: Some(upper),
            }),
    {
        GroundednessCountBoundednessHypothesis { grounded, lower: None, upper: Some(upper) }
    }
}

impl GroundednessCountBoundednessHypothesis {
    /// The statement of the hypothesis in words.
    pub open spec fn statement(self) -> Seq<char> {
        "the number of "@ + (if self.grounded {
                Seq::empty()
            } else {
                "un"@
            }) + "grounded triangles"@ + bound_clauses(self.lower, self.upper, false)
    }
}

impl Hypothesis<Study> for GroundednessCountBoundednessHypothesis {
    open spec fn holds(&self, study: Study) -> bool {
        within(groundedness_tally(study@, self.grounded), self.lower, self.upper)
    }

    fn predicts_the_property(&self, study: &Study) -> (r: bool) {
        let count = study.groundedness_count(self.grounded);
        count_within(count as u128, self.lower, self.upper)
    }

    fn description(&self) -> (r: String)
        ensures
            r@ == self.statement(),
    {
        let mut text = String::from_str("the number of ");
        if !self.grounded {
            text.append("un");
        }
        text.append("grounded triangles");
        push_bound_clauses(&mut text, self.lower, self.upper, false);
        text
    }
}

impl SameAs for GroundednessCountBoundednessHypothesis {
    fn same_as(&self, other: &Self) -> (r: bool) {
        *self == *other
    }
}

/// The total pip count lies within bounds.
#[derive(Debug, PartialEq, Eq, Hash, Clone, Copy, Structural)]
pub struct PipBoundednessHypothesis {
    pub lower: Option<usize>,
    pub upper: Option<usize>,
}

impl PipBoundednessHypothesis {
    pub fn new(lower: usize, upper: usize) -> (r: Self)
        ensures
            r == (PipBoundednessHypothesis { lower: Some(lower), upper: Some(upper) }),
    {
        PipBoundednessHypothesis { lower: Some(lower), upper: Some(upper) }
    }

    pub fn exactly(count: usize) -> (r: Self)
        ensures
            r == (PipBoundednessHypothesis { lower: Some(count), upper: Some(count) }),
    {
        PipBoundednessHypothesis { lower: Some(count), upper: Some(count) }
    }

    pub fn at_least(lower: usize) -> (r: Self)
        ensures
            r == (PipBoundednessHypothesis { lower: Some(lower), upper: None }),
    {
        PipBoundednessHypothesis { lower: Some(lower), upper: None }
    }

    pub fn at_most(upper: usize) -> (r: Self)
        ensures
            r == (PipBoundednessHypothesis { lower: None, upper: Some(upper) }),
    {
        PipBoundednessHypothesis { lower: None, upper: Some(upper) }
    }
}

impl PipBoundednessHypothesis {
    /// The statement of the hypothesis in words.
    pub open spec fn statement(self) -> Seq<char> {
        "the number of pips"@ + bound_clauses(self.lower, self.upper, true)
    }
}

impl Hypothesis<Study> for PipBoundednessHypothesis {
    open spec fn holds(&self, study: Study) -> bool {
        within(pip_tally(flatten(study@)), self.lower, self.upper)
    }

    fn predicts_the_property(&self, study: &Study) -> (r: bool) {
        let count = study.pip_count();
        count_within(count, self.lower, self.upper)
    }

    fn description(&self) -> (r: String)
        ensures
            r@ == self.statement(),
    {
        let mut text = String::from_str("the number of pips");
        push_bound_clauses(&mut text, self.lower, self.upper, true);
        text
    }
}

impl SameAs for PipBoundednessHypothesis {
    fn same_as(&self, other: &Self) -> (r: bool) {
        *self == *other
    }
}

/// The total pip count leaves a given remainder modulo a given modulus.
#[derive(Debug, PartialEq, Eq, Hash, Clone, Copy, Structural)]
pub struct PipParityHypothesis {
    pub modulus: usize,
    pub remainder: usize,
}

impl PipParityHypothesis {
    pub fn new(modulus: usize, remainder: usize) -> (r: Self)
        ensures
            r == (PipParityHypothesis { modulus, remainder }),
    {
        PipParityHypothesis { modulus, remainder }
    }
}

impl PipParityHypothesis {
    /// The statement of the hypothesis in words.
    pub open spec fn statement(self) -> Seq<char> {
        (if self.modulus == 2 && self.remainder == 0 {
                "the total pip count is even"@
            } else if self.modulus == 2 && self.remainder == 1 {
                "the total pip count is odd"@
            } else if self.remainder == 0 {
                "the total pip count is divisible by "@ + decimal(self.modulus as nat)
            } else {
                "the total pip count is "@ + decimal(self.remainder as nat) + " modulo "@ + decimal(
                    self.modulus as nat,
                )
            })
    }
}

impl Hypothesis<Study> for PipParityHypothesis {
    open spec fn holds(&self, study: Study) -> bool {
        congruent(pip_tally(flatten(study@)), self.modulus as nat, self.remainder as nat)
    }

    fn predicts_the_property(&self, study: &Study) -> (r: bool) {
        let count = study.pip_count();
        if self.modulus == 0 {
            count == self.remainder as u128
        } else {
            count % (self.modulus as u128) == self.remainder as u128
        }
    }

    fn description(&self) -> (r: String)
        ensures
            r@ == self.statement(),
    {
        if self.modulus == 2 && self.remainder == 0 {
            String::from_str("the total pip count is even")
        } else if self.modulus == 2 && self.remainder == 1 {
            String::from_str("the total pip count is odd")
        } else if self.remainder == 0 {
            let mut text = String::from_str("the total pip count is divisible by ");
            let m = numeral(self.modulus);
            text.append(m.as_str());
            text
        } else {
            let mut text = String::from_str("the total pip count is ");
            let r = numeral(self.remainder);
            text.append(r.as_str());
            text.append(" modulo ");
            let m = numeral(self.modulus);
            text.append(m.as_str());
            text
        }
    }
}

impl SameAs for PipParityHypothesis {
    fn same_as(&self, other: &Self) -> (r: bool) {
        *self == *other
    }
}

} // verus!
