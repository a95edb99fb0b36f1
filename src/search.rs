//! Anytime search for a good question among randomly drawn studies.

use rand::rngs::StdRng;
use vstd::prelude::*;

use crate::distribution::{balance, mass, Distribution, Probability};
use crate::hypotheses::sampleable;
use crate::hypothesis::{Hypothesis, SameAs};
use crate::triangles::Study;

verus! {

/// The exact product of two 64-bit numbers.
fn wide_product(a: u64, b: u64) -> (r: u128)
    ensures
        r == a * b,
{
    proof {
        assert((a as int) * (b as int) <= (u64::MAX as int) * (u64::MAX as int)) by (nonlinear_arith)
            requires
                a <= u64::MAX,
                b <= u64::MAX,
        ;
    }
    (a as u128) * (b as u128)
}

/// Whether a balance exceeds the `desired` share of the total weight.
pub open spec fn exceeds(value: nat, desired: Probability, total: nat) -> bool {
    value * desired.denominator > desired.numerator * total
}

/// The largest balance among the first `count` studies (at least one).
pub open spec fn best_prefix<H: Hypothesis<Study>>(
    entries: Seq<(H, u64)>,
    drawn: Seq<Study>,
    count: int,
) -> nat
    decreases count,
{
    if count <= 1 {
        balance(entries, drawn[0])
    } else {
        let before = best_prefix(entries, drawn, count - 1);
        let here = balance(entries, drawn[count - 1]);
        if here > before {
            here
        } else {
            before
        }
    }
}

/// From index `m` on, the first index at which the best balance so far
/// exceeds the desired share, or else the last index.
pub open spec fn stop_from<H: Hypothesis<Study>>(
    entries: Seq<(H, u64)>,
    drawn: Seq<Study>,
    desired: Probability,
    m: int,
) -> int
    decreases drawn.len() - m,
{
    if m >= drawn.len() - 1 {
        drawn.len() - 1
    } else if exceeds(best_prefix(entries, drawn, m + 1), desired, mass(entries)) {
        m
    } else {
        stop_from(entries, drawn, desired, m + 1)
    }
}

impl<H: Copy + SameAs + Hypothesis<Study>> Distribution<H> {
    /// Chooses among studies drawn in order: reading them one by one, stops
    /// at the first index `k` where the best balance so far exceeds the
    /// `desired` share of the total weight (or at the last index), and
    /// returns the first index up to `k` with the largest balance.
    pub fn pick_question(&self, drawn: &Vec<Study>, desired: Probability) -> (r: usize)
        requires
            self.well_formed(),
            drawn@.len() > 0,
        ensures
            r < drawn@.len(),
            r <= stop_from(self@, drawn@, desired, 0),
            forall|j: int|
                0 <= j <= stop_from(self@, drawn@, desired, 0) ==> balance(self@, #[trigger] drawn@[j])
                    <= balance(self@, drawn@[r as int]),
            forall|j: int|
                0 <= j < r ==> balance(self@, #[trigger] drawn@[j]) < balance(
                    self@,
                    drawn@[r as int],
                ),
    {
        let total = self.total();
        let mut best: usize = 0;
        let mut top_value = self.information_balance(&drawn[0]);
        let mut m: usize = 0;
        while m < drawn.len() - 1
            invariant
                self.well_formed(),
                total == mass(self@),
                m < drawn@.len(),
                best <= m,
                top_value == balance(self@, drawn@[best as int]),
                top_value == best_prefix(self@, drawn@, m + 1),
                forall|j: int| 0 <= j <= m ==> balance(self@, #[trigger] drawn@[j]) <= top_value,
                forall|j: int| 0 <= j < best ==> balance(self@, #[trigger] drawn@[j]) < top_value,
                stop_from(self@, drawn@, desired, 0) == stop_from(self@, drawn@, desired, m as int),
            ensures
                stop_from(self@, drawn@, desired, 0) == m,
                best <= m,
                top_value == balance(self@, drawn@[best as int]),
                forall|j: int| 0 <= j <= m ==> balance(self@, #[trigger] drawn@[j]) <= top_value,
                forall|j: int| 0 <= j < best ==> balance(self@, #[trigger] drawn@[j]) < top_value,
            decreases drawn@.len() - m,
        {
            if wide_product(top_value, desired.denominator) > wide_product(desired.numerator, total) {
                break;
            }
            m += 1;
            let value = self.information_balance(&drawn[m]);
            if value > top_value {
                top_value = value;
                best = m;
            }
        }
        best
    }

    /// Draws random studies, stopping as soon as the best one's rarer
    /// verdict has more than the `desired` share of the total weight, or
    /// after `sample_cap` draws (at least one), and returns the study that
    /// `pick_question` chooses among them. More draws buy better questions
    /// with more time.
    pub fn burning_question_sampled(
        &self,
        desired: Probability,
        sample_cap: usize,
        rng: &mut StdRng,
    ) -> (r: Study)
        requires
            self.well_formed(),
        ensures
            sampleable(r@),
    {
        let total = self.total();
        let mut drawn: Vec<Study> = Vec::new();
        let first = Study::sample(rng);
        let mut top_value = self.information_balance(&first);
        drawn.push(first);
        while drawn.len() < sample_cap
            invariant
                self.well_formed(),
                total == mass(self@),
                drawn@.len() >= 1,
                forall|k: int| 0 <= k < drawn@.len() ==> sampleable(#[trigger] drawn@[k]@),
            decreases sample_cap - drawn@.len(),
        {
            if wide_product(top_value, desired.denominator) > wide_product(desired.numerator, total) {
                break;
            }
            let study = Study::sample(rng);
            let value = self.information_balance(&study);
            if value > top_value {
                top_value = value;
            }
            let ghost before = drawn@;
            drawn.push(study);
            proof {
                assert forall|k: int| 0 <= k < before.len() implies drawn@[k] == before[k] by {}
            }
        }
        let r = self.pick_question(&drawn, desired);
        proof {
            assert(sampleable(drawn@[r as int]@));
        }
        drawn.swap_remove(r)
    }
}

} // verus!
