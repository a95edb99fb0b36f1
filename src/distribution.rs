//! The belief engine: a probability distribution over hypotheses, kept as
//! exact integer weights, with Bayesian conditioning on 0/1 likelihoods.
//!
//! The probability of a hypothesis is its weight divided by the total weight.
//! Weights are never rescaled: conditioning drops the hypotheses that
//! disagree with an observation, and the survivors' probabilities are
//! renormalized by the smaller total, exactly.

use vstd::prelude::*;

use crate::hypothesis::{Hypothesis, SameAs};

verus! {

/// An exact probability, `numerator / denominator`. The denominator is the
/// total weight of a distribution; it is zero only for the empty one.
#[derive(Debug, Clone, Copy)]
pub struct Probability {
    pub numerator: u64,
    pub denominator: u64,
}

/// The ways the engine refuses a request.
#[derive(Debug, PartialEq, Eq, Clone, Copy, Structural)]
pub enum InferenceError {
    /// A prior was asked for over no hypotheses at all.
    ConfigurationError,
    /// Conditioning on an observation would leave no hypothesis standing.
    DistributionCollapse,
}

/// What the engine concludes once no question can teach it more.
pub enum Conclusion<H> {
    /// Exactly this hypothesis remains.
    Certain(H),
    /// These hypotheses remain, and no answer could tell them apart.
    Indifferent(Vec<H>),
}

/// Whether no two entries carry the same hypothesis.
pub open spec fn keys_distinct<H>(s: Seq<(H, u64)>) -> bool {
    forall|i: int, j: int| 0 <= i < j < s.len() ==> s[i].0 != s[j].0
}

/// Whether every entry has a positive weight.
pub open spec fn weights_positive<H>(s: Seq<(H, u64)>) -> bool {
    forall|i: int| 0 <= i < s.len() ==> #[trigger] s[i].1 > 0
}

/// The total weight of the entries.
pub open spec fn mass<H>(s: Seq<(H, u64)>) -> nat
    decreases s.len(),
{
    if s.len() == 0 {
        0
    } else {
        mass(s.drop_last()) + s.last().1 as nat
    }
}

/// The weight that the entries give to `h` (zero when it is absent).
pub open spec fn weight_of<H>(s: Seq<(H, u64)>, h: H) -> nat
    decreases s.len(),
{
    if s.len() == 0 {
        0
    } else {
        weight_of(s.drop_last(), h) + if s.last().0 == h {
            s.last().1 as nat
        } else {
            0nat
        }
    }
}

/// The total weight of the hypotheses whose prediction on `study` is
/// `verdict`.
pub open spec fn agreeing_mass<S, H: Hypothesis<S>>(
    s: Seq<(H, u64)>,
    study: S,
    verdict: bool,
) -> nat
    decreases s.len(),
{
    if s.len() == 0 {
        0
    } else {
        agreeing_mass(s.drop_last(), study, verdict) + if s.last().0.holds(study) == verdict {
            s.last().1 as nat
        } else {
            0nat
        }
    }
}

/// The entries whose hypothesis predicts `verdict` on `study`, in order.
pub open spec fn agreeing<S, H: Hypothesis<S>>(s: Seq<(H, u64)>, study: S, verdict: bool) -> Seq<
    (H, u64),
>
    decreases s.len(),
{
    if s.len() == 0 {
        Seq::empty()
    } else {
        agreeing(s.drop_last(), study, verdict) + if s.last().0.holds(study) == verdict {
            seq![s.last()]
        } else {
            Seq::empty()
        }
    }
}

/// Whether every entry predicts the same on `study`.
pub open spec fn unanimous<S, H: Hypothesis<S>>(s: Seq<(H, u64)>, study: S) -> bool {
    forall|i: int, j: int|
        0 <= i < s.len() && 0 <= j < s.len() ==> #[trigger] s[i].0.holds(study)
            == #[trigger] s[j].0.holds(study)
}

/// The smaller of the weights of the two possible verdicts on `study`.
pub open spec fn balance<S, H: Hypothesis<S>>(s: Seq<(H, u64)>, study: S) -> nat {
    let yes = agreeing_mass(s, study, true);
    let no = agreeing_mass(s, study, false);
    if yes <= no {
        yes
    } else {
        no
    }
}

/// The entries of an ignorance prior: each hypothesis with weight one.
pub open spec fn uniform<H>(hypotheses: Seq<H>) -> Seq<(H, u64)> {
    hypotheses.map_values(|h: H| (h, 1u64))
}

/// Whether no two hypotheses of the sequence are the same.
pub open spec fn pairwise_distinct<H>(hypotheses: Seq<H>) -> bool {
    forall|i: int, j: int| 0 <= i < j < hypotheses.len() ==> hypotheses[i] != hypotheses[j]
}

pub proof fn lemma_mass_prefix<H>(s: Seq<(H, u64)>, i: int)
    requires
        0 <= i <= s.len(),
    ensures
        mass(s.take(i)) <= mass(s),
    decreases s.len(),
{
    if i < s.len() {
        assert(s.take(i) =~= s.drop_last().take(i));
        lemma_mass_prefix(s.drop_last(), i);
    } else {
        assert(s.take(i) =~= s);
    }
}

/// The two verdicts share the whole weight between them.
pub proof fn lemma_verdicts_partition<S, H: Hypothesis<S>>(s: Seq<(H, u64)>, study: S)
    ensures
        agreeing_mass(s, study, true) + agreeing_mass(s, study, false) == mass(s),
    decreases s.len(),
{
    if s.len() > 0 {
        lemma_verdicts_partition(s.drop_last(), study);
    }
}

pub(crate) proof fn lemma_agreeing_mass<S, H: Hypothesis<S>>(s: Seq<(H, u64)>, study: S, verdict: bool)
    ensures
        mass(agreeing(s, study, verdict)) == agreeing_mass(s, study, verdict),
        forall|h: H|
            #[trigger] weight_of(agreeing(s, study, verdict), h) == if h.holds(study) == verdict {
                weight_of(s, h)
            } else {
                0
            },
        forall|i: int|
            0 <= i < agreeing(s, study, verdict).len() ==> #[trigger] agreeing(
                s,
                study,
                verdict,
            )[i].0.holds(study) == verdict,
        forall|i: int|
            0 <= i < agreeing(s, study, verdict).len() ==> exists|j: int|
                0 <= j < s.len() && #[trigger] agreeing(s, study, verdict)[i] == s[j],
    decreases s.len(),
{
    if s.len() > 0 {
        let t = s.drop_last();
        lemma_agreeing_mass(t, study, verdict);
        let a = agreeing(t, study, verdict);
        let full = agreeing(s, study, verdict);
        if s.last().0.holds(study) == verdict {
            assert(full.drop_last() =~= a);
            assert(full.last() == s.last());
            assert forall|h: H| #[trigger] weight_of(full, h) == if h.holds(study) == verdict {
                weight_of(s, h)
            } else {
                0
            } by {
                assert(weight_of(full, h) == weight_of(a, h) + if s.last().0 == h {
                    s.last().1 as nat
                } else {
                    0nat
                });
            }
            assert forall|i: int| 0 <= i < full.len() implies exists|j: int|
                0 <= j < s.len() && #[trigger] full[i] == s[j] by {
                if i < a.len() {
                    assert(full[i] == a[i]);
                    let j = choose|j: int| 0 <= j < t.len() && a[i] == t[j];
                    assert(s[j] == t[j]);
                } else {
                    assert(full[i] == s[s.len() - 1]);
                }
            }
            assert forall|i: int| 0 <= i < full.len() implies #[trigger] full[i].0.holds(study)
                == verdict by {
                if i < a.len() {
                    assert(full[i] == a[i]);
                }
            }
        } else {
            assert(full =~= a);
            assert forall|h: H| #[trigger] weight_of(full, h) == if h.holds(study) == verdict {
                weight_of(s, h)
            } else {
                0
            } by {
                assert(weight_of(s, h) == weight_of(t, h) + if s.last().0 == h {
                    s.last().1 as nat
                } else {
                    0nat
                });
            }
            assert forall|i: int| 0 <= i < full.len() implies exists|j: int|
                0 <= j < s.len() && #[trigger] full[i] == s[j] by {
                let j = choose|j: int| 0 <= j < t.len() && a[i] == t[j];
                assert(s[j] == t[j]);
            }
        }
    } else {
        assert(agreeing(s, study, verdict) =~= Seq::<(H, u64)>::empty());
    }
}

pub(crate) proof fn lemma_agreeing_well_formed<S, H: Hypothesis<S>>(
    s: Seq<(H, u64)>,
    study: S,
    verdict: bool,
)
    requires
        keys_distinct(s),
        weights_positive(s),
    ensures
        keys_distinct(agreeing(s, study, verdict)),
        weights_positive(agreeing(s, study, verdict)),
    decreases s.len(),
{
    if s.len() > 0 {
        let t = s.drop_last();
        lemma_agreeing_well_formed(t, study, verdict);
        lemma_agreeing_mass(t, study, verdict);
        let a = agreeing(t, study, verdict);
        let full = agreeing(s, study, verdict);
        if s.last().0.holds(study) == verdict {
            assert(full.drop_last() =~= a);
            assert forall|i: int, j: int| 0 <= i < j < full.len() implies full[i].0 != full[j].0 by {
                if j < a.len() {
                    assert(full[i] == a[i]);
                    assert(full[j] == a[j]);
                } else {
                    assert(full[i] == a[i]);
                    let k = choose|k: int| 0 <= k < t.len() && #[trigger] a[i] == t[k];
                    assert(t[k] == s[k]);
                    assert(full[j] == s[s.len() - 1]);
                }
            }
            assert forall|i: int| 0 <= i < full.len() implies #[trigger] full[i].1 > 0 by {
                if i < a.len() {
                    assert(full[i] == a[i]);
                }
            }
        } else {
            assert(full =~= a);
        }
    }
}

/// Entries that all agree with `verdict` on `study` are all kept.
pub(crate) proof fn lemma_agreeing_all<S, H: Hypothesis<S>>(s: Seq<(H, u64)>, study: S, verdict: bool)
    requires
        forall|i: int| 0 <= i < s.len() ==> #[trigger] s[i].0.holds(study) == verdict,
    ensures
        agreeing(s, study, verdict) == s,
    decreases s.len(),
{
    if s.len() > 0 {
        let t = s.drop_last();
        assert forall|i: int| 0 <= i < t.len() implies #[trigger] t[i].0.holds(study) == verdict by {
            assert(t[i] == s[i]);
        }
        lemma_agreeing_all(t, study, verdict);
        assert(s.last().0.holds(study) == verdict);
        assert(agreeing(s, study, verdict) =~= s);
    } else {
        assert(agreeing(s, study, verdict) =~= s);
    }
}

/// With positive weights, an entry disagreeing with `verdict` leaves some
/// weight to the other verdict.
proof fn lemma_disagreeing_weighs<S, H: Hypothesis<S>>(
    s: Seq<(H, u64)>,
    study: S,
    verdict: bool,
    i: int,
)
    requires
        weights_positive(s),
        0 <= i < s.len(),
        s[i].0.holds(study) != verdict,
    ensures
        agreeing_mass(s, study, !verdict) > 0,
    decreases s.len(),
{
    if i < s.len() - 1 {
        let t = s.drop_last();
        assert(t[i] == s[i]);
        assert forall|k: int| 0 <= k < t.len() implies #[trigger] t[k].1 > 0 by {
            assert(t[k] == s[k]);
        }
        lemma_disagreeing_weighs(t, study, verdict, i);
    } else {
        assert(s.last().1 > 0);
    }
}

/// No weight for a verdict means that every entry predicts the other one.
pub(crate) proof fn lemma_no_weight_no_entry<S, H: Hypothesis<S>>(s: Seq<(H, u64)>, study: S, verdict: bool)
    requires
        weights_positive(s),
        agreeing_mass(s, study, !verdict) == 0,
    ensures
        forall|i: int| 0 <= i < s.len() ==> #[trigger] s[i].0.holds(study) == verdict,
{
    assert forall|i: int| 0 <= i < s.len() implies #[trigger] s[i].0.holds(study) == verdict by {
        if s[i].0.holds(study) != verdict {
            lemma_disagreeing_weighs(s, study, verdict, i);
        }
    }
}

/// Entries that all predict `verdict` give the other verdict no weight.
pub(crate) proof fn lemma_all_agree_no_weight<S, H: Hypothesis<S>>(s: Seq<(H, u64)>, study: S, verdict: bool)
    requires
        forall|i: int| 0 <= i < s.len() ==> #[trigger] s[i].0.holds(study) == verdict,
    ensures
        agreeing_mass(s, study, !verdict) == 0,
    decreases s.len(),
{
    if s.len() > 0 {
        let t = s.drop_last();
        assert forall|i: int| 0 <= i < t.len() implies #[trigger] t[i].0.holds(study) == verdict by {
            assert(t[i] == s[i]);
        }
        lemma_all_agree_no_weight(t, study, verdict);
        assert(s.last().0.holds(study) == verdict);
    }
}

pub(crate) proof fn lemma_weight_of_distinct<H>(s: Seq<(H, u64)>, i: int)
    requires
        keys_distinct(s),
        0 <= i < s.len(),
    ensures
        weight_of(s, s[i].0) == s[i].1,
    decreases s.len(),
{
    let t = s.drop_last();
    if i < s.len() - 1 {
        assert(t[i] == s[i]);
        lemma_weight_of_distinct(t, i);
        assert(s.last().0 != s[i].0);
    } else {
        lemma_weight_of_absent(t, s[i].0);
    }
}

proof fn lemma_weight_of_absent<H>(s: Seq<(H, u64)>, h: H)
    requires
        forall|i: int| 0 <= i < s.len() ==> #[trigger] s[i].0 != h,
    ensures
        weight_of(s, h) == 0,
    decreases s.len(),
{
    if s.len() > 0 {
        let t = s.drop_last();
        assert forall|i: int| 0 <= i < t.len() implies #[trigger] t[i].0 != h by {
            assert(t[i] == s[i]);
        }
        lemma_weight_of_absent(t, h);
    }
}

pub(crate) proof fn lemma_uniform<H>(hypotheses: Seq<H>)
    requires
        pairwise_distinct(hypotheses),
    ensures
        keys_distinct(uniform(hypotheses)),
        weights_positive(uniform(hypotheses)),
        mass(uniform(hypotheses)) == hypotheses.len(),
        forall|i: int| 0 <= i < hypotheses.len() ==> weight_of(uniform(hypotheses), #[trigger] hypotheses[i]) == 1,
    decreases hypotheses.len(),
{
    let u = uniform(hypotheses);
    if hypotheses.len() > 0 {
        let t = hypotheses.drop_last();
        lemma_uniform(t);
        assert(u.drop_last() =~= uniform(t));
    }
    assert forall|i: int| 0 <= i < hypotheses.len() implies weight_of(u, #[trigger] hypotheses[i]) == 1 by {
        lemma_weight_of_distinct(u, i);
    }
}

/// Whether no two of the hypotheses are the same; the condition that
/// priors put on their input.
pub fn all_distinct<H: SameAs>(hypotheses: &Vec<H>) -> (r: bool)
    ensures
        r == pairwise_distinct(hypotheses@),
{
    let n = hypotheses.len();
    let mut i: usize = 0;
    while i < n
        invariant
            n == hypotheses@.len(),
            i <= n,
            forall|a: int, b: int| 0 <= a < b < n && a < i ==> hypotheses@[a] != hypotheses@[b],
        decreases n - i,
    {
        let mut j: usize = i + 1;
        while j < n
            invariant
                n == hypotheses@.len(),
                i < n,
                i < j <= n,
                forall|a: int, b: int| 0 <= a < b < n && a < i ==> hypotheses@[a] != hypotheses@[b],
                forall|b: int| i < b < j ==> hypotheses@[i as int] != hypotheses@[b],
            decreases n - j,
        {
            if hypotheses[i].same_as(&hypotheses[j]) {
                return false;
            }
            j += 1;
        }
        i += 1;
    }
    true
}

/// A belief distribution over hypotheses of type `H`.
#[derive(Debug)]
pub struct Distribution<H> {
    entries: Vec<(H, u64)>,
}

impl<H> View for Distribution<H> {
    type V = Seq<(H, u64)>;

    /// Each hypothesis with positive probability, and its weight.
    closed spec fn view(&self) -> Seq<(H, u64)> {
        self.entries@
    }
}

impl<H> Distribution<H> {
    /// Distinct hypotheses, positive weights, and a total that fits in
    /// a `u64`.
    pub open spec fn well_formed(&self) -> bool {
        &&& keys_distinct(self@)
        &&& weights_positive(self@)
        &&& mass(self@) <= u64::MAX
    }
}

impl<H: Copy + SameAs> Distribution<H> {
    /// The distribution that believes in nothing.
    pub fn new() -> (r: Self)
        ensures
            r@ == Seq::<(H, u64)>::empty(),
            r.well_formed(),
    {
        let r = Distribution { entries: Vec::new() };
        assert(mass(r@) == 0);
        r
    }

    /// A distribution with exactly the given weighted entries.
    pub fn from_weights(entries: Vec<(H, u64)>) -> (r: Self)
        requires
            keys_distinct(entries@),
            weights_positive(entries@),
            mass(entries@) <= u64::MAX,
        ensures
            r@ == entries@,
            r.well_formed(),
    {
        Distribution { entries }
    }

    /// The uniform prior: every hypothesis gets probability `1 / N`.
    /// The hypotheses must be distinct; an empty list is refused.
    pub fn ignorance_prior(hypotheses: Vec<H>) -> (r: Result<Self, InferenceError>)
        requires
            pairwise_distinct(hypotheses@),
        ensures
            hypotheses@.len() == 0 <==> r == Err::<Self, InferenceError>(
                InferenceError::ConfigurationError,
            ),
            hypotheses@.len() > 0 <==> r is Ok,
            r matches Ok(d) ==> d@ == uniform(hypotheses@) && d.well_formed(),
    {
        if hypotheses.len() == 0 {
            return Err(InferenceError::ConfigurationError);
        }
        let mut entries: Vec<(H, u64)> = Vec::new();
        let mut i: usize = 0;
        while i < hypotheses.len()
            invariant
                i <= hypotheses@.len(),
                entries@ == uniform(hypotheses@.take(i as int)),
            decreases hypotheses@.len() - i,
        {
            entries.push((hypotheses[i], 1u64));
            i += 1;
            assert(entries@ =~= uniform(hypotheses@.take(i as int)));
        }
        assert(hypotheses@.take(i as int) =~= hypotheses@);
        proof {
            lemma_uniform(hypotheses@);
        }
        assert(hypotheses@.len() <= u64::MAX);
        Ok(Distribution { entries })
    }

    /// How many hypotheses have positive probability.
    pub fn len(&self) -> (r: usize)
        ensures
            r == self@.len(),
    {
        self.entries.len()
    }

    /// The hypotheses with positive probability.
    pub fn hypotheses(&self) -> (r: Vec<H>)
        ensures
            r@ == self@.map_values(|e: (H, u64)| e.0),
    {
        let mut r: Vec<H> = Vec::new();
        let mut i: usize = 0;
        while i < self.entries.len()
            invariant
                i <= self@.len(),
                r@ == self@.take(i as int).map_values(|e: (H, u64)| e.0),
            decreases self@.len() - i,
        {
            r.push(self.entries[i].0);
            i += 1;
            assert(r@ =~= self@.take(i as int).map_values(|e: (H, u64)| e.0));
        }
        assert(self@.take(i as int) =~= self@);
        r
    }

    /// Each hypothesis with positive probability, and its weight.
    pub fn entries(&self) -> (r: Vec<(H, u64)>)
        ensures
            r@ == self@,
    {
        let mut r: Vec<(H, u64)> = Vec::new();
        let mut i: usize = 0;
        while i < self.entries.len()
            invariant
                i <= self@.len(),
                r@ == self@.take(i as int),
            decreases self@.len() - i,
        {
            r.push(self.entries[i]);
            i += 1;
            assert(r@ =~= self@.take(i as int));
        }
        assert(self@.take(i as int) =~= self@);
        r
    }

    /// The total weight, the common denominator of all probabilities.
    pub fn total(&self) -> (r: u64)
        requires
            self.well_formed(),
        ensures
            r == mass(self@),
    {
        let mut sum: u64 = 0;
        let mut i: usize = 0;
        while i < self.entries.len()
            invariant
                i <= self@.len(),
                sum == mass(self@.take(i as int)),
                mass(self@) <= u64::MAX,
            decreases self@.len() - i,
        {
            assert(self@.take(i + 1).drop_last() =~= self@.take(i as int));
            proof {
                lemma_mass_prefix(self@, i + 1);
            }
            sum = sum + self.entries[i].1;
            i += 1;
        }
        assert(self@.take(i as int) =~= self@);
        sum
    }

    /// The probability of a hypothesis: zero when it is absent.
    pub fn belief(&self, hypothesis: H) -> (r: Probability)
        requires
            self.well_formed(),
        ensures
            r.numerator == weight_of(self@, hypothesis),
            r.denominator == mass(self@),
    {
        let mut weight: u64 = 0;
        let mut i: usize = 0;
        while i < self.entries.len()
            invariant
                i <= self@.len(),
                weight == weight_of(self@.take(i as int), hypothesis),
                weight <= mass(self@.take(i as int)),
                mass(self@) <= u64::MAX,
            decreases self@.len() - i,
        {
            assert(self@.take(i + 1).drop_last() =~= self@.take(i as int));
            proof {
                lemma_mass_prefix(self@, i + 1);
            }
            if self.entries[i].0.same_as(&hypothesis) {
                weight = weight + self.entries[i].1;
            }
            i += 1;
        }
        assert(self@.take(i as int) =~= self@);
        Probability { numerator: weight, denominator: self.total() }
    }

    /// The sole hypothesis with positive probability, if there is exactly one.
    pub fn completely_certain(&self) -> (r: Option<H>)
        ensures
            r == (if self@.len() == 1 {
                Some(self@[0].0)
            } else {
                None::<H>
            }),
    {
        if self.entries.len() != 1 {
            None
        } else {
            Some(self.entries[0].0)
        }
    }

    /// The total weight of the hypotheses that predict `verdict` on `study`.
    fn agreeing_weight<S>(&self, study: &S, verdict: bool) -> (r: u64)
        where H: Hypothesis<S>,
        requires
            self.well_formed(),
        ensures
            r == agreeing_mass(self@, *study, verdict),
    {
        let mut sum: u64 = 0;
        let mut i: usize = 0;
        while i < self.entries.len()
            invariant
                i <= self@.len(),
                sum == agreeing_mass(self@.take(i as int), *study, verdict),
                sum <= mass(self@.take(i as int)),
                mass(self@) <= u64::MAX,
            decreases self@.len() - i,
        {
            assert(self@.take(i + 1).drop_last() =~= self@.take(i as int));
            proof {
                lemma_mass_prefix(self@, i + 1);
            }
            if self.entries[i].0.predicts_the_property(study) == verdict {
                sum = sum + self.entries[i].1;
            }
            i += 1;
        }
        assert(self@.take(i as int) =~= self@);
        sum
    }

    /// The probability that `study` gets `verdict`: the total probability of
    /// the hypotheses that predict it.
    pub fn predict<S>(&self, study: &S, verdict: bool) -> (r: Probability)
        where H: Hypothesis<S>,
        requires
            self.well_formed(),
        ensures
            r.numerator == agreeing_mass(self@, *study, verdict),
            r.denominator == mass(self@),
    {
        let numerator = self.agreeing_weight(study, verdict);
        Probability { numerator, denominator: self.total() }
    }

    /// Conditions the distribution on `study` getting `verdict`: the
    /// hypotheses that predict otherwise are dropped, and the rest keep
    /// their weights, so their probabilities are rescaled by
    /// `1 / predict(study, verdict)`. Refused when nothing would remain.
    pub fn updated<S>(&self, study: &S, verdict: bool) -> (r: Result<Self, InferenceError>)
        where H: Hypothesis<S>,
        requires
            self.well_formed(),
        ensures
            agreeing_mass(self@, *study, verdict) == 0 <==> r == Err::<Self, InferenceError>(
                InferenceError::DistributionCollapse,
            ),
            agreeing_mass(self@, *study, verdict) > 0 <==> r is Ok,
            r matches Ok(d) ==> d@ == agreeing(self@, *study, verdict) && d.well_formed(),
    {
        let mut entries: Vec<(H, u64)> = Vec::new();
        let mut i: usize = 0;
        while i < self.entries.len()
            invariant
                i <= self@.len(),
                entries@ == agreeing(self@.take(i as int), *study, verdict),
            decreases self@.len() - i,
        {
            assert(self@.take(i + 1).drop_last() =~= self@.take(i as int));
            let (h, w) = self.entries[i];
            if h.predicts_the_property(study) == verdict {
                entries.push((h, w));
            }
            i += 1;
            assert(entries@ =~= agreeing(self@.take(i as int), *study, verdict));
        }
        assert(self@.take(i as int) =~= self@);
        proof {
            lemma_agreeing_mass(self@, *study, verdict);
            lemma_agreeing_well_formed(self@, *study, verdict);
            lemma_verdicts_partition(self@, *study);
        }
        if entries.len() == 0 {
            assert(agreeing_mass(self@, *study, verdict) == 0);
            return Err(InferenceError::DistributionCollapse);
        }
        proof {
            if agreeing_mass(self@, *study, verdict) == 0 {
                assert(entries@[0].1 > 0);
                lemma_mass_prefix(entries@, 1);
                assert(entries@.take(1).drop_last() =~= Seq::<(H, u64)>::empty());
                assert(mass(entries@.take(1)) == entries@[0].1);
            }
        }
        Ok(Distribution { entries })
    }

    /// The smaller of the weights of the two verdicts on `study`.
    ///
    /// With 0/1 likelihoods the verdict is a function of the hypothesis, so
    /// the value of asking about `study` (the mutual information between
    /// its verdict and the hypothesis) is the binary entropy of
    /// `predict(study, true)`. That entropy grows with this balance: the
    /// study with the largest balance is the most informative one, and the
    /// value is zero exactly when the balance is.
    pub fn information_balance<S>(&self, study: &S) -> (r: u64)
        where H: Hypothesis<S>,
        requires
            self.well_formed(),
        ensures
            r == balance(self@, *study),
    {
        let yes = self.agreeing_weight(study, true);
        let no = self.agreeing_weight(study, false);
        if yes <= no {
            yes
        } else {
            no
        }
    }

    /// What to conclude when even the best question, about `study`, is
    /// worth nothing; `None` while its answer could still teach something.
    pub fn conclusion<S>(&self, study: &S) -> (r: Option<Conclusion<H>>)
        where H: Hypothesis<S>,
        requires
            self.well_formed(),
        ensures
            r is None <==> balance(self@, *study) > 0,
            r matches Some(Conclusion::Certain(h)) ==> self@.len() == 1 && h == self@[0].0,
            r matches Some(Conclusion::Indifferent(v)) ==> self@.len() != 1 && v@
                == self@.map_values(|e: (H, u64)| e.0),
    {
        if self.information_balance(study) > 0 {
            None
        } else {
            match self.completely_certain() {
                Some(h) => Some(Conclusion::Certain(h)),
                None => Some(Conclusion::Indifferent(self.hypotheses())),
            }
        }
    }

    /// The first of the studies whose verdict is most informative, or
    /// `None` when there are none.
    pub fn burning_question<S: Copy>(&self, studies: Vec<S>) -> (r: Option<S>)
        where H: Hypothesis<S>,
        requires
            self.well_formed(),
        ensures
            studies@.len() == 0 <==> r is None,
            r matches Some(s) ==> exists|i: int|
                {
                    &&& 0 <= i < studies@.len()
                    &&& studies@[i] == s
                    &&& forall|j: int|
                        0 <= j < studies@.len() ==> balance(self@, #[trigger] studies@[j])
                            <= balance(self@, s)
                    &&& forall|j: int|
                        0 <= j < i ==> balance(self@, #[trigger] studies@[j]) < balance(
                            self@,
                            s,
                        )
                },
    {
        if studies.len() == 0 {
            return None;
        }
        let mut best: usize = 0;
        let mut top_value = self.information_balance(&studies[0]);
        let mut i: usize = 1;
        while i < studies.len()
            invariant
                1 <= i <= studies@.len(),
                best < i,
                self.well_formed(),
                top_value == balance(self@, studies@[best as int]),
                forall|j: int| 0 <= j < i ==> balance(self@, #[trigger] studies@[j]) <= top_value,
                forall|j: int| 0 <= j < best ==> balance(self@, #[trigger] studies@[j]) < top_value,
            decreases studies@.len() - i,
        {
            let value = self.information_balance(&studies[i]);
            if value > top_value {
                top_value = value;
                best = i;
            }
            i += 1;
        }
        Some(studies[best])
    }
}

} // verus!
