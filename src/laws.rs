//! Laws of the belief engine, stated over the same spec functions that the
//! engine's contracts use.

use vstd::prelude::*;

use crate::distribution::{
    agreeing, agreeing_mass, balance, keys_distinct, lemma_agreeing_all, lemma_agreeing_mass,
    lemma_agreeing_well_formed, lemma_all_agree_no_weight, lemma_no_weight_no_entry,
    lemma_uniform, lemma_verdicts_partition, mass, pairwise_distinct, unanimous, uniform,
    weight_of, weights_positive,
};
use crate::hypothesis::Hypothesis;

verus! {

/// The ignorance prior over N distinct hypotheses gives each of them
/// probability 1/N: weight one out of a total of N, so that the beliefs
/// sum to one.
pub proof fn law_ignorance_prior_is_uniform<H>(hypotheses: Seq<H>)
    requires
        pairwise_distinct(hypotheses),
    ensures
        mass(uniform(hypotheses)) == hypotheses.len(),
        forall|i: int|
            0 <= i < hypotheses.len() ==> weight_of(uniform(hypotheses), #[trigger] hypotheses[i])
                == 1,
{
    lemma_uniform(hypotheses);
}

/// For every subject, the probabilities of its two verdicts sum to one:
/// their weights make up the whole total.
pub proof fn law_predictions_are_complementary<S, H: Hypothesis<S>>(
    entries: Seq<(H, u64)>,
    study: S,
)
    ensures
        agreeing_mass(entries, study, true) + agreeing_mass(entries, study, false) == mass(
            entries,
        ),
{
    lemma_verdicts_partition(entries, study);
}

/// Conditioning on a verdict puts the whole mass on the hypotheses that
/// predict it: every survivor agrees with the verdict and keeps its weight,
/// every dissenter gets weight zero, and the survivors' weights add up to
/// the new total.
pub proof fn law_update_keeps_only_agreement<S, H: Hypothesis<S>>(
    entries: Seq<(H, u64)>,
    study: S,
    verdict: bool,
)
    requires
        keys_distinct(entries),
        weights_positive(entries),
    ensures
        forall|i: int|
            0 <= i < agreeing(entries, study, verdict).len() ==> (#[trigger] agreeing(
                entries,
                study,
                verdict,
            )[i]).0.holds(study) == verdict,
        forall|h: H|
            #[trigger] weight_of(agreeing(entries, study, verdict), h) == if h.holds(study)
                == verdict {
                weight_of(entries, h)
            } else {
                0
            },
        mass(agreeing(entries, study, verdict)) == agreeing_mass(entries, study, verdict),
        keys_distinct(agreeing(entries, study, verdict)),
        weights_positive(agreeing(entries, study, verdict)),
{
    lemma_agreeing_mass(entries, study, verdict);
    lemma_agreeing_well_formed(entries, study, verdict);
}

/// Asking about a subject is worth nothing exactly when every hypothesis
/// with positive probability predicts the same verdict for it: the weight
/// of the rarer verdict is zero then and only then.
pub proof fn law_no_information_iff_unanimous<S, H: Hypothesis<S>>(
    entries: Seq<(H, u64)>,
    study: S,
)
    requires
        weights_positive(entries),
    ensures
        balance(entries, study) == 0 <==> unanimous(entries, study),
{
    if balance(entries, study) == 0 {
        if agreeing_mass(entries, study, true) == 0 {
            lemma_no_weight_no_entry(entries, study, false);
        } else {
            lemma_no_weight_no_entry(entries, study, true);
        }
    }
    if unanimous(entries, study) && entries.len() > 0 {
        let v = entries[0].0.holds(study);
        assert forall|i: int| 0 <= i < entries.len() implies #[trigger] entries[i].0.holds(study)
            == v by {
            assert(entries[i].0.holds(study) == entries[0].0.holds(study));
        }
        lemma_all_agree_no_weight(entries, study, v);
    }
}

/// Conditioning on a verdict that every remaining hypothesis already
/// predicts leaves the distribution exactly as it was.
pub proof fn law_unanimous_update_changes_nothing<S, H: Hypothesis<S>>(
    entries: Seq<(H, u64)>,
    study: S,
    verdict: bool,
)
    requires
        forall|i: int| 0 <= i < entries.len() ==> #[trigger] entries[i].0.holds(study) == verdict,
    ensures
        agreeing(entries, study, verdict) == entries,
        agreeing_mass(entries, study, verdict) == mass(entries),
{
    lemma_agreeing_all(entries, study, verdict);
    lemma_agreeing_mass(entries, study, verdict);
}

} // verus!
