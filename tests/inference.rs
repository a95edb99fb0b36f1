use mezzanine::distribution::{Conclusion, Distribution, InferenceError, Probability};
use mezzanine::hypothesis::Hypothesis;
use mezzanine::numbers::{BoundednessHypothesis, ConjunctiveHypothesis, DivisibilityHypothesis};

fn value(p: Probability) -> f64 {
    p.numerator as f64 / p.denominator as f64
}

#[test]
fn inference_concerning_updating_your_bayesian_distribution() {
    // Suppose we think the hypotheses "a number has the property iff it is
    // divisible by n" for n in {2, 3, 5, 7, 11} are all equally likely.
    let hypotheses = vec![2, 3, 5, 7, 11]
        .iter()
        .map(|n| DivisibilityHypothesis::new(*n))
        .collect::<Vec<_>>();
    let prior = Distribution::ignorance_prior(hypotheses).unwrap();

    // If we learn that 15 does not have the property, then the 3 and 5
    // hypotheses are eliminated, and n = 2, 7 or 11 are equally likely.
    let beliefs = prior.updated(&15, false).unwrap();

    let probability_n_is_two = beliefs.belief(DivisibilityHypothesis::new(2));
    let probability_n_is_seven = beliefs.belief(DivisibilityHypothesis::new(7));
    let probability_n_is_eleven = beliefs.belief(DivisibilityHypothesis::new(11));

    let one_third: f64 = 1. / 3.;
    assert_eq!(value(probability_n_is_two), one_third);
    assert_eq!(value(probability_n_is_seven), one_third);
    assert_eq!(value(probability_n_is_eleven), one_third);

    // And we think that 14 has a 2/3 chance of having the property.
    assert_eq!(value(beliefs.predict(&14, true)), 2. / 3.);
}

#[test]
fn concerning_what_to_ask_about() {
    let hypotheses = (1..100u16).map(|n| DivisibilityHypothesis::new(n)).collect::<Vec<_>>();
    let prior = Distribution::ignorance_prior(hypotheses).unwrap();

    assert_eq!(prior.burning_question(vec![57, 60]).unwrap(), 60);
}

#[test]
fn concerning_making_a_heterogenous_hypothesis_vector() {
    let mut hypotheses: Vec<Box<dyn Hypothesis<u16>>> = Vec::new();
    hypotheses.push(Box::new(DivisibilityHypothesis::new(2)));
    hypotheses.push(Box::new(BoundednessHypothesis::new_lower(2)));
    assert!(hypotheses[0].predicts_the_property(&4));
    assert!(!hypotheses[1].predicts_the_property(&1));
}

#[test]
fn ignorance_prior_gives_each_hypothesis_one_nth() {
    let hypotheses = (1..=8u16).map(DivisibilityHypothesis::new).collect::<Vec<_>>();
    let prior = Distribution::ignorance_prior(hypotheses.clone()).unwrap();
    let mut numerators = 0;
    for h in hypotheses {
        let p = prior.belief(h);
        assert_eq!((p.numerator, p.denominator), (1, 8));
        numerators += p.numerator;
    }
    assert_eq!(numerators, prior.total());
    assert_eq!(prior.belief(DivisibilityHypothesis::new(9)).numerator, 0);
}

#[test]
fn ignorance_prior_refuses_an_empty_list() {
    let empty: Vec<DivisibilityHypothesis> = Vec::new();
    assert_eq!(
        Distribution::ignorance_prior(empty).err(),
        Some(InferenceError::ConfigurationError)
    );
}

#[test]
fn predictions_of_both_verdicts_add_up() {
    let hypotheses = (1..=12u16).map(DivisibilityHypothesis::new).collect::<Vec<_>>();
    let prior = Distribution::ignorance_prior(hypotheses).unwrap();
    for study in [0u16, 1, 7, 12, 60] {
        let yes = prior.predict(&study, true);
        let no = prior.predict(&study, false);
        assert_eq!(yes.numerator + no.numerator, yes.denominator);
        assert_eq!(yes.denominator, no.denominator);
    }
    // 12 is divisible by 1, 2, 3, 4, 6 and 12.
    assert_eq!(prior.predict(&12, true).numerator, 6);
}

#[test]
fn updating_drops_the_dissenters() {
    let hypotheses = (1..=6u16).map(DivisibilityHypothesis::new).collect::<Vec<_>>();
    let prior = Distribution::ignorance_prior(hypotheses).unwrap();
    let beliefs = prior.updated(&4, true).unwrap();
    let kept = beliefs.hypotheses().iter().map(|h| h.n).collect::<Vec<_>>();
    assert_eq!(kept, vec![1, 2, 4]);
    for h in beliefs.hypotheses() {
        assert!(h.predicts_the_property(&4));
        assert_eq!(value(beliefs.belief(h)), 1. / 3.);
    }
    assert_eq!(beliefs.belief(DivisibilityHypothesis::new(3)).numerator, 0);
}

#[test]
fn updating_on_a_unanimous_verdict_changes_nothing() {
    let hypotheses = vec![2u16, 4, 6].into_iter().map(DivisibilityHypothesis::new).collect::<Vec<_>>();
    let prior = Distribution::ignorance_prior(hypotheses).unwrap();
    let beliefs = prior.updated(&12, true).unwrap();
    assert_eq!(beliefs.hypotheses(), prior.hypotheses());
    assert_eq!(beliefs.total(), prior.total());
    assert_eq!(prior.information_balance(&12), 0);
}

#[test]
fn updating_into_nothing_is_a_collapse() {
    let hypotheses = vec![2u16, 4].into_iter().map(DivisibilityHypothesis::new).collect::<Vec<_>>();
    let prior = Distribution::ignorance_prior(hypotheses).unwrap();
    assert_eq!(prior.updated(&3, true).err(), Some(InferenceError::DistributionCollapse));
}

#[test]
fn information_balance_is_zero_only_for_unanimous_subjects() {
    let hypotheses = vec![2u16, 3].into_iter().map(DivisibilityHypothesis::new).collect::<Vec<_>>();
    let prior = Distribution::ignorance_prior(hypotheses).unwrap();
    assert_eq!(prior.information_balance(&6), 0);
    assert_eq!(prior.information_balance(&5), 0);
    assert_eq!(prior.information_balance(&4), 1);
}

#[test]
fn complete_certainty_needs_a_sole_survivor() {
    let hypotheses = vec![2u16, 3].into_iter().map(DivisibilityHypothesis::new).collect::<Vec<_>>();
    let prior = Distribution::ignorance_prior(hypotheses).unwrap();
    assert_eq!(prior.completely_certain(), None);
    let beliefs = prior.updated(&4, true).unwrap();
    assert_eq!(beliefs.completely_certain(), Some(DivisibilityHypothesis::new(2)));
    assert_eq!(beliefs.len(), 1);
}

#[test]
fn burning_question_prefers_the_first_of_equals() {
    let hypotheses = (1..=4u16).map(DivisibilityHypothesis::new).collect::<Vec<_>>();
    let prior = Distribution::ignorance_prior(hypotheses).unwrap();
    // 2 and 6 both split the four hypotheses two against two.
    assert_eq!(prior.burning_question(vec![1, 2, 6]), Some(2));
    assert_eq!(prior.burning_question(Vec::new()), None);
}

#[test]
fn number_hypotheses_evaluate_and_describe() {
    let divisible = DivisibilityHypothesis::new(3);
    assert!(divisible.predicts_the_property(&9));
    assert!(!divisible.predicts_the_property(&10));
    assert_eq!(divisible.description(), "it is divisible by 3");
    let zero = DivisibilityHypothesis::new(0);
    assert!(zero.predicts_the_property(&0));
    assert!(!zero.predicts_the_property(&5));
    let bounded = BoundednessHypothesis::new(2, 10);
    assert!(bounded.predicts_the_property(&2));
    assert!(!bounded.predicts_the_property(&11));
    assert_eq!(
        bounded.description(),
        "it is not less than 2 and it is not greater than 10"
    );
    assert_eq!(BoundednessHypothesis::new_upper(7).description(), "it is not greater than 7");
    let both = ConjunctiveHypothesis {
        this: Box::new(divisible),
        that: Box::new(BoundednessHypothesis::new_lower(5)),
    };
    assert!(both.predicts_the_property(&6));
    assert!(!both.predicts_the_property(&3));
    assert_eq!(both.description(), "it is divisible by 3 and it is not less than 5");
}

#[test]
fn conclusions_come_only_when_nothing_is_left_to_learn() {
    let hypotheses = vec![2u16, 3].into_iter().map(DivisibilityHypothesis::new).collect::<Vec<_>>();
    let prior = Distribution::ignorance_prior(hypotheses).unwrap();
    assert!(prior.conclusion(&4).is_none());
    match prior.conclusion(&6) {
        Some(Conclusion::Indifferent(remaining)) => assert_eq!(remaining.len(), 2),
        _ => panic!("both hypotheses agree on 6"),
    }
    let beliefs = prior.updated(&4, false).unwrap();
    match beliefs.conclusion(&5) {
        Some(Conclusion::Certain(h)) => assert_eq!(h, DivisibilityHypothesis::new(3)),
        _ => panic!("only divisibility by 3 remains"),
    }
    assert_eq!(beliefs.entries(), vec![(DivisibilityHypothesis::new(3), 1)]);
}

#[test]
fn an_empty_distribution_believes_nothing() {
    let nothing: Distribution<DivisibilityHypothesis> = Distribution::new();
    assert_eq!(nothing.len(), 0);
    assert_eq!(nothing.total(), 0);
    assert_eq!(nothing.belief(DivisibilityHypothesis::new(2)).numerator, 0);
    assert_eq!(nothing.completely_certain(), None);
    assert_eq!(nothing.updated(&4, true).err(), Some(InferenceError::DistributionCollapse));
}
