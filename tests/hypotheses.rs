use mezzanine::basics::{
    ColorBoundednessHypothesis, ColorCountBoundednessHypothesis,
    GroundednessCountBoundednessHypothesis, PipBoundednessHypothesis, PipParityHypothesis,
    SizeCountBoundednessHypothesis,
};
use mezzanine::catalogue::{our_basic_hypotheses, standard_basic_hypotheses};
use mezzanine::distribution::{all_distinct, Distribution, InferenceError, Probability};
use mezzanine::hypotheses::{BasicHypothesis, JoinedHypothesis, Remainder};
use mezzanine::hypothesis::Hypothesis;
use mezzanine::priors::{complexity_prior, complexity_prior_given};
use mezzanine::triangles::{Color, Size, Stack, Study, Triangle};
use rand::rngs::StdRng;
use rand::SeedableRng;

fn value(p: Probability) -> f64 {
    p.numerator as f64 / p.denominator as f64
}

fn study_of(stacks: &[&[Triangle]]) -> Study {
    let mut study = Study::new();
    for triangles in stacks {
        let mut stack = Stack::new();
        for t in *triangles {
            stack.push(*t);
        }
        study.append(stack);
    }
    study
}

#[test]
fn triangle_concerning_updating_your_bayesian_distribution() {
    // Suppose we think the hypotheses "a study has the property if it has at
    // least 1 triangle of color C" for C in {Red, Green, Blue, Yellow} are
    // all equally likely.
    let hypotheses = vec![Color::Red, Color::Green, Color::Blue, Color::Yellow]
        .iter()
        .map(|&c| ColorBoundednessHypothesis::new_lower(c, 1))
        .collect::<Vec<_>>();
    let prior = Distribution::ignorance_prior(hypotheses).unwrap();

    // If we learn that a study of Red and Yellow triangles does not have the
    // property, then C = Green or Blue are equally likely.
    let study = study_of(&[&[
        Triangle::new(Color::Red, Size::One),
        Triangle::new(Color::Yellow, Size::One),
    ]]);
    let beliefs = prior.updated(&study, false).unwrap();

    let probability_c_is_blue = beliefs.belief(ColorBoundednessHypothesis::new_lower(Color::Blue, 1));
    let probability_c_is_green =
        beliefs.belief(ColorBoundednessHypothesis::new_lower(Color::Green, 1));

    assert_eq!(value(probability_c_is_blue), 0.5);
    assert_eq!(value(probability_c_is_green), 0.5);
}

#[test]
fn mod_concerning_updating_your_bayesian_distribution() {
    let hypotheses = vec![Color::Red, Color::Green, Color::Blue, Color::Yellow]
        .iter()
        .map(|&c| ColorCountBoundednessHypothesis::new_lower(c, 1))
        .collect::<Vec<_>>();
    let prior = Distribution::ignorance_prior(hypotheses).unwrap();

    let study = study_of(&[&[
        Triangle::new(Color::Red, Size::One),
        Triangle::new(Color::Yellow, Size::One),
    ]]);
    let beliefs = prior.updated(&study, false).unwrap();

    let probability_c_is_blue =
        beliefs.belief(ColorCountBoundednessHypothesis::new_lower(Color::Blue, 1));
    let probability_c_is_green =
        beliefs.belief(ColorCountBoundednessHypothesis::new_lower(Color::Green, 1));

    assert_eq!(value(probability_c_is_blue), 0.5);
    assert_eq!(value(probability_c_is_green), 0.5);
}

#[test]
fn concerning_soundness_of_our_complexity_penalty() {
    // The two single hypotheses get weight 2n = 4 each, and the conjunction
    // and the disjunction weight 1 each: after renormalization a single
    // hypothesis has 4/10 and a join 1/10.
    let basics = vec![
        BasicHypothesis::from(ColorCountBoundednessHypothesis::new_lower(Color::Blue, 1)),
        BasicHypothesis::from(ColorCountBoundednessHypothesis::new_lower(Color::Red, 1)),
    ];
    let mut rng = StdRng::seed_from_u64(12);
    let distribution = complexity_prior(basics, &mut rng).unwrap();

    assert_eq!(
        2. / 5.,
        value(distribution.belief(JoinedHypothesis::full_stop(BasicHypothesis::from(
            ColorCountBoundednessHypothesis::new_lower(Color::Blue, 1)
        ))))
    );
    assert_eq!(
        1. / 10.,
        value(distribution.belief(JoinedHypothesis::and(
            BasicHypothesis::from(ColorCountBoundednessHypothesis::new_lower(Color::Blue, 1)),
            BasicHypothesis::from(ColorCountBoundednessHypothesis::new_lower(Color::Red, 1))
        )))
    );
}

#[test]
fn complexity_prior_refuses_no_basics() {
    let mut rng = StdRng::seed_from_u64(1);
    assert_eq!(
        complexity_prior(Vec::new(), &mut rng).err(),
        Some(InferenceError::ConfigurationError)
    );
}

#[test]
fn obviated_pairs_are_never_joined() {
    let basics = our_basic_hypotheses();
    let mut rng = StdRng::seed_from_u64(3);
    let distribution = complexity_prior(basics.clone(), &mut rng).unwrap();
    assert!(distribution.len() > basics.len());
    for h in distribution.hypotheses() {
        match h.remainder {
            Remainder::And(b) | Remainder::Or(b) => {
                assert!(!h.proposition.obviates(&b));
                assert!(!b.obviates(&h.proposition));
            }
            Remainder::FullStop => {}
        }
    }
    // Two bounds on the count of one color obviate each other.
    let red_once = BasicHypothesis::from(ColorCountBoundednessHypothesis::new(Color::Red, 1, 1));
    let red_some = BasicHypothesis::from(ColorCountBoundednessHypothesis::new_lower(Color::Red, 1));
    assert_eq!(distribution.belief(JoinedHypothesis::and(red_once, red_some)).numerator, 0);
    assert_eq!(distribution.belief(JoinedHypothesis::or(red_some, red_once)).numerator, 0);
}

#[test]
fn obviation_follows_the_table() {
    let red = BasicHypothesis::from(ColorCountBoundednessHypothesis::new_lower(Color::Red, 1));
    let blue = BasicHypothesis::from(ColorCountBoundednessHypothesis::new_lower(Color::Blue, 1));
    let small = BasicHypothesis::from(SizeCountBoundednessHypothesis::new_lower(Size::One, 1));
    let pips = BasicHypothesis::from(PipBoundednessHypothesis::at_least(5));
    let even = BasicHypothesis::from(PipParityHypothesis::new(2, 0));
    let grounded = BasicHypothesis::from(GroundednessCountBoundednessHypothesis::new(true, 1, 1));
    assert!(red.obviates(&red));
    assert!(!red.obviates(&blue));
    assert!(red.obviates(&pips));
    assert!(!pips.obviates(&red));
    assert!(pips.obviates(&small));
    assert!(even.obviates(&pips));
    assert!(!small.obviates(&pips));
    assert!(!grounded.obviates(&even));
    assert!(even.obviates(&grounded));
    assert!(pips.obviates(&grounded));
}

#[test]
fn substantiality_rejects_tautologies_and_contradictions() {
    let mut rng = StdRng::seed_from_u64(5);
    let some_ground = BasicHypothesis::from(GroundednessCountBoundednessHypothesis::new_lower(true, 1));
    let none_ground = BasicHypothesis::from(GroundednessCountBoundednessHypothesis::new_upper(true, 0));
    let red = BasicHypothesis::from(ColorCountBoundednessHypothesis::new_lower(Color::Red, 1));
    assert!(!JoinedHypothesis::full_stop(some_ground).check_substantiality(500, &mut rng));
    assert!(!JoinedHypothesis::full_stop(none_ground).check_substantiality(500, &mut rng));
    assert!(!JoinedHypothesis::or(red, some_ground).check_substantiality(500, &mut rng));
    assert!(!JoinedHypothesis::and(red, none_ground).check_substantiality(500, &mut rng));
    assert!(JoinedHypothesis::full_stop(red).check_substantiality(500, &mut rng));
    assert!(!JoinedHypothesis::full_stop(red).check_substantiality(0, &mut rng));
}

#[test]
fn joined_hypotheses_evaluate_and_describe() {
    let red = BasicHypothesis::from(ColorCountBoundednessHypothesis::new(Color::Red, 2, 2));
    let odd = BasicHypothesis::from(PipParityHypothesis::new(2, 1));
    let study = study_of(&[
        &[Triangle::new(Color::Red, Size::Two), Triangle::new(Color::Red, Size::One)],
        &[Triangle::new(Color::Blue, Size::Three)],
    ]);
    assert!(JoinedHypothesis::full_stop(red).predicts_the_property(&study));
    assert!(!JoinedHypothesis::and(red, odd).predicts_the_property(&study));
    assert!(JoinedHypothesis::or(odd, red).predicts_the_property(&study));
    assert_eq!(
        JoinedHypothesis::or(red, odd).description(),
        "the number of Red triangles is exactly 2 or the total pip count is odd"
    );
    assert_eq!(
        BasicHypothesis::from(SizeCountBoundednessHypothesis::new(Size::Two, 1, 3)).description(),
        "the number of size-Two triangles is not less than 1 and is not greater than 3"
    );
    assert_eq!(
        BasicHypothesis::from(GroundednessCountBoundednessHypothesis::new_upper(false, 0))
            .description(),
        "the number of ungrounded triangles is not greater than 0"
    );
    assert_eq!(
        BasicHypothesis::from(PipBoundednessHypothesis::exactly(9)).description(),
        "the number of pips is exactly 9"
    );
    assert_eq!(
        BasicHypothesis::from(PipParityHypothesis::new(3, 0)).description(),
        "the total pip count is divisible by 3"
    );
    assert_eq!(
        BasicHypothesis::from(PipParityHypothesis::new(5, 2)).description(),
        "the total pip count is 2 modulo 5"
    );
    assert_eq!(
        BasicHypothesis::from(PipParityHypothesis::new(2, 0)).description(),
        "the total pip count is even"
    );
}

#[test]
fn basic_hypotheses_count_what_they_say() {
    let study = study_of(&[
        &[Triangle::new(Color::Green, Size::Three), Triangle::new(Color::Green, Size::One)],
        &[Triangle::new(Color::Yellow, Size::One)],
    ]);
    assert!(ColorCountBoundednessHypothesis::new(Color::Green, 2, 2).predicts_the_property(&study));
    assert!(!ColorCountBoundednessHypothesis::new_upper(Color::Green, 1).predicts_the_property(&study));
    assert!(SizeCountBoundednessHypothesis::new_lower(Size::One, 2).predicts_the_property(&study));
    assert!(GroundednessCountBoundednessHypothesis::new(true, 2, 2).predicts_the_property(&study));
    assert!(GroundednessCountBoundednessHypothesis::new(false, 1, 1).predicts_the_property(&study));
    assert!(PipBoundednessHypothesis::exactly(5).predicts_the_property(&study));
    assert!(!PipBoundednessHypothesis::at_most(4).predicts_the_property(&study));
    assert!(PipParityHypothesis::new(2, 1).predicts_the_property(&study));
    assert!(PipParityHypothesis::new(0, 5).predicts_the_property(&study));
}

#[test]
fn the_catalogues_are_distinct_and_complete() {
    let ours = our_basic_hypotheses();
    assert_eq!(ours.len(), 65);
    assert!(all_distinct(&ours));
    assert_eq!(
        ours[0],
        BasicHypothesis::from(ColorCountBoundednessHypothesis::new(Color::Red, 1, 1))
    );
    assert_eq!(ours[64], BasicHypothesis::from(PipParityHypothesis::new(3, 0)));
    let standard = standard_basic_hypotheses();
    assert_eq!(standard.len(), 120);
    assert!(all_distinct(&standard));
    assert_eq!(
        standard[63],
        BasicHypothesis::from(GroundednessCountBoundednessHypothesis::new_lower(false, 1))
    );
    assert_eq!(standard[79], BasicHypothesis::from(PipBoundednessHypothesis::exactly(4)));
    assert_eq!(standard[119], BasicHypothesis::from(PipParityHypothesis::new(2, 1)));
    let mut doubled = ours.clone();
    doubled.push(ours[3]);
    assert!(!all_distinct(&doubled));
}

#[test]
fn sampled_questions_have_the_sampled_shape() {
    let mut rng = StdRng::seed_from_u64(9);
    let prior = complexity_prior(our_basic_hypotheses(), &mut rng).unwrap();
    let desired = Probability { numerator: 1, denominator: 3 };
    let study = prior.burning_question_sampled(desired, 200, &mut rng);
    assert!((1..=4).contains(&study.breadth()));
    assert!(prior.information_balance(&study) > 0);
}

#[test]
fn the_verdicts_decide_which_joins_stay() {
    let blue = BasicHypothesis::from(ColorCountBoundednessHypothesis::new_lower(Color::Blue, 1));
    let red = BasicHypothesis::from(ColorCountBoundednessHypothesis::new_lower(Color::Red, 1));
    let small = BasicHypothesis::from(SizeCountBoundednessHypothesis::new_lower(Size::One, 1));
    let no = (false, false);
    let verdicts = vec![
        vec![no, (true, false), (false, true)],
        vec![no, no, (true, true)],
        vec![no, no, no],
    ];
    let prior = complexity_prior_given(vec![blue, red, small], &verdicts).unwrap();
    assert_eq!(
        prior.hypotheses(),
        vec![
            JoinedHypothesis::full_stop(blue),
            JoinedHypothesis::full_stop(red),
            JoinedHypothesis::full_stop(small),
            JoinedHypothesis::and(blue, red),
            JoinedHypothesis::or(blue, small),
            JoinedHypothesis::and(red, small),
            JoinedHypothesis::or(red, small),
        ]
    );
    assert_eq!(prior.total(), 22);
    let single = prior.belief(JoinedHypothesis::full_stop(red));
    assert_eq!((single.numerator, single.denominator), (6, 22));
    assert_eq!(prior.belief(JoinedHypothesis::or(blue, red)).numerator, 0);
}

#[test]
fn obviated_pairs_are_dropped_whatever_the_verdict() {
    let red_once = BasicHypothesis::from(ColorCountBoundednessHypothesis::new(Color::Red, 1, 1));
    let red_some = BasicHypothesis::from(ColorCountBoundednessHypothesis::new_lower(Color::Red, 1));
    let pips = BasicHypothesis::from(PipBoundednessHypothesis::at_least(6));
    let yes = (true, true);
    let verdicts = vec![vec![yes; 3], vec![yes; 3], vec![yes; 3]];
    let prior = complexity_prior_given(vec![pips, red_once, red_some], &verdicts).unwrap();
    // The pip bound is obviated by either color bound, the color bounds by
    // each other: only the single hypotheses remain.
    assert_eq!(prior.len(), 3);
}

#[test]
fn substantiality_is_judged_on_the_drawn_studies() {
    let red = JoinedHypothesis::full_stop(BasicHypothesis::from(
        ColorCountBoundednessHypothesis::new_lower(Color::Red, 1),
    ));
    let with_red = study_of(&[&[Triangle::new(Color::Red, Size::One)]]);
    let without_red = study_of(&[&[Triangle::new(Color::Blue, Size::One)]]);
    assert!(red.substantial_among(&vec![with_red.clone(), without_red.clone()]));
    assert!(!red.substantial_among(&vec![with_red.clone(), with_red]));
    assert!(!red.substantial_among(&vec![without_red]));
    assert!(!red.substantial_among(&Vec::new()));
    let mut rng = StdRng::seed_from_u64(4);
    assert!(!red.check_substantiality(1, &mut rng));
}

#[test]
fn questions_are_picked_up_to_the_stopping_point() {
    let hypotheses = vec![Color::Red, Color::Green, Color::Blue, Color::Yellow]
        .iter()
        .map(|&c| ColorCountBoundednessHypothesis::new_lower(c, 1))
        .collect::<Vec<_>>();
    let prior = Distribution::ignorance_prior(hypotheses).unwrap();
    let red = study_of(&[&[Triangle::new(Color::Red, Size::One)]]);
    let red_green = study_of(&[&[
        Triangle::new(Color::Red, Size::One),
        Triangle::new(Color::Green, Size::One),
    ]]);
    let all = study_of(&[&[
        Triangle::new(Color::Red, Size::One),
        Triangle::new(Color::Green, Size::One),
        Triangle::new(Color::Blue, Size::One),
        Triangle::new(Color::Yellow, Size::One),
    ]]);
    let drawn = vec![all.clone(), red.clone(), red_green.clone(), red.clone()];
    // Balances: 0, 1, 2, 1. Wanting more than a fifth stops at the red study.
    let fifth = Probability { numerator: 1, denominator: 5 };
    assert_eq!(prior.pick_question(&drawn, fifth), 1);
    // Wanting more than a third stops at the red-green study.
    let third = Probability { numerator: 1, denominator: 3 };
    assert_eq!(prior.pick_question(&drawn, third), 2);
    // Wanting everything reads them all; the first best wins.
    let all_of_it = Probability { numerator: 1, denominator: 1 };
    assert_eq!(prior.pick_question(&drawn, all_of_it), 2);
}
