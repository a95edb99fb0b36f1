use mezzanine::triangles::{Color, Size, Stack, Study, Triangle};
use rand::rngs::StdRng;
use rand::SeedableRng;

fn stack_of(triangles: &[Triangle]) -> Stack {
    let mut stack = Stack::new();
    for t in triangles {
        stack.push(*t);
    }
    stack
}

#[test]
fn concerning_study_iteration() {
    let mut study = Study::new();
    study.append(stack_of(&[
        Triangle::new(Color::Blue, Size::Three),
        Triangle::new(Color::Red, Size::One),
    ]));
    study.append(stack_of(&[
        Triangle::new(Color::Green, Size::Two),
        Triangle::new(Color::Yellow, Size::One),
    ]));
    let mut triangle_count = 0;
    let mut walk = study.into_iter();
    while let Some(triangle) = walk.next() {
        println!("{:?}", triangle);
        triangle_count += 1;
    }
    assert_eq!(4, triangle_count); // they're all here
}

#[test]
fn on_counting_colors() {
    let mut study = Study::new();
    study.append(stack_of(&[
        Triangle::new(Color::Blue, Size::Three),
        Triangle::new(Color::Blue, Size::Two),
        Triangle::new(Color::Blue, Size::One),
    ]));
    study.append(stack_of(&[]));
    study.append(stack_of(&[
        Triangle::new(Color::Yellow, Size::Three),
        Triangle::new(Color::Blue, Size::One),
    ]));
    assert_eq!(4, study.color_count(Color::Blue));
}

#[test]
fn concerning_the_size_of_the_universe() {
    let heavenly_sphere = Triangle::universe().len();
    assert_eq!(12, heavenly_sphere);

    let hubble_bubble = Stack::bounded_universe().len();
    assert_eq!(156, hubble_bubble);
}

#[test]
fn counts_by_size_groundedness_and_pips() {
    let mut study = Study::new();
    study.append(stack_of(&[
        Triangle::new(Color::Red, Size::Three),
        Triangle::new(Color::Blue, Size::One),
        Triangle::new(Color::Red, Size::One),
    ]));
    study.append(stack_of(&[]));
    study.append(stack_of(&[Triangle::new(Color::Green, Size::Two)]));
    assert_eq!(study.size_count(Size::One), 2);
    assert_eq!(study.size_count(Size::Two), 1);
    assert_eq!(study.color_count(Color::Red), 2);
    assert_eq!(study.color_count(Color::Yellow), 0);
    assert_eq!(study.groundedness_count(true), 2);
    assert_eq!(study.groundedness_count(false), 2);
    assert_eq!(study.pip_count(), 7);
}

#[test]
fn the_universe_comes_in_order() {
    let universe = Triangle::universe();
    assert_eq!(universe[0], Triangle::new(Color::Red, Size::One));
    assert_eq!(universe[4], Triangle::new(Color::Blue, Size::Two));
    assert_eq!(universe[11], Triangle::new(Color::Yellow, Size::Three));
    let stacks = Stack::bounded_universe();
    assert_eq!(stacks[0], stack_of(&[universe[0], universe[0]]));
    assert_eq!(stacks[12], stack_of(&[universe[0]]));
    assert_eq!(stacks[13], stack_of(&[universe[1], universe[0]]));
    let studies = Study::bounded_universe();
    assert_eq!(studies.len(), 156 * 156);
    let mut expected = Study::new();
    expected.append(stacks[1].clone());
    expected.append(stacks[155].clone());
    assert_eq!(studies[156 + 155], expected);
}

#[test]
fn samples_have_the_promised_shape() {
    let mut rng = StdRng::seed_from_u64(7);
    for _ in 0..200 {
        let study = Study::sample(&mut rng);
        let triangles = study.triangles().len();
        let stacks = study.groundedness_count(true);
        assert!((1..=4).contains(&stacks));
        assert!(stacks <= triangles && triangles <= 16);
    }
}

#[test]
fn the_walk_skips_empty_stacks_and_keeps_order() {
    let mut study = Study::new();
    study.append(stack_of(&[]));
    study.append(stack_of(&[Triangle::new(Color::Red, Size::One), Triangle::new(Color::Blue, Size::Two)]));
    study.append(stack_of(&[]));
    study.append(stack_of(&[Triangle::new(Color::Green, Size::Three)]));
    let mut walk = study.into_iter();
    let mut seen = Vec::new();
    while let Some(t) = walk.next() {
        seen.push(t);
    }
    assert_eq!(seen, study.triangles());
    assert_eq!(seen.len(), 3);
    assert_eq!(walk.next(), None);
}
