use mezzanine::display::block_dimensions;
use mezzanine::triangles::{Color, Size, Stack, Study, Triangle};

#[test]
fn a_triangle_is_painted_line_by_line() {
    let picture = Triangle::new(Color::Red, Size::One).render();
    assert_eq!(picture, "\u{1b}[31m/\\ \u{1b}[0m\n\u{1b}[31m‾‾ \u{1b}[0m");
    assert_eq!(block_dimensions(&picture), (2, 3));
}

#[test]
fn stacks_and_studies_are_packed() {
    let mut stack = Stack::new();
    stack.push(Triangle::new(Color::Blue, Size::Two));
    stack.push(Triangle::new(Color::Green, Size::One));
    let picture = stack.render();
    assert_eq!(block_dimensions(&picture), (5, 5));
    let mut study = Study::new();
    study.append(stack.clone());
    study.append(stack);
    assert_eq!(block_dimensions(&study.render()), (5, 10));
    assert_eq!(Study::new().render(), "");
}
