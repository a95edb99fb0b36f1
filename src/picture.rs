//! Pictures of triangles, stacks and studies, drawn in colored text.

use vstd::prelude::*;
use vstd::string::*;

use crate::display::{
    beside, pack_blocks_horizontally, pack_blocks_vertically, split_lines, stacked,
};
use crate::triangles::{Color, Size, Stack, Study, Triangle};

verus! {

/// The ANSI foreground color code of a color.
pub open spec fn color_code(color: Color) -> Seq<char> {
    match color {
        Color::Red => "31"@,
        Color::Blue => "34"@,
        Color::Green => "32"@,
        Color::Yellow => "33"@,
    }
}

/// The text between the escape sequences that turn the color on and off.
pub open spec fn painted(color: Color, text: Seq<char>) -> Seq<char> {
    seq!['\u{1b}', '['] + color_code(color) + seq!['m'] + text + seq!['\u{1b}', '[', '0', 'm']
}

/// Relies on `ansi_term::Colour::paint` and its `Display`: the text comes
/// after the prefix `ESC [ code m` of the foreground color and before the
/// reset suffix `ESC [ 0 m`.
#[verifier::external_body]
fn paint(color: Color, text: &str) -> (r: String)
    ensures
        r@ == painted(color, text@),
{
    let colour = match color {
        Color::Red => ansi_term::Colour::Red,
        Color::Blue => ansi_term::Colour::Blue,
        Color::Green => ansi_term::Colour::Green,
        Color::Yellow => ansi_term::Colour::Yellow,
    };
    colour.paint(text).to_string()
}

/// The outline of a triangle of a size: a roof of slashes over a floor.
pub open spec fn form(size: Size) -> Seq<char> {
    match size {
        Size::One => "/\\ \n‾‾ "@,
        Size::Two => " /\\  \n/  \\ \n‾‾‾‾ "@,
        Size::Three => "  /\\   \n /  \\  \n/    \\ \n‾‾‾‾‾‾ "@,
    }
}

/// Each line painted and followed by `'\n'`.
pub open spec fn painted_rows(lines: Seq<Seq<char>>, color: Color) -> Seq<char>
    decreases lines.len(),
{
    if lines.len() == 0 {
        Seq::empty()
    } else {
        painted_rows(lines.drop_last(), color) + painted(color, lines.last()) + seq!['\n']
    }
}

/// The picture of a triangle: each line of its outline painted in its
/// color, the lines separated by `'\n'`.
pub open spec fn triangle_picture(t: Triangle) -> Seq<char> {
    painted_rows(split_lines(form(t.size)), t.color).drop_last()
}

/// The picture of a stack: each triangle drawn above those below it.
pub open spec fn stack_picture(triangles: Seq<Triangle>) -> Seq<char>
    decreases triangles.len(),
{
    if triangles.len() == 0 {
        Seq::empty()
    } else {
        stacked(triangle_picture(triangles.last()), stack_picture(triangles.drop_last()))
    }
}

/// The picture of a study: its stacks' pictures side by side.
pub open spec fn study_picture(stacks: Seq<Seq<Triangle>>) -> Seq<char>
    decreases stacks.len(),
{
    if stacks.len() == 0 {
        Seq::empty()
    } else {
        beside(study_picture(stacks.drop_last()), stack_picture(stacks.last()))
    }
}

impl Size {
    /// The outline of a triangle of this size.
    pub fn display(&self) -> (r: &'static str)
        ensures
            r@ == form(*self),
    {
        match self {
            Size::One => "/\\ \n‾‾ ",
            Size::Two => " /\\  \n/  \\ \n‾‾‾‾ ",
            Size::Three => "  /\\   \n /  \\  \n/    \\ \n‾‾‾‾‾‾ ",
        }
    }
}

impl Triangle {
    /// The triangle's outline, painted in its color.
    pub fn render(&self) -> (r: String)
        ensures
            r@ == triangle_picture(*self),
    {
        let outline = self.size.display();
        let lines = crate::display::lines_in(outline);
        let mut rendered = String::new();
        let mut i: usize = 0;
        while i < lines.len()
            invariant
                i <= lines@.len(),
                lines@.len() == split_lines(form(self.size)).len(),
                forall|k: int| 0 <= k < lines@.len() ==> #[trigger] lines@[k]@ == split_lines(form(self.size))[k],
                rendered@ == painted_rows(split_lines(form(self.size)).take(i as int), self.color),
            decreases lines@.len() - i,
        {
            assert(split_lines(form(self.size)).take(i + 1).drop_last() =~= split_lines(
                form(self.size),
            ).take(i as int));
            let line = paint(self.color, lines[i].as_str());
            rendered.append(line.as_str());
            rendered.append("\n");
            proof {
                reveal_strlit("\n");
            }
            i += 1;
            assert(rendered@ =~= painted_rows(
                split_lines(form(self.size)).take(i as int),
                self.color,
            ));
        }
        assert(split_lines(form(self.size)).take(i as int) =~= split_lines(form(self.size)));
        proof {
            crate::display::lemma_split_count(form(self.size));
            let lines = split_lines(form(self.size));
            assert(painted_rows(lines, self.color).len() > 0);
        }
        crate::display::drop_last_char(&mut rendered);
        rendered
    }
}

impl Stack {
    /// The stack's triangles drawn one above the other.
    pub fn render(&self) -> (r: String)
        ensures
            r@ == stack_picture(self@),
    {
        let mut rendered = String::new();
        let mut i: usize = 0;
        let n = self.height();
        while i < n
            invariant
                n == self@.len(),
                i <= n,
                rendered@ == stack_picture(self@.take(i as int)),
            decreases n - i,
        {
            assert(self@.take(i + 1).drop_last() =~= self@.take(i as int));
            let picture = self.triangle(i).render();
            rendered = pack_blocks_vertically(picture.as_str(), rendered.as_str());
            i += 1;
        }
        assert(self@.take(i as int) =~= self@);
        rendered
    }
}

impl Study {
    /// The study's stacks drawn side by side.
    pub fn render(&self) -> (r: String)
        ensures
            r@ == study_picture(self@),
    {
        let mut rendered = String::new();
        let mut i: usize = 0;
        let n = self.breadth();
        while i < n
            invariant
                n == self@.len(),
                i <= n,
                rendered@ == study_picture(self@.take(i as int)),
            decreases n - i,
        {
            assert(self@.take(i + 1).drop_last() =~= self@.take(i as int));
            let picture = self.stack(i).render();
            rendered = pack_blocks_horizontally(rendered.as_str(), picture.as_str());
            i += 1;
        }
        assert(self@.take(i as int) =~= self@);
        rendered
    }
}

} // verus!
