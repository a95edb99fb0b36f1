//! Laying out text blocks: measuring them, and packing two of them one
//! above the other or side by side, centred.
//!
//! A block is a string of lines separated by `'\n'`; trailing white space
//! is ignored. Widths are visual: the characters of ANSI escape sequences
//! (from ESC up to the next `'m'`) take no room.

use vstd::prelude::*;
use vstd::string::*;

verus! {

/// Whether `c` has the Unicode `White_Space` property.
pub open spec fn is_white_space(c: char) -> bool {
    let u = c as u32;
    ||| 0x9 <= u <= 0xd
    ||| u == 0x20
    ||| u == 0x85
    ||| u == 0xa0
    ||| u == 0x1680
    ||| 0x2000 <= u <= 0x200a
    ||| u == 0x2028
    ||| u == 0x2029
    ||| u == 0x202f
    ||| u == 0x205f
    ||| u == 0x3000
}

/// The text without its trailing white space.
pub open spec fn trimmed_end(s: Seq<char>) -> Seq<char>
    decreases s.len(),
{
    if s.len() > 0 && is_white_space(s.last()) {
        trimmed_end(s.drop_last())
    } else {
        s
    }
}

/// The pieces of the text between `'\n'` characters; there is always at
/// least one.
pub open spec fn split_lines(s: Seq<char>) -> Seq<Seq<char>>
    decreases s.len(),
{
    if s.len() == 0 {
        seq![Seq::empty()]
    } else {
        let rest = split_lines(s.drop_last());
        if s.last() == '\n' {
            rest.push(Seq::empty())
        } else {
            rest.update(rest.len() - 1, rest.last().push(s.last()))
        }
    }
}

/// The lines of a block.
pub open spec fn lines_of(block: Seq<char>) -> Seq<Seq<char>> {
    split_lines(trimmed_end(block))
}

/// How many characters of `s` show, starting inside an escape sequence
/// when `escaping`.
pub open spec fn visible_from(s: Seq<char>, escaping: bool) -> nat
    decreases s.len(),
{
    if s.len() == 0 {
        0
    } else {
        let c = s[0];
        let rest = s.subrange(1, s.len() as int);
        if escaping {
            visible_from(rest, c != 'm')
        } else if c == '\u{1b}' {
            visible_from(rest, true)
        } else {
            1 + visible_from(rest, false)
        }
    }
}

/// The visual length of a line: its characters, less those of escape
/// sequences.
pub open spec fn visual_len(s: Seq<char>) -> nat {
    visible_from(s, false)
}

/// The largest visual length among the lines, or zero.
pub open spec fn widest(lines: Seq<Seq<char>>) -> nat
    decreases lines.len(),
{
    if lines.len() == 0 {
        0
    } else {
        let rest = widest(lines.drop_last());
        let w = visual_len(lines.last());
        if w > rest {
            w
        } else {
            rest
        }
    }
}

/// `n` spaces.
pub open spec fn spaces(n: nat) -> Seq<char> {
    Seq::new(n, |i: int| ' ')
}

/// The line centred in `width` columns; an odd leftover space goes right.
pub open spec fn padded(line: Seq<char>, width: nat) -> Seq<char> {
    let pad = (width - visual_len(line)) as nat;
    spaces(pad / 2) + line + spaces((pad / 2 + pad % 2) as nat)
}

/// The lines, each centred in `width` columns and ended by `'\n'`.
pub open spec fn centred_rows(lines: Seq<Seq<char>>, width: nat) -> Seq<char>
    decreases lines.len(),
{
    if lines.len() == 0 {
        Seq::empty()
    } else {
        centred_rows(lines.drop_last(), width) + padded(lines.last(), width) + seq!['\n']
    }
}

/// The upper block's lines over the lower block's, all centred in the
/// wider block's width.
pub open spec fn stacked(upper: Seq<char>, lower: Seq<char>) -> Seq<char> {
    let wu = widest(lines_of(upper));
    let wl = widest(lines_of(lower));
    centred_rows(lines_of(upper) + lines_of(lower), if wu >= wl { wu } else { wl })
}

/// `count` rows of `width` spaces, each ended by `'\n'`.
pub open spec fn blank_rows(count: nat, width: nat) -> Seq<char>
    decreases count,
{
    if count == 0 {
        Seq::empty()
    } else {
        blank_rows((count - 1) as nat, width) + spaces(width) + seq!['\n']
    }
}

/// The block centred among blank rows `width` wide, to `height` rows, and
/// ended by `'\n'`; an odd leftover row goes below.
pub open spec fn vertically_padded(block: Seq<char>, height: nat, width: nat) -> Seq<char> {
    let pad = (height - lines_of(block).len()) as nat;
    blank_rows(pad / 2, width) + block + seq!['\n'] + blank_rows((pad / 2 + pad % 2) as nat, width)
}

/// Row `k` of each of the two line lists side by side, ended by `'\n'`,
/// for as many rows as both have.
pub open spec fn zipped_rows(left: Seq<Seq<char>>, right: Seq<Seq<char>>) -> Seq<char>
    decreases left.len() + right.len(),
{
    if left.len() == 0 || right.len() == 0 {
        Seq::empty()
    } else if left.len() > right.len() {
        zipped_rows(left.drop_last(), right)
    } else if right.len() > left.len() {
        zipped_rows(left, right.drop_last())
    } else {
        zipped_rows(left.drop_last(), right.drop_last()) + left.last() + right.last() + seq!['\n']
    }
}

/// The two blocks side by side, each centred vertically to the taller's
/// height, without a final `'\n'`.
pub open spec fn beside(left: Seq<char>, right: Seq<char>) -> Seq<char> {
    let hl = lines_of(left).len();
    let hr = lines_of(right).len();
    let height = if hl >= hr { hl } else { hr };
    let rows = zipped_rows(
        split_lines(vertically_padded(trimmed_end(left), height, widest(lines_of(left)))),
        split_lines(vertically_padded(trimmed_end(right), height, widest(lines_of(right)))),
    );
    if rows.len() > 0 {
        rows.drop_last()
    } else {
        rows
    }
}

/// Relies on `str::trim_end`: the string without the trailing characters
/// that have the `White_Space` property.
#[verifier::external_body]
fn trim_end(s: &str) -> (r: &str)
    ensures
        r@ == trimmed_end(s@),
{
    s.trim_end()
}

/// Relies on `String::push`: the character is appended.
#[verifier::external_body]
fn push_char(s: &mut String, c: char)
    ensures
        final(s)@ == old(s)@.push(c),
{
    s.push(c)
}

fn chars_of(s: &str) -> (r: Vec<char>)
    ensures
        r@ == s@,
{
    let n = s.unicode_len();
    let mut r: Vec<char> = Vec::new();
    let mut i: usize = 0;
    while i < n
        invariant
            n == s@.len(),
            i <= n,
            r@ == s@.take(i as int),
        decreases n - i,
    {
        r.push(s.get_char(i));
        i += 1;
        assert(r@ =~= s@.take(i as int));
    }
    assert(s@.take(i as int) =~= s@);
    r
}

fn string_of(chars: &Vec<char>) -> (r: String)
    ensures
        r@ == chars@,
{
    let mut r = String::new();
    let mut i: usize = 0;
    while i < chars.len()
        invariant
            i <= chars@.len(),
            r@ == chars@.take(i as int),
        decreases chars@.len() - i,
    {
        push_char(&mut r, chars[i]);
        i += 1;
        assert(r@ =~= chars@.take(i as int));
    }
    assert(chars@.take(i as int) =~= chars@);
    r
}

fn append_chars(target: &mut Vec<char>, chars: &Vec<char>)
    ensures
        final(target)@ == old(target)@ + chars@,
{
    let mut i: usize = 0;
    while i < chars.len()
        invariant
            i <= chars@.len(),
            target@ == old(target)@ + chars@.take(i as int),
        decreases chars@.len() - i,
    {
        target.push(chars[i]);
        i += 1;
        assert(target@ =~= old(target)@ + chars@.take(i as int));
    }
    assert(chars@.take(i as int) =~= chars@);
}

fn push_spaces(target: &mut Vec<char>, n: usize)
    ensures
        final(target)@ == old(target)@ + spaces(n as nat),
{
    let mut i: usize = 0;
    while i < n
        invariant
            i <= n,
            target@ == old(target)@ + spaces(i as nat),
        decreases n - i,
    {
        target.push(' ');
        i += 1;
        assert(target@ =~= old(target)@ + spaces(i as nat));
    }
}

/// The pieces of the text between `'\n'` characters.
fn split_on_newlines(s: &Vec<char>) -> (r: Vec<Vec<char>>)
    ensures
        r@.len() == split_lines(s@).len(),
        forall|k: int| 0 <= k < r@.len() ==> #[trigger] r@[k]@ == split_lines(s@)[k],
{
    let mut done: Vec<Vec<char>> = Vec::new();
    let mut current: Vec<char> = Vec::new();
    let mut i: usize = 0;
    while i < s.len()
        invariant
            i <= s@.len(),
            done@.len() + 1 == split_lines(s@.take(i as int)).len(),
            forall|k: int|
                0 <= k < done@.len() ==> #[trigger] done@[k]@ == split_lines(s@.take(i as int))[k],
            current@ == split_lines(s@.take(i as int)).last(),
        decreases s@.len() - i,
    {
        assert(s@.take(i + 1).drop_last() =~= s@.take(i as int));
        if s[i] == '\n' {
            let finished = current;
            done.push(finished);
            current = Vec::new();
            assert(current@ =~= Seq::<char>::empty());
        } else {
            current.push(s[i]);
        }
        i += 1;
    }
    assert(s@.take(i as int) =~= s@);
    done.push(current);
    done
}

proof fn lemma_visible_at_most(s: Seq<char>, escaping: bool)
    ensures
        visible_from(s, escaping) <= s.len(),
    decreases s.len(),
{
    if s.len() > 0 {
        lemma_visible_at_most(s.subrange(1, s.len() as int), s[0] != 'm');
        lemma_visible_at_most(s.subrange(1, s.len() as int), true);
        lemma_visible_at_most(s.subrange(1, s.len() as int), false);
    }
}

/// The visual length of a line.
fn visual_length(line: &Vec<char>) -> (r: usize)
    ensures
        r == visual_len(line@),
{
    let n = line.len();
    let mut length: usize = 0;
    let mut escaping = false;
    let mut i: usize = 0;
    assert(line@.subrange(0, n as int) =~= line@);
    while i < n
        invariant
            n == line@.len(),
            i <= n,
            length <= i,
            length + visible_from(line@.subrange(i as int, n as int), escaping) == visible_from(
                line@,
                false,
            ),
        decreases n - i,
    {
        let ghost rest = line@.subrange(i as int, n as int);
        assert(rest.subrange(1, rest.len() as int) =~= line@.subrange(i + 1, n as int));
        let c = line[i];
        if escaping {
            if c == 'm' {
                escaping = false;
            }
        } else {
            if c == '\u{1b}' {
                escaping = true;
            } else {
                length += 1;
            }
        }
        i += 1;
    }
    assert(line@.subrange(0, n as int) =~= line@);
    length
}

/// The visual length of a string: its characters, less those of ANSI
/// escape sequences.
pub fn visualen(string: &str) -> (r: usize)
    ensures
        r == visual_len(string@),
{
    let chars = chars_of(string);
    visual_length(&chars)
}

proof fn lemma_widest_bounds(lines: Seq<Seq<char>>, k: int)
    requires
        0 <= k < lines.len(),
    ensures
        visual_len(lines[k]) <= widest(lines),
    decreases lines.len(),
{
    if k < lines.len() - 1 {
        assert(lines.drop_last()[k] == lines[k]);
        lemma_widest_bounds(lines.drop_last(), k);
    }
}

/// The widest visual length among the lines.
fn widest_of(lines: &Vec<Vec<char>>, Ghost(spec_lines): Ghost<Seq<Seq<char>>>) -> (r: usize)
    requires
        lines@.len() == spec_lines.len(),
        forall|k: int| 0 <= k < lines@.len() ==> #[trigger] lines@[k]@ == spec_lines[k],
    ensures
        r == widest(spec_lines),
{
    let mut width: usize = 0;
    let mut i: usize = 0;
    while i < lines.len()
        invariant
            i <= lines@.len(),
            lines@.len() == spec_lines.len(),
            forall|k: int| 0 <= k < lines@.len() ==> #[trigger] lines@[k]@ == spec_lines[k],
            width == widest(spec_lines.take(i as int)),
        decreases lines@.len() - i,
    {
        assert(spec_lines.take(i + 1).drop_last() =~= spec_lines.take(i as int));
        let line_length = visual_length(&lines[i]);
        if line_length > width {
            width = line_length;
        }
        i += 1;
    }
    assert(spec_lines.take(i as int) =~= spec_lines);
    width
}

/// The pieces of a string between `'\n'` characters, as strings.
pub fn lines_in(text: &str) -> (r: Vec<String>)
    ensures
        r@.len() == split_lines(text@).len(),
        forall|k: int| 0 <= k < r@.len() ==> #[trigger] r@[k]@ == split_lines(text@)[k],
{
    let chars = chars_of(text);
    let pieces = split_on_newlines(&chars);
    let mut r: Vec<String> = Vec::new();
    let mut i: usize = 0;
    while i < pieces.len()
        invariant
            i <= pieces@.len(),
            pieces@.len() == split_lines(text@).len(),
            forall|k: int| 0 <= k < pieces@.len() ==> #[trigger] pieces@[k]@ == split_lines(text@)[k],
            r@.len() == i,
            forall|k: int| 0 <= k < i ==> #[trigger] r@[k]@ == split_lines(text@)[k],
        decreases pieces@.len() - i,
    {
        r.push(string_of(&pieces[i]));
        i += 1;
    }
    r
}

/// Removes the last character, if there is one.
pub fn drop_last_char(text: &mut String)
    ensures
        final(text)@ == (if old(text)@.len() > 0 {
            old(text)@.drop_last()
        } else {
            old(text)@
        }),
{
    let mut chars = chars_of(text.as_str());
    if chars.len() > 0 {
        chars.pop();
    }
    *text = string_of(&chars);
}

/// The lines of a block, without its trailing white space.
fn block_lines(block: &str) -> (r: Vec<Vec<char>>)
    ensures
        r@.len() == lines_of(block@).len(),
        forall|k: int| 0 <= k < r@.len() ==> #[trigger] r@[k]@ == lines_of(block@)[k],
{
    let chars = chars_of(trim_end(block));
    split_on_newlines(&chars)
}

/// The height (in lines) and the visual width of a block.
pub fn block_dimensions(block: &str) -> (r: (usize, usize))
    ensures
        r.0 == lines_of(block@).len(),
        r.1 == widest(lines_of(block@)),
{
    let lines = block_lines(block);
    let height = lines.len();
    let width = widest_of(&lines, Ghost(lines_of(block@)));
    (height, width)
}

/// The line centred in `target_width` columns.
fn pad_line(line: &Vec<char>, target_width: usize) -> (r: Vec<char>)
    requires
        visual_len(line@) <= target_width,
    ensures
        r@ == padded(line@, target_width as nat),
{
    let natural_width = visual_length(line);
    let pad = target_width - natural_width;
    let semipad = pad / 2;
    let remipad: usize = if 2 * semipad < pad {
        1
    } else {
        0
    };
    assert(remipad == pad % 2);
    let mut padded_line: Vec<char> = Vec::new();
    push_spaces(&mut padded_line, semipad);
    append_chars(&mut padded_line, line);
    push_spaces(&mut padded_line, semipad + remipad);
    padded_line
}

/// Appends each line centred in `width` columns and ended by `'\n'`.
fn push_centred_rows(
    target: &mut Vec<char>,
    lines: &Vec<Vec<char>>,
    width: usize,
    Ghost(spec_lines): Ghost<Seq<Seq<char>>>,
)
    requires
        lines@.len() == spec_lines.len(),
        forall|k: int| 0 <= k < lines@.len() ==> #[trigger] lines@[k]@ == spec_lines[k],
        widest(spec_lines) <= width,
    ensures
        final(target)@ == old(target)@ + centred_rows(spec_lines, width as nat),
{
    let mut i: usize = 0;
    while i < lines.len()
        invariant
            i <= lines@.len(),
            lines@.len() == spec_lines.len(),
            forall|k: int| 0 <= k < lines@.len() ==> #[trigger] lines@[k]@ == spec_lines[k],
            widest(spec_lines) <= width,
            target@ == old(target)@ + centred_rows(spec_lines.take(i as int), width as nat),
        decreases lines@.len() - i,
    {
        assert(spec_lines.take(i + 1).drop_last() =~= spec_lines.take(i as int));
        proof {
            lemma_widest_bounds(spec_lines, i as int);
        }
        let row = pad_line(&lines[i], width);
        append_chars(target, &row);
        target.push('\n');
        i += 1;
        assert(target@ =~= old(target)@ + centred_rows(spec_lines.take(i as int), width as nat));
    }
    assert(spec_lines.take(i as int) =~= spec_lines);
}

/// The upper block's lines above the lower block's, each centred in the
/// width of the wider block, each ended by `'\n'`.
pub fn pack_blocks_vertically(upper_block: &str, lower_block: &str) -> (r: String)
    ensures
        r@ == stacked(upper_block@, lower_block@),
{
    let upper_lines = block_lines(upper_block);
    let lower_lines = block_lines(lower_block);
    let upper_width = widest_of(&upper_lines, Ghost(lines_of(upper_block@)));
    let lower_width = widest_of(&lower_lines, Ghost(lines_of(lower_block@)));
    let grand_width = if upper_width >= lower_width {
        upper_width
    } else {
        lower_width
    };
    let mut packed: Vec<char> = Vec::new();
    push_centred_rows(&mut packed, &upper_lines, grand_width, Ghost(lines_of(upper_block@)));
    push_centred_rows(&mut packed, &lower_lines, grand_width, Ghost(lines_of(lower_block@)));
    proof {
        lemma_centred_rows_concat(lines_of(upper_block@), lines_of(lower_block@), grand_width as nat);
    }
    string_of(&packed)
}

proof fn lemma_centred_rows_concat(a: Seq<Seq<char>>, b: Seq<Seq<char>>, width: nat)
    ensures
        centred_rows(a + b, width) == centred_rows(a, width) + centred_rows(b, width),
    decreases b.len(),
{
    if b.len() == 0 {
        assert(a + b =~= a);
        assert(centred_rows(b, width) =~= Seq::<char>::empty());
        assert(centred_rows(a, width) + Seq::<char>::empty() =~= centred_rows(a, width));
    } else {
        assert((a + b).drop_last() =~= a + b.drop_last());
        lemma_centred_rows_concat(a, b.drop_last(), width);
        assert(centred_rows(a + b, width) =~= centred_rows(a, width) + centred_rows(b, width));
    }
}

fn push_blank_rows(target: &mut Vec<char>, count: usize, width: usize)
    ensures
        final(target)@ == old(target)@ + blank_rows(count as nat, width as nat),
{
    let mut i: usize = 0;
    while i < count
        invariant
            i <= count,
            target@ == old(target)@ + blank_rows(i as nat, width as nat),
        decreases count - i,
    {
        push_spaces(target, width);
        target.push('\n');
        i += 1;
        assert(target@ =~= old(target)@ + blank_rows(i as nat, width as nat));
    }
}

proof fn lemma_trimmed_end_idempotent(s: Seq<char>)
    ensures
        trimmed_end(trimmed_end(s)) == trimmed_end(s),
    decreases s.len(),
{
    if s.len() > 0 && is_white_space(s.last()) {
        lemma_trimmed_end_idempotent(s.drop_last());
    }
}

/// The block centred among blank rows to `target_height` rows.
fn vertically_pad_block(block: &Vec<char>, target_height: usize, target_width: usize) -> (r: Vec<
    char,
>)
    requires
        lines_of(block@).len() <= target_height,
    ensures
        r@ == vertically_padded(block@, target_height as nat, target_width as nat),
{
    let text = string_of(block);
    let natural_height = block_lines(text.as_str()).len();
    let pad = target_height - natural_height;
    let semipad = pad / 2;
    let remipad: usize = if 2 * semipad < pad {
        1
    } else {
        0
    };
    assert(remipad == pad % 2);
    let mut padded_block: Vec<char> = Vec::new();
    push_blank_rows(&mut padded_block, semipad, target_width);
    append_chars(&mut padded_block, block);
    padded_block.push('\n');
    push_blank_rows(&mut padded_block, semipad + remipad, target_width);
    padded_block
}

/// Appends the rows of the two line lists side by side.
fn push_zipped_rows(
    target: &mut Vec<char>,
    left: &Vec<Vec<char>>,
    right: &Vec<Vec<char>>,
    Ghost(spec_left): Ghost<Seq<Seq<char>>>,
    Ghost(spec_right): Ghost<Seq<Seq<char>>>,
)
    requires
        left@.len() == spec_left.len(),
        right@.len() == spec_right.len(),
        left@.len() == right@.len(),
        forall|k: int| 0 <= k < left@.len() ==> #[trigger] left@[k]@ == spec_left[k],
        forall|k: int| 0 <= k < right@.len() ==> #[trigger] right@[k]@ == spec_right[k],
    ensures
        final(target)@ == old(target)@ + zipped_rows(spec_left, spec_right),
{
    let mut i: usize = 0;
    while i < left.len()
        invariant
            i <= left@.len(),
            left@.len() == spec_left.len(),
            right@.len() == spec_right.len(),
            left@.len() == right@.len(),
            forall|k: int| 0 <= k < left@.len() ==> #[trigger] left@[k]@ == spec_left[k],
            forall|k: int| 0 <= k < right@.len() ==> #[trigger] right@[k]@ == spec_right[k],
            target@ == old(target)@ + zipped_rows(
                spec_left.take(i as int),
                spec_right.take(i as int),
            ),
        decreases left@.len() - i,
    {
        assert(spec_left.take(i + 1).drop_last() =~= spec_left.take(i as int));
        assert(spec_right.take(i + 1).drop_last() =~= spec_right.take(i as int));
        append_chars(target, &left[i]);
        append_chars(target, &right[i]);
        target.push('\n');
        i += 1;
        assert(target@ =~= old(target)@ + zipped_rows(
            spec_left.take(i as int),
            spec_right.take(i as int),
        ));
    }
    assert(spec_left.take(i as int) =~= spec_left);
    assert(spec_right.take(i as int) =~= spec_right);
}

/// How many `'\n'` characters the text holds.
pub open spec fn newlines(s: Seq<char>) -> nat
    decreases s.len(),
{
    if s.len() == 0 {
        0
    } else {
        newlines(s.drop_last()) + if s.last() == '\n' {
            1nat
        } else {
            0nat
        }
    }
}

proof fn lemma_one_newline()
    ensures
        newlines(seq!['\n']) == 1,
{
    let s = seq!['\n'];
    assert(s.drop_last() =~= Seq::<char>::empty());
    assert(newlines(s.drop_last()) == 0);
    assert(s.last() == '\n');
}

pub(crate) proof fn lemma_split_count(s: Seq<char>)
    ensures
        split_lines(s).len() == newlines(s) + 1,
    decreases s.len(),
{
    if s.len() > 0 {
        lemma_split_count(s.drop_last());
    }
}

proof fn lemma_newlines_concat(a: Seq<char>, b: Seq<char>)
    ensures
        newlines(a + b) == newlines(a) + newlines(b),
    decreases b.len(),
{
    if b.len() == 0 {
        assert(a + b =~= a);
    } else {
        assert((a + b).drop_last() =~= a + b.drop_last());
        lemma_newlines_concat(a, b.drop_last());
    }
}

proof fn lemma_no_newlines_in_spaces(n: nat)
    ensures
        newlines(spaces(n)) == 0,
    decreases n,
{
    if n > 0 {
        assert(spaces(n).drop_last() =~= spaces((n - 1) as nat));
        lemma_no_newlines_in_spaces((n - 1) as nat);
    }
}

proof fn lemma_blank_rows_newlines(count: nat, width: nat)
    ensures
        newlines(blank_rows(count, width)) == count,
    decreases count,
{
    if count > 0 {
        let c = (count - 1) as nat;
        lemma_blank_rows_newlines(c, width);
        lemma_no_newlines_in_spaces(width);
        lemma_newlines_concat(blank_rows(c, width), spaces(width));
        lemma_newlines_concat(blank_rows(c, width) + spaces(width), seq!['\n']);
        lemma_one_newline();
    }
}

/// A trimmed block padded to `height` rows splits into `height + 1` pieces.
proof fn lemma_padded_rows(block: Seq<char>, height: nat, width: nat)
    requires
        trimmed_end(block) == block,
        lines_of(block).len() <= height,
    ensures
        split_lines(vertically_padded(block, height, width)).len() == height + 1,
{
    let pad = (height - lines_of(block).len()) as nat;
    let top = blank_rows(pad / 2, width);
    let bottom = blank_rows((pad / 2 + pad % 2) as nat, width);
    lemma_split_count(block);
    lemma_blank_rows_newlines(pad / 2, width);
    lemma_blank_rows_newlines((pad / 2 + pad % 2) as nat, width);
    lemma_newlines_concat(top, block);
    lemma_newlines_concat(top + block, seq!['\n']);
    lemma_one_newline();
    lemma_newlines_concat(top + block + seq!['\n'], bottom);
    lemma_split_count(vertically_padded(block, height, width));
}

/// The two blocks side by side, each centred vertically to the taller's
/// height; rows are ended by `'\n'`, but for the last.
pub fn pack_blocks_horizontally(left_block: &str, right_block: &str) -> (r: String)
    ensures
        r@ == beside(left_block@, right_block@),
{
    let (left_height, left_width) = block_dimensions(left_block);
    let (right_height, right_width) = block_dimensions(right_block);
    let grand_height = if left_height >= right_height {
        left_height
    } else {
        right_height
    };
    let left_chars = chars_of(trim_end(left_block));
    let right_chars = chars_of(trim_end(right_block));
    proof {
        lemma_trimmed_end_idempotent(left_block@);
        lemma_trimmed_end_idempotent(right_block@);
    }
    let left_padded = vertically_pad_block(&left_chars, grand_height, left_width);
    let right_padded = vertically_pad_block(&right_chars, grand_height, right_width);
    let left_rows = split_on_newlines(&left_padded);
    let right_rows = split_on_newlines(&right_padded);
    proof {
        lemma_padded_rows(left_chars@, grand_height as nat, left_width as nat);
        lemma_padded_rows(right_chars@, grand_height as nat, right_width as nat);
    }
    let mut packed: Vec<char> = Vec::new();
    push_zipped_rows(
        &mut packed,
        &left_rows,
        &right_rows,
        Ghost(split_lines(left_padded@)),
        Ghost(split_lines(right_padded@)),
    );
    if packed.len() > 0 {
        packed.pop();
    }
    string_of(&packed)
}

} // verus!
