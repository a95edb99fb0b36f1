//! The subjects of the triangle game: studies made of stacks of colored
//! triangles of three sizes.

use itertools::Itertools;
use rand::rngs::StdRng;
use vstd::prelude::*;

use crate::chance::draw_below;

verus! {

/// How many distinct triangles there are: four colors times three sizes.
pub const TRIANGLE_KINDS: usize = 12;

/// How many stacks `Stack::bounded_universe` holds: a bottom triangle,
/// and either no top or one of the triangles on it.
pub const BOUNDED_STACKS: usize = 156;

/// Relies on `itertools::Itertools::cartesian_product` over `0..m` and
/// `0..n`: the pairs come in row-major order, so the pair at position `k`
/// is `(k / n, k % n)`, and there are `m * n` of them.
#[verifier::external_body]
fn index_pairs(m: usize, n: usize) -> (r: Vec<(usize, usize)>)
    requires
        m * n <= usize::MAX,
    ensures
        r@.len() == m * n,
        forall|k: int|
            0 <= k < m * n ==> #[trigger] r@[k] == ((k / n as int) as usize, (k % n as int) as usize),
{
    (0..m).cartesian_product(0..n).collect()
}

#[derive(Debug, PartialEq, Eq, Hash, Clone, Copy, Structural)]
pub enum Size {
    One,
    Two,
    Three,
}

/// The size listed at position `i` of `Size::iter`.
pub open spec fn size_at(i: int) -> Size {
    if i == 0 {
        Size::One
    } else if i == 1 {
        Size::Two
    } else {
        Size::Three
    }
}

impl Size {
    /// The pips of a triangle of this size: its size as a number.
    pub open spec fn pips(self) -> nat {
        match self {
            Size::One => 1,
            Size::Two => 2,
            Size::Three => 3,
        }
    }

    /// All sizes, smallest first.
    pub fn iter() -> (r: Vec<Size>)
        ensures
            r@ == seq![Size::One, Size::Two, Size::Three],
    {
        let r = vec![Size::One, Size::Two, Size::Three];
        assert(r@ =~= seq![Size::One, Size::Two, Size::Three]);
        r
    }

    /// A size drawn uniformly at random.
    pub fn sample(rng: &mut StdRng) -> Size {
        let i = draw_below(rng, 3);
        if i == 0 {
            Size::One
        } else if i == 1 {
            Size::Two
        } else {
            Size::Three
        }
    }

    /// The pips of a triangle of this size.
    pub fn pip_value(&self) -> (r: usize)
        ensures
            r == self.pips(),
    {
        match self {
            Size::One => 1,
            Size::Two => 2,
            Size::Three => 3,
        }
    }
}

#[derive(Debug, PartialEq, Eq, Hash, Clone, Copy, Structural)]
pub enum Color {
    Red,
    Blue,
    Green,
    Yellow,
}

/// The color listed at position `i` of `Color::iter`.
pub open spec fn color_at(i: int) -> Color {
    if i == 0 {
        Color::Red
    } else if i == 1 {
        Color::Blue
    } else if i == 2 {
        Color::Green
    } else {
        Color::Yellow
    }
}

impl Color {
    /// All colors, in their customary order.
    pub fn iter() -> (r: Vec<Color>)
        ensures
            r@ == seq![Color::Red, Color::Blue, Color::Green, Color::Yellow],
    {
        let r = vec![Color::Red, Color::Blue, Color::Green, Color::Yellow];
        assert(r@ =~= seq![Color::Red, Color::Blue, Color::Green, Color::Yellow]);
        r
    }

    /// A color drawn uniformly at random.
    pub fn sample(rng: &mut StdRng) -> Color {
        let i = draw_below(rng, 4);
        if i == 0 {
            Color::Red
        } else if i == 1 {
            Color::Blue
        } else if i == 2 {
            Color::Green
        } else {
            Color::Yellow
        }
    }
}

#[derive(Debug, PartialEq, Eq, Hash, Clone, Copy, Structural)]
pub struct Triangle {
    pub size: Size,
    pub color: Color,
}

/// The triangle at position `k` of `Triangle::universe`.
pub open spec fn triangle_at(k: int) -> Triangle {
    Triangle { color: color_at(k / 3), size: size_at(k % 3) }
}

impl Triangle {
    pub fn new(color: Color, size: Size) -> (r: Triangle)
        ensures
            r.color == color,
            r.size == size,
    {
        Triangle { color, size }
    }

    /// Every triangle once: colors in order, and each color's sizes in order.
    pub fn universe() -> (r: Vec<Triangle>)
        ensures
            r@.len() == TRIANGLE_KINDS,
            forall|k: int| 0 <= k < TRIANGLE_KINDS ==> #[trigger] r@[k] == triangle_at(k),
    {
        let colors = Color::iter();
        let sizes = Size::iter();
        let pairs = index_pairs(4, 3);
        let mut r: Vec<Triangle> = Vec::new();
        let mut k: usize = 0;
        while k < pairs.len()
            invariant
                pairs@.len() == 12,
                colors@ == seq![Color::Red, Color::Blue, Color::Green, Color::Yellow],
                sizes@ == seq![Size::One, Size::Two, Size::Three],
                forall|q: int| 0 <= q < 12 ==> #[trigger] pairs@[q] == ((q / 3) as usize, (q % 3) as usize),
                k <= 12,
                r@.len() == k,
                forall|q: int| 0 <= q < k ==> #[trigger] r@[q] == triangle_at(q),
            decreases 12 - k,
        {
            let (i, j) = pairs[k];
            assert(pairs@[k as int] == ((k / 3) as usize, (k % 3) as usize));
            r.push(Triangle::new(colors[i], sizes[j]));
            k += 1;
        }
        r
    }

    /// A triangle of random color and random size.
    pub fn sample(rng: &mut StdRng) -> Triangle {
        let color = Color::sample(rng);
        let size = Size::sample(rng);
        Triangle::new(color, size)
    }
}

/// A pile of triangles, the first one at the bottom.
#[derive(Debug, PartialEq, Eq, Clone)]
pub struct Stack {
    triangles: Vec<Triangle>,
}

impl View for Stack {
    type V = Seq<Triangle>;

    closed spec fn view(&self) -> Seq<Triangle> {
        self.triangles@
    }
}

/// The stack made of triangle `i` of the universe, topped by triangle `j`
/// when `j` names one, and bare otherwise.
pub open spec fn stack_from(i: int, j: int) -> Seq<Triangle> {
    if j < TRIANGLE_KINDS {
        seq![triangle_at(i), triangle_at(j)]
    } else {
        seq![triangle_at(i)]
    }
}

/// The stack at position `k` of `Stack::bounded_universe`.
pub open spec fn bounded_stack(k: int) -> Seq<Triangle> {
    stack_from(k / 13, k % 13)
}

impl Stack {
    pub fn new() -> (r: Stack)
        ensures
            r@ == Seq::<Triangle>::empty(),
    {
        Stack { triangles: Vec::new() }
    }

    /// Puts a triangle on top.
    pub fn push(&mut self, triangle: Triangle)
        ensures
            final(self)@ == old(self)@.push(triangle),
    {
        self.triangles.push(triangle);
    }

    /// The number of triangles in the stack.
    pub fn height(&self) -> (r: usize)
        ensures
            r == self@.len(),
    {
        self.triangles.len()
    }

    /// The triangle at `index`, counted from the bottom.
    pub fn triangle(&self, index: usize) -> (r: Triangle)
        requires
            index < self@.len(),
        ensures
            r == self@[index as int],
    {
        self.triangles[index]
    }

    /// The stack of universe triangle `i`, topped by universe triangle `j`
    /// when `j` names one.
    fn from_universe(universe: &Vec<Triangle>, i: usize, j: usize) -> (r: Stack)
        requires
            i < TRIANGLE_KINDS,
            j <= TRIANGLE_KINDS,
            universe@.len() == TRIANGLE_KINDS,
            forall|k: int| 0 <= k < TRIANGLE_KINDS ==> #[trigger] universe@[k] == triangle_at(k),
        ensures
            r@ == stack_from(i as int, j as int),
    {
        let mut stack = Stack::new();
        stack.push(universe[i]);
        if j < TRIANGLE_KINDS {
            stack.push(universe[j]);
        }
        assert(stack@ =~= stack_from(i as int, j as int));
        stack
    }

    /// Every stack of one or two triangles: each bottom triangle in
    /// universe order, under each possible top and then under none.
    pub fn bounded_universe() -> (r: Vec<Stack>)
        ensures
            r@.len() == BOUNDED_STACKS,
            forall|k: int| 0 <= k < BOUNDED_STACKS ==> (#[trigger] r@[k])@ == bounded_stack(k),
    {
        let universe = Triangle::universe();
        let pairs = index_pairs(12, 13);
        let mut r: Vec<Stack> = Vec::new();
        let mut k: usize = 0;
        while k < pairs.len()
            invariant
                pairs@.len() == 156,
                universe@.len() == TRIANGLE_KINDS,
                forall|q: int| 0 <= q < TRIANGLE_KINDS ==> #[trigger] universe@[q] == triangle_at(q),
                forall|q: int|
                    0 <= q < 156 ==> #[trigger] pairs@[q] == ((q / 13) as usize, (q % 13) as usize),
                k <= 156,
                r@.len() == k,
                forall|q: int| 0 <= q < k ==> (#[trigger] r@[q])@ == bounded_stack(q),
            decreases 156 - k,
        {
            let (i, j) = pairs[k];
            assert(pairs@[k as int] == ((k / 13) as usize, (k % 13) as usize));
            r.push(Stack::from_universe(&universe, i, j));
            k += 1;
        }
        r
    }

    /// A stack of one to four random triangles.
    pub fn sample(rng: &mut StdRng) -> (r: Stack)
        ensures
            1 <= r@.len() <= 4,
    {
        let height = 1 + draw_below(rng, 4);
        let mut stack = Stack::new();
        let mut i: usize = 0;
        while i < height
            invariant
                i <= height <= 4,
                stack@.len() == i,
            decreases height - i,
        {
            stack.push(Triangle::sample(rng));
            i += 1;
        }
        stack
    }
}

/// A study: stacks standing side by side.
#[derive(Debug, PartialEq, Eq, Clone)]
pub struct Study {
    stacks: Vec<Stack>,
}

impl View for Study {
    type V = Seq<Seq<Triangle>>;

    closed spec fn view(&self) -> Seq<Seq<Triangle>> {
        self.stacks@.map_values(|s: Stack| s@)
    }
}

/// The triangles of a study, stack after stack, each from the bottom up.
pub open spec fn flatten(stacks: Seq<Seq<Triangle>>) -> Seq<Triangle>
    decreases stacks.len(),
{
    if stacks.len() == 0 {
        Seq::empty()
    } else {
        flatten(stacks.drop_last()) + stacks.last()
    }
}

/// How many of the triangles have the color.
pub open spec fn color_tally(ts: Seq<Triangle>, color: Color) -> nat
    decreases ts.len(),
{
    if ts.len() == 0 {
        0
    } else {
        color_tally(ts.drop_last(), color) + if ts.last().color == color {
            1nat
        } else {
            0nat
        }
    }
}

/// How many of the triangles have the size.
pub open spec fn size_tally(ts: Seq<Triangle>, size: Size) -> nat
    decreases ts.len(),
{
    if ts.len() == 0 {
        0
    } else {
        size_tally(ts.drop_last(), size) + if ts.last().size == size {
            1nat
        } else {
            0nat
        }
    }
}

/// The pips of the triangles, summed.
pub open spec fn pip_tally(ts: Seq<Triangle>) -> nat
    decreases ts.len(),
{
    if ts.len() == 0 {
        0
    } else {
        pip_tally(ts.drop_last()) + ts.last().size.pips()
    }
}

/// How many stacks have a triangle standing on the ground, that is, are
/// not empty.
pub open spec fn grounded_tally(stacks: Seq<Seq<Triangle>>) -> nat
    decreases stacks.len(),
{
    if stacks.len() == 0 {
        0
    } else {
        grounded_tally(stacks.drop_last()) + if stacks.last().len() > 0 {
            1nat
        } else {
            0nat
        }
    }
}

/// How many triangles of the study stand on the ground (`grounded`), or on
/// another triangle (`!grounded`).
pub open spec fn groundedness_tally(stacks: Seq<Seq<Triangle>>, grounded: bool) -> nat {
    if grounded {
        grounded_tally(stacks)
    } else {
        (flatten(stacks).len() - grounded_tally(stacks)) as nat
    }
}

/// The study of the two universe stacks whose positions are `k / 156` and
/// `k % 156`.
pub open spec fn bounded_study(k: int) -> Seq<Seq<Triangle>> {
    seq![bounded_stack(k / 156), bounded_stack(k % 156)]
}

proof fn lemma_grounded_at_most_all(stacks: Seq<Seq<Triangle>>)
    ensures
        grounded_tally(stacks) <= flatten(stacks).len(),
    decreases stacks.len(),
{
    if stacks.len() > 0 {
        lemma_grounded_at_most_all(stacks.drop_last());
    }
}

impl Study {
    pub fn new() -> (r: Study)
        ensures
            r@ == Seq::<Seq<Triangle>>::empty(),
    {
        let r = Study { stacks: Vec::new() };
        assert(r@ =~= Seq::<Seq<Triangle>>::empty());
        r
    }

    /// Sets a stack beside the others, on the right.
    pub fn append(&mut self, stack: Stack)
        ensures
            final(self)@ == old(self)@.push(stack@),
    {
        self.stacks.push(stack);
        assert(self@ =~= old(self)@.push(stack@));
    }

    /// How many stacks the study has.
    pub fn breadth(&self) -> (r: usize)
        ensures
            r == self@.len(),
    {
        self.stacks.len()
    }

    /// The stack at `index`, counted from the left.
    pub fn stack(&self, index: usize) -> (r: &Stack)
        requires
            index < self@.len(),
        ensures
            r@ == self@[index as int],
    {
        &self.stacks[index]
    }

    /// The triangles of the study, stack after stack, each from the bottom up.
    pub fn triangles(&self) -> (r: Vec<Triangle>)
        ensures
            r@ == flatten(self@),
    {
        let mut r: Vec<Triangle> = Vec::new();
        let mut i: usize = 0;
        while i < self.stacks.len()
            invariant
                i <= self.stacks@.len(),
                r@ == flatten(self@.take(i as int)),
            decreases self.stacks@.len() - i,
        {
            let stack = &self.stacks[i];
            let ghost before = r@;
            let mut j: usize = 0;
            while j < stack.triangles.len()
                invariant
                    j <= stack@.len(),
                    r@ == before + stack@.take(j as int),
                decreases stack@.len() - j,
            {
                r.push(stack.triangles[j]);
                j += 1;
                assert(r@ =~= before + stack@.take(j as int));
            }
            assert(self@.take(i + 1).drop_last() =~= self@.take(i as int));
            assert(stack@.take(j as int) =~= stack@);
            i += 1;
        }
        assert(self@.take(i as int) =~= self@);
        r
    }

    /// How many triangles of the study have the color.
    pub fn color_count(&self, color: Color) -> (r: usize)
        ensures
            r == color_tally(flatten(self@), color),
    {
        let ts = self.triangles();
        let mut count: usize = 0;
        let mut k: usize = 0;
        while k < ts.len()
            invariant
                k <= ts@.len(),
                count <= k,
                count == color_tally(ts@.take(k as int), color),
            decreases ts@.len() - k,
        {
            assert(ts@.take(k + 1).drop_last() =~= ts@.take(k as int));
            if ts[k].color == color {
                count += 1;
            }
            k += 1;
        }
        assert(ts@.take(k as int) =~= ts@);
        count
    }

    /// How many triangles of the study have the size.
    pub fn size_count(&self, size: Size) -> (r: usize)
        ensures
            r == size_tally(flatten(self@), size),
    {
        let ts = self.triangles();
        let mut count: usize = 0;
        let mut k: usize = 0;
        while k < ts.len()
            invariant
                k <= ts@.len(),
                count <= k,
                count == size_tally(ts@.take(k as int), size),
            decreases ts@.len() - k,
        {
            assert(ts@.take(k + 1).drop_last() =~= ts@.take(k as int));
            if ts[k].size == size {
                count += 1;
            }
            k += 1;
        }
        assert(ts@.take(k as int) =~= ts@);
        count
    }

    /// How many triangles stand on the ground (`grounded`), or on another
    /// triangle (`!grounded`).
    pub fn groundedness_count(&self, grounded: bool) -> (r: usize)
        ensures
            r == groundedness_tally(self@, grounded),
    {
        let ts = self.triangles();
        let mut on_ground: usize = 0;
        let mut i: usize = 0;
        while i < self.stacks.len()
            invariant
                i <= self.stacks@.len(),
                on_ground <= i,
                on_ground == grounded_tally(self@.take(i as int)),
            decreases self.stacks@.len() - i,
        {
            assert(self@.take(i + 1).drop_last() =~= self@.take(i as int));
            if self.stacks[i].triangles.len() > 0 {
                on_ground += 1;
            }
            i += 1;
        }
        assert(self@.take(i as int) =~= self@);
        proof {
            lemma_grounded_at_most_all(self@);
        }
        if grounded {
            on_ground
        } else {
            ts.len() - on_ground
        }
    }

    /// The pips of all the triangles of the study, summed.
    pub fn pip_count(&self) -> (r: u128)
        ensures
            r == pip_tally(flatten(self@)),
    {
        let ts = self.triangles();
        let mut total: u128 = 0;
        let mut k: usize = 0;
        while k < ts.len()
            invariant
                k <= ts@.len(),
                total == pip_tally(ts@.take(k as int)),
                total <= 3 * k,
            decreases ts@.len() - k,
        {
            assert(ts@.take(k + 1).drop_last() =~= ts@.take(k as int));
            total += ts[k].size.pip_value() as u128;
            k += 1;
        }
        assert(ts@.take(k as int) =~= ts@);
        total
    }

    /// Every study of two stacks taken from `Stack::bounded_universe`:
    /// each left stack in order, beside each right stack in order.
    pub fn bounded_universe() -> (r: Vec<Study>)
        ensures
            r@.len() == BOUNDED_STACKS * BOUNDED_STACKS,
            forall|k: int|
                0 <= k < BOUNDED_STACKS * BOUNDED_STACKS ==> (#[trigger] r@[k])@
                    == bounded_study(k),
    {
        let universe = Triangle::universe();
        let stacks = Stack::bounded_universe();
        let pairs = index_pairs(156, 156);
        let mut r: Vec<Study> = Vec::new();
        let mut k: usize = 0;
        while k < pairs.len()
            invariant
                pairs@.len() == 156 * 156,
                stacks@.len() == BOUNDED_STACKS,
                forall|q: int| 0 <= q < BOUNDED_STACKS ==> (#[trigger] stacks@[q])@ == bounded_stack(q),
                forall|q: int|
                    0 <= q < 156 * 156 ==> #[trigger] pairs@[q] == ((q / 156) as usize, (
                    q % 156) as usize),
                k <= 156 * 156,
                r@.len() == k,
                forall|q: int| 0 <= q < k ==> (#[trigger] r@[q])@ == bounded_study(q),
            decreases 156 * 156 - k,
        {
            let (a, b) = pairs[k];
            assert(pairs@[k as int] == ((k / 156) as usize, (k % 156) as usize));
            let mut study = Study::new();
            study.append(stacks[a].copied());
            study.append(stacks[b].copied());
            assert(study@ =~= bounded_study(k as int));
            r.push(study);
            k += 1;
        }
        r
    }

    /// A study of one to four random stacks, each of one to four random
    /// triangles.
    pub fn sample(rng: &mut StdRng) -> (r: Study)
        ensures
            1 <= r@.len() <= 4,
            forall|i: int| 0 <= i < r@.len() ==> 1 <= #[trigger] r@[i].len() <= 4,
    {
        let breadth = 1 + draw_below(rng, 4);
        let mut study = Study::new();
        let mut i: usize = 0;
        while i < breadth
            invariant
                i <= breadth <= 4,
                study@.len() == i,
                forall|q: int| 0 <= q < i ==> 1 <= #[trigger] study@[q].len() <= 4,
            decreases breadth - i,
        {
            let stack = Stack::sample(rng);
            study.append(stack);
            i += 1;
        }
        study
    }
}

proof fn lemma_flatten_prefix(stacks: Seq<Seq<Triangle>>, k: int)
    requires
        0 <= k <= stacks.len(),
    ensures
        flatten(stacks.take(k)).len() <= flatten(stacks).len(),
        forall|j: int|
            0 <= j < flatten(stacks.take(k)).len() ==> #[trigger] flatten(stacks.take(k))[j]
                == flatten(stacks)[j],
    decreases stacks.len(),
{
    if k < stacks.len() {
        let rest = stacks.drop_last();
        assert(stacks.take(k) =~= rest.take(k));
        lemma_flatten_prefix(rest, k);
        assert forall|j: int| 0 <= j < flatten(stacks.take(k)).len() implies #[trigger] flatten(
            stacks.take(k),
        )[j] == flatten(stacks)[j] by {
            assert(flatten(stacks) == flatten(rest) + stacks.last());
        }
    } else {
        assert(stacks.take(k) =~= stacks);
    }
}

/// Walks the triangles of a study, stack after stack, each from the bottom
/// up.
pub struct StudyIter<'a> {
    study: &'a Study,
    stack_index: usize,
    triangle_index: usize,
}

impl<'a> StudyIter<'a> {
    /// How many triangles have been handed out.
    closed spec fn position(&self) -> int {
        flatten(self.study@.take(self.stack_index as int)).len() + self.triangle_index
    }

    /// The triangles still to come.
    pub closed spec fn remaining(&self) -> Seq<Triangle> {
        flatten(self.study@).skip(self.position())
    }

    pub closed spec fn well_formed(&self) -> bool {
        &&& self.stack_index <= self.study@.len()
        &&& self.stack_index < self.study@.len() ==> self.triangle_index
            <= self.study@[self.stack_index as int].len()
        &&& self.stack_index == self.study@.len() ==> self.triangle_index == 0
    }

    /// The next triangle, if any is left.
    pub fn next(&mut self) -> (r: Option<Triangle>)
        requires
            old(self).well_formed(),
        ensures
            final(self).well_formed(),
            old(self).remaining().len() == 0 ==> r is None
                && final(self).remaining() == old(self).remaining(),
            old(self).remaining().len() > 0 ==> r == Some(old(self).remaining()[0])
                && final(self).remaining() == old(self).remaining().drop_first(),
    {
        let ghost start = self.remaining();
        let ghost whole = flatten(self.study@);
        let n = self.study.stacks.len();
        proof {
            lemma_flatten_prefix(self.study@, self.stack_index as int);
        }
        while self.stack_index < n
            invariant
                n == self.study@.len(),
                self.well_formed(),
                whole == flatten(self.study@),
                self.remaining() == start,
                start == old(self).remaining(),
                flatten(self.study@.take(self.stack_index as int)).len() <= whole.len(),
            decreases n - self.stack_index, self.study@[self.stack_index as int].len()
                - self.triangle_index,
        {
            let i = self.stack_index;
            let stack = &self.study.stacks[i];
            let ghost before = flatten(self.study@.take(i as int));
            assert(self.study@.take(i + 1).drop_last() =~= self.study@.take(i as int));
            assert(flatten(self.study@.take(i + 1)) == before + self.study@[i as int]);
            proof {
                lemma_flatten_prefix(self.study@, i + 1);
            }
            if self.triangle_index < stack.triangles.len() {
                let t = stack.triangles[self.triangle_index];
                let ghost pos = before.len() + self.triangle_index;
                assert(flatten(self.study@.take(i + 1))[pos] == t);
                assert(whole[pos] == t);
                assert(pos < whole.len());
                assert(start == whole.skip(pos));
                assert(start[0] == t);
                self.triangle_index += 1;
                assert(self.remaining() =~= start.drop_first());
                return Some(t);
            }
            self.stack_index += 1;
            self.triangle_index = 0;
            assert(self.remaining() =~= start);
        }
        assert(self.study@.take(n as int) =~= self.study@);
        assert(start.len() == 0);
        None
    }
}

impl Study {
    /// A walk over the study's triangles, stack after stack.
    pub fn into_iter(&self) -> (r: StudyIter<'_>)
        ensures
            r.well_formed(),
            r.remaining() == flatten(self@),
    {
        let r = StudyIter { study: self, stack_index: 0, triangle_index: 0 };
        assert(self@.take(0) =~= Seq::<Seq<Triangle>>::empty());
        assert(flatten(self@).skip(0) =~= flatten(self@));
        r
    }
}

impl Stack {
    /// A stack with the same triangles.
    pub fn copied(&self) -> (r: Stack)
        ensures
            r@ == self@,
    {
        let mut triangles: Vec<Triangle> = Vec::new();
        let mut j: usize = 0;
        while j < self.triangles.len()
            invariant
                j <= self@.len(),
                triangles@ == self@.take(j as int),
            decreases self@.len() - j,
        {
            triangles.push(self.triangles[j]);
            j += 1;
            assert(triangles@ =~= self@.take(j as int));
        }
        assert(self@.take(j as int) =~= self@);
        Stack { triangles }
    }
}

} // verus!
