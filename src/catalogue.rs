//! The catalogues of basic hypotheses that the triangle game starts from.

use vstd::prelude::*;

use crate::basics::{
    ColorCountBoundednessHypothesis, GroundednessCountBoundednessHypothesis,
    PipBoundednessHypothesis, PipParityHypothesis, SizeCountBoundednessHypothesis,
};
use crate::hypotheses::BasicHypothesis;
use crate::triangles::{color_at, size_at, Color, Size};

verus! {

/// Bounds number `m` (below nine) of a count block: "exactly 1, 2, 3",
/// then "at least 1, 2, 3", then "at most 0, 1, 2", as (lower, upper).
pub open spec fn count_bounds(m: int) -> (Option<usize>, Option<usize>) {
    if m < 3 {
        (Some((m + 1) as usize), Some((m + 1) as usize))
    } else if m < 6 {
        (Some((m - 2) as usize), None)
    } else {
        (None, Some((m - 6) as usize))
    }
}

/// Entry `m` of the count block of a color.
pub open spec fn color_entry(color: Color, m: int) -> BasicHypothesis {
    BasicHypothesis::ColorCountBoundedness(
        ColorCountBoundednessHypothesis {
            color,
            lower: count_bounds(m).0,
            upper: count_bounds(m).1,
        },
    )
}

/// Entry `m` of the count block of a size.
pub open spec fn size_entry(size: Size, m: int) -> BasicHypothesis {
    BasicHypothesis::SizeCountBoundedness(
        SizeCountBoundednessHypothesis { size, lower: count_bounds(m).0, upper: count_bounds(m).1 },
    )
}

/// The count blocks of every color, then of every size: 63 entries.
pub open spec fn count_catalogue(k: int) -> BasicHypothesis {
    if k < 36 {
        color_entry(color_at(k / 9), k % 9)
    } else {
        size_entry(size_at((k - 36) / 9), (k - 36) % 9)
    }
}

/// Entry `m` (below seven) of the groundedness block for `grounded`:
/// "exactly 1, 2, 3", "at least 2, 3", "at most 1, 2".
pub open spec fn groundedness_entry(grounded: bool, m: int) -> BasicHypothesis {
    let (lower, upper): (Option<usize>, Option<usize>) = if m < 3 {
        (Some((m + 1) as usize), Some((m + 1) as usize))
    } else if m < 5 {
        (Some((m - 1) as usize), None)
    } else {
        (None, Some((m - 4) as usize))
    };
    BasicHypothesis::GroundednessCountBoundedness(
        GroundednessCountBoundednessHypothesis { grounded, lower, upper },
    )
}

/// Entry `k` of `standard_basic_hypotheses`.
pub open spec fn standard_entry(k: int) -> BasicHypothesis {
    if k < 63 {
        count_catalogue(k)
    } else if k == 63 {
        BasicHypothesis::GroundednessCountBoundedness(
            GroundednessCountBoundednessHypothesis { grounded: false, lower: Some(1), upper: None },
        )
    } else if k == 64 {
        BasicHypothesis::GroundednessCountBoundedness(
            GroundednessCountBoundednessHypothesis { grounded: false, lower: None, upper: Some(0) },
        )
    } else if k < 72 {
        groundedness_entry(true, k - 65)
    } else if k < 79 {
        groundedness_entry(false, k - 72)
    } else if k < 115 {
        let p = (4 + (k - 79) / 3) as usize;
        let t = (k - 79) % 3;
        BasicHypothesis::PipBoundedness(
            if t == 0 {
                PipBoundednessHypothesis { lower: Some(p), upper: Some(p) }
            } else if t == 1 {
                PipBoundednessHypothesis { lower: Some(p), upper: None }
            } else {
                PipBoundednessHypothesis { lower: None, upper: Some(p) }
            },
        )
    } else if k < 119 {
        BasicHypothesis::PipParity(PipParityHypothesis { modulus: (k - 113) as usize, remainder: 0 })
    } else {
        BasicHypothesis::PipParity(PipParityHypothesis { modulus: 2, remainder: 1 })
    }
}

/// Entry `k` of `our_basic_hypotheses`.
pub open spec fn our_entry(k: int) -> BasicHypothesis {
    if k < 63 {
        count_catalogue(k)
    } else {
        BasicHypothesis::PipParity(PipParityHypothesis { modulus: (k - 61) as usize, remainder: 0 })
    }
}

/// Appends the count blocks of every color and then of every size.
fn push_count_blocks(hypotheses: &mut Vec<BasicHypothesis>)
    requires
        old(hypotheses)@.len() == 0,
    ensures
        final(hypotheses)@.len() == 63,
        forall|k: int| 0 <= k < 63 ==> #[trigger] final(hypotheses)@[k] == count_catalogue(k),
{
    let colors = Color::iter();
    let mut c: usize = 0;
    while c < 4
        invariant
            colors@ == seq![Color::Red, Color::Blue, Color::Green, Color::Yellow],
            c <= 4,
            hypotheses@.len() == 9 * c,
            forall|k: int| 0 <= k < 9 * c ==> #[trigger] hypotheses@[k] == count_catalogue(k),
        decreases 4 - c,
    {
        let color = colors[c];
        let mut m: usize = 0;
        while m < 9
            invariant
                c < 4,
                color == color_at(c as int),
                m <= 9,
                hypotheses@.len() == 9 * c + m,
                forall|k: int| 0 <= k < 9 * c + m ==> #[trigger] hypotheses@[k] == count_catalogue(k),
            decreases 9 - m,
        {
            let h = if m < 3 {
                ColorCountBoundednessHypothesis::new(color, m + 1, m + 1)
            } else if m < 6 {
                ColorCountBoundednessHypothesis::new_lower(color, m - 2)
            } else {
                ColorCountBoundednessHypothesis::new_upper(color, m - 6)
            };
            hypotheses.push(BasicHypothesis::from(h));
            assert((9 * c + m) / 9 == c && (9 * c + m) % 9 == m);
            m += 1;
        }
        c += 1;
    }
    let sizes = Size::iter();
    let mut s: usize = 0;
    while s < 3
        invariant
            sizes@ == seq![Size::One, Size::Two, Size::Three],
            s <= 3,
            hypotheses@.len() == 36 + 9 * s,
            forall|k: int| 0 <= k < 36 + 9 * s ==> #[trigger] hypotheses@[k] == count_catalogue(k),
        decreases 3 - s,
    {
        let size = sizes[s];
        let mut m: usize = 0;
        while m < 9
            invariant
                s < 3,
                size == size_at(s as int),
                m <= 9,
                hypotheses@.len() == 36 + 9 * s + m,
                forall|k: int|
                    0 <= k < 36 + 9 * s + m ==> #[trigger] hypotheses@[k] == count_catalogue(k),
            decreases 9 - m,
        {
            let h = if m < 3 {
                SizeCountBoundednessHypothesis::new(size, m + 1, m + 1)
            } else if m < 6 {
                SizeCountBoundednessHypothesis::new_lower(size, m - 2)
            } else {
                SizeCountBoundednessHypothesis::new_upper(size, m - 6)
            };
            hypotheses.push(BasicHypothesis::from(h));
            assert((9 * s + m) / 9 == s && (9 * s + m) % 9 == m);
            m += 1;
        }
        s += 1;
    }
}

/// The basic hypotheses of the game: count bounds by color and by size,
/// and divisibility of the pip count by two and by three.
pub fn our_basic_hypotheses() -> (r: Vec<BasicHypothesis>)
    ensures
        r@.len() == 65,
        forall|k: int| 0 <= k < 65 ==> #[trigger] r@[k] == our_entry(k),
{
    let mut hypotheses: Vec<BasicHypothesis> = Vec::new();
    push_count_blocks(&mut hypotheses);
    let mut modulus: usize = 2;
    while modulus < 4
        invariant
            2 <= modulus <= 4,
            hypotheses@.len() == 61 + modulus,
            forall|k: int| 0 <= k < 61 + modulus ==> #[trigger] hypotheses@[k] == our_entry(k),
        decreases 4 - modulus,
    {
        hypotheses.push(BasicHypothesis::from(PipParityHypothesis::new(modulus, 0)));
        modulus += 1;
    }
    hypotheses
}

/// The full catalogue: count bounds by color and by size; bounds on the
/// number of grounded and of ungrounded triangles; bounds on the pip
/// count from four to fifteen; and residues of the pip count.
pub fn standard_basic_hypotheses() -> (r: Vec<BasicHypothesis>)
    ensures
        r@.len() == 120,
        forall|k: int| 0 <= k < 120 ==> #[trigger] r@[k] == standard_entry(k),
{
    let mut hypotheses: Vec<BasicHypothesis> = Vec::new();
    push_count_blocks(&mut hypotheses);
    // Every study has a grounded triangle, so "at least one grounded" and
    // "none grounded" say nothing; their ungrounded analogues do.
    hypotheses.push(
        BasicHypothesis::from(GroundednessCountBoundednessHypothesis::new_lower(false, 1)),
    );
    hypotheses.push(
        BasicHypothesis::from(GroundednessCountBoundednessHypothesis::new_upper(false, 0)),
    );
    let mut g: usize = 0;
    while g < 2
        invariant
            g <= 2,
            hypotheses@.len() == 65 + 7 * g,
            forall|k: int| 0 <= k < 65 + 7 * g ==> #[trigger] hypotheses@[k] == standard_entry(k),
        decreases 2 - g,
    {
        let grounded = g == 0;
        let mut m: usize = 0;
        while m < 7
            invariant
                g < 2,
                grounded == (g == 0),
                m <= 7,
                hypotheses@.len() == 65 + 7 * g + m,
                forall|k: int|
                    0 <= k < 65 + 7 * g + m ==> #[trigger] hypotheses@[k] == standard_entry(k),
            decreases 7 - m,
        {
            let h = if m < 3 {
                GroundednessCountBoundednessHypothesis::new(grounded, m + 1, m + 1)
            } else if m < 5 {
                GroundednessCountBoundednessHypothesis::new_lower(grounded, m - 1)
            } else {
                GroundednessCountBoundednessHypothesis::new_upper(grounded, m - 4)
            };
            hypotheses.push(BasicHypothesis::from(h));
            m += 1;
        }
        g += 1;
    }
    let mut pip_count: usize = 4;
    while pip_count < 16
        invariant
            4 <= pip_count <= 16,
            hypotheses@.len() == 79 + 3 * (pip_count - 4),
            forall|k: int|
                0 <= k < 79 + 3 * (pip_count - 4) ==> #[trigger] hypotheses@[k] == standard_entry(k),
        decreases 16 - pip_count,
    {
        let ghost base = 79 + 3 * (pip_count - 4);
        assert((base - 79) / 3 == pip_count - 4 && (base - 79) % 3 == 0);
        assert((base + 1 - 79) / 3 == pip_count - 4 && (base + 1 - 79) % 3 == 1);
        assert((base + 2 - 79) / 3 == pip_count - 4 && (base + 2 - 79) % 3 == 2);
        hypotheses.push(BasicHypothesis::from(PipBoundednessHypothesis::exactly(pip_count)));
        hypotheses.push(BasicHypothesis::from(PipBoundednessHypothesis::at_least(pip_count)));
        hypotheses.push(BasicHypothesis::from(PipBoundednessHypothesis::at_most(pip_count)));
        pip_count += 1;
    }
    let mut modulus: usize = 2;
    while modulus < 6
        invariant
            2 <= modulus <= 6,
            hypotheses@.len() == 113 + modulus,
            forall|k: int| 0 <= k < 113 + modulus ==> #[trigger] hypotheses@[k] == standard_entry(k),
        decreases 6 - modulus,
    {
        hypotheses.push(BasicHypothesis::from(PipParityHypothesis::new(modulus, 0)));
        modulus += 1;
    }
    hypotheses.push(BasicHypothesis::from(PipParityHypothesis::new(2, 1)));
    hypotheses
}

} // verus!
