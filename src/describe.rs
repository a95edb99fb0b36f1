//! Building descriptions out of words and numbers.

use vstd::prelude::*;
use vstd::string::*;

verus! {

/// The decimal digit for `d`.
pub open spec fn digit_char(d: nat) -> char {
    if d == 0 { '0' } else if d == 1 { '1' } else if d == 2 { '2' } else if d == 3 { '3' }
    else if d == 4 { '4' } else if d == 5 { '5' } else if d == 6 { '6' } else if d == 7 { '7' }
    else if d == 8 { '8' } else { '9' }
}

/// The decimal numeral of `n`, without leading zeros.
pub open spec fn decimal(n: nat) -> Seq<char>
    decreases n,
{
    if n < 10 {
        seq![digit_char(n)]
    } else {
        decimal(n / 10) + seq![digit_char(n % 10)]
    }
}

/// Relies on `ToString::to_string` for `usize`: the decimal numeral of the
/// number.
#[verifier::external_body]
pub(crate) fn numeral(n: usize) -> (r: String)
    ensures
        r@ == decimal(n as nat),
{
    n.to_string()
}

/// The clauses that bound a count, each after a space: "is exactly n"
/// when `exact` allows it and both bounds are `n`; otherwise "is not less
/// than a", "and", "is not greater than b", for the bounds that are given.
pub open spec fn bound_clauses(lower: Option<usize>, upper: Option<usize>, exact: bool) -> Seq<char> {
    if exact && lower is Some && upper is Some && lower->0 == upper->0 {
        " is exactly "@ + decimal(lower->0 as nat)
    } else {
        (if lower is Some {
            " is not less than "@ + decimal(lower->0 as nat)
        } else {
            Seq::empty()
        }) + (if lower is Some && upper is Some {
            " and"@
        } else {
            Seq::empty()
        }) + (if upper is Some {
            " is not greater than "@ + decimal(upper->0 as nat)
        } else {
            Seq::empty()
        })
    }
}

/// Appends the text of `bound_clauses`.
pub fn push_bound_clauses(text: &mut String, lower: Option<usize>, upper: Option<usize>, exact: bool)
    ensures
        final(text)@ == old(text)@ + bound_clauses(lower, upper, exact),
{
    if exact && lower.is_some() && upper.is_some() && lower.unwrap() == upper.unwrap() {
        text.append(" is exactly ");
        let n = numeral(lower.unwrap());
        text.append(n.as_str());
        assert(text@ =~= old(text)@ + bound_clauses(lower, upper, exact));
    } else {
        let ghost start = text@;
        let ghost first: Seq<char> = if lower is Some {
            " is not less than "@ + decimal(lower->0 as nat)
        } else {
            Seq::empty()
        };
        let ghost second: Seq<char> = if lower is Some && upper is Some {
            " and"@
        } else {
            Seq::empty()
        };
        if let Some(min) = lower {
            text.append(" is not less than ");
            let n = numeral(min);
            text.append(n.as_str());
        }
        assert(text@ =~= start + first);
        if lower.is_some() && upper.is_some() {
            text.append(" and");
        }
        assert(text@ =~= start + first + second);
        if let Some(max) = upper {
            text.append(" is not greater than ");
            let n = numeral(max);
            text.append(n.as_str());
        }
        assert(text@ =~= old(text)@ + bound_clauses(lower, upper, exact));
    }
}

} // verus!
