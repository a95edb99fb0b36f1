//! The complexity prior over joined hypotheses, which favours single basic
//! hypotheses over conjunctions and disjunctions of two.

use rand::rngs::StdRng;
use vstd::prelude::*;

use crate::distribution::{
    keys_distinct, mass, pairwise_distinct, weights_positive, Distribution, InferenceError,
};
use crate::hypotheses::{obviation, sampleable, BasicHypothesis, JoinedHypothesis, Remainder};
use crate::hypothesis::Hypothesis;
use crate::triangles::Study;

verus! {

/// How many samples decide whether a joined hypothesis is substantial.
pub const SUBSTANTIALITY_SAMPLES: usize = 50;

/// Whether two basic hypotheses may be joined: neither obviates the other.
pub open spec fn joinable(a: BasicHypothesis, b: BasicHypothesis) -> bool {
    !obviation(a, b) && !obviation(b, a)
}

/// Whether sampling has shown the hypothesis to be neither a tautology nor a
/// contradiction.
pub open spec fn shown_substantial(h: JoinedHypothesis) -> bool {
    &&& exists|s: Study| sampleable(s@) && h.holds(s)
    &&& exists|s: Study| sampleable(s@) && !h.holds(s)
}

/// The joined hypothesis that a position code stands for: `(-1, k, 0)` for
/// basic hypothesis `k` alone, `(i, j, 1)` for `i` and `j`, `(i, j, 2)` for
/// `i` or `j`.
spec fn decode(basics: Seq<BasicHypothesis>, c: (int, int, int)) -> JoinedHypothesis {
    if c.0 < 0 {
        JoinedHypothesis { proposition: basics[c.1], remainder: Remainder::FullStop }
    } else if c.2 == 1 {
        JoinedHypothesis { proposition: basics[c.0], remainder: Remainder::And(basics[c.1]) }
    } else {
        JoinedHypothesis { proposition: basics[c.0], remainder: Remainder::Or(basics[c.1]) }
    }
}

spec fn valid_code(n: int, c: (int, int, int)) -> bool {
    ||| (c.0 == -1 && 0 <= c.1 < n && c.2 == 0)
    ||| (0 <= c.0 < c.1 < n && (c.2 == 1 || c.2 == 2))
}

spec fn code_lt(a: (int, int, int), b: (int, int, int)) -> bool {
    a.0 < b.0 || (a.0 == b.0 && (a.1 < b.1 || (a.1 == b.1 && a.2 < b.2)))
}

proof fn lemma_decode_injective(basics: Seq<BasicHypothesis>, a: (int, int, int), b: (int, int, int))
    requires
        pairwise_distinct(basics),
        valid_code(basics.len() as int, a),
        valid_code(basics.len() as int, b),
        a != b,
    ensures
        decode(basics, a) != decode(basics, b),
{
    if a.0 >= 0 && b.0 >= 0 && a.2 == b.2 {
        if a.0 != b.0 {
            if a.0 < b.0 {
                assert(basics[a.0] != basics[b.0]);
            } else {
                assert(basics[b.0] != basics[a.0]);
            }
        } else if a.1 < b.1 {
            assert(basics[a.1] != basics[b.1]);
        } else {
            assert(basics[b.1] != basics[a.1]);
        }
    } else if a.0 < 0 && b.0 < 0 {
        if a.1 < b.1 {
            assert(basics[a.1] != basics[b.1]);
        } else {
            assert(basics[b.1] != basics[a.1]);
        }
    }
}

/// The entries of the complexity prior: each basic hypothesis alone, with
/// weight `2n`, in order.
pub open spec fn full_stops(basics: Seq<BasicHypothesis>) -> Seq<(JoinedHypothesis, u64)> {
    Seq::new(
        basics.len(),
        |k: int|
            (
                JoinedHypothesis { proposition: basics[k], remainder: Remainder::FullStop },
                (2 * basics.len()) as u64,
            ),
    )
}

/// The joins of the pair `i`, `j` that the prior keeps, with weight one:
/// none when either obviates the other; otherwise the conjunction when
/// `verdicts[i][j].0` and the disjunction when `verdicts[i][j].1`.
pub open spec fn pair_entries(
    basics: Seq<BasicHypothesis>,
    verdicts: Seq<Seq<(bool, bool)>>,
    i: int,
    j: int,
) -> Seq<(JoinedHypothesis, u64)> {
    if joinable(basics[i], basics[j]) {
        (if verdicts[i][j].0 {
            seq![(JoinedHypothesis { proposition: basics[i], remainder: Remainder::And(basics[j]) }, 1u64)]
        } else {
            Seq::empty()
        }) + (if verdicts[i][j].1 {
            seq![(JoinedHypothesis { proposition: basics[i], remainder: Remainder::Or(basics[j]) }, 1u64)]
        } else {
            Seq::empty()
        })
    } else {
        Seq::empty()
    }
}

/// The kept joins of `i` with each of `i + 1 .. j`, in order.
pub open spec fn row_entries(
    basics: Seq<BasicHypothesis>,
    verdicts: Seq<Seq<(bool, bool)>>,
    i: int,
    j: int,
) -> Seq<(JoinedHypothesis, u64)>
    decreases j - i,
{
    if j <= i + 1 {
        Seq::empty()
    } else {
        row_entries(basics, verdicts, i, j - 1) + pair_entries(basics, verdicts, i, j - 1)
    }
}

/// The kept joins of the pairs whose first member comes before `i`, in
/// order.
pub open spec fn join_entries(
    basics: Seq<BasicHypothesis>,
    verdicts: Seq<Seq<(bool, bool)>>,
    i: int,
) -> Seq<(JoinedHypothesis, u64)>
    decreases i,
{
    if i <= 0 {
        Seq::empty()
    } else {
        join_entries(basics, verdicts, i - 1) + row_entries(basics, verdicts, i - 1, basics.len() as int)
    }
}

/// The verdicts as a matrix of plain values.
pub open spec fn matrix(verdicts: Vec<Vec<(bool, bool)>>) -> Seq<Seq<(bool, bool)>> {
    verdicts@.map_values(|row: Vec<(bool, bool)>| row@)
}

/// Whether the verdict on the join that a position code stands for is to
/// keep it.
spec fn kept(verdicts: Seq<Seq<(bool, bool)>>, c: (int, int, int)) -> bool {
    &&& c.2 == 1 ==> verdicts[c.0][c.1].0
    &&& c.2 == 2 ==> verdicts[c.0][c.1].1
}

/// Whether each entry past the first `n` has weight one and stands for a
/// kept join of two joinable basic hypotheses.
spec fn joins_ok(
    basics: Seq<BasicHypothesis>,
    vm: Seq<Seq<(bool, bool)>>,
    entries: Seq<(JoinedHypothesis, u64)>,
    codes: Seq<(int, int, int)>,
    n: int,
) -> bool {
    forall|q: int|
        n <= q < entries.len() ==> {
            &&& (#[trigger] entries[q]).1 == 1
            &&& codes[q].0 >= 0
            &&& kept(vm, codes[q])
            &&& joinable(basics[codes[q].0], basics[codes[q].1])
        }
}

/// Builds the complexity prior over the given distinct basic hypotheses,
/// keeping the joins that `verdicts` keeps.
///
/// Each basic hypothesis alone gets weight `2n` (`n` the number of basics);
/// each conjunction and each disjunction of a pair `i < j` gets weight one,
/// unless either hypothesis obviates the other, or its verdict
/// (`verdicts[i][j].0` for the conjunction, `.1` for the disjunction) is
/// `false`, in which case it is left out. A single hypothesis thus weighs
/// `2n` times as much as a join, the shares `(2/3)/n` and `(1/3)/n^2`
/// that the prior has in mind; the probabilities are always the weights
/// over their total, so the distribution is renormalized after pruning.
#[verifier::rlimit(80)]
pub fn complexity_prior_given(
    basic_hypotheses: Vec<BasicHypothesis>,
    verdicts: &Vec<Vec<(bool, bool)>>,
) -> (r: Result<Distribution<JoinedHypothesis>, InferenceError>)
    requires
        pairwise_distinct(basic_hypotheses@),
        basic_hypotheses@.len() < 0x8000_0000,
        verdicts@.len() == basic_hypotheses@.len(),
        forall|i: int| 0 <= i < verdicts@.len() ==> #[trigger] verdicts@[i]@.len() == basic_hypotheses@.len(),
    ensures
        basic_hypotheses@.len() == 0 <==> r == Err::<Distribution<JoinedHypothesis>, InferenceError>(
            InferenceError::ConfigurationError,
        ),
        basic_hypotheses@.len() > 0 <==> r is Ok,
        r matches Ok(d) ==> {
            let n = basic_hypotheses@.len();
            let v = matrix(*verdicts);
            &&& d@ == full_stops(basic_hypotheses@) + join_entries(basic_hypotheses@, v, n as int)
            &&& d.well_formed()
            &&& n <= d@.len()
            &&& forall|q: int|
                n <= q < d@.len() ==> exists|i: int, j: int|
                    0 <= i < j < n && (#[trigger] d@[q]).0.proposition == basic_hypotheses@[i] && (
                    (d@[q].0.remainder == Remainder::And(basic_hypotheses@[j]) && v[i][j].0)
                        || (d@[q].0.remainder == Remainder::Or(basic_hypotheses@[j]) && v[i][j].1))
            &&& forall|q: int|
                0 <= q < d@.len() ==> match (#[trigger] d@[q]).0.remainder {
                    Remainder::And(b) => joinable(d@[q].0.proposition, b),
                    Remainder::Or(b) => joinable(d@[q].0.proposition, b),
                    Remainder::FullStop => true,
                }
        },
{
    let n = basic_hypotheses.len();
    if n == 0 {
        return Err(InferenceError::ConfigurationError);
    }
    let ghost basics = basic_hypotheses@;
    let ghost vm = matrix(*verdicts);
    let weight_each_basic: u64 = 2 * (n as u64);
    let mut entries: Vec<(JoinedHypothesis, u64)> = Vec::new();
    let ghost mut codes: Seq<(int, int, int)> = Seq::empty();
    let mut k: usize = 0;
    while k < n
        invariant
            n == basics.len(),
            0 < n < 0x8000_0000,
            basics == basic_hypotheses@,
            weight_each_basic == 2 * n,
            k <= n,
            entries@.len() == k,
            codes.len() == k,
            mass(entries@) == 2 * n * k,
            forall|q: int| 0 <= q < k ==> #[trigger] codes[q] == (-1int, q, 0int),
            forall|q: int|
                0 <= q < k ==> #[trigger] entries@[q] == (
                JoinedHypothesis { proposition: basics[q], remainder: Remainder::FullStop },
                weight_each_basic,
            ),
        decreases n - k,
    {
        proof {
            assert(2 * n * (k + 1) == 2 * n * k + 2 * n) by (nonlinear_arith);
        }
        let ghost before = entries@;
        entries.push((JoinedHypothesis::full_stop(basic_hypotheses[k]), weight_each_basic));
        proof {
            codes = codes.push((-1int, k as int, 0int));
            assert(entries@.drop_last() =~= before);
        }
        k += 1;
    }
    proof {
        assert(2 * n * n == 2 * (n * n)) by (nonlinear_arith);
        assert(entries@ =~= full_stops(basics) + join_entries(basics, vm, 0));
    }
    let mut i: usize = 0;
    while i < n
        invariant
            n == basics.len(),
            0 < n < 0x8000_0000,
            basics == basic_hypotheses@,
            pairwise_distinct(basics),
            vm == matrix(*verdicts),
            verdicts@.len() == n,
            forall|r: int| 0 <= r < n ==> #[trigger] verdicts@[r]@.len() == n,
            entries@ == full_stops(basics) + join_entries(basics, vm, i as int),
            i <= n,
            n <= entries@.len(),
            entries@.len() == codes.len(),
            entries@.len() - n <= 2 * (i * n),
            mass(entries@) == 2 * (n * n) + (entries@.len() - n),
            forall|q: int| 0 <= q < codes.len() ==> valid_code(n as int, #[trigger] codes[q]),
            forall|q: int|
                0 <= q < codes.len() ==> #[trigger] entries@[q].0 == decode(basics, codes[q]),
            forall|q1: int, q2: int|
                0 <= q1 < q2 < codes.len() ==> code_lt(#[trigger] codes[q1], #[trigger] codes[q2]),
            forall|q: int| 0 <= q < codes.len() ==> (#[trigger] codes[q]).0 < i,
            forall|q: int|
                0 <= q < n ==> #[trigger] entries@[q] == (
                JoinedHypothesis { proposition: basics[q], remainder: Remainder::FullStop },
                (2 * n) as u64,
            ),
            joins_ok(basics, vm, entries@, codes, n as int),
        decreases n - i,
    {
        let mut j: usize = i + 1;
        proof {
            assert(i * n + n == (i + 1) * n) by (nonlinear_arith);
        }
        while j < n
            invariant
                n == basics.len(),
                0 < n < 0x8000_0000,
                basics == basic_hypotheses@,
                pairwise_distinct(basics),
                vm == matrix(*verdicts),
                verdicts@.len() == n,
                forall|r: int| 0 <= r < n ==> #[trigger] verdicts@[r]@.len() == n,
                entries@ == full_stops(basics) + join_entries(basics, vm, i as int) + row_entries(
                    basics,
                    vm,
                    i as int,
                    j as int,
                ),
                i < n,
                i < j <= n,
                n <= entries@.len(),
                entries@.len() == codes.len(),
                entries@.len() - n <= 2 * (i * n + j),
                mass(entries@) == 2 * (n * n) + (entries@.len() - n),
                forall|q: int| 0 <= q < codes.len() ==> valid_code(n as int, #[trigger] codes[q]),
                forall|q: int|
                    0 <= q < codes.len() ==> #[trigger] entries@[q].0 == decode(basics, codes[q]),
                forall|q1: int, q2: int|
                    0 <= q1 < q2 < codes.len() ==> code_lt(
                        #[trigger] codes[q1],
                        #[trigger] codes[q2],
                    ),
                forall|q: int|
                    0 <= q < codes.len() ==> code_lt(#[trigger] codes[q], (i as int, j as int, 0int)),
                forall|q: int|
                    0 <= q < n ==> #[trigger] entries@[q] == (
                    JoinedHypothesis { proposition: basics[q], remainder: Remainder::FullStop },
                    (2 * n) as u64,
                ),
                joins_ok(basics, vm, entries@, codes, n as int),
            decreases n - j,
        {
            let one_basic = basic_hypotheses[i];
            let another_basic = basic_hypotheses[j];
            let ghost at_pair = entries@;
            assert(vm[i as int] == verdicts@[i as int]@);
            if !one_basic.obviates(&another_basic) && !another_basic.obviates(&one_basic) {
                let conjunction = JoinedHypothesis::and(one_basic, another_basic);
                if verdicts[i][j].0 {
                    let ghost before = entries@;
                    let ghost before_codes = codes;
                    entries.push((conjunction, 1u64));
                    proof {
                        codes = codes.push((i as int, j as int, 1int));
                        assert(entries@.drop_last() =~= before);
                        assert(mass(entries@) == mass(before) + 1);
                        assert forall|q: int| n <= q < entries@.len() implies {
                            &&& (#[trigger] entries@[q]).1 == 1
                            &&& codes[q].0 >= 0
                            &&& kept(vm, codes[q])
                            &&& joinable(basics[codes[q].0], basics[codes[q].1])
                        } by {
                            if q < before.len() {
                                assert(entries@[q] == before[q]);
                                assert(codes[q] == before_codes[q]);
                            } else {
                                assert(entries@[q] == (conjunction, 1u64));
                                assert(codes[q] == (i as int, j as int, 1int));
                                assert(vm[i as int][j as int].0);
                            }
                        }
                        assert(joins_ok(basics, vm, entries@, codes, n as int));
                        assert forall|q: int| 0 <= q < codes.len() implies code_lt(
                            #[trigger] codes[q],
                            (i as int, j as int, 2int),
                        ) by {
                            if q < before_codes.len() {
                                assert(codes[q] == before_codes[q]);
                            }
                        }
                        assert forall|q1: int, q2: int| 0 <= q1 < q2 < codes.len() implies code_lt(
                            #[trigger] codes[q1],
                            #[trigger] codes[q2],
                        ) by {
                            if q2 < before_codes.len() {
                                assert(codes[q1] == before_codes[q1]);
                                assert(codes[q2] == before_codes[q2]);
                            } else {
                                assert(codes[q1] == before_codes[q1]);
                            }
                        }
                    }
                }
                let disjunction = JoinedHypothesis::or(one_basic, another_basic);
                if verdicts[i][j].1 {
                    let ghost before = entries@;
                    let ghost before_codes = codes;
                    entries.push((disjunction, 1u64));
                    proof {
                        codes = codes.push((i as int, j as int, 2int));
                        assert(entries@.drop_last() =~= before);
                        assert(mass(entries@) == mass(before) + 1);
                        assert forall|q: int| n <= q < entries@.len() implies {
                            &&& (#[trigger] entries@[q]).1 == 1
                            &&& codes[q].0 >= 0
                            &&& kept(vm, codes[q])
                            &&& joinable(basics[codes[q].0], basics[codes[q].1])
                        } by {
                            if q < before.len() {
                                assert(entries@[q] == before[q]);
                                assert(codes[q] == before_codes[q]);
                            } else {
                                assert(entries@[q] == (disjunction, 1u64));
                                assert(codes[q] == (i as int, j as int, 2int));
                                assert(vm[i as int][j as int].1);
                            }
                        }
                        assert(joins_ok(basics, vm, entries@, codes, n as int));
                        assert forall|q1: int, q2: int| 0 <= q1 < q2 < codes.len() implies code_lt(
                            #[trigger] codes[q1],
                            #[trigger] codes[q2],
                        ) by {
                            if q2 < before_codes.len() {
                                assert(codes[q1] == before_codes[q1]);
                                assert(codes[q2] == before_codes[q2]);
                            } else {
                                assert(codes[q1] == before_codes[q1]);
                            }
                        }
                    }
                }
            }
            proof {
                assert(entries@ =~= at_pair + pair_entries(basics, vm, i as int, j as int));
                assert(entries@ =~= full_stops(basics) + join_entries(basics, vm, i as int)
                    + row_entries(basics, vm, i as int, j + 1));
                assert forall|q: int| 0 <= q < codes.len() implies code_lt(
                    #[trigger] codes[q],
                    (i as int, j + 1, 0int),
                ) by {}
            }
            j += 1;
        }
        proof {
            assert forall|q: int| 0 <= q < codes.len() implies (#[trigger] codes[q]).0 < i + 1 by {}
            assert(entries@ =~= full_stops(basics) + join_entries(basics, vm, i + 1));
        }
        i += 1;
    }
    proof {
        assert(n * n < 0x4000_0000_0000_0000) by (nonlinear_arith)
            requires
                n < 0x8000_0000,
        ;
        assert(i * n == n * n);
        assert forall|q1: int, q2: int| 0 <= q1 < q2 < entries@.len() implies entries@[q1].0
            != entries@[q2].0 by {
            assert(code_lt(codes[q1], codes[q2]));
            lemma_decode_injective(basics, codes[q1], codes[q2]);
        }
        assert(keys_distinct(entries@));
        assert forall|q: int| 0 <= q < entries@.len() implies #[trigger] entries@[q].1 > 0 by {}
        assert(weights_positive(entries@));
        assert forall|q: int| n <= q < entries@.len() implies exists|a: int, b: int|
            0 <= a < b < n && (#[trigger] entries@[q]).0.proposition == basics[a] && (
            (entries@[q].0.remainder == Remainder::And(basics[b]) && vm[a][b].0)
                || (entries@[q].0.remainder == Remainder::Or(basics[b]) && vm[a][b].1)) by {
            assert(entries@[q].0 == decode(basics, codes[q]));
        }
        assert forall|q: int| 0 <= q < entries@.len() implies match (#[trigger] entries@[q]).0.remainder {
            Remainder::And(b) => joinable(entries@[q].0.proposition, b),
            Remainder::Or(b) => joinable(entries@[q].0.proposition, b),
            Remainder::FullStop => true,
        } by {
            assert(entries@[q].0 == decode(basics, codes[q]));
        }
    }
    Ok(Distribution::from_weights(entries))
}

/// Builds the complexity prior over the given distinct basic hypotheses,
/// as `complexity_prior_given` does, with the verdicts of sampling: a join
/// is kept when `check_substantiality` over `SUBSTANTIALITY_SAMPLES` draws
/// shows it neither a tautology nor a contradiction.
pub fn complexity_prior(basic_hypotheses: Vec<BasicHypothesis>, rng: &mut StdRng) -> (r: Result<
    Distribution<JoinedHypothesis>,
    InferenceError,
>)
    requires
        pairwise_distinct(basic_hypotheses@),
        basic_hypotheses@.len() < 0x8000_0000,
    ensures
        basic_hypotheses@.len() == 0 <==> r == Err::<Distribution<JoinedHypothesis>, InferenceError>(
            InferenceError::ConfigurationError,
        ),
        basic_hypotheses@.len() > 0 <==> r is Ok,
        r matches Ok(d) ==> {
            let n = basic_hypotheses@.len();
            &&& d.well_formed()
            &&& n <= d@.len()
            &&& d@.take(n as int) == full_stops(basic_hypotheses@)
            &&& forall|q: int|
                n <= q < d@.len() ==> {
                    &&& (#[trigger] d@[q]).1 == 1
                    &&& exists|i: int, j: int|
                        0 <= i < j < n && d@[q].0.proposition == basic_hypotheses@[i] && (
                        d@[q].0.remainder == Remainder::And(basic_hypotheses@[j])
                            || d@[q].0.remainder == Remainder::Or(basic_hypotheses@[j]))
                    &&& shown_substantial(d@[q].0)
                }
            &&& forall|q: int|
                0 <= q < d@.len() ==> match (#[trigger] d@[q]).0.remainder {
                    Remainder::And(b) => joinable(d@[q].0.proposition, b),
                    Remainder::Or(b) => joinable(d@[q].0.proposition, b),
                    Remainder::FullStop => true,
                }
        },
{
    let n = basic_hypotheses.len();
    let ghost basics = basic_hypotheses@;
    let mut verdicts: Vec<Vec<(bool, bool)>> = Vec::new();
    let mut i: usize = 0;
    while i < n
        invariant
            n == basics.len(),
            basics == basic_hypotheses@,
            i <= n,
            verdicts@.len() == i,
            forall|r: int| 0 <= r < i ==> #[trigger] verdicts@[r]@.len() == n,
            forall|a: int, b: int|
                0 <= a < i && 0 <= a < b < n ==> {
                    &&& (#[trigger] verdicts@[a]@[b]).0 ==> shown_substantial(
                        JoinedHypothesis { proposition: basics[a], remainder: Remainder::And(basics[b]) },
                    )
                    &&& verdicts@[a]@[b].1 ==> shown_substantial(
                        JoinedHypothesis { proposition: basics[a], remainder: Remainder::Or(basics[b]) },
                    )
                },
        decreases n - i,
    {
        let mut row: Vec<(bool, bool)> = Vec::new();
        let mut j: usize = 0;
        while j < n
            invariant
                n == basics.len(),
                basics == basic_hypotheses@,
                i < n,
                j <= n,
                row@.len() == j,
                forall|b: int|
                    0 <= b < j && i < b ==> {
                        &&& (#[trigger] row@[b]).0 ==> shown_substantial(
                            JoinedHypothesis {
                                proposition: basics[i as int],
                                remainder: Remainder::And(basics[b]),
                            },
                        )
                        &&& row@[b].1 ==> shown_substantial(
                            JoinedHypothesis {
                                proposition: basics[i as int],
                                remainder: Remainder::Or(basics[b]),
                            },
                        )
                    },
            decreases n - j,
        {
            let one_basic = basic_hypotheses[i];
            let another_basic = basic_hypotheses[j];
            let verdict = if i < j && !one_basic.obviates(&another_basic)
                && !another_basic.obviates(&one_basic) {
                let conjunction = JoinedHypothesis::and(one_basic, another_basic);
                let keep_conjunction = conjunction.check_substantiality(SUBSTANTIALITY_SAMPLES, rng);
                let disjunction = JoinedHypothesis::or(one_basic, another_basic);
                let keep_disjunction = disjunction.check_substantiality(SUBSTANTIALITY_SAMPLES, rng);
                (keep_conjunction, keep_disjunction)
            } else {
                (false, false)
            };
            row.push(verdict);
            j += 1;
        }
        verdicts.push(row);
        i += 1;
    }
    let r = complexity_prior_given(basic_hypotheses, &verdicts);
    proof {
        if r is Ok {
            let d = r->Ok_0;
            let v = matrix(verdicts);
            assert(d@.take(n as int) =~= full_stops(basics));
            assert forall|q: int| n <= q < d@.len() implies {
                &&& (#[trigger] d@[q]).1 == 1
                &&& exists|i: int, j: int|
                    0 <= i < j < n && d@[q].0.proposition == basics[i] && (
                    d@[q].0.remainder == Remainder::And(basics[j])
                        || d@[q].0.remainder == Remainder::Or(basics[j]))
                &&& shown_substantial(d@[q].0)
            } by {
                let (a, b) = choose|a: int, b: int|
                    0 <= a < b < n && (#[trigger] d@[q]).0.proposition == basics[a] && (
                    (d@[q].0.remainder == Remainder::And(basics[b]) && v[a][b].0)
                        || (d@[q].0.remainder == Remainder::Or(basics[b]) && v[a][b].1));
                assert(v[a][b] == verdicts@[a]@[b]);
                assert(d@ == full_stops(basics) + join_entries(basics, v, n as int));
                lemma_join_weights(basics, v, n as int);
                assert(d@[q] == join_entries(basics, v, n as int)[q - n]);
            }
        }
    }
    r
}

proof fn lemma_pair_weights(basics: Seq<BasicHypothesis>, v: Seq<Seq<(bool, bool)>>, i: int, j: int)
    ensures
        forall|q: int| 0 <= q < pair_entries(basics, v, i, j).len() ==> #[trigger] pair_entries(basics, v, i, j)[q].1 == 1,
{
}

proof fn lemma_row_weights(basics: Seq<BasicHypothesis>, v: Seq<Seq<(bool, bool)>>, i: int, j: int)
    ensures
        forall|q: int| 0 <= q < row_entries(basics, v, i, j).len() ==> #[trigger] row_entries(basics, v, i, j)[q].1 == 1,
    decreases j - i,
{
    if j > i + 1 {
        lemma_row_weights(basics, v, i, j - 1);
        lemma_pair_weights(basics, v, i, j - 1);
        let a = row_entries(basics, v, i, j - 1);
        let b = pair_entries(basics, v, i, j - 1);
        assert forall|q: int| 0 <= q < (a + b).len() implies #[trigger] (a + b)[q].1 == 1 by {
            if q < a.len() {
                assert((a + b)[q] == a[q]);
            } else {
                assert((a + b)[q] == b[q - a.len()]);
            }
        }
    }
}

/// Every join entry has weight one.
proof fn lemma_join_weights(basics: Seq<BasicHypothesis>, v: Seq<Seq<(bool, bool)>>, i: int)
    ensures
        forall|q: int| 0 <= q < join_entries(basics, v, i).len() ==> #[trigger] join_entries(basics, v, i)[q].1 == 1,
    decreases i,
{
    if i > 0 {
        lemma_join_weights(basics, v, i - 1);
        lemma_row_weights(basics, v, i - 1, basics.len() as int);
        let a = join_entries(basics, v, i - 1);
        let b = row_entries(basics, v, i - 1, basics.len() as int);
        assert forall|q: int| 0 <= q < (a + b).len() implies #[trigger] (a + b)[q].1 == 1 by {
            if q < a.len() {
                assert((a + b)[q] == a[q]);
            } else {
                assert((a + b)[q] == b[q - a.len()]);
            }
        }
    }
}

} // verus!
