//! Geometric sequences: a constant ratio between neighbours.

use vstd::prelude::*;
use rand::rngs::SmallRng;
use crate::config::Difficulty;
use crate::random::draw_i64;
use super::{magnitude, Sequence, SequenceKind};

verus! {

/// The largest first term drawn at a difficulty.
pub open spec fn geometric_start_max(d: Difficulty) -> int {
    match d {
        Difficulty::Easy => 10,
        Difficulty::Medium => 20,
        Difficulty::Hard => 50,
    }
}

/// The largest ratio drawn at a difficulty.
pub open spec fn geometric_ratio_max(d: Difficulty) -> int {
    match d {
        Difficulty::Easy => 3,
        Difficulty::Medium => 4,
        Difficulty::Hard => 5,
    }
}

/// No term of a geometric sequence reaches this size.
pub open spec fn geometric_limit() -> int {
    1_000_000
}

/// `b` to the power `e`.
pub open spec fn pow(b: int, e: nat) -> int
    decreases e,
{
    if e == 0 {
        1
    } else {
        b * pow(b, (e - 1) as nat)
    }
}

/// Term `i` (counted from 0) of the sequence with first term `start` and ratio `ratio`.
pub open spec fn geometric_term(start: int, ratio: int, i: nat) -> int {
    start * pow(ratio, i)
}

/// `terms` and then `answer` are the terms 0, 1, ... of the sequence with
/// first term `start` and ratio `ratio`.
pub open spec fn follows_geometric(terms: Seq<i64>, answer: i64, start: int, ratio: int) -> bool {
    &&& forall|i: int| 0 <= i < terms.len() ==> #[trigger] terms[i] == geometric_term(start, ratio, i as nat)
    &&& answer == geometric_term(start, ratio, terms.len())
}

/// A first term and a ratio that the generator can draw at difficulty `d`.
pub open spec fn geometric_draw(d: Difficulty, start: int, ratio: int) -> bool {
    &&& 1 <= start <= geometric_start_max(d)
    &&& 2 <= ratio <= geometric_ratio_max(d)
}

/// Every visible term and the answer are below the limit in size.
pub open spec fn within_geometric_limit(terms: Seq<i64>, answer: i64) -> bool {
    &&& forall|i: int| 0 <= i < terms.len() ==> magnitude(#[trigger] terms[i] as int) < geometric_limit()
    &&& magnitude(answer as int) < geometric_limit()
}

/// `n` visible terms and the next one of a geometric sequence that the
/// generator can produce at difficulty `d`.
pub open spec fn is_geometric_of(d: Difficulty, n: nat, terms: Seq<i64>, answer: i64) -> bool {
    &&& terms.len() == n
    &&& within_geometric_limit(terms, answer)
    &&& exists|start: int, ratio: int|
        geometric_draw(d, start, ratio) && #[trigger] follows_geometric(terms, answer, start, ratio)
}

/// Terms 0 to `n` of the sequence stay within `i64`.
pub open spec fn geometric_fits(start: int, ratio: int, n: nat) -> bool {
    &&& 1 <= start
    &&& 1 <= ratio
    &&& start * pow(ratio, n) <= i64::MAX
}

/// The generator ends: with at most 19 visible terms the draw of first
/// term 1 and ratio 2 stays below the limit. With more, no draw does.
pub open spec fn geometric_generable(n: nat) -> bool {
    n <= 19
}

/// Term `i + 1` times term 0 equals term `i` times term 1: each term is the
/// one before times the same ratio.
pub open spec fn ratio_step(s: Seq<i64>, i: int) -> bool {
    s[i + 1] * s[0] == s[i] * s[1]
}

/// Neighbours keep one ratio throughout, starting from a positive term.
pub open spec fn constant_ratio(s: Seq<i64>) -> bool {
    &&& s.len() > 0 ==> s[0] > 0
    &&& forall|i: int| 0 <= i && i + 1 < s.len() ==> #[trigger] ratio_step(s, i)
}

proof fn lemma_pow_base_monotone(b1: int, b2: int, e: nat)
    requires
        1 <= b1 <= b2,
    ensures
        1 <= pow(b1, e) <= pow(b2, e),
    decreases e,
{
    if e > 0 {
        lemma_pow_base_monotone(b1, b2, (e - 1) as nat);
        let p1 = pow(b1, (e - 1) as nat);
        let p2 = pow(b2, (e - 1) as nat);
        assert(1 <= b1 * p1 <= b2 * p2) by (nonlinear_arith)
            requires
                1 <= b1 <= b2,
                1 <= p1 <= p2,
        ;
    }
}

pub proof fn lemma_pow_increases(b: int, e1: nat, e2: nat)
    requires
        1 <= b,
        e1 <= e2,
    ensures
        1 <= pow(b, e1) <= pow(b, e2),
    decreases e2,
{
    lemma_pow_base_monotone(1, b, e1);
    if e1 < e2 {
        lemma_pow_increases(b, e1, (e2 - 1) as nat);
        let p = pow(b, (e2 - 1) as nat);
        assert(p <= b * p) by (nonlinear_arith)
            requires
                1 <= b,
                1 <= p,
        ;
    }
}

/// A first term and ratio whose terms up to `n` fit have each term up to
/// `n` between 1 and the last.
proof fn lemma_geometric_term_bounds(start: int, ratio: int, i: nat, n: nat)
    requires
        geometric_fits(start, ratio, n),
        i <= n,
    ensures
        1 <= geometric_term(start, ratio, i) <= start * pow(ratio, n),
        1 <= pow(ratio, i) <= pow(ratio, n),
{
    lemma_pow_increases(ratio, i, n);
    let pi = pow(ratio, i);
    let pn = pow(ratio, n);
    assert(1 <= start * pi <= start * pn) by (nonlinear_arith)
        requires
            1 <= start,
            1 <= pi <= pn,
    ;
}

/// Every draw at difficulty `d` and up to 19 visible terms fits `i64`.
proof fn lemma_geometric_draw_fits(d: Difficulty, start: int, ratio: int, n: nat)
    requires
        geometric_draw(d, start, ratio),
        geometric_generable(n),
    ensures
        geometric_fits(start, ratio, n),
{
    lemma_pow_base_monotone(ratio, 5, n);
    lemma_pow_increases(5, n, 19);
    assert(pow(5, 19) == 19073486328125) by {
        reveal_with_fuel(pow, 20);
    }
    let p = pow(ratio, n);
    assert(start * p <= 50 * 19073486328125) by (nonlinear_arith)
        requires
            1 <= start <= 50,
            1 <= p <= 19073486328125,
    ;
}

/// `base` to the power `exp`.
fn power(base: i64, exp: u32, Ghost(n): Ghost<nat>, Ghost(start): Ghost<int>) -> (r: i64)
    requires
        geometric_fits(start, base as int, n),
        exp <= n,
    ensures
        r == pow(base as int, exp as nat),
{
    let mut acc: i64 = 1;
    let mut k: u32 = 0;
    while k < exp
        invariant
            k <= exp <= n,
            geometric_fits(start, base as int, n),
            acc == pow(base as int, k as nat),
        decreases exp - k,
    {
        proof {
            lemma_geometric_term_bounds(start, base as int, (k + 1) as nat, n);
            lemma_geometric_term_bounds(start, base as int, n, n);
            let pn = pow(base as int, n);
            assert(pn <= start * pn) by (nonlinear_arith)
                requires
                    1 <= start,
                    1 <= pn,
            ;
            assert(pow(base as int, (k + 1) as nat) == base * pow(base as int, k as nat));
            assert(acc * base == base * acc) by (nonlinear_arith);
        }
        acc = acc * base;
        k = k + 1;
    }
    acc
}

/// A geometric sequence of the generator.
pub struct GeometricSeq {
    terms: Vec<i64>,
    answer: i64,
}

impl GeometricSeq {
    /// The sequence with first term `start` and ratio `ratio`, showing
    /// `n_visible` terms. Nothing is checked against the size limit here.
    pub fn from_params(start: i64, ratio: i64, n_visible: usize) -> (r: Self)
        requires
            geometric_fits(start as int, ratio as int, n_visible as nat),
            n_visible < u32::MAX,
        ensures
            r.shown().len() == n_visible,
            follows_geometric(r.shown(), r.hidden(), start as int, ratio as int),
    {
        let mut terms: Vec<i64> = Vec::new();
        let last = n_visible as u32;
        let mut i: u32 = 0;
        while i <= last
            invariant
                i <= last + 1,
                last == n_visible,
                last < u32::MAX,
                geometric_fits(start as int, ratio as int, n_visible as nat),
                terms@.len() == i,
                forall|j: int| 0 <= j < i ==> #[trigger] terms@[j] == geometric_term(start as int, ratio as int, j as nat),
            decreases last + 1 - i,
        {
            let p = power(ratio, i, Ghost(n_visible as nat), Ghost(start as int));
            proof {
                lemma_geometric_term_bounds(start as int, ratio as int, i as nat, n_visible as nat);
            }
            terms.push(start * p);
            i = i + 1;
        }
        let answer = terms.pop().unwrap();
        GeometricSeq { terms, answer }
    }

    /// Whether every term, the answer included, is below the size limit.
    pub fn within_limit(&self) -> (r: bool)
        ensures
            r == within_geometric_limit(self.shown(), self.hidden()),
    {
        let mut k: usize = 0;
        while k < self.terms.len()
            invariant
                k <= self.terms@.len(),
                forall|j: int| 0 <= j < k ==> magnitude(#[trigger] self.terms@[j] as int) < geometric_limit(),
            decreases self.terms@.len() - k,
        {
            let t = self.terms[k];
            if !(-1_000_000 < t && t < 1_000_000) {
                return false;
            }
            k = k + 1;
        }
        -1_000_000 < self.answer && self.answer < 1_000_000
    }

    /// Draws a geometric sequence at difficulty `d` showing `n_visible`
    /// terms: a first term and a ratio, drawn again until every term is below
    /// the size limit. After `u64::MAX` rejected draws, a number that no run
    /// reaches, it settles on first term 1 and ratio 2.
    pub fn generate(difficulty: Difficulty, n_visible: usize, rng: &mut SmallRng) -> (r: Self)
        requires
            geometric_generable(n_visible as nat),
        ensures
            is_geometric_of(difficulty, n_visible as nat, r.shown(), r.hidden()),
    {
        let (start_max, ratio_max): (i64, i64) = match difficulty {
            Difficulty::Easy => (10, 3),
            Difficulty::Medium => (20, 4),
            Difficulty::Hard => (50, 5),
        };
        let mut attempts: u64 = 0;
        while attempts < u64::MAX
            invariant
                geometric_generable(n_visible as nat),
                start_max == geometric_start_max(difficulty),
                ratio_max == geometric_ratio_max(difficulty),
            decreases u64::MAX - attempts,
        {
            attempts = attempts + 1;
            let start = draw_i64(rng, 1, start_max);
            let ratio = draw_i64(rng, 2, ratio_max);
            proof {
                lemma_geometric_draw_fits(difficulty, start as int, ratio as int, n_visible as nat);
            }
            let candidate = Self::from_params(start, ratio, n_visible);
            if candidate.within_limit() {
                assert(geometric_draw(difficulty, start as int, ratio as int));
                return candidate;
            }
        }
        proof {
            lemma_geometric_draw_fits(difficulty, 1, 2, n_visible as nat);
        }
        let fallback = Self::from_params(1, 2, n_visible);
        proof {
            assert(pow(2, 19) == 524288) by {
                reveal_with_fuel(pow, 20);
            }
            lemma_pow_increases(2, n_visible as nat, 19);
            assert forall|i: int| 0 <= i < fallback.shown().len() implies
                magnitude(#[trigger] fallback.shown()[i] as int) < geometric_limit() by {
                lemma_geometric_term_bounds(1, 2, i as nat, n_visible as nat);
            }
            lemma_geometric_term_bounds(1, 2, n_visible as nat, n_visible as nat);
            assert(geometric_draw(difficulty, 1, 2));
        }
        fallback
    }
}

impl Sequence for GeometricSeq {
    closed spec fn shown(&self) -> Seq<i64> {
        self.terms@
    }

    closed spec fn hidden(&self) -> i64 {
        self.answer
    }

    open spec fn family(&self) -> SequenceKind {
        SequenceKind::Geometric
    }

    fn visible_terms(&self) -> (r: &[i64]) {
        self.terms.as_slice()
    }

    fn answer(&self) -> (r: i64) {
        self.answer
    }

    fn kind(&self) -> (r: SequenceKind) {
        SequenceKind::Geometric
    }
}

/// The visible terms of a generated geometric sequence, followed by the
/// answer, keep one ratio throughout, starting from a positive first term.
pub proof fn lemma_geometric_constant_ratio(d: Difficulty, n: nat, terms: Seq<i64>, answer: i64)
    requires
        is_geometric_of(d, n, terms, answer),
    ensures
        constant_ratio(terms.push(answer)),
{
    let (start, ratio) = choose|start: int, ratio: int|
        geometric_draw(d, start, ratio) && #[trigger] follows_geometric(terms, answer, start, ratio);
    let s = terms.push(answer);
    assert forall|i: int| 0 <= i < s.len() implies #[trigger] s[i] == start * pow(ratio, i as nat) by {
        if i < terms.len() {
            assert(s[i] == terms[i]);
        }
    }
    assert(pow(ratio, 0) == 1) by {
        reveal_with_fuel(pow, 1);
    }
    assert(pow(ratio, 1) == ratio) by {
        reveal_with_fuel(pow, 2);
    }
    assert(s[0] == start * 1);
    assert forall|i: int| 0 <= i && i + 1 < s.len() implies #[trigger] ratio_step(s, i) by {
        let p = pow(ratio, i as nat);
        assert(pow(ratio, (i + 1) as nat) == ratio * p);
        assert(s[i + 1] == start * (ratio * p));
        assert(s[i] == start * p);
        assert(s[1] == start * ratio);
        assert((start * (ratio * p)) * (start * 1) == (start * p) * (start * ratio)) by (nonlinear_arith);
    }
}

} // verus!
