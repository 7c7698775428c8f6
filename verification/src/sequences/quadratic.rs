//! Quadratic sequences: `a*m^2 + b*m + c` for `m = 1, 2, 3, ...`, so the
//! second differences are constant.

use vstd::prelude::*;
use rand::rngs::SmallRng;
use crate::config::Difficulty;
use crate::random::draw_i64;
use super::{Sequence, SequenceKind};

verus! {

/// The largest leading coefficient `a` drawn at a difficulty.
pub open spec fn quadratic_a_max(d: Difficulty) -> int {
    match d {
        Difficulty::Easy => 2,
        Difficulty::Medium => 4,
        Difficulty::Hard => 6,
    }
}

/// The largest linear coefficient `b` drawn at a difficulty.
pub open spec fn quadratic_b_max(d: Difficulty) -> int {
    match d {
        Difficulty::Easy => 3,
        Difficulty::Medium => 5,
        Difficulty::Hard => 10,
    }
}

/// The largest constant `c` drawn at a difficulty.
pub open spec fn quadratic_c_max(d: Difficulty) -> int {
    match d {
        Difficulty::Easy => 10,
        Difficulty::Medium => 20,
        Difficulty::Hard => 50,
    }
}

/// The value of `a*m^2 + b*m + c`.
pub open spec fn quadratic_value(a: int, b: int, c: int, m: int) -> int {
    a * m * m + b * m + c
}

/// `terms` and then `answer` are the values at `m = 1, 2, ...` of `a*m^2 + b*m + c`.
pub open spec fn follows_quadratic(terms: Seq<i64>, answer: i64, a: int, b: int, c: int) -> bool {
    &&& forall|i: int| 0 <= i < terms.len() ==> #[trigger] terms[i] == quadratic_value(a, b, c, i + 1)
    &&& answer == quadratic_value(a, b, c, terms.len() + 1 as int)
}

/// Coefficients that the generator can draw at difficulty `d`.
pub open spec fn quadratic_draw(d: Difficulty, a: int, b: int, c: int) -> bool {
    &&& 1 <= a <= quadratic_a_max(d)
    &&& 0 <= b <= quadratic_b_max(d)
    &&& 0 <= c <= quadratic_c_max(d)
}

/// `n` visible terms and the next one of a quadratic sequence that the
/// generator can produce at difficulty `d`.
pub open spec fn is_quadratic_of(d: Difficulty, n: nat, terms: Seq<i64>, answer: i64) -> bool {
    &&& terms.len() == n
    &&& exists|a: int, b: int, c: int|
        quadratic_draw(d, a, b, c) && #[trigger] follows_quadratic(terms, answer, a, b, c)
}

/// Nonnegative coefficients whose values up to `m = n + 1` stay within `i64`.
pub open spec fn quadratic_fits(a: int, b: int, c: int, n: nat) -> bool {
    &&& 0 <= a && 0 <= b && 0 <= c
    &&& quadratic_value(a, b, c, n + 1 as int) <= i64::MAX
    &&& n < usize::MAX
    &&& n < i64::MAX
}

/// Every draw at difficulty `d` gives `n + 1` terms within `i64`.
pub open spec fn quadratic_generable(d: Difficulty, n: nat) -> bool {
    quadratic_fits(quadratic_a_max(d), quadratic_b_max(d), quadratic_c_max(d), n)
}

/// The change in the difference between neighbours at position `i`.
pub open spec fn second_difference(s: Seq<i64>, i: int) -> int {
    s[i + 2] - 2 * s[i + 1] + s[i]
}

/// The differences between neighbours grow by the same amount throughout.
pub open spec fn constant_second_difference(s: Seq<i64>) -> bool {
    forall|i: int| 0 <= i && i + 2 < s.len() ==> #[trigger] second_difference(s, i) == second_difference(s, 0)
}

/// Each of `a*m*m`, `b*m` and their sum is between 0 and the value at the bound.
proof fn lemma_quadratic_parts(a: int, b: int, c: int, m: int, top: int)
    requires
        0 <= a && 0 <= b && 0 <= c,
        1 <= m <= top,
    ensures
        0 <= a * m <= a * m * m,
        0 <= b * m,
        0 <= a * m * m + b * m <= quadratic_value(a, b, c, m),
        quadratic_value(a, b, c, m) <= quadratic_value(a, b, c, top),
{
    assert(0 <= a * m <= a * m * m) by (nonlinear_arith)
        requires
            0 <= a,
            1 <= m,
    ;
    assert(0 <= b * m) by (nonlinear_arith)
        requires
            0 <= b,
            1 <= m,
    ;
    assert(a * m * m <= a * top * top && b * m <= b * top) by (nonlinear_arith)
        requires
            0 <= a,
            0 <= b,
            1 <= m <= top,
    ;
}

/// Larger coefficients give a larger value.
proof fn lemma_quadratic_monotone(a: int, b: int, c: int, a2: int, b2: int, c2: int, m: int)
    requires
        0 <= a <= a2,
        0 <= b <= b2,
        0 <= c <= c2,
        1 <= m,
    ensures
        quadratic_value(a, b, c, m) <= quadratic_value(a2, b2, c2, m),
{
    assert(a * m * m <= a2 * m * m && b * m <= b2 * m) by (nonlinear_arith)
        requires
            0 <= a <= a2,
            0 <= b <= b2,
            1 <= m,
    ;
}

/// A quadratic sequence of the generator.
pub struct QuadraticSeq {
    terms: Vec<i64>,
    answer: i64,
}

impl QuadraticSeq {
    /// The sequence `a*m^2 + b*m + c` for `m = 1, 2, ...`, showing `n_visible` terms.
    pub fn from_params(a: i64, b: i64, c: i64, n_visible: usize) -> (r: Self)
        requires
            quadratic_fits(a as int, b as int, c as int, n_visible as nat),
        ensures
            r.shown().len() == n_visible,
            follows_quadratic(r.shown(), r.hidden(), a as int, b as int, c as int),
    {
        let mut terms: Vec<i64> = Vec::new();
        let mut i: usize = 0;
        while i <= n_visible
            invariant
                i <= n_visible + 1,
                quadratic_fits(a as int, b as int, c as int, n_visible as nat),
                terms@.len() == i,
                forall|j: int| 0 <= j < i ==> #[trigger] terms@[j] == quadratic_value(a as int, b as int, c as int, j + 1),
            decreases n_visible + 1 - i,
        {
            proof {
                lemma_quadratic_parts(a as int, b as int, c as int, i + 1, n_visible + 1);
            }
            let m = (i + 1) as i64;
            terms.push(a * m * m + b * m + c);
            i = i + 1;
        }
        let answer = terms.pop().unwrap();
        QuadraticSeq { terms, answer }
    }

    /// Draws a quadratic sequence at difficulty `d` showing `n_visible`
    /// terms: `a`, then `b`, then `c`.
    pub fn generate(difficulty: Difficulty, n_visible: usize, rng: &mut SmallRng) -> (r: Self)
        requires
            quadratic_generable(difficulty, n_visible as nat),
        ensures
            is_quadratic_of(difficulty, n_visible as nat, r.shown(), r.hidden()),
    {
        let (a_max, b_max, c_max): (i64, i64, i64) = match difficulty {
            Difficulty::Easy => (2, 3, 10),
            Difficulty::Medium => (4, 5, 20),
            Difficulty::Hard => (6, 10, 50),
        };
        let a = draw_i64(rng, 1, a_max);
        let b = draw_i64(rng, 0, b_max);
        let c = draw_i64(rng, 0, c_max);
        proof {
            lemma_quadratic_monotone(a as int, b as int, c as int, a_max as int, b_max as int, c_max as int, n_visible + 1);
        }
        let r = Self::from_params(a, b, c, n_visible);
        assert(quadratic_draw(difficulty, a as int, b as int, c as int));
        r
    }
}

impl Sequence for QuadraticSeq {
    closed spec fn shown(&self) -> Seq<i64> {
        self.terms@
    }

    closed spec fn hidden(&self) -> i64 {
        self.answer
    }

    open spec fn family(&self) -> SequenceKind {
        SequenceKind::Quadratic
    }

    fn visible_terms(&self) -> (r: &[i64]) {
        self.terms.as_slice()
    }

    fn answer(&self) -> (r: i64) {
        self.answer
    }

    fn kind(&self) -> (r: SequenceKind) {
        SequenceKind::Quadratic
    }
}

/// The visible terms of a generated quadratic sequence, followed by the
/// answer, have constant second differences.
pub proof fn lemma_quadratic_constant_second_difference(d: Difficulty, n: nat, terms: Seq<i64>, answer: i64)
    requires
        is_quadratic_of(d, n, terms, answer),
    ensures
        constant_second_difference(terms.push(answer)),
{
    let (a, b, c) = choose|a: int, b: int, c: int|
        quadratic_draw(d, a, b, c) && #[trigger] follows_quadratic(terms, answer, a, b, c);
    let s = terms.push(answer);
    assert forall|i: int| 0 <= i < s.len() implies #[trigger] s[i] == quadratic_value(a, b, c, i + 1) by {
        if i < terms.len() {
            assert(s[i] == terms[i]);
        }
    }
    assert forall|i: int| 0 <= i && i + 2 < s.len() implies
        #[trigger] second_difference(s, i) == second_difference(s, 0) by {
        assert(s[i + 2] == quadratic_value(a, b, c, i + 3));
        assert(s[i + 1] == quadratic_value(a, b, c, i + 2));
        assert(s[i] == quadratic_value(a, b, c, i + 1));
        assert(s[2] == quadratic_value(a, b, c, 3));
        assert(s[1] == quadratic_value(a, b, c, 2));
        assert(s[0] == quadratic_value(a, b, c, 1));
        assert(quadratic_value(a, b, c, i + 3) - 2 * quadratic_value(a, b, c, i + 2)
            + quadratic_value(a, b, c, i + 1) == 2 * a) by (nonlinear_arith);
        assert(quadratic_value(a, b, c, 3) - 2 * quadratic_value(a, b, c, 2)
            + quadratic_value(a, b, c, 1) == 2 * a) by (nonlinear_arith);
    }
}

} // verus!
