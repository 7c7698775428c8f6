//! Arithmetic sequences: a constant difference between neighbours.

use vstd::prelude::*;
use rand::rngs::SmallRng;
use crate::config::Difficulty;
use crate::random::{draw_coin, draw_i64};
use super::{magnitude, Sequence, SequenceKind};

verus! {

/// The largest first term drawn at a difficulty.
pub open spec fn arithmetic_start_max(d: Difficulty) -> int {
    match d {
        Difficulty::Easy => 20,
        Difficulty::Medium => 100,
        Difficulty::Hard => 500,
    }
}

/// The largest step size drawn at a difficulty.
pub open spec fn arithmetic_step_max(d: Difficulty) -> int {
    match d {
        Difficulty::Easy => 10,
        Difficulty::Medium => 20,
        Difficulty::Hard => 50,
    }
}

/// Term `i` (counted from 0) of the sequence with first term `start` and difference `step`.
pub open spec fn arithmetic_term(start: int, step: int, i: int) -> int {
    start + i * step
}

/// `terms` and then `answer` are the terms 0, 1, ... of the sequence with
/// first term `start` and difference `step`.
pub open spec fn follows_arithmetic(terms: Seq<i64>, answer: i64, start: int, step: int) -> bool {
    &&& forall|i: int| 0 <= i < terms.len() ==> #[trigger] terms[i] == arithmetic_term(start, step, i)
    &&& answer == arithmetic_term(start, step, terms.len() as int)
}

/// A first term and a step that the generator can draw at difficulty `d`:
/// the start in `1..=start_max`, the step's size in `1..=step_max`, either sign.
pub open spec fn arithmetic_draw(d: Difficulty, start: int, step: int) -> bool {
    &&& 1 <= start <= arithmetic_start_max(d)
    &&& 1 <= magnitude(step) <= arithmetic_step_max(d)
}

/// `n` visible terms and the next one of an arithmetic sequence that the
/// generator can produce at difficulty `d`.
pub open spec fn is_arithmetic_of(d: Difficulty, n: nat, terms: Seq<i64>, answer: i64) -> bool {
    &&& terms.len() == n
    &&& exists|start: int, step: int|
        arithmetic_draw(d, start, step) && #[trigger] follows_arithmetic(terms, answer, start, step)
}

/// Terms 0 to `n` of the sequence stay within `i64`, and so does each product `i * step`.
pub open spec fn arithmetic_fits(start: int, step: int, n: nat) -> bool {
    n * magnitude(step) + magnitude(start) <= i64::MAX
}

/// Every draw at difficulty `d` gives `n + 1` terms within `i64`.
pub open spec fn arithmetic_generable(d: Difficulty, n: nat) -> bool {
    &&& n * arithmetic_step_max(d) + arithmetic_start_max(d) <= i64::MAX
    &&& n < usize::MAX
}

/// How much term `i + 1` exceeds term `i`.
pub open spec fn difference(s: Seq<i64>, i: int) -> int {
    s[i + 1] - s[i]
}

/// Each neighbour differs from the one before by the same amount.
pub open spec fn constant_difference(s: Seq<i64>) -> bool {
    forall|i: int| 0 <= i && i + 1 < s.len() ==> #[trigger] difference(s, i) == difference(s, 0)
}

proof fn lemma_product_within(i: int, n: int, step: int)
    requires
        0 <= i <= n,
    ensures
        magnitude(i * step) <= n * magnitude(step),
{
    if step >= 0 {
        assert(0 <= i * step <= n * step) by (nonlinear_arith)
            requires
                0 <= i <= n,
                step >= 0,
        ;
    } else {
        assert(0 <= i * (-step) <= n * (-step)) by (nonlinear_arith)
            requires
                0 <= i <= n,
                step < 0,
        ;
        assert(i * (-step) == -(i * step)) by (nonlinear_arith);
    }
}

/// An arithmetic sequence of the generator.
pub struct ArithmeticSeq {
    terms: Vec<i64>,
    answer: i64,
}

impl ArithmeticSeq {
    /// The sequence with first term `start` and difference `step`, showing
    /// `n_visible` terms.
    pub fn from_params(start: i64, step: i64, n_visible: usize) -> (r: Self)
        requires
            arithmetic_fits(start as int, step as int, n_visible as nat),
            n_visible < i64::MAX,
            n_visible < usize::MAX,
        ensures
            r.shown().len() == n_visible,
            follows_arithmetic(r.shown(), r.hidden(), start as int, step as int),
    {
        let mut terms: Vec<i64> = Vec::new();
        let mut i: usize = 0;
        while i <= n_visible
            invariant
                i <= n_visible + 1,
                n_visible < i64::MAX,
                n_visible < usize::MAX,
                arithmetic_fits(start as int, step as int, n_visible as nat),
                terms@.len() == i,
                forall|j: int| 0 <= j < i ==> #[trigger] terms@[j] == arithmetic_term(start as int, step as int, j),
            decreases n_visible + 1 - i,
        {
            let ii = i as i64;
            proof {
                lemma_product_within(ii as int, n_visible as int, step as int);
            }
            terms.push(start + ii * step);
            i = i + 1;
        }
        let answer = terms.pop().unwrap();
        ArithmeticSeq { terms, answer }
    }

    /// Draws an arithmetic sequence at difficulty `d` showing `n_visible` terms:
    /// the first term, then the step's size, then its sign.
    pub fn generate(difficulty: Difficulty, n_visible: usize, rng: &mut SmallRng) -> (r: Self)
        requires
            arithmetic_generable(difficulty, n_visible as nat),
        ensures
            is_arithmetic_of(difficulty, n_visible as nat, r.shown(), r.hidden()),
    {
        let (start_max, step_max): (i64, i64) = match difficulty {
            Difficulty::Easy => (20, 10),
            Difficulty::Medium => (100, 20),
            Difficulty::Hard => (500, 50),
        };
        let start = draw_i64(rng, 1, start_max);
        let size = draw_i64(rng, 1, step_max);
        let step = if draw_coin(rng) { size } else { -size };
        proof {
            assert(n_visible * magnitude(step as int) <= n_visible * arithmetic_step_max(difficulty))
                by (nonlinear_arith)
                requires
                    magnitude(step as int) <= arithmetic_step_max(difficulty),
            ;
        }
        let r = Self::from_params(start, step, n_visible);
        assert(arithmetic_draw(difficulty, start as int, step as int));
        r
    }
}

impl Sequence for ArithmeticSeq {
    closed spec fn shown(&self) -> Seq<i64> {
        self.terms@
    }

    closed spec fn hidden(&self) -> i64 {
        self.answer
    }

    open spec fn family(&self) -> SequenceKind {
        SequenceKind::Arithmetic
    }

    fn visible_terms(&self) -> (r: &[i64]) {
        self.terms.as_slice()
    }

    fn answer(&self) -> (r: i64) {
        self.answer
    }

    fn kind(&self) -> (r: SequenceKind) {
        SequenceKind::Arithmetic
    }
}

/// The visible terms of a generated arithmetic sequence, followed by the
/// answer, keep one difference throughout: the answer is the last visible
/// term plus that difference.
pub proof fn lemma_arithmetic_constant_difference(d: Difficulty, n: nat, terms: Seq<i64>, answer: i64)
    requires
        is_arithmetic_of(d, n, terms, answer),
    ensures
        constant_difference(terms.push(answer)),
{
    let (start, step) = choose|start: int, step: int|
        arithmetic_draw(d, start, step) && #[trigger] follows_arithmetic(terms, answer, start, step);
    let s = terms.push(answer);
    assert forall|i: int| 0 <= i < s.len() implies #[trigger] s[i] == start + i * step by {
        if i < terms.len() {
            assert(s[i] == terms[i]);
        }
    }
    assert forall|i: int| 0 <= i && i + 1 < s.len() implies #[trigger] difference(s, i) == difference(s, 0) by {
        assert(s[i + 1] == start + (i + 1) * step);
        assert(s[i] == start + i * step);
        assert(s[1] == start + 1 * step);
        assert(s[0] == start + 0 * step);
        assert((i + 1) * step - i * step == step) by (nonlinear_arith);
    }
}

} // verus!
