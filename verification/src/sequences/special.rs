//! Sequences of figurate numbers (triangular numbers, squares, cubes) over
//! consecutive `m`, and two interleaved arithmetic sequences.

use vstd::prelude::*;
use rand::rngs::SmallRng;
use crate::config::Difficulty;
use crate::random::draw_i64;
use super::{Sequence, SequenceKind};
use super::quadratic::second_difference;

verus! {

/// The change in the second difference at position `i`.
pub open spec fn third_difference(s: Seq<i64>, i: int) -> int {
    s[i + 3] - 3 * s[i + 2] + 3 * s[i + 1] - s[i]
}

/// `terms` and then `answer` are `f(first)`, `f(first + 1)`, ... for one of
/// the figurate functions below, chosen by `kind`.
pub open spec fn follows_figurate(kind: SequenceKind, terms: Seq<i64>, answer: i64, first: int) -> bool {
    &&& forall|i: int| 0 <= i < terms.len() ==> #[trigger] terms[i] == figurate_value(kind, first + i)
    &&& answer == figurate_value(kind, first + terms.len())
}

/// The triangular number, square or cube of `m`.
pub open spec fn figurate_value(kind: SequenceKind, m: int) -> int {
    match kind {
        SequenceKind::Triangular => m * (m + 1) / 2,
        SequenceKind::Squares => m * m,
        _ => m * m * m,
    }
}

// ----- Triangular -----

/// The largest first `m` drawn at a difficulty.
pub open spec fn triangular_first_max(d: Difficulty) -> int {
    match d {
        Difficulty::Easy => 4,
        Difficulty::Medium => 8,
        Difficulty::Hard => 15,
    }
}

/// `n` visible terms and the next one of a sequence of triangular numbers
/// that the generator can produce at difficulty `d`.
pub open spec fn is_triangular_of(d: Difficulty, n: nat, terms: Seq<i64>, answer: i64) -> bool {
    &&& terms.len() == n
    &&& exists|first: int|
        1 <= first <= triangular_first_max(d) && #[trigger] follows_figurate(SequenceKind::Triangular, terms, answer, first)
}

/// The triangular numbers of `first` to `first + n` are computed within `i64`.
pub open spec fn triangular_fits(first: int, n: nat) -> bool {
    &&& 1 <= first
    &&& (first + n) * (first + n + 1) <= i64::MAX
    &&& n < usize::MAX
}

/// Every draw at difficulty `d` is computed within `i64`.
pub open spec fn triangular_generable(d: Difficulty, n: nat) -> bool {
    triangular_fits(triangular_first_max(d), n)
}

// ----- Squares -----

/// The largest first `m` drawn at a difficulty.
pub open spec fn squares_first_max(d: Difficulty) -> int {
    match d {
        Difficulty::Easy => 4,
        Difficulty::Medium => 8,
        Difficulty::Hard => 12,
    }
}

/// `n` visible terms and the next one of a sequence of squares that the
/// generator can produce at difficulty `d`.
pub open spec fn is_squares_of(d: Difficulty, n: nat, terms: Seq<i64>, answer: i64) -> bool {
    &&& terms.len() == n
    &&& exists|first: int|
        1 <= first <= squares_first_max(d) && #[trigger] follows_figurate(SequenceKind::Squares, terms, answer, first)
}

/// The squares of `first` to `first + n` stay within `i64`.
pub open spec fn squares_fits(first: int, n: nat) -> bool {
    &&& 1 <= first
    &&& (first + n) * (first + n) <= i64::MAX
    &&& n < usize::MAX
}

/// Every draw at difficulty `d` stays within `i64`.
pub open spec fn squares_generable(d: Difficulty, n: nat) -> bool {
    squares_fits(squares_first_max(d), n)
}

// ----- Cubes -----

/// The largest first `m` drawn at a difficulty.
pub open spec fn cubes_first_max(d: Difficulty) -> int {
    match d {
        Difficulty::Easy => 3,
        Difficulty::Medium => 5,
        Difficulty::Hard => 8,
    }
}

/// `n` visible terms and the next one of a sequence of cubes that the
/// generator can produce at difficulty `d`.
pub open spec fn is_cubes_of(d: Difficulty, n: nat, terms: Seq<i64>, answer: i64) -> bool {
    &&& terms.len() == n
    &&& exists|first: int|
        1 <= first <= cubes_first_max(d) && #[trigger] follows_figurate(SequenceKind::Cubes, terms, answer, first)
}

/// The cubes of `first` to `first + n` stay within `i64`.
pub open spec fn cubes_fits(first: int, n: nat) -> bool {
    &&& 1 <= first
    &&& (first + n) * (first + n) * (first + n) <= i64::MAX
    &&& n < usize::MAX
}

/// Every draw at difficulty `d` stays within `i64`.
pub open spec fn cubes_generable(d: Difficulty, n: nat) -> bool {
    cubes_fits(cubes_first_max(d), n)
}

proof fn lemma_products_below(m: int, top: int)
    requires
        1 <= m <= top,
    ensures
        1 <= m * m <= top * top,
        1 <= m * (m + 1) <= top * (top + 1),
        1 <= m * m * m <= top * top * top,
        m <= m * m,
        m * m <= m * m * m,
        m + 1 <= m * (m + 1),
        m >= 2 ==> m + 1 <= m * m,
{
    assert(1 <= m * m <= top * top) by (nonlinear_arith)
        requires
            1 <= m <= top,
    ;
    assert(1 <= m * (m + 1) <= top * (top + 1)) by (nonlinear_arith)
        requires
            1 <= m <= top,
    ;
    assert(1 <= m * m * m <= top * top * top) by (nonlinear_arith)
        requires
            1 <= m <= top,
            1 <= m * m <= top * top,
    ;
    assert(m <= m * m && m * m <= m * m * m && m + 1 <= m * (m + 1)) by (nonlinear_arith)
        requires
            1 <= m,
    ;
    assert(m >= 2 ==> m + 1 <= m * m) by (nonlinear_arith);
}

/// The triangular numbers, squares or cubes of `first` to `first + n_visible`,
/// as visible terms and answer.
fn figurate_terms(kind: SequenceKind, first: i64, n_visible: usize) -> (r: (Vec<i64>, i64))
    requires
        kind == SequenceKind::Triangular ==> triangular_fits(first as int, n_visible as nat),
        kind == SequenceKind::Squares ==> squares_fits(first as int, n_visible as nat),
        kind == SequenceKind::Cubes ==> cubes_fits(first as int, n_visible as nat),
        kind == SequenceKind::Triangular || kind == SequenceKind::Squares || kind == SequenceKind::Cubes,
    ensures
        r.0@.len() == n_visible,
        follows_figurate(kind, r.0@, r.1, first as int),
{
    let mut terms: Vec<i64> = Vec::new();
    let ghost top: int = first + n_visible;
    proof {
        lemma_products_below(top, top);
        assert(top < i64::MAX);
    }
    let end = first + n_visible as i64 + 1;
    let mut m: i64 = first;
    while m < end
        invariant
            first <= m <= end,
            end == top + 1,
            top == first + n_visible,
            n_visible < usize::MAX,
            1 <= first,
            kind == SequenceKind::Triangular ==> top * (top + 1) <= i64::MAX,
            kind == SequenceKind::Squares ==> top * top <= i64::MAX,
            kind == SequenceKind::Cubes ==> top * top * top <= i64::MAX,
            kind == SequenceKind::Triangular || kind == SequenceKind::Squares || kind == SequenceKind::Cubes,
            terms@.len() == m - first,
            forall|j: int| 0 <= j < terms@.len() ==> #[trigger] terms@[j] == figurate_value(kind, first + j),
        decreases end - m,
    {
        proof {
            lemma_products_below(m as int, top);
        }
        let value = match kind {
            SequenceKind::Triangular => m * (m + 1) / 2,
            SequenceKind::Squares => m * m,
            _ => m * m * m,
        };
        terms.push(value);
        m = m + 1;
    }
    let answer = terms.pop().unwrap();
    (terms, answer)
}

/// A sequence of triangular numbers of the generator.
pub struct TriangularSeq {
    terms: Vec<i64>,
    answer: i64,
}

impl TriangularSeq {
    /// The triangular numbers of `first`, `first + 1`, ..., showing `n_visible` of them.
    pub fn from_params(first: i64, n_visible: usize) -> (r: Self)
        requires
            triangular_fits(first as int, n_visible as nat),
        ensures
            r.shown().len() == n_visible,
            follows_figurate(SequenceKind::Triangular, r.shown(), r.hidden(), first as int),
    {
        let (terms, answer) = figurate_terms(SequenceKind::Triangular, first, n_visible);
        TriangularSeq { terms, answer }
    }

    /// Draws a sequence of triangular numbers at difficulty `d` showing `n_visible` terms.
    pub fn generate(difficulty: Difficulty, n_visible: usize, rng: &mut SmallRng) -> (r: Self)
        requires
            triangular_generable(difficulty, n_visible as nat),
        ensures
            is_triangular_of(difficulty, n_visible as nat, r.shown(), r.hidden()),
    {
        let first = match difficulty {
            Difficulty::Easy => draw_i64(rng, 1, 4),
            Difficulty::Medium => draw_i64(rng, 1, 8),
            Difficulty::Hard => draw_i64(rng, 1, 15),
        };
        proof {
            let top = triangular_first_max(difficulty) + n_visible;
            lemma_products_below(first + n_visible, top);
        }
        let r = Self::from_params(first, n_visible);
        assert(follows_figurate(SequenceKind::Triangular, r.shown(), r.hidden(), first as int));
        r
    }
}

impl Sequence for TriangularSeq {
    closed spec fn shown(&self) -> Seq<i64> {
        self.terms@
    }

    closed spec fn hidden(&self) -> i64 {
        self.answer
    }

    open spec fn family(&self) -> SequenceKind {
        SequenceKind::Triangular
    }

    fn visible_terms(&self) -> (r: &[i64]) {
        self.terms.as_slice()
    }

    fn answer(&self) -> (r: i64) {
        self.answer
    }

    fn kind(&self) -> (r: SequenceKind) {
        SequenceKind::Triangular
    }
}

/// A sequence of squares of the generator.
pub struct SquaresSeq {
    terms: Vec<i64>,
    answer: i64,
}

impl SquaresSeq {
    /// The squares of `first`, `first + 1`, ..., showing `n_visible` of them.
    pub fn from_params(first: i64, n_visible: usize) -> (r: Self)
        requires
            squares_fits(first as int, n_visible as nat),
        ensures
            r.shown().len() == n_visible,
            follows_figurate(SequenceKind::Squares, r.shown(), r.hidden(), first as int),
    {
        let (terms, answer) = figurate_terms(SequenceKind::Squares, first, n_visible);
        SquaresSeq { terms, answer }
    }

    /// Draws a sequence of squares at difficulty `d` showing `n_visible` terms.
    pub fn generate(difficulty: Difficulty, n_visible: usize, rng: &mut SmallRng) -> (r: Self)
        requires
            squares_generable(difficulty, n_visible as nat),
        ensures
            is_squares_of(difficulty, n_visible as nat, r.shown(), r.hidden()),
    {
        let first = match difficulty {
            Difficulty::Easy => draw_i64(rng, 1, 4),
            Difficulty::Medium => draw_i64(rng, 1, 8),
            Difficulty::Hard => draw_i64(rng, 1, 12),
        };
        proof {
            let top = squares_first_max(difficulty) + n_visible;
            lemma_products_below(first + n_visible, top);
        }
        let r = Self::from_params(first, n_visible);
        assert(follows_figurate(SequenceKind::Squares, r.shown(), r.hidden(), first as int));
        r
    }
}

impl Sequence for SquaresSeq {
    closed spec fn shown(&self) -> Seq<i64> {
        self.terms@
    }

    closed spec fn hidden(&self) -> i64 {
        self.answer
    }

    open spec fn family(&self) -> SequenceKind {
        SequenceKind::Squares
    }

    fn visible_terms(&self) -> (r: &[i64]) {
        self.terms.as_slice()
    }

    fn answer(&self) -> (r: i64) {
        self.answer
    }

    fn kind(&self) -> (r: SequenceKind) {
        SequenceKind::Squares
    }
}

/// A sequence of cubes of the generator.
pub struct CubesSeq {
    terms: Vec<i64>,
    answer: i64,
}

impl CubesSeq {
    /// The cubes of `first`, `first + 1`, ..., showing `n_visible` of them.
    pub fn from_params(first: i64, n_visible: usize) -> (r: Self)
        requires
            cubes_fits(first as int, n_visible as nat),
        ensures
            r.shown().len() == n_visible,
            follows_figurate(SequenceKind::Cubes, r.shown(), r.hidden(), first as int),
    {
        let (terms, answer) = figurate_terms(SequenceKind::Cubes, first, n_visible);
        CubesSeq { terms, answer }
    }

    /// Draws a sequence of cubes at difficulty `d` showing `n_visible` terms.
    pub fn generate(difficulty: Difficulty, n_visible: usize, rng: &mut SmallRng) -> (r: Self)
        requires
            cubes_generable(difficulty, n_visible as nat),
        ensures
            is_cubes_of(difficulty, n_visible as nat, r.shown(), r.hidden()),
    {
        let first = match difficulty {
            Difficulty::Easy => draw_i64(rng, 1, 3),
            Difficulty::Medium => draw_i64(rng, 1, 5),
            Difficulty::Hard => draw_i64(rng, 1, 8),
        };
        proof {
            let top = cubes_first_max(difficulty) + n_visible;
            lemma_products_below(first + n_visible, top);
        }
        let r = Self::from_params(first, n_visible);
        assert(follows_figurate(SequenceKind::Cubes, r.shown(), r.hidden(), first as int));
        r
    }
}

impl Sequence for CubesSeq {
    closed spec fn shown(&self) -> Seq<i64> {
        self.terms@
    }

    closed spec fn hidden(&self) -> i64 {
        self.answer
    }

    open spec fn family(&self) -> SequenceKind {
        SequenceKind::Cubes
    }

    fn visible_terms(&self) -> (r: &[i64]) {
        self.terms.as_slice()
    }

    fn answer(&self) -> (r: i64) {
        self.answer
    }

    fn kind(&self) -> (r: SequenceKind) {
        SequenceKind::Cubes
    }
}

// ----- Alternating -----

/// The largest first term of the first interleaved sequence at a difficulty.
pub open spec fn alternating_a_start_max(d: Difficulty) -> int {
    match d {
        Difficulty::Easy => 15,
        Difficulty::Medium => 30,
        Difficulty::Hard => 100,
    }
}

/// The largest first term of the second interleaved sequence at a difficulty.
pub open spec fn alternating_b_start_max(d: Difficulty) -> int {
    match d {
        Difficulty::Easy => 50,
        Difficulty::Medium => 100,
        Difficulty::Hard => 200,
    }
}

/// Term `i`: even positions follow `a_start, a_start + a_step, ...`, odd
/// positions follow `b_start, b_start + b_step, ...`.
pub open spec fn alternating_value(a_start: int, a_step: int, b_start: int, b_step: int, i: int) -> int {
    if i % 2 == 0 {
        a_start + (i / 2) * a_step
    } else {
        b_start + (i / 2) * b_step
    }
}

/// `terms` and then `answer` are the terms 0, 1, ... of the interleaving.
pub open spec fn follows_alternating(
    terms: Seq<i64>,
    answer: i64,
    a_start: int,
    a_step: int,
    b_start: int,
    b_step: int,
) -> bool {
    &&& forall|i: int| 0 <= i < terms.len() ==> #[trigger] terms[i] == alternating_value(a_start, a_step, b_start, b_step, i)
    &&& answer == alternating_value(a_start, a_step, b_start, b_step, terms.len() as int)
}

/// Parameters that the generator can draw at difficulty `d`.
pub open spec fn alternating_draw(d: Difficulty, a_start: int, a_step: int, b_start: int, b_step: int) -> bool {
    &&& 1 <= a_start <= alternating_a_start_max(d)
    &&& 1 <= a_step <= 5
    &&& 10 <= b_start <= alternating_b_start_max(d)
    &&& 5 <= b_step <= 20
}

/// `n` visible terms and the next one of an interleaving that the generator
/// can produce at difficulty `d`.
pub open spec fn is_alternating_of(d: Difficulty, n: nat, terms: Seq<i64>, answer: i64) -> bool {
    &&& terms.len() == n
    &&& exists|a_start: int, a_step: int, b_start: int, b_step: int|
        alternating_draw(d, a_start, a_step, b_start, b_step)
            && #[trigger] follows_alternating(terms, answer, a_start, a_step, b_start, b_step)
}

/// Nonnegative parameters whose terms up to `n` stay within `i64`.
pub open spec fn alternating_fits(a_start: int, a_step: int, b_start: int, b_step: int, n: nat) -> bool {
    &&& 0 <= a_start && 0 <= a_step && 0 <= b_start && 0 <= b_step
    &&& a_start + (n / 2) * a_step <= i64::MAX
    &&& b_start + (n / 2) * b_step <= i64::MAX
    &&& n < usize::MAX
    &&& n < i64::MAX
}

/// Every draw at difficulty `d` stays within `i64`.
pub open spec fn alternating_generable(d: Difficulty, n: nat) -> bool {
    alternating_fits(alternating_a_start_max(d), 5, alternating_b_start_max(d), 20, n)
}

/// How much term `i + 2` exceeds term `i`.
pub open spec fn stride_difference(s: Seq<i64>, i: int) -> int {
    s[i + 2] - s[i]
}

/// Terms two apart differ by the same amount along the even positions, and
/// by the same amount along the odd positions.
pub open spec fn interleaved_constant_differences(s: Seq<i64>) -> bool {
    forall|i: int| 0 <= i && i + 2 < s.len() ==> #[trigger] stride_difference(s, i) == stride_difference(s, i % 2)
}

proof fn lemma_step_within(k: int, top: int, start: int, step: int)
    requires
        0 <= k <= top,
        0 <= start,
        0 <= step,
        start + top * step <= i64::MAX,
    ensures
        0 <= k * step <= top * step,
        0 <= start + k * step <= i64::MAX,
{
    assert(0 <= k * step <= top * step) by (nonlinear_arith)
        requires
            0 <= k <= top,
            0 <= step,
    ;
}

/// Two interleaved arithmetic sequences of the generator.
pub struct AlternatingSeq {
    terms: Vec<i64>,
    answer: i64,
}

impl AlternatingSeq {
    /// The interleaving of `a_start, a_start + a_step, ...` (even positions)
    /// and `b_start, b_start + b_step, ...` (odd positions), showing `n_visible` terms.
    pub fn from_params(a_start: i64, a_step: i64, b_start: i64, b_step: i64, n_visible: usize) -> (r: Self)
        requires
            alternating_fits(a_start as int, a_step as int, b_start as int, b_step as int, n_visible as nat),
        ensures
            r.shown().len() == n_visible,
            follows_alternating(r.shown(), r.hidden(), a_start as int, a_step as int, b_start as int, b_step as int),
    {
        let needed = n_visible + 1;
        let mut terms: Vec<i64> = Vec::with_capacity(needed);
        let mut ai: i64 = 0;
        let mut bi: i64 = 0;
        let mut i: usize = 0;
        while i < needed
            invariant
                needed == n_visible + 1,
                i <= needed,
                ai == (i + 1) / 2,
                bi == i / 2,
                alternating_fits(a_start as int, a_step as int, b_start as int, b_step as int, n_visible as nat),
                terms@.len() == i,
                forall|j: int| 0 <= j < i ==>
                    #[trigger] terms@[j] == alternating_value(a_start as int, a_step as int, b_start as int, b_step as int, j),
            decreases needed - i,
        {
            if i % 2 == 0 {
                proof {
                    lemma_step_within(ai as int, n_visible as int / 2, a_start as int, a_step as int);
                }
                terms.push(a_start + ai * a_step);
                ai = ai + 1;
            } else {
                proof {
                    lemma_step_within(bi as int, n_visible as int / 2, b_start as int, b_step as int);
                }
                terms.push(b_start + bi * b_step);
                bi = bi + 1;
            }
            i = i + 1;
        }
        let answer = terms.pop().unwrap();
        AlternatingSeq { terms, answer }
    }

    /// Draws an interleaving at difficulty `d` showing `n_visible` terms:
    /// first term and step of the even positions, then of the odd positions.
    pub fn generate(difficulty: Difficulty, n_visible: usize, rng: &mut SmallRng) -> (r: Self)
        requires
            alternating_generable(difficulty, n_visible as nat),
        ensures
            is_alternating_of(difficulty, n_visible as nat, r.shown(), r.hidden()),
    {
        let (a_max, b_max): (i64, i64) = match difficulty {
            Difficulty::Easy => (15, 50),
            Difficulty::Medium => (30, 100),
            Difficulty::Hard => (100, 200),
        };
        let a_start = draw_i64(rng, 1, a_max);
        let a_step = draw_i64(rng, 1, 5);
        let b_start = draw_i64(rng, 10, b_max);
        let b_step = draw_i64(rng, 5, 20);
        proof {
            let h = n_visible as int / 2;
            assert(h * a_step <= h * 5 && h * b_step <= h * 20) by (nonlinear_arith)
                requires
                    h >= 0,
                    a_step <= 5,
                    b_step <= 20,
            ;
        }
        let r = Self::from_params(a_start, a_step, b_start, b_step, n_visible);
        assert(alternating_draw(difficulty, a_start as int, a_step as int, b_start as int, b_step as int));
        r
    }
}

impl Sequence for AlternatingSeq {
    closed spec fn shown(&self) -> Seq<i64> {
        self.terms@
    }

    closed spec fn hidden(&self) -> i64 {
        self.answer
    }

    open spec fn family(&self) -> SequenceKind {
        SequenceKind::Alternating
    }

    fn visible_terms(&self) -> (r: &[i64]) {
        self.terms.as_slice()
    }

    fn answer(&self) -> (r: i64) {
        self.answer
    }

    fn kind(&self) -> (r: SequenceKind) {
        SequenceKind::Alternating
    }
}

/// In a generated interleaving, visible terms followed by the answer, terms
/// two apart differ by one amount on the even positions and by one amount on
/// the odd positions.
pub proof fn lemma_alternating_differences(d: Difficulty, n: nat, terms: Seq<i64>, answer: i64)
    requires
        is_alternating_of(d, n, terms, answer),
    ensures
        interleaved_constant_differences(terms.push(answer)),
{
    let (a0, da, b0, db) = choose|a_start: int, a_step: int, b_start: int, b_step: int|
        alternating_draw(d, a_start, a_step, b_start, b_step)
            && #[trigger] follows_alternating(terms, answer, a_start, a_step, b_start, b_step);
    let s = terms.push(answer);
    assert forall|i: int| 0 <= i < s.len() implies #[trigger] s[i] == alternating_value(a0, da, b0, db, i) by {
        if i < terms.len() {
            assert(s[i] == terms[i]);
        }
    }
    assert forall|i: int| 0 <= i && i + 2 < s.len() implies
        #[trigger] stride_difference(s, i) == stride_difference(s, i % 2) by {
        let p = i % 2;
        assert(s[i] == alternating_value(a0, da, b0, db, i));
        assert(s[i + 2] == alternating_value(a0, da, b0, db, i + 2));
        assert(s[p] == alternating_value(a0, da, b0, db, p));
        assert(s[p + 2] == alternating_value(a0, da, b0, db, p + 2));
        assert((i + 2) % 2 == p && (i + 2) / 2 == i / 2 + 1);
        assert((p + 2) % 2 == p && (p + 2) / 2 == 1 && p / 2 == 0);
        assert((i / 2 + 1) * da - (i / 2) * da == da) by (nonlinear_arith);
        assert((i / 2 + 1) * db - (i / 2) * db == db) by (nonlinear_arith);
    }
}

/// Each triangular number exceeds the one before by its index.
proof fn lemma_triangular_step(m: int)
    ensures
        figurate_value(SequenceKind::Triangular, m + 1) == figurate_value(SequenceKind::Triangular, m) + m + 1,
{
    let x = m * (m + 1);
    assert((m + 1) * (m + 1 + 1) == x + 2 * (m + 1)) by (nonlinear_arith)
        requires
            x == m * (m + 1),
    ;
    assert((x + 2 * (m + 1)) / 2 == x / 2 + (m + 1));
}

/// The second and third differences of the figurate values around `m`.
proof fn lemma_figurate_differences(m: int)
    ensures
        figurate_value(SequenceKind::Triangular, m + 2) - 2 * figurate_value(SequenceKind::Triangular, m + 1)
            + figurate_value(SequenceKind::Triangular, m) == 1,
        figurate_value(SequenceKind::Squares, m + 2) - 2 * figurate_value(SequenceKind::Squares, m + 1)
            + figurate_value(SequenceKind::Squares, m) == 2,
        figurate_value(SequenceKind::Cubes, m + 3) - 3 * figurate_value(SequenceKind::Cubes, m + 2)
            + 3 * figurate_value(SequenceKind::Cubes, m + 1) - figurate_value(SequenceKind::Cubes, m) == 6,
{
    lemma_triangular_step(m);
    lemma_triangular_step(m + 1);
    assert((m + 2) * (m + 2) - 2 * ((m + 1) * (m + 1)) + m * m == 2) by (nonlinear_arith);
    assert((m + 3) * (m + 3) * (m + 3) - 3 * ((m + 2) * (m + 2) * (m + 2)) + 3 * ((m + 1) * (m + 1) * (m + 1))
        - m * m * m == 6) by (nonlinear_arith);
}

/// The visible terms followed by the answer, as figurate values of
/// consecutive `m` starting at `first`.
proof fn lemma_figurate_sequence(kind: SequenceKind, terms: Seq<i64>, answer: i64, first: int)
    requires
        follows_figurate(kind, terms, answer, first),
    ensures
        forall|i: int| 0 <= i < terms.len() + 1 ==> #[trigger] terms.push(answer)[i] == figurate_value(kind, first + i),
{
    let s = terms.push(answer);
    assert forall|i: int| 0 <= i < terms.len() + 1 implies #[trigger] s[i] == figurate_value(kind, first + i) by {
        if i < terms.len() {
            assert(s[i] == terms[i]);
        }
    }
}

/// Every second difference of the sequence is `step`.
pub open spec fn second_differences_are(s: Seq<i64>, step: int) -> bool {
    forall|i: int| 0 <= i && i + 2 < s.len() ==> #[trigger] second_difference(s, i) == step
}

/// Every third difference of the sequence is `step`.
pub open spec fn third_differences_are(s: Seq<i64>, step: int) -> bool {
    forall|i: int| 0 <= i && i + 3 < s.len() ==> #[trigger] third_difference(s, i) == step
}

/// In a generated sequence of triangular numbers, visible terms followed by
/// the answer, each difference exceeds the one before by exactly 1.
pub proof fn lemma_triangular_differences(d: Difficulty, n: nat, terms: Seq<i64>, answer: i64)
    requires
        is_triangular_of(d, n, terms, answer),
    ensures
        second_differences_are(terms.push(answer), 1),
{
    let first = choose|first: int|
        1 <= first <= triangular_first_max(d) && #[trigger] follows_figurate(SequenceKind::Triangular, terms, answer, first);
    lemma_figurate_sequence(SequenceKind::Triangular, terms, answer, first);
    let s = terms.push(answer);
    assert forall|i: int| 0 <= i && i + 2 < s.len() implies #[trigger] second_difference(s, i) == 1 by {
        lemma_figurate_differences(first + i);
        assert(s[i] == figurate_value(SequenceKind::Triangular, first + i));
        assert(s[i + 1] == figurate_value(SequenceKind::Triangular, first + i + 1));
        assert(s[i + 2] == figurate_value(SequenceKind::Triangular, first + i + 2));
    }
}

/// In a generated sequence of squares, visible terms followed by the
/// answer, each difference exceeds the one before by exactly 2.
pub proof fn lemma_squares_differences(d: Difficulty, n: nat, terms: Seq<i64>, answer: i64)
    requires
        is_squares_of(d, n, terms, answer),
    ensures
        second_differences_are(terms.push(answer), 2),
{
    let first = choose|first: int|
        1 <= first <= squares_first_max(d) && #[trigger] follows_figurate(SequenceKind::Squares, terms, answer, first);
    lemma_figurate_sequence(SequenceKind::Squares, terms, answer, first);
    let s = terms.push(answer);
    assert forall|i: int| 0 <= i && i + 2 < s.len() implies #[trigger] second_difference(s, i) == 2 by {
        lemma_figurate_differences(first + i);
        assert(s[i] == figurate_value(SequenceKind::Squares, first + i));
        assert(s[i + 1] == figurate_value(SequenceKind::Squares, first + i + 1));
        assert(s[i + 2] == figurate_value(SequenceKind::Squares, first + i + 2));
    }
}

/// In a generated sequence of cubes, visible terms followed by the answer,
/// every third difference is exactly 6.
pub proof fn lemma_cubes_differences(d: Difficulty, n: nat, terms: Seq<i64>, answer: i64)
    requires
        is_cubes_of(d, n, terms, answer),
    ensures
        third_differences_are(terms.push(answer), 6),
{
    let first = choose|first: int|
        1 <= first <= cubes_first_max(d) && #[trigger] follows_figurate(SequenceKind::Cubes, terms, answer, first);
    lemma_figurate_sequence(SequenceKind::Cubes, terms, answer, first);
    let s = terms.push(answer);
    assert forall|i: int| 0 <= i && i + 3 < s.len() implies #[trigger] third_difference(s, i) == 6 by {
        lemma_figurate_differences(first + i);
        assert(s[i] == figurate_value(SequenceKind::Cubes, first + i));
        assert(s[i + 1] == figurate_value(SequenceKind::Cubes, first + i + 1));
        assert(s[i + 2] == figurate_value(SequenceKind::Cubes, first + i + 2));
        assert(s[i + 3] == figurate_value(SequenceKind::Cubes, first + i + 3));
    }
}

} // verus!
