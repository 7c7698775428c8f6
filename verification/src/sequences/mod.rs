//! The sequence families and the drawing of one sequence of a family.

use vstd::prelude::*;
use rand::rngs::SmallRng;
use crate::config::Difficulty;
use self::arithmetic::{is_arithmetic_of, arithmetic_generable, ArithmeticSeq};
use self::geometric::{is_geometric_of, geometric_generable, GeometricSeq};
use self::quadratic::{is_quadratic_of, quadratic_generable, QuadraticSeq};
use self::fibonacci::{
    is_fibonacci_of, fibonacci_generable, FibonacciSeq, is_tribonacci_of, tribonacci_generable, TribonacciSeq,
};
use self::special::{
    is_triangular_of, triangular_generable, TriangularSeq, is_squares_of, squares_generable, SquaresSeq,
    is_cubes_of, cubes_generable, CubesSeq, is_alternating_of, alternating_generable, AlternatingSeq,
};

pub mod arithmetic;
pub mod geometric;
pub mod quadratic;
pub mod fibonacci;
pub mod special;

verus! {

/// One drawn sequence: the terms shown to the player, the hidden next term,
/// and the family it belongs to.
pub trait Sequence {
    /// The visible terms.
    spec fn shown(&self) -> Seq<i64>;

    /// The term that follows the visible ones.
    spec fn hidden(&self) -> i64;

    /// The family of the sequence.
    spec fn family(&self) -> SequenceKind;

    fn visible_terms(&self) -> (r: &[i64])
        ensures
            r@ == self.shown(),
    ;

    fn answer(&self) -> (r: i64)
        ensures
            r == self.hidden(),
    ;

    fn kind(&self) -> (r: SequenceKind)
        ensures
            r == self.family(),
    ;
}

/// The absolute value of an integer.
pub open spec fn magnitude(x: int) -> int {
    if x < 0 { -x } else { x }
}

/// A family of sequences.
#[derive(Debug, Clone, Copy, PartialEq, Eq, Hash, Structural)]
pub enum SequenceKind {
    Arithmetic,
    Geometric,
    Quadratic,
    Fibonacci,
    Tribonacci,
    Triangular,
    Squares,
    Cubes,
    Alternating,
}

/// Every family, in the order in which the configuration screen lists them.
pub open spec fn all_kinds() -> Seq<SequenceKind> {
    seq![
        SequenceKind::Arithmetic,
        SequenceKind::Geometric,
        SequenceKind::Quadratic,
        SequenceKind::Fibonacci,
        SequenceKind::Tribonacci,
        SequenceKind::Triangular,
        SequenceKind::Squares,
        SequenceKind::Cubes,
        SequenceKind::Alternating,
    ]
}

pub open spec fn kind_label(k: SequenceKind) -> Seq<char> {
    match k {
        SequenceKind::Arithmetic => "Arithmetic"@,
        SequenceKind::Geometric => "Geometric"@,
        SequenceKind::Quadratic => "Quadratic"@,
        SequenceKind::Fibonacci => "Fibonacci"@,
        SequenceKind::Tribonacci => "Tribonacci"@,
        SequenceKind::Triangular => "Triangular"@,
        SequenceKind::Squares => "Squares (n²)"@,
        SequenceKind::Cubes => "Cubes (n³)"@,
        SequenceKind::Alternating => "Alternating"@,
    }
}

impl SequenceKind {
    /// Every family in display order.
    pub fn all() -> (r: Vec<SequenceKind>)
        ensures
            r@ == all_kinds(),
    {
        vec![
            SequenceKind::Arithmetic,
            SequenceKind::Geometric,
            SequenceKind::Quadratic,
            SequenceKind::Fibonacci,
            SequenceKind::Tribonacci,
            SequenceKind::Triangular,
            SequenceKind::Squares,
            SequenceKind::Cubes,
            SequenceKind::Alternating,
        ]
    }

    /// The name shown for this family.
    pub fn label(&self) -> (r: &'static str)
        ensures
            r@ == kind_label(*self),
    {
        match self {
            SequenceKind::Arithmetic => "Arithmetic",
            SequenceKind::Geometric => "Geometric",
            SequenceKind::Quadratic => "Quadratic",
            SequenceKind::Fibonacci => "Fibonacci",
            SequenceKind::Tribonacci => "Tribonacci",
            SequenceKind::Triangular => "Triangular",
            SequenceKind::Squares => "Squares (n²)",
            SequenceKind::Cubes => "Cubes (n³)",
            SequenceKind::Alternating => "Alternating",
        }
    }
}

/// Every draw of family `kind` at difficulty `d` asking for `n` terms
/// stays within `i64`, and (for geometric sequences) the drawing ends.
pub open spec fn generable(kind: SequenceKind, d: Difficulty, n: nat) -> bool {
    match kind {
        SequenceKind::Arithmetic => arithmetic_generable(d, n),
        SequenceKind::Geometric => geometric_generable(n),
        SequenceKind::Quadratic => quadratic_generable(d, n),
        SequenceKind::Fibonacci => fibonacci_generable(d, n),
        SequenceKind::Tribonacci => tribonacci_generable(d, n),
        SequenceKind::Triangular => triangular_generable(d, n),
        SequenceKind::Squares => squares_generable(d, n),
        SequenceKind::Cubes => cubes_generable(d, n),
        SequenceKind::Alternating => alternating_generable(d, n),
    }
}

/// `terms` are the visible terms and `answer` the next term of a sequence
/// of family `kind` that the generator can draw at difficulty `d` when
/// asked for `n` terms.
pub open spec fn is_sequence_of(kind: SequenceKind, d: Difficulty, n: nat, terms: Seq<i64>, answer: i64) -> bool {
    match kind {
        SequenceKind::Arithmetic => is_arithmetic_of(d, n, terms, answer),
        SequenceKind::Geometric => is_geometric_of(d, n, terms, answer),
        SequenceKind::Quadratic => is_quadratic_of(d, n, terms, answer),
        SequenceKind::Fibonacci => is_fibonacci_of(d, n, terms, answer),
        SequenceKind::Tribonacci => is_tribonacci_of(d, n, terms, answer),
        SequenceKind::Triangular => is_triangular_of(d, n, terms, answer),
        SequenceKind::Squares => is_squares_of(d, n, terms, answer),
        SequenceKind::Cubes => is_cubes_of(d, n, terms, answer),
        SequenceKind::Alternating => is_alternating_of(d, n, terms, answer),
    }
}

/// Asked for at most 19 terms (the drill offers 5 to 7), every family can
/// be drawn at every difficulty.
pub proof fn lemma_short_sequences_generable(kind: SequenceKind, d: Difficulty, n: nat)
    requires
        n <= 19,
    ensures
        generable(kind, d, n),
{
    fibonacci::lemma_fibonacci_generable_short(d, n);
    fibonacci::lemma_tribonacci_generable_short(d, n);
    let m = special::triangular_first_max(d) + n;
    assert(m * (m + 1) <= 34 * 35) by (nonlinear_arith)
        requires
            1 <= m <= 34,
    ;
    let t = special::squares_first_max(d) + n;
    assert(t * t <= 31 * 31) by (nonlinear_arith)
        requires
            1 <= t <= 31,
    ;
    let c = special::cubes_first_max(d) + n;
    assert(c * c * c <= 27 * 27 * 27) by (nonlinear_arith)
        requires
            1 <= c <= 27,
    ;
    let q = n + 1;
    let qa = quadratic::quadratic_a_max(d);
    let qb = quadratic::quadratic_b_max(d);
    assert(qa * q * q <= 6 * 20 * 20 && qb * q <= 200) by (nonlinear_arith)
        requires
            1 <= q <= 20,
            1 <= qa <= 6,
            0 <= qb <= 10,
    ;
    assert(n * arithmetic::arithmetic_step_max(d) <= 19 * 50) by (nonlinear_arith)
        requires
            n <= 19,
            arithmetic::arithmetic_step_max(d) <= 50,
    ;
    assert((n / 2) * 5 <= 50 && (n / 2) * 20 <= 200) by (nonlinear_arith)
        requires
            n <= 19,
    ;
}

/// How hard a difficulty is: Easy, Medium, Hard in that order.
pub open spec fn difficulty_rank(d: Difficulty) -> int {
    match d {
        Difficulty::Easy => 0,
        Difficulty::Medium => 1,
        Difficulty::Hard => 2,
    }
}

/// A harder difficulty draws from wider ranges: whatever can be drawn at
/// `easier` can be drawn at `harder` as well.
pub proof fn lemma_harder_includes_easier(
    kind: SequenceKind,
    easier: Difficulty,
    harder: Difficulty,
    n: nat,
    terms: Seq<i64>,
    answer: i64,
)
    requires
        difficulty_rank(easier) <= difficulty_rank(harder),
        is_sequence_of(kind, easier, n, terms, answer),
    ensures
        is_sequence_of(kind, harder, n, terms, answer),
{
    match kind {
        SequenceKind::Arithmetic => {
            let (a, b) = choose|start: int, step: int|
                arithmetic::arithmetic_draw(easier, start, step) && #[trigger] arithmetic::follows_arithmetic(
                    terms,
                    answer,
                    start,
                    step,
                );
            assert(arithmetic::arithmetic_draw(harder, a, b));
        },
        SequenceKind::Geometric => {
            let (a, b) = choose|start: int, ratio: int|
                geometric::geometric_draw(easier, start, ratio) && #[trigger] geometric::follows_geometric(
                    terms,
                    answer,
                    start,
                    ratio,
                );
            assert(geometric::geometric_draw(harder, a, b));
        },
        SequenceKind::Quadratic => {
            let (a, b, c) = choose|a: int, b: int, c: int|
                quadratic::quadratic_draw(easier, a, b, c) && #[trigger] quadratic::follows_quadratic(
                    terms,
                    answer,
                    a,
                    b,
                    c,
                );
            assert(quadratic::quadratic_draw(harder, a, b, c));
        },
        SequenceKind::Fibonacci => {
            let (a, b) = choose|a: int, b: int|
                fibonacci::fibonacci_draw(easier, a, b) && #[trigger] fibonacci::follows_fibonacci(terms, answer, a, b);
            assert(fibonacci::fibonacci_draw(harder, a, b));
        },
        SequenceKind::Tribonacci => {
            let (a, b, c) = choose|a: int, b: int, c: int|
                fibonacci::tribonacci_draw(easier, a, b, c) && #[trigger] fibonacci::follows_tribonacci(
                    terms,
                    answer,
                    a,
                    b,
                    c,
                );
            assert(fibonacci::tribonacci_draw(harder, a, b, c));
        },
        SequenceKind::Triangular => {
            let m = choose|first: int|
                1 <= first <= special::triangular_first_max(easier) && #[trigger] special::follows_figurate(
                    SequenceKind::Triangular,
                    terms,
                    answer,
                    first,
                );
            assert(1 <= m <= special::triangular_first_max(harder));
        },
        SequenceKind::Squares => {
            let m = choose|first: int|
                1 <= first <= special::squares_first_max(easier) && #[trigger] special::follows_figurate(
                    SequenceKind::Squares,
                    terms,
                    answer,
                    first,
                );
            assert(1 <= m <= special::squares_first_max(harder));
        },
        SequenceKind::Cubes => {
            let m = choose|first: int|
                1 <= first <= special::cubes_first_max(easier) && #[trigger] special::follows_figurate(
                    SequenceKind::Cubes,
                    terms,
                    answer,
                    first,
                );
            assert(1 <= m <= special::cubes_first_max(harder));
        },
        SequenceKind::Alternating => {
            let (a, b, c, d) = choose|a_start: int, a_step: int, b_start: int, b_step: int|
                special::alternating_draw(easier, a_start, a_step, b_start, b_step)
                    && #[trigger] special::follows_alternating(terms, answer, a_start, a_step, b_start, b_step);
            assert(special::alternating_draw(harder, a, b, c, d));
        },
    }
}

/// Asked for three terms or more, every family shows exactly as many.
pub proof fn lemma_shown_length(kind: SequenceKind, d: Difficulty, n: nat, terms: Seq<i64>, answer: i64)
    requires
        n >= 3,
        is_sequence_of(kind, d, n, terms, answer),
    ensures
        terms.len() == n,
{
}

/// A drawn sequence of any family.
pub enum AnySequence {
    Arithmetic(ArithmeticSeq),
    Geometric(GeometricSeq),
    Quadratic(QuadraticSeq),
    Fibonacci(FibonacciSeq),
    Tribonacci(TribonacciSeq),
    Triangular(TriangularSeq),
    Squares(SquaresSeq),
    Cubes(CubesSeq),
    Alternating(AlternatingSeq),
}

impl Sequence for AnySequence {
    open spec fn shown(&self) -> Seq<i64> {
        match self {
            AnySequence::Arithmetic(s) => s.shown(),
            AnySequence::Geometric(s) => s.shown(),
            AnySequence::Quadratic(s) => s.shown(),
            AnySequence::Fibonacci(s) => s.shown(),
            AnySequence::Tribonacci(s) => s.shown(),
            AnySequence::Triangular(s) => s.shown(),
            AnySequence::Squares(s) => s.shown(),
            AnySequence::Cubes(s) => s.shown(),
            AnySequence::Alternating(s) => s.shown(),
        }
    }

    open spec fn hidden(&self) -> i64 {
        match self {
            AnySequence::Arithmetic(s) => s.hidden(),
            AnySequence::Geometric(s) => s.hidden(),
            AnySequence::Quadratic(s) => s.hidden(),
            AnySequence::Fibonacci(s) => s.hidden(),
            AnySequence::Tribonacci(s) => s.hidden(),
            AnySequence::Triangular(s) => s.hidden(),
            AnySequence::Squares(s) => s.hidden(),
            AnySequence::Cubes(s) => s.hidden(),
            AnySequence::Alternating(s) => s.hidden(),
        }
    }

    open spec fn family(&self) -> SequenceKind {
        match self {
            AnySequence::Arithmetic(_) => SequenceKind::Arithmetic,
            AnySequence::Geometric(_) => SequenceKind::Geometric,
            AnySequence::Quadratic(_) => SequenceKind::Quadratic,
            AnySequence::Fibonacci(_) => SequenceKind::Fibonacci,
            AnySequence::Tribonacci(_) => SequenceKind::Tribonacci,
            AnySequence::Triangular(_) => SequenceKind::Triangular,
            AnySequence::Squares(_) => SequenceKind::Squares,
            AnySequence::Cubes(_) => SequenceKind::Cubes,
            AnySequence::Alternating(_) => SequenceKind::Alternating,
        }
    }

    fn visible_terms(&self) -> (r: &[i64]) {
        match self {
            AnySequence::Arithmetic(s) => s.visible_terms(),
            AnySequence::Geometric(s) => s.visible_terms(),
            AnySequence::Quadratic(s) => s.visible_terms(),
            AnySequence::Fibonacci(s) => s.visible_terms(),
            AnySequence::Tribonacci(s) => s.visible_terms(),
            AnySequence::Triangular(s) => s.visible_terms(),
            AnySequence::Squares(s) => s.visible_terms(),
            AnySequence::Cubes(s) => s.visible_terms(),
            AnySequence::Alternating(s) => s.visible_terms(),
        }
    }

    fn answer(&self) -> (r: i64) {
        match self {
            AnySequence::Arithmetic(s) => s.answer(),
            AnySequence::Geometric(s) => s.answer(),
            AnySequence::Quadratic(s) => s.answer(),
            AnySequence::Fibonacci(s) => s.answer(),
            AnySequence::Tribonacci(s) => s.answer(),
            AnySequence::Triangular(s) => s.answer(),
            AnySequence::Squares(s) => s.answer(),
            AnySequence::Cubes(s) => s.answer(),
            AnySequence::Alternating(s) => s.answer(),
        }
    }

    fn kind(&self) -> (r: SequenceKind) {
        match self {
            AnySequence::Arithmetic(s) => s.kind(),
            AnySequence::Geometric(s) => s.kind(),
            AnySequence::Quadratic(s) => s.kind(),
            AnySequence::Fibonacci(s) => s.kind(),
            AnySequence::Tribonacci(s) => s.kind(),
            AnySequence::Triangular(s) => s.kind(),
            AnySequence::Squares(s) => s.kind(),
            AnySequence::Cubes(s) => s.kind(),
            AnySequence::Alternating(s) => s.kind(),
        }
    }
}

/// Draws a sequence of family `kind` at difficulty `difficulty`, asking for
/// `n` visible terms.
pub fn generate(kind: SequenceKind, difficulty: Difficulty, n: usize, rng: &mut SmallRng) -> (r: AnySequence)
    requires
        generable(kind, difficulty, n as nat),
    ensures
        r.family() == kind,
        is_sequence_of(kind, difficulty, n as nat, r.shown(), r.hidden()),
{
    match kind {
        SequenceKind::Arithmetic => AnySequence::Arithmetic(ArithmeticSeq::generate(difficulty, n, rng)),
        SequenceKind::Geometric => AnySequence::Geometric(GeometricSeq::generate(difficulty, n, rng)),
        SequenceKind::Quadratic => AnySequence::Quadratic(QuadraticSeq::generate(difficulty, n, rng)),
        SequenceKind::Fibonacci => AnySequence::Fibonacci(FibonacciSeq::generate(difficulty, n, rng)),
        SequenceKind::Tribonacci => AnySequence::Tribonacci(TribonacciSeq::generate(difficulty, n, rng)),
        SequenceKind::Triangular => AnySequence::Triangular(TriangularSeq::generate(difficulty, n, rng)),
        SequenceKind::Squares => AnySequence::Squares(SquaresSeq::generate(difficulty, n, rng)),
        SequenceKind::Cubes => AnySequence::Cubes(CubesSeq::generate(difficulty, n, rng)),
        SequenceKind::Alternating => AnySequence::Alternating(AlternatingSeq::generate(difficulty, n, rng)),
    }
}

} // verus!
