//! Fibonacci-like sequences: each term is the sum of the previous two
//! (Fibonacci) or three (Tribonacci) terms.

use vstd::prelude::*;
use rand::rngs::SmallRng;
use crate::config::Difficulty;
use crate::random::draw_i64;
use super::{Sequence, SequenceKind};
use super::geometric::pow;

verus! {

// ----- Fibonacci -----

/// The largest seed drawn at a difficulty.
pub open spec fn fibonacci_seed_max(d: Difficulty) -> int {
    match d {
        Difficulty::Easy => 5,
        Difficulty::Medium => 20,
        Difficulty::Hard => 50,
    }
}

/// Term `k` of the sequence that starts with `a`, `b`.
pub open spec fn fibonacci_value(a: int, b: int, k: nat) -> int
    decreases k,
{
    if k == 0 {
        a
    } else if k == 1 {
        b
    } else {
        fibonacci_value(a, b, (k - 1) as nat) + fibonacci_value(a, b, (k - 2) as nat)
    }
}

/// How many terms are visible when `n` are asked for: the two seeds are
/// always drawn, so at least one term is shown.
pub open spec fn fibonacci_shown_len(n: nat) -> nat {
    if n == 0 { 1 } else { n }
}

/// `terms` and then `answer` are the terms 0, 1, ... of the sequence that starts with `a`, `b`.
pub open spec fn follows_fibonacci(terms: Seq<i64>, answer: i64, a: int, b: int) -> bool {
    &&& forall|i: int| 0 <= i < terms.len() ==> #[trigger] terms[i] == fibonacci_value(a, b, i as nat)
    &&& answer == fibonacci_value(a, b, terms.len())
}

/// Seeds that the generator can draw at difficulty `d`.
pub open spec fn fibonacci_draw(d: Difficulty, a: int, b: int) -> bool {
    &&& 1 <= a <= fibonacci_seed_max(d)
    &&& 1 <= b <= fibonacci_seed_max(d)
}

/// `n` visible terms asked for, and the terms shown and the next one of a
/// Fibonacci sequence that the generator can produce at difficulty `d`.
pub open spec fn is_fibonacci_of(d: Difficulty, n: nat, terms: Seq<i64>, answer: i64) -> bool {
    &&& terms.len() == fibonacci_shown_len(n)
    &&& exists|a: int, b: int| fibonacci_draw(d, a, b) && #[trigger] follows_fibonacci(terms, answer, a, b)
}

/// Positive seeds whose terms up to the answer stay within `i64`.
pub open spec fn fibonacci_fits(a: int, b: int, n: nat) -> bool {
    &&& 1 <= a <= i64::MAX
    &&& 1 <= b
    &&& fibonacci_value(a, b, fibonacci_shown_len(n)) <= i64::MAX
    &&& n < usize::MAX
}

/// Every draw at difficulty `d` stays within `i64`.
pub open spec fn fibonacci_generable(d: Difficulty, n: nat) -> bool {
    fibonacci_fits(fibonacci_seed_max(d), fibonacci_seed_max(d), n)
}

/// Term `i + 2` is the sum of terms `i + 1` and `i`.
pub open spec fn sum_of_two_before(s: Seq<i64>, i: int) -> bool {
    s[i + 2] == s[i + 1] + s[i]
}

/// Every term from the third on is the sum of the two before it.
pub open spec fn fibonacci_rule(s: Seq<i64>) -> bool {
    forall|i: int| 0 <= i && i + 2 < s.len() ==> #[trigger] sum_of_two_before(s, i)
}

/// With positive seeds every term is positive, and from term 1 on the terms never decrease.
proof fn lemma_fibonacci_grows(a: int, b: int, k: nat)
    requires
        1 <= a,
        1 <= b,
    ensures
        1 <= fibonacci_value(a, b, k),
        k >= 1 ==> fibonacci_value(a, b, k) <= fibonacci_value(a, b, k + 1),
    decreases k,
{
    if k >= 1 {
        lemma_fibonacci_grows(a, b, (k - 1) as nat);
    }
    if k >= 2 {
        lemma_fibonacci_grows(a, b, (k - 2) as nat);
    }
}

/// From term 1 on, no term exceeds a later one.
proof fn lemma_fibonacci_below(a: int, b: int, i: nat, k: nat)
    requires
        1 <= a,
        1 <= b,
        1 <= i <= k,
    ensures
        fibonacci_value(a, b, i) <= fibonacci_value(a, b, k),
    decreases k,
{
    if i < k {
        lemma_fibonacci_below(a, b, i, (k - 1) as nat);
        lemma_fibonacci_grows(a, b, (k - 1) as nat);
    }
}

/// Larger seeds give larger terms.
proof fn lemma_fibonacci_seeds(a: int, b: int, a2: int, b2: int, k: nat)
    requires
        a <= a2,
        b <= b2,
    ensures
        fibonacci_value(a, b, k) <= fibonacci_value(a2, b2, k),
    decreases k,
{
    if k >= 2 {
        lemma_fibonacci_seeds(a, b, a2, b2, (k - 1) as nat);
        lemma_fibonacci_seeds(a, b, a2, b2, (k - 2) as nat);
    }
}

/// With seeds at most `h`, term `k` is at most `h * 2^k`.
proof fn lemma_fibonacci_doubling(a: int, b: int, h: int, k: nat)
    requires
        1 <= a <= h,
        1 <= b <= h,
    ensures
        fibonacci_value(a, b, k) <= h * pow(2, k),
    decreases k,
{
    if k == 0 {
        assert(pow(2, 0) == 1);
        assert(h * 1 == h);
    } else if k == 1 {
        assert(pow(2, 1) == 2) by {
            reveal_with_fuel(pow, 2);
        }
        assert(h <= h * 2);
    } else {
        lemma_fibonacci_doubling(a, b, h, (k - 1) as nat);
        lemma_fibonacci_doubling(a, b, h, (k - 2) as nat);
        let p = pow(2, (k - 2) as nat);
        lemma_pow_two_nonneg((k - 2) as nat);
        assert(pow(2, (k - 1) as nat) == 2 * p);
        assert(pow(2, k) == 2 * pow(2, (k - 1) as nat));
        assert(h * p + h * (2 * p) <= h * (2 * (2 * p))) by (nonlinear_arith)
            requires
                h >= 1,
                p >= 0,
        ;
        assert(h * pow(2, (k - 1) as nat) == h * (2 * p));
        assert(h * pow(2, k) == h * (2 * (2 * p)));
    }
}

proof fn lemma_pow_two_nonneg(k: nat)
    ensures
        pow(2, k) >= 1,
    decreases k,
{
    if k > 0 {
        lemma_pow_two_nonneg((k - 1) as nat);
    }
}

/// Asked for at most 19 terms, every Fibonacci draw stays within `i64`.
pub proof fn lemma_fibonacci_generable_short(d: Difficulty, n: nat)
    requires
        n <= 19,
    ensures
        fibonacci_generable(d, n),
{
    let h = fibonacci_seed_max(d);
    let k = fibonacci_shown_len(n);
    lemma_fibonacci_doubling(h, h, h, k);
    super::geometric::lemma_pow_increases(2, k, 19);
    assert(pow(2, 19) == 524288) by {
        reveal_with_fuel(pow, 20);
    }
    let p = pow(2, k);
    assert(h * p <= 50 * 524288) by (nonlinear_arith)
        requires
            1 <= h <= 50,
            1 <= p <= 524288,
    ;
}

/// A Fibonacci sequence of the generator.
pub struct FibonacciSeq {
    terms: Vec<i64>,
    answer: i64,
}

impl FibonacciSeq {
    /// The sequence that starts with `a`, `b`, built until it holds
    /// `n_visible + 1` terms (at least the two seeds); the last is the answer.
    pub fn from_params(a: i64, b: i64, n_visible: usize) -> (r: Self)
        requires
            fibonacci_fits(a as int, b as int, n_visible as nat),
        ensures
            r.shown().len() == fibonacci_shown_len(n_visible as nat),
            follows_fibonacci(r.shown(), r.hidden(), a as int, b as int),
    {
        let mut all: Vec<i64> = vec![a, b];
        while all.len() <= n_visible
            invariant
                2 <= all@.len() <= fibonacci_shown_len(n_visible as nat) + 1,
                fibonacci_fits(a as int, b as int, n_visible as nat),
                forall|j: int| 0 <= j < all@.len() ==> #[trigger] all@[j] == fibonacci_value(a as int, b as int, j as nat),
            decreases n_visible + 1 - all@.len(),
        {
            let len = all.len();
            proof {
                lemma_fibonacci_below(a as int, b as int, len as nat, fibonacci_shown_len(n_visible as nat));
                lemma_fibonacci_grows(a as int, b as int, (len - 2) as nat);
            }
            let next = all[len - 1] + all[len - 2];
            all.push(next);
        }
        let answer = all.pop().unwrap();
        FibonacciSeq { terms: all, answer }
    }

    /// Draws a Fibonacci sequence at difficulty `d` asking for `n_visible`
    /// terms: the two seeds, first and second.
    pub fn generate(difficulty: Difficulty, n_visible: usize, rng: &mut SmallRng) -> (r: Self)
        requires
            fibonacci_generable(difficulty, n_visible as nat),
        ensures
            is_fibonacci_of(difficulty, n_visible as nat, r.shown(), r.hidden()),
    {
        let seed_max: i64 = match difficulty {
            Difficulty::Easy => 5,
            Difficulty::Medium => 20,
            Difficulty::Hard => 50,
        };
        let a = draw_i64(rng, 1, seed_max);
        let b = draw_i64(rng, 1, seed_max);
        proof {
            lemma_fibonacci_seeds(a as int, b as int, seed_max as int, seed_max as int,
                fibonacci_shown_len(n_visible as nat));
        }
        let r = Self::from_params(a, b, n_visible);
        assert(fibonacci_draw(difficulty, a as int, b as int));
        r
    }
}

impl Sequence for FibonacciSeq {
    closed spec fn shown(&self) -> Seq<i64> {
        self.terms@
    }

    closed spec fn hidden(&self) -> i64 {
        self.answer
    }

    open spec fn family(&self) -> SequenceKind {
        SequenceKind::Fibonacci
    }

    fn visible_terms(&self) -> (r: &[i64]) {
        self.terms.as_slice()
    }

    fn answer(&self) -> (r: i64) {
        self.answer
    }

    fn kind(&self) -> (r: SequenceKind) {
        SequenceKind::Fibonacci
    }
}

/// In a generated Fibonacci sequence, visible terms followed by the answer,
/// every term from the third on is the sum of the two before it.
pub proof fn lemma_fibonacci_sum_rule(d: Difficulty, n: nat, terms: Seq<i64>, answer: i64)
    requires
        is_fibonacci_of(d, n, terms, answer),
    ensures
        fibonacci_rule(terms.push(answer)),
{
    let (a, b) = choose|a: int, b: int| fibonacci_draw(d, a, b) && #[trigger] follows_fibonacci(terms, answer, a, b);
    let s = terms.push(answer);
    assert forall|i: int| 0 <= i < s.len() implies #[trigger] s[i] == fibonacci_value(a, b, i as nat) by {
        if i < terms.len() {
            assert(s[i] == terms[i]);
        }
    }
    assert forall|i: int| 0 <= i && i + 2 < s.len() implies #[trigger] sum_of_two_before(s, i) by {
        assert(s[i + 2] == fibonacci_value(a, b, (i + 2) as nat));
        assert(s[i + 1] == fibonacci_value(a, b, (i + 1) as nat));
        assert(s[i] == fibonacci_value(a, b, i as nat));
    }
}

// ----- Tribonacci -----

/// The largest seed drawn at a difficulty.
pub open spec fn tribonacci_seed_max(d: Difficulty) -> int {
    match d {
        Difficulty::Easy => 3,
        Difficulty::Medium => 10,
        Difficulty::Hard => 20,
    }
}

/// Term `k` of the sequence that starts with `a`, `b`, `c`.
pub open spec fn tribonacci_value(a: int, b: int, c: int, k: nat) -> int
    decreases k,
{
    if k == 0 {
        a
    } else if k == 1 {
        b
    } else if k == 2 {
        c
    } else {
        tribonacci_value(a, b, c, (k - 1) as nat) + tribonacci_value(a, b, c, (k - 2) as nat)
            + tribonacci_value(a, b, c, (k - 3) as nat)
    }
}

/// How many terms are visible when `n` are asked for: the three seeds are
/// always drawn, so at least two terms are shown.
pub open spec fn tribonacci_shown_len(n: nat) -> nat {
    if n < 2 { 2 } else { n }
}

/// `terms` and then `answer` are the terms 0, 1, ... of the sequence that starts with `a`, `b`, `c`.
pub open spec fn follows_tribonacci(terms: Seq<i64>, answer: i64, a: int, b: int, c: int) -> bool {
    &&& forall|i: int| 0 <= i < terms.len() ==> #[trigger] terms[i] == tribonacci_value(a, b, c, i as nat)
    &&& answer == tribonacci_value(a, b, c, terms.len())
}

/// Seeds that the generator can draw at difficulty `d`.
pub open spec fn tribonacci_draw(d: Difficulty, a: int, b: int, c: int) -> bool {
    &&& 1 <= a <= tribonacci_seed_max(d)
    &&& 1 <= b <= tribonacci_seed_max(d)
    &&& 1 <= c <= tribonacci_seed_max(d)
}

/// `n` visible terms asked for, and the terms shown and the next one of a
/// Tribonacci sequence that the generator can produce at difficulty `d`.
pub open spec fn is_tribonacci_of(d: Difficulty, n: nat, terms: Seq<i64>, answer: i64) -> bool {
    &&& terms.len() == tribonacci_shown_len(n)
    &&& exists|a: int, b: int, c: int|
        tribonacci_draw(d, a, b, c) && #[trigger] follows_tribonacci(terms, answer, a, b, c)
}

/// Positive seeds whose terms up to the answer stay within `i64`.
pub open spec fn tribonacci_fits(a: int, b: int, c: int, n: nat) -> bool {
    &&& 1 <= a <= i64::MAX
    &&& 1 <= b <= i64::MAX
    &&& 1 <= c
    &&& tribonacci_value(a, b, c, tribonacci_shown_len(n)) <= i64::MAX
    &&& n < usize::MAX
}

/// Every draw at difficulty `d` stays within `i64`.
pub open spec fn tribonacci_generable(d: Difficulty, n: nat) -> bool {
    tribonacci_fits(tribonacci_seed_max(d), tribonacci_seed_max(d), tribonacci_seed_max(d), n)
}

/// Term `i + 3` is the sum of terms `i + 2`, `i + 1` and `i`.
pub open spec fn sum_of_three_before(s: Seq<i64>, i: int) -> bool {
    s[i + 3] == s[i + 2] + s[i + 1] + s[i]
}

/// Every term from the fourth on is the sum of the three before it.
pub open spec fn tribonacci_rule(s: Seq<i64>) -> bool {
    forall|i: int| 0 <= i && i + 3 < s.len() ==> #[trigger] sum_of_three_before(s, i)
}

proof fn lemma_tribonacci_grows(a: int, b: int, c: int, k: nat)
    requires
        1 <= a,
        1 <= b,
        1 <= c,
    ensures
        1 <= tribonacci_value(a, b, c, k),
        k >= 2 ==> tribonacci_value(a, b, c, k) <= tribonacci_value(a, b, c, k + 1),
    decreases k,
{
    if k >= 1 {
        lemma_tribonacci_grows(a, b, c, (k - 1) as nat);
    }
    if k >= 2 {
        lemma_tribonacci_grows(a, b, c, (k - 2) as nat);
    }
    if k >= 3 {
        lemma_tribonacci_grows(a, b, c, (k - 3) as nat);
    }
}

proof fn lemma_tribonacci_below(a: int, b: int, c: int, i: nat, k: nat)
    requires
        1 <= a,
        1 <= b,
        1 <= c,
        2 <= i <= k,
    ensures
        tribonacci_value(a, b, c, i) <= tribonacci_value(a, b, c, k),
    decreases k,
{
    if i < k {
        lemma_tribonacci_below(a, b, c, i, (k - 1) as nat);
        lemma_tribonacci_grows(a, b, c, (k - 1) as nat);
    }
}

proof fn lemma_tribonacci_seeds(a: int, b: int, c: int, a2: int, b2: int, c2: int, k: nat)
    requires
        a <= a2,
        b <= b2,
        c <= c2,
    ensures
        tribonacci_value(a, b, c, k) <= tribonacci_value(a2, b2, c2, k),
    decreases k,
{
    if k >= 3 {
        lemma_tribonacci_seeds(a, b, c, a2, b2, c2, (k - 1) as nat);
        lemma_tribonacci_seeds(a, b, c, a2, b2, c2, (k - 2) as nat);
        lemma_tribonacci_seeds(a, b, c, a2, b2, c2, (k - 3) as nat);
    }
}

/// With seeds at most `h`, term `k` is at most `h * 3^k`.
proof fn lemma_tribonacci_tripling(a: int, b: int, c: int, h: int, k: nat)
    requires
        1 <= a <= h,
        1 <= b <= h,
        1 <= c <= h,
    ensures
        tribonacci_value(a, b, c, k) <= h * pow(3, k),
    decreases k,
{
    if k == 0 {
        assert(pow(3, 0) == 1);
        assert(h * 1 == h);
    } else if k == 1 {
        assert(pow(3, 1) == 3) by {
            reveal_with_fuel(pow, 2);
        }
        assert(h <= h * 3);
    } else if k == 2 {
        assert(pow(3, 2) == 9) by {
            reveal_with_fuel(pow, 3);
        }
        assert(h <= h * 9);
    } else {
        lemma_tribonacci_tripling(a, b, c, h, (k - 1) as nat);
        lemma_tribonacci_tripling(a, b, c, h, (k - 2) as nat);
        lemma_tribonacci_tripling(a, b, c, h, (k - 3) as nat);
        let p = pow(3, (k - 3) as nat);
        assert(pow(3, (k - 2) as nat) == 3 * p);
        assert(pow(3, (k - 1) as nat) == 3 * pow(3, (k - 2) as nat));
        assert(pow(3, k) == 3 * pow(3, (k - 1) as nat));
        super::geometric::lemma_pow_increases(3, 0, (k - 3) as nat);
        assert(h * p + h * (3 * p) + h * (3 * (3 * p)) <= h * (3 * (3 * (3 * p)))) by (nonlinear_arith)
            requires
                h >= 1,
                p >= 0,
        ;
        assert(h * pow(3, (k - 2) as nat) == h * (3 * p));
        assert(h * pow(3, (k - 1) as nat) == h * (3 * (3 * p)));
        assert(h * pow(3, k) == h * (3 * (3 * (3 * p))));
    }
}

/// Asked for at most 19 terms, every Tribonacci draw stays within `i64`.
pub proof fn lemma_tribonacci_generable_short(d: Difficulty, n: nat)
    requires
        n <= 19,
    ensures
        tribonacci_generable(d, n),
{
    let h = tribonacci_seed_max(d);
    let k = tribonacci_shown_len(n);
    lemma_tribonacci_tripling(h, h, h, h, k);
    super::geometric::lemma_pow_increases(3, k, 19);
    assert(pow(3, 19) == 1162261467) by {
        reveal_with_fuel(pow, 20);
    }
    let p = pow(3, k);
    assert(h * p <= 20 * 1162261467) by (nonlinear_arith)
        requires
            1 <= h <= 20,
            1 <= p <= 1162261467,
    ;
}

/// A Tribonacci sequence of the generator.
pub struct TribonacciSeq {
    terms: Vec<i64>,
    answer: i64,
}

impl TribonacciSeq {
    /// The sequence that starts with `a`, `b`, `c`, built until it holds
    /// `n_visible + 1` terms (at least the three seeds); the last is the answer.
    pub fn from_params(a: i64, b: i64, c: i64, n_visible: usize) -> (r: Self)
        requires
            tribonacci_fits(a as int, b as int, c as int, n_visible as nat),
        ensures
            r.shown().len() == tribonacci_shown_len(n_visible as nat),
            follows_tribonacci(r.shown(), r.hidden(), a as int, b as int, c as int),
    {
        let mut all: Vec<i64> = vec![a, b, c];
        while all.len() <= n_visible
            invariant
                3 <= all@.len() <= tribonacci_shown_len(n_visible as nat) + 1,
                tribonacci_fits(a as int, b as int, c as int, n_visible as nat),
                forall|j: int| 0 <= j < all@.len() ==> #[trigger] all@[j] == tribonacci_value(a as int, b as int, c as int, j as nat),
            decreases n_visible + 1 - all@.len(),
        {
            let n = all.len();
            proof {
                lemma_tribonacci_below(a as int, b as int, c as int, n as nat, tribonacci_shown_len(n_visible as nat));
                lemma_tribonacci_grows(a as int, b as int, c as int, (n - 1) as nat);
                lemma_tribonacci_grows(a as int, b as int, c as int, (n - 2) as nat);
                lemma_tribonacci_grows(a as int, b as int, c as int, (n - 3) as nat);
            }
            all.push(all[n - 1] + all[n - 2] + all[n - 3]);
        }
        let answer = all.pop().unwrap();
        TribonacciSeq { terms: all, answer }
    }

    /// Draws a Tribonacci sequence at difficulty `d` asking for `n_visible`
    /// terms: the three seeds in order.
    pub fn generate(difficulty: Difficulty, n_visible: usize, rng: &mut SmallRng) -> (r: Self)
        requires
            tribonacci_generable(difficulty, n_visible as nat),
        ensures
            is_tribonacci_of(difficulty, n_visible as nat, r.shown(), r.hidden()),
    {
        let seed_max: i64 = match difficulty {
            Difficulty::Easy => 3,
            Difficulty::Medium => 10,
            Difficulty::Hard => 20,
        };
        let a = draw_i64(rng, 1, seed_max);
        let b = draw_i64(rng, 1, seed_max);
        let c = draw_i64(rng, 1, seed_max);
        proof {
            lemma_tribonacci_seeds(a as int, b as int, c as int, seed_max as int, seed_max as int,
                seed_max as int, tribonacci_shown_len(n_visible as nat));
        }
        let r = Self::from_params(a, b, c, n_visible);
        assert(tribonacci_draw(difficulty, a as int, b as int, c as int));
        r
    }
}

impl Sequence for TribonacciSeq {
    closed spec fn shown(&self) -> Seq<i64> {
        self.terms@
    }

    closed spec fn hidden(&self) -> i64 {
        self.answer
    }

    open spec fn family(&self) -> SequenceKind {
        SequenceKind::Tribonacci
    }

    fn visible_terms(&self) -> (r: &[i64]) {
        self.terms.as_slice()
    }

    fn answer(&self) -> (r: i64) {
        self.answer
    }

    fn kind(&self) -> (r: SequenceKind) {
        SequenceKind::Tribonacci
    }
}

/// In a generated Tribonacci sequence, visible terms followed by the
/// answer, every term from the fourth on is the sum of the three before it.
pub proof fn lemma_tribonacci_sum_rule(d: Difficulty, n: nat, terms: Seq<i64>, answer: i64)
    requires
        is_tribonacci_of(d, n, terms, answer),
    ensures
        tribonacci_rule(terms.push(answer)),
{
    let (a, b, c) = choose|a: int, b: int, c: int|
        tribonacci_draw(d, a, b, c) && #[trigger] follows_tribonacci(terms, answer, a, b, c);
    let s = terms.push(answer);
    assert forall|i: int| 0 <= i < s.len() implies #[trigger] s[i] == tribonacci_value(a, b, c, i as nat) by {
        if i < terms.len() {
            assert(s[i] == terms[i]);
        }
    }
    assert forall|i: int| 0 <= i && i + 3 < s.len() implies #[trigger] sum_of_three_before(s, i) by {
        assert(s[i + 3] == tribonacci_value(a, b, c, (i + 3) as nat));
        assert(s[i + 2] == tribonacci_value(a, b, c, (i + 2) as nat));
        assert(s[i + 1] == tribonacci_value(a, b, c, (i + 1) as nat));
        assert(s[i] == tribonacci_value(a, b, c, i as nat));
    }
}

} // verus!
