use rand::rngs::SmallRng;
use rand::SeedableRng;
use sequences_rs::config::Difficulty;
use sequences_rs::sequences::arithmetic::ArithmeticSeq;
use sequences_rs::sequences::fibonacci::{FibonacciSeq, TribonacciSeq};
use sequences_rs::sequences::geometric::GeometricSeq;
use sequences_rs::sequences::quadratic::QuadraticSeq;
use sequences_rs::sequences::special::{AlternatingSeq, CubesSeq, SquaresSeq, TriangularSeq};
use sequences_rs::sequences::{generate, Sequence, SequenceKind};

const DIFFICULTIES: [Difficulty; 3] = [Difficulty::Easy, Difficulty::Medium, Difficulty::Hard];

fn full(s: &impl Sequence) -> Vec<i64> {
    let mut v = s.visible_terms().to_vec();
    v.push(s.answer());
    v
}

#[test]
fn arithmetic_from_params_values() {
    let s = ArithmeticSeq::from_params(7, -3, 4);
    assert_eq!(s.visible_terms(), &[7, 4, 1, -2]);
    assert_eq!(s.answer(), -5);
    assert_eq!(s.kind(), SequenceKind::Arithmetic);
}

#[test]
fn arithmetic_generate_shape() {
    for seed in 0..200u64 {
        for d in DIFFICULTIES {
            let mut rng = SmallRng::seed_from_u64(seed);
            let s = ArithmeticSeq::generate(d, 5, &mut rng);
            let v = full(&s);
            assert_eq!(s.visible_terms().len(), 5);
            let step = v[1] - v[0];
            let (smax, kmax) = match d {
                Difficulty::Easy => (20, 10),
                Difficulty::Medium => (100, 20),
                Difficulty::Hard => (500, 50),
            };
            assert!(v[0] >= 1 && v[0] <= smax);
            assert!(step != 0 && step.abs() <= kmax);
            for i in 0..v.len() - 1 {
                assert_eq!(v[i + 1] - v[i], step);
            }
        }
    }
}

#[test]
fn arithmetic_steps_take_both_signs() {
    let mut up = false;
    let mut down = false;
    for seed in 0..100u64 {
        let mut rng = SmallRng::seed_from_u64(seed);
        let s = ArithmeticSeq::generate(Difficulty::Easy, 3, &mut rng);
        let v = full(&s);
        if v[1] > v[0] { up = true; } else { down = true; }
    }
    assert!(up && down);
}

#[test]
fn geometric_from_params_values() {
    let s = GeometricSeq::from_params(3, 2, 4);
    assert_eq!(s.visible_terms(), &[3, 6, 12, 24]);
    assert_eq!(s.answer(), 48);
    assert!(s.within_limit());
    let big = GeometricSeq::from_params(50, 5, 10);
    assert!(!big.within_limit());
}

#[test]
fn geometric_generate_shape() {
    for seed in 0..200u64 {
        for d in DIFFICULTIES {
            let mut rng = SmallRng::seed_from_u64(seed);
            let s = GeometricSeq::generate(d, 7, &mut rng);
            let v = full(&s);
            assert_eq!(s.visible_terms().len(), 7);
            assert!(v[0] >= 1);
            let ratio = v[1] / v[0];
            assert!(ratio >= 2);
            for i in 0..v.len() - 1 {
                assert_eq!(v[i + 1], v[i] * ratio);
            }
            assert!(v.iter().all(|t| t.abs() < 1_000_000));
        }
    }
}

#[test]
fn geometric_longest_generable_length() {
    let mut rng = SmallRng::seed_from_u64(11);
    let s = GeometricSeq::generate(Difficulty::Hard, 19, &mut rng);
    assert_eq!(s.visible_terms(), &[1, 2, 4, 8, 16, 32, 64, 128, 256, 512, 1024, 2048, 4096, 8192, 16384, 32768, 65536, 131072, 262144]);
    assert_eq!(s.answer(), 524288);
}

#[test]
fn quadratic_from_params_values() {
    let s = QuadraticSeq::from_params(2, 1, 3, 4);
    assert_eq!(s.visible_terms(), &[6, 13, 24, 39]);
    assert_eq!(s.answer(), 58);
}

#[test]
fn quadratic_generate_shape() {
    for seed in 0..200u64 {
        for d in DIFFICULTIES {
            let mut rng = SmallRng::seed_from_u64(seed);
            let s = QuadraticSeq::generate(d, 5, &mut rng);
            let v = full(&s);
            let second = v[2] - 2 * v[1] + v[0];
            assert!(second >= 2 && second % 2 == 0);
            for i in 0..v.len() - 2 {
                assert_eq!(v[i + 2] - 2 * v[i + 1] + v[i], second);
            }
        }
    }
}

#[test]
fn fibonacci_from_params_values() {
    let s = FibonacciSeq::from_params(2, 3, 5);
    assert_eq!(s.visible_terms(), &[2, 3, 5, 8, 13]);
    assert_eq!(s.answer(), 21);
}

#[test]
fn fibonacci_short_requests_keep_both_seeds() {
    let s = FibonacciSeq::from_params(4, 9, 0);
    assert_eq!(s.visible_terms(), &[4]);
    assert_eq!(s.answer(), 9);
    let s = FibonacciSeq::from_params(4, 9, 1);
    assert_eq!(s.visible_terms(), &[4]);
    assert_eq!(s.answer(), 9);
    let s = FibonacciSeq::from_params(4, 9, 2);
    assert_eq!(s.visible_terms(), &[4, 9]);
    assert_eq!(s.answer(), 13);
}

#[test]
fn fibonacci_generate_shape() {
    for seed in 0..200u64 {
        for d in DIFFICULTIES {
            let mut rng = SmallRng::seed_from_u64(seed);
            let s = FibonacciSeq::generate(d, 6, &mut rng);
            let v = full(&s);
            assert_eq!(v.len(), 7);
            for i in 2..v.len() {
                assert_eq!(v[i], v[i - 1] + v[i - 2]);
            }
        }
    }
}

#[test]
fn tribonacci_from_params_values() {
    let s = TribonacciSeq::from_params(1, 1, 2, 5);
    assert_eq!(s.visible_terms(), &[1, 1, 2, 4, 7]);
    assert_eq!(s.answer(), 13);
    let short = TribonacciSeq::from_params(1, 2, 3, 1);
    assert_eq!(short.visible_terms(), &[1, 2]);
    assert_eq!(short.answer(), 3);
}

#[test]
fn tribonacci_generate_shape() {
    for seed in 0..200u64 {
        for d in DIFFICULTIES {
            let mut rng = SmallRng::seed_from_u64(seed);
            let s = TribonacciSeq::generate(d, 6, &mut rng);
            let v = full(&s);
            for i in 3..v.len() {
                assert_eq!(v[i], v[i - 1] + v[i - 2] + v[i - 3]);
            }
        }
    }
}

#[test]
fn figurate_from_params_values() {
    let t = TriangularSeq::from_params(3, 4);
    assert_eq!(t.visible_terms(), &[6, 10, 15, 21]);
    assert_eq!(t.answer(), 28);
    let s = SquaresSeq::from_params(2, 3);
    assert_eq!(s.visible_terms(), &[4, 9, 16]);
    assert_eq!(s.answer(), 25);
    let c = CubesSeq::from_params(1, 3);
    assert_eq!(c.visible_terms(), &[1, 8, 27]);
    assert_eq!(c.answer(), 64);
}

#[test]
fn figurate_generate_shapes() {
    for seed in 0..100u64 {
        for d in DIFFICULTIES {
            let mut rng = SmallRng::seed_from_u64(seed);
            let t = full(&TriangularSeq::generate(d, 5, &mut rng));
            for i in 0..t.len() - 2 {
                assert_eq!(t[i + 2] - 2 * t[i + 1] + t[i], 1);
            }
            let s = full(&SquaresSeq::generate(d, 5, &mut rng));
            for i in 0..s.len() - 2 {
                assert_eq!(s[i + 2] - 2 * s[i + 1] + s[i], 2);
            }
            let c = full(&CubesSeq::generate(d, 5, &mut rng));
            for i in 0..c.len() - 3 {
                assert_eq!(c[i + 3] - 3 * c[i + 2] + 3 * c[i + 1] - c[i], 6);
            }
        }
    }
}

#[test]
fn alternating_from_params_values() {
    let s = AlternatingSeq::from_params(1, 2, 20, 5, 5);
    assert_eq!(s.visible_terms(), &[1, 20, 3, 25, 5]);
    assert_eq!(s.answer(), 30);
}

#[test]
fn alternating_generate_shape() {
    for seed in 0..200u64 {
        for d in DIFFICULTIES {
            let mut rng = SmallRng::seed_from_u64(seed);
            let v = full(&AlternatingSeq::generate(d, 6, &mut rng));
            let even = v[2] - v[0];
            let odd = v[3] - v[1];
            assert!((1..=5).contains(&even));
            assert!((5..=20).contains(&odd));
            for i in 0..v.len() - 2 {
                assert_eq!(v[i + 2] - v[i], if i % 2 == 0 { even } else { odd });
            }
        }
    }
}

#[test]
fn generate_dispatches_on_kind() {
    let kinds = SequenceKind::all();
    assert_eq!(kinds.len(), 9);
    for seed in 0..20u64 {
        for k in kinds.iter() {
            let mut rng = SmallRng::seed_from_u64(seed);
            let s = generate(*k, Difficulty::Medium, 4, &mut rng);
            assert_eq!(s.kind(), *k);
            let expected_len = match k {
                SequenceKind::Fibonacci | SequenceKind::Tribonacci => 4,
                _ => 4,
            };
            assert_eq!(s.visible_terms().len(), expected_len);
        }
    }
}

#[test]
fn kind_labels() {
    assert_eq!(SequenceKind::Arithmetic.label(), "Arithmetic");
    assert_eq!(SequenceKind::Squares.label(), "Squares (n²)");
    assert_eq!(SequenceKind::Cubes.label(), "Cubes (n³)");
    assert_eq!(SequenceKind::Alternating.label(), "Alternating");
}
