use sequences_rs::config::{flow_traders_preset, optiver_preset, seq_len_options, Difficulty, TestConfig, TimeLimit};
use sequences_rs::sequences::SequenceKind;

#[test]
fn difficulty_values() {
    assert_eq!(Difficulty::Easy.label(), "Easy");
    assert_eq!(Difficulty::Medium.label(), "Medium");
    assert_eq!(Difficulty::Hard.label(), "Hard");
    assert_eq!(Difficulty::all(), vec![Difficulty::Easy, Difficulty::Medium, Difficulty::Hard]);
}

#[test]
fn time_limit_values() {
    assert_eq!(TimeLimit::OneMinute.label(), "60s");
    assert_eq!(TimeLimit::FiveMinutes.label(), "300s");
    assert_eq!(TimeLimit::TenMinutes.label(), "600s");
    assert_eq!(TimeLimit::FifteenMinutes.label(), "900s");
    assert_eq!(TimeLimit::OneMinute.seconds(), 60);
    assert_eq!(TimeLimit::FiveMinutes.seconds(), 300);
    assert_eq!(TimeLimit::TenMinutes.seconds(), 600);
    assert_eq!(TimeLimit::FifteenMinutes.seconds(), 900);
    assert_eq!(TimeLimit::all().len(), 4);
}

#[test]
fn length_options() {
    assert_eq!(seq_len_options(), vec![5, 6, 7]);
}

#[test]
fn presets() {
    assert_eq!(
        optiver_preset(),
        vec![
            SequenceKind::Arithmetic,
            SequenceKind::Geometric,
            SequenceKind::Quadratic,
            SequenceKind::Fibonacci,
            SequenceKind::Tribonacci,
            SequenceKind::Alternating,
        ]
    );
    assert_eq!(
        flow_traders_preset(),
        vec![
            SequenceKind::Arithmetic,
            SequenceKind::Geometric,
            SequenceKind::Fibonacci,
            SequenceKind::Squares,
            SequenceKind::Cubes,
            SequenceKind::Alternating,
        ]
    );
}

#[test]
fn default_config() {
    let c = TestConfig::default();
    assert_eq!(c.enabled, SequenceKind::all());
    assert_eq!(c.difficulty, Difficulty::Medium);
    assert_eq!(c.seq_len, 5);
    assert_eq!(c.time_limit, TimeLimit::OneMinute);
}
