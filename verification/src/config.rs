//! Session configuration: difficulty, time limit and the enabled
//! sequence families.

use vstd::prelude::*;
use crate::sequences::{all_kinds, SequenceKind};

verus! {

/// How hard the generated sequences are.
#[derive(Debug, Clone, Copy, PartialEq, Eq, Structural)]
pub enum Difficulty {
    Easy,
    Medium,
    Hard,
}

/// The difficulties, in the order in which the configuration screen lists them.
pub open spec fn all_difficulties() -> Seq<Difficulty> {
    seq![Difficulty::Easy, Difficulty::Medium, Difficulty::Hard]
}

pub open spec fn difficulty_label(d: Difficulty) -> Seq<char> {
    match d {
        Difficulty::Easy => "Easy"@,
        Difficulty::Medium => "Medium"@,
        Difficulty::Hard => "Hard"@,
    }
}

impl Difficulty {
    /// The difficulties in display order.
    pub fn all() -> (r: Vec<Difficulty>)
        ensures
            r@ == all_difficulties(),
    {
        vec![Difficulty::Easy, Difficulty::Medium, Difficulty::Hard]
    }

    /// The name shown for this difficulty.
    pub fn label(&self) -> (r: &'static str)
        ensures
            r@ == difficulty_label(*self),
    {
        match self {
            Difficulty::Easy => "Easy",
            Difficulty::Medium => "Medium",
            Difficulty::Hard => "Hard",
        }
    }
}

/// How long a testing session lasts: one, five, ten or fifteen minutes.
#[derive(Debug, Clone, Copy, PartialEq, Eq, Structural)]
pub enum TimeLimit {
    OneMinute,
    FiveMinutes,
    TenMinutes,
    FifteenMinutes,
}

/// The time limits, in the order in which the configuration screen lists them.
pub open spec fn all_time_limits() -> Seq<TimeLimit> {
    seq![TimeLimit::OneMinute, TimeLimit::FiveMinutes, TimeLimit::TenMinutes, TimeLimit::FifteenMinutes]
}

pub open spec fn time_limit_label(t: TimeLimit) -> Seq<char> {
    match t {
        TimeLimit::OneMinute => "60s"@,
        TimeLimit::FiveMinutes => "300s"@,
        TimeLimit::TenMinutes => "600s"@,
        TimeLimit::FifteenMinutes => "900s"@,
    }
}

pub open spec fn time_limit_seconds(t: TimeLimit) -> nat {
    match t {
        TimeLimit::OneMinute => 60,
        TimeLimit::FiveMinutes => 300,
        TimeLimit::TenMinutes => 600,
        TimeLimit::FifteenMinutes => 900,
    }
}

impl TimeLimit {
    /// The time limits in display order.
    pub fn all() -> (r: Vec<TimeLimit>)
        ensures
            r@ == all_time_limits(),
    {
        vec![TimeLimit::OneMinute, TimeLimit::FiveMinutes, TimeLimit::TenMinutes, TimeLimit::FifteenMinutes]
    }

    /// The name shown for this time limit.
    pub fn label(&self) -> (r: &'static str)
        ensures
            r@ == time_limit_label(*self),
    {
        match self {
            TimeLimit::OneMinute => "60s",
            TimeLimit::FiveMinutes => "300s",
            TimeLimit::TenMinutes => "600s",
            TimeLimit::FifteenMinutes => "900s",
        }
    }

    /// The length of a session in seconds.
    pub fn seconds(&self) -> (r: u64)
        ensures
            r == time_limit_seconds(*self),
    {
        match self {
            TimeLimit::OneMinute => 60,
            TimeLimit::FiveMinutes => 300,
            TimeLimit::TenMinutes => 600,
            TimeLimit::FifteenMinutes => 900,
        }
    }
}

/// The numbers of visible terms a session can show, in display order.
pub open spec fn seq_len_choices() -> Seq<usize> {
    seq![5usize, 6usize, 7usize]
}

/// The numbers of visible terms a session can show, in display order.
pub fn seq_len_options() -> (r: Vec<usize>)
    ensures
        r@ == seq_len_choices(),
{
    vec![5, 6, 7]
}

/// The families of the Optiver preset.
pub open spec fn optiver_kinds() -> Seq<SequenceKind> {
    seq![
        SequenceKind::Arithmetic,
        SequenceKind::Geometric,
        SequenceKind::Quadratic,
        SequenceKind::Fibonacci,
        SequenceKind::Tribonacci,
        SequenceKind::Alternating,
    ]
}

/// The families of the Flow Traders preset.
pub open spec fn flow_traders_kinds() -> Seq<SequenceKind> {
    seq![
        SequenceKind::Arithmetic,
        SequenceKind::Geometric,
        SequenceKind::Fibonacci,
        SequenceKind::Squares,
        SequenceKind::Cubes,
        SequenceKind::Alternating,
    ]
}

/// The sequence families enabled by the Optiver preset.
pub fn optiver_preset() -> (r: Vec<SequenceKind>)
    ensures
        r@ == optiver_kinds(),
{
    vec![
        SequenceKind::Arithmetic,
        SequenceKind::Geometric,
        SequenceKind::Quadratic,
        SequenceKind::Fibonacci,
        SequenceKind::Tribonacci,
        SequenceKind::Alternating,
    ]
}

/// The sequence families enabled by the Flow Traders preset.
pub fn flow_traders_preset() -> (r: Vec<SequenceKind>)
    ensures
        r@ == flow_traders_kinds(),
{
    vec![
        SequenceKind::Arithmetic,
        SequenceKind::Geometric,
        SequenceKind::Fibonacci,
        SequenceKind::Squares,
        SequenceKind::Cubes,
        SequenceKind::Alternating,
    ]
}

/// What a session draws from, how hard it is and how long it lasts.
#[derive(Debug, Clone)]
pub struct TestConfig {
    pub enabled: Vec<SequenceKind>,
    pub difficulty: Difficulty,
    /// How many terms of each sequence are shown.
    pub seq_len: usize,
    pub time_limit: TimeLimit,
}

impl TestConfig {
    /// The configuration a new session starts from: every family enabled,
    /// medium difficulty, five visible terms, one minute.
    pub open spec fn is_default(&self) -> bool {
        &&& self.enabled@ == all_kinds()
        &&& self.difficulty == Difficulty::Medium
        &&& self.seq_len == 5
        &&& self.time_limit == TimeLimit::OneMinute
    }
}

impl Default for TestConfig {
    fn default() -> (r: Self)
        ensures
            r.is_default(),
    {
        TestConfig {
            enabled: SequenceKind::all(),
            difficulty: Difficulty::Medium,
            seq_len: 5,
            time_limit: TimeLimit::OneMinute,
        }
    }
}

} // verus!
