//! The drill: the configuration screen's cursor and toggles, the questions
//! of a testing session, and the tally of answers.

use vstd::prelude::*;
use vstd::slice::slice_to_vec;
use std::time::Instant;
use rand::rngs::SmallRng;
use crate::clock::{elapsed_since, instant_now, whole_seconds};
use crate::config::{
    all_difficulties, all_time_limits, difficulty_label, flow_traders_kinds, flow_traders_preset, optiver_kinds, optiver_preset,
    seq_len_choices, seq_len_options, time_limit_seconds, Difficulty, TestConfig, TimeLimit,
};
use crate::history::HistoryEntry;
use crate::decimal::{decimal_text, i64_text_value, lemma_decimal_text, lemma_unsigned_round_trip, parse_i64};
use crate::random::{draw_index, try_seeded_from_os};
use crate::sequences::{
    all_kinds, generable, generate, is_sequence_of, lemma_short_sequences_generable, Sequence, SequenceKind,
};
use crate::text::clear_string;

verus! {

/// The screen the drill is on.
#[derive(Debug, Clone, Copy, PartialEq, Eq, Structural)]
pub enum AppState {
    Configuration,
    Testing,
    Results,
    History,
}

/// The buttons of the results screen, in display order.
#[derive(Debug, Clone, Copy, PartialEq, Eq, Structural)]
pub enum ResultsButton {
    Restart,
    History,
    Quit,
}

/// The button after `b`, wrapping around.
pub open spec fn next_button(b: ResultsButton) -> ResultsButton {
    match b {
        ResultsButton::Restart => ResultsButton::History,
        ResultsButton::History => ResultsButton::Quit,
        ResultsButton::Quit => ResultsButton::Restart,
    }
}

/// The button before `b`, wrapping around.
pub open spec fn prev_button(b: ResultsButton) -> ResultsButton {
    match b {
        ResultsButton::Restart => ResultsButton::Quit,
        ResultsButton::History => ResultsButton::Restart,
        ResultsButton::Quit => ResultsButton::History,
    }
}

impl ResultsButton {
    /// The button after this one, wrapping around.
    pub fn next(&self) -> (r: ResultsButton)
        ensures
            r == next_button(*self),
    {
        match self {
            ResultsButton::Restart => ResultsButton::History,
            ResultsButton::History => ResultsButton::Quit,
            ResultsButton::Quit => ResultsButton::Restart,
        }
    }

    /// The button before this one, wrapping around.
    pub fn prev(&self) -> (r: ResultsButton)
        ensures
            r == prev_button(*self),
    {
        match self {
            ResultsButton::Restart => ResultsButton::Quit,
            ResultsButton::History => ResultsButton::Restart,
            ResultsButton::Quit => ResultsButton::History,
        }
    }
}

/// The part of the configuration screen that has the focus.
#[derive(Debug, Clone, Copy, PartialEq, Eq, Structural)]
pub enum ConfigSection {
    Types,
    Difficulty,
    Length,
    TimeLimit,
    Start,
}

/// The question on screen: the visible terms, the expected next term and
/// the family of the sequence.
pub struct Question {
    pub visible_terms: Vec<i64>,
    pub answer: i64,
    pub kind: SequenceKind,
}

/// The whole state of the drill.
pub struct App {
    pub state: AppState,
    pub config: TestConfig,
    pub cursor: usize,
    pub config_section: ConfigSection,
    pub current: Option<Question>,
    pub input: String,
    pub score: u32,
    pub total: u32,
    pub correct: u32,
    pub start_time: Option<Instant>,
    /// Per family: the family, the answers right, the questions counted.
    pub per_kind: Vec<(SequenceKind, u32, u32)>,
    /// The button that has the focus on the results screen.
    pub results_button: ResultsButton,
    /// Whole seconds the last session ran.
    pub session_duration: u64,
    /// The recorded sessions shown on the history screen, most recent first.
    pub history: Vec<HistoryEntry>,
    /// The highlighted row of the history screen.
    pub history_scroll: usize,
    /// The generator the questions are drawn from.
    pub rng: SmallRng,
}

// ----- the tally -----

/// One tally row per family, in display order, all zero.
pub open spec fn fresh_tally() -> Seq<(SequenceKind, u32, u32)> {
    all_kinds().map_values(|k: SequenceKind| (k, 0u32, 0u32))
}

/// The first row of the tally for family `k`, or the tally's length when none is.
pub open spec fn kind_slot(t: Seq<(SequenceKind, u32, u32)>, k: SequenceKind) -> int
    decreases t.len(),
{
    if t.len() == 0 {
        0
    } else if t[0].0 == k {
        0
    } else {
        1 + kind_slot(t.drop_first(), k)
    }
}

/// The tally after one more question of family `k`, answered right when `hit`:
/// the first row of `k` counts it; without such a row nothing changes.
pub open spec fn tally_after(t: Seq<(SequenceKind, u32, u32)>, k: SequenceKind, hit: bool) -> Seq<(SequenceKind, u32, u32)> {
    let i = kind_slot(t, k);
    if i < t.len() {
        t.update(i, (t[i].0, if hit { (t[i].1 + 1) as u32 } else { t[i].1 }, (t[i].2 + 1) as u32))
    } else {
        t
    }
}

/// The row that counts family `k` has room for one more question (and one
/// more right answer when `hit`).
pub open spec fn tally_has_room(t: Seq<(SequenceKind, u32, u32)>, k: SequenceKind, hit: bool) -> bool {
    let i = kind_slot(t, k);
    i < t.len() ==> (t[i].2 < u32::MAX && (hit ==> t[i].1 < u32::MAX))
}

/// The questions counted over all rows.
pub open spec fn tally_total(t: Seq<(SequenceKind, u32, u32)>) -> int
    decreases t.len(),
{
    if t.len() == 0 {
        0
    } else {
        tally_total(t.drop_last()) + t.last().2
    }
}

/// The right answers counted over all rows.
pub open spec fn tally_correct(t: Seq<(SequenceKind, u32, u32)>) -> int
    decreases t.len(),
{
    if t.len() == 0 {
        0
    } else {
        tally_correct(t.drop_last()) + t.last().1
    }
}

/// The position of a family in display order.
pub open spec fn kind_index(k: SequenceKind) -> int {
    match k {
        SequenceKind::Arithmetic => 0,
        SequenceKind::Geometric => 1,
        SequenceKind::Quadratic => 2,
        SequenceKind::Fibonacci => 3,
        SequenceKind::Tribonacci => 4,
        SequenceKind::Triangular => 5,
        SequenceKind::Squares => 6,
        SequenceKind::Cubes => 7,
        SequenceKind::Alternating => 8,
    }
}

proof fn lemma_kind_index(k: SequenceKind)
    ensures
        0 <= kind_index(k) < 9,
        all_kinds().len() == 9,
        all_kinds()[kind_index(k)] == k,
        forall|j: int| 0 <= j < kind_index(k) ==> #[trigger] all_kinds()[j] != k,
{
    let a = all_kinds();
    assert(a[0] == SequenceKind::Arithmetic);
    assert(a[1] == SequenceKind::Geometric);
    assert(a[2] == SequenceKind::Quadratic);
    assert(a[3] == SequenceKind::Fibonacci);
    assert(a[4] == SequenceKind::Tribonacci);
    assert(a[5] == SequenceKind::Triangular);
    assert(a[6] == SequenceKind::Squares);
    assert(a[7] == SequenceKind::Cubes);
    assert(a[8] == SequenceKind::Alternating);
}

proof fn lemma_kind_slot_at(t: Seq<(SequenceKind, u32, u32)>, k: SequenceKind, i: int)
    requires
        0 <= i <= t.len(),
        forall|j: int| 0 <= j < i ==> #[trigger] t[j].0 != k,
        i < t.len() ==> t[i].0 == k,
    ensures
        kind_slot(t, k) == i,
    decreases i,
{
    if i > 0 {
        let u = t.drop_first();
        assert forall|j: int| 0 <= j < i - 1 implies #[trigger] u[j].0 != k by {
            assert(u[j] == t[j + 1]);
        }
        lemma_kind_slot_at(u, k, i - 1);
    }
}

proof fn lemma_tally_update(t: Seq<(SequenceKind, u32, u32)>, i: int, x: (SequenceKind, u32, u32))
    requires
        0 <= i < t.len(),
    ensures
        tally_total(t.update(i, x)) == tally_total(t) - t[i].2 + x.2,
        tally_correct(t.update(i, x)) == tally_correct(t) - t[i].1 + x.1,
    decreases t.len(),
{
    let u = t.update(i, x);
    if i < t.len() - 1 {
        assert(u.drop_last() =~= t.drop_last().update(i, x));
        lemma_tally_update(t.drop_last(), i, x);
    } else {
        assert(u.drop_last() =~= t.drop_last());
    }
}

proof fn lemma_fresh_tally_sums(n: int)
    requires
        0 <= n <= 9,
    ensures
        tally_total(fresh_tally().take(n)) == 0,
        tally_correct(fresh_tally().take(n)) == 0,
    decreases n,
{
    if n > 0 {
        lemma_fresh_tally_sums(n - 1);
        assert(fresh_tally().take(n).drop_last() =~= fresh_tally().take(n - 1));
    }
}

// ----- sections and toggles -----

/// The section after `s`, wrapping around.
pub open spec fn next_section(s: ConfigSection) -> ConfigSection {
    match s {
        ConfigSection::Types => ConfigSection::Difficulty,
        ConfigSection::Difficulty => ConfigSection::Length,
        ConfigSection::Length => ConfigSection::TimeLimit,
        ConfigSection::TimeLimit => ConfigSection::Start,
        ConfigSection::Start => ConfigSection::Types,
    }
}

/// How many rows the section lists.
pub open spec fn section_rows(s: ConfigSection) -> nat {
    match s {
        ConfigSection::Types => 9,
        ConfigSection::Difficulty => 3,
        ConfigSection::Length => 3,
        ConfigSection::TimeLimit => 4,
        ConfigSection::Start => 1,
    }
}

/// The section before `s`, wrapping around.
pub open spec fn prev_section(s: ConfigSection) -> ConfigSection {
    match s {
        ConfigSection::Types => ConfigSection::Start,
        ConfigSection::Difficulty => ConfigSection::Types,
        ConfigSection::Length => ConfigSection::Difficulty,
        ConfigSection::TimeLimit => ConfigSection::Length,
        ConfigSection::Start => ConfigSection::TimeLimit,
    }
}

/// `s` with every occurrence of `k` removed, the rest in order.
pub open spec fn without(s: Seq<SequenceKind>, k: SequenceKind) -> Seq<SequenceKind>
    decreases s.len(),
{
    if s.len() == 0 {
        s
    } else if s.last() == k {
        without(s.drop_last(), k)
    } else {
        without(s.drop_last(), k).push(s.last())
    }
}

/// The enabled families after toggling `k`: removed if present, else added at the end.
pub open spec fn toggled(s: Seq<SequenceKind>, k: SequenceKind) -> Seq<SequenceKind> {
    if s.contains(k) {
        without(s, k)
    } else {
        s.push(k)
    }
}

proof fn lemma_push_contains(s: Seq<SequenceKind>, v: SequenceKind, x: SequenceKind)
    ensures
        s.push(v).contains(x) <==> (s.contains(x) || v == x),
{
    let t = s.push(v);
    if s.contains(x) {
        let i = choose|i: int| 0 <= i < s.len() && s[i] == x;
        assert(t[i] == x);
    }
    if v == x {
        assert(t[s.len() as int] == x);
    }
    if t.contains(x) && v != x {
        let i = choose|i: int| 0 <= i < t.len() && t[i] == x;
        assert(i < s.len());
        assert(s[i] == x);
    }
}

proof fn lemma_without(s: Seq<SequenceKind>, k: SequenceKind)
    ensures
        !without(s, k).contains(k),
        forall|x: SequenceKind| x != k ==> (#[trigger] without(s, k).contains(x) <==> s.contains(x)),
        !s.contains(k) ==> without(s, k) == s,
    decreases s.len(),
{
    if s.len() > 0 {
        let p = s.drop_last();
        let l = s.last();
        let r = without(p, k);
        lemma_without(p, k);
        assert(s =~= p.push(l));
        assert forall|x: SequenceKind| x != k implies (#[trigger] without(s, k).contains(x) <==> s.contains(x)) by {
            lemma_push_contains(p, l, x);
            lemma_push_contains(r, l, x);
            assert(r.contains(x) <==> p.contains(x));
        }
        lemma_push_contains(r, l, k);
        lemma_push_contains(p, l, k);
        if !s.contains(k) {
            assert(without(s, k) == r.push(l));
        }
    }
}

/// Toggling a family twice gives back the enabled set; when the family was
/// not enabled, it gives back the very same list.
pub proof fn lemma_toggle_twice(s: Seq<SequenceKind>, k: SequenceKind)
    ensures
        toggled(s, k).contains(k) == !s.contains(k),
        toggled(toggled(s, k), k).to_set() == s.to_set(),
        !s.contains(k) ==> toggled(toggled(s, k), k) == s,
{
    lemma_without(s, k);
    let t = toggled(s, k);
    if s.contains(k) {
        assert(!t.contains(k));
        let u = t.push(k);
        assert(u[t.len() as int] == k);
        assert(toggled(t, k) == u);
        assert forall|x: SequenceKind| u.to_set().contains(x) <==> s.to_set().contains(x) by {
            if x == k {
                assert(u.contains(k));
            } else {
                if u.contains(x) {
                    let i = choose|i: int| 0 <= i < u.len() && u[i] == x;
                    assert(t[i] == x);
                }
                if t.contains(x) {
                    let i = choose|i: int| 0 <= i < t.len() && t[i] == x;
                    assert(u[i] == x);
                }
            }
        }
        assert(u.to_set() =~= s.to_set());
    } else {
        assert(t == s.push(k));
        assert(t[s.len() as int] == k);
        assert(t.contains(k));
        lemma_without(t, k);
        assert(toggled(t, k) == without(t, k));
        assert(t.drop_last() =~= s);
        assert(without(t, k) == without(s, k));
    }
}

/// Moving to the next section undoes moving to the previous one and back,
/// and five moves in one direction come back to the start; likewise for the
/// three buttons of the results screen.
pub proof fn lemma_sections_cycle(s: ConfigSection, b: ResultsButton)
    ensures
        next_section(prev_section(s)) == s,
        prev_section(next_section(s)) == s,
        next_section(next_section(next_section(next_section(next_section(s))))) == s,
        next_button(prev_button(b)) == b,
        prev_button(next_button(b)) == b,
        next_button(next_button(next_button(b))) == b,
{
}

// ----- consistency -----

/// The tally has one row per family, in display order.
pub open spec fn tally_rows_in_order(t: Seq<(SequenceKind, u32, u32)>) -> bool {
    &&& t.len() == 9
    &&& forall|i: int| 0 <= i < 9 ==> #[trigger] t[i].0 == all_kinds()[i]
}

impl App {
    /// Every enabled family can be drawn at the configured difficulty and length.
    pub open spec fn can_draw(&self) -> bool {
        forall|k: SequenceKind| #[trigger]
            self.config.enabled@.contains(k) ==> generable(k, self.config.difficulty, self.config.seq_len as nat)
    }

    /// The counters agree: the score equals the right answers, which are at
    /// most the questions counted; the tally has one row per family, in
    /// display order, each with at most as many right answers as questions,
    /// and its rows sum to the totals.
    pub open spec fn counts_agree(&self) -> bool {
        &&& self.score == self.correct
        &&& self.correct <= self.total
        &&& tally_rows_in_order(self.per_kind@)
        &&& forall|i: int| 0 <= i < 9 ==> #[trigger] self.per_kind@[i].1 <= self.per_kind@[i].2
        &&& tally_total(self.per_kind@) == self.total
        &&& tally_correct(self.per_kind@) == self.correct
    }

    /// What every operation of the drill keeps: the score equals the right
    /// answers, which are at most the questions counted; the tally has one
    /// row per family, each with at most as many right answers as questions,
    /// summing to the totals; the cursor lies within the focused section; the
    /// length is one of the offered ones, so every family can be drawn; the
    /// highlighted history row exists (or is the first).
    pub open spec fn is_consistent(&self) -> bool {
        &&& self.can_draw()
        &&& self.counts_agree()
        &&& self.cursor < section_rows(self.config_section)
        &&& seq_len_choices().contains(self.config.seq_len)
        &&& self.history_scroll == 0 || self.history_scroll < self.history@.len()
    }

    /// The state of a drill before any session: on the configuration screen,
    /// cursor at the top of the family list, no question, empty input, all
    /// counts zero, no clock running, the first results button focused.
    pub open spec fn is_fresh(&self) -> bool {
        &&& self.state == AppState::Configuration
        &&& self.cursor == 0
        &&& self.config_section == ConfigSection::Types
        &&& self.current is None
        &&& self.input@.len() == 0
        &&& self.score == 0
        &&& self.total == 0
        &&& self.correct == 0
        &&& self.start_time is None
        &&& self.per_kind@ == fresh_tally()
        &&& self.results_button == ResultsButton::Restart
        &&& self.session_duration == 0
    }
}

impl App {
    /// The screen, question, input, counters, clock, tally, results button and
    /// history view are those of `other`.
    pub open spec fn same_session(&self, other: App) -> bool {
        &&& self.state == other.state
        &&& self.current == other.current
        &&& self.input@ == other.input@
        &&& self.score == other.score
        &&& self.total == other.total
        &&& self.correct == other.correct
        &&& self.start_time == other.start_time
        &&& self.per_kind@ == other.per_kind@
        &&& self.results_button == other.results_button
        &&& self.session_duration == other.session_duration
        &&& self.history@ == other.history@
        &&& self.history_scroll == other.history_scroll
    }

    /// Where the cursor goes when moved up: one row up in the focused
    /// section, unless already at its top.
    pub open spec fn cursor_after_up(&self) -> usize {
        if self.cursor > 0 {
            (self.cursor - 1) as usize
        } else {
            self.cursor
        }
    }

    /// Where the cursor goes when moved down: one row down in the focused
    /// section, unless already at its last row.
    pub open spec fn cursor_after_down(&self) -> usize {
        if self.cursor + 1 < section_rows(self.config_section) {
            (self.cursor + 1) as usize
        } else {
            self.cursor
        }
    }
}

/// How many rows the section lists.
fn rows_of(section: ConfigSection) -> (r: usize)
    ensures
        r == section_rows(section),
{
    match section {
        ConfigSection::Types => 9,
        ConfigSection::Difficulty => 3,
        ConfigSection::Length => 3,
        ConfigSection::TimeLimit => 4,
        ConfigSection::Start => 1,
    }
}

fn fresh_tally_vec() -> (r: Vec<(SequenceKind, u32, u32)>)
    ensures
        r@ == fresh_tally(),
{
    let kinds = SequenceKind::all();
    let mut out: Vec<(SequenceKind, u32, u32)> = Vec::new();
    let mut i: usize = 0;
    while i < kinds.len()
        invariant
            i <= kinds@.len(),
            kinds@ == all_kinds(),
            out@ =~= fresh_tally().take(i as int),
        decreases kinds@.len() - i,
    {
        out.push((kinds[i], 0, 0));
        i = i + 1;
    }
    assert(fresh_tally().take(9) =~= fresh_tally());
    out
}

/// A configuration with a length on offer can draw every family.
proof fn lemma_offered_length_can_draw(a: &App)
    requires
        seq_len_choices().contains(a.config.seq_len),
    ensures
        a.can_draw(),
{
    let n = a.config.seq_len;
    let i = choose|i: int| 0 <= i < 3 && seq_len_choices()[i] == n;
    assert(n <= 7);
    assert forall|k: SequenceKind| #[trigger] a.config.enabled@.contains(k) implies generable(
        k,
        a.config.difficulty,
        a.config.seq_len as nat,
    ) by {
        lemma_short_sequences_generable(k, a.config.difficulty, n as nat);
    }
}

proof fn lemma_fresh_is_consistent(a: &App)
    requires
        a.is_fresh(),
        a.config.is_default(),
        a.history_scroll == 0,
    ensures
        a.is_consistent(),
{
    assert(seq_len_choices()[0] == 5);
    lemma_offered_length_can_draw(a);
    lemma_fresh_tally_sums(9);
    assert(fresh_tally().take(9) =~= fresh_tally());
}

impl App {
    /// A new drill drawing its questions from `rng`: the default
    /// configuration, a fresh state and no history shown.
    pub fn from_rng(rng: SmallRng) -> (r: Self)
        ensures
            r.is_fresh(),
            r.config.is_default(),
            r.history@.len() == 0,
            r.history_scroll == 0,
            r.rng == rng,
            r.is_consistent(),
    {
        let r = App {
            state: AppState::Configuration,
            config: TestConfig::default(),
            cursor: 0,
            config_section: ConfigSection::Types,
            current: None,
            input: String::new(),
            score: 0,
            total: 0,
            correct: 0,
            start_time: None,
            per_kind: fresh_tally_vec(),
            results_button: ResultsButton::Restart,
            session_duration: 0,
            history: Vec::new(),
            history_scroll: 0,
            rng,
        };
        proof {
            lemma_fresh_is_consistent(&r);
        }
        r
    }

    /// A new drill with a generator seeded from the operating system, or
    /// `None` when the operating system provides no entropy.
    pub fn new() -> (r: Option<Self>)
        ensures
            r matches Some(a) ==> {
                &&& a.is_fresh()
                &&& a.config.is_default()
                &&& a.history@.len() == 0
                &&& a.history_scroll == 0
                &&& a.is_consistent()
            },
    {
        match try_seeded_from_os() {
            Some(rng) => Some(Self::from_rng(rng)),
            None => None,
        }
    }

    /// Back to the configuration screen with a fresh state; the configuration
    /// and the history view stay.
    pub fn reset(&mut self)
        ensures
            final(self).is_fresh(),
            final(self).config == old(self).config,
            final(self).history@ == old(self).history@,
            final(self).history_scroll == old(self).history_scroll,
            final(self).counts_agree(),
            old(self).is_consistent() ==> final(self).is_consistent(),
    {
        self.state = AppState::Configuration;
        self.cursor = 0;
        self.config_section = ConfigSection::Types;
        self.current = None;
        clear_string(&mut self.input);
        self.score = 0;
        self.total = 0;
        self.correct = 0;
        self.start_time = None;
        self.per_kind = fresh_tally_vec();
        self.results_button = ResultsButton::Restart;
        self.session_duration = 0;
        proof {
            lemma_fresh_tally_sums(9);
            assert(fresh_tally().take(9) =~= fresh_tally());
        }
    }

    /// Moves the cursor one row up in the focused section, stopping at its top.
    pub fn config_up(&mut self)
        ensures
            final(self).cursor == old(self).cursor_after_up(),
            final(self).same_session(*old(self)),
            final(self).config_section == old(self).config_section,
            final(self).config == old(self).config,
            final(self).state == old(self).state,
            old(self).is_consistent() ==> final(self).is_consistent(),
    {
        if self.cursor > 0 {
            self.cursor = self.cursor - 1;
        }
    }

    /// Moves the cursor one row down in the focused section, stopping at its
    /// last row.
    pub fn config_down(&mut self)
        ensures
            final(self).cursor == old(self).cursor_after_down(),
            final(self).same_session(*old(self)),
            final(self).config_section == old(self).config_section,
            final(self).config == old(self).config,
            final(self).state == old(self).state,
            old(self).is_consistent() ==> final(self).is_consistent(),
    {
        let rows = rows_of(self.config_section);
        if self.cursor < rows - 1 {
            self.cursor = self.cursor + 1;
        }
    }

    /// Focuses the next section and puts the cursor at its top.
    pub fn config_next_section(&mut self)
        ensures
            final(self).config_section == next_section(old(self).config_section),
            final(self).cursor == 0,
            final(self).same_session(*old(self)),
            final(self).config == old(self).config,
            final(self).state == old(self).state,
            old(self).is_consistent() ==> final(self).is_consistent(),
    {
        self.config_section = match self.config_section {
            ConfigSection::Types => ConfigSection::Difficulty,
            ConfigSection::Difficulty => ConfigSection::Length,
            ConfigSection::Length => ConfigSection::TimeLimit,
            ConfigSection::TimeLimit => ConfigSection::Start,
            ConfigSection::Start => ConfigSection::Types,
        };
        self.cursor = 0;
    }

    /// Focuses the previous section and puts the cursor at its top.
    pub fn config_prev_section(&mut self)
        ensures
            final(self).config_section == prev_section(old(self).config_section),
            final(self).cursor == 0,
            final(self).same_session(*old(self)),
            final(self).config == old(self).config,
            final(self).state == old(self).state,
            old(self).is_consistent() ==> final(self).is_consistent(),
    {
        self.config_section = match self.config_section {
            ConfigSection::Types => ConfigSection::Start,
            ConfigSection::Difficulty => ConfigSection::Types,
            ConfigSection::Length => ConfigSection::Difficulty,
            ConfigSection::TimeLimit => ConfigSection::Length,
            ConfigSection::Start => ConfigSection::TimeLimit,
        };
        self.cursor = 0;
    }

    /// In the family list, toggles the family under the cursor; in the
    /// difficulty, length and time limit sections, selects the one under the
    /// cursor; on the start button nothing changes.
    pub fn config_toggle_or_select(&mut self)
        requires
            old(self).cursor < section_rows(old(self).config_section),
        ensures
            final(self).config.enabled@ == (if old(self).config_section == ConfigSection::Types {
                toggled(old(self).config.enabled@, all_kinds()[old(self).cursor as int])
            } else {
                old(self).config.enabled@
            }),
            final(self).config.difficulty == (if old(self).config_section == ConfigSection::Difficulty {
                all_difficulties()[old(self).cursor as int]
            } else {
                old(self).config.difficulty
            }),
            final(self).config.seq_len == (if old(self).config_section == ConfigSection::Length {
                seq_len_choices()[old(self).cursor as int]
            } else {
                old(self).config.seq_len
            }),
            final(self).config.time_limit == (if old(self).config_section == ConfigSection::TimeLimit {
                all_time_limits()[old(self).cursor as int]
            } else {
                old(self).config.time_limit
            }),
            final(self).cursor == old(self).cursor,
            final(self).same_session(*old(self)),
            final(self).config_section == old(self).config_section,
            final(self).state == old(self).state,
            old(self).is_consistent() ==> final(self).is_consistent(),
    {
        let ghost pre = *self;
        match self.config_section {
            ConfigSection::Types => {
                let kinds = SequenceKind::all();
                let kind = kinds[self.cursor];
                toggle_kind(&mut self.config.enabled, kind);
                proof {
                    if pre.is_consistent() {
                        lemma_without(pre.config.enabled@, kind);
                        assert forall|k: SequenceKind| #[trigger] self.config.enabled@.contains(k) implies generable(
                            k,
                            self.config.difficulty,
                            self.config.seq_len as nat,
                        ) by {
                            lemma_short_sequences_generable(k, self.config.difficulty, self.config.seq_len as nat);
                        }
                    }
                }
            },
            ConfigSection::Difficulty => {
                let all = Difficulty::all();
                self.config.difficulty = all[self.cursor];
            },
            ConfigSection::Length => {
                let all = seq_len_options();
                self.config.seq_len = all[self.cursor];
                proof {
                    assert(seq_len_choices()[self.cursor as int] == self.config.seq_len);
                }
            },
            ConfigSection::TimeLimit => {
                let all = TimeLimit::all();
                self.config.time_limit = all[self.cursor];
            },
            ConfigSection::Start => {},
        }
        proof {
            if pre.is_consistent() {
                lemma_offered_length_can_draw(self);
            }
        }
    }

    /// Enables exactly the families of the Optiver preset.
    pub fn apply_optiver_preset(&mut self)
        ensures
            final(self).config.enabled@ == optiver_kinds(),
            final(self).config.difficulty == old(self).config.difficulty,
            final(self).config.seq_len == old(self).config.seq_len,
            final(self).config.time_limit == old(self).config.time_limit,
            final(self).cursor == old(self).cursor,
            final(self).same_session(*old(self)),
            final(self).config_section == old(self).config_section,
            final(self).state == old(self).state,
            old(self).is_consistent() ==> final(self).is_consistent(),
    {
        self.config.enabled = optiver_preset();
        proof {
            if old(self).is_consistent() {
                lemma_offered_length_can_draw(self);
            }
        }
    }

    /// Enables exactly the families of the Flow Traders preset.
    pub fn apply_flow_traders_preset(&mut self)
        ensures
            final(self).config.enabled@ == flow_traders_kinds(),
            final(self).config.difficulty == old(self).config.difficulty,
            final(self).config.seq_len == old(self).config.seq_len,
            final(self).config.time_limit == old(self).config.time_limit,
            final(self).cursor == old(self).cursor,
            final(self).same_session(*old(self)),
            final(self).config_section == old(self).config_section,
            final(self).state == old(self).state,
            old(self).is_consistent() ==> final(self).is_consistent(),
    {
        self.config.enabled = flow_traders_preset();
        proof {
            if old(self).is_consistent() {
                lemma_offered_length_can_draw(self);
            }
        }
    }
}

/// `after` is `before` with its session ended after `elapsed` seconds: the
/// results screen, the length recorded, the first button focused, and
/// nothing else changed.
pub open spec fn session_finished(before: App, after: App, elapsed: u64) -> bool {
    &&& after.state == AppState::Results
    &&& after.session_duration == elapsed
    &&& after.results_button == ResultsButton::Restart
    &&& after.config == before.config
    &&& after.cursor == before.cursor
    &&& after.config_section == before.config_section
    &&& after.current == before.current
    &&& after.input@ == before.input@
    &&& after.score == before.score
    &&& after.total == before.total
    &&& after.correct == before.correct
    &&& after.start_time == before.start_time
    &&& after.per_kind@ == before.per_kind@
    &&& after.history@ == before.history@
    &&& after.history_scroll == before.history_scroll
}

// ----- questions -----

/// The typed input reads as the expected answer.
pub open spec fn answer_is_right(input: Seq<char>, answer: i64) -> bool {
    i64_text_value(input) == Some(answer as int)
}

/// `q` is a question the drill can draw under `cfg`: an enabled family, and
/// a sequence of it at the configured difficulty asking for the configured
/// number of terms.
pub open spec fn drew_question(cfg: TestConfig, q: Question) -> bool {
    &&& cfg.enabled@.contains(q.kind)
    &&& is_sequence_of(q.kind, cfg.difficulty, cfg.seq_len as nat, q.visible_terms@, q.answer)
}

/// What drawing the next question does: with no family enabled, the question
/// and the input stay; otherwise a question is drawn and the input emptied.
pub open spec fn question_drawn(
    cfg: TestConfig,
    pre_current: Option<Question>,
    pre_input: Seq<char>,
    post_current: Option<Question>,
    post_input: Seq<char>,
) -> bool {
    if cfg.enabled@.len() == 0 {
        post_current == pre_current && post_input == pre_input
    } else {
        post_current is Some && drew_question(cfg, post_current->0) && post_input.len() == 0
    }
}

/// `a` written in base ten, with a leading `-` when negative.
pub open spec fn signed_text(a: int) -> Seq<char> {
    if a < 0 {
        seq!['-'] + decimal_text((-a) as nat)
    } else {
        decimal_text(a as nat)
    }
}

/// Typing the expected answer in base ten (with a `-` when it is negative)
/// counts as right.
pub proof fn lemma_typed_answer_is_right(answer: i64)
    ensures
        answer_is_right(signed_text(answer as int), answer),
{
    let a = answer as int;
    if a < 0 {
        lemma_decimal_text((-a) as nat);
        let s = signed_text(a);
        assert(s.drop_first() =~= decimal_text((-a) as nat));
    } else {
        lemma_decimal_text(a as nat);
        lemma_unsigned_round_trip(a as nat, i64::MAX as nat);
    }
}

impl App {
    /// Counting an answer to the current question fits the counters.
    pub open spec fn can_count_answer(&self) -> bool {
        match self.current {
            Some(q) => {
                let hit = answer_is_right(self.input@, q.answer);
                &&& self.total < u32::MAX
                &&& hit ==> self.score < u32::MAX && self.correct < u32::MAX
                &&& tally_has_room(self.per_kind@, q.kind, hit)
            },
            None => true,
        }
    }

    /// Counting a skip of the current question fits the counters.
    pub open spec fn can_count_skip(&self) -> bool {
        match self.current {
            Some(q) => self.total < u32::MAX && tally_has_room(self.per_kind@, q.kind, false),
            None => true,
        }
    }
}

proof fn lemma_rows_within_sums(t: Seq<(SequenceKind, u32, u32)>, i: int)
    requires
        0 <= i < t.len(),
    ensures
        t[i].2 <= tally_total(t),
        t[i].1 <= tally_correct(t),
        0 <= tally_total(t),
        0 <= tally_correct(t),
    decreases t.len(),
{
    assert(tally_total(t) == tally_total(t.drop_last()) + t.last().2);
    assert(tally_correct(t) == tally_correct(t.drop_last()) + t.last().1);
    if i < t.len() - 1 {
        lemma_rows_within_sums(t.drop_last(), i);
        assert(t.drop_last()[i] == t[i]);
    } else {
        assert(t.last() == t[i]);
        if t.len() > 1 {
            lemma_rows_within_sums(t.drop_last(), 0);
        } else {
            assert(t.drop_last().len() == 0);
        }
    }
}

/// In a consistent drill, the row of family `k` is row `kind_index(k)`.
proof fn lemma_slot_of_ordered_tally(t: Seq<(SequenceKind, u32, u32)>, k: SequenceKind)
    requires
        tally_rows_in_order(t),
    ensures
        kind_slot(t, k) == kind_index(k),
{
    lemma_kind_index(k);
    assert forall|j: int| 0 <= j < kind_index(k) implies #[trigger] t[j].0 != k by {
        assert(t[j].0 == all_kinds()[j]);
    }
    assert(t[kind_index(k)].0 == all_kinds()[kind_index(k)]);
    lemma_kind_slot_at(t, k, kind_index(k));
}

/// In a consistent drill whose total has not reached `u32::MAX`, answering
/// or skipping the current question fits the counters.
pub proof fn lemma_consistent_can_count(a: &App)
    requires
        a.is_consistent(),
        a.total < u32::MAX,
    ensures
        a.can_count_answer(),
        a.can_count_skip(),
{
    if a.current is Some {
        let k = a.current->0.kind;
        lemma_slot_of_ordered_tally(a.per_kind@, k);
        lemma_kind_index(k);
        lemma_rows_within_sums(a.per_kind@, kind_index(k));
    }
}

/// Counting a question of family `k` keeps a consistent tally consistent
/// with totals one higher (and right answers one higher when `hit`).
proof fn lemma_count_keeps_consistency(t: Seq<(SequenceKind, u32, u32)>, k: SequenceKind, hit: bool)
    requires
        tally_rows_in_order(t),
        forall|i: int| 0 <= i < 9 ==> #[trigger] t[i].1 <= t[i].2,
        tally_has_room(t, k, hit),
    ensures
        tally_rows_in_order(tally_after(t, k, hit)),
        forall|i: int| 0 <= i < 9 ==> #[trigger] tally_after(t, k, hit)[i].1 <= tally_after(t, k, hit)[i].2,
        tally_total(tally_after(t, k, hit)) == tally_total(t) + 1,
        tally_correct(tally_after(t, k, hit)) == tally_correct(t) + (if hit { 1int } else { 0int }),
{
    lemma_slot_of_ordered_tally(t, k);
    lemma_kind_index(k);
    let i = kind_index(k);
    let x = (t[i].0, if hit { (t[i].1 + 1) as u32 } else { t[i].1 }, (t[i].2 + 1) as u32);
    lemma_tally_update(t, i, x);
    let u = tally_after(t, k, hit);
    assert(u == t.update(i, x));
    assert forall|j: int| 0 <= j < 9 implies #[trigger] u[j].0 == all_kinds()[j] by {
        assert(t[j].0 == all_kinds()[j]);
    }
    assert forall|j: int| 0 <= j < 9 implies #[trigger] u[j].1 <= u[j].2 by {
        assert(t[j].1 <= t[j].2);
    }
}

/// Counts one more question of family `k` in the tally, answered right when `hit`.
fn count_in_tally(t: &mut Vec<(SequenceKind, u32, u32)>, kind: SequenceKind, hit: bool)
    requires
        tally_has_room(old(t)@, kind, hit),
    ensures
        final(t)@ == tally_after(old(t)@, kind, hit),
{
    let mut i: usize = 0;
    while i < t.len() && t[i].0 != kind
        invariant
            i <= t@.len(),
            forall|j: int| 0 <= j < i ==> #[trigger] t@[j].0 != kind,
        decreases t@.len() - i,
    {
        i = i + 1;
    }
    proof {
        lemma_kind_slot_at(t@, kind, i as int);
    }
    if i < t.len() {
        let (k, c, n) = t[i];
        let c2 = if hit { c + 1 } else { c };
        t.set(i, (k, c2, n + 1));
    }
}

impl App {
    /// Draws the next question from a random enabled family and empties the
    /// input; with no family enabled nothing happens.
    pub fn next_question(&mut self)
        requires
            old(self).can_draw(),
        ensures
            question_drawn(old(self).config, old(self).current, old(self).input@, final(self).current, final(self).input@),
            final(self).config == old(self).config,
            final(self).state == old(self).state,
            final(self).cursor == old(self).cursor,
            final(self).config_section == old(self).config_section,
            final(self).score == old(self).score,
            final(self).total == old(self).total,
            final(self).correct == old(self).correct,
            final(self).per_kind@ == old(self).per_kind@,
            final(self).start_time == old(self).start_time,
            old(self).counts_agree() ==> final(self).counts_agree(),
            old(self).is_consistent() ==> final(self).is_consistent(),
    {
        if self.config.enabled.len() == 0 {
            return;
        }
        let idx = draw_index(&mut self.rng, self.config.enabled.len());
        self.next_question_from(idx);
    }

    /// Asks a question of the enabled family at position `idx` of the
    /// enabled list (the position the family draw gave) and empties the input.
    pub fn next_question_from(&mut self, idx: usize)
        requires
            old(self).can_draw(),
            idx < old(self).config.enabled@.len(),
        ensures
            final(self).current is Some,
            final(self).current->0.kind == old(self).config.enabled@[idx as int],
            drew_question(old(self).config, final(self).current->0),
            final(self).input@.len() == 0,
            final(self).config == old(self).config,
            final(self).state == old(self).state,
            final(self).cursor == old(self).cursor,
            final(self).config_section == old(self).config_section,
            final(self).score == old(self).score,
            final(self).total == old(self).total,
            final(self).correct == old(self).correct,
            final(self).per_kind@ == old(self).per_kind@,
            final(self).start_time == old(self).start_time,
            old(self).counts_agree() ==> final(self).counts_agree(),
            old(self).is_consistent() ==> final(self).is_consistent(),
    {
        let kind = self.config.enabled[idx];
        let difficulty = self.config.difficulty;
        let n = self.config.seq_len;
        assert(self.config.enabled@.contains(kind));
        let seq = generate(kind, difficulty, n, &mut self.rng);
        let terms = slice_to_vec(seq.visible_terms());
        self.current = Some(Question { visible_terms: terms, answer: seq.answer(), kind });
        clear_string(&mut self.input);
    }

    /// Starts a session whose clock started at `now`: the testing screen,
    /// the start time, the first question.
    pub fn start_testing_at(&mut self, now: Instant)
        requires
            old(self).can_draw(),
        ensures
            final(self).state == AppState::Testing,
            final(self).start_time == Some(now),
            question_drawn(old(self).config, old(self).current, old(self).input@, final(self).current, final(self).input@),
            final(self).config == old(self).config,
            final(self).cursor == old(self).cursor,
            final(self).config_section == old(self).config_section,
            final(self).score == old(self).score,
            final(self).total == old(self).total,
            final(self).correct == old(self).correct,
            final(self).per_kind@ == old(self).per_kind@,
            old(self).counts_agree() ==> final(self).counts_agree(),
            old(self).is_consistent() ==> final(self).is_consistent(),
    {
        self.state = AppState::Testing;
        self.start_time = Some(now);
        self.next_question();
    }

    /// Starts a session now: the testing screen, the clock read as the start
    /// time, the first question.
    pub fn start_testing(&mut self)
        requires
            old(self).can_draw(),
        ensures
            final(self).state == AppState::Testing,
            final(self).start_time is Some,
            question_drawn(old(self).config, old(self).current, old(self).input@, final(self).current, final(self).input@),
            final(self).config == old(self).config,
            final(self).cursor == old(self).cursor,
            final(self).config_section == old(self).config_section,
            final(self).score == old(self).score,
            final(self).total == old(self).total,
            final(self).correct == old(self).correct,
            final(self).per_kind@ == old(self).per_kind@,
            old(self).counts_agree() ==> final(self).counts_agree(),
            old(self).is_consistent() ==> final(self).is_consistent(),
    {
        let now = instant_now();
        self.start_testing_at(now);
    }

    /// Checks the typed answer against the current question, counts it, and
    /// draws the next question. Without a current question only the drawing
    /// happens.
    pub fn submit_answer(&mut self)
        requires
            old(self).can_count_answer(),
            old(self).can_draw(),
        ensures
            match old(self).current {
                Some(q) => {
                    let hit = answer_is_right(old(self).input@, q.answer);
                    &&& final(self).total == old(self).total + 1
                    &&& final(self).score == old(self).score + (if hit { 1int } else { 0int })
                    &&& final(self).correct == old(self).correct + (if hit { 1int } else { 0int })
                    &&& final(self).per_kind@ == tally_after(old(self).per_kind@, q.kind, hit)
                },
                None => {
                    &&& final(self).total == old(self).total
                    &&& final(self).score == old(self).score
                    &&& final(self).correct == old(self).correct
                    &&& final(self).per_kind@ == old(self).per_kind@
                },
            },
            question_drawn(old(self).config, old(self).current, old(self).input@, final(self).current, final(self).input@),
            final(self).config == old(self).config,
            final(self).state == old(self).state,
            final(self).cursor == old(self).cursor,
            final(self).config_section == old(self).config_section,
            final(self).start_time == old(self).start_time,
            old(self).counts_agree() ==> final(self).counts_agree(),
            old(self).is_consistent() ==> final(self).is_consistent(),
    {
        let ghost pre = *self;
        match &self.current {
            Some(q) => {
                let kind = q.kind;
                let correct_ans = q.answer;
                let user = parse_i64(self.input.as_str());
                self.total = self.total + 1;
                let hit = match user {
                    Some(v) => v == correct_ans,
                    None => false,
                };
                assert(hit == answer_is_right(pre.input@, correct_ans));
                count_in_tally(&mut self.per_kind, kind, hit);
                if hit {
                    self.score = self.score + 1;
                    self.correct = self.correct + 1;
                }
                proof {
                    if pre.counts_agree() {
                        lemma_count_keeps_consistency(pre.per_kind@, kind, hit);
                    }
                }
            },
            None => {},
        }
        self.next_question();
    }

    /// Counts the current question as asked but not answered, and draws the
    /// next one. Without a current question only the drawing happens.
    pub fn skip_question(&mut self)
        requires
            old(self).can_count_skip(),
            old(self).can_draw(),
        ensures
            match old(self).current {
                Some(q) => {
                    &&& final(self).total == old(self).total + 1
                    &&& final(self).per_kind@ == tally_after(old(self).per_kind@, q.kind, false)
                },
                None => {
                    &&& final(self).total == old(self).total
                    &&& final(self).per_kind@ == old(self).per_kind@
                },
            },
            final(self).score == old(self).score,
            final(self).correct == old(self).correct,
            question_drawn(old(self).config, old(self).current, old(self).input@, final(self).current, final(self).input@),
            final(self).config == old(self).config,
            final(self).state == old(self).state,
            final(self).cursor == old(self).cursor,
            final(self).config_section == old(self).config_section,
            final(self).start_time == old(self).start_time,
            old(self).counts_agree() ==> final(self).counts_agree(),
            old(self).is_consistent() ==> final(self).is_consistent(),
    {
        let ghost pre = *self;
        match &self.current {
            Some(q) => {
                let kind = q.kind;
                self.total = self.total + 1;
                count_in_tally(&mut self.per_kind, kind, false);
                proof {
                    if pre.counts_agree() {
                        lemma_count_keeps_consistency(pre.per_kind@, kind, false);
                    }
                }
            },
            None => {},
        }
        self.next_question();
    }

    /// Whether the session's time is up after `elapsed` seconds: only a
    /// started session runs out, when `elapsed` reaches the time limit.
    pub fn is_time_up_after(&self, elapsed: u64) -> (r: bool)
        ensures
            r == (self.start_time is Some && elapsed >= time_limit_seconds(self.config.time_limit)),
    {
        match self.start_time {
            Some(_) => elapsed >= self.config.time_limit.seconds(),
            None => false,
        }
    }

    /// Whether the session's time is up, by the monotonic clock; a session
    /// that has not started never is.
    pub fn is_time_up(&self) -> (r: bool)
        ensures
            self.start_time is None ==> !r,
    {
        match &self.start_time {
            Some(t) => {
                let elapsed = whole_seconds(&elapsed_since(t));
                self.is_time_up_after(elapsed)
            },
            None => false,
        }
    }

    /// Whole seconds since the session started; 0 before it has.
    pub fn elapsed_secs(&self) -> (r: u64)
        ensures
            self.start_time is None ==> r == 0,
    {
        match &self.start_time {
            Some(t) => whole_seconds(&elapsed_since(t)),
            None => 0,
        }
    }
}

impl App {
    /// Ends the session after `elapsed` seconds: the results screen, the
    /// session's length recorded, the first button focused.
    pub fn finish_after(&mut self, elapsed: u64)
        ensures
            session_finished(*old(self), *final(self), elapsed),
            old(self).is_consistent() ==> final(self).is_consistent(),
    {
        self.state = AppState::Results;
        self.session_duration = elapsed;
        self.results_button = ResultsButton::Restart;
    }

    /// Ends the session now, recording the seconds since it started.
    pub fn finish(&mut self)
        ensures
            final(self).state == AppState::Results,
            old(self).start_time is None ==> final(self).session_duration == 0,
            final(self).results_button == ResultsButton::Restart,
            final(self).config == old(self).config,
            final(self).cursor == old(self).cursor,
            final(self).config_section == old(self).config_section,
            final(self).current == old(self).current,
            final(self).input@ == old(self).input@,
            final(self).score == old(self).score,
            final(self).total == old(self).total,
            final(self).correct == old(self).correct,
            final(self).per_kind@ == old(self).per_kind@,
            final(self).history@ == old(self).history@,
            old(self).is_consistent() ==> final(self).is_consistent(),
            exists|d: u64| session_finished(*old(self), *final(self), d),
    {
        let elapsed = self.elapsed_secs();
        self.finish_after(elapsed);
        assert(session_finished(*old(self), *self, elapsed));
    }

    /// The history entry of the last session, stamped `timestamp`.
    pub fn session_entry(&self, timestamp: u64) -> (r: HistoryEntry)
        ensures
            r.timestamp == timestamp,
            r.score == self.score,
            r.correct == self.correct,
            r.total == self.total,
            r.difficulty@ == difficulty_label(self.config.difficulty),
            r.time_limit_secs == time_limit_seconds(self.config.time_limit),
            r.duration_secs == self.session_duration,
    {
        HistoryEntry {
            timestamp,
            score: self.score,
            correct: self.correct,
            total: self.total,
            difficulty: String::from_str(self.config.difficulty.label()),
            time_limit_secs: self.config.time_limit.seconds(),
            duration_secs: self.session_duration,
        }
    }

    /// Shows the history screen with `entries`, the first row highlighted.
    pub fn enter_history(&mut self, entries: Vec<HistoryEntry>)
        ensures
            final(self).state == AppState::History,
            final(self).history@ == entries@,
            final(self).history_scroll == 0,
            final(self).config == old(self).config,
            final(self).cursor == old(self).cursor,
            final(self).config_section == old(self).config_section,
            final(self).current == old(self).current,
            final(self).input@ == old(self).input@,
            final(self).score == old(self).score,
            final(self).total == old(self).total,
            final(self).correct == old(self).correct,
            final(self).start_time == old(self).start_time,
            final(self).per_kind@ == old(self).per_kind@,
            final(self).results_button == old(self).results_button,
            final(self).session_duration == old(self).session_duration,
            old(self).is_consistent() ==> final(self).is_consistent(),
    {
        self.history = entries;
        self.history_scroll = 0;
        self.state = AppState::History;
    }

    /// Highlights the history row above, unless at the top.
    pub fn history_up(&mut self)
        ensures
            final(self).history_scroll == (if old(self).history_scroll > 0 {
                (old(self).history_scroll - 1) as usize
            } else {
                old(self).history_scroll
            }),
            final(self).state == old(self).state,
            final(self).config == old(self).config,
            final(self).history@ == old(self).history@,
            final(self).total == old(self).total,
            final(self).score == old(self).score,
            final(self).correct == old(self).correct,
            final(self).per_kind@ == old(self).per_kind@,
            final(self).cursor == old(self).cursor,
            final(self).config_section == old(self).config_section,
            final(self).current == old(self).current,
            final(self).input@ == old(self).input@,
            final(self).start_time == old(self).start_time,
            final(self).results_button == old(self).results_button,
            final(self).session_duration == old(self).session_duration,
            old(self).is_consistent() ==> final(self).is_consistent(),
    {
        if self.history_scroll > 0 {
            self.history_scroll = self.history_scroll - 1;
        }
    }

    /// Highlights the history row below, unless at the last one.
    pub fn history_down(&mut self)
        ensures
            final(self).history_scroll == (if old(self).history_scroll + 1 < old(self).history@.len() {
                (old(self).history_scroll + 1) as usize
            } else {
                old(self).history_scroll
            }),
            final(self).state == old(self).state,
            final(self).config == old(self).config,
            final(self).history@ == old(self).history@,
            final(self).total == old(self).total,
            final(self).score == old(self).score,
            final(self).correct == old(self).correct,
            final(self).per_kind@ == old(self).per_kind@,
            final(self).cursor == old(self).cursor,
            final(self).config_section == old(self).config_section,
            final(self).current == old(self).current,
            final(self).input@ == old(self).input@,
            final(self).start_time == old(self).start_time,
            final(self).results_button == old(self).results_button,
            final(self).session_duration == old(self).session_duration,
            old(self).is_consistent() ==> final(self).is_consistent(),
    {
        if self.history_scroll < self.history.len() && self.history_scroll + 1 < self.history.len() {
            self.history_scroll = self.history_scroll + 1;
        }
    }
}

/// Whether `kind` is in `kinds`.
fn contains_kind(kinds: &Vec<SequenceKind>, kind: SequenceKind) -> (r: bool)
    ensures
        r == kinds@.contains(kind),
{
    let mut i: usize = 0;
    while i < kinds.len()
        invariant
            i <= kinds@.len(),
            forall|j: int| 0 <= j < i ==> kinds@[j] != kind,
        decreases kinds@.len() - i,
    {
        if kinds[i] == kind {
            return true;
        }
        i = i + 1;
    }
    false
}

/// Removes `kind` from `kinds` if present, else appends it.
fn toggle_kind(kinds: &mut Vec<SequenceKind>, kind: SequenceKind)
    ensures
        final(kinds)@ == toggled(old(kinds)@, kind),
{
    if contains_kind(kinds, kind) {
        let mut kept: Vec<SequenceKind> = Vec::new();
        let mut i: usize = 0;
        while i < kinds.len()
            invariant
                i <= kinds@.len(),
                kept@ == without(kinds@.take(i as int), kind),
            decreases kinds@.len() - i,
        {
            proof {
                assert(kinds@.take(i + 1).drop_last() =~= kinds@.take(i as int));
            }
            if kinds[i] != kind {
                kept.push(kinds[i]);
            }
            i = i + 1;
        }
        assert(kinds@.take(kinds@.len() as int) =~= kinds@);
        *kinds = kept;
    } else {
        kinds.push(kind);
    }
}

} // verus!
