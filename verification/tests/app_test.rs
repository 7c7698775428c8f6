use rand::rngs::SmallRng;
use rand::SeedableRng;
use sequences_rs::app::{App, AppState, ConfigSection, ResultsButton};
use sequences_rs::config::{Difficulty, TimeLimit};
use sequences_rs::controls::{
    finish_if_time_up, finish_if_time_up_after, handle_config, handle_history, handle_key, handle_results, handle_testing,
    Action, Key,
};
use sequences_rs::history::HistoryEntry;
use sequences_rs::sequences::SequenceKind;

fn seeded_app(seed: u64) -> App {
    App::from_rng(SmallRng::seed_from_u64(seed))
}

fn check_consistent(app: &App) {
    assert_eq!(app.score, app.correct);
    assert!(app.correct <= app.total);
    assert_eq!(app.per_kind.len(), 9);
    let kinds = SequenceKind::all();
    let mut t = 0;
    let mut c = 0;
    for (i, (k, ci, ti)) in app.per_kind.iter().enumerate() {
        assert_eq!(*k, kinds[i]);
        assert!(ci <= ti);
        t += ti;
        c += ci;
    }
    assert_eq!(t, app.total);
    assert_eq!(c, app.correct);
}

#[test]
fn new_app_is_fresh() {
    let app = App::new().expect("the system provides entropy");
    assert_eq!(app.state, AppState::Configuration);
    assert_eq!(app.cursor, 0);
    assert_eq!(app.config_section, ConfigSection::Types);
    assert!(app.current.is_none());
    assert_eq!(app.input, "");
    assert_eq!((app.score, app.total, app.correct), (0, 0, 0));
    assert!(app.start_time.is_none());
    assert_eq!(app.config.enabled.len(), 9);
    assert_eq!(app.config.difficulty, Difficulty::Medium);
    assert_eq!(app.elapsed_secs(), 0);
    assert!(!app.is_time_up());
    check_consistent(&app);
}

#[test]
fn cursor_moves_within_family_list() {
    let mut app = App::new().expect("the system provides entropy");
    app.config_up();
    assert_eq!(app.cursor, 0);
    for _ in 0..20 {
        app.config_down();
    }
    assert_eq!(app.cursor, 8);
    app.config_up();
    assert_eq!(app.cursor, 7);
    app.config_next_section();
    assert_eq!(app.config_section, ConfigSection::Difficulty);
    assert_eq!(app.cursor, 0);
    for _ in 0..5 {
        app.config_down();
    }
    assert_eq!(app.cursor, 2);
    app.config_next_section();
    app.config_next_section();
    assert_eq!(app.config_section, ConfigSection::TimeLimit);
    for _ in 0..5 {
        app.config_down();
    }
    assert_eq!(app.cursor, 3);
    app.config_up();
    assert_eq!(app.cursor, 2);
    app.config_next_section();
    assert_eq!(app.config_section, ConfigSection::Start);
    app.config_down();
    assert_eq!(app.cursor, 0);
}

#[test]
fn sections_cycle() {
    let mut app = App::new().expect("the system provides entropy");
    app.config_next_section();
    app.config_next_section();
    assert_eq!(app.config_section, ConfigSection::Length);
    app.config_next_section();
    assert_eq!(app.config_section, ConfigSection::TimeLimit);
    app.config_next_section();
    assert_eq!(app.config_section, ConfigSection::Start);
    app.config_next_section();
    assert_eq!(app.config_section, ConfigSection::Types);
    app.config_prev_section();
    assert_eq!(app.config_section, ConfigSection::Start);
    app.config_next_section();
    assert_eq!(app.config_section, ConfigSection::Types);
    assert_eq!(ResultsButton::Restart.next(), ResultsButton::History);
    assert_eq!(ResultsButton::Quit.next(), ResultsButton::Restart);
    assert_eq!(ResultsButton::Restart.prev(), ResultsButton::Quit);
}

#[test]
fn toggling_families() {
    let mut app = App::new().expect("the system provides entropy");
    app.cursor = 1;
    app.config_toggle_or_select();
    assert!(!app.config.enabled.contains(&SequenceKind::Geometric));
    assert_eq!(app.config.enabled.len(), 8);
    app.config_toggle_or_select();
    assert_eq!(*app.config.enabled.last().unwrap(), SequenceKind::Geometric);
    assert_eq!(app.config.enabled.len(), 9);
    app.config.enabled = vec![SequenceKind::Cubes, SequenceKind::Cubes];
    app.cursor = 7;
    app.config_toggle_or_select();
    assert!(app.config.enabled.is_empty());
    app.config_toggle_or_select();
    app.config_toggle_or_select();
    assert!(app.config.enabled.is_empty());
}

#[test]
fn selecting_difficulty_and_time() {
    let mut app = App::new().expect("the system provides entropy");
    app.config_next_section();
    app.config_toggle_or_select();
    assert_eq!(app.config.difficulty, Difficulty::Easy);
    app.cursor = 2;
    app.config_toggle_or_select();
    assert_eq!(app.config.difficulty, Difficulty::Hard);
    app.config_next_section();
    app.cursor = 2;
    app.config_toggle_or_select();
    assert_eq!(app.config.seq_len, 7);
    app.config_next_section();
    app.cursor = 3;
    app.config_toggle_or_select();
    assert_eq!(app.config.time_limit, TimeLimit::FifteenMinutes);
}

#[test]
fn presets_replace_enabled() {
    let mut app = App::new().expect("the system provides entropy");
    app.apply_optiver_preset();
    assert_eq!(app.config.enabled.len(), 6);
    assert!(app.config.enabled.contains(&SequenceKind::Tribonacci));
    app.apply_flow_traders_preset();
    assert!(app.config.enabled.contains(&SequenceKind::Cubes));
    assert!(!app.config.enabled.contains(&SequenceKind::Tribonacci));
}

#[test]
fn session_counts_answers() {
    let mut app = seeded_app(3);
    app.start_testing();
    assert_eq!(app.state, AppState::Testing);
    assert!(app.start_time.is_some());
    let q = app.current.as_ref().unwrap();
    assert_eq!(q.visible_terms.len(), 5);
    assert!(app.config.enabled.contains(&q.kind));
    let (kind, answer) = (q.kind, q.answer);
    app.input = answer.to_string();
    app.submit_answer();
    assert_eq!((app.score, app.correct, app.total), (1, 1, 1));
    assert_eq!(app.input, "");
    let row = app.per_kind.iter().find(|(k, _, _)| *k == kind).unwrap();
    assert_eq!((row.1, row.2), (1, 1));
    let answer = app.current.as_ref().unwrap().answer;
    app.input = (answer + 1).to_string();
    app.submit_answer();
    assert_eq!((app.score, app.correct, app.total), (1, 1, 2));
    app.skip_question();
    assert_eq!((app.score, app.correct, app.total), (1, 1, 3));
    check_consistent(&app);
    assert!(!app.is_time_up());
    assert!(!app.is_time_up_after(59));
    assert!(app.is_time_up_after(60));
    app.config.time_limit = TimeLimit::TenMinutes;
    assert!(!app.is_time_up_after(599));
    assert!(app.is_time_up_after(600));
    app.reset();
    assert_eq!(app.state, AppState::Configuration);
    assert_eq!((app.score, app.total, app.correct), (0, 0, 0));
    assert!(app.current.is_none());
    check_consistent(&app);
}

#[test]
fn unreadable_answer_counts_as_wrong() {
    let mut app = seeded_app(4);
    app.start_testing();
    app.input = String::from("-");
    app.submit_answer();
    assert_eq!((app.correct, app.total), (0, 1));
}

#[test]
fn no_family_enabled_keeps_question() {
    let mut app = seeded_app(5);
    app.config.enabled.clear();
    app.start_testing();
    assert!(app.current.is_none());
    app.submit_answer();
    assert_eq!(app.total, 0);
}

#[test]
fn not_started_is_never_up() {
    let app = App::new().expect("the system provides entropy");
    assert!(!app.is_time_up_after(1_000_000));
}

#[test]
fn questions_follow_difficulty() {
    for seed in 0..50u64 {
        let mut app = seeded_app(seed);
        app.config.difficulty = Difficulty::Hard;
        app.config.seq_len = 6;
        app.config.enabled = vec![SequenceKind::Squares];
        app.start_testing();
        let q = app.current.as_ref().unwrap();
        assert_eq!(q.kind, SequenceKind::Squares);
        assert_eq!(q.visible_terms.len(), 6);
        let r = (q.visible_terms[0] as f64).sqrt() as i64;
        assert!((1..=12).contains(&r));
        assert_eq!(r * r, q.visible_terms[0]);
        assert_eq!(q.answer, (r + 6) * (r + 6));
    }
}

#[test]
fn keys_on_configuration_screen() {
    let mut app = seeded_app(6);
    assert_eq!(handle_config(&mut app, Key::Char('f')), Action::Continue);
    assert_eq!(app.config.enabled.len(), 6);
    handle_config(&mut app, Key::Down);
    assert_eq!(app.cursor, 1);
    handle_config(&mut app, Key::Char(' '));
    assert!(!app.config.enabled.contains(&SequenceKind::Geometric));
    handle_config(&mut app, Key::Enter);
    assert!(app.config.enabled.contains(&SequenceKind::Geometric));
    handle_config(&mut app, Key::Tab);
    assert_eq!(app.config_section, ConfigSection::Difficulty);
    handle_config(&mut app, Key::BackTab);
    assert_eq!(app.config_section, ConfigSection::Types);
    assert_eq!(handle_config(&mut app, Key::Char('Q')), Action::Quit);
    assert_eq!(app.state, AppState::Configuration);
    handle_config(&mut app, Key::BackTab);
    assert_eq!(app.config_section, ConfigSection::Start);
    handle_config(&mut app, Key::Enter);
    assert_eq!(app.state, AppState::Testing);
}

#[test]
fn start_key_needs_a_family() {
    let mut app = seeded_app(7);
    app.config.enabled.clear();
    handle_config(&mut app, Key::Char('S'));
    assert_eq!(app.state, AppState::Configuration);
}

#[test]
fn keys_on_testing_screen() {
    let mut app = seeded_app(8);
    handle_config(&mut app, Key::Char('s'));
    handle_testing(&mut app, Key::Char('-'));
    handle_testing(&mut app, Key::Char('-'));
    handle_testing(&mut app, Key::Char('4'));
    handle_testing(&mut app, Key::Char('x'));
    handle_testing(&mut app, Key::Char('2'));
    assert_eq!(app.input, "-42");
    handle_testing(&mut app, Key::Backspace);
    assert_eq!(app.input, "-4");
    handle_testing(&mut app, Key::Backspace);
    handle_testing(&mut app, Key::Backspace);
    handle_testing(&mut app, Key::Backspace);
    assert_eq!(app.input, "");
    let answer = app.current.as_ref().unwrap().answer;
    for c in answer.to_string().chars() {
        handle_testing(&mut app, Key::Char(c));
    }
    assert_eq!(handle_testing(&mut app, Key::Enter), Action::Continue);
    assert_eq!((app.correct, app.total), (1, 1));
    handle_testing(&mut app, Key::Esc);
    assert_eq!((app.correct, app.total), (1, 2));
    assert_eq!(handle_testing(&mut app, Key::Char('q')), Action::RecordSession);
    assert_eq!(app.state, AppState::Results);
    assert_eq!(app.results_button, ResultsButton::Restart);
    let e = app.session_entry(1234);
    assert_eq!((e.timestamp, e.score, e.correct, e.total), (1234, 1, 1, 2));
    assert_eq!(e.difficulty, "Medium");
    assert_eq!(e.time_limit_secs, 60);
    assert_eq!(e.duration_secs, app.session_duration);
    check_consistent(&app);
}

#[test]
fn keys_on_results_screen() {
    let mut app = seeded_app(9);
    handle_config(&mut app, Key::Char('s'));
    handle_testing(&mut app, Key::Esc);
    handle_testing(&mut app, Key::Char('q'));
    assert_eq!(handle_results(&mut app, Key::Char('h')), Action::OpenHistory);
    assert_eq!(handle_results(&mut app, Key::Char('q')), Action::Quit);
    assert_eq!(app.state, AppState::Results);
    handle_results(&mut app, Key::Tab);
    assert_eq!(app.results_button, ResultsButton::History);
    assert_eq!(handle_results(&mut app, Key::Enter), Action::OpenHistory);
    handle_results(&mut app, Key::Right);
    assert_eq!(handle_results(&mut app, Key::Char(' ')), Action::Quit);
    handle_results(&mut app, Key::Left);
    handle_results(&mut app, Key::BackTab);
    assert_eq!(app.results_button, ResultsButton::Restart);
    assert_eq!(handle_results(&mut app, Key::Enter), Action::Continue);
    assert_eq!(app.state, AppState::Configuration);
    assert_eq!(app.total, 0);
}

fn entry(ts: u64) -> HistoryEntry {
    HistoryEntry {
        timestamp: ts,
        score: 1,
        correct: 1,
        total: 2,
        difficulty: "Easy".to_string(),
        time_limit_secs: 60,
        duration_secs: 60,
    }
}

#[test]
fn history_screen() {
    let mut app = seeded_app(13);
    app.finish_after(42);
    assert_eq!(app.session_duration, 42);
    app.enter_history(vec![entry(3), entry(2), entry(1)]);
    assert_eq!(app.state, AppState::History);
    assert_eq!(app.history_scroll, 0);
    handle_history(&mut app, Key::Up);
    assert_eq!(app.history_scroll, 0);
    handle_history(&mut app, Key::Down);
    handle_history(&mut app, Key::Char('j'));
    handle_history(&mut app, Key::Char('j'));
    assert_eq!(app.history_scroll, 2);
    handle_history(&mut app, Key::Char('k'));
    assert_eq!(app.history_scroll, 1);
    handle_history(&mut app, Key::Char('x'));
    assert_eq!(app.state, AppState::History);
    handle_history(&mut app, Key::Esc);
    assert_eq!(app.state, AppState::Results);
    app.enter_history(vec![]);
    handle_history(&mut app, Key::Down);
    assert_eq!(app.history_scroll, 0);
    check_consistent(&app);
}

#[test]
fn key_dispatch_and_timeout() {
    let mut app = seeded_app(10);
    assert_eq!(handle_key(&mut app, Key::Char('s')), Action::Continue);
    assert_eq!(handle_key(&mut app, Key::Char('q')), Action::RecordSession);
    assert_eq!(app.state, AppState::Results);
    assert_eq!(handle_key(&mut app, Key::Char('q')), Action::Quit);
    let mut app = seeded_app(11);
    assert!(!finish_if_time_up(&mut app));
    assert_eq!(app.state, AppState::Configuration);
    app.start_testing();
    assert!(!finish_if_time_up(&mut app));
    assert_eq!(app.state, AppState::Testing);
}

#[test]
fn questions_come_from_every_enabled_family() {
    let mut seen = std::collections::HashSet::new();
    let mut app = seeded_app(12);
    app.config.enabled = vec![SequenceKind::Cubes, SequenceKind::Fibonacci, SequenceKind::Alternating];
    app.start_testing();
    for _ in 0..60 {
        let q = app.current.as_ref().unwrap();
        assert!(app.config.enabled.contains(&q.kind));
        seen.insert(q.kind);
        app.skip_question();
    }
    assert_eq!(seen.len(), 3);
    assert_eq!(app.total, 60);
    check_consistent(&app);
}

#[test]
fn every_option_can_be_chosen_by_keys() {
    let mut app = seeded_app(13);
    handle_config(&mut app, Key::Tab);
    handle_config(&mut app, Key::Down);
    handle_config(&mut app, Key::Char(' '));
    assert_eq!(app.config.difficulty, Difficulty::Medium);
    handle_config(&mut app, Key::Down);
    handle_config(&mut app, Key::Char(' '));
    assert_eq!(app.config.difficulty, Difficulty::Hard);
    handle_config(&mut app, Key::Up);
    handle_config(&mut app, Key::Up);
    handle_config(&mut app, Key::Char(' '));
    assert_eq!(app.config.difficulty, Difficulty::Easy);
    handle_config(&mut app, Key::Tab);
    handle_config(&mut app, Key::Down);
    handle_config(&mut app, Key::Down);
    handle_config(&mut app, Key::Char(' '));
    assert_eq!(app.config.seq_len, 7);
    handle_config(&mut app, Key::Tab);
    for _ in 0..3 {
        handle_config(&mut app, Key::Down);
    }
    handle_config(&mut app, Key::Char(' '));
    assert_eq!(app.config.time_limit, TimeLimit::FifteenMinutes);
    handle_config(&mut app, Key::Enter);
    assert_eq!(app.config.time_limit, TimeLimit::FifteenMinutes);
    assert_eq!(app.state, AppState::Configuration);
}

#[test]
fn presets_keep_the_rest_of_the_configuration() {
    let mut app = seeded_app(14);
    app.config.seq_len = 7;
    app.config.difficulty = Difficulty::Hard;
    app.config.time_limit = TimeLimit::TenMinutes;
    handle_config(&mut app, Key::Tab);
    handle_config(&mut app, Key::Char('o'));
    assert_eq!(app.config.enabled.len(), 6);
    assert_eq!(app.config.seq_len, 7);
    assert_eq!(app.config.difficulty, Difficulty::Hard);
    assert_eq!(app.config.time_limit, TimeLimit::TenMinutes);
    assert_eq!(app.config_section, ConfigSection::Difficulty);
    handle_config(&mut app, Key::Char('F'));
    assert_eq!(app.config.enabled[3], SequenceKind::Squares);
    assert_eq!(app.config.seq_len, 7);
    let before = app.config.clone();
    handle_config(&mut app, Key::Tab);
    handle_config(&mut app, Key::BackTab);
    assert_eq!(app.config.enabled, before.enabled);
    assert_eq!(app.config.seq_len, before.seq_len);
}

#[test]
fn session_starts_at_the_given_time() {
    let mut app = seeded_app(15);
    let now = std::time::Instant::now();
    app.start_testing_at(now);
    assert_eq!(app.state, AppState::Testing);
    assert_eq!(app.start_time, Some(now));
    assert!(app.current.is_some());
    assert_eq!(app.input, "");
}

#[test]
fn time_runs_out_at_the_limit() {
    let mut app = seeded_app(16);
    assert!(!finish_if_time_up_after(&mut app, 1000));
    assert_eq!(app.state, AppState::Configuration);
    app.start_testing();
    assert!(!finish_if_time_up_after(&mut app, 59));
    assert_eq!(app.state, AppState::Testing);
    assert!(finish_if_time_up_after(&mut app, 60));
    assert_eq!(app.state, AppState::Results);
    assert_eq!(app.session_duration, 60);
    assert_eq!(app.results_button, ResultsButton::Restart);
    assert!(!finish_if_time_up_after(&mut app, 1000));
    assert_eq!(app.session_duration, 60);
    let mut app = seeded_app(17);
    app.config.time_limit = TimeLimit::FiveMinutes;
    app.start_testing();
    assert!(!finish_if_time_up_after(&mut app, 299));
    assert!(finish_if_time_up_after(&mut app, 300));
}

fn well_shaped(s: &str) -> bool {
    s.chars().enumerate().all(|(i, c)| c.is_ascii_digit() || (i == 0 && c == '-'))
}

#[test]
fn typed_answer_stays_a_signed_number() {
    let mut app = seeded_app(18);
    handle_config(&mut app, Key::Char('s'));
    let keys = [
        Key::Char('7'), Key::Char('-'), Key::Backspace, Key::Backspace, Key::Char('-'), Key::Char('-'),
        Key::Char('a'), Key::Char('3'), Key::Left, Key::Char('9'), Key::Esc, Key::Char('-'), Key::Char('1'),
        Key::Enter, Key::Backspace, Key::Char('0'), Key::Char('-'),
    ];
    for key in keys {
        handle_testing(&mut app, key);
        assert!(well_shaped(&app.input), "{:?}", app.input);
    }
    assert_eq!(app.input, "0");
    assert_eq!(app.total, 2);
    check_consistent(&app);
}

#[test]
fn finishing_keeps_the_session_and_scrolling_keeps_the_rest() {
    let mut app = seeded_app(19);
    app.start_testing();
    handle_testing(&mut app, Key::Char('5'));
    let started = app.start_time;
    app.history_scroll = 0;
    app.finish();
    assert_eq!(app.state, AppState::Results);
    assert_eq!(app.start_time, started);
    assert_eq!(app.input, "5");
    assert_eq!(app.history_scroll, 0);
    app.results_button = ResultsButton::Quit;
    app.enter_history(vec![entry(3), entry(2), entry(1)]);
    app.history_down();
    app.history_down();
    app.history_up();
    assert_eq!(app.history_scroll, 1);
    assert_eq!(app.results_button, ResultsButton::Quit);
    assert_eq!(app.start_time, started);
    assert_eq!(app.input, "5");
    assert_eq!(app.config_section, ConfigSection::Types);
}
