//! What each key does on each screen. The terminal loop reads a key, turns
//! it into a `Key`, hands it here together with the drill's state, and
//! carries out the `Action` that comes back.

use vstd::prelude::*;
use crate::app::{
    answer_is_right, next_button, next_section, prev_button, prev_section, question_drawn, section_rows, session_finished,
    tally_after, toggled, App, AppState, ConfigSection, ResultsButton,
};
use crate::config::{
    all_difficulties, all_time_limits, flow_traders_kinds, optiver_kinds, seq_len_choices, time_limit_seconds,
};
use crate::sequences::all_kinds;
use crate::text::{pop_char, push_char};

verus! {

/// A key press, as far as the drill tells keys apart.
#[derive(Debug, Clone, Copy, PartialEq, Eq, Structural)]
pub enum Key {
    Char(char),
    Enter,
    Esc,
    Tab,
    BackTab,
    Up,
    Down,
    Left,
    Right,
    Backspace,
    Other,
}

/// What the terminal loop has to do after a key: nothing more, end the
/// program, load the history file and show it (`App::enter_history`), or
/// append the session that just ended to the history file
/// (`App::session_entry`).
#[derive(Debug, Clone, Copy, PartialEq, Eq, Structural)]
pub enum Action {
    Continue,
    Quit,
    OpenHistory,
    RecordSession,
}

pub open spec fn is_ascii_digit(c: char) -> bool {
    '0' <= c && c <= '9'
}

/// The key is one of the two given characters.
pub open spec fn is_char_either(key: Key, a: char, b: char) -> bool {
    key == Key::Char(a) || key == Key::Char(b)
}

/// On the configuration screen the key toggles or selects under the cursor.
pub open spec fn config_key_toggles(app: App, key: Key) -> bool {
    key == Key::Char(' ') || (key == Key::Enter && app.config_section == ConfigSection::Types)
}

/// On the configuration screen the key starts a session (when some family is enabled).
pub open spec fn config_key_starts(app: App, key: Key) -> bool {
    is_char_either(key, 's', 'S') || (key == Key::Enter && app.config_section == ConfigSection::Start)
}

/// The key does something on the configuration screen (other than asking to quit).
pub open spec fn config_key_acts(app: App, key: Key) -> bool {
    ||| is_char_either(key, 'o', 'O')
    ||| is_char_either(key, 'f', 'F')
    ||| config_key_starts(app, key)
    ||| key == Key::Tab
    ||| key == Key::BackTab
    ||| key == Key::Up
    ||| key == Key::Down
    ||| config_key_toggles(app, key)
}

/// The key does something on the testing screen.
pub open spec fn testing_key_acts(key: Key) -> bool {
    match key {
        Key::Char(c) => c == 'q' || c == 'Q' || c == '-' || is_ascii_digit(c),
        Key::Enter | Key::Esc | Key::Backspace => true,
        _ => false,
    }
}

/// What the methods that `key` calls on the current screen need of the state.
pub open spec fn can_handle(app: App, key: Key) -> bool {
    match app.state {
        AppState::Configuration => {
            &&& config_key_toggles(app, key) ==> app.cursor < section_rows(app.config_section)
            &&& config_key_starts(app, key) ==> app.can_draw()
        },
        AppState::Testing => {
            &&& key == Key::Enter ==> app.can_count_answer() && app.can_draw()
            &&& key == Key::Esc ==> app.can_count_skip() && app.can_draw()
        },
        AppState::Results => true,
        AppState::History => true,
    }
}

/// A consistent drill whose total has not reached `u32::MAX` can take any key.
pub proof fn lemma_consistent_can_handle(app: App, key: Key)
    requires
        app.is_consistent(),
        app.total < u32::MAX,
    ensures
        can_handle(app, key),
{
    crate::app::lemma_consistent_can_count(&app);
}

/// Applying a preset keeps everything of the configuration screen but the
/// enabled families.
pub open spec fn preset_keeps(before: App, after: App) -> bool {
    &&& after.config.difficulty == before.config.difficulty
    &&& after.config.seq_len == before.config.seq_len
    &&& after.config.time_limit == before.config.time_limit
    &&& after.cursor == before.cursor
    &&& after.config_section == before.config_section
}

/// What `key` does on the configuration screen, taking the drill from
/// `before` to `after` and answering `action`: `q` asks to quit, `o` and `f`
/// apply the presets, Tab and Shift-Tab change section, the arrows move the
/// cursor, Space toggles or selects, Enter toggles in the family list, `s`
/// (or Enter on the start button) starts a session when some family is
/// enabled; any other key changes nothing.
pub open spec fn config_effect(before: App, key: Key, after: App, action: Action) -> bool {
    &&& action == (if is_char_either(key, 'q', 'Q') { Action::Quit } else { Action::Continue })
    &&& action == Action::Quit ==> after == before
    &&& is_char_either(key, 'o', 'O') ==> after.config.enabled@ == optiver_kinds() && preset_keeps(before, after)
    &&& is_char_either(key, 'f', 'F') ==> after.config.enabled@ == flow_traders_kinds() && preset_keeps(before, after)
    &&& key == Key::Tab ==> after.config_section == next_section(before.config_section) && after.cursor == 0
        && after.config == before.config
    &&& key == Key::BackTab ==> after.config_section == prev_section(before.config_section) && after.cursor == 0
        && after.config == before.config
    &&& key == Key::Up ==> after.cursor == before.cursor_after_up() && after.config == before.config
        && after.config_section == before.config_section
    &&& key == Key::Down ==> after.cursor == before.cursor_after_down() && after.config == before.config
        && after.config_section == before.config_section
    &&& config_key_toggles(before, key) ==> after.cursor == before.cursor && after.config_section == before.config_section
    &&& config_key_toggles(before, key) && before.config_section == ConfigSection::Types ==> after.config.enabled@
        == toggled(before.config.enabled@, all_kinds()[before.cursor as int])
    &&& config_key_toggles(before, key) && before.config_section == ConfigSection::Difficulty ==> after.config.difficulty
        == all_difficulties()[before.cursor as int]
    &&& config_key_toggles(before, key) && before.config_section == ConfigSection::Length ==> after.config.seq_len
        == seq_len_choices()[before.cursor as int]
    &&& config_key_toggles(before, key) && before.config_section == ConfigSection::TimeLimit ==> after.config.time_limit
        == all_time_limits()[before.cursor as int]
    &&& config_key_starts(before, key) ==> (if before.config.enabled@.len() > 0 {
        &&& after.state == AppState::Testing
        &&& after.start_time is Some
        &&& question_drawn(before.config, before.current, before.input@, after.current, after.input@)
        &&& after.config == before.config
        &&& after.score == before.score
        &&& after.total == before.total
        &&& after.correct == before.correct
        &&& after.per_kind@ == before.per_kind@
    } else {
        after == before
    })
    &&& !config_key_acts(before, key) ==> after == before
    &&& !config_key_starts(before, key) ==> after.same_session(before)
}

/// The configuration screen; see `config_effect`.
pub fn handle_config(app: &mut App, key: Key) -> (action: Action)
    requires
        old(app).state == AppState::Configuration,
        can_handle(*old(app), key),
    ensures
        config_effect(*old(app), key, *final(app), action),
        old(app).is_consistent() ==> final(app).is_consistent(),
        old(app).counts_agree() ==> final(app).counts_agree(),
{
    match key {
        Key::Char('q') | Key::Char('Q') => {
            return Action::Quit;
        },
        Key::Char('o') | Key::Char('O') => app.apply_optiver_preset(),
        Key::Char('f') | Key::Char('F') => app.apply_flow_traders_preset(),
        Key::Tab => app.config_next_section(),
        Key::BackTab => app.config_prev_section(),
        Key::Up => app.config_up(),
        Key::Down => app.config_down(),
        Key::Char(' ') => app.config_toggle_or_select(),
        Key::Enter => {
            match app.config_section {
                ConfigSection::Types => app.config_toggle_or_select(),
                ConfigSection::Difficulty | ConfigSection::Length | ConfigSection::TimeLimit => {},
                ConfigSection::Start => {
                    if app.config.enabled.len() > 0 {
                        app.start_testing();
                    }
                },
            }
        },
        Key::Char('s') | Key::Char('S') => {
            if app.config.enabled.len() > 0 {
                app.start_testing();
            }
        },
        _ => {},
    }
    Action::Continue
}

/// What `key` does on the testing screen: `q` ends the session (which is
/// then to be recorded), Esc skips, Enter submits, Backspace deletes the
/// last character, `-` starts a negative answer, digits are typed, and any
/// other key changes nothing.
pub open spec fn testing_effect(before: App, key: Key, after: App, action: Action) -> bool {
    &&& action == (if is_char_either(key, 'q', 'Q') { Action::RecordSession } else { Action::Continue })
    &&& is_char_either(key, 'q', 'Q') ==> after.state == AppState::Results && after.total == before.total
        && after.current == before.current && after.input@ == before.input@ && after.results_button
        == ResultsButton::Restart
    &&& !is_char_either(key, 'q', 'Q') ==> after.state == AppState::Testing
    &&& key == Key::Enter ==> (match before.current {
        Some(q) => {
            let hit = answer_is_right(before.input@, q.answer);
            &&& after.total == before.total + 1
            &&& after.correct == before.correct + (if hit { 1int } else { 0int })
            &&& after.per_kind@ == tally_after(before.per_kind@, q.kind, hit)
        },
        None => after.total == before.total,
    }) && question_drawn(before.config, before.current, before.input@, after.current, after.input@)
    &&& key == Key::Esc ==> (match before.current {
        Some(q) => {
            &&& after.total == before.total + 1
            &&& after.correct == before.correct
            &&& after.per_kind@ == tally_after(before.per_kind@, q.kind, false)
        },
        None => after.total == before.total,
    }) && question_drawn(before.config, before.current, before.input@, after.current, after.input@)
    &&& key == Key::Backspace ==> after.input@ == (if before.input@.len() > 0 {
        before.input@.drop_last()
    } else {
        before.input@
    })
    &&& key == Key::Char('-') ==> after.input@ == (if before.input@.len() == 0 {
        before.input@.push('-')
    } else {
        before.input@
    })
    &&& key is Char && is_ascii_digit(key->Char_0) ==> after.input@ == before.input@.push(key->Char_0)
    &&& key != Key::Enter && key != Key::Esc ==> after.total == before.total && after.correct == before.correct
        && after.per_kind@ == before.per_kind@ && after.current == before.current
    &&& after.config == before.config && after.cursor == before.cursor
    &&& !testing_key_acts(key) ==> after == before
}

/// The testing screen; see `testing_effect`.
pub fn handle_testing(app: &mut App, key: Key) -> (action: Action)
    requires
        old(app).state == AppState::Testing,
        can_handle(*old(app), key),
    ensures
        testing_effect(*old(app), key, *final(app), action),
        answer_shape(old(app).input@) ==> answer_shape(final(app).input@),
        old(app).is_consistent() ==> final(app).is_consistent(),
        old(app).counts_agree() ==> final(app).counts_agree(),
{
    let ghost before = *app;
    let action = match key {
        Key::Char('q') | Key::Char('Q') => {
            app.finish();
            Action::RecordSession
        },
        Key::Esc => {
            app.skip_question();
            Action::Continue
        },
        Key::Enter => {
            app.submit_answer();
            Action::Continue
        },
        Key::Backspace => {
            pop_char(&mut app.input);
            Action::Continue
        },
        Key::Char(c) => {
            if c == '-' {
                if app.input.as_str().unicode_len() == 0 {
                    push_char(&mut app.input, '-');
                }
            } else if '0' <= c && c <= '9' {
                push_char(&mut app.input, c);
            }
            Action::Continue
        },
        _ => Action::Continue,
    };
    proof {
        if answer_shape(before.input@) {
            lemma_input_keeps_shape(before, key, *app, action);
        }
    }
    action
}

/// The typed answer is an optional minus sign followed by digits.
pub open spec fn answer_shape(s: Seq<char>) -> bool {
    forall|i: int| 0 <= i < s.len() ==> is_ascii_digit(#[trigger] s[i]) || (i == 0 && s[i] == '-')
}

/// Whatever key the testing screen takes, the typed answer stays an
/// optional minus sign followed by digits.
pub proof fn lemma_input_keeps_shape(before: App, key: Key, after: App, action: Action)
    requires
        testing_effect(before, key, after, action),
        answer_shape(before.input@),
    ensures
        answer_shape(after.input@),
{
    let s = before.input@;
    let t = after.input@;
    if key == Key::Backspace && s.len() > 0 {
        assert forall|i: int| 0 <= i < t.len() implies is_ascii_digit(#[trigger] t[i]) || (i == 0 && t[i] == '-') by {
            assert(t[i] == s[i]);
        }
    } else if key is Char && is_ascii_digit(key->Char_0) {
        assert forall|i: int| 0 <= i < t.len() implies is_ascii_digit(#[trigger] t[i]) || (i == 0 && t[i] == '-') by {
            if i < s.len() {
                assert(t[i] == s[i]);
            }
        }
    } else if key == Key::Char('-') && s.len() == 0 {
        assert(t[0] == '-');
    }
}

/// The button under focus is activated by Enter or Space.
pub open spec fn results_key_presses(key: Key) -> bool {
    key == Key::Enter || key == Key::Char(' ')
}

/// What a key on the results screen asks for: `r` (or the restart button)
/// starts over, `h` (or the history button) opens the history, `q` (or the
/// quit button) quits.
pub open spec fn results_choice(app: App, key: Key) -> Option<ResultsButton> {
    if is_char_either(key, 'r', 'R') {
        Some(ResultsButton::Restart)
    } else if is_char_either(key, 'h', 'H') {
        Some(ResultsButton::History)
    } else if is_char_either(key, 'q', 'Q') {
        Some(ResultsButton::Quit)
    } else if results_key_presses(key) {
        Some(app.results_button)
    } else {
        None
    }
}

/// What `key` does on the results screen: shortcuts `r`, `h`, `q`; Tab and
/// the arrows move the focus between the buttons; Enter or Space activate
/// the focused one; any other key changes nothing.
pub open spec fn results_effect(before: App, key: Key, after: App, action: Action) -> bool {
    &&& action == (match results_choice(before, key) {
        Some(ResultsButton::History) => Action::OpenHistory,
        Some(ResultsButton::Quit) => Action::Quit,
        _ => Action::Continue,
    })
    &&& results_choice(before, key) == Some(ResultsButton::Restart) ==> after.is_fresh() && after.config == before.config
        && after.history@ == before.history@ && after.history_scroll == before.history_scroll
    &&& key == Key::Tab || key == Key::Right ==> after.results_button == next_button(before.results_button)
        && after.state == AppState::Results
    &&& key == Key::BackTab || key == Key::Left ==> after.results_button == prev_button(before.results_button)
        && after.state == AppState::Results
    &&& results_choice(before, key) != Some(ResultsButton::Restart) ==> after.state == before.state && after.total
        == before.total && after.config == before.config
    &&& results_choice(before, key) != Some(ResultsButton::Restart) && key != Key::Tab && key != Key::Right && key
        != Key::BackTab && key != Key::Left ==> after == before
}

/// The results screen; see `results_effect`.
pub fn handle_results(app: &mut App, key: Key) -> (action: Action)
    requires
        old(app).state == AppState::Results,
    ensures
        results_effect(*old(app), key, *final(app), action),
        old(app).is_consistent() ==> final(app).is_consistent(),
        old(app).counts_agree() ==> final(app).counts_agree(),
{
    match key {
        Key::Char('r') | Key::Char('R') => {
            app.reset();
            Action::Continue
        },
        Key::Char('h') | Key::Char('H') => Action::OpenHistory,
        Key::Char('q') | Key::Char('Q') => Action::Quit,
        Key::Tab | Key::Right => {
            app.results_button = app.results_button.next();
            Action::Continue
        },
        Key::BackTab | Key::Left => {
            app.results_button = app.results_button.prev();
            Action::Continue
        },
        Key::Enter | Key::Char(' ') => {
            match app.results_button {
                ResultsButton::Restart => {
                    app.reset();
                    Action::Continue
                },
                ResultsButton::History => Action::OpenHistory,
                ResultsButton::Quit => Action::Quit,
            }
        },
        _ => Action::Continue,
    }
}

/// What `key` does on the history screen: the arrows (or `k` and `j`) move
/// the highlight, Esc or `q` go back to the results; any other key changes
/// nothing.
pub open spec fn history_effect(before: App, key: Key, after: App) -> bool {
    &&& key == Key::Up || key == Key::Char('k') ==> after.history_scroll == (if before.history_scroll > 0 {
        (before.history_scroll - 1) as usize
    } else {
        before.history_scroll
    }) && after.state == AppState::History
    &&& key == Key::Down || key == Key::Char('j') ==> after.history_scroll == (if before.history_scroll + 1
        < before.history@.len() {
        (before.history_scroll + 1) as usize
    } else {
        before.history_scroll
    }) && after.state == AppState::History
    &&& key == Key::Esc || is_char_either(key, 'q', 'Q') ==> after.state == AppState::Results && after.history_scroll
        == before.history_scroll
    &&& after.history@ == before.history@ && after.total == before.total && after.config == before.config
    &&& !(key == Key::Up || key == Key::Char('k') || key == Key::Down || key == Key::Char('j') || key == Key::Esc
        || is_char_either(key, 'q', 'Q')) ==> after == before
}

/// The history screen; see `history_effect`.
pub fn handle_history(app: &mut App, key: Key)
    requires
        old(app).state == AppState::History,
        can_handle(*old(app), key),
    ensures
        history_effect(*old(app), key, *final(app)),
        old(app).is_consistent() ==> final(app).is_consistent(),
        old(app).counts_agree() ==> final(app).counts_agree(),
{
    match key {
        Key::Up | Key::Char('k') => app.history_up(),
        Key::Down | Key::Char('j') => app.history_down(),
        Key::Esc | Key::Char('q') | Key::Char('Q') => {
            app.state = AppState::Results;
        },
        _ => {},
    }
}

/// Hands a key to the screen the drill is on, which does what its
/// `*_effect` says.
pub fn handle_key(app: &mut App, key: Key) -> (action: Action)
    requires
        can_handle(*old(app), key),
    ensures
        old(app).state == AppState::Configuration ==> config_effect(*old(app), key, *final(app), action),
        old(app).state == AppState::Testing ==> testing_effect(*old(app), key, *final(app), action),
        old(app).state == AppState::Results ==> results_effect(*old(app), key, *final(app), action),
        old(app).state == AppState::History ==> history_effect(*old(app), key, *final(app)) && action
            == Action::Continue,
        action == Action::Quit <==> (old(app).state == AppState::Configuration && is_char_either(key, 'q', 'Q')) || (
        old(app).state == AppState::Results && results_choice(*old(app), key) == Some(ResultsButton::Quit)),
        action == Action::RecordSession <==> old(app).state == AppState::Testing && is_char_either(key, 'q', 'Q'),
        action == Action::OpenHistory <==> old(app).state == AppState::Results && results_choice(*old(app), key) == Some(
            ResultsButton::History,
        ),
        old(app).is_consistent() ==> final(app).is_consistent(),
        old(app).counts_agree() ==> final(app).counts_agree(),
{
    match app.state {
        AppState::Configuration => handle_config(app, key),
        AppState::Testing => handle_testing(app, key),
        AppState::Results => handle_results(app, key),
        AppState::History => {
            handle_history(app, key);
            Action::Continue
        },
    }
}

/// Whether a session is over after `elapsed` seconds: a started session on
/// the testing screen whose time limit `elapsed` has reached.
pub open spec fn time_runs_out(app: App, elapsed: u64) -> bool {
    &&& app.state == AppState::Testing
    &&& app.start_time is Some
    &&& elapsed >= time_limit_seconds(app.config.time_limit)
}

/// Ends the session when `elapsed` seconds have run out its time, recording
/// that length; does nothing otherwise. Returns whether it ended the session
/// (which is then to be recorded).
pub fn finish_if_time_up_after(app: &mut App, elapsed: u64) -> (ended: bool)
    ensures
        ended == time_runs_out(*old(app), elapsed),
        ended ==> session_finished(*old(app), *final(app), elapsed),
        !ended ==> *final(app) == *old(app),
        old(app).is_consistent() ==> final(app).is_consistent(),
        old(app).counts_agree() ==> final(app).counts_agree(),
{
    if app.state == AppState::Testing && app.is_time_up_after(elapsed) {
        app.finish_after(elapsed);
        true
    } else {
        false
    }
}

/// Ends a running session whose time is up, by the monotonic clock; does
/// nothing otherwise. The clock is read once, and that reading is both what
/// is checked against the limit and the length recorded.
pub fn finish_if_time_up(app: &mut App) -> (ended: bool)
    ensures
        ended ==> time_runs_out(*old(app), final(app).session_duration),
        ended ==> session_finished(*old(app), *final(app), final(app).session_duration),
        !ended ==> *final(app) == *old(app),
        old(app).is_consistent() ==> final(app).is_consistent(),
        old(app).counts_agree() ==> final(app).counts_agree(),
{
    let elapsed = app.elapsed_secs();
    finish_if_time_up_after(app, elapsed)
}

} // verus!
