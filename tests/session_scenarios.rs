use rand::rngs::StdRng;
use rand::SeedableRng;
use typa::align::Slot;
use typa::config::Theme;
use typa::models::{AppState, Mode, QuoteData, QuoteLength, QuoteSelector, WordData, WordState};
use typa::session::App;

fn chars(s: &str) -> Vec<char> {
    s.chars().collect()
}

fn session(mode: Mode, words: &[&str]) -> App {
    let word_data = WordData { name: "test".to_string(), words: Vec::new() };
    let quote_data = QuoteData { language: "test".to_string(), groups: Vec::new(), quotes: Vec::new() };
    let mut app = App::new(mode, word_data, quote_data, false, false, Theme::default(), StdRng::seed_from_u64(7));
    app.set_word_stream(words.iter().map(|w| chars(w)).collect());
    app
}

fn quote_session(words: &[&str]) -> App {
    session(Mode::Quote(QuoteSelector::Category(QuoteLength::All)), words)
}

fn type_str(app: &mut App, s: &str, now_ms: u64) {
    for c in s.chars() {
        app.on_key(c, now_ms);
    }
}

fn display_string(app: &App) -> String {
    app.display.iter().collect()
}

fn completed_stats(app: &App, n: usize) -> (isize, isize, usize, usize, usize, usize) {
    app.calculate_custom_stats_for_slice(&app.aligned_input[..n], &app.display[..n], &app.display_mask[..n])
}

#[test]
fn transposed_word_charges_one_structural_error() {
    let mut app = quote_session(&["cat", "dog"]);
    type_str(&mut app, "cta ", 0);
    // three wrong keystrokes (t, a, the space) plus one structural error for the word
    assert_eq!(app.total_errors_ever, 4);
    assert!(app.processed_word_errors.contains(0));
    assert_eq!(app.live_correct_keystrokes, 1);
    assert_eq!(app.live_incorrect_keystrokes, 3);
    // positional comparison: two incorrect letters, the space scored as an error
    assert_eq!(completed_stats(&app, 4), (1, 3, 0, 2, 0, 0));
}

#[test]
fn straight_apostrophe_matches_curly_apostrophe() {
    let mut app = quote_session(&["don\u{2019}t", "stop"]);
    type_str(&mut app, "don't ", 0);
    assert_eq!(app.total_errors_ever, 0);
    assert_eq!(app.live_incorrect_keystrokes, 0);
    assert_eq!(app.live_correct_keystrokes, 6);
    assert_eq!(completed_stats(&app, 6), (6, 0, 6, 0, 0, 0));
}

#[test]
fn extra_characters_are_spliced_before_the_boundary() {
    let mut app = quote_session(&["test", "next"]);
    type_str(&mut app, "testabcde ", 0);
    assert_eq!(display_string(&app), "testabcde next");
    let mask: Vec<bool> = app.display_mask[..10].to_vec();
    assert_eq!(mask, vec![false, false, false, false, true, true, true, true, true, false]);
    assert_eq!(app.extra_char_count, 5);
    let (acc_cor, acc_inc, cor, inc, ext, mis) = completed_stats(&app, 10);
    assert_eq!(ext, 5);
    // five extra characters, plus the boundary space of the faulty word
    assert_eq!(acc_inc, 6);
    assert_eq!((acc_cor, cor, inc, mis), (4, 0, 0, 0));
    // five wrong extra keystrokes, the wrong space, and the structural error:
    // one for the mismatch and one per extra character
    assert_eq!(app.total_errors_ever, 5 + 1 + 6);
}

#[test]
fn time_limit_mid_word_truncates_untyped_rest() {
    let mut app = session(Mode::Time(30), &["abcdef", "ghi"]);
    type_str(&mut app, "ab", 0);
    app.end_test(2000);
    assert_eq!(app.state, AppState::Finished);
    assert_eq!(display_string(&app), "ab");
    assert_eq!(app.display_mask.len(), 2);
    let (cor, inc, ext, mis) = app.resolved_char_stats();
    assert_eq!((cor, inc, ext, mis), (2, 0, 0, 0));
}

#[test]
fn final_snapshot_recorded_when_far_from_last_second() {
    let mut app = session(Mode::Time(30), &["abc", "def", "ghi"]);
    app.on_key('a', 0);
    app.on_key('b', 9970);
    assert_eq!(app.last_snapshot_second, Some(9));
    assert_eq!(app.snapshots.len(), 1);
    assert_eq!(app.snapshots[0].elapsed_ms, 9000);
    app.end_test(10200);
    assert_eq!(app.snapshots.len(), 2);
    assert_eq!(app.snapshots[1].elapsed_ms, 10200);
    assert_eq!(app.final_time_ms, 10200);
}

#[test]
fn final_snapshot_skipped_when_close_to_last_second() {
    let mut app = session(Mode::Time(30), &["abc", "def", "ghi"]);
    app.on_key('a', 0);
    app.on_key('b', 9000);
    assert_eq!(app.snapshots.len(), 1);
    app.end_test(9300);
    assert_eq!(app.snapshots.len(), 1);
}

#[test]
fn exact_word_scores_fully_correct() {
    let mut app = quote_session(&["cat", "dog"]);
    type_str(&mut app, "cat ", 0);
    assert_eq!(completed_stats(&app, 4), (4, 0, 4, 0, 0, 0));
    assert_eq!(app.missed_chars.get(0), None);
}

#[test]
fn one_short_word_records_one_missed() {
    let mut app = quote_session(&["cat", "dog"]);
    type_str(&mut app, "ca ", 0);
    assert_eq!(app.missed_chars.get(0), Some(1));
    assert_eq!(app.aligned_input, vec![Slot::Char('c'), Slot::Char('a'), Slot::Missing, Slot::Char(' ')]);
    let (_, _, cor, inc, ext, mis) = completed_stats(&app, 4);
    assert_eq!((cor, inc, ext, mis), (0, 0, 0, 1));
}

#[test]
fn aligned_input_matches_display_at_boundary() {
    let mut app = quote_session(&["one", "two", "three"]);
    type_str(&mut app, "o twoo ", 0);
    // "one " is 4 characters, "twoo " carries one extra: 4 + 5
    assert_eq!(app.aligned_input.len(), 9);
    assert_eq!(display_string(&app)[..9].to_string(), "one twoo ");
}

#[test]
fn repeated_space_at_boundary_charges_once() {
    let mut app = quote_session(&["cat", "dog"]);
    type_str(&mut app, "cta ", 0);
    assert_eq!(app.total_errors_ever, 4);
    app.on_backspace();
    assert_eq!(app.typed.len(), 1);
    app.on_key(' ', 0);
    // the wrong space keystroke counts, the structural error does not
    assert_eq!(app.total_errors_ever, 5);
}

#[test]
fn backspace_cannot_reenter_correct_word() {
    let mut app = quote_session(&["cat", "dog"]);
    type_str(&mut app, "cat ", 0);
    app.on_backspace();
    assert_eq!(app.typed.len(), 2);
    assert_eq!(app.aligned_input.len(), 4);
}

#[test]
fn backspace_reenters_short_word_and_clears_missed() {
    let mut app = quote_session(&["cat", "dog"]);
    type_str(&mut app, "ca ", 0);
    assert_eq!(app.missed_chars.get(0), Some(1));
    app.on_backspace();
    assert_eq!(app.missed_chars.get(0), None);
    assert_eq!(app.aligned_input, vec![Slot::Char('c'), Slot::Char('a')]);
}

#[test]
fn space_on_empty_word_is_dropped() {
    let mut app = quote_session(&["cat", "dog"]);
    app.on_key(' ', 0);
    assert_eq!(app.gross_char_count, 0);
    assert_eq!(app.typed.len(), 1);
    assert_eq!(app.state, AppState::Running);
}

#[test]
fn overrun_beyond_limit_is_dropped() {
    let mut app = quote_session(&["a", "b"]);
    type_str(&mut app, "aaaaaaaaaaaaaaaaaaaaaaaaa", 0);
    // one target character plus nineteen extra
    assert_eq!(app.typed[0].len(), 20);
}

#[test]
fn eviction_retires_first_line_and_keeps_buffers_aligned() {
    let words = ["alpha", "beta", "gamma", "delta", "omega", "sigma", "theta", "kappa", "lambda"];
    let mut app = quote_session(&words);
    app.resize(20, 10);
    // width 20 gives a layout of 16 and lines of 14 characters
    assert_eq!(app.visual_lines[0].iter().collect::<String>(), "alpha beta");
    let before = app.st_correct;
    type_str(&mut app, "alpha beta gamma delta omega ", 0);
    assert!(app.scrolled_word_count >= 2);
    assert!(app.st_correct > before);
    let first: String = app.word_stream[0].text.iter().collect();
    assert!(display_string(&app).starts_with(&first));
    // every remaining typed segment faces the same word as before
    let typed_now: Vec<String> = app.typed.iter().map(|s| s.iter().collect()).collect();
    assert_eq!(typed_now[0], first);
    let total: usize = app.aligned_input.len();
    assert!(total <= app.display.len());
}

#[test]
fn cumulative_counters_never_decrease() {
    let words = ["alpha", "beta", "gamma", "delta", "omega", "sigma", "theta", "kappa", "lambda"];
    let mut app = quote_session(&words);
    app.resize(20, 10);
    let mut last = (0usize, 0usize, 0usize, 0usize, 0usize);
    for (i, c) in "alpah beta gamm delta omegaa sigma ".chars().enumerate() {
        app.on_key(c, i as u64 * 100);
        if i % 7 == 3 {
            app.on_backspace();
        }
        let now = (app.st_correct, app.st_incorrect, app.st_extra, app.st_missed, app.uncorrected_errors_scrolled);
        assert!(now.0 >= last.0 && now.1 >= last.1 && now.2 >= last.2 && now.3 >= last.3 && now.4 >= last.4);
        last = now;
    }
}

#[test]
fn quote_session_ends_when_last_word_typed() {
    let mut app = quote_session(&["hi", "there"]);
    type_str(&mut app, "hi ther", 0);
    assert_eq!(app.state, AppState::Running);
    app.on_key('e', 3000);
    assert_eq!(app.state, AppState::Finished);
    assert_eq!(app.final_time_ms, 3000);
    assert_eq!(app.final_correct_chars, 8);
}

#[test]
fn finished_session_ignores_keys() {
    let mut app = quote_session(&["hi"]);
    type_str(&mut app, "hi", 0);
    assert_eq!(app.state, AppState::Finished);
    let gross = app.gross_char_count;
    app.on_key('x', 10);
    app.on_backspace();
    assert_eq!(app.gross_char_count, gross);
}

#[test]
fn check_time_ends_time_limited_session() {
    let mut app = session(Mode::Time(2), &["abc", "def"]);
    app.on_key('a', 1000);
    app.check_time(2500);
    assert_eq!(app.state, AppState::Running);
    app.check_time(3000);
    assert_eq!(app.state, AppState::Finished);
}

#[test]
fn live_correct_counts_clean_word_in_progress() {
    let mut app = quote_session(&["cat", "dog", "owl"]);
    type_str(&mut app, "cat do", 0);
    assert_eq!(app.calculate_live_correct_chars(), 4 + 2);
    app.on_key('x', 0);
    assert_eq!(app.calculate_live_correct_chars(), 4);
}

#[test]
fn restart_keeps_cumulative_counters_and_resets_input() {
    let words = ["alpha", "beta", "gamma", "delta", "omega", "sigma", "theta", "kappa", "lambda"];
    let mut app = quote_session(&words);
    app.resize(20, 10);
    type_str(&mut app, "alpha beta gamma delta omega ", 0);
    let kept = app.st_correct;
    app.restart_test();
    assert_eq!(app.st_correct, kept);
    assert_eq!(app.state, AppState::Waiting);
    assert_eq!(app.typed.len(), 1);
    assert!(app.typed[0].is_empty());
    assert_eq!(app.gross_char_count, 0);
}

#[test]
fn wrap_policy_blocks_normal_char_on_fourth_line() {
    let mut app = quote_session(&["aaaa", "bbbb", "cccc", "dddd", "eeee"]);
    app.resize(10, 10);
    // layout 8, lines of 6: one word per line
    assert_eq!(app.visual_lines.len(), 5);
    assert!(!app.will_cause_visual_wrap('a', false));
}

#[test]
fn backspace_cannot_reenter_visually_equal_word() {
    let mut app = quote_session(&["don\u{2019}t", "stop"]);
    type_str(&mut app, "don't ", 0);
    app.on_backspace();
    assert_eq!(app.typed.len(), 2);
    assert_eq!(app.aligned_input.len(), 6);
}

#[test]
fn quote_session_ends_on_visually_equal_last_word() {
    let mut app = quote_session(&["go", "don\u{2019}t"]);
    type_str(&mut app, "go don'", 0);
    assert_eq!(app.state, AppState::Running);
    app.on_key('t', 1500);
    assert_eq!(app.state, AppState::Finished);
    assert_eq!(app.final_time_ms, 1500);
}

#[test]
fn final_snapshot_holds_counts_at_duration() {
    let mut app = session(Mode::Time(30), &["abc", "def", "ghi"]);
    app.on_key('a', 0);
    app.on_key('x', 1200);
    assert_eq!(app.snapshots.len(), 1);
    assert_eq!(app.snapshots[0].gross_chars, 1);
    assert_eq!(app.snapshots[0].errors, 0);
    app.end_test(2600);
    assert_eq!(app.snapshots.len(), 2);
    let last = app.snapshots[1];
    assert_eq!(last.elapsed_ms, 2600);
    assert_eq!(last.gross_chars, 2);
    assert_eq!(last.errors, 1);
    assert_eq!(last.correct_chars, 0);
}

#[test]
fn finishing_a_word_marks_states_and_furthest() {
    let mut app = quote_session(&["one", "two", "three"]);
    type_str(&mut app, "one ", 0);
    assert_eq!(app.word_stream[0].state, WordState::Typed);
    assert_eq!(app.word_stream[1].state, WordState::Active);
    assert_eq!(app.word_stream[2].state, WordState::Pending);
    assert_eq!(app.furthest_word_idx, 1);
}
