//! A typing session: the target word stream, the typed input, the buffers derived from
//! both, and the statistics.
pub mod eviction;
pub mod keys;
pub mod metrics;

use vstd::prelude::*;
use crate::align::{Slot, aligned_of, build_alignment, display_of, mask_of, texts};
use crate::config::Theme;
use crate::generator::WordGenerator;
use crate::layout::{line_containing, line_idx_for_cursor, line_index, view_lines, wrap_into_lines, wrapped};
use crate::models::{AppState, Mode, QuoteData, Word, WordData, WordState};
use crate::strings::{are_characters_visually_equal, visually_equal};
use crate::word_map::{lemma_rebased_zero, rebased, WordIndexMap};
use rand::rngs::StdRng;
use crate::session::eviction::{clip, retired_count};
use crate::session::keys::{after_key, key_correct, key_dropped, missed_after_key, processed_after_key};

verus! {

/// Extra characters a word may take beyond its target length.
pub const DEFAULT_EXTRA_LIMIT: usize = 19;

/// A new word is asked for while fewer than this many pending words remain.
pub const DEFAULT_REFILL_THRESHOLD: usize = 100;

/// One per-second sample of a running session, in whole units: the metrics
/// (net and raw words per minute) are derived from these counts and the elapsed time.
#[derive(Debug, Clone, Copy, PartialEq, Eq, Structural)]
pub struct Snapshot {
    pub elapsed_ms: u64,
    pub correct_chars: usize,
    pub gross_chars: usize,
    pub errors: usize,
}

/// Typed word and target word are equal character by character under visual equivalence.
pub open spec fn words_equal(a: Seq<char>, b: Seq<char>) -> bool {
    a.len() == b.len() && forall|i: int| 0 <= i < a.len() ==> visually_equal(#[trigger] a[i], b[i])
}

pub open spec fn layout_width(terminal_width: u16) -> int {
    (terminal_width as int * 80) / 100
}

/// Width of the wrapped lines: the layout width less a two-character caret margin.
pub open spec fn safe_width(terminal_width: u16) -> int {
    if layout_width(terminal_width) >= 2 {
        layout_width(terminal_width) - 2
    } else {
        0
    }
}

pub open spec fn true_count(m: Seq<bool>) -> int
    decreases m.len(),
{
    if m.len() == 0 {
        0
    } else {
        true_count(m.drop_last()) + if m.last() { 1int } else { 0int }
    }
}

/// A freshly seeded stream: numbered from 0, the first word active and the others
/// pending; in word-count mode no more words than asked for, all counted as generated.
pub open spec fn fresh_stream(app: &App) -> bool {
    &&& app.next_word_index == app.word_stream@.len()
    &&& forall|i: int| 0 <= i < app.word_stream@.len() ==> #[trigger] app.word_stream@[i].index == i
        && app.word_stream@[i].state == (if i == 0 { WordState::Active } else { WordState::Pending })
    &&& match app.mode {
        Mode::Words(n) => app.word_stream@.len() <= n && app.generated_count == app.word_stream@.len(),
        _ => app.generated_count == 0,
    }
}

/// A typing session: the target word stream, the typed segments (the raw input split at
/// its spaces; the last one is the word in progress), the buffers derived from both, and
/// the statistics.
pub struct App {
    pub should_quit: bool,
    pub state: AppState,
    pub mode: Mode,
    pub show_ui: bool,
    pub theme: Theme,
    pub use_numbers: bool,
    pub use_punctuation: bool,
    /// The raw input split at its spaces; the last segment is the word being typed.
    pub typed: Vec<Vec<char>>,
    pub cursor_idx: usize,
    /// Clock reading of the first keystroke, in milliseconds.
    pub start_ms: Option<u64>,
    pub gross_char_count: usize,
    pub total_errors_ever: usize,
    /// Word indices already charged their structural error.
    pub processed_word_errors: WordIndexMap<()>,
    pub generated_count: usize,
    pub scrolled_word_count: usize,
    pub furthest_word_idx: usize,
    pub st_correct: usize,
    pub st_incorrect: usize,
    pub st_extra: usize,
    pub st_missed: usize,
    /// Signed accuracy score of the evicted text, never below zero.
    pub acc_score_correct: isize,
    pub acc_score_incorrect: isize,
    pub uncorrected_errors_scrolled: usize,
    pub live_correct_keystrokes: usize,
    pub live_incorrect_keystrokes: usize,
    /// Correct characters of the whole session, set when it ends.
    pub final_correct_chars: usize,
    /// Duration of the session, set when it ends.
    pub final_time_ms: u64,
    pub word_stream: Vec<Word>,
    pub terminal_width: u16,
    pub visual_lines: Vec<Vec<char>>,
    pub display: Vec<char>,
    pub display_mask: Vec<bool>,
    pub extra_char_count: usize,
    /// Shortfall of each word completed early, by word index.
    pub missed_chars: WordIndexMap<usize>,
    pub aligned_input: Vec<Slot>,
    pub next_word_index: usize,
    pub snapshots: Vec<Snapshot>,
    /// The whole second of the last per-second snapshot.
    pub last_snapshot_second: Option<u64>,
    pub prev_incorrect_keystrokes: usize,
    /// Extra characters a word may take beyond its length.
    pub extra_limit: usize,
    /// Pending words below which a new word is generated.
    pub refill_threshold: usize,
    pub quote_data: QuoteData,
    pub quote_pool: Vec<String>,
    pub total_quote_words: usize,
    pub original_quote_length: usize,
    pub current_quote_source: String,
    pub word_data: WordData,
    pub word_generator: WordGenerator,
    pub rng: StdRng,
}

impl App {
    pub open spec fn target(&self) -> Seq<Seq<char>> {
        texts(self.word_stream@)
    }

    pub open spec fn segments(&self) -> Seq<Seq<char>> {
        self.typed@.map_values(|u: Vec<char>| u@)
    }

    /// The buffers are the alignment of the current target and input.
    pub open spec fn in_sync(&self) -> bool {
        &&& self.display@ == display_of(self.target(), self.segments())
        &&& self.display_mask@ == mask_of(self.target(), self.segments())
        &&& self.aligned_input@ == aligned_of(self.target(), self.segments(), self.missed_chars@)
        &&& view_lines(self.visual_lines@) == wrapped(self.display@, safe_width(self.terminal_width))
        &&& self.cursor_idx == self.aligned_input@.len()
        &&& self.extra_char_count == true_count(self.display_mask@)
    }

    /// The session is well formed: there is a segment being typed, and until the session
    /// is finished (when the display is cut to what was typed) the buffers are in sync.
    pub open spec fn wf(&self) -> bool {
        &&& self.typed@.len() >= 1
        &&& self.state != AppState::Finished ==> self.in_sync()
    }

    /// Everything but the derived buffers is as in `o`.
    pub open spec fn same_but_buffers(&self, o: &App) -> bool {
        &&& self.should_quit == o.should_quit
        &&& self.state == o.state
        &&& self.mode == o.mode
        &&& self.show_ui == o.show_ui
        &&& self.typed@ == o.typed@
        &&& self.start_ms == o.start_ms
        &&& self.gross_char_count == o.gross_char_count
        &&& self.total_errors_ever == o.total_errors_ever
        &&& self.processed_word_errors@ == o.processed_word_errors@
        &&& self.generated_count == o.generated_count
        &&& self.scrolled_word_count == o.scrolled_word_count
        &&& self.furthest_word_idx == o.furthest_word_idx
        &&& self.counters_same(o)
        &&& self.live_correct_keystrokes == o.live_correct_keystrokes
        &&& self.live_incorrect_keystrokes == o.live_incorrect_keystrokes
        &&& self.final_correct_chars == o.final_correct_chars
        &&& self.final_time_ms == o.final_time_ms
        &&& self.word_stream@ == o.word_stream@
        &&& self.terminal_width == o.terminal_width
        &&& self.missed_chars@ == o.missed_chars@
        &&& self.next_word_index == o.next_word_index
        &&& self.snapshots@ == o.snapshots@
        &&& self.last_snapshot_second == o.last_snapshot_second
        &&& self.prev_incorrect_keystrokes == o.prev_incorrect_keystrokes
        &&& self.extra_limit == o.extra_limit
        &&& self.refill_threshold == o.refill_threshold
    }

    /// The cumulative counters are as in `o`.
    pub open spec fn counters_same(&self, o: &App) -> bool {
        &&& self.st_correct == o.st_correct
        &&& self.st_incorrect == o.st_incorrect
        &&& self.st_extra == o.st_extra
        &&& self.st_missed == o.st_missed
        &&& self.acc_score_correct == o.acc_score_correct
        &&& self.acc_score_incorrect == o.acc_score_incorrect
        &&& self.uncorrected_errors_scrolled == o.uncorrected_errors_scrolled
    }

    /// No cumulative counter is below its value in `o`.
    pub open spec fn counters_grown(&self, o: &App) -> bool {
        &&& o.st_correct <= self.st_correct
        &&& o.st_incorrect <= self.st_incorrect
        &&& o.st_extra <= self.st_extra
        &&& o.st_missed <= self.st_missed
        &&& o.uncorrected_errors_scrolled <= self.uncorrected_errors_scrolled
    }

    fn recalculate_lines(&mut self)
        ensures
            view_lines(final(self).visual_lines@) == wrapped(
                old(self).display@,
                safe_width(old(self).terminal_width),
            ),
            *final(self) == (App { visual_lines: final(self).visual_lines, ..*old(self) }),
    {
        let layout = (self.terminal_width as usize * 80) / 100;
        let safe = layout.saturating_sub(2);
        self.visual_lines = wrap_into_lines(&self.display, safe);
    }

    /// Re-derives the display buffer, mask, aligned input and lines from the target
    /// words, the typed segments and the missed-character record.
    pub(crate) fn sync_display_text(&mut self)
        ensures
            final(self).in_sync(),
            final(self).same_but_buffers(old(self)),
    {
        let (d, m, a) = build_alignment(&self.word_stream, &self.typed, &self.missed_chars);
        self.display = d;
        self.display_mask = m;
        self.aligned_input = a;
        self.extra_char_count = count_true(&self.display_mask);
        self.cursor_idx = self.aligned_input.len();
        self.recalculate_lines();
    }
}

/// The keystroke-wrap policy: an extra character may not move the cursor to a new line;
/// a normal one may not put it on the fourth visible line or below.
pub open spec fn wrap_blocks(app: &App, c: char, is_extra: bool) -> bool {
    let lw = layout_width(app.terminal_width);
    let width = if is_extra { lw } else { safe_width(app.terminal_width) };
    let cand = wrapped(app.display@.push(c), width);
    let pos = app.aligned_input@.len() as int + 1;
    if is_extra {
        line_index(cand, pos) > line_index(view_lines(app.visual_lines@), app.aligned_input@.len() as int)
    } else {
        line_index(cand, pos) >= 3
    }
}

/// The structural error charged when word `k` is completed with `u`: one point for a
/// mismatch, plus one per character beyond the target length.
pub open spec fn word_penalty(t: Seq<char>, u: Seq<char>) -> int {
    (if words_equal(u, t) { 0int } else { 1int }) + (if u.len() > t.len() { u.len() - t.len() } else { 0int })
}

/// The structural error charged when word `k` is completed: its penalty, unless the
/// word index was already charged.
pub open spec fn charged(processed: Map<usize, ()>, k: usize, t: Seq<char>, u: Seq<char>) -> int {
    if !processed.contains_key(k) && word_penalty(t, u) > 0 {
        word_penalty(t, u)
    } else {
        0
    }
}

pub open spec fn processed_after(processed: Map<usize, ()>, k: usize, t: Seq<char>, u: Seq<char>) -> Map<
    usize,
    (),
> {
    if charged(processed, k, t, u) > 0 {
        processed.insert(k, ())
    } else {
        processed
    }
}

/// The missed-character record after word `k` was completed with `u`: a short word
/// records its shortfall.
pub open spec fn missed_after(missed: Map<usize, usize>, k: usize, t: Seq<char>, u: Seq<char>) -> Map<
    usize,
    usize,
> {
    if u.len() < t.len() {
        missed.insert(k, (t.len() - u.len()) as usize)
    } else {
        missed
    }
}

/// Completing the same word index again charges nothing once it was charged: the
/// structural word error is charged at most once per word, however often its boundary
/// space is pressed.
pub proof fn lemma_word_error_charged_once(
    processed: Map<usize, ()>,
    k: usize,
    t: Seq<char>,
    u: Seq<char>,
    u2: Seq<char>,
)
    ensures
        charged(processed, k, t, u) > 0 ==> charged(processed_after(processed, k, t, u), k, t, u2) == 0,
        charged(processed, k, t, u) + charged(processed_after(processed, k, t, u), k, t, u) == charged(
            processed,
            k,
            t,
            u,
        ),
{
}

pub open spec fn sat_add(a: usize, b: int) -> usize {
    if a + b > usize::MAX { usize::MAX } else { (a + b) as usize }
}

impl App {
    pub fn words_visually_equal(typed: &Vec<char>, target: &Vec<char>) -> (r: bool)
        ensures
            r == words_equal(typed@, target@),
    {
        if typed.len() != target.len() {
            return false;
        }
        let mut i: usize = 0;
        while i < typed.len()
            invariant
                i <= typed@.len() == target@.len(),
                forall|j: int| 0 <= j < i ==> visually_equal(#[trigger] typed@[j], target@[j]),
            decreases typed@.len() - i,
        {
            if !are_characters_visually_equal(typed[i], target[i]) {
                return false;
            }
            i = i + 1;
        }
        true
    }

    /// Whether typing `c` (an extra character or not) would wrap the cursor against the
    /// policy of `wrap_blocks`.
    pub fn will_cause_visual_wrap(&self, c: char, is_extra: bool) -> (r: bool)
        requires
            self.aligned_input@.len() < usize::MAX,
        ensures
            r == wrap_blocks(self, c, is_extra),
    {
        let layout = (self.terminal_width as usize * 80) / 100;
        let width = if is_extra { layout } else { layout.saturating_sub(2) };
        let current = line_idx_for_cursor(&self.visual_lines, self.aligned_input.len());
        let mut cand = self.display.clone();
        cand.push(c);
        let lines = wrap_into_lines(&cand, width);
        let idx = line_idx_for_cursor(&lines, self.aligned_input.len() + 1);
        if is_extra {
            idx > current
        } else {
            idx >= 3
        }
    }

    /// Word-boundary error charging when word `word_idx` is completed with `user_word`:
    /// the structural penalty is charged once per word index; a short word records its
    /// shortfall as missed characters.
    pub fn handle_space_press(&mut self, word_idx: usize, user_word: &Vec<char>)
        requires
            word_idx < old(self).word_stream@.len(),
        ensures
            ({
                let t = old(self).target()[word_idx as int];
                let u = user_word@;
                &&& final(self).total_errors_ever == sat_add(
                    old(self).total_errors_ever,
                    charged(old(self).processed_word_errors@, word_idx, t, u),
                )
                &&& final(self).processed_word_errors@ == processed_after(
                    old(self).processed_word_errors@,
                    word_idx,
                    t,
                    u,
                )
                &&& final(self).missed_chars@ == missed_after(old(self).missed_chars@, word_idx, t, u)
            }),
            *final(self) == (App {
                total_errors_ever: final(self).total_errors_ever,
                processed_word_errors: final(self).processed_word_errors,
                missed_chars: final(self).missed_chars,
                ..*old(self)
            }),
    {
        let target = &self.word_stream[word_idx].text;
        assert(target@ == old(self).target()[word_idx as int]);
        let is_word_error = !Self::words_visually_equal(user_word, target);
        let user_chars = user_word.len();
        let target_chars = target.len();
        let extra_len_penalty = user_chars.saturating_sub(target_chars);
        if !self.processed_word_errors.contains(word_idx) && (is_word_error || extra_len_penalty > 0) {
            let word_pen: usize = if is_word_error { 1 } else { 0 };
            self.total_errors_ever = self.total_errors_ever.saturating_add(word_pen).saturating_add(
                extra_len_penalty,
            );
            self.processed_word_errors.insert(word_idx, ());
        }
        if user_chars < target_chars {
            self.missed_chars.insert(word_idx, target_chars - user_chars);
        }
    }
}

impl App {
    /// The accepted keystroke `c`: scores it, charges a completed word and extends the
    /// typed segments (see `after_key`).
    fn accept_key(&mut self, c: char)
        requires
            old(self).typed@.len() >= 1,
        ensures
            ({
                let o = old(self);
                let idx = (o.typed@.len() - 1) as usize;
                &&& final(self).gross_char_count == sat_add(o.gross_char_count, 1)
                &&& final(self).live_correct_keystrokes == (if key_correct(o, c) {
                    sat_add(o.live_correct_keystrokes, 1)
                } else {
                    o.live_correct_keystrokes
                })
                &&& final(self).live_incorrect_keystrokes == (if key_correct(o, c) {
                    o.live_incorrect_keystrokes
                } else {
                    sat_add(o.live_incorrect_keystrokes, 1)
                })
                &&& final(self).total_errors_ever == (if c == ' ' && idx < o.word_stream@.len() {
                    sat_add(
                        sat_add(o.total_errors_ever, if key_correct(o, c) { 0int } else { 1int }),
                        charged(o.processed_word_errors@, idx, o.target()[idx as int], o.segments().last()),
                    )
                } else {
                    sat_add(o.total_errors_ever, if key_correct(o, c) { 0int } else { 1int })
                })
                &&& final(self).segments() == after_key(o.segments(), c)
                &&& final(self).start_ms == o.start_ms
                &&& final(self).missed_chars@ == missed_after_key(o, c)
                &&& final(self).processed_word_errors@ == processed_after_key(o, c)
                &&& final(self).counters_same(o)
                &&& final(self).state == o.state
                &&& final(self).mode == o.mode
                &&& final(self).terminal_width == o.terminal_width
                &&& final(self).typed@.len() >= 1
            }),
    {
        self.show_ui = false;
        self.gross_char_count = self.gross_char_count.saturating_add(1);
        let correct = self.key_correct_exec(c);
        if correct {
            self.live_correct_keystrokes = self.live_correct_keystrokes.saturating_add(1);
        } else {
            self.live_incorrect_keystrokes = self.live_incorrect_keystrokes.saturating_add(1);
            self.total_errors_ever = self.total_errors_ever.saturating_add(1);
        }
        let idx = self.typed.len() - 1;
        let ghost segs = self.segments();
        if c == ' ' {
            if idx < self.word_stream.len() {
                let cur = self.typed[idx].clone();
                assert(cur@ == segs.last());
                self.handle_space_press(idx, &cur);
            }
            self.typed.push(Vec::new());
            assert(self.segments() =~= after_key(segs, c));
            self.on_word_finished();
        } else {
            let mut last = self.typed.pop().unwrap();
            last.push(c);
            self.typed.push(last);
            assert(self.segments() =~= after_key(segs, c));
        }
    }

    /// Handles one typed character at time `now_ms` (see `key_dropped`, `key_correct` and
    /// `after_key`): starts the clock on the first keystroke, records a due snapshot,
    /// scores the keystroke, charges a completed word, re-derives the buffers, retires the
    /// first line when the cursor reaches the third, and ends a word-count or quote
    /// session once its text is typed.
    pub fn on_key(&mut self, c: char, now_ms: u64)
        requires
            old(self).wf(),
        ensures
            final(self).wf(),
            final(self).counters_grown(old(self)),
            old(self).state == AppState::Finished ==> *final(self) == *old(self),
            old(self).state != AppState::Finished && old(self).aligned_input@.len() < usize::MAX ==> {
                let o = old(self);
                let idx = (o.typed@.len() - 1) as usize;
                &&& final(self).state != AppState::Waiting
                &&& o.state == AppState::Waiting ==> final(self).start_ms == Some(now_ms)
                &&& o.state == AppState::Running ==> final(self).start_ms == o.start_ms
                &&& key_dropped(o, c) ==> {
                    &&& final(self).state == AppState::Running
                    &&& final(self).segments() == o.segments()
                    &&& final(self).word_stream@ == o.word_stream@
                    &&& final(self).missed_chars@ == o.missed_chars@
                    &&& final(self).processed_word_errors@ == o.processed_word_errors@
                    &&& final(self).display@ == o.display@
                    &&& final(self).display_mask@ == o.display_mask@
                    &&& final(self).aligned_input@ == o.aligned_input@
                    &&& final(self).visual_lines@ == o.visual_lines@
                    &&& final(self).gross_char_count == o.gross_char_count
                    &&& final(self).live_correct_keystrokes == o.live_correct_keystrokes
                    &&& final(self).live_incorrect_keystrokes == o.live_incorrect_keystrokes
                    &&& final(self).total_errors_ever == o.total_errors_ever
                }
                &&& !key_dropped(o, c) ==> {
                    &&& final(self).gross_char_count == sat_add(o.gross_char_count, 1)
                    &&& final(self).live_correct_keystrokes == (if key_correct(o, c) {
                        sat_add(o.live_correct_keystrokes, 1)
                    } else {
                        o.live_correct_keystrokes
                    })
                    &&& final(self).live_incorrect_keystrokes == (if key_correct(o, c) {
                        o.live_incorrect_keystrokes
                    } else {
                        sat_add(o.live_incorrect_keystrokes, 1)
                    })
                    &&& final(self).total_errors_ever == (if c == ' ' && idx < o.word_stream@.len() {
                        sat_add(
                            sat_add(o.total_errors_ever, if key_correct(o, c) { 0int } else { 1int }),
                            charged(o.processed_word_errors@, idx, o.target()[idx as int], o.segments().last()),
                        )
                    } else {
                        sat_add(o.total_errors_ever, if key_correct(o, c) { 0int } else { 1int })
                    })
                    &&& exists|w: int, t: usize| 0 <= w && #[trigger] final(self).segments() == after_key(o.segments(), c).skip(w)
                        && final(self).missed_chars@ == rebased(missed_after_key(o, c), t)
                        && final(self).processed_word_errors@ == rebased(processed_after_key(o, c), t)
                }
            },
    {
        if self.state == AppState::Finished {
            return;
        }
        if self.aligned_input.len() == usize::MAX {
            return;
        }
        self.start_if_waiting(now_ms);
        self.record_snapshot_if_needed(now_ms);
        assert(self.in_sync());
        assert(key_dropped(self, c) == key_dropped(old(self), c));
        assert(key_correct(self, c) == key_correct(old(self), c));
        if self.key_dropped_exec(c) {
            return;
        }
        self.accept_key(c);
        let ghost pushed = self.segments();
        assert(pushed == after_key(old(self).segments(), c));
        self.sync_display_text();
        assert(self.state != AppState::Finished);
        let ghost before_scroll = *self;
        self.check_scroll_trigger();
        let ghost fired = match line_containing(
            view_lines(before_scroll.visual_lines@),
            0,
            before_scroll.aligned_input@.len() as int,
        ) {
            Some(i) => i >= 2,
            None => false,
        };
        let ghost w: int = if fired { clip(retired_count(&before_scroll), before_scroll.typed@.len() - 1) } else { 0 };
        let ghost t: usize = if fired { retired_count(&before_scroll) as usize } else { 0 };
        proof {
            if !fired {
                assert(pushed.skip(0) =~= pushed);
                lemma_rebased_zero(before_scroll.missed_chars@);
                lemma_rebased_zero(before_scroll.processed_word_errors@);
            }
            assert(self.segments() == pushed.skip(w));
        }
        self.check_test_completion(now_ms);
        assert(self.segments() == after_key(old(self).segments(), c).skip(w));
        assert(self.missed_chars@ == rebased(missed_after_key(old(self), c), t));
    }

    /// Sets up a fresh session with the words of `mode`; cumulative counters and the
    /// snapshot series are kept, everything else starts over.
    pub fn restart_test(&mut self)
        ensures
            final(self).wf(),
            final(self).state == AppState::Waiting,
            final(self).counters_same(old(self)),
            final(self).snapshots@ == old(self).snapshots@,
            final(self).segments() == seq![Seq::<char>::empty()],
            final(self).gross_char_count == 0,
            final(self).total_errors_ever == 0,
            final(self).live_correct_keystrokes == 0,
            final(self).live_incorrect_keystrokes == 0,
            final(self).missed_chars@ == Map::<usize, usize>::empty(),
            final(self).processed_word_errors@ == Map::<usize, ()>::empty(),
            final(self).start_ms is None,
            final(self).furthest_word_idx == 0,
            final(self).scrolled_word_count == 0,
            fresh_stream(final(self)),
            final(self).mode == old(self).mode,
            final(self).extra_limit == old(self).extra_limit,
            final(self).refill_threshold == old(self).refill_threshold,
            final(self).terminal_width == old(self).terminal_width,
    {
        let mut typed: Vec<Vec<char>> = Vec::new();
        typed.push(Vec::new());
        self.typed = typed;
        self.missed_chars.clear();
        self.start_ms = None;
        self.state = AppState::Waiting;
        self.gross_char_count = 0;
        self.total_errors_ever = 0;
        self.processed_word_errors.clear();
        self.generated_count = 0;
        self.scrolled_word_count = 0;
        self.furthest_word_idx = 0;
        self.live_correct_keystrokes = 0;
        self.live_incorrect_keystrokes = 0;
        self.current_quote_source = String::new();
        self.show_ui = true;
        self.quote_pool = Vec::new();
        self.total_quote_words = 0;
        self.original_quote_length = 0;
        self.next_word_index = 0;
        self.last_snapshot_second = None;
        self.prev_incorrect_keystrokes = 0;
        self.generate_initial_words();
        assert(self.segments() =~= seq![Seq::<char>::empty()]);
    }

    /// Seeds the word stream from the generator for the current mode.
    fn generate_initial_words(&mut self)
        ensures
            final(self).in_sync(),
            final(self).typed@ == old(self).typed@,
            final(self).missed_chars@ == old(self).missed_chars@,
            final(self).processed_word_errors@ == old(self).processed_word_errors@,
            final(self).counters_same(old(self)),
            final(self).snapshots@ == old(self).snapshots@,
            final(self).state == old(self).state,
            final(self).start_ms == old(self).start_ms,
            final(self).gross_char_count == old(self).gross_char_count,
            final(self).total_errors_ever == old(self).total_errors_ever,
            final(self).live_correct_keystrokes == old(self).live_correct_keystrokes,
            final(self).live_incorrect_keystrokes == old(self).live_incorrect_keystrokes,
            final(self).mode == old(self).mode,
            final(self).extra_limit == old(self).extra_limit,
            final(self).refill_threshold == old(self).refill_threshold,
            final(self).terminal_width == old(self).terminal_width,
            final(self).furthest_word_idx == old(self).furthest_word_idx,
            final(self).scrolled_word_count == old(self).scrolled_word_count,
            fresh_stream(final(self)),
    {
        let result = self.word_generator.generate_initial_words(&self.mode, &self.quote_data, &mut self.rng);
        self.word_stream = result.word_stream;
        self.quote_pool = result.quote_pool;
        self.total_quote_words = result.total_quote_words;
        self.current_quote_source = result.current_quote_source;
        self.generated_count = result.generated_count;
        self.next_word_index = result.next_index;
        self.sync_display_text();
        match self.mode {
            Mode::Quote(_) => {
                self.original_quote_length = self.target_char_count();
            },
            _ => {},
        }
    }

    /// Replaces the word stream by `texts` (numbered from 0, the first active) and
    /// re-derives the buffers; the typed input is kept.
    pub fn set_word_stream(&mut self, list: Vec<Vec<char>>)
        requires
            old(self).wf(),
        ensures
            final(self).wf(),
            final(self).target() == view_lines(list@),
            final(self).segments() == old(self).segments(),
            final(self).counters_same(old(self)),
            final(self).state == old(self).state,
    {
        let mut built: Vec<Word> = Vec::new();
        let mut i: usize = 0;
        while i < list.len()
            invariant
                i <= list@.len(),
                built@.len() == i,
                texts(built@) == view_lines(list@.take(i as int)),
            decreases list@.len() - i,
        {
            let t = list[i].clone();
            assert(t@ =~= list@[i as int]@);
            let mut w = Word::new(t, i);
            if i == 0 {
                w.state = WordState::Active;
            }
            assert(w.text@ == list@[i as int]@);
            let ghost before = built@;
            built.push(w);
            assert(built@ == before.push(w));
            assert(list@.take(i + 1) == list@.take(i as int).push(list@[i as int]));
            assert(texts(built@)[i as int] == built@[i as int].text@);
            assert(view_lines(list@.take(i + 1))[i as int] == list@.take(i + 1)[i as int]@);
            assert(texts(built@).len() == view_lines(list@.take(i + 1)).len());
            assert forall|k: int| 0 <= k <= i implies #[trigger] texts(built@)[k] == view_lines(list@.take(i + 1))[k] by {
                if k < i {
                    assert(texts(before)[k] == view_lines(list@.take(i as int))[k]);
                    assert(built@[k] == before[k]);
                }
            }
            assert(texts(built@) =~= view_lines(list@.take(i + 1)));
            i = i + 1;
        }
        assert(list@.take(i as int) == list@);
        self.word_stream = built;
        self.next_word_index = list.len();
        self.sync_display_text();
    }

    /// A new session in `mode` over the given word list and quotes.
    pub fn new(
        mode: Mode,
        word_data: WordData,
        quote_data: QuoteData,
        use_numbers: bool,
        use_punctuation: bool,
        theme: Theme,
        rng: StdRng,
    ) -> (r: App)
        ensures
            r.wf(),
            r.state == AppState::Waiting,
            r.mode == mode,
            r.segments() == seq![Seq::<char>::empty()],
            r.st_correct == 0 && r.st_incorrect == 0 && r.st_extra == 0 && r.st_missed == 0,
            r.snapshots@.len() == 0,
            r.extra_limit == DEFAULT_EXTRA_LIMIT,
            r.refill_threshold == DEFAULT_REFILL_THRESHOLD,
            r.terminal_width == 80,
            r.furthest_word_idx == 0,
            r.start_ms is None,
            fresh_stream(&r),
    {
        let word_generator = WordGenerator::new(word_data.clone(), use_numbers, use_punctuation);
        let mut typed: Vec<Vec<char>> = Vec::new();
        typed.push(Vec::new());
        let mut app = App {
            should_quit: false,
            state: AppState::Waiting,
            mode,
            show_ui: true,
            theme,
            use_numbers,
            use_punctuation,
            typed,
            cursor_idx: 0,
            start_ms: None,
            gross_char_count: 0,
            total_errors_ever: 0,
            processed_word_errors: WordIndexMap::new(),
            generated_count: 0,
            scrolled_word_count: 0,
            furthest_word_idx: 0,
            st_correct: 0,
            st_incorrect: 0,
            st_extra: 0,
            st_missed: 0,
            acc_score_correct: 0,
            acc_score_incorrect: 0,
            uncorrected_errors_scrolled: 0,
            live_correct_keystrokes: 0,
            live_incorrect_keystrokes: 0,
            final_correct_chars: 0,
            final_time_ms: 0,
            word_stream: Vec::new(),
            terminal_width: 80,
            visual_lines: Vec::new(),
            display: Vec::new(),
            display_mask: Vec::new(),
            extra_char_count: 0,
            missed_chars: WordIndexMap::new(),
            aligned_input: Vec::new(),
            next_word_index: 0,
            snapshots: Vec::new(),
            last_snapshot_second: None,
            prev_incorrect_keystrokes: 0,
            extra_limit: DEFAULT_EXTRA_LIMIT,
            refill_threshold: DEFAULT_REFILL_THRESHOLD,
            quote_data,
            quote_pool: Vec::new(),
            total_quote_words: 0,
            original_quote_length: 0,
            current_quote_source: String::new(),
            word_data,
            word_generator,
            rng,
        };
        app.restart_test();
        app
    }

    /// Marks the session for exit.
    pub fn quit(&mut self)
        ensures
            *final(self) == (App { should_quit: true, ..*old(self) }),
    {
        self.should_quit = true;
    }

    /// Re-wraps the display for a new terminal width.
    pub fn resize(&mut self, width: u16, height: u16)
        requires
            old(self).wf(),
        ensures
            final(self).wf(),
            final(self).terminal_width == width,
            final(self).segments() == old(self).segments(),
            final(self).display@ == old(self).display@,
            final(self).counters_same(old(self)),
            final(self).state == old(self).state,
    {
        self.terminal_width = width;
        self.recalculate_lines();
    }

    /// Mouse activity brings the interface back while the session is not finished.
    pub fn on_mouse(&mut self)
        ensures
            old(self).state != AppState::Finished ==> *final(self) == (App { show_ui: true, ..*old(self) }),
            old(self).state == AppState::Finished ==> *final(self) == *old(self),
    {
        if self.state != AppState::Finished {
            self.show_ui = true;
        }
    }
}

fn count_true(m: &Vec<bool>) -> (r: usize)
    ensures
        r == true_count(m@),
{
    let mut n: usize = 0;
    let mut i: usize = 0;
    while i < m.len()
        invariant
            i <= m@.len(),
            n == true_count(m@.take(i as int)),
            n <= i,
        decreases m@.len() - i,
    {
        assert(m@.take(i + 1).drop_last() == m@.take(i as int));
        if m[i] {
            n = n + 1;
        }
        i = i + 1;
    }
    assert(m@.take(i as int) == m@);
    n
}

} // verus!
