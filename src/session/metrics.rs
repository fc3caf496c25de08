//! Live scoring of the text on screen, per-second snapshots and the end of a session.
use vstd::prelude::*;
use crate::align::Slot;
use crate::models::{AppState, Mode};
use crate::scoring::{Totals, score_slice, slice_score};
use crate::strings::{are_characters_visually_equal, visually_equal};
use crate::session::{words_equal, App, Snapshot, sat_add};
use crate::session::eviction::{clip, sat_sub, take_prefix};

verus! {

/// Length of the aligned input up to and including its last word separator.
pub open spec fn completed_len(a: Seq<Slot>) -> int
    decreases a.len(),
{
    if a.len() == 0 {
        0
    } else if a.last() == Slot::Char(' ') {
        a.len() as int
    } else {
        completed_len(a.drop_last())
    }
}

/// Every typed character of the word in progress faces an equal target character.
pub open spec fn prefix_correct(u: Seq<char>, t: Seq<char>) -> bool {
    u.len() <= t.len() && forall|i: int| 0 <= i < u.len() ==> visually_equal(#[trigger] u[i], t[i])
}

/// Prefixes of the three buffers are small enough to score with signed machine integers.
pub open spec fn prefix_scorable(app: &App, n: int) -> bool {
    clip(n, app.display@.len() as int) <= isize::MAX / 2 && clip(n, app.display_mask@.len() as int)
        <= isize::MAX / 2
}

pub open spec fn prefix_score(app: &App, n: int) -> Totals {
    slice_score(
        app.aligned_input@.take(clip(n, app.aligned_input@.len() as int)),
        app.display@.take(clip(n, app.display@.len() as int)),
        app.display_mask@.take(clip(n, app.display_mask@.len() as int)),
    )
}

/// Correct characters of the session on screen: those of the completed words under word
/// scoring, and the word in progress in full when none of its characters is faulty.
pub open spec fn live_correct(app: &App) -> int {
    let a = app.aligned_input@;
    let at_boundary = a.len() == 0 || a.last() == Slot::Char(' ');
    let done = prefix_score(app, completed_len(a)).correct;
    let cur = app.segments().last();
    let idx = app.typed@.len() - 1;
    let current = if !at_boundary && cur.len() > 0 && idx < app.word_stream@.len() && prefix_correct(
        cur,
        app.target()[idx],
    ) {
        cur.len() as int
    } else {
        0
    };
    done + current
}

pub open spec fn elapsed_since(start: Option<u64>, now_ms: u64) -> u64 {
    match start {
        Some(s) => if now_ms >= s { (now_ms - s) as u64 } else { 0 },
        None => 0,
    }
}

impl App {
    fn score_prefix(&self, n: usize) -> (r: (isize, isize, usize, usize, usize, usize))
        ensures
            prefix_scorable(self, n as int) ==> {
                let t = prefix_score(self, n as int);
                &&& t.acc_correct == r.0
                &&& t.acc_incorrect == r.1
                &&& t.correct == r.2
                &&& t.incorrect == r.3
                &&& t.extra == r.4
                &&& t.missed == r.5
            },
    {
        let a = take_prefix(&self.aligned_input, n);
        let d = take_prefix(&self.display, n);
        let m = take_prefix(&self.display_mask, n);
        let half = (isize::MAX / 2) as usize;
        if d.len() <= half && m.len() <= half {
            score_slice(a.as_slice(), d.as_slice(), m.as_slice())
        } else {
            (0, 0, 0, 0, 0, 0)
        }
    }

    /// Word scoring of a slice of aligned input against display text and extra mask.
    pub fn calculate_custom_stats_for_slice(&self, input_chars: &[Slot], display: &[char], mask: &[bool]) -> (r: (
        isize,
        isize,
        usize,
        usize,
        usize,
        usize,
    ))
        requires
            display@.len() + mask@.len() <= isize::MAX,
        ensures
            ({
                let t = slice_score(input_chars@, display@, mask@);
                &&& t.acc_correct == r.0
                &&& t.acc_incorrect == r.1
                &&& t.correct == r.2
                &&& t.incorrect == r.3
                &&& t.extra == r.4
                &&& t.missed == r.5
            }),
    {
        score_slice(input_chars, display, mask)
    }

    fn completed_length(&self) -> (r: usize)
        ensures
            r == completed_len(self.aligned_input@),
    {
        let mut i = self.aligned_input.len();
        assert(self.aligned_input@.take(i as int) == self.aligned_input@);
        while i > 0
            invariant
                i <= self.aligned_input@.len(),
                completed_len(self.aligned_input@) == completed_len(self.aligned_input@.take(i as int)),
            decreases i,
        {
            let ghost p = self.aligned_input@.take(i as int);
            assert(p.drop_last() == self.aligned_input@.take(i - 1));
            if self.aligned_input[i - 1] == Slot::Char(' ') {
                return i;
            }
            i = i - 1;
        }
        0
    }

    fn current_word_correct(&self) -> (r: usize)
        requires
            self.typed@.len() >= 1,
        ensures
            r == ({
                let cur = self.segments().last();
                let idx = self.typed@.len() - 1;
                if cur.len() > 0 && idx < self.word_stream@.len() && prefix_correct(cur, self.target()[idx]) {
                    cur.len() as int
                } else {
                    0
                }
            }),
    {
        let idx = self.typed.len() - 1;
        let cur = &self.typed[idx];
        assert(self.segments().last() == cur@);
        if cur.len() == 0 || idx >= self.word_stream.len() {
            return 0;
        }
        let t = &self.word_stream[idx].text;
        assert(self.target()[idx as int] == t@);
        if cur.len() > t.len() {
            return 0;
        }
        let mut i: usize = 0;
        while i < cur.len()
            invariant
                i <= cur@.len() <= t@.len(),
                cur@.len() > 0,
                idx == self.typed@.len() - 1,
                idx < self.word_stream@.len(),
                cur@ == self.segments().last(),
                t@ == self.target()[idx as int],
                forall|j: int| 0 <= j < i ==> visually_equal(#[trigger] cur@[j], t@[j]),
            decreases cur@.len() - i,
        {
            if !are_characters_visually_equal(cur[i], t[i]) {
                assert(!prefix_correct(cur@, t@));
                return 0;
            }
            i = i + 1;
        }
        assert(prefix_correct(cur@, t@));
        cur.len()
    }

    /// Correct characters still on screen (see `live_correct`), saturating.
    pub fn calculate_live_correct_chars(&self) -> (r: usize)
        requires
            self.typed@.len() >= 1,
        ensures
            prefix_scorable(self, completed_len(self.aligned_input@)) ==> r == sat_add(
                0,
                live_correct(self),
            ),
    {
        let alen = self.aligned_input.len();
        let at_boundary = alen == 0 || self.aligned_input[alen - 1] == Slot::Char(' ');
        let done_len = self.completed_length();
        let (_, _, done, _, _, _) = self.score_prefix(done_len);
        let current = if at_boundary { 0 } else { self.current_word_correct() };
        done.saturating_add(current)
    }

    /// Lifetime character counts: the cumulative counters plus the scoring of everything
    /// still on screen (correct, incorrect, extra, missed), saturating.
    pub fn resolved_char_stats(&self) -> (r: (usize, usize, usize, usize))
        ensures
            prefix_scorable(self, self.display@.len() as int) ==> {
                let t = prefix_score(self, self.display@.len() as int);
                &&& r.0 == sat_add(self.st_correct, t.correct)
                &&& r.1 == sat_add(self.st_incorrect, t.incorrect)
                &&& r.2 == sat_add(self.st_extra, t.extra)
                &&& r.3 == sat_add(self.st_missed, t.missed)
            },
    {
        let (_, _, c, i, e, m) = self.score_prefix(self.display.len());
        (
            self.st_correct.saturating_add(c),
            self.st_incorrect.saturating_add(i),
            self.st_extra.saturating_add(e),
            self.st_missed.saturating_add(m),
        )
    }
}

/// Number of characters of the target text: the words joined by single spaces.
pub open spec fn target_len(t: Seq<Seq<char>>) -> int
    decreases t.len(),
{
    if t.len() == 0 {
        0
    } else if t.len() == 1 {
        t[0].len() as int
    } else {
        target_len(t.drop_last()) + 1 + t.last().len()
    }
}

/// Whether a final snapshot is recorded at `duration_ms`: only when at least 495 ms have
/// passed since the last whole-second snapshot (or since the start when there is none).
pub open spec fn final_snapshot_due(last: Option<u64>, duration_ms: u64) -> bool {
    let base: int = match last {
        Some(s) => s * 1000,
        None => 0,
    };
    duration_ms - base >= 495
}

/// `snap` is the snapshot of `app` at `elapsed_ms`: its correct and gross character
/// counts, and the incorrect keystrokes since `prev_incorrect`.
pub open spec fn snapshot_of(app: &App, prev_incorrect: usize, elapsed_ms: u64, snap: Snapshot) -> bool {
    &&& snap.elapsed_ms == elapsed_ms
    &&& snap.gross_chars == app.gross_char_count
    &&& snap.errors == sat_sub(app.live_incorrect_keystrokes, prev_incorrect as int)
    &&& prefix_scorable(app, completed_len(app.aligned_input@)) ==> snap.correct_chars == sat_add(
        app.st_correct,
        sat_add(0, live_correct(app)) as int,
    )
}

/// The duration of a session ended at `now_ms`: since its first keystroke, one second
/// when it never started.
pub open spec fn session_duration(start: Option<u64>, now_ms: u64) -> u64 {
    match start {
        Some(_) => elapsed_since(start, now_ms),
        None => 1000,
    }
}

/// A word-count or quote session is complete when the typed characters (without extras)
/// cover the target text and the typed word at the last target index is visually equal
/// to the last target word.
pub open spec fn completion_due(app: &App) -> bool {
    let n = app.word_stream@.len() as int;
    let effective = sat_sub(app.aligned_input@.len() as usize, app.extra_char_count as int);
    let goal = if target_len(app.target()) > usize::MAX { usize::MAX as int } else { target_len(app.target()) };
    let last_ok = if n == 0 {
        app.segments()[0].len() == 0
    } else if n - 1 < app.typed@.len() {
        words_equal(app.segments()[n - 1], app.target()[n - 1])
    } else {
        app.target()[n - 1].len() == 0
    };
    !(app.mode is Time) && effective >= goal && last_ok
}

/// What ending the session `o` at `now_ms` yields in `n`.
pub open spec fn ended(o: &App, n: &App, now_ms: u64) -> bool {
    let duration = session_duration(o.start_ms, now_ms);
    let cut = o.mode is Time && o.aligned_input@.len() < o.display@.len();
    let due = final_snapshot_due(o.last_snapshot_second, duration) && duration > 0;
    &&& n.state == AppState::Finished
    &&& n.start_ms == o.start_ms
    &&& n.final_time_ms == duration
    &&& prefix_scorable(n, completed_len(n.aligned_input@)) ==> n.final_correct_chars == sat_add(
        o.st_correct,
        sat_add(0, live_correct(n)) as int,
    )
    &&& n.aligned_input@ == o.aligned_input@
    &&& n.missed_chars@ == o.missed_chars@
    &&& n.processed_word_errors@ == o.processed_word_errors@
    &&& n.display@ == (if cut { o.display@.take(o.aligned_input@.len() as int) } else { o.display@ })
    &&& n.display_mask@ == (if cut {
        o.display_mask@.take(clip(o.aligned_input@.len() as int, o.display_mask@.len() as int))
    } else {
        o.display_mask@
    })
    &&& n.snapshots@.len() == o.snapshots@.len() + (if due { 1int } else { 0int })
    &&& n.snapshots@.take(o.snapshots@.len() as int) == o.snapshots@
    &&& due ==> snapshot_of(n, o.prev_incorrect_keystrokes, duration, n.snapshots@.last())
    &&& n.counters_same(o)
    &&& n.segments() == o.segments()
    &&& n.word_stream@ == o.word_stream@
    &&& n.live_correct_keystrokes == o.live_correct_keystrokes
    &&& n.live_incorrect_keystrokes == o.live_incorrect_keystrokes
    &&& n.gross_char_count == o.gross_char_count
    &&& n.total_errors_ever == o.total_errors_ever
}

impl App {
    /// Records one snapshot at `elapsed_ms` (none at zero): the correct and gross character
    /// counts so far and the incorrect keystrokes since the previous snapshot.
    fn push_snapshot(&mut self, elapsed_ms: u64)
        requires
            old(self).typed@.len() >= 1,
        ensures
            elapsed_ms == 0 ==> *final(self) == *old(self),
            elapsed_ms > 0 ==> {
                &&& final(self).snapshots@.len() == old(self).snapshots@.len() + 1
                &&& final(self).snapshots@.drop_last() == old(self).snapshots@
                &&& snapshot_of(old(self), old(self).prev_incorrect_keystrokes, elapsed_ms, final(self).snapshots@.last())
                &&& *final(self) == (App {
                    snapshots: final(self).snapshots,
                    prev_incorrect_keystrokes: old(self).live_incorrect_keystrokes,
                    ..*old(self)
                })
            },
    {
        if elapsed_ms == 0 {
            return;
        }
        let correct = self.st_correct.saturating_add(self.calculate_live_correct_chars());
        let errors = self.live_incorrect_keystrokes.saturating_sub(self.prev_incorrect_keystrokes);
        self.prev_incorrect_keystrokes = self.live_incorrect_keystrokes;
        let snap = Snapshot {
            elapsed_ms,
            correct_chars: correct,
            gross_chars: self.gross_char_count,
            errors,
        };
        let ghost before = self.snapshots@;
        self.snapshots.push(snap);
        assert(self.snapshots@.drop_last() == before);
    }

    /// On a running session, records a snapshot at each new whole elapsed second.
    pub fn record_snapshot_if_needed(&mut self, now_ms: u64)
        requires
            old(self).typed@.len() >= 1,
        ensures
            ({
                let sec = elapsed_since(old(self).start_ms, now_ms) / 1000;
                let due = old(self).state == AppState::Running && old(self).start_ms is Some && sec >= 1 && (
                match old(self).last_snapshot_second {
                    None => true,
                    Some(l) => sec > l,
                });
                &&& !due ==> *final(self) == *old(self)
                &&& due ==> final(self).last_snapshot_second == Some(sec as u64)
                    && final(self).snapshots@.len() == old(self).snapshots@.len() + 1
                    && final(self).snapshots@.drop_last() == old(self).snapshots@
                    && snapshot_of(
                    old(self),
                    old(self).prev_incorrect_keystrokes,
                    (sec * 1000) as u64,
                    final(self).snapshots@.last(),
                ) && *final(self) == (App {
                    snapshots: final(self).snapshots,
                    prev_incorrect_keystrokes: old(self).live_incorrect_keystrokes,
                    last_snapshot_second: final(self).last_snapshot_second,
                    ..*old(self)
                })
            }),
    {
        if self.state != AppState::Running {
            return;
        }
        match self.start_ms {
            Some(start) => {
                let elapsed = if now_ms >= start { now_ms - start } else { 0 };
                let sec = elapsed / 1000;
                let due = sec >= 1 && match self.last_snapshot_second {
                    None => true,
                    Some(l) => sec > l,
                };
                if due {
                    self.last_snapshot_second = Some(sec);
                    self.push_snapshot(sec * 1000);
                }
            },
            None => {},
        }
    }

    /// Ends the session at `now_ms`. In time-limited mode the display buffer and mask are
    /// cut to the typed length first, so the untyped rest of a word is not missed. Records
    /// the final correct-character count and duration, and a final snapshot when due.
    pub fn end_test(&mut self, now_ms: u64)
        requires
            old(self).wf(),
        ensures
            final(self).wf(),
            ended(old(self), final(self), now_ms),
    {
        self.state = AppState::Finished;
        let duration: u64 = match self.start_ms {
            Some(start) => if now_ms >= start { now_ms - start } else { 0 },
            None => 1000,
        };
        let is_time = match self.mode {
            Mode::Time(_) => true,
            _ => false,
        };
        let typed_len = self.aligned_input.len();
        let ghost mask0 = self.display_mask@;
        if is_time && typed_len < self.display.len() {
            self.display.truncate(typed_len);
            self.display_mask.truncate(typed_len);
            assert(self.display_mask@ =~= mask0.take(clip(typed_len as int, mask0.len() as int)));
        }
        self.final_correct_chars = self.st_correct.saturating_add(self.calculate_live_correct_chars());
        self.final_time_ms = duration;
        self.show_ui = true;
        let base: u64 = match self.last_snapshot_second {
            Some(s) => if s <= u64::MAX / 1000 { s * 1000 } else { u64::MAX },
            None => 0,
        };
        let ghost before = self.snapshots@;
        let ghost cut_state = *self;
        if duration >= base && duration - base >= 495 {
            self.push_snapshot(duration);
        }
        assert(self.snapshots@.take(before.len() as int) =~= before);
        assert(live_correct(self) == live_correct(&cut_state));
    }

    /// In time-limited mode, ends a running session once the limit has passed.
    pub fn check_time(&mut self, now_ms: u64)
        requires
            old(self).wf(),
        ensures
            final(self).wf(),
            ({
                let o = old(self);
                let over = o.state == AppState::Running && o.start_ms is Some && match o.mode {
                    Mode::Time(limit) => elapsed_since(o.start_ms, now_ms) / 1000 >= limit,
                    _ => false,
                };
                &&& over ==> ended(o, final(self), now_ms)
                &&& !over ==> *final(self) == *o
                &&& final(self).counters_same(o)
            }),
    {
        if self.state != AppState::Running {
            return;
        }
        match self.start_ms {
            Some(start) => {
                let elapsed = if now_ms >= start { now_ms - start } else { 0 };
                match self.mode {
                    Mode::Time(limit) => {
                        if elapsed / 1000 >= limit {
                            self.end_test(now_ms);
                        }
                    },
                    _ => {},
                }
            },
            None => {},
        }
    }

    pub(crate) fn target_char_count(&self) -> (r: usize)
        ensures
            r == (if target_len(self.target()) > usize::MAX { usize::MAX as int } else { target_len(self.target()) }),
    {
        let n = self.word_stream.len();
        if n == 0 {
            return 0;
        }
        let mut total: usize = self.word_stream[0].text.len();
        let mut k: usize = 1;
        let ghost ws = self.target();
        assert(ws.take(1).drop_last().len() == 0);
        assert(target_len(ws.take(1)) == ws[0].len());
        while k < n
            invariant
                1 <= k <= n == self.word_stream@.len(),
                ws == self.target(),
                total == (if target_len(ws.take(k as int)) > usize::MAX { usize::MAX as int } else { target_len(ws.take(k as int)) }),
            decreases n - k,
        {
            assert(ws.take(k + 1).drop_last() == ws.take(k as int));
            assert(ws.take(k + 1).last() == self.word_stream@[k as int].text@);
            total = total.saturating_add(1).saturating_add(self.word_stream[k].text.len());
            k = k + 1;
        }
        assert(ws.take(n as int) == ws);
        total
    }

    /// In word-count and quote modes, ends the session once the whole target has been
    /// covered and its last word typed right (see `completion_due`).
    pub(crate) fn check_test_completion(&mut self, now_ms: u64)
        requires
            old(self).wf(),
        ensures
            final(self).wf(),
            completion_due(old(self)) ==> ended(old(self), final(self), now_ms),
            !completion_due(old(self)) ==> *final(self) == *old(self),
            final(self).counters_same(old(self)),
            final(self).state == old(self).state || final(self).state == AppState::Finished,
            final(self).state != AppState::Finished ==> *final(self) == *old(self),
            final(self).segments() == old(self).segments(),
            final(self).gross_char_count == old(self).gross_char_count,
            final(self).live_correct_keystrokes == old(self).live_correct_keystrokes,
            final(self).live_incorrect_keystrokes == old(self).live_incorrect_keystrokes,
            final(self).total_errors_ever == old(self).total_errors_ever,
            final(self).missed_chars@ == old(self).missed_chars@,
            final(self).processed_word_errors@ == old(self).processed_word_errors@,
    {
        match self.mode {
            Mode::Time(_) => {},
            _ => {
                let effective = self.aligned_input.len().saturating_sub(self.extra_char_count);
                if effective < self.target_char_count() {
                    return;
                }
                let n = self.word_stream.len();
                let last_ok = if n == 0 {
                    self.typed[0].len() == 0
                } else if n - 1 < self.typed.len() {
                    Self::words_visually_equal(&self.typed[n - 1], &self.word_stream[n - 1].text)
                } else {
                    self.word_stream[n - 1].text.len() == 0
                };
                if last_ok {
                    self.end_test(now_ms);
                }
            },
        }
    }
}

} // verus!
