//! Retiring the first visual line once the cursor reaches the third.
use vstd::prelude::*;
use crate::align::{Slot, aligned_upto, display_upto, lemma_retire_round_trip, mask_upto, texts};
use crate::layout::{line_containing, line_containing_exec, view_lines};
use crate::models::{AppState, Word};
use crate::scoring::{Totals, score_slice, slice_score};
use crate::word_map::rebased;
use crate::session::{App, sat_add};

verus! {

pub open spec fn space_count(a: Seq<Slot>) -> int
    decreases a.len(),
{
    if a.len() == 0 {
        0
    } else {
        space_count(a.drop_last()) + if a.last() == Slot::Char(' ') { 1int } else { 0int }
    }
}

pub open spec fn clip(n: int, len: int) -> int {
    if n < len { n } else { len }
}

/// Characters that retiring the first visual line removes: the line, and the space that
/// follows it in the display buffer, if one does.
pub open spec fn evict_span(app: &App) -> int {
    let lines = view_lines(app.visual_lines@);
    if lines.len() == 0 {
        0
    } else {
        let v = lines[0].len() as int;
        if v < app.display@.len() && app.display@[v] == ' ' { v + 1 } else { v }
    }
}

pub open spec fn evicted_aligned(app: &App) -> Seq<Slot> {
    app.aligned_input@.take(clip(evict_span(app), app.aligned_input@.len() as int))
}

/// The scoring of the evicted first line.
pub open spec fn evicted_score(app: &App) -> Totals {
    slice_score(
        evicted_aligned(app),
        app.display@.take(clip(evict_span(app), app.display@.len() as int)),
        app.display_mask@.take(clip(evict_span(app), app.display_mask@.len() as int)),
    )
}

/// Words retired by an eviction: the word separators in the evicted aligned input.
pub open spec fn retired_count(app: &App) -> int {
    space_count(evicted_aligned(app))
}

pub open spec fn clamp_acc(acc: isize, d: int) -> isize {
    if acc + d < 0 {
        0
    } else if acc + d > isize::MAX {
        isize::MAX
    } else {
        (acc + d) as isize
    }
}

/// The evicted slice is small enough to be scored with signed machine integers; a
/// buffer of more than `isize::MAX / 2` characters cannot be allocated in the first place.
pub open spec fn evict_scorable(app: &App) -> bool {
    clip(evict_span(app), app.display@.len() as int) <= isize::MAX / 2 && clip(
        evict_span(app),
        app.display_mask@.len() as int,
    ) <= isize::MAX / 2
}

pub open spec fn sat_sub(a: usize, b: int) -> usize {
    if a - b < 0 { 0 } else { (a - b) as usize }
}

/// Words joined by single spaces: the target text of a stream, the raw input of typed
/// segments.
pub open spec fn joined(s: Seq<Seq<char>>) -> Seq<char>
    decreases s.len(),
{
    if s.len() == 0 {
        Seq::empty()
    } else if s.len() == 1 {
        s[0]
    } else {
        joined(s.drop_last()).push(' ') + s.last()
    }
}

/// Dropping the first `w` words of a text drops exactly those words and the space after
/// them: the text is the retired part followed by the rest.
pub proof fn lemma_retired_text(s: Seq<Seq<char>>, w: int)
    requires
        0 < w < s.len(),
    ensures
        joined(s) == joined(s.take(w)).push(' ') + joined(s.skip(w)),
    decreases s.len(),
{
    if s.len() == w + 1 {
        assert(s.drop_last() == s.take(w));
        assert(s.skip(w) =~= seq![s.last()]);
    } else {
        lemma_retired_text(s.drop_last(), w);
        assert(s.drop_last().take(w) == s.take(w));
        assert(s.skip(w).drop_last() =~= s.drop_last().skip(w));
        assert(s.skip(w).last() == s.last());
        assert(joined(s) =~= joined(s.take(w)).push(' ') + joined(s.skip(w)));
    }
}

/// What retiring the first visual line does to a session: the line's scoring is folded
/// into the cumulative counters, the retired words leave the stream and the input, and
/// the word-keyed records are rebased.
pub open spec fn evicted(o: &App, n: &App) -> bool {
    let sc = evicted_score(o);
    let t = retired_count(o);
    let wl = o.word_stream@.len() as int;
    let tl = o.typed@.len() as int;
    &&& evict_scorable(o) ==> {
        &&& n.st_correct == sat_add(o.st_correct, sc.correct)
        &&& n.st_incorrect == sat_add(o.st_incorrect, sc.incorrect)
        &&& n.st_extra == sat_add(o.st_extra, sc.extra)
        &&& n.st_missed == sat_add(o.st_missed, sc.missed)
        &&& n.acc_score_correct == clamp_acc(o.acc_score_correct, sc.acc_correct)
        &&& n.acc_score_incorrect == clamp_acc(o.acc_score_incorrect, sc.acc_incorrect)
        &&& n.uncorrected_errors_scrolled == sat_add(
            sat_add(sat_add(o.uncorrected_errors_scrolled, sc.incorrect), sc.missed),
            sc.extra,
        )
    }
    &&& n.counters_grown(o)
    &&& n.scrolled_word_count == sat_add(o.scrolled_word_count, t)
    &&& n.furthest_word_idx == sat_sub(o.furthest_word_idx, t)
    &&& n.word_stream@ == o.word_stream@.skip(clip(t, wl))
    &&& n.segments() == o.segments().skip(clip(t, tl - 1))
    &&& n.missed_chars@ == rebased(o.missed_chars@, t as usize)
    &&& n.processed_word_errors@ == rebased(o.processed_word_errors@, t as usize)
    &&& 0 <= t
    &&& n.gross_char_count == o.gross_char_count
    &&& n.live_correct_keystrokes == o.live_correct_keystrokes
    &&& n.live_incorrect_keystrokes == o.live_incorrect_keystrokes
    &&& n.total_errors_ever == o.total_errors_ever
    &&& n.state == o.state
    &&& n.mode == o.mode
    &&& n.start_ms == o.start_ms
}

proof fn lemma_texts_skip(s: Seq<Word>, t: int)
    requires
        0 <= t <= s.len(),
    ensures
        texts(s.skip(t)) == texts(s).skip(t),
{
    assert(texts(s.skip(t)) =~= texts(s).skip(t));
}

pub(crate) fn take_prefix<T: Copy>(v: &Vec<T>, n: usize) -> (r: Vec<T>)
    ensures
        r@ == v@.take(clip(n as int, v@.len() as int)),
{
    let end = if n < v.len() { n } else { v.len() };
    let mut out: Vec<T> = Vec::new();
    let mut i: usize = 0;
    while i < end
        invariant
            i <= end <= v@.len(),
            out@ == v@.take(i as int),
        decreases end - i,
    {
        out.push(v[i]);
        assert(v@.take(i + 1) == v@.take(i as int).push(v@[i as int]));
        i = i + 1;
    }
    out
}

fn count_spaces(a: &Vec<Slot>) -> (r: usize)
    ensures
        r == space_count(a@),
{
    let mut n: usize = 0;
    let mut i: usize = 0;
    while i < a.len()
        invariant
            i <= a@.len(),
            n == space_count(a@.take(i as int)),
            n <= i,
        decreases a@.len() - i,
    {
        assert(a@.take(i + 1).drop_last() == a@.take(i as int));
        if a[i] == Slot::Char(' ') {
            n = n + 1;
        }
        i = i + 1;
    }
    assert(a@.take(i as int) == a@);
    n
}

fn clamp_add(acc: isize, d: isize) -> (r: isize)
    ensures
        r == clamp_acc(acc, d as int),
{
    match acc.checked_add(d) {
        Some(v) => if v < 0 {
            0
        } else {
            v
        },
        None => if d > 0 {
            isize::MAX
        } else {
            0
        },
    }
}

impl App {
    /// Retires the first visual line once the cursor has reached the third line.
    pub(crate) fn check_scroll_trigger(&mut self)
        requires
            old(self).wf(),
            old(self).state != AppState::Finished,
        ensures
            final(self).wf(),
            final(self).state == old(self).state,
            (match line_containing(view_lines(old(self).visual_lines@), 0, old(self).aligned_input@.len() as int) {
                Some(i) => i >= 2,
                None => false,
            }) ==> evicted(old(self), final(self)),
            !(match line_containing(view_lines(old(self).visual_lines@), 0, old(self).aligned_input@.len() as int) {
                Some(i) => i >= 2,
                None => false,
            }) ==> *final(self) == *old(self),
    {
        match line_containing_exec(&self.visual_lines, self.aligned_input.len()) {
            Some(i) => {
                if i >= 2 {
                    assert(view_lines(self.visual_lines@).len() > 0);
                    self.delete_first_visual_line();
                }
            },
            None => {},
        }
    }

    /// Retires the first visual line: folds its scoring into the cumulative counters,
    /// drains the retired words from the stream and the input, rebases the word-keyed
    /// records and re-derives the buffers. When no more words are retired than remain
    /// in stream and input, the new buffers are exactly the old ones after the retired
    /// words' chunks. Without visual lines nothing changes.
    pub fn delete_first_visual_line(&mut self)
        requires
            old(self).wf(),
            old(self).state != AppState::Finished,
        ensures
            final(self).wf(),
            final(self).state == old(self).state,
            old(self).visual_lines@.len() == 0 ==> *final(self) == *old(self),
            old(self).visual_lines@.len() > 0 ==> evicted(old(self), final(self)),
            old(self).visual_lines@.len() > 0 ==> {
                let w = clip(retired_count(old(self)), old(self).typed@.len() - 1);
                let v = clip(retired_count(old(self)), old(self).word_stream@.len() as int);
                &&& 0 < w ==> joined(old(self).segments()) == joined(old(self).segments().take(w)).push(' ')
                    + joined(final(self).segments())
                &&& 0 < v < old(self).word_stream@.len() ==> joined(old(self).target()) == joined(
                    old(self).target().take(v),
                ).push(' ') + joined(final(self).target())
            },
            old(self).visual_lines@.len() > 0 && retired_count(old(self)) <= old(self).word_stream@.len() && retired_count(old(self)) < old(
                self,
            ).typed@.len() ==> {
                let t = retired_count(old(self));
                let ws = old(self).target();
                let us = old(self).segments();
                &&& final(self).display@ == old(self).display@.skip(display_upto(ws, us, t).len() as int)
                &&& final(self).display_mask@ == old(self).display_mask@.skip(mask_upto(ws, us, t).len() as int)
                &&& final(self).aligned_input@ == old(self).aligned_input@.skip(
                    aligned_upto(ws, us, old(self).missed_chars@, t).len() as int,
                )
            },
    {
        if self.visual_lines.len() == 0 {
            return;
        }
        let v = self.visual_lines[0].len();
        assert(view_lines(self.visual_lines@)[0] == self.visual_lines@[0]@);
        let span = if v < self.display.len() && self.display[v] == ' ' { v + 1 } else { v };
        let a_chunk = take_prefix(&self.aligned_input, span);
        let d_chunk = take_prefix(&self.display, span);
        let m_chunk = take_prefix(&self.display_mask, span);
        proof {
            assert(a_chunk@ == evicted_aligned(self));
        }
        let half = (isize::MAX / 2) as usize;
        let (acc_cor, acc_inc, raw_cor, raw_inc, raw_ext, raw_mis) = if d_chunk.len() <= half
            && m_chunk.len() <= half {
            score_slice(a_chunk.as_slice(), d_chunk.as_slice(), m_chunk.as_slice())
        } else {
            // buffers of this size cannot be allocated
            (0, 0, 0, 0, 0, 0)
        };
        self.st_correct = self.st_correct.saturating_add(raw_cor);
        self.st_incorrect = self.st_incorrect.saturating_add(raw_inc);
        self.st_extra = self.st_extra.saturating_add(raw_ext);
        self.st_missed = self.st_missed.saturating_add(raw_mis);
        self.acc_score_correct = clamp_add(self.acc_score_correct, acc_cor);
        self.acc_score_incorrect = clamp_add(self.acc_score_incorrect, acc_inc);
        self.uncorrected_errors_scrolled = self.uncorrected_errors_scrolled.saturating_add(
            raw_inc,
        ).saturating_add(raw_mis).saturating_add(raw_ext);
        let tokens = count_spaces(&a_chunk);
        self.scrolled_word_count = self.scrolled_word_count.saturating_add(tokens);
        let drain_words = if tokens < self.word_stream.len() { tokens } else { self.word_stream.len() };
        self.word_stream = self.word_stream.split_off(drain_words);
        self.furthest_word_idx = self.furthest_word_idx.saturating_sub(tokens);
        self.missed_chars.rebase(tokens);
        self.processed_word_errors.rebase(tokens);
        let drain_typed = if tokens < self.typed.len() - 1 { tokens } else { self.typed.len() - 1 };
        let ghost old_segs = self.segments();
        self.typed = self.typed.split_off(drain_typed);
        assert(self.segments() =~= old_segs.skip(drain_typed as int));
        self.sync_display_text();
        proof {
            lemma_texts_skip(old(self).word_stream@, drain_words as int);
            if drain_typed > 0 {
                lemma_retired_text(old(self).segments(), drain_typed as int);
            }
            if 0 < drain_words && drain_words < old(self).word_stream@.len() {
                lemma_retired_text(old(self).target(), drain_words as int);
            }
            if tokens <= old(self).word_stream@.len() && tokens < old(self).typed@.len() {
                lemma_retire_round_trip(old(self).target(), old(self).segments(), old(self).missed_chars@, tokens);
            }
        }
    }
}

} // verus!
