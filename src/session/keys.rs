//! Keystrokes and backspace: which keystrokes are taken, how they are scored, and
//! how the typed segments change.
use vstd::prelude::*;
use crate::align::texts;
use crate::models::{AppState, Mode, Word, WordState};
use crate::strings::{are_characters_visually_equal, visually_equal};
use crate::session::{missed_after, processed_after, App, words_equal, wrap_blocks};

verus! {

/// The words of `s` with word `i` (if any) set to state `st`.
pub open spec fn with_state(s: Seq<Word>, i: int, st: WordState) -> Seq<Word> {
    if 0 <= i < s.len() {
        s.update(i, Word { state: st, ..s[i] })
    } else {
        s
    }
}

/// The stream after word `f` was finished: it is typed, the next one active.
pub open spec fn finished_marked(s: Seq<Word>, f: int) -> Seq<Word> {
    with_state(with_state(s, f, WordState::Typed), f + 1, WordState::Active)
}

/// Pending words of `s` from position `i` on.
pub open spec fn pending_from(s: Seq<Word>, i: int) -> int
    decreases s.len() - i,
{
    if i < 0 || i >= s.len() {
        0
    } else {
        (if s[i].state == WordState::Pending { 1int } else { 0int }) + pending_from(s, i + 1)
    }
}

/// Backspace at a word boundary may not re-enter a word typed right (under visual
/// equivalence).
pub open spec fn backspace_locked(target: Seq<Seq<char>>, typed: Seq<Seq<char>>) -> bool {
    typed.len() >= 2 && typed.last().len() == 0 && typed.len() - 2 < target.len() && words_equal(
        typed[typed.len() - 2],
        target[typed.len() - 2],
    )
}

/// The typed segments after one backspace: the last character, or the boundary space.
pub open spec fn after_backspace(typed: Seq<Seq<char>>) -> Seq<Seq<char>> {
    if typed.last().len() > 0 {
        typed.update(typed.len() - 1, typed.last().drop_last())
    } else if typed.len() >= 2 {
        typed.drop_last()
    } else {
        typed
    }
}

impl App {
    fn set_word_state(&mut self, i: usize, st: WordState)
        ensures
            final(self).word_stream@ == with_state(old(self).word_stream@, i as int, st),
            *final(self) == (App { word_stream: final(self).word_stream, ..*old(self) }),
            final(self).word_stream@.len() == old(self).word_stream@.len(),
            forall|k: int| 0 <= k < old(self).word_stream@.len() ==> #[trigger] final(self).word_stream@[k].text
                == old(self).word_stream@[k].text,
    {
        if i < self.word_stream.len() {
            self.word_stream[i].state = st;
        }
    }

    /// Removes the last typed character, or the last boundary space, which re-enters the
    /// previous word and clears its missed-character record. A boundary after a word typed
    /// exactly right cannot be crossed back.
    pub fn on_backspace(&mut self)
        requires
            old(self).wf(),
        ensures
            final(self).wf(),
            final(self).counters_same(old(self)),
            old(self).state == AppState::Finished || backspace_locked(old(self).target(), old(self).segments())
                ==> *final(self) == *old(self),
            old(self).state != AppState::Finished && !backspace_locked(old(self).target(), old(self).segments())
                ==> {
                let t = old(self).segments();
                let crossed = t.len() >= 2 && t.last().len() == 0;
                &&& final(self).segments() == after_backspace(t)
                &&& final(self).missed_chars@ == (if crossed {
                    old(self).missed_chars@.remove((t.len() - 2) as usize)
                } else {
                    old(self).missed_chars@
                })
                &&& final(self).word_stream@ == (if crossed {
                    with_state(with_state(old(self).word_stream@, t.len() - 1, WordState::Pending), t.len() - 2, WordState::Active)
                } else {
                    old(self).word_stream@
                })
                &&& final(self).total_errors_ever == old(self).total_errors_ever
                &&& final(self).processed_word_errors@ == old(self).processed_word_errors@
                &&& final(self).gross_char_count == old(self).gross_char_count
                &&& final(self).live_correct_keystrokes == old(self).live_correct_keystrokes
                &&& final(self).live_incorrect_keystrokes == old(self).live_incorrect_keystrokes
                &&& final(self).state == old(self).state
            },
    {
        if self.state == AppState::Finished {
            return;
        }
        let n = self.typed.len();
        let ghost t = self.segments();
        assert(t.len() == n && t.last() == self.typed@[n - 1]@);
        let crossed = n >= 2 && self.typed[n - 1].len() == 0;
        if crossed {
            let last_completed = n - 2;
            if last_completed < self.word_stream.len() {
                assert(t[last_completed as int] == self.typed@[last_completed as int]@);
                assert(self.target()[last_completed as int] == self.word_stream@[last_completed as int].text@);
                if Self::words_visually_equal(&self.typed[last_completed], &self.word_stream[last_completed].text) {
                    return;
                }
            }
            self.set_word_state(last_completed + 1, WordState::Pending);
            self.set_word_state(last_completed, WordState::Active);
            self.typed.pop();
            self.missed_chars.remove(last_completed);
            assert(self.segments() =~= after_backspace(t));
        } else if self.typed[n - 1].len() > 0 {
            let mut last = self.typed.pop().unwrap();
            last.pop();
            self.typed.push(last);
            assert(self.segments() =~= after_backspace(t));
        } else {
            return;
        }
        assert(texts(self.word_stream@) =~= texts(old(self).word_stream@));
        self.sync_display_text();
    }
}


/// The missed-character record after the accepted keystroke `c`: a space that completes
/// a target word records its shortfall.
pub open spec fn missed_after_key(app: &App, c: char) -> Map<usize, usize> {
    let idx = (app.typed@.len() - 1) as usize;
    if c == ' ' && idx < app.word_stream@.len() {
        missed_after(app.missed_chars@, idx, app.target()[idx as int], app.segments().last())
    } else {
        app.missed_chars@
    }
}

/// The charged word indices after the accepted keystroke `c`.
pub open spec fn processed_after_key(app: &App, c: char) -> Map<usize, ()> {
    let idx = (app.typed@.len() - 1) as usize;
    if c == ' ' && idx < app.word_stream@.len() {
        processed_after(app.processed_word_errors@, idx, app.target()[idx as int], app.segments().last())
    } else {
        app.processed_word_errors@
    }
}

/// The typed segments after the keystroke `c`: a space opens a new segment, any other
/// character extends the last one.
pub open spec fn after_key(typed: Seq<Seq<char>>, c: char) -> Seq<Seq<char>> {
    if c == ' ' {
        typed.push(Seq::empty())
    } else {
        typed.update(typed.len() - 1, typed.last().push(c))
    }
}

/// A keystroke is dropped when it is a space on an empty word, when the word already
/// holds its target length plus the extra limit (for anything but a space), or when it
/// would wrap the cursor against the wrap policy. Keystrokes past the last target word
/// are never dropped.
pub open spec fn key_dropped(app: &App, c: char) -> bool {
    let idx = app.typed@.len() - 1;
    let cur = app.segments().last();
    idx < app.word_stream@.len() && {
        let tl = app.target()[idx].len();
        ||| c == ' ' && cur.len() == 0
        ||| c != ' ' && cur.len() >= tl + app.extra_limit
        ||| c != ' ' && wrap_blocks(app, c, cur.len() >= tl)
    }
}

/// The keystroke is correct: a space completes a word equal to its target, any other
/// character is visually equal to the target character it falls on.
pub open spec fn key_correct(app: &App, c: char) -> bool {
    let idx = app.typed@.len() - 1;
    let cur = app.segments().last();
    idx < app.word_stream@.len() && {
        let t = app.target()[idx];
        if c == ' ' {
            words_equal(cur, t)
        } else {
            cur.len() < t.len() && visually_equal(c, t[cur.len() as int])
        }
    }
}

impl App {
    /// Starts the clock on the first keystroke.
    pub(crate) fn start_if_waiting(&mut self, now_ms: u64)
        ensures
            old(self).state == AppState::Waiting ==> *final(self) == (App {
                state: AppState::Running,
                start_ms: Some(now_ms),
                ..*old(self)
            }),
            old(self).state != AppState::Waiting ==> *final(self) == *old(self),
    {
        if self.state == AppState::Waiting {
            self.start_ms = Some(now_ms);
            self.state = AppState::Running;
        }
    }

    pub(crate) fn key_dropped_exec(&self, c: char) -> (r: bool)
        requires
            self.typed@.len() >= 1,
            self.aligned_input@.len() < usize::MAX,
        ensures
            r == key_dropped(self, c),
    {
        let idx = self.typed.len() - 1;
        let cur = &self.typed[idx];
        assert(self.segments().last() == cur@);
        if idx >= self.word_stream.len() {
            return false;
        }
        let tl = self.word_stream[idx].text.len();
        assert(self.target()[idx as int].len() == tl);
        if c == ' ' && cur.len() == 0 {
            return true;
        }
        if c != ' ' && cur.len() >= tl && cur.len() - tl >= self.extra_limit {
            return true;
        }
        if c != ' ' {
            let is_extra = cur.len() >= tl;
            return self.will_cause_visual_wrap(c, is_extra);
        }
        false
    }

    pub(crate) fn key_correct_exec(&self, c: char) -> (r: bool)
        requires
            self.typed@.len() >= 1,
        ensures
            r == key_correct(self, c),
    {
        let idx = self.typed.len() - 1;
        let cur = &self.typed[idx];
        assert(self.segments().last() == cur@);
        if idx >= self.word_stream.len() {
            return false;
        }
        let t = &self.word_stream[idx].text;
        assert(self.target()[idx as int] == t@);
        if c == ' ' {
            Self::words_visually_equal(cur, t)
        } else {
            cur.len() < t.len() && are_characters_visually_equal(c, t[cur.len()])
        }
    }

    /// Marks the finished word typed and the next one active, and asks for a new word
    /// when the furthest word advances and few pending words remain.
    pub(crate) fn on_word_finished(&mut self)
        requires
            old(self).typed@.len() >= 2,
        ensures
            ({
                let f = old(self).typed@.len() - 2;
                let marked = finished_marked(old(self).word_stream@, f);
                let refill = f >= old(self).furthest_word_idx && pending_from(marked, f + 1)
                    < old(self).refill_threshold;
                &&& final(self).furthest_word_idx == (if f >= old(self).furthest_word_idx {
                    (f + 1) as usize
                } else {
                    old(self).furthest_word_idx
                })
                &&& !refill ==> final(self).word_stream@ == marked
                &&& refill ==> final(self).word_stream@.take(marked.len() as int) == marked
                    && final(self).word_stream@.len() <= marked.len() + 2
            }),
            final(self).typed@ == old(self).typed@,
            final(self).missed_chars@ == old(self).missed_chars@,
            final(self).processed_word_errors@ == old(self).processed_word_errors@,
            final(self).counters_same(old(self)),
            final(self).state == old(self).state,
            final(self).mode == old(self).mode,
            final(self).word_stream@.len() >= old(self).word_stream@.len(),
            forall|i: int| 0 <= i < old(self).word_stream@.len() ==> #[trigger] final(self).word_stream@[i].text
                == old(self).word_stream@[i].text,
            final(self).live_correct_keystrokes == old(self).live_correct_keystrokes,
            final(self).live_incorrect_keystrokes == old(self).live_incorrect_keystrokes,
            final(self).gross_char_count == old(self).gross_char_count,
            final(self).total_errors_ever == old(self).total_errors_ever,
            final(self).start_ms == old(self).start_ms,
            final(self).terminal_width == old(self).terminal_width,
            final(self).snapshots@ == old(self).snapshots@,
            final(self).extra_limit == old(self).extra_limit,
    {
        let finished = self.typed.len() - 2;
        self.set_word_state(finished, WordState::Typed);
        self.set_word_state(finished + 1, WordState::Active);
        if finished >= self.furthest_word_idx {
            self.furthest_word_idx = finished + 1;
            let mut pending: usize = 0;
            let mut i = finished + 1;
            let ghost marked = self.word_stream@;
            while i < self.word_stream.len()
                invariant
                    finished + 1 <= i,
                    pending <= i,
                    marked == self.word_stream@,
                    pending + pending_from(marked, i as int) == pending_from(marked, finished + 1),
                decreases self.word_stream@.len() - i,
            {
                if self.word_stream[i].state == WordState::Pending {
                    pending = pending + 1;
                }
                i = i + 1;
            }
            if pending < self.refill_threshold {
                let ghost before = self.word_stream@;
                self.add_one_word();
                assert forall|k: int| 0 <= k < before.len() implies #[trigger] self.word_stream@[k].text
                    == before[k].text by {
                    assert(self.word_stream@.take(before.len() as int)[k] == before[k]);
                }
            }
        }
    }

    /// Appends the generator's next word (or word and dash) to the stream.
    fn add_one_word(&mut self)
        ensures
            final(self).typed@ == old(self).typed@,
            final(self).missed_chars@ == old(self).missed_chars@,
            final(self).processed_word_errors@ == old(self).processed_word_errors@,
            final(self).counters_same(old(self)),
            final(self).state == old(self).state,
            final(self).mode == old(self).mode,
            final(self).word_stream@.len() >= old(self).word_stream@.len(),
            final(self).word_stream@.take(old(self).word_stream@.len() as int) == old(self).word_stream@,
            final(self).word_stream@.len() <= old(self).word_stream@.len() + 2,
            final(self).live_correct_keystrokes == old(self).live_correct_keystrokes,
            final(self).live_incorrect_keystrokes == old(self).live_incorrect_keystrokes,
            final(self).gross_char_count == old(self).gross_char_count,
            final(self).total_errors_ever == old(self).total_errors_ever,
            final(self).start_ms == old(self).start_ms,
            final(self).terminal_width == old(self).terminal_width,
            final(self).snapshots@ == old(self).snapshots@,
            final(self).furthest_word_idx == old(self).furthest_word_idx,
            final(self).extra_limit == old(self).extra_limit,
    {
        if self.next_word_index > usize::MAX - 2 {
            return;
        }
        let added = self.word_generator.add_one_word(
            &self.mode,
            self.word_stream.as_slice(),
            &mut self.quote_pool,
            self.generated_count,
            self.next_word_index,
            &mut self.rng,
        );
        match added {
            Some((new_words, ni)) => {
                let n = new_words.len();
                let mut nw = new_words;
                self.word_stream.append(&mut nw);
                self.next_word_index = ni;
                match self.mode {
                    Mode::Words(_) => {
                        self.generated_count = self.generated_count.saturating_add(n);
                    },
                    _ => {},
                }
            },
            None => {},
        }
    }
}

} // verus!
