use vstd::prelude::*;
use crate::models::Word;
use crate::word_map::{rebased, WordIndexMap};

verus! {

/// One position of the aligned input: a typed character, or a target character that
/// was never typed because its word was abandoned early.
#[derive(Debug, Clone, Copy, PartialEq, Eq, Structural)]
pub enum Slot {
    Char(char),
    Missing,
}

pub open spec fn word_text(w: Word) -> Seq<char> {
    w.text@
}

pub open spec fn texts(words: Seq<Word>) -> Seq<Seq<char>> {
    Seq::new(words.len(), |i: int| word_text(words[i]))
}

pub open spec fn typed_slot(c: char) -> Slot {
    Slot::Char(c)
}

pub open spec fn typed_slots(u: Seq<char>) -> Seq<Slot> {
    Seq::new(u.len(), |i: int| typed_slot(u[i]))
}

pub open spec fn missing_slots(n: nat) -> Seq<Slot> {
    Seq::new(n, |i: int| Slot::Missing)
}

pub open spec fn flags(n: nat, b: bool) -> Seq<bool> {
    Seq::new(n, |i: int| b)
}

/// The characters typed beyond the length of target word `t`.
pub open spec fn extras(t: Seq<char>, u: Seq<char>) -> Seq<char> {
    if u.len() > t.len() {
        u.subrange(t.len() as int, u.len() as int)
    } else {
        Seq::empty()
    }
}

pub open spec fn missed_count(missed: Map<usize, usize>, k: int) -> nat {
    if 0 <= k <= usize::MAX && missed.contains_key(k as usize) {
        missed[k as usize] as nat
    } else {
        0
    }
}

/// The extra characters of word `k`: those of its typed segment beyond the word's length,
/// none for the last word, which has no boundary space to hold them.
pub open spec fn word_extras(words: Seq<Seq<char>>, typed: Seq<Seq<char>>, k: int) -> Seq<char> {
    if k + 1 < words.len() && k < typed.len() {
        extras(words[k], typed[k])
    } else {
        Seq::empty()
    }
}

/// Display text of word `k`: the word, its extra characters, and its boundary space.
pub open spec fn display_chunk(words: Seq<Seq<char>>, typed: Seq<Seq<char>>, k: int) -> Seq<char> {
    if k + 1 < words.len() {
        words[k] + word_extras(words, typed, k).push(' ')
    } else {
        words[k]
    }
}

pub open spec fn mask_chunk(words: Seq<Seq<char>>, typed: Seq<Seq<char>>, k: int) -> Seq<bool> {
    if k + 1 < words.len() {
        flags(words[k].len(), false) + flags(word_extras(words, typed, k).len(), true).push(false)
    } else {
        flags(words[k].len(), false)
    }
}

/// Aligned input of word `k`: the typed characters that fall on target characters, the
/// extra characters, and, once the word was completed by a space, one `Missing` slot per
/// recorded missed character followed by the space.
pub open spec fn aligned_chunk(
    words: Seq<Seq<char>>,
    typed: Seq<Seq<char>>,
    missed: Map<usize, usize>,
    k: int,
) -> Seq<Slot> {
    if k >= typed.len() {
        Seq::empty()
    } else {
        let t = words[k];
        let u = typed[k];
        let on_target = if u.len() < t.len() { u } else { u.take(t.len() as int) };
        let tail = if k + 1 < words.len() && k + 1 < typed.len() {
            missing_slots(missed_count(missed, k)).push(Slot::Char(' '))
        } else {
            Seq::empty()
        };
        typed_slots(on_target) + typed_slots(word_extras(words, typed, k)) + tail
    }
}

pub open spec fn display_upto(words: Seq<Seq<char>>, typed: Seq<Seq<char>>, n: int) -> Seq<char>
    decreases n,
{
    if n <= 0 {
        Seq::empty()
    } else {
        display_upto(words, typed, n - 1) + display_chunk(words, typed, n - 1)
    }
}

pub open spec fn mask_upto(words: Seq<Seq<char>>, typed: Seq<Seq<char>>, n: int) -> Seq<bool>
    decreases n,
{
    if n <= 0 {
        Seq::empty()
    } else {
        mask_upto(words, typed, n - 1) + mask_chunk(words, typed, n - 1)
    }
}

pub open spec fn aligned_upto(
    words: Seq<Seq<char>>,
    typed: Seq<Seq<char>>,
    missed: Map<usize, usize>,
    n: int,
) -> Seq<Slot>
    decreases n,
{
    if n <= 0 {
        Seq::empty()
    } else {
        aligned_upto(words, typed, missed, n - 1) + aligned_chunk(words, typed, missed, n - 1)
    }
}

/// The display buffer: every target word with its extra characters spliced in before
/// its boundary space.
pub open spec fn display_of(words: Seq<Seq<char>>, typed: Seq<Seq<char>>) -> Seq<char> {
    display_upto(words, typed, words.len() as int)
}

pub open spec fn mask_of(words: Seq<Seq<char>>, typed: Seq<Seq<char>>) -> Seq<bool> {
    mask_upto(words, typed, words.len() as int)
}

pub open spec fn aligned_of(
    words: Seq<Seq<char>>,
    typed: Seq<Seq<char>>,
    missed: Map<usize, usize>,
) -> Seq<Slot> {
    aligned_upto(words, typed, missed, words.len() as int)
}

fn push_chars(out: &mut Vec<char>, src: &Vec<char>, from: usize, to: usize)
    requires
        from <= to <= src@.len(),
    ensures
        final(out)@ == old(out)@ + src@.subrange(from as int, to as int),
{
    let mut i = from;
    while i < to
        invariant
            from <= i <= to <= src@.len(),
            out@ == old(out)@ + src@.subrange(from as int, i as int),
        decreases to - i,
    {
        out.push(src[i]);
        assert(src@.subrange(from as int, i + 1) == src@.subrange(from as int, i as int).push(
            src@[i as int],
        ));
        i = i + 1;
    }
}

fn push_typed(out: &mut Vec<Slot>, src: &Vec<char>, from: usize, to: usize)
    requires
        from <= to <= src@.len(),
    ensures
        final(out)@ == old(out)@ + typed_slots(src@.subrange(from as int, to as int)),
{
    let mut i = from;
    assert(out@ =~= old(out)@ + typed_slots(src@.subrange(from as int, i as int)));
    while i < to
        invariant
            from <= i <= to <= src@.len(),
            out@ == old(out)@ + typed_slots(src@.subrange(from as int, i as int)),
        decreases to - i,
    {
        let ghost prev = out@;
        out.push(Slot::Char(src[i]));
        let ghost a = src@.subrange(from as int, i + 1);
        assert(a == src@.subrange(from as int, i as int).push(src@[i as int]));
        assert(typed_slots(a) =~= typed_slots(src@.subrange(from as int, i as int)).push(
            typed_slot(src@[i as int]),
        ));
        assert(out@ =~= old(out)@ + typed_slots(a));
        i = i + 1;
    }
}

fn push_flags(out: &mut Vec<bool>, n: usize, b: bool)
    ensures
        final(out)@ == old(out)@ + flags(n as nat, b),
{
    let mut i: usize = 0;
    while i < n
        invariant
            i <= n,
            out@ == old(out)@ + flags(i as nat, b),
        decreases n - i,
    {
        out.push(b);
        assert(flags((i + 1) as nat, b) =~= flags(i as nat, b).push(b));
        i = i + 1;
    }
}

fn push_missing(out: &mut Vec<Slot>, n: usize)
    ensures
        final(out)@ == old(out)@ + missing_slots(n as nat),
{
    let mut i: usize = 0;
    while i < n
        invariant
            i <= n,
            out@ == old(out)@ + missing_slots(i as nat),
        decreases n - i,
    {
        out.push(Slot::Missing);
        assert(missing_slots((i + 1) as nat) =~= missing_slots(i as nat).push(Slot::Missing));
        i = i + 1;
    }
}

/// The three chunks of word `k`.
fn word_chunks(words: &Vec<Word>, typed: &Vec<Vec<char>>, missed: &WordIndexMap<usize>, k: usize) -> (r: (
    Vec<char>,
    Vec<bool>,
    Vec<Slot>,
))
    requires
        k < words@.len(),
    ensures
        r.0@ == display_chunk(texts(words@), typed@.map_values(|u: Vec<char>| u@), k as int),
        r.1@ == mask_chunk(texts(words@), typed@.map_values(|u: Vec<char>| u@), k as int),
        r.2@ == aligned_chunk(
            texts(words@),
            typed@.map_values(|u: Vec<char>| u@),
            missed@,
            k as int,
        ),
{
    let ghost ws = texts(words@);
    let ghost us = typed@.map_values(|u: Vec<char>| u@);
    let mut display: Vec<char> = Vec::new();
    let mut mask: Vec<bool> = Vec::new();
    let mut aligned: Vec<Slot> = Vec::new();
    let t = &words[k].text;
    let tl = t.len();
    let last = k == words.len() - 1;
    assert(ws[k as int] == t@);
    push_chars(&mut display, t, 0, tl);
    push_flags(&mut mask, tl, false);
    assert(t@.subrange(0, tl as int) == t@);
    if k < typed.len() {
        let u = &typed[k];
        assert(us[k as int] == u@);
        let ul = u.len();
        let on = if ul < tl { ul } else { tl };
        push_typed(&mut aligned, u, 0, on);
        assert(u@.subrange(0, on as int) == (if u@.len() < t@.len() { u@ } else { u@.take(
            t@.len() as int,
        ) }));
        if !last {
            let ex = if ul > tl { ul - tl } else { 0 };
            push_chars(&mut display, u, on, ul);
            push_flags(&mut mask, ex, true);
            push_typed(&mut aligned, u, on, ul);
            assert(u@.subrange(on as int, ul as int) == word_extras(ws, us, k as int));
            display.push(' ');
            mask.push(false);
            if k + 1 < typed.len() {
                let cnt = match missed.get(k) {
                    Some(c) => c,
                    None => 0,
                };
                assert(cnt == missed_count(missed@, k as int));
                push_missing(&mut aligned, cnt);
                aligned.push(Slot::Char(' '));
            }
        }
    } else {
        if !last {
            display.push(' ');
            mask.push(false);
        }
    }
    assert(display@ =~= display_chunk(ws, us, k as int));
    assert(mask@ =~= mask_chunk(ws, us, k as int));
    assert(aligned@ =~= aligned_chunk(ws, us, missed@, k as int));
    (display, mask, aligned)
}

/// Merges the target words and the typed segments into the display buffer, its extra
/// mask and the aligned input.
pub fn build_alignment(words: &Vec<Word>, typed: &Vec<Vec<char>>, missed: &WordIndexMap<usize>) -> (r: (
    Vec<char>,
    Vec<bool>,
    Vec<Slot>,
))
    ensures
        r.0@ == display_of(texts(words@), typed@.map_values(|u: Vec<char>| u@)),
        r.1@ == mask_of(texts(words@), typed@.map_values(|u: Vec<char>| u@)),
        r.2@ == aligned_of(texts(words@), typed@.map_values(|u: Vec<char>| u@), missed@),
{
    let ghost ws = texts(words@);
    let ghost us = typed@.map_values(|u: Vec<char>| u@);
    let mut display: Vec<char> = Vec::new();
    let mut mask: Vec<bool> = Vec::new();
    let mut aligned: Vec<Slot> = Vec::new();
    let n = words.len();
    let mut k: usize = 0;
    while k < n
        invariant
            n == words@.len(),
            ws == texts(words@),
            us == typed@.map_values(|u: Vec<char>| u@),
            k <= n,
            display@ == display_upto(ws, us, k as int),
            mask@ == mask_upto(ws, us, k as int),
            aligned@ == aligned_upto(ws, us, missed@, k as int),
        decreases n - k,
    {
        let (mut d, mut m, mut a) = word_chunks(words, typed, missed, k);
        display.append(&mut d);
        mask.append(&mut m);
        aligned.append(&mut a);
        k = k + 1;
    }
    (display, mask, aligned)
}

proof fn lemma_chunks_shift(
    words: Seq<Seq<char>>,
    typed: Seq<Seq<char>>,
    missed: Map<usize, usize>,
    t: usize,
    j: int,
)
    requires
        t <= words.len(),
        t <= typed.len(),
        0 <= j < words.len() - t,
    ensures
        display_chunk(words.skip(t as int), typed.skip(t as int), j) == display_chunk(words, typed, j + t),
        mask_chunk(words.skip(t as int), typed.skip(t as int), j) == mask_chunk(words, typed, j + t),
        aligned_chunk(words.skip(t as int), typed.skip(t as int), rebased(missed, t), j)
            == aligned_chunk(words, typed, missed, j + t),
{
    let ws = words.skip(t as int);
    let us = typed.skip(t as int);
    assert(ws[j] == words[j + t]);
    if j < us.len() {
        assert(us[j] == typed[j + t]);
    }
    assert(word_extras(ws, us, j) == word_extras(words, typed, j + t));
    assert(missed_count(rebased(missed, t), j) == missed_count(missed, j + t));
}

proof fn lemma_upto_shift(
    words: Seq<Seq<char>>,
    typed: Seq<Seq<char>>,
    missed: Map<usize, usize>,
    t: usize,
    n: int,
)
    requires
        t <= words.len(),
        t <= typed.len(),
        t <= n <= words.len(),
    ensures
        display_upto(words, typed, n) == display_upto(words, typed, t as int) + display_upto(
            words.skip(t as int),
            typed.skip(t as int),
            n - t,
        ),
        mask_upto(words, typed, n) == mask_upto(words, typed, t as int) + mask_upto(
            words.skip(t as int),
            typed.skip(t as int),
            n - t,
        ),
        aligned_upto(words, typed, missed, n) == aligned_upto(words, typed, missed, t as int)
            + aligned_upto(words.skip(t as int), typed.skip(t as int), rebased(missed, t), n - t),
    decreases n,
{
    if n > t {
        lemma_upto_shift(words, typed, missed, t, n - 1);
        lemma_chunks_shift(words, typed, missed, t, n - 1 - t);
        assert(display_upto(words, typed, n) =~= display_upto(words, typed, t as int) + display_upto(
            words.skip(t as int),
            typed.skip(t as int),
            n - t,
        ));
        assert(mask_upto(words, typed, n) =~= mask_upto(words, typed, t as int) + mask_upto(
            words.skip(t as int),
            typed.skip(t as int),
            n - t,
        ));
        assert(aligned_upto(words, typed, missed, n) =~= aligned_upto(words, typed, missed, t as int)
            + aligned_upto(words.skip(t as int), typed.skip(t as int), rebased(missed, t), n - t));
    } else {
        assert(display_upto(words, typed, n) =~= display_upto(words, typed, t as int) + Seq::empty());
        assert(mask_upto(words, typed, n) =~= mask_upto(words, typed, t as int) + Seq::empty());
        assert(aligned_upto(words, typed, missed, n) =~= aligned_upto(words, typed, missed, t as int)
            + Seq::empty());
    }
}

/// Retiring the first `t` words and typed segments, with the missed-character record
/// rebased by `t`, leaves exactly the buffers that follow the retired words' chunks:
/// eviction never desynchronises the remaining text and input.
pub proof fn lemma_retire_round_trip(
    words: Seq<Seq<char>>,
    typed: Seq<Seq<char>>,
    missed: Map<usize, usize>,
    t: usize,
)
    requires
        t <= words.len(),
        t <= typed.len(),
    ensures
        display_of(words.skip(t as int), typed.skip(t as int)) == display_of(words, typed).skip(
            display_upto(words, typed, t as int).len() as int,
        ),
        mask_of(words.skip(t as int), typed.skip(t as int)) == mask_of(words, typed).skip(
            mask_upto(words, typed, t as int).len() as int,
        ),
        aligned_of(words.skip(t as int), typed.skip(t as int), rebased(missed, t)) == aligned_of(
            words,
            typed,
            missed,
        ).skip(aligned_upto(words, typed, missed, t as int).len() as int),
{
    lemma_upto_shift(words, typed, missed, t, words.len() as int);
    let ws = words.skip(t as int);
    assert(ws.len() == words.len() - t);
    assert(display_of(ws, typed.skip(t as int)) =~= display_of(words, typed).skip(
        display_upto(words, typed, t as int).len() as int,
    ));
    assert(mask_of(ws, typed.skip(t as int)) =~= mask_of(words, typed).skip(
        mask_upto(words, typed, t as int).len() as int,
    ));
    assert(aligned_of(ws, typed.skip(t as int), rebased(missed, t)) =~= aligned_of(
        words,
        typed,
        missed,
    ).skip(aligned_upto(words, typed, missed, t as int).len() as int));
}

/// The missed-character record matches the typed text: every completed word that is
/// followed by another target word records exactly its shortfall.
pub open spec fn missed_consistent(words: Seq<Seq<char>>, typed: Seq<Seq<char>>, missed: Map<usize, usize>) -> bool {
    forall|k: int|
        0 <= k && k + 1 < typed.len() && k + 1 < words.len() ==> #[trigger] missed_count(missed, k) == (if typed[k].len()
            < words[k].len() {
            words[k].len() - typed[k].len()
        } else {
            0
        })
}

proof fn lemma_completed_prefix_lengths(
    words: Seq<Seq<char>>,
    typed: Seq<Seq<char>>,
    missed: Map<usize, usize>,
    n: int,
)
    requires
        missed_consistent(words, typed, missed),
        0 <= n,
        n + 1 <= typed.len(),
        n + 1 <= words.len(),
    ensures
        aligned_upto(words, typed, missed, n).len() == display_upto(words, typed, n).len(),
    decreases n,
{
    if n > 0 {
        lemma_completed_prefix_lengths(words, typed, missed, n - 1);
        let k = n - 1;
        assert(missed_count(missed, k) == (if typed[k].len() < words[k].len() {
            words[k].len() - typed[k].len()
        } else {
            0
        }));
    }
}

/// Whenever the input ends on a word boundary inside the target text, the aligned input
/// is exactly as long as the display buffer of the completed words, so that position `i`
/// of the one always faces position `i` of the other.
pub proof fn lemma_boundary_alignment(words: Seq<Seq<char>>, typed: Seq<Seq<char>>, missed: Map<usize, usize>)
    requires
        missed_consistent(words, typed, missed),
        typed.len() >= 1,
        typed.last().len() == 0,
        typed.len() <= words.len(),
    ensures
        aligned_of(words, typed, missed).len() == display_upto(words, typed, typed.len() - 1).len(),
        aligned_of(words, typed, missed) == aligned_upto(words, typed, missed, typed.len() - 1),
{
    let m = typed.len() - 1;
    lemma_completed_prefix_lengths(words, typed, missed, m);
    assert forall|n: int| m <= n <= words.len() implies aligned_upto(words, typed, missed, n) == aligned_upto(
        words,
        typed,
        missed,
        m,
    ) by {
        lemma_aligned_tail_empty(words, typed, missed, m, n);
    }
}

proof fn lemma_aligned_tail_empty(
    words: Seq<Seq<char>>,
    typed: Seq<Seq<char>>,
    missed: Map<usize, usize>,
    m: int,
    n: int,
)
    requires
        m == typed.len() - 1,
        typed.len() >= 1,
        typed.last().len() == 0,
        m <= n <= words.len(),
    ensures
        aligned_upto(words, typed, missed, n) == aligned_upto(words, typed, missed, m),
    decreases n,
{
    if n > m {
        lemma_aligned_tail_empty(words, typed, missed, m, n - 1);
        assert(aligned_chunk(words, typed, missed, n - 1) =~= Seq::empty());
        assert(aligned_upto(words, typed, missed, n) =~= aligned_upto(words, typed, missed, n - 1));
    }
}

/// Word separators of a display buffer: spaces that are not extra characters.
pub open spec fn separator_count(d: Seq<char>, m: Seq<bool>) -> int
    decreases d.len(),
{
    if d.len() == 0 || m.len() == 0 {
        0
    } else {
        separator_count(d.drop_last(), m.drop_last()) + if !m.last() && d.last() == ' ' { 1int } else { 0int }
    }
}

pub open spec fn no_spaces(w: Seq<char>) -> bool {
    forall|i: int| 0 <= i < w.len() ==> #[trigger] w[i] != ' '
}

proof fn lemma_separator_append(d1: Seq<char>, m1: Seq<bool>, d2: Seq<char>, m2: Seq<bool>)
    requires
        d1.len() == m1.len(),
        d2.len() == m2.len(),
    ensures
        separator_count(d1 + d2, m1 + m2) == separator_count(d1, m1) + separator_count(d2, m2),
    decreases d2.len(),
{
    if d2.len() > 0 {
        lemma_separator_append(d1, m1, d2.drop_last(), m2.drop_last());
        assert((d1 + d2).drop_last() == d1 + d2.drop_last());
        assert((m1 + m2).drop_last() == m1 + m2.drop_last());
    } else {
        assert(d1 + d2 == d1);
        assert(m1 + m2 == m1);
    }
}

proof fn lemma_no_separators(d: Seq<char>, m: Seq<bool>)
    requires
        d.len() == m.len(),
        forall|i: int| 0 <= i < d.len() ==> m[i] || #[trigger] d[i] != ' ',
    ensures
        separator_count(d, m) == 0,
    decreases d.len(),
{
    if d.len() > 0 {
        lemma_no_separators(d.drop_last(), m.drop_last());
    }
}

proof fn lemma_chunk_separators(words: Seq<Seq<char>>, typed: Seq<Seq<char>>, k: int)
    requires
        0 <= k,
        k + 1 < words.len(),
        no_spaces(words[k]),
    ensures
        display_chunk(words, typed, k).len() == mask_chunk(words, typed, k).len(),
        separator_count(display_chunk(words, typed, k), mask_chunk(words, typed, k)) == 1,
{
    let t = words[k];
    let e = word_extras(words, typed, k);
    let d0 = t + e;
    let m0 = flags(t.len(), false) + flags(e.len(), true);
    assert(display_chunk(words, typed, k) == d0.push(' '));
    assert(mask_chunk(words, typed, k) =~= m0.push(false));
    assert forall|i: int| 0 <= i < d0.len() implies m0[i] || #[trigger] d0[i] != ' ' by {
        if i < t.len() {
            assert(d0[i] == t[i]);
        }
    }
    lemma_no_separators(d0, m0);
    assert(d0.push(' ').drop_last() == d0);
    assert(m0.push(false).drop_last() == m0);
}

proof fn lemma_prefix_separators(words: Seq<Seq<char>>, typed: Seq<Seq<char>>, n: int)
    requires
        0 <= n,
        n + 1 <= words.len(),
        forall|k: int| 0 <= k < words.len() ==> no_spaces(#[trigger] words[k]),
    ensures
        display_upto(words, typed, n).len() == mask_upto(words, typed, n).len(),
        separator_count(display_upto(words, typed, n), mask_upto(words, typed, n)) == n,
        n > 0 ==> display_upto(words, typed, n).last() == ' ' && !mask_upto(words, typed, n).last(),
    decreases n,
{
    if n > 0 {
        lemma_prefix_separators(words, typed, n - 1);
        assert(no_spaces(words[n - 1]));
        lemma_chunk_separators(words, typed, n - 1);
        lemma_separator_append(
            display_upto(words, typed, n - 1),
            mask_upto(words, typed, n - 1),
            display_chunk(words, typed, n - 1),
            mask_chunk(words, typed, n - 1),
        );
    }
}

/// At a word boundary inside the target text, the aligned input is exactly as long as the
/// shortest display prefix that holds one word separator per completed word (and ends
/// with one): typed region and display face each other position by position.
pub proof fn lemma_boundary_prefix(words: Seq<Seq<char>>, typed: Seq<Seq<char>>, missed: Map<usize, usize>)
    requires
        missed_consistent(words, typed, missed),
        typed.len() >= 1,
        typed.last().len() == 0,
        typed.len() <= words.len(),
        forall|k: int| 0 <= k < words.len() ==> no_spaces(#[trigger] words[k]),
    ensures
        ({
            let p = aligned_of(words, typed, missed).len() as int;
            let k = typed.len() - 1;
            &&& p <= display_of(words, typed).len()
            &&& separator_count(display_of(words, typed).take(p), mask_of(words, typed).take(p)) == k
            &&& p > 0 ==> display_of(words, typed)[p - 1] == ' ' && !mask_of(words, typed)[p - 1]
        }),
{
    let k = typed.len() - 1;
    lemma_boundary_alignment(words, typed, missed);
    lemma_prefix_separators(words, typed, k);
    lemma_upto_prefix(words, typed, k, words.len() as int);
    let p = display_upto(words, typed, k).len() as int;
    assert(display_of(words, typed).take(p) == display_upto(words, typed, k));
    assert(mask_of(words, typed).take(p) == mask_upto(words, typed, k));
}

proof fn lemma_upto_prefix(words: Seq<Seq<char>>, typed: Seq<Seq<char>>, k: int, n: int)
    requires
        0 <= k <= n,
    ensures
        display_upto(words, typed, n).take(display_upto(words, typed, k).len() as int) == display_upto(
            words,
            typed,
            k,
        ),
        mask_upto(words, typed, n).take(mask_upto(words, typed, k).len() as int) == mask_upto(words, typed, k),
        display_upto(words, typed, k).len() <= display_upto(words, typed, n).len(),
        mask_upto(words, typed, k).len() <= mask_upto(words, typed, n).len(),
    decreases n,
{
    if n > k {
        lemma_upto_prefix(words, typed, k, n - 1);
        assert(display_upto(words, typed, n).take(display_upto(words, typed, k).len() as int)
            =~= display_upto(words, typed, n - 1).take(display_upto(words, typed, k).len() as int));
        assert(mask_upto(words, typed, n).take(mask_upto(words, typed, k).len() as int)
            =~= mask_upto(words, typed, n - 1).take(mask_upto(words, typed, k).len() as int));
    } else {
        assert(display_upto(words, typed, n).take(display_upto(words, typed, k).len() as int) =~= display_upto(words, typed, k));
        assert(mask_upto(words, typed, n).take(mask_upto(words, typed, k).len() as int) =~= mask_upto(words, typed, k));
    }
}

} // verus!
