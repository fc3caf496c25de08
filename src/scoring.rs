use vstd::prelude::*;
use crate::align::{aligned_chunk, display_chunk, flags, mask_chunk, missed_count, missing_slots, typed_slots, word_extras, Slot};
use crate::strings::{are_characters_visually_equal, visually_equal};

verus! {

/// The six figures that word scoring produces.
pub ghost struct Totals {
    pub acc_correct: int,
    pub acc_incorrect: int,
    pub correct: int,
    pub incorrect: int,
    pub extra: int,
    pub missed: int,
}

pub open spec fn totals(
    acc_correct: int,
    acc_incorrect: int,
    correct: int,
    incorrect: int,
    extra: int,
    missed: int,
) -> Totals {
    Totals { acc_correct, acc_incorrect, correct, incorrect, extra, missed }
}

pub open spec fn zero() -> Totals {
    totals(0, 0, 0, 0, 0, 0)
}

impl Totals {
    pub open spec fn plus(self, y: Totals) -> Totals {
        totals(
            self.acc_correct + y.acc_correct,
            self.acc_incorrect + y.acc_incorrect,
            self.correct + y.correct,
            self.incorrect + y.incorrect,
            self.extra + y.extra,
            self.missed + y.missed,
        )
    }
}

/// The slot at `k`; positions past the end of the aligned input count as missing.
pub open spec fn slot_at(a: Seq<Slot>, k: int) -> Slot {
    if 0 <= k < a.len() {
        a[k]
    } else {
        Slot::Missing
    }
}

pub open spec fn extra_at(m: Seq<bool>, k: int) -> bool {
    0 <= k < m.len() && m[k]
}

/// A word separator: a space of the display buffer that is not an extra character.
pub open spec fn separator_at(d: Seq<char>, m: Seq<bool>, k: int) -> bool {
    !extra_at(m, k) && d[k] == ' '
}

/// The end of the word that starts at `i`: the first separator at or after `i`.
pub open spec fn word_end(d: Seq<char>, m: Seq<bool>, i: int) -> int
    decreases d.len() - i,
{
    if i >= d.len() {
        d.len() as int
    } else if separator_at(d, m, i) {
        i
    } else {
        word_end(d, m, i + 1)
    }
}

pub open spec fn slot_matches(s: Slot, c: char) -> bool {
    match s {
        Slot::Char(x) => visually_equal(x, c),
        Slot::Missing => false,
    }
}

/// A position taints its word when it is extra, missing, or visually unequal.
pub open spec fn position_fault(a: Seq<Slot>, d: Seq<char>, m: Seq<bool>, k: int) -> bool {
    extra_at(m, k) || !slot_matches(slot_at(a, k), d[k])
}

pub open spec fn range_fault(a: Seq<Slot>, d: Seq<char>, m: Seq<bool>, i: int, e: int) -> bool
    decreases e - i,
{
    if e <= i {
        false
    } else {
        range_fault(a, d, m, i, e - 1) || position_fault(a, d, m, e - 1)
    }
}

/// What one position of a word adds, given whether its word is faulty.
pub open spec fn position_totals(a: Seq<Slot>, d: Seq<char>, m: Seq<bool>, k: int, fault: bool) -> Totals {
    if extra_at(m, k) {
        totals(0, 1, 0, 0, 1, 0)
    } else {
        match slot_at(a, k) {
            Slot::Missing => totals(-1, 0, 0, 0, 0, 1),
            Slot::Char(x) => if !visually_equal(x, d[k]) {
                totals(-1, 1, 0, 1, 0, 0)
            } else if !fault {
                totals(0, 0, 1, 0, 0, 0)
            } else {
                zero()
            },
        }
    }
}

pub open spec fn range_totals(
    a: Seq<Slot>,
    d: Seq<char>,
    m: Seq<bool>,
    i: int,
    e: int,
    fault: bool,
) -> Totals
    decreases e - i,
{
    if e <= i {
        zero()
    } else {
        range_totals(a, d, m, i, e - 1, fault).plus(position_totals(a, d, m, e - 1, fault))
    }
}

/// What a word's boundary space adds.
pub open spec fn space_totals(fault: bool) -> Totals {
    if fault {
        totals(-1, 1, 0, 0, 0, 0)
    } else {
        totals(0, 0, 1, 0, 0, 0)
    }
}

pub proof fn lemma_word_end_bounds(d: Seq<char>, m: Seq<bool>, i: int)
    requires
        0 <= i <= d.len(),
    ensures
        i <= word_end(d, m, i) <= d.len(),
        word_end(d, m, i) < d.len() ==> separator_at(d, m, word_end(d, m, i)),
        forall|k: int| i <= k < word_end(d, m, i) ==> !separator_at(d, m, k),
    decreases d.len() - i,
{
    if i < d.len() && !separator_at(d, m, i) {
        lemma_word_end_bounds(d, m, i + 1);
    }
}

/// The scoring of the words from position `i` on.
pub open spec fn score_from(a: Seq<Slot>, d: Seq<char>, m: Seq<bool>, i: int) -> Totals
    decreases d.len() - i,
    via score_from_decreases
{
    if i < 0 || i >= d.len() {
        zero()
    } else {
        let e = word_end(d, m, i);
        let f = range_fault(a, d, m, i, e);
        let w = range_totals(a, d, m, i, e, f);
        if e < d.len() {
            w.plus(space_totals(f)).plus(score_from(a, d, m, e + 1))
        } else {
            w
        }
    }
}

#[via_fn]
proof fn score_from_decreases(a: Seq<Slot>, d: Seq<char>, m: Seq<bool>, i: int) {
    if 0 <= i < d.len() {
        lemma_word_end_bounds(d, m, i);
    }
}

pub open spec fn non_extra_count(m: Seq<bool>) -> int
    decreases m.len(),
{
    if m.len() == 0 {
        0
    } else {
        non_extra_count(m.drop_last()) + if m.last() { 0int } else { 1int }
    }
}

/// Word scoring of a slice: the signed accuracy score starts from the number of
/// non-extra positions; the rest is the word-by-word classification.
pub open spec fn slice_score(a: Seq<Slot>, d: Seq<char>, m: Seq<bool>) -> Totals {
    totals(non_extra_count(m), 0, 0, 0, 0, 0).plus(score_from(a, d, m, 0))
}

fn count_non_extra(mask: &[bool]) -> (r: usize)
    ensures
        r == non_extra_count(mask@),
        r <= mask@.len(),
{
    let mut n: usize = 0;
    let mut i: usize = 0;
    while i < mask.len()
        invariant
            i <= mask@.len(),
            n == non_extra_count(mask@.take(i as int)),
            n <= i,
        decreases mask@.len() - i,
    {
        assert(mask@.take(i + 1).drop_last() == mask@.take(i as int));
        if !mask[i] {
            n = n + 1;
        }
        i = i + 1;
    }
    assert(mask@.take(i as int) == mask@);
    n
}

fn is_extra(mask: &[bool], k: usize) -> (r: bool)
    ensures
        r == extra_at(mask@, k as int),
{
    k < mask.len() && mask[k]
}

fn slot_at_exec(input: &[Slot], k: usize) -> (r: Slot)
    ensures
        r == slot_at(input@, k as int),
{
    if k < input.len() {
        input[k]
    } else {
        Slot::Missing
    }
}

fn matches_at(input: &[Slot], display: &[char], k: usize) -> (r: bool)
    requires
        k < display@.len(),
    ensures
        r == slot_matches(slot_at(input@, k as int), display@[k as int]),
{
    match slot_at_exec(input, k) {
        Slot::Char(x) => are_characters_visually_equal(x, display[k]),
        Slot::Missing => false,
    }
}

/// Per-position figures of the word `[i, e)` as counts: (signed correct delta,
/// signed incorrect, correct, incorrect, extra, missed).
fn score_word(input: &[Slot], display: &[char], mask: &[bool], i: usize, e: usize, fault: bool) -> (r: (
    isize,
    usize,
    usize,
    usize,
    usize,
    usize,
))
    requires
        i <= e <= display@.len(),
        display@.len() <= isize::MAX,
    ensures
        ({
            let t = range_totals(input@, display@, mask@, i as int, e as int, fault);
            &&& t.acc_correct == r.0
            &&& t.acc_incorrect == r.1
            &&& t.correct == r.2
            &&& t.incorrect == r.3
            &&& t.extra == r.4
            &&& t.missed == r.5
        }),
        -(e - i) <= r.0 <= 0,
        r.1 <= e - i,
        r.2 + r.3 + r.4 + r.5 <= e - i,
{
    let mut dc: isize = 0;
    let mut ai: usize = 0;
    let mut cor: usize = 0;
    let mut inc: usize = 0;
    let mut ext: usize = 0;
    let mut mis: usize = 0;
    let mut k = i;
    while k < e
        invariant
            i <= k <= e <= display@.len(),
            display@.len() <= isize::MAX,
            ({
                let t = range_totals(input@, display@, mask@, i as int, k as int, fault);
                &&& t.acc_correct == dc
                &&& t.acc_incorrect == ai
                &&& t.correct == cor
                &&& t.incorrect == inc
                &&& t.extra == ext
                &&& t.missed == mis
            }),
            -(k - i) <= dc <= 0,
            ai <= k - i,
            cor + inc + ext + mis <= k - i,
        decreases e - k,
    {
        if is_extra(mask, k) {
            ai = ai + 1;
            ext = ext + 1;
        } else {
            match slot_at_exec(input, k) {
                Slot::Missing => {
                    dc = dc - 1;
                    mis = mis + 1;
                },
                Slot::Char(x) => {
                    if !are_characters_visually_equal(x, display[k]) {
                        dc = dc - 1;
                        ai = ai + 1;
                        inc = inc + 1;
                    } else if !fault {
                        cor = cor + 1;
                    }
                },
            }
        }
        k = k + 1;
    }
    (dc, ai, cor, inc, ext, mis)
}

/// Scores a slice word by word: (signed accuracy correct, signed accuracy incorrect,
/// correct, incorrect, extra, missed).
pub fn score_slice(input: &[Slot], display: &[char], mask: &[bool]) -> (r: (
    isize,
    isize,
    usize,
    usize,
    usize,
    usize,
))
    requires
        display@.len() + mask@.len() <= isize::MAX,
    ensures
        ({
            let t = slice_score(input@, display@, mask@);
            &&& t.acc_correct == r.0
            &&& t.acc_incorrect == r.1
            &&& t.correct == r.2
            &&& t.incorrect == r.3
            &&& t.extra == r.4
            &&& t.missed == r.5
        }),
{
    let ghost a = input@;
    let ghost d = display@;
    let ghost m = mask@;
    let ne = count_non_extra(mask);
    proof {
        assert(mask@.take(mask@.len() as int) == mask@);
    }
    let len = display.len();
    let mut dc: isize = 0;
    let mut ai: usize = 0;
    let mut cor: usize = 0;
    let mut inc: usize = 0;
    let mut ext: usize = 0;
    let mut mis: usize = 0;
    let mut i: usize = 0;
    while i < len
        invariant
            len == d.len(),
            a == input@,
            d == display@,
            m == mask@,
            d.len() + m.len() <= isize::MAX,
            i <= len,
            totals(dc as int, ai as int, cor as int, inc as int, ext as int, mis as int).plus(
                score_from(a, d, m, i as int),
            ) == score_from(a, d, m, 0),
            -(i as int) <= dc <= 0,
            ai <= i,
            cor + inc + ext + mis <= i,
        decreases len - i,
    {
        let ghost start = i as int;
        let mut e = i;
        while e < len && (is_extra(mask, e) || display[e] != ' ')
            invariant
                i <= e <= len,
                len == d.len(),
                d == display@,
                m == mask@,
                word_end(d, m, i as int) == word_end(d, m, e as int),
            decreases len - e,
        {
            e = e + 1;
        }
        proof {
            lemma_word_end_bounds(d, m, i as int);
        }
        let mut fault = false;
        let mut k = i;
        while k < e
            invariant
                i <= k <= e <= len,
                len == d.len(),
                a == input@,
                d == display@,
                m == mask@,
                fault == range_fault(a, d, m, i as int, k as int),
            decreases e - k,
        {
            if is_extra(mask, k) || !matches_at(input, display, k) {
                fault = true;
            }
            k = k + 1;
        }
        let (wdc, wai, wcor, winc, wext, wmis) = score_word(input, display, mask, i, e, fault);
        dc = dc + wdc;
        ai = ai + wai;
        cor = cor + wcor;
        inc = inc + winc;
        ext = ext + wext;
        mis = mis + wmis;
        if e < len {
            if fault {
                dc = dc - 1;
                ai = ai + 1;
            } else {
                cor = cor + 1;
            }
            i = e + 1;
        } else {
            i = e;
        }
    }
    assert(score_from(a, d, m, i as int) == zero());
    (ne as isize + dc, ai as isize, cor, inc, ext, mis)
}

proof fn lemma_word_end_at(d: Seq<char>, m: Seq<bool>, n: int, i: int)
    requires
        0 <= i <= n < d.len(),
        separator_at(d, m, n),
        forall|p: int| 0 <= p < n ==> !#[trigger] separator_at(d, m, p),
    ensures
        word_end(d, m, i) == n,
    decreases n - i,
{
    if i < n {
        lemma_word_end_at(d, m, n, i + 1);
    }
}

proof fn lemma_no_fault(a: Seq<Slot>, d: Seq<char>, m: Seq<bool>, j: int)
    requires
        0 <= j,
        forall|p: int| 0 <= p < j ==> !#[trigger] position_fault(a, d, m, p),
    ensures
        !range_fault(a, d, m, 0, j),
    decreases j,
{
    if j > 0 {
        lemma_no_fault(a, d, m, j - 1);
    }
}

proof fn lemma_fault_at(a: Seq<Slot>, d: Seq<char>, m: Seq<bool>, q: int, j: int)
    requires
        0 <= q < j,
        position_fault(a, d, m, q),
    ensures
        range_fault(a, d, m, 0, j),
    decreases j,
{
    if j - 1 > q {
        lemma_fault_at(a, d, m, q, j - 1);
    }
}

proof fn lemma_matching_totals(a: Seq<Slot>, d: Seq<char>, m: Seq<bool>, j: int, fault: bool)
    requires
        0 <= j,
        forall|p: int| 0 <= p < j ==> !#[trigger] position_fault(a, d, m, p),
    ensures
        range_totals(a, d, m, 0, j, fault) == totals(0, 0, if fault { 0 } else { j }, 0, 0, 0),
    decreases j,
{
    if j > 0 {
        lemma_matching_totals(a, d, m, j - 1, fault);
        assert(!position_fault(a, d, m, j - 1));
    }
}

proof fn lemma_non_extra_all(n: nat)
    ensures
        non_extra_count(flags(n, false)) == n,
    decreases n,
{
    if n > 0 {
        lemma_non_extra_all((n - 1) as nat);
        assert(flags(n, false).drop_last() =~= flags((n - 1) as nat, false));
    }
}

/// A word typed exactly (under visual equivalence) and completed by its space scores
/// fully correct: every character and the space count as correct, nothing as extra,
/// missed or incorrect.
pub proof fn lemma_exact_word_scores_correct(
    words: Seq<Seq<char>>,
    typed: Seq<Seq<char>>,
    missed: Map<usize, usize>,
    k: int,
)
    requires
        0 <= k,
        k + 1 < typed.len(),
        k + 1 < words.len(),
        typed[k].len() == words[k].len(),
        forall|i: int| 0 <= i < words[k].len() ==> visually_equal(#[trigger] typed[k][i], words[k][i]),
        forall|i: int| 0 <= i < words[k].len() ==> #[trigger] words[k][i] != ' ',
        missed_count(missed, k) == 0,
    ensures
        slice_score(
            aligned_chunk(words, typed, missed, k),
            display_chunk(words, typed, k),
            mask_chunk(words, typed, k),
        ) == totals(words[k].len() as int + 1, 0, words[k].len() as int + 1, 0, 0, 0),
{
    let t = words[k];
    let u = typed[k];
    let n = t.len() as int;
    let a = aligned_chunk(words, typed, missed, k);
    let d = display_chunk(words, typed, k);
    let m = mask_chunk(words, typed, k);
    assert(word_extras(words, typed, k) =~= Seq::<char>::empty());
    assert(u.take(n) =~= u);
    assert(missing_slots(0) =~= Seq::<Slot>::empty());
    assert(a =~= typed_slots(u).push(Slot::Char(' ')));
    assert(d =~= t.push(' '));
    assert(m =~= flags((n + 1) as nat, false));
    assert forall|p: int| 0 <= p < n implies !#[trigger] separator_at(d, m, p) by {
        assert(d[p] == t[p]);
    }
    lemma_word_end_at(d, m, n, 0);
    assert forall|p: int| 0 <= p < n implies !#[trigger] position_fault(a, d, m, p) by {
        assert(a[p] == Slot::Char(u[p]));
        assert(d[p] == t[p]);
    }
    lemma_no_fault(a, d, m, n);
    lemma_matching_totals(a, d, m, n, false);
    lemma_non_extra_all((n + 1) as nat);
    assert(score_from(a, d, m, n + 1) == zero());
}

/// A word completed one character short, with its one missed character recorded,
/// yields exactly one missed classification and nothing extra or incorrect.
pub proof fn lemma_one_short_word_scores_one_missed(
    words: Seq<Seq<char>>,
    typed: Seq<Seq<char>>,
    missed: Map<usize, usize>,
    k: int,
)
    requires
        0 <= k,
        k + 1 < typed.len(),
        k + 1 < words.len(),
        typed[k].len() + 1 == words[k].len(),
        forall|i: int| 0 <= i < typed[k].len() ==> visually_equal(#[trigger] typed[k][i], words[k][i]),
        forall|i: int| 0 <= i < words[k].len() ==> #[trigger] words[k][i] != ' ',
        missed_count(missed, k) == 1,
    ensures
        ({
            let s = slice_score(
                aligned_chunk(words, typed, missed, k),
                display_chunk(words, typed, k),
                mask_chunk(words, typed, k),
            );
            s.missed == 1 && s.extra == 0 && s.incorrect == 0 && s.correct == 0
        }),
{
    let t = words[k];
    let u = typed[k];
    let n = t.len() as int;
    let a = aligned_chunk(words, typed, missed, k);
    let d = display_chunk(words, typed, k);
    let m = mask_chunk(words, typed, k);
    assert(word_extras(words, typed, k) =~= Seq::<char>::empty());
    assert(a =~= typed_slots(u).push(Slot::Missing).push(Slot::Char(' ')));
    assert(d =~= t.push(' '));
    assert(m =~= flags((n + 1) as nat, false));
    assert forall|p: int| 0 <= p < n implies !#[trigger] separator_at(d, m, p) by {
        assert(d[p] == t[p]);
    }
    lemma_word_end_at(d, m, n, 0);
    assert forall|p: int| 0 <= p < n - 1 implies !#[trigger] position_fault(a, d, m, p) by {
        assert(a[p] == Slot::Char(u[p]));
        assert(d[p] == t[p]);
    }
    assert(a[n - 1] == Slot::Missing);
    lemma_fault_at(a, d, m, n - 1, n);
    lemma_matching_totals(a, d, m, n - 1, true);
    assert(score_from(a, d, m, n + 1) == zero());
}

} // verus!
