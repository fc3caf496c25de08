use vstd::prelude::*;
use crate::strings::{capitalize_word, capitalized, is_sentence_end, sentence_end};
use crate::text::{chars_of, string_of};

verus! {

/// With punctuation on, capitalises the first new word when the existing stream ends a
/// sentence.
pub fn apply_contextual_capitalization(new_words: &mut Vec<String>, existing_stream: &[String], use_punctuation: bool)
    ensures
        ({
            let o = old(new_words)@;
            let e = existing_stream@;
            if use_punctuation && o.len() > 0 && e.len() > 0 && sentence_end(e.last()@) {
                final(new_words)@.len() == o.len() && final(new_words)@[0]@ == capitalized(o[0]@)
                    && forall|i: int| 1 <= i < o.len() ==> #[trigger] final(new_words)@[i] == o[i]
            } else {
                final(new_words)@ == o
            }
        }),
{
    if !use_punctuation || new_words.len() == 0 || existing_stream.len() == 0 {
        return;
    }
    if is_sentence_end(existing_stream[existing_stream.len() - 1].as_str()) {
        let mut first = new_words[0].clone();
        capitalize_word(&mut first);
        new_words.set(0, first);
    }
}

pub open spec fn string_view(w: String) -> Seq<char> {
    w@
}

pub open spec fn word_views(s: Seq<String>) -> Seq<Seq<char>> {
    Seq::new(s.len(), |i: int| string_view(s[i]))
}

pub open spec fn em_dash(w: Seq<char>) -> bool {
    w == seq!['\u{2014}']
}

/// A word after which an em dash is dropped: another em dash, or a word ending with a
/// sentence terminator, a comma, a semicolon, a colon or an opening parenthesis.
pub open spec fn bad_predecessor(w: Seq<char>) -> bool {
    em_dash(w) || (w.len() > 0 && (w.last() == '.' || w.last() == '!' || w.last() == '?' || w.last() == ','
        || w.last() == ';' || w.last() == ':' || w.last() == '('))
}

pub open spec fn first_capitalized(v: Seq<Seq<char>>) -> Seq<Seq<char>> {
    if v.len() == 0 { v } else { v.update(0, capitalized(v[0])) }
}

/// The stream after the first `i` steps of capitalising each word that follows a
/// sentence end, in order.
pub open spec fn caps_after(v: Seq<Seq<char>>, i: int) -> Seq<Seq<char>>
    decreases i,
{
    if i <= 0 {
        v
    } else {
        let c = caps_after(v, i - 1);
        if i < c.len() && sentence_end(c[i - 1]) { c.update(i, capitalized(c[i])) } else { c }
    }
}

/// The stream with every em dash from position `i` on dropped where it follows a bad
/// predecessor, scanning left to right.
pub open spec fn dashes_dropped(v: Seq<Seq<char>>, i: int) -> Seq<Seq<char>>
    decreases v.len() - i,
{
    if i < 1 || i >= v.len() {
        v
    } else if em_dash(v[i]) && bad_predecessor(v[i - 1]) {
        dashes_dropped(v.remove(i), i)
    } else {
        dashes_dropped(v, i + 1)
    }
}

/// The last word made a proper ending: a lone dash is blanked, a trailing `,`, `;` or
/// `:` is stripped, and a period is added when no terminator ends it.
pub open spec fn last_fixed(w: Seq<char>) -> Seq<char> {
    let w1 = if w == seq!['-'] || em_dash(w) { Seq::empty() } else { w };
    let w2 = if w1.len() > 0 && (w1.last() == ',' || w1.last() == ';' || w1.last() == ':') {
        w1.drop_last()
    } else {
        w1
    };
    if w2.len() > 0 && !(w2.last() == '.' || w2.last() == '!' || w2.last() == '?') {
        w2.push('.')
    } else {
        w2
    }
}

pub open spec fn non_empty_words(v: Seq<Seq<char>>) -> Seq<Seq<char>>
    decreases v.len(),
{
    if v.len() == 0 {
        v
    } else {
        let r = non_empty_words(v.drop_last());
        if v.last().len() > 0 { r.push(v.last()) } else { r }
    }
}

pub open spec fn finalized(v: Seq<Seq<char>>) -> Seq<Seq<char>> {
    if v.len() == 0 {
        v
    } else {
        let c = caps_after(first_capitalized(v), v.len() - 1);
        let d = dashes_dropped(c, 1);
        non_empty_words(d.update(d.len() - 1, last_fixed(d.last())))
    }
}

proof fn lemma_caps_len(v: Seq<Seq<char>>, i: int)
    ensures
        caps_after(v, i).len() == v.len(),
    decreases i,
{
    if i > 0 {
        lemma_caps_len(v, i - 1);
    }
}

fn is_dash_word(w: &Vec<char>) -> (r: bool)
    ensures
        r == em_dash(w@),
{
    if w.len() == 1 && w[0] == '\u{2014}' {
        assert(w@ =~= seq!['\u{2014}']);
        true
    } else {
        false
    }
}

fn bad_dash_predecessor(w: &Vec<char>) -> (r: bool)
    ensures
        r == bad_predecessor(w@),
{
    if is_dash_word(w) {
        return true;
    }
    if w.len() == 0 {
        return false;
    }
    let c = w[w.len() - 1];
    c == '.' || c == '!' || c == '?' || c == ',' || c == ';' || c == ':' || c == '('
}

fn fix_last(w: Vec<char>) -> (r: Vec<char>)
    ensures
        r@ == last_fixed(w@),
{
    let mut last = w;
    let ghost w0 = last@;
    if (last.len() == 1 && last[0] == '-') || is_dash_word(&last) {
        assert(last.len() == 1 && last[0] == '-' ==> last@ =~= seq!['-']);
        last = Vec::new();
    } else {
        assert(!(w0 == seq!['-']));
    }
    if last.len() > 0 {
        let c = last[last.len() - 1];
        if c == ',' || c == ';' || c == ':' {
            last.pop();
        }
    }
    if last.len() > 0 {
        let c = last[last.len() - 1];
        if !(c == '.' || c == '!' || c == '?') {
            last.push('.');
        }
    }
    last
}

/// Finishes a generated stream: capitalises its first word and every word after a
/// sentence end, drops each em dash that follows a word that may not precede one, blanks
/// a trailing dash, strips a trailing `,`, `;` or `:`, ends the last word with a period
/// when it has no terminator, and removes empty words.
pub fn finalize_stream_punctuation(stream: &mut Vec<String>)
    ensures
        word_views(final(stream)@) == finalized(word_views(old(stream)@)),
        final(stream)@.len() <= old(stream)@.len(),
{
    let ghost v = word_views(stream@);
    if stream.len() == 0 {
        return;
    }
    let mut first = stream[0].clone();
    capitalize_word(&mut first);
    stream.set(0, first);
    let ghost v1 = first_capitalized(v);
    assert(word_views(stream@) =~= v1);
    let len = stream.len();
    let mut i: usize = 0;
    while i < len - 1
        invariant
            stream@.len() == len >= 1,
            i <= len - 1,
            word_views(stream@) == caps_after(v1, i as int),
        decreases len - i,
    {
        proof {
            lemma_caps_len(v1, i as int);
        }
        let ghost c = word_views(stream@);
        assert(c[i as int] == stream@[i as int]@);
        if is_sentence_end(stream[i].as_str()) {
            let mut next = stream[i + 1].clone();
            capitalize_word(&mut next);
            stream.set(i + 1, next);
            assert(word_views(stream@) =~= c.update(i + 1, capitalized(c[i + 1])));
        }
        i = i + 1;
    }
    let ghost v2 = word_views(stream@);
    assert(v2 == caps_after(v1, v.len() - 1));
    let mut i: usize = 1;
    while i < stream.len()
        invariant
            1 <= i,
            1 <= stream@.len() <= len,
            dashes_dropped(word_views(stream@), i as int) == dashes_dropped(v2, 1),
        decreases stream@.len() + 1 - i,
    {
        let w = chars_of(stream[i].as_str());
        let ghost c = word_views(stream@);
        assert(c[i as int] == w@);
        if is_dash_word(&w) {
            let prev = chars_of(stream[i - 1].as_str());
            assert(c[i - 1] == prev@);
            if bad_dash_predecessor(&prev) {
                stream.remove(i);
                assert(word_views(stream@) =~= c.remove(i as int));
                continue;
            }
        }
        i = i + 1;
    }
    let ghost v3 = word_views(stream@);
    assert(v3 == dashes_dropped(v2, 1));
    let n = stream.len();
    let last = chars_of(stream[n - 1].as_str());
    let fixed = fix_last(last);
    stream.set(n - 1, string_of(&fixed));
    let ghost v4 = word_views(stream@);
    assert(v4 =~= v3.update(v3.len() - 1, last_fixed(v3.last())));
    let mut kept: Vec<String> = Vec::new();
    let mut j: usize = 0;
    while j < stream.len()
        invariant
            j <= stream@.len() <= len,
            kept@.len() <= j,
            v4 == word_views(stream@),
            word_views(kept@) == non_empty_words(v4.take(j as int)),
        decreases stream@.len() - j,
    {
        let w = stream[j].clone();
        assert(w@ == v4[j as int]);
        assert(v4.take(j + 1).drop_last() == v4.take(j as int));
        let ghost before = kept@;
        if chars_of(w.as_str()).len() > 0 {
            kept.push(w);
            assert(word_views(kept@) =~= word_views(before).push(v4[j as int]));
        }
        j = j + 1;
    }
    assert(v4.take(j as int) == v4);
    *stream = kept;
}

} // verus!
