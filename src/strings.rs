use vstd::prelude::*;
use crate::text::{char_is_letter, char_uppercase, chars_of, is_letter, string_of, uppercase_of};

verus! {

pub open spec fn quote_char(c: char) -> bool {
    c == '"' || c == '\u{201C}' || c == '\u{201D}' || c == '\u{201E}' || c == '\'' || c
        == '\u{2019}' || c == '\u{2018}' || c == '\u{02BC}' || c == '\u{1FBD}'
}

pub open spec fn dash_char(c: char) -> bool {
    c == '-' || c == '\u{2013}' || c == '\u{2014}' || c == '\u{2010}'
}

pub open spec fn comma_char(c: char) -> bool {
    c == ',' || c == '\u{201A}'
}

/// Two characters are visually equal when identical or of one typographic class.
pub open spec fn visually_equal(a: char, b: char) -> bool {
    a == b || (quote_char(a) && quote_char(b)) || (dash_char(a) && dash_char(b)) || (comma_char(a)
        && comma_char(b))
}

fn is_quote(c: char) -> (r: bool)
    ensures
        r == quote_char(c),
{
    c == '"' || c == '\u{201C}' || c == '\u{201D}' || c == '\u{201E}' || c == '\'' || c
        == '\u{2019}' || c == '\u{2018}' || c == '\u{02BC}' || c == '\u{1FBD}'
}

fn is_dash(c: char) -> (r: bool)
    ensures
        r == dash_char(c),
{
    c == '-' || c == '\u{2013}' || c == '\u{2014}' || c == '\u{2010}'
}

fn is_comma_like(c: char) -> (r: bool)
    ensures
        r == comma_char(c),
{
    c == ',' || c == '\u{201A}'
}

pub fn are_characters_visually_equal(c1: char, c2: char) -> (r: bool)
    ensures
        r == visually_equal(c1, c2),
{
    c1 == c2 || (is_quote(c1) && is_quote(c2)) || (is_dash(c1) && is_dash(c2)) || (is_comma_like(
        c1,
    ) && is_comma_like(c2))
}

/// The replacement of one character by typographic cleaning.
pub open spec fn clean_char(c: char) -> Seq<char> {
    if c == '"' || c == '\u{201C}' || c == '\u{201E}' {
        seq!['"']
    } else if c == '\u{2019}' || c == '\u{2018}' || c == '\u{1FBD}' || c == '\u{02BC}' {
        seq!['\'']
    } else if c == '\u{2010}' {
        seq!['-']
    } else if c == '\u{00A0}' || c == '\u{2007}' || c == '\u{202F}' {
        seq![' ']
    } else if c == '\u{2026}' {
        seq!['.', '.', '.']
    } else if c == '\u{00AB}' {
        seq!['<', '<']
    } else if c == '\u{00BB}' {
        seq!['>', '>']
    } else {
        seq![c]
    }
}

pub open spec fn clean_seq(s: Seq<char>) -> Seq<char>
    decreases s.len(),
{
    if s.len() == 0 {
        Seq::empty()
    } else {
        clean_seq(s.drop_last()) + clean_char(s.last())
    }
}

fn push_clean(out: &mut Vec<char>, c: char)
    ensures
        final(out)@ == old(out)@ + clean_char(c),
{
    let ghost before = out@;
    if c == '"' || c == '\u{201C}' || c == '\u{201E}' {
        out.push('"');
    } else if c == '\u{2019}' || c == '\u{2018}' || c == '\u{1FBD}' || c == '\u{02BC}' {
        out.push('\'');
    } else if c == '\u{2010}' {
        out.push('-');
    } else if c == '\u{00A0}' || c == '\u{2007}' || c == '\u{202F}' {
        out.push(' ');
    } else if c == '\u{2026}' {
        out.push('.');
        out.push('.');
        out.push('.');
    } else if c == '\u{00AB}' {
        out.push('<');
        out.push('<');
    } else if c == '\u{00BB}' {
        out.push('>');
        out.push('>');
    } else {
        out.push(c);
    }
    assert(out@ =~= before + clean_char(c));
}

/// Replaces typographic variants by plain keyboard characters: curly and low double
/// quotes by `"`, curly apostrophes by `'`, the hyphen by `-`, narrow and no-break spaces
/// by a space, the ellipsis by three dots and guillemets by `<<` and `>>`.
pub fn clean_typography_symbols(text: &str) -> (r: String)
    ensures
        r@ == clean_seq(text@),
{
    let chars = chars_of(text);
    let mut out: Vec<char> = Vec::new();
    let mut i: usize = 0;
    while i < chars.len()
        invariant
            i <= chars@.len(),
            out@ == clean_seq(chars@.take(i as int)),
        decreases chars@.len() - i,
    {
        assert(chars@.take(i + 1).drop_last() == chars@.take(i as int));
        push_clean(&mut out, chars[i]);
        i = i + 1;
    }
    assert(chars@.take(i as int) == chars@);
    string_of(&out)
}

/// The index of the first letter of `s` at or after `i`.
pub open spec fn first_letter_from(s: Seq<char>, i: int) -> Option<int>
    decreases s.len() - i,
{
    if i < 0 || i >= s.len() {
        None
    } else if is_letter(s[i]) {
        Some(i)
    } else {
        first_letter_from(s, i + 1)
    }
}

/// The first upper-case character of `c`, or `c` itself when it has none.
pub open spec fn upper_first(c: char) -> char {
    if uppercase_of(c).len() > 0 { uppercase_of(c)[0] } else { c }
}

/// `s` with its first letter upper-cased.
pub open spec fn capitalized(s: Seq<char>) -> Seq<char> {
    match first_letter_from(s, 0) {
        Some(i) => s.update(i, upper_first(s[i])),
        None => s,
    }
}

/// Upper-cases the first letter of `w`.
pub fn capitalize_word(w: &mut String)
    ensures
        final(w)@ == capitalized(old(w)@),
{
    let mut chars = chars_of(w.as_str());
    let mut i: usize = 0;
    while i < chars.len()
        invariant
            i <= chars@.len(),
            chars@ == old(w)@,
            w@ == old(w)@,
            first_letter_from(chars@, 0) == first_letter_from(chars@, i as int),
        decreases chars@.len() - i,
    {
        if char_is_letter(chars[i]) {
            let up = char_uppercase(chars[i]);
            let c = if up.len() > 0 { up[0] } else { chars[i] };
            chars.set(i, c);
            *w = string_of(&chars);
            return;
        }
        i = i + 1;
    }
}

pub open spec fn terminator_char(c: char) -> bool {
    c == '.' || c == '!' || c == '?'
}

/// `w` ends with `.`, `!` or `?`.
pub open spec fn ends_with_terminator_spec(w: Seq<char>) -> bool {
    w.len() > 0 && terminator_char(w.last())
}

/// `w` ends a sentence: it ends with a terminator but not with an ellipsis.
pub open spec fn sentence_end(w: Seq<char>) -> bool {
    ends_with_terminator_spec(w) && !(w.len() >= 3 && w[w.len() - 1] == '.' && w[w.len() - 2] == '.'
        && w[w.len() - 3] == '.')
}

pub fn ends_with_terminator(w: &str) -> (r: bool)
    ensures
        r == ends_with_terminator_spec(w@),
{
    let chars = chars_of(w);
    let n = chars.len();
    n > 0 && (chars[n - 1] == '.' || chars[n - 1] == '!' || chars[n - 1] == '?')
}

pub fn is_sentence_end(w: &str) -> (r: bool)
    ensures
        r == sentence_end(w@),
{
    let chars = chars_of(w);
    chars_sentence_end(&chars)
}

/// `sentence_end` on a word held as characters.
fn chars_sentence_end(chars: &Vec<char>) -> (r: bool)
    ensures
        r == sentence_end(chars@),
{
    let n = chars.len();
    let ellipsis = n >= 3 && chars[n - 1] == '.' && chars[n - 2] == '.' && chars[n - 3] == '.';
    let term = n > 0 && (chars[n - 1] == '.' || chars[n - 1] == '!' || chars[n - 1] == '?');
    term && !ellipsis
}

} // verus!
