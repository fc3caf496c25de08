use vstd::prelude::*;
use crate::generator::punctuation::{advanced, GenerationContext, PunctuationRules};
use crate::generator::sourcing::TextSource;
use crate::strings::{is_sentence_end, sentence_end};
use crate::text::{char_is_alnum, chars_of, is_alnum, string_of};
use rand::rngs::StdRng;

verus! {

pub fn is_sentence_end_pub(word: &str) -> (r: bool)
    ensures
        r == sentence_end(word@),
{
    is_sentence_end(word)
}

/// The generation context after the words of `stream`, in order, were placed.
pub open spec fn context_after(stream: Seq<String>) -> GenerationContext
    decreases stream.len(),
{
    if stream.len() == 0 {
        GenerationContext { words_since_terminator: 0, words_since_last_comma: 3 }
    } else {
        advanced(context_after(stream.drop_last()), stream.last()@)
    }
}

pub fn build_context_pub(stream: &[String]) -> (r: GenerationContext)
    ensures
        r == context_after(stream@),
{
    build_context(stream)
}

/// Replays `stream` to obtain the counters without storing them.
fn build_context(stream: &[String]) -> (r: GenerationContext)
    ensures
        r == context_after(stream@),
{
    let mut ctx = GenerationContext::new();
    let mut i: usize = 0;
    while i < stream.len()
        invariant
            i <= stream@.len(),
            ctx == context_after(stream@.take(i as int)),
        decreases stream@.len() - i,
    {
        assert(stream@.take(i + 1).drop_last() == stream@.take(i as int));
        ctx.advance(stream[i].as_str());
        i = i + 1;
    }
    assert(stream@.take(i as int) == stream@);
    ctx
}

pub open spec fn em_dash_word(w: Seq<char>) -> bool {
    w == seq!['\u{2014}']
}

/// An em dash may follow `w` unless `w` is empty, is itself an em dash, or ends with a
/// sentence terminator, a comma, a semicolon, a colon or an opening parenthesis.
pub open spec fn may_precede_dash(w: Seq<char>) -> bool {
    !em_dash_word(w) && w.len() > 0 && !(w.last() == '.' || w.last() == '!' || w.last() == '?' || w.last()
        == ',' || w.last() == ';' || w.last() == ':' || w.last() == '(')
}

fn can_precede_dash(word: &str) -> (r: bool)
    ensures
        r == may_precede_dash(word@),
{
    let w = chars_of(word);
    let n = w.len();
    if n == 0 {
        return false;
    }
    if n == 1 && w[0] == '\u{2014}' {
        assert(w@ =~= seq!['\u{2014}']);
        return false;
    }
    assert(!em_dash_word(w@));
    let c = w[n - 1];
    !(c == '.' || c == '!' || c == '?' || c == ',' || c == ';' || c == ':' || c == '(')
}

/// The word alone, or the word followed by an em dash where one may follow it.
fn maybe_append_dash(word: String, rules: &PunctuationRules, rng: &mut StdRng) -> (r: Vec<String>)
    ensures
        r@.len() == 1 || r@.len() == 2,
        r@[0]@ == word@,
        r@.len() == 2 ==> em_dash_word(r@[1]@) && may_precede_dash(word@) && rules.use_punctuation,
{
    if can_precede_dash(word.as_str()) && rules.should_insert_dash(rng) {
        let mut dash: Vec<char> = Vec::new();
        dash.push('\u{2014}');
        let d = string_of(&dash);
        let mut v: Vec<String> = Vec::new();
        v.push(word);
        v.push(d);
        v
    } else {
        let mut v: Vec<String> = Vec::new();
        v.push(word);
        v
    }
}

/// One random word with its punctuation, maybe followed by an em dash.
pub fn generate_smart_word(
    source: &TextSource,
    rules: &PunctuationRules,
    rng: &mut StdRng,
    is_sentence_start: bool,
    ctx: &GenerationContext,
) -> (r: Vec<String>)
    ensures
        1 <= r@.len() <= 2,
{
    let raw = source.get_random_word(rng);
    let processed = rules.apply(raw, rng, is_sentence_start, ctx);
    maybe_append_dash(processed, rules, rng)
}

fn last_is_sentence_end(stream: &Vec<String>) -> (r: bool)
    ensures
        r == (stream@.len() == 0 || sentence_end(stream@.last()@)),
{
    if stream.len() == 0 {
        true
    } else {
        is_sentence_end(stream[stream.len() - 1].as_str())
    }
}

/// The opening batch of a time-limited session: one hundred generated words (each maybe
/// followed by an em dash), with the context advanced past every placed word.
pub fn generate_time_batch(source: &TextSource, rules: &PunctuationRules, rng: &mut StdRng) -> (r: Vec<
    String,
>)
    ensures
        100 <= r@.len() <= 200,
{
    let mut stream: Vec<String> = Vec::new();
    let mut ctx = GenerationContext::new();
    let mut round: usize = 0;
    while round < 100
        invariant
            round <= 100,
            round <= stream@.len() <= 2 * round,
        decreases 100 - round,
    {
        let start = last_is_sentence_end(&stream);
        let new_words = generate_smart_word(source, rules, rng, start, &ctx);
        let mut k: usize = 0;
        while k < new_words.len()
            invariant
                k <= new_words@.len() <= 2,
                round <= stream@.len() <= 2 * round,
            decreases new_words@.len() - k,
        {
            ctx.advance(new_words[k].as_str());
            k = k + 1;
        }
        let mut nw = new_words;
        stream.append(&mut nw);
        round = round + 1;
    }
    stream
}

/// The opening batch of a word-count session: at most one hundred distinct words with
/// punctuation and dashes, cut to `count`; returns it with its length.
pub fn generate_count_batch(source: &TextSource, rules: &PunctuationRules, count: usize, rng: &mut StdRng) -> (r: (
    Vec<String>,
    usize,
))
    ensures
        r.1 == r.0@.len(),
        r.1 <= count,
{
    let limit = if count < 100 { count } else { 100 };
    let mut stream: Vec<String> = Vec::new();
    let mut ctx = GenerationContext::new();
    let raw = source.get_unique_batch(limit, rng);
    let mut i: usize = 0;
    while i < raw.len()
        invariant
            i <= raw@.len(),
            stream@.len() <= 2 * i,
        decreases raw@.len() - i,
    {
        let start = last_is_sentence_end(&stream);
        let placed = rules.apply(raw[i].clone(), rng, start, &ctx);
        let new_words = maybe_append_dash(placed, rules, rng);
        let mut k: usize = 0;
        while k < new_words.len()
            invariant
                k <= new_words@.len(),
            decreases new_words@.len() - k,
        {
            ctx.advance(new_words[k].as_str());
            k = k + 1;
        }
        let mut nw = new_words;
        stream.append(&mut nw);
        i = i + 1;
    }
    stream.truncate(count);
    let n = stream.len();
    (stream, n)
}

/// `w` without its trailing punctuation (characters neither alphanumeric nor `'`).
pub open spec fn trimmed_end(w: Seq<char>) -> Seq<char>
    decreases w.len(),
{
    if w.len() == 0 || is_alnum(w.last()) || w.last() == '\'' {
        w
    } else {
        trimmed_end(w.drop_last())
    }
}

fn trim_end_punctuation(w: &str) -> (r: Vec<char>)
    ensures
        r@ == trimmed_end(w@),
{
    let mut v = chars_of(w);
    while v.len() > 0 && !char_is_alnum(v[v.len() - 1]) && v[v.len() - 1] != '\''
        invariant
            trimmed_end(v@) == trimmed_end(w@),
        decreases v@.len(),
    {
        let ghost before = v@;
        v.pop();
        assert(v@ == before.drop_last());
    }
    v
}

fn contains_word(recent: &Vec<Vec<char>>, w: &Vec<char>) -> (r: bool)
    ensures
        r == exists|i: int| 0 <= i < recent@.len() && #[trigger] recent@[i]@ == w@,
{
    let mut i: usize = 0;
    while i < recent.len()
        invariant
            i <= recent@.len(),
            forall|j: int| 0 <= j < i ==> #[trigger] recent@[j]@ != w@,
        decreases recent@.len() - i,
    {
        if vec_eq(&recent[i], w) {
            return true;
        }
        i = i + 1;
    }
    false
}

fn vec_eq(a: &Vec<char>, b: &Vec<char>) -> (r: bool)
    ensures
        r == (a@ == b@),
{
    if a.len() != b.len() {
        return false;
    }
    let mut i: usize = 0;
    while i < a.len()
        invariant
            i <= a@.len() == b@.len(),
            forall|j: int| 0 <= j < i ==> a@[j] == b@[j],
        decreases a@.len() - i,
    {
        if a[i] != b[i] {
            assert(a@[i as int] != b@[i as int]);
            return false;
        }
        i = i + 1;
    }
    assert(a@ =~= b@);
    true
}

/// The next word after `existing_stream`: a random word, redrawn up to twice while it
/// repeats one of the last eight words (compared without trailing punctuation), then
/// punctuated and maybe followed by an em dash.
pub fn generate_next_word(
    source: &TextSource,
    rules: &PunctuationRules,
    existing_stream: &[String],
    rng: &mut StdRng,
) -> (r: Vec<String>)
    ensures
        1 <= r@.len() <= 2,
{
    let mut recent: Vec<Vec<char>> = Vec::new();
    let n = existing_stream.len();
    let mut k: usize = 0;
    while k < 8 && k < n
        invariant
            k <= 8,
            k <= n == existing_stream@.len(),
        decreases 8 - k,
    {
        recent.push(trim_end_punctuation(existing_stream[n - 1 - k].as_str()));
        k = k + 1;
    }
    let mut raw_word = source.get_random_word(rng);
    let mut tries: usize = 0;
    while tries < 2
        invariant
            tries <= 2,
        decreases 2 - tries,
    {
        let chars = chars_of(raw_word.as_str());
        if contains_word(&recent, &chars) {
            raw_word = source.get_random_word(rng);
        } else {
            break;
        }
        tries = tries + 1;
    }
    let is_sentence_start = n == 0 || is_sentence_end(existing_stream[n - 1].as_str());
    let ctx = build_context(existing_stream);
    let placed = rules.apply(raw_word, rng, is_sentence_start, &ctx);
    maybe_append_dash(placed, rules, rng)
}

} // verus!
