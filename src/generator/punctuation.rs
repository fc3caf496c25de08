use vstd::prelude::*;
use crate::random::{random_below, random_ratio};
use crate::strings::{is_sentence_end, sentence_end};
use crate::text::{
    char_is_letter, char_is_upper, char_uppercase, chars_of, is_letter, is_upper, lowercase_str,
    str_lowercase, str_uppercase, string_of, uppercase_of, uppercase_str,
};
use rand::rngs::StdRng;

verus! {

/// Words a sentence must have before it may end.
pub const MIN_SENTENCE_WORDS: usize = 6;

/// Words that must separate two commas.
pub const MIN_COMMA_GAP: usize = 3;

pub struct PunctuationRules {
    pub use_punctuation: bool,
    pub use_numbers: bool,
}

/// State the caller threads through so that punctuation can depend on the gaps since the
/// last sentence end and the last comma.
#[derive(Debug, Clone, Copy, PartialEq, Eq, Structural)]
pub struct GenerationContext {
    pub words_since_terminator: usize,
    pub words_since_last_comma: usize,
}

pub open spec fn ends_with_comma(w: Seq<char>) -> bool {
    w.len() > 0 && w.last() == ','
}

/// The context after `w` was placed.
pub open spec fn advanced(ctx: GenerationContext, w: Seq<char>) -> GenerationContext {
    if sentence_end(w) {
        GenerationContext { words_since_terminator: 0, words_since_last_comma: MIN_COMMA_GAP }
    } else {
        GenerationContext {
            words_since_terminator: ctx.words_since_terminator.saturating_add(1),
            words_since_last_comma: if ends_with_comma(w) {
                0
            } else {
                ctx.words_since_last_comma.saturating_add(1)
            },
        }
    }
}

impl GenerationContext {
    pub fn new() -> (r: Self)
        ensures
            r.words_since_terminator == 0,
            r.words_since_last_comma == MIN_COMMA_GAP,
    {
        GenerationContext { words_since_terminator: 0, words_since_last_comma: MIN_COMMA_GAP }
    }

    /// Advances the counters past a placed word.
    pub fn advance(&mut self, placed_word: &str)
        ensures
            *final(self) == advanced(*old(self), placed_word@),
    {
        if is_sentence_end(placed_word) {
            self.words_since_terminator = 0;
            self.words_since_last_comma = MIN_COMMA_GAP;
        } else {
            self.words_since_terminator = self.words_since_terminator.saturating_add(1);
            let chars = chars_of(placed_word);
            if chars.len() > 0 && chars[chars.len() - 1] == ',' {
                self.words_since_last_comma = 0;
            } else {
                self.words_since_last_comma = self.words_since_last_comma.saturating_add(1);
            }
        }
    }
}

pub open spec fn digit(d: int) -> char {
    if d == 0 { '0' } else if d == 1 { '1' } else if d == 2 { '2' } else if d == 3 { '3' } else if d == 4 { '4' }
    else if d == 5 { '5' } else if d == 6 { '6' } else if d == 7 { '7' } else if d == 8 { '8' } else { '9' }
}

/// Decimal digits of `n`.
pub open spec fn decimal(n: nat) -> Seq<char>
    decreases n,
{
    if n < 10 {
        seq![digit(n as int)]
    } else {
        decimal(n / 10).push(digit((n % 10) as int))
    }
}

fn digit_char(d: u64) -> (r: char)
    requires
        d < 10,
    ensures
        r == digit(d as int),
{
    if d == 0 { '0' } else if d == 1 { '1' } else if d == 2 { '2' } else if d == 3 { '3' } else if d == 4 { '4' }
    else if d == 5 { '5' } else if d == 6 { '6' } else if d == 7 { '7' } else if d == 8 { '8' } else { '9' }
}

pub fn decimal_chars(n: u64) -> (r: Vec<char>)
    ensures
        r@ == decimal(n as nat),
    decreases n,
{
    if n < 10 {
        let mut v: Vec<char> = Vec::new();
        v.push(digit_char(n));
        assert(v@ =~= seq![digit(n as int)]);
        v
    } else {
        let mut v = decimal_chars(n / 10);
        v.push(digit_char(n % 10));
        v
    }
}

/// English ordinal suffix of `n`: "th" for 11 to 13 (mod 100), else by the last digit.
pub open spec fn ordinal(n: u32) -> Seq<char> {
    if n % 100 == 11 || n % 100 == 12 || n % 100 == 13 {
        seq!['t', 'h']
    } else if n % 10 == 1 {
        seq!['s', 't']
    } else if n % 10 == 2 {
        seq!['n', 'd']
    } else if n % 10 == 3 {
        seq!['r', 'd']
    } else {
        seq!['t', 'h']
    }
}

pub fn ordinal_suffix(n: u32) -> (r: &'static str)
    ensures
        r@ == ordinal(n),
{
    proof {
        reveal_strlit("th");
        reveal_strlit("st");
        reveal_strlit("nd");
        reveal_strlit("rd");
    }
    let m = n % 100;
    if m == 11 || m == 12 || m == 13 {
        "th"
    } else if n % 10 == 1 {
        "st"
    } else if n % 10 == 2 {
        "nd"
    } else if n % 10 == 3 {
        "rd"
    } else {
        "th"
    }
}

/// The text of a generated number of the given kind (0 to 99) from the drawn values.
pub open spec fn number_text(kind: usize, a: u32, b: u32) -> Seq<char> {
    if kind < 35 {
        decimal(a as nat)
    } else if kind < 55 {
        decimal(a as nat) + ordinal(a)
    } else if kind < 70 {
        decimal(a as nat).push('.') + decimal(b as nat)
    } else if kind < 80 {
        decimal(a as nat).push('%')
    } else if kind < 90 {
        seq!['-'] + decimal(a as nat)
    } else {
        decimal(a as nat).push('\u{2013}') + decimal(b as nat)
    }
}

pub fn format_number(kind: usize, a: u32, b: u32) -> (r: Vec<char>)
    ensures
        r@ == number_text(kind, a, b),
{
    let mut v = decimal_chars(a as u64);
    if kind < 35 {
    } else if kind < 55 {
        let suffix = chars_of(ordinal_suffix(a));
        let mut s = suffix;
        v.append(&mut s);
    } else if kind < 70 {
        v.push('.');
        let mut f = decimal_chars(b as u64);
        v.append(&mut f);
    } else if kind < 80 {
        v.push('%');
    } else if kind < 90 {
        let mut w: Vec<char> = Vec::new();
        w.push('-');
        w.append(&mut v);
        assert(w@ =~= seq!['-'] + decimal(a as nat));
        return w;
    } else {
        v.push('\u{2013}');
        let mut f = decimal_chars(b as u64);
        v.append(&mut f);
    }
    v
}

/// The word after punctuation of the drawn kind `p` (0 to 99): a comma, a sentence
/// end, `;`, `:`, `!`, `?` (each only where the gaps allow it), an ellipsis, quotes or
/// parentheses.
pub open spec fn punctuated(w: Seq<char>, p: usize, can_end: bool, can_comma: bool) -> Seq<char> {
    if p < 25 {
        if can_comma { w.push(',') } else { w }
    } else if p < 74 {
        let mark = if p < 43 { '.' } else if p < 53 { ';' } else if p < 58 { ':' } else if p < 66 { '!' } else { '?' };
        if can_end { w.push(mark) } else { w }
    } else if p < 79 {
        w + seq!['.', '.', '.']
    } else if p < 90 {
        seq!['"'] + w.push('"')
    } else {
        seq!['('] + w.push(')')
    }
}

pub fn punctuate(word: Vec<char>, p: usize, can_end: bool, can_comma: bool) -> (r: Vec<char>)
    ensures
        r@ == punctuated(word@, p, can_end, can_comma),
{
    let mut w = word;
    if p < 25 {
        if can_comma {
            w.push(',');
        }
        w
    } else if p < 74 {
        let mark = if p < 43 { '.' } else if p < 53 { ';' } else if p < 58 { ':' } else if p < 66 { '!' } else { '?' };
        if can_end {
            w.push(mark);
        }
        w
    } else if p < 79 {
        w.push('.');
        w.push('.');
        w.push('.');
        assert(w@ =~= word@ + seq!['.', '.', '.']);
        w
    } else {
        let (open, close) = if p < 90 { ('"', '"') } else { ('(', ')') };
        let mut out: Vec<char> = Vec::new();
        out.push(open);
        out.append(&mut w);
        out.push(close);
        assert(out@ =~= seq![open] + word@.push(close));
        out
    }
}

/// Contractions that may replace a lower-case word; empty when there are none.
pub open spec fn contractions(w: Seq<char>) -> Seq<Seq<char>> {
    if w == "are"@ {
        seq!["aren't"@]
    } else
    if w == "can"@ {
        seq!["can't"@]
    } else
    if w == "cannot"@ {
        seq!["can't"@]
    } else
    if w == "could"@ {
        seq!["couldn't"@]
    } else
    if w == "did"@ {
        seq!["didn't"@]
    } else
    if w == "does"@ {
        seq!["doesn't"@]
    } else
    if w == "do"@ {
        seq!["don't"@]
    } else
    if w == "had"@ {
        seq!["hadn't"@]
    } else
    if w == "has"@ {
        seq!["hasn't"@]
    } else
    if w == "have"@ {
        seq!["haven't"@]
    } else
    if w == "is"@ {
        seq!["isn't"@]
    } else
    if w == "it"@ {
        seq!["it's"@, "it'll"@]
    } else
    if w == "i"@ {
        seq!["i'm"@, "i'll"@, "i've"@, "i'd"@]
    } else
    if w == "you"@ {
        seq!["you'll"@, "you're"@, "you've"@, "you'd"@]
    } else
    if w == "that"@ {
        seq!["that's"@, "that'll"@, "that'd"@]
    } else
    if w == "must"@ {
        seq!["mustn't"@, "must've"@]
    } else
    if w == "there"@ {
        seq!["there's"@, "there'll"@, "there'd"@]
    } else
    if w == "he"@ {
        seq!["he's"@, "he'll"@, "he'd"@]
    } else
    if w == "she"@ {
        seq!["she's"@, "she'll"@, "she'd"@]
    } else
    if w == "we"@ {
        seq!["we're"@, "we'll"@, "we'd"@, "we've"@]
    } else
    if w == "they"@ {
        seq!["they're"@, "they'll"@, "they'd"@, "they've"@]
    } else
    if w == "should"@ {
        seq!["shouldn't"@, "should've"@]
    } else
    if w == "was"@ {
        seq!["wasn't"@]
    } else
    if w == "were"@ {
        seq!["weren't"@]
    } else
    if w == "will"@ {
        seq!["won't"@]
    } else
    if w == "would"@ {
        seq!["wouldn't"@, "would've"@]
    } else
    if w == "let"@ {
        seq!["let's"@]
    } else
    if w == "what"@ {
        seq!["what's"@]
    } else
    if w == "who"@ {
        seq!["who's"@]
    } else
    if w == "where"@ {
        seq!["where's"@]
    } else
    if w == "how"@ {
        seq!["how's"@]
    } else
    if w == "ain"@ {
        seq!["ain't"@]
    } else
    if w == "going"@ {
        seq!["gonna"@, "goin'"@]
    } else
    if w == "got"@ {
        seq!["gotta"@]
    } else
    if w == "want"@ {
        seq!["wanna"@]
    } else {
        Seq::empty()
    }
}

/// `w` holds exactly the characters of `lit`.
fn same_chars(w: &Vec<char>, lit: &str) -> (r: bool)
    ensures
        r == (w@ == lit@),
{
    let l = chars_of(lit);
    if w.len() != l.len() {
        return false;
    }
    let mut i: usize = 0;
    while i < w.len()
        invariant
            i <= w@.len() == l@.len(),
            l@ == lit@,
            forall|j: int| 0 <= j < i ==> w@[j] == l@[j],
        decreases w@.len() - i,
    {
        if w[i] != l[i] {
            assert(w@[i as int] != l@[i as int]);
            return false;
        }
        i = i + 1;
    }
    assert(w@ =~= l@);
    true
}

/// Casing of `replacement` after `original`: all upper case when `original` has more than
/// one character and no lower-case letter, a capital first character when `original`
/// starts with one, else unchanged.
pub open spec fn cased(original: Seq<char>, replacement: Seq<char>) -> Seq<char> {
    if original.len() > 1 && forall|i: int| 0 <= i < original.len() ==> (!is_letter(#[trigger] original[i]) || is_upper(original[i])) {
        uppercase_str(replacement)
    } else if original.len() > 0 && is_upper(original[0]) {
        if replacement.len() == 0 {
            Seq::empty()
        } else {
            uppercase_of(replacement[0]) + replacement.skip(1)
        }
    } else {
        replacement
    }
}

impl PunctuationRules {
    pub fn match_casing(&self, original: &str, replacement: &str) -> (r: String)
        ensures
            r@ == cased(original@, replacement@),
    {
        let o = chars_of(original);
        let mut all_upper = o.len() > 1;
        let mut i: usize = 0;
        while i < o.len() && all_upper
            invariant
                i <= o@.len(),
                o@ == original@,
                all_upper ==> o@.len() > 1 && forall|j: int| 0 <= j < i ==> (!is_letter(#[trigger] o@[j]) || is_upper(o@[j])),
                !all_upper ==> !(o@.len() > 1 && forall|j: int| 0 <= j < o@.len() ==> (!is_letter(#[trigger] o@[j]) || is_upper(o@[j]))),
            decreases o@.len() - i,
        {
            if char_is_letter(o[i]) && !char_is_upper(o[i]) {
                all_upper = false;
            }
            i = i + 1;
        }
        if all_upper {
            return str_uppercase(replacement);
        }
        if o.len() > 0 && char_is_upper(o[0]) {
            let rep = chars_of(replacement);
            if rep.len() == 0 {
                return string_of(&rep);
            }
            let mut out = char_uppercase(rep[0]);
            let mut k: usize = 1;
            let ghost base = out@;
            while k < rep.len()
                invariant
                    1 <= k <= rep@.len(),
                    out@ == base + rep@.subrange(1, k as int),
                decreases rep@.len() - k,
            {
                out.push(rep[k]);
                assert(rep@.subrange(1, k + 1) == rep@.subrange(1, k as int).push(rep@[k as int]));
                k = k + 1;
            }
            assert(rep@.skip(1) == rep@.subrange(1, rep@.len() as int));
            return string_of(&out);
        }
        let rep = chars_of(replacement);
        string_of(&rep)
    }

    /// The contractions that may replace `word` (already lower case), if any.
    pub fn get_contraction_replacements(&self, word: &str) -> (r: Option<Vec<String>>)
        ensures
            r is None <==> contractions(word@).len() == 0,
            r matches Some(v) ==> v@.len() == contractions(word@).len() && forall|i: int|
                0 <= i < v@.len() ==> #[trigger] v@[i]@ == contractions(word@)[i],
    {
        let w = chars_of(word);
    if same_chars(&w, "are") {
        return Some(vec!["aren't".to_owned()]);
    }
    if same_chars(&w, "can") {
        return Some(vec!["can't".to_owned()]);
    }
    if same_chars(&w, "cannot") {
        return Some(vec!["can't".to_owned()]);
    }
    if same_chars(&w, "could") {
        return Some(vec!["couldn't".to_owned()]);
    }
    if same_chars(&w, "did") {
        return Some(vec!["didn't".to_owned()]);
    }
    if same_chars(&w, "does") {
        return Some(vec!["doesn't".to_owned()]);
    }
    if same_chars(&w, "do") {
        return Some(vec!["don't".to_owned()]);
    }
    if same_chars(&w, "had") {
        return Some(vec!["hadn't".to_owned()]);
    }
    if same_chars(&w, "has") {
        return Some(vec!["hasn't".to_owned()]);
    }
    if same_chars(&w, "have") {
        return Some(vec!["haven't".to_owned()]);
    }
    if same_chars(&w, "is") {
        return Some(vec!["isn't".to_owned()]);
    }
    if same_chars(&w, "it") {
        return Some(vec!["it's".to_owned(), "it'll".to_owned()]);
    }
    if same_chars(&w, "i") {
        return Some(vec!["i'm".to_owned(), "i'll".to_owned(), "i've".to_owned(), "i'd".to_owned()]);
    }
    if same_chars(&w, "you") {
        return Some(vec!["you'll".to_owned(), "you're".to_owned(), "you've".to_owned(), "you'd".to_owned()]);
    }
    if same_chars(&w, "that") {
        return Some(vec!["that's".to_owned(), "that'll".to_owned(), "that'd".to_owned()]);
    }
    if same_chars(&w, "must") {
        return Some(vec!["mustn't".to_owned(), "must've".to_owned()]);
    }
    if same_chars(&w, "there") {
        return Some(vec!["there's".to_owned(), "there'll".to_owned(), "there'd".to_owned()]);
    }
    if same_chars(&w, "he") {
        return Some(vec!["he's".to_owned(), "he'll".to_owned(), "he'd".to_owned()]);
    }
    if same_chars(&w, "she") {
        return Some(vec!["she's".to_owned(), "she'll".to_owned(), "she'd".to_owned()]);
    }
    if same_chars(&w, "we") {
        return Some(vec!["we're".to_owned(), "we'll".to_owned(), "we'd".to_owned(), "we've".to_owned()]);
    }
    if same_chars(&w, "they") {
        return Some(vec!["they're".to_owned(), "they'll".to_owned(), "they'd".to_owned(), "they've".to_owned()]);
    }
    if same_chars(&w, "should") {
        return Some(vec!["shouldn't".to_owned(), "should've".to_owned()]);
    }
    if same_chars(&w, "was") {
        return Some(vec!["wasn't".to_owned()]);
    }
    if same_chars(&w, "were") {
        return Some(vec!["weren't".to_owned()]);
    }
    if same_chars(&w, "will") {
        return Some(vec!["won't".to_owned()]);
    }
    if same_chars(&w, "would") {
        return Some(vec!["wouldn't".to_owned(), "would've".to_owned()]);
    }
    if same_chars(&w, "let") {
        return Some(vec!["let's".to_owned()]);
    }
    if same_chars(&w, "what") {
        return Some(vec!["what's".to_owned()]);
    }
    if same_chars(&w, "who") {
        return Some(vec!["who's".to_owned()]);
    }
    if same_chars(&w, "where") {
        return Some(vec!["where's".to_owned()]);
    }
    if same_chars(&w, "how") {
        return Some(vec!["how's".to_owned()]);
    }
    if same_chars(&w, "ain") {
        return Some(vec!["ain't".to_owned()]);
    }
    if same_chars(&w, "going") {
        return Some(vec!["gonna".to_owned(), "goin'".to_owned()]);
    }
    if same_chars(&w, "got") {
        return Some(vec!["gotta".to_owned()]);
    }
    if same_chars(&w, "want") {
        return Some(vec!["wanna".to_owned()]);
    }
        None
    }
}

/// `w` is `word` itself or one of its contractions, cased after it.
pub open spec fn contraction_outcome(word: Seq<char>, w: Seq<char>) -> bool {
    w == word || exists|i: int|
        0 <= i < contractions(lowercase_str(word)).len() && w == cased(word, #[trigger] contractions(lowercase_str(word))[i])
}

/// `r` is `w` itself or `w` with punctuation of some kind, as far as the gaps allow.
pub open spec fn punctuation_outcome(w: Seq<char>, r: Seq<char>, can_end: bool, can_comma: bool) -> bool {
    r == w || exists|p: usize| p < 100 && r == #[trigger] punctuated(w, p, can_end, can_comma)
}

impl PunctuationRules {
    /// Maybe turns `word` into a number (never at a sentence start) or gives it a
    /// contraction and punctuation, as the drawn values decide.
    pub fn apply(&self, word: String, rng: &mut StdRng, is_sentence_start: bool, ctx: &GenerationContext) -> (r: String)
        ensures
            !self.use_punctuation && (!self.use_numbers || is_sentence_start) ==> r@ == word@,
            self.use_numbers && !is_sentence_start ==> (exists|kind: usize, a: u32, b: u32|
                kind < 100 && r@ == number_text(kind, a, b)) || self.use_punctuation || r@ == word@,
            self.use_punctuation ==> (exists|kind: usize, a: u32, b: u32|
                self.use_numbers && !is_sentence_start && kind < 100 && r@ == number_text(kind, a, b))
                || exists|w: Seq<char>| #[trigger] contraction_outcome(word@, w) && punctuation_outcome(
                    w,
                    r@,
                    ctx.words_since_terminator >= MIN_SENTENCE_WORDS,
                    ctx.words_since_last_comma >= MIN_COMMA_GAP,
                ),
    {
        if self.use_numbers && !is_sentence_start && random_ratio(rng, 12, 100) {
            return self.generate_number(rng);
        }
        if !self.use_punctuation {
            return word;
        }
        let ghost original = word@;
        let mut w = word;
        if random_ratio(rng, 35, 100) {
            w = self.apply_contraction(w.as_str(), rng);
        }
        let ghost contracted = w@;
        if random_ratio(rng, 20, 100) {
            let can_end = ctx.words_since_terminator >= MIN_SENTENCE_WORDS;
            let can_comma = ctx.words_since_last_comma >= MIN_COMMA_GAP;
            let p = random_below(rng, 0, 100);
            let chars = chars_of(w.as_str());
            let out = punctuate(chars, p, can_end, can_comma);
            w = string_of(&out);
            assert(w@ == punctuated(contracted, p, can_end, can_comma));
            assert(punctuation_outcome(contracted, w@, can_end, can_comma));
        }
        assert(contraction_outcome(original, contracted));
        w
    }

    /// Whether an em dash follows the next word: only with punctuation on, at a small
    /// drawn chance.
    pub fn should_insert_dash(&self, rng: &mut StdRng) -> (r: bool)
        ensures
            r ==> self.use_punctuation,
    {
        self.use_punctuation && random_ratio(rng, 2, 100)
    }

    /// A random number word: a plain number, an ordinal, a decimal, a percentage, a
    /// negative number or an en-dash range.
    pub fn generate_number(&self, rng: &mut StdRng) -> (r: String)
        ensures
            exists|kind: usize, a: u32, b: u32| kind < 100 && r@ == number_text(kind, a, b),
    {
        let kind = random_below(rng, 0, 100);
        let (a, b): (u32, u32) = if kind < 35 {
            (random_below(rng, 0, 10000) as u32, 0)
        } else if kind < 55 {
            (random_below(rng, 1, 101) as u32, 0)
        } else if kind < 70 {
            (random_below(rng, 0, 100) as u32, random_below(rng, 0, 10) as u32)
        } else if kind < 80 {
            (random_below(rng, 1, 101) as u32, 0)
        } else if kind < 90 {
            (random_below(rng, 1, 1000) as u32, 0)
        } else {
            let lo = random_below(rng, 1, 1000) as u32;
            (lo, lo + random_below(rng, 1, 101) as u32)
        };
        let v = format_number(kind, a, b);
        string_of(&v)
    }

    /// Replaces `original` by one of its contractions, drawn at random, cased after it;
    /// a word without contractions stays as it is.
    pub fn apply_contraction(&self, original: &str, rng: &mut StdRng) -> (r: String)
        ensures
            contractions(lowercase_str(original@)).len() == 0 ==> r@ == original@,
            contractions(lowercase_str(original@)).len() > 0 ==> exists|i: int|
                0 <= i < contractions(lowercase_str(original@)).len() && r@ == cased(
                    original@,
                    #[trigger] contractions(lowercase_str(original@))[i],
                ),
    {
        let lower = str_lowercase(original);
        match self.get_contraction_replacements(lower.as_str()) {
            Some(reps) => {
                if reps.len() > 0 {
                    let i = random_below(rng, 0, reps.len());
                    let r = self.match_casing(original, reps[i].as_str());
                    assert(reps@[i as int]@ == contractions(lowercase_str(original@))[i as int]);
                    return r;
                }
                let c = chars_of(original);
                string_of(&c)
            },
            None => {
                let c = chars_of(original);
                string_of(&c)
            },
        }
    }
}

} // verus!
