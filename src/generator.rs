//! Generation of the target word stream: word choice, punctuation and numbers.
pub mod formatting;
pub mod punctuation;
pub mod quotes;
pub mod sourcing;
pub mod word_controller;

use vstd::prelude::*;
use crate::models::{Mode, QuoteData, Word, WordData, WordState};
use crate::text::chars_of;
use formatting::{apply_contextual_capitalization, finalize_stream_punctuation};
use punctuation::PunctuationRules;
use rand::rngs::StdRng;
use sourcing::TextSource;
use word_controller::{build_context_pub, generate_count_batch, generate_next_word, generate_smart_word, generate_time_batch, is_sentence_end_pub};

verus! {

pub struct WordGenerator {
    pub source: TextSource,
    pub rules: PunctuationRules,
}

/// The opening stream of a session and the bookkeeping that comes with it.
pub struct GeneratedWords {
    pub word_stream: Vec<Word>,
    pub quote_pool: Vec<String>,
    pub total_quote_words: usize,
    pub current_quote_source: String,
    pub generated_count: usize,
    pub next_index: usize,
}

/// Words numbered from `start`, in order, all pending but the first when `first_active`.
pub open spec fn numbered(words: Seq<Word>, start: int) -> bool {
    forall|i: int| 0 <= i < words.len() ==> #[trigger] words[i].index == start + i
}

fn to_words(texts: Vec<String>, start: usize, first_active: bool) -> (r: Vec<Word>)
    requires
        start + texts@.len() <= usize::MAX,
    ensures
        r@.len() == texts@.len(),
        numbered(r@, start as int),
        forall|i: int| 0 <= i < r@.len() ==> #[trigger] r@[i].text@ == texts@[i]@,
        forall|i: int| 0 <= i < r@.len() ==> #[trigger] r@[i].state == (if i == 0 && first_active {
            WordState::Active
        } else {
            WordState::Pending
        }),
{
    let mut out: Vec<Word> = Vec::new();
    let mut i: usize = 0;
    while i < texts.len()
        invariant
            i <= texts@.len(),
            start + texts@.len() <= usize::MAX,
            out@.len() == i,
            numbered(out@, start as int),
            forall|k: int| 0 <= k < i ==> #[trigger] out@[k].text@ == texts@[k]@,
            forall|k: int| 0 <= k < i ==> #[trigger] out@[k].state == (if k == 0 && first_active {
                WordState::Active
            } else {
                WordState::Pending
            }),
        decreases texts@.len() - i,
    {
        let mut w = Word::new(chars_of(texts[i].as_str()), start + i);
        if i == 0 && first_active {
            w.state = WordState::Active;
        }
        out.push(w);
        i = i + 1;
    }
    out
}

impl WordGenerator {
    pub fn new(word_data: WordData, use_numbers: bool, use_punctuation: bool) -> (r: Self)
        ensures
            r.rules.use_numbers == use_numbers,
            r.rules.use_punctuation == use_punctuation,
            r.source.words@ == word_data.words@,
    {
        WordGenerator { source: TextSource::new(word_data), rules: PunctuationRules { use_numbers, use_punctuation } }
    }

    /// The opening stream for `mode`: a hundred words for a time-limited session, the
    /// requested count (at most a hundred at first) for a word-count session, a quote for
    /// a quote session. The first word is active, the others pending, numbered from 0.
    pub fn generate_initial_words(&self, mode: &Mode, quote_data: &QuoteData, rng: &mut StdRng) -> (r: GeneratedWords)
        ensures
            r.next_index == r.word_stream@.len(),
            numbered(r.word_stream@, 0),
            forall|i: int| 0 <= i < r.word_stream@.len() ==> #[trigger] r.word_stream@[i].state == (if i == 0 {
                WordState::Active
            } else {
                WordState::Pending
            }),
            mode is Words ==> r.generated_count == r.word_stream@.len(),
            !(mode is Words) ==> r.generated_count == 0,
            (match *mode {
                Mode::Words(n) => r.word_stream@.len() <= n,
                _ => true,
            }),
    {
        let mut quote_pool: Vec<String> = Vec::new();
        let mut total_quote_words: usize = 0;
        let mut current_quote_source = String::new();
        let mut raw_stream: Vec<String> = match mode {
            Mode::Time(_) => generate_time_batch(&self.source, &self.rules, rng),
            Mode::Words(count) => {
                let (stream, _) = generate_count_batch(&self.source, &self.rules, *count, rng);
                stream
            },
            Mode::Quote(selector) => {
                let result = quotes::generate(selector, quote_data, rng);
                quote_pool = result.quote_pool;
                total_quote_words = result.total_words;
                current_quote_source = result.source_text;
                result.word_stream
            },
        };
        let is_quote = match mode {
            Mode::Quote(_) => true,
            _ => false,
        };
        if self.rules.use_punctuation && !is_quote {
            finalize_stream_punctuation(&mut raw_stream);
        }
        let generated_count = match mode {
            Mode::Words(_) => raw_stream.len(),
            _ => 0,
        };
        let word_stream = to_words(raw_stream, 0, true);
        let next_index = word_stream.len();
        GeneratedWords { word_stream, quote_pool, total_quote_words, current_quote_source, generated_count, next_index }
    }

    /// The next word (or word and em dash) for `mode`, numbered from `next_index`, with
    /// the index after them; `None` once a word-count session has all its words or a
    /// quote's pool is empty.
    pub fn add_one_word(
        &self,
        mode: &Mode,
        existing_stream: &[Word],
        quote_pool: &mut Vec<String>,
        generated_count: usize,
        next_index: usize,
        rng: &mut StdRng,
    ) -> (r: Option<(Vec<Word>, usize)>)
        requires
            next_index <= usize::MAX - 2,
        ensures
            r matches Some((ws, ni)) ==> 1 <= ws@.len() <= 2 && ni == next_index + ws@.len()
                && numbered(ws@, next_index as int),
            (match *mode {
                Mode::Words(target) => generated_count >= target ==> r is None,
                _ => true,
            }),
            (match *mode {
                Mode::Words(target) => (r matches Some((ws, ni)) ==> generated_count + ws@.len() <= target),
                _ => true,
            }),
            !(mode is Quote) ==> final(quote_pool)@ == old(quote_pool)@,
    {
        let mut context: Vec<String> = Vec::new();
        let mut i: usize = 0;
        while i < existing_stream.len()
            invariant
                i <= existing_stream@.len(),
            decreases existing_stream@.len() - i,
        {
            let t = &existing_stream[i].text;
            context.push(crate::text::string_of(t));
            i = i + 1;
        }
        let new_raw: Option<Vec<String>> = match mode {
            Mode::Time(_) => {
                let n = context.len();
                let start = n == 0 || is_sentence_end_pub(context[n - 1].as_str());
                let ctx = build_context_pub(context.as_slice());
                let mut words = generate_smart_word(&self.source, &self.rules, rng, start, &ctx);
                apply_contextual_capitalization(&mut words, context.as_slice(), self.rules.use_punctuation);
                Some(words)
            },
            Mode::Quote(_) => quotes::next_word(quote_pool),
            Mode::Words(target) => {
                if generated_count < *target {
                    let remaining = *target - generated_count;
                    let mut words = generate_next_word(&self.source, &self.rules, context.as_slice(), rng);
                    apply_contextual_capitalization(&mut words, context.as_slice(), self.rules.use_punctuation);
                    words.truncate(remaining);
                    Some(words)
                } else {
                    None
                }
            },
        };
        match new_raw {
            Some(strs) => {
                let n = strs.len();
                let words = to_words(strs, next_index, false);
                Some((words, next_index + n))
            },
            None => None,
        }
    }
}

} // verus!
