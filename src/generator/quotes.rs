use vstd::prelude::*;
use crate::layout::split_on_spaces;
use crate::models::{QuoteData, QuoteLength, QuoteSelector};
use crate::random::random_below;
use crate::text::{chars_of, string_of};
use rand::rngs::StdRng;

verus! {

/// Words of a quote session: those on screen first, the rest kept back, in order.
pub struct QuoteResult {
    pub word_stream: Vec<String>,
    pub quote_pool: Vec<String>,
    pub total_words: usize,
    pub source_text: String,
}

/// Quotes that `selector` admits: the quote of that id, or those whose length lies in the
/// category's group; all quotes when none is admitted.
fn candidates(selector: &QuoteSelector, data: &QuoteData) -> (r: Vec<usize>)
    ensures
        forall|k: int| 0 <= k < r@.len() ==> #[trigger] r@[k] < data.quotes@.len(),
        data.quotes@.len() > 0 ==> r@.len() > 0,
{
    let mut out: Vec<usize> = Vec::new();
    let n = data.quotes.len();
    let bounds: Option<(usize, usize)> = match selector {
        QuoteSelector::Id(_) => None,
        QuoteSelector::Category(QuoteLength::All) => None,
        QuoteSelector::Category(c) => {
            let g: usize = match c {
                QuoteLength::Short => 0,
                QuoteLength::Medium => 1,
                QuoteLength::Long => 2,
                _ => 3,
            };
            if g < data.groups.len() && data.groups[g].len() >= 2 {
                Some((data.groups[g][0], data.groups[g][1]))
            } else {
                None
            }
        },
    };
    let mut i: usize = 0;
    while i < n
        invariant
            i <= n == data.quotes@.len(),
            forall|k: int| 0 <= k < out@.len() ==> #[trigger] out@[k] < n,
        decreases n - i,
    {
        let q = &data.quotes[i];
        let keep = match selector {
            QuoteSelector::Id(id) => q.id == *id,
            _ => match bounds {
                Some((lo, hi)) => lo <= q.length && q.length <= hi,
                None => true,
            },
        };
        if keep {
            out.push(i);
        }
        i = i + 1;
    }
    if out.len() == 0 {
        let mut j: usize = 0;
        while j < n
            invariant
                j <= n == data.quotes@.len(),
                out@.len() == j,
                forall|k: int| 0 <= k < out@.len() ==> #[trigger] out@[k] < n,
            decreases n - j,
        {
            out.push(j);
            j = j + 1;
        }
    }
    out
}

/// Picks a quote for `selector` at random and splits it into words: the first hundred go
/// on screen, the rest into the pool.
pub fn generate(selector: &QuoteSelector, quote_data: &QuoteData, rng: &mut StdRng) -> (r: QuoteResult)
    ensures
        r.word_stream@.len() <= 100,
        r.quote_pool@.len() > 0 ==> r.word_stream@.len() == 100,
        r.total_words == r.word_stream@.len() + r.quote_pool@.len(),
{
    let cands = candidates(selector, quote_data);
    if cands.len() == 0 {
        return QuoteResult {
            word_stream: Vec::new(),
            quote_pool: Vec::new(),
            total_words: 0,
            source_text: String::new(),
        };
    }
    let pick = cands[random_below(rng, 0, cands.len())];
    let quote = &quote_data.quotes[pick];
    let text = chars_of(quote.text.as_str());
    let parts = split_on_spaces(&text);
    let mut stream: Vec<String> = Vec::new();
    let mut pool: Vec<String> = Vec::new();
    let mut i: usize = 0;
    while i < parts.len()
        invariant
            i <= parts@.len(),
            stream@.len() <= 100,
            pool@.len() > 0 ==> stream@.len() == 100,
            stream@.len() + pool@.len() <= i,
        decreases parts@.len() - i,
    {
        if parts[i].len() > 0 {
            let w = string_of(&parts[i]);
            if stream.len() < 100 {
                stream.push(w);
            } else {
                pool.push(w);
            }
        }
        i = i + 1;
    }
    let total = stream.len() + pool.len();
    QuoteResult { word_stream: stream, quote_pool: pool, total_words: total, source_text: quote.source.clone() }
}

/// The next word of the pool, taken from its front; `None` once it is empty.
pub fn next_word(pool: &mut Vec<String>) -> (r: Option<Vec<String>>)
    ensures
        old(pool)@.len() == 0 ==> r is None && final(pool)@ == old(pool)@,
        old(pool)@.len() > 0 ==> (r matches Some(v) && v@ == seq![old(pool)@[0]]),
        old(pool)@.len() > 0 ==> final(pool)@ == old(pool)@.skip(1),
{
    if pool.len() == 0 {
        return None;
    }
    let w = pool.remove(0);
    let mut v: Vec<String> = Vec::new();
    v.push(w);
    assert(v@ =~= seq![old(pool)@[0]]);
    assert(pool@ =~= old(pool)@.skip(1));
    Some(v)
}

} // verus!
