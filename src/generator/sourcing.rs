use vstd::prelude::*;
use crate::models::WordData;
use crate::random::random_below;
use rand::rngs::StdRng;

verus! {

/// The word list that random words are drawn from.
pub struct TextSource {
    pub words: Vec<String>,
}

/// `w` is one of the words of `words`.
pub open spec fn drawn_from(words: Seq<String>, w: Seq<char>) -> bool {
    exists|i: int| 0 <= i < words.len() && #[trigger] words[i]@ == w
}

impl TextSource {
    pub fn new(word_data: WordData) -> (r: Self)
        ensures
            r.words@ == word_data.words@,
    {
        TextSource { words: word_data.words }
    }

    /// A word of the list drawn at random; empty when the list is.
    pub fn get_random_word(&self, rng: &mut StdRng) -> (r: String)
        ensures
            self.words@.len() > 0 ==> drawn_from(self.words@, r@),
            self.words@.len() == 0 ==> r@.len() == 0,
    {
        if self.words.len() == 0 {
            return String::new();
        }
        let i = random_below(rng, 0, self.words.len());
        let w = self.words[i].clone();
        assert(self.words@[i as int]@ == w@);
        w
    }

    /// `limit` words of the list drawn at random, no word twice while the list lasts.
    pub fn get_unique_batch(&self, limit: usize, rng: &mut StdRng) -> (r: Vec<String>)
        ensures
            self.words@.len() > 0 ==> r@.len() == limit,
            self.words@.len() == 0 ==> r@.len() == 0,
            forall|k: int| 0 <= k < r@.len() ==> drawn_from(self.words@, #[trigger] r@[k]@),
    {
        let mut out: Vec<String> = Vec::new();
        let n = self.words.len();
        if n == 0 {
            return out;
        }
        let mut order: Vec<usize> = Vec::new();
        let mut j: usize = 0;
        while j < n
            invariant
                j <= n == self.words@.len(),
                order@.len() == j,
                forall|k: int| 0 <= k < j ==> #[trigger] order@[k] < n,
            decreases n - j,
        {
            order.push(j);
            j = j + 1;
        }
        let mut taken: usize = 0;
        while out.len() < limit
            invariant
                n == self.words@.len() > 0,
                order@.len() == n,
                forall|k: int| 0 <= k < n ==> #[trigger] order@[k] < n,
                out@.len() <= limit,
                taken <= n,
                forall|k: int| 0 <= k < out@.len() ==> drawn_from(self.words@, #[trigger] out@[k]@),
            decreases limit - out@.len(),
        {
            let idx = if taken < n {
                let pick = random_below(rng, taken, n);
                let a = order[taken];
                let b = order[pick];
                order.set(taken, b);
                order.set(pick, a);
                taken = taken + 1;
                b
            } else {
                random_below(rng, 0, n)
            };
            let w = self.words[idx].clone();
            assert(self.words@[idx as int]@ == w@);
            out.push(w);
        }
        out
    }
}

} // verus!
