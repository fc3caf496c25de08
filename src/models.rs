use vstd::prelude::*;

verus! {

#[derive(Debug, Clone, Copy, PartialEq, Eq, Structural)]
pub enum QuoteLength {
    Short,
    Medium,
    Long,
    VeryLong,
    All,
}

#[derive(Debug, Clone, Copy, PartialEq, Eq, Structural)]
pub enum QuoteSelector {
    Category(QuoteLength),
    Id(usize),
}

#[derive(Debug, Clone, Copy, PartialEq, Eq, Structural)]
pub enum Mode {
    Time(u64),
    Words(usize),
    Quote(QuoteSelector),
}

/// Session state: `Waiting` until the first keystroke, then `Running`, then `Finished`.
#[derive(Debug, Clone, Copy, PartialEq, Eq, Structural)]
pub enum AppState {
    Waiting,
    Running,
    Finished,
}

#[derive(Debug, Clone)]
pub struct QuoteEntry {
    pub text: String,
    pub source: String,
    pub length: usize,
    pub id: usize,
}

#[derive(Debug, Clone)]
pub struct QuoteData {
    pub language: String,
    pub groups: Vec<Vec<usize>>,
    pub quotes: Vec<QuoteEntry>,
}

#[derive(Debug, Clone)]
pub struct WordData {
    pub name: String,
    pub words: Vec<String>,
}

#[derive(Debug, Clone, Copy, PartialEq, Eq, Structural)]
pub enum WordState {
    Pending,
    Active,
    Typed,
}

/// One target word of the stream; `index` is its position in the current window.
#[derive(Debug, Clone)]
pub struct Word {
    pub text: Vec<char>,
    pub index: usize,
    pub state: WordState,
}

impl Word {
    pub fn new(text: Vec<char>, index: usize) -> (r: Word)
        ensures
            r.text@ == text@,
            r.index == index,
            r.state == WordState::Pending,
    {
        Word { text, index, state: WordState::Pending }
    }
}

} // verus!
