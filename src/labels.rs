use vstd::prelude::*;
use crate::generator::punctuation::{decimal, decimal_chars};
use crate::text::string_of;

verus! {

/// Seconds as shown by the timer: plain seconds below a minute, else `m:ss`.
pub open spec fn timer_text(seconds: u64) -> Seq<char> {
    if seconds >= 60 {
        let secs = seconds % 60;
        decimal((seconds / 60) as nat).push(':') + (if secs < 10 { seq!['0'] } else { Seq::empty() })
            + decimal(secs as nat)
    } else {
        decimal(seconds as nat)
    }
}

pub fn format_timer(seconds: u64) -> (r: String)
    ensures
        r@ == timer_text(seconds),
{
    if seconds >= 60 {
        let mut v = decimal_chars(seconds / 60);
        v.push(':');
        let secs = seconds % 60;
        if secs < 10 {
            v.push('0');
        }
        let mut s = decimal_chars(secs);
        let ghost head = v@;
        v.append(&mut s);
        assert(v@ =~= timer_text(seconds));
        string_of(&v)
    } else {
        let v = decimal_chars(seconds);
        string_of(&v)
    }
}

/// Length category of a quote of `n` characters.
pub open spec fn quote_category(n: usize) -> Seq<char> {
    if n <= 100 {
        seq!['s', 'h', 'o', 'r', 't']
    } else if n <= 300 {
        seq!['m', 'e', 'd', 'i', 'u', 'm']
    } else if n <= 600 {
        seq!['l', 'o', 'n', 'g']
    } else {
        seq!['v', 'e', 'r', 'y', ' ', 'l', 'o', 'n', 'g']
    }
}

pub fn get_quote_length_category(char_count: usize) -> (r: &'static str)
    ensures
        r@ == quote_category(char_count),
{
    proof {
        reveal_strlit("short");
        reveal_strlit("medium");
        reveal_strlit("long");
        reveal_strlit("very long");
    }
    if char_count <= 100 {
        "short"
    } else if char_count <= 300 {
        "medium"
    } else if char_count <= 600 {
        "long"
    } else {
        "very long"
    }
}

/// Height of the results view: the terminal height less five rows, kept within 12 to 50.
pub fn get_content_height(terminal_height: u16) -> (r: u16)
    ensures
        r == (if terminal_height < 17 { 12 } else if terminal_height > 55 { 50 } else { terminal_height - 5 }),
{
    let available = terminal_height.saturating_sub(5);
    if available < 12 {
        12
    } else if available > 50 {
        50
    } else {
        available
    }
}

} // verus!
