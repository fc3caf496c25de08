use vstd::prelude::*;

verus! {

/// `s` split at every space, as `str::split(' ')` does: n spaces give n + 1 pieces.
pub open spec fn split_spaces(s: Seq<char>) -> Seq<Seq<char>>
    decreases s.len(),
{
    if s.len() == 0 {
        seq![Seq::empty()]
    } else {
        let p = split_spaces(s.drop_last());
        if s.last() == ' ' {
            p.push(Seq::empty())
        } else {
            p.update(p.len() - 1, p.last().push(s.last()))
        }
    }
}

pub proof fn lemma_split_nonempty(s: Seq<char>)
    ensures
        split_spaces(s).len() >= 1,
    decreases s.len(),
{
    if s.len() > 0 {
        lemma_split_nonempty(s.drop_last());
    }
}

/// Greedy word wrap: the finished lines and the line being filled, after the first
/// `n` words.
pub open spec fn wrap_state(words: Seq<Seq<char>>, width: int, n: int) -> (Seq<Seq<char>>, Seq<char>)
    decreases n,
{
    if n <= 0 {
        (Seq::empty(), Seq::empty())
    } else {
        let (lines, cur) = wrap_state(words, width, n - 1);
        let w = words[n - 1];
        let gap: int = if cur.len() == 0 { 0 } else { 1 };
        if cur.len() + gap + w.len() <= width {
            (lines, if cur.len() == 0 { w } else { cur.push(' ') + w })
        } else {
            (if cur.len() == 0 { lines } else { lines.push(cur) }, w)
        }
    }
}

/// The lines of `text` wrapped greedily at `width`: a line holds as many whole
/// space-separated words as fit; a word is never split.
pub open spec fn wrapped(text: Seq<char>, width: int) -> Seq<Seq<char>> {
    let words = split_spaces(text);
    let (lines, cur) = wrap_state(words, width, words.len() as int);
    if cur.len() == 0 {
        lines
    } else {
        lines.push(cur)
    }
}

/// The line that holds cursor position `pos`, counting each line with its separator,
/// starting at line `i`; `None` when `pos` lies past every line.
pub open spec fn line_containing(lines: Seq<Seq<char>>, i: int, pos: int) -> Option<int>
    decreases lines.len() - i,
{
    if i < 0 || i >= lines.len() {
        None
    } else if pos <= lines[i].len() {
        Some(i)
    } else {
        line_containing(lines, i + 1, pos - lines[i].len() - 1)
    }
}

/// The cursor's line: the one that holds `pos`, else the last line (0 when there is none).
pub open spec fn line_index(lines: Seq<Seq<char>>, pos: int) -> int {
    match line_containing(lines, 0, pos) {
        Some(i) => i,
        None => if lines.len() == 0 { 0 } else { lines.len() - 1 },
    }
}

pub open spec fn view_lines(lines: Seq<Vec<char>>) -> Seq<Seq<char>> {
    lines.map_values(|l: Vec<char>| l@)
}

/// Splits `text` at every space.
pub fn split_on_spaces(text: &Vec<char>) -> (r: Vec<Vec<char>>)
    ensures
        view_lines(r@) == split_spaces(text@),
{
    let mut parts: Vec<Vec<char>> = Vec::new();
    let mut cur: Vec<char> = Vec::new();
    let mut i: usize = 0;
    while i < text.len()
        invariant
            i <= text@.len(),
            view_lines(parts@).push(cur@) == split_spaces(text@.take(i as int)),
        decreases text@.len() - i,
    {
        let c = text[i];
        let ghost prev_parts = parts@;
        let ghost prev_cur = cur@;
        proof {
            assert(text@.take(i + 1).drop_last() == text@.take(i as int));
            lemma_split_nonempty(text@.take(i as int));
        }
        if c == ' ' {
            parts.push(cur);
            cur = Vec::new();
            assert(view_lines(parts@).push(cur@) =~= view_lines(prev_parts).push(prev_cur).push(
                Seq::empty(),
            ));
        } else {
            cur.push(c);
            assert(view_lines(parts@).push(cur@) =~= view_lines(prev_parts).push(prev_cur).update(
                prev_parts.len() as int,
                prev_cur.push(c),
            ));
        }
        i = i + 1;
    }
    assert(text@.take(i as int) == text@);
    parts.push(cur);
    assert(view_lines(parts@) =~= split_spaces(text@));
    parts
}

/// Wraps `text` greedily into lines no wider than `width`.
pub fn wrap_into_lines(text: &Vec<char>, width: usize) -> (r: Vec<Vec<char>>)
    ensures
        view_lines(r@) == wrapped(text@, width as int),
{
    let words = split_on_spaces(text);
    let ghost ws = view_lines(words@);
    let mut lines: Vec<Vec<char>> = Vec::new();
    let mut cur: Vec<char> = Vec::new();
    let mut k: usize = 0;
    while k < words.len()
        invariant
            k <= words@.len(),
            ws == view_lines(words@),
            ws == split_spaces(text@),
            (view_lines(lines@), cur@) == wrap_state(ws, width as int, k as int),
        decreases words@.len() - k,
    {
        let w = &words[k];
        let ghost prev_lines = lines@;
        let ghost prev_cur = cur@;
        assert(ws[k as int] == w@);
        let gap: usize = if cur.len() == 0 { 0 } else { 1 };
        if cur.len() <= width && w.len() <= width - cur.len() && gap <= width - cur.len() - w.len() {
            if cur.len() > 0 {
                cur.push(' ');
            }
            let mut j: usize = 0;
            let ghost base = cur@;
            while j < w.len()
                invariant
                    j <= w@.len(),
                    cur@ == base + w@.take(j as int),
                decreases w@.len() - j,
            {
                cur.push(w[j]);
                assert(w@.take(j + 1) == w@.take(j as int).push(w@[j as int]));
                j = j + 1;
            }
            assert(w@.take(j as int) == w@);
            assert(prev_cur.len() == 0 ==> cur@ =~= w@);
        } else {
            if cur.len() > 0 {
                lines.push(cur);
                cur = Vec::new();
            }
            cur = w.clone();
            assert(view_lines(lines@) =~= (if prev_cur.len() == 0 { view_lines(prev_lines) } else {
                view_lines(prev_lines).push(prev_cur)
            }));
        }
        k = k + 1;
    }
    if cur.len() > 0 {
        let ghost prev_lines = lines@;
        lines.push(cur);
        assert(view_lines(lines@) =~= view_lines(prev_lines).push(cur@));
    }
    lines
}

/// The index of the line holding cursor position `cursor_pos` (each line counted with
/// one trailing separator); the last line when the cursor lies past every line.
pub fn line_idx_for_cursor(lines: &Vec<Vec<char>>, cursor_pos: usize) -> (r: usize)
    ensures
        r == line_index(view_lines(lines@), cursor_pos as int),
{
    match line_containing_exec(lines, cursor_pos) {
        Some(i) => i,
        None => if lines.len() == 0 {
            0
        } else {
            lines.len() - 1
        },
    }
}

/// The line that holds `cursor_pos`, if any.
pub fn line_containing_exec(lines: &Vec<Vec<char>>, cursor_pos: usize) -> (r: Option<usize>)
    ensures
        r matches Some(i) ==> line_containing(view_lines(lines@), 0, cursor_pos as int) == Some(
            i as int,
        ),
        r is None ==> line_containing(view_lines(lines@), 0, cursor_pos as int) is None,
{
    let ghost ls = view_lines(lines@);
    let mut running: usize = 0;
    let mut i: usize = 0;
    while i < lines.len()
        invariant
            i <= lines@.len(),
            ls == view_lines(lines@),
            running <= cursor_pos,
            line_containing(ls, 0, cursor_pos as int) == line_containing(
                ls,
                i as int,
                cursor_pos - running,
            ),
        decreases lines@.len() - i,
    {
        assert(ls[i as int] == lines@[i as int]@);
        if cursor_pos - running <= lines[i].len() {
            return Some(i);
        }
        running = running + lines[i].len() + 1;
        i = i + 1;
    }
    None
}

} // verus!
