//! The window onto the history: which lines fit, the blank rows above them,
//! the rule below them and the status line.
use vstd::prelude::*;
use vstd::string::*;

use crate::history::views;
use crate::text::{decimal, decimal_string, push_char, push_decimal};

verus! {

/// Rows that the window leaves for the rule, the status line and the prompt.
pub const RESERVED_ROWS: u16 = 3;

/// Columns assumed when the terminal cannot say its size.
pub const DEFAULT_COLUMNS: u16 = 80;

/// Rows assumed when the terminal cannot say its size.
pub const DEFAULT_ROWS: u16 = 24;

/// The glyph that the rule under the window is made of.
pub const RULE_GLYPH: char = '\u{2500}';

/// Rows left for history lines: `rows` less the reserved ones, never below 0.
pub open spec fn capacity(rows: nat) -> nat {
    if rows >= RESERVED_ROWS {
        (rows - RESERVED_ROWS) as nat
    } else {
        0
    }
}

/// One past the index of the newest visible line: `offset` lines are
/// scrolled out below, none are left when `offset` reaches `len`.
pub open spec fn window_end(len: nat, offset: nat) -> nat {
    if offset <= len {
        (len - offset) as nat
    } else {
        0
    }
}

/// The index of the oldest visible line: at most `cap` lines end at `end`.
pub open spec fn window_start(end: nat, cap: nat) -> nat {
    if end >= cap {
        (end - cap) as nat
    } else {
        0
    }
}

/// A history line as shown: its index, a colon and a space, then the text.
pub open spec fn numbered(index: nat, line: Seq<char>) -> Seq<char> {
    decimal(index) + seq![':', ' '] + line
}

/// A rule of `cols` glyphs.
pub open spec fn rule(cols: nat) -> Seq<char> {
    Seq::new(cols, |_k: int| RULE_GLYPH)
}

/// The status line that reports the offset.
pub open spec fn status_line(offset: nat) -> Seq<char> {
    seq!['O', 'F', 'F', 'S', 'E', 'T', ':', ' '] + decimal(offset)
}

/// The `k`-th row of the window block: blank while `k < pad`, then the
/// visible lines in order, numbered from `start`.
pub open spec fn block_row(lines: Seq<Seq<char>>, start: nat, pad: nat, k: int) -> Seq<char> {
    if k < pad {
        Seq::empty()
    } else {
        numbered((start + k - pad) as nat, lines[start + k - pad])
    }
}

/// The window block: `capacity(rows)` rows, the visible lines at the bottom
/// in chronological order and blank rows above them.
pub open spec fn window_block(lines: Seq<Seq<char>>, offset: nat, rows: nat) -> Seq<Seq<char>> {
    let cap = capacity(rows);
    let end = window_end(lines.len(), offset);
    let start = window_start(end, cap);
    let pad = (cap - (end - start)) as nat;
    Seq::new(cap, |k: int| block_row(lines, start, pad, k))
}

/// Every row drawn for a terminal of `cols` by `rows`: the window block, the
/// rule and the status line.
pub open spec fn rendered_rows(lines: Seq<Seq<char>>, offset: nat, cols: nat, rows: nat) -> Seq<Seq<char>> {
    window_block(lines, offset, rows).push(rule(cols)).push(status_line(offset))
}

/// The window block has exactly as many rows as are left once the reserved
/// ones are taken, whether history lines or blank padding fill them; the
/// rule and the status line follow it.
pub proof fn lemma_block_rows(lines: Seq<Seq<char>>, offset: nat, cols: nat, rows: nat)
    requires
        rows >= RESERVED_ROWS,
    ensures
        window_block(lines, offset, rows).len() == rows - RESERVED_ROWS,
        rendered_rows(lines, offset, cols, rows).len() == rows - RESERVED_ROWS + 2,
        rendered_rows(lines, offset, cols, rows).take(rows - RESERVED_ROWS) == window_block(
            lines,
            offset,
            rows,
        ),
{
    let r = rendered_rows(lines, offset, cols, rows);
    assert(r.take(rows - RESERVED_ROWS) =~= window_block(lines, offset, rows));
}

/// The terminal's size where it could be had, else the default size.
pub fn dimensions_or_default(size: Option<(u16, u16)>) -> (r: (u16, u16))
    ensures
        r == match size {
            Some(s) => s,
            None => (DEFAULT_COLUMNS, DEFAULT_ROWS),
        },
{
    match size {
        Some(s) => s,
        None => (DEFAULT_COLUMNS, DEFAULT_ROWS),
    }
}

fn numbered_line(index: usize, line: &String) -> (r: String)
    ensures
        r@ == numbered(index as nat, line@),
{
    let mut s = decimal_string(index);
    push_char(&mut s, ':');
    push_char(&mut s, ' ');
    s.append(line.as_str());
    assert(s@ =~= numbered(index as nat, line@));
    s
}

fn rule_line(cols: u16) -> (r: String)
    ensures
        r@ == rule(cols as nat),
{
    let mut s = String::new();
    for k in 0..cols
        invariant
            s@ == rule(k as nat),
    {
        push_char(&mut s, RULE_GLYPH);
        assert(s@ =~= rule((k + 1) as nat));
    }
    s
}

fn status(offset: usize) -> (r: String)
    ensures
        r@ == status_line(offset as nat),
{
    proof {
        reveal_strlit("OFFSET: ");
    }
    let mut s = String::from_str("OFFSET: ");
    assert(s@ =~= seq!['O', 'F', 'F', 'S', 'E', 'T', ':', ' ']);
    push_decimal(&mut s, offset);
    s
}

/// The rows drawn for `lines` scrolled by `offset` on a terminal of `cols`
/// by `rows`.
pub fn render_rows(lines: &Vec<String>, offset: usize, cols: u16, rows: u16) -> (r: Vec<String>)
    ensures
        views(r@) == rendered_rows(views(lines@), offset as nat, cols as nat, rows as nat),
{
    let ghost ls = views(lines@);
    let ghost block = window_block(ls, offset as nat, rows as nat);
    let cap: usize = if rows >= RESERVED_ROWS {
        (rows - RESERVED_ROWS) as usize
    } else {
        0
    };
    let len = lines.len();
    let end: usize = if offset <= len {
        len - offset
    } else {
        0
    };
    let start: usize = if end >= cap {
        end - cap
    } else {
        0
    };
    let pad: usize = cap - (end - start);
    let mut out: Vec<String> = Vec::new();
    assert(forall|k: int| 0 <= k < cap ==> #[trigger] block[k] == block_row(ls, start as nat, pad as nat, k));
    for k in 0..pad
        invariant
            pad <= cap,
            block == window_block(ls, offset as nat, rows as nat),
            block.len() == cap,
            views(out@) == block.take(k as int),
            forall|j: int| 0 <= j < cap ==> #[trigger] block[j] == block_row(ls, start as nat, pad as nat, j),
    {
        let ghost prev = out@;
        let blank = String::new();
        out.push(blank);
        assert(views(out@) =~= views(prev).push(blank@));
        assert(views(out@) =~= block.take(k + 1));
    }
    for i in start..end
        invariant
            pad <= cap,
            start <= end <= len,
            len == lines.len(),
            ls == views(lines@),
            pad + (end - start) == cap,
            block == window_block(ls, offset as nat, rows as nat),
            block.len() == cap,
            views(out@) == block.take(pad + i - start),
            forall|j: int| 0 <= j < cap ==> #[trigger] block[j] == block_row(ls, start as nat, pad as nat, j),
    {
        let ghost prev = out@;
        let row = numbered_line(i, &lines[i]);
        out.push(row);
        assert(views(out@) =~= views(prev).push(row@));
        assert(block[pad + i - start] == numbered(i as nat, ls[i as int]));
        assert(views(out@) =~= block.take(pad + i + 1 - start));
    }
    assert(block.take(cap as int) =~= block);
    out.push(rule_line(cols));
    out.push(status(offset));
    assert(views(out@) =~= rendered_rows(ls, offset as nat, cols as nat, rows as nat));
    out
}

} // verus!
