//! The text that clears the terminal and the prompt shown after the window.
use vstd::prelude::*;
use vstd::string::*;

use crate::text::decimal;

verus! {

/// The control sequence that clears the whole screen.
pub open spec fn clear_sequence() -> Seq<char> {
    seq!['\x1B', '[', '2', 'J']
}

/// The control sequence that moves the cursor to one-based `col` and `row`.
pub open spec fn goto_sequence(col: nat, row: nat) -> Seq<char> {
    seq!['\x1B', '['] + decimal(row) + seq![';'] + decimal(col) + seq!['H']
}

/// The prompt shown below the window.
pub open spec fn prompt_text() -> Seq<char> {
    seq!['>', ' ']
}

/// Relies on termion::clear::All, which is displayed as its control sequence.
#[verifier::external_body]
fn clear_all() -> (r: String)
    ensures
        r@ == clear_sequence(),
{
    format!("{}", termion::clear::All)
}

/// Relies on termion::cursor::Goto, which is displayed as its control
/// sequence, the row before the column; it rejects a position of (0, 0).
#[verifier::external_body]
fn goto(col: u16, row: u16) -> (r: String)
    requires
        !(col == 0 && row == 0),
    ensures
        r@ == goto_sequence(col as nat, row as nat),
{
    format!("{}", termion::cursor::Goto(col, row))
}

/// The text that clears the screen and puts the cursor in the top left corner.
pub fn clear_and_position() -> (r: String)
    ensures
        r@ == clear_sequence() + goto_sequence(1, 1),
{
    let mut s = clear_all();
    let g = goto(1, 1);
    s.append(g.as_str());
    s
}

/// The prompt shown below the window.
pub fn prompt() -> (r: String)
    ensures
        r@ == prompt_text(),
{
    proof {
        reveal_strlit("> ");
    }
    let r = String::from_str("> ");
    assert(r@ =~= prompt_text());
    r
}

} // verus!
