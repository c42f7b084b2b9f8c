//! Telling commands from content in a line of input.
use vstd::prelude::*;
use vstd::string::*;

verus! {

/// What a line of input asks for once it is known to be a command.
#[derive(Clone, Copy, Debug, PartialEq, Eq, Structural)]
pub enum Command {
    Exit,
    Up,
    Down,
    Unknown,
}

/// A classified line of input: a command, or content for the history.
#[derive(Debug)]
pub enum Input {
    Command(Command),
    Content(String),
}

/// The character that marks a line as a command.
pub const COMMAND_MARKER: char = '/';

/// What str::trim makes of a string.
pub uninterp spec fn trimmed_of(s: Seq<char>) -> Seq<char>;

/// What str::to_lowercase makes of a string.
pub uninterp spec fn lower_of(s: Seq<char>) -> Seq<char>;

/// Relies on str::trim: leading and trailing whitespace removed, a result
/// that depends on the characters alone.
#[verifier::external_body]
fn trim(s: &str) -> (r: &str)
    ensures
        r@ == trimmed_of(s@),
{
    s.trim()
}

/// Relies on str::to_lowercase: the lower-case form, a result that depends on
/// the characters alone.
#[verifier::external_body]
fn lowercase(s: &str) -> (r: String)
    ensures
        r@ == lower_of(s@),
{
    s.to_lowercase()
}

/// The command that a lower-cased command word names.
pub open spec fn command_named(word: Seq<char>) -> Command {
    if word == seq!['e'] || word == seq!['e', 'x', 'i', 't'] {
        Command::Exit
    } else if word == seq!['u'] || word == seq!['u', 'p'] {
        Command::Up
    } else if word == seq!['d'] || word == seq!['d', 'o', 'w', 'n'] {
        Command::Down
    } else {
        Command::Unknown
    }
}

/// `r` is what a trimmed line `t` is: a command when `t` starts with the
/// marker, named by the lower-cased rest; content `t` otherwise.
pub open spec fn classified_as(t: Seq<char>, r: Input) -> bool {
    if t.len() > 0 && t[0] == COMMAND_MARKER {
        r == Input::Command(command_named(lower_of(t.drop_first())))
    } else {
        r is Content && r->Content_0@ == t
    }
}

fn same_chars(a: &str, b: &str) -> (r: bool)
    ensures
        r == (a@ == b@),
{
    let n = a.unicode_len();
    if n != b.unicode_len() {
        return false;
    }
    let mut i: usize = 0;
    while i < n
        invariant
            n == a@.len(),
            n == b@.len(),
            i <= n,
            forall|k: int| 0 <= k < i ==> a@[k] == b@[k],
        decreases n - i,
    {
        if a.get_char(i) != b.get_char(i) {
            return false;
        }
        i = i + 1;
    }
    assert(a@ =~= b@);
    true
}

/// The command named by an already lower-cased command word.
pub fn command_of_folded(word: &str) -> (r: Command)
    ensures
        r == command_named(word@),
{
    proof {
        reveal_strlit("e");
        reveal_strlit("exit");
        reveal_strlit("u");
        reveal_strlit("up");
        reveal_strlit("d");
        reveal_strlit("down");
    }
    assert("e"@ =~= seq!['e']);
    assert("exit"@ =~= seq!['e', 'x', 'i', 't']);
    assert("u"@ =~= seq!['u']);
    assert("up"@ =~= seq!['u', 'p']);
    assert("d"@ =~= seq!['d']);
    assert("down"@ =~= seq!['d', 'o', 'w', 'n']);
    if same_chars(word, "e") || same_chars(word, "exit") {
        Command::Exit
    } else if same_chars(word, "u") || same_chars(word, "up") {
        Command::Up
    } else if same_chars(word, "d") || same_chars(word, "down") {
        Command::Down
    } else {
        Command::Unknown
    }
}

/// Classifies a line that has already been trimmed.
pub fn classify_trimmed(t: &str) -> (r: Input)
    ensures
        classified_as(t@, r),
{
    let n = t.unicode_len();
    if n > 0 && t.get_char(0) == COMMAND_MARKER {
        let rest = t.substring_char(1, n);
        assert(rest@ =~= t@.drop_first());
        let word = lowercase(rest);
        Input::Command(command_of_folded(word.as_str()))
    } else {
        Input::Content(String::from_str(t))
    }
}

/// Classifies a line of input: it is trimmed, then read as a command or as
/// content.
pub fn classify(line: &str) -> (r: Input)
    ensures
        classified_as(trimmed_of(line@), r),
{
    classify_trimmed(trim(line))
}

} // verus!
