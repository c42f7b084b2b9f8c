//! The state of one sitting: the history and how far it is scrolled.
use vstd::prelude::*;

use crate::command::{classify, command_named, lower_of, trimmed_of, Command, Input, COMMAND_MARKER};
use crate::history::{joined, serialize_history, views};
use crate::viewport::{render_rows, rendered_rows};

verus! {

/// How many lines one up or down command scrolls.
pub const SCROLL_STEP: usize = 1;

/// What the driver of a session does after a line of input was handled.
#[derive(Clone, Copy, Debug, PartialEq, Eq, Structural)]
pub enum Outcome {
    /// The session is over.
    Exit,
    /// Draw the window again.
    Redraw,
    /// A line was added: save the history, then draw the window again.
    Persist,
}

/// The history of lines, oldest first, and the scroll offset: how many of the
/// newest lines are scrolled out of view below the window.
#[derive(Debug)]
pub struct Session {
    history: Vec<String>,
    offset: usize,
}

/// The offset after scrolling up by `amount` from `offset`: it grows by
/// `amount` and stops at `len`.
pub open spec fn scrolled_up(offset: nat, amount: nat, len: nat) -> nat {
    if offset + amount <= len {
        offset + amount
    } else {
        len
    }
}

/// The offset after scrolling down by `amount` from `offset`: it shrinks by
/// `amount` and stops at 0.
pub open spec fn scrolled_down(offset: nat, amount: nat) -> nat {
    if offset >= amount {
        (offset - amount) as nat
    } else {
        0
    }
}

/// The offset after each of `commands` in turn, starting from `offset`, for a
/// history of `len` lines; commands other than up and down leave it.
pub open spec fn offset_after(offset: nat, commands: Seq<Command>, len: nat) -> nat
    decreases commands.len(),
{
    if commands.len() == 0 {
        offset
    } else {
        let before = offset_after(offset, commands.drop_last(), len);
        match commands.last() {
            Command::Up => scrolled_up(before, SCROLL_STEP as nat, len),
            Command::Down => scrolled_down(before, SCROLL_STEP as nat),
            _ => before,
        }
    }
}

/// Whatever up and down commands come, the offset stays within
/// `[0, len]`; up at `len` stays at `len`, and down at 0 stays at 0.
pub proof fn lemma_offset_clamped(offset: nat, commands: Seq<Command>, len: nat, amount: nat)
    requires
        offset <= len,
    ensures
        offset_after(offset, commands, len) <= len,
        scrolled_up(offset, amount, len) <= len,
        scrolled_down(offset, amount) <= len,
        scrolled_up(len, amount, len) == len,
        scrolled_down(0, amount) == 0,
    decreases commands.len(),
{
    if commands.len() > 0 {
        lemma_offset_clamped(offset, commands.drop_last(), len, amount);
    }
}

impl Session {
    /// The lines of the history, oldest first.
    pub closed spec fn lines(&self) -> Seq<Seq<char>> {
        views(self.history@)
    }

    /// The scroll offset.
    pub closed spec fn scroll(&self) -> nat {
        self.offset as nat
    }

    /// The offset never passes the length of the history.
    pub open spec fn wf(&self) -> bool {
        self.scroll() <= self.lines().len()
    }

    /// `new` is `old` after `command`, which the session answered with `r`.
    pub open spec fn after_command(old: Session, new: Session, command: Command, r: Outcome) -> bool {
        &&& new.lines() == old.lines()
        &&& match command {
            Command::Exit => r == Outcome::Exit && new.scroll() == old.scroll(),
            Command::Up => r == Outcome::Redraw && new.scroll() == scrolled_up(
                old.scroll(),
                SCROLL_STEP as nat,
                old.lines().len(),
            ),
            Command::Down => r == Outcome::Redraw && new.scroll() == scrolled_down(
                old.scroll(),
                SCROLL_STEP as nat,
            ),
            Command::Unknown => r == Outcome::Redraw && new.scroll() == old.scroll(),
        }
    }

    /// `new` is `old` with `line` added at the end, answered with `r`.
    pub open spec fn after_content(old: Session, new: Session, line: Seq<char>, r: Outcome) -> bool {
        &&& new.lines() == old.lines().push(line)
        &&& new.scroll() == old.scroll()
        &&& r == Outcome::Persist
    }

    /// A session over `history`, scrolled by `offset`.
    pub fn new(history: Vec<String>, offset: usize) -> (r: Session)
        requires
            offset <= history.len(),
        ensures
            r.wf(),
            r.lines() == views(history@),
            r.scroll() == offset,
    {
        Session { history, offset }
    }

    /// The history, oldest line first.
    pub fn history(&self) -> (r: &Vec<String>)
        ensures
            views(r@) == self.lines(),
    {
        &self.history
    }

    /// The scroll offset.
    pub fn offset(&self) -> (r: usize)
        ensures
            r == self.scroll(),
    {
        self.offset
    }

    /// Scrolls `amount` lines further into the past, stopping at the oldest.
    pub fn up(&mut self, amount: usize)
        requires
            old(self).wf(),
        ensures
            final(self).wf(),
            final(self).lines() == old(self).lines(),
            final(self).scroll() == scrolled_up(old(self).scroll(), amount as nat, old(self).lines().len()),
    {
        let len = self.history.len();
        if amount <= len - self.offset {
            self.offset = self.offset + amount;
        } else {
            self.offset = len;
        }
    }

    /// Scrolls `amount` lines back towards the newest, stopping at 0.
    pub fn down(&mut self, amount: usize)
        requires
            old(self).wf(),
        ensures
            final(self).wf(),
            final(self).lines() == old(self).lines(),
            final(self).scroll() == scrolled_down(old(self).scroll(), amount as nat),
    {
        self.offset = self.offset.saturating_sub(amount);
    }

    /// Adds `line` at the end of the history; the offset stays.
    pub fn add(&mut self, line: String)
        requires
            old(self).wf(),
        ensures
            final(self).wf(),
            final(self).lines() == old(self).lines().push(line@),
            final(self).lines().len() == old(self).lines().len() + 1,
            final(self).lines().last() == line@,
            final(self).scroll() == old(self).scroll(),
    {
        self.history.push(line);
        assert(views(self.history@) =~= views(old(self).history@).push(line@));
    }

    /// Does what a classified line of input asks for.
    pub fn apply(&mut self, input: Input) -> (r: Outcome)
        requires
            old(self).wf(),
        ensures
            final(self).wf(),
            match input {
                Input::Command(c) => Session::after_command(*old(self), *final(self), c, r),
                Input::Content(s) => Session::after_content(*old(self), *final(self), s@, r),
            },
    {
        match input {
            Input::Command(Command::Exit) => Outcome::Exit,
            Input::Command(Command::Up) => {
                self.up(SCROLL_STEP);
                Outcome::Redraw
            },
            Input::Command(Command::Down) => {
                self.down(SCROLL_STEP);
                Outcome::Redraw
            },
            Input::Command(Command::Unknown) => Outcome::Redraw,
            Input::Content(s) => {
                self.add(s);
                Outcome::Persist
            },
        }
    }

    /// Handles one line of input: trimmed, it is a command when it starts
    /// with the marker, named by the lower-cased rest, and content otherwise.
    pub fn handle_line(&mut self, line: &str) -> (r: Outcome)
        requires
            old(self).wf(),
        ensures
            final(self).wf(),
            ({
                let t = trimmed_of(line@);
                if t.len() > 0 && t[0] == COMMAND_MARKER {
                    Session::after_command(
                        *old(self),
                        *final(self),
                        command_named(lower_of(t.drop_first())),
                        r,
                    )
                } else {
                    Session::after_content(*old(self), *final(self), t, r)
                }
            }),
    {
        let input = classify(line);
        self.apply(input)
    }

    /// The text drawn for a terminal of `cols` by `rows`: the rows of the
    /// window, each but the last followed by a newline.
    pub fn render(&self, cols: u16, rows: u16) -> (r: String)
        ensures
            r@ == joined(rendered_rows(self.lines(), self.scroll(), cols as nat, rows as nat)),
    {
        let drawn = render_rows(&self.history, self.offset, cols, rows);
        serialize_history(&drawn)
    }
}

} // verus!
