//! A terminal scratchpad: an append-only history of lines, a scroll offset,
//! and the arithmetic that maps both onto a fixed-height window of text.
pub mod command;
pub mod history;
pub mod session;
pub mod terminal;
pub mod text;
pub mod viewport;
