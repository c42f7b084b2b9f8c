use scratchpad::command::{classify, classify_trimmed, command_of_folded, Command, Input};
use scratchpad::history::{parse_history, serialize_history};
use scratchpad::session::{Outcome, Session};
use scratchpad::terminal::{clear_and_position, prompt};
use scratchpad::text::decimal_string;
use scratchpad::viewport::{dimensions_or_default, render_rows};

fn strings(v: &[&str]) -> Vec<String> {
    v.iter().map(|s| s.to_string()).collect()
}

#[test]
fn reload_round_trip() {
    let lines = strings(&["alpha", "", "beta gamma", "  spaced  "]);
    let text = serialize_history(&lines);
    assert_eq!(text, "alpha\n\nbeta gamma\n  spaced  ");
    assert_eq!(parse_history(&text), lines);
}

#[test]
fn reload_round_trip_empty_history() {
    let lines: Vec<String> = Vec::new();
    let text = serialize_history(&lines);
    assert_eq!(text, "");
    assert_eq!(parse_history(&text), lines);
}

#[test]
fn single_empty_line_reloads_as_no_lines() {
    let text = serialize_history(&strings(&[""]));
    assert_eq!(text, "");
    assert!(parse_history(&text).is_empty());
}

#[test]
fn parse_keeps_trailing_empty_line() {
    assert_eq!(parse_history("a\nb\n"), strings(&["a", "b", ""]));
    assert_eq!(parse_history("\n"), strings(&["", ""]));
    assert_eq!(parse_history("one"), strings(&["one"]));
}

#[test]
fn append_grows_by_one() {
    let mut s = Session::new(strings(&["a", "b"]), 0);
    s.add("x".to_string());
    assert_eq!(s.history().len(), 3);
    assert_eq!(s.history().last().unwrap(), "x");
    assert_eq!(s.offset(), 0);
}

#[test]
fn content_is_trimmed_before_append() {
    let mut s = Session::new(Vec::new(), 0);
    assert_eq!(s.handle_line("   hello world \t"), Outcome::Persist);
    assert_eq!(s.history(), &strings(&["hello world"]));
}

#[test]
fn commands_are_case_insensitive() {
    let mut s = Session::new(strings(&["a", "b", "c"]), 0);
    assert_eq!(s.handle_line("/UP"), Outcome::Redraw);
    assert_eq!(s.offset(), 1);
    assert_eq!(s.handle_line("  /U  "), Outcome::Redraw);
    assert_eq!(s.offset(), 2);
    assert_eq!(s.handle_line("/Down"), Outcome::Redraw);
    assert_eq!(s.offset(), 1);
    assert_eq!(s.handle_line("/d"), Outcome::Redraw);
    assert_eq!(s.offset(), 0);
    assert_eq!(s.handle_line("/EXIT"), Outcome::Exit);
    assert_eq!(s.handle_line("/e"), Outcome::Exit);
    assert_eq!(s.history().len(), 3);
}

#[test]
fn unknown_command_changes_nothing() {
    let mut s = Session::new(strings(&["a", "b"]), 1);
    assert_eq!(s.handle_line("/bogus"), Outcome::Redraw);
    assert_eq!(s.handle_line("/"), Outcome::Redraw);
    assert_eq!(s.offset(), 1);
    assert_eq!(s.history(), &strings(&["a", "b"]));
}

#[test]
fn offset_clamps_at_both_ends() {
    let mut s = Session::new(strings(&["a", "b"]), 0);
    s.up(1);
    s.up(1);
    s.up(1);
    assert_eq!(s.offset(), 2);
    s.up(usize::MAX);
    assert_eq!(s.offset(), 2);
    s.down(1);
    assert_eq!(s.offset(), 1);
    s.down(5);
    assert_eq!(s.offset(), 0);
    s.down(1);
    assert_eq!(s.offset(), 0);
}

#[test]
fn up_on_empty_history_stays_at_zero() {
    let mut s = Session::new(Vec::new(), 0);
    s.up(1);
    assert_eq!(s.offset(), 0);
}

#[test]
fn block_has_capacity_rows() {
    let lines: Vec<String> = (0..10).map(|i| format!("l{}", i)).collect();
    for rows in 3u16..20 {
        let drawn = render_rows(&lines, 0, 4, rows);
        assert_eq!(drawn.len(), rows as usize - 3 + 2);
    }
    let few = strings(&["x"]);
    assert_eq!(render_rows(&few, 0, 4, 8).len(), 7);
}

#[test]
fn small_terminal_shows_no_lines() {
    let lines = strings(&["a", "b"]);
    assert_eq!(render_rows(&lines, 0, 3, 3), strings(&["\u{2500}\u{2500}\u{2500}", "OFFSET: 0"]));
    assert_eq!(render_rows(&lines, 0, 3, 1), strings(&["\u{2500}\u{2500}\u{2500}", "OFFSET: 0"]));
    assert_eq!(render_rows(&lines, 0, 0, 0), strings(&["", "OFFSET: 0"]));
}

#[test]
fn empty_history_renders_at_default_size() {
    let mut s = Session::new(parse_history(""), 0);
    let (cols, rows) = dimensions_or_default(None);
    assert_eq!((cols, rows), (80, 24));
    let text = s.render(cols, rows);
    let expected = format!("{}{}\nOFFSET: 0", "\n".repeat(21), "\u{2500}".repeat(80));
    assert_eq!(text, expected);
    assert_eq!(s.handle_line("exit"), Outcome::Persist);
}

#[test]
fn exit_on_empty_history_writes_nothing() {
    let mut s = Session::new(parse_history(""), 0);
    assert_eq!(s.handle_line("/exit"), Outcome::Exit);
    assert!(s.history().is_empty());
    assert_eq!(serialize_history(s.history()), "");
}

#[test]
fn three_lines_padded_on_ten_rows() {
    let s = Session::new(parse_history("a\nb\nc"), 0);
    let text = s.render(5, 10);
    let rule = "\u{2500}".repeat(5);
    assert_eq!(text, format!("\n\n\n\n0: a\n1: b\n2: c\n{}\nOFFSET: 0", rule));
    let drawn = render_rows(s.history(), 0, 5, 10);
    assert_eq!(drawn, strings(&["", "", "", "", "0: a", "1: b", "2: c", &rule, "OFFSET: 0"]));
}

#[test]
fn typed_line_then_exit_saves_it() {
    let mut s = Session::new(parse_history(""), 0);
    assert_eq!(s.handle_line("hello"), Outcome::Persist);
    assert_eq!(serialize_history(s.history()), "hello");
    assert_eq!(s.handle_line("/exit"), Outcome::Exit);
    assert_eq!(serialize_history(s.history()), "hello");
}

#[test]
fn scrolled_up_three_of_fifty() {
    let lines: Vec<String> = (0..50).map(|i| format!("line {}", i)).collect();
    let mut s = Session::new(lines.clone(), 0);
    for _ in 0..3 {
        assert_eq!(s.handle_line("/up"), Outcome::Redraw);
    }
    assert_eq!(s.offset(), 3);
    let drawn = render_rows(s.history(), s.offset(), 80, 24);
    assert_eq!(drawn.len(), 23);
    for k in 0..21 {
        assert_eq!(drawn[k], format!("{}: line {}", 26 + k, 26 + k));
    }
    assert_eq!(drawn[22], "OFFSET: 3");
}

#[test]
fn offset_at_history_length_shows_blank_block() {
    let lines = strings(&["a", "b"]);
    let drawn = render_rows(&lines, 2, 2, 6);
    assert_eq!(drawn, strings(&["", "", "", "\u{2500}\u{2500}", "OFFSET: 2"]));
    let beyond = render_rows(&lines, 9, 2, 6);
    assert_eq!(beyond, strings(&["", "", "", "\u{2500}\u{2500}", "OFFSET: 9"]));
}

#[test]
fn window_keeps_newest_lines_when_full() {
    let lines = strings(&["a", "b", "c", "d", "e"]);
    let drawn = render_rows(&lines, 1, 1, 5);
    assert_eq!(drawn, strings(&["2: c", "3: d", "\u{2500}", "OFFSET: 1"]));
}

#[test]
fn terminal_size_kept_when_known() {
    assert_eq!(dimensions_or_default(Some((120, 40))), (120, 40));
}

#[test]
fn clear_sequence_text() {
    assert_eq!(clear_and_position(), "\x1b[2J\x1b[1;1H");
    assert_eq!(prompt(), "> ");
}

#[test]
fn decimal_numerals() {
    assert_eq!(decimal_string(0), "0");
    assert_eq!(decimal_string(7), "7");
    assert_eq!(decimal_string(10), "10");
    assert_eq!(decimal_string(1234509), "1234509");
    assert_eq!(decimal_string(usize::MAX), usize::MAX.to_string());
}

#[test]
fn command_words() {
    assert_eq!(command_of_folded("exit"), Command::Exit);
    assert_eq!(command_of_folded("e"), Command::Exit);
    assert_eq!(command_of_folded("up"), Command::Up);
    assert_eq!(command_of_folded("u"), Command::Up);
    assert_eq!(command_of_folded("down"), Command::Down);
    assert_eq!(command_of_folded("d"), Command::Down);
    assert_eq!(command_of_folded("EXIT"), Command::Unknown);
    assert_eq!(command_of_folded("ex"), Command::Unknown);
    assert_eq!(command_of_folded(""), Command::Unknown);
}

#[test]
fn classify_lines() {
    assert!(matches!(classify_trimmed("/Down"), Input::Command(Command::Down)));
    assert!(matches!(classify_trimmed("up"), Input::Content(ref s) if s == "up"));
    assert!(matches!(classify("  /QUIT "), Input::Command(Command::Unknown)));
    assert!(matches!(classify("  note  "), Input::Content(ref s) if s == "note"));
    assert!(matches!(classify("   "), Input::Content(ref s) if s.is_empty()));
}
