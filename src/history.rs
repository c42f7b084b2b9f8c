//! The history file format: lines joined by single newline characters.
use vstd::prelude::*;
use vstd::string::*;

use crate::text::push_char;

verus! {

/// What a list of strings holds, as character sequences.
pub open spec fn views(v: Seq<String>) -> Seq<Seq<char>> {
    v.map_values(|s: String| s@)
}

/// The lines joined with a single `'\n'` between neighbours, none at the end.
pub open spec fn joined(lines: Seq<Seq<char>>) -> Seq<char>
    decreases lines.len(),
{
    if lines.len() == 0 {
        Seq::empty()
    } else if lines.len() == 1 {
        lines[0]
    } else {
        joined(lines.drop_last()) + seq!['\n'] + lines.last()
    }
}

/// `text` cut at every `'\n'`: the segments between them, empty ones included.
/// There is always at least one segment.
pub open spec fn segments(text: Seq<char>) -> Seq<Seq<char>>
    decreases text.len(),
{
    if text.len() == 0 {
        seq![Seq::empty()]
    } else {
        let before = segments(text.drop_last());
        if text.last() == '\n' {
            before.push(Seq::empty())
        } else {
            before.update(before.len() - 1, before.last().push(text.last()))
        }
    }
}

/// The lines that a history file's text holds: none for empty text, else
/// its segments, a trailing empty one included.
pub open spec fn lines_of(text: Seq<char>) -> Seq<Seq<char>> {
    if text.len() == 0 {
        Seq::empty()
    } else {
        segments(text)
    }
}

/// No line holds a newline character.
pub open spec fn no_newlines(lines: Seq<Seq<char>>) -> bool {
    forall|i: int| 0 <= i < lines.len() ==> !(#[trigger] lines[i]).contains('\n')
}

pub proof fn lemma_segments_nonempty(text: Seq<char>)
    ensures
        segments(text).len() >= 1,
    decreases text.len(),
{
    if text.len() > 0 {
        lemma_segments_nonempty(text.drop_last());
    }
}

/// Text without a newline extends the last segment and adds none.
pub proof fn lemma_segments_extend(text: Seq<char>, tail: Seq<char>)
    requires
        !tail.contains('\n'),
    ensures
        segments(text + tail) == segments(text).update(
            segments(text).len() - 1,
            segments(text).last() + tail,
        ),
    decreases tail.len(),
{
    lemma_segments_nonempty(text);
    if tail.len() == 0 {
        assert(text + tail =~= text);
        assert(segments(text).last() + tail =~= segments(text).last());
        assert(segments(text).update(segments(text).len() - 1, segments(text).last())
            =~= segments(text));
    } else {
        let init = tail.drop_last();
        assert(!init.contains('\n')) by {
            if init.contains('\n') {
                let k = choose|k: int| 0 <= k < init.len() && init[k] == '\n';
                assert(tail[k] == '\n');
            }
        }
        assert(tail.last() != '\n') by {
            assert(tail[tail.len() - 1] == tail.last());
        }
        lemma_segments_extend(text, init);
        assert((text + tail).drop_last() =~= text + init);
        assert((text + tail).last() == tail.last());
        let s = segments(text);
        let before = s.update(s.len() - 1, s.last() + init);
        assert(segments(text + tail) == before.update(
            before.len() - 1,
            before.last().push(tail.last()),
        ));
        assert(before.last() == s.last() + init);
        assert((s.last() + init).push(tail.last()) =~= s.last() + tail);
        assert(segments(text + tail) =~= segments(text).update(
            segments(text).len() - 1,
            segments(text).last() + tail,
        ));
    }
}

/// Cutting joined lines at the newlines gives the lines back.
pub proof fn lemma_segments_joined(lines: Seq<Seq<char>>)
    requires
        lines.len() >= 1,
        no_newlines(lines),
    ensures
        segments(joined(lines)) == lines,
    decreases lines.len(),
{
    if lines.len() == 1 {
        lemma_segments_extend(Seq::empty(), lines[0]);
        assert(Seq::<char>::empty() + lines[0] =~= lines[0]);
        assert(segments(lines[0]) =~= lines);
    } else {
        let init = lines.drop_last();
        assert(no_newlines(init)) by {
            assert forall|i: int| 0 <= i < init.len() implies !(#[trigger] init[i]).contains('\n') by {
                assert(init[i] == lines[i]);
            }
        }
        assert(!lines.last().contains('\n')) by {
            assert(lines[lines.len() - 1] == lines.last());
        }
        lemma_segments_joined(init);
        let head = joined(init) + seq!['\n'];
        assert(head.drop_last() =~= joined(init));
        assert(segments(head) == init.push(Seq::empty()));
        lemma_segments_extend(head, lines.last());
        assert(Seq::<char>::empty() + lines.last() =~= lines.last());
        assert(segments(joined(lines)) =~= lines);
    }
}

/// Saving a history and loading the file back yields the same lines, for
/// lines without newline characters. The one exception is a history of a
/// single empty line: its file is empty, and an empty file holds no lines.
pub proof fn lemma_reload_round_trip(lines: Seq<Seq<char>>)
    requires
        no_newlines(lines),
        !(lines.len() == 1 && lines[0].len() == 0),
    ensures
        lines_of(joined(lines)) == lines,
{
    if lines.len() == 0 {
        assert(lines_of(joined(lines)) =~= lines);
    } else {
        lemma_segments_joined(lines);
        if lines.len() == 1 {
            assert(joined(lines) == lines[0]);
        } else {
            assert(joined(lines).len() > 0);
        }
    }
}

/// The text of a history file: the lines joined by single newlines.
pub fn serialize_history(lines: &Vec<String>) -> (r: String)
    ensures
        r@ == joined(views(lines@)),
{
    let mut out = String::new();
    let n = lines.len();
    for i in 0..n
        invariant
            n == lines.len(),
            out@ == joined(views(lines@).take(i as int)),
    {
        let ghost ls = views(lines@);
        assert(ls.take(i + 1).drop_last() =~= ls.take(i as int));
        if i > 0 {
            push_char(&mut out, '\n');
        } else {
            assert(out@ =~= Seq::<char>::empty());
        }
        out.append(lines[i].as_str());
        assert(ls.take(i + 1).last() == lines@[i as int]@);
        assert(out@ =~= joined(ls.take(i + 1)));
    }
    assert(views(lines@).take(n as int) =~= views(lines@));
    out
}

/// The lines held by the text of a history file. Empty text holds none;
/// otherwise every `'\n'` ends a line, and what follows the last one is the
/// final line, empty where the text ends in a newline.
pub fn parse_history(text: &str) -> (r: Vec<String>)
    ensures
        views(r@) == lines_of(text@),
{
    let mut done: Vec<String> = Vec::new();
    let mut current = String::new();
    let ghost mut seen: Seq<char> = Seq::empty();
    for c in it: text.chars()
        invariant
            it.seq() == text@,
            seen == text@.take(it.index() as int),
            views(done@).push(current@) == segments(seen),
    {
        proof {
            lemma_segments_nonempty(seen);
        }
        let ghost prev = seen;
        proof {
            seen = seen.push(c);
            assert(seen.drop_last() =~= prev);
        }
        if c == '\n' {
            let line = current;
            done.push(line);
            current = String::new();
            assert(views(done@).push(current@) =~= segments(seen));
        } else {
            push_char(&mut current, c);
            assert(views(done@).push(current@) =~= segments(seen));
        }
    }
    assert(seen =~= text@);
    if text.is_empty() {
        Vec::new()
    } else {
        done.push(current);
        assert(views(done@) =~= lines_of(text@));
        done
    }
}

} // verus!
