//! Splitting a text into its lines.

use vstd::prelude::*;
use vstd::std_specs::iter::IteratorSpec;

verus! {

/// `String::push` appends one character to the end of the string.
pub assume_specification[ String::push ](text: &mut String, c: char)
    ensures
        final(text)@ == old(text)@.push(c),
;

/// The number of characters of `text` that stand before its first line feed;
/// the length of `text` where it holds none.
pub open spec fn line_end(text: Seq<char>) -> nat
    decreases text.len(),
{
    if text.len() > 0 && text[0] != '\n' {
        1 + line_end(text.drop_first())
    } else {
        0
    }
}

/// `line` without the carriage return that may stand at its end.
pub open spec fn without_cr(line: Seq<char>) -> Seq<char> {
    if line.len() > 0 && line.last() == '\r' {
        line.drop_last()
    } else {
        line
    }
}

/// The lines of a text. Each line feed ends a line, and so does the end of a
/// text that does not end in a line feed. A carriage return just before the
/// line feed belongs to the line ending. The line endings are not part of the
/// lines.
pub open spec fn lines_of(text: Seq<char>) -> Seq<Seq<char>>
    decreases text.len(),
{
    if text.len() == 0 {
        Seq::empty()
    } else {
        let end = line_end(text);
        if end >= text.len() {
            seq![text]
        } else {
            seq![without_cr(text.take(end as int))] + lines_of(text.skip(end as int + 1))
        }
    }
}

/// Whether `text` holds no line feed.
pub open spec fn is_one_line(text: Seq<char>) -> bool {
    forall|i: int| 0 <= i < text.len() ==> #[trigger] text[i] != '\n'
}

/// A text that starts with characters other than line feeds has its first
/// line end after them, where the rest has it.
pub proof fn lemma_line_end_after(start: Seq<char>, rest: Seq<char>)
    requires
        is_one_line(start),
    ensures
        line_end(start + rest) == start.len() + line_end(rest),
    decreases start.len(),
{
    if start.len() > 0 {
        assert((start + rest).drop_first() =~= start.drop_first() + rest);
        assert(forall|i: int|
            0 <= i < start.drop_first().len() ==> #[trigger] start.drop_first()[i] != '\n');
        lemma_line_end_after(start.drop_first(), rest);
    }
}

/// The lines of a text that starts with a whole line: that line, then the
/// lines of what follows its line feed.
pub proof fn lemma_lines_of_first_line(line: Seq<char>, rest: Seq<char>)
    requires
        is_one_line(line),
    ensures
        lines_of(line + seq!['\n'] + rest) == seq![without_cr(line)] + lines_of(rest),
{
    let tail = seq!['\n'] + rest;
    let text = line + seq!['\n'] + rest;
    assert(text =~= line + tail);
    lemma_line_end_after(line, tail);
    assert(text.take(line.len() as int) =~= line);
    assert(text.skip(line.len() as int + 1) =~= rest);
}

/// A text without a line feed is one line, unless it is empty.
pub proof fn lemma_lines_of_one_line(text: Seq<char>)
    requires
        is_one_line(text),
    ensures
        lines_of(text) == if text.len() == 0 {
            Seq::<Seq<char>>::empty()
        } else {
            seq![text]
        },
{
    lemma_line_end_after(text, Seq::empty());
}

/// The part of a line that was read so far: what was kept of it, and the
/// carriage return that is held back until the next character shows whether
/// it belongs to the line ending.
spec fn line_so_far(kept: Seq<char>, pending_cr: bool) -> Seq<char> {
    if pending_cr {
        kept.push('\r')
    } else {
        kept
    }
}

/// The lines of `text`, in their order.
pub fn split_lines(text: &str) -> (lines: Vec<String>)
    ensures
        lines.deep_view() == lines_of(text@),
{
    broadcast use vstd::string::group_string_axioms;

    let mut lines: Vec<String> = Vec::new();
    let mut current = String::new();
    let mut pending_cr = false;
    let mut rest = text.chars();
    loop
        invariant_except_break
            rest.decrease() is Some,
        invariant
            is_one_line(current@),
            !pending_cr && current@.len() > 0 ==> current@.last() != '\r',
            lines.deep_view() + lines_of(line_so_far(current@, pending_cr) + rest.remaining())
                == lines_of(text@),
        ensures
            rest.remaining().len() == 0,
        decreases rest.decrease()->0,
    {
        let ghost before = rest.remaining();
        let ghost line = line_so_far(current@, pending_cr);
        match rest.next() {
            Some(c) => {
                if c == '\n' {
                    proof {
                        assert(line + before =~= line + seq!['\n'] + rest.remaining());
                        lemma_lines_of_first_line(line, rest.remaining());
                        assert(without_cr(line) =~= current@);
                    }
                    lines.push(current);
                    current = String::new();
                    pending_cr = false;
                    assert(line_so_far(current@, pending_cr) + rest.remaining()
                        =~= rest.remaining());
                } else {
                    if pending_cr {
                        current.push('\r');
                    }
                    if c == '\r' {
                        pending_cr = true;
                    } else {
                        current.push(c);
                        pending_cr = false;
                    }
                    assert(line_so_far(current@, pending_cr) + rest.remaining() =~= line
                        + before);
                }
            },
            None => {
                break ;
            },
        }
    }
    let ghost line = line_so_far(current@, pending_cr);
    if pending_cr {
        current.push('\r');
    }
    proof {
        assert(current@ =~= line);
        lemma_lines_of_one_line(line);
    }
    if !current.as_str().is_empty() {
        lines.push(current);
    }
    lines
}

} // verus!
