//! The wording of a commit's message as the user is shown it.

use vstd::prelude::*;
use vstd::string::StrSliceExecFns;
use vstd::string::StringExecFns;

use crate::text::texts_of;

verus! {

/// The character that ends a line.
pub open spec fn newline() -> char {
    '\n'
}

/// The character that may stand before the end of a line and then belongs to the ending.
pub open spec fn carriage_return() -> char {
    '\r'
}

/// `end` is where the first line of `text` ends: at its first newline, or at the end of the
/// text where it holds none.
pub open spec fn is_first_line_end(text: Seq<char>, end: int) -> bool {
    &&& 0 <= end <= text.len()
    &&& forall|j: int| 0 <= j < end ==> text[j] != newline()
    &&& end == text.len() || text[end] == newline()
}

/// Where the first line of `text` ends.
pub open spec fn first_line_end(text: Seq<char>) -> int
    decreases text.len(),
{
    if text.len() == 0 || text[0] == newline() {
        0
    } else {
        1 + first_line_end(text.drop_first())
    }
}

/// `line` without the carriage return at its end, if it has one there.
pub open spec fn without_return(line: Seq<char>) -> Seq<char> {
    if line.len() > 0 && line.last() == carriage_return() {
        line.drop_last()
    } else {
        line
    }
}

/// The lines of `text`. A line ends at a newline, or at a carriage return with a newline
/// behind it; neither belongs to the line. What stands behind the last newline is a line
/// too, unless nothing stands there.
pub open spec fn lines_of(text: Seq<char>) -> Seq<Seq<char>>
    decreases text.len(),
{
    if text.len() == 0 {
        Seq::empty()
    } else {
        let end = first_line_end(text);
        if end < 0 || end >= text.len() {
            seq![text]
        } else {
            seq![without_return(text.subrange(0, end))] + lines_of(
                text.subrange(end + 1, text.len() as int),
            )
        }
    }
}

/// The first line of a message; the empty text for a message without lines.
pub open spec fn summary_of(lines: Seq<Seq<char>>) -> Seq<char> {
    if lines.len() == 0 {
        Seq::empty()
    } else {
        lines[0]
    }
}

/// Each of `lines` behind two spaces and before a newline, one after the other.
pub open spec fn indented(lines: Seq<Seq<char>>) -> Seq<char>
    decreases lines.len(),
{
    if lines.len() == 0 {
        Seq::empty()
    } else {
        indented(lines.drop_last()) + seq![' ', ' '] + lines.last() + seq![newline()]
    }
}

/// The lines of a message behind its first, each indented.
pub open spec fn details_of(lines: Seq<Seq<char>>) -> Seq<char> {
    if lines.len() == 0 {
        Seq::empty()
    } else {
        indented(lines.drop_first())
    }
}

/// There is one place where the first line ends, and [`first_line_end`] names it.
pub proof fn lemma_first_line_end(text: Seq<char>, end: int)
    requires
        is_first_line_end(text, end),
    ensures
        first_line_end(text) == end,
    decreases text.len(),
{
    if text.len() == 0 || text[0] == newline() {
        if end > 0 {
            assert(text[0] != newline());
        }
    } else {
        let rest = text.drop_first();
        assert(is_first_line_end(rest, end - 1)) by {
            assert forall|j: int| 0 <= j < end - 1 implies rest[j] != newline() by {
                assert(rest[j] == text[j + 1]);
            }
        }
        lemma_first_line_end(rest, end - 1);
    }
}

/// The lines of a text whose first line ends at a newline at `end`: that line, and then
/// the lines of what stands behind the newline.
pub proof fn lemma_lines_of_step(text: Seq<char>, end: int)
    requires
        is_first_line_end(text, end),
        end < text.len(),
    ensures
        lines_of(text) == seq![without_return(text.subrange(0, end))] + lines_of(
            text.subrange(end + 1, text.len() as int),
        ),
{
    lemma_first_line_end(text, end);
}

/// The lines of a text without a newline: the text itself, or none where it is empty.
pub proof fn lemma_lines_of_last(text: Seq<char>)
    requires
        is_first_line_end(text, text.len() as int),
    ensures
        lines_of(text) == if text.len() == 0 {
            Seq::<Seq<char>>::empty()
        } else {
            seq![text]
        },
{
    lemma_first_line_end(text, text.len() as int);
}

/// The lines of a message, in their order.
pub fn message_lines(message: &str) -> (lines: Vec<String>)
    ensures
        texts_of(lines@) == lines_of(message@),
{
    let total = message.unicode_len();
    let mut lines: Vec<String> = Vec::new();
    let mut start: usize = 0;
    let mut seen: usize = 0;
    let mut after_return = false;
    proof {
        assert(message@.subrange(0, total as int) =~= message@);
        assert(texts_of(lines@) + lines_of(message@) =~= lines_of(message@));
    }
    for c in it: message.chars()
        invariant
            total == message@.len(),
            it.seq() == message@,
            seen == it.index(),
            start <= seen,
            forall|j: int| start <= j < seen ==> message@[j] != newline(),
            after_return == (start < seen && message@[seen - 1] == carriage_return()),
            lines_of(message@) == texts_of(lines@) + lines_of(
                message@.subrange(start as int, total as int),
            ),
    {
        if c == '\n' {
            let end = if after_return {
                seen - 1
            } else {
                seen
            };
            let line = message.substring_char(start, end);
            proof {
                let rest = message@.subrange(start as int, total as int);
                assert(is_first_line_end(rest, seen - start)) by {
                    assert forall|j: int| 0 <= j < seen - start implies rest[j] != newline() by {
                        assert(rest[j] == message@[start + j]);
                    }
                }
                lemma_lines_of_step(rest, seen - start);
                let whole = rest.subrange(0, seen - start);
                assert(whole =~= message@.subrange(start as int, seen as int));
                if after_return {
                    assert(whole.last() == carriage_return());
                    assert(whole.drop_last() =~= line@);
                } else {
                    assert(whole =~= line@);
                }
                assert(without_return(whole) == line@);
                assert(rest.subrange(seen - start + 1, rest.len() as int) =~= message@.subrange(
                    seen + 1,
                    total as int,
                ));
            }
            let ghost before = lines@;
            lines.push(String::from_str(line));
            proof {
                assert(texts_of(lines@) =~= texts_of(before) + seq![line@]);
            }
            start = seen + 1;
        }
        after_return = c == '\r';
        seen = seen + 1;
    }
    let ghost rest = message@.subrange(start as int, total as int);
    proof {
        assert(is_first_line_end(rest, rest.len() as int)) by {
            assert forall|j: int| 0 <= j < rest.len() implies rest[j] != newline() by {
                assert(rest[j] == message@[start + j]);
            }
        }
        lemma_lines_of_last(rest);
    }
    if start < total {
        let line = message.substring_char(start, total);
        let ghost before = lines@;
        lines.push(String::from_str(line));
        proof {
            assert(line@ =~= rest);
            assert(texts_of(lines@) =~= texts_of(before) + seq![line@]);
        }
    } else {
        assert(texts_of(lines@) + Seq::<Seq<char>>::empty() =~= texts_of(lines@));
    }
    lines
}

/// A commit's message as the user is shown it: the first line by itself, and the lines
/// behind it, each indented, as one text.
pub fn message_layout(message: &str) -> (layout: (String, String))
    ensures
        layout.0@ == summary_of(lines_of(message@)),
        layout.1@ == details_of(lines_of(message@)),
{
    let lines = message_lines(message);
    let mut summary = String::new();
    let mut details = String::new();
    let mut i: usize = 0;
    while i < lines.len()
        invariant
            i <= lines.len(),
            texts_of(lines@) == lines_of(message@),
            summary@ == summary_of(texts_of(lines@).subrange(0, i as int)),
            details@ == details_of(texts_of(lines@).subrange(0, i as int)),
        decreases lines.len() - i,
    {
        let ghost all = texts_of(lines@);
        proof {
            assert(all[i as int] == lines@[i as int]@);
            assert(all.subrange(0, i + 1).drop_last() =~= all.subrange(0, i as int));
            assert(all.subrange(0, i + 1).last() == all[i as int]);
        }
        if i == 0 {
            summary.append(lines[i].as_str());
            proof {
                assert(summary@ =~= all[0]);
                assert(all.subrange(0, 1).drop_first() =~= Seq::<Seq<char>>::empty());
            }
        } else {
            proof {
                reveal_strlit("  ");
                reveal_strlit("\n");
                assert(all.subrange(0, i + 1).drop_first().drop_last() =~= all.subrange(
                    0,
                    i as int,
                ).drop_first());
                assert(all.subrange(0, i + 1).drop_first().last() == all[i as int]);
                assert("  "@ =~= seq![' ', ' ']);
                assert("\n"@ =~= seq![newline()]);
            }
            details.append("  ");
            details.append(lines[i].as_str());
            details.append("\n");
        }
        i = i + 1;
    }
    assert(texts_of(lines@).subrange(0, lines@.len() as int) =~= texts_of(lines@));
    (summary, details)
}

} // verus!
