//! Splitting a body of text into lines.
//!
//! A line ends at a line feed; a carriage return immediately before the line
//! feed belongs to the terminator and not to the line. A final line without a
//! terminator is still a line, so a trailing line feed does not introduce an
//! extra empty line.

use vstd::prelude::*;
use vstd::string::StrSliceExecFns;

verus! {

/// Character position of the first line feed in `text`, or `text.len()` if
/// there is none.
pub open spec fn first_newline(text: Seq<char>) -> int
    decreases text.len(),
{
    if text.len() == 0 {
        0
    } else if text[0] == '\n' {
        0
    } else {
        1 + first_newline(text.subrange(1, text.len() as int))
    }
}

/// `first_newline` points at the first line feed: nothing before it is a line
/// feed, and it is a line feed unless it is the end of the text.
pub proof fn lemma_first_newline(text: Seq<char>)
    ensures
        0 <= first_newline(text) <= text.len(),
        forall|j: int| 0 <= j < first_newline(text) ==> text[j] != '\n',
        first_newline(text) < text.len() ==> text[first_newline(text)] == '\n',
    decreases text.len(),
{
    if text.len() == 0 {
    } else if text[0] == '\n' {
    } else {
        let tail = text.subrange(1, text.len() as int);
        lemma_first_newline(tail);
        assert(forall|j: int| 1 <= j < first_newline(text) ==> text[j] == tail[j - 1]);
    }
}

/// The position of the first line feed is determined by its defining
/// properties.
pub proof fn lemma_first_newline_at(text: Seq<char>, k: int)
    requires
        0 <= k <= text.len(),
        forall|j: int| 0 <= j < k ==> text[j] != '\n',
        k < text.len() ==> text[k] == '\n',
    ensures
        first_newline(text) == k,
{
    lemma_first_newline(text);
}

/// A carriage return just before a line terminator is not part of the line.
pub open spec fn strip_trailing_carriage_return(line: Seq<char>) -> Seq<char> {
    if line.len() > 0 && line.last() == '\r' {
        line.drop_last()
    } else {
        line
    }
}

/// The ordered sequence of lines of `text`: the runs of characters between
/// line terminators, each terminated run with a trailing carriage return
/// removed, and a trailing terminator producing no extra empty line.
pub open spec fn spec_lines(text: Seq<char>) -> Seq<Seq<char>>
    decreases text.len(),
{
    if text.len() == 0 {
        Seq::empty()
    } else {
        let k = first_newline(text);
        if 0 <= k < text.len() && text[k] == '\n' {
            seq![strip_trailing_carriage_return(text.subrange(0, k))] + spec_lines(
                text.subrange(k + 1, text.len() as int),
            )
        } else {
            seq![text]
        }
    }
}

/// Splitting off the first line: if the first line feed of the suffix starting
/// at `start` sits at position `i`, the lines of that suffix are the stripped
/// run before `i` followed by the lines after `i`.
proof fn lemma_lines_step(text: Seq<char>, start: int, i: int)
    requires
        0 <= start <= i < text.len(),
        forall|j: int| start <= j < i ==> text[j] != '\n',
        text[i] == '\n',
    ensures
        spec_lines(text.subrange(start, text.len() as int)) == seq![
            strip_trailing_carriage_return(text.subrange(start, i)),
        ] + spec_lines(text.subrange(i + 1, text.len() as int)),
{
    let n = text.len() as int;
    let tail = text.subrange(start, n);
    assert(forall|j: int| 0 <= j < i - start ==> tail[j] == text[start + j]);
    lemma_first_newline_at(tail, i - start);
    assert(tail.subrange(0, i - start) =~= text.subrange(start, i));
    assert(tail.subrange(i - start + 1, tail.len() as int) =~= text.subrange(i + 1, n));
}

/// A non-empty suffix without a line feed is a single line, kept whole.
proof fn lemma_lines_last(text: Seq<char>, start: int)
    requires
        0 <= start < text.len(),
        forall|j: int| start <= j < text.len() ==> text[j] != '\n',
    ensures
        spec_lines(text.subrange(start, text.len() as int)) == seq![
            text.subrange(start, text.len() as int),
        ],
{
    let n = text.len() as int;
    let tail = text.subrange(start, n);
    assert(forall|j: int| 0 <= j < tail.len() ==> tail[j] == text[start + j]);
    lemma_first_newline_at(tail, tail.len() as int);
}

/// Splits `text` into its lines, as borrowed slices, in original order.
pub fn split_lines<'a>(text: &'a str) -> (lines: Vec<&'a str>)
    ensures
        lines.deep_view() == spec_lines(text@),
{
    let n = text.unicode_len();
    let mut lines: Vec<&'a str> = Vec::new();
    let mut start: usize = 0;
    let mut i: usize = 0;
    proof {
        assert(text@.subrange(0, n as int) =~= text@);
    }
    while i < n
        invariant
            n == text@.len(),
            start <= i <= n,
            forall|j: int| start <= j < i ==> text@[j] != '\n',
            spec_lines(text@) == lines.deep_view() + spec_lines(
                text@.subrange(start as int, n as int),
            ),
        decreases n - i,
    {
        let c = text.get_char(i);
        if c == '\n' {
            let line: &'a str = if i > start && text.get_char(i - 1) == '\r' {
                text.substring_char(start, i - 1)
            } else {
                text.substring_char(start, i)
            };
            proof {
                lemma_lines_step(text@, start as int, i as int);
                let run = text@.subrange(start as int, i as int);
                if i > start && text@[i - 1] == '\r' {
                    assert(run.len() > 0 && run.last() == '\r');
                    assert(run.drop_last() =~= text@.subrange(start as int, i - 1));
                } else {
                    if run.len() > 0 {
                        assert(run.last() == text@[i - 1]);
                    }
                }
                assert(line@ == strip_trailing_carriage_return(run));
            }
            let ghost previous = lines.deep_view();
            let ghost rest = spec_lines(text@.subrange(i + 1, n as int));
            lines.push(line);
            proof {
                assert(lines.deep_view() =~= previous.push(line@));
                assert(previous + (seq![line@] + rest) =~= previous.push(line@) + rest);
            }
            start = i + 1;
        }
        i = i + 1;
    }
    if start < n {
        let line: &'a str = text.substring_char(start, n);
        let ghost previous = lines.deep_view();
        proof {
            lemma_lines_last(text@, start as int);
        }
        lines.push(line);
        proof {
            assert(lines.deep_view() =~= previous.push(line@));
            assert(previous + seq![line@] =~= previous.push(line@));
        }
    } else {
        proof {
            assert(text@.subrange(start as int, n as int).len() == 0);
            assert(spec_lines(text@) =~= lines.deep_view());
        }
    }
    lines
}

} // verus!
