//! Rewriting the library catalog that the analyzer leaves behind.
//!
//! The catalog is line-oriented text. A line that starts with `file . "`
//! records a path relative to the directory the analyzer ran in. Later stages
//! run two directories below it, so each such path gets `../../` in front.
//! Everything here works on bytes: the marker, the prefix and the line
//! terminators are ASCII.

use vstd::prelude::*;

verus! {

/// The line feed that ends a line.
pub const LINE_FEED: u8 = 10;

/// The carriage return that may stand before a line feed.
pub const CARRIAGE_RETURN: u8 = 13;

/// The bytes of `file . "`, which start a local file reference.
pub open spec fn marker() -> Seq<u8> {
    seq![102u8, 105u8, 108u8, 101u8, 32u8, 46u8, 32u8, 34u8]
}

/// The bytes of `../../`, the way from the build directory back to where the
/// analyzer ran.
pub open spec fn up_two_levels() -> Seq<u8> {
    seq![46u8, 46u8, 47u8, 46u8, 46u8, 47u8]
}

/// Whether `line` starts with the marker.
pub open spec fn is_file_reference(line: Seq<u8>) -> bool {
    marker().is_prefix_of(line)
}

/// A line as it stands in the relocated catalog.
pub open spec fn relocated_line(line: Seq<u8>) -> Seq<u8> {
    if is_file_reference(line) {
        marker() + up_two_levels() + line.skip(marker().len() as int)
    } else {
        line
    }
}

/// The position of the first line feed at or after `from`, or the length of
/// `text` if there is none.
pub open spec fn next_line_feed(text: Seq<u8>, from: int) -> int
    decreases text.len() - from,
{
    if from < 0 || from >= text.len() {
        text.len() as int
    } else if text[from] == LINE_FEED {
        from
    } else {
        next_line_feed(text, from + 1)
    }
}

/// `line` without the carriage return at its end, if it has one.
pub open spec fn without_carriage_return(line: Seq<u8>) -> Seq<u8> {
    if line.len() > 0 && line.last() == CARRIAGE_RETURN {
        line.drop_last()
    } else {
        line
    }
}

/// The lines of `text` from position `start` on.
///
/// A line ends at a line feed, or at a carriage return directly before one;
/// neither belongs to the line. The last line needs no terminator, and a
/// terminator at the very end opens no further line.
pub open spec fn lines_from(text: Seq<u8>, start: int) -> Seq<Seq<u8>>
    decreases text.len() - start,
{
    if start < 0 || start >= text.len() {
        Seq::empty()
    } else {
        let end = next_line_feed(text, start);
        if end >= text.len() {
            seq![text.subrange(start, text.len() as int)]
        } else if end < start {
            Seq::empty()
        } else {
            seq![without_carriage_return(text.subrange(start, end))] + lines_from(text, end + 1)
        }
    }
}

/// The lines of `text`.
pub open spec fn lines_of(text: Seq<u8>) -> Seq<Seq<u8>> {
    lines_from(text, 0)
}

/// `lines` with one line feed between each two neighbours.
pub open spec fn joined(lines: Seq<Seq<u8>>) -> Seq<u8>
    decreases lines.len(),
{
    if lines.len() == 0 {
        Seq::empty()
    } else if lines.len() == 1 {
        lines[0]
    } else {
        joined(lines.drop_last()) + seq![LINE_FEED] + lines.last()
    }
}

/// Each line of `lines` relocated.
pub open spec fn relocated_lines(lines: Seq<Seq<u8>>) -> Seq<Seq<u8>> {
    Seq::new(lines.len(), |i: int| relocated_line(lines[i]))
}

/// The catalog `text` as it is written to the build directory.
pub open spec fn relocated_catalog(text: Seq<u8>) -> Seq<u8> {
    joined(relocated_lines(lines_of(text)))
}

/// The bytes of each line of a list.
pub open spec fn line_bytes(lines: Seq<Vec<u8>>) -> Seq<Seq<u8>> {
    Seq::new(lines.len(), |i: int| lines[i]@)
}

/// Relocation keeps the number of lines, puts `../../` behind the marker of
/// each file reference, and leaves every other line as it was.
pub proof fn lemma_relocation_line_by_line(text: Seq<u8>, i: int)
    requires
        0 <= i < lines_of(text).len(),
    ensures
        relocated_lines(lines_of(text)).len() == lines_of(text).len(),
        !is_file_reference(lines_of(text)[i]) ==> relocated_lines(lines_of(text))[i] == lines_of(
            text,
        )[i],
        is_file_reference(lines_of(text)[i]) ==> relocated_lines(lines_of(text))[i] == marker()
            + up_two_levels() + lines_of(text)[i].skip(8),
{
}

/// A copy of the bytes of `text` from `from` up to `to`.
pub fn copy_range(text: &[u8], from: usize, to: usize) -> (out: Vec<u8>)
    requires
        from <= to <= text@.len(),
    ensures
        out@ == text@.subrange(from as int, to as int),
{
    let mut out: Vec<u8> = Vec::new();
    let mut i: usize = from;
    while i < to
        invariant
            from <= i <= to <= text@.len(),
            out@ == text@.subrange(from as int, i as int),
        decreases to - i,
    {
        out.push(text[i]);
        i = i + 1;
    }
    out
}

/// Whether `line` starts with `file . "`.
pub fn starts_with_marker(line: &[u8]) -> (yes: bool)
    ensures
        yes == is_file_reference(line@),
{
    let m: [u8; 8] = [102, 105, 108, 101, 32, 46, 32, 34];
    if line.len() < 8 {
        return false;
    }
    let mut i: usize = 0;
    while i < 8
        invariant
            i <= 8 <= line@.len(),
            m@ == marker(),
            forall|j: int| 0 <= j < i ==> line@[j] == marker()[j],
        decreases 8 - i,
    {
        if line[i] != m[i] {
            return false;
        }
        i = i + 1;
    }
    true
}

/// Relocates one line: a file reference gets `../../` directly behind the
/// marker, any other line comes back byte for byte.
pub fn relocate_line(line: &[u8]) -> (out: Vec<u8>)
    ensures
        out@ == relocated_line(line@),
        !is_file_reference(line@) ==> out@ == line@,
{
    if starts_with_marker(line) {
        let mut out = copy_range(line, 0, 8);
        out.push(46);
        out.push(46);
        out.push(47);
        out.push(46);
        out.push(46);
        out.push(47);
        let mut i: usize = 8;
        while i < line.len()
            invariant
                8 <= i <= line@.len(),
                out@ == marker() + up_two_levels() + line@.subrange(8, i as int),
            decreases line@.len() - i,
        {
            out.push(line[i]);
            i = i + 1;
        }
        out
    } else {
        copy_range(line, 0, line.len())
    }
}

/// Splits `text` into its lines, without their terminators.
pub fn split_lines(text: &[u8]) -> (lines: Vec<Vec<u8>>)
    ensures
        line_bytes(lines@) == lines_of(text@),
{
    let mut lines: Vec<Vec<u8>> = Vec::new();
    let mut start: usize = 0;
    while start < text.len()
        invariant
            start <= text@.len(),
            line_bytes(lines@) + lines_from(text@, start as int) == lines_of(text@),
        decreases text@.len() - start,
    {
        let mut end: usize = start;
        while end < text.len() && text[end] != LINE_FEED
            invariant
                start <= end <= text@.len(),
                next_line_feed(text@, start as int) == next_line_feed(text@, end as int),
            decreases text@.len() - end,
        {
            end = end + 1;
        }
        let ghost before = line_bytes(lines@);
        if end == text.len() {
            let line = copy_range(text, start, end);
            lines.push(line);
            start = end;
        } else {
            let stop: usize = if end > start && text[end - 1] == CARRIAGE_RETURN {
                end - 1
            } else {
                end
            };
            let line = copy_range(text, start, stop);
            assert(line@ =~= without_carriage_return(text@.subrange(start as int, end as int)));
            lines.push(line);
            assert(line_bytes(lines@) + lines_from(text@, end + 1) =~= before + lines_from(
                text@,
                start as int,
            ));
            start = end + 1;
        }
    }
    lines
}

/// Joins `lines` with one line feed between each two neighbours.
pub fn join_lines(lines: &Vec<Vec<u8>>) -> (text: Vec<u8>)
    ensures
        text@ == joined(line_bytes(lines@)),
{
    let mut text: Vec<u8> = Vec::new();
    let mut i: usize = 0;
    while i < lines.len()
        invariant
            i <= lines@.len(),
            text@ == joined(line_bytes(lines@).take(i as int)),
        decreases lines@.len() - i,
    {
        if i > 0 {
            text.push(LINE_FEED);
        }
        let line = &lines[i];
        let ghost head = text@;
        let mut j: usize = 0;
        while j < line.len()
            invariant
                j <= line@.len(),
                text@ == head + line@.take(j as int),
            decreases line@.len() - j,
        {
            text.push(line[j]);
            j = j + 1;
        }
        proof {
            let all = line_bytes(lines@);
            let now = all.take(i + 1);
            assert(now.drop_last() =~= all.take(i as int));
        }
        i = i + 1;
    }
    assert(line_bytes(lines@).take(lines@.len() as int) =~= line_bytes(lines@));
    text
}

/// Rewrites a catalog for its place in the build directory: the text is split
/// into lines, each file reference is relocated, and the lines are joined
/// again with single line feeds.
pub fn relocate_catalog(text: &[u8]) -> (out: Vec<u8>)
    ensures
        out@ == relocated_catalog(text@),
{
    let lines = split_lines(text);
    let mut moved: Vec<Vec<u8>> = Vec::new();
    let mut i: usize = 0;
    while i < lines.len()
        invariant
            i <= lines@.len(),
            moved@.len() == i,
            forall|k: int| 0 <= k < i ==> moved@[k]@ == relocated_line(#[trigger] lines@[k]@),
        decreases lines@.len() - i,
    {
        let line = relocate_line(lines[i].as_slice());
        moved.push(line);
        i = i + 1;
    }
    assert(line_bytes(moved@) =~= relocated_lines(line_bytes(lines@)));
    join_lines(&moved)
}

} // verus!
