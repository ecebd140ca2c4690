//! Reading the host's version out of what its version utility prints.
//!
//! On macOS the linker wants to be told the system's version when a design
//! is elaborated. The utility prints one labelled field on each line; the
//! field `ProductVersion:` holds the version.

use vstd::prelude::*;
use vstd::string::*;

verus! {

/// The label of the field that holds the version.
pub const VERSION_LABEL: &'static str = "ProductVersion:";

/// Whether `c` is white space: the characters with Unicode's `White_Space`
/// property.
pub open spec fn is_space(c: char) -> bool {
    let n = c as u32;
    ||| 0x09 <= n <= 0x0D
    ||| n == 0x20
    ||| n == 0x85
    ||| n == 0xA0
    ||| n == 0x1680
    ||| 0x2000 <= n <= 0x200A
    ||| n == 0x2028
    ||| n == 0x2029
    ||| n == 0x202F
    ||| n == 0x205F
    ||| n == 0x3000
}

/// `s` without the white space at its start.
pub open spec fn trim_start(s: Seq<char>) -> Seq<char>
    decreases s.len(),
{
    if s.len() > 0 && is_space(s[0]) {
        trim_start(s.skip(1))
    } else {
        s
    }
}

/// `s` without the white space at its end.
pub open spec fn trim_end(s: Seq<char>) -> Seq<char>
    decreases s.len(),
{
    if s.len() > 0 && is_space(s.last()) {
        trim_end(s.drop_last())
    } else {
        s
    }
}

/// `s` without the white space at either end.
pub open spec fn trimmed(s: Seq<char>) -> Seq<char> {
    trim_end(trim_start(s))
}

/// `s` without any copies of `label` at its start.
pub open spec fn without_label(s: Seq<char>, label: Seq<char>) -> Seq<char>
    decreases s.len(),
{
    if label.len() > 0 && label.is_prefix_of(s) {
        without_label(s.skip(label.len() as int), label)
    } else {
        s
    }
}

/// The position of the first line feed at or after `from`, or the length of
/// `text` if there is none.
pub open spec fn line_end(text: Seq<char>, from: int) -> int
    decreases text.len() - from,
{
    if from < 0 || from >= text.len() {
        text.len() as int
    } else if text[from] == '\n' {
        from
    } else {
        line_end(text, from + 1)
    }
}

/// Where the first line that starts with `label` begins, looking at the lines
/// that begin at `start` and after it.
pub open spec fn labelled_line(text: Seq<char>, label: Seq<char>, start: int) -> Option<int>
    decreases text.len() - start,
{
    if start < 0 || start >= text.len() {
        None
    } else if label.is_prefix_of(text.skip(start)) {
        Some(start)
    } else {
        let end = line_end(text, start);
        if start <= end < text.len() {
            labelled_line(text, label, end + 1)
        } else {
            None
        }
    }
}

/// The version that `output` reports: what follows the label on the first
/// line that starts with it, up to the end of that line, without further
/// copies of the label in front and without white space around it.
pub open spec fn version_in(output: Seq<char>) -> Option<Seq<char>> {
    let label = VERSION_LABEL@;
    match labelled_line(output, label, 0) {
        Some(at) => {
            let from = at + label.len();
            Some(trimmed(without_label(output.subrange(from, line_end(output, from)), label)))
        },
        None => None,
    }
}

/// The characters of `text`, one by one.
pub fn chars_of(text: &str) -> (out: Vec<char>)
    ensures
        out@ == text@,
{
    let mut out: Vec<char> = Vec::new();
    for c in it: text.chars()
        invariant
            it.seq() == text@,
            out@ == it.seq().take(it.index() as int),
    {
        out.push(c);
    }
    out
}

/// Whether `c` is white space.
pub fn is_white_space(c: char) -> (yes: bool)
    ensures
        yes == is_space(c),
{
    let n: u32 = c as u32;
    (0x09 <= n && n <= 0x0D) || n == 0x20 || n == 0x85 || n == 0xA0 || n == 0x1680 || (0x2000 <= n
        && n <= 0x200A) || n == 0x2028 || n == 0x2029 || n == 0x202F || n == 0x205F || n == 0x3000
}

/// Whether `label` stands in `text` at position `at`.
pub fn has_prefix_at(text: &Vec<char>, at: usize, label: &Vec<char>) -> (yes: bool)
    requires
        at <= text@.len(),
    ensures
        yes == label@.is_prefix_of(text@.skip(at as int)),
{
    if label.len() > text.len() - at {
        return false;
    }
    let mut i: usize = 0;
    while i < label.len()
        invariant
            at <= text@.len() <= usize::MAX,
            i <= label@.len() <= text@.len() - at,
            forall|j: int| 0 <= j < i ==> label@[j] == text@[at + j],
        decreases label@.len() - i,
    {
        if label[i] != text[at + i] {
            return false;
        }
        i = i + 1;
    }
    true
}

/// Extracts the host's version from what the version utility printed, or
/// `None` where no line starts with the label.
pub fn product_version(output: &str) -> (version: Option<String>)
    ensures
        match version_in(output@) {
            Some(v) => version is Some && version->0@ == v,
            None => version is None,
        },
{
    let text = chars_of(output);
    let label = chars_of(VERSION_LABEL);
    let n = text.len();
    let mut start: usize = 0;
    let mut found: Option<usize> = None;
    while start < n
        invariant_except_break
            found is None,
            start <= n,
            labelled_line(text@, label@, start as int) == labelled_line(text@, label@, 0),
        invariant
            n == text@.len(),
        ensures
            match found {
                Some(at) => labelled_line(text@, label@, 0) == Some(at as int) && at < n
                    && label@.is_prefix_of(text@.skip(at as int)),
                None => labelled_line(text@, label@, 0) is None,
            },
        decreases n - start,
    {
        if has_prefix_at(&text, start, &label) {
            found = Some(start);
            break;
        }
        let mut end: usize = start;
        while end < n && text[end] != '\n'
            invariant
                start <= end <= n,
                n == text@.len(),
                line_end(text@, start as int) == line_end(text@, end as int),
            decreases n - end,
        {
            end = end + 1;
        }
        if end == n {
            start = n;
        } else {
            start = end + 1;
        }
    }
    let at = match found {
        Some(at) => at,
        None => {
            return None;
        },
    };
    let from: usize = at + label.len();
    let mut to: usize = from;
    while to < n && text[to] != '\n'
        invariant
            from <= to <= n,
            n == text@.len(),
            line_end(text@, from as int) == line_end(text@, to as int),
        decreases n - to,
    {
        to = to + 1;
    }
    let ghost field = text@.subrange(from as int, to as int);
    let mut lo: usize = from;
    while label.len() > 0 && to - lo >= label.len() && has_prefix_at(&text, lo, &label)
        invariant
            from <= lo <= to <= n,
            n == text@.len(),
            without_label(field, label@) == without_label(
                text@.subrange(lo as int, to as int),
                label@,
            ),
        decreases to - lo,
    {
        proof {
            let rest = text@.subrange(lo as int, to as int);
            assert(label@ =~= rest.subrange(0, label@.len() as int));
            assert(rest.skip(label@.len() as int) =~= text@.subrange(
                lo + label@.len(),
                to as int,
            ));
        }
        lo = lo + label.len();
    }
    let ghost bare = text@.subrange(lo as int, to as int);
    while lo < to && is_white_space(text[lo])
        invariant
            lo <= to <= n,
            n == text@.len(),
            trim_start(bare) == trim_start(text@.subrange(lo as int, to as int)),
        decreases to - lo,
    {
        assert(text@.subrange(lo as int, to as int).skip(1) =~= text@.subrange(
            lo + 1,
            to as int,
        ));
        lo = lo + 1;
    }
    let ghost left = text@.subrange(lo as int, to as int);
    let mut hi: usize = to;
    while lo < hi && is_white_space(text[hi - 1])
        invariant
            lo <= hi <= n,
            n == text@.len(),
            trim_end(left) == trim_end(text@.subrange(lo as int, hi as int)),
        decreases hi - lo,
    {
        assert(text@.subrange(lo as int, hi as int).drop_last() =~= text@.subrange(
            lo as int,
            hi - 1,
        ));
        hi = hi - 1;
    }
    Some(output.substring_char(lo, hi).to_owned())
}

} // verus!
