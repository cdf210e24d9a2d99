//! Line truncation for display.
//!
//! A line of at most 32 characters is kept as it is. A longer line is cut
//! at the first space character found at or after character index 32; the
//! space and everything after it are dropped. When no space occurs at or
//! after index 32 the line is kept whole, so a bound on the result's length
//! is not guaranteed.

use vstd::prelude::*;
use vstd::string::StrSliceExecFns;

verus! {

/// The character index at or after which a long line may be cut.
pub const BASE_MAX_LEN: usize = 32;

/// The position of the first space character of `s` at or after index `i`,
/// or `None` when no space follows.
pub open spec fn first_space_from(s: Seq<char>, i: int) -> Option<int>
    decreases s.len() - i,
{
    if i < 0 || i >= s.len() {
        None
    } else if s[i] == ' ' {
        Some(i)
    } else {
        first_space_from(s, i + 1)
    }
}

/// The display form of a raw line: everything before the first space at or
/// after index 32, or the whole line when no such space exists.
pub open spec fn trunc_spec(s: Seq<char>) -> Seq<char> {
    match first_space_from(s, BASE_MAX_LEN as int) {
        Some(i) => s.take(i),
        None => s,
    }
}

/// Shortens `line` to its display form, in place.
///
/// A line of at most 32 characters is never changed.
pub fn truncate(line: &mut String)
    ensures
        final(line)@ == trunc_spec(old(line)@),
        old(line)@.len() <= BASE_MAX_LEN ==> final(line)@ == old(line)@,
        final(line)@.len() <= old(line)@.len(),
{
    let ghost orig: Seq<char> = line@;
    let n = line.as_str().unicode_len();
    let mut i: usize = BASE_MAX_LEN;
    while i < n
        invariant
            orig == old(line)@,
            line@ == orig,
            BASE_MAX_LEN <= i,
            n == orig.len(),
            first_space_from(orig, BASE_MAX_LEN as int) == first_space_from(orig, i as int),
        decreases n - i,
    {
        if line.as_str().get_char(i) == ' ' {
            assert(first_space_from(orig, i as int) == Some(i as int));
            *line = line.as_str().substring_char(0, i).to_owned();
            assert(line@ =~= trunc_spec(orig));
            return;
        }
        assert(first_space_from(orig, i as int) == first_space_from(orig, i + 1));
        i = i + 1;
    }
    assert(first_space_from(orig, i as int) is None);
}

/// Applies `truncate` to every raw line, keeping the order and the count.
pub fn parse_file(lines: &Vec<String>) -> (r: Vec<String>)
    ensures
        r@.len() == lines@.len(),
        forall|k: int| 0 <= k < lines@.len() ==> #[trigger] r@[k]@ == trunc_spec(lines@[k]@),
{
    let mut out: Vec<String> = Vec::new();
    let mut idx: usize = 0;
    while idx < lines.len()
        invariant
            idx <= lines@.len(),
            out@.len() == idx,
            forall|k: int| 0 <= k < idx ==> #[trigger] out@[k]@ == trunc_spec(lines@[k]@),
        decreases lines@.len() - idx,
    {
        let mut line = lines[idx].clone();
        truncate(&mut line);
        out.push(line);
        idx = idx + 1;
    }
    out
}

} // verus!
