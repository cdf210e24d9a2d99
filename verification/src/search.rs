//! Pattern matching: selecting the lines that contain the pattern.
//!
//! A line matches when the pattern occurs anywhere in it as a contiguous
//! run of characters; the comparison is case-sensitive and no anchoring or
//! escaping is applied. Every input line advances the 1-based line number,
//! and a line counts at most once however many times the pattern occurs in
//! it.

use vstd::prelude::*;
use vstd::string::StrSliceExecFns;

verus! {

/// `pat` occurs in `line` starting at character index `i`.
pub open spec fn match_at(line: Seq<char>, pat: Seq<char>, i: int) -> bool {
    0 <= i && i + pat.len() <= line.len() && line.subrange(i, i + pat.len()) == pat
}

/// `line` contains `pat` as a substring.
pub open spec fn line_matches(line: Seq<char>, pat: Seq<char>) -> bool {
    exists|i: int| match_at(line, pat, i)
}

/// The matching lines among `lines`, in file order.
pub open spec fn matched_lines(lines: Seq<Seq<char>>, pat: Seq<char>) -> Seq<Seq<char>>
    decreases lines.len(),
{
    if lines.len() == 0 {
        Seq::empty()
    } else {
        let rest = matched_lines(lines.drop_last(), pat);
        if line_matches(lines.last(), pat) {
            rest.push(lines.last())
        } else {
            rest
        }
    }
}

/// The 1-based numbers of the matching lines among `lines`, ascending.
pub open spec fn matched_nums(lines: Seq<Seq<char>>, pat: Seq<char>) -> Seq<int>
    decreases lines.len(),
{
    if lines.len() == 0 {
        Seq::empty()
    } else {
        let rest = matched_nums(lines.drop_last(), pat);
        if line_matches(lines.last(), pat) {
            rest.push(lines.len() as int)
        } else {
            rest
        }
    }
}

/// Extending the scanned prefix by one line extends the matched lines and
/// numbers exactly when the new line matches.
proof fn lemma_matched_take_step(lines: Seq<Seq<char>>, pat: Seq<char>, k: int)
    requires
        0 <= k < lines.len(),
    ensures
        line_matches(lines[k], pat) ==> {
            &&& matched_lines(lines.take(k + 1), pat) == matched_lines(lines.take(k), pat).push(
                lines[k],
            )
            &&& matched_nums(lines.take(k + 1), pat) == matched_nums(lines.take(k), pat).push(
                k + 1,
            )
        },
        !line_matches(lines[k], pat) ==> {
            &&& matched_lines(lines.take(k + 1), pat) == matched_lines(lines.take(k), pat)
            &&& matched_nums(lines.take(k + 1), pat) == matched_nums(lines.take(k), pat)
        },
{
    assert(lines.take(k + 1).drop_last() =~= lines.take(k));
    assert(lines.take(k + 1).last() == lines[k]);
}

/// Every matched line number is 1-based and at most the number of input
/// lines, and there are exactly as many numbers as matched lines.
pub proof fn lemma_matched_nums_bounds(lines: Seq<Seq<char>>, pat: Seq<char>)
    ensures
        matched_nums(lines, pat).len() == matched_lines(lines, pat).len(),
        forall|j: int|
            0 <= j < matched_nums(lines, pat).len() ==> 1 <= #[trigger] matched_nums(lines, pat)[j]
                <= lines.len(),
    decreases lines.len(),
{
    if lines.len() > 0 {
        lemma_matched_nums_bounds(lines.drop_last(), pat);
    }
}

/// Decides substring containment of `pattern` in `line`.
pub fn contains_pattern(line: &str, pattern: &str) -> (r: bool)
    ensures
        r == line_matches(line@, pattern@),
{
    let n = line.unicode_len();
    let m = pattern.unicode_len();
    if m == 0 {
        assert(line@.subrange(0, 0) =~= pattern@);
        assert(match_at(line@, pattern@, 0));
        return true;
    }
    if m > n {
        assert(forall|i: int| !match_at(line@, pattern@, i));
        return false;
    }
    let mut i: usize = 0;
    while i <= n - m
        invariant
            1 <= m <= n,
            n == line@.len(),
            m == pattern@.len(),
            forall|q: int| 0 <= q < i ==> !match_at(line@, pattern@, q),
        decreases n - i,
    {
        let mut j: usize = 0;
        let mut mismatch = false;
        while j < m
            invariant
                1 <= m <= n,
                i + m <= n,
                n == line@.len(),
                m == pattern@.len(),
                j <= m,
                !mismatch ==> forall|q: int| 0 <= q < j ==> line@[i + q] == pattern@[q],
                mismatch ==> !match_at(line@, pattern@, i as int),
            ensures
                mismatch ==> !match_at(line@, pattern@, i as int),
                !mismatch ==> forall|q: int| 0 <= q < m ==> line@[i + q] == pattern@[q],
            decreases m - j,
    {
            if line.get_char(i + j) != pattern.get_char(j) {
                proof {
                    if line@.subrange(i as int, i + m) == pattern@ {
                        assert(line@.subrange(i as int, i + m)[j as int] == pattern@[j as int]);
                    }
                }
                mismatch = true;
                break;
            }
            j = j + 1;
        }
        if !mismatch {
            assert(line@.subrange(i as int, i + m) =~= pattern@);
            assert(match_at(line@, pattern@, i as int));
            return true;
        }
        i = i + 1;
    }
    proof {
        assert(forall|q: int| match_at(line@, pattern@, q) ==> 0 <= q <= n - m);
    }
    false
}

/// Scans the truncated lines for the pattern.
///
/// Returns the matching lines in file order, their 1-based line numbers,
/// and the count of matching lines; the count always equals the length of
/// the matches vector.
pub fn find_pattern(lines: Vec<String>, pattern: &str) -> (r: (Vec<String>, Vec<i32>, i16))
    requires
        lines@.len() < 32768,
    ensures
        r.0.deep_view() == matched_lines(lines.deep_view(), pattern@),
        r.1@.map_values(|x: i32| x as int) == matched_nums(lines.deep_view(), pattern@),
        r.1@.len() == r.0@.len(),
        r.2 as int == r.0@.len(),
{
    let ghost model: Seq<Seq<char>> = lines.deep_view();
    let mut count: i16 = 0;
    let mut matches: Vec<String> = Vec::new();
    let mut line_numbers: Vec<i32> = Vec::new();
    let mut k: usize = 0;
    while k < lines.len()
        invariant
            model == lines.deep_view(),
            lines@.len() < 32768,
            k <= lines@.len(),
            matches.deep_view() == matched_lines(model.take(k as int), pattern@),
            line_numbers@.map_values(|x: i32| x as int) == matched_nums(
                model.take(k as int),
                pattern@,
            ),
            line_numbers@.len() == matches@.len(),
            matches@.len() <= k,
            count as int == matches@.len(),
        decreases lines@.len() - k,
    {
        proof {
            lemma_matched_take_step(model, pattern@, k as int);
        }
        let line = lines[k].clone();
        if contains_pattern(line.as_str(), pattern) {
            matches.push(line);
            line_numbers.push((k as i32) + 1);
            count = count + 1;
            assert(matches.deep_view() =~= matched_lines(model.take(k + 1), pattern@));
            assert(line_numbers@.map_values(|x: i32| x as int) =~= matched_nums(
                model.take(k + 1),
                pattern@,
            ));
        } else {
            assert(matches.deep_view() =~= matched_lines(model.take(k + 1), pattern@));
            assert(line_numbers@.map_values(|x: i32| x as int) =~= matched_nums(
                model.take(k + 1),
                pattern@,
            ));
        }
        k = k + 1;
    }
    assert(model.take(lines@.len() as int) =~= model);
    (matches, line_numbers, count)
}

} // verus!
