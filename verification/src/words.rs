//! Splitting a line into words and finding the word equal to the pattern.
//!
//! A word is a maximal run of non-white-space characters. The word scan
//! used for highlighting strips leading and trailing non-alphanumeric
//! characters from each word before comparing it with the pattern; this
//! stripped comparison is deliberately different from the raw substring
//! containment that decides whether a line matches.

use crate::chars::{alnum, is_alnum, is_wspace, wspace};
use vstd::prelude::*;
use vstd::string::StrSliceExecFns;

verus! {

/// The words of `s` from index `i` on, with `cur` the partial word read
/// so far.
pub open spec fn words_from(s: Seq<char>, i: int, cur: Seq<char>) -> Seq<Seq<char>>
    decreases s.len() - i,
{
    if i < 0 || i >= s.len() {
        if cur.len() > 0 {
            seq![cur]
        } else {
            Seq::empty()
        }
    } else if wspace(s[i]) {
        if cur.len() > 0 {
            seq![cur] + words_from(s, i + 1, Seq::empty())
        } else {
            words_from(s, i + 1, Seq::empty())
        }
    } else {
        words_from(s, i + 1, cur.push(s[i]))
    }
}

/// The white-space-separated words of `s`, in order.
pub open spec fn words(s: Seq<char>) -> Seq<Seq<char>> {
    words_from(s, 0, Seq::empty())
}

/// Splits `line` into its white-space-separated words.
pub fn split_words(line: &str) -> (r: Vec<String>)
    ensures
        r.deep_view() == words(line@),
{
    let n = line.unicode_len();
    let mut out: Vec<String> = Vec::new();
    let mut start: Option<usize> = None;
    let mut i: usize = 0;
    while i < n
        invariant
            n == line@.len(),
            i <= n,
            start matches Some(a) ==> 0 <= a < i,
            words(line@) == out.deep_view() + words_from(
                line@,
                i as int,
                (match start {
                    Some(a) => line@.subrange(a as int, i as int),
                    None => Seq::<char>::empty(),
                }),
            ),
        decreases n - i,
    {
        let ghost cur: Seq<char> = (match start {
            Some(a) => line@.subrange(a as int, i as int),
            None => Seq::<char>::empty(),
        });
        let ghost out0: Seq<Seq<char>> = out.deep_view();
        let c = line.get_char(i);
        if is_wspace(c) {
            match start {
                Some(a) => {
                    assert(cur.len() > 0);
                    let word = line.substring_char(a, i).to_owned();
                    out.push(word);
                    start = None;
                    assert(out.deep_view() =~= out0.push(cur));
                    assert(out0.push(cur) + words_from(line@, i + 1, Seq::<char>::empty()) =~= out0
                        + words_from(line@, i as int, cur));
                },
                None => {
                    assert(words_from(line@, i as int, cur) == words_from(
                        line@,
                        i + 1,
                        Seq::<char>::empty(),
                    ));
                },
            }
        } else {
            match start {
                Some(a) => {
                    assert(line@.subrange(a as int, i + 1) =~= cur.push(line@[i as int]));
                },
                None => {
                    start = Some(i);
                    assert(line@.subrange(i as int, i + 1) =~= Seq::<char>::empty().push(
                        line@[i as int],
                    ));
                },
            }
            assert(words_from(line@, i as int, cur) == words_from(
                line@,
                i + 1,
                cur.push(line@[i as int]),
            ));
        }
        i = i + 1;
    }
    let ghost cur: Seq<char> = (match start {
        Some(a) => line@.subrange(a as int, i as int),
        None => Seq::<char>::empty(),
    });
    let ghost out0: Seq<Seq<char>> = out.deep_view();
    match start {
        Some(a) => {
            let word = line.substring_char(a, n).to_owned();
            out.push(word);
            assert(out.deep_view() =~= out0.push(cur));
            assert(out0.push(cur) =~= out0 + words_from(line@, n as int, cur));
        },
        None => {
        },
    }
    out
}

/// The index of the first alphanumeric character of `w` at or after `i`,
/// or the length of `w` when none follows.
pub open spec fn first_alnum_from(w: Seq<char>, i: int) -> int
    decreases w.len() - i,
{
    if i < 0 || i >= w.len() {
        w.len() as int
    } else if alnum(w[i]) {
        i
    } else {
        first_alnum_from(w, i + 1)
    }
}

/// The index of the last alphanumeric character of `w` before `i`, or -1
/// when none precedes.
pub open spec fn last_alnum_before(w: Seq<char>, i: int) -> int
    decreases i,
{
    if i <= 0 || i > w.len() {
        -1
    } else if alnum(w[i - 1]) {
        i - 1
    } else {
        last_alnum_before(w, i - 1)
    }
}

/// `w` with every leading and every trailing non-alphanumeric character
/// removed; empty when `w` has no alphanumeric character at all.
pub open spec fn strip_spec(w: Seq<char>) -> Seq<char> {
    let a = first_alnum_from(w, 0);
    if a >= w.len() {
        Seq::empty()
    } else {
        w.subrange(a, last_alnum_before(w, w.len() as int) + 1)
    }
}

/// Removes the leading and trailing non-alphanumeric characters of `w`.
pub fn strip_word(w: &str) -> (r: String)
    ensures
        r@ == strip_spec(w@),
{
    let n = w.unicode_len();
    let mut a: usize = 0;
    loop
        invariant_except_break
            n == w@.len(),
            a <= n,
            first_alnum_from(w@, 0) == first_alnum_from(w@, a as int),
        ensures
            n == w@.len(),
            a <= n,
            a as int == first_alnum_from(w@, 0),
            a < n ==> alnum(w@[a as int]),
        decreases n - a,
    {
        if a == n {
            assert(first_alnum_from(w@, a as int) == n);
            break;
        }
        if is_alnum(w.get_char(a)) {
            assert(first_alnum_from(w@, a as int) == a);
            break;
        }
        assert(first_alnum_from(w@, a as int) == first_alnum_from(w@, a + 1));
        a = a + 1;
    }
    if a == n {
        assert(strip_spec(w@) =~= Seq::<char>::empty());
        return String::new();
    }
    let mut b: usize = n;
    loop
        invariant_except_break
            n == w@.len(),
            a < n,
            alnum(w@[a as int]),
            a + 1 <= b <= n,
            last_alnum_before(w@, n as int) == last_alnum_before(w@, b as int),
        ensures
            a + 1 <= b <= n,
            b - 1 == last_alnum_before(w@, n as int),
        decreases b,
    {
        if is_alnum(w.get_char(b - 1)) {
            assert(last_alnum_before(w@, b as int) == b - 1);
            break;
        }
        assert(last_alnum_before(w@, b as int) == last_alnum_before(w@, b - 1));
        b = b - 1;
    }
    let r = w.substring_char(a, b).to_owned();
    assert(r@ =~= strip_spec(w@));
    r
}

/// The index of the first word of `ws` at or after `i` whose stripped
/// form equals `pat`, or `None` when no word qualifies.
pub open spec fn first_strip_match(ws: Seq<Seq<char>>, pat: Seq<char>, i: int) -> Option<int>
    decreases ws.len() - i,
{
    if i < 0 || i >= ws.len() {
        None
    } else if strip_spec(ws[i]) == pat {
        Some(i)
    } else {
        first_strip_match(ws, pat, i + 1)
    }
}

/// Finds the first word of `line` that equals `pattern` once its leading
/// and trailing non-alphanumeric characters are stripped, and returns that
/// word as it stands in the line.
///
/// The result informs highlighting only: a line can contain the pattern as
/// a substring while no stripped word equals it, and such a line still
/// counts as a match.
pub fn splice(line: &String, pattern: &str) -> (r: Option<String>)
    ensures
        (match first_strip_match(words(line@), pattern@, 0) {
            Some(k) => r matches Some(w) && w@ == words(line@)[k],
            None => r is None,
        }),
{
    let ws = split_words(line.as_str());
    let pat: String = pattern.to_owned();
    let mut k: usize = 0;
    while k < ws.len()
        invariant
            ws.deep_view() == words(line@),
            pat@ == pattern@,
            k <= ws@.len(),
            first_strip_match(words(line@), pattern@, 0) == first_strip_match(
                words(line@),
                pattern@,
                k as int,
            ),
        decreases ws@.len() - k,
    {
        let stripped = strip_word(ws[k].as_str());
        if stripped == pat {
            assert(first_strip_match(words(line@), pattern@, k as int) == Some(k as int));
            return Some(ws[k].clone());
        }
        assert(first_strip_match(words(line@), pattern@, k as int) == first_strip_match(
            words(line@),
            pattern@,
            k + 1,
        ));
        k = k + 1;
    }
    None
}

} // verus!
