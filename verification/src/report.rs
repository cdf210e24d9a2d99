//! Rendering the search report.
//!
//! The report is one summary line, "Pattern found on N line(s)", followed
//! by one line per match: the 1-based line number, a separator, and the
//! line's words each followed by a single space. A word that equals the
//! pattern exactly, as it stands in the line, is emphasized in green; the
//! stripped word comparison of the word scan plays no role here.

use crate::search::line_matches;
use crate::words::{split_words, words};
use vstd::prelude::*;
use vstd::string::{StrSliceExecFns, StringExecFns};

verus! {

/// `w` holds no escape character, so no character of it can start an
/// ANSI style sequence.
pub open spec fn esc_free(w: Seq<char>) -> bool {
    forall|k: int| 0 <= k < w.len() ==> w[k] != '\x1b'
}

/// `ts` renders the words `ws` against the pattern `pat`: same length,
/// every word other than the pattern stands unchanged, and every word
/// equal to the pattern (when free of escape characters) occurs inside
/// its rendering.
pub open spec fn token_render_ok(ws: Seq<Seq<char>>, pat: Seq<char>, ts: Seq<Seq<char>>) -> bool {
    &&& ts.len() == ws.len()
    &&& forall|i: int|
        #![trigger ts[i]]
        0 <= i < ws.len() ==> {
            &&& (ws[i] != pat ==> ts[i] == ws[i])
            &&& (ws[i] == pat && esc_free(ws[i]) ==> line_matches(ts[i], ws[i]))
        }
}

/// The decimal digit character for `d`.
pub open spec fn digit_char(d: nat) -> char {
    if d == 0 {
        '0'
    } else if d == 1 {
        '1'
    } else if d == 2 {
        '2'
    } else if d == 3 {
        '3'
    } else if d == 4 {
        '4'
    } else if d == 5 {
        '5'
    } else if d == 6 {
        '6'
    } else if d == 7 {
        '7'
    } else if d == 8 {
        '8'
    } else {
        '9'
    }
}

/// The decimal digits of `n`, most significant first, with no sign and no
/// leading zero (a single `'0'` for zero).
pub open spec fn dec_digits(n: nat) -> Seq<char>
    decreases n,
{
    if n < 10 {
        seq![digit_char(n)]
    } else {
        dec_digits(n / 10).push(digit_char(n % 10))
    }
}

/// The single-character string slice for the digit `d`.
fn digit_str(d: usize) -> (r: &'static str)
    requires
        d < 10,
    ensures
        r@ == seq![digit_char(d as nat)],
{
    let digits = "0123456789";
    proof {
        reveal_strlit("0123456789");
    }
    let r = digits.substring_char(d, d + 1);
    assert(r@ =~= seq![digit_char(d as nat)]);
    r
}

/// Renders `n` in decimal.
pub fn dec_string(n: u32) -> (r: String)
    ensures
        r@ == dec_digits(n as nat),
    decreases n,
{
    if n < 10 {
        let r = digit_str(n as usize).to_owned();
        assert(r@ =~= dec_digits(n as nat));
        r
    } else {
        let mut s = dec_string(n / 10);
        s.append(digit_str((n % 10) as usize));
        assert(s@ =~= dec_digits(n as nat));
        s
    }
}

/// The rendered tokens `ts`, concatenated with a single space after each.
pub open spec fn joined(ts: Seq<Seq<char>>) -> Seq<char>
    decreases ts.len(),
{
    if ts.len() == 0 {
        Seq::empty()
    } else {
        joined(ts.drop_last()) + ts.last() + seq![' ']
    }
}

/// Relies on colored::Colorize::green and the Display of ColoredString:
/// the output is the input either verbatim or wrapped in a style prefix
/// and a reset suffix, so an input without an escape character occurs in
/// the output as a contiguous run.
#[verifier::external_body]
fn green(word: &str) -> (r: String)
    ensures
        esc_free(word@) ==> line_matches(r@, word@),
{
    colored::Colorize::green(word).to_string()
}

/// Renders the words of `line`: every word other than the pattern stands
/// unchanged, and every word equal to the pattern is emphasized.
pub fn highlight_tokens(line: &str, pattern: &str) -> (r: Vec<String>)
    ensures
        token_render_ok(words(line@), pattern@, r.deep_view()),
{
    let ws = split_words(line);
    let pat: String = pattern.to_owned();
    let mut out: Vec<String> = Vec::new();
    let mut i: usize = 0;
    while i < ws.len()
        invariant
            ws.deep_view() == words(line@),
            pat@ == pattern@,
            i <= ws@.len(),
            out@.len() == i,
            forall|q: int|
                #![trigger out.deep_view()[q]]
                0 <= q < i ==> {
                    &&& (words(line@)[q] != pattern@ ==> out.deep_view()[q] == words(line@)[q])
                    &&& (words(line@)[q] == pattern@ && esc_free(words(line@)[q])
                        ==> line_matches(out.deep_view()[q], words(line@)[q]))
                },
        decreases ws@.len() - i,
    {
        let ghost prev: Seq<Seq<char>> = out.deep_view();
        let ghost wsi: Seq<char> = words(line@)[i as int];
        proof {
            assert(ws.deep_view()[i as int] == ws@[i as int]@);
        }
        let t: String;
        if ws[i] == pat {
            t = green(ws[i].as_str());
            assert(wsi == pattern@);
            assert(esc_free(wsi) ==> line_matches(t@, wsi));
        } else {
            t = ws[i].clone();
            assert(wsi != pattern@ && t@ == wsi);
        }
        out.push(t);
        proof {
            assert forall|q: int|
                #![trigger out.deep_view()[q]]
                0 <= q < i + 1 implies {
                &&& (words(line@)[q] != pattern@ ==> out.deep_view()[q] == words(line@)[q])
                &&& (words(line@)[q] == pattern@ && esc_free(words(line@)[q]) ==> line_matches(
                    out.deep_view()[q],
                    words(line@)[q],
                ))
            } by {
                assert(out.deep_view()[q] == out@[q]@);
                if q < i {
                    assert(prev[q] == out@[q]@);
                } else {
                    assert(out@[q]@ == t@);
                }
            }
        }
        i = i + 1;
    }
    out
}

/// One rendered report line for a match: the decimal line number, the
/// separator, and a rendering of the line's words in which words equal to
/// the pattern are emphasized and all others stand unchanged.
pub open spec fn report_line_ok(num: int, line: Seq<char>, pat: Seq<char>, out: Seq<char>) -> bool {
    exists|ts: Seq<Seq<char>>|
        #[trigger] token_render_ok(words(line), pat, ts) && out == dec_digits(num as nat) + ": "@
            + joined(ts)
}

/// Renders one match line: the line number, `": "`, and the tokens each
/// followed by a space.
pub fn render_line(num: i32, tokens: &Vec<String>) -> (r: String)
    requires
        0 <= num,
    ensures
        r@ == dec_digits(num as nat) + ": "@ + joined(tokens.deep_view()),
{
    let mut s = dec_string(num as u32);
    s.append(": ");
    assert(s@ == dec_digits(num as nat) + ": "@);
    proof {
        assert(tokens.deep_view().take(0) =~= Seq::<Seq<char>>::empty());
        reveal_strlit(" ");
    }
    let mut i: usize = 0;
    while i < tokens.len()
        invariant
            i <= tokens@.len(),
            " "@ == seq![' '],
            s@ == dec_digits(num as nat) + ": "@ + joined(tokens.deep_view().take(i as int)),
        decreases tokens@.len() - i,
    {
        s.append(tokens[i].as_str());
        s.append(" ");
        proof {
            let ts = tokens.deep_view();
            assert(ts.take(i + 1).drop_last() =~= ts.take(i as int));
            assert(ts.take(i + 1).last() == ts[i as int]);
            assert(s@ =~= dec_digits(num as nat) + ": "@ + joined(ts.take(i + 1)));
        }
        i = i + 1;
    }
    assert(tokens.deep_view().take(tokens@.len() as int) =~= tokens.deep_view());
    s
}

/// The summary line of the report for a count of `n` matching lines.
pub open spec fn header_spec(n: nat) -> Seq<char> {
    "Pattern found on "@ + dec_digits(n) + " line(s)"@
}

/// Renders the summary line, "Pattern found on N line(s)".
pub fn header_line(count: i16) -> (r: String)
    requires
        0 <= count,
    ensures
        r@ == header_spec(count as nat),
{
    let mut s = "Pattern found on ".to_owned();
    s.append(dec_string(count as u32).as_str());
    s.append(" line(s)");
    assert(s@ =~= header_spec(count as nat));
    s
}

/// Renders the whole report: the summary line, then one line per match in
/// file order.
pub fn render_report(
    matches: &Vec<String>,
    line_nums: &Vec<i32>,
    count: i16,
    pattern: &str,
) -> (r: Vec<String>)
    requires
        line_nums@.len() == matches@.len(),
        forall|j: int| 0 <= j < line_nums@.len() ==> 0 <= #[trigger] line_nums@[j],
        0 <= count,
    ensures
        r@.len() == matches@.len() + 1,
        r@[0]@ == header_spec(count as nat),
        forall|j: int|
            0 <= j < matches@.len() ==> report_line_ok(
                line_nums@[j] as int,
                matches.deep_view()[j],
                pattern@,
                #[trigger] r@[j + 1]@,
            ),
{
    let mut out: Vec<String> = Vec::new();
    out.push(header_line(count));
    let mut j: usize = 0;
    while j < matches.len()
        invariant
            line_nums@.len() == matches@.len(),
            forall|q: int| 0 <= q < line_nums@.len() ==> 0 <= #[trigger] line_nums@[q],
            0 <= count,
            j <= matches@.len(),
            out@.len() == j + 1,
            out@[0]@ == header_spec(count as nat),
            forall|q: int|
                0 <= q < j ==> report_line_ok(
                    line_nums@[q] as int,
                    matches.deep_view()[q],
                    pattern@,
                    #[trigger] out@[q + 1]@,
                ),
        decreases matches@.len() - j,
    {
        let toks = highlight_tokens(matches[j].as_str(), pattern);
        let rendered = render_line(line_nums[j], &toks);
        out.push(rendered);
        proof {
            assert(matches.deep_view()[j as int] == matches@[j as int]@);
            assert(token_render_ok(
                words(matches.deep_view()[j as int]),
                pattern@,
                toks.deep_view(),
            ));
            assert(report_line_ok(
                line_nums@[j as int] as int,
                matches.deep_view()[j as int],
                pattern@,
                out@[j + 1]@,
            ));
        }
        j = j + 1;
    }
    out
}

} // verus!
