//! A small line-oriented pattern search library.
//!
//! Given a literal pattern and the lines of a text file, the library
//! truncates each line for display, selects the lines that contain the
//! pattern as a substring, and renders a report in which every word equal
//! to the pattern is emphasized.

pub mod chars;
pub mod cli;
pub mod lines;
pub mod report;
pub mod search;
pub mod words;

use vstd::prelude::*;

verus! {

pub use cli::parse_args;
pub use lines::parse_file;
pub use lines::truncate;
pub use search::find_pattern;
pub use words::splice;

/// The outcome of the search pipeline on the raw lines `raw` with pattern
/// `pat`: the truncated matching lines in file order, and their 1-based
/// line numbers.
pub open spec fn search_spec(raw: Seq<Seq<char>>, pat: Seq<char>) -> (Seq<Seq<char>>, Seq<int>) {
    let truncated = raw.map_values(|l: Seq<char>| lines::trunc_spec(l));
    (search::matched_lines(truncated, pat), search::matched_nums(truncated, pat))
}

/// Truncates every raw line for display and scans the truncated lines for
/// the pattern. Returns the matching lines, their 1-based line numbers and
/// the match count, which equals the number of matching lines.
pub fn run_search(raw: &Vec<String>, pattern: &str) -> (r: (Vec<String>, Vec<i32>, i16))
    requires
        raw@.len() < 32768,
    ensures
        r.0.deep_view() == search_spec(raw.deep_view(), pattern@).0,
        r.1@.map_values(|x: i32| x as int) == search_spec(raw.deep_view(), pattern@).1,
        r.1@.len() == r.0@.len(),
        r.2 as int == r.0@.len(),
{
    let truncated = parse_file(raw);
    proof {
        assert(truncated.deep_view() =~= raw.deep_view().map_values(
            |l: Seq<char>| lines::trunc_spec(l),
        ));
    }
    find_pattern(truncated, pattern)
}

/// The whole pipeline: truncates the raw lines, searches for the pattern
/// and renders the report, one output line per element of the result. The
/// first element is the summary line and each further element describes
/// one match, in file order.
pub fn run_grep(raw: &Vec<String>, pattern: &str) -> (r: Vec<String>)
    requires
        raw@.len() < 32768,
    ensures
        ({
            let m = search_spec(raw.deep_view(), pattern@);
            &&& r@.len() == m.0.len() + 1
            &&& r@[0]@ == report::header_spec(m.0.len())
            &&& forall|j: int|
                0 <= j < m.0.len() ==> report::report_line_ok(
                    m.1[j],
                    m.0[j],
                    pattern@,
                    #[trigger] r@[j + 1]@,
                )
        }),
{
    let (matches, line_numbers, count) = run_search(raw, pattern);
    proof {
        let ghost truncated = raw.deep_view().map_values(|l: Seq<char>| lines::trunc_spec(l));
        search::lemma_matched_nums_bounds(truncated, pattern@);
        assert forall|j: int| 0 <= j < line_numbers@.len() implies 0 <= #[trigger] line_numbers@[j] by {
            assert(line_numbers@.map_values(|x: i32| x as int)[j] == line_numbers@[j] as int);
        }
    }
    let rendered = report::render_report(&matches, &line_numbers, count, pattern);
    proof {
        let m = search_spec(raw.deep_view(), pattern@);
        assert forall|j: int| 0 <= j < m.0.len() implies report::report_line_ok(
            m.1[j],
            m.0[j],
            pattern@,
            #[trigger] rendered@[j + 1]@,
        ) by {
            assert(matches.deep_view()[j] == m.0[j]);
            assert(line_numbers@.map_values(|x: i32| x as int)[j] == line_numbers@[j] as int);
            assert(report::report_line_ok(
                line_numbers@[j] as int,
                matches.deep_view()[j],
                pattern@,
                rendered@[j + 1]@,
            ));
        }
    }
    rendered
}

/// Law: the pipeline holds no hidden state. Its outcome is a function of
/// the raw lines and the pattern alone, so two runs on identical inputs
/// yield identical matching lines and identical line numbers.
pub proof fn lemma_search_deterministic(
    raw1: Seq<Seq<char>>,
    pat1: Seq<char>,
    raw2: Seq<Seq<char>>,
    pat2: Seq<char>,
)
    requires
        raw1 == raw2,
        pat1 == pat2,
    ensures
        search_spec(raw1, pat1) == search_spec(raw2, pat2),
{
}

} // verus!
