//! Line matching: which lines of a corpus contain the query.

use vstd::prelude::*;
use crate::config::Config;
use crate::lines::{spec_lines, split_lines};
use crate::substring::{contains_seq, contains_substring};

verus! {

/// The case-folded form of a text.  The folding is carried out by
/// `str::to_lowercase`, whose result depends on the input characters alone;
/// the contracts of this crate treat it as an opaque function of the text.
pub uninterp spec fn lowered(s: Seq<char>) -> Seq<char>;

/// Relies on `str::to_lowercase`: returns the lowercase form of the input,
/// a function of the input's characters alone.
#[verifier::external_body]
fn to_lower(s: &str) -> (r: String)
    ensures
        r@ == lowered(s@),
{
    s.to_lowercase()
}

/// Whether a line is kept by the search: the query must occur in the line,
/// both case-folded first when `fold_case` is set.
pub open spec fn keep_line(l: Seq<char>, q: Seq<char>, fold_case: bool) -> bool {
    if fold_case {
        contains_seq(lowered(l), lowered(q))
    } else {
        contains_seq(l, q)
    }
}

/// The lines among `lines` that the query keeps, in order.
pub open spec fn matching_lines(lines: Seq<Seq<char>>, q: Seq<char>, fold_case: bool) -> Seq<
    Seq<char>,
>
    decreases lines.len(),
{
    if lines.len() == 0 {
        Seq::empty()
    } else {
        let rest = matching_lines(lines.drop_last(), q, fold_case);
        if keep_line(lines.last(), q, fold_case) {
            rest.push(lines.last())
        } else {
            rest
        }
    }
}

/// The views of a sequence of borrowed string slices.
pub open spec fn views_of(lines: Seq<&str>) -> Seq<Seq<char>> {
    lines.map_values(|l: &str| l@)
}

/// What `search` returns, as a sequence of character sequences.
pub open spec fn spec_search(q: Seq<char>, c: Seq<char>) -> Seq<Seq<char>> {
    matching_lines(spec_lines(c), q, false)
}

/// What `search_case_insensitive` returns.
pub open spec fn spec_search_case_insensitive(q: Seq<char>, c: Seq<char>) -> Seq<Seq<char>> {
    matching_lines(spec_lines(c), q, true)
}

/// Whether `line` is kept for `query` in the given mode.
fn line_matches(line: &str, query: &str, fold_case: bool) -> (r: bool)
    ensures
        r == keep_line(line@, query@, fold_case),
{
    if fold_case {
        let folded_line = to_lower(line);
        let folded_query = to_lower(query);
        contains_substring(folded_line.as_str(), folded_query.as_str())
    } else {
        contains_substring(line, query)
    }
}

/// Splits the corpus into lines and keeps those the query matches.
fn search_impl<'a>(query: &str, contents: &'a str, fold_case: bool) -> (r: Vec<&'a str>)
    ensures
        views_of(r@) == matching_lines(spec_lines(contents@), query@, fold_case),
{
    let lines = split_lines(contents);
    let ghost lv = views_of(lines@);
    let mut out: Vec<&'a str> = Vec::new();
    let mut idx: usize = 0;
    proof {
        assert(lv.take(0) =~= Seq::<Seq<char>>::empty());
        assert(views_of(out@) =~= matching_lines(lv.take(0), query@, fold_case));
    }
    while idx < lines.len()
        invariant
            idx <= lines@.len(),
            views_of(lines@) == spec_lines(contents@),
            lv == views_of(lines@),
            views_of(out@) == matching_lines(lv.take(idx as int), query@, fold_case),
        decreases lines@.len() - idx,
    {
        let line = lines[idx];
        let ghost prev_out = views_of(out@);
        if line_matches(line, query, fold_case) {
            out.push(line);
        }
        proof {
            assert(lv[idx as int] == line@);
            assert(lv.take(idx + 1).drop_last() =~= lv.take(idx as int));
            assert(lv.take(idx + 1).last() == lv[idx as int]);
            assert(matching_lines(lv.take(idx + 1), query@, fold_case) == (if keep_line(
                line@,
                query@,
                fold_case,
            ) {
                matching_lines(lv.take(idx as int), query@, fold_case).push(line@)
            } else {
                matching_lines(lv.take(idx as int), query@, fold_case)
            }));
            if keep_line(line@, query@, fold_case) {
                assert(views_of(out@) =~= prev_out.push(line@));
            }
        }
        idx += 1;
    }
    proof {
        assert(lv.take(lines@.len() as int) =~= lv);
    }
    out
}

/// Returns the lines of `contents` that contain `query` as a literal
/// substring, in corpus order.
pub fn search<'a>(query: &str, contents: &'a str) -> (r: Vec<&'a str>)
    ensures
        views_of(r@) == spec_search(query@, contents@),
{
    search_impl(query, contents, false)
}

/// Returns the lines of `contents` whose case-folded form contains the
/// case-folded form of `query`, in corpus order; the returned lines keep
/// their original casing.
pub fn search_case_insensitive<'a>(query: &str, contents: &'a str) -> (r: Vec<&'a str>)
    ensures
        views_of(r@) == spec_search_case_insensitive(query@, contents@),
{
    search_impl(query, contents, true)
}

/// Runs the search that the configuration selects: case-insensitive when
/// `ignore_case` is set, exact otherwise.
pub fn run_search<'a>(config: &Config, contents: &'a str) -> (r: Vec<&'a str>)
    ensures
        views_of(r@) == (if config.ignore_case {
            spec_search_case_insensitive(config.query@, contents@)
        } else {
            spec_search(config.query@, contents@)
        }),
{
    if config.ignore_case {
        search_case_insensitive(config.query.as_str(), contents)
    } else {
        search(config.query.as_str(), contents)
    }
}

} // verus!
