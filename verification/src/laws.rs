//! The search's guarantees, stated and proved over the specification:
//! soundness, completeness and order preservation of both search modes, and
//! the behaviour on empty queries and empty corpora.

use vstd::prelude::*;
use crate::lines::spec_lines;
use crate::search::{
    keep_line, lowered, matching_lines, spec_search, spec_search_case_insensitive,
};
use crate::substring::{contains_at, contains_seq};

verus! {

/// The corpus positions of the lines that the query keeps, in increasing
/// order: the order witness for both search modes.
pub open spec fn matching_positions(lines: Seq<Seq<char>>, q: Seq<char>, fold_case: bool) -> Seq<
    int,
>
    decreases lines.len(),
{
    if lines.len() == 0 {
        Seq::empty()
    } else {
        let rest = matching_positions(lines.drop_last(), q, fold_case);
        if keep_line(lines.last(), q, fold_case) {
            rest.push(lines.len() - 1)
        } else {
            rest
        }
    }
}

/// The matched lines are exactly the lines at the matching positions: the
/// positions are in range and strictly increasing, the result lists the
/// lines standing at them, every one of those lines satisfies the match
/// predicate, and every line satisfying it stands at a kept position.
pub proof fn lemma_matching_lines_positions(lines: Seq<Seq<char>>, q: Seq<char>, fold_case: bool)
    ensures
        ({
            let res = matching_lines(lines, q, fold_case);
            let pos = matching_positions(lines, q, fold_case);
            &&& res.len() == pos.len()
            &&& forall|k: int| 0 <= k < pos.len() ==> 0 <= #[trigger] pos[k] < lines.len()
            &&& forall|k: int| 0 <= k < pos.len() ==> res[k] == lines[#[trigger] pos[k]]
            &&& forall|k1: int, k2: int|
                0 <= k1 < k2 < pos.len() ==> #[trigger] pos[k1] < #[trigger] pos[k2]
            &&& forall|k: int|
                0 <= k < pos.len() ==> keep_line(lines[#[trigger] pos[k]], q, fold_case)
            &&& forall|j: int|
                0 <= j < lines.len() && keep_line(#[trigger] lines[j], q, fold_case)
                    ==> pos.contains(j)
        }),
    decreases lines.len(),
{
    if lines.len() == 0 {
    } else {
        let prev = lines.drop_last();
        lemma_matching_lines_positions(prev, q, fold_case);
        let res = matching_lines(lines, q, fold_case);
        let pos = matching_positions(lines, q, fold_case);
        let res0 = matching_lines(prev, q, fold_case);
        let pos0 = matching_positions(prev, q, fold_case);
        let last = lines.last();
        let n = lines.len() - 1;
        assert(forall|j: int| 0 <= j < n ==> #[trigger] prev[j] == lines[j]);
        if keep_line(last, q, fold_case) {
            assert(res == res0.push(last));
            assert(pos == pos0.push(n as int));
            assert forall|j: int|
                0 <= j < lines.len() && keep_line(#[trigger] lines[j], q, fold_case) implies pos
                .contains(j) by {
                if j < n {
                    assert(prev[j] == lines[j]);
                    assert(keep_line(prev[j], q, fold_case));
                    assert(pos0.contains(j));
                    let k = choose|k: int| 0 <= k < pos0.len() && pos0[k] == j;
                    assert(pos[k] == j);
                } else {
                    assert(pos[pos.len() - 1] == n as int);
                }
            }
            assert forall|k: int| 0 <= k < pos.len() implies 0 <= #[trigger] pos[k] < lines.len()
                && res[k] == lines[pos[k]] && keep_line(lines[pos[k]], q, fold_case) by {
                if k < pos0.len() {
                    assert(pos[k] == pos0[k]);
                    assert(res[k] == res0[k]);
                    assert(prev[pos0[k]] == lines[pos0[k]]);
                } else {
                    assert(pos[k] == n as int);
                    assert(res[k] == last);
                }
            }
            assert forall|k1: int, k2: int| 0 <= k1 < k2 < pos.len() implies #[trigger] pos[k1]
                < #[trigger] pos[k2] by {
                assert(pos[k1] == pos0[k1]);
                if k2 < pos0.len() {
                    assert(pos[k2] == pos0[k2]);
                } else {
                    assert(pos[k2] == n as int);
                    assert(0 <= pos0[k1] < prev.len());
                }
            }
        } else {
            assert(res == res0);
            assert(pos == pos0);
            assert forall|j: int|
                0 <= j < lines.len() && keep_line(#[trigger] lines[j], q, fold_case) implies pos
                .contains(j) by {
                assert(j < n);
                assert(prev[j] == lines[j]);
                assert(keep_line(prev[j], q, fold_case));
                assert(pos0.contains(j));
            }
            assert forall|k: int| 0 <= k < pos.len() implies 0 <= #[trigger] pos[k] < lines.len()
                && res[k] == lines[pos[k]] && keep_line(lines[pos[k]], q, fold_case) by {
                assert(prev[pos0[k]] == lines[pos0[k]]);
            }
        }
    }
}

/// Every line returned by the case-sensitive search contains the query as a
/// literal substring, every corpus line containing it is returned, and the
/// results keep the corpus's order (the positions are strictly increasing).
pub proof fn lemma_search_sound_complete(q: Seq<char>, c: Seq<char>)
    ensures
        ({
            let res = spec_search(q, c);
            let lines = spec_lines(c);
            let pos = matching_positions(lines, q, false);
            &&& res.len() == pos.len()
            &&& forall|k: int| 0 <= k < pos.len() ==> 0 <= #[trigger] pos[k] < lines.len()
            &&& forall|k: int| 0 <= k < res.len() ==> res[k] == lines[#[trigger] pos[k]]
            &&& forall|k1: int, k2: int|
                0 <= k1 < k2 < pos.len() ==> #[trigger] pos[k1] < #[trigger] pos[k2]
            &&& forall|k: int| 0 <= k < res.len() ==> contains_seq(#[trigger] res[k], q)
            &&& forall|j: int|
                0 <= j < lines.len() && contains_seq(#[trigger] lines[j], q) ==> pos.contains(j)
                    && res.contains(lines[j])
        }),
{
    lemma_matching_lines_positions(spec_lines(c), q, false);
    let res = spec_search(q, c);
    let lines = spec_lines(c);
    let pos = matching_positions(lines, q, false);
    assert forall|k: int| 0 <= k < res.len() implies contains_seq(#[trigger] res[k], q) by {
        assert(res[k] == lines[pos[k]]);
        assert(keep_line(lines[pos[k]], q, false));
    }
    assert forall|j: int| 0 <= j < lines.len() && contains_seq(#[trigger] lines[j], q) implies pos
        .contains(j) && res.contains(lines[j]) by {
        assert(keep_line(lines[j], q, false));
        assert(pos.contains(j));
        let k = choose|k: int| 0 <= k < pos.len() && pos[k] == j;
        assert(res[k] == lines[j]);
    }
}

/// The case-insensitive search returns exactly the lines whose case-folded
/// form contains the case-folded query — each with its original casing, at
/// its corpus position, in corpus order.
pub proof fn lemma_search_case_insensitive_exact(q: Seq<char>, c: Seq<char>)
    ensures
        ({
            let res = spec_search_case_insensitive(q, c);
            let lines = spec_lines(c);
            let pos = matching_positions(lines, q, true);
            &&& res.len() == pos.len()
            &&& forall|k: int| 0 <= k < pos.len() ==> 0 <= #[trigger] pos[k] < lines.len()
            &&& forall|k: int| 0 <= k < res.len() ==> res[k] == lines[#[trigger] pos[k]]
            &&& forall|k1: int, k2: int|
                0 <= k1 < k2 < pos.len() ==> #[trigger] pos[k1] < #[trigger] pos[k2]
            &&& forall|k: int|
                0 <= k < res.len() ==> contains_seq(lowered(#[trigger] res[k]), lowered(q))
            &&& forall|j: int|
                0 <= j < lines.len() && contains_seq(lowered(#[trigger] lines[j]), lowered(q))
                    ==> pos.contains(j) && res.contains(lines[j])
        }),
{
    lemma_matching_lines_positions(spec_lines(c), q, true);
    let res = spec_search_case_insensitive(q, c);
    let lines = spec_lines(c);
    let pos = matching_positions(lines, q, true);
    assert forall|k: int| 0 <= k < res.len() implies contains_seq(
        lowered(#[trigger] res[k]),
        lowered(q),
    ) by {
        assert(res[k] == lines[pos[k]]);
        assert(keep_line(lines[pos[k]], q, true));
    }
    assert forall|j: int|
        0 <= j < lines.len() && contains_seq(lowered(#[trigger] lines[j]), lowered(q)) implies pos
        .contains(j) && res.contains(lines[j]) by {
        assert(keep_line(lines[j], q, true));
        assert(pos.contains(j));
        let k = choose|k: int| 0 <= k < pos.len() && pos[k] == j;
        assert(res[k] == lines[j]);
    }
}

/// When the query keeps every line, the search is the identity on the lines.
proof fn lemma_matching_lines_all_kept(lines: Seq<Seq<char>>, q: Seq<char>, fold_case: bool)
    requires
        forall|j: int| 0 <= j < lines.len() ==> keep_line(#[trigger] lines[j], q, fold_case),
    ensures
        matching_lines(lines, q, fold_case) == lines,
    decreases lines.len(),
{
    if lines.len() == 0 {
        assert(matching_lines(lines, q, fold_case) =~= lines);
    } else {
        assert forall|j: int| 0 <= j < lines.drop_last().len() implies keep_line(
            #[trigger] lines.drop_last()[j],
            q,
            fold_case,
        ) by {
            assert(lines.drop_last()[j] == lines[j]);
        }
        lemma_matching_lines_all_kept(lines.drop_last(), q, fold_case);
        assert(matching_lines(lines, q, fold_case) =~= lines);
    }
}

/// An empty query is a substring of every line: searching for it returns the
/// whole corpus, line for line, in order.
pub proof fn lemma_search_empty_query(c: Seq<char>)
    ensures
        spec_search(Seq::empty(), c) == spec_lines(c),
{
    let lines = spec_lines(c);
    assert forall|j: int| 0 <= j < lines.len() implies keep_line(
        #[trigger] lines[j],
        Seq::empty(),
        false,
    ) by {
        assert(lines[j].subrange(0, 0) =~= Seq::<char>::empty());
        assert(contains_at(lines[j], Seq::empty(), 0));
    }
    lemma_matching_lines_all_kept(lines, Seq::empty(), false);
}

/// An empty corpus has no lines, so either search over it returns nothing.
pub proof fn lemma_search_empty_corpus(q: Seq<char>)
    ensures
        spec_search(q, Seq::empty()) == Seq::<Seq<char>>::empty(),
        spec_search_case_insensitive(q, Seq::empty()) == Seq::<Seq<char>>::empty(),
{
    assert(spec_lines(Seq::empty()) == Seq::<Seq<char>>::empty());
    assert(matching_lines(Seq::<Seq<char>>::empty(), q, false) == Seq::<Seq<char>>::empty());
    assert(matching_lines(Seq::<Seq<char>>::empty(), q, true) == Seq::<Seq<char>>::empty());
}

} // verus!
