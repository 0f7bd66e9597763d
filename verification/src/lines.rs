//! Splitting a corpus into lines.
//!
//! A corpus is cut at every `'\n'`; a `'\r'` immediately before the `'\n'`
//! belongs to the terminator and is stripped.  The final line terminator is
//! optional: a trailing `'\n'` does not produce an extra empty line.

use vstd::prelude::*;
use vstd::string::StrSliceExecFns;

verus! {

/// A line with its terminator's `'\r'` removed: drops a final `'\r'`,
/// leaves any other text alone.
pub open spec fn strip_cr(l: Seq<char>) -> Seq<char> {
    if l.len() > 0 && l.last() == '\r' {
        l.drop_last()
    } else {
        l
    }
}

/// Position of the first `'\n'` in `s`, or `s.len()` if there is none.
pub open spec fn first_newline(s: Seq<char>) -> nat
    decreases s.len(),
{
    if s.len() == 0 {
        0
    } else if s[0] == '\n' {
        0
    } else {
        1 + first_newline(s.drop_first())
    }
}

/// The lines of the corpus `s`, in order, terminators stripped.
pub open spec fn spec_lines(s: Seq<char>) -> Seq<Seq<char>>
    decreases s.len(),
{
    if s.len() == 0 {
        Seq::empty()
    } else {
        let i = first_newline(s);
        if i >= s.len() {
            seq![s]
        } else {
            seq![strip_cr(s.take(i as int))] + spec_lines(s.skip(i + 1 as int))
        }
    }
}

/// `first_newline` is pinned down by where the newlines are: if no position
/// before `j` holds a `'\n'` and `j` is either the end or a `'\n'`, the first
/// newline is at `j`.
proof fn lemma_first_newline_at(s: Seq<char>, j: int)
    requires
        0 <= j <= s.len(),
        forall|k: int| 0 <= k < j ==> s[k] != '\n',
        j < s.len() ==> s[j] == '\n',
    ensures
        first_newline(s) == j,
    decreases s.len(),
{
    if s.len() == 0 {
    } else if s[0] == '\n' {
        assert(j == 0);
    } else {
        assert(j >= 1);
        let t = s.drop_first();
        assert forall|k: int| 0 <= k < j - 1 implies t[k] != '\n' by {
            assert(t[k] == s[k + 1]);
        }
        assert(j - 1 < t.len() ==> t[j - 1] == s[j]);
        lemma_first_newline_at(t, j - 1);
    }
}

/// Splits the corpus into its lines.  Each returned slice borrows from
/// `contents`; together, viewed as character sequences, they are exactly
/// `spec_lines(contents@)`.
pub fn split_lines<'a>(contents: &'a str) -> (lines: Vec<&'a str>)
    ensures
        lines@.map_values(|l: &str| l@) == spec_lines(contents@),
{
    let n = contents.unicode_len();
    let mut lines: Vec<&'a str> = Vec::new();
    let mut pos: usize = 0;
    proof {
        assert(contents@.skip(0) =~= contents@);
        assert(lines@.map_values(|l: &str| l@) + spec_lines(contents@.skip(0)) =~= spec_lines(
            contents@,
        ));
    }
    while pos < n
        invariant
            pos <= n,
            n == contents@.len(),
            lines@.map_values(|l: &str| l@) + spec_lines(contents@.skip(pos as int)) == spec_lines(
                contents@,
            ),
        decreases n - pos,
    {
        let ghost s = contents@;
        let ghost rest = s.skip(pos as int);
        let ghost done = lines@.map_values(|l: &str| l@);
        let mut j: usize = pos;
        while j < n && contents.get_char(j) != '\n'
            invariant
                pos <= j <= n,
                n == contents@.len(),
                forall|k: int| pos <= k < j ==> contents@[k] != '\n',
            decreases n - j,
        {
            j += 1;
        }
        proof {
            assert forall|k: int| 0 <= k < j - pos implies rest[k] != '\n' by {
                assert(rest[k] == s[k + pos]);
            }
            assert(j - pos < rest.len() ==> rest[j - pos] == s[j as int]);
            lemma_first_newline_at(rest, j - pos);
        }
        if j == n {
            let line = contents.substring_char(pos, n);
            lines.push(line);
            proof {
                assert(rest.len() > 0 && first_newline(rest) >= rest.len());
                assert(spec_lines(rest) == seq![rest]);
                assert(line@ =~= rest);
                assert(lines@.map_values(|l: &str| l@) =~= done.push(line@));
                assert(done.push(line@) =~= done + seq![rest]);
                assert(s.skip(n as int) =~= Seq::<char>::empty());
                assert((done + seq![rest]) + spec_lines(s.skip(n as int)) =~= done + spec_lines(
                    rest,
                ));
            }
            pos = n;
        } else {
            let end = if j > pos && contents.get_char(j - 1) == '\r' {
                j - 1
            } else {
                j
            };
            let line = contents.substring_char(pos, end);
            lines.push(line);
            proof {
                let i = first_newline(rest);
                assert(i == j - pos && i < rest.len());
                assert(spec_lines(rest) == seq![strip_cr(rest.take(i as int))] + spec_lines(
                    rest.skip(i as int + 1),
                ));
                assert(rest.take(i as int) =~= s.subrange(pos as int, j as int));
                if j > pos && s[j - 1] == '\r' {
                    assert(rest.take(i as int).len() > 0 && rest.take(i as int).last() == '\r');
                    assert(strip_cr(rest.take(i as int)) =~= s.subrange(pos as int, j - 1));
                    assert(line@ == strip_cr(rest.take(i as int)));
                } else {
                    assert(strip_cr(rest.take(i as int)) == rest.take(i as int));
                    assert(line@ == strip_cr(rest.take(i as int)));
                }
                assert(rest.skip(i as int + 1) =~= s.skip(j + 1));
                assert(lines@.map_values(|l: &str| l@) =~= done.push(line@));
                assert(done.push(line@) =~= done + seq![line@]);
                assert((done + seq![line@]) + spec_lines(s.skip(j + 1)) =~= done + spec_lines(
                    rest,
                ));
            }
            pos = j + 1;
        }
    }
    proof {
        assert(contents@.skip(pos as int) =~= Seq::<char>::empty());
        assert(lines@.map_values(|l: &str| l@) + Seq::<Seq<char>>::empty() =~= lines@.map_values(
            |l: &str| l@,
        ));
    }
    lines
}

} // verus!
