//! The robots policy reader: which paths the lines of a robots.txt body
//! disallow. Fetching the file and reporting the paths is the driver's
//! side; the per-line rule lives here. The report is informational only
//! and does not gate either traversal engine.

use vstd::prelude::*;
use vstd::string::StrSliceExecFns;
use crate::text::{check_match_at, matches_at};

verus! {

/// The position where ": " first occurs in `line`, or the line's length
/// where it occurs nowhere.
pub open spec fn first_sep(line: Seq<char>) -> int
    decreases line.len(),
{
    if line.len() < 2 {
        line.len() as int
    } else if line[0] == ':' && line[1] == ' ' {
        0
    } else {
        1 + first_sep(line.drop_first())
    }
}

/// The range of `first_sep`, and that it points at a separator with none
/// before it.
pub proof fn lemma_first_sep(line: Seq<char>)
    ensures
        0 <= first_sep(line) <= line.len(),
        first_sep(line) < line.len() ==> {
            &&& first_sep(line) + 1 < line.len()
            &&& line[first_sep(line)] == ':'
            &&& line[first_sep(line) + 1] == ' '
        },
    decreases line.len(),
{
    if line.len() >= 2 && !(line[0] == ':' && line[1] == ' ') {
        lemma_first_sep(line.drop_first());
    }
}

/// Where a separator stands at `i` and none stands earlier, `first_sep`
/// finds exactly `i`.
pub proof fn lemma_first_sep_at(line: Seq<char>, i: int)
    requires
        0 <= i,
        i + 2 <= line.len(),
        line[i] == ':' && line[i + 1] == ' ',
        forall|k: int| 0 <= k < i ==> !(#[trigger] line[k] == ':' && line[k + 1] == ' '),
    ensures
        first_sep(line) == i,
    decreases line.len(),
{
    if i > 0 {
        lemma_first_sep_at(line.drop_first(), i - 1);
    }
}

/// Where no separator stands anywhere, `first_sep` is the line's length.
pub proof fn lemma_first_sep_none(line: Seq<char>)
    requires
        forall|k: int|
            0 <= k && k + 2 <= line.len() ==> !(#[trigger] line[k] == ':' && line[k + 1] == ' '),
    ensures
        first_sep(line) == line.len(),
    decreases line.len(),
{
    if line.len() >= 2 {
        lemma_first_sep_none(line.drop_first());
    }
}

/// Finds where ": " first occurs in `line`, or `line`'s length.
fn find_sep(line: &str, line_len: usize) -> (r: usize)
    requires
        line_len == line@.len(),
    ensures
        r == first_sep(line@),
{
    if line_len < 2 {
        return line_len;
    }
    let mut j: usize = 0;
    while j < line_len - 1
        invariant
            line_len == line@.len(),
            2 <= line_len,
            0 <= j <= line_len - 1,
            forall|k: int| 0 <= k < j ==> !(#[trigger] line@[k] == ':' && line@[k + 1] == ' '),
        decreases line_len - j,
    {
        if line.get_char(j) == ':' && line.get_char(j + 1) == ' ' {
            proof {
                lemma_first_sep_at(line@, j as int);
            }
            return j;
        }
        j += 1;
    }
    proof {
        lemma_first_sep_none(line@);
    }
    line_len
}

/// A line that configures a disallowed path: it starts with "Disallow".
pub open spec fn is_disallow_line(line: Seq<char>) -> bool {
    matches_at(line, "Disallow"@, 0)
}

/// The value of a Disallow line: the text between the first ": " and the
/// next ": " or the end of the line — the second piece of the line cut at
/// ": " — or "/" where the line has no separator at all.
pub open spec fn spec_disallow_value(line: Seq<char>) -> Seq<char> {
    let i = first_sep(line);
    if i == line.len() {
        "/"@
    } else {
        let rest = line.subrange(i + 2, line.len() as int);
        rest.take(first_sep(rest))
    }
}

/// The value of `line` where it is a Disallow line, and `None` otherwise.
pub fn disallow_value(line: &str) -> (r: Option<String>)
    ensures
        r is Some <==> is_disallow_line(line@),
        (r matches Some(v) ==> v@ == spec_disallow_value(line@)),
{
    let line_len = line.unicode_len();
    proof {
        reveal_strlit("Disallow");
    }
    if line_len < 8 {
        return None;
    }
    if !check_match_at(line, "Disallow", 0, line_len, 8) {
        return None;
    }
    let i = find_sep(line, line_len);
    proof {
        lemma_first_sep(line@);
    }
    if i == line_len {
        Some("/".to_owned())
    } else {
        let rest = line.substring_char(i + 2, line_len);
        let j = find_sep(rest, line_len - (i + 2));
        proof {
            lemma_first_sep(rest@);
        }
        Some(rest.substring_char(0, j).to_owned())
    }
}

/// The Disallow lines among `lines`, in order.
pub open spec fn keep_disallow(lines: Seq<Seq<char>>) -> Seq<Seq<char>> {
    lines.filter(|l: Seq<char>| is_disallow_line(l))
}

/// The disallowed paths among `lines`, in order: the value of each
/// Disallow line.
pub open spec fn spec_disallowed_paths(lines: Seq<Seq<char>>) -> Seq<Seq<char>> {
    keep_disallow(lines).map_values(|l: Seq<char>| spec_disallow_value(l))
}

/// Reports every disallowed path that the lines of a robots.txt body
/// configure, one per Disallow line, in order.
pub fn disallowed_paths(lines: &Vec<String>) -> (r: Vec<String>)
    ensures
        r.deep_view() == spec_disallowed_paths(lines.deep_view()),
{
    let ghost ls = lines.deep_view();
    let mut out: Vec<String> = Vec::new();
    let mut i: usize = 0;
    proof {
        reveal(Seq::filter);
        assert(ls.take(0) =~= Seq::<Seq<char>>::empty());
        assert(out.deep_view() =~= spec_disallowed_paths(ls.take(0)));
    }
    while i < lines.len()
        invariant
            ls == lines.deep_view(),
            0 <= i <= lines@.len(),
            out.deep_view() == spec_disallowed_paths(ls.take(i as int)),
        decreases lines@.len() - i,
    {
        proof {
            reveal(Seq::filter);
            assert(ls.take(i + 1).drop_last() =~= ls.take(i as int));
            assert(ls.take(i + 1).last() == ls[i as int]);
            assert(lines.deep_view()[i as int] == lines@[i as int]@);
        }
        match disallow_value(lines[i].as_str()) {
            Some(v) => {
                let ghost before = out.deep_view();
                out.push(v);
                proof {
                    reveal(Seq::filter);
                    assert(keep_disallow(ls.take(i + 1)) =~= keep_disallow(
                        ls.take(i as int),
                    ).push(ls[i as int]));
                    assert(out.deep_view() =~= before.push(spec_disallow_value(ls[i as int])));
                    assert(out.deep_view() =~= spec_disallowed_paths(ls.take(i + 1)));
                }
            },
            None => {
                proof {
                    reveal(Seq::filter);
                    assert(keep_disallow(ls.take(i + 1)) =~= keep_disallow(ls.take(i as int)));
                    assert(out.deep_view() =~= spec_disallowed_paths(ls.take(i + 1)));
                }
            },
        }
        i += 1;
    }
    proof {
        assert(ls.take(lines@.len() as int) =~= ls);
    }
    out
}

} // verus!
