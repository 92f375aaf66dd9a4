//! The candidate formatter: splits generator output into candidate
//! lines and renders each as a selectable launcher item.

use vstd::prelude::*;

use crate::interp::interpolate;
use crate::interp::replace_all;
use crate::text::chars_to_string;
use crate::text::str_to_chars;
use crate::text::token;

verus! {

/// The segments of `s` between line feeds, in order; splitting the
/// empty text gives one empty segment, as splitting on a character
/// does.
pub open spec fn split_lines(s: Seq<char>) -> Seq<Seq<char>>
    decreases s.len(),
{
    if s.len() == 0 {
        seq![Seq::<char>::empty()]
    } else if s[0] == '\n' {
        seq![Seq::<char>::empty()] + split_lines(s.skip(1))
    } else {
        let rest = split_lines(s.skip(1));
        seq![seq![s[0]] + rest[0]] + rest.skip(1)
    }
}

/// Splitting always yields at least one segment.
pub proof fn lemma_split_lines_len(s: Seq<char>)
    ensures
        split_lines(s).len() >= 1,
    decreases s.len(),
{
    if s.len() != 0 {
        lemma_split_lines_len(s.skip(1));
    }
}

/// The candidate lines of raw generator output: its line-feed-separated
/// segments, with the one empty segment caused by a final line feed
/// suppressed, so that output ending in a newline yields no trailing
/// empty candidate.
pub open spec fn candidate_lines(s: Seq<char>) -> Seq<Seq<char>> {
    if s.len() > 0 && s[s.len() - 1] == '\n' {
        split_lines(s.subrange(0, s.len() - 1))
    } else {
        split_lines(s)
    }
}

/// Split the characters from position `i` on at every line feed.
fn split_from(v: &Vec<char>, i: usize) -> (r: Vec<String>)
    requires
        i <= v@.len(),
    ensures
        r@.map_values(|l: String| l@) == split_lines(v@.skip(i as int)),
    decreases v@.len() - i,
{
    if i == v.len() {
        let mut r: Vec<String> = Vec::new();
        r.push(String::new());
        proof {
            assert(v@.skip(i as int) =~= Seq::<char>::empty());
            assert(r@.map_values(|l: String| l@) =~= split_lines(v@.skip(i as int)));
        }
        r
    } else if v[i] == '\n' {
        let mut r = split_from(v, i + 1);
        r.insert(0, String::new());
        proof {
            assert(v@.skip(i as int)[0] == v@[i as int]);
            assert(v@.skip(i as int).skip(1) =~= v@.skip(i + 1));
            assert(r@.map_values(|l: String| l@) =~= split_lines(v@.skip(i as int)));
        }
        r
    } else {
        // collect the line up to the next line feed or the end
        let n = v.len();
        let mut j: usize = i;
        let mut line: Vec<char> = Vec::new();
        while j < n && v[j] != '\n'
            invariant
                n == v@.len(),
                i <= j <= n,
                line@ == v@.subrange(i as int, j as int),
                forall|k: int| i <= k < j ==> #[trigger] v@[k] != '\n',
            decreases n - j,
        {
            line.push(v[j]);
            proof {
                assert(line@ =~= v@.subrange(i as int, j + 1));
            }
            j = j + 1;
        }
        let first = chars_to_string(&line);
        proof {
            lemma_split_lines_skip_clean(v@, i as int, j as int);
        }
        if j == n {
            let mut r: Vec<String> = Vec::new();
            r.push(first);
            proof {
                assert(v@.skip(j as int) =~= Seq::<char>::empty());
                assert(split_lines(v@.skip(i as int)) =~= seq![v@.subrange(i as int, j as int)]);
                assert(r@.map_values(|l: String| l@) =~= split_lines(v@.skip(i as int)));
            }
            r
        } else {
            let mut r = split_from(v, j + 1);
            r.insert(0, first);
            proof {
                assert(r@.map_values(|l: String| l@) =~= split_lines(v@.skip(i as int)));
            }
            r
        }
    }
}

/// Unrolling `split_lines` past a line-feed-free stretch: the first
/// segment reaches to the next line feed, or to the end.
proof fn lemma_split_lines_skip_clean(v: Seq<char>, i: int, j: int)
    requires
        0 <= i <= j <= v.len(),
        forall|k: int| i <= k < j ==> v[k] != '\n',
        j == v.len() || v[j] == '\n',
    ensures
        j == v.len() ==> split_lines(v.skip(i)) == seq![v.subrange(i, j)],
        j < v.len() ==> split_lines(v.skip(i)) == seq![v.subrange(i, j)] + split_lines(
            v.skip(j + 1),
        ),
    decreases j - i,
{
    if i == j {
        if j == v.len() {
            assert(v.skip(i) =~= Seq::<char>::empty());
            assert(v.subrange(i, j) =~= Seq::<char>::empty());
        } else {
            assert(v.skip(i)[0] == v[i]);
            assert(v.skip(i).len() > 0);
            assert(v.skip(i).skip(1) =~= v.skip(j + 1));
            assert(v.subrange(i, j) =~= Seq::<char>::empty());
        }
    } else {
        assert(v.skip(i)[0] == v[i]);
        assert(v[i] != '\n');
        assert(v.skip(i).skip(1) =~= v.skip(i + 1));
        lemma_split_lines_skip_clean(v, i + 1, j);
        lemma_split_lines_len(v.skip(i + 1));
        let rest = split_lines(v.skip(i + 1));
        if j == v.len() {
            assert(rest[0] == v.subrange(i + 1, j));
            assert(seq![v[i]] + v.subrange(i + 1, j) =~= v.subrange(i, j));
            assert(rest.skip(1) =~= Seq::<Seq<char>>::empty());
            assert(split_lines(v.skip(i)) =~= seq![v.subrange(i, j)]);
        } else {
            assert(rest[0] == (seq![v.subrange(i + 1, j)] + split_lines(v.skip(j + 1)))[0]);
            assert(rest[0] == v.subrange(i + 1, j));
            assert(seq![v[i]] + v.subrange(i + 1, j) =~= v.subrange(i, j));
            assert(rest.skip(1) =~= split_lines(v.skip(j + 1)));
            assert(split_lines(v.skip(i)) =~= seq![v.subrange(i, j)] + split_lines(v.skip(j + 1)));
        }
    }
}

/// Split raw generator output into its candidate lines.
pub fn split_candidates(raw: &str) -> (r: Vec<String>)
    ensures
        r@.map_values(|l: String| l@) == candidate_lines(raw@),
{
    let mut v = str_to_chars(raw);
    if v.len() > 0 && v[v.len() - 1] == '\n' {
        let _ = v.pop();
        proof {
            assert(v@ =~= raw@.subrange(0, raw@.len() - 1));
        }
    }
    proof {
        assert(v@.skip(0) =~= v@);
    }
    split_from(&v, 0)
}

/// One selectable unit for the launcher: the candidate value as shown,
/// and the snippet as it would read with that value substituted.
#[derive(Debug, Clone, PartialEq, Eq)]
pub struct LauncherItem {
    pub title: String,
    pub payload: String,
}

/// Render the raw generator output for a snippet whose placeholder
/// `<varname>` is being resolved: one item per candidate line, whose
/// payload substitutes that line into the snippet.
pub fn format_candidates(snippet: &str, varname: &str, raw: &str) -> (items: Vec<LauncherItem>)
    ensures
        items@.len() == candidate_lines(raw@).len(),
        forall|i: int|
            0 <= i < items@.len() ==> {
                &&& (#[trigger] items@[i]).title@ == candidate_lines(raw@)[i]
                &&& items@[i].payload@ == replace_all(
                    snippet@,
                    token(varname@),
                    candidate_lines(raw@)[i],
                )
            },
{
    let lines = split_candidates(raw);
    let mut items: Vec<LauncherItem> = Vec::new();
    let n = lines.len();
    let mut i: usize = 0;
    while i < n
        invariant
            n == lines@.len(),
            i <= n,
            lines@.map_values(|l: String| l@) == candidate_lines(raw@),
            items@.len() == i,
            forall|k: int|
                0 <= k < i ==> {
                    &&& (#[trigger] items@[k]).title@ == candidate_lines(raw@)[k]
                    &&& items@[k].payload@ == replace_all(
                        snippet@,
                        token(varname@),
                        candidate_lines(raw@)[k],
                    )
                },
        decreases n - i,
    {
        let line = &lines[i];
        let payload = interpolate(snippet, varname, line.as_str());
        proof {
            assert(candidate_lines(raw@)[i as int] == lines@.map_values(|l: String| l@)[i as int]);
        }
        items.push(LauncherItem { title: line.clone(), payload });
        i = i + 1;
    }
    items
}

} // verus!
