//! The variable reference scanner: finds the first `<name>` placeholder
//! of a snippet.

use vstd::prelude::*;

use crate::text::first_placeholder_at;
use crate::text::is_name_char;
use crate::text::placeholder_at;
use crate::text::some_placeholder_at;
use crate::text::token;
use crate::text::valid_name;

verus! {

/// The first placeholder of a snippet: its name and the character span
/// `[start, end)` of the whole `<name>` token.
pub struct VariableReference {
    pub name: String,
    pub start: usize,
    pub end: usize,
}

/// Whether a character may stand inside a placeholder name.
pub fn name_char(c: char) -> (r: bool)
    ensures
        r == is_name_char(c),
{
    c != '<' && c != '>' && c != ' ' && c != '\t' && c != '\r' && c != '\n'
}

/// A placeholder occurrence lies strictly inside the snippet.
proof fn lemma_placeholder_in_bounds(s: Seq<char>, n: Seq<char>, i: int)
    requires
        placeholder_at(s, n, i),
    ensures
        0 <= i && i + 3 <= s.len(),
{
    assert(token(n).len() == n.len() + 2);
}

/// No placeholder starts at `i` when the maximal run of name characters
/// open after `s[i] == '<'` is empty or not closed by a `>`.
proof fn lemma_no_placeholder_here(s: Seq<char>, i: int, j: int)
    requires
        0 <= i < j <= s.len(),
        s[i] == '<',
        forall|k: int| i < k < j ==> is_name_char(#[trigger] s[k]),
        // the run is maximal: the text ends at j, or s[j] is no name char
        j == s.len() || !is_name_char(s[j]),
        // and yet no match was reported here
        j == i + 1 || j == s.len() || s[j] != '>',
    ensures
        !some_placeholder_at(s, i),
{
    assert forall|n: Seq<char>| !placeholder_at(s, n, i) by {
        if placeholder_at(s, n, i) {
            crate::text::lemma_token_chars(s, n, i);
            let e = i + n.len() + 1;
            // the closing bracket cannot sit inside the run
            if e < j {
                assert(is_name_char(s[e]));
                assert(false);
            }
            // nor can the run end inside the name
            if e > j {
                assert(j < s.len());
                assert(s[j] == n[j - i - 1]);
                assert(is_name_char(n[j - i - 1]));
                assert(false);
            }
            // so the name fills the run exactly, which was refused above
            assert(e == j);
            assert(n.len() >= 1);
            assert(j < s.len() && s[j] == '>');
            assert(false);
        }
    }
}

/// No placeholder starts on a character other than `<`.
proof fn lemma_no_open_bracket(s: Seq<char>, i: int)
    requires
        0 <= i < s.len(),
        s[i] != '<',
    ensures
        !some_placeholder_at(s, i),
{
    assert forall|n: Seq<char>| !placeholder_at(s, n, i) by {
        if placeholder_at(s, n, i) {
            crate::text::lemma_token_chars(s, n, i);
            assert(false);
        }
    }
}

/// The leftmost placeholder of a snippet is one thing: snippets are
/// resolved strictly left to right, one variable per step, so the
/// variable a step resolves is determined by the snippet alone.
pub proof fn lemma_first_placeholder_unique(s: Seq<char>, n1: Seq<char>, n2: Seq<char>)
    requires
        crate::text::first_placeholder(s, n1),
        crate::text::first_placeholder(s, n2),
    ensures
        n1 == n2,
{
    let i1 = choose|i: int| first_placeholder_at(s, n1, i);
    let i2 = choose|i: int| first_placeholder_at(s, n2, i);
    if i1 < i2 {
        assert(some_placeholder_at(s, i1));
        assert(false);
    }
    if i2 < i1 {
        assert(some_placeholder_at(s, i2));
        assert(false);
    }
    crate::text::lemma_token_overlap(s, n1, n2, i1, i2);
}

/// Find the first `<name>` placeholder of a snippet, scanning left to
/// right; `None` says the snippet is fully resolved.
pub fn find_variable(snippet: &str) -> (r: Option<VariableReference>)
    ensures
        match r {
            None => !crate::text::has_placeholder(snippet@),
            Some(v) => {
                &&& first_placeholder_at(snippet@, v.name@, v.start as int)
                &&& v.end == v.start + v.name@.len() + 2
            },
        },
{
    let n = snippet.unicode_len();
    let mut i: usize = 0;
    while i < n
        invariant
            n == snippet@.len(),
            i <= n,
            forall|j: int| 0 <= j < i ==> !some_placeholder_at(snippet@, j),
        decreases n - i,
    {
        if snippet.get_char(i) == '<' {
            // scan the maximal run of name characters after the bracket
            let mut j: usize = i + 1;
            while j < n && name_char(snippet.get_char(j))
                invariant
                    n == snippet@.len(),
                    i < j <= n,
                    forall|k: int| i < k < j ==> is_name_char(#[trigger] snippet@[k]),
                decreases n - j,
            {
                j = j + 1;
            }
            if j > i + 1 && j < n && snippet.get_char(j) == '>' {
                let name = snippet.substring_char(i + 1, j).to_owned();
                proof {
                    assert(name@ == snippet@.subrange(i + 1, j as int));
                    assert forall|k: int| 0 <= k < name@.len() implies is_name_char(
                        #[trigger] name@[k],
                    ) by {
                        assert(name@[k] == snippet@[i + 1 + k]);
                    }
                    assert(valid_name(name@));
                    let t = token(name@);
                    assert forall|k: int|
                        0 <= k < t.len() implies snippet@.subrange(
                        i as int,
                        i + t.len() as int,
                    )[k] == t[k] by {
                        if k == 0 {
                            assert(t[0] == '<');
                        } else if k < t.len() - 1 {
                            assert(t[k] == name@[k - 1]);
                            assert(name@[k - 1] == snippet@[i + k]);
                        } else {
                            assert(t[k] == '>');
                        }
                    }
                    assert(snippet@.subrange(i as int, i + t.len() as int) =~= t);
                    assert(placeholder_at(snippet@, name@, i as int));
                }
                return Some(VariableReference { name, start: i, end: j + 1 });
            }
            proof {
                lemma_no_placeholder_here(snippet@, i as int, j as int);
            }
        } else {
            proof {
                lemma_no_open_bracket(snippet@, i as int);
            }
        }
        i = i + 1;
    }
    proof {
        assert forall|j: int| !some_placeholder_at(snippet@, j) by {
            if some_placeholder_at(snippet@, j) {
                let nm = choose|nm: Seq<char>| placeholder_at(snippet@, nm, j);
                lemma_placeholder_in_bounds(snippet@, nm, j);
            }
        }
    }
    None
}

} // verus!
