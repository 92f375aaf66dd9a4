//! Characters, placeholder tokens, and where a token occurs in a text.

use vstd::prelude::*;

verus! {

/// The whitespace characters that end a bare word.
pub open spec fn is_space_char(c: char) -> bool {
    c == ' ' || c == '\t' || c == '\r' || c == '\n'
}

/// A character that may stand inside a placeholder name: anything but the
/// delimiters `<` and `>` and whitespace.
pub open spec fn is_name_char(c: char) -> bool {
    c != '<' && c != '>' && !is_space_char(c)
}

/// A placeholder name: a nonempty bare word.
pub open spec fn valid_name(n: Seq<char>) -> bool {
    n.len() >= 1 && forall|i: int| 0 <= i < n.len() ==> is_name_char(#[trigger] n[i])
}

/// The bracketed token that stands for the placeholder `name` in a snippet.
pub open spec fn token(n: Seq<char>) -> Seq<char> {
    seq!['<'] + n + seq!['>']
}

/// The text `t` occurs in `s` starting at position `i`.
pub open spec fn occurs_at(s: Seq<char>, t: Seq<char>, i: int) -> bool {
    0 <= i && i + t.len() <= s.len() && s.subrange(i, i + t.len() as int) == t
}

/// The text `t` occurs somewhere in `s`.
pub open spec fn occurs_in(s: Seq<char>, t: Seq<char>) -> bool {
    exists|i: int| occurs_at(s, t, i)
}

/// A placeholder with name `n` stands at position `i` of `s`.
pub open spec fn placeholder_at(s: Seq<char>, n: Seq<char>, i: int) -> bool {
    valid_name(n) && occurs_at(s, token(n), i)
}

/// Some placeholder starts at position `i` of `s`.
pub open spec fn some_placeholder_at(s: Seq<char>, i: int) -> bool {
    exists|n: Seq<char>| placeholder_at(s, n, i)
}

/// The snippet `s` still holds an unresolved placeholder.
pub open spec fn has_placeholder(s: Seq<char>) -> bool {
    exists|i: int| some_placeholder_at(s, i)
}

/// The placeholder named `n` is the leftmost one of `s`, at position `i`.
pub open spec fn first_placeholder_at(s: Seq<char>, n: Seq<char>, i: int) -> bool {
    placeholder_at(s, n, i) && forall|j: int| 0 <= j < i ==> !some_placeholder_at(s, j)
}

/// The name of the leftmost placeholder of `s` is `n`.
pub open spec fn first_placeholder(s: Seq<char>, n: Seq<char>) -> bool {
    exists|i: int| first_placeholder_at(s, n, i)
}

/// The characters under a token occurrence: an opening bracket, then
/// the name characters, then a closing bracket.
pub proof fn lemma_token_chars(s: Seq<char>, n: Seq<char>, i: int)
    requires
        occurs_at(s, token(n), i),
    ensures
        s[i] == '<',
        s[i + n.len() + 1] == '>',
        forall|k: int| 0 <= k < n.len() ==> s[i + 1 + k] == n[k],
{
    let t = token(n);
    assert(s.subrange(i, i + t.len() as int) == t);
    assert forall|k: int| 0 <= k < t.len() implies s[i + k] == t[k] by {
        assert(s.subrange(i, i + t.len() as int)[k] == s[i + k]);
    }
    assert(t[0] == '<');
    assert(t[n.len() as int + 1] == '>');
    assert forall|k: int| 0 <= k < n.len() implies s[i + 1 + k] == n[k] by {
        assert(t[k + 1] == n[k]);
        assert(s[i + (k + 1)] == t[k + 1]);
    }
}

/// Two placeholder tokens can only overlap by being the same occurrence
/// of the same name: brackets cannot stand inside a name.
pub proof fn lemma_token_overlap(s: Seq<char>, n1: Seq<char>, n2: Seq<char>, i: int, j: int)
    requires
        valid_name(n1),
        valid_name(n2),
        occurs_at(s, token(n1), i),
        occurs_at(s, token(n2), j),
        i <= j < i + n1.len() + 2,
    ensures
        i == j,
        n1 == n2,
{
    lemma_token_chars(s, n1, i);
    lemma_token_chars(s, n2, j);
    if j > i {
        // the second opening bracket would sit inside the first token
        if j - i <= n1.len() {
            assert(s[i + 1 + (j - i - 1)] == n1[j - i - 1]);
            assert(is_name_char(n1[j - i - 1]));
            assert(false);
        } else {
            assert(j == i + n1.len() + 1);
            assert(false);
        }
    }
    // the tokens start together, so the shorter closing bracket would
    // sit inside the longer name
    if n1.len() < n2.len() {
        assert(s[j + 1 + n1.len()] == n2[n1.len() as int]);
        assert(is_name_char(n2[n1.len() as int]));
        assert(false);
    }
    if n2.len() < n1.len() {
        assert(s[i + 1 + n2.len()] == n1[n2.len() as int]);
        assert(is_name_char(n1[n2.len() as int]));
        assert(false);
    }
    assert forall|k: int| 0 <= k < n1.len() implies n1[k] == n2[k] by {
        assert(s[i + 1 + k] == n1[k]);
        assert(s[j + 1 + k] == n2[k]);
    }
    assert(n1 =~= n2);
}

/// An occurrence in a suffix of `s` is an occurrence in `s`, shifted.
pub proof fn lemma_occurs_at_skip(s: Seq<char>, t: Seq<char>, m: int, i: int)
    requires
        0 <= m <= s.len(),
        0 <= i,
    ensures
        occurs_at(s.skip(m), t, i) <==> occurs_at(s, t, i + m),
{
    if i + t.len() <= s.len() - m {
        assert(s.skip(m).subrange(i, i + t.len() as int) =~= s.subrange(
            i + m,
            i + m + t.len() as int,
        ));
    }
}

/// An occurrence in the right part of a concatenation occurs in the whole.
pub proof fn lemma_occurs_at_concat_right(a: Seq<char>, b: Seq<char>, t: Seq<char>, i: int)
    requires
        occurs_at(b, t, i),
    ensures
        occurs_at(a + b, t, i + a.len()),
{
    assert((a + b).subrange(i + a.len(), i + a.len() + t.len() as int) =~= b.subrange(
        i,
        i + t.len() as int,
    ));
}

/// An occurrence in a concatenation that starts past the left part lies
/// wholly in the right part.
pub proof fn lemma_occurs_at_concat_right_inv(a: Seq<char>, b: Seq<char>, t: Seq<char>, i: int)
    requires
        occurs_at(a + b, t, i),
        i >= a.len(),
    ensures
        occurs_at(b, t, i - a.len()),
{
    assert(b.subrange(i - a.len(), i - a.len() + t.len() as int) =~= (a + b).subrange(
        i,
        i + t.len() as int,
    ));
}

/// The characters of a text, one by one.
pub fn str_to_chars(s: &str) -> (r: Vec<char>)
    ensures
        r@ == s@,
{
    let n = s.unicode_len();
    let mut r: Vec<char> = Vec::new();
    let mut i: usize = 0;
    while i < n
        invariant
            n == s@.len(),
            i <= n,
            r@ == s@.subrange(0, i as int),
        decreases n - i,
    {
        r.push(s.get_char(i));
        i = i + 1;
        proof {
            assert(r@ =~= s@.subrange(0, i as int));
        }
    }
    proof {
        assert(s@.subrange(0, n as int) =~= s@);
    }
    r
}

/// The text made of the given characters in order.
///
/// Relies on `String`'s `FromIterator<char>` implementation: collecting
/// characters yields the string holding exactly those characters.
#[verifier::external_body]
pub fn chars_to_string(v: &Vec<char>) -> (r: String)
    ensures
        r@ == v@,
{
    v.iter().collect()
}

/// Whether two texts hold the same characters.
pub fn str_eq(a: &str, b: &str) -> (r: bool)
    ensures
        r == (a@ == b@),
{
    let n = a.unicode_len();
    if n != b.unicode_len() {
        proof {
            assert(a@ != b@);
        }
        return false;
    }
    let mut i: usize = 0;
    while i < n
        invariant
            n == a@.len(),
            n == b@.len(),
            i <= n,
            forall|j: int| 0 <= j < i ==> a@[j] == b@[j],
        decreases n - i,
    {
        if a.get_char(i) != b.get_char(i) {
            return false;
        }
        i = i + 1;
    }
    proof {
        assert(a@ =~= b@);
    }
    true
}

} // verus!
