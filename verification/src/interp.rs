//! The interpolation engine: substitutes a chosen value for every
//! occurrence of a bracketed placeholder token.

use vstd::prelude::*;

use crate::text::chars_to_string;
use crate::text::lemma_occurs_at_concat_right;
use crate::text::lemma_occurs_at_concat_right_inv;
use crate::text::lemma_occurs_at_skip;
use crate::text::lemma_token_overlap;
use crate::text::occurs_at;
use crate::text::occurs_in;
use crate::text::str_to_chars;
use crate::text::token;
use crate::text::valid_name;

verus! {

/// Every non-overlapping occurrence of `pat` in `s`, scanned left to
/// right, replaced by `val`; no escaping is performed, so brackets
/// inside `val` land in the result verbatim.
pub open spec fn replace_all(s: Seq<char>, pat: Seq<char>, val: Seq<char>) -> Seq<char>
    decreases s.len(),
{
    if pat.len() == 0 || s.len() < pat.len() {
        s
    } else if s.subrange(0, pat.len() as int) == pat {
        val + replace_all(s.skip(pat.len() as int), pat, val)
    } else {
        seq![s[0]] + replace_all(s.skip(1), pat, val)
    }
}

/// Whether `pat` stands at position `i` of `s`.
fn window_eq(s: &Vec<char>, i: usize, pat: &Vec<char>) -> (r: bool)
    requires
        i <= s@.len(),
    ensures
        r == occurs_at(s@, pat@, i as int),
{
    if pat.len() > s.len() - i {
        proof {
            assert(!occurs_at(s@, pat@, i as int));
        }
        return false;
    }
    let n = s.len();
    let mut k: usize = 0;
    let mut j: usize = i;
    while k < pat.len()
        invariant
            n == s@.len(),
            i + pat@.len() <= s@.len(),
            k <= pat@.len(),
            j == i + k,
            forall|m: int| 0 <= m < k ==> s@[i + m] == pat@[m],
        decreases pat@.len() - k,
    {
        if s[j] != pat[k] {
            proof {
                assert(s@.subrange(i as int, i + pat@.len() as int)[k as int] == s@[i + k]);
            }
            return false;
        }
        j = j + 1;
        k = k + 1;
    }
    proof {
        assert(s@.subrange(i as int, i + pat@.len() as int) =~= pat@);
    }
    true
}

/// Unrolling `replace_all` past a stretch free of the pattern: when the
/// pattern starts nowhere before `k`, the first `k` characters are kept.
pub proof fn lemma_replace_all_skip_clean(s: Seq<char>, pat: Seq<char>, val: Seq<char>, k: int)
    requires
        pat.len() >= 1,
        0 <= k <= s.len(),
        forall|p: int| 0 <= p < k ==> !occurs_at(s, pat, p),
    ensures
        replace_all(s, pat, val) == s.subrange(0, k) + replace_all(s.skip(k), pat, val),
    decreases k,
{
    if k == 0 {
        assert(s.skip(0) =~= s);
        assert(s.subrange(0, 0) + replace_all(s, pat, val) =~= replace_all(s, pat, val));
    } else {
        if s.len() < pat.len() {
            assert(replace_all(s, pat, val) == s);
            assert(replace_all(s.skip(k), pat, val) == s.skip(k));
            assert(s.subrange(0, k) + s.skip(k) =~= s);
        } else {
            assert(!occurs_at(s, pat, 0));
            assert(s.subrange(0, pat.len() as int) != pat);
            assert(replace_all(s, pat, val) == seq![s[0]] + replace_all(s.skip(1), pat, val));
            assert forall|p: int| 0 <= p < k - 1 implies !occurs_at(s.skip(1), pat, p) by {
                lemma_occurs_at_skip(s, pat, 1, p);
            }
            lemma_replace_all_skip_clean(s.skip(1), pat, val, k - 1);
            assert(s.skip(1).skip(k - 1) =~= s.skip(k));
            assert(seq![s[0]] + (s.skip(1).subrange(0, k - 1) + replace_all(s.skip(k), pat, val))
                =~= s.subrange(0, k) + replace_all(s.skip(k), pat, val));
        }
    }
}

/// Helper for the preservation law, tracking one occurrence.
proof fn lemma_kept_at(s: Seq<char>, name: Seq<char>, m: Seq<char>, val: Seq<char>, i: int)
    requires
        valid_name(name),
        valid_name(m),
        m != name,
        occurs_at(s, token(m), i),
    ensures
        occurs_in(replace_all(s, token(name), val), token(m)),
    decreases s.len(),
{
    let pat = token(name);
    let tm = token(m);
    if s.len() < pat.len() {
        assert(replace_all(s, pat, val) == s);
    } else if s.subrange(0, pat.len() as int) == pat {
        assert(occurs_at(s, pat, 0));
        if i < pat.len() {
            lemma_token_overlap(s, name, m, 0, i);
            assert(false);
        }
        lemma_occurs_at_skip(s, tm, pat.len() as int, i - pat.len());
        lemma_kept_at(s.skip(pat.len() as int), name, m, val, i - pat.len());
        let rep = replace_all(s.skip(pat.len() as int), pat, val);
        let w = choose|w: int| occurs_at(rep, tm, w);
        lemma_occurs_at_concat_right(val, rep, tm, w);
        assert(occurs_at(replace_all(s, pat, val), tm, w + val.len()));
    } else {
        if i >= 1 {
            lemma_occurs_at_skip(s, tm, 1, i - 1);
            lemma_kept_at(s.skip(1), name, m, val, i - 1);
            let rep = replace_all(s.skip(1), pat, val);
            let w = choose|w: int| occurs_at(rep, tm, w);
            lemma_occurs_at_concat_right(seq![s[0]], rep, tm, w);
            assert(occurs_at(replace_all(s, pat, val), tm, w + 1));
        } else {
            // the whole token stands before any replacement
            assert forall|p: int| 0 <= p < tm.len() implies !occurs_at(s, pat, p) by {
                if occurs_at(s, pat, p) {
                    if p == 0 {
                        assert(s.subrange(0, pat.len() as int) == pat);
                    } else {
                        lemma_token_overlap(s, m, name, 0, p);
                    }
                }
            }
            lemma_replace_all_skip_clean(s, pat, val, tm.len() as int);
            let rep = replace_all(s.skip(tm.len() as int), pat, val);
            assert(s.subrange(0, tm.len() as int) == tm);
            assert((tm + rep).subrange(0, tm.len() as int) =~= tm);
            assert(occurs_at(replace_all(s, pat, val), tm, 0));
        }
    }
}

/// Interpolation leaves the other placeholders standing: substituting a
/// value for `<name>` keeps every occurrence of a differently named
/// token `<m>`, whatever the value holds.
pub proof fn lemma_interpolation_keeps_others(
    s: Seq<char>,
    name: Seq<char>,
    m: Seq<char>,
    val: Seq<char>,
)
    requires
        valid_name(name),
        valid_name(m),
        m != name,
        occurs_in(s, token(m)),
    ensures
        occurs_in(replace_all(s, token(name), val), token(m)),
{
    let i = choose|i: int| occurs_at(s, token(m), i);
    lemma_kept_at(s, name, m, val, i);
}

/// Helper for the resolution law.  Beside the absence of the token it
/// carries a prefix claim: a proper token suffix opening the result must
/// already open the snippet, since the substituted value can neither
/// supply a bracket nor hide inside the name.
proof fn lemma_resolved_rec(s: Seq<char>, name: Seq<char>, val: Seq<char>)
    requires
        valid_name(name),
        forall|k: int| 0 <= k < val.len() ==> #[trigger] val[k] != '<' && val[k] != '>',
        !occurs_in(name, val),
    ensures
        !occurs_in(replace_all(s, token(name), val), token(name)),
        forall|k: int|
            1 <= k < token(name).len() && #[trigger] occurs_at(
                replace_all(s, token(name), val),
                token(name).skip(k),
                0,
            ) ==> occurs_at(s, token(name).skip(k), 0),
    decreases s.len(),
{
    let pat = token(name);
    let out = replace_all(s, pat, val);
    assert(val.len() >= 1) by {
        if val.len() == 0 {
            assert(name.subrange(0, 0) =~= val);
            assert(occurs_at(name, val, 0));
        }
    }
    if s.len() < pat.len() {
        assert(out == s);
        assert forall|w: int| !occurs_at(out, pat, w) by {}
    } else if s.subrange(0, pat.len() as int) == pat {
        lemma_resolved_rec(s.skip(pat.len() as int), name, val);
        let rep = replace_all(s.skip(pat.len() as int), pat, val);
        assert(out == val + rep);
        assert forall|w: int| !occurs_at(out, pat, w) by {
            if occurs_at(out, pat, w) {
                if w < val.len() {
                    assert(out.subrange(w, w + pat.len() as int)[0] == out[w]);
                    assert(out[w] == '<');
                    assert(out[w] == val[w]);
                    assert(false);
                } else {
                    lemma_occurs_at_concat_right_inv(val, rep, pat, w);
                    assert(false);
                }
            }
        }
        assert forall|k: int|
            1 <= k < pat.len() && #[trigger] occurs_at(out, pat.skip(k), 0) implies occurs_at(
            s,
            pat.skip(k),
            0,
        ) by {
            let tk = pat.skip(k);
            assert(tk[tk.len() - 1] == pat[pat.len() - 1]);
            assert(pat[pat.len() - 1] == '>');
            if tk.len() <= val.len() {
                // the suffix would end with a bracket drawn from the value
                assert(out.subrange(0, tk.len() as int)[tk.len() - 1] == out[tk.len() - 1]);
                assert(out[tk.len() - 1] == val[tk.len() - 1]);
                assert(false);
            } else {
                // the whole value would hide inside the name
                assert forall|t: int| 0 <= t < val.len() implies val[t] == pat[k + t] by {
                    assert(out.subrange(0, tk.len() as int)[t] == out[t]);
                    assert(out[t] == val[t]);
                    assert(tk[t] == pat[k + t]);
                }
                if k + val.len() == pat.len() {
                    assert(val[val.len() - 1] == pat[pat.len() - 1]);
                    assert(false);
                } else {
                    assert forall|t: int| 0 <= t < val.len() implies val[t] == name[k - 1 + t] by {
                        assert(val[t] == pat[k + t]);
                        assert(pat[k + t] == (seq!['<'] + name + seq!['>'])[k + t]);
                        assert(pat[k + t] == name[k + t - 1]);
                    }
                    assert(name.subrange(k - 1, k - 1 + val.len() as int) =~= val);
                    assert(occurs_at(name, val, k - 1));
                    assert(false);
                }
            }
        }
    } else {
        lemma_resolved_rec(s.skip(1), name, val);
        let rep = replace_all(s.skip(1), pat, val);
        assert(out == seq![s[0]] + rep);
        assert forall|k: int|
            1 <= k < pat.len() && #[trigger] occurs_at(out, pat.skip(k), 0) implies occurs_at(
            s,
            pat.skip(k),
            0,
        ) by {
            let tk = pat.skip(k);
            assert(out.subrange(0, tk.len() as int)[0] == out[0]);
            assert(s[0] == tk[0]);
            if tk.len() == 1 {
                assert(s.subrange(0, 1) =~= tk);
            } else {
                assert(occurs_at(rep, pat.skip(k + 1), 0)) by {
                    assert forall|t: int| 0 <= t < tk.len() - 1 implies rep[t] == pat.skip(k + 1)[t]
                        by {
                        assert(out.subrange(0, tk.len() as int)[t + 1] == out[t + 1]);
                        assert(out[t + 1] == rep[t]);
                        assert(tk[t + 1] == pat.skip(k + 1)[t]);
                    }
                    assert(rep.subrange(0, tk.len() - 1) =~= pat.skip(k + 1));
                }
                assert(occurs_at(s.skip(1), pat.skip(k + 1), 0));
                assert forall|t: int| 0 <= t < tk.len() implies s.subrange(0, tk.len() as int)[t]
                    == tk[t] by {
                    if t == 0 {
                    } else {
                        assert(s.skip(1).subrange(0, tk.len() - 1)[t - 1] == s[t]);
                        assert(pat.skip(k + 1)[t - 1] == tk[t]);
                    }
                }
                assert(s.subrange(0, tk.len() as int) =~= tk);
            }
        }
        assert forall|w: int| !occurs_at(out, pat, w) by {
            if occurs_at(out, pat, w) {
                if w >= 1 {
                    lemma_occurs_at_concat_right_inv(seq![s[0]], rep, pat, w);
                    assert(false);
                } else {
                    assert(out.subrange(0, pat.len() as int)[0] == out[0]);
                    assert(s[0] == pat[0]);
                    assert(occurs_at(rep, pat.skip(1), 0)) by {
                        assert forall|t: int| 0 <= t < pat.len() - 1 implies rep[t] == pat.skip(
                            1,
                        )[t] by {
                            assert(out.subrange(0, pat.len() as int)[t + 1] == out[t + 1]);
                            assert(out[t + 1] == rep[t]);
                        }
                        assert(rep.subrange(0, pat.len() - 1) =~= pat.skip(1));
                    }
                    assert(occurs_at(s.skip(1), pat.skip(1), 0));
                    assert forall|t: int| 0 <= t < pat.len() implies s.subrange(
                        0,
                        pat.len() as int,
                    )[t] == pat[t] by {
                        if t == 0 {
                        } else {
                            assert(s.skip(1).subrange(0, pat.len() - 1)[t - 1] == s[t]);
                            assert(pat.skip(1)[t - 1] == pat[t]);
                        }
                    }
                    assert(s.subrange(0, pat.len() as int) =~= pat);
                    assert(false);
                }
            }
        }
    }
}

/// Interpolation resolves the placeholder: when the value holds no
/// bracket and does not stand inside the name itself, the result holds
/// no `<name>` token any more, so a re-scan cannot find that reference.
pub proof fn lemma_interpolation_resolves(s: Seq<char>, name: Seq<char>, val: Seq<char>)
    requires
        valid_name(name),
        forall|k: int| 0 <= k < val.len() ==> #[trigger] val[k] != '<' && val[k] != '>',
        !occurs_in(name, val),
    ensures
        !occurs_in(replace_all(s, token(name), val), token(name)),
        forall|i: int| !crate::text::placeholder_at(replace_all(s, token(name), val), name, i),
{
    lemma_resolved_rec(s, name, val);
    assert forall|i: int|
        !crate::text::placeholder_at(replace_all(s, token(name), val), name, i) by {
        if crate::text::placeholder_at(replace_all(s, token(name), val), name, i) {
            assert(occurs_at(replace_all(s, token(name), val), token(name), i));
        }
    }
}

/// Substitute `value` for every occurrence of the token `<varname>` in
/// the snippet.
pub fn interpolate(snippet: &str, varname: &str, value: &str) -> (r: String)
    ensures
        r@ == replace_all(snippet@, token(varname@), value@),
{
    let s = str_to_chars(snippet);
    let val = str_to_chars(value);
    let mut pat: Vec<char> = Vec::new();
    pat.push('<');
    let mut t: usize = 0;
    let vn = varname.unicode_len();
    while t < vn
        invariant
            vn == varname@.len(),
            t <= vn,
            pat@ == seq!['<'] + varname@.subrange(0, t as int),
        decreases vn - t,
    {
        pat.push(varname.get_char(t));
        proof {
            assert(pat@ =~= seq!['<'] + varname@.subrange(0, t + 1));
        }
        t = t + 1;
    }
    pat.push('>');
    proof {
        assert(varname@.subrange(0, vn as int) =~= varname@);
        assert(pat@ =~= token(varname@));
    }

    let mut out: Vec<char> = Vec::new();
    let mut i: usize = 0;
    proof {
        assert(s@.skip(0) =~= s@);
        assert(out@ + replace_all(s@, pat@, val@) =~= replace_all(s@, pat@, val@));
    }
    while i < s.len()
        invariant
            s@ == snippet@,
            val@ == value@,
            pat@ == token(varname@),
            pat@.len() >= 2,
            i <= s@.len(),
            replace_all(s@, pat@, val@) == out@ + replace_all(s@.skip(i as int), pat@, val@),
        decreases s@.len() - i,
    {
        if window_eq(&s, i, &pat) {
            let mut k: usize = 0;
            let ghost out0 = out@;
            while k < val.len()
                invariant
                    val@ == value@,
                    k <= val@.len(),
                    out@ == out0 + val@.subrange(0, k as int),
                decreases val@.len() - k,
            {
                out.push(val[k]);
                proof {
                    assert(out@ =~= out0 + val@.subrange(0, k + 1));
                }
                k = k + 1;
            }
            proof {
                assert(val@.subrange(0, val@.len() as int) =~= val@);
                let rest = s@.skip(i as int);
                assert(rest.subrange(0, pat@.len() as int) =~= s@.subrange(
                    i as int,
                    i + pat@.len() as int,
                ));
                assert(rest.subrange(0, pat@.len() as int) == pat@);
                assert(replace_all(rest, pat@, val@) == val@ + replace_all(
                    rest.skip(pat@.len() as int),
                    pat@,
                    val@,
                ));
                assert(rest.skip(pat@.len() as int) =~= s@.skip(i + pat@.len()));
                assert(out@ + replace_all(s@.skip(i + pat@.len()), pat@, val@) =~= out0 + (val@
                    + replace_all(s@.skip(i + pat@.len()), pat@, val@)));
            }
            i = i + pat.len();
        } else {
            out.push(s[i]);
            proof {
                let rest = s@.skip(i as int);
                if rest.len() >= pat@.len() {
                    assert(rest.subrange(0, pat@.len() as int) =~= s@.subrange(
                        i as int,
                        i + pat@.len() as int,
                    ));
                    assert(rest.subrange(0, pat@.len() as int) != pat@) by {
                        if rest.subrange(0, pat@.len() as int) == pat@ {
                            assert(occurs_at(s@, pat@, i as int));
                        }
                    }
                    assert(replace_all(rest, pat@, val@) == seq![rest[0]] + replace_all(
                        rest.skip(1),
                        pat@,
                        val@,
                    ));
                } else {
                    // too close to the end for any further match
                    assert(replace_all(rest, pat@, val@) == rest);
                    assert(rest.skip(1) =~= s@.skip(i + 1));
                    assert(replace_all(rest.skip(1), pat@, val@) == rest.skip(1));
                    assert(rest =~= seq![rest[0]] + rest.skip(1));
                }
                assert(rest.skip(1) =~= s@.skip(i + 1));
                assert(out@ + replace_all(s@.skip(i + 1), pat@, val@) =~= (out@.drop_last()
                    + seq![rest[0]]) + replace_all(s@.skip(i + 1), pat@, val@));
                assert(out@.drop_last() + (seq![rest[0]] + replace_all(
                    s@.skip(i + 1),
                    pat@,
                    val@,
                )) =~= (out@.drop_last() + seq![rest[0]]) + replace_all(
                    s@.skip(i + 1),
                    pat@,
                    val@,
                ));
            }
            i = i + 1;
        }
    }
    proof {
        assert(s@.skip(i as int) =~= Seq::<char>::empty());
        assert(replace_all(Seq::<char>::empty(), pat@, val@) == Seq::<char>::empty());
        assert(out@ + Seq::<char>::empty() =~= out@);
    }
    chars_to_string(&out)
}

} // verus!
