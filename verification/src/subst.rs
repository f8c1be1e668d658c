//! Placeholder substitution: replaces `$P{name}` tokens inside text with the
//! display string bound to `name` in the parameter map.
//!
//! The scan runs left to right. A token whose name is not bound is left
//! unchanged in the output, so partially parameterized templates surface
//! unresolved tokens visibly. Substitution is non-recursive: a substituted
//! value is never re-scanned for further tokens.

use vstd::prelude::*;
use crate::params::ParamMap;

verus! {

/// A placeholder token opens at position `i` of `t`: the three characters
/// `$P{` stand there.
pub open spec fn is_token_open(t: Seq<char>, i: int) -> bool {
    &&& 0 <= i
    &&& i + 3 <= t.len()
    &&& t[i] == '$'
    &&& t[i + 1] == 'P'
    &&& t[i + 2] == '{'
}

/// Some `}` stands at or after position `from`.
pub open spec fn has_close(t: Seq<char>, from: int) -> bool {
    exists|j: int| from <= j < t.len() && t[j] == '}'
}

/// The position of the first `}` at or after `from`.
pub open spec fn close_idx(t: Seq<char>, from: int) -> int
    recommends
        0 <= from,
        has_close(t, from),
    decreases t.len() - from when 0 <= from <= t.len()
{
    if from < t.len() {
        if t[from] == '}' {
            from
        } else {
            close_idx(t, from + 1)
        }
    } else {
        from
    }
}

/// `t` holds at least one complete `$P{...}` token.
pub open spec fn has_token(t: Seq<char>) -> bool {
    exists|i: int| is_token_open(t, i) && has_close(t, i + 3)
}

/// The text `$P{` + `k` + `}`.
pub open spec fn placeholder(k: Seq<char>) -> Seq<char> {
    seq!['$', 'P', '{'] + k + seq!['}']
}

/// What substitution returns: scan left to right; at each complete token
/// `$P{key}`, emit the binding of `key` if the map holds one, else the token
/// itself, and go on after the `}`; every other character is kept.
pub open spec fn subst(t: Seq<char>, p: Map<Seq<char>, Seq<char>>) -> Seq<char>
    decreases t.len(),
    via subst_decreases
{
    if t.len() == 0 {
        t
    } else if is_token_open(t, 0) && has_close(t, 3) {
        let j = close_idx(t, 3);
        let key = t.subrange(3, j);
        if p.contains_key(key) {
            p[key] + subst(t.subrange(j + 1, t.len() as int), p)
        } else {
            t.subrange(0, j + 1) + subst(t.subrange(j + 1, t.len() as int), p)
        }
    } else {
        seq![t[0]] + subst(t.subrange(1, t.len() as int), p)
    }
}

#[via_fn]
proof fn subst_decreases(t: Seq<char>, p: Map<Seq<char>, Seq<char>>) {
    if t.len() != 0 && is_token_open(t, 0) && has_close(t, 3) {
        lemma_close_idx(t, 3);
    }
}

/// The first `}` at or after `from` is where `close_idx` says, no `}` stands
/// before it, and it lies within `t`.
pub proof fn lemma_close_idx(t: Seq<char>, from: int)
    requires
        0 <= from,
        has_close(t, from),
    ensures
        from <= close_idx(t, from) < t.len(),
        t[close_idx(t, from)] == '}',
        forall|k: int| from <= k < close_idx(t, from) ==> t[k] != '}',
    decreases t.len() - from,
{
    let j0 = choose|j: int| from <= j < t.len() && t[j] == '}';
    if t[from] == '}' {
    } else {
        assert(from + 1 <= j0 < t.len() && t[j0] == '}');
        lemma_close_idx(t, from + 1);
    }
}

/// `close_idx` finds exactly the position that holds `}` with none before it.
pub proof fn lemma_close_idx_unique(t: Seq<char>, from: int, j: int)
    requires
        0 <= from <= j < t.len(),
        t[j] == '}',
        forall|k: int| from <= k < j ==> t[k] != '}',
    ensures
        close_idx(t, from) == j,
    decreases j - from,
{
    if from == j {
    } else {
        lemma_close_idx_unique(t, from + 1, j);
    }
}

/// Text without a complete token substitutes to itself: for every parameter
/// map, `subst` is the identity on text that holds no `$P{...}` token.
pub proof fn lemma_subst_no_token_identity(t: Seq<char>, p: Map<Seq<char>, Seq<char>>)
    requires
        !has_token(t),
    ensures
        subst(t, p) == t,
    decreases t.len(),
{
    if t.len() == 0 {
    } else {
        assert(!(is_token_open(t, 0) && has_close(t, 3)));
        let rest = t.subrange(1, t.len() as int);
        assert(!has_token(rest)) by {
            if has_token(rest) {
                let i = choose|i: int| is_token_open(rest, i) && has_close(rest, i + 3);
                assert(is_token_open(t, i + 1));
                let j = choose|j: int| i + 3 <= j < rest.len() && rest[j] == '}';
                assert(t[j + 1] == '}');
                assert(has_close(t, i + 1 + 3));
            }
        }
        lemma_subst_no_token_identity(rest, p);
        assert(seq![t[0]] + rest =~= t);
    }
}

/// A token whose key is not bound in the map is left unchanged: for all `k`
/// not in `p` (with no `}` inside `k`), `subst` maps `$P{k}` to itself.
pub proof fn lemma_subst_unresolved_token(k: Seq<char>, p: Map<Seq<char>, Seq<char>>)
    requires
        !p.contains_key(k),
        forall|i: int| 0 <= i < k.len() ==> k[i] != '}',
    ensures
        subst(placeholder(k), p) == placeholder(k),
{
    let t = placeholder(k);
    let n = k.len() as int;
    assert(t.len() == n + 4);
    assert(is_token_open(t, 0));
    assert(t[n + 3] == '}');
    assert(forall|i: int| 3 <= i < n + 3 ==> t[i] == k[i - 3] && t[i] != '}');
    lemma_close_idx_unique(t, 3, n + 3);
    assert(t.subrange(3, n + 3) =~= k);
    assert(t.subrange(n + 4, n + 4).len() == 0);
    assert(t.subrange(0, n + 4) + subst(t.subrange(n + 4, n + 4), p) =~= t);
}

/// A token whose key is bound in the map is replaced by its binding: for all
/// `k` in `p` (with no `}` inside `k`), `subst` maps `$P{k}` to `p[k]`.
pub proof fn lemma_subst_resolved_token(k: Seq<char>, p: Map<Seq<char>, Seq<char>>)
    requires
        p.contains_key(k),
        forall|i: int| 0 <= i < k.len() ==> k[i] != '}',
    ensures
        subst(placeholder(k), p) == p[k],
{
    let t = placeholder(k);
    let n = k.len() as int;
    assert(t.len() == n + 4);
    assert(is_token_open(t, 0));
    assert(t[n + 3] == '}');
    assert(forall|i: int| 3 <= i < n + 3 ==> t[i] == k[i - 3] && t[i] != '}');
    lemma_close_idx_unique(t, 3, n + 3);
    assert(t.subrange(3, n + 3) =~= k);
    assert(t.subrange(n + 4, n + 4).len() == 0);
    assert(p[k] + subst(t.subrange(n + 4, n + 4), p) =~= p[k]);
}

/// Replaces every `$P{name}` token in `text` with the display string bound to
/// `name` in `params`, scanning left to right; unresolved tokens stay as they
/// are, and substituted values are not re-scanned.
pub fn substitute(text: &str, params: &ParamMap) -> (r: String)
    ensures
        r@ == subst(text@, params.as_map()),
{
    let ghost p = params.as_map();
    let n = text.unicode_len();
    let mut out = String::new();
    let mut i: usize = 0;
    proof {
        assert(text@.subrange(0, n as int) =~= text@);
    }
    while i < n
        invariant
            i <= n,
            n == text@.len(),
            p == params.as_map(),
            out@ + subst(text@.subrange(i as int, n as int), p) == subst(text@, p),
        decreases n - i,
    {
        let ghost rest = text@.subrange(i as int, n as int);
        if n - i >= 3 && text.get_char(i) == '$' && text.get_char(i + 1) == 'P' && text.get_char(
            i + 2,
        ) == '{' {
            proof {
                assert(is_token_open(rest, 0));
            }
            // scan for the closing brace
            let mut j = i + 3;
            let mut found = false;
            while j < n && !found
                invariant
                    i + 3 <= j <= n,
                    n == text@.len(),
                    !found ==> forall|k: int| i + 3 <= k < j ==> text@[k] != '}',
                    found ==> j < n && text@[j as int] == '}' && forall|k: int|
                        i + 3 <= k < j ==> text@[k] != '}',
                decreases n - j + (if found { 0int } else { 1int }),
            {
                if text.get_char(j) == '}' {
                    found = true;
                } else {
                    j = j + 1;
                }
            }
            if found {
                proof {
                    assert(rest[j - i] == '}');
                    assert(forall|k: int| 3 <= k < j - i ==> rest[k] == text@[k + i] && rest[k]
                        != '}');
                    lemma_close_idx_unique(rest, 3, j - i);
                    assert(rest.subrange(3, j - i) =~= text@.subrange(i + 3, j as int));
                    assert(rest.subrange(j - i + 1, rest.len() as int) =~= text@.subrange(
                        j + 1,
                        n as int,
                    ));
                }
                let key = text.substring_char(i + 3, j);
                let looked_up = params.get(key);
                match looked_up {
                    Some(v) => {
                        proof {
                            assert(p.contains_key(key@) && p[key@] == v@);
                        }
                        out.append(v.as_str());
                    },
                    None => {
                        proof {
                            assert(!p.contains_key(key@));
                            assert(rest.subrange(0, j - i + 1) =~= text@.subrange(
                                i as int,
                                j + 1,
                            ));
                        }
                        let token = text.substring_char(i, j + 1);
                        out.append(token);
                    },
                }
                proof {
                    assert(out@ + subst(text@.subrange(j + 1, n as int), p) == subst(text@, p));
                }
                i = j + 1;
            } else {
                // no closing brace anywhere after the opener: the remainder
                // holds no complete token and is emitted unchanged
                proof {
                    assert(forall|k: int| 3 <= k < rest.len() ==> rest[k] == text@[k + i] && rest[k]
                        != '}');
                    assert(!has_token(rest)) by {
                        if has_token(rest) {
                            let ti = choose|ti: int|
                                is_token_open(rest, ti) && has_close(rest, ti + 3);
                            let tj = choose|tj: int|
                                ti + 3 <= tj < rest.len() && rest[tj] == '}';
                            assert(rest[tj] != '}');
                        }
                    }
                    lemma_subst_no_token_identity(rest, p);
                }
                let tail = text.substring_char(i, n);
                out.append(tail);
                proof {
                    assert(text@.subrange(n as int, n as int).len() == 0);
                    assert(subst(text@.subrange(n as int, n as int), p) =~= Seq::<
                        char,
                    >::empty());
                    assert(out@ + Seq::<char>::empty() =~= out@);
                }
                i = n;
            }
        } else {
            proof {
                assert(rest.len() > 0);
                assert(!(is_token_open(rest, 0) && has_close(rest, 3))) by {
                    if is_token_open(rest, 0) {
                        assert(text@[i as int] == '$' && text@[i + 1] == 'P' && text@[i + 2]
                            == '{');
                    }
                }
                assert(subst(rest, p) == seq![rest[0]] + subst(
                    rest.subrange(1, rest.len() as int),
                    p,
                ));
                assert(rest.subrange(1, rest.len() as int) =~= text@.subrange(
                    i + 1,
                    n as int,
                ));
                assert(rest[0] == text@[i as int]);
            }
            let c = text.substring_char(i, i + 1);
            proof {
                assert(c@ =~= seq![text@[i as int]]);
            }
            out.append(c);
            i = i + 1;
        }
    }
    proof {
        assert(text@.subrange(n as int, n as int).len() == 0);
        assert(subst(text@.subrange(n as int, n as int), p) =~= Seq::<char>::empty());
        assert(out@ + Seq::<char>::empty() =~= out@);
    }
    out
}

} // verus!
