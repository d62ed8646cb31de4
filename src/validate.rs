//! The pure validators used on attribute values: URL protocol classification
//! and class-list filtering.

use vstd::prelude::*;
use vstd::string::*;

use crate::escape::{lower_of, to_lowercase};
use crate::text::{is_whitespace, is_ws, listed, views};

verus! {

/// Characters that end the scheme part of a URL.
pub open spec fn is_delim(c: char) -> bool {
    c == ':' || c == '/' || c == '#'
}

/// From `i` on, the index of the first scheme delimiter (the length if none).
pub open spec fn boundary_from(s: Seq<char>, i: int) -> int
    decreases s.len() - i,
{
    if i < 0 || i >= s.len() {
        s.len() as int
    } else if is_delim(s[i]) {
        i
    } else {
        boundary_from(s, i + 1)
    }
}

/// Whether the value `v` classifies into one of the `allowed` protocol tokens:
/// `"/"` for a path-relative value, `"#"` for a fragment, else its scheme
/// (the text before the first `:`, or the whole value when it has no
/// delimiter), compared in lower case. An empty value has no protocol.
pub open spec fn protocol_allowed(allowed: Seq<Seq<char>>, v: Seq<char>) -> bool {
    if v.len() == 0 {
        false
    } else {
        let p = boundary_from(v, 0);
        if p < v.len() && v[p] == '/' {
            allowed.contains(seq!['/'])
        } else if p < v.len() && v[p] == '#' {
            allowed.contains(seq!['#'])
        } else {
            allowed.contains(lower_of(v.subrange(0, p)))
        }
    }
}

/// The index of the first scheme delimiter of `v` (its length if none).
pub fn protocol_boundary(v: &str) -> (r: usize)
    ensures
        r == boundary_from(v@, 0),
        r <= v@.len(),
{
    let n = v.unicode_len();
    let mut i: usize = 0;
    while i < n && !(v.get_char(i) == ':' || v.get_char(i) == '/' || v.get_char(i) == '#')
        invariant
            n == v@.len(),
            i <= n,
            boundary_from(v@, 0) == boundary_from(v@, i as int),
        decreases n - i,
    {
        i = i + 1;
    }
    i
}

/// Whether the attribute value `attr_val` may stand under the protocol list
/// `protocols_allowed`.
pub fn has_allowed_protocol(protocols_allowed: &Vec<String>, attr_val: &str) -> (r: bool)
    ensures
        r == protocol_allowed(views(protocols_allowed@), attr_val@),
{
    if attr_val.unicode_len() == 0 {
        return false;
    }
    let n = attr_val.unicode_len();
    let pos = protocol_boundary(attr_val);
    if pos < n && attr_val.get_char(pos) == '/' {
        proof {
            reveal_strlit("/");
        }
        assert("/"@ =~= seq!['/']);
        return listed(protocols_allowed, "/");
    }
    if pos < n && attr_val.get_char(pos) == '#' {
        proof {
            reveal_strlit("#");
        }
        assert("#"@ =~= seq!['#']);
        return listed(protocols_allowed, "#");
    }
    let protocol = to_lowercase(attr_val.substring_char(0, pos));
    listed(protocols_allowed, protocol.as_str())
}

/// Left-to-right split of `s` on whitespace: the finished tokens and the
/// token being read.
pub open spec fn split_state(s: Seq<char>) -> (Seq<Seq<char>>, Seq<char>)
    decreases s.len(),
{
    if s.len() == 0 {
        (Seq::empty(), Seq::empty())
    } else {
        let prev = split_state(s.drop_last());
        let c = s.last();
        if is_ws(c) {
            if prev.1.len() > 0 {
                (prev.0.push(prev.1), Seq::empty())
            } else {
                (prev.0, Seq::empty())
            }
        } else {
            (prev.0, prev.1.push(c))
        }
    }
}

/// The maximal runs of non-whitespace characters of `s`, in order.
pub open spec fn ws_tokens(s: Seq<char>) -> Seq<Seq<char>> {
    let st = split_state(s);
    if st.1.len() > 0 {
        st.0.push(st.1)
    } else {
        st.0
    }
}

/// The tokens of `ts` that appear in `global` or in `local`, in order.
pub open spec fn allowed_only(ts: Seq<Seq<char>>, global: Seq<Seq<char>>, local: Seq<Seq<char>>) -> Seq<
    Seq<char>,
>
    decreases ts.len(),
{
    if ts.len() == 0 {
        Seq::empty()
    } else {
        let rest = allowed_only(ts.drop_last(), global, local);
        if global.contains(ts.last()) || local.contains(ts.last()) {
            rest.push(ts.last())
        } else {
            rest
        }
    }
}

/// The tokens joined by single spaces.
pub open spec fn joined(ts: Seq<Seq<char>>) -> Seq<char>
    decreases ts.len(),
{
    if ts.len() == 0 {
        Seq::empty()
    } else if ts.len() == 1 {
        ts[0]
    } else {
        joined(ts.drop_last()) + seq![' '] + ts.last()
    }
}

/// What a class attribute keeps: everything when no class is allowed anywhere
/// (no filter is configured), else the allowed tokens joined by spaces, or
/// nothing when none is allowed.
pub open spec fn class_filter(v: Seq<char>, global: Seq<Seq<char>>, local: Seq<Seq<char>>) -> Option<
    Seq<char>,
> {
    if global.len() == 0 && local.len() == 0 {
        Some(v)
    } else {
        let kept = allowed_only(ws_tokens(v), global, local);
        if kept.len() == 0 {
            None
        } else {
            Some(joined(kept))
        }
    }
}

/// The whitespace-separated tokens of `s`.
pub fn split_whitespace(s: &str) -> (r: Vec<String>)
    ensures
        views(r@) == ws_tokens(s@),
{
    let n = s.unicode_len();
    let mut out: Vec<String> = Vec::new();
    let mut start: usize = 0;
    let mut i: usize = 0;
    while i < n
        invariant
            n == s@.len(),
            start <= i <= n,
            views(out@) == split_state(s@.subrange(0, i as int)).0,
            s@.subrange(start as int, i as int) == split_state(s@.subrange(0, i as int)).1,
        decreases n - i,
    {
        let c = s.get_char(i);
        let ghost pre = s@.subrange(0, i as int);
        assert(s@.subrange(0, i + 1).drop_last() =~= pre);
        assert(s@.subrange(0, i + 1).last() == c);
        if is_whitespace(c) {
            if start < i {
                let ghost old_out = out@;
                out.push(String::from_str(s.substring_char(start, i)));
                assert(views(out@) =~= views(old_out).push(s@.subrange(start as int, i as int)));
            } else {
                assert(s@.subrange(start as int, i as int).len() == 0);
            }
            start = i + 1;
            assert(s@.subrange(start as int, i + 1) =~= Seq::<char>::empty());
        } else {
            assert(s@.subrange(start as int, i + 1) =~= s@.subrange(start as int, i as int).push(c));
        }
        i = i + 1;
    }
    assert(s@.subrange(0, n as int) =~= s@);
    if start < n {
        let ghost old_out = out@;
        out.push(String::from_str(s.substring_char(start, n)));
        assert(views(out@) =~= views(old_out).push(s@.subrange(start as int, n as int)));
    }
    out
}

/// The class list `attr_val` restricted to the allowed classes of the element
/// (`local`) and of every element (`global`); `None` when nothing survives.
pub fn sanitize_class_attribute(global: &Vec<String>, local: &Vec<String>, attr_val: &str) -> (r:
    Option<String>)
    ensures
        r matches Some(v) ==> class_filter(attr_val@, views(global@), views(local@)) == Some(v@),
        r is None ==> class_filter(attr_val@, views(global@), views(local@)) is None,
{
    if global.len() == 0 && local.len() == 0 {
        return Some(String::from_str(attr_val));
    }
    let tokens = split_whitespace(attr_val);
    let ghost ts = views(tokens@);
    let ghost g = views(global@);
    let ghost l = views(local@);
    let mut out = String::new();
    let mut count: usize = 0;
    let mut i: usize = 0;
    proof {
        reveal_strlit(" ");
    }
    while i < tokens.len()
        invariant
            ts == views(tokens@),
            g == views(global@),
            l == views(local@),
            i <= tokens@.len(),
            count <= i,
            count == allowed_only(ts.subrange(0, i as int), g, l).len(),
            out@ == joined(allowed_only(ts.subrange(0, i as int), g, l)),
            " "@ == seq![' '],
        decreases tokens.len() - i,
    {
        let t = tokens[i].as_str();
        let ghost prev = allowed_only(ts.subrange(0, i as int), g, l);
        assert(ts.subrange(0, i + 1).drop_last() =~= ts.subrange(0, i as int));
        assert(ts.subrange(0, i + 1).last() == t@);
        if listed(global, t) || listed(local, t) {
            if count > 0 {
                out.append(" ");
            }
            out.append(t);
            let ghost next = prev.push(t@);
            assert(next.drop_last() =~= prev);
            assert(out@ =~= joined(next));
            count = count + 1;
        }
        i = i + 1;
    }
    assert(ts.subrange(0, tokens.len() as int) =~= ts);
    if count == 0 {
        None
    } else {
        Some(out)
    }
}

/// A class token: non-empty, without whitespace.
pub open spec fn is_token(t: Seq<char>) -> bool {
    t.len() > 0 && forall|i: int| 0 <= i < t.len() ==> !is_ws(#[trigger] t[i])
}

proof fn lemma_split_state_tokens(s: Seq<char>)
    ensures
        forall|k: int| 0 <= k < split_state(s).0.len() ==> is_token(#[trigger] split_state(s).0[k]),
        forall|i: int| 0 <= i < split_state(s).1.len() ==> !is_ws(#[trigger] split_state(s).1[i]),
    decreases s.len(),
{
    if s.len() > 0 {
        lemma_split_state_tokens(s.drop_last());
        let prev = split_state(s.drop_last());
        if !is_ws(s.last()) {
            assert forall|i: int| 0 <= i < prev.1.push(s.last()).len() implies !is_ws(#[trigger] prev.1.push(s.last())[i]) by {
                if i < prev.1.len() {
                    assert(prev.1.push(s.last())[i] == prev.1[i]);
                }
            }
        } else if prev.1.len() > 0 {
            assert forall|k: int| 0 <= k < prev.0.push(prev.1).len() implies is_token(#[trigger] prev.0.push(prev.1)[k]) by {
                if k < prev.0.len() {
                    assert(prev.0.push(prev.1)[k] == prev.0[k]);
                }
            }
        }
    }
}

proof fn lemma_ws_tokens_are_tokens(s: Seq<char>)
    ensures
        forall|k: int| 0 <= k < ws_tokens(s).len() ==> is_token(#[trigger] ws_tokens(s)[k]),
{
    lemma_split_state_tokens(s);
    let st = split_state(s);
    if st.1.len() > 0 {
        assert forall|k: int| 0 <= k < st.0.push(st.1).len() implies is_token(#[trigger] st.0.push(st.1)[k]) by {
            if k < st.0.len() {
                assert(st.0.push(st.1)[k] == st.0[k]);
            }
        }
    }
}

proof fn lemma_allowed_only_members(ts: Seq<Seq<char>>, g: Seq<Seq<char>>, l: Seq<Seq<char>>)
    requires
        forall|k: int| 0 <= k < ts.len() ==> is_token(#[trigger] ts[k]),
    ensures
        forall|k: int| 0 <= k < allowed_only(ts, g, l).len() ==> is_token(#[trigger] allowed_only(ts, g, l)[k])
            && (g.contains(allowed_only(ts, g, l)[k]) || l.contains(allowed_only(ts, g, l)[k])),
    decreases ts.len(),
{
    if ts.len() > 0 {
        assert forall|k: int| 0 <= k < ts.drop_last().len() implies is_token(#[trigger] ts.drop_last()[k]) by {
            assert(ts.drop_last()[k] == ts[k]);
        }
        lemma_allowed_only_members(ts.drop_last(), g, l);
        assert(is_token(ts[ts.len() - 1]));
        let rest = allowed_only(ts.drop_last(), g, l);
        if g.contains(ts.last()) || l.contains(ts.last()) {
            let r = rest.push(ts.last());
            assert forall|k: int| 0 <= k < r.len() implies is_token(#[trigger] r[k]) && (g.contains(r[k]) || l.contains(r[k])) by {
                if k < rest.len() {
                    assert(r[k] == rest[k]);
                }
            }
        }
    }
}

proof fn lemma_allowed_only_keeps_allowed(ts: Seq<Seq<char>>, g: Seq<Seq<char>>, l: Seq<Seq<char>>)
    requires
        forall|k: int| 0 <= k < ts.len() ==> g.contains(#[trigger] ts[k]) || l.contains(ts[k]),
    ensures
        allowed_only(ts, g, l) == ts,
    decreases ts.len(),
{
    if ts.len() > 0 {
        assert forall|k: int| 0 <= k < ts.drop_last().len() implies g.contains(#[trigger] ts.drop_last()[k]) || l.contains(ts.drop_last()[k]) by {
            assert(ts.drop_last()[k] == ts[k]);
        }
        lemma_allowed_only_keeps_allowed(ts.drop_last(), g, l);
        assert(g.contains(ts[ts.len() - 1]) || l.contains(ts[ts.len() - 1]));
        assert(ts.drop_last().push(ts.last()) =~= ts);
    }
}

proof fn lemma_split_state_extend(s: Seq<char>, t: Seq<char>)
    requires
        forall|i: int| 0 <= i < t.len() ==> !is_ws(#[trigger] t[i]),
    ensures
        split_state(s + t) == (split_state(s).0, split_state(s).1 + t),
    decreases t.len(),
{
    if t.len() == 0 {
        assert(s + t =~= s);
        assert(split_state(s).1 + t =~= split_state(s).1);
    } else {
        assert forall|i: int| 0 <= i < t.drop_last().len() implies !is_ws(#[trigger] t.drop_last()[i]) by {
            assert(t.drop_last()[i] == t[i]);
        }
        lemma_split_state_extend(s, t.drop_last());
        assert((s + t).drop_last() =~= s + t.drop_last());
        assert((s + t).last() == t.last());
        assert(!is_ws(t[t.len() - 1]));
        assert((split_state(s).1 + t.drop_last()).push(t.last()) =~= split_state(s).1 + t);
    }
}

proof fn lemma_ws_tokens_of_joined(ts: Seq<Seq<char>>)
    requires
        ts.len() > 0,
        forall|k: int| 0 <= k < ts.len() ==> is_token(#[trigger] ts[k]),
    ensures
        ws_tokens(joined(ts)) == ts,
    decreases ts.len(),
{
    let t = ts.last();
    assert(is_token(ts[ts.len() - 1]));
    if ts.len() == 1 {
        lemma_split_state_extend(Seq::empty(), t);
        assert(Seq::<char>::empty() + t =~= t);
        assert(Seq::<Seq<char>>::empty().push(t) =~= ts);
    } else {
        let rest = ts.drop_last();
        assert forall|k: int| 0 <= k < rest.len() implies is_token(#[trigger] rest[k]) by {
            assert(rest[k] == ts[k]);
        }
        lemma_ws_tokens_of_joined(rest);
        let j = joined(rest) + seq![' '];
        assert(j.drop_last() =~= joined(rest));
        assert(is_ws(j.last()));
        assert(split_state(j) == (rest, Seq::<char>::empty()));
        lemma_split_state_extend(j, t);
        assert(Seq::<char>::empty() + t =~= t);
        assert(rest.push(t) =~= ts);
    }
}

/// Filtering a class list that has already been filtered gives it back
/// unchanged: the class gate is idempotent.
pub proof fn lemma_class_filter_idempotent(v: Seq<char>, global: Seq<Seq<char>>, local: Seq<Seq<char>>)
    ensures
        class_filter(v, global, local) matches Some(w) ==> class_filter(w, global, local) == Some(w),
{
    if !(global.len() == 0 && local.len() == 0) {
        let kept = allowed_only(ws_tokens(v), global, local);
        if kept.len() > 0 {
            lemma_ws_tokens_are_tokens(v);
            lemma_allowed_only_members(ws_tokens(v), global, local);
            lemma_ws_tokens_of_joined(kept);
            lemma_allowed_only_keeps_allowed(kept, global, local);
        }
    }
}

} // verus!
