//! Recognition of one member fragment: an attribute or a method, with its
//! visibility, modifiers, and the notation its types were written in.
use vstd::prelude::*;
use crate::text::{
    lemma_skip_step, scanned, skip_sp, skip_sp_at, skip_ws, skip_ws_at, substring, token, token_at,
};
use crate::types::{
    Attribute, AttributeView, Member, MemberView, Method, MethodView, Parameter, ParameterView,
    TypeNotation, Visibility, opt_view, params_view, visibility_of,
};

verus! {

pub open spec fn is_visibility_glyph(c: char) -> bool {
    c == '+' || c == '-' || c == '#' || c == '~'
}

/// A visibility glyph between optional whitespace.
pub open spec fn visibility_spec(s: Seq<char>) -> Option<(Visibility, Seq<char>)> {
    let t = skip_ws(s);
    if t.len() > 0 && is_visibility_glyph(t[0]) {
        Some((visibility_of(t[0]), skip_ws(t.drop_first())))
    } else {
        None
    }
}

/// An optional one-character modifier `g`, then spaces.
pub open spec fn modifier(s: Seq<char>, g: char) -> (bool, Seq<char>) {
    if s.len() > 0 && s[0] == g {
        (true, skip_sp(s.drop_first()))
    } else {
        (false, s)
    }
}

/// What every member starts with: whitespace, an optional visibility glyph, spaces,
/// an optional static glyph `$`, spaces.
#[verifier::opaque]
pub open spec fn member_prelude(s: Seq<char>) -> (Visibility, bool, Seq<char>) {
    let t = skip_ws(s);
    let (vis, t1) = match visibility_spec(t) {
        Some((v, r)) => (v, r),
        None => (Visibility::Unspecified, t),
    };
    let (st, t3) = modifier(skip_sp(t1), '$');
    (vis, st, skip_sp(t3))
}

/// A name with an optional type: `Type name` (prefix), `name: Type` (postfix) or
/// `name` alone. Gives name, type, notation and the rest.
#[verifier::opaque]
pub open spec fn typed_name(s: Seq<char>) -> Option<
    (Seq<char>, Option<Seq<char>>, TypeNotation, Seq<char>),
> {
    match token(s) {
        None => None,
        Some((first, r1)) => {
            let r2 = skip_sp(r1);
            if r2.len() > 0 && r2[0] == ':' {
                let r3 = skip_sp(r2.drop_first());
                match token(r3) {
                    Some((ty, r4)) => Some((first, Some(ty), TypeNotation::Postfix, r4)),
                    None => Some((first, None, TypeNotation::Omitted, r3)),
                }
            } else {
                match token(r2) {
                    Some((name, r4)) => Some((name, Some(first), TypeNotation::Prefix, r4)),
                    None => Some((first, None, TypeNotation::Omitted, r2)),
                }
            }
        },
    }
}

/// One method parameter, after optional spaces.
pub open spec fn param_spec(s: Seq<char>) -> Option<(ParameterView, Seq<char>)> {
    match typed_name(skip_sp(s)) {
        Some((name, ty, nt, r)) => Some(
            (ParameterView { name: name, data_type: ty, type_notation: nt }, r),
        ),
        None => None,
    }
}

/// Further parameters, each after a comma: `acc` followed by those found, and the
/// text after the last one.
pub open spec fn param_tail(s: Seq<char>, acc: Seq<ParameterView>) -> (Seq<ParameterView>, Seq<char>)
    decreases s.len(),
{
    let t = skip_sp(s);
    if t.len() > 0 && t[0] == ',' {
        match param_spec(skip_sp(t.drop_first())) {
            Some((p, r)) => if r.len() < s.len() {
                param_tail(r, acc.push(p))
            } else {
                (acc, s)
            },
            None => (acc, s),
        }
    } else {
        (acc, s)
    }
}

/// A possibly empty comma-separated parameter list.
pub open spec fn param_list(s: Seq<char>) -> (Seq<ParameterView>, Seq<char>) {
    match param_spec(s) {
        None => (Seq::empty(), s),
        Some((p, r)) => param_tail(r, seq![p]),
    }
}

/// An attribute fragment.
pub open spec fn attribute_spec(s: Seq<char>) -> Option<(AttributeView, Seq<char>)> {
    let (vis, st, t) = member_prelude(s);
    match typed_name(t) {
        Some((name, ty, nt, r)) => Some(
            (
                AttributeView {
                    visibility: vis,
                    name: name,
                    data_type: ty,
                    is_static: st,
                    type_notation: nt,
                },
                r,
            ),
        ),
        None => None,
    }
}

/// The head of a method up to its `(`: an optional prefix return type and the name.
#[verifier::opaque]
pub open spec fn method_head(s: Seq<char>) -> Option<(Option<Seq<char>>, Seq<char>, Seq<char>)> {
    match token(s) {
        None => None,
        Some((first, r1)) => {
            let r2 = skip_sp(r1);
            if r2.len() > 0 && r2[0] == '(' {
                Some((None, first, r2.drop_first()))
            } else {
                match token(r2) {
                    Some((name, r3)) => {
                        let r4 = skip_sp(r3);
                        if r4.len() > 0 && r4[0] == '(' {
                            Some((Some(first), name, r4.drop_first()))
                        } else {
                            None
                        }
                    },
                    None => None,
                }
            }
        },
    }
}

/// What follows a method's `(`: the parameters, `)`, and an optional return type
/// after them. A return type before the name (`pre`, prefix notation) wins over one
/// after the list (postfix).
#[verifier::opaque]
pub open spec fn method_rest(
    vis: Visibility,
    st: bool,
    ab: bool,
    pre: Option<Seq<char>>,
    name: Seq<char>,
    r5: Seq<char>,
) -> Option<(MethodView, Seq<char>)> {
    let (params, r7) = param_list(skip_sp(r5));
    let r8 = skip_sp(r7);
    if r8.len() > 0 && r8[0] == ')' {
        let r9 = skip_sp(r8.drop_first());
        let (post, r10) = match token(r9) {
            Some((ty, r)) => (Some(ty), r),
            None => (None, r9),
        };
        let (rt, nt) = match pre {
            Some(p) => (Some(p), TypeNotation::Prefix),
            None => match post {
                Some(p) => (Some(p), TypeNotation::Postfix),
                None => (None, TypeNotation::Omitted),
            },
        };
        Some(
            (
                MethodView {
                    visibility: vis,
                    name: name,
                    parameters: params,
                    return_type: rt,
                    is_static: st,
                    is_abstract: ab,
                    return_type_notation: nt,
                },
                r10,
            ),
        )
    } else {
        None
    }
}

/// A method fragment: `[vis][$][*][Type ]name(params)[ Type]`.
pub open spec fn method_spec(s: Seq<char>) -> Option<(MethodView, Seq<char>)> {
    let (vis, st, t) = member_prelude(s);
    let (ab, t2) = modifier(t, '*');
    match method_head(skip_sp(t2)) {
        None => None,
        Some((pre, name, r5)) => method_rest(vis, st, ab, pre, name, r5),
    }
}

/// A member fragment: a method where one can be read, an attribute otherwise.
pub open spec fn member_spec(s: Seq<char>) -> Option<(MemberView, Seq<char>)> {
    match method_spec(s) {
        Some((m, r)) => Some((MemberView::Method(m), r)),
        None => match attribute_spec(s) {
            Some((a, r)) => Some((MemberView::Attribute(a), r)),
            None => None,
        },
    }
}

pub(crate) fn visibility_at(v: &Vec<char>, i: usize) -> (r: Option<(Visibility, usize)>)
    requires
        i <= v.len(),
    ensures
        scanned(v@, i as int, r, visibility_spec(v@.skip(i as int))),
{
    let t = skip_ws_at(v, i);
    if t < v.len() && (v[t] == '+' || v[t] == '-' || v[t] == '#' || v[t] == '~') {
        proof {
            lemma_skip_step(v@, t as int);
        }
        let vis = Visibility::from(v[t]);
        let j = skip_ws_at(v, t + 1);
        Some((vis, j))
    } else {
        None
    }
}

fn modifier_at(v: &Vec<char>, i: usize, g: char) -> (r: (bool, usize))
    requires
        i <= v.len(),
    ensures
        i <= r.1 <= v.len(),
        modifier(v@.skip(i as int), g) == (r.0, v@.skip(r.1 as int)),
{
    if i < v.len() && v[i] == g {
        proof {
            lemma_skip_step(v@, i as int);
        }
        (true, skip_sp_at(v, i + 1))
    } else {
        (false, i)
    }
}

fn prelude_at(v: &Vec<char>, i: usize) -> (r: (Visibility, bool, usize))
    requires
        i <= v.len(),
    ensures
        i <= r.2 <= v.len(),
        member_prelude(v@.skip(i as int)) == (r.0, r.1, v@.skip(r.2 as int)),
{
    reveal(member_prelude);
    let t = skip_ws_at(v, i);
    let (vis, t1) = match visibility_at(v, t) {
        Some((vis, j)) => (vis, j),
        None => (Visibility::Unspecified, t),
    };
    let t2 = skip_sp_at(v, t1);
    let (st, t3) = modifier_at(v, t2, '$');
    (vis, st, skip_sp_at(v, t3))
}

fn typed_name_at(v: &Vec<char>, i: usize) -> (r: Option<(String, Option<String>, TypeNotation, usize)>)
    requires
        i <= v.len(),
    ensures
        match r {
            Some((name, ty, nt, j)) => i <= j <= v.len() && typed_name(v@.skip(i as int)) == Some(
                (name@, opt_view(ty), nt, v@.skip(j as int)),
            ),
            None => typed_name(v@.skip(i as int)).is_none(),
        },
{
    reveal(typed_name);
    let e1 = match token_at(v, i) {
        Some(e) => e,
        None => return None,
    };
    let first = substring(v, i, e1);
    let r2 = skip_sp_at(v, e1);
    if r2 < v.len() && v[r2] == ':' {
        proof {
            lemma_skip_step(v@, r2 as int);
        }
        let r3 = skip_sp_at(v, r2 + 1);
        match token_at(v, r3) {
            Some(e) => Some((first, Some(substring(v, r3, e)), TypeNotation::Postfix, e)),
            None => Some((first, None, TypeNotation::Omitted, r3)),
        }
    } else {
        proof {
            if r2 < v.len() {
                lemma_skip_step(v@, r2 as int);
            }
        }
        match token_at(v, r2) {
            Some(e) => Some((substring(v, r2, e), Some(first), TypeNotation::Prefix, e)),
            None => Some((first, None, TypeNotation::Omitted, r2)),
        }
    }
}

pub(crate) fn param_at(v: &Vec<char>, i: usize) -> (r: Option<(Parameter, usize)>)
    requires
        i <= v.len(),
    ensures
        scanned(v@, i as int, r, param_spec(v@.skip(i as int))),
{
    let t = skip_sp_at(v, i);
    match typed_name_at(v, t) {
        Some((name, ty, nt, j)) => Some((Parameter { name, data_type: ty, type_notation: nt }, j)),
        None => None,
    }
}

fn param_list_at(v: &Vec<char>, i: usize) -> (r: (Vec<Parameter>, usize))
    requires
        i <= v.len(),
    ensures
        i <= r.1 <= v.len(),
        param_list(v@.skip(i as int)) == (params_view(r.0@), v@.skip(r.1 as int)),
{
    let mut ps: Vec<Parameter> = Vec::new();
    let (p, mut j) = match param_at(v, i) {
        Some(x) => x,
        None => {
            assert(params_view(ps@) =~= Seq::<ParameterView>::empty());
            return (ps, i);
        },
    };
    ps.push(p);
    assert(params_view(ps@) =~= seq![p@]);
    loop
        invariant
            i <= j <= v.len(),
            param_list(v@.skip(i as int)) == param_tail(v@.skip(j as int), params_view(ps@)),
        decreases v.len() - j,
    {
        let t = skip_sp_at(v, j);
        if !(t < v.len() && v[t] == ',') {
            proof {
                if t < v.len() {
                    lemma_skip_step(v@, t as int);
                }
            }
            return (ps, j);
        }
        proof {
            lemma_skip_step(v@, t as int);
        }
        let u = skip_sp_at(v, t + 1);
        match param_at(v, u) {
            Some((p, k)) => {
                if k > j {
                    let ghost old_ps = ps@;
                    ps.push(p);
                    assert(params_view(ps@) =~= params_view(old_ps).push(p@));
                    j = k;
                } else {
                    return (ps, j);
                }
            },
            None => {
                return (ps, j);
            },
        }
    }
}

pub(crate) fn attribute_at(v: &Vec<char>, i: usize) -> (r: Option<(Attribute, usize)>)
    requires
        i <= v.len(),
    ensures
        scanned(v@, i as int, r, attribute_spec(v@.skip(i as int))),
{
    let (vis, st, t) = prelude_at(v, i);
    match typed_name_at(v, t) {
        Some((name, ty, nt, j)) => Some(
            (
                Attribute {
                    visibility: vis,
                    name,
                    data_type: ty,
                    is_static: st,
                    type_notation: nt,
                },
                j,
            ),
        ),
        None => None,
    }
}

fn method_head_at(v: &Vec<char>, i: usize) -> (r: Option<(Option<String>, String, usize)>)
    requires
        i <= v.len(),
    ensures
        match r {
            Some((pre, name, j)) => i <= j <= v.len() && method_head(v@.skip(i as int)) == Some(
                (opt_view(pre), name@, v@.skip(j as int)),
            ),
            None => method_head(v@.skip(i as int)).is_none(),
        },
{
    reveal(method_head);
    let e1 = match token_at(v, i) {
        Some(e) => e,
        None => return None,
    };
    let r2 = skip_sp_at(v, e1);
    if r2 < v.len() && v[r2] == '(' {
        proof {
            lemma_skip_step(v@, r2 as int);
        }
        return Some((None, substring(v, i, e1), r2 + 1));
    }
    proof {
        if r2 < v.len() {
            lemma_skip_step(v@, r2 as int);
        }
    }
    let e3 = match token_at(v, r2) {
        Some(e) => e,
        None => return None,
    };
    let r4 = skip_sp_at(v, e3);
    if r4 < v.len() && v[r4] == '(' {
        proof {
            lemma_skip_step(v@, r4 as int);
        }
        Some((Some(substring(v, i, e1)), substring(v, r2, e3), r4 + 1))
    } else {
        proof {
            if r4 < v.len() {
                lemma_skip_step(v@, r4 as int);
            }
        }
        None
    }
}

pub(crate) fn method_at(v: &Vec<char>, i: usize) -> (r: Option<(Method, usize)>)
    requires
        i <= v.len(),
    ensures
        scanned(v@, i as int, r, method_spec(v@.skip(i as int))),
{
    reveal(method_rest);
    let (vis, st, t) = prelude_at(v, i);
    let (ab, t2) = modifier_at(v, t, '*');
    let t3 = skip_sp_at(v, t2);
    let (pre, name, r5) = match method_head_at(v, t3) {
        Some(x) => x,
        None => return None,
    };
    let r6 = skip_sp_at(v, r5);
    let (params, r7) = param_list_at(v, r6);
    let r8 = skip_sp_at(v, r7);
    if !(r8 < v.len() && v[r8] == ')') {
        proof {
            if r8 < v.len() {
                lemma_skip_step(v@, r8 as int);
            }
        }
        return None;
    }
    proof {
        lemma_skip_step(v@, r8 as int);
    }
    let r9 = skip_sp_at(v, r8 + 1);
    let (post, r10) = match token_at(v, r9) {
        Some(e) => (Some(substring(v, r9, e)), e),
        None => (None, r9),
    };
    let (rt, nt) = match pre {
        Some(p) => (Some(p), TypeNotation::Prefix),
        None => match post {
            Some(p) => (Some(p), TypeNotation::Postfix),
            None => (None, TypeNotation::Omitted),
        },
    };
    Some(
        (
            Method {
                visibility: vis,
                name,
                parameters: params,
                return_type: rt,
                is_static: st,
                is_abstract: ab,
                return_type_notation: nt,
            },
            r10,
        ),
    )
}

pub(crate) fn member_at(v: &Vec<char>, i: usize) -> (r: Option<(Member, usize)>)
    requires
        i <= v.len(),
    ensures
        scanned(v@, i as int, r, member_spec(v@.skip(i as int))),
{
    match method_at(v, i) {
        Some((m, j)) => Some((Member::Method(m), j)),
        None => match attribute_at(v, i) {
            Some((a, j)) => Some((Member::Attribute(a), j)),
            None => None,
        },
    }
}

} // verus!
