//! Recognition of a class declaration: bare, or with a brace-delimited body of
//! member lines.
use vstd::prelude::*;
use crate::member::{member_at, member_spec};
use crate::text::{
    CharClass, class_name_at, class_name_spec, has_prefix, lemma_skip_skip, lemma_skip_step, run,
    scan, scanned, skip_ws, skip_ws_at, starts_with,
};
use crate::types::{Class, ClassView, Member, MemberView, members_view};

verus! {

pub open spec fn kw_class() -> Seq<char> {
    seq!['c', 'l', 'a', 's', 's']
}

pub open spec fn comment_marker() -> Seq<char> {
    seq!['%', '%']
}

/// `s` after a comment marker and the rest of its line (the line end stays).
pub open spec fn skip_comment_line(s: Seq<char>) -> Seq<char> {
    let u = s.skip(2);
    u.skip(run(u, CharClass::NotLineEnd) as int)
}

/// `s` without the rest of its line (the line end stays).
pub open spec fn skip_line(s: Seq<char>) -> Seq<char> {
    s.skip(run(s, CharClass::NotLineEnd) as int)
}

/// The member lines of a class body up to and including its `}`: `acc` followed by
/// the members found. Comment lines and lines that hold no member are passed over.
/// `None` where the text ends before the `}`.
pub open spec fn class_body(s: Seq<char>, acc: Seq<MemberView>) -> Option<(Seq<MemberView>, Seq<char>)>
    decreases s.len(),
{
    let t = skip_ws(s);
    if t.len() == 0 {
        None
    } else if t[0] == '}' {
        Some((acc, skip_ws(t.drop_first())))
    } else if starts_with(t, comment_marker()) {
        let r = skip_comment_line(t);
        if r.len() < s.len() {
            class_body(r, acc)
        } else {
            None
        }
    } else {
        match member_spec(t) {
            Some((m, r)) => if r.len() < s.len() {
                class_body(r, acc.push(m))
            } else {
                None
            },
            None => {
                let r = skip_line(t);
                if r.len() < s.len() {
                    class_body(r, acc)
                } else {
                    None
                }
            },
        }
    }
}

/// `class Name` or `class Name { member lines }`, after optional whitespace.
pub open spec fn class_stmt_spec(s: Seq<char>) -> Option<(ClassView, Seq<char>)> {
    let t = skip_ws(s);
    if starts_with(t, kw_class()) && run(t.skip(5), CharClass::Sp) > 0 {
        let u = t.skip(5);
        match class_name_spec(u.skip(run(u, CharClass::Sp) as int)) {
            None => None,
            Some((name, r)) => {
                let r1 = skip_ws(r);
                if r1.len() > 0 && r1[0] == '{' {
                    match class_body(r1.drop_first(), Seq::empty()) {
                        Some((ms, rest)) => Some(
                            (ClassView { name: name, annotations: Seq::empty(), members: ms }, rest),
                        ),
                        None => None,
                    }
                } else {
                    Some((ClassView { name: name, annotations: Seq::empty(), members: Seq::empty() }, r1))
                }
            },
        }
    } else {
        None
    }
}

/// Position after a comment marker at `i` and the rest of its line.
pub(crate) fn skip_comment_line_at(v: &Vec<char>, i: usize) -> (j: usize)
    requires
        i + 2 <= v.len(),
    ensures
        i + 2 <= j <= v.len(),
        v@.skip(j as int) == skip_comment_line(v@.skip(i as int)),
{
    let j = scan(v, i + 2, CharClass::NotLineEnd);
    proof {
        lemma_skip_skip(v@, i as int, 2);
        lemma_skip_skip(v@, i + 2, j - i - 2);
    }
    j
}

/// Position at the end of the line that `i` is on.
pub(crate) fn skip_line_at(v: &Vec<char>, i: usize) -> (j: usize)
    requires
        i <= v.len(),
    ensures
        i <= j <= v.len(),
        v@.skip(j as int) == skip_line(v@.skip(i as int)),
{
    let j = scan(v, i, CharClass::NotLineEnd);
    proof {
        lemma_skip_skip(v@, i as int, j - i);
    }
    j
}

fn class_body_at(v: &Vec<char>, i: usize) -> (r: Option<(Vec<Member>, usize)>)
    requires
        i <= v.len(),
    ensures
        match r {
            Some((ms, j)) => i <= j <= v.len() && class_body(v@.skip(i as int), Seq::empty()) == Some(
                (members_view(ms@), v@.skip(j as int)),
            ),
            None => class_body(v@.skip(i as int), Seq::empty()).is_none(),
        },
{
    let mut ms: Vec<Member> = Vec::new();
    let mut j = i;
    assert(members_view(ms@) =~= Seq::<MemberView>::empty());
    loop
        invariant
            i <= j <= v.len(),
            class_body(v@.skip(i as int), Seq::empty()) == class_body(
                v@.skip(j as int),
                members_view(ms@),
            ),
        decreases v.len() - j,
    {
        let t = skip_ws_at(v, j);
        if t == v.len() {
            return None;
        }
        proof {
            lemma_skip_step(v@, t as int);
        }
        if v[t] == '}' {
            let k = skip_ws_at(v, t + 1);
            return Some((ms, k));
        }
        if has_prefix(v, t, &vec!['%', '%']) {
            let k = skip_comment_line_at(v, t);
            j = k;
        } else {
            match member_at(v, t) {
                Some((m, k)) => {
                    if k <= j {
                        return None;
                    }
                    let ghost old_ms = ms@;
                    ms.push(m);
                    assert(members_view(ms@) =~= members_view(old_ms).push(m@));
                    j = k;
                },
                None => {
                    let k = skip_line_at(v, t);
                    if k <= j {
                        return None;
                    }
                    j = k;
                },
            }
        }
    }
}

pub(crate) fn class_stmt_at(v: &Vec<char>, i: usize) -> (r: Option<(Class, usize)>)
    requires
        i <= v.len(),
    ensures
        scanned(v@, i as int, r, class_stmt_spec(v@.skip(i as int))),
{
    let t = skip_ws_at(v, i);
    if !has_prefix(v, t, &vec!['c', 'l', 'a', 's', 's']) {
        return None;
    }
    proof {
        lemma_skip_skip(v@, t as int, 5);
    }
    let u = scan(v, t + 5, CharClass::Sp);
    if u == t + 5 {
        return None;
    }
    proof {
        lemma_skip_skip(v@, t + 5, u - t - 5);
    }
    let (name, r) = match class_name_at(v, u) {
        Some(x) => x,
        None => return None,
    };
    let r1 = skip_ws_at(v, r);
    if r1 < v.len() && v[r1] == '{' {
        proof {
            lemma_skip_step(v@, r1 as int);
        }
        match class_body_at(v, r1 + 1) {
            Some((ms, k)) => {
                let c = Class { name, annotations: Vec::new(), members: ms };
                assert(c@.annotations =~= Seq::<Seq<char>>::empty());
                Some((c, k))
            },
            None => None,
        }
    } else {
        proof {
            if r1 < v.len() {
                lemma_skip_step(v@, r1 as int);
            }
        }
        let c = Class { name, annotations: Vec::new(), members: Vec::new() };
        proof {
            assert(c@.annotations =~= Seq::<Seq<char>>::empty());
            assert(c@.members =~= Seq::<MemberView>::empty());
        }
        Some((c, r1))
    }
}

} // verus!
