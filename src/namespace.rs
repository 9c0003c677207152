//! Qualified names, namespace blocks, and the note and direction statements.
use vstd::prelude::*;
use crate::class::{
    class_stmt_at, class_stmt_spec, comment_marker, skip_comment_line, skip_comment_line_at,
    skip_line, skip_line_at,
};
use crate::member::{member_at, member_spec};
use crate::text::{
    CharClass, chars_of, class_name_at, class_name_spec, has_prefix, lemma_skip_skip,
    lemma_skip_step, run, scan, scanned, skip_sp, skip_sp_at, skip_ws, skip_ws_at, starts_with,
    substring,
};
use crate::types::{
    Class, ClassView, Direction, Member, MemberView, Namespace, NamespaceView, Note, NoteView,
    classes_view, members_view,
};

verus! {

/// Start of the last `::` in `q` that begins before `n`, or -1.
pub open spec fn last_sep_before(q: Seq<char>, n: int) -> int
    decreases n,
{
    if n < 2 || n > q.len() {
        -1
    } else if q[n - 2] == ':' && q[n - 1] == ':' {
        n - 2
    } else {
        last_sep_before(q, n - 1)
    }
}

/// Start of the last `::` in `q`, or -1.
pub open spec fn last_sep(q: Seq<char>) -> int {
    last_sep_before(q, q.len() as int)
}

/// The namespace part of a qualified name: before its last `::`; empty without one.
pub open spec fn namespace_of(q: Seq<char>) -> Seq<char> {
    if last_sep(q) >= 0 {
        q.take(last_sep(q))
    } else {
        Seq::empty()
    }
}

/// The local part of a qualified name: after its last `::`; all of it without one.
pub open spec fn local_name(q: Seq<char>) -> Seq<char> {
    if last_sep(q) >= 0 {
        q.skip(last_sep(q) + 2)
    } else {
        q
    }
}

pub(crate) fn last_sep_at(v: &Vec<char>) -> (r: Option<usize>)
    ensures
        match r {
            Some(k) => last_sep(v@) == k as int && k + 2 <= v.len(),
            None => last_sep(v@) == -1,
        },
{
    let mut n = v.len();
    while n >= 2
        invariant
            n <= v.len(),
            last_sep(v@) == last_sep_before(v@, n as int),
        decreases n,
    {
        if v[n - 2] == ':' && v[n - 1] == ':' {
            return Some(n - 2);
        }
        n = n - 1;
    }
    None
}

/// Splits a qualified name at its last `::` into namespace and local name.
pub fn split_namespace(fq: &str) -> (r: (String, String))
    ensures
        r.0@ == namespace_of(fq@),
        r.1@ == local_name(fq@),
{
    let v = chars_of(fq);
    match last_sep_at(&v) {
        Some(k) => {
            let ns = substring(&v, 0, k);
            let local = substring(&v, k + 2, v.len());
            proof {
                assert(v@.subrange(0, k as int) =~= v@.take(k as int));
            }
            (ns, local)
        },
        None => {
            let ns = String::new();
            let local = substring(&v, 0, v.len());
            proof {
                assert(v@.subrange(0, v.len() as int) =~= v@);
                assert(ns@ =~= Seq::<char>::empty());
            }
            (ns, local)
        },
    }
}

/// Index of the first class in `cs`, from `i` on, whose local name is `key`; -1 if none.
pub open spec fn find_class(cs: Seq<ClassView>, key: Seq<char>, i: int) -> int
    decreases cs.len() - i,
{
    if i < 0 || i >= cs.len() {
        -1
    } else if local_name(cs[i].name) == key {
        i
    } else {
        find_class(cs, key, i + 1)
    }
}

/// Adds `members` to the class of `cs` with the local name of `name`, or appends a
/// new class `name` with them.
pub open spec fn merge_class(cs: Seq<ClassView>, name: Seq<char>, members: Seq<MemberView>) -> Seq<ClassView> {
    let i = find_class(cs, local_name(name), 0);
    if i >= 0 {
        cs.update(
            i,
            ClassView {
                name: cs[i].name,
                annotations: cs[i].annotations,
                members: cs[i].members + members,
            },
        )
    } else {
        cs.push(ClassView { name: name, annotations: Seq::empty(), members: members })
    }
}

/// The local name of a class name held as a `String`.
pub(crate) fn local_of(name: &String) -> (r: String)
    ensures
        r@ == local_name(name@),
{
    let (_, local) = split_namespace(name.as_str());
    local
}

pub(crate) fn find_class_at(cs: &Vec<Class>, key: &String) -> (r: Option<usize>)
    ensures
        match r {
            Some(i) => i < cs.len() && find_class(classes_view(cs@), key@, 0) == i as int,
            None => find_class(classes_view(cs@), key@, 0) == -1,
        },
{
    let mut i: usize = 0;
    while i < cs.len()
        invariant
            i <= cs.len(),
            find_class(classes_view(cs@), key@, 0) == find_class(classes_view(cs@), key@, i as int),
        decreases cs.len() - i,
    {
        let local = local_of(&cs[i].name);
        if local == *key {
            return Some(i);
        }
        i = i + 1;
    }
    None
}

/// Adds `members` to the class that `name` designates in `cs` (see `merge_class`).
pub(crate) fn merge_class_into(cs: &mut Vec<Class>, name: String, members: Vec<Member>)
    ensures
        classes_view(final(cs)@) == merge_class(classes_view(old(cs)@), name@, members_view(members@)),
{
    let key = local_of(&name);
    match find_class_at(cs, &key) {
        Some(i) => {
            let ghost old_cs = cs@;
            let mut c = cs.remove(i);
            let ghost old_c = c;
            let mut extra = members;
            c.members.append(&mut extra);
            cs.insert(i, c);
            proof {
                assert(members_view(c.members@) =~= members_view(old_c.members@) + members_view(members@));
                assert(classes_view(cs@) =~= merge_class(classes_view(old_cs), name@, members_view(members@)));
            }
        },
        None => {
            let ghost old_cs = cs@;
            let c = Class { name, annotations: Vec::new(), members };
            cs.push(c);
            proof {
                assert(c@.annotations =~= Seq::<Seq<char>>::empty());
                assert(classes_view(cs@) =~= merge_class(classes_view(old_cs), name@, members_view(members@)));
            }
        },
    }
}

/// `Name : member`: the class that a member is attached to, and the member.
pub open spec fn member_line_spec(s: Seq<char>) -> Option<(Seq<char>, MemberView, Seq<char>)> {
    match class_name_spec(s) {
        None => None,
        Some((name, r1)) => {
            let r2 = skip_sp(r1);
            if r2.len() > 0 && r2[0] == ':' {
                match member_spec(skip_sp(r2.drop_first())) {
                    Some((m, r)) => Some((name, m, r)),
                    None => None,
                }
            } else {
                None
            }
        },
    }
}

pub(crate) fn member_line_at(v: &Vec<char>, i: usize) -> (r: Option<(String, Member, usize)>)
    requires
        i <= v.len(),
    ensures
        match r {
            Some((name, m, j)) => i <= j <= v.len() && member_line_spec(v@.skip(i as int)) == Some(
                (name@, m@, v@.skip(j as int)),
            ),
            None => member_line_spec(v@.skip(i as int)).is_none(),
        },
{
    let (name, r1) = match class_name_at(v, i) {
        Some(x) => x,
        None => return None,
    };
    let r2 = skip_sp_at(v, r1);
    if !(r2 < v.len() && v[r2] == ':') {
        proof {
            if r2 < v.len() {
                lemma_skip_step(v@, r2 as int);
            }
        }
        return None;
    }
    proof {
        lemma_skip_step(v@, r2 as int);
    }
    let r3 = skip_sp_at(v, r2 + 1);
    match member_at(v, r3) {
        Some((m, j)) => Some((name, m, j)),
        None => None,
    }
}

/// The lines of a namespace block up to and including its `}`: class declarations and
/// `Name : member` lines merged into `acc` by local name; comment lines and
/// unrecognized lines are passed over. `None` where the text ends before the `}`.
pub open spec fn namespace_body(s: Seq<char>, acc: Seq<ClassView>) -> Option<(Seq<ClassView>, Seq<char>)>
    decreases s.len(),
{
    let t = skip_ws(s);
    if t.len() == 0 {
        None
    } else if t[0] == '}' {
        Some((acc, skip_ws(t.drop_first())))
    } else if starts_with(t, comment_marker()) {
        let r = skip_comment_line(t);
        if r.len() < s.len() {
            namespace_body(r, acc)
        } else {
            None
        }
    } else {
        match class_stmt_spec(t) {
            Some((c, r)) => if r.len() < s.len() {
                namespace_body(r, merge_class(acc, c.name, c.members))
            } else {
                None
            },
            None => match member_line_spec(t) {
                Some((name, m, r)) => if r.len() < s.len() {
                    namespace_body(r, merge_class(acc, name, seq![m]))
                } else {
                    None
                },
                None => {
                    let r = skip_line(t);
                    if r.len() < s.len() {
                        namespace_body(r, acc)
                    } else {
                        None
                    }
                },
            },
        }
    }
}

pub open spec fn kw_namespace() -> Seq<char> {
    seq!['n', 'a', 'm', 'e', 's', 'p', 'a', 'c', 'e']
}

/// `namespace Name`, after optional whitespace; the name may be backtick-escaped.
pub open spec fn namespace_identifier_spec(s: Seq<char>) -> Option<(Seq<char>, Seq<char>)> {
    let t = skip_ws(s);
    if starts_with(t, kw_namespace()) && run(t.skip(9), CharClass::Sp) > 0 {
        class_name_spec(t.skip(9 + run(t.skip(9), CharClass::Sp) as int))
    } else {
        None
    }
}

/// `namespace Name { ... }`; its classes carry their names as written in the block.
pub open spec fn namespace_stmt_spec(s: Seq<char>) -> Option<(NamespaceView, Seq<char>)> {
    match namespace_identifier_spec(s) {
        None => None,
        Some((name, r)) => {
            let r1 = skip_ws(r);
            if r1.len() > 0 && r1[0] == '{' {
                match namespace_body(r1.drop_first(), Seq::empty()) {
                    Some((cs, rest)) => Some((NamespaceView { name: name, classes: cs }, rest)),
                    None => None,
                }
            } else {
                None
            }
        },
    }
}

pub(crate) fn namespace_identifier_at(v: &Vec<char>, i: usize) -> (r: Option<(String, usize)>)
    requires
        i <= v.len(),
    ensures
        scanned(v@, i as int, r, namespace_identifier_spec(v@.skip(i as int))),
{
    let t = skip_ws_at(v, i);
    if !has_prefix(v, t, &vec!['n', 'a', 'm', 'e', 's', 'p', 'a', 'c', 'e']) {
        return None;
    }
    proof {
        lemma_skip_skip(v@, t as int, 9);
    }
    let u = scan(v, t + 9, CharClass::Sp);
    if u == t + 9 {
        return None;
    }
    proof {
        lemma_skip_skip(v@, t as int, u - t);
    }
    class_name_at(v, u)
}

fn namespace_body_at(v: &Vec<char>, i: usize) -> (r: Option<(Vec<Class>, usize)>)
    requires
        i <= v.len(),
    ensures
        match r {
            Some((cs, j)) => i <= j <= v.len() && namespace_body(v@.skip(i as int), Seq::empty())
                == Some((classes_view(cs@), v@.skip(j as int))),
            None => namespace_body(v@.skip(i as int), Seq::empty()).is_none(),
        },
{
    let mut cs: Vec<Class> = Vec::new();
    let mut j = i;
    assert(classes_view(cs@) =~= Seq::<ClassView>::empty());
    loop
        invariant
            i <= j <= v.len(),
            namespace_body(v@.skip(i as int), Seq::empty()) == namespace_body(
                v@.skip(j as int),
                classes_view(cs@),
            ),
        decreases v.len() - j,
    {
        let t = skip_ws_at(v, j);
        if t == v.len() {
            return None;
        }
        proof {
            lemma_skip_step(v@, t as int);
        }
        if v[t] == '}' {
            let k = skip_ws_at(v, t + 1);
            return Some((cs, k));
        }
        if has_prefix(v, t, &vec!['%', '%']) {
            j = skip_comment_line_at(v, t);
        } else {
            match class_stmt_at(v, t) {
                Some((c, k)) => {
                    if k <= j {
                        return None;
                    }
                    merge_class_into(&mut cs, c.name, c.members);
                    j = k;
                },
                None => match member_line_at(v, t) {
                    Some((name, m, k)) => {
                        if k <= j {
                            return None;
                        }
                        let ms = vec![m];
                        assert(members_view(ms@) =~= seq![m@]);
                        merge_class_into(&mut cs, name, ms);
                        j = k;
                    },
                    None => {
                        let k = skip_line_at(v, t);
                        if k <= j {
                            return None;
                        }
                        j = k;
                    },
                },
            }
        }
    }
}

pub(crate) fn namespace_stmt_at(v: &Vec<char>, i: usize) -> (r: Option<(Namespace, usize)>)
    requires
        i <= v.len(),
    ensures
        scanned(v@, i as int, r, namespace_stmt_spec(v@.skip(i as int))),
{
    let (name, r) = match namespace_identifier_at(v, i) {
        Some(x) => x,
        None => return None,
    };
    let r1 = skip_ws_at(v, r);
    if !(r1 < v.len() && v[r1] == '{') {
        proof {
            if r1 < v.len() {
                lemma_skip_step(v@, r1 as int);
            }
        }
        return None;
    }
    proof {
        lemma_skip_step(v@, r1 as int);
    }
    match namespace_body_at(v, r1 + 1) {
        Some((cs, k)) => Some((Namespace { name, classes: cs }, k)),
        None => None,
    }
}

/// Text between double quotes (possibly empty) at the very start of `s`.
pub open spec fn quoted_text(s: Seq<char>) -> Option<(Seq<char>, Seq<char>)> {
    if s.len() > 0 && s[0] == '"' {
        let n = run(s.drop_first(), CharClass::NotQuote) as int;
        if n + 1 < s.len() {
            Some((s.subrange(1, n + 1), s.skip(n + 2)))
        } else {
            None
        }
    } else {
        None
    }
}

/// `note "text"` or `note for Name "text"`, after optional whitespace.
pub open spec fn note_spec(s: Seq<char>) -> Option<(NoteView, Seq<char>)> {
    let t = skip_ws(s);
    if starts_with(t, seq!['n', 'o', 't', 'e']) && run(t.skip(4), CharClass::Sp) > 0 {
        let w = t.skip(4 + run(t.skip(4), CharClass::Sp) as int);
        if starts_with(w, seq!['f', 'o', 'r']) {
            if run(w.skip(3), CharClass::Sp) > 0 {
                match class_name_spec(w.skip(3 + run(w.skip(3), CharClass::Sp) as int)) {
                    Some((name, r)) => match quoted_text(skip_sp(r)) {
                        Some((text, r2)) => Some((NoteView { text: text, target_class: Some(name) }, r2)),
                        None => None,
                    },
                    None => None,
                }
            } else {
                None
            }
        } else {
            match quoted_text(w) {
                Some((text, r2)) => Some((NoteView { text: text, target_class: None }, r2)),
                None => None,
            }
        }
    } else {
        None
    }
}

fn quoted_text_at(v: &Vec<char>, i: usize) -> (r: Option<(String, usize)>)
    requires
        i <= v.len(),
    ensures
        scanned(v@, i as int, r, quoted_text(v@.skip(i as int))),
{
    if i < v.len() && v[i] == '"' {
        proof {
            lemma_skip_step(v@, i as int);
        }
        let e = scan(v, i + 1, CharClass::NotQuote);
        if e < v.len() {
            let text = substring(v, i + 1, e);
            proof {
                assert(v@.skip(i as int).subrange(1, e - i) =~= v@.subrange(i + 1, e as int));
                lemma_skip_skip(v@, i as int, e - i + 1);
            }
            Some((text, e + 1))
        } else {
            None
        }
    } else {
        proof {
            if i < v.len() {
                lemma_skip_step(v@, i as int);
            }
        }
        None
    }
}

pub(crate) fn note_at(v: &Vec<char>, i: usize) -> (r: Option<(Note, usize)>)
    requires
        i <= v.len(),
    ensures
        scanned(v@, i as int, r, note_spec(v@.skip(i as int))),
{
    let t = skip_ws_at(v, i);
    if !has_prefix(v, t, &vec!['n', 'o', 't', 'e']) {
        return None;
    }
    proof {
        lemma_skip_skip(v@, t as int, 4);
    }
    let w = scan(v, t + 4, CharClass::Sp);
    if w == t + 4 {
        return None;
    }
    proof {
        lemma_skip_skip(v@, t as int, w - t);
    }
    if has_prefix(v, w, &vec!['f', 'o', 'r']) {
        proof {
            lemma_skip_skip(v@, w as int, 3);
        }
        let x = scan(v, w + 3, CharClass::Sp);
        if x == w + 3 {
            return None;
        }
        proof {
            lemma_skip_skip(v@, w as int, x - w);
        }
        let (name, r) = match class_name_at(v, x) {
            Some(p) => p,
            None => return None,
        };
        let r1 = skip_sp_at(v, r);
        match quoted_text_at(v, r1) {
            Some((text, r2)) => Some((Note { text, target_class: Some(name) }, r2)),
            None => None,
        }
    } else {
        match quoted_text_at(v, w) {
            Some((text, r2)) => Some((Note { text, target_class: None }, r2)),
            None => None,
        }
    }
}

/// `direction XY`, after optional whitespace; whitespace after it is skipped too.
pub open spec fn direction_spec(s: Seq<char>) -> Option<(Direction, Seq<char>)> {
    let t = skip_ws(s);
    if starts_with(t, seq!['d', 'i', 'r', 'e', 'c', 't', 'i', 'o', 'n']) && run(t.skip(9), CharClass::Sp) > 0 {
        let w = t.skip(9 + run(t.skip(9), CharClass::Sp) as int);
        let d = if starts_with(w, seq!['T', 'B']) || starts_with(w, seq!['T', 'D']) {
            Some(Direction::TopBottom)
        } else if starts_with(w, seq!['B', 'T']) {
            Some(Direction::BottomTop)
        } else if starts_with(w, seq!['L', 'R']) {
            Some(Direction::LeftRight)
        } else if starts_with(w, seq!['R', 'L']) {
            Some(Direction::RightLeft)
        } else {
            None
        };
        match d {
            Some(d) => Some((d, skip_ws(w.skip(2)))),
            None => None,
        }
    } else {
        None
    }
}

pub(crate) fn direction_at(v: &Vec<char>, i: usize) -> (r: Option<(Direction, usize)>)
    requires
        i <= v.len(),
    ensures
        scanned(v@, i as int, r, direction_spec(v@.skip(i as int))),
{
    let t = skip_ws_at(v, i);
    if !has_prefix(v, t, &vec!['d', 'i', 'r', 'e', 'c', 't', 'i', 'o', 'n']) {
        return None;
    }
    proof {
        lemma_skip_skip(v@, t as int, 9);
    }
    let w = scan(v, t + 9, CharClass::Sp);
    if w == t + 9 {
        return None;
    }
    proof {
        lemma_skip_skip(v@, t as int, w - t);
    }
    let d = if has_prefix(v, w, &vec!['T', 'B']) || has_prefix(v, w, &vec!['T', 'D']) {
        Direction::TopBottom
    } else if has_prefix(v, w, &vec!['B', 'T']) {
        Direction::BottomTop
    } else if has_prefix(v, w, &vec!['L', 'R']) {
        Direction::LeftRight
    } else if has_prefix(v, w, &vec!['R', 'L']) {
        Direction::RightLeft
    } else {
        return None;
    };
    proof {
        lemma_skip_skip(v@, w as int, 2);
    }
    let j = skip_ws_at(v, w + 2);
    Some((d, j))
}

} // verus!
