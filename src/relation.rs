//! Recognition of a relation statement: two class names joined by an arrow, with
//! optional cardinalities and label, normalized so that it reads tail to head.
use vstd::prelude::*;
use crate::text::{
    CharClass, class_name_at, class_name_spec, has_prefix, is_sp, lemma_skip_skip,
    lemma_skip_step, run, scan, scanned, skip_ws, skip_ws_at, starts_with, substring,
};
use crate::types::{Relation, RelationKind, RelationView};

verus! {

/// Non-empty text between double quotes, with whitespace around skipped.
pub open spec fn quoted_spec(s: Seq<char>) -> Option<(Seq<char>, Seq<char>)> {
    let t = skip_ws(s);
    if t.len() > 0 && t[0] == '"' {
        let n = run(t.drop_first(), CharClass::NotQuote) as int;
        if n > 0 && n + 1 < t.len() {
            Some((t.subrange(1, n + 1), skip_ws(t.skip(n + 2))))
        } else {
            None
        }
    } else {
        None
    }
}

/// The arrow spellings, longest and most specific first. Each gives the kind and
/// whether the arrow points from right to left.
#[verifier::opaque]
pub open spec fn arrow_spec(s: Seq<char>) -> Option<(RelationKind, bool, Seq<char>)> {
    if starts_with(s, seq!['<', '|', '-', '-']) {
        Some((RelationKind::Inheritance, true, s.skip(4)))
    } else if starts_with(s, seq!['-', '-', '|', '>']) {
        Some((RelationKind::Inheritance, false, s.skip(4)))
    } else if starts_with(s, seq!['*', '-', '-']) {
        Some((RelationKind::Composition, true, s.skip(3)))
    } else if starts_with(s, seq!['-', '-', '*']) {
        Some((RelationKind::Composition, false, s.skip(3)))
    } else if starts_with(s, seq!['o', '-', '-']) {
        Some((RelationKind::Aggregation, true, s.skip(3)))
    } else if starts_with(s, seq!['-', '-', 'o']) {
        Some((RelationKind::Aggregation, false, s.skip(3)))
    } else if starts_with(s, seq!['<', '-', '-']) {
        Some((RelationKind::Association, true, s.skip(3)))
    } else if starts_with(s, seq!['-', '-', '>']) {
        Some((RelationKind::Association, false, s.skip(3)))
    } else if starts_with(s, seq!['.', '.', '|', '>']) {
        Some((RelationKind::Realization, false, s.skip(4)))
    } else if starts_with(s, seq!['<', '.', '.']) {
        Some((RelationKind::Dependency, true, s.skip(3)))
    } else if starts_with(s, seq!['.', '.', '>']) {
        Some((RelationKind::Dependency, false, s.skip(3)))
    } else if starts_with(s, seq!['-', '-']) {
        Some((RelationKind::SolidLink, false, s.skip(2)))
    } else if starts_with(s, seq!['.', '.']) {
        Some((RelationKind::DashLink, false, s.skip(2)))
    } else {
        None
    }
}

/// `s` without its trailing spaces and tabs.
pub open spec fn trim_end(s: Seq<char>) -> Seq<char>
    decreases s.len(),
{
    if s.len() > 0 && is_sp(s.last()) {
        trim_end(s.drop_last())
    } else {
        s
    }
}

/// `: text` up to the line end; the text comes trimmed.
pub open spec fn label_spec(s: Seq<char>) -> Option<(Seq<char>, Seq<char>)> {
    let t = skip_ws(s);
    if t.len() > 0 && t[0] == ':' {
        let u = skip_ws(t.drop_first());
        let n = run(u, CharClass::NotLineEnd) as int;
        if n > 0 {
            Some((trim_end(u.take(n)), u.skip(n)))
        } else {
            None
        }
    } else {
        None
    }
}

/// `Lhs ["card"] ARROW ["card"] Rhs [: label]`. A left-pointing arrow swaps the
/// two ends together with their cardinalities.
#[verifier::opaque]
pub open spec fn relation_spec(s: Seq<char>) -> Option<(RelationView, Seq<char>)> {
    match class_name_spec(s) {
        None => None,
        Some((lhs, r1)) => {
            let (lm, r2) = match quoted_spec(r1) {
                Some((q, r)) => (Some(q), r),
                None => (None, r1),
            };
            match arrow_spec(r2) {
                None => None,
                Some((kind, left, r3)) => {
                    let (rm, r4) = match quoted_spec(r3) {
                        Some((q, r)) => (Some(q), r),
                        None => (None, r3),
                    };
                    match class_name_spec(r4) {
                        None => None,
                        Some((rhs, r5)) => {
                            let (label, r6) = match label_spec(r5) {
                                Some((l, r)) => (Some(l), r),
                                None => (None, r5),
                            };
                            let rel = if left {
                                RelationView {
                                    tail: rhs,
                                    head: lhs,
                                    kind: kind,
                                    cardinality_tail: rm,
                                    cardinality_head: lm,
                                    label: label,
                                }
                            } else {
                                RelationView {
                                    tail: lhs,
                                    head: rhs,
                                    kind: kind,
                                    cardinality_tail: lm,
                                    cardinality_head: rm,
                                    label: label,
                                }
                            };
                            Some((rel, skip_ws(r6)))
                        },
                    }
                },
            }
        },
    }
}

fn quoted_at(v: &Vec<char>, i: usize) -> (r: Option<(String, usize)>)
    requires
        i <= v.len(),
    ensures
        scanned(v@, i as int, r, quoted_spec(v@.skip(i as int))),
{
    let t = skip_ws_at(v, i);
    if t < v.len() && v[t] == '"' {
        proof {
            lemma_skip_step(v@, t as int);
        }
        let e = scan(v, t + 1, CharClass::NotQuote);
        if e > t + 1 && e < v.len() {
            let q = substring(v, t + 1, e);
            let j = skip_ws_at(v, e + 1);
            proof {
                let u = v@.skip(t as int);
                assert(u.subrange(1, e - t) =~= v@.subrange(t + 1, e as int));
                lemma_skip_skip(v@, t as int, e - t + 1);
            }
            Some((q, j))
        } else {
            None
        }
    } else {
        proof {
            if t < v.len() {
                lemma_skip_step(v@, t as int);
            }
        }
        None
    }
}

fn arrow_entry(v: &Vec<char>, i: usize, kw: &Vec<char>) -> (r: Option<usize>)
    requires
        i <= v.len(),
    ensures
        match r {
            Some(j) => starts_with(v@.skip(i as int), kw@) && j == i + kw@.len() && j <= v.len()
                && v@.skip(j as int) == v@.skip(i as int).skip(kw@.len() as int),
            None => !starts_with(v@.skip(i as int), kw@),
        },
{
    if has_prefix(v, i, kw) {
        proof {
            lemma_skip_skip(v@, i as int, kw@.len() as int);
        }
        Some(i + kw.len())
    } else {
        None
    }
}

pub(crate) fn arrow_at(v: &Vec<char>, i: usize) -> (r: Option<(RelationKind, bool, usize)>)
    requires
        i <= v.len(),
    ensures
        match r {
            Some((k, left, j)) => i <= j <= v.len() && arrow_spec(v@.skip(i as int)) == Some(
                (k, left, v@.skip(j as int)),
            ),
            None => arrow_spec(v@.skip(i as int)).is_none(),
        },
{
    reveal(arrow_spec);
    if let Some(j) = arrow_entry(v, i, &vec!['<', '|', '-', '-']) {
        return Some((RelationKind::Inheritance, true, j));
    }
    if let Some(j) = arrow_entry(v, i, &vec!['-', '-', '|', '>']) {
        return Some((RelationKind::Inheritance, false, j));
    }
    if let Some(j) = arrow_entry(v, i, &vec!['*', '-', '-']) {
        return Some((RelationKind::Composition, true, j));
    }
    if let Some(j) = arrow_entry(v, i, &vec!['-', '-', '*']) {
        return Some((RelationKind::Composition, false, j));
    }
    if let Some(j) = arrow_entry(v, i, &vec!['o', '-', '-']) {
        return Some((RelationKind::Aggregation, true, j));
    }
    if let Some(j) = arrow_entry(v, i, &vec!['-', '-', 'o']) {
        return Some((RelationKind::Aggregation, false, j));
    }
    if let Some(j) = arrow_entry(v, i, &vec!['<', '-', '-']) {
        return Some((RelationKind::Association, true, j));
    }
    if let Some(j) = arrow_entry(v, i, &vec!['-', '-', '>']) {
        return Some((RelationKind::Association, false, j));
    }
    if let Some(j) = arrow_entry(v, i, &vec!['.', '.', '|', '>']) {
        return Some((RelationKind::Realization, false, j));
    }
    if let Some(j) = arrow_entry(v, i, &vec!['<', '.', '.']) {
        return Some((RelationKind::Dependency, true, j));
    }
    if let Some(j) = arrow_entry(v, i, &vec!['.', '.', '>']) {
        return Some((RelationKind::Dependency, false, j));
    }
    if let Some(j) = arrow_entry(v, i, &vec!['-', '-']) {
        return Some((RelationKind::SolidLink, false, j));
    }
    if let Some(j) = arrow_entry(v, i, &vec!['.', '.']) {
        return Some((RelationKind::DashLink, false, j));
    }
    None
}

/// End of the text from `a` to `b` without its trailing spaces and tabs.
fn trim_end_at(v: &Vec<char>, a: usize, b: usize) -> (e: usize)
    requires
        a <= b <= v.len(),
    ensures
        a <= e <= b,
        trim_end(v@.subrange(a as int, b as int)) == v@.subrange(a as int, e as int),
{
    let mut e = b;
    while e > a && (v[e - 1] == ' ' || v[e - 1] == '\t')
        invariant
            a <= e <= b <= v.len(),
            trim_end(v@.subrange(a as int, b as int)) == trim_end(v@.subrange(a as int, e as int)),
        decreases e,
    {
        proof {
            assert(v@.subrange(a as int, e as int).drop_last() =~= v@.subrange(a as int, e - 1));
        }
        e = e - 1;
    }
    e
}

fn label_at(v: &Vec<char>, i: usize) -> (r: Option<(String, usize)>)
    requires
        i <= v.len(),
    ensures
        scanned(v@, i as int, r, label_spec(v@.skip(i as int))),
{
    let t = skip_ws_at(v, i);
    if !(t < v.len() && v[t] == ':') {
        proof {
            if t < v.len() {
                lemma_skip_step(v@, t as int);
            }
        }
        return None;
    }
    proof {
        lemma_skip_step(v@, t as int);
    }
    let u = skip_ws_at(v, t + 1);
    let e = scan(v, u, CharClass::NotLineEnd);
    if e == u {
        return None;
    }
    let te = trim_end_at(v, u, e);
    let label = substring(v, u, te);
    proof {
        assert(v@.skip(u as int).take(e - u) =~= v@.subrange(u as int, e as int));
        lemma_skip_skip(v@, u as int, e - u);
    }
    Some((label, e))
}

pub(crate) fn relation_at(v: &Vec<char>, i: usize) -> (r: Option<(Relation, usize)>)
    requires
        i <= v.len(),
    ensures
        scanned(v@, i as int, r, relation_spec(v@.skip(i as int))),
{
    reveal(relation_spec);
    let (lhs, r1) = match class_name_at(v, i) {
        Some(x) => x,
        None => return None,
    };
    let (lm, r2) = match quoted_at(v, r1) {
        Some((q, r)) => (Some(q), r),
        None => (None, r1),
    };
    let (kind, left, r3) = match arrow_at(v, r2) {
        Some(x) => x,
        None => return None,
    };
    let (rm, r4) = match quoted_at(v, r3) {
        Some((q, r)) => (Some(q), r),
        None => (None, r3),
    };
    let (rhs, r5) = match class_name_at(v, r4) {
        Some(x) => x,
        None => return None,
    };
    let (label, r6) = match label_at(v, r5) {
        Some((l, r)) => (Some(l), r),
        None => (None, r5),
    };
    let j = skip_ws_at(v, r6);
    let rel = if left {
        Relation {
            tail: rhs,
            head: lhs,
            kind,
            cardinality_tail: rm,
            cardinality_head: lm,
            label,
        }
    } else {
        Relation {
            tail: lhs,
            head: rhs,
            kind,
            cardinality_tail: lm,
            cardinality_head: rm,
            label,
        }
    };
    Some((rel, j))
}

} // verus!
