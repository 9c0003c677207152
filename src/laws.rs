//! Laws that relate the recognizers and the renderer, with the lemmas on
//! scanning that they rest on.
use vstd::prelude::*;
use vstd::seq_lib::lemma_concat_associative;
use crate::member::{
    attribute_spec, is_visibility_glyph, member_prelude, member_spec, method_head, method_rest,
    method_spec, modifier,
    param_list, param_spec, param_tail, typed_name,
};
use crate::class::{class_stmt_spec, kw_class};
use crate::diagram::{StmtView, class_diagram_spec, comment_spec, preamble, stmt_spec};
use crate::header::split_header;
use crate::namespace::{
    direction_spec, kw_namespace, member_line_spec, namespace_stmt_spec, note_spec, quoted_text,
};
use crate::relation::{arrow_spec, label_spec, quoted_spec, relation_spec};
use crate::serializer::{
    arrow_text, cardinality_text, direction_code, direction_text, escaped, flag_text, kw_class_sp,
    diagram_text, relation_text, statements_text, is_bare, member_text, method_text,
    note_text, param_text, params_tail_text, params_text, return_after, return_before,
    typed_text, visibility_text,
};
use crate::text::{
    CharClass, class_name_spec, ident_cont, ident_start, in_class, is_ws, run, skip_sp, skip_ws,
    starts_with, token,
};
use crate::types::{
    AttributeView, ClassView, DiagramView, Direction, MemberView, MethodView, NoteView, ParameterView, RelationKind, RelationView, TypeNotation, Visibility, visibility_of,
};

verus! {

/// A class name that the renderer can write so that it reads back: non-empty, and
/// without backticks.
pub open spec fn valid_name(n: Seq<char>) -> bool {
    n.len() > 0 && forall|i: int| 0 <= i < n.len() ==> n[i] != '`'
}

/// A cardinality that reads back: non-empty, and without double quotes.
pub open spec fn valid_cardinality(c: Option<Seq<char>>) -> bool {
    match c {
        Some(t) => t.len() > 0 && forall|i: int| 0 <= i < t.len() ==> t[i] != '"',
        None => true,
    }
}

/// Text that a name may be followed by: nothing, or whitespace.
pub open spec fn after_name(rest: Seq<char>) -> bool {
    rest.len() == 0 || is_ws(rest[0])
}

proof fn lemma_run_zero(b: Seq<char>, k: CharClass)
    requires
        b.len() == 0 || !in_class(k, b[0]),
    ensures
        run(b, k) == 0,
{
}

proof fn lemma_run_all(a: Seq<char>, k: CharClass)
    requires
        forall|i: int| 0 <= i < a.len() ==> in_class(k, a[i]),
    ensures
        run(a, k) == a.len(),
    decreases a.len(),
{
    if a.len() > 0 {
        lemma_run_all(a.drop_first(), k);
    }
}

proof fn lemma_run_concat(a: Seq<char>, b: Seq<char>, k: CharClass)
    requires
        run(a, k) == a.len(),
    ensures
        run(a + b, k) == a.len() + run(b, k),
    decreases a.len(),
{
    if a.len() > 0 {
        assert((a + b).drop_first() =~= a.drop_first() + b);
        assert((a + b)[0] == a[0]);
        lemma_run_concat(a.drop_first(), b, k);
    } else {
        assert(a + b =~= b);
    }
}

proof fn lemma_skip_ws_nonws(x: Seq<char>)
    requires
        x.len() == 0 || !is_ws(x[0]),
    ensures
        skip_ws(x) == x,
{
    assert(x.skip(0) =~= x);
}

proof fn lemma_skip_ws_prefix(p: Seq<char>, x: Seq<char>)
    requires
        forall|i: int| 0 <= i < p.len() ==> is_ws(p[i]),
    ensures
        skip_ws(p + x) == skip_ws(x),
{
    lemma_run_all(p, CharClass::Ws);
    lemma_run_concat(p, x, CharClass::Ws);
    crate::text::lemma_run_bound(x, CharClass::Ws);
    assert((p + x).skip(p.len() + run(x, CharClass::Ws) as int) =~= x.skip(run(x, CharClass::Ws) as int));
}

/// Escaped names read back: a name without backticks, written by the renderer and
/// followed by nothing or by whitespace, reads back as itself, and the whitespace
/// after it is passed over. Names that are not bare identifiers are the ones that
/// get backticks.
pub proof fn law_escaped_name_round_trip(n: Seq<char>, rest: Seq<char>)
    requires
        valid_name(n),
        after_name(rest),
    ensures
        class_name_spec(escaped(n) + rest) == Some((n, skip_ws(rest))),
        escaped(n) == n <==> is_bare(n),
        !is_bare(n) ==> escaped(n) == seq!['`'] + n + seq!['`'],
{
    let t = escaped(n) + rest;
    if is_bare(n) {
        assert(t[0] == n[0]);
        lemma_skip_ws_nonws(t);
        assert(t.drop_first() =~= n.drop_first() + rest);
        lemma_run_concat(n.drop_first(), rest, CharClass::IdentCont);
        lemma_run_zero(rest, CharClass::IdentCont);
        assert(t.take(n.len() as int) =~= n);
        assert(t.skip(n.len() as int) =~= rest);
        assert(token(t) == Some((n, rest)));
    } else {
        assert(t[0] == '`');
        lemma_skip_ws_nonws(t);
        assert(t.drop_first() =~= n + (seq!['`'] + rest));
        lemma_run_all(n, CharClass::NotBacktick);
        lemma_run_concat(n, seq!['`'] + rest, CharClass::NotBacktick);
        lemma_run_zero(seq!['`'] + rest, CharClass::NotBacktick);
        assert(t.subrange(1, n.len() as int + 1) =~= n);
        assert(t.skip(n.len() as int + 2) =~= rest);
        assert(escaped(n).len() == n.len() + 2);
    }
}

/// Visibility glyphs: each of `+ - # ~` stands for its own visibility, distinct
/// visibilities render distinctly, every glyph rendered reads back as the visibility
/// it came from, and `Unspecified` renders as no glyph.
pub proof fn law_visibility_bijection(v: Visibility, w: Visibility)
    ensures
        visibility_of('+') == Visibility::Public,
        visibility_of('-') == Visibility::Private,
        visibility_of('#') == Visibility::Protected,
        visibility_of('~') == Visibility::Package,
        visibility_text(Visibility::Unspecified).len() == 0,
        v != Visibility::Unspecified ==> visibility_text(v).len() == 1 && is_visibility_glyph(
            visibility_text(v)[0],
        ) && visibility_of(visibility_text(v)[0]) == v,
        visibility_text(v) == visibility_text(w) ==> v == w,
{
    if visibility_text(v) == visibility_text(w) && v != w {
        if v != Visibility::Unspecified {
            assert(visibility_text(v).len() == 1);
            assert(visibility_text(w)[0] == visibility_text(v)[0]);
        } else {
            assert(visibility_text(w).len() == 0);
        }
    }
}

/// The left-pointing spelling of a kind's arrow, where it has one.
pub open spec fn left_arrow_text(k: RelationKind) -> Option<Seq<char>> {
    match k {
        RelationKind::Inheritance => Some(seq!['<', '|', '-', '-']),
        RelationKind::Composition => Some(seq!['*', '-', '-']),
        RelationKind::Aggregation => Some(seq!['o', '-', '-']),
        RelationKind::Association => Some(seq!['<', '-', '-']),
        RelationKind::Dependency => Some(seq!['<', '.', '.']),
        _ => None,
    }
}

/// `x ["cx"] ARROW ["cy"] y`, as the renderer writes a relation without a label.
pub open spec fn relation_line(
    x: Seq<char>,
    cx: Option<Seq<char>>,
    arrow: Seq<char>,
    cy: Option<Seq<char>>,
    y: Seq<char>,
) -> Seq<char> {
    escaped(x) + cardinality_text(cx) + seq![' '] + arrow + cardinality_text(cy) + seq![' '] + escaped(y)
}

proof fn lemma_prefix_chars(s: Seq<char>, p: Seq<char>)
    ensures
        starts_with(s, p) ==> forall|i: int| 0 <= i < p.len() ==> s[i] == p[i],
{
    if starts_with(s, p) {
        assert forall|i: int| 0 <= i < p.len() implies s[i] == p[i] by {
            assert(s.take(p.len() as int)[i] == s[i]);
        }
    }
}

proof fn lemma_prefix_of_concat(p: Seq<char>, r: Seq<char>)
    ensures
        starts_with(p + r, p),
        (p + r).skip(p.len() as int) == r,
{
    assert((p + r).take(p.len() as int) =~= p);
    assert((p + r).skip(p.len() as int) =~= r);
}

proof fn lemma_arrow_table(s: Seq<char>)
    ensures
        starts_with(s, seq!['<', '|', '-', '-']) ==> s[0] == '<' && s[1] == '|' && s[2] == '-' && s[3] == '-',
        starts_with(s, seq!['-', '-', '|', '>']) ==> s[0] == '-' && s[1] == '-' && s[2] == '|' && s[3] == '>',
        starts_with(s, seq!['*', '-', '-']) ==> s[0] == '*' && s[1] == '-' && s[2] == '-',
        starts_with(s, seq!['-', '-', '*']) ==> s[0] == '-' && s[1] == '-' && s[2] == '*',
        starts_with(s, seq!['o', '-', '-']) ==> s[0] == 'o' && s[1] == '-' && s[2] == '-',
        starts_with(s, seq!['-', '-', 'o']) ==> s[0] == '-' && s[1] == '-' && s[2] == 'o',
        starts_with(s, seq!['<', '-', '-']) ==> s[0] == '<' && s[1] == '-' && s[2] == '-',
        starts_with(s, seq!['-', '-', '>']) ==> s[0] == '-' && s[1] == '-' && s[2] == '>',
        starts_with(s, seq!['.', '.', '|', '>']) ==> s[0] == '.' && s[1] == '.' && s[2] == '|' && s[3] == '>',
        starts_with(s, seq!['<', '.', '.']) ==> s[0] == '<' && s[1] == '.' && s[2] == '.',
        starts_with(s, seq!['.', '.', '>']) ==> s[0] == '.' && s[1] == '.' && s[2] == '>',
        starts_with(s, seq!['-', '-']) ==> s[0] == '-' && s[1] == '-',
{
    lemma_prefix_chars(s, seq!['<', '|', '-', '-']);
    lemma_prefix_chars(s, seq!['-', '-', '|', '>']);
    lemma_prefix_chars(s, seq!['*', '-', '-']);
    lemma_prefix_chars(s, seq!['-', '-', '*']);
    lemma_prefix_chars(s, seq!['o', '-', '-']);
    lemma_prefix_chars(s, seq!['-', '-', 'o']);
    lemma_prefix_chars(s, seq!['<', '-', '-']);
    lemma_prefix_chars(s, seq!['-', '-', '>']);
    lemma_prefix_chars(s, seq!['.', '.', '|', '>']);
    lemma_prefix_chars(s, seq!['<', '.', '.']);
    lemma_prefix_chars(s, seq!['.', '.', '>']);
    lemma_prefix_chars(s, seq!['-', '-']);
}

/// Each arrow, followed by a space, reads back as its kind and direction.
pub proof fn law_arrow_round_trip(k: RelationKind, rest: Seq<char>)
    requires
        rest.len() > 0,
        rest[0] == ' ',
    ensures
        arrow_spec(arrow_text(k) + rest) == Some((k, false, rest)),
        left_arrow_text(k) is Some ==> arrow_spec(left_arrow_text(k)->0 + rest) == Some((k, true, rest)),
{
    reveal(arrow_spec);
    let s = arrow_text(k) + rest;
    lemma_arrow_table(s);
    lemma_prefix_of_concat(arrow_text(k), rest);
    assert(s[arrow_text(k).len() as int] == ' ');
    match left_arrow_text(k) {
        Some(l) => {
            let t = l + rest;
            lemma_arrow_table(t);
            lemma_prefix_of_concat(l, rest);
            assert(t[l.len() as int] == ' ');
        },
        None => {},
    }
}

proof fn lemma_quoted_readback(c: Seq<char>, rest: Seq<char>)
    requires
        valid_cardinality(Some(c)),
    ensures
        quoted_spec(seq!['"'] + c + seq!['"'] + rest) == Some((c, skip_ws(rest))),
{
    let t = seq!['"'] + c + seq!['"'] + rest;
    lemma_skip_ws_nonws(t);
    assert(t.drop_first() =~= c + (seq!['"'] + rest));
    lemma_run_all(c, CharClass::NotQuote);
    lemma_run_concat(c, seq!['"'] + rest, CharClass::NotQuote);
    lemma_run_zero(seq!['"'] + rest, CharClass::NotQuote);
    assert(t.subrange(1, c.len() as int + 1) =~= c);
    assert(t.skip(c.len() as int + 2) =~= rest);
}

/// Reading past an optional cardinality that is followed by a space and `after`,
/// whose first character is neither whitespace nor a double quote.
proof fn lemma_cardinality_readback(c: Option<Seq<char>>, after: Seq<char>)
    requires
        valid_cardinality(c),
        after.len() > 0,
        !is_ws(after[0]),
        after[0] != '"',
    ensures
        quoted_spec(skip_ws(cardinality_text(c) + seq![' '] + after)) == match c {
            Some(t) => Some((t, after)),
            None => None::<(Seq<char>, Seq<char>)>,
        },
        c is None ==> skip_ws(cardinality_text(c) + seq![' '] + after) == after,
{
    lemma_skip_ws_nonws(after);
    lemma_skip_ws_prefix(seq![' '], after);
    match c {
        Some(t) => {
            let u = seq!['"'] + t + seq!['"'] + (seq![' '] + after);
            assert(cardinality_text(c) + seq![' '] + after =~= seq![' '] + u);
            lemma_skip_ws_prefix(seq![' '], u);
            lemma_skip_ws_nonws(u);
            lemma_quoted_readback(t, seq![' '] + after);
        },
        None => {
            assert(cardinality_text(c) + seq![' '] + after =~= seq![' '] + after);
        },
    }
}

proof fn lemma_class_name_after_ws(p: Seq<char>, x: Seq<char>)
    requires
        forall|i: int| 0 <= i < p.len() ==> is_ws(p[i]),
    ensures
        class_name_spec(p + x) == class_name_spec(x),
{
    lemma_skip_ws_prefix(p, x);
}

proof fn lemma_escaped_start(n: Seq<char>)
    requires
        valid_name(n),
    ensures
        escaped(n).len() > 0,
        !is_ws(escaped(n)[0]),
        escaped(n)[0] != '"',
{
}

/// The label read after a relation's second name, if any.
pub open spec fn label_after(after: Seq<char>) -> Option<Seq<char>> {
    match label_spec(skip_ws(after)) {
        Some((l, _)) => Some(l),
        None => None,
    }
}

/// What a relation statement leaves after its second name and label.
pub open spec fn rest_after(after: Seq<char>) -> Seq<char> {
    match label_spec(skip_ws(after)) {
        Some((_, r)) => skip_ws(r),
        None => skip_ws(skip_ws(after)),
    }
}

/// A relation line reads back as the relation it stands for, given how its arrow reads.
#[verifier::rlimit(80)]
proof fn lemma_relation_line(
    x: Seq<char>,
    cx: Option<Seq<char>>,
    arrow: Seq<char>,
    cy: Option<Seq<char>>,
    y: Seq<char>,
    after: Seq<char>,
    k: RelationKind,
    left: bool,
)
    requires
        valid_name(x),
        valid_name(y),
        valid_cardinality(cx),
        valid_cardinality(cy),
        after_name(after),
        arrow.len() > 0,
        !is_ws(arrow[0]),
        arrow[0] != '"',
        arrow_spec(arrow + (cardinality_text(cy) + seq![' '] + (escaped(y) + after))) == Some(
            (k, left, cardinality_text(cy) + seq![' '] + (escaped(y) + after)),
        ),
    ensures
        relation_spec(relation_line(x, cx, arrow, cy, y) + after) == Some(
            (
                if left {
                    RelationView {
                        tail: y,
                        head: x,
                        kind: k,
                        cardinality_tail: cy,
                        cardinality_head: cx,
                        label: label_after(after),
                    }
                } else {
                    RelationView {
                        tail: x,
                        head: y,
                        kind: k,
                        cardinality_tail: cx,
                        cardinality_head: cy,
                        label: label_after(after),
                    }
                },
                rest_after(after),
            ),
        ),
{
    reveal(relation_spec);
    let named = escaped(y) + after;
    let tail_part = cardinality_text(cy) + seq![' '] + named;
    let after_arrow = arrow + tail_part;
    let r0 = cardinality_text(cx) + seq![' '] + after_arrow;
    let line = relation_line(x, cx, arrow, cy, y) + after;
    assert(line =~= escaped(x) + r0);
    assert(r0[0] == ' ');
    law_escaped_name_round_trip(x, r0);
    lemma_escaped_start(y);
    assert(named[0] == escaped(y)[0]);
    lemma_skip_ws_nonws(after_arrow);
    // after the left cardinality comes the arrow
    match cx {
        Some(t) => {
            let u = seq!['"'] + t + seq!['"'] + (seq![' '] + after_arrow);
            assert(r0 =~= seq![' '] + u);
            lemma_skip_ws_prefix(seq![' '], u);
            lemma_skip_ws_nonws(u);
            lemma_quoted_readback(t, seq![' '] + after_arrow);
            lemma_skip_ws_prefix(seq![' '], after_arrow);
        },
        None => {
            assert(r0 =~= seq![' '] + after_arrow);
            lemma_skip_ws_prefix(seq![' '], after_arrow);
        },
    }
    // after the arrow: the right cardinality, then the right name
    lemma_skip_ws_nonws(named);
    law_escaped_name_round_trip(y, after);
    match cy {
        Some(t) => {
            let u = seq!['"'] + t + seq!['"'] + (seq![' '] + named);
            assert(tail_part =~= seq![' '] + u);
            lemma_skip_ws_prefix(seq![' '], u);
            lemma_skip_ws_nonws(u);
            lemma_quoted_readback(t, seq![' '] + named);
            lemma_skip_ws_prefix(seq![' '], named);
        },
        None => {
            assert(tail_part =~= seq![' '] + named);
            lemma_class_name_after_ws(seq![' '], named);
            lemma_skip_ws_prefix(seq![' '], named);
        },
    }
}

/// Relation normalization: `a ["ca"] R ["cb"] b` and `b ["cb"] L ["ca"] a`, where `L`
/// is the left-pointing spelling of the right-pointing arrow `R`, read as one and the
/// same relation: tail `a`, head `b`, the kind of the arrow, and each cardinality on
/// the end it was written beside.
pub proof fn law_relation_normalization(
    a: Seq<char>,
    b: Seq<char>,
    ca: Option<Seq<char>>,
    cb: Option<Seq<char>>,
    k: RelationKind,
)
    requires
        valid_name(a),
        valid_name(b),
        valid_cardinality(ca),
        valid_cardinality(cb),
        left_arrow_text(k) is Some,
    ensures
        relation_spec(relation_line(a, ca, arrow_text(k), cb, b)) == relation_spec(
            relation_line(b, cb, left_arrow_text(k)->0, ca, a),
        ),
        relation_spec(relation_line(a, ca, arrow_text(k), cb, b)) == Some(
            (
                RelationView {
                    tail: a,
                    head: b,
                    kind: k,
                    cardinality_tail: ca,
                    cardinality_head: cb,
                    label: None,
                },
                Seq::<char>::empty(),
            ),
        ),
{
    let l = left_arrow_text(k)->0;
    let rest_r = cardinality_text(cb) + seq![' '] + (escaped(b) + Seq::empty());
    let rest_l = cardinality_text(ca) + seq![' '] + (escaped(a) + Seq::empty());
    assert(rest_r[0] == ' ');
    assert(rest_l[0] == ' ');
    law_arrow_round_trip(k, rest_r);
    law_arrow_round_trip(k, rest_l);
    lemma_relation_line(a, ca, arrow_text(k), cb, b, Seq::empty(), k, false);
    lemma_relation_line(b, cb, l, ca, a, Seq::empty(), k, true);
    assert(relation_line(a, ca, arrow_text(k), cb, b) + Seq::<char>::empty() =~= relation_line(a, ca, arrow_text(k), cb, b));
    assert(relation_line(b, cb, l, ca, a) + Seq::<char>::empty() =~= relation_line(b, cb, l, ca, a));
    assert(label_spec(skip_ws(Seq::<char>::empty())).is_none()) by {
        lemma_skip_ws_nonws(Seq::<char>::empty());
    }
    lemma_skip_ws_nonws(Seq::<char>::empty());
}

/// A name with its type that reads back with the same notation: names and types are
/// bare identifiers, and a notation is recorded exactly when a type is.
pub open spec fn valid_typed(name: Seq<char>, ty: Option<Seq<char>>, nt: TypeNotation) -> bool {
    is_bare(name) && match ty {
        Some(t) => is_bare(t) && nt != TypeNotation::Omitted,
        None => nt == TypeNotation::Omitted,
    }
}

pub open spec fn valid_param(p: ParameterView) -> bool {
    valid_typed(p.name, p.data_type, p.type_notation)
}

/// A member as the recognizer produces it.
pub open spec fn valid_member(m: MemberView) -> bool {
    match m {
        MemberView::Attribute(a) => valid_typed(a.name, a.data_type, a.type_notation),
        MemberView::Method(x) => is_bare(x.name) && (forall|i: int| 0 <= i < x.parameters.len() ==> valid_param(#[trigger] x.parameters[i]))
            && match x.return_type {
            Some(t) => is_bare(t) && x.return_type_notation != TypeNotation::Omitted,
            None => x.return_type_notation == TypeNotation::Omitted,
        },
    }
}

/// What may follow a name with its type: nothing, a line end, `,` or `)`.
pub open spec fn typed_end(rest: Seq<char>) -> bool {
    rest.len() == 0 || rest[0] == '\n' || rest[0] == ')' || rest[0] == ','
}

proof fn lemma_skip_none(x: Seq<char>, k: CharClass)
    requires
        x.len() == 0 || !in_class(k, x[0]),
    ensures
        x.skip(run(x, k) as int) == x,
{
    assert(x.skip(0) =~= x);
}

proof fn lemma_run_one(c: char, x: Seq<char>, k: CharClass)
    requires
        in_class(k, c),
        x.len() == 0 || !in_class(k, x[0]),
    ensures
        run(seq![c] + x, k) == 1,
{
    assert((seq![c] + x).drop_first() =~= x);
    assert((seq![c] + x)[0] == c);
    lemma_run_zero(x, k);
}

proof fn lemma_skip_one(c: char, x: Seq<char>, k: CharClass)
    requires
        in_class(k, c),
        x.len() == 0 || !in_class(k, x[0]),
    ensures
        (seq![c] + x).skip(run(seq![c] + x, k) as int) == x,
{
    assert((seq![c] + x).drop_first() =~= x);
    assert((seq![c] + x)[0] == c);
    lemma_run_zero(x, k);
    assert(run(seq![c] + x, k) == 1);
    assert((seq![c] + x).skip(1) =~= x);
}

proof fn lemma_token_readback(n: Seq<char>, rest: Seq<char>)
    requires
        is_bare(n),
        rest.len() == 0 || !ident_cont(rest[0]),
    ensures
        token(n + rest) == Some((n, rest)),
{
    let t = n + rest;
    assert(t[0] == n[0]);
    assert(t.drop_first() =~= n.drop_first() + rest);
    lemma_run_concat(n.drop_first(), rest, CharClass::IdentCont);
    lemma_run_zero(rest, CharClass::IdentCont);
    assert(t.take(n.len() as int) =~= n);
    assert(t.skip(n.len() as int) =~= rest);
}

proof fn lemma_typed_readback(name: Seq<char>, ty: Option<Seq<char>>, nt: TypeNotation, rest: Seq<char>)
    requires
        valid_typed(name, ty, nt),
        typed_end(rest),
    ensures
        typed_name(typed_text(name, ty, nt) + rest) == Some((name, ty, nt, rest)),
{
    reveal(typed_name);
    match ty {
        Some(t) => {
            if nt == TypeNotation::Prefix {
                let after = seq![' '] + name + rest;
                assert(typed_text(name, ty, nt) + rest =~= t + after);
                lemma_token_readback(t, after);
                assert(seq![' '] + (name + rest) =~= after);
                lemma_skip_one(' ', name + rest, CharClass::Sp);
                assert((name + rest)[0] == name[0]);
                lemma_token_readback(name, rest);
            } else {
                let after = seq![':', ' '] + t + rest;
                assert(typed_text(name, ty, nt) + rest =~= name + after);
                lemma_token_readback(name, after);
                lemma_skip_none(after, CharClass::Sp);
                assert(after.drop_first() =~= seq![' '] + (t + rest));
                lemma_skip_one(' ', t + rest, CharClass::Sp);
                assert((t + rest)[0] == t[0]);
                lemma_token_readback(t, rest);
            }
        },
        None => {
            assert(typed_text(name, ty, nt) + rest =~= name + rest);
            lemma_token_readback(name, rest);
            lemma_skip_none(rest, CharClass::Sp);
        },
    }
}

proof fn lemma_param_tail_readback(qs: Seq<ParameterView>, acc: Seq<ParameterView>, rest: Seq<char>)
    requires
        forall|i: int| 0 <= i < qs.len() ==> valid_param(#[trigger] qs[i]),
        rest.len() > 0,
        rest[0] == ')',
    ensures
        param_tail(params_tail_text(qs) + rest, acc) == (acc + qs, rest),
    decreases qs.len(),
{
    if qs.len() == 0 {
        assert(params_tail_text(qs) + rest =~= rest);
        lemma_skip_none(rest, CharClass::Sp);
        assert(acc + qs =~= acc);
    } else {
        let q = qs[0];
        let more = params_tail_text(qs.drop_first()) + rest;
        let s = params_tail_text(qs) + rest;
        assert(s =~= seq![','] + (seq![' '] + (param_text(q) + more)));
        lemma_skip_none(s, CharClass::Sp);
        assert(s.drop_first() =~= seq![' '] + (param_text(q) + more));
        assert(valid_param(q));
        assert((param_text(q) + more)[0] == param_text(q)[0]) by {
            assert(param_text(q).len() > 0);
        }
        lemma_skip_one(' ', param_text(q) + more, CharClass::Sp);
        lemma_skip_none(param_text(q) + more, CharClass::Sp);
        if qs.drop_first().len() > 0 {
            assert(more[0] == ',');
        } else {
            assert(more =~= rest);
        }
        lemma_typed_readback(q.name, q.data_type, q.type_notation, more);
        assert(param_spec(param_text(q) + more) == Some((q, more)));
        lemma_param_tail_readback(qs.drop_first(), acc.push(q), rest);
        assert(acc.push(q) + qs.drop_first() =~= acc + qs);
    }
}

proof fn lemma_typed_text_start(name: Seq<char>, ty: Option<Seq<char>>, nt: TypeNotation)
    requires
        valid_typed(name, ty, nt),
    ensures
        typed_text(name, ty, nt).len() > 0,
        ident_start(typed_text(name, ty, nt)[0]),
{
}

proof fn lemma_param_list_readback(ps: Seq<ParameterView>, rest: Seq<char>)
    requires
        forall|i: int| 0 <= i < ps.len() ==> valid_param(#[trigger] ps[i]),
        rest.len() > 0,
        rest[0] == ')',
    ensures
        param_list(params_text(ps) + rest) == (ps, rest),
{
    if ps.len() == 0 {
        reveal(typed_name);
        assert(params_text(ps) + rest =~= rest);
        lemma_skip_none(rest, CharClass::Sp);
        assert(ps =~= Seq::<ParameterView>::empty());
    } else {
        let q = ps[0];
        assert(valid_param(q));
        let more = params_tail_text(ps.drop_first()) + rest;
        assert(params_text(ps) + rest =~= param_text(q) + more);
        lemma_typed_text_start(q.name, q.data_type, q.type_notation);
        lemma_skip_none(param_text(q) + more, CharClass::Sp);
        if ps.drop_first().len() > 0 {
            assert(more[0] == ',');
        } else {
            assert(more =~= rest);
        }
        lemma_typed_readback(q.name, q.data_type, q.type_notation, more);
        assert forall|i: int| 0 <= i < ps.drop_first().len() implies valid_param(#[trigger] ps.drop_first()[i]) by {
            assert(ps.drop_first()[i] == ps[i + 1]);
        }
        lemma_param_tail_readback(ps.drop_first(), seq![q], rest);
        assert(seq![q] + ps.drop_first() =~= ps);
    }
}

/// What may follow a member: nothing, or a line end.
pub open spec fn member_end(rest: Seq<char>) -> bool {
    rest.len() == 0 || rest[0] == '\n'
}

proof fn lemma_prelude_readback(v: Visibility, st: bool, body: Seq<char>)
    requires
        body.len() > 0,
        !is_ws(body[0]),
        body[0] != '$',
        !is_visibility_glyph(body[0]),
    ensures
        member_prelude(visibility_text(v) + flag_text(st, '$') + body) == (v, st, body),
{
    reveal(member_prelude);
    let t1 = flag_text(st, '$') + body;
    let s0 = visibility_text(v) + t1;
    assert(visibility_text(v) + flag_text(st, '$') + body =~= s0);
    assert(t1.len() > 0);
    if st {
        assert(t1[0] == '$');
        assert(t1.drop_first() =~= body);
    } else {
        assert(t1 =~= body);
    }
    lemma_skip_none(t1, CharClass::Ws);
    lemma_skip_none(t1, CharClass::Sp);
    lemma_skip_none(body, CharClass::Sp);
    if v != Visibility::Unspecified {
        assert(s0[0] == visibility_text(v)[0]);
        assert(s0.drop_first() =~= t1);
    } else {
        assert(s0 =~= t1);
    }
    lemma_skip_none(s0, CharClass::Ws);
}

proof fn lemma_method_head_readback(m: MethodView, r5: Seq<char>)
    requires
        valid_member(MemberView::Method(m)),
    ensures
        method_head(return_before(m) + (m.name + (seq!['('] + r5))) == Some(
            (
                if m.return_type_notation == TypeNotation::Prefix {
                    m.return_type
                } else {
                    None
                },
                m.name,
                r5,
            ),
        ),
{
    reveal(method_head);
    let open = m.name + (seq!['('] + r5);
    let body2 = return_before(m) + open;
    lemma_token_readback(m.name, seq!['('] + r5);
    lemma_skip_none(seq!['('] + r5, CharClass::Sp);
    assert((seq!['('] + r5).drop_first() =~= r5);
    match (m.return_type_notation, m.return_type) {
        (TypeNotation::Prefix, Some(t)) => {
            assert(body2 =~= t + (seq![' '] + open));
            lemma_token_readback(t, seq![' '] + open);
            assert(open[0] == m.name[0]);
            lemma_skip_one(' ', open, CharClass::Sp);
        },
        _ => {
            assert(body2 =~= open);
        },
    }
}

proof fn lemma_method_rest_readback(m: MethodView, rest: Seq<char>)
    requires
        valid_member(MemberView::Method(m)),
        member_end(rest),
    ensures
        method_rest(
            m.visibility,
            m.is_static,
            m.is_abstract,
            if m.return_type_notation == TypeNotation::Prefix {
                m.return_type
            } else {
                None
            },
            m.name,
            params_text(m.parameters) + (seq![')'] + (return_after(m) + rest)),
        ) == Some((m, rest)),
{
    reveal(method_rest);
    let ps = m.parameters;
    let after_rest = return_after(m) + rest;
    let close = seq![')'] + after_rest;
    let r5 = params_text(ps) + close;
    assert forall|i: int| 0 <= i < ps.len() implies valid_param(#[trigger] ps[i]) by {}
    lemma_param_list_readback(ps, close);
    if ps.len() > 0 {
        lemma_typed_text_start(ps[0].name, ps[0].data_type, ps[0].type_notation);
        assert(r5[0] == params_text(ps)[0]);
    } else {
        assert(r5 =~= close);
    }
    lemma_skip_none(r5, CharClass::Sp);
    lemma_skip_none(close, CharClass::Sp);
    assert(close.drop_first() =~= after_rest);
    lemma_skip_none(rest, CharClass::Sp);
    match (m.return_type_notation, m.return_type) {
        (TypeNotation::Prefix, _) => {
            assert(after_rest =~= rest);
        },
        (_, Some(t)) => {
            assert(after_rest =~= seq![' '] + (t + rest));
            assert((t + rest)[0] == t[0]);
            lemma_skip_one(' ', t + rest, CharClass::Sp);
            lemma_token_readback(t, rest);
        },
        _ => {
            assert(after_rest =~= rest);
        },
    }
}

proof fn lemma_method_text_shape(m: MethodView, rest: Seq<char>)
    ensures
        method_text(m) + rest == visibility_text(m.visibility) + flag_text(m.is_static, '$') + (
        flag_text(m.is_abstract, '*') + (return_before(m) + (m.name + (seq!['('] + (params_text(
            m.parameters,
        ) + (seq![')'] + (return_after(m) + rest))))))),
{
    let a0 = visibility_text(m.visibility) + flag_text(m.is_static, '$');
    let a1 = a0 + flag_text(m.is_abstract, '*');
    let a2 = a1 + return_before(m);
    let a3 = a2 + m.name;
    let a4 = a3 + seq!['('];
    let a5 = a4 + params_text(m.parameters);
    let a6 = a5 + seq![')'];
    let t6 = return_after(m) + rest;
    let t5 = seq![')'] + t6;
    let t4 = params_text(m.parameters) + t5;
    let t3 = seq!['('] + t4;
    let t2 = m.name + t3;
    let t1 = return_before(m) + t2;
    lemma_concat_associative(a6, return_after(m), rest);
    lemma_concat_associative(a5, seq![')'], t6);
    lemma_concat_associative(a4, params_text(m.parameters), t5);
    lemma_concat_associative(a3, seq!['('], t4);
    lemma_concat_associative(a2, m.name, t3);
    lemma_concat_associative(a1, return_before(m), t2);
    lemma_concat_associative(a0, flag_text(m.is_abstract, '*'), t1);
}

proof fn lemma_method_body_start(m: MethodView, body2: Seq<char>, body: Seq<char>, open: Seq<char>)
    requires
        valid_member(MemberView::Method(m)),
        open.len() > 0,
        open[0] == m.name[0],
        body2 == return_before(m) + open,
        body == flag_text(m.is_abstract, '*') + body2,
    ensures
        body2.len() > 0,
        ident_start(body2[0]),
        body.len() > 0,
        body[0] != '$',
        !is_ws(body[0]),
        !is_visibility_glyph(body[0]),
        skip_sp(body) == body,
        skip_sp(body2) == body2,
        modifier(body, '*') == (m.is_abstract, body2),
{
    match (m.return_type_notation, m.return_type) {
        (TypeNotation::Prefix, Some(t)) => {
            assert(body2[0] == t[0]);
        },
        _ => {
            assert(body2 =~= open);
        },
    }
    if m.is_abstract {
        assert(body[0] == '*');
        assert(body.drop_first() =~= body2);
    } else {
        assert(body =~= body2);
    }
    lemma_skip_none(body, CharClass::Sp);
    lemma_skip_none(body2, CharClass::Sp);
}

proof fn lemma_method_readback(m: MethodView, rest: Seq<char>)
    requires
        valid_member(MemberView::Method(m)),
        member_end(rest),
    ensures
        method_spec(method_text(m) + rest) == Some((m, rest)),
{
    let r5 = params_text(m.parameters) + (seq![')'] + (return_after(m) + rest));
    let open = m.name + (seq!['('] + r5);
    let body2 = return_before(m) + open;
    let body = flag_text(m.is_abstract, '*') + body2;
    lemma_method_text_shape(m, rest);
    lemma_method_body_start(m, body2, body, open);
    lemma_prelude_readback(m.visibility, m.is_static, body);
    lemma_method_head_readback(m, r5);
    lemma_method_rest_readback(m, rest);
}

#[verifier::rlimit(80)]
proof fn lemma_attribute_readback(a: AttributeView, rest: Seq<char>)
    requires
        valid_member(MemberView::Attribute(a)),
        member_end(rest),
    ensures
        method_spec(member_text(MemberView::Attribute(a)) + rest).is_none(),
        attribute_spec(member_text(MemberView::Attribute(a)) + rest) == Some((a, rest)),
{
    reveal(method_head);
    let body = typed_text(a.name, a.data_type, a.type_notation) + rest;
    assert(member_text(MemberView::Attribute(a)) + rest =~= visibility_text(a.visibility) + flag_text(
        a.is_static,
        '$',
    ) + body);
    lemma_typed_text_start(a.name, a.data_type, a.type_notation);
    assert(body[0] == typed_text(a.name, a.data_type, a.type_notation)[0]);
    lemma_prelude_readback(a.visibility, a.is_static, body);
    lemma_skip_none(body, CharClass::Sp);
    lemma_typed_readback(a.name, a.data_type, a.type_notation, rest);
    lemma_skip_none(rest, CharClass::Sp);
    match a.data_type {
        Some(t) => {
            if a.type_notation == TypeNotation::Prefix {
                let after = seq![' '] + (a.name + rest);
                assert(body =~= t + after);
                lemma_token_readback(t, after);
                assert((a.name + rest)[0] == a.name[0]);
                lemma_skip_one(' ', a.name + rest, CharClass::Sp);
                lemma_token_readback(a.name, rest);
            } else {
                let after = seq![':', ' '] + t + rest;
                assert(body =~= a.name + after);
                lemma_token_readback(a.name, after);
                lemma_skip_none(after, CharClass::Sp);
            }
        },
        None => {
            assert(body =~= a.name + rest);
            lemma_token_readback(a.name, rest);
        },
    }
}

/// Notation fidelity: a member as the recognizer produces it, rendered and read back,
/// is the same member: each type comes back in the notation it was written in
/// (prefix, postfix or none), for attributes, parameters and return types alike.
pub proof fn law_member_round_trip(m: MemberView, rest: Seq<char>)
    requires
        valid_member(m),
        member_end(rest),
    ensures
        member_spec(member_text(m) + rest) == Some((m, rest)),
{
    match m {
        MemberView::Attribute(a) => lemma_attribute_readback(a, rest),
        MemberView::Method(x) => lemma_method_readback(x, rest),
    }
}

/// A note that reads back: its text holds no double quote, and its target, if any,
/// is a name the renderer can write.
pub open spec fn valid_note(n: NoteView) -> bool {
    (forall|i: int| 0 <= i < n.text.len() ==> n.text[i] != '"') && match n.target_class {
        Some(t) => valid_name(t),
        None => true,
    }
}

proof fn lemma_quoted_text_readback(text: Seq<char>, rest: Seq<char>)
    requires
        forall|i: int| 0 <= i < text.len() ==> text[i] != '"',
    ensures
        quoted_text(seq!['"'] + text + seq!['"'] + rest) == Some((text, rest)),
{
    let t = seq!['"'] + text + seq!['"'] + rest;
    assert(t.drop_first() =~= text + (seq!['"'] + rest));
    lemma_run_all(text, CharClass::NotQuote);
    lemma_run_concat(text, seq!['"'] + rest, CharClass::NotQuote);
    lemma_run_zero(seq!['"'] + rest, CharClass::NotQuote);
    assert(t.subrange(1, text.len() as int + 1) =~= text);
    assert(t.skip(text.len() as int + 2) =~= rest);
}

/// A note line, as rendered, reads back as the note; what follows is its line end.
#[verifier::rlimit(60)]
pub proof fn law_note_line_round_trip(n: NoteView, rest: Seq<char>)
    requires
        valid_note(n),
    ensures
        note_spec(note_text(n) + rest) == Some((n, seq!['\n'] + rest)),
{
    let s = note_text(n) + rest;
    let quoted = seq!['"'] + n.text + seq!['"'] + (seq!['\n'] + rest);
    lemma_skip_none(s, CharClass::Ws);
    lemma_prefix_of_concat(seq!['n', 'o', 't', 'e'], s.skip(4));
    assert(s.take(4) =~= seq!['n', 'o', 't', 'e']);
    lemma_quoted_text_readback(n.text, seq!['\n'] + rest);
    match n.target_class {
        Some(t) => {
            let named = escaped(t) + (seq![' '] + quoted);
            assert(s =~= seq!['n', 'o', 't', 'e', ' ', 'f', 'o', 'r', ' '] + named);
            assert(s.skip(4) =~= seq![' '] + (seq!['f', 'o', 'r', ' '] + named));
            lemma_run_one(' ', seq!['f', 'o', 'r', ' '] + named, CharClass::Sp);
            let w = s.skip(5);
            assert(w =~= seq!['f', 'o', 'r', ' '] + named);
            assert(w.take(3) =~= seq!['f', 'o', 'r']);
            assert(w.skip(3) =~= seq![' '] + named);
            lemma_escaped_start(t);
            lemma_run_one(' ', named, CharClass::Sp);
            assert(w.skip(4) =~= named);
            law_escaped_name_round_trip(t, seq![' '] + quoted);
            lemma_skip_one(' ', quoted, CharClass::Ws);
            lemma_skip_none(quoted, CharClass::Sp);
        },
        None => {
            assert(s =~= seq!['n', 'o', 't', 'e', ' '] + quoted);
            assert(s.skip(4) =~= seq![' '] + quoted);
            lemma_run_one(' ', quoted, CharClass::Sp);
            assert(s.skip(5) =~= quoted);
            assert(quoted.take(3) != seq!['f', 'o', 'r']) by {
                assert(quoted.take(3)[0] == '"');
            }
        },
    }
}

/// A direction line, as rendered, reads back as the direction.
pub proof fn law_direction_line_round_trip(d: Direction, rest: Seq<char>)
    ensures
        direction_spec(direction_text(d) + rest) == Some((d, skip_ws(seq!['\n'] + rest))),
{
    let s = direction_text(d) + rest;
    let kw = seq!['d', 'i', 'r', 'e', 'c', 't', 'i', 'o', 'n'];
    let w = direction_code(d) + (seq!['\n'] + rest);
    assert(s =~= kw + (seq![' '] + w));
    lemma_skip_none(s, CharClass::Ws);
    assert(s.take(9) =~= kw);
    assert(s.skip(9) =~= seq![' '] + w);
    assert(w.len() > 0 && !crate::text::is_sp(w[0]));
    lemma_run_one(' ', w, CharClass::Sp);
    assert(s.skip(10) =~= w);
    lemma_prefix_chars(w, seq!['T', 'B']);
    lemma_prefix_chars(w, seq!['T', 'D']);
    lemma_prefix_chars(w, seq!['B', 'T']);
    lemma_prefix_chars(w, seq!['L', 'R']);
    lemma_prefix_chars(w, seq!['R', 'L']);
    lemma_prefix_of_concat(direction_code(d), seq!['\n'] + rest);
}

/// A member line `Name : member`, as rendered, reads back as the same class name and
/// member; what follows is its line end.
#[verifier::rlimit(60)]
pub proof fn law_member_line_round_trip(name: Seq<char>, m: MemberView, rest: Seq<char>)
    requires
        valid_name(name),
        valid_member(m),
    ensures
        member_line_spec(escaped(name) + seq![' ', ':', ' '] + member_text(m) + seq!['\n'] + rest)
            == Some((name, m, seq!['\n'] + rest)),
{
    let tail = seq!['\n'] + rest;
    let mt = member_text(m) + tail;
    let after = seq![' ', ':', ' '] + mt;
    assert(escaped(name) + seq![' ', ':', ' '] + member_text(m) + seq!['\n'] + rest =~= escaped(name) + after);
    law_escaped_name_round_trip(name, after);
    lemma_skip_one(' ', seq![':', ' '] + mt, CharClass::Ws);
    assert(after =~= seq![' '] + (seq![':', ' '] + mt));
    lemma_skip_none(seq![':', ' '] + mt, CharClass::Sp);
    assert((seq![':', ' '] + mt).drop_first() =~= seq![' '] + mt);
    assert(mt.len() > 0 && !crate::text::is_sp(mt[0])) by {
        match m {
            MemberView::Attribute(a) => {
                lemma_typed_text_start(a.name, a.data_type, a.type_notation);
                assert(member_text(m).len() > 0);
            },
            MemberView::Method(x) => {
                assert(member_text(m).len() > 0);
            },
        }
        assert(mt[0] == member_text(m)[0]);
    }
    lemma_skip_one(' ', mt, CharClass::Sp);
    law_member_round_trip(m, tail);
}

proof fn lemma_run_stops(x: Seq<char>, k: CharClass)
    ensures
        run(x, k) < x.len() ==> !in_class(k, x[run(x, k) as int]),
    decreases x.len(),
{
    if x.len() > 0 && in_class(k, x[0]) {
        lemma_run_stops(x.drop_first(), k);
    }
}

proof fn lemma_skip_ws_idempotent(x: Seq<char>)
    ensures
        skip_ws(skip_ws(x)) == skip_ws(x),
{
    lemma_run_stops(x, CharClass::Ws);
    crate::text::lemma_run_bound(x, CharClass::Ws);
    lemma_skip_none(skip_ws(x), CharClass::Ws);
}

/// A class declaration line, as rendered, reads back as a class of that name with
/// no members, provided that what follows does not open a brace-delimited body.
#[verifier::rlimit(60)]
pub proof fn law_class_line_round_trip(name: Seq<char>, rest: Seq<char>)
    requires
        valid_name(name),
        skip_ws(rest).len() == 0 || skip_ws(rest)[0] != '{',
    ensures
        class_stmt_spec(kw_class_sp() + escaped(name) + seq!['\n'] + rest) == Some(
            (ClassView { name: name, annotations: Seq::empty(), members: Seq::empty() }, skip_ws(rest)),
        ),
{
    let after = seq!['\n'] + rest;
    let named = escaped(name) + after;
    let s = kw_class_sp() + escaped(name) + seq!['\n'] + rest;
    assert(s =~= seq!['c', 'l', 'a', 's', 's'] + (seq![' '] + named));
    lemma_skip_none(s, CharClass::Ws);
    assert(s.take(5) =~= seq!['c', 'l', 'a', 's', 's']);
    assert(s.skip(5) =~= seq![' '] + named);
    lemma_escaped_start(name);
    assert(named[0] == escaped(name)[0]);
    lemma_run_one(' ', named, CharClass::Sp);
    assert(s.skip(5).skip(1) =~= named);
    law_escaped_name_round_trip(name, after);
    lemma_skip_ws_prefix(seq!['\n'], rest);
    lemma_skip_ws_idempotent(rest);
}

/// A label that reads back as itself: non-empty, on one line, with no whitespace at
/// its start and no space or tab at its end.
pub open spec fn valid_label(l: Option<Seq<char>>) -> bool {
    match l {
        Some(t) => t.len() > 0 && !is_ws(t[0]) && !crate::text::is_sp(t.last()) && forall|i: int|
            0 <= i < t.len() ==> t[i] != '\n' && t[i] != '\r',
        None => true,
    }
}

/// A relation that reads back as itself.
pub open spec fn valid_relation(r: RelationView) -> bool {
    valid_name(r.tail) && valid_name(r.head) && valid_cardinality(r.cardinality_tail)
        && valid_cardinality(r.cardinality_head) && valid_label(r.label)
}

proof fn lemma_label_readback(l: Seq<char>, rest: Seq<char>)
    requires
        valid_label(Some(l)),
    ensures
        label_spec(skip_ws(seq![' ', ':', ' '] + l + seq!['\n'] + rest)) == Some((l, seq!['\n'] + rest)),
{
    let tail = seq!['\n'] + rest;
    let u = l + tail;
    let s = seq![' ', ':', ' '] + l + seq!['\n'] + rest;
    let c = seq![':', ' '] + u;
    assert(s =~= seq![' '] + c);
    lemma_skip_ws_prefix(seq![' '], c);
    lemma_skip_ws_nonws(c);
    assert(c.drop_first() =~= seq![' '] + u);
    lemma_skip_ws_prefix(seq![' '], u);
    assert(u[0] == l[0]);
    lemma_skip_ws_nonws(u);
    lemma_run_all(l, CharClass::NotLineEnd);
    lemma_run_concat(l, tail, CharClass::NotLineEnd);
    lemma_run_zero(tail, CharClass::NotLineEnd);
    assert(u.take(l.len() as int) =~= l);
    assert(u.skip(l.len() as int) =~= tail);
}

/// A relation line, as rendered (arrow always right-pointing, label after ` : `),
/// reads back as the same relation, provided that what follows does not begin, after
/// whitespace, with a `:` that would read as a label.
#[verifier::rlimit(80)]
pub proof fn law_relation_line_round_trip(r: RelationView, rest: Seq<char>)
    requires
        valid_relation(r),
        skip_ws(rest).len() == 0 || skip_ws(rest)[0] != ':',
    ensures
        relation_spec(relation_text(r) + rest) == Some((r, skip_ws(rest))),
{
    let label_part = match r.label {
        Some(l) => seq![' ', ':', ' '] + l,
        None => Seq::empty(),
    };
    let after = label_part + seq!['\n'] + rest;
    let line = relation_line(r.tail, r.cardinality_tail, arrow_text(r.kind), r.cardinality_head, r.head);
    assert(relation_text(r) + rest =~= line + after);
    assert(after_name(after));
    let tail_part = cardinality_text(r.cardinality_head) + seq![' '] + (escaped(r.head) + after);
    assert(tail_part[0] == ' ');
    law_arrow_round_trip(r.kind, tail_part);
    lemma_relation_line(
        r.tail,
        r.cardinality_tail,
        arrow_text(r.kind),
        r.cardinality_head,
        r.head,
        after,
        r.kind,
        false,
    );
    lemma_skip_ws_prefix(seq!['\n'], rest);
    match r.label {
        Some(l) => {
            lemma_label_readback(l, rest);
            assert(after =~= seq![' ', ':', ' '] + l + seq!['\n'] + rest);
            assert(l.take(l.len() as int) =~= l);
        },
        None => {
            assert(after =~= seq!['\n'] + rest);
            lemma_skip_ws_idempotent(rest);
        },
    }
}

/// A rendered diagram without a header opens as a class diagram: no header is split
/// off, no comment lines are passed over, and the `classDiagram` line is read, after
/// which its statements follow.
pub proof fn law_rendered_document_opens(d: DiagramView)
    ensures
        split_header(diagram_text(None, d)) == (None::<Seq<char>>, diagram_text(None, d)),
        preamble(diagram_text(None, d)) == diagram_text(None, d),
        class_diagram_spec(diagram_text(None, d)) == Some(skip_ws(statements_text(d))),
{
    reveal(split_header);
    reveal(preamble);
    reveal(comment_spec);
    reveal(class_diagram_spec);
    let t = diagram_text(None, d);
    let kw = seq!['c', 'l', 'a', 's', 's', 'D', 'i', 'a', 'g', 'r', 'a', 'm'];
    assert(t =~= kw + (seq!['\n'] + statements_text(d)));
    assert(t[0] == 'c');
    lemma_skip_none(t, CharClass::Ws);
    lemma_prefix_chars(t, seq!['-', '-', '-']);
    lemma_prefix_chars(t, seq!['%', '%']);
    lemma_prefix_chars(t, seq!['c', 'l', 'a', 's', 's', 'D', 'i', 'a', 'g', 'r', 'a', 'm', '-', 'v', '2']);
    assert(t[12] == '\n');
    lemma_prefix_of_concat(kw, seq!['\n'] + statements_text(d));
    lemma_skip_ws_prefix(seq!['\n'], statements_text(d));
}

/// The text of a relation line after its first name.
pub open spec fn after_tail(r: RelationView, rest: Seq<char>) -> Seq<char> {
    let label_part = match r.label {
        Some(l) => seq![' ', ':', ' '] + l,
        None => Seq::empty(),
    };
    let named = escaped(r.head) + (label_part + seq!['\n'] + rest);
    cardinality_text(r.cardinality_tail) + seq![' '] + (arrow_text(r.kind) + (cardinality_text(
        r.cardinality_head,
    ) + seq![' '] + named))
}

proof fn lemma_relation_text_split(r: RelationView, rest: Seq<char>)
    requires
        valid_relation(r),
    ensures
        relation_text(r) + rest == escaped(r.tail) + after_tail(r, rest),
        after_tail(r, rest).len() > 0,
        after_tail(r, rest)[0] == ' ',
        after_name(after_tail(r, rest)),
        skip_sp(after_tail(r, rest)).len() > 0,
        !ident_start(skip_sp(after_tail(r, rest))[0]),
        skip_sp(after_tail(r, rest))[0] != '`',
        !is_ws(skip_sp(after_tail(r, rest))[0]),
        skip_ws(after_tail(r, rest)).len() > 0,
        skip_ws(after_tail(r, rest))[0] != ':',
        !crate::text::is_sp(skip_ws(after_tail(r, rest))[0]),
{
    let label_part = match r.label {
        Some(l) => seq![' ', ':', ' '] + l,
        None => Seq::empty(),
    };
    let named = escaped(r.head) + (label_part + seq!['\n'] + rest);
    let from_arrow = arrow_text(r.kind) + (cardinality_text(r.cardinality_head) + seq![' '] + named);
    let s = after_tail(r, rest);
    let et = escaped(r.tail);
    let ct = cardinality_text(r.cardinality_tail);
    let ch = cardinality_text(r.cardinality_head);
    let ar = arrow_text(r.kind);
    let eh = escaped(r.head);
    let sp = seq![' '];
    let nl = seq!['\n'];
    let a1 = et + ct;
    let a2 = a1 + sp;
    let a3 = a2 + ar;
    let a4 = a3 + ch;
    let a5 = a4 + sp;
    let a6 = a5 + eh;
    let a7 = a6 + label_part;
    assert(relation_text(r) == a7 + nl);
    let t1 = label_part + nl + rest;
    lemma_concat_associative(a7, nl, rest);
    lemma_concat_associative(a6, label_part, nl + rest);
    lemma_concat_associative(label_part, nl, rest);
    lemma_concat_associative(a5, eh, t1);
    lemma_concat_associative(a4, sp, named);
    lemma_concat_associative(ch, sp, named);
    let t2 = ch + sp + named;
    lemma_concat_associative(a3, ch, sp + named);
    lemma_concat_associative(a2, ar, t2);
    lemma_concat_associative(a1, sp, from_arrow);
    lemma_concat_associative(et, ct, sp + from_arrow);
    lemma_concat_associative(ct, sp, from_arrow);
    assert(relation_text(r) + rest == escaped(r.tail) + s);
    assert(from_arrow[0] == arrow_text(r.kind)[0]);
    let inner = match r.cardinality_tail {
        Some(c) => seq!['"'] + c + seq!['"'] + (seq![' '] + from_arrow),
        None => from_arrow,
    };
    assert(s =~= seq![' '] + inner);
    assert(inner.len() > 0 && (inner[0] == '"' || inner[0] == '-' || inner[0] == '.'));
    lemma_skip_one(' ', inner, CharClass::Sp);
    lemma_skip_ws_prefix(seq![' '], inner);
    lemma_skip_none(inner, CharClass::Ws);
}

/// A rendered relation line is read by the statement dispatcher as that relation.
#[verifier::rlimit(80)]
pub proof fn law_relation_statement(r: RelationView, rest: Seq<char>)
    requires
        valid_relation(r),
        skip_ws(rest).len() == 0 || skip_ws(rest)[0] != ':',
    ensures
        stmt_spec(relation_text(r) + rest) == Some((StmtView::Relation(r), skip_ws(rest))),
{
    reveal(stmt_spec);
    lemma_relation_text_split(r, rest);
    lemma_not_declaration(r.tail, after_tail(r, rest));
    lemma_not_member_line(r.tail, after_tail(r, rest));
    law_relation_line_round_trip(r, rest);
}

proof fn lemma_not_member_line(x: Seq<char>, s: Seq<char>)
    requires
        valid_name(x),
        after_name(s),
        skip_ws(s).len() > 0,
        skip_ws(s)[0] != ':',
        !crate::text::is_sp(skip_ws(s)[0]),
    ensures
        member_line_spec(escaped(x) + s).is_none(),
{
    law_escaped_name_round_trip(x, s);
    lemma_skip_none(skip_ws(s), CharClass::Sp);
}

/// A rendered member line `Name : member` is read by the statement dispatcher as that
/// member attached to that class.
pub proof fn law_member_statement(name: Seq<char>, m: MemberView, rest: Seq<char>)
    requires
        valid_name(name),
        valid_member(m),
    ensures
        stmt_spec(escaped(name) + seq![' ', ':', ' '] + member_text(m) + seq!['\n'] + rest) == Some(
            (StmtView::Member(name, m), seq!['\n'] + rest),
        ),
{
    reveal(stmt_spec);
    let inner = seq![':', ' '] + (member_text(m) + seq!['\n'] + rest);
    let s = seq![' '] + inner;
    assert(escaped(name) + seq![' ', ':', ' '] + member_text(m) + seq!['\n'] + rest =~= escaped(name) + s);
    lemma_skip_one(' ', inner, CharClass::Sp);
    lemma_not_declaration(name, s);
    law_member_line_round_trip(name, m, rest);
}

proof fn lemma_letters_bare(kw: Seq<char>)
    requires
        kw.len() > 0,
        forall|i: int| 0 <= i < kw.len() ==> crate::text::ascii_alnum(#[trigger] kw[i]),
    ensures
        is_bare(kw),
        escaped(kw) == kw,
        valid_name(kw),
{
    assert(kw[0] == kw[0]);
    assert forall|i: int| 0 <= i < kw.drop_first().len() implies in_class(
        CharClass::IdentCont,
        #[trigger] kw.drop_first()[i],
    ) by {
        assert(kw.drop_first()[i] == kw[i + 1]);
        assert(crate::text::ascii_alnum(kw[i + 1]));
    }
    lemma_run_all(kw.drop_first(), CharClass::IdentCont);
}

proof fn lemma_direction_word()
    ensures
        is_bare(seq!['d', 'i', 'r', 'e', 'c', 't', 'i', 'o', 'n']),
        escaped(seq!['d', 'i', 'r', 'e', 'c', 't', 'i', 'o', 'n']) == seq!['d', 'i', 'r', 'e', 'c', 't', 'i', 'o', 'n'],
        valid_name(seq!['d', 'i', 'r', 'e', 'c', 't', 'i', 'o', 'n']),
{
    let kw = seq!['d', 'i', 'r', 'e', 'c', 't', 'i', 'o', 'n'];
    assert forall|i: int| 0 <= i < kw.len() implies crate::text::ascii_alnum(#[trigger] kw[i]) by {
        assert(0 <= i < 9);
        if i == 0 {} else if i == 1 {} else if i == 2 {} else if i == 3 {} else if i == 4 {}
        else if i == 5 {} else if i == 6 {} else if i == 7 {} else {}
    }
    lemma_letters_bare(kw);
}

/// A rendered direction line is read by the statement dispatcher as that direction.
#[verifier::rlimit(80)]
pub proof fn law_direction_statement(d: Direction, rest: Seq<char>)
    ensures
        stmt_spec(direction_text(d) + rest) == Some((StmtView::Direction(d), skip_ws(seq!['\n'] + rest))),
{
    reveal(stmt_spec);
    reveal(class_stmt_spec);
    reveal(relation_spec);
    reveal(arrow_spec);
    let kw = seq!['d', 'i', 'r', 'e', 'c', 't', 'i', 'o', 'n'];
    let w = direction_code(d) + (seq!['\n'] + rest);
    let s = seq![' '] + w;
    let t = direction_text(d) + rest;
    assert(t =~= kw + s);
    lemma_direction_word();
    lemma_skip_none(t, CharClass::Ws);
    lemma_prefix_chars(t, kw_class());
    lemma_prefix_chars(t, kw_namespace());
    lemma_prefix_chars(t, seq!['n', 'o', 't', 'e']);
    assert(w.len() > 0 && (w[0] == 'T' || w[0] == 'B' || w[0] == 'R' || w[0] == 'L'));
    lemma_skip_ws_prefix(seq![' '], w);
    lemma_skip_none(w, CharClass::Ws);
    lemma_skip_none(w, CharClass::Sp);
    lemma_not_member_line(kw, s);
    law_escaped_name_round_trip(kw, s);
    lemma_arrow_table(w);
    assert(quoted_spec(w).is_none());
    law_direction_line_round_trip(d, rest);
}

proof fn lemma_note_word()
    ensures
        is_bare(seq!['n', 'o', 't', 'e']),
        escaped(seq!['n', 'o', 't', 'e']) == seq!['n', 'o', 't', 'e'],
        valid_name(seq!['n', 'o', 't', 'e']),
{
    let kw = seq!['n', 'o', 't', 'e'];
    assert forall|i: int| 0 <= i < kw.len() implies crate::text::ascii_alnum(#[trigger] kw[i]) by {
        assert(0 <= i < 4);
        if i == 0 {} else if i == 1 {} else if i == 2 {} else {}
    }
    lemma_letters_bare(kw);
}

/// A rendered note line is read by the statement dispatcher as that note, provided
/// that what follows does not begin, after whitespace, with an arrow (which would
/// make a free note's quoted text read as a cardinality).
#[verifier::rlimit(80)]
pub proof fn law_note_statement(n: NoteView, rest: Seq<char>)
    requires
        valid_note(n),
        arrow_spec(skip_ws(rest)).is_none(),
    ensures
        stmt_spec(note_text(n) + rest) == Some((StmtView::Note(n), seq!['\n'] + rest)),
{
    reveal(stmt_spec);
    reveal(class_stmt_spec);
    reveal(relation_spec);
    let kw = seq!['n', 'o', 't', 'e'];
    let t = note_text(n) + rest;
    let quoted = seq!['"'] + n.text + seq!['"'] + (seq!['\n'] + rest);
    let w = match n.target_class {
        Some(x) => seq!['f', 'o', 'r', ' '] + escaped(x) + (seq![' '] + quoted),
        None => quoted,
    };
    let s = seq![' '] + w;
    assert(t =~= kw + s);
    lemma_note_word();
    lemma_skip_none(t, CharClass::Ws);
    lemma_prefix_chars(t, kw_class());
    lemma_prefix_chars(t, kw_namespace());
    lemma_prefix_chars(t, seq!['d', 'i', 'r', 'e', 'c', 't', 'i', 'o', 'n']);
    assert(w.len() > 0 && (w[0] == 'f' || w[0] == '"'));
    lemma_skip_ws_prefix(seq![' '], w);
    lemma_skip_none(w, CharClass::Ws);
    lemma_skip_none(w, CharClass::Sp);
    lemma_not_member_line(kw, s);
    law_escaped_name_round_trip(kw, s);
    if n.target_class is None && n.text.len() > 0 {
        lemma_quoted_readback(n.text, seq!['\n'] + rest);
        lemma_skip_ws_prefix(seq!['\n'], rest);
    } else {
        assert(quoted_spec(w).is_none());
        reveal(arrow_spec);
        lemma_arrow_table(w);
    }
    law_note_line_round_trip(n, rest);
}

/// A rendered class declaration line is read by the statement dispatcher as that
/// class, with no members, provided that what follows does not open a body.
pub proof fn law_class_statement(name: Seq<char>, rest: Seq<char>)
    requires
        valid_name(name),
        skip_ws(rest).len() == 0 || skip_ws(rest)[0] != '{',
    ensures
        stmt_spec(kw_class_sp() + escaped(name) + seq!['\n'] + rest) == Some(
            (
                StmtView::Class(ClassView { name: name, annotations: Seq::empty(), members: Seq::empty() }),
                skip_ws(rest),
            ),
        ),
{
    reveal(stmt_spec);
    law_class_line_round_trip(name, rest);
}

/// A line that begins with a rendered name followed by a space and then a character
/// that cannot start a class name is neither a class declaration nor a namespace
/// block, even where the name is the keyword itself.
proof fn lemma_not_declaration(x: Seq<char>, s: Seq<char>)
    requires
        valid_name(x),
        s.len() > 0,
        s[0] == ' ',
        skip_sp(s).len() > 0,
        !ident_start(skip_sp(s)[0]),
        skip_sp(s)[0] != '`',
        !is_ws(skip_sp(s)[0]),
    ensures
        class_stmt_spec(escaped(x) + s).is_none(),
        namespace_stmt_spec(escaped(x) + s).is_none(),
{
    reveal(class_stmt_spec);
    let t = escaped(x) + s;
    lemma_escaped_start(x);
    assert(t[0] == escaped(x)[0]);
    lemma_skip_none(t, CharClass::Ws);
    lemma_skip_none(skip_sp(s), CharClass::Ws);
    lemma_prefix_chars(t, kw_class());
    lemma_prefix_chars(t, kw_namespace());
    if starts_with(t, kw_class()) && run(t.skip(5), CharClass::Sp) > 0 {
        assert(t.skip(5)[0] == t[5]);
        lemma_keyword_name(x, s, kw_class());
        lemma_skip_ws_nonws(skip_sp(s));
        assert(token(skip_sp(s)).is_none());
    }
    if starts_with(t, kw_namespace()) && run(t.skip(9), CharClass::Sp) > 0 {
        assert(t.skip(9)[0] == t[9]);
        lemma_keyword_name(x, s, kw_namespace());
        crate::text::lemma_run_bound(s, CharClass::Sp);
        assert(t.skip(9 + run(s, CharClass::Sp) as int) =~= skip_sp(s));
        lemma_skip_ws_nonws(skip_sp(s));
        assert(token(skip_sp(s)).is_none());
    }
}

/// A rendered name followed by a space that spells a keyword of letters is that
/// keyword, and the text after the keyword is what followed the name.
proof fn lemma_keyword_name(x: Seq<char>, s: Seq<char>, kw: Seq<char>)
    requires
        valid_name(x),
        s.len() > 0,
        s[0] == ' ',
        kw.len() > 0,
        forall|i: int| 0 <= i < kw.len() ==> ident_cont(#[trigger] kw[i]),
        starts_with(escaped(x) + s, kw),
        (escaped(x) + s).len() > kw.len(),
        crate::text::is_sp((escaped(x) + s)[kw.len() as int]),
    ensures
        (escaped(x) + s).skip(kw.len() as int) == s,
{
    let t = escaped(x) + s;
    lemma_prefix_chars(t, kw);
    assert(t[0] == kw[0]);
    assert(escaped(x)[0] == t[0]);
    assert(is_bare(x));
    assert(escaped(x) == x);
    lemma_run_stops(x.drop_first(), CharClass::IdentCont);
    if x.len() > kw.len() {
        assert(t[kw.len() as int] == x[kw.len() as int]);
        assert(x.drop_first()[kw.len() - 1] == x[kw.len() as int]);
        lemma_run_all_means(x.drop_first(), CharClass::IdentCont, kw.len() - 1);
        assert(false);
    } else if x.len() < kw.len() {
        assert(t[x.len() as int] == s[0]);
        assert(ident_cont(kw[x.len() as int]));
        assert(false);
    }
    assert(t.skip(kw.len() as int) =~= s);
}

proof fn lemma_run_all_means(a: Seq<char>, k: CharClass, i: int)
    requires
        run(a, k) == a.len(),
        0 <= i < a.len(),
    ensures
        in_class(k, a[i]),
    decreases a.len(),
{
    if i > 0 {
        lemma_run_all_means(a.drop_first(), k, i - 1);
    }
}

} // verus!
