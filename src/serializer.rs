//! Rendering a diagram back to canonical text, one statement per line, with the
//! notation that each type was written in.
use vstd::prelude::*;
use vstd::string::*;
use crate::header::write_yaml;
use crate::namespace::{local_name, local_of};
use crate::text::{CharClass, chars_of, ident_start, run, token_at};
use crate::types::{
    Attribute, Class, ClassView, Diagram, DiagramView, Direction, Member, MemberView, Method,
    MethodView, Namespace, NamespaceView, Note, NoteView, Parameter, ParameterView, Relation,
    RelationKind, RelationView, TypeNotation, Visibility, classes_view, members_view,
    namespaces_view, notes_view, opt_view, params_view, relations_view,
};

verus! {

/// A name that reads back as a bare identifier.
pub open spec fn is_bare(name: Seq<char>) -> bool {
    name.len() > 0 && ident_start(name[0]) && run(name.drop_first(), CharClass::IdentCont) == name.len() - 1
}

/// A name as written: bare where it can be, between backticks otherwise.
pub open spec fn escaped(name: Seq<char>) -> Seq<char> {
    if is_bare(name) {
        name
    } else {
        seq!['`'] + name + seq!['`']
    }
}

pub open spec fn visibility_text(v: Visibility) -> Seq<char> {
    match v {
        Visibility::Public => seq!['+'],
        Visibility::Private => seq!['-'],
        Visibility::Protected => seq!['#'],
        Visibility::Package => seq!['~'],
        Visibility::Unspecified => Seq::empty(),
    }
}

pub open spec fn flag_text(on: bool, c: char) -> Seq<char> {
    if on {
        seq![c]
    } else {
        Seq::empty()
    }
}

/// A name with its type in the stored notation.
pub open spec fn typed_text(name: Seq<char>, ty: Option<Seq<char>>, nt: TypeNotation) -> Seq<char> {
    match (nt, ty) {
        (TypeNotation::Prefix, Some(t)) => escaped(t) + seq![' '] + name,
        (TypeNotation::Postfix, Some(t)) => name + seq![':', ' '] + escaped(t),
        _ => name,
    }
}

pub open spec fn param_text(p: ParameterView) -> Seq<char> {
    typed_text(p.name, p.data_type, p.type_notation)
}

/// Each parameter preceded by `, `.
pub open spec fn params_tail_text(qs: Seq<ParameterView>) -> Seq<char>
    decreases qs.len(),
{
    if qs.len() == 0 {
        Seq::empty()
    } else {
        seq![',', ' '] + param_text(qs[0]) + params_tail_text(qs.drop_first())
    }
}

/// The parameters, separated by `, `.
pub open spec fn params_text(ps: Seq<ParameterView>) -> Seq<char> {
    if ps.len() == 0 {
        Seq::empty()
    } else {
        param_text(ps[0]) + params_tail_text(ps.drop_first())
    }
}

proof fn lemma_params_tail_push(qs: Seq<ParameterView>, x: ParameterView)
    ensures
        params_tail_text(qs.push(x)) == params_tail_text(qs) + seq![',', ' '] + param_text(x),
    decreases qs.len(),
{
    if qs.len() == 0 {
        assert(qs.push(x).drop_first() =~= Seq::<ParameterView>::empty());
        assert(qs.push(x)[0] == x);
        assert(params_tail_text(qs.push(x).drop_first()) =~= Seq::<char>::empty());
        assert(params_tail_text(qs.push(x)) =~= seq![',', ' '] + param_text(x) + Seq::<char>::empty());
        assert(params_tail_text(qs) + seq![',', ' '] + param_text(x) =~= seq![',', ' '] + param_text(x));
    } else {
        assert(qs.push(x).drop_first() =~= qs.drop_first().push(x));
        lemma_params_tail_push(qs.drop_first(), x);
        assert(params_tail_text(qs.push(x)) =~= params_tail_text(qs) + seq![',', ' '] + param_text(x));
    }
}

/// A prefix return type and the space after it.
pub open spec fn return_before(m: MethodView) -> Seq<char> {
    match (m.return_type_notation, m.return_type) {
        (TypeNotation::Prefix, Some(t)) => escaped(t) + seq![' '],
        _ => Seq::empty(),
    }
}

/// A return type written after the parameter list, with the space before it.
pub open spec fn return_after(m: MethodView) -> Seq<char> {
    match (m.return_type_notation, m.return_type) {
        (TypeNotation::Prefix, _) => Seq::empty(),
        (_, Some(t)) => seq![' '] + escaped(t),
        _ => Seq::empty(),
    }
}

/// A method: `[vis][$][*][Type ]name(params)[ Type]`, the return type on the side
/// that its notation says.
pub open spec fn method_text(m: MethodView) -> Seq<char> {
    visibility_text(m.visibility) + flag_text(m.is_static, '$') + flag_text(m.is_abstract, '*')
        + return_before(m) + m.name + seq!['('] + params_text(m.parameters) + seq![')']
        + return_after(m)
}

pub open spec fn member_text(m: MemberView) -> Seq<char> {
    match m {
        MemberView::Attribute(a) => visibility_text(a.visibility) + flag_text(a.is_static, '$')
            + typed_text(a.name, a.data_type, a.type_notation),
        MemberView::Method(x) => method_text(x),
    }
}

/// One `Name : member` line per member.
pub open spec fn member_lines(shown: Seq<char>, ms: Seq<MemberView>) -> Seq<char>
    decreases ms.len(),
{
    if ms.len() == 0 {
        Seq::empty()
    } else {
        member_lines(shown, ms.drop_last()) + shown + seq![' ', ':', ' '] + member_text(ms.last())
            + seq!['\n']
    }
}

pub open spec fn kw_class_sp() -> Seq<char> {
    seq!['c', 'l', 'a', 's', 's', ' ']
}

/// A class under the name it is shown with: its declaration, then its members.
pub open spec fn class_text(shown: Seq<char>, c: ClassView) -> Seq<char> {
    kw_class_sp() + escaped(shown) + seq!['\n'] + member_lines(escaped(shown), c.members)
}

pub open spec fn arrow_text(k: RelationKind) -> Seq<char> {
    match k {
        RelationKind::Inheritance => seq!['-', '-', '|', '>'],
        RelationKind::Composition => seq!['-', '-', '*'],
        RelationKind::Aggregation => seq!['-', '-', 'o'],
        RelationKind::Association => seq!['-', '-', '>'],
        RelationKind::SolidLink => seq!['-', '-'],
        RelationKind::Dependency => seq!['.', '.', '>'],
        RelationKind::Realization => seq!['.', '.', '|', '>'],
        RelationKind::DashLink => seq!['.', '.'],
    }
}

pub open spec fn cardinality_text(c: Option<Seq<char>>) -> Seq<char> {
    match c {
        Some(t) => seq![' ', '"'] + t + seq!['"'],
        None => Seq::empty(),
    }
}

/// A relation, always with the right-pointing spelling of its arrow.
pub open spec fn relation_text(r: RelationView) -> Seq<char> {
    let label = match r.label {
        Some(l) => seq![' ', ':', ' '] + l,
        None => Seq::empty(),
    };
    escaped(r.tail) + cardinality_text(r.cardinality_tail) + seq![' '] + arrow_text(r.kind)
        + cardinality_text(r.cardinality_head) + seq![' '] + escaped(r.head) + label + seq!['\n']
}

pub open spec fn note_text(n: NoteView) -> Seq<char> {
    match n.target_class {
        Some(t) => seq!['n', 'o', 't', 'e', ' ', 'f', 'o', 'r', ' '] + escaped(t) + seq![' ', '"']
            + n.text + seq!['"', '\n'],
        None => seq!['n', 'o', 't', 'e', ' ', '"'] + n.text + seq!['"', '\n'],
    }
}

pub open spec fn direction_code(d: Direction) -> Seq<char> {
    match d {
        Direction::TopBottom => seq!['T', 'B'],
        Direction::BottomTop => seq!['B', 'T'],
        Direction::RightLeft => seq!['R', 'L'],
        Direction::LeftRight => seq!['L', 'R'],
    }
}

pub open spec fn direction_text(d: Direction) -> Seq<char> {
    seq!['d', 'i', 'r', 'e', 'c', 't', 'i', 'o', 'n', ' '] + direction_code(d) + seq!['\n']
}

/// A name as the renderer writes it: as it is where it scans as one bare
/// identifier, between backticks otherwise.
pub fn escape_class_name(name: &str) -> (r: String)
    ensures
        r@ == escaped(name@),
{
    let v = chars_of(name);
    proof {
        assert(v@.skip(0) =~= v@);
    }
    let bare = match token_at(&v, 0) {
        Some(e) => {
            proof {
                crate::text::lemma_run_bound(v@.drop_first(), CharClass::IdentCont);
                let n = 1 + run(v@.drop_first(), CharClass::IdentCont) as int;
                assert(v@.take(n).len() == e);
            }
            e == v.len()
        },
        None => false,
    };
    assert(bare == is_bare(name@));
    if bare {
        name.to_owned()
    } else {
        let mut r = String::from_str("`");
        r.append(name);
        r.append("`");
        proof {
            reveal_strlit("`");
        }
        r
    }
}

/// The glyph of a visibility; none for `Unspecified`.
pub fn visibility_symbol(vis: Visibility) -> (r: &'static str)
    ensures
        r@ == visibility_text(vis),
{
    match vis {
        Visibility::Public => {
            proof {
                reveal_strlit("+");
            }
            "+"
        },
        Visibility::Private => {
            proof {
                reveal_strlit("-");
            }
            "-"
        },
        Visibility::Protected => {
            proof {
                reveal_strlit("#");
            }
            "#"
        },
        Visibility::Package => {
            proof {
                reveal_strlit("~");
            }
            "~"
        },
        Visibility::Unspecified => {
            proof {
                reveal_strlit("");
            }
            ""
        },
    }
}

fn write_flag(output: &mut String, on: bool, glyph: &str)
    requires
        glyph@.len() == 1,
    ensures
        final(output)@ == old(output)@ + flag_text(on, glyph@[0]),
{
    if on {
        output.append(glyph);
        assert(glyph@ =~= seq![glyph@[0]]);
    } else {
        assert(old(output)@ + flag_text(on, glyph@[0]) =~= old(output)@);
    }
}

fn write_typed(output: &mut String, name: &String, ty: &Option<String>, nt: TypeNotation)
    ensures
        final(output)@ == old(output)@ + typed_text(name@, opt_view(*ty), nt),
{
    match (nt, ty) {
        (TypeNotation::Prefix, Some(t)) => {
            output.append(escape_class_name(t.as_str()).as_str());
            output.append(" ");
            output.append(name.as_str());
            proof {
                reveal_strlit(" ");
                assert(output@ =~= old(output)@ + typed_text(name@, opt_view(*ty), nt));
            }
        },
        (TypeNotation::Postfix, Some(t)) => {
            output.append(name.as_str());
            output.append(": ");
            output.append(escape_class_name(t.as_str()).as_str());
            proof {
                reveal_strlit(": ");
                assert(output@ =~= old(output)@ + typed_text(name@, opt_view(*ty), nt));
            }
        },
        _ => {
            output.append(name.as_str());
        },
    }
}

proof fn lemma_params_text_step(ps: Seq<ParameterView>, i: int)
    requires
        0 <= i < ps.len(),
    ensures
        params_text(ps.take(i + 1)) == params_text(ps.take(i)) + (if i > 0 {
            seq![',', ' ']
        } else {
            Seq::empty()
        }) + param_text(ps[i]),
{
    let t = ps.take(i + 1);
    if i == 0 {
        assert(t.drop_first() =~= Seq::<ParameterView>::empty());
        assert(params_text(ps.take(0)) =~= Seq::<char>::empty());
        assert(params_text(t) =~= Seq::<char>::empty() + Seq::<char>::empty() + param_text(ps[0]));
    } else {
        assert(t.drop_first() =~= ps.take(i).drop_first().push(ps[i]));
        lemma_params_tail_push(ps.take(i).drop_first(), ps[i]);
        assert(params_text(t) =~= params_text(ps.take(i)) + seq![',', ' '] + param_text(ps[i]));
    }
}

fn write_params(output: &mut String, ps: &Vec<Parameter>)
    ensures
        final(output)@ == old(output)@ + params_text(params_view(ps@)),
{
    let ghost base = output@;
    let ghost pv = params_view(ps@);
    let mut i: usize = 0;
    assert(pv.take(0) =~= Seq::<ParameterView>::empty());
    assert(base + params_text(pv.take(0)) =~= base);
    while i < ps.len()
        invariant
            i <= ps.len(),
            pv == params_view(ps@),
            output@ == base + params_text(pv.take(i as int)),
        decreases ps.len() - i,
    {
        proof {
            lemma_params_text_step(pv, i as int);
        }
        let ghost before = output@;
        if i > 0 {
            output.append(", ");
            proof {
                reveal_strlit(", ");
            }
        }
        let p = &ps[i];
        write_typed(output, &p.name, &p.data_type, p.type_notation);
        proof {
            assert(pv[i as int] == p@);
            assert(output@ =~= base + params_text(pv.take(i + 1)));
        }
        i = i + 1;
    }
    assert(pv.take(ps.len() as int) =~= pv);
}

fn write_return_before(output: &mut String, m: &Method)
    ensures
        final(output)@ == old(output)@ + return_before(m@),
{
    match (m.return_type_notation, &m.return_type) {
        (TypeNotation::Prefix, Some(t)) => {
            output.append(escape_class_name(t.as_str()).as_str());
            output.append(" ");
            proof {
                reveal_strlit(" ");
                assert(output@ =~= old(output)@ + return_before(m@));
            }
        },
        _ => {
            assert(old(output)@ + return_before(m@) =~= old(output)@);
        },
    }
}

fn write_return_after(output: &mut String, m: &Method)
    ensures
        final(output)@ == old(output)@ + return_after(m@),
{
    match (m.return_type_notation, &m.return_type) {
        (TypeNotation::Prefix, _) => {
            assert(old(output)@ + return_after(m@) =~= old(output)@);
        },
        (_, Some(t)) => {
            output.append(" ");
            output.append(escape_class_name(t.as_str()).as_str());
            proof {
                reveal_strlit(" ");
                assert(output@ =~= old(output)@ + return_after(m@));
            }
        },
        _ => {
            assert(old(output)@ + return_after(m@) =~= old(output)@);
        },
    }
}

#[verifier::rlimit(60)]
fn write_method(output: &mut String, m: &Method)
    ensures
        final(output)@ == old(output)@ + method_text(m@),
{
    proof {
        reveal_strlit("$");
        reveal_strlit("*");
        reveal_strlit("(");
        reveal_strlit(")");
    }
    output.append(visibility_symbol(m.visibility));
    write_flag(output, m.is_static, "$");
    write_flag(output, m.is_abstract, "*");
    write_return_before(output, m);
    output.append(m.name.as_str());
    output.append("(");
    write_params(output, &m.parameters);
    output.append(")");
    write_return_after(output, m);
    proof {
        assert(output@ =~= old(output)@ + method_text(m@));
    }
}

/// Appends the text of one member.
pub fn serialize_member(member: &Member, output: &mut String)
    ensures
        final(output)@ == old(output)@ + member_text(member@),
{
    match member {
        Member::Attribute(a) => {
            output.append(visibility_symbol(a.visibility));
            proof {
                reveal_strlit("$");
            }
            write_flag(output, a.is_static, "$");
            write_typed(output, &a.name, &a.data_type, a.type_notation);
            assert(output@ =~= old(output)@ + member_text(member@));
        },
        Member::Method(m) => write_method(output, m),
    }
}

proof fn lemma_member_lines_step(shown: Seq<char>, ms: Seq<MemberView>, i: int)
    requires
        0 <= i < ms.len(),
    ensures
        member_lines(shown, ms.take(i + 1)) == member_lines(shown, ms.take(i)) + shown + seq![' ', ':', ' ']
            + member_text(ms[i]) + seq!['\n'],
{
    assert(ms.take(i + 1).drop_last() =~= ms.take(i));
}

/// Appends a class under the name it is shown with.
fn write_class_as(output: &mut String, shown: &str, class: &Class)
    ensures
        final(output)@ == old(output)@ + class_text(shown@, class@),
{
    let name = escape_class_name(shown);
    output.append("class ");
    output.append(name.as_str());
    output.append("\n");
    proof {
        reveal_strlit("class ");
        reveal_strlit("\n");
        reveal_strlit(" : ");
    }
    let ghost base = output@;
    let ghost mv = members_view(class.members@);
    let mut i: usize = 0;
    assert(mv.take(0) =~= Seq::<MemberView>::empty());
    assert(base + member_lines(name@, mv.take(0)) =~= base);
    while i < class.members.len()
        invariant
            i <= class.members.len(),
            mv == members_view(class.members@),
            output@ == base + member_lines(name@, mv.take(i as int)),
        decreases class.members.len() - i,
    {
        proof {
            lemma_member_lines_step(name@, mv, i as int);
            reveal_strlit(" : ");
            reveal_strlit("\n");
        }
        output.append(name.as_str());
        output.append(" : ");
        serialize_member(&class.members[i], output);
        output.append("\n");
        proof {
            assert(mv[i as int] == class.members@[i as int]@);
            assert(output@ =~= base + member_lines(name@, mv.take(i + 1)));
        }
        i = i + 1;
    }
    proof {
        assert(mv.take(class.members.len() as int) =~= mv);
        assert(output@ =~= old(output)@ + class_text(shown@, class@));
    }
}

/// Appends a class under its own name: its declaration line, then one
/// `Name : member` line per member.
pub fn serialize_class(class: &Class, output: &mut String)
    ensures
        final(output)@ == old(output)@ + class_text(class.name@, class@),
{
    write_class_as(output, class.name.as_str(), class);
}

fn write_cardinality(output: &mut String, c: &Option<String>)
    ensures
        final(output)@ == old(output)@ + cardinality_text(opt_view(*c)),
{
    match c {
        Some(t) => {
            output.append(" \"");
            output.append(t.as_str());
            output.append("\"");
            proof {
                reveal_strlit(" \"");
                reveal_strlit("\"");
                assert(output@ =~= old(output)@ + cardinality_text(opt_view(*c)));
            }
        },
        None => {
            assert(old(output)@ + cardinality_text(opt_view(*c)) =~= old(output)@);
        },
    }
}

fn arrow_str(k: RelationKind) -> (r: &'static str)
    ensures
        r@ == arrow_text(k),
{
    match k {
        RelationKind::Inheritance => {
            proof {
                reveal_strlit("--|>");
            }
            "--|>"
        },
        RelationKind::Composition => {
            proof {
                reveal_strlit("--*");
            }
            "--*"
        },
        RelationKind::Aggregation => {
            proof {
                reveal_strlit("--o");
            }
            "--o"
        },
        RelationKind::Association => {
            proof {
                reveal_strlit("-->");
            }
            "-->"
        },
        RelationKind::SolidLink => {
            proof {
                reveal_strlit("--");
            }
            "--"
        },
        RelationKind::Dependency => {
            proof {
                reveal_strlit("..>");
            }
            "..>"
        },
        RelationKind::Realization => {
            proof {
                reveal_strlit("..|>");
            }
            "..|>"
        },
        RelationKind::DashLink => {
            proof {
                reveal_strlit("..");
            }
            ".."
        },
    }
}

/// Appends a relation line.
pub fn serialize_relation(relation: &Relation, output: &mut String)
    ensures
        final(output)@ == old(output)@ + relation_text(relation@),
{
    output.append(escape_class_name(relation.tail.as_str()).as_str());
    write_cardinality(output, &relation.cardinality_tail);
    output.append(" ");
    output.append(arrow_str(relation.kind));
    write_cardinality(output, &relation.cardinality_head);
    output.append(" ");
    output.append(escape_class_name(relation.head.as_str()).as_str());
    match &relation.label {
        Some(l) => {
            output.append(" : ");
            output.append(l.as_str());
        },
        None => {},
    }
    output.append("\n");
    proof {
        reveal_strlit(" ");
        reveal_strlit(" : ");
        reveal_strlit("\n");
        assert(output@ =~= old(output)@ + relation_text(relation@));
    }
}

/// Appends a note line.
pub fn serialize_note(note: &Note, output: &mut String)
    ensures
        final(output)@ == old(output)@ + note_text(note@),
{
    match &note.target_class {
        Some(t) => {
            output.append("note for ");
            output.append(escape_class_name(t.as_str()).as_str());
            output.append(" \"");
        },
        None => {
            output.append("note \"");
        },
    }
    output.append(note.text.as_str());
    output.append("\"\n");
    proof {
        reveal_strlit("note for ");
        reveal_strlit(" \"");
        reveal_strlit("note \"");
        reveal_strlit("\"\n");
        assert(output@ =~= old(output)@ + note_text(note@));
    }
}

/// Appends a direction line.
pub fn serialize_direction(direction: Direction, output: &mut String)
    ensures
        final(output)@ == old(output)@ + direction_text(direction),
{
    output.append("direction ");
    let code = match direction {
        Direction::TopBottom => "TB",
        Direction::BottomTop => "BT",
        Direction::RightLeft => "RL",
        Direction::LeftRight => "LR",
    };
    output.append(code);
    output.append("\n");
    proof {
        reveal_strlit("direction ");
        reveal_strlit("TB");
        reveal_strlit("BT");
        reveal_strlit("RL");
        reveal_strlit("LR");
        reveal_strlit("\n");
        assert(output@ =~= old(output)@ + direction_text(direction));
    }
}

/// The classes, each under its full name (`local` false) or its local name.
pub open spec fn classes_text(cs: Seq<ClassView>, local: bool) -> Seq<char>
    decreases cs.len(),
{
    if cs.len() == 0 {
        Seq::empty()
    } else {
        let c = cs.last();
        classes_text(cs.drop_last(), local) + class_text(if local { local_name(c.name) } else { c.name }, c)
    }
}

/// The classes of the default namespace, under their full names.
pub open spec fn default_text(ns: Seq<NamespaceView>) -> Seq<char>
    decreases ns.len(),
{
    if ns.len() == 0 {
        Seq::empty()
    } else {
        default_text(ns.drop_last()) + if ns.last().name.len() == 0 {
            classes_text(ns.last().classes, false)
        } else {
            Seq::empty()
        }
    }
}

pub open spec fn block_text(n: NamespaceView) -> Seq<char> {
    seq!['n', 'a', 'm', 'e', 's', 'p', 'a', 'c', 'e', ' '] + escaped(n.name) + seq![' ', '{', '\n']
        + classes_text(n.classes, true) + seq!['}', '\n']
}

/// One block per named namespace, its classes under their local names.
pub open spec fn blocks_text(ns: Seq<NamespaceView>) -> Seq<char>
    decreases ns.len(),
{
    if ns.len() == 0 {
        Seq::empty()
    } else {
        blocks_text(ns.drop_last()) + if ns.last().name.len() == 0 {
            Seq::empty()
        } else {
            block_text(ns.last())
        }
    }
}

pub open spec fn relations_text(rs: Seq<RelationView>) -> Seq<char>
    decreases rs.len(),
{
    if rs.len() == 0 {
        Seq::empty()
    } else {
        relations_text(rs.drop_last()) + relation_text(rs.last())
    }
}

pub open spec fn notes_text(ns: Seq<NoteView>) -> Seq<char>
    decreases ns.len(),
{
    if ns.len() == 0 {
        Seq::empty()
    } else {
        notes_text(ns.drop_last()) + note_text(ns.last())
    }
}

pub open spec fn kw_class_diagram_line() -> Seq<char> {
    seq!['c', 'l', 'a', 's', 's', 'D', 'i', 'a', 'g', 'r', 'a', 'm', '\n']
}

/// The statements: the direction, the default namespace's classes, the other
/// namespaces' blocks, relations, notes.
pub open spec fn statements_text(d: DiagramView) -> Seq<char> {
    let dir = match d.direction {
        Some(x) => direction_text(x),
        None => Seq::empty(),
    };
    dir + default_text(d.namespaces) + blocks_text(d.namespaces) + relations_text(d.relations)
        + notes_text(d.notes)
}

/// The diagram after its header: the `classDiagram` line, then the statements.
pub open spec fn body_text(d: DiagramView) -> Seq<char> {
    kw_class_diagram_line() + statements_text(d)
}

/// The line end that a header's text lacks, if it lacks one.
pub open spec fn header_close(h: Seq<char>) -> Seq<char> {
    if h.len() > 0 && h.last() != '\n' {
        seq!['\n']
    } else {
        Seq::empty()
    }
}

/// The header text between `---` lines, closed by a line end.
pub open spec fn header_text(h: Seq<char>) -> Seq<char> {
    seq!['-', '-', '-', '\n'] + h + header_close(h) + seq!['-', '-', '-', '\n']
}

/// The whole text, with the given header text between `---` lines where there is one.
pub open spec fn diagram_text(header: Option<Seq<char>>, d: DiagramView) -> Seq<char> {
    match header {
        Some(h) => header_text(h) + body_text(d),
        None => body_text(d),
    }
}

fn write_classes(output: &mut String, cs: &Vec<Class>, local: bool)
    ensures
        final(output)@ == old(output)@ + classes_text(classes_view(cs@), local),
{
    let ghost base = output@;
    let ghost cv = classes_view(cs@);
    assert(cv.take(0) =~= Seq::<ClassView>::empty());
    assert(base + classes_text(cv.take(0), local) =~= base);
    let mut i: usize = 0;
    while i < cs.len()
        invariant
            i <= cs.len(),
            cv == classes_view(cs@),
            output@ == base + classes_text(cv.take(i as int), local),
        decreases cs.len() - i,
    {
        let c = &cs[i];
        if local {
            let shown = local_of(&c.name);
            write_class_as(output, shown.as_str(), c);
        } else {
            write_class_as(output, c.name.as_str(), c);
        }
        proof {
            assert(cv.take(i + 1).drop_last() =~= cv.take(i as int));
            assert(cv[i as int] == c@);
            assert(output@ =~= base + classes_text(cv.take(i + 1), local));
        }
        i = i + 1;
    }
    assert(cv.take(cs.len() as int) =~= cv);
}

fn write_default(output: &mut String, ns: &Vec<Namespace>)
    ensures
        final(output)@ == old(output)@ + default_text(namespaces_view(ns@)),
{
    let ghost base = output@;
    let ghost nv = namespaces_view(ns@);
    assert(nv.take(0) =~= Seq::<NamespaceView>::empty());
    assert(base + default_text(nv.take(0)) =~= base);
    let mut i: usize = 0;
    while i < ns.len()
        invariant
            i <= ns.len(),
            nv == namespaces_view(ns@),
            output@ == base + default_text(nv.take(i as int)),
        decreases ns.len() - i,
    {
        let n = &ns[i];
        let ghost before = output@;
        if n.name.as_str().is_empty() {
            write_classes(output, &n.classes, false);
        }
        proof {
            assert(nv.take(i + 1).drop_last() =~= nv.take(i as int));
            assert(nv[i as int] == n@);
            if n.name@.len() != 0 {
                assert(output@ =~= before + Seq::<char>::empty());
            }
            assert(output@ =~= base + default_text(nv.take(i + 1)));
        }
        i = i + 1;
    }
    assert(nv.take(ns.len() as int) =~= nv);
}

fn write_block(output: &mut String, n: &Namespace)
    ensures
        final(output)@ == old(output)@ + block_text(n@),
{
    output.append("namespace ");
    output.append(escape_class_name(n.name.as_str()).as_str());
    output.append(" {\n");
    write_classes(output, &n.classes, true);
    output.append("}\n");
    proof {
        reveal_strlit("namespace ");
        reveal_strlit(" {\n");
        reveal_strlit("}\n");
        assert(output@ =~= old(output)@ + block_text(n@));
    }
}

fn write_blocks(output: &mut String, ns: &Vec<Namespace>)
    ensures
        final(output)@ == old(output)@ + blocks_text(namespaces_view(ns@)),
{
    let ghost base = output@;
    let ghost nv = namespaces_view(ns@);
    assert(nv.take(0) =~= Seq::<NamespaceView>::empty());
    assert(base + blocks_text(nv.take(0)) =~= base);
    let mut i: usize = 0;
    while i < ns.len()
        invariant
            i <= ns.len(),
            nv == namespaces_view(ns@),
            output@ == base + blocks_text(nv.take(i as int)),
        decreases ns.len() - i,
    {
        let n = &ns[i];
        let ghost before = output@;
        if !n.name.as_str().is_empty() {
            write_block(output, n);
        }
        proof {
            assert(nv.take(i + 1).drop_last() =~= nv.take(i as int));
            assert(nv[i as int] == n@);
            if n.name@.len() == 0 {
                assert(output@ =~= before + Seq::<char>::empty());
            }
            assert(output@ =~= base + blocks_text(nv.take(i + 1)));
        }
        i = i + 1;
    }
    assert(nv.take(ns.len() as int) =~= nv);
}

fn write_relations(output: &mut String, rs: &Vec<Relation>)
    ensures
        final(output)@ == old(output)@ + relations_text(relations_view(rs@)),
{
    let ghost base = output@;
    let ghost rv = relations_view(rs@);
    assert(rv.take(0) =~= Seq::<RelationView>::empty());
    assert(base + relations_text(rv.take(0)) =~= base);
    let mut i: usize = 0;
    while i < rs.len()
        invariant
            i <= rs.len(),
            rv == relations_view(rs@),
            output@ == base + relations_text(rv.take(i as int)),
        decreases rs.len() - i,
    {
        serialize_relation(&rs[i], output);
        proof {
            assert(rv.take(i + 1).drop_last() =~= rv.take(i as int));
            assert(rv[i as int] == rs@[i as int]@);
            assert(output@ =~= base + relations_text(rv.take(i + 1)));
        }
        i = i + 1;
    }
    assert(rv.take(rs.len() as int) =~= rv);
}

fn write_notes(output: &mut String, ns: &Vec<Note>)
    ensures
        final(output)@ == old(output)@ + notes_text(notes_view(ns@)),
{
    let ghost base = output@;
    let ghost nv = notes_view(ns@);
    assert(nv.take(0) =~= Seq::<NoteView>::empty());
    assert(base + notes_text(nv.take(0)) =~= base);
    let mut i: usize = 0;
    while i < ns.len()
        invariant
            i <= ns.len(),
            nv == notes_view(ns@),
            output@ == base + notes_text(nv.take(i as int)),
        decreases ns.len() - i,
    {
        serialize_note(&ns[i], output);
        proof {
            assert(nv.take(i + 1).drop_last() =~= nv.take(i as int));
            assert(nv[i as int] == ns@[i as int]@);
            assert(output@ =~= base + notes_text(nv.take(i + 1)));
        }
        i = i + 1;
    }
    assert(nv.take(ns.len() as int) =~= nv);
}

fn write_body(output: &mut String, diagram: &Diagram)
    ensures
        final(output)@ == old(output)@ + body_text(diagram@),
{
    output.append("classDiagram\n");
    match diagram.direction {
        Some(x) => serialize_direction(x, output),
        None => {},
    }
    let ghost mid = output@;
    write_default(output, &diagram.namespaces);
    write_blocks(output, &diagram.namespaces);
    write_relations(output, &diagram.relations);
    write_notes(output, &diagram.notes);
    proof {
        reveal_strlit("classDiagram\n");
        let d = diagram@;
        assert(mid =~= old(output)@ + kw_class_diagram_line() + match d.direction {
            Some(x) => direction_text(x),
            None => Seq::empty(),
        });
        assert(output@ =~= old(output)@ + body_text(d));
    }
}

/// Renders a diagram with the given header text in place of its own header value.
pub fn render_diagram(diagram: &Diagram, header: Option<String>) -> (r: String)
    ensures
        r@ == diagram_text(opt_view(header), diagram@),
{
    let mut output = String::new();
    match &header {
        Some(h) => {
            output.append("---\n");
            output.append(h.as_str());
            let hv = chars_of(h.as_str());
            if hv.len() > 0 && hv[hv.len() - 1] != '\n' {
                output.append("\n");
            }
            output.append("---\n");
            proof {
                reveal_strlit("---\n");
                reveal_strlit("\n");
                assert(output@ =~= header_text(h@));
            }
        },
        None => {
            assert(output@ =~= Seq::<char>::empty());
        },
    }
    let ghost head = output@;
    write_body(&mut output, diagram);
    proof {
        match opt_view(header) {
            Some(h) => {
                assert(output@ =~= header_text(h) + body_text(diagram@));
            },
            None => {
                assert(output@ =~= body_text(diagram@));
            },
        }
    }
    output
}

/// Renders a diagram: its header value re-encoded as YAML (empty where encoding
/// fails), then the statements.
pub fn serialize_diagram(diagram: &Diagram) -> (r: String)
    ensures
        diagram.yaml.is_none() ==> r@ == diagram_text(None, diagram@),
        diagram.yaml.is_some() ==> exists|h: Seq<char>| r@ == diagram_text(Some(h), diagram@),
{
    let header = match &diagram.yaml {
        Some(y) => match write_yaml(y) {
            Ok(text) => Some(text),
            Err(_) => Some(String::new()),
        },
        None => None,
    };
    let r = render_diagram(diagram, header);
    proof {
        if diagram.yaml.is_some() {
            assert(r@ == diagram_text(Some(header.unwrap()@), diagram@));
        }
    }
    r
}

} // verus!
