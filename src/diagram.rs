//! The statement dispatcher and the assembler that folds statements into one
//! diagram, and the entry point that reads a whole text.
use vstd::prelude::*;
use vstd::string::*;
use crate::class::{class_stmt_at, class_stmt_spec, comment_marker, skip_comment_line, skip_comment_line_at};
use crate::header::{read_yaml, split_header, split_header_at, yaml_accepts};
use crate::namespace::{
    direction_at, direction_spec, find_class, member_line_at, member_line_spec, merge_class,
    merge_class_into, namespace_of, namespace_stmt_at, namespace_stmt_spec, note_at, note_spec,
    split_namespace,
};
use crate::relation::{relation_at, relation_spec};
use crate::text::{
    chars_of, has_prefix, lemma_skip_skip, scanned, skip_ws, skip_ws_at, starts_with, substring,
};
use crate::types::{
    Class, ClassView, Diagram, DiagramView, Direction, Member, MemberView, Namespace,
    NamespaceView, Note, NoteView, Relation, RelationView, classes_view, members_view,
    namespaces_view, notes_view, relations_view,
};

verus! {

/// One recognized top-level statement.
#[derive(Debug)]
pub enum Stmt {
    Class(Class),
    Namespace(Namespace),
    /// `Target : member`
    Member { target: String, member: Member },
    Relation(Relation),
    Note(Note),
    Direction(Direction),
}

pub enum StmtView {
    Class(ClassView),
    Namespace(NamespaceView),
    Member(Seq<char>, MemberView),
    Relation(RelationView),
    Note(NoteView),
    Direction(Direction),
}

impl View for Stmt {
    type V = StmtView;

    open spec fn view(&self) -> StmtView {
        match self {
            Stmt::Class(c) => StmtView::Class(c@),
            Stmt::Namespace(n) => StmtView::Namespace(n@),
            Stmt::Member { target, member } => StmtView::Member(target@, member@),
            Stmt::Relation(r) => StmtView::Relation(r@),
            Stmt::Note(n) => StmtView::Note(n@),
            Stmt::Direction(d) => StmtView::Direction(*d),
        }
    }
}

/// Why a text is not a diagram.
#[derive(Debug)]
pub enum MermaidParseError {
    /// The header's content is not well-formed YAML.
    SerdeYml(serde_yml::Error),
    /// The `classDiagram` line is missing.
    ExpectedClassDiagram,
    /// No statement can be read at this character offset of the text.
    ExpectedStmt { position: usize },
}

/// The same error under its short name.
pub type ParseError = MermaidParseError;

/// Index of the first namespace in `ns`, from `i` on, named `name`; -1 if none.
pub open spec fn find_ns(ns: Seq<NamespaceView>, name: Seq<char>, i: int) -> int
    decreases ns.len() - i,
{
    if i < 0 || i >= ns.len() {
        -1
    } else if ns[i].name == name {
        i
    } else {
        find_ns(ns, name, i + 1)
    }
}

/// `ns` with a namespace `name` appended unless it has one.
pub open spec fn ensure_ns(ns: Seq<NamespaceView>, name: Seq<char>) -> Seq<NamespaceView> {
    if find_ns(ns, name, 0) >= 0 {
        ns
    } else {
        ns.push(NamespaceView { name: name, classes: Seq::empty() })
    }
}

/// Merges `members` into the class with qualified name `q`: in the namespace before
/// its last `::` (created on demand), under the local name after it.
pub open spec fn add_class(d: DiagramView, q: Seq<char>, members: Seq<MemberView>) -> DiagramView {
    let ns = ensure_ns(d.namespaces, namespace_of(q));
    let k = find_ns(ns, namespace_of(q), 0);
    DiagramView {
        namespaces: ns.update(
            k,
            NamespaceView { name: ns[k].name, classes: merge_class(ns[k].classes, q, members) },
        ),
        ..d
    }
}

/// `ns::name`
pub open spec fn qualify(ns: Seq<char>, name: Seq<char>) -> Seq<char> {
    ns + seq![':', ':'] + name
}

/// Adds the classes of a namespace block, from the `i`-th on, under their qualified names.
pub open spec fn add_block(d: DiagramView, ns: Seq<char>, cs: Seq<ClassView>, i: int) -> DiagramView
    decreases cs.len() - i,
{
    if i < 0 || i >= cs.len() {
        d
    } else {
        add_block(add_class(d, qualify(ns, cs[i].name), cs[i].members), ns, cs, i + 1)
    }
}

/// What one statement does to the diagram being built.
#[verifier::opaque]
pub open spec fn apply_spec(d: DiagramView, st: StmtView) -> DiagramView {
    match st {
        StmtView::Class(c) => add_class(d, c.name, c.members),
        StmtView::Namespace(n) => add_block(
            DiagramView { namespaces: ensure_ns(d.namespaces, n.name), ..d },
            n.name,
            n.classes,
            0,
        ),
        StmtView::Member(t, m) => add_class(d, t, seq![m]),
        StmtView::Relation(r) => DiagramView { relations: d.relations.push(r), ..d },
        StmtView::Note(n) => DiagramView { notes: d.notes.push(n), ..d },
        StmtView::Direction(x) => DiagramView { direction: Some(x), ..d },
    }
}

/// One statement at the start of `s`, trying in turn: class declaration, namespace
/// block, member line, relation, note, direction.
#[verifier::opaque]
pub open spec fn stmt_spec(s: Seq<char>) -> Option<(StmtView, Seq<char>)> {
    match class_stmt_spec(s) {
        Some((c, r)) => Some((StmtView::Class(c), r)),
        None => match namespace_stmt_spec(s) {
            Some((n, r)) => Some((StmtView::Namespace(n), r)),
            None => match member_line_spec(s) {
                Some((t, m, r)) => Some((StmtView::Member(t, m), r)),
                None => match relation_spec(s) {
                    Some((x, r)) => Some((StmtView::Relation(x), r)),
                    None => match note_spec(s) {
                        Some((n, r)) => Some((StmtView::Note(n), r)),
                        None => match direction_spec(s) {
                            Some((x, r)) => Some((StmtView::Direction(x), r)),
                            None => None,
                        },
                    },
                },
            },
        },
    }
}

/// Folds the statements of `s` into `d`; comment lines are passed over. On failure,
/// gives the text from the statement that could not be read.
#[verifier::opaque]
pub open spec fn statements(s: Seq<char>, d: DiagramView) -> Result<DiagramView, Seq<char>>
    decreases s.len(),
{
    let t = skip_ws(s);
    if t.len() == 0 {
        Ok(d)
    } else if starts_with(t, comment_marker()) {
        let r = skip_comment_line(t);
        if r.len() < s.len() {
            statements(r, d)
        } else {
            Err(t)
        }
    } else {
        match stmt_spec(t) {
            Some((st, r)) => if r.len() < s.len() {
                statements(r, apply_spec(d, st))
            } else {
                Err(t)
            },
            None => Err(t),
        }
    }
}

/// A comment line with whitespace around it: the rest after it, or `None`.
#[verifier::opaque]
pub open spec fn comment_spec(s: Seq<char>) -> Option<Seq<char>> {
    let t = skip_ws(s);
    if starts_with(t, comment_marker()) {
        let r = skip_comment_line(t);
        let n = if starts_with(r, seq!['\r', '\n']) {
            2int
        } else if starts_with(r, seq!['\n']) {
            1int
        } else {
            0int
        };
        Some(skip_ws(r.skip(n)))
    } else {
        None
    }
}

/// The comment lines before the `classDiagram` line passed over.
#[verifier::opaque]
pub open spec fn preamble(s: Seq<char>) -> Seq<char>
    decreases s.len(),
{
    match comment_spec(s) {
        Some(r) => if r.len() < s.len() {
            preamble(r)
        } else {
            s
        },
        None => s,
    }
}

/// The diagram-kind line, `classDiagram` or `classDiagram-v2`, with whitespace around.
#[verifier::opaque]
pub open spec fn class_diagram_spec(s: Seq<char>) -> Option<Seq<char>> {
    let t = skip_ws(s);
    if starts_with(t, seq!['c', 'l', 'a', 's', 's', 'D', 'i', 'a', 'g', 'r', 'a', 'm', '-', 'v', '2']) {
        Some(skip_ws(t.skip(15)))
    } else if starts_with(t, seq!['c', 'l', 'a', 's', 's', 'D', 'i', 'a', 'g', 'r', 'a', 'm']) {
        Some(skip_ws(t.skip(12)))
    } else {
        None
    }
}

/// The diagram that parsing starts from: only the (empty) default namespace.
pub open spec fn empty_diagram() -> DiagramView {
    DiagramView {
        namespaces: seq![NamespaceView { name: Seq::empty(), classes: Seq::empty() }],
        relations: Seq::empty(),
        notes: Seq::empty(),
        direction: None,
        has_header: false,
    }
}

/// What reading a text comes to.
pub enum ParseOutcome {
    Parsed(DiagramView),
    BadHeader,
    NoClassDiagram,
    /// At this character offset of the text.
    BadStatement(int),
}

/// The meaning of a whole text: header first, then the comment lines, the
/// `classDiagram` line, and the statements up to the end of the text.
pub open spec fn parse_spec(src: Seq<char>) -> ParseOutcome {
    let (h, body) = split_header(src);
    if h.is_some() && !yaml_accepts(h.unwrap()) {
        ParseOutcome::BadHeader
    } else {
        match class_diagram_spec(preamble(body)) {
            None => ParseOutcome::NoClassDiagram,
            Some(r) => match statements(r, empty_diagram()) {
                Ok(d) => ParseOutcome::Parsed(DiagramView { has_header: h.is_some(), ..d }),
                Err(rest) => ParseOutcome::BadStatement(src.len() - rest.len()),
            },
        }
    }
}

pub open spec fn outcome_of(r: Result<Diagram, MermaidParseError>) -> ParseOutcome {
    match r {
        Ok(d) => ParseOutcome::Parsed(d@),
        Err(MermaidParseError::SerdeYml(_)) => ParseOutcome::BadHeader,
        Err(MermaidParseError::ExpectedClassDiagram) => ParseOutcome::NoClassDiagram,
        Err(MermaidParseError::ExpectedStmt { position }) => ParseOutcome::BadStatement(position as int),
    }
}

fn find_ns_at(ns: &Vec<Namespace>, name: &String) -> (r: Option<usize>)
    ensures
        match r {
            Some(i) => i < ns.len() && find_ns(namespaces_view(ns@), name@, 0) == i as int,
            None => find_ns(namespaces_view(ns@), name@, 0) == -1,
        },
{
    let mut i: usize = 0;
    while i < ns.len()
        invariant
            i <= ns.len(),
            find_ns(namespaces_view(ns@), name@, 0) == find_ns(namespaces_view(ns@), name@, i as int),
        decreases ns.len() - i,
    {
        if ns[i].name == *name {
            return Some(i);
        }
        i = i + 1;
    }
    None
}

proof fn lemma_find_ns_push(ns: Seq<NamespaceView>, x: NamespaceView, i: int)
    requires
        0 <= i <= ns.len(),
        find_ns(ns, x.name, i) == -1,
    ensures
        find_ns(ns.push(x), x.name, i) == ns.len(),
    decreases ns.len() - i,
{
    if i < ns.len() {
        lemma_find_ns_push(ns, x, i + 1);
    }
}

/// Makes sure a namespace `name` exists; gives its index.
fn ensure_ns_at(ns: &mut Vec<Namespace>, name: String) -> (k: usize)
    ensures
        namespaces_view(final(ns)@) == ensure_ns(namespaces_view(old(ns)@), name@),
        k < final(ns).len(),
        find_ns(namespaces_view(final(ns)@), name@, 0) == k as int,
{
    match find_ns_at(ns, &name) {
        Some(k) => k,
        None => {
            let ghost old_ns = ns@;
            let n = Namespace { name, classes: Vec::new() };
            ns.push(n);
            proof {
                assert(n@.classes =~= Seq::<ClassView>::empty());
                assert(namespaces_view(ns@) =~= namespaces_view(old_ns).push(n@));
                lemma_find_ns_push(namespaces_view(old_ns), n@, 0);
            }
            ns.len() - 1
        },
    }
}

/// Merges `members` into the class with qualified name `q` (see `add_class`).
fn add_class_at(d: &mut Diagram, q: String, members: Vec<Member>)
    ensures
        final(d)@ == add_class(old(d)@, q@, members_view(members@)),
        final(d).yaml == old(d).yaml,
{
    let (ns_name, _) = split_namespace(q.as_str());
    let k = ensure_ns_at(&mut d.namespaces, ns_name);
    let ghost mid = d.namespaces@;
    let mut n = d.namespaces.remove(k);
    merge_class_into(&mut n.classes, q, members);
    d.namespaces.insert(k, n);
    proof {
        let nv = namespaces_view(mid);
        assert(namespaces_view(d.namespaces@) =~= nv.update(
            k as int,
            NamespaceView { name: nv[k as int].name, classes: merge_class(nv[k as int].classes, q@, members_view(members@)) },
        ));
    }
}

/// Applies one statement to the diagram being built.
pub fn apply_stmt(stmt: Stmt, d: &mut Diagram)
    ensures
        final(d)@ == apply_spec(old(d)@, stmt@),
        final(d).yaml == old(d).yaml,
{
    reveal(apply_spec);
    match stmt {
        Stmt::Class(c) => add_class_at(d, c.name, c.members),
        Stmt::Namespace(n) => {
            let name = n.name;
            let ghost cs0 = classes_view(n.classes@);
            let _ = ensure_ns_at(&mut d.namespaces, name.clone());
            let ghost d0 = d@;
            let ghost y0 = d.yaml;
            let mut rest = n.classes;
            let n_len = rest.len();
            assert(cs0.len() == n_len);
            let mut i: usize = 0;
            while rest.len() > 0
                invariant
                    i <= cs0.len(),
                    cs0.len() <= usize::MAX,
                    d.yaml == y0,
                    classes_view(rest@) == cs0.skip(i as int),
                    add_block(d0, name@, cs0, 0) == add_block(d@, name@, cs0, i as int),
                decreases rest.len(),
            {
                let ghost before = rest@;
                assert(classes_view(before).len() == before.len());
                assert(i < cs0.len());
                let c = rest.remove(0);
                assert(c == before[0]);
                assert(classes_view(before)[0] == cs0[i as int]);
                let mut q = name.clone();
                q.append("::");
                q.append(c.name.as_str());
                proof {
                    reveal_strlit("::");
                    assert(rest@ =~= before.skip(1));
                    assert(classes_view(rest@) =~= classes_view(before).skip(1));
                    assert(classes_view(rest@) =~= cs0.skip(i + 1));
                    assert(c@ == cs0[i as int]);
                    assert(q@ =~= name@ + seq![':', ':'] + c.name@);
                }
                add_class_at(d, q, c.members);
                i = i + 1;
            }
        },
        Stmt::Member { target, member } => {
            let ms = vec![member];
            assert(members_view(ms@) =~= seq![member@]);
            add_class_at(d, target, ms);
        },
        Stmt::Relation(r) => {
            let ghost old_rs = d.relations@;
            d.relations.push(r);
            assert(relations_view(d.relations@) =~= relations_view(old_rs).push(r@));
        },
        Stmt::Note(n) => {
            let ghost old_ns = d.notes@;
            d.notes.push(n);
            assert(notes_view(d.notes@) =~= notes_view(old_ns).push(n@));
        },
        Stmt::Direction(x) => {
            d.direction = Some(x);
        },
    }
}

impl Diagram {
    /// The namespace with this name (the empty name for the default one).
    pub fn namespace(&self, name: &str) -> (r: Option<&Namespace>)
        ensures
            match r {
                Some(n) => {
                    let i = find_ns(self@.namespaces, name@, 0);
                    0 <= i < self@.namespaces.len() && n@ == self@.namespaces[i]
                },
                None => find_ns(self@.namespaces, name@, 0) == -1,
            },
    {
        let key = String::from_str(name);
        match find_ns_at(&self.namespaces, &key) {
            Some(i) => Some(&self.namespaces[i]),
            None => None,
        }
    }
}

impl Namespace {
    /// The class with this local name.
    pub fn class(&self, local: &str) -> (r: Option<&Class>)
        ensures
            match r {
                Some(c) => {
                    let i = find_class(classes_view(self.classes@), local@, 0);
                    0 <= i < self.classes@.len() && c@ == classes_view(self.classes@)[i]
                },
                None => find_class(classes_view(self.classes@), local@, 0) == -1,
            },
    {
        let key = String::from_str(local);
        match crate::namespace::find_class_at(&self.classes, &key) {
            Some(i) => Some(&self.classes[i]),
            None => None,
        }
    }

    /// Is there a class with this local name?
    pub fn contains_class(&self, local: &str) -> (r: bool)
        ensures
            r == (find_class(classes_view(self.classes@), local@, 0) != -1),
    {
        self.class(local).is_some()
    }
}

fn stmt_at(v: &Vec<char>, i: usize) -> (r: Option<(Stmt, usize)>)
    requires
        i <= v.len(),
    ensures
        scanned(v@, i as int, r, stmt_spec(v@.skip(i as int))),
{
    reveal(stmt_spec);
    if let Some((c, j)) = class_stmt_at(v, i) {
        return Some((Stmt::Class(c), j));
    }
    if let Some((n, j)) = namespace_stmt_at(v, i) {
        return Some((Stmt::Namespace(n), j));
    }
    if let Some((target, member, j)) = member_line_at(v, i) {
        return Some((Stmt::Member { target, member }, j));
    }
    if let Some((x, j)) = relation_at(v, i) {
        return Some((Stmt::Relation(x), j));
    }
    if let Some((n, j)) = note_at(v, i) {
        return Some((Stmt::Note(n), j));
    }
    if let Some((x, j)) = direction_at(v, i) {
        return Some((Stmt::Direction(x), j));
    }
    None
}

pub(crate) fn comment_at(v: &Vec<char>, i: usize) -> (r: Option<usize>)
    requires
        i <= v.len(),
    ensures
        match r {
            Some(j) => i <= j <= v.len() && comment_spec(v@.skip(i as int)) == Some(v@.skip(j as int)),
            None => comment_spec(v@.skip(i as int)).is_none(),
        },
{
    reveal(comment_spec);
    let t = skip_ws_at(v, i);
    let marker = vec!['%', '%'];
    assert(marker@ =~= comment_marker());
    if !has_prefix(v, t, &marker) {
        return None;
    }
    let r = skip_comment_line_at(v, t);
    let crnl = vec!['\r', '\n'];
    let nl = vec!['\n'];
    assert(crnl@ =~= seq!['\r', '\n']);
    assert(nl@ =~= seq!['\n']);
    let n: usize = if has_prefix(v, r, &crnl) {
        2
    } else if has_prefix(v, r, &nl) {
        1
    } else {
        0
    };
    proof {
        lemma_skip_skip(v@, r as int, n as int);
    }
    Some(skip_ws_at(v, r + n))
}

fn preamble_at(v: &Vec<char>, i: usize) -> (j: usize)
    requires
        i <= v.len(),
    ensures
        i <= j <= v.len(),
        v@.skip(j as int) == preamble(v@.skip(i as int)),
{
    reveal(preamble);
    let mut j = i;
    loop
        invariant
            i <= j <= v.len(),
            preamble(v@.skip(i as int)) == preamble(v@.skip(j as int)),
        decreases v.len() - j,
    {
        proof {
            reveal(preamble);
        }
        match comment_at(v, j) {
            Some(k) => {
                if k <= j {
                    return j;
                }
                j = k;
            },
            None => return j,
        }
    }
}

pub(crate) fn class_diagram_at(v: &Vec<char>, i: usize) -> (r: Option<usize>)
    requires
        i <= v.len(),
    ensures
        match r {
            Some(j) => i <= j <= v.len() && class_diagram_spec(v@.skip(i as int)) == Some(v@.skip(j as int)),
            None => class_diagram_spec(v@.skip(i as int)).is_none(),
        },
{
    reveal(class_diagram_spec);
    let t = skip_ws_at(v, i);
    let v2 = vec!['c', 'l', 'a', 's', 's', 'D', 'i', 'a', 'g', 'r', 'a', 'm', '-', 'v', '2'];
    let v1 = vec!['c', 'l', 'a', 's', 's', 'D', 'i', 'a', 'g', 'r', 'a', 'm'];
    assert(v2@ =~= seq!['c', 'l', 'a', 's', 's', 'D', 'i', 'a', 'g', 'r', 'a', 'm', '-', 'v', '2']);
    assert(v1@ =~= seq!['c', 'l', 'a', 's', 's', 'D', 'i', 'a', 'g', 'r', 'a', 'm']);
    if has_prefix(v, t, &v2) {
        proof {
            lemma_skip_skip(v@, t as int, 15);
        }
        Some(skip_ws_at(v, t + 15))
    } else if has_prefix(v, t, &v1) {
        proof {
            lemma_skip_skip(v@, t as int, 12);
        }
        Some(skip_ws_at(v, t + 12))
    } else {
        None
    }
}

/// Reads a whole diagram text: an optional header, comment lines, the
/// `classDiagram` line, then statements up to the end of the text.
pub fn parse_mermaid(source: &str) -> (r: Result<Diagram, MermaidParseError>)
    ensures
        outcome_of(r) == parse_spec(source@),
{
    let v = chars_of(source);
    let (h, b) = split_header_at(&v);
    let yaml = match h {
        Some((a, e)) => {
            let text = substring(&v, a, e);
            match read_yaml(text.as_str()) {
                Ok(y) => Some(y),
                Err(err) => return Err(MermaidParseError::SerdeYml(err)),
            }
        },
        None => None,
    };
    let b1 = preamble_at(&v, b);
    let start = match class_diagram_at(&v, b1) {
        Some(j) => j,
        None => return Err(MermaidParseError::ExpectedClassDiagram),
    };
    let default_ns = Namespace { name: String::new(), classes: Vec::new() };
    proof {
        assert(default_ns@.name =~= Seq::<char>::empty());
        assert(default_ns@.classes =~= Seq::<ClassView>::empty());
    }
    let mut d = Diagram {
        namespaces: vec![default_ns],
        relations: Vec::new(),
        notes: Vec::new(),
        direction: None,
        yaml: None,
    };
    proof {
        assert(d@.namespaces =~= empty_diagram().namespaces);
        assert(d@.relations =~= empty_diagram().relations);
        assert(d@.notes =~= empty_diagram().notes);
        assert(d@ == empty_diagram());
    }
    match statements_at(&v, start, &mut d) {
        Ok(()) => {
            d.yaml = yaml;
            Ok(d)
        },
        Err(p) => Err(MermaidParseError::ExpectedStmt { position: p }),
    }
}

/// Folds the statements from `start` on into `d`; on failure gives the offset of
/// the statement that could not be read.
fn statements_at(v: &Vec<char>, start: usize, d: &mut Diagram) -> (r: Result<(), usize>)
    requires
        start <= v.len(),
        old(d).yaml.is_none(),
    ensures
        final(d).yaml.is_none(),
        match r {
            Ok(()) => statements(v@.skip(start as int), old(d)@) == Ok::<DiagramView, Seq<char>>(final(d)@),
            Err(p) => p <= v.len() && statements(v@.skip(start as int), old(d)@) == Err::<DiagramView, Seq<char>>(v@.skip(p as int)),
        },
{
    reveal(statements);
    let mut j = start;
    loop
        invariant
            start <= j <= v.len(),
            d.yaml.is_none(),
            statements(v@.skip(start as int), old(d)@) == statements(v@.skip(j as int), d@),
        decreases v.len() - j,
    {
        proof {
            reveal(statements);
        }
        let t = skip_ws_at(v, j);
        if t == v.len() {
            return Ok(());
        }
        let marker = vec!['%', '%'];
        assert(marker@ =~= comment_marker());
        if has_prefix(v, t, &marker) {
            let k = skip_comment_line_at(v, t);
            if k <= j {
                return Err(t);
            }
            j = k;
        } else {
            match stmt_at(v, t) {
                Some((st, k)) => {
                    if k <= j {
                        return Err(t);
                    }
                    apply_stmt(st, d);
                    j = k;
                },
                None => return Err(t),
            }
        }
    }
}

/// Reads a whole diagram text (see `parse_mermaid`).
pub fn parse(source: &str) -> (r: Result<Diagram, ParseError>)
    ensures
        outcome_of(r) == parse_spec(source@),
{
    parse_mermaid(source)
}

} // verus!
