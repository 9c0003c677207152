//! The diagram's data model, and the mathematical view of each type that the
//! contracts speak of.
use vstd::prelude::*;

verus! {

/// Name of the unnamed, default namespace.
pub const DEFAULT_NAMESPACE: &'static str = "";

/// Direction of the diagram layout.
#[derive(Debug, Clone, Copy, PartialEq, Eq, Structural)]
pub enum Direction {
    /// `TB` or `TD`
    TopBottom,
    /// `BT`
    BottomTop,
    /// `RL`
    RightLeft,
    /// `LR`
    LeftRight,
}

/// How a type was written next to a name.
#[derive(Debug, Clone, Copy, PartialEq, Eq, Structural)]
pub enum TypeNotation {
    /// `Type name`
    Prefix,
    /// `name: Type` (for a return type: after the parameter list)
    Postfix,
    /// no type written
    Omitted,
}

/// Visibility glyph of a member.
#[derive(Debug, Clone, Copy, PartialEq, Eq, Structural)]
pub enum Visibility {
    /// `+`
    Public,
    /// `-`
    Private,
    /// `#`
    Protected,
    /// `~`
    Package,
    /// no glyph
    Unspecified,
}

/// The visibility that a glyph stands for; any other character stands for none.
pub open spec fn visibility_of(c: char) -> Visibility {
    if c == '+' {
        Visibility::Public
    } else if c == '-' {
        Visibility::Private
    } else if c == '#' {
        Visibility::Protected
    } else if c == '~' {
        Visibility::Package
    } else {
        Visibility::Unspecified
    }
}

impl From<char> for Visibility {
    fn from(c: char) -> (r: Visibility) {
        match c {
            '+' => Visibility::Public,
            '-' => Visibility::Private,
            '#' => Visibility::Protected,
            '~' => Visibility::Package,
            _ => Visibility::Unspecified,
        }
    }
}

impl vstd::std_specs::convert::FromSpecImpl<char> for Visibility {
    open spec fn obeys_from_spec() -> bool {
        true
    }

    open spec fn from_spec(c: char) -> Visibility {
        visibility_of(c)
    }
}

/// Kind of a relation, each with the line style that its arrow has.
#[derive(Debug, Clone, Copy, PartialEq, Eq, Structural)]
pub enum RelationKind {
    /// `--|>` / `<|--`
    Inheritance,
    /// `--*` / `*--`
    Composition,
    /// `--o` / `o--`
    Aggregation,
    /// `-->` / `<--`
    Association,
    /// `--`
    SolidLink,
    /// `..>` / `<..`
    Dependency,
    /// `..|>`
    Realization,
    /// `..`
    DashLink,
}

/// One parameter of a method.
#[derive(Debug, Clone, PartialEq, Eq)]
pub struct Parameter {
    pub name: String,
    /// `None` where no type was written.
    pub data_type: Option<String>,
    pub type_notation: TypeNotation,
}

/// What only an attribute has.
#[derive(Debug, Clone, PartialEq, Eq)]
pub struct Attribute {
    pub visibility: Visibility,
    pub name: String,
    pub data_type: Option<String>,
    /// `$`
    pub is_static: bool,
    pub type_notation: TypeNotation,
}

/// What only a method has.
#[derive(Debug, Clone, PartialEq, Eq)]
pub struct Method {
    pub visibility: Visibility,
    pub name: String,
    pub parameters: Vec<Parameter>,
    pub return_type: Option<String>,
    /// `$`
    pub is_static: bool,
    /// `*`
    pub is_abstract: bool,
    pub return_type_notation: TypeNotation,
}

/// A member inside a class box.
#[derive(Debug, Clone, PartialEq, Eq)]
pub enum Member {
    Attribute(Attribute),
    Method(Method),
}

/// A class: its name is qualified with its namespace (`ns::Local`) outside the
/// default namespace.
#[derive(Debug, Clone, PartialEq, Eq)]
pub struct Class {
    pub name: String,
    /// Reserved: no statement fills it yet.
    pub annotations: Vec<String>,
    pub members: Vec<Member>,
}

/// An edge between two classes, always read from `tail` to `head`.
#[derive(Debug, Clone, PartialEq, Eq)]
pub struct Relation {
    pub tail: String,
    pub head: String,
    pub kind: RelationKind,
    pub cardinality_tail: Option<String>,
    pub cardinality_head: Option<String>,
    pub label: Option<String>,
}

/// A note: free-floating, or attached to a class.
#[derive(Debug, Clone, PartialEq, Eq)]
pub struct Note {
    pub text: String,
    pub target_class: Option<String>,
}

/// A namespace and its classes. Within a namespace no two classes share a local
/// name (the part of the name after its last `::`).
#[derive(Debug, Clone, PartialEq, Eq)]
pub struct Namespace {
    pub name: String,
    pub classes: Vec<Class>,
}

impl View for Direction {
    type V = Direction;

    open spec fn view(&self) -> Direction {
        *self
    }
}

impl View for TypeNotation {
    type V = TypeNotation;

    open spec fn view(&self) -> TypeNotation {
        *self
    }
}

impl View for Visibility {
    type V = Visibility;

    open spec fn view(&self) -> Visibility {
        *self
    }
}

impl View for RelationKind {
    type V = RelationKind;

    open spec fn view(&self) -> RelationKind {
        *self
    }
}

/// A whole diagram. Namespace names are unique; the default namespace has the empty
/// name. The header, where there was one, is kept as the YAML value it was read as.
#[derive(Debug, Clone)]
pub struct Diagram {
    pub namespaces: Vec<Namespace>,
    pub relations: Vec<Relation>,
    pub notes: Vec<Note>,
    pub direction: Option<Direction>,
    pub yaml: Option<serde_yml::Value>,
}

pub open spec fn opt_view(o: Option<String>) -> Option<Seq<char>> {
    match o {
        Some(s) => Some(s@),
        None => None,
    }
}

pub struct ParameterView {
    pub name: Seq<char>,
    pub data_type: Option<Seq<char>>,
    pub type_notation: TypeNotation,
}

pub struct AttributeView {
    pub visibility: Visibility,
    pub name: Seq<char>,
    pub data_type: Option<Seq<char>>,
    pub is_static: bool,
    pub type_notation: TypeNotation,
}

pub struct MethodView {
    pub visibility: Visibility,
    pub name: Seq<char>,
    pub parameters: Seq<ParameterView>,
    pub return_type: Option<Seq<char>>,
    pub is_static: bool,
    pub is_abstract: bool,
    pub return_type_notation: TypeNotation,
}

pub enum MemberView {
    Attribute(AttributeView),
    Method(MethodView),
}

pub struct ClassView {
    pub name: Seq<char>,
    pub annotations: Seq<Seq<char>>,
    pub members: Seq<MemberView>,
}

pub struct RelationView {
    pub tail: Seq<char>,
    pub head: Seq<char>,
    pub kind: RelationKind,
    pub cardinality_tail: Option<Seq<char>>,
    pub cardinality_head: Option<Seq<char>>,
    pub label: Option<Seq<char>>,
}

pub struct NoteView {
    pub text: Seq<char>,
    pub target_class: Option<Seq<char>>,
}

pub struct NamespaceView {
    pub name: Seq<char>,
    pub classes: Seq<ClassView>,
}

pub struct DiagramView {
    pub namespaces: Seq<NamespaceView>,
    pub relations: Seq<RelationView>,
    pub notes: Seq<NoteView>,
    pub direction: Option<Direction>,
    pub has_header: bool,
}

impl View for Parameter {
    type V = ParameterView;

    open spec fn view(&self) -> ParameterView {
        ParameterView {
            name: self.name@,
            data_type: opt_view(self.data_type),
            type_notation: self.type_notation,
        }
    }
}

impl View for Attribute {
    type V = AttributeView;

    open spec fn view(&self) -> AttributeView {
        AttributeView {
            visibility: self.visibility,
            name: self.name@,
            data_type: opt_view(self.data_type),
            is_static: self.is_static,
            type_notation: self.type_notation,
        }
    }
}

pub open spec fn params_view(ps: Seq<Parameter>) -> Seq<ParameterView> {
    ps.map_values(|p: Parameter| p@)
}

impl View for Method {
    type V = MethodView;

    open spec fn view(&self) -> MethodView {
        MethodView {
            visibility: self.visibility,
            name: self.name@,
            parameters: params_view(self.parameters@),
            return_type: opt_view(self.return_type),
            is_static: self.is_static,
            is_abstract: self.is_abstract,
            return_type_notation: self.return_type_notation,
        }
    }
}

impl View for Member {
    type V = MemberView;

    open spec fn view(&self) -> MemberView {
        match self {
            Member::Attribute(a) => MemberView::Attribute(a@),
            Member::Method(m) => MemberView::Method(m@),
        }
    }
}

pub open spec fn members_view(ms: Seq<Member>) -> Seq<MemberView> {
    ms.map_values(|m: Member| m@)
}

pub open spec fn strings_view(ss: Seq<String>) -> Seq<Seq<char>> {
    ss.map_values(|s: String| s@)
}

impl View for Class {
    type V = ClassView;

    open spec fn view(&self) -> ClassView {
        ClassView {
            name: self.name@,
            annotations: strings_view(self.annotations@),
            members: members_view(self.members@),
        }
    }
}

impl View for Relation {
    type V = RelationView;

    open spec fn view(&self) -> RelationView {
        RelationView {
            tail: self.tail@,
            head: self.head@,
            kind: self.kind,
            cardinality_tail: opt_view(self.cardinality_tail),
            cardinality_head: opt_view(self.cardinality_head),
            label: opt_view(self.label),
        }
    }
}

impl View for Note {
    type V = NoteView;

    open spec fn view(&self) -> NoteView {
        NoteView { text: self.text@, target_class: opt_view(self.target_class) }
    }
}

pub open spec fn classes_view(cs: Seq<Class>) -> Seq<ClassView> {
    cs.map_values(|c: Class| c@)
}

impl View for Namespace {
    type V = NamespaceView;

    open spec fn view(&self) -> NamespaceView {
        NamespaceView { name: self.name@, classes: classes_view(self.classes@) }
    }
}

pub open spec fn namespaces_view(ns: Seq<Namespace>) -> Seq<NamespaceView> {
    ns.map_values(|n: Namespace| n@)
}

pub open spec fn relations_view(rs: Seq<Relation>) -> Seq<RelationView> {
    rs.map_values(|r: Relation| r@)
}

pub open spec fn notes_view(ns: Seq<Note>) -> Seq<NoteView> {
    ns.map_values(|n: Note| n@)
}

impl View for Diagram {
    type V = DiagramView;

    open spec fn view(&self) -> DiagramView {
        DiagramView {
            namespaces: namespaces_view(self.namespaces@),
            relations: relations_view(self.relations@),
            notes: notes_view(self.notes@),
            direction: self.direction,
            has_header: self.yaml.is_some(),
        }
    }
}

} // verus!
