use mermaid_parser::{
    class_name, class_visibility, escape_class_name, frontmatter, frontmatter_context, parse,
    parse_mermaid, relation_stmt, serialize_diagram, serialize_member, split_namespace,
    strip_backticks, visibility_symbol, Attribute, Diagram, Direction, Member, MermaidParseError,
    Relation, RelationKind, Stmt, TypeNotation, Visibility, DEFAULT_NAMESPACE,
};

fn reparse(d: &Diagram) -> Diagram {
    parse(&serialize_diagram(d)).expect("rendered text reads back")
}

fn assert_same(d1: &Diagram, d2: &Diagram) {
    assert_eq!(d1.namespaces, d2.namespaces);
    assert_eq!(d1.relations, d2.relations);
    assert_eq!(d1.notes, d2.notes);
    assert_eq!(d1.direction, d2.direction);
}

fn only_relation(src: &str) -> Relation {
    let (rest, stmt) = relation_stmt(src).expect("a relation");
    assert!(rest.is_empty());
    match stmt {
        Stmt::Relation(r) => r,
        _ => panic!("expected a relation"),
    }
}

#[test]
fn single_class_declaration() {
    let d = parse("classDiagram\nclass Animal\n").unwrap();
    let default = d.namespace(DEFAULT_NAMESPACE).unwrap();
    assert_eq!(default.classes.len(), 1);
    let animal = default.class("Animal").unwrap();
    assert_eq!(animal.name, "Animal");
    assert!(animal.members.is_empty());
    assert!(d.relations.is_empty());
    assert!(d.notes.is_empty());
    assert_eq!(d.direction, None);
    assert!(d.yaml.is_none());
}

#[test]
fn relation_with_cardinalities_and_label() {
    let d = parse("classDiagram\nclass A\nclass B\nA \"1\" --> \"*\" B : uses\n").unwrap();
    assert_eq!(d.relations.len(), 1);
    let r = &d.relations[0];
    assert_eq!(r.tail, "A");
    assert_eq!(r.head, "B");
    assert_eq!(r.kind, RelationKind::Association);
    assert_eq!(r.cardinality_tail, Some("1".to_string()));
    assert_eq!(r.cardinality_head, Some("*".to_string()));
    assert_eq!(r.label, Some("uses".to_string()));
}

#[test]
fn attribute_prefix_and_postfix() {
    let d = parse("classDiagram\nclass Test\nTest : +int x\nTest : +x: int\n").unwrap();
    let test = d.namespace("").unwrap().class("Test").unwrap();
    let prefix = Member::Attribute(Attribute {
        visibility: Visibility::Public,
        name: "x".into(),
        data_type: Some("int".into()),
        is_static: false,
        type_notation: TypeNotation::Prefix,
    });
    let postfix = Member::Attribute(Attribute {
        visibility: Visibility::Public,
        name: "x".into(),
        data_type: Some("int".into()),
        is_static: false,
        type_notation: TypeNotation::Postfix,
    });
    assert_eq!(test.members, vec![prefix, postfix]);
}

#[test]
fn namespace_block_qualifies_classes() {
    let d = parse("classDiagram\nnamespace Vehicles { class Car\nCar : +speed: int }").unwrap();
    let vehicles = d.namespace("Vehicles").expect("namespace Vehicles");
    let car = vehicles.class("Car").expect("class Car");
    assert_eq!(car.name, "Vehicles::Car");
    assert_eq!(car.members.len(), 1);
    match &car.members[0] {
        Member::Attribute(a) => {
            assert_eq!(a.name, "speed");
            assert_eq!(a.data_type, Some("int".to_string()));
        }
        _ => panic!("expected an attribute"),
    }
    assert!(d.namespace(DEFAULT_NAMESPACE).unwrap().classes.is_empty());
}

#[test]
fn direction_survives_round_trip() {
    let d = parse("classDiagram\ndirection RL\nclass Test\n").unwrap();
    assert_eq!(d.direction, Some(Direction::RightLeft));
    assert_eq!(reparse(&d).direction, Some(Direction::RightLeft));
}

#[test]
fn round_trip_keeps_every_field() {
    let input = r#"classDiagram
direction LR
class `Animal Class!`
class Vehicle {
    +int wheels
    -drive(a: int, String b) int
    +$ * String make()
}
`Animal Class!` : +int age
`Animal Class!` : #name: String
`Animal Class!` : ~move(int distance) void
namespace Garage {
    class Car
    Car : +speed: int
    class `Odd One`
}
`Animal Class!` "1" --> "*" Vehicle : owns
Vehicle <|-- Car
Car ..> Vehicle
Car -- Vehicle
note "A test diagram"
note for Vehicle "Vehicles are fast"
"#;
    let d1 = parse(input).unwrap();
    let d2 = reparse(&d1);
    assert_same(&d1, &d2);
    let d3 = reparse(&d2);
    assert_same(&d2, &d3);
}

#[test]
fn notation_survives_round_trip() {
    let input = "classDiagram\nclass T\nT : +void a(int x, y: int, z) \nT : b() int\nT : c()\nT : +int p\nT : q: int\nT : r\n";
    let d1 = parse(input).unwrap();
    let d2 = reparse(&d1);
    let m1 = &d1.namespace("").unwrap().class("T").unwrap().members;
    let m2 = &d2.namespace("").unwrap().class("T").unwrap().members;
    assert_eq!(m1, m2);
    match &m1[0] {
        Member::Method(m) => {
            assert_eq!(m.return_type_notation, TypeNotation::Prefix);
            assert_eq!(m.parameters[0].type_notation, TypeNotation::Prefix);
            assert_eq!(m.parameters[1].type_notation, TypeNotation::Postfix);
            assert_eq!(m.parameters[2].type_notation, TypeNotation::Omitted);
        }
        _ => panic!("expected a method"),
    }
    match &m1[1] {
        Member::Method(m) => assert_eq!(m.return_type_notation, TypeNotation::Postfix),
        _ => panic!("expected a method"),
    }
    match &m1[2] {
        Member::Method(m) => assert_eq!(m.return_type_notation, TypeNotation::Omitted),
        _ => panic!("expected a method"),
    }
}

#[test]
fn visibility_glyphs_map_one_to_one() {
    let glyphs = [
        ('+', Visibility::Public),
        ('-', Visibility::Private),
        ('#', Visibility::Protected),
        ('~', Visibility::Package),
    ];
    for (g, v) in glyphs {
        assert_eq!(Visibility::from(g), v);
        assert_eq!(visibility_symbol(v), g.to_string());
        let (_, parsed) = class_visibility(&g.to_string()).unwrap();
        assert_eq!(parsed, v);
    }
    assert_eq!(Visibility::from('x'), Visibility::Unspecified);
    assert_eq!(visibility_symbol(Visibility::Unspecified), "");
    let mut out = String::new();
    let bare = Member::Attribute(Attribute {
        visibility: Visibility::Unspecified,
        name: "x".into(),
        data_type: None,
        is_static: false,
        type_notation: TypeNotation::Omitted,
    });
    serialize_member(&bare, &mut out);
    assert_eq!(out, "x");
    let d = parse("classDiagram\nA : x\n").unwrap();
    assert_eq!(d.namespace("").unwrap().class("A").unwrap().members, vec![bare]);
}

#[test]
fn relation_direction_is_normalized() {
    let right = only_relation("A \"1\" --|> \"2\" B");
    let left = only_relation("B \"2\" <|-- \"1\" A");
    assert_eq!(right, left);
    assert_eq!(right.tail, "A");
    assert_eq!(right.head, "B");
    assert_eq!(right.kind, RelationKind::Inheritance);
    assert_eq!(right.cardinality_tail, Some("1".to_string()));
    assert_eq!(right.cardinality_head, Some("2".to_string()));
    for (r, l, k) in [
        ("--*", "*--", RelationKind::Composition),
        ("--o", "o--", RelationKind::Aggregation),
        ("-->", "<--", RelationKind::Association),
        ("..>", "<..", RelationKind::Dependency),
    ] {
        let a = only_relation(&format!("X {} Y", r));
        let b = only_relation(&format!("Y {} X", l));
        assert_eq!(a, b);
        assert_eq!(a.kind, k);
        assert_eq!(a.tail, "X");
    }
}

#[test]
fn escaped_names_round_trip() {
    assert_eq!(escape_class_name("Animal Class!"), "`Animal Class!`");
    assert_eq!(escape_class_name("Animal"), "Animal");
    assert_eq!(escape_class_name("a.b"), "`a.b`");
    let d = parse("classDiagram\nclass `Animal Class!`\n").unwrap();
    let out = serialize_diagram(&d);
    assert_eq!(out, "classDiagram\nclass `Animal Class!`\n");
    let (rest, name) = class_name("`Animal Class!` tail").unwrap();
    assert_eq!(name, "Animal Class!");
    assert_eq!(rest, "tail");
}

#[test]
fn non_ascii_identifiers() {
    let (rest, name) = class_name("Größe rest").unwrap();
    assert_eq!(name, "Größe");
    assert_eq!(rest, "rest");
    assert_eq!(escape_class_name("日本"), "日本");
    assert!(class_name("¿x").is_none());
}

#[test]
fn exact_rendering() {
    let d = parse("classDiagram\nclass A\nA : +int x\nA : -$ y: T\nA : #* f(int a, b: B) R\nA \"1\" <-- B : has\nnote for A \"n\"\n").unwrap();
    assert_eq!(
        serialize_diagram(&d),
        "classDiagram\nclass A\nA : +int x\nA : -$y: T\nA : #*f(int a, b: B) R\nB --> \"1\" A : has\nnote for A \"n\"\n"
    );
    let d = parse("classDiagram\nnamespace N {\nclass C\n}\nclass D\n").unwrap();
    assert_eq!(
        serialize_diagram(&d),
        "classDiagram\nclass D\nnamespace N {\nclass C\n}\n"
    );
}

#[test]
fn member_creates_missing_class() {
    let d = parse("classDiagram\nFoo : +x\n").unwrap();
    let foo = d.namespace("").unwrap().class("Foo").expect("stub class");
    assert_eq!(foo.members.len(), 1);
}

#[test]
fn redeclaration_merges_members() {
    let d = parse("classDiagram\nclass A\nA : +x\nclass A {\n+y\n}\nnamespace N {\nclass B\n}\nnamespace N {\nclass B {\n+z\n}\nB : +w\n}\n").unwrap();
    let a = d.namespace("").unwrap().class("A").unwrap();
    assert_eq!(a.members.len(), 2);
    let n = d.namespace("N").unwrap();
    assert_eq!(n.classes.len(), 1);
    assert_eq!(n.class("B").unwrap().members.len(), 2);
    assert_eq!(d.namespaces.len(), 2);
}

#[test]
fn qualified_names_split_on_last_separator() {
    let d = parse("classDiagram\nclass `Animals::Dog`\n`A::B::C` : +x\n").unwrap();
    let dog = d.namespace("Animals").unwrap().class("Dog").unwrap();
    assert_eq!(dog.name, "Animals::Dog");
    let c = d.namespace("A::B").unwrap().class("C").unwrap();
    assert_eq!(c.name, "A::B::C");
    assert_eq!(split_namespace("a::b::c"), ("a::b".to_string(), "c".to_string()));
    assert_eq!(split_namespace("abc"), (String::new(), "abc".to_string()));
    assert_eq!(split_namespace("a:::b"), ("a:".to_string(), "b".to_string()));
}

#[test]
fn strip_backticks_removes_one_pair() {
    assert_eq!(strip_backticks("`a b`"), "a b");
    assert_eq!(strip_backticks("ab"), "ab");
    assert_eq!(strip_backticks("`"), "`");
    assert_eq!(strip_backticks("``"), "");
}

#[test]
fn comments_and_variants() {
    let d = parse("%% leading\n\n%% another\nclassDiagram-v2\n%% in body\nclass A\n").unwrap();
    assert_eq!(d.namespace("").unwrap().classes.len(), 1);
    let d = parse("classDiagram\ndirection TD\ndirection BT\n").unwrap();
    assert_eq!(d.direction, Some(Direction::BottomTop));
    let d = parse("classDiagram").unwrap();
    assert_eq!(d.namespaces.len(), 1);
}

#[test]
fn missing_diagram_kind_is_an_error() {
    assert!(matches!(
        parse_mermaid("class A\n"),
        Err(MermaidParseError::ExpectedClassDiagram)
    ));
    assert!(matches!(parse_mermaid(""), Err(MermaidParseError::ExpectedClassDiagram)));
}

#[test]
fn unreadable_statement_reports_its_offset() {
    match parse_mermaid("classDiagram\nclass A\n  ??? nonsense\n") {
        Err(MermaidParseError::ExpectedStmt { position }) => assert_eq!(position, 23),
        other => panic!("unexpected: {:?}", other.is_ok()),
    }
    match parse_mermaid("classDiagram\nclass A {\n+x\n") {
        Err(MermaidParseError::ExpectedStmt { position }) => assert_eq!(position, 13),
        other => panic!("unexpected: {:?}", other.is_ok()),
    }
}

#[test]
fn header_is_read_and_written() {
    let d = parse("---\ntitle: Animals\n---\nclassDiagram\nclass A\n").unwrap();
    assert!(d.yaml.is_some());
    assert_eq!(d.namespace("").unwrap().classes.len(), 1);
    let out = serialize_diagram(&d);
    assert!(out.starts_with("---\n"));
    assert!(out.contains("title: Animals"));
    assert!(out.contains("---\nclassDiagram\nclass A\n"));
    let again = parse(&out);
    assert!(again.is_ok(), "{:?}", out);
    let again = again.unwrap();
    assert!(again.yaml.is_some());
}

#[test]
fn header_errors_and_missing_close() {
    assert!(matches!(
        parse_mermaid("---\nkey: [unclosed\n---\nclassDiagram\n"),
        Err(MermaidParseError::SerdeYml(_))
    ));
    assert!(matches!(
        parse_mermaid("---\ntitle: x\nclassDiagram\n"),
        Err(MermaidParseError::ExpectedClassDiagram)
    ));
    let (rest, y) = frontmatter("---\na: 1\n---\nclassDiagram").unwrap();
    assert_eq!(rest, "classDiagram");
    assert!(y.is_some());
    let (rest, y) = frontmatter("classDiagram").unwrap();
    assert_eq!(rest, "classDiagram");
    assert!(y.is_none());
    assert!(frontmatter_context("a: 1").is_ok());
    assert!(frontmatter_context("a: [").is_err());
}
