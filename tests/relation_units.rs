use mermaid_parser::{relation_stmt, RelationKind, Stmt};

fn check_relation_kind(
    lhs: &str,
    lhs_mult: Option<&str>,
    op: &str,
    rhs_mult: Option<&str>,
    rhs: &str,
    label: Option<&str>,
    expect_from: &str,
    expect_to: &str,
    expect_op: RelationKind,
) {
    let mut s = String::new();
    s.push_str(lhs);
    s.push(' ');
    if let Some(lhs_mult) = lhs_mult {
        s.push('"');
        s.push_str(lhs_mult);
        s.push('"');
        s.push(' ');
    }

    s.push_str(op);

    if let Some(rhs_mult) = rhs_mult {
        s.push('"');
        s.push_str(rhs_mult);
        s.push('"');
        s.push(' ');
    }
    s.push_str(rhs);

    if let Some(label) = label {
        s.push_str(" : ");
        s.push_str(label);
    }

    let (rem, Stmt::Relation(rel)) = relation_stmt(&s).expect("Failed to parse") else {
        panic!("We should only be returning Stmt::Relation");
    };
    assert!(rem.is_empty(), "There should be nothing left");
    assert_eq!(rel.head, expect_to, "Wrong target");
    assert_eq!(rel.tail, expect_from, "Wrong source");
    assert_eq!(rel.kind, expect_op, "Wrong relationship kind");
}

/// `from OP to` reads from -> to; so does `to BACK from` for a left-pointing spelling.
/// A symmetric link keeps the order it was written in.
fn check_from_to(forward_op: &str, backward_op: Option<&str>, kind: RelationKind) {
    check_relation_kind("from", None, forward_op, None, "to", None, "from", "to", kind);
    match backward_op {
        Some(back) => {
            check_relation_kind("to", None, back, None, "from", None, "from", "to", kind)
        }
        None => {
            check_relation_kind("to", None, forward_op, None, "from", None, "to", "from", kind)
        }
    }
}

fn check_backtick_escape(forward_op: &str, kind: RelationKind) {
    let lhs = "`Hello world. $! `";
    let rhs = "`A.:!#neat`";
    check_relation_kind(
        lhs,
        None,
        forward_op,
        None,
        rhs,
        None,
        lhs.trim_matches('`'),
        rhs.trim_matches('`'),
        kind,
    );
}

#[test]
fn test_relation_stmt_inheritance() {
    check_from_to("--|>", Some("<|--"), RelationKind::Inheritance);
    check_backtick_escape("--|>", RelationKind::Inheritance);
}

#[test]
fn test_relation_stmt_composition() {
    check_from_to("--*", Some("*--"), RelationKind::Composition);
    check_backtick_escape("--*", RelationKind::Composition);
}

#[test]
fn test_relation_stmt_aggregation() {
    check_from_to("--o", Some("o--"), RelationKind::Aggregation);
    check_backtick_escape("--o", RelationKind::Aggregation);
}

#[test]
fn test_relation_stmt_link_solid() {
    check_from_to("--", None, RelationKind::SolidLink);
    check_backtick_escape("--", RelationKind::SolidLink);
}

#[test]
fn test_relation_stmt_dependency() {
    check_from_to("..>", Some("<.."), RelationKind::Dependency);
    check_backtick_escape("..>", RelationKind::Dependency);
}

#[test]
fn test_relation_stmt_realization() {
    check_from_to("..>", Some("<.."), RelationKind::Dependency);
    check_backtick_escape("..>", RelationKind::Dependency);
    check_from_to("..|>", None, RelationKind::Realization);
}

#[test]
fn test_relation_stmt_link_dash() {
    check_from_to("..", None, RelationKind::DashLink);
    check_backtick_escape("..", RelationKind::DashLink);
}
