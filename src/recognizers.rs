//! Entry points that read one construct from the start of a text and hand back
//! what follows it (first) together with what was read.
use vstd::prelude::*;
use crate::class::{class_stmt_at, class_stmt_spec};
use crate::diagram::{
    MermaidParseError, Stmt, StmtView, class_diagram_at, class_diagram_spec, comment_at,
    comment_spec,
};
use crate::header::{read_yaml, split_header, split_header_at, yaml_accepts};
use crate::member::{
    attribute_spec, member_at, member_spec, method_spec, param_spec, visibility_spec,
};
use crate::namespace::{
    direction_at, direction_spec, namespace_identifier_at, namespace_identifier_spec,
    namespace_stmt_at, namespace_stmt_spec, note_at, note_spec,
};
use crate::relation::{arrow_spec, relation_at, relation_spec};
use crate::text::{chars_of, class_name_at, class_name_spec, substring};
use crate::types::{Attribute, Direction, Member, Method, Note, Parameter, RelationKind, Visibility};

verus! {

/// How a text-level result reads against the spec-level one: the rest of the
/// text comes first, as the recognizers hand it back.
pub open spec fn recognized<T: View>(r: Option<(String, T)>, s: Option<(T::V, Seq<char>)>) -> bool {
    match r {
        Some((rest, t)) => s == Some((t@, rest@)),
        None => s.is_none(),
    }
}

fn text_of(s: &str) -> (v: Vec<char>)
    ensures
        v@ == s@,
        v@.skip(0) == s@,
{
    let v = chars_of(s);
    assert(v@.skip(0) =~= v@);
    v
}

fn rest_of(v: &Vec<char>, j: usize) -> (r: String)
    requires
        j <= v.len(),
    ensures
        r@ == v@.skip(j as int),
{
    substring(v, j, v.len())
}

/// A class name: bare, or between backticks (given without them).
pub fn class_name(s: &str) -> (r: Option<(String, String)>)
    ensures
        recognized(r, class_name_spec(s@)),
{
    let v = text_of(s);
    match class_name_at(&v, 0) {
        Some((name, j)) => Some((rest_of(&v, j), name)),
        None => None,
    }
}

/// A namespace name (as a class name).
pub fn namespace_name(s: &str) -> (r: Option<(String, String)>)
    ensures
        recognized(r, class_name_spec(s@)),
{
    class_name(s)
}

/// `namespace Name`.
pub fn namespace_identifier(s: &str) -> (r: Option<(String, String)>)
    ensures
        recognized(r, namespace_identifier_spec(s@)),
{
    let v = text_of(s);
    match namespace_identifier_at(&v, 0) {
        Some((name, j)) => Some((rest_of(&v, j), name)),
        None => None,
    }
}

/// A visibility glyph.
pub fn class_visibility(s: &str) -> (r: Option<(String, Visibility)>)
    ensures
        recognized(r, visibility_spec(s@)),
{
    let v = text_of(s);
    match crate::member::visibility_at(&v, 0) {
        Some((x, j)) => Some((rest_of(&v, j), x)),
        None => None,
    }
}

/// An attribute fragment.
pub fn class_attribute(s: &str) -> (r: Option<(String, Attribute)>)
    ensures
        recognized(r, attribute_spec(s@)),
{
    let v = text_of(s);
    match crate::member::attribute_at(&v, 0) {
        Some((x, j)) => Some((rest_of(&v, j), x)),
        None => None,
    }
}

/// A method fragment.
pub fn class_method(s: &str) -> (r: Option<(String, Method)>)
    ensures
        recognized(r, method_spec(s@)),
{
    let v = text_of(s);
    match crate::member::method_at(&v, 0) {
        Some((x, j)) => Some((rest_of(&v, j), x)),
        None => None,
    }
}

/// One method parameter.
pub fn class_method_param(s: &str) -> (r: Option<(String, Parameter)>)
    ensures
        recognized(r, param_spec(s@)),
{
    let v = text_of(s);
    match crate::member::param_at(&v, 0) {
        Some((x, j)) => Some((rest_of(&v, j), x)),
        None => None,
    }
}

/// A member fragment: method or attribute.
pub fn class_member_stmt(s: &str) -> (r: Option<(String, Member)>)
    ensures
        recognized(r, member_spec(s@)),
{
    let v = text_of(s);
    match member_at(&v, 0) {
        Some((x, j)) => Some((rest_of(&v, j), x)),
        None => None,
    }
}

/// A class declaration.
pub fn class_stmt(s: &str) -> (r: Option<(String, Stmt)>)
    ensures
        recognized(
            r,
            match class_stmt_spec(s@) {
                Some((c, rest)) => Some((StmtView::Class(c), rest)),
                None => None,
            },
        ),
{
    let v = text_of(s);
    match class_stmt_at(&v, 0) {
        Some((c, j)) => Some((rest_of(&v, j), Stmt::Class(c))),
        None => None,
    }
}

/// A namespace block.
pub fn namespace_stmt(s: &str) -> (r: Option<(String, Stmt)>)
    ensures
        recognized(
            r,
            match namespace_stmt_spec(s@) {
                Some((n, rest)) => Some((StmtView::Namespace(n), rest)),
                None => None,
            },
        ),
{
    let v = text_of(s);
    match namespace_stmt_at(&v, 0) {
        Some((n, j)) => Some((rest_of(&v, j), Stmt::Namespace(n))),
        None => None,
    }
}

/// A relation statement.
pub fn relation_stmt(s: &str) -> (r: Option<(String, Stmt)>)
    ensures
        recognized(
            r,
            match relation_spec(s@) {
                Some((x, rest)) => Some((StmtView::Relation(x), rest)),
                None => None,
            },
        ),
{
    let v = text_of(s);
    match relation_at(&v, 0) {
        Some((x, j)) => Some((rest_of(&v, j), Stmt::Relation(x))),
        None => None,
    }
}

/// An arrow: its kind, and whether it points from right to left.
pub fn relation_kind(s: &str) -> (r: Option<(String, (RelationKind, bool))>)
    ensures
        recognized(
            r,
            match arrow_spec(s@) {
                Some((k, left, rest)) => Some(((k, left), rest)),
                None => None,
            },
        ),
{
    let v = text_of(s);
    match crate::relation::arrow_at(&v, 0) {
        Some((k, left, j)) => Some((rest_of(&v, j), (k, left))),
        None => None,
    }
}

/// A note.
pub fn stmt_note(s: &str) -> (r: Option<(String, Note)>)
    ensures
        recognized(r, note_spec(s@)),
{
    let v = text_of(s);
    match note_at(&v, 0) {
        Some((x, j)) => Some((rest_of(&v, j), x)),
        None => None,
    }
}

/// A note, as a statement.
pub fn note_stmt(s: &str) -> (r: Option<(String, Stmt)>)
    ensures
        recognized(
            r,
            match note_spec(s@) {
                Some((x, rest)) => Some((StmtView::Note(x), rest)),
                None => None,
            },
        ),
{
    match stmt_note(s) {
        Some((rest, x)) => Some((rest, Stmt::Note(x))),
        None => None,
    }
}

/// A direction.
pub fn stmt_direction(s: &str) -> (r: Option<(String, Direction)>)
    ensures
        recognized(r, direction_spec(s@)),
{
    let v = text_of(s);
    match direction_at(&v, 0) {
        Some((x, j)) => Some((rest_of(&v, j), x)),
        None => None,
    }
}

/// A direction, as a statement.
pub fn direction_stmt(s: &str) -> (r: Option<(String, Stmt)>)
    ensures
        recognized(
            r,
            match direction_spec(s@) {
                Some((x, rest)) => Some((StmtView::Direction(x), rest)),
                None => None,
            },
        ),
{
    match stmt_direction(s) {
        Some((rest, x)) => Some((rest, Stmt::Direction(x))),
        None => None,
    }
}

/// A comment line with the whitespace around it; gives what follows.
pub fn comment(s: &str) -> (r: Option<String>)
    ensures
        match r {
            Some(rest) => comment_spec(s@) == Some(rest@),
            None => comment_spec(s@).is_none(),
        },
{
    let v = text_of(s);
    match comment_at(&v, 0) {
        Some(j) => Some(rest_of(&v, j)),
        None => None,
    }
}

/// The `classDiagram` line; gives what follows.
pub fn class_diagram(s: &str) -> (r: Option<String>)
    ensures
        match r {
            Some(rest) => class_diagram_spec(s@) == Some(rest@),
            None => class_diagram_spec(s@).is_none(),
        },
{
    let v = text_of(s);
    match class_diagram_at(&v, 0) {
        Some(j) => Some(rest_of(&v, j)),
        None => None,
    }
}

/// Reads header content as YAML.
pub fn frontmatter_context(yaml: &str) -> (r: Result<serde_yml::Value, MermaidParseError>)
    ensures
        r.is_ok() == yaml_accepts(yaml@),
        r is Err ==> r->Err_0 is SerdeYml,
{
    match read_yaml(yaml) {
        Ok(y) => Ok(y),
        Err(e) => Err(MermaidParseError::SerdeYml(e)),
    }
}

/// Splits off and reads the header; gives the rest of the text and the header value,
/// if there is a header.
pub fn frontmatter(s: &str) -> (r: Result<(String, Option<serde_yml::Value>), MermaidParseError>)
    ensures
        match r {
            Ok((rest, y)) => rest@ == split_header(s@).1 && y.is_some() == split_header(s@).0.is_some()
                && (y.is_some() ==> yaml_accepts(split_header(s@).0.unwrap())),
            Err(e) => e is SerdeYml && split_header(s@).0.is_some() && !yaml_accepts(split_header(s@).0.unwrap()),
        },
{
    let v = chars_of(s);
    let (h, b) = split_header_at(&v);
    let rest = rest_of(&v, b);
    match h {
        Some((a, e)) => {
            let text = substring(&v, a, e);
            match frontmatter_context(text.as_str()) {
                Ok(y) => Ok((rest, Some(y))),
                Err(err) => Err(err),
            }
        },
        None => Ok((rest, None)),
    }
}

} // verus!
