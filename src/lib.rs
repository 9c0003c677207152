//! Class-diagram text: recognition into a structured diagram, and rendering back.
//!
//! A diagram is read by [`parse_mermaid`] (also [`parse`]) and written by
//! [`serialize_diagram`]. Every value owns its text: a diagram outlives the source
//! it was read from.
//!
//! Policies: reading is strict at the top level (a statement that cannot be read
//! is an error, reported with its character offset), while inside class bodies and
//! namespace blocks unreadable lines are passed over. A header whose closing `---`
//! line is missing is no header at all. Namespaces are flat: nesting is spelled
//! with `::` in names, and a name splits at its last `::`.
//!
//! The recognizers are stated as spec functions over character sequences, each
//! executable function proved equal to its spec; [`laws`] relates reading and
//! rendering.
pub mod class;
pub mod diagram;
pub mod header;
pub mod laws;
pub mod member;
pub mod namespace;
pub mod recognizers;
pub mod relation;
pub mod serializer;
pub mod text;
pub mod types;

pub use diagram::{MermaidParseError, ParseError, Stmt, apply_stmt, parse, parse_mermaid};
pub use namespace::split_namespace;
pub use recognizers::{
    class_attribute, class_diagram, class_member_stmt, class_method, class_method_param,
    class_name, class_stmt, class_visibility, comment, direction_stmt, frontmatter,
    frontmatter_context, namespace_identifier, namespace_name, namespace_stmt, note_stmt,
    relation_kind, relation_stmt, stmt_direction, stmt_note,
};
pub use serializer::{
    escape_class_name, render_diagram, serialize_class, serialize_diagram, serialize_direction,
    serialize_member, serialize_note, serialize_relation, visibility_symbol,
};
pub use text::strip_backticks;
pub use types::{
    Attribute, Class, DEFAULT_NAMESPACE, Diagram, Direction, Member, Method, Namespace, Note,
    Parameter, Relation, RelationKind, TypeNotation, Visibility,
};
