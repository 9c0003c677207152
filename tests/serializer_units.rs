use mermaid_parser::{parse, serialize_diagram};

#[test]
fn test_serialize_simple_class() {
    let mermaid = "classDiagram\nclass Animal\n";
    let diagram = parse(mermaid).unwrap();
    let serialized = serialize_diagram(&diagram);
    assert!(serialized.contains("class Animal"));
}

#[test]
fn test_serialize_backtick_names() {
    let mermaid = "classDiagram\nclass `Animal Class!`\n";
    let diagram = parse(mermaid).unwrap();
    let serialized = serialize_diagram(&diagram);
    assert!(serialized.contains("`Animal Class!`"));
}

#[test]
fn test_serialize_with_direction() {
    let mermaid = "classDiagram\ndirection RL\nclass Test\n";
    let diagram = parse(mermaid).unwrap();
    let serialized = serialize_diagram(&diagram);
    assert!(serialized.contains("direction RL"));
}

#[test]
fn test_serialize_note() {
    let mermaid = "classDiagram\nclass Test\nnote \"General note\"\n";
    let diagram = parse(mermaid).unwrap();
    let serialized = serialize_diagram(&diagram);
    assert!(serialized.contains("note \"General note\""));
}

#[test]
fn test_serialize_note_for_class() {
    let mermaid = "classDiagram\nclass Test\nnote for Test \"Class note\"\n";
    let diagram = parse(mermaid).unwrap();
    let serialized = serialize_diagram(&diagram);
    assert!(serialized.contains("note for Test \"Class note\""));
}
