use mermaid_parser::{comment, direction_stmt, note_stmt, Direction, Stmt};

#[test]
fn test_comment() {
    // Invalid comment
    let result = comment("% This is an invalid comment");
    assert!(result.is_none());

    // EOF
    let result = comment("%% This is a valid comment");
    assert!(result.is_some());
    let remainder = result.unwrap();
    assert_eq!(
        remainder, "",
        "Comment ended at EOF. There should be nothing left"
    );

    // Windows Newline
    let result = comment("%% This is a comment on windows\r\nclassDiagram");
    assert!(result.is_some());
    let remainder = result.unwrap();
    assert_eq!(remainder, "classDiagram", "We should strip the endline.");

    // Linux Newline
    let result = comment("%% This is a comment on windows\nclassDiagram");
    assert!(result.is_some());
    let remainder = result.unwrap();
    assert_eq!(remainder, "classDiagram", "We should strip the endline.");
}

#[test]
fn test_direction_stmt() {
    let (rem, Stmt::Direction(dir)) =
        direction_stmt("direction TB").expect("Failed to parse TB direction")
    else {
        panic!("Expected Direction statement");
    };
    assert!(rem.is_empty());
    assert_eq!(dir, Direction::TopBottom);

    let (rem, Stmt::Direction(dir)) =
        direction_stmt("direction BT").expect("Failed to parse BT direction")
    else {
        panic!("Expected Direction statement");
    };
    assert!(rem.is_empty());
    assert_eq!(dir, Direction::BottomTop);

    let (rem, Stmt::Direction(dir)) =
        direction_stmt("direction LR").expect("Failed to parse LR direction")
    else {
        panic!("Expected Direction statement");
    };
    assert!(rem.is_empty());
    assert_eq!(dir, Direction::LeftRight);

    let (rem, Stmt::Direction(dir)) =
        direction_stmt("direction RL").expect("Failed to parse RL direction")
    else {
        panic!("Expected Direction statement");
    };
    assert!(rem.is_empty());
    assert_eq!(dir, Direction::RightLeft);

    // Test with whitespace
    let (rem, Stmt::Direction(dir)) = direction_stmt("  direction   LR  ")
        .expect("Failed to parse direction with whitespace")
    else {
        panic!("Expected Direction statement");
    };
    assert!(rem.trim().is_empty());
    assert_eq!(dir, Direction::LeftRight);
}

#[test]
fn test_note_stmt() {
    let (rem, Stmt::Note(note)) =
        note_stmt("note \"This is a general note\"").expect("Failed to parse general note")
    else {
        panic!("Expected Note statement");
    };
    assert!(rem.is_empty());
    assert_eq!(note.text, "This is a general note");
    assert_eq!(note.target_class, None);

    let (rem, Stmt::Note(note)) = note_stmt("note for Vehicle \"Vehicles are fast\"")
        .expect("Failed to parse note for class")
    else {
        panic!("Expected Note statement");
    };
    assert!(rem.is_empty());
    assert_eq!(note.text, "Vehicles are fast");
    assert_eq!(note.target_class, Some("Vehicle".into()));

    let (rem, Stmt::Note(note)) =
        note_stmt(r#"note "This is a longer note with some details""#)
            .expect("Failed to parse longer note")
    else {
        panic!("Expected Note statement");
    };
    assert!(rem.is_empty());
    assert_eq!(note.text, "This is a longer note with some details");

    let (rem, Stmt::Note(note)) = note_stmt(r#"note "Note with symbols: !@#$%""#)
        .expect("Failed to parse note with special chars")
    else {
        panic!("Expected Note statement");
    };
    assert!(rem.is_empty());
    assert_eq!(note.text, "Note with symbols: !@#$%");
}
