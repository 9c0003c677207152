use mermaid_parser::{namespace_identifier, namespace_name, namespace_stmt, Stmt};

#[test]
fn test_namespace_name() {
    let (rem, name) = namespace_name("Animals").expect("Failed to parse simple name");
    assert!(rem.is_empty());
    assert_eq!(name, "Animals");

    let (rem, name) = namespace_name("My_Namespace").expect("Failed to parse name with underscore");
    assert!(rem.is_empty());
    assert_eq!(name, "My_Namespace");

    let (rem, name) = namespace_name("Namespace123").expect("Failed to parse name with numbers");
    assert!(rem.is_empty());
    assert_eq!(name, "Namespace123");

    let (rem, name) = namespace_name("  MyNamespace  ").expect("Failed to parse with whitespace");
    assert!(rem.trim().is_empty());
    assert_eq!(name, "MyNamespace");
}

#[test]
fn test_namespace_identifier() {
    let (rem, name) =
        namespace_identifier("namespace Animals").expect("Failed to parse namespace identifier");
    assert!(rem.trim().is_empty());
    assert_eq!(name, "Animals");

    let (rem, name) = namespace_identifier("namespace   MyNamespace  ")
        .expect("Failed to parse with extra whitespace");
    assert!(rem.trim().is_empty());
    assert_eq!(name, "MyNamespace");

    let (rem, name) =
        namespace_identifier("namespace Vehicles\n").expect("Failed to parse with newline");
    assert_eq!(rem.trim(), "");
    assert_eq!(name, "Vehicles");
}

#[test]
fn test_namespace_stmt_simple() {
    let input = r#"namespace Animals {
    class Dog
    class Cat
}"#;

    let result = namespace_stmt(input);
    assert!(result.is_some(), "Failed to parse simple namespace");

    let (rem, Stmt::Namespace(ns)) = result.unwrap() else {
        panic!("Expected Namespace statement");
    };

    assert!(rem.is_empty());
    assert_eq!(ns.name, "Animals");
    assert_eq!(ns.classes.len(), 2);
    assert!(ns.contains_class("Dog"));
    assert!(ns.contains_class("Cat"));
}

#[test]
fn test_namespace_stmt_with_members() {
    let input = r#"namespace Vehicles {
    class Car
    Car : +speed: int
    Car : +drive(distance: int) void

    class Bike
    Bike : -gears: int
}"#;

    let result = namespace_stmt(input);
    assert!(result.is_some(), "Failed to parse namespace with members");

    let (rem, Stmt::Namespace(ns)) = result.unwrap() else {
        panic!("Expected Namespace statement");
    };

    assert!(rem.is_empty());
    assert_eq!(ns.name, "Vehicles");
    assert_eq!(ns.classes.len(), 2);

    let car = ns.class("Car").expect("Car class should exist");
    assert_eq!(car.members.len(), 2);

    let bike = ns.class("Bike").expect("Bike class should exist");
    assert_eq!(bike.members.len(), 1);
}

#[test]
fn test_namespace_stmt_with_newline_after_brace() {
    let input = r#"namespace Test {

    class A
    class B
}"#;

    let result = namespace_stmt(input);
    assert!(result.is_some(), "Failed to parse with newline after opening brace");

    let (rem, Stmt::Namespace(ns)) = result.unwrap() else {
        panic!("Expected Namespace statement");
    };

    assert!(rem.is_empty());
    assert_eq!(ns.name, "Test");
    assert_eq!(ns.classes.len(), 2);
}

#[test]
fn test_namespace_stmt_empty() {
    let input = "namespace Empty {\n}";

    let result = namespace_stmt(input);
    assert!(result.is_some(), "Failed to parse empty namespace");

    let (rem, Stmt::Namespace(ns)) = result.unwrap() else {
        panic!("Expected Namespace statement");
    };

    assert!(rem.is_empty());
    assert_eq!(ns.name, "Empty");
    assert_eq!(ns.classes.len(), 0);
}

#[test]
fn test_namespace_stmt_with_comments() {
    let input = r#"namespace Test {
    class A
    %% This is a comment
    class B
    %% Another comment
}"#;

    let result = namespace_stmt(input);
    assert!(result.is_some(), "Failed to parse namespace with comments");

    let (rem, Stmt::Namespace(ns)) = result.unwrap() else {
        panic!("Expected Namespace statement");
    };

    assert!(rem.is_empty());
    assert_eq!(ns.name, "Test");
    assert_eq!(ns.classes.len(), 2);
}

#[test]
fn test_namespace_stmt_complex() {
    let input = r#"namespace MyNamespace {
    class Animal
    Animal : -int age
    Animal : +name: String
    Animal : +move(distance: int) void

    class Vehicle
    Vehicle : +speed: int

    %% Comment about relationship
    class Person
    Person : +firstName: String
    Person : +lastName: String
}"#;

    let result = namespace_stmt(input);
    assert!(result.is_some(), "Failed to parse complex namespace");

    let (rem, Stmt::Namespace(ns)) = result.unwrap() else {
        panic!("Expected Namespace statement");
    };

    assert!(rem.is_empty());
    assert_eq!(ns.name, "MyNamespace");
    assert_eq!(ns.classes.len(), 3);

    let animal = ns.class("Animal").expect("Animal should exist");
    assert_eq!(animal.members.len(), 3);

    let vehicle = ns.class("Vehicle").expect("Vehicle should exist");
    assert_eq!(vehicle.members.len(), 1);

    let person = ns.class("Person").expect("Person should exist");
    assert_eq!(person.members.len(), 2);
}

#[test]
fn test_namespace_stmt_with_trailing_content() {
    let input = r#"namespace First {
    class A
}

class Outside"#;

    let result = namespace_stmt(input);
    assert!(result.is_some(), "Failed to parse namespace with trailing content");

    let (rem, Stmt::Namespace(ns)) = result.unwrap() else {
        panic!("Expected Namespace statement");
    };

    assert!(rem.contains("class Outside"));
    assert_eq!(ns.name, "First");
    assert_eq!(ns.classes.len(), 1);
}
