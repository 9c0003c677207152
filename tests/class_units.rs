use mermaid_parser::{
    class_attribute, class_member_stmt, class_method, class_method_param, class_name, class_stmt,
    class_visibility, Attribute, Member, Method, Parameter, Stmt, TypeNotation, Visibility,
};

#[test]
fn test_class_name() {
    let (rem, name) = class_name("Normal23Class-Name").expect("Failed to parse alpha num tokens");
    assert!(rem.is_empty());
    assert_eq!(name, "Normal23Class-Name");

    let (rem, name) = class_name("\t \t Whitespace  ").expect("Failed to parse whitespace");
    assert!(rem.is_empty());
    assert_eq!(name, "Whitespace");
}

#[test]
fn test_class_visibility() {
    let (rem, vis) = class_visibility("+").expect("Failed to parse public visibility");
    assert!(rem.is_empty());
    assert_eq!(vis, Visibility::Public);

    let (rem, vis) = class_visibility("-").expect("Failed to parse private visibility");
    assert!(rem.is_empty());
    assert_eq!(vis, Visibility::Private);

    let (rem, vis) = class_visibility("#").expect("Failed to parse protected visibility");
    assert!(rem.is_empty());
    assert_eq!(vis, Visibility::Protected);

    let (rem, vis) = class_visibility("~").expect("Failed to parse package visibility");
    assert!(rem.is_empty());
    assert_eq!(vis, Visibility::Package);

    let (rem, vis) = class_visibility("  +  ").expect("Failed to parse with whitespace");
    assert_eq!(rem.trim(), "");
    assert_eq!(vis, Visibility::Public);
}

#[test]
fn test_class_method_param() {
    let (rem, param) =
        class_method_param("distance: int").expect("Failed to parse postfix parameter");
    assert!(rem.is_empty());
    assert_eq!(param.name, "distance");
    assert_eq!(param.data_type, Some("int".into()));
    assert_eq!(param.type_notation, TypeNotation::Postfix);

    let (rem, param) = class_method_param("Food food").expect("Failed to parse prefix parameter");
    assert!(rem.is_empty());
    assert_eq!(param.name, "food");
    assert_eq!(param.data_type, Some("Food".into()));
    assert_eq!(param.type_notation, TypeNotation::Prefix);

    let (rem, param) =
        class_method_param("param").expect("Failed to parse parameter without type");
    assert!(rem.is_empty());
    assert_eq!(param.name, "param");
    assert_eq!(param.data_type, None);
    assert_eq!(param.type_notation, TypeNotation::Omitted);

    let (rem, param) = class_method_param("  time  :  Time  ")
        .expect("Failed to parse parameter with whitespace");
    assert!(rem.trim().is_empty());
    assert_eq!(param.name, "time");
    assert_eq!(param.data_type, Some("Time".into()));
    assert_eq!(param.type_notation, TypeNotation::Postfix);
}

#[test]
fn test_class_attribute() {
    let (rem, attr) =
        class_attribute("- int age").expect("Failed to parse private prefix attribute");
    assert!(rem.is_empty());
    assert_eq!(attr.visibility, Visibility::Private);
    assert_eq!(attr.name, "age");
    assert_eq!(attr.data_type, Some("int".into()));
    assert_eq!(attr.is_static, false);
    assert_eq!(attr.type_notation, TypeNotation::Prefix);

    let (rem, attr) =
        class_attribute("+   name: String").expect("Failed to parse public postfix attribute");
    assert!(rem.is_empty());
    assert_eq!(attr.visibility, Visibility::Public);
    assert_eq!(attr.name, "name");
    assert_eq!(attr.data_type, Some("String".into()));
    assert_eq!(attr.is_static, false);
    assert_eq!(attr.type_notation, TypeNotation::Postfix);

    let (rem, attr) = class_attribute("+ $ count: int").expect("Failed to parse static attribute");
    assert!(rem.is_empty());
    assert_eq!(attr.visibility, Visibility::Public);
    assert_eq!(attr.name, "count");
    assert_eq!(attr.data_type, Some("int".into()));
    assert_eq!(attr.is_static, true);
    assert_eq!(attr.type_notation, TypeNotation::Postfix);

    let (rem, attr) = class_attribute("# id").expect("Failed to parse attribute without type");
    assert!(rem.is_empty());
    assert_eq!(attr.visibility, Visibility::Protected);
    assert_eq!(attr.name, "id");
    assert_eq!(attr.data_type, None);
    assert_eq!(attr.is_static, false);
    assert_eq!(attr.type_notation, TypeNotation::Omitted);

    let (rem, attr) =
        class_attribute("value: double").expect("Failed to parse attribute without visibility");
    assert!(rem.is_empty());
    assert_eq!(attr.visibility, Visibility::Unspecified);
    assert_eq!(attr.name, "value");
    assert_eq!(attr.data_type, Some("double".into()));
    assert_eq!(attr.type_notation, TypeNotation::Postfix);
}

#[test]
fn test_class_method() {
    let (rem, method) = class_method("+ void swim(distance: int)")
        .expect("Failed to parse method with prefix return");
    assert!(rem.is_empty());
    assert_eq!(method.visibility, Visibility::Public);
    assert_eq!(method.name, "swim");
    assert_eq!(method.parameters.len(), 1);
    assert_eq!(method.parameters[0].name, "distance");
    assert_eq!(method.parameters[0].data_type, Some("int".into()));
    assert_eq!(method.return_type, Some("void".into()));
    assert_eq!(method.is_static, false);
    assert_eq!(method.is_abstract, false);
    assert_eq!(method.return_type_notation, TypeNotation::Prefix);

    let (rem, method) = class_method("-  digest(Food food) void")
        .expect("Failed to parse method with postfix return");
    assert!(rem.is_empty());
    assert_eq!(method.visibility, Visibility::Private);
    assert_eq!(method.name, "digest");
    assert_eq!(method.parameters.len(), 1);
    assert_eq!(method.parameters[0].name, "food");
    assert_eq!(method.parameters[0].data_type, Some("Food".into()));
    assert_eq!(method.return_type, Some("void".into()));
    assert_eq!(method.is_static, false);
    assert_eq!(method.is_abstract, false);
    assert_eq!(method.return_type_notation, TypeNotation::Postfix);

    let (rem, method) = class_method("sleep(time: Time, Hemisphere hemisphere) Int")
        .expect("Failed to parse method with multiple parameters");
    assert!(rem.is_empty());
    assert_eq!(method.visibility, Visibility::Unspecified);
    assert_eq!(method.name, "sleep");
    assert_eq!(method.parameters.len(), 2);
    assert_eq!(method.parameters[0].name, "time");
    assert_eq!(method.parameters[0].data_type, Some("Time".into()));
    assert_eq!(method.parameters[1].name, "hemisphere");
    assert_eq!(method.parameters[1].data_type, Some("Hemisphere".into()));
    assert_eq!(method.return_type, Some("Int".into()));
    assert_eq!(method.return_type_notation, TypeNotation::Postfix);

    let (rem, method) =
        class_method("+ $ getInstance() Singleton").expect("Failed to parse static method");
    assert!(rem.is_empty());
    assert_eq!(method.visibility, Visibility::Public);
    assert_eq!(method.name, "getInstance");
    assert_eq!(method.parameters.len(), 0);
    assert_eq!(method.return_type, Some("Singleton".into()));
    assert_eq!(method.is_static, true);
    assert_eq!(method.is_abstract, false);

    let (rem, method) =
        class_method("+ * calculate() void").expect("Failed to parse abstract method");
    assert!(rem.is_empty());
    assert_eq!(method.visibility, Visibility::Public);
    assert_eq!(method.name, "calculate");
    assert_eq!(method.is_static, false);
    assert_eq!(method.is_abstract, true);

    let (rem, method) =
        class_method("# process(data)").expect("Failed to parse method without return type");
    assert!(rem.is_empty());
    assert_eq!(method.visibility, Visibility::Protected);
    assert_eq!(method.name, "process");
    assert_eq!(method.parameters.len(), 1);
    assert_eq!(method.parameters[0].name, "data");
    assert_eq!(method.return_type, None);
    assert_eq!(method.return_type_notation, TypeNotation::Omitted);

    let (rem, method) =
        class_method("~ getValue() int").expect("Failed to parse method with no parameters");
    assert!(rem.is_empty());
    assert_eq!(method.visibility, Visibility::Package);
    assert_eq!(method.name, "getValue");
    assert_eq!(method.parameters.len(), 0);
    assert_eq!(method.return_type, Some("int".into()));
}

#[test]
fn test_class_member_stmt() {
    let (rem, member) = class_member_stmt("- int age").expect("Failed to parse attribute member");
    assert!(rem.is_empty());
    match member {
        Member::Attribute(attr) => {
            assert_eq!(attr.visibility, Visibility::Private);
            assert_eq!(attr.name, "age");
            assert_eq!(attr.data_type, Some("int".into()));
        }
        _ => panic!("Expected Attribute member"),
    }

    let (rem, member) =
        class_member_stmt("+ void swim(distance: int)").expect("Failed to parse method member");
    assert!(rem.is_empty());
    match member {
        Member::Method(method) => {
            assert_eq!(method.visibility, Visibility::Public);
            assert_eq!(method.name, "swim");
            assert_eq!(method.parameters.len(), 1);
        }
        _ => panic!("Expected Method member"),
    }

    let (rem, member) =
        class_member_stmt("    + name: String").expect("Failed to parse member with whitespace");
    assert!(rem.trim().is_empty());
    match member {
        Member::Attribute(attr) => {
            assert_eq!(attr.name, "name");
        }
        _ => panic!("Expected Attribute member"),
    }
}

#[test]
fn test_class_stmt() {
    let class = "
    \r\n
class Dolphin {
    - int age
    +   name: String

+ void swim(distance: int)
    -  digest(Food food) void
    %% Very important comment

    sleep(time: Time, Hemisphere hemisphere) Int

    %% Beans
}
\r\n

class Next";

    let result = class_stmt(class);
    assert!(result.is_some(), "Failed to parse");
    let (rem, Stmt::Class(class)) = result.unwrap() else {
        panic!("Returned a non class statement");
    };
    assert_eq!(rem, "class Next");
    assert_eq!(class.name, "Dolphin", "Class names don't match");
    assert_eq!(class.members.len(), 5, "Parsed the wrong number of members");

    let age = Member::Attribute(Attribute {
        visibility: Visibility::Private,
        name: "age".into(),
        data_type: Some("int".into()),
        is_static: false,
        type_notation: TypeNotation::Prefix,
    });

    let name = Member::Attribute(Attribute {
        visibility: Visibility::Public,
        name: "name".into(),
        data_type: Some("String".into()),
        is_static: false,
        type_notation: TypeNotation::Postfix,
    });

    let swim = Member::Method(Method {
        visibility: Visibility::Public,
        name: "swim".into(),
        parameters: vec![Parameter {
            name: "distance".into(),
            data_type: Some("int".into()),
            type_notation: TypeNotation::Postfix,
        }],
        return_type: Some("void".into()),
        is_static: false,
        is_abstract: false,
        return_type_notation: TypeNotation::Prefix,
    });

    let digest = Member::Method(Method {
        visibility: Visibility::Private,
        name: "digest".into(),
        parameters: vec![Parameter {
            name: "food".into(),
            data_type: Some("Food".into()),
            type_notation: TypeNotation::Prefix,
        }],
        return_type: Some("void".into()),
        is_static: false,
        is_abstract: false,
        return_type_notation: TypeNotation::Postfix,
    });

    let sleep = Member::Method(Method {
        visibility: Visibility::Unspecified,
        name: "sleep".into(),
        parameters: vec![
            Parameter {
                name: "time".into(),
                data_type: Some("Time".into()),
                type_notation: TypeNotation::Postfix,
            },
            Parameter {
                name: "hemisphere".into(),
                data_type: Some("Hemisphere".into()),
                type_notation: TypeNotation::Prefix,
            },
        ],
        return_type: Some("Int".into()),
        is_static: false,
        is_abstract: false,
        return_type_notation: TypeNotation::Postfix,
    });

    let expected_members = vec![age, name, swim, digest, sleep];

    for (i, (expected, actual)) in expected_members
        .iter()
        .zip(class.members.iter())
        .enumerate()
    {
        assert_eq!(
            expected, actual,
            "Member at index {} does not match. Expected: {:?}, Got: {:?}",
            i, expected, actual
        );
    }
}
