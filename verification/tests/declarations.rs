use cel_core::{CelType, Env};
use celsp::declarations::{declare, parse_cel_type, parse_function_decl, parse_overload};
use serde_json::Value;

fn json(text: &str) -> Value {
    serde_json::from_str(text).unwrap()
}

#[test]
fn types_in_strings_are_read() {
    assert_eq!(parse_cel_type(&json(r#""list(int)""#)), Some(CelType::list(CelType::Int)));
    assert_eq!(parse_cel_type(&json(r#""list(""#)), None);
}

#[test]
fn types_in_objects_are_read() {
    assert_eq!(
        parse_cel_type(&json(r#"{"kind": "list", "elementType": "int"}"#)),
        Some(CelType::list(CelType::Int))
    );
    assert_eq!(
        parse_cel_type(&json(
            r#"{"kind": "map", "keyType": "string",
                "valueType": {"kind": "optional", "innerType": "acme.User"}}"#
        )),
        Some(CelType::map(CelType::String, CelType::optional(CelType::message("acme.User"))))
    );
}

#[test]
fn other_values_are_no_types() {
    for text in [
        "null",
        "true",
        "1",
        "[]",
        "{}",
        r#"{"kind": 1}"#,
        r#"{"kind": "set", "elementType": "int"}"#,
        r#"{"kind": "list"}"#,
        r#"{"kind": "list", "elementType": ""}"#,
        r#"{"kind": "map", "keyType": "string"}"#,
        r#"{"kind": "map", "valueType": "string"}"#,
        r#"{"kind": "optional", "innerType": 1}"#,
    ] {
        assert_eq!(parse_cel_type(&json(text)), None, "{text}");
    }
}

#[test]
fn overloads_are_known_by_their_parameters() {
    let overload = parse_overload(
        "f",
        &json(r#"{"params": [{"name": "a", "type": "int"}, {"type": "map(string, list(bool))"}],
            "returnType": "wrapper(type(int))"}"#),
    )
    .unwrap();
    assert_eq!(overload.id, "f_int_map<string, list<bool>>");
    assert_eq!(
        overload.params,
        vec![CelType::Int, CelType::map(CelType::String, CelType::list(CelType::Bool))]
    );
    assert_eq!(overload.result, CelType::wrapper(CelType::type_of(CelType::Int)));
    assert!(!overload.is_member);
    assert!(overload.type_params.is_empty());
}

#[test]
fn names_of_types_are_shown_in_overloads() {
    let overload = parse_overload(
        "g",
        &json(
            r#"{"params": [{"type": "optional(dyn)"}, {"type": "wrapper(uint)"},
                {"type": "type(null)"}, {"type": "a.B"}],
                "returnType": "error"}"#,
        ),
    )
    .unwrap();
    assert_eq!(overload.id, "g_optional<dyn>_wrapper<uint>_type(null)_a.B");
}

#[test]
fn overloads_without_parameters_are_read() {
    let overload = parse_overload("now", &json(r#"{"params": [], "returnType": "timestamp"}"#));
    assert_eq!(overload.unwrap().id, "now_");
}

#[test]
fn malformed_overloads_are_refused() {
    for text in [
        "null",
        r#"{"returnType": "int"}"#,
        r#"{"params": {}, "returnType": "int"}"#,
        r#"{"params": []}"#,
        r#"{"params": [], "returnType": 1}"#,
        r#"{"params": [{"name": "a"}], "returnType": "int"}"#,
        r#"{"params": ["int"], "returnType": "int"}"#,
        r#"{"params": [{"type": "int"}, {"type": "set(int)"}], "returnType": "int"}"#,
    ] {
        assert!(parse_overload("f", &json(text)).is_none(), "{text}");
    }
}

#[test]
fn functions_have_all_their_overloads() {
    let decl = parse_function_decl(&json(
        r#"{"name": "f", "params": [{"type": "int"}], "returnType": "int",
            "overloads": [
                {"params": [{"type": "uint"}], "returnType": "uint"},
                {"params": 1},
                "no overload",
                {"params": [], "returnType": "bool"}
            ]}"#,
    ))
    .unwrap();
    assert_eq!(decl.name, "f");
    let ids: Vec<&str> = decl.overloads.iter().map(|o| o.id.as_str()).collect();
    assert_eq!(ids, vec!["f_int", "f_uint", "f_"]);
}

#[test]
fn functions_may_have_no_overload() {
    let decl = parse_function_decl(&json(r#"{"name": "f"}"#)).unwrap();
    assert!(decl.overloads.is_empty());
    assert!(parse_function_decl(&json(r#"{"params": [], "returnType": "int"}"#)).is_none());
    assert!(parse_function_decl(&json(r#"{"name": 1}"#)).is_none());
    assert!(parse_function_decl(&json("[]")).is_none());
}

#[test]
fn the_last_declaration_of_a_variable_counts() {
    let env = declare(
        Env::new(),
        &json(
            r#"{"variables": [
                {"name": "x", "type": "int"},
                {"name": "y", "type": "bool"},
                {"name": "x", "type": "string"},
                {"name": "y", "type": "set(int)"},
                {"name": 1, "type": "int"},
                {"name": "z"},
                "w"
            ]}"#,
        ),
    );
    assert_eq!(env.variables().len(), 2);
    assert_eq!(env.variables()["x"], CelType::String);
    assert_eq!(env.variables()["y"], CelType::Bool);
}

#[test]
fn declarations_of_a_function_are_merged() {
    let env = declare(
        Env::new(),
        &json(
            r#"{"functions": [
                {"name": "f", "params": [{"type": "int"}], "returnType": "int"},
                {"name": "g"},
                {"params": []},
                {"name": "f", "params": [{"type": "bool"}], "returnType": "int"}
            ]}"#,
        ),
    );
    assert_eq!(env.functions().len(), 2);
    let ids: Vec<&str> = env.functions()["f"].overloads.iter().map(|o| o.id.as_str()).collect();
    assert_eq!(ids, vec!["f_int", "f_bool"]);
    assert!(env.functions()["g"].overloads.is_empty());
}

#[test]
fn options_without_declarations_leave_the_environment() {
    for text in ["{}", "[]", "null", r#"{"variables": {}, "functions": 1}"#] {
        let env = declare(Env::new(), &json(text));
        assert!(env.variables().is_empty());
        assert!(env.functions().is_empty());
    }
}

#[test]
fn standard_environments_declare_the_type_constants() {
    let env = Env::with_standard_library();
    let constant = |name: &str| env.variables().get(name).cloned();
    let of = |inner: CelType| Some(CelType::type_of(inner));
    assert_eq!(env.variables().len(), 11);
    assert_eq!(constant("bool"), of(CelType::Bool));
    assert_eq!(constant("int"), of(CelType::Int));
    assert_eq!(constant("uint"), of(CelType::UInt));
    assert_eq!(constant("double"), of(CelType::Double));
    assert_eq!(constant("string"), of(CelType::String));
    assert_eq!(constant("bytes"), of(CelType::Bytes));
    assert_eq!(constant("list"), of(CelType::list(CelType::Dyn)));
    assert_eq!(constant("map"), of(CelType::map(CelType::Dyn, CelType::Dyn)));
    assert_eq!(constant("null_type"), of(CelType::Null));
    assert_eq!(constant("type"), of(CelType::type_of(CelType::Dyn)));
    assert_eq!(constant("dyn"), of(CelType::Dyn));
    let extended = Env::with_standard_library().with_all_extensions();
    assert_eq!(extended.variables().len(), 12);
    assert_eq!(
        extended.variables()["optional_type"],
        CelType::type_of(CelType::optional(CelType::Dyn))
    );
    for (name, decl) in env.functions() {
        let ids: Vec<&str> = decl.overloads.iter().map(|o| o.id.as_str()).collect();
        let after = &extended.functions()[name].overloads;
        let kept: Vec<&str> = after.iter().take(ids.len()).map(|o| o.id.as_str()).collect();
        assert_eq!(kept, ids);
    }
}
