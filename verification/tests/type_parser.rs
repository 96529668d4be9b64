use cel_core::CelType;
use celsp::type_parser::{parse_type_string, split_map_types};

fn error(s: &str) -> String {
    parse_type_string(s).unwrap_err()
}

#[test]
fn scalar_types_parse() {
    assert_eq!(parse_type_string("bool"), Ok(CelType::Bool));
    assert_eq!(parse_type_string("int"), Ok(CelType::Int));
    assert_eq!(parse_type_string("uint"), Ok(CelType::UInt));
    assert_eq!(parse_type_string("double"), Ok(CelType::Double));
    assert_eq!(parse_type_string("string"), Ok(CelType::String));
    assert_eq!(parse_type_string("bytes"), Ok(CelType::Bytes));
    assert_eq!(parse_type_string("null"), Ok(CelType::Null));
    assert_eq!(parse_type_string("dyn"), Ok(CelType::Dyn));
    assert_eq!(parse_type_string("timestamp"), Ok(CelType::Timestamp));
    assert_eq!(parse_type_string("duration"), Ok(CelType::Duration));
    assert_eq!(parse_type_string("error"), Ok(CelType::Error));
}

#[test]
fn parameterized_types_parse() {
    assert_eq!(parse_type_string("list(int)"), Ok(CelType::list(CelType::Int)));
    assert_eq!(
        parse_type_string("map(string, int)"),
        Ok(CelType::map(CelType::String, CelType::Int))
    );
    assert_eq!(parse_type_string("optional(bool)"), Ok(CelType::optional(CelType::Bool)));
    assert_eq!(parse_type_string("type(dyn)"), Ok(CelType::type_of(CelType::Dyn)));
    assert_eq!(parse_type_string("wrapper(uint)"), Ok(CelType::wrapper(CelType::UInt)));
    assert_eq!(
        parse_type_string("map(string, map(int, list(optional(bytes))))"),
        Ok(CelType::map(
            CelType::String,
            CelType::map(CelType::Int, CelType::list(CelType::optional(CelType::Bytes)))
        ))
    );
}

#[test]
fn other_names_are_messages() {
    assert_eq!(parse_type_string("acme.User"), Ok(CelType::message("acme.User")));
    assert_eq!(
        parse_type_string("list(acme.User)"),
        Ok(CelType::list(CelType::message("acme.User")))
    );
    assert_eq!(parse_type_string("Int"), Ok(CelType::message("Int")));
    assert_eq!(parse_type_string("a,b)"), Ok(CelType::message("a,b)")));
}

#[test]
fn white_space_around_types_is_ignored() {
    let spaces = "\u{9}\u{A}\u{B}\u{C}\u{D}\u{20}\u{85}\u{A0}\u{1680}\u{2000}\u{2001}\u{2002}\
        \u{2003}\u{2004}\u{2005}\u{2006}\u{2007}\u{2008}\u{2009}\u{200A}\u{2028}\u{2029}\u{202F}\
        \u{205F}\u{3000}";
    for c in spaces.chars() {
        assert_eq!(parse_type_string(&format!("{c}int{c}{c}")), Ok(CelType::Int));
    }
    assert_eq!(
        parse_type_string(" map( string ,\tlist( int ) ) "),
        Ok(CelType::map(CelType::String, CelType::list(CelType::Int)))
    );
    assert_eq!(parse_type_string("\u{200B}int"), Ok(CelType::message("\u{200B}int")));
}

#[test]
fn white_space_before_parentheses_counts() {
    assert_eq!(error("list (int)"), "unknown parameterized type: 'list '");
}

#[test]
fn malformed_types_are_refused() {
    assert_eq!(error(""), "empty type string");
    assert_eq!(error(" \n"), "empty type string");
    assert_eq!(error("list()"), "empty type string");
    assert_eq!(error("list(int"), "malformed type string: missing closing paren in 'list(int'");
    assert_eq!(error(" list(int) x"), "malformed type string: missing closing paren in 'list(int) x'");
    assert_eq!(error("set(int)"), "unknown parameterized type: 'set'");
    assert_eq!(error("(int)"), "unknown parameterized type: ''");
    assert_eq!(error("list(set(int))"), "unknown parameterized type: 'set'");
}

#[test]
fn malformed_map_types_are_refused() {
    assert_eq!(error("map(int)"), "map type must have 2 parameters: 'int'");
    assert_eq!(error("map()"), "map type must have 2 parameters: ''");
    assert_eq!(error("map(a, b, c)"), "map type has more than 2 parameters: 'a, b, c'");
    assert_eq!(error("map(a), b)"), "unbalanced parentheses in map type: 'a), b'");
    assert_eq!(error("map(list(a, b)"), "unbalanced parentheses in map type: 'list(a, b'");
    assert_eq!(error("map(, int)"), "empty type string");
    assert_eq!(error("map(int, )"), "empty type string");
    assert_eq!(error("map(set(int), zip(int))"), "unknown parameterized type: 'set'");
}

#[test]
fn the_first_fault_of_a_map_type_is_reported() {
    assert_eq!(
        split_map_types("a, b, c)"),
        Err("map type has more than 2 parameters: 'a, b, c)'".to_string())
    );
    assert_eq!(
        split_map_types("a), b, c"),
        Err("unbalanced parentheses in map type: 'a), b, c'".to_string())
    );
    assert_eq!(
        split_map_types("a, (b"),
        Err("unbalanced parentheses in map type: 'a, (b'".to_string())
    );
}

#[test]
fn map_types_split_at_the_outer_comma() {
    assert_eq!(split_map_types("string, int"), Ok(("string", "int")));
    assert_eq!(split_map_types("map(a, b) ,  list(c)"), Ok(("map(a, b)", "list(c)")));
    assert_eq!(split_map_types("größe, δ"), Ok(("größe", "δ")));
}

#[test]
fn written_types_parse_back() {
    let text = "map(optional(string), wrapper(type(list(acme.User))))";
    let parsed = parse_type_string(text).unwrap();
    assert_eq!(
        parsed,
        CelType::map(
            CelType::optional(CelType::String),
            CelType::wrapper(CelType::type_of(CelType::list(CelType::message("acme.User"))))
        )
    );
}
