use tinyscript::parser::LiteralVariable;
use tinyscript::types::Types;
use tinyscript::variables::Variables;

fn value(kind: Types, text: &str) -> LiteralVariable {
    LiteralVariable { var_type: kind, value: text.to_string() }
}

#[test]
fn a_new_table_binds_nothing() {
    let table = Variables::new();
    assert!(table.get("x").is_none());
    assert!(table.bindings.is_empty());
}

#[test]
fn a_defined_name_is_found() {
    let mut table = Variables::new();
    table.define("x".to_string(), value(Types::Int, "5"));
    let found = table.get("x").unwrap();
    assert_eq!(found.var_type, Types::Int);
    assert_eq!(found.value, "5");
    assert!(table.get("y").is_none());
    assert!(table.get("").is_none());
}

#[test]
fn defining_again_overwrites_value_and_kind() {
    let mut table = Variables::new();
    table.define("x".to_string(), value(Types::Int, "5"));
    table.define("y".to_string(), value(Types::String, "s"));
    table.define("x".to_string(), value(Types::Float, "7.5"));
    assert_eq!(table.bindings.len(), 2);
    let x = table.get("x").unwrap();
    assert_eq!(x.var_type, Types::Float);
    assert_eq!(x.value, "7.5");
    let y = table.get("y").unwrap();
    assert_eq!(y.var_type, Types::String);
    assert_eq!(y.value, "s");
    assert_eq!(table.bindings[0].name, "x");
    assert_eq!(table.bindings[1].name, "y");
}
