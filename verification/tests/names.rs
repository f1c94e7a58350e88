use aadl2rust::ast::aadl_ast_cj::{ImplementationName, PackageName};

#[test]
fn package_name_joins_with_double_colons() {
    let p = PackageName(vec!["a".to_string(), "b".to_string(), "c".to_string()]);
    assert_eq!(p.to_string(), "a::b::c");
}

#[test]
fn package_name_single_and_empty() {
    assert_eq!(PackageName(vec!["only".to_string()]).to_string(), "only");
    assert_eq!(PackageName(vec![]).to_string(), "");
}

#[test]
fn implementation_name_with_dot() {
    let n = ImplementationName {
        type_identifier: "sensor".to_string(),
        implementation_identifier: "impl".to_string(),
    };
    assert_eq!(n.to_string(), "sensor.impl");
}
