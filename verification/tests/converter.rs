use aadl2rust::aadl_ast2rust_code::converter::connection_debug_text;
use aadl2rust::ast::aadl_ast_cj::{AccessConnection, AccessEndpoint, Connection, ParameterConnection, ParameterEndpoint};
use aadl2rust::aadl_ast2rust_code::converter::AadlConverter;
use aadl2rust::ast::aadl_ast_cj::{
    BasicPropertyAssociation, BooleanTerm, ComponentCategory, ComponentImplementation, ComponentRef,
    ComponentType, FeatureClause, ImplementationName, IntegerRangeTerm, PortDataTypeReference,
    PortDirection, PortSpec, PortType, PrototypeClause, Property, PropertyClause, PropertyConstantTerm,
    PropertyExpression, PropertyIdentifier, PropertyOperator, PropertyValue, Sign, SignedInteger,
    SignedIntergerOrConstant, SignedReal, SignedRealOrConstant, StringTerm, StringWithUnit,
    SubcomponentClause, CallSequenceClause, ConnectionClause, UniqueComponentClassifierReference,
    UniqueImplementationReference,
};
use aadl2rust::intermediate_ast::{Expr, Literal, StruPropertyValue, Type};
use aadl2rust::ast::aadl_ast_cj::{ConnectionSymbol, PortConnection, PortEndpoint};
use aadl2rust::intermediate_ast::Statement;

fn basic(name: &str, value: PropertyValue) -> Property {
    Property::BasicProperty(BasicPropertyAssociation {
        identifier: PropertyIdentifier { property_set: None, name: name.to_string() },
        operator: PropertyOperator::Assign,
        is_constant: false,
        value,
    })
}

fn comp_type(category: ComponentCategory, id: &str, props: Vec<Property>) -> ComponentType {
    ComponentType {
        category,
        identifier: id.to_string(),
        prototypes: PrototypeClause::Omitted,
        features: FeatureClause::Omitted,
        properties: PropertyClause::Properties(props),
        annexes: Vec::new(),
    }
}

fn comp_impl(id: &str, props: Vec<Property>) -> ComponentImplementation {
    ComponentImplementation {
        category: ComponentCategory::Thread,
        name: ImplementationName { type_identifier: id.to_string(), implementation_identifier: "impl".to_string() },
        prototype_bindings: None,
        prototypes: PrototypeClause::Omitted,
        subcomponents: SubcomponentClause::Omitted,
        calls: CallSequenceClause::Omitted,
        connections: ConnectionClause::Omitted,
        properties: PropertyClause::Properties(props),
        annexes: Vec::new(),
    }
}

fn type_ref(name: &str) -> PortDataTypeReference {
    PortDataTypeReference::Classifier(UniqueComponentClassifierReference::Type(UniqueImplementationReference {
        package_prefix: None,
        implementation_name: ImplementationName { type_identifier: name.to_string(), implementation_identifier: String::new() },
    }))
}

fn dbg<T: std::fmt::Debug>(t: &T) -> String {
    format!("{:?}", t)
}

#[test]
fn default_type_table_holds_base_types() {
    let c = AadlConverter::default();
    assert_eq!(c.type_mappings.len(), 16);
    assert_eq!(dbg(&c.classifier_to_type(&type_ref("Integer_16"))), dbg(&Type::Named("i16".to_string())));
    assert_eq!(dbg(&c.classifier_to_type(&type_ref("Float"))), dbg(&Type::Named("f32".to_string())));
    assert_eq!(dbg(&c.classifier_to_type(&type_ref("Natural"))), dbg(&Type::Named("usize".to_string())));
    assert!(c.component_types.is_empty());
}

#[test]
fn classifier_without_mapping_stands_for_itself() {
    let c = AadlConverter::default();
    assert_eq!(dbg(&c.classifier_to_type(&type_ref("Pos_Type"))), dbg(&Type::Named("Pos_Type".to_string())));
    assert_eq!(
        dbg(&c.classifier_to_type(&PortDataTypeReference::Prototype("p".to_string()))),
        dbg(&Type::Named("()".to_string()))
    );
}

#[test]
fn paramport_types() {
    let c = AadlConverter::default();
    let port = |dir: PortDirection, ty: PortType| PortSpec { identifier: "p".to_string(), direction: dir, port_type: ty };
    let t = c.convert_paramport_type(&port(PortDirection::In, PortType::Data { classifier: Some(type_ref("Boolean")) }));
    assert_eq!(dbg(&t), dbg(&Type::Named("bool".to_string())));
    let t = c.convert_paramport_type(&port(PortDirection::Out, PortType::EventData { classifier: None }));
    assert_eq!(dbg(&t), dbg(&Type::Named("i32".to_string())));
    let t = c.convert_paramport_type(&port(PortDirection::In, PortType::Data { classifier: None }));
    assert_eq!(dbg(&t), dbg(&Type::Named("(error)".to_string())));
    let t = c.convert_paramport_type(&port(PortDirection::In, PortType::Event));
    assert_eq!(dbg(&t), dbg(&Type::Named("()".to_string())));
}

#[test]
fn type_for_property_names() {
    let c = AadlConverter::default();
    assert_eq!(c.type_for_property(&StruPropertyValue::Boolean(true)), "bool");
    assert_eq!(c.type_for_property(&StruPropertyValue::Integer(-3)), "u64");
    assert_eq!(c.type_for_property(&StruPropertyValue::Float("1.5".to_string())), "f64");
    assert_eq!(c.type_for_property(&StruPropertyValue::String("x".to_string())), "String");
    assert_eq!(c.type_for_property(&StruPropertyValue::Duration(5, "ms".to_string())), "u64");
    assert_eq!(c.type_for_property(&StruPropertyValue::Range(1, 2, None)), "(u64, u64)");
    assert_eq!(c.type_for_property(&StruPropertyValue::NoValue), "None");
    assert_eq!(c.type_for_property(&StruPropertyValue::Custom("MyT".to_string())), "MyT");
}

#[test]
fn parse_terms() {
    let c = AadlConverter::default();
    let int = |sign: Option<Sign>, v: i64| {
        PropertyExpression::Integer(SignedIntergerOrConstant::Real(SignedInteger { sign, value: v, unit: None }))
    };
    assert_eq!(dbg(&c.parse_property_expression(&int(Some(Sign::Minus), 7))), dbg(&Some(StruPropertyValue::Integer(-7))));
    assert_eq!(dbg(&c.parse_property_expression(&int(None, 7))), dbg(&Some(StruPropertyValue::Integer(7))));
    let real = |sign: Option<Sign>, v: &str| {
        PropertyExpression::Real(SignedRealOrConstant::Real(SignedReal { sign, value: v.to_string(), unit: None }))
    };
    assert_eq!(dbg(&c.parse_property_expression(&real(Some(Sign::Minus), "2.5"))), dbg(&Some(StruPropertyValue::Float("-2.5".to_string()))));
    assert_eq!(dbg(&c.parse_property_expression(&real(Some(Sign::Minus), "-2.5"))), dbg(&Some(StruPropertyValue::Float("2.5".to_string()))));
    assert_eq!(dbg(&c.parse_property_expression(&real(Some(Sign::Minus), "NaN"))), dbg(&Some(StruPropertyValue::Float("NaN".to_string()))));
    assert_eq!(dbg(&c.parse_property_expression(&real(Some(Sign::Plus), "3"))), dbg(&Some(StruPropertyValue::Float("3".to_string()))));
    let b = PropertyExpression::Boolean(BooleanTerm::Literal(true));
    assert_eq!(dbg(&c.parse_property_expression(&b)), dbg(&Some(StruPropertyValue::Boolean(true))));
    let constant = PropertyExpression::Boolean(BooleanTerm::Constant(PropertyConstantTerm { property_set: None, name: "k".to_string() }));
    assert!(c.parse_property_expression(&constant).is_none());
    let s = PropertyExpression::String(StringTerm::Literal("periodic".to_string()));
    assert_eq!(dbg(&c.parse_property_expression(&s)), dbg(&Some(StruPropertyValue::String("periodic".to_string()))));
}

#[test]
fn parse_ranges() {
    let c = AadlConverter::default();
    let range = |lo: &str, hi: &str| {
        PropertyExpression::IntegerRange(IntegerRangeTerm {
            lower: StringWithUnit { value: lo.to_string(), unit: Some("ms".to_string()) },
            upper: StringWithUnit { value: hi.to_string(), unit: Some("s".to_string()) },
        })
    };
    assert_eq!(dbg(&c.parse_property_expression(&range("10", "+20"))), dbg(&Some(StruPropertyValue::Range(10, 20, Some("ms".to_string())))));
    assert!(c.parse_property_expression(&range("-1", "2")).is_none());
    assert!(c.parse_property_expression(&range("1", "x")).is_none());
}

#[test]
fn convert_properties_keeps_readable_ones_in_order() {
    let c = AadlConverter::default();
    let t = comp_type(
        ComponentCategory::Thread,
        "T",
        vec![
            basic("Period", PropertyValue::Single(PropertyExpression::Integer(SignedIntergerOrConstant::Real(SignedInteger { sign: None, value: 100, unit: None })))),
            basic("Skip", PropertyValue::List(Vec::new())),
            basic("Dispatch_Protocol", PropertyValue::Single(PropertyExpression::String(StringTerm::Literal("Periodic".to_string())))),
        ],
    );
    let props = c.convert_properties(ComponentRef::Type(&t));
    assert_eq!(props.len(), 2);
    assert_eq!(props[0].name, "Period");
    assert_eq!(props[0].docs, vec!["// AADL属性: Period".to_string()]);
    assert_eq!(dbg(&props[0].value), dbg(&StruPropertyValue::Integer(100)));
    assert_eq!(props[1].name, "Dispatch_Protocol");
    let v = c.parse_property_value(&PropertyValue::List(Vec::new()));
    assert!(v.is_none());
    let i = comp_impl("T", vec![]);
    assert!(c.convert_properties(ComponentRef::Impl(&i)).is_empty());
}

#[test]
fn component_docs() {
    let c = AadlConverter::default();
    let t = comp_type(ComponentCategory::Thread, "MyThread", vec![]);
    assert_eq!(c.create_component_type_docs(&t), vec!["// AADL Thread: mythread".to_string()]);
    let mut i = comp_impl("Proc", vec![]);
    i.category = ComponentCategory::Process;
    assert_eq!(c.create_component_impl_docs(&i), vec!["// AADL Process: proc".to_string()]);
}

#[test]
fn component_type_lookup_by_exact_name() {
    let mut c = AadlConverter::default();
    c.component_types.push(("T".to_string(), comp_type(ComponentCategory::Thread, "T", vec![])));
    let i = comp_impl("T", vec![]);
    assert_eq!(c.get_component_type(&i).map(|t| t.identifier.clone()), Some("T".to_string()));
    let j = comp_impl("t", vec![]);
    assert!(c.get_component_type(&j).is_none());
}

#[test]
fn default_values() {
    let mut c = AadlConverter::default();
    let named = |s: &str| Type::Named(s.to_string());
    assert_eq!(dbg(&c.generate_default_value_for_type(&named("bool"))), dbg(&Expr::Literal(Literal::Bool(false))));
    assert_eq!(dbg(&c.generate_default_value_for_type(&named("u16"))), dbg(&Expr::Literal(Literal::Int(0))));
    assert_eq!(dbg(&c.generate_default_value_for_type(&named("f64"))), dbg(&Expr::Literal(Literal::Float("0.0".to_string()))));
    assert_eq!(dbg(&c.generate_default_value_for_type(&named("char"))), dbg(&Expr::Literal(Literal::Char('\0'))));
    assert_eq!(dbg(&c.generate_default_value_for_type(&named("String"))), dbg(&Expr::Literal(Literal::Str(String::new()))));
    // through the table: Boolean -> bool
    assert_eq!(dbg(&c.generate_default_value_for_type(&named("Boolean"))), dbg(&Expr::Literal(Literal::Bool(false))));
    // no entry: the name decides
    assert_eq!(dbg(&c.generate_default_value_for_type(&named("MyBoolFlag"))), dbg(&Expr::Literal(Literal::Bool(false))));
    assert_eq!(dbg(&c.generate_default_value_for_type(&named("Speed"))), dbg(&Expr::Literal(Literal::Int(0))));
    assert_eq!(dbg(&c.generate_default_value_for_type(&Type::Unit)), dbg(&Expr::Literal(Literal::Int(0))));
    // a chain of two entries
    c.type_mappings.push(("alias".to_string(), named("Character")));
    assert_eq!(dbg(&c.generate_default_value_for_type(&named("Alias"))), dbg(&Expr::Literal(Literal::Char('\0'))));
}

#[test]
fn port_types_by_direction_and_broadcast() {
    let mut c = AadlConverter::default();
    let p = |id: &str, dir: PortDirection| PortSpec {
        identifier: id.to_string(),
        direction: dir,
        port_type: PortType::Data { classifier: Some(type_ref("Integer")) },
    };
    let expect = |end: &str, inner: &str| {
        dbg(&Type::Generic("Option".to_string(), vec![Type::Generic(end.to_string(), vec![Type::Named(inner.to_string())])]))
    };
    assert_eq!(dbg(&c.convert_port_type(&p("a", PortDirection::In), String::new())), expect("Receiver", "i32"));
    assert_eq!(dbg(&c.convert_port_type(&p("a", PortDirection::Out), String::new())), expect("Sender", "i32"));
    assert_eq!(dbg(&c.convert_port_type(&p("a", PortDirection::InOut), String::new())), expect("Sender", "i32"));
    // the system broadcasts from sub1.out to sub2.in
    c.system_subcomponent_identify_to_type.push(("sub1".to_string(), "Producer".to_string()));
    c.system_subcomponent_identify_to_type.push(("sub2".to_string(), "Consumer".to_string()));
    c.process_broadcast_receive.push((("sub1".to_string(), "out".to_string()), vec![("sub2".to_string(), "in".to_string())]));
    assert_eq!(dbg(&c.convert_port_type(&p("out", PortDirection::Out), "Producer".to_string())), expect("BcSender", "i32"));
    assert_eq!(dbg(&c.convert_port_type(&p("in", PortDirection::In), "Consumer".to_string())), expect("BcReceiver", "i32"));
    assert_eq!(dbg(&c.convert_port_type(&p("in", PortDirection::In), "Other".to_string())), expect("Receiver", "i32"));
}

#[test]
fn channel_connections() {
    let mut c = AadlConverter::default();
    let conn = |src: PortEndpoint, dst: PortEndpoint| PortConnection {
        identifier: "c1".to_string(),
        source: src,
        destination: dst,
        connection_direction: ConnectionSymbol::Direct,
    };
    let sub = |s: &str, p: &str| PortEndpoint::SubcomponentPort { subcomponent: s.to_string(), port: p.to_string() };
    let stmts = c.create_channel_connection(&conn(sub("A", "Out"), sub("B", "In")), "P".to_string());
    assert_eq!(stmts.len(), 3);
    assert!(matches!(&stmts[0], Statement::Let(l) if l.name == "c1"));
    let text = dbg(&stmts);
    assert!(text.contains("\"a.out\"") && text.contains("\"c1.0\"") && text.contains("\"b.in\"") && text.contains("\"c1.1\""));
    // into the component's own port
    let stmts = c.create_channel_connection(&conn(sub("A", "Out"), PortEndpoint::ComponentPort("Evt".to_string())), "P".to_string());
    assert_eq!(stmts.len(), 3);
    assert!(dbg(&stmts[2]).contains("\"evtRece\""));
    // an unsupported pair of ends
    let stmts = c.create_channel_connection(
        &conn(PortEndpoint::DataSubcomponent("d".to_string()), PortEndpoint::ComponentPort("x".to_string())),
        "P".to_string(),
    );
    match &stmts[1] {
        Statement::Expr(aadl2rust::intermediate_ast::Expr::Ident(s)) => assert_eq!(
            s,
            "// TODO: Unsupported connection type: DataSubcomponent(\"d\") -> ComponentPort(\"x\")"
        ),
        other => panic!("unexpected {:?}", other),
    }
    // a broadcast from sub A's port Out
    c.process_broadcast_send.push(("A".to_string(), "Out".to_string()));
    c.process_broadcast_receive.push((("A".to_string(), "Out".to_string()), vec![("b".to_string(), "in".to_string()), ("c".to_string(), "in".to_string())]));
    let stmts = c.create_channel_connection(&conn(sub("A", "Out"), sub("B", "In")), "P".to_string());
    assert!(matches!(&stmts[0], Statement::Let(l) if l.name == "channel"));
    assert_eq!(stmts.len(), 4);
    assert!(dbg(&stmts[3]).contains("channel.0.subscribe()"));
}

#[test]
fn connection_debug_text_matches_debug() {
    let cases = vec![
        Connection::Parameter(ParameterConnection {
            source: ParameterEndpoint::ComponentParameter { parameter: "p\"q".to_string(), data_subcomponent: Some("d".to_string()) },
            destination: ParameterEndpoint::ThreadPort { port: "t".to_string(), data_subcomponent: None },
            connection_direction: ConnectionSymbol::Direct,
        }),
        Connection::Parameter(ParameterConnection {
            source: ParameterEndpoint::SubprogramCallParameter { call_identifier: "c".to_string(), parameter: "x".to_string() },
            destination: ParameterEndpoint::FeatureGroupElement { feature_group: "g".to_string(), element: "e".to_string() },
            connection_direction: ConnectionSymbol::Didirect,
        }),
        Connection::Access(AccessConnection {
            source: AccessEndpoint::ComponentAccess("a".to_string()),
            destination: AccessEndpoint::SubcomponentAccess { subcomponent: "s".to_string(), access: "b".to_string() },
            connection_direction: ConnectionSymbol::Direct,
        }),
        Connection::Port(PortConnection {
            identifier: "c1".to_string(),
            source: PortEndpoint::ComponentPort("i".to_string()),
            destination: PortEndpoint::SubcomponentPort { subcomponent: "s".to_string(), port: "o".to_string() },
            connection_direction: ConnectionSymbol::Direct,
        }),
    ];
    for c in &cases {
        assert_eq!(connection_debug_text(c), format!("{:?}", c));
    }
}
