use aadl2rust::aadl_ast2rust_code::converter::AadlConverter;
use aadl2rust::aadl_ast2rust_code::implementations::conv_thread_impl::{
    create_aperiodic_execution_logic, create_event_collection_logic, create_subprogram_call_logic,
    create_subprogram_call_logic_with_data, extract_data_access_calls, extract_dispatch_protocol,
    extract_event_port_urgency, extract_event_ports, extract_property_value, extract_subprogram_calls,
    get_subprogram_port_type, property_value_to_initializer,
};
use aadl2rust::ast::aadl_ast_cj::{
    AccessConnection, AccessEndpoint, ApplyTerm, BasicPropertyAssociation, CallSequence, CallSequenceClause,
    CalledSubprogram, ComponentCategory, ComponentImplementation, ComponentType, Connection, ConnectionClause,
    ConnectionSymbol, Feature, FeatureClause, ImplementationName, ParameterConnection, ParameterEndpoint,
    PortDataTypeReference, PortDirection, PortSpec, PortType, PrototypeClause, Property, PropertyClause,
    PropertyExpression, PropertyIdentifier, PropertyOperator, PropertyValue, SignedInteger,
    SignedIntergerOrConstant, StringTerm, SubcomponentClause, SubprogramCall, UniqueComponentClassifierReference,
    UniqueImplementationReference,
};
use aadl2rust::intermediate_ast::{Expr, Literal, Statement, StruPropertyValue, Type};
use aadl2rust::aadl_ast2rust_code::implementations::conv_thread_impl::{create_sporadic_execution_logic, create_timed_execution_logic};

fn basic(name: &str, value: PropertyValue) -> Property {
    Property::BasicProperty(BasicPropertyAssociation {
        identifier: PropertyIdentifier { property_set: None, name: name.to_string() },
        operator: PropertyOperator::Assign,
        is_constant: false,
        value,
    })
}

fn urgency(n: &str, port: &str) -> Property {
    basic(
        "Urgency",
        PropertyValue::Single(PropertyExpression::Apply(ApplyTerm { number: n.to_string(), applies_to: port.to_string() })),
    )
}

fn int_prop(name: &str, v: i64) -> Property {
    basic(
        name,
        PropertyValue::Single(PropertyExpression::Integer(SignedIntergerOrConstant::Real(SignedInteger { sign: None, value: v, unit: None }))),
    )
}

fn str_prop(name: &str, v: &str) -> Property {
    basic(name, PropertyValue::Single(PropertyExpression::String(StringTerm::Literal(v.to_string()))))
}

fn impl_ref(name: &str) -> UniqueImplementationReference {
    UniqueImplementationReference {
        package_prefix: None,
        implementation_name: ImplementationName { type_identifier: name.to_string(), implementation_identifier: "impl".to_string() },
    }
}

fn call(id: &str, sub: &str) -> SubprogramCall {
    SubprogramCall {
        identifier: id.to_string(),
        called: CalledSubprogram::Classifier(UniqueComponentClassifierReference::Implementation(impl_ref(sub))),
        properties: Vec::new(),
    }
}

fn thread_impl(id: &str, props: Vec<Property>, calls: Vec<SubprogramCall>, conns: Vec<Connection>) -> ComponentImplementation {
    ComponentImplementation {
        category: ComponentCategory::Thread,
        name: ImplementationName { type_identifier: id.to_string(), implementation_identifier: "impl".to_string() },
        prototype_bindings: None,
        prototypes: PrototypeClause::Omitted,
        subcomponents: SubcomponentClause::Omitted,
        calls: if calls.is_empty() {
            CallSequenceClause::Omitted
        } else {
            CallSequenceClause::Items(vec![CallSequence { identifier: "Mycalls".to_string(), calls, properties: Vec::new(), in_modes: None }])
        },
        connections: if conns.is_empty() { ConnectionClause::Omitted } else { ConnectionClause::Items(conns) },
        properties: PropertyClause::Properties(props),
        annexes: Vec::new(),
    }
}

fn port(id: &str, dir: PortDirection, ty: PortType) -> Feature {
    Feature::Port(PortSpec { identifier: id.to_string(), direction: dir, port_type: ty })
}

fn comp_type(id: &str, features: Vec<Feature>) -> ComponentType {
    ComponentType {
        category: ComponentCategory::Subprogram,
        identifier: id.to_string(),
        prototypes: PrototypeClause::Omitted,
        features: FeatureClause::Items(features),
        properties: PropertyClause::ExplicitNone,
        annexes: Vec::new(),
    }
}

fn type_ref(name: &str) -> PortDataTypeReference {
    PortDataTypeReference::Classifier(UniqueComponentClassifierReference::Type(impl_ref(name)))
}

fn param_conn(src: ParameterEndpoint, dst: ParameterEndpoint) -> Connection {
    Connection::Parameter(ParameterConnection { source: src, destination: dst, connection_direction: ConnectionSymbol::Direct })
}

fn call_param(call: &str, p: &str) -> ParameterEndpoint {
    ParameterEndpoint::SubprogramCallParameter { call_identifier: call.to_string(), parameter: p.to_string() }
}

fn comp_param(p: &str) -> ParameterEndpoint {
    ParameterEndpoint::ComponentParameter { parameter: p.to_string(), data_subcomponent: None }
}

fn dbg<T: std::fmt::Debug>(t: &T) -> String {
    format!("{:?}", t)
}

#[test]
fn initializers_for_each_kind() {
    assert_eq!(property_value_to_initializer(&StruPropertyValue::Boolean(true)), "true");
    assert_eq!(property_value_to_initializer(&StruPropertyValue::Integer(-42)), "-42");
    assert_eq!(property_value_to_initializer(&StruPropertyValue::Float("3".to_string())), "3.0");
    assert_eq!(property_value_to_initializer(&StruPropertyValue::Float("2.5".to_string())), "2.5");
    assert_eq!(property_value_to_initializer(&StruPropertyValue::Float("inf".to_string())), "inf");
    assert_eq!(property_value_to_initializer(&StruPropertyValue::String("hi".to_string())), "\"hi\".to_string()");
    assert_eq!(property_value_to_initializer(&StruPropertyValue::Duration(250, "ms".to_string())), "250");
    assert_eq!(property_value_to_initializer(&StruPropertyValue::Range(1, 9, None)), "(1, 9)");
    assert_eq!(property_value_to_initializer(&StruPropertyValue::NoValue), "None");
    assert_eq!(property_value_to_initializer(&StruPropertyValue::Custom("X::new()".to_string())), "X::new()");
}

#[test]
fn urgencies_sorted_highest_first_stably() {
    let i = thread_impl(
        "T",
        vec![urgency("1", "a"), urgency("5", "b"), int_prop("Period", 10), urgency("x", "bad"), urgency("5", "c"), urgency("3", "d")],
        vec![],
        vec![],
    );
    let u = extract_event_port_urgency(&i);
    let expected: Vec<(String, u32)> = vec![("b".into(), 5), ("c".into(), 5), ("d".into(), 3), ("a".into(), 1)];
    assert_eq!(u, expected);
    for w in u.windows(2) {
        assert!(w[0].1 >= w[1].1);
    }
}

#[test]
fn urgencies_absent_without_properties() {
    let mut i = thread_impl("T", vec![], vec![], vec![]);
    i.properties = PropertyClause::ExplicitNone;
    assert!(extract_event_port_urgency(&i).is_empty());
}

#[test]
fn event_collection_by_urgency_or_first_port() {
    let stmts = create_event_collection_logic(&[("PortA".to_string(), 2)], &["x".to_string()]);
    assert_eq!(stmts.len(), 1);
    let text = dbg(&stmts);
    assert!(text.contains("\"porta\""));
    assert!(text.contains("Int(2)"));
    let fallback = create_event_collection_logic(&[], &["Rx".to_string(), "Other".to_string()]);
    let text = dbg(&fallback);
    assert!(text.contains("\"rx\""));
    assert!(!text.contains("\"other\""));
    let none = create_event_collection_logic(&[], &[]);
    match &none[0] {
        Statement::Expr(Expr::If { then_branch, .. }) => assert!(then_branch.stmts.is_empty()),
        other => panic!("unexpected {:?}", other),
    }
}

#[test]
fn data_access_calls_from_access_connections() {
    let conns = vec![
        Connection::Access(AccessConnection {
            source: AccessEndpoint::ComponentAccess("Pos_Data".to_string()),
            destination: AccessEndpoint::SubcomponentAccess { subcomponent: "P_Spg".to_string(), access: "this".to_string() },
            connection_direction: ConnectionSymbol::Direct,
        }),
        Connection::Access(AccessConnection {
            source: AccessEndpoint::ComponentAccess("Other".to_string()),
            destination: AccessEndpoint::SubcomponentAccess { subcomponent: "unknown".to_string(), access: "this".to_string() },
            connection_direction: ConnectionSymbol::Direct,
        }),
    ];
    let i = thread_impl("T", vec![], vec![call("P_Spg", "Read_Pos")], conns);
    let r = extract_data_access_calls(&i);
    assert_eq!(r, vec![("read_pos".to_string(), "Pos_Data".to_string(), "pos_data".to_string())]);
}

#[test]
fn property_values_and_dispatch_protocol() {
    let c = AadlConverter::default();
    let i = thread_impl("T", vec![int_prop("PERIOD", 100), str_prop("Dispatch_Protocol", "Sporadic")], vec![], vec![]);
    assert_eq!(extract_property_value(&c, &i, "Period"), Some(100));
    assert_eq!(extract_property_value(&c, &i, "deadline"), None);
    assert_eq!(extract_property_value(&c, &i, "dispatch_protocol"), None);
    assert_eq!(extract_dispatch_protocol(&c, &i), Some("Sporadic".to_string()));
    let j = thread_impl("T", vec![int_prop("Dispatch_Protocol", 1)], vec![], vec![]);
    assert_eq!(extract_dispatch_protocol(&c, &j), None);
}

#[test]
fn event_ports_of_component_type() {
    let mut c = AadlConverter::default();
    c.component_types.push((
        "T".to_string(),
        comp_type(
            "T",
            vec![
                port("evt", PortDirection::In, PortType::Event),
                port("data", PortDirection::In, PortType::Data { classifier: None }),
                port("evd", PortDirection::In, PortType::EventData { classifier: None }),
                port("out", PortDirection::Out, PortType::Event),
            ],
        ),
    ));
    let i = thread_impl("T", vec![], vec![], vec![]);
    assert_eq!(extract_event_ports(&c, &i), vec!["evt".to_string(), "evd".to_string()]);
    let j = thread_impl("U", vec![], vec![], vec![]);
    assert!(extract_event_ports(&c, &j).is_empty());
}

fn converter_with_subprogram() -> AadlConverter {
    let mut c = AadlConverter::default();
    c.component_types.push((
        "Send_Spg".to_string(),
        comp_type("Send_Spg", vec![port("Out_Val", PortDirection::Out, PortType::Data { classifier: Some(type_ref("Boolean")) })]),
    ));
    c
}

#[test]
fn subprogram_port_types() {
    let c = converter_with_subprogram();
    assert_eq!(dbg(&get_subprogram_port_type(&c, "send_spg", "out_val")), dbg(&Type::Named("bool".to_string())));
    assert_eq!(dbg(&get_subprogram_port_type(&c, "send_spg", "missing")), dbg(&Type::Named("i32".to_string())));
}

#[test]
fn subprogram_calls_and_their_code() {
    let c = converter_with_subprogram();
    let i = thread_impl(
        "T",
        vec![],
        vec![call("P_Send", "Send_Spg"), call("P_Recv", "Recv_Spg"), call("P_Run", "Run_Spg")],
        vec![
            param_conn(call_param("P_Send", "Out_Val"), comp_param("Evt_Out")),
            param_conn(comp_param("Data_In"), call_param("P_Recv", "In_Val")),
        ],
    );
    let calls = extract_subprogram_calls(&c, &i);
    assert_eq!(calls.len(), 2);
    assert_eq!((calls[0].0.as_str(), calls[0].1.as_str(), calls[0].2.as_str(), calls[0].3), ("out_val", "p_send", "evt_out", true));
    assert_eq!(dbg(&calls[0].4), dbg(&Type::Named("bool".to_string())));
    assert_eq!((calls[1].0.as_str(), calls[1].1.as_str(), calls[1].2.as_str(), calls[1].3), ("in_val", "p_recv", "data_in", false));
    assert_eq!(dbg(&calls[1].4), dbg(&Type::Named("i32".to_string())));

    let stmts = create_subprogram_call_logic(&c, &i);
    // the sequence comment, then a comment and a statement per call
    assert_eq!(stmts.len(), 7);
    match &stmts[0] {
        Statement::Expr(Expr::Ident(s)) => assert!(s.ends_with("// p_send() -> p_recv() -> p_run()")),
        other => panic!("unexpected {:?}", other),
    }
    assert!(matches!(&stmts[1], Statement::Expr(Expr::Ident(s)) if s == "// p_send"));
    let send = dbg(&stmts[2]);
    assert!(send.contains("Some(sender)") && send.contains("Bool(false)") && send.contains("\"send_spg\""));
    let recv = dbg(&stmts[4]);
    assert!(recv.contains("Some(receiver)") && recv.contains("try_recv"));
    let run = dbg(&stmts[6]);
    assert!(run.contains("\"run_spg\"") && run.contains("\"execute\""));

    let with_data = create_subprogram_call_logic_with_data(&c, &i, true);
    match &with_data[4] {
        Statement::Expr(Expr::Call(f, args)) => {
            assert_eq!(dbg(f), dbg(&Expr::Path(vec!["recv_spg".to_string(), "receive".to_string()], aadl2rust::intermediate_ast::PathType::Namespace)));
            assert_eq!(args.len(), 1);
        }
        other => panic!("unexpected {:?}", other),
    }
}

#[test]
fn subprogram_with_shared_data_locks_it() {
    let c = AadlConverter::default();
    let i = thread_impl(
        "T",
        vec![],
        vec![call("P_Spg", "Update")],
        vec![Connection::Access(AccessConnection {
            source: AccessEndpoint::ComponentAccess("Shared_X".to_string()),
            destination: AccessEndpoint::SubcomponentAccess { subcomponent: "P_Spg".to_string(), access: "this".to_string() },
            connection_direction: ConnectionSymbol::Direct,
        })],
    );
    let stmts = create_subprogram_call_logic(&c, &i);
    assert_eq!(stmts.len(), 3);
    let lock = dbg(&stmts[2]);
    assert!(lock.contains("Ok(mut guard)") && lock.contains("\"shared_x\"") && lock.contains("\"update\""));
}

#[test]
fn no_calls_no_code() {
    let c = AadlConverter::default();
    let i = thread_impl("T", vec![], vec![], vec![]);
    assert!(create_subprogram_call_logic(&c, &i).is_empty());
}

#[test]
fn aperiodic_thread_body() {
    let mut c = converter_with_subprogram();
    c.component_types.push(("T".to_string(), comp_type("T", vec![port("Evt", PortDirection::In, PortType::Event)])));
    let i = thread_impl("T", vec![urgency("4", "Evt")], vec![call("P_Run", "Run_Spg")], vec![]);
    let stmts = create_aperiodic_execution_logic(&c, &i);
    assert_eq!(stmts.len(), 2);
    assert!(matches!(&stmts[0], Statement::Let(l) if l.name == "events" && l.ifmut));
    match &stmts[1] {
        Statement::Expr(Expr::Loop(body)) => {
            assert_eq!(body.stmts.len(), 2);
            let handle = dbg(&body.stmts[1]);
            assert!(handle.contains("max_by") && handle.contains("\"run_spg\""));
            assert!(handle.contains("from_millis") && handle.contains("Int(1)"));
        }
        other => panic!("unexpected {:?}", other),
    }
    let _ = Literal::Int(0);
}

#[test]
fn sporadic_and_timed_thread_bodies() {
    let mut c = converter_with_subprogram();
    c.component_types.push(("T".to_string(), comp_type("T", vec![port("Evt", PortDirection::In, PortType::Event)])));
    let i = thread_impl("T", vec![int_prop("Period", 250)], vec![call("P_Run", "Run_Spg")], vec![]);
    let s = create_sporadic_execution_logic(&c, &i);
    assert_eq!(s.len(), 4);
    let first = dbg(&s[0]);
    assert!(first.contains("\"min_interarrival\"") && first.contains("Int(250)"));
    assert!(matches!(&s[1], Statement::Let(l) if l.name == "last_dispatch" && l.ifmut));
    let body = dbg(&s[3]);
    assert!(body.contains("duration_since") && body.contains("\"last_dispatch\"") && body.contains("\"run_spg\""));

    let j = thread_impl("T", vec![], vec![], vec![]);
    let t = create_timed_execution_logic(&c, &j);
    assert_eq!(t.len(), 4);
    assert!(dbg(&t[0]).contains("Int(1000)"));
    let body = dbg(&t[3]);
    assert!(body.contains("tThread: timeout dispatch → Recover_Entrypoint"));
    assert!(body.contains("// recover_entrypoint();"));
}
