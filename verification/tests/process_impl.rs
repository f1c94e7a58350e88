use aadl2rust::aadl_ast2rust_code::implementations::conv_process_impl::{
    create_data_forwarding_tasks, create_single_forwarding_thread,
};
use aadl2rust::ast::aadl_ast_cj::{
    CallSequenceClause, ComponentCategory, ComponentImplementation, Connection, ConnectionClause,
    ConnectionSymbol, ImplementationName, PortConnection, PortEndpoint, PrototypeClause, PropertyClause,
    SubcomponentClause,
};
use aadl2rust::aadl_ast2rust_code::converter::AadlConverter;
use aadl2rust::aadl_ast2rust_code::implementations::conv_process_impl::{create_process_new_body, get_process_fields};
use aadl2rust::ast::aadl_ast_cj::{AccessConnection, AccessEndpoint, ComponentType, Feature, FeatureClause, PortDirection, PortSpec, PortType, Subcomponent, SubcomponentClassifier, UniqueComponentClassifierReference, UniqueImplementationReference};
use aadl2rust::intermediate_ast::{Statement, Type};

fn process(conns: Vec<Connection>) -> ComponentImplementation {
    ComponentImplementation {
        category: ComponentCategory::Process,
        name: ImplementationName { type_identifier: "P".to_string(), implementation_identifier: "impl".to_string() },
        prototype_bindings: None,
        prototypes: PrototypeClause::Omitted,
        subcomponents: SubcomponentClause::Omitted,
        calls: CallSequenceClause::Omitted,
        connections: ConnectionClause::Items(conns),
        properties: PropertyClause::ExplicitNone,
        annexes: Vec::new(),
    }
}

fn port_conn(src: PortEndpoint, dst: PortEndpoint) -> Connection {
    Connection::Port(PortConnection { identifier: "cnx".to_string(), source: src, destination: dst, connection_direction: ConnectionSymbol::Direct })
}

fn sub_port(s: &str, p: &str) -> PortEndpoint {
    PortEndpoint::SubcomponentPort { subcomponent: s.to_string(), port: p.to_string() }
}

#[test]
fn forwarding_tasks_between_process_and_threads() {
    let i = process(vec![
        port_conn(PortEndpoint::ComponentPort("Evt_In".to_string()), sub_port("th", "p")),
        port_conn(sub_port("th", "q"), PortEndpoint::ComponentPort("Evt_Out".to_string())),
        port_conn(sub_port("a", "x"), sub_port("b", "y")),
    ]);
    let t = create_data_forwarding_tasks(&i);
    assert_eq!(
        t,
        vec![
            ("evt_in".to_string(), "evt_inSend".to_string()),
            ("evt_outRece".to_string(), "evt_out".to_string()),
        ]
    );
}

#[test]
fn forwarding_thread_mentions_its_ends() {
    let stmts = create_single_forwarding_thread("evt_in", "evt_inSend");
    assert!(!stmts.is_empty());
    let text = format!("{:?}", stmts);
    assert!(text.contains("evt_in") && text.contains("evt_inSend"));
}

#[test]
fn process_fields_and_constructor() {
    let mut c = AadlConverter::default();
    c.component_types.push((
        "P".to_string(),
        ComponentType {
            category: ComponentCategory::Process,
            identifier: "P".to_string(),
            prototypes: PrototypeClause::Omitted,
            features: FeatureClause::Items(vec![Feature::Port(PortSpec {
                identifier: "Evt_In".to_string(),
                direction: PortDirection::In,
                port_type: PortType::Event,
            })]),
            properties: PropertyClause::ExplicitNone,
            annexes: Vec::new(),
        },
    ));
    let sub = |id: &str, cat: ComponentCategory, ty: &str| Subcomponent {
        identifier: id.to_string(),
        category: cat,
        classifier: SubcomponentClassifier::ClassifierReference(UniqueComponentClassifierReference::Implementation(
            UniqueImplementationReference {
                package_prefix: None,
                implementation_name: ImplementationName { type_identifier: ty.to_string(), implementation_identifier: "Impl".to_string() },
            },
        )),
        array_spec: None,
        properties: Vec::new(),
    };
    let mut i = process(vec![
        port_conn(PortEndpoint::ComponentPort("Evt_In".to_string()), sub_port("th", "p")),
        Connection::Access(AccessConnection {
            source: AccessEndpoint::ComponentAccess("Pos".to_string()),
            destination: AccessEndpoint::SubcomponentAccess { subcomponent: "Th".to_string(), access: "d".to_string() },
            connection_direction: ConnectionSymbol::Direct,
        }),
    ]);
    i.subcomponents = SubcomponentClause::Items(vec![sub("Th", ComponentCategory::Thread, "Worker"), sub("Pos", ComponentCategory::Data, "POS")]);
    let fields = get_process_fields(&c, &i);
    assert_eq!(fields.len(), 4);
    assert_eq!(fields[0].name, "evt_in");
    assert_eq!(fields[0].docs, vec!["// Port: Evt_In In".to_string()]);
    assert_eq!(fields[1].name, "evt_inSend");
    assert_eq!(
        format!("{:?}", fields[1].ty),
        format!("{:?}", Type::Generic("Option".to_string(), vec![Type::Generic("Sender".to_string(), vec![Type::Named("()".to_string())])]))
    );
    assert_eq!(fields[2].name, "th");
    assert_eq!(format!("{:?}", fields[2].ty), format!("{:?}", Type::Named("workerThread".to_string())));
    assert_eq!(format!("{:?}", fields[3].ty), format!("{:?}", Type::Named("POSShared".to_string())));

    let body = create_process_new_body(&c, &i);
    // shared data, then the thread, the internal port, the channel (3), the return
    assert_eq!(body.len(), 7);
    assert!(matches!(&body[0], Statement::Let(l) if l.name == "pos"));
    let th = format!("{:?}", body[1]);
    assert!(th.contains("\"workerThread\"") && th.contains("\"cpu_id\"") && th.contains("\"pos\""));
    assert!(matches!(&body[2], Statement::Let(l) if l.name == "evt_inSend" && l.ifmut));
    match &body[6] {
        Statement::Expr(aadl2rust::intermediate_ast::Expr::Ident(s)) => {
            assert_eq!(s, "return Self { evt_in: None, evt_inSend, th, pos, cpu_id }  //显式return")
        }
        other => panic!("unexpected {:?}", other),
    }
}
