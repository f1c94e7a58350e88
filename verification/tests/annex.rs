use aadl2rust::aadlAst2rustCode::converter_annex::AnnexConverter;
use aadl2rust::ast::aadl_ast_cj::{
    AnnexContent, AnnexIdentifier, AnnexSubclause, BehaviorAnnexContent, BehaviorCondition,
    CallSequenceClause, ComponentCategory, ComponentImplementation, ConnectionClause, DispatchCondition,
    DispatchConjunction, DispatchTrigger, DispatchTriggerCondition, DispatchTriggerLogicalExpression,
    ImplementationName, PrototypeClause, PropertyClause, State, StateModifier, SubcomponentClause, Transition,
};

fn conj(ports: Vec<&str>) -> DispatchConjunction {
    DispatchConjunction {
        not: false,
        dispatch_triggers: ports.into_iter().map(|p| DispatchTrigger::InEventPort(p.to_string())).collect(),
        number: None,
        less_than: false,
    }
}

fn on_dispatch(conjs: Vec<DispatchConjunction>) -> BehaviorCondition {
    BehaviorCondition::Dispatch(DispatchCondition {
        trigger_condition: Some(DispatchTriggerCondition::LogicalExpression(DispatchTriggerLogicalExpression {
            dispatch_conjunctions: conjs,
        })),
        frozen_ports: None,
    })
}

fn transition(src: &str, dst: &str, cond: Option<BehaviorCondition>) -> Transition {
    Transition {
        transition_identifier: None,
        priority: None,
        source_states: vec![src.to_string()],
        destination_state: dst.to_string(),
        behavior_condition: cond,
        actions: None,
    }
}

fn thread(annexes: Vec<AnnexSubclause>) -> ComponentImplementation {
    ComponentImplementation {
        category: ComponentCategory::Thread,
        name: ImplementationName { type_identifier: "T".to_string(), implementation_identifier: "impl".to_string() },
        prototype_bindings: None,
        prototypes: PrototypeClause::Omitted,
        subcomponents: SubcomponentClause::Omitted,
        calls: CallSequenceClause::Omitted,
        connections: ConnectionClause::Omitted,
        properties: PropertyClause::ExplicitNone,
        annexes,
    }
}

#[test]
fn no_behavior_annex_no_code() {
    let mut a = AnnexConverter::default();
    assert!(a.generate_annex_code(&thread(vec![])).is_none());
    let other = AnnexSubclause { identifier: AnnexIdentifier::EMV2, content: AnnexContent::ExplicitNone };
    assert!(a.generate_annex_code(&thread(vec![other])).is_none());
}

#[test]
fn ports_in_conditions_listed_once_in_order() {
    let a = AnnexConverter::default();
    let mut ports = vec!["p0".to_string()];
    a.extract_ports_from_condition(&on_dispatch(vec![conj(vec!["p1", "p0"]), conj(vec!["p2", "p1"])]), &mut ports);
    assert_eq!(ports, vec!["p0".to_string(), "p1".to_string(), "p2".to_string()]);
}

#[test]
fn port_receive_code_one_block_per_port() {
    let a = AnnexConverter::default();
    assert!(a.generate_port_receive_code(&[]).is_empty());
    let ts = vec![
        transition("s0", "s1", Some(on_dispatch(vec![conj(vec!["p1"])]))),
        transition("s1", "s0", Some(on_dispatch(vec![conj(vec!["p1", "p2"])]))),
        transition("s1", "s1", None),
    ];
    let code = a.generate_port_receive_code(&ts);
    let text = format!("{:?}", code);
    assert!(text.contains("\"p1\"") && text.contains("\"p2\""));
    assert!(text.contains("unwrap_or_default") && !text.contains("unwrap_or_else"));
}

#[test]
fn state_machine_for_behavior_annex() {
    let mut a = AnnexConverter::default();
    let ba = BehaviorAnnexContent {
        state_variables: None,
        states: Some(vec![
            State { identifiers: vec!["s0".to_string()], modifiers: vec![StateModifier::Initial] },
            State { identifiers: vec!["s1".to_string()], modifiers: vec![] },
        ]),
        transitions: Some(vec![transition("s0", "s1", Some(on_dispatch(vec![conj(vec!["go"])])))]),
    };
    let sub = AnnexSubclause { identifier: AnnexIdentifier::BehaviorSpecification, content: AnnexContent::BehaviorAnnex(ba) };
    let code = a.generate_annex_code(&thread(vec![sub])).expect("state machine");
    assert!(!code.is_empty());
    let text = format!("{:?}", code);
    assert!(text.contains("s0") && text.contains("s1") && text.contains("go"));
}

#[test]
fn trigger_ports_are_inserted_once() {
    let a = AnnexConverter::default();
    let mut ports: Vec<String> = vec!["a".to_string()];
    a.extract_port_from_trigger(&aadl2rust::ast::aadl_ast_cj::DispatchTrigger::InEventPort("b".to_string()), &mut ports);
    a.extract_port_from_trigger(&aadl2rust::ast::aadl_ast_cj::DispatchTrigger::InEventDataPort("a".to_string()), &mut ports);
    assert_eq!(ports, vec!["a".to_string(), "b".to_string()]);
}

#[test]
fn incoming_port_value_reads_its_local() {
    let value = aadl2rust::ast::aadl_ast_cj::ValueExpression {
        left: aadl2rust::ast::aadl_ast_cj::Relation {
            left: aadl2rust::ast::aadl_ast_cj::SimpleExpression {
                sign: None,
                left: aadl2rust::ast::aadl_ast_cj::Term {
                    left: aadl2rust::ast::aadl_ast_cj::Factor::Value(aadl2rust::ast::aadl_ast_cj::Value::Variable(
                        aadl2rust::ast::aadl_ast_cj::ValueVariable::IncomingPort("inp".to_string()),
                    )),
                    operations: Vec::new(),
                },
                operations: Vec::new(),
            },
            comparison: None,
        },
        operations: Vec::new(),
    };
    let action = aadl2rust::ast::aadl_ast_cj::BehaviorAction::Basic(aadl2rust::ast::aadl_ast_cj::BasicAction::Assignment(
        aadl2rust::ast::aadl_ast_cj::AssignmentAction {
            target: aadl2rust::ast::aadl_ast_cj::Target::LocalVariable("x".to_string()),
            value: aadl2rust::ast::aadl_ast_cj::AssignmentValue::Expression(value),
        },
    ));
    let mut t = transition("s0", "s0", None);
    t.actions = Some(aadl2rust::ast::aadl_ast_cj::BehaviorActionBlock {
        actions: aadl2rust::ast::aadl_ast_cj::BehaviorActions::Single(Box::new(action)),
        timeout: None,
    });
    let ba = BehaviorAnnexContent {
        state_variables: None,
        states: Some(vec![State { identifiers: vec!["s0".to_string()], modifiers: vec![StateModifier::Initial] }]),
        transitions: Some(vec![t]),
    };
    let sub = AnnexSubclause { identifier: AnnexIdentifier::BehaviorSpecification, content: AnnexContent::BehaviorAnnex(ba) };
    let mut a = AnnexConverter::default();
    let code = a.generate_annex_code(&thread(vec![sub])).expect("state machine");
    let text = format!("{:?}", code);
    assert!(text.contains("Ident(\"inp_val\")"), "{}", text);
}

#[test]
fn package_thread_carries_its_behavior_annex() {
    let ba = BehaviorAnnexContent {
        state_variables: None,
        states: Some(vec![
            State { identifiers: vec!["idle".to_string()], modifiers: vec![StateModifier::Initial] },
            State { identifiers: vec!["busy".to_string()], modifiers: vec![] },
        ]),
        transitions: Some(vec![transition("idle", "busy", Some(on_dispatch(vec![conj(vec!["go"])])))]),
    };
    let sub = AnnexSubclause { identifier: AnnexIdentifier::BehaviorSpecification, content: AnnexContent::BehaviorAnnex(ba) };
    let pkg = aadl2rust::ast::aadl_ast_cj::Package {
        name: aadl2rust::ast::aadl_ast_cj::PackageName(vec!["P".to_string()]),
        visibility_decls: Vec::new(),
        public_section: Some(aadl2rust::ast::aadl_ast_cj::PackageSection {
            is_public: true,
            declarations: vec![aadl2rust::ast::aadl_ast_cj::AadlDeclaration::ComponentImplementation(thread(vec![sub]))],
        }),
        private_section: None,
        properties: PropertyClause::ExplicitNone,
    };
    let mut c = aadl2rust::aadl_ast2rust_code::converter::AadlConverter::default();
    let m = c.convert_package(&pkg).expect("convertible package");
    let text = format!("{:?}", m.items);
    assert!(text.contains("idle") && text.contains("busy") && text.contains("go"));
}
