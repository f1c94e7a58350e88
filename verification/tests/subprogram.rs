use aadl2rust::aadl_ast2rust_code::converter::AadlConverter;
use aadl2rust::aadl_ast2rust_code::types::conv_subprogram_type::{
    convert_subprogram_component, extract_c_function_name, extract_source_files,
    find_data_type_from_implementation, generate_c_function_wrapper, is_rust_primitive_type,
};
use aadl2rust::ast::aadl_ast_cj::{
    AadlDeclaration, AccessDirection, BasicPropertyAssociation, CallSequenceClause, ComponentCategory,
    ComponentImplementation, ComponentType, ConnectionClause, DataAccessReference, DataAccessSpec, Feature,
    FeatureClause, ImplementationName, Package, PackageName, PackageSection, PortDataTypeReference,
    PortDirection, PortSpec, PortType, PropertyListElement, Property, PropertyClause, PropertyExpression,
    PropertyIdentifier, PropertyOperator, PropertyValue, StringTerm, Subcomponent, SubcomponentAccessSpec,
    SubcomponentClassifier, SubcomponentClause, PrototypeClause, UniqueComponentClassifierReference,
    UniqueImplementationReference,
};
use aadl2rust::intermediate_ast::{Expr, Item, PathType, Statement, Type, UseKind};

fn basic(name: &str, value: PropertyValue) -> Property {
    Property::BasicProperty(BasicPropertyAssociation {
        identifier: PropertyIdentifier { property_set: None, name: name.to_string() },
        operator: PropertyOperator::Assign,
        is_constant: false,
        value,
    })
}

fn lit(s: &str) -> PropertyExpression {
    PropertyExpression::String(StringTerm::Literal(s.to_string()))
}

fn iref(name: &str) -> UniqueImplementationReference {
    UniqueImplementationReference {
        package_prefix: None,
        implementation_name: ImplementationName { type_identifier: name.to_string(), implementation_identifier: "Impl".to_string() },
    }
}

fn subprogram(id: &str, features: Vec<Feature>, props: Vec<Property>) -> ComponentType {
    ComponentType {
        category: ComponentCategory::Subprogram,
        identifier: id.to_string(),
        prototypes: PrototypeClause::Omitted,
        features: if features.is_empty() { FeatureClause::Omitted } else { FeatureClause::Items(features) },
        properties: PropertyClause::Properties(props),
        annexes: Vec::new(),
    }
}

fn port(id: &str, dir: PortDirection, ty: &str) -> Feature {
    Feature::Port(PortSpec {
        identifier: id.to_string(),
        direction: dir,
        port_type: PortType::Data {
            classifier: Some(PortDataTypeReference::Classifier(UniqueComponentClassifierReference::Type(iref(ty)))),
        },
    })
}

fn data_impl(type_id: &str, subs: Vec<(&str, &str)>) -> AadlDeclaration {
    AadlDeclaration::ComponentImplementation(ComponentImplementation {
        category: ComponentCategory::Data,
        name: ImplementationName { type_identifier: type_id.to_string(), implementation_identifier: "Impl".to_string() },
        prototype_bindings: None,
        prototypes: PrototypeClause::Omitted,
        subcomponents: SubcomponentClause::Items(
            subs.into_iter()
                .map(|(id, ty)| Subcomponent {
                    identifier: id.to_string(),
                    category: ComponentCategory::Data,
                    classifier: SubcomponentClassifier::ClassifierReference(UniqueComponentClassifierReference::Implementation(iref(ty))),
                    array_spec: None,
                    properties: Vec::new(),
                })
                .collect(),
        ),
        calls: CallSequenceClause::Omitted,
        connections: ConnectionClause::Omitted,
        properties: PropertyClause::ExplicitNone,
        annexes: Vec::new(),
    })
}

fn package(public: Vec<AadlDeclaration>, private: Vec<AadlDeclaration>) -> Package {
    Package {
        name: PackageName(vec!["p".to_string()]),
        visibility_decls: Vec::new(),
        public_section: Some(PackageSection { is_public: true, declarations: public }),
        private_section: if private.is_empty() { None } else { Some(PackageSection { is_public: false, declarations: private }) },
        properties: PropertyClause::ExplicitNone,
    }
}

fn dbg<T: std::fmt::Debug>(t: &T) -> String {
    format!("{:?}", t)
}

#[test]
fn primitive_type_names() {
    for n in ["i8", "u128", "usize", "f64", "bool", "char", "str", "String"] {
        assert!(is_rust_primitive_type(n));
    }
    for n in ["string", "Vec", "Pos", ""] {
        assert!(!is_rust_primitive_type(n));
    }
}

#[test]
fn c_binding_name_and_sources() {
    let s = subprogram(
        "Compute",
        vec![],
        vec![
            basic("Source_Name", PropertyValue::List(Vec::new())),
            basic("SOURCE_NAME", PropertyValue::Single(lit("do_compute"))),
            basic("Source_Text", PropertyValue::Single(lit("a.c"))),
            basic(
                "source_text",
                PropertyValue::List(vec![
                    PropertyListElement::Value(lit("b.c")),
                    PropertyListElement::NestedList(vec![]),
                    PropertyListElement::Value(lit("c.c")),
                ]),
            ),
        ],
    );
    assert_eq!(extract_c_function_name(&s), Some("do_compute".to_string()));
    assert_eq!(extract_source_files(&s), vec!["a.c".to_string(), "b.c".to_string(), "c.c".to_string()]);
    let bare = subprogram("X", vec![], vec![]);
    assert_eq!(extract_c_function_name(&bare), None);
    assert!(extract_source_files(&bare).is_empty());
}

#[test]
fn data_types_behind_an_implementation() {
    let mut c = AadlConverter::default();
    c.type_mappings.push(("pos_internal".to_string(), Type::Named("PosInternal".to_string())));
    c.type_mappings.push(("weird".to_string(), Type::Unit));
    let pkg = package(
        vec![data_impl("POS", vec![("field", "POS_Internal"), ("w", "Weird"), ("n", "Other")]), data_impl("Unrelated", vec![("f", "X")])],
        vec![data_impl("POS", vec![("g", "POS_Internal")])],
    );
    let r = find_data_type_from_implementation("POS.Impl", &pkg, &c);
    assert_eq!(r, vec!["PosInternal".to_string(), "Other".to_string(), "POS_Internal".to_string()]);
    assert!(find_data_type_from_implementation("Nothing", &pkg, &c).is_empty());
}

#[test]
fn wrapper_module_for_ports() {
    let c = AadlConverter::default();
    let s = subprogram(
        "Send_Spg",
        vec![port("Out_Val", PortDirection::Out, "Pos"), port("In_Val", PortDirection::In, "Integer"), port("Both", PortDirection::InOut, "Pos")],
        vec![basic("Source_Name", PropertyValue::Single(lit("send_c"))), basic("Source_Text", PropertyValue::Single(lit("send.c")))],
    );
    let items = generate_c_function_wrapper(&c, &s, "send_c", &package(vec![], vec![]));
    assert_eq!(items.len(), 1);
    let m = match &items[0] {
        Item::Mod(m) => m,
        other => panic!("unexpected {:?}", other),
    };
    assert_eq!(m.name, "send_spg");
    assert_eq!(
        m.docs,
        vec![
            "// Auto-generated from AADL subprogram: Send_Spg".to_string(),
            "// C binding to: send_c".to_string(),
            "// source_files: send.c".to_string(),
        ]
    );
    assert_eq!(m.items.len(), 3);
    match &m.items[0] {
        Item::Use(u) => {
            assert_eq!(u.path, vec!["super".to_string()]);
            match &u.kind {
                UseKind::Nested(names) => assert_eq!(names, &vec!["send_c".to_string(), "Pos".to_string()]),
            }
        }
        other => panic!("unexpected {:?}", other),
    }
    match &m.items[1] {
        Item::Function(f) => {
            assert_eq!(f.name, "send");
            assert_eq!(f.params[0].name, "out_val");
            assert_eq!(dbg(&f.params[0].ty), dbg(&Type::Reference(Box::new(Type::Named("Pos".to_string())), true, true)));
            assert_eq!(f.docs, vec!["// Wrapper for C function send_c".to_string(), "// Original AADL port: Out_Val".to_string()]);
            match &f.body.stmts[0] {
                Statement::Expr(Expr::Unsafe(b)) => match &b.stmts[0] {
                    Statement::Expr(Expr::Call(callee, args)) => {
                        assert_eq!(dbg(&**callee), dbg(&Expr::Path(vec!["send_c".to_string()], PathType::Namespace)));
                        assert_eq!(dbg(args), dbg(&vec![Expr::Ident("out_val".to_string())]));
                    }
                    other => panic!("unexpected {:?}", other),
                },
                other => panic!("unexpected {:?}", other),
            }
        }
        other => panic!("unexpected {:?}", other),
    }
    match &m.items[2] {
        Item::Function(f) => {
            assert_eq!(f.name, "receive");
            assert_eq!(dbg(&f.params[0].ty), dbg(&Type::Reference(Box::new(Type::Named("i32".to_string())), false, false)));
        }
        other => panic!("unexpected {:?}", other),
    }
}

#[test]
fn wrapper_module_for_shared_data() {
    let mut c = AadlConverter::default();
    c.type_mappings.push(("pos_internal".to_string(), Type::Named("PosInternal".to_string())));
    let pkg = package(vec![data_impl("POS", vec![("a", "POS_Internal"), ("b", "Integer")])], vec![]);
    let access = Feature::SubcomponentAccess(SubcomponentAccessSpec::Data(DataAccessSpec {
        identifier: "this".to_string(),
        direction: AccessDirection::Requires,
        classifier: Some(DataAccessReference::Classifier(UniqueComponentClassifierReference::Implementation(iref("POS")))),
    }));
    let s = subprogram("Update", vec![access], vec![]);
    let items = generate_c_function_wrapper(&c, &s, "update_c", &pkg);
    let m = match &items[0] {
        Item::Mod(m) => m,
        other => panic!("unexpected {:?}", other),
    };
    assert_eq!(m.docs.len(), 2);
    match &m.items[0] {
        Item::Use(u) => match &u.kind {
            UseKind::Nested(names) => assert_eq!(names, &vec!["update_c".to_string(), "PosInternal".to_string()]),
        },
        other => panic!("unexpected {:?}", other),
    }
    match &m.items[1] {
        Item::Function(f) => {
            assert_eq!(f.name, "call");
            assert_eq!(f.params.len(), 2);
            assert_eq!(f.params[0].name, "arg0");
            assert_eq!(f.params[1].name, "arg1");
            assert_eq!(dbg(&f.params[1].ty), dbg(&Type::Reference(Box::new(Type::Named("i32".to_string())), true, true)));
            assert_eq!(f.docs[0], "// Call C function update_c with data access references");
        }
        other => panic!("unexpected {:?}", other),
    }
}

#[test]
fn execute_wrapper_without_features() {
    let c = AadlConverter::default();
    let s = subprogram("Tick", vec![], vec![basic("Source_Name", PropertyValue::Single(lit("tick_c")))]);
    let items = convert_subprogram_component(&c, &s, &package(vec![], vec![]));
    let m = match &items[0] {
        Item::Mod(m) => m,
        other => panic!("unexpected {:?}", other),
    };
    assert_eq!(m.items.len(), 2);
    match &m.items[1] {
        Item::Function(f) => {
            assert_eq!(f.name, "execute");
            assert!(f.params.is_empty());
            assert_eq!(f.docs[1], "// This component has no communication ports");
        }
        other => panic!("unexpected {:?}", other),
    }
    let unbound = subprogram("Plain", vec![], vec![]);
    assert!(convert_subprogram_component(&c, &unbound, &package(vec![], vec![])).is_empty());
}
