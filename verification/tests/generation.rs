use aadl2rust::aadl_ast2rust_code::collector::{collect_component_types, collect_process_connections, collect_thread_connections};
use aadl2rust::aadl_ast2rust_code::converter::{insert_pair, AadlConverter};
use aadl2rust::aadl_ast2rust_code::implementations::conv_data_impl as data_impl2;
use aadl2rust::aadl_ast2rust_code::implementations::conv_process_impl::{
    convert_process_implementation, create_process_start_body, sort_dedup_tasks,
};
use aadl2rust::aadl_ast2rust_code::implementations::conv_processor_impl::convert_processor_implementation;
use aadl2rust::aadl_ast2rust_code::implementations::conv_thread_impl::{
    convert_thread_implemenation, create_periodic_execution_logic, create_thread_new_method,
    create_thread_run_body,
};
use aadl2rust::aadl_ast2rust_code::types::conv_data_type::{convert_data_component, determine_array_type};
use aadl2rust::aadl_ast2rust_code::types::conv_process_type::convert_process_component;
use aadl2rust::aadl_ast2rust_code::types::conv_thread_type::convert_thread_component;
use aadl2rust::aadlAst2rustCode::implementations::conv_data_impl as data_impl1;
use aadl2rust::aadlAst2rustCode::implementations::conv_system_impl::{
    convert_system_implementation, extract_processor_bindings,
};
use aadl2rust::aadlAst2rustCode::types::conv_device_type::{convert_device_component, extract_period};
use aadl2rust::aadlAst2rustCode::types::conv_system_type::convert_system_component;
use aadl2rust::ast::aadl_ast_cj::{
    AadlDeclaration, AccessDirection, BasicPropertyAssociation, CallSequenceClause, ComponentCategory,
    ComponentClassifierTerm, ComponentImplementation, ComponentType, Connection, ConnectionClause,
    ConnectionSymbol, DataAccessReference, DataAccessSpec, Feature, FeatureClause, ImplementationName, Package,
    PackageName, PackageSection, PortConnection, PortDataTypeReference, PortDirection, PortEndpoint, PortSpec,
    PortType, PrototypeClause, Property, PropertyClause, PropertyExpression, PropertyIdentifier,
    PropertyListElement, PropertyOperator, PropertyValue, ReferenceTerm, SignedInteger, SignedIntergerOrConstant,
    StringTerm, Subcomponent, SubcomponentAccessSpec, SubcomponentClassifier, SubcomponentClause,
    UniqueComponentClassifierReference, UniqueImplementationReference, VisibilityDeclaration,
};
use aadl2rust::intermediate_ast::{ImplItem, Item, Statement, StruPropertyValue, Type};
use aadl2rust::text::str_lt;

fn dbg<T: std::fmt::Debug>(t: &T) -> String {
    format!("{:?}", t)
}

fn prop(set: Option<&str>, name: &str, value: PropertyValue) -> Property {
    Property::BasicProperty(BasicPropertyAssociation {
        identifier: PropertyIdentifier { property_set: set.map(|s| s.to_string()), name: name.to_string() },
        operator: PropertyOperator::Assign,
        is_constant: false,
        value,
    })
}

fn int_val(v: i64) -> PropertyExpression {
    PropertyExpression::Integer(SignedIntergerOrConstant::Real(SignedInteger { sign: None, value: v, unit: None }))
}

fn str_val(s: &str) -> PropertyExpression {
    PropertyExpression::String(StringTerm::Literal(s.to_string()))
}

fn type_class(name: &str) -> PropertyExpression {
    PropertyExpression::ComponentClassifier(ComponentClassifierTerm {
        unique_component_classifier_reference: UniqueComponentClassifierReference::Type(iref(name)),
    })
}

fn iref(name: &str) -> UniqueImplementationReference {
    UniqueImplementationReference {
        package_prefix: None,
        implementation_name: ImplementationName { type_identifier: name.to_string(), implementation_identifier: "Impl".to_string() },
    }
}

fn sub(id: &str, cat: ComponentCategory, impl_name: &str) -> Subcomponent {
    Subcomponent {
        identifier: id.to_string(),
        category: cat,
        classifier: SubcomponentClassifier::ClassifierReference(UniqueComponentClassifierReference::Implementation(iref(impl_name))),
        array_spec: None,
        properties: Vec::new(),
    }
}

fn ctype(cat: ComponentCategory, id: &str, features: Vec<Feature>, props: Vec<Property>) -> ComponentType {
    ComponentType {
        category: cat,
        identifier: id.to_string(),
        prototypes: PrototypeClause::Omitted,
        features: FeatureClause::Items(features),
        properties: PropertyClause::Properties(props),
        annexes: Vec::new(),
    }
}

fn cimpl(cat: ComponentCategory, id: &str, subs: Vec<Subcomponent>, conns: Vec<Connection>, props: Vec<Property>) -> ComponentImplementation {
    ComponentImplementation {
        category: cat,
        name: ImplementationName { type_identifier: id.to_string(), implementation_identifier: "impl".to_string() },
        prototype_bindings: None,
        prototypes: PrototypeClause::Omitted,
        subcomponents: SubcomponentClause::Items(subs),
        calls: CallSequenceClause::Omitted,
        connections: ConnectionClause::Items(conns),
        properties: PropertyClause::Properties(props),
        annexes: Vec::new(),
    }
}

fn port(id: &str, dir: PortDirection, ty: PortType) -> Feature {
    Feature::Port(PortSpec { identifier: id.to_string(), direction: dir, port_type: ty })
}

fn conn(src: PortEndpoint, dst: PortEndpoint) -> Connection {
    Connection::Port(PortConnection { identifier: "c".to_string(), source: src, destination: dst, connection_direction: ConnectionSymbol::Direct })
}

fn sp(s: &str, p: &str) -> PortEndpoint {
    PortEndpoint::SubcomponentPort { subcomponent: s.to_string(), port: p.to_string() }
}

fn cp(p: &str) -> PortEndpoint {
    PortEndpoint::ComponentPort(p.to_string())
}

fn pairs(v: &[(&str, &str)]) -> Vec<(String, String)> {
    v.iter().map(|(a, b)| (a.to_string(), b.to_string())).collect()
}

#[test]
fn string_order_is_code_point_order() {
    assert!(str_lt("a", "ab"));
    assert!(!str_lt("b", "a"));
    assert!(str_lt("Z", "a"));
    assert!(!str_lt("same", "same"));
}

#[test]
fn forwarding_pairs_sorted_and_each_once() {
    let t = sort_dedup_tasks(pairs(&[("ab", "x"), ("a", "y"), ("a", "x"), ("ab", "x")]));
    assert_eq!(t, pairs(&[("a", "x"), ("a", "y"), ("ab", "x")]));
    assert!(sort_dedup_tasks(Vec::new()).is_empty());
}

#[test]
fn process_run_body_starts_threads_then_sorted_forwarders() {
    let c = AadlConverter::default();
    let i = cimpl(
        ComponentCategory::Process,
        "P",
        vec![sub("Th", ComponentCategory::Thread, "Worker")],
        vec![
            conn(cp("B"), sp("th", "p")),
            conn(cp("A"), sp("th", "q")),
            conn(cp("B"), sp("th", "r")),
            conn(sp("th", "s"), cp("C")),
        ],
        Vec::new(),
    );
    let body = create_process_start_body(&c, &i);
    assert_eq!(body.len(), 8);
    assert!(matches!(&body[0], Statement::Let(l) if l.name == "Self { th, .. }"));
    assert!(dbg(&body[1]).contains("\"\\\"th\\\".to_string()\""));
    assert!(matches!(&body[2], Statement::Let(l) if l.name == "a_rx"));
    assert!(matches!(&body[4], Statement::Let(l) if l.name == "b_rx"));
    assert!(matches!(&body[6], Statement::Let(l) if l.name == "cRece_rx"));
    assert!(dbg(&body[7]).contains("data_forwarder_cRece"));
}

#[test]
fn process_implementation_struct_and_impl() {
    let mut c = AadlConverter::default();
    let i = cimpl(ComponentCategory::Process, "P", Vec::new(), Vec::new(), Vec::new());
    let items = convert_process_implementation(&mut c, &i);
    assert_eq!(items.len(), 2);
    match &items[0] {
        Item::Struct(s) => {
            assert_eq!(s.name, "pProcess");
            assert_eq!(s.fields.len(), 1);
            assert_eq!(s.fields[0].name, "cpu_id");
            assert_eq!(s.docs, vec!["// Process implementation: P".to_string(), "// Auto-generated from AADL".to_string()]);
        },
        _ => panic!("struct expected"),
    }
    match &items[1] {
        Item::Impl(b) => {
            assert_eq!(dbg(&b.trait_impl), dbg(&Some(Type::Named("Process".to_string()))));
            let names: Vec<String> = b.items.iter().map(|it| match it {
                ImplItem::Method(f) => f.name.clone(),
            }).collect();
            assert_eq!(names, vec!["new".to_string(), "run".to_string()]);
        },
        _ => panic!("impl expected"),
    }
}

fn sensor() -> ComponentType {
    ctype(
        ComponentCategory::Device,
        "Sensor",
        vec![
            port("Cmd", PortDirection::In, PortType::Event),
            port("Val", PortDirection::Out, PortType::Data {
                classifier: Some(PortDataTypeReference::Classifier(UniqueComponentClassifierReference::Type(iref("Integer")))),
            }),
        ],
        vec![prop(None, "Period", PropertyValue::Single(int_val(500)))],
    )
}

#[test]
fn device_period_and_struct() {
    assert_eq!(extract_period(&sensor()), Some(500));
    let quiet = ctype(ComponentCategory::Device, "Q", Vec::new(), Vec::new());
    assert_eq!(extract_period(&quiet), None);
    let c = AadlConverter::default();
    let items = convert_device_component(&c, &sensor());
    assert_eq!(items.len(), 2);
    match &items[0] {
        Item::Struct(s) => {
            assert_eq!(s.name, "sensorDevice");
            let names: Vec<String> = s.fields.iter().map(|f| f.name.clone()).collect();
            assert_eq!(names, vec!["cmd".to_string(), "val".to_string(), "period_ms".to_string()]);
            assert_eq!(s.fields[2].docs, vec!["// 周期：500ms".to_string()]);
        },
        _ => panic!("struct expected"),
    }
    match &items[1] {
        Item::Impl(b) => {
            assert_eq!(dbg(&b.trait_impl), dbg(&Some(Type::Named("Device".to_string()))));
            match (&b.items[0], &b.items[1]) {
                (ImplItem::Method(n), ImplItem::Method(r)) => {
                    assert!(dbg(&n.body).contains("period_ms: 500,"));
                    assert!(dbg(&n.body).contains("cmd: None,"));
                    assert_eq!(r.body.stmts.len(), 3);
                    assert!(matches!(&r.body.stmts[1], Statement::Let(l) if l.name == "rng" && l.ifmut));
                    let lp = dbg(&r.body.stmts[2]);
                    assert!(lp.contains("gen_range") && lp.contains("[sensor] Received cmd: {:?}"));
                    assert!(lp.contains("[sensor] send val = {:?}"));
                },
            }
        },
        _ => panic!("impl expected"),
    }
    let default_period = convert_device_component(&c, &quiet);
    match &default_period[0] {
        Item::Struct(s) => assert_eq!(s.fields[0].docs, vec!["// 周期：2000ms".to_string()]),
        _ => panic!("struct expected"),
    }
}

fn system() -> ComponentImplementation {
    let binding = prop(
        None,
        "Actual_Processor_Binding",
        PropertyValue::Single(PropertyExpression::Reference(ReferenceTerm {
            identifier: "cpu1".to_string(),
            applies_to: Some("P1".to_string()),
        })),
    );
    cimpl(
        ComponentCategory::System,
        "Sys",
        vec![
            sub("P1", ComponentCategory::Process, "Proc"),
            sub("D1", ComponentCategory::Device, "Dev"),
            sub("T", ComponentCategory::Thread, "Th"),
        ],
        Vec::new(),
        vec![binding],
    )
}

#[test]
fn system_type_struct() {
    let c = AadlConverter::default();
    let items = convert_system_component(&c, &ctype(ComponentCategory::System, "Sys", Vec::new(), Vec::new()));
    match &items[0] {
        Item::Struct(s) => {
            assert_eq!(s.name, "sysSystem");
            assert!(s.fields.is_empty());
            assert_eq!(s.docs, vec!["// AADL System: Sys".to_string()]);
        },
        _ => panic!("struct expected"),
    }
}

#[test]
fn system_implementation_numbers_processors() {
    assert_eq!(extract_processor_bindings(&system()), pairs(&[("P1", "cpu1")]));
    let mut c = AadlConverter::default();
    let items = convert_system_implementation(&mut c, &system());
    assert_eq!(c.cpu_name_to_id_mapping, vec![("cpu1".to_string(), 0isize)]);
    match &items[0] {
        Item::Struct(s) => {
            let f: Vec<(String, String)> = s.fields.iter().map(|f| (f.name.clone(), dbg(&f.ty))).collect();
            assert_eq!(f, vec![
                ("p1".to_string(), dbg(&Type::Named("procProcess".to_string()))),
                ("d1".to_string(), dbg(&Type::Named("devDevice".to_string()))),
            ]);
            assert_eq!(s.fields[0].docs, vec!["// 子组件进程（P1 : process Proc）".to_string()]);
        },
        _ => panic!("struct expected"),
    }
    match &items[1] {
        Item::Impl(b) => match (&b.items[0], &b.items[1]) {
            (ImplItem::Method(n), ImplItem::Method(r)) => {
                let s = &n.body.stmts;
                assert!(dbg(&s[0]).contains("let mut p1: procProcess = procProcess::new(0)"));
                assert!(dbg(&s[1]).contains("let mut d1: devDevice = devDevice::new()"));
                assert!(dbg(&s[2]).contains("return Self { p1, d1 }  //显式return"));
                assert_eq!(r.body.stmts.len(), 2);
                assert!(dbg(&r.body.stmts[0]).contains("self.p1.start()"));
            },
        },
        _ => panic!("impl expected"),
    }
    let mut bare = AadlConverter::default();
    let i = cimpl(ComponentCategory::System, "S", Vec::new(), Vec::new(), Vec::new());
    convert_system_implementation(&mut bare, &i);
    assert_eq!(bare.cpu_name_to_id_mapping, vec![("default".to_string(), 0isize)]);
}

#[test]
fn first_generation_data_implementations() {
    let types = AadlConverter::default().type_mappings;
    let shared = cimpl(
        ComponentCategory::Data,
        "Shared.Impl",
        vec![
            sub("a", ComponentCategory::Subprogram, "A"),
            sub("b", ComponentCategory::Subprogram, "B"),
            sub("v", ComponentCategory::Data, "POS.Impl"),
        ],
        Vec::new(),
        Vec::new(),
    );
    let items = data_impl1::convert_data_implementation(&types, &Vec::new(), &shared);
    match &items[0] {
        Item::TypeAlias(a) => {
            assert_eq!(a.name, "Shared.ImplShared");
            assert!(dbg(&a.target).contains("POS.Impl") && dbg(&a.target).contains("Mutex"));
        },
        _ => panic!("alias expected"),
    }
    let rec = cimpl(ComponentCategory::Data, "Rec", vec![sub("x", ComponentCategory::Data, "Integer")], Vec::new(), Vec::new());
    let items = data_impl1::convert_data_implementation(&types, &pairs(&[("Rec", "struct")]), &rec);
    match &items[0] {
        Item::Struct(s) => {
            assert_eq!(s.fields[0].name, "x");
            assert_eq!(dbg(&s.fields[0].ty), dbg(&Type::Named("i32".to_string())));
            assert_eq!(s.fields[0].docs, vec!["// 子组件字段: x".to_string()]);
        },
        _ => panic!("struct expected"),
    }
    assert!(data_impl1::convert_data_implementation(&types, &Vec::new(), &rec).is_empty());
}

fn package_with(decls: Vec<AadlDeclaration>) -> Package {
    Package {
        name: PackageName(vec!["pkg".to_string()]),
        visibility_decls: Vec::new(),
        public_section: Some(PackageSection { is_public: true, declarations: decls }),
        private_section: None,
        properties: PropertyClause::ExplicitNone,
    }
}

#[test]
fn second_generation_data_implementation() {
    let types = AadlConverter::default().type_mappings;
    let holder = cimpl(ComponentCategory::Process, "Proc", vec![sub("pos", ComponentCategory::Data, "POS")], Vec::new(), Vec::new());
    let pkg = package_with(vec![AadlDeclaration::ComponentImplementation(holder)]);
    assert!(data_impl2::is_shared_data_component(&pkg, "POS"));
    assert!(!data_impl2::is_shared_data_component(&pkg, "Other"));
    let data = cimpl(
        ComponentCategory::Data,
        "POS",
        vec![sub("x", ComponentCategory::Data, "Integer"), sub("upd", ComponentCategory::Subprogram, "Update")],
        Vec::new(),
        Vec::new(),
    );
    let items = data_impl2::convert_data_implementation(&types, &pairs(&[("POS", "struct")]), &data, &pkg);
    assert_eq!(items.len(), 3);
    assert!(matches!(&items[0], Item::Struct(s) if s.fields.len() == 1 && s.fields[0].name == "x"));
    match &items[1] {
        Item::Impl(b) => {
            assert_eq!(b.items.len(), 2);
            match (&b.items[0], &b.items[1]) {
                (ImplItem::Method(m), ImplItem::Method(n)) => {
                    assert_eq!(m.name, "update");
                    assert_eq!(m.docs, vec!["/// update : provides subprogram access Update;".to_string()]);
                    assert!(dbg(&m.body).contains("\"call\""));
                    assert_eq!(n.name, "new");
                    assert!(dbg(&n.body).contains("return POS {\\n            x: 0\\n        }"));
                },
            }
        },
        _ => panic!("impl expected"),
    }
    assert!(matches!(&items[2], Item::TypeAlias(a) if a.name == "POSShared"));
    let tagged = cimpl(ComponentCategory::Data, "T", vec![sub("f1", ComponentCategory::Data, "Integer")], Vec::new(), Vec::new());
    let items = data_impl2::convert_data_implementation(&types, &pairs(&[("T", "taggedunion")]), &tagged, &package_with(Vec::new()));
    match &items[0] {
        Item::Enum(e) => {
            assert_eq!(e.variants[0].name, "F1");
            assert_eq!(e.variants[0].docs, vec!["// 标记联合体字段: f1".to_string()]);
        },
        _ => panic!("enum expected"),
    }
}

fn list(items: Vec<PropertyExpression>) -> PropertyValue {
    PropertyValue::List(items.into_iter().map(PropertyListElement::Value).collect())
}

#[test]
fn data_types_by_representation() {
    let mut types = AadlConverter::default().type_mappings;
    let mut kinds: Vec<(String, String)> = Vec::new();
    let rec = ctype(ComponentCategory::Data, "Rec", Vec::new(), vec![
        prop(Some("Data_Model"), "Data_Representation", PropertyValue::Single(str_val("Struct"))),
        prop(Some("Data_Model"), "Element_Names", list(vec![str_val("a"), str_val("b")])),
        prop(Some("Data_Model"), "Base_Type", list(vec![type_class("Integer"), type_class("Boolean")])),
    ]);
    let items = convert_data_component(&mut types, &rec, &mut kinds);
    match &items[0] {
        Item::Struct(s) => {
            assert_eq!(s.name, "Rec");
            assert_eq!(dbg(&s.fields[1].ty), dbg(&Type::Named("bool".to_string())));
        },
        _ => panic!("struct expected"),
    }
    assert!(kinds.is_empty());
    let empty = ctype(ComponentCategory::Data, "Empty", Vec::new(), vec![
        prop(Some("Data_Model"), "Data_Representation", PropertyValue::Single(str_val("Union"))),
    ]);
    assert!(convert_data_component(&mut types, &empty, &mut kinds).is_empty());
    assert_eq!(kinds, pairs(&[("Empty", "union")]));
    let colors = ctype(ComponentCategory::Data, "Color", Vec::new(), vec![
        prop(Some("Data_Model"), "Data_Representation", PropertyValue::Single(str_val("Enum"))),
        prop(Some("Data_Model"), "Enumerators", list(vec![str_val("Red"), str_val("Green")])),
    ]);
    match &convert_data_component(&mut types, &colors, &mut kinds)[0] {
        Item::Enum(e) => assert_eq!(e.variants.len(), 2),
        _ => panic!("enum expected"),
    }
    let arr = ctype(ComponentCategory::Data, "Vec3", Vec::new(), vec![
        prop(Some("Data_Model"), "Data_Representation", PropertyValue::Single(str_val("Array"))),
        prop(None, "Base_Type", PropertyValue::Single(type_class("Integer"))),
        prop(None, "Dimension", PropertyValue::Single(int_val(3))),
    ]);
    let before = types.len();
    match &convert_data_component(&mut types, &arr, &mut kinds)[0] {
        Item::TypeAlias(a) => {
            assert_eq!(a.name, "Vec3");
            assert_eq!(dbg(&a.target), dbg(&Type::Array(Box::new(Type::Named("i32".to_string())), 3)));
        },
        _ => panic!("alias expected"),
    }
    assert_eq!(types.len(), before + 1);
    assert_eq!(types[before].0, "vec3");
    if let PropertyClause::Properties(props) = &arr.properties {
        let t = determine_array_type(&types, props);
        assert_eq!(dbg(&t), dbg(&Type::Array(Box::new(Type::Named("i32".to_string())), 3)));
    }
    let src = ctype(ComponentCategory::Data, "Speed", Vec::new(), vec![
        prop(None, "Type_Source_Name", PropertyValue::Single(str_val("Float"))),
    ]);
    match &convert_data_component(&mut types, &src, &mut kinds)[0] {
        Item::TypeAlias(a) => assert_eq!(dbg(&a.target), dbg(&Type::Named("f32".to_string()))),
        _ => panic!("alias expected"),
    }
}

#[test]
fn processor_protocols_recorded() {
    let mut table: Vec<(String, String)> = Vec::new();
    let rms = cimpl(ComponentCategory::Processor, "CPU", Vec::new(), Vec::new(), vec![
        prop(None, "Scheduling_Protocol", PropertyValue::Single(str_val("RMS"))),
    ]);
    assert!(convert_processor_implementation(&mut table, &rms).is_empty());
    assert_eq!(table, pairs(&[("CPU", "RMS")]));
    let plain = cimpl(ComponentCategory::Processor, "CPU", Vec::new(), Vec::new(), Vec::new());
    convert_processor_implementation(&mut table, &plain);
    assert_eq!(table, pairs(&[("CPU", "FIFO")]));
}

#[test]
fn table_insert_replaces_or_appends() {
    let mut t = pairs(&[("a", "1"), ("b", "2")]);
    insert_pair(&mut t, "b".to_string(), "3".to_string());
    insert_pair(&mut t, "c".to_string(), "4".to_string());
    assert_eq!(t, pairs(&[("a", "1"), ("b", "3"), ("c", "4")]));
}

fn worker_type() -> ComponentType {
    ctype(
        ComponentCategory::Thread,
        "Worker",
        vec![Feature::SubcomponentAccess(SubcomponentAccessSpec::Data(DataAccessSpec {
            identifier: "Pos".to_string(),
            direction: AccessDirection::Requires,
            classifier: Some(DataAccessReference::Classifier(UniqueComponentClassifierReference::Implementation(iref("POS.Impl")))),
        }))],
        vec![prop(None, "Priority", PropertyValue::Single(int_val(5)))],
    )
}

#[test]
fn thread_type_records_field_values() {
    let mut c = AadlConverter::default();
    let items = convert_thread_component(&mut c, &worker_type());
    match &items[0] {
        Item::Struct(s) => {
            let names: Vec<String> = s.fields.iter().map(|f| f.name.clone()).collect();
            assert_eq!(names, vec!["pos".to_string(), "priority".to_string(), "cpu_id".to_string()]);
            assert_eq!(dbg(&s.fields[0].ty), dbg(&Type::Named("POSShared".to_string())));
            assert_eq!(dbg(&s.fields[1].ty), dbg(&Type::Named("u64".to_string())));
        },
        _ => panic!("struct expected"),
    }
    assert_eq!(c.thread_field_values.len(), 1);
    assert_eq!(c.thread_field_values[0].0, "workerThread");
    assert_eq!(
        dbg(&c.thread_field_values[0].1),
        dbg(&vec![
            ("pos".to_string(), StruPropertyValue::Custom("pos".to_string())),
            ("priority".to_string(), StruPropertyValue::Integer(5)),
        ])
    );
    assert_eq!(c.thread_field_types[0].0, "workerThread");

    let i = cimpl(ComponentCategory::Thread, "Worker", Vec::new(), Vec::new(), Vec::new());
    let mut flag = false;
    let first = create_thread_new_method(&c, &i, &mut flag);
    assert!(flag);
    assert_eq!(first.params.len(), 1);
    assert!(dbg(&first.body).contains("pos: Arc::new(Mutex::new(POS::new())), "));
    assert!(dbg(&first.body).contains("priority: 5, "));
    let second = create_thread_new_method(&c, &i, &mut flag);
    assert_eq!(second.params.len(), 2);
    assert_eq!(second.params[1].name, "pos");
}

#[test]
fn process_type_struct() {
    let c = AadlConverter::default();
    let items = convert_process_component(&c, &ctype(ComponentCategory::Process, "Ctl", Vec::new(), Vec::new()));
    match &items[0] {
        Item::Struct(s) => {
            assert_eq!(s.name, "ctlProcess");
            assert_eq!(s.fields[0].docs, vec!["// 进程 CPU ID".to_string()]);
            assert_eq!(s.docs, vec!["// AADL Process: ctl".to_string()]);
        },
        _ => panic!("struct expected"),
    }
}

#[test]
fn thread_run_and_implementation() {
    let mut c = AadlConverter::default();
    convert_thread_component(&mut c, &worker_type());
    let i = cimpl(ComponentCategory::Thread, "Worker", Vec::new(), Vec::new(), vec![
        prop(None, "Period", PropertyValue::Single(int_val(100))),
    ]);
    let periodic = create_periodic_execution_logic(&c, &i, Vec::new(), Vec::new());
    assert_eq!(periodic.len(), 3);
    assert!(dbg(&periodic[0]).contains("Int(100)"));
    let run = create_thread_run_body(&c, &i, Vec::new(), Vec::new());
    assert_eq!(run.len(), 5);
    assert!(dbg(&run[0]).contains("period_to_priority"));
    assert!(dbg(&run[1]).contains("set_thread_affinity"));

    let items = convert_thread_implemenation(&mut c, &i, Vec::new(), Vec::new());
    assert_eq!(items.len(), 3);
    match &items[1] {
        Item::Impl(b) => match &b.items[1] {
            ImplItem::Method(r) => {
                assert_eq!(r.docs, vec!["// Thread execution entry point".to_string(), "// Period: Some(100) ms".to_string()]);
            },
        },
        _ => panic!("impl expected"),
    }
    assert!(matches!(&items[2], Item::Impl(b) if b.trait_impl.is_none()));
    assert_eq!(
        dbg(&c.thread_field_values[0].1),
        dbg(&vec![
            ("pos".to_string(), StruPropertyValue::Custom("pos".to_string())),
            ("priority".to_string(), StruPropertyValue::Integer(5)),
            ("period".to_string(), StruPropertyValue::Integer(100)),
        ])
    );
}

fn spair(a: &str, b: &str) -> (String, String) {
    (a.to_string(), b.to_string())
}

#[test]
fn process_broadcasts_are_collected() {
    let system = cimpl(
        ComponentCategory::System,
        "root",
        vec![
            sub("p1", ComponentCategory::Process, "prod"),
            sub("p2", ComponentCategory::Process, "cons"),
            sub("p3", ComponentCategory::Process, "mon"),
        ],
        vec![
            conn(sp("p1", "out"), sp("p2", "inp")),
            conn(sp("p1", "out"), sp("p3", "inp")),
            conn(sp("p2", "ack"), sp("p1", "ack")),
            conn(cp("x"), sp("p3", "y")),
        ],
        Vec::new(),
    );
    let process = cimpl(ComponentCategory::Process, "proc", Vec::new(), vec![conn(sp("a", "b"), sp("c", "d")), conn(sp("a", "b"), sp("e", "f"))], Vec::new());
    let pkg = package_with(vec![
        AadlDeclaration::ComponentImplementation(system),
        AadlDeclaration::ComponentImplementation(process),
    ]);
    let mut send = Vec::new();
    let mut receive = Vec::new();
    let mut types = Vec::new();
    collect_process_connections(&mut send, &mut receive, &mut types, &pkg);
    assert_eq!(send, vec![spair("p1", "out")]);
    assert_eq!(receive, vec![(spair("p1", "out"), vec![spair("p2", "inp"), spair("p3", "inp")])]);
    assert_eq!(types, vec![spair("p1", "prod"), spair("p2", "cons"), spair("p3", "mon")]);
}

#[test]
fn single_connections_are_no_broadcast() {
    let system = cimpl(
        ComponentCategory::System,
        "root",
        vec![sub("p1", ComponentCategory::Process, "prod")],
        vec![conn(sp("p1", "out"), sp("p2", "inp"))],
        Vec::new(),
    );
    let pkg = package_with(vec![AadlDeclaration::ComponentImplementation(system)]);
    let mut send = Vec::new();
    let mut receive = Vec::new();
    let mut types = Vec::new();
    collect_process_connections(&mut send, &mut receive, &mut types, &pkg);
    assert!(send.is_empty());
    assert!(receive.is_empty());
    assert!(types.is_empty());
}

#[test]
fn imports_become_glob_withs() {
    let mut pkg = package_with(Vec::new());
    pkg.visibility_decls = vec![
        VisibilityDeclaration::Import {
            packages: vec![
                PackageName(vec!["Base_Types".to_string()]),
                PackageName(vec!["a".to_string(), "b".to_string()]),
            ],
            property_sets: vec!["Timing".to_string()],
        },
        VisibilityDeclaration::ImportAll(PackageName(vec!["ignored".to_string()])),
        VisibilityDeclaration::Import { packages: vec![PackageName(vec!["c".to_string()])], property_sets: Vec::new() },
    ];
    let withs = AadlConverter::default().convert_withs(&pkg);
    let paths: Vec<(Vec<String>, bool)> = withs.iter().map(|w| (w.path.clone(), w.glob)).collect();
    assert_eq!(
        paths,
        vec![
            (vec!["Base_Types".to_string()], true),
            (vec!["a".to_string(), "b".to_string()], true),
            (vec!["c".to_string()], true),
        ]
    );
}

#[test]
fn components_are_converted_by_category() {
    let mut c = AadlConverter::default();
    let pkg = package_with(Vec::new());
    let items = c.convert_component(&ctype(ComponentCategory::System, "Sys", Vec::new(), Vec::new()), &pkg);
    match &items[0] {
        Item::Struct(s) => assert_eq!(s.name, "sysSystem"),
        _ => panic!("struct expected"),
    }
    let items = c.convert_component(&ctype(ComponentCategory::Process, "Ctl", Vec::new(), Vec::new()), &pkg);
    match &items[0] {
        Item::Struct(s) => assert_eq!(s.name, "ctlProcess"),
        _ => panic!("struct expected"),
    }
    assert!(c.convert_component(&ctype(ComponentCategory::Bus, "B", Vec::new(), Vec::new()), &pkg).is_empty());
}

#[test]
fn thread_broadcasts_are_keyed_by_process_port_and_process() {
    let process = cimpl(
        ComponentCategory::Process,
        "proc",
        vec![
            sub("t1", ComponentCategory::Thread, "worker"),
            sub("t2", ComponentCategory::Thread, "logger"),
        ],
        vec![
            conn(cp("inp"), sp("t1", "a")),
            conn(cp("inp"), sp("t2", "b")),
            conn(cp("solo"), sp("t1", "c")),
        ],
        Vec::new(),
    );
    let pkg = package_with(vec![AadlDeclaration::ComponentImplementation(process)]);
    let mut receive = Vec::new();
    let mut types = Vec::new();
    collect_thread_connections(&mut receive, &mut types, &pkg);
    assert_eq!(
        receive,
        vec![(spair("inp", "proc"), vec![spair("t1", "a"), spair("t2", "b")])]
    );
    assert_eq!(types, vec![spair("t1", "worker"), spair("t2", "logger")]);
}

#[test]
fn component_types_are_collected_public_then_private() {
    let mut pkg = package_with(vec![
        AadlDeclaration::ComponentType(ctype(ComponentCategory::Thread, "T", vec![port("p", PortDirection::In, PortType::Event)], Vec::new())),
        AadlDeclaration::ComponentImplementation(cimpl(ComponentCategory::Thread, "T", Vec::new(), Vec::new(), Vec::new())),
    ]);
    pkg.private_section = Some(PackageSection {
        is_public: false,
        declarations: vec![AadlDeclaration::ComponentType(ctype(ComponentCategory::Process, "T", Vec::new(), Vec::new()))],
    });
    let mut table = Vec::new();
    collect_component_types(&mut table, &pkg);
    assert_eq!(table.len(), 1);
    assert_eq!(table[0].0, "T");
    assert!(matches!(table[0].1.category, ComponentCategory::Process));
    let mut only_public = Vec::new();
    pkg.private_section = None;
    collect_component_types(&mut only_public, &pkg);
    match &only_public[0].1.features {
        FeatureClause::Items(fs) => assert_eq!(fs.len(), 1),
        _ => panic!("features expected"),
    }
}

#[test]
fn package_is_converted_in_order() {
    let pkg = Package {
        name: PackageName(vec!["My".to_string(), "Pkg".to_string()]),
        visibility_decls: Vec::new(),
        public_section: Some(PackageSection {
            is_public: true,
            declarations: vec![
                AadlDeclaration::ComponentType(ctype(ComponentCategory::System, "Sys", Vec::new(), Vec::new())),
                AadlDeclaration::ComponentType(ctype(ComponentCategory::Bus, "B", Vec::new(), Vec::new())),
            ],
        }),
        private_section: Some(PackageSection {
            is_public: false,
            declarations: vec![AadlDeclaration::ComponentType(ctype(ComponentCategory::Process, "Ctl", Vec::new(), Vec::new()))],
        }),
        properties: PropertyClause::ExplicitNone,
    };
    let mut c = AadlConverter::default();
    let m = c.convert_package(&pkg).expect("convertible package");
    assert_eq!(m.name, "my_pkg");
    assert_eq!(m.docs, vec!["// Auto-generated from AADL package: My::Pkg".to_string()]);
    assert_eq!(m.items.len(), 2);
    match (&m.items[0], &m.items[1]) {
        (Item::Struct(a), Item::Struct(b)) => {
            assert_eq!(a.name, "sysSystem");
            assert_eq!(b.name, "ctlProcess");
        },
        _ => panic!("two structs expected"),
    }
}

#[test]
fn package_with_unnegatable_integer_is_refused() {
    let bad = Property::BasicProperty(BasicPropertyAssociation {
        identifier: PropertyIdentifier { property_set: None, name: "Priority".to_string() },
        operator: PropertyOperator::Assign,
        is_constant: false,
        value: PropertyValue::Single(PropertyExpression::Integer(SignedIntergerOrConstant::Real(SignedInteger {
            sign: Some(aadl2rust::ast::aadl_ast_cj::Sign::Minus),
            value: i64::MIN,
            unit: None,
        }))),
    });
    let pkg = package_with(vec![AadlDeclaration::ComponentType(ctype(ComponentCategory::System, "Sys", Vec::new(), vec![bad]))]);
    let mut c = AadlConverter::default();
    assert!(c.convert_package(&pkg).is_none());
}

#[test]
fn cyclic_type_table_does_not_stop_threads_that_send_nothing() {
    let looping = ctype(
        ComponentCategory::Data,
        "Loop",
        Vec::new(),
        vec![prop(Some("Data_Model"), "Type_Source_Name", PropertyValue::Single(str_val("Loop")))],
    );
    let pkg = package_with(vec![
        AadlDeclaration::ComponentType(looping),
        AadlDeclaration::ComponentImplementation(cimpl(ComponentCategory::Thread, "Worker", Vec::new(), Vec::new(), Vec::new())),
    ]);
    let mut c = AadlConverter::default();
    let m = c.convert_package(&pkg).expect("the thread sends nothing");
    let text = dbg(&m.items);
    assert!(text.contains("workerThread"));
}
