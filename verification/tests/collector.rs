use aadl2rust::aadl_ast2rust_code::collector::{add_period_to_priority_function, convert_cpu_schedule_mapping};
use aadl2rust::intermediate_ast::{Expr, Item, Literal, RustModule, Statement, Visibility};

fn empty_module() -> RustModule {
    RustModule {
        name: "m".to_string(),
        docs: Vec::new(),
        items: Vec::new(),
        attrs: Vec::new(),
        vis: Visibility::Public,
        withs: Vec::new(),
    }
}

fn pair(a: &str, b: &str) -> (String, String) {
    (a.to_string(), b.to_string())
}

fn insert_args(s: &Statement) -> (i64, String) {
    match s {
        Statement::Expr(Expr::MethodCall(recv, m, args)) => {
            assert!(matches!(&**recv, Expr::Ident(n) if n == "map"));
            assert_eq!(m, "insert");
            let id = match &args[0] {
                Expr::Literal(Literal::Int(i)) => *i,
                other => panic!("unexpected {:?}", other),
            };
            let policy = match &args[1] {
                Expr::Path(p, _) => p[0].clone(),
                other => panic!("unexpected {:?}", other),
            };
            (id, policy)
        }
        other => panic!("unexpected {:?}", other),
    }
}

#[test]
fn cpu_mapping_absent_without_cpus() {
    let mut m = empty_module();
    convert_cpu_schedule_mapping(&mut m, &vec![pair("cpu", "RR")], &vec![]);
    assert!(m.items.is_empty());
}

#[test]
fn cpu_mapping_policies_by_protocol() {
    let mut m = empty_module();
    let protocols = vec![pair("cpu1", "Round_Robin_Protocol"), pair("cpu3", "edf"), pair("cpu4", "RMS")];
    let ids: Vec<(String, isize)> = vec![
        ("cpu1".to_string(), 1),
        ("cpu2".to_string(), 2),
        ("cpu3".to_string(), 3),
        ("cpu4".to_string(), 4),
    ];
    convert_cpu_schedule_mapping(&mut m, &protocols, &ids);
    assert_eq!(m.items.len(), 1);
    match &m.items[0] {
        Item::LazyStatic(l) => {
            assert_eq!(l.name, "CPU_ID_TO_SCHED_POLICY");
            assert_eq!(l.docs, vec!["// CPU ID到调度策略的映射".to_string()]);
            let stmts = &l.init.stmts;
            assert_eq!(stmts.len(), 6);
            assert!(matches!(&stmts[0], Statement::Let(s) if s.name == "map" && s.ifmut));
            assert_eq!(insert_args(&stmts[1]), (1, "SCHED_RR".to_string()));
            assert_eq!(insert_args(&stmts[2]), (2, "SCHED_FIFO".to_string()));
            assert_eq!(insert_args(&stmts[3]), (3, "SCHED_DEADLINE".to_string()));
            assert_eq!(insert_args(&stmts[4]), (4, "SCHED_FIFO".to_string()));
            assert!(matches!(&stmts[5], Statement::Expr(Expr::Ident(s)) if s == "return map"));
        }
        other => panic!("unexpected {:?}", other),
    }
}

#[test]
fn period_to_priority_only_for_monotonic_protocols() {
    let mut m = empty_module();
    add_period_to_priority_function(&mut m, &vec![pair("cpu", "POSIX_1003_HIGHEST_PRIORITY_FIRST_PROTOCOL")]);
    assert!(m.items.is_empty());
    add_period_to_priority_function(&mut m, &vec![pair("cpu", "FIFO"), pair("cpu2", "Rate_Monotonic_Protocol")]);
    assert_eq!(m.items.len(), 1);
    match &m.items[0] {
        Item::Function(f) => {
            assert_eq!(f.name, "period_to_priority");
            assert_eq!(f.params.len(), 1);
            assert_eq!(f.params[0].name, "period_ms");
            assert_eq!(f.body.stmts.len(), 3);
            assert!(matches!(&f.body.stmts[2], Statement::Expr(Expr::Ident(s)) if s == "return raw.max(1.0).min(99.0) as i32"));
            assert_eq!(f.docs.len(), 3);
        }
        other => panic!("unexpected {:?}", other),
    }
}

#[test]
fn period_to_priority_needs_a_monotonic_protocol_name() {
    let mut m = empty_module();
    add_period_to_priority_function(&mut m, &vec![pair("cpu0", "FIRM_DEADLINE")]);
    assert!(m.items.is_empty());
    add_period_to_priority_function(&mut m, &vec![pair("cpu", "edf_dm")]);
    assert!(m.items.is_empty());
    add_period_to_priority_function(&mut m, &vec![pair("cpu", "dms")]);
    assert_eq!(m.items.len(), 1);
}
