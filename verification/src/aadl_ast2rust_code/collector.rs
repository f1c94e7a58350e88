//! Model-wide code: the CPU scheduling-policy table and the
//! period-to-priority function of rate- and deadline-monotonic scheduling.

use vstd::prelude::*;
use crate::intermediate_ast::{
    group_view_laws, lemma_views_empty, mk_bin, mk_ident, mk_int, mk_let, mk_mcall0, mk_named,
    mk_ns2, s_bin, s_ident, s_int, s_let, s_mcall, stmts_view, types_view, Block, Expr,
    FunctionDef, Item, LazyStaticDef, Literal, Param, PathType, RustModule, SpecBlock, SpecExpr,
    SpecFunctionDef, SpecItem, SpecLazyStaticDef, SpecParam, SpecRustModule, SpecStatement,
    SpecType, Statement, Type, Visibility, items_view, lemma_items_view_push, mk_mcall,
    exprs_view,
};
use crate::text::{spec_contains, str_contains, str_eq, strings_view, to_upper, uppercase};
use crate::ast::aadl_ast_cj::{
    AccessDirection, ComponentType, DataAccessReference, DataAccessSpec, Feature, FeatureClause, PackageName,
    PortDataTypeReference, PortDirection, PortSpec, PortType, PrototypeClause, PropertyClause,
    SubcomponentAccessSpec, SubprogramAccessReference, SubprogramAccessSpec, UniqueImplementationReference,
    ImplementationName,
    AadlDeclaration, ComponentCategory, Connection, ConnectionClause, Package, PortEndpoint,
    Subcomponent, SubcomponentClassifier, SubcomponentClause, UniqueComponentClassifierReference,
};
use crate::aadlAst2rustCode::tool::{
    dedup_with_min_two_unique, dedup_with_min_two_unique_single_string, pairs_view, spec_min_two_unique,
};
use crate::aadl_ast2rust_code::converter::{
    assoc_insert, find_key, lemma_assoc_insert_absent, lemma_assoc_insert_first,
};

verus! {

broadcast use group_view_laws;

/// The value for `name` in a list of (name, value) entries: the first entry
/// with that name.
pub open spec fn spec_assoc_get(list: Seq<(Seq<char>, Seq<char>)>, name: Seq<char>) -> Option<Seq<char>>
    decreases list.len(),
{
    if list.len() == 0 {
        None
    } else if list[0].0 == name {
        Some(list[0].1)
    } else {
        spec_assoc_get(list.drop_first(), name)
    }
}

pub open spec fn string_pairs_view(v: Seq<(String, String)>) -> Seq<(Seq<char>, Seq<char>)> {
    v.map_values(|p: (String, String)| (p.0@, p.1@))
}

/// The Linux scheduling policy for an AADL scheduling protocol (upper-cased).
pub open spec fn spec_sched_constant(u: Seq<char>) -> Seq<char> {
    if u == "POSIX_1003_HIGHEST_PRIORITY_FIRST_PROTOCOL"@ || u == "HPF"@ {
        "SCHED_FIFO"@
    } else if u == "ROUND_ROBIN_PROTOCOL"@ || u == "RR"@ {
        "SCHED_RR"@
    } else if u == "EDF"@ || u == "EARLIEST_DEADLINE_FIRST_PROTOCOL"@ {
        "SCHED_DEADLINE"@
    } else if u == "RATE_MONOTONIC_PROTOCOL"@ || u == "RMS"@ || u == "RM"@ {
        "SCHED_FIFO"@
    } else if u == "DEADLINE_MONOTONIC_PROTOCOL"@ || u == "DM"@ || u == "DMS"@ {
        "SCHED_FIFO"@
    } else {
        "SCHED_FIFO"@
    }
}

/// The protocol of a CPU: what `protocols` gives for it, else `FIFO`.
pub open spec fn spec_cpu_protocol(protocols: Seq<(Seq<char>, Seq<char>)>, cpu: Seq<char>) -> Seq<char> {
    match spec_assoc_get(protocols, cpu) {
        Some(p) => p,
        None => "FIFO"@,
    }
}

/// `map.insert(<id>, <policy>);` for one CPU.
pub open spec fn spec_cpu_insert(
    protocols: Seq<(Seq<char>, Seq<char>)>,
    cpu: Seq<char>,
    id: int,
) -> SpecStatement {
    SpecStatement::Expr(
        s_mcall(
            s_ident("map"@),
            "insert"@,
            seq![
                s_int(id),
                SpecExpr::Path(
                    seq![spec_sched_constant(uppercase(spec_cpu_protocol(protocols, cpu)))],
                    PathType::Namespace,
                ),
            ],
        ),
    )
}

pub open spec fn cpu_ids_view(v: Seq<(String, isize)>) -> Seq<(Seq<char>, int)> {
    v.map_values(|p: (String, isize)| (p.0@, p.1 as int))
}

/// `HashMap<isize, i32>`
pub open spec fn spec_policy_map_type() -> SpecType {
    SpecType::Generic("HashMap"@, seq![SpecType::Named("isize"@), SpecType::Named("i32"@)])
}

/// `let mut map: HashMap<isize, i32> = HashMap::new();`, one insert per CPU,
/// then `return map`.
pub open spec fn spec_cpu_init_stmts(
    protocols: Seq<(Seq<char>, Seq<char>)>,
    cpus: Seq<(Seq<char>, int)>,
) -> Seq<SpecStatement> {
    seq![
        s_let(
            true,
            "map"@,
            Some(spec_policy_map_type()),
            Some(
                SpecExpr::Call(
                    Box::new(SpecExpr::Path(seq!["HashMap"@, "new"@], PathType::Namespace)),
                    Seq::empty(),
                ),
            ),
        ),
    ] + cpus.map_values(|c: (Seq<char>, int)| spec_cpu_insert(protocols, c.0, c.1)) + seq![
        SpecStatement::Expr(s_ident("return map"@)),
    ]
}

/// The lazy static `CPU_ID_TO_SCHED_POLICY` initialized by `stmts`.
pub open spec fn spec_cpu_lazy(stmts: Seq<SpecStatement>) -> SpecLazyStaticDef {
    SpecLazyStaticDef {
        name: "CPU_ID_TO_SCHED_POLICY"@,
        ty: spec_policy_map_type(),
        init: SpecBlock { stmts, expr: None },
        vis: Visibility::Public,
        docs: seq!["// CPU ID到调度策略的映射"@],
    }
}

/// The `CPU_ID_TO_SCHED_POLICY` lazy static: a map filled with one insert per CPU.
pub open spec fn spec_cpu_lazy_static(
    protocols: Seq<(Seq<char>, Seq<char>)>,
    cpus: Seq<(Seq<char>, int)>,
) -> SpecLazyStaticDef {
    spec_cpu_lazy(spec_cpu_init_stmts(protocols, cpus))
}

/// `module` with one more item at the end.
pub open spec fn spec_with_item(m: SpecRustModule, item: SpecItem) -> SpecRustModule {
    SpecRustModule { items: m.items.push(item), ..m }
}

fn assoc_get<'a>(list: &'a Vec<(String, String)>, name: &String) -> (res: Option<&'a String>)
    ensures
        match spec_assoc_get(string_pairs_view(list@), name@) {
            Some(v) => res is Some && res->0@ == v,
            None => res is None,
        },
{
    let ghost lv = string_pairs_view(list@);
    let mut i: usize = 0;
    assert(lv.skip(0) =~= lv);
    while i < list.len()
        invariant
            i <= list@.len(),
            lv == string_pairs_view(list@),
            spec_assoc_get(lv.skip(i as int), name@) == spec_assoc_get(lv, name@),
        decreases list@.len() - i,
    {
        assert(lv.skip(i as int)[0] == (list@[i as int].0@, list@[i as int].1@));
        if list[i].0 == *name {
            return Some(&list[i].1);
        }
        assert(lv.skip(i as int).drop_first() =~= lv.skip(i + 1));
        i = i + 1;
    }
    None
}

fn sched_constant(u: &str) -> (res: &'static str)
    ensures
        res@ == spec_sched_constant(u@),
{
    if str_eq(u, "POSIX_1003_HIGHEST_PRIORITY_FIRST_PROTOCOL") || str_eq(u, "HPF") {
        "SCHED_FIFO"
    } else if str_eq(u, "ROUND_ROBIN_PROTOCOL") || str_eq(u, "RR") {
        "SCHED_RR"
    } else if str_eq(u, "EDF") || str_eq(u, "EARLIEST_DEADLINE_FIRST_PROTOCOL") {
        "SCHED_DEADLINE"
    } else if str_eq(u, "RATE_MONOTONIC_PROTOCOL") || str_eq(u, "RMS") || str_eq(u, "RM") {
        "SCHED_FIFO"
    } else if str_eq(u, "DEADLINE_MONOTONIC_PROTOCOL") || str_eq(u, "DM") || str_eq(u, "DMS") {
        "SCHED_FIFO"
    } else {
        "SCHED_FIFO"
    }
}

fn policy_map_type() -> (t: Type)
    ensures
        t@ == spec_policy_map_type(),
{
    let mut args: Vec<Type> = Vec::new();
    args.push(mk_named("isize"));
    args.push(mk_named("i32"));
    proof {
        lemma_views_empty();
        assert(args@ =~= Seq::<Type>::empty().push(args@[0]).push(args@[1]));
        assert(types_view(args@) =~= seq![SpecType::Named("isize"@), SpecType::Named("i32"@)]);
    }
    Type::Generic("HashMap".to_string(), args)
}

#[verifier::rlimit(40)]
fn cpu_insert_stmt(
    cpu_scheduling_protocols: &Vec<(String, String)>,
    cpu_name: &String,
    cpu_id: isize,
) -> (st: Statement)
    ensures
        st@ == spec_cpu_insert(string_pairs_view(cpu_scheduling_protocols@), cpu_name@, cpu_id as int),
{
    let protocol: &str = match assoc_get(cpu_scheduling_protocols, cpu_name) {
        Some(p) => p.as_str(),
        None => "FIFO",
    };
    let upper = to_upper(protocol);
    let sched = sched_constant(upper.as_str());
    let mut path: Vec<String> = Vec::new();
    path.push(sched.to_string());
    let mut args: Vec<Expr> = Vec::new();
    args.push(mk_int(cpu_id as i64));
    args.push(Expr::Path(path, PathType::Namespace));
    proof {
        lemma_views_empty();
        assert(strings_view(path@) =~= seq![sched@]);
        assert(args@ =~= Seq::<Expr>::empty().push(args@[0]).push(args@[1]));
        assert((cpu_id as i64) as int == cpu_id as int);
        assert(exprs_view(args@) =~= seq![
            s_int(cpu_id as int),
            SpecExpr::Path(seq![sched@], PathType::Namespace),
        ]);
    }
    Statement::Expr(mk_mcall(mk_ident("map"), "insert", args))
}

fn cpu_lazy_static(init_stmts: Vec<Statement>) -> (l: LazyStaticDef)
    ensures
        l@ == spec_cpu_lazy(stmts_view(init_stmts@)),
{
    let mut docs: Vec<String> = Vec::new();
    docs.push("// CPU ID到调度策略的映射".to_string());
    assert(strings_view(docs@) =~= seq!["// CPU ID到调度策略的映射"@]);
    LazyStaticDef {
        name: "CPU_ID_TO_SCHED_POLICY".to_string(),
        ty: policy_map_type(),
        init: Block { stmts: init_stmts, expr: None },
        vis: Visibility::Public,
        docs,
    }
}

/// Adds to `module` the lazy static `CPU_ID_TO_SCHED_POLICY`, a map from each
/// CPU id to the scheduling policy of its protocol (`FIFO` where none is
/// given).  Nothing is added when there are no CPUs.  The CPUs come as
/// (name, id) entries and the protocols as (CPU name, protocol) entries.
#[verifier::rlimit(40)]
pub fn convert_cpu_schedule_mapping(
    module: &mut RustModule,
    cpu_scheduling_protocols: &Vec<(String, String)>,
    cpu_name_to_id_mapping: &Vec<(String, isize)>,
)
    ensures
        cpu_name_to_id_mapping@.len() == 0 ==> final(module)@ == old(module)@,
        cpu_name_to_id_mapping@.len() > 0 ==> final(module)@ == spec_with_item(
            old(module)@,
            SpecItem::LazyStatic(
                spec_cpu_lazy_static(
                    string_pairs_view(cpu_scheduling_protocols@),
                    cpu_ids_view(cpu_name_to_id_mapping@),
                ),
            ),
        ),
{
    if cpu_name_to_id_mapping.len() == 0 {
        return;
    }
    let ghost protocols = string_pairs_view(cpu_scheduling_protocols@);
    let ghost cpus = cpu_ids_view(cpu_name_to_id_mapping@);
    let mut init_stmts: Vec<Statement> = Vec::new();
    let new_call = Expr::Call(Box::new(mk_ns2("HashMap", "new")), Vec::new());
    init_stmts.push(mk_let(true, "map", Some(policy_map_type()), Some(new_call)));
    proof {
        lemma_views_empty();
    }
    let ghost first = stmts_view(init_stmts@);
    let mut i: usize = 0;
    while i < cpu_name_to_id_mapping.len()
        invariant
            i <= cpu_name_to_id_mapping@.len(),
            protocols == string_pairs_view(cpu_scheduling_protocols@),
            cpus == cpu_ids_view(cpu_name_to_id_mapping@),
            stmts_view(init_stmts@) == first + cpus.take(i as int).map_values(
                |c: (Seq<char>, int)| spec_cpu_insert(protocols, c.0, c.1),
            ),
        decreases cpu_name_to_id_mapping@.len() - i,
    {
        let cpu_name = &cpu_name_to_id_mapping[i].0;
        let cpu_id = cpu_name_to_id_mapping[i].1;
        let st = cpu_insert_stmt(cpu_scheduling_protocols, cpu_name, cpu_id);
        init_stmts.push(st);
        proof {
            assert(cpus[i as int] == (cpu_name@, cpu_id as int));
            assert(cpus.take(i + 1).map_values(|c: (Seq<char>, int)| spec_cpu_insert(protocols, c.0, c.1))
                =~= cpus.take(i as int).map_values(
                |c: (Seq<char>, int)| spec_cpu_insert(protocols, c.0, c.1),
            ).push(spec_cpu_insert(protocols, cpu_name@, cpu_id as int)));
        }
        i = i + 1;
    }
    assert(cpus.take(cpu_name_to_id_mapping@.len() as int) =~= cpus);
    let ghost mid = stmts_view(init_stmts@);
    init_stmts.push(Statement::Expr(mk_ident("return map")));
    proof {
        assert(stmts_view(init_stmts@) =~= spec_cpu_init_stmts(protocols, cpus));
    }
    let lazy_static_def = cpu_lazy_static(init_stmts);
    let ghost old_items = module.items@;
    module.items.push(Item::LazyStatic(lazy_static_def));
    proof {
        lemma_items_view_push(old_items, module.items@.last());
        assert(module.items@ =~= old_items.push(module.items@.last()));
    }
}

/// Whether a protocol (upper-cased) is a rate- or deadline-monotonic one:
/// one of the names that the scheduling table maps to these protocols,
/// `RATE_MONOTONIC_PROTOCOL`, `RMS`, `RM`, `DEADLINE_MONOTONIC_PROTOCOL`,
/// `DMS` or `DM`.
pub open spec fn spec_is_rms_or_dms(u: Seq<char>) -> bool {
    u == "RATE_MONOTONIC_PROTOCOL"@ || u == "RMS"@ || u == "RM"@ || u == "DEADLINE_MONOTONIC_PROTOCOL"@
        || u == "DMS"@ || u == "DM"@
}

/// Whether some CPU's protocol is rate- or deadline-monotonic.
pub open spec fn spec_has_rms_or_dms(protocols: Seq<(Seq<char>, Seq<char>)>) -> bool {
    exists|i: int| 0 <= i < protocols.len() && spec_is_rms_or_dms(uppercase(#[trigger] protocols[i].1))
}

/// `fn period_to_priority(period_ms: f64) -> i32`, computing
/// `prio(P) = max(1, min(99, 99 - floor(k * log10(P))))` with `k = 10`.
pub open spec fn spec_period_to_priority_fn() -> SpecFunctionDef {
    SpecFunctionDef {
        name: "period_to_priority"@,
        params: seq![SpecParam { name: "period_ms"@, ty: SpecType::Named("f64"@) }],
        return_type: SpecType::Named("i32"@),
        body: SpecBlock {
            stmts: seq![
                s_let(false, "k"@, Some(SpecType::Named("f64"@)), Some(s_ident("10.0"@))),
                s_let(
                    false,
                    "raw"@,
                    Some(SpecType::Named("f64"@)),
                    Some(
                        s_bin(
                            s_ident("99.0"@),
                            "-"@,
                            s_mcall(
                                s_bin(
                                    s_ident("k"@),
                                    "*"@,
                                    s_mcall(s_ident("period_ms"@), "log10"@, Seq::empty()),
                                ),
                                "floor"@,
                                Seq::empty(),
                            ),
                        ),
                    ),
                ),
                SpecStatement::Expr(s_ident("return raw.max(1.0).min(99.0) as i32"@)),
            ],
            expr: None,
        },
        asyncness: false,
        vis: Visibility::Public,
        docs: seq![
            "// prio(P)=max(1,min(99,99−⌊k⋅log10(P)⌋))"@,
            "// 根据周期计算优先级，周期越短优先级越高"@,
            "// 用于 RMS (Rate Monotonic Scheduling) 和 DMS (Deadline Monotonic Scheduling)"@,
        ],
        attrs: Seq::empty(),
    }
}

fn is_rms_or_dms(u: &str) -> (res: bool)
    ensures
        res == spec_is_rms_or_dms(u@),
{
    str_eq(u, "RATE_MONOTONIC_PROTOCOL") || str_eq(u, "RMS") || str_eq(u, "RM") || str_eq(
        u,
        "DEADLINE_MONOTONIC_PROTOCOL",
    ) || str_eq(u, "DMS") || str_eq(u, "DM")
}

#[verifier::rlimit(40)]
fn period_to_priority_body() -> (b: Block)
    ensures
        b@ == spec_period_to_priority_fn().body,
{
    let mut body_stmts: Vec<Statement> = Vec::new();
    body_stmts.push(mk_let(false, "k", Some(mk_named("f64")), Some(mk_ident("10.0"))));
    let log = mk_mcall0(mk_ident("period_ms"), "log10");
    let floor = mk_mcall0(mk_bin(mk_ident("k"), "*", log), "floor");
    body_stmts.push(
        mk_let(false, "raw", Some(mk_named("f64")), Some(mk_bin(mk_ident("99.0"), "-", floor))),
    );
    body_stmts.push(Statement::Expr(mk_ident("return raw.max(1.0).min(99.0) as i32")));
    proof {
        lemma_views_empty();
        assert(body_stmts@ =~= Seq::<Statement>::empty().push(body_stmts@[0]).push(
            body_stmts@[1],
        ).push(body_stmts@[2]));
        assert(stmts_view(body_stmts@) =~= spec_period_to_priority_fn().body.stmts);
    }
    Block { stmts: body_stmts, expr: None }
}

fn period_to_priority_docs() -> (d: Vec<String>)
    ensures
        strings_view(d@) == spec_period_to_priority_fn().docs,
{
    let mut docs: Vec<String> = Vec::new();
    docs.push("// prio(P)=max(1,min(99,99−⌊k⋅log10(P)⌋))".to_string());
    docs.push("// 根据周期计算优先级，周期越短优先级越高".to_string());
    docs.push(
        "// 用于 RMS (Rate Monotonic Scheduling) 和 DMS (Deadline Monotonic Scheduling)".to_string(),
    );
    assert(strings_view(docs@) =~= spec_period_to_priority_fn().docs);
    docs
}

fn period_to_priority_fn() -> (f: FunctionDef)
    ensures
        f@ == spec_period_to_priority_fn(),
{
    let body = period_to_priority_body();
    let docs = period_to_priority_docs();
    let mut params: Vec<Param> = Vec::new();
    params.push(Param { name: "period_ms".to_string(), ty: mk_named("f64") });
    let f = FunctionDef {
        name: "period_to_priority".to_string(),
        params,
        return_type: mk_named("i32"),
        body,
        asyncness: false,
        vis: Visibility::Public,
        docs,
        attrs: Vec::new(),
    };
    proof {
        assert(crate::intermediate_ast::params_view(params@) =~= seq![
            SpecParam { name: "period_ms"@, ty: SpecType::Named("f64"@) },
        ]);
        assert(crate::intermediate_ast::attrs_view(Seq::empty()) =~= Seq::empty());
        assert(f@ =~= spec_period_to_priority_fn());
    }
    f
}

/// Adds `period_to_priority` to `module` when some CPU's protocol is rate-
/// or deadline-monotonic; otherwise leaves `module` as it is.
pub fn add_period_to_priority_function(
    module: &mut RustModule,
    cpu_scheduling_protocols: &Vec<(String, String)>,
)
    ensures
        !spec_has_rms_or_dms(string_pairs_view(cpu_scheduling_protocols@)) ==> final(module)@
            == old(module)@,
        spec_has_rms_or_dms(string_pairs_view(cpu_scheduling_protocols@)) ==> final(module)@
            == spec_with_item(old(module)@, SpecItem::Function(spec_period_to_priority_fn())),
{
    let ghost protocols = string_pairs_view(cpu_scheduling_protocols@);
    let mut found = false;
    let mut i: usize = 0;
    while i < cpu_scheduling_protocols.len()
        invariant
            i <= cpu_scheduling_protocols@.len(),
            protocols == string_pairs_view(cpu_scheduling_protocols@),
            found == exists|j: int| 0 <= j < i && spec_is_rms_or_dms(uppercase(#[trigger] protocols[j].1)),
        decreases cpu_scheduling_protocols@.len() - i,
    {
        let upper = to_upper(cpu_scheduling_protocols[i].1.as_str());
        assert(protocols[i as int].1 == cpu_scheduling_protocols@[i as int].1@);
        if is_rms_or_dms(upper.as_str()) {
            found = true;
        }
        i = i + 1;
    }
    if !found {
        return;
    }
    let ghost old_items = module.items@;
    module.items.push(Item::Function(period_to_priority_fn()));
    proof {
        lemma_items_view_push(old_items, module.items@.last());
        assert(module.items@ =~= old_items.push(module.items@.last()));
    }
}


// ---------------------------------------------------------------------------
// Broadcast connections between the processes of a system
// ---------------------------------------------------------------------------

/// The declarations of a package's public section.
pub open spec fn public_decls(pkg: Package) -> Seq<AadlDeclaration> {
    match pkg.public_section {
        Some(section) => section.declarations@,
        None => Seq::empty(),
    }
}

/// The listed connections of a declaration that is a system implementation
/// (none for any other declaration).
pub open spec fn system_connections(d: AadlDeclaration) -> Seq<Connection> {
    match d {
        AadlDeclaration::ComponentImplementation(i) => if i.category == ComponentCategory::System {
            match i.connections {
                ConnectionClause::Items(c) => c@,
                _ => Seq::empty(),
            }
        } else {
            Seq::empty()
        },
        _ => Seq::empty(),
    }
}

/// The listed subcomponents of a declaration that is a system implementation
/// (none for any other declaration).
pub open spec fn system_subcomponents(d: AadlDeclaration) -> Seq<Subcomponent> {
    match d {
        AadlDeclaration::ComponentImplementation(i) => if i.category == ComponentCategory::System {
            match i.subcomponents {
                SubcomponentClause::Items(c) => c@,
                _ => Seq::empty(),
            }
        } else {
            Seq::empty()
        },
        _ => Seq::empty(),
    }
}

/// The (subcomponent, port) an endpoint names, where it names one.
pub open spec fn endpoint_pair(e: PortEndpoint) -> Option<(Seq<char>, Seq<char>)> {
    match e {
        PortEndpoint::SubcomponentPort { subcomponent, port } => Some((subcomponent@, port@)),
        _ => None,
    }
}

/// The (subcomponent, port) a port connection starts from.
pub open spec fn port_source(c: Connection) -> Option<(Seq<char>, Seq<char>)> {
    match c {
        Connection::Port(p) => endpoint_pair(p.source),
        _ => None,
    }
}

/// The (subcomponent, port) a port connection ends at.
pub open spec fn port_dest(c: Connection) -> Option<(Seq<char>, Seq<char>)> {
    match c {
        Connection::Port(p) => endpoint_pair(p.destination),
        _ => None,
    }
}

/// The sending (subcomponent, port) pairs of a list of connections, in order.
pub open spec fn conn_sources(cs: Seq<Connection>) -> Seq<(Seq<char>, Seq<char>)>
    decreases cs.len(),
{
    if cs.len() == 0 {
        Seq::empty()
    } else {
        let r = conn_sources(cs.drop_last());
        match port_source(cs.last()) {
            Some(p) => r.push(p),
            None => r,
        }
    }
}

/// The sending pairs of the system implementations among `ds`, in order.
pub open spec fn decl_sources(ds: Seq<AadlDeclaration>) -> Seq<(Seq<char>, Seq<char>)>
    decreases ds.len(),
{
    if ds.len() == 0 {
        Seq::empty()
    } else {
        decl_sources(ds.drop_last()) + conn_sources(system_connections(ds.last()))
    }
}

/// The connections of `d` if it is a system implementation with listed
/// connections.
fn connections_of(d: &AadlDeclaration) -> (res: Option<&Vec<Connection>>)
    ensures
        match res {
            Some(c) => c@ == system_connections(*d),
            None => system_connections(*d) == Seq::<Connection>::empty(),
        },
{
    match d {
        AadlDeclaration::ComponentImplementation(i) => {
            if i.category == ComponentCategory::System {
                match &i.connections {
                    ConnectionClause::Items(c) => Some(c),
                    _ => None,
                }
            } else {
                None
            }
        },
        _ => None,
    }
}

/// The subcomponents of `d` if it is a system implementation with listed
/// subcomponents.
fn subcomponents_of(d: &AadlDeclaration) -> (res: Option<&Vec<Subcomponent>>)
    ensures
        match res {
            Some(c) => c@ == system_subcomponents(*d),
            None => system_subcomponents(*d) == Seq::<Subcomponent>::empty(),
        },
{
    match d {
        AadlDeclaration::ComponentImplementation(i) => {
            if i.category == ComponentCategory::System {
                match &i.subcomponents {
                    SubcomponentClause::Items(c) => Some(c),
                    _ => None,
                }
            } else {
                None
            }
        },
        _ => None,
    }
}

/// The (subcomponent, port) an endpoint names, as strings.
fn endpoint_strings(e: &PortEndpoint) -> (res: Option<(String, String)>)
    ensures
        match res {
            Some(p) => endpoint_pair(*e) == Some((p.0@, p.1@)),
            None => endpoint_pair(*e) is None,
        },
{
    match e {
        PortEndpoint::SubcomponentPort { subcomponent, port } => Some((subcomponent.clone(), port.clone())),
        _ => None,
    }
}

fn push_conn_sources(send: &mut Vec<(String, String)>, conns: &Vec<Connection>)
    ensures
        pairs_view(final(send)@) == pairs_view(old(send)@) + conn_sources(conns@),
{
    let ghost start = pairs_view(send@);
    let mut i: usize = 0;
    while i < conns.len()
        invariant
            i <= conns@.len(),
            pairs_view(send@) == start + conn_sources(conns@.take(i as int)),
        decreases conns@.len() - i,
    {
        proof {
            assert(conns@.take(i + 1).drop_last() =~= conns@.take(i as int));
        }
        if let Connection::Port(p) = &conns[i] {
            if let Some(pair) = endpoint_strings(&p.source) {
                let ghost before = send@;
                send.push(pair);
                proof {
                    assert(pairs_view(send@) =~= pairs_view(before).push((pair.0@, pair.1@)));
                }
            }
        }
        i = i + 1;
    }
    assert(conns@.take(conns@.len() as int) =~= conns@);
}

fn push_decl_sources(send: &mut Vec<(String, String)>, decls: &Vec<AadlDeclaration>)
    ensures
        pairs_view(final(send)@) == pairs_view(old(send)@) + decl_sources(decls@),
{
    let ghost start = pairs_view(send@);
    let mut i: usize = 0;
    while i < decls.len()
        invariant
            i <= decls@.len(),
            pairs_view(send@) == start + decl_sources(decls@.take(i as int)),
        decreases decls@.len() - i,
    {
        proof {
            assert(decls@.take(i + 1).drop_last() =~= decls@.take(i as int));
        }
        let ghost before = pairs_view(send@);
        match connections_of(&decls[i]) {
            Some(conns) => {
                push_conn_sources(send, conns);
            },
            None => {
                assert(conn_sources(Seq::<Connection>::empty()) =~= Seq::empty());
            },
        }
        proof {
            let ds = decls@.take(i + 1);
            assert(ds.last() == decls@[i as int]);
            assert(pairs_view(send@) =~= start + decl_sources(ds));
        }
        i = i + 1;
    }
    assert(decls@.take(decls@.len() as int) =~= decls@);
}

/// A broadcast table after `value` is added under `key`, as
/// `entry(key).or_insert(Vec::new()).push(value)` does on a map: the list of
/// the first entry with that key grows by `value`, or an entry holding only
/// `value` is added at the end.
pub open spec fn entry_push(
    entries: Seq<((Seq<char>, Seq<char>), Seq<(Seq<char>, Seq<char>)>)>,
    key: (Seq<char>, Seq<char>),
    value: (Seq<char>, Seq<char>),
) -> Seq<((Seq<char>, Seq<char>), Seq<(Seq<char>, Seq<char>)>)>
    decreases entries.len(),
{
    if entries.len() == 0 {
        seq![(key, seq![value])]
    } else if entries[0].0 == key {
        entries.update(0, (key, entries[0].1.push(value)))
    } else {
        seq![entries[0]] + entry_push(entries.drop_first(), key, value)
    }
}

proof fn lemma_entry_push_first(
    entries: Seq<((Seq<char>, Seq<char>), Seq<(Seq<char>, Seq<char>)>)>,
    key: (Seq<char>, Seq<char>),
    value: (Seq<char>, Seq<char>),
    i: int,
)
    requires
        0 <= i < entries.len(),
        entries[i].0 == key,
        forall|j: int| 0 <= j < i ==> #[trigger] entries[j].0 != key,
    ensures
        entry_push(entries, key, value) == entries.update(i, (key, entries[i].1.push(value))),
    decreases i,
{
    if i > 0 {
        let t = entries.drop_first();
        assert forall|j: int| 0 <= j < i - 1 implies #[trigger] t[j].0 != key by {
            assert(entries[j + 1].0 != key);
        }
        lemma_entry_push_first(t, key, value, i - 1);
        assert(entries[0].0 != key);
        assert(entry_push(entries, key, value) =~= entries.update(i, (key, entries[i].1.push(value))));
    }
}

proof fn lemma_entry_push_absent(
    entries: Seq<((Seq<char>, Seq<char>), Seq<(Seq<char>, Seq<char>)>)>,
    key: (Seq<char>, Seq<char>),
    value: (Seq<char>, Seq<char>),
)
    requires
        forall|j: int| 0 <= j < entries.len() ==> #[trigger] entries[j].0 != key,
    ensures
        entry_push(entries, key, value) == entries.push((key, seq![value])),
    decreases entries.len(),
{
    if entries.len() > 0 {
        let t = entries.drop_first();
        assert forall|j: int| 0 <= j < t.len() implies #[trigger] t[j].0 != key by {
            assert(entries[j + 1].0 != key);
        }
        lemma_entry_push_absent(t, key, value);
        assert(entries[0].0 != key);
        assert(entry_push(entries, key, value) =~= entries.push((key, seq![value])));
    }
}

/// The character sequences of a broadcast table.
pub open spec fn broadcast_view(v: Seq<((String, String), Vec<(String, String)>)>) -> Seq<
    ((Seq<char>, Seq<char>), Seq<(Seq<char>, Seq<char>)>),
> {
    v.map_values(|e: ((String, String), Vec<(String, String)>)| ((e.0.0@, e.0.1@), pairs_view(e.1@)))
}

fn entry_push_exec(
    table: &mut Vec<((String, String), Vec<(String, String)>)>,
    key: &(String, String),
    value: (String, String),
)
    ensures
        broadcast_view(final(table)@) == entry_push(
            broadcast_view(old(table)@),
            (key.0@, key.1@),
            (value.0@, value.1@),
        ),
{
    let ghost tv = broadcast_view(table@);
    let ghost k = (key.0@, key.1@);
    let ghost v = (value.0@, value.1@);
    let mut i: usize = 0;
    while i < table.len()
        invariant
            i <= table@.len(),
            tv == broadcast_view(table@),
            tv == broadcast_view(old(table)@),
            k == (key.0@, key.1@),
            v == (value.0@, value.1@),
            forall|j: int| 0 <= j < i ==> #[trigger] tv[j].0 != k,
        decreases table@.len() - i,
    {
        assert(tv[i as int].0 == (table@[i as int].0.0@, table@[i as int].0.1@));
        let same_component = str_eq(table[i].0.0.as_str(), key.0.as_str());
        let same_port = str_eq(table[i].0.1.as_str(), key.1.as_str());
        if same_component && same_port {
            assert(tv[i as int].0 == k);
            let (entry_key, mut list) = table.remove(i);
            let ghost old_list = list@;
            list.push(value);
            proof {
                assert(list@ =~= old_list.push(value));
                assert(pairs_view(list@) =~= pairs_view(old_list).push(v));
            }
            table.insert(i, (entry_key, list));
            proof {
                lemma_entry_push_first(tv, k, v, i as int);
                assert(broadcast_view(table@) =~= tv.update(i as int, (k, tv[i as int].1.push(v))));
            }
            return;
        }
        i = i + 1;
    }
    let mut list: Vec<(String, String)> = Vec::new();
    list.push(value);
    assert(pairs_view(list@) =~= seq![v]);
    table.push(((key.0.clone(), key.1.clone()), list));
    proof {
        lemma_entry_push_absent(tv, k, v);
        assert(broadcast_view(table@) =~= tv.push((k, seq![v])));
    }
}

/// One connection's part in filling the broadcast table for the sending
/// pair `ele`: a port connection from `ele` to a (subcomponent, port) adds
/// that receiver under `ele`.
pub open spec fn receive_step(
    m: Seq<((Seq<char>, Seq<char>), Seq<(Seq<char>, Seq<char>)>)>,
    c: Connection,
    ele: (Seq<char>, Seq<char>),
) -> Seq<((Seq<char>, Seq<char>), Seq<(Seq<char>, Seq<char>)>)> {
    if port_source(c) == Some(ele) {
        match port_dest(c) {
            Some(d) => entry_push(m, ele, d),
            None => m,
        }
    } else {
        m
    }
}

/// The broadcast table after the connections `cs` are read for `ele`.
pub open spec fn receive_conns(
    m: Seq<((Seq<char>, Seq<char>), Seq<(Seq<char>, Seq<char>)>)>,
    cs: Seq<Connection>,
    ele: (Seq<char>, Seq<char>),
) -> Seq<((Seq<char>, Seq<char>), Seq<(Seq<char>, Seq<char>)>)>
    decreases cs.len(),
{
    if cs.len() == 0 {
        m
    } else {
        receive_step(receive_conns(m, cs.drop_last(), ele), cs.last(), ele)
    }
}

/// The broadcast table after the system implementations among `ds` are read
/// for `ele`.
pub open spec fn receive_decls(
    m: Seq<((Seq<char>, Seq<char>), Seq<(Seq<char>, Seq<char>)>)>,
    ds: Seq<AadlDeclaration>,
    ele: (Seq<char>, Seq<char>),
) -> Seq<((Seq<char>, Seq<char>), Seq<(Seq<char>, Seq<char>)>)>
    decreases ds.len(),
{
    if ds.len() == 0 {
        m
    } else {
        receive_conns(receive_decls(m, ds.drop_last(), ele), system_connections(ds.last()), ele)
    }
}

/// The broadcast table after `ds` is read for each sending pair of `eles`
/// in turn.
pub open spec fn receive_all(
    m: Seq<((Seq<char>, Seq<char>), Seq<(Seq<char>, Seq<char>)>)>,
    eles: Seq<(Seq<char>, Seq<char>)>,
    ds: Seq<AadlDeclaration>,
) -> Seq<((Seq<char>, Seq<char>), Seq<(Seq<char>, Seq<char>)>)>
    decreases eles.len(),
{
    if eles.len() == 0 {
        m
    } else {
        receive_decls(receive_all(m, eles.drop_last(), ds), ds, eles.last())
    }
}

fn receive_from_conns(
    table: &mut Vec<((String, String), Vec<(String, String)>)>,
    conns: &Vec<Connection>,
    ele: &(String, String),
)
    ensures
        broadcast_view(final(table)@) == receive_conns(
            broadcast_view(old(table)@),
            conns@,
            (ele.0@, ele.1@),
        ),
{
    let ghost start = broadcast_view(table@);
    let ghost e = (ele.0@, ele.1@);
    let mut i: usize = 0;
    while i < conns.len()
        invariant
            i <= conns@.len(),
            broadcast_view(table@) == receive_conns(start, conns@.take(i as int), e),
            e == (ele.0@, ele.1@),
        decreases conns@.len() - i,
    {
        proof {
            assert(conns@.take(i + 1).drop_last() =~= conns@.take(i as int));
            assert(conns@.take(i + 1).last() == conns@[i as int]);
        }
        if let Connection::Port(p) = &conns[i] {
            if let Some(src) = endpoint_strings(&p.source) {
                if str_eq(src.0.as_str(), ele.0.as_str()) && str_eq(src.1.as_str(), ele.1.as_str()) {
                    if let Some(dst) = endpoint_strings(&p.destination) {
                        entry_push_exec(table, ele, dst);
                    }
                }
            }
        }
        i = i + 1;
    }
    assert(conns@.take(conns@.len() as int) =~= conns@);
}

fn receive_from_decls(
    table: &mut Vec<((String, String), Vec<(String, String)>)>,
    decls: &Vec<AadlDeclaration>,
    ele: &(String, String),
)
    ensures
        broadcast_view(final(table)@) == receive_decls(
            broadcast_view(old(table)@),
            decls@,
            (ele.0@, ele.1@),
        ),
{
    let ghost start = broadcast_view(table@);
    let ghost e = (ele.0@, ele.1@);
    let mut i: usize = 0;
    while i < decls.len()
        invariant
            i <= decls@.len(),
            broadcast_view(table@) == receive_decls(start, decls@.take(i as int), e),
            e == (ele.0@, ele.1@),
        decreases decls@.len() - i,
    {
        proof {
            assert(decls@.take(i + 1).drop_last() =~= decls@.take(i as int));
            assert(decls@.take(i + 1).last() == decls@[i as int]);
        }
        match connections_of(&decls[i]) {
            Some(conns) => {
                receive_from_conns(table, conns, ele);
            },
            None => {},
        }
        i = i + 1;
    }
    assert(decls@.take(decls@.len() as int) =~= decls@);
}

/// The component type named by a subcomponent that is classified by an
/// implementation reference.
pub open spec fn impl_type_of(sub: Subcomponent) -> Option<Seq<char>> {
    match sub.classifier {
        SubcomponentClassifier::ClassifierReference(
            UniqueComponentClassifierReference::Implementation(r),
        ) => Some(r.implementation_name.type_identifier@),
        _ => None,
    }
}

/// One subcomponent's part in the table of broadcasting subcomponents'
/// types: a subcomponent named `receiver` or `sender` and classified by an
/// implementation is put in the table with its component type.
pub open spec fn type_step(
    t: Seq<(Seq<char>, Seq<char>)>,
    sub: Subcomponent,
    receiver: Seq<char>,
    sender: Seq<char>,
) -> Seq<(Seq<char>, Seq<char>)> {
    if sub.identifier@ == receiver || sub.identifier@ == sender {
        match impl_type_of(sub) {
            Some(ty) => assoc_insert(t, sub.identifier@, ty),
            None => t,
        }
    } else {
        t
    }
}

/// The type table after the subcomponents `subs` are read.
pub open spec fn type_subs(
    t: Seq<(Seq<char>, Seq<char>)>,
    subs: Seq<Subcomponent>,
    receiver: Seq<char>,
    sender: Seq<char>,
) -> Seq<(Seq<char>, Seq<char>)>
    decreases subs.len(),
{
    if subs.len() == 0 {
        t
    } else {
        type_step(type_subs(t, subs.drop_last(), receiver, sender), subs.last(), receiver, sender)
    }
}

/// The type table after the system implementations among `ds` are read.
pub open spec fn type_decls(
    t: Seq<(Seq<char>, Seq<char>)>,
    ds: Seq<AadlDeclaration>,
    receiver: Seq<char>,
    sender: Seq<char>,
) -> Seq<(Seq<char>, Seq<char>)>
    decreases ds.len(),
{
    if ds.len() == 0 {
        t
    } else {
        type_subs(type_decls(t, ds.drop_last(), receiver, sender), system_subcomponents(ds.last()), receiver, sender)
    }
}

/// The type table after `ds` is read for each receiver of one broadcast.
pub open spec fn type_receivers(
    t: Seq<(Seq<char>, Seq<char>)>,
    receivers: Seq<(Seq<char>, Seq<char>)>,
    sender: Seq<char>,
    ds: Seq<AadlDeclaration>,
) -> Seq<(Seq<char>, Seq<char>)>
    decreases receivers.len(),
{
    if receivers.len() == 0 {
        t
    } else {
        type_decls(type_receivers(t, receivers.drop_last(), sender, ds), ds, receivers.last().0, sender)
    }
}

/// The type table after `ds` is read for every broadcast of the table `es`.
pub open spec fn type_entries(
    t: Seq<(Seq<char>, Seq<char>)>,
    es: Seq<((Seq<char>, Seq<char>), Seq<(Seq<char>, Seq<char>)>)>,
    ds: Seq<AadlDeclaration>,
) -> Seq<(Seq<char>, Seq<char>)>
    decreases es.len(),
{
    if es.len() == 0 {
        t
    } else {
        type_receivers(type_entries(t, es.drop_last(), ds), es.last().1, es.last().0.0, ds)
    }
}

/// Puts `(key, value)` in a table of names (see `assoc_insert`).
fn put_name(table: &mut Vec<(String, String)>, key: String, value: String)
    ensures
        pairs_view(final(table)@) == assoc_insert(pairs_view(old(table)@), key@, value@),
{
    let ghost tv = pairs_view(table@);
    let ghost (kv, vv) = (key@, value@);
    match find_key(table, key.as_str()) {
        Some(i) => {
            table.set(i, (key, value));
            proof {
                assert forall|j: int| 0 <= j < i implies #[trigger] tv[j].0 != kv by {
                    assert(old(table)@[j].0@ != kv);
                }
                lemma_assoc_insert_first(tv, kv, vv, i as int);
                assert(pairs_view(table@) =~= tv.update(i as int, (kv, vv)));
            }
        },
        None => {
            table.push((key, value));
            proof {
                assert forall|j: int| 0 <= j < tv.len() implies #[trigger] tv[j].0 != kv by {
                    assert(old(table)@[j].0@ != kv);
                }
                lemma_assoc_insert_absent(tv, kv, vv);
                assert(pairs_view(table@) =~= tv.push((kv, vv)));
            }
        },
    }
}

/// The component type of a subcomponent classified by an implementation.
fn impl_type_exec(sub: &Subcomponent) -> (res: Option<String>)
    ensures
        match res {
            Some(t) => impl_type_of(*sub) == Some(t@),
            None => impl_type_of(*sub) is None,
        },
{
    match &sub.classifier {
        SubcomponentClassifier::ClassifierReference(
            UniqueComponentClassifierReference::Implementation(r),
        ) => Some(r.implementation_name.type_identifier.clone()),
        _ => None,
    }
}

fn types_from_subs(types: &mut Vec<(String, String)>, subs: &Vec<Subcomponent>, receiver: &String, sender: &String)
    ensures
        pairs_view(final(types)@) == type_subs(pairs_view(old(types)@), subs@, receiver@, sender@),
{
    let ghost start = pairs_view(types@);
    let mut i: usize = 0;
    while i < subs.len()
        invariant
            i <= subs@.len(),
            pairs_view(types@) == type_subs(start, subs@.take(i as int), receiver@, sender@),
        decreases subs@.len() - i,
    {
        proof {
            assert(subs@.take(i + 1).drop_last() =~= subs@.take(i as int));
            assert(subs@.take(i + 1).last() == subs@[i as int]);
        }
        let sub = &subs[i];
        if str_eq(sub.identifier.as_str(), receiver.as_str()) || str_eq(sub.identifier.as_str(), sender.as_str()) {
            if let Some(ty) = impl_type_exec(sub) {
                put_name(types, sub.identifier.clone(), ty);
            }
        }
        i = i + 1;
    }
    assert(subs@.take(subs@.len() as int) =~= subs@);
}

fn types_from_decls(
    types: &mut Vec<(String, String)>,
    decls: &Vec<AadlDeclaration>,
    receiver: &String,
    sender: &String,
)
    ensures
        pairs_view(final(types)@) == type_decls(pairs_view(old(types)@), decls@, receiver@, sender@),
{
    let ghost start = pairs_view(types@);
    let mut i: usize = 0;
    while i < decls.len()
        invariant
            i <= decls@.len(),
            pairs_view(types@) == type_decls(start, decls@.take(i as int), receiver@, sender@),
        decreases decls@.len() - i,
    {
        proof {
            assert(decls@.take(i + 1).drop_last() =~= decls@.take(i as int));
            assert(decls@.take(i + 1).last() == decls@[i as int]);
        }
        match subcomponents_of(&decls[i]) {
            Some(subs) => {
                types_from_subs(types, subs, receiver, sender);
            },
            None => {},
        }
        i = i + 1;
    }
    assert(decls@.take(decls@.len() as int) =~= decls@);
}

fn types_from_receivers(
    types: &mut Vec<(String, String)>,
    receivers: &Vec<(String, String)>,
    sender: &String,
    decls: &Vec<AadlDeclaration>,
)
    ensures
        pairs_view(final(types)@) == type_receivers(pairs_view(old(types)@), pairs_view(receivers@), sender@, decls@),
{
    let ghost start = pairs_view(types@);
    let ghost rv = pairs_view(receivers@);
    let mut i: usize = 0;
    while i < receivers.len()
        invariant
            i <= receivers@.len(),
            rv == pairs_view(receivers@),
            pairs_view(types@) == type_receivers(start, rv.take(i as int), sender@, decls@),
        decreases receivers@.len() - i,
    {
        proof {
            assert(rv.take(i + 1).drop_last() =~= rv.take(i as int));
            assert(rv.take(i + 1).last() == rv[i as int]);
        }
        types_from_decls(types, decls, &receivers[i].0, sender);
        i = i + 1;
    }
    assert(rv.take(rv.len() as int) =~= rv);
}

/// Collects the broadcast connections between the processes of the systems
/// of a package's public section.
///
/// Every port connection of a system implementation that starts from a
/// (subcomponent, port) pair appends that pair to `process_broadcast_send`,
/// which is then cut down to the pairs that occur at least twice, each once
/// (see `dedup_with_min_two_unique`). For each such pair, in that order, the
/// (subcomponent, port) pairs it is connected to are added under it in
/// `process_broadcast_receive`, in the order of the connections. Last, for
/// each receiver of each entry of `process_broadcast_receive`, every
/// subcomponent of a system implementation that is named like the receiver
/// or the sender, and is classified by an implementation, is recorded in
/// `system_subcomponent_identify_to_type` with its component type.
pub fn collect_process_connections(
    process_broadcast_send: &mut Vec<(String, String)>,
    process_broadcast_receive: &mut Vec<((String, String), Vec<(String, String)>)>,
    system_subcomponent_identify_to_type: &mut Vec<(String, String)>,
    pkg: &Package,
)
    ensures
        pairs_view(final(process_broadcast_send)@) == spec_min_two_unique(
            pairs_view(old(process_broadcast_send)@) + decl_sources(public_decls(*pkg)),
        ),
        broadcast_view(final(process_broadcast_receive)@) == receive_all(
            broadcast_view(old(process_broadcast_receive)@),
            pairs_view(final(process_broadcast_send)@),
            public_decls(*pkg),
        ),
        pairs_view(final(system_subcomponent_identify_to_type)@) == type_entries(
            pairs_view(old(system_subcomponent_identify_to_type)@),
            broadcast_view(final(process_broadcast_receive)@),
            public_decls(*pkg),
        ),
{
    let no_decls: Vec<AadlDeclaration> = Vec::new();
    let decls: &Vec<AadlDeclaration> = match &pkg.public_section {
        Some(section) => &section.declarations,
        None => &no_decls,
    };
    assert(decls@ =~= public_decls(*pkg));
    push_decl_sources(process_broadcast_send, decls);
    let repeated = dedup_with_min_two_unique(process_broadcast_send);

    let ghost ev = pairs_view(repeated@);
    let ghost recv_start = broadcast_view(process_broadcast_receive@);
    let mut i: usize = 0;
    while i < repeated.len()
        invariant
            i <= repeated@.len(),
            ev == pairs_view(repeated@),
            broadcast_view(process_broadcast_receive@) == receive_all(recv_start, ev.take(i as int), decls@),
        decreases repeated@.len() - i,
    {
        proof {
            assert(ev.take(i + 1).drop_last() =~= ev.take(i as int));
            assert(ev.take(i + 1).last() == ev[i as int]);
        }
        receive_from_decls(process_broadcast_receive, decls, &repeated[i]);
        i = i + 1;
    }
    assert(ev.take(ev.len() as int) =~= ev);

    let ghost table = broadcast_view(process_broadcast_receive@);
    let ghost types_start = pairs_view(system_subcomponent_identify_to_type@);
    let mut k: usize = 0;
    while k < process_broadcast_receive.len()
        invariant
            k <= process_broadcast_receive@.len(),
            table == broadcast_view(process_broadcast_receive@),
            pairs_view(system_subcomponent_identify_to_type@) == type_entries(
                types_start,
                table.take(k as int),
                decls@,
            ),
        decreases process_broadcast_receive@.len() - k,
    {
        proof {
            assert(table.take(k + 1).drop_last() =~= table.take(k as int));
            assert(table.take(k + 1).last() == table[k as int]);
        }
        types_from_receivers(
            system_subcomponent_identify_to_type,
            &process_broadcast_receive[k].1,
            &process_broadcast_receive[k].0.0,
            decls,
        );
        k = k + 1;
    }
    assert(table.take(table.len() as int) =~= table);
}

// ---------------------------------------------------------------------------
// Broadcast connections from a process's ports to its threads
// ---------------------------------------------------------------------------

/// The listed connections of a declaration that is a process implementation
/// (none for any other declaration).
pub open spec fn process_connections(d: AadlDeclaration) -> Seq<Connection> {
    match d {
        AadlDeclaration::ComponentImplementation(i) => if i.category == ComponentCategory::Process {
            match i.connections {
                ConnectionClause::Items(c) => c@,
                _ => Seq::empty(),
            }
        } else {
            Seq::empty()
        },
        _ => Seq::empty(),
    }
}

/// The listed subcomponents of a declaration that is a process
/// implementation (none for any other declaration).
pub open spec fn process_subcomponents(d: AadlDeclaration) -> Seq<Subcomponent> {
    match d {
        AadlDeclaration::ComponentImplementation(i) => if i.category == ComponentCategory::Process {
            match i.subcomponents {
                SubcomponentClause::Items(c) => c@,
                _ => Seq::empty(),
            }
        } else {
            Seq::empty()
        },
        _ => Seq::empty(),
    }
}

/// The name of the component type that a declaration implements.
pub open spec fn implemented_type(d: AadlDeclaration) -> Seq<char> {
    match d {
        AadlDeclaration::ComponentImplementation(i) => i.name.type_identifier@,
        _ => Seq::empty(),
    }
}

/// The port of the enclosing component that a port connection starts from.
pub open spec fn own_port_source(c: Connection) -> Option<Seq<char>> {
    match c {
        Connection::Port(p) => match p.source {
            PortEndpoint::ComponentPort(port) => Some(port@),
            _ => None,
        },
        _ => None,
    }
}

/// The own ports that a list of connections starts from, in order.
pub open spec fn conn_own_sources(cs: Seq<Connection>) -> Seq<Seq<char>>
    decreases cs.len(),
{
    if cs.len() == 0 {
        Seq::empty()
    } else {
        let r = conn_own_sources(cs.drop_last());
        match own_port_source(cs.last()) {
            Some(p) => r.push(p),
            None => r,
        }
    }
}

/// The own ports that the process implementations among `ds` send from.
pub open spec fn decl_own_sources(ds: Seq<AadlDeclaration>) -> Seq<Seq<char>>
    decreases ds.len(),
{
    if ds.len() == 0 {
        Seq::empty()
    } else {
        decl_own_sources(ds.drop_last()) + conn_own_sources(process_connections(ds.last()))
    }
}

/// One connection's part in filling the thread broadcast table for the
/// process port `port` of the process type `process`: a connection from that
/// port to a thread's port `p` adds `(thread, p)` under `(port, process)`.
pub open spec fn thread_receive_step(
    m: Seq<((Seq<char>, Seq<char>), Seq<(Seq<char>, Seq<char>)>)>,
    c: Connection,
    port: Seq<char>,
    process: Seq<char>,
) -> Seq<((Seq<char>, Seq<char>), Seq<(Seq<char>, Seq<char>)>)> {
    if own_port_source(c) == Some(port) {
        match port_dest(c) {
            Some(d) => entry_push(m, (port, process), d),
            None => m,
        }
    } else {
        m
    }
}

/// The thread broadcast table after the connections `cs` are read.
pub open spec fn thread_receive_conns(
    m: Seq<((Seq<char>, Seq<char>), Seq<(Seq<char>, Seq<char>)>)>,
    cs: Seq<Connection>,
    port: Seq<char>,
    process: Seq<char>,
) -> Seq<((Seq<char>, Seq<char>), Seq<(Seq<char>, Seq<char>)>)>
    decreases cs.len(),
{
    if cs.len() == 0 {
        m
    } else {
        thread_receive_step(thread_receive_conns(m, cs.drop_last(), port, process), cs.last(), port, process)
    }
}

/// The thread broadcast table after the process implementations among `ds`
/// are read for `port`.
pub open spec fn thread_receive_decls(
    m: Seq<((Seq<char>, Seq<char>), Seq<(Seq<char>, Seq<char>)>)>,
    ds: Seq<AadlDeclaration>,
    port: Seq<char>,
) -> Seq<((Seq<char>, Seq<char>), Seq<(Seq<char>, Seq<char>)>)>
    decreases ds.len(),
{
    if ds.len() == 0 {
        m
    } else {
        thread_receive_conns(
            thread_receive_decls(m, ds.drop_last(), port),
            process_connections(ds.last()),
            port,
            implemented_type(ds.last()),
        )
    }
}

/// The thread broadcast table after `ds` is read for each port of `ports`.
pub open spec fn thread_receive_all(
    m: Seq<((Seq<char>, Seq<char>), Seq<(Seq<char>, Seq<char>)>)>,
    ports: Seq<Seq<char>>,
    ds: Seq<AadlDeclaration>,
) -> Seq<((Seq<char>, Seq<char>), Seq<(Seq<char>, Seq<char>)>)>
    decreases ports.len(),
{
    if ports.len() == 0 {
        m
    } else {
        thread_receive_decls(thread_receive_all(m, ports.drop_last(), ds), ds, ports.last())
    }
}

/// The process type table after the process implementations among `ds` are
/// read for the thread subcomponent `thread`.
pub open spec fn thread_type_decls(
    t: Seq<(Seq<char>, Seq<char>)>,
    ds: Seq<AadlDeclaration>,
    thread: Seq<char>,
) -> Seq<(Seq<char>, Seq<char>)>
    decreases ds.len(),
{
    if ds.len() == 0 {
        t
    } else {
        type_subs(thread_type_decls(t, ds.drop_last(), thread), process_subcomponents(ds.last()), thread, thread)
    }
}

/// The process type table after `ds` is read for each receiver in `rs`.
pub open spec fn thread_type_receivers(
    t: Seq<(Seq<char>, Seq<char>)>,
    rs: Seq<(Seq<char>, Seq<char>)>,
    ds: Seq<AadlDeclaration>,
) -> Seq<(Seq<char>, Seq<char>)>
    decreases rs.len(),
{
    if rs.len() == 0 {
        t
    } else {
        thread_type_decls(thread_type_receivers(t, rs.drop_last(), ds), ds, rs.last().0)
    }
}

/// The process type table after `ds` is read for every receiver of every
/// entry of `es`.
pub open spec fn thread_type_entries(
    t: Seq<(Seq<char>, Seq<char>)>,
    es: Seq<((Seq<char>, Seq<char>), Seq<(Seq<char>, Seq<char>)>)>,
    ds: Seq<AadlDeclaration>,
) -> Seq<(Seq<char>, Seq<char>)>
    decreases es.len(),
{
    if es.len() == 0 {
        t
    } else {
        thread_type_receivers(thread_type_entries(t, es.drop_last(), ds), es.last().1, ds)
    }
}

/// The connections and the implemented type of `d` if it is a process
/// implementation with listed connections.
fn process_connections_of(d: &AadlDeclaration) -> (res: Option<(&Vec<Connection>, &String)>)
    ensures
        match res {
            Some((c, t)) => c@ == process_connections(*d) && t@ == implemented_type(*d),
            None => process_connections(*d) == Seq::<Connection>::empty(),
        },
{
    match d {
        AadlDeclaration::ComponentImplementation(i) => {
            if i.category == ComponentCategory::Process {
                match &i.connections {
                    ConnectionClause::Items(c) => Some((c, &i.name.type_identifier)),
                    _ => None,
                }
            } else {
                None
            }
        },
        _ => None,
    }
}

/// The subcomponents of `d` if it is a process implementation with listed
/// subcomponents.
fn process_subcomponents_of(d: &AadlDeclaration) -> (res: Option<&Vec<Subcomponent>>)
    ensures
        match res {
            Some(c) => c@ == process_subcomponents(*d),
            None => process_subcomponents(*d) == Seq::<Subcomponent>::empty(),
        },
{
    match d {
        AadlDeclaration::ComponentImplementation(i) => {
            if i.category == ComponentCategory::Process {
                match &i.subcomponents {
                    SubcomponentClause::Items(c) => Some(c),
                    _ => None,
                }
            } else {
                None
            }
        },
        _ => None,
    }
}

fn push_own_sources(send: &mut Vec<String>, decls: &Vec<AadlDeclaration>)
    ensures
        strings_view(final(send)@) == strings_view(old(send)@) + decl_own_sources(decls@),
{
    let ghost start = strings_view(send@);
    let mut i: usize = 0;
    while i < decls.len()
        invariant
            i <= decls@.len(),
            strings_view(send@) == start + decl_own_sources(decls@.take(i as int)),
        decreases decls@.len() - i,
    {
        proof {
            assert(decls@.take(i + 1).drop_last() =~= decls@.take(i as int));
            assert(decls@.take(i + 1).last() == decls@[i as int]);
        }
        let ghost mid = strings_view(send@);
        match process_connections_of(&decls[i]) {
            Some((conns, _)) => {
                let mut j: usize = 0;
                while j < conns.len()
                    invariant
                        j <= conns@.len(),
                        strings_view(send@) == mid + conn_own_sources(conns@.take(j as int)),
                    decreases conns@.len() - j,
                {
                    proof {
                        assert(conns@.take(j + 1).drop_last() =~= conns@.take(j as int));
                        assert(conns@.take(j + 1).last() == conns@[j as int]);
                    }
                    if let Connection::Port(p) = &conns[j] {
                        if let PortEndpoint::ComponentPort(port) = &p.source {
                            let ghost before = strings_view(send@);
                            send.push(port.clone());
                            assert(strings_view(send@) =~= before.push(port@));
                        }
                    }
                    j = j + 1;
                }
                assert(conns@.take(conns@.len() as int) =~= conns@);
            },
            None => {
                assert(conn_own_sources(Seq::<Connection>::empty()) =~= Seq::empty());
            },
        }
        proof {
            let ds = decls@.take(i + 1);
            assert(strings_view(send@) =~= start + decl_own_sources(ds));
        }
        i = i + 1;
    }
    assert(decls@.take(decls@.len() as int) =~= decls@);
}

fn thread_receive_from_conns(
    table: &mut Vec<((String, String), Vec<(String, String)>)>,
    conns: &Vec<Connection>,
    port: &String,
    process: &String,
)
    ensures
        broadcast_view(final(table)@) == thread_receive_conns(
            broadcast_view(old(table)@),
            conns@,
            port@,
            process@,
        ),
{
    let ghost start = broadcast_view(table@);
    let mut i: usize = 0;
    while i < conns.len()
        invariant
            i <= conns@.len(),
            broadcast_view(table@) == thread_receive_conns(start, conns@.take(i as int), port@, process@),
        decreases conns@.len() - i,
    {
        proof {
            assert(conns@.take(i + 1).drop_last() =~= conns@.take(i as int));
            assert(conns@.take(i + 1).last() == conns@[i as int]);
        }
        if let Connection::Port(p) = &conns[i] {
            if let PortEndpoint::ComponentPort(own) = &p.source {
                if str_eq(own.as_str(), port.as_str()) {
                    if let Some(dst) = endpoint_strings(&p.destination) {
                        let key = (port.clone(), process.clone());
                        entry_push_exec(table, &key, dst);
                    }
                }
            }
        }
        i = i + 1;
    }
    assert(conns@.take(conns@.len() as int) =~= conns@);
}

fn thread_receive_from_decls(
    table: &mut Vec<((String, String), Vec<(String, String)>)>,
    decls: &Vec<AadlDeclaration>,
    port: &String,
)
    ensures
        broadcast_view(final(table)@) == thread_receive_decls(broadcast_view(old(table)@), decls@, port@),
{
    let ghost start = broadcast_view(table@);
    let mut i: usize = 0;
    while i < decls.len()
        invariant
            i <= decls@.len(),
            broadcast_view(table@) == thread_receive_decls(start, decls@.take(i as int), port@),
        decreases decls@.len() - i,
    {
        proof {
            assert(decls@.take(i + 1).drop_last() =~= decls@.take(i as int));
            assert(decls@.take(i + 1).last() == decls@[i as int]);
        }
        match process_connections_of(&decls[i]) {
            Some((conns, process)) => {
                thread_receive_from_conns(table, conns, port, process);
            },
            None => {},
        }
        i = i + 1;
    }
    assert(decls@.take(decls@.len() as int) =~= decls@);
}

fn thread_types_from_decls(types: &mut Vec<(String, String)>, decls: &Vec<AadlDeclaration>, thread: &String)
    ensures
        pairs_view(final(types)@) == thread_type_decls(pairs_view(old(types)@), decls@, thread@),
{
    let ghost start = pairs_view(types@);
    let mut i: usize = 0;
    while i < decls.len()
        invariant
            i <= decls@.len(),
            pairs_view(types@) == thread_type_decls(start, decls@.take(i as int), thread@),
        decreases decls@.len() - i,
    {
        proof {
            assert(decls@.take(i + 1).drop_last() =~= decls@.take(i as int));
            assert(decls@.take(i + 1).last() == decls@[i as int]);
        }
        match process_subcomponents_of(&decls[i]) {
            Some(subs) => {
                types_from_subs(types, subs, thread, thread);
            },
            None => {},
        }
        i = i + 1;
    }
    assert(decls@.take(decls@.len() as int) =~= decls@);
}

fn thread_types_from_receivers(
    types: &mut Vec<(String, String)>,
    receivers: &Vec<(String, String)>,
    decls: &Vec<AadlDeclaration>,
)
    ensures
        pairs_view(final(types)@) == thread_type_receivers(pairs_view(old(types)@), pairs_view(receivers@), decls@),
{
    let ghost start = pairs_view(types@);
    let ghost rv = pairs_view(receivers@);
    let mut i: usize = 0;
    while i < receivers.len()
        invariant
            i <= receivers@.len(),
            rv == pairs_view(receivers@),
            pairs_view(types@) == thread_type_receivers(start, rv.take(i as int), decls@),
        decreases receivers@.len() - i,
    {
        proof {
            assert(rv.take(i + 1).drop_last() =~= rv.take(i as int));
            assert(rv.take(i + 1).last() == rv[i as int]);
        }
        thread_types_from_decls(types, decls, &receivers[i].0);
        i = i + 1;
    }
    assert(rv.take(rv.len() as int) =~= rv);
}

/// Collects the broadcast connections from the ports of the processes of a
/// package's public section to their threads.
///
/// The own ports that the connections of process implementations start from
/// are gathered and cut down to those that occur at least twice, each once.
/// For each such port, in that order, every connection of a process
/// implementation from that port to a thread's port `p` adds `(thread, p)`
/// under the key `(port, process type)` of `thread_broadcast_receive`. Last,
/// for each receiver of each entry, every subcomponent of a process
/// implementation named like the receiving thread and classified by an
/// implementation is recorded in `process_subcomponent_identify_to_type`
/// with its component type.
pub fn collect_thread_connections(
    thread_broadcast_receive: &mut Vec<((String, String), Vec<(String, String)>)>,
    process_subcomponent_identify_to_type: &mut Vec<(String, String)>,
    pkg: &Package,
)
    ensures
        broadcast_view(final(thread_broadcast_receive)@) == thread_receive_all(
            broadcast_view(old(thread_broadcast_receive)@),
            spec_min_two_unique(decl_own_sources(public_decls(*pkg))),
            public_decls(*pkg),
        ),
        pairs_view(final(process_subcomponent_identify_to_type)@) == thread_type_entries(
            pairs_view(old(process_subcomponent_identify_to_type)@),
            broadcast_view(final(thread_broadcast_receive)@),
            public_decls(*pkg),
        ),
{
    let no_decls: Vec<AadlDeclaration> = Vec::new();
    let decls: &Vec<AadlDeclaration> = match &pkg.public_section {
        Some(section) => &section.declarations,
        None => &no_decls,
    };
    assert(decls@ =~= public_decls(*pkg));
    let mut process_forwarder_broadcast_send: Vec<String> = Vec::new();
    push_own_sources(&mut process_forwarder_broadcast_send, decls);
    assert(strings_view(Seq::<String>::empty()) + decl_own_sources(decls@) =~= decl_own_sources(decls@));
    let repeated = dedup_with_min_two_unique_single_string(&mut process_forwarder_broadcast_send);

    let ghost pv = strings_view(repeated@);
    let ghost recv_start = broadcast_view(thread_broadcast_receive@);
    let mut i: usize = 0;
    while i < repeated.len()
        invariant
            i <= repeated@.len(),
            pv == strings_view(repeated@),
            broadcast_view(thread_broadcast_receive@) == thread_receive_all(recv_start, pv.take(i as int), decls@),
        decreases repeated@.len() - i,
    {
        proof {
            assert(pv.take(i + 1).drop_last() =~= pv.take(i as int));
            assert(pv.take(i + 1).last() == pv[i as int]);
        }
        thread_receive_from_decls(thread_broadcast_receive, decls, &repeated[i]);
        i = i + 1;
    }
    assert(pv.take(pv.len() as int) =~= pv);

    let ghost table = broadcast_view(thread_broadcast_receive@);
    let ghost types_start = pairs_view(process_subcomponent_identify_to_type@);
    let mut k: usize = 0;
    while k < thread_broadcast_receive.len()
        invariant
            k <= thread_broadcast_receive@.len(),
            table == broadcast_view(thread_broadcast_receive@),
            pairs_view(process_subcomponent_identify_to_type@) == thread_type_entries(
                types_start,
                table.take(k as int),
                decls@,
            ),
        decreases thread_broadcast_receive@.len() - k,
    {
        proof {
            assert(table.take(k + 1).drop_last() =~= table.take(k as int));
            assert(table.take(k + 1).last() == table[k as int]);
        }
        thread_types_from_receivers(process_subcomponent_identify_to_type, &thread_broadcast_receive[k].1, decls);
        k = k + 1;
    }
    assert(table.take(table.len() as int) =~= table);
}

// ---------------------------------------------------------------------------
// The table of component types
// ---------------------------------------------------------------------------

/// A reference to a component classifier, by its view: the package path
/// where one is given, the type name and the implementation name.
pub enum SpecClassifierRef {
    Type(Option<Seq<Seq<char>>>, Seq<char>, Seq<char>),
    Implementation(Option<Seq<Seq<char>>>, Seq<char>, Seq<char>),
}

/// What a port's data type, a data access or a subprogram access refers to.
pub enum SpecTypeRef {
    Classifier(SpecClassifierRef),
    Prototype(Seq<char>),
}

pub enum SpecPortType {
    Data(Option<SpecTypeRef>),
    EventData(Option<SpecTypeRef>),
    Event,
}

/// A feature of a component type, by its view.
pub enum SpecFeature {
    Port(Seq<char>, PortDirection, SpecPortType),
    DataAccess(Seq<char>, AccessDirection, Option<SpecTypeRef>),
    SubprogramAccess(Seq<char>, AccessDirection, Option<SpecTypeRef>),
}

pub enum SpecFeatureClause {
    Omitted,
    Empty,
    Items(Seq<SpecFeature>),
}

/// What the component-type table keeps of a component type: its category,
/// its name and its features (the parts that the conversions read).
pub struct SpecComponentSummary {
    pub category: ComponentCategory,
    pub identifier: Seq<char>,
    pub features: SpecFeatureClause,
}

pub open spec fn impl_ref_view(r: UniqueImplementationReference) -> (Option<Seq<Seq<char>>>, Seq<char>, Seq<char>) {
    (
        match r.package_prefix {
            Some(p) => Some(strings_view(p.0@)),
            None => None,
        },
        r.implementation_name.type_identifier@,
        r.implementation_name.implementation_identifier@,
    )
}

pub open spec fn classifier_ref_view(r: UniqueComponentClassifierReference) -> SpecClassifierRef {
    match r {
        UniqueComponentClassifierReference::Type(i) => {
            let v = impl_ref_view(i);
            SpecClassifierRef::Type(v.0, v.1, v.2)
        },
        UniqueComponentClassifierReference::Implementation(i) => {
            let v = impl_ref_view(i);
            SpecClassifierRef::Implementation(v.0, v.1, v.2)
        },
    }
}

pub open spec fn port_data_ref_view(r: Option<PortDataTypeReference>) -> Option<SpecTypeRef> {
    match r {
        Some(PortDataTypeReference::Classifier(c)) => Some(SpecTypeRef::Classifier(classifier_ref_view(c))),
        Some(PortDataTypeReference::Prototype(p)) => Some(SpecTypeRef::Prototype(p@)),
        None => None,
    }
}

pub open spec fn data_access_ref_view(r: Option<DataAccessReference>) -> Option<SpecTypeRef> {
    match r {
        Some(DataAccessReference::Classifier(c)) => Some(SpecTypeRef::Classifier(classifier_ref_view(c))),
        Some(DataAccessReference::Prototype(p)) => Some(SpecTypeRef::Prototype(p@)),
        None => None,
    }
}

pub open spec fn subprogram_access_ref_view(r: Option<SubprogramAccessReference>) -> Option<SpecTypeRef> {
    match r {
        Some(SubprogramAccessReference::Classifier(c)) => Some(SpecTypeRef::Classifier(classifier_ref_view(c))),
        Some(SubprogramAccessReference::Prototype(p)) => Some(SpecTypeRef::Prototype(p@)),
        None => None,
    }
}

pub open spec fn port_type_view(t: PortType) -> SpecPortType {
    match t {
        PortType::Data { classifier } => SpecPortType::Data(port_data_ref_view(classifier)),
        PortType::EventData { classifier } => SpecPortType::EventData(port_data_ref_view(classifier)),
        PortType::Event => SpecPortType::Event,
    }
}

pub open spec fn feature_view(f: Feature) -> SpecFeature {
    match f {
        Feature::Port(p) => SpecFeature::Port(p.identifier@, p.direction, port_type_view(p.port_type)),
        Feature::SubcomponentAccess(SubcomponentAccessSpec::Data(d)) => SpecFeature::DataAccess(
            d.identifier@,
            d.direction,
            data_access_ref_view(d.classifier),
        ),
        Feature::SubcomponentAccess(SubcomponentAccessSpec::Subprogram(d)) => SpecFeature::SubprogramAccess(
            d.identifier@,
            d.direction,
            subprogram_access_ref_view(d.classifier),
        ),
    }
}

pub open spec fn features_view(fs: Seq<Feature>) -> Seq<SpecFeature> {
    fs.map_values(|f: Feature| feature_view(f))
}

pub open spec fn feature_clause_view(c: FeatureClause) -> SpecFeatureClause {
    match c {
        FeatureClause::Omitted => SpecFeatureClause::Omitted,
        FeatureClause::Empty => SpecFeatureClause::Empty,
        FeatureClause::Items(fs) => SpecFeatureClause::Items(features_view(fs@)),
    }
}

pub open spec fn component_summary(t: ComponentType) -> SpecComponentSummary {
    SpecComponentSummary {
        category: t.category,
        identifier: t.identifier@,
        features: feature_clause_view(t.features),
    }
}

/// The view of the component-type table: each name with what is kept of
/// its type.
pub open spec fn component_table_view(v: Seq<(String, ComponentType)>) -> Seq<(Seq<char>, SpecComponentSummary)> {
    v.map_values(|e: (String, ComponentType)| (e.0@, component_summary(e.1)))
}

/// The table after the component types among `ds` are put in it, in order
/// (a later type of the same name replaces an earlier one).
pub open spec fn spec_collect_decl_types(
    t: Seq<(Seq<char>, SpecComponentSummary)>,
    ds: Seq<AadlDeclaration>,
) -> Seq<(Seq<char>, SpecComponentSummary)>
    decreases ds.len(),
{
    if ds.len() == 0 {
        t
    } else {
        let r = spec_collect_decl_types(t, ds.drop_last());
        match ds.last() {
            AadlDeclaration::ComponentType(c) => assoc_insert(r, c.identifier@, component_summary(c)),
            _ => r,
        }
    }
}

/// The table after the component types of the public, then the private,
/// section are put in it.
pub open spec fn spec_collect_component_types(
    t: Seq<(Seq<char>, SpecComponentSummary)>,
    pkg: Package,
) -> Seq<(Seq<char>, SpecComponentSummary)> {
    let after_public = spec_collect_decl_types(t, public_decls(pkg));
    match pkg.private_section {
        Some(section) => spec_collect_decl_types(after_public, section.declarations@),
        None => after_public,
    }
}

fn copy_package_name(p: &PackageName) -> (res: PackageName)
    ensures
        strings_view(res.0@) == strings_view(p.0@),
{
    PackageName(crate::aadl_ast2rust_code::converter::copy_strings(&p.0))
}

fn copy_impl_ref(r: &UniqueImplementationReference) -> (res: UniqueImplementationReference)
    ensures
        impl_ref_view(res) == impl_ref_view(*r),
{
    let package_prefix = match &r.package_prefix {
        Some(p) => Some(copy_package_name(p)),
        None => None,
    };
    UniqueImplementationReference {
        package_prefix,
        implementation_name: ImplementationName {
            type_identifier: r.implementation_name.type_identifier.clone(),
            implementation_identifier: r.implementation_name.implementation_identifier.clone(),
        },
    }
}

fn copy_classifier_ref(r: &UniqueComponentClassifierReference) -> (res: UniqueComponentClassifierReference)
    ensures
        classifier_ref_view(res) == classifier_ref_view(*r),
{
    match r {
        UniqueComponentClassifierReference::Type(i) => UniqueComponentClassifierReference::Type(copy_impl_ref(i)),
        UniqueComponentClassifierReference::Implementation(i) => UniqueComponentClassifierReference::Implementation(
            copy_impl_ref(i),
        ),
    }
}

fn copy_port_data_ref(r: &Option<PortDataTypeReference>) -> (res: Option<PortDataTypeReference>)
    ensures
        port_data_ref_view(res) == port_data_ref_view(*r),
{
    match r {
        Some(PortDataTypeReference::Classifier(c)) => Some(PortDataTypeReference::Classifier(copy_classifier_ref(c))),
        Some(PortDataTypeReference::Prototype(p)) => Some(PortDataTypeReference::Prototype(p.clone())),
        None => None,
    }
}

fn copy_data_access_ref(r: &Option<DataAccessReference>) -> (res: Option<DataAccessReference>)
    ensures
        data_access_ref_view(res) == data_access_ref_view(*r),
{
    match r {
        Some(DataAccessReference::Classifier(c)) => Some(DataAccessReference::Classifier(copy_classifier_ref(c))),
        Some(DataAccessReference::Prototype(p)) => Some(DataAccessReference::Prototype(p.clone())),
        None => None,
    }
}

fn copy_subprogram_access_ref(r: &Option<SubprogramAccessReference>) -> (res: Option<SubprogramAccessReference>)
    ensures
        subprogram_access_ref_view(res) == subprogram_access_ref_view(*r),
{
    match r {
        Some(SubprogramAccessReference::Classifier(c)) => Some(
            SubprogramAccessReference::Classifier(copy_classifier_ref(c)),
        ),
        Some(SubprogramAccessReference::Prototype(p)) => Some(SubprogramAccessReference::Prototype(p.clone())),
        None => None,
    }
}

fn copy_feature(f: &Feature) -> (res: Feature)
    ensures
        feature_view(res) == feature_view(*f),
{
    match f {
        Feature::Port(p) => {
            let port_type = match &p.port_type {
                PortType::Data { classifier } => PortType::Data { classifier: copy_port_data_ref(classifier) },
                PortType::EventData { classifier } => PortType::EventData {
                    classifier: copy_port_data_ref(classifier),
                },
                PortType::Event => PortType::Event,
            };
            Feature::Port(PortSpec { identifier: p.identifier.clone(), direction: p.direction, port_type })
        },
        Feature::SubcomponentAccess(SubcomponentAccessSpec::Data(d)) => Feature::SubcomponentAccess(
            SubcomponentAccessSpec::Data(
                DataAccessSpec {
                    identifier: d.identifier.clone(),
                    direction: d.direction,
                    classifier: copy_data_access_ref(&d.classifier),
                },
            ),
        ),
        Feature::SubcomponentAccess(SubcomponentAccessSpec::Subprogram(d)) => Feature::SubcomponentAccess(
            SubcomponentAccessSpec::Subprogram(
                SubprogramAccessSpec {
                    identifier: d.identifier.clone(),
                    direction: d.direction,
                    classifier: copy_subprogram_access_ref(&d.classifier),
                },
            ),
        ),
    }
}

fn copy_features(fs: &Vec<Feature>) -> (res: Vec<Feature>)
    ensures
        features_view(res@) == features_view(fs@),
{
    let mut out: Vec<Feature> = Vec::new();
    let mut i: usize = 0;
    while i < fs.len()
        invariant
            i <= fs@.len(),
            features_view(out@) == features_view(fs@).take(i as int),
        decreases fs@.len() - i,
    {
        let f = copy_feature(&fs[i]);
        let ghost before = features_view(out@);
        out.push(f);
        proof {
            assert(features_view(out@) =~= before.push(feature_view(fs@[i as int])));
            assert(features_view(fs@).take(i + 1) =~= features_view(fs@).take(i as int).push(
                feature_view(fs@[i as int]),
            ));
        }
        i = i + 1;
    }
    assert(features_view(fs@).take(fs@.len() as int) =~= features_view(fs@));
    out
}

/// A copy of what the component-type table keeps of a component type: its
/// category, name and features. Its prototypes, properties and annexes are
/// not copied (the table's readers never look at them).
fn component_type_summary(c: &ComponentType) -> (res: ComponentType)
    ensures
        component_summary(res) == component_summary(*c),
{
    let features = match &c.features {
        FeatureClause::Omitted => FeatureClause::Omitted,
        FeatureClause::Empty => FeatureClause::Empty,
        FeatureClause::Items(fs) => FeatureClause::Items(copy_features(fs)),
    };
    let category = match c.category {
        ComponentCategory::Abstract => ComponentCategory::Abstract,
        ComponentCategory::Data => ComponentCategory::Data,
        ComponentCategory::Subprogram => ComponentCategory::Subprogram,
        ComponentCategory::SubprogramGroup => ComponentCategory::SubprogramGroup,
        ComponentCategory::Thread => ComponentCategory::Thread,
        ComponentCategory::ThreadGroup => ComponentCategory::ThreadGroup,
        ComponentCategory::Process => ComponentCategory::Process,
        ComponentCategory::Memory => ComponentCategory::Memory,
        ComponentCategory::Processor => ComponentCategory::Processor,
        ComponentCategory::Bus => ComponentCategory::Bus,
        ComponentCategory::Device => ComponentCategory::Device,
        ComponentCategory::VirtualProcessor => ComponentCategory::VirtualProcessor,
        ComponentCategory::VirtualBus => ComponentCategory::VirtualBus,
        ComponentCategory::System => ComponentCategory::System,
    };
    ComponentType {
        category,
        identifier: c.identifier.clone(),
        prototypes: PrototypeClause::Omitted,
        features,
        properties: PropertyClause::ExplicitNone,
        annexes: Vec::new(),
    }
}

fn put_component(table: &mut Vec<(String, ComponentType)>, key: String, value: ComponentType)
    ensures
        component_table_view(final(table)@) == assoc_insert(
            component_table_view(old(table)@),
            key@,
            component_summary(value),
        ),
{
    let ghost tv = component_table_view(table@);
    let ghost (kv, vv) = (key@, component_summary(value));
    match find_key(table, key.as_str()) {
        Some(i) => {
            table.set(i, (key, value));
            proof {
                assert forall|j: int| 0 <= j < i implies #[trigger] tv[j].0 != kv by {
                    assert(old(table)@[j].0@ != kv);
                }
                lemma_assoc_insert_first(tv, kv, vv, i as int);
                assert(component_table_view(table@) =~= tv.update(i as int, (kv, vv)));
            }
        },
        None => {
            table.push((key, value));
            proof {
                assert forall|j: int| 0 <= j < tv.len() implies #[trigger] tv[j].0 != kv by {
                    assert(old(table)@[j].0@ != kv);
                }
                lemma_assoc_insert_absent(tv, kv, vv);
                assert(component_table_view(table@) =~= tv.push((kv, vv)));
            }
        },
    }
}

fn collect_decl_types(table: &mut Vec<(String, ComponentType)>, decls: &Vec<AadlDeclaration>)
    ensures
        component_table_view(final(table)@) == spec_collect_decl_types(component_table_view(old(table)@), decls@),
{
    let ghost start = component_table_view(table@);
    let mut i: usize = 0;
    while i < decls.len()
        invariant
            i <= decls@.len(),
            component_table_view(table@) == spec_collect_decl_types(start, decls@.take(i as int)),
        decreases decls@.len() - i,
    {
        proof {
            assert(decls@.take(i + 1).drop_last() =~= decls@.take(i as int));
            assert(decls@.take(i + 1).last() == decls@[i as int]);
        }
        if let AadlDeclaration::ComponentType(comp) = &decls[i] {
            let summary = component_type_summary(comp);
            put_component(table, comp.identifier.clone(), summary);
        }
        i = i + 1;
    }
    assert(decls@.take(decls@.len() as int) =~= decls@);
}

/// Puts every component type of the package in the table, by name: those
/// of the public section, then those of the private section. The table
/// keeps each type's category, name and features.
pub fn collect_component_types(component_types: &mut Vec<(String, ComponentType)>, pkg: &Package)
    ensures
        component_table_view(final(component_types)@) == spec_collect_component_types(
            component_table_view(old(component_types)@),
            *pkg,
        ),
{
    if let Some(public_section) = &pkg.public_section {
        collect_decl_types(component_types, &public_section.declarations);
    } else {
        assert(spec_collect_decl_types(component_table_view(component_types@), Seq::<AadlDeclaration>::empty())
            == component_table_view(component_types@));
    }
    if let Some(private_section) = &pkg.private_section {
        collect_decl_types(component_types, &private_section.declarations);
    }
}

} // verus!
