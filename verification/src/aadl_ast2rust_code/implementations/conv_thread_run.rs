//! The `run` of a thread: its priority, its processor, and the execution
//! logic its dispatch protocol asks for; and the conversion of a thread
//! implementation into its struct and impl blocks.

use vstd::prelude::*;
use crate::aadl_ast2rust_code::converter::{
    assoc_first, assoc_insert, clause_ok, nested_values_view, property_ok,
    put_thread_values, put_value, spec_category_name, spec_convert_clause, spec_parse_property_value,
    spec_type_for_property, value_table_view, AadlConverter,
};
use crate::aadl_ast2rust_code::implementations::conv_thread_impl::{
    create_thread_new_method, spec_thread_new_entries, spec_thread_new_method,
};
use crate::aadl_ast2rust_code::types::conv_thread_type::{spec_clause_props, spec_property_values};
use crate::aadl_ast2rust_code::implementations::conv_thread_impl::{
    create_aperiodic_execution_logic, create_sporadic_execution_logic, create_subprogram_call_logic,
    create_timed_execution_logic, extract_dispatch_protocol, extract_property_value,
    spec_aperiodic_logic, spec_dispatch_protocol, spec_property_number, spec_sporadic_logic,
    spec_subprogram_call_logic, spec_timed_logic, sends_defaults_end, spec_period_or_1000,
};
use crate::ast::aadl_ast_cj::{ComponentImplementation, ComponentType, Property, PropertyClause};
use crate::intermediate_ast::{
    lemma_stmts_view_concat, lemma_views_empty, mk_bin, mk_block, mk_call, mk_ident, mk_int, mk_let,
    mk_mcall, mk_ns2, mk_ns3, s_bin, s_block, s_ident, s_int, s_let, s_mcall, s_ns2, stmts_view,
    vec1_expr, vec1_stmt, Expr, PathType, SpecExpr, SpecStatement, SpecType, Statement, Type,
    s_member, s_str, mk_member, mk_mcall1, Literal, attrs_view, mk_named, fields_view, items_view,
    params_view, props_view, vec2_impl_items, Attribute, Field, FunctionDef, ImplBlock, ImplItem, Item,
    Param, SpecAttribute, SpecField, SpecFunctionDef, SpecImplBlock, SpecImplItem, SpecItem, SpecParam,
    SpecPropertyValue, SpecStructDef, StructDef, StruProperty, StruPropertyValue, Visibility,
};
use crate::text::{
    concat, concat3, i64_to_decimal, lowercase, spec_decimal, spec_decimal_int, str_eq, strings_view,
    to_lower, u64_to_decimal,
};

verus! {

broadcast use crate::intermediate_ast::group_view_laws;

// ---------------------------------------------------------------------------
// The periodic logic and `run` of a thread
// ---------------------------------------------------------------------------

/// The period of a thread in milliseconds, 2000 where it has none.
pub open spec fn spec_period_ms(impl_: ComponentImplementation) -> u64 {
    match spec_property_number(spec_convert_clause(impl_.properties), lowercase("period"@)) {
        Some(p) => p,
        None => 2000,
    }
}

/// `if now < next_release { std::thread::sleep(next_release - now) }`
pub open spec fn spec_wait_release() -> SpecStatement {
    SpecStatement::Expr(
        SpecExpr::If {
            condition: Box::new(s_bin(s_ident("now"@), "<"@, s_ident("next_release"@))),
            then_branch: s_block(
                seq![
                    SpecStatement::Expr(
                        s_mcall(
                            SpecExpr::Path(seq!["std"@, "thread"@, "sleep"@], PathType::Namespace),
                            ""@,
                            seq![s_ident("next_release - now"@)],
                        ),
                    ),
                ],
            ),
            else_branch: None,
        },
    )
}

/// One release of a periodic thread: wait for the release time, run the
/// subprogram calls, then the step `ba_step` of its Behavior Annex, and set
/// the next release one period later.
pub open spec fn spec_periodic_loop(calls: Seq<SpecStatement>, ba_step: Seq<SpecStatement>) -> SpecStatement {
    SpecStatement::Expr(
        SpecExpr::Loop(
            Box::new(
                s_block(
                    seq![
                        s_let(false, "now"@, None, Some(SpecExpr::Call(Box::new(s_ns2("Instant"@, "now"@)), Seq::empty()))),
                        spec_wait_release(),
                    ] + (if calls.len() > 0 {
                        seq![SpecStatement::Expr(SpecExpr::Block(s_block(calls)))]
                    } else {
                        Seq::empty()
                    }) + (if ba_step.len() > 0 {
                        seq![SpecStatement::Expr(SpecExpr::Block(s_block(ba_step)))]
                    } else {
                        Seq::empty()
                    }) + seq![SpecStatement::Expr(s_bin(s_ident("next_release"@), "+="@, s_ident("period"@)))],
                ),
            ),
        ),
    )
}

/// `let period: std::time::Duration = Duration::from_millis(<ms>);` and
/// `let mut next_release = Instant::now() + period;`
pub open spec fn spec_periodic_head(ms: u64) -> Seq<SpecStatement> {
    seq![
        s_let(
            false,
            "period"@,
            Some(SpecType::Path(seq!["std"@, "time"@, "Duration"@])),
            Some(SpecExpr::Call(Box::new(s_ns2("Duration"@, "from_millis"@)), seq![s_int(ms as i64 as int)])),
        ),
        s_let(true, "next_release"@, None, Some(s_bin(s_ident("Instant::now()"@), "+"@, s_ident("period"@)))),
    ]
}

/// Periodic dispatch: the period, then `ba_prelude` (the variables and
/// states of the thread's Behavior Annex), then the release loop (see
/// `spec_periodic_loop`).  `ba_prelude` and `ba_step` are what the annex
/// converter gives for the thread's annex, empty where it has none.
pub open spec fn spec_periodic_logic(
    types: Seq<(Seq<char>, SpecType)>,
    comps: Seq<(Seq<char>, ComponentType)>,
    impl_: ComponentImplementation,
    ba_prelude: Seq<SpecStatement>,
    ba_step: Seq<SpecStatement>,
) -> Seq<SpecStatement> {
    spec_periodic_head(spec_period_ms(impl_)) + ba_prelude + seq![
        spec_periodic_loop(spec_subprogram_call_logic(types, comps, impl_, false), ba_step),
    ]
}

fn periodic_head(ms: u64) -> (res: Vec<Statement>)
    ensures
        stmts_view(res@) == spec_periodic_head(ms),
{
    let mut ty_path: Vec<String> = Vec::new();
    ty_path.push("std".to_string());
    ty_path.push("time".to_string());
    ty_path.push("Duration".to_string());
    assert(strings_view(ty_path@) =~= seq!["std"@, "time"@, "Duration"@]);
    let period_let = mk_let(
        false,
        "period",
        Some(Type::Path(ty_path)),
        Some(mk_call(mk_ns2("Duration", "from_millis"), vec1_expr(mk_int(ms as i64)))),
    );
    let release = mk_let(true, "next_release", None, Some(mk_bin(mk_ident("Instant::now()"), "+", mk_ident("period"))));
    let mut stmts = vec1_stmt(period_let);
    let ghost (s0, rv) = (stmts_view(stmts@), release@);
    stmts.push(release);
    assert(stmts_view(stmts@) =~= s0.push(rv));
    stmts
}

fn wait_release() -> (res: Statement)
    ensures
        res@ == spec_wait_release(),
{
    let sleep_call = mk_mcall(mk_ns3("std", "thread", "sleep"), "", vec1_expr(mk_ident("next_release - now")));
    Statement::Expr(
        Expr::If {
            condition: Box::new(mk_bin(mk_ident("now"), "<", mk_ident("next_release"))),
            then_branch: mk_block(vec1_stmt(Statement::Expr(sleep_call))),
            else_branch: None,
        },
    )
}

fn push_block_if_any(out: &mut Vec<Statement>, stmts: Vec<Statement>)
    ensures
        stmts_view(final(out)@) == stmts_view(old(out)@) + if stmts@.len() > 0 {
            seq![SpecStatement::Expr(SpecExpr::Block(s_block(stmts_view(stmts@))))]
        } else {
            Seq::<SpecStatement>::empty()
        },
{
    let ghost before = stmts_view(out@);
    if stmts.len() > 0 {
        let b = Statement::Expr(Expr::Block(mk_block(stmts)));
        let ghost bv = b@;
        out.push(b);
        assert(stmts_view(out@) =~= before + seq![bv]);
    } else {
        assert(stmts_view(out@) =~= before + Seq::<SpecStatement>::empty());
    }
}

fn periodic_loop(calls: Vec<Statement>, ba_step: Vec<Statement>) -> (res: Statement)
    ensures
        res@ == spec_periodic_loop(stmts_view(calls@), stmts_view(ba_step@)),
{
    let ghost cv = stmts_view(calls@);
    let ghost bv = stmts_view(ba_step@);
    let now = mk_let(false, "now", None, Some(mk_call(mk_ns2("Instant", "now"), Vec::new())));
    proof {
        lemma_views_empty();
    }
    let mut loop_stmts = vec1_stmt(now);
    let w = wait_release();
    let ghost (l0, wv) = (stmts_view(loop_stmts@), w@);
    loop_stmts.push(w);
    assert(stmts_view(loop_stmts@) =~= l0.push(wv));
    push_block_if_any(&mut loop_stmts, calls);
    push_block_if_any(&mut loop_stmts, ba_step);
    let adv = Statement::Expr(mk_bin(mk_ident("next_release"), "+=", mk_ident("period")));
    let ghost (l3, av) = (stmts_view(loop_stmts@), adv@);
    loop_stmts.push(adv);
    assert(stmts_view(loop_stmts@) =~= l3 + seq![av]);
    assert(stmts_view(loop_stmts@) =~= seq![
        s_let(false, "now"@, None, Some(SpecExpr::Call(Box::new(s_ns2("Instant"@, "now"@)), Seq::empty()))),
        spec_wait_release(),
    ] + (if cv.len() > 0 {
        seq![SpecStatement::Expr(SpecExpr::Block(s_block(cv)))]
    } else {
        Seq::empty()
    }) + (if bv.len() > 0 {
        seq![SpecStatement::Expr(SpecExpr::Block(s_block(bv)))]
    } else {
        Seq::empty()
    }) + seq![SpecStatement::Expr(s_bin(s_ident("next_release"@), "+="@, s_ident("period"@)))]);
    Statement::Expr(Expr::Loop(Box::new(mk_block(loop_stmts))))
}

/// The periodic logic of a thread (see `spec_periodic_logic`).
pub fn create_periodic_execution_logic(
    temp_converter: &AadlConverter,
    impl_: &ComponentImplementation,
    ba_prelude: Vec<Statement>,
    ba_step: Vec<Statement>,
) -> (res: Vec<Statement>)
    requires
        sends_defaults_end(temp_converter.types(), temp_converter.components(), *impl_),
        clause_ok(impl_.properties),
    ensures
        stmts_view(res@) == spec_periodic_logic(
            temp_converter.types(),
            temp_converter.components(),
            *impl_,
            stmts_view(ba_prelude@),
            stmts_view(ba_step@),
        ),
{
    let period = match extract_property_value(temp_converter, impl_, "period") {
        Some(p) => p,
        None => 2000,
    };
    let mut stmts = periodic_head(period);
    let mut prelude = ba_prelude;
    let ghost pre = stmts@;
    let ghost prv = prelude@;
    stmts.append(&mut prelude);
    proof {
        lemma_stmts_view_concat(pre, prv);
    }
    let lp = periodic_loop(create_subprogram_call_logic(temp_converter, impl_), ba_step);
    let ghost (s2, lv) = (stmts_view(stmts@), lp@);
    stmts.push(lp);
    assert(stmts_view(stmts@) =~= s2.push(lv));
    stmts
}



/// `<n>` as a path of one segment.
pub open spec fn s_path1(n: Seq<char>) -> SpecExpr {
    SpecExpr::Path(seq![n], PathType::Namespace)
}

/// `let mut param: sched_param = <init>;`
pub open spec fn spec_param_let(init: Seq<char>) -> SpecStatement {
    s_let(true, "param"@, Some(SpecType::Named("sched_param"@)), Some(s_ident(init)))
}

/// `let ret = pthread_setschedparam(pthread_self(), *CPU_ID_TO_SCHED_POLICY.get(&self.cpu_id).unwrap_or(&SCHED_FIFO), &mut param);`
pub open spec fn spec_set_sched() -> SpecStatement {
    s_let(
        false,
        "ret"@,
        None,
        Some(
            SpecExpr::Call(
                Box::new(s_path1("pthread_setschedparam"@)),
                seq![
                    SpecExpr::Call(Box::new(s_path1("pthread_self"@)), Seq::empty()),
                    s_mcall(
                        s_mcall(
                            s_path1("*CPU_ID_TO_SCHED_POLICY"@),
                            "get"@,
                            seq![SpecExpr::Reference(Box::new(s_member("self"@, "cpu_id"@)), true, false)],
                        ),
                        "unwrap_or"@,
                        seq![SpecExpr::Reference(Box::new(s_path1("SCHED_FIFO"@)), true, false)],
                    ),
                    SpecExpr::Reference(Box::new(s_ident("param"@)), true, true),
                ],
            ),
        ),
    )
}

/// `if ret != 0 { eprintln!("<message>", ret) }`
pub open spec fn spec_report_failure(message: Seq<char>) -> SpecStatement {
    SpecStatement::Expr(
        SpecExpr::If {
            condition: Box::new(s_bin(s_ident("ret"@), "!="@, s_int(0))),
            then_branch: s_block(
                seq![
                    SpecStatement::Expr(
                        SpecExpr::Call(Box::new(s_path1("eprintln!"@)), seq![s_str(message), s_ident("ret"@)]),
                    ),
                ],
            ),
            else_branch: None,
        },
    )
}

/// The priority setting of a thread: with a `Priority` property, that
/// priority (taken as an `i32`); without one but with a `Period`, the
/// priority its period gives; neither, nothing.
pub open spec fn spec_priority_stmts(impl_: ComponentImplementation) -> Seq<SpecStatement> {
    let props = spec_convert_clause(impl_.properties);
    let name = lowercase(impl_.name.type_identifier@);
    match spec_property_number(props, lowercase("priority"@)) {
        Some(p) => seq![
            SpecStatement::Expr(
                SpecExpr::Unsafe(
                    Box::new(
                        s_block(
                            seq![
                                spec_param_let(
                                    "sched_param { sched_priority: "@ + spec_decimal_int((p as i32) as int) + " }"@,
                                ),
                                spec_set_sched(),
                                spec_report_failure(name + "Thread: Failed to set thread priority: {}"@),
                            ],
                        ),
                    ),
                ),
            ),
        ],
        None => if spec_property_number(props, lowercase("period"@)) is Some {
            seq![
                SpecStatement::Expr(
                    SpecExpr::Unsafe(
                        Box::new(
                            s_block(
                                seq![
                                    s_let(
                                        false,
                                        "prio"@,
                                        None,
                                        Some(
                                            SpecExpr::Call(
                                                Box::new(s_path1("period_to_priority"@)),
                                                seq![s_ident("self.period as f64"@)],
                                            ),
                                        ),
                                    ),
                                    spec_param_let("sched_param { sched_priority: prio }"@),
                                    spec_set_sched(),
                                    spec_report_failure(
                                        name + "Thread: Failed to set thread priority from period: {}"@,
                                    ),
                                ],
                            ),
                        ),
                    ),
                ),
            ]
        } else {
            Seq::empty()
        },
    }
}

/// `if self.cpu_id > -1 { set_thread_affinity(self.cpu_id) }`
pub open spec fn spec_affinity() -> SpecStatement {
    SpecStatement::Expr(
        SpecExpr::If {
            condition: Box::new(s_bin(s_member("self"@, "cpu_id"@), ">"@, s_int(-1))),
            then_branch: s_block(
                seq![
                    SpecStatement::Expr(
                        SpecExpr::Call(Box::new(s_path1("set_thread_affinity"@)), seq![s_member("self"@, "cpu_id"@)]),
                    ),
                ],
            ),
            else_branch: None,
        },
    )
}

/// The execution logic the dispatch protocol asks for; periodic where it
/// names none of the four.
pub open spec fn spec_dispatch_logic(
    types: Seq<(Seq<char>, SpecType)>,
    comps: Seq<(Seq<char>, ComponentType)>,
    impl_: ComponentImplementation,
    ba_prelude: Seq<SpecStatement>,
    ba_step: Seq<SpecStatement>,
) -> Seq<SpecStatement> {
    match spec_dispatch_protocol(spec_convert_clause(impl_.properties)) {
        Some(d) => if d == "Aperiodic"@ {
            spec_aperiodic_logic(types, comps, impl_)
        } else if d == "Sporadic"@ {
            spec_sporadic_logic(types, comps, impl_)
        } else if d == "Timed"@ {
            spec_timed_logic(types, comps, impl_)
        } else {
            spec_periodic_logic(types, comps, impl_, ba_prelude, ba_step)
        },
        None => spec_periodic_logic(types, comps, impl_, ba_prelude, ba_step),
    }
}

/// The body of a thread's `run`: its priority, its processor, and its
/// execution logic.
#[verifier::opaque]
pub open spec fn spec_thread_run_body(
    c: AadlConverter,
    impl_: ComponentImplementation,
    ba_prelude: Seq<SpecStatement>,
    ba_step: Seq<SpecStatement>,
) -> Seq<SpecStatement> {
    spec_priority_stmts(impl_) + seq![spec_affinity()] + spec_dispatch_logic(
        c.types(),
        c.components(),
        impl_,
        ba_prelude,
        ba_step,
    )
}

fn path1(n: &str) -> (res: Expr)
    ensures
        res@ == s_path1(n@),
{
    let mut v: Vec<String> = Vec::new();
    v.push(n.to_string());
    assert(strings_view(v@) =~= seq![n@]);
    Expr::Path(v, PathType::Namespace)
}

fn param_let(init: &str) -> (res: Statement)
    ensures
        res@ == spec_param_let(init@),
{
    mk_let(true, "param", Some(Type::Named("sched_param".to_string())), Some(mk_ident(init)))
}

fn three_exprs(a: Expr, b: Expr, c: Expr) -> (res: Vec<Expr>)
    ensures
        crate::intermediate_ast::exprs_view(res@) == seq![a@, b@, c@],
{
    let ghost (av, bv, cv) = (a@, b@, c@);
    let mut v = vec1_expr(a);
    v.push(b);
    v.push(c);
    assert(crate::intermediate_ast::exprs_view(v@) =~= seq![av, bv, cv]);
    v
}

fn set_sched() -> (res: Statement)
    ensures
        res@ == spec_set_sched(),
{
    proof {
        lemma_views_empty();
    }
    let policy = mk_mcall(
        mk_mcall(
            path1("*CPU_ID_TO_SCHED_POLICY"),
            "get",
            vec1_expr(Expr::Reference(Box::new(mk_member("self", "cpu_id")), true, false)),
        ),
        "unwrap_or",
        vec1_expr(Expr::Reference(Box::new(path1("SCHED_FIFO")), true, false)),
    );
    let args = three_exprs(
        mk_call(path1("pthread_self"), Vec::new()),
        policy,
        Expr::Reference(Box::new(mk_ident("param")), true, true),
    );
    mk_let(false, "ret", None, Some(mk_call(path1("pthread_setschedparam"), args)))
}

fn report_failure(message: String) -> (res: Statement)
    ensures
        res@ == spec_report_failure(message@),
{
    let ghost mv = message@;
    let mut args = vec1_expr(Expr::Literal(Literal::Str(message)));
    let r = mk_ident("ret");
    let ghost (a0, rv) = (crate::intermediate_ast::exprs_view(args@), r@);
    args.push(r);
    assert(crate::intermediate_ast::exprs_view(args@) =~= seq![SpecExpr::Literal(crate::intermediate_ast::SpecLiteral::Str(mv)), s_ident("ret"@)]);
    let call = Statement::Expr(mk_call(path1("eprintln!"), args));
    Statement::Expr(
        Expr::If {
            condition: Box::new(mk_bin(mk_ident("ret"), "!=", mk_int(0))),
            then_branch: mk_block(vec1_stmt(call)),
            else_branch: None,
        },
    )
}

fn unsafe_block(stmts: Vec<Statement>) -> (res: Statement)
    ensures
        res@ == SpecStatement::Expr(SpecExpr::Unsafe(Box::new(s_block(stmts_view(stmts@))))),
{
    Statement::Expr(Expr::Unsafe(Box::new(mk_block(stmts))))
}

fn priority_stmts(temp_converter: &AadlConverter, impl_: &ComponentImplementation) -> (res: Vec<Statement>)
    requires
        clause_ok(impl_.properties),
    ensures
        stmts_view(res@) == spec_priority_stmts(*impl_),
{
    let name = to_lower(impl_.name.type_identifier.as_str());
    let mut out: Vec<Statement> = Vec::new();
    proof {
        lemma_views_empty();
    }
    match extract_property_value(temp_converter, impl_, "priority") {
        Some(p) => {
            let digits = i64_to_decimal((p as i32) as i64);
            let init = concat3("sched_param { sched_priority: ", digits.as_str(), " }");
            let a = param_let(init.as_str());
            let b = set_sched();
            let c = report_failure(concat(name.as_str(), "Thread: Failed to set thread priority: {}"));
            let ghost (av, bv, cv) = (a@, b@, c@);
            let mut inner = vec1_stmt(a);
            inner.push(b);
            inner.push(c);
            assert(stmts_view(inner@) =~= seq![av, bv, cv]);
            let u = unsafe_block(inner);
            let ghost uv = u@;
            out.push(u);
            assert(stmts_view(out@) =~= seq![uv]);
        },
        None => {
            if extract_property_value(temp_converter, impl_, "period").is_some() {
                let prio = mk_let(
                    false,
                    "prio",
                    None,
                    Some(mk_call(path1("period_to_priority"), vec1_expr(mk_ident("self.period as f64")))),
                );
                let a = param_let("sched_param { sched_priority: prio }");
                let b = set_sched();
                let c = report_failure(concat(name.as_str(), "Thread: Failed to set thread priority from period: {}"));
                let ghost (pv, av, bv, cv) = (prio@, a@, b@, c@);
                let mut inner = vec1_stmt(prio);
                inner.push(a);
                inner.push(b);
                inner.push(c);
                assert(stmts_view(inner@) =~= seq![pv, av, bv, cv]);
                let u = unsafe_block(inner);
                let ghost uv = u@;
                out.push(u);
                assert(stmts_view(out@) =~= seq![uv]);
            }
        },
    }
    out
}

fn affinity() -> (res: Statement)
    ensures
        res@ == spec_affinity(),
{
    let call = Statement::Expr(mk_call(path1("set_thread_affinity"), vec1_expr(mk_member("self", "cpu_id"))));
    Statement::Expr(
        Expr::If {
            condition: Box::new(mk_bin(mk_member("self", "cpu_id"), ">", mk_int(-1))),
            then_branch: mk_block(vec1_stmt(call)),
            else_branch: None,
        },
    )
}

fn dispatch_logic(
    temp_converter: &AadlConverter,
    impl_: &ComponentImplementation,
    ba_prelude: Vec<Statement>,
    ba_step: Vec<Statement>,
) -> (res: Vec<Statement>)
    requires
        sends_defaults_end(temp_converter.types(), temp_converter.components(), *impl_),
        clause_ok(impl_.properties),
    ensures
        stmts_view(res@) == spec_dispatch_logic(
            temp_converter.types(),
            temp_converter.components(),
            *impl_,
            stmts_view(ba_prelude@),
            stmts_view(ba_step@),
        ),
{
    match extract_dispatch_protocol(temp_converter, impl_) {
        Some(d) => {
            if str_eq(d.as_str(), "Aperiodic") {
                create_aperiodic_execution_logic(temp_converter, impl_)
            } else if str_eq(d.as_str(), "Sporadic") {
                create_sporadic_execution_logic(temp_converter, impl_)
            } else if str_eq(d.as_str(), "Timed") {
                create_timed_execution_logic(temp_converter, impl_)
            } else {
                create_periodic_execution_logic(temp_converter, impl_, ba_prelude, ba_step)
            }
        },
        None => create_periodic_execution_logic(temp_converter, impl_, ba_prelude, ba_step),
    }
}

/// The body of a thread's `run` (see `spec_thread_run_body`); `ba_prelude`
/// and `ba_step` are what the Behavior Annex converter gives for the
/// thread's annex (its variables and states, and one step of its state
/// machine), empty where it has none.
pub fn create_thread_run_body(
    temp_converter: &AadlConverter,
    impl_: &ComponentImplementation,
    ba_prelude: Vec<Statement>,
    ba_step: Vec<Statement>,
) -> (res: Vec<Statement>)
    requires
        sends_defaults_end(temp_converter.types(), temp_converter.components(), *impl_),
        clause_ok(impl_.properties),
    ensures
        stmts_view(res@) == spec_thread_run_body(
            *temp_converter,
            *impl_,
            stmts_view(ba_prelude@),
            stmts_view(ba_step@),
        ),
{
    proof {
        reveal(spec_thread_run_body);
    }
    let mut stmts = priority_stmts(temp_converter, impl_);
    let a = affinity();
    let ghost (s0, av) = (stmts_view(stmts@), a@);
    stmts.push(a);
    assert(stmts_view(stmts@) =~= s0 + seq![av]);
    let mut logic = dispatch_logic(temp_converter, impl_, ba_prelude, ba_step);
    let ghost (pre, lv) = (stmts@, logic@);
    stmts.append(&mut logic);
    proof {
        lemma_stmts_view_concat(pre, lv);
    }
    stmts
}


// ---------------------------------------------------------------------------
// The thread implementation
// ---------------------------------------------------------------------------

/// A field per basic property of the implementation whose value the
/// converter reads: its name in lower case, of the type of its value.
pub open spec fn spec_impl_property_fields(props: Seq<Property>) -> Seq<SpecField>
    decreases props.len(),
{
    if props.len() == 0 {
        Seq::empty()
    } else {
        spec_impl_property_fields(props.drop_last()) + match props.last() {
            Property::BasicProperty(bp) => match spec_parse_property_value(bp.value) {
                Some(v) => seq![
                    SpecField {
                        name: lowercase(bp.identifier.name@),
                        ty: SpecType::Named(spec_type_for_property(v)),
                        docs: seq!["// AADL属性(impl): "@ + bp.identifier.name@],
                        attrs: Seq::empty(),
                    },
                ],
                None => Seq::empty(),
            },
            _ => Seq::empty(),
        }
    }
}

/// `existing` with each entry of `values` put in, in order.
pub open spec fn spec_merge_values(
    existing: Seq<(Seq<char>, SpecPropertyValue)>,
    values: Seq<(Seq<char>, SpecPropertyValue)>,
) -> Seq<(Seq<char>, SpecPropertyValue)>
    decreases values.len(),
{
    if values.len() == 0 {
        existing
    } else {
        assoc_insert(spec_merge_values(existing, values.drop_last()), values.last().0, values.last().1)
    }
}

/// The converter's table of thread field values after a thread
/// implementation: its property values put in the thread's entry, over
/// those its type recorded.
pub open spec fn spec_impl_thread_values(c: AadlConverter, impl_: ComponentImplementation) -> Seq<
    (Seq<char>, Seq<(Seq<char>, SpecPropertyValue)>),
> {
    let key = lowercase(impl_.name.type_identifier@) + "Thread"@;
    let values = spec_property_values(Seq::empty(), spec_clause_props(impl_.properties));
    if values.len() > 0 {
        let existing = match assoc_first(c.thread_values(), key) {
            Some(e) => e,
            None => Seq::empty(),
        };
        assoc_insert(c.thread_values(), key, spec_merge_values(existing, values))
    } else {
        c.thread_values()
    }
}

/// The converter is the same apart from its table of thread field values.
pub open spec fn same_but_thread_values(a: AadlConverter, b: AadlConverter) -> bool {
    &&& a.type_mappings == b.type_mappings
    &&& a.component_types == b.component_types
    &&& a.annex_converter == b.annex_converter
    &&& a.cpu_scheduling_protocols == b.cpu_scheduling_protocols
    &&& a.cpu_name_to_id_mapping == b.cpu_name_to_id_mapping
    &&& a.data_comp_type == b.data_comp_type
    &&& a.process_broadcast_send == b.process_broadcast_send
    &&& a.process_broadcast_receive == b.process_broadcast_receive
    &&& a.system_subcomponent_identify_to_type == b.system_subcomponent_identify_to_type
    &&& a.thread_broadcast_receive == b.thread_broadcast_receive
    &&& a.process_subcomponent_identify_to_type == b.process_subcomponent_identify_to_type
    &&& a.thread_field_types == b.thread_field_types
}

/// What `Debug` writes for an `Option<u64>`.
pub open spec fn spec_debug_opt_u64(o: Option<u64>) -> Seq<char> {
    match o {
        Some(v) => "Some("@ + spec_decimal(v as nat) + ")"@,
        None => "None"@,
    }
}

/// `<thread type in lower case>Thread`
pub open spec fn spec_impl_thread_name(impl_: ComponentImplementation) -> Seq<char> {
    lowercase(impl_.name.type_identifier@) + "Thread"@
}

/// `fn run(&self)` with the given body, its comment giving the period.
pub open spec fn spec_run_fn(impl_: ComponentImplementation, body: Seq<SpecStatement>) -> SpecFunctionDef {
    SpecFunctionDef {
        name: "run"@,
        params: seq![
            SpecParam { name: ""@, ty: SpecType::Reference(Box::new(SpecType::Named("self"@)), false, true) },
        ],
        return_type: SpecType::Unit,
        body: s_block(body),
        asyncness: false,
        vis: Visibility::Inherited,
        docs: seq![
            "// Thread execution entry point"@,
            "// Period: "@ + spec_debug_opt_u64(
                spec_property_number(spec_convert_clause(impl_.properties), lowercase("period"@)),
            ) + " ms"@,
        ],
        attrs: Seq::empty(),
    }
}

/// `fn run(&self)`, its body `spec_thread_run_body`.
pub open spec fn spec_thread_run_method(
    c: AadlConverter,
    impl_: ComponentImplementation,
    ba_prelude: Seq<SpecStatement>,
    ba_step: Seq<SpecStatement>,
) -> SpecFunctionDef {
    spec_run_fn(impl_, spec_thread_run_body(c, impl_, ba_prelude, ba_step))
}

/// What a thread implementation becomes, given the converter once the
/// implementation's property values are recorded: its struct (a field per
/// property), `impl Thread` with `new` and `run`, and, where a shared
/// variable is made in that `new`, an `impl` with a `new` that takes every
/// shared variable as a parameter.
pub open spec fn spec_thread_implementation(
    c: AadlConverter,
    impl_: ComponentImplementation,
    ba_prelude: Seq<SpecStatement>,
    ba_step: Seq<SpecStatement>,
) -> Seq<SpecItem> {
    let name = spec_impl_thread_name(impl_);
    let made = spec_thread_new_entries(c, impl_, false).2;
    seq![
        SpecItem::Struct(
            SpecStructDef {
                name,
                fields: spec_impl_property_fields(spec_clause_props(impl_.properties)),
                properties: Seq::empty(),
                generics: Seq::empty(),
                derives: seq!["Debug"@],
                docs: seq![
                    "// AADL "@ + spec_category_name(impl_.category) + ": "@ + lowercase(
                        impl_.name.type_identifier@,
                    ),
                ],
                vis: Visibility::Public,
            },
        ),
        SpecItem::Impl(
            SpecImplBlock {
                target: SpecType::Named(name),
                generics: Seq::empty(),
                items: seq![
                    SpecImplItem::Method(spec_thread_new_method(c, impl_, false)),
                    SpecImplItem::Method(spec_thread_run_method(c, impl_, ba_prelude, ba_step)),
                ],
                trait_impl: Some(SpecType::Named("Thread"@)),
            },
        ),
    ] + if made {
        seq![
            SpecItem::Impl(
                SpecImplBlock {
                    target: SpecType::Named(name),
                    generics: Seq::empty(),
                    items: seq![SpecImplItem::Method(spec_thread_new_method(c, impl_, true))],
                    trait_impl: None,
                },
            ),
        ]
    } else {
        Seq::empty()
    }
}

fn copy_values(v: &Vec<(String, StruPropertyValue)>) -> (res: Vec<(String, StruPropertyValue)>)
    ensures
        value_table_view(res@) == value_table_view(v@),
{
    let mut out: Vec<(String, StruPropertyValue)> = Vec::new();
    let mut i: usize = 0;
    while i < v.len()
        invariant
            i <= v@.len(),
            value_table_view(out@) == value_table_view(v@).take(i as int),
        decreases v@.len() - i,
    {
        let e = (v[i].0.clone(), v[i].1.copy());
        let ghost ev = (e.0@, e.1@);
        let ghost before = value_table_view(out@);
        out.push(e);
        proof {
            assert(value_table_view(out@) =~= before.push(ev));
            assert(value_table_view(v@).take(i + 1) =~= value_table_view(v@).take(i as int).push(ev));
        }
        i = i + 1;
    }
    proof {
        assert(value_table_view(v@).take(v@.len() as int) =~= value_table_view(v@));
    }
    out
}

fn impl_property_fields(
    temp_converter: &AadlConverter,
    impl_: &ComponentImplementation,
) -> (res: (Vec<Field>, Vec<(String, StruPropertyValue)>))
    requires
        clause_ok(impl_.properties),
    ensures
        fields_view(res.0@) == spec_impl_property_fields(spec_clause_props(impl_.properties)),
        value_table_view(res.1@) == spec_property_values(Seq::empty(), spec_clause_props(impl_.properties)),
{
    let mut fields: Vec<Field> = Vec::new();
    let mut values: Vec<(String, StruPropertyValue)> = Vec::new();
    proof {
        assert(fields_view(fields@) =~= Seq::<SpecField>::empty());
        assert(value_table_view(values@) =~= Seq::<(Seq<char>, SpecPropertyValue)>::empty());
    }
    if let PropertyClause::Properties(props) = &impl_.properties {
        let mut i: usize = 0;
        proof {
            assert(props@.take(0) =~= Seq::<Property>::empty());
        }
        while i < props.len()
            invariant
                i <= props@.len(),
                forall|k: int| 0 <= k < props@.len() ==> #[trigger] property_ok(props@[k]),
                fields_view(fields@) == spec_impl_property_fields(props@.take(i as int)),
                value_table_view(values@) == spec_property_values(Seq::empty(), props@.take(i as int)),
            decreases props@.len() - i,
        {
            proof {
                assert(props@.take(i + 1).drop_last() =~= props@.take(i as int));
                assert(props@.take(i + 1).last() == props@[i as int]);
                assert(property_ok(props@[i as int]));
            }
            let ghost before = fields_view(fields@);
            let mut pushed = false;
            if let Property::BasicProperty(bp) = &props[i] {
                match temp_converter.parse_property_value(&bp.value) {
                    Some(val) => {
                        let field_name = to_lower(bp.identifier.name.as_str());
                        let ty_name = temp_converter.type_for_property(&val);
                        let mut docs: Vec<String> = Vec::new();
                        docs.push(concat("// AADL属性(impl): ", bp.identifier.name.as_str()));
                        let attrs: Vec<Attribute> = Vec::new();
                        proof {
                            assert(strings_view(docs@) =~= seq!["// AADL属性(impl): "@ + bp.identifier.name@]);
                            assert(attrs_view(attrs@) =~= Seq::<SpecAttribute>::empty());
                        }
                        put_value(&mut values, field_name.clone(), val);
                        let f = Field { name: field_name, ty: Type::Named(ty_name), docs, attrs };
                        let ghost fv = f@;
                        fields.push(f);
                        pushed = true;
                        assert(fields_view(fields@) =~= before + seq![fv]);
                    },
                    None => {},
                }
            }
            if !pushed {
                assert(before + Seq::<SpecField>::empty() =~= before);
            }
            i = i + 1;
        }
        proof {
            assert(props@.take(props@.len() as int) =~= props@);
        }
    }
    (fields, values)
}

fn record_impl_values(temp_converter: &mut AadlConverter, key: &String, values: Vec<(String, StruPropertyValue)>)
    ensures
        same_but_thread_values(*old(temp_converter), *final(temp_converter)),
        final(temp_converter).thread_values() == (if values@.len() > 0 {
            assoc_insert(
                old(temp_converter).thread_values(),
                key@,
                spec_merge_values(
                    match assoc_first(old(temp_converter).thread_values(), key@) {
                        Some(e) => e,
                        None => Seq::empty(),
                    },
                    value_table_view(values@),
                ),
            )
        } else {
            old(temp_converter).thread_values()
        }),
{
    if values.len() == 0 {
        return;
    }
    let ghost tv = nested_values_view(temp_converter.thread_field_values@);
    let mut existing: Vec<(String, StruPropertyValue)> = Vec::new();
    let mut found = false;
    let mut i: usize = 0;
    proof {
        assert(tv.skip(0) =~= tv);
    }
    while i < temp_converter.thread_field_values.len() && !found
        invariant
            i <= temp_converter.thread_field_values@.len(),
            *temp_converter == *old(temp_converter),
            tv == nested_values_view(temp_converter.thread_field_values@),
            !found ==> assoc_first(tv.skip(i as int), key@) == assoc_first(tv, key@),
            found ==> assoc_first(tv, key@) == Some(value_table_view(existing@)),
            !found ==> existing@.len() == 0,
        decreases temp_converter.thread_field_values@.len() - i,
    {
        proof {
            assert(tv.skip(i as int).drop_first() =~= tv.skip(i + 1));
        }
        if str_eq(temp_converter.thread_field_values[i].0.as_str(), key.as_str()) {
            existing = copy_values(&temp_converter.thread_field_values[i].1);
            found = true;
        }
        i = i + 1;
    }
    proof {
        if !found {
            assert(tv.skip(tv.len() as int) =~= Seq::<(Seq<char>, Seq<(Seq<char>, SpecPropertyValue)>)>::empty());
            assert(value_table_view(existing@) =~= Seq::<(Seq<char>, SpecPropertyValue)>::empty());
        }
    }
    let ghost e0 = value_table_view(existing@);
    let ghost vv = value_table_view(values@);
    let mut vals = values;
    let mut k: usize = 0;
    proof {
        assert(vv.take(0) =~= Seq::<(Seq<char>, SpecPropertyValue)>::empty());
    }
    while k < vals.len()
        invariant
            k <= vals@.len(),
            vv == value_table_view(vals@),
            value_table_view(existing@) == spec_merge_values(e0, vv.take(k as int)),
        decreases vals@.len() - k,
    {
        proof {
            assert(vv.take(k + 1).drop_last() =~= vv.take(k as int));
            assert(vv.take(k + 1).last() == vv[k as int]);
        }
        put_value(&mut existing, vals[k].0.clone(), vals[k].1.copy());
        k = k + 1;
    }
    proof {
        assert(vv.take(vals@.len() as int) =~= vv);
    }
    put_thread_values(&mut temp_converter.thread_field_values, key.clone(), existing);
}

fn thread_struct(temp_converter: &AadlConverter, impl_: &ComponentImplementation, struct_name: String, fields: Vec<Field>) -> (res: StructDef)
    requires
        struct_name@ == spec_impl_thread_name(*impl_),
    ensures
        res@ == (SpecStructDef {
            name: spec_impl_thread_name(*impl_),
            fields: fields_view(fields@),
            properties: Seq::empty(),
            generics: Seq::empty(),
            derives: seq!["Debug"@],
            docs: seq![
                "// AADL "@ + spec_category_name(impl_.category) + ": "@ + lowercase(
                    impl_.name.type_identifier@,
                ),
            ],
            vis: Visibility::Public,
        }),
{
    let mut derives: Vec<String> = Vec::new();
    derives.push("Debug".to_string());
    let generics: Vec<String> = Vec::new();
    let props_out: Vec<StruProperty> = Vec::new();
    proof {
        assert(strings_view(derives@) =~= seq!["Debug"@]);
        assert(strings_view(generics@) =~= Seq::<Seq<char>>::empty());
        assert(props_view(props_out@) =~= Seq::empty());
    }
    StructDef {
        name: struct_name,
        fields,
        properties: props_out,
        generics,
        derives,
        docs: temp_converter.create_component_impl_docs(impl_),
        vis: Visibility::Public,
    }
}

fn run_docs(temp_converter: &AadlConverter, impl_: &ComponentImplementation) -> (res: Vec<String>)
    requires
        clause_ok(impl_.properties),
    ensures
        strings_view(res@) == seq![
            "// Thread execution entry point"@,
            "// Period: "@ + spec_debug_opt_u64(
                spec_property_number(spec_convert_clause(impl_.properties), lowercase("period"@)),
            ) + " ms"@,
        ],
{
    let period = extract_property_value(temp_converter, impl_, "period");
    let period_text = match period {
        Some(p) => concat3("Some(", u64_to_decimal(p).as_str(), ")"),
        None => "None".to_string(),
    };
    let mut docs: Vec<String> = Vec::new();
    docs.push("// Thread execution entry point".to_string());
    docs.push(concat3("// Period: ", period_text.as_str(), " ms"));
    assert(strings_view(docs@) =~= seq![
        "// Thread execution entry point"@,
        "// Period: "@ + spec_debug_opt_u64(period) + " ms"@,
    ]);
    docs
}

fn run_fn(docs: Vec<String>, body: Vec<Statement>) -> (res: FunctionDef)
    ensures
        res@ == (SpecFunctionDef {
            name: "run"@,
            params: seq![
                SpecParam { name: ""@, ty: SpecType::Reference(Box::new(SpecType::Named("self"@)), false, true) },
            ],
            return_type: SpecType::Unit,
            body: s_block(stmts_view(body@)),
            asyncness: false,
            vis: Visibility::Inherited,
            docs: strings_view(docs@),
            attrs: Seq::empty(),
        }),
{
    let empty_name: &str = "";
    let mut params: Vec<Param> = Vec::new();
    params.push(Param { name: empty_name.to_string(), ty: Type::Reference(Box::new(mk_named("self")), false, true) });
    let attrs: Vec<Attribute> = Vec::new();
    proof {
        assert(params_view(params@) =~= seq![
            SpecParam { name: ""@, ty: SpecType::Reference(Box::new(SpecType::Named("self"@)), false, true) },
        ]);
        assert(attrs_view(attrs@) =~= Seq::<SpecAttribute>::empty());
    }
    FunctionDef {
        name: "run".to_string(),
        params,
        return_type: Type::Unit,
        body: mk_block(body),
        asyncness: false,
        vis: Visibility::Inherited,
        docs,
        attrs,
    }
}

fn second_impl(temp_converter: &AadlConverter, impl_: &ComponentImplementation, struct_name: String) -> (res: ImplBlock)
    requires
        struct_name@ == spec_impl_thread_name(*impl_),
    ensures
        res@ == (SpecImplBlock {
            target: SpecType::Named(spec_impl_thread_name(*impl_)),
            generics: Seq::empty(),
            items: seq![SpecImplItem::Method(spec_thread_new_method(*temp_converter, *impl_, true))],
            trait_impl: None,
        }),
{
    let mut flag = true;
    let second = create_thread_new_method(temp_converter, impl_, &mut flag);
    let ghost secv = second@;
    let mut its: Vec<ImplItem> = Vec::new();
    its.push(ImplItem::Method(second));
    let generics2: Vec<String> = Vec::new();
    proof {
        assert(crate::intermediate_ast::impl_items_view(its@) =~= seq![SpecImplItem::Method(secv)]);
        assert(strings_view(generics2@) =~= Seq::<Seq<char>>::empty());
    }
    ImplBlock { target: Type::Named(struct_name), generics: generics2, items: its, trait_impl: None }
}

/// A thread implementation becomes its struct and impl blocks (see
/// `spec_thread_implementation`); the converter records the
/// implementation's property values for the thread (see
/// `spec_impl_thread_values`).  `ba_prelude` and `ba_step` are what the
/// Behavior Annex converter gives for the thread's annex, empty where it
/// has none.
pub fn convert_thread_implemenation(
    temp_converter: &mut AadlConverter,
    impl_: &ComponentImplementation,
    ba_prelude: Vec<Statement>,
    ba_step: Vec<Statement>,
) -> (res: Vec<Item>)
    requires
        sends_defaults_end(old(temp_converter).types(), old(temp_converter).components(), *impl_),
        clause_ok(impl_.properties),
    ensures
        same_but_thread_values(*old(temp_converter), *final(temp_converter)),
        final(temp_converter).thread_values() == spec_impl_thread_values(*old(temp_converter), *impl_),
        items_view(res@) == spec_thread_implementation(
            *final(temp_converter),
            *impl_,
            stmts_view(ba_prelude@),
            stmts_view(ba_step@),
        ),
{
    let (fields, values) = impl_property_fields(temp_converter, impl_);
    let lower = to_lower(impl_.name.type_identifier.as_str());
    let struct_name = concat(lower.as_str(), "Thread");
    record_impl_values(temp_converter, &struct_name, values);
    let sd = thread_struct(temp_converter, impl_, struct_name.clone(), fields);
    let mut flag = false;
    let new_method = create_thread_new_method(temp_converter, impl_, &mut flag);
    let run = run_fn(run_docs(temp_converter, impl_), create_thread_run_body(temp_converter, impl_, ba_prelude, ba_step));
    let generics1: Vec<String> = Vec::new();
    assert(strings_view(generics1@) =~= Seq::<Seq<char>>::empty());
    let ib = ImplBlock {
        target: Type::Named(struct_name.clone()),
        generics: generics1,
        items: vec2_impl_items(ImplItem::Method(new_method), ImplItem::Method(run)),
        trait_impl: Some(Type::Named("Thread".to_string())),
    };
    let mut items = crate::intermediate_ast::vec2_items(Item::Struct(sd), Item::Impl(ib));
    if flag {
        let ib2 = second_impl(temp_converter, impl_, struct_name);
        let ghost (before, i2) = (items_view(items@), ib2@);
        items.push(Item::Impl(ib2));
        assert(items_view(items@) =~= before + seq![SpecItem::Impl(i2)]);
    } else {
        assert(items_view(items@) =~= items_view(items@) + Seq::<SpecItem>::empty());
    }
    items
}

/// The statement is `let <name> ... = ...;`.
pub open spec fn lets(s: SpecStatement, name: Seq<char>) -> bool {
    s matches SpecStatement::Let(l) && l.name == name
}

/// The statement is a `let` whose value is a call with the one argument
/// `ms` (as `Duration::from_millis(ms)` is).
pub open spec fn inits_with_millis(s: SpecStatement, ms: int) -> bool {
    s matches SpecStatement::Let(l) && (l.init matches Some(SpecExpr::Call(_, args)) && args == seq![
        SpecExpr::Literal(crate::intermediate_ast::SpecLiteral::Int(ms)),
    ])
}

/// The statement is a `loop`.
pub open spec fn is_loop(s: SpecStatement) -> bool {
    s matches SpecStatement::Expr(SpecExpr::Loop(_))
}

/// A law of a thread's `run`: after its priority and affinity statements
/// comes the execution logic its Dispatch_Protocol asks for.
/// - `Sporadic`: the minimum inter-arrival time (the period, 1000 ms where
///   none is given), the time of the last dispatch, the event queue, and the
///   event loop;
/// - `Timed`: the period (1000 ms where none is given), the start time, the
///   event queue, and the event loop;
/// - `Aperiodic`: the event queue and the event loop;
/// - anything else: the release period (2000 ms where none is given), the
///   next release time, the Behavior Annex prelude, and the release loop.
pub proof fn lemma_run_body_dispatch(
    c: AadlConverter,
    impl_: ComponentImplementation,
    ba_prelude: Seq<SpecStatement>,
    ba_step: Seq<SpecStatement>,
)
    ensures
        ({
            let body = spec_thread_run_body(c, impl_, ba_prelude, ba_step);
            let n = (spec_priority_stmts(impl_).len() + 1) as int;
            let d = spec_dispatch_protocol(spec_convert_clause(impl_.properties));
            let given = spec_property_number(spec_convert_clause(impl_.properties), lowercase("period"@));
            let event_ms: int = match given {
                Some(p) => p as i64 as int,
                None => 1000,
            };
            let release_ms: int = match given {
                Some(p) => p as i64 as int,
                None => 2000,
            };
            &&& d == Some("Sporadic"@) ==> {
                &&& body.len() == n + 4
                &&& lets(body[n], "min_interarrival"@)
                &&& inits_with_millis(body[n], event_ms)
                &&& lets(body[n + 1], "last_dispatch"@)
                &&& lets(body[n + 2], "events"@)
                &&& is_loop(body[n + 3])
            }
            &&& d == Some("Timed"@) ==> {
                &&& body.len() == n + 4
                &&& lets(body[n], "period"@)
                &&& inits_with_millis(body[n], event_ms)
                &&& lets(body[n + 1], "start_time"@)
                &&& lets(body[n + 2], "events"@)
                &&& is_loop(body[n + 3])
            }
            &&& d == Some("Aperiodic"@) ==> {
                &&& body.len() == n + 2
                &&& lets(body[n], "events"@)
                &&& is_loop(body[n + 1])
            }
            &&& !(d == Some("Sporadic"@) || d == Some("Timed"@) || d == Some("Aperiodic"@)) ==> {
                &&& body.len() == n + 3 + ba_prelude.len()
                &&& lets(body[n], "period"@)
                &&& inits_with_millis(body[n], release_ms)
                &&& lets(body[n + 1], "next_release"@)
                &&& body.subrange(n + 2, n + 2 + ba_prelude.len()) == ba_prelude
                &&& is_loop(body[n + 2 + ba_prelude.len()])
            }
        }),
{
    reveal(spec_thread_run_body);
    reveal_strlit("Aperiodic");
    reveal_strlit("Sporadic");
    reveal_strlit("Timed");
    let body = spec_thread_run_body(c, impl_, ba_prelude, ba_step);
    let head = spec_priority_stmts(impl_) + seq![spec_affinity()];
    let n = (spec_priority_stmts(impl_).len() + 1) as int;
    let logic = spec_dispatch_logic(c.types(), c.components(), impl_, ba_prelude, ba_step);
    assert(body == head + logic);
    assert(head.len() == n);
    assert forall|k: int| 0 <= k < logic.len() implies body[n + k] == logic[k] by {}
    let d = spec_dispatch_protocol(spec_convert_clause(impl_.properties));
    let (types, comps) = (c.types(), c.components());
    if d == Some("Sporadic"@) {
        reveal_strlit("Sporadic");
        reveal_strlit("Aperiodic");
        assert("Sporadic"@.len() == 8);
        assert("Aperiodic"@.len() == 9);
        assert("Sporadic"@ != "Aperiodic"@);
        assert(d->0 == "Sporadic"@);
        assert(logic == spec_sporadic_logic(types, comps, impl_));
        assert(body[n] == logic[0]);
        assert(body[n + 1] == logic[1]);
        assert(body[n + 2] == logic[2]);
        assert(body[n + 3] == logic[3]);
    } else if d == Some("Timed"@) {
        assert("Timed"@.len() == 5);
        assert("Aperiodic"@.len() == 9);
        assert("Sporadic"@.len() == 8);
        assert(logic == spec_timed_logic(types, comps, impl_));
        assert(body[n] == logic[0]);
        assert(body[n + 1] == logic[1]);
        assert(body[n + 2] == logic[2]);
        assert(body[n + 3] == logic[3]);
    } else if d == Some("Aperiodic"@) {
        assert(logic == spec_aperiodic_logic(types, comps, impl_));
        assert(body[n] == logic[0]);
        assert(body[n + 1] == logic[1]);
    } else {
        assert(logic == spec_periodic_logic(types, comps, impl_, ba_prelude, ba_step));
        let h = spec_periodic_head(spec_period_ms(impl_));
        assert(logic[0] == h[0]);
        assert(logic[1] == h[1]);
        assert(inits_with_millis(h[0], spec_period_ms(impl_) as i64 as int));
        assert(body[n] == logic[0]);
        assert(body[n + 1] == logic[1]);
        assert forall|k: int| 0 <= k < ba_prelude.len() implies logic[2 + k] == ba_prelude[k] by {}
        assert(body.subrange(n + 2, n + 2 + ba_prelude.len()) =~= ba_prelude);
        assert(body[n + 2 + ba_prelude.len()] == logic[2 + ba_prelude.len() as int]);
    }
}

} // verus!
