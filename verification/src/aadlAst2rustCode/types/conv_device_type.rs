//! Device component types: a struct with the device's ports and its period,
//! and an `impl Device` whose `run` loop reads the in ports and sends
//! generated values on the out ports once per period.

use vstd::prelude::*;
use crate::aadl_ast2rust_code::converter::{
    spec_classifier_to_type, spec_clause_features, spec_feature_fields, ports_convertible,
    AadlConverter,
};
use crate::ast::aadl_ast_cj::{
    ComponentType, Feature, FeatureClause, PortDirection, PortSpec, PortType, Property,
    PropertyClause, PropertyExpression, PropertyValue, SignedIntergerOrConstant,
};
use crate::intermediate_ast::{
    attrs_view, fields_view, group_view_laws, impl_items_view, items_view, lemma_views_empty,
    mk_block, mk_call, mk_ident, mk_let, mk_mcall, mk_mcall0, mk_member, mk_named, mk_ns2, mk_ns3,
    params_view, props_view, s_block, s_ident, s_let, s_mcall, stmts_view, vec1_expr, vec1_stmt,
    exprs_view, Attribute, Block, Expr, Field, FunctionDef, ImplBlock, ImplItem, Item, Literal,
    Param, PathType, SpecAttribute, SpecBlock, SpecExpr, SpecField, SpecFunctionDef,
    SpecImplBlock, SpecImplItem, SpecItem, SpecLiteral, SpecParam, SpecStatement, SpecStructDef,
    SpecType, Statement, StructDef, StruProperty, Type, Visibility, append_stmts, s_bin, s_float,
    s_int, s_member, s_ns2, s_str, mk_bin, mk_int, vec2_items, vec2_impl_items,
};
use crate::text::{
    concat, concat3, join_strings, lowercase, seq_join, spec_decimal, str_eq, strings_view,
    to_lower, u64_to_decimal,
};

verus! {

broadcast use group_view_laws;

// ---------------------------------------------------------------------------
// The period
// ---------------------------------------------------------------------------

/// The first `Period` property (its name in any case) whose value is one
/// integer gives the period, that integer taken as a `u64`.
pub open spec fn spec_period_of(props: Seq<Property>) -> Option<u64>
    decreases props.len(),
{
    if props.len() == 0 {
        None
    } else {
        match props[0] {
            Property::BasicProperty(bp) => if lowercase(bp.identifier.name@) == "period"@ {
                match bp.value {
                    PropertyValue::Single(
                        PropertyExpression::Integer(SignedIntergerOrConstant::Real(iv)),
                    ) => Some(iv.value as u64),
                    _ => spec_period_of(props.drop_first()),
                }
            } else {
                spec_period_of(props.drop_first())
            },
            _ => spec_period_of(props.drop_first()),
        }
    }
}

pub open spec fn spec_extract_period(comp: ComponentType) -> Option<u64> {
    match comp.properties {
        PropertyClause::Properties(props) => spec_period_of(props@),
        _ => None,
    }
}

/// The period of a device, in milliseconds, where its properties give one.
pub fn extract_period(comp: &ComponentType) -> (res: Option<u64>)
    ensures
        res == spec_extract_period(*comp),
{
    if let PropertyClause::Properties(props) = &comp.properties {
        let mut i: usize = 0;
        proof {
            assert(props@.skip(0) =~= props@);
        }
        while i < props.len()
            invariant
                i <= props@.len(),
                spec_extract_period(*comp) == spec_period_of(props@),
                spec_period_of(props@) == spec_period_of(props@.skip(i as int)),
            decreases props@.len() - i,
        {
            proof {
                assert(props@.skip(i as int).drop_first() =~= props@.skip(i + 1));
                assert(props@.skip(i as int)[0] == props@[i as int]);
            }
            if let Property::BasicProperty(bp) = &props[i] {
                let name = to_lower(bp.identifier.name.as_str());
                if str_eq(name.as_str(), "period") {
                    if let PropertyValue::Single(
                        PropertyExpression::Integer(SignedIntergerOrConstant::Real(int_val)),
                    ) = &bp.value {
                        proof {
                            let t = props@.skip(i as int);
                            assert(t[0] == props@[i as int]);
                            assert(lowercase(bp.identifier.name@) == "period"@);
                            assert(spec_period_of(t) == Some(int_val.value as u64));
                        }
                        return Some(int_val.value as u64);
                    }
                }
            }
            i = i + 1;
        }
    }
    None
}

/// The period the generated device uses: its own, else 2000 ms.
pub open spec fn spec_device_period(comp: ComponentType) -> u64 {
    match spec_extract_period(comp) {
        Some(p) => p,
        None => 2000,
    }
}

// ---------------------------------------------------------------------------
// `new`
// ---------------------------------------------------------------------------

/// `            <port>: None,` for each port, in order.
pub open spec fn spec_port_inits(fs: Seq<Feature>) -> Seq<Seq<char>>
    decreases fs.len(),
{
    if fs.len() == 0 {
        Seq::empty()
    } else {
        spec_port_inits(fs.drop_last()) + match fs.last() {
            Feature::Port(p) => seq!["            "@ + lowercase(p.identifier@) + ": None,"@],
            _ => Seq::empty(),
        }
    }
}

/// `fn new() -> Self`, whose body returns the struct with every port `None`
/// and the given period.
pub open spec fn spec_device_new_method(comp: ComponentType, period_ms: u64) -> SpecFunctionDef {
    let lines = spec_port_inits(spec_clause_features(comp.features)).push(
        "            period_ms: "@ + spec_decimal(period_ms as nat) + ","@,
    );
    SpecFunctionDef {
        name: "new"@,
        params: Seq::empty(),
        return_type: SpecType::Named("Self"@),
        body: s_block(
            seq![
                SpecStatement::Expr(
                    s_ident("return Self {\n"@ + seq_join(lines, "\n"@) + "\n        }"@),
                ),
            ],
        ),
        asyncness: false,
        vis: Visibility::Inherited,
        docs: seq!["// Creates a new device instance"@],
        attrs: Seq::empty(),
    }
}

fn one_doc(s: String) -> (res: Vec<String>)
    ensures
        strings_view(res@) == seq![s@],
{
    let mut v: Vec<String> = Vec::new();
    let ghost sv = s@;
    v.push(s);
    assert(strings_view(v@) =~= seq![sv]);
    v
}

fn no_attrs() -> (res: Vec<Attribute>)
    ensures
        attrs_view(res@) == Seq::<SpecAttribute>::empty(),
{
    let v: Vec<Attribute> = Vec::new();
    assert(attrs_view(v@) =~= Seq::<SpecAttribute>::empty());
    v
}

/// The `new` method of a device (see `spec_device_new_method`).
pub fn create_device_new_method(comp: &ComponentType, period_ms: u64) -> (res: FunctionDef)
    ensures
        res@ == spec_device_new_method(*comp, period_ms),
{
    let mut lines: Vec<String> = Vec::new();
    proof {
        assert(strings_view(lines@) =~= Seq::<Seq<char>>::empty());
    }
    if let FeatureClause::Items(features) = &comp.features {
        let ghost fs = features@;
        let mut i: usize = 0;
        proof {
            assert(fs.take(0) =~= Seq::<Feature>::empty());
        }
        while i < features.len()
            invariant
                i <= fs.len(),
                fs == features@,
                strings_view(lines@) == spec_port_inits(fs.take(i as int)),
            decreases fs.len() - i,
        {
            proof {
                assert(fs.take(i + 1).drop_last() =~= fs.take(i as int));
                assert(fs.take(i + 1).last() == fs[i as int]);
            }
            let ghost before = strings_view(lines@);
            if let Feature::Port(port) = &features[i] {
                let lower = to_lower(port.identifier.as_str());
                let line = concat3("            ", lower.as_str(), ": None,");
                let ghost lv = line@;
                lines.push(line);
                proof {
                    assert(strings_view(lines@) =~= before + seq![lv]);
                }
            } else {
                proof {
                    assert(before + Seq::<Seq<char>>::empty() =~= before);
                }
            }
            i = i + 1;
        }
        proof {
            assert(fs.take(fs.len() as int) =~= fs);
        }
    }
    let digits = u64_to_decimal(period_ms);
    let last = concat3("            period_ms: ", digits.as_str(), ",");
    let ghost (before, lastv) = (strings_view(lines@), last@);
    lines.push(last);
    proof {
        assert(strings_view(lines@) =~= before.push(lastv));
    }
    let joined = join_strings(&lines, "\n");
    let literal = concat3("return Self {\n", joined.as_str(), "\n        }");
    let params: Vec<Param> = Vec::new();
    assert(params_view(params@) =~= Seq::<SpecParam>::empty());
    FunctionDef {
        name: "new".to_string(),
        params,
        return_type: mk_named("Self"),
        body: mk_block(vec1_stmt(Statement::Expr(mk_ident(literal.as_str())))),
        asyncness: false,
        vis: Visibility::Inherited,
        docs: one_doc("// Creates a new device instance".to_string()),
        attrs: no_attrs(),
    }
}


// ---------------------------------------------------------------------------
// `run`
// ---------------------------------------------------------------------------

/// Whether some feature is a port of direction `d`.
pub open spec fn spec_any_port(fs: Seq<Feature>, d: PortDirection) -> bool
    decreases fs.len(),
{
    fs.len() > 0 && (spec_any_port(fs.drop_last(), d) || (fs.last() matches Feature::Port(p)
        && p.direction == d))
}

/// `self.<n>`
pub open spec fn s_self_field(n: Seq<char>) -> SpecExpr {
    s_member("self"@, n)
}

/// `println!("<text>", <var>)`
pub open spec fn s_println(text: Seq<char>, var: Seq<char>) -> SpecStatement {
    SpecStatement::Expr(
        SpecExpr::Call(
            Box::new(SpecExpr::Path(seq!["println!"@], PathType::Namespace)),
            seq![s_str(text), s_ident(var)],
        ),
    )
}

/// `if let <pattern> = <value> { <stmts> }`
pub open spec fn s_if_let(pattern: Seq<char>, value: SpecExpr, stmts: Seq<SpecStatement>) -> SpecStatement {
    SpecStatement::Expr(
        SpecExpr::IfLet {
            pattern,
            value: Box::new(value),
            then_branch: s_block(stmts),
            else_branch: None,
        },
    )
}

/// For in port `p` of device `dev`: where the port is connected, take a
/// value from it if one is there and print it.
pub open spec fn spec_receive_stmt(dev: Seq<char>, p: PortSpec) -> SpecStatement {
    let n = lowercase(p.identifier@);
    let v = n + "_in_val"@;
    s_if_let(
        "Some(rx)"@,
        SpecExpr::Reference(Box::new(s_self_field(n)), true, false),
        seq![
            s_if_let(
                "Ok("@ + v + ")"@,
                s_mcall(s_ident("rx"@), "try_recv"@, Seq::empty()),
                seq![
                    s_println("["@ + dev + "] Received "@ + n + ": {:?}"@, v),
                    SpecStatement::Comment("// TODO: 在此处加入执行逻辑"@),
                ],
            ),
        ],
    )
}

/// The receiving statements of the in ports, in order.
pub open spec fn spec_receives(dev: Seq<char>, fs: Seq<Feature>) -> Seq<SpecStatement>
    decreases fs.len(),
{
    if fs.len() == 0 {
        Seq::empty()
    } else {
        spec_receives(dev, fs.drop_last()) + match fs.last() {
            Feature::Port(p) => if p.direction == PortDirection::In {
                seq![spec_receive_stmt(dev, p)]
            } else {
                Seq::empty()
            },
            _ => Seq::empty(),
        }
    }
}

/// The type of the values an out port sends: its classifier's type,
/// `error_type` where it has none, `()` for an event port.
pub open spec fn spec_output_data_type(types: Seq<(Seq<char>, SpecType)>, p: PortSpec) -> SpecType {
    match p.port_type {
        PortType::Data { classifier } | PortType::EventData { classifier } => match classifier {
            Some(c) => spec_classifier_to_type(types, c),
            None => SpecType::Named("error_type"@),
        },
        PortType::Event => SpecType::Named("()"@),
    }
}

pub open spec fn is_fixed_int_name(n: Seq<char>) -> bool {
    n == "i32"@ || n == "i64"@ || n == "i16"@ || n == "i8"@ || n == "u32"@ || n == "u64"@ || n
        == "u16"@ || n == "u8"@
}

/// A random value of type `t`: an integer in 0..201, a float in
/// 0.0..200.0, a `bool` true nine times in ten; a placeholder for any
/// other named type, `0` for any other type.
pub open spec fn spec_random_value(t: SpecType) -> SpecExpr {
    match t {
        SpecType::Named(n) => if is_fixed_int_name(n) {
            s_mcall(s_ident("rng"@), "gen_range"@, seq![s_int(0), s_int(201)])
        } else if n == "f32"@ || n == "f64"@ {
            s_mcall(s_ident("rng"@), "gen_range"@, seq![s_float("0.0"@), s_float("200.0"@)])
        } else if n == "bool"@ {
            s_mcall(s_ident("rng"@), "gen_bool"@, seq![s_float("0.9"@)])
        } else {
            s_ident("please customize"@)
        },
        _ => s_int(0),
    }
}

/// For out port `p` of device `dev`: make a value, and where the port is
/// connected send it and print it.
pub open spec fn spec_send_stmts(types: Seq<(Seq<char>, SpecType)>, dev: Seq<char>, p: PortSpec) -> Seq<
    SpecStatement,
> {
    let n = lowercase(p.identifier@);
    let v = n + "_val"@;
    seq![
        s_let(false, v, None, Some(spec_random_value(spec_output_data_type(types, p)))),
        s_if_let(
            "Some(tx)"@,
            SpecExpr::Reference(Box::new(s_self_field(n)), true, false),
            seq![
                s_let(false, "_"@, None, Some(s_mcall(s_ident("tx"@), "send"@, seq![s_ident(v)]))),
                s_println("["@ + dev + "] send "@ + n + " = {:?}"@, v),
            ],
        ),
    ]
}

/// The sending statements of the out ports, in order.
pub open spec fn spec_sends(types: Seq<(Seq<char>, SpecType)>, dev: Seq<char>, fs: Seq<Feature>) -> Seq<
    SpecStatement,
>
    decreases fs.len(),
{
    if fs.len() == 0 {
        Seq::empty()
    } else {
        spec_sends(types, dev, fs.drop_last()) + match fs.last() {
            Feature::Port(p) => if p.direction == PortDirection::Out {
                spec_send_stmts(types, dev, p)
            } else {
                Seq::empty()
            },
            _ => Seq::empty(),
        }
    }
}

/// `if elapsed < period { std::thread::sleep(period.saturating_sub(elapsed)) }`
pub open spec fn spec_sleep_rest() -> SpecStatement {
    SpecStatement::Expr(
        SpecExpr::If {
            condition: Box::new(s_bin(s_ident("elapsed"@), "<"@, s_ident("period"@))),
            then_branch: s_block(
                seq![
                    SpecStatement::Expr(
                        s_mcall(
                            SpecExpr::Path(seq!["std"@, "thread"@, "sleep"@], PathType::Namespace),
                            ""@,
                            seq![
                                s_mcall(s_ident("period"@), "saturating_sub"@, seq![s_ident("elapsed"@)]),
                            ],
                        ),
                    ),
                ],
            ),
            else_branch: None,
        },
    )
}

/// One period of a device: note the time, read the in ports, send on the
/// out ports, and sleep for what is left of the period.
pub open spec fn spec_device_loop(types: Seq<(Seq<char>, SpecType)>, comp: ComponentType) -> Seq<
    SpecStatement,
> {
    let fs = spec_clause_features(comp.features);
    let dev = lowercase(comp.identifier@);
    seq![
        s_let(
            false,
            "start"@,
            None,
            Some(SpecExpr::Call(Box::new(s_ns2("Instant"@, "now"@)), Seq::empty())),
        ),
    ] + (if spec_any_port(fs, PortDirection::In) {
        seq![SpecStatement::Comment("// --- 从输入端口接收数据 ---"@)]
    } else {
        Seq::empty()
    }) + spec_receives(dev, fs) + spec_sends(types, dev, fs) + seq![
        s_let(false, "elapsed"@, None, Some(s_mcall(s_ident("start"@), "elapsed"@, Seq::empty()))),
        spec_sleep_rest(),
    ]
}

/// `let period: std::time::Duration = Duration::from_millis(self.period_ms);`
pub open spec fn spec_period_let() -> SpecStatement {
    s_let(
        false,
        "period"@,
        Some(SpecType::Path(seq!["std"@, "time"@, "Duration"@])),
        Some(
            SpecExpr::Call(
                Box::new(s_ns2("Duration"@, "from_millis"@)),
                seq![s_self_field("period_ms"@)],
            ),
        ),
    )
}

/// `fn run(self)`: the period, a random generator where the device has an
/// out port, and the loop of `spec_device_loop`.
pub open spec fn spec_device_run_method(types: Seq<(Seq<char>, SpecType)>, comp: ComponentType) -> SpecFunctionDef {
    let fs = spec_clause_features(comp.features);
    SpecFunctionDef {
        name: "run"@,
        params: seq![SpecParam { name: "self"@, ty: SpecType::Named("Self"@) }],
        return_type: SpecType::Unit,
        body: s_block(
            seq![spec_period_let()] + (if spec_any_port(fs, PortDirection::Out) {
                seq![
                    s_let(
                        true,
                        "rng"@,
                        None,
                        Some(SpecExpr::Call(Box::new(s_ns2("rand"@, "thread_rng"@)), Seq::empty())),
                    ),
                ]
            } else {
                Seq::empty()
            }) + seq![SpecStatement::Expr(SpecExpr::Loop(Box::new(s_block(spec_device_loop(types, comp)))))],
        ),
        asyncness: false,
        vis: Visibility::Inherited,
        docs: seq!["// Device execution entry point - periodically generates and sends data"@],
        attrs: Seq::empty(),
    }
}

fn if_let(pattern: String, value: Expr, stmts: Vec<Statement>) -> (res: Statement)
    ensures
        res@ == s_if_let(pattern@, value@, stmts_view(stmts@)),
{
    Statement::Expr(
        Expr::IfLet { pattern, value: Box::new(value), then_branch: mk_block(stmts), else_branch: None },
    )
}

fn self_field(n: &str) -> (res: Expr)
    ensures
        res@ == s_self_field(n@),
{
    mk_member("self", n)
}

fn println_stmt(text: String, var: &str) -> (res: Statement)
    ensures
        res@ == s_println(text@, var@),
{
    let mut path: Vec<String> = Vec::new();
    path.push("println!".to_string());
    assert(strings_view(path@) =~= seq!["println!"@]);
    let mut args: Vec<Expr> = Vec::new();
    args.push(Expr::Literal(Literal::Str(text)));
    args.push(mk_ident(var));
    proof {
        assert(args@.drop_last().drop_last() =~= Seq::<Expr>::empty());
        lemma_views_empty();
        assert(exprs_view(args@) =~= seq![args@[0]@, args@[1]@]);
    }
    Statement::Expr(mk_call(Expr::Path(path, PathType::Namespace), args))
}

fn two_stmts(a: Statement, b: Statement) -> (res: Vec<Statement>)
    ensures
        stmts_view(res@) == seq![a@, b@],
{
    let ghost (av, bv) = (a@, b@);
    let mut v = vec1_stmt(a);
    v.push(b);
    assert(stmts_view(v@) =~= seq![av, bv]);
    v
}

fn two_exprs(a: Expr, b: Expr) -> (res: Vec<Expr>)
    ensures
        exprs_view(res@) == seq![a@, b@],
{
    let ghost (av, bv) = (a@, b@);
    let mut v = vec1_expr(a);
    v.push(b);
    assert(exprs_view(v@) =~= seq![av, bv]);
    v
}

fn receive_stmt(dev: &str, p: &PortSpec) -> (res: Statement)
    ensures
        res@ == spec_receive_stmt(dev@, *p),
{
    let n = to_lower(p.identifier.as_str());
    let v = concat(n.as_str(), "_in_val");
    let text = concat3("[", dev, "] Received ");
    let text = concat3(text.as_str(), n.as_str(), ": {:?}");
    let inner = if_let(
        concat3("Ok(", v.as_str(), ")"),
        mk_mcall0(mk_ident("rx"), "try_recv"),
        two_stmts(println_stmt(text, v.as_str()), Statement::Comment("// TODO: 在此处加入执行逻辑".to_string())),
    );
    if_let("Some(rx)".to_string(), Expr::Reference(Box::new(self_field(n.as_str())), true, false), vec1_stmt(inner))
}

fn random_value(t: &Type) -> (res: Expr)
    ensures
        res@ == spec_random_value(t@),
{
    match t {
        Type::Named(n) => {
            let s = n.as_str();
            if str_eq(s, "i32") || str_eq(s, "i64") || str_eq(s, "i16") || str_eq(s, "i8") || str_eq(s, "u32")
                || str_eq(s, "u64") || str_eq(s, "u16") || str_eq(s, "u8") {
                mk_mcall(mk_ident("rng"), "gen_range", two_exprs(mk_int(0), mk_int(201)))
            } else if str_eq(s, "f32") || str_eq(s, "f64") {
                mk_mcall(
                    mk_ident("rng"),
                    "gen_range",
                    two_exprs(
                        Expr::Literal(Literal::Float("0.0".to_string())),
                        Expr::Literal(Literal::Float("200.0".to_string())),
                    ),
                )
            } else if str_eq(s, "bool") {
                mk_mcall(mk_ident("rng"), "gen_bool", vec1_expr(Expr::Literal(Literal::Float("0.9".to_string()))))
            } else {
                mk_ident("please customize")
            }
        },
        _ => mk_int(0),
    }
}

fn output_data_type(c: &AadlConverter, p: &PortSpec) -> (res: Type)
    ensures
        res@ == spec_output_data_type(c.types(), *p),
{
    match &p.port_type {
        PortType::Data { classifier } | PortType::EventData { classifier } => match classifier {
            Some(cl) => c.classifier_to_type(cl),
            None => mk_named("error_type"),
        },
        PortType::Event => mk_named("()"),
    }
}

fn send_stmts(c: &AadlConverter, dev: &str, p: &PortSpec, out: &mut Vec<Statement>)
    ensures
        stmts_view(final(out)@) == stmts_view(old(out)@) + spec_send_stmts(c.types(), dev@, *p),
{
    let n = to_lower(p.identifier.as_str());
    let v = concat(n.as_str(), "_val");
    let value = random_value(&output_data_type(c, p));
    let l = mk_let(false, v.as_str(), None, Some(value));
    let text = concat3("[", dev, "] send ");
    let text = concat3(text.as_str(), n.as_str(), " = {:?}");
    let send = mk_let(false, "_", None, Some(mk_mcall(mk_ident("tx"), "send", vec1_expr(mk_ident(v.as_str())))));
    let guarded = if_let(
        "Some(tx)".to_string(),
        Expr::Reference(Box::new(self_field(n.as_str())), true, false),
        two_stmts(send, println_stmt(text, v.as_str())),
    );
    let ghost before = stmts_view(out@);
    let ghost (lv, gv) = (l@, guarded@);
    out.push(l);
    out.push(guarded);
    assert(stmts_view(out@) =~= before + seq![lv, gv]);
}

fn any_port(fs: &Vec<Feature>, d: PortDirection) -> (res: bool)
    ensures
        res == spec_any_port(fs@, d),
{
    let mut found = false;
    let mut i: usize = 0;
    proof {
        assert(fs@.take(0) =~= Seq::<Feature>::empty());
    }
    while i < fs.len()
        invariant
            i <= fs@.len(),
            found == spec_any_port(fs@.take(i as int), d),
        decreases fs@.len() - i,
    {
        proof {
            assert(fs@.take(i + 1).drop_last() =~= fs@.take(i as int));
            assert(fs@.take(i + 1).last() == fs@[i as int]);
        }
        if let Feature::Port(p) = &fs[i] {
            if p.direction == d {
                found = true;
            }
        }
        i = i + 1;
    }
    proof {
        assert(fs@.take(fs@.len() as int) =~= fs@);
    }
    found
}

fn device_loop(c: &AadlConverter, comp: &ComponentType, fs: &Vec<Feature>) -> (res: Vec<Statement>)
    requires
        fs@ == spec_clause_features(comp.features),
    ensures
        stmts_view(res@) == spec_device_loop(c.types(), *comp),
{
    let dev = to_lower(comp.identifier.as_str());
    let mut out = vec1_stmt(
        mk_let(false, "start", None, Some(mk_call(mk_ns2("Instant", "now"), Vec::new()))),
    );
    proof {
        lemma_views_empty();
    }
    if any_port(fs, PortDirection::In) {
        let ghost before = stmts_view(out@);
        let cm = Statement::Comment("// --- 从输入端口接收数据 ---".to_string());
        let ghost cv = cm@;
        out.push(cm);
        assert(stmts_view(out@) =~= before + seq![cv]);
    } else {
        assert(stmts_view(out@) =~= stmts_view(out@) + Seq::<SpecStatement>::empty());
    }
    let ghost head = stmts_view(out@);
    let mut i: usize = 0;
    proof {
        assert(fs@.take(0) =~= Seq::<Feature>::empty());
        assert(head + spec_receives(dev@, fs@.take(0)) =~= head);
    }
    while i < fs.len()
        invariant
            i <= fs@.len(),
            stmts_view(out@) == head + spec_receives(dev@, fs@.take(i as int)),
        decreases fs@.len() - i,
    {
        proof {
            assert(fs@.take(i + 1).drop_last() =~= fs@.take(i as int));
            assert(fs@.take(i + 1).last() == fs@[i as int]);
        }
        let ghost before = stmts_view(out@);
        let mut pushed = false;
        if let Feature::Port(p) = &fs[i] {
            if p.direction == PortDirection::In {
                let st = receive_stmt(dev.as_str(), p);
                let ghost sv = st@;
                out.push(st);
                pushed = true;
                assert(stmts_view(out@) =~= before + seq![sv]);
            }
        }
        if !pushed {
            assert(before + Seq::<SpecStatement>::empty() =~= before);
        }
        i = i + 1;
    }
    proof {
        assert(fs@.take(fs@.len() as int) =~= fs@);
    }
    let ghost mid = stmts_view(out@);
    let mut k: usize = 0;
    proof {
        assert(mid + spec_sends(c.types(), dev@, fs@.take(0)) =~= mid);
    }
    while k < fs.len()
        invariant
            k <= fs@.len(),
            stmts_view(out@) == mid + spec_sends(c.types(), dev@, fs@.take(k as int)),
        decreases fs@.len() - k,
    {
        proof {
            assert(fs@.take(k + 1).drop_last() =~= fs@.take(k as int));
            assert(fs@.take(k + 1).last() == fs@[k as int]);
        }
        let ghost before = stmts_view(out@);
        let mut pushed = false;
        if let Feature::Port(p) = &fs[k] {
            if p.direction == PortDirection::Out {
                send_stmts(c, dev.as_str(), p, &mut out);
                pushed = true;
            }
        }
        if !pushed {
            assert(before + Seq::<SpecStatement>::empty() =~= before);
        }
        k = k + 1;
    }
    proof {
        assert(fs@.take(fs@.len() as int) =~= fs@);
    }
    let el = mk_let(false, "elapsed", None, Some(mk_mcall0(mk_ident("start"), "elapsed")));
    let sleep_call = mk_mcall(
        mk_ns3("std", "thread", "sleep"),
        "",
        vec1_expr(mk_mcall(mk_ident("period"), "saturating_sub", vec1_expr(mk_ident("elapsed")))),
    );
    let sleep = Statement::Expr(
        Expr::If {
            condition: Box::new(mk_bin(mk_ident("elapsed"), "<", mk_ident("period"))),
            then_branch: mk_block(vec1_stmt(Statement::Expr(sleep_call))),
            else_branch: None,
        },
    );
    let ghost before = stmts_view(out@);
    let ghost (ev, sv) = (el@, sleep@);
    out.push(el);
    out.push(sleep);
    assert(stmts_view(out@) =~= before + seq![ev, sv]);
    out
}

/// The `run` method of a device (see `spec_device_run_method`).
pub fn create_device_run_method(temp_converter: &AadlConverter, comp: &ComponentType) -> (res: FunctionDef)
    ensures
        res@ == spec_device_run_method(temp_converter.types(), *comp),
{
    let no_features: Vec<Feature> = Vec::new();
    let fs: &Vec<Feature> = match &comp.features {
        FeatureClause::Items(fs) => fs,
        _ => &no_features,
    };
    proof {
        assert(fs@ =~= spec_clause_features(comp.features));
        lemma_views_empty();
    }
    let mut ty_path: Vec<String> = Vec::new();
    ty_path.push("std".to_string());
    ty_path.push("time".to_string());
    ty_path.push("Duration".to_string());
    assert(strings_view(ty_path@) =~= seq!["std"@, "time"@, "Duration"@]);
    let period = mk_let(
        false,
        "period",
        Some(Type::Path(ty_path)),
        Some(mk_call(mk_ns2("Duration", "from_millis"), vec1_expr(self_field("period_ms")))),
    );
    let mut stmts = vec1_stmt(period);
    if any_port(fs, PortDirection::Out) {
        let rng = mk_let(true, "rng", None, Some(mk_call(mk_ns2("rand", "thread_rng"), Vec::new())));
        let ghost before = stmts_view(stmts@);
        let ghost rv = rng@;
        stmts.push(rng);
        assert(stmts_view(stmts@) =~= before + seq![rv]);
    } else {
        assert(stmts_view(stmts@) =~= stmts_view(stmts@) + Seq::<SpecStatement>::empty());
    }
    let body = device_loop(temp_converter, comp, fs);
    let lp = Statement::Expr(Expr::Loop(Box::new(mk_block(body))));
    let ghost before = stmts_view(stmts@);
    let ghost lv = lp@;
    stmts.push(lp);
    assert(stmts_view(stmts@) =~= before + seq![lv]);
    let mut params: Vec<Param> = Vec::new();
    params.push(Param { name: "self".to_string(), ty: mk_named("Self") });
    assert(params_view(params@) =~= seq![SpecParam { name: "self"@, ty: SpecType::Named("Self"@) }]);
    FunctionDef {
        name: "run".to_string(),
        params,
        return_type: Type::Unit,
        body: mk_block(stmts),
        asyncness: false,
        vis: Visibility::Inherited,
        docs: one_doc("// Device execution entry point - periodically generates and sends data".to_string()),
        attrs: no_attrs(),
    }
}


// ---------------------------------------------------------------------------
// The device
// ---------------------------------------------------------------------------

/// `<device in lower case>Device`
pub open spec fn spec_device_name(comp: ComponentType) -> Seq<char> {
    lowercase(comp.identifier@) + "Device"@
}

/// The struct of a device: its feature fields, then `period_ms: u64`.
pub open spec fn spec_device_struct(c: AadlConverter, comp: ComponentType) -> SpecStructDef {
    SpecStructDef {
        name: spec_device_name(comp),
        fields: spec_feature_fields(c, spec_clause_features(comp.features), comp.identifier@).push(
            SpecField {
                name: "period_ms"@,
                ty: SpecType::Named("u64"@),
                docs: seq!["// 周期："@ + spec_decimal(spec_device_period(comp) as nat) + "ms"@],
                attrs: Seq::empty(),
            },
        ),
        properties: Seq::empty(),
        generics: Seq::empty(),
        derives: seq!["Debug"@],
        docs: seq!["// AADL Device: "@ + comp.identifier@],
        vis: Visibility::Public,
    }
}

/// `impl Device for <name>` with `new` and `run`.
pub open spec fn spec_device_impl(c: AadlConverter, comp: ComponentType) -> SpecImplBlock {
    SpecImplBlock {
        target: SpecType::Named(spec_device_name(comp)),
        generics: Seq::empty(),
        items: seq![
            SpecImplItem::Method(spec_device_new_method(comp, spec_device_period(comp))),
            SpecImplItem::Method(spec_device_run_method(c.types(), comp)),
        ],
        trait_impl: Some(SpecType::Named("Device"@)),
    }
}

fn device_struct(temp_converter: &AadlConverter, comp: &ComponentType, period_ms: u64) -> (res: StructDef)
    requires
        ports_convertible(*temp_converter, spec_clause_features(comp.features), comp.identifier@),
        period_ms == spec_device_period(*comp),
    ensures
        res@ == spec_device_struct(*temp_converter, *comp),
{
    let mut fields = temp_converter.convert_type_features(&comp.features, comp.identifier.clone());
    let digits = u64_to_decimal(period_ms);
    let period_field = Field {
        name: "period_ms".to_string(),
        ty: mk_named("u64"),
        docs: one_doc(concat3("// 周期：", digits.as_str(), "ms")),
        attrs: no_attrs(),
    };
    let ghost (fv, pv) = (fields_view(fields@), period_field@);
    fields.push(period_field);
    assert(fields_view(fields@) =~= fv.push(pv));
    let lower = to_lower(comp.identifier.as_str());
    let props: Vec<StruProperty> = Vec::new();
    assert(props_view(props@) =~= Seq::empty());
    let generics: Vec<String> = Vec::new();
    assert(strings_view(generics@) =~= Seq::<Seq<char>>::empty());
    StructDef {
        name: concat(lower.as_str(), "Device"),
        fields,
        properties: props,
        generics,
        derives: one_doc("Debug".to_string()),
        docs: one_doc(concat("// AADL Device: ", comp.identifier.as_str())),
        vis: Visibility::Public,
    }
}

fn device_impl(temp_converter: &AadlConverter, comp: &ComponentType, period_ms: u64) -> (res: ImplBlock)
    requires
        period_ms == spec_device_period(*comp),
    ensures
        res@ == spec_device_impl(*temp_converter, *comp),
{
    let items = vec2_impl_items(
        ImplItem::Method(create_device_new_method(comp, period_ms)),
        ImplItem::Method(create_device_run_method(temp_converter, comp)),
    );
    let generics: Vec<String> = Vec::new();
    assert(strings_view(generics@) =~= Seq::<Seq<char>>::empty());
    let lower = to_lower(comp.identifier.as_str());
    ImplBlock {
        target: Type::Named(concat(lower.as_str(), "Device")),
        generics,
        items,
        trait_impl: Some(mk_named("Device")),
    }
}

/// A device component type becomes its struct and its `impl Device` block.
pub fn convert_device_component(temp_converter: &AadlConverter, comp: &ComponentType) -> (res: Vec<Item>)
    requires
        ports_convertible(*temp_converter, spec_clause_features(comp.features), comp.identifier@),
    ensures
        items_view(res@) == seq![
            SpecItem::Struct(spec_device_struct(*temp_converter, *comp)),
            SpecItem::Impl(spec_device_impl(*temp_converter, *comp)),
        ],
{
    let period_ms = match extract_period(comp) {
        Some(p) => p,
        None => 2000,
    };
    let sd = device_struct(temp_converter, comp, period_ms);
    let ib = device_impl(temp_converter, comp, period_ms);
    vec2_items(Item::Struct(sd), Item::Impl(ib))
}

} // verus!
