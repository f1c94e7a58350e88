//! Process implementations: the threads that forward data between a
//! process's own ports and the ports of its subcomponents.

use vstd::prelude::*;
use crate::aadl_ast2rust_code::converter::{
    assoc_first, fanout_get, fanout_lookup, spec_channel_connection, spec_port_type, AadlConverter,
    direction_name, spec_direction_name,
};
use crate::ast::aadl_ast_cj::{
    AccessEndpoint, PortConnection, ComponentCategory, ComponentImplementation, Connection, ConnectionClause, Feature, FeatureClause,
    PortDirection, PortEndpoint, PortSpec, Subcomponent, SubcomponentClassifier, SubcomponentClause,
    UniqueComponentClassifierReference,
};
use crate::intermediate_ast::{
    group_view_laws, lemma_views_empty, mk_block, mk_ident, mk_int, mk_let, mk_mcall0, mk_mcall1,
    mk_ns3, mk_ns4, s_block, s_ident, s_int, s_let, s_mcall, stmts_view, Expr, PathType, SpecBlock,
    SpecExpr, SpecStatement, Statement, attrs_view, fields_view, types_view, Field, SpecAttribute,
    SpecField, SpecType, Type, lemma_types_view_index, exprs_view, lemma_exprs_view_concat, mk_call,
    mk_ns2, vec1_expr, vec1_stmt, lemma_stmts_view_concat, mk_mcall, BuilderMethod,
    SpecBuilderMethod, mk_builder_chain2, FunctionDef, ImplBlock, ImplItem, Item, Param, StructDef,
    SpecFunctionDef, SpecImplBlock, SpecImplItem, SpecItem, SpecParam, SpecStructDef, Visibility,
    impl_items_view, items_view, params_view, props_view, StruProperty, mk_named,
};
use crate::text::{
    concat, concat3, join_strings, lowercase, seq_join, str_eq, strings_view, to_lower, seq_lt,
    str_lt, lemma_seq_lt_irreflexive, lemma_seq_lt_transitive, lemma_seq_lt_total,
};

verus! {

broadcast use group_view_laws;

/// The (receiving field, sending field) pair that a port connection between
/// the process and one of its subcomponents needs, if it is such a connection:
/// from process port `p` the pair is (`p`, `pSend`), to process port `p` it
/// is (`pRece`, `p`), with `p` in lower case.
pub open spec fn spec_forwarding_task(source: PortEndpoint, destination: PortEndpoint) -> Option<
    (Seq<char>, Seq<char>),
> {
    match (source, destination) {
        (PortEndpoint::ComponentPort(src), PortEndpoint::SubcomponentPort { .. }) => Some(
            (lowercase(src@), lowercase(src@) + "Send"@),
        ),
        (PortEndpoint::SubcomponentPort { .. }, PortEndpoint::ComponentPort(dst)) => Some(
            (lowercase(dst@) + "Rece"@, lowercase(dst@)),
        ),
        _ => None,
    }
}

/// The forwarding pairs of the port connections, in order.
pub open spec fn spec_forwarding_tasks(conns: Seq<Connection>) -> Seq<(Seq<char>, Seq<char>)>
    decreases conns.len(),
{
    if conns.len() == 0 {
        Seq::empty()
    } else {
        spec_forwarding_tasks(conns.drop_last()) + match conns.last() {
            Connection::Port(pc) => match spec_forwarding_task(pc.source, pc.destination) {
                Some(t) => seq![t],
                None => Seq::empty(),
            },
            _ => Seq::empty(),
        }
    }
}

pub open spec fn spec_impl_forwarding_tasks(impl_: ComponentImplementation) -> Seq<(Seq<char>, Seq<char>)> {
    match impl_.connections {
        ConnectionClause::Items(conns) => spec_forwarding_tasks(conns@),
        _ => Seq::empty(),
    }
}

pub open spec fn string_pairs_view(v: Seq<(String, String)>) -> Seq<(Seq<char>, Seq<char>)> {
    v.map_values(|p: (String, String)| (p.0@, p.1@))
}

/// The forwarding pairs of a process implementation's port connections.
pub fn create_data_forwarding_tasks(impl_: &ComponentImplementation) -> (res: Vec<(String, String)>)
    ensures
        string_pairs_view(res@) == spec_impl_forwarding_tasks(*impl_),
{
    let mut forwarding_tasks: Vec<(String, String)> = Vec::new();
    assert(string_pairs_view(forwarding_tasks@) =~= Seq::<(Seq<char>, Seq<char>)>::empty());
    if let ConnectionClause::Items(connections) = &impl_.connections {
        let mut i: usize = 0;
        while i < connections.len()
            invariant
                i <= connections@.len(),
                string_pairs_view(forwarding_tasks@) == spec_forwarding_tasks(
                    connections@.take(i as int),
                ),
            decreases connections@.len() - i,
        {
            proof {
                assert(connections@.take(i + 1).drop_last() =~= connections@.take(i as int));
            }
            let ghost before = string_pairs_view(forwarding_tasks@);
            if let Connection::Port(port_conn) = &connections[i] {
                match (&port_conn.source, &port_conn.destination) {
                    (PortEndpoint::ComponentPort(src_port), PortEndpoint::SubcomponentPort { .. }) => {
                        let src_field = to_lower(src_port.as_str());
                        let dst_field = concat(src_field.as_str(), "Send");
                        forwarding_tasks.push((src_field, dst_field));
                        assert(string_pairs_view(forwarding_tasks@) =~= before.push(
                            (lowercase(src_port@), lowercase(src_port@) + "Send"@),
                        ));
                    },
                    (PortEndpoint::SubcomponentPort { .. }, PortEndpoint::ComponentPort(dst_port)) => {
                        let dst_field = to_lower(dst_port.as_str());
                        let src_field = concat(dst_field.as_str(), "Rece");
                        forwarding_tasks.push((src_field, dst_field));
                        assert(string_pairs_view(forwarding_tasks@) =~= before.push(
                            (lowercase(dst_port@) + "Rece"@, lowercase(dst_port@)),
                        ));
                    },
                    _ => {
                        assert(before + Seq::<(Seq<char>, Seq<char>)>::empty() =~= before);
                    },
                }
            } else {
                assert(before + Seq::<(Seq<char>, Seq<char>)>::empty() =~= before);
            }
            i = i + 1;
        }
        assert(connections@.take(connections@.len() as int) =~= connections@);
    }
    forwarding_tasks
}

/// `let _ = tx.send(msg);`
pub open spec fn spec_send_msg() -> SpecStatement {
    s_let(false, "_"@, None, Some(s_mcall(s_ident("tx"@), "send"@, seq![s_ident("msg"@)])))
}

/// `if let Some(tx) = &mut <dst> { let _ = tx.send(msg); }`
pub open spec fn spec_forward_to(dst: Seq<char>) -> SpecStatement {
    SpecStatement::Expr(
        SpecExpr::IfLet {
            pattern: "Some(tx)"@,
            value: Box::new(SpecExpr::Reference(Box::new(s_ident(dst)), true, false)),
            then_branch: s_block(seq![spec_send_msg()]),
            else_branch: None,
        },
    )
}

/// `if let Ok(msg) = <rx>.try_recv() { <forward> }`
pub open spec fn spec_receive_from(rx: Seq<char>, dst: Seq<char>) -> SpecStatement {
    SpecStatement::Expr(
        SpecExpr::IfLet {
            pattern: "Ok(msg)"@,
            value: Box::new(s_mcall(s_ident(rx), "try_recv"@, Seq::empty())),
            then_branch: s_block(seq![spec_forward_to(dst)]),
            else_branch: None,
        },
    )
}

/// `std::thread::sleep(std::time::Duration::from_millis(1));`
pub open spec fn spec_sleep_one_ms() -> SpecStatement {
    SpecStatement::Expr(
        s_mcall(
            SpecExpr::Path(seq!["std"@, "thread"@, "sleep"@], PathType::Namespace),
            ""@,
            seq![
                s_mcall(
                    SpecExpr::Path(
                        seq!["std"@, "time"@, "Duration"@, "from_millis"@],
                        PathType::Namespace,
                    ),
                    ""@,
                    seq![s_int(1)],
                ),
            ],
        ),
    )
}

/// The forwarding loop: receive from `rx`, send on `dst`, sleep a millisecond.
pub open spec fn spec_forwarding_thread(rx: Seq<char>, dst: Seq<char>) -> Seq<SpecStatement> {
    seq![
        SpecStatement::Expr(
            SpecExpr::Loop(Box::new(s_block(seq![spec_receive_from(rx, dst), spec_sleep_one_ms()]))),
        ),
    ]
}

fn one(s: Statement) -> (res: Vec<Statement>)
    ensures
        stmts_view(res@) == seq![s@],
{
    let mut v: Vec<Statement> = Vec::new();
    let ghost sv = s@;
    v.push(s);
    proof {
        lemma_views_empty();
        assert(v@ =~= Seq::<Statement>::empty().push(v@[0]));
        assert(Seq::<SpecStatement>::empty().push(sv) =~= seq![sv]);
    }
    v
}

fn two(a: Statement, b: Statement) -> (res: Vec<Statement>)
    ensures
        stmts_view(res@) == seq![a@, b@],
{
    let mut v: Vec<Statement> = Vec::new();
    let ghost av = a@;
    let ghost bv = b@;
    v.push(a);
    v.push(b);
    proof {
        lemma_views_empty();
        assert(v@ =~= Seq::<Statement>::empty().push(v@[0]).push(v@[1]));
        assert(Seq::<SpecStatement>::empty().push(av).push(bv) =~= seq![av, bv]);
    }
    v
}

fn forward_to(dst_field: &str) -> (res: Statement)
    ensures
        res@ == spec_forward_to(dst_field@),
{
    let send = mk_let(false, "_", None, Some(mk_mcall1(mk_ident("tx"), "send", mk_ident("msg"))));
    Statement::Expr(
        Expr::IfLet {
            pattern: "Some(tx)".to_string(),
            value: Box::new(Expr::Reference(Box::new(mk_ident(dst_field)), true, false)),
            then_branch: mk_block(one(send)),
            else_branch: None,
        },
    )
}

fn receive_from(rx_var_name: &str, dst_field: &str) -> (res: Statement)
    ensures
        res@ == spec_receive_from(rx_var_name@, dst_field@),
{
    Statement::Expr(
        Expr::IfLet {
            pattern: "Ok(msg)".to_string(),
            value: Box::new(mk_mcall0(mk_ident(rx_var_name), "try_recv")),
            then_branch: mk_block(one(forward_to(dst_field))),
            else_branch: None,
        },
    )
}

fn sleep_one_ms() -> (res: Statement)
    ensures
        res@ == spec_sleep_one_ms(),
{
    let millis = mk_mcall1(mk_ns4("std", "time", "Duration", "from_millis"), "", mk_int(1));
    Statement::Expr(mk_mcall1(mk_ns3("std", "thread", "sleep"), "", millis))
}

/// The loop of a forwarding thread: take each message that arrives on
/// `rx_var_name` and send it on `dst_field`, sleeping a millisecond between
/// polls.
pub fn create_single_forwarding_thread(rx_var_name: &str, dst_field: &str) -> (res: Vec<Statement>)
    ensures
        stmts_view(res@) == spec_forwarding_thread(rx_var_name@, dst_field@),
{
    let body = two(receive_from(rx_var_name, dst_field), sleep_one_ms());
    one(Statement::Expr(Expr::Loop(Box::new(mk_block(body)))))
}


// ---------------------------------------------------------------------------
// The fields of a process
// ---------------------------------------------------------------------------

/// The process's internal counterpart of port `id`: `<id>Rece` for an out
/// port, `<id>Send` otherwise, in lower case.
pub open spec fn spec_internal_port_name(id: Seq<char>, d: PortDirection) -> Seq<char> {
    match d {
        PortDirection::Out => lowercase(id) + "Rece"@,
        _ => lowercase(id) + "Send"@,
    }
}

/// `Option<<end><args>>`
pub open spec fn s_option_of(end: Seq<char>, args: Seq<SpecType>) -> SpecType {
    SpecType::Generic("Option"@, seq![SpecType::Generic(end, args)])
}

/// The type of the internal port that mirrors a port of type `t`: an in
/// port's receiving end becomes a sending one (`BcSender` where a process
/// broadcasts through it), an out port's sending end a receiving one, an
/// in out port's receiving end a `BcSender`; other ends stay.
pub open spec fn spec_internal_port_type(t: SpecType, d: PortDirection, broadcast: bool) -> SpecType {
    let (from, to, fallback) = match d {
        PortDirection::In => ("Receiver"@, if broadcast {
            "BcSender"@
        } else {
            "Sender"@
        }, "Sender"@),
        PortDirection::Out => ("Sender"@, "Receiver"@, "Receiver"@),
        PortDirection::InOut => ("Receiver"@, "BcSender"@, "BcSender"@),
    };
    match t {
        SpecType::Generic(on, inner) => if on == "Option"@ {
            match inner[0] {
                SpecType::Generic(cn, args) => s_option_of(if cn == from {
                    to
                } else {
                    cn
                }, args),
                other => s_option_of(fallback, seq![other]),
            }
        } else {
            s_option_of(fallback, seq![t])
        },
        _ => s_option_of(fallback, seq![t]),
    }
}

/// Some process broadcasts through port `pid` of the process type `proc`.
pub open spec fn thread_broadcast_from(c: AadlConverter, pid: Seq<char>, proc: Seq<char>) -> bool {
    exists|i: int| 0 <= i < c.thread_receivers().len() && #[trigger] c.thread_receivers()[i].0 == (pid, proc)
}

/// The two fields for a port of the process: the port itself and its
/// internal counterpart.
pub open spec fn spec_port_fields(c: AadlConverter, impl_: ComponentImplementation, port: PortSpec) -> Seq<
    SpecField,
> {
    let t = spec_port_type(c, port, Seq::empty());
    seq![
        SpecField {
            name: lowercase(port.identifier@),
            ty: t,
            docs: seq!["// Port: "@ + port.identifier@ + " "@ + spec_direction_name(port.direction)],
            attrs: Seq::empty(),
        },
        SpecField {
            name: spec_internal_port_name(port.identifier@, port.direction),
            ty: spec_internal_port_type(
                t,
                port.direction,
                thread_broadcast_from(c, port.identifier@, impl_.name.type_identifier@),
            ),
            docs: seq!["// 内部端口: "@ + port.identifier@ + " "@ + spec_direction_name(port.direction)],
            attrs: Seq::empty(),
        },
    ]
}

pub open spec fn spec_features_fields(c: AadlConverter, impl_: ComponentImplementation, fs: Seq<Feature>) -> Seq<
    SpecField,
>
    decreases fs.len(),
{
    if fs.len() == 0 {
        Seq::empty()
    } else {
        spec_features_fields(c, impl_, fs.drop_last()) + match fs.last() {
            Feature::Port(p) => spec_port_fields(c, impl_, p),
            _ => Seq::empty(),
        }
    }
}

/// The type a subcomponent implements, as its field names it.
pub open spec fn spec_sub_type_name(sub: Subcomponent) -> Seq<char> {
    match sub.classifier {
        SubcomponentClassifier::ClassifierReference(
            UniqueComponentClassifierReference::Implementation(u),
        ) => u.implementation_name.type_identifier@,
        _ => "UnsupportedComponent"@,
    }
}

/// The field for a subcomponent: a thread by its thread struct, shared data
/// by its `Shared` type.
pub open spec fn spec_sub_field(sub: Subcomponent) -> SpecField {
    let tn = spec_sub_type_name(sub);
    SpecField {
        name: lowercase(sub.identifier@),
        ty: if sub.category == ComponentCategory::Data {
            SpecType::Named(tn + "Shared"@)
        } else {
            SpecType::Named(lowercase(tn) + "Thread"@)
        },
        docs: seq![
            if sub.category == ComponentCategory::Thread {
                "// 子组件线程("@ + sub.identifier@ + " : thread "@ + tn + ")"@
            } else if sub.category == ComponentCategory::Data {
                "// 共享数据("@ + sub.identifier@ + " : data "@ + tn + ")"@
            } else {
                "// Subcomponent: "@ + sub.identifier@
            },
        ],
        attrs: Seq::empty(),
    }
}

/// The fields of a process struct: for each port of its type, the port and
/// its internal counterpart; then one per subcomponent.
pub open spec fn spec_process_fields(c: AadlConverter, impl_: ComponentImplementation) -> Seq<SpecField> {
    (match assoc_first(c.components(), impl_.name.type_identifier@) {
        Some(t) => match t.features {
            FeatureClause::Items(fs) => spec_features_fields(c, impl_, fs@),
            _ => Seq::empty(),
        },
        None => Seq::empty(),
    }) + match impl_.subcomponents {
        SubcomponentClause::Items(subs) => subs@.map_values(|s: Subcomponent| spec_sub_field(s)),
        _ => Seq::empty(),
    }
}

fn option_of(end: String, args: Vec<Type>) -> (res: Type)
    ensures
        res@ == s_option_of(end@, types_view(args@)),
{
    let inner = Type::Generic(end, args);
    let ghost iv = inner@;
    let mut outer: Vec<Type> = Vec::new();
    outer.push(inner);
    proof {
        lemma_views_empty();
        assert(outer@ =~= Seq::<Type>::empty().push(outer@[0]));
        assert(types_view(outer@) =~= seq![iv]);
    }
    Type::Generic("Option".to_string(), outer)
}

fn one_type(t: Type) -> (res: Vec<Type>)
    ensures
        types_view(res@) == seq![t@],
{
    let ghost tv = t@;
    let mut v: Vec<Type> = Vec::new();
    v.push(t);
    proof {
        lemma_views_empty();
        assert(v@ =~= Seq::<Type>::empty().push(v@[0]));
        assert(types_view(v@) =~= seq![tv]);
    }
    v
}

fn internal_port_type(t: Type, d: PortDirection, broadcast: bool) -> (res: Type)
    requires
        (t@ is Generic && t@->Generic_0 == "Option"@) ==> t@->Generic_1.len() > 0,
    ensures
        res@ == spec_internal_port_type(t@, d, broadcast),
{
    let (from, to, fallback): (&str, &str, &str) = match d {
        PortDirection::In => ("Receiver", if broadcast {
            "BcSender"
        } else {
            "Sender"
        }, "Sender"),
        PortDirection::Out => ("Sender", "Receiver", "Receiver"),
        PortDirection::InOut => ("Receiver", "BcSender", "BcSender"),
    };
    let ghost tv = t@;
    match t {
        Type::Generic(on, mut inner) => {
            proof {
                lemma_types_view_index(inner@);
            }
            if str_eq(on.as_str(), "Option") {
                let ghost first_view = inner@[0]@;
                let first = inner.remove(0);
                assert(first@ == first_view);
                assert(tv->Generic_1[0] == first_view);
                match first {
                    Type::Generic(cn, args) => {
                        if str_eq(cn.as_str(), from) {
                            option_of(to.to_string(), args)
                        } else {
                            option_of(cn, args)
                        }
                    },
                    other => option_of(fallback.to_string(), one_type(other)),
                }
            } else {
                let whole = Type::Generic(on, inner);
                assert(whole@ == tv);
                option_of(fallback.to_string(), one_type(whole))
            }
        },
        other => option_of(fallback.to_string(), one_type(other)),
    }
}

fn broadcast_from(c: &AadlConverter, pid: &str, proc: &str) -> (res: bool)
    ensures
        res == thread_broadcast_from(*c, pid@, proc@),
{
    let ghost tr = c.thread_receivers();
    let mut i: usize = 0;
    while i < c.thread_broadcast_receive.len()
        invariant
            i <= c.thread_broadcast_receive@.len(),
            tr == c.thread_receivers(),
            forall|j: int| 0 <= j < i ==> #[trigger] tr[j].0 != (pid@, proc@),
        decreases c.thread_broadcast_receive@.len() - i,
    {
        let k = &c.thread_broadcast_receive[i].0;
        if str_eq(k.0.as_str(), pid) && str_eq(k.1.as_str(), proc) {
            assert(tr[i as int].0 == (pid@, proc@));
            return true;
        }
        i = i + 1;
    }
    false
}

fn one_doc(s: String) -> (res: Vec<String>)
    ensures
        strings_view(res@) == seq![s@],
{
    let ghost sv = s@;
    let mut v: Vec<String> = Vec::new();
    v.push(s);
    proof {
        assert(strings_view(v@) =~= seq![sv]);
    }
    v
}

fn port_fields(c: &AadlConverter, impl_: &ComponentImplementation, port: &PortSpec, out: &mut Vec<Field>)
    ensures
        fields_view(final(out)@) == fields_view(old(out)@) + spec_port_fields(*c, *impl_, *port),
{
    let t = c.convert_port_type(port, String::new());
    let ghost tv = t@;
    let dn = direction_name(port.direction);
    let mut d1 = concat("// Port: ", port.identifier.as_str());
    d1.append(" ");
    d1.append(dn);
    let mut d2 = concat("// 内部端口: ", port.identifier.as_str());
    d2.append(" ");
    d2.append(dn);
    let t2 = c.convert_port_type(port, String::new());
    let bc = broadcast_from(c, port.identifier.as_str(), impl_.name.type_identifier.as_str());
    let internal = internal_port_type(t2, port.direction, bc);
    let lower = to_lower(port.identifier.as_str());
    let internal_name = match port.direction {
        PortDirection::Out => concat(lower.as_str(), "Rece"),
        _ => concat(lower.as_str(), "Send"),
    };
    let f1 = Field { name: to_lower(port.identifier.as_str()), ty: t, docs: one_doc(d1), attrs: Vec::new() };
    let f2 = Field { name: internal_name, ty: internal, docs: one_doc(d2), attrs: Vec::new() };
    let ghost (v1, v2) = (f1@, f2@);
    proof {
        assert(attrs_view(f1.attrs@) =~= Seq::<SpecAttribute>::empty());
        assert(attrs_view(f2.attrs@) =~= Seq::<SpecAttribute>::empty());
        assert(seq![v1, v2] =~= spec_port_fields(*c, *impl_, *port));
    }
    let ghost before = fields_view(out@);
    out.push(f1);
    out.push(f2);
    proof {
        assert(fields_view(out@) =~= before + seq![v1, v2]);
    }
}

fn sub_field(sub: &Subcomponent) -> (res: Field)
    ensures
        res@ == spec_sub_field(*sub),
{
    let tn: String = match &sub.classifier {
        SubcomponentClassifier::ClassifierReference(
            UniqueComponentClassifierReference::Implementation(u),
        ) => u.implementation_name.type_identifier.clone(),
        _ => "UnsupportedComponent".to_string(),
    };
    let is_data = match sub.category {
        ComponentCategory::Data => true,
        _ => false,
    };
    let is_thread = match sub.category {
        ComponentCategory::Thread => true,
        _ => false,
    };
    let ty = if is_data {
        Type::Named(concat(tn.as_str(), "Shared"))
    } else {
        let l = to_lower(tn.as_str());
        Type::Named(concat(l.as_str(), "Thread"))
    };
    let doc = if is_thread {
        let mut d = concat3("// 子组件线程(", sub.identifier.as_str(), " : thread ");
        d.append(tn.as_str());
        d.append(")");
        d
    } else if is_data {
        let mut d = concat3("// 共享数据(", sub.identifier.as_str(), " : data ");
        d.append(tn.as_str());
        d.append(")");
        d
    } else {
        concat("// Subcomponent: ", sub.identifier.as_str())
    };
    let f = Field { name: to_lower(sub.identifier.as_str()), ty, docs: one_doc(doc), attrs: Vec::new() };
    proof {
        assert(attrs_view(f.attrs@) =~= Seq::<SpecAttribute>::empty());
    }
    f
}

/// The fields of a process struct (see `spec_process_fields`).
pub fn get_process_fields(temp_converter: &AadlConverter, impl_: &ComponentImplementation) -> (res: Vec<
    Field,
>)
    ensures
        fields_view(res@) == spec_process_fields(*temp_converter, *impl_),
{
    let mut fields: Vec<Field> = Vec::new();
    proof {
        assert(fields_view(fields@) =~= Seq::<SpecField>::empty());
    }
    if let Some(comp_type) = temp_converter.get_component_type(impl_) {
        if let FeatureClause::Items(features) = &comp_type.features {
            let mut i: usize = 0;
            proof {
                assert(features@.take(0) =~= Seq::<Feature>::empty());
            }
            while i < features.len()
                invariant
                    i <= features@.len(),
                    fields_view(fields@) == spec_features_fields(*temp_converter, *impl_, features@.take(i as int)),
                decreases features@.len() - i,
            {
                proof {
                    assert(features@.take(i + 1).drop_last() =~= features@.take(i as int));
                    assert(features@.take(i + 1).last() == features@[i as int]);
                }
                let ghost before = fields_view(fields@);
                if let Feature::Port(port) = &features[i] {
                    port_fields(temp_converter, impl_, port, &mut fields);
                } else {
                    proof {
                        assert(before + Seq::<SpecField>::empty() =~= before);
                    }
                }
                i = i + 1;
            }
            proof {
                assert(features@.take(features@.len() as int) =~= features@);
            }
        }
    }
    let ghost head = fields_view(fields@);
    proof {
        assert(head == match assoc_first(temp_converter.components(), impl_.name.type_identifier@) {
            Some(t) => match t.features {
                FeatureClause::Items(fs) => spec_features_fields(*temp_converter, *impl_, fs@),
                _ => Seq::<SpecField>::empty(),
            },
            None => Seq::<SpecField>::empty(),
        });
    }
    if let SubcomponentClause::Items(subcomponents) = &impl_.subcomponents {
        let mut k: usize = 0;
        proof {
            assert(head + subcomponents@.take(0).map_values(|s: Subcomponent| spec_sub_field(s)) =~= head);
        }
        while k < subcomponents.len()
            invariant
                k <= subcomponents@.len(),
                fields_view(fields@) == head + subcomponents@.take(k as int).map_values(
                    |s: Subcomponent| spec_sub_field(s),
                ),
            decreases subcomponents@.len() - k,
        {
            let f = sub_field(&subcomponents[k]);
            let ghost fv = f@;
            let ghost before = fields@;
            fields.push(f);
            proof {
                assert(fields_view(fields@) =~= fields_view(before).push(fv));
                assert(subcomponents@.take(k + 1).map_values(|s: Subcomponent| spec_sub_field(s))
                    =~= subcomponents@.take(k as int).map_values(|s: Subcomponent| spec_sub_field(s)).push(fv));
            }
            k = k + 1;
        }
        proof {
            assert(subcomponents@.take(subcomponents@.len() as int) =~= subcomponents@);
        }
    } else {
        proof {
            assert(head + Seq::<SpecField>::empty() =~= head);
        }
    }
    fields
}


// ---------------------------------------------------------------------------
// The constructor of a process
// ---------------------------------------------------------------------------

/// `Arc::clone(&<v>)`
pub open spec fn s_arc_clone(v: Seq<char>) -> SpecExpr {
    SpecExpr::MethodCall(
        Box::new(SpecExpr::Path(seq!["Arc"@, "clone"@], PathType::Namespace)),
        ""@,
        seq![SpecExpr::Reference(Box::new(s_ident(v)), true, false)],
    )
}

/// The shared data a data access connection hands to the thread `k` (in
/// lower case), if it is such a connection.
pub open spec fn spec_access_arg(c: Connection, k: Seq<char>) -> Seq<SpecExpr> {
    match c {
        Connection::Access(a) => match (a.source, a.destination) {
            (AccessEndpoint::ComponentAccess(d), AccessEndpoint::SubcomponentAccess { subcomponent, .. }) => if lowercase(subcomponent@) == k {
                seq![s_arc_clone(lowercase(d@))]
            } else {
                Seq::empty()
            },
            _ => Seq::empty(),
        },
        _ => Seq::empty(),
    }
}

/// The shared data handed to the thread `k`, in the order of the connections.
pub open spec fn spec_extra_args(conns: Seq<Connection>, k: Seq<char>) -> Seq<SpecExpr>
    decreases conns.len(),
{
    if conns.len() == 0 {
        Seq::empty()
    } else {
        spec_extra_args(conns.drop_last(), k) + spec_access_arg(conns.last(), k)
    }
}

pub open spec fn spec_impl_conns(impl_: ComponentImplementation) -> Seq<Connection> {
    match impl_.connections {
        ConnectionClause::Items(cs) => cs@,
        _ => Seq::empty(),
    }
}

/// The type a subcomponent's classifier names.
pub open spec fn spec_classifier_name(sub: Subcomponent) -> Seq<char> {
    match sub.classifier {
        SubcomponentClassifier::ClassifierReference(UniqueComponentClassifierReference::Type(r)) => r.implementation_name.type_identifier@,
        SubcomponentClassifier::ClassifierReference(
            UniqueComponentClassifierReference::Implementation(r),
        ) => r.implementation_name.type_identifier@,
        SubcomponentClassifier::Prototype(_) => "UnsupportedPrototype"@,
    }
}

/// `<lowercase tn>Thread::new(cpu_id, <args>)`
pub open spec fn s_thread_new(tn: Seq<char>, args: Seq<SpecExpr>) -> SpecExpr {
    SpecExpr::Call(
        Box::new(SpecExpr::Path(seq![lowercase(tn) + "Thread"@, "new"@], PathType::Namespace)),
        seq![s_ident("cpu_id"@)] + args,
    )
}

/// The statement creating a subcomponent: shared data in an `Arc<Mutex<..>>`,
/// a thread with its CPU and the shared data its access connections give it.
pub open spec fn spec_sub_init(sub: Subcomponent, conns: Seq<Connection>) -> SpecStatement {
    let tn = spec_classifier_name(sub);
    let v = lowercase(sub.identifier@);
    if sub.category == ComponentCategory::Data {
        s_let(
            false,
            v,
            Some(SpecType::Named(tn + "Shared"@)),
            Some(
                SpecExpr::Call(
                    Box::new(SpecExpr::Path(seq!["Arc"@, "new"@], PathType::Namespace)),
                    seq![
                        SpecExpr::Call(
                            Box::new(SpecExpr::Path(seq!["Mutex"@, "new"@], PathType::Namespace)),
                            seq![s_int(0)],
                        ),
                    ],
                ),
            ),
        )
    } else if sub.category == ComponentCategory::Thread {
        s_let(
            true,
            v,
            Some(SpecType::Named(lowercase(tn) + "Thread"@)),
            Some(s_thread_new(tn, spec_extra_args(conns, v))),
        )
    } else {
        s_let(
            false,
            "mut "@ + v,
            Some(SpecType::Named(lowercase(tn) + "Thread"@)),
            Some(s_thread_new(tn, Seq::empty())),
        )
    }
}

/// The creation of the subcomponents: shared data first, then threads.
pub open spec fn spec_sub_inits(subs: Seq<Subcomponent>, conns: Seq<Connection>) -> Seq<SpecStatement> {
    spec_inits_where(subs, conns, true) + spec_inits_where(subs, conns, false)
}

/// The creation statements of the subcomponents that are (`data`) or are
/// not shared data, in order.
pub open spec fn spec_inits_where(subs: Seq<Subcomponent>, conns: Seq<Connection>, data: bool) -> Seq<
    SpecStatement,
>
    decreases subs.len(),
{
    if subs.len() == 0 {
        Seq::empty()
    } else {
        spec_inits_where(subs.drop_last(), conns, data) + if (subs.last().category
            == ComponentCategory::Data) == data {
            seq![spec_sub_init(subs.last(), conns)]
        } else {
            Seq::empty()
        }
    }
}

/// The ports of the implementation's component type.
pub open spec fn spec_type_ports(c: AadlConverter, impl_: ComponentImplementation) -> Seq<Feature> {
    match assoc_first(c.components(), impl_.name.type_identifier@) {
        Some(t) => match t.features {
            FeatureClause::Items(fs) => fs@,
            _ => Seq::empty(),
        },
        None => Seq::empty(),
    }
}

/// `let mut <internal port> = None;` for each port.
pub open spec fn spec_port_lets(fs: Seq<Feature>) -> Seq<SpecStatement>
    decreases fs.len(),
{
    if fs.len() == 0 {
        Seq::empty()
    } else {
        spec_port_lets(fs.drop_last()) + match fs.last() {
            Feature::Port(p) => seq![
                s_let(
                    true,
                    spec_internal_port_name(p.identifier@, p.direction),
                    None,
                    Some(s_ident("None"@)),
                ),
            ],
            _ => Seq::empty(),
        }
    }
}

/// The process ports through which the process broadcasts to its threads.
pub open spec fn spec_bc_port(c: AadlConverter, pc: PortConnection, tid: Seq<char>) -> Option<Seq<char>> {
    match pc.source {
        PortEndpoint::ComponentPort(pp) => if fanout_get(c.thread_receivers(), (pp@, tid)) is Some {
            Some(pp@)
        } else {
            None
        },
        _ => None,
    }
}

/// The channels of the port connections; a broadcast from a process port
/// is made once, for its first connection.
pub open spec fn spec_conn_channels(c: AadlConverter, conns: Seq<Connection>, tid: Seq<char>) -> (Seq<
    Seq<char>,
>, Seq<SpecStatement>)
    decreases conns.len(),
{
    if conns.len() == 0 {
        (Seq::empty(), Seq::empty())
    } else {
        let st = spec_conn_channels(c, conns.drop_last(), tid);
        match conns.last() {
            Connection::Port(pc) => match spec_bc_port(c, pc, tid) {
                Some(pp) => if st.0.contains(pp) {
                    st
                } else {
                    (st.0.push(pp), st.1 + spec_channel_connection(c, pc, tid))
                },
                None => (st.0, st.1 + spec_channel_connection(c, pc, tid)),
            },
            _ => st,
        }
    }
}

/// The names the returned struct literal lists for each port.
pub open spec fn spec_port_inits(fs: Seq<Feature>) -> Seq<Seq<char>>
    decreases fs.len(),
{
    if fs.len() == 0 {
        Seq::empty()
    } else {
        spec_port_inits(fs.drop_last()) + match fs.last() {
            Feature::Port(p) => seq![
                lowercase(p.identifier@) + ": None"@,
                spec_internal_port_name(p.identifier@, p.direction),
            ],
            _ => Seq::empty(),
        }
    }
}

/// `return Self { <ports>, <subcomponents>, cpu_id }  //显式return`
pub open spec fn spec_return_self(fs: Seq<Feature>, subs: Seq<Subcomponent>) -> SpecStatement {
    SpecStatement::Expr(
        s_ident(
            "return Self { "@ + seq_join(
                spec_port_inits(fs) + subs.map_values(|s: Subcomponent| lowercase(s.identifier@))
                    + seq!["cpu_id"@],
                ", "@,
            ) + " }  //显式return"@,
        ),
    )
}

pub open spec fn spec_impl_subs(impl_: ComponentImplementation) -> Seq<Subcomponent> {
    match impl_.subcomponents {
        SubcomponentClause::Items(subs) => subs@,
        _ => Seq::empty(),
    }
}

/// The body of a process's `new`: its subcomponents, its internal ports,
/// the channels of its connections, and the struct it returns.
pub open spec fn spec_process_new_body(c: AadlConverter, impl_: ComponentImplementation) -> Seq<SpecStatement> {
    let conns = spec_impl_conns(impl_);
    let fs = spec_type_ports(c, impl_);
    spec_sub_inits(spec_impl_subs(impl_), conns) + spec_port_lets(fs) + spec_conn_channels(
        c,
        conns,
        impl_.name.type_identifier@,
    ).1 + seq![spec_return_self(fs, spec_impl_subs(impl_))]
}


fn arc_clone(v: String) -> (res: Expr)
    ensures
        res@ == s_arc_clone(v@),
{
    let ghost vv = v@;
    let inner = mk_ident(v.as_str());
    let r = Expr::Reference(Box::new(inner), true, false);
    assert(r@ == SpecExpr::Reference(Box::new(s_ident(vv)), true, false));
    mk_mcall(mk_ns2("Arc", "clone"), "", vec1_expr(r))
}

fn extra_args(conns: &Vec<Connection>, k: &str) -> (res: Vec<Expr>)
    ensures
        exprs_view(res@) == spec_extra_args(conns@, k@),
{
    let mut args: Vec<Expr> = Vec::new();
    let mut i: usize = 0;
    proof {
        lemma_views_empty();
        assert(conns@.take(0) =~= Seq::<Connection>::empty());
    }
    while i < conns.len()
        invariant
            i <= conns@.len(),
            exprs_view(args@) == spec_extra_args(conns@.take(i as int), k@),
        decreases conns@.len() - i,
    {
        proof {
            assert(conns@.take(i + 1).drop_last() =~= conns@.take(i as int));
            assert(conns@.take(i + 1).last() == conns@[i as int]);
        }
        let ghost before = exprs_view(args@);
        let mut pushed = false;
        if let Connection::Access(access_conn) = &conns[i] {
            if let AccessEndpoint::ComponentAccess(data_name) = &access_conn.source {
                if let AccessEndpoint::SubcomponentAccess { subcomponent, .. } = &access_conn.destination {
                    let thread_key = to_lower(subcomponent.as_str());
                    if str_eq(thread_key.as_str(), k) {
                        let e = arc_clone(to_lower(data_name.as_str()));
                        let ghost ev = e@;
                        args.push(e);
                        pushed = true;
                        proof {
                            assert(exprs_view(args@) =~= before + seq![ev]);
                        }
                    }
                }
            }
        }
        proof {
            if !pushed {
                assert(spec_access_arg(conns@[i as int], k@) =~= Seq::<SpecExpr>::empty());
                assert(before + Seq::<SpecExpr>::empty() =~= before);
            }
        }
        i = i + 1;
    }
    proof {
        assert(conns@.take(conns@.len() as int) =~= conns@);
    }
    args
}

fn classifier_name(sub: &Subcomponent) -> (res: String)
    ensures
        res@ == spec_classifier_name(*sub),
{
    match &sub.classifier {
        SubcomponentClassifier::ClassifierReference(UniqueComponentClassifierReference::Type(r)) => r.implementation_name.type_identifier.clone(),
        SubcomponentClassifier::ClassifierReference(
            UniqueComponentClassifierReference::Implementation(r),
        ) => r.implementation_name.type_identifier.clone(),
        SubcomponentClassifier::Prototype(_) => "UnsupportedPrototype".to_string(),
    }
}

fn thread_new(tn: &str, args: Vec<Expr>) -> (res: Expr)
    ensures
        res@ == s_thread_new(tn@, exprs_view(args@)),
{
    let l = to_lower(tn);
    let struct_name = concat(l.as_str(), "Thread");
    let mut all = vec1_expr(mk_ident("cpu_id"));
    let ghost pre = all@;
    let ghost av = args@;
    let mut args = args;
    all.append(&mut args);
    proof {
        lemma_exprs_view_concat(pre, av);
    }
    mk_call(mk_ns2(struct_name.as_str(), "new"), all)
}


fn sub_init(sub: &Subcomponent, conns: &Vec<Connection>) -> (res: Statement)
    ensures
        res@ == spec_sub_init(*sub, conns@),
{
    let tn = classifier_name(sub);
    let v = to_lower(sub.identifier.as_str());
    let is_data = match sub.category {
        ComponentCategory::Data => true,
        _ => false,
    };
    let is_thread = match sub.category {
        ComponentCategory::Thread => true,
        _ => false,
    };
    if is_data {
        let inner = mk_call(mk_ns2("Mutex", "new"), vec1_expr(mk_int(0)));
        let init = mk_call(mk_ns2("Arc", "new"), vec1_expr(inner));
        mk_let(false, v.as_str(), Some(Type::Named(concat(tn.as_str(), "Shared"))), Some(init))
    } else {
        let l = to_lower(tn.as_str());
        let ty = Type::Named(concat(l.as_str(), "Thread"));
        if is_thread {
            let args = extra_args(conns, v.as_str());
            mk_let(true, v.as_str(), Some(ty), Some(thread_new(tn.as_str(), args)))
        } else {
            proof {
                lemma_views_empty();
            }
            let name = concat("mut ", v.as_str());
            mk_let(false, name.as_str(), Some(ty), Some(thread_new(tn.as_str(), Vec::new())))
        }
    }
}

fn sub_inits(subs: &Vec<Subcomponent>, conns: &Vec<Connection>) -> (res: Vec<Statement>)
    ensures
        stmts_view(res@) == spec_sub_inits(subs@, conns@),
{
    let mut data_inits: Vec<Statement> = Vec::new();
    let mut thread_inits: Vec<Statement> = Vec::new();
    let mut i: usize = 0;
    proof {
        lemma_views_empty();
        assert(subs@.take(0) =~= Seq::<Subcomponent>::empty());
    }
    while i < subs.len()
        invariant
            i <= subs@.len(),
            stmts_view(data_inits@) == spec_inits_where(subs@.take(i as int), conns@, true),
            stmts_view(thread_inits@) == spec_inits_where(subs@.take(i as int), conns@, false),
        decreases subs@.len() - i,
    {
        proof {
            assert(subs@.take(i + 1).drop_last() =~= subs@.take(i as int));
            assert(subs@.take(i + 1).last() == subs@[i as int]);
        }
        let st = sub_init(&subs[i], conns);
        let ghost stv = st@;
        let d = match subs[i].category {
            ComponentCategory::Data => true,
            _ => false,
        };
        let ghost bd = stmts_view(data_inits@);
        let ghost bt = stmts_view(thread_inits@);
        if d {
            data_inits.push(st);
            proof {
                assert(stmts_view(data_inits@) =~= bd + seq![stv]);
                assert(bt =~= bt + Seq::<SpecStatement>::empty());
            }
        } else {
            thread_inits.push(st);
            proof {
                assert(stmts_view(thread_inits@) =~= bt + seq![stv]);
                assert(bd =~= bd + Seq::<SpecStatement>::empty());
            }
        }
        i = i + 1;
    }
    proof {
        assert(subs@.take(subs@.len() as int) =~= subs@);
    }
    let ghost dv = data_inits@;
    let ghost tv = thread_inits@;
    data_inits.append(&mut thread_inits);
    proof {
        lemma_stmts_view_concat(dv, tv);
    }
    data_inits
}

fn port_lets(fs: &Vec<Feature>, out: &mut Vec<Statement>)
    ensures
        stmts_view(final(out)@) == stmts_view(old(out)@) + spec_port_lets(fs@),
{
    let ghost start = stmts_view(out@);
    let mut i: usize = 0;
    proof {
        assert(fs@.take(0) =~= Seq::<Feature>::empty());
        assert(start + Seq::<SpecStatement>::empty() =~= start);
    }
    while i < fs.len()
        invariant
            i <= fs@.len(),
            stmts_view(out@) == start + spec_port_lets(fs@.take(i as int)),
        decreases fs@.len() - i,
    {
        proof {
            assert(fs@.take(i + 1).drop_last() =~= fs@.take(i as int));
            assert(fs@.take(i + 1).last() == fs@[i as int]);
        }
        let ghost before = stmts_view(out@);
        if let Feature::Port(port) = &fs[i] {
            let lower = to_lower(port.identifier.as_str());
            let name = match port.direction {
                PortDirection::Out => concat(lower.as_str(), "Rece"),
                _ => concat(lower.as_str(), "Send"),
            };
            let st = mk_let(true, name.as_str(), None, Some(mk_ident("None")));
            let ghost stv = st@;
            out.push(st);
            proof {
                assert(stmts_view(out@) =~= before + seq![stv]);
            }
        } else {
            proof {
                assert(before + Seq::<SpecStatement>::empty() =~= before);
            }
        }
        i = i + 1;
    }
    proof {
        assert(fs@.take(fs@.len() as int) =~= fs@);
    }
}

fn bc_port(c: &AadlConverter, pc: &PortConnection, tid: &str) -> (res: Option<String>)
    ensures
        match spec_bc_port(*c, *pc, tid@) {
            Some(p) => res matches Some(r) && r@ == p,
            None => res is None,
        },
{
    match &pc.source {
        PortEndpoint::ComponentPort(pp) => {
            if fanout_lookup(&c.thread_broadcast_receive, pp.as_str(), tid).is_some() {
                Some(pp.clone())
            } else {
                None
            }
        },
        _ => None,
    }
}

fn conn_channels(c: &AadlConverter, conns: &Vec<Connection>, tid: &String, out: &mut Vec<Statement>)
    ensures
        stmts_view(final(out)@) == stmts_view(old(out)@) + spec_conn_channels(*c, conns@, tid@).1,
{
    let ghost start = stmts_view(out@);
    let mut processed: Vec<String> = Vec::new();
    let mut i: usize = 0;
    proof {
        assert(conns@.take(0) =~= Seq::<Connection>::empty());
        assert(strings_view(processed@) =~= Seq::<Seq<char>>::empty());
        assert(start + Seq::<SpecStatement>::empty() =~= start);
    }
    while i < conns.len()
        invariant
            i <= conns@.len(),
            strings_view(processed@) == spec_conn_channels(*c, conns@.take(i as int), tid@).0,
            stmts_view(out@) == start + spec_conn_channels(*c, conns@.take(i as int), tid@).1,
        decreases conns@.len() - i,
    {
        proof {
            assert(conns@.take(i + 1).drop_last() =~= conns@.take(i as int));
            assert(conns@.take(i + 1).last() == conns@[i as int]);
        }
        let ghost st0 = spec_conn_channels(*c, conns@.take(i as int), tid@);
        let ghost before = stmts_view(out@);
        if let Connection::Port(port_conn) = &conns[i] {
            let bp = bc_port(c, port_conn, tid.as_str());
            let mut skip = false;
            match bp {
                Some(pp) => {
                    if seq_contains_str(&processed, pp.as_str()) {
                        skip = true;
                    } else {
                        let ghost pv = strings_view(processed@);
                        let ghost ppv = pp@;
                        processed.push(pp);
                        proof {
                            assert(strings_view(processed@) =~= pv.push(ppv));
                        }
                    }
                },
                None => {},
            }
            if !skip {
                let mut ch = c.create_channel_connection(port_conn, tid.clone());
                let ghost pre = out@;
                let ghost chs = ch@;
                out.append(&mut ch);
                proof {
                    lemma_stmts_view_concat(pre, chs);
                    assert(stmts_view(out@) =~= start + spec_conn_channels(*c, conns@.take(i + 1), tid@).1);
                }
            }
        }
        i = i + 1;
    }
    proof {
        assert(conns@.take(conns@.len() as int) =~= conns@);
    }
}

fn seq_contains_str(v: &Vec<String>, x: &str) -> (res: bool)
    ensures
        res == strings_view(v@).contains(x@),
{
    let mut i: usize = 0;
    while i < v.len()
        invariant
            i <= v@.len(),
            forall|j: int| 0 <= j < i ==> #[trigger] strings_view(v@)[j] != x@,
        decreases v@.len() - i,
    {
        if str_eq(v[i].as_str(), x) {
            assert(strings_view(v@)[i as int] == x@);
            return true;
        }
        i = i + 1;
    }
    false
}

fn port_inits(fs: &Vec<Feature>, out: &mut Vec<String>)
    ensures
        strings_view(final(out)@) == strings_view(old(out)@) + spec_port_inits(fs@),
{
    let ghost start = strings_view(out@);
    let mut i: usize = 0;
    proof {
        assert(fs@.take(0) =~= Seq::<Feature>::empty());
        assert(start + Seq::<Seq<char>>::empty() =~= start);
    }
    while i < fs.len()
        invariant
            i <= fs@.len(),
            strings_view(out@) == start + spec_port_inits(fs@.take(i as int)),
        decreases fs@.len() - i,
    {
        proof {
            assert(fs@.take(i + 1).drop_last() =~= fs@.take(i as int));
            assert(fs@.take(i + 1).last() == fs@[i as int]);
        }
        let ghost before = strings_view(out@);
        if let Feature::Port(port) = &fs[i] {
            let lower = to_lower(port.identifier.as_str());
            let a = concat(lower.as_str(), ": None");
            let b = match port.direction {
                PortDirection::Out => concat(lower.as_str(), "Rece"),
                _ => concat(lower.as_str(), "Send"),
            };
            let ghost (av, bv) = (a@, b@);
            out.push(a);
            out.push(b);
            proof {
                assert(strings_view(out@) =~= before + seq![av, bv]);
            }
        } else {
            proof {
                assert(before + Seq::<Seq<char>>::empty() =~= before);
            }
        }
        i = i + 1;
    }
    proof {
        assert(fs@.take(fs@.len() as int) =~= fs@);
    }
}

fn return_self(fs: &Vec<Feature>, subs: &Vec<Subcomponent>) -> (res: Statement)
    ensures
        res@ == spec_return_self(fs@, subs@),
{
    let mut names: Vec<String> = Vec::new();
    proof {
        assert(strings_view(names@) =~= Seq::<Seq<char>>::empty());
    }
    port_inits(fs, &mut names);
    let ghost head = strings_view(names@);
    let mut k: usize = 0;
    proof {
        assert(head + subs@.take(0).map_values(|s: Subcomponent| lowercase(s.identifier@)) =~= head);
    }
    while k < subs.len()
        invariant
            k <= subs@.len(),
            strings_view(names@) == head + subs@.take(k as int).map_values(|s: Subcomponent| lowercase(s.identifier@)),
        decreases subs@.len() - k,
    {
        let n = to_lower(subs[k].identifier.as_str());
        let ghost nv = n@;
        let ghost before = strings_view(names@);
        names.push(n);
        proof {
            assert(strings_view(names@) =~= before.push(nv));
            assert(subs@.take(k + 1).map_values(|s: Subcomponent| lowercase(s.identifier@))
                =~= subs@.take(k as int).map_values(|s: Subcomponent| lowercase(s.identifier@)).push(nv));
        }
        k = k + 1;
    }
    proof {
        assert(subs@.take(subs@.len() as int) =~= subs@);
    }
    let ghost mid = strings_view(names@);
    names.push("cpu_id".to_string());
    proof {
        assert(strings_view(names@) =~= mid + seq!["cpu_id"@]);
    }
    let joined = join_strings(&names, ", ");
    let text = concat3("return Self { ", joined.as_str(), " }  //显式return");
    Statement::Expr(mk_ident(text.as_str()))
}

/// The body of a process's `new` (see `spec_process_new_body`).
pub fn create_process_new_body(temp_converter: &AadlConverter, impl_: &ComponentImplementation) -> (res: Vec<
    Statement,
>)
    ensures
        stmts_view(res@) == spec_process_new_body(*temp_converter, *impl_),
{
    let no_conns: Vec<Connection> = Vec::new();
    let conns: &Vec<Connection> = match &impl_.connections {
        ConnectionClause::Items(cs) => cs,
        _ => &no_conns,
    };
    proof {
        assert(conns@ =~= spec_impl_conns(*impl_));
    }
    let no_subs: Vec<Subcomponent> = Vec::new();
    let subs: &Vec<Subcomponent> = match &impl_.subcomponents {
        SubcomponentClause::Items(ss) => ss,
        _ => &no_subs,
    };
    proof {
        assert(subs@ =~= spec_impl_subs(*impl_));
    }
    let mut stmts = sub_inits(subs, conns);
    let no_features: Vec<Feature> = Vec::new();
    let fs: &Vec<Feature> = match temp_converter.get_component_type(impl_) {
        Some(t) => match &t.features {
            FeatureClause::Items(fs) => fs,
            _ => &no_features,
        },
        None => &no_features,
    };
    proof {
        assert(fs@ =~= spec_type_ports(*temp_converter, *impl_));
    }
    port_lets(fs, &mut stmts);
    conn_channels(temp_converter, conns, &impl_.name.type_identifier, &mut stmts);
    let r = return_self(fs, subs);
    let ghost rv = r@;
    let ghost before = stmts_view(stmts@);
    stmts.push(r);
    proof {
        assert(stmts_view(stmts@) =~= before + seq![rv]);
    }
    stmts
}


// ---------------------------------------------------------------------------
// The order of the forwarding threads
// ---------------------------------------------------------------------------

/// The order in which a pair of strings sorts: by its first string, then by
/// its second.
pub open spec fn pair_lt(p: (Seq<char>, Seq<char>), q: (Seq<char>, Seq<char>)) -> bool {
    seq_lt(p.0, q.0) || (p.0 == q.0 && seq_lt(p.1, q.1))
}

/// Each pair comes before every later one, so no pair occurs twice.
pub open spec fn strictly_sorted(s: Seq<(Seq<char>, Seq<char>)>) -> bool {
    forall|i: int, j: int| 0 <= i < j < s.len() ==> #[trigger] pair_lt(s[i], s[j])
}

/// The pairs of `s`, each once, in increasing order.
pub open spec fn spec_sorted_tasks(s: Seq<(Seq<char>, Seq<char>)>) -> Seq<(Seq<char>, Seq<char>)> {
    choose|r: Seq<(Seq<char>, Seq<char>)>|
        strictly_sorted(r) && forall|x: (Seq<char>, Seq<char>)| r.contains(x) <==> s.contains(x)
}

proof fn lemma_pair_lt_order(p: (Seq<char>, Seq<char>), q: (Seq<char>, Seq<char>), r: (Seq<char>, Seq<char>))
    ensures
        !pair_lt(p, p),
        pair_lt(p, q) && pair_lt(q, r) ==> pair_lt(p, r),
        p != q ==> pair_lt(p, q) || pair_lt(q, p),
{
    lemma_seq_lt_irreflexive(p.0);
    lemma_seq_lt_irreflexive(p.1);
    if pair_lt(p, q) && pair_lt(q, r) {
        if seq_lt(p.0, q.0) && seq_lt(q.0, r.0) {
            lemma_seq_lt_transitive(p.0, q.0, r.0);
        }
        if p.0 == q.0 && q.0 == r.0 {
            lemma_seq_lt_transitive(p.1, q.1, r.1);
        }
    }
    if p != q {
        if p.0 != q.0 {
            lemma_seq_lt_total(p.0, q.0);
        } else {
            lemma_seq_lt_total(p.1, q.1);
        }
    }
}

/// Two strictly sorted sequences that hold the same pairs are equal.
proof fn lemma_strictly_sorted_unique(a: Seq<(Seq<char>, Seq<char>)>, b: Seq<(Seq<char>, Seq<char>)>)
    requires
        strictly_sorted(a),
        strictly_sorted(b),
        forall|x: (Seq<char>, Seq<char>)| a.contains(x) <==> b.contains(x),
    ensures
        a == b,
    decreases a.len(),
{
    if a.len() == 0 {
        if b.len() > 0 {
            assert(b.contains(b[0]));
        }
        assert(a =~= b);
    } else {
        assert(a.contains(a[0]));
        assert(b.len() > 0);
        assert(b.contains(b[0]));
        let i = choose|i: int| 0 <= i < a.len() && a[i] == b[0];
        let j = choose|j: int| 0 <= j < b.len() && b[j] == a[0];
        lemma_pair_lt_order(a[0], a[0], a[0]);
        if j > 0 {
            assert(pair_lt(b[0], b[j]));
            if i > 0 {
                assert(pair_lt(a[0], a[i]));
                lemma_pair_lt_order(a[0], b[0], a[0]);
            }
            assert(false);
        }
        let a1 = a.drop_first();
        let b1 = b.drop_first();
        assert(strictly_sorted(a1)) by {
            assert forall|i: int, j: int| 0 <= i < j < a1.len() implies #[trigger] pair_lt(a1[i], a1[j]) by {
                assert(pair_lt(a[i + 1], a[j + 1]));
            }
        }
        assert(strictly_sorted(b1)) by {
            assert forall|i: int, j: int| 0 <= i < j < b1.len() implies #[trigger] pair_lt(b1[i], b1[j]) by {
                assert(pair_lt(b[i + 1], b[j + 1]));
            }
        }
        assert forall|x: (Seq<char>, Seq<char>)| a1.contains(x) <==> b1.contains(x) by {
            if a1.contains(x) {
                let k = choose|k: int| 0 <= k < a1.len() && a1[k] == x;
                assert(pair_lt(a[0], a[k + 1]));
                assert(a.contains(x));
                let m = choose|m: int| 0 <= m < b.len() && b[m] == x;
                if m == 0 {
                    lemma_pair_lt_order(x, x, x);
                }
                assert(b1[m - 1] == x);
            }
            if b1.contains(x) {
                let k = choose|k: int| 0 <= k < b1.len() && b1[k] == x;
                assert(pair_lt(b[0], b[k + 1]));
                assert(b.contains(x));
                let m = choose|m: int| 0 <= m < a.len() && a[m] == x;
                if m == 0 {
                    lemma_pair_lt_order(x, x, x);
                }
                assert(a1[m - 1] == x);
            }
        }
        lemma_strictly_sorted_unique(a1, b1);
        assert(a =~= seq![a[0]] + a1);
        assert(b =~= seq![b[0]] + b1);
    }
}

/// A law of the forwarding order: the pairs that it lists are exactly those
/// of `s`, each once, each before every pair after it.
pub proof fn lemma_sorted_tasks(s: Seq<(Seq<char>, Seq<char>)>, r: Seq<(Seq<char>, Seq<char>)>)
    requires
        strictly_sorted(r),
        forall|x: (Seq<char>, Seq<char>)| r.contains(x) <==> s.contains(x),
    ensures
        spec_sorted_tasks(s) == r,
        strictly_sorted(spec_sorted_tasks(s)),
        forall|x: (Seq<char>, Seq<char>)| spec_sorted_tasks(s).contains(x) <==> s.contains(x),
{
    let t = spec_sorted_tasks(s);
    assert(strictly_sorted(t) && forall|x: (Seq<char>, Seq<char>)| t.contains(x) <==> s.contains(x));
    lemma_strictly_sorted_unique(t, r);
}

fn pair_lt_exec(p: &(String, String), q: &(String, String)) -> (res: bool)
    ensures
        res == pair_lt((p.0@, p.1@), (q.0@, q.1@)),
{
    str_lt(p.0.as_str(), q.0.as_str()) || (str_eq(p.0.as_str(), q.0.as_str()) && str_lt(
        p.1.as_str(),
        q.1.as_str(),
    ))
}

/// The pairs of `tasks`, each once, in increasing order (what sorting and
/// then removing repeats gives).
pub fn sort_dedup_tasks(tasks: Vec<(String, String)>) -> (res: Vec<(String, String)>)
    ensures
        string_pairs_view(res@) == spec_sorted_tasks(string_pairs_view(tasks@)),
{
    let ghost tv = string_pairs_view(tasks@);
    let mut out: Vec<(String, String)> = Vec::new();
    let mut i: usize = 0;
    while i < tasks.len()
        invariant
            i <= tasks@.len(),
            tv == string_pairs_view(tasks@),
            strictly_sorted(string_pairs_view(out@)),
            forall|x: (Seq<char>, Seq<char>)|
                string_pairs_view(out@).contains(x) <==> tv.take(i as int).contains(x),
        decreases tasks@.len() - i,
    {
        let t = &tasks[i];
        let ghost x = (t.0@, t.1@);
        let ghost ov = string_pairs_view(out@);
        let mut j: usize = 0;
        while j < out.len() && pair_lt_exec(&out[j], t)
            invariant
                j <= out@.len(),
                ov == string_pairs_view(out@),
                x == (t.0@, t.1@),
                forall|k: int| 0 <= k < j ==> pair_lt(#[trigger] ov[k], x),
            decreases out@.len() - j,
        {
            j = j + 1;
        }
        proof {
            assert(tv.take(i + 1) =~= tv.take(i as int).push(x));
            assert(tv[i as int] == x);
        }
        let dup = j < out.len() && str_eq(out[j].0.as_str(), t.0.as_str()) && str_eq(
            out[j].1.as_str(),
            t.1.as_str(),
        );
        if dup {
            proof {
                assert(ov[j as int] == x);
                assert forall|y: (Seq<char>, Seq<char>)| ov.contains(y) <==> tv.take(i + 1).contains(y) by {
                    if y == x {
                        assert(ov.contains(ov[j as int]));
                    }
                    if tv.take(i + 1).contains(y) && y != x {
                        let tk = tv.take(i + 1);
                        let k = choose|k: int| 0 <= k < tk.len() && tk[k] == y;
                        assert(tv.take(i as int)[k] == y);
                    }
                }
            }
        } else {
            let p = (t.0.clone(), t.1.clone());
            out.insert(j, p);
            proof {
                let nv = string_pairs_view(out@);
                assert(nv =~= ov.insert(j as int, x));
                if j < ov.len() {
                    lemma_pair_lt_order(ov[j as int], x, x);
                    assert(pair_lt(x, ov[j as int]));
                }
                assert forall|a: int, b: int| 0 <= a < b < nv.len() implies #[trigger] pair_lt(nv[a], nv[b]) by {
                    if b < j {
                        assert(pair_lt(ov[a], ov[b]));
                    } else if b == j {
                        assert(pair_lt(ov[a], x));
                    } else if a == j {
                        if b - 1 > j {
                            assert(pair_lt(ov[j as int], ov[b - 1]));
                            lemma_pair_lt_order(x, ov[j as int], ov[b - 1]);
                        }
                    } else if a < j {
                        assert(pair_lt(ov[a], x));
                        if b - 1 > j {
                            assert(pair_lt(ov[j as int], ov[b - 1]));
                            lemma_pair_lt_order(x, ov[j as int], ov[b - 1]);
                        }
                        lemma_pair_lt_order(ov[a], x, ov[b - 1]);
                    } else {
                        assert(pair_lt(ov[a - 1], ov[b - 1]));
                    }
                }
                assert forall|y: (Seq<char>, Seq<char>)| nv.contains(y) <==> tv.take(i + 1).contains(y) by {
                    if y == x {
                        assert(nv[j as int] == x);
                        assert(tv.take(i + 1)[i as int] == x);
                    }
                    if nv.contains(y) && y != x {
                        let k = choose|k: int| 0 <= k < nv.len() && nv[k] == y;
                        if k < j {
                            assert(ov[k] == y);
                        } else {
                            assert(ov[k - 1] == y);
                        }
                        assert(ov.contains(y));
                        let ti = tv.take(i as int);
                        assert(ti.contains(y));
                        let k2 = choose|k2: int| 0 <= k2 < ti.len() && ti[k2] == y;
                        assert(tv.take(i + 1)[k2] == y);
                    }
                    if tv.take(i + 1).contains(y) && y != x {
                        let tk = tv.take(i + 1);
                        let k = choose|k: int| 0 <= k < tk.len() && tk[k] == y;
                        assert(tv.take(i as int)[k] == y);
                        assert(tv.take(i as int).contains(y));
                        assert(ov.contains(y));
                        let m = choose|m: int| 0 <= m < ov.len() && ov[m] == y;
                        if m < j {
                            assert(nv[m] == y);
                        } else {
                            assert(nv[m + 1] == y);
                        }
                    }
                }
            }
        }
        i = i + 1;
    }
    proof {
        assert(tv.take(tasks@.len() as int) =~= tv);
        lemma_sorted_tasks(tv, string_pairs_view(out@));
    }
    out
}


// ---------------------------------------------------------------------------
// The body of a process's `run`
// ---------------------------------------------------------------------------

/// The names `run` takes out of `self` for the ports: each port and its
/// internal counterpart, in lower case.
pub open spec fn spec_port_names(fs: Seq<Feature>) -> Seq<Seq<char>>
    decreases fs.len(),
{
    if fs.len() == 0 {
        Seq::empty()
    } else {
        spec_port_names(fs.drop_last()) + match fs.last() {
            Feature::Port(p) => seq![
                lowercase(p.identifier@),
                spec_internal_port_name(p.identifier@, p.direction),
            ],
            _ => Seq::empty(),
        }
    }
}

/// `let Self { <ports>, <subcomponents>, .. } = self;`
pub open spec fn spec_destructure(fs: Seq<Feature>, subs: Seq<Subcomponent>) -> SpecStatement {
    s_let(
        false,
        "Self { "@ + seq_join(
            spec_port_names(fs) + subs.map_values(|s: Subcomponent| lowercase(s.identifier@)),
            ", "@,
        ) + ", .. }"@,
        None,
        Some(s_ident("self"@)),
    )
}

/// `std::thread::Builder::new().name(<name_text>).spawn(move || <body>).unwrap();`
pub open spec fn s_spawn(name_text: Seq<char>, body: SpecExpr) -> SpecStatement {
    SpecStatement::Expr(
        s_mcall(
            SpecExpr::BuilderChain(
                seq![
                    SpecBuilderMethod::Named(name_text),
                    SpecBuilderMethod::Spawn {
                        closure: Box::new(SpecExpr::Closure(Seq::empty(), Box::new(body))),
                        move_kw: true,
                    },
                ],
            ),
            "unwrap"@,
            Seq::empty(),
        ),
    )
}

/// A named thread that runs each thread subcomponent, in order.
pub open spec fn spec_thread_spawns(subs: Seq<Subcomponent>) -> Seq<SpecStatement>
    decreases subs.len(),
{
    if subs.len() == 0 {
        Seq::empty()
    } else {
        spec_thread_spawns(subs.drop_last()) + if subs.last().category is Thread {
            let n = lowercase(subs.last().identifier@);
            seq![s_spawn("\""@ + n + "\".to_string()"@, s_mcall(s_ident(n), "run"@, Seq::empty()))]
        } else {
            Seq::empty()
        }
    }
}

/// For each forwarding pair (`src`, `dst`): `let <src>_rx = <src>.unwrap();`
/// and a thread `data_forwarder_<src>` that forwards from it to `dst`.
pub open spec fn spec_forwarders(tasks: Seq<(Seq<char>, Seq<char>)>) -> Seq<SpecStatement>
    decreases tasks.len(),
{
    if tasks.len() == 0 {
        Seq::empty()
    } else {
        let src = tasks.last().0;
        let rx = src + "_rx"@;
        spec_forwarders(tasks.drop_last()) + seq![
            s_let(false, rx, None, Some(s_mcall(s_ident(src), "unwrap"@, Seq::empty()))),
            s_spawn(
                "\"data_forwarder_"@ + src + "\".to_string()"@,
                SpecExpr::Block(s_block(spec_forwarding_thread(rx, tasks.last().1))),
            ),
        ]
    }
}

/// The body of a process's `run`: take the fields out of `self`, start each
/// thread subcomponent, then one forwarding thread per distinct forwarding
/// pair, in increasing order of the pairs.
pub open spec fn spec_process_start_body(c: AadlConverter, impl_: ComponentImplementation) -> Seq<
    SpecStatement,
> {
    let subs = spec_impl_subs(impl_);
    seq![spec_destructure(spec_type_ports(c, impl_), subs)] + spec_thread_spawns(subs)
        + spec_forwarders(spec_sorted_tasks(spec_impl_forwarding_tasks(impl_)))
}

fn port_names(fs: &Vec<Feature>, out: &mut Vec<String>)
    ensures
        strings_view(final(out)@) == strings_view(old(out)@) + spec_port_names(fs@),
{
    let ghost start = strings_view(out@);
    let mut i: usize = 0;
    proof {
        assert(fs@.take(0) =~= Seq::<Feature>::empty());
        assert(start + spec_port_names(Seq::<Feature>::empty()) =~= start);
    }
    while i < fs.len()
        invariant
            i <= fs@.len(),
            strings_view(out@) == start + spec_port_names(fs@.take(i as int)),
        decreases fs@.len() - i,
    {
        proof {
            assert(fs@.take(i + 1).drop_last() =~= fs@.take(i as int));
            assert(fs@.take(i + 1).last() == fs@[i as int]);
        }
        let ghost before = strings_view(out@);
        if let Feature::Port(port) = &fs[i] {
            let a = to_lower(port.identifier.as_str());
            let b = match port.direction {
                PortDirection::Out => concat(a.as_str(), "Rece"),
                _ => concat(a.as_str(), "Send"),
            };
            let ghost (av, bv) = (a@, b@);
            out.push(a);
            out.push(b);
            proof {
                assert(strings_view(out@) =~= before + seq![av, bv]);
            }
        } else {
            proof {
                assert(before + Seq::<Seq<char>>::empty() =~= before);
            }
        }
        i = i + 1;
    }
    proof {
        assert(fs@.take(fs@.len() as int) =~= fs@);
    }
}

fn destructure(fs: &Vec<Feature>, subs: &Vec<Subcomponent>) -> (res: Statement)
    ensures
        res@ == spec_destructure(fs@, subs@),
{
    let mut names: Vec<String> = Vec::new();
    proof {
        assert(strings_view(names@) =~= Seq::<Seq<char>>::empty());
    }
    port_names(fs, &mut names);
    let ghost head = strings_view(names@);
    let mut k: usize = 0;
    proof {
        assert(head + subs@.take(0).map_values(|s: Subcomponent| lowercase(s.identifier@)) =~= head);
    }
    while k < subs.len()
        invariant
            k <= subs@.len(),
            strings_view(names@) == head + subs@.take(k as int).map_values(
                |s: Subcomponent| lowercase(s.identifier@),
            ),
        decreases subs@.len() - k,
    {
        let n = to_lower(subs[k].identifier.as_str());
        let ghost nv = n@;
        let ghost before = strings_view(names@);
        names.push(n);
        proof {
            assert(strings_view(names@) =~= before.push(nv));
            assert(subs@.take(k + 1).map_values(|s: Subcomponent| lowercase(s.identifier@))
                =~= subs@.take(k as int).map_values(|s: Subcomponent| lowercase(s.identifier@)).push(nv));
        }
        k = k + 1;
    }
    proof {
        assert(subs@.take(subs@.len() as int) =~= subs@);
    }
    let joined = join_strings(&names, ", ");
    let text = concat3("Self { ", joined.as_str(), ", .. }");
    mk_let(false, text.as_str(), None, Some(mk_ident("self")))
}

/// A named thread that runs `body` (see `s_spawn`).
pub fn spawn_thread(name_text: String, body: Expr) -> (res: Statement)
    ensures
        res@ == s_spawn(name_text@, body@),
{
    let closure = Expr::Closure(Vec::new(), Box::new(body));
    proof {
        assert(strings_view(Seq::<String>::empty()) =~= Seq::<Seq<char>>::empty());
    }
    let chain = mk_builder_chain2(
        BuilderMethod::Named(name_text),
        BuilderMethod::Spawn { closure: Box::new(closure), move_kw: true },
    );
    Statement::Expr(mk_mcall0(chain, "unwrap"))
}

fn thread_spawns(subs: &Vec<Subcomponent>, out: &mut Vec<Statement>)
    ensures
        stmts_view(final(out)@) == stmts_view(old(out)@) + spec_thread_spawns(subs@),
{
    let ghost start = stmts_view(out@);
    let mut i: usize = 0;
    proof {
        assert(subs@.take(0) =~= Seq::<Subcomponent>::empty());
        assert(start + spec_thread_spawns(Seq::<Subcomponent>::empty()) =~= start);
    }
    while i < subs.len()
        invariant
            i <= subs@.len(),
            stmts_view(out@) == start + spec_thread_spawns(subs@.take(i as int)),
        decreases subs@.len() - i,
    {
        proof {
            assert(subs@.take(i + 1).drop_last() =~= subs@.take(i as int));
            assert(subs@.take(i + 1).last() == subs@[i as int]);
        }
        let ghost before = stmts_view(out@);
        let is_thread = match subs[i].category {
            ComponentCategory::Thread => true,
            _ => false,
        };
        if is_thread {
            let n = to_lower(subs[i].identifier.as_str());
            let name_text = concat3("\"", n.as_str(), "\".to_string()");
            let st = spawn_thread(name_text, mk_mcall0(mk_ident(n.as_str()), "run"));
            let ghost sv = st@;
            out.push(st);
            proof {
                assert(stmts_view(out@) =~= before + seq![sv]);
            }
        } else {
            proof {
                assert(before + Seq::<SpecStatement>::empty() =~= before);
            }
        }
        i = i + 1;
    }
    proof {
        assert(subs@.take(subs@.len() as int) =~= subs@);
    }
}

fn forwarders(tasks: &Vec<(String, String)>, out: &mut Vec<Statement>)
    ensures
        stmts_view(final(out)@) == stmts_view(old(out)@) + spec_forwarders(string_pairs_view(tasks@)),
{
    let ghost start = stmts_view(out@);
    let ghost tv = string_pairs_view(tasks@);
    let mut i: usize = 0;
    proof {
        assert(tv.take(0) =~= Seq::<(Seq<char>, Seq<char>)>::empty());
        assert(start + spec_forwarders(tv.take(0)) =~= start);
    }
    while i < tasks.len()
        invariant
            i <= tasks@.len(),
            tv == string_pairs_view(tasks@),
            stmts_view(out@) == start + spec_forwarders(tv.take(i as int)),
        decreases tasks@.len() - i,
    {
        proof {
            assert(tv.take(i + 1).drop_last() =~= tv.take(i as int));
            assert(tv.take(i + 1).last() == tv[i as int]);
        }
        let ghost before = stmts_view(out@);
        let src = &tasks[i].0;
        let dst = &tasks[i].1;
        let rx = concat(src.as_str(), "_rx");
        let l = mk_let(false, rx.as_str(), None, Some(mk_mcall0(mk_ident(src.as_str()), "unwrap")));
        let name_text = concat3("\"data_forwarder_", src.as_str(), "\".to_string()");
        let body = Expr::Block(mk_block(create_single_forwarding_thread(rx.as_str(), dst.as_str())));
        let sp = spawn_thread(name_text, body);
        let ghost (lv, spv) = (l@, sp@);
        out.push(l);
        out.push(sp);
        proof {
            assert(stmts_view(out@) =~= before + seq![lv, spv]);
        }
        i = i + 1;
    }
    proof {
        assert(tv.take(tasks@.len() as int) =~= tv);
    }
}

/// The body of a process's `run` (see `spec_process_start_body`).
pub fn create_process_start_body(temp_converter: &AadlConverter, impl_: &ComponentImplementation) -> (res:
    Vec<Statement>)
    ensures
        stmts_view(res@) == spec_process_start_body(*temp_converter, *impl_),
{
    let no_subs: Vec<Subcomponent> = Vec::new();
    let subs: &Vec<Subcomponent> = match &impl_.subcomponents {
        SubcomponentClause::Items(ss) => ss,
        _ => &no_subs,
    };
    proof {
        assert(subs@ =~= spec_impl_subs(*impl_));
    }
    let no_features: Vec<Feature> = Vec::new();
    let fs: &Vec<Feature> = match temp_converter.get_component_type(impl_) {
        Some(t) => match &t.features {
            FeatureClause::Items(fs) => fs,
            _ => &no_features,
        },
        None => &no_features,
    };
    proof {
        assert(fs@ =~= spec_type_ports(*temp_converter, *impl_));
    }
    let mut stmts = vec1_stmt(destructure(fs, subs));
    thread_spawns(subs, &mut stmts);
    let tasks = sort_dedup_tasks(create_data_forwarding_tasks(impl_));
    forwarders(&tasks, &mut stmts);
    stmts
}


// ---------------------------------------------------------------------------
// The process struct and its impl block
// ---------------------------------------------------------------------------

/// `<type in lower case>Process`, the name of a process's struct.
pub open spec fn spec_process_name(impl_: ComponentImplementation) -> Seq<char> {
    lowercase(impl_.name.type_identifier@) + "Process"@
}

/// `fn new(cpu_id: isize) -> Self` and `fn run(self)` of a process, in an
/// `impl Process for <name>` block.
pub open spec fn spec_process_impl_block(c: AadlConverter, impl_: ComponentImplementation) -> SpecImplBlock {
    SpecImplBlock {
        target: SpecType::Named(spec_process_name(impl_)),
        generics: Seq::empty(),
        items: seq![
            SpecImplItem::Method(
                SpecFunctionDef {
                    name: "new"@,
                    params: seq![SpecParam { name: "cpu_id"@, ty: SpecType::Named("isize"@) }],
                    return_type: SpecType::Named("Self"@),
                    body: s_block(spec_process_new_body(c, impl_)),
                    asyncness: false,
                    vis: Visibility::Inherited,
                    docs: seq!["// Creates a new process instance"@],
                    attrs: Seq::empty(),
                },
            ),
            SpecImplItem::Method(
                SpecFunctionDef {
                    name: "run"@,
                    params: seq![SpecParam { name: "self"@, ty: SpecType::Named("Self"@) }],
                    return_type: SpecType::Unit,
                    body: s_block(spec_process_start_body(c, impl_)),
                    asyncness: false,
                    vis: Visibility::Inherited,
                    docs: seq!["// Starts all threads in the process"@],
                    attrs: Seq::empty(),
                },
            ),
        ],
        trait_impl: Some(SpecType::Named("Process"@)),
    }
}

fn one_param(name: &str, ty: &str) -> (res: Vec<Param>)
    ensures
        params_view(res@) == seq![SpecParam { name: name@, ty: SpecType::Named(ty@) }],
{
    let mut v: Vec<Param> = Vec::new();
    v.push(Param { name: name.to_string(), ty: mk_named(ty) });
    assert(params_view(v@) =~= seq![SpecParam { name: name@, ty: SpecType::Named(ty@) }]);
    v
}

fn method(name: &str, params: Vec<Param>, return_type: Type, body: Vec<Statement>, doc: &str) -> (res:
    ImplItem)
    ensures
        res@ == SpecImplItem::Method(
            SpecFunctionDef {
                name: name@,
                params: params_view(params@),
                return_type: return_type@,
                body: s_block(stmts_view(body@)),
                asyncness: false,
                vis: Visibility::Inherited,
                docs: seq![doc@],
                attrs: Seq::empty(),
            },
        ),
{
    let docs = one_doc(doc.to_string());
    let attrs: Vec<crate::intermediate_ast::Attribute> = Vec::new();
    assert(attrs_view(attrs@) =~= Seq::<SpecAttribute>::empty());
    ImplItem::Method(
        FunctionDef {
            name: name.to_string(),
            params,
            return_type,
            body: mk_block(body),
            asyncness: false,
            vis: Visibility::Inherited,
            docs,
            attrs,
        },
    )
}

/// The `impl Process` block of a process (see `spec_process_impl_block`).
pub fn create_process_impl_block(temp_converter: &AadlConverter, impl_: &ComponentImplementation) -> (res:
    ImplBlock)
    ensures
        res@ == spec_process_impl_block(*temp_converter, *impl_),
{
    let new_fn = method(
        "new",
        one_param("cpu_id", "isize"),
        mk_named("Self"),
        create_process_new_body(temp_converter, impl_),
        "// Creates a new process instance",
    );
    let run_fn = method(
        "run",
        one_param("self", "Self"),
        Type::Unit,
        create_process_start_body(temp_converter, impl_),
        "// Starts all threads in the process",
    );
    let ghost (nv, rv) = (new_fn@, run_fn@);
    let mut items: Vec<ImplItem> = Vec::new();
    items.push(new_fn);
    items.push(run_fn);
    proof {
        let m = items@;
        assert(m.drop_last().drop_last() =~= Seq::<ImplItem>::empty());
        assert(impl_items_view(m.drop_last()) == impl_items_view(m.drop_last().drop_last()).push(nv));
        assert(impl_items_view(m) == impl_items_view(m.drop_last()).push(rv));
        assert(impl_items_view(m) =~= seq![nv, rv]);
    }
    let generics: Vec<String> = Vec::new();
    assert(strings_view(generics@) =~= Seq::<Seq<char>>::empty());
    let lower = to_lower(impl_.name.type_identifier.as_str());
    ImplBlock {
        target: Type::Named(concat(lower.as_str(), "Process")),
        generics,
        items,
        trait_impl: Some(mk_named("Process")),
    }
}

/// The struct of a process: its fields, then `cpu_id: isize`.
pub open spec fn spec_process_struct(c: AadlConverter, impl_: ComponentImplementation) -> SpecStructDef {
    SpecStructDef {
        name: spec_process_name(impl_),
        fields: spec_process_fields(c, impl_).push(
            SpecField {
                name: "cpu_id"@,
                ty: SpecType::Named("isize"@),
                docs: seq!["// 新增 CPU ID"@],
                attrs: Seq::empty(),
            },
        ),
        properties: Seq::empty(),
        generics: Seq::empty(),
        derives: seq!["Debug"@],
        docs: seq![
            "// Process implementation: "@ + impl_.name.type_identifier@,
            "// Auto-generated from AADL"@,
        ],
        vis: Visibility::Public,
    }
}

/// A process implementation becomes its struct and its `impl Process` block.
pub fn convert_process_implementation(temp_converter: &mut AadlConverter, impl_: &ComponentImplementation) -> (res:
    Vec<Item>)
    ensures
        *final(temp_converter) == *old(temp_converter),
        items_view(res@) == seq![
            SpecItem::Struct(spec_process_struct(*old(temp_converter), *impl_)),
            SpecItem::Impl(spec_process_impl_block(*old(temp_converter), *impl_)),
        ],
{
    let mut fields = get_process_fields(temp_converter, impl_);
    let attrs: Vec<crate::intermediate_ast::Attribute> = Vec::new();
    assert(attrs_view(attrs@) =~= Seq::<SpecAttribute>::empty());
    let cpu = Field {
        name: "cpu_id".to_string(),
        ty: mk_named("isize"),
        docs: one_doc("// 新增 CPU ID".to_string()),
        attrs,
    };
    let ghost (fv, cv) = (fields@, cpu@);
    fields.push(cpu);
    assert(fields_view(fields@) =~= fields_view(fv).push(cv));
    let lower = to_lower(impl_.name.type_identifier.as_str());
    let props: Vec<StruProperty> = Vec::new();
    assert(props_view(props@) =~= Seq::empty());
    let generics: Vec<String> = Vec::new();
    assert(strings_view(generics@) =~= Seq::<Seq<char>>::empty());
    let mut docs: Vec<String> = Vec::new();
    docs.push(concat("// Process implementation: ", impl_.name.type_identifier.as_str()));
    docs.push("// Auto-generated from AADL".to_string());
    let mut derives: Vec<String> = Vec::new();
    derives.push("Debug".to_string());
    proof {
        assert(strings_view(docs@) =~= seq![
            "// Process implementation: "@ + impl_.name.type_identifier@,
            "// Auto-generated from AADL"@,
        ]);
        assert(strings_view(derives@) =~= seq!["Debug"@]);
    }
    let sd = StructDef {
        name: concat(lower.as_str(), "Process"),
        fields,
        properties: props,
        generics,
        derives,
        docs,
        vis: Visibility::Public,
    };
    let ib = create_process_impl_block(temp_converter, impl_);
    let ghost (sv, iv) = (sd@, ib@);
    let mut items: Vec<Item> = Vec::new();
    items.push(Item::Struct(sd));
    items.push(Item::Impl(ib));
    proof {
        let m = items@;
        assert(m.drop_last().drop_last() =~= Seq::<Item>::empty());
        assert(items_view(m) =~= seq![SpecItem::Struct(sv), SpecItem::Impl(iv)]);
    }
    items
}

/// A law of a process's port fields: the internal field of a port is the
/// other end of the same channel. An out port `Option<Sender<T>>` gets the
/// internal `Option<Receiver<T>>`, through which the process receives from
/// its threads what it forwards out; an in port `Option<Receiver<T>>` gets
/// the internal `Option<Sender<T>>`, or `Option<BcSender<T>>` where the
/// process broadcasts it to several threads.
pub proof fn lemma_internal_port_is_other_end(c: AadlConverter, impl_: ComponentImplementation, port: PortSpec)
    ensures
        ({
            let f = spec_port_fields(c, impl_, port);
            let data = crate::aadl_ast2rust_code::converter::spec_port_data_type(c.types(), port);
            let end = |e: Seq<char>| SpecType::Generic("Option"@, seq![SpecType::Generic(e, seq![data])]);
            &&& f.len() == 2
            &&& port.direction == PortDirection::Out ==> f[0].ty == end("Sender"@) && f[1].ty == end("Receiver"@)
            &&& port.direction == PortDirection::In ==> f[0].ty == end("Receiver"@) && (f[1].ty == end("Sender"@)
                || f[1].ty == end("BcSender"@))
        }),
{
    reveal_strlit("Sender");
    reveal_strlit("Receiver");
    reveal_strlit("Option");
    assert("Sender"@ != "Receiver"@) by {
        assert("Sender"@.len() == 6);
        assert("Receiver"@.len() == 8);
    }
    assert("Option"@.len() == 6);
}

} // verus!
