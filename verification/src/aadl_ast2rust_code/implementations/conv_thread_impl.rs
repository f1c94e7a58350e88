//! Thread implementations: property initializers, the collection of events
//! by urgency, and the data-access calls of a thread's subprograms.

use vstd::prelude::*;
pub use crate::aadl_ast2rust_code::implementations::conv_thread_run::{
    convert_thread_implemenation, create_periodic_execution_logic, create_thread_run_body,
};
use crate::aadl_ast2rust_code::converter::{
    assoc_first, clause_ok, default_exists, port_in_features, spec_port_in_features, spec_convert_clause, spec_default_of,
    spec_default_value, spec_paramport_type, AadlConverter, lookup_type,
};
use crate::ast::aadl_ast_cj::{
    AccessEndpoint, ComponentRef, ComponentType, Feature, FeatureClause, ParameterEndpoint,
    PortDirection, PortSpec, PortType, CallSequence, CallSequenceClause, CalledSubprogram, ComponentImplementation, Connection,
    ConnectionClause, Property, PropertyClause, PropertyExpression, PropertyValue,
    SubprogramCall, UniqueComponentClassifierReference,
};
use crate::intermediate_ast::{
    arms_view, mk_assign, mk_bin, mk_call, mk_let, mk_ns2, mk_ns3, s_assign, s_bin, s_let, s_ns2, s_str, vec1_expr, vec1_stmt,
    Literal, MatchArm, PathType, SpecMatchArm,
    group_view_laws, lemma_views_empty, mk_block, mk_ident, mk_int, mk_mcall0, mk_mcall1,
    mk_member, s_block, s_ident, s_int, s_mcall, s_member, stmts_view, Expr, SpecExpr,
    SpecStatement, Statement, StruPropertyValue, SpecPropertyValue, props_view, SpecStruProperty,
    StruProperty, SpecType, Type, lemma_stmts_view_concat, mk_mcall,
};
use crate::text::{
    concat, concat3, i64_to_decimal, join_strings, seq_join, strings_view, lowercase, parse_u32, spec_contains, spec_decimal,
    spec_decimal_int, spec_parse_u32, str_contains, str_eq, to_lower, u64_to_decimal,
};

verus! {

broadcast use group_view_laws;

/// The text that opens the comment listing the call sequence.
pub open spec fn spec_sequence_header() -> Seq<char> {
    "// --- 调用序列(等价 AADL 的 Wrapper)---\n                           // "@
}

fn sequence_header() -> (res: &'static str)
    ensures
        res@ == spec_sequence_header(),
{
    "// --- 调用序列(等价 AADL 的 Wrapper)---\n                           // "
}

// ---------------------------------------------------------------------------
// Property initializers
// ---------------------------------------------------------------------------

/// The initializer text for a real value, given the text `f64`'s `Display`
/// writes for it: `.0` is added to a whole number, which that text writes
/// without a point; infinities and NaN stay as written.
pub open spec fn spec_float_initializer(s: Seq<char>) -> Seq<char> {
    if !spec_contains(s, "."@) && s != "inf"@ && s != "-inf"@ && s != "NaN"@ {
        s + ".0"@
    } else {
        s
    }
}

/// The Rust initializer expression, as text, for a property value.
pub open spec fn spec_property_initializer(v: SpecPropertyValue) -> Seq<char> {
    match v {
        SpecPropertyValue::Boolean(b) => if b {
            "true"@
        } else {
            "false"@
        },
        SpecPropertyValue::Integer(i) => spec_decimal_int(i),
        SpecPropertyValue::Float(s) => spec_float_initializer(s),
        SpecPropertyValue::String(s) => "\""@ + s + "\".to_string()"@,
        SpecPropertyValue::Duration(v, _) => spec_decimal(v),
        SpecPropertyValue::Range(a, b, _) => "("@ + spec_decimal(a) + ", "@ + spec_decimal(b) + ")"@,
        SpecPropertyValue::NoValue => "None"@,
        SpecPropertyValue::Custom(s) => s,
    }
}

/// The initializer expression, as Rust source text, for a property value.
pub fn property_value_to_initializer(val: &StruPropertyValue) -> (res: String)
    ensures
        res@ == spec_property_initializer(val@),
{
    match val {
        StruPropertyValue::Boolean(b) => {
            if *b {
                "true".to_string()
            } else {
                "false".to_string()
            }
        },
        StruPropertyValue::Integer(i) => i64_to_decimal(*i),
        StruPropertyValue::Float(f) => {
            let s = f.as_str();
            if !str_contains(s, ".") && !str_eq(s, "inf") && !str_eq(s, "-inf") && !str_eq(s, "NaN") {
                concat(s, ".0")
            } else {
                f.clone()
            }
        },
        StruPropertyValue::String(s) => concat3("\"", s.as_str(), "\".to_string()"),
        StruPropertyValue::Duration(v, _unit) => u64_to_decimal(*v),
        StruPropertyValue::Range(min, max, _unit) => {
            let a = u64_to_decimal(*min);
            let b = u64_to_decimal(*max);
            let mut r = concat3("(", a.as_str(), ", ");
            r.append(b.as_str());
            r.append(")");
            r
        },
        StruPropertyValue::NoValue => "None".to_string(),
        StruPropertyValue::Custom(s) => s.clone(),
    }
}

// ---------------------------------------------------------------------------
// Event collection
// ---------------------------------------------------------------------------

/// `events.push((val, <urgency>, Instant::now()));`
pub open spec fn spec_push_event(urgency: int) -> SpecStatement {
    SpecStatement::Expr(
        s_mcall(
            s_ident("events"@),
            "push"@,
            seq![
                SpecExpr::Call(
                    Box::new(s_ident(""@)),
                    seq![s_ident("val"@), s_int(urgency), s_ident("Instant::now()"@)],
                ),
            ],
        ),
    )
}

/// `if let Some(rx) = &mut self.<port> { if let Ok(val) = rx.try_recv() { <push> } }`
pub open spec fn spec_collect_from(port: Seq<char>, urgency: int) -> SpecStatement {
    SpecStatement::Expr(
        SpecExpr::IfLet {
            pattern: "Some(rx)"@,
            value: Box::new(SpecExpr::Reference(Box::new(s_member("self"@, port)), true, false)),
            then_branch: s_block(
                seq![
                    SpecStatement::Expr(
                        SpecExpr::IfLet {
                            pattern: "Ok(val)"@,
                            value: Box::new(s_mcall(s_ident("rx"@), "try_recv"@, Seq::empty())),
                            then_branch: s_block(seq![spec_push_event(urgency)]),
                            else_branch: None,
                        },
                    ),
                ],
            ),
            else_branch: None,
        },
    )
}

pub open spec fn urgency_view(v: Seq<(String, u32)>) -> Seq<(Seq<char>, u32)> {
    v.map_values(|p: (String, u32)| (p.0@, p.1))
}

/// The collecting statements: one per port with an urgency, in the given
/// order; without urgencies, one for the first receiving port at urgency 0.
pub open spec fn spec_collect_stmts(pu: Seq<(Seq<char>, u32)>, rp: Seq<Seq<char>>) -> Seq<
    SpecStatement,
> {
    pu.map_values(|e: (Seq<char>, u32)| spec_collect_from(lowercase(e.0), e.1 as int)) + if pu.len()
        == 0 && rp.len() > 0 {
        seq![spec_collect_from(lowercase(rp[0]), 0)]
    } else {
        Seq::empty()
    }
}

/// `if events.is_empty() { <collect> }`
pub open spec fn spec_event_collection(pu: Seq<(Seq<char>, u32)>, rp: Seq<Seq<char>>) -> Seq<
    SpecStatement,
> {
    seq![
        SpecStatement::Expr(
            SpecExpr::If {
                condition: Box::new(s_mcall(s_ident("events"@), "is_empty"@, Seq::empty())),
                then_branch: s_block(spec_collect_stmts(pu, rp)),
                else_branch: None,
            },
        ),
    ]
}

fn one(s: Statement) -> (res: Vec<Statement>)
    ensures
        stmts_view(res@) == seq![s@],
{
    let mut v: Vec<Statement> = Vec::new();
    let ghost sv = s@;
    v.push(s);
    proof {
        lemma_views_empty();
        assert(v@ =~= Seq::<Statement>::empty().push(v@[0]));
        assert(Seq::<SpecStatement>::empty().push(sv) =~= seq![sv]);
    }
    v
}

fn push_event(urgency: i64) -> (res: Statement)
    ensures
        res@ == spec_push_event(urgency as int),
{
    let mut items: Vec<Expr> = Vec::new();
    items.push(mk_ident("val"));
    items.push(mk_int(urgency));
    items.push(mk_ident("Instant::now()"));
    let tuple = Expr::Call(Box::new(mk_ident("")), items);
    proof {
        lemma_views_empty();
        assert(items@ =~= Seq::<Expr>::empty().push(items@[0]).push(items@[1]).push(items@[2]));
        assert(crate::intermediate_ast::exprs_view(items@) =~= seq![
            s_ident("val"@),
            s_int(urgency as int),
            s_ident("Instant::now()"@),
        ]);
    }
    Statement::Expr(mk_mcall1(mk_ident("events"), "push", tuple))
}

fn collect_from(port: &String, urgency: i64) -> (res: Statement)
    ensures
        res@ == spec_collect_from(lowercase(port@), urgency as int),
{
    let port_field_name = to_lower(port.as_str());
    let inner = Statement::Expr(
        Expr::IfLet {
            pattern: "Ok(val)".to_string(),
            value: Box::new(mk_mcall0(mk_ident("rx"), "try_recv")),
            then_branch: mk_block(one(push_event(urgency))),
            else_branch: None,
        },
    );
    Statement::Expr(
        Expr::IfLet {
            pattern: "Some(rx)".to_string(),
            value: Box::new(
                Expr::Reference(Box::new(mk_member("self", port_field_name.as_str())), true, false),
            ),
            then_branch: mk_block(one(inner)),
            else_branch: None,
        },
    )
}

/// The code that, when no event is pending, takes one message from each
/// port with an urgency (tagged with it), or, with no urgencies given, from
/// the first receiving port (tagged 0).
pub fn create_event_collection_logic(port_urgency: &[(String, u32)], receive_ports: &[String]) -> (res:
    Vec<Statement>)
    ensures
        stmts_view(res@) == spec_event_collection(
            urgency_view(port_urgency@),
            receive_ports@.map_values(|s: String| s@),
        ),
{
    let ghost pu = urgency_view(port_urgency@);
    let mut collect_stmts: Vec<Statement> = Vec::new();
    let mut i: usize = 0;
    proof {
        lemma_views_empty();
    }
    while i < port_urgency.len()
        invariant
            i <= port_urgency@.len(),
            pu == urgency_view(port_urgency@),
            stmts_view(collect_stmts@) == pu.take(i as int).map_values(
                |e: (Seq<char>, u32)| spec_collect_from(lowercase(e.0), e.1 as int),
            ),
        decreases port_urgency@.len() - i,
    {
        let st = collect_from(&port_urgency[i].0, port_urgency[i].1 as i64);
        collect_stmts.push(st);
        proof {
            assert(pu.take(i + 1).map_values(
                |e: (Seq<char>, u32)| spec_collect_from(lowercase(e.0), e.1 as int),
            ) =~= pu.take(i as int).map_values(
                |e: (Seq<char>, u32)| spec_collect_from(lowercase(e.0), e.1 as int),
            ).push(spec_collect_from(lowercase(port_urgency@[i as int].0@), port_urgency@[i as int].1 as int)));
        }
        i = i + 1;
    }
    assert(pu.take(port_urgency@.len() as int) =~= pu);
    let ghost before = stmts_view(collect_stmts@);
    if port_urgency.len() == 0 && receive_ports.len() > 0 {
        collect_stmts.push(collect_from(&receive_ports[0], 0));
    }
    proof {
        assert(stmts_view(collect_stmts@) =~= spec_collect_stmts(
            pu,
            receive_ports@.map_values(|s: String| s@),
        ));
    }
    let condition = mk_mcall0(mk_ident("events"), "is_empty");
    one(
        Statement::Expr(
            Expr::If {
                condition: Box::new(condition),
                then_branch: mk_block(collect_stmts),
                else_branch: None,
            },
        ),
    )
}


// ---------------------------------------------------------------------------
// Event port urgencies
// ---------------------------------------------------------------------------

/// The `(port, urgency)` entry that a property contributes: an `Urgency`
/// property (any case) whose value is `<number> applies to <port>` with a
/// number that parses as a `u32`.
pub open spec fn spec_urgency_of(p: Property) -> Option<(Seq<char>, u32)> {
    match p {
        Property::BasicProperty(bp) => if lowercase(bp.identifier.name@) == "urgency"@ {
            match bp.value {
                PropertyValue::Single(PropertyExpression::Apply(t)) => match spec_parse_u32(
                    t.number@,
                ) {
                    Some(n) => Some((t.applies_to@, n as u32)),
                    None => None,
                },
                _ => None,
            }
        } else {
            None
        },
        _ => None,
    }
}

/// The urgency entries of a property list, in the order of the list.
pub open spec fn spec_urgency_entries(props: Seq<Property>) -> Seq<(Seq<char>, u32)>
    decreases props.len(),
{
    if props.len() == 0 {
        Seq::empty()
    } else {
        spec_urgency_entries(props.drop_last()) + match spec_urgency_of(props.last()) {
            Some(e) => seq![e],
            None => Seq::empty(),
        }
    }
}

/// Inserts `x` into a list kept in descending urgency order, after every
/// entry whose urgency is at least that of `x`.
pub open spec fn insert_desc(s: Seq<(Seq<char>, u32)>, x: (Seq<char>, u32)) -> Seq<
    (Seq<char>, u32),
>
    decreases s.len(),
{
    if s.len() == 0 {
        seq![x]
    } else if s.last().1 >= x.1 {
        s.push(x)
    } else {
        insert_desc(s.drop_last(), x).push(s.last())
    }
}

/// The stable sort by descending urgency: entries of equal urgency keep
/// their order.
pub open spec fn sort_desc(s: Seq<(Seq<char>, u32)>) -> Seq<(Seq<char>, u32)>
    decreases s.len(),
{
    if s.len() == 0 {
        Seq::empty()
    } else {
        insert_desc(sort_desc(s.drop_last()), s.last())
    }
}

pub open spec fn sorted_desc(s: Seq<(Seq<char>, u32)>) -> bool {
    forall|i: int, j: int| 0 <= i < j < s.len() ==> s[i].1 >= s[j].1
}

/// The urgencies of a component implementation's ports, highest first.
pub open spec fn spec_event_port_urgency(c: PropertyClause) -> Seq<(Seq<char>, u32)> {
    match c {
        PropertyClause::Properties(props) => sort_desc(spec_urgency_entries(props@)),
        _ => Seq::empty(),
    }
}

proof fn lemma_insert_desc_bound(s: Seq<(Seq<char>, u32)>, x: (Seq<char>, u32), b: u32)
    requires
        forall|i: int| 0 <= i < s.len() ==> s[i].1 >= b,
        x.1 >= b,
    ensures
        forall|i: int|
            0 <= i < insert_desc(s, x).len() ==> #[trigger] insert_desc(s, x)[i].1 >= b,
    decreases s.len(),
{
    let r = insert_desc(s, x);
    if s.len() == 0 {
        assert(r =~= seq![x]);
    } else if s.last().1 >= x.1 {
        assert forall|i: int| 0 <= i < r.len() implies #[trigger] r[i].1 >= b by {
            if i < s.len() {
                assert(r[i] == s[i]);
            }
        }
    } else {
        let d = insert_desc(s.drop_last(), x);
        lemma_insert_desc_bound(s.drop_last(), x, b);
        assert forall|i: int| 0 <= i < r.len() implies #[trigger] r[i].1 >= b by {
            if i < d.len() {
                assert(r[i] == d[i]);
            }
        }
    }
}

proof fn lemma_insert_desc_sorted(s: Seq<(Seq<char>, u32)>, x: (Seq<char>, u32))
    requires
        sorted_desc(s),
    ensures
        sorted_desc(insert_desc(s, x)),
        insert_desc(s, x).to_multiset() =~= s.to_multiset().insert(x),
    decreases s.len(),
{
    broadcast use vstd::seq_lib::to_multiset_build;

    if s.len() == 0 {
        assert(s =~= Seq::<(Seq<char>, u32)>::empty());
        assert(seq![x] =~= s.push(x));
    } else if s.last().1 >= x.1 {
    } else {
        let d = s.drop_last();
        lemma_insert_desc_sorted(d, x);
        lemma_insert_desc_bound(d, x, s.last().1);
        assert(d.push(s.last()) =~= s);
    }
}

/// Sorting by descending urgency yields a list in that order, holding
/// exactly the entries it was given.
pub proof fn lemma_sort_desc(s: Seq<(Seq<char>, u32)>)
    ensures
        sorted_desc(sort_desc(s)),
        sort_desc(s).to_multiset() =~= s.to_multiset(),
    decreases s.len(),
{
    broadcast use vstd::seq_lib::to_multiset_build;

    if s.len() == 0 {
        assert(s =~= Seq::<(Seq<char>, u32)>::empty());
    } else {
        lemma_sort_desc(s.drop_last());
        lemma_insert_desc_sorted(sort_desc(s.drop_last()), s.last());
        assert(s.drop_last().push(s.last()) =~= s);
    }
}

fn urgency_of(p: &Property) -> (res: Option<(String, u32)>)
    ensures
        match spec_urgency_of(*p) {
            Some(e) => res matches Some(r) && r.0@ == e.0 && r.1 == e.1,
            None => res is None,
        },
{
    match p {
        Property::BasicProperty(bp) => {
            let name = to_lower(bp.identifier.name.as_str());
            if str_eq(name.as_str(), "urgency") {
                match &bp.value {
                    PropertyValue::Single(PropertyExpression::Apply(t)) => {
                        match parse_u32(t.number.as_str()) {
                            Some(n) => Some((t.applies_to.clone(), n)),
                            None => None,
                        }
                    },
                    _ => None,
                }
            } else {
                None
            }
        },
        _ => None,
    }
}

/// Inserts `x` into `v`, kept in descending urgency order, after every
/// entry whose urgency is at least that of `x`.
fn insert_by_urgency(v: &mut Vec<(String, u32)>, x: (String, u32))
    ensures
        urgency_view(final(v)@) == insert_desc(urgency_view(old(v)@), (x.0@, x.1)),
{
    let ghost s = urgency_view(v@);
    let ghost xv = (x.0@, x.1);
    let mut j: usize = v.len();
    proof {
        assert(s.take(j as int) =~= s);
        assert(s.skip(j as int) =~= Seq::<(Seq<char>, u32)>::empty());
        assert(insert_desc(s, xv) =~= insert_desc(s.take(j as int), xv) + s.skip(j as int));
    }
    while j > 0 && v[j - 1].1 < x.1
        invariant
            j <= v@.len(),
            s == urgency_view(v@),
            xv == (x.0@, x.1),
            insert_desc(s, xv) == insert_desc(s.take(j as int), xv) + s.skip(j as int),
        decreases j,
    {
        proof {
            let t = s.take(j as int);
            assert(t.drop_last() =~= s.take(j - 1));
            assert(t.last() == s[j - 1]);
            assert(s.skip(j - 1) =~= seq![s[j - 1]] + s.skip(j as int));
            assert(insert_desc(t, xv) == insert_desc(s.take(j - 1), xv).push(s[j - 1]));
            assert(insert_desc(s.take(j - 1), xv).push(s[j - 1]) + s.skip(j as int)
                =~= insert_desc(s.take(j - 1), xv) + s.skip(j - 1));
        }
        j = j - 1;
    }
    proof {
        let t = s.take(j as int);
        if j == 0 {
            assert(t =~= Seq::<(Seq<char>, u32)>::empty());
        }
        assert(insert_desc(t, xv) =~= t.push(xv));
    }
    v.insert(j, x);
    proof {
        assert(urgency_view(v@) =~= s.take(j as int).push(xv) + s.skip(j as int));
    }
}

/// The urgencies given to the ports of a component implementation by its
/// `Urgency => <n> applies to <port>` properties, highest first; entries of
/// equal urgency keep the order of the properties.
pub fn extract_event_port_urgency(impl_: &ComponentImplementation) -> (res: Vec<(String, u32)>)
    ensures
        urgency_view(res@) == spec_event_port_urgency(impl_.properties),
        sorted_desc(urgency_view(res@)),
        match impl_.properties {
            PropertyClause::Properties(props) => urgency_view(res@).to_multiset()
                =~= spec_urgency_entries(props@).to_multiset(),
            _ => res@.len() == 0,
        },
{
    let mut port_priorities: Vec<(String, u32)> = Vec::new();
    let properties = match &impl_.properties {
        PropertyClause::Properties(props) => props,
        _ => {
            proof {
                assert(urgency_view(port_priorities@) =~= Seq::<(Seq<char>, u32)>::empty());
            }
            return port_priorities;
        },
    };
    let ghost props = properties@;
    let mut i: usize = 0;
    proof {
        assert(urgency_view(port_priorities@) =~= Seq::<(Seq<char>, u32)>::empty());
        assert(props.take(0) =~= Seq::<Property>::empty());
    }
    while i < properties.len()
        invariant
            i <= props.len(),
            props == properties@,
            urgency_view(port_priorities@) == sort_desc(spec_urgency_entries(props.take(i as int))),
        decreases props.len() - i,
    {
        proof {
            assert(props.take(i + 1).drop_last() =~= props.take(i as int));
        }
        match urgency_of(&properties[i]) {
            Some(e) => {
                proof {
                    let before = spec_urgency_entries(props.take(i as int));
                    assert(spec_urgency_entries(props.take(i + 1)) =~= before.push((e.0@, e.1)));
                    assert(before.push((e.0@, e.1)).drop_last() =~= before);
                }
                insert_by_urgency(&mut port_priorities, e);
            },
            None => {
                proof {
                    let before = spec_urgency_entries(props.take(i as int));
                    assert(spec_urgency_entries(props.take(i + 1)) =~= before);
                }
            },
        }
        i = i + 1;
    }
    proof {
        assert(props.take(props.len() as int) =~= props);
        lemma_sort_desc(spec_urgency_entries(props));
    }
    port_priorities
}


// ---------------------------------------------------------------------------
// Data-access calls
// ---------------------------------------------------------------------------

/// The `(call identifier, subprogram)` pair, both in lower case, that a call
/// of a subprogram implementation contributes.
pub open spec fn spec_call_entry(c: SubprogramCall) -> Option<(Seq<char>, Seq<char>)> {
    match c.called {
        CalledSubprogram::Classifier(UniqueComponentClassifierReference::Implementation(t)) => Some(
            (lowercase(c.identifier@), lowercase(t.implementation_name.type_identifier@)),
        ),
        _ => None,
    }
}

pub open spec fn spec_call_entries_of(calls: Seq<SubprogramCall>) -> Seq<(Seq<char>, Seq<char>)>
    decreases calls.len(),
{
    if calls.len() == 0 {
        Seq::empty()
    } else {
        spec_call_entries_of(calls.drop_last()) + match spec_call_entry(calls.last()) {
            Some(e) => seq![e],
            None => Seq::empty(),
        }
    }
}

/// The call entries of all call sequences, in order.
pub open spec fn spec_call_entries(seqs: Seq<CallSequence>) -> Seq<(Seq<char>, Seq<char>)>
    decreases seqs.len(),
{
    if seqs.len() == 0 {
        Seq::empty()
    } else {
        spec_call_entries(seqs.drop_last()) + spec_call_entries_of(seqs.last().calls@)
    }
}

/// The value of the last entry with the given key: what a map filled from
/// the entries in order holds for it.
pub open spec fn spec_last_lookup(entries: Seq<(Seq<char>, Seq<char>)>, key: Seq<char>) -> Option<
    Seq<char>,
>
    decreases entries.len(),
{
    if entries.len() == 0 {
        None
    } else if entries.last().0 == key {
        Some(entries.last().1)
    } else {
        spec_last_lookup(entries.drop_last(), key)
    }
}

/// The `(subprogram, shared variable, shared variable in lower case)`
/// triple of a data access connection from a component access to a call.
pub open spec fn spec_access_entry(c: Connection, entries: Seq<(Seq<char>, Seq<char>)>) -> Option<
    (Seq<char>, Seq<char>, Seq<char>),
> {
    match c {
        Connection::Access(a) => match (a.source, a.destination) {
            (
                AccessEndpoint::ComponentAccess(data),
                AccessEndpoint::SubcomponentAccess { subcomponent, .. },
            ) => match spec_last_lookup(entries, lowercase(subcomponent@)) {
                Some(sp) => Some((sp, data@, lowercase(data@))),
                None => None,
            },
            _ => None,
        },
        _ => None,
    }
}

pub open spec fn spec_access_entries(
    conns: Seq<Connection>,
    entries: Seq<(Seq<char>, Seq<char>)>,
) -> Seq<(Seq<char>, Seq<char>, Seq<char>)>
    decreases conns.len(),
{
    if conns.len() == 0 {
        Seq::empty()
    } else {
        spec_access_entries(conns.drop_last(), entries) + match spec_access_entry(
            conns.last(),
            entries,
        ) {
            Some(e) => seq![e],
            None => Seq::empty(),
        }
    }
}

/// The data-access calls of a component implementation.
pub open spec fn spec_data_access_calls(impl_: ComponentImplementation) -> Seq<
    (Seq<char>, Seq<char>, Seq<char>),
> {
    let entries = match impl_.calls {
        CallSequenceClause::Items(seqs) => spec_call_entries(seqs@),
        _ => Seq::empty(),
    };
    match impl_.connections {
        ConnectionClause::Items(conns) => spec_access_entries(conns@, entries),
        _ => Seq::empty(),
    }
}

pub open spec fn pairs_view(v: Seq<(String, String)>) -> Seq<(Seq<char>, Seq<char>)> {
    v.map_values(|p: (String, String)| (p.0@, p.1@))
}

pub open spec fn triples_view(v: Seq<(String, String, String)>) -> Seq<
    (Seq<char>, Seq<char>, Seq<char>),
> {
    v.map_values(|p: (String, String, String)| (p.0@, p.1@, p.2@))
}

fn call_entries(seqs: &Vec<CallSequence>) -> (res: Vec<(String, String)>)
    ensures
        pairs_view(res@) == spec_call_entries(seqs@),
{
    let mut res: Vec<(String, String)> = Vec::new();
    let mut i: usize = 0;
    proof {
        assert(pairs_view(res@) =~= Seq::<(Seq<char>, Seq<char>)>::empty());
        assert(seqs@.take(0) =~= Seq::<CallSequence>::empty());
    }
    while i < seqs.len()
        invariant
            i <= seqs@.len(),
            pairs_view(res@) == spec_call_entries(seqs@.take(i as int)),
        decreases seqs@.len() - i,
    {
        let calls = &seqs[i].calls;
        let ghost before = pairs_view(res@);
        let mut k: usize = 0;
        proof {
            assert(calls@.take(0) =~= Seq::<SubprogramCall>::empty());
            assert(before + spec_call_entries_of(calls@.take(0)) =~= before);
        }
        while k < calls.len()
            invariant
                k <= calls@.len(),
                pairs_view(res@) == before + spec_call_entries_of(calls@.take(k as int)),
            decreases calls@.len() - k,
        {
            let c = &calls[k];
            proof {
                assert(calls@.take(k + 1).drop_last() =~= calls@.take(k as int));
            }
            match &c.called {
                CalledSubprogram::Classifier(
                    UniqueComponentClassifierReference::Implementation(t),
                ) => {
                    let key = to_lower(c.identifier.as_str());
                    let val = to_lower(t.implementation_name.type_identifier.as_str());
                    let ghost e = (key@, val@);
                    let ghost old_res = pairs_view(res@);
                    res.push((key, val));
                    proof {
                        assert(pairs_view(res@) =~= old_res.push(e));
                        assert(spec_call_entries_of(calls@.take(k + 1)) =~= spec_call_entries_of(
                            calls@.take(k as int),
                        ).push(e));
                        assert(pairs_view(res@) =~= before + spec_call_entries_of(
                            calls@.take(k + 1),
                        ));
                    }
                },
                _ => {
                    proof {
                        assert(spec_call_entries_of(calls@.take(k + 1)) =~= spec_call_entries_of(
                            calls@.take(k as int),
                        ));
                    }
                },
            }
            k = k + 1;
        }
        proof {
            assert(calls@.take(calls@.len() as int) =~= calls@);
            assert(seqs@.take(i + 1).drop_last() =~= seqs@.take(i as int));
            assert(seqs@.take(i + 1).last() == seqs@[i as int]);
        }
        i = i + 1;
    }
    proof {
        assert(seqs@.take(seqs@.len() as int) =~= seqs@);
    }
    res
}

fn last_lookup(entries: &Vec<(String, String)>, key: &str) -> (res: Option<String>)
    ensures
        match spec_last_lookup(pairs_view(entries@), key@) {
            Some(v) => res matches Some(r) && r@ == v,
            None => res is None,
        },
{
    let ghost ev = pairs_view(entries@);
    let mut j: usize = entries.len();
    proof {
        assert(ev.take(j as int) =~= ev);
    }
    while j > 0
        invariant
            j <= entries@.len(),
            ev == pairs_view(entries@),
            spec_last_lookup(ev, key@) == spec_last_lookup(ev.take(j as int), key@),
        decreases j,
    {
        proof {
            assert(ev.take(j as int).drop_last() =~= ev.take(j - 1));
        }
        if str_eq(entries[j - 1].0.as_str(), key) {
            return Some(entries[j - 1].1.clone());
        }
        j = j - 1;
    }
    None
}

/// The data-access calls of a component implementation: for each data
/// access connection from a component access `D` to `C.<access>`, where `C`
/// names a call of a subprogram implementation `S` (the last such call when
/// the name repeats, compared in lower case), the triple `(s, D, d)` with
/// `s` and `d` the lower-case forms of `S` and `D`; in the order of the
/// connections.
pub fn extract_data_access_calls(impl_: &ComponentImplementation) -> (res: Vec<
    (String, String, String),
>)
    ensures
        triples_view(res@) == spec_data_access_calls(*impl_),
{
    let call_id_to_subprogram: Vec<(String, String)> = match &impl_.calls {
        CallSequenceClause::Items(seqs) => call_entries(seqs),
        _ => Vec::new(),
    };
    let ghost entries = pairs_view(call_id_to_subprogram@);
    proof {
        assert(entries == match impl_.calls {
            CallSequenceClause::Items(seqs) => spec_call_entries(seqs@),
            _ => Seq::empty(),
        }) by {
            if !(impl_.calls is Items) {
                assert(entries =~= Seq::<(Seq<char>, Seq<char>)>::empty());
            }
        }
    }
    let mut data_access_calls: Vec<(String, String, String)> = Vec::new();
    proof {
        assert(triples_view(data_access_calls@) =~= Seq::<(Seq<char>, Seq<char>, Seq<char>)>::empty());
    }
    if let ConnectionClause::Items(connections) = &impl_.connections {
        let mut i: usize = 0;
        proof {
            assert(connections@.take(0) =~= Seq::<Connection>::empty());
        }
        while i < connections.len()
            invariant
                i <= connections@.len(),
                entries == pairs_view(call_id_to_subprogram@),
                triples_view(data_access_calls@) == spec_access_entries(
                    connections@.take(i as int),
                    entries,
                ),
            decreases connections@.len() - i,
        {
            proof {
                assert(connections@.take(i + 1).drop_last() =~= connections@.take(i as int));
                assert(connections@.take(i + 1).last() == connections@[i as int]);
            }
            let ghost before = triples_view(data_access_calls@);
            let mut pushed = false;
            if let Connection::Access(access_conn) = &connections[i] {
                if let AccessEndpoint::ComponentAccess(data_name) = &access_conn.source {
                    if let AccessEndpoint::SubcomponentAccess { subcomponent, .. } = &access_conn.destination {
                        let key = to_lower(subcomponent.as_str());
                        if let Some(subprogram_name) = last_lookup(&call_id_to_subprogram, key.as_str()) {
                            let shared_var_field = to_lower(data_name.as_str());
                            let shared_var_name = data_name.clone();
                            let ghost e = (subprogram_name@, shared_var_name@, shared_var_field@);
                            data_access_calls.push((subprogram_name, shared_var_name, shared_var_field));
                            pushed = true;
                            proof {
                                assert(triples_view(data_access_calls@) =~= before.push(e));
                            }
                        }
                    }
                }
            }
            proof {
                if !pushed {
                    assert(spec_access_entry(connections@[i as int], entries) is None);
                    assert(triples_view(data_access_calls@) =~= before);
                }
            }
            i = i + 1;
        }
        proof {
            assert(connections@.take(connections@.len() as int) =~= connections@);
        }
    }
    data_access_calls
}


// ---------------------------------------------------------------------------
// Properties and ports read by the thread generator
// ---------------------------------------------------------------------------

/// The first property whose name, in lower case, is `target`.
pub open spec fn spec_find_property(props: Seq<SpecStruProperty>, target: Seq<char>) -> Option<
    SpecStruProperty,
>
    decreases props.len(),
{
    if props.len() == 0 {
        None
    } else if lowercase(props[0].name) == target {
        Some(props[0])
    } else {
        spec_find_property(props.drop_first(), target)
    }
}

/// The number a property gives: an integer (as `as u64` reads it) or the
/// amount of a duration; nothing for a property of another kind or none.
pub open spec fn spec_property_number(props: Seq<SpecStruProperty>, target: Seq<char>) -> Option<
    u64,
> {
    match spec_find_property(props, target) {
        Some(p) => match p.value {
            SpecPropertyValue::Integer(v) => Some(v as u64),
            SpecPropertyValue::Duration(v, _) => Some(v as u64),
            _ => None,
        },
        None => None,
    }
}

/// The dispatch protocol a property list gives, where it is a string.
pub open spec fn spec_dispatch_protocol(props: Seq<SpecStruProperty>) -> Option<Seq<char>> {
    match spec_find_property(props, "dispatch_protocol"@) {
        Some(p) => match p.value {
            SpecPropertyValue::String(v) => Some(v),
            _ => None,
        },
        None => None,
    }
}

fn find_property<'a>(props: &'a Vec<StruProperty>, target: &str) -> (res: Option<&'a StruProperty>)
    ensures
        match spec_find_property(props_view(props@), target@) {
            Some(p) => res matches Some(r) && r@ == p,
            None => res is None,
        },
{
    let ghost pv = props_view(props@);
    let mut i: usize = 0;
    proof {
        assert(pv.skip(0) =~= pv);
    }
    while i < props.len()
        invariant
            i <= props@.len(),
            pv == props_view(props@),
            spec_find_property(pv.skip(i as int), target@) == spec_find_property(pv, target@),
        decreases props@.len() - i,
    {
        proof {
            assert(pv.skip(i as int).drop_first() =~= pv.skip(i + 1));
        }
        let name = to_lower(props[i].name.as_str());
        if str_eq(name.as_str(), target) {
            return Some(&props[i]);
        }
        i = i + 1;
    }
    None
}

/// The number that the implementation's property `name` (compared in lower
/// case) gives: an integer or a duration's amount.
pub fn extract_property_value(temp_converter: &AadlConverter, impl_: &ComponentImplementation, name: &str) -> (res:
    Option<u64>)
    requires
        clause_ok(impl_.properties),
    ensures
        res == spec_property_number(
            spec_convert_clause(impl_.properties),
            lowercase(name@),
        ),
{
    let target_name = to_lower(name);
    let props = temp_converter.convert_properties(ComponentRef::Impl(impl_));
    match find_property(&props, target_name.as_str()) {
        Some(prop) => match &prop.value {
            StruPropertyValue::Integer(val) => Some(*val as u64),
            StruPropertyValue::Duration(val, _unit) => Some(*val),
            _ => None,
        },
        None => None,
    }
}

/// The implementation's `Dispatch_Protocol` (any case), where it is a string.
pub fn extract_dispatch_protocol(temp_converter: &AadlConverter, impl_: &ComponentImplementation) -> (res:
    Option<String>)
    requires
        clause_ok(impl_.properties),
    ensures
        match spec_dispatch_protocol(spec_convert_clause(impl_.properties)) {
            Some(v) => res matches Some(r) && r@ == v,
            None => res is None,
        },
{
    let props = temp_converter.convert_properties(ComponentRef::Impl(impl_));
    match find_property(&props, "dispatch_protocol") {
        Some(prop) => match &prop.value {
            StruPropertyValue::String(val) => Some(val.clone()),
            _ => None,
        },
        None => None,
    }
}

/// Whether a feature is an in event port or in event data port.
pub open spec fn is_in_event_port(f: Feature) -> bool {
    match f {
        Feature::Port(p) => (p.port_type is Event || p.port_type is EventData) && p.direction
            == PortDirection::In,
        _ => false,
    }
}

pub open spec fn spec_in_event_ports(features: Seq<Feature>) -> Seq<Seq<char>>
    decreases features.len(),
{
    if features.len() == 0 {
        Seq::empty()
    } else {
        spec_in_event_ports(features.drop_last()) + if is_in_event_port(features.last()) {
            seq![features.last()->Port_0.identifier@]
        } else {
            Seq::empty()
        }
    }
}

/// The in event ports and in event data ports of an implementation's
/// component type, found by the type's name.
pub open spec fn spec_event_ports(
    components: Seq<(Seq<char>, ComponentType)>,
    impl_: ComponentImplementation,
) -> Seq<Seq<char>> {
    match assoc_first(components, impl_.name.type_identifier@) {
        Some(c) => match c.features {
            FeatureClause::Items(fs) => spec_in_event_ports(fs@),
            _ => Seq::empty(),
        },
        None => Seq::empty(),
    }
}

/// The identifiers of the in event ports and in event data ports of the
/// implementation's component type, in the order of its features.
pub fn extract_event_ports(temp_converter: &AadlConverter, impl_: &ComponentImplementation) -> (res: Vec<
    String,
>)
    ensures
        res@.map_values(|s: String| s@) == spec_event_ports(temp_converter.components(), *impl_),
{
    let mut event_ports: Vec<String> = Vec::new();
    proof {
        assert(event_ports@.map_values(|s: String| s@) =~= Seq::<Seq<char>>::empty());
    }
    if let Some(comp_type) = temp_converter.get_component_type(impl_) {
        if let FeatureClause::Items(features) = &comp_type.features {
            let mut i: usize = 0;
            proof {
                assert(features@.take(0) =~= Seq::<Feature>::empty());
            }
            while i < features.len()
                invariant
                    i <= features@.len(),
                    event_ports@.map_values(|s: String| s@) == spec_in_event_ports(
                        features@.take(i as int),
                    ),
                decreases features@.len() - i,
            {
                proof {
                    assert(features@.take(i + 1).drop_last() =~= features@.take(i as int));
                    assert(features@.take(i + 1).last() == features@[i as int]);
                }
                let ghost before = event_ports@.map_values(|s: String| s@);
                if let Feature::Port(port) = &features[i] {
                    let is_event = match port.port_type {
                        PortType::Event => true,
                        PortType::EventData { .. } => true,
                        _ => false,
                    };
                    let is_in = match port.direction {
                        PortDirection::In => true,
                        _ => false,
                    };
                    if is_event && is_in {
                        event_ports.push(port.identifier.clone());
                        proof {
                            assert(event_ports@.map_values(|s: String| s@) =~= before.push(
                                port.identifier@,
                            ));
                        }
                    }
                }
                i = i + 1;
            }
            proof {
                assert(features@.take(features@.len() as int) =~= features@);
            }
        }
    }
    event_ports
}


// ---------------------------------------------------------------------------
// Parameter connections of subprogram calls
// ---------------------------------------------------------------------------

/// The port `pn` of the first component type named `sp` (compared in lower
/// case) that has one, in the order of the converter's table.
pub open spec fn spec_subprogram_port(
    comps: Seq<(Seq<char>, ComponentType)>,
    sp: Seq<char>,
    pn: Seq<char>,
) -> Option<PortSpec>
    decreases comps.len(),
{
    if comps.len() == 0 {
        None
    } else {
        let c = comps[0].1;
        let here = if lowercase(c.identifier@) == lowercase(sp) {
            match c.features {
                FeatureClause::Items(fs) => spec_port_in_features(fs@, pn),
                _ => None,
            }
        } else {
            None
        };
        match here {
            Some(p) => Some(p),
            None => spec_subprogram_port(comps.drop_first(), sp, pn),
        }
    }
}

/// The type of a subprogram's parameter port, `i32` where none is found.
pub open spec fn spec_subprogram_port_type(
    types: Seq<(Seq<char>, SpecType)>,
    comps: Seq<(Seq<char>, ComponentType)>,
    sp: Seq<char>,
    pn: Seq<char>,
) -> SpecType {
    match spec_subprogram_port(comps, sp, pn) {
        Some(p) => spec_paramport_type(types, p),
        None => SpecType::Named("i32"@),
    }
}

/// The Rust type of the parameter port `port_name` of the subprogram type
/// `subprogram_name` (both compared in lower case): that of the first
/// component type in the converter's table with such a port, `i32` where
/// there is none.
pub fn get_subprogram_port_type(temp_converter: &AadlConverter, subprogram_name: &str, port_name: &str) -> (res:
    Type)
    ensures
        res@ == spec_subprogram_port_type(
            temp_converter.types(),
            temp_converter.components(),
            subprogram_name@,
            port_name@,
        ),
{
    let ghost comps = temp_converter.components();
    let table = &temp_converter.component_types;
    let sp = to_lower(subprogram_name);
    let mut i: usize = 0;
    proof {
        assert(comps.skip(0) =~= comps);
    }
    while i < table.len()
        invariant
            i <= table@.len(),
            comps == temp_converter.components(),
            table == &temp_converter.component_types,
            sp@ == lowercase(subprogram_name@),
            spec_subprogram_port(comps.skip(i as int), subprogram_name@, port_name@)
                == spec_subprogram_port(comps, subprogram_name@, port_name@),
        decreases table@.len() - i,
    {
        proof {
            assert(comps.skip(i as int).drop_first() =~= comps.skip(i + 1));
            assert(comps.skip(i as int)[0].1 == table@[i as int].1);
        }
        let comp_type = &table[i].1;
        let id = to_lower(comp_type.identifier.as_str());
        if str_eq(id.as_str(), sp.as_str()) {
            if let FeatureClause::Items(features) = &comp_type.features {
                if let Some(port) = port_in_features(features, port_name) {
                    return temp_converter.convert_paramport_type(port);
                }
            }
        }
        i = i + 1;
    }
    Type::Named("i32".to_string())
}

/// `(subprogram port, call identifier, thread port, sending, port type)`.
pub type SpecParamCall = (Seq<char>, Seq<char>, Seq<char>, bool, SpecType);

/// The entries one connection gives for the call `ident` of the subprogram
/// `sp`: a sending entry where the connection goes from the call's
/// parameter to a parameter of the thread, a receiving entry where it goes
/// the other way; the names in lower case.
pub open spec fn spec_conn_param_entries(
    types: Seq<(Seq<char>, SpecType)>,
    comps: Seq<(Seq<char>, ComponentType)>,
    sp: Seq<char>,
    ident: Seq<char>,
    c: Connection,
) -> Seq<SpecParamCall> {
    match c {
        Connection::Parameter(pc) => {
            let send: Seq<SpecParamCall> = match pc.source {
                ParameterEndpoint::SubprogramCallParameter { call_identifier, parameter } => {
                    let sou = lowercase(parameter@);
                    if ident == lowercase(call_identifier@) {
                        match pc.destination {
                            ParameterEndpoint::ComponentParameter { parameter: tp, .. } => seq![
                                (
                                    lowercase(sou),
                                    lowercase(ident),
                                    lowercase(lowercase(tp@)),
                                    true,
                                    spec_subprogram_port_type(types, comps, sp, sou),
                                ),
                            ],
                            _ => Seq::empty(),
                        }
                    } else {
                        Seq::empty()
                    }
                },
                _ => Seq::empty(),
            };
            let recv: Seq<SpecParamCall> = match pc.destination {
                ParameterEndpoint::SubprogramCallParameter { call_identifier, parameter } => {
                    let des = lowercase(parameter@);
                    if ident == lowercase(call_identifier@) {
                        match pc.source {
                            ParameterEndpoint::ComponentParameter { parameter: tp, .. } => seq![
                                (
                                    lowercase(des),
                                    lowercase(ident),
                                    lowercase(lowercase(tp@)),
                                    false,
                                    spec_subprogram_port_type(types, comps, sp, des),
                                ),
                            ],
                            _ => Seq::empty(),
                        }
                    } else {
                        Seq::empty()
                    }
                },
                _ => Seq::empty(),
            };
            send + recv
        },
        _ => Seq::empty(),
    }
}

pub open spec fn spec_conns_param_entries(
    types: Seq<(Seq<char>, SpecType)>,
    comps: Seq<(Seq<char>, ComponentType)>,
    sp: Seq<char>,
    ident: Seq<char>,
    conns: Seq<Connection>,
) -> Seq<SpecParamCall>
    decreases conns.len(),
{
    if conns.len() == 0 {
        Seq::empty()
    } else {
        spec_conns_param_entries(types, comps, sp, ident, conns.drop_last())
            + spec_conn_param_entries(types, comps, sp, ident, conns.last())
    }
}

/// The parameter entries of all calls, taking the calls from the pairs
/// `(call identifier, subprogram)` they give.
pub open spec fn spec_calls_param_entries(
    types: Seq<(Seq<char>, SpecType)>,
    comps: Seq<(Seq<char>, ComponentType)>,
    calls: Seq<(Seq<char>, Seq<char>)>,
    conns: Seq<Connection>,
) -> Seq<SpecParamCall>
    decreases calls.len(),
{
    if calls.len() == 0 {
        Seq::empty()
    } else {
        spec_calls_param_entries(types, comps, calls.drop_last(), conns)
            + spec_conns_param_entries(types, comps, calls.last().1, calls.last().0, conns)
    }
}

/// The subprogram calls of an implementation with parameter connections,
/// in the order of the calls, then of the connections.
pub open spec fn spec_subprogram_calls(
    types: Seq<(Seq<char>, SpecType)>,
    comps: Seq<(Seq<char>, ComponentType)>,
    impl_: ComponentImplementation,
) -> Seq<SpecParamCall> {
    match impl_.calls {
        CallSequenceClause::Items(seqs) => match impl_.connections {
            ConnectionClause::Items(conns) => spec_calls_param_entries(
                types,
                comps,
                spec_call_entries(seqs@),
                conns@,
            ),
            _ => Seq::empty(),
        },
        _ => Seq::empty(),
    }
}

pub open spec fn param_calls_view(v: Seq<(String, String, String, bool, Type)>) -> Seq<SpecParamCall> {
    v.map_values(|e: (String, String, String, bool, Type)| (e.0@, e.1@, e.2@, e.3, e.4@))
}

fn push_param_call(v: &mut Vec<(String, String, String, bool, Type)>, e: (String, String, String, bool, Type))
    ensures
        param_calls_view(final(v)@) == param_calls_view(old(v)@).push((e.0@, e.1@, e.2@, e.3, e.4@)),
{
    let ghost ev = (e.0@, e.1@, e.2@, e.3, e.4@);
    v.push(e);
    proof {
        assert(param_calls_view(v@) =~= param_calls_view(old(v)@).push(ev));
    }
}

fn conn_param_entries(
    conv: &AadlConverter,
    sp: &str,
    ident: &str,
    c: &Connection,
    out: &mut Vec<(String, String, String, bool, Type)>,
)
    ensures
        param_calls_view(final(out)@) == param_calls_view(old(out)@) + spec_conn_param_entries(
            conv.types(),
            conv.components(),
            sp@,
            ident@,
            *c,
        ),
{
    let ghost start = param_calls_view(out@);
    if let Connection::Parameter(port_conn) = c {
        if let ParameterEndpoint::SubprogramCallParameter { call_identifier, parameter } = &port_conn.source {
            let sou_parameter = to_lower(parameter.as_str());
            let cid = to_lower(call_identifier.as_str());
            if str_eq(ident, cid.as_str()) {
                if let ParameterEndpoint::ComponentParameter { parameter: tp, .. } = &port_conn.destination {
                    let thread_port_name = to_lower(tp.as_str());
                    let port_type = get_subprogram_port_type(conv, sp, sou_parameter.as_str());
                    push_param_call(
                        out,
                        (
                            to_lower(sou_parameter.as_str()),
                            to_lower(ident),
                            to_lower(thread_port_name.as_str()),
                            true,
                            port_type,
                        ),
                    );
                }
            }
        }
        let ghost mid = param_calls_view(out@);
        if let ParameterEndpoint::SubprogramCallParameter { call_identifier, parameter } = &port_conn.destination {
            let des_parameter = to_lower(parameter.as_str());
            let cid = to_lower(call_identifier.as_str());
            if str_eq(ident, cid.as_str()) {
                if let ParameterEndpoint::ComponentParameter { parameter: tp, .. } = &port_conn.source {
                    let thread_port_name = to_lower(tp.as_str());
                    let port_type = get_subprogram_port_type(conv, sp, des_parameter.as_str());
                    push_param_call(
                        out,
                        (
                            to_lower(des_parameter.as_str()),
                            to_lower(ident),
                            to_lower(thread_port_name.as_str()),
                            false,
                            port_type,
                        ),
                    );
                }
            }
        }
        proof {
            assert(param_calls_view(out@) =~= start + spec_conn_param_entries(
                conv.types(),
                conv.components(),
                sp@,
                ident@,
                *c,
            ));
        }
    } else {
        proof {
            assert(start + Seq::<SpecParamCall>::empty() =~= start);
        }
    }
}

/// The subprogram calls of a thread implementation whose parameters are
/// connected to the thread's parameters: for each call of a subprogram
/// implementation, in order, and each parameter connection, in order, the
/// entry `(subprogram port, call identifier, thread port, sending, port
/// type)`, the names in lower case.
pub fn extract_subprogram_calls(temp_converter: &AadlConverter, impl_: &ComponentImplementation) -> (res:
    Vec<(String, String, String, bool, Type)>)
    ensures
        param_calls_view(res@) == spec_subprogram_calls(
            temp_converter.types(),
            temp_converter.components(),
            *impl_,
        ),
{
    let mut calls: Vec<(String, String, String, bool, Type)> = Vec::new();
    proof {
        assert(param_calls_view(calls@) =~= Seq::<SpecParamCall>::empty());
    }
    if let CallSequenceClause::Items(calls_clause) = &impl_.calls {
        if let ConnectionClause::Items(connections) = &impl_.connections {
            let entries = call_entries(calls_clause);
            let ghost ev = pairs_view(entries@);
            let ghost types = temp_converter.types();
            let ghost comps = temp_converter.components();
            let mut i: usize = 0;
            proof {
                assert(ev.take(0) =~= Seq::<(Seq<char>, Seq<char>)>::empty());
            }
            while i < entries.len()
                invariant
                    i <= entries@.len(),
                    ev == pairs_view(entries@),
                    types == temp_converter.types(),
                    comps == temp_converter.components(),
                    param_calls_view(calls@) == spec_calls_param_entries(
                        types,
                        comps,
                        ev.take(i as int),
                        connections@,
                    ),
                decreases entries@.len() - i,
            {
                proof {
                    assert(ev.take(i + 1).drop_last() =~= ev.take(i as int));
                    assert(ev.take(i + 1).last() == ev[i as int]);
                }
                let ghost before = param_calls_view(calls@);
                let ident = &entries[i].0;
                let sp = &entries[i].1;
                let mut k: usize = 0;
                proof {
                    assert(connections@.take(0) =~= Seq::<Connection>::empty());
                    assert(before + Seq::<SpecParamCall>::empty() =~= before);
                }
                while k < connections.len()
                    invariant
                        k <= connections@.len(),
                        types == temp_converter.types(),
                        comps == temp_converter.components(),
                        param_calls_view(calls@) == before + spec_conns_param_entries(
                            types,
                            comps,
                            sp@,
                            ident@,
                            connections@.take(k as int),
                        ),
                    decreases connections@.len() - k,
                {
                    proof {
                        assert(connections@.take(k + 1).drop_last() =~= connections@.take(k as int));
                        assert(connections@.take(k + 1).last() == connections@[k as int]);
                    }
                    conn_param_entries(temp_converter, sp.as_str(), ident.as_str(), &connections[k], &mut calls);
                    proof {
                        assert(before + spec_conns_param_entries(types, comps, sp@, ident@, connections@.take(k + 1))
                            =~= before + spec_conns_param_entries(types, comps, sp@, ident@, connections@.take(k as int))
                            + spec_conn_param_entries(types, comps, sp@, ident@, connections@[k as int]));
                    }
                    k = k + 1;
                }
                proof {
                    assert(connections@.take(connections@.len() as int) =~= connections@);
                }
                i = i + 1;
            }
            proof {
                assert(ev.take(ev.len() as int) =~= ev);
            }
        }
    }
    calls
}


// ---------------------------------------------------------------------------
// Calling the subprograms
// ---------------------------------------------------------------------------

/// The first entry for the call `call_id`.
pub open spec fn spec_find_param_call(calls: Seq<SpecParamCall>, call_id: Seq<char>) -> Option<
    SpecParamCall,
>
    decreases calls.len(),
{
    if calls.len() == 0 {
        None
    } else if calls[0].1 == call_id {
        Some(calls[0])
    } else {
        spec_find_param_call(calls.drop_first(), call_id)
    }
}

/// `if let Some(sender) = &mut self.<port> { let mut val = <default>; <sp>::send(&mut val); sender.send(val).unwrap(); }`
pub open spec fn spec_send_stmt(sp: Seq<char>, port: Seq<char>, default: SpecExpr) -> SpecStatement {
    SpecStatement::Expr(
        SpecExpr::IfLet {
            pattern: "Some(sender)"@,
            value: Box::new(SpecExpr::Reference(Box::new(s_member("self"@, port)), true, false)),
            then_branch: s_block(
                seq![
                    s_let(true, "val"@, None, Some(default)),
                    SpecStatement::Expr(
                        SpecExpr::Call(
                            Box::new(s_ns2(sp, "send"@)),
                            seq![SpecExpr::Reference(Box::new(s_ident("val"@)), true, true)],
                        ),
                    ),
                    SpecStatement::Expr(
                        s_mcall(
                            s_mcall(s_ident("sender"@), "send"@, seq![s_ident("val"@)]),
                            "unwrap"@,
                            Seq::empty(),
                        ),
                    ),
                ],
            ),
            else_branch: None,
        },
    )
}

/// `<sp>::receive(val)`
pub open spec fn spec_receive_call(sp: Seq<char>) -> SpecExpr {
    SpecExpr::Call(Box::new(s_ns2(sp, "receive"@)), seq![s_ident("val"@)])
}

/// `if let Some(receiver) = &mut self.<port> { match receiver.try_recv() { ... } }`
pub open spec fn spec_receive_match_stmt(sp: Seq<char>, port: Seq<char>) -> SpecStatement {
    SpecStatement::Expr(
        SpecExpr::IfLet {
            pattern: "Some(receiver)"@,
            value: Box::new(SpecExpr::Reference(Box::new(s_member("self"@, port)), true, false)),
            then_branch: s_block(
                seq![
                    SpecStatement::Expr(
                        SpecExpr::Match {
                            expr: Box::new(s_mcall(s_ident("receiver"@), "try_recv"@, Seq::empty())),
                            arms: seq![
                                SpecMatchArm {
                                    pattern: "Ok(val)"@,
                                    guard: None,
                                    body: s_block(seq![SpecStatement::Expr(spec_receive_call(sp))]),
                                },
                                SpecMatchArm {
                                    pattern: "Err(crossbeam_channel::TryRecvError::Empty)"@,
                                    guard: None,
                                    body: s_block(Seq::empty()),
                                },
                                SpecMatchArm {
                                    pattern: "Err(crossbeam_channel::TryRecvError::Disconnected)"@,
                                    guard: None,
                                    body: s_block(
                                        seq![
                                            SpecStatement::Expr(
                                                SpecExpr::Call(
                                                    Box::new(
                                                        SpecExpr::Path(
                                                            seq!["eprintln!"@],
                                                            PathType::Namespace,
                                                        ),
                                                    ),
                                                    seq![s_str("channel closed"@)],
                                                ),
                                            ),
                                        ],
                                    ),
                                },
                            ],
                        },
                    ),
                ],
            ),
            else_branch: None,
        },
    )
}

/// `{ { if let Ok(mut guard) = self.<field>.lock() { guard.<sp>(); } } }`
pub open spec fn spec_lock_stmt(sp: Seq<char>, field: Seq<char>) -> SpecStatement {
    SpecStatement::Expr(
        SpecExpr::Block(
            s_block(
                seq![
                    SpecStatement::Expr(
                        SpecExpr::Block(
                            s_block(
                                seq![
                                    SpecStatement::Expr(
                                        SpecExpr::IfLet {
                                            pattern: "Ok(mut guard)"@,
                                            value: Box::new(
                                                s_mcall(s_member("self"@, field), "lock"@, Seq::empty()),
                                            ),
                                            then_branch: s_block(
                                                seq![
                                                    SpecStatement::Expr(
                                                        SpecExpr::Call(
                                                            Box::new(s_member("guard"@, sp)),
                                                            Seq::empty(),
                                                        ),
                                                    ),
                                                ],
                                            ),
                                            else_branch: None,
                                        },
                                    ),
                                ],
                            ),
                        ),
                    ),
                ],
            ),
        ),
    )
}

/// `<sp>::execute()`
pub open spec fn spec_execute_stmt(sp: Seq<char>) -> SpecStatement {
    SpecStatement::Expr(SpecExpr::Call(Box::new(s_ns2(sp, "execute"@)), Seq::empty()))
}

/// The statements for one call `(call_id, sp)`: a comment naming it, then
/// its exchange: sending a default value or receiving where the call has a
/// parameter connection (receiving the value already read where the thread
/// has receiving subprograms), calling it under the lock of the shared
/// variable it accesses, or calling `execute`.
pub open spec fn spec_call_stmts(
    types: Seq<(Seq<char>, SpecType)>,
    calls: Seq<SpecParamCall>,
    shared: Seq<(Seq<char>, Seq<char>)>,
    has_receiving: bool,
    call_id: Seq<char>,
    sp: Seq<char>,
) -> Seq<SpecStatement> {
    seq![SpecStatement::Expr(s_ident("// "@ + call_id))] + match spec_find_param_call(calls, call_id) {
        Some(e) => if e.3 {
            seq![spec_send_stmt(sp, e.2, spec_default_of(types, e.4))]
        } else if has_receiving {
            seq![SpecStatement::Expr(spec_receive_call(sp))]
        } else {
            seq![spec_receive_match_stmt(sp, e.2)]
        },
        None => match spec_last_lookup(shared, sp) {
            Some(field) => seq![spec_lock_stmt(sp, field)],
            None => seq![spec_execute_stmt(sp)],
        },
    }
}

pub open spec fn spec_calls_stmts(
    types: Seq<(Seq<char>, SpecType)>,
    calls: Seq<SpecParamCall>,
    shared: Seq<(Seq<char>, Seq<char>)>,
    has_receiving: bool,
    seq_: Seq<(Seq<char>, Seq<char>)>,
) -> Seq<SpecStatement>
    decreases seq_.len(),
{
    if seq_.len() == 0 {
        Seq::empty()
    } else {
        spec_calls_stmts(types, calls, shared, has_receiving, seq_.drop_last()) + spec_call_stmts(
            types,
            calls,
            shared,
            has_receiving,
            seq_.last().0,
            seq_.last().1,
        )
    }
}

/// The `(subprogram, shared variable field)` pairs of the data-access calls.
pub open spec fn spec_shared_pairs(t: Seq<(Seq<char>, Seq<char>, Seq<char>)>) -> Seq<
    (Seq<char>, Seq<char>),
> {
    t.map_values(|e: (Seq<char>, Seq<char>, Seq<char>)| (e.0, e.2))
}

/// The comment listing the calls in order: `<call>() -> <call>() -> ...`.
pub open spec fn spec_sequence_comment(seq_: Seq<(Seq<char>, Seq<char>)>) -> SpecStatement {
    SpecStatement::Expr(
        s_ident(
            spec_sequence_header() + seq_join(
                seq_.map_values(|c: (Seq<char>, Seq<char>)| c.0 + "()"@),
                " -> "@,
            ),
        ),
    )
}

/// The code that runs the subprogram calls of a thread implementation, in
/// the order of its call sequences.
pub open spec fn spec_subprogram_call_logic(
    types: Seq<(Seq<char>, SpecType)>,
    comps: Seq<(Seq<char>, ComponentType)>,
    impl_: ComponentImplementation,
    has_receiving: bool,
) -> Seq<SpecStatement> {
    let seq_ = match impl_.calls {
        CallSequenceClause::Items(seqs) => spec_call_entries(seqs@),
        _ => Seq::empty(),
    };
    (if seq_.len() > 0 {
        seq![spec_sequence_comment(seq_)]
    } else {
        Seq::empty()
    }) + spec_calls_stmts(
        types,
        spec_subprogram_calls(types, comps, impl_),
        spec_shared_pairs(spec_data_access_calls(impl_)),
        has_receiving,
        seq_,
    )
}

/// The (call, subprogram) pairs of an implementation's call sequences.
pub open spec fn spec_sequence_of(impl_: ComponentImplementation) -> Seq<(Seq<char>, Seq<char>)> {
    match impl_.calls {
        CallSequenceClause::Items(seqs) => spec_call_entries(seqs@),
        _ => Seq::empty(),
    }
}

/// Where the call `id` sends a value, following the type table from the
/// type of that value ends, so that it has a default.
pub open spec fn send_default_ends(
    types: Seq<(Seq<char>, SpecType)>,
    calls: Seq<SpecParamCall>,
    id: Seq<char>,
) -> bool {
    match spec_find_param_call(calls, id) {
        Some(e) => e.3 ==> spec_default_value(types, e.4, types.len() + 1) is Some,
        None => true,
    }
}

/// For every sending call that the implementation's call sequences reach,
/// the type of the value it sends has a default: these are the only types
/// the thread's code makes a default value for.
pub open spec fn sends_defaults_end(
    types: Seq<(Seq<char>, SpecType)>,
    comps: Seq<(Seq<char>, ComponentType)>,
    impl_: ComponentImplementation,
) -> bool {
    let calls = spec_subprogram_calls(types, comps, impl_);
    let seq_ = spec_sequence_of(impl_);
    forall|k: int| 0 <= k < seq_.len() ==> #[trigger] send_default_ends(types, calls, seq_[k].0)
}

/// Whether the sending calls' value types have defaults (see
/// `sends_defaults_end`).
pub fn sends_defaults_end_exec(temp_converter: &AadlConverter, impl_: &ComponentImplementation) -> (res: bool)
    ensures
        res == sends_defaults_end(temp_converter.types(), temp_converter.components(), *impl_),
{
    let ghost types = temp_converter.types();
    let calls = extract_subprogram_calls(temp_converter, impl_);
    let entries: Vec<(String, String)> = match &impl_.calls {
        CallSequenceClause::Items(seqs) => call_entries(seqs),
        _ => Vec::new(),
    };
    let ghost mv = pairs_view(entries@);
    let ghost cv = param_calls_view(calls@);
    proof {
        if !(impl_.calls is Items) {
            assert(mv =~= Seq::<(Seq<char>, Seq<char>)>::empty());
        }
        assert(mv == spec_sequence_of(*impl_));
    }
    let mut i: usize = 0;
    while i < entries.len()
        invariant
            i <= entries@.len(),
            mv == pairs_view(entries@),
            mv == spec_sequence_of(*impl_),
            cv == param_calls_view(calls@),
            cv == spec_subprogram_calls(types, temp_converter.components(), *impl_),
            types == temp_converter.types(),
            forall|k: int| 0 <= k < i ==> #[trigger] send_default_ends(types, cv, mv[k].0),
        decreases entries@.len() - i,
    {
        assert(mv[i as int].0 == entries@[i as int].0@);
        match find_param_call(&calls, entries[i].0.as_str()) {
            Some(entry) => {
                if entry.3 {
                    if !default_exists(&temp_converter.type_mappings, &entry.4, temp_converter.type_mappings.len() as u128 + 1) {
                        assert(!send_default_ends(types, cv, mv[i as int].0));
                        return false;
                    }
                }
            },
            None => {},
        }
        assert(send_default_ends(types, cv, mv[i as int].0));
        i = i + 1;
    }
    true
}

fn find_param_call<'a>(calls: &'a Vec<(String, String, String, bool, Type)>, call_id: &str) -> (res:
    Option<&'a (String, String, String, bool, Type)>)
    ensures
        match spec_find_param_call(param_calls_view(calls@), call_id@) {
            Some(e) => res matches Some(r) && (r.0@, r.1@, r.2@, r.3, r.4@) == e,
            None => res is None,
        },
{
    let ghost cv = param_calls_view(calls@);
    let mut i: usize = 0;
    proof {
        assert(cv.skip(0) =~= cv);
    }
    while i < calls.len()
        invariant
            i <= calls@.len(),
            cv == param_calls_view(calls@),
            spec_find_param_call(cv.skip(i as int), call_id@) == spec_find_param_call(cv, call_id@),
        decreases calls@.len() - i,
    {
        proof {
            assert(cv.skip(i as int).drop_first() =~= cv.skip(i + 1));
        }
        if str_eq(calls[i].1.as_str(), call_id) {
            return Some(&calls[i]);
        }
        i = i + 1;
    }
    None
}

fn send_stmt(sp: &str, port: &str, default: Expr) -> (res: Statement)
    ensures
        res@ == spec_send_stmt(sp@, port@, default@),
{
    let mut stmts: Vec<Statement> = Vec::new();
    let l = mk_let(true, "val", None, Some(default));
    let ghost lv = l@;
    stmts.push(l);
    let c = mk_call(mk_ns2(sp, "send"), vec1_expr(Expr::Reference(Box::new(mk_ident("val")), true, true)));
    let ghost cv = c@;
    stmts.push(Statement::Expr(c));
    let u = mk_mcall0(mk_mcall1(mk_ident("sender"), "send", mk_ident("val")), "unwrap");
    let ghost uv = u@;
    stmts.push(Statement::Expr(u));
    proof {
        lemma_views_empty();
        assert(stmts@ =~= Seq::<Statement>::empty().push(stmts@[0]).push(stmts@[1]).push(stmts@[2]));
        assert(stmts_view(stmts@) =~= seq![lv, SpecStatement::Expr(cv), SpecStatement::Expr(uv)]);
    }
    Statement::Expr(
        Expr::IfLet {
            pattern: "Some(sender)".to_string(),
            value: Box::new(Expr::Reference(Box::new(mk_member("self", port)), true, false)),
            then_branch: mk_block(stmts),
            else_branch: None,
        },
    )
}

fn receive_call(sp: &str) -> (res: Expr)
    ensures
        res@ == spec_receive_call(sp@),
{
    mk_call(mk_ns2(sp, "receive"), vec1_expr(mk_ident("val")))
}

fn receive_match_stmt(sp: &str, port: &str) -> (res: Statement)
    ensures
        res@ == spec_receive_match_stmt(sp@, port@),
{
    let arm_ok = MatchArm {
        pattern: "Ok(val)".to_string(),
        guard: None,
        body: mk_block(vec1_stmt(Statement::Expr(receive_call(sp)))),
    };
    let arm_empty = MatchArm {
        pattern: "Err(crossbeam_channel::TryRecvError::Empty)".to_string(),
        guard: None,
        body: mk_block(Vec::new()),
    };
    let mut path: Vec<String> = Vec::new();
    path.push("eprintln!".to_string());
    proof {
        assert(strings_view(path@) =~= seq!["eprintln!"@]);
    }
    let print = mk_call(
        Expr::Path(path, PathType::Namespace),
        vec1_expr(Expr::Literal(Literal::Str("channel closed".to_string()))),
    );
    let arm_closed = MatchArm {
        pattern: "Err(crossbeam_channel::TryRecvError::Disconnected)".to_string(),
        guard: None,
        body: mk_block(vec1_stmt(Statement::Expr(print))),
    };
    let ghost (a1, a2, a3) = (arm_ok@, arm_empty@, arm_closed@);
    let mut arms: Vec<MatchArm> = Vec::new();
    arms.push(arm_ok);
    arms.push(arm_empty);
    arms.push(arm_closed);
    proof {
        lemma_views_empty();
        assert(arms@ =~= Seq::<MatchArm>::empty().push(arms@[0]).push(arms@[1]).push(arms@[2]));
        assert(arms_view(arms@) =~= seq![a1, a2, a3]);
        assert(a2.body == s_block(Seq::empty()));
    }
    let m = Expr::Match { expr: Box::new(mk_mcall0(mk_ident("receiver"), "try_recv")), arms };
    Statement::Expr(
        Expr::IfLet {
            pattern: "Some(receiver)".to_string(),
            value: Box::new(Expr::Reference(Box::new(mk_member("self", port)), true, false)),
            then_branch: mk_block(vec1_stmt(Statement::Expr(m))),
            else_branch: None,
        },
    )
}

fn lock_stmt(sp: &str, field: &str) -> (res: Statement)
    ensures
        res@ == spec_lock_stmt(sp@, field@),
{
    let call = Statement::Expr(mk_call(mk_member("guard", sp), Vec::new()));
    proof {
        lemma_views_empty();
    }
    let if_let = Statement::Expr(
        Expr::IfLet {
            pattern: "Ok(mut guard)".to_string(),
            value: Box::new(mk_mcall0(mk_member("self", field), "lock")),
            then_branch: mk_block(vec1_stmt(call)),
            else_branch: None,
        },
    );
    let inner = Statement::Expr(Expr::Block(mk_block(vec1_stmt(if_let))));
    Statement::Expr(Expr::Block(mk_block(vec1_stmt(inner))))
}

fn execute_stmt(sp: &str) -> (res: Statement)
    ensures
        res@ == spec_execute_stmt(sp@),
{
    proof {
        lemma_views_empty();
    }
    Statement::Expr(mk_call(mk_ns2(sp, "execute"), Vec::new()))
}

fn shared_pairs(t: &Vec<(String, String, String)>) -> (res: Vec<(String, String)>)
    ensures
        pairs_view(res@) == spec_shared_pairs(triples_view(t@)),
{
    let mut res: Vec<(String, String)> = Vec::new();
    let mut i: usize = 0;
    proof {
        assert(pairs_view(res@) =~= spec_shared_pairs(triples_view(t@)).take(0));
    }
    while i < t.len()
        invariant
            i <= t@.len(),
            pairs_view(res@) == spec_shared_pairs(triples_view(t@)).take(i as int),
        decreases t@.len() - i,
    {
        let ghost before = res@;
        let a = t[i].0.clone();
        let b = t[i].2.clone();
        let ghost e = (a@, b@);
        res.push((a, b));
        proof {
            assert(e == spec_shared_pairs(triples_view(t@))[i as int]);
            assert(pairs_view(res@) =~= pairs_view(before).push(e));
            assert(spec_shared_pairs(triples_view(t@)).take(i + 1) =~= spec_shared_pairs(
                triples_view(t@),
            ).take(i as int).push(e));
        }
        i = i + 1;
    }
    proof {
        assert(spec_shared_pairs(triples_view(t@)).take(t@.len() as int) =~= spec_shared_pairs(
            triples_view(t@),
        ));
    }
    res
}

fn sequence_comment(seq_: &Vec<(String, String)>) -> (res: Statement)
    ensures
        res@ == spec_sequence_comment(pairs_view(seq_@)),
{
    let ghost sv = pairs_view(seq_@);
    let mut names: Vec<String> = Vec::new();
    let mut i: usize = 0;
    proof {
        assert(strings_view(names@) =~= sv.map_values(|c: (Seq<char>, Seq<char>)| c.0 + "()"@).take(0));
    }
    while i < seq_.len()
        invariant
            i <= seq_@.len(),
            sv == pairs_view(seq_@),
            strings_view(names@) == sv.map_values(|c: (Seq<char>, Seq<char>)| c.0 + "()"@).take(
                i as int,
            ),
        decreases seq_@.len() - i,
    {
        let n = concat(seq_[i].0.as_str(), "()");
        let ghost before = names@;
        let ghost nv = n@;
        names.push(n);
        proof {
            assert(names@.drop_last() =~= before);
            assert(strings_view(names@) =~= strings_view(before).push(nv));
            assert(nv == sv.map_values(|c: (Seq<char>, Seq<char>)| c.0 + "()"@)[i as int]);
            assert(strings_view(names@) =~= sv.map_values(|c: (Seq<char>, Seq<char>)| c.0 + "()"@).take(
                i + 1,
            ));
        }
        i = i + 1;
    }
    proof {
        assert(sv.map_values(|c: (Seq<char>, Seq<char>)| c.0 + "()"@).take(sv.len() as int)
            =~= sv.map_values(|c: (Seq<char>, Seq<char>)| c.0 + "()"@));
    }
    let joined = join_strings(&names, " -> ");
    Statement::Expr(Expr::Ident(concat(sequence_header(), joined.as_str())))
}

/// The code that runs the subprogram calls of a thread implementation (see
/// `spec_subprogram_call_logic`).
pub fn create_subprogram_call_logic_with_data(
    temp_converter: &AadlConverter,
    impl_: &ComponentImplementation,
    has_receiving_subprograms: bool,
) -> (res: Vec<Statement>)
    requires
        sends_defaults_end(temp_converter.types(), temp_converter.components(), *impl_),
    ensures
        stmts_view(res@) == spec_subprogram_call_logic(
            temp_converter.types(),
            temp_converter.components(),
            *impl_,
            has_receiving_subprograms,
        ),
{
    let ghost types = temp_converter.types();
    let mut port_handling_stmts: Vec<Statement> = Vec::new();
    let subprogram_calls = extract_subprogram_calls(temp_converter, impl_);
    let mycalls_sequence: Vec<(String, String)> = match &impl_.calls {
        CallSequenceClause::Items(seqs) => call_entries(seqs),
        _ => Vec::new(),
    };
    let ghost mv = pairs_view(mycalls_sequence@);
    proof {
        if !(impl_.calls is Items) {
            assert(mv =~= Seq::<(Seq<char>, Seq<char>)>::empty());
        }
        assert(mv == spec_sequence_of(*impl_));
    }
    let data_access_calls = extract_data_access_calls(impl_);
    let shared_var_subprograms = shared_pairs(&data_access_calls);
    let ghost cv = param_calls_view(subprogram_calls@);
    let ghost shv = pairs_view(shared_var_subprograms@);
    proof {
        lemma_views_empty();
    }
    if mycalls_sequence.len() > 0 {
        port_handling_stmts.push(sequence_comment(&mycalls_sequence));
    }
    let ghost head = stmts_view(port_handling_stmts@);
    proof {
        assert(head =~= if mv.len() > 0 {
            seq![spec_sequence_comment(mv)]
        } else {
            Seq::<SpecStatement>::empty()
        });
        assert(mv.take(0) =~= Seq::<(Seq<char>, Seq<char>)>::empty());
        assert(head + Seq::<SpecStatement>::empty() =~= head);
    }
    let mut i: usize = 0;
    while i < mycalls_sequence.len()
        invariant
            i <= mycalls_sequence@.len(),
            mv == pairs_view(mycalls_sequence@),
            cv == param_calls_view(subprogram_calls@),
            shv == pairs_view(shared_var_subprograms@),
            types == temp_converter.types(),
            mv == spec_sequence_of(*impl_),
            cv == spec_subprogram_calls(types, temp_converter.components(), *impl_),
            sends_defaults_end(types, temp_converter.components(), *impl_),
            stmts_view(port_handling_stmts@) == head + spec_calls_stmts(
                types,
                cv,
                shv,
                has_receiving_subprograms,
                mv.take(i as int),
            ),
        decreases mycalls_sequence@.len() - i,
    {
        proof {
            assert(mv.take(i + 1).drop_last() =~= mv.take(i as int));
            assert(mv.take(i + 1).last() == mv[i as int]);
        }
        let call_id = &mycalls_sequence[i].0;
        let subprogram_name = &mycalls_sequence[i].1;
        let ghost before = stmts_view(port_handling_stmts@);
        port_handling_stmts.push(Statement::Expr(Expr::Ident(concat("// ", call_id.as_str()))));
        let st: Statement = match find_param_call(&subprogram_calls, call_id.as_str()) {
            Some(entry) => {
                if entry.3 {
                    proof {
                        assert(send_default_ends(types, cv, mv[i as int].0));
                        assert(spec_default_value(types, entry.4@, types.len() + 1) is Some);
                    }
                    let default_value = temp_converter.generate_default_value_for_type(&entry.4);
                    send_stmt(subprogram_name.as_str(), entry.2.as_str(), default_value)
                } else if has_receiving_subprograms {
                    Statement::Expr(receive_call(subprogram_name.as_str()))
                } else {
                    receive_match_stmt(subprogram_name.as_str(), entry.2.as_str())
                }
            },
            None => {
                match last_lookup(&shared_var_subprograms, subprogram_name.as_str()) {
                    Some(field) => lock_stmt(subprogram_name.as_str(), field.as_str()),
                    None => execute_stmt(subprogram_name.as_str()),
                }
            },
        };
        port_handling_stmts.push(st);
        proof {
            assert(stmts_view(port_handling_stmts@) =~= before + spec_call_stmts(
                types,
                cv,
                shv,
                has_receiving_subprograms,
                mv[i as int].0,
                mv[i as int].1,
            ));
            assert(head + spec_calls_stmts(types, cv, shv, has_receiving_subprograms, mv.take(i + 1))
                =~= before + spec_call_stmts(
                types,
                cv,
                shv,
                has_receiving_subprograms,
                mv[i as int].0,
                mv[i as int].1,
            ));
        }
        i = i + 1;
    }
    proof {
        assert(mv.take(mv.len() as int) =~= mv);
    }
    port_handling_stmts
}

/// The calls without a received value: `create_subprogram_call_logic_with_data`
/// with no receiving subprograms.
pub fn create_subprogram_call_logic(temp_converter: &AadlConverter, impl_: &ComponentImplementation) -> (res:
    Vec<Statement>)
    requires
        sends_defaults_end(temp_converter.types(), temp_converter.components(), *impl_),
    ensures
        stmts_view(res@) == spec_subprogram_call_logic(
            temp_converter.types(),
            temp_converter.components(),
            *impl_,
            false,
        ),
{
    create_subprogram_call_logic_with_data(temp_converter, impl_, false)
}


// ---------------------------------------------------------------------------
// Aperiodic threads
// ---------------------------------------------------------------------------

/// The closure that picks, of two events, the more urgent one (the earlier
/// on equal urgency).
pub open spec fn spec_urgency_order_text() -> Seq<char> {
    "|a, b| match a.1.1.cmp(&b.1.1) {\n                        std::cmp::Ordering::Equal => b.1.2.cmp(&a.1.2),\n                        other => other,\n                    }"@
}

fn urgency_order_text() -> (res: &'static str)
    ensures
        res@ == spec_urgency_order_text(),
{
    "|a, b| match a.1.1.cmp(&b.1.1) {\n                        std::cmp::Ordering::Equal => b.1.2.cmp(&a.1.2),\n                        other => other,\n                    }"
}

/// Whether some subprogram call receives a value.
pub open spec fn spec_has_receiving(calls: Seq<SpecParamCall>) -> bool {
    exists|i: int| 0 <= i < calls.len() && !#[trigger] calls[i].3
}

/// The body of an aperiodic thread: an event queue, then a loop that
/// collects events by urgency, handles the most urgent one with the
/// subprogram calls, or sleeps a millisecond when there is none.
pub open spec fn spec_aperiodic_logic(
    types: Seq<(Seq<char>, SpecType)>,
    comps: Seq<(Seq<char>, ComponentType)>,
    impl_: ComponentImplementation,
) -> Seq<SpecStatement> {
    let handle = spec_aperiodic_handle(
        types,
        comps,
        impl_,
        spec_has_receiving(spec_subprogram_calls(types, comps, impl_)),
    );
    seq![
        s_let(
            true,
            "events"@,
            None,
            Some(SpecExpr::Call(Box::new(s_ns2("Vec"@, "new"@)), Seq::empty())),
        ),
        SpecStatement::Expr(
            SpecExpr::Loop(
                Box::new(
                    s_block(
                        spec_event_collection(
                            spec_event_port_urgency(impl_.properties),
                            spec_event_ports(comps, impl_),
                        ) + seq![handle],
                    ),
                ),
            ),
        ),
    ]
}

/// Handling the most urgent event: take it out of the queue and run the
/// subprogram calls; with no event, sleep a millisecond.
pub open spec fn spec_aperiodic_handle(
    types: Seq<(Seq<char>, SpecType)>,
    comps: Seq<(Seq<char>, ComponentType)>,
    impl_: ComponentImplementation,
    has_receiving: bool,
) -> SpecStatement {
    SpecStatement::Expr(
        SpecExpr::IfLet {
            pattern: "Some((idx, (val, _urgency, _ts)))"@,
            value: Box::new(
                s_mcall(
                    s_mcall(s_mcall(s_ident("events"@), "iter"@, Seq::empty()), "enumerate"@, Seq::empty()),
                    "max_by"@,
                    seq![s_ident(spec_urgency_order_text())],
                ),
            ),
            then_branch: s_block(
                seq![
                    s_let(
                        false,
                        "(val, _, _)"@,
                        None,
                        Some(s_mcall(s_ident("events"@), "remove"@, seq![s_ident("idx"@)])),
                    ),
                    SpecStatement::Expr(
                        SpecExpr::Block(
                            s_block(
                                spec_subprogram_call_logic(types, comps, impl_, has_receiving),
                            ),
                        ),
                    ),
                ],
            ),
            else_branch: Some(
                s_block(
                    seq![
                        SpecStatement::Expr(
                            s_mcall(
                                SpecExpr::Path(seq!["std"@, "thread"@, "sleep"@], PathType::Namespace),
                                ""@,
                                seq![
                                    SpecExpr::Call(
                                        Box::new(s_ns2("Duration"@, "from_millis"@)),
                                        seq![s_int(1)],
                                    ),
                                ],
                            ),
                        ),
                    ],
                ),
            ),
        },
    )
}

fn has_receiving(calls: &Vec<(String, String, String, bool, Type)>) -> (res: bool)
    ensures
        res == spec_has_receiving(param_calls_view(calls@)),
{
    let ghost cv = param_calls_view(calls@);
    let mut i: usize = 0;
    while i < calls.len()
        invariant
            i <= calls@.len(),
            cv == param_calls_view(calls@),
            forall|j: int| 0 <= j < i ==> cv[j].3,
        decreases calls@.len() - i,
    {
        if !calls[i].3 {
            assert(!cv[i as int].3);
            return true;
        }
        i = i + 1;
    }
    false
}

fn aperiodic_handle(
    temp_converter: &AadlConverter,
    impl_: &ComponentImplementation,
    has_receiving_subprograms: bool,
) -> (res: Statement)
    requires
        sends_defaults_end(temp_converter.types(), temp_converter.components(), *impl_),
    ensures
        res@ == spec_aperiodic_handle(
            temp_converter.types(),
            temp_converter.components(),
            *impl_,
            has_receiving_subprograms,
        ),
{
    let enumerate = mk_mcall0(mk_mcall0(mk_ident("events"), "iter"), "enumerate");
    let value = mk_mcall1(enumerate, "max_by", mk_ident(urgency_order_text()));
    let remove = mk_let(
        false,
        "(val, _, _)",
        None,
        Some(mk_mcall1(mk_ident("events"), "remove", mk_ident("idx"))),
    );
    let ghost rv = remove@;
    let calls_block = Statement::Expr(
        Expr::Block(
            mk_block(
                create_subprogram_call_logic_with_data(temp_converter, impl_, has_receiving_subprograms),
            ),
        ),
    );
    let ghost cbv = calls_block@;
    let mut then_stmts: Vec<Statement> = Vec::new();
    then_stmts.push(remove);
    then_stmts.push(calls_block);
    proof {
        lemma_views_empty();
        assert(then_stmts@ =~= Seq::<Statement>::empty().push(then_stmts@[0]).push(then_stmts@[1]));
        assert(stmts_view(then_stmts@) =~= seq![rv, cbv]);
    }
    let sleep = mk_mcall1(
        mk_ns3("std", "thread", "sleep"),
        "",
        mk_call(mk_ns2("Duration", "from_millis"), vec1_expr(mk_int(1))),
    );
    let handle = Statement::Expr(
        Expr::IfLet {
            pattern: "Some((idx, (val, _urgency, _ts)))".to_string(),
            value: Box::new(value),
            then_branch: mk_block(then_stmts),
            else_branch: Some(mk_block(vec1_stmt(Statement::Expr(sleep)))),
        },
    );
    handle
}

/// The body of an aperiodic thread (see `spec_aperiodic_logic`).
#[verifier::spinoff_prover]
pub fn create_aperiodic_execution_logic(temp_converter: &AadlConverter, impl_: &ComponentImplementation) -> (res:
    Vec<Statement>)
    requires
        sends_defaults_end(temp_converter.types(), temp_converter.components(), *impl_),
    ensures
        stmts_view(res@) == spec_aperiodic_logic(
            temp_converter.types(),
            temp_converter.components(),
            *impl_,
        ),
{
    let event_ports = extract_event_ports(temp_converter, impl_);
    let port_urgency = extract_event_port_urgency(impl_);
    let subprogram_calls = extract_subprogram_calls(temp_converter, impl_);
    let has_receiving_subprograms = has_receiving(&subprogram_calls);
    let mut loop_stmts = create_event_collection_logic(port_urgency.as_slice(), event_ports.as_slice());
    let ghost collect = stmts_view(loop_stmts@);
    proof {
        assert(urgency_view(port_urgency@) == spec_event_port_urgency(impl_.properties));
        assert(event_ports@.map_values(|s: String| s@) == spec_event_ports(
            temp_converter.components(),
            *impl_,
        ));
        assert(collect == spec_event_collection(
            spec_event_port_urgency(impl_.properties),
            spec_event_ports(temp_converter.components(), *impl_),
        ));
    }
    let handle = aperiodic_handle(temp_converter, impl_, has_receiving_subprograms);
    let ghost hv = handle@;
    loop_stmts.push(handle);
    proof {
        assert(stmts_view(loop_stmts@) == collect.push(hv));
        assert(collect.push(hv) =~= collect + seq![hv]);
    }
    let events = mk_let(
        true,
        "events",
        None,
        Some(mk_call(mk_ns2("Vec", "new"), Vec::new())),
    );
    let ghost ev = events@;
    let body = Statement::Expr(Expr::Loop(Box::new(mk_block(loop_stmts))));
    let ghost bv = body@;
    let mut stmts: Vec<Statement> = Vec::new();
    stmts.push(events);
    stmts.push(body);
    proof {
        assert(stmts@ =~= Seq::<Statement>::empty().push(stmts@[0]).push(stmts@[1]));
        assert(stmts_view(stmts@) =~= seq![ev, bv]);
        assert(hv == spec_aperiodic_handle(
            temp_converter.types(),
            temp_converter.components(),
            *impl_,
            spec_has_receiving(spec_subprogram_calls(
                temp_converter.types(),
                temp_converter.components(),
                *impl_,
            )),
        ));
        assert(stmts_view(stmts@) =~= spec_aperiodic_logic(
            temp_converter.types(),
            temp_converter.components(),
            *impl_,
        ));
    }
    stmts
}


// ---------------------------------------------------------------------------
// Sporadic and timed threads
// ---------------------------------------------------------------------------

/// `Instant::now()`
pub open spec fn s_instant_now() -> SpecExpr {
    SpecExpr::Call(Box::new(s_ns2("Instant"@, "now"@)), Seq::empty())
}

/// `std::time::<name>`
pub open spec fn s_time_type(name: Seq<char>) -> SpecType {
    SpecType::Path(seq!["std"@, "time"@, name])
}

/// `let <name>: std::time::Duration = Duration::from_millis(<ms>);`
pub open spec fn s_duration_let(name: Seq<char>, ms: int) -> SpecStatement {
    s_let(
        false,
        name,
        Some(s_time_type("Duration"@)),
        Some(SpecExpr::Call(Box::new(s_ns2("Duration"@, "from_millis"@)), seq![s_int(ms)])),
    )
}

/// `let mut <name>: std::time::Instant = Instant::now();`
pub open spec fn s_instant_let(name: Seq<char>) -> SpecStatement {
    s_let(true, name, Some(s_time_type("Instant"@)), Some(s_instant_now()))
}

/// `let mut events = Vec::new();`
pub open spec fn s_events_decl() -> SpecStatement {
    s_let(true, "events"@, None, Some(SpecExpr::Call(Box::new(s_ns2("Vec"@, "new"@)), Seq::empty())))
}

/// `events.iter().enumerate().max_by(<most urgent, then earliest>)`
pub open spec fn s_select_event() -> SpecExpr {
    s_mcall(
        s_mcall(s_mcall(s_ident("events"@), "iter"@, Seq::empty()), "enumerate"@, Seq::empty()),
        "max_by"@,
        seq![s_ident(spec_urgency_order_text())],
    )
}

/// `let (val, _, _) = events.remove(idx);`
pub open spec fn s_remove_event() -> SpecStatement {
    s_let(
        false,
        "(val, _, _)"@,
        None,
        Some(s_mcall(s_ident("events"@), "remove"@, seq![s_ident("idx"@)])),
    )
}

/// `std::thread::sleep(Duration::from_millis(1))`
pub open spec fn s_sleep_1ms() -> SpecStatement {
    SpecStatement::Expr(
        s_mcall(
            SpecExpr::Path(seq!["std"@, "thread"@, "sleep"@], PathType::Namespace),
            ""@,
            seq![SpecExpr::Call(Box::new(s_ns2("Duration"@, "from_millis"@)), seq![s_int(1)])],
        ),
    )
}

/// `{ <the subprogram calls> }`
pub open spec fn s_calls_block(
    types: Seq<(Seq<char>, SpecType)>,
    comps: Seq<(Seq<char>, ComponentType)>,
    impl_: ComponentImplementation,
    has_receiving: bool,
) -> SpecStatement {
    SpecStatement::Expr(
        SpecExpr::Block(s_block(spec_subprogram_call_logic(types, comps, impl_, has_receiving))),
    )
}

/// The `Period` of the implementation, 1000 where it has none, as the
/// generated code's integer literal holds it.
pub open spec fn spec_period_or_1000(impl_: ComponentImplementation) -> int {
    let p = match spec_property_number(spec_convert_clause(impl_.properties), lowercase("period"@)) {
        Some(v) => v,
        None => 1000u64,
    };
    (p as i64) as int
}

/// The loop shared by event-driven threads: collect events, then handle
/// the most urgent one with `handle`.
pub open spec fn s_event_loop(
    comps: Seq<(Seq<char>, ComponentType)>,
    impl_: ComponentImplementation,
    handle: SpecStatement,
) -> SpecStatement {
    SpecStatement::Expr(
        SpecExpr::Loop(
            Box::new(
                s_block(
                    spec_event_collection(
                        spec_event_port_urgency(impl_.properties),
                        spec_event_ports(comps, impl_),
                    ) + seq![handle],
                ),
            ),
        ),
    )
}

/// `if elapsed < min_interarrival { std::thread::sleep(min_interarrival - elapsed) }`
pub open spec fn s_wait_min_interarrival() -> SpecStatement {
    SpecStatement::Expr(
        SpecExpr::If {
            condition: Box::new(s_bin(s_ident("elapsed"@), "<"@, s_ident("min_interarrival"@))),
            then_branch: s_block(
                seq![
                    SpecStatement::Expr(
                        s_mcall(
                            SpecExpr::Path(seq!["std"@, "thread"@, "sleep"@], PathType::Namespace),
                            ""@,
                            seq![s_bin(s_ident("min_interarrival"@), "-"@, s_ident("elapsed"@))],
                        ),
                    ),
                ],
            ),
            else_branch: None,
        },
    )
}

/// Handling an event in a sporadic thread: wait until the minimum
/// inter-arrival time has passed since the last dispatch, run the
/// subprogram calls, note the dispatch time; with no event, sleep a
/// millisecond.
pub open spec fn spec_sporadic_handle(
    types: Seq<(Seq<char>, SpecType)>,
    comps: Seq<(Seq<char>, ComponentType)>,
    impl_: ComponentImplementation,
    has_receiving: bool,
) -> SpecStatement {
    SpecStatement::Expr(
        SpecExpr::IfLet {
            pattern: "Some((idx, (val, _urgency, _ts)))"@,
            value: Box::new(s_select_event()),
            then_branch: s_block(
                seq![
                    s_remove_event(),
                    s_let(false, "now"@, None, Some(s_instant_now())),
                    s_let(
                        false,
                        "elapsed"@,
                        None,
                        Some(s_mcall(s_ident("now"@), "duration_since"@, seq![s_ident("last_dispatch"@)])),
                    ),
                    s_wait_min_interarrival(),
                    s_calls_block(types, comps, impl_, has_receiving),
                    SpecStatement::Expr(s_assign(s_ident("last_dispatch"@), s_instant_now())),
                ],
            ),
            else_branch: Some(s_block(seq![s_sleep_1ms()])),
        },
    )
}

/// The body of a sporadic thread: its minimum inter-arrival time (the
/// `Period`, 1000 ms by default), the time of the last dispatch, the event
/// queue, and the event loop.
pub open spec fn spec_sporadic_logic(
    types: Seq<(Seq<char>, SpecType)>,
    comps: Seq<(Seq<char>, ComponentType)>,
    impl_: ComponentImplementation,
) -> Seq<SpecStatement> {
    seq![
        s_duration_let("min_interarrival"@, spec_period_or_1000(impl_)),
        s_instant_let("last_dispatch"@),
        s_events_decl(),
        s_event_loop(
            comps,
            impl_,
            spec_sporadic_handle(
                types,
                comps,
                impl_,
                spec_has_receiving(spec_subprogram_calls(types, comps, impl_)),
            ),
        ),
    ]
}

/// `<type name in lower case>Thread: timeout dispatch → Recover_Entrypoint`
pub open spec fn spec_timeout_message(impl_: ComponentImplementation) -> Seq<char> {
    lowercase(impl_.name.type_identifier@) + "Thread: timeout dispatch → Recover_Entrypoint"@
}

/// Handling an event in a timed thread: run the subprogram calls; with no
/// event, report a timeout once the period has passed since the start.
pub open spec fn spec_timed_handle(
    types: Seq<(Seq<char>, SpecType)>,
    comps: Seq<(Seq<char>, ComponentType)>,
    impl_: ComponentImplementation,
    has_receiving: bool,
) -> SpecStatement {
    SpecStatement::Expr(
        SpecExpr::IfLet {
            pattern: "Some((idx, (val, _urgency, _ts)))"@,
            value: Box::new(s_select_event()),
            then_branch: s_block(seq![s_remove_event(), s_calls_block(types, comps, impl_, has_receiving)]),
            else_branch: Some(
                s_block(
                    seq![
                        s_let(false, "now"@, None, Some(s_instant_now())),
                        s_let(
                            false,
                            "elapsed"@,
                            None,
                            Some(s_mcall(s_ident("now"@), "duration_since"@, seq![s_ident("start_time"@)])),
                        ),
                        SpecStatement::Expr(
                            SpecExpr::If {
                                condition: Box::new(s_bin(s_ident("elapsed"@), ">"@, s_ident("period"@))),
                                then_branch: s_block(
                                    seq![
                                        SpecStatement::Expr(
                                            SpecExpr::Call(
                                                Box::new(
                                                    SpecExpr::Path(seq!["eprintln!"@], PathType::Namespace),
                                                ),
                                                seq![s_str(spec_timeout_message(impl_))],
                                            ),
                                        ),
                                        SpecStatement::Expr(s_ident("// recover_entrypoint();"@)),
                                    ],
                                ),
                                else_branch: None,
                            },
                        ),
                    ],
                ),
            ),
        },
    )
}

/// The body of a timed thread: its period (1000 ms by default), the start
/// time, the event queue, and the event loop.
pub open spec fn spec_timed_logic(
    types: Seq<(Seq<char>, SpecType)>,
    comps: Seq<(Seq<char>, ComponentType)>,
    impl_: ComponentImplementation,
) -> Seq<SpecStatement> {
    seq![
        s_duration_let("period"@, spec_period_or_1000(impl_)),
        s_instant_let("start_time"@),
        s_events_decl(),
        s_event_loop(
            comps,
            impl_,
            spec_timed_handle(
                types,
                comps,
                impl_,
                spec_has_receiving(spec_subprogram_calls(types, comps, impl_)),
            ),
        ),
    ]
}

fn instant_now() -> (res: Expr)
    ensures
        res@ == s_instant_now(),
{
    proof {
        lemma_views_empty();
    }
    mk_call(mk_ns2("Instant", "now"), Vec::new())
}

fn time_type(name: &str) -> (res: Type)
    ensures
        res@ == s_time_type(name@),
{
    let mut v: Vec<String> = Vec::new();
    v.push("std".to_string());
    v.push("time".to_string());
    v.push(name.to_string());
    proof {
        assert(strings_view(v@) =~= seq!["std"@, "time"@, name@]);
    }
    Type::Path(v)
}

fn duration_let(name: &str, ms: i64) -> (res: Statement)
    ensures
        res@ == s_duration_let(name@, ms as int),
{
    mk_let(
        false,
        name,
        Some(time_type("Duration")),
        Some(mk_call(mk_ns2("Duration", "from_millis"), vec1_expr(mk_int(ms)))),
    )
}

fn instant_let(name: &str) -> (res: Statement)
    ensures
        res@ == s_instant_let(name@),
{
    mk_let(true, name, Some(time_type("Instant")), Some(instant_now()))
}

fn events_decl() -> (res: Statement)
    ensures
        res@ == s_events_decl(),
{
    proof {
        lemma_views_empty();
    }
    mk_let(true, "events", None, Some(mk_call(mk_ns2("Vec", "new"), Vec::new())))
}

fn select_event() -> (res: Expr)
    ensures
        res@ == s_select_event(),
{
    let enumerate = mk_mcall0(mk_mcall0(mk_ident("events"), "iter"), "enumerate");
    mk_mcall1(enumerate, "max_by", mk_ident(urgency_order_text()))
}

fn remove_event() -> (res: Statement)
    ensures
        res@ == s_remove_event(),
{
    mk_let(false, "(val, _, _)", None, Some(mk_mcall1(mk_ident("events"), "remove", mk_ident("idx"))))
}

fn sleep_1ms() -> (res: Statement)
    ensures
        res@ == s_sleep_1ms(),
{
    Statement::Expr(
        mk_mcall1(
            mk_ns3("std", "thread", "sleep"),
            "",
            mk_call(mk_ns2("Duration", "from_millis"), vec1_expr(mk_int(1))),
        ),
    )
}

fn calls_block(conv: &AadlConverter, impl_: &ComponentImplementation, has_receiving: bool) -> (res:
    Statement)
    requires
        sends_defaults_end(conv.types(), conv.components(), *impl_),
    ensures
        res@ == s_calls_block(conv.types(), conv.components(), *impl_, has_receiving),
{
    Statement::Expr(Expr::Block(mk_block(create_subprogram_call_logic_with_data(conv, impl_, has_receiving))))
}

fn period_or_1000(conv: &AadlConverter, impl_: &ComponentImplementation) -> (res: i64)
    requires
        clause_ok(impl_.properties),
    ensures
        res as int == spec_period_or_1000(*impl_),
{
    let p = match extract_property_value(conv, impl_, "period") {
        Some(v) => v,
        None => 1000,
    };
    p as i64
}

fn event_loop(
    conv: &AadlConverter,
    impl_: &ComponentImplementation,
    handle: Statement,
) -> (res: Statement)
    ensures
        res@ == s_event_loop(conv.components(), *impl_, handle@),
{
    let event_ports = extract_event_ports(conv, impl_);
    let port_urgency = extract_event_port_urgency(impl_);
    let mut loop_stmts = create_event_collection_logic(port_urgency.as_slice(), event_ports.as_slice());
    let ghost collect = stmts_view(loop_stmts@);
    let ghost hv = handle@;
    loop_stmts.push(handle);
    proof {
        assert(collect.push(hv) =~= collect + seq![hv]);
    }
    Statement::Expr(Expr::Loop(Box::new(mk_block(loop_stmts))))
}

fn stmts4(a: Statement, b: Statement, c: Statement, d: Statement) -> (res: Vec<Statement>)
    ensures
        stmts_view(res@) == seq![a@, b@, c@, d@],
{
    let ghost (av, bv, cv, dv) = (a@, b@, c@, d@);
    let mut v: Vec<Statement> = Vec::new();
    v.push(a);
    v.push(b);
    v.push(c);
    v.push(d);
    proof {
        lemma_views_empty();
        assert(v@ =~= Seq::<Statement>::empty().push(v@[0]).push(v@[1]).push(v@[2]).push(v@[3]));
        assert(stmts_view(v@) =~= seq![av, bv, cv, dv]);
    }
    v
}

fn wait_min_interarrival() -> (res: Statement)
    ensures
        res@ == s_wait_min_interarrival(),
{
    let wait = Statement::Expr(
        Expr::If {
            condition: Box::new(mk_bin(mk_ident("elapsed"), "<", mk_ident("min_interarrival"))),
            then_branch: mk_block(
                vec1_stmt(
                    Statement::Expr(
                        mk_mcall1(
                            mk_ns3("std", "thread", "sleep"),
                            "",
                            mk_bin(mk_ident("min_interarrival"), "-", mk_ident("elapsed")),
                        ),
                    ),
                ),
            ),
            else_branch: None,
        },
    );
    wait
}

fn sporadic_prelude() -> (res: Vec<Statement>)
    ensures
        stmts_view(res@) == seq![
            s_remove_event(),
            s_let(false, "now"@, None, Some(s_instant_now())),
            s_let(
                false,
                "elapsed"@,
                None,
                Some(s_mcall(s_ident("now"@), "duration_since"@, seq![s_ident("last_dispatch"@)])),
            ),
            s_wait_min_interarrival(),
        ],
{
    stmts4(
        remove_event(),
        mk_let(false, "now", None, Some(instant_now())),
        mk_let(
            false,
            "elapsed",
            None,
            Some(mk_mcall1(mk_ident("now"), "duration_since", mk_ident("last_dispatch"))),
        ),
        wait_min_interarrival(),
    )
}

fn sporadic_then(conv: &AadlConverter, impl_: &ComponentImplementation, has_receiving: bool) -> (res:
    Vec<Statement>)
    requires
        sends_defaults_end(conv.types(), conv.components(), *impl_),
    ensures
        stmts_view(res@) == sporadic_prelude_spec() + seq![
            s_calls_block(conv.types(), conv.components(), *impl_, has_receiving),
            SpecStatement::Expr(s_assign(s_ident("last_dispatch"@), s_instant_now())),
        ],
{
    let mut then_stmts = sporadic_prelude();
    let ghost pv = stmts_view(then_stmts@);
    let cb = calls_block(conv, impl_, has_receiving);
    let ghost cbv = cb@;
    then_stmts.push(cb);
    let upd = Statement::Expr(mk_assign(mk_ident("last_dispatch"), instant_now()));
    let ghost uv = upd@;
    then_stmts.push(upd);
    proof {
        assert(stmts_view(then_stmts@) =~= pv + seq![cbv, uv]);
    }
    then_stmts
}

pub open spec fn sporadic_prelude_spec() -> Seq<SpecStatement> {
    seq![
        s_remove_event(),
        s_let(false, "now"@, None, Some(s_instant_now())),
        s_let(
            false,
            "elapsed"@,
            None,
            Some(s_mcall(s_ident("now"@), "duration_since"@, seq![s_ident("last_dispatch"@)])),
        ),
        s_wait_min_interarrival(),
    ]
}

fn sporadic_handle(conv: &AadlConverter, impl_: &ComponentImplementation, has_receiving: bool) -> (res:
    Statement)
    requires
        sends_defaults_end(conv.types(), conv.components(), *impl_),
    ensures
        res@ == spec_sporadic_handle(conv.types(), conv.components(), *impl_, has_receiving),
{
    let then_stmts = sporadic_then(conv, impl_, has_receiving);
    let ghost tv = stmts_view(then_stmts@);
    proof {
        assert(tv =~= seq![
            s_remove_event(),
            s_let(false, "now"@, None, Some(s_instant_now())),
            s_let(
                false,
                "elapsed"@,
                None,
                Some(s_mcall(s_ident("now"@), "duration_since"@, seq![s_ident("last_dispatch"@)])),
            ),
            s_wait_min_interarrival(),
            s_calls_block(conv.types(), conv.components(), *impl_, has_receiving),
            SpecStatement::Expr(s_assign(s_ident("last_dispatch"@), s_instant_now())),
        ]);
    }
    Statement::Expr(
        Expr::IfLet {
            pattern: "Some((idx, (val, _urgency, _ts)))".to_string(),
            value: Box::new(select_event()),
            then_branch: mk_block(then_stmts),
            else_branch: Some(mk_block(vec1_stmt(sleep_1ms()))),
        },
    )
}

/// The body of a sporadic thread (see `spec_sporadic_logic`).
pub fn create_sporadic_execution_logic(temp_converter: &AadlConverter, impl_: &ComponentImplementation) -> (res:
    Vec<Statement>)
    requires
        sends_defaults_end(temp_converter.types(), temp_converter.components(), *impl_),
        clause_ok(impl_.properties),
    ensures
        stmts_view(res@) == spec_sporadic_logic(
            temp_converter.types(),
            temp_converter.components(),
            *impl_,
        ),
{
    let min_interval = period_or_1000(temp_converter, impl_);
    let subprogram_calls = extract_subprogram_calls(temp_converter, impl_);
    let has_receiving_subprograms = has_receiving(&subprogram_calls);
    let handle = sporadic_handle(temp_converter, impl_, has_receiving_subprograms);
    stmts4(
        duration_let("min_interarrival", min_interval),
        instant_let("last_dispatch"),
        events_decl(),
        event_loop(temp_converter, impl_, handle),
    )
}

fn timeout_message(impl_: &ComponentImplementation) -> (res: String)
    ensures
        res@ == spec_timeout_message(*impl_),
{
    let name = to_lower(impl_.name.type_identifier.as_str());
    concat(name.as_str(), "Thread: timeout dispatch → Recover_Entrypoint")
}

fn timed_handle(conv: &AadlConverter, impl_: &ComponentImplementation, has_receiving: bool) -> (res:
    Statement)
    requires
        sends_defaults_end(conv.types(), conv.components(), *impl_),
    ensures
        res@ == spec_timed_handle(conv.types(), conv.components(), *impl_, has_receiving),
{
    let mut then_stmts: Vec<Statement> = Vec::new();
    let r = remove_event();
    let ghost rv = r@;
    then_stmts.push(r);
    let cb = calls_block(conv, impl_, has_receiving);
    let ghost cbv = cb@;
    then_stmts.push(cb);
    proof {
        lemma_views_empty();
        assert(then_stmts@ =~= Seq::<Statement>::empty().push(then_stmts@[0]).push(then_stmts@[1]));
        assert(stmts_view(then_stmts@) =~= seq![rv, cbv]);
    }
    let mut path: Vec<String> = Vec::new();
    path.push("eprintln!".to_string());
    proof {
        assert(strings_view(path@) =~= seq!["eprintln!"@]);
    }
    let report = Statement::Expr(
        mk_call(
            Expr::Path(path, PathType::Namespace),
            vec1_expr(Expr::Literal(Literal::Str(timeout_message(impl_)))),
        ),
    );
    let ghost repv = report@;
    let note = Statement::Expr(mk_ident("// recover_entrypoint();"));
    let ghost nv = note@;
    let mut timeout_stmts: Vec<Statement> = Vec::new();
    timeout_stmts.push(report);
    timeout_stmts.push(note);
    proof {
        assert(timeout_stmts@ =~= Seq::<Statement>::empty().push(timeout_stmts@[0]).push(
            timeout_stmts@[1],
        ));
        assert(stmts_view(timeout_stmts@) =~= seq![repv, nv]);
    }
    let check = Statement::Expr(
        Expr::If {
            condition: Box::new(mk_bin(mk_ident("elapsed"), ">", mk_ident("period"))),
            then_branch: mk_block(timeout_stmts),
            else_branch: None,
        },
    );
    let ghost chv = check@;
    let l1 = mk_let(false, "now", None, Some(instant_now()));
    let ghost l1v = l1@;
    let l2 = mk_let(
        false,
        "elapsed",
        None,
        Some(mk_mcall1(mk_ident("now"), "duration_since", mk_ident("start_time"))),
    );
    let ghost l2v = l2@;
    let mut else_stmts: Vec<Statement> = Vec::new();
    else_stmts.push(l1);
    else_stmts.push(l2);
    else_stmts.push(check);
    proof {
        assert(else_stmts@ =~= Seq::<Statement>::empty().push(else_stmts@[0]).push(else_stmts@[1]).push(
            else_stmts@[2],
        ));
        assert(stmts_view(else_stmts@) =~= seq![l1v, l2v, chv]);
    }
    Statement::Expr(
        Expr::IfLet {
            pattern: "Some((idx, (val, _urgency, _ts)))".to_string(),
            value: Box::new(select_event()),
            then_branch: mk_block(then_stmts),
            else_branch: Some(mk_block(else_stmts)),
        },
    )
}

/// The body of a timed thread (see `spec_timed_logic`).
pub fn create_timed_execution_logic(temp_converter: &AadlConverter, impl_: &ComponentImplementation) -> (res:
    Vec<Statement>)
    requires
        sends_defaults_end(temp_converter.types(), temp_converter.components(), *impl_),
        clause_ok(impl_.properties),
    ensures
        stmts_view(res@) == spec_timed_logic(
            temp_converter.types(),
            temp_converter.components(),
            *impl_,
        ),
{
    let period = period_or_1000(temp_converter, impl_);
    let subprogram_calls = extract_subprogram_calls(temp_converter, impl_);
    let has_receiving_subprograms = has_receiving(&subprogram_calls);
    let handle = timed_handle(temp_converter, impl_, has_receiving_subprograms);
    stmts4(
        duration_let("period", period),
        instant_let("start_time"),
        events_decl(),
        event_loop(temp_converter, impl_, handle),
    )
}


// ---------------------------------------------------------------------------
// `new` of a thread
// ---------------------------------------------------------------------------

/// `str::trim_end_matches` with a text: every copy of `p` at the end removed.
pub open spec fn spec_trim_end_text(s: Seq<char>, p: Seq<char>) -> Seq<char>
    decreases s.len(),
{
    if p.len() > 0 && crate::text::spec_strip_suffix(s, p) is Some {
        spec_trim_end_text(crate::text::spec_strip_suffix(s, p)->0, p)
    } else {
        s
    }
}

fn trim_end_text(s: &str, p: &str) -> (res: String)
    requires
        p@.len() > 0,
    ensures
        res@ == spec_trim_end_text(s@, p@),
{
    let mut cur = s.to_string();
    loop
        invariant
            p@.len() > 0,
            spec_trim_end_text(cur@, p@) == spec_trim_end_text(s@, p@),
        decreases cur@.len(),
    {
        match crate::text::strip_suffix_owned(cur.as_str(), p) {
            Some(r) => {
                cur = r;
            },
            None => {
                return cur;
            },
        }
    }
}

/// The shared-variable type a thread field has, if its recorded type is
/// one (a named type ending in `Shared`).
pub open spec fn spec_shared_field(types: Seq<(Seq<char>, SpecType)>, name: Seq<char>) -> Option<Seq<char>> {
    match assoc_first(types, name) {
        Some(SpecType::Named(t)) => if crate::text::spec_strip_suffix(t, "Shared"@) is Some {
            Some(t)
        } else {
            None
        },
        _ => None,
    }
}

/// `            <name>: <init>, `
pub open spec fn spec_init_line(name: Seq<char>, init: Seq<char>) -> Seq<char> {
    "            "@ + name + ": "@ + init + ", "@
}

/// The field lines and the extra parameters of a thread's `new`, and
/// whether a shared variable has been made: the first shared-variable
/// field is made in `new` (`Arc::new(Mutex::new(<T>::new()))`), each later
/// one is taken as a parameter; every other field starts with its value.
pub open spec fn spec_new_entries(
    vals: Seq<(Seq<char>, SpecPropertyValue)>,
    types: Seq<(Seq<char>, SpecType)>,
    made: bool,
) -> (Seq<Seq<char>>, Seq<crate::intermediate_ast::SpecParam>, bool)
    decreases vals.len(),
{
    if vals.len() == 0 {
        (Seq::empty(), Seq::empty(), made)
    } else {
        let st = spec_new_entries(vals.drop_last(), types, made);
        let (name, v) = vals.last();
        match spec_shared_field(types, name) {
            Some(t) => if !st.2 {
                (
                    st.0.push(spec_init_line(name, "Arc::new(Mutex::new("@ + spec_trim_end_text(t, "Shared"@) + "::new()))"@)),
                    st.1,
                    true,
                )
            } else {
                (
                    st.0.push(spec_init_line(name, spec_property_initializer(v))),
                    st.1.push(crate::intermediate_ast::SpecParam { name, ty: SpecType::Named(t) }),
                    true,
                )
            },
            None => (st.0.push(spec_init_line(name, spec_property_initializer(v))), st.1, st.2),
        }
    }
}

pub open spec fn spec_thread_key(impl_: ComponentImplementation) -> Seq<char> {
    lowercase(impl_.name.type_identifier@) + "Thread"@
}

pub open spec fn spec_thread_new_entries(c: AadlConverter, impl_: ComponentImplementation, made: bool) -> (Seq<
    Seq<char>,
>, Seq<crate::intermediate_ast::SpecParam>, bool) {
    let key = spec_thread_key(impl_);
    let vals = match assoc_first(c.thread_values(), key) {
        Some(v) => v,
        None => Seq::empty(),
    };
    let types = match assoc_first(c.thread_types(), key) {
        Some(t) => t,
        None => Seq::empty(),
    };
    spec_new_entries(vals, types, made)
}

/// `fn new(cpu_id: isize, <extra parameters>) -> Self`, returning the
/// thread's struct with each recorded field value and the processor number.
pub open spec fn spec_thread_new_method(c: AadlConverter, impl_: ComponentImplementation, made: bool) -> crate::intermediate_ast::SpecFunctionDef {
    let st = spec_thread_new_entries(c, impl_, made);
    crate::intermediate_ast::SpecFunctionDef {
        name: "new"@,
        params: seq![crate::intermediate_ast::SpecParam { name: "cpu_id"@, ty: SpecType::Named("isize"@) }] + st.1,
        return_type: SpecType::Named("Self"@),
        body: s_block(
            seq![
                SpecStatement::Expr(
                    s_ident(
                        "return Self {\n"@ + seq_join(st.0.push("            cpu_id: cpu_id, // CPU ID"@), "\n"@)
                            + "\n        }"@,
                    ),
                ),
            ],
        ),
        asyncness: false,
        vis: crate::intermediate_ast::Visibility::Inherited,
        docs: seq!["// 创建组件并初始化AADL属性"@],
        attrs: Seq::empty(),
    }
}

fn lookup_thread_values<'a>(
    table: &'a Vec<(String, Vec<(String, StruPropertyValue)>)>,
    key: &str,
) -> (res: Option<&'a Vec<(String, StruPropertyValue)>>)
    ensures
        match assoc_first(crate::aadl_ast2rust_code::converter::nested_values_view(table@), key@) {
            Some(v) => res matches Some(r) && crate::aadl_ast2rust_code::converter::value_table_view(r@) == v,
            None => res is None,
        },
{
    let ghost tv = crate::aadl_ast2rust_code::converter::nested_values_view(table@);
    let mut i: usize = 0;
    proof {
        assert(tv.skip(0) =~= tv);
    }
    while i < table.len()
        invariant
            i <= table@.len(),
            tv == crate::aadl_ast2rust_code::converter::nested_values_view(table@),
            assoc_first(tv.skip(i as int), key@) == assoc_first(tv, key@),
        decreases table@.len() - i,
    {
        proof {
            assert(tv.skip(i as int).drop_first() =~= tv.skip(i + 1));
        }
        if str_eq(table[i].0.as_str(), key) {
            return Some(&table[i].1);
        }
        i = i + 1;
    }
    None
}

fn lookup_thread_types<'a>(table: &'a Vec<(String, Vec<(String, Type)>)>, key: &str) -> (res: Option<
    &'a Vec<(String, Type)>,
>)
    ensures
        match assoc_first(crate::aadl_ast2rust_code::converter::nested_types_view(table@), key@) {
            Some(v) => res matches Some(r) && crate::aadl_ast2rust_code::converter::type_table_view(r@) == v,
            None => res is None,
        },
{
    let ghost tv = crate::aadl_ast2rust_code::converter::nested_types_view(table@);
    let mut i: usize = 0;
    proof {
        assert(tv.skip(0) =~= tv);
    }
    while i < table.len()
        invariant
            i <= table@.len(),
            tv == crate::aadl_ast2rust_code::converter::nested_types_view(table@),
            assoc_first(tv.skip(i as int), key@) == assoc_first(tv, key@),
        decreases table@.len() - i,
    {
        proof {
            assert(tv.skip(i as int).drop_first() =~= tv.skip(i + 1));
        }
        if str_eq(table[i].0.as_str(), key) {
            return Some(&table[i].1);
        }
        i = i + 1;
    }
    None
}

fn new_entries(
    vals: &Vec<(String, StruPropertyValue)>,
    types: &Vec<(String, Type)>,
    flag: &mut bool,
    lines: &mut Vec<String>,
    params: &mut Vec<crate::intermediate_ast::Param>,
)
    requires
        strings_view(old(lines)@) == Seq::<Seq<char>>::empty(),
        crate::intermediate_ast::params_view(old(params)@) == seq![
            crate::intermediate_ast::SpecParam { name: "cpu_id"@, ty: SpecType::Named("isize"@) },
        ],
    ensures
        ({
            let st = spec_new_entries(
                crate::aadl_ast2rust_code::converter::value_table_view(vals@),
                crate::aadl_ast2rust_code::converter::type_table_view(types@),
                *old(flag),
            );
            &&& strings_view(final(lines)@) == st.0
            &&& crate::intermediate_ast::params_view(final(params)@) == seq![
                crate::intermediate_ast::SpecParam { name: "cpu_id"@, ty: SpecType::Named("isize"@) },
            ] + st.1
            &&& *final(flag) == st.2
        }),
{
    let ghost vv = crate::aadl_ast2rust_code::converter::value_table_view(vals@);
    let ghost tv = crate::aadl_ast2rust_code::converter::type_table_view(types@);
    let ghost f0 = *flag;
    let ghost p0 = seq![crate::intermediate_ast::SpecParam { name: "cpu_id"@, ty: SpecType::Named("isize"@) }];
    let mut i: usize = 0;
    proof {
        assert(vv.take(0) =~= Seq::<(Seq<char>, SpecPropertyValue)>::empty());
        assert(p0 + Seq::<crate::intermediate_ast::SpecParam>::empty() =~= p0);
    }
    while i < vals.len()
        invariant
            i <= vals@.len(),
            vv == crate::aadl_ast2rust_code::converter::value_table_view(vals@),
            tv == crate::aadl_ast2rust_code::converter::type_table_view(types@),
            strings_view(lines@) == spec_new_entries(vv.take(i as int), tv, f0).0,
            crate::intermediate_ast::params_view(params@) == p0 + spec_new_entries(vv.take(i as int), tv, f0).1,
            *flag == spec_new_entries(vv.take(i as int), tv, f0).2,
        decreases vals@.len() - i,
    {
        proof {
            assert(vv.take(i + 1).drop_last() =~= vv.take(i as int));
            assert(vv.take(i + 1).last() == vv[i as int]);
        }
        let ghost st = spec_new_entries(vv.take(i as int), tv, f0);
        let ghost lb = strings_view(lines@);
        let ghost pb = crate::intermediate_ast::params_view(params@);
        let field_name = &vals[i].0;
        let mut init_value = property_value_to_initializer(&vals[i].1);
        let mut shared: Option<String> = None;
        match lookup_type(types, field_name.as_str()) {
            Some(Type::Named(t)) => {
                if crate::text::strip_suffix_owned(t.as_str(), "Shared").is_some() {
                    shared = Some(t.clone());
                }
            },
            _ => {},
        }
        assert(match spec_shared_field(tv, field_name@) {
            Some(t) => shared matches Some(x) && x@ == t,
            None => shared is None,
        });
        match shared {
            Some(t) => {
                if !*flag {
                    *flag = true;
                    proof {
                        reveal_strlit("Shared");
                    }
                    let base = trim_end_text(t.as_str(), "Shared");
                    init_value = concat3("Arc::new(Mutex::new(", base.as_str(), "::new()))");
                } else {
                    let ghost tv2 = t@;
                    params.push(crate::intermediate_ast::Param { name: field_name.clone(), ty: Type::Named(t) });
                    proof {
                        assert(crate::intermediate_ast::params_view(params@) =~= pb.push(
                            crate::intermediate_ast::SpecParam { name: field_name@, ty: SpecType::Named(tv2) },
                        ));
                        assert(p0 + st.1.push(crate::intermediate_ast::SpecParam { name: field_name@, ty: SpecType::Named(tv2) })
                            =~= (p0 + st.1).push(crate::intermediate_ast::SpecParam { name: field_name@, ty: SpecType::Named(tv2) }));
                    }
                }
            },
            None => {},
        }
        let a = concat3("            ", field_name.as_str(), ": ");
        let line = concat3(a.as_str(), init_value.as_str(), ", ");
        let ghost lv = line@;
        lines.push(line);
        proof {
            assert(strings_view(lines@) =~= lb.push(lv));
        }
        i = i + 1;
    }
    proof {
        assert(vv.take(vals@.len() as int) =~= vv);
    }
}

/// The `new` method of a thread (see `spec_thread_new_method`); `flag`
/// tells whether a shared variable has been made, and is set once one is.
pub fn create_thread_new_method(
    temp_converter: &AadlConverter,
    impl_: &ComponentImplementation,
    flag_need_shared_variable_param: &mut bool,
) -> (res: crate::intermediate_ast::FunctionDef)
    ensures
        res@ == spec_thread_new_method(*temp_converter, *impl_, *old(flag_need_shared_variable_param)),
        *final(flag_need_shared_variable_param) == spec_thread_new_entries(
            *temp_converter,
            *impl_,
            *old(flag_need_shared_variable_param),
        ).2,
{
    let lower = to_lower(impl_.name.type_identifier.as_str());
    let key = concat(lower.as_str(), "Thread");
    let no_vals: Vec<(String, StruPropertyValue)> = Vec::new();
    let no_types: Vec<(String, Type)> = Vec::new();
    let vals = match lookup_thread_values(&temp_converter.thread_field_values, key.as_str()) {
        Some(v) => v,
        None => &no_vals,
    };
    let types = match lookup_thread_types(&temp_converter.thread_field_types, key.as_str()) {
        Some(t) => t,
        None => &no_types,
    };
    proof {
        assert(crate::aadl_ast2rust_code::converter::value_table_view(no_vals@) =~= Seq::<(Seq<char>, SpecPropertyValue)>::empty());
        assert(crate::aadl_ast2rust_code::converter::type_table_view(no_types@) =~= Seq::<(Seq<char>, SpecType)>::empty());
    }
    let mut lines: Vec<String> = Vec::new();
    let mut params: Vec<crate::intermediate_ast::Param> = Vec::new();
    params.push(crate::intermediate_ast::Param { name: "cpu_id".to_string(), ty: Type::Named("isize".to_string()) });
    proof {
        assert(strings_view(lines@) =~= Seq::<Seq<char>>::empty());
        assert(crate::intermediate_ast::params_view(params@) =~= seq![
            crate::intermediate_ast::SpecParam { name: "cpu_id"@, ty: SpecType::Named("isize"@) },
        ]);
    }
    new_entries(vals, types, flag_need_shared_variable_param, &mut lines, &mut params);
    let ghost lb = strings_view(lines@);
    lines.push("            cpu_id: cpu_id, // CPU ID".to_string());
    assert(strings_view(lines@) =~= lb.push("            cpu_id: cpu_id, // CPU ID"@));
    let joined = join_strings(&lines, "\n");
    let literal = concat3("return Self {\n", joined.as_str(), "\n        }");
    let mut docs: Vec<String> = Vec::new();
    docs.push("// 创建组件并初始化AADL属性".to_string());
    let attrs: Vec<crate::intermediate_ast::Attribute> = Vec::new();
    proof {
        assert(strings_view(docs@) =~= seq!["// 创建组件并初始化AADL属性"@]);
        assert(crate::intermediate_ast::attrs_view(attrs@) =~= Seq::<crate::intermediate_ast::SpecAttribute>::empty());
    }
    crate::intermediate_ast::FunctionDef {
        name: "new".to_string(),
        params,
        return_type: Type::Named("Self".to_string()),
        body: mk_block(vec1_stmt(Statement::Expr(mk_ident(literal.as_str())))),
        asyncness: false,
        vis: crate::intermediate_ast::Visibility::Inherited,
        docs,
        attrs,
    }
}


} // verus!
