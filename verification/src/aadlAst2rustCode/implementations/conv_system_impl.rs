//! System implementations: a struct holding the system's processes and
//! devices, whose `new` numbers the processors the processes are bound to,
//! creates the subcomponents and connects them, and whose `run` starts them.

use vstd::prelude::*;
use crate::aadl_ast2rust_code::collector::cpu_ids_view;
use crate::aadlAst2rustCode::tool::spec_first_occurrences;
use crate::aadl_ast2rust_code::converter::{
    assoc_first, connection_debug_text, spec_connection_debug, pair_table_view, pairs_contain, spec_channel_connection, AadlConverter,
};
use crate::aadl_ast2rust_code::implementations::conv_process_impl::{s_spawn, spawn_thread};
use crate::ast::aadl_ast_cj::{
    ComponentCategory, ComponentImplementation, Connection, ConnectionClause, PortEndpoint, Property,
    PropertyClause, PropertyExpression, PropertyValue, Subcomponent, SubcomponentClassifier,
    SubcomponentClause, UniqueComponentClassifierReference,
};
use crate::intermediate_ast::{
    attrs_view, fields_view, group_view_laws, impl_items_view, items_view, lemma_stmts_view_concat,
    lemma_views_empty, mk_block, mk_ident, mk_mcall0, mk_member, mk_named, params_view, props_view,
    s_block, s_ident, s_mcall, s_member, stmts_view, vec1_stmt, vec2_impl_items, vec2_items,
    Attribute, AttributeArg, Field, FunctionDef, ImplBlock, ImplItem, Item, Param, SpecAttribute,
    SpecField, SpecFunctionDef, SpecImplBlock, SpecImplItem, SpecItem, SpecParam, SpecStatement,
    SpecStructDef, SpecType, Statement, StructDef, StruProperty, Type, Visibility,
};
use crate::text::{
    concat, concat3, i64_to_decimal, join_strings, lowercase, seq_join, spec_decimal_int, str_eq,
    strings_view, to_lower,
};

verus! {

broadcast use group_view_laws;

// ---------------------------------------------------------------------------
// Processor bindings
// ---------------------------------------------------------------------------

/// The (process, processor) pairs that `Actual_Processor_Binding`
/// properties (the name in any case) with a reference value and an
/// `applies to` give, in order.
pub open spec fn spec_bindings_of(props: Seq<Property>) -> Seq<(Seq<char>, Seq<char>)>
    decreases props.len(),
{
    if props.len() == 0 {
        Seq::empty()
    } else {
        spec_bindings_of(props.drop_last()) + match props.last() {
            Property::BasicProperty(bp) => if lowercase(bp.identifier.name@)
                == "actual_processor_binding"@ {
                match bp.value {
                    PropertyValue::Single(PropertyExpression::Reference(rt)) => match rt.applies_to {
                        Some(a) => seq![(a@, rt.identifier@)],
                        None => Seq::empty(),
                    },
                    _ => Seq::empty(),
                }
            } else {
                Seq::empty()
            },
            _ => Seq::empty(),
        }
    }
}

pub open spec fn spec_processor_bindings(impl_: ComponentImplementation) -> Seq<(Seq<char>, Seq<char>)> {
    match impl_.properties {
        PropertyClause::Properties(props) => spec_bindings_of(props@),
        _ => Seq::empty(),
    }
}

/// The processor bindings of a system implementation (see
/// `spec_processor_bindings`).
pub fn extract_processor_bindings(impl_: &ComponentImplementation) -> (res: Vec<(String, String)>)
    ensures
        pair_table_view(res@) == spec_processor_bindings(*impl_),
{
    let mut bindings: Vec<(String, String)> = Vec::new();
    proof {
        assert(pair_table_view(bindings@) =~= Seq::<(Seq<char>, Seq<char>)>::empty());
    }
    if let PropertyClause::Properties(properties) = &impl_.properties {
        let mut i: usize = 0;
        proof {
            assert(properties@.take(0) =~= Seq::<Property>::empty());
        }
        while i < properties.len()
            invariant
                i <= properties@.len(),
                pair_table_view(bindings@) == spec_bindings_of(properties@.take(i as int)),
            decreases properties@.len() - i,
        {
            proof {
                assert(properties@.take(i + 1).drop_last() =~= properties@.take(i as int));
                assert(properties@.take(i + 1).last() == properties@[i as int]);
            }
            let ghost before = pair_table_view(bindings@);
            let mut pushed = false;
            if let Property::BasicProperty(basic_prop) = &properties[i] {
                let name = to_lower(basic_prop.identifier.name.as_str());
                if str_eq(name.as_str(), "actual_processor_binding") {
                    if let PropertyValue::Single(PropertyExpression::Reference(ref_term)) = &basic_prop.value {
                        if let Some(applies_to) = &ref_term.applies_to {
                            bindings.push((applies_to.clone(), ref_term.identifier.clone()));
                            pushed = true;
                            assert(pair_table_view(bindings@) =~= before + seq![
                                (applies_to@, ref_term.identifier@),
                            ]);
                        }
                    }
                }
            }
            if !pushed {
                assert(before + Seq::<(Seq<char>, Seq<char>)>::empty() =~= before);
            }
            i = i + 1;
        }
        proof {
            assert(properties@.take(properties@.len() as int) =~= properties@);
        }
    }
    bindings
}

// ---------------------------------------------------------------------------
// Processor numbers
// ---------------------------------------------------------------------------

/// Gives each processor name that has no number yet the next number (the
/// size of the table), in the order the names come.
pub open spec fn spec_assign_ids(t: Seq<(Seq<char>, int)>, names: Seq<Seq<char>>) -> Seq<(Seq<char>, int)>
    decreases names.len(),
{
    if names.len() == 0 {
        t
    } else {
        let t1 = spec_assign_ids(t, names.drop_last());
        if assoc_first(t1, names.last()) is Some {
            t1
        } else {
            t1.push((names.last(), t1.len() as int))
        }
    }
}

/// The processor table after a system's `new` is built: the processors it
/// binds numbered, and `default` as processor 0 where the table is empty.
pub open spec fn spec_system_cpu_ids(t: Seq<(Seq<char>, int)>, impl_: ComponentImplementation) -> Seq<
    (Seq<char>, int),
> {
    let t1 = spec_assign_ids(
        t,
        spec_processor_bindings(impl_).map_values(|b: (Seq<char>, Seq<char>)| b.1),
    );
    if t1.len() == 0 {
        seq![("default"@, 0int)]
    } else {
        t1
    }
}

/// Some processor of the table has the number `v`.
pub open spec fn has_id(t: Seq<(Seq<char>, int)>, v: int) -> bool {
    exists|i: int| 0 <= i < t.len() && #[trigger] t[i].1 == v
}

/// The processor numbers of a table are exactly `0 .. n-1`, `n` its size.
pub open spec fn ids_dense(t: Seq<(Seq<char>, int)>) -> bool {
    &&& forall|i: int| 0 <= i < t.len() ==> 0 <= #[trigger] t[i].1 < t.len()
    &&& forall|v: int| 0 <= v < t.len() ==> #[trigger] has_id(t, v)
}

proof fn lemma_dense_push(t: Seq<(Seq<char>, int)>, name: Seq<char>)
    requires
        ids_dense(t),
    ensures
        ids_dense(t.push((name, t.len() as int))),
{
    let u = t.push((name, t.len() as int));
    assert forall|i: int| 0 <= i < u.len() implies 0 <= #[trigger] u[i].1 < u.len() by {
        if i < t.len() {
            assert(u[i] == t[i]);
        }
    }
    assert forall|v: int| 0 <= v < u.len() implies #[trigger] has_id(u, v) by {
        if v < t.len() {
            assert(has_id(t, v));
            let i = choose|i: int| 0 <= i < t.len() && #[trigger] t[i].1 == v;
            assert(u[i] == t[i]);
        } else {
            assert(u[t.len() as int].1 == v);
        }
    }
}

proof fn lemma_assign_dense(t: Seq<(Seq<char>, int)>, names: Seq<Seq<char>>)
    requires
        ids_dense(t),
    ensures
        ids_dense(spec_assign_ids(t, names)),
    decreases names.len(),
{
    if names.len() > 0 {
        lemma_assign_dense(t, names.drop_last());
        let t1 = spec_assign_ids(t, names.drop_last());
        if assoc_first(t1, names.last()) is None {
            lemma_dense_push(t1, names.last());
        }
    }
}

/// A law of the processor numbers: where they are exactly `0 .. n-1`
/// before a system's `new` is built, they are exactly `0 .. m-1` after it,
/// with at least one processor.
pub proof fn lemma_system_cpu_ids_dense(t: Seq<(Seq<char>, int)>, impl_: ComponentImplementation)
    requires
        ids_dense(t),
    ensures
        ids_dense(spec_system_cpu_ids(t, impl_)),
        spec_system_cpu_ids(t, impl_).len() >= 1,
{
    let names = spec_processor_bindings(impl_).map_values(|b: (Seq<char>, Seq<char>)| b.1);
    lemma_assign_dense(t, names);
    let t1 = spec_assign_ids(t, names);
    if t1.len() == 0 {
        let d = seq![("default"@, 0int)];
        assert(d[0].1 == 0);
        assert(has_id(d, 0));
    }
}

/// The processor names of a table, in order.
pub open spec fn cpu_names(t: Seq<(Seq<char>, int)>) -> Seq<Seq<char>> {
    t.map_values(|e: (Seq<char>, int)| e.0)
}

proof fn lemma_assoc_first_names(t: Seq<(Seq<char>, int)>, x: Seq<char>)
    ensures
        (assoc_first(t, x) is Some) == cpu_names(t).contains(x),
    decreases t.len(),
{
    if t.len() > 0 {
        lemma_assoc_first_names(t.drop_first(), x);
        assert(cpu_names(t.drop_first()) =~= cpu_names(t).drop_first());
        if cpu_names(t).contains(x) && t[0].0 != x {
            let k = choose|k: int| 0 <= k < cpu_names(t).len() && cpu_names(t)[k] == x;
            assert(k != 0);
            assert(cpu_names(t.drop_first())[k - 1] == x);
        }
        if cpu_names(t.drop_first()).contains(x) {
            let k = choose|k: int| 0 <= k < cpu_names(t.drop_first()).len() && cpu_names(t.drop_first())[k] == x;
            assert(cpu_names(t)[k + 1] == x);
        }
        if t[0].0 == x {
            assert(cpu_names(t)[0] == x);
        }
    }
}

/// Names not yet in the table `t`.
pub open spec fn new_name(t: Seq<(Seq<char>, int)>) -> spec_fn(Seq<char>) -> bool {
    |x: Seq<char>| !cpu_names(t).contains(x)
}

proof fn lemma_assign_ids_shape(t: Seq<(Seq<char>, int)>, names: Seq<Seq<char>>)
    ensures
        spec_assign_ids(t, names).len() >= t.len(),
        spec_assign_ids(t, names).take(t.len() as int) == t,
        cpu_names(spec_assign_ids(t, names).skip(t.len() as int)) == spec_first_occurrences(
            names.filter(new_name(t)),
        ),
        forall|k: int|
            t.len() <= k < spec_assign_ids(t, names).len() ==> #[trigger] spec_assign_ids(t, names)[k].1 == k,
    decreases names.len(),
{
    reveal_with_fuel(Seq::filter, 1);
    let p = new_name(t);
    if names.len() == 0 {
        assert(t.take(t.len() as int) =~= t);
        assert(cpu_names(t.skip(t.len() as int)) =~= Seq::<Seq<char>>::empty());
        assert(names.filter(p) =~= Seq::<Seq<char>>::empty());
    } else {
        let init = names.drop_last();
        let x = names.last();
        lemma_assign_ids_shape(t, init);
        let t1 = spec_assign_ids(t, init);
        let d = spec_first_occurrences(init.filter(p));
        assert(names.filter(p) == if p(x) { init.filter(p).push(x) } else { init.filter(p) });
        assert(init.filter(p).push(x).drop_last() =~= init.filter(p));
        assert(t1 =~= t + t1.skip(t.len() as int));
        assert(cpu_names(t1) =~= cpu_names(t) + cpu_names(t1.skip(t.len() as int)));
        lemma_assoc_first_names(t1, x);
        if cpu_names(t1).contains(x) {
            if !cpu_names(t).contains(x) {
                let k = choose|k: int| 0 <= k < cpu_names(t1).len() && cpu_names(t1)[k] == x;
                if k < t.len() {
                    assert(cpu_names(t)[k] == x);
                }
                assert(d[k - t.len()] == x);
                assert(d.contains(x));
            }
        } else {
            assert(!cpu_names(t).contains(x)) by {
                if cpu_names(t).contains(x) {
                    let k = choose|k: int| 0 <= k < cpu_names(t).len() && cpu_names(t)[k] == x;
                    assert(cpu_names(t1)[k] == x);
                }
            }
            assert(!d.contains(x)) by {
                if d.contains(x) {
                    let k = choose|k: int| 0 <= k < d.len() && d[k] == x;
                    assert(cpu_names(t1)[t.len() + k] == x);
                }
            }
            let t2 = t1.push((x, t1.len() as int));
            assert(t2.take(t.len() as int) =~= t);
            assert(cpu_names(t2.skip(t.len() as int)) =~= d.push(x));
        }
    }
}

/// A law of the processor numbers: building a system's `new` keeps the
/// entries the table had; the processors it adds are exactly those its
/// bindings name that the table lacked, each once, in the order of their
/// first binding, and the `k`-th entry gets the number `k`. Where the table
/// would stay empty, `default` becomes processor 0.
pub proof fn lemma_system_cpu_ids_kept_and_numbered(t: Seq<(Seq<char>, int)>, impl_: ComponentImplementation)
    ensures
        ({
            let names = spec_processor_bindings(impl_).map_values(|b: (Seq<char>, Seq<char>)| b.1);
            let r = spec_system_cpu_ids(t, impl_);
            if t.len() == 0 && spec_first_occurrences(names.filter(new_name(t))).len() == 0 {
                r == seq![("default"@, 0int)]
            } else {
                &&& r.take(t.len() as int) == t
                &&& cpu_names(r.skip(t.len() as int)) == spec_first_occurrences(names.filter(new_name(t)))
                &&& forall|k: int| t.len() <= k < r.len() ==> #[trigger] r[k].1 == k
            }
        }),
{
    let names = spec_processor_bindings(impl_).map_values(|b: (Seq<char>, Seq<char>)| b.1);
    lemma_assign_ids_shape(t, names);
    let t1 = spec_assign_ids(t, names);
    assert(t1 =~= t + t1.skip(t.len() as int));
    assert(cpu_names(t1.skip(t.len() as int)).len() == t1.len() - t.len());
}

fn lookup_cpu(table: &Vec<(String, isize)>, key: &str) -> (res: Option<isize>)
    ensures
        match assoc_first(cpu_ids_view(table@), key@) {
            Some(v) => res matches Some(r) && r as int == v,
            None => res is None,
        },
{
    let ghost tv = cpu_ids_view(table@);
    let mut i: usize = 0;
    proof {
        assert(tv.skip(0) =~= tv);
    }
    while i < table.len()
        invariant
            i <= table@.len(),
            tv == cpu_ids_view(table@),
            assoc_first(tv.skip(i as int), key@) == assoc_first(tv, key@),
        decreases table@.len() - i,
    {
        proof {
            assert(tv.skip(i as int).drop_first() =~= tv.skip(i + 1));
        }
        if str_eq(table[i].0.as_str(), key) {
            return Some(table[i].1);
        }
        i = i + 1;
    }
    None
}

/// The converter is the same apart from its processor table.
pub open spec fn same_but_cpu_ids(a: AadlConverter, b: AadlConverter) -> bool {
    &&& a.type_mappings == b.type_mappings
    &&& a.component_types == b.component_types
    &&& a.annex_converter == b.annex_converter
    &&& a.cpu_scheduling_protocols == b.cpu_scheduling_protocols
    &&& a.data_comp_type == b.data_comp_type
    &&& a.process_broadcast_send == b.process_broadcast_send
    &&& a.process_broadcast_receive == b.process_broadcast_receive
    &&& a.system_subcomponent_identify_to_type == b.system_subcomponent_identify_to_type
    &&& a.thread_broadcast_receive == b.thread_broadcast_receive
    &&& a.process_subcomponent_identify_to_type == b.process_subcomponent_identify_to_type
    &&& a.thread_field_values == b.thread_field_values
    &&& a.thread_field_types == b.thread_field_types
}

fn assign_cpu_ids(temp_converter: &mut AadlConverter, bindings: &Vec<(String, String)>)
    requires
        cpu_ids_view(old(temp_converter).cpu_name_to_id_mapping@).len() + bindings@.len() < isize::MAX,
    ensures
        same_but_cpu_ids(*old(temp_converter), *final(temp_converter)),
        cpu_ids_view(final(temp_converter).cpu_name_to_id_mapping@) == ({
            let t1 = spec_assign_ids(
                cpu_ids_view(old(temp_converter).cpu_name_to_id_mapping@),
                pair_table_view(bindings@).map_values(|b: (Seq<char>, Seq<char>)| b.1),
            );
            if t1.len() == 0 {
                seq![("default"@, 0int)]
            } else {
                t1
            }
        }),
{
    let ghost t0 = cpu_ids_view(temp_converter.cpu_name_to_id_mapping@);
    let ghost names = pair_table_view(bindings@).map_values(|b: (Seq<char>, Seq<char>)| b.1);
    let mut i: usize = 0;
    proof {
        assert(names.take(0) =~= Seq::<Seq<char>>::empty());
    }
    while i < bindings.len()
        invariant
            i <= bindings@.len(),
            names.len() == bindings@.len(),
            names == pair_table_view(bindings@).map_values(|b: (Seq<char>, Seq<char>)| b.1),
            t0.len() + bindings@.len() < isize::MAX,
            same_but_cpu_ids(*old(temp_converter), *temp_converter),
            cpu_ids_view(temp_converter.cpu_name_to_id_mapping@) == spec_assign_ids(t0, names.take(i as int)),
            cpu_ids_view(temp_converter.cpu_name_to_id_mapping@).len() <= t0.len() + i,
        decreases bindings@.len() - i,
    {
        proof {
            assert(names.take(i + 1).drop_last() =~= names.take(i as int));
            assert(names.take(i + 1).last() == bindings@[i as int].1@);
        }
        let cpu_name = &bindings[i].1;
        if lookup_cpu(&temp_converter.cpu_name_to_id_mapping, cpu_name.as_str()).is_none() {
            let next_id = temp_converter.cpu_name_to_id_mapping.len() as isize;
            let ghost before = cpu_ids_view(temp_converter.cpu_name_to_id_mapping@);
            temp_converter.cpu_name_to_id_mapping.push((cpu_name.clone(), next_id));
            proof {
                assert(cpu_ids_view(temp_converter.cpu_name_to_id_mapping@) =~= before.push(
                    (cpu_name@, before.len() as int),
                ));
            }
        }
        i = i + 1;
    }
    proof {
        assert(names.take(names.len() as int) =~= names);
    }
    if temp_converter.cpu_name_to_id_mapping.len() == 0 {
        temp_converter.cpu_name_to_id_mapping.push(("default".to_string(), 0));
        proof {
            assert(cpu_ids_view(temp_converter.cpu_name_to_id_mapping@) =~= seq![("default"@, 0int)]);
        }
    }
}

// ---------------------------------------------------------------------------
// `new`
// ---------------------------------------------------------------------------

/// The implementation a subcomponent names, `UnsupportedComponent` where it
/// names none.
pub open spec fn spec_sub_impl_name(sub: Subcomponent) -> Seq<char> {
    match sub.classifier {
        SubcomponentClassifier::ClassifierReference(
            UniqueComponentClassifierReference::Implementation(r),
        ) => r.implementation_name.type_identifier@,
        _ => "UnsupportedComponent"@,
    }
}

/// The processor a process is bound to: the first binding for it.
pub open spec fn spec_bound_cpu(bindings: Seq<(Seq<char>, Seq<char>)>, process: Seq<char>) -> Option<
    Seq<char>,
>
    decreases bindings.len(),
{
    if bindings.len() == 0 {
        None
    } else if bindings[0].0 == process {
        Some(bindings[0].1)
    } else {
        spec_bound_cpu(bindings.drop_first(), process)
    }
}

/// The number of the processor a process runs on, 0 where it has none.
pub open spec fn spec_cpu_of(
    table: Seq<(Seq<char>, int)>,
    bindings: Seq<(Seq<char>, Seq<char>)>,
    process: Seq<char>,
) -> int {
    match spec_bound_cpu(bindings, process) {
        Some(cpu) => match assoc_first(table, cpu) {
            Some(id) => id,
            None => 0,
        },
        None => 0,
    }
}

/// `let mut <p>: <t>Process = <t>Process::new(<cpu>)` for a process,
/// `let mut <d>: <t>Device = <t>Device::new()` for a device.
pub open spec fn spec_sub_creation(
    table: Seq<(Seq<char>, int)>,
    bindings: Seq<(Seq<char>, Seq<char>)>,
    sub: Subcomponent,
) -> Seq<SpecStatement> {
    let v = lowercase(sub.identifier@);
    let t = lowercase(spec_sub_impl_name(sub));
    match sub.category {
        ComponentCategory::Process => seq![
            SpecStatement::Expr(
                s_ident(
                    "let mut "@ + v + ": "@ + t + "Process = "@ + t + "Process::new("@
                        + spec_decimal_int(spec_cpu_of(table, bindings, sub.identifier@)) + ")"@,
                ),
            ),
        ],
        ComponentCategory::Device => seq![
            SpecStatement::Expr(
                s_ident("let mut "@ + v + ": "@ + t + "Device = "@ + t + "Device::new()"@),
            ),
        ],
        _ => Seq::empty(),
    }
}

pub open spec fn spec_sub_creations(
    table: Seq<(Seq<char>, int)>,
    bindings: Seq<(Seq<char>, Seq<char>)>,
    subs: Seq<Subcomponent>,
) -> Seq<SpecStatement>
    decreases subs.len(),
{
    if subs.len() == 0 {
        Seq::empty()
    } else {
        spec_sub_creations(table, bindings, subs.drop_last()) + spec_sub_creation(
            table,
            bindings,
            subs.last(),
        )
    }
}

/// The code of the system's connections, with the broadcasts already made:
/// a port connection gets its channel, except a broadcast from a
/// (subcomponent, port) that was made before; another connection gets a
/// note that it is not supported.
pub open spec fn spec_system_conns(c: AadlConverter, conns: Seq<Connection>, comp: Seq<char>) -> (Seq<
    (Seq<char>, Seq<char>),
>, Seq<SpecStatement>)
    decreases conns.len(),
{
    if conns.len() == 0 {
        (Seq::empty(), Seq::empty())
    } else {
        let st = spec_system_conns(c, conns.drop_last(), comp);
        match conns.last() {
            Connection::Port(pc) => match pc.source {
                PortEndpoint::SubcomponentPort { subcomponent, port } => if c.broadcast_senders().contains(
                    (subcomponent@, port@),
                ) {
                    if st.0.contains((subcomponent@, port@)) {
                        st
                    } else {
                        (st.0.push((subcomponent@, port@)), st.1 + spec_channel_connection(c, pc, comp))
                    }
                } else {
                    (st.0, st.1 + spec_channel_connection(c, pc, comp))
                },
                _ => (st.0, st.1 + spec_channel_connection(c, pc, comp)),
            },
            other => (
                st.0,
                st.1.push(
                    SpecStatement::Expr(
                        s_ident("// TODO: Unsupported connection type in system: "@ + spec_connection_debug(other)),
                    ),
                ),
            ),
        }
    }
}

pub open spec fn is_process_or_device(sub: Subcomponent) -> bool {
    sub.category is Process || sub.category is Device
}

/// The names of the processes and devices, in lower case.
pub open spec fn spec_member_names(subs: Seq<Subcomponent>) -> Seq<Seq<char>>
    decreases subs.len(),
{
    if subs.len() == 0 {
        Seq::empty()
    } else {
        spec_member_names(subs.drop_last()) + if is_process_or_device(subs.last()) {
            seq![lowercase(subs.last().identifier@)]
        } else {
            Seq::empty()
        }
    }
}

pub open spec fn spec_impl_subs(impl_: ComponentImplementation) -> Seq<Subcomponent> {
    match impl_.subcomponents {
        SubcomponentClause::Items(subs) => subs@,
        _ => Seq::empty(),
    }
}

pub open spec fn spec_impl_conns(impl_: ComponentImplementation) -> Seq<Connection> {
    match impl_.connections {
        ConnectionClause::Items(conns) => conns@,
        _ => Seq::empty(),
    }
}

/// The body of a system's `new`, given the converter once its processor
/// table is filled: create the processes and devices, connect them, and
/// return the struct.
pub open spec fn spec_system_new_body(c: AadlConverter, impl_: ComponentImplementation) -> Seq<SpecStatement> {
    let subs = spec_impl_subs(impl_);
    spec_sub_creations(cpu_ids_view(c.cpu_name_to_id_mapping@), spec_processor_bindings(impl_), subs)
        + spec_system_conns(c, spec_impl_conns(impl_), impl_.name.type_identifier@).1 + seq![
        SpecStatement::Expr(
            s_ident("return Self { "@ + seq_join(spec_member_names(subs), ", "@) + " }  //显式return"@),
        ),
    ]
}

fn cpu_of(table: &Vec<(String, isize)>, bindings: &Vec<(String, String)>, process: &str) -> (res: isize)
    ensures
        res as int == spec_cpu_of(cpu_ids_view(table@), pair_table_view(bindings@), process@),
{
    let ghost bv = pair_table_view(bindings@);
    let mut k: usize = 0;
    proof {
        assert(bv.skip(0) =~= bv);
    }
    while k < bindings.len()
        invariant
            k <= bindings@.len(),
            bv == pair_table_view(bindings@),
            spec_bound_cpu(bv.skip(k as int), process@) == spec_bound_cpu(bv, process@),
        decreases bindings@.len() - k,
    {
        proof {
            assert(bv.skip(k as int).drop_first() =~= bv.skip(k + 1));
            assert(bv.skip(k as int)[0] == bv[k as int]);
        }
        if str_eq(bindings[k].0.as_str(), process) {
            return match lookup_cpu(table, bindings[k].1.as_str()) {
                Some(id) => id,
                None => 0,
            };
        }
        k = k + 1;
    }
    0
}

fn sub_creation(table: &Vec<(String, isize)>, bindings: &Vec<(String, String)>, sub: &Subcomponent, out: &mut Vec<
    Statement,
>)
    ensures
        stmts_view(final(out)@) == stmts_view(old(out)@) + spec_sub_creation(
            cpu_ids_view(table@),
            pair_table_view(bindings@),
            *sub,
        ),
{
    let ghost before = stmts_view(out@);
    let var_name = to_lower(sub.identifier.as_str());
    let impl_name = match &sub.classifier {
        SubcomponentClassifier::ClassifierReference(
            UniqueComponentClassifierReference::Implementation(unirf),
        ) => unirf.implementation_name.type_identifier.clone(),
        _ => "UnsupportedComponent".to_string(),
    };
    let t = to_lower(impl_name.as_str());
    match sub.category {
        ComponentCategory::Process => {
            let cpu_id = cpu_of(table, bindings, sub.identifier.as_str());
            let digits = i64_to_decimal(cpu_id as i64);
            let a = concat3("let mut ", var_name.as_str(), ": ");
            let b = concat3(a.as_str(), t.as_str(), "Process = ");
            let c = concat3(b.as_str(), t.as_str(), "Process::new(");
            let d = concat3(c.as_str(), digits.as_str(), ")");
            let st = Statement::Expr(mk_ident(d.as_str()));
            let ghost sv = st@;
            out.push(st);
            assert(stmts_view(out@) =~= before + seq![sv]);
        },
        ComponentCategory::Device => {
            let a = concat3("let mut ", var_name.as_str(), ": ");
            let b = concat3(a.as_str(), t.as_str(), "Device = ");
            let c = concat3(b.as_str(), t.as_str(), "Device::new()");
            let st = Statement::Expr(mk_ident(c.as_str()));
            let ghost sv = st@;
            out.push(st);
            assert(stmts_view(out@) =~= before + seq![sv]);
        },
        _ => {
            assert(before + Seq::<SpecStatement>::empty() =~= before);
        },
    }
}


fn sub_creations(table: &Vec<(String, isize)>, bindings: &Vec<(String, String)>, subs: &Vec<Subcomponent>) -> (res:
    Vec<Statement>)
    ensures
        stmts_view(res@) == spec_sub_creations(cpu_ids_view(table@), pair_table_view(bindings@), subs@),
{
    let mut out: Vec<Statement> = Vec::new();
    let mut i: usize = 0;
    proof {
        lemma_views_empty();
        assert(subs@.take(0) =~= Seq::<Subcomponent>::empty());
    }
    while i < subs.len()
        invariant
            i <= subs@.len(),
            stmts_view(out@) == spec_sub_creations(
                cpu_ids_view(table@),
                pair_table_view(bindings@),
                subs@.take(i as int),
            ),
        decreases subs@.len() - i,
    {
        proof {
            assert(subs@.take(i + 1).drop_last() =~= subs@.take(i as int));
            assert(subs@.take(i + 1).last() == subs@[i as int]);
        }
        sub_creation(table, bindings, &subs[i], &mut out);
        i = i + 1;
    }
    proof {
        assert(subs@.take(subs@.len() as int) =~= subs@);
    }
    out
}

fn system_conns(c: &AadlConverter, conns: &Vec<Connection>, comp: &String, out: &mut Vec<Statement>)
    ensures
        stmts_view(final(out)@) == stmts_view(old(out)@) + spec_system_conns(*c, conns@, comp@).1,
{
    let ghost start = stmts_view(out@);
    let mut processed: Vec<(String, String)> = Vec::new();
    let mut i: usize = 0;
    proof {
        assert(conns@.take(0) =~= Seq::<Connection>::empty());
        assert(pair_table_view(processed@) =~= Seq::<(Seq<char>, Seq<char>)>::empty());
        assert(start + Seq::<SpecStatement>::empty() =~= start);
    }
    while i < conns.len()
        invariant
            i <= conns@.len(),
            pair_table_view(processed@) == spec_system_conns(*c, conns@.take(i as int), comp@).0,
            stmts_view(out@) == start + spec_system_conns(*c, conns@.take(i as int), comp@).1,
        decreases conns@.len() - i,
    {
        proof {
            assert(conns@.take(i + 1).drop_last() =~= conns@.take(i as int));
            assert(conns@.take(i + 1).last() == conns@[i as int]);
        }
        let ghost before = stmts_view(out@);
        match &conns[i] {
            Connection::Port(port_conn) => {
                let mut skip = false;
                if let PortEndpoint::SubcomponentPort { subcomponent, port } = &port_conn.source {
                    if pairs_contain(&c.process_broadcast_send, subcomponent.as_str(), port.as_str()) {
                        if pairs_contain(&processed, subcomponent.as_str(), port.as_str()) {
                            skip = true;
                        } else {
                            let ghost pv = pair_table_view(processed@);
                            processed.push((subcomponent.clone(), port.clone()));
                            proof {
                                assert(pair_table_view(processed@) =~= pv.push((subcomponent@, port@)));
                            }
                        }
                    }
                }
                if !skip {
                    let mut ch = c.create_channel_connection(port_conn, comp.clone());
                    let ghost pre = out@;
                    let ghost chs = ch@;
                    out.append(&mut ch);
                    proof {
                        lemma_stmts_view_concat(pre, chs);
                    }
                }
            },
            other => {
                let d = connection_debug_text(other);
                let text = concat("// TODO: Unsupported connection type in system: ", d.as_str());
                let st = Statement::Expr(mk_ident(text.as_str()));
                let ghost sv = st@;
                out.push(st);
                proof {
                    assert(stmts_view(out@) =~= before.push(sv));
                }
            },
        }
        proof {
            assert(stmts_view(out@) =~= start + spec_system_conns(*c, conns@.take(i + 1), comp@).1);
        }
        i = i + 1;
    }
    proof {
        assert(conns@.take(conns@.len() as int) =~= conns@);
    }
}

fn member_names(subs: &Vec<Subcomponent>) -> (res: Vec<String>)
    ensures
        strings_view(res@) == spec_member_names(subs@),
{
    let mut names: Vec<String> = Vec::new();
    let mut i: usize = 0;
    proof {
        assert(strings_view(names@) =~= Seq::<Seq<char>>::empty());
        assert(subs@.take(0) =~= Seq::<Subcomponent>::empty());
    }
    while i < subs.len()
        invariant
            i <= subs@.len(),
            strings_view(names@) == spec_member_names(subs@.take(i as int)),
        decreases subs@.len() - i,
    {
        proof {
            assert(subs@.take(i + 1).drop_last() =~= subs@.take(i as int));
            assert(subs@.take(i + 1).last() == subs@[i as int]);
        }
        let ghost before = strings_view(names@);
        let keep = match subs[i].category {
            ComponentCategory::Process | ComponentCategory::Device => true,
            _ => false,
        };
        if keep {
            let n = to_lower(subs[i].identifier.as_str());
            let ghost nv = n@;
            names.push(n);
            proof {
                assert(strings_view(names@) =~= before + seq![nv]);
            }
        } else {
            proof {
                assert(before + Seq::<Seq<char>>::empty() =~= before);
            }
        }
        i = i + 1;
    }
    proof {
        assert(subs@.take(subs@.len() as int) =~= subs@);
    }
    names
}

/// The body of a system's `new` (see `spec_system_new_body`); it numbers
/// the processors the system's processes are bound to in the converter's
/// processor table first (see `spec_system_cpu_ids`).
pub fn create_system_new_body(temp_converter: &mut AadlConverter, impl_: &ComponentImplementation) -> (res: Vec<
    Statement,
>)
    requires
        cpu_ids_view(old(temp_converter).cpu_name_to_id_mapping@).len() + spec_processor_bindings(*impl_).len()
            < isize::MAX,
    ensures
        same_but_cpu_ids(*old(temp_converter), *final(temp_converter)),
        cpu_ids_view(final(temp_converter).cpu_name_to_id_mapping@) == spec_system_cpu_ids(
            cpu_ids_view(old(temp_converter).cpu_name_to_id_mapping@),
            *impl_,
        ),
        stmts_view(res@) == spec_system_new_body(*final(temp_converter), *impl_),
{
    let processor_bindings = extract_processor_bindings(impl_);
    assign_cpu_ids(temp_converter, &processor_bindings);
    let no_subs: Vec<Subcomponent> = Vec::new();
    let subs: &Vec<Subcomponent> = match &impl_.subcomponents {
        SubcomponentClause::Items(ss) => ss,
        _ => &no_subs,
    };
    proof {
        assert(subs@ =~= spec_impl_subs(*impl_));
    }
    let no_conns: Vec<Connection> = Vec::new();
    let conns: &Vec<Connection> = match &impl_.connections {
        ConnectionClause::Items(cs) => cs,
        _ => &no_conns,
    };
    proof {
        assert(conns@ =~= spec_impl_conns(*impl_));
    }
    let mut stmts = sub_creations(&temp_converter.cpu_name_to_id_mapping, &processor_bindings, subs);
    system_conns(temp_converter, conns, &impl_.name.type_identifier, &mut stmts);
    let names = member_names(subs);
    let joined = join_strings(&names, ", ");
    let text = concat3("return Self { ", joined.as_str(), " }  //显式return");
    let r = Statement::Expr(mk_ident(text.as_str()));
    let ghost before = stmts_view(stmts@);
    let ghost rv = r@;
    stmts.push(r);
    proof {
        assert(stmts_view(stmts@) =~= before + seq![rv]);
    }
    stmts
}

// ---------------------------------------------------------------------------
// `run`
// ---------------------------------------------------------------------------

/// `self.<p>.start()` for each process; a named thread running
/// `self.<d>.run()` for each device.
pub open spec fn spec_system_run_body(subs: Seq<Subcomponent>) -> Seq<SpecStatement>
    decreases subs.len(),
{
    if subs.len() == 0 {
        Seq::empty()
    } else {
        let v = lowercase(subs.last().identifier@);
        spec_system_run_body(subs.drop_last()) + match subs.last().category {
            ComponentCategory::Process => seq![SpecStatement::Expr(s_ident("self."@ + v + ".start()"@))],
            ComponentCategory::Device => seq![
                s_spawn("\""@ + v + "\".to_string()"@, s_mcall(s_member("self"@, v), "run"@, Seq::empty())),
            ],
            _ => Seq::empty(),
        }
    }
}

/// The body of a system's `run` (see `spec_system_run_body`).
pub fn create_system_run_body(impl_: &ComponentImplementation) -> (res: Vec<Statement>)
    ensures
        stmts_view(res@) == spec_system_run_body(spec_impl_subs(*impl_)),
{
    let mut out: Vec<Statement> = Vec::new();
    proof {
        lemma_views_empty();
    }
    if let SubcomponentClause::Items(subs) = &impl_.subcomponents {
        let mut i: usize = 0;
        proof {
            assert(subs@.take(0) =~= Seq::<Subcomponent>::empty());
        }
        while i < subs.len()
            invariant
                i <= subs@.len(),
                stmts_view(out@) == spec_system_run_body(subs@.take(i as int)),
            decreases subs@.len() - i,
        {
            proof {
                assert(subs@.take(i + 1).drop_last() =~= subs@.take(i as int));
                assert(subs@.take(i + 1).last() == subs@[i as int]);
            }
            let ghost before = stmts_view(out@);
            let v = to_lower(subs[i].identifier.as_str());
            match subs[i].category {
                ComponentCategory::Process => {
                    let st = Statement::Expr(mk_ident(concat3("self.", v.as_str(), ".start()").as_str()));
                    let ghost sv = st@;
                    out.push(st);
                    assert(stmts_view(out@) =~= before + seq![sv]);
                },
                ComponentCategory::Device => {
                    let name_text = concat3("\"", v.as_str(), "\".to_string()");
                    let st = spawn_thread(name_text, mk_mcall0(mk_member("self", v.as_str()), "run"));
                    let ghost sv = st@;
                    out.push(st);
                    assert(stmts_view(out@) =~= before + seq![sv]);
                },
                _ => {
                    assert(before + Seq::<SpecStatement>::empty() =~= before);
                },
            }
            i = i + 1;
        }
        proof {
            assert(subs@.take(subs@.len() as int) =~= subs@);
        }
    } else {
        assert(stmts_view(out@) =~= spec_system_run_body(spec_impl_subs(*impl_)));
    }
    out
}


// ---------------------------------------------------------------------------
// The system struct and its impl block
// ---------------------------------------------------------------------------

/// `#[allow(dead_code)]`
pub open spec fn spec_allow_dead_code() -> SpecAttribute {
    SpecAttribute { name: "allow"@, args: seq!["dead_code"@] }
}

/// The field of a process or device subcomponent: its name in lower case,
/// of the struct type of the implementation it names.
pub open spec fn spec_system_field(sub: Subcomponent) -> SpecField {
    let t = spec_sub_impl_name(sub);
    let (suffix, kind) = if sub.category is Process {
        ("Process"@, "process"@)
    } else {
        ("Device"@, "device"@)
    };
    let doc = if sub.category is Process {
        "// 子组件进程（"@ + sub.identifier@ + " : process "@ + t + "）"@
    } else {
        "// 子组件设备（"@ + sub.identifier@ + " : device "@ + t + "）"@
    };
    SpecField {
        name: lowercase(sub.identifier@),
        ty: SpecType::Named(lowercase(t) + suffix),
        docs: seq![doc],
        attrs: seq![spec_allow_dead_code()],
    }
}

pub open spec fn spec_system_fields(subs: Seq<Subcomponent>) -> Seq<SpecField>
    decreases subs.len(),
{
    if subs.len() == 0 {
        Seq::empty()
    } else {
        spec_system_fields(subs.drop_last()) + if is_process_or_device(subs.last()) {
            seq![spec_system_field(subs.last())]
        } else {
            Seq::empty()
        }
    }
}

fn system_field(sub: &Subcomponent) -> (res: Field)
    requires
        is_process_or_device(*sub),
    ensures
        res@ == spec_system_field(*sub),
{
    let t = match &sub.classifier {
        SubcomponentClassifier::ClassifierReference(
            UniqueComponentClassifierReference::Implementation(unirf),
        ) => unirf.implementation_name.type_identifier.clone(),
        _ => "UnsupportedComponent".to_string(),
    };
    let is_process = match sub.category {
        ComponentCategory::Process => true,
        _ => false,
    };
    let lower_t = to_lower(t.as_str());
    let ty_name = if is_process {
        concat(lower_t.as_str(), "Process")
    } else {
        concat(lower_t.as_str(), "Device")
    };
    let doc = if is_process {
        let a = concat3("// 子组件进程（", sub.identifier.as_str(), " : process ");
        concat3(a.as_str(), t.as_str(), "）")
    } else {
        let a = concat3("// 子组件设备（", sub.identifier.as_str(), " : device ");
        concat3(a.as_str(), t.as_str(), "）")
    };
    let mut docs: Vec<String> = Vec::new();
    docs.push(doc);
    let mut args: Vec<AttributeArg> = Vec::new();
    args.push(AttributeArg::Ident("dead_code".to_string()));
    let mut attrs: Vec<Attribute> = Vec::new();
    attrs.push(Attribute { name: "allow".to_string(), args });
    proof {
        assert(strings_view(docs@) =~= seq![docs@[0]@]);
        assert(attrs@[0].args@.map_values(|a: AttributeArg| a.view()) =~= seq!["dead_code"@]);
        assert(attrs_view(attrs@) =~= seq![spec_allow_dead_code()]);
    }
    Field { name: to_lower(sub.identifier.as_str()), ty: Type::Named(ty_name), docs, attrs }
}

/// The fields of a system struct: one per process or device subcomponent.
pub fn get_system_fields(impl_: &ComponentImplementation) -> (res: Vec<Field>)
    ensures
        fields_view(res@) == spec_system_fields(spec_impl_subs(*impl_)),
{
    let mut fields: Vec<Field> = Vec::new();
    proof {
        assert(fields_view(fields@) =~= Seq::<SpecField>::empty());
    }
    if let SubcomponentClause::Items(subs) = &impl_.subcomponents {
        let mut i: usize = 0;
        proof {
            assert(subs@.take(0) =~= Seq::<Subcomponent>::empty());
        }
        while i < subs.len()
            invariant
                i <= subs@.len(),
                fields_view(fields@) == spec_system_fields(subs@.take(i as int)),
            decreases subs@.len() - i,
        {
            proof {
                assert(subs@.take(i + 1).drop_last() =~= subs@.take(i as int));
                assert(subs@.take(i + 1).last() == subs@[i as int]);
            }
            let ghost before = fields_view(fields@);
            let keep = match subs[i].category {
                ComponentCategory::Process | ComponentCategory::Device => true,
                _ => false,
            };
            if keep {
                let f = system_field(&subs[i]);
                let ghost fv = f@;
                fields.push(f);
                proof {
                    assert(fields_view(fields@) =~= before + seq![fv]);
                }
            } else {
                proof {
                    assert(before + Seq::<SpecField>::empty() =~= before);
                }
            }
            i = i + 1;
        }
        proof {
            assert(subs@.take(subs@.len() as int) =~= subs@);
        }
    }
    fields
}

/// `<type in lower case>System`, the name of a system's struct.
pub open spec fn spec_system_name(impl_: ComponentImplementation) -> Seq<char> {
    lowercase(impl_.name.type_identifier@) + "System"@
}

/// `impl System for <name>` with `fn new() -> Self` (whose body is made with
/// the converter `c` after the processors are numbered) and `fn run(self)`.
pub open spec fn spec_system_impl_block(c: AadlConverter, impl_: ComponentImplementation) -> SpecImplBlock {
    SpecImplBlock {
        target: SpecType::Named(spec_system_name(impl_)),
        generics: Seq::empty(),
        items: seq![
            SpecImplItem::Method(
                SpecFunctionDef {
                    name: "new"@,
                    params: Seq::empty(),
                    return_type: SpecType::Named("Self"@),
                    body: s_block(spec_system_new_body(c, impl_)),
                    asyncness: false,
                    vis: Visibility::Inherited,
                    docs: seq!["// Creates a new system instance"@],
                    attrs: Seq::empty(),
                },
            ),
            SpecImplItem::Method(
                SpecFunctionDef {
                    name: "run"@,
                    params: seq![SpecParam { name: "self"@, ty: SpecType::Named("Self"@) }],
                    return_type: SpecType::Unit,
                    body: s_block(spec_system_run_body(spec_impl_subs(impl_))),
                    asyncness: false,
                    vis: Visibility::Inherited,
                    docs: seq!["// Runs the system, starts all processes"@],
                    attrs: Seq::empty(),
                },
            ),
        ],
        trait_impl: Some(SpecType::Named("System"@)),
    }
}

fn method(name: &str, params: Vec<Param>, return_type: Type, body: Vec<Statement>, doc: &str) -> (res:
    ImplItem)
    ensures
        res@ == SpecImplItem::Method(
            SpecFunctionDef {
                name: name@,
                params: params_view(params@),
                return_type: return_type@,
                body: s_block(stmts_view(body@)),
                asyncness: false,
                vis: Visibility::Inherited,
                docs: seq![doc@],
                attrs: Seq::empty(),
            },
        ),
{
    let mut docs: Vec<String> = Vec::new();
    docs.push(doc.to_string());
    let attrs: Vec<Attribute> = Vec::new();
    proof {
        assert(strings_view(docs@) =~= seq![doc@]);
        assert(attrs_view(attrs@) =~= Seq::<SpecAttribute>::empty());
    }
    ImplItem::Method(
        FunctionDef {
            name: name.to_string(),
            params,
            return_type,
            body: mk_block(body),
            asyncness: false,
            vis: Visibility::Inherited,
            docs,
            attrs,
        },
    )
}

/// The `impl System` block of a system (see `spec_system_impl_block`).
pub fn create_system_impl_block(temp_converter: &mut AadlConverter, impl_: &ComponentImplementation) -> (res:
    ImplBlock)
    requires
        cpu_ids_view(old(temp_converter).cpu_name_to_id_mapping@).len() + spec_processor_bindings(*impl_).len()
            < isize::MAX,
    ensures
        same_but_cpu_ids(*old(temp_converter), *final(temp_converter)),
        cpu_ids_view(final(temp_converter).cpu_name_to_id_mapping@) == spec_system_cpu_ids(
            cpu_ids_view(old(temp_converter).cpu_name_to_id_mapping@),
            *impl_,
        ),
        res@ == spec_system_impl_block(*final(temp_converter), *impl_),
{
    let no_params: Vec<Param> = Vec::new();
    assert(params_view(no_params@) =~= Seq::<SpecParam>::empty());
    let new_fn = method(
        "new",
        no_params,
        mk_named("Self"),
        create_system_new_body(temp_converter, impl_),
        "// Creates a new system instance",
    );
    let mut params: Vec<Param> = Vec::new();
    params.push(Param { name: "self".to_string(), ty: mk_named("Self") });
    assert(params_view(params@) =~= seq![SpecParam { name: "self"@, ty: SpecType::Named("Self"@) }]);
    let run_fn = method(
        "run",
        params,
        Type::Unit,
        create_system_run_body(impl_),
        "// Runs the system, starts all processes",
    );
    let items = vec2_impl_items(new_fn, run_fn);
    let generics: Vec<String> = Vec::new();
    assert(strings_view(generics@) =~= Seq::<Seq<char>>::empty());
    let lower = to_lower(impl_.name.type_identifier.as_str());
    ImplBlock {
        target: Type::Named(concat(lower.as_str(), "System")),
        generics,
        items,
        trait_impl: Some(mk_named("System")),
    }
}

/// The struct of a system: one field per process or device.
pub open spec fn spec_system_struct(impl_: ComponentImplementation) -> SpecStructDef {
    SpecStructDef {
        name: spec_system_name(impl_),
        fields: spec_system_fields(spec_impl_subs(impl_)),
        properties: Seq::empty(),
        generics: Seq::empty(),
        derives: seq!["Debug"@],
        docs: seq![
            "// System implementation: "@ + impl_.name.type_identifier@,
            "// Auto-generated from AADL"@,
        ],
        vis: Visibility::Public,
    }
}

/// A system implementation becomes its struct and its `impl System` block;
/// the processors its processes are bound to get their numbers in the
/// converter's processor table.
pub fn convert_system_implementation(temp_converter: &mut AadlConverter, impl_: &ComponentImplementation) -> (res:
    Vec<Item>)
    requires
        cpu_ids_view(old(temp_converter).cpu_name_to_id_mapping@).len() + spec_processor_bindings(*impl_).len()
            < isize::MAX,
    ensures
        same_but_cpu_ids(*old(temp_converter), *final(temp_converter)),
        cpu_ids_view(final(temp_converter).cpu_name_to_id_mapping@) == spec_system_cpu_ids(
            cpu_ids_view(old(temp_converter).cpu_name_to_id_mapping@),
            *impl_,
        ),
        items_view(res@) == seq![
            SpecItem::Struct(spec_system_struct(*impl_)),
            SpecItem::Impl(spec_system_impl_block(*final(temp_converter), *impl_)),
        ],
{
    let fields = get_system_fields(impl_);
    let props: Vec<StruProperty> = Vec::new();
    assert(props_view(props@) =~= Seq::empty());
    let generics: Vec<String> = Vec::new();
    assert(strings_view(generics@) =~= Seq::<Seq<char>>::empty());
    let mut docs: Vec<String> = Vec::new();
    docs.push(concat("// System implementation: ", impl_.name.type_identifier.as_str()));
    docs.push("// Auto-generated from AADL".to_string());
    let mut derives: Vec<String> = Vec::new();
    derives.push("Debug".to_string());
    proof {
        assert(strings_view(docs@) =~= seq![
            "// System implementation: "@ + impl_.name.type_identifier@,
            "// Auto-generated from AADL"@,
        ]);
        assert(strings_view(derives@) =~= seq!["Debug"@]);
    }
    let lower = to_lower(impl_.name.type_identifier.as_str());
    let sd = StructDef {
        name: concat(lower.as_str(), "System"),
        fields,
        properties: props,
        generics,
        derives,
        docs,
        vis: Visibility::Public,
    };
    let ib = create_system_impl_block(temp_converter, impl_);
    vec2_items(Item::Struct(sd), Item::Impl(ib))
}

} // verus!
