//! The converter's model-wide state and the conversions of types, ports and
//! properties that the per-component steps share.
//!
//! The tables of the converter are association lists of `(key, value)`
//! pairs: a key occurs at most once, and a lookup gives the value of the
//! first pair with that key.

use vstd::prelude::*;
use crate::aadlAst2rustCode::converter_annex::AnnexConverter;
use crate::ast::aadl_ast_cj::{
    Feature, FeatureClause, PortConnection, PortEndpoint, BooleanTerm, ComponentCategory, ComponentImplementation, ComponentRef, ComponentType,
    PortDataTypeReference, PortDirection, PortSpec, PortType, Property, PropertyClause,
    PropertyExpression, PropertyValue, Sign, SignedIntergerOrConstant, SignedRealOrConstant,
    StringTerm, UniqueComponentClassifierReference, AccessDirection, DataAccessReference,
    SubcomponentAccessSpec, DataAccessSpec, Package, VisibilityDeclaration, Connection, ConnectionSymbol,
    ParameterEndpoint, AccessEndpoint,
};
use crate::intermediate_ast::{
    LetStmt, lemma_stmts_view_concat, mk_call, mk_ident, mk_let, mk_mcall0, mk_ns2, vec1_expr,
    vec1_stmt,
    group_view_laws, exprs_view, lemma_exprs_view_push, lemma_stmts_view_push, stmts_view, PathType, SpecLetStmt,
    SpecStatement, Statement, lemma_types_view_push, lemma_views_empty, types_view, Expr, Literal, SpecExpr, SpecLiteral, opt_string_view, props_view, SpecPropertyValue, SpecStruProperty, SpecType, StruProperty,
    StruPropertyValue, Type, Field, SpecField, fields_view, attrs_view, Attribute, SpecAttribute,
    RustWith, SpecRustWith,
};
use crate::text::{
    all_digits, lemma_digits_value_nonneg, concat, spec_contains, str_contains, concat3, lowercase, parse_u64, spec_parse_u64, spec_strip_prefix, str_eq,
    strings_view, strip_prefix_owned, to_lower, debug_quoted, debug_str, spec_strip_suffix,
    strip_suffix_owned,
};

verus! {

broadcast use group_view_laws;

// ---------------------------------------------------------------------------
// Association lists
// ---------------------------------------------------------------------------

/// The value of the first pair whose key is `key`.
pub open spec fn assoc_first<V>(entries: Seq<(Seq<char>, V)>, key: Seq<char>) -> Option<V>
    decreases entries.len(),
{
    if entries.len() == 0 {
        None
    } else if entries[0].0 == key {
        Some(entries[0].1)
    } else {
        assoc_first(entries.drop_first(), key)
    }
}

/// A table after `(key, value)` is put in it, as `HashMap::insert` does:
/// the value of the first entry with that key is replaced, or the entry is
/// added at the end.
pub open spec fn assoc_insert<V>(entries: Seq<(Seq<char>, V)>, key: Seq<char>, value: V) -> Seq<(Seq<char>, V)>
    decreases entries.len(),
{
    if entries.len() == 0 {
        seq![(key, value)]
    } else if entries[0].0 == key {
        entries.update(0, (key, value))
    } else {
        seq![entries[0]] + assoc_insert(entries.drop_first(), key, value)
    }
}

/// A law of the tables: after a key is put in, a lookup of that key gives
/// the value put in, and a lookup of any other key gives what it gave
/// before.
pub proof fn lemma_assoc_insert<V>(entries: Seq<(Seq<char>, V)>, key: Seq<char>, value: V, other: Seq<char>)
    ensures
        assoc_first(assoc_insert(entries, key, value), key) == Some(value),
        other != key ==> assoc_first(assoc_insert(entries, key, value), other) == assoc_first(entries, other),
    decreases entries.len(),
{
    if entries.len() == 0 {
        assert(seq![(key, value)].drop_first() =~= Seq::<(Seq<char>, V)>::empty());
        assert(assoc_first(Seq::<(Seq<char>, V)>::empty(), other) is None);
        assert(other != key ==> assoc_first(seq![(key, value)], other) is None);
    } else if entries[0].0 != key {
        lemma_assoc_insert(entries.drop_first(), key, value, other);
        let r = assoc_insert(entries.drop_first(), key, value);
        assert((seq![entries[0]] + r).drop_first() =~= r);
        assert((seq![entries[0]] + r)[0] == entries[0]);
    } else {
        let u = entries.update(0, (key, value));
        assert(u.drop_first() =~= entries.drop_first());
        assert(u[0] == (key, value));
        assert(other != key ==> assoc_first(u, other) == assoc_first(entries.drop_first(), other));
    }
}

/// Putting a key in at its first entry replaces that entry.
pub proof fn lemma_assoc_insert_first<V>(entries: Seq<(Seq<char>, V)>, key: Seq<char>, value: V, i: int)
    requires
        0 <= i < entries.len(),
        entries[i].0 == key,
        forall|j: int| 0 <= j < i ==> #[trigger] entries[j].0 != key,
    ensures
        assoc_insert(entries, key, value) == entries.update(i, (key, value)),
    decreases i,
{
    if i > 0 {
        let t = entries.drop_first();
        assert forall|j: int| 0 <= j < i - 1 implies #[trigger] t[j].0 != key by {
            assert(entries[j + 1].0 != key);
        }
        lemma_assoc_insert_first(t, key, value, i - 1);
        assert(entries[0].0 != key);
        assert(seq![entries[0]] + t.update(i - 1, (key, value)) =~= entries.update(i, (key, value)));
    }
}

/// Putting in a key that no entry has adds it at the end.
pub proof fn lemma_assoc_insert_absent<V>(entries: Seq<(Seq<char>, V)>, key: Seq<char>, value: V)
    requires
        forall|j: int| 0 <= j < entries.len() ==> #[trigger] entries[j].0 != key,
    ensures
        assoc_insert(entries, key, value) == entries.push((key, value)),
    decreases entries.len(),
{
    if entries.len() > 0 {
        let t = entries.drop_first();
        assert forall|j: int| 0 <= j < t.len() implies #[trigger] t[j].0 != key by {
            assert(entries[j + 1].0 != key);
        }
        lemma_assoc_insert_absent(t, key, value);
        assert(entries[0].0 != key);
        assert(seq![entries[0]] + t.push((key, value)) =~= entries.push((key, value)));
    }
}

/// The index of the first entry of `table` with key `key`, if any.
pub fn find_key<V>(table: &Vec<(String, V)>, key: &str) -> (res: Option<usize>)
    ensures
        match res {
            Some(i) => i < table@.len() && table@[i as int].0@ == key@ && forall|j: int|
                0 <= j < i ==> #[trigger] table@[j].0@ != key@,
            None => forall|j: int| 0 <= j < table@.len() ==> #[trigger] table@[j].0@ != key@,
        },
{
    let mut i: usize = 0;
    while i < table.len()
        invariant
            i <= table@.len(),
            forall|j: int| 0 <= j < i ==> #[trigger] table@[j].0@ != key@,
        decreases table@.len() - i,
    {
        if str_eq(table[i].0.as_str(), key) {
            return Some(i);
        }
        i = i + 1;
    }
    None
}

/// Puts `(key, value)` in a table of property values (see `assoc_insert`).
pub fn put_value(table: &mut Vec<(String, StruPropertyValue)>, key: String, value: StruPropertyValue)
    ensures
        value_table_view(final(table)@) == assoc_insert(value_table_view(old(table)@), key@, value@),
{
    let ghost tv = value_table_view(table@);
    let ghost (kv, vv) = (key@, value@);
    match find_key(table, key.as_str()) {
        Some(i) => {
            table.set(i, (key, value));
            proof {
                assert forall|j: int| 0 <= j < i implies #[trigger] tv[j].0 != kv by {
                    assert(old(table)@[j].0@ != kv);
                }
                lemma_assoc_insert_first(tv, kv, vv, i as int);
                assert(value_table_view(table@) =~= tv.update(i as int, (kv, vv)));
            }
        },
        None => {
            table.push((key, value));
            proof {
                assert forall|j: int| 0 <= j < tv.len() implies #[trigger] tv[j].0 != kv by {
                    assert(old(table)@[j].0@ != kv);
                }
                lemma_assoc_insert_absent(tv, kv, vv);
                assert(value_table_view(table@) =~= tv.push((kv, vv)));
            }
        },
    }
}

/// Puts `(key, value)` in a type table (see `assoc_insert`).
pub fn put_type(table: &mut Vec<(String, Type)>, key: String, value: Type)
    ensures
        type_table_view(final(table)@) == assoc_insert(type_table_view(old(table)@), key@, value@),
{
    let ghost tv = type_table_view(table@);
    let ghost (kv, vv) = (key@, value@);
    match find_key(table, key.as_str()) {
        Some(i) => {
            table.set(i, (key, value));
            proof {
                assert forall|j: int| 0 <= j < i implies #[trigger] tv[j].0 != kv by {
                    assert(old(table)@[j].0@ != kv);
                }
                lemma_assoc_insert_first(tv, kv, vv, i as int);
                assert(type_table_view(table@) =~= tv.update(i as int, (kv, vv)));
            }
        },
        None => {
            table.push((key, value));
            proof {
                assert forall|j: int| 0 <= j < tv.len() implies #[trigger] tv[j].0 != kv by {
                    assert(old(table)@[j].0@ != kv);
                }
                lemma_assoc_insert_absent(tv, kv, vv);
                assert(type_table_view(table@) =~= tv.push((kv, vv)));
            }
        },
    }
}

/// Puts a thread struct's field values in the converter's table of them
/// (see `assoc_insert`).
pub fn put_thread_values(
    table: &mut Vec<(String, Vec<(String, StruPropertyValue)>)>,
    key: String,
    value: Vec<(String, StruPropertyValue)>,
)
    ensures
        nested_values_view(final(table)@) == assoc_insert(
            nested_values_view(old(table)@),
            key@,
            value_table_view(value@),
        ),
{
    let ghost tv = nested_values_view(table@);
    let ghost (kv, vv) = (key@, value_table_view(value@));
    match find_key(table, key.as_str()) {
        Some(i) => {
            table.set(i, (key, value));
            proof {
                assert forall|j: int| 0 <= j < i implies #[trigger] tv[j].0 != kv by {
                    assert(old(table)@[j].0@ != kv);
                }
                lemma_assoc_insert_first(tv, kv, vv, i as int);
                assert(nested_values_view(table@) =~= tv.update(i as int, (kv, vv)));
            }
        },
        None => {
            table.push((key, value));
            proof {
                assert forall|j: int| 0 <= j < tv.len() implies #[trigger] tv[j].0 != kv by {
                    assert(old(table)@[j].0@ != kv);
                }
                lemma_assoc_insert_absent(tv, kv, vv);
                assert(nested_values_view(table@) =~= tv.push((kv, vv)));
            }
        },
    }
}

/// Puts a thread struct's field types in the converter's table of them
/// (see `assoc_insert`).
pub fn put_thread_types(table: &mut Vec<(String, Vec<(String, Type)>)>, key: String, value: Vec<(String, Type)>)
    ensures
        nested_types_view(final(table)@) == assoc_insert(
            nested_types_view(old(table)@),
            key@,
            type_table_view(value@),
        ),
{
    let ghost tv = nested_types_view(table@);
    let ghost (kv, vv) = (key@, type_table_view(value@));
    match find_key(table, key.as_str()) {
        Some(i) => {
            table.set(i, (key, value));
            proof {
                assert forall|j: int| 0 <= j < i implies #[trigger] tv[j].0 != kv by {
                    assert(old(table)@[j].0@ != kv);
                }
                lemma_assoc_insert_first(tv, kv, vv, i as int);
                assert(nested_types_view(table@) =~= tv.update(i as int, (kv, vv)));
            }
        },
        None => {
            table.push((key, value));
            proof {
                assert forall|j: int| 0 <= j < tv.len() implies #[trigger] tv[j].0 != kv by {
                    assert(old(table)@[j].0@ != kv);
                }
                lemma_assoc_insert_absent(tv, kv, vv);
                assert(nested_types_view(table@) =~= tv.push((kv, vv)));
            }
        },
    }
}

/// Puts `(key, value)` in a table of strings (see `assoc_insert`).
pub fn insert_pair(table: &mut Vec<(String, String)>, key: String, value: String)
    ensures
        pair_table_view(final(table)@) == assoc_insert(pair_table_view(old(table)@), key@, value@),
{
    let ghost tv = pair_table_view(table@);
    let mut i: usize = 0;
    proof {
        assert(tv.skip(0) =~= tv);
        assert(tv.take(0) + assoc_insert(tv.skip(0), key@, value@) =~= assoc_insert(tv, key@, value@));
    }
    while i < table.len()
        invariant
            i <= table@.len(),
            tv == pair_table_view(table@),
            tv == pair_table_view(old(table)@),
            forall|j: int| 0 <= j < i ==> #[trigger] tv[j].0 != key@,
            tv.take(i as int) + assoc_insert(tv.skip(i as int), key@, value@) == assoc_insert(tv, key@, value@),
        decreases table@.len() - i,
    {
        if str_eq(table[i].0.as_str(), key.as_str()) {
            let ghost kv = key@;
            let ghost vv = value@;
            table.set(i, (key, value));
            proof {
                assert(tv.skip(i as int)[0].0 == kv);
                assert(assoc_insert(tv.skip(i as int), kv, vv) == tv.skip(i as int).update(0, (kv, vv)));
                assert(pair_table_view(table@) =~= tv.take(i as int) + tv.skip(i as int).update(0, (kv, vv)));
            }
            return;
        }
        proof {
            let r = assoc_insert(tv.skip(i + 1), key@, value@);
            assert(tv.skip(i as int).drop_first() =~= tv.skip(i + 1));
            assert(assoc_insert(tv.skip(i as int), key@, value@) == seq![tv[i as int]] + r);
            assert(tv.take(i + 1) + r =~= tv.take(i as int) + (seq![tv[i as int]] + r));
        }
        i = i + 1;
    }
    let ghost kv = key@;
    let ghost vv = value@;
    table.push((key, value));
    proof {
        assert(tv.skip(tv.len() as int) =~= Seq::<(Seq<char>, Seq<char>)>::empty());
        assert(tv.take(tv.len() as int) =~= tv);
        assert(pair_table_view(table@) =~= tv.push((kv, vv)));
        assert(tv + seq![(kv, vv)] =~= tv.push((kv, vv)));
    }
}

pub open spec fn type_table_view(v: Seq<(String, Type)>) -> Seq<(Seq<char>, SpecType)> {
    v.map_values(|p: (String, Type)| (p.0@, p.1@))
}

pub open spec fn component_table_view(v: Seq<(String, ComponentType)>) -> Seq<
    (Seq<char>, ComponentType),
> {
    v.map_values(|p: (String, ComponentType)| (p.0@, p.1))
}

pub open spec fn keys_unique<V>(entries: Seq<(Seq<char>, V)>) -> bool {
    forall|i: int, j: int| 0 <= i < j < entries.len() ==> entries[i].0 != entries[j].0
}

// ---------------------------------------------------------------------------
// The converter
// ---------------------------------------------------------------------------

/// The state of a conversion: the type table (AADL data component names,
/// in lower case, to Rust types), the component types met so far by name,
/// the Behavior Annex converter, and the processors' tables.
pub struct AadlConverter {
    pub type_mappings: Vec<(String, Type)>,
    pub component_types: Vec<(String, ComponentType)>,
    pub annex_converter: AnnexConverter,
    pub cpu_scheduling_protocols: Vec<(String, String)>,
    pub cpu_name_to_id_mapping: Vec<(String, isize)>,
    pub data_comp_type: Vec<(String, String)>,
    /// The (subcomponent, port) pairs of the system that send to several receivers.
    pub process_broadcast_send: Vec<(String, String)>,
    /// For each broadcasting (subcomponent, port) of the system, its receivers.
    pub process_broadcast_receive: Vec<((String, String), Vec<(String, String)>)>,
    /// The system's subcomponents, by identifier, with the type each implements.
    pub system_subcomponent_identify_to_type: Vec<(String, String)>,
    /// For each broadcasting (process port, process) pair, the receiving threads' ports.
    pub thread_broadcast_receive: Vec<((String, String), Vec<(String, String)>)>,
    /// The processes' subcomponents, by identifier, with the type each implements.
    pub process_subcomponent_identify_to_type: Vec<(String, String)>,
    /// For each thread struct, the values its fields start with, by field name.
    pub thread_field_values: Vec<(String, Vec<(String, StruPropertyValue)>)>,
    /// For each thread struct, the types of its feature fields, by field name.
    pub thread_field_types: Vec<(String, Vec<(String, Type)>)>,
}

pub open spec fn value_table_view(v: Seq<(String, StruPropertyValue)>) -> Seq<(Seq<char>, SpecPropertyValue)> {
    v.map_values(|p: (String, StruPropertyValue)| (p.0@, p.1@))
}

pub open spec fn nested_values_view(v: Seq<(String, Vec<(String, StruPropertyValue)>)>) -> Seq<
    (Seq<char>, Seq<(Seq<char>, SpecPropertyValue)>),
> {
    v.map_values(|p: (String, Vec<(String, StruPropertyValue)>)| (p.0@, value_table_view(p.1@)))
}

pub open spec fn nested_types_view(v: Seq<(String, Vec<(String, Type)>)>) -> Seq<
    (Seq<char>, Seq<(Seq<char>, SpecType)>),
> {
    v.map_values(|p: (String, Vec<(String, Type)>)| (p.0@, type_table_view(p.1@)))
}

pub open spec fn pair_table_view(v: Seq<(String, String)>) -> Seq<(Seq<char>, Seq<char>)> {
    v.map_values(|p: (String, String)| (p.0@, p.1@))
}

pub open spec fn fanout_view(v: Seq<((String, String), Vec<(String, String)>)>) -> Seq<
    ((Seq<char>, Seq<char>), Seq<(Seq<char>, Seq<char>)>),
> {
    v.map_values(
        |e: ((String, String), Vec<(String, String)>)| ((e.0.0@, e.0.1@), pair_table_view(e.1@)),
    )
}

/// The type table a converter starts with: the AADL base types.
pub open spec fn base_type_mappings() -> Seq<(Seq<char>, SpecType)> {
    seq![
        ("boolean"@, SpecType::Named("bool"@)),
        ("integer"@, SpecType::Named("i32"@)),
        ("integer_8"@, SpecType::Named("i8"@)),
        ("integer_16"@, SpecType::Named("i16"@)),
        ("integer_32"@, SpecType::Named("i32"@)),
        ("integer_64"@, SpecType::Named("i64"@)),
        ("unsigned_8"@, SpecType::Named("u8"@)),
        ("unsigned_16"@, SpecType::Named("u16"@)),
        ("unsigned_32"@, SpecType::Named("u32"@)),
        ("unsigned_64"@, SpecType::Named("u64"@)),
        ("natural"@, SpecType::Named("usize"@)),
        ("float"@, SpecType::Named("f32"@)),
        ("float_32"@, SpecType::Named("f32"@)),
        ("float_64"@, SpecType::Named("f64"@)),
        ("character"@, SpecType::Named("char"@)),
        ("string"@, SpecType::Named("String"@)),
    ]
}

impl AadlConverter {
    pub open spec fn types(&self) -> Seq<(Seq<char>, SpecType)> {
        type_table_view(self.type_mappings@)
    }

    pub open spec fn components(&self) -> Seq<(Seq<char>, ComponentType)> {
        component_table_view(self.component_types@)
    }

    pub open spec fn broadcast_senders(&self) -> Seq<(Seq<char>, Seq<char>)> {
        pair_table_view(self.process_broadcast_send@)
    }

    pub open spec fn broadcast_receivers(&self) -> Seq<((Seq<char>, Seq<char>), Seq<(Seq<char>, Seq<char>)>)> {
        fanout_view(self.process_broadcast_receive@)
    }

    pub open spec fn system_types(&self) -> Seq<(Seq<char>, Seq<char>)> {
        pair_table_view(self.system_subcomponent_identify_to_type@)
    }

    pub open spec fn thread_receivers(&self) -> Seq<((Seq<char>, Seq<char>), Seq<(Seq<char>, Seq<char>)>)> {
        fanout_view(self.thread_broadcast_receive@)
    }

    pub open spec fn process_types(&self) -> Seq<(Seq<char>, Seq<char>)> {
        pair_table_view(self.process_subcomponent_identify_to_type@)
    }

    pub open spec fn thread_values(&self) -> Seq<(Seq<char>, Seq<(Seq<char>, SpecPropertyValue)>)> {
        nested_values_view(self.thread_field_values@)
    }

    pub open spec fn thread_types(&self) -> Seq<(Seq<char>, Seq<(Seq<char>, SpecType)>)> {
        nested_types_view(self.thread_field_types@)
    }
}

fn push_named(v: &mut Vec<(String, Type)>, key: &str, ty: &str)
    ensures
        type_table_view(final(v)@) == type_table_view(old(v)@).push((key@, SpecType::Named(ty@))),
{
    let ghost before = type_table_view(v@);
    v.push((key.to_string(), Type::Named(ty.to_string())));
    proof {
        assert(type_table_view(v@) =~= before.push((key@, SpecType::Named(ty@))));
    }
}

impl Default for AadlConverter {
    /// A converter whose type table holds the AADL base types and whose
    /// other tables are empty.
    fn default() -> (res: Self)
        ensures
            res.types() == base_type_mappings(),
            res.component_types@.len() == 0,
            res.annex_converter.info().len() == 0,
            res.annex_converter.conditioned().len() == 0,
            res.cpu_scheduling_protocols@.len() == 0,
            res.cpu_name_to_id_mapping@.len() == 0,
            res.data_comp_type@.len() == 0,
            res.process_broadcast_send@.len() == 0,
            res.process_broadcast_receive@.len() == 0,
            res.system_subcomponent_identify_to_type@.len() == 0,
            res.thread_broadcast_receive@.len() == 0,
            res.process_subcomponent_identify_to_type@.len() == 0,
            res.thread_field_values@.len() == 0,
            res.thread_field_types@.len() == 0,
    {
        let mut type_mappings: Vec<(String, Type)> = Vec::new();
        proof {
            assert(type_table_view(type_mappings@) =~= Seq::<(Seq<char>, SpecType)>::empty());
        }
        push_named(&mut type_mappings, "boolean", "bool");
        push_named(&mut type_mappings, "integer", "i32");
        push_named(&mut type_mappings, "integer_8", "i8");
        push_named(&mut type_mappings, "integer_16", "i16");
        push_named(&mut type_mappings, "integer_32", "i32");
        push_named(&mut type_mappings, "integer_64", "i64");
        push_named(&mut type_mappings, "unsigned_8", "u8");
        push_named(&mut type_mappings, "unsigned_16", "u16");
        push_named(&mut type_mappings, "unsigned_32", "u32");
        push_named(&mut type_mappings, "unsigned_64", "u64");
        push_named(&mut type_mappings, "natural", "usize");
        push_named(&mut type_mappings, "float", "f32");
        push_named(&mut type_mappings, "float_32", "f32");
        push_named(&mut type_mappings, "float_64", "f64");
        push_named(&mut type_mappings, "character", "char");
        push_named(&mut type_mappings, "string", "String");
        proof {
            assert(type_table_view(type_mappings@) =~= base_type_mappings());
        }
        AadlConverter {
            type_mappings,
            component_types: Vec::new(),
            annex_converter: AnnexConverter::default(),
            cpu_scheduling_protocols: Vec::new(),
            cpu_name_to_id_mapping: Vec::new(),
            data_comp_type: Vec::new(),
            process_broadcast_send: Vec::new(),
            process_broadcast_receive: Vec::new(),
            system_subcomponent_identify_to_type: Vec::new(),
            thread_broadcast_receive: Vec::new(),
            process_subcomponent_identify_to_type: Vec::new(),
            thread_field_values: Vec::new(),
            thread_field_types: Vec::new(),
        }
    }
}

// ---------------------------------------------------------------------------
// Lookups
// ---------------------------------------------------------------------------

pub fn lookup_type<'a>(table: &'a Vec<(String, Type)>, key: &str) -> (res: Option<&'a Type>)
    ensures
        match assoc_first(type_table_view(table@), key@) {
            Some(t) => res matches Some(r) && r@ == t,
            None => res is None,
        },
{
    let ghost tv = type_table_view(table@);
    let mut i: usize = 0;
    proof {
        assert(tv.skip(0) =~= tv);
    }
    while i < table.len()
        invariant
            i <= table@.len(),
            tv == type_table_view(table@),
            assoc_first(tv.skip(i as int), key@) == assoc_first(tv, key@),
        decreases table@.len() - i,
    {
        proof {
            assert(tv.skip(i as int).drop_first() =~= tv.skip(i + 1));
        }
        if str_eq(table[i].0.as_str(), key) {
            return Some(&table[i].1);
        }
        i = i + 1;
    }
    None
}

fn lookup_component<'a>(table: &'a Vec<(String, ComponentType)>, key: &str) -> (res: Option<
    &'a ComponentType,
>)
    ensures
        match assoc_first(component_table_view(table@), key@) {
            Some(c) => res == Some(&c),
            None => res is None,
        },
{
    let ghost tv = component_table_view(table@);
    let mut i: usize = 0;
    proof {
        assert(tv.skip(0) =~= tv);
    }
    while i < table.len()
        invariant
            i <= table@.len(),
            tv == component_table_view(table@),
            assoc_first(tv.skip(i as int), key@) == assoc_first(tv, key@),
        decreases table@.len() - i,
    {
        proof {
            assert(tv.skip(i as int).drop_first() =~= tv.skip(i + 1));
        }
        if str_eq(table[i].0.as_str(), key) {
            return Some(&table[i].1);
        }
        i = i + 1;
    }
    None
}

// ---------------------------------------------------------------------------
// Types of ports
// ---------------------------------------------------------------------------

/// The Rust type of a port's data classifier: a data component type is
/// looked up in the type table by its name in lower case, and stands for
/// itself when it is not there; anything else is `()`.
pub open spec fn spec_classifier_to_type(
    types: Seq<(Seq<char>, SpecType)>,
    c: PortDataTypeReference,
) -> SpecType {
    match c {
        PortDataTypeReference::Classifier(UniqueComponentClassifierReference::Type(r)) => {
            match assoc_first(types, lowercase(r.implementation_name.type_identifier@)) {
                Some(t) => t,
                None => SpecType::Named(r.implementation_name.type_identifier@),
            }
        },
        _ => SpecType::Named("()"@),
    }
}

/// The type of a subprogram parameter given as a port: its data type, or
/// `i32` for an out port and `(error)` otherwise when it has none; `()` for
/// an event port.
pub open spec fn spec_paramport_type(types: Seq<(Seq<char>, SpecType)>, port: PortSpec) -> SpecType {
    match port.port_type {
        PortType::Data { classifier } | PortType::EventData { classifier } => match classifier {
            Some(c) => spec_classifier_to_type(types, c),
            None => match port.direction {
                PortDirection::Out => SpecType::Named("i32"@),
                _ => SpecType::Named("(error)"@),
            },
        },
        PortType::Event => SpecType::Named("()"@),
    }
}


// ---------------------------------------------------------------------------
// Default values
// ---------------------------------------------------------------------------

pub open spec fn is_int_name(n: Seq<char>) -> bool {
    ||| n == "i8"@
    ||| n == "i16"@
    ||| n == "i32"@
    ||| n == "i64"@
    ||| n == "i128"@
    ||| n == "isize"@
    ||| n == "u8"@
    ||| n == "u16"@
    ||| n == "u32"@
    ||| n == "u64"@
    ||| n == "u128"@
    ||| n == "usize"@
}

/// The default value for a type, following the type table at most `fuel`
/// times: `false`, `0`, `0.0`, `'\0'` or `""` for a primitive type; for
/// another name, the default of the type the table maps it to (in lower
/// case), or, where the table has no entry, `false` for a name holding
/// `bool` and `0` otherwise; `0` for any other type.  Nothing where the
/// table is followed more than `fuel` times.
pub open spec fn spec_default_value(types: Seq<(Seq<char>, SpecType)>, t: SpecType, fuel: nat) -> Option<
    SpecExpr,
>
    decreases fuel,
{
    match t {
        SpecType::Named(n) => if n == "bool"@ {
            Some(SpecExpr::Literal(SpecLiteral::Bool(false)))
        } else if is_int_name(n) {
            Some(SpecExpr::Literal(SpecLiteral::Int(0)))
        } else if n == "f32"@ || n == "f64"@ {
            Some(SpecExpr::Literal(SpecLiteral::Float("0.0"@)))
        } else if n == "char"@ {
            Some(SpecExpr::Literal(SpecLiteral::Char('\0')))
        } else if n == "String"@ {
            Some(SpecExpr::Literal(SpecLiteral::Str(""@)))
        } else {
            match assoc_first(types, lowercase(n)) {
                Some(m) => if fuel == 0 {
                    None
                } else {
                    spec_default_value(types, m, (fuel - 1) as nat)
                },
                None => if spec_contains(lowercase(n), "bool"@) {
                    Some(SpecExpr::Literal(SpecLiteral::Bool(false)))
                } else {
                    Some(SpecExpr::Literal(SpecLiteral::Int(0)))
                },
            }
        },
        _ => Some(SpecExpr::Literal(SpecLiteral::Int(0))),
    }
}

/// Following the type table from any type ends: the table has no cycle
/// that a default value would run around.
pub open spec fn defaults_defined(types: Seq<(Seq<char>, SpecType)>) -> bool {
    forall|t: SpecType| #[trigger] spec_default_value(types, t, types.len() + 1) is Some
}

/// The default value for a type (see `spec_default_value`), where following
/// the type table ends.
pub open spec fn spec_default_of(types: Seq<(Seq<char>, SpecType)>, t: SpecType) -> SpecExpr {
    spec_default_value(types, t, types.len() + 1)->0
}

proof fn lemma_base_entry(k: Seq<char>)
    ensures
        assoc_first(base_type_mappings(), k) matches Some(SpecType::Named(p)) ==> (p == "bool"@
            || is_int_name(p) || p == "f32"@ || p == "f64"@ || p == "char"@ || p == "String"@),
        assoc_first(base_type_mappings(), k) matches Some(m) ==> m is Named,
{
    reveal_with_fuel(assoc_first, 17);
}

/// The table a converter starts with leads every type to a default value.
pub proof fn lemma_base_defaults_defined()
    ensures
        defaults_defined(base_type_mappings()),
{
    let types = base_type_mappings();
    assert(types.len() == 16);
    assert forall|t: SpecType| #[trigger] spec_default_value(types, t, types.len() + 1) is Some by {
        if let SpecType::Named(n) = t {
            lemma_base_entry(lowercase(n));
            if let Some(m) = assoc_first(types, lowercase(n)) {
                assert(spec_default_value(types, m, 16) is Some);
            }
        }
    }
}

// ---------------------------------------------------------------------------
// Properties
// ---------------------------------------------------------------------------

/// The text `f64`'s `Display` writes for the negation of the number it
/// wrote as `t`: a leading `-` goes or comes; `NaN` stays.
pub open spec fn spec_negated_display(t: Seq<char>) -> Seq<char> {
    if t == "NaN"@ {
        t
    } else {
        match spec_strip_prefix(t, "-"@) {
            Some(rest) => rest,
            None => "-"@ + t,
        }
    }
}

/// An integer term whose value the converter can negate where its sign asks.
pub open spec fn integer_term_ok(t: SignedIntergerOrConstant) -> bool {
    match t {
        SignedIntergerOrConstant::Real(si) => !(si.sign == Some(Sign::Minus) && si.value
            == i64::MIN),
        _ => true,
    }
}

pub open spec fn expression_ok(e: PropertyExpression) -> bool {
    match e {
        PropertyExpression::Integer(t) => integer_term_ok(t),
        _ => true,
    }
}

pub open spec fn value_ok(v: PropertyValue) -> bool {
    match v {
        PropertyValue::Single(e) => expression_ok(e),
        _ => true,
    }
}

pub open spec fn property_ok(p: Property) -> bool {
    match p {
        Property::BasicProperty(bp) => value_ok(bp.value),
        _ => true,
    }
}

/// Every integer property of the clause can be negated where its sign asks.
pub open spec fn clause_ok(c: PropertyClause) -> bool {
    match c {
        PropertyClause::Properties(props) => forall|i: int|
            0 <= i < props@.len() ==> #[trigger] property_ok(props@[i]),
        _ => true,
    }
}

/// The value of a property expression: literals of the basic kinds (a
/// real keeping the text `f64`'s `Display` writes, negated where the sign
/// asks), and integer ranges whose bounds parse as `u64` (with the unit of
/// the lower bound); nothing for constants and the other kinds.
pub open spec fn spec_parse_property_expression(e: PropertyExpression) -> Option<SpecPropertyValue> {
    match e {
        PropertyExpression::Boolean(BooleanTerm::Literal(b)) => Some(SpecPropertyValue::Boolean(b)),
        PropertyExpression::Real(SignedRealOrConstant::Real(sr)) => Some(
            SpecPropertyValue::Float(
                if sr.sign == Some(Sign::Minus) {
                    spec_negated_display(sr.value@)
                } else {
                    sr.value@
                },
            ),
        ),
        PropertyExpression::Integer(SignedIntergerOrConstant::Real(si)) => Some(
            SpecPropertyValue::Integer(
                if si.sign == Some(Sign::Minus) {
                    -si.value
                } else {
                    si.value as int
                },
            ),
        ),
        PropertyExpression::String(StringTerm::Literal(s)) => Some(SpecPropertyValue::String(s@)),
        PropertyExpression::IntegerRange(r) => match (
            spec_parse_u64(r.lower.value@),
            spec_parse_u64(r.upper.value@),
        ) {
            (Some(a), Some(b)) => Some(
                SpecPropertyValue::Range(a as nat, b as nat, opt_string_view(r.lower.unit)),
            ),
            _ => None,
        },
        _ => None,
    }
}

pub open spec fn spec_parse_property_value(v: PropertyValue) -> Option<SpecPropertyValue> {
    match v {
        PropertyValue::Single(e) => spec_parse_property_expression(e),
        _ => None,
    }
}

/// A basic property association with a value the converter reads, with
/// its name and a comment naming it.
pub open spec fn spec_convert_property(p: Property) -> Option<SpecStruProperty> {
    match p {
        Property::BasicProperty(bp) => match spec_parse_property_value(bp.value) {
            Some(v) => Some(
                SpecStruProperty {
                    name: bp.identifier.name@,
                    value: v,
                    docs: seq!["// AADL属性: "@ + bp.identifier.name@],
                },
            ),
            None => None,
        },
        _ => None,
    }
}

pub open spec fn spec_convert_property_list(props: Seq<Property>) -> Seq<SpecStruProperty>
    decreases props.len(),
{
    if props.len() == 0 {
        Seq::empty()
    } else {
        spec_convert_property_list(props.drop_last()) + match spec_convert_property(props.last()) {
            Some(p) => seq![p],
            None => Seq::empty(),
        }
    }
}

pub open spec fn spec_convert_clause(c: PropertyClause) -> Seq<SpecStruProperty> {
    match c {
        PropertyClause::Properties(props) => spec_convert_property_list(props@),
        _ => Seq::empty(),
    }
}

pub open spec fn component_properties(comp: ComponentRef) -> PropertyClause {
    match comp {
        ComponentRef::Type(t) => t.properties,
        ComponentRef::Impl(i) => i.properties,
    }
}

/// The Rust type name for a property value of each kind.
pub open spec fn spec_type_for_property(v: SpecPropertyValue) -> Seq<char> {
    match v {
        SpecPropertyValue::Boolean(_) => "bool"@,
        SpecPropertyValue::Integer(_) => "u64"@,
        SpecPropertyValue::Float(_) => "f64"@,
        SpecPropertyValue::String(_) => "String"@,
        SpecPropertyValue::Duration(_, _) => "u64"@,
        SpecPropertyValue::Range(_, _, _) => "(u64, u64)"@,
        SpecPropertyValue::NoValue => "None"@,
        SpecPropertyValue::Custom(s) => s,
    }
}

/// The name `Debug` writes for a component category.
pub open spec fn spec_category_name(c: ComponentCategory) -> Seq<char> {
    match c {
        ComponentCategory::Abstract => "Abstract"@,
        ComponentCategory::Data => "Data"@,
        ComponentCategory::Subprogram => "Subprogram"@,
        ComponentCategory::SubprogramGroup => "SubprogramGroup"@,
        ComponentCategory::Thread => "Thread"@,
        ComponentCategory::ThreadGroup => "ThreadGroup"@,
        ComponentCategory::Process => "Process"@,
        ComponentCategory::Memory => "Memory"@,
        ComponentCategory::Processor => "Processor"@,
        ComponentCategory::Bus => "Bus"@,
        ComponentCategory::Device => "Device"@,
        ComponentCategory::VirtualProcessor => "VirtualProcessor"@,
        ComponentCategory::VirtualBus => "VirtualBus"@,
        ComponentCategory::System => "System"@,
    }
}

fn category_name(c: &ComponentCategory) -> (res: &'static str)
    ensures
        res@ == spec_category_name(*c),
{
    match c {
        ComponentCategory::Abstract => "Abstract",
        ComponentCategory::Data => "Data",
        ComponentCategory::Subprogram => "Subprogram",
        ComponentCategory::SubprogramGroup => "SubprogramGroup",
        ComponentCategory::Thread => "Thread",
        ComponentCategory::ThreadGroup => "ThreadGroup",
        ComponentCategory::Process => "Process",
        ComponentCategory::Memory => "Memory",
        ComponentCategory::Processor => "Processor",
        ComponentCategory::Bus => "Bus",
        ComponentCategory::Device => "Device",
        ComponentCategory::VirtualProcessor => "VirtualProcessor",
        ComponentCategory::VirtualBus => "VirtualBus",
        ComponentCategory::System => "System",
    }
}

proof fn lemma_parse_u64_nonneg(t: Seq<char>)
    ensures
        spec_parse_u64(t) matches Some(v) ==> v >= 0,
{
    let body = if t.len() > 0 && t[0] == '+' {
        t.drop_first()
    } else {
        t
    };
    if body.len() > 0 && all_digits(body) {
        lemma_digits_value_nonneg(body);
    }
}

fn negated_display(t: &str) -> (res: String)
    ensures
        res@ == spec_negated_display(t@),
{
    if str_eq(t, "NaN") {
        t.to_string()
    } else {
        match strip_prefix_owned(t, "-") {
            Some(rest) => rest,
            None => concat("-", t),
        }
    }
}

impl AadlConverter {
    /// The type table's entry for `key`.
    pub fn lookup_mapping(&self, key: &str) -> (res: Option<&Type>)
        ensures
            match assoc_first(self.types(), key@) {
                Some(t) => res matches Some(r) && r@ == t,
                None => res is None,
            },
    {
        lookup_type(&self.type_mappings, key)
    }

    /// A default value for a type: see `spec_default_value`.
    pub fn generate_default_value_for_type(&self, port_type: &Type) -> (res: Expr)
        requires
            spec_default_value(self.types(), port_type@, self.types().len() + 1) is Some,
        ensures
            res@ == spec_default_of(self.types(), port_type@),
    {
        let ghost types = self.types();
        let ghost target = spec_default_of(types, port_type@);
        let ghost mut fuel: nat = types.len() + 1;
        let mut cur: Type = port_type.clone();
        loop
            invariant
                types == self.types(),
                target == spec_default_of(self.types(), port_type@),
                spec_default_value(types, cur@, fuel) == Some(target),
            decreases fuel,
        {
            match &cur {
                Type::Named(n) => {
                    let name = n.as_str();
                    if str_eq(name, "bool") {
                        return Expr::Literal(Literal::Bool(false));
                    } else if str_eq(name, "i8") || str_eq(name, "i16") || str_eq(name, "i32")
                        || str_eq(name, "i64") || str_eq(name, "i128") || str_eq(name, "isize")
                        || str_eq(name, "u8") || str_eq(name, "u16") || str_eq(name, "u32")
                        || str_eq(name, "u64") || str_eq(name, "u128") || str_eq(name, "usize") {
                        return Expr::Literal(Literal::Int(0));
                    } else if str_eq(name, "f32") || str_eq(name, "f64") {
                        return Expr::Literal(Literal::Float("0.0".to_string()));
                    } else if str_eq(name, "char") {
                        return Expr::Literal(Literal::Char('\0'));
                    } else if str_eq(name, "String") {
                        return Expr::Literal(Literal::Str("".to_string()));
                    } else {
                        let lower = to_lower(name);
                        match self.lookup_mapping(lower.as_str()) {
                            Some(mapped) => {
                                let next = mapped.clone();
                                proof {
                                    fuel = (fuel - 1) as nat;
                                }
                                cur = next;
                            },
                            None => {
                                if str_contains(lower.as_str(), "bool") {
                                    return Expr::Literal(Literal::Bool(false));
                                } else {
                                    return Expr::Literal(Literal::Int(0));
                                }
                            },
                        }
                    }
                },
                _ => {
                    return Expr::Literal(Literal::Int(0));
                },
            }
        }
    }

    /// The Rust type name for a property value: `bool`, `u64`, `f64`,
    /// `String`, `u64`, `(u64, u64)`, `None`, or a custom type's own name.
    pub fn type_for_property(&self, value: &StruPropertyValue) -> (res: String)
        ensures
            res@ == spec_type_for_property(value@),
    {
        match value {
            StruPropertyValue::Boolean(_) => "bool".to_string(),
            StruPropertyValue::Integer(_) => "u64".to_string(),
            StruPropertyValue::Float(_) => "f64".to_string(),
            StruPropertyValue::String(_) => "String".to_string(),
            StruPropertyValue::Duration(_, _) => "u64".to_string(),
            StruPropertyValue::Range(_, _, _) => "(u64, u64)".to_string(),
            StruPropertyValue::NoValue => "None".to_string(),
            StruPropertyValue::Custom(s) => s.clone(),
        }
    }

    /// The component type that an implementation implements, found by the
    /// type's name as written.
    pub fn get_component_type(&self, impl_: &ComponentImplementation) -> (res: Option<
        &ComponentType,
    >)
        ensures
            match assoc_first(self.components(), impl_.name.type_identifier@) {
                Some(c) => res == Some(&c),
                None => res is None,
            },
    {
        lookup_component(&self.component_types, impl_.name.type_identifier.as_str())
    }

    /// The Rust type of a port's data classifier.
    pub fn classifier_to_type(&self, classifier: &PortDataTypeReference) -> (res: Type)
        ensures
            res@ == spec_classifier_to_type(self.types(), *classifier),
    {
        match classifier {
            PortDataTypeReference::Classifier(UniqueComponentClassifierReference::Type(type_ref)) => {
                let key = to_lower(type_ref.implementation_name.type_identifier.as_str());
                match lookup_type(&self.type_mappings, key.as_str()) {
                    Some(t) => t.clone(),
                    None => Type::Named(type_ref.implementation_name.type_identifier.clone()),
                }
            },
            _ => Type::Named("()".to_string()),
        }
    }

    /// The Rust type of a subprogram parameter written as a port.
    pub fn convert_paramport_type(&self, port: &PortSpec) -> (res: Type)
        ensures
            res@ == spec_paramport_type(self.types(), *port),
    {
        match &port.port_type {
            PortType::Data { classifier } | PortType::EventData { classifier } => match classifier {
                Some(c) => self.classifier_to_type(c),
                None => match port.direction {
                    PortDirection::Out => Type::Named("i32".to_string()),
                    _ => Type::Named("(error)".to_string()),
                },
            },
            PortType::Event => Type::Named("()".to_string()),
        }
    }

    /// The value of a property expression (see `spec_parse_property_expression`).
    pub fn parse_property_expression(&self, expr: &PropertyExpression) -> (res: Option<
        StruPropertyValue,
    >)
        requires
            expression_ok(*expr),
        ensures
            match spec_parse_property_expression(*expr) {
                Some(v) => res matches Some(r) && r@ == v,
                None => res is None,
            },
    {
        match expr {
            PropertyExpression::Boolean(t) => self.parse_boolean_term(t),
            PropertyExpression::Real(t) => self.parse_real_term(t),
            PropertyExpression::Integer(t) => self.parse_integer_term(t),
            PropertyExpression::String(t) => self.parse_string_term(t),
            PropertyExpression::IntegerRange(r) => {
                let lower = parse_u64(r.lower.value.as_str());
                let upper = parse_u64(r.upper.value.as_str());
                proof {
                    lemma_parse_u64_nonneg(r.lower.value@);
                    lemma_parse_u64_nonneg(r.upper.value@);
                }
                match (lower, upper) {
                    (Some(a), Some(b)) => {
                        let unit = match &r.lower.unit {
                            Some(u) => Some(u.clone()),
                            None => None,
                        };
                        Some(StruPropertyValue::Range(a, b, unit))
                    },
                    _ => None,
                }
            },
            _ => None,
        }
    }

    pub fn parse_boolean_term(&self, term: &BooleanTerm) -> (res: Option<StruPropertyValue>)
        ensures
            match term {
                BooleanTerm::Literal(b) => res == Some(StruPropertyValue::Boolean(*b)),
                _ => res is None,
            },
    {
        match term {
            BooleanTerm::Literal(b) => Some(StruPropertyValue::Boolean(*b)),
            BooleanTerm::Constant(_) => None,
        }
    }

    pub fn parse_real_term(&self, term: &SignedRealOrConstant) -> (res: Option<StruPropertyValue>)
        ensures
            match term {
                SignedRealOrConstant::Real(sr) => res matches Some(r) && r@ == SpecPropertyValue::Float(
                    if sr.sign == Some(Sign::Minus) {
                        spec_negated_display(sr.value@)
                    } else {
                        sr.value@
                    },
                ),
                _ => res is None,
            },
    {
        match term {
            SignedRealOrConstant::Real(sr) => {
                let text = match sr.sign {
                    Some(Sign::Minus) => negated_display(sr.value.as_str()),
                    _ => sr.value.clone(),
                };
                Some(StruPropertyValue::Float(text))
            },
            SignedRealOrConstant::Constant { .. } => None,
        }
    }

    pub fn parse_integer_term(&self, term: &SignedIntergerOrConstant) -> (res: Option<
        StruPropertyValue,
    >)
        requires
            integer_term_ok(*term),
        ensures
            match term {
                SignedIntergerOrConstant::Real(si) => res matches Some(r) && r@
                    == SpecPropertyValue::Integer(
                    if si.sign == Some(Sign::Minus) {
                        -si.value
                    } else {
                        si.value as int
                    },
                ),
                _ => res is None,
            },
    {
        match term {
            SignedIntergerOrConstant::Real(si) => {
                let v = match si.sign {
                    Some(Sign::Minus) => -si.value,
                    _ => si.value,
                };
                Some(StruPropertyValue::Integer(v))
            },
            SignedIntergerOrConstant::Constant { .. } => None,
        }
    }

    pub fn parse_string_term(&self, term: &StringTerm) -> (res: Option<StruPropertyValue>)
        ensures
            match term {
                StringTerm::Literal(s) => res matches Some(r) && r@ == SpecPropertyValue::String(s@),
                _ => res is None,
            },
    {
        match term {
            StringTerm::Literal(s) => Some(StruPropertyValue::String(s.clone())),
            StringTerm::Constant(_) => None,
        }
    }

    /// The value of a property: that of a single expression; nothing for a
    /// list.
    pub fn parse_property_value(&self, value: &PropertyValue) -> (res: Option<StruPropertyValue>)
        requires
            value_ok(*value),
        ensures
            match spec_parse_property_value(*value) {
                Some(v) => res matches Some(r) && r@ == v,
                None => res is None,
            },
    {
        match value {
            PropertyValue::Single(expr) => self.parse_property_expression(expr),
            _ => None,
        }
    }

    /// A basic property association with a value the converter reads.
    pub fn convert_single_property(&self, prop: &Property) -> (res: Option<StruProperty>)
        requires
            property_ok(*prop),
        ensures
            match spec_convert_property(*prop) {
                Some(p) => res matches Some(r) && r@ == p,
                None => res is None,
            },
    {
        match prop {
            Property::BasicProperty(bp) => {
                let value = match self.parse_property_value(&bp.value) {
                    Some(v) => v,
                    None => {
                        return None;
                    },
                };
                let mut docs: Vec<String> = Vec::new();
                docs.push(concat("// AADL属性: ", bp.identifier.name.as_str()));
                let res = StruProperty { name: bp.identifier.name.clone(), value, docs };
                proof {
                    assert(strings_view(res.docs@) =~= seq![
                        "// AADL属性: "@ + bp.identifier.name@,
                    ]) by {
                        assert(res.docs@.drop_last() =~= Seq::<String>::empty());
                        assert(strings_view(Seq::<String>::empty()) =~= Seq::<Seq<char>>::empty());
                    }
                }
                Some(res)
            },
            _ => None,
        }
    }

    /// The properties of a component type or implementation that the
    /// converter reads, in the order of its property clause.
    pub fn convert_properties(&self, comp: ComponentRef<'_>) -> (res: Vec<StruProperty>)
        requires
            clause_ok(component_properties(comp)),
        ensures
            props_view(res@) == spec_convert_clause(component_properties(comp)),
    {
        let mut result: Vec<StruProperty> = Vec::new();
        let properties = match comp {
            ComponentRef::Type(component_type) => &component_type.properties,
            ComponentRef::Impl(component_impl) => &component_impl.properties,
        };
        proof {
            assert(props_view(result@) =~= Seq::<SpecStruProperty>::empty());
        }
        if let PropertyClause::Properties(props) = properties {
            let mut i: usize = 0;
            proof {
                assert(props@.take(0) =~= Seq::<Property>::empty());
            }
            while i < props.len()
                invariant
                    i <= props@.len(),
                    forall|k: int| 0 <= k < props@.len() ==> #[trigger] property_ok(props@[k]),
                    props_view(result@) == spec_convert_property_list(props@.take(i as int)),
                decreases props@.len() - i,
            {
                proof {
                    assert(props@.take(i + 1).drop_last() =~= props@.take(i as int));
                    assert(props@.take(i + 1).last() == props@[i as int]);
                    assert(property_ok(props@[i as int]));
                }
                let ghost before = props_view(result@);
                match self.convert_single_property(&props[i]) {
                    Some(converted) => {
                        let ghost cv = converted@;
                        result.push(converted);
                        proof {
                            assert(props_view(result@) =~= before.push(cv));
                        }
                    },
                    None => {},
                }
                i = i + 1;
            }
            proof {
                assert(props@.take(props@.len() as int) =~= props@);
            }
        }
        result
    }

    /// `// AADL <category>: <identifier in lower case>` for a component type.
    pub fn create_component_type_docs(&self, comp: &ComponentType) -> (res: Vec<String>)
        ensures
            strings_view(res@) == seq![
                "// AADL "@ + spec_category_name(comp.category) + ": "@ + lowercase(
                    comp.identifier@,
                ),
            ],
    {
        let name = to_lower(comp.identifier.as_str());
        let mut line = concat3("// AADL ", category_name(&comp.category), ": ");
        line.append(name.as_str());
        let mut docs: Vec<String> = Vec::new();
        docs.push(line);
        proof {
            assert(docs@.drop_last() =~= Seq::<String>::empty());
            assert(strings_view(Seq::<String>::empty()) =~= Seq::<Seq<char>>::empty());
        }
        docs
    }

    /// `// AADL <category>: <type name in lower case>` for a component
    /// implementation.
    pub fn create_component_impl_docs(&self, impl_: &ComponentImplementation) -> (res: Vec<String>)
        ensures
            strings_view(res@) == seq![
                "// AADL "@ + spec_category_name(impl_.category) + ": "@ + lowercase(
                    impl_.name.type_identifier@,
                ),
            ],
    {
        let name = to_lower(impl_.name.type_identifier.as_str());
        let mut line = concat3("// AADL ", category_name(&impl_.category), ": ");
        line.append(name.as_str());
        let mut docs: Vec<String> = Vec::new();
        docs.push(line);
        proof {
            assert(docs@.drop_last() =~= Seq::<String>::empty());
            assert(strings_view(Seq::<String>::empty()) =~= Seq::<Seq<char>>::empty());
        }
        docs
    }
}


/// The first port of the features whose identifier, in lower case, is that
/// of `pn`.
pub open spec fn spec_port_in_features(fs: Seq<Feature>, pn: Seq<char>) -> Option<PortSpec>
    decreases fs.len(),
{
    if fs.len() == 0 {
        None
    } else {
        match fs[0] {
            Feature::Port(p) => if lowercase(p.identifier@) == lowercase(pn) {
                Some(p)
            } else {
                spec_port_in_features(fs.drop_first(), pn)
            },
            _ => spec_port_in_features(fs.drop_first(), pn),
        }
    }
}

/// The first port of the features whose identifier, in lower case, is that of `pn`.
pub fn port_in_features<'a>(fs: &'a Vec<Feature>, pn: &str) -> (res: Option<&'a PortSpec>)
    ensures
        match spec_port_in_features(fs@, pn@) {
            Some(p) => res == Some(&p),
            None => res is None,
        },
{
    let target = to_lower(pn);
    let mut i: usize = 0;
    proof {
        assert(fs@.skip(0) =~= fs@);
    }
    while i < fs.len()
        invariant
            i <= fs@.len(),
            target@ == lowercase(pn@),
            spec_port_in_features(fs@.skip(i as int), pn@) == spec_port_in_features(fs@, pn@),
        decreases fs@.len() - i,
    {
        proof {
            assert(fs@.skip(i as int).drop_first() =~= fs@.skip(i + 1));
            assert(fs@.skip(i as int)[0] == fs@[i as int]);
        }
        if let Feature::Port(p) = &fs[i] {
            let id = to_lower(p.identifier.as_str());
            if str_eq(id.as_str(), target.as_str()) {
                return Some(p);
            }
        }
        i = i + 1;
    }
    None
}

// ---------------------------------------------------------------------------
// Channel types of ports
// ---------------------------------------------------------------------------

/// The broadcasting entry `e` of the system sends from port `pid` of a
/// subcomponent implementing `comp`.
pub open spec fn send_match(
    sys: Seq<(Seq<char>, Seq<char>)>,
    e: ((Seq<char>, Seq<char>), Seq<(Seq<char>, Seq<char>)>),
    pid: Seq<char>,
    comp: Seq<char>,
) -> bool {
    e.0.1 == pid && assoc_first(sys, e.0.0) == Some(comp)
}

/// Some receiver in `subs` is port `pid` of a subcomponent that `types`
/// says implements `comp`.
pub open spec fn receives_in(
    types: Seq<(Seq<char>, Seq<char>)>,
    subs: Seq<(Seq<char>, Seq<char>)>,
    pid: Seq<char>,
    comp: Seq<char>,
) -> bool {
    exists|k: int| 0 <= k < subs.len() && #[trigger] subs[k].1 == pid && assoc_first(types, subs[k].0) == Some(comp)
}

pub open spec fn any_broadcast_send(c: AadlConverter, pid: Seq<char>, comp: Seq<char>) -> bool {
    exists|i: int|
        0 <= i < c.broadcast_receivers().len() && send_match(
            c.system_types(),
            #[trigger] c.broadcast_receivers()[i],
            pid,
            comp,
        )
}

pub open spec fn any_broadcast_receive(c: AadlConverter, pid: Seq<char>, comp: Seq<char>) -> bool {
    ||| exists|i: int|
        0 <= i < c.broadcast_receivers().len() && !send_match(
            c.system_types(),
            #[trigger] c.broadcast_receivers()[i],
            pid,
            comp,
        ) && receives_in(c.system_types(), c.broadcast_receivers()[i].1, pid, comp)
    ||| exists|i: int|
        0 <= i < c.thread_receivers().len() && receives_in(
            c.process_types(),
            #[trigger] c.thread_receivers()[i].1,
            pid,
            comp,
        )
}

/// Converting the port would stop: a broadcast sender that is not an out
/// port, or a broadcast receiver that is not an in port.
pub open spec fn port_type_fails(c: AadlConverter, port: PortSpec, comp: Seq<char>) -> bool {
    comp.len() > 0 && ((any_broadcast_send(c, port.identifier@, comp) && port.direction
        != PortDirection::Out) || (any_broadcast_receive(c, port.identifier@, comp)
        && port.direction != PortDirection::In))
}

/// The name `Debug` writes for a port direction.
pub open spec fn spec_direction_name(d: PortDirection) -> Seq<char> {
    match d {
        PortDirection::In => "In"@,
        PortDirection::Out => "Out"@,
        PortDirection::InOut => "InOut"@,
    }
}

pub fn direction_name(d: PortDirection) -> (res: &'static str)
    ensures
        res@ == spec_direction_name(d),
{
    match d {
        PortDirection::In => "In",
        PortDirection::Out => "Out",
        PortDirection::InOut => "InOut",
    }
}

/// The channel end of a port of a subcomponent implementing `comp`:
/// `BcSender`/`BcReceiver` where the system or a process broadcasts through
/// it, else `Receiver` for an in port and `Sender` otherwise.
pub open spec fn spec_channel_kind(c: AadlConverter, port: PortSpec, comp: Seq<char>) -> Seq<char> {
    if comp.len() > 0 && any_broadcast_send(c, port.identifier@, comp) {
        "BcSender"@
    } else if comp.len() > 0 && any_broadcast_receive(c, port.identifier@, comp) {
        "BcReceiver"@
    } else {
        match port.direction {
            PortDirection::In => "Receiver"@,
            _ => "Sender"@,
        }
    }
}

/// The data a port carries: its classifier's type, `()` for none or for
/// an event port.
pub open spec fn spec_port_data_type(types: Seq<(Seq<char>, SpecType)>, port: PortSpec) -> SpecType {
    match port.port_type {
        PortType::Data { classifier } | PortType::EventData { classifier } => match classifier {
            Some(cl) => spec_classifier_to_type(types, cl),
            None => SpecType::Named("()"@),
        },
        PortType::Event => SpecType::Named("()"@),
    }
}

/// `Option<<channel end><<data>>>`
pub open spec fn spec_port_type(c: AadlConverter, port: PortSpec, comp: Seq<char>) -> SpecType {
    SpecType::Generic(
        "Option"@,
        seq![
            SpecType::Generic(
                spec_channel_kind(c, port, comp),
                seq![spec_port_data_type(c.types(), port)],
            ),
        ],
    )
}

fn lookup_str<'a>(table: &'a Vec<(String, String)>, key: &str) -> (res: Option<&'a String>)
    ensures
        match assoc_first(pair_table_view(table@), key@) {
            Some(v) => res matches Some(r) && r@ == v,
            None => res is None,
        },
{
    let ghost tv = pair_table_view(table@);
    let mut i: usize = 0;
    proof {
        assert(tv.skip(0) =~= tv);
    }
    while i < table.len()
        invariant
            i <= table@.len(),
            tv == pair_table_view(table@),
            assoc_first(tv.skip(i as int), key@) == assoc_first(tv, key@),
        decreases table@.len() - i,
    {
        proof {
            assert(tv.skip(i as int).drop_first() =~= tv.skip(i + 1));
        }
        if str_eq(table[i].0.as_str(), key) {
            return Some(&table[i].1);
        }
        i = i + 1;
    }
    None
}

fn maps_to(types: &Vec<(String, String)>, key: &str, comp: &str) -> (res: bool)
    ensures
        res == (assoc_first(pair_table_view(types@), key@) == Some(comp@)),
{
    match lookup_str(types, key) {
        Some(v) => str_eq(v.as_str(), comp),
        None => false,
    }
}

fn receives_in_list(types: &Vec<(String, String)>, subs: &Vec<(String, String)>, pid: &str, comp: &str) -> (res:
    bool)
    ensures
        res == receives_in(pair_table_view(types@), pair_table_view(subs@), pid@, comp@),
{
    let ghost sv = pair_table_view(subs@);
    let ghost tv = pair_table_view(types@);
    let mut k: usize = 0;
    while k < subs.len()
        invariant
            k <= subs@.len(),
            sv == pair_table_view(subs@),
            tv == pair_table_view(types@),
            forall|j: int| 0 <= j < k ==> !(#[trigger] sv[j].1 == pid@ && assoc_first(tv, sv[j].0) == Some(comp@)),
        decreases subs@.len() - k,
    {
        if str_eq(subs[k].1.as_str(), pid) && maps_to(types, subs[k].0.as_str(), comp) {
            assert(sv[k as int].1 == pid@ && assoc_first(tv, sv[k as int].0) == Some(comp@));
            return true;
        }
        k = k + 1;
    }
    false
}

impl AadlConverter {
    fn entry_sends(&self, i: usize, pid: &str, comp: &str) -> (res: bool)
        requires
            i < self.process_broadcast_receive@.len(),
        ensures
            res == send_match(self.system_types(), self.broadcast_receivers()[i as int], pid@, comp@),
    {
        let e = &self.process_broadcast_receive[i];
        str_eq(e.0.1.as_str(), pid) && maps_to(&self.system_subcomponent_identify_to_type, e.0.0.as_str(), comp)
    }

    pub(crate) fn broadcast_flags(&self, pid: &str, comp: &str) -> (res: (bool, bool))
        ensures
            res.0 == any_broadcast_send(*self, pid@, comp@),
            res.1 == any_broadcast_receive(*self, pid@, comp@),
    {
        let ghost br = self.broadcast_receivers();
        let ghost tr = self.thread_receivers();
        let mut sends = false;
        let mut recvs = false;
        let mut i: usize = 0;
        while i < self.process_broadcast_receive.len()
            invariant
                i <= self.process_broadcast_receive@.len(),
                br == self.broadcast_receivers(),
                sends == exists|j: int| 0 <= j < i && send_match(self.system_types(), #[trigger] br[j], pid@, comp@),
                recvs == exists|j: int| 0 <= j < i && !send_match(self.system_types(), #[trigger] br[j], pid@, comp@)
                    && receives_in(self.system_types(), br[j].1, pid@, comp@),
            decreases self.process_broadcast_receive@.len() - i,
        {
            let s = self.entry_sends(i, pid, comp);
            if s {
                sends = true;
            } else {
                let r = receives_in_list(
                    &self.system_subcomponent_identify_to_type,
                    &self.process_broadcast_receive[i].1,
                    pid,
                    comp,
                );
                if r {
                    recvs = true;
                }
            }
            proof {
                assert(br[i as int].1 == pair_table_view(self.process_broadcast_receive@[i as int].1@));
            }
            i = i + 1;
        }
        let mut k: usize = 0;
        let ghost first_recvs = recvs;
        while k < self.thread_broadcast_receive.len()
            invariant
                k <= self.thread_broadcast_receive@.len(),
                tr == self.thread_receivers(),
                recvs == (first_recvs || exists|j: int| 0 <= j < k && receives_in(self.process_types(), #[trigger] tr[j].1, pid@, comp@)),
            decreases self.thread_broadcast_receive@.len() - k,
        {
            let r = receives_in_list(
                &self.process_subcomponent_identify_to_type,
                &self.thread_broadcast_receive[k].1,
                pid,
                comp,
            );
            proof {
                assert(tr[k as int].1 == pair_table_view(self.thread_broadcast_receive@[k as int].1@));
            }
            if r {
                recvs = true;
            }
            k = k + 1;
        }
        (sends, recvs)
    }

    /// The type of a port field: `Option` of the channel end (see
    /// `spec_channel_kind`) carrying the port's data type.
    pub fn convert_port_type(&self, port: &PortSpec, comp_identifier: String) -> (res: Type)
        requires
            !port_type_fails(*self, *port, comp_identifier@),
        ensures
            res@ == spec_port_type(*self, *port, comp_identifier@),
    {
        let mut channel_type = String::new();
        let mut assigned = false;
        if !comp_identifier.as_str().is_empty() {
            let (sends, recvs) = self.broadcast_flags(port.identifier.as_str(), comp_identifier.as_str());
            if sends {
                channel_type = "BcSender".to_string();
                assigned = true;
            } else if recvs {
                channel_type = "BcReceiver".to_string();
                assigned = true;
            }
        }
        if !assigned {
            channel_type = match port.direction {
                PortDirection::In => "Receiver".to_string(),
                PortDirection::Out => "Sender".to_string(),
                PortDirection::InOut => "Sender".to_string(),
            };
        }
        let inner_type = match &port.port_type {
            PortType::Data { classifier } | PortType::EventData { classifier } => match classifier {
                Some(c) => self.classifier_to_type(c),
                None => Type::Named("()".to_string()),
            },
            PortType::Event => Type::Named("()".to_string()),
        };
        let ghost iv = inner_type@;
        let mut inner_args: Vec<Type> = Vec::new();
        inner_args.push(inner_type);
        let channel = Type::Generic(channel_type, inner_args);
        let ghost cv = channel@;
        let mut outer_args: Vec<Type> = Vec::new();
        outer_args.push(channel);
        proof {
            lemma_views_empty();
            assert(inner_args@ =~= Seq::<Type>::empty().push(inner_args@[0]));
            lemma_types_view_push(Seq::<Type>::empty(), inner_args@[0]);
            assert(types_view(inner_args@) =~= seq![iv]);
            assert(outer_args@ =~= Seq::<Type>::empty().push(outer_args@[0]));
            lemma_types_view_push(Seq::<Type>::empty(), outer_args@[0]);
            assert(types_view(outer_args@) =~= seq![cv]);
        }
        Type::Generic("Option".to_string(), outer_args)
    }
}


// ---------------------------------------------------------------------------
// Port directions and channel connections
// ---------------------------------------------------------------------------

/// The direction of the first port named `name` (compared in lower case)
/// in the first component type that has one; `Out` where none has.
pub open spec fn spec_port_direction(comps: Seq<(Seq<char>, ComponentType)>, name: Seq<char>) -> PortDirection
    decreases comps.len(),
{
    if comps.len() == 0 {
        PortDirection::Out
    } else {
        let here = match comps[0].1.features {
            FeatureClause::Items(fs) => spec_port_in_features(fs@, name),
            _ => None,
        };
        match here {
            Some(p) => p.direction,
            None => spec_port_direction(comps.drop_first(), name),
        }
    }
}

/// The receivers recorded for the broadcasting pair `k`.
pub open spec fn fanout_get(
    t: Seq<((Seq<char>, Seq<char>), Seq<(Seq<char>, Seq<char>)>)>,
    k: (Seq<char>, Seq<char>),
) -> Option<Seq<(Seq<char>, Seq<char>)>>
    decreases t.len(),
{
    if t.len() == 0 {
        None
    } else if t[0].0 == k {
        Some(t[0].1)
    } else {
        fanout_get(t.drop_first(), k)
    }
}

/// What `Debug` writes for an optional string.
pub open spec fn spec_debug_opt(o: Option<String>) -> Seq<char> {
    match o {
        Some(s) => "Some("@ + debug_quoted(s@) + ")"@,
        None => "None"@,
    }
}

/// `<name> { <f>: <a>, <g>: <b> }` as `Debug` writes a variant with two string fields.
pub open spec fn debug_two(name: Seq<char>, f: Seq<char>, a: Seq<char>, g: Seq<char>, b: Seq<char>) -> Seq<char> {
    name + " { "@ + f + ": "@ + debug_quoted(a) + ", "@ + g + ": "@ + debug_quoted(b) + " }"@
}

/// `<name>(<a>)` as `Debug` writes a variant with one string field.
pub open spec fn debug_one(name: Seq<char>, a: Seq<char>) -> Seq<char> {
    name + "("@ + debug_quoted(a) + ")"@
}

/// What `Debug` writes for a port connection's end.
pub open spec fn spec_endpoint_debug(e: PortEndpoint) -> Seq<char> {
    match e {
        PortEndpoint::ComponentPort(s) => debug_one("ComponentPort"@, s@),
        PortEndpoint::SubcomponentPort { subcomponent, port } => debug_two(
            "SubcomponentPort"@,
            "subcomponent"@,
            subcomponent@,
            "port"@,
            port@,
        ),
        PortEndpoint::FeatureGroupPort { feature_group, element } => debug_two(
            "FeatureGroupPort"@,
            "feature_group"@,
            feature_group@,
            "element"@,
            element@,
        ),
        PortEndpoint::AggregateDataElement { port, data_element } => debug_two(
            "AggregateDataElement"@,
            "port"@,
            port@,
            "data_element"@,
            data_element@,
        ),
        PortEndpoint::RequiresDataAccess(s) => debug_one("RequiresDataAccess"@, s@),
        PortEndpoint::DataSubcomponent(s) => debug_one("DataSubcomponent"@, s@),
        PortEndpoint::SubcomponentDataAccess { subcomponent, access } => debug_two(
            "SubcomponentDataAccess"@,
            "subcomponent"@,
            subcomponent@,
            "access"@,
            access@,
        ),
        PortEndpoint::FeatureGroupDataAccess { feature_group, element } => debug_two(
            "FeatureGroupDataAccess"@,
            "feature_group"@,
            feature_group@,
            "element"@,
            element@,
        ),
        PortEndpoint::NestedDataAccess { container, element } => debug_two(
            "NestedDataAccess"@,
            "container"@,
            container@,
            "element"@,
            element@,
        ),
        PortEndpoint::ProcessorPort { processor, port } => "ProcessorPort { processor: "@
            + spec_debug_opt(processor) + ", port: "@ + debug_quoted(port@) + " }"@,
        PortEndpoint::InternalEvent { self_ref, identifier } => "InternalEvent { self_ref: "@ + (
        if self_ref {
            "true"@
        } else {
            "false"@
        }) + ", identifier: "@ + debug_quoted(identifier@) + " }"@,
    }
}

/// `<name> { <f>: <a>, <g>: <o> }` as `Debug` writes a variant with a string
/// field and an optional string field.
pub open spec fn debug_str_opt(name: Seq<char>, f: Seq<char>, a: Seq<char>, g: Seq<char>, o: Option<String>) -> Seq<char> {
    name + " { "@ + f + ": "@ + debug_quoted(a) + ", "@ + g + ": "@ + spec_debug_opt(o) + " }"@
}

/// What `Debug` writes for a parameter connection's end.
pub open spec fn spec_parameter_endpoint_debug(e: ParameterEndpoint) -> Seq<char> {
    match e {
        ParameterEndpoint::ComponentParameter { parameter, data_subcomponent } => debug_str_opt(
            "ComponentParameter"@,
            "parameter"@,
            parameter@,
            "data_subcomponent"@,
            data_subcomponent,
        ),
        ParameterEndpoint::SubprogramCallParameter { call_identifier, parameter } => debug_two(
            "SubprogramCallParameter"@,
            "call_identifier"@,
            call_identifier@,
            "parameter"@,
            parameter@,
        ),
        ParameterEndpoint::ThreadPort { port, data_subcomponent } => debug_str_opt(
            "ThreadPort"@,
            "port"@,
            port@,
            "data_subcomponent"@,
            data_subcomponent,
        ),
        ParameterEndpoint::DataSubcomponent(s) => debug_one("DataSubcomponent"@, s@),
        ParameterEndpoint::RequiresDataAccess(s) => debug_one("RequiresDataAccess"@, s@),
        ParameterEndpoint::FeatureGroupDataAccess { feature_group, element } => debug_two(
            "FeatureGroupDataAccess"@,
            "feature_group"@,
            feature_group@,
            "element"@,
            element@,
        ),
        ParameterEndpoint::FeatureGroupElement { feature_group, element } => debug_two(
            "FeatureGroupElement"@,
            "feature_group"@,
            feature_group@,
            "element"@,
            element@,
        ),
    }
}

/// What `Debug` writes for an access connection's end.
pub open spec fn spec_access_endpoint_debug(e: AccessEndpoint) -> Seq<char> {
    match e {
        AccessEndpoint::ComponentAccess(s) => debug_one("ComponentAccess"@, s@),
        AccessEndpoint::SubcomponentAccess { subcomponent, access } => debug_two(
            "SubcomponentAccess"@,
            "subcomponent"@,
            subcomponent@,
            "access"@,
            access@,
        ),
    }
}

/// What `Debug` writes for a connection's direction symbol.
pub open spec fn spec_symbol_debug(d: ConnectionSymbol) -> Seq<char> {
    match d {
        ConnectionSymbol::Direct => "Direct"@,
        ConnectionSymbol::Didirect => "Didirect"@,
    }
}

/// What `Debug` writes for a connection (`format!("{:?}", c)`).
pub open spec fn spec_connection_debug(c: Connection) -> Seq<char> {
    match c {
        Connection::Port(p) => "Port(PortConnection { identifier: "@ + debug_quoted(p.identifier@) + ", source: "@
            + spec_endpoint_debug(p.source) + ", destination: "@ + spec_endpoint_debug(p.destination)
            + ", connection_direction: "@ + spec_symbol_debug(p.connection_direction) + " })"@,
        Connection::Parameter(p) => "Parameter(ParameterConnection { source: "@ + spec_parameter_endpoint_debug(
            p.source,
        ) + ", destination: "@ + spec_parameter_endpoint_debug(p.destination) + ", connection_direction: "@
            + spec_symbol_debug(p.connection_direction) + " })"@,
        Connection::Access(a) => "Access(AccessConnection { source: "@ + spec_access_endpoint_debug(a.source)
            + ", destination: "@ + spec_access_endpoint_debug(a.destination) + ", connection_direction: "@
            + spec_symbol_debug(a.connection_direction) + " })"@,
    }
}

/// Whether the connection's channel is a broadcast one: its source is a
/// broadcasting subcomponent port of the system, or a process port through
/// which the process `comp` broadcasts to its threads.
pub open spec fn spec_is_broadcast(c: AadlConverter, conn: PortConnection, comp: Seq<char>) -> bool {
    match conn.source {
        PortEndpoint::SubcomponentPort { subcomponent, port } => c.broadcast_senders().contains(
            (subcomponent@, port@),
        ),
        PortEndpoint::ComponentPort(pp) => fanout_get(c.thread_receivers(), (pp@, comp)) is Some,
        _ => false,
    }
}

/// `Some(<arg>)`
pub open spec fn s_some(arg: SpecExpr) -> SpecExpr {
    SpecExpr::Call(Box::new(SpecExpr::Path(seq!["Some"@], PathType::Member)), seq![arg])
}

/// `<target>.<m>(<arg>)`
pub open spec fn s_call_on(target: Seq<char>, m: Seq<char>, arg: SpecExpr) -> SpecStatement {
    SpecStatement::Expr(SpecExpr::MethodCall(Box::new(SpecExpr::Ident(target)), m, seq![arg]))
}

/// `<name> = Some(<value>)`
pub open spec fn s_set_some(name: Seq<char>, value: SpecExpr) -> SpecStatement {
    SpecStatement::Expr(
        SpecExpr::BinaryOp(Box::new(SpecExpr::Ident(name)), "="@, Box::new(s_some(value))),
    )
}

/// The channel: a broadcast channel of capacity 100 named `channel`, or an
/// unbounded channel named after the connection.
pub open spec fn spec_channel_decl(conn: PortConnection, broadcast: bool) -> SpecStatement {
    if broadcast {
        spec_channel_decl_broadcast()
    } else {
        spec_channel_decl_unbounded(conn.identifier@)
    }
}

/// `let channel = broadcast::channel::<>(100);`
pub open spec fn spec_channel_decl_broadcast() -> SpecStatement {
    {
        SpecStatement::Let(
            SpecLetStmt {
                ifmut: false,
                name: "channel"@,
                ty: None,
                init: Some(
                    SpecExpr::Call(
                        Box::new(
                            SpecExpr::Path(seq!["broadcast"@, "channel"@, "<>"@], PathType::Namespace),
                        ),
                        seq![SpecExpr::Literal(SpecLiteral::Int(100))],
                    ),
                ),
            },
        )
    }
}

/// `let <name> = crossbeam_channel::unbounded();`
pub open spec fn spec_channel_decl_unbounded(name: Seq<char>) -> SpecStatement {
    {
        SpecStatement::Let(
            SpecLetStmt {
                ifmut: false,
                name,
                ty: None,
                init: Some(
                    SpecExpr::Call(
                        Box::new(
                            SpecExpr::Path(seq!["crossbeam_channel"@, "unbounded"@], PathType::Namespace),
                        ),
                        Seq::empty(),
                    ),
                ),
            },
        )
    }
}

/// Between two subcomponents: the sender's port gets the sending end, the
/// receiver's port the receiving end (a broadcast's receivers subscribe).
pub open spec fn spec_ends_between(
    id: Seq<char>,
    sc: Seq<char>,
    sp: Seq<char>,
    dc: Seq<char>,
    dp: Seq<char>,
    broadcast: bool,
) -> Seq<SpecStatement> {
    seq![
        s_call_on(
            lowercase(sc) + "."@ + lowercase(sp),
            "send"@,
            s_some(
                if broadcast {
                    SpecExpr::MethodCall(Box::new(SpecExpr::Ident("channel.0.clone"@)), ""@, Seq::empty())
                } else {
                    SpecExpr::Ident(id + ".0"@)
                },
            ),
        ),
    ] + if broadcast {
        Seq::empty()
    } else {
        seq![s_call_on(lowercase(dc) + "."@ + lowercase(dp), "receive"@, s_some(SpecExpr::Ident(id + ".1"@)))]
    }
}

/// From a port of the component to a subcomponent: the internal port gets
/// the sending end, the subcomponent's port the receiving end.
pub open spec fn spec_ends_inward(id: Seq<char>, pn: Seq<char>, dc: Seq<char>, dp: Seq<char>, broadcast: bool) -> Seq<
    SpecStatement,
> {
    seq![
        s_set_some(
            lowercase(pn) + "Send"@,
            SpecExpr::Ident(
                if broadcast {
                    "channel.0.clone()"@
                } else {
                    id + ".0"@
                },
            ),
        ),
    ] + if broadcast {
        Seq::empty()
    } else {
        seq![s_call_on(dc + "."@ + dp, "receive"@, s_some(SpecExpr::Ident(id + ".1"@)))]
    }
}

/// From a subcomponent to a port of the component: the subcomponent's port
/// gets the sending end, the internal port the receiving end.
pub open spec fn spec_ends_outward(
    c: AadlConverter,
    id: Seq<char>,
    sc: Seq<char>,
    sp: Seq<char>,
    pn: Seq<char>,
) -> Seq<SpecStatement> {
    seq![
        s_call_on(sc + "."@ + sp, "send"@, s_some(SpecExpr::Ident(id + ".0"@))),
        s_set_some(
            match spec_port_direction(c.components(), pn) {
                PortDirection::Out => lowercase(pn) + "Rece"@,
                _ => lowercase(pn) + "Send"@,
            },
            SpecExpr::Ident(id + ".1"@),
        ),
    ]
}

/// Handing the channel's ends to the two sides of the connection; a comment
/// for the kinds of connection not handled.
pub open spec fn spec_channel_ends(c: AadlConverter, conn: PortConnection, broadcast: bool) -> Seq<
    SpecStatement,
> {
    let id = conn.identifier@;
    match (conn.source, conn.destination) {
        (
            PortEndpoint::SubcomponentPort { subcomponent: sc, port: sp },
            PortEndpoint::SubcomponentPort { subcomponent: dc, port: dp },
        ) => spec_ends_between(id, sc@, sp@, dc@, dp@, broadcast),
        (PortEndpoint::ComponentPort(pn), PortEndpoint::SubcomponentPort { subcomponent: dc, port: dp }) => spec_ends_inward(
            id,
            pn@,
            dc@,
            dp@,
            broadcast,
        ),
        (PortEndpoint::SubcomponentPort { subcomponent: sc, port: sp }, PortEndpoint::ComponentPort(pn)) => spec_ends_outward(
            c,
            id,
            sc@,
            sp@,
            pn@,
        ),
        (src, dst) => seq![
            SpecStatement::Expr(
                SpecExpr::Ident(
                    "// TODO: Unsupported connection type: "@ + spec_endpoint_debug(src) + " -> "@
                        + spec_endpoint_debug(dst),
                ),
            ),
        ],
    }
}

/// Each recorded receiver of a broadcast subscribes to the channel.
pub open spec fn spec_subscriptions(subs: Seq<(Seq<char>, Seq<char>)>) -> Seq<SpecStatement> {
    subs.map_values(
        |e: (Seq<char>, Seq<char>)|
            s_call_on(e.0 + "."@ + e.1, "receive"@, s_some(SpecExpr::Ident("channel.0.subscribe()"@))),
    )
}

/// The subscriptions of a broadcast connection's receivers.
pub open spec fn spec_channel_subscribers(c: AadlConverter, conn: PortConnection, comp: Seq<char>) -> Seq<
    SpecStatement,
> {
    match conn.source {
        PortEndpoint::SubcomponentPort { subcomponent, port } => match fanout_get(
            c.broadcast_receivers(),
            (subcomponent@, port@),
        ) {
            Some(subs) => spec_subscriptions(subs),
            None => Seq::empty(),
        },
        PortEndpoint::ComponentPort(pp) => match fanout_get(c.thread_receivers(), (pp@, comp)) {
            Some(subs) => spec_subscriptions(subs),
            None => Seq::empty(),
        },
        _ => Seq::empty(),
    }
}

/// The code for a port connection inside the component `comp`: the
/// channel, its ends handed to the two sides, and, for a broadcast, the
/// subscriptions of the recorded receivers.
pub open spec fn spec_channel_connection(c: AadlConverter, conn: PortConnection, comp: Seq<char>) -> Seq<
    SpecStatement,
> {
    let broadcast = spec_is_broadcast(c, conn, comp);
    seq![spec_channel_decl(conn, broadcast)] + spec_channel_ends(c, conn, broadcast) + if broadcast {
        spec_channel_subscribers(c, conn, comp)
    } else {
        Seq::empty()
    }
}

pub fn fanout_lookup<'a>(t: &'a Vec<((String, String), Vec<(String, String)>)>, a: &str, b: &str) -> (res: Option<
    &'a Vec<(String, String)>,
>)
    ensures
        match fanout_get(fanout_view(t@), (a@, b@)) {
            Some(v) => res matches Some(r) && pair_table_view(r@) == v,
            None => res is None,
        },
{
    let ghost tv = fanout_view(t@);
    let mut i: usize = 0;
    proof {
        assert(tv.skip(0) =~= tv);
    }
    while i < t.len()
        invariant
            i <= t@.len(),
            tv == fanout_view(t@),
            fanout_get(tv.skip(i as int), (a@, b@)) == fanout_get(tv, (a@, b@)),
        decreases t@.len() - i,
    {
        proof {
            assert(tv.skip(i as int).drop_first() =~= tv.skip(i + 1));
        }
        if str_eq(t[i].0.0.as_str(), a) && str_eq(t[i].0.1.as_str(), b) {
            return Some(&t[i].1);
        }
        i = i + 1;
    }
    None
}

pub fn pairs_contain(t: &Vec<(String, String)>, a: &str, b: &str) -> (res: bool)
    ensures
        res == pair_table_view(t@).contains((a@, b@)),
{
    let ghost tv = pair_table_view(t@);
    let mut i: usize = 0;
    while i < t.len()
        invariant
            i <= t@.len(),
            tv == pair_table_view(t@),
            forall|j: int| 0 <= j < i ==> #[trigger] tv[j] != (a@, b@),
        decreases t@.len() - i,
    {
        if str_eq(t[i].0.as_str(), a) && str_eq(t[i].1.as_str(), b) {
            assert(tv[i as int] == (a@, b@));
            return true;
        }
        i = i + 1;
    }
    false
}

fn debug_opt(o: &Option<String>) -> (res: String)
    ensures
        res@ == spec_debug_opt(*o),
{
    match o {
        Some(s) => {
            let d = debug_str(s.as_str());
            concat3("Some(", d.as_str(), ")")
        },
        None => "None".to_string(),
    }
}

fn debug_two_fields(name: &str, f: &str, a: &str, g: &str, b: &str) -> (res: String)
    ensures
        res@ == debug_two(name@, f@, a@, g@, b@),
{
    let da = debug_str(a);
    let db = debug_str(b);
    let mut r = concat3(name, " { ", f);
    r.append(": ");
    r.append(da.as_str());
    r.append(", ");
    r.append(g);
    r.append(": ");
    r.append(db.as_str());
    r.append(" }");
    r
}

fn debug_one_field(name: &str, a: &str) -> (res: String)
    ensures
        res@ == debug_one(name@, a@),
{
    let da = debug_str(a);
    let mut r = concat(name, "(");
    r.append(da.as_str());
    r.append(")");
    r
}

fn debug_str_opt_fields(name: &str, f: &str, a: &str, g: &str, o: &Option<String>) -> (res: String)
    ensures
        res@ == debug_str_opt(name@, f@, a@, g@, *o),
{
    let da = debug_str(a);
    let db = debug_opt(o);
    let mut r = concat3(name, " { ", f);
    r.append(": ");
    r.append(da.as_str());
    r.append(", ");
    r.append(g);
    r.append(": ");
    r.append(db.as_str());
    r.append(" }");
    r
}

fn parameter_endpoint_debug(e: &ParameterEndpoint) -> (res: String)
    ensures
        res@ == spec_parameter_endpoint_debug(*e),
{
    match e {
        ParameterEndpoint::ComponentParameter { parameter, data_subcomponent } => debug_str_opt_fields(
            "ComponentParameter",
            "parameter",
            parameter.as_str(),
            "data_subcomponent",
            data_subcomponent,
        ),
        ParameterEndpoint::SubprogramCallParameter { call_identifier, parameter } => debug_two_fields(
            "SubprogramCallParameter",
            "call_identifier",
            call_identifier.as_str(),
            "parameter",
            parameter.as_str(),
        ),
        ParameterEndpoint::ThreadPort { port, data_subcomponent } => debug_str_opt_fields(
            "ThreadPort",
            "port",
            port.as_str(),
            "data_subcomponent",
            data_subcomponent,
        ),
        ParameterEndpoint::DataSubcomponent(s) => debug_one_field("DataSubcomponent", s.as_str()),
        ParameterEndpoint::RequiresDataAccess(s) => debug_one_field("RequiresDataAccess", s.as_str()),
        ParameterEndpoint::FeatureGroupDataAccess { feature_group, element } => debug_two_fields(
            "FeatureGroupDataAccess",
            "feature_group",
            feature_group.as_str(),
            "element",
            element.as_str(),
        ),
        ParameterEndpoint::FeatureGroupElement { feature_group, element } => debug_two_fields(
            "FeatureGroupElement",
            "feature_group",
            feature_group.as_str(),
            "element",
            element.as_str(),
        ),
    }
}

fn access_endpoint_debug(e: &AccessEndpoint) -> (res: String)
    ensures
        res@ == spec_access_endpoint_debug(*e),
{
    match e {
        AccessEndpoint::ComponentAccess(s) => debug_one_field("ComponentAccess", s.as_str()),
        AccessEndpoint::SubcomponentAccess { subcomponent, access } => debug_two_fields(
            "SubcomponentAccess",
            "subcomponent",
            subcomponent.as_str(),
            "access",
            access.as_str(),
        ),
    }
}

fn symbol_debug(d: &ConnectionSymbol) -> (res: &'static str)
    ensures
        res@ == spec_symbol_debug(*d),
{
    match d {
        ConnectionSymbol::Direct => "Direct",
        ConnectionSymbol::Didirect => "Didirect",
    }
}

/// What `Debug` writes for a connection (`format!("{:?}", c)`).
pub fn connection_debug_text(c: &Connection) -> (res: String)
    ensures
        res@ == spec_connection_debug(*c),
{
    match c {
        Connection::Port(p) => {
            let id = debug_str(p.identifier.as_str());
            let src = endpoint_debug(&p.source);
            let dst = endpoint_debug(&p.destination);
            let mut r = concat("Port(PortConnection { identifier: ", id.as_str());
            r.append(", source: ");
            r.append(src.as_str());
            r.append(", destination: ");
            r.append(dst.as_str());
            r.append(", connection_direction: ");
            r.append(symbol_debug(&p.connection_direction));
            r.append(" })");
            r
        },
        Connection::Parameter(p) => {
            let src = parameter_endpoint_debug(&p.source);
            let dst = parameter_endpoint_debug(&p.destination);
            let mut r = concat("Parameter(ParameterConnection { source: ", src.as_str());
            r.append(", destination: ");
            r.append(dst.as_str());
            r.append(", connection_direction: ");
            r.append(symbol_debug(&p.connection_direction));
            r.append(" })");
            r
        },
        Connection::Access(a) => {
            let src = access_endpoint_debug(&a.source);
            let dst = access_endpoint_debug(&a.destination);
            let mut r = concat("Access(AccessConnection { source: ", src.as_str());
            r.append(", destination: ");
            r.append(dst.as_str());
            r.append(", connection_direction: ");
            r.append(symbol_debug(&a.connection_direction));
            r.append(" })");
            r
        },
    }
}

/// What `Debug` writes for a port connection's end.
pub fn endpoint_debug(e: &PortEndpoint) -> (res: String)
    ensures
        res@ == spec_endpoint_debug(*e),
{
    match e {
        PortEndpoint::ComponentPort(s) => debug_one_field("ComponentPort", s.as_str()),
        PortEndpoint::SubcomponentPort { subcomponent, port } => debug_two_fields(
            "SubcomponentPort",
            "subcomponent",
            subcomponent.as_str(),
            "port",
            port.as_str(),
        ),
        PortEndpoint::FeatureGroupPort { feature_group, element } => debug_two_fields(
            "FeatureGroupPort",
            "feature_group",
            feature_group.as_str(),
            "element",
            element.as_str(),
        ),
        PortEndpoint::AggregateDataElement { port, data_element } => debug_two_fields(
            "AggregateDataElement",
            "port",
            port.as_str(),
            "data_element",
            data_element.as_str(),
        ),
        PortEndpoint::RequiresDataAccess(s) => debug_one_field("RequiresDataAccess", s.as_str()),
        PortEndpoint::DataSubcomponent(s) => debug_one_field("DataSubcomponent", s.as_str()),
        PortEndpoint::SubcomponentDataAccess { subcomponent, access } => debug_two_fields(
            "SubcomponentDataAccess",
            "subcomponent",
            subcomponent.as_str(),
            "access",
            access.as_str(),
        ),
        PortEndpoint::FeatureGroupDataAccess { feature_group, element } => debug_two_fields(
            "FeatureGroupDataAccess",
            "feature_group",
            feature_group.as_str(),
            "element",
            element.as_str(),
        ),
        PortEndpoint::NestedDataAccess { container, element } => debug_two_fields(
            "NestedDataAccess",
            "container",
            container.as_str(),
            "element",
            element.as_str(),
        ),
        PortEndpoint::ProcessorPort { processor, port } => {
            let p = debug_opt(processor);
            let d = debug_str(port.as_str());
            let mut r = concat("ProcessorPort { processor: ", p.as_str());
            r.append(", port: ");
            r.append(d.as_str());
            r.append(" }");
            r
        },
        PortEndpoint::InternalEvent { self_ref, identifier } => {
            let d = debug_str(identifier.as_str());
            let mut r = "InternalEvent { self_ref: ".to_string();
            r.append(if *self_ref { "true" } else { "false" });
            r.append(", identifier: ");
            r.append(d.as_str());
            r.append(" }");
            r
        },
    }
}

fn some_of(arg: Expr) -> (res: Expr)
    ensures
        res@ == s_some(arg@),
{
    let mut path: Vec<String> = Vec::new();
    path.push("Some".to_string());
    proof {
        assert(strings_view(path@) =~= seq!["Some"@]);
    }
    let ghost av = arg@;
    let mut args: Vec<Expr> = Vec::new();
    args.push(arg);
    proof {
        lemma_views_empty();
        lemma_exprs_view_push(Seq::<Expr>::empty(), args@[0]);
        assert(args@ =~= Seq::<Expr>::empty().push(args@[0]));
        assert(exprs_view(args@) =~= seq![av]);
    }
    let callee = Expr::Path(path, PathType::Member);
    assert(callee@ == SpecExpr::Path(seq!["Some"@], PathType::Member));
    Expr::Call(Box::new(callee), args)
}

fn call_on(target: String, m: &str, arg: Expr) -> (res: Statement)
    ensures
        res@ == s_call_on(target@, m@, arg@),
{
    let ghost av = arg@;
    let mut args: Vec<Expr> = Vec::new();
    args.push(arg);
    proof {
        lemma_views_empty();
        lemma_exprs_view_push(Seq::<Expr>::empty(), args@[0]);
        assert(args@ =~= Seq::<Expr>::empty().push(args@[0]));
        assert(exprs_view(args@) =~= seq![av]);
    }
    Statement::Expr(Expr::MethodCall(Box::new(Expr::Ident(target)), m.to_string(), args))
}

fn set_some(name: String, value: Expr) -> (res: Statement)
    ensures
        res@ == s_set_some(name@, value@),
{
    Statement::Expr(Expr::BinaryOp(Box::new(Expr::Ident(name)), "=".to_string(), Box::new(some_of(value))))
}

fn dotted(a: &str, b: &str) -> (res: String)
    ensures
        res@ == a@ + "."@ + b@,
{
    concat3(a, ".", b)
}

fn lower_dotted(a: &str, b: &str) -> (res: String)
    ensures
        res@ == lowercase(a@) + "."@ + lowercase(b@),
{
    let la = to_lower(a);
    let lb = to_lower(b);
    concat3(la.as_str(), ".", lb.as_str())
}

fn subscriptions(subs: &Vec<(String, String)>, out: &mut Vec<Statement>)
    ensures
        stmts_view(final(out)@) == stmts_view(old(out)@) + spec_subscriptions(pair_table_view(subs@)),
{
    let ghost start = stmts_view(out@);
    let ghost sv = pair_table_view(subs@);
    let mut i: usize = 0;
    proof {
        assert(start + spec_subscriptions(sv.take(0)) =~= start);
    }
    while i < subs.len()
        invariant
            i <= subs@.len(),
            sv == pair_table_view(subs@),
            stmts_view(out@) == start + spec_subscriptions(sv.take(i as int)),
        decreases subs@.len() - i,
    {
        let st = call_on(
            dotted(subs[i].0.as_str(), subs[i].1.as_str()),
            "receive",
            some_of(Expr::Ident("channel.0.subscribe()".to_string())),
        );
        let ghost stv = st@;
        let ghost before = stmts_view(out@);
        out.push(st);
        proof {
            assert(stmts_view(out@) == before.push(stv));
            assert(spec_subscriptions(sv.take(i + 1)) =~= spec_subscriptions(sv.take(i as int)).push(stv));
            assert(stmts_view(out@) =~= start + spec_subscriptions(sv.take(i + 1)));
        }
        i = i + 1;
    }
    proof {
        assert(sv.take(sv.len() as int) =~= sv);
    }
}


fn broadcast_channel_decl() -> (res: Statement)
    ensures
        res@ == spec_channel_decl_broadcast(),
{
    let mut path: Vec<String> = Vec::new();
    path.push("broadcast".to_string());
    path.push("channel".to_string());
    path.push("<>".to_string());
    proof {
        assert(strings_view(path@) =~= seq!["broadcast"@, "channel"@, "<>"@]);
    }
    let call = mk_call(Expr::Path(path, PathType::Namespace), vec1_expr(Expr::Literal(Literal::Int(100))));
    mk_let(false, "channel", None, Some(call))
}

fn unbounded_channel_decl(name: String) -> (res: Statement)
    ensures
        res@ == spec_channel_decl_unbounded(name@),
{
    proof {
        lemma_views_empty();
    }
    let call = mk_call(mk_ns2("crossbeam_channel", "unbounded"), Vec::new());
    mk_let(false, name.as_str(), None, Some(call))
}

fn stmts2(a: Statement, b: Statement) -> (res: Vec<Statement>)
    ensures
        stmts_view(res@) == seq![a@, b@],
{
    let ghost (av, bv) = (a@, b@);
    let mut v: Vec<Statement> = Vec::new();
    v.push(a);
    v.push(b);
    proof {
        lemma_views_empty();
        assert(v@ =~= Seq::<Statement>::empty().push(v@[0]).push(v@[1]));
        assert(stmts_view(v@) =~= seq![av, bv]);
    }
    v
}

fn ends_between(id: &str, sc: &str, sp: &str, dc: &str, dp: &str, broadcast: bool) -> (res: Vec<Statement>)
    ensures
        stmts_view(res@) == spec_ends_between(id@, sc@, sp@, dc@, dp@, broadcast),
{
    let value = if broadcast {
        mk_mcall0(mk_ident("channel.0.clone"), "")
    } else {
        Expr::Ident(concat(id, ".0"))
    };
    let s1 = call_on(lower_dotted(sc, sp), "send", some_of(value));
    let ghost v1 = s1@;
    if broadcast {
        let out = vec1_stmt(s1);
        assert(seq![v1] + Seq::<SpecStatement>::empty() =~= seq![v1]);
        out
    } else {
        let s2 = call_on(lower_dotted(dc, dp), "receive", some_of(Expr::Ident(concat(id, ".1"))));
        let ghost v2 = s2@;
        let out = stmts2(s1, s2);
        assert(seq![v1] + seq![v2] =~= seq![v1, v2]);
        out
    }
}

fn ends_inward(id: &str, pn: &str, dc: &str, dp: &str, broadcast: bool) -> (res: Vec<Statement>)
    ensures
        stmts_view(res@) == spec_ends_inward(id@, pn@, dc@, dp@, broadcast),
{
    let lower = to_lower(pn);
    let internal = concat(lower.as_str(), "Send");
    let value = if broadcast {
        Expr::Ident("channel.0.clone()".to_string())
    } else {
        Expr::Ident(concat(id, ".0"))
    };
    let s1 = set_some(internal, value);
    let ghost v1 = s1@;
    if broadcast {
        let out = vec1_stmt(s1);
        assert(seq![v1] + Seq::<SpecStatement>::empty() =~= seq![v1]);
        out
    } else {
        let s2 = call_on(dotted(dc, dp), "receive", some_of(Expr::Ident(concat(id, ".1"))));
        let ghost v2 = s2@;
        let out = stmts2(s1, s2);
        assert(seq![v1] + seq![v2] =~= seq![v1, v2]);
        out
    }
}

impl AadlConverter {
    /// The direction of the port `port_name` (see `spec_port_direction`).
    pub fn get_port_direction(&self, port_name: &str) -> (res: PortDirection)
        ensures
            res == spec_port_direction(self.components(), port_name@),
    {
        let ghost comps = self.components();
        let mut i: usize = 0;
        proof {
            assert(comps.skip(0) =~= comps);
        }
        while i < self.component_types.len()
            invariant
                i <= self.component_types@.len(),
                comps == self.components(),
                spec_port_direction(comps.skip(i as int), port_name@) == spec_port_direction(comps, port_name@),
            decreases self.component_types@.len() - i,
        {
            proof {
                assert(comps.skip(i as int).drop_first() =~= comps.skip(i + 1));
                assert(comps.skip(i as int)[0].1 == self.component_types@[i as int].1);
            }
            if let FeatureClause::Items(features) = &self.component_types[i].1.features {
                if let Some(port) = port_in_features(features, port_name) {
                    return port.direction;
                }
            }
            i = i + 1;
        }
        PortDirection::Out
    }

    fn channel_is_broadcast(&self, conn: &PortConnection, comp_name: &str) -> (res: bool)
        ensures
            res == spec_is_broadcast(*self, *conn, comp_name@),
    {
        match &conn.source {
            PortEndpoint::SubcomponentPort { subcomponent, port } => pairs_contain(
                &self.process_broadcast_send,
                subcomponent.as_str(),
                port.as_str(),
            ),
            PortEndpoint::ComponentPort(pp) => fanout_lookup(
                &self.thread_broadcast_receive,
                pp.as_str(),
                comp_name,
            ).is_some(),
            _ => false,
        }
    }

    fn channel_decl(&self, conn: &PortConnection, broadcast: bool) -> (res: Statement)
        ensures
            res@ == spec_channel_decl(*conn, broadcast),
    {
        if broadcast {
            broadcast_channel_decl()
        } else {
            unbounded_channel_decl(conn.identifier.clone())
        }
    }

    fn channel_ends(&self, conn: &PortConnection, broadcast: bool) -> (res: Vec<Statement>)
        ensures
            stmts_view(res@) == spec_channel_ends(*self, *conn, broadcast),
    {
        let id = conn.identifier.as_str();
        match (&conn.source, &conn.destination) {
            (
                PortEndpoint::SubcomponentPort { subcomponent: src_comp, port: src_port },
                PortEndpoint::SubcomponentPort { subcomponent: dst_comp, port: dst_port },
            ) => ends_between(
                id,
                src_comp.as_str(),
                src_port.as_str(),
                dst_comp.as_str(),
                dst_port.as_str(),
                broadcast,
            ),
            (
                PortEndpoint::ComponentPort(port_name),
                PortEndpoint::SubcomponentPort { subcomponent: dst_comp, port: dst_port },
            ) => ends_inward(id, port_name.as_str(), dst_comp.as_str(), dst_port.as_str(), broadcast),
            (
                PortEndpoint::SubcomponentPort { subcomponent: src_comp, port: src_port },
                PortEndpoint::ComponentPort(port_name),
            ) => self.ends_outward(id, src_comp.as_str(), src_port.as_str(), port_name.as_str()),
            (src, dst) => {
                let mut text = concat("// TODO: Unsupported connection type: ", endpoint_debug(src).as_str());
                text.append(" -> ");
                text.append(endpoint_debug(dst).as_str());
                vec1_stmt(Statement::Expr(Expr::Ident(text)))
            },
        }
    }

    fn ends_outward(&self, id: &str, sc: &str, sp: &str, pn: &str) -> (res: Vec<Statement>)
        ensures
            stmts_view(res@) == spec_ends_outward(*self, id@, sc@, sp@, pn@),
    {
        let s1 = call_on(dotted(sc, sp), "send", some_of(Expr::Ident(concat(id, ".0"))));
        let ghost v1 = s1@;
        let lower = to_lower(pn);
        let internal = match self.get_port_direction(pn) {
            PortDirection::Out => concat(lower.as_str(), "Rece"),
            _ => concat(lower.as_str(), "Send"),
        };
        let s2 = set_some(internal, Expr::Ident(concat(id, ".1")));
        stmts2(s1, s2)
    }

    /// The code for a port connection inside the component `comp_name`
    /// (see `spec_channel_connection`).
    pub fn create_channel_connection(&self, conn: &PortConnection, comp_name: String) -> (res: Vec<
        Statement,
    >)
        ensures
            stmts_view(res@) == spec_channel_connection(*self, *conn, comp_name@),
    {
        let mut stmts: Vec<Statement> = Vec::new();
        let is_broadcast = self.channel_is_broadcast(conn, comp_name.as_str());
        let decl = self.channel_decl(conn, is_broadcast);
        let ghost dv = decl@;
        stmts.push(decl);
        proof {
            lemma_views_empty();
            assert(stmts_view(stmts@) =~= seq![dv]);
        }
        let mut ends = self.channel_ends(conn, is_broadcast);
        let ghost ends_seq = ends@;
        let ghost pre = stmts@;
        stmts.append(&mut ends);
        proof {
            lemma_stmts_view_concat(pre, ends_seq);
        }
        let ghost mid = stmts_view(stmts@);
        if is_broadcast {
            match &conn.source {
                PortEndpoint::SubcomponentPort { subcomponent, port } => {
                    match fanout_lookup(&self.process_broadcast_receive, subcomponent.as_str(), port.as_str()) {
                        Some(subs) => subscriptions(subs, &mut stmts),
                        None => {},
                    }
                },
                PortEndpoint::ComponentPort(pp) => {
                    match fanout_lookup(&self.thread_broadcast_receive, pp.as_str(), comp_name.as_str()) {
                        Some(subs) => subscriptions(subs, &mut stmts),
                        None => {},
                    }
                },
                _ => {},
            }
        }
        proof {
            assert(stmts_view(stmts@) =~= spec_channel_connection(*self, *conn, comp_name@));
        }
        stmts
    }
}


// ---------------------------------------------------------------------------
// The fields of a component type
// ---------------------------------------------------------------------------

/// The shared type a data access names: `<name>Shared`, where a
/// `.Impl` at the end of an implementation's name is left out.
pub open spec fn spec_shared_type_name(r: UniqueComponentClassifierReference) -> Seq<char> {
    match r {
        UniqueComponentClassifierReference::Implementation(ir) => {
            let base = ir.implementation_name.type_identifier@;
            match spec_strip_suffix(base, ".Impl"@) {
                Some(prefix) => prefix + "Shared"@,
                None => base + "Shared"@,
            }
        },
        UniqueComponentClassifierReference::Type(tr) => tr.implementation_name.type_identifier@ + "Shared"@,
    }
}

/// The name of the component a classifier reference names.
pub open spec fn spec_reference_name(r: UniqueComponentClassifierReference) -> Seq<char> {
    match r {
        UniqueComponentClassifierReference::Implementation(ir) => ir.implementation_name.type_identifier@,
        UniqueComponentClassifierReference::Type(tr) => tr.implementation_name.type_identifier@,
    }
}

/// The field a required data access with a classifier gives a struct:
/// one of the shared type it names.
pub open spec fn spec_access_field(da: DataAccessSpec) -> Option<SpecField> {
    if da.direction == AccessDirection::Requires {
        match da.classifier {
            Some(DataAccessReference::Classifier(r)) => Some(
                SpecField {
                    name: lowercase(da.identifier@),
                    ty: SpecType::Named(spec_shared_type_name(r)),
                    docs: seq![
                        "// AADL feature: "@ + da.identifier@ + " : requires data access "@
                            + spec_reference_name(r),
                    ],
                    attrs: Seq::empty(),
                },
            ),
            _ => None,
        }
    } else {
        None
    }
}

/// The field a feature gives a component's struct, if any: a port field
/// typed by `spec_port_type`; for a required data access with a classifier,
/// a field of its shared type.
pub open spec fn spec_feature_field(c: AadlConverter, f: Feature, comp: Seq<char>) -> Option<SpecField> {
    match f {
        Feature::Port(p) => Some(
            SpecField {
                name: lowercase(p.identifier@),
                ty: spec_port_type(c, p, comp),
                docs: seq!["// Port: "@ + p.identifier@ + " "@ + spec_direction_name(p.direction)],
                attrs: Seq::empty(),
            },
        ),
        Feature::SubcomponentAccess(SubcomponentAccessSpec::Data(da)) => spec_access_field(da),
        _ => None,
    }
}

/// The fields the features give, in order.
pub open spec fn spec_feature_fields(c: AadlConverter, fs: Seq<Feature>, comp: Seq<char>) -> Seq<SpecField>
    decreases fs.len(),
{
    if fs.len() == 0 {
        Seq::empty()
    } else {
        spec_feature_fields(c, fs.drop_last(), comp) + match spec_feature_field(c, fs.last(), comp) {
            Some(f) => seq![f],
            None => Seq::empty(),
        }
    }
}

pub open spec fn spec_clause_features(features: FeatureClause) -> Seq<Feature> {
    match features {
        FeatureClause::Items(fs) => fs@,
        _ => Seq::empty(),
    }
}

/// No port among the features would stop the conversion of its type.
pub open spec fn ports_convertible(c: AadlConverter, fs: Seq<Feature>, comp: Seq<char>) -> bool {
    forall|i: int|
        0 <= i < fs.len() ==> match #[trigger] fs[i] {
            Feature::Port(p) => !port_type_fails(c, p, comp),
            _ => true,
        }
}

fn data_access_field(da: &DataAccessSpec) -> (res: Option<Field>)
    ensures
        match spec_access_field(*da) {
            Some(f) => res is Some && res->0@ == f,
            None => res is None,
        },
{
    if da.direction != AccessDirection::Requires {
        return None;
    }
    match &da.classifier {
        Some(DataAccessReference::Classifier(r)) => {
            let (shared, name) = match r {
                UniqueComponentClassifierReference::Implementation(ir) => {
                    let base = &ir.implementation_name.type_identifier;
                    let shared = match strip_suffix_owned(base.as_str(), ".Impl") {
                        Some(prefix) => concat(prefix.as_str(), "Shared"),
                        None => concat(base.as_str(), "Shared"),
                    };
                    (shared, base.clone())
                },
                UniqueComponentClassifierReference::Type(tr) => {
                    let base = &tr.implementation_name.type_identifier;
                    (concat(base.as_str(), "Shared"), base.clone())
                },
            };
            let doc = concat3("// AADL feature: ", da.identifier.as_str(), " : requires data access ");
            let doc = concat(doc.as_str(), name.as_str());
            let mut docs: Vec<String> = Vec::new();
            docs.push(doc);
            let attrs: Vec<Attribute> = Vec::new();
            proof {
                assert(strings_view(docs@) =~= seq![docs@[0]@]);
                assert(attrs_view(attrs@) =~= Seq::<SpecAttribute>::empty());
            }
            Some(Field { name: to_lower(da.identifier.as_str()), ty: Type::Named(shared), docs, attrs })
        },
        _ => None,
    }
}

impl AadlConverter {
    /// The fields the features of component `comp_identifier` give its
    /// struct (see `spec_feature_field`).
    pub fn convert_type_features(&self, features: &FeatureClause, comp_identifier: String) -> (res: Vec<
        Field,
    >)
        requires
            ports_convertible(*self, spec_clause_features(*features), comp_identifier@),
        ensures
            fields_view(res@) == spec_feature_fields(*self, spec_clause_features(*features), comp_identifier@),
    {
        let mut fields: Vec<Field> = Vec::new();
        proof {
            assert(fields_view(fields@) =~= Seq::<SpecField>::empty());
        }
        if let FeatureClause::Items(feature_items) = features {
            let ghost fs = feature_items@;
            let mut i: usize = 0;
            proof {
                assert(fs.take(0) =~= Seq::<Feature>::empty());
            }
            while i < feature_items.len()
                invariant
                    i <= fs.len(),
                    fs == feature_items@,
                    fs == spec_clause_features(*features),
                    ports_convertible(*self, fs, comp_identifier@),
                    fields_view(fields@) == spec_feature_fields(*self, fs.take(i as int), comp_identifier@),
                decreases fs.len() - i,
            {
                proof {
                    assert(fs.take(i + 1).drop_last() =~= fs.take(i as int));
                    assert(fs.take(i + 1).last() == fs[i as int]);
                }
                let ghost before = fields_view(fields@);
                match &feature_items[i] {
                    Feature::Port(port) => {
                        assert(!port_type_fails(*self, *port, comp_identifier@));
                        let dn = direction_name(port.direction);
                        let doc = concat3("// Port: ", port.identifier.as_str(), " ");
                        let doc = concat(doc.as_str(), dn);
                        let mut docs: Vec<String> = Vec::new();
                        docs.push(doc);
                        let attrs: Vec<Attribute> = Vec::new();
                        proof {
                            assert(strings_view(docs@) =~= seq![docs@[0]@]);
                            assert(attrs_view(attrs@) =~= Seq::<SpecAttribute>::empty());
                        }
                        let f = Field {
                            name: to_lower(port.identifier.as_str()),
                            ty: self.convert_port_type(port, comp_identifier.clone()),
                            docs,
                            attrs,
                        };
                        let ghost fv = f@;
                        fields.push(f);
                        proof {
                            assert(fields_view(fields@) =~= before.push(fv));
                        }
                    },
                    Feature::SubcomponentAccess(SubcomponentAccessSpec::Data(da)) => {
                        match data_access_field(da) {
                            Some(f) => {
                                let ghost fv = f@;
                                fields.push(f);
                                proof {
                                    assert(fields_view(fields@) =~= before.push(fv));
                                }
                            },
                            None => {
                                proof {
                                    assert(before + Seq::<SpecField>::empty() =~= before);
                                }
                            },
                        }
                    },
                    _ => {
                        proof {
                            assert(before + Seq::<SpecField>::empty() =~= before);
                        }
                    },
                }
                i = i + 1;
            }
            proof {
                assert(fs.take(fs.len() as int) =~= fs);
            }
        }
        fields
    }
}


/// A copy of a list of strings.
pub fn copy_strings(v: &Vec<String>) -> (res: Vec<String>)
    ensures
        strings_view(res@) == strings_view(v@),
{
    let mut out: Vec<String> = Vec::new();
    let mut i: usize = 0;
    while i < v.len()
        invariant
            i <= v@.len(),
            strings_view(out@) == strings_view(v@).take(i as int),
        decreases v@.len() - i,
    {
        let x = v[i].clone();
        let ghost before = strings_view(out@);
        out.push(x);
        proof {
            assert(strings_view(out@) =~= before.push(v@[i as int]@));
            assert(strings_view(v@).take(i + 1) =~= strings_view(v@).take(i as int).push(v@[i as int]@));
        }
        i = i + 1;
    }
    assert(strings_view(v@).take(v@.len() as int) =~= strings_view(v@));
    out
}

/// The glob `use` items of one visibility declaration: one for each package
/// that an `import` names, none for the other declarations.
pub open spec fn spec_decl_withs(d: VisibilityDeclaration) -> Seq<SpecRustWith> {
    match d {
        VisibilityDeclaration::Import { packages, .. } => packages@.map_values(
            |p: crate::ast::aadl_ast_cj::PackageName| SpecRustWith { path: strings_view(p.0@), glob: true },
        ),
        _ => Seq::empty(),
    }
}

/// The `use` items of a list of visibility declarations, in order.
pub open spec fn spec_withs(ds: Seq<VisibilityDeclaration>) -> Seq<SpecRustWith>
    decreases ds.len(),
{
    if ds.len() == 0 {
        Seq::empty()
    } else {
        spec_withs(ds.drop_last()) + spec_decl_withs(ds.last())
    }
}

/// The views of a list of `use` items.
pub open spec fn withs_view(v: Seq<RustWith>) -> Seq<SpecRustWith> {
    v.map_values(|w: RustWith| w.view())
}

impl AadlConverter {
    /// The glob `use` items for the packages that a package imports, in the
    /// order of its visibility declarations.
    pub fn convert_withs(&self, pkg: &Package) -> (res: Vec<RustWith>)
        ensures
            withs_view(res@) == spec_withs(pkg.visibility_decls@),
    {
        let ds = &pkg.visibility_decls;
        let mut withs: Vec<RustWith> = Vec::new();
        let mut i: usize = 0;
        while i < ds.len()
            invariant
                i <= ds@.len(),
                withs_view(withs@) == spec_withs(ds@.take(i as int)),
            decreases ds@.len() - i,
        {
            proof {
                assert(ds@.take(i + 1).drop_last() =~= ds@.take(i as int));
                assert(ds@.take(i + 1).last() == ds@[i as int]);
            }
            let ghost before = withs_view(withs@);
            match &ds[i] {
                VisibilityDeclaration::Import { packages, property_sets: _ } => {
                    let mut j: usize = 0;
                    while j < packages.len()
                        invariant
                            j <= packages@.len(),
                            withs_view(withs@) == before + packages@.take(j as int).map_values(
                                |p: crate::ast::aadl_ast_cj::PackageName| SpecRustWith { path: strings_view(p.0@), glob: true },
                            ),
                        decreases packages@.len() - j,
                    {
                        let segments = copy_strings(&packages[j].0);
                        let ghost mid = withs_view(withs@);
                        let w = RustWith { path: segments, glob: true };
                        assert(w.view() == SpecRustWith { path: strings_view(packages@[j as int].0@), glob: true });
                        withs.push(w);
                        proof {
                            assert(withs_view(withs@) =~= mid.push(w.view()));
                            assert(packages@.take(j + 1).map_values(
                                |p: crate::ast::aadl_ast_cj::PackageName| SpecRustWith { path: strings_view(p.0@), glob: true },
                            ) =~= packages@.take(j as int).map_values(
                                |p: crate::ast::aadl_ast_cj::PackageName| SpecRustWith { path: strings_view(p.0@), glob: true },
                            ).push(SpecRustWith { path: strings_view(packages@[j as int].0@), glob: true }));
                            assert(withs_view(withs@) =~= before + packages@.take(j + 1).map_values(
                                |p: crate::ast::aadl_ast_cj::PackageName| SpecRustWith { path: strings_view(p.0@), glob: true },
                            ));
                        }
                        j = j + 1;
                    }
                    assert(packages@.take(packages@.len() as int) =~= packages@);
                },
                _ => {
                    assert(withs_view(withs@) =~= before + Seq::<SpecRustWith>::empty());
                },
            }
            i = i + 1;
        }
        assert(ds@.take(ds@.len() as int) =~= ds@);
        withs
    }
}

/// Whether two converter states agree on every table but the type table
/// and the data-kind table.
pub open spec fn same_but_data_tables(c: AadlConverter, d: AadlConverter) -> bool {
    &&& d.component_types == c.component_types
    &&& d.annex_converter == c.annex_converter
    &&& d.cpu_scheduling_protocols == c.cpu_scheduling_protocols
    &&& d.cpu_name_to_id_mapping == c.cpu_name_to_id_mapping
    &&& d.process_broadcast_send == c.process_broadcast_send
    &&& d.process_broadcast_receive == c.process_broadcast_receive
    &&& d.system_subcomponent_identify_to_type == c.system_subcomponent_identify_to_type
    &&& d.thread_broadcast_receive == c.thread_broadcast_receive
    &&& d.process_subcomponent_identify_to_type == c.process_subcomponent_identify_to_type
    &&& d.thread_field_values == c.thread_field_values
    &&& d.thread_field_types == c.thread_field_types
}

/// What the conversion of a component type needs of it and of the
/// converter, by category.
pub open spec fn component_convertible(c: AadlConverter, comp: ComponentType) -> bool {
    match comp.category {
        ComponentCategory::Data => crate::aadl_ast2rust_code::types::conv_data_type::spec_data_type_ok(
            type_table_view(c.type_mappings@),
            comp,
        ),
        ComponentCategory::Thread => ports_convertible(c, spec_clause_features(comp.features), comp.identifier@)
            && clause_ok(comp.properties),
        ComponentCategory::Process => ports_convertible(c, spec_clause_features(comp.features), comp.identifier@)
            && clause_ok(comp.properties),
        ComponentCategory::System => clause_ok(comp.properties),
        ComponentCategory::Device => ports_convertible(c, spec_clause_features(comp.features), comp.identifier@),
        _ => true,
    }
}

/// What converting the component type `comp` does: from the converter
/// `c` to `d`, giving `items`, by its category.
pub open spec fn component_conversion(c: AadlConverter, d: AadlConverter, comp: ComponentType, package: Package, items: Seq<crate::intermediate_ast::SpecItem>) -> bool {
    match comp.category {
        ComponentCategory::Data => {
            let r = crate::aadl_ast2rust_code::types::conv_data_type::spec_data_component(
                type_table_view(c.type_mappings@),
                pair_table_view(c.data_comp_type@),
                comp,
            );
            &&& items == r.0
            &&& type_table_view(d.type_mappings@) == r.1
            &&& pair_table_view(d.data_comp_type@) == r.2
            &&& same_but_data_tables(c, d)
        },
        ComponentCategory::Thread => {
            &&& crate::aadl_ast2rust_code::types::conv_thread_type::spec_after_thread(c, d, comp)
            &&& items == seq![
                crate::intermediate_ast::SpecItem::Struct(
                    crate::aadl_ast2rust_code::types::conv_thread_type::spec_thread_struct(c, comp),
                ),
            ]
        },
        ComponentCategory::Subprogram => {
            &&& d == c
            &&& match crate::aadl_ast2rust_code::types::conv_subprogram_type::spec_c_function_name(comp) {
                Some(f) => items == seq![
                    crate::intermediate_ast::SpecItem::Mod(
                        Box::new(crate::aadl_ast2rust_code::types::conv_subprogram_type::spec_c_wrapper_module(
                            c.types(),
                            comp,
                            f,
                            package,
                        )),
                    ),
                ],
                None => items.len() == 0,
            }
        },
        ComponentCategory::System => {
            &&& d == c
            &&& items == seq![
                crate::intermediate_ast::SpecItem::Struct(
                    crate::aadlAst2rustCode::types::conv_system_type::spec_system_struct(comp),
                ),
            ]
        },
        ComponentCategory::Process => {
            &&& d == c
            &&& items == seq![
                crate::intermediate_ast::SpecItem::Struct(
                    crate::aadl_ast2rust_code::types::conv_process_type::spec_process_struct(c, comp),
                ),
            ]
        },
        ComponentCategory::Device => {
            &&& d == c
            &&& items == seq![
                crate::intermediate_ast::SpecItem::Struct(
                    crate::aadlAst2rustCode::types::conv_device_type::spec_device_struct(c, comp),
                ),
                crate::intermediate_ast::SpecItem::Impl(
                    crate::aadlAst2rustCode::types::conv_device_type::spec_device_impl(c, comp),
                ),
            ]
        },
        _ => d == c && items.len() == 0,
    }
}

impl AadlConverter {
    /// Converts a component type by its category: data, thread, subprogram,
    /// system, process and device types each have their conversion; the
    /// others give no items.
    pub fn convert_component(&mut self, comp: &ComponentType, package: &Package) -> (res: Vec<crate::intermediate_ast::Item>)
        requires
            component_convertible(*old(self), *comp),
        ensures
            component_conversion(*old(self), *final(self), *comp, *package, crate::intermediate_ast::items_view(res@)),
    {
        match comp.category {
            ComponentCategory::Data => crate::aadl_ast2rust_code::types::conv_data_type::convert_data_component(
                &mut self.type_mappings,
                comp,
                &mut self.data_comp_type,
            ),
            ComponentCategory::Thread => crate::aadl_ast2rust_code::types::conv_thread_type::convert_thread_component(self, comp),
            ComponentCategory::Subprogram => crate::aadl_ast2rust_code::types::conv_subprogram_type::convert_subprogram_component(
                self,
                comp,
                package,
            ),
            ComponentCategory::System => crate::aadlAst2rustCode::types::conv_system_type::convert_system_component(self, comp),
            ComponentCategory::Process => crate::aadl_ast2rust_code::types::conv_process_type::convert_process_component(self, comp),
            ComponentCategory::Device => crate::aadlAst2rustCode::types::conv_device_type::convert_device_component(self, comp),
            _ => Vec::new(),
        }
    }
}

/// Whether two converter states agree on every table but that of the
/// processors' scheduling protocols.
pub open spec fn same_but_protocols(c: AadlConverter, d: AadlConverter) -> bool {
    &&& d.type_mappings == c.type_mappings
    &&& d.component_types == c.component_types
    &&& d.annex_converter == c.annex_converter
    &&& d.cpu_name_to_id_mapping == c.cpu_name_to_id_mapping
    &&& d.data_comp_type == c.data_comp_type
    &&& d.process_broadcast_send == c.process_broadcast_send
    &&& d.process_broadcast_receive == c.process_broadcast_receive
    &&& d.system_subcomponent_identify_to_type == c.system_subcomponent_identify_to_type
    &&& d.thread_broadcast_receive == c.thread_broadcast_receive
    &&& d.process_subcomponent_identify_to_type == c.process_subcomponent_identify_to_type
    &&& d.thread_field_values == c.thread_field_values
    &&& d.thread_field_types == c.thread_field_types
}

/// What the conversion of a component implementation needs, by category:
/// a thread needs a default value for the type of every value its calls
/// send (see `sends_defaults_end`) and properties whose integers can be
/// negated where their sign asks; a system
/// needs room for the new processor numbers.
pub open spec fn implementation_convertible(c: AadlConverter, impl_: ComponentImplementation) -> bool {
    match impl_.category {
        ComponentCategory::Thread => crate::aadl_ast2rust_code::implementations::conv_thread_impl::sends_defaults_end(
            c.types(),
            c.components(),
            impl_,
        ) && clause_ok(impl_.properties),
        ComponentCategory::System => crate::aadl_ast2rust_code::collector::cpu_ids_view(c.cpu_name_to_id_mapping@).len()
            + crate::aadlAst2rustCode::implementations::conv_system_impl::spec_processor_bindings(impl_).len()
            < isize::MAX,
        _ => true,
    }
}

/// What converting the component implementation `impl_` does: from the
/// converter `c` to `d`, giving `items`, by its category.
pub open spec fn implementation_conversion(c: AadlConverter, d: AadlConverter, impl_: ComponentImplementation, package: Package, ba_prelude: Seq<crate::intermediate_ast::SpecStatement>, ba_step: Seq<crate::intermediate_ast::SpecStatement>, items: Seq<crate::intermediate_ast::SpecItem>) -> bool {
    match impl_.category {
        ComponentCategory::Process => {
            &&& d == c
            &&& items == seq![
                crate::intermediate_ast::SpecItem::Struct(
                    crate::aadl_ast2rust_code::implementations::conv_process_impl::spec_process_struct(c, impl_),
                ),
                crate::intermediate_ast::SpecItem::Impl(
                    crate::aadl_ast2rust_code::implementations::conv_process_impl::spec_process_impl_block(c, impl_),
                ),
            ]
        },
        ComponentCategory::Thread => {
            &&& crate::aadl_ast2rust_code::implementations::conv_thread_run::same_but_thread_values(c, d)
            &&& d.thread_values() == crate::aadl_ast2rust_code::implementations::conv_thread_run::spec_impl_thread_values(
                c,
                impl_,
            )
            &&& items == crate::aadl_ast2rust_code::implementations::conv_thread_run::spec_thread_implementation(
                d,
                impl_,
                ba_prelude,
                ba_step,
            )
        },
        ComponentCategory::System => {
            &&& crate::aadlAst2rustCode::implementations::conv_system_impl::same_but_cpu_ids(c, d)
            &&& crate::aadl_ast2rust_code::collector::cpu_ids_view(d.cpu_name_to_id_mapping@)
                == crate::aadlAst2rustCode::implementations::conv_system_impl::spec_system_cpu_ids(
                crate::aadl_ast2rust_code::collector::cpu_ids_view(c.cpu_name_to_id_mapping@),
                impl_,
            )
            &&& items == seq![
                crate::intermediate_ast::SpecItem::Struct(
                    crate::aadlAst2rustCode::implementations::conv_system_impl::spec_system_struct(impl_),
                ),
                crate::intermediate_ast::SpecItem::Impl(
                    crate::aadlAst2rustCode::implementations::conv_system_impl::spec_system_impl_block(d, impl_),
                ),
            ]
        },
        ComponentCategory::Data => {
            &&& d == c
            &&& items == crate::aadl_ast2rust_code::implementations::conv_data_impl::spec_data_implementation(
                type_table_view(c.type_mappings@),
                pair_table_view(c.data_comp_type@),
                impl_,
                package,
            )
        },
        ComponentCategory::Processor => {
            &&& same_but_protocols(c, d)
            &&& pair_table_view(d.cpu_scheduling_protocols@) == assoc_insert(
                pair_table_view(c.cpu_scheduling_protocols@),
                impl_.name.type_identifier@,
                crate::aadl_ast2rust_code::implementations::conv_processor_impl::spec_processor_protocol(impl_),
            )
            &&& items.len() == 0
        },
        _ => d == c && items.len() == 0,
    }
}

impl AadlConverter {
    /// Converts a component implementation by its category: processes,
    /// threads, systems, data and processors each have their conversion; the
    /// others give no items. `ba_prelude` and `ba_step` are the Behavior
    /// Annex pieces for a thread implementation (empty where it has none).
    pub fn convert_implementation(
        &mut self,
        impl_: &ComponentImplementation,
        package: &Package,
        ba_prelude: Vec<Statement>,
        ba_step: Vec<Statement>,
    ) -> (res: Vec<crate::intermediate_ast::Item>)
        requires
            implementation_convertible(*old(self), *impl_),
        ensures
            implementation_conversion(
                *old(self),
                *final(self),
                *impl_,
                *package,
                stmts_view(ba_prelude@),
                stmts_view(ba_step@),
                crate::intermediate_ast::items_view(res@),
            ),
    {
        match impl_.category {
            ComponentCategory::Process => crate::aadl_ast2rust_code::implementations::conv_process_impl::convert_process_implementation(
                self,
                impl_,
            ),
            ComponentCategory::Thread => crate::aadl_ast2rust_code::implementations::conv_thread_run::convert_thread_implemenation(
                self,
                impl_,
                ba_prelude,
                ba_step,
            ),
            ComponentCategory::System => crate::aadlAst2rustCode::implementations::conv_system_impl::convert_system_implementation(
                self,
                impl_,
            ),
            ComponentCategory::Data => crate::aadl_ast2rust_code::implementations::conv_data_impl::convert_data_implementation(
                &self.type_mappings,
                &self.data_comp_type,
                impl_,
                package,
            ),
            ComponentCategory::Processor => {
                let r = crate::aadl_ast2rust_code::implementations::conv_processor_impl::convert_processor_implementation(
                    &mut self.cpu_scheduling_protocols,
                    impl_,
                );
                assert(crate::intermediate_ast::items_view(r@).len() == r@.len());
                r
            },
            _ => Vec::new(),
        }
    }
}

// ---------------------------------------------------------------------------
// Checks of what the conversions need
// ---------------------------------------------------------------------------

/// Whether following the type table from `t` ends within `fuel` steps.
pub(crate) fn default_exists(table: &Vec<(String, Type)>, t: &Type, fuel: u128) -> (res: bool)
    ensures
        res == spec_default_value(type_table_view(table@), t@, fuel as nat) is Some,
{
    let ghost types = type_table_view(table@);
    let mut cur: Type = t.clone();
    let mut f: u128 = fuel;
    loop
        invariant
            types == type_table_view(table@),
            (spec_default_value(types, cur@, f as nat) is Some) == (spec_default_value(types, t@, fuel as nat) is Some),
        decreases f,
    {
        match &cur {
            Type::Named(n) => {
                let name = n.as_str();
                if str_eq(name, "bool") || str_eq(name, "i8") || str_eq(name, "i16") || str_eq(name, "i32")
                    || str_eq(name, "i64") || str_eq(name, "i128") || str_eq(name, "isize")
                    || str_eq(name, "u8") || str_eq(name, "u16") || str_eq(name, "u32")
                    || str_eq(name, "u64") || str_eq(name, "u128") || str_eq(name, "usize")
                    || str_eq(name, "f32") || str_eq(name, "f64") || str_eq(name, "char")
                    || str_eq(name, "String") {
                    return true;
                }
                let lower = to_lower(name);
                match lookup_type(table, lower.as_str()) {
                    Some(mapped) => {
                        if f == 0 {
                            return false;
                        }
                        let next = mapped.clone();
                        f = f - 1;
                        cur = next;
                    },
                    None => {
                        return true;
                    },
                }
            },
            _ => {
                return true;
            },
        }
    }
}

/// Whether every integer property of a clause can be negated where its sign
/// asks (see `clause_ok`).
pub fn clause_ok_exec(c: &PropertyClause) -> (res: bool)
    ensures
        res == clause_ok(*c),
{
    match c {
        PropertyClause::Properties(props) => {
            let mut i: usize = 0;
            while i < props.len()
                invariant
                    i <= props@.len(),
                    *c == PropertyClause::Properties(*props),
                    forall|j: int| 0 <= j < i ==> #[trigger] property_ok(props@[j]),
                decreases props@.len() - i,
            {
                let ok = match &props[i] {
                    Property::BasicProperty(bp) => match &bp.value {
                        PropertyValue::Single(PropertyExpression::Integer(SignedIntergerOrConstant::Real(si))) => {
                            !(si.sign == Some(Sign::Minus) && si.value == i64::MIN)
                        },
                        _ => true,
                    },
                    _ => true,
                };
                if !ok {
                    assert(!property_ok(props@[i as int]));
                    assert((*c)->Properties_0@ == props@);
                    assert(!clause_ok(*c));
                    return false;
                }
                i = i + 1;
            }
            true
        },
        _ => true,
    }
}

impl AadlConverter {
    /// Whether every port among `features` can be converted for the
    /// component `comp` (see `ports_convertible`).
    pub fn ports_convertible_exec(&self, features: &FeatureClause, comp: &str) -> (res: bool)
        ensures
            res == ports_convertible(*self, spec_clause_features(*features), comp@),
    {
        match features {
            FeatureClause::Items(fs) => {
                let mut i: usize = 0;
                while i < fs.len()
                    invariant
                        i <= fs@.len(),
                        *features == FeatureClause::Items(*fs),
                        forall|j: int|
                            0 <= j < i ==> match #[trigger] fs@[j] {
                                Feature::Port(p) => !port_type_fails(*self, p, comp@),
                                _ => true,
                            },
                    decreases fs@.len() - i,
                {
                    if let Feature::Port(p) = &fs[i] {
                        let (sends, receives) = self.broadcast_flags(p.identifier.as_str(), comp);
                        let fails = comp.unicode_len() > 0 && ((sends && p.direction != PortDirection::Out) || (receives
                            && p.direction != PortDirection::In));
                        if fails {
                            assert(port_type_fails(*self, *p, comp@));
                            assert(fs@[i as int] == Feature::Port(*p));
                            return false;
                        }
                    }
                    i = i + 1;
                }
                true
            },
            _ => true,
        }
    }
}

/// A law of port fields: a port is `Option<end<T>>` where `T`, the data
/// its channel carries, is the type of its classifier for a data or an
/// event data port that has one (the same for both kinds), and `()` for an
/// event port or a port without a classifier. Outside any broadcast (no
/// component named), an in port is a `Receiver` and any other a `Sender`.
pub proof fn lemma_port_carries_classifier_type(c: AadlConverter, port: PortSpec, comp: Seq<char>)
    ensures
        spec_port_type(c, port, comp) == SpecType::Generic(
            "Option"@,
            seq![
                SpecType::Generic(
                    spec_channel_kind(c, port, comp),
                    seq![
                        match port.port_type {
                            PortType::Data { classifier: Some(cl) } => spec_classifier_to_type(c.types(), cl),
                            PortType::EventData { classifier: Some(cl) } => spec_classifier_to_type(c.types(), cl),
                            _ => SpecType::Named("()"@),
                        },
                    ],
                ),
            ],
        ),
        comp.len() == 0 ==> spec_channel_kind(c, port, comp) == if port.direction == PortDirection::In {
            "Receiver"@
        } else {
            "Sender"@
        },
{
}

/// A law of port fields: an event data port has the same type as a data
/// port with the same name, direction and classifier.
pub proof fn lemma_event_data_port_like_data_port(
    c: AadlConverter,
    port: PortSpec,
    comp: Seq<char>,
    cl: Option<PortDataTypeReference>,
)
    ensures
        spec_port_type(c, (PortSpec { port_type: PortType::EventData { classifier: cl }, ..port }), comp)
            == spec_port_type(c, (PortSpec { port_type: PortType::Data { classifier: cl }, ..port }), comp),
{
}

} // verus!
