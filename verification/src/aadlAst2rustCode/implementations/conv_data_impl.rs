//! Data implementations: a shared variable becomes an `Arc<Mutex<..>>`
//! type alias; a data type declared a struct or a union becomes one, with a
//! field per subcomponent.

use vstd::prelude::*;
use crate::aadl_ast2rust_code::converter::{
    assoc_first, lookup_type, pair_table_view, type_table_view,
};
use crate::ast::aadl_ast_cj::{
    ComponentCategory, ComponentImplementation, Subcomponent, SubcomponentClassifier,
    SubcomponentClause, UniqueComponentClassifierReference,
};
use crate::intermediate_ast::{
    attrs_view, fields_view, items_view, props_view, types_view, Attribute, Field, Item,
    SpecAttribute, SpecField, SpecItem, SpecStructDef, SpecType, SpecTypeAlias, StructDef,
    StruProperty, Type, TypeAlias, UnionDef, Visibility, lemma_views_empty,
};
use crate::text::{concat, lowercase, str_eq, strings_view, to_lower};

verus! {

// ---------------------------------------------------------------------------
// Subcomponents by category
// ---------------------------------------------------------------------------

/// The subcomponents of category `cat`, in order.
pub open spec fn spec_of_category(subs: Seq<Subcomponent>, cat: ComponentCategory) -> Seq<Subcomponent>
    decreases subs.len(),
{
    if subs.len() == 0 {
        Seq::empty()
    } else {
        spec_of_category(subs.drop_last(), cat) + if subs.last().category == cat {
            seq![subs.last()]
        } else {
            Seq::empty()
        }
    }
}

/// How many subcomponents are of category `cat`, and the index of the
/// first of them (0 where there is none).
pub fn count_category(subs: &Vec<Subcomponent>, cat: ComponentCategory) -> (res: (usize, usize))
    ensures
        res.0 == spec_of_category(subs@, cat).len(),
        res.0 > 0 ==> res.1 < subs@.len() && subs@[res.1 as int] == spec_of_category(subs@, cat)[0],
{
    let mut count: usize = 0;
    let mut first: usize = 0;
    let mut i: usize = 0;
    proof {
        assert(subs@.take(0) =~= Seq::<Subcomponent>::empty());
    }
    while i < subs.len()
        invariant
            i <= subs@.len(),
            count <= i,
            count == spec_of_category(subs@.take(i as int), cat).len(),
            count > 0 ==> first < i && subs@[first as int] == spec_of_category(
                subs@.take(i as int),
                cat,
            )[0],
        decreases subs@.len() - i,
    {
        proof {
            assert(subs@.take(i + 1).drop_last() =~= subs@.take(i as int));
            assert(subs@.take(i + 1).last() == subs@[i as int]);
        }
        if subs[i].category == cat {
            if count == 0 {
                first = i;
            }
            count = count + 1;
        }
        i = i + 1;
    }
    proof {
        assert(subs@.take(subs@.len() as int) =~= subs@);
    }
    (count, first)
}

/// The Rust type an AADL data name stands for: its entry in the type table
/// (by its name in lower case), else the name itself.
pub open spec fn spec_mapped_type(types: Seq<(Seq<char>, SpecType)>, name: Seq<char>) -> SpecType {
    match assoc_first(types, lowercase(name)) {
        Some(t) => t,
        None => SpecType::Named(name),
    }
}

/// The Rust type for `name` (see `spec_mapped_type`).
pub fn mapped_type(type_mappings: &Vec<(String, Type)>, name: &String) -> (res: Type)
    ensures
        res@ == spec_mapped_type(type_table_view(type_mappings@), name@),
{
    let key = to_lower(name.as_str());
    match lookup_type(type_mappings, key.as_str()) {
        Some(t) => t.clone(),
        None => Type::Named(name.clone()),
    }
}

// ---------------------------------------------------------------------------
// Structs and unions
// ---------------------------------------------------------------------------

/// The type of a member of a struct or union: the type the subcomponent's
/// classifier names, or its prototype's name.
pub open spec fn spec_member_type(types: Seq<(Seq<char>, SpecType)>, sub: Subcomponent) -> SpecType {
    match sub.classifier {
        SubcomponentClassifier::ClassifierReference(UniqueComponentClassifierReference::Implementation(r)) =>
            spec_mapped_type(types, r.implementation_name.type_identifier@),
        SubcomponentClassifier::ClassifierReference(UniqueComponentClassifierReference::Type(r)) =>
            spec_mapped_type(types, r.implementation_name.type_identifier@),
        SubcomponentClassifier::Prototype(p) => SpecType::Named(p@),
    }
}

/// A field per subcomponent, named as the subcomponent, with `doc` and the
/// subcomponent's name as its comment.
pub open spec fn spec_member_fields(types: Seq<(Seq<char>, SpecType)>, subs: Seq<Subcomponent>, doc: Seq<char>) -> Seq<
    SpecField,
> {
    subs.map_values(
        |sub: Subcomponent|
            SpecField {
                name: sub.identifier@,
                ty: spec_member_type(types, sub),
                docs: seq![doc + sub.identifier@],
                attrs: Seq::empty(),
            },
    )
}

fn member_fields(type_mappings: &Vec<(String, Type)>, subs: &Vec<Subcomponent>, doc: &str) -> (res: Vec<Field>)
    ensures
        fields_view(res@) == spec_member_fields(type_table_view(type_mappings@), subs@, doc@),
{
    let ghost tv = type_table_view(type_mappings@);
    let mut fields: Vec<Field> = Vec::new();
    let mut i: usize = 0;
    while i < subs.len()
        invariant
            i <= subs@.len(),
            tv == type_table_view(type_mappings@),
            fields_view(fields@) == spec_member_fields(tv, subs@.take(i as int), doc@),
        decreases subs@.len() - i,
    {
        let sub = &subs[i];
        let ty = match &sub.classifier {
            SubcomponentClassifier::ClassifierReference(UniqueComponentClassifierReference::Implementation(r)) =>
                mapped_type(type_mappings, &r.implementation_name.type_identifier),
            SubcomponentClassifier::ClassifierReference(UniqueComponentClassifierReference::Type(r)) =>
                mapped_type(type_mappings, &r.implementation_name.type_identifier),
            SubcomponentClassifier::Prototype(p) => Type::Named(p.clone()),
        };
        let mut docs: Vec<String> = Vec::new();
        docs.push(concat(doc, sub.identifier.as_str()));
        let attrs: Vec<Attribute> = Vec::new();
        proof {
            assert(strings_view(docs@) =~= seq![doc@ + sub.identifier@]);
            assert(attrs_view(attrs@) =~= Seq::<SpecAttribute>::empty());
        }
        let f = Field { name: sub.identifier.clone(), ty, docs, attrs };
        let ghost before = fields_view(fields@);
        let ghost fv = f@;
        fields.push(f);
        proof {
            assert(fields_view(fields@) =~= before.push(fv));
            assert(subs@.take(i + 1) =~= subs@.take(i as int).push(subs@[i as int]));
            assert(spec_member_fields(tv, subs@.take(i + 1), doc@) =~= spec_member_fields(
                tv,
                subs@.take(i as int),
                doc@,
            ).push(fv));
        }
        i = i + 1;
    }
    proof {
        assert(subs@.take(subs@.len() as int) =~= subs@);
    }
    fields
}

/// A public struct or union named as the implementation, deriving `Debug`
/// and `Clone`, with the given fields and comment.
pub open spec fn spec_compound(name: Seq<char>, fields: Seq<SpecField>, doc: Seq<char>) -> SpecStructDef {
    SpecStructDef {
        name,
        fields,
        properties: Seq::empty(),
        generics: Seq::empty(),
        derives: seq!["Debug"@, "Clone"@],
        docs: seq![doc + name],
        vis: Visibility::Public,
    }
}

fn debug_clone() -> (res: Vec<String>)
    ensures
        strings_view(res@) == seq!["Debug"@, "Clone"@],
{
    let mut v: Vec<String> = Vec::new();
    v.push("Debug".to_string());
    v.push("Clone".to_string());
    assert(strings_view(v@) =~= seq!["Debug"@, "Clone"@]);
    v
}

fn one_string(s: String) -> (res: Vec<String>)
    ensures
        strings_view(res@) == seq![s@],
{
    let ghost sv = s@;
    let mut v: Vec<String> = Vec::new();
    v.push(s);
    assert(strings_view(v@) =~= seq![sv]);
    v
}

/// The struct a data implementation declared a struct becomes.
pub fn determine_struct_impl(
    type_mappings: &Vec<(String, Type)>,
    impl_: &ComponentImplementation,
    subcomponents: &Vec<Subcomponent>,
) -> (res: StructDef)
    ensures
        res@ == spec_compound(
            impl_.name.type_identifier@,
            spec_member_fields(type_table_view(type_mappings@), subcomponents@, "// 子组件字段: "@),
            "// AADL Struct: "@,
        ),
{
    let props: Vec<StruProperty> = Vec::new();
    let generics: Vec<String> = Vec::new();
    proof {
        assert(props_view(props@) =~= Seq::empty());
        assert(strings_view(generics@) =~= Seq::<Seq<char>>::empty());
    }
    StructDef {
        name: impl_.name.type_identifier.clone(),
        fields: member_fields(type_mappings, subcomponents, "// 子组件字段: "),
        properties: props,
        generics,
        derives: debug_clone(),
        docs: one_string(concat("// AADL Struct: ", impl_.name.type_identifier.as_str())),
        vis: Visibility::Public,
    }
}

/// The union a data implementation declared a union becomes.
pub fn determine_union_impl(
    type_mappings: &Vec<(String, Type)>,
    impl_: &ComponentImplementation,
    subcomponents: &Vec<Subcomponent>,
) -> (res: UnionDef)
    ensures
        res@ == spec_compound(
            impl_.name.type_identifier@,
            spec_member_fields(type_table_view(type_mappings@), subcomponents@, "// 联合体字段: "@),
            "// AADL Union: "@,
        ),
{
    let props: Vec<StruProperty> = Vec::new();
    let generics: Vec<String> = Vec::new();
    proof {
        assert(props_view(props@) =~= Seq::empty());
        assert(strings_view(generics@) =~= Seq::<Seq<char>>::empty());
    }
    UnionDef {
        name: impl_.name.type_identifier.clone(),
        fields: member_fields(type_mappings, subcomponents, "// 联合体字段: "),
        properties: props,
        generics,
        derives: debug_clone(),
        docs: one_string(concat("// AADL Union: ", impl_.name.type_identifier.as_str())),
        vis: Visibility::Public,
    }
}

// ---------------------------------------------------------------------------
// The data implementation
// ---------------------------------------------------------------------------

/// `pub type <impl>Shared = Arc<Mutex<<data>>>;`
pub open spec fn spec_shared_alias(impl_name: Seq<char>, data: Seq<char>) -> SpecTypeAlias {
    SpecTypeAlias {
        name: impl_name + "Shared"@,
        target: SpecType::Generic(
            "Arc"@,
            seq![SpecType::Generic("Mutex"@, seq![SpecType::Named(data)])],
        ),
        vis: Visibility::Public,
        docs: seq![
            "// Shared data type for "@ + impl_name,
            "// Auto-generated from AADL data implementation"@,
        ],
    }
}

/// The name of the implementation a subcomponent names, `UnknownType` where
/// it names none.
pub open spec fn spec_data_impl_name(sub: Subcomponent) -> Seq<char> {
    match sub.classifier {
        SubcomponentClassifier::ClassifierReference(UniqueComponentClassifierReference::Implementation(r)) =>
            r.implementation_name.type_identifier@,
        _ => "UnknownType"@,
    }
}

/// What a data implementation becomes: with more than one subprogram it is
/// a shared variable, an alias of `Arc<Mutex<..>>` over its one data
/// subcomponent (nothing where it has several or none); otherwise, where
/// the data type was declared a struct or a union, that struct or union
/// over all its subcomponents; else nothing.
pub open spec fn spec_data_implementation(
    types: Seq<(Seq<char>, SpecType)>,
    kinds: Seq<(Seq<char>, Seq<char>)>,
    impl_: ComponentImplementation,
) -> Seq<SpecItem> {
    match impl_.subcomponents {
        SubcomponentClause::Items(subs) => {
            let name = impl_.name.type_identifier@;
            let data = spec_of_category(subs@, ComponentCategory::Data);
            if spec_of_category(subs@, ComponentCategory::Subprogram).len() > 1 {
                if data.len() == 1 {
                    seq![SpecItem::TypeAlias(spec_shared_alias(name, spec_data_impl_name(data[0])))]
                } else {
                    Seq::empty()
                }
            } else {
                match assoc_first(kinds, name) {
                    Some(k) => if k == "struct"@ {
                        seq![
                            SpecItem::Struct(
                                spec_compound(
                                    name,
                                    spec_member_fields(types, subs@, "// 子组件字段: "@),
                                    "// AADL Struct: "@,
                                ),
                            ),
                        ]
                    } else if k == "union"@ {
                        seq![
                            SpecItem::Union(
                                spec_compound(
                                    name,
                                    spec_member_fields(types, subs@, "// 联合体字段: "@),
                                    "// AADL Union: "@,
                                ),
                            ),
                        ]
                    } else {
                        Seq::empty()
                    },
                    None => Seq::empty(),
                }
            }
        },
        _ => Seq::empty(),
    }
}

fn lookup_kind<'a>(table: &'a Vec<(String, String)>, key: &str) -> (res: Option<&'a String>)
    ensures
        match assoc_first(pair_table_view(table@), key@) {
            Some(v) => res matches Some(r) && r@ == v,
            None => res is None,
        },
{
    let ghost tv = pair_table_view(table@);
    let mut i: usize = 0;
    proof {
        assert(tv.skip(0) =~= tv);
    }
    while i < table.len()
        invariant
            i <= table@.len(),
            tv == pair_table_view(table@),
            assoc_first(tv.skip(i as int), key@) == assoc_first(tv, key@),
        decreases table@.len() - i,
    {
        proof {
            assert(tv.skip(i as int).drop_first() =~= tv.skip(i + 1));
        }
        if str_eq(table[i].0.as_str(), key) {
            return Some(&table[i].1);
        }
        i = i + 1;
    }
    None
}

fn one_item(it: Item) -> (res: Vec<Item>)
    ensures
        items_view(res@) == seq![it@],
{
    let ghost iv = it@;
    let mut v: Vec<Item> = Vec::new();
    v.push(it);
    proof {
        assert(v@.drop_last() =~= Seq::<Item>::empty());
        lemma_views_empty();
        assert(items_view(v@) =~= seq![iv]);
    }
    v
}

/// A data implementation becomes a shared variable's alias, or the struct
/// or union its data type was declared (see `spec_data_implementation`).
pub fn convert_data_implementation(
    type_mappings: &Vec<(String, Type)>,
    data_comp_type: &Vec<(String, String)>,
    impl_: &ComponentImplementation,
) -> (res: Vec<Item>)
    ensures
        items_view(res@) == spec_data_implementation(
            type_table_view(type_mappings@),
            pair_table_view(data_comp_type@),
            *impl_,
        ),
{
    let mut items: Vec<Item> = Vec::new();
    proof {
        lemma_views_empty();
    }
    if let SubcomponentClause::Items(subcomponents) = &impl_.subcomponents {
        let (subprogram_count, _) = count_category(subcomponents, ComponentCategory::Subprogram);
        let (data_count, first_data) = count_category(subcomponents, ComponentCategory::Data);
        let name = &impl_.name.type_identifier;
        if subprogram_count > 1 {
            if data_count == 1 {
                let data_name = match &subcomponents[first_data].classifier {
                    SubcomponentClassifier::ClassifierReference(
                        UniqueComponentClassifierReference::Implementation(unirf),
                    ) => unirf.implementation_name.type_identifier.clone(),
                    _ => "UnknownType".to_string(),
                };
                let mut inner: Vec<Type> = Vec::new();
                inner.push(Type::Named(data_name));
                let mut outer: Vec<Type> = Vec::new();
                outer.push(Type::Generic("Mutex".to_string(), inner));
                let mut docs: Vec<String> = Vec::new();
                docs.push(concat("// Shared data type for ", name.as_str()));
                docs.push("// Auto-generated from AADL data implementation".to_string());
                proof {
                    assert(inner@.drop_last() =~= Seq::<Type>::empty());
                    assert(outer@.drop_last() =~= Seq::<Type>::empty());
                    assert(types_view(inner@) =~= seq![inner@[0]@]);
                    assert(types_view(outer@) =~= seq![outer@[0]@]);
                    assert(strings_view(docs@) =~= seq![
                        "// Shared data type for "@ + name@,
                        "// Auto-generated from AADL data implementation"@,
                    ]);
                }
                let alias = TypeAlias {
                    name: concat(name.as_str(), "Shared"),
                    target: Type::Generic("Arc".to_string(), outer),
                    vis: Visibility::Public,
                    docs,
                };
                items = one_item(Item::TypeAlias(alias));
            }
        } else {
            match lookup_kind(data_comp_type, name.as_str()) {
                Some(kind) => {
                    if str_eq(kind.as_str(), "struct") {
                        items = one_item(Item::Struct(determine_struct_impl(type_mappings, impl_, subcomponents)));
                    } else if str_eq(kind.as_str(), "union") {
                        items = one_item(Item::Union(determine_union_impl(type_mappings, impl_, subcomponents)));
                    }
                },
                None => {},
            }
        }
    }
    items
}

} // verus!
