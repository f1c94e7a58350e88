//! Thread component types: a struct with the thread's feature fields, a
//! field per property, and its processor number; the converter records the
//! values and types those fields start with.

use vstd::prelude::*;
use crate::aadl_ast2rust_code::converter::{
    assoc_insert, clause_ok, nested_types_view, nested_values_view, ports_convertible, property_ok,
    put_thread_types, put_thread_values, put_type, put_value, spec_category_name,
    spec_clause_features, spec_feature_fields, spec_parse_property_value, spec_type_for_property,
    type_table_view, value_table_view, AadlConverter,
};
use crate::ast::aadl_ast_cj::{ComponentType, Property, PropertyClause};
use crate::intermediate_ast::{
    attrs_view, fields_view, items_view, mk_named, props_view, Attribute, Field, Item, SpecAttribute,
    SpecField, SpecItem, SpecPropertyValue, SpecStructDef, SpecType, StructDef, StruProperty,
    StruPropertyValue, Type, Visibility,
};
use crate::text::{
    concat, lowercase, spec_strip_suffix, strings_view, strip_suffix_owned, to_lower,
};

verus! {

broadcast use crate::intermediate_ast::group_view_laws;

/// The value a feature field starts with: the field's own name for a
/// shared variable (a type whose name ends in `Shared`), else none.
pub open spec fn spec_feature_value(f: SpecField) -> SpecPropertyValue {
    match f.ty {
        SpecType::Named(n) => if spec_strip_suffix(n, "Shared"@) is Some {
            SpecPropertyValue::Custom(f.name)
        } else {
            SpecPropertyValue::NoValue
        },
        _ => SpecPropertyValue::NoValue,
    }
}

/// The start values of the feature fields, put in `vm` in order.
pub open spec fn spec_feature_values(
    vm: Seq<(Seq<char>, SpecPropertyValue)>,
    fields: Seq<SpecField>,
) -> Seq<(Seq<char>, SpecPropertyValue)>
    decreases fields.len(),
{
    if fields.len() == 0 {
        vm
    } else {
        assoc_insert(spec_feature_values(vm, fields.drop_last()), fields.last().name, spec_feature_value(fields.last()))
    }
}

/// The types of the feature fields, put in `tm` in order.
pub open spec fn spec_feature_types(tm: Seq<(Seq<char>, SpecType)>, fields: Seq<SpecField>) -> Seq<
    (Seq<char>, SpecType),
>
    decreases fields.len(),
{
    if fields.len() == 0 {
        tm
    } else {
        assoc_insert(spec_feature_types(tm, fields.drop_last()), fields.last().name, fields.last().ty)
    }
}

/// A field per basic property whose value the converter reads: its name
/// in lower case, of the type of its value.
pub open spec fn spec_property_fields(props: Seq<Property>) -> Seq<SpecField>
    decreases props.len(),
{
    if props.len() == 0 {
        Seq::empty()
    } else {
        spec_property_fields(props.drop_last()) + match props.last() {
            Property::BasicProperty(bp) => match spec_parse_property_value(bp.value) {
                Some(v) => seq![
                    SpecField {
                        name: lowercase(bp.identifier.name@),
                        ty: SpecType::Named(spec_type_for_property(v)),
                        docs: seq!["// AADL属性: "@ + bp.identifier.name@],
                        attrs: Seq::empty(),
                    },
                ],
                None => Seq::empty(),
            },
            _ => Seq::empty(),
        }
    }
}

/// The property values, put in `vm` in order under the properties' names
/// in lower case.
pub open spec fn spec_property_values(vm: Seq<(Seq<char>, SpecPropertyValue)>, props: Seq<Property>) -> Seq<
    (Seq<char>, SpecPropertyValue),
>
    decreases props.len(),
{
    if props.len() == 0 {
        vm
    } else {
        let before = spec_property_values(vm, props.drop_last());
        match props.last() {
            Property::BasicProperty(bp) => match spec_parse_property_value(bp.value) {
                Some(v) => assoc_insert(before, lowercase(bp.identifier.name@), v),
                None => before,
            },
            _ => before,
        }
    }
}

pub open spec fn spec_clause_props(c: PropertyClause) -> Seq<Property> {
    match c {
        PropertyClause::Properties(ps) => ps@,
        _ => Seq::empty(),
    }
}

/// `<thread in lower case>Thread`
pub open spec fn spec_thread_name(comp: ComponentType) -> Seq<char> {
    lowercase(comp.identifier@) + "Thread"@
}

/// The struct of a thread type: its feature fields, its property fields,
/// and `cpu_id: isize`.
pub open spec fn spec_thread_struct(c: AadlConverter, comp: ComponentType) -> SpecStructDef {
    SpecStructDef {
        name: spec_thread_name(comp),
        fields: spec_feature_fields(c, spec_clause_features(comp.features), comp.identifier@)
            + spec_property_fields(spec_clause_props(comp.properties)) + seq![
            SpecField {
                name: "cpu_id"@,
                ty: SpecType::Named("isize"@),
                docs: seq!["// 结构体新增 CPU ID"@],
                attrs: Seq::empty(),
            },
        ],
        properties: Seq::empty(),
        generics: Seq::empty(),
        derives: seq!["Debug"@],
        docs: seq![
            "// AADL "@ + spec_category_name(comp.category) + ": "@ + lowercase(comp.identifier@),
        ],
        vis: Visibility::Public,
    }
}

/// The start values a thread type records: those of its feature fields,
/// then its property values.
pub open spec fn spec_thread_values(c: AadlConverter, comp: ComponentType) -> Seq<(Seq<char>, SpecPropertyValue)> {
    spec_property_values(
        spec_feature_values(
            Seq::empty(),
            spec_feature_fields(c, spec_clause_features(comp.features), comp.identifier@),
        ),
        spec_clause_props(comp.properties),
    )
}

/// The field types a thread type records: those of its feature fields.
pub open spec fn spec_thread_types(c: AadlConverter, comp: ComponentType) -> Seq<(Seq<char>, SpecType)> {
    spec_feature_types(
        Seq::empty(),
        spec_feature_fields(c, spec_clause_features(comp.features), comp.identifier@),
    )
}

/// The converter after a thread type: its tables of thread field values
/// and types hold the thread's, where it has any.
pub open spec fn spec_after_thread(c: AadlConverter, d: AadlConverter, comp: ComponentType) -> bool {
    let vm = spec_thread_values(c, comp);
    let tm = spec_thread_types(c, comp);
    &&& d.thread_values() == if vm.len() > 0 {
        assoc_insert(c.thread_values(), spec_thread_name(comp), vm)
    } else {
        c.thread_values()
    }
    &&& d.thread_types() == if tm.len() > 0 {
        assoc_insert(c.thread_types(), spec_thread_name(comp), tm)
    } else {
        c.thread_types()
    }
    &&& d.type_mappings == c.type_mappings
    &&& d.component_types == c.component_types
    &&& d.annex_converter == c.annex_converter
    &&& d.cpu_scheduling_protocols == c.cpu_scheduling_protocols
    &&& d.cpu_name_to_id_mapping == c.cpu_name_to_id_mapping
    &&& d.data_comp_type == c.data_comp_type
    &&& d.process_broadcast_send == c.process_broadcast_send
    &&& d.process_broadcast_receive == c.process_broadcast_receive
    &&& d.system_subcomponent_identify_to_type == c.system_subcomponent_identify_to_type
    &&& d.thread_broadcast_receive == c.thread_broadcast_receive
    &&& d.process_subcomponent_identify_to_type == c.process_subcomponent_identify_to_type
}

fn feature_tables(fields: &Vec<Field>) -> (res: (Vec<(String, StruPropertyValue)>, Vec<(String, Type)>))
    ensures
        value_table_view(res.0@) == spec_feature_values(Seq::empty(), fields_view(fields@)),
        type_table_view(res.1@) == spec_feature_types(Seq::empty(), fields_view(fields@)),
{
    let ghost fv = fields_view(fields@);
    let mut vm: Vec<(String, StruPropertyValue)> = Vec::new();
    let mut tm: Vec<(String, Type)> = Vec::new();
    let mut i: usize = 0;
    proof {
        assert(fv.take(0) =~= Seq::<SpecField>::empty());
        assert(value_table_view(vm@) =~= Seq::<(Seq<char>, SpecPropertyValue)>::empty());
        assert(type_table_view(tm@) =~= Seq::<(Seq<char>, SpecType)>::empty());
    }
    while i < fields.len()
        invariant
            i <= fields@.len(),
            fv == fields_view(fields@),
            value_table_view(vm@) == spec_feature_values(Seq::empty(), fv.take(i as int)),
            type_table_view(tm@) == spec_feature_types(Seq::empty(), fv.take(i as int)),
        decreases fields@.len() - i,
    {
        proof {
            assert(fv.take(i + 1).drop_last() =~= fv.take(i as int));
            assert(fv.take(i + 1).last() == fv[i as int]);
        }
        let f = &fields[i];
        let value = match &f.ty {
            Type::Named(n) => if strip_suffix_owned(n.as_str(), "Shared").is_some() {
                StruPropertyValue::Custom(f.name.clone())
            } else {
                StruPropertyValue::NoValue
            },
            _ => StruPropertyValue::NoValue,
        };
        put_value(&mut vm, f.name.clone(), value);
        put_type(&mut tm, f.name.clone(), f.ty.clone());
        i = i + 1;
    }
    proof {
        assert(fv.take(fields@.len() as int) =~= fv);
    }
    (vm, tm)
}

/// A thread component type becomes its struct; the converter records the
/// values and types its fields start with (see `spec_after_thread`).
pub fn convert_thread_component(temp_converter: &mut AadlConverter, comp: &ComponentType) -> (res: Vec<Item>)
    requires
        ports_convertible(*old(temp_converter), spec_clause_features(comp.features), comp.identifier@),
        clause_ok(comp.properties),
    ensures
        spec_after_thread(*old(temp_converter), *final(temp_converter), *comp),
        items_view(res@) == seq![SpecItem::Struct(spec_thread_struct(*old(temp_converter), *comp))],
{
    let ghost c0 = *temp_converter;
    let mut fields = temp_converter.convert_type_features(&comp.features, comp.identifier.clone());
    let (mut vm, tm) = feature_tables(&fields);
    let ghost head = fields_view(fields@);
    let ghost vm0 = value_table_view(vm@);
    if let PropertyClause::Properties(props) = &comp.properties {
        let mut i: usize = 0;
        proof {
            assert(props@.take(0) =~= Seq::<Property>::empty());
            assert(head + Seq::<SpecField>::empty() =~= head);
        }
        while i < props.len()
            invariant
                i <= props@.len(),
                forall|k: int| 0 <= k < props@.len() ==> #[trigger] property_ok(props@[k]),
                fields_view(fields@) == head + spec_property_fields(props@.take(i as int)),
                value_table_view(vm@) == spec_property_values(vm0, props@.take(i as int)),
            decreases props@.len() - i,
        {
            proof {
                assert(props@.take(i + 1).drop_last() =~= props@.take(i as int));
                assert(props@.take(i + 1).last() == props@[i as int]);
                assert(property_ok(props@[i as int]));
            }
            let ghost before = fields_view(fields@);
            let mut pushed = false;
            if let Property::BasicProperty(bp) = &props[i] {
                match temp_converter.parse_property_value(&bp.value) {
                    Some(val) => {
                        let name_lc = to_lower(bp.identifier.name.as_str());
                        let ty_name = temp_converter.type_for_property(&val);
                        let mut docs: Vec<String> = Vec::new();
                        docs.push(concat("// AADL属性: ", bp.identifier.name.as_str()));
                        let attrs: Vec<Attribute> = Vec::new();
                        proof {
                            assert(strings_view(docs@) =~= seq!["// AADL属性: "@ + bp.identifier.name@]);
                            assert(attrs_view(attrs@) =~= Seq::<SpecAttribute>::empty());
                        }
                        let f = Field { name: name_lc.clone(), ty: Type::Named(ty_name), docs, attrs };
                        let ghost fv = f@;
                        fields.push(f);
                        pushed = true;
                        assert(fields_view(fields@) =~= before + seq![fv]);
                        put_value(&mut vm, name_lc, val);
                    },
                    None => {},
                }
            }
            if !pushed {
                assert(before + Seq::<SpecField>::empty() =~= before);
            }
            i = i + 1;
        }
        proof {
            assert(props@.take(props@.len() as int) =~= props@);
        }
    } else {
        assert(head + Seq::<SpecField>::empty() =~= head);
    }
    let mut docs: Vec<String> = Vec::new();
    docs.push("// 结构体新增 CPU ID".to_string());
    let attrs: Vec<Attribute> = Vec::new();
    proof {
        assert(strings_view(docs@) =~= seq!["// 结构体新增 CPU ID"@]);
        assert(attrs_view(attrs@) =~= Seq::<SpecAttribute>::empty());
    }
    let cpu = Field { name: "cpu_id".to_string(), ty: mk_named("isize"), docs, attrs };
    let ghost (fb, cv) = (fields_view(fields@), cpu@);
    fields.push(cpu);
    assert(fields_view(fields@) =~= fb + seq![cv]);
    let lower = to_lower(comp.identifier.as_str());
    let struct_name = concat(lower.as_str(), "Thread");
    if vm.len() > 0 {
        put_thread_values(&mut temp_converter.thread_field_values, struct_name.clone(), vm);
    }
    if tm.len() > 0 {
        put_thread_types(&mut temp_converter.thread_field_types, struct_name.clone(), tm);
    }
    let mut derives: Vec<String> = Vec::new();
    derives.push("Debug".to_string());
    let generics: Vec<String> = Vec::new();
    let props_out: Vec<StruProperty> = Vec::new();
    proof {
        assert(strings_view(derives@) =~= seq!["Debug"@]);
        assert(strings_view(generics@) =~= Seq::<Seq<char>>::empty());
        assert(props_view(props_out@) =~= Seq::empty());
    }
    let sd = StructDef {
        name: struct_name,
        fields,
        properties: props_out,
        generics,
        derives,
        docs: temp_converter.create_component_type_docs(comp),
        vis: Visibility::Public,
    };
    let ghost sv = sd@;
    let mut items: Vec<Item> = Vec::new();
    items.push(Item::Struct(sd));
    proof {
        assert(items_view(items@) =~= seq![SpecItem::Struct(sv)]);
    }
    items
}

} // verus!
