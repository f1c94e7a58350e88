//! System component types: a struct with no fields, carrying the system's
//! properties.

use vstd::prelude::*;
use crate::aadl_ast2rust_code::converter::{
    clause_ok, component_properties, spec_convert_clause, AadlConverter,
};
use crate::ast::aadl_ast_cj::{ComponentRef, ComponentType};
use crate::intermediate_ast::{
    fields_view, items_view, props_view, Field, Item, SpecField, SpecItem, SpecStructDef,
    StructDef, Visibility,
};
use crate::text::{concat, lowercase, strings_view, to_lower};

verus! {

/// `pub struct <system in lower case>System`, with no field, the system's
/// properties, and a `Debug` derive.
pub open spec fn spec_system_struct(comp: ComponentType) -> SpecStructDef {
    SpecStructDef {
        name: lowercase(comp.identifier@) + "System"@,
        fields: Seq::empty(),
        properties: spec_convert_clause(comp.properties),
        generics: Seq::empty(),
        derives: seq!["Debug"@],
        docs: seq!["// AADL System: "@ + comp.identifier@],
        vis: Visibility::Public,
    }
}

/// A system component type becomes its struct.
pub fn convert_system_component(temp_converter: &AadlConverter, comp: &ComponentType) -> (res: Vec<Item>)
    requires
        clause_ok(comp.properties),
    ensures
        items_view(res@) == seq![SpecItem::Struct(spec_system_struct(*comp))],
{
    let fields: Vec<Field> = Vec::new();
    assert(fields_view(fields@) =~= Seq::<SpecField>::empty());
    let generics: Vec<String> = Vec::new();
    assert(strings_view(generics@) =~= Seq::<Seq<char>>::empty());
    let mut derives: Vec<String> = Vec::new();
    derives.push("Debug".to_string());
    let mut docs: Vec<String> = Vec::new();
    docs.push(concat("// AADL System: ", comp.identifier.as_str()));
    proof {
        assert(strings_view(derives@) =~= seq!["Debug"@]);
        assert(strings_view(docs@) =~= seq!["// AADL System: "@ + comp.identifier@]);
        assert(component_properties(ComponentRef::Type(comp)) == comp.properties);
    }
    let lower = to_lower(comp.identifier.as_str());
    let sd = StructDef {
        name: concat(lower.as_str(), "System"),
        fields,
        properties: temp_converter.convert_properties(ComponentRef::Type(comp)),
        generics,
        derives,
        docs,
        vis: Visibility::Public,
    };
    let ghost sv = sd@;
    let mut items: Vec<Item> = Vec::new();
    items.push(Item::Struct(sd));
    proof {
        assert(items_view(items@) == items_view(items@.drop_last()).push(items@.last()@));
        assert(items@.drop_last() =~= Seq::<Item>::empty());
        assert(items_view(items@) =~= seq![SpecItem::Struct(sv)]);
    }
    items
}

} // verus!
