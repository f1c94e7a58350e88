//! Process component types: a struct with the process's feature fields and
//! its processor number.

use vstd::prelude::*;
use crate::aadl_ast2rust_code::converter::{
    clause_ok, component_properties, ports_convertible, spec_category_name, spec_clause_features,
    spec_convert_clause, spec_feature_fields, AadlConverter,
};
use crate::ast::aadl_ast_cj::{ComponentRef, ComponentType};
use crate::intermediate_ast::{
    attrs_view, fields_view, items_view, lemma_views_empty, mk_named, Attribute, Field, Item,
    SpecAttribute, SpecField, SpecItem, SpecStructDef, SpecType, StructDef, Visibility,
};
use crate::text::{concat, lowercase, strings_view, to_lower};

verus! {

broadcast use crate::intermediate_ast::group_view_laws;

/// `pub struct <process in lower case>Process` with the feature fields,
/// `cpu_id: isize`, and the process's properties.
pub open spec fn spec_process_struct(c: AadlConverter, comp: ComponentType) -> SpecStructDef {
    SpecStructDef {
        name: lowercase(comp.identifier@) + "Process"@,
        fields: spec_feature_fields(c, spec_clause_features(comp.features), comp.identifier@).push(
            SpecField {
                name: "cpu_id"@,
                ty: SpecType::Named("isize"@),
                docs: seq!["// 进程 CPU ID"@],
                attrs: Seq::empty(),
            },
        ),
        properties: spec_convert_clause(comp.properties),
        generics: Seq::empty(),
        derives: seq!["Debug"@],
        docs: seq![
            "// AADL "@ + spec_category_name(comp.category) + ": "@ + lowercase(comp.identifier@),
        ],
        vis: Visibility::Public,
    }
}

/// A process component type becomes its struct.
pub fn convert_process_component(temp_converter: &AadlConverter, comp: &ComponentType) -> (res: Vec<Item>)
    requires
        ports_convertible(*temp_converter, spec_clause_features(comp.features), comp.identifier@),
        clause_ok(comp.properties),
    ensures
        items_view(res@) == seq![SpecItem::Struct(spec_process_struct(*temp_converter, *comp))],
{
    let mut fields = temp_converter.convert_type_features(&comp.features, comp.identifier.clone());
    let mut docs: Vec<String> = Vec::new();
    docs.push("// 进程 CPU ID".to_string());
    let attrs: Vec<Attribute> = Vec::new();
    proof {
        assert(strings_view(docs@) =~= seq!["// 进程 CPU ID"@]);
        assert(attrs_view(attrs@) =~= Seq::<SpecAttribute>::empty());
    }
    let cpu = Field { name: "cpu_id".to_string(), ty: mk_named("isize"), docs, attrs };
    let ghost (fv, cv) = (fields_view(fields@), cpu@);
    fields.push(cpu);
    assert(fields_view(fields@) =~= fv.push(cv));
    let mut derives: Vec<String> = Vec::new();
    derives.push("Debug".to_string());
    let generics: Vec<String> = Vec::new();
    proof {
        assert(strings_view(derives@) =~= seq!["Debug"@]);
        assert(strings_view(generics@) =~= Seq::<Seq<char>>::empty());
        assert(component_properties(ComponentRef::Type(comp)) == comp.properties);
    }
    let lower = to_lower(comp.identifier.as_str());
    let sd = StructDef {
        name: concat(lower.as_str(), "Process"),
        fields,
        properties: temp_converter.convert_properties(ComponentRef::Type(comp)),
        generics,
        derives,
        docs: temp_converter.create_component_type_docs(comp),
        vis: Visibility::Public,
    };
    let ghost sv = sd@;
    let mut items: Vec<Item> = Vec::new();
    items.push(Item::Struct(sd));
    proof {
        lemma_views_empty();
        assert(items@.drop_last() =~= Seq::<Item>::empty());
        assert(items_view(items@) =~= seq![SpecItem::Struct(sv)]);
    }
    items
}

} // verus!
