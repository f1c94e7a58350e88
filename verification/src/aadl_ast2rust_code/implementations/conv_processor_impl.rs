//! Processor implementations generate no code: the converter records each
//! processor's scheduling protocol.

use vstd::prelude::*;
use crate::aadl_ast2rust_code::converter::{assoc_insert, insert_pair, pair_table_view};
use crate::ast::aadl_ast_cj::{
    ComponentImplementation, Property, PropertyClause, PropertyExpression, PropertyValue, StringTerm,
};
use crate::intermediate_ast::{items_view, lemma_views_empty, Item, SpecItem};
use crate::text::{lowercase, str_eq, to_lower};

verus! {

/// The scheduling protocol of a processor: the literal of its first
/// `Scheduling_Protocol` property (the name in any case) that holds one
/// string, `FIFO` where none does.
pub open spec fn spec_protocol_of(props: Seq<Property>) -> Seq<char>
    decreases props.len(),
{
    if props.len() == 0 {
        "FIFO"@
    } else {
        match props[0] {
            Property::BasicProperty(bp) => if lowercase(bp.identifier.name@) == "scheduling_protocol"@ {
                match bp.value {
                    PropertyValue::Single(PropertyExpression::String(StringTerm::Literal(p))) => p@,
                    _ => spec_protocol_of(props.drop_first()),
                }
            } else {
                spec_protocol_of(props.drop_first())
            },
            _ => spec_protocol_of(props.drop_first()),
        }
    }
}

pub open spec fn spec_processor_protocol(impl_: ComponentImplementation) -> Seq<char> {
    match impl_.properties {
        PropertyClause::Properties(props) => spec_protocol_of(props@),
        _ => "FIFO"@,
    }
}

fn processor_protocol(impl_: &ComponentImplementation) -> (res: String)
    ensures
        res@ == spec_processor_protocol(*impl_),
{
    if let PropertyClause::Properties(props) = &impl_.properties {
        let mut i: usize = 0;
        proof {
            assert(props@.skip(0) =~= props@);
        }
        while i < props.len()
            invariant
                i <= props@.len(),
                spec_processor_protocol(*impl_) == spec_protocol_of(props@),
                spec_protocol_of(props@) == spec_protocol_of(props@.skip(i as int)),
            decreases props@.len() - i,
        {
            proof {
                assert(props@.skip(i as int).drop_first() =~= props@.skip(i + 1));
                assert(props@.skip(i as int)[0] == props@[i as int]);
            }
            if let Property::BasicProperty(bp) = &props[i] {
                let name = to_lower(bp.identifier.name.as_str());
                if str_eq(name.as_str(), "scheduling_protocol") {
                    if let PropertyValue::Single(PropertyExpression::String(StringTerm::Literal(p))) = &bp.value {
                        return p.clone();
                    }
                }
            }
            i = i + 1;
        }
    }
    "FIFO".to_string()
}

/// A processor implementation generates nothing; its scheduling protocol
/// (see `spec_processor_protocol`) is put in the table of protocols under
/// its name.
pub fn convert_processor_implementation(
    cpu_scheduling_protocols: &mut Vec<(String, String)>,
    impl_: &ComponentImplementation,
) -> (res: Vec<Item>)
    ensures
        items_view(res@) == Seq::<SpecItem>::empty(),
        pair_table_view(final(cpu_scheduling_protocols)@) == assoc_insert(
            pair_table_view(old(cpu_scheduling_protocols)@),
            impl_.name.type_identifier@,
            spec_processor_protocol(*impl_),
        ),
{
    let protocol = processor_protocol(impl_);
    insert_pair(cpu_scheduling_protocols, impl_.name.type_identifier.clone(), protocol);
    proof {
        lemma_views_empty();
    }
    Vec::new()
}

} // verus!
