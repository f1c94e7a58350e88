//! Data component types: what the `Data_Model` properties make of a data
//! type (an alias of a Rust type, an array, a struct, a union, an enum or a
//! tagged union), and the converter's type table that records it.

use vstd::prelude::*;
use crate::aadl_ast2rust_code::converter::{
    assoc_first, assoc_insert, insert_pair, lookup_type, pair_table_view, type_table_view,
};
use crate::aadlAst2rustCode::implementations::conv_data_impl::spec_compound;
use crate::aadlAst2rustCode::implementations::conv_data_impl::{mapped_type, spec_mapped_type};
use crate::aadl_ast2rust_code::implementations::conv_data_impl::{capitalized, spec_capitalized};
use crate::ast::aadl_ast_cj::{
    BasicPropertyAssociation, ComponentClassifierTerm, ComponentType, Property, PropertyClause,
    PropertyExpression, PropertyListElement, PropertyValue, SignedIntergerOrConstant, StringTerm,
    UniqueComponentClassifierReference,
};
use crate::intermediate_ast::{
    attrs_view, fields_view, items_view, lemma_views_empty, mk_named, props_view, types_view,
    variants_view, Attribute, EnumDef, Field, Item, SpecAttribute, SpecEnumDef, SpecField, SpecItem,
    SpecStructDef, SpecType, SpecTypeAlias, SpecVariant, StructDef, StruProperty, Type, TypeAlias,
    UnionDef, Variant, Visibility,
};
use crate::text::{concat, lowercase, str_eq, strings_view, to_lower};

verus! {

// ---------------------------------------------------------------------------
// Reading the properties
// ---------------------------------------------------------------------------

/// A property `Data_Model::<name>` (set and name in any case; `name` is
/// given in lower case).
pub open spec fn spec_is_data_model(bp: BasicPropertyAssociation, name: Seq<char>) -> bool {
    bp.identifier.property_set matches Some(ps) && lowercase(ps@) == "data_model"@ && lowercase(
        bp.identifier.name@,
    ) == name
}

fn is_data_model(bp: &BasicPropertyAssociation, name: &str) -> (res: bool)
    ensures
        res == spec_is_data_model(*bp, name@),
{
    match &bp.identifier.property_set {
        Some(ps) => {
            let l = to_lower(ps.as_str());
            if !str_eq(l.as_str(), "data_model") {
                return false;
            }
            let n = to_lower(bp.identifier.name.as_str());
            str_eq(n.as_str(), name)
        },
        None => false,
    }
}

/// The string literals of a property list, in order.
pub open spec fn spec_list_strings(l: Seq<PropertyListElement>) -> Seq<Seq<char>>
    decreases l.len(),
{
    if l.len() == 0 {
        Seq::empty()
    } else {
        spec_list_strings(l.drop_last()) + match l.last() {
            PropertyListElement::Value(PropertyExpression::String(StringTerm::Literal(s))) => seq![s@],
            _ => Seq::empty(),
        }
    }
}

/// The names of the component types a property list classifies by, in
/// order (an empty name for an implementation).
pub open spec fn spec_list_classifiers(l: Seq<PropertyListElement>) -> Seq<Seq<char>>
    decreases l.len(),
{
    if l.len() == 0 {
        Seq::empty()
    } else {
        spec_list_classifiers(l.drop_last()) + match l.last() {
            PropertyListElement::Value(PropertyExpression::ComponentClassifier(t)) => match t.unique_component_classifier_reference {
                UniqueComponentClassifierReference::Type(r) => seq![r.implementation_name.type_identifier@],
                UniqueComponentClassifierReference::Implementation(_) => seq![Seq::<char>::empty()],
            },
            _ => Seq::empty(),
        }
    }
}

fn list_strings(l: &Vec<PropertyListElement>, out: &mut Vec<String>)
    ensures
        strings_view(final(out)@) == strings_view(old(out)@) + spec_list_strings(l@),
{
    let ghost start = strings_view(out@);
    let mut i: usize = 0;
    proof {
        assert(l@.take(0) =~= Seq::<PropertyListElement>::empty());
        assert(start + Seq::<Seq<char>>::empty() =~= start);
    }
    while i < l.len()
        invariant
            i <= l@.len(),
            strings_view(out@) == start + spec_list_strings(l@.take(i as int)),
        decreases l@.len() - i,
    {
        proof {
            assert(l@.take(i + 1).drop_last() =~= l@.take(i as int));
            assert(l@.take(i + 1).last() == l@[i as int]);
        }
        let ghost before = strings_view(out@);
        if let PropertyListElement::Value(PropertyExpression::String(StringTerm::Literal(s))) = &l[i] {
            out.push(s.clone());
            assert(strings_view(out@) =~= before + seq![s@]);
        } else {
            assert(before + Seq::<Seq<char>>::empty() =~= before);
        }
        i = i + 1;
    }
    proof {
        assert(l@.take(l@.len() as int) =~= l@);
    }
}

fn list_classifiers(l: &Vec<PropertyListElement>, out: &mut Vec<String>)
    ensures
        strings_view(final(out)@) == strings_view(old(out)@) + spec_list_classifiers(l@),
{
    let ghost start = strings_view(out@);
    let mut i: usize = 0;
    proof {
        assert(l@.take(0) =~= Seq::<PropertyListElement>::empty());
        assert(start + Seq::<Seq<char>>::empty() =~= start);
    }
    while i < l.len()
        invariant
            i <= l@.len(),
            strings_view(out@) == start + spec_list_classifiers(l@.take(i as int)),
        decreases l@.len() - i,
    {
        proof {
            assert(l@.take(i + 1).drop_last() =~= l@.take(i as int));
            assert(l@.take(i + 1).last() == l@[i as int]);
        }
        let ghost before = strings_view(out@);
        if let PropertyListElement::Value(PropertyExpression::ComponentClassifier(t)) = &l[i] {
            let name = match &t.unique_component_classifier_reference {
                UniqueComponentClassifierReference::Type(r) => r.implementation_name.type_identifier.clone(),
                UniqueComponentClassifierReference::Implementation(_) => String::new(),
            };
            let ghost nv = name@;
            out.push(name);
            assert(strings_view(out@) =~= before + seq![nv]);
        } else {
            assert(before + Seq::<Seq<char>>::empty() =~= before);
        }
        i = i + 1;
    }
    proof {
        assert(l@.take(l@.len() as int) =~= l@);
    }
}

/// The strings that the `Data_Model::<name>` list properties hold, in
/// order; with `classifiers`, the names of the types they classify by.
pub open spec fn spec_model_list(props: Seq<Property>, name: Seq<char>, classifiers: bool) -> Seq<Seq<char>>
    decreases props.len(),
{
    if props.len() == 0 {
        Seq::empty()
    } else {
        spec_model_list(props.drop_last(), name, classifiers) + match props.last() {
            Property::BasicProperty(bp) => if spec_is_data_model(bp, name) {
                match bp.value {
                    PropertyValue::List(l) => if classifiers {
                        spec_list_classifiers(l@)
                    } else {
                        spec_list_strings(l@)
                    },
                    _ => Seq::empty(),
                }
            } else {
                Seq::empty()
            },
            _ => Seq::empty(),
        }
    }
}

fn model_list(props: &Vec<Property>, name: &str, classifiers: bool) -> (res: Vec<String>)
    ensures
        strings_view(res@) == spec_model_list(props@, name@, classifiers),
{
    let mut out: Vec<String> = Vec::new();
    let mut i: usize = 0;
    proof {
        assert(props@.take(0) =~= Seq::<Property>::empty());
        assert(strings_view(out@) =~= Seq::<Seq<char>>::empty());
    }
    while i < props.len()
        invariant
            i <= props@.len(),
            strings_view(out@) == spec_model_list(props@.take(i as int), name@, classifiers),
        decreases props@.len() - i,
    {
        proof {
            assert(props@.take(i + 1).drop_last() =~= props@.take(i as int));
            assert(props@.take(i + 1).last() == props@[i as int]);
        }
        let ghost before = strings_view(out@);
        let mut read = false;
        if let Property::BasicProperty(bp) = &props[i] {
            if is_data_model(bp, name) {
                if let PropertyValue::List(l) = &bp.value {
                    if classifiers {
                        list_classifiers(l, &mut out);
                    } else {
                        list_strings(l, &mut out);
                    }
                    read = true;
                }
            }
        }
        if !read {
            assert(before + Seq::<Seq<char>>::empty() =~= before);
        }
        i = i + 1;
    }
    proof {
        assert(props@.take(props@.len() as int) =~= props@);
    }
    out
}

// ---------------------------------------------------------------------------
// Arrays
// ---------------------------------------------------------------------------

/// A `Base_Type` property (the name in any case) that names a component type.
pub open spec fn spec_base_type_ref(p: Property) -> Option<Seq<char>> {
    match p {
        Property::BasicProperty(bp) => if lowercase(bp.identifier.name@) == "base_type"@ {
            match bp.value {
                PropertyValue::Single(PropertyExpression::ComponentClassifier(t)) => match t.unique_component_classifier_reference {
                    UniqueComponentClassifierReference::Type(r) => Some(r.implementation_name.type_identifier@),
                    _ => None,
                },
                _ => None,
            }
        } else {
            None
        },
        _ => None,
    }
}

/// Each base type an array names is in the type table (building the array
/// stops otherwise).
pub open spec fn spec_array_bases_known(types: Seq<(Seq<char>, SpecType)>, props: Seq<Property>) -> bool {
    forall|i: int|
        0 <= i < props.len() ==> (#[trigger] spec_base_type_ref(props[i]) matches Some(n) ==> assoc_first(
            types,
            lowercase(n),
        ) is Some)
}

/// The element type of an array: the type of the last `Base_Type` that
/// names a component type, `i32` where there is none.
pub open spec fn spec_array_base(types: Seq<(Seq<char>, SpecType)>, props: Seq<Property>) -> SpecType
    decreases props.len(),
{
    if props.len() == 0 {
        SpecType::Named("i32"@)
    } else {
        match spec_base_type_ref(props.last()) {
            Some(n) => assoc_first(types, lowercase(n))->0,
            None => spec_array_base(types, props.drop_last()),
        }
    }
}

/// The integers of a property list, in order, as sizes.
pub open spec fn spec_list_sizes(l: Seq<PropertyListElement>) -> Seq<usize>
    decreases l.len(),
{
    if l.len() == 0 {
        Seq::empty()
    } else {
        spec_list_sizes(l.drop_last()) + match l.last() {
            PropertyListElement::Value(PropertyExpression::Integer(SignedIntergerOrConstant::Real(iv))) => seq![
                iv.value as usize,
            ],
            _ => Seq::empty(),
        }
    }
}

/// The sizes the `Dimension` properties (the name in any case) give, in
/// order: one integer, or a list of them.
pub open spec fn spec_dimensions(props: Seq<Property>) -> Seq<usize>
    decreases props.len(),
{
    if props.len() == 0 {
        Seq::empty()
    } else {
        spec_dimensions(props.drop_last()) + match props.last() {
            Property::BasicProperty(bp) => if lowercase(bp.identifier.name@) == "dimension"@ {
                match bp.value {
                    PropertyValue::Single(PropertyExpression::Integer(SignedIntergerOrConstant::Real(iv))) => seq![
                        iv.value as usize,
                    ],
                    PropertyValue::List(l) => spec_list_sizes(l@),
                    _ => Seq::empty(),
                }
            } else {
                Seq::empty()
            },
            _ => Seq::empty(),
        }
    }
}

/// `[..[[t; d_n]; ..]; d_1]`: the first size outermost.
pub open spec fn spec_nested_array(t: SpecType, dims: Seq<usize>) -> SpecType
    decreases dims.len(),
{
    if dims.len() == 0 {
        t
    } else {
        SpecType::Array(Box::new(spec_nested_array(t, dims.drop_first())), dims[0] as nat)
    }
}

/// The array a data type with representation `Array` stands for: its base
/// type, nested in its dimensions (one dimension of 1 where none is given).
pub open spec fn spec_array_type(types: Seq<(Seq<char>, SpecType)>, props: Seq<Property>) -> SpecType {
    let dims = spec_dimensions(props);
    spec_nested_array(spec_array_base(types, props), if dims.len() == 0 {
        seq![1usize]
    } else {
        dims
    })
}

fn list_sizes(l: &Vec<PropertyListElement>, out: &mut Vec<usize>)
    ensures
        final(out)@ == old(out)@ + spec_list_sizes(l@),
{
    let ghost start = out@;
    let mut i: usize = 0;
    proof {
        assert(l@.take(0) =~= Seq::<PropertyListElement>::empty());
        assert(start + Seq::<usize>::empty() =~= start);
    }
    while i < l.len()
        invariant
            i <= l@.len(),
            out@ == start + spec_list_sizes(l@.take(i as int)),
        decreases l@.len() - i,
    {
        proof {
            assert(l@.take(i + 1).drop_last() =~= l@.take(i as int));
            assert(l@.take(i + 1).last() == l@[i as int]);
        }
        let ghost before = out@;
        if let PropertyListElement::Value(PropertyExpression::Integer(SignedIntergerOrConstant::Real(iv))) = &l[i] {
            out.push(iv.value as usize);
            assert(out@ =~= before + seq![iv.value as usize]);
        } else {
            assert(before + Seq::<usize>::empty() =~= before);
        }
        i = i + 1;
    }
    proof {
        assert(l@.take(l@.len() as int) =~= l@);
    }
}

/// The array a data type with representation `Array` stands for (see
/// `spec_array_type`).
pub fn determine_array_type(type_mappings: &Vec<(String, Type)>, props: &Vec<Property>) -> (res: Type)
    requires
        spec_array_bases_known(type_table_view(type_mappings@), props@),
    ensures
        res@ == spec_array_type(type_table_view(type_mappings@), props@),
{
    let ghost tv = type_table_view(type_mappings@);
    let mut base_type = mk_named("i32");
    let mut dimensions: Vec<usize> = Vec::new();
    let mut i: usize = 0;
    proof {
        assert(props@.take(0) =~= Seq::<Property>::empty());
    }
    while i < props.len()
        invariant
            i <= props@.len(),
            tv == type_table_view(type_mappings@),
            spec_array_bases_known(tv, props@),
            base_type@ == spec_array_base(tv, props@.take(i as int)),
            dimensions@ == spec_dimensions(props@.take(i as int)),
        decreases props@.len() - i,
    {
        proof {
            assert(props@.take(i + 1).drop_last() =~= props@.take(i as int));
            assert(props@.take(i + 1).last() == props@[i as int]);
            assert(spec_base_type_ref(props@[i as int]) matches Some(n) ==> assoc_first(tv, lowercase(n)) is Some);
        }
        let ghost dims_before = dimensions@;
        let mut read_dims = false;
        if let Property::BasicProperty(bp) = &props[i] {
            let name = to_lower(bp.identifier.name.as_str());
            if str_eq(name.as_str(), "base_type") {
                if let PropertyValue::Single(PropertyExpression::ComponentClassifier(t)) = &bp.value {
                    if let UniqueComponentClassifierReference::Type(impl_ref) = &t.unique_component_classifier_reference {
                        let key = to_lower(impl_ref.implementation_name.type_identifier.as_str());
                        match lookup_type(type_mappings, key.as_str()) {
                            Some(t) => {
                                base_type = t.clone();
                            },
                            None => {},
                        }
                    }
                }
            }
            if str_eq(name.as_str(), "dimension") {
                match &bp.value {
                    PropertyValue::Single(PropertyExpression::Integer(SignedIntergerOrConstant::Real(int_val))) => {
                        dimensions.push(int_val.value as usize);
                        assert(dimensions@ =~= dims_before + seq![int_val.value as usize]);
                        read_dims = true;
                    },
                    PropertyValue::List(dim_list) => {
                        list_sizes(dim_list, &mut dimensions);
                        read_dims = true;
                    },
                    _ => {},
                }
            }
        }
        if !read_dims {
            assert(dims_before + Seq::<usize>::empty() =~= dims_before);
        }
        i = i + 1;
    }
    proof {
        assert(props@.take(props@.len() as int) =~= props@);
    }
    if dimensions.len() == 0 {
        dimensions.push(1);
        assert(dimensions@ =~= seq![1usize]);
    }
    let ghost dims = dimensions@;
    let mut array_type = base_type;
    let mut k: usize = dimensions.len();
    proof {
        assert(dims.skip(k as int) =~= Seq::<usize>::empty());
    }
    while k > 0
        invariant
            k <= dims.len(),
            dims == dimensions@,
            array_type@ == spec_nested_array(spec_array_base(tv, props@), dims.skip(k as int)),
        decreases k,
    {
        k = k - 1;
        let d = dimensions[k];
        proof {
            assert(dims.skip(k as int).drop_first() =~= dims.skip(k + 1));
            assert(dims.skip(k as int)[0] == d);
        }
        array_type = Type::Array(Box::new(array_type), d);
    }
    proof {
        assert(dims.skip(0) =~= dims);
    }
    array_type
}


// ---------------------------------------------------------------------------
// The type a data component stands for
// ---------------------------------------------------------------------------

/// The literal of a `Data_Model::Data_Representation` property.
pub open spec fn spec_rep_literal(p: Property) -> Option<Seq<char>> {
    match p {
        Property::BasicProperty(bp) => if spec_is_data_model(bp, "data_representation"@) {
            match bp.value {
                PropertyValue::Single(PropertyExpression::String(StringTerm::Literal(s))) => Some(s@),
                _ => None,
            }
        } else {
            None
        },
        _ => None,
    }
}

/// The literal of a `Type_Source_Name` property (the name in any case).
pub open spec fn spec_source_literal(p: Property) -> Option<Seq<char>> {
    match p {
        Property::BasicProperty(bp) => if lowercase(bp.identifier.name@) == "type_source_name"@ {
            match bp.value {
                PropertyValue::Single(PropertyExpression::String(StringTerm::Literal(s))) => Some(s@),
                _ => None,
            }
        } else {
            None
        },
        _ => None,
    }
}

pub open spec fn is_compound_word(w: Seq<char>) -> bool {
    w == "struct"@ || w == "union"@ || w == "enum"@ || w == "taggedunion"@
}

/// What a representation names: the array of the properties for `Array`;
/// the word itself, in lower case, for `Struct`, `Union`, `Enum` and
/// `TaggedUnion`; else the Rust type the name stands for.
pub open spec fn spec_rep_type(types: Seq<(Seq<char>, SpecType)>, all: Seq<Property>, s: Seq<char>) -> SpecType {
    let w = lowercase(s);
    if w == "array"@ {
        spec_array_type(types, all)
    } else if is_compound_word(w) {
        SpecType::Named(w)
    } else {
        spec_mapped_type(types, s)
    }
}

/// The first property among `props` that is a representation or a type
/// source decides; `()` where none is.
pub open spec fn spec_complex_from(types: Seq<(Seq<char>, SpecType)>, all: Seq<Property>, props: Seq<Property>) -> SpecType
    decreases props.len(),
{
    if props.len() == 0 {
        SpecType::Named("()"@)
    } else {
        match spec_rep_literal(props[0]) {
            Some(s) => spec_rep_type(types, all, s),
            None => match spec_source_literal(props[0]) {
                Some(s) => spec_mapped_type(types, s),
                None => spec_complex_from(types, all, props.drop_first()),
            },
        }
    }
}

/// The deciding property is the representation `Array`.
pub open spec fn spec_chooses_array(props: Seq<Property>) -> bool
    decreases props.len(),
{
    if props.len() == 0 {
        false
    } else {
        match spec_rep_literal(props[0]) {
            Some(s) => lowercase(s) == "array"@,
            None => match spec_source_literal(props[0]) {
                Some(_) => false,
                None => spec_chooses_array(props.drop_first()),
            },
        }
    }
}

pub open spec fn spec_complex_data_type(types: Seq<(Seq<char>, SpecType)>, comp: ComponentType) -> SpecType {
    match comp.properties {
        PropertyClause::Properties(ps) => spec_complex_from(types, ps@, ps@),
        _ => SpecType::Named("()"@),
    }
}

/// Working out the type of `comp` does not stop: where its representation
/// is an array, every base type it names is in the type table.
pub open spec fn spec_complex_ok(types: Seq<(Seq<char>, SpecType)>, comp: ComponentType) -> bool {
    match comp.properties {
        PropertyClause::Properties(ps) => spec_chooses_array(ps@) ==> spec_array_bases_known(types, ps@),
        _ => true,
    }
}

/// The type a data component stands for: its entry in the type table (by
/// its name in lower case), else what its properties make of it.
pub open spec fn spec_data_type(types: Seq<(Seq<char>, SpecType)>, comp: ComponentType) -> SpecType {
    match assoc_first(types, lowercase(comp.identifier@)) {
        Some(t) => t,
        None => spec_complex_data_type(types, comp),
    }
}

pub open spec fn spec_data_type_ok(types: Seq<(Seq<char>, SpecType)>, comp: ComponentType) -> bool {
    assoc_first(types, lowercase(comp.identifier@)) is None ==> spec_complex_ok(types, comp)
}

fn rep_literal(p: &Property) -> (res: Option<&String>)
    ensures
        match spec_rep_literal(*p) {
            Some(s) => res matches Some(r) && r@ == s,
            None => res is None,
        },
{
    if let Property::BasicProperty(bp) = p {
        if is_data_model(bp, "data_representation") {
            if let PropertyValue::Single(PropertyExpression::String(StringTerm::Literal(s))) = &bp.value {
                return Some(s);
            }
        }
    }
    None
}

fn source_literal(p: &Property) -> (res: Option<&String>)
    ensures
        match spec_source_literal(*p) {
            Some(s) => res matches Some(r) && r@ == s,
            None => res is None,
        },
{
    if let Property::BasicProperty(bp) = p {
        let n = to_lower(bp.identifier.name.as_str());
        if str_eq(n.as_str(), "type_source_name") {
            if let PropertyValue::Single(PropertyExpression::String(StringTerm::Literal(s))) = &bp.value {
                return Some(s);
            }
        }
    }
    None
}

/// The type the properties of a data component make of it (see
/// `spec_complex_data_type`).
pub fn determine_complex_data_type(type_mappings: &Vec<(String, Type)>, comp: &ComponentType) -> (res: Type)
    requires
        spec_complex_ok(type_table_view(type_mappings@), *comp),
    ensures
        res@ == spec_complex_data_type(type_table_view(type_mappings@), *comp),
{
    let ghost tv = type_table_view(type_mappings@);
    if let PropertyClause::Properties(props) = &comp.properties {
        let ghost ps = props@;
        let mut i: usize = 0;
        proof {
            assert(ps.skip(0) =~= ps);
        }
        while i < props.len()
            invariant
                i <= ps.len(),
                ps == props@,
                tv == type_table_view(type_mappings@),
                spec_chooses_array(ps) ==> spec_array_bases_known(tv, ps),
                spec_complex_from(tv, ps, ps) == spec_complex_from(tv, ps, ps.skip(i as int)),
                spec_chooses_array(ps) == spec_chooses_array(ps.skip(i as int)),
                spec_complex_data_type(tv, *comp) == spec_complex_from(tv, ps, ps),
            decreases ps.len() - i,
        {
            proof {
                assert(ps.skip(i as int).drop_first() =~= ps.skip(i + 1));
                assert(ps.skip(i as int)[0] == ps[i as int]);
            }
            match rep_literal(&props[i]) {
                Some(s) => {
                    let w = to_lower(s.as_str());
                    if str_eq(w.as_str(), "array") {
                        return determine_array_type(type_mappings, props);
                    } else if str_eq(w.as_str(), "struct") || str_eq(w.as_str(), "union") || str_eq(
                        w.as_str(),
                        "enum",
                    ) || str_eq(w.as_str(), "taggedunion") {
                        return Type::Named(w);
                    } else {
                        return mapped_type(type_mappings, s);
                    }
                },
                None => {},
            }
            match source_literal(&props[i]) {
                Some(s) => {
                    return mapped_type(type_mappings, s);
                },
                None => {},
            }
            i = i + 1;
        }
    }
    mk_named("()")
}

/// The type a data component stands for (see `spec_data_type`).
pub fn determine_data_type(type_mappings: &Vec<(String, Type)>, comp: &ComponentType) -> (res: Type)
    requires
        spec_data_type_ok(type_table_view(type_mappings@), *comp),
    ensures
        res@ == spec_data_type(type_table_view(type_mappings@), *comp),
{
    let key = to_lower(comp.identifier.as_str());
    match lookup_type(type_mappings, key.as_str()) {
        Some(existing_type) => existing_type.clone(),
        None => determine_complex_data_type(type_mappings, comp),
    }
}


// ---------------------------------------------------------------------------
// Structs, unions, enums and tagged unions
// ---------------------------------------------------------------------------

/// The member names (`Data_Model::Element_Names`) of a data type.
pub open spec fn spec_element_names(props: Seq<Property>) -> Seq<Seq<char>> {
    spec_model_list(props, "element_names"@, false)
}

/// The member types' names (`Data_Model::Base_Type`) of a data type.
pub open spec fn spec_element_types(props: Seq<Property>) -> Seq<Seq<char>> {
    spec_model_list(props, "base_type"@, true)
}

/// How many members a data type declares: names and types paired in
/// order, as far as both go.
pub open spec fn spec_member_count(props: Seq<Property>) -> nat {
    let n = spec_element_names(props).len();
    let t = spec_element_types(props).len();
    if n < t {
        n
    } else {
        t
    }
}

/// The fields of a struct or union data type.
pub open spec fn spec_type_fields(types: Seq<(Seq<char>, SpecType)>, props: Seq<Property>) -> Seq<SpecField> {
    Seq::new(
        spec_member_count(props),
        |i: int|
            SpecField {
                name: spec_element_names(props)[i],
                ty: spec_mapped_type(types, spec_element_types(props)[i]),
                docs: seq![""@],
                attrs: Seq::empty(),
            },
    )
}

/// The variants of a tagged union data type.
pub open spec fn spec_type_variants(types: Seq<(Seq<char>, SpecType)>, props: Seq<Property>) -> Seq<SpecVariant> {
    Seq::new(
        spec_member_count(props),
        |i: int|
            SpecVariant {
                name: spec_capitalized(spec_element_names(props)[i]),
                data: Some(seq![spec_mapped_type(types, spec_element_types(props)[i])]),
                docs: Seq::empty(),
            },
    )
}

/// Where a data type declares no members, its implementation gives them:
/// the table of compound data types records it as `kind`.
pub open spec fn spec_kinds_after(
    kinds: Seq<(Seq<char>, Seq<char>)>,
    comp: ComponentType,
    props: Seq<Property>,
    kind: Seq<char>,
) -> Seq<(Seq<char>, Seq<char>)> {
    if spec_element_names(props).len() == 0 || spec_element_types(props).len() == 0 {
        assoc_insert(kinds, comp.identifier@, kind)
    } else {
        kinds
    }
}

fn member_lists(props: &Vec<Property>) -> (res: (Vec<String>, Vec<String>))
    ensures
        strings_view(res.0@) == spec_element_names(props@),
        strings_view(res.1@) == spec_element_types(props@),
{
    (model_list(props, "element_names", false), model_list(props, "base_type", true))
}

fn record_kind(
    comp: &ComponentType,
    names: &Vec<String>,
    tnames: &Vec<String>,
    kind: &str,
    data_comp_type: &mut Vec<(String, String)>,
)
    ensures
        pair_table_view(final(data_comp_type)@) == (if names@.len() == 0 || tnames@.len() == 0 {
            assoc_insert(pair_table_view(old(data_comp_type)@), comp.identifier@, kind@)
        } else {
            pair_table_view(old(data_comp_type)@)
        }),
{
    if names.len() == 0 || tnames.len() == 0 {
        insert_pair(data_comp_type, comp.identifier.clone(), kind.to_string());
    }
}

fn type_fields(type_mappings: &Vec<(String, Type)>, names: &Vec<String>, tnames: &Vec<String>) -> (res: Vec<Field>)
    ensures
        fields_view(res@) == Seq::new(
            if names@.len() < tnames@.len() { names@.len() } else { tnames@.len() },
            |i: int|
                SpecField {
                    name: names@[i]@,
                    ty: spec_mapped_type(type_table_view(type_mappings@), tnames@[i]@),
                    docs: seq![""@],
                    attrs: Seq::empty(),
                },
        ),
{
    let n = if names.len() < tnames.len() { names.len() } else { tnames.len() };
    let ghost tv = type_table_view(type_mappings@);
    let mut fields: Vec<Field> = Vec::new();
    let mut i: usize = 0;
    while i < n
        invariant
            i <= n,
            n <= names@.len(),
            n <= tnames@.len(),
            tv == type_table_view(type_mappings@),
            fields_view(fields@) == Seq::new(
                i as nat,
                |j: int|
                    SpecField {
                        name: names@[j]@,
                        ty: spec_mapped_type(tv, tnames@[j]@),
                        docs: seq![""@],
                        attrs: Seq::empty(),
                    },
            ),
        decreases n - i,
    {
        let mut docs: Vec<String> = Vec::new();
        docs.push("".to_string());
        let attrs: Vec<Attribute> = Vec::new();
        proof {
            assert(strings_view(docs@) =~= seq![""@]);
            assert(attrs_view(attrs@) =~= Seq::<SpecAttribute>::empty());
        }
        let f = Field {
            name: names[i].clone(),
            ty: mapped_type(type_mappings, &tnames[i]),
            docs,
            attrs,
        };
        let ghost fv = f@;
        let ghost before = fields_view(fields@);
        fields.push(f);
        proof {
            assert(fields_view(fields@) =~= before.push(fv));
        }
        i = i + 1;
    }
    fields
}

fn debug_clone() -> (res: Vec<String>)
    ensures
        strings_view(res@) == seq!["Debug"@, "Clone"@],
{
    let mut v: Vec<String> = Vec::new();
    v.push("Debug".to_string());
    v.push("Clone".to_string());
    assert(strings_view(v@) =~= seq!["Debug"@, "Clone"@]);
    v
}

fn one_string(s: String) -> (res: Vec<String>)
    ensures
        strings_view(res@) == seq![s@],
{
    let ghost sv = s@;
    let mut v: Vec<String> = Vec::new();
    v.push(s);
    assert(strings_view(v@) =~= seq![sv]);
    v
}

/// The struct a data type declared a struct becomes; where it declares no
/// members, it is recorded as a struct in the table of compound types.
pub fn determine_struct_type(
    type_mappings: &Vec<(String, Type)>,
    comp: &ComponentType,
    props: &Vec<Property>,
    data_comp_type: &mut Vec<(String, String)>,
) -> (res: StructDef)
    ensures
        res@ == spec_compound(
            comp.identifier@,
            spec_type_fields(type_table_view(type_mappings@), props@),
            "// AADL Struct: "@,
        ),
        pair_table_view(final(data_comp_type)@) == spec_kinds_after(
            pair_table_view(old(data_comp_type)@),
            *comp,
            props@,
            "struct"@,
        ),
{
    let (names, tnames) = member_lists(props);
    record_kind(comp, &names, &tnames, "struct", data_comp_type);
    let fields = type_fields(type_mappings, &names, &tnames);
    assert(fields_view(fields@) =~= spec_type_fields(type_table_view(type_mappings@), props@));
    let props_out: Vec<StruProperty> = Vec::new();
    let generics: Vec<String> = Vec::new();
    proof {
        assert(props_view(props_out@) =~= Seq::empty());
        assert(strings_view(generics@) =~= Seq::<Seq<char>>::empty());
    }
    StructDef {
        name: comp.identifier.clone(),
        fields,
        properties: props_out,
        generics,
        derives: debug_clone(),
        docs: one_string(concat("// AADL Struct: ", comp.identifier.as_str())),
        vis: Visibility::Public,
    }
}

/// The union a data type declared a union becomes; where it declares no
/// members, it is recorded as a union in the table of compound types.
pub fn determine_union_type(
    type_mappings: &Vec<(String, Type)>,
    comp: &ComponentType,
    props: &Vec<Property>,
    data_comp_type: &mut Vec<(String, String)>,
) -> (res: UnionDef)
    ensures
        res@ == spec_compound(
            comp.identifier@,
            spec_type_fields(type_table_view(type_mappings@), props@),
            "// AADL Union: "@,
        ),
        pair_table_view(final(data_comp_type)@) == spec_kinds_after(
            pair_table_view(old(data_comp_type)@),
            *comp,
            props@,
            "union"@,
        ),
{
    let (names, tnames) = member_lists(props);
    record_kind(comp, &names, &tnames, "union", data_comp_type);
    let fields = type_fields(type_mappings, &names, &tnames);
    assert(fields_view(fields@) =~= spec_type_fields(type_table_view(type_mappings@), props@));
    let props_out: Vec<StruProperty> = Vec::new();
    let generics: Vec<String> = Vec::new();
    proof {
        assert(props_view(props_out@) =~= Seq::empty());
        assert(strings_view(generics@) =~= Seq::<Seq<char>>::empty());
    }
    UnionDef {
        name: comp.identifier.clone(),
        fields,
        properties: props_out,
        generics,
        derives: debug_clone(),
        docs: one_string(concat("// AADL Union: ", comp.identifier.as_str())),
        vis: Visibility::Public,
    }
}

/// The enum a data type declared an enum becomes: a variant per enumerator.
pub open spec fn spec_enum_type(comp: ComponentType, props: Seq<Property>) -> SpecEnumDef {
    SpecEnumDef {
        name: comp.identifier@,
        variants: spec_model_list(props, "enumerators"@, false).map_values(
            |n: Seq<char>| SpecVariant { name: n, data: None, docs: Seq::empty() },
        ),
        generics: Seq::empty(),
        derives: seq!["Debug"@, "Clone"@],
        docs: seq!["// AADL Enum: "@ + comp.identifier@],
        vis: Visibility::Public,
    }
}

/// The enum a data type declared an enum becomes (see `spec_enum_type`).
pub fn determine_enum_type(comp: &ComponentType, props: &Vec<Property>) -> (res: EnumDef)
    ensures
        res@ == spec_enum_type(*comp, props@),
{
    let names = model_list(props, "enumerators", false);
    let ghost nv = strings_view(names@);
    let mut variants: Vec<Variant> = Vec::new();
    let mut i: usize = 0;
    while i < names.len()
        invariant
            i <= names@.len(),
            nv == strings_view(names@),
            variants_view(variants@) == nv.take(i as int).map_values(
                |n: Seq<char>| SpecVariant { name: n, data: None, docs: Seq::empty() },
            ),
        decreases names@.len() - i,
    {
        let docs: Vec<String> = Vec::new();
        assert(strings_view(docs@) =~= Seq::<Seq<char>>::empty());
        let v = Variant { name: names[i].clone(), data: None, docs };
        let ghost vv = v.view();
        let ghost before = variants_view(variants@);
        variants.push(v);
        proof {
            assert(variants_view(variants@) =~= before.push(vv));
            assert(nv.take(i + 1) =~= nv.take(i as int).push(nv[i as int]));
        }
        i = i + 1;
    }
    proof {
        assert(nv.take(nv.len() as int) =~= nv);
    }
    let generics: Vec<String> = Vec::new();
    assert(strings_view(generics@) =~= Seq::<Seq<char>>::empty());
    EnumDef {
        name: comp.identifier.clone(),
        variants,
        generics,
        derives: debug_clone(),
        docs: one_string(concat("// AADL Enum: ", comp.identifier.as_str())),
        vis: Visibility::Public,
    }
}

/// The enum a data type declared a tagged union becomes: a variant per
/// member, its name with a capital, carrying the member's type.
pub open spec fn spec_tagged_type(types: Seq<(Seq<char>, SpecType)>, comp: ComponentType, props: Seq<Property>) -> SpecEnumDef {
    SpecEnumDef {
        name: comp.identifier@,
        variants: spec_type_variants(types, props),
        generics: Seq::empty(),
        derives: seq!["Debug"@, "Clone"@],
        docs: seq!["// AADL Tagged Union: "@ + comp.identifier@],
        vis: Visibility::Public,
    }
}

/// The enum a data type declared a tagged union becomes; where it declares
/// no members, it is recorded as a tagged union in the table of compound
/// types.
pub fn determine_taggedunion_type(
    type_mappings: &Vec<(String, Type)>,
    comp: &ComponentType,
    props: &Vec<Property>,
    data_comp_type: &mut Vec<(String, String)>,
) -> (res: EnumDef)
    ensures
        res@ == spec_tagged_type(type_table_view(type_mappings@), *comp, props@),
        pair_table_view(final(data_comp_type)@) == spec_kinds_after(
            pair_table_view(old(data_comp_type)@),
            *comp,
            props@,
            "taggedunion"@,
        ),
{
    let (names, tnames) = member_lists(props);
    record_kind(comp, &names, &tnames, "taggedunion", data_comp_type);
    let n = if names.len() < tnames.len() { names.len() } else { tnames.len() };
    let ghost tv = type_table_view(type_mappings@);
    let mut variants: Vec<Variant> = Vec::new();
    let mut i: usize = 0;
    while i < n
        invariant
            i <= n,
            n <= names@.len(),
            n <= tnames@.len(),
            n == spec_member_count(props@),
            strings_view(names@) == spec_element_names(props@),
            strings_view(tnames@) == spec_element_types(props@),
            tv == type_table_view(type_mappings@),
            variants_view(variants@) == spec_type_variants(tv, props@).take(i as int),
        decreases n - i,
    {
        let ty = mapped_type(type_mappings, &tnames[i]);
        let ghost tyv = ty@;
        let mut data: Vec<Type> = Vec::new();
        data.push(ty);
        proof {
            lemma_views_empty();
            assert(data@.drop_last() =~= Seq::<Type>::empty());
            assert(types_view(data@) =~= seq![tyv]);
        }
        let docs: Vec<String> = Vec::new();
        assert(strings_view(docs@) =~= Seq::<Seq<char>>::empty());
        let v = Variant { name: capitalized(names[i].as_str()), data: Some(data), docs };
        let ghost vv = v.view();
        let ghost before = variants_view(variants@);
        variants.push(v);
        proof {
            assert(strings_view(names@)[i as int] == names@[i as int]@);
            assert(strings_view(tnames@)[i as int] == tnames@[i as int]@);
            assert(vv == spec_type_variants(tv, props@)[i as int]);
            assert(variants_view(variants@) =~= before.push(vv));
            assert(spec_type_variants(tv, props@).take(i + 1) =~= spec_type_variants(tv, props@).take(
                i as int,
            ).push(vv));
        }
        i = i + 1;
    }
    proof {
        assert(spec_type_variants(tv, props@).take(n as int) =~= spec_type_variants(tv, props@));
    }
    let generics: Vec<String> = Vec::new();
    assert(strings_view(generics@) =~= Seq::<Seq<char>>::empty());
    EnumDef {
        name: comp.identifier.clone(),
        variants,
        generics,
        derives: debug_clone(),
        docs: one_string(concat("// AADL Tagged Union: ", comp.identifier.as_str())),
        vis: Visibility::Public,
    }
}


// ---------------------------------------------------------------------------
// The data component
// ---------------------------------------------------------------------------

/// What a data component type becomes, with the type table and the table
/// of compound types after it: for a struct, union or tagged union with
/// members, that struct, union or enum (with none, nothing, and its kind
/// recorded); for an enum, the enum; for anything else, an alias of the
/// type it stands for, which the type table records where it holds no
/// entry for the name yet.
pub open spec fn spec_data_component(
    types: Seq<(Seq<char>, SpecType)>,
    kinds: Seq<(Seq<char>, Seq<char>)>,
    comp: ComponentType,
) -> (Seq<SpecItem>, Seq<(Seq<char>, SpecType)>, Seq<(Seq<char>, Seq<char>)>) {
    let t = spec_data_type(types, comp);
    let key = lowercase(comp.identifier@);
    let alias = (
        seq![
            SpecItem::TypeAlias(
                SpecTypeAlias {
                    name: comp.identifier@,
                    target: t,
                    vis: Visibility::Public,
                    docs: seq!["// AADL Data Type: "@ + comp.identifier@],
                },
            ),
        ],
        if assoc_first(types, key) is None {
            types.push((key, t))
        } else {
            types
        },
        kinds,
    );
    match (t, comp.properties) {
        (SpecType::Named(u), PropertyClause::Properties(ps)) => {
            let w = lowercase(u);
            if w == "struct"@ {
                let fs = spec_type_fields(types, ps@);
                (
                    if fs.len() == 0 {
                        Seq::empty()
                    } else {
                        seq![SpecItem::Struct(spec_compound(comp.identifier@, fs, "// AADL Struct: "@))]
                    },
                    types,
                    spec_kinds_after(kinds, comp, ps@, "struct"@),
                )
            } else if w == "union"@ {
                let fs = spec_type_fields(types, ps@);
                (
                    if fs.len() == 0 {
                        Seq::empty()
                    } else {
                        seq![SpecItem::Union(spec_compound(comp.identifier@, fs, "// AADL Union: "@))]
                    },
                    types,
                    spec_kinds_after(kinds, comp, ps@, "union"@),
                )
            } else if w == "enum"@ {
                (seq![SpecItem::Enum(spec_enum_type(comp, ps@))], types, kinds)
            } else if w == "taggedunion"@ {
                (
                    if spec_type_variants(types, ps@).len() == 0 {
                        Seq::empty()
                    } else {
                        seq![SpecItem::Enum(spec_tagged_type(types, comp, ps@))]
                    },
                    types,
                    spec_kinds_after(kinds, comp, ps@, "taggedunion"@),
                )
            } else {
                alias
            }
        },
        _ => alias,
    }
}

fn one_item(it: Item) -> (res: Vec<Item>)
    ensures
        items_view(res@) == seq![it@],
{
    let ghost iv = it@;
    let mut v: Vec<Item> = Vec::new();
    v.push(it);
    proof {
        assert(v@.drop_last() =~= Seq::<Item>::empty());
        lemma_views_empty();
        assert(items_view(v@) =~= seq![iv]);
    }
    v
}

/// A data component type becomes an alias, or the struct, union or enum it
/// declares, and the converter's tables record what it is (see
/// `spec_data_component`).
pub fn convert_data_component(
    type_mappings: &mut Vec<(String, Type)>,
    comp: &ComponentType,
    data_comp_type: &mut Vec<(String, String)>,
) -> (res: Vec<Item>)
    requires
        spec_data_type_ok(type_table_view(old(type_mappings)@), *comp),
    ensures
        items_view(res@) == spec_data_component(
            type_table_view(old(type_mappings)@),
            pair_table_view(old(data_comp_type)@),
            *comp,
        ).0,
        type_table_view(final(type_mappings)@) == spec_data_component(
            type_table_view(old(type_mappings)@),
            pair_table_view(old(data_comp_type)@),
            *comp,
        ).1,
        pair_table_view(final(data_comp_type)@) == spec_data_component(
            type_table_view(old(type_mappings)@),
            pair_table_view(old(data_comp_type)@),
            *comp,
        ).2,
{
    let target = determine_data_type(type_mappings, comp);
    if let Type::Named(unit_type) = &target {
        if let PropertyClause::Properties(props) = &comp.properties {
            let w = to_lower(unit_type.as_str());
            if str_eq(w.as_str(), "struct") {
                let sd = determine_struct_type(type_mappings, comp, props, data_comp_type);
                if sd.fields.len() == 0 {
                    let v: Vec<Item> = Vec::new();
                    proof {
                        lemma_views_empty();
                    }
                    return v;
                } else {
                    return one_item(Item::Struct(sd));
                }
            } else if str_eq(w.as_str(), "union") {
                let ud = determine_union_type(type_mappings, comp, props, data_comp_type);
                if ud.fields.len() == 0 {
                    let v: Vec<Item> = Vec::new();
                    proof {
                        lemma_views_empty();
                    }
                    return v;
                } else {
                    return one_item(Item::Union(ud));
                }
            } else if str_eq(w.as_str(), "enum") {
                return one_item(Item::Enum(determine_enum_type(comp, props)));
            } else if str_eq(w.as_str(), "taggedunion") {
                let ed = determine_taggedunion_type(type_mappings, comp, props, data_comp_type);
                if ed.variants.len() == 0 {
                    let v: Vec<Item> = Vec::new();
                    proof {
                        lemma_views_empty();
                    }
                    return v;
                } else {
                    return one_item(Item::Enum(ed));
                }
            }
        }
    }
    let key = to_lower(comp.identifier.as_str());
    if lookup_type(type_mappings, key.as_str()).is_none() {
        let ghost before = type_table_view(type_mappings@);
        let t = target.clone();
        let ghost kv = key@;
        let ghost tv = t@;
        type_mappings.push((key, t));
        proof {
            assert(type_table_view(type_mappings@) =~= before.push((kv, tv)));
        }
    }
    one_item(
        Item::TypeAlias(
            TypeAlias {
                name: comp.identifier.clone(),
                target,
                vis: Visibility::Public,
                docs: one_string(concat("// AADL Data Type: ", comp.identifier.as_str())),
            },
        ),
    )
}

/// Whether the properties choose an array representation (see
/// `spec_chooses_array`).
fn chooses_array(props: &Vec<Property>) -> (res: bool)
    ensures
        res == spec_chooses_array(props@),
{
    let ghost ps = props@;
    let mut i: usize = 0;
    assert(ps.skip(0) =~= ps);
    while i < props.len()
        invariant
            i <= ps.len(),
            ps == props@,
            spec_chooses_array(ps) == spec_chooses_array(ps.skip(i as int)),
        decreases ps.len() - i,
    {
        proof {
            assert(ps.skip(i as int).drop_first() =~= ps.skip(i + 1));
            assert(ps.skip(i as int)[0] == ps[i as int]);
        }
        match rep_literal(&props[i]) {
            Some(s) => {
                let w = to_lower(s.as_str());
                return str_eq(w.as_str(), "array");
            },
            None => {},
        }
        match source_literal(&props[i]) {
            Some(_) => {
                return false;
            },
            None => {},
        }
        i = i + 1;
    }
    false
}

/// Whether every `Base_Type` of the properties names a type of the table
/// (see `spec_array_bases_known`).
fn array_bases_known(type_mappings: &Vec<(String, Type)>, props: &Vec<Property>) -> (res: bool)
    ensures
        res == spec_array_bases_known(type_table_view(type_mappings@), props@),
{
    let ghost tv = type_table_view(type_mappings@);
    let mut i: usize = 0;
    while i < props.len()
        invariant
            i <= props@.len(),
            tv == type_table_view(type_mappings@),
            forall|j: int|
                0 <= j < i ==> (#[trigger] spec_base_type_ref(props@[j]) matches Some(n) ==> assoc_first(
                    tv,
                    lowercase(n),
                ) is Some),
        decreases props@.len() - i,
    {
        if let Property::BasicProperty(bp) = &props[i] {
            let name = to_lower(bp.identifier.name.as_str());
            if str_eq(name.as_str(), "base_type") {
                if let PropertyValue::Single(PropertyExpression::ComponentClassifier(t)) = &bp.value {
                    if let UniqueComponentClassifierReference::Type(impl_ref) = &t.unique_component_classifier_reference {
                        let key = to_lower(impl_ref.implementation_name.type_identifier.as_str());
                        if lookup_type(type_mappings, key.as_str()).is_none() {
                            assert(!(spec_base_type_ref(props@[i as int]) matches Some(n) ==> assoc_first(
                                tv,
                                lowercase(n),
                            ) is Some));
                            return false;
                        }
                    }
                }
            }
        }
        i = i + 1;
    }
    true
}

/// Whether a data component can be converted with the type table (see
/// `spec_data_type_ok`).
pub fn data_type_ok_exec(type_mappings: &Vec<(String, Type)>, comp: &ComponentType) -> (res: bool)
    ensures
        res == spec_data_type_ok(type_table_view(type_mappings@), *comp),
{
    let key = to_lower(comp.identifier.as_str());
    if lookup_type(type_mappings, key.as_str()).is_some() {
        return true;
    }
    match &comp.properties {
        PropertyClause::Properties(ps) => !chooses_array(ps) || array_bases_known(type_mappings, ps),
        _ => true,
    }
}

/// The length of the array found after going `k` arrays deep into `t`
/// (none where `t` is not nested that deep).
pub open spec fn array_len_at(t: SpecType, k: nat) -> Option<nat>
    decreases k,
{
    match t {
        SpecType::Array(inner, n) => if k == 0 {
            Some(n)
        } else {
            array_len_at(*inner, (k - 1) as nat)
        },
        _ => None,
    }
}

/// The type found after going `k` arrays deep into `t`.
pub open spec fn element_at(t: SpecType, k: nat) -> SpecType
    decreases k,
{
    if k == 0 {
        t
    } else {
        match t {
            SpecType::Array(inner, _) => element_at(*inner, (k - 1) as nat),
            _ => t,
        }
    }
}

proof fn lemma_nested_array_layers(t: SpecType, dims: Seq<usize>)
    ensures
        forall|k: int| 0 <= k < dims.len() ==> #[trigger] array_len_at(spec_nested_array(t, dims), k as nat)
            == Some(dims[k] as nat),
        element_at(spec_nested_array(t, dims), dims.len()) == t,
    decreases dims.len(),
{
    if dims.len() > 0 {
        let rest = dims.drop_first();
        lemma_nested_array_layers(t, rest);
        let a = spec_nested_array(t, dims);
        assert(a == SpecType::Array(Box::new(spec_nested_array(t, rest)), dims[0] as nat));
        assert forall|k: int| 0 <= k < dims.len() implies #[trigger] array_len_at(a, k as nat) == Some(dims[k] as nat) by {
            if k > 0 {
                assert(rest[k - 1] == dims[k]);
                assert(array_len_at(spec_nested_array(t, rest), (k - 1) as nat) == Some(rest[k - 1] as nat));
            }
        }
        assert(element_at(a, dims.len()) == element_at(spec_nested_array(t, rest), rest.len()));
    }
}

/// A law of array types: an `Array` data type with dimensions
/// `(d1, ..., dn)` is `n` arrays deep, the outermost of length `d1` and
/// the innermost of length `dn` (the `k`-th array from the outside has
/// length `dk`), around its base type; with no dimension it is one array of
/// length 1.
pub proof fn lemma_array_dimensions(types: Seq<(Seq<char>, SpecType)>, props: Seq<Property>)
    ensures
        ({
            let dims = spec_dimensions(props);
            let ds = if dims.len() == 0 {
                seq![1usize]
            } else {
                dims
            };
            let t = spec_array_type(types, props);
            &&& forall|k: int| 0 <= k < ds.len() ==> #[trigger] array_len_at(t, k as nat) == Some(ds[k] as nat)
            &&& element_at(t, ds.len()) == spec_array_base(types, props)
        }),
{
    let dims = spec_dimensions(props);
    let ds = if dims.len() == 0 {
        seq![1usize]
    } else {
        dims
    };
    lemma_nested_array_layers(spec_array_base(types, props), ds);
}

} // verus!
