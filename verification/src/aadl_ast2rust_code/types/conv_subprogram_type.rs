//! Subprogram types bound to C functions: the binding's name and source
//! files, the data types a shared-data access brings in, and the Rust
//! module of wrappers that call the C function.

use vstd::prelude::*;
use crate::aadl_ast2rust_code::converter::{assoc_first, spec_paramport_type, AadlConverter};
use crate::ast::aadl_ast_cj::{
    AadlDeclaration, AccessDirection, ComponentCategory, ComponentType, DataAccessReference, Feature,
    FeatureClause, Package, PortDirection, PortSpec, Property, PropertyClause, PropertyExpression,
    PropertyListElement, PropertyValue, StringTerm, Subcomponent, SubcomponentAccessSpec,
    SubcomponentClassifier, SubcomponentClause, UniqueComponentClassifierReference,
};
use crate::intermediate_ast::{
    attrs_view, exprs_view, group_view_laws, items_view, lemma_items_view_concat, lemma_views_empty, mk_block, params_view, s_block,
    stmts_view, Attribute, Block, Expr, FunctionDef, Item, Param, PathType, RustModule, RustWith,
    SpecAttribute, SpecBlock, SpecExpr, SpecFunctionDef, SpecItem, SpecParam, SpecRustModule, SpecRustWith,
    SpecStatement, SpecType, SpecUseKind, SpecUseStatement, Statement, Type, UseKind, UseStatement,
    Visibility,
};
use crate::text::{
    concat, concat3, insert_unique, join_strings, lemma_insert_all_push, lowercase, seq_join,
    spec_decimal, spec_insert, spec_insert_all, spec_strip_prefix, str_eq, strings_view,
    strip_prefix_owned, to_lower, u64_to_decimal,
};

verus! {

broadcast use group_view_laws;

// ---------------------------------------------------------------------------
// Primitive types
// ---------------------------------------------------------------------------

/// The names of Rust's primitive types, with `str` and `String`.
pub open spec fn spec_is_rust_primitive(s: Seq<char>) -> bool {
    ||| s == "i8"@
    ||| s == "i16"@
    ||| s == "i32"@
    ||| s == "i64"@
    ||| s == "i128"@
    ||| s == "isize"@
    ||| s == "u8"@
    ||| s == "u16"@
    ||| s == "u32"@
    ||| s == "u64"@
    ||| s == "u128"@
    ||| s == "usize"@
    ||| s == "f32"@
    ||| s == "f64"@
    ||| s == "bool"@
    ||| s == "char"@
    ||| s == "str"@
    ||| s == "String"@
}

/// Whether a type name is one of Rust's primitive types, `str` or `String`.
pub fn is_rust_primitive_type(name: &str) -> (res: bool)
    ensures
        res == spec_is_rust_primitive(name@),
{
    str_eq(name, "i8") || str_eq(name, "i16") || str_eq(name, "i32") || str_eq(
        name,
        "i64",
    ) || str_eq(name, "i128") || str_eq(name, "isize") || str_eq(name, "u8")
        || str_eq(name, "u16") || str_eq(name, "u32") || str_eq(name, "u64")
        || str_eq(name, "u128") || str_eq(name, "usize") || str_eq(name, "f32")
        || str_eq(name, "f64") || str_eq(name, "bool") || str_eq(name, "char")
        || str_eq(name, "str") || str_eq(name, "String")
}

// ---------------------------------------------------------------------------
// The C binding
// ---------------------------------------------------------------------------

/// The function name a `Source_Name` property (any case) gives as a string
/// literal.
pub open spec fn spec_source_name_of(p: Property) -> Option<Seq<char>> {
    match p {
        Property::BasicProperty(bp) => if lowercase(bp.identifier.name@) == "source_name"@ {
            match bp.value {
                PropertyValue::Single(PropertyExpression::String(StringTerm::Literal(name))) => Some(
                    name@,
                ),
                _ => None,
            }
        } else {
            None
        },
        _ => None,
    }
}

/// The name the first such property gives.
pub open spec fn spec_first_source_name(props: Seq<Property>) -> Option<Seq<char>>
    decreases props.len(),
{
    if props.len() == 0 {
        None
    } else {
        match spec_source_name_of(props[0]) {
            Some(n) => Some(n),
            None => spec_first_source_name(props.drop_first()),
        }
    }
}

pub open spec fn spec_c_function_name(comp: ComponentType) -> Option<Seq<char>> {
    match comp.properties {
        PropertyClause::Properties(props) => spec_first_source_name(props@),
        _ => None,
    }
}

fn source_name_of(p: &Property) -> (res: Option<String>)
    ensures
        match spec_source_name_of(*p) {
            Some(n) => res matches Some(r) && r@ == n,
            None => res is None,
        },
{
    match p {
        Property::BasicProperty(bp) => {
            let name = to_lower(bp.identifier.name.as_str());
            if str_eq(name.as_str(), "source_name") {
                match &bp.value {
                    PropertyValue::Single(PropertyExpression::String(StringTerm::Literal(n))) => Some(
                        n.clone(),
                    ),
                    _ => None,
                }
            } else {
                None
            }
        },
        _ => None,
    }
}

/// The name of the C function a subprogram type is bound to: the first
/// `Source_Name` property (any case) whose value is a string literal.
pub fn extract_c_function_name(comp: &ComponentType) -> (res: Option<String>)
    ensures
        match spec_c_function_name(*comp) {
            Some(n) => res matches Some(r) && r@ == n,
            None => res is None,
        },
{
    if let PropertyClause::Properties(props) = &comp.properties {
        let mut i: usize = 0;
        proof {
            assert(props@.skip(0) =~= props@);
        }
        while i < props.len()
            invariant
                i <= props@.len(),
                spec_first_source_name(props@.skip(i as int)) == spec_first_source_name(props@),
                spec_c_function_name(*comp) == spec_first_source_name(props@),
            decreases props@.len() - i,
        {
            proof {
                assert(props@.skip(i as int).drop_first() =~= props@.skip(i + 1));
                assert(props@.skip(i as int)[0] == props@[i as int]);
            }
            if let Some(n) = source_name_of(&props[i]) {
                assert(spec_source_name_of(props@.skip(i as int)[0]) == Some(n@));
                assert(spec_first_source_name(props@.skip(i as int)) == Some(n@));
                return Some(n);
            }
            i = i + 1;
        }
    }
    None
}

/// The string literals of a property list's elements, in order.
pub open spec fn spec_list_texts(items: Seq<PropertyListElement>) -> Seq<Seq<char>>
    decreases items.len(),
{
    if items.len() == 0 {
        Seq::empty()
    } else {
        spec_list_texts(items.drop_last()) + match items.last() {
            PropertyListElement::Value(PropertyExpression::String(StringTerm::Literal(t))) => seq![
                t@,
            ],
            _ => Seq::empty(),
        }
    }
}

/// The file names a `Source_Text` property (any case) gives: one string
/// literal, or the string literals of a list.
pub open spec fn spec_source_texts_of(p: Property) -> Seq<Seq<char>> {
    match p {
        Property::BasicProperty(bp) => if lowercase(bp.identifier.name@) == "source_text"@ {
            match bp.value {
                PropertyValue::Single(PropertyExpression::String(StringTerm::Literal(t))) => seq![
                    t@,
                ],
                PropertyValue::List(items) => spec_list_texts(items@),
                _ => Seq::empty(),
            }
        } else {
            Seq::empty()
        },
        _ => Seq::empty(),
    }
}

pub open spec fn spec_source_texts(props: Seq<Property>) -> Seq<Seq<char>>
    decreases props.len(),
{
    if props.len() == 0 {
        Seq::empty()
    } else {
        spec_source_texts(props.drop_last()) + spec_source_texts_of(props.last())
    }
}

pub open spec fn spec_source_files(comp: ComponentType) -> Seq<Seq<char>> {
    match comp.properties {
        PropertyClause::Properties(props) => spec_source_texts(props@),
        _ => Seq::empty(),
    }
}

fn push_view(v: &mut Vec<String>, x: String)
    ensures
        strings_view(final(v)@) == strings_view(old(v)@).push(x@),
{
    let ghost before = strings_view(v@);
    let ghost xv = x@;
    v.push(x);
    proof {
        assert(v@.drop_last() =~= old(v)@);
    }
}

fn list_texts(items: &Vec<PropertyListElement>, out: &mut Vec<String>)
    ensures
        strings_view(final(out)@) == strings_view(old(out)@) + spec_list_texts(items@),
{
    let ghost start = strings_view(out@);
    let mut i: usize = 0;
    proof {
        assert(items@.take(0) =~= Seq::<PropertyListElement>::empty());
        assert(start + spec_list_texts(Seq::<PropertyListElement>::empty()) =~= start);
    }
    while i < items.len()
        invariant
            i <= items@.len(),
            strings_view(out@) == start + spec_list_texts(items@.take(i as int)),
        decreases items@.len() - i,
    {
        proof {
            assert(items@.take(i + 1).drop_last() =~= items@.take(i as int));
            assert(items@.take(i + 1).last() == items@[i as int]);
        }
        let ghost before = strings_view(out@);
        if let PropertyListElement::Value(PropertyExpression::String(StringTerm::Literal(t))) = &items[i] {
            push_view(out, t.clone());
            proof {
                assert(before.push(t@) =~= start + spec_list_texts(items@.take(i + 1)));
            }
        } else {
            proof {
                assert(before =~= start + spec_list_texts(items@.take(i + 1)));
            }
        }
        i = i + 1;
    }
    proof {
        assert(items@.take(items@.len() as int) =~= items@);
    }
}

/// The C source files of a subprogram type: the string literals of its
/// `Source_Text` properties (any case), single or in lists, in order.
pub fn extract_source_files(comp: &ComponentType) -> (res: Vec<String>)
    ensures
        strings_view(res@) == spec_source_files(*comp),
{
    let mut source_files: Vec<String> = Vec::new();
    proof {
        assert(strings_view(source_files@) =~= Seq::<Seq<char>>::empty());
    }
    if let PropertyClause::Properties(props) = &comp.properties {
        let mut i: usize = 0;
        proof {
            assert(props@.take(0) =~= Seq::<Property>::empty());
        }
        while i < props.len()
            invariant
                i <= props@.len(),
                strings_view(source_files@) == spec_source_texts(props@.take(i as int)),
            decreases props@.len() - i,
        {
            proof {
                assert(props@.take(i + 1).drop_last() =~= props@.take(i as int));
                assert(props@.take(i + 1).last() == props@[i as int]);
            }
            let ghost before = strings_view(source_files@);
            if let Property::BasicProperty(bp) = &props[i] {
                let name = to_lower(bp.identifier.name.as_str());
                if str_eq(name.as_str(), "source_text") {
                    match &bp.value {
                        PropertyValue::Single(
                            PropertyExpression::String(StringTerm::Literal(text)),
                        ) => {
                            push_view(&mut source_files, text.clone());
                            proof {
                                assert(before.push(text@) =~= before + seq![text@]);
                            }
                        },
                        PropertyValue::List(arraylist) => {
                            list_texts(arraylist, &mut source_files);
                        },
                        _ => {
                            proof {
                                assert(before + Seq::<Seq<char>>::empty() =~= before);
                            }
                        },
                    }
                } else {
                    proof {
                        assert(before + Seq::<Seq<char>>::empty() =~= before);
                    }
                }
            } else {
                proof {
                    assert(before + Seq::<Seq<char>>::empty() =~= before);
                }
            }
            i = i + 1;
        }
        proof {
            assert(props@.take(props@.len() as int) =~= props@);
        }
    }
    source_files
}


// ---------------------------------------------------------------------------
// Data types behind a shared-data access
// ---------------------------------------------------------------------------

/// The data type a data subcomponent given by an implementation reference
/// contributes: in the public section, the type table's entry for its type
/// name in lower case where that is a named type (none where it is another
/// type), the name itself where there is no entry; in the private section,
/// always the name itself.
pub open spec fn spec_sub_data_type(
    types: Seq<(Seq<char>, SpecType)>,
    sub: Subcomponent,
    public: bool,
) -> Seq<Seq<char>> {
    if sub.category == ComponentCategory::Data {
        match sub.classifier {
            SubcomponentClassifier::ClassifierReference(
                UniqueComponentClassifierReference::Implementation(u),
            ) => {
                let name = u.implementation_name.type_identifier@;
                if public {
                    match assoc_first(types, lowercase(name)) {
                        Some(SpecType::Named(t)) => seq![t],
                        Some(_) => Seq::empty(),
                        None => seq![name],
                    }
                } else {
                    seq![name]
                }
            },
            _ => Seq::empty(),
        }
    } else {
        Seq::empty()
    }
}

pub open spec fn spec_subs_data_types(
    types: Seq<(Seq<char>, SpecType)>,
    subs: Seq<Subcomponent>,
    public: bool,
) -> Seq<Seq<char>>
    decreases subs.len(),
{
    if subs.len() == 0 {
        Seq::empty()
    } else {
        spec_subs_data_types(types, subs.drop_last(), public) + spec_sub_data_type(
            types,
            subs.last(),
            public,
        )
    }
}

/// The data types of a declaration that is an implementation whose type
/// name begins `impl_name`.
pub open spec fn spec_decl_data_types(
    types: Seq<(Seq<char>, SpecType)>,
    impl_name: Seq<char>,
    d: AadlDeclaration,
    public: bool,
) -> Seq<Seq<char>> {
    match d {
        AadlDeclaration::ComponentImplementation(i) => if spec_strip_prefix(
            impl_name,
            i.name.type_identifier@,
        ) is Some {
            match i.subcomponents {
                SubcomponentClause::Items(subs) => spec_subs_data_types(types, subs@, public),
                _ => Seq::empty(),
            }
        } else {
            Seq::empty()
        },
        _ => Seq::empty(),
    }
}

pub open spec fn spec_decls_data_types(
    types: Seq<(Seq<char>, SpecType)>,
    impl_name: Seq<char>,
    ds: Seq<AadlDeclaration>,
    public: bool,
) -> Seq<Seq<char>>
    decreases ds.len(),
{
    if ds.len() == 0 {
        Seq::empty()
    } else {
        spec_decls_data_types(types, impl_name, ds.drop_last(), public) + spec_decl_data_types(
            types,
            impl_name,
            ds.last(),
            public,
        )
    }
}

/// The data types of the data subcomponents of the implementations that
/// `impl_name` begins with, public section first.
pub open spec fn spec_find_data_types(
    types: Seq<(Seq<char>, SpecType)>,
    impl_name: Seq<char>,
    package: Package,
) -> Seq<Seq<char>> {
    (match package.public_section {
        Some(sec) => spec_decls_data_types(types, impl_name, sec.declarations@, true),
        None => Seq::empty(),
    }) + (match package.private_section {
        Some(sec) => spec_decls_data_types(types, impl_name, sec.declarations@, false),
        None => Seq::empty(),
    })
}

fn sub_data_type(conv: &AadlConverter, sub: &Subcomponent, public: bool, out: &mut Vec<String>)
    ensures
        strings_view(final(out)@) == strings_view(old(out)@) + spec_sub_data_type(
            conv.types(),
            *sub,
            public,
        ),
{
    let ghost before = strings_view(out@);
    let is_data = match sub.category {
        ComponentCategory::Data => true,
        _ => false,
    };
    if is_data {
        if let SubcomponentClassifier::ClassifierReference(
            UniqueComponentClassifierReference::Implementation(u),
        ) = &sub.classifier {
            let name = &u.implementation_name.type_identifier;
            if public {
                let key = to_lower(name.as_str());
                match conv.lookup_mapping(key.as_str()) {
                    Some(t) => {
                        if let Type::Named(tn) = t {
                            push_view(out, tn.clone());
                            proof {
                                assert(before.push(tn@) =~= before + seq![tn@]);
                            }
                        } else {
                            proof {
                                assert(before + Seq::<Seq<char>>::empty() =~= before);
                            }
                        }
                    },
                    None => {
                        push_view(out, name.clone());
                        proof {
                            assert(before.push(name@) =~= before + seq![name@]);
                        }
                    },
                }
            } else {
                push_view(out, name.clone());
                proof {
                    assert(before.push(name@) =~= before + seq![name@]);
                }
            }
            return;
        }
    }
    proof {
        assert(before + Seq::<Seq<char>>::empty() =~= before);
    }
}

fn decls_data_types(
    conv: &AadlConverter,
    impl_name: &str,
    ds: &Vec<AadlDeclaration>,
    public: bool,
    out: &mut Vec<String>,
)
    ensures
        strings_view(final(out)@) == strings_view(old(out)@) + spec_decls_data_types(
            conv.types(),
            impl_name@,
            ds@,
            public,
        ),
{
    let ghost start = strings_view(out@);
    let ghost types = conv.types();
    let mut i: usize = 0;
    proof {
        assert(ds@.take(0) =~= Seq::<AadlDeclaration>::empty());
        assert(start + Seq::<Seq<char>>::empty() =~= start);
    }
    while i < ds.len()
        invariant
            i <= ds@.len(),
            types == conv.types(),
            strings_view(out@) == start + spec_decls_data_types(
                types,
                impl_name@,
                ds@.take(i as int),
                public,
            ),
        decreases ds@.len() - i,
    {
        proof {
            assert(ds@.take(i + 1).drop_last() =~= ds@.take(i as int));
            assert(ds@.take(i + 1).last() == ds@[i as int]);
        }
        let ghost mid = strings_view(out@);
        let mut matched = false;
        if let AadlDeclaration::ComponentImplementation(im) = &ds[i] {
            if strip_prefix_owned(impl_name, im.name.type_identifier.as_str()).is_some() {
                if let SubcomponentClause::Items(subs) = &im.subcomponents {
                    matched = true;
                    let mut k: usize = 0;
                    proof {
                        assert(subs@.take(0) =~= Seq::<Subcomponent>::empty());
                        assert(mid + Seq::<Seq<char>>::empty() =~= mid);
                    }
                    while k < subs.len()
                        invariant
                            k <= subs@.len(),
                            types == conv.types(),
                            strings_view(out@) == mid + spec_subs_data_types(
                                types,
                                subs@.take(k as int),
                                public,
                            ),
                        decreases subs@.len() - k,
                    {
                        proof {
                            assert(subs@.take(k + 1).drop_last() =~= subs@.take(k as int));
                            assert(subs@.take(k + 1).last() == subs@[k as int]);
                        }
                        sub_data_type(conv, &subs[k], public, out);
                        proof {
                            assert(mid + spec_subs_data_types(types, subs@.take(k + 1), public)
                                =~= mid + spec_subs_data_types(types, subs@.take(k as int), public)
                                + spec_sub_data_type(types, subs@[k as int], public));
                        }
                        k = k + 1;
                    }
                    proof {
                        assert(subs@.take(subs@.len() as int) =~= subs@);
                        assert(spec_decl_data_types(types, impl_name@, ds@[i as int], public)
                            == spec_subs_data_types(types, subs@, public));
                    }
                }
            }
        }
        proof {
            if !matched {
                assert(spec_decl_data_types(types, impl_name@, ds@[i as int], public)
                    =~= Seq::<Seq<char>>::empty());
            }
            assert(start + spec_decls_data_types(types, impl_name@, ds@.take(i + 1), public)
                =~= mid + spec_decl_data_types(types, impl_name@, ds@[i as int], public));
        }
        i = i + 1;
    }
    proof {
        assert(ds@.take(ds@.len() as int) =~= ds@);
    }
}

/// The data types behind an implementation reference `impl_name` (such as
/// `POS.Impl`): those of the data subcomponents of each implementation
/// whose type name `impl_name` begins with, the public section's first.
pub fn find_data_type_from_implementation(
    impl_name: &str,
    package: &Package,
    temp_converter: &AadlConverter,
) -> (res: Vec<String>)
    ensures
        strings_view(res@) == spec_find_data_types(temp_converter.types(), impl_name@, *package),
{
    let mut data_types: Vec<String> = Vec::new();
    proof {
        assert(strings_view(data_types@) =~= Seq::<Seq<char>>::empty());
    }
    if let Some(public_section) = &package.public_section {
        decls_data_types(temp_converter, impl_name, &public_section.declarations, true, &mut data_types);
    }
    let ghost mid = strings_view(data_types@);
    if let Some(private_section) = &package.private_section {
        decls_data_types(temp_converter, impl_name, &private_section.declarations, false, &mut data_types);
    }
    proof {
        assert(Seq::<Seq<char>>::empty() + mid =~= mid);
        assert(mid + Seq::<Seq<char>>::empty() =~= mid);
        assert(strings_view(data_types@) =~= spec_find_data_types(
            temp_converter.types(),
            impl_name@,
            *package,
        ));
    }
    data_types
}


// ---------------------------------------------------------------------------
// The module of wrappers
// ---------------------------------------------------------------------------

/// `{ unsafe { <c>(<args>); } }`
pub open spec fn s_c_call_block(c: Seq<char>, args: Seq<SpecExpr>) -> SpecBlock {
    s_block(
        seq![
            SpecStatement::Expr(
                SpecExpr::Unsafe(
                    Box::new(
                        s_block(
                            seq![
                                SpecStatement::Expr(
                                    SpecExpr::Call(
                                        Box::new(SpecExpr::Path(seq![c], PathType::Namespace)),
                                        args,
                                    ),
                                ),
                            ],
                        ),
                    ),
                ),
            ),
        ],
    )
}

/// `pub fn <name>(<params>) { unsafe { <c>(<args>); } }` with its comments.
pub open spec fn s_wrapper_fn(
    name: Seq<char>,
    params: Seq<SpecParam>,
    c: Seq<char>,
    args: Seq<SpecExpr>,
    docs: Seq<Seq<char>>,
) -> SpecFunctionDef {
    SpecFunctionDef {
        name,
        params,
        return_type: SpecType::Unit,
        body: s_c_call_block(c, args),
        asyncness: false,
        vis: Visibility::Public,
        docs,
        attrs: Seq::empty(),
    }
}

/// `send(&mut <port>)` for an out port, `receive(&<port>)` for an in port,
/// each passing the port's value to the C function; nothing for an in out
/// port.
pub open spec fn spec_port_wrapper(
    types: Seq<(Seq<char>, SpecType)>,
    c: Seq<char>,
    port: PortSpec,
) -> Option<SpecFunctionDef> {
    let pname = lowercase(port.identifier@);
    let ty = spec_paramport_type(types, port);
    let docs = seq!["// Wrapper for C function "@ + c, "// Original AADL port: "@ + port.identifier@];
    match port.direction {
        PortDirection::Out => Some(
            s_wrapper_fn(
                "send"@,
                seq![SpecParam { name: pname, ty: SpecType::Reference(Box::new(ty), true, true) }],
                c,
                seq![SpecExpr::Ident(pname)],
                docs,
            ),
        ),
        PortDirection::In => Some(
            s_wrapper_fn(
                "receive"@,
                seq![SpecParam { name: pname, ty: SpecType::Reference(Box::new(ty), false, false) }],
                c,
                seq![SpecExpr::Ident(pname)],
                docs,
            ),
        ),
        PortDirection::InOut => None,
    }
}

pub open spec fn spec_arg_name(i: int) -> Seq<char> {
    "arg"@ + spec_decimal(i as nat)
}

pub open spec fn spec_call_params(dts: Seq<Seq<char>>) -> Seq<SpecParam> {
    Seq::new(
        dts.len(),
        |i: int|
            SpecParam {
                name: spec_arg_name(i),
                ty: SpecType::Reference(Box::new(SpecType::Named(dts[i])), true, true),
            },
    )
}

pub open spec fn spec_call_args(n: nat) -> Seq<SpecExpr> {
    Seq::new(n, |i: int| SpecExpr::Ident(spec_arg_name(i)))
}

/// `call(arg0: &mut T0, ...)`, passing every argument to the C function.
pub open spec fn spec_call_wrapper(c: Seq<char>, dts: Seq<Seq<char>>) -> SpecFunctionDef {
    s_wrapper_fn(
        "call"@,
        spec_call_params(dts),
        c,
        spec_call_args(dts.len()),
        seq![
            "// Call C function "@ + c + " with data access references"@,
            "// Generated for requires data access feature"@,
            "// Note: Rust compiler will handle the reference to pointer conversion"@,
        ],
    )
}

/// `execute()`, calling the C function with no argument.
pub open spec fn spec_execute_wrapper(c: Seq<char>) -> SpecFunctionDef {
    s_wrapper_fn(
        "execute"@,
        Seq::empty(),
        c,
        Seq::empty(),
        seq![
            "// Direct execution wrapper for C function "@ + c,
            "// This component has no communication ports"@,
        ],
    )
}

/// The implementation a `requires data access` feature names, if it names one.
pub open spec fn spec_access_target(sa: SubcomponentAccessSpec) -> Option<Seq<char>> {
    match sa {
        SubcomponentAccessSpec::Data(da) => if da.direction == AccessDirection::Requires {
            match da.classifier {
                Some(
                    DataAccessReference::Classifier(
                        UniqueComponentClassifierReference::Implementation(r),
                    ),
                ) => Some(r.implementation_name.type_identifier@),
                _ => None,
            }
        } else {
            None
        },
        _ => None,
    }
}

/// One feature's contribution to the wrappers and to the names to import
/// (each name once, in the order first met).
pub open spec fn spec_wrapper_step(
    types: Seq<(Seq<char>, SpecType)>,
    package: Package,
    c: Seq<char>,
    st: (Seq<SpecItem>, Seq<Seq<char>>),
    f: Feature,
) -> (Seq<SpecItem>, Seq<Seq<char>>) {
    match f {
        Feature::Port(port) => match spec_port_wrapper(types, c, port) {
            Some(w) => {
                let imports = match spec_paramport_type(types, port) {
                    SpecType::Named(n) => if !spec_is_rust_primitive(n) {
                        spec_insert(st.1, n)
                    } else {
                        st.1
                    },
                    _ => st.1,
                };
                (st.0.push(SpecItem::Function(w)), imports)
            },
            None => st,
        },
        Feature::SubcomponentAccess(sa) => match spec_access_target(sa) {
            Some(name) => {
                let dts = spec_find_data_types(types, name, package);
                (
                    if dts.len() > 0 {
                        st.0.push(SpecItem::Function(spec_call_wrapper(c, dts)))
                    } else {
                        st.0
                    },
                    spec_insert_all(st.1, dts),
                )
            },
            None => st,
        },
    }
}

pub open spec fn spec_wrapper_fold(
    types: Seq<(Seq<char>, SpecType)>,
    package: Package,
    c: Seq<char>,
    fs: Seq<Feature>,
) -> (Seq<SpecItem>, Seq<Seq<char>>)
    decreases fs.len(),
{
    if fs.len() == 0 {
        (Seq::empty(), Seq::empty())
    } else {
        spec_wrapper_step(types, package, c, spec_wrapper_fold(types, package, c, fs.drop_last()), fs.last())
    }
}

/// The names that are not primitive types, in order.
pub open spec fn spec_non_primitive(s: Seq<Seq<char>>) -> Seq<Seq<char>>
    decreases s.len(),
{
    if s.len() == 0 {
        Seq::empty()
    } else {
        spec_non_primitive(s.drop_last()) + if spec_is_rust_primitive(s.last()) {
            Seq::empty()
        } else {
            seq![s.last()]
        }
    }
}

/// The module for a subprogram type bound to the C function `c`: named
/// after the type in lower case; its comments name the type, the binding
/// and the source files; it imports from `super` the C function and the
/// non-primitive types the wrappers use; then come the wrappers, or the
/// single `execute` wrapper when no feature gives one.
pub open spec fn spec_c_wrapper_module(
    types: Seq<(Seq<char>, SpecType)>,
    comp: ComponentType,
    c: Seq<char>,
    package: Package,
) -> SpecRustModule {
    let st = spec_wrapper_state(types, comp, c, package);
    let fns = if st.0.len() == 0 {
        seq![SpecItem::Function(spec_execute_wrapper(c))]
    } else {
        st.0
    };
    SpecRustModule {
        name: lowercase(comp.identifier@),
        docs: spec_module_docs(comp, c),
        items: seq![spec_module_use(c, st.1)] + fns,
        attrs: Seq::empty(),
        vis: Visibility::Public,
        withs: Seq::empty(),
    }
}

/// The wrappers and the names to import that the features give.
pub open spec fn spec_wrapper_state(
    types: Seq<(Seq<char>, SpecType)>,
    comp: ComponentType,
    c: Seq<char>,
    package: Package,
) -> (Seq<SpecItem>, Seq<Seq<char>>) {
    match comp.features {
        FeatureClause::Items(fs) => spec_wrapper_fold(types, package, c, fs@),
        _ => (Seq::empty(), Seq::empty()),
    }
}

/// The module's comments: the subprogram, the binding, the source files.
pub open spec fn spec_module_docs(comp: ComponentType, c: Seq<char>) -> Seq<Seq<char>> {
    let files = spec_source_files(comp);
    seq!["// Auto-generated from AADL subprogram: "@ + comp.identifier@, "// C binding to: "@ + c]
        + if files.len() > 0 {
        seq!["// source_files: "@ + seq_join(files, ", "@)]
    } else {
        Seq::empty()
    }
}

/// `use super::{<c>, <non-primitive names>};`
pub open spec fn spec_module_use(c: Seq<char>, names: Seq<Seq<char>>) -> SpecItem {
    SpecItem::Use(
        SpecUseStatement {
            path: seq!["super"@],
            kind: SpecUseKind::Nested(seq![c] + spec_non_primitive(names)),
        },
    )
}

fn c_call_block(c: &str, args: Vec<Expr>) -> (b: Block)
    ensures
        b@ == s_c_call_block(c@, exprs_view(args@)),
{
    let mut path: Vec<String> = Vec::new();
    path.push(c.to_string());
    proof {
        assert(path@.drop_last() =~= Seq::<String>::empty());
        assert(strings_view(path@) =~= seq![c@]);
    }
    let call = Statement::Expr(Expr::Call(Box::new(Expr::Path(path, PathType::Namespace)), args));
    let inner = mk_block(one_stmt(call));
    mk_block(one_stmt(Statement::Expr(Expr::Unsafe(Box::new(inner)))))
}

fn one_stmt(s: Statement) -> (res: Vec<Statement>)
    ensures
        stmts_view(res@) == seq![s@],
{
    let mut v: Vec<Statement> = Vec::new();
    let ghost sv = s@;
    v.push(s);
    proof {
        lemma_views_empty();
        assert(v@ =~= Seq::<Statement>::empty().push(v@[0]));
        assert(Seq::<SpecStatement>::empty().push(sv) =~= seq![sv]);
    }
    v
}

fn wrapper_fn(name: &str, params: Vec<Param>, c: &str, args: Vec<Expr>, docs: Vec<String>) -> (f:
    FunctionDef)
    ensures
        f@ == s_wrapper_fn(
            name@,
            params_view(params@),
            c@,
            exprs_view(args@),
            strings_view(docs@),
        ),
{
    let attrs: Vec<Attribute> = Vec::new();
    let f = FunctionDef {
        name: name.to_string(),
        params,
        return_type: Type::Unit,
        body: c_call_block(c, args),
        asyncness: false,
        vis: Visibility::Public,
        docs,
        attrs,
    };
    proof {
        assert(attrs_view(f.attrs@) =~= Seq::<SpecAttribute>::empty());
    }
    f
}

fn two_strings(a: String, b: String) -> (res: Vec<String>)
    ensures
        strings_view(res@) == seq![a@, b@],
{
    let mut v: Vec<String> = Vec::new();
    proof {
        assert(strings_view(v@) =~= Seq::<Seq<char>>::empty());
    }
    push_view(&mut v, a);
    push_view(&mut v, b);
    proof {
        assert(strings_view(v@) =~= seq![a@, b@]);
    }
    v
}

fn port_wrapper(conv: &AadlConverter, c: &str, port: &PortSpec) -> (res: Option<FunctionDef>)
    ensures
        match spec_port_wrapper(conv.types(), c@, *port) {
            Some(w) => res matches Some(r) && r@ == w,
            None => res is None,
        },
{
    let (func_name, mutable): (&str, bool) = match port.direction {
        PortDirection::Out => ("send", true),
        PortDirection::In => ("receive", false),
        PortDirection::InOut => {
            return None;
        },
    };
    let param_type = Type::Reference(Box::new(conv.convert_paramport_type(port)), mutable, mutable);
    let pname = to_lower(port.identifier.as_str());
    let mut params: Vec<Param> = Vec::new();
    params.push(Param { name: pname.clone(), ty: param_type });
    let mut args: Vec<Expr> = Vec::new();
    args.push(Expr::Ident(pname));
    let docs = two_strings(
        concat("// Wrapper for C function ", c),
        concat("// Original AADL port: ", port.identifier.as_str()),
    );
    let ghost pv = params@;
    let ghost av = args@;
    proof {
        assert(pv.drop_last() =~= Seq::<Param>::empty());
        assert(params_view(pv) =~= seq![pv[0]@]);
        assert(av.drop_last() =~= Seq::<Expr>::empty());
        lemma_views_empty();
        assert(exprs_view(av) =~= seq![av[0]@]);
    }
    Some(wrapper_fn(func_name, params, c, args, docs))
}

fn arg_name(i: usize) -> (res: String)
    ensures
        res@ == spec_arg_name(i as int),
{
    let d = u64_to_decimal(i as u64);
    concat("arg", d.as_str())
}

fn call_wrapper(c: &str, dts: &Vec<String>) -> (res: FunctionDef)
    ensures
        res@ == spec_call_wrapper(c@, strings_view(dts@)),
{
    let ghost dv = strings_view(dts@);
    let mut params: Vec<Param> = Vec::new();
    let mut call_args: Vec<Expr> = Vec::new();
    let mut i: usize = 0;
    proof {
        lemma_views_empty();
        assert(params_view(params@) =~= spec_call_params(dv.take(0)));
        assert(exprs_view(call_args@) =~= spec_call_args(0));
    }
    while i < dts.len()
        invariant
            i <= dts@.len(),
            dv == strings_view(dts@),
            params_view(params@) == spec_call_params(dv.take(i as int)),
            exprs_view(call_args@) == spec_call_args(i as nat),
        decreases dts@.len() - i,
    {
        let param_name = arg_name(i);
        let ghost pp = params@;
        let dt = dts[i].clone();
        let pn = param_name.clone();
        proof {
            assert(dt@ == dv[i as int]);
            assert(pn@ == spec_arg_name(i as int));
        }
        let inner = Type::Named(dt);
        assert(inner@ == SpecType::Named(dv[i as int]));
        let ty = Type::Reference(Box::new(inner), true, true);
        assert(ty@ == SpecType::Reference(Box::new(SpecType::Named(dv[i as int])), true, true));
        let p = Param { name: pn, ty };
        let ghost pv = p@;
        params.push(p);
        let e = Expr::Ident(param_name);
        let ghost ev = e@;
        call_args.push(e);
        proof {
            assert(params@ =~= pp.push(p));
            assert(params_view(params@) =~= params_view(pp).push(pv));
            assert(dv[i as int] == dts@[i as int]@);
            assert(pv == SpecParam {
                name: spec_arg_name(i as int),
                ty: SpecType::Reference(Box::new(SpecType::Named(dv[i as int])), true, true),
            });
            assert(spec_call_params(dv.take(i + 1)) =~= spec_call_params(dv.take(i as int)).push(pv));
            assert(spec_call_args((i + 1) as nat) =~= spec_call_args(i as nat).push(ev));
        }
        i = i + 1;
    }
    proof {
        assert(dv.take(dv.len() as int) =~= dv);
    }
    let mut docs: Vec<String> = Vec::new();
    proof {
        assert(strings_view(docs@) =~= Seq::<Seq<char>>::empty());
    }
    push_view(&mut docs, concat3("// Call C function ", c, " with data access references"));
    push_view(&mut docs, "// Generated for requires data access feature".to_string());
    push_view(
        &mut docs,
        "// Note: Rust compiler will handle the reference to pointer conversion".to_string(),
    );
    proof {
        assert(strings_view(docs@) =~= seq![
            "// Call C function "@ + c@ + " with data access references"@,
            "// Generated for requires data access feature"@,
            "// Note: Rust compiler will handle the reference to pointer conversion"@,
        ]);
    }
    wrapper_fn("call", params, c, call_args, docs)
}

fn execute_wrapper(c: &str) -> (res: FunctionDef)
    ensures
        res@ == spec_execute_wrapper(c@),
{
    let docs = two_strings(
        concat("// Direct execution wrapper for C function ", c),
        "// This component has no communication ports".to_string(),
    );
    let params: Vec<Param> = Vec::new();
    let args: Vec<Expr> = Vec::new();
    proof {
        lemma_views_empty();
        assert(params_view(params@) =~= Seq::<SpecParam>::empty());
    }
    wrapper_fn("execute", params, c, args, docs)
}

fn push_fn(v: &mut Vec<Item>, f: FunctionDef)
    ensures
        items_view(final(v)@) == items_view(old(v)@).push(SpecItem::Function(f@)),
{
    v.push(Item::Function(f));
}

fn insert_all(v: &mut Vec<String>, xs: &Vec<String>)
    ensures
        strings_view(final(v)@) == spec_insert_all(strings_view(old(v)@), strings_view(xs@)),
{
    let ghost start = strings_view(v@);
    let ghost xv = strings_view(xs@);
    let mut i: usize = 0;
    proof {
        assert(xv.take(0) =~= Seq::<Seq<char>>::empty());
    }
    while i < xs.len()
        invariant
            i <= xs@.len(),
            xv == strings_view(xs@),
            strings_view(v@) == spec_insert_all(start, xv.take(i as int)),
        decreases xs@.len() - i,
    {
        insert_unique(v, &xs[i]);
        proof {
            assert(xv.take(i + 1) =~= xv.take(i as int).push(xv[i as int]));
            lemma_insert_all_push(start, xv.take(i as int), xv[i as int]);
        }
        i = i + 1;
    }
    proof {
        assert(xv.take(xv.len() as int) =~= xv);
    }
}

fn non_primitive(v: &Vec<String>, out: &mut Vec<String>)
    ensures
        strings_view(final(out)@) == strings_view(old(out)@) + spec_non_primitive(strings_view(v@)),
{
    let ghost start = strings_view(out@);
    let ghost sv = strings_view(v@);
    let mut i: usize = 0;
    proof {
        assert(sv.take(0) =~= Seq::<Seq<char>>::empty());
        assert(start + Seq::<Seq<char>>::empty() =~= start);
    }
    while i < v.len()
        invariant
            i <= v@.len(),
            sv == strings_view(v@),
            strings_view(out@) == start + spec_non_primitive(sv.take(i as int)),
        decreases v@.len() - i,
    {
        proof {
            assert(sv.take(i + 1).drop_last() =~= sv.take(i as int));
            assert(sv.take(i + 1).last() == sv[i as int]);
        }
        let ghost before = strings_view(out@);
        if !is_rust_primitive_type(v[i].as_str()) {
            push_view(out, v[i].clone());
            proof {
                assert(before.push(sv[i as int]) =~= start + spec_non_primitive(sv.take(i + 1)));
            }
        } else {
            proof {
                assert(before =~= start + spec_non_primitive(sv.take(i + 1)));
            }
        }
        i = i + 1;
    }
    proof {
        assert(sv.take(sv.len() as int) =~= sv);
    }
}

/// One feature's wrapper and imports, added to `functions` and `imports`.
fn wrapper_step(
    conv: &AadlConverter,
    package: &Package,
    c: &str,
    f: &Feature,
    functions: &mut Vec<Item>,
    imports: &mut Vec<String>,
)
    ensures
        (items_view(final(functions)@), strings_view(final(imports)@)) == spec_wrapper_step(
            conv.types(),
            *package,
            c@,
            (items_view(old(functions)@), strings_view(old(imports)@)),
            *f,
        ),
{
    match f {
        Feature::Port(port) => {
            match port_wrapper(conv, c, port) {
                Some(w) => {
                    let ty = conv.convert_paramport_type(port);
                    if let Type::Named(n) = &ty {
                        if !is_rust_primitive_type(n.as_str()) {
                            insert_unique(imports, n);
                        }
                    }
                    push_fn(functions, w);
                },
                None => {},
            }
        },
        Feature::SubcomponentAccess(sa) => {
            if let SubcomponentAccessSpec::Data(data_access) = sa {
                let is_requires = match data_access.direction {
                    AccessDirection::Requires => true,
                    _ => false,
                };
                if is_requires {
                    if let Some(
                        DataAccessReference::Classifier(
                            UniqueComponentClassifierReference::Implementation(impl_ref),
                        ),
                    ) = &data_access.classifier {
                        let data_types = find_data_type_from_implementation(
                            impl_ref.implementation_name.type_identifier.as_str(),
                            package,
                            conv,
                        );
                        insert_all(imports, &data_types);
                        if data_types.len() > 0 {
                            let w = call_wrapper(c, &data_types);
                            push_fn(functions, w);
                        }
                    }
                }
            }
        },
    }
}

fn collect_wrappers(
    conv: &AadlConverter,
    comp: &ComponentType,
    c: &str,
    package: &Package,
) -> (res: (Vec<Item>, Vec<String>))
    ensures
        (items_view(res.0@), strings_view(res.1@)) == spec_wrapper_state(
            conv.types(),
            *comp,
            c@,
            *package,
        ),
{
    let ghost types = conv.types();
    let mut functions: Vec<Item> = Vec::new();
    let mut types_to_import: Vec<String> = Vec::new();
    proof {
        lemma_views_empty();
        assert(strings_view(types_to_import@) =~= Seq::<Seq<char>>::empty());
    }
    if let FeatureClause::Items(features) = &comp.features {
        let mut i: usize = 0;
        proof {
            assert(features@.take(0) =~= Seq::<Feature>::empty());
        }
        while i < features.len()
            invariant
                i <= features@.len(),
                types == conv.types(),
                (items_view(functions@), strings_view(types_to_import@)) == spec_wrapper_fold(
                    types,
                    *package,
                    c@,
                    features@.take(i as int),
                ),
            decreases features@.len() - i,
        {
            proof {
                assert(features@.take(i + 1).drop_last() =~= features@.take(i as int));
                assert(features@.take(i + 1).last() == features@[i as int]);
            }
            wrapper_step(conv, package, c, &features[i], &mut functions, &mut types_to_import);
            i = i + 1;
        }
        proof {
            assert(features@.take(features@.len() as int) =~= features@);
        }
    }
    (functions, types_to_import)
}

fn module_docs(comp: &ComponentType, c: &str) -> (res: Vec<String>)
    ensures
        strings_view(res@) == spec_module_docs(*comp, c@),
{
    let source_files = extract_source_files(comp);
    let mut docs = two_strings(
        concat("// Auto-generated from AADL subprogram: ", comp.identifier.as_str()),
        concat("// C binding to: ", c),
    );
    let ghost first = strings_view(docs@);
    if source_files.len() > 0 {
        let joined = join_strings(&source_files, ", ");
        push_view(&mut docs, concat("// source_files: ", joined.as_str()));
        proof {
            assert(strings_view(docs@) =~= spec_module_docs(*comp, c@));
        }
    } else {
        proof {
            assert(strings_view(docs@) =~= spec_module_docs(*comp, c@));
        }
    }
    docs
}

fn module_use(c: &str, names: &Vec<String>) -> (res: Item)
    ensures
        res@ == spec_module_use(c@, strings_view(names@)),
{
    let mut imports: Vec<String> = Vec::new();
    proof {
        assert(strings_view(imports@) =~= Seq::<Seq<char>>::empty());
    }
    push_view(&mut imports, c.to_string());
    non_primitive(names, &mut imports);
    let mut use_path: Vec<String> = Vec::new();
    proof {
        assert(strings_view(use_path@) =~= Seq::<Seq<char>>::empty());
    }
    push_view(&mut use_path, "super".to_string());
    proof {
        assert(strings_view(use_path@) =~= seq!["super"@]);
        assert(strings_view(imports@) =~= seq![c@] + spec_non_primitive(strings_view(names@)));
    }
    Item::Use(UseStatement { path: use_path, kind: UseKind::Nested(imports) })
}

/// The Rust module of wrappers for a subprogram type bound to the C
/// function `c_func_name` (see `spec_c_wrapper_module`); the names to
/// import come in the order first met.
pub fn generate_c_function_wrapper(
    temp_converter: &AadlConverter,
    comp: &ComponentType,
    c_func_name: &str,
    package: &Package,
) -> (res: Vec<Item>)
    ensures
        items_view(res@) == seq![
            SpecItem::Mod(
                Box::new(
                    spec_c_wrapper_module(temp_converter.types(), *comp, c_func_name@, *package),
                ),
            ),
        ],
{
    let (mut functions, types_to_import) = collect_wrappers(temp_converter, comp, c_func_name, package);
    if functions.len() == 0 {
        proof {
            assert(functions@ =~= Seq::<Item>::empty());
            lemma_views_empty();
        }
        push_fn(&mut functions, execute_wrapper(c_func_name));
        proof {
            assert(items_view(functions@) =~= seq![SpecItem::Function(spec_execute_wrapper(c_func_name@))]);
        }
    }
    let ghost fv = items_view(functions@);
    let docs = module_docs(comp, c_func_name);
    let use_stmt = module_use(c_func_name, &types_to_import);
    let ghost uv = use_stmt@;
    let mut module_items: Vec<Item> = Vec::new();
    module_items.push(use_stmt);
    proof {
        lemma_views_empty();
        assert(items_view(module_items@) =~= seq![uv]);
    }
    let ghost mi = module_items@;
    let ghost fi = functions@;
    module_items.append(&mut functions);
    proof {
        lemma_items_view_concat(mi, fi);
        assert(items_view(module_items@) == seq![uv] + fv);
    }
    let module = RustModule {
        name: to_lower(comp.identifier.as_str()),
        docs,
        items: module_items,
        attrs: Vec::new(),
        vis: Visibility::Public,
        withs: Vec::new(),
    };
    proof {
        assert(attrs_view(module.attrs@) =~= Seq::<SpecAttribute>::empty());
        assert(module.withs@.map_values(|w: RustWith| w.view()) =~= Seq::<SpecRustWith>::empty());
    }
    let mut items: Vec<Item> = Vec::new();
    let ghost mview = module@;
    items.push(Item::Mod(Box::new(module)));
    proof {
        assert(items_view(items@) =~= seq![SpecItem::Mod(Box::new(mview))]);
    }
    items
}

/// The items for a subprogram type: a module of wrappers where the type is
/// bound to a C function, none otherwise.
pub fn convert_subprogram_component(
    temp_converter: &AadlConverter,
    comp: &ComponentType,
    package: &Package,
) -> (res: Vec<Item>)
    ensures
        match spec_c_function_name(*comp) {
            Some(c) => items_view(res@) == seq![
                SpecItem::Mod(
                    Box::new(spec_c_wrapper_module(temp_converter.types(), *comp, c, *package)),
                ),
            ],
            None => res@.len() == 0,
        },
{
    let items: Vec<Item> = Vec::new();
    if let Some(c_func_name) = extract_c_function_name(comp) {
        return generate_c_function_wrapper(temp_converter, comp, c_func_name.as_str(), package);
    }
    items
}

} // verus!
