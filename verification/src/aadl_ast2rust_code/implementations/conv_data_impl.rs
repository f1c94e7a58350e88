//! Data implementations: a data type declared a struct, a union or a tagged
//! union becomes one over its data subcomponents; its subprograms become
//! methods; and where a process holds the data as a shared variable, it
//! gets `new` and an `Arc<Mutex<..>>` type alias.

use vstd::prelude::*;
use crate::aadl_ast2rust_code::converter::{assoc_first, pair_table_view, type_table_view};
use crate::aadlAst2rustCode::implementations::conv_data_impl::{
    count_category, mapped_type, spec_compound, spec_mapped_type, spec_of_category,
    spec_shared_alias,
};
use crate::ast::aadl_ast_cj::{
    AadlDeclaration, ComponentCategory, ComponentImplementation, Package, PackageSection, Subcomponent,
    SubcomponentClassifier, SubcomponentClause, UniqueComponentClassifierReference,
};
use crate::intermediate_ast::{
    attrs_view, exprs_view, fields_view, impl_items_view, items_view, lemma_views_empty, mk_block,
    mk_call, mk_ident, mk_named, mk_member, params_view, props_view, s_block, s_ident, stmts_view, types_view,
    variants_view, vec1_stmt, Attribute, EnumDef, Expr, Field, FunctionDef, ImplBlock, ImplItem, Item,
    Param, PathType, SpecAttribute, SpecEnumDef, SpecExpr, SpecField, SpecFunctionDef, SpecImplBlock,
    SpecImplItem, SpecItem, SpecParam, SpecStatement, SpecType, SpecVariant, Statement, StructDef,
    StruProperty, Type, TypeAlias, UnionDef, Variant, Visibility,
};
use crate::text::{
    chars_of, concat, concat3, join_strings, lowercase, seq_join, str_eq, strings_view, to_lower,
    to_upper, uppercase,
};

verus! {

broadcast use crate::intermediate_ast::group_view_laws;

// ---------------------------------------------------------------------------
// Shared variables
// ---------------------------------------------------------------------------

/// A data subcomponent that names implementation `name`.
pub open spec fn spec_holds_data(sub: Subcomponent, name: Seq<char>) -> bool {
    sub.category == ComponentCategory::Data && (sub.classifier matches SubcomponentClassifier::ClassifierReference(
        UniqueComponentClassifierReference::Implementation(r),
    ) && r.implementation_name.type_identifier@ == name)
}

/// A process implementation with a data subcomponent of implementation `name`.
pub open spec fn spec_decl_shares(decl: AadlDeclaration, name: Seq<char>) -> bool {
    match decl {
        AadlDeclaration::ComponentImplementation(pi) => pi.category == ComponentCategory::Process && match pi.subcomponents {
            SubcomponentClause::Items(subs) => exists|j: int| 0 <= j < subs@.len() && #[trigger] spec_holds_data(subs@[j], name),
            _ => false,
        },
        _ => false,
    }
}

pub open spec fn spec_section_shares(sec: Option<PackageSection>, name: Seq<char>) -> bool {
    match sec {
        Some(s) => exists|i: int| 0 <= i < s.declarations@.len() && #[trigger] spec_decl_shares(s.declarations@[i], name),
        None => false,
    }
}

/// Data implementation `name` is a shared variable: some process of the
/// package, public or private, holds it as a data subcomponent.
pub open spec fn spec_is_shared(package: Package, name: Seq<char>) -> bool {
    spec_section_shares(package.public_section, name) || spec_section_shares(package.private_section, name)
}

fn decl_shares(decl: &AadlDeclaration, name: &str) -> (res: bool)
    ensures
        res == spec_decl_shares(*decl, name@),
{
    if let AadlDeclaration::ComponentImplementation(process_impl) = decl {
        if process_impl.category == ComponentCategory::Process {
            if let SubcomponentClause::Items(subs) = &process_impl.subcomponents {
                let mut j: usize = 0;
                while j < subs.len()
                    invariant
                        j <= subs@.len(),
                        spec_decl_shares(*decl, name@) == exists|k: int|
                            0 <= k < subs@.len() && #[trigger] spec_holds_data(subs@[k], name@),
                        forall|k: int| 0 <= k < j ==> !#[trigger] spec_holds_data(subs@[k], name@),
                    decreases subs@.len() - j,
                {
                    let sub = &subs[j];
                    if sub.category == ComponentCategory::Data {
                        if let SubcomponentClassifier::ClassifierReference(
                            UniqueComponentClassifierReference::Implementation(data_ref),
                        ) = &sub.classifier {
                            if str_eq(data_ref.implementation_name.type_identifier.as_str(), name) {
                                assert(spec_holds_data(subs@[j as int], name@));
                                return true;
                            }
                        }
                    }
                    j = j + 1;
                }
            }
        }
    }
    false
}

fn section_shares(sec: &Option<PackageSection>, name: &str) -> (res: bool)
    ensures
        res == spec_section_shares(*sec, name@),
{
    if let Some(section) = sec {
        let mut i: usize = 0;
        while i < section.declarations.len()
            invariant
                i <= section.declarations@.len(),
                spec_section_shares(*sec, name@) == exists|k: int|
                    0 <= k < section.declarations@.len() && #[trigger] spec_decl_shares(
                        section.declarations@[k],
                        name@,
                    ),
                forall|k: int| 0 <= k < i ==> !#[trigger] spec_decl_shares(section.declarations@[k], name@),
            decreases section.declarations@.len() - i,
        {
            if decl_shares(&section.declarations[i], name) {
                return true;
            }
            i = i + 1;
        }
    }
    false
}

/// Whether data implementation `data_impl_name` is a shared variable (see
/// `spec_is_shared`).
pub fn is_shared_data_component(package: &Package, data_impl_name: &str) -> (res: bool)
    ensures
        res == spec_is_shared(*package, data_impl_name@),
{
    section_shares(&package.public_section, data_impl_name) || section_shares(
        &package.private_section,
        data_impl_name,
    )
}


// ---------------------------------------------------------------------------
// Structs, unions and tagged unions
// ---------------------------------------------------------------------------

/// The type of a member: the type the data subcomponent's implementation
/// stands for, `UnknownType` where it names no implementation.
pub open spec fn spec_member_type(types: Seq<(Seq<char>, SpecType)>, sub: Subcomponent) -> SpecType {
    match sub.classifier {
        SubcomponentClassifier::ClassifierReference(UniqueComponentClassifierReference::Implementation(r)) =>
            spec_mapped_type(types, r.implementation_name.type_identifier@),
        _ => SpecType::Named("UnknownType"@),
    }
}

fn member_type(type_mappings: &Vec<(String, Type)>, sub: &Subcomponent) -> (res: Type)
    ensures
        res@ == spec_member_type(type_table_view(type_mappings@), *sub),
{
    match &sub.classifier {
        SubcomponentClassifier::ClassifierReference(UniqueComponentClassifierReference::Implementation(r)) =>
            mapped_type(type_mappings, &r.implementation_name.type_identifier),
        _ => mk_named("UnknownType"),
    }
}

/// A field per data subcomponent, named as the subcomponent.
pub open spec fn spec_member_fields(types: Seq<(Seq<char>, SpecType)>, subs: Seq<Subcomponent>, doc: Seq<char>) -> Seq<
    SpecField,
> {
    subs.map_values(
        |sub: Subcomponent|
            SpecField {
                name: sub.identifier@,
                ty: spec_member_type(types, sub),
                docs: seq![doc + sub.identifier@],
                attrs: Seq::empty(),
            },
    )
}

fn one_string(s: String) -> (res: Vec<String>)
    ensures
        strings_view(res@) == seq![s@],
{
    let ghost sv = s@;
    let mut v: Vec<String> = Vec::new();
    v.push(s);
    assert(strings_view(v@) =~= seq![sv]);
    v
}

fn debug_clone() -> (res: Vec<String>)
    ensures
        strings_view(res@) == seq!["Debug"@, "Clone"@],
{
    let mut v: Vec<String> = Vec::new();
    v.push("Debug".to_string());
    v.push("Clone".to_string());
    assert(strings_view(v@) =~= seq!["Debug"@, "Clone"@]);
    v
}

fn member_fields(type_mappings: &Vec<(String, Type)>, subs: &Vec<Subcomponent>, doc: &str) -> (res: Vec<Field>)
    ensures
        fields_view(res@) == spec_member_fields(
            type_table_view(type_mappings@),
            spec_of_category(subs@, ComponentCategory::Data),
            doc@,
        ),
{
    let ghost tv = type_table_view(type_mappings@);
    let mut fields: Vec<Field> = Vec::new();
    let mut i: usize = 0;
    proof {
        assert(subs@.take(0) =~= Seq::<Subcomponent>::empty());
        assert(fields_view(fields@) =~= Seq::<SpecField>::empty());
        assert(spec_member_fields(tv, Seq::<Subcomponent>::empty(), doc@) =~= Seq::<SpecField>::empty());
    }
    while i < subs.len()
        invariant
            i <= subs@.len(),
            tv == type_table_view(type_mappings@),
            fields_view(fields@) == spec_member_fields(
                tv,
                spec_of_category(subs@.take(i as int), ComponentCategory::Data),
                doc@,
            ),
        decreases subs@.len() - i,
    {
        proof {
            assert(subs@.take(i + 1).drop_last() =~= subs@.take(i as int));
            assert(subs@.take(i + 1).last() == subs@[i as int]);
        }
        let ghost before = spec_of_category(subs@.take(i as int), ComponentCategory::Data);
        let sub = &subs[i];
        if sub.category == ComponentCategory::Data {
            let ty = member_type(type_mappings, sub);
            let attrs: Vec<Attribute> = Vec::new();
            assert(attrs_view(attrs@) =~= Seq::<SpecAttribute>::empty());
            let f = Field {
                name: sub.identifier.clone(),
                ty,
                docs: one_string(concat(doc, sub.identifier.as_str())),
                attrs,
            };
            let ghost fv = f@;
            let ghost fb = fields_view(fields@);
            fields.push(f);
            proof {
                assert(fields_view(fields@) =~= fb.push(fv));
                assert(spec_member_fields(tv, before.push(*sub), doc@) =~= spec_member_fields(tv, before, doc@).push(
                    fv,
                ));
            }
        } else {
            assert(before + Seq::<Subcomponent>::empty() =~= before);
        }
        i = i + 1;
    }
    proof {
        assert(subs@.take(subs@.len() as int) =~= subs@);
    }
    fields
}

/// The struct a data implementation declared a struct becomes.
pub fn determine_struct_impl(
    type_mappings: &Vec<(String, Type)>,
    impl_: &ComponentImplementation,
    subcomponents: &Vec<Subcomponent>,
) -> (res: StructDef)
    ensures
        res@ == spec_compound(
            impl_.name.type_identifier@,
            spec_member_fields(
                type_table_view(type_mappings@),
                spec_of_category(subcomponents@, ComponentCategory::Data),
                "// 子组件字段: "@,
            ),
            "// AADL Struct: "@,
        ),
{
    let props: Vec<StruProperty> = Vec::new();
    let generics: Vec<String> = Vec::new();
    proof {
        assert(props_view(props@) =~= Seq::empty());
        assert(strings_view(generics@) =~= Seq::<Seq<char>>::empty());
    }
    StructDef {
        name: impl_.name.type_identifier.clone(),
        fields: member_fields(type_mappings, subcomponents, "// 子组件字段: "),
        properties: props,
        generics,
        derives: debug_clone(),
        docs: one_string(concat("// AADL Struct: ", impl_.name.type_identifier.as_str())),
        vis: Visibility::Public,
    }
}

/// The union a data implementation declared a union becomes.
pub fn determine_union_impl(
    type_mappings: &Vec<(String, Type)>,
    impl_: &ComponentImplementation,
    subcomponents: &Vec<Subcomponent>,
) -> (res: UnionDef)
    ensures
        res@ == spec_compound(
            impl_.name.type_identifier@,
            spec_member_fields(
                type_table_view(type_mappings@),
                spec_of_category(subcomponents@, ComponentCategory::Data),
                "// 联合体字段: "@,
            ),
            "// AADL Union: "@,
        ),
{
    let props: Vec<StruProperty> = Vec::new();
    let generics: Vec<String> = Vec::new();
    proof {
        assert(props_view(props@) =~= Seq::empty());
        assert(strings_view(generics@) =~= Seq::<Seq<char>>::empty());
    }
    UnionDef {
        name: impl_.name.type_identifier.clone(),
        fields: member_fields(type_mappings, subcomponents, "// 联合体字段: "),
        properties: props,
        generics,
        derives: debug_clone(),
        docs: one_string(concat("// AADL Union: ", impl_.name.type_identifier.as_str())),
        vis: Visibility::Public,
    }
}

/// A name with its first character in upper case (`Default` for an empty
/// name).
pub open spec fn spec_capitalized(s: Seq<char>) -> Seq<char> {
    if s.len() == 0 {
        "Default"@
    } else {
        uppercase(s.take(1)) + s.skip(1)
    }
}

/// A name with its first character in upper case (see `spec_capitalized`).
pub fn capitalized(s: &str) -> (res: String)
    ensures
        res@ == spec_capitalized(s@),
{
    let n = s.unicode_len();
    if n == 0 {
        return "Default".to_string();
    }
    let first = s.substring_char(0, 1);
    let rest = s.substring_char(1, n);
    proof {
        assert(first@ =~= s@.take(1));
        assert(rest@ =~= s@.skip(1));
    }
    let up = to_upper(first);
    concat(up.as_str(), rest)
}

/// The variants of a tagged union: one per data subcomponent, named as the
/// subcomponent with a capital, carrying its member type.
pub open spec fn spec_tagged_variants(types: Seq<(Seq<char>, SpecType)>, subs: Seq<Subcomponent>) -> Seq<
    SpecVariant,
> {
    subs.map_values(
        |sub: Subcomponent|
            SpecVariant {
                name: spec_capitalized(sub.identifier@),
                data: Some(seq![spec_member_type(types, sub)]),
                docs: seq!["// 标记联合体字段: "@ + sub.identifier@],
            },
    )
}

pub open spec fn spec_tagged_union(types: Seq<(Seq<char>, SpecType)>, impl_: ComponentImplementation, subs: Seq<
    Subcomponent,
>) -> SpecEnumDef {
    SpecEnumDef {
        name: impl_.name.type_identifier@,
        variants: spec_tagged_variants(types, spec_of_category(subs, ComponentCategory::Data)),
        generics: Seq::empty(),
        derives: seq!["Debug"@, "Clone"@],
        docs: seq!["// AADL Tagged Union: "@ + impl_.name.type_identifier@],
        vis: Visibility::Public,
    }
}

/// The enum a data implementation declared a tagged union becomes.
pub fn determine_taggedunion_impl(
    type_mappings: &Vec<(String, Type)>,
    impl_: &ComponentImplementation,
    subcomponents: &Vec<Subcomponent>,
) -> (res: EnumDef)
    ensures
        res@ == spec_tagged_union(type_table_view(type_mappings@), *impl_, subcomponents@),
{
    let ghost tv = type_table_view(type_mappings@);
    let mut variants: Vec<Variant> = Vec::new();
    let mut i: usize = 0;
    proof {
        assert(subcomponents@.take(0) =~= Seq::<Subcomponent>::empty());
        assert(variants_view(variants@) =~= Seq::<SpecVariant>::empty());
        assert(spec_tagged_variants(tv, Seq::<Subcomponent>::empty()) =~= Seq::<SpecVariant>::empty());
    }
    while i < subcomponents.len()
        invariant
            i <= subcomponents@.len(),
            tv == type_table_view(type_mappings@),
            variants_view(variants@) == spec_tagged_variants(
                tv,
                spec_of_category(subcomponents@.take(i as int), ComponentCategory::Data),
            ),
        decreases subcomponents@.len() - i,
    {
        proof {
            assert(subcomponents@.take(i + 1).drop_last() =~= subcomponents@.take(i as int));
            assert(subcomponents@.take(i + 1).last() == subcomponents@[i as int]);
        }
        let ghost before = spec_of_category(subcomponents@.take(i as int), ComponentCategory::Data);
        let sub = &subcomponents[i];
        if sub.category == ComponentCategory::Data {
            let ty = member_type(type_mappings, sub);
            let ghost tyv = ty@;
            let mut data: Vec<Type> = Vec::new();
            data.push(ty);
            proof {
                lemma_views_empty();
                assert(data@.drop_last() =~= Seq::<Type>::empty());
                assert(types_view(data@) =~= seq![tyv]);
            }
            let v = Variant {
                name: capitalized(sub.identifier.as_str()),
                data: Some(data),
                docs: one_string(concat("// 标记联合体字段: ", sub.identifier.as_str())),
            };
            let ghost vv = v.view();
            let ghost vb = variants_view(variants@);
            variants.push(v);
            proof {
                assert(variants_view(variants@) =~= vb.push(vv));
                assert(spec_tagged_variants(tv, before.push(*sub)) =~= spec_tagged_variants(tv, before).push(vv));
            }
        } else {
            assert(before + Seq::<Subcomponent>::empty() =~= before);
        }
        i = i + 1;
    }
    proof {
        assert(subcomponents@.take(subcomponents@.len() as int) =~= subcomponents@);
    }
    let generics: Vec<String> = Vec::new();
    assert(strings_view(generics@) =~= Seq::<Seq<char>>::empty());
    EnumDef {
        name: impl_.name.type_identifier.clone(),
        variants,
        generics,
        derives: debug_clone(),
        docs: one_string(concat("// AADL Tagged Union: ", impl_.name.type_identifier.as_str())),
        vis: Visibility::Public,
    }
}


// ---------------------------------------------------------------------------
// Methods
// ---------------------------------------------------------------------------

/// `&mut self.<d>` for each data subcomponent `d`.
pub open spec fn spec_data_refs(data: Seq<Subcomponent>) -> Seq<SpecExpr> {
    data.map_values(
        |d: Subcomponent|
            SpecExpr::Reference(
                Box::new(SpecExpr::Path(seq!["self"@, d.identifier@], PathType::Member)),
                true,
                true,
            ),
    )
}

/// `pub fn <sp>(&mut self) { <sp>::call(<&mut self.d, ...>) }` for the
/// subprogram implementation `sp`, its name in lower case.
pub open spec fn spec_subprogram_method(sp: Seq<char>, data: Seq<Subcomponent>) -> SpecImplItem {
    let m = lowercase(sp);
    SpecImplItem::Method(
        SpecFunctionDef {
            name: m,
            params: seq![
                SpecParam {
                    name: "self"@,
                    ty: SpecType::Reference(Box::new(SpecType::Named("Self"@)), true, true),
                },
            ],
            return_type: SpecType::Unit,
            body: s_block(
                seq![
                    SpecStatement::Expr(
                        SpecExpr::Call(
                            Box::new(SpecExpr::Path(seq![m, "call"@], PathType::Namespace)),
                            spec_data_refs(data),
                        ),
                    ),
                ],
            ),
            asyncness: false,
            vis: Visibility::Public,
            docs: seq!["/// "@ + m + " : provides subprogram access "@ + sp + ";"@],
            attrs: Seq::empty(),
        },
    )
}

/// A method per subprogram subcomponent that names an implementation.
pub open spec fn spec_subprogram_methods(subs: Seq<Subcomponent>, data: Seq<Subcomponent>) -> Seq<SpecImplItem>
    decreases subs.len(),
{
    if subs.len() == 0 {
        Seq::empty()
    } else {
        spec_subprogram_methods(subs.drop_last(), data) + if subs.last().category == ComponentCategory::Subprogram {
            match subs.last().classifier {
                SubcomponentClassifier::ClassifierReference(
                    UniqueComponentClassifierReference::Implementation(r),
                ) => seq![spec_subprogram_method(r.implementation_name.type_identifier@, data)],
                _ => Seq::empty(),
            }
        } else {
            Seq::empty()
        }
    }
}

/// `pub fn new() -> Self`, returning the data with every field 0.
pub open spec fn spec_data_new_method(name: Seq<char>, data: Seq<Subcomponent>) -> SpecImplItem {
    let inits = data.map_values(|d: Subcomponent| "            "@ + d.identifier@ + ": 0"@);
    SpecImplItem::Method(
        SpecFunctionDef {
            name: "new"@,
            params: Seq::empty(),
            return_type: SpecType::Named("Self"@),
            body: s_block(
                seq![
                    SpecStatement::Expr(
                        s_ident("return "@ + name + " {\n"@ + seq_join(inits, ",\n"@) + "\n        }"@),
                    ),
                ],
            ),
            asyncness: false,
            vis: Visibility::Public,
            docs: seq!["// Creates a new instance of "@ + name],
            attrs: Seq::empty(),
        },
    )
}

fn data_refs(subs: &Vec<Subcomponent>) -> (res: Vec<Expr>)
    ensures
        exprs_view(res@) == spec_data_refs(spec_of_category(subs@, ComponentCategory::Data)),
{
    let mut out: Vec<Expr> = Vec::new();
    let mut i: usize = 0;
    proof {
        lemma_views_empty();
        assert(subs@.take(0) =~= Seq::<Subcomponent>::empty());
        assert(spec_data_refs(Seq::<Subcomponent>::empty()) =~= Seq::<SpecExpr>::empty());
    }
    while i < subs.len()
        invariant
            i <= subs@.len(),
            exprs_view(out@) == spec_data_refs(spec_of_category(subs@.take(i as int), ComponentCategory::Data)),
        decreases subs@.len() - i,
    {
        proof {
            assert(subs@.take(i + 1).drop_last() =~= subs@.take(i as int));
            assert(subs@.take(i + 1).last() == subs@[i as int]);
        }
        let ghost before = spec_of_category(subs@.take(i as int), ComponentCategory::Data);
        let sub = &subs[i];
        if sub.category == ComponentCategory::Data {
            let e = Expr::Reference(Box::new(mk_member("self", sub.identifier.as_str())), true, true);
            let ghost ev = e@;
            assert(ev == SpecExpr::Reference(
                Box::new(SpecExpr::Path(seq!["self"@, sub.identifier@], PathType::Member)),
                true,
                true,
            ));
            out.push(e);
            proof {
                assert(spec_data_refs(before.push(*sub)) =~= spec_data_refs(before).push(ev));
            }
        } else {
            assert(before + Seq::<Subcomponent>::empty() =~= before);
        }
        i = i + 1;
    }
    proof {
        assert(subs@.take(subs@.len() as int) =~= subs@);
    }
    out
}

fn subprogram_method(sp: &String, subs: &Vec<Subcomponent>) -> (res: ImplItem)
    ensures
        res@ == spec_subprogram_method(sp@, spec_of_category(subs@, ComponentCategory::Data)),
{
    let m = to_lower(sp.as_str());
    let mut path: Vec<String> = Vec::new();
    path.push(m.clone());
    path.push("call".to_string());
    assert(strings_view(path@) =~= seq![m@, "call"@]);
    let call = mk_call(Expr::Path(path, PathType::Namespace), data_refs(subs));
    let mut params: Vec<Param> = Vec::new();
    params.push(Param { name: "self".to_string(), ty: Type::Reference(Box::new(mk_named("Self")), true, true) });
    assert(params_view(params@) =~= seq![
        SpecParam { name: "self"@, ty: SpecType::Reference(Box::new(SpecType::Named("Self"@)), true, true) },
    ]);
    let doc = concat3("/// ", m.as_str(), " : provides subprogram access ");
    let doc = concat3(doc.as_str(), sp.as_str(), ";");
    let attrs: Vec<Attribute> = Vec::new();
    assert(attrs_view(attrs@) =~= Seq::<SpecAttribute>::empty());
    ImplItem::Method(
        FunctionDef {
            name: m,
            params,
            return_type: Type::Unit,
            body: mk_block(vec1_stmt(Statement::Expr(call))),
            asyncness: false,
            vis: Visibility::Public,
            docs: one_string(doc),
            attrs,
        },
    )
}

fn subprogram_methods(subs: &Vec<Subcomponent>, out: &mut Vec<ImplItem>)
    ensures
        impl_items_view(final(out)@) == impl_items_view(old(out)@) + spec_subprogram_methods(
            subs@,
            spec_of_category(subs@, ComponentCategory::Data),
        ),
{
    let ghost start = impl_items_view(out@);
    let ghost data = spec_of_category(subs@, ComponentCategory::Data);
    let mut i: usize = 0;
    proof {
        assert(subs@.take(0) =~= Seq::<Subcomponent>::empty());
        assert(start + spec_subprogram_methods(Seq::<Subcomponent>::empty(), data) =~= start);
    }
    while i < subs.len()
        invariant
            i <= subs@.len(),
            data == spec_of_category(subs@, ComponentCategory::Data),
            impl_items_view(out@) == start + spec_subprogram_methods(subs@.take(i as int), data),
        decreases subs@.len() - i,
    {
        proof {
            assert(subs@.take(i + 1).drop_last() =~= subs@.take(i as int));
            assert(subs@.take(i + 1).last() == subs@[i as int]);
        }
        let ghost before = impl_items_view(out@);
        let mut pushed = false;
        let sub = &subs[i];
        if sub.category == ComponentCategory::Subprogram {
            if let SubcomponentClassifier::ClassifierReference(
                UniqueComponentClassifierReference::Implementation(impl_ref),
            ) = &sub.classifier {
                let m = subprogram_method(&impl_ref.implementation_name.type_identifier, subs);
                let ghost mv = m@;
                out.push(m);
                pushed = true;
                assert(before.push(mv) =~= before + seq![mv]);
            }
        }
        if !pushed {
            assert(before + Seq::<SpecImplItem>::empty() =~= before);
        }
        i = i + 1;
    }
    proof {
        assert(subs@.take(subs@.len() as int) =~= subs@);
    }
}


fn data_new_method(name: &String, subs: &Vec<Subcomponent>) -> (res: ImplItem)
    ensures
        res@ == spec_data_new_method(name@, spec_of_category(subs@, ComponentCategory::Data)),
{
    let mut inits: Vec<String> = Vec::new();
    let mut i: usize = 0;
    proof {
        assert(subs@.take(0) =~= Seq::<Subcomponent>::empty());
        assert(strings_view(inits@) =~= Seq::<Seq<char>>::empty());
    }
    while i < subs.len()
        invariant
            i <= subs@.len(),
            strings_view(inits@) == spec_of_category(subs@.take(i as int), ComponentCategory::Data).map_values(
                |d: Subcomponent| "            "@ + d.identifier@ + ": 0"@,
            ),
        decreases subs@.len() - i,
    {
        proof {
            assert(subs@.take(i + 1).drop_last() =~= subs@.take(i as int));
            assert(subs@.take(i + 1).last() == subs@[i as int]);
        }
        let ghost before = spec_of_category(subs@.take(i as int), ComponentCategory::Data);
        let sub = &subs[i];
        if sub.category == ComponentCategory::Data {
            let line = concat3("            ", sub.identifier.as_str(), ": 0");
            let ghost lv = line@;
            let ghost iv = strings_view(inits@);
            inits.push(line);
            proof {
                assert(strings_view(inits@) =~= iv.push(lv));
                assert(before.push(*sub).map_values(|d: Subcomponent| "            "@ + d.identifier@ + ": 0"@)
                    =~= before.map_values(|d: Subcomponent| "            "@ + d.identifier@ + ": 0"@).push(lv));
            }
        } else {
            assert(before + Seq::<Subcomponent>::empty() =~= before);
        }
        i = i + 1;
    }
    proof {
        assert(subs@.take(subs@.len() as int) =~= subs@);
    }
    let joined = join_strings(&inits, ",\n");
    let a = concat3("return ", name.as_str(), " {\n");
    let text = concat3(a.as_str(), joined.as_str(), "\n        }");
    let params: Vec<Param> = Vec::new();
    assert(params_view(params@) =~= Seq::<SpecParam>::empty());
    let attrs: Vec<Attribute> = Vec::new();
    assert(attrs_view(attrs@) =~= Seq::<SpecAttribute>::empty());
    ImplItem::Method(
        FunctionDef {
            name: "new".to_string(),
            params,
            return_type: mk_named("Self"),
            body: mk_block(vec1_stmt(Statement::Expr(mk_ident(text.as_str())))),
            asyncness: false,
            vis: Visibility::Public,
            docs: one_string(concat("// Creates a new instance of ", name.as_str())),
            attrs,
        },
    )
}

// ---------------------------------------------------------------------------
// The data implementation
// ---------------------------------------------------------------------------

/// The struct, union or tagged union the data type was declared, over its
/// data subcomponents.
pub open spec fn spec_compound_items(
    types: Seq<(Seq<char>, SpecType)>,
    kinds: Seq<(Seq<char>, Seq<char>)>,
    impl_: ComponentImplementation,
    subs: Seq<Subcomponent>,
) -> Seq<SpecItem> {
    let name = impl_.name.type_identifier@;
    let data = spec_of_category(subs, ComponentCategory::Data);
    match assoc_first(kinds, name) {
        Some(k) => if k == "struct"@ {
            seq![
                SpecItem::Struct(
                    spec_compound(name, spec_member_fields(types, data, "// 子组件字段: "@), "// AADL Struct: "@),
                ),
            ]
        } else if k == "union"@ {
            seq![
                SpecItem::Union(
                    spec_compound(name, spec_member_fields(types, data, "// 联合体字段: "@), "// AADL Union: "@),
                ),
            ]
        } else if k == "taggedunion"@ {
            seq![SpecItem::Enum(spec_tagged_union(types, impl_, subs))]
        } else {
            Seq::empty()
        },
        None => Seq::empty(),
    }
}

/// The methods of a data implementation: one per subprogram, then `new`
/// where it is a shared variable.
pub open spec fn spec_data_methods(package: Package, impl_: ComponentImplementation, subs: Seq<Subcomponent>) -> Seq<
    SpecImplItem,
> {
    let name = impl_.name.type_identifier@;
    let data = spec_of_category(subs, ComponentCategory::Data);
    spec_subprogram_methods(subs, data) + if spec_is_shared(package, name) {
        seq![spec_data_new_method(name, data)]
    } else {
        Seq::empty()
    }
}

/// What a data implementation with subcomponents becomes: the struct,
/// union or tagged union its type was declared; an `impl` block with its
/// methods where it has any; and, for a shared variable, the alias
/// `<name>Shared` of `Arc<Mutex<<name>>>`.
pub open spec fn spec_data_implementation(
    types: Seq<(Seq<char>, SpecType)>,
    kinds: Seq<(Seq<char>, Seq<char>)>,
    impl_: ComponentImplementation,
    package: Package,
) -> Seq<SpecItem> {
    match impl_.subcomponents {
        SubcomponentClause::Items(subs) => {
            let name = impl_.name.type_identifier@;
            let methods = spec_data_methods(package, impl_, subs@);
            spec_compound_items(types, kinds, impl_, subs@) + (if methods.len() > 0 {
                seq![
                    SpecItem::Impl(
                        SpecImplBlock {
                            target: SpecType::Named(name),
                            generics: Seq::empty(),
                            items: methods,
                            trait_impl: None,
                        },
                    ),
                ]
            } else {
                Seq::empty()
            }) + if spec_is_shared(package, name) {
                seq![SpecItem::TypeAlias(spec_shared_alias(name, name))]
            } else {
                Seq::empty()
            }
        },
        _ => Seq::empty(),
    }
}

fn lookup_kind<'a>(table: &'a Vec<(String, String)>, key: &str) -> (res: Option<&'a String>)
    ensures
        match assoc_first(pair_table_view(table@), key@) {
            Some(v) => res matches Some(r) && r@ == v,
            None => res is None,
        },
{
    let ghost tv = pair_table_view(table@);
    let mut i: usize = 0;
    proof {
        assert(tv.skip(0) =~= tv);
    }
    while i < table.len()
        invariant
            i <= table@.len(),
            tv == pair_table_view(table@),
            assoc_first(tv.skip(i as int), key@) == assoc_first(tv, key@),
        decreases table@.len() - i,
    {
        proof {
            assert(tv.skip(i as int).drop_first() =~= tv.skip(i + 1));
        }
        if str_eq(table[i].0.as_str(), key) {
            return Some(&table[i].1);
        }
        i = i + 1;
    }
    None
}

fn compound_items(
    type_mappings: &Vec<(String, Type)>,
    data_comp_type: &Vec<(String, String)>,
    impl_: &ComponentImplementation,
    subs: &Vec<Subcomponent>,
) -> (res: Vec<Item>)
    ensures
        items_view(res@) == spec_compound_items(
            type_table_view(type_mappings@),
            pair_table_view(data_comp_type@),
            *impl_,
            subs@,
        ),
{
    let mut items: Vec<Item> = Vec::new();
    proof {
        lemma_views_empty();
    }
    match lookup_kind(data_comp_type, impl_.name.type_identifier.as_str()) {
        Some(kind) => {
            let it = if str_eq(kind.as_str(), "struct") {
                Some(Item::Struct(determine_struct_impl(type_mappings, impl_, subs)))
            } else if str_eq(kind.as_str(), "union") {
                Some(Item::Union(determine_union_impl(type_mappings, impl_, subs)))
            } else if str_eq(kind.as_str(), "taggedunion") {
                Some(Item::Enum(determine_taggedunion_impl(type_mappings, impl_, subs)))
            } else {
                None
            };
            match it {
                Some(x) => {
                    let ghost xv = x@;
                    items.push(x);
                    assert(items_view(items@) =~= seq![xv]);
                },
                None => {},
            }
        },
        None => {},
    }
    items
}

fn shared_alias(name: &String) -> (res: TypeAlias)
    ensures
        res@ == spec_shared_alias(name@, name@),
{
    let mut inner: Vec<Type> = Vec::new();
    inner.push(Type::Named(name.clone()));
    let mut outer: Vec<Type> = Vec::new();
    outer.push(Type::Generic("Mutex".to_string(), inner));
    let mut docs: Vec<String> = Vec::new();
    docs.push(concat("// Shared data type for ", name.as_str()));
    docs.push("// Auto-generated from AADL data implementation".to_string());
    proof {
        lemma_views_empty();
        assert(inner@.drop_last() =~= Seq::<Type>::empty());
        assert(outer@.drop_last() =~= Seq::<Type>::empty());
        assert(types_view(inner@) =~= seq![inner@[0]@]);
        assert(types_view(outer@) =~= seq![outer@[0]@]);
        assert(strings_view(docs@) =~= seq![
            "// Shared data type for "@ + name@,
            "// Auto-generated from AADL data implementation"@,
        ]);
    }
    TypeAlias {
        name: concat(name.as_str(), "Shared"),
        target: Type::Generic("Arc".to_string(), outer),
        vis: Visibility::Public,
        docs,
    }
}

/// A data implementation becomes its struct, union or tagged union, its
/// methods and, for a shared variable, its alias (see
/// `spec_data_implementation`).
pub fn convert_data_implementation(
    type_mappings: &Vec<(String, Type)>,
    data_comp_type: &Vec<(String, String)>,
    impl_: &ComponentImplementation,
    package: &Package,
) -> (res: Vec<Item>)
    ensures
        items_view(res@) == spec_data_implementation(
            type_table_view(type_mappings@),
            pair_table_view(data_comp_type@),
            *impl_,
            *package,
        ),
{
    let mut items: Vec<Item> = Vec::new();
    proof {
        lemma_views_empty();
    }
    if let SubcomponentClause::Items(subcomponents) = &impl_.subcomponents {
        items = compound_items(type_mappings, data_comp_type, impl_, subcomponents);
        let mut methods: Vec<ImplItem> = Vec::new();
        proof {
            assert(impl_items_view(methods@) =~= Seq::<SpecImplItem>::empty());
        }
        subprogram_methods(subcomponents, &mut methods);
        let name = &impl_.name.type_identifier;
        let is_shared_data = is_shared_data_component(package, name.as_str());
        if is_shared_data {
            let nm = data_new_method(name, subcomponents);
            let ghost nv = nm@;
            let ghost mb = impl_items_view(methods@);
            methods.push(nm);
            assert(impl_items_view(methods@) =~= mb + seq![nv]);
        } else {
            assert(impl_items_view(methods@) =~= impl_items_view(methods@) + Seq::<SpecImplItem>::empty());
        }
        let ghost before = items_view(items@);
        if methods.len() > 0 {
            let generics: Vec<String> = Vec::new();
            assert(strings_view(generics@) =~= Seq::<Seq<char>>::empty());
            let ib = ImplBlock { target: Type::Named(name.clone()), generics, items: methods, trait_impl: None };
            let ghost ibv = ib@;
            items.push(Item::Impl(ib));
            assert(items_view(items@) =~= before + seq![SpecItem::Impl(ibv)]);
        } else {
            assert(impl_items_view(methods@).len() == 0);
            assert(items_view(items@) =~= before + Seq::<SpecItem>::empty());
        }
        let ghost mid = items_view(items@);
        if is_shared_data {
            let alias = shared_alias(name);
            let ghost av = alias@;
            items.push(Item::TypeAlias(alias));
            assert(items_view(items@) =~= mid + seq![SpecItem::TypeAlias(av)]);
        } else {
            assert(items_view(items@) =~= mid + Seq::<SpecItem>::empty());
        }
    }
    items
}

} // verus!
