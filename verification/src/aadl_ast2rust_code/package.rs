//! The conversion of a whole package: the collectors run first, then every
//! declaration of the public and the private section is converted in order,
//! then the processors' scheduling table and the priority function are
//! added.

use vstd::prelude::*;
use crate::aadlAst2rustCode::tool::{pairs_view, spec_min_two_unique};
use crate::aadlAst2rustCode::implementations::conv_system_impl::extract_processor_bindings;
use crate::aadl_ast2rust_code::collector::{
    add_period_to_priority_function, broadcast_view, collect_component_types, collect_process_connections,
    collect_thread_connections, component_table_view, convert_cpu_schedule_mapping, cpu_ids_view, decl_own_sources,
    decl_sources, public_decls, receive_all, spec_collect_component_types, spec_cpu_lazy_static, spec_has_rms_or_dms,
    spec_period_to_priority_fn, string_pairs_view, thread_receive_all, thread_type_entries, type_entries,
};
use crate::aadl_ast2rust_code::converter::{
    clause_ok_exec, component_conversion, component_convertible, implementation_conversion,
    implementation_convertible, spec_withs, AadlConverter,
};
use crate::aadl_ast2rust_code::types::conv_data_type::data_type_ok_exec;
use crate::aadl_ast2rust_code::implementations::conv_thread_impl::sends_defaults_end_exec;
use crate::aadlAst2rustCode::converter_annex::{behavior_annex_pieces, spec_behavior_pieces};
use crate::ast::aadl_ast_cj::{AadlDeclaration, ComponentCategory, ComponentImplementation, ComponentType, Package};
use crate::intermediate_ast::{
    items_view, stmts_view, Attribute, Item, RustModule, SpecItem, SpecRustModule, SpecStatement, Statement,
    Visibility,
};
use crate::text::{concat, join_strings, lowercase, seq_join, strings_view, to_lower};

verus! {

/// What a declaration is checked for before it is converted.
pub open spec fn decl_checked(c: AadlConverter, d: AadlDeclaration) -> bool {
    match d {
        AadlDeclaration::ComponentType(t) => component_convertible(c, t),
        AadlDeclaration::ComponentImplementation(i) => implementation_convertible(c, i),
        _ => true,
    }
}

/// What converting a declaration does: a component type or implementation
/// is converted by its category (an implementation with the pieces of its
/// Behavior Annex, see `spec_behavior_pieces`); any other declaration gives
/// nothing and changes nothing.
pub open spec fn decl_conversion(
    c: AadlConverter,
    d: AadlConverter,
    decl: AadlDeclaration,
    package: Package,
    items: Seq<SpecItem>,
) -> bool {
    match decl {
        AadlDeclaration::ComponentType(t) => component_conversion(c, d, t, package, items),
        AadlDeclaration::ComponentImplementation(i) => implementation_conversion(
            c,
            d,
            i,
            package,
            spec_behavior_pieces(i).0,
            spec_behavior_pieces(i).1,
            items,
        ),
        _ => d == c && items.len() == 0,
    }
}

/// The declarations of the public section, then those of the private one.
pub open spec fn all_decls(pkg: Package) -> Seq<AadlDeclaration> {
    public_decls(pkg) + match pkg.private_section {
        Some(section) => section.declarations@,
        None => Seq::empty(),
    }
}

/// What the collectors make of the converter: the component types, the
/// process broadcasts and the thread broadcasts of the package are
/// collected; the other tables stay.
pub open spec fn collected(c0: AadlConverter, c1: AadlConverter, pkg: Package) -> bool {
    &&& component_table_view(c1.component_types@) == spec_collect_component_types(
        component_table_view(c0.component_types@),
        pkg,
    )
    &&& pairs_view(c1.process_broadcast_send@) == spec_min_two_unique(
        pairs_view(c0.process_broadcast_send@) + decl_sources(public_decls(pkg)),
    )
    &&& broadcast_view(c1.process_broadcast_receive@) == receive_all(
        broadcast_view(c0.process_broadcast_receive@),
        pairs_view(c1.process_broadcast_send@),
        public_decls(pkg),
    )
    &&& pairs_view(c1.system_subcomponent_identify_to_type@) == type_entries(
        pairs_view(c0.system_subcomponent_identify_to_type@),
        broadcast_view(c1.process_broadcast_receive@),
        public_decls(pkg),
    )
    &&& broadcast_view(c1.thread_broadcast_receive@) == thread_receive_all(
        broadcast_view(c0.thread_broadcast_receive@),
        spec_min_two_unique(decl_own_sources(public_decls(pkg))),
        public_decls(pkg),
    )
    &&& pairs_view(c1.process_subcomponent_identify_to_type@) == thread_type_entries(
        pairs_view(c0.process_subcomponent_identify_to_type@),
        broadcast_view(c1.thread_broadcast_receive@),
        public_decls(pkg),
    )
    &&& c1.type_mappings == c0.type_mappings
    &&& c1.annex_converter == c0.annex_converter
    &&& c1.cpu_scheduling_protocols == c0.cpu_scheduling_protocols
    &&& c1.cpu_name_to_id_mapping == c0.cpu_name_to_id_mapping
    &&& c1.data_comp_type == c0.data_comp_type
    &&& c1.thread_field_values == c0.thread_field_values
    &&& c1.thread_field_types == c0.thread_field_types
}

/// The `i`-th declaration is checked and converted from the `i`-th state to
/// the next, giving the `i`-th list of items.
pub open spec fn step_done(
    cs: Seq<AadlConverter>,
    ds: Seq<AadlDeclaration>,
    pkg: Package,
    parts: Seq<Seq<SpecItem>>,
    i: int,
) -> bool {
    decl_checked(cs[i], ds[i]) && decl_conversion(cs[i], cs[i + 1], ds[i], pkg, parts[i])
}

/// The declarations `ds` are converted in order, from the state `c1`,
/// through the states `cs`, giving the lists of items `parts`.
pub open spec fn converted_in_order(
    c1: AadlConverter,
    cs: Seq<AadlConverter>,
    ds: Seq<AadlDeclaration>,
    pkg: Package,
    parts: Seq<Seq<SpecItem>>,
) -> bool {
    &&& cs.len() == ds.len() + 1
    &&& parts.len() == ds.len()
    &&& cs[0] == c1
    &&& forall|i: int| 0 <= i < ds.len() ==> #[trigger] step_done(cs, ds, pkg, parts, i)
}

/// The lists of items, one after the other.
pub open spec fn concat_parts(parts: Seq<Seq<SpecItem>>) -> Seq<SpecItem>
    decreases parts.len(),
{
    if parts.len() == 0 {
        Seq::empty()
    } else {
        concat_parts(parts.drop_last()) + parts.last()
    }
}

/// The module of a package before the processors' items: named after the
/// package (its path joined by `_`, in lower case), with one doc line, the
/// given items and a glob `use` per imported package.
pub open spec fn base_module(pkg: Package, items: Seq<SpecItem>) -> SpecRustModule {
    SpecRustModule {
        name: lowercase(seq_join(strings_view(pkg.name.0@), "_"@)),
        docs: seq!["// Auto-generated from AADL package: "@ + seq_join(strings_view(pkg.name.0@), "::"@)],
        items,
        attrs: Seq::empty(),
        vis: Visibility::Public,
        withs: spec_withs(pkg.visibility_decls@),
    }
}

/// The module of a package, converted to the final state `cf` through the
/// lists of items `parts`: the scheduling table is added where some
/// processor has a number, and the priority function where some protocol
/// is rate- or deadline-monotonic.
pub open spec fn package_module(cf: AadlConverter, pkg: Package, parts: Seq<Seq<SpecItem>>) -> SpecRustModule {
    let base = base_module(pkg, concat_parts(parts));
    let protocols = string_pairs_view(cf.cpu_scheduling_protocols@);
    let with_table = if cf.cpu_name_to_id_mapping@.len() == 0 {
        base
    } else {
        SpecRustModule {
            items: base.items.push(
                SpecItem::LazyStatic(spec_cpu_lazy_static(protocols, cpu_ids_view(cf.cpu_name_to_id_mapping@))),
            ),
            ..base
        }
    };
    if spec_has_rms_or_dms(protocols) {
        SpecRustModule { items: with_table.items.push(SpecItem::Function(spec_period_to_priority_fn())), ..with_table }
    } else {
        with_table
    }
}

/// The package was converted from `c0` to `cf` into `m`, through the
/// collected state, the states and the lists of items of `w`.
pub open spec fn converted_with(
    c0: AadlConverter,
    cf: AadlConverter,
    pkg: Package,
    m: SpecRustModule,
    w: (AadlConverter, Seq<AadlConverter>, Seq<Seq<SpecItem>>),
) -> bool {
    &&& collected(c0, w.0, pkg)
    &&& converted_in_order(w.0, w.1, all_decls(pkg), pkg, w.2)
    &&& w.1.last() == cf
    &&& m == package_module(cf, pkg, w.2)
}

/// The conversion of the package stops at its `w.3`-th declaration, which
/// fails its check after the ones before it were converted.
pub open spec fn refused_with(
    c0: AadlConverter,
    pkg: Package,
    w: (AadlConverter, Seq<AadlConverter>, Seq<Seq<SpecItem>>, int),
) -> bool {
    &&& collected(c0, w.0, pkg)
    &&& 0 <= w.3 < all_decls(pkg).len()
    &&& converted_in_order(w.0, w.1, all_decls(pkg).take(w.3), pkg, w.2)
    &&& !decl_checked(w.1.last(), all_decls(pkg)[w.3])
}

/// The package was converted from `c0` to `cf` into `m` (see
/// `converted_with`).
pub open spec fn package_converted(c0: AadlConverter, cf: AadlConverter, pkg: Package, m: SpecRustModule) -> bool {
    exists|w: (AadlConverter, Seq<AadlConverter>, Seq<Seq<SpecItem>>)| #[trigger] converted_with(c0, cf, pkg, m, w)
}

/// The conversion of the package from `c0` stops at a declaration that
/// fails its check (see `refused_with`).
pub open spec fn package_refused(c0: AadlConverter, pkg: Package) -> bool {
    exists|w: (AadlConverter, Seq<AadlConverter>, Seq<Seq<SpecItem>>, int)| #[trigger] refused_with(c0, pkg, w)
}

proof fn lemma_extend_order(
    c1: AadlConverter,
    cs: Seq<AadlConverter>,
    ds: Seq<AadlDeclaration>,
    pkg: Package,
    parts: Seq<Seq<SpecItem>>,
    d: AadlDeclaration,
    next: AadlConverter,
    items: Seq<SpecItem>,
)
    requires
        converted_in_order(c1, cs, ds, pkg, parts),
        decl_checked(cs.last(), d),
        decl_conversion(cs.last(), next, d, pkg, items),
    ensures
        converted_in_order(c1, cs.push(next), ds.push(d), pkg, parts.push(items)),
        concat_parts(parts.push(items)) == concat_parts(parts) + items,
{
    let cs2 = cs.push(next);
    let ds2 = ds.push(d);
    let p2 = parts.push(items);
    assert forall|i: int| 0 <= i < ds2.len() implies #[trigger] step_done(cs2, ds2, pkg, p2, i) by {
        if i < ds.len() {
            assert(step_done(cs, ds, pkg, parts, i));
        }
    }
    assert(p2.drop_last() =~= parts);
}

proof fn lemma_next_step(
    c1: AadlConverter,
    cs: Seq<AadlConverter>,
    all: Seq<AadlDeclaration>,
    n: int,
    pkg: Package,
    parts: Seq<Seq<SpecItem>>,
    next: AadlConverter,
    items: Seq<SpecItem>,
)
    requires
        0 <= n < all.len(),
        converted_in_order(c1, cs, all.take(n), pkg, parts),
        decl_checked(cs.last(), all[n]),
        decl_conversion(cs.last(), next, all[n], pkg, items),
    ensures
        converted_in_order(c1, cs.push(next), all.take(n + 1), pkg, parts.push(items)),
        concat_parts(parts.push(items)) == concat_parts(parts) + items,
{
    lemma_extend_order(c1, cs, all.take(n), pkg, parts, all[n], next, items);
    assert(all.take(n).push(all[n]) =~= all.take(n + 1));
}

impl AadlConverter {
    /// Whether a component type can be converted (see
    /// `component_convertible`).
    pub fn component_checked_exec(&self, comp: &ComponentType) -> (res: bool)
        ensures
            res == component_convertible(*self, *comp),
    {
        match comp.category {
            ComponentCategory::Data => data_type_ok_exec(&self.type_mappings, comp),
            ComponentCategory::Thread | ComponentCategory::Process => self.ports_convertible_exec(
                &comp.features,
                comp.identifier.as_str(),
            ) && clause_ok_exec(&comp.properties),
            ComponentCategory::System => clause_ok_exec(&comp.properties),
            ComponentCategory::Device => self.ports_convertible_exec(&comp.features, comp.identifier.as_str()),
            _ => true,
        }
    }

    /// Whether a component implementation can be converted (see
    /// `implementation_convertible`).
    pub fn implementation_checked_exec(&self, impl_: &ComponentImplementation) -> (res: bool)
        ensures
            res == implementation_convertible(*self, *impl_),
    {
        match impl_.category {
            ComponentCategory::Thread => sends_defaults_end_exec(self, impl_) && clause_ok_exec(&impl_.properties),
            ComponentCategory::System => {
                let bindings = extract_processor_bindings(impl_);
                assert(cpu_ids_view(self.cpu_name_to_id_mapping@).len() == self.cpu_name_to_id_mapping@.len());
                bindings.len() < isize::MAX as usize && self.cpu_name_to_id_mapping.len() < isize::MAX as usize
                    - bindings.len()
            },
            _ => true,
        }
    }

    /// Converts one declaration and appends what it gives to `module`: a
    /// component type or implementation by its category, nothing for any
    /// other declaration.
    pub fn convert_declaration(&mut self, decl: &AadlDeclaration, module: &mut RustModule, package: &Package)
        requires
            decl_checked(*old(self), *decl),
        ensures
            final(module)@.items.len() >= old(module)@.items.len(),
            final(module)@.items.take(old(module)@.items.len() as int) == old(module)@.items,
            decl_conversion(
                *old(self),
                *final(self),
                *decl,
                *package,
                final(module)@.items.skip(old(module)@.items.len() as int),
            ),
            final(module)@ == (SpecRustModule { items: final(module)@.items, ..old(module)@ }),
    {
        let ghost before = module@.items;
        let mut items: Vec<Item> = match decl {
            AadlDeclaration::ComponentType(comp) => self.convert_component(comp, package),
            AadlDeclaration::ComponentImplementation(impl_) => {
                let (prelude, step) = behavior_annex_pieces(impl_);
                self.convert_implementation(impl_, package, prelude, step)
            },
            _ => Vec::new(),
        };
        let ghost added = items_view(items@);
        let ghost old_items = module.items@;
        let ghost new_items = items@;
        module.items.append(&mut items);
        proof {
            assert(module.items@ =~= old_items + new_items);
            crate::intermediate_ast::lemma_items_view_concat(old_items, new_items);
            assert(module@.items =~= before + added);
            assert(module@.items.take(before.len() as int) =~= before);
            assert(module@.items.skip(before.len() as int) =~= added);
        }
    }

    /// Converts a package into a Rust module.
    ///
    /// The component types and the process and thread broadcasts of the
    /// package are collected first (see `collected`). Then each declaration
    /// of the public section, then of the private section, is checked and
    /// converted in order (see `decl_checked` and `decl_conversion`); the
    /// first one that fails its check ends the conversion with `None`.
    /// Last, the processors' scheduling table and the priority function are
    /// added (see `package_module`).
    pub fn convert_package(&mut self, pkg: &Package) -> (res: Option<RustModule>)
        ensures
            res matches Some(m) ==> package_converted(*old(self), *final(self), *pkg, m@),
            res is None ==> package_refused(*old(self), *pkg),
    {
        collect_component_types(&mut self.component_types, pkg);
        collect_process_connections(
            &mut self.process_broadcast_send,
            &mut self.process_broadcast_receive,
            &mut self.system_subcomponent_identify_to_type,
            pkg,
        );
        collect_thread_connections(
            &mut self.thread_broadcast_receive,
            &mut self.process_subcomponent_identify_to_type,
            pkg,
        );
        let ghost c1 = *self;
        assert(collected(*old(self), c1, *pkg));

        let joined = join_strings(&pkg.name.0, "_");
        let name = to_lower(joined.as_str());
        let path = join_strings(&pkg.name.0, "::");
        let mut docs: Vec<String> = Vec::new();
        docs.push(concat("// Auto-generated from AADL package: ", path.as_str()));
        let withs = self.convert_withs(pkg);
        let attrs: Vec<Attribute> = Vec::new();
        let mut module = RustModule { name, docs, items: Vec::new(), attrs, vis: Visibility::Public, withs };
        proof {
            assert(strings_view(module.docs@) =~= seq![
                "// Auto-generated from AADL package: "@ + seq_join(strings_view(pkg.name.0@), "::"@),
            ]);
            assert(crate::intermediate_ast::attrs_view(module.attrs@) =~= Seq::empty());
            assert(items_view(module.items@) =~= Seq::empty());
            assert(module@ == base_module(*pkg, Seq::empty()));
        }

        let no_decls: Vec<AadlDeclaration> = Vec::new();
        let public: &Vec<AadlDeclaration> = match &pkg.public_section {
            Some(section) => &section.declarations,
            None => &no_decls,
        };
        let private: &Vec<AadlDeclaration> = match &pkg.private_section {
            Some(section) => &section.declarations,
            None => &no_decls,
        };
        let ghost all = all_decls(*pkg);
        assert(all =~= public@ + private@);

        let ghost mut cs: Seq<AadlConverter> = seq![c1];
        let ghost mut parts: Seq<Seq<SpecItem>> = Seq::empty();
        assert(converted_in_order(c1, cs, all.take(0), *pkg, parts));
        let mut i: usize = 0;
        while i < public.len()
            invariant
                i <= public@.len(),
                all == public@ + private@,
                all == all_decls(*pkg),
                collected(*old(self), c1, *pkg),
                converted_in_order(c1, cs, all.take(i as int), *pkg, parts),
                cs.last() == *self,
                module@ == base_module(*pkg, concat_parts(parts)),
            decreases public@.len() - i,
        {
            assert(all[i as int] == public@[i as int]);
            let ok = match &public[i] {
                AadlDeclaration::ComponentType(comp) => self.component_checked_exec(comp),
                AadlDeclaration::ComponentImplementation(impl_) => self.implementation_checked_exec(impl_),
                _ => true,
            };
            if !ok {
                assert(refused_with(*old(self), *pkg, (c1, cs, parts, i as int)));
                return None;
            }
            let ghost m0 = module@;
            self.convert_declaration(&public[i], &mut module, pkg);
            proof {
                let items = module@.items.skip(m0.items.len() as int);
                lemma_next_step(c1, cs, all, i as int, *pkg, parts, *self, items);
                assert(module@.items =~= m0.items + items);
                cs = cs.push(*self);
                parts = parts.push(items);
            }
            i = i + 1;
        }
        let mut j: usize = 0;
        while j < private.len()
            invariant
                j <= private@.len(),
                all == public@ + private@,
                all == all_decls(*pkg),
                collected(*old(self), c1, *pkg),
                converted_in_order(c1, cs, all.take(public@.len() + j), *pkg, parts),
                cs.last() == *self,
                module@ == base_module(*pkg, concat_parts(parts)),
            decreases private@.len() - j,
        {
            let ghost k = public@.len() + j;
            assert(all[k] == private@[j as int]);
            let ok = match &private[j] {
                AadlDeclaration::ComponentType(comp) => self.component_checked_exec(comp),
                AadlDeclaration::ComponentImplementation(impl_) => self.implementation_checked_exec(impl_),
                _ => true,
            };
            if !ok {
                assert(refused_with(*old(self), *pkg, (c1, cs, parts, k)));
                return None;
            }
            let ghost m0 = module@;
            self.convert_declaration(&private[j], &mut module, pkg);
            proof {
                let items = module@.items.skip(m0.items.len() as int);
                lemma_next_step(c1, cs, all, k, *pkg, parts, *self, items);
                assert(module@.items =~= m0.items + items);
                cs = cs.push(*self);
                parts = parts.push(items);
            }
            j = j + 1;
        }
        assert(all.take(all.len() as int) =~= all);

        convert_cpu_schedule_mapping(&mut module, &self.cpu_scheduling_protocols, &self.cpu_name_to_id_mapping);
        add_period_to_priority_function(&mut module, &self.cpu_scheduling_protocols);
        assert(converted_with(*old(self), *self, *pkg, module@, (c1, cs, parts)));
        Some(module)
    }
}

} // verus!
