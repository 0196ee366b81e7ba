//! The declaration tree walker: classifies each declaration of each scope
//! into API entries, and runs the configured merge, the substitution of
//! user-declared types and the final check around the walk.

use vstd::prelude::*;
use vstd::string::*;
use crate::api::{insert_api, ApiView, apis_view, errors_view, Api, ApiName, ConvertError, ConvertErrorView, ReportedError, TypedefKind};
use crate::config::{IncludeCppConfig, KnownTypes, ParseCallbackResults};
use crate::decl::{Decl, Field, UseLeaf};
use crate::foreign_mod::{impls_view, ImplBlock, ParseForeignMod};
use crate::name_set::{index_map_contents, map_contains_key, map_get, map_insert, new_name_map, index_set_items, insert_name, new_name_set, contains_name};
use crate::ident::{ident_problem, validate_ident_ok_for_cxx};
use crate::model::{
    is_rvalue_reference, rvalue_marker,    address_marker, api_name_spec, cchar16_alias, config_apis, cpp_names, decl_ok, dedup, dedup_spelled,
    enum_outcome, first_missing, has_rvalue_reference_field, index_of_cpp, insert_all, is_nested, item_outcome,
    items_ok, items_outcome, leaf_outcome, lemma_dedup_contains, lemma_index_of_cpp, lemma_index_of_cpp_first,
    lemma_index_of_cpp_none, lemma_insert_all_concat, lemma_insert_all_empty, lemma_insert_all_one,
    lemma_insert_all_push, model_apis, override_api, overrides, parse_outcome, path_name, root_content, root_name,
    roots_ok, scope_fns, scope_functions, scope_impls, scope_outcome, spellings, spot_field_spec, struct_outcome,
    substituted, unless_blocked, unreplaced, unused_marker, use_outcome, use_path_ok, utility_apis, vtable_suffix,
    Inputs, LeafResult,
};
use crate::types::{
    strings_contain,    cpp_name_of, ends_with, has_path_separator, join_path, opt_view, split_path, str_equal, strs_view, Namespace,
    QualifiedName,
};

verus! {

/// An error on one declaration, with the name of the declaration.
pub type ItemError = (Option<String>, ConvertError);

/// The view of an [`ItemError`].
pub open spec fn item_error_view(e: ItemError) -> (Option<Seq<char>>, ConvertErrorView) {
    (opt_view(e.0), e.1@)
}

/// The walk of a declaration that is no scope did what `expected` says:
/// put its entries in, or failed with its error and changed nothing.
pub open spec fn leaf_done(old: Seq<Api>, new: Seq<Api>, r: Result<(), ItemError>, expected: LeafResult) -> bool {
    match expected {
        Ok(apis) => r is Ok && apis_view(new) == insert_all(apis_view(old), apis),
        Err(e) => r is Err && item_error_view(r->Err_0) == e && apis_view(new) == apis_view(old),
    }
}

/// Whether a field named `id` is among `fields`.
pub fn spot_field(fields: &Vec<Field>, id: &str) -> (r: bool)
    ensures
        r == spot_field_spec(fields@, id@),
{
    let mut i: usize = 0;
    while i < fields.len()
        invariant
            i <= fields.len(),
            forall|j: int| 0 <= j < i ==> opt_view(#[trigger] fields@[j].ident) != Some(id@),
        decreases fields.len() - i,
    {
        match &fields[i].ident {
            Some(f) => {
                if str_equal(f.as_str(), id) {
                    assert(opt_view(fields@[i as int].ident) == Some(id@));
                    return true;
                }
            },
            None => {},
        }
        i = i + 1;
    }
    false
}

/// Whether a field of `fields` has an rvalue-reference type.
pub fn spot_rvalue_reference_fields(fields: &Vec<Field>) -> (r: bool)
    ensures
        r == has_rvalue_reference_field(fields@),
{
    let mut i: usize = 0;
    while i < fields.len()
        invariant
            i <= fields.len(),
            forall|j: int| 0 <= j < i ==> !is_rvalue_reference(#[trigger] fields@[j]),
        decreases fields.len() - i,
    {
        let marker = String::from_str("__bindgen_marker_RValueReference");
        proof {
            reveal_strlit("__bindgen_marker_RValueReference");
            assert(marker@ =~= rvalue_marker());
        }
        if strings_contain(&fields[i].ty_path, &marker) {
            return true;
        }
        i = i + 1;
    }
    false
}

/// Parses the declaration tree that the header parser produced, and holds
/// the entries found so far.
pub struct ParseBindgen<'a> {
    pub config: &'a IncludeCppConfig,
    pub callbacks: &'a ParseCallbackResults,
    pub known: &'a KnownTypes,
    pub apis: Vec<Api>,
    pub errors: Vec<ReportedError>,
}

impl<'a> ParseBindgen<'a> {
    /// The fixed inputs of the pass.
    pub open spec fn inputs(&self) -> Inputs {
        Inputs { config: *self.config, callbacks: *self.callbacks, known: *self.known }
    }

    /// `other` has the same inputs as `self`.
    pub open spec fn same_inputs(&self, other: &ParseBindgen<'a>) -> bool {
        self.config == other.config && self.callbacks == other.callbacks && self.known == other.known
    }

    /// A walker with no entries yet.
    pub fn new(
        config: &'a IncludeCppConfig,
        callbacks: &'a ParseCallbackResults,
        known: &'a KnownTypes,
    ) -> (r: ParseBindgen<'a>)
        ensures
            r.inputs() == (Inputs { config: *config, callbacks: *callbacks, known: *known }),
            r.apis@.len() == 0,
            r.errors@.len() == 0,
    {
        ParseBindgen { config, callbacks, known, apis: Vec::new(), errors: Vec::new() }
    }

    /// The name of `id` in `ns`, with the name the header gave it.
    fn api_name(&self, ns: &Namespace, id: String) -> (r: ApiName)
        ensures
            r@ == api_name_spec(self.inputs(), ns@, id@),
    {
        let q = QualifiedName::new(ns, id);
        let cpp_name = self.callbacks.get_original_name(&q);
        ApiName { name: q, cpp_name }
    }

    /// The name of `id` in `ns`, where `id` can stand in the bridge.
    fn api_name_qualified(&self, ns: &Namespace, id: String) -> (r: Result<ApiName, ItemError>)
        ensures
            match ident_problem(id@) {
                Some(e) => r is Err && item_error_view(r->Err_0) == (Some(id@), ConvertErrorView::InvalidIdent(e)),
                None => r is Ok && r->Ok_0@ == api_name_spec(self.inputs(), ns@, id@),
            },
    {
        match validate_ident_ok_for_cxx(id.as_str()) {
            Err(e) => Err((Some(id), ConvertError::InvalidIdent(e))),
            Ok(()) => Ok(self.api_name(ns, id)),
        }
    }

    /// Puts `api` in unless its name is on the block list.
    fn push_unless_blocked(&mut self, api: Api)
        ensures
            final(self).same_inputs(old(self)),
            final(self).errors == old(self).errors,
            apis_view(final(self).apis@) == insert_all(apis_view(old(self).apis@), unless_blocked(old(self).inputs(), api@)),
    {
        let cpp_name = api.name().to_cpp_name();
        proof {
            lemma_insert_all_one(apis_view(self.apis@), api@);
            lemma_insert_all_empty(apis_view(self.apis@));
        }
        if !self.config.is_on_blocklist(&cpp_name) {
            insert_api(&mut self.apis, api);
        }
    }

    /// Whether the C++ spelling of `name` names a nested type.
    fn is_nested_name(name: &ApiName) -> (r: bool)
        ensures
            r == is_nested(name@),
    {
        match &name.cpp_name {
            Some(c) => has_path_separator(c.as_str()),
            None => has_path_separator(name.name.id.as_str()),
        }
    }

    /// Classifies a struct declaration: skipped, a forward declaration, or a
    /// struct, unless its name is blocked.
    pub fn parse_struct(&mut self, ns: &Namespace, ident: String, fields: Vec<Field>) -> (r: Result<(), ItemError>)
        requires
            old(self).config.wf(),
        ensures
            final(self).same_inputs(old(self)),
            final(self).errors == old(self).errors,
            leaf_done(old(self).apis@, final(self).apis@, r, struct_outcome(old(self).inputs(), ns@, ident@, fields@)),
    {
        proof {
            reveal_strlit("__bindgen_vtable");
            reveal_strlit("_unused");
            reveal_strlit("_address");
        }
        assert("__bindgen_vtable"@ =~= vtable_suffix());
        assert("_unused"@ =~= unused_marker());
        assert("_address"@ =~= address_marker());
        if ends_with(ident.as_str(), "__bindgen_vtable") {
            return Ok(());
        }
        let name = match self.api_name_qualified(ns, ident.clone()) {
            Ok(n) => n,
            Err(e) => return Err(e),
        };
        if self.known.is_known_substitute_type(&name.name) {
            return Ok(());
        }
        let err = if self.callbacks.has_unused_template_param(&name.name) {
            Some(ConvertError::UnusedTemplateParam)
        } else {
            None
        };
        if (ns.is_empty() && self.config.is_rust_type(&ident)) || self.known.is_known_type(&name.name) {
            return Ok(());
        }
        let forward = spot_field(&fields, "_unused") || (spot_field(&fields, "_address") && err.is_some());
        let api = if forward {
            let err = if err.is_none() && Self::is_nested_name(&name) {
                Some(ConvertError::ForwardDeclaredNestedType)
            } else {
                err
            };
            Api::ForwardDeclaration { name, err }
        } else {
            let has_rvalue_reference_fields = spot_rvalue_reference_fields(&fields);
            Api::Struct { name, fields, has_rvalue_reference_fields }
        };
        self.push_unless_blocked(api);
        Ok(())
    }

    /// Classifies an enum declaration, unless its name is blocked.
    pub fn parse_enum(&mut self, ns: &Namespace, ident: String, variants: Vec<String>) -> (r: Result<(), ItemError>)
        ensures
            final(self).same_inputs(old(self)),
            final(self).errors == old(self).errors,
            leaf_done(
                old(self).apis@,
                final(self).apis@,
                r,
                enum_outcome(old(self).inputs(), ns@, ident@, strs_view(variants@)),
            ),
    {
        let name = match self.api_name_qualified(ns, ident) {
            Ok(n) => n,
            Err(e) => return Err(e),
        };
        self.push_unless_blocked(Api::Enum { name, variants });
        Ok(())
    }

    /// Turns an import under another name into an alias entry, and refuses
    /// one that would name itself.
    pub fn parse_use(&mut self, ns: &Namespace, path: Vec<String>, leaf: UseLeaf) -> (r: Result<(), ItemError>)
        requires
            use_path_ok(strs_view(path@), leaf),
        ensures
            final(self).same_inputs(old(self)),
            final(self).errors == old(self).errors,
            leaf_done(old(self).apis@, final(self).apis@, r, use_outcome(old(self).inputs(), ns@, strs_view(path@), leaf)),
    {
        match leaf {
            UseLeaf::Rename { ident, rename } => {
                proof {
                    reveal_strlit("bindgen_cchar16_t");
                }
                assert("bindgen_cchar16_t"@ =~= cchar16_alias());
                if str_equal(rename.as_str(), "bindgen_cchar16_t") {
                    proof {
                        lemma_insert_all_empty(apis_view(self.apis@));
                    }
                    return Ok(());
                }
                let mut old_segs: Vec<String> = Vec::new();
                let mut i: usize = 2;
                while i < path.len()
                    invariant
                        2 <= i <= path.len(),
                        old_segs@ == path@.subrange(2, i as int),
                    decreases path.len() - i,
                {
                    old_segs.push(path[i].clone());
                    assert(old_segs@ =~= path@.subrange(2, i + 1));
                    i = i + 1;
                }
                assert(strs_view(old_segs@) =~= strs_view(path@).subrange(2, path@.len() as int));
                let old_tyname = QualifiedName { ns: Namespace { segs: old_segs }, id: ident };
                let new_tyname = QualifiedName::new(ns, rename.clone());
                if new_tyname.same_as(&old_tyname) {
                    return Err((Some(rename), ConvertError::InfinitelyRecursiveTypedef(new_tyname)));
                }
                let mut old_path = crate::types::copy_strings(&old_tyname.ns.segs);
                old_path.push(old_tyname.id.clone());
                assert(strs_view(old_path@) =~= old_tyname.ns@.push(old_tyname.id@));
                let name = self.api_name(ns, rename);
                let api = Api::Typedef { name, kind: TypedefKind::Use(old_path), old_tyname: Some(old_tyname) };
                proof {
                    lemma_insert_all_one(apis_view(self.apis@), api@);
                }
                insert_api(&mut self.apis, api);
                Ok(())
            },
            _ => {
                proof {
                    lemma_insert_all_empty(apis_view(self.apis@));
                }
                Ok(())
            },
        }
    }

    /// Records a constant, unless its type cannot be named in the bridge.
    pub fn parse_const(&mut self, ns: &Namespace, ident: String, ty_last: Option<String>, value: String) -> (r: Result<
        (),
        ItemError,
    >)
        ensures
            final(self).same_inputs(old(self)),
            final(self).errors == old(self).errors,
            leaf_done(
                old(self).apis@,
                final(self).apis@,
                r,
                leaf_outcome(old(self).inputs(), ns@, Decl::Const { ident, ty_last, value }),
            ),
    {
        let type_ok = match &ty_last {
            Some(t) => validate_ident_ok_for_cxx(t.as_str()).is_ok(),
            None => true,
        };
        proof {
            lemma_insert_all_empty(apis_view(self.apis@));
        }
        if type_ok {
            let name = self.api_name(ns, ident);
            let api = Api::Const { name, value };
            proof {
                lemma_insert_all_one(apis_view(self.apis@), api@);
            }
            insert_api(&mut self.apis, api);
        }
        Ok(())
    }

    /// Records a type alias; a second alias of the same name takes the place
    /// of the first.
    pub fn parse_type_alias(&mut self, ns: &Namespace, ident: String, target: String) -> (r: Result<(), ItemError>)
        ensures
            final(self).same_inputs(old(self)),
            final(self).errors == old(self).errors,
            leaf_done(
                old(self).apis@,
                final(self).apis@,
                r,
                leaf_outcome(old(self).inputs(), ns@, Decl::Type { ident, target }),
            ),
    {
        let name = self.api_name(ns, ident);
        let api = Api::Typedef { name, kind: TypedefKind::Type(target), old_tyname: None };
        proof {
            lemma_insert_all_one(apis_view(self.apis@), api@);
        }
        insert_api(&mut self.apis, api);
        Ok(())
    }
}

} // verus!

verus! {

/// A well-formed list of declarations has well-formed members.
proof fn lemma_items_ok_member(items: Seq<Decl>, n: nat, i: int)
    requires
        items_ok(items, n),
        n <= items.len(),
        0 <= i < n,
    ensures
        decl_ok(items[i]),
    decreases n,
{
    if i < n - 1 {
        lemma_items_ok_member(items, (n - 1) as nat, i);
    }
}

/// The functions that `d` adds to its scope's collector.
pub open spec fn decl_fns(d: Decl) -> Seq<Seq<char>> {
    match d {
        Decl::ForeignMod { fns } => strs_view(fns@),
        _ => Seq::empty(),
    }
}

/// The implementation blocks that `d` adds to its scope's collector.
pub open spec fn decl_impls(d: Decl) -> Seq<(Seq<char>, Seq<Seq<char>>)> {
    match d {
        Decl::Impl { self_ty, methods } => seq![(self_ty@, strs_view(methods@))],
        _ => Seq::empty(),
    }
}

/// The walk of `d` did what `item_outcome` says, and fed the collector; a
/// declaration that is no scope fails exactly where its outcome is an error.
pub open spec fn item_done(
    old: ParseBindgen,
    new: ParseBindgen,
    old_mc: ParseForeignMod,
    new_mc: ParseForeignMod,
    ns: Seq<Seq<char>>,
    d: Decl,
    r: Result<(), ItemError>,
) -> bool {
    let out = item_outcome(old.inputs(), ns, d);
    &&& new.same_inputs(&old)
    &&& new_mc.ns@ == old_mc.ns@
    &&& strs_view(new_mc.fns@) == strs_view(old_mc.fns@) + decl_fns(d)
    &&& impls_view(new_mc.impls@) == impls_view(old_mc.impls@) + decl_impls(d)
    &&& !(d is Mod) ==> (r is Err <==> leaf_outcome(old.inputs(), ns, d) is Err)
    &&& match r {
        Ok(()) => apis_view(new.apis@) == insert_all(apis_view(old.apis@), out.0) && errors_view(new.errors@)
            == errors_view(old.errors@) + out.1,
        Err(e) => apis_view(new.apis@) == apis_view(old.apis@) && new.errors == old.errors && out == (
        Seq::<crate::api::ApiView>::empty(),
        seq![(ns, item_error_view(e).0, item_error_view(e).1)],
        ),
    }
}

impl<'a> ParseBindgen<'a> {
    /// Walks one declaration of scope `ns`.
    fn parse_item(&mut self, item: Decl, mc: &mut ParseForeignMod, ns: &Namespace) -> (r: Result<(), ItemError>)
        requires
            old(self).config.wf(),
            decl_ok(item),
            old(mc).ns@ == ns@,
        ensures
            item_done(*old(self), *final(self), *old(mc), *final(mc), ns@, item, r),
        decreases item, 0nat,
    {
        let ghost d = item;
        let ghost inp = self.inputs();
        let ghost apis0 = apis_view(self.apis@);
        match item {
            Decl::ForeignMod { fns } => {
                mc.convert_foreign_mod_items(fns);
                assert(impls_view(mc.impls@) =~= impls_view(old(mc).impls@) + decl_impls(d));
                proof {
                    lemma_insert_all_empty(apis0);
                }
                assert(errors_view(self.errors@) =~= errors_view(self.errors@) + Seq::<
                    crate::api::ReportedErrorView,
                >::empty());
                Ok(())
            },
            Decl::Impl { self_ty, methods } => {
                mc.convert_impl_items(ImplBlock { self_ty, methods });
                assert(strs_view(mc.fns@) =~= strs_view(old(mc).fns@) + decl_fns(d));
                assert(impls_view(mc.impls@) =~= impls_view(old(mc).impls@) + decl_impls(d));
                proof {
                    lemma_insert_all_empty(apis0);
                }
                assert(errors_view(self.errors@) =~= errors_view(self.errors@) + Seq::<
                    crate::api::ReportedErrorView,
                >::empty());
                Ok(())
            },
            Decl::Mod { ident, content } => {
                assert(strs_view(mc.fns@) =~= strs_view(mc.fns@) + decl_fns(d));
                assert(impls_view(mc.impls@) =~= impls_view(mc.impls@) + decl_impls(d));
                match content {
                    Some(items) => {
                        let inner = ns.push(ident);
                        self.parse_mod_items(items, inner);
                    },
                    None => {
                        proof {
                    lemma_insert_all_empty(apis0);
                }
                        assert(errors_view(self.errors@) =~= errors_view(self.errors@) + Seq::<
                            crate::api::ReportedErrorView,
                        >::empty());
                    },
                }
                Ok(())
            },
            _ => {
                let ghost errs0 = self.errors;
                assert(strs_view(mc.fns@) =~= strs_view(mc.fns@) + decl_fns(d));
                assert(impls_view(mc.impls@) =~= impls_view(mc.impls@) + decl_impls(d));
                let r = match item {
                    Decl::Struct { ident, fields } => self.parse_struct(ns, ident, fields),
                    Decl::Enum { ident, variants } => self.parse_enum(ns, ident, variants),
                    Decl::Use { path, leaf } => self.parse_use(ns, path, leaf),
                    Decl::Const { ident, ty_last, value } => self.parse_const(ns, ident, ty_last, value),
                    Decl::Type { ident, target } => self.parse_type_alias(ns, ident, target),
                    _ => Err((None, ConvertError::UnexpectedItemInMod)),
                };
                assert(leaf_done(old(self).apis@, self.apis@, r, leaf_outcome(inp, ns@, d)));
                assert(self.errors == errs0);
                assert(errors_view(self.errors@) =~= errors_view(self.errors@) + Seq::<
                    crate::api::ReportedErrorView,
                >::empty());
                r
            },
        }
    }

    /// Walks the declarations of scope `ns` in order, reporting the error of
    /// each declaration that fails and going on with the next, then puts in
    /// the scope's functions.
    fn parse_mod_items(&mut self, decls: Vec<Decl>, ns: Namespace)
        requires
            old(self).config.wf(),
            items_ok(decls@, decls@.len()),
        ensures
            final(self).same_inputs(old(self)),
            apis_view(final(self).apis@) == insert_all(
                apis_view(old(self).apis@),
                scope_outcome(old(self).inputs(), ns@, decls@).0,
            ),
            errors_view(final(self).errors@) == errors_view(old(self).errors@) + scope_outcome(
                old(self).inputs(),
                ns@,
                decls@,
            ).1,
        decreases decls@, 0nat,
    {
        let ghost orig = decls@;
        let ghost inp = self.inputs();
        let ghost apis0 = apis_view(self.apis@);
        let ghost errs0 = errors_view(self.errors@);
        let mut items = decls;
        let mut mc = ParseForeignMod::new(ns.copy());
        let ghost k: nat = 0;
        assert(strs_view(mc.fns@) =~= scope_fns(orig, 0));
        assert(impls_view(mc.impls@) =~= scope_impls(orig, 0));
        proof {
            lemma_insert_all_empty(apis0);
        }
        assert(errors_view(self.errors@) =~= errs0 + items_outcome(inp, ns@, orig, 0).1);
        while items.len() > 0
            invariant
                k <= orig.len(),
                orig == decls@,
                items@ == orig.subrange(k as int, orig.len() as int),
                items_ok(orig, orig.len()),
                self.config.wf(),
                self.inputs() == inp,
                mc.ns@ == ns@,
                strs_view(mc.fns@) == scope_fns(orig, k),
                impls_view(mc.impls@) == scope_impls(orig, k),
                apis_view(self.apis@) == insert_all(apis0, items_outcome(inp, ns@, orig, k).0),
                errors_view(self.errors@) == errs0 + items_outcome(inp, ns@, orig, k).1,
            decreases items.len(),
        {
            let item = items.remove(0);
            assert(item == orig[k as int]);
            proof {
                lemma_items_ok_member(orig, orig.len(), k as int);
            }
            let ghost before = *self;
            let ghost before_errs = errors_view(self.errors@);
            assert(decreases_to!(orig, 0nat => item, 0nat));
            let r = self.parse_item(item, &mut mc, &ns);
            match r {
                Err(e) => {
                    let ghost ev = item_error_view(e);
                    self.errors.push(ReportedError { ns: ns.copy(), item: e.0, err: e.1 });
                    assert(errors_view(self.errors@) =~= before_errs.push((ns@, ev.0, ev.1)));
                },
                Ok(()) => {},
            }
            proof {
                let out = item_outcome(inp, ns@, orig[k as int]);
                assert(items_outcome(inp, ns@, orig, k + 1) == (
                    items_outcome(inp, ns@, orig, k).0 + out.0,
                    items_outcome(inp, ns@, orig, k).1 + out.1,
                ));
                assert(scope_fns(orig, k + 1) == scope_fns(orig, k) + decl_fns(orig[k as int]));
                assert(scope_impls(orig, k + 1) == scope_impls(orig, k) + decl_impls(orig[k as int]));
                lemma_insert_all_concat(apis0, items_outcome(inp, ns@, orig, k).0, out.0);
                if r is Err {
                    assert(out.0 =~= Seq::<ApiView>::empty());
                    assert(items_outcome(inp, ns@, orig, k).0 + out.0 =~= items_outcome(inp, ns@, orig, k).0);
                }
                assert(apis_view(self.apis@) == insert_all(apis0, items_outcome(inp, ns@, orig, k + 1).0));
                assert(errors_view(self.errors@) =~= errs0 + items_outcome(inp, ns@, orig, k + 1).1);
                k = k + 1;
            }
            assert(items@ =~= orig.subrange(k as int, orig.len() as int));
        }
        assert(k == orig.len());
        mc.finished(self.callbacks, &mut self.apis);
        proof {
            lemma_insert_all_concat(
                apis0,
                items_outcome(inp, ns@, orig, orig.len()).0,
                scope_functions(inp, ns@, orig),
            );
        }
    }
}

} // verus!

verus! {

/// `s` with `x` appended, without repeats.
proof fn lemma_dedup_push<A>(s: Seq<A>, x: A)
    ensures
        dedup(s.push(x)) == if dedup(s).contains(x) {
            dedup(s)
        } else {
            dedup(s).push(x)
        },
{
    assert(s.push(x).drop_last() =~= s);
}

/// The names of the types in `sig_types`, each once, in order.
fn dedup_names(sig_types: &Vec<String>) -> (r: Vec<String>)
    ensures
        strs_view(r@) == dedup(strs_view(sig_types@)),
{
    let mut seen = new_name_set();
    let mut r: Vec<String> = Vec::new();
    let mut i: usize = 0;
    while i < sig_types.len()
        invariant
            i <= sig_types.len(),
            index_set_items(seen) == dedup(strs_view(sig_types@.subrange(0, i as int))),
            strs_view(r@) == dedup(strs_view(sig_types@.subrange(0, i as int))),
        decreases sig_types.len() - i,
    {
        let ghost prefix = strs_view(sig_types@.subrange(0, i as int));
        assert(strs_view(sig_types@.subrange(0, i + 1)) =~= prefix.push(sig_types@[i as int]@));
        proof {
            lemma_dedup_push(prefix, sig_types@[i as int]@);
        }
        if insert_name(&mut seen, sig_types[i].clone()) {
            let ghost before = r@;
            r.push(sig_types[i].clone());
            assert(strs_view(r@) =~= strs_view(before).push(sig_types@[i as int]@));
        }
        i = i + 1;
    }
    assert(sig_types@.subrange(0, sig_types@.len() as int) =~= sig_types@);
    r
}

/// The views of the paths of Rust types.
pub open spec fn rust_paths_view(v: Seq<crate::config::RustPath>) -> Seq<Seq<Seq<char>>> {
    v.map_values(|p: crate::config::RustPath| strs_view(p.segs@))
}

impl<'a> ParseBindgen<'a> {
    /// Puts in the entries that come from the configuration alone.
    fn add_apis_from_config(&mut self)
        requires
            old(self).config.wf(),
        ensures
            final(self).same_inputs(old(self)),
            final(self).errors == old(self).errors,
            apis_view(final(self).apis@) == insert_all(apis_view(old(self).apis@), config_apis(old(self).inputs())),
    {
        let ghost inp = self.inputs();
        let ghost start = apis_view(self.apis@);
        let cfg = self.config;
        let ghost p1 = cfg.subclasses@.map_values(
            |sc: crate::config::Subclass|
                ApiView::Subclass { name: root_name(sc.subclass@), superclass: path_name(split_path(sc.superclass@)) },
        );
        let ghost p2 = cfg.extern_rust_funs@.map_values(
            |f: crate::config::RustFun| ApiView::RustFn { name: root_name(f.ident@), deps: dedup(strs_view(f.sig_types@)) },
        );
        let ghost p3 = dedup_spelled(rust_paths_view(cfg.rust_types@)).map_values(
            |p: Seq<Seq<char>>| ApiView::RustType { name: root_name(p.last()), path: p },
        );
        let ghost p4 = cfg.concretes@.map_values(
            |c: crate::config::Concrete|
                ApiView::ConcreteType { name: root_name(c.rust_id@), cpp_definition: c.cpp_definition@ },
        );
        assert(config_apis(inp) == p1 + p2 + p3 + p4);
        proof {
            lemma_insert_all_empty(start);
            assert(p1.subrange(0, 0) =~= Seq::<ApiView>::empty());
        }
        let mut i: usize = 0;
        while i < cfg.subclasses.len()
            invariant
                cfg == self.config,
                cfg.wf(),
                self.inputs() == inp,
                self.errors == old(self).errors,
                i <= cfg.subclasses.len(),
                p1 == cfg.subclasses@.map_values(
                    |sc: crate::config::Subclass|
                        ApiView::Subclass { name: root_name(sc.subclass@), superclass: path_name(split_path(sc.superclass@)) },
                ),
                apis_view(self.apis@) == insert_all(start, p1.subrange(0, i as int)),
            decreases cfg.subclasses.len() - i,
        {
            let sc = &cfg.subclasses[i];
            let superclass = QualifiedName::new_from_cpp_name(sc.superclass.as_str());
            let name = ApiName { name: QualifiedName { ns: Namespace::new(), id: sc.subclass.clone() }, cpp_name: None };
            let api = Api::Subclass { name, superclass };
            assert(api@ == p1[i as int]);
            proof {
                lemma_insert_all_push(start, p1.subrange(0, i as int), p1[i as int]);
            }
            insert_api(&mut self.apis, api);
            assert(p1.subrange(0, i + 1) =~= p1.subrange(0, i as int).push(p1[i as int]));
            i = i + 1;
        }
        assert(p1.subrange(0, p1.len() as int) =~= p1);
        let ghost start2 = apis_view(self.apis@);
        proof {
            lemma_insert_all_empty(start2);
            assert(p2.subrange(0, 0) =~= Seq::<ApiView>::empty());
        }
        let mut i: usize = 0;
        while i < cfg.extern_rust_funs.len()
            invariant
                cfg == self.config,
                self.inputs() == inp,
                self.errors == old(self).errors,
                i <= cfg.extern_rust_funs.len(),
                p2 == cfg.extern_rust_funs@.map_values(
                    |f: crate::config::RustFun| ApiView::RustFn { name: root_name(f.ident@), deps: dedup(strs_view(f.sig_types@)) },
                ),
                apis_view(self.apis@) == insert_all(start2, p2.subrange(0, i as int)),
            decreases cfg.extern_rust_funs.len() - i,
        {
            let f = &cfg.extern_rust_funs[i];
            let deps = dedup_names(&f.sig_types);
            let name = ApiName { name: QualifiedName { ns: Namespace::new(), id: f.ident.clone() }, cpp_name: None };
            let api = Api::RustFn { name, deps };
            assert(api@ == p2[i as int]);
            proof {
                lemma_insert_all_push(start2, p2.subrange(0, i as int), p2[i as int]);
            }
            insert_api(&mut self.apis, api);
            assert(p2.subrange(0, i + 1) =~= p2.subrange(0, i as int).push(p2[i as int]));
            i = i + 1;
        }
        assert(p2.subrange(0, p2.len() as int) =~= p2);
        let ghost start3 = apis_view(self.apis@);
        let ghost all_paths = rust_paths_view(cfg.rust_types@);
        let mut spelled = new_name_set();
        let mut i: usize = 0;
        proof {
            assert(all_paths.subrange(0, 0) =~= Seq::<Seq<Seq<char>>>::empty());
            assert(spellings(Seq::<Seq<Seq<char>>>::empty()) =~= Seq::<Seq<char>>::empty());
            lemma_insert_all_empty(start3);
        }
        while i < cfg.rust_types.len()
            invariant
                cfg == self.config,
                cfg.wf(),
                self.inputs() == inp,
                self.errors == old(self).errors,
                i <= cfg.rust_types.len(),
                all_paths == rust_paths_view(cfg.rust_types@),
                index_set_items(spelled) == spellings(dedup_spelled(all_paths.subrange(0, i as int))),
                apis_view(self.apis@) == insert_all(
                    start3,
                    dedup_spelled(all_paths.subrange(0, i as int)).map_values(
                        |p: Seq<Seq<char>>| ApiView::RustType { name: root_name(p.last()), path: p },
                    ),
                ),
            decreases cfg.rust_types.len() - i,
        {
            let segs = &cfg.rust_types[i].segs;
            let ghost prefix = all_paths.subrange(0, i as int);
            let ghost d = dedup_spelled(prefix);
            let ghost pi = all_paths[i as int];
            assert(all_paths.subrange(0, i + 1) =~= prefix.push(pi));
            assert(prefix.push(pi).drop_last() =~= prefix);
            assert(pi == strs_view(segs@));
            let key = crate::types::join_with_separator(segs);
            if insert_name(&mut spelled, key) {
                let last = segs.len() - 1;
                assert(cfg.rust_types@[i as int].segs@.len() > 0);
                let name = ApiName {
                    name: QualifiedName { ns: Namespace::new(), id: segs[last].clone() },
                    cpp_name: None,
                };
                let path = crate::types::copy_strings(segs);
                let api = Api::RustType { name, path };
                assert(strs_view(segs@).last() == segs@[last as int]@);
                assert(api@ == (ApiView::RustType { name: root_name(pi.last()), path: pi }));
                proof {
                    let f = |p: Seq<Seq<char>>| ApiView::RustType { name: root_name(p.last()), path: p };
                    assert(d.push(pi).map_values(f) =~= d.map_values(f).push(f(pi)));
                    lemma_insert_all_push(start3, d.map_values(f), f(pi));
                    assert(spellings(d.push(pi)) =~= spellings(d).push(join_path(pi)));
                }
                insert_api(&mut self.apis, api);
            }
            i = i + 1;
        }
        assert(all_paths.subrange(0, all_paths.len() as int) =~= all_paths);
        let ghost start4 = apis_view(self.apis@);
        proof {
            lemma_insert_all_empty(start4);
            assert(p4.subrange(0, 0) =~= Seq::<ApiView>::empty());
        }
        let mut i: usize = 0;
        while i < cfg.concretes.len()
            invariant
                cfg == self.config,
                self.inputs() == inp,
                self.errors == old(self).errors,
                i <= cfg.concretes.len(),
                p4 == cfg.concretes@.map_values(
                    |c: crate::config::Concrete|
                        ApiView::ConcreteType { name: root_name(c.rust_id@), cpp_definition: c.cpp_definition@ },
                ),
                apis_view(self.apis@) == insert_all(start4, p4.subrange(0, i as int)),
            decreases cfg.concretes.len() - i,
        {
            let c = &cfg.concretes[i];
            let name = ApiName { name: QualifiedName { ns: Namespace::new(), id: c.rust_id.clone() }, cpp_name: None };
            let api = Api::ConcreteType { name, cpp_definition: c.cpp_definition.clone() };
            assert(api@ == p4[i as int]);
            proof {
                lemma_insert_all_push(start4, p4.subrange(0, i as int), p4[i as int]);
            }
            insert_api(&mut self.apis, api);
            assert(p4.subrange(0, i + 1) =~= p4.subrange(0, i as int).push(p4[i as int]));
            i = i + 1;
        }
        assert(p4.subrange(0, p4.len() as int) =~= p4);
        proof {
            lemma_insert_all_concat(start, p1, p2);
            lemma_insert_all_concat(start, p1 + p2, p3);
            lemma_insert_all_concat(start, p1 + p2 + p3, p4);
        }
    }
}

} // verus!

verus! {

/// `s` with its last entry kept or not.
proof fn lemma_unreplaced_push(s: Seq<ApiView>, x: ApiView, ov: Seq<ApiView>)
    ensures
        unreplaced(s.push(x), ov) == if index_of_cpp(ov, cpp_name_of(x.qname())) < 0 {
            unreplaced(s, ov).push(x)
        } else {
            unreplaced(s, ov)
        },
{
    assert(s.push(x).drop_last() =~= s);
}

/// The first directive of `must` that the names in `set` lack.
fn first_missing_name(must: &Vec<String>, set: &indexmap::IndexSet<String>, names: Ghost<Seq<Seq<char>>>) -> (r: Option<
    String,
>)
    requires
        forall|x: Seq<char>| index_set_items(*set).contains(x) <==> names@.contains(x),
    ensures
        opt_view(r) == first_missing(strs_view(must@), names@),
{
    let ghost m = strs_view(must@);
    let mut i: usize = 0;
    assert(m.subrange(0, m.len() as int) =~= m);
    while i < must.len()
        invariant
            i <= must.len(),
            m == strs_view(must@),
            forall|x: Seq<char>| index_set_items(*set).contains(x) <==> names@.contains(x),
            first_missing(m.subrange(i as int, m.len() as int), names@) == first_missing(m, names@),
        decreases must.len() - i,
    {
        let ghost rest = m.subrange(i as int, m.len() as int);
        assert(rest.drop_first() =~= m.subrange(i + 1, m.len() as int));
        assert(rest[0] == must@[i as int]@);
        if !contains_name(set, &must[i]) {
            return Some(must[i].clone());
        }
        i = i + 1;
    }
    None
}

impl<'a> ParseBindgen<'a> {
    /// Puts each user-declared C++ type in place of whatever entries have its
    /// C++ name: those entries go, and one entry per C++ name is appended.
    fn replace_extern_cpp_types(&mut self)
        requires
            old(self).config.wf(),
        ensures
            final(self).same_inputs(old(self)),
            final(self).errors == old(self).errors,
            apis_view(final(self).apis@) == substituted(old(self).inputs(), apis_view(old(self).apis@)),
    {
        let ghost inp = self.inputs();
        let cfg = self.config;
        let mut pods = new_name_set();
        let mut i: usize = 0;
        while i < cfg.pod_requests.len()
            invariant
                i <= cfg.pod_requests.len(),
                index_set_items(pods) == dedup(strs_view(cfg.pod_requests@.subrange(0, i as int))),
            decreases cfg.pod_requests.len() - i,
        {
            let ghost prefix = strs_view(cfg.pod_requests@.subrange(0, i as int));
            assert(strs_view(cfg.pod_requests@.subrange(0, i + 1)) =~= prefix.push(cfg.pod_requests@[i as int]@));
            proof {
                lemma_dedup_push(prefix, cfg.pod_requests@[i as int]@);
            }
            insert_name(&mut pods, cfg.pod_requests[i].clone());
            i = i + 1;
        }
        assert(cfg.pod_requests@.subrange(0, cfg.pod_requests@.len() as int) =~= cfg.pod_requests@);
        let mut ov: Vec<Api> = Vec::new();
        let mut places = new_name_map();
        let mut i: usize = 0;
        while i < cfg.externs.len()
            invariant
                cfg == self.config,
                cfg.wf(),
                self.inputs() == inp,
                i <= cfg.externs.len(),
                index_set_items(pods) == dedup(strs_view(cfg.pod_requests@)),
                apis_view(ov@) == overrides(inp, i as nat),
                forall|a: int, b: int|
                    0 <= a < b < ov@.len() ==> cpp_name_of((#[trigger] apis_view(ov@)[a]).qname()) != cpp_name_of(
                        (#[trigger] apis_view(ov@)[b]).qname(),
                    ),
                forall|k: Seq<char>|
                    #[trigger] index_map_contents(places).contains_key(k) ==> index_map_contents(places)[k] < ov@.len()
                        && cpp_name_of(apis_view(ov@)[index_map_contents(places)[k] as int].qname()) == k,
                forall|j: int|
                    0 <= j < ov@.len() ==> index_map_contents(places).contains_key(
                        cpp_name_of((#[trigger] apis_view(ov@)[j]).qname()),
                    ),
            decreases cfg.externs.len() - i,
        {
            let e = &cfg.externs[i];
            let q = QualifiedName::new_from_cpp_name(e.cpp_definition.as_str());
            let cpp_name = q.to_cpp_name();
            proof {
                lemma_dedup_contains(strs_view(cfg.pod_requests@), cpp_name@);
            }
            let pod = contains_name(&pods, &cpp_name);
            let ghost a = override_api(inp, cfg.externs@[i as int]);
            let ghost before = apis_view(ov@);
            let api = Api::ExternCppType { name: ApiName { name: q, cpp_name: None }, details: e.details.clone(), pod };
            assert(api@ == a);
            assert(cpp_name_of(a.qname()) == cpp_name@);
            match map_get(&places, &cpp_name) {
                Some(j) => {
                    proof {
                        lemma_index_of_cpp_first(before, cpp_name@, j as int);
                    }
                    ov[j] = api;
                    assert(apis_view(ov@) =~= before.update(j as int, a));
                },
                None => {
                    proof {
                        lemma_index_of_cpp_none(before, cpp_name@);
                    }
                    let ghost m0 = index_map_contents(places);
                    map_insert(&mut places, cpp_name, ov.len());
                    ov.push(api);
                    assert(apis_view(ov@) =~= before.push(a));
                    assert(forall|t: int| 0 <= t < before.len() ==> #[trigger] apis_view(ov@)[t] == before[t]);
                },
            }
            i = i + 1;
        }
        let ghost ovv = apis_view(ov@);
        let mut rest: Vec<Api> = Vec::new();
        std::mem::swap(&mut rest, &mut self.apis);
        let ghost orig = apis_view(rest@);
        let ghost k: int = 0;
        assert(apis_view(self.apis@) =~= unreplaced(orig.subrange(0, 0), ovv));
        while rest.len() > 0
            invariant
                0 <= k <= orig.len(),
                apis_view(rest@) == orig.subrange(k, orig.len() as int),
                rest@.len() == orig.len() - k,
                apis_view(ov@) == ovv,
                forall|k: Seq<char>|
                    #[trigger] index_map_contents(places).contains_key(k) ==> index_map_contents(places)[k] < ov@.len()
                        && cpp_name_of(apis_view(ov@)[index_map_contents(places)[k] as int].qname()) == k,
                forall|j: int|
                    0 <= j < ov@.len() ==> index_map_contents(places).contains_key(
                        cpp_name_of((#[trigger] apis_view(ov@)[j]).qname()),
                    ),
                apis_view(self.apis@) == unreplaced(orig.subrange(0, k), ovv),
                self.inputs() == inp,
                self.errors == old(self).errors,
            decreases rest.len(),
        {
            assert(apis_view(rest@)[0] == rest@[0]@);
            let ghost rb = rest@;
            let api = rest.remove(0);
            assert(rest@ =~= rb.subrange(1, rb.len() as int));
            assert(api@ == orig[k]);
            proof {
                assert(orig.subrange(0, k + 1) =~= orig.subrange(0, k).push(orig[k]));
                lemma_unreplaced_push(orig.subrange(0, k), orig[k], ovv);
            }
            let key = api.name().to_cpp_name();
            proof {
                lemma_index_of_cpp(ovv, key@);
                if index_of_cpp(ovv, key@) < 0 && index_map_contents(places).contains_key(key@) {
                    let t = index_map_contents(places)[key@] as int;
                    assert(cpp_name_of(ovv[t].qname()) == key@);
                }
                if index_of_cpp(ovv, key@) >= 0 {
                    let t = index_of_cpp(ovv, key@);
                    assert(index_map_contents(places).contains_key(cpp_name_of(apis_view(ov@)[t].qname())));
                }
            }
            if !map_contains_key(&places, &key) {
                let ghost before = apis_view(self.apis@);
                self.apis.push(api);
                assert(apis_view(self.apis@) =~= before.push(orig[k]));
            }
            proof {
                k = k + 1;
            }
            assert forall|t: int| 0 <= t < rest@.len() implies apis_view(rest@)[t] == orig.subrange(
                k,
                orig.len() as int,
            )[t] by {
                assert(apis_view(rest@)[t] == rb[t + 1]@);
                assert(apis_view(rb)[t + 1] == rb[t + 1]@);
            }
            assert(apis_view(rest@) =~= orig.subrange(k, orig.len() as int));
        }
        assert(orig.subrange(0, orig.len() as int) =~= orig);
        let ghost before = apis_view(self.apis@);
        self.apis.append(&mut ov);
        assert(apis_view(self.apis@) =~= before + ovv);
    }

    /// The first name that the user asked for and that no entry bears.
    fn confirm_all_generate_directives_obeyed(&self) -> (r: Option<String>)
        ensures
            opt_view(r) == first_missing(self.config.must_generate(), cpp_names(apis_view(self.apis@))),
    {
        let ghost names = cpp_names(apis_view(self.apis@));
        let mut set = new_name_set();
        let mut i: usize = 0;
        while i < self.apis.len()
            invariant
                i <= self.apis.len(),
                names == cpp_names(apis_view(self.apis@)),
                index_set_items(set) == dedup(names.subrange(0, i as int)),
            decreases self.apis.len() - i,
        {
            let n = self.apis[i].name().to_cpp_name();
            proof {
                assert(names.subrange(0, i + 1) =~= names.subrange(0, i as int).push(names[i as int]));
                lemma_dedup_push(names.subrange(0, i as int), names[i as int]);
            }
            insert_name(&mut set, n);
            i = i + 1;
        }
        assert(names.subrange(0, names.len() as int) =~= names);
        assert forall|x: Seq<char>| index_set_items(set).contains(x) <==> names.contains(x) by {
            lemma_dedup_contains(names, x);
        }
        let must = self.config.must_generate_list();
        first_missing_name(&must, &set, Ghost(names))
    }
}

} // verus!

verus! {

/// `r` is what the whole pass gives on `items`.
pub open spec fn parse_result_matches(inp: Inputs, items: Seq<Decl>, r: Result<ParseOutput, ConvertError>) -> bool {
    match parse_outcome(inp, items) {
        Ok(out) => r is Ok && apis_view(r->Ok_0.apis@) == out.0 && errors_view(r->Ok_0.errors@) == out.1,
        Err(e) => r is Err && r->Err_0@ == e,
    }
}

/// The model and the errors reported on single declarations.
#[derive(Debug, PartialEq)]
pub struct ParseOutput {
    pub apis: Vec<Api>,
    pub errors: Vec<ReportedError>,
}

/// The declarations of the first top-level scope that has a body, or none.
pub fn find_items_in_root(decls: Vec<Decl>) -> (r: Vec<Decl>)
    requires
        roots_ok(decls@),
    ensures
        r@ == root_content(decls@),
{
    let ghost orig = decls@;
    let mut items = decls;
    let ghost k: int = 0;
    while items.len() > 0
        invariant
            0 <= k <= orig.len(),
            orig == decls@,
            items@ == orig.subrange(k, orig.len() as int),
            root_content(items@) == root_content(orig),
            roots_ok(items@),
        decreases items.len(),
    {
        let ghost before = items@;
        let item = items.remove(0);
        assert(item == before[0]);
        assert(items@ =~= before.drop_first());
        match item {
            Decl::Mod { content: Some(v), .. } => {
                assert(before.len() > 0);
                assert(root_content(before) == v@);
                return v;
            },
            _ => {},
        }
        proof {
            k = k + 1;
        }
        assert(items@ =~= orig.subrange(k, orig.len() as int));
    }
    Vec::new()
}

/// Puts in the utility entries, unless the user left them out.
fn generate_utilities(apis: &mut Vec<Api>, config: &IncludeCppConfig)
    ensures
        apis_view(final(apis)@) == insert_all(apis_view(old(apis)@), utility_apis(*config)),
{
    let ghost before = apis_view(apis@);
    if !config.exclude_utilities() {
        let name = ApiName {
            name: QualifiedName { ns: Namespace::new(), id: config.make_string_name.clone() },
            cpp_name: None,
        };
        let api = Api::StringConstructor { name };
        proof {
            lemma_insert_all_one(before, api@);
        }
        insert_api(apis, api);
    } else {
        proof {
            lemma_insert_all_empty(before);
        }
    }
}

impl<'a> ParseBindgen<'a> {
    /// Runs the whole pass over the top-level declarations `items`: the
    /// utilities, the configured entries, the walk of the root scope, the
    /// substitution of user-declared types, and the check that every name
    /// the user asked for is there.
    pub fn parse_items(self, items: Vec<Decl>) -> (r: Result<ParseOutput, ConvertError>)
        requires
            self.config.wf(),
            self.apis@.len() == 0,
            self.errors@.len() == 0,
            roots_ok(items@),
            items_ok(root_content(items@), root_content(items@).len()),
        ensures
            parse_result_matches(self.inputs(), items@, r),
    {
        let ghost inp = self.inputs();
        let mut me = self;
        let root = find_items_in_root(items);
        assert(apis_view(me.apis@) =~= Seq::<ApiView>::empty());
        generate_utilities(&mut me.apis, me.config);
        assert(apis_view(me.apis@) == insert_all(Seq::empty(), utility_apis(inp.config)));
        me.add_apis_from_config();
        assert(errors_view(me.errors@) =~= Seq::<crate::api::ReportedErrorView>::empty());
        me.parse_mod_items(root, Namespace::new());
        me.replace_extern_cpp_types();
        proof {
            let u = utility_apis(inp.config);
            let c = config_apis(inp);
            let w = scope_outcome(inp, Seq::empty(), root_content(items@)).0;
            lemma_insert_all_concat(Seq::empty(), u, c);
            lemma_insert_all_concat(Seq::empty(), u + c, w);
        }
        assert(apis_view(me.apis@) == model_apis(inp, items@));
        assert(errors_view(me.errors@) =~= scope_outcome(inp, Seq::empty(), root_content(items@)).1);
        match me.confirm_all_generate_directives_obeyed() {
            Some(n) => Err(ConvertError::DidNotGenerateAnything(n)),
            None => Ok(ParseOutput { apis: me.apis, errors: me.errors }),
        }
    }
}

} // verus!
