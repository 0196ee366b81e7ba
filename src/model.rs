//! What the classification pass computes, stated over views: for each kind
//! of declaration, for a scope, for the configured entries, for the
//! substitution of user-declared types and for the final check.

use vstd::prelude::*;
use crate::api::{ApiNameView, ApiView, ConvertErrorView, ReportedErrorView, TypedefKindView};
use crate::config::{IncludeCppConfig, KnownTypes, ParseCallbackResults};
use crate::decl::{Decl, Field, UseLeaf};
use crate::ident::ident_problem;
use crate::types::{join_path, split_path, cpp_name_of, has_suffix, holds_path_separator, names_hold, opt_view, strs_view, QualifiedNameView};

verus! {

/// The inputs that stay fixed through a whole pass.
pub struct Inputs {
    pub config: IncludeCppConfig,
    pub callbacks: ParseCallbackResults,
    pub known: KnownTypes,
}

/// What one declaration gives: entries, or an error with the name of the
/// declaration it concerns.
pub type LeafResult = Result<Seq<ApiView>, (Option<Seq<char>>, ConvertErrorView)>;

/// What a scope gives: entries, and the errors reported on its declarations.
pub type ScopeResult = (Seq<ApiView>, Seq<ReportedErrorView>);

/// The name of `id` declared in `ns`, with the name the header gave it.
pub open spec fn api_name_spec(inp: Inputs, ns: Seq<Seq<char>>, id: Seq<char>) -> ApiNameView {
    name_with_original(inp.callbacks, ns, id)
}

/// The name of `id` declared in `ns`, with the name that `cb` recorded for it.
pub open spec fn name_with_original(cb: ParseCallbackResults, ns: Seq<Seq<char>>, id: Seq<char>) -> ApiNameView {
    ((ns, id), cb.original_name_spec((ns, id)))
}

/// A name in the root namespace, with no C++ name of its own.
pub open spec fn root_name(id: Seq<char>) -> ApiNameView {
    ((Seq::empty(), id), None)
}

/// The suffix of the structs that stand for C++ vtables.
pub open spec fn vtable_suffix() -> Seq<char> {
    seq!['_', '_', 'b', 'i', 'n', 'd', 'g', 'e', 'n', '_', 'v', 't', 'a', 'b', 'l', 'e']
}

/// The field through which an opaque forward declaration shows.
pub open spec fn unused_marker() -> Seq<char> {
    seq!['_', 'u', 'n', 'u', 's', 'e', 'd']
}

/// The field through which a templated placeholder shows.
pub open spec fn address_marker() -> Seq<char> {
    seq!['_', 'a', 'd', 'd', 'r', 'e', 's', 's']
}

/// The alias target that is never turned into an entry.
pub open spec fn cchar16_alias() -> Seq<char> {
    seq!['b', 'i', 'n', 'd', 'g', 'e', 'n', '_', 'c', 'c', 'h', 'a', 'r', '1', '6', '_', 't']
}

/// `fields` holds a field named `id`.
pub open spec fn spot_field_spec(fields: Seq<Field>, id: Seq<char>) -> bool {
    exists|i: int| 0 <= i < fields.len() && opt_view(#[trigger] fields[i].ident) == Some(id)
}

/// The path segment through which bindgen marks an rvalue reference (`T&&`).
pub open spec fn rvalue_marker() -> Seq<char> {
    seq![
        '_', '_', 'b', 'i', 'n', 'd', 'g', 'e', 'n', '_', 'm', 'a', 'r', 'k', 'e', 'r', '_', 'R', 'V', 'a', 'l',
        'u', 'e', 'R', 'e', 'f', 'e', 'r', 'e', 'n', 'c', 'e',
    ]
}

/// The field's type is an rvalue reference: its path holds the marker.
pub open spec fn is_rvalue_reference(f: Field) -> bool {
    strs_view(f.ty_path@).contains(rvalue_marker())
}

/// `fields` holds a field of rvalue-reference type.
pub open spec fn has_rvalue_reference_field(fields: Seq<Field>) -> bool {
    exists|i: int| 0 <= i < fields.len() && is_rvalue_reference(#[trigger] fields[i])
}

/// The name's C++ spelling names a nested type.
pub open spec fn is_nested(name: ApiNameView) -> bool {
    holds_path_separator(
        match name.1 {
            Some(c) => c,
            None => name.0.1,
        },
    )
}

/// The C++ name of `q` is on the user's block list.
pub open spec fn blocked(inp: Inputs, q: QualifiedNameView) -> bool {
    strs_view(inp.config.blocklist@).contains(cpp_name_of(q))
}

/// `api` alone, or nothing where its name is blocked.
pub open spec fn unless_blocked(inp: Inputs, api: ApiView) -> Seq<ApiView> {
    if blocked(inp, api.qname()) {
        Seq::empty()
    } else {
        seq![api]
    }
}

/// The entry that a struct declaration gives, before the block list.
pub open spec fn struct_entry(inp: Inputs, ns: Seq<Seq<char>>, ident: Seq<char>, fields: Seq<Field>) -> ApiView {
    let name = api_name_spec(inp, ns, ident);
    let err = if inp.callbacks.unused_template_param_spec((ns, ident)) {
        Some(ConvertErrorView::UnusedTemplateParam)
    } else {
        None
    };
    if spot_field_spec(fields, unused_marker()) || (spot_field_spec(fields, address_marker()) && err is Some) {
        ApiView::ForwardDeclaration {
            name,
            err: if err is None && is_nested(name) {
                Some(ConvertErrorView::ForwardDeclaredNestedType)
            } else {
                err
            },
        }
    } else {
        ApiView::Struct { name, fields, has_rvalue_reference_fields: has_rvalue_reference_field(fields) }
    }
}

/// What a struct declaration gives.
pub open spec fn struct_outcome(inp: Inputs, ns: Seq<Seq<char>>, ident: Seq<char>, fields: Seq<Field>) -> LeafResult {
    if has_suffix(ident, vtable_suffix()) {
        Ok(Seq::empty())
    } else if ident_problem(ident) is Some {
        Err((Some(ident), ConvertErrorView::InvalidIdent(ident_problem(ident)->Some_0)))
    } else if names_hold(inp.known.substitutes@, (ns, ident)) {
        Ok(Seq::empty())
    } else if (ns.len() == 0 && inp.config.rust_type_spec(ident)) || names_hold(inp.known.known@, (ns, ident)) {
        Ok(Seq::empty())
    } else {
        Ok(unless_blocked(inp, struct_entry(inp, ns, ident, fields)))
    }
}

/// What an enum declaration gives.
pub open spec fn enum_outcome(inp: Inputs, ns: Seq<Seq<char>>, ident: Seq<char>, variants: Seq<Seq<char>>) -> LeafResult {
    if ident_problem(ident) is Some {
        Err((Some(ident), ConvertErrorView::InvalidIdent(ident_problem(ident)->Some_0)))
    } else {
        Ok(unless_blocked(inp, ApiView::Enum { name: api_name_spec(inp, ns, ident), variants }))
    }
}

/// An import's path starts with `self::super`.
pub open spec fn use_path_ok(path: Seq<Seq<char>>, leaf: UseLeaf) -> bool {
    match leaf {
        UseLeaf::Rename { rename, .. } => rename@ == cchar16_alias() || (path.len() >= 2 && path[0] == seq![
            's',
            'e',
            'l',
            'f',
        ] && path[1] == seq!['s', 'u', 'p', 'e', 'r']),
        _ => true,
    }
}

/// What an import declaration gives: an alias entry for a rename, nothing
/// otherwise.
pub open spec fn use_outcome(inp: Inputs, ns: Seq<Seq<char>>, path: Seq<Seq<char>>, leaf: UseLeaf) -> LeafResult {
    match leaf {
        UseLeaf::Rename { ident, rename } => if rename@ == cchar16_alias() {
            Ok(Seq::empty())
        } else {
            let old_ns = path.subrange(2, path.len() as int);
            let old_tyname = (old_ns, ident@);
            let new_tyname = (ns, rename@);
            if old_tyname == new_tyname {
                Err((Some(rename@), ConvertErrorView::InfinitelyRecursiveTypedef(new_tyname)))
            } else {
                Ok(
                    seq![
                        ApiView::Typedef {
                            name: api_name_spec(inp, ns, rename@),
                            kind: TypedefKindView::Use(old_ns.push(ident@)),
                            old_tyname: Some(old_tyname),
                        },
                    ],
                )
            }
        },
        _ => Ok(Seq::empty()),
    }
}

/// A constant's type can be named in the bridge.
pub open spec fn const_type_ok(ty_last: Option<String>) -> bool {
    match ty_last {
        Some(t) => ident_problem(t@) is None,
        None => true,
    }
}

/// What a declaration other than a nested scope gives.
pub open spec fn leaf_outcome(inp: Inputs, ns: Seq<Seq<char>>, d: Decl) -> LeafResult {
    match d {
        Decl::Struct { ident, fields } => struct_outcome(inp, ns, ident@, fields@),
        Decl::Enum { ident, variants } => enum_outcome(inp, ns, ident@, strs_view(variants@)),
        Decl::Use { path, leaf } => use_outcome(inp, ns, strs_view(path@), leaf),
        Decl::Const { ident, ty_last, value } => if const_type_ok(ty_last) {
            Ok(seq![ApiView::Const { name: api_name_spec(inp, ns, ident@), value: value@ }])
        } else {
            Ok(Seq::empty())
        },
        Decl::Type { ident, target } => Ok(
            seq![
                ApiView::Typedef {
                    name: api_name_spec(inp, ns, ident@),
                    kind: TypedefKindView::Type(target@),
                    old_tyname: None,
                },
            ],
        ),
        Decl::Other => Err((None, ConvertErrorView::UnexpectedItemInMod)),
        _ => Ok(Seq::empty()),
    }
}

/// The functions to import that the first `n` declarations list.
pub open spec fn scope_fns(items: Seq<Decl>, n: nat) -> Seq<Seq<char>>
    decreases n,
{
    if n == 0 || n > items.len() {
        Seq::empty()
    } else {
        scope_fns(items, (n - 1) as nat) + match items[n - 1] {
            Decl::ForeignMod { fns } => strs_view(fns@),
            _ => Seq::empty(),
        }
    }
}

/// The implementation blocks among the first `n` declarations: each type
/// with the methods listed for it.
pub open spec fn scope_impls(items: Seq<Decl>, n: nat) -> Seq<(Seq<char>, Seq<Seq<char>>)>
    decreases n,
{
    if n == 0 || n > items.len() {
        Seq::empty()
    } else {
        scope_impls(items, (n - 1) as nat) + match items[n - 1] {
            Decl::Impl { self_ty, methods } => seq![(self_ty@, strs_view(methods@))],
            _ => Seq::empty(),
        }
    }
}

/// The type of the first implementation block that lists `f`.
pub open spec fn method_owner(impls: Seq<(Seq<char>, Seq<Seq<char>>)>, f: Seq<char>) -> Option<Seq<char>>
    decreases impls.len(),
{
    if impls.len() == 0 {
        None
    } else if impls[0].1.contains(f) {
        Some(impls[0].0)
    } else {
        method_owner(impls.drop_first(), f)
    }
}

/// The function entries for the functions `fns` of scope `ns`.
pub open spec fn function_entries(
    cb: ParseCallbackResults,
    ns: Seq<Seq<char>>,
    fns: Seq<Seq<char>>,
    impls: Seq<(Seq<char>, Seq<Seq<char>>)>,
) -> Seq<ApiView> {
    fns.map_values(|f: Seq<char>| ApiView::Function { name: name_with_original(cb, ns, f), method_of: method_owner(impls, f) })
}

/// The function entries of a scope, put in once the scope is done.
pub open spec fn scope_functions(inp: Inputs, ns: Seq<Seq<char>>, items: Seq<Decl>) -> Seq<ApiView> {
    function_entries(inp.callbacks, ns, scope_fns(items, items.len()), scope_impls(items, items.len()))
}

/// What one declaration of scope `ns` gives; a nested scope gives all that
/// its declarations give, then its functions.
pub open spec fn item_outcome(inp: Inputs, ns: Seq<Seq<char>>, d: Decl) -> ScopeResult
    decreases d, 0nat,
{
    match d {
        Decl::Mod { ident, content } => match content {
            Some(items) => {
                let inner = ns.push(ident@);
                let r = items_outcome(inp, inner, items@, items@.len());
                (r.0 + scope_functions(inp, inner, items@), r.1)
            },
            None => (Seq::empty(), Seq::empty()),
        },
        _ => match leaf_outcome(inp, ns, d) {
            Ok(apis) => (apis, Seq::empty()),
            Err(e) => (Seq::empty(), seq![(ns, e.0, e.1)]),
        },
    }
}

/// What the first `n` declarations of scope `ns` give, in order.
pub open spec fn items_outcome(inp: Inputs, ns: Seq<Seq<char>>, items: Seq<Decl>, n: nat) -> ScopeResult
    decreases items, n,
{
    if n == 0 || n > items.len() {
        (Seq::empty(), Seq::empty())
    } else {
        let a = items_outcome(inp, ns, items, (n - 1) as nat);
        let b = item_outcome(inp, ns, items[n - 1]);
        (a.0 + b.0, a.1 + b.1)
    }
}

} // verus!

verus! {

/// Each import in `d`, and in the scopes it nests, has its `self::super` prefix.
pub open spec fn decl_ok(d: Decl) -> bool
    decreases d, 0nat,
{
    match d {
        Decl::Mod { content, .. } => match content {
            Some(items) => items_ok(items@, items@.len()),
            None => true,
        },
        Decl::Use { path, leaf } => use_path_ok(strs_view(path@), leaf),
        _ => true,
    }
}

/// The first `n` declarations are well formed.
pub open spec fn items_ok(items: Seq<Decl>, n: nat) -> bool
    decreases items, n,
{
    if n == 0 || n > items.len() {
        true
    } else {
        items_ok(items, (n - 1) as nat) && decl_ok(items[n - 1])
    }
}

/// What a whole scope gives: its declarations' entries, then its functions.
pub open spec fn scope_outcome(inp: Inputs, ns: Seq<Seq<char>>, items: Seq<Decl>) -> ScopeResult {
    let r = items_outcome(inp, ns, items, items.len());
    (r.0 + scope_functions(inp, ns, items), r.1)
}

/// The declarations of the first top-level scope that has a body.
pub open spec fn root_content(items: Seq<Decl>) -> Seq<Decl>
    decreases items.len(),
{
    if items.len() == 0 {
        Seq::empty()
    } else {
        match items[0] {
            Decl::Mod { content: Some(v), .. } => v@,
            _ => root_content(items.drop_first()),
        }
    }
}

/// The text `root`.
pub open spec fn root_ident() -> Seq<char> {
    seq!['r', 'o', 'o', 't']
}

/// Every top-level scope up to the first one with a body is the root scope.
pub open spec fn roots_ok(items: Seq<Decl>) -> bool
    decreases items.len(),
{
    if items.len() == 0 {
        true
    } else {
        match items[0] {
            Decl::Mod { ident, content } => ident@ == root_ident() && (content is Some || roots_ok(items.drop_first())),
            _ => roots_ok(items.drop_first()),
        }
    }
}

/// `s` without repeats, each at its first place.
pub open spec fn dedup<A>(s: Seq<A>) -> Seq<A>
    decreases s.len(),
{
    if s.len() == 0 {
        s
    } else {
        let d = dedup(s.drop_last());
        if d.contains(s.last()) {
            d
        } else {
            d.push(s.last())
        }
    }
}

/// The `::` spelling of each path.
pub open spec fn spellings(ps: Seq<Seq<Seq<char>>>) -> Seq<Seq<char>> {
    ps.map_values(|p: Seq<Seq<char>>| join_path(p))
}

/// `ps` without a second path of the same spelling, each at its first place.
pub open spec fn dedup_spelled(ps: Seq<Seq<Seq<char>>>) -> Seq<Seq<Seq<char>>>
    decreases ps.len(),
{
    if ps.len() == 0 {
        ps
    } else {
        let d = dedup_spelled(ps.drop_last());
        if spellings(d).contains(join_path(ps.last())) {
            d
        } else {
            d.push(ps.last())
        }
    }
}

/// The path of a qualified name written as segments.
pub open spec fn path_name(p: Seq<Seq<char>>) -> QualifiedNameView {
    (p.drop_last(), p.last())
}

/// The utility entries: the string maker, unless the user left it out.
pub open spec fn utility_apis(cfg: IncludeCppConfig) -> Seq<ApiView> {
    if cfg.exclude_utilities {
        Seq::empty()
    } else {
        seq![ApiView::StringConstructor { name: root_name(cfg.make_string_name@) }]
    }
}

/// The entries that come from the configuration alone: subclasses,
/// functions implemented in Rust, Rust types (each path once), template
/// instantiations; each Rust type once per spelling of its path.
pub open spec fn config_apis(inp: Inputs) -> Seq<ApiView> {
    let cfg = inp.config;
    cfg.subclasses@.map_values(
        |sc: crate::config::Subclass|
            ApiView::Subclass { name: root_name(sc.subclass@), superclass: path_name(split_path(sc.superclass@)) },
    ) + cfg.extern_rust_funs@.map_values(
        |f: crate::config::RustFun| ApiView::RustFn { name: root_name(f.ident@), deps: dedup(strs_view(f.sig_types@)) },
    ) + dedup_spelled(cfg.rust_types@.map_values(|p: crate::config::RustPath| strs_view(p.segs@))).map_values(
        |p: Seq<Seq<char>>| ApiView::RustType { name: root_name(p.last()), path: p },
    ) + cfg.concretes@.map_values(
        |c: crate::config::Concrete|
            ApiView::ConcreteType { name: root_name(c.rust_id@), cpp_definition: c.cpp_definition@ },
    )
}

/// The entry that replaces whatever bears the name of a user-declared type.
pub open spec fn override_api(inp: Inputs, e: crate::config::ExternCppType) -> ApiView {
    let q = path_name(split_path(e.cpp_definition@));
    ApiView::ExternCppType {
        name: (q, None),
        details: e.details@,
        pod: strs_view(inp.config.pod_requests@).contains(cpp_name_of(q)),
    }
}

/// The index of the first entry of `s` named `q`, or -1.
pub open spec fn index_of_name(s: Seq<ApiView>, q: QualifiedNameView) -> int
    decreases s.len(),
{
    if s.len() == 0 {
        -1
    } else if s.last().qname() == q && index_of_name(s.drop_last(), q) < 0 {
        s.len() - 1
    } else {
        index_of_name(s.drop_last(), q)
    }
}

/// The replacement entries of the first `n` user-declared types: one per
/// C++ name, at the place where the name first came, holding its last
/// details.
pub open spec fn overrides(inp: Inputs, n: nat) -> Seq<ApiView>
    decreases n,
{
    if n == 0 || n > inp.config.externs@.len() {
        Seq::empty()
    } else {
        let d = overrides(inp, (n - 1) as nat);
        let a = override_api(inp, inp.config.externs@[n - 1]);
        let j = index_of_cpp(d, cpp_name_of(a.qname()));
        if j >= 0 {
            d.update(j, a)
        } else {
            d.push(a)
        }
    }
}

/// The index of the first entry of `s` whose C++ name is `k`, or -1.
pub open spec fn index_of_cpp(s: Seq<ApiView>, k: Seq<char>) -> int
    decreases s.len(),
{
    if s.len() == 0 {
        -1
    } else if cpp_name_of(s.last().qname()) == k && index_of_cpp(s.drop_last(), k) < 0 {
        s.len() - 1
    } else {
        index_of_cpp(s.drop_last(), k)
    }
}

/// `j` is the first place of an entry whose C++ name is `k`.
pub proof fn lemma_index_of_cpp_first(s: Seq<ApiView>, k: Seq<char>, j: int)
    requires
        0 <= j < s.len(),
        cpp_name_of(s[j].qname()) == k,
        forall|i: int| 0 <= i < j ==> cpp_name_of((#[trigger] s[i]).qname()) != k,
    ensures
        index_of_cpp(s, k) == j,
    decreases s.len(),
{
    if j < s.len() - 1 {
        lemma_index_of_cpp_first(s.drop_last(), k, j);
    } else {
        lemma_index_of_cpp_none(s.drop_last(), k);
    }
}

/// No entry has the C++ name `k`.
pub proof fn lemma_index_of_cpp_none(s: Seq<ApiView>, k: Seq<char>)
    requires
        forall|i: int| 0 <= i < s.len() ==> cpp_name_of((#[trigger] s[i]).qname()) != k,
    ensures
        index_of_cpp(s, k) == -1,
    decreases s.len(),
{
    if s.len() > 0 {
        assert(cpp_name_of(s[s.len() - 1].qname()) != k);
        lemma_index_of_cpp_none(s.drop_last(), k);
    }
}

/// Where `index_of_cpp` gives a place, the entry there has the C++ name;
/// where it gives none, no entry has.
pub proof fn lemma_index_of_cpp(s: Seq<ApiView>, k: Seq<char>)
    ensures
        -1 <= index_of_cpp(s, k) < s.len(),
        index_of_cpp(s, k) >= 0 ==> cpp_name_of(s[index_of_cpp(s, k)].qname()) == k,
        index_of_cpp(s, k) < 0 ==> forall|i: int| 0 <= i < s.len() ==> cpp_name_of((#[trigger] s[i]).qname()) != k,
    decreases s.len(),
{
    if s.len() > 0 {
        lemma_index_of_cpp(s.drop_last(), k);
        let p = s.drop_last();
        assert forall|i: int| 0 <= i < p.len() implies #[trigger] s[i] == p[i] by {}
    }
}

/// `s` with `a` put in: in place of the entry that bears its name, or last
/// where none does. Names are keys: a later entry replaces an earlier one.
pub open spec fn upsert(s: Seq<ApiView>, a: ApiView) -> Seq<ApiView> {
    let j = index_of_name(s, a.qname());
    if j >= 0 {
        s.update(j, a)
    } else {
        s.push(a)
    }
}

/// `s` with the entries of `r` put in one after the other.
pub open spec fn insert_all(s: Seq<ApiView>, r: Seq<ApiView>) -> Seq<ApiView>
    decreases r.len(),
{
    if r.len() == 0 {
        s
    } else {
        upsert(insert_all(s, r.drop_last()), r.last())
    }
}

/// The entries of `s` whose C++ names no entry of `ov` has.
pub open spec fn unreplaced(s: Seq<ApiView>, ov: Seq<ApiView>) -> Seq<ApiView>
    decreases s.len(),
{
    if s.len() == 0 {
        s
    } else if index_of_cpp(ov, cpp_name_of(s.last().qname())) < 0 {
        unreplaced(s.drop_last(), ov).push(s.last())
    } else {
        unreplaced(s.drop_last(), ov)
    }
}

/// `s` with the user-declared types put in place of what bore their names.
pub open spec fn substituted(inp: Inputs, s: Seq<ApiView>) -> Seq<ApiView> {
    let ov = overrides(inp, inp.config.externs@.len());
    unreplaced(s, ov) + ov
}

/// The C++ names of the entries.
pub open spec fn cpp_names(s: Seq<ApiView>) -> Seq<Seq<char>> {
    s.map_values(|a: ApiView| cpp_name_of(a.qname()))
}

/// The first of `must` that `names` lacks.
pub open spec fn first_missing(must: Seq<Seq<char>>, names: Seq<Seq<char>>) -> Option<Seq<char>>
    decreases must.len(),
{
    if must.len() == 0 {
        None
    } else if !names.contains(must[0]) {
        Some(must[0])
    } else {
        first_missing(must.drop_first(), names)
    }
}

/// The entries of the whole pass before the final check: utilities, the
/// configured entries and the root scope's entries, each put in by name,
/// after substitution.
pub open spec fn model_apis(inp: Inputs, items: Seq<Decl>) -> Seq<ApiView> {
    substituted(
        inp,
        insert_all(
            Seq::empty(),
            utility_apis(inp.config) + config_apis(inp) + scope_outcome(inp, Seq::empty(), root_content(items)).0,
        ),
    )
}

/// What the whole pass gives: the model and the errors reported on single
/// declarations, or the first name that the user asked for and that the
/// model lacks.
pub open spec fn parse_outcome(inp: Inputs, items: Seq<Decl>) -> Result<ScopeResult, ConvertErrorView> {
    let apis = model_apis(inp, items);
    match first_missing(inp.config.must_generate(), cpp_names(apis)) {
        Some(n) => Err(ConvertErrorView::DidNotGenerateAnything(n)),
        None => Ok((apis, scope_outcome(inp, Seq::empty(), root_content(items)).1)),
    }
}

} // verus!

verus! {

/// An element is in the repeat-free list exactly where it is in the list.
pub proof fn lemma_dedup_contains<A>(s: Seq<A>, x: A)
    ensures
        dedup(s).contains(x) <==> s.contains(x),
    decreases s.len(),
{
    if s.len() > 0 {
        lemma_dedup_contains(s.drop_last(), x);
        let d = dedup(s.drop_last());
        if s.contains(x) {
            let i = choose|i: int| 0 <= i < s.len() && s[i] == x;
            if i < s.len() - 1 {
                assert(s.drop_last()[i] == x);
            }
            if !d.contains(s.last()) {
                assert(d.push(s.last())[d.len() as int] == s.last());
            }
        }
        if dedup(s).contains(x) && !d.contains(x) {
            assert(x == s.last());
            assert(s[s.len() - 1] == x);
        }
        if d.contains(x) {
            let i = choose|i: int| 0 <= i < d.len() && d[i] == x;
            if !d.contains(s.last()) {
                assert(d.push(s.last())[i] == x);
            }
            let j = choose|j: int| 0 <= j < s.drop_last().len() && s.drop_last()[j] == x;
            assert(s[j] == x);
        }
    }
}

/// `j` is the first place of an entry named `q`.
pub proof fn lemma_index_of_name_first(s: Seq<ApiView>, q: QualifiedNameView, j: int)
    requires
        0 <= j < s.len(),
        s[j].qname() == q,
        forall|i: int| 0 <= i < j ==> (#[trigger] s[i]).qname() != q,
    ensures
        index_of_name(s, q) == j,
    decreases s.len(),
{
    if j < s.len() - 1 {
        lemma_index_of_name_first(s.drop_last(), q, j);
    } else {
        lemma_index_of_name_none(s.drop_last(), q);
    }
}

/// No entry is named `q`.
pub proof fn lemma_index_of_name_none(s: Seq<ApiView>, q: QualifiedNameView)
    requires
        forall|i: int| 0 <= i < s.len() ==> (#[trigger] s[i]).qname() != q,
    ensures
        index_of_name(s, q) == -1,
    decreases s.len(),
{
    if s.len() > 0 {
        assert(s[s.len() - 1].qname() != q);
        lemma_index_of_name_none(s.drop_last(), q);
    }
}

/// Where `index_of_name` gives a place, the entry there bears the name;
/// where it gives none, no entry does.
pub proof fn lemma_index_of_name(s: Seq<ApiView>, q: QualifiedNameView)
    ensures
        -1 <= index_of_name(s, q) < s.len(),
        index_of_name(s, q) >= 0 ==> s[index_of_name(s, q)].qname() == q,
        index_of_name(s, q) >= 0 ==> forall|i: int| 0 <= i < index_of_name(s, q) ==> (#[trigger] s[i]).qname() != q,
        index_of_name(s, q) < 0 ==> forall|i: int| 0 <= i < s.len() ==> (#[trigger] s[i]).qname() != q,
    decreases s.len(),
{
    if s.len() > 0 {
        lemma_index_of_name(s.drop_last(), q);
        let p = s.drop_last();
        assert forall|i: int| 0 <= i < p.len() implies #[trigger] s[i] == p[i] by {}
    }
}

} // verus!

verus! {

/// Putting in nothing changes nothing.
pub proof fn lemma_insert_all_empty(s: Seq<ApiView>)
    ensures
        insert_all(s, Seq::empty()) == s,
{
}

/// Putting in one entry is `upsert`.
pub proof fn lemma_insert_all_one(s: Seq<ApiView>, a: ApiView)
    ensures
        insert_all(s, seq![a]) == upsert(s, a),
{
    assert(seq![a].drop_last() =~= Seq::<ApiView>::empty());
    assert(insert_all(s, seq![a].drop_last()) == s);
    assert(seq![a].last() == a);
}

/// Putting in `a + b` is putting in `a`, then `b`.
pub proof fn lemma_insert_all_concat(s: Seq<ApiView>, a: Seq<ApiView>, b: Seq<ApiView>)
    ensures
        insert_all(s, a + b) == insert_all(insert_all(s, a), b),
    decreases b.len(),
{
    if b.len() == 0 {
        assert(a + b =~= a);
    } else {
        lemma_insert_all_concat(s, a, b.drop_last());
        assert((a + b).drop_last() =~= a + b.drop_last());
        assert((a + b).last() == b.last());
    }
}

/// Putting in a list one entry at a time.
pub proof fn lemma_insert_all_push(s: Seq<ApiView>, r: Seq<ApiView>, a: ApiView)
    ensures
        insert_all(s, r.push(a)) == upsert(insert_all(s, r), a),
{
    assert(r.push(a).drop_last() =~= r);
}

} // verus!
