//! Properties of the whole pass, proved from the model.

use vstd::prelude::*;
use crate::api::{apis_view, errors_view, ApiView, ConvertError, ConvertErrorView};
use crate::decl::{Decl, Field, UseLeaf};
use crate::ident::ident_problem;
use crate::model::{
    blocked, cchar16_alias, config_apis, cpp_names, dedup, dedup_spelled, first_missing, index_of_cpp,
    index_of_name, insert_all, item_outcome, items_outcome, leaf_outcome, lemma_index_of_cpp, lemma_index_of_name,
    model_apis, override_api, overrides, parse_outcome, path_name, root_content, root_name, scope_functions,
    scope_outcome, spot_field_spec, struct_outcome, unreplaced, unused_marker, upsert, use_outcome, utility_apis,
    vtable_suffix, Inputs,
};
use crate::parse_bindgen::{parse_result_matches, ParseOutput};
use crate::types::{
    cpp_name_of, has_suffix, names_hold, split_path, strs_view,
};

verus! {

/// Two runs of the pass on the same declarations and the same inputs give
/// the same entries in the same order, the same reported errors, or the
/// same failure.
pub proof fn lemma_deterministic(
    inp: Inputs,
    items: Seq<Decl>,
    r1: Result<ParseOutput, ConvertError>,
    r2: Result<ParseOutput, ConvertError>,
)
    requires
        parse_result_matches(inp, items, r1),
        parse_result_matches(inp, items, r2),
    ensures
        r1 is Ok <==> r2 is Ok,
        r1 is Ok ==> apis_view(r1->Ok_0.apis@) == apis_view(r2->Ok_0.apis@) && errors_view(r1->Ok_0.errors@)
            == errors_view(r2->Ok_0.errors@),
        r1 is Err ==> r1->Err_0@ == r2->Err_0@,
{
}

/// `first_missing` finds a name wherever one is missing, and only then.
proof fn lemma_first_missing(must: Seq<Seq<char>>, names: Seq<Seq<char>>)
    ensures
        first_missing(must, names) is Some <==> exists|i: int| 0 <= i < must.len() && !names.contains(#[trigger] must[i]),
        first_missing(must, names) is Some ==> must.contains(first_missing(must, names)->Some_0) && !names.contains(
            first_missing(must, names)->Some_0,
        ),
    decreases must.len(),
{
    if must.len() > 0 {
        lemma_first_missing(must.drop_first(), names);
        if names.contains(must[0]) {
            if exists|i: int| 0 <= i < must.len() && !names.contains(#[trigger] must[i]) {
                let i = choose|i: int| 0 <= i < must.len() && !names.contains(#[trigger] must[i]);
                assert(i > 0);
                assert(must.drop_first()[i - 1] == must[i]);
            }
            if first_missing(must, names) is Some {
                let x = first_missing(must, names)->Some_0;
                let j = choose|j: int| 0 <= j < must.drop_first().len() && must.drop_first()[j] == x;
                assert(must[j + 1] == x);
            }
        } else {
            assert(must[0] == must[0]);
        }
    }
}

/// Where the user asked for a name that no entry of the model bears, the
/// pass fails, naming a name that was asked for and is missing; where every
/// name asked for is there, it succeeds.
pub proof fn lemma_must_generate(inp: Inputs, items: Seq<Decl>, n: Seq<char>)
    requires
        inp.config.must_generate().contains(n),
    ensures
        !cpp_names(model_apis(inp, items)).contains(n) ==> parse_outcome(inp, items) is Err,
        parse_outcome(inp, items) is Err ==> parse_outcome(inp, items)->Err_0 is DidNotGenerateAnything,
        parse_outcome(inp, items) is Err ==> ({
            let m = parse_outcome(inp, items)->Err_0->DidNotGenerateAnything_0;
            inp.config.must_generate().contains(m) && !cpp_names(model_apis(inp, items)).contains(m)
        }),
        (forall|i: int|
            0 <= i < inp.config.must_generate().len() ==> cpp_names(model_apis(inp, items)).contains(
                #[trigger] inp.config.must_generate()[i],
            )) ==> parse_outcome(inp, items) is Ok,
{
    lemma_first_missing(inp.config.must_generate(), cpp_names(model_apis(inp, items)));
    let must = inp.config.must_generate();
    let names = cpp_names(model_apis(inp, items));
    if !names.contains(n) {
        let i = choose|i: int| 0 <= i < must.len() && must[i] == n;
        assert(!names.contains(must[i]));
    }
}

/// A struct whose one field is the `_unused` marker gives no struct entry:
/// only a forward declaration, and exactly one where its name is valid,
/// free, and not blocked.
pub proof fn lemma_forward_declaration(inp: Inputs, ns: Seq<Seq<char>>, ident: Seq<char>, fields: Seq<Field>)
    requires
        fields.len() == 1,
        crate::types::opt_view(fields[0].ident) == Some(unused_marker()),
    ensures
        struct_outcome(inp, ns, ident, fields) is Ok ==> forall|i: int|
            0 <= i < struct_outcome(inp, ns, ident, fields)->Ok_0.len() ==> (#[trigger] struct_outcome(
                inp,
                ns,
                ident,
                fields,
            )->Ok_0[i]) is ForwardDeclaration,
        !has_suffix(ident, vtable_suffix()) && ident_problem(ident) is None && !names_hold(
            inp.known.substitutes@,
            (ns, ident),
        ) && !names_hold(inp.known.known@, (ns, ident)) && !(ns.len() == 0 && inp.config.rust_type_spec(ident))
            && !blocked(inp, (ns, ident)) ==> struct_outcome(inp, ns, ident, fields) is Ok && struct_outcome(
            inp,
            ns,
            ident,
            fields,
        )->Ok_0.len() == 1,
{
    assert(spot_field_spec(fields, unused_marker()));
}

/// An import under another name whose original path is its own new name
/// fails with the alias-cycle error and gives no entry.
pub proof fn lemma_alias_self_reference(
    inp: Inputs,
    ns: Seq<Seq<char>>,
    path: Seq<Seq<char>>,
    ident: String,
    rename: String,
)
    requires
        rename@ != cchar16_alias(),
        path.len() >= 2,
        path.subrange(2, path.len() as int) == ns,
        ident@ == rename@,
    ensures
        use_outcome(inp, ns, path, UseLeaf::Rename { ident, rename }) == Err::<Seq<ApiView>, _>(
            (Some(rename@), ConvertErrorView::InfinitelyRecursiveTypedef((ns, rename@))),
        ),
{
}

} // verus!

verus! {

/// A struct, enum or forward-declaration entry.
pub open spec fn is_type_entry(a: ApiView) -> bool {
    a is Struct || a is Enum || a is ForwardDeclaration
}

/// No type entry of `s` bears a blocked name.
pub open spec fn no_blocked_types(inp: Inputs, s: Seq<ApiView>) -> bool {
    forall|i: int| 0 <= i < s.len() && is_type_entry(#[trigger] s[i]) ==> !blocked(inp, s[i].qname())
}

/// `s` holds no type entry.
pub open spec fn no_type_entries(s: Seq<ApiView>) -> bool {
    forall|i: int| 0 <= i < s.len() ==> !is_type_entry(#[trigger] s[i])
}

proof fn lemma_no_type_entries_concat(a: Seq<ApiView>, b: Seq<ApiView>)
    requires
        no_type_entries(a),
        no_type_entries(b),
    ensures
        no_type_entries(a + b),
{
    assert forall|i: int| 0 <= i < (a + b).len() implies !is_type_entry(#[trigger] (a + b)[i]) by {
        if i >= a.len() {
            assert((a + b)[i] == b[i - a.len()]);
        } else {
            assert((a + b)[i] == a[i]);
        }
    }
}

proof fn lemma_no_blocked_concat(inp: Inputs, a: Seq<ApiView>, b: Seq<ApiView>)
    requires
        no_blocked_types(inp, a),
        no_blocked_types(inp, b),
    ensures
        no_blocked_types(inp, a + b),
{
    assert forall|i: int| 0 <= i < (a + b).len() && is_type_entry(#[trigger] (a + b)[i]) implies !blocked(
        inp,
        (a + b)[i].qname(),
    ) by {
        if i >= a.len() {
            assert((a + b)[i] == b[i - a.len()]);
        }
    }
}

proof fn lemma_leaf_no_blocked(inp: Inputs, ns: Seq<Seq<char>>, d: Decl)
    ensures
        leaf_outcome(inp, ns, d) is Ok ==> no_blocked_types(inp, leaf_outcome(inp, ns, d)->Ok_0),
{
}

proof fn lemma_item_no_blocked(inp: Inputs, ns: Seq<Seq<char>>, d: Decl)
    ensures
        no_blocked_types(inp, item_outcome(inp, ns, d).0),
    decreases d, 0nat,
{
    match d {
        Decl::Mod { ident, content } => match content {
            Some(items) => {
                let inner = ns.push(ident@);
                lemma_items_no_blocked(inp, inner, items@, items@.len());
                let f = scope_functions(inp, inner, items@);
                assert forall|i: int| 0 <= i < f.len() implies !is_type_entry(#[trigger] f[i]) by {}
                lemma_no_blocked_concat(inp, items_outcome(inp, inner, items@, items@.len()).0, f);
            },
            None => {},
        },
        _ => {
            lemma_leaf_no_blocked(inp, ns, d);
        },
    }
}

proof fn lemma_items_no_blocked(inp: Inputs, ns: Seq<Seq<char>>, items: Seq<Decl>, n: nat)
    ensures
        no_blocked_types(inp, items_outcome(inp, ns, items, n).0),
    decreases items, n,
{
    if n > 0 && n <= items.len() {
        lemma_items_no_blocked(inp, ns, items, (n - 1) as nat);
        lemma_item_no_blocked(inp, ns, items[n - 1]);
        lemma_no_blocked_concat(
            inp,
            items_outcome(inp, ns, items, (n - 1) as nat).0,
            item_outcome(inp, ns, items[n - 1]).0,
        );
    }
}

/// Every entry that `unreplaced` keeps is an entry of `s` whose C++ name no
/// replacement has.
proof fn lemma_unreplaced(s: Seq<ApiView>, ov: Seq<ApiView>)
    ensures
        forall|i: int|
            0 <= i < unreplaced(s, ov).len() ==> s.contains(#[trigger] unreplaced(s, ov)[i]) && index_of_cpp(
                ov,
                cpp_name_of(unreplaced(s, ov)[i].qname()),
            ) < 0,
    decreases s.len(),
{
    if s.len() > 0 {
        lemma_unreplaced(s.drop_last(), ov);
        let p = s.drop_last();
        assert forall|x: ApiView| p.contains(x) implies s.contains(x) by {
            let j = choose|j: int| 0 <= j < p.len() && p[j] == x;
            assert(s[j] == x);
        }
        assert(s[s.len() - 1] == s.last());
        let rp = unreplaced(p, ov);
        let r = unreplaced(s, ov);
        assert forall|i: int| 0 <= i < r.len() implies s.contains(#[trigger] r[i]) && index_of_cpp(
            ov,
            cpp_name_of(r[i].qname()),
        ) < 0 by {
            if i < rp.len() {
                assert(r[i] == rp[i]);
                assert(p.contains(rp[i]));
            } else {
                assert(r[i] == s.last());
            }
        }
    }
}

/// The replacements are user-declared type entries, one per C++ name, and
/// each declared type's C++ name is among them.
proof fn lemma_overrides(inp: Inputs, n: nat)
    ensures
        forall|i: int| 0 <= i < overrides(inp, n).len() ==> (#[trigger] overrides(inp, n)[i]) is ExternCppType,
        forall|i: int, j: int|
            0 <= i < j < overrides(inp, n).len() ==> cpp_name_of((#[trigger] overrides(inp, n)[i]).qname())
                != cpp_name_of((#[trigger] overrides(inp, n)[j]).qname()),
        forall|k: int|
            0 <= k < n && n <= inp.config.externs@.len() ==> index_of_cpp(
                overrides(inp, n),
                cpp_name_of(path_name(split_path(#[trigger] inp.config.externs@[k].cpp_definition@))),
            ) >= 0,
    decreases n,
{
    if n > 0 && n <= inp.config.externs@.len() {
        lemma_overrides(inp, (n - 1) as nat);
        let d = overrides(inp, (n - 1) as nat);
        let a = override_api(inp, inp.config.externs@[n - 1]);
        let ka = cpp_name_of(a.qname());
        lemma_index_of_cpp(d, ka);
        let r = overrides(inp, n);
        assert forall|i: int, j: int| 0 <= i < j < r.len() implies cpp_name_of((#[trigger] r[i]).qname()) != cpp_name_of(
            (#[trigger] r[j]).qname(),
        ) by {
            if index_of_cpp(d, ka) >= 0 {
                let t = index_of_cpp(d, ka);
                if i != t && j != t {
                    assert(r[i] == d[i] && r[j] == d[j]);
                } else if i == t {
                    assert(r[j] == d[j]);
                } else {
                    assert(r[i] == d[i]);
                }
            } else {
                if j == d.len() {
                    assert(r[i] == d[i]);
                } else {
                    assert(r[i] == d[i] && r[j] == d[j]);
                }
            }
        }
        assert forall|k: int| 0 <= k < n implies index_of_cpp(
            r,
            cpp_name_of(path_name(split_path(#[trigger] inp.config.externs@[k].cpp_definition@))),
        ) >= 0 by {
            let c = cpp_name_of(path_name(split_path(inp.config.externs@[k].cpp_definition@)));
            lemma_index_of_cpp(r, c);
            if k < n - 1 {
                lemma_index_of_cpp(d, c);
                let t = index_of_cpp(d, c);
                if index_of_cpp(d, ka) >= 0 && t == index_of_cpp(d, ka) {
                    assert(cpp_name_of(r[t].qname()) == ka);
                } else {
                    assert(r[t] == d[t]);
                }
                assert(cpp_name_of(r[t].qname()) == c);
            } else {
                assert(ka == c);
                if index_of_cpp(d, ka) >= 0 {
                    assert(cpp_name_of(r[index_of_cpp(d, ka)].qname()) == c);
                } else {
                    assert(cpp_name_of(r[r.len() - 1].qname()) == c);
                }
            }
        }
    }
}

/// No type entry of the final model bears a name on the block list.
pub proof fn lemma_blocklist_exclusion(inp: Inputs, items: Seq<Decl>)
    ensures
        no_blocked_types(inp, model_apis(inp, items)),
{
    let walked = scope_outcome(inp, Seq::empty(), root_content(items));
    let root = root_content(items);
    lemma_items_no_blocked(inp, Seq::empty(), root, root.len());
    let f = scope_functions(inp, Seq::empty(), root);
    assert forall|i: int| 0 <= i < f.len() implies !is_type_entry(#[trigger] f[i]) by {}
    lemma_no_blocked_concat(inp, items_outcome(inp, Seq::empty(), root, root.len()).0, f);
    let pre = utility_apis(inp.config) + config_apis(inp);
    assert forall|i: int| 0 <= i < pre.len() implies !is_type_entry(#[trigger] pre[i]) by {
        let cfg = inp.config;
        let u = utility_apis(cfg);
        let p1 = cfg.subclasses@.map_values(
            |sc: crate::config::Subclass|
                ApiView::Subclass { name: root_name(sc.subclass@), superclass: path_name(split_path(sc.superclass@)) },
        );
        let p2 = cfg.extern_rust_funs@.map_values(
            |f: crate::config::RustFun| ApiView::RustFn { name: root_name(f.ident@), deps: dedup(strs_view(f.sig_types@)) },
        );
        let p3 = dedup_spelled(cfg.rust_types@.map_values(|p: crate::config::RustPath| strs_view(p.segs@))).map_values(
            |p: Seq<Seq<char>>| ApiView::RustType { name: root_name(p.last()), path: p },
        );
        let p4 = cfg.concretes@.map_values(
            |c: crate::config::Concrete|
                ApiView::ConcreteType { name: root_name(c.rust_id@), cpp_definition: c.cpp_definition@ },
        );
        assert(pre == u + p1 + p2 + p3 + p4);
        assert(no_type_entries(u));
        assert(no_type_entries(p1));
        assert(no_type_entries(p2));
        assert(no_type_entries(p3));
        assert(no_type_entries(p4));
        lemma_no_type_entries_concat(u, p1);
        lemma_no_type_entries_concat(u + p1, p2);
        lemma_no_type_entries_concat(u + p1 + p2, p3);
        lemma_no_type_entries_concat(u + p1 + p2 + p3, p4);
    }
    lemma_no_blocked_concat(inp, pre, walked.0);
    lemma_insert_all_members(Seq::empty(), pre + walked.0);
    let s = insert_all(Seq::empty(), pre + walked.0);
    assert forall|i: int| 0 <= i < s.len() && is_type_entry(#[trigger] s[i]) implies !blocked(inp, s[i].qname()) by {
        let j = choose|j: int| 0 <= j < (pre + walked.0).len() && (pre + walked.0)[j] == s[i];
    }
    let ov = overrides(inp, inp.config.externs@.len());
    lemma_unreplaced(s, ov);
    lemma_overrides(inp, inp.config.externs@.len());
    let u = unreplaced(s, ov);
    assert forall|i: int| 0 <= i < u.len() && is_type_entry(#[trigger] u[i]) implies !blocked(inp, u[i].qname()) by {
        let j = choose|j: int| 0 <= j < s.len() && s[j] == u[i];
    }
    assert forall|i: int| 0 <= i < ov.len() implies !is_type_entry(#[trigger] ov[i]) by {}
    lemma_no_blocked_concat(inp, u, ov);
}

/// A C++ type that the user declared by hand is named by exactly one entry
/// of the final model, and that entry is a user-declared type, whatever the
/// declaration tree declared under that C++ name.
pub proof fn lemma_override_supersedes(inp: Inputs, items: Seq<Decl>, k: int)
    requires
        0 <= k < inp.config.externs@.len(),
    ensures
        ({
            let c = cpp_name_of(path_name(split_path(inp.config.externs@[k].cpp_definition@)));
            let m = model_apis(inp, items);
            exists|j: int|
                0 <= j < m.len() && cpp_name_of((#[trigger] m[j]).qname()) == c && m[j] is ExternCppType && forall|i: int|
                    0 <= i < m.len() && cpp_name_of((#[trigger] m[i]).qname()) == c ==> i == j
        }),
{
    let c = cpp_name_of(path_name(split_path(inp.config.externs@[k].cpp_definition@)));
    let s = insert_all(
        Seq::empty(),
        utility_apis(inp.config) + config_apis(inp) + scope_outcome(inp, Seq::empty(), root_content(items)).0,
    );
    let ov = overrides(inp, inp.config.externs@.len());
    lemma_overrides(inp, inp.config.externs@.len());
    lemma_unreplaced(s, ov);
    lemma_index_of_cpp(ov, c);
    let u = unreplaced(s, ov);
    let m = u + ov;
    assert(m == model_apis(inp, items));
    let t = index_of_cpp(ov, c);
    let j = u.len() + t;
    assert(m[j] == ov[t]);
    assert forall|i: int| 0 <= i < m.len() && cpp_name_of((#[trigger] m[i]).qname()) == c implies i == j by {
        if i < u.len() {
            assert(m[i] == u[i]);
            assert(index_of_cpp(ov, cpp_name_of(u[i].qname())) < 0);
        } else {
            assert(m[i] == ov[i - u.len()]);
            if i - u.len() != t {
                if i - u.len() < t {
                    assert(cpp_name_of(ov[i - u.len()].qname()) != cpp_name_of(ov[t].qname()));
                } else {
                    assert(cpp_name_of(ov[t].qname()) != cpp_name_of(ov[i - u.len()].qname()));
                }
            }
        }
    }
}

} // verus!

verus! {

/// Every entry of `insert_all(s, r)` is an entry of `s` or of `r`.
proof fn lemma_insert_all_members(s: Seq<ApiView>, r: Seq<ApiView>)
    ensures
        forall|i: int|
            0 <= i < insert_all(s, r).len() ==> s.contains(#[trigger] insert_all(s, r)[i]) || r.contains(
                insert_all(s, r)[i],
            ),
    decreases r.len(),
{
    if r.len() > 0 {
        lemma_insert_all_members(s, r.drop_last());
        let x = insert_all(s, r.drop_last());
        let a = r.last();
        let y = insert_all(s, r);
        assert(y == upsert(x, a));
        lemma_index_of_name(x, a.qname());
        assert forall|i: int| 0 <= i < y.len() implies s.contains(#[trigger] y[i]) || r.contains(y[i]) by {
            assert(r[r.len() - 1] == a);
            if y[i] != a {
                assert(i < x.len() && y[i] == x[i]);
                if !s.contains(x[i]) {
                    let j = choose|j: int| 0 <= j < r.drop_last().len() && r.drop_last()[j] == x[i];
                    assert(r[j] == x[i]);
                }
            }
        }
    }
}

/// No two entries of `s` bear the same name.
pub open spec fn names_unique(s: Seq<ApiView>) -> bool {
    forall|i: int, j: int| 0 <= i < s.len() && 0 <= j < s.len() && i != j ==> (#[trigger] s[i]).qname() != (
    #[trigger] s[j]).qname()
}

proof fn lemma_upsert_unique(s: Seq<ApiView>, a: ApiView)
    requires
        names_unique(s),
    ensures
        names_unique(upsert(s, a)),
{
    lemma_index_of_name(s, a.qname());
    let t = index_of_name(s, a.qname());
    let u = upsert(s, a);
    assert forall|i: int, j: int| 0 <= i < u.len() && 0 <= j < u.len() && i != j implies (#[trigger] u[i]).qname()
        != (#[trigger] u[j]).qname() by {
        if t < 0 {
            if i == s.len() as int {
                assert(u[j] == s[j]);
            } else if j == s.len() as int {
                assert(u[i] == s[i]);
            } else {
                assert(u[i] == s[i] && u[j] == s[j]);
            }
        } else {
            if i == t {
                assert(u[j] == s[j]);
                assert(s[t].qname() == a.qname());
            } else if j == t {
                assert(u[i] == s[i]);
                assert(s[t].qname() == a.qname());
            } else {
                assert(u[i] == s[i] && u[j] == s[j]);
            }
        }
    }
}

proof fn lemma_insert_all_unique(s: Seq<ApiView>, r: Seq<ApiView>)
    requires
        names_unique(s),
    ensures
        names_unique(insert_all(s, r)),
    decreases r.len(),
{
    if r.len() > 0 {
        lemma_insert_all_unique(s, r.drop_last());
        lemma_upsert_unique(insert_all(s, r.drop_last()), r.last());
    }
}

/// `unreplaced` keeps no two entries of one name, where `s` had none.
proof fn lemma_unreplaced_unique(s: Seq<ApiView>, ov: Seq<ApiView>)
    requires
        names_unique(s),
    ensures
        names_unique(unreplaced(s, ov)),
    decreases s.len(),
{
    if s.len() > 0 {
        let p = s.drop_last();
        assert forall|i: int, j: int| 0 <= i < p.len() && 0 <= j < p.len() && i != j implies (#[trigger] p[i]).qname()
            != (#[trigger] p[j]).qname() by {
            assert(p[i] == s[i] && p[j] == s[j]);
        }
        lemma_unreplaced_unique(p, ov);
        lemma_unreplaced(p, ov);
        let rp = unreplaced(p, ov);
        let r = unreplaced(s, ov);
        if index_of_cpp(ov, cpp_name_of(s.last().qname())) < 0 {
            assert forall|i: int, j: int| 0 <= i < r.len() && 0 <= j < r.len() && i != j implies (
            #[trigger] r[i]).qname() != (#[trigger] r[j]).qname() by {
                if i == rp.len() as int || j == rp.len() as int {
                    let k = if i == rp.len() as int { j } else { i };
                    assert(r[k] == rp[k]);
                    let m = choose|m: int| 0 <= m < p.len() && p[m] == rp[k];
                    assert(s[m] == p[m]);
                    assert(s[s.len() - 1] == s.last());
                    assert(s[m].qname() != s[s.len() - 1].qname());
                } else {
                    assert(r[i] == rp[i] && r[j] == rp[j]);
                }
            }
        }
    }
}

/// No two entries of the final model bear the same qualified name: a later
/// entry of a name, such as a repeated type alias, takes the place of the
/// earlier one, and a user-declared type replaces whatever bore its name.
pub proof fn lemma_names_unique(inp: Inputs, items: Seq<Decl>)
    ensures
        names_unique(model_apis(inp, items)),
{
    let r = utility_apis(inp.config) + config_apis(inp) + scope_outcome(inp, Seq::empty(), root_content(items)).0;
    lemma_insert_all_unique(Seq::empty(), r);
    let s = insert_all(Seq::empty(), r);
    let ov = overrides(inp, inp.config.externs@.len());
    lemma_overrides(inp, inp.config.externs@.len());
    lemma_unreplaced(s, ov);
    lemma_unreplaced_unique(s, ov);
    let u = unreplaced(s, ov);
    let m = u + ov;
    assert(m == model_apis(inp, items));
    assert forall|i: int, j: int| 0 <= i < m.len() && 0 <= j < m.len() && i != j implies (#[trigger] m[i]).qname()
        != (#[trigger] m[j]).qname() by {
        if i < u.len() && j < u.len() {
            assert(m[i] == u[i] && m[j] == u[j]);
        } else if i >= u.len() && j >= u.len() {
            assert(m[i] == ov[i - u.len()] && m[j] == ov[j - u.len()]);
            if i < j {
                assert(cpp_name_of(ov[i - u.len()].qname()) != cpp_name_of(ov[j - u.len()].qname()));
            } else {
                assert(cpp_name_of(ov[j - u.len()].qname()) != cpp_name_of(ov[i - u.len()].qname()));
            }
        } else {
            let (a, b) = if i < u.len() { (i, j) } else { (j, i) };
            assert(m[a] == u[a] && m[b] == ov[b - u.len()]);
            assert(index_of_cpp(ov, cpp_name_of(u[a].qname())) < 0);
            lemma_index_of_cpp(ov, cpp_name_of(u[a].qname()));
            assert(cpp_name_of(ov[b - u.len()].qname()) != cpp_name_of(u[a].qname()));
        }
    }
}

} // verus!
