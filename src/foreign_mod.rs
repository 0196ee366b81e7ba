//! Collects, scope by scope, the functions to import and the implementation
//! blocks that tell methods from free functions.

use vstd::prelude::*;
use crate::api::{apis_view, insert_api, Api, ApiName};
use crate::config::ParseCallbackResults;
use crate::model::{function_entries, insert_all, lemma_insert_all_empty, lemma_insert_all_push, method_owner};
use crate::types::{copy_strings, strings_contain, strs_view, Namespace, QualifiedName};

verus! {

/// An implementation block: its type and the methods it lists.
#[derive(Debug, PartialEq)]
pub struct ImplBlock {
    pub self_ty: String,
    pub methods: Vec<String>,
}

/// The view of implementation blocks: each type with its methods.
pub open spec fn impls_view(v: Seq<ImplBlock>) -> Seq<(Seq<char>, Seq<Seq<char>>)> {
    v.map_values(|b: ImplBlock| (b.self_ty@, strs_view(b.methods@)))
}

/// What has been collected in one scope.
pub struct ParseForeignMod {
    pub ns: Namespace,
    pub fns: Vec<String>,
    pub impls: Vec<ImplBlock>,
}

impl ParseForeignMod {
    /// An empty collector for scope `ns`.
    pub fn new(ns: Namespace) -> (r: ParseForeignMod)
        ensures
            r.ns@ == ns@,
            r.fns@.len() == 0,
            r.impls@.len() == 0,
    {
        ParseForeignMod { ns, fns: Vec::new(), impls: Vec::new() }
    }

    /// Takes in functions to import.
    pub fn convert_foreign_mod_items(&mut self, fns: Vec<String>)
        ensures
            final(self).ns@ == old(self).ns@,
            strs_view(final(self).fns@) == strs_view(old(self).fns@) + strs_view(fns@),
            impls_view(final(self).impls@) == impls_view(old(self).impls@),
    {
        let mut fns = fns;
        let ghost before = self.fns@;
        let ghost added = fns@;
        self.fns.append(&mut fns);
        assert(self.fns@ == before + added);
        assert(strs_view(self.fns@) =~= strs_view(before) + strs_view(added));
    }

    /// Takes in an implementation block.
    pub fn convert_impl_items(&mut self, block: ImplBlock)
        ensures
            final(self).ns@ == old(self).ns@,
            strs_view(final(self).fns@) == strs_view(old(self).fns@),
            impls_view(final(self).impls@) == impls_view(old(self).impls@).push(
                (block.self_ty@, strs_view(block.methods@)),
            ),
    {
        let ghost before = self.impls@;
        self.impls.push(block);
        assert(impls_view(self.impls@) =~= impls_view(before).push((block.self_ty@, strs_view(block.methods@))));
    }

    /// The type of the first block that lists `f`.
    fn owner_of(&self, f: &String) -> (r: Option<String>)
        ensures
            crate::types::opt_view(r) == method_owner(impls_view(self.impls@), f@),
    {
        let ghost all = impls_view(self.impls@);
        let mut i: usize = 0;
        assert(all.subrange(0, all.len() as int) =~= all);
        while i < self.impls.len()
            invariant
                i <= self.impls.len(),
                all == impls_view(self.impls@),
                method_owner(all.subrange(i as int, all.len() as int), f@) == method_owner(all, f@),
            decreases self.impls.len() - i,
        {
            let ghost rest = all.subrange(i as int, all.len() as int);
            assert(rest.drop_first() =~= all.subrange(i + 1, all.len() as int));
            assert(rest[0] == all[i as int]);
            if strings_contain(&self.impls[i].methods, f) {
                return Some(self.impls[i].self_ty.clone());
            }
            i = i + 1;
        }
        None
    }

    /// Puts in a function entry for each function taken in, in order.
    pub fn finished(self, cb: &ParseCallbackResults, apis: &mut Vec<Api>)
        ensures
            apis_view(final(apis)@) == insert_all(
                apis_view(old(apis)@),
                function_entries(*cb, self.ns@, strs_view(self.fns@), impls_view(self.impls@)),
            ),
    {
        let ghost entries = function_entries(*cb, self.ns@, strs_view(self.fns@), impls_view(self.impls@));
        let ghost start = apis_view(apis@);
        let mut i: usize = 0;
        proof {
            lemma_insert_all_empty(start);
            assert(entries.subrange(0, 0) =~= Seq::<crate::api::ApiView>::empty());
        }
        while i < self.fns.len()
            invariant
                i <= self.fns.len(),
                entries == function_entries(*cb, self.ns@, strs_view(self.fns@), impls_view(self.impls@)),
                apis_view(apis@) == insert_all(start, entries.subrange(0, i as int)),
            decreases self.fns.len() - i,
        {
            let f = &self.fns[i];
            let q = QualifiedName::new(&self.ns, f.clone());
            let cpp_name = cb.get_original_name(&q);
            let method_of = self.owner_of(f);
            let api = Api::Function { name: ApiName { name: q, cpp_name }, method_of };
            assert(api@ == entries[i as int]);
            proof {
                lemma_insert_all_push(start, entries.subrange(0, i as int), entries[i as int]);
            }
            insert_api(apis, api);
            assert(entries.subrange(0, i + 1) =~= entries.subrange(0, i as int).push(entries[i as int]));
            i = i + 1;
        }
        assert(entries.subrange(0, entries.len() as int) =~= entries);
    }
}

} // verus!
