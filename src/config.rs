//! The user's configuration, and what the upstream header parser noted on
//! the side, as plain values.

use vstd::prelude::*;
use crate::types::{opt_view, strs_view, strings_contain, QualifiedName, QualifiedNameView};

verus! {

/// A Rust path such as `crate::foo::Bar`, by segments; never empty.
pub struct RustPath {
    pub segs: Vec<String>,
}

/// A subclass declared in Rust, with the C++ class it derives from.
pub struct Subclass {
    pub subclass: String,
    /// The superclass's C++ name, such as `ns::Base`.
    pub superclass: String,
}

/// A function implemented in Rust and exported to C++.
pub struct RustFun {
    pub ident: String,
    /// The names of the types that its signature mentions, in order.
    pub sig_types: Vec<String>,
}

/// A template instantiation that the user asked for under a Rust name.
pub struct Concrete {
    pub cpp_definition: String,
    pub rust_id: String,
}

/// A C++ type that the user declared by hand and that replaces whatever the
/// header declares under its name.
pub struct ExternCppType {
    /// Its C++ name, such as `ns::Widget`.
    pub cpp_definition: String,
    pub details: String,
}

/// The configuration of one `include_cpp!` block.
pub struct IncludeCppConfig {
    pub exclude_utilities: bool,
    /// The name of the string-making utility function.
    pub make_string_name: String,
    /// `None` where everything is allowed, else the items the user listed.
    pub allowlist: Option<Vec<String>>,
    pub pod_requests: Vec<String>,
    pub blocklist: Vec<String>,
    pub rust_types: Vec<RustPath>,
    pub subclasses: Vec<Subclass>,
    pub extern_rust_funs: Vec<RustFun>,
    pub concretes: Vec<Concrete>,
    pub externs: Vec<ExternCppType>,
}

/// The text `Holder`.
pub open spec fn holder_suffix() -> Seq<char> {
    seq!['H', 'o', 'l', 'd', 'e', 'r']
}

impl IncludeCppConfig {
    /// The Rust paths are not empty.
    pub open spec fn wf(&self) -> bool {
        forall|i: int| 0 <= i < self.rust_types@.len() ==> #[trigger] self.rust_types@[i].segs@.len() > 0
    }

    /// The names that must appear in the model: the listed items, where an
    /// allowlist is given, then the POD requests.
    pub open spec fn must_generate(&self) -> Seq<Seq<char>> {
        match self.allowlist {
            Some(items) => strs_view(items@) + strs_view(self.pod_requests@),
            None => strs_view(self.pod_requests@),
        }
    }

    /// `id` names a type that lives in Rust: the last segment of a Rust type's
    /// path, or a subclass's name followed by `Holder`.
    pub open spec fn rust_type_spec(&self, id: Seq<char>) -> bool {
        (exists|i: int| 0 <= i < self.rust_types@.len() && #[trigger] self.rust_types@[i].segs@.last()@ == id)
        || (exists|i: int| 0 <= i < self.subclasses@.len() && #[trigger] self.subclasses@[i].subclass@ + holder_suffix() == id)
    }

    /// Whether to leave out the utility functions.
    pub fn exclude_utilities(&self) -> (r: bool)
        ensures
            r == self.exclude_utilities,
    {
        self.exclude_utilities
    }

    /// Whether the user blocked the C++ name `cpp_name`.
    pub fn is_on_blocklist(&self, cpp_name: &String) -> (r: bool)
        ensures
            r == strs_view(self.blocklist@).contains(cpp_name@),
    {
        strings_contain(&self.blocklist, cpp_name)
    }

    /// The names that must appear in the model.
    pub fn must_generate_list(&self) -> (r: Vec<String>)
        ensures
            strs_view(r@) == self.must_generate(),
    {
        match &self.allowlist {
            Some(items) => {
                let mut r = crate::types::copy_strings(items);
                let mut pods = crate::types::copy_strings(&self.pod_requests);
                r.append(&mut pods);
                assert(strs_view(r@) =~= strs_view(items@) + strs_view(self.pod_requests@));
                r
            },
            None => crate::types::copy_strings(&self.pod_requests),
        }
    }

    /// Whether `id` names a type that lives in Rust.
    pub fn is_rust_type(&self, id: &String) -> (r: bool)
        requires
            self.wf(),
        ensures
            r == self.rust_type_spec(id@),
    {
        let mut i: usize = 0;
        while i < self.rust_types.len()
            invariant
                self.wf(),
                i <= self.rust_types.len(),
                forall|j: int| 0 <= j < i ==> #[trigger] self.rust_types@[j].segs@.last()@ != id@,
            decreases self.rust_types.len() - i,
        {
            let segs = &self.rust_types[i].segs;
            assert(self.rust_types@[i as int].segs@.len() > 0);
            if segs[segs.len() - 1] == *id {
                assert(self.rust_types@[i as int].segs@.last()@ == id@);
                return true;
            }
            i = i + 1;
        }
        let mut k: usize = 0;
        while k < self.subclasses.len()
            invariant
                k <= self.subclasses.len(),
                forall|j: int| 0 <= j < k ==> #[trigger] self.subclasses@[j].subclass@ + holder_suffix() != id@,
            decreases self.subclasses.len() - k,
        {
            let mut holder = self.subclasses[k].subclass.clone();
            proof {
                reveal_strlit("Holder");
            }
            holder.append("Holder");
            assert("Holder"@ =~= holder_suffix());
            if holder == *id {
                return true;
            }
            k = k + 1;
        }
        false
    }
}

/// The name under which the header declared a type, where bindgen renamed it
/// (a nested `A::B` becomes `A_B`).
pub struct OriginalName {
    pub name: QualifiedName,
    pub original: String,
}

/// What the header parser noted beside the declaration tree.
pub struct ParseCallbackResults {
    pub original_names: Vec<OriginalName>,
    /// Types that carry a template parameter that is never used.
    pub unused_template_params: Vec<QualifiedName>,
}

/// The first original name recorded for `q` in `names`.
pub open spec fn original_name_in(names: Seq<OriginalName>, q: QualifiedNameView) -> Option<Seq<char>>
    decreases names.len(),
{
    if names.len() == 0 {
        None
    } else if names[0].name@ == q {
        Some(names[0].original@)
    } else {
        original_name_in(names.drop_first(), q)
    }
}

impl ParseCallbackResults {
    /// The original name recorded for `q`, if any.
    pub open spec fn original_name_spec(&self, q: QualifiedNameView) -> Option<Seq<char>> {
        original_name_in(self.original_names@, q)
    }

    /// Whether `q` carries an unused template parameter.
    pub open spec fn unused_template_param_spec(&self, q: QualifiedNameView) -> bool {
        exists|i: int| 0 <= i < self.unused_template_params@.len() && #[trigger] self.unused_template_params@[i]@ == q
    }

    /// The original name recorded for `q`, if any.
    pub fn get_original_name(&self, q: &QualifiedName) -> (r: Option<String>)
        ensures
            opt_view(r) == self.original_name_spec(q@),
    {
        let mut i: usize = 0;
        assert(self.original_names@.subrange(0, self.original_names@.len() as int) =~= self.original_names@);
        while i < self.original_names.len()
            invariant
                i <= self.original_names.len(),
                original_name_in(self.original_names@.subrange(i as int, self.original_names@.len() as int), q@)
                    == self.original_name_spec(q@),
            decreases self.original_names.len() - i,
        {
            let ghost rest = self.original_names@.subrange(i as int, self.original_names@.len() as int);
            assert(rest.drop_first() =~= self.original_names@.subrange(i + 1, self.original_names@.len() as int));
            if self.original_names[i].name.same_as(q) {
                return Some(self.original_names[i].original.clone());
            }
            i = i + 1;
        }
        None
    }

    /// Whether `q` carries an unused template parameter.
    pub fn has_unused_template_param(&self, q: &QualifiedName) -> (r: bool)
        ensures
            r == self.unused_template_param_spec(q@),
    {
        let mut i: usize = 0;
        while i < self.unused_template_params.len()
            invariant
                i <= self.unused_template_params.len(),
                forall|j: int| 0 <= j < i ==> #[trigger] self.unused_template_params@[j]@ != q@,
            decreases self.unused_template_params.len() - i,
        {
            if self.unused_template_params[i].same_as(q) {
                return true;
            }
            i = i + 1;
        }
        false
    }
}

} // verus!

verus! {

/// The types that the generator already knows, and so never takes from the
/// declaration tree.
pub struct KnownTypes {
    /// Types that stand in for others (a `root::string` for `std::string`).
    pub substitutes: Vec<QualifiedName>,
    /// Types with a built-in mapping.
    pub known: Vec<QualifiedName>,
}

impl KnownTypes {
    /// Whether `q` stands in for another type.
    pub fn is_known_substitute_type(&self, q: &QualifiedName) -> (r: bool)
        ensures
            r == crate::types::names_hold(self.substitutes@, q@),
    {
        crate::types::names_contain(&self.substitutes, q)
    }

    /// Whether `q` has a built-in mapping.
    pub fn is_known_type(&self, q: &QualifiedName) -> (r: bool)
        ensures
            r == crate::types::names_hold(self.known@, q@),
    {
        crate::types::names_contain(&self.known, q)
    }
}

} // verus!
