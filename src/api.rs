//! The API model: one entry for each type, function, constant and alias that
//! the bridge exposes.

use vstd::prelude::*;
use crate::decl::Field;
use crate::ident::InvalidIdentError;
use crate::model::{index_of_name, lemma_index_of_name, lemma_index_of_name_first, lemma_index_of_name_none, upsert};
use crate::types::{opt_view, strs_view, QualifiedName, QualifiedNameView};

verus! {

/// The view of an [`ApiName`]: its qualified name and its C++ name, where
/// that differs from the identifier.
pub type ApiNameView = (QualifiedNameView, Option<Seq<char>>);

/// The name of an API entry.
#[derive(Debug, PartialEq)]
pub struct ApiName {
    pub name: QualifiedName,
    pub cpp_name: Option<String>,
}

impl View for ApiName {
    type V = ApiNameView;

    open spec fn view(&self) -> ApiNameView {
        (self.name@, opt_view(self.cpp_name))
    }
}

/// The view of a [`ConvertError`].
pub enum ConvertErrorView {
    InvalidIdent(InvalidIdentError),
    ForwardDeclaredNestedType,
    UnusedTemplateParam,
    InfinitelyRecursiveTypedef(QualifiedNameView),
    UnexpectedItemInMod,
    DidNotGenerateAnything(Seq<char>),
}

/// Why a declaration, or the whole pass, failed.
#[derive(Debug, PartialEq)]
pub enum ConvertError {
    /// The declaration's name cannot stand in the bridge.
    InvalidIdent(InvalidIdentError),
    /// A nested type that is only declared forward.
    ForwardDeclaredNestedType,
    /// A type with a template parameter that it never uses.
    UnusedTemplateParam,
    /// An alias that names itself.
    InfinitelyRecursiveTypedef(QualifiedName),
    /// A kind of declaration that a scope should not hold.
    UnexpectedItemInMod,
    /// A name that the user asked for is not in the model.
    DidNotGenerateAnything(String),
}

impl View for ConvertError {
    type V = ConvertErrorView;

    open spec fn view(&self) -> ConvertErrorView {
        match self {
            ConvertError::InvalidIdent(e) => ConvertErrorView::InvalidIdent(*e),
            ConvertError::ForwardDeclaredNestedType => ConvertErrorView::ForwardDeclaredNestedType,
            ConvertError::UnusedTemplateParam => ConvertErrorView::UnusedTemplateParam,
            ConvertError::InfinitelyRecursiveTypedef(q) => ConvertErrorView::InfinitelyRecursiveTypedef(q@),
            ConvertError::UnexpectedItemInMod => ConvertErrorView::UnexpectedItemInMod,
            ConvertError::DidNotGenerateAnything(s) => ConvertErrorView::DidNotGenerateAnything(s@),
        }
    }
}

/// The view of an optional error.
pub open spec fn opt_err_view(e: Option<ConvertError>) -> Option<ConvertErrorView> {
    match e {
        Some(e) => Some(e@),
        None => None,
    }
}

/// The view of an optional qualified name.
pub open spec fn opt_qn_view(q: Option<QualifiedName>) -> Option<QualifiedNameView> {
    match q {
        Some(q) => Some(q@),
        None => None,
    }
}

/// What an alias stands for.
#[derive(Debug, PartialEq)]
pub enum TypedefKind {
    /// An import under another name: the path of the original.
    Use(Vec<String>),
    /// A type alias: the aliased type as spelled.
    Type(String),
}

/// The view of a [`TypedefKind`].
pub enum TypedefKindView {
    Use(Seq<Seq<char>>),
    Type(Seq<char>),
}

impl View for TypedefKind {
    type V = TypedefKindView;

    open spec fn view(&self) -> TypedefKindView {
        match self {
            TypedefKind::Use(p) => TypedefKindView::Use(strs_view(p@)),
            TypedefKind::Type(t) => TypedefKindView::Type(t@),
        }
    }
}

/// The view of an [`Api`].
pub enum ApiView {
    StringConstructor { name: ApiNameView },
    Subclass { name: ApiNameView, superclass: QualifiedNameView },
    RustFn { name: ApiNameView, deps: Seq<Seq<char>> },
    RustType { name: ApiNameView, path: Seq<Seq<char>> },
    ConcreteType { name: ApiNameView, cpp_definition: Seq<char> },
    Struct { name: ApiNameView, fields: Seq<Field>, has_rvalue_reference_fields: bool },
    Enum { name: ApiNameView, variants: Seq<Seq<char>> },
    ForwardDeclaration { name: ApiNameView, err: Option<ConvertErrorView> },
    Typedef { name: ApiNameView, kind: TypedefKindView, old_tyname: Option<QualifiedNameView> },
    Const { name: ApiNameView, value: Seq<char> },
    Function { name: ApiNameView, method_of: Option<Seq<char>> },
    ExternCppType { name: ApiNameView, details: Seq<char>, pod: bool },
}

impl ApiView {
    /// The entry's name.
    pub open spec fn api_name(self) -> ApiNameView {
        match self {
            ApiView::StringConstructor { name } => name,
            ApiView::Subclass { name, .. } => name,
            ApiView::RustFn { name, .. } => name,
            ApiView::RustType { name, .. } => name,
            ApiView::ConcreteType { name, .. } => name,
            ApiView::Struct { name, .. } => name,
            ApiView::Enum { name, .. } => name,
            ApiView::ForwardDeclaration { name, .. } => name,
            ApiView::Typedef { name, .. } => name,
            ApiView::Const { name, .. } => name,
            ApiView::Function { name, .. } => name,
            ApiView::ExternCppType { name, .. } => name,
        }
    }

    /// The entry's qualified name, its key in the model.
    pub open spec fn qname(self) -> QualifiedNameView {
        self.api_name().0
    }
}

/// One entry of the API model.
#[derive(Debug, PartialEq)]
pub enum Api {
    /// The utility function that makes a C++ string.
    StringConstructor { name: ApiName },
    /// A subclass declared in Rust, and its C++ superclass.
    Subclass { name: ApiName, superclass: QualifiedName },
    /// A function implemented in Rust, and the types its signature names.
    RustFn { name: ApiName, deps: Vec<String> },
    /// A type that lives in Rust, and its path.
    RustType { name: ApiName, path: Vec<String> },
    /// A template instantiation under a Rust name.
    ConcreteType { name: ApiName, cpp_definition: String },
    Struct { name: ApiName, fields: Vec<Field>, has_rvalue_reference_fields: bool },
    Enum { name: ApiName, variants: Vec<String> },
    /// A type whose layout is unknown, with the error to report for it later.
    ForwardDeclaration { name: ApiName, err: Option<ConvertError> },
    Typedef { name: ApiName, kind: TypedefKind, old_tyname: Option<QualifiedName> },
    Const { name: ApiName, value: String },
    /// A function or method to import; `method_of` names the type whose
    /// implementation block lists it.
    Function { name: ApiName, method_of: Option<String> },
    /// A C++ type declared by the user, and whether it is plain old data.
    ExternCppType { name: ApiName, details: String, pod: bool },
}

impl View for Api {
    type V = ApiView;

    open spec fn view(&self) -> ApiView {
        match self {
            Api::StringConstructor { name } => ApiView::StringConstructor { name: name@ },
            Api::Subclass { name, superclass } => ApiView::Subclass { name: name@, superclass: superclass@ },
            Api::RustFn { name, deps } => ApiView::RustFn { name: name@, deps: strs_view(deps@) },
            Api::RustType { name, path } => ApiView::RustType { name: name@, path: strs_view(path@) },
            Api::ConcreteType { name, cpp_definition } => ApiView::ConcreteType {
                name: name@,
                cpp_definition: cpp_definition@,
            },
            Api::Struct { name, fields, has_rvalue_reference_fields } => ApiView::Struct {
                name: name@,
                fields: fields@,
                has_rvalue_reference_fields: *has_rvalue_reference_fields,
            },
            Api::Enum { name, variants } => ApiView::Enum { name: name@, variants: strs_view(variants@) },
            Api::ForwardDeclaration { name, err } => ApiView::ForwardDeclaration {
                name: name@,
                err: opt_err_view(*err),
            },
            Api::Typedef { name, kind, old_tyname } => ApiView::Typedef {
                name: name@,
                kind: kind@,
                old_tyname: opt_qn_view(*old_tyname),
            },
            Api::Const { name, value } => ApiView::Const { name: name@, value: value@ },
            Api::Function { name, method_of } => ApiView::Function { name: name@, method_of: opt_view(*method_of) },
            Api::ExternCppType { name, details, pod } => ApiView::ExternCppType {
                name: name@,
                details: details@,
                pod: *pod,
            },
        }
    }
}

/// The views of a list of entries.
pub open spec fn apis_view(v: Seq<Api>) -> Seq<ApiView> {
    v.map_values(|a: Api| a@)
}

impl Api {
    /// The entry's qualified name.
    pub fn name(&self) -> (r: &QualifiedName)
        ensures
            r@ == self@.qname(),
    {
        match self {
            Api::StringConstructor { name } => &name.name,
            Api::Subclass { name, .. } => &name.name,
            Api::RustFn { name, .. } => &name.name,
            Api::RustType { name, .. } => &name.name,
            Api::ConcreteType { name, .. } => &name.name,
            Api::Struct { name, .. } => &name.name,
            Api::Enum { name, .. } => &name.name,
            Api::ForwardDeclaration { name, .. } => &name.name,
            Api::Typedef { name, .. } => &name.name,
            Api::Const { name, .. } => &name.name,
            Api::Function { name, .. } => &name.name,
            Api::ExternCppType { name, .. } => &name.name,
        }
    }
}

/// The first place in `v` of an entry named `q`, if any.
pub fn find_name(v: &Vec<Api>, q: &QualifiedName) -> (r: Option<usize>)
    ensures
        match r {
            Some(j) => index_of_name(apis_view(v@), q@) == j,
            None => index_of_name(apis_view(v@), q@) == -1,
        },
{
    let ghost s = apis_view(v@);
    let mut i: usize = 0;
    while i < v.len()
        invariant
            i <= v.len(),
            s == apis_view(v@),
            forall|t: int| 0 <= t < i ==> (#[trigger] s[t]).qname() != q@,
        decreases v.len() - i,
    {
        if v[i].name().same_as(q) {
            proof {
                lemma_index_of_name_first(s, q@, i as int);
            }
            return Some(i);
        }
        i = i + 1;
    }
    proof {
        lemma_index_of_name_none(s, q@);
    }
    None
}

/// Puts `a` into the model: in place of the entry that bears its name, or
/// last where none does.
pub fn insert_api(apis: &mut Vec<Api>, a: Api)
    ensures
        apis_view(final(apis)@) == upsert(apis_view(old(apis)@), a@),
{
    let ghost before = apis_view(apis@);
    proof {
        lemma_index_of_name(before, a@.qname());
    }
    match find_name(apis, a.name()) {
        Some(j) => {
            apis[j] = a;
            assert(apis_view(apis@) =~= before.update(j as int, a@));
        },
        None => {
            apis.push(a);
            assert(apis_view(apis@) =~= before.push(a@));
        },
    }
}

/// The view of a [`ReportedError`]: scope, declaration, error.
pub type ReportedErrorView = (Seq<Seq<char>>, Option<Seq<char>>, ConvertErrorView);

/// An error met on one declaration, with where it was met.
#[derive(Debug, PartialEq)]
pub struct ReportedError {
    pub ns: crate::types::Namespace,
    /// The declaration's name, where it has one.
    pub item: Option<String>,
    pub err: ConvertError,
}

impl View for ReportedError {
    type V = ReportedErrorView;

    open spec fn view(&self) -> ReportedErrorView {
        (self.ns@, opt_view(self.item), self.err@)
    }
}

/// The views of a list of reported errors.
pub open spec fn errors_view(v: Seq<ReportedError>) -> Seq<ReportedErrorView> {
    v.map_values(|e: ReportedError| e@)
}

} // verus!
