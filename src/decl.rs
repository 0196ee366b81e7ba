//! The declaration tree that the upstream header parser hands over.

use vstd::prelude::*;

verus! {

/// A field of a struct declaration.
#[derive(Debug, PartialEq)]
pub struct Field {
    /// Its name; `None` for a tuple field.
    pub ident: Option<String>,
    /// Its type, as spelled in the declaration.
    pub ty: String,
    /// The segments of its type's path, where its type is a path.
    pub ty_path: Vec<String>,
}

/// What an import declaration ends in, after its path.
#[derive(Debug, PartialEq)]
pub enum UseLeaf {
    /// `path::name`
    Name(String),
    /// `path::ident as rename`
    Rename { ident: String, rename: String },
    /// A glob or a group.
    Other,
}

/// One declaration of a scope.
#[derive(Debug, PartialEq)]
pub enum Decl {
    /// Functions and methods to import, by name.
    ForeignMod { fns: Vec<String> },
    Struct { ident: String, fields: Vec<Field> },
    Enum { ident: String, variants: Vec<String> },
    /// An implementation block of `self_ty` that lists these methods.
    Impl { self_ty: String, methods: Vec<String> },
    /// A nested scope; `content` is `None` where its body lies elsewhere.
    Mod { ident: String, content: Option<Vec<Decl>> },
    /// An import: the segments of its path before the leaf.
    Use { path: Vec<String>, leaf: UseLeaf },
    /// A constant; `ty_last` is the last segment of its type's path, where
    /// its type is a path.
    Const { ident: String, ty_last: Option<String>, value: String },
    /// A type alias.
    Type { ident: String, target: String },
    /// Any other kind of declaration.
    Other,
}

} // verus!
