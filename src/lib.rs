//! The classification pass of a C++/Rust interop generator: it walks a
//! declaration tree, applies the user's policy and builds the API model.
//! Beside it stand the reference types through which generated bindings hand
//! out C++-style references.

pub mod reference_wrapper;
pub mod types;
pub mod ident;
pub mod config;
pub mod decl;
pub mod api;
pub mod name_set;
pub mod model;
pub mod foreign_mod;
pub mod parse_bindgen;
pub mod laws;
