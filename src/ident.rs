//! Which identifiers the generated C++/Rust bridge can carry.

use vstd::prelude::*;
use crate::types::{has_double_underscore, has_prefix, starts_with};

verus! {

/// Whether `s` parses as a Rust identifier (keywords and malformed text do not).
pub uninterp spec fn rust_ident_ok(s: Seq<char>) -> bool;

/// Relies on `syn::parse_str::<syn::Ident>`: whether the text is a Rust
/// identifier, which depends on the text alone.
#[verifier::external_body]
fn parses_as_rust_ident(s: &str) -> (r: bool)
    ensures
        r == rust_ident_ok(s@),
{
    syn::parse_str::<syn::Ident>(s).is_ok()
}

/// Why an identifier cannot be used in the bridge.
#[derive(Debug, Clone, Copy, PartialEq, Eq, Structural)]
pub enum InvalidIdentError {
    /// Not a Rust identifier, for instance a keyword.
    ReservedName,
    /// Two underscores in a row, which the bridge reserves.
    TooManyUnderscores,
    /// A name that bindgen makes up for an anonymous type.
    BindgenTy,
}

/// The prefix of the names that bindgen makes up for anonymous types.
pub open spec fn bindgen_ty_prefix() -> Seq<char> {
    seq!['_', 'b', 'i', 'n', 'd', 'g', 'e', 'n', '_', 't', 'y', '_']
}

/// Why `s` cannot stand in the bridge, if it cannot.
pub open spec fn ident_problem(s: Seq<char>) -> Option<InvalidIdentError> {
    if !rust_ident_ok(s) {
        Some(InvalidIdentError::ReservedName)
    } else if exists|i: int| 0 <= i < s.len() - 1 && s[i] == '_' && #[trigger] s[i + 1] == '_' {
        Some(InvalidIdentError::TooManyUnderscores)
    } else if has_prefix(s, bindgen_ty_prefix()) {
        Some(InvalidIdentError::BindgenTy)
    } else {
        None
    }
}

/// Checks that `id` can be used as a name on both sides of the bridge.
pub fn validate_ident_ok_for_cxx(id: &str) -> (r: Result<(), InvalidIdentError>)
    ensures
        r is Ok <==> ident_problem(id@) is None,
        r is Err ==> ident_problem(id@) == Some(r->Err_0),
{
    if !parses_as_rust_ident(id) {
        return Err(InvalidIdentError::ReservedName);
    }
    if has_double_underscore(id) {
        return Err(InvalidIdentError::TooManyUnderscores);
    }
    proof {
        reveal_strlit("_bindgen_ty_");
    }
    if starts_with(id, "_bindgen_ty_") {
        assert("_bindgen_ty_"@ =~= bindgen_ty_prefix());
        return Err(InvalidIdentError::BindgenTy);
    }
    assert("_bindgen_ty_"@ =~= bindgen_ty_prefix());
    Ok(())
}

} // verus!
