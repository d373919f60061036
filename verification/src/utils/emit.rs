//! Naming shared by every macro.

use vstd::prelude::*;
use crate::syntax::{Ident, Span};
use crate::text::{ascii_lowercase, spec_to_lowercase, to_lowercase};

verus! {

/// The name of the private companion module for an item named `name`:
/// `__zmod_` followed by the name in lowercase.
pub open spec fn spec_priv_mod_name(name: Seq<char>) -> Seq<char> {
    "__zmod_"@ + spec_to_lowercase(name)
}

/// Builds the name of the private companion module emitted by each macro:
/// `Greeter` becomes `__zmod_greeter`, `greet` becomes `__zmod_greet`.
///
/// Every macro wraps its generated items in such a module, so that the
/// registration and trampoline glue stays out of the user's namespace.  The
/// new identifier is spanned at the macro call.
pub fn priv_mod(ident: &Ident) -> (r: Ident)
    ensures
        r.name@ == spec_priv_mod_name(ident.name@),
        vstd::utf8::is_ascii_chars(ident.name@) ==> r.name@ == "__zmod_"@ + ascii_lowercase(ident.name@),
        r.span == Span::CallSite,
{
    let lower = to_lowercase(ident.name.as_str());
    let mut name = String::from_str("__zmod_");
    name.append(lower.as_str());
    Ident { name, span: Span::CallSite }
}

} // verus!
