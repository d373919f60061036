//! `#[state]`: declares the per-module state struct that builtins receive a
//! reference to.

use vstd::prelude::*;
use crate::syntax::{Ident, Span};
use crate::utils::emit::{priv_mod, spec_priv_mod_name};
use crate::text::ascii_lowercase;

verus! {

/// What `#[state]` emits besides the struct itself: the companion module,
/// named after the struct, that registers the state container and the
/// trampoline builtins call into.
#[derive(Clone, Debug, PartialEq, Eq)]
pub struct StatePlan {
    /// The state struct, re-emitted unchanged.
    pub struct_name: Ident,
    /// The private companion module.
    pub priv_mod: Ident,
}

/// Plans the expansion of `#[state]` on a struct named `struct_name`.
pub fn state_impl(struct_name: &Ident) -> (r: StatePlan)
    ensures
        r.struct_name == *struct_name,
        r.priv_mod.name@ == spec_priv_mod_name(struct_name.name@),
        vstd::utf8::is_ascii_chars(struct_name.name@) ==> r.priv_mod.name@ == "__zmod_"@ + ascii_lowercase(struct_name.name@),
        r.priv_mod.span == Span::CallSite,
{
    let priv_mod = priv_mod(struct_name);
    StatePlan { struct_name: struct_name.cloned(), priv_mod }
}

} // verus!
