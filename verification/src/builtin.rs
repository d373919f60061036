//! `#[builtin("name", min = .., max = .., opts = "..")]`: registers a zsh
//! builtin command.
//!
//! | Key    | Required | Default | Type                 | Meaning                                    |
//! |--------|----------|---------|----------------------|--------------------------------------------|
//! | *name* | yes      | —       | `"..."` / `c"..."`   | builtin name (first positional argument)   |
//! | `min`  | no       | `0`     | integer literal      | minimum positional args zsh will accept    |
//! | `max`  | no       | `-1`    | integer literal      | maximum positional args (`-1` = unlimited) |
//! | `opts` | no       | `c""`   | `"..."` / `c"..."`   | getopts-style option spec                  |

use vstd::prelude::*;
use crate::syntax::{AttrArgs, Error, ErrorKind, Expr, FnSig, Ident, KeyPath, Lit, MetaNameValue, Span};
use crate::utils::args::{
    lemma_cstring_has_no_nul, lemma_handle_pairs_append, parse_args, set_once, spec_as_i32, spec_as_lit, spec_extract_ctx_type, spec_handle_pairs, spec_set_once,
    spec_to_cstring, spec_try_take, str_is, extract_ctx_type, or_default, ArgHandler, CLiteral,
    MinMax,
};
use crate::utils::emit::{priv_mod, spec_priv_mod_name};
use crate::text::ascii_lowercase;

verus! {

/// The arguments of `#[builtin(..)]`, resolved.
#[derive(Clone, Debug, PartialEq, Eq)]
pub struct BuiltinArgs {
    pub name: CLiteral,
    pub min: i32,
    pub max: i32,
    pub opts: CLiteral,
}

/// [`BuiltinArgs`] by value.
pub struct BuiltinArgsView {
    pub name: (Seq<u8>, Span),
    pub min: i32,
    pub max: i32,
    pub opts: (Seq<u8>, Span),
}

impl View for BuiltinArgs {
    type V = BuiltinArgsView;

    open spec fn view(&self) -> BuiltinArgsView {
        BuiltinArgsView { name: self.name@, min: self.min, max: self.max, opts: self.opts@ }
    }
}

/// The keys of `#[builtin(..)]` gathered so far.
pub struct BuiltinArgsBuilder {
    pub min_max: MinMax,
    pub opts: Option<CLiteral>,
}

/// [`BuiltinArgsBuilder`] by value.
pub struct BuiltinArgsState {
    pub min_max: MinMax,
    pub opts: Option<(Seq<u8>, Span)>,
}

pub open spec fn opt_view(o: Option<CLiteral>) -> Option<(Seq<u8>, Span)> {
    match o {
        Some(c) => Some(c@),
        None => None,
    }
}

impl View for BuiltinArgsBuilder {
    type V = BuiltinArgsState;

    open spec fn view(&self) -> BuiltinArgsState {
        BuiltinArgsState { min_max: self.min_max, opts: opt_view(self.opts) }
    }
}

/// Nothing gathered yet.
pub open spec fn initial_state() -> BuiltinArgsState {
    BuiltinArgsState { min_max: MinMax { min: None, max: None }, opts: None }
}

impl BuiltinArgsBuilder {
    pub fn new() -> (r: BuiltinArgsBuilder)
        ensures
            r@ == initial_state(),
    {
        BuiltinArgsBuilder { min_max: MinMax::default(), opts: None }
    }
}

impl ArgHandler for BuiltinArgsBuilder {
    /// `min` and `max` go to the [`MinMax`]; `opts` takes a string or
    /// C-string literal, converted to a C string before the duplicate check;
    /// any other key is not one of ours.
    open spec fn spec_handle(state: BuiltinArgsState, key: Ident, val: Expr) -> (BuiltinArgsState, Result<bool, Error>) {
        let (mm, r) = spec_try_take(state.min_max, key, val);
        let kept = BuiltinArgsState { min_max: mm, opts: state.opts };
        match r {
            Err(e) => (kept, Err(e)),
            Ok(true) => (kept, Ok(true)),
            Ok(false) => if key.name@ == "opts"@ {
                match spec_as_lit(val) {
                    Err(e) => (kept, Err(e)),
                    Ok(l) => match spec_to_cstring(l) {
                        Err(e) => (kept, Err(e)),
                        Ok(c) => {
                            let (slot, r2) = spec_set_once(state.opts, key, c);
                            (BuiltinArgsState { min_max: mm, opts: slot }, match r2 {
                                Ok(_) => Ok(true),
                                Err(e) => Err(e),
                            })
                        },
                    },
                }
            } else {
                (kept, Ok(false))
            },
        }
    }

    fn handle(&mut self, key: &Ident, val: &Expr) -> (r: Result<bool, Error>) {
        if self.min_max.try_take(key, val)? {
            return Ok(true);
        }
        if str_is(&key.name, "opts") {
            let s = val.as_lit()?.to_cstring_lit()?;
            set_once(&mut self.opts, key, s)?;
            return Ok(true);
        }
        Ok(false)
    }
}

/// What `#[builtin(..)]` makes of its arguments: every pair handled in
/// order, then the name literal converted, then the defaults `min = 0`,
/// `max = -1`, `opts = c""` (spanned at the macro call) filled in.
pub open spec fn spec_parse_builtin_args(input: AttrArgs) -> Result<BuiltinArgsView, Error> {
    let (st, res) = spec_handle_pairs::<BuiltinArgsBuilder>(initial_state(), input.pairs@);
    match res {
        Err(e) => Err(e),
        Ok(_) => match spec_to_cstring(input.name) {
            Err(e) => Err(e),
            Ok(name) => Ok(BuiltinArgsView {
                name,
                min: or_default(st.min_max.min, 0i32),
                max: or_default(st.min_max.max, -1i32),
                opts: or_default(st.opts, (Seq::<u8>::empty(), Span::CallSite)),
            }),
        },
    }
}

impl BuiltinArgs {
    /// Reads the arguments of `#[builtin(..)]`.
    pub fn parse(input: AttrArgs) -> (r: Result<BuiltinArgs, Error>)
        requires
            input.wf(),
        ensures
            match r {
                Ok(a) => spec_parse_builtin_args(input) == Ok::<BuiltinArgsView, Error>(a@),
                Err(e) => spec_parse_builtin_args(input) == Err::<BuiltinArgsView, Error>(e),
            },
    {
        let mut builder = BuiltinArgsBuilder::new();
        let name = parse_args(input, &mut builder)?;
        let name_lit = name.to_cstring_lit()?;
        let (min, max) = builder.min_max.resolve(0, -1);
        let opts_lit = match builder.opts {
            Some(o) => o,
            None => CLiteral { bytes: Vec::new(), span: Span::CallSite },
        };
        Ok(BuiltinArgs { name: name_lit, min, max, opts: opts_lit })
    }
}

/// Which `Features` method the generated wrapper dispatches to: `builtin`
/// for a `&Ctx` state argument, `builtin_mut` for `&mut Ctx`.
#[derive(Clone, Copy, Debug, PartialEq, Eq)]
pub enum Dispatch {
    Shared,
    Mut,
}

/// What `#[builtin(..)]` emits besides the function itself: a companion
/// module, named after the function, holding a C-ABI wrapper that reaches
/// the state of type `ctx_type` and dispatches to the function, and the
/// registration entry `(name, wrapper, min, max, 0, opts)`.
#[derive(Clone, Debug, PartialEq, Eq)]
pub struct BuiltinPlan {
    pub fn_name: Ident,
    pub ctx_type: Ident,
    pub dispatch: Dispatch,
    pub priv_mod: Ident,
    pub name: CLiteral,
    pub min: i32,
    pub max: i32,
    pub opts: CLiteral,
}

/// Plans the expansion of `#[builtin(..)]` on a function with signature
/// `input`.  It fails, with the diagnostic of [`extract_ctx_type`], exactly
/// when the function does not take its state first.
pub fn builtin_impl(args: BuiltinArgs, input: &FnSig) -> (r: Result<BuiltinPlan, Error>)
    ensures
        match spec_extract_ctx_type(*input) {
            Err(e) => r == Err::<BuiltinPlan, Error>(e),
            Ok(ctx) => r matches Ok(p) && {
                &&& p.fn_name == input.ident
                &&& p.ctx_type == ctx.ident
                &&& p.dispatch == (if ctx.is_mut { Dispatch::Mut } else { Dispatch::Shared })
                &&& p.priv_mod.name@ == spec_priv_mod_name(input.ident.name@)
                &&& vstd::utf8::is_ascii_chars(input.ident.name@) ==> p.priv_mod.name@ == "__zmod_"@ + ascii_lowercase(input.ident.name@)
                &&& p.priv_mod.span == Span::CallSite
                &&& p.name == args.name
                &&& p.min == args.min
                &&& p.max == args.max
                &&& p.opts == args.opts
            },
        },
{
    let fn_name = input.ident.cloned();
    let ctx = match extract_ctx_type(input) {
        Ok(c) => c,
        Err(e) => return Err(e),
    };
    let dispatch = if ctx.is_mut {
        Dispatch::Mut
    } else {
        Dispatch::Shared
    };
    let BuiltinArgs { name, min, max, opts } = args;
    let priv_mod = priv_mod(&fn_name);
    Ok(BuiltinPlan { fn_name, ctx_type: ctx.ident, dispatch, priv_mod, name, min, max, opts })
}

// ---------------------------------------------------------------------------
// What the arguments of `#[builtin(..)]` mean

/// The key of a pair, when its path is a single identifier.
pub open spec fn key_name(p: MetaNameValue) -> Option<Seq<char>> {
    match p.path {
        KeyPath::Ident(k) => Some(k.name@),
        KeyPath::Other { .. } => None,
    }
}

/// The value of the first pair keyed `key`.
pub open spec fn value_for(pairs: Seq<MetaNameValue>, key: Seq<char>) -> Option<Expr>
    decreases pairs.len(),
{
    if pairs.len() == 0 {
        None
    } else if key_name(pairs[0]) == Some(key) {
        Some(pairs[0].value)
    } else {
        value_for(pairs.drop_first(), key)
    }
}

/// A pair `#[builtin(..)]` takes on its own: `min` or `max` with an integer
/// literal that fits in an `i32`, or `opts` with a string or C-string literal
/// that converts to a C string.
pub open spec fn accepted_pair(p: MetaNameValue) -> bool {
    match p.path {
        KeyPath::Ident(k) => if k.name@ == "min"@ || k.name@ == "max"@ {
            spec_as_i32(p.value) is Ok
        } else if k.name@ == "opts"@ {
            match spec_as_lit(p.value) {
                Ok(l) => spec_to_cstring(l) is Ok,
                Err(_) => false,
            }
        } else {
            false
        },
        KeyPath::Other { .. } => false,
    }
}

/// Every pair is one `#[builtin(..)]` takes.
pub open spec fn all_accepted(pairs: Seq<MetaNameValue>) -> bool {
    forall|i: int| 0 <= i < pairs.len() ==> accepted_pair(#[trigger] pairs[i])
}

/// No key is given twice.
pub open spec fn keys_distinct(pairs: Seq<MetaNameValue>) -> bool {
    forall|i: int, j: int| 0 <= i < j < pairs.len() ==> key_name(#[trigger] pairs[i]) != key_name(#[trigger] pairs[j])
}

/// The value of an evaluation that succeeded, or a fallback.
pub open spec fn ok_or<T>(r: Result<T, Error>, fallback: T) -> T {
    match r {
        Ok(v) => v,
        Err(_) => fallback,
    }
}

/// The C string an `opts` value converts to.
pub open spec fn opts_value(e: Expr) -> (Seq<u8>, Span) {
    match spec_as_lit(e) {
        Ok(l) => ok_or(spec_to_cstring(l), (Seq::<u8>::empty(), Span::CallSite)),
        Err(_) => (Seq::<u8>::empty(), Span::CallSite),
    }
}

/// The integer given for `key`, if any, else `fallback`.
pub open spec fn int_for(pairs: Seq<MetaNameValue>, key: Seq<char>, fallback: Option<i32>) -> Option<i32> {
    match value_for(pairs, key) {
        Some(e) => Some(ok_or(spec_as_i32(e), 0i32)),
        None => fallback,
    }
}

/// The option spec given, if any, else `fallback`.
pub open spec fn opts_for(pairs: Seq<MetaNameValue>, fallback: Option<(Seq<u8>, Span)>) -> Option<(Seq<u8>, Span)> {
    match value_for(pairs, "opts"@) {
        Some(e) => Some(opts_value(e)),
        None => fallback,
    }
}

/// None of the keys already gathered in `st` comes again in `pairs`.
pub open spec fn fresh_for(st: BuiltinArgsState, pairs: Seq<MetaNameValue>) -> bool {
    &&& st.min_max.min is Some ==> value_for(pairs, "min"@) is None
    &&& st.min_max.max is Some ==> value_for(pairs, "max"@) is None
    &&& st.opts is Some ==> value_for(pairs, "opts"@) is None
}

proof fn lemma_value_for(pairs: Seq<MetaNameValue>, key: Seq<char>)
    ensures
        value_for(pairs, key) is None <==> forall|i: int| 0 <= i < pairs.len() ==> key_name(#[trigger] pairs[i]) != Some(key),
        value_for(pairs, key) matches Some(e) ==> exists|i: int| 0 <= i < pairs.len() && key_name(#[trigger] pairs[i]) == Some(key) && pairs[i].value == e,
    decreases pairs.len(),
{
    if pairs.len() > 0 {
        let rest = pairs.drop_first();
        lemma_value_for(rest, key);
        assert forall|i: int| 0 < i < pairs.len() implies pairs[i] == #[trigger] rest[i - 1] by {}
        if value_for(pairs, key) is None {
            assert forall|i: int| 0 <= i < pairs.len() implies key_name(#[trigger] pairs[i]) != Some(key) by {
                if i > 0 {
                    assert(key_name(rest[i - 1]) != Some(key));
                }
            }
        }
        if forall|i: int| 0 <= i < pairs.len() ==> key_name(#[trigger] pairs[i]) != Some(key) {
            assert(key_name(pairs[0]) != Some(key));
            assert forall|j: int| 0 <= j < rest.len() implies key_name(#[trigger] rest[j]) != Some(key) by {
                assert(key_name(pairs[j + 1]) != Some(key));
            }
        }
        if value_for(rest, key) is Some && key_name(pairs[0]) != Some(key) {
            let j = choose|j: int| 0 <= j < rest.len() && key_name(#[trigger] rest[j]) == Some(key) && rest[j].value == value_for(rest, key)->0;
            assert(pairs[j + 1] == rest[j]);
        }
    }
}

proof fn lemma_split_first(pairs: Seq<MetaNameValue>)
    requires
        pairs.len() > 0,
    ensures
        all_accepted(pairs) <==> accepted_pair(pairs[0]) && all_accepted(pairs.drop_first()),
        all_accepted(pairs) ==> (keys_distinct(pairs) <==> (value_for(pairs.drop_first(), key_name(pairs[0])->0) is None
            && keys_distinct(pairs.drop_first()))),
{
    let rest = pairs.drop_first();
    assert forall|i: int| 0 < i < pairs.len() implies pairs[i] == #[trigger] rest[i - 1] by {}
    if accepted_pair(pairs[0]) && all_accepted(rest) {
        assert forall|i: int| 0 <= i < pairs.len() implies accepted_pair(#[trigger] pairs[i]) by {
            if i > 0 {
                assert(accepted_pair(rest[i - 1]));
            }
        }
    }
    if all_accepted(pairs) {
        assert(accepted_pair(pairs[0]));
        assert forall|i: int| 0 <= i < rest.len() implies accepted_pair(#[trigger] rest[i]) by {
            assert(accepted_pair(pairs[i + 1]));
        }
        let k = key_name(pairs[0])->0;
        assert(key_name(pairs[0]) is Some);
        lemma_value_for(rest, k);
        if keys_distinct(pairs) {
            assert forall|i: int| 0 <= i < rest.len() implies key_name(#[trigger] rest[i]) != Some(k) by {
                assert(key_name(pairs[0]) != key_name(pairs[i + 1]));
            }
            assert forall|i: int, j: int| 0 <= i < j < rest.len() implies key_name(#[trigger] rest[i]) != key_name(#[trigger] rest[j]) by {
                assert(key_name(pairs[i + 1]) != key_name(pairs[j + 1]));
            }
        }
        if value_for(rest, k) is None && keys_distinct(rest) {
            assert forall|i: int, j: int| 0 <= i < j < pairs.len() implies key_name(#[trigger] pairs[i]) != key_name(#[trigger] pairs[j]) by {
                if i == 0 {
                    assert(key_name(rest[j - 1]) != Some(k));
                } else {
                    assert(key_name(rest[i - 1]) != key_name(rest[j - 1]));
                }
            }
        }
    }
}

proof fn lemma_key_names_differ()
    ensures
        "min"@ != "max"@,
        "min"@ != "opts"@,
        "max"@ != "opts"@,
{
    reveal_strlit("min");
    reveal_strlit("max");
    reveal_strlit("opts");
    assert("min"@[1] != "max"@[1]);
    assert("min"@.len() != "opts"@.len());
    assert("max"@.len() != "opts"@.len());
}

/// How the pairs of `#[builtin(..)]` are gathered, from any state: it succeeds
/// exactly when every pair is accepted, no key comes twice, and no key comes
/// that the state already holds; then each key's slot holds what its pair
/// gave, or what it held before.
proof fn lemma_gather(st: BuiltinArgsState, pairs: Seq<MetaNameValue>)
    ensures
        ({
            let (end, res) = spec_handle_pairs::<BuiltinArgsBuilder>(st, pairs);
            &&& (res is Ok <==> (all_accepted(pairs) && keys_distinct(pairs) && fresh_for(st, pairs)))
            &&& res is Ok ==> end.min_max.min == int_for(pairs, "min"@, st.min_max.min)
            &&& res is Ok ==> end.min_max.max == int_for(pairs, "max"@, st.min_max.max)
            &&& res is Ok ==> end.opts == opts_for(pairs, st.opts)
        }),
    decreases pairs.len(),
{
    lemma_key_names_differ();
    if pairs.len() > 0 {
        lemma_split_first(pairs);
        let p = pairs[0];
        match p.path {
            KeyPath::Other { .. } => {},
            KeyPath::Ident(key) => {
                let next = BuiltinArgsBuilder::spec_handle(st, key, p.value).0;
                lemma_gather(next, pairs.drop_first());
            },
        }
    }
}

/// The arguments `#[builtin(..)]` accepts: every pair is `min` or `max` with
/// an integer literal that fits, or `opts` with a literal that converts to a
/// C string; no key comes twice; and the name literal converts to a C string.
/// Then `min`, `max` and `opts` are what their pairs give, or `0`, `-1` and
/// the empty C string when absent, and the name is the converted name.
pub proof fn lemma_builtin_args_accepted(input: AttrArgs)
    ensures
        spec_parse_builtin_args(input) is Ok <==> (all_accepted(input.pairs@) && keys_distinct(input.pairs@)
            && spec_to_cstring(input.name) is Ok),
        spec_parse_builtin_args(input) matches Ok(v) ==> {
            &&& v.name == ok_or(spec_to_cstring(input.name), (Seq::<u8>::empty(), Span::CallSite))
            &&& v.min == (match value_for(input.pairs@, "min"@) {
                Some(e) => ok_or(spec_as_i32(e), 0i32),
                None => 0i32,
            })
            &&& v.max == (match value_for(input.pairs@, "max"@) {
                Some(e) => ok_or(spec_as_i32(e), 0i32),
                None => -1i32,
            })
            &&& v.opts == (match value_for(input.pairs@, "opts"@) {
                Some(e) => opts_value(e),
                None => (Seq::<u8>::empty(), Span::CallSite),
            })
        },
{
    lemma_gather(initial_state(), input.pairs@);
}

/// The state gathered from a run of pairs that `#[builtin(..)]` accepts.
proof fn lemma_prefix_state(pairs: Seq<MetaNameValue>, i: int)
    requires
        0 <= i < pairs.len(),
        all_accepted(pairs.take(i)),
        keys_distinct(pairs.take(i)),
    ensures
        ({
            let (st, res) = spec_handle_pairs::<BuiltinArgsBuilder>(initial_state(), pairs.take(i));
            &&& res is Ok
            &&& (st.min_max.min is Some <==> value_for(pairs.take(i), "min"@) is Some)
            &&& (st.min_max.max is Some <==> value_for(pairs.take(i), "max"@) is Some)
            &&& (st.opts is Some <==> value_for(pairs.take(i), "opts"@) is Some)
            &&& spec_handle_pairs::<BuiltinArgsBuilder>(initial_state(), pairs)
                == spec_handle_pairs::<BuiltinArgsBuilder>(st, pairs.skip(i))
            &&& pairs.skip(i)[0] == pairs[i]
        }),
{
    lemma_gather(initial_state(), pairs.take(i));
    lemma_handle_pairs_append::<BuiltinArgsBuilder>(initial_state(), pairs.take(i), pairs.skip(i));
    assert(pairs.take(i) + pairs.skip(i) =~= pairs);
}

/// A key `#[builtin(..)]` does not know is refused at the key, when the
/// pairs before it are accepted: whatever follows it, and whatever the name.
pub proof fn lemma_builtin_unknown_key(input: AttrArgs, i: int, key: Ident)
    requires
        0 <= i < input.pairs@.len(),
        all_accepted(input.pairs@.take(i)),
        keys_distinct(input.pairs@.take(i)),
        input.pairs@[i].path == KeyPath::Ident(key),
        key.name@ != "min"@,
        key.name@ != "max"@,
        key.name@ != "opts"@,
    ensures
        spec_parse_builtin_args(input) == Err::<BuiltinArgsView, Error>(
            Error { kind: ErrorKind::UnknownKey { key: key.name }, span: key.span },
        ),
{
    lemma_prefix_state(input.pairs@, i);
}

/// A key given a second time is refused at its second occurrence, when the
/// pairs before that one are accepted and its value is a valid one: whatever
/// follows it, and whatever the name.
pub proof fn lemma_builtin_duplicate_key(input: AttrArgs, j: int, i: int, key: Ident)
    requires
        0 <= j < i < input.pairs@.len(),
        all_accepted(input.pairs@.take(i)),
        keys_distinct(input.pairs@.take(i)),
        accepted_pair(input.pairs@[i]),
        input.pairs@[i].path == KeyPath::Ident(key),
        key_name(input.pairs@[j]) == Some(key.name@),
    ensures
        spec_parse_builtin_args(input) == Err::<BuiltinArgsView, Error>(
            Error { kind: ErrorKind::Duplicate { key: key.name }, span: key.span },
        ),
{
    let pairs = input.pairs@;
    lemma_key_names_differ();
    lemma_prefix_state(pairs, i);
    lemma_value_for(pairs.take(i), key.name@);
    assert(pairs.take(i)[j] == pairs[j]);
}

/// A key that is not a single identifier is refused at the path, when the
/// pairs before it are accepted: whatever follows it, and whatever the name.
pub proof fn lemma_builtin_path_key(input: AttrArgs, i: int, span: Span)
    requires
        0 <= i < input.pairs@.len(),
        all_accepted(input.pairs@.take(i)),
        keys_distinct(input.pairs@.take(i)),
        input.pairs@[i].path == (KeyPath::Other { span }),
    ensures
        spec_parse_builtin_args(input) == Err::<BuiltinArgsView, Error>(
            Error { kind: ErrorKind::ExpectedIdentKey, span },
        ),
{
    lemma_prefix_state(input.pairs@, i);
}

/// The name and the option spec that `#[builtin(..)]` registers are C
/// strings: no nul byte among their bytes.
pub proof fn lemma_builtin_args_c_strings(input: AttrArgs)
    requires
        input.wf(),
    ensures
        spec_parse_builtin_args(input) matches Ok(v) ==> !v.name.0.contains(0u8) && !v.opts.0.contains(0u8),
{
    lemma_builtin_args_accepted(input);
    lemma_cstring_has_no_nul(input.name);
    if let Ok(v) = spec_parse_builtin_args(input) {
        if let Some(e) = value_for(input.pairs@, "opts"@) {
            lemma_value_for(input.pairs@, "opts"@);
            let i = choose|i: int| 0 <= i < input.pairs@.len() && key_name(#[trigger] input.pairs@[i]) == Some("opts"@) && input.pairs@[i].value == e;
            assert(accepted_pair(input.pairs@[i]));
            assert(input.pairs@[i].value.wf());
            if let Ok(l) = spec_as_lit(e) {
                lemma_cstring_has_no_nul(l);
            }
        }
    }
}

// ---------------------------------------------------------------------------
// Order of the pairs

/// `perm` reorders `n` items: position `i` takes item `perm[i]`, and no two
/// positions take the same item.
pub open spec fn is_reordering(perm: Seq<int>, n: int) -> bool {
    &&& perm.len() == n
    &&& forall|i: int| 0 <= i < n ==> 0 <= #[trigger] perm[i] < n
    &&& forall|i: int, j: int| 0 <= i < n && 0 <= j < n && i != j ==> #[trigger] perm[i] != #[trigger] perm[j]
}

/// Some position takes item `j`.
pub open spec fn is_taken(perm: Seq<int>, n: int, j: int) -> bool {
    exists|i: int| 0 <= i < n && #[trigger] perm[i] == j
}

/// A reordering takes every item somewhere.
proof fn lemma_reordering_onto(perm: Seq<int>, n: int)
    requires
        n >= 0,
        is_reordering(perm, n),
    ensures
        forall|j: int| 0 <= j < n ==> #[trigger] is_taken(perm, n, j),
{
    let dom = vstd::set_lib::set_int_range(0, n);
    vstd::set_lib::lemma_int_range(0, n);
    let f = |i: int| perm[i];
    let img = dom.map(f);
    assert(vstd::relations::injective_on(f, dom));
    vstd::set_lib::lemma_map_size(dom, img, f);
    assert forall|x: int| img.contains(x) implies dom.contains(x) by {
        let i = choose|i: int| dom.contains(i) && f(i) == x;
    }
    vstd::set_lib::lemma_subset_equality(img, dom);
    assert forall|j: int| 0 <= j < n implies #[trigger] is_taken(perm, n, j) by {
        assert(dom.contains(j));
        assert(img.contains(j));
        let i = choose|i: int| dom.contains(i) && f(i) == j;
        assert(perm[i] == j);
    }
}

/// With distinct keys, reordering the pairs keeps the value given for each
/// key.
proof fn lemma_value_for_reordered(a: Seq<MetaNameValue>, b: Seq<MetaNameValue>, perm: Seq<int>, key: Seq<char>)
    requires
        is_reordering(perm, a.len() as int),
        b.len() == a.len(),
        forall|i: int| 0 <= i < b.len() ==> #[trigger] b[i] == a[perm[i]],
        keys_distinct(a),
    ensures
        value_for(a, key) == value_for(b, key),
{
    lemma_reordering_onto(perm, a.len() as int);
    lemma_value_for(a, key);
    lemma_value_for(b, key);
    if value_for(a, key) is None {
        assert forall|i: int| 0 <= i < b.len() implies key_name(#[trigger] b[i]) != Some(key) by {
            assert(key_name(a[perm[i]]) != Some(key));
        }
    } else {
        let e = value_for(a, key)->0;
        let j = choose|j: int| 0 <= j < a.len() && key_name(#[trigger] a[j]) == Some(key) && a[j].value == e;
        assert(is_taken(perm, a.len() as int, j));
        let i0 = choose|i: int| 0 <= i < a.len() && #[trigger] perm[i] == j;
        assert(key_name(b[i0]) == Some(key));
        let f = value_for(b, key)->0;
        let i = choose|i: int| 0 <= i < b.len() && key_name(#[trigger] b[i]) == Some(key) && b[i].value == f;
        let j2 = perm[i];
        assert(key_name(a[j2]) == Some(key));
        if j2 < j {
            assert(key_name(a[j2]) != key_name(a[j]));
        } else if j < j2 {
            assert(key_name(a[j]) != key_name(a[j2]));
        }
    }
}

/// The pairs of `#[builtin(..)]` may come in any order: reordering them
/// changes neither whether the arguments are accepted nor what they resolve
/// to.
pub proof fn lemma_builtin_args_any_order(a: AttrArgs, b: AttrArgs, perm: Seq<int>)
    requires
        a.name == b.name,
        is_reordering(perm, a.pairs@.len() as int),
        b.pairs@.len() == a.pairs@.len(),
        forall|i: int| 0 <= i < b.pairs@.len() ==> #[trigger] b.pairs@[i] == a.pairs@[perm[i]],
    ensures
        spec_parse_builtin_args(a) is Ok <==> spec_parse_builtin_args(b) is Ok,
        spec_parse_builtin_args(a) is Ok ==> spec_parse_builtin_args(a) == spec_parse_builtin_args(b),
{
    let pa = a.pairs@;
    let pb = b.pairs@;
    let n = pa.len() as int;
    lemma_reordering_onto(perm, n);
    lemma_builtin_args_accepted(a);
    lemma_builtin_args_accepted(b);
    // Acceptance of every pair.
    if all_accepted(pa) {
        assert forall|i: int| 0 <= i < pb.len() implies accepted_pair(#[trigger] pb[i]) by {
            assert(accepted_pair(pa[perm[i]]));
        }
    }
    if all_accepted(pb) {
        assert forall|j: int| 0 <= j < pa.len() implies accepted_pair(#[trigger] pa[j]) by {
            assert(is_taken(perm, n, j));
            let i = choose|i: int| 0 <= i < n && #[trigger] perm[i] == j;
            assert(accepted_pair(pb[i]));
        }
    }
    // Distinct keys.
    if keys_distinct(pa) {
        assert forall|i: int, j: int| 0 <= i < j < pb.len() implies key_name(#[trigger] pb[i]) != key_name(#[trigger] pb[j]) by {
            if perm[i] < perm[j] {
                assert(key_name(pa[perm[i]]) != key_name(pa[perm[j]]));
            } else {
                assert(key_name(pa[perm[j]]) != key_name(pa[perm[i]]));
            }
        }
    }
    if keys_distinct(pb) {
        assert forall|j1: int, j2: int| 0 <= j1 < j2 < pa.len() implies key_name(#[trigger] pa[j1]) != key_name(#[trigger] pa[j2]) by {
            assert(is_taken(perm, n, j1));
            assert(is_taken(perm, n, j2));
            let i1 = choose|i: int| 0 <= i < n && #[trigger] perm[i] == j1;
            let i2 = choose|i: int| 0 <= i < n && #[trigger] perm[i] == j2;
            if i1 < i2 {
                assert(key_name(pb[i1]) != key_name(pb[i2]));
            } else {
                assert(key_name(pb[i2]) != key_name(pb[i1]));
            }
        }
    }
    if spec_parse_builtin_args(a) is Ok {
        lemma_value_for_reordered(pa, pb, perm, "min"@);
        lemma_value_for_reordered(pa, pb, perm, "max"@);
        lemma_value_for_reordered(pa, pb, perm, "opts"@);
    }
}

} // verus!
