//! Attribute arguments of the form
//!
//! ```text
//! #[macro_name("name-literal", key = value, key = value, ...)]
//! ```
//!
//! - The first positional argument is a name literal: a string literal
//!   (`"foo"`) or a C-string literal (`c"foo"`).  Both normalise into the bytes
//!   of a C string; interior nul bytes are rejected.
//! - Then come `key = value` pairs in any order.
//! - Each macro picks which keys it accepts through an [`ArgHandler`]; unknown
//!   keys are reported at the offending identifier, duplicate keys likewise.
//!
//! [`MinMax`] gathers the `min` / `max` integer keys shared by most macros.
//! [`extract_ctx_type`] reads the `&Ctx` / `&mut Ctx` off a function.

use vstd::prelude::*;
use crate::syntax::{AttrArgs, Error, ErrorKind, Expr, FnArg, FnSig, Ident, KeyPath, Lit, MetaNameValue, Span, Type};
use crate::text::{decimal_digits, fits_i32, is_decimal_digits, is_int_text, lemma_decimal_digits, parse_i32, signed_value};

verus! {

// ---------------------------------------------------------------------------
// Single slots

/// What [`set_once`] does: fill an empty slot, or report the key as a
/// duplicate and leave the slot as it was.
pub open spec fn spec_set_once<T>(slot: Option<T>, key: Ident, value: T) -> (Option<T>, Result<(), Error>) {
    if slot is Some {
        (slot, Err(Error { kind: ErrorKind::Duplicate { key: key.name }, span: key.span }))
    } else {
        (Some(value), Ok(()))
    }
}

/// Stores `value` in an empty `slot`; a slot that is already filled means the
/// key was given twice, which is reported at the key.
pub fn set_once<T>(slot: &mut Option<T>, key: &Ident, value: T) -> (r: Result<(), Error>)
    ensures
        (*final(slot), r) == spec_set_once(*old(slot), *key, value),
{
    if slot.is_some() {
        return Err(Error { kind: ErrorKind::Duplicate { key: key.name.clone() }, span: key.span });
    }
    *slot = Some(value);
    Ok(())
}

// ---------------------------------------------------------------------------
// Literals

/// A C-string literal to emit: the bytes of its value (no nul among them)
/// and the span it carries.
#[derive(Clone, Debug, PartialEq, Eq)]
pub struct CLiteral {
    pub bytes: Vec<u8>,
    pub span: Span,
}

impl View for CLiteral {
    type V = (Seq<u8>, Span);

    open spec fn view(&self) -> (Seq<u8>, Span) {
        (self.bytes@, self.span)
    }
}

/// The UTF-8 bytes of a string.
pub open spec fn utf8_bytes(s: String) -> Seq<u8> {
    vstd::utf8::encode_utf8(s@)
}

/// A string or C-string literal as the bytes of a C string, paired with the
/// literal's span.  A string literal is taken by its UTF-8 bytes and refused
/// when one of them is nul; any other kind of literal is refused.
pub open spec fn spec_to_cstring(lit: Lit) -> Result<(Seq<u8>, Span), Error> {
    match lit {
        Lit::Str { value, span } => if utf8_bytes(value).contains(0u8) {
            Err(Error { kind: ErrorKind::InteriorNul, span })
        } else {
            Ok((utf8_bytes(value), span))
        },
        Lit::CStr { bytes, span } => Ok((bytes@, span)),
        _ => Err(Error { kind: ErrorKind::ExpectedStringLiteral, span: lit.span_of() }),
    }
}

/// What a literal converts to is a C string: no nul byte among its bytes.
pub proof fn lemma_cstring_has_no_nul(lit: Lit)
    requires
        lit.wf(),
    ensures
        spec_to_cstring(lit) matches Ok((bytes, _)) ==> !bytes.contains(0u8),
{
}

fn has_nul(bytes: &[u8]) -> (r: bool)
    ensures
        r == bytes@.contains(0u8),
{
    let n = bytes.len();
    for i in 0..n
        invariant
            n == bytes@.len(),
            forall|j: int| 0 <= j < i ==> bytes@[j] != 0u8,
    {
        if bytes[i] == 0u8 {
            return true;
        }
    }
    false
}

impl Lit {
    /// Converts a string or C-string literal into the bytes of a C string,
    /// paired with the literal's span for later diagnostics.
    pub fn to_cstring(&self) -> (r: Result<(Vec<u8>, Span), Error>)
        ensures
            match r {
                Ok((bytes, span)) => spec_to_cstring(*self) == Ok::<(Seq<u8>, Span), Error>((bytes@, span)),
                Err(e) => spec_to_cstring(*self) == Err::<(Seq<u8>, Span), Error>(e),
            },
    {
        match self {
            Lit::Str { value, span } => {
                let b = value.as_str().as_bytes();
                if has_nul(b) {
                    Err(Error { kind: ErrorKind::InteriorNul, span: *span })
                } else {
                    Ok((vstd::slice::slice_to_vec(b), *span))
                }
            },
            Lit::CStr { bytes, span } => Ok((bytes.clone(), *span)),
            Lit::Int { span, .. } => Err(Error { kind: ErrorKind::ExpectedStringLiteral, span: *span }),
            Lit::Other { span } => Err(Error { kind: ErrorKind::ExpectedStringLiteral, span: *span }),
        }
    }

    /// The same as [`Lit::to_cstring`], as a C-string literal to emit, spanned
    /// at the literal.
    pub fn to_cstring_lit(&self) -> (r: Result<CLiteral, Error>)
        ensures
            match r {
                Ok(c) => spec_to_cstring(*self) == Ok::<(Seq<u8>, Span), Error>(c@),
                Err(e) => spec_to_cstring(*self) == Err::<(Seq<u8>, Span), Error>(e),
            },
    {
        let (bytes, span) = self.to_cstring()?;
        Ok(CLiteral { bytes, span })
    }
}

// ---------------------------------------------------------------------------
// Expressions

/// The literal of a literal expression; anything else is refused at the
/// expression.
pub open spec fn spec_as_lit(e: Expr) -> Result<Lit, Error> {
    match e {
        Expr::Lit(l) => Ok(l),
        _ => Err(Error { kind: ErrorKind::ExpectedLiteral, span: e.span_of() }),
    }
}

/// The value of an integer literal's digits as an `i32`; a value that does
/// not fit is refused at the literal.
pub open spec fn spec_int_value(digits: String, span: Span) -> Result<i32, Error> {
    if fits_i32(signed_value(digits@)) {
        Ok(signed_value(digits@) as i32)
    } else {
        Err(Error { kind: ErrorKind::InvalidInteger { digits }, span })
    }
}

/// The negation of an integer literal as an `i32`.  When it does not fit,
/// a literal that fits is `i32::MIN`, whose negation overflows (reported at
/// the negation); otherwise the literal itself does not fit (reported at the
/// literal).
pub open spec fn spec_neg_int_value(digits: String, span: Span, neg_span: Span) -> Result<i32, Error> {
    let v = signed_value(digits@);
    if fits_i32(-v) {
        Ok((-v) as i32)
    } else if fits_i32(v) {
        Err(Error { kind: ErrorKind::NegationOverflow, span: neg_span })
    } else {
        Err(Error { kind: ErrorKind::InvalidInteger { digits }, span })
    }
}

/// An integer literal, or a negated one, evaluated as an `i32`.
pub open spec fn spec_as_i32(e: Expr) -> Result<i32, Error> {
    match e {
        Expr::Lit(Lit::Int { digits, span }) => spec_int_value(digits, span),
        Expr::Neg { operand, span: neg_span } => match *operand {
            Expr::Lit(Lit::Int { digits, span }) => spec_neg_int_value(digits, span, neg_span),
            _ => Err(Error { kind: ErrorKind::ExpectedIntegerLiteral, span: operand.span_of() }),
        },
        _ => Err(Error { kind: ErrorKind::ExpectedIntegerLiteral, span: e.span_of() }),
    }
}

/// Every `i32` can be written as an integer literal: in decimal, negated
/// when negative; `i32::MIN` is `-2147483648`.
pub proof fn lemma_int_literal_value(e: Expr, v: i32)
    requires
        v >= 0 ==> (e matches Expr::Lit(Lit::Int { digits, .. }) && digits@ == decimal_digits(v as nat)),
        v < 0 ==> (e matches Expr::Neg { operand, .. } && *operand matches Expr::Lit(Lit::Int { digits, .. })
            && digits@ == decimal_digits((-v) as nat)),
    ensures
        spec_as_i32(e) == Ok::<i32, Error>(v),
{
    let n: nat = if v >= 0 { v as nat } else { (-v) as nat };
    lemma_decimal_digits(n);
    assert(decimal_digits(n)[0] != '-');
    assert(signed_value(decimal_digits(n)) == n);
}

fn int_value(digits: &String, span: Span) -> (r: Result<i32, Error>)
    requires
        is_int_text(digits@),
    ensures
        r == spec_int_value(*digits, span),
{
    match parse_i32(digits.as_str()) {
        Ok(v) => Ok(v),
        Err(_) => Err(Error { kind: ErrorKind::InvalidInteger { digits: digits.clone() }, span }),
    }
}

fn neg_int_value(digits: &String, span: Span, neg_span: Span) -> (r: Result<i32, Error>)
    requires
        is_int_text(digits@),
    ensures
        r == spec_neg_int_value(*digits, span, neg_span),
{
    match parse_i32(digits.as_str()) {
        Ok(v) => {
            if v == i32::MIN {
                Err(Error { kind: ErrorKind::NegationOverflow, span: neg_span })
            } else {
                Ok(-v)
            }
        },
        Err(_) => {
            if digits.as_str().get_char(0) == '-' {
                Err(Error { kind: ErrorKind::InvalidInteger { digits: digits.clone() }, span })
            } else {
                // Unsigned digits whose value is too large: their negation
                // may still fit, as `-2147483648` does.
                let mut negated = String::from_str("-");
                negated.append(digits.as_str());
                proof {
                    reveal_strlit("-");
                    assert(negated@.drop_first() =~= digits@);
                    assert(is_decimal_digits(digits@));
                }
                match parse_i32(negated.as_str()) {
                    Ok(w) => Ok(w),
                    Err(_) => Err(Error { kind: ErrorKind::InvalidInteger { digits: digits.clone() }, span }),
                }
            }
        },
    }
}

impl Expr {
    /// Borrows the literal of a literal expression.
    pub fn as_lit(&self) -> (r: Result<&Lit, Error>)
        ensures
            match r {
                Ok(l) => spec_as_lit(*self) == Ok::<Lit, Error>(*l),
                Err(e) => spec_as_lit(*self) == Err::<Lit, Error>(e),
            },
    {
        match self {
            Expr::Lit(l) => Ok(l),
            Expr::Neg { span, .. } => Err(Error { kind: ErrorKind::ExpectedLiteral, span: *span }),
            Expr::Other { span } => Err(Error { kind: ErrorKind::ExpectedLiteral, span: *span }),
        }
    }

    /// Evaluates a positive or negated integer literal as an `i32`.
    pub fn as_i32(&self) -> (r: Result<i32, Error>)
        requires
            self.wf(),
        ensures
            r == spec_as_i32(*self),
    {
        match self {
            Expr::Lit(Lit::Int { digits, span }) => int_value(digits, *span),
            Expr::Neg { operand, span: neg_span } => {
                assert(operand.wf());
                match &**operand {
                    Expr::Lit(Lit::Int { digits, span }) => neg_int_value(digits, *span, *neg_span),
                    Expr::Lit(l) => Err(Error { kind: ErrorKind::ExpectedIntegerLiteral, span: lit_span(l) }),
                    Expr::Neg { span, .. } => Err(Error { kind: ErrorKind::ExpectedIntegerLiteral, span: *span }),
                    Expr::Other { span } => Err(Error { kind: ErrorKind::ExpectedIntegerLiteral, span: *span }),
                }
            },
            Expr::Lit(l) => Err(Error { kind: ErrorKind::ExpectedIntegerLiteral, span: lit_span(l) }),
            Expr::Other { span } => Err(Error { kind: ErrorKind::ExpectedIntegerLiteral, span: *span }),
        }
    }
}

fn lit_span(l: &Lit) -> (r: Span)
    ensures
        r == l.span_of(),
{
    match l {
        Lit::Str { span, .. } => *span,
        Lit::CStr { span, .. } => *span,
        Lit::Int { span, .. } => *span,
        Lit::Other { span } => *span,
    }
}

// ---------------------------------------------------------------------------
// Key names

/// Whether a string spells out the given text.
pub(crate) fn str_is(s: &String, text: &str) -> (r: bool)
    ensures
        r == (s@ == text@),
{
    let t = String::from_str(text);
    s.eq(&t)
}

// ---------------------------------------------------------------------------
// `min` / `max`

/// Gathers the shared `min` / `max` integer keys.  A macro creates one,
/// feeds it each key/value through [`MinMax::try_take`], then
/// [`MinMax::resolve`]s it with its own defaults.
#[derive(Clone, Copy, Debug, PartialEq, Eq)]
pub struct MinMax {
    pub min: Option<i32>,
    pub max: Option<i32>,
}

impl Default for MinMax {
    fn default() -> (r: MinMax)
        ensures
            r.min is None,
            r.max is None,
    {
        MinMax { min: None, max: None }
    }
}

/// What [`MinMax::try_take`] does with one key/value: `min` and `max` take an
/// integer literal (evaluated first) and may be given once each; any other
/// key is left alone and reported as not handled.
pub open spec fn spec_try_take(mm: MinMax, key: Ident, val: Expr) -> (MinMax, Result<bool, Error>) {
    if key.name@ == "min"@ {
        match spec_as_i32(val) {
            Err(e) => (mm, Err(e)),
            Ok(v) => {
                let (slot, r) = spec_set_once(mm.min, key, v);
                (MinMax { min: slot, max: mm.max }, match r {
                    Ok(_) => Ok(true),
                    Err(e) => Err(e),
                })
            },
        }
    } else if key.name@ == "max"@ {
        match spec_as_i32(val) {
            Err(e) => (mm, Err(e)),
            Ok(v) => {
                let (slot, r) = spec_set_once(mm.max, key, v);
                (MinMax { min: mm.min, max: slot }, match r {
                    Ok(_) => Ok(true),
                    Err(e) => Err(e),
                })
            },
        }
    } else {
        (mm, Ok(false))
    }
}

/// The value of an optional slot, or a default.
pub open spec fn or_default<T>(slot: Option<T>, default: T) -> T {
    match slot {
        Some(v) => v,
        None => default,
    }
}

impl MinMax {
    /// Consumes a `min` or `max` key/value; returns whether `key` was one of
    /// them.
    pub fn try_take(&mut self, key: &Ident, val: &Expr) -> (r: Result<bool, Error>)
        requires
            val.wf(),
        ensures
            (*final(self), r) == spec_try_take(*old(self), *key, *val),
    {
        if str_is(&key.name, "min") {
            let v = val.as_i32()?;
            set_once(&mut self.min, key, v)?;
            Ok(true)
        } else if str_is(&key.name, "max") {
            let v = val.as_i32()?;
            set_once(&mut self.max, key, v)?;
            Ok(true)
        } else {
            Ok(false)
        }
    }

    /// The gathered `(min, max)`, each falling back to the given default.
    pub fn resolve(self, min_default: i32, max_default: i32) -> (r: (i32, i32))
        ensures
            r == (or_default(self.min, min_default), or_default(self.max, max_default)),
    {
        let min = match self.min {
            Some(v) => v,
            None => min_default,
        };
        let max = match self.max {
            Some(v) => v,
            None => max_default,
        };
        (min, max)
    }
}

// ---------------------------------------------------------------------------
// Key dispatch

/// The per-macro handling of `key = value` pairs.  Its state is described by
/// its view; `spec_handle` says what one pair does to it and whether the key
/// was one the macro knows.
pub trait ArgHandler: View + Sized {
    spec fn spec_handle(state: Self::V, key: Ident, val: Expr) -> (Self::V, Result<bool, Error>);

    fn handle(&mut self, key: &Ident, val: &Expr) -> (r: Result<bool, Error>)
        requires
            val.wf(),
        ensures
            (final(self)@, r) == Self::spec_handle(old(self)@, *key, *val),
    ;
}

/// What [`parse_args`] does with the pairs, in order: a path that is not a
/// single identifier is refused; otherwise the handler takes the pair, and
/// its error, or a key it does not know, stops the walk.
pub open spec fn spec_handle_pairs<H: ArgHandler>(state: H::V, pairs: Seq<MetaNameValue>) -> (H::V, Result<(), Error>)
    decreases pairs.len(),
{
    if pairs.len() == 0 {
        (state, Ok(()))
    } else {
        match pairs[0].path {
            KeyPath::Other { span } => (state, Err(Error { kind: ErrorKind::ExpectedIdentKey, span })),
            KeyPath::Ident(key) => {
                let (next, r) = H::spec_handle(state, key, pairs[0].value);
                match r {
                    Err(e) => (next, Err(e)),
                    Ok(false) => (next, Err(Error { kind: ErrorKind::UnknownKey { key: key.name }, span: key.span })),
                    Ok(true) => spec_handle_pairs::<H>(next, pairs.drop_first()),
                }
            },
        }
    }
}

/// Pairs are handled one after another: once a run of pairs has been handled
/// without error, the pairs after it are handled from the state it left.
pub proof fn lemma_handle_pairs_append<H: ArgHandler>(state: H::V, prefix: Seq<MetaNameValue>, rest: Seq<MetaNameValue>)
    requires
        spec_handle_pairs::<H>(state, prefix).1 is Ok,
    ensures
        spec_handle_pairs::<H>(state, prefix + rest) == spec_handle_pairs::<H>(spec_handle_pairs::<H>(state, prefix).0, rest),
    decreases prefix.len(),
{
    if prefix.len() == 0 {
        assert(prefix + rest =~= rest);
    } else {
        assert((prefix + rest)[0] == prefix[0]);
        assert((prefix + rest).drop_first() =~= prefix.drop_first() + rest);
        match prefix[0].path {
            KeyPath::Other { .. } => {},
            KeyPath::Ident(key) => {
                let next = H::spec_handle(state, key, prefix[0].value).0;
                lemma_handle_pairs_append::<H>(next, prefix.drop_first(), rest);
            },
        }
    }
}

/// Takes the name literal and hands each `key = value` pair to `handler`,
/// in order.  Returns the name literal once every pair was handled.
pub fn parse_args<H: ArgHandler>(input: AttrArgs, handler: &mut H) -> (r: Result<Lit, Error>)
    requires
        input.wf(),
    ensures
        final(handler)@ == spec_handle_pairs::<H>(old(handler)@, input.pairs@).0,
        r == match spec_handle_pairs::<H>(old(handler)@, input.pairs@).1 {
            Ok(_) => Ok::<Lit, Error>(input.name),
            Err(e) => Err::<Lit, Error>(e),
        },
{
    let ghost start = handler@;
    let AttrArgs { name, pairs } = input;
    let n = pairs.len();
    let mut i: usize = 0;
    let mut outcome: Result<(), Error> = Ok(());
    assert(pairs@.skip(0) =~= pairs@);
    assert(pairs@.skip(n as int) =~= Seq::<MetaNameValue>::empty());
    loop
        invariant_except_break
            0 <= i <= n,
            outcome == Ok::<(), Error>(()),
            spec_handle_pairs::<H>(start, pairs@) == spec_handle_pairs::<H>(handler@, pairs@.skip(i as int)),
        invariant
            n == pairs@.len(),
            pairs@.skip(n as int) == Seq::<MetaNameValue>::empty(),
            forall|j: int| 0 <= j < pairs@.len() ==> (#[trigger] pairs@[j]).value.wf(),
        ensures
            spec_handle_pairs::<H>(start, pairs@) == (handler@, outcome),
        decreases n - i,
    {
        if i >= n {
            break;
        }
        let kv = &pairs[i];
        let ghost rest = pairs@.skip(i as int);
        assert(rest[0] == pairs@[i as int]);
        assert(rest.drop_first() =~= pairs@.skip(i + 1));
        match &kv.path {
            KeyPath::Other { span } => {
                outcome = Err(Error { kind: ErrorKind::ExpectedIdentKey, span: *span });
                break;
            },
            KeyPath::Ident(key) => {
                match handler.handle(key, &kv.value) {
                    Err(e) => {
                        outcome = Err(e);
                        break;
                    },
                    Ok(false) => {
                        outcome = Err(Error { kind: ErrorKind::UnknownKey { key: key.name.clone() }, span: key.span });
                        break;
                    },
                    Ok(true) => {},
                }
            },
        }
        i += 1;
    }
    match outcome {
        Ok(()) => Ok(name),
        Err(e) => Err(e),
    }
}

// ---------------------------------------------------------------------------
// The state argument of a function

/// The `&Ctx` / `&mut Ctx` argument in first position of a macro'd
/// function's signature.
#[derive(Clone, Debug, PartialEq, Eq)]
pub struct CtxType {
    pub ident: Ident,
    /// `true` when the user wrote `&mut Ctx`; decides whether a builtin
    /// dispatches to `Features::builtin_mut` or `Features::builtin`.
    pub is_mut: bool,
}

/// The state type of a function: its first parameter must be a reference
/// to a type named by a single identifier.  With no parameter the error
/// points at the function's name, otherwise at the first parameter.
pub open spec fn spec_extract_ctx_type(sig: FnSig) -> Result<CtxType, Error> {
    if sig.inputs@.len() == 0 {
        Err(Error { kind: ErrorKind::MissingCtxArg, span: sig.ident.span })
    } else {
        let arg = sig.inputs@[0];
        match arg {
            FnArg::Typed { ty: Type::Reference { mutable, elem }, .. } => match *elem {
                Type::Path { ident: Some(ident) } => Ok(CtxType { ident, is_mut: mutable }),
                _ => Err(Error { kind: ErrorKind::CtxNotReference, span: arg.span_of() }),
            },
            _ => Err(Error { kind: ErrorKind::CtxNotReference, span: arg.span_of() }),
        }
    }
}

/// Pulls the state type out of the function's first parameter.
pub fn extract_ctx_type(input: &FnSig) -> (r: Result<CtxType, Error>)
    ensures
        r == spec_extract_ctx_type(*input),
{
    if input.inputs.len() == 0 {
        return Err(Error { kind: ErrorKind::MissingCtxArg, span: input.ident.span });
    }
    let arg = &input.inputs[0];
    match arg {
        FnArg::Typed { ty: Type::Reference { mutable, elem }, span } => match &**elem {
            Type::Path { ident: Some(ident) } => Ok(CtxType { ident: ident.cloned(), is_mut: *mutable }),
            _ => Err(Error { kind: ErrorKind::CtxNotReference, span: *span }),
        },
        FnArg::Typed { span, .. } => Err(Error { kind: ErrorKind::CtxNotReference, span: *span }),
        FnArg::Receiver { span } => Err(Error { kind: ErrorKind::CtxNotReference, span: *span }),
    }
}

// ---------------------------------------------------------------------------
// Laws

/// A single-use slot: an empty one takes the value and reports success; a
/// filled one keeps its value and reports the key, at the key, as given twice.
pub proof fn lemma_set_once<T>(slot: Option<T>, key: Ident, value: T)
    ensures
        slot is None ==> spec_set_once(slot, key, value) == (Some(value), Ok::<(), Error>(())),
        slot is Some ==> spec_set_once(slot, key, value) == (slot, Err::<(), Error>(
            Error { kind: ErrorKind::Duplicate { key: key.name }, span: key.span },
        )),
{
}

/// A string literal converts to the UTF-8 bytes of its value, unchanged and
/// spanned at the literal, unless one of them is nul, which is refused there.
pub proof fn lemma_string_literal_bytes(value: String, span: Span)
    ensures
        !vstd::utf8::encode_utf8(value@).contains(0u8) ==> spec_to_cstring(Lit::Str { value, span })
            == Ok::<(Seq<u8>, Span), Error>((vstd::utf8::encode_utf8(value@), span)),
        vstd::utf8::encode_utf8(value@).contains(0u8) ==> spec_to_cstring(Lit::Str { value, span })
            == Err::<(Seq<u8>, Span), Error>(Error { kind: ErrorKind::InteriorNul, span }),
{
}

/// A C-string literal converts to its bytes exactly as they are, spanned at
/// the literal.
pub proof fn lemma_c_string_literal_bytes(bytes: Vec<u8>, span: Span)
    ensures
        spec_to_cstring(Lit::CStr { bytes, span }) == Ok::<(Seq<u8>, Span), Error>((bytes@, span)),
{
}

/// `"s"` and `c"s"` normalise alike: a string literal and a C-string literal
/// holding its UTF-8 bytes convert to the same C string.
pub proof fn lemma_string_and_c_string_agree(value: String, bytes: Vec<u8>, span: Span)
    requires
        bytes@ == vstd::utf8::encode_utf8(value@),
        !bytes@.contains(0u8),
    ensures
        spec_to_cstring(Lit::Str { value, span }) == spec_to_cstring(Lit::CStr { bytes, span }),
{
}

/// No literal other than a string or C-string literal converts; it is
/// refused at the literal.
pub proof fn lemma_other_literals_refused(lit: Lit)
    requires
        !(lit is Str),
        !(lit is CStr),
    ensures
        spec_to_cstring(lit) == Err::<(Seq<u8>, Span), Error>(
            Error { kind: ErrorKind::ExpectedStringLiteral, span: lit.span_of() },
        ),
{
}

/// Every literal expression yields its literal, whatever the literal; any
/// other expression is refused at the expression.
pub proof fn lemma_as_lit(e: Expr)
    ensures
        forall|l: Lit| e == Expr::Lit(l) ==> spec_as_lit(e) == Ok::<Lit, Error>(l),
        !(e is Lit) ==> spec_as_lit(e) == Err::<Lit, Error>(
            Error { kind: ErrorKind::ExpectedLiteral, span: e.span_of() },
        ),
{
}

/// Negating a literal negates its value: when a literal evaluates to `v`
/// other than `i32::MIN`, its negation evaluates to `-v`, and the other way
/// round.
pub proof fn lemma_negation(lit: Lit, neg_span: Span, v: i32)
    requires
        lit is Int,
        lit.wf(),
        v != i32::MIN,
    ensures
        spec_as_i32(Expr::Lit(lit)) == Ok::<i32, Error>(v)
            ==> spec_as_i32(Expr::Neg { operand: Box::new(Expr::Lit(lit)), span: neg_span }) == Ok::<i32, Error>((-v) as i32),
        spec_as_i32(Expr::Neg { operand: Box::new(Expr::Lit(lit)), span: neg_span }) == Ok::<i32, Error>(v)
            ==> spec_as_i32(Expr::Lit(lit)) == Ok::<i32, Error>((-v) as i32),
{
}

/// An integer literal evaluates to the signed value of its digits when that
/// fits in an `i32`, and is refused at the literal otherwise; its negation
/// evaluates to the opposite value when that fits, and otherwise is refused
/// at the negation when only the negation overflows, at the literal when the
/// literal itself does not fit.
pub proof fn lemma_int_literal_range(digits: String, span: Span, neg_span: Span)
    requires
        is_int_text(digits@),
    ensures
        ({
            let lit = Expr::Lit(Lit::Int { digits, span });
            let neg = Expr::Neg { operand: Box::new(Expr::Lit(Lit::Int { digits, span })), span: neg_span };
            let v = signed_value(digits@);
            &&& fits_i32(v) ==> spec_as_i32(lit) == Ok::<i32, Error>(v as i32)
            &&& !fits_i32(v) ==> spec_as_i32(lit) == Err::<i32, Error>(
                Error { kind: ErrorKind::InvalidInteger { digits }, span },
            )
            &&& fits_i32(-v) ==> spec_as_i32(neg) == Ok::<i32, Error>((-v) as i32)
            &&& !fits_i32(-v) && fits_i32(v) ==> spec_as_i32(neg) == Err::<i32, Error>(
                Error { kind: ErrorKind::NegationOverflow, span: neg_span },
            )
            &&& !fits_i32(-v) && !fits_i32(v) ==> spec_as_i32(neg) == Err::<i32, Error>(
                Error { kind: ErrorKind::InvalidInteger { digits }, span },
            )
        }),
{
}

/// What `min` and `max` do with one key/value: the value of an integer
/// literal fills its empty slot and leaves the other slot alone; a filled
/// slot is reported at the key as given twice; a value that does not
/// evaluate is reported and changes nothing; any other key is left alone.
pub proof fn lemma_try_take(mm: MinMax, key: Ident, val: Expr)
    ensures
        key.name@ != "min"@ && key.name@ != "max"@ ==> spec_try_take(mm, key, val) == (mm, Ok::<bool, Error>(false)),
        (key.name@ == "min"@ || key.name@ == "max"@) && spec_as_i32(val) is Err ==>
            spec_try_take(mm, key, val) == (mm, Err::<bool, Error>(spec_as_i32(val)->Err_0)),
        key.name@ == "min"@ && spec_as_i32(val) is Ok && mm.min is None ==>
            spec_try_take(mm, key, val) == (MinMax { min: Some(spec_as_i32(val)->Ok_0), max: mm.max }, Ok::<bool, Error>(true)),
        key.name@ == "max"@ && spec_as_i32(val) is Ok && mm.max is None ==>
            spec_try_take(mm, key, val) == (MinMax { min: mm.min, max: Some(spec_as_i32(val)->Ok_0) }, Ok::<bool, Error>(true)),
        (key.name@ == "min"@ && spec_as_i32(val) is Ok && mm.min is Some)
            || (key.name@ == "max"@ && spec_as_i32(val) is Ok && mm.max is Some) ==>
            spec_try_take(mm, key, val) == (mm, Err::<bool, Error>(
                Error { kind: ErrorKind::Duplicate { key: key.name }, span: key.span },
            )),
{
    reveal_strlit("min");
    reveal_strlit("max");
    assert("min"@[1] != "max"@[1]);
}

/// With no pairs, every handler is left as it was and the walk succeeds; a
/// first pair whose key is not a single identifier stops it there.
pub proof fn lemma_handle_pairs_first<H: ArgHandler>(state: H::V, pairs: Seq<MetaNameValue>)
    ensures
        pairs.len() == 0 ==> spec_handle_pairs::<H>(state, pairs) == (state, Ok::<(), Error>(())),
        pairs.len() > 0 && pairs[0].path is Other ==> spec_handle_pairs::<H>(state, pairs) == (state, Err::<(), Error>(
            Error { kind: ErrorKind::ExpectedIdentKey, span: pairs[0].path->Other_span },
        )),
{
}

/// The state type is read off the first parameter alone: when it is `&T` or
/// `&mut T` with `T` a single identifier, the result is `T` and whether the
/// reference is `&mut`, whatever parameters follow.
pub proof fn lemma_ctx_type_from_first_param(sig: FnSig, mutable: bool, elem: Box<Type>, span: Span, ident: Ident)
    requires
        sig.inputs@.len() > 0,
        sig.inputs@[0] == (FnArg::Typed { ty: Type::Reference { mutable, elem }, span }),
        *elem == (Type::Path { ident: Some(ident) }),
    ensures
        spec_extract_ctx_type(sig) == Ok::<CtxType, Error>(CtxType { ident, is_mut: mutable }),
{
}

/// Two signatures with the same first parameter have the same state type,
/// whatever else they hold; with no parameter the error points at the
/// function's name.
pub proof fn lemma_ctx_type_first_param_only(a: FnSig, b: FnSig)
    requires
        a.inputs@.len() > 0,
        b.inputs@.len() > 0,
        a.inputs@[0] == b.inputs@[0],
    ensures
        spec_extract_ctx_type(a) == spec_extract_ctx_type(b),
        forall|s: FnSig| s.inputs@.len() == 0 ==> spec_extract_ctx_type(s) == Err::<CtxType, Error>(
            Error { kind: ErrorKind::MissingCtxArg, span: s.ident.span },
        ),
{
}

/// A first parameter that is not a reference to a single-identifier type is
/// refused, at that parameter.
pub proof fn lemma_ctx_type_refused(sig: FnSig)
    requires
        sig.inputs@.len() > 0,
        !(sig.inputs@[0] matches FnArg::Typed { ty: Type::Reference { elem, .. }, .. } && *elem matches Type::Path { ident: Some(_) }),
    ensures
        spec_extract_ctx_type(sig) == Err::<CtxType, Error>(
            Error { kind: ErrorKind::CtxNotReference, span: sig.inputs@[0].span_of() },
        ),
{
}

} // verus!
