//! A plain model of the syntax the macros read, and of the diagnostics they
//! raise.
//!
//! `syn` parses the compiler's tokens; what the macros then look at is held
//! here as plain values.  Every piece of syntax carries the [`Span`] that a
//! diagnostic about it points at.

use vstd::prelude::*;
use crate::text::{is_int_text, parse_i32, spec_parse_i32};

verus! {

/// Where a diagnostic or a generated token points: at a piece of the macro
/// input, identified by a number, or at the macro call itself.
#[derive(Clone, Copy, Debug, PartialEq, Eq)]
pub enum Span {
    CallSite,
    At(usize),
}

/// An identifier, spelled as the compiler prints it (`r#` included).
#[derive(Clone, Debug, PartialEq, Eq)]
pub struct Ident {
    pub name: String,
    pub span: Span,
}

impl Ident {
    /// A copy of the identifier, span included.
    pub fn cloned(&self) -> (r: Ident)
        ensures
            r == *self,
    {
        Ident { name: self.name.clone(), span: self.span }
    }
}

/// A literal.
#[derive(Clone, Debug, PartialEq, Eq)]
pub enum Lit {
    /// A string literal, by its value (escapes resolved).
    Str { value: String, span: Span },
    /// A C-string literal, by the bytes of its value (no terminating nul).
    CStr { bytes: Vec<u8>, span: Span },
    /// An integer literal, by its value in decimal digits (suffix dropped;
    /// a `-` in front when a macro built a negative literal token).
    Int { digits: String, span: Span },
    /// Any other literal.
    Other { span: Span },
}

impl Lit {
    pub open spec fn span_of(self) -> Span {
        match self {
            Lit::Str { span, .. } => span,
            Lit::CStr { span, .. } => span,
            Lit::Int { span, .. } => span,
            Lit::Other { span } => span,
        }
    }

    /// What the compiler guarantees of a literal: a C-string holds no nul
    /// byte, and an integer's digits are decimal digits, after a `-` when a
    /// macro built a negative literal token.
    pub open spec fn wf(self) -> bool {
        match self {
            Lit::CStr { bytes, .. } => !bytes@.contains(0u8),
            Lit::Int { digits, .. } => is_int_text(digits@),
            _ => true,
        }
    }
}

/// An expression, as far as the macros look into one.
#[derive(Debug, PartialEq, Eq)]
pub enum Expr {
    /// A literal expression.
    Lit(Lit),
    /// `-operand`.
    Neg { operand: Box<Expr>, span: Span },
    /// Any other expression.
    Other { span: Span },
}

impl Expr {
    pub open spec fn span_of(self) -> Span {
        match self {
            Expr::Lit(l) => l.span_of(),
            Expr::Neg { span, .. } => span,
            Expr::Other { span } => span,
        }
    }

    pub open spec fn wf(self) -> bool
        decreases self,
    {
        match self {
            Expr::Lit(l) => l.wf(),
            Expr::Neg { operand, .. } => operand.wf(),
            Expr::Other { .. } => true,
        }
    }
}

/// The path left of `=` in `key = value`.
#[derive(Clone, Debug, PartialEq, Eq)]
pub enum KeyPath {
    /// A path that is a single identifier.
    Ident(Ident),
    /// Any other path.
    Other { span: Span },
}

/// `path = value`.
#[derive(Debug, PartialEq, Eq)]
pub struct MetaNameValue {
    pub path: KeyPath,
    pub value: Expr,
}

/// Attribute arguments: a name literal, then `key = value` pairs in order.
#[derive(Debug, PartialEq, Eq)]
pub struct AttrArgs {
    pub name: Lit,
    pub pairs: Vec<MetaNameValue>,
}

impl AttrArgs {
    pub open spec fn wf(self) -> bool {
        &&& self.name.wf()
        &&& forall|i: int| 0 <= i < self.pairs@.len() ==> (#[trigger] self.pairs@[i]).value.wf()
    }
}

/// A type, as far as the macros look into one.
#[derive(Debug, PartialEq, Eq)]
pub enum Type {
    /// `&elem` or `&mut elem`.
    Reference { mutable: bool, elem: Box<Type> },
    /// A path type; `ident` is its path when that path is a single identifier.
    Path { ident: Option<Ident> },
    /// Any other type.
    Other,
}

/// A function parameter.
#[derive(Debug, PartialEq, Eq)]
pub enum FnArg {
    /// `self`, `&self`, `&mut self`.
    Receiver { span: Span },
    /// `pattern: ty`.
    Typed { ty: Type, span: Span },
}

impl FnArg {
    pub open spec fn span_of(self) -> Span {
        match self {
            FnArg::Receiver { span } => span,
            FnArg::Typed { span, .. } => span,
        }
    }
}

/// The signature of the function a builtin attribute stands on.
#[derive(Debug, PartialEq, Eq)]
pub struct FnSig {
    pub ident: Ident,
    pub inputs: Vec<FnArg>,
}

/// What a diagnostic says.
#[derive(Clone, Debug, PartialEq, Eq)]
pub enum ErrorKind {
    ExpectedIdentKey,
    UnknownKey { key: String },
    Duplicate { key: String },
    InteriorNul,
    ExpectedStringLiteral,
    ExpectedLiteral,
    ExpectedIntegerLiteral,
    /// An integer literal, by its digits, that does not fit in an `i32`;
    /// the message is the integer parser's.
    InvalidInteger { digits: String },
    /// The negation of a literal whose value is `i32::MIN`.
    NegationOverflow,
    MissingCtxArg,
    CtxNotReference,
}

/// A diagnostic: what it says and where it points.
#[derive(Clone, Debug, PartialEq, Eq)]
pub struct Error {
    pub kind: ErrorKind,
    pub span: Span,
}

/// The text of a diagnostic.
pub open spec fn spec_message(kind: ErrorKind) -> Seq<char> {
    match kind {
        ErrorKind::ExpectedIdentKey => "expected an identifier key"@,
        ErrorKind::UnknownKey { key } => "unknown key `"@ + key@ + "`"@,
        ErrorKind::Duplicate { key } => "duplicate `"@ + key@ + "`"@,
        ErrorKind::InteriorNul => "string contains interior nul byte"@,
        ErrorKind::ExpectedStringLiteral => "expected string or c-string literal"@,
        ErrorKind::ExpectedLiteral => "expected a literal value"@,
        ErrorKind::ExpectedIntegerLiteral => "expected integer literal"@,
        ErrorKind::InvalidInteger { digits } => match spec_parse_i32(digits@) {
            Err(m) => m,
            Ok(_) => Seq::empty(),
        },
        ErrorKind::NegationOverflow => "attempt to negate with overflow"@,
        ErrorKind::MissingCtxArg => "expected a `&Ctx` or `&mut Ctx` as the first argument"@,
        ErrorKind::CtxNotReference =>
            "first argument must be a reference to a state type (`&Ctx` or `&mut Ctx`)"@,
    }
}

impl Error {
    /// The text the diagnostic shows.
    pub fn message(&self) -> (r: String)
        ensures
            r@ == spec_message(self.kind),
    {
        match &self.kind {
            ErrorKind::ExpectedIdentKey => String::from_str("expected an identifier key"),
            ErrorKind::UnknownKey { key } => {
                let mut s = String::from_str("unknown key `");
                s.append(key.as_str());
                s.append("`");
                s
            },
            ErrorKind::Duplicate { key } => {
                let mut s = String::from_str("duplicate `");
                s.append(key.as_str());
                s.append("`");
                s
            },
            ErrorKind::InteriorNul => String::from_str("string contains interior nul byte"),
            ErrorKind::ExpectedStringLiteral => String::from_str(
                "expected string or c-string literal",
            ),
            ErrorKind::ExpectedLiteral => String::from_str("expected a literal value"),
            ErrorKind::ExpectedIntegerLiteral => String::from_str("expected integer literal"),
            ErrorKind::InvalidInteger { digits } => match parse_i32(digits.as_str()) {
                Err(m) => m,
                Ok(_) => String::new(),
            },
            ErrorKind::NegationOverflow => String::from_str("attempt to negate with overflow"),
            ErrorKind::MissingCtxArg => String::from_str(
                "expected a `&Ctx` or `&mut Ctx` as the first argument",
            ),
            ErrorKind::CtxNotReference => String::from_str(
                "first argument must be a reference to a state type (`&Ctx` or `&mut Ctx`)",
            ),
        }
    }
}

} // verus!
