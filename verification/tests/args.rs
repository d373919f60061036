use zsh_module_macros::syntax::{AttrArgs, Error, ErrorKind, Expr, FnArg, FnSig, Ident, KeyPath, Lit, MetaNameValue, Span, Type};
use zsh_module_macros::utils::args::{extract_ctx_type, parse_args, set_once, ArgHandler, CtxType, MinMax};
use zsh_module_macros::builtin::BuiltinArgsBuilder;

fn ident(name: &str, at: usize) -> Ident {
    Ident { name: name.to_string(), span: Span::At(at) }
}

fn int_lit(digits: &str, at: usize) -> Expr {
    Expr::Lit(Lit::Int { digits: digits.to_string(), span: Span::At(at) })
}

fn neg(operand: Expr, at: usize) -> Expr {
    Expr::Neg { operand: Box::new(operand), span: Span::At(at) }
}

fn string(value: &str, at: usize) -> Lit {
    Lit::Str { value: value.to_string(), span: Span::At(at) }
}

fn err(kind: ErrorKind, at: usize) -> Error {
    Error { kind, span: Span::At(at) }
}

#[test]
fn set_once_fills_an_empty_slot() {
    let mut slot: Option<i32> = None;
    assert_eq!(set_once(&mut slot, &ident("min", 1), 7), Ok(()));
    assert_eq!(slot, Some(7));
}

#[test]
fn set_once_refuses_a_second_value_at_the_key() {
    let mut slot: Option<i32> = Some(3);
    let r = set_once(&mut slot, &ident("min", 9), 7);
    assert_eq!(r, Err(err(ErrorKind::Duplicate { key: "min".to_string() }, 9)));
    assert_eq!(slot, Some(3));
    assert_eq!(r.unwrap_err().message(), "duplicate `min`");
}

#[test]
fn as_i32_reads_positive_and_negated_literals() {
    assert_eq!(int_lit("42", 0).as_i32(), Ok(42));
    assert_eq!(neg(int_lit("42", 1), 0).as_i32(), Ok(-42));
    assert_eq!(int_lit("0", 0).as_i32(), Ok(0));
    assert_eq!(int_lit("007", 0).as_i32(), Ok(7));
    assert_eq!(int_lit("2147483647", 0).as_i32(), Ok(i32::MAX));
    assert_eq!(neg(int_lit("2147483647", 1), 0).as_i32(), Ok(-i32::MAX));
}

#[test]
fn as_i32_refuses_values_out_of_range_at_the_literal() {
    let e = int_lit("2147483648", 5).as_i32().unwrap_err();
    assert_eq!(e, err(ErrorKind::InvalidInteger { digits: "2147483648".to_string() }, 5));
    assert_eq!(e.message(), "number too large to fit in target type");
    let e = neg(int_lit("2147483649", 6), 2).as_i32().unwrap_err();
    assert_eq!(e, err(ErrorKind::InvalidInteger { digits: "2147483649".to_string() }, 6));
    assert_eq!(e.message(), "number too large to fit in target type");
}

#[test]
fn as_i32_reads_the_smallest_i32() {
    assert_eq!(neg(int_lit("2147483648", 6), 2).as_i32(), Ok(i32::MIN));
    assert_eq!(neg(int_lit("02147483648", 6), 2).as_i32(), Ok(i32::MIN));
}

#[test]
fn as_i32_reads_negative_literal_tokens() {
    // A literal token a macro built from a negative number keeps its sign.
    assert_eq!(int_lit("-5", 1).as_i32(), Ok(-5));
    assert_eq!(int_lit("-2147483648", 1).as_i32(), Ok(i32::MIN));
    assert_eq!(neg(int_lit("-5", 1), 0).as_i32(), Ok(5));
    let e = int_lit("-2147483649", 1).as_i32().unwrap_err();
    assert_eq!(e, err(ErrorKind::InvalidInteger { digits: "-2147483649".to_string() }, 1));
    assert_eq!(e.message(), "number too small to fit in target type");
    let e = neg(int_lit("-2147483648", 1), 0).as_i32().unwrap_err();
    assert_eq!(e, err(ErrorKind::NegationOverflow, 0));
    assert_eq!(e.message(), "attempt to negate with overflow");
    let e = neg(int_lit("-2147483649", 1), 0).as_i32().unwrap_err();
    assert_eq!(e, err(ErrorKind::InvalidInteger { digits: "-2147483649".to_string() }, 1));
}

#[test]
fn as_i32_refuses_what_is_not_an_integer_literal() {
    let s = Expr::Lit(string("3", 4));
    assert_eq!(s.as_i32(), Err(err(ErrorKind::ExpectedIntegerLiteral, 4)));
    let other = Expr::Other { span: Span::At(8) };
    assert_eq!(other.as_i32(), Err(err(ErrorKind::ExpectedIntegerLiteral, 8)));
    // Under a negation the error points at the operand.
    let n = neg(Expr::Other { span: Span::At(3) }, 2);
    let e = n.as_i32().unwrap_err();
    assert_eq!(e, err(ErrorKind::ExpectedIntegerLiteral, 3));
    assert_eq!(e.message(), "expected integer literal");
    let nn = neg(neg(int_lit("1", 5), 4), 3);
    assert_eq!(nn.as_i32(), Err(err(ErrorKind::ExpectedIntegerLiteral, 4)));
}

#[test]
fn as_lit_borrows_the_literal() {
    let e = Expr::Lit(string("x", 1));
    assert_eq!(e.as_lit(), Ok(&string("x", 1)));
    let n = neg(int_lit("1", 3), 2);
    let e = n.as_lit().unwrap_err();
    assert_eq!(e, err(ErrorKind::ExpectedLiteral, 2));
    assert_eq!(e.message(), "expected a literal value");
}

#[test]
fn to_cstring_takes_string_literals_by_their_utf8_bytes() {
    assert_eq!(string("greet", 1).to_cstring(), Ok((b"greet".to_vec(), Span::At(1))));
    assert_eq!(string("\u{e9}", 2).to_cstring(), Ok((vec![0xc3, 0xa9], Span::At(2))));
    assert_eq!(string("", 3).to_cstring(), Ok((vec![], Span::At(3))));
}

#[test]
fn to_cstring_refuses_an_interior_nul() {
    let e = string("a\0b", 7).to_cstring().unwrap_err();
    assert_eq!(e, err(ErrorKind::InteriorNul, 7));
    assert_eq!(e.message(), "string contains interior nul byte");
}

#[test]
fn to_cstring_takes_c_string_literals_as_they_are() {
    let c = Lit::CStr { bytes: b"fl:".to_vec(), span: Span::At(4) };
    assert_eq!(c.to_cstring(), Ok((b"fl:".to_vec(), Span::At(4))));
    let lit = c.to_cstring_lit().unwrap();
    assert_eq!(lit.bytes, b"fl:".to_vec());
    assert_eq!(lit.span, Span::At(4));
}

#[test]
fn to_cstring_refuses_other_literals() {
    let e = Lit::Int { digits: "1".to_string(), span: Span::At(2) }.to_cstring_lit().unwrap_err();
    assert_eq!(e, err(ErrorKind::ExpectedStringLiteral, 2));
    assert_eq!(e.message(), "expected string or c-string literal");
    assert_eq!(Lit::Other { span: Span::At(3) }.to_cstring(), Err(err(ErrorKind::ExpectedStringLiteral, 3)));
}

#[test]
fn min_max_takes_its_keys_once_each() {
    let mut mm = MinMax::default();
    assert_eq!(mm.try_take(&ident("min", 1), &int_lit("2", 2)), Ok(true));
    assert_eq!(mm.try_take(&ident("max", 3), &neg(int_lit("1", 5), 4)), Ok(true));
    assert_eq!(mm.try_take(&ident("opts", 6), &int_lit("1", 7)), Ok(false));
    assert_eq!(mm, MinMax { min: Some(2), max: Some(-1) });
    assert_eq!(
        mm.try_take(&ident("max", 8), &int_lit("4", 9)),
        Err(err(ErrorKind::Duplicate { key: "max".to_string() }, 8))
    );
    assert_eq!(mm.resolve(0, -1), (2, -1));
}

#[test]
fn min_max_evaluates_the_value_before_the_duplicate_check() {
    let mut mm = MinMax { min: Some(1), max: None };
    let r = mm.try_take(&ident("min", 1), &Expr::Other { span: Span::At(2) });
    assert_eq!(r, Err(err(ErrorKind::ExpectedIntegerLiteral, 2)));
    assert_eq!(mm, MinMax { min: Some(1), max: None });
}

#[test]
fn min_max_keys_are_matched_exactly() {
    let mut mm = MinMax::default();
    assert_eq!(mm.try_take(&ident("r#min", 1), &int_lit("2", 2)), Ok(false));
    assert_eq!(mm.try_take(&ident("Min", 1), &int_lit("2", 2)), Ok(false));
    assert_eq!(mm, MinMax::default());
}

#[test]
fn resolve_falls_back_to_the_defaults() {
    assert_eq!(MinMax::default().resolve(0, -1), (0, -1));
    assert_eq!(MinMax { min: Some(5), max: None }.resolve(0, -1), (5, -1));
    assert_eq!(MinMax { min: None, max: Some(9) }.resolve(1, 2), (1, 9));
}

fn pair(key: &str, at: usize, value: Expr) -> MetaNameValue {
    MetaNameValue { path: KeyPath::Ident(ident(key, at)), value }
}

#[test]
fn parse_args_returns_the_name_once_every_pair_is_handled() {
    let input = AttrArgs { name: string("greet", 0), pairs: vec![pair("min", 1, int_lit("1", 2)), pair("max", 3, int_lit("3", 4))] };
    let mut handler = BuiltinArgsBuilder::new();
    assert_eq!(parse_args(input, &mut handler), Ok(string("greet", 0)));
    assert_eq!(handler.min_max, MinMax { min: Some(1), max: Some(3) });
}

#[test]
fn parse_args_reports_an_unknown_key_at_the_key() {
    let input = AttrArgs { name: string("greet", 0), pairs: vec![pair("min", 1, int_lit("1", 2)), pair("colour", 3, int_lit("3", 4)), pair("max", 5, int_lit("3", 6))] };
    let mut handler = BuiltinArgsBuilder::new();
    let e = parse_args(input, &mut handler).unwrap_err();
    assert_eq!(e, err(ErrorKind::UnknownKey { key: "colour".to_string() }, 3));
    assert_eq!(e.message(), "unknown key `colour`");
    // The pairs after the unknown key were not handled.
    assert_eq!(handler.min_max, MinMax { min: Some(1), max: None });
}

#[test]
fn parse_args_refuses_a_path_key() {
    let input = AttrArgs {
        name: string("greet", 0),
        pairs: vec![MetaNameValue { path: KeyPath::Other { span: Span::At(4) }, value: int_lit("1", 5) }],
    };
    let mut handler = BuiltinArgsBuilder::new();
    let e = parse_args(input, &mut handler).unwrap_err();
    assert_eq!(e, err(ErrorKind::ExpectedIdentKey, 4));
    assert_eq!(e.message(), "expected an identifier key");
}

#[test]
fn parse_args_passes_on_the_handlers_error() {
    let input = AttrArgs { name: string("greet", 0), pairs: vec![pair("min", 1, Expr::Lit(string("x", 2)))] };
    let mut handler = BuiltinArgsBuilder::new();
    assert_eq!(parse_args(input, &mut handler), Err(err(ErrorKind::ExpectedIntegerLiteral, 2)));
}

#[test]
fn handler_accepts_opts_as_a_string_literal() {
    let mut handler = BuiltinArgsBuilder::new();
    assert_eq!(handler.handle(&ident("opts", 1), &Expr::Lit(string("fl:", 2))), Ok(true));
    let opts = handler.opts.clone().unwrap();
    assert_eq!(opts.bytes, b"fl:".to_vec());
    assert_eq!(opts.span, Span::At(2));
    assert_eq!(
        handler.handle(&ident("opts", 3), &Expr::Lit(string("x", 4))),
        Err(err(ErrorKind::Duplicate { key: "opts".to_string() }, 3))
    );
}

fn sig(args: Vec<FnArg>) -> FnSig {
    FnSig { ident: ident("greet", 0), inputs: args }
}

fn reference(mutable: bool, elem: Type, at: usize) -> FnArg {
    FnArg::Typed { ty: Type::Reference { mutable, elem: Box::new(elem) }, span: Span::At(at) }
}

#[test]
fn extract_ctx_type_reads_a_mutable_reference() {
    let s = sig(vec![reference(true, Type::Path { ident: Some(ident("Greeter", 2)) }, 1)]);
    assert_eq!(extract_ctx_type(&s), Ok(CtxType { ident: ident("Greeter", 2), is_mut: true }));
}

#[test]
fn extract_ctx_type_reads_a_shared_reference() {
    let s = sig(vec![
        reference(false, Type::Path { ident: Some(ident("Greeter", 2)) }, 1),
        FnArg::Typed { ty: Type::Other, span: Span::At(3) },
    ]);
    assert_eq!(extract_ctx_type(&s), Ok(CtxType { ident: ident("Greeter", 2), is_mut: false }));
}

#[test]
fn extract_ctx_type_needs_a_first_argument() {
    let e = extract_ctx_type(&sig(vec![])).unwrap_err();
    assert_eq!(e, err(ErrorKind::MissingCtxArg, 0));
    assert_eq!(e.message(), "expected a `&Ctx` or `&mut Ctx` as the first argument");
}

#[test]
fn extract_ctx_type_refuses_other_first_arguments_at_the_argument() {
    let cases = vec![
        FnArg::Receiver { span: Span::At(1) },
        FnArg::Typed { ty: Type::Path { ident: Some(ident("Greeter", 5)) }, span: Span::At(1) },
        reference(true, Type::Path { ident: None }, 1),
        reference(false, Type::Other, 1),
        reference(false, Type::Reference { mutable: false, elem: Box::new(Type::Path { ident: Some(ident("G", 5)) }) }, 1),
    ];
    for arg in cases {
        let e = extract_ctx_type(&sig(vec![arg])).unwrap_err();
        assert_eq!(e, err(ErrorKind::CtxNotReference, 1));
        assert_eq!(e.message(), "first argument must be a reference to a state type (`&Ctx` or `&mut Ctx`)");
    }
}
