use zsh_module_macros::builtin::{builtin_impl, BuiltinArgs, Dispatch};
use zsh_module_macros::state::state_impl;
use zsh_module_macros::syntax::{AttrArgs, Error, ErrorKind, Expr, FnArg, FnSig, Ident, KeyPath, Lit, MetaNameValue, Span, Type};
use zsh_module_macros::utils::args::CLiteral;
use zsh_module_macros::utils::emit::priv_mod;

fn ident(name: &str, at: usize) -> Ident {
    Ident { name: name.to_string(), span: Span::At(at) }
}

fn int_lit(digits: &str, at: usize) -> Expr {
    Expr::Lit(Lit::Int { digits: digits.to_string(), span: Span::At(at) })
}

fn string(value: &str, at: usize) -> Lit {
    Lit::Str { value: value.to_string(), span: Span::At(at) }
}

fn pair(key: &str, at: usize, value: Expr) -> MetaNameValue {
    MetaNameValue { path: KeyPath::Ident(ident(key, at)), value }
}

fn err(kind: ErrorKind, at: usize) -> Error {
    Error { kind, span: Span::At(at) }
}

fn clit(bytes: &[u8], span: Span) -> CLiteral {
    CLiteral { bytes: bytes.to_vec(), span }
}

#[test]
fn builtin_args_read_every_key() {
    // #[builtin("greet", min = 0, max = 3, opts = "fl:")]
    let input = AttrArgs {
        name: string("greet", 0),
        pairs: vec![
            pair("min", 1, int_lit("0", 2)),
            pair("max", 3, int_lit("3", 4)),
            pair("opts", 5, Expr::Lit(string("fl:", 6))),
        ],
    };
    let args = BuiltinArgs::parse(input).unwrap();
    assert_eq!(
        args,
        BuiltinArgs { name: clit(b"greet", Span::At(0)), min: 0, max: 3, opts: clit(b"fl:", Span::At(6)) }
    );
}

#[test]
fn builtin_args_fill_in_the_defaults() {
    // #[builtin(c"greet")]
    let input = AttrArgs { name: Lit::CStr { bytes: b"greet".to_vec(), span: Span::At(0) }, pairs: vec![] };
    let args = BuiltinArgs::parse(input).unwrap();
    assert_eq!(args, BuiltinArgs { name: clit(b"greet", Span::At(0)), min: 0, max: -1, opts: clit(b"", Span::CallSite) });
}

#[test]
fn builtin_args_take_keys_in_any_order() {
    let input = AttrArgs {
        name: string("g", 0),
        pairs: vec![pair("opts", 1, Expr::Lit(Lit::CStr { bytes: b"a".to_vec(), span: Span::At(2) })), pair("max", 3, int_lit("5", 4))],
    };
    let args = BuiltinArgs::parse(input).unwrap();
    assert_eq!(args.min, 0);
    assert_eq!(args.max, 5);
    assert_eq!(args.opts, clit(b"a", Span::At(2)));
}

#[test]
fn builtin_args_refuse_an_unknown_key() {
    let input = AttrArgs { name: string("greet", 0), pairs: vec![pair("min", 1, int_lit("0", 2)), pair("flags", 3, int_lit("1", 4))] };
    assert_eq!(BuiltinArgs::parse(input), Err(err(ErrorKind::UnknownKey { key: "flags".to_string() }, 3)));
}

#[test]
fn builtin_args_refuse_a_duplicate_key_at_its_second_occurrence() {
    let input = AttrArgs { name: string("greet", 0), pairs: vec![pair("max", 1, int_lit("1", 2)), pair("max", 3, int_lit("2", 4))] };
    assert_eq!(BuiltinArgs::parse(input), Err(err(ErrorKind::Duplicate { key: "max".to_string() }, 3)));
    let input = AttrArgs {
        name: string("greet", 0),
        pairs: vec![pair("opts", 1, Expr::Lit(string("a", 2))), pair("opts", 3, Expr::Lit(string("b", 4)))],
    };
    assert_eq!(BuiltinArgs::parse(input), Err(err(ErrorKind::Duplicate { key: "opts".to_string() }, 3)));
}

#[test]
fn builtin_args_check_the_pairs_before_the_name() {
    // The name is an integer, but the unknown key is reported first.
    let input = AttrArgs { name: Lit::Int { digits: "1".to_string(), span: Span::At(0) }, pairs: vec![pair("x", 1, int_lit("1", 2))] };
    assert_eq!(BuiltinArgs::parse(input), Err(err(ErrorKind::UnknownKey { key: "x".to_string() }, 1)));
    // With good pairs, the name is checked.
    let input = AttrArgs { name: Lit::Int { digits: "1".to_string(), span: Span::At(0) }, pairs: vec![pair("min", 1, int_lit("1", 2))] };
    assert_eq!(BuiltinArgs::parse(input), Err(err(ErrorKind::ExpectedStringLiteral, 0)));
}

#[test]
fn builtin_args_refuse_a_name_with_a_nul() {
    let input = AttrArgs { name: string("gr\0eet", 0), pairs: vec![] };
    assert_eq!(BuiltinArgs::parse(input), Err(err(ErrorKind::InteriorNul, 0)));
}

#[test]
fn builtin_args_refuse_bad_opts() {
    let input = AttrArgs { name: string("g", 0), pairs: vec![pair("opts", 1, int_lit("1", 2))] };
    assert_eq!(BuiltinArgs::parse(input), Err(err(ErrorKind::ExpectedStringLiteral, 2)));
    let input = AttrArgs { name: string("g", 0), pairs: vec![pair("opts", 1, Expr::Other { span: Span::At(2) })] };
    assert_eq!(BuiltinArgs::parse(input), Err(err(ErrorKind::ExpectedLiteral, 2)));
    let input = AttrArgs { name: string("g", 0), pairs: vec![pair("opts", 1, Expr::Lit(string("a\0", 2)))] };
    assert_eq!(BuiltinArgs::parse(input), Err(err(ErrorKind::InteriorNul, 2)));
}

#[test]
fn builtin_args_refuse_a_path_key() {
    let input = AttrArgs {
        name: string("g", 0),
        pairs: vec![MetaNameValue { path: KeyPath::Other { span: Span::At(7) }, value: int_lit("1", 8) }],
    };
    assert_eq!(BuiltinArgs::parse(input), Err(err(ErrorKind::ExpectedIdentKey, 7)));
}

#[test]
fn builtin_args_take_the_smallest_i32() {
    let input = AttrArgs {
        name: string("g", 0),
        pairs: vec![pair("min", 1, Expr::Neg { operand: Box::new(int_lit("2147483648", 3)), span: Span::At(2) })],
    };
    assert_eq!(BuiltinArgs::parse(input).unwrap().min, i32::MIN);
    let input = AttrArgs {
        name: string("g", 0),
        pairs: vec![pair("max", 1, Expr::Neg { operand: Box::new(int_lit("2147483649", 3)), span: Span::At(2) })],
    };
    let e = BuiltinArgs::parse(input).unwrap_err();
    assert_eq!(e, err(ErrorKind::InvalidInteger { digits: "2147483649".to_string() }, 3));
}

fn greet_sig(first: FnArg) -> FnSig {
    FnSig { ident: ident("Greet", 10), inputs: vec![first] }
}

fn ctx_arg(mutable: bool) -> FnArg {
    FnArg::Typed {
        ty: Type::Reference { mutable, elem: Box::new(Type::Path { ident: Some(ident("Greeter", 12)) }) },
        span: Span::At(11),
    }
}

fn some_args() -> BuiltinArgs {
    BuiltinArgs { name: clit(b"greet", Span::At(0)), min: 0, max: 3, opts: clit(b"fl:", Span::At(6)) }
}

#[test]
fn builtin_impl_plans_a_mutable_dispatch() {
    let plan = builtin_impl(some_args(), &greet_sig(ctx_arg(true))).unwrap();
    assert_eq!(plan.fn_name, ident("Greet", 10));
    assert_eq!(plan.ctx_type, ident("Greeter", 12));
    assert_eq!(plan.dispatch, Dispatch::Mut);
    assert_eq!(plan.priv_mod, Ident { name: "__zmod_greet".to_string(), span: Span::CallSite });
    assert_eq!(plan.name, clit(b"greet", Span::At(0)));
    assert_eq!((plan.min, plan.max), (0, 3));
    assert_eq!(plan.opts, clit(b"fl:", Span::At(6)));
}

#[test]
fn builtin_impl_plans_a_shared_dispatch() {
    let plan = builtin_impl(some_args(), &greet_sig(ctx_arg(false))).unwrap();
    assert_eq!(plan.dispatch, Dispatch::Shared);
}

#[test]
fn builtin_impl_reports_a_missing_state_argument() {
    let s = FnSig { ident: ident("greet", 10), inputs: vec![] };
    assert_eq!(builtin_impl(some_args(), &s), Err(err(ErrorKind::MissingCtxArg, 10)));
    let s = greet_sig(FnArg::Receiver { span: Span::At(11) });
    assert_eq!(builtin_impl(some_args(), &s), Err(err(ErrorKind::CtxNotReference, 11)));
}

#[test]
fn priv_mod_lowercases_the_name() {
    assert_eq!(priv_mod(&ident("Greeter", 1)), Ident { name: "__zmod_greeter".to_string(), span: Span::CallSite });
    assert_eq!(priv_mod(&ident("greet", 1)).name, "__zmod_greet");
    assert_eq!(priv_mod(&ident("\u{c0}B", 1)).name, "__zmod_\u{e0}b");
}

#[test]
fn state_impl_names_the_companion_module_after_the_struct() {
    let plan = state_impl(&ident("Greeter", 4));
    assert_eq!(plan.struct_name, ident("Greeter", 4));
    assert_eq!(plan.priv_mod.name, "__zmod_greeter");
    assert_eq!(plan.priv_mod.span, Span::CallSite);
}

#[test]
fn builtin_args_do_not_depend_on_the_order_of_the_pairs() {
    let pairs = || {
        vec![
            pair("min", 1, int_lit("1", 2)),
            pair("max", 3, Expr::Neg { operand: Box::new(int_lit("2147483648", 5)), span: Span::At(4) }),
            pair("opts", 6, Expr::Lit(string("fl:", 7))),
        ]
    };
    let forward = BuiltinArgs::parse(AttrArgs { name: string("g", 0), pairs: pairs() }).unwrap();
    let mut reversed_pairs = pairs();
    reversed_pairs.reverse();
    let reversed = BuiltinArgs::parse(AttrArgs { name: string("g", 0), pairs: reversed_pairs }).unwrap();
    assert_eq!(forward, reversed);
    assert_eq!((forward.min, forward.max), (1, i32::MIN));
}
