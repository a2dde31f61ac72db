use miniextendr_api::expression::{
    char_is_whitespace, parse_failure, r_error_message, trim_end, EvalAction, EvalProgress, ParseStatus, RCall, REnv,
    RSymbol,
};
use miniextendr_api::sexp::{Sexp, SEXPTYPE};

#[test]
fn renv_types_are_sized() {
    fn assert_sized<T: Sized>() {}
    assert_sized::<RSymbol>();
    assert_sized::<RCall>();
    assert_sized::<REnv>();
}

#[test]
fn renv_constructors_compile() {
    fn assert_env_fn<F: FnOnce() -> REnv>(_f: F) {}
    assert_env_fn(REnv::global);
    assert_env_fn(REnv::base);
    assert_env_fn(REnv::empty);
    assert_env_fn(REnv::base_namespace);
}

#[test]
fn environments_are_environment_objects() {
    assert_eq!(REnv::global().as_sexp().type_of(), SEXPTYPE::ENVSXP);
    assert_eq!(REnv::base_namespace().as_sexp().type_of(), SEXPTYPE::ENVSXP);
    let e = REnv::from_sexp(Sexp::opaque(SEXPTYPE::ENVSXP));
    assert_eq!(e.as_sexp(), &Sexp::opaque(SEXPTYPE::ENVSXP));
}

#[test]
fn symbols_and_calls() {
    let s = RSymbol::new("paste0");
    assert_eq!(s.as_sexp().symbol_name(), Some(&"paste0".to_string()));
    let c = RCall::new("paste0")
        .arg(Sexp::scalar_integer(1))
        .named_arg("sep", Sexp::character(vec![Some("-".to_string())]));
    assert_eq!(c.fun().symbol_name(), Some(&"paste0".to_string()));
    let args = c.args();
    assert_eq!(args.len(), 2);
    assert_eq!(args[0].0, None);
    assert_eq!(args[0].1, Sexp::scalar_integer(1));
    assert_eq!(args[1].0, Some("sep".to_string()));
    let f = RCall::from_sexp(Sexp::opaque(SEXPTYPE::CLOSXP));
    assert_eq!(f.fun().type_of(), SEXPTYPE::CLOSXP);
    assert!(f.args().is_empty());
}

#[test]
fn parse_failures_name_the_status_and_code() {
    assert_eq!(parse_failure(ParseStatus::PARSE_OK, "1"), None);
    assert_eq!(
        parse_failure(ParseStatus::PARSE_INCOMPLETE, "f(").unwrap(),
        "incomplete R expression (unbalanced delimiter?): f("
    );
    assert_eq!(
        parse_failure(ParseStatus::PARSE_ERROR, "1 +* 2").unwrap(),
        "R syntax error while parsing: 1 +* 2"
    );
    assert_eq!(
        parse_failure(ParseStatus::PARSE_EOF, "x").unwrap(),
        "unexpected end of input while parsing: x"
    );
    assert_eq!(
        parse_failure(ParseStatus::PARSE_NULL, "y").unwrap(),
        "R_ParseVector returned PARSE_NULL for: y"
    );
}

#[test]
fn trim_end_removes_trailing_unicode_whitespace_only() {
    assert_eq!(trim_end("Error: boom\n"), "Error: boom");
    assert_eq!(trim_end("  lead \t\r\n"), "  lead");
    assert_eq!(trim_end("x\u{3000}"), "x");
    assert_eq!(trim_end(""), "");
    assert_eq!(trim_end(" \n"), "");
    assert_eq!(trim_end("no-trailing"), "no-trailing");
    let once = trim_end("a b \n");
    assert_eq!(trim_end(&once), once);
}

#[test]
fn r_error_message_from_geterrmessage_result() {
    let m = Sexp::character(vec![Some("Error in f(): bad\n".to_string())]);
    assert_eq!(r_error_message(Some(&m)), "Error in f(): bad");
    assert_eq!(
        r_error_message(None),
        "R error occurred (could not retrieve message)"
    );
    assert_eq!(r_error_message(Some(&Sexp::scalar_integer(1))), "R error occurred");
    assert_eq!(
        r_error_message(Some(&Sexp::character(vec![None]))),
        "R error occurred"
    );
    assert_eq!(
        r_error_message(Some(&Sexp::character(vec![]))),
        "R error occurred"
    );
}

#[test]
fn fixed_environments_are_distinct_and_stable() {
    assert_eq!(REnv::base_namespace().as_sexp(), REnv::base_namespace().as_sexp());
    assert_ne!(REnv::base_namespace().as_sexp(), REnv::base().as_sexp());
    assert_ne!(REnv::global().as_sexp(), REnv::empty().as_sexp());
    assert_ne!(REnv::global().as_sexp(), REnv::base().as_sexp());
}

#[test]
fn symbols_of_one_name_are_one_object() {
    assert_eq!(RSymbol::new("x").as_sexp(), RSymbol::new("x").as_sexp());
    assert_ne!(RSymbol::new("x").as_sexp(), RSymbol::new("y").as_sexp());
}

#[test]
fn evaluation_runs_each_expression_in_order_and_stops_at_an_error() {
    let (_, a) = EvalProgress::start(0);
    assert_eq!(a, EvalAction::Finish);

    let (mut p, a) = EvalProgress::start(3);
    assert_eq!(a, EvalAction::Evaluate(0));
    assert_eq!(p.step(true), EvalAction::Evaluate(1));
    assert_eq!(p.step(true), EvalAction::Evaluate(2));
    assert_eq!(p.step(true), EvalAction::Finish);

    let (mut q, _) = EvalProgress::start(3);
    assert_eq!(q.step(true), EvalAction::Evaluate(1));
    assert_eq!(q.step(false), EvalAction::Fail);
}

#[test]
fn whitespace_test_agrees_with_std_on_every_char() {
    for n in 0u32..=0x10FFFF {
        if let Some(c) = char::from_u32(n) {
            assert_eq!(char_is_whitespace(c), c.is_whitespace(), "U+{:04X}", n);
        }
    }
    assert!(char_is_whitespace('\u{3000}'));
    assert!(!char_is_whitespace('\u{200B}'));
}
