use std::collections::VecDeque;
use miniextendr_api::from_r::{
    collect_coerced, from_numeric_vec_with, map_strsxp_with, map_vecsxp_with, scalar_charsxp,
    BatchedErrors, SexpError, SexpLengthError, SexpNaError, SexpTypeError, TryFromSexp,
    BATCHED_ERROR_CAP,
};
use miniextendr_api::sexp::{RLogical, Sexp, NA_INTEGER, NA_LOGICAL, SEXPTYPE};

fn chr(v: &[Option<&str>]) -> Sexp {
    Sexp::character(v.iter().map(|o| o.map(|s| s.to_string())).collect())
}

#[test]
fn i32_scalar_reads_and_refuses_na_type_and_length() {
    assert_eq!(i32::try_from_sexp(&Sexp::scalar_integer(42)).unwrap(), 42);
    assert!(matches!(
        i32::try_from_sexp(&Sexp::scalar_integer(NA_INTEGER)),
        Err(SexpError::Na(SexpNaError { sexp_type: SEXPTYPE::INTSXP }))
    ));
    assert!(matches!(
        i32::try_from_sexp(&Sexp::integer(vec![1, 2])),
        Err(SexpError::Length(SexpLengthError { expected: 1, actual: 2 }))
    ));
    assert!(matches!(
        i32::try_from_sexp(&Sexp::scalar_raw(1)),
        Err(SexpError::Type(SexpTypeError { expected: SEXPTYPE::INTSXP, actual: SEXPTYPE::RAWSXP }))
    ));
}

#[test]
fn u8_and_logical_scalars() {
    assert_eq!(u8::try_from_sexp(&Sexp::scalar_raw(200)).unwrap(), 200);
    assert!(u8::try_from_sexp(&Sexp::scalar_integer(200)).is_err());
    assert_eq!(RLogical::try_from_sexp(&Sexp::scalar_logical(1)).unwrap(), RLogical(1));
    assert!(RLogical::try_from_sexp(&Sexp::scalar_logical(NA_LOGICAL)).unwrap().is_na());
}

#[test]
fn strings_and_optional_strings() {
    assert_eq!(String::try_from_sexp(&chr(&[Some("hi")])).unwrap(), "hi");
    assert_eq!(String::try_from_sexp(&chr(&[None])).unwrap(), "");
    assert_eq!(Option::<String>::try_from_sexp(&chr(&[None])).unwrap(), None);
    assert_eq!(Option::<String>::try_from_sexp(&Sexp::nil()).unwrap(), None);
    assert_eq!(
        Option::<String>::try_from_sexp(&chr(&[Some("x")])).unwrap(),
        Some("x".to_string())
    );
    assert!(String::try_from_sexp(&chr(&[Some("a"), Some("b")])).is_err());
}

#[test]
fn char_needs_exactly_one_character() {
    assert_eq!(char::try_from_sexp(&chr(&[Some("z")])).unwrap(), 'z');
    assert!(char::try_from_sexp(&chr(&[Some("zz")])).is_err());
    assert!(char::try_from_sexp(&chr(&[Some("")])).is_err());
}

#[test]
fn string_vectors() {
    let s = chr(&[Some("a"), None, Some("c")]);
    assert_eq!(
        Vec::<Option<String>>::try_from_sexp(&s).unwrap(),
        vec![Some("a".to_string()), None, Some("c".to_string())]
    );
    assert_eq!(
        Vec::<String>::try_from_sexp(&chr(&[Some("a"), Some("b")])).unwrap(),
        vec!["a".to_string(), "b".to_string()]
    );
}

#[test]
fn result_of_null_is_err_unit() {
    assert!(matches!(
        Result::<i32, ()>::try_from_sexp(&Sexp::nil()),
        Ok(Err(()))
    ));
    assert!(matches!(
        Result::<i32, ()>::try_from_sexp(&Sexp::scalar_integer(5)),
        Ok(Ok(5))
    ));
}

#[test]
fn scalar_charsxp_checks_type_and_length() {
    let s = chr(&[Some("q")]);
    assert_eq!(scalar_charsxp(&s).unwrap(), &Some("q".to_string()));
    assert!(scalar_charsxp(&Sexp::scalar_integer(1)).is_err());
}

#[test]
fn error_messages() {
    let t = SexpError::Type(SexpTypeError { expected: SEXPTYPE::INTSXP, actual: SEXPTYPE::REALSXP });
    assert_eq!(t.to_string(), "type mismatch: expected INTSXP, got REALSXP");
    let l = SexpError::Length(SexpLengthError { expected: 1, actual: 3 });
    assert_eq!(l.to_string(), "length mismatch: expected 1, got 3");
    let n = SexpError::Na(SexpNaError { sexp_type: SEXPTYPE::LGLSXP });
    assert_eq!(n.to_string(), "unexpected NA value in LGLSXP");
    assert_eq!(SexpError::InvalidValue("bad".to_string()).to_string(), "invalid value: bad");
    assert_eq!(SexpError::MissingField("x".to_string()).to_string(), "missing field: x");
    assert_eq!(
        SexpError::DuplicateName("a\"b".to_string()).to_string(),
        "duplicate name in list: \"a\\\"b\""
    );
}

#[test]
fn batched_errors_keep_first_messages_and_count_the_rest() {
    let mut b = BatchedErrors::new();
    assert!(b.is_empty());
    for i in 0..(BATCHED_ERROR_CAP + 2) {
        b.push(|| format!("e{}", i));
    }
    assert!(!b.is_empty());
    let e = b.into_error("Vec<u8>");
    assert_eq!(
        e.to_string(),
        "invalid value: Vec<u8> conversion failed: e0; e1; e2; e3; e4; e5; e6; e7; e8; e9; and 2 more"
    );
}

#[test]
fn collect_coerced_all_ok_and_batched_failures() {
    let ok: Vec<Result<i32, SexpError>> = vec![Ok(1), Ok(2)];
    assert_eq!(collect_coerced("Vec<i32>", ok).unwrap(), vec![1, 2]);
    let bad: Vec<Result<i32, SexpError>> = vec![
        Ok(1),
        Err(SexpError::InvalidValue("x".to_string())),
        Err(SexpError::MissingField("y".to_string())),
    ];
    match collect_coerced("Vec<i32>", bad) {
        Err(SexpError::InvalidValue(m)) => {
            assert_eq!(
                m,
                "Vec<i32> conversion failed: invalid value at index 1: x; invalid value at index 2: missing field: y"
            );
        }
        other => panic!("unexpected {:?}", other),
    }
}

#[test]
fn map_strsxp_and_vecsxp() {
    let s = chr(&[Some("a"), None]);
    let lens = map_strsxp_with(&s, |o: &Option<String>, _i: usize| {
        Ok::<usize, SexpError>(o.as_ref().map(|t| t.len()).unwrap_or(0))
    })
    .unwrap();
    assert_eq!(lens, vec![1, 0]);
    assert!(map_strsxp_with(&Sexp::nil(), |_o: &Option<String>, _i: usize| Ok::<u8, SexpError>(0)).is_err());
    let l = Sexp::list(vec![Sexp::scalar_integer(3), Sexp::nil()]);
    let tys = map_vecsxp_with(&l, |_i: usize, e: &Sexp| Ok::<SEXPTYPE, SexpError>(e.type_of())).unwrap();
    assert_eq!(tys, vec![SEXPTYPE::INTSXP, SEXPTYPE::NILSXP]);
}

#[test]
fn numeric_vector_walk() {
    let v = from_numeric_vec_with(
        &Sexp::integer(vec![1, 2]),
        "Vec<i64>",
        |x: i32| Ok::<i64, SexpError>(x as i64),
        |b: u64| Ok(f64::from_bits(b) as i64),
        |x: u8| Ok(x as i64),
        |l: RLogical| Ok(l.to_i32() as i64),
    )
    .unwrap();
    assert_eq!(v, vec![1, 2]);
    let r = from_numeric_vec_with(
        &Sexp::real_bits(vec![2.5f64.to_bits()]),
        "Vec<i64>",
        |x: i32| Ok::<i64, SexpError>(x as i64),
        |b: u64| Ok(f64::from_bits(b) as i64),
        |x: u8| Ok(x as i64),
        |l: RLogical| Ok(l.to_i32() as i64),
    )
    .unwrap();
    assert_eq!(r, vec![2]);
    let e = from_numeric_vec_with(
        &chr(&[Some("1")]),
        "Vec<i64>",
        |x: i32| Ok::<i64, SexpError>(x as i64),
        |b: u64| Ok(f64::from_bits(b) as i64),
        |x: u8| Ok(x as i64),
        |l: RLogical| Ok(l.to_i32() as i64),
    );
    assert_eq!(
        e.unwrap_err().to_string(),
        "invalid value: expected integer, numeric, logical, or raw; got STRSXP"
    );
}

#[test]
fn objects_read_as_themselves() {
    let s = Sexp::list(vec![Sexp::scalar_integer(1)]);
    assert_eq!(Sexp::try_from_sexp(&s).unwrap(), s);
    assert_eq!(Option::<Sexp>::try_from_sexp(&Sexp::nil()).unwrap(), None);
    assert_eq!(Option::<Sexp>::try_from_sexp(&s).unwrap(), Some(s.deep_clone()));
}

#[test]
fn deques_and_optional_vectors() {
    assert_eq!(
        VecDeque::<i32>::try_from_sexp(&Sexp::integer(vec![1, 2])).unwrap(),
        VecDeque::from(vec![1, 2])
    );
    let e = VecDeque::<i32>::try_from_sexp(&Sexp::raw(vec![1])).unwrap_err();
    assert_eq!(e, SexpTypeError { expected: SEXPTYPE::INTSXP, actual: SEXPTYPE::RAWSXP });
    assert_eq!(
        VecDeque::<u8>::try_from_sexp(&Sexp::raw(vec![9])).unwrap(),
        VecDeque::from(vec![9u8])
    );
    assert!(VecDeque::<u8>::try_from_sexp(&Sexp::integer(vec![9])).is_err());
    assert_eq!(
        Option::<Vec<Option<String>>>::try_from_sexp(&chr(&[None, Some("q")])).unwrap(),
        Some(vec![None, Some("q".to_string())])
    );
    assert_eq!(Option::<Vec<Option<String>>>::try_from_sexp(&Sexp::nil()).unwrap(), None);
    assert!(Option::<Vec<String>>::try_from_sexp(&Sexp::scalar_integer(1)).is_err());
}

#[test]
fn nested_string_vectors_need_character_elements() {
    let l = Sexp::list(vec![chr(&[Some("a")]), chr(&[None])]);
    assert_eq!(
        Vec::<Vec<String>>::try_from_sexp(&l).unwrap(),
        vec![vec!["a".to_string()], vec!["".to_string()]]
    );
    let bad = Sexp::list(vec![chr(&[Some("a")]), Sexp::scalar_integer(1)]);
    assert!(matches!(
        Vec::<Vec<String>>::try_from_sexp(&bad),
        Err(SexpError::Type(SexpTypeError { expected: SEXPTYPE::STRSXP, actual: SEXPTYPE::INTSXP }))
    ));
    assert!(Vec::<Vec<String>>::try_from_sexp(&chr(&[Some("a")])).is_err());
}
