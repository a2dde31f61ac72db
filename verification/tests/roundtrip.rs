use std::collections::VecDeque;
use miniextendr_api::from_r::{SexpError, TryFromSexp};
use miniextendr_api::into_r::IntoR;
use miniextendr_api::sexp::NA_INTEGER;

#[test]
fn integers_read_back() {
    assert_eq!(i32::try_from_sexp(&123i32.into_sexp()).unwrap(), 123);
    assert_eq!(i32::try_from_sexp(&i32::MAX.into_sexp()).unwrap(), i32::MAX);
    assert!(matches!(
        i32::try_from_sexp(&NA_INTEGER.into_sexp()),
        Err(SexpError::Na(_))
    ));
    assert_eq!(i32::try_from_sexp(&(-128i8).into_sexp()).unwrap(), -128);
    assert_eq!(i32::try_from_sexp(&i16::MIN.into_sexp()).unwrap(), -32768);
    assert_eq!(i32::try_from_sexp(&u16::MAX.into_sexp()).unwrap(), 65535);
}

#[test]
fn bytes_read_back() {
    assert_eq!(u8::try_from_sexp(&255u8.into_sexp()).unwrap(), 255);
}

#[test]
fn strings_read_back() {
    let v = vec!["α".to_string(), String::new(), "z".to_string()];
    assert_eq!(Vec::<String>::try_from_sexp(&v.clone().into_sexp()).unwrap(), v);
    let o = vec![None, Some("x".to_string())];
    assert_eq!(
        Vec::<Option<String>>::try_from_sexp(&o.clone().into_sexp()).unwrap(),
        o
    );
}

#[test]
fn deques_read_back() {
    let d: VecDeque<i32> = VecDeque::from(vec![3, NA_INTEGER, 5]);
    let back = VecDeque::<i32>::try_from_sexp(&d.clone().into_sexp()).unwrap();
    assert_eq!(back, d);
    let b: VecDeque<u8> = VecDeque::from(vec![0u8, 255]);
    assert_eq!(VecDeque::<u8>::try_from_sexp(&b.clone().into_sexp()).unwrap(), b);
}

#[test]
fn optional_and_nested_strings_read_back() {
    let some = Some(vec!["a".to_string()]);
    assert_eq!(
        Option::<Vec<String>>::try_from_sexp(&some.clone().into_sexp()).unwrap(),
        some
    );
    let none: Option<Vec<String>> = None;
    assert_eq!(Option::<Vec<String>>::try_from_sexp(&none.into_sexp()).unwrap(), None);
    let nested = vec![vec!["x".to_string(), "y".to_string()], vec![]];
    assert_eq!(
        Vec::<Vec<String>>::try_from_sexp(&nested.clone().into_sexp()).unwrap(),
        nested
    );
}
