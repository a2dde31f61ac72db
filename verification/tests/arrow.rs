use arrow_array::{Array, BooleanArray};
use miniextendr_api::from_r::{SexpError, TryFromSexp};
use miniextendr_api::into_r::IntoR;
use miniextendr_api::sexp::{Sexp, SEXPTYPE, NA_LOGICAL};

#[test]
fn logical_vector_becomes_boolean_array_with_na_as_null() {
    let s = Sexp::logical(vec![1, 0, NA_LOGICAL, 5]);
    let a = BooleanArray::try_from_sexp(&s).expect("logical vectors convert");
    assert_eq!(a.len(), 4);
    assert!(a.value(0));
    assert!(!a.value(1));
    assert!(a.is_null(2));
    assert!(a.value(3));
    assert_eq!(a.null_count(), 1);
}

#[test]
fn non_logical_is_refused_with_type_error() {
    let s = Sexp::integer(vec![1]);
    match BooleanArray::try_from_sexp(&s) {
        Err(SexpError::Type(e)) => {
            assert_eq!(e.expected, SEXPTYPE::LGLSXP);
            assert_eq!(e.actual, SEXPTYPE::INTSXP);
        }
        other => panic!("expected a type error, got {:?}", other.map(|a| a.len())),
    }
}

#[test]
fn boolean_array_becomes_logical_vector() {
    let a = BooleanArray::from(vec![Some(true), None, Some(false)]);
    let s = a.into_sexp();
    assert_eq!(s.type_of(), SEXPTYPE::LGLSXP);
    assert_eq!(s.int_slice(), &[1, NA_LOGICAL, 0]);
}

#[test]
fn empty_logical_round_trips() {
    let s = Sexp::logical(Vec::new());
    let a = BooleanArray::try_from_sexp(&s).unwrap();
    assert_eq!(a.len(), 0);
    assert_eq!(a.into_sexp(), Sexp::logical(Vec::new()));
}

#[test]
fn logical_round_trip_writes_true_as_one() {
    let s = Sexp::logical(vec![7, 0, NA_LOGICAL]);
    let back = BooleanArray::try_from_sexp(&s).unwrap().into_sexp();
    assert_eq!(back.int_slice(), &[1, 0, NA_LOGICAL]);
}
