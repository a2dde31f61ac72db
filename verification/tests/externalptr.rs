use miniextendr_api::externalptr::{
    check_stored_type, clone_for_consuming, handle_downcast_failed, not_a_handle_error,
    stored_type_name, type_mismatch_to_sexp_error, ExternalSlice, TypeMismatchError,
    TypedExternal, PROT_TYPE_ID_INDEX, PROT_USER_INDEX, PROT_VEC_LEN,
};
use miniextendr_api::sexp::{Sexp, SEXPTYPE};

struct Counter;

impl TypedExternal for Counter {
    const TYPE_NAME: &'static str = "Counter";
    const TYPE_ID: &'static str = "demo@0.1::Counter";
}

fn prot_with(id: &str) -> Sexp {
    Sexp::list(vec![Sexp::symbol(id.to_string()), Sexp::nil()])
}

#[test]
fn protected_list_layout() {
    assert_eq!(PROT_TYPE_ID_INDEX, 0);
    assert_eq!(PROT_USER_INDEX, 1);
    assert_eq!(PROT_VEC_LEN, 2);
}

#[test]
fn stored_type_name_reads_the_symbol_in_the_first_slot() {
    assert_eq!(
        stored_type_name(&prot_with("demo@0.1::Counter")),
        Some(&"demo@0.1::Counter".to_string())
    );
    assert!(stored_type_name(&Sexp::nil()).is_none());
    assert!(stored_type_name(&Sexp::list(vec![Sexp::symbol("x".to_string())])).is_none());
    assert!(stored_type_name(&Sexp::list(vec![Sexp::nil(), Sexp::nil()])).is_none());
}

#[test]
fn check_stored_type_outcomes() {
    let prot = prot_with("other::Thing");
    assert!(matches!(
        check_stored_type(true, false, true, &prot, "Counter"),
        Err(TypeMismatchError::NullPointer)
    ));
    assert!(check_stored_type(false, true, false, &prot, "()").is_ok());
    assert!(check_stored_type(false, false, true, &prot, "Counter").is_ok());
    match check_stored_type(false, false, false, &prot, "Counter") {
        Err(TypeMismatchError::Mismatch { expected, found }) => {
            assert_eq!(expected, "Counter");
            assert_eq!(found, "other::Thing");
        }
        other => panic!("unexpected {:?}", other),
    }
    match check_stored_type(false, false, false, &Sexp::nil(), "Counter") {
        Err(e) => assert_eq!(
            e.to_string(),
            "type mismatch: expected `Counter`, found `<unknown>`"
        ),
        Ok(()) => panic!("mismatch accepted"),
    }
}

#[test]
fn mismatch_errors_as_conversion_errors() {
    assert_eq!(
        type_mismatch_to_sexp_error(TypeMismatchError::NullPointer).to_string(),
        "invalid value: external pointer is null"
    );
    assert_eq!(
        TypeMismatchError::InvalidTypeId.to_string(),
        "external pointer has no valid type id"
    );
    assert_eq!(
        not_a_handle_error(SEXPTYPE::INTSXP).to_string(),
        "invalid value: expected an external pointer or a miniextendr class object wrapping one, got INTSXP"
    );
}

#[test]
fn downcast_failure_messages() {
    assert_eq!(
        handle_downcast_failed::<Counter>(false, Some("x::Y")),
        "expected ExternalPtr<Counter>, found `x::Y`"
    );
    assert_eq!(
        handle_downcast_failed::<Counter>(false, None),
        "expected ExternalPtr<Counter>, found `<unknown>`"
    );
    assert_eq!(
        handle_downcast_failed::<Counter>(true, None),
        "this `Counter` object was consumed by a `self`-by-value method that did not return a new value (it returned a plain result or panicked) and can no longer be used"
    );
}

#[test]
fn clone_for_consuming_clones() {
    let v = vec![1, 2, 3];
    assert_eq!(clone_for_consuming(&v), v);
}

#[test]
fn external_slices_keep_elements_and_capacity() {
    let mut v = Vec::with_capacity(10);
    v.extend_from_slice(&[1u8, 2, 3]);
    let s = ExternalSlice::new(v);
    assert_eq!(s.as_slice(), &[1, 2, 3]);
    assert_eq!(s.len(), 3);
    assert!(!s.is_empty());
    assert!(s.capacity() >= 10);
    let b = ExternalSlice::from_boxed(vec![4u16, 5].into_boxed_slice());
    assert_eq!(b.as_slice(), &[4, 5]);
    assert_eq!(b.capacity(), 2);
    let e: ExternalSlice<i32> = ExternalSlice::new(Vec::new());
    assert!(e.is_empty());
}
