use miniextendr_api::from_r::TryFromSexp;
use miniextendr_api::into_r::IntoR;
use miniextendr_api::list::{IntoList, List, ListBuilder, ListFromSexpError, ListMut, TryFromList};
use miniextendr_api::sexp::{Sexp, NA_INTEGER, SEXPTYPE};

fn chr(v: &[&str]) -> Sexp {
    Sexp::character(v.iter().map(|s| Some(s.to_string())).collect())
}

#[test]
fn from_raw_pairs_names_elements_and_looks_up_first_name() {
    let l = List::from_raw_pairs(vec![
        ("a".to_string(), Sexp::scalar_integer(1)),
        ("b".to_string(), Sexp::scalar_integer(2)),
        ("a".to_string(), Sexp::scalar_integer(3)),
    ]);
    assert_eq!(l.len(), 3);
    assert_eq!(l.names(), Some(&chr(&["a", "b", "a"])));
    assert_eq!(l.get_named_sexp("a"), Some(&Sexp::scalar_integer(1)));
    assert_eq!(l.get_named::<i32>("b"), Some(2));
    assert!(l.get_named_sexp("c").is_none());
}

#[test]
fn get_and_get_index_bounds() {
    let l = List::from_raw_values(vec![Sexp::scalar_integer(7), chr(&["x"])]);
    assert_eq!(l.get(0), Some(&Sexp::scalar_integer(7)));
    assert!(l.get(2).is_none());
    assert!(l.get(-1).is_none());
    assert_eq!(l.get_index::<i32>(0), Some(7));
    assert_eq!(l.get_index::<i32>(1), None);
    assert_eq!(l.get_index::<String>(1), Some("x".to_string()));
    assert!(!l.is_empty());
    assert!(l.is_list());
}

#[test]
fn set_elt_replaces_one_element() {
    let mut l = List::from_raw_values(vec![Sexp::nil(), Sexp::nil()]);
    l.set_elt(1, Sexp::scalar_raw(9));
    assert_eq!(l.get(1), Some(&Sexp::scalar_raw(9)));
    assert_eq!(l.get(0), Some(&Sexp::nil()));
    let mut called = false;
    l.set_elt_with(0, || {
        called = true;
        Sexp::scalar_integer(4)
    });
    assert!(called);
    assert_eq!(l.get(0), Some(&Sexp::scalar_integer(4)));
}

#[test]
fn attribute_setters_and_getters() {
    let l = List::from_raw_values(vec![Sexp::nil()])
        .set_class_str(&["foo", "bar"])
        .set_names_str(&["only"]);
    assert_eq!(l.get_class(), Some(&chr(&["foo", "bar"])));
    assert_eq!(l.names(), Some(&chr(&["only"])));
    let l = l.set_data_frame_class().set_row_names_int(3);
    assert_eq!(l.get_class(), Some(&chr(&["data.frame"])));
    assert_eq!(
        l.as_sexp().get_attr("row.names"),
        Some(&Sexp::integer(vec![NA_INTEGER, -3]))
    );
    let l = l.set_names(Sexp::nil());
    assert!(l.names().is_none());
    let l = l.set_row_names_str(&["r1"]);
    assert_eq!(l.as_sexp().get_attr("row.names"), Some(&chr(&["r1"])));
}

#[test]
fn dimnames_give_row_and_column_names() {
    let dimnames = Sexp::list(vec![chr(&["r"]), chr(&["c1", "c2"])]);
    let l = List::from_raw_values(vec![]).set_dimnames(dimnames);
    assert_eq!(l.get_rownames(), Some(&chr(&["r"])));
    assert_eq!(l.get_colnames(), Some(&chr(&["c1", "c2"])));
    let none = List::from_raw_values(vec![]);
    assert!(none.get_rownames().is_none());
    let partial = List::from_raw_values(vec![])
        .set_dimnames(Sexp::list(vec![Sexp::nil(), chr(&["c"])]));
    assert!(partial.get_rownames().is_none());
    assert_eq!(partial.get_colnames(), Some(&chr(&["c"])));
}

#[test]
fn from_pairs_and_from_values_convert_elements() {
    let l = List::from_pairs(vec![("x".to_string(), 5i32), ("y".to_string(), 6i32)]);
    assert_eq!(l.get_named::<i32>("y"), Some(6));
    let v = List::from_values(vec![1u8, 2u8]);
    assert_eq!(v.get(1), Some(&Sexp::scalar_raw(2)));
    let empty = List::from_raw_pairs_empty();
    assert_eq!(empty.len(), 0);
    assert!(empty.is_empty());
}

#[test]
fn scalars_of_one_type_are_gathered() {
    let r = List::from_scalars_or_list(vec![Sexp::scalar_integer(1), Sexp::scalar_integer(2)]);
    assert_eq!(r, Sexp::integer(vec![1, 2]));
    let s = List::from_scalars_or_list(vec![chr(&["a"]), chr(&["b"])]);
    assert_eq!(s, chr(&["a", "b"]));
    let mixed = List::from_scalars_or_list(vec![Sexp::scalar_integer(1), chr(&["b"])]);
    assert_eq!(mixed.type_of(), SEXPTYPE::VECSXP);
    assert_eq!(mixed.xlength(), 2);
    let raws = List::from_scalars_or_list(vec![Sexp::scalar_raw(1)]);
    assert_eq!(raws.type_of(), SEXPTYPE::VECSXP);
    assert_eq!(List::from_scalars_or_list(vec![]).type_of(), SEXPTYPE::VECSXP);
}

#[test]
fn list_builder_fills_slots() {
    let mut b = ListBuilder::new(2);
    assert_eq!(b.len(), 2);
    assert!(!b.is_empty());
    assert_eq!(b.as_sexp(), &Sexp::list(vec![Sexp::nil(), Sexp::nil()]));
    b.set(1, Sexp::scalar_integer(3));
    let l = b.into_list();
    assert_eq!(l.get(1), Some(&Sexp::scalar_integer(3)));
    assert!(ListBuilder::new(0).is_empty());
}

#[test]
fn into_list_and_try_from_list() {
    let l = vec![1i32, 2, 3].into_list();
    assert_eq!(l.len(), 3);
    let back: Vec<i32> = Vec::<i32>::try_from_list(l).unwrap();
    assert_eq!(back, vec![1, 2, 3]);
    let bad = List::from_raw_values(vec![Sexp::scalar_integer(1), chr(&["x"])]);
    assert!(Vec::<i32>::try_from_list(bad).is_err());
}

#[test]
fn list_from_sexp_rejects_duplicate_names_and_other_types() {
    let dup = List::from_raw_pairs(vec![
        ("a".to_string(), Sexp::nil()),
        ("a".to_string(), Sexp::nil()),
    ])
    .into_sexp();
    match List::try_from_sexp(&dup) {
        Err(ListFromSexpError::DuplicateName(e)) => {
            assert_eq!(e.name, "a");
        }
        other => panic!("expected duplicate name, got {:?}", other.map(|l| l.len())),
    }
    let err = List::try_from_sexp(&dup).unwrap_err();
    assert_eq!(err.to_string(), "list has duplicate name: \"a\"");
    let blank = List::from_raw_pairs(vec![
        ("".to_string(), Sexp::nil()),
        ("".to_string(), Sexp::nil()),
    ])
    .into_sexp();
    assert!(List::try_from_sexp(&blank).is_ok());
    assert!(matches!(
        List::try_from_sexp(&Sexp::scalar_integer(1)),
        Err(ListFromSexpError::Type(_))
    ));
    let pl = Sexp::pairlist(vec![Sexp::scalar_integer(1)]);
    let l = List::try_from_sexp(&pl).unwrap();
    assert_eq!(l.as_sexp().type_of(), SEXPTYPE::VECSXP);
    assert_eq!(l.get(0), Some(&Sexp::scalar_integer(1)));
}

#[test]
fn optional_lists_and_list_mut() {
    assert!(Option::<List>::try_from_sexp(&Sexp::nil()).unwrap().is_none());
    let mut m = ListMut::try_from_sexp(&Sexp::list(vec![Sexp::nil()])).unwrap();
    m.set_elt(0, Sexp::scalar_raw(1));
    assert_eq!(m.as_sexp(), &Sexp::list(vec![Sexp::scalar_raw(1)]));
    assert!(Option::<ListMut>::try_from_sexp(&Sexp::nil()).unwrap().is_none());
    let s = m.into_sexp();
    assert_eq!(s, Sexp::list(vec![Sexp::scalar_raw(1)]));
}

#[test]
fn list_round_trip_keeps_the_list() {
    let l = List::from_raw_pairs(vec![
        ("a".to_string(), Sexp::scalar_integer(1)),
        ("b".to_string(), chr(&["z"])),
    ]);
    let s = l.into_sexp();
    let back = List::try_from_sexp(&s).unwrap();
    assert_eq!(back.as_sexp(), &s);
}

#[test]
fn from_values_is_an_unnamed_list() {
    let l = List::from_values(vec![1i32, 2, 3]);
    assert!(l.is_list());
    assert_eq!(l.len(), 3);
    assert_eq!(l.get_index::<i32>(0), Some(1));
    assert_eq!(l.get_index::<i32>(2), Some(3));
    assert_eq!(l.get_index::<i32>(3), None);
    assert!(l.names().is_none());
    assert_eq!(
        l.get_index::<i32>(1),
        l.get(1).and_then(|s| i32::try_from_sexp(s).ok())
    );
}

#[test]
fn a_pairlist_read_as_a_list_keeps_its_tags_as_names() {
    let mut p = Sexp::pairlist(vec![Sexp::scalar_integer(1), Sexp::scalar_integer(2)]);
    p.set_attr("names", chr(&["a", "b"]));
    let l = List::try_from_sexp(&p).expect("list");
    assert!(l.is_list());
    assert_eq!(l.names(), Some(&chr(&["a", "b"])));
    assert_eq!(l.get_named::<i32>("b"), Some(2));
}
