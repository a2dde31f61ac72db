use miniextendr_api::into_r::IntoR;
use miniextendr_api::sexp::{Sexp, SEXPTYPE};
use std::collections::{BTreeSet, HashSet};

#[test]
fn btree_sets_become_increasing_integer_vectors() {
    let s: BTreeSet<i8> = [3i8, -1, 2].into_iter().collect();
    assert_eq!(s.into_sexp(), Sexp::integer(vec![-1, 2, 3]));
    let t: BTreeSet<u16> = [65535u16, 0].into_iter().collect();
    assert_eq!(t.into_sexp(), Sexp::integer(vec![0, 65535]));
    let e: BTreeSet<i16> = BTreeSet::new();
    assert_eq!(e.into_sexp(), Sexp::integer(vec![]));
}

#[test]
fn hash_sets_hold_each_element_once() {
    let s: HashSet<i16> = [5i16, -7, 5, 9].into_iter().collect();
    let r = s.into_sexp();
    assert_eq!(r.type_of(), SEXPTYPE::INTSXP);
    let mut got = r.int_slice().to_vec();
    got.sort();
    assert_eq!(got, vec![-7, 5, 9]);
    let u: HashSet<u16> = [1u16].into_iter().collect();
    assert_eq!(u.into_sexp(), Sexp::integer(vec![1]));
    let b: HashSet<i8> = HashSet::new();
    assert_eq!(b.into_sexp().xlength(), 0);
}
