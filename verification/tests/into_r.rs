use miniextendr_api::into_r::{vec_of_into_r_to_list, vec_option_of_into_r_to_list, IntoR};
use miniextendr_api::sexp::{RLogical, Sexp, NA_INTEGER, NA_LOGICAL, SEXPTYPE};

fn chr(v: &[Option<&str>]) -> Sexp {
    Sexp::character(v.iter().map(|o| o.map(|s| s.to_string())).collect())
}

#[test]
fn scalars_become_length_one_vectors() {
    assert_eq!(5i32.into_sexp(), Sexp::integer(vec![5]));
    assert_eq!(7u8.into_sexp(), Sexp::raw(vec![7]));
    assert_eq!((-3i8).into_sexp(), Sexp::integer(vec![-3]));
    assert_eq!(300i16.into_sexp(), Sexp::integer(vec![300]));
    assert_eq!(65535u16.into_sexp(), Sexp::integer(vec![65535]));
    assert_eq!(().into_sexp(), Sexp::nil());
    let s = Sexp::scalar_raw(1);
    assert_eq!(s.into_sexp(), Sexp::scalar_raw(1));
}

#[test]
fn integer_and_raw_vectors() {
    assert_eq!(vec![1i32, NA_INTEGER].into_sexp(), Sexp::integer(vec![1, NA_INTEGER]));
    assert_eq!((&[4i32, 5][..]).into_sexp(), Sexp::integer(vec![4, 5]));
    assert_eq!(vec![1u8, 2].into_sexp(), Sexp::raw(vec![1, 2]));
    assert_eq!((&[9u8][..]).into_sexp(), Sexp::raw(vec![9]));
    assert_eq!(vec![-1i8, 2].into_sexp(), Sexp::integer(vec![-1, 2]));
    assert_eq!(vec![-1i16].into_sexp(), Sexp::integer(vec![-1]));
    assert_eq!(vec![40000u16].into_sexp(), Sexp::integer(vec![40000]));
}

#[test]
fn logical_vectors() {
    assert_eq!(vec![true, false].into_sexp(), Sexp::logical(vec![1, 0]));
    assert_eq!((&[false][..]).into_sexp(), Sexp::logical(vec![0]));
    assert_eq!(
        vec![Some(true), None, Some(false)].into_sexp(),
        Sexp::logical(vec![1, NA_LOGICAL, 0])
    );
    assert_eq!(
        vec![RLogical(1), RLogical(NA_LOGICAL)].into_sexp(),
        Sexp::logical(vec![1, NA_LOGICAL])
    );
}

#[test]
fn optional_integers_use_na() {
    assert_eq!(
        vec![Some(3i32), None].into_sexp(),
        Sexp::integer(vec![3, NA_INTEGER])
    );
    assert_eq!(Some(vec![1i32]).into_sexp(), Sexp::integer(vec![1]));
    assert_eq!(Option::<Vec<i32>>::None.into_sexp(), Sexp::nil());
}

#[test]
fn character_vectors() {
    assert_eq!(
        vec!["a".to_string(), "b".to_string()].into_sexp(),
        chr(&[Some("a"), Some("b")])
    );
    assert_eq!(vec!["x", "y"].into_sexp(), chr(&[Some("x"), Some("y")]));
    assert_eq!((&["q"][..]).into_sexp(), chr(&[Some("q")]));
    let owned = vec!["o".to_string()];
    assert_eq!((&owned[..]).into_sexp(), chr(&[Some("o")]));
    assert_eq!(
        vec![Some("a".to_string()), None].into_sexp(),
        chr(&[Some("a"), None])
    );
    assert_eq!(vec![None, Some("z")].into_sexp(), chr(&[None, Some("z")]));
    assert_eq!(
        Some(vec!["s".to_string()]).into_sexp(),
        chr(&[Some("s")])
    );
    assert_eq!(Option::<Vec<String>>::None.into_sexp(), Sexp::nil());
}

#[test]
fn tuples_become_lists() {
    let s = (1i32, 2u8).into_sexp();
    assert_eq!(s, Sexp::list(vec![Sexp::integer(vec![1]), Sexp::raw(vec![2])]));
    let t = (1i32, (), vec![true]).into_sexp();
    assert_eq!(t.type_of(), SEXPTYPE::VECSXP);
    assert_eq!(t.xlength(), 3);
}

#[test]
fn nested_vectors_become_lists() {
    let s = vec![vec![1i32, 2], vec![]].into_sexp();
    assert_eq!(
        s,
        Sexp::list(vec![Sexp::integer(vec![1, 2]), Sexp::integer(vec![])])
    );
    let t = vec![vec!["a".to_string()]].into_sexp();
    assert_eq!(t, Sexp::list(vec![chr(&[Some("a")])]));
}

#[test]
fn lists_of_converted_values() {
    assert_eq!(
        vec_of_into_r_to_list(vec![1i32, 2]),
        Sexp::list(vec![Sexp::integer(vec![1]), Sexp::integer(vec![2])])
    );
    assert_eq!(
        vec_option_of_into_r_to_list(vec![Some(1u8), None]),
        Sexp::list(vec![Sexp::raw(vec![1]), Sexp::nil()])
    );
}

#[test]
fn boxed_slices_arrays_and_deques_convert_like_vectors() {
    let b: Box<[i32]> = vec![1, 2].into_boxed_slice();
    assert_eq!(b.into_sexp(), Sexp::integer(vec![1, 2]));
    let r: Box<[u8]> = vec![3u8].into_boxed_slice();
    assert_eq!(r.into_sexp(), Sexp::raw(vec![3]));
    let l: Box<[bool]> = vec![true].into_boxed_slice();
    assert_eq!(l.into_sexp(), Sexp::logical(vec![1]));
    let s: Box<[String]> = vec!["k".to_string()].into_boxed_slice();
    assert_eq!(s.into_sexp(), chr(&[Some("k")]));
    assert_eq!([7i32, 8, 9].into_sexp(), Sexp::integer(vec![7, 8, 9]));
    assert_eq!([0xabu8; 2].into_sexp(), Sexp::raw(vec![0xab, 0xab]));
    let mut d = std::collections::VecDeque::new();
    d.push_back(2i32);
    d.push_front(1i32);
    assert_eq!(d.into_sexp(), Sexp::integer(vec![1, 2]));
    let mut e = std::collections::VecDeque::new();
    e.push_back(5u8);
    assert_eq!(e.into_sexp(), Sexp::raw(vec![5]));
}

#[test]
fn lists_of_slices_boxes_arrays_and_options() {
    let a = [1i32, 2];
    let b = [3i32];
    assert_eq!(
        vec![&a[..], &b[..]].into_sexp(),
        Sexp::list(vec![Sexp::integer(vec![1, 2]), Sexp::integer(vec![3])])
    );
    let names = vec!["x".to_string()];
    assert_eq!(
        vec![&names[..]].into_sexp(),
        Sexp::list(vec![chr(&[Some("x")])])
    );
    let boxed: Vec<Box<[i32]>> = vec![vec![4].into_boxed_slice()];
    assert_eq!(boxed.into_sexp(), Sexp::list(vec![Sexp::integer(vec![4])]));
    let boxed_s: Vec<Box<[String]>> = vec![vec!["y".to_string()].into_boxed_slice()];
    assert_eq!(boxed_s.into_sexp(), Sexp::list(vec![chr(&[Some("y")])]));
    assert_eq!(
        vec![[1i32, 2], [3, 4]].into_sexp(),
        Sexp::list(vec![Sexp::integer(vec![1, 2]), Sexp::integer(vec![3, 4])])
    );
    assert_eq!(
        vec![Some(vec![1i32]), None].into_sexp(),
        Sexp::list(vec![Sexp::integer(vec![1]), Sexp::nil()])
    );
    assert_eq!(
        vec![None, Some(vec!["z".to_string()])].into_sexp(),
        Sexp::list(vec![Sexp::nil(), chr(&[Some("z")])])
    );
}

#[test]
fn narrow_integers_widen_with_na_for_none() {
    assert_eq!((&[-1i8, 2][..]).into_sexp(), Sexp::integer(vec![-1, 2]));
    assert_eq!((&[i16::MIN][..]).into_sexp(), Sexp::integer(vec![-32768]));
    assert_eq!((&[u16::MAX][..]).into_sexp(), Sexp::integer(vec![65535]));
    assert_eq!(
        vec![Some(-5i8), None].into_sexp(),
        Sexp::integer(vec![-5, NA_INTEGER])
    );
    assert_eq!(
        vec![None, Some(300i16)].into_sexp(),
        Sexp::integer(vec![NA_INTEGER, 300])
    );
    assert_eq!(
        vec![Some(7u16)].into_sexp(),
        Sexp::integer(vec![7])
    );
    assert_eq!(
        vec![Some(RLogical(0)), None, Some(RLogical(1))].into_sexp(),
        Sexp::logical(vec![0, NA_LOGICAL, 1])
    );
}
