use miniextendr_api::cached_class::{
    condition_names_sexp, data_frame_class_sexp, date_class_sexp, posixct_class_sexp,
    rust_condition_class_sexp, set_posixct_tz, set_posixct_utc,
};
use miniextendr_api::sexp::{RLogical, Sexp, NA_LOGICAL, SEXPTYPE};
use miniextendr_api::text::{join_strs, hex16_string, i64_to_string, u64_to_string, usize_to_string};

fn chr(v: &[&str]) -> Sexp {
    Sexp::character(v.iter().map(|s| Some(s.to_string())).collect())
}

#[test]
fn class_vectors() {
    assert_eq!(posixct_class_sexp(), chr(&["POSIXct", "POSIXt"]));
    assert_eq!(date_class_sexp(), chr(&["Date"]));
    assert_eq!(data_frame_class_sexp(), chr(&["data.frame"]));
    assert_eq!(rust_condition_class_sexp(), chr(&["rust_condition_value"]));
    assert_eq!(
        condition_names_sexp(),
        chr(&["error", "kind", "class", "call", "data"])
    );
}

#[test]
fn posixct_marking_sets_class_and_time_zone_only() {
    let mut s = Sexp::real_bits(vec![0]);
    s.set_attr("names", chr(&["t"]));
    set_posixct_utc(&mut s);
    assert_eq!(s.get_attr("class"), Some(&chr(&["POSIXct", "POSIXt"])));
    assert_eq!(s.get_attr("tzone"), Some(&chr(&["UTC"])));
    assert_eq!(s.get_attr("names"), Some(&chr(&["t"])));
    set_posixct_tz(&mut s, "Europe/Paris");
    assert_eq!(s.get_attr("tzone"), Some(&chr(&["Europe/Paris"])));
    assert_eq!(s.real_slice(), &[0]);
}

#[test]
fn attributes_set_replace_and_remove() {
    let mut s = Sexp::integer(vec![1]);
    assert!(s.get_attr("dim").is_none());
    s.set_attr("dim", Sexp::integer(vec![1, 1]));
    s.set_attr("dim", Sexp::integer(vec![1]));
    assert_eq!(s.get_attr("dim"), Some(&Sexp::integer(vec![1])));
    s.set_attr("dim", Sexp::nil());
    assert!(s.get_attr("dim").is_none());
}

#[test]
fn constructors_and_accessors() {
    let s = Sexp::logical(vec![1, NA_LOGICAL]);
    assert_eq!(s.type_of(), SEXPTYPE::LGLSXP);
    assert_eq!(s.xlength(), 2);
    assert!(Sexp::nil().is_nil());
    assert!(Sexp::list(vec![]).is_list());
    assert_eq!(Sexp::opaque(SEXPTYPE::ENVSXP).xlength(), 1);
    assert_eq!(Sexp::symbol("x".to_string()).symbol_name(), Some(&"x".to_string()));
    assert_eq!(SEXPTYPE::STRSXP.name(), "STRSXP");
    assert!(RLogical::na().is_na());
    assert_eq!(RLogical::from_bool(true), RLogical::r_true());
    assert_eq!(RLogical::from_bool(false).to_i32(), 0);
}

#[test]
fn deep_clone_copies_everything() {
    let mut s = Sexp::list(vec![chr(&["a"]), Sexp::scalar_integer(2)]);
    s.set_attr("names", chr(&["x", "y"]));
    let c = s.deep_clone();
    assert_eq!(c, s);
    assert_eq!(c.elem_name(1), Some(&"y".to_string()));
    assert!(c.elem_name(2).is_none());
}

#[test]
fn list_elements_are_replaced_in_place() {
    let mut s = Sexp::list(vec![Sexp::nil()]);
    s.set_elem(0, Sexp::scalar_raw(3));
    assert_eq!(s.elem_slice(), &[Sexp::scalar_raw(3)]);
    let p = Sexp::pairlist(vec![Sexp::scalar_raw(1)]).into_vecsxp();
    assert_eq!(p.type_of(), SEXPTYPE::VECSXP);
}

#[test]
fn number_rendering() {
    assert_eq!(usize_to_string(0), "0");
    assert_eq!(usize_to_string(4096), "4096");
    assert_eq!(u64_to_string(u64::MAX), "18446744073709551615");
    assert_eq!(i64_to_string(-42), "-42");
    assert_eq!(i64_to_string(i64::MIN), "-9223372036854775808");
    assert_eq!(hex16_string(0xdead_beef), "00000000deadbeef");
    assert_eq!(hex16_string(u64::MAX), "ffffffffffffffff");
    assert_eq!(join_strs("ab", "cd"), "abcd");
}
