use arrow_array::cast::AsArray;
use arrow_array::types::{Int32Type, TimestampSecondType};
use arrow_array::{Array, Date32Array, Float64Array, Int32Array, StringArray, UInt8Array};
use arrow_schema::DataType;
use miniextendr_api::arrow_frame::{
    array_from_sexp, column_kind, float64_array_from_sexp, int32_array_from_sexp,
    record_batch_from_sexp, sexp_column_to_arrow, string_array_from_sexp,
    string_dictionary_from_sexp, uint8_array_from_sexp, ColumnKind, TimeValues,
};
use miniextendr_api::arrow_to_r::{data_frame_of, date_vector, record_batch_to_r, RColumnPlan};
use miniextendr_api::from_r::SexpError;
use miniextendr_api::sexp::{Sexp, NA_INTEGER, NA_REAL_BITS, SEXPTYPE};

fn chr(v: &[&str]) -> Sexp {
    Sexp::character(v.iter().map(|s| Some(s.to_string())).collect())
}

fn classed(mut s: Sexp, class: &[&str]) -> Sexp {
    s.set_attr("class", chr(class));
    s
}

fn factor(codes: Vec<i32>, levels: &[&str]) -> Sexp {
    let mut f = classed(Sexp::integer(codes), &["factor"]);
    f.set_attr("levels", chr(levels));
    f
}

fn invalid_text(e: SexpError) -> String {
    match e {
        SexpError::InvalidValue(m) => m,
        other => panic!("expected an invalid value, got {}", other.to_string()),
    }
}

#[test]
fn column_kinds_go_by_class_then_type() {
    assert_eq!(column_kind(&factor(vec![1], &["a"])).unwrap(), ColumnKind::Factor);
    assert_eq!(column_kind(&classed(Sexp::real_bits(vec![0]), &["Date"])).unwrap(), ColumnKind::Date);
    assert_eq!(
        column_kind(&classed(Sexp::real_bits(vec![0]), &["POSIXct", "POSIXt"])).unwrap(),
        ColumnKind::PosixCt
    );
    assert_eq!(column_kind(&Sexp::logical(vec![1])).unwrap(), ColumnKind::Logical);
    assert_eq!(column_kind(&Sexp::integer(vec![1])).unwrap(), ColumnKind::Integer);
    assert_eq!(column_kind(&Sexp::real_bits(vec![0])).unwrap(), ColumnKind::Real);
    assert_eq!(column_kind(&chr(&["a"])).unwrap(), ColumnKind::Character);
    assert_eq!(column_kind(&Sexp::raw(vec![1])).unwrap(), ColumnKind::Raw);
    assert_eq!(
        invalid_text(column_kind(&Sexp::opaque(SEXPTYPE::CLOSXP)).err().unwrap()),
        "unsupported column type for Arrow conversion: CLOSXP"
    );
}

#[test]
fn integers_become_int32_with_na_as_null() {
    let c = int32_array_from_sexp(&Sexp::integer(vec![3, NA_INTEGER, -1])).unwrap();
    let a = c.array.as_any().downcast_ref::<Int32Array>().unwrap();
    assert_eq!(a.len(), 3);
    assert_eq!(a.value(0), 3);
    assert!(a.is_null(1));
    assert_eq!(a.value(2), -1);
    match int32_array_from_sexp(&chr(&["x"])) {
        Err(SexpError::Type(e)) => {
            assert_eq!(e.expected, SEXPTYPE::INTSXP);
            assert_eq!(e.actual, SEXPTYPE::STRSXP);
        }
        _ => panic!("expected a type error"),
    }
}

#[test]
fn doubles_become_float64_with_only_na_as_null() {
    let nan = f64::NAN.to_bits();
    let c = float64_array_from_sexp(&Sexp::real_bits(vec![1.5f64.to_bits(), NA_REAL_BITS, nan])).unwrap();
    let a = c.array.as_any().downcast_ref::<Float64Array>().unwrap();
    assert_eq!(a.value(0), 1.5);
    assert!(a.is_null(1));
    assert!(!a.is_null(2));
    assert!(a.value(2).is_nan());
}

#[test]
fn strings_and_raw_convert() {
    let c = string_array_from_sexp(&Sexp::character(vec![Some("a".to_string()), None])).unwrap();
    let a = c.array.as_any().downcast_ref::<StringArray>().unwrap();
    assert_eq!(a.value(0), "a");
    assert!(a.is_null(1));
    let r = uint8_array_from_sexp(&Sexp::raw(vec![7, 0])).unwrap();
    let b = r.array.as_any().downcast_ref::<UInt8Array>().unwrap();
    assert_eq!(b.values().as_ref(), &[7u8, 0]);
    assert_eq!(b.null_count(), 0);
}

#[test]
fn factors_become_string_dictionaries_with_zero_based_keys() {
    let c = string_dictionary_from_sexp(&factor(vec![2, NA_INTEGER, 1], &["lo", "hi"])).unwrap();
    let d = c.array.as_dictionary::<Int32Type>();
    assert_eq!(d.keys().value(0), 1);
    assert!(d.keys().is_null(1));
    assert_eq!(d.keys().value(2), 0);
    let v = d.values().as_string::<i32>();
    assert_eq!(v.value(0), "lo");
    assert_eq!(v.value(1), "hi");
    assert_eq!(
        invalid_text(string_dictionary_from_sexp(&Sexp::integer(vec![1])).err().unwrap()),
        "expected R factor (integer with levels attribute)"
    );
    assert_eq!(
        invalid_text(string_dictionary_from_sexp(&classed(Sexp::integer(vec![1]), &["factor"])).err().unwrap()),
        "factor missing levels attribute"
    );
    assert!(string_dictionary_from_sexp(&factor(vec![3], &["a"])).is_err());
}

#[test]
fn any_array_goes_by_type() {
    let c = array_from_sexp(&Sexp::logical(vec![1, 0])).unwrap();
    assert_eq!(c.array.data_type(), &DataType::Boolean);
    assert_eq!(
        invalid_text(array_from_sexp(&Sexp::opaque(SEXPTYPE::ENVSXP)).err().unwrap()),
        "unsupported R type for Arrow conversion: ENVSXP"
    );
}

#[test]
fn date_and_time_columns_take_their_whole_units() {
    let d = classed(Sexp::real_bits(vec![1.0f64.to_bits(), NA_REAL_BITS]), &["Date"]);
    let (f, c) = sexp_column_to_arrow(&d, "day", &Some(TimeValues::Days(vec![Some(1), None]))).unwrap();
    assert_eq!(f.name, "day");
    assert!(f.nullable);
    let a = c.array.as_any().downcast_ref::<Date32Array>().unwrap();
    assert_eq!(a.value(0), 1);
    assert!(a.is_null(1));

    let mut t = classed(Sexp::real_bits(vec![60.0f64.to_bits()]), &["POSIXct", "POSIXt"]);
    t.set_attr("tzone", chr(&["UTC"]));
    let (f, c) = sexp_column_to_arrow(&t, "at", &Some(TimeValues::Seconds(vec![Some(60)]))).unwrap();
    assert!(!f.nullable);
    assert_eq!(c.array.data_type(), &DataType::Timestamp(arrow_schema::TimeUnit::Second, Some("UTC".into())));
    assert_eq!(c.array.as_primitive::<TimestampSecondType>().value(0), 60);
}

#[test]
fn data_frames_become_record_batches() {
    let mut df = Sexp::list(vec![Sexp::integer(vec![1, NA_INTEGER]), chr(&["a", "b"]), Sexp::raw(vec![1, 2])]);
    df.set_attr("names", chr(&["n", "s", "r"]));
    let b = record_batch_from_sexp(&df, &[None, None, None]).unwrap().batch;
    assert_eq!(b.num_columns(), 3);
    assert_eq!(b.num_rows(), 2);
    let schema = b.schema();
    assert_eq!(schema.field(0).name(), "n");
    assert!(schema.field(0).is_nullable());
    assert!(!schema.field(1).is_nullable());
    assert!(!schema.field(2).is_nullable());
    assert_eq!(b.column(1).as_string::<i32>().value(1), "b");

    let unnamed = Sexp::list(vec![Sexp::integer(vec![1])]);
    let u = record_batch_from_sexp(&unnamed, &[None]).unwrap().batch;
    assert_eq!(u.schema().field(0).name(), "V1");
}

#[test]
fn data_frames_that_do_not_convert_are_refused() {
    let mut df = Sexp::list(vec![Sexp::integer(vec![1, 2]), Sexp::integer(vec![1])]);
    df.set_attr("names", chr(&["a", "b"]));
    assert_eq!(
        invalid_text(record_batch_from_sexp(&df, &[None, None]).err().unwrap()),
        "column 'b' has length 1 but column 'a' has length 2"
    );
    let bad = Sexp::list(vec![Sexp::opaque(SEXPTYPE::CLOSXP)]);
    assert_eq!(
        invalid_text(record_batch_from_sexp(&bad, &[None]).err().unwrap()),
        "unsupported column type for Arrow conversion: CLOSXP"
    );
    assert!(matches!(record_batch_from_sexp(&Sexp::list(vec![]), &[]), Err(SexpError::InvalidValue(_))));
    match record_batch_from_sexp(&Sexp::integer(vec![1]), &[]) {
        Err(SexpError::Type(e)) => assert_eq!(e.actual, SEXPTYPE::INTSXP),
        _ => panic!("expected a type error"),
    }
}

#[test]
fn record_batches_come_back_as_column_plans() {
    let mut df = Sexp::list(vec![
        Sexp::integer(vec![1, NA_INTEGER]),
        factor(vec![2, 1], &["lo", "hi"]),
        classed(Sexp::real_bits(vec![0, 0]), &["Date"]),
    ]);
    df.set_attr("names", chr(&["n", "f", "d"]));
    let b = record_batch_from_sexp(&df, &[None, None, Some(TimeValues::Days(vec![Some(3), None]))]).unwrap();
    let (names, plans, nrow) = record_batch_to_r(&b);
    assert_eq!(names, vec!["n", "f", "d"]);
    assert_eq!(nrow, 2);
    let mut it = plans.into_iter();
    match it.next().unwrap() {
        RColumnPlan::Ready(s) => assert_eq!(s, Sexp::integer(vec![1, NA_INTEGER])),
        _ => panic!("integers come back ready"),
    }
    match it.next().unwrap() {
        RColumnPlan::Ready(s) => {
            assert_eq!(s.int_slice(), &[2, 1]);
            assert_eq!(s.get_attr("levels"), Some(&chr(&["lo", "hi"])));
            assert_eq!(s.get_attr("class"), Some(&chr(&["factor"])));
        }
        _ => panic!("factors come back ready"),
    }
    match it.next().unwrap() {
        RColumnPlan::Days(v) => assert_eq!(v, vec![Some(3), None]),
        _ => panic!("dates come back as days"),
    }
    let d = date_vector(vec![3.0f64.to_bits()]);
    assert_eq!(d.get_attr("class"), Some(&chr(&["Date"])));
    let frame = data_frame_of(vec!["a".to_string()], vec![Sexp::integer(vec![1, 2])], 2);
    assert_eq!(frame.get_attr("names"), Some(&chr(&["a"])));
    assert_eq!(frame.get_attr("class"), Some(&chr(&["data.frame"])));
    assert_eq!(frame.get_attr("row.names"), Some(&Sexp::integer(vec![NA_INTEGER, -2])));
}
