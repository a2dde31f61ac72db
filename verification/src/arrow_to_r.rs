//! Arrow arrays and record batches back to R vectors and data frames.
//!
//! Each array becomes the R vector of its type (nulls as `NA`), a string
//! dictionary a factor, and an array of a type R has no vector for a
//! character vector of `NA`s. Dates, times, 64-bit integers and 32-bit floats
//! become doubles; those values are made by the caller, and the library
//! gives them their classes. A record batch becomes a data frame.
use crate::arrow::codes_of_slots;
use crate::arrow_frame::{
    arrow_column_data, factor_key, factor_levels, int_slot, real_slot, record_batch_view, ArrowColumn,
    ArrowRecordBatch, ColumnData,
};
use crate::from_r::strings_view;
use crate::sexp::{opt_strs_view, Sexp, SEXPTYPE, NA_INTEGER, NA_REAL_BITS};
use crate::text::string_of;
use arrow_schema::DataType;
use vstd::prelude::*;

verus! {

/// The type of an Arrow array, as far as the conversion to R tells types
/// apart.
#[derive(Debug, Clone, Copy, PartialEq, Eq, Structural)]
pub enum ArrowType {
    Int32,
    Int8,
    Int16,
    Int64,
    UInt8,
    Boolean,
    Utf8,
    Float64,
    Float32,
    Date32,
    TimestampSecond,
    Dictionary,
    KeyedOther,
    Other,
}

/// The type of a column with these contents.
pub open spec fn arrow_type_of(d: ColumnData) -> ArrowType {
    match d {
        ColumnData::Int32(_) => ArrowType::Int32,
        ColumnData::Int8(_) => ArrowType::Int8,
        ColumnData::Int16(_) => ArrowType::Int16,
        ColumnData::Int64(_) => ArrowType::Int64,
        ColumnData::UInt8(_) => ArrowType::UInt8,
        ColumnData::Boolean(_) => ArrowType::Boolean,
        ColumnData::Utf8(_) => ArrowType::Utf8,
        ColumnData::Float64(_) => ArrowType::Float64,
        ColumnData::Float32(_) => ArrowType::Float32,
        ColumnData::Date32(_) => ArrowType::Date32,
        ColumnData::TimestampSecond(_, _) => ArrowType::TimestampSecond,
        ColumnData::Dictionary(_, _) => ArrowType::Dictionary,
        ColumnData::KeyedOther(_, _) => ArrowType::KeyedOther,
        ColumnData::Other(_, _) => ArrowType::Other,
    }
}

/// `Array::data_type` of a column, told apart by variant (a dictionary by
/// its key and value types).
#[verifier::external_body]
fn column_type(c: &ArrowColumn) -> (r: ArrowType)
    ensures
        r == arrow_type_of(arrow_column_data(*c)),
{
    match c.array.data_type() {
        DataType::Int32 => ArrowType::Int32, DataType::Int8 => ArrowType::Int8,
        DataType::Int16 => ArrowType::Int16, DataType::Int64 => ArrowType::Int64,
        DataType::UInt8 => ArrowType::UInt8, DataType::Boolean => ArrowType::Boolean,
        DataType::Utf8 => ArrowType::Utf8, DataType::Float64 => ArrowType::Float64,
        DataType::Float32 => ArrowType::Float32, DataType::Date32 => ArrowType::Date32,
        DataType::Timestamp(arrow_schema::TimeUnit::Second, _) => ArrowType::TimestampSecond,
        DataType::Dictionary(k, v) if **k == DataType::Int32 => match **v {
            DataType::Utf8 => ArrowType::Dictionary,
            _ => ArrowType::KeyedOther,
        },
        _ => ArrowType::Other,
    }
}

/// The slots of a 32-bit integer column (`as_primitive_array`, iterated).
#[verifier::external_body]
fn int32_slots(c: &ArrowColumn) -> (r: Vec<Option<i32>>)
    requires
        arrow_column_data(*c) is Int32,
    ensures
        arrow_column_data(*c) == ColumnData::Int32(r@),
{
    arrow_array::cast::as_primitive_array::<arrow_array::types::Int32Type>(&*c.array).iter().collect()
}

/// The slots of an 8-bit integer column.
#[verifier::external_body]
fn int8_slots(c: &ArrowColumn) -> (r: Vec<Option<i8>>)
    requires
        arrow_column_data(*c) is Int8,
    ensures
        arrow_column_data(*c) == ColumnData::Int8(r@),
{
    arrow_array::cast::as_primitive_array::<arrow_array::types::Int8Type>(&*c.array).iter().collect()
}

/// The slots of a 16-bit integer column.
#[verifier::external_body]
fn int16_slots(c: &ArrowColumn) -> (r: Vec<Option<i16>>)
    requires
        arrow_column_data(*c) is Int16,
    ensures
        arrow_column_data(*c) == ColumnData::Int16(r@),
{
    arrow_array::cast::as_primitive_array::<arrow_array::types::Int16Type>(&*c.array).iter().collect()
}

/// The slots of a 64-bit integer column.
#[verifier::external_body]
fn int64_slots(c: &ArrowColumn) -> (r: Vec<Option<i64>>)
    requires
        arrow_column_data(*c) is Int64,
    ensures
        arrow_column_data(*c) == ColumnData::Int64(r@),
{
    arrow_array::cast::as_primitive_array::<arrow_array::types::Int64Type>(&*c.array).iter().collect()
}

/// The slots of a byte column.
#[verifier::external_body]
fn uint8_slots(c: &ArrowColumn) -> (r: Vec<Option<u8>>)
    requires
        arrow_column_data(*c) is UInt8,
    ensures
        arrow_column_data(*c) == ColumnData::UInt8(r@),
{
    arrow_array::cast::as_primitive_array::<arrow_array::types::UInt8Type>(&*c.array).iter().collect()
}

/// The slots of a boolean column (`as_boolean_array`, iterated).
#[verifier::external_body]
fn boolean_slots(c: &ArrowColumn) -> (r: Vec<Option<bool>>)
    requires
        arrow_column_data(*c) is Boolean,
    ensures
        arrow_column_data(*c) == ColumnData::Boolean(r@),
{
    arrow_array::cast::as_boolean_array(&*c.array).iter().collect()
}

/// The slots of a string column (`as_string_array`, iterated), copied.
#[verifier::external_body]
fn utf8_slots(c: &ArrowColumn) -> (r: Vec<Option<String>>)
    requires
        arrow_column_data(*c) is Utf8,
    ensures
        arrow_column_data(*c) == ColumnData::Utf8(opt_strs_view(r@)),
{
    arrow_array::cast::as_string_array(&*c.array).iter().map(|o| o.map(|t| t.to_string())).collect()
}

/// The slots of a 64-bit float column, each value as its bits.
#[verifier::external_body]
fn float64_slots(c: &ArrowColumn) -> (r: Vec<Option<u64>>)
    requires
        arrow_column_data(*c) is Float64,
    ensures
        arrow_column_data(*c) == ColumnData::Float64(r@),
{
    let a = arrow_array::cast::as_primitive_array::<arrow_array::types::Float64Type>(&*c.array);
    a.iter().map(|o| o.map(|v| v.to_bits())).collect()
}

/// The slots of a 32-bit float column, each value as its bits.
#[verifier::external_body]
fn float32_slots(c: &ArrowColumn) -> (r: Vec<Option<u32>>)
    requires
        arrow_column_data(*c) is Float32,
    ensures
        arrow_column_data(*c) == ColumnData::Float32(r@),
{
    let a = arrow_array::cast::as_primitive_array::<arrow_array::types::Float32Type>(&*c.array);
    a.iter().map(|o| o.map(|v| v.to_bits())).collect()
}

/// The slots of a date column.
#[verifier::external_body]
fn date32_slots(c: &ArrowColumn) -> (r: Vec<Option<i32>>)
    requires
        arrow_column_data(*c) is Date32,
    ensures
        arrow_column_data(*c) == ColumnData::Date32(r@),
{
    arrow_array::cast::as_primitive_array::<arrow_array::types::Date32Type>(&*c.array).iter().collect()
}

/// The slots and the time zone of a timestamp column.
#[verifier::external_body]
fn timestamp_slots(c: &ArrowColumn) -> (r: (Vec<Option<i64>>, Option<String>))
    requires
        arrow_column_data(*c) is TimestampSecond,
    ensures
        arrow_column_data(*c) == ColumnData::TimestampSecond(r.0@, crate::sexp::opt_str_view(r.1)),
{
    let a = arrow_array::cast::as_primitive_array::<arrow_array::types::TimestampSecondType>(&*c.array);
    (a.iter().collect(), a.timezone().map(|t| t.to_string()))
}

/// The keys and the dictionary of a string dictionary column
/// (`as_dictionary_array`, its keys iterated and its values read by index).
#[verifier::external_body]
fn dictionary_parts(c: &ArrowColumn) -> (r: (Vec<Option<i32>>, Vec<String>))
    requires
        arrow_column_data(*c) is Dictionary,
    ensures
        arrow_column_data(*c) == ColumnData::Dictionary(r.0@, strings_view(r.1@)),
{
    let d = arrow_array::cast::as_dictionary_array::<arrow_array::types::Int32Type>(&*c.array);
    let v = arrow_array::cast::as_string_array(d.values());
    (d.keys().iter().collect(), (0..arrow_array::Array::len(v)).map(|i| v.value(i).to_string()).collect())
}

/// The length of a column (`Array::len`).
#[verifier::external_body]
fn column_slot_count(c: &ArrowColumn) -> (r: usize)
    ensures
        r == crate::arrow_frame::column_len(arrow_column_data(*c)),
{
    c.array.len()
}

/// What an Arrow column becomes in R: a vector, or whole units (or float
/// bits) from which the caller makes doubles.
pub enum RColumnPlan {
    /// The finished R vector.
    Ready(Sexp),
    /// Days of a date column: a `Date` vector of these as doubles.
    Days(Vec<Option<i32>>),
    /// Seconds of a timestamp column and its time zone: a `POSIXct` vector.
    Seconds(Vec<Option<i64>>, Option<String>),
    /// 64-bit integers: a double vector of these.
    Wide(Vec<Option<i64>>),
    /// 32-bit floats (their bits): a double vector of these, widened.
    Narrow(Vec<Option<u32>>),
}

/// A slot of an integer column as an R integer (null as `NA`).
pub open spec fn int_code(o: Option<i32>) -> i32 {
    match o {
        Some(x) => x,
        None => NA_INTEGER,
    }
}

/// A key of a dictionary as a factor code (1-based, null as `NA`).
pub open spec fn factor_code(o: Option<i32>) -> i32 {
    match o {
        Some(k) => (k + 1) as i32,
        None => NA_INTEGER,
    }
}

/// Every present key can take one more.
pub open spec fn keys_below_max(keys: Seq<Option<i32>>) -> bool {
    forall|i: int| 0 <= i < keys.len() ==> (#[trigger] keys[i] matches Some(k) ==> k < i32::MAX)
}

/// A column R has a vector for: neither an integer-keyed dictionary of
/// values that are not strings, nor one whose keys cannot be made 1-based.
pub open spec fn column_has_r_form(d: ColumnData) -> bool {
    &&& !(d is KeyedOther)
    &&& d matches ColumnData::Dictionary(k, _) ==> keys_below_max(k)
}

/// `s` is the factor with codes `codes` and levels `levels`.
pub open spec fn is_factor_of(s: Sexp, codes: Seq<i32>, levels: Seq<Seq<char>>) -> bool {
    &&& s.stype() == SEXPTYPE::INTSXP
    &&& s.ints() == codes
    &&& s.attr("levels"@) matches Some(l) && l.stype() == SEXPTYPE::STRSXP && l.strs()
        == levels.map_values(|t: Seq<char>| Some(t))
    &&& s.attr("class"@) matches Some(c) && c.stype() == SEXPTYPE::STRSXP && c.strs() == seq![
        Some("factor"@),
    ]
}

/// What converting a column with contents `d` to R plans.
pub open spec fn r_plan_of(d: ColumnData, p: RColumnPlan) -> bool {
    match d {
        ColumnData::Int32(v) => p matches RColumnPlan::Ready(s) && s.stype() == SEXPTYPE::INTSXP
            && s.ints() == v.map_values(|o: Option<i32>| int_code(o)) && s.bare(),
        ColumnData::Int8(v) => p matches RColumnPlan::Ready(s) && s.stype() == SEXPTYPE::INTSXP
            && s.ints() == v.map_values(|o: Option<i8>| int_code(match o { Some(x) => Some(x as i32), None => None })) && s.bare(),
        ColumnData::Int16(v) => p matches RColumnPlan::Ready(s) && s.stype() == SEXPTYPE::INTSXP
            && s.ints() == v.map_values(|o: Option<i16>| int_code(match o { Some(x) => Some(x as i32), None => None })) && s.bare(),
        ColumnData::UInt8(v) => p matches RColumnPlan::Ready(s) && s.stype() == SEXPTYPE::RAWSXP
            && s.raws() == v.map_values(|o: Option<u8>| match o { Some(x) => x, None => 0u8 }) && s.bare(),
        ColumnData::Boolean(v) => p matches RColumnPlan::Ready(s) && s.stype() == SEXPTYPE::LGLSXP
            && s.ints() == codes_of_slots(v) && s.bare(),
        ColumnData::Utf8(v) => p matches RColumnPlan::Ready(s) && s.stype() == SEXPTYPE::STRSXP
            && s.strs() == v && s.bare(),
        ColumnData::Float64(v) => p matches RColumnPlan::Ready(s) && s.stype() == SEXPTYPE::REALSXP
            && s.reals() == v.map_values(|o: Option<u64>| match o { Some(b) => b, None => NA_REAL_BITS })
            && s.bare(),
        ColumnData::Dictionary(k, lv) => p matches RColumnPlan::Ready(s) && is_factor_of(
            s,
            k.map_values(|o: Option<i32>| factor_code(o)),
            lv,
        ),
        ColumnData::Date32(v) => p matches RColumnPlan::Days(w) && w@ == v,
        ColumnData::TimestampSecond(v, tz) => p matches RColumnPlan::Seconds(w, z) && w@ == v
            && crate::sexp::opt_str_view(z) == tz,
        ColumnData::Int64(v) => p matches RColumnPlan::Wide(w) && w@ == v,
        ColumnData::Float32(v) => p matches RColumnPlan::Narrow(w) && w@ == v,
        ColumnData::KeyedOther(_, _) => true,
        ColumnData::Other(n, _) => p matches RColumnPlan::Ready(s) && s.stype() == SEXPTYPE::STRSXP
            && s.strs() == Seq::new(n, |i: int| None::<Seq<char>>) && s.bare(),
    }
}

/// Integer slots as R integers (null as `NA`).
fn int_codes(v: &[Option<i32>]) -> (r: Vec<i32>)
    ensures
        r@ == v@.map_values(|o: Option<i32>| int_code(o)),
{
    let mut r: Vec<i32> = Vec::new();
    let mut i: usize = 0;
    while i < v.len()
        invariant
            i <= v@.len(),
            r@.len() == i,
            forall|k: int| 0 <= k < i ==> #[trigger] r@[k] == (|o: Option<i32>| int_code(o))(v@[k]),
        decreases v@.len() - i,
    {
        let o = v[i];
        r.push(match o { Some(x) => x, None => NA_INTEGER });
        i = i + 1;
    }
    proof {
        assert(r@ =~= v@.map_values(|o: Option<i32>| int_code(o)));
    }
    r
}

/// 8-bit integer slots widened to R integers (null as `NA`).
fn int8_codes(v: &[Option<i8>]) -> (r: Vec<i32>)
    ensures
        r@ == v@.map_values(|o: Option<i8>| int_code(match o { Some(x) => Some(x as i32), None => None })),
{
    let mut r: Vec<i32> = Vec::new();
    let mut i: usize = 0;
    while i < v.len()
        invariant
            i <= v@.len(),
            r@.len() == i,
            forall|k: int| 0 <= k < i ==> #[trigger] r@[k] == (|o: Option<i8>| int_code(match o { Some(x) => Some(x as i32), None => None }))(v@[k]),
        decreases v@.len() - i,
    {
        let o = v[i];
        r.push(match o { Some(x) => x as i32, None => NA_INTEGER });
        i = i + 1;
    }
    proof {
        assert(r@ =~= v@.map_values(|o: Option<i8>| int_code(match o { Some(x) => Some(x as i32), None => None })));
    }
    r
}

/// 16-bit integer slots widened to R integers (null as `NA`).
fn int16_codes(v: &[Option<i16>]) -> (r: Vec<i32>)
    ensures
        r@ == v@.map_values(|o: Option<i16>| int_code(match o { Some(x) => Some(x as i32), None => None })),
{
    let mut r: Vec<i32> = Vec::new();
    let mut i: usize = 0;
    while i < v.len()
        invariant
            i <= v@.len(),
            r@.len() == i,
            forall|k: int| 0 <= k < i ==> #[trigger] r@[k] == (|o: Option<i16>| int_code(match o { Some(x) => Some(x as i32), None => None }))(v@[k]),
        decreases v@.len() - i,
    {
        let o = v[i];
        r.push(match o { Some(x) => x as i32, None => NA_INTEGER });
        i = i + 1;
    }
    proof {
        assert(r@ =~= v@.map_values(|o: Option<i16>| int_code(match o { Some(x) => Some(x as i32), None => None })));
    }
    r
}

/// Byte slots as R bytes (null as `0`, R has no `NA` byte).
fn raw_bytes(v: &[Option<u8>]) -> (r: Vec<u8>)
    ensures
        r@ == v@.map_values(|o: Option<u8>| match o { Some(x) => x, None => 0u8 }),
{
    let mut r: Vec<u8> = Vec::new();
    let mut i: usize = 0;
    while i < v.len()
        invariant
            i <= v@.len(),
            r@.len() == i,
            forall|k: int| 0 <= k < i ==> #[trigger] r@[k] == (|o: Option<u8>| match o { Some(x) => x, None => 0u8 })(v@[k]),
        decreases v@.len() - i,
    {
        let o = v[i];
        r.push(match o { Some(x) => x, None => 0u8 });
        i = i + 1;
    }
    proof {
        assert(r@ =~= v@.map_values(|o: Option<u8>| match o { Some(x) => x, None => 0u8 }));
    }
    r
}

/// Boolean slots as R logical codes (null as `NA`).
fn logical_codes(v: &[Option<bool>]) -> (r: Vec<i32>)
    ensures
        r@ == v@.map_values(|o: Option<bool>| crate::arrow::code_of_slot(o)),
{
    let mut r: Vec<i32> = Vec::new();
    let mut i: usize = 0;
    while i < v.len()
        invariant
            i <= v@.len(),
            r@.len() == i,
            forall|k: int| 0 <= k < i ==> #[trigger] r@[k] == (|o: Option<bool>| crate::arrow::code_of_slot(o))(v@[k]),
        decreases v@.len() - i,
    {
        let o = v[i];
        r.push(match o { None => crate::sexp::NA_LOGICAL, Some(true) => 1i32, Some(false) => 0i32 });
        i = i + 1;
    }
    proof {
        assert(r@ =~= v@.map_values(|o: Option<bool>| crate::arrow::code_of_slot(o)));
    }
    r
}

/// Float slots (bits) as R doubles (null as `NA_real_`).
fn real_bits_of(v: &[Option<u64>]) -> (r: Vec<u64>)
    ensures
        r@ == v@.map_values(|o: Option<u64>| match o { Some(b) => b, None => NA_REAL_BITS }),
{
    let mut r: Vec<u64> = Vec::new();
    let mut i: usize = 0;
    while i < v.len()
        invariant
            i <= v@.len(),
            r@.len() == i,
            forall|k: int| 0 <= k < i ==> #[trigger] r@[k] == (|o: Option<u64>| match o { Some(b) => b, None => NA_REAL_BITS })(v@[k]),
        decreases v@.len() - i,
    {
        let o = v[i];
        r.push(match o { Some(b) => b, None => NA_REAL_BITS });
        i = i + 1;
    }
    proof {
        assert(r@ =~= v@.map_values(|o: Option<u64>| match o { Some(b) => b, None => NA_REAL_BITS }));
    }
    r
}

/// Dictionary keys as 1-based factor codes (null as `NA`).
fn factor_codes(v: &[Option<i32>]) -> (r: Vec<i32>)
    requires
        keys_below_max(v@),
    ensures
        r@ == v@.map_values(|o: Option<i32>| factor_code(o)),
{
    let mut r: Vec<i32> = Vec::new();
    let mut i: usize = 0;
    while i < v.len()
        invariant
            i <= v@.len(),
            r@.len() == i,
            keys_below_max(v@),
            forall|k: int| 0 <= k < i ==> #[trigger] r@[k] == (|o: Option<i32>| factor_code(o))(v@[k]),
        decreases v@.len() - i,
    {
        let o = v[i];
        r.push(match o { Some(k) => k + 1, None => NA_INTEGER });
        i = i + 1;
    }
    proof {
        assert(r@ =~= v@.map_values(|o: Option<i32>| factor_code(o)));
    }
    r
}

/// A character vector of `n` `NA`s.
fn na_strings(n: usize) -> (r: Sexp)
    ensures
        r.stype() == SEXPTYPE::STRSXP,
        r.strs() == Seq::new(n as nat, |i: int| None::<Seq<char>>),
        r.bare(),
{
    let mut v: Vec<Option<String>> = Vec::new();
    let mut i: usize = 0;
    while i < n
        invariant
            i <= n,
            v@.len() == i,
            forall|k: int| 0 <= k < i ==> #[trigger] v@[k] is None,
        decreases n - i,
    {
        v.push(None);
        i = i + 1;
    }
    let r = Sexp::character(v);
    proof {
        assert(r.strs() =~= Seq::new(n as nat, |i: int| None::<Seq<char>>));
    }
    r
}

/// Texts as a character vector without `NA`s.
fn character_of(v: Vec<String>) -> (r: Sexp)
    ensures
        r.stype() == SEXPTYPE::STRSXP,
        r.strs() == strings_view(v@).map_values(|t: Seq<char>| Some(t)),
        r.bare(),
{
    let mut w: Vec<Option<String>> = Vec::new();
    let mut i: usize = 0;
    let ghost orig = v@;
    let mut rest = v;
    proof {
        assert(rest@ =~= orig.subrange(0, orig.len() as int));
    }
    while i < rest.len()
        invariant
            rest@ == orig,
            i <= orig.len(),
            w@.len() == i,
            forall|k: int| 0 <= k < i ==> crate::sexp::opt_str_view(#[trigger] w@[k]) == Some(orig[k]@),
        decreases orig.len() - i,
    {
        w.push(Some(rest[i].clone()));
        i = i + 1;
    }
    let r = Sexp::character(w);
    proof {
        assert(r.strs() =~= strings_view(orig).map_values(|t: Seq<char>| Some(t)));
    }
    r
}

/// The factor with codes `codes` and levels `levels` (class `factor`).
fn factor_of(codes: Vec<i32>, levels: Vec<String>) -> (r: Sexp)
    ensures
        is_factor_of(r, codes@, strings_view(levels@)),
{
    let mut f = Sexp::integer(codes);
    let lv = character_of(levels);
    f.set_attr("levels", lv);
    let cl = character_of(vec![string_of("factor")]);
    f.set_attr("class", cl);
    proof {
        reveal_strlit("levels");
        reveal_strlit("class");
        reveal_strlit("factor");
        assert("class"@[0] != "levels"@[0]);
        assert("class"@ != "levels"@);
        assert(cl.strs() =~= seq![Some("factor"@)]);
    }
    f
}

/// A column as R sees it (see [`r_plan_of`]): integers (widened from 8 and
/// 16 bits), bytes, logicals, strings and doubles as vectors with nulls as
/// `NA` (as `0` for bytes), a string dictionary as a factor, an array of a
/// type R has no vector for as `NA` strings; dates, timestamps, 64-bit
/// integers and 32-bit floats as the values the caller makes doubles of.
pub fn arrow_column_to_r(c: &ArrowColumn) -> (r: RColumnPlan)
    requires
        column_has_r_form(arrow_column_data(*c)),
    ensures
        r_plan_of(arrow_column_data(*c), r),
{
    match column_type(c) {
        ArrowType::Int32 => {
            let v = int32_slots(c);
            RColumnPlan::Ready(Sexp::integer(int_codes(v.as_slice())))
        },
        ArrowType::Int8 => {
            let v = int8_slots(c);
            RColumnPlan::Ready(Sexp::integer(int8_codes(v.as_slice())))
        },
        ArrowType::Int16 => {
            let v = int16_slots(c);
            RColumnPlan::Ready(Sexp::integer(int16_codes(v.as_slice())))
        },
        ArrowType::UInt8 => {
            let v = uint8_slots(c);
            RColumnPlan::Ready(Sexp::raw(raw_bytes(v.as_slice())))
        },
        ArrowType::Boolean => {
            let v = boolean_slots(c);
            let codes = logical_codes(v.as_slice());
            proof {
                assert(codes@ =~= codes_of_slots(v@));
            }
            RColumnPlan::Ready(Sexp::logical(codes))
        },
        ArrowType::Utf8 => RColumnPlan::Ready(Sexp::character(utf8_slots(c))),
        ArrowType::Float64 => {
            let v = float64_slots(c);
            RColumnPlan::Ready(Sexp::real_bits(real_bits_of(v.as_slice())))
        },
        ArrowType::Dictionary => {
            let (keys, levels) = dictionary_parts(c);
            RColumnPlan::Ready(factor_of(factor_codes(keys.as_slice()), levels))
        },
        ArrowType::Date32 => RColumnPlan::Days(date32_slots(c)),
        ArrowType::TimestampSecond => {
            let (v, tz) = timestamp_slots(c);
            RColumnPlan::Seconds(v, tz)
        },
        ArrowType::Int64 => RColumnPlan::Wide(int64_slots(c)),
        ArrowType::Float32 => RColumnPlan::Narrow(float32_slots(c)),
        ArrowType::KeyedOther => RColumnPlan::Ready(na_strings(0)),
        ArrowType::Other => RColumnPlan::Ready(na_strings(column_slot_count(c))),
    }
}

/// The class vector `classes`.
pub open spec fn class_is(s: Sexp, classes: Seq<Seq<char>>) -> bool {
    s.attr("class"@) matches Some(c) && c.stype() == SEXPTYPE::STRSXP && c.strs() == classes.map_values(
        |t: Seq<char>| Some(t),
    )
}

/// A `Date` vector of the doubles with bits `bits` (days since 1970-01-01).
pub fn date_vector(bits: Vec<u64>) -> (r: Sexp)
    ensures
        r.stype() == SEXPTYPE::REALSXP,
        r.reals() == bits@,
        class_is(r, seq!["Date"@]),
{
    let mut s = Sexp::real_bits(bits);
    let cl = character_of(vec![string_of("Date")]);
    s.set_attr("class", cl);
    proof {
        assert(seq!["Date"@].map_values(|t: Seq<char>| Some(t)) =~= cl.strs());
    }
    s
}

/// A `POSIXct` vector of the doubles with bits `bits` (seconds since the
/// epoch), with the time zone `tz` as its `tzone` attribute when there is
/// one.
pub fn posixct_vector(bits: Vec<u64>, tz: Option<String>) -> (r: Sexp)
    ensures
        r.stype() == SEXPTYPE::REALSXP,
        r.reals() == bits@,
        class_is(r, seq!["POSIXct"@, "POSIXt"@]),
        match tz {
            Some(z) => r.attr("tzone"@) matches Some(t) && t.stype() == SEXPTYPE::STRSXP
                && t.strs() == seq![Some(z@)],
            None => r.attr("tzone"@) is None,
        },
{
    let mut s = Sexp::real_bits(bits);
    proof {
        s.lemma_bare_attrs();
        reveal_strlit("tzone");
        reveal_strlit("class");
        assert("class"@[0] != "tzone"@[0]);
    }
    let cl = character_of(vec![string_of("POSIXct"), string_of("POSIXt")]);
    s.set_attr("class", cl);
    proof {
        assert(seq!["POSIXct"@, "POSIXt"@].map_values(|t: Seq<char>| Some(t)) =~= cl.strs());
    }
    match tz {
        Some(z) => {
            let t = character_of(vec![z]);
            proof {
                assert(t.strs() =~= seq![Some(z@)]);
            }
            s.set_attr("tzone", t);
        },
        None => {},
    }
    s
}

/// `s` is a data frame of the columns `columns` named `names`, with `nrow`
/// rows (compact row names `c(NA, -nrow)`).
pub open spec fn is_data_frame_of(s: Sexp, names: Seq<Seq<char>>, columns: Seq<Sexp>, nrow: int) -> bool {
    &&& s.stype() == SEXPTYPE::VECSXP
    &&& s.elems() == columns
    &&& s.attr("names"@) matches Some(n) && n.stype() == SEXPTYPE::STRSXP && n.strs()
        == names.map_values(|t: Seq<char>| Some(t))
    &&& class_is(s, seq!["data.frame"@])
    &&& s.attr("row.names"@) matches Some(rn) && rn.stype() == SEXPTYPE::INTSXP && rn.ints() == seq![
        NA_INTEGER,
        (0 - nrow) as i32,
    ]
}

/// A data frame of `columns` named `names`, with `nrow` rows.
pub fn data_frame_of(names: Vec<String>, columns: Vec<Sexp>, nrow: usize) -> (r: Sexp)
    requires
        nrow <= i32::MAX,
    ensures
        is_data_frame_of(r, strings_view(names@), columns@, nrow as int),
{
    let mut s = Sexp::list(columns);
    let nm = character_of(names);
    s.set_attr("names", nm);
    let cl = character_of(vec![string_of("data.frame")]);
    s.set_attr("class", cl);
    let n: i32 = nrow as i32;
    let neg: i32 = 0 - n;
    let rn = Sexp::integer(vec![NA_INTEGER, neg]);
    s.set_attr("row.names", rn);
    proof {
        reveal_strlit("names");
        reveal_strlit("class");
        reveal_strlit("row.names");
        assert("names"@[0] != "class"@[0]);
        assert("row.names"@[0] != "class"@[0]);
        assert("row.names"@[0] != "names"@[0]);
        assert(seq!["data.frame"@].map_values(|t: Seq<char>| Some(t)) =~= cl.strs());
        assert(rn.ints() =~= seq![NA_INTEGER, (0 - nrow) as i32]);
    }
    s
}

/// `RecordBatch::columns`, each array shared.
#[verifier::external_body]
fn record_batch_columns(b: &ArrowRecordBatch) -> (r: Vec<ArrowColumn>)
    ensures
        r@.len() == record_batch_view(*b).len(),
        forall|i: int|
            0 <= i < r@.len() ==> arrow_column_data(#[trigger] r@[i]) == record_batch_view(*b)[i].2,
{
    b.batch.columns().iter().map(|a| ArrowColumn { array: a.clone() }).collect()
}

/// The field names of a record batch's schema, in order.
#[verifier::external_body]
fn record_batch_names(b: &ArrowRecordBatch) -> (r: Vec<String>)
    ensures
        strings_view(r@) == record_batch_view(*b).map_values(|c: (Seq<char>, bool, ColumnData)| c.0),
{
    b.batch.schema().fields().iter().map(|f| f.name().clone()).collect()
}

/// `RecordBatch::num_rows`: the length of the columns, when there is one.
#[verifier::external_body]
fn record_batch_row_count(b: &ArrowRecordBatch) -> (r: usize)
    ensures
        record_batch_view(*b).len() > 0 ==> r == crate::arrow_frame::column_len(
            record_batch_view(*b)[0].2,
        ),
{
    b.batch.num_rows()
}

/// A record batch as R sees it: the column names, what each column becomes
/// (see [`arrow_column_to_r`]), and the row count.
pub fn record_batch_to_r(b: &ArrowRecordBatch) -> (r: (Vec<String>, Vec<RColumnPlan>, usize))
    requires
        forall|i: int|
            0 <= i < record_batch_view(*b).len() ==> column_has_r_form(
                (#[trigger] record_batch_view(*b)[i]).2,
            ),
    ensures
        strings_view(r.0@) == record_batch_view(*b).map_values(|c: (Seq<char>, bool, ColumnData)| c.0),
        r.1@.len() == record_batch_view(*b).len(),
        forall|i: int|
            0 <= i < r.1@.len() ==> r_plan_of(record_batch_view(*b)[i].2, #[trigger] r.1@[i]),
        record_batch_view(*b).len() > 0 ==> r.2 == crate::arrow_frame::column_len(
            record_batch_view(*b)[0].2,
        ),
{
    let names = record_batch_names(b);
    let columns = record_batch_columns(b);
    let mut plans: Vec<RColumnPlan> = Vec::new();
    let mut i: usize = 0;
    while i < columns.len()
        invariant
            columns@.len() == record_batch_view(*b).len(),
            forall|k: int|
                0 <= k < columns@.len() ==> arrow_column_data(#[trigger] columns@[k])
                    == record_batch_view(*b)[k].2,
            forall|k: int|
                0 <= k < record_batch_view(*b).len() ==> column_has_r_form(
                    (#[trigger] record_batch_view(*b)[k]).2,
                ),
            i <= columns@.len(),
            plans@.len() == i,
            forall|k: int|
                0 <= k < i ==> r_plan_of(record_batch_view(*b)[k].2, #[trigger] plans@[k]),
        decreases columns@.len() - i,
    {
        proof {
            assert(column_has_r_form(record_batch_view(*b)[i as int].2));
        }
        plans.push(arrow_column_to_r(&columns[i]));
        i = i + 1;
    }
    let nrow = record_batch_row_count(b);
    (names, plans, nrow)
}

/// An integer vector taken to Arrow and back holds the same integers
/// (`NA` as null and back as `NA`).
pub proof fn lemma_integer_round_trip(s: Sexp, p: RColumnPlan)
    requires
        s.stype() == SEXPTYPE::INTSXP,
        r_plan_of(ColumnData::Int32(s.ints().map_values(|x: i32| int_slot(x))), p),
    ensures
        p matches RColumnPlan::Ready(t) && t.stype() == SEXPTYPE::INTSXP && t.ints() == s.ints(),
{
    let t = p->Ready_0;
    assert(t.ints() =~= s.ints());
}

/// A double vector taken to Arrow and back holds the same bits (`NA_real_`
/// as null and back).
pub proof fn lemma_double_round_trip(s: Sexp, p: RColumnPlan)
    requires
        s.stype() == SEXPTYPE::REALSXP,
        r_plan_of(ColumnData::Float64(s.reals().map_values(|b: u64| real_slot(b))), p),
    ensures
        p matches RColumnPlan::Ready(t) && t.stype() == SEXPTYPE::REALSXP && t.reals() == s.reals(),
{
    let t = p->Ready_0;
    assert(t.reals() =~= s.reals());
}

/// A character vector taken to Arrow and back holds the same strings
/// (`NA` as null and back).
pub proof fn lemma_string_round_trip(s: Sexp, p: RColumnPlan)
    requires
        s.stype() == SEXPTYPE::STRSXP,
        r_plan_of(ColumnData::Utf8(s.strs()), p),
    ensures
        p matches RColumnPlan::Ready(t) && t.stype() == SEXPTYPE::STRSXP && t.strs() == s.strs(),
{
}

/// A raw vector taken to Arrow and back holds the same bytes.
pub proof fn lemma_raw_round_trip(s: Sexp, p: RColumnPlan)
    requires
        s.stype() == SEXPTYPE::RAWSXP,
        r_plan_of(ColumnData::UInt8(s.raws().map_values(|x: u8| Some(x))), p),
    ensures
        p matches RColumnPlan::Ready(t) && t.stype() == SEXPTYPE::RAWSXP && t.raws() == s.raws(),
{
    let t = p->Ready_0;
    assert(t.raws() =~= s.raws());
}

/// A factor taken to Arrow and back is a factor with the same codes (`NA`
/// kept) and, where its levels have no `NA`, the same levels.
pub proof fn lemma_factor_round_trip(s: Sexp, p: RColumnPlan)
    requires
        s.stype() == SEXPTYPE::INTSXP,
        factor_levels(s) is Some,
        r_plan_of(
            ColumnData::Dictionary(s.ints().map_values(|x: i32| factor_key(x)), factor_levels(s)->0),
            p,
        ),
    ensures
        p matches RColumnPlan::Ready(t) && is_factor_of(t, s.ints(), factor_levels(s)->0),
{
    let t = p->Ready_0;
    assert(t.ints() =~= s.ints());
}

/// Codes taken to dictionary keys can be made 1-based again.
pub proof fn lemma_factor_keys_below_max(codes: Seq<i32>)
    ensures
        keys_below_max(codes.map_values(|x: i32| factor_key(x))),
{
}

/// A logical vector taken to a boolean Arrow column and back is a logical
/// vector again with the same logical values (`NA` as null and back; any
/// true code comes back as `1`).
pub proof fn lemma_logical_round_trip(s: Sexp, p: RColumnPlan)
    requires
        s.stype() == SEXPTYPE::LGLSXP,
        r_plan_of(ColumnData::Boolean(crate::arrow::slots_of_codes(s.ints())), p),
    ensures
        p matches RColumnPlan::Ready(t) && t.stype() == SEXPTYPE::LGLSXP && crate::arrow::slots_of_codes(
            t.ints(),
        ) == crate::arrow::slots_of_codes(s.ints()),
{
    let t = p->Ready_0;
    let v = crate::arrow::slots_of_codes(s.ints());
    assert forall|i: int| 0 <= i < v.len() implies #[trigger] crate::condition::logical_elt(
        crate::arrow::code_of_slot(v[i]),
    ) == v[i] by {}
    assert(crate::arrow::slots_of_codes(t.ints()) =~= v);
}
/// A 32-bit integer column comes back as an integer vector, null as `NA`.
pub proof fn lemma_int32_column_in_r(v: Seq<Option<i32>>, p: RColumnPlan, i: int)
    requires
        r_plan_of(ColumnData::Int32(v), p),
        0 <= i < v.len(),
    ensures
        (p matches RColumnPlan::Ready(t) && t.stype() == SEXPTYPE::INTSXP && t.ints().len() == v.len()
            && t.ints()[i] == match v[i] { Some(x) => x, None => NA_INTEGER }),
{
}

/// An 8-bit integer column comes back as an integer vector of the widened values, null as `NA`.
pub proof fn lemma_int8_column_in_r(v: Seq<Option<i8>>, p: RColumnPlan, i: int)
    requires
        r_plan_of(ColumnData::Int8(v), p),
        0 <= i < v.len(),
    ensures
        (p matches RColumnPlan::Ready(t) && t.stype() == SEXPTYPE::INTSXP && t.ints().len() == v.len()
            && t.ints()[i] == match v[i] { Some(x) => x as i32, None => NA_INTEGER }),
{
}

/// A 16-bit integer column comes back as an integer vector of the widened values, null as `NA`.
pub proof fn lemma_int16_column_in_r(v: Seq<Option<i16>>, p: RColumnPlan, i: int)
    requires
        r_plan_of(ColumnData::Int16(v), p),
        0 <= i < v.len(),
    ensures
        (p matches RColumnPlan::Ready(t) && t.stype() == SEXPTYPE::INTSXP && t.ints().len() == v.len()
            && t.ints()[i] == match v[i] { Some(x) => x as i32, None => NA_INTEGER }),
{
}

/// A byte column comes back as a raw vector, null as `0`.
pub proof fn lemma_uint8_column_in_r(v: Seq<Option<u8>>, p: RColumnPlan, i: int)
    requires
        r_plan_of(ColumnData::UInt8(v), p),
        0 <= i < v.len(),
    ensures
        (p matches RColumnPlan::Ready(t) && t.stype() == SEXPTYPE::RAWSXP && t.raws().len() == v.len()
            && t.raws()[i] == match v[i] { Some(x) => x, None => 0u8 }),
{
}

/// A 64-bit float column comes back as a double vector of the same bits, null as `NA_real_`.
pub proof fn lemma_float64_column_in_r(v: Seq<Option<u64>>, p: RColumnPlan, i: int)
    requires
        r_plan_of(ColumnData::Float64(v), p),
        0 <= i < v.len(),
    ensures
        (p matches RColumnPlan::Ready(t) && t.stype() == SEXPTYPE::REALSXP && t.reals().len() == v.len()
            && t.reals()[i] == match v[i] { Some(b) => b, None => NA_REAL_BITS }),
{
}

/// A boolean column comes back as a logical vector: true as `1`, false as `0`, null as `NA`.
pub proof fn lemma_boolean_column_in_r(v: Seq<Option<bool>>, p: RColumnPlan, i: int)
    requires
        r_plan_of(ColumnData::Boolean(v), p),
        0 <= i < v.len(),
    ensures
        (p matches RColumnPlan::Ready(t) && t.stype() == SEXPTYPE::LGLSXP && t.ints().len() == v.len()
            && t.ints()[i] == match v[i] { Some(true) => 1i32, Some(false) => 0i32, None => crate::sexp::NA_LOGICAL }),
{
}

/// A string column comes back as a character vector of the same strings, null as `NA`.
pub proof fn lemma_utf8_column_in_r(v: Seq<Option<Seq<char>>>, p: RColumnPlan, i: int)
    requires
        r_plan_of(ColumnData::Utf8(v), p),
        0 <= i < v.len(),
    ensures
        (p matches RColumnPlan::Ready(t) && t.stype() == SEXPTYPE::STRSXP && t.strs().len() == v.len()
            && t.strs()[i] == v[i]),
{
}

/// A type R has no vector for comes back as a character vector of as many
/// `NA`s; dates, timestamps, 64-bit integers and 32-bit floats are handed on
/// slot for slot.
pub proof fn lemma_other_columns_in_r(d: ColumnData, p: RColumnPlan)
    requires
        r_plan_of(d, p),
    ensures
        d is Other ==> (p matches RColumnPlan::Ready(t) && t.stype() == SEXPTYPE::STRSXP
            && t.strs().len() == d->Other_0 && forall|i: int| 0 <= i < t.strs().len() ==> t.strs()[i] is None),
        d is Date32 ==> (p matches RColumnPlan::Days(w) && w@ == d->Date32_0),
        d is TimestampSecond ==> (p matches RColumnPlan::Seconds(w, _) && w@ == d->TimestampSecond_0),
        d is Int64 ==> (p matches RColumnPlan::Wide(w) && w@ == d->Int64_0),
        d is Float32 ==> (p matches RColumnPlan::Narrow(w) && w@ == d->Float32_0),
{
}

} // verus!
