//! Arrow columns and record batches from R vectors and data frames.
//!
//! Each R column becomes the Arrow array its class or type calls for: a
//! factor a string dictionary, a `Date` day counts, a `POSIXct` second counts
//! (with its time zone), and plain vectors the matching primitive, boolean or
//! string array. R's `NA` becomes an Arrow null throughout. A data frame
//! becomes a record batch of its columns under their names.
use crate::arrow::slots_of_codes;
use crate::condition::{copy_strings, has_class, inherits};
use crate::from_r::{SexpError, SexpErrorView, SexpTypeError, TryFromSexp};
use crate::sexp::{copy_slice, opt_strs_view, Sexp, SEXPTYPE, NA_INTEGER, NA_REAL_BITS};
use crate::text::{decimal, push_str, string_of, usize_to_string};
use vstd::prelude::*;

verus! {

/// An Arrow error.
#[verifier::external_type_specification]
#[verifier::external_body]
pub struct ExArrowError(arrow_schema::ArrowError);

/// What an Arrow column holds, slot by slot (`None` is null).
pub enum ColumnData {
    /// 32-bit integers.
    Int32(Seq<Option<i32>>),
    /// Bytes.
    UInt8(Seq<Option<u8>>),
    /// Booleans.
    Boolean(Seq<Option<bool>>),
    /// UTF-8 strings.
    Utf8(Seq<Option<Seq<char>>>),
    /// 64-bit floats, each as its IEEE-754 bits.
    Float64(Seq<Option<u64>>),
    /// Days since 1970-01-01.
    Date32(Seq<Option<i32>>),
    /// Seconds since the epoch, with an optional time zone.
    TimestampSecond(Seq<Option<i64>>, Option<Seq<char>>),
    /// 32-bit keys (0-based) into a dictionary of strings.
    Dictionary(Seq<Option<i32>>, Seq<Seq<char>>),
    /// 8-bit integers.
    Int8(Seq<Option<i8>>),
    /// 16-bit integers.
    Int16(Seq<Option<i16>>),
    /// 64-bit integers.
    Int64(Seq<Option<i64>>),
    /// 32-bit floats, each as its IEEE-754 bits.
    Float32(Seq<Option<u32>>),
    /// A dictionary with 32-bit keys over values that are not strings: its
    /// length and whether it has a null.
    KeyedOther(nat, bool),
    /// An array of another type: its length and whether it has a null.
    Other(nat, bool),
}

/// The number of slots.
pub open spec fn column_len(d: ColumnData) -> nat {
    match d {
        ColumnData::Int32(v) => v.len(),
        ColumnData::UInt8(v) => v.len(),
        ColumnData::Boolean(v) => v.len(),
        ColumnData::Utf8(v) => v.len(),
        ColumnData::Float64(v) => v.len(),
        ColumnData::Date32(v) => v.len(),
        ColumnData::TimestampSecond(v, _) => v.len(),
        ColumnData::Dictionary(k, _) => k.len(),
        ColumnData::Int8(v) => v.len(),
        ColumnData::Int16(v) => v.len(),
        ColumnData::Int64(v) => v.len(),
        ColumnData::Float32(v) => v.len(),
        ColumnData::KeyedOther(n, _) => n,
        ColumnData::Other(n, _) => n,
    }
}

/// `v` has a null slot.
pub open spec fn has_none<T>(v: Seq<Option<T>>) -> bool {
    exists|i: int| 0 <= i < v.len() && v[i] is None
}

/// Whether some slot is null (what makes the column's field nullable).
pub open spec fn column_has_null(d: ColumnData) -> bool {
    match d {
        ColumnData::Int32(v) => has_none(v),
        ColumnData::UInt8(v) => has_none(v),
        ColumnData::Boolean(v) => has_none(v),
        ColumnData::Utf8(v) => has_none(v),
        ColumnData::Float64(v) => has_none(v),
        ColumnData::Date32(v) => has_none(v),
        ColumnData::TimestampSecond(v, _) => has_none(v),
        ColumnData::Dictionary(k, _) => has_none(k),
        ColumnData::Int8(v) => has_none(v),
        ColumnData::Int16(v) => has_none(v),
        ColumnData::Int64(v) => has_none(v),
        ColumnData::Float32(v) => has_none(v),
        ColumnData::KeyedOther(_, nulls) => nulls,
        ColumnData::Other(_, nulls) => nulls,
    }
}

/// An Arrow array of any type (an `ArrayRef`). Verified code reaches its
/// contents only through [`arrow_column_data`]; the array itself is there for
/// callers outside the library.
#[verifier::external_body]
pub struct ArrowColumn {
    pub array: arrow_array::ArrayRef,
}

/// What an Arrow column holds.
pub uninterp spec fn arrow_column_data(c: ArrowColumn) -> ColumnData;

/// `Int32Array::from(Vec<Option<i32>>)`, as a column.
#[verifier::external_body]
fn column_from_int32(v: Vec<Option<i32>>) -> (r: ArrowColumn)
    ensures
        arrow_column_data(r) == ColumnData::Int32(v@),
{
    ArrowColumn { array: std::sync::Arc::new(arrow_array::Int32Array::from(v)) }
}

/// `UInt8Array::from(Vec<u8>)` (no nulls), as a column.
#[verifier::external_body]
fn column_from_uint8(v: Vec<u8>) -> (r: ArrowColumn)
    ensures
        arrow_column_data(r) == ColumnData::UInt8(v@.map_values(|x: u8| Some(x))),
{
    ArrowColumn { array: std::sync::Arc::new(arrow_array::UInt8Array::from(v)) }
}

/// A boolean array, as a column.
#[verifier::external_body]
fn column_from_boolean(a: arrow_array::BooleanArray) -> (r: ArrowColumn)
    ensures
        arrow_column_data(r) == ColumnData::Boolean(crate::arrow::boolean_array_slots(a)),
{
    ArrowColumn { array: std::sync::Arc::new(a) }
}

/// `StringArray::from(Vec<Option<String>>)`, as a column.
#[verifier::external_body]
fn column_from_strings(v: Vec<Option<String>>) -> (r: ArrowColumn)
    ensures
        arrow_column_data(r) == ColumnData::Utf8(opt_strs_view(v@)),
{
    ArrowColumn { array: std::sync::Arc::new(arrow_array::StringArray::from(v)) }
}

/// The slots of a float column made from `bits` with validity `valid`.
pub open spec fn bits_slots(bits: Seq<u64>, valid: Seq<bool>) -> Seq<Option<u64>> {
    Seq::new(bits.len(), |i: int| if valid[i] { Some(bits[i]) } else { None })
}

/// `Float64Array::new` over the buffer of `bits` (each value's IEEE-754
/// bits) with the validity `valid` (`NullBuffer::from`), as a column.
#[verifier::external_body]
fn column_from_float_bits(bits: Vec<u64>, valid: Vec<bool>) -> (r: ArrowColumn)
    requires
        bits@.len() == valid@.len(),
    ensures
        arrow_column_data(r) == ColumnData::Float64(bits_slots(bits@, valid@)),
{
    let values = arrow_buffer::ScalarBuffer::from(arrow_buffer::Buffer::from_vec(bits));
    let nulls = Some(arrow_buffer::NullBuffer::from(valid));
    ArrowColumn { array: std::sync::Arc::new(arrow_array::Float64Array::new(values, nulls)) }
}

/// `Date32Array::from(Vec<Option<i32>>)`, as a column.
#[verifier::external_body]
fn column_from_days(v: Vec<Option<i32>>) -> (r: ArrowColumn)
    ensures
        arrow_column_data(r) == ColumnData::Date32(v@),
{
    ArrowColumn { array: std::sync::Arc::new(arrow_array::Date32Array::from(v)) }
}

/// `TimestampSecondArray::from(Vec<Option<i64>>)` with the time zone `tz`
/// (`with_timezone_opt`), as a column.
#[verifier::external_body]
fn column_from_seconds(v: Vec<Option<i64>>, tz: Option<String>) -> (r: ArrowColumn)
    ensures
        arrow_column_data(r) == ColumnData::TimestampSecond(v@, crate::sexp::opt_str_view(tz)),
{
    let a = arrow_array::TimestampSecondArray::from(v).with_timezone_opt(tz);
    ArrowColumn { array: std::sync::Arc::new(a) }
}

/// Every present key indexes one of `n` dictionary entries.
pub open spec fn keys_in_range(keys: Seq<Option<i32>>, n: nat) -> bool {
    forall|i: int| 0 <= i < keys.len() ==> (#[trigger] keys[i] matches Some(k) ==> 0 <= k < n)
}

/// `DictionaryArray::try_new` over `Int32Array::from(keys)` and
/// `StringArray::from(levels)`: it fails exactly when a present key does not
/// index an entry.
#[verifier::external_body]
fn column_from_dictionary(keys: Vec<Option<i32>>, levels: Vec<String>) -> (r: Result<
    ArrowColumn,
    arrow_schema::ArrowError,
>)
    ensures
        r is Ok <==> keys_in_range(keys@, levels@.len()),
        r matches Ok(c) ==> arrow_column_data(c) == ColumnData::Dictionary(
            keys@,
            crate::from_r::strings_view(levels@),
        ),
{
    let values: arrow_array::ArrayRef = std::sync::Arc::new(arrow_array::StringArray::from(levels));
    let d = arrow_array::DictionaryArray::<arrow_array::types::Int32Type>::try_new(
        arrow_array::Int32Array::from(keys),
        values,
    )?;
    Ok(ArrowColumn { array: std::sync::Arc::new(d) })
}

/// `ArrowError`'s `Display` text (`to_string`).
#[verifier::external_body]
fn arrow_error_text(e: &arrow_schema::ArrowError) -> String {
    e.to_string()
}

/// How an R column converts to Arrow, in the order the checks are made:
/// by class first (factor, `Date`, `POSIXct`), then by type.
#[derive(Debug, Clone, Copy, PartialEq, Eq, Structural)]
pub enum ColumnKind {
    Factor,
    Date,
    PosixCt,
    Logical,
    Integer,
    Real,
    Character,
    Raw,
}

/// The kind of an R column, or why it has none.
pub open spec fn column_kind_of(col: Sexp) -> Result<ColumnKind, SexpErrorView> {
    if col.stype() == SEXPTYPE::INTSXP && has_class(col, "factor"@) {
        Ok(ColumnKind::Factor)
    } else if col.stype() == SEXPTYPE::REALSXP && has_class(col, "Date"@) {
        Ok(ColumnKind::Date)
    } else if col.stype() == SEXPTYPE::REALSXP && has_class(col, "POSIXct"@) {
        Ok(ColumnKind::PosixCt)
    } else {
        match col.stype() {
            SEXPTYPE::REALSXP => Ok(ColumnKind::Real),
            SEXPTYPE::INTSXP => Ok(ColumnKind::Integer),
            SEXPTYPE::LGLSXP => Ok(ColumnKind::Logical),
            SEXPTYPE::STRSXP => Ok(ColumnKind::Character),
            SEXPTYPE::RAWSXP => Ok(ColumnKind::Raw),
            t => Err(
                SexpErrorView::InvalidValue(
                    "unsupported column type for Arrow conversion: "@ + t.spec_name(),
                ),
            ),
        }
    }
}

/// The kind of an R column (see [`column_kind_of`]).
pub fn column_kind(col: &Sexp) -> (r: Result<ColumnKind, SexpError>)
    ensures
        match r {
            Ok(k) => column_kind_of(*col) == Ok::<ColumnKind, SexpErrorView>(k),
            Err(e) => column_kind_of(*col) == Err::<ColumnKind, SexpErrorView>(e@),
        },
{
    let t = col.type_of();
    if t == SEXPTYPE::INTSXP && inherits(col, "factor") {
        return Ok(ColumnKind::Factor);
    }
    if t == SEXPTYPE::REALSXP && inherits(col, "Date") {
        return Ok(ColumnKind::Date);
    }
    if t == SEXPTYPE::REALSXP && inherits(col, "POSIXct") {
        return Ok(ColumnKind::PosixCt);
    }
    match t {
        SEXPTYPE::REALSXP => Ok(ColumnKind::Real),
        SEXPTYPE::INTSXP => Ok(ColumnKind::Integer),
        SEXPTYPE::LGLSXP => Ok(ColumnKind::Logical),
        SEXPTYPE::STRSXP => Ok(ColumnKind::Character),
        SEXPTYPE::RAWSXP => Ok(ColumnKind::Raw),
        _ => {
            let mut m = string_of("unsupported column type for Arrow conversion: ");
            push_str(&mut m, t.name());
            Err(SexpError::InvalidValue(m))
        },
    }
}

/// An integer code as an Arrow slot: `NA` is null.
pub open spec fn int_slot(x: i32) -> Option<i32> {
    if x == NA_INTEGER {
        None
    } else {
        Some(x)
    }
}

/// A double (its bits) as an Arrow slot: `NA_real_` is null, every other
/// value, `NaN` included, is kept.
pub open spec fn real_slot(b: u64) -> Option<u64> {
    if b == NA_REAL_BITS {
        None
    } else {
        Some(b)
    }
}

/// A factor code as a dictionary key: 1-based becomes 0-based, `NA` null.
pub open spec fn factor_key(x: i32) -> Option<i32> {
    if x == NA_INTEGER {
        None
    } else {
        Some((x - 1) as i32)
    }
}

/// The text R hands over for a string element (`NA` reads as `"NA"`).
pub open spec fn elt_text(o: Option<Seq<char>>) -> Seq<char> {
    match o {
        Some(t) => t,
        None => "NA"@,
    }
}

/// The levels of a factor, when it has a character `levels` attribute.
pub open spec fn factor_levels(col: Sexp) -> Option<Seq<Seq<char>>> {
    match col.attr("levels"@) {
        Some(l) => if l.stype() == SEXPTYPE::STRSXP {
            Some(l.strs().map_values(|o: Option<Seq<char>>| elt_text(o)))
        } else {
            None
        },
        None => None,
    }
}

/// The time zone of a `POSIXct` column: the first element of a non-empty
/// character `tzone` attribute, unless it is empty.
pub open spec fn tzone_of(col: Sexp) -> Option<Seq<char>> {
    match col.attr("tzone"@) {
        Some(z) => if z.stype() == SEXPTYPE::STRSXP && z.strs().len() > 0 && elt_text(
            z.strs()[0],
        ).len() > 0 {
            Some(elt_text(z.strs()[0]))
        } else {
            None
        },
        None => None,
    }
}

/// The whole-unit values of a `Date` (days) or `POSIXct` (seconds) column,
/// its doubles truncated toward zero and `NA` null; the caller reads them
/// off the doubles.
pub enum TimeValues {
    /// Days since 1970-01-01.
    Days(Vec<Option<i32>>),
    /// Seconds since the epoch.
    Seconds(Vec<Option<i64>>),
}

/// `t` carries the values a column of kind `Date` or `POSIXct` needs, one
/// per element (columns of other kinds need none).
pub open spec fn time_values_fit(col: Sexp, t: Option<TimeValues>) -> bool {
    match column_kind_of(col) {
        Ok(ColumnKind::Date) => t matches Some(TimeValues::Days(v)) && v@.len() == col.slen(),
        Ok(ColumnKind::PosixCt) => t matches Some(TimeValues::Seconds(v)) && v@.len() == col.slen(),
        _ => true,
    }
}

/// Why a column does not convert, where the library says so (a factor key
/// that indexes no level is reported by Arrow, in its own words).
pub open spec fn column_error_of(col: Sexp) -> Option<SexpErrorView> {
    match column_kind_of(col) {
        Err(e) => Some(e),
        Ok(ColumnKind::Factor) => if factor_levels(col) is None {
            Some(SexpErrorView::InvalidValue("factor missing levels attribute"@))
        } else {
            None
        },
        Ok(_) => None,
    }
}

/// Whether a column converts.
pub open spec fn column_converts(col: Sexp) -> bool {
    &&& column_error_of(col) is None
    &&& column_kind_of(col) == Ok::<ColumnKind, SexpErrorView>(ColumnKind::Factor) ==> keys_in_range(
        col.ints().map_values(|x: i32| factor_key(x)),
        factor_levels(col)->0.len(),
    )
}

/// What a converted column holds.
pub open spec fn column_data_of(col: Sexp, t: Option<TimeValues>) -> ColumnData {
    match column_kind_of(col) {
        Ok(ColumnKind::Factor) => ColumnData::Dictionary(
            col.ints().map_values(|x: i32| factor_key(x)),
            factor_levels(col)->0,
        ),
        Ok(ColumnKind::Date) => ColumnData::Date32(
            match t {
                Some(TimeValues::Days(v)) => v@,
                _ => Seq::empty(),
            },
        ),
        Ok(ColumnKind::PosixCt) => ColumnData::TimestampSecond(
            match t {
                Some(TimeValues::Seconds(v)) => v@,
                _ => Seq::empty(),
            },
            tzone_of(col),
        ),
        Ok(ColumnKind::Logical) => ColumnData::Boolean(slots_of_codes(col.ints())),
        Ok(ColumnKind::Integer) => ColumnData::Int32(col.ints().map_values(|x: i32| int_slot(x))),
        Ok(ColumnKind::Real) => ColumnData::Float64(col.reals().map_values(|b: u64| real_slot(b))),
        Ok(ColumnKind::Character) => ColumnData::Utf8(col.strs()),
        Ok(ColumnKind::Raw) => ColumnData::UInt8(col.raws().map_values(|x: u8| Some(x))),
        Err(_) => ColumnData::UInt8(Seq::empty()),
    }
}

/// A field of a record batch: the column's name and whether it has nulls.
pub struct FieldView {
    pub name: String,
    pub nullable: bool,
}

/// `Array::null_count` of a column: `0` exactly when no slot is null.
#[verifier::external_body]
fn column_null_count(c: &ArrowColumn) -> (r: usize)
    ensures
        (r == 0) == !column_has_null(arrow_column_data(*c)),
{
    c.array.null_count()
}

/// `Array::len` of a column: its number of slots.
#[verifier::external_body]
fn column_length(c: &ArrowColumn) -> (r: usize)
    ensures
        r == column_len(arrow_column_data(*c)),
{
    c.array.len()
}

/// Integer codes as Arrow slots.
fn int_slots(codes: &[i32]) -> (r: Vec<Option<i32>>)
    ensures
        r@ == codes@.map_values(|x: i32| int_slot(x)),
{
    let mut r: Vec<Option<i32>> = Vec::new();
    let mut i: usize = 0;
    while i < codes.len()
        invariant
            i <= codes@.len(),
            r@ == codes@.subrange(0, i as int).map_values(|x: i32| int_slot(x)),
        decreases codes@.len() - i,
    {
        let x = codes[i];
        r.push(if x == NA_INTEGER { None } else { Some(x) });
        proof {
            assert(codes@.subrange(0, i + 1).map_values(|x: i32| int_slot(x)) =~= codes@.subrange(
                0,
                i as int,
            ).map_values(|x: i32| int_slot(x)).push(int_slot(x)));
        }
        i = i + 1;
    }
    proof {
        assert(codes@.subrange(0, codes@.len() as int) =~= codes@);
    }
    r
}

/// Factor codes as dictionary keys.
fn factor_keys(codes: &[i32]) -> (r: Vec<Option<i32>>)
    ensures
        r@ == codes@.map_values(|x: i32| factor_key(x)),
{
    let mut r: Vec<Option<i32>> = Vec::new();
    let mut i: usize = 0;
    while i < codes.len()
        invariant
            i <= codes@.len(),
            r@ == codes@.subrange(0, i as int).map_values(|x: i32| factor_key(x)),
        decreases codes@.len() - i,
    {
        let x = codes[i];
        r.push(if x == NA_INTEGER { None } else { Some(x - 1) });
        proof {
            assert(codes@.subrange(0, i + 1).map_values(|x: i32| factor_key(x)) =~= codes@.subrange(
                0,
                i as int,
            ).map_values(|x: i32| factor_key(x)).push(factor_key(x)));
        }
        i = i + 1;
    }
    proof {
        assert(codes@.subrange(0, codes@.len() as int) =~= codes@);
    }
    r
}

/// The validity of each double: all but `NA_real_` are valid.
fn real_validity(bits: &[u64]) -> (r: Vec<bool>)
    ensures
        r@.len() == bits@.len(),
        bits_slots(bits@, r@) == bits@.map_values(|b: u64| real_slot(b)),
{
    let mut r: Vec<bool> = Vec::new();
    let mut i: usize = 0;
    while i < bits.len()
        invariant
            i <= bits@.len(),
            r@.len() == i,
            forall|k: int| 0 <= k < i ==> #[trigger] r@[k] == (bits@[k] != NA_REAL_BITS),
        decreases bits@.len() - i,
    {
        r.push(bits[i] != NA_REAL_BITS);
        i = i + 1;
    }
    proof {
        assert(bits_slots(bits@, r@) =~= bits@.map_values(|b: u64| real_slot(b)));
    }
    r
}

/// The texts of a character vector's elements (`NA` as `"NA"`).
fn elt_texts(v: &[Option<String>]) -> (r: Vec<String>)
    ensures
        crate::from_r::strings_view(r@) == opt_strs_view(v@).map_values(
            |o: Option<Seq<char>>| elt_text(o),
        ),
{
    let mut r: Vec<String> = Vec::new();
    let mut i: usize = 0;
    while i < v.len()
        invariant
            i <= v@.len(),
            r@.len() == i,
            forall|k: int|
                0 <= k < i ==> (#[trigger] r@[k])@ == elt_text(crate::sexp::opt_str_view(v@[k])),
        decreases v@.len() - i,
    {
        let t = match &v[i] {
            Some(s) => s.clone(),
            None => string_of("NA"),
        };
        r.push(t);
        i = i + 1;
    }
    proof {
        assert(crate::from_r::strings_view(r@) =~= opt_strs_view(v@).map_values(
            |o: Option<Seq<char>>| elt_text(o),
        ));
    }
    r
}

/// The time zone of a `POSIXct` column (see [`tzone_of`]).
fn tzone(col: &Sexp) -> (r: Option<String>)
    ensures
        crate::sexp::opt_str_view(r) == tzone_of(*col),
{
    match col.get_attr("tzone") {
        Some(z) => {
            if z.type_of() != SEXPTYPE::STRSXP {
                return None;
            }
            let v = z.str_slice();
            proof {
                z.lemma_type_consistent();
            }
            if v.len() == 0 {
                return None;
            }
            proof {
                assert(z.strs()[0] == crate::sexp::opt_str_view(v@[0]));
            }
            let t = match &v[0] {
                Some(s) => s.clone(),
                None => string_of("NA"),
            };
            if t.as_str().unicode_len() == 0 {
                None
            } else {
                Some(t)
            }
        },
        None => None,
    }
}

/// The type error for an object that is not of type `expected`.
pub open spec fn type_mismatch(s: Sexp, expected: SEXPTYPE) -> Option<SexpErrorView> {
    if s.stype() != expected {
        Some(SexpErrorView::Type(SexpTypeError { expected, actual: s.stype() }))
    } else {
        None
    }
}

/// An integer vector as an `Int32Array` (`NA` null); other types are
/// refused.
pub fn int32_array_from_sexp(s: &Sexp) -> (r: Result<ArrowColumn, SexpError>)
    ensures
        r is Ok <==> type_mismatch(*s, SEXPTYPE::INTSXP) is None,
        r matches Err(e) ==> type_mismatch(*s, SEXPTYPE::INTSXP) == Some(e@),
        r matches Ok(c) ==> arrow_column_data(c) == ColumnData::Int32(
            s.ints().map_values(|x: i32| int_slot(x)),
        ),
{
    let actual = s.type_of();
    if actual != SEXPTYPE::INTSXP {
        return Err(SexpError::Type(SexpTypeError { expected: SEXPTYPE::INTSXP, actual }));
    }
    Ok(column_from_int32(int_slots(s.int_slice())))
}

/// A raw vector as a `UInt8Array` (no nulls); other types are refused.
pub fn uint8_array_from_sexp(s: &Sexp) -> (r: Result<ArrowColumn, SexpError>)
    ensures
        r is Ok <==> type_mismatch(*s, SEXPTYPE::RAWSXP) is None,
        r matches Err(e) ==> type_mismatch(*s, SEXPTYPE::RAWSXP) == Some(e@),
        r matches Ok(c) ==> arrow_column_data(c) == ColumnData::UInt8(
            s.raws().map_values(|x: u8| Some(x)),
        ),
{
    let actual = s.type_of();
    if actual != SEXPTYPE::RAWSXP {
        return Err(SexpError::Type(SexpTypeError { expected: SEXPTYPE::RAWSXP, actual }));
    }
    Ok(column_from_uint8(copy_slice(s.raw_slice())))
}

/// A double vector as a `Float64Array` (`NA_real_` null, the bits of every
/// other value kept); other types are refused.
pub fn float64_array_from_sexp(s: &Sexp) -> (r: Result<ArrowColumn, SexpError>)
    ensures
        r is Ok <==> type_mismatch(*s, SEXPTYPE::REALSXP) is None,
        r matches Err(e) ==> type_mismatch(*s, SEXPTYPE::REALSXP) == Some(e@),
        r matches Ok(c) ==> arrow_column_data(c) == ColumnData::Float64(
            s.reals().map_values(|b: u64| real_slot(b)),
        ),
{
    let actual = s.type_of();
    if actual != SEXPTYPE::REALSXP {
        return Err(SexpError::Type(SexpTypeError { expected: SEXPTYPE::REALSXP, actual }));
    }
    let bits = s.real_slice();
    let valid = real_validity(bits);
    Ok(column_from_float_bits(copy_slice(bits), valid))
}

/// A character vector as a `StringArray` (`NA` null); other types are
/// refused.
pub fn string_array_from_sexp(s: &Sexp) -> (r: Result<ArrowColumn, SexpError>)
    ensures
        r is Ok <==> type_mismatch(*s, SEXPTYPE::STRSXP) is None,
        r matches Err(e) ==> type_mismatch(*s, SEXPTYPE::STRSXP) == Some(e@),
        r matches Ok(c) ==> arrow_column_data(c) == ColumnData::Utf8(s.strs()),
{
    let actual = s.type_of();
    if actual != SEXPTYPE::STRSXP {
        return Err(SexpError::Type(SexpTypeError { expected: SEXPTYPE::STRSXP, actual }));
    }
    Ok(column_from_strings(copy_strings(s.str_slice())))
}

/// A logical vector as a `BooleanArray` column (`NA` null); other types are
/// refused.
pub fn boolean_array_from_sexp(s: &Sexp) -> (r: Result<ArrowColumn, SexpError>)
    ensures
        r is Ok <==> type_mismatch(*s, SEXPTYPE::LGLSXP) is None,
        r matches Err(e) ==> type_mismatch(*s, SEXPTYPE::LGLSXP) == Some(e@),
        r matches Ok(c) ==> arrow_column_data(c) == ColumnData::Boolean(slots_of_codes(s.ints())),
{
    match <arrow_array::BooleanArray as TryFromSexp>::try_from_sexp(s) {
        Ok(a) => Ok(column_from_boolean(a)),
        Err(e) => Err(e),
    }
}

/// Why a factor does not convert to a string dictionary, where the library
/// says so.
pub open spec fn factor_error_of(s: Sexp) -> Option<SexpErrorView> {
    if !(s.stype() == SEXPTYPE::INTSXP && has_class(s, "factor"@)) {
        Some(SexpErrorView::InvalidValue("expected R factor (integer with levels attribute)"@))
    } else if factor_levels(s) is None {
        Some(SexpErrorView::InvalidValue("factor missing levels attribute"@))
    } else {
        None
    }
}

/// A factor as a string dictionary: its levels the dictionary, its codes
/// 0-based keys (`NA` null). Refused for anything but a factor with
/// character levels, and (by Arrow, in its own words) when a code names no
/// level.
pub fn string_dictionary_from_sexp(s: &Sexp) -> (r: Result<ArrowColumn, SexpError>)
    ensures
        r is Ok <==> factor_error_of(*s) is None && keys_in_range(
            s.ints().map_values(|x: i32| factor_key(x)),
            factor_levels(*s)->0.len(),
        ),
        r matches Err(e) ==> match factor_error_of(*s) {
            Some(x) => e@ == x,
            None => e@ is InvalidValue,
        },
        r matches Ok(c) ==> arrow_column_data(c) == ColumnData::Dictionary(
            s.ints().map_values(|x: i32| factor_key(x)),
            factor_levels(*s)->0,
        ),
{
    if !(s.type_of() == SEXPTYPE::INTSXP && inherits(s, "factor")) {
        return Err(
            SexpError::InvalidValue(string_of("expected R factor (integer with levels attribute)")),
        );
    }
    let levels = match s.get_attr("levels") {
        Some(l) => {
            if l.type_of() != SEXPTYPE::STRSXP {
                return Err(SexpError::InvalidValue(string_of("factor missing levels attribute")));
            }
            elt_texts(l.str_slice())
        },
        None => {
            return Err(SexpError::InvalidValue(string_of("factor missing levels attribute")));
        },
    };
    let keys = factor_keys(s.int_slice());
    match column_from_dictionary(keys, levels) {
        Ok(c) => Ok(c),
        Err(e) => Err(SexpError::InvalidValue(arrow_error_text(&e))),
    }
}

/// What converting an R vector to an Arrow array of its type gives, or why
/// it does not convert.
pub open spec fn array_error_of(s: Sexp) -> Option<SexpErrorView> {
    match s.stype() {
        SEXPTYPE::REALSXP | SEXPTYPE::INTSXP | SEXPTYPE::LGLSXP | SEXPTYPE::STRSXP
        | SEXPTYPE::RAWSXP => None,
        t => Some(
            SexpErrorView::InvalidValue("unsupported R type for Arrow conversion: "@ + t.spec_name()),
        ),
    }
}

/// The Arrow array of an R vector's type: doubles, integers, logicals,
/// strings or bytes (classes are not looked at); other types are refused.
pub fn array_from_sexp(s: &Sexp) -> (r: Result<ArrowColumn, SexpError>)
    ensures
        r is Ok <==> array_error_of(*s) is None,
        r matches Err(e) ==> array_error_of(*s) == Some(e@),
        r matches Ok(c) ==> arrow_column_data(c) == match s.stype() {
            SEXPTYPE::REALSXP => ColumnData::Float64(s.reals().map_values(|b: u64| real_slot(b))),
            SEXPTYPE::INTSXP => ColumnData::Int32(s.ints().map_values(|x: i32| int_slot(x))),
            SEXPTYPE::LGLSXP => ColumnData::Boolean(slots_of_codes(s.ints())),
            SEXPTYPE::STRSXP => ColumnData::Utf8(s.strs()),
            _ => ColumnData::UInt8(s.raws().map_values(|x: u8| Some(x))),
        },
{
    let t = s.type_of();
    match t {
        SEXPTYPE::REALSXP => float64_array_from_sexp(s),
        SEXPTYPE::INTSXP => int32_array_from_sexp(s),
        SEXPTYPE::LGLSXP => boolean_array_from_sexp(s),
        SEXPTYPE::STRSXP => string_array_from_sexp(s),
        SEXPTYPE::RAWSXP => uint8_array_from_sexp(s),
        _ => {
            let mut m = string_of("unsupported R type for Arrow conversion: ");
            push_str(&mut m, t.name());
            Err(SexpError::InvalidValue(m))
        },
    }
}

/// One column of a data frame as an Arrow field and array, by its kind
/// (see [`column_kind_of`]): `Date` and `POSIXct` columns take their whole
/// units from `times`. The field is nullable when some slot is null (never
/// for bytes).
pub fn sexp_column_to_arrow(col: &Sexp, name: &str, times: &Option<TimeValues>) -> (r: Result<
    (FieldView, ArrowColumn),
    SexpError,
>)
    requires
        time_values_fit(*col, *times),
    ensures
        r is Ok <==> column_converts(*col),
        r matches Err(e) ==> match column_error_of(*col) {
            Some(x) => e@ == x,
            None => e@ is InvalidValue,
        },
        r matches Ok((f, c)) ==> f.name@ == name@ && arrow_column_data(c) == column_data_of(
            *col,
            *times,
        ) && f.nullable == column_has_null(column_data_of(*col, *times)),
{
    let kind = match column_kind(col) {
        Ok(k) => k,
        Err(e) => {
            return Err(e);
        },
    };
    let column = match kind {
        ColumnKind::Factor => string_dictionary_from_sexp(col),
        ColumnKind::Date => match times {
            Some(TimeValues::Days(v)) => Ok(column_from_days(copy_slice(v.as_slice()))),
            _ => Ok(column_from_days(Vec::new())),
        },
        ColumnKind::PosixCt => match times {
            Some(TimeValues::Seconds(v)) => Ok(column_from_seconds(copy_slice(v.as_slice()), tzone(col))),
            _ => Ok(column_from_seconds(Vec::new(), None)),
        },
        ColumnKind::Logical => boolean_array_from_sexp(col),
        ColumnKind::Integer => int32_array_from_sexp(col),
        ColumnKind::Real => float64_array_from_sexp(col),
        ColumnKind::Character => string_array_from_sexp(col),
        ColumnKind::Raw => uint8_array_from_sexp(col),
    };
    match column {
        Ok(c) => {
            let nullable = match kind {
                ColumnKind::Raw => false,
                _ => column_null_count(&c) > 0,
            };
            Ok((FieldView { name: string_of(name), nullable }, c))
        },
        Err(e) => Err(e),
    }
}

/// An Arrow record batch. Verified code reaches its contents only through
/// [`record_batch_view`]; the batch itself is there for callers outside the
/// library.
#[verifier::external_body]
pub struct ArrowRecordBatch {
    pub batch: arrow_array::RecordBatch,
}

/// The columns of a record batch, in order: each field's name, whether it is
/// nullable, and what the column holds.
pub uninterp spec fn record_batch_view(b: ArrowRecordBatch) -> Seq<(Seq<char>, bool, ColumnData)>;

/// The fields and columns a record batch is made of.
pub open spec fn batch_of(fields: Seq<FieldView>, columns: Seq<ArrowColumn>) -> Seq<
    (Seq<char>, bool, ColumnData),
> {
    Seq::new(
        columns.len(),
        |i: int| (fields[i].name@, fields[i].nullable, arrow_column_data(columns[i])),
    )
}

/// All columns have as many slots as the first.
pub open spec fn same_lengths(columns: Seq<ArrowColumn>) -> bool {
    forall|i: int|
        0 <= i < columns.len() ==> column_len(arrow_column_data(#[trigger] columns[i]))
            == column_len(arrow_column_data(columns[0]))
}

/// There is a column, and all have as many slots as the first.
pub open spec fn batch_shaped(columns: Seq<ArrowColumn>) -> bool {
    columns.len() > 0 && same_lengths(columns)
}

/// Every column with a null slot has a nullable field.
pub open spec fn nulls_declared(fields: Seq<FieldView>, columns: Seq<ArrowColumn>) -> bool {
    forall|i: int|
        0 <= i < fields.len() && !(#[trigger] fields[i]).nullable ==> !column_has_null(
            arrow_column_data(columns[i]),
        )
}

/// `RecordBatch::try_new` over the arrays of the columns and a schema with
/// one `Field::new` per column: its name, the data type of the array, and
/// whether it is nullable. With the types taken from the arrays and no null
/// in a column that is not nullable, it fails exactly when there is no
/// column or the lengths differ.
#[verifier::external_body]
fn record_batch_try_new(fields: Vec<FieldView>, columns: Vec<ArrowColumn>) -> (r: Result<
    ArrowRecordBatch,
    arrow_schema::ArrowError,
>)
    requires
        fields@.len() == columns@.len(),
        nulls_declared(fields@, columns@),
    ensures
        r is Ok <==> batch_shaped(columns@),
        r matches Ok(b) ==> record_batch_view(b) == batch_of(fields@, columns@),
{
    let schema_fields: Vec<arrow_schema::Field> = fields.iter().zip(columns.iter()).map(
        |(f, c)| arrow_schema::Field::new(f.name.clone(), c.array.data_type().clone(), f.nullable),
    ).collect();
    let arrays: Vec<arrow_array::ArrayRef> = columns.into_iter().map(|c| c.array).collect();
    let schema = std::sync::Arc::new(arrow_schema::Schema::new(schema_fields));
    let batch = arrow_array::RecordBatch::try_new(schema, arrays)?;
    Ok(ArrowRecordBatch { batch })
}

/// The name of column `i` of a data frame: its entry in a character `names`
/// attribute (`NA` as `"NA"`), else `V1`, `V2`, ...
pub open spec fn frame_column_name(df: Sexp, i: int) -> Seq<char> {
    match df.attr("names"@) {
        Some(n) => if n.stype() == SEXPTYPE::STRSXP {
            elt_text(n.strs()[i])
        } else {
            "V"@ + decimal((i + 1) as nat)
        },
        None => "V"@ + decimal((i + 1) as nat),
    }
}

/// A character `names` attribute names every column.
pub open spec fn frame_names_readable(df: Sexp) -> bool {
    match df.attr("names"@) {
        Some(n) => n.stype() == SEXPTYPE::STRSXP ==> n.strs().len() >= df.elems().len(),
        None => true,
    }
}

/// The column names of a data frame.
fn frame_names(df: &Sexp) -> (r: Vec<String>)
    requires
        df.stype() == SEXPTYPE::VECSXP,
        frame_names_readable(*df),
    ensures
        r@.len() == df.elems().len(),
        forall|i: int| 0 <= i < r@.len() ==> (#[trigger] r@[i])@ == frame_column_name(*df, i),
{
    let ncol = df.elem_slice().len();
    let mut r: Vec<String> = Vec::new();
    let names = df.get_attr("names");
    let mut i: usize = 0;
    while i < ncol
        invariant
            ncol == df.elems().len(),
            names matches Some(n) ==> df.attr("names"@) == Some(*n),
            names is None ==> df.attr("names"@) is None,
            frame_names_readable(*df),
            i <= ncol,
            r@.len() == i,
            forall|k: int| 0 <= k < i ==> (#[trigger] r@[k])@ == frame_column_name(*df, k),
        decreases ncol - i,
    {
        let t = match names {
            Some(n) => {
                if n.type_of() == SEXPTYPE::STRSXP {
                    let v = n.str_slice();
                    proof {
                        n.lemma_type_consistent();
                        assert(n.strs()[i as int] == crate::sexp::opt_str_view(v@[i as int]));
                    }
                    match &v[i] {
                        Some(s) => s.clone(),
                        None => string_of("NA"),
                    }
                } else {
                    let mut m = string_of("V");
                    let d = usize_to_string(i + 1);
                    push_str(&mut m, d.as_str());
                    m
                }
            },
            None => {
                let mut m = string_of("V");
                let d = usize_to_string(i + 1);
                push_str(&mut m, d.as_str());
                m
            },
        };
        r.push(t);
        i = i + 1;
    }
    r
}

/// A converted column has one slot per element.
proof fn lemma_column_len(col: Sexp, t: Option<TimeValues>)
    requires
        column_converts(col),
        time_values_fit(col, t),
    ensures
        column_len(column_data_of(col, t)) == col.slen(),
{
    col.lemma_type_consistent();
}

/// Every column of the data frame `df` converts.
pub open spec fn columns_convert(df: Sexp) -> bool {
    forall|i: int| 0 <= i < df.elems().len() ==> column_converts(#[trigger] df.elems()[i])
}

/// Every column of `df` has as many elements as the first.
pub open spec fn columns_same_length(df: Sexp) -> bool {
    forall|i: int| 0 <= i < df.elems().len() ==> (#[trigger] df.elems()[i]).slen() == df.elems()[0].slen()
}

/// Whether a data frame converts to a record batch: a list with at least
/// one column, every column converting, all of one length.
pub open spec fn frame_converts(df: Sexp) -> bool {
    &&& df.stype() == SEXPTYPE::VECSXP
    &&& df.elems().len() > 0
    &&& columns_convert(df)
    &&& columns_same_length(df)
}

/// Column `i` is the first that does not convert.
pub open spec fn first_unconverted(df: Sexp, i: int) -> bool {
    &&& 0 <= i < df.elems().len()
    &&& !column_converts(df.elems()[i])
    &&& forall|k: int| 0 <= k < i ==> column_converts(#[trigger] df.elems()[k])
}

/// Column `i` is the first whose length differs from the first column's.
pub open spec fn first_length_mismatch(df: Sexp, i: int) -> bool {
    &&& 0 < i < df.elems().len()
    &&& df.elems()[i].slen() != df.elems()[0].slen()
    &&& forall|k: int| 0 < k < i ==> (#[trigger] df.elems()[k]).slen() == df.elems()[0].slen()
}

/// What a length mismatch at column `i` reports.
pub open spec fn length_mismatch_text(df: Sexp, i: int) -> Seq<char> {
    "column '"@ + frame_column_name(df, i) + "' has length "@ + decimal(df.elems()[i].slen())
        + " but column '"@ + frame_column_name(df, 0) + "' has length "@ + decimal(
        df.elems()[0].slen(),
    )
}

/// The columns of the record batch a data frame converts to.
pub open spec fn frame_batch(df: Sexp, times: Seq<Option<TimeValues>>) -> Seq<
    (Seq<char>, bool, ColumnData),
> {
    Seq::new(
        df.elems().len(),
        |i: int|
            (
                frame_column_name(df, i),
                column_has_null(column_data_of(df.elems()[i], times[i])),
                column_data_of(df.elems()[i], times[i]),
            ),
    )
}

/// What the columns of `df` need from the caller: one entry per column,
/// with the whole units of each `Date` and `POSIXct` column.
pub open spec fn frame_times_fit(df: Sexp, times: Seq<Option<TimeValues>>) -> bool {
    &&& times.len() == df.elems().len()
    &&& forall|i: int| 0 <= i < times.len() ==> time_values_fit(df.elems()[i], #[trigger] times[i])
}

/// A data frame as a record batch: each column converted by
/// [`sexp_column_to_arrow`] under its name, in order. Refused when `df` is
/// not a list, at the first column that does not convert, at the first
/// column whose length differs from the first one's, and (by Arrow) when
/// there is no column.
pub fn record_batch_from_sexp(df: &Sexp, times: &[Option<TimeValues>]) -> (r: Result<
    ArrowRecordBatch,
    SexpError,
>)
    requires
        df.stype() == SEXPTYPE::VECSXP ==> frame_times_fit(*df, times@),
        frame_names_readable(*df),
    ensures
        r is Ok <==> frame_converts(*df),
        df.stype() != SEXPTYPE::VECSXP ==> (r matches Err(e) && e@ == SexpErrorView::Type(
            SexpTypeError { expected: SEXPTYPE::VECSXP, actual: df.stype() },
        )),
        forall|i: int|
            df.stype() == SEXPTYPE::VECSXP && #[trigger] first_unconverted(*df, i) ==> (r matches Err(e)
                && match column_error_of(df.elems()[i]) {
                Some(x) => e@ == x,
                None => e@ is InvalidValue,
            }),
        forall|i: int|
            df.stype() == SEXPTYPE::VECSXP && columns_convert(*df) && #[trigger] first_length_mismatch(
                *df,
                i,
            ) ==> (r matches Err(e) && e@ == SexpErrorView::InvalidValue(length_mismatch_text(*df, i))),
        df.stype() == SEXPTYPE::VECSXP && df.elems().len() == 0 ==> (r matches Err(e)
            && e@ is InvalidValue),
        r matches Ok(b) ==> record_batch_view(b) == frame_batch(*df, times@),
{
    let actual = df.type_of();
    if actual != SEXPTYPE::VECSXP {
        return Err(SexpError::Type(SexpTypeError { expected: SEXPTYPE::VECSXP, actual }));
    }
    let names = frame_names(df);
    let elems = df.elem_slice();
    let ncol = elems.len();
    let mut fields: Vec<FieldView> = Vec::new();
    let mut columns: Vec<ArrowColumn> = Vec::new();
    let mut lens: Vec<usize> = Vec::new();
    let mut i: usize = 0;
    while i < ncol
        invariant
            df.stype() == SEXPTYPE::VECSXP,
            elems@ == df.elems(),
            ncol == elems@.len(),
            frame_times_fit(*df, times@),
            names@.len() == ncol,
            forall|k: int| 0 <= k < ncol ==> (#[trigger] names@[k])@ == frame_column_name(*df, k),
            i <= ncol,
            fields@.len() == i,
            columns@.len() == i,
            lens@.len() == i,
            forall|k: int| 0 <= k < i ==> column_converts(#[trigger] elems@[k]),
            forall|k: int|
                0 <= k < i ==> (#[trigger] fields@[k]).name@ == frame_column_name(*df, k)
                    && arrow_column_data(columns@[k]) == column_data_of(elems@[k], times@[k])
                    && fields@[k].nullable == column_has_null(column_data_of(elems@[k], times@[k]))
                    && lens@[k] == elems@[k].slen(),
        decreases ncol - i,
    {
        match sexp_column_to_arrow(&elems[i], names[i].as_str(), &times[i]) {
            Ok((f, c)) => {
                let n = column_length(&c);
                proof {
                    lemma_column_len(elems@[i as int], times@[i as int]);
                }
                fields.push(f);
                columns.push(c);
                lens.push(n);
            },
            Err(e) => {
                proof {
                    assert(first_unconverted(*df, i as int));
                    assert forall|j: int| #[trigger] first_unconverted(*df, j) implies j == i by {
                        if j < i {
                            assert(column_converts(elems@[j]));
                        } else if j > i {
                            assert(column_converts(df.elems()[i as int]));
                        }
                    }
                }
                return Err(e);
            },
        }
        i = i + 1;
    }
    proof {
        assert(columns_convert(*df));
        assert forall|k: int| 0 <= k < ncol implies #[trigger] lens@[k] == elems@[k].slen() by {
            assert(fields@[k].name@ == frame_column_name(*df, k));
        }
        assert forall|k: int| 0 <= k < ncol implies #[trigger] arrow_column_data(columns@[k])
            == column_data_of(elems@[k], times@[k]) by {
            assert(fields@[k].name@ == frame_column_name(*df, k));
        }
    }
    let mut j: usize = 1;
    while j < ncol
        invariant
            df.stype() == SEXPTYPE::VECSXP,
            columns_convert(*df),
            frame_times_fit(*df, times@),
            columns@.len() == ncol,
            fields@.len() == ncol,
            forall|k: int| 0 <= k < ncol ==> #[trigger] arrow_column_data(columns@[k])
                == column_data_of(elems@[k], times@[k]),
            forall|k: int|
                0 <= k < ncol ==> (#[trigger] fields@[k]).name@ == frame_column_name(*df, k)
                    && fields@[k].nullable == column_has_null(column_data_of(elems@[k], times@[k])),
            elems@ == df.elems(),
            ncol == elems@.len(),
            lens@.len() == ncol,
            names@.len() == ncol,
            forall|k: int| 0 <= k < ncol ==> (#[trigger] names@[k])@ == frame_column_name(*df, k),
            forall|k: int| 0 <= k < ncol ==> #[trigger] lens@[k] == elems@[k].slen(),
            1 <= j,
            j <= ncol || ncol == 0,
            forall|k: int| 0 < k < j && k < ncol ==> (#[trigger] elems@[k]).slen() == elems@[0].slen(),
        decreases ncol - j,
    {
        if lens[j] != lens[0] {
            let mut m = string_of("column '");
            push_str(&mut m, names[j].as_str());
            push_str(&mut m, "' has length ");
            let a = usize_to_string(lens[j]);
            push_str(&mut m, a.as_str());
            push_str(&mut m, " but column '");
            push_str(&mut m, names[0].as_str());
            push_str(&mut m, "' has length ");
            let b = usize_to_string(lens[0]);
            push_str(&mut m, b.as_str());
            proof {
                assert(first_length_mismatch(*df, j as int));
                assert forall|q: int| #[trigger] first_length_mismatch(*df, q) implies q == j by {
                    if q < j {
                        assert(elems@[q].slen() == elems@[0].slen());
                    } else if q > j {
                        assert(df.elems()[j as int].slen() == df.elems()[0].slen());
                    }
                }
                assert(m@ == length_mismatch_text(*df, j as int));
            }
            return Err(SexpError::InvalidValue(m));
        }
        j = j + 1;
    }
    proof {
        assert(columns_same_length(*df));
        assert(same_lengths(columns@)) by {
            assert forall|k: int| 0 <= k < columns@.len() implies column_len(
                arrow_column_data(#[trigger] columns@[k]),
            ) == column_len(arrow_column_data(columns@[0])) by {
                assert(arrow_column_data(columns@[k]) == column_data_of(elems@[k], times@[k]));
                assert(arrow_column_data(columns@[0]) == column_data_of(elems@[0], times@[0]));
                assert(column_converts(elems@[k]));
                assert(column_converts(elems@[0]));
                assert(time_values_fit(df.elems()[k], times@[k]));
                assert(time_values_fit(df.elems()[0], times@[0]));
                lemma_column_len(elems@[k], times@[k]);
                lemma_column_len(elems@[0], times@[0]);
                assert(elems@[k].slen() == elems@[0].slen());
            }
        }
    }
    match record_batch_try_new(fields, columns) {
        Ok(b) => {
            proof {
                assert(record_batch_view(b) =~= frame_batch(*df, times@));
            }
            Ok(b)
        },
        Err(e) => Err(SexpError::InvalidValue(arrow_error_text(&e))),
    }
}

/// A column is told by its class before its type: an integer factor is a
/// factor, a double `Date` a date (whatever other classes it has), a double
/// `POSIXct` that is not a `Date` a time; otherwise its type decides, and a
/// type with no Arrow counterpart is refused.
pub proof fn lemma_column_kind_by_class_then_type(col: Sexp)
    ensures
        col.stype() == SEXPTYPE::INTSXP && has_class(col, "factor"@) ==> column_kind_of(col)
            == Ok::<ColumnKind, SexpErrorView>(ColumnKind::Factor),
        col.stype() == SEXPTYPE::INTSXP && !has_class(col, "factor"@) ==> column_kind_of(col)
            == Ok::<ColumnKind, SexpErrorView>(ColumnKind::Integer),
        col.stype() == SEXPTYPE::REALSXP && has_class(col, "Date"@) ==> column_kind_of(col)
            == Ok::<ColumnKind, SexpErrorView>(ColumnKind::Date),
        col.stype() == SEXPTYPE::REALSXP && !has_class(col, "Date"@) && has_class(col, "POSIXct"@)
            ==> column_kind_of(col) == Ok::<ColumnKind, SexpErrorView>(ColumnKind::PosixCt),
        col.stype() == SEXPTYPE::REALSXP && !has_class(col, "Date"@) && !has_class(col, "POSIXct"@)
            ==> column_kind_of(col) == Ok::<ColumnKind, SexpErrorView>(ColumnKind::Real),
        col.stype() == SEXPTYPE::LGLSXP ==> column_kind_of(col) == Ok::<ColumnKind, SexpErrorView>(
            ColumnKind::Logical,
        ),
        col.stype() == SEXPTYPE::STRSXP ==> column_kind_of(col) == Ok::<ColumnKind, SexpErrorView>(
            ColumnKind::Character,
        ),
        col.stype() == SEXPTYPE::RAWSXP ==> column_kind_of(col) == Ok::<ColumnKind, SexpErrorView>(
            ColumnKind::Raw,
        ),
        col.stype() != SEXPTYPE::INTSXP && col.stype() != SEXPTYPE::REALSXP && col.stype()
            != SEXPTYPE::LGLSXP && col.stype() != SEXPTYPE::STRSXP && col.stype() != SEXPTYPE::RAWSXP
            ==> column_kind_of(col) is Err,
{
}
} // verus!
