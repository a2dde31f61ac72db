//! Conversions from R objects to Rust values.
//!
//! [`TryFromSexp`] is the strict inbound path: a conversion rejects an object
//! of the wrong type, of the wrong length, or holding `NA` where the target
//! cannot represent it, and says which in a [`SexpError`].
use std::collections::VecDeque;
use crate::sexp::{sexp_eq, Sexp, SEXPTYPE, RLogical, NA_INTEGER, opt_str_view, opt_strs_view};
use crate::text::{join_strs, debug_str, debug_string, decimal, push_str, string_of, usize_to_string};
use vstd::prelude::*;

verus! {

/// Error describing an unexpected R type.
#[derive(Debug, Clone, Copy, PartialEq, Eq, Structural)]
pub struct SexpTypeError {
    /// Expected R type.
    pub expected: SEXPTYPE,
    /// Actual R type encountered.
    pub actual: SEXPTYPE,
}

/// Error describing an unexpected R object length.
#[derive(Debug, Clone, Copy, PartialEq, Eq, Structural)]
pub struct SexpLengthError {
    /// Required length.
    pub expected: usize,
    /// Actual length encountered.
    pub actual: usize,
}

/// Error for `NA` values in conversions that require non-missing values.
#[derive(Debug, Clone, Copy, PartialEq, Eq, Structural)]
pub struct SexpNaError {
    /// R type where an NA was found.
    pub sexp_type: SEXPTYPE,
}

/// Unified conversion error when decoding an R object.
#[derive(Debug, Clone)]
pub enum SexpError {
    /// The type did not match the expected one.
    Type(SexpTypeError),
    /// The length did not match the expected one.
    Length(SexpLengthError),
    /// Missing value encountered where disallowed.
    Na(SexpNaError),
    /// Value is syntactically valid but semantically invalid.
    InvalidValue(String),
    /// A required field was missing from a named list.
    MissingField(String),
    /// A named list has duplicate non-empty names.
    DuplicateName(String),
}

/// What a [`SexpError`] says, with its texts as character sequences.
pub enum SexpErrorView {
    Type(SexpTypeError),
    Length(SexpLengthError),
    Na(SexpNaError),
    InvalidValue(Seq<char>),
    MissingField(Seq<char>),
    DuplicateName(Seq<char>),
}

impl View for SexpError {
    type V = SexpErrorView;

    open spec fn view(&self) -> SexpErrorView {
        match self {
            SexpError::Type(e) => SexpErrorView::Type(*e),
            SexpError::Length(e) => SexpErrorView::Length(*e),
            SexpError::Na(e) => SexpErrorView::Na(*e),
            SexpError::InvalidValue(m) => SexpErrorView::InvalidValue(m@),
            SexpError::MissingField(m) => SexpErrorView::MissingField(m@),
            SexpError::DuplicateName(m) => SexpErrorView::DuplicateName(m@),
        }
    }
}

/// A conversion result with its error viewed.
pub open spec fn rv<T>(r: Result<T, SexpError>) -> Result<T, SexpErrorView> {
    match r {
        Ok(v) => Ok(v),
        Err(e) => Err(e@),
    }
}

/// A string conversion result, both sides viewed.
pub open spec fn sv(r: Result<String, SexpError>) -> Result<Seq<char>, SexpErrorView> {
    match r {
        Ok(v) => Ok(v@),
        Err(e) => Err(e@),
    }
}

/// An optional-string conversion result, both sides viewed.
pub open spec fn osv(r: Result<Option<String>, SexpError>) -> Result<
    Option<Seq<char>>,
    SexpErrorView,
> {
    match r {
        Ok(v) => Ok(opt_str_view(v)),
        Err(e) => Err(e@),
    }
}

/// Text of a [`SexpTypeError`].
pub open spec fn type_error_text(e: SexpTypeError) -> Seq<char> {
    "type mismatch: expected "@ + e.expected.spec_name() + ", got "@ + e.actual.spec_name()
}

/// Text of a [`SexpLengthError`].
pub open spec fn length_error_text(e: SexpLengthError) -> Seq<char> {
    "length mismatch: expected "@ + decimal(e.expected as nat) + ", got "@ + decimal(
        e.actual as nat,
    )
}

/// Text of a [`SexpNaError`].
pub open spec fn na_error_text(e: SexpNaError) -> Seq<char> {
    "unexpected NA value in "@ + e.sexp_type.spec_name()
}

/// Text of a [`SexpError`] (what its `Display` renders).
pub open spec fn sexp_error_text(e: SexpErrorView) -> Seq<char> {
    match e {
        SexpErrorView::Type(t) => type_error_text(t),
        SexpErrorView::Length(l) => length_error_text(l),
        SexpErrorView::Na(n) => na_error_text(n),
        SexpErrorView::InvalidValue(m) => "invalid value: "@ + m,
        SexpErrorView::MissingField(n) => "missing field: "@ + n,
        SexpErrorView::DuplicateName(n) => "duplicate name in list: "@ + debug_str(n),
    }
}

impl SexpTypeError {
    /// The error's message.
    pub fn to_string(&self) -> (r: String)
        ensures
            r@ == type_error_text(*self),
    {
        let mut s = string_of("type mismatch: expected ");
        push_str(&mut s, self.expected.name());
        push_str(&mut s, ", got ");
        push_str(&mut s, self.actual.name());
        s
    }
}

impl SexpLengthError {
    /// The error's message.
    pub fn to_string(&self) -> (r: String)
        ensures
            r@ == length_error_text(*self),
    {
        let mut s = string_of("length mismatch: expected ");
        let e = usize_to_string(self.expected);
        push_str(&mut s, e.as_str());
        push_str(&mut s, ", got ");
        let a = usize_to_string(self.actual);
        push_str(&mut s, a.as_str());
        s
    }
}

impl SexpNaError {
    /// The error's message.
    pub fn to_string(&self) -> (r: String)
        ensures
            r@ == na_error_text(*self),
    {
        let mut s = string_of("unexpected NA value in ");
        push_str(&mut s, self.sexp_type.name());
        s
    }
}

impl SexpError {
    /// The error's message.
    pub fn to_string(&self) -> (r: String)
        ensures
            r@ == sexp_error_text(self@),
    {
        match self {
            SexpError::Type(e) => e.to_string(),
            SexpError::Length(e) => e.to_string(),
            SexpError::Na(e) => e.to_string(),
            SexpError::InvalidValue(m) => join_strs("invalid value: ", m.as_str()),
            SexpError::MissingField(n) => join_strs("missing field: ", n.as_str()),
            SexpError::DuplicateName(n) => {
                let q = debug_string(n.as_str());
                join_strs("duplicate name in list: ", q.as_str())
            },
        }
    }
}

impl From<SexpTypeError> for SexpError {
    fn from(e: SexpTypeError) -> (r: Self) {
        SexpError::Type(e)
    }
}

impl vstd::std_specs::convert::FromSpecImpl<SexpTypeError> for SexpError {
    open spec fn obeys_from_spec() -> bool {
        true
    }

    open spec fn from_spec(v: SexpTypeError) -> Self {
        SexpError::Type(v)
    }
}

impl From<SexpLengthError> for SexpError {
    fn from(e: SexpLengthError) -> (r: Self) {
        SexpError::Length(e)
    }
}

impl vstd::std_specs::convert::FromSpecImpl<SexpLengthError> for SexpError {
    open spec fn obeys_from_spec() -> bool {
        true
    }

    open spec fn from_spec(v: SexpLengthError) -> Self {
        SexpError::Length(v)
    }
}

impl From<SexpNaError> for SexpError {
    fn from(e: SexpNaError) -> (r: Self) {
        SexpError::Na(e)
    }
}

impl vstd::std_specs::convert::FromSpecImpl<SexpNaError> for SexpError {
    open spec fn obeys_from_spec() -> bool {
        true
    }

    open spec fn from_spec(v: SexpNaError) -> Self {
        SexpError::Na(v)
    }
}


/// TryFrom-style conversion from an R object to a Rust value.
///
/// Inbound counterpart of [`crate::into_r::IntoR`]. Strict by construction:
/// [`accepts`](TryFromSexp::accepts) says exactly which objects convert.
pub trait TryFromSexp: Sized {
    /// The error type returned when conversion fails.
    type Error;

    /// The objects this conversion accepts.
    spec fn accepts(sexp: Sexp) -> bool;

    /// `value` is what an accepted `sexp` converts to.
    spec fn decodes(sexp: Sexp, value: Self) -> bool;

    /// Attempt to convert an R object to this Rust type.
    fn try_from_sexp(sexp: &Sexp) -> (r: Result<Self, Self::Error>)
        ensures
            r is Ok <==> Self::accepts(*sexp),
            r matches Ok(v) ==> Self::decodes(*sexp, v),
    ;
}

/// What converting to a scalar of `expected` type checks first: the type,
/// then a length of one.
pub open spec fn scalar_shape_error(sexp: Sexp, expected: SEXPTYPE) -> Option<SexpErrorView> {
    if sexp.stype() != expected {
        Some(SexpErrorView::Type(SexpTypeError { expected, actual: sexp.stype() }))
    } else if sexp.slen() != 1 {
        Some(SexpErrorView::Length(SexpLengthError { expected: 1, actual: sexp.slen() as usize }))
    } else {
        None
    }
}

/// `i32::try_from_sexp`: a length-one integer vector that is not `NA`.
pub open spec fn spec_i32_from(sexp: Sexp) -> Result<i32, SexpErrorView> {
    match scalar_shape_error(sexp, SEXPTYPE::INTSXP) {
        Some(e) => Err(e),
        None => if sexp.ints()[0] == NA_INTEGER {
            Err(SexpErrorView::Na(SexpNaError { sexp_type: SEXPTYPE::INTSXP }))
        } else {
            Ok(sexp.ints()[0])
        },
    }
}

/// Check type and length one.
fn check_scalar(sexp: &Sexp, expected: SEXPTYPE) -> (r: Result<(), SexpError>)
    ensures
        r is Err <==> scalar_shape_error(*sexp, expected) is Some,
        r matches Err(e) ==> scalar_shape_error(*sexp, expected) == Some(e@),
{
    let actual = sexp.type_of();
    if actual != expected {
        return Err(SexpError::Type(SexpTypeError { expected, actual }));
    }
    let len = sexp.xlength();
    if len != 1 {
        return Err(SexpError::Length(SexpLengthError { expected: 1, actual: len }));
    }
    Ok(())
}

impl TryFromSexp for i32 {
    type Error = SexpError;

    open spec fn accepts(sexp: Sexp) -> bool {
        spec_i32_from(sexp) is Ok
    }

    open spec fn decodes(sexp: Sexp, value: i32) -> bool {
        spec_i32_from(sexp) == Ok::<i32, SexpErrorView>(value)
    }

    /// A length-one integer vector; `NA_integer_` is rejected.
    fn try_from_sexp(sexp: &Sexp) -> (r: Result<i32, SexpError>)
        ensures
            rv(r) == spec_i32_from(*sexp),
    {
        check_scalar(sexp, SEXPTYPE::INTSXP)?;
        proof {
            sexp.lemma_type_consistent();
        }
        let v = sexp.int_slice()[0];
        if v == NA_INTEGER {
            return Err(SexpError::Na(SexpNaError { sexp_type: SEXPTYPE::INTSXP }));
        }
        Ok(v)
    }
}

/// `u8::try_from_sexp`: a length-one raw vector.
pub open spec fn spec_u8_from(sexp: Sexp) -> Result<u8, SexpErrorView> {
    match scalar_shape_error(sexp, SEXPTYPE::RAWSXP) {
        Some(e) => Err(e),
        None => Ok(sexp.raws()[0]),
    }
}

impl TryFromSexp for u8 {
    type Error = SexpError;

    open spec fn accepts(sexp: Sexp) -> bool {
        spec_u8_from(sexp) is Ok
    }

    open spec fn decodes(sexp: Sexp, value: u8) -> bool {
        spec_u8_from(sexp) == Ok::<u8, SexpErrorView>(value)
    }

    /// A length-one raw vector.
    fn try_from_sexp(sexp: &Sexp) -> (r: Result<u8, SexpError>)
        ensures
            rv(r) == spec_u8_from(*sexp),
    {
        check_scalar(sexp, SEXPTYPE::RAWSXP)?;
        proof {
            sexp.lemma_type_consistent();
        }
        Ok(sexp.raw_slice()[0])
    }
}

/// `RLogical::try_from_sexp`: a length-one logical vector (`NA` passes).
pub open spec fn spec_logical_from(sexp: Sexp) -> Result<RLogical, SexpErrorView> {
    match scalar_shape_error(sexp, SEXPTYPE::LGLSXP) {
        Some(e) => Err(e),
        None => Ok(RLogical(sexp.ints()[0])),
    }
}

impl TryFromSexp for RLogical {
    type Error = SexpError;

    open spec fn accepts(sexp: Sexp) -> bool {
        spec_logical_from(sexp) is Ok
    }

    open spec fn decodes(sexp: Sexp, value: RLogical) -> bool {
        spec_logical_from(sexp) == Ok::<RLogical, SexpErrorView>(value)
    }

    /// A length-one logical vector; `NA` is passed through.
    fn try_from_sexp(sexp: &Sexp) -> (r: Result<RLogical, SexpError>)
        ensures
            rv(r) == spec_logical_from(*sexp),
    {
        check_scalar(sexp, SEXPTYPE::LGLSXP)?;
        proof {
            sexp.lemma_type_consistent();
        }
        Ok(RLogical(sexp.int_slice()[0]))
    }
}

/// `Result<T, ()>`: `NULL` is `Err(())`, anything else converts as `T`.
impl<T: TryFromSexp<Error = SexpError>> TryFromSexp for Result<T, ()> {
    type Error = SexpError;

    open spec fn accepts(sexp: Sexp) -> bool {
        sexp.stype() == SEXPTYPE::NILSXP || T::accepts(sexp)
    }

    open spec fn decodes(sexp: Sexp, value: Result<T, ()>) -> bool {
        if sexp.stype() == SEXPTYPE::NILSXP {
            value is Err
        } else {
            value matches Ok(v) && T::decodes(sexp, v)
        }
    }

    fn try_from_sexp(sexp: &Sexp) -> (r: Result<Result<T, ()>, SexpError>)
        ensures
            sexp.stype() == SEXPTYPE::NILSXP ==> r == Ok::<Result<T, ()>, SexpError>(Err(())),
    {
        if sexp.is_nil() {
            return Ok(Err(()));
        }
        let value = T::try_from_sexp(sexp)?;
        Ok(Ok(value))
    }
}


/// The element of a length-one character vector (`None` for `NA`).
pub open spec fn spec_scalar_str(sexp: Sexp) -> Result<Option<Seq<char>>, SexpErrorView> {
    match scalar_shape_error(sexp, SEXPTYPE::STRSXP) {
        Some(e) => Err(e),
        None => Ok(sexp.strs()[0]),
    }
}

/// Shared scalar character prologue: type check, length one, and the
/// element (`None` for `NA_character_`; the caller decides what `NA` means).
pub fn scalar_charsxp(sexp: &Sexp) -> (r: Result<&Option<String>, SexpError>)
    ensures
        r is Ok <==> spec_scalar_str(*sexp) is Ok,
        r matches Ok(e) ==> spec_scalar_str(*sexp) == Ok::<Option<Seq<char>>, SexpErrorView>(
            opt_str_view(*e),
        ),
        r matches Err(e) ==> spec_scalar_str(*sexp) == Err::<Option<Seq<char>>, SexpErrorView>(
            e@,
        ),
{
    check_scalar(sexp, SEXPTYPE::STRSXP)?;
    proof {
        sexp.lemma_type_consistent();
    }
    let v = sexp.str_slice();
    let e = &v[0];
    proof {
        assert(opt_strs_view(v@)[0] == opt_str_view(*e));
    }
    Ok(e)
}

/// The text of an optional string, `""` for `None` (how `String` reads `NA`).
pub open spec fn text_or_empty(o: Option<Seq<char>>) -> Seq<char> {
    match o {
        Some(s) => s,
        None => Seq::empty(),
    }
}

/// Clone the text of an optional string, `""` for `None`.
pub(crate) fn owned_or_empty(o: &Option<String>) -> (r: String)
    ensures
        r@ == text_or_empty(opt_str_view(*o)),
{
    match o {
        Some(s) => s.clone(),
        None => String::new(),
    }
}

/// Clone an optional string.
pub(crate) fn owned_opt(o: &Option<String>) -> (r: Option<String>)
    ensures
        opt_str_view(r) == opt_str_view(*o),
{
    match o {
        Some(s) => Some(s.clone()),
        None => None,
    }
}

/// `String::try_from_sexp`: a length-one character vector, `NA` read as `""`.
pub open spec fn spec_string_from(sexp: Sexp) -> Result<Seq<char>, SexpErrorView> {
    match spec_scalar_str(sexp) {
        Ok(o) => Ok(text_or_empty(o)),
        Err(e) => Err(e),
    }
}

impl TryFromSexp for String {
    type Error = SexpError;

    open spec fn accepts(sexp: Sexp) -> bool {
        spec_scalar_str(sexp) is Ok
    }

    open spec fn decodes(sexp: Sexp, value: String) -> bool {
        spec_string_from(sexp) == Ok::<Seq<char>, SexpErrorView>(value@)
    }

    /// A length-one character vector; `NA_character_` reads as `""`.
    fn try_from_sexp(sexp: &Sexp) -> (r: Result<String, SexpError>)
        ensures
            sv(r) == spec_string_from(*sexp),
    {
        let e = scalar_charsxp(sexp)?;
        Ok(owned_or_empty(e))
    }
}

/// `Option<String>::try_from_sexp`: `NULL` and `NA_character_` are `None`.
pub open spec fn spec_opt_string_from(sexp: Sexp) -> Result<Option<Seq<char>>, SexpErrorView> {
    if sexp.stype() == SEXPTYPE::NILSXP {
        Ok(None)
    } else {
        spec_scalar_str(sexp)
    }
}

impl TryFromSexp for Option<String> {
    type Error = SexpError;

    open spec fn accepts(sexp: Sexp) -> bool {
        spec_opt_string_from(sexp) is Ok
    }

    open spec fn decodes(sexp: Sexp, value: Option<String>) -> bool {
        spec_opt_string_from(sexp) == Ok::<Option<Seq<char>>, SexpErrorView>(opt_str_view(value))
    }

    /// `NULL` and `NA_character_` read as `None`, any other length-one
    /// character vector as `Some`.
    fn try_from_sexp(sexp: &Sexp) -> (r: Result<Option<String>, SexpError>)
        ensures
            osv(r) == spec_opt_string_from(*sexp),
    {
        if sexp.is_nil() {
            return Ok(None);
        }
        let e = scalar_charsxp(sexp)?;
        Ok(owned_opt(e))
    }
}

/// `char::try_from_sexp`: the string must hold exactly one character.
pub open spec fn spec_char_from(sexp: Sexp) -> Result<char, SexpErrorView> {
    match spec_scalar_str(sexp) {
        Err(e) => Err(e),
        Ok(o) => {
            let s = text_or_empty(o);
            if s.len() == 0 {
                Err(SexpErrorView::InvalidValue("empty string cannot be converted to char"@))
            } else if s.len() == 1 {
                Ok(s[0])
            } else {
                Err(SexpErrorView::InvalidValue("string has more than one character"@))
            }
        },
    }
}

impl TryFromSexp for char {
    type Error = SexpError;

    open spec fn accepts(sexp: Sexp) -> bool {
        spec_char_from(sexp) is Ok
    }

    open spec fn decodes(sexp: Sexp, value: char) -> bool {
        spec_char_from(sexp) == Ok::<char, SexpErrorView>(value)
    }

    /// A length-one character vector holding exactly one character.
    fn try_from_sexp(sexp: &Sexp) -> (r: Result<char, SexpError>)
        ensures
            rv(r) == spec_char_from(*sexp),
    {
        let s = String::try_from_sexp(sexp)?;
        let n = s.as_str().unicode_len();
        if n == 0 {
            return Err(SexpError::InvalidValue(string_of("empty string cannot be converted to char")));
        }
        if n > 1 {
            return Err(SexpError::InvalidValue(string_of("string has more than one character")));
        }
        Ok(s.as_str().get_char(0))
    }
}


/// The type error for an object that is not of type `expected`.
pub open spec fn type_mismatch(sexp: Sexp, expected: SEXPTYPE) -> SexpErrorView {
    SexpErrorView::Type(SexpTypeError { expected, actual: sexp.stype() })
}

/// Shared walk over a character vector: checks `STRSXP`, then applies `map`
/// to each element (`None` for `NA`) and its index, stopping at the first
/// error. What `NA` or `""` mean is the closure's decision.
pub fn map_strsxp_with<U, F: Fn(&Option<String>, usize) -> Result<U, SexpError>>(
    sexp: &Sexp,
    map: F,
) -> (r: Result<Vec<U>, SexpError>)
    requires
        forall|i: int|
            0 <= i < sexp.str_elems().len() ==> call_requires(
                map,
                (&sexp.str_elems()[i], i as usize),
            ),
    ensures
        sexp.stype() != SEXPTYPE::STRSXP ==> r is Err && rv(r) == Err::<Vec<U>, SexpErrorView>(
            type_mismatch(*sexp, SEXPTYPE::STRSXP),
        ),
        r matches Ok(v) ==> {
            &&& sexp.stype() == SEXPTYPE::STRSXP
            &&& v@.len() == sexp.str_elems().len()
            &&& forall|i: int|
                0 <= i < v@.len() ==> call_ensures(
                    map,
                    (&sexp.str_elems()[i], i as usize),
                    Ok::<U, SexpError>(v@[i]),
                )
        },
        r matches Err(e) ==> sexp.stype() != SEXPTYPE::STRSXP || exists|i: int|
            0 <= i < sexp.str_elems().len() && call_ensures(
                map,
                (&sexp.str_elems()[i], i as usize),
                Err::<U, SexpError>(e),
            ),
{
    let actual = sexp.type_of();
    if actual != SEXPTYPE::STRSXP {
        return Err(SexpError::Type(SexpTypeError { expected: SEXPTYPE::STRSXP, actual }));
    }
    let elems = sexp.str_slice();
    let len = elems.len();
    let mut result: Vec<U> = Vec::new();
    let mut i: usize = 0;
    while i < len
        invariant
            len == elems@.len(),
            elems@ == sexp.str_elems(),
            sexp.stype() == SEXPTYPE::STRSXP,
            i <= len,
            result@.len() == i,
            forall|k: int|
                0 <= k < elems@.len() ==> call_requires(map, (&elems@[k], k as usize)),
            forall|k: int|
                0 <= k < i ==> call_ensures(map, (&elems@[k], k as usize), Ok::<U, SexpError>(
                    result@[k],
                )),
        decreases len - i,
    {
        let item = map(&elems[i], i);
        match item {
            Ok(x) => result.push(x),
            Err(e) => return Err(e),
        }
        i = i + 1;
    }
    Ok(result)
}

/// Shared walk over a generic list: checks `VECSXP`, then applies `map` to
/// each index and element, stopping at the first error.
pub fn map_vecsxp_with<U, F: Fn(usize, &Sexp) -> Result<U, SexpError>>(
    sexp: &Sexp,
    map: F,
) -> (r: Result<Vec<U>, SexpError>)
    requires
        forall|i: int|
            0 <= i < sexp.elems().len() ==> call_requires(map, (i as usize, &sexp.elems()[i])),
    ensures
        sexp.stype() != SEXPTYPE::VECSXP ==> r is Err && rv(r) == Err::<Vec<U>, SexpErrorView>(
            type_mismatch(*sexp, SEXPTYPE::VECSXP),
        ),
        r matches Ok(v) ==> {
            &&& sexp.stype() == SEXPTYPE::VECSXP
            &&& v@.len() == sexp.elems().len()
            &&& forall|i: int|
                0 <= i < v@.len() ==> call_ensures(
                    map,
                    (i as usize, &sexp.elems()[i]),
                    Ok::<U, SexpError>(v@[i]),
                )
        },
        r matches Err(e) ==> sexp.stype() != SEXPTYPE::VECSXP || exists|i: int|
            0 <= i < sexp.elems().len() && call_ensures(
                map,
                (i as usize, &sexp.elems()[i]),
                Err::<U, SexpError>(e),
            ),
{
    let actual = sexp.type_of();
    if actual != SEXPTYPE::VECSXP {
        return Err(SexpError::Type(SexpTypeError { expected: SEXPTYPE::VECSXP, actual }));
    }
    let elems = sexp.elem_slice();
    let len = elems.len();
    let mut result: Vec<U> = Vec::new();
    let mut i: usize = 0;
    while i < len
        invariant
            len == elems@.len(),
            elems@ == sexp.elems(),
            sexp.stype() == SEXPTYPE::VECSXP,
            i <= len,
            result@.len() == i,
            forall|k: int| 0 <= k < elems@.len() ==> call_requires(map, (k as usize, &elems@[k])),
            forall|k: int|
                0 <= k < i ==> call_ensures(map, (k as usize, &elems@[k]), Ok::<U, SexpError>(
                    result@[k],
                )),
        decreases len - i,
    {
        let item = map(i, &elems[i]);
        match item {
            Ok(x) => result.push(x),
            Err(e) => return Err(e),
        }
        i = i + 1;
    }
    Ok(result)
}

/// `Vec<String>::try_from_sexp`: every element of a character vector, `NA`
/// read as `""`.
pub open spec fn spec_strings_from(sexp: Sexp) -> Seq<Seq<char>> {
    sexp.strs().map_values(|o: Option<Seq<char>>| text_or_empty(o))
}

/// The texts of a vector of strings.
pub open spec fn strings_view(v: Seq<String>) -> Seq<Seq<char>> {
    v.map_values(|s: String| s@)
}

/// One element of a character vector as a `String`, `NA` as `""`.
fn string_elem(o: &Option<String>, _i: usize) -> (r: Result<String, SexpError>)
    ensures
        r matches Ok(s) && s@ == text_or_empty(opt_str_view(*o)),
{
    Ok(owned_or_empty(o))
}

/// One element of a character vector as an `Option<String>`.
fn opt_string_elem(o: &Option<String>, _i: usize) -> (r: Result<Option<String>, SexpError>)
    ensures
        r matches Ok(x) && opt_str_view(x) == opt_str_view(*o),
{
    Ok(owned_opt(o))
}

impl TryFromSexp for Vec<String> {
    type Error = SexpError;

    open spec fn accepts(sexp: Sexp) -> bool {
        sexp.stype() == SEXPTYPE::STRSXP
    }

    open spec fn decodes(sexp: Sexp, value: Vec<String>) -> bool {
        strings_view(value@) == spec_strings_from(sexp)
    }

    /// Every element of a character vector; `NA_character_` reads as `""`.
    fn try_from_sexp(sexp: &Sexp) -> (r: Result<Vec<String>, SexpError>)
        ensures
            sexp.stype() != SEXPTYPE::STRSXP ==> (r matches Err(e) && e@ == type_mismatch(
                *sexp,
                SEXPTYPE::STRSXP,
            )),
            r matches Ok(v) ==> strings_view(v@) == spec_strings_from(*sexp),
    {
        let r = map_strsxp_with(sexp, string_elem);
        proof {
            if r is Ok {
                let v = r->Ok_0;
                assert(strings_view(v@) =~= spec_strings_from(*sexp));
            }
        }
        r
    }
}

/// `Vec<Option<String>>::try_from_sexp`: every element, `NA` as `None`.
pub open spec fn spec_opt_strings_from(sexp: Sexp) -> Seq<Option<Seq<char>>> {
    sexp.strs()
}

impl TryFromSexp for Vec<Option<String>> {
    type Error = SexpError;

    open spec fn accepts(sexp: Sexp) -> bool {
        sexp.stype() == SEXPTYPE::STRSXP
    }

    open spec fn decodes(sexp: Sexp, value: Vec<Option<String>>) -> bool {
        opt_strs_view(value@) == spec_opt_strings_from(sexp)
    }

    /// Every element of a character vector; `NA_character_` reads as `None`.
    fn try_from_sexp(sexp: &Sexp) -> (r: Result<Vec<Option<String>>, SexpError>)
        ensures
            sexp.stype() != SEXPTYPE::STRSXP ==> (r matches Err(e) && e@ == type_mismatch(
                *sexp,
                SEXPTYPE::STRSXP,
            )),
            r matches Ok(v) ==> opt_strs_view(v@) == spec_opt_strings_from(*sexp),
    {
        let r = map_strsxp_with(sexp, opt_string_elem);
        proof {
            if r is Ok {
                let v = r->Ok_0;
                assert forall|k: int| 0 <= k < v@.len() implies opt_strs_view(v@)[k]
                    == sexp.strs()[k] by {
                }
                assert(opt_strs_view(v@) =~= spec_opt_strings_from(*sexp));
            }
        }
        r
    }
}

/// How many per-element failure messages a batched error keeps.
pub const BATCHED_ERROR_CAP: usize = 10;

/// Bounded accumulator that folds indexed per-element conversion failures into
/// one [`SexpError::InvalidValue`]: the first [`BATCHED_ERROR_CAP`] messages
/// are kept, later failures are only counted.
pub struct BatchedErrors {
    listed: Vec<String>,
    total: usize,
}

/// The parts joined with `sep` between them.
pub open spec fn joined(parts: Seq<Seq<char>>, sep: Seq<char>) -> Seq<char>
    decreases parts.len(),
{
    if parts.len() == 0 {
        Seq::empty()
    } else if parts.len() == 1 {
        parts[0]
    } else {
        joined(parts.drop_last(), sep) + sep + parts.last()
    }
}

/// The message of a batched error under `container`.
pub open spec fn batched_text(container: Seq<char>, listed: Seq<Seq<char>>, total: nat) -> Seq<
    char,
> {
    let head = container + " conversion failed: "@ + joined(listed, "; "@);
    if total > listed.len() {
        head + "; and "@ + decimal((total - listed.len()) as nat) + " more"@
    } else {
        head
    }
}

/// How many messages are kept after `total` failures: the first
/// [`BATCHED_ERROR_CAP`] of them.
pub open spec fn kept_count(total: nat) -> nat {
    if total < BATCHED_ERROR_CAP {
        total
    } else {
        BATCHED_ERROR_CAP as nat
    }
}

impl BatchedErrors {
    #[verifier::type_invariant]
    closed spec fn inv(self) -> bool {
        self.listed@.len() == kept_count(self.total as nat)
    }

    /// The messages kept, in order.
    pub closed spec fn listed_view(&self) -> Seq<Seq<char>> {
        strings_view(self.listed@)
    }

    /// How many failures were recorded.
    pub closed spec fn total_view(&self) -> nat {
        self.total as nat
    }

    /// An accumulator with nothing recorded.
    pub fn new() -> (r: BatchedErrors)
        ensures
            r.listed_view() == Seq::<Seq<char>>::empty(),
            r.total_view() == 0,
            r.listed_view().len() == kept_count(r.total_view()),
    {
        let r = BatchedErrors { listed: Vec::new(), total: 0 };
        proof {
            assert(strings_view(r.listed@) =~= Seq::<Seq<char>>::empty());
        }
        r
    }

    /// Record one failure. `msg` runs only while fewer than
    /// [`BATCHED_ERROR_CAP`] messages are kept; later failures are counted.
    pub fn push<F: FnOnce() -> String>(&mut self, msg: F)
        requires
            old(self).total_view() < usize::MAX,
            call_requires(msg, ()),
        ensures
            final(self).total_view() == old(self).total_view() + 1,
            final(self).listed_view().len() == kept_count(final(self).total_view()),
            old(self).listed_view().len() < BATCHED_ERROR_CAP ==> exists|m: String|
                call_ensures(msg, (), m) && final(self).listed_view() == old(
                    self,
                ).listed_view().push(m@),
            old(self).listed_view().len() >= BATCHED_ERROR_CAP ==> final(self).listed_view()
                == old(self).listed_view(),
    {
        let mut cur = BatchedErrors::new();
        std::mem::swap(&mut cur, self);
        proof {
            use_type_invariant(&cur);
        }
        let BatchedErrors { mut listed, total } = cur;
        let ghost before = listed@;
        if listed.len() < BATCHED_ERROR_CAP {
            let m = msg();
            listed.push(m);
            proof {
                assert(strings_view(listed@) =~= strings_view(before).push(m@));
            }
        }
        *self = BatchedErrors { listed, total: total + 1 };
    }

    /// Whether any failure was recorded.
    pub fn is_empty(&self) -> (r: bool)
        ensures
            r == (self.total_view() == 0),
    {
        self.total == 0
    }

    /// Fold the recorded failures into one [`SexpError::InvalidValue`] under
    /// `container` (e.g. `"Vec<u32>"`): the kept messages joined with `"; "`,
    /// then `"; and N more"` for the ones only counted.
    pub fn into_error(self, container: &str) -> (r: SexpError)
        requires
            self.total_view() > 0,
        ensures
            r@ == SexpErrorView::InvalidValue(
                batched_text(container@, self.listed_view(), self.total_view()),
            ),
    {
        proof {
            use_type_invariant(&self);
        }
        let mut msg = string_of(container);
        push_str(&mut msg, " conversion failed: ");
        let mut i: usize = 0;
        while i < self.listed.len()
            invariant
                i <= self.listed@.len(),
                msg@ == container@ + " conversion failed: "@ + joined(
                    strings_view(self.listed@.subrange(0, i as int)),
                    "; "@,
                ),
            decreases self.listed@.len() - i,
        {
            proof {
                let w = strings_view(self.listed@.subrange(0, i + 1));
                assert(w.drop_last() =~= strings_view(self.listed@.subrange(0, i as int)));
                assert(w.last() == self.listed@[i as int]@);
            }
            if i > 0 {
                push_str(&mut msg, "; ");
            }
            push_str(&mut msg, self.listed[i].as_str());
            proof {
                if i == 0 {
                    assert(strings_view(self.listed@.subrange(0, 1)) =~= seq![
                        self.listed@[0]@,
                    ]);
                }
            }
            i = i + 1;
        }
        proof {
            assert(self.listed@.subrange(0, self.listed@.len() as int) =~= self.listed@);
        }
        if self.total > self.listed.len() {
            push_str(&mut msg, "; and ");
            let more = usize_to_string(self.total - self.listed.len());
            push_str(&mut msg, more.as_str());
            push_str(&mut msg, " more");
        }
        SexpError::InvalidValue(msg)
    }
}

/// The per-element failure text: `"invalid value at index <i>: <detail>"`.
pub open spec fn index_failure_text(i: nat, detail: Seq<char>) -> Seq<char> {
    "invalid value at index "@ + decimal(i) + ": "@ + detail
}

/// The detail a failed element contributes: an invalid value's own text,
/// any other error's message.
pub open spec fn failure_detail(e: SexpErrorView) -> Seq<char> {
    match e {
        SexpErrorView::InvalidValue(m) => m,
        _ => sexp_error_text(e),
    }
}

/// The failure messages of the first `n` items, in order.
pub open spec fn failure_texts(items: Seq<Result<Seq<char>, SexpErrorView>>, n: nat) -> Seq<
    Seq<char>,
>
    decreases n,
{
    if n == 0 || n > items.len() {
        Seq::empty()
    } else {
        let rest = failure_texts(items, (n - 1) as nat);
        match items[n - 1] {
            Err(e) => rest.push(index_failure_text((n - 1) as nat, failure_detail(e))),
            Ok(_) => rest,
        }
    }
}

/// The per-element results with the errors viewed.
pub open spec fn results_view<U>(items: Seq<Result<U, SexpError>>) -> Seq<
    Result<Seq<char>, SexpErrorView>,
> {
    items.map_values(
        |x: Result<U, SexpError>| match x {
            Ok(_) => Ok(Seq::<char>::empty()),
            Err(e) => Err(e@),
        },
    )
}

/// The successful values, in order, when every item succeeded.
pub open spec fn all_ok<U>(items: Seq<Result<U, SexpError>>) -> bool {
    forall|i: int| 0 <= i < items.len() ==> #[trigger] items[i] is Ok
}

/// The message for one failed element.
fn failure_message(i: usize, e: SexpError) -> (r: String)
    ensures
        r@ == index_failure_text(i as nat, failure_detail(e@)),
{
    let mut m = string_of("invalid value at index ");
    let idx = usize_to_string(i);
    push_str(&mut m, idx.as_str());
    push_str(&mut m, ": ");
    match e {
        SexpError::InvalidValue(msg) => push_str(&mut m, msg.as_str()),
        other => {
            let t = other.to_string();
            push_str(&mut m, t.as_str());
        },
    }
    m
}

/// Collect per-element results, batching every failure into one diagnostic
/// under `container` (the first [`BATCHED_ERROR_CAP`] messages, then a
/// count of the rest).
pub fn collect_coerced<U>(container: &str, items: Vec<Result<U, SexpError>>) -> (r: Result<
    Vec<U>,
    SexpError,
>)
    ensures
        r is Ok <==> all_ok(items@),
        r matches Ok(v) ==> v@.len() == items@.len() && forall|i: int|
            0 <= i < v@.len() ==> items@[i] == Ok::<U, SexpError>(#[trigger] v@[i]),
        r matches Err(e) ==> ({
            let texts = failure_texts(results_view(items@), items@.len());
            e@ == SexpErrorView::InvalidValue(
                batched_text(
                    container@,
                    if texts.len() <= BATCHED_ERROR_CAP {
                        texts
                    } else {
                        texts.subrange(0, BATCHED_ERROR_CAP as int)
                    },
                    texts.len(),
                ),
            )
        }),
{
    let ghost orig = items@;
    let ghost rv = results_view(orig);
    let mut rest = items;
    let total: usize = rest.len();
    let mut result: Vec<U> = Vec::new();
    let mut errors = BatchedErrors::new();
    let mut i: usize = 0;
    while rest.len() > 0
        invariant
            i + rest@.len() == orig.len(),
            orig.len() == total,
            rv == results_view(orig),
            rest@ == orig.subrange(i as int, orig.len() as int),
            errors.total_view() == failure_texts(rv, i as nat).len(),
            errors.total_view() <= i,
            errors.listed_view() == if failure_texts(rv, i as nat).len() <= BATCHED_ERROR_CAP {
                failure_texts(rv, i as nat)
            } else {
                failure_texts(rv, i as nat).subrange(0, BATCHED_ERROR_CAP as int)
            },
            errors.total_view() == 0 ==> result@.len() == i && forall|k: int|
                0 <= k < i ==> orig[k] == Ok::<U, SexpError>(#[trigger] result@[k]),
            errors.total_view() == 0 <==> forall|k: int| 0 <= k < i ==> #[trigger] orig[k] is Ok,
        decreases rest@.len(),
    {
        let ghost prev_texts = failure_texts(rv, i as nat);
        let item = rest.remove(0);
        proof {
            assert(item == orig[i as int]);
            assert(rest@ =~= orig.subrange(i + 1, orig.len() as int));
            assert(rv[i as int] == match orig[i as int] {
                Ok(_) => Ok(Seq::<char>::empty()),
                Err(e) => Err(e@),
            });
        }
        match item {
            Ok(v) => {
                result.push(v);
            },
            Err(e) => {
                let ghost ev = e@;
                let idx = i;
                errors.push(move || -> (m: String)
                    ensures
                        m@ == index_failure_text(idx as nat, failure_detail(ev)),
                    { failure_message(idx, e) });
                proof {
                    let next = failure_texts(rv, (i + 1) as nat);
                    assert(next == prev_texts.push(index_failure_text(i as nat, failure_detail(ev))));
                    if prev_texts.len() < BATCHED_ERROR_CAP {
                        assert(next =~= prev_texts.push(
                            index_failure_text(i as nat, failure_detail(ev)),
                        ));
                    } else {
                        assert(next.subrange(0, BATCHED_ERROR_CAP as int) =~= prev_texts.subrange(
                            0,
                            BATCHED_ERROR_CAP as int,
                        ));
                    }
                }
            },
        }
        i = i + 1;
    }
    if errors.is_empty() {
        Ok(result)
    } else {
        proof {
            assert(orig.subrange(0, orig.len() as int) =~= orig);
        }
        Err(errors.into_error(container))
    }
}

/// Apply `f` to every element.
fn map_elems<T: Copy, U, F: Fn(T) -> Result<U, SexpError>>(v: &[T], f: &F) -> (r: Vec<
    Result<U, SexpError>,
>)
    requires
        forall|i: int| 0 <= i < v@.len() ==> call_requires(*f, (#[trigger] v@[i],)),
    ensures
        r@.len() == v@.len(),
        forall|i: int| 0 <= i < v@.len() ==> call_ensures(*f, (v@[i],), #[trigger] r@[i]),
{
    let mut r: Vec<Result<U, SexpError>> = Vec::new();
    let mut i: usize = 0;
    while i < v.len()
        invariant
            i <= v@.len(),
            r@.len() == i,
            forall|k: int| 0 <= k < v@.len() ==> call_requires(*f, (#[trigger] v@[k],)),
            forall|k: int| 0 <= k < i ==> call_ensures(*f, (v@[k],), #[trigger] r@[k]),
        decreases v@.len() - i,
    {
        r.push(f(v[i]));
        i = i + 1;
    }
    r
}

/// What a numeric conversion says of an object that is not an integer,
/// double, raw or logical vector.
pub open spec fn not_numeric_text(t: SEXPTYPE) -> Seq<char> {
    "expected integer, numeric, logical, or raw; got "@ + t.spec_name()
}

/// Shared walk over an integer, double, raw or logical vector: applies the
/// per-element map of the object's type (doubles reach `map_bits` as their
/// IEEE-754 bits, logicals as [`RLogical`]) and batches every failure under
/// `container` (see [`collect_coerced`]). Any other type is an error.
pub fn from_numeric_vec_with<
    U,
    FI: Fn(i32) -> Result<U, SexpError>,
    FD: Fn(u64) -> Result<U, SexpError>,
    FR: Fn(u8) -> Result<U, SexpError>,
    FL: Fn(RLogical) -> Result<U, SexpError>,
>(sexp: &Sexp, container: &str, map_i32: FI, map_bits: FD, map_u8: FR, map_lgl: FL) -> (r: Result<
    Vec<U>,
    SexpError,
>)
    requires
        sexp.stype() == SEXPTYPE::INTSXP ==> forall|i: int|
            0 <= i < sexp.ints().len() ==> call_requires(map_i32, (#[trigger] sexp.ints()[i],)),
        sexp.stype() == SEXPTYPE::REALSXP ==> forall|i: int|
            0 <= i < sexp.reals().len() ==> call_requires(map_bits, (#[trigger] sexp.reals()[i],)),
        sexp.stype() == SEXPTYPE::RAWSXP ==> forall|i: int|
            0 <= i < sexp.raws().len() ==> call_requires(map_u8, (#[trigger] sexp.raws()[i],)),
        sexp.stype() == SEXPTYPE::LGLSXP ==> forall|i: int|
            0 <= i < sexp.ints().len() ==> call_requires(map_lgl, (RLogical(#[trigger] sexp.ints()[i]),)),
    ensures
        !(sexp.stype() == SEXPTYPE::INTSXP || sexp.stype() == SEXPTYPE::REALSXP || sexp.stype()
            == SEXPTYPE::RAWSXP || sexp.stype() == SEXPTYPE::LGLSXP) ==> (r matches Err(e) && e@
            == SexpErrorView::InvalidValue(not_numeric_text(sexp.stype()))),
        r matches Ok(v) ==> v@.len() == sexp.slen() && forall|i: int|
            0 <= i < v@.len() ==> {
                &&& sexp.stype() == SEXPTYPE::INTSXP ==> call_ensures(
                    map_i32,
                    (sexp.ints()[i],),
                    Ok::<U, SexpError>(#[trigger] v@[i]),
                )
                &&& sexp.stype() == SEXPTYPE::REALSXP ==> call_ensures(
                    map_bits,
                    (sexp.reals()[i],),
                    Ok::<U, SexpError>(v@[i]),
                )
                &&& sexp.stype() == SEXPTYPE::RAWSXP ==> call_ensures(
                    map_u8,
                    (sexp.raws()[i],),
                    Ok::<U, SexpError>(v@[i]),
                )
                &&& sexp.stype() == SEXPTYPE::LGLSXP ==> call_ensures(
                    map_lgl,
                    (RLogical(sexp.ints()[i]),),
                    Ok::<U, SexpError>(v@[i]),
                )
            },
{
    proof {
        sexp.lemma_type_consistent();
    }
    let actual = sexp.type_of();
    match actual {
        SEXPTYPE::INTSXP => collect_coerced(container, map_elems(sexp.int_slice(), &map_i32)),
        SEXPTYPE::REALSXP => collect_coerced(container, map_elems(sexp.real_slice(), &map_bits)),
        SEXPTYPE::RAWSXP => collect_coerced(container, map_elems(sexp.raw_slice(), &map_u8)),
        SEXPTYPE::LGLSXP => {
            let codes = sexp.int_slice();
            let mut lgl: Vec<RLogical> = Vec::new();
            let mut i: usize = 0;
            while i < codes.len()
                invariant
                    i <= codes@.len(),
                    lgl@.len() == i,
                    forall|k: int| 0 <= k < i ==> (#[trigger] lgl@[k]) == RLogical(codes@[k]),
                decreases codes@.len() - i,
            {
                lgl.push(RLogical(codes[i]));
                i = i + 1;
            }
            proof {
                assert forall|k: int| 0 <= k < lgl@.len() implies call_requires(
                    map_lgl,
                    (#[trigger] lgl@[k],),
                ) by {
                    assert(lgl@[k] == RLogical(sexp.ints()[k]));
                }
            }
            let r = collect_coerced(container, map_elems(lgl.as_slice(), &map_lgl));
            proof {
                if r is Ok {
                    let v = r->Ok_0;
                    assert forall|k: int| 0 <= k < v@.len() implies call_ensures(
                        map_lgl,
                        (RLogical(sexp.ints()[k]),),
                        Ok::<U, SexpError>(#[trigger] v@[k]),
                    ) by {
                        assert(lgl@[k] == RLogical(sexp.ints()[k]));
                    }
                }
            }
            r
        },
        _ => {
            let mut m = string_of("expected integer, numeric, logical, or raw; got ");
            push_str(&mut m, actual.name());
            Err(SexpError::InvalidValue(m))
        },
    }
}

impl TryFromSexp for Sexp {
    type Error = SexpError;

    open spec fn accepts(sexp: Sexp) -> bool {
        true
    }

    open spec fn decodes(sexp: Sexp, value: Sexp) -> bool {
        sexp_eq(sexp, value)
    }

    /// The object itself, copied.
    fn try_from_sexp(sexp: &Sexp) -> (r: Result<Sexp, SexpError>) {
        Ok(sexp.deep_clone())
    }
}

impl TryFromSexp for Option<Sexp> {
    type Error = SexpError;

    open spec fn accepts(sexp: Sexp) -> bool {
        true
    }

    open spec fn decodes(sexp: Sexp, value: Option<Sexp>) -> bool {
        if sexp.stype() == SEXPTYPE::NILSXP {
            value is None
        } else {
            value matches Some(v) && sexp_eq(sexp, v)
        }
    }

    /// `NULL` reads as `None`, any other object as itself, copied.
    fn try_from_sexp(sexp: &Sexp) -> (r: Result<Option<Sexp>, SexpError>) {
        if sexp.type_of() == SEXPTYPE::NILSXP {
            Ok(None)
        } else {
            Ok(Some(sexp.deep_clone()))
        }
    }
}

impl TryFromSexp for Option<Vec<String>> {
    type Error = SexpError;

    open spec fn accepts(sexp: Sexp) -> bool {
        sexp.stype() == SEXPTYPE::NILSXP || sexp.stype() == SEXPTYPE::STRSXP
    }

    open spec fn decodes(sexp: Sexp, value: Option<Vec<String>>) -> bool {
        if sexp.stype() == SEXPTYPE::NILSXP {
            value is None
        } else {
            value matches Some(v) && strings_view(v@) == spec_strings_from(sexp)
        }
    }

    /// `NULL` reads as `None`, a character vector as its strings.
    fn try_from_sexp(sexp: &Sexp) -> (r: Result<Option<Vec<String>>, SexpError>)
        ensures
            r matches Err(e) ==> e@ == type_mismatch(*sexp, SEXPTYPE::STRSXP),
    {
        if sexp.type_of() == SEXPTYPE::NILSXP {
            return Ok(None);
        }
        match Vec::<String>::try_from_sexp(sexp) {
            Ok(v) => Ok(Some(v)),
            Err(e) => Err(e),
        }
    }
}

impl TryFromSexp for Option<Vec<Option<String>>> {
    type Error = SexpError;

    open spec fn accepts(sexp: Sexp) -> bool {
        sexp.stype() == SEXPTYPE::NILSXP || sexp.stype() == SEXPTYPE::STRSXP
    }

    open spec fn decodes(sexp: Sexp, value: Option<Vec<Option<String>>>) -> bool {
        if sexp.stype() == SEXPTYPE::NILSXP {
            value is None
        } else {
            value matches Some(v) && opt_strs_view(v@) == spec_opt_strings_from(sexp)
        }
    }

    /// `NULL` reads as `None`, a character vector as its optional strings.
    fn try_from_sexp(sexp: &Sexp) -> (r: Result<Option<Vec<Option<String>>>, SexpError>)
        ensures
            r matches Err(e) ==> e@ == type_mismatch(*sexp, SEXPTYPE::STRSXP),
    {
        if sexp.type_of() == SEXPTYPE::NILSXP {
            return Ok(None);
        }
        match Vec::<Option<String>>::try_from_sexp(sexp) {
            Ok(v) => Ok(Some(v)),
            Err(e) => Err(e),
        }
    }
}

/// One element of a list read as a vector of strings.
fn strings_elem(_i: usize, e: &Sexp) -> (r: Result<Vec<String>, SexpError>)
    ensures
        r is Ok <==> e.stype() == SEXPTYPE::STRSXP,
        r matches Ok(v) ==> strings_view(v@) == spec_strings_from(*e),
        r matches Err(x) ==> x@ == type_mismatch(*e, SEXPTYPE::STRSXP),
{
    Vec::<String>::try_from_sexp(e)
}

impl TryFromSexp for Vec<Vec<String>> {
    type Error = SexpError;

    open spec fn accepts(sexp: Sexp) -> bool {
        &&& sexp.stype() == SEXPTYPE::VECSXP
        &&& forall|i: int|
            0 <= i < sexp.elems().len() ==> (#[trigger] sexp.elems()[i]).stype()
                == SEXPTYPE::STRSXP
    }

    open spec fn decodes(sexp: Sexp, value: Vec<Vec<String>>) -> bool {
        &&& value@.len() == sexp.elems().len()
        &&& forall|i: int|
            0 <= i < value@.len() ==> strings_view(#[trigger] value@[i]@) == spec_strings_from(
                sexp.elems()[i],
            )
    }

    /// A list of character vectors, each read as its strings; the first
    /// element that is not a character vector gives the error.
    fn try_from_sexp(sexp: &Sexp) -> (r: Result<Vec<Vec<String>>, SexpError>) {
        let r = map_vecsxp_with(sexp, strings_elem);
        proof {
            if r is Err && sexp.stype() == SEXPTYPE::VECSXP {
                assert(!Self::accepts(*sexp));
            }
        }
        r
    }
}

impl TryFromSexp for VecDeque<i32> {
    type Error = SexpTypeError;

    open spec fn accepts(sexp: Sexp) -> bool {
        sexp.stype() == SEXPTYPE::INTSXP
    }

    open spec fn decodes(sexp: Sexp, value: VecDeque<i32>) -> bool {
        value@ == sexp.ints()
    }

    /// The elements of an integer vector, in order.
    fn try_from_sexp(sexp: &Sexp) -> (r: Result<VecDeque<i32>, SexpTypeError>)
        ensures
            r matches Err(e) ==> e == (SexpTypeError { expected: SEXPTYPE::INTSXP, actual: sexp.stype() }),
    {
        let actual = sexp.type_of();
        if actual != SEXPTYPE::INTSXP {
            return Err(SexpTypeError { expected: SEXPTYPE::INTSXP, actual });
        }
        let v = sexp.int_slice();
        let mut d: VecDeque<i32> = VecDeque::new();
        let mut i: usize = 0;
        while i < v.len()
            invariant
                i <= v@.len(),
                d@ == v@.subrange(0, i as int),
            decreases v@.len() - i,
        {
            d.push_back(v[i]);
            proof {
                assert(v@.subrange(0, i + 1) =~= v@.subrange(0, i as int).push(v@[i as int]));
            }
            i = i + 1;
        }
        proof {
            assert(v@.subrange(0, v@.len() as int) =~= v@);
        }
        Ok(d)
    }
}

impl TryFromSexp for VecDeque<u8> {
    type Error = SexpTypeError;

    open spec fn accepts(sexp: Sexp) -> bool {
        sexp.stype() == SEXPTYPE::RAWSXP
    }

    open spec fn decodes(sexp: Sexp, value: VecDeque<u8>) -> bool {
        value@ == sexp.raws()
    }

    /// The bytes of a raw vector, in order.
    fn try_from_sexp(sexp: &Sexp) -> (r: Result<VecDeque<u8>, SexpTypeError>)
        ensures
            r matches Err(e) ==> e == (SexpTypeError { expected: SEXPTYPE::RAWSXP, actual: sexp.stype() }),
    {
        let actual = sexp.type_of();
        if actual != SEXPTYPE::RAWSXP {
            return Err(SexpTypeError { expected: SEXPTYPE::RAWSXP, actual });
        }
        let v = sexp.raw_slice();
        let mut d: VecDeque<u8> = VecDeque::new();
        let mut i: usize = 0;
        while i < v.len()
            invariant
                i <= v@.len(),
                d@ == v@.subrange(0, i as int),
            decreases v@.len() - i,
        {
            d.push_back(v[i]);
            proof {
                assert(v@.subrange(0, i + 1) =~= v@.subrange(0, i as int).push(v@[i as int]));
            }
            i = i + 1;
        }
        proof {
            assert(v@.subrange(0, v@.len() as int) =~= v@);
        }
        Ok(d)
    }
}

} // verus!
