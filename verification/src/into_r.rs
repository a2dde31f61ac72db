//! Conversions from Rust values to R objects.
//!
//! [`IntoR`] is the outbound path: every conversion here succeeds, and
//! [`converts_to`](IntoR::converts_to) says exactly which R object comes
//! out. `None` inside a vector becomes the matching `NA`; `None` for a whole
//! container becomes `NULL`.
use crate::from_r::strings_view;
use crate::sexp::{Sexp, SEXPTYPE, RLogical, NA_INTEGER, NA_LOGICAL, opt_str_view, opt_strs_view};
use crate::text::string_of;
use std::convert::Infallible;
use vstd::prelude::*;

verus! {

/// Conversion of a Rust value into an R object.
pub trait IntoR: Sized {
    /// Why a conversion can fail.
    type Error;

    /// The values the conversion accepts.
    spec fn into_r_ok(self) -> bool;

    /// `s` is the R object that `self` converts to.
    spec fn converts_to(self, s: Sexp) -> bool;

    /// Convert, reporting failure.
    fn try_into_sexp(self) -> (r: Result<Sexp, Self::Error>)
        ensures
            r is Ok <==> self.into_r_ok(),
            r matches Ok(s) ==> self.converts_to(s),
    ;

    /// Convert a value the conversion accepts.
    fn into_sexp(self) -> (r: Sexp)
        requires
            self.into_r_ok(),
        ensures
            self.converts_to(r),
    {
        match self.try_into_sexp() {
            Ok(s) => s,
            Err(_) => {
                proof {
                    assert(false);
                }
                Sexp::nil()
            },
        }
    }
}

/// `s` is a fresh integer vector holding `v`.
pub open spec fn is_int_vector(s: Sexp, v: Seq<i32>) -> bool {
    s.stype() == SEXPTYPE::INTSXP && s.ints() == v && s.bare()
}

/// `s` is a fresh logical vector holding the codes `v`.
pub open spec fn is_lgl_vector(s: Sexp, v: Seq<i32>) -> bool {
    s.stype() == SEXPTYPE::LGLSXP && s.ints() == v && s.bare()
}

/// `s` is a fresh raw vector holding `v`.
pub open spec fn is_raw_vector(s: Sexp, v: Seq<u8>) -> bool {
    s.stype() == SEXPTYPE::RAWSXP && s.raws() == v && s.bare()
}

/// `s` is a fresh character vector holding `v` (`None` is `NA`).
pub open spec fn is_str_vector(s: Sexp, v: Seq<Option<Seq<char>>>) -> bool {
    s.stype() == SEXPTYPE::STRSXP && s.strs() == v && s.bare()
}

/// `s` is a fresh `NULL`.
pub open spec fn is_null(s: Sexp) -> bool {
    s.stype() == SEXPTYPE::NILSXP
}

/// The logical code of a `bool`.
pub open spec fn lgl_code(b: bool) -> i32 {
    if b {
        1
    } else {
        0
    }
}

/// The logical code of an optional `bool` (`None` is `NA`).
pub open spec fn opt_lgl_code(b: Option<bool>) -> i32 {
    match b {
        Some(x) => lgl_code(x),
        None => NA_LOGICAL,
    }
}

/// The integer code of an optional `i32` (`None` is `NA`).
pub open spec fn opt_int_code(x: Option<i32>) -> i32 {
    match x {
        Some(v) => v,
        None => NA_INTEGER,
    }
}

/// All strings present.
pub open spec fn all_present(v: Seq<Seq<char>>) -> Seq<Option<Seq<char>>> {
    v.map_values(|t: Seq<char>| Some(t))
}

/// The texts of string slices.
pub open spec fn strs_of(v: Seq<&str>) -> Seq<Seq<char>> {
    v.map_values(|t: &str| t@)
}

/// The texts of optional string slices.
pub open spec fn opt_strs_of(v: Seq<Option<&str>>) -> Seq<Option<Seq<char>>> {
    v.map_values(|o: Option<&str>| match o {
        Some(t) => Some(t@),
        None => None,
    })
}

impl IntoR for Sexp {
    type Error = Infallible;

    open spec fn into_r_ok(self) -> bool {
        true
    }

    open spec fn converts_to(self, s: Sexp) -> bool {
        s == self
    }

    fn try_into_sexp(self) -> (r: Result<Sexp, Infallible>) {
        Ok(self)
    }
}

impl IntoR for () {
    type Error = Infallible;

    open spec fn into_r_ok(self) -> bool {
        true
    }

    open spec fn converts_to(self, s: Sexp) -> bool {
        is_null(s)
    }

    /// `()` is `NULL`.
    fn try_into_sexp(self) -> (r: Result<Sexp, Infallible>) {
        Ok(Sexp::nil())
    }
}

impl IntoR for i32 {
    type Error = Infallible;

    open spec fn into_r_ok(self) -> bool {
        true
    }

    open spec fn converts_to(self, s: Sexp) -> bool {
        is_int_vector(s, seq![self])
    }

    /// `integer(1)`; `i32::MIN` is `NA_integer_`.
    fn try_into_sexp(self) -> (r: Result<Sexp, Infallible>) {
        Ok(Sexp::scalar_integer(self))
    }
}

impl IntoR for u8 {
    type Error = Infallible;

    open spec fn into_r_ok(self) -> bool {
        true
    }

    open spec fn converts_to(self, s: Sexp) -> bool {
        is_raw_vector(s, seq![self])
    }

    /// `raw(1)`.
    fn try_into_sexp(self) -> (r: Result<Sexp, Infallible>) {
        Ok(Sexp::scalar_raw(self))
    }
}

impl IntoR for i8 {
    type Error = Infallible;

    open spec fn into_r_ok(self) -> bool {
        true
    }

    open spec fn converts_to(self, s: Sexp) -> bool {
        is_int_vector(s, seq![self as i32])
    }

    /// Widened to `integer(1)`.
    fn try_into_sexp(self) -> (r: Result<Sexp, Infallible>) {
        Ok(Sexp::scalar_integer(self as i32))
    }
}

impl IntoR for i16 {
    type Error = Infallible;

    open spec fn into_r_ok(self) -> bool {
        true
    }

    open spec fn converts_to(self, s: Sexp) -> bool {
        is_int_vector(s, seq![self as i32])
    }

    /// Widened to `integer(1)`.
    fn try_into_sexp(self) -> (r: Result<Sexp, Infallible>) {
        Ok(Sexp::scalar_integer(self as i32))
    }
}

impl IntoR for u16 {
    type Error = Infallible;

    open spec fn into_r_ok(self) -> bool {
        true
    }

    open spec fn converts_to(self, s: Sexp) -> bool {
        is_int_vector(s, seq![self as i32])
    }

    /// Widened to `integer(1)`.
    fn try_into_sexp(self) -> (r: Result<Sexp, Infallible>) {
        Ok(Sexp::scalar_integer(self as i32))
    }
}

impl IntoR for Vec<i32> {
    type Error = Infallible;

    open spec fn into_r_ok(self) -> bool {
        true
    }

    open spec fn converts_to(self, s: Sexp) -> bool {
        is_int_vector(s, self@)
    }

    /// An integer vector with the same elements.
    fn try_into_sexp(self) -> (r: Result<Sexp, Infallible>) {
        Ok(Sexp::integer(self))
    }
}

impl<'a> IntoR for &'a [i32] {
    type Error = Infallible;

    open spec fn into_r_ok(self) -> bool {
        true
    }

    open spec fn converts_to(self, s: Sexp) -> bool {
        is_int_vector(s, self@)
    }

    /// An integer vector with the same elements.
    fn try_into_sexp(self) -> (r: Result<Sexp, Infallible>) {
        Ok(Sexp::integer(crate::sexp::copy_slice(self)))
    }
}

impl IntoR for Vec<u8> {
    type Error = Infallible;

    open spec fn into_r_ok(self) -> bool {
        true
    }

    open spec fn converts_to(self, s: Sexp) -> bool {
        is_raw_vector(s, self@)
    }

    /// A raw vector with the same bytes.
    fn try_into_sexp(self) -> (r: Result<Sexp, Infallible>) {
        Ok(Sexp::raw(self))
    }
}

impl<'a> IntoR for &'a [u8] {
    type Error = Infallible;

    open spec fn into_r_ok(self) -> bool {
        true
    }

    open spec fn converts_to(self, s: Sexp) -> bool {
        is_raw_vector(s, self@)
    }

    /// A raw vector with the same bytes.
    fn try_into_sexp(self) -> (r: Result<Sexp, Infallible>) {
        Ok(Sexp::raw(crate::sexp::copy_slice(self)))
    }
}

/// The logical codes of `RLogical` values.
pub open spec fn rlogical_codes(v: Seq<RLogical>) -> Seq<i32> {
    v.map_values(|x: RLogical| x.0)
}

impl IntoR for Vec<RLogical> {
    type Error = Infallible;

    open spec fn into_r_ok(self) -> bool {
        true
    }

    open spec fn converts_to(self, s: Sexp) -> bool {
        is_lgl_vector(s, rlogical_codes(self@))
    }

    /// A logical vector with the same codes.
    fn try_into_sexp(self) -> (r: Result<Sexp, Infallible>) {
        let mut codes: Vec<i32> = Vec::new();
        let mut i: usize = 0;
        while i < self.len()
            invariant
                i <= self@.len(),
                codes@ == rlogical_codes(self@.subrange(0, i as int)),
            decreases self@.len() - i,
        {
            codes.push(self[i].0);
            proof {
                assert(rlogical_codes(self@.subrange(0, i + 1)) =~= rlogical_codes(
                    self@.subrange(0, i as int),
                ).push(self@[i as int].0));
            }
            i = i + 1;
        }
        proof {
            assert(self@.subrange(0, self@.len() as int) =~= self@);
        }
        Ok(Sexp::logical(codes))
    }
}

/// Integer codes of narrower integers.
fn widen_i8(v: &[i8]) -> (r: Vec<i32>)
    ensures
        r@ == v@.map_values(|x: i8| x as i32),
{
    let mut r: Vec<i32> = Vec::new();
    let mut i: usize = 0;
    while i < v.len()
        invariant
            i <= v@.len(),
            r@ == v@.subrange(0, i as int).map_values(|x: i8| x as i32),
        decreases v@.len() - i,
    {
        r.push(v[i] as i32);
        proof {
            assert(v@.subrange(0, i + 1).map_values(|x: i8| x as i32) =~= v@.subrange(
                0,
                i as int,
            ).map_values(|x: i8| x as i32).push(v@[i as int] as i32));
        }
        i = i + 1;
    }
    proof {
        assert(v@.subrange(0, v@.len() as int) =~= v@);
    }
    r
}

/// Integer codes of narrower integers.
fn widen_i16(v: &[i16]) -> (r: Vec<i32>)
    ensures
        r@ == v@.map_values(|x: i16| x as i32),
{
    let mut r: Vec<i32> = Vec::new();
    let mut i: usize = 0;
    while i < v.len()
        invariant
            i <= v@.len(),
            r@ == v@.subrange(0, i as int).map_values(|x: i16| x as i32),
        decreases v@.len() - i,
    {
        r.push(v[i] as i32);
        proof {
            assert(v@.subrange(0, i + 1).map_values(|x: i16| x as i32) =~= v@.subrange(
                0,
                i as int,
            ).map_values(|x: i16| x as i32).push(v@[i as int] as i32));
        }
        i = i + 1;
    }
    proof {
        assert(v@.subrange(0, v@.len() as int) =~= v@);
    }
    r
}

/// Integer codes of narrower integers.
fn widen_u16(v: &[u16]) -> (r: Vec<i32>)
    ensures
        r@ == v@.map_values(|x: u16| x as i32),
{
    let mut r: Vec<i32> = Vec::new();
    let mut i: usize = 0;
    while i < v.len()
        invariant
            i <= v@.len(),
            r@ == v@.subrange(0, i as int).map_values(|x: u16| x as i32),
        decreases v@.len() - i,
    {
        r.push(v[i] as i32);
        proof {
            assert(v@.subrange(0, i + 1).map_values(|x: u16| x as i32) =~= v@.subrange(
                0,
                i as int,
            ).map_values(|x: u16| x as i32).push(v@[i as int] as i32));
        }
        i = i + 1;
    }
    proof {
        assert(v@.subrange(0, v@.len() as int) =~= v@);
    }
    r
}

impl IntoR for Vec<i8> {
    type Error = Infallible;

    open spec fn into_r_ok(self) -> bool {
        true
    }

    open spec fn converts_to(self, s: Sexp) -> bool {
        is_int_vector(s, self@.map_values(|x: i8| x as i32))
    }

    /// Widened to an integer vector.
    fn try_into_sexp(self) -> (r: Result<Sexp, Infallible>) {
        Ok(Sexp::integer(widen_i8(self.as_slice())))
    }
}

impl IntoR for Vec<i16> {
    type Error = Infallible;

    open spec fn into_r_ok(self) -> bool {
        true
    }

    open spec fn converts_to(self, s: Sexp) -> bool {
        is_int_vector(s, self@.map_values(|x: i16| x as i32))
    }

    /// Widened to an integer vector.
    fn try_into_sexp(self) -> (r: Result<Sexp, Infallible>) {
        Ok(Sexp::integer(widen_i16(self.as_slice())))
    }
}

impl IntoR for Vec<u16> {
    type Error = Infallible;

    open spec fn into_r_ok(self) -> bool {
        true
    }

    open spec fn converts_to(self, s: Sexp) -> bool {
        is_int_vector(s, self@.map_values(|x: u16| x as i32))
    }

    /// Widened to an integer vector.
    fn try_into_sexp(self) -> (r: Result<Sexp, Infallible>) {
        Ok(Sexp::integer(widen_u16(self.as_slice())))
    }
}

/// The elements of a character vector built from present strings.
fn present_elems(v: &[String]) -> (r: Vec<Option<String>>)
    ensures
        opt_strs_view(r@) == all_present(strings_view(v@)),
{
    let mut r: Vec<Option<String>> = Vec::new();
    let mut i: usize = 0;
    while i < v.len()
        invariant
            i <= v@.len(),
            r@.len() == i,
            forall|k: int| 0 <= k < i ==> opt_str_view(#[trigger] r@[k]) == Some(v@[k]@),
        decreases v@.len() - i,
    {
        r.push(Some(v[i].clone()));
        i = i + 1;
    }
    proof {
        assert(opt_strs_view(r@) =~= all_present(strings_view(v@)));
    }
    r
}

/// The elements of a character vector built from present string slices.
fn present_str_elems(v: &[&str]) -> (r: Vec<Option<String>>)
    ensures
        opt_strs_view(r@) == all_present(strs_of(v@)),
{
    let mut r: Vec<Option<String>> = Vec::new();
    let mut i: usize = 0;
    while i < v.len()
        invariant
            i <= v@.len(),
            r@.len() == i,
            forall|k: int| 0 <= k < i ==> opt_str_view(#[trigger] r@[k]) == Some(v@[k]@),
        decreases v@.len() - i,
    {
        r.push(Some(string_of(v[i])));
        i = i + 1;
    }
    proof {
        assert(opt_strs_view(r@) =~= all_present(strs_of(v@)));
    }
    r
}

/// The elements of a character vector built from optional string slices.
fn opt_str_elems(v: &[Option<&str>]) -> (r: Vec<Option<String>>)
    ensures
        opt_strs_view(r@) == opt_strs_of(v@),
{
    let mut r: Vec<Option<String>> = Vec::new();
    let mut i: usize = 0;
    while i < v.len()
        invariant
            i <= v@.len(),
            r@.len() == i,
            forall|k: int|
                0 <= k < i ==> opt_str_view(#[trigger] r@[k]) == opt_strs_of(v@)[k],
        decreases v@.len() - i,
    {
        match v[i] {
            Some(t) => r.push(Some(string_of(t))),
            None => r.push(None),
        }
        i = i + 1;
    }
    proof {
        assert(opt_strs_view(r@) =~= opt_strs_of(v@));
    }
    r
}

impl IntoR for Vec<String> {
    type Error = Infallible;

    open spec fn into_r_ok(self) -> bool {
        true
    }

    open spec fn converts_to(self, s: Sexp) -> bool {
        is_str_vector(s, all_present(strings_view(self@)))
    }

    /// A character vector with no `NA`.
    fn try_into_sexp(self) -> (r: Result<Sexp, Infallible>) {
        Ok(Sexp::character(present_elems(self.as_slice())))
    }
}

impl<'a> IntoR for &'a [String] {
    type Error = Infallible;

    open spec fn into_r_ok(self) -> bool {
        true
    }

    open spec fn converts_to(self, s: Sexp) -> bool {
        is_str_vector(s, all_present(strings_view(self@)))
    }

    /// A character vector with no `NA`.
    fn try_into_sexp(self) -> (r: Result<Sexp, Infallible>) {
        Ok(Sexp::character(present_elems(self)))
    }
}

impl<'a, 'b> IntoR for &'a [&'b str] {
    type Error = Infallible;

    open spec fn into_r_ok(self) -> bool {
        true
    }

    open spec fn converts_to(self, s: Sexp) -> bool {
        is_str_vector(s, all_present(strs_of(self@)))
    }

    /// A character vector with no `NA`.
    fn try_into_sexp(self) -> (r: Result<Sexp, Infallible>) {
        Ok(Sexp::character(present_str_elems(self)))
    }
}

impl<'a> IntoR for Vec<&'a str> {
    type Error = Infallible;

    open spec fn into_r_ok(self) -> bool {
        true
    }

    open spec fn converts_to(self, s: Sexp) -> bool {
        is_str_vector(s, all_present(strs_of(self@)))
    }

    /// A character vector with no `NA`.
    fn try_into_sexp(self) -> (r: Result<Sexp, Infallible>) {
        Ok(Sexp::character(present_str_elems(self.as_slice())))
    }
}

impl IntoR for Vec<Option<String>> {
    type Error = Infallible;

    open spec fn into_r_ok(self) -> bool {
        true
    }

    open spec fn converts_to(self, s: Sexp) -> bool {
        is_str_vector(s, opt_strs_view(self@))
    }

    /// A character vector; `None` is `NA_character_`.
    fn try_into_sexp(self) -> (r: Result<Sexp, Infallible>) {
        Ok(Sexp::character(self))
    }
}

impl<'a> IntoR for Vec<Option<&'a str>> {
    type Error = Infallible;

    open spec fn into_r_ok(self) -> bool {
        true
    }

    open spec fn converts_to(self, s: Sexp) -> bool {
        is_str_vector(s, opt_strs_of(self@))
    }

    /// A character vector; `None` is `NA_character_`.
    fn try_into_sexp(self) -> (r: Result<Sexp, Infallible>) {
        Ok(Sexp::character(opt_str_elems(self.as_slice())))
    }
}

/// Logical codes of `bool`s.
fn bool_codes(v: &[bool]) -> (r: Vec<i32>)
    ensures
        r@ == v@.map_values(|b: bool| lgl_code(b)),
{
    let mut r: Vec<i32> = Vec::new();
    let mut i: usize = 0;
    while i < v.len()
        invariant
            i <= v@.len(),
            r@ == v@.subrange(0, i as int).map_values(|b: bool| lgl_code(b)),
        decreases v@.len() - i,
    {
        r.push(if v[i] {
            1
        } else {
            0
        });
        proof {
            assert(v@.subrange(0, i + 1).map_values(|b: bool| lgl_code(b)) =~= v@.subrange(
                0,
                i as int,
            ).map_values(|b: bool| lgl_code(b)).push(lgl_code(v@[i as int])));
        }
        i = i + 1;
    }
    proof {
        assert(v@.subrange(0, v@.len() as int) =~= v@);
    }
    r
}

impl IntoR for Vec<bool> {
    type Error = Infallible;

    open spec fn into_r_ok(self) -> bool {
        true
    }

    open spec fn converts_to(self, s: Sexp) -> bool {
        is_lgl_vector(s, self@.map_values(|b: bool| lgl_code(b)))
    }

    /// A logical vector (`TRUE` is 1, `FALSE` is 0).
    fn try_into_sexp(self) -> (r: Result<Sexp, Infallible>) {
        Ok(Sexp::logical(bool_codes(self.as_slice())))
    }
}

impl<'a> IntoR for &'a [bool] {
    type Error = Infallible;

    open spec fn into_r_ok(self) -> bool {
        true
    }

    open spec fn converts_to(self, s: Sexp) -> bool {
        is_lgl_vector(s, self@.map_values(|b: bool| lgl_code(b)))
    }

    /// A logical vector (`TRUE` is 1, `FALSE` is 0).
    fn try_into_sexp(self) -> (r: Result<Sexp, Infallible>) {
        Ok(Sexp::logical(bool_codes(self)))
    }
}

impl IntoR for Vec<Option<bool>> {
    type Error = Infallible;

    open spec fn into_r_ok(self) -> bool {
        true
    }

    open spec fn converts_to(self, s: Sexp) -> bool {
        is_lgl_vector(s, self@.map_values(|b: Option<bool>| opt_lgl_code(b)))
    }

    /// A logical vector; `None` is `NA`.
    fn try_into_sexp(self) -> (r: Result<Sexp, Infallible>) {
        let mut codes: Vec<i32> = Vec::new();
        let mut i: usize = 0;
        while i < self.len()
            invariant
                i <= self@.len(),
                codes@ == self@.subrange(0, i as int).map_values(|b: Option<bool>| opt_lgl_code(b)),
            decreases self@.len() - i,
        {
            let c: i32 = match self[i] {
                Some(true) => 1,
                Some(false) => 0,
                None => NA_LOGICAL,
            };
            codes.push(c);
            proof {
                assert(self@.subrange(0, i + 1).map_values(|b: Option<bool>| opt_lgl_code(b))
                    =~= self@.subrange(0, i as int).map_values(
                    |b: Option<bool>| opt_lgl_code(b),
                ).push(opt_lgl_code(self@[i as int])));
            }
            i = i + 1;
        }
        proof {
            assert(self@.subrange(0, self@.len() as int) =~= self@);
        }
        Ok(Sexp::logical(codes))
    }
}

impl IntoR for Vec<Option<i32>> {
    type Error = Infallible;

    open spec fn into_r_ok(self) -> bool {
        true
    }

    open spec fn converts_to(self, s: Sexp) -> bool {
        is_int_vector(s, self@.map_values(|x: Option<i32>| opt_int_code(x)))
    }

    /// An integer vector; `None` is `NA_integer_`.
    fn try_into_sexp(self) -> (r: Result<Sexp, Infallible>) {
        let mut codes: Vec<i32> = Vec::new();
        let mut i: usize = 0;
        while i < self.len()
            invariant
                i <= self@.len(),
                codes@ == self@.subrange(0, i as int).map_values(|x: Option<i32>| opt_int_code(x)),
            decreases self@.len() - i,
        {
            let c: i32 = match self[i] {
                Some(x) => x,
                None => NA_INTEGER,
            };
            codes.push(c);
            proof {
                assert(self@.subrange(0, i + 1).map_values(|x: Option<i32>| opt_int_code(x))
                    =~= self@.subrange(0, i as int).map_values(
                    |x: Option<i32>| opt_int_code(x),
                ).push(opt_int_code(self@[i as int])));
            }
            i = i + 1;
        }
        proof {
            assert(self@.subrange(0, self@.len() as int) =~= self@);
        }
        Ok(Sexp::integer(codes))
    }
}

impl IntoR for Option<Vec<i32>> {
    type Error = Infallible;

    open spec fn into_r_ok(self) -> bool {
        true
    }

    open spec fn converts_to(self, s: Sexp) -> bool {
        match self {
            Some(v) => is_int_vector(s, v@),
            None => is_null(s),
        }
    }

    /// The vector, or `NULL` for `None`.
    fn try_into_sexp(self) -> (r: Result<Sexp, Infallible>) {
        match self {
            Some(v) => Ok(Sexp::integer(v)),
            None => Ok(Sexp::nil()),
        }
    }
}

impl IntoR for Option<Vec<String>> {
    type Error = Infallible;

    open spec fn into_r_ok(self) -> bool {
        true
    }

    open spec fn converts_to(self, s: Sexp) -> bool {
        match self {
            Some(v) => is_str_vector(s, all_present(strings_view(v@))),
            None => is_null(s),
        }
    }

    /// The character vector, or `NULL` for `None`.
    fn try_into_sexp(self) -> (r: Result<Sexp, Infallible>) {
        match self {
            Some(v) => Ok(Sexp::character(present_elems(v.as_slice()))),
            None => Ok(Sexp::nil()),
        }
    }
}

impl<A: IntoR, B: IntoR> IntoR for (A, B) {
    type Error = ();

    open spec fn into_r_ok(self) -> bool {
        self.0.into_r_ok() && self.1.into_r_ok()
    }

    open spec fn converts_to(self, s: Sexp) -> bool {
        &&& s.stype() == SEXPTYPE::VECSXP
        &&& s.bare()
        &&& s.elems().len() == 2
        &&& self.0.converts_to(s.elems()[0])
        &&& self.1.converts_to(s.elems()[1])
    }

    /// An unnamed list of the converted elements; a tuple holding an element
    /// that does not convert is rejected.
    fn try_into_sexp(self) -> (r: Result<Sexp, ()>) {
        let (a, b) = self;
        match a.try_into_sexp() {
            Ok(sa) => match b.try_into_sexp() {
                Ok(sb) => {
                    let mut v: Vec<Sexp> = Vec::new();
                    v.push(sa);
                    v.push(sb);
                    Ok(Sexp::list(v))
                },
                Err(_) => Err(()),
            },
            Err(_) => Err(()),
        }
    }
}

impl<A: IntoR, B: IntoR, C: IntoR> IntoR for (A, B, C) {
    type Error = ();

    open spec fn into_r_ok(self) -> bool {
        self.0.into_r_ok() && self.1.into_r_ok() && self.2.into_r_ok()
    }

    open spec fn converts_to(self, s: Sexp) -> bool {
        &&& s.stype() == SEXPTYPE::VECSXP
        &&& s.bare()
        &&& s.elems().len() == 3
        &&& self.0.converts_to(s.elems()[0])
        &&& self.1.converts_to(s.elems()[1])
        &&& self.2.converts_to(s.elems()[2])
    }

    /// An unnamed list of the converted elements; a tuple holding an element
    /// that does not convert is rejected.
    fn try_into_sexp(self) -> (r: Result<Sexp, ()>) {
        let (a, b, c) = self;
        let sa = match a.try_into_sexp() {
            Ok(x) => x,
            Err(_) => {
                return Err(());
            },
        };
        let sb = match b.try_into_sexp() {
            Ok(x) => x,
            Err(_) => {
                return Err(());
            },
        };
        let sc = match c.try_into_sexp() {
            Ok(x) => x,
            Err(_) => {
                return Err(());
            },
        };
        let mut v: Vec<Sexp> = Vec::new();
        v.push(sa);
        v.push(sb);
        v.push(sc);
        Ok(Sexp::list(v))
    }
}

/// An unnamed list of converted values (each element must convert).
pub fn vec_of_into_r_to_list<T: IntoR>(items: Vec<T>) -> (r: Sexp)
    requires
        forall|i: int| 0 <= i < items@.len() ==> (#[trigger] items@[i]).into_r_ok(),
    ensures
        r.stype() == SEXPTYPE::VECSXP,
        r.bare(),
        r.elems().len() == items@.len(),
        forall|i: int| 0 <= i < items@.len() ==> (#[trigger] items@[i]).converts_to(r.elems()[i]),
{
    let ghost orig = items@;
    let mut rest = items;
    let total: usize = rest.len();
    let mut out: Vec<Sexp> = Vec::new();
    while rest.len() > 0
        invariant
            out@.len() + rest@.len() == orig.len(),
            orig.len() == total,
            rest@ == orig.subrange(out@.len() as int, orig.len() as int),
            forall|i: int| 0 <= i < orig.len() ==> (#[trigger] orig[i]).into_r_ok(),
            forall|i: int| 0 <= i < out@.len() ==> (#[trigger] orig[i]).converts_to(out@[i]),
        decreases rest@.len(),
    {
        let ghost k = out@.len() as int;
        let x = rest.remove(0);
        proof {
            assert(x == orig[k]);
            assert(rest@ =~= orig.subrange(k + 1, orig.len() as int));
        }
        let s = x.into_sexp();
        out.push(s);
    }
    Sexp::list(out)
}

/// An unnamed list of converted values, `NULL` for each `None`.
pub fn vec_option_of_into_r_to_list<T: IntoR>(items: Vec<Option<T>>) -> (r: Sexp)
    requires
        forall|i: int|
            0 <= i < items@.len() ==> (#[trigger] items@[i] matches Some(x) ==> x.into_r_ok()),
    ensures
        r.stype() == SEXPTYPE::VECSXP,
        r.bare(),
        r.elems().len() == items@.len(),
        forall|i: int|
            0 <= i < items@.len() ==> match #[trigger] items@[i] {
                Some(x) => x.converts_to(r.elems()[i]),
                None => is_null(r.elems()[i]),
            },
{
    let ghost orig = items@;
    let mut rest = items;
    let total: usize = rest.len();
    let mut out: Vec<Sexp> = Vec::new();
    while rest.len() > 0
        invariant
            out@.len() + rest@.len() == orig.len(),
            orig.len() == total,
            rest@ == orig.subrange(out@.len() as int, orig.len() as int),
            forall|i: int|
                0 <= i < orig.len() ==> (#[trigger] orig[i] matches Some(x) ==> x.into_r_ok()),
            forall|i: int|
                0 <= i < out@.len() ==> match #[trigger] orig[i] {
                    Some(x) => x.converts_to(out@[i]),
                    None => is_null(out@[i]),
                },
        decreases rest@.len(),
    {
        let ghost k = out@.len() as int;
        let x = rest.remove(0);
        proof {
            assert(x == orig[k]);
            assert(rest@ =~= orig.subrange(k + 1, orig.len() as int));
        }
        let s = match x {
            Some(v) => v.into_sexp(),
            None => Sexp::nil(),
        };
        out.push(s);
    }
    Sexp::list(out)
}

impl IntoR for Vec<Vec<i32>> {
    type Error = Infallible;

    open spec fn into_r_ok(self) -> bool {
        true
    }

    open spec fn converts_to(self, s: Sexp) -> bool {
        &&& s.stype() == SEXPTYPE::VECSXP
        &&& s.bare()
        &&& s.elems().len() == self@.len()
        &&& forall|i: int| 0 <= i < self@.len() ==> is_int_vector(s.elems()[i], #[trigger] self@[i]@)
    }

    /// A list of integer vectors.
    fn try_into_sexp(self) -> (r: Result<Sexp, Infallible>) {
        Ok(vec_of_into_r_to_list(self))
    }
}

impl IntoR for Vec<Vec<String>> {
    type Error = Infallible;

    open spec fn into_r_ok(self) -> bool {
        true
    }

    open spec fn converts_to(self, s: Sexp) -> bool {
        &&& s.stype() == SEXPTYPE::VECSXP
        &&& s.bare()
        &&& s.elems().len() == self@.len()
        &&& forall|i: int|
            0 <= i < self@.len() ==> is_str_vector(
                s.elems()[i],
                all_present(strings_view(#[trigger] self@[i]@)),
            )
    }

    /// A list of character vectors.
    fn try_into_sexp(self) -> (r: Result<Sexp, Infallible>) {
        Ok(vec_of_into_r_to_list(self))
    }
}

impl<'a> IntoR for Vec<&'a [i32]> {
    type Error = Infallible;

    open spec fn into_r_ok(self) -> bool {
        true
    }

    open spec fn converts_to(self, s: Sexp) -> bool {
        &&& s.stype() == SEXPTYPE::VECSXP
        &&& s.bare()
        &&& s.elems().len() == self@.len()
        &&& forall|i: int| 0 <= i < self@.len() ==> is_int_vector(s.elems()[i], #[trigger] self@[i]@)
    }

    /// A list of integer vectors, each slice copied.
    fn try_into_sexp(self) -> (r: Result<Sexp, Infallible>) {
        Ok(vec_of_into_r_to_list(self))
    }
}

impl<'a> IntoR for Vec<&'a [String]> {
    type Error = Infallible;

    open spec fn into_r_ok(self) -> bool {
        true
    }

    open spec fn converts_to(self, s: Sexp) -> bool {
        &&& s.stype() == SEXPTYPE::VECSXP
        &&& s.bare()
        &&& s.elems().len() == self@.len()
        &&& forall|i: int|
            0 <= i < self@.len() ==> is_str_vector(
                s.elems()[i],
                all_present(strings_view(#[trigger] self@[i]@)),
            )
    }

    /// A list of character vectors.
    fn try_into_sexp(self) -> (r: Result<Sexp, Infallible>) {
        Ok(vec_of_into_r_to_list(self))
    }
}

impl IntoR for Box<[i32]> {
    type Error = Infallible;

    open spec fn into_r_ok(self) -> bool {
        true
    }

    open spec fn converts_to(self, s: Sexp) -> bool {
        is_int_vector(s, self@)
    }

    /// Converted as the vector of its elements.
    fn try_into_sexp(self) -> (r: Result<Sexp, Infallible>) {
        self.into_vec().try_into_sexp()
    }
}

impl IntoR for Box<[u8]> {
    type Error = Infallible;

    open spec fn into_r_ok(self) -> bool {
        true
    }

    open spec fn converts_to(self, s: Sexp) -> bool {
        is_raw_vector(s, self@)
    }

    /// Converted as the vector of its elements.
    fn try_into_sexp(self) -> (r: Result<Sexp, Infallible>) {
        self.into_vec().try_into_sexp()
    }
}

impl IntoR for Box<[bool]> {
    type Error = Infallible;

    open spec fn into_r_ok(self) -> bool {
        true
    }

    open spec fn converts_to(self, s: Sexp) -> bool {
        is_lgl_vector(s, self@.map_values(|b: bool| lgl_code(b)))
    }

    /// Converted as the vector of its elements.
    fn try_into_sexp(self) -> (r: Result<Sexp, Infallible>) {
        self.into_vec().try_into_sexp()
    }
}

impl IntoR for Box<[String]> {
    type Error = Infallible;

    open spec fn into_r_ok(self) -> bool {
        true
    }

    open spec fn converts_to(self, s: Sexp) -> bool {
        is_str_vector(s, all_present(strings_view(self@)))
    }

    /// Converted as the vector of its elements.
    fn try_into_sexp(self) -> (r: Result<Sexp, Infallible>) {
        self.into_vec().try_into_sexp()
    }
}

impl IntoR for Vec<Box<[String]>> {
    type Error = Infallible;

    open spec fn into_r_ok(self) -> bool {
        true
    }

    open spec fn converts_to(self, s: Sexp) -> bool {
        &&& s.stype() == SEXPTYPE::VECSXP
        &&& s.bare()
        &&& s.elems().len() == self@.len()
        &&& forall|i: int|
            0 <= i < self@.len() ==> is_str_vector(
                s.elems()[i],
                all_present(strings_view(#[trigger] self@[i]@)),
            )
    }

    /// A list of character vectors.
    fn try_into_sexp(self) -> (r: Result<Sexp, Infallible>) {
        Ok(vec_of_into_r_to_list(self))
    }
}

impl IntoR for Vec<Box<[i32]>> {
    type Error = Infallible;

    open spec fn into_r_ok(self) -> bool {
        true
    }

    open spec fn converts_to(self, s: Sexp) -> bool {
        &&& s.stype() == SEXPTYPE::VECSXP
        &&& s.bare()
        &&& s.elems().len() == self@.len()
        &&& forall|i: int| 0 <= i < self@.len() ==> is_int_vector(s.elems()[i], #[trigger] self@[i]@)
    }

    /// A list of integer vectors.
    fn try_into_sexp(self) -> (r: Result<Sexp, Infallible>) {
        Ok(vec_of_into_r_to_list(self))
    }
}

impl IntoR for Vec<Option<Vec<i32>>> {
    type Error = Infallible;

    open spec fn into_r_ok(self) -> bool {
        true
    }

    open spec fn converts_to(self, s: Sexp) -> bool {
        &&& s.stype() == SEXPTYPE::VECSXP
        &&& s.bare()
        &&& s.elems().len() == self@.len()
        &&& forall|i: int|
            0 <= i < self@.len() ==> match #[trigger] self@[i] {
                Some(v) => is_int_vector(s.elems()[i], v@),
                None => is_null(s.elems()[i]),
            }
    }

    /// A list of integer vectors, `NULL` for each `None`.
    fn try_into_sexp(self) -> (r: Result<Sexp, Infallible>) {
        Ok(vec_option_of_into_r_to_list(self))
    }
}

impl IntoR for Vec<Option<Vec<String>>> {
    type Error = Infallible;

    open spec fn into_r_ok(self) -> bool {
        true
    }

    open spec fn converts_to(self, s: Sexp) -> bool {
        &&& s.stype() == SEXPTYPE::VECSXP
        &&& s.bare()
        &&& s.elems().len() == self@.len()
        &&& forall|i: int|
            0 <= i < self@.len() ==> match #[trigger] self@[i] {
                Some(v) => is_str_vector(s.elems()[i], all_present(strings_view(v@))),
                None => is_null(s.elems()[i]),
            }
    }

    /// A list of character vectors, `NULL` for each `None`.
    fn try_into_sexp(self) -> (r: Result<Sexp, Infallible>) {
        Ok(vec_option_of_into_r_to_list(self))
    }
}

impl<const N: usize> IntoR for [i32; N] {
    type Error = Infallible;

    open spec fn into_r_ok(self) -> bool {
        true
    }

    open spec fn converts_to(self, s: Sexp) -> bool {
        is_int_vector(s, self@)
    }

    /// An integer vector of the array's elements.
    fn try_into_sexp(self) -> (r: Result<Sexp, Infallible>) {
        self.as_slice().try_into_sexp()
    }
}

impl<const N: usize> IntoR for [u8; N] {
    type Error = Infallible;

    open spec fn into_r_ok(self) -> bool {
        true
    }

    open spec fn converts_to(self, s: Sexp) -> bool {
        is_raw_vector(s, self@)
    }

    /// A raw vector of the array's bytes.
    fn try_into_sexp(self) -> (r: Result<Sexp, Infallible>) {
        self.as_slice().try_into_sexp()
    }
}

impl<const N: usize> IntoR for Vec<[i32; N]> {
    type Error = Infallible;

    open spec fn into_r_ok(self) -> bool {
        true
    }

    open spec fn converts_to(self, s: Sexp) -> bool {
        &&& s.stype() == SEXPTYPE::VECSXP
        &&& s.bare()
        &&& s.elems().len() == self@.len()
        &&& forall|i: int| 0 <= i < self@.len() ==> is_int_vector(s.elems()[i], #[trigger] self@[i]@)
    }

    /// A list of integer vectors, one per array.
    fn try_into_sexp(self) -> (r: Result<Sexp, Infallible>) {
        Ok(vec_of_into_r_to_list(self))
    }
}

/// The elements of `d` in order, as a vector.
fn vec_deque_into_vec<T>(d: std::collections::VecDeque<T>) -> (r: Vec<T>)
    ensures
        r@ == d@,
{
    let ghost orig = d@;
    let mut d = d;
    let mut out: Vec<T> = Vec::new();
    while d.len() > 0
        invariant
            out@ + d@ == orig,
        decreases d@.len(),
    {
        let ghost before = d@;
        match d.pop_front() {
            Some(x) => {
                out.push(x);
                proof {
                    assert(out@ + d@ =~= orig);
                }
            },
            None => {},
        }
    }
    proof {
        assert(out@ =~= orig);
    }
    out
}

impl IntoR for std::collections::VecDeque<i32> {
    type Error = Infallible;

    open spec fn into_r_ok(self) -> bool {
        true
    }

    open spec fn converts_to(self, s: Sexp) -> bool {
        is_int_vector(s, self@)
    }

    /// An integer vector, front to back.
    fn try_into_sexp(self) -> (r: Result<Sexp, Infallible>) {
        vec_deque_into_vec(self).try_into_sexp()
    }
}

impl IntoR for std::collections::VecDeque<u8> {
    type Error = Infallible;

    open spec fn into_r_ok(self) -> bool {
        true
    }

    open spec fn converts_to(self, s: Sexp) -> bool {
        is_raw_vector(s, self@)
    }

    /// A raw vector, front to back.
    fn try_into_sexp(self) -> (r: Result<Sexp, Infallible>) {
        vec_deque_into_vec(self).try_into_sexp()
    }
}

impl<'a> IntoR for &'a [i8] {
    type Error = Infallible;

    open spec fn into_r_ok(self) -> bool {
        true
    }

    open spec fn converts_to(self, s: Sexp) -> bool {
        is_int_vector(s, self@.map_values(|x: i8| x as i32))
    }

    /// Widened to an integer vector.
    fn try_into_sexp(self) -> (r: Result<Sexp, Infallible>) {
        Ok(Sexp::integer(widen_i8(self)))
    }
}

/// The integer code of an optional `i8` (`None` is `NA`).
pub open spec fn opt_i8_code(x: Option<i8>) -> i32 {
    match x {
        Some(v) => v as i32,
        None => NA_INTEGER,
    }
}

impl IntoR for Vec<Option<i8>> {
    type Error = Infallible;

    open spec fn into_r_ok(self) -> bool {
        true
    }

    open spec fn converts_to(self, s: Sexp) -> bool {
        is_int_vector(s, self@.map_values(|x: Option<i8>| opt_i8_code(x)))
    }

    /// Widened to an integer vector; `None` is `NA_integer_`.
    fn try_into_sexp(self) -> (r: Result<Sexp, Infallible>) {
        let mut codes: Vec<i32> = Vec::new();
        let mut i: usize = 0;
        while i < self.len()
            invariant
                i <= self@.len(),
                codes@ == self@.subrange(0, i as int).map_values(|x: Option<i8>| opt_i8_code(x)),
            decreases self@.len() - i,
        {
            let c: i32 = match self[i] {
                Some(x) => x as i32,
                None => NA_INTEGER,
            };
            codes.push(c);
            proof {
                assert(self@.subrange(0, i + 1).map_values(|x: Option<i8>| opt_i8_code(x))
                    =~= self@.subrange(0, i as int).map_values(
                    |x: Option<i8>| opt_i8_code(x),
                ).push(opt_i8_code(self@[i as int])));
            }
            i = i + 1;
        }
        proof {
            assert(self@.subrange(0, self@.len() as int) =~= self@);
        }
        Ok(Sexp::integer(codes))
    }
}

impl<'a> IntoR for &'a [i16] {
    type Error = Infallible;

    open spec fn into_r_ok(self) -> bool {
        true
    }

    open spec fn converts_to(self, s: Sexp) -> bool {
        is_int_vector(s, self@.map_values(|x: i16| x as i32))
    }

    /// Widened to an integer vector.
    fn try_into_sexp(self) -> (r: Result<Sexp, Infallible>) {
        Ok(Sexp::integer(widen_i16(self)))
    }
}

/// The integer code of an optional `i16` (`None` is `NA`).
pub open spec fn opt_i16_code(x: Option<i16>) -> i32 {
    match x {
        Some(v) => v as i32,
        None => NA_INTEGER,
    }
}

impl IntoR for Vec<Option<i16>> {
    type Error = Infallible;

    open spec fn into_r_ok(self) -> bool {
        true
    }

    open spec fn converts_to(self, s: Sexp) -> bool {
        is_int_vector(s, self@.map_values(|x: Option<i16>| opt_i16_code(x)))
    }

    /// Widened to an integer vector; `None` is `NA_integer_`.
    fn try_into_sexp(self) -> (r: Result<Sexp, Infallible>) {
        let mut codes: Vec<i32> = Vec::new();
        let mut i: usize = 0;
        while i < self.len()
            invariant
                i <= self@.len(),
                codes@ == self@.subrange(0, i as int).map_values(|x: Option<i16>| opt_i16_code(x)),
            decreases self@.len() - i,
        {
            let c: i32 = match self[i] {
                Some(x) => x as i32,
                None => NA_INTEGER,
            };
            codes.push(c);
            proof {
                assert(self@.subrange(0, i + 1).map_values(|x: Option<i16>| opt_i16_code(x))
                    =~= self@.subrange(0, i as int).map_values(
                    |x: Option<i16>| opt_i16_code(x),
                ).push(opt_i16_code(self@[i as int])));
            }
            i = i + 1;
        }
        proof {
            assert(self@.subrange(0, self@.len() as int) =~= self@);
        }
        Ok(Sexp::integer(codes))
    }
}

impl<'a> IntoR for &'a [u16] {
    type Error = Infallible;

    open spec fn into_r_ok(self) -> bool {
        true
    }

    open spec fn converts_to(self, s: Sexp) -> bool {
        is_int_vector(s, self@.map_values(|x: u16| x as i32))
    }

    /// Widened to an integer vector.
    fn try_into_sexp(self) -> (r: Result<Sexp, Infallible>) {
        Ok(Sexp::integer(widen_u16(self)))
    }
}

/// The integer code of an optional `u16` (`None` is `NA`).
pub open spec fn opt_u16_code(x: Option<u16>) -> i32 {
    match x {
        Some(v) => v as i32,
        None => NA_INTEGER,
    }
}

impl IntoR for Vec<Option<u16>> {
    type Error = Infallible;

    open spec fn into_r_ok(self) -> bool {
        true
    }

    open spec fn converts_to(self, s: Sexp) -> bool {
        is_int_vector(s, self@.map_values(|x: Option<u16>| opt_u16_code(x)))
    }

    /// Widened to an integer vector; `None` is `NA_integer_`.
    fn try_into_sexp(self) -> (r: Result<Sexp, Infallible>) {
        let mut codes: Vec<i32> = Vec::new();
        let mut i: usize = 0;
        while i < self.len()
            invariant
                i <= self@.len(),
                codes@ == self@.subrange(0, i as int).map_values(|x: Option<u16>| opt_u16_code(x)),
            decreases self@.len() - i,
        {
            let c: i32 = match self[i] {
                Some(x) => x as i32,
                None => NA_INTEGER,
            };
            codes.push(c);
            proof {
                assert(self@.subrange(0, i + 1).map_values(|x: Option<u16>| opt_u16_code(x))
                    =~= self@.subrange(0, i as int).map_values(
                    |x: Option<u16>| opt_u16_code(x),
                ).push(opt_u16_code(self@[i as int])));
            }
            i = i + 1;
        }
        proof {
            assert(self@.subrange(0, self@.len() as int) =~= self@);
        }
        Ok(Sexp::integer(codes))
    }
}

/// The logical code of an optional `RLogical` (`None` is `NA`).
pub open spec fn opt_rlogical_code(x: Option<RLogical>) -> i32 {
    match x {
        Some(v) => v.0,
        None => NA_LOGICAL,
    }
}

impl IntoR for Vec<Option<RLogical>> {
    type Error = Infallible;

    open spec fn into_r_ok(self) -> bool {
        true
    }

    open spec fn converts_to(self, s: Sexp) -> bool {
        is_lgl_vector(s, self@.map_values(|x: Option<RLogical>| opt_rlogical_code(x)))
    }

    /// A logical vector with the same codes; `None` is `NA`.
    fn try_into_sexp(self) -> (r: Result<Sexp, Infallible>) {
        let mut codes: Vec<i32> = Vec::new();
        let mut i: usize = 0;
        while i < self.len()
            invariant
                i <= self@.len(),
                codes@ == self@.subrange(0, i as int).map_values(
                    |x: Option<RLogical>| opt_rlogical_code(x),
                ),
            decreases self@.len() - i,
        {
            let c: i32 = match self[i] {
                Some(x) => x.to_i32(),
                None => NA_LOGICAL,
            };
            codes.push(c);
            proof {
                assert(self@.subrange(0, i + 1).map_values(|x: Option<RLogical>| opt_rlogical_code(x))
                    =~= self@.subrange(0, i as int).map_values(
                    |x: Option<RLogical>| opt_rlogical_code(x),
                ).push(opt_rlogical_code(self@[i as int])));
            }
            i = i + 1;
        }
        proof {
            assert(self@.subrange(0, self@.len() as int) =~= self@);
        }
        Ok(Sexp::logical(codes))
    }
}

} // verus!
