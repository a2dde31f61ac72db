//! What reading back a converted value gives: the outbound conversions of
//! [`crate::into_r`] and the inbound ones of [`crate::from_r`] agree.
use crate::from_r::{
    spec_i32_from, spec_opt_strings_from, spec_strings_from, spec_u8_from, strings_view,
    TryFromSexp,
};
use crate::into_r::IntoR;
use std::collections::VecDeque;
use crate::sexp::{opt_strs_view, Sexp, SEXPTYPE, NA_INTEGER};
use crate::into_r::{all_present, is_str_vector};
use vstd::prelude::*;

verus! {

/// An `i32` other than `NA_integer_` reads back as itself.
pub proof fn lemma_i32_round_trip(x: i32, s: Sexp)
    requires
        x.converts_to(s),
        x != NA_INTEGER,
    ensures
        spec_i32_from(s) == Ok::<i32, crate::from_r::SexpErrorView>(x),
        <i32 as TryFromSexp>::accepts(s),
{
    s.lemma_type_consistent();
}

/// A byte reads back as itself.
pub proof fn lemma_u8_round_trip(x: u8, s: Sexp)
    requires
        x.converts_to(s),
    ensures
        spec_u8_from(s) == Ok::<u8, crate::from_r::SexpErrorView>(x),
        <u8 as TryFromSexp>::accepts(s),
{
    s.lemma_type_consistent();
}

/// A vector of strings reads back as the same strings.
pub proof fn lemma_strings_round_trip(v: Vec<String>, s: Sexp)
    requires
        v.converts_to(s),
    ensures
        <Vec<String> as TryFromSexp>::accepts(s),
        spec_strings_from(s) == strings_view(v@),
{
    assert(spec_strings_from(s) =~= strings_view(v@));
}

/// A vector of optional strings reads back as the same optional strings,
/// `None` through `NA_character_`.
pub proof fn lemma_opt_strings_round_trip(v: Vec<Option<String>>, s: Sexp)
    requires
        v.converts_to(s),
    ensures
        <Vec<Option<String>> as TryFromSexp>::accepts(s),
        spec_opt_strings_from(s) == opt_strs_view(v@),
{
}

/// An `i8` is widened to an integer that reads back as the same number
/// (it can never be `NA_integer_`).
pub proof fn lemma_i8_widened_round_trip(x: i8, s: Sexp)
    requires
        x.converts_to(s),
    ensures
        spec_i32_from(s) == Ok::<i32, crate::from_r::SexpErrorView>(x as i32),
{
    s.lemma_type_consistent();
}

/// An `i16` is widened to an integer that reads back as the same number.
pub proof fn lemma_i16_widened_round_trip(x: i16, s: Sexp)
    requires
        x.converts_to(s),
    ensures
        spec_i32_from(s) == Ok::<i32, crate::from_r::SexpErrorView>(x as i32),
{
    s.lemma_type_consistent();
}

/// A `u16` is widened to an integer that reads back as the same number.
pub proof fn lemma_u16_widened_round_trip(x: u16, s: Sexp)
    requires
        x.converts_to(s),
    ensures
        spec_i32_from(s) == Ok::<i32, crate::from_r::SexpErrorView>(x as i32),
{
    s.lemma_type_consistent();
}

/// `NA_integer_` does not read back as an `i32`: it is refused as a missing
/// value.
pub proof fn lemma_na_integer_refused(s: Sexp)
    requires
        NA_INTEGER.converts_to(s),
    ensures
        spec_i32_from(s) is Err,
{
    s.lemma_type_consistent();
}

/// A deque of integers reads back as the same integers, in order (`NA`
/// included: the deque conversion keeps every code).
pub proof fn lemma_int_deque_round_trip(d: VecDeque<i32>, s: Sexp, back: VecDeque<i32>)
    requires
        d.converts_to(s),
        <VecDeque<i32> as TryFromSexp>::decodes(s, back),
    ensures
        <VecDeque<i32> as TryFromSexp>::accepts(s),
        back@ == d@,
{
}

/// A deque of bytes reads back as the same bytes.
pub proof fn lemma_byte_deque_round_trip(d: VecDeque<u8>, s: Sexp, back: VecDeque<u8>)
    requires
        d.converts_to(s),
        <VecDeque<u8> as TryFromSexp>::decodes(s, back),
    ensures
        <VecDeque<u8> as TryFromSexp>::accepts(s),
        back@ == d@,
{
}

/// Optional strings vectors read back as themselves, `None` through `NULL`.
pub proof fn lemma_optional_strings_round_trip(v: Option<Vec<String>>, s: Sexp, back: Option<Vec<String>>)
    requires
        v.converts_to(s),
        <Option<Vec<String>> as TryFromSexp>::decodes(s, back),
    ensures
        <Option<Vec<String>> as TryFromSexp>::accepts(s),
        back is Some <==> v is Some,
        v matches Some(x) ==> back matches Some(y) && strings_view(y@) == strings_view(x@),
{
    if v is Some {
        let x = v->0;
        let y = back->0;
        assert(strings_view(y@) =~= strings_view(x@));
    }
}

/// A list of string vectors reads back as the same strings, vector by
/// vector.
pub proof fn lemma_nested_strings_round_trip(v: Vec<Vec<String>>, s: Sexp, back: Vec<Vec<String>>)
    requires
        v.converts_to(s),
        <Vec<Vec<String>> as TryFromSexp>::decodes(s, back),
    ensures
        <Vec<Vec<String>> as TryFromSexp>::accepts(s),
        back@.len() == v@.len(),
        forall|i: int| 0 <= i < v@.len() ==> strings_view(#[trigger] back@[i]@) == strings_view(v@[i]@),
{
    assert forall|i: int| 0 <= i < s.elems().len() implies (#[trigger] s.elems()[i]).stype()
        == SEXPTYPE::STRSXP by {
        assert(is_str_vector(s.elems()[i], all_present(strings_view(v@[i]@))));
    }
    assert forall|i: int| 0 <= i < v@.len() implies strings_view(#[trigger] back@[i]@) == strings_view(
        v@[i]@,
    ) by {
        assert(strings_view(back@[i]@) =~= strings_view(v@[i]@));
    }
}

} // verus!
