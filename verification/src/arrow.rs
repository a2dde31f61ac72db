//! Conversions between R logical vectors and Arrow boolean arrays.
//!
//! R's `NA` is an Arrow null; any other code is `true` unless it is `0`.
//! Both directions copy: Arrow packs booleans into bits, R keeps one
//! integer per element.
use crate::condition::logical_elt;
use crate::from_r::{SexpError, SexpErrorView, SexpTypeError, TryFromSexp};
use crate::into_r::{is_lgl_vector, IntoR};
use crate::sexp::{Sexp, SEXPTYPE, NA_LOGICAL};
use std::convert::Infallible;
use vstd::prelude::*;

verus! {

/// An Arrow array of optional booleans.
#[verifier::external_type_specification]
#[verifier::external_body]
pub struct ExBooleanArray(arrow_array::BooleanArray);

/// An Arrow builder of boolean arrays.
#[verifier::external_type_specification]
#[verifier::external_body]
pub struct ExBooleanBuilder(arrow_array::builder::BooleanBuilder);

/// The slots of a boolean array, in order (`None` is null).
pub uninterp spec fn boolean_array_slots(a: arrow_array::BooleanArray) -> Seq<Option<bool>>;

/// The slots appended to a boolean builder since it was made or last
/// finished, in order (`None` is null).
pub uninterp spec fn boolean_builder_slots(b: arrow_array::builder::BooleanBuilder) -> Seq<
    Option<bool>,
>;

/// `BooleanBuilder::with_capacity`: an empty builder.
#[verifier::external_body]
fn boolean_builder_with_capacity(capacity: usize) -> (r: arrow_array::builder::BooleanBuilder)
    ensures
        boolean_builder_slots(r) == Seq::<Option<bool>>::empty(),
{
    arrow_array::builder::BooleanBuilder::with_capacity(capacity)
}

/// `BooleanBuilder::append_null`: appends a null slot.
#[verifier::external_body]
fn boolean_builder_append_null(b: &mut arrow_array::builder::BooleanBuilder)
    ensures
        boolean_builder_slots(*final(b)) == boolean_builder_slots(*old(b)).push(None),
{
    b.append_null()
}

/// `BooleanBuilder::append_value`: appends a non-null slot.
#[verifier::external_body]
fn boolean_builder_append_value(b: &mut arrow_array::builder::BooleanBuilder, v: bool)
    ensures
        boolean_builder_slots(*final(b)) == boolean_builder_slots(*old(b)).push(Some(v)),
{
    b.append_value(v)
}

/// `BooleanBuilder::finish`: the array of the appended slots; the builder
/// starts over empty.
#[verifier::external_body]
fn boolean_builder_finish(b: &mut arrow_array::builder::BooleanBuilder) -> (r:
    arrow_array::BooleanArray)
    ensures
        boolean_array_slots(r) == boolean_builder_slots(*old(b)),
        boolean_builder_slots(*final(b)) == Seq::<Option<bool>>::empty(),
{
    b.finish()
}

/// `BooleanArray::len`: the number of slots.
#[verifier::external_body]
fn boolean_array_len(a: &arrow_array::BooleanArray) -> (r: usize)
    ensures
        r == boolean_array_slots(*a).len(),
{
    a.len()
}

/// `Array::is_null` on a boolean array: whether slot `i` is null.
#[verifier::external_body]
fn boolean_array_is_null(a: &arrow_array::BooleanArray, i: usize) -> (r: bool)
    requires
        i < boolean_array_slots(*a).len(),
    ensures
        r == (boolean_array_slots(*a)[i as int] is None),
{
    arrow_array::Array::is_null(a, i)
}

/// `BooleanArray::value`: the value of slot `i` (what a null slot holds is
/// left open).
#[verifier::external_body]
fn boolean_array_value(a: &arrow_array::BooleanArray, i: usize) -> (r: bool)
    requires
        i < boolean_array_slots(*a).len(),
    ensures
        boolean_array_slots(*a)[i as int] matches Some(v) ==> r == v,
{
    a.value(i)
}

/// The slots of a boolean array read from the logical codes `codes`.
pub open spec fn slots_of_codes(codes: Seq<i32>) -> Seq<Option<bool>> {
    codes.map_values(|x: i32| logical_elt(x))
}

/// The logical code R stores for a slot.
pub open spec fn code_of_slot(o: Option<bool>) -> i32 {
    match o {
        None => NA_LOGICAL,
        Some(true) => 1i32,
        Some(false) => 0i32,
    }
}

/// The logical codes of the slots `slots`.
pub open spec fn codes_of_slots(slots: Seq<Option<bool>>) -> Seq<i32> {
    slots.map_values(|o: Option<bool>| code_of_slot(o))
}

/// What converting an R object to a boolean array reports when it fails.
pub open spec fn boolean_array_error(s: Sexp) -> Option<SexpErrorView> {
    if s.stype() != SEXPTYPE::LGLSXP {
        Some(SexpErrorView::Type(SexpTypeError { expected: SEXPTYPE::LGLSXP, actual: s.stype() }))
    } else {
        None
    }
}

impl TryFromSexp for arrow_array::BooleanArray {
    type Error = SexpError;

    open spec fn accepts(sexp: Sexp) -> bool {
        sexp.stype() == SEXPTYPE::LGLSXP
    }

    open spec fn decodes(sexp: Sexp, value: arrow_array::BooleanArray) -> bool {
        boolean_array_slots(value) == slots_of_codes(sexp.ints())
    }

    /// A logical vector, `NA` as null; other types are refused.
    fn try_from_sexp(sexp: &Sexp) -> (r: Result<arrow_array::BooleanArray, SexpError>)
        ensures
            r matches Err(e) ==> boolean_array_error(*sexp) == Some(e@),
    {
        let actual = sexp.type_of();
        if actual != SEXPTYPE::LGLSXP {
            return Err(SexpError::Type(SexpTypeError { expected: SEXPTYPE::LGLSXP, actual }));
        }
        let codes = sexp.int_slice();
        let mut builder = boolean_builder_with_capacity(codes.len());
        let mut i: usize = 0;
        while i < codes.len()
            invariant
                i <= codes@.len(),
                codes@ == sexp.ints(),
                boolean_builder_slots(builder) == slots_of_codes(codes@.subrange(0, i as int)),
            decreases codes@.len() - i,
        {
            let x = codes[i];
            if x == NA_LOGICAL {
                boolean_builder_append_null(&mut builder);
            } else {
                boolean_builder_append_value(&mut builder, x != 0);
            }
            proof {
                assert(slots_of_codes(codes@.subrange(0, i + 1)) =~= slots_of_codes(
                    codes@.subrange(0, i as int),
                ).push(logical_elt(x)));
            }
            i = i + 1;
        }
        proof {
            assert(codes@.subrange(0, codes@.len() as int) =~= codes@);
        }
        Ok(boolean_builder_finish(&mut builder))
    }
}

impl IntoR for arrow_array::BooleanArray {
    type Error = Infallible;

    open spec fn into_r_ok(self) -> bool {
        true
    }

    open spec fn converts_to(self, s: Sexp) -> bool {
        is_lgl_vector(s, codes_of_slots(boolean_array_slots(self)))
    }

    /// A fresh logical vector: null is `NA`, then `TRUE` or `FALSE`.
    fn try_into_sexp(self) -> (r: Result<Sexp, Infallible>) {
        let n = boolean_array_len(&self);
        let mut codes: Vec<i32> = Vec::new();
        let mut i: usize = 0;
        while i < n
            invariant
                n == boolean_array_slots(self).len(),
                i <= n,
                codes@ == codes_of_slots(boolean_array_slots(self).subrange(0, i as int)),
            decreases n - i,
        {
            let code: i32 = if boolean_array_is_null(&self, i) {
                NA_LOGICAL
            } else if boolean_array_value(&self, i) {
                1
            } else {
                0
            };
            codes.push(code);
            proof {
                assert(codes_of_slots(boolean_array_slots(self).subrange(0, i + 1)) =~= codes_of_slots(
                    boolean_array_slots(self).subrange(0, i as int),
                ).push(code_of_slot(boolean_array_slots(self)[i as int])));
            }
            i = i + 1;
        }
        proof {
            assert(boolean_array_slots(self).subrange(0, n as int) =~= boolean_array_slots(self));
        }
        Ok(Sexp::logical(codes))
    }
}

/// A boolean array converted to R and read back holds the same slots.
pub proof fn lemma_boolean_array_round_trip(a: arrow_array::BooleanArray, s: Sexp, b: arrow_array::BooleanArray)
    requires
        a.converts_to(s),
        <arrow_array::BooleanArray as TryFromSexp>::decodes(s, b),
    ensures
        <arrow_array::BooleanArray as TryFromSexp>::accepts(s),
        boolean_array_slots(b) == boolean_array_slots(a),
{
    let t = boolean_array_slots(a);
    assert forall|i: int| 0 <= i < t.len() implies #[trigger] logical_elt(code_of_slot(t[i])) == t[i] by {
    }
    assert(slots_of_codes(codes_of_slots(t)) =~= t);
}

/// A logical vector read as a boolean array and converted back holds the
/// same logical values, with every true code written as `1`.
pub proof fn lemma_logical_round_trip(s: Sexp, a: arrow_array::BooleanArray, t: Sexp)
    requires
        s.stype() == SEXPTYPE::LGLSXP,
        <arrow_array::BooleanArray as TryFromSexp>::decodes(s, a),
        a.converts_to(t),
    ensures
        t.ints() == s.ints().map_values(|x: i32| code_of_slot(logical_elt(x))),
        slots_of_codes(t.ints()) == slots_of_codes(s.ints()),
{
    assert(t.ints() =~= s.ints().map_values(|x: i32| code_of_slot(logical_elt(x))));
    assert forall|i: int| 0 <= i < s.ints().len() implies #[trigger] logical_elt(
        code_of_slot(logical_elt(s.ints()[i])),
    ) == logical_elt(s.ints()[i]) by {}
    assert(slots_of_codes(t.ints()) =~= slots_of_codes(s.ints()));
}

} // verus!
