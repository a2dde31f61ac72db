//! The value side of R external pointers: type identifiers of stored Rust
//! values, the diagnostics for handles that hold another type (or a value a
//! consuming method took), owned slices, and finalizer helpers.
use crate::from_r::{SexpError, SexpErrorView};
use crate::sexp::{Sexp, SEXPTYPE};
use crate::text::{push_str, string_of};
use vstd::prelude::*;

verus! {

/// Types that can be stored in an external pointer, with the names R shows
/// for them.
pub trait TypedExternal {
    /// The type name (for display and diagnostics; also the R tag).
    const TYPE_NAME: &'static str;

    /// Namespaced type identifier (`<crate>@<version>::<module>::<type>`),
    /// stored in the pointer's protected list for diagnostics.
    const TYPE_ID: &'static str;
}

/// Types that convert to R as an external pointer wrapping the value.
pub trait IntoExternalPtr: TypedExternal {}

impl TypedExternal for () {
    const TYPE_NAME: &'static str = "()";
    const TYPE_ID: &'static str = "()";
}

/// Position of the type identifier symbol in a pointer's protected list.
pub const PROT_TYPE_ID_INDEX: usize = 0;

/// Position of user-protected objects in a pointer's protected list.
pub const PROT_USER_INDEX: usize = 1;

/// Length of a pointer's protected list.
pub const PROT_VEC_LEN: usize = 2;

/// The type identifier stored in a pointer's protected list: its first
/// element, when the list is long enough and that element is a symbol.
pub open spec fn stored_type_of(prot: Sexp) -> Option<Seq<char>> {
    if prot.stype() == SEXPTYPE::VECSXP && prot.elems().len() >= PROT_VEC_LEN
        && prot.elems()[PROT_TYPE_ID_INDEX as int].stype() == SEXPTYPE::SYMSXP {
        Some(prot.elems()[PROT_TYPE_ID_INDEX as int].sym())
    } else {
        None
    }
}

/// The type identifier stored in the protected list `prot`, if any.
pub fn stored_type_name(prot: &Sexp) -> (r: Option<&String>)
    ensures
        r matches Some(t) ==> stored_type_of(*prot) == Some(t@),
        r is None ==> stored_type_of(*prot) is None,
{
    if prot.type_of() != SEXPTYPE::VECSXP {
        return None;
    }
    let elems = prot.elem_slice();
    if elems.len() < PROT_VEC_LEN {
        return None;
    }
    elems[PROT_TYPE_ID_INDEX].symbol_name()
}

/// Why a handle does not hold a value of the expected type.
#[derive(Debug, Clone)]
pub enum TypeMismatchError {
    /// The pointer's address is null.
    NullPointer,
    /// The protected list holds no valid type identifier.
    InvalidTypeId,
    /// The stored value has another type.
    Mismatch {
        /// The type name the caller expected.
        expected: String,
        /// The type identifier found in the pointer's metadata.
        found: String,
    },
}

/// What a [`TypeMismatchError`] says.
pub open spec fn type_mismatch_text(e: TypeMismatchError) -> Seq<char> {
    match e {
        TypeMismatchError::NullPointer => "external pointer is null"@,
        TypeMismatchError::InvalidTypeId => "external pointer has no valid type id"@,
        TypeMismatchError::Mismatch { expected, found } => "type mismatch: expected `"@
            + expected@ + "`, found `"@ + found@ + "`"@,
    }
}

impl TypeMismatchError {
    /// The error's message.
    pub fn to_string(&self) -> (r: String)
        ensures
            r@ == type_mismatch_text(*self),
    {
        match self {
            TypeMismatchError::NullPointer => string_of("external pointer is null"),
            TypeMismatchError::InvalidTypeId => string_of("external pointer has no valid type id"),
            TypeMismatchError::Mismatch { expected, found } => {
                let mut m = string_of("type mismatch: expected `");
                push_str(&mut m, expected.as_str());
                push_str(&mut m, "`, found `");
                push_str(&mut m, found.as_str());
                push_str(&mut m, "`");
                m
            },
        }
    }
}

/// The outcome of wrapping a handle as a pointer to a `T`: a null address
/// fails, a type-erased wrapper (`T = ()`) or a value of type `T` succeeds,
/// anything else is a mismatch naming the stored identifier (`"<unknown>"`
/// when there is none).
pub open spec fn wrap_outcome(
    address_is_null: bool,
    type_erased: bool,
    holds_expected: bool,
    prot: Sexp,
    expected: Seq<char>,
) -> Result<(), (Seq<char>, Seq<char>)> {
    if address_is_null {
        Err((Seq::empty(), Seq::empty()))
    } else if type_erased || holds_expected {
        Ok(())
    } else {
        Err(
            (
                expected,
                match stored_type_of(prot) {
                    Some(t) => t,
                    None => "<unknown>"@,
                },
            ),
        )
    }
}

/// Decide whether a handle can be used as a pointer to a value of the type
/// named `expected`, from what the handle shows: whether its address is
/// null, whether the wrapper is type-erased, whether the stored value has the
/// expected type, and its protected list (which names the stored type).
pub fn check_stored_type(
    address_is_null: bool,
    type_erased: bool,
    holds_expected: bool,
    prot: &Sexp,
    expected: &str,
) -> (r: Result<(), TypeMismatchError>)
    ensures
        r is Ok <==> wrap_outcome(address_is_null, type_erased, holds_expected, *prot, expected@) is Ok,
        address_is_null ==> r matches Err(TypeMismatchError::NullPointer),
        r matches Err(TypeMismatchError::Mismatch { expected: e, found: f }) ==> wrap_outcome(
            address_is_null,
            type_erased,
            holds_expected,
            *prot,
            expected@,
        ) == Err::<(), (Seq<char>, Seq<char>)>((e@, f@)),
        !address_is_null ==> !(r matches Err(TypeMismatchError::NullPointer)),
        !(r matches Err(TypeMismatchError::InvalidTypeId)),
{
    if address_is_null {
        return Err(TypeMismatchError::NullPointer);
    }
    if type_erased || holds_expected {
        return Ok(());
    }
    let found = match stored_type_name(prot) {
        Some(t) => t.clone(),
        None => string_of("<unknown>"),
    };
    Err(TypeMismatchError::Mismatch { expected: string_of(expected), found })
}

/// The conversion error for a pointer argument whose handle holds another
/// type.
pub fn type_mismatch_to_sexp_error(e: TypeMismatchError) -> (r: SexpError)
    ensures
        r@ == SexpErrorView::InvalidValue(
            match e {
                TypeMismatchError::NullPointer => "external pointer is null"@,
                TypeMismatchError::InvalidTypeId => "external pointer has no valid type id"@,
                TypeMismatchError::Mismatch { .. } => type_mismatch_text(e),
            },
        ),
{
    SexpError::InvalidValue(e.to_string())
}

/// The conversion error for a pointer argument that is neither an external
/// pointer nor a class object wrapping one.
pub fn not_a_handle_error(actual: SEXPTYPE) -> (r: SexpError)
    ensures
        r@ == SexpErrorView::InvalidValue(
            "expected an external pointer or a miniextendr class object wrapping one, got "@
                + actual.spec_name(),
        ),
{
    let mut m = string_of(
        "expected an external pointer or a miniextendr class object wrapping one, got ",
    );
    push_str(&mut m, actual.name());
    SexpError::InvalidValue(m)
}

/// The marker left in a handle whose value a `self`-by-value method took;
/// later calls on the handle report it as consumed.
#[derive(Debug)]
pub struct ConsumedSlot;

/// Bound for the receiver of a fallible consuming method: the method runs on
/// a clone, so a failed step leaves the handle as it was.
pub trait ConsumingFallible: Clone {}

impl<T: Clone> ConsumingFallible for T {}

/// Clone the stored value for a fallible consuming step.
pub fn clone_for_consuming<T: ConsumingFallible>(value: &T) -> (r: T)
    ensures
        call_ensures(T::clone, (value,), r),
{
    value.clone()
}

/// What a method call on a handle that does not hold a `T` fails with: the
/// handle was consumed by an earlier `self`-by-value step, or it holds
/// another type (named by its stored identifier, `"<unknown>"` without one).
pub open spec fn downcast_failure_text(
    tname: Seq<char>,
    consumed: bool,
    stored: Option<Seq<char>>,
) -> Seq<char> {
    if consumed {
        "this `"@ + tname
            + "` object was consumed by a `self`-by-value method that did not return a new value (it returned a plain result or panicked) and can no longer be used"@
    } else {
        "expected ExternalPtr<"@ + tname + ">, found `"@ + match stored {
            Some(t) => t,
            None => "<unknown>"@,
        } + "`"@
    }
}

/// The message a method call on a handle that does not hold a `T` fails
/// with, from whether the handle was consumed and the type identifier it
/// stores. The call does not go on: the caller panics with this message.
pub fn handle_downcast_failed<T: TypedExternal>(consumed: bool, stored: Option<&str>) -> (r: String)
    ensures
        r@ == downcast_failure_text(
            T::TYPE_NAME@,
            consumed,
            match stored {
                Some(t) => Some(t@),
                None => None,
            },
        ),
{
    if consumed {
        let mut m = string_of("this `");
        push_str(&mut m, T::TYPE_NAME);
        push_str(
            &mut m,
            "` object was consumed by a `self`-by-value method that did not return a new value (it returned a plain result or panicked) and can no longer be used",
        );
        return m;
    }
    let mut m = string_of("expected ExternalPtr<");
    push_str(&mut m, T::TYPE_NAME);
    push_str(&mut m, ">, found `");
    match stored {
        Some(t) => push_str(&mut m, t),
        None => push_str(&mut m, "<unknown>"),
    }
    push_str(&mut m, "`");
    m
}

/// `Vec::capacity`: the number of elements the allocation holds, at least
/// the length (what it is beyond that is up to the allocator).
#[verifier::external_body]
fn vec_capacity<T>(v: &Vec<T>) -> (r: usize)
    ensures
        r >= v@.len(),
{
    v.capacity()
}

/// A slice stored as a standalone value, keeping the capacity of the
/// allocation it came from.
pub struct ExternalSlice<T> {
    data: Vec<T>,
    capacity: usize,
}

impl<T> ExternalSlice<T> {
    #[verifier::type_invariant]
    closed spec fn inv(self) -> bool {
        self.data@.len() <= self.capacity
    }

    /// The elements.
    pub closed spec fn elems(&self) -> Seq<T> {
        self.data@
    }

    /// The recorded capacity.
    pub closed spec fn cap(&self) -> nat {
        self.capacity as nat
    }

    /// Take over a vector and its allocation.
    pub fn new(slice: Vec<T>) -> (r: ExternalSlice<T>)
        ensures
            r.elems() == slice@,
            r.cap() >= slice@.len(),
    {
        let capacity = vec_capacity(&slice);
        ExternalSlice { data: slice, capacity }
    }

    /// Take over a boxed slice (capacity equals length).
    pub fn from_boxed(boxed: Box<[T]>) -> (r: ExternalSlice<T>)
        ensures
            r.elems() == boxed@,
            r.cap() == boxed@.len(),
    {
        let data = boxed.into_vec();
        let capacity = data.len();
        ExternalSlice { data, capacity }
    }

    /// The contents.
    pub fn as_slice(&self) -> (r: &[T])
        ensures
            r@ == self.elems(),
    {
        self.data.as_slice()
    }

    /// Number of elements.
    pub fn len(&self) -> (r: usize)
        ensures
            r == self.elems().len(),
    {
        self.data.len()
    }

    /// Whether there are no elements.
    pub fn is_empty(&self) -> (r: bool)
        ensures
            r == (self.elems().len() == 0),
    {
        self.data.len() == 0
    }

    /// Capacity of the allocation (never below the length).
    pub fn capacity(&self) -> (r: usize)
        ensures
            r == self.cap(),
            r >= self.elems().len(),
    {
        proof {
            use_type_invariant(self);
        }
        self.capacity
    }
}

} // verus!
