//! Structured R conditions raised from Rust.
//!
//! [`RCondition`] is the payload behind the `error` / `warning` / `message` /
//! `condition` signals; [`RValue`] is the owned, thread-safe value tree that
//! carries a condition's structured fields (`e$<name>` in an R handler).
//! [`RError`] and [`RConditionError`] give `Result` errors an R class vector
//! and fields, and [`serde_err_parts`] turns a serialized error into the
//! parts of a classed condition.
use crate::from_r::{SexpError, owned_opt, strings_view};
use crate::sexp::{copy_slice, name_at, Sexp, SEXPTYPE, NA_INTEGER, NA_LOGICAL, opt_str_view, opt_strs_view};
use crate::text::{push_str, str_eq, string_of};
use vstd::prelude::*;

verus! {

/// An owned R value: what a condition field holds until it is turned into an
/// R object on the main thread.
#[derive(Debug)]
pub enum RValue {
    /// `NULL`.
    Null,
    /// A logical vector; `None` is `NA`.
    Logical(Vec<Option<bool>>),
    /// An integer vector; `None` is `NA`.
    Integer(Vec<Option<i32>>),
    /// A double vector, each element as its IEEE-754 bits.
    Double(Vec<u64>),
    /// A character vector; `None` is `NA`.
    Character(Vec<Option<String>>),
    /// A raw vector.
    Raw(Vec<u8>),
    /// A generic list of optionally named elements.
    List(Vec<(Option<String>, RValue)>),
}

/// `a` and `b` hold the same value: same kind, same elements, same names,
/// and element by element the same values.
pub open spec fn same_rvalue(a: RValue, b: RValue) -> bool
    decreases a,
{
    match (a, b) {
        (RValue::Null, RValue::Null) => true,
        (RValue::Logical(x), RValue::Logical(y)) => x@ == y@,
        (RValue::Integer(x), RValue::Integer(y)) => x@ == y@,
        (RValue::Double(x), RValue::Double(y)) => x@ == y@,
        (RValue::Character(x), RValue::Character(y)) => opt_strs_view(x@) == opt_strs_view(y@),
        (RValue::Raw(x), RValue::Raw(y)) => x@ == y@,
        (RValue::List(x), RValue::List(y)) => {
            &&& x@.len() == y@.len()
            &&& forall|i: int|
                #![trigger x@[i]]
                0 <= i < x@.len() ==> opt_str_view(x@[i].0) == opt_str_view(y@[i].0)
                    && same_rvalue(x@[i].1, y@[i].1)
        },
        _ => false,
    }
}

impl Clone for RValue {
    /// A deep copy.
    fn clone(&self) -> (r: RValue)
        ensures
            same_rvalue(*self, r),
        decreases self,
    {
        match self {
            RValue::Null => RValue::Null,
            RValue::Logical(x) => RValue::Logical(copy_slice(x.as_slice())),
            RValue::Integer(x) => RValue::Integer(copy_slice(x.as_slice())),
            RValue::Double(x) => RValue::Double(copy_slice(x.as_slice())),
            RValue::Character(x) => RValue::Character(copy_strings(x.as_slice())),
            RValue::Raw(x) => RValue::Raw(copy_slice(x.as_slice())),
            RValue::List(items) => {
                let mut out: Vec<(Option<String>, RValue)> = Vec::new();
                let mut i: usize = 0;
                while i < items.len()
                    invariant
                        *self == RValue::List(*items),
                        i <= items@.len(),
                        out@.len() == i,
                        forall|k: int|
                            #![trigger items@[k]]
                            0 <= k < i ==> opt_str_view(items@[k].0) == opt_str_view(out@[k].0)
                                && same_rvalue(items@[k].1, out@[k].1),
                    decreases items@.len() - i,
                {
                    proof {
                        assert(*self is List);
                        assert(decreases_to!(*self => (*self)->List_0));
                        assert((*self)->List_0 == *items);
                        assert(decreases_to!(*items => items@));
                        assert(decreases_to!(items@ => items@[i as int]));
                        assert(decreases_to!(items@[i as int] => items@[i as int].1));
                    }
                    let name = owned_opt(&items[i].0);
                    let value = items[i].1.clone();
                    out.push((name, value));
                    i = i + 1;
                }
                RValue::List(out)
            },
        }
    }
}

/// Named condition fields, in order.
pub type ConditionData = Vec<(String, RValue)>;

/// Whether `s` is R data that an [`RValue`] can hold: `NULL`, an atomic
/// vector, or a list of such.
pub open spec fn is_rdata(s: Sexp) -> bool
    decreases s,
{
    if s.stype() == SEXPTYPE::VECSXP {
        proof {
            Sexp::lemma_elems_decrease(s);
        }
        forall|i: int| 0 <= i < s.elems().len() ==> is_rdata(#[trigger] s.elems()[i])
    } else {
        ||| s.stype() == SEXPTYPE::NILSXP
        ||| s.stype() == SEXPTYPE::LGLSXP
        ||| s.stype() == SEXPTYPE::INTSXP
        ||| s.stype() == SEXPTYPE::REALSXP
        ||| s.stype() == SEXPTYPE::STRSXP
        ||| s.stype() == SEXPTYPE::RAWSXP
    }
}

/// A list with an element that is not R data is not R data.
proof fn lemma_rdata_list(s: Sexp, i: int)
    requires
        s.stype() == SEXPTYPE::VECSXP,
        0 <= i < s.elems().len(),
        !is_rdata(s.elems()[i]),
    ensures
        !is_rdata(s),
{

}


/// The logical element read from the integer code `x`.
pub open spec fn logical_elt(x: i32) -> Option<bool> {
    if x == NA_LOGICAL {
        None
    } else {
        Some(x != 0)
    }
}

/// The integer element read from `x`.
pub open spec fn integer_elt(x: i32) -> Option<i32> {
    if x == NA_INTEGER {
        None
    } else {
        Some(x)
    }
}

/// `v` holds what `s` holds: same kind, same elements, and for a list the
/// same names and, element by element, the same values.
pub open spec fn decodes_to(v: RValue, s: Sexp) -> bool
    decreases s,
    via decodes_to_decreases
{
    match v {
        RValue::Null => s.stype() == SEXPTYPE::NILSXP,
        RValue::Logical(x) => {
            &&& s.stype() == SEXPTYPE::LGLSXP
            &&& x@.len() == s.ints().len()
            &&& forall|i: int| 0 <= i < x@.len() ==> x@[i] == logical_elt(#[trigger] s.ints()[i])
        },
        RValue::Integer(x) => {
            &&& s.stype() == SEXPTYPE::INTSXP
            &&& x@.len() == s.ints().len()
            &&& forall|i: int| 0 <= i < x@.len() ==> x@[i] == integer_elt(#[trigger] s.ints()[i])
        },
        RValue::Double(x) => s.stype() == SEXPTYPE::REALSXP && x@ == s.reals(),
        RValue::Character(x) => s.stype() == SEXPTYPE::STRSXP && opt_strs_view(x@) == s.strs(),
        RValue::Raw(x) => s.stype() == SEXPTYPE::RAWSXP && x@ == s.raws(),
        RValue::List(items) => {
            &&& s.stype() == SEXPTYPE::VECSXP
            &&& items@.len() == s.elems().len()
            &&& forall|i: int|
                #![trigger items@[i]]
                #![trigger s.elems()[i]]
                0 <= i < items@.len() ==> opt_str_view(items@[i].0) == name_at(s, i) && decodes_to(
                    items@[i].1,
                    s.elems()[i],
                )
        },
    }
}

#[via_fn]
proof fn decodes_to_decreases(v: RValue, s: Sexp) {
    Sexp::lemma_elems_decrease(s);
}

/// The name of element `i` of `s`, read from its `names` attribute.
fn element_name(s: &Sexp, i: usize) -> (r: Option<String>)
    ensures
        opt_str_view(r) == name_at(*s, i as int),
{
    match s.get_attr("names") {
        Some(n) => {
            if n.type_of() == SEXPTYPE::STRSXP {
                let v = n.str_slice();
                proof {
                    n.lemma_type_consistent();
                }
                if i < v.len() {
                    proof {
                        assert(opt_strs_view(v@)[i as int] == opt_str_view(v@[i as int]));
                    }
                    owned_opt(&v[i])
                } else {
                    None
                }
            } else {
                None
            }
        },
        None => None,
    }
}

/// The logical elements of `codes` (`NA_LOGICAL` is `None`).
fn decode_logicals(codes: &[i32]) -> (r: Vec<Option<bool>>)
    ensures
        r@.len() == codes@.len(),
        forall|i: int| 0 <= i < r@.len() ==> r@[i] == logical_elt(#[trigger] codes@[i]),
{
    let mut r: Vec<Option<bool>> = Vec::new();
    let mut i: usize = 0;
    while i < codes.len()
        invariant
            i <= codes@.len(),
            r@.len() == i,
            forall|k: int| 0 <= k < i ==> r@[k] == logical_elt(#[trigger] codes@[k]),
        decreases codes@.len() - i,
    {
        let x = codes[i];
        if x == NA_LOGICAL {
            r.push(None);
        } else {
            r.push(Some(x != 0));
        }
        i = i + 1;
    }
    r
}

/// The integer elements of `codes` (`NA_INTEGER` is `None`).
fn decode_integers(codes: &[i32]) -> (r: Vec<Option<i32>>)
    ensures
        r@.len() == codes@.len(),
        forall|i: int| 0 <= i < r@.len() ==> r@[i] == integer_elt(#[trigger] codes@[i]),
{
    let mut r: Vec<Option<i32>> = Vec::new();
    let mut i: usize = 0;
    while i < codes.len()
        invariant
            i <= codes@.len(),
            r@.len() == i,
            forall|k: int| 0 <= k < i ==> r@[k] == integer_elt(#[trigger] codes@[k]),
        decreases codes@.len() - i,
    {
        let x = codes[i];
        if x == NA_INTEGER {
            r.push(None);
        } else {
            r.push(Some(x));
        }
        i = i + 1;
    }
    r
}

/// A copy of a character vector's elements.
pub(crate) fn copy_strings(v: &[Option<String>]) -> (r: Vec<Option<String>>)
    ensures
        opt_strs_view(r@) == opt_strs_view(v@),
{
    let mut r: Vec<Option<String>> = Vec::new();
    let mut i: usize = 0;
    while i < v.len()
        invariant
            i <= v@.len(),
            r@.len() == i,
            forall|k: int| 0 <= k < i ==> opt_str_view(#[trigger] r@[k]) == opt_str_view(v@[k]),
        decreases v@.len() - i,
    {
        r.push(owned_opt(&v[i]));
        i = i + 1;
    }
    proof {
        assert(opt_strs_view(r@) =~= opt_strs_view(v@));
    }
    r
}

/// The text of the error for an object that is not R data.
pub open spec fn not_rdata_text(t: SEXPTYPE) -> Seq<char> {
    "not R data: "@ + t.spec_name()
}

impl RValue {
    /// Read an R object into an owned value tree. `NULL`, atomic vectors
    /// and lists of such are R data; anything else (closures,
    /// environments, symbols, external pointers, ...) is an error.
    pub fn try_from_sexp(sexp: &Sexp) -> (r: Result<RValue, SexpError>)
        ensures
            r is Ok <==> is_rdata(*sexp),
            r matches Ok(v) ==> decodes_to(v, *sexp),
        decreases *sexp,
    {
        proof {
            sexp.lemma_type_consistent();
            Sexp::lemma_elems_decrease(*sexp);
        }
        let t = sexp.type_of();
        match t {
            SEXPTYPE::NILSXP => Ok(RValue::Null),
            SEXPTYPE::LGLSXP => Ok(RValue::Logical(decode_logicals(sexp.int_slice()))),
            SEXPTYPE::INTSXP => Ok(RValue::Integer(decode_integers(sexp.int_slice()))),
            SEXPTYPE::REALSXP => Ok(RValue::Double(copy_slice(sexp.real_slice()))),
            SEXPTYPE::STRSXP => Ok(RValue::Character(copy_strings(sexp.str_slice()))),
            SEXPTYPE::RAWSXP => Ok(RValue::Raw(copy_slice(sexp.raw_slice()))),
            SEXPTYPE::VECSXP => {
                let elems = sexp.elem_slice();
                let mut items: Vec<(Option<String>, RValue)> = Vec::new();
                let mut i: usize = 0;
                while i < elems.len()
                    invariant
                        elems@ == sexp.elems(),
                        sexp.stype() == SEXPTYPE::VECSXP,
                        i <= elems@.len(),
                        items@.len() == i,
                        forall|k: int| 0 <= k < elems@.len() ==> decreases_to!(*sexp => #[trigger] sexp.elems()[k]),
                        forall|k: int| 0 <= k < i ==> is_rdata(#[trigger] sexp.elems()[k]),
                        forall|k: int|
                            0 <= k < i ==> opt_str_view(#[trigger] items@[k].0) == name_at(*sexp, k)
                                && decodes_to(items@[k].1, sexp.elems()[k]),
                    decreases elems@.len() - i,
                {
                    let value = match RValue::try_from_sexp(&elems[i]) {
                        Ok(v) => v,
                        Err(e) => {
                            proof {
                                assert(!is_rdata(sexp.elems()[i as int]));
                                lemma_rdata_list(*sexp, i as int);
                            }
                            return Err(e);
                        },
                    };
                    let name = element_name(sexp, i);
                    items.push((name, value));
                    i = i + 1;
                }
                Ok(RValue::List(items))
            },
            _ => {
                let mut msg = string_of("not R data: ");
                crate::text::push_str(&mut msg, t.name());
                Err(SexpError::InvalidValue(msg))
            },
        }
    }
}

/// A structured R condition raised from Rust: the signal, its message, the
/// user classes (most specific first) and the structured fields.
#[derive(Debug)]
pub enum RCondition {
    /// An error (`error!`, or a `Result` error crossing a package boundary).
    Error { message: String, class: Vec<String>, data: Option<ConditionData> },
    /// A warning (`warning!`).
    Warning { message: String, class: Vec<String>, data: Option<ConditionData> },
    /// A message (`message!`); messages carry no user class.
    Message { message: String, data: Option<ConditionData> },
    /// A bare condition (`condition!`).
    Condition { message: String, class: Vec<String>, data: Option<ConditionData> },
}

/// Element `i` of a character vector, `None` for `NA`, for another type or
/// out of range.
pub open spec fn str_at(x: Sexp, i: int) -> Option<Seq<char>> {
    if x.stype() == SEXPTYPE::STRSXP && 0 <= i < x.strs().len() {
        x.strs()[i]
    } else {
        None
    }
}

/// `Rf_inherits`: the class attribute lists `c`.
pub open spec fn has_class(s: Sexp, c: Seq<char>) -> bool {
    match s.attr("class"@) {
        Some(cl) => exists|j: int| 0 <= j < cl.strs().len() && cl.strs()[j] == Some(c),
        None => false,
    }
}

/// The marker attribute that tells a tagged condition value from a value
/// that happens to carry its class.
pub open spec fn marker_name() -> Seq<char> {
    "__rust_condition__"@
}

/// The class of a tagged condition value.
pub open spec fn tagged_class() -> Seq<char> {
    "rust_condition_value"@
}

/// The marker attribute is a logical whose first element is `TRUE`.
pub open spec fn is_marked(s: Sexp) -> bool {
    match s.attr(marker_name()) {
        Some(m) => m.stype() == SEXPTYPE::LGLSXP && m.ints()[0] == 1,
        None => false,
    }
}

/// A tagged condition value: the class, the marker, and at least the message
/// and kind slots.
pub open spec fn is_tagged(s: Sexp) -> bool {
    has_class(s, tagged_class()) && is_marked(s) && s.slen() >= 2
}

/// What reading a tagged value needs of it: a logical marker has a first
/// element, and a tagged value is a list whose slots can be read.
pub open spec fn tagged_readable(s: Sexp) -> bool {
    &&& has_class(s, tagged_class()) ==> match s.attr(marker_name()) {
        Some(m) => m.stype() == SEXPTYPE::LGLSXP ==> m.ints().len() >= 1,
        None => true,
    }
    &&& is_tagged(s) ==> s.stype() == SEXPTYPE::VECSXP
}

/// The message slot, or a placeholder when it holds no string.
pub open spec fn tagged_message(s: Sexp) -> Seq<char> {
    match str_at(s.elems()[0], 0) {
        Some(t) => t,
        None => "<invalid error message>"@,
    }
}

/// The kind slot, `"panic"` when it holds no string.
pub open spec fn tagged_kind(s: Sexp) -> Seq<char> {
    match str_at(s.elems()[1], 0) {
        Some(t) => t,
        None => "panic"@,
    }
}

/// The non-`NA` elements of a character vector, in order.
pub open spec fn present(v: Seq<Option<Seq<char>>>) -> Seq<Seq<char>>
    decreases v.len(),
{
    if v.len() == 0 {
        Seq::empty()
    } else {
        let rest = present(v.drop_last());
        match v.last() {
            Some(t) => rest.push(t),
            None => rest,
        }
    }
}

/// The user classes of a tagged value (slot 3 of the 4-slot form).
pub open spec fn tagged_classes(s: Sexp) -> Seq<Seq<char>> {
    if s.slen() >= 4 && s.elems()[2].stype() == SEXPTYPE::STRSXP {
        present(s.elems()[2].strs())
    } else {
        Seq::empty()
    }
}

/// Field `i` of a data list survives: it has a non-empty name and R data.
pub open spec fn keeps_field(d: Sexp, i: int) -> bool {
    &&& name_at(d, i) matches Some(n) && n.len() > 0
    &&& is_rdata(d.elems()[i])
}

/// The positions of the surviving fields among the first `n`, in order.
pub open spec fn kept_fields(d: Sexp, n: nat) -> Seq<int>
    decreases n,
{
    if n == 0 {
        Seq::empty()
    } else {
        let rest = kept_fields(d, (n - 1) as nat);
        if keeps_field(d, n - 1) {
            rest.push(n - 1)
        } else {
            rest
        }
    }
}

/// The data list of a tagged value (slot 5), when there is one.
pub open spec fn tagged_data_list(s: Sexp) -> Option<Sexp> {
    if s.slen() >= 5 && s.elems()[4].stype() == SEXPTYPE::VECSXP {
        Some(s.elems()[4])
    } else {
        None
    }
}

/// The text of a name (empty for none).
pub open spec fn name_text(d: Sexp, i: int) -> Seq<char> {
    match name_at(d, i) {
        Some(n) => n,
        None => Seq::empty(),
    }
}

/// `fields` are the surviving fields of the data list `d`, each under its
/// name and holding what its element holds.
pub open spec fn fields_read_from(fields: Seq<(String, RValue)>, d: Sexp) -> bool {
    let ix = kept_fields(d, d.slen());
    &&& fields.len() == ix.len()
    &&& forall|k: int|
        0 <= k < fields.len() ==> (#[trigger] fields[k]).0@ == name_text(d, ix[k]) && decodes_to(
            fields[k].1,
            d.elems()[ix[k]],
        )
}

/// The data of a tagged value: `None` without a data list or when no field
/// survives.
pub open spec fn data_read_from(data: Option<ConditionData>, s: Sexp) -> bool {
    match tagged_data_list(s) {
        Some(d) => if kept_fields(d, d.slen()).len() == 0 {
            data is None
        } else {
            data matches Some(f) && fields_read_from(f@, d)
        },
        None => data is None,
    }
}

/// The kinds that reconstruct as an error.
pub open spec fn is_error_kind(k: Seq<char>) -> bool {
    ||| k == "error"@
    ||| k == "panic"@
    ||| k == "result_err"@
    ||| k == "none_err"@
    ||| k == "other_rust_error"@
}

/// The kinds this reconstruction knows.
pub open spec fn is_known_kind(k: Seq<char>) -> bool {
    is_error_kind(k) || k == "warning"@ || k == "message"@ || k == "condition"@
}

/// The message of the reconstructed condition: an unknown kind is kept in
/// front of the message.
pub open spec fn reconstructed_message(s: Sexp) -> Seq<char> {
    if is_known_kind(tagged_kind(s)) {
        tagged_message(s)
    } else {
        "["@ + tagged_kind(s) + "] "@ + tagged_message(s)
    }
}

/// `c` is what [`RCondition::from_tagged_sexp`] reconstructs from `s`.
pub open spec fn reconstructs(c: RCondition, s: Sexp) -> bool {
    let k = tagged_kind(s);
    match c {
        RCondition::Error { message, class, data } => {
            &&& is_error_kind(k) || !is_known_kind(k)
            &&& message@ == reconstructed_message(s)
            &&& strings_view(class@) == tagged_classes(s)
            &&& data_read_from(data, s)
        },
        RCondition::Warning { message, class, data } => {
            &&& k == "warning"@
            &&& message@ == tagged_message(s)
            &&& strings_view(class@) == tagged_classes(s)
            &&& data_read_from(data, s)
        },
        RCondition::Message { message, data } => {
            &&& k == "message"@
            &&& message@ == tagged_message(s)
            &&& data_read_from(data, s)
        },
        RCondition::Condition { message, class, data } => {
            &&& k == "condition"@
            &&& message@ == tagged_message(s)
            &&& strings_view(class@) == tagged_classes(s)
            &&& data_read_from(data, s)
        },
    }
}

/// Element `i` of a character vector (see [`str_at`]).
fn string_elt(x: &Sexp, i: usize) -> (r: Option<&String>)
    ensures
        r matches Some(t) ==> str_at(*x, i as int) == Some(t@),
        r is None ==> str_at(*x, i as int) is None,
{
    if x.type_of() != SEXPTYPE::STRSXP {
        return None;
    }
    let v = x.str_slice();
    proof {
        x.lemma_type_consistent();
    }
    if i < v.len() {
        proof {
            assert(opt_strs_view(v@)[i as int] == opt_str_view(v@[i as int]));
        }
        match &v[i] {
            Some(t) => Some(t),
            None => None,
        }
    } else {
        None
    }
}

/// `Rf_inherits(s, c)`.
pub(crate) fn inherits(s: &Sexp, c: &str) -> (r: bool)
    ensures
        r == has_class(*s, c@),
{
    match s.get_attr("class") {
        Some(cl) => {
            let v = cl.str_slice();
            let mut j: usize = 0;
            while j < v.len()
                invariant
                    v@ == cl.str_elems(),
                    s.attr("class"@) == Some(*cl),
                    j <= v@.len(),
                    forall|k: int| 0 <= k < j ==> cl.strs()[k] != Some(c@),
                decreases v@.len() - j,
            {
                proof {
                    assert(cl.strs()[j as int] == opt_str_view(v@[j as int]));
                }
                match &v[j] {
                    Some(t) => {
                        if str_eq(t.as_str(), c) {
                            proof {
                                assert(cl.strs()[j as int] == Some(c@));
                            }
                            return true;
                        }
                    },
                    None => {},
                }
                j = j + 1;
            }
            false
        },
        None => false,
    }
}

/// The non-`NA` elements of a character vector.
fn present_strings(x: &Sexp) -> (r: Vec<String>)
    ensures
        strings_view(r@) == present(x.strs()),
{
    let v = x.str_slice();
    let mut r: Vec<String> = Vec::new();
    let mut i: usize = 0;
    while i < v.len()
        invariant
            v@ == x.str_elems(),
            i <= v@.len(),
            strings_view(r@) == present(opt_strs_view(v@).subrange(0, i as int)),
        decreases v@.len() - i,
    {
        proof {
            let w = opt_strs_view(v@);
            assert(w.subrange(0, i + 1).drop_last() =~= w.subrange(0, i as int));
            assert(w.subrange(0, i + 1).last() == opt_str_view(v@[i as int]));
        }
        match &v[i] {
            Some(t) => {
                r.push(t.clone());
                proof {
                    assert(strings_view(r@) =~= strings_view(r@.drop_last()).push(t@));
                }
            },
            None => {},
        }
        i = i + 1;
    }
    proof {
        assert(opt_strs_view(v@).subrange(0, v@.len() as int) =~= opt_strs_view(v@));
    }
    r
}

/// The surviving fields of the data list `d`.
fn read_fields(d: &Sexp) -> (r: ConditionData)
    requires
        d.stype() == SEXPTYPE::VECSXP,
    ensures
        fields_read_from(r@, *d),
{
    proof {
        d.lemma_type_consistent();
    }
    let elems = d.elem_slice();
    let mut fields: ConditionData = Vec::new();
    let mut i: usize = 0;
    while i < elems.len()
        invariant
            elems@ == d.elems(),
            d.stype() == SEXPTYPE::VECSXP,
            i <= elems@.len(),
            fields@.len() == kept_fields(*d, i as nat).len(),
            forall|k: int|
                0 <= k < fields@.len() ==> (#[trigger] fields@[k]).0@ == name_text(
                    *d,
                    kept_fields(*d, i as nat)[k],
                ) && decodes_to(fields@[k].1, d.elems()[kept_fields(*d, i as nat)[k]]),
        decreases elems@.len() - i,
    {
        let ghost before = fields@;
        let name = element_name(d, i);
        match name {
            Some(n) => {
                if n.as_str().unicode_len() > 0 {
                    match RValue::try_from_sexp(&elems[i]) {
                        Ok(v) => {
                            fields.push((n, v));
                        },
                        Err(_) => {},
                    }
                }
            },
            None => {},
        }
        proof {
            let ix = kept_fields(*d, (i + 1) as nat);
            assert(ix == if keeps_field(*d, i as int) {
                kept_fields(*d, i as nat).push(i as int)
            } else {
                kept_fields(*d, i as nat)
            });
            assert forall|k: int| 0 <= k < fields@.len() implies (#[trigger] fields@[k]).0@
                == name_text(*d, ix[k]) && decodes_to(fields@[k].1, d.elems()[ix[k]]) by {
                if k < before.len() {
                    assert(fields@[k] == before[k]);
                }
            }
        }
        i = i + 1;
    }
    fields
}

impl RCondition {
    /// Reconstruct a condition from a tagged condition value (a list of
    /// class `"rust_condition_value"` whose `__rust_condition__` attribute is
    /// `TRUE`): slot 1 is the message, slot 2 the kind, slot 3 (4-slot form)
    /// the user classes, slot 5 the named data list. `None` for any other
    /// object.
    ///
    /// `error`, `panic`, `result_err`, `none_err` and `other_rust_error`
    /// become [`RCondition::Error`]; `warning`, `message` and `condition`
    /// their own variant; an unknown kind becomes an error whose message is
    /// prefixed with `[kind] `. Data fields without a non-empty name, or
    /// whose value is not R data, are dropped.
    pub fn from_tagged_sexp(sexp: &Sexp) -> (r: Option<RCondition>)
        requires
            tagged_readable(*sexp),
        ensures
            r is Some <==> is_tagged(*sexp),
            r matches Some(c) ==> reconstructs(c, *sexp),
    {
        if !inherits(sexp, "rust_condition_value") {
            return None;
        }
        let marked = match sexp.get_attr("__rust_condition__") {
            Some(m) => {
                if m.type_of() == SEXPTYPE::LGLSXP {
                    proof {
                        m.lemma_type_consistent();
                    }
                    m.int_slice()[0] == 1
                } else {
                    false
                }
            },
            None => false,
        };
        if !marked {
            return None;
        }
        let len = sexp.xlength();
        if len < 2 {
            return None;
        }
        proof {
            sexp.lemma_type_consistent();
        }
        let elems = sexp.elem_slice();
        let msg: String = match string_elt(&elems[0], 0) {
            Some(t) => t.clone(),
            None => string_of("<invalid error message>"),
        };
        let kind: String = match string_elt(&elems[1], 0) {
            Some(t) => t.clone(),
            None => string_of("panic"),
        };
        let class: Vec<String> = if len >= 4 {
            if elems[2].type_of() == SEXPTYPE::STRSXP {
                present_strings(&elems[2])
            } else {
                Vec::new()
            }
        } else {
            Vec::new()
        };
        proof {
            assert(strings_view(Seq::<String>::empty()) =~= Seq::<Seq<char>>::empty());
        }
        let data: Option<ConditionData> = if len >= 5 && elems[4].type_of() == SEXPTYPE::VECSXP {
            let fields = read_fields(&elems[4]);
            if fields.len() == 0 {
                None
            } else {
                Some(fields)
            }
        } else {
            None
        };
        let k = kind.as_str();
        if str_eq(k, "error") || str_eq(k, "panic") || str_eq(k, "result_err") || str_eq(
            k,
            "none_err",
        ) || str_eq(k, "other_rust_error") {
            Some(RCondition::Error { message: msg, class, data })
        } else if str_eq(k, "warning") {
            Some(RCondition::Warning { message: msg, class, data })
        } else if str_eq(k, "message") {
            Some(RCondition::Message { message: msg, data })
        } else if str_eq(k, "condition") {
            Some(RCondition::Condition { message: msg, class, data })
        } else {
            let mut m = string_of("[");
            push_str(&mut m, k);
            push_str(&mut m, "] ");
            push_str(&mut m, msg.as_str());
            Some(RCondition::Error { message: m, class, data })
        }
    }
}

/// The texts of a sequence of string slices.
pub open spec fn strs_view(v: Seq<&str>) -> Seq<Seq<char>> {
    v.map_values(|s: &str| s@)
}

/// What the `class = ...` of a condition accepts: one class or several,
/// most specific first.
pub trait ConditionClass: Sized {
    /// The classes this value stands for.
    spec fn condition_classes(self) -> Seq<Seq<char>>;

    /// The class vector, most specific first.
    fn into_condition_class(self) -> (r: Vec<String>)
        ensures
            strings_view(r@) == self.condition_classes(),
    ;
}

/// Owned copies of string slices.
fn owned_strs(v: &[&str]) -> (r: Vec<String>)
    ensures
        strings_view(r@) == strs_view(v@),
{
    let mut r: Vec<String> = Vec::new();
    let mut i: usize = 0;
    while i < v.len()
        invariant
            i <= v@.len(),
            strings_view(r@) == strs_view(v@.subrange(0, i as int)),
        decreases v@.len() - i,
    {
        r.push(string_of(v[i]));
        proof {
            assert(strs_view(v@.subrange(0, i + 1)) =~= strs_view(v@.subrange(0, i as int)).push(
                v@[i as int]@,
            ));
            assert(strings_view(r@) =~= strings_view(r@.drop_last()).push(r@.last()@));
        }
        i = i + 1;
    }
    proof {
        assert(v@.subrange(0, v@.len() as int) =~= v@);
    }
    r
}

/// `b` holds the fields of `a`: as many, in order, each with the same name
/// and the same value.
pub open spec fn same_fields(a: Seq<(String, RValue)>, b: Seq<(String, RValue)>) -> bool {
    &&& a.len() == b.len()
    &&& forall|i: int|
        #![trigger a[i]]
        #![trigger b[i]]
        0 <= i < a.len() ==> b[i].0@ == a[i].0@ && same_rvalue(a[i].1, b[i].1)
}

/// Deep copies of named fields.
fn copy_fields(v: &[(String, RValue)]) -> (r: Vec<(String, RValue)>)
    ensures
        same_fields(v@, r@),
{
    let mut r: Vec<(String, RValue)> = Vec::new();
    let mut i: usize = 0;
    while i < v.len()
        invariant
            i <= v@.len(),
            r@.len() == i,
            forall|k: int|
                #![trigger v@[k]]
                0 <= k < i ==> r@[k].0@ == v@[k].0@ && same_rvalue(v@[k].1, r@[k].1),
        decreases v@.len() - i,
    {
        let name = v[i].0.clone();
        let value = v[i].1.clone();
        r.push((name, value));
        i = i + 1;
    }
    r
}

/// Clones of strings.
fn cloned_strings(v: &[String]) -> (r: Vec<String>)
    ensures
        strings_view(r@) == strings_view(v@),
{
    let mut r: Vec<String> = Vec::new();
    let mut i: usize = 0;
    while i < v.len()
        invariant
            i <= v@.len(),
            strings_view(r@) == strings_view(v@.subrange(0, i as int)),
        decreases v@.len() - i,
    {
        r.push(v[i].clone());
        proof {
            assert(strings_view(v@.subrange(0, i + 1)) =~= strings_view(
                v@.subrange(0, i as int),
            ).push(v@[i as int]@));
            assert(strings_view(r@) =~= strings_view(r@.drop_last()).push(r@.last()@));
        }
        i = i + 1;
    }
    proof {
        assert(v@.subrange(0, v@.len() as int) =~= v@);
    }
    r
}

impl<'a> ConditionClass for &'a str {
    open spec fn condition_classes(self) -> Seq<Seq<char>> {
        seq![self@]
    }

    fn into_condition_class(self) -> (r: Vec<String>) {
        let mut r: Vec<String> = Vec::new();
        r.push(string_of(self));
        proof {
            assert(strings_view(r@) =~= seq![self@]);
        }
        r
    }
}

impl ConditionClass for String {
    open spec fn condition_classes(self) -> Seq<Seq<char>> {
        seq![self@]
    }

    fn into_condition_class(self) -> (r: Vec<String>) {
        let ghost t = self@;
        let mut r: Vec<String> = Vec::new();
        r.push(self);
        proof {
            assert(strings_view(r@) =~= seq![t]);
        }
        r
    }
}

impl<'a> ConditionClass for &'a String {
    open spec fn condition_classes(self) -> Seq<Seq<char>> {
        seq![self@]
    }

    fn into_condition_class(self) -> (r: Vec<String>) {
        let mut r: Vec<String> = Vec::new();
        r.push(self.clone());
        proof {
            assert(strings_view(r@) =~= seq![self@]);
        }
        r
    }
}

impl<'a, const N: usize> ConditionClass for [&'a str; N] {
    open spec fn condition_classes(self) -> Seq<Seq<char>> {
        strs_view(self@)
    }

    fn into_condition_class(self) -> (r: Vec<String>) {
        owned_strs(self.as_slice())
    }
}

impl<const N: usize> ConditionClass for [String; N] {
    open spec fn condition_classes(self) -> Seq<Seq<char>> {
        strings_view(self@)
    }

    fn into_condition_class(self) -> (r: Vec<String>) {
        cloned_strings(self.as_slice())
    }
}

impl<'a> ConditionClass for Vec<&'a str> {
    open spec fn condition_classes(self) -> Seq<Seq<char>> {
        strs_view(self@)
    }

    fn into_condition_class(self) -> (r: Vec<String>) {
        owned_strs(self.as_slice())
    }
}

impl ConditionClass for Vec<String> {
    open spec fn condition_classes(self) -> Seq<Seq<char>> {
        strings_view(self@)
    }

    fn into_condition_class(self) -> (r: Vec<String>) {
        self
    }
}

impl<'a, 'b> ConditionClass for &'a [&'b str] {
    open spec fn condition_classes(self) -> Seq<Seq<char>> {
        strs_view(self@)
    }

    fn into_condition_class(self) -> (r: Vec<String>) {
        owned_strs(self)
    }
}

impl<'a> ConditionClass for &'a [String] {
    open spec fn condition_classes(self) -> Seq<Seq<char>> {
        strings_view(self@)
    }

    fn into_condition_class(self) -> (r: Vec<String>) {
        cloned_strings(self)
    }
}

/// The field names that are a condition object's own slots.
pub open spec fn is_reserved(name: Seq<char>) -> bool {
    name == "message"@ || name == "call"@ || name == "kind"@
}

/// Whether `name` is one of the condition's own slots (`message`, `call`,
/// `kind`), which a data field may not overwrite.
pub fn is_reserved_condition_field(name: &str) -> (r: bool)
    ensures
        r == is_reserved(name@),
{
    str_eq(name, "message") || str_eq(name, "call") || str_eq(name, "kind")
}

/// What rejecting the reserved field `name` says.
pub open spec fn reserved_field_text(name: Seq<char>) -> Seq<char> {
    "condition data field `"@ + name
        + "` is reserved: `message`, `call` and `kind` are the condition's own slots; rename the field."@
}

/// The message that rejects the reserved field `name`.
pub fn reserved_field_message(name: &str) -> (r: String)
    ensures
        r@ == reserved_field_text(name@),
{
    let mut m = string_of("condition data field `");
    push_str(&mut m, name);
    push_str(
        &mut m,
        "` is reserved: `message`, `call` and `kind` are the condition's own slots; rename the field.",
    );
    m
}

/// Runtime half of the reserved-name check, for computed field names: the
/// name passes through unchanged. (A reserved name is rejected with
/// [`reserved_field_message`]; see [`first_reserved_field`].)
pub fn check_condition_field_name(name: String) -> (r: String)
    requires
        !is_reserved(name@),
    ensures
        r == name,
{
    name
}

/// No field of `fields` has a reserved name.
pub open spec fn no_reserved(fields: Seq<(String, RValue)>) -> bool {
    forall|i: int| 0 <= i < fields.len() ==> !is_reserved(#[trigger] fields[i].0@)
}

/// Position of the first field with a reserved name.
pub fn first_reserved_field(fields: &[(String, RValue)]) -> (r: Option<usize>)
    ensures
        r is None <==> no_reserved(fields@),
        r matches Some(k) ==> k < fields@.len() && is_reserved(fields@[k as int].0@) && no_reserved(
            fields@.subrange(0, k as int),
        ),
{
    let mut i: usize = 0;
    while i < fields.len()
        invariant
            i <= fields@.len(),
            no_reserved(fields@.subrange(0, i as int)),
        decreases fields@.len() - i,
    {
        if is_reserved_condition_field(fields[i].0.as_str()) {
            return Some(i);
        }
        proof {
            assert forall|j: int| 0 <= j < i + 1 implies !is_reserved(
                #[trigger] fields@.subrange(0, i + 1)[j].0@,
            ) by {
                if j < i {
                    assert(fields@.subrange(0, i + 1)[j] == fields@.subrange(0, i as int)[j]);
                }
            }
        }
        i = i + 1;
    }
    proof {
        assert(fields@.subrange(0, fields@.len() as int) =~= fields@);
    }
    None
}

/// Apply [`check_condition_field_name`] to every field: the payload passes
/// through unchanged when no field is reserved.
pub fn check_condition_data(data: Option<ConditionData>) -> (r: Option<ConditionData>)
    requires
        data matches Some(d) ==> no_reserved(d@),
    ensures
        r == data,
{
    data
}

impl RValue {
    /// `character(1)` holding `s`.
    pub fn from_str(s: &str) -> (r: RValue)
        ensures
            r matches RValue::Character(v) && v@.len() == 1 && opt_str_view(v@[0]) == Some(s@),
    {
        let mut v: Vec<Option<String>> = Vec::new();
        v.push(Some(string_of(s)));
        RValue::Character(v)
    }

    /// `integer(1)` holding `x`.
    pub fn from_i32(x: i32) -> (r: RValue)
        ensures
            r matches RValue::Integer(v) && v@ == seq![Some(x)],
    {
        let mut v: Vec<Option<i32>> = Vec::new();
        v.push(Some(x));
        RValue::Integer(v)
    }

    /// `logical(1)` holding `b`.
    pub fn from_bool(b: bool) -> (r: RValue)
        ensures
            r matches RValue::Logical(v) && v@ == seq![Some(b)],
    {
        let mut v: Vec<Option<bool>> = Vec::new();
        v.push(Some(b));
        RValue::Logical(v)
    }
}

/// Give a `Result` error type an R class vector and structured fields.
///
/// The `Err` arm of a bridged function raises
/// `c(<class()...>, "rust_error", "simpleError", "error", "condition")`
/// with every `data()` field readable as `e$<name>`. Field names must not be
/// `message`, `call` or `kind`.
pub trait RConditionError {
    /// The condition message (`conditionMessage(e)`).
    fn message(&self) -> String;

    /// User classes, most specific first; none by default.
    fn class(&self) -> (r: Vec<String>)
        default_ensures
            r@.len() == 0,
    {
        Vec::new()
    }

    /// Structured fields spliced into the condition object; none by default.
    fn data(&self) -> (r: Option<ConditionData>)
        default_ensures
            r is None,
    {
        None
    }
}

/// A ready-made classed error for `Result<T, RError>` returns: a message,
/// user classes and structured fields, added with the builder methods.
#[derive(Debug, Clone)]
pub struct RError {
    message: String,
    class: Vec<String>,
    data: ConditionData,
}

impl RError {
    /// The message.
    pub closed spec fn message_view(&self) -> Seq<char> {
        self.message@
    }

    /// The user classes, most specific first.
    pub closed spec fn classes_view(&self) -> Seq<Seq<char>> {
        strings_view(self.class@)
    }

    /// The structured fields, in the order they were attached.
    pub closed spec fn fields_view(&self) -> Seq<(String, RValue)> {
        self.data@
    }

    /// A classless error with `message` and no fields.
    pub fn new(message: &str) -> (r: RError)
        ensures
            r.message_view() == message@,
            r.classes_view() == Seq::<Seq<char>>::empty(),
            r.fields_view() == Seq::<(String, RValue)>::empty(),
    {
        let r = RError { message: string_of(message), class: Vec::new(), data: Vec::new() };
        proof {
            assert(strings_view(r.class@) =~= Seq::<Seq<char>>::empty());
        }
        r
    }

    /// An error whose message is the first link of an error chain followed
    /// by one `caused by:` line per further link (how a
    /// `std::error::Error` with its `source()` chain renders).
    pub fn from_chain(links: &[String]) -> (r: RError)
        requires
            links@.len() >= 1,
        ensures
            r.message_view() == chain_text(strings_view(links@)),
            r.classes_view() == Seq::<Seq<char>>::empty(),
            r.fields_view() == Seq::<(String, RValue)>::empty(),
    {
        let message = chain_message(links);
        RError::new(message.as_str())
    }

    /// Append user classes (most specific first).
    pub fn class<C: ConditionClass>(self, class: C) -> (r: RError)
        ensures
            r.message_view() == self.message_view(),
            r.classes_view() == self.classes_view() + class.condition_classes(),
            r.fields_view() == self.fields_view(),
    {
        let RError { message, class: mut classes, data } = self;
        let extra = class.into_condition_class();
        let ghost before = classes@;
        let mut i: usize = 0;
        while i < extra.len()
            invariant
                i <= extra@.len(),
                strings_view(classes@) == strings_view(before) + strings_view(
                    extra@.subrange(0, i as int),
                ),
            decreases extra@.len() - i,
        {
            let ghost prev = classes@;
            classes.push(extra[i].clone());
            proof {
                assert(strings_view(extra@.subrange(0, i + 1)) =~= strings_view(
                    extra@.subrange(0, i as int),
                ).push(extra@[i as int]@));
                assert(classes@.drop_last() =~= prev);
                assert(strings_view(classes@) =~= strings_view(prev).push(extra@[i as int]@));
                assert(strings_view(prev).push(extra@[i as int]@) =~= strings_view(before)
                    + strings_view(extra@.subrange(0, i + 1)));
            }
            i = i + 1;
        }
        proof {
            assert(extra@.subrange(0, extra@.len() as int) =~= extra@);
        }
        RError { message, class: classes, data }
    }

    /// Attach a structured field readable as `e$<name>`. The name must not
    /// be `message`, `call` or `kind` (checked when the error is raised).
    pub fn data(self, name: &str, value: RValue) -> (r: RError)
        ensures
            r.message_view() == self.message_view(),
            r.classes_view() == self.classes_view(),
            r.fields_view().len() == self.fields_view().len() + 1,
            r.fields_view().drop_last() == self.fields_view(),
            r.fields_view().last().0@ == name@,
            r.fields_view().last().1 == value,
    {
        let RError { message, class, mut data } = self;
        data.push((string_of(name), value));
        RError { message, class, data }
    }

    /// The message.
    pub fn message_str(&self) -> (r: &str)
        ensures
            r@ == self.message_view(),
    {
        self.message.as_str()
    }

    /// The user classes, most specific first.
    pub fn classes(&self) -> (r: &[String])
        ensures
            strings_view(r@) == self.classes_view(),
    {
        self.class.as_slice()
    }

    /// The structured fields as attached.
    pub fn fields(&self) -> (r: &ConditionData)
        ensures
            r@ == self.fields_view(),
    {
        &self.data
    }
}

impl RConditionError for RError {
    fn message(&self) -> (r: String)
        ensures
            r@ == self.message_view(),
    {
        self.message.clone()
    }

    fn class(&self) -> (r: Vec<String>)
        ensures
            strings_view(r@) == self.classes_view(),
    {
        cloned_strings(self.class.as_slice())
    }

    /// `None` when no field is attached, else a copy of the fields: the same
    /// names, in order, with the same values.
    fn data(&self) -> (r: Option<ConditionData>)
        ensures
            r is None <==> self.fields_view().len() == 0,
            r matches Some(d) ==> same_fields(self.fields_view(), d@),
    {
        if self.data.len() == 0 {
            None
        } else {
            Some(copy_fields(self.data.as_slice()))
        }
    }
}

/// An error chain rendered as text: the first link, then one
/// `"\n  caused by: "` line per further link.
pub open spec fn chain_text(links: Seq<Seq<char>>) -> Seq<char>
    decreases links.len(),
{
    if links.len() <= 1 {
        if links.len() == 0 {
            Seq::empty()
        } else {
            links[0]
        }
    } else {
        chain_text(links.drop_last()) + "\n  caused by: "@ + links.last()
    }
}

/// [`chain_text`] of the links.
pub fn chain_message(links: &[String]) -> (r: String)
    ensures
        r@ == chain_text(strings_view(links@)),
{
    if links.len() == 0 {
        return String::new();
    }
    let mut m = links[0].clone();
    let mut i: usize = 1;
    while i < links.len()
        invariant
            1 <= i <= links@.len(),
            m@ == chain_text(strings_view(links@.subrange(0, i as int))),
        decreases links@.len() - i,
    {
        proof {
            let w = strings_view(links@.subrange(0, i + 1));
            assert(w.drop_last() =~= strings_view(links@.subrange(0, i as int)));
            assert(w.last() == links@[i as int]@);
        }
        push_str(&mut m, "\n  caused by: ");
        push_str(&mut m, links[i].as_str());
        i = i + 1;
    }
    proof {
        assert(links@.subrange(0, links@.len() as int) =~= links@);
        assert(strings_view(links@.subrange(0, 1)) =~= seq![links@[0]@]);
    }
    m
}

/// The three parts of a `Result` error raised as an R condition.
pub struct ErrParts {
    pub message: String,
    pub class: Vec<String>,
    pub data: Option<ConditionData>,
}

impl ErrParts {
    /// The parts of a classed error, checking the field names: the first
    /// reserved name rejects the payload with [`reserved_field_message`].
    pub fn checked(message: String, class: Vec<String>, data: Option<ConditionData>) -> (r: Result<
        ErrParts,
        String,
    >)
        ensures
            r is Ok <==> (data matches Some(d) ==> no_reserved(d@)),
            r matches Ok(p) ==> p.message == message && p.class == class && p.data == data,
            r matches Err(m) ==> data matches Some(d) && exists|k: int|
                0 <= k < d@.len() && is_reserved(d@[k].0@) && no_reserved(d@.subrange(0, k))
                    && m@ == reserved_field_text(d@[k].0@),
    {
        match data {
            Some(d) => {
                match first_reserved_field(d.as_slice()) {
                    Some(k) => {
                        let m = reserved_field_message(d[k].0.as_str());
                        proof {
                            assert(is_reserved(d@[k as int].0@));
                        }
                        Err(m)
                    },
                    None => Ok(ErrParts { message, class, data: Some(d) }),
                }
            },
            None => Ok(ErrParts { message, class, data: None }),
        }
    }
}

/// The fields with their names as text.
pub open spec fn fields_view(d: Seq<(String, RValue)>) -> Seq<(Seq<char>, RValue)> {
    d.map_values(|p: (String, RValue)| (p.0@, p.1))
}

/// `skip` lists `name`.
pub open spec fn skips(skip: Seq<&str>, name: Seq<char>) -> bool {
    exists|i: int| 0 <= i < skip.len() && skip[i]@ == name
}

/// The target of the first `(from, to)` pair at or after position `i` whose
/// `from` is `name`.
pub open spec fn rename_target_from(rename: Seq<(&str, &str)>, name: Seq<char>, i: int) -> Option<
    Seq<char>,
>
    decreases rename.len() - i,
{
    if i < 0 || i >= rename.len() {
        None
    } else if rename[i].0@ == name {
        Some(rename[i].1@)
    } else {
        rename_target_from(rename, name, i + 1)
    }
}

/// The target of the first rename of `name`, if any.
pub open spec fn rename_target(rename: Seq<(&str, &str)>, name: Seq<char>) -> Option<Seq<char>> {
    rename_target_from(rename, name, 0)
}

/// A field named `message` that holds exactly the condition message as one
/// string: it repeats the condition's own `message` slot.
pub open spec fn echoes_message(name: Seq<char>, value: RValue, message: Seq<char>) -> bool {
    &&& name == "message"@
    &&& value matches RValue::Character(v) && v@.len() == 1 && opt_str_view(v@[0]) == Some(message)
}

/// One serialized field after `skip` and `rename`: skipped fields go, a
/// renamed field takes its new name, and an unrenamed `message` field that
/// echoes the message goes.
pub open spec fn shaped_field(
    f: (String, RValue),
    message: Seq<char>,
    skip: Seq<&str>,
    rename: Seq<(&str, &str)>,
) -> Option<(Seq<char>, RValue)> {
    if skips(skip, f.0@) {
        None
    } else {
        match rename_target(rename, f.0@) {
            Some(to) => Some((to, f.1)),
            None => if echoes_message(f.0@, f.1, message) {
                None
            } else {
                Some((f.0@, f.1))
            },
        }
    }
}

/// All serialized fields after `skip` and `rename`, in order.
pub open spec fn shaped_fields(
    fields: Seq<(String, RValue)>,
    message: Seq<char>,
    skip: Seq<&str>,
    rename: Seq<(&str, &str)>,
) -> Seq<(Seq<char>, RValue)>
    decreases fields.len(),
{
    if fields.len() == 0 {
        Seq::empty()
    } else {
        let rest = shaped_fields(fields.drop_last(), message, skip, rename);
        match shaped_field(fields.last(), message, skip, rename) {
            Some(p) => rest.push(p),
            None => rest,
        }
    }
}

/// The names of shaped fields.
pub open spec fn shaped_names(t: Seq<(Seq<char>, RValue)>) -> Seq<Seq<char>> {
    t.map_values(|p: (Seq<char>, RValue)| p.0)
}

/// Name `j` repeats an earlier name.
pub open spec fn repeats_earlier(names: Seq<Seq<char>>, j: int) -> bool {
    exists|i: int| 0 <= i < j && names[i] == names[j]
}

/// No name repeats.
pub open spec fn names_distinct(names: Seq<Seq<char>>) -> bool {
    forall|j: int| 0 <= j < names.len() ==> !#[trigger] repeats_earlier(names, j)
}

/// `j` is the first position whose name repeats an earlier one.
pub open spec fn first_repeat(names: Seq<Seq<char>>, j: int) -> bool {
    &&& 0 <= j < names.len()
    &&& repeats_earlier(names, j)
    &&& forall|k: int| 0 <= k < j ==> !#[trigger] repeats_earlier(names, k)
}

/// How a rename is quoted in a message: `` `rename(from = "to")` ``.
pub open spec fn rename_clause(p: (&str, &str)) -> Seq<char> {
    "`rename("@ + p.0@ + " = \""@ + p.1@ + "\")`"@
}

/// The quoted renames, among the first `n`, whose target is `name`.
pub open spec fn renames_onto(rename: Seq<(&str, &str)>, name: Seq<char>, n: nat) -> Seq<Seq<char>>
    decreases n,
{
    if n == 0 || n > rename.len() {
        Seq::empty()
    } else {
        let rest = renames_onto(rename, name, (n - 1) as nat);
        if rename[n - 1].1@ == name {
            rest.push(rename_clause(rename[n - 1]))
        } else {
            rest
        }
    }
}

/// The parts joined with `sep` between them.
pub open spec fn join(parts: Seq<Seq<char>>, sep: Seq<char>) -> Seq<char>
    decreases parts.len(),
{
    if parts.len() == 0 {
        Seq::empty()
    } else if parts.len() == 1 {
        parts[0]
    } else {
        join(parts.drop_last(), sep) + sep + parts.last()
    }
}

/// What rejecting a payload with two fields named `name` says: the renames
/// that produced the clash are named when there are any.
pub open spec fn duplicate_field_text(name: Seq<char>, rename: Seq<(&str, &str)>) -> Seq<char> {
    let rs = renames_onto(rename, name, rename.len());
    if rs.len() == 0 {
        "#[miniextendr(serde_error)]: condition data field `"@ + name
            + "` appears twice in the serialized payload; R's `e$"@ + name
            + "` would read only the first. Give the fields distinct names or `skip` one of them."@
    } else {
        "#[miniextendr(serde_error)]: condition data field `"@ + name + "` appears twice: "@ + join(
            rs,
            " and "@,
        ) + " targets a name this variant already carries; R's `e$"@ + name
            + "` would read only the first. Pick another target or `skip` the existing field."@
    }
}

/// The classes of a serialized error: `<prefix>_<member>` then `<prefix>`
/// when it names a variant, `<prefix>` alone otherwise.
pub open spec fn serde_classes(prefix: Seq<char>, member: Option<Seq<char>>) -> Seq<Seq<char>> {
    match member {
        Some(m) => seq![prefix + "_"@ + m, prefix],
        None => seq![prefix],
    }
}

/// Why building the parts of a serialized error fails, if it does: two
/// fields under one name first, then a reserved name.
pub open spec fn serde_parts_failure(
    t: Seq<(Seq<char>, RValue)>,
    rename: Seq<(&str, &str)>,
) -> Option<Seq<char>> {
    let names = shaped_names(t);
    if !names_distinct(names) {
        let j = choose|j: int| first_repeat(names, j);
        Some(duplicate_field_text(names[j], rename))
    } else if exists|k: int| 0 <= k < t.len() && is_reserved(t[k].0) {
        let k = choose|k: int|
            0 <= k < t.len() && is_reserved(t[k].0) && forall|i: int|
                0 <= i < k ==> !is_reserved(#[trigger] t[i].0);
        Some(reserved_field_text(t[k].0))
    } else {
        None
    }
}

/// The parts of a serialized error: its message, its classes, and its
/// shaped fields as data (`None` when none is left).
pub open spec fn serde_parts_fit(
    p: ErrParts,
    message: Seq<char>,
    member: Option<Seq<char>>,
    t: Seq<(Seq<char>, RValue)>,
    prefix: Seq<char>,
) -> bool {
    &&& p.message@ == message
    &&& strings_view(p.class@) == serde_classes(prefix, member)
    &&& if t.len() == 0 {
        p.data is None
    } else {
        p.data matches Some(d) && fields_view(d@) == t
    }
}

/// Whether `skip` lists `name`.
fn skip_lists(skip: &[&str], name: &str) -> (r: bool)
    ensures
        r == skips(skip@, name@),
{
    let mut i: usize = 0;
    while i < skip.len()
        invariant
            i <= skip@.len(),
            forall|k: int| 0 <= k < i ==> skip@[k]@ != name@,
        decreases skip@.len() - i,
    {
        if str_eq(skip[i], name) {
            return true;
        }
        i = i + 1;
    }
    false
}

/// The target of the first rename of `name`.
fn find_rename<'a>(rename: &[(&'a str, &'a str)], name: &str) -> (r: Option<&'a str>)
    ensures
        r matches Some(t) ==> rename_target(rename@, name@) == Some(t@),
        r is None ==> rename_target(rename@, name@) is None,
{
    let mut i: usize = 0;
    while i < rename.len()
        invariant
            i <= rename@.len(),
            rename_target(rename@, name@) == rename_target_from(rename@, name@, i as int),
        decreases rename@.len() - i,
    {
        let (from, to) = rename[i];
        if str_eq(from, name) {
            return Some(to);
        }
        i = i + 1;
    }
    None
}

/// Whether the field `(name, value)` echoes `message`.
fn echoes(name: &str, value: &RValue, message: &str) -> (r: bool)
    ensures
        r == echoes_message(name@, *value, message@),
{
    if !str_eq(name, "message") {
        return false;
    }
    match value {
        RValue::Character(v) => {
            if v.len() != 1 {
                return false;
            }
            match &v[0] {
                Some(s) => str_eq(s.as_str(), message),
                None => false,
            }
        },
        _ => false,
    }
}

/// The quoted renames whose target is `name`, joined with `" and "`.
fn joined_renames_onto(rename: &[(&str, &str)], name: &str) -> (r: (String, usize))
    ensures
        r.0@ == join(renames_onto(rename@, name@, rename@.len()), " and "@),
        r.1 == renames_onto(rename@, name@, rename@.len()).len(),
{
    let mut out = String::new();
    let mut count: usize = 0;
    let mut i: usize = 0;
    while i < rename.len()
        invariant
            i <= rename@.len(),
            count == renames_onto(rename@, name@, i as nat).len(),
            count <= i,
            out@ == join(renames_onto(rename@, name@, i as nat), " and "@),
        decreases rename@.len() - i,
    {
        let (from, to) = rename[i];
        if str_eq(to, name) {
            if count > 0 {
                push_str(&mut out, " and ");
            }
            push_str(&mut out, "`rename(");
            push_str(&mut out, from);
            push_str(&mut out, " = \"");
            push_str(&mut out, to);
            push_str(&mut out, "\")`");
            proof {
                let prev = renames_onto(rename@, name@, i as nat);
                let next = renames_onto(rename@, name@, (i + 1) as nat);
                assert(next == prev.push(rename_clause(rename@[i as int])));
                assert(next.drop_last() =~= prev);
                if count == 0 {
                    assert(prev.len() == 0);
                    assert(join(next, " and "@) == rename_clause(rename@[i as int]));
                    assert(out@ =~= rename_clause(rename@[i as int]));
                } else {
                    assert(out@ =~= join(prev, " and "@) + " and "@ + rename_clause(
                        rename@[i as int],
                    ));
                }
            }
            count = count + 1;
        }
        i = i + 1;
    }
    (out, count)
}

/// The message that rejects two fields named `name`.
fn duplicate_field_message(name: &str, rename: &[(&str, &str)]) -> (r: String)
    ensures
        r@ == duplicate_field_text(name@, rename@),
{
    let (joined, count) = joined_renames_onto(rename, name);
    let mut m = string_of("#[miniextendr(serde_error)]: condition data field `");
    push_str(&mut m, name);
    if count == 0 {
        push_str(&mut m, "` appears twice in the serialized payload; R's `e$");
        push_str(&mut m, name);
        push_str(
            &mut m,
            "` would read only the first. Give the fields distinct names or `skip` one of them.",
        );
    } else {
        push_str(&mut m, "` appears twice: ");
        push_str(&mut m, joined.as_str());
        push_str(&mut m, " targets a name this variant already carries; R's `e$");
        push_str(&mut m, name);
        push_str(
            &mut m,
            "` would read only the first. Pick another target or `skip` the existing field.",
        );
    }
    m
}

/// Position of the first field whose name repeats an earlier one.
fn first_repeated_field(fields: &[(String, RValue)]) -> (r: Option<usize>)
    ensures
        r is None <==> names_distinct(shaped_names(fields_view(fields@))),
        r matches Some(j) ==> first_repeat(shaped_names(fields_view(fields@)), j as int),
{
    let ghost names = shaped_names(fields_view(fields@));
    let mut j: usize = 0;
    while j < fields.len()
        invariant
            names == shaped_names(fields_view(fields@)),
            names.len() == fields@.len(),
            j <= fields@.len(),
            forall|k: int| 0 <= k < j ==> !#[trigger] repeats_earlier(names, k),
        decreases fields@.len() - j,
    {
        let mut i: usize = 0;
        while i < j
            invariant
                names == shaped_names(fields_view(fields@)),
                names.len() == fields@.len(),
                i <= j < fields@.len(),
                forall|k: int| 0 <= k < i ==> names[k] != names[j as int],
                forall|k: int| 0 <= k < j ==> !#[trigger] repeats_earlier(names, k),
            decreases j - i,
        {
            proof {
                assert(names[i as int] == fields@[i as int].0@);
                assert(names[j as int] == fields@[j as int].0@);
            }
            if str_eq(fields[i].0.as_str(), fields[j].0.as_str()) {
                proof {
                    assert(repeats_earlier(names, j as int));
                }
                return Some(j);
            }
            i = i + 1;
        }
        j = j + 1;
    }
    None
}

/// The serialized fields after `skip` and `rename` (see [`shaped_fields`]).
fn shape_fields(fields: ConditionData, message: &str, skip: &[&str], rename: &[(&str, &str)]) -> (r:
    ConditionData)
    ensures
        fields_view(r@) == shaped_fields(fields@, message@, skip@, rename@),
{
    let ghost orig = fields@;
    let mut rest = fields;
    let total: usize = rest.len();
    let mut out: ConditionData = Vec::new();
    let mut done: usize = 0;
    while rest.len() > 0
        invariant
            done + rest@.len() == orig.len(),
            orig.len() == total,
            rest@ == orig.subrange(done as int, orig.len() as int),
            fields_view(out@) == shaped_fields(orig.subrange(0, done as int), message@, skip@, rename@),
        decreases rest@.len(),
    {
        let ghost f = rest@[0];
        let (name, value) = rest.remove(0);
        proof {
            assert(orig.subrange(0, done + 1).drop_last() =~= orig.subrange(0, done as int));
            assert(orig.subrange(0, done + 1).last() == f);
            assert(rest@ =~= orig.subrange(done + 1, orig.len() as int));
        }
        let ghost prev = out@;
        if !skip_lists(skip, name.as_str()) {
            match find_rename(rename, name.as_str()) {
                Some(to) => {
                    out.push((string_of(to), value));
                },
                None => {
                    if !echoes(name.as_str(), &value, message) {
                        out.push((name, value));
                    }
                },
            }
        }
        proof {
            if out@.len() > prev.len() {
                assert(out@.drop_last() == prev);
                assert(fields_view(out@) =~= fields_view(prev).push(fields_view(out@).last()));
            } else {
                assert(out@ == prev);
            }
        }
        done = done + 1;
    }
    proof {
        assert(orig.subrange(0, orig.len() as int) =~= orig);
    }
    out
}

/// The parts of a serialized `Result` error raised as a classed condition,
/// or the message of the panic that rejects it.
///
/// `message` is the error's `Display`; `member` the variant the serialized
/// value names (for an internally tagged enum, the `tag` field's value; for
/// an externally tagged one, the variant name), `None` for a plain value;
/// `fields` the serialized fields in order. Classes are
/// `[<prefix>_<member>, <prefix>]`, or `[<prefix>]` without a member. The
/// fields named in `skip` are dropped; a field named by a `rename` pair
/// `(from, to)` is spliced as `to`; an unrenamed `message` field holding
/// exactly `message` is dropped. After that the names must be distinct and
/// none may be `message`, `call` or `kind`.
pub fn try_serde_err_parts(
    message: String,
    member: Option<String>,
    fields: ConditionData,
    prefix: &str,
    skip: &[&str],
    rename: &[(&str, &str)],
) -> (r: Result<ErrParts, String>)
    ensures
        ({
            let t = shaped_fields(fields@, message@, skip@, rename@);
            &&& r is Ok <==> serde_parts_failure(t, rename@) is None
            &&& r matches Ok(p) ==> serde_parts_fit(p, message@, opt_str_view(member), t, prefix@)
            &&& r matches Err(m) ==> serde_parts_failure(t, rename@) == Some(m@)
        }),
{
    let ghost orig = fields@;
    let mut class: Vec<String> = Vec::new();
    match member {
        Some(m) => {
            let mut c = string_of(prefix);
            push_str(&mut c, "_");
            push_str(&mut c, m.as_str());
            class.push(c);
        },
        None => {},
    }
    class.push(string_of(prefix));
    proof {
        assert(strings_view(class@) =~= serde_classes(prefix@, opt_str_view(member)));
    }
    let out = shape_fields(fields, message.as_str(), skip, rename);
    let ghost t = shaped_fields(orig, message@, skip@, rename@);
    match parts_failure(out.as_slice(), rename) {
        Some(m) => {
            return Err(m);
        },
        None => {},
    }
    proof {
        assert forall|k: int| 0 <= k < t.len() implies !is_reserved(t[k].0) by {
            assert(t[k].0 == out@[k].0@);
        }
    }
    let data = if out.len() == 0 {
        None
    } else {
        Some(out)
    };
    Ok(ErrParts { message, class, data })
}

/// Two fields under one name, after `skip` and `rename`, would leave the
/// second unreachable from R (`e$<name>` reads the first): the message that
/// rejects the first repeated name, `None` when the names are distinct.
fn check_distinct_field_names(fields: &[(String, RValue)], rename: &[(&str, &str)]) -> (r: Option<
    String,
>)
    ensures
        r is None <==> names_distinct(shaped_names(fields_view(fields@))),
        r matches Some(m) ==> ({
            let names = shaped_names(fields_view(fields@));
            m@ == duplicate_field_text(names[choose|j: int| first_repeat(names, j)], rename@)
        }),
{
    let ghost t = fields_view(fields@);
    match first_repeated_field(fields) {
        Some(j) => {
            let m = duplicate_field_message(fields[j].0.as_str(), rename);
            proof {
                let names = shaped_names(t);
                assert(!names_distinct(names));
                let c = choose|c: int| first_repeat(names, c);
                assert(c == j) by {
                    if c < j {
                        assert(!repeats_earlier(names, c));
                    } else if j < c {
                        assert(!repeats_earlier(names, j as int));
                    }
                }
                assert(names[j as int] == fields@[j as int].0@);
            }
            return Some(m);
        },
        None => {},
    }
    None
}

/// Why the shaped fields cannot become condition data, if they cannot.
fn parts_failure(out: &[(String, RValue)], rename: &[(&str, &str)]) -> (r: Option<String>)
    ensures
        r is None <==> serde_parts_failure(fields_view(out@), rename@) is None,
        r matches Some(m) ==> serde_parts_failure(fields_view(out@), rename@) == Some(m@),
        r is None ==> no_reserved(out@),
{
    let ghost t = fields_view(out@);
    match check_distinct_field_names(out, rename) {
        Some(m) => {
            return Some(m);
        },
        None => {},
    }
    match first_reserved_field(out) {
        Some(k) => {
            let m = reserved_field_message(out[k].0.as_str());
            proof {
                assert(t[k as int].0 == out@[k as int].0@);
                assert(0 <= k < t.len() && is_reserved(t[k as int].0));
                assert forall|i: int| 0 <= i < k implies !is_reserved(#[trigger] t[i].0) by {
                    assert(out@.subrange(0, k as int)[i] == out@[i]);
                    assert(t[i].0 == out@[i].0@);
                }
                let c = choose|c: int|
                    0 <= c < t.len() && is_reserved(t[c].0) && forall|i: int|
                        0 <= i < c ==> !is_reserved(#[trigger] t[i].0);
                assert(c == k) by {
                    if c < k {
                        assert(!is_reserved(t[c].0));
                    } else if k < c {
                        assert(!is_reserved(t[k as int].0));
                    }
                }
            }
            return Some(m);
        },
        None => {},
    }
    proof {
        assert forall|k: int| 0 <= k < t.len() implies !is_reserved(t[k].0) by {
            assert(t[k].0 == out@[k].0@);
        }
    }
    None
}

/// The parts of a serialized `Result` error raised as a classed condition
/// (see [`try_serde_err_parts`] for how they are built), for payloads that
/// build: distinct field names, none reserved.
pub fn serde_err_parts(
    message: String,
    member: Option<String>,
    fields: ConditionData,
    prefix: &str,
    skip: &[&str],
    rename: &[(&str, &str)],
) -> (r: ErrParts)
    requires
        serde_parts_failure(shaped_fields(fields@, message@, skip@, rename@), rename@) is None,
    ensures
        serde_parts_fit(
            r,
            message@,
            opt_str_view(member),
            shaped_fields(fields@, message@, skip@, rename@),
            prefix@,
        ),
{
    match try_serde_err_parts(message, member, fields, prefix, skip, rename) {
        Ok(p) => p,
        Err(_) => {
            proof {
                assert(false);
            }
            ErrParts { message: String::new(), class: Vec::new(), data: None }
        },
    }
}

/// The data of the parts built from a serialized error never holds a
/// reserved field name (`message`, `call`, `kind`), nor two fields under one
/// name.
pub proof fn lemma_serde_parts_data_clean(
    p: ErrParts,
    message: Seq<char>,
    member: Option<Seq<char>>,
    t: Seq<(Seq<char>, RValue)>,
    prefix: Seq<char>,
    rename: Seq<(&str, &str)>,
)
    requires
        serde_parts_failure(t, rename) is None,
        serde_parts_fit(p, message, member, t, prefix),
    ensures
        p.data matches Some(d) ==> no_reserved(d@) && names_distinct(shaped_names(fields_view(d@))),
        strings_view(p.class@).last() == prefix,
{
    if p.data is Some {
        let d = p.data->0;
        assert forall|i: int| 0 <= i < d@.len() implies !is_reserved(#[trigger] d@[i].0@) by {
            assert(fields_view(d@)[i].0 == d@[i].0@);
            if is_reserved(t[i].0) {
                assert(exists|k: int| 0 <= k < t.len() && is_reserved(t[k].0));
            }
        }
    }
}

/// A tagged value of one of the error kinds (`error`, `panic`,
/// `result_err`, `none_err`, `other_rust_error`) reconstructs as an error
/// whose message is the message slot, unprefixed; a `warning`, `message` or
/// `condition` value as that condition with the message slot.
pub proof fn lemma_known_kinds_keep_message(s: Sexp, c: RCondition)
    requires
        reconstructs(c, s),
    ensures
        tagged_kind(s) == "error"@ || tagged_kind(s) == "panic"@ || tagged_kind(s) == "result_err"@
            || tagged_kind(s) == "none_err"@ || tagged_kind(s) == "other_rust_error"@ ==> (c matches RCondition::Error { message, .. }
            && message@ == tagged_message(s)),
        tagged_kind(s) == "warning"@ ==> (c matches RCondition::Warning { message, .. } && message@
            == tagged_message(s)),
        tagged_kind(s) == "message"@ ==> (c matches RCondition::Message { message, .. } && message@
            == tagged_message(s)),
        tagged_kind(s) == "condition"@ ==> (c matches RCondition::Condition { message, .. }
            && message@ == tagged_message(s)),
{
    reveal_strlit("error");
    reveal_strlit("panic");
    reveal_strlit("result_err");
    reveal_strlit("none_err");
    reveal_strlit("other_rust_error");
    reveal_strlit("warning");
    reveal_strlit("message");
    reveal_strlit("condition");
    assert("error"@.len() == 5 && "panic"@.len() == 5 && "result_err"@.len() == 10);
    assert("none_err"@.len() == 8 && "other_rust_error"@.len() == 16);
    assert("warning"@.len() == 7 && "message"@.len() == 7 && "condition"@.len() == 9);
    assert("warning"@[0] != "message"@[0]);
}

/// A tagged value of any other kind reconstructs as an error whose message
/// is the kind in brackets, then the message slot.
pub proof fn lemma_unknown_kind_is_prefixed(s: Sexp, c: RCondition)
    requires
        reconstructs(c, s),
        tagged_kind(s) != "error"@,
        tagged_kind(s) != "panic"@,
        tagged_kind(s) != "result_err"@,
        tagged_kind(s) != "none_err"@,
        tagged_kind(s) != "other_rust_error"@,
        tagged_kind(s) != "warning"@,
        tagged_kind(s) != "message"@,
        tagged_kind(s) != "condition"@,
    ensures
        c matches RCondition::Error { message, .. } && message@ == "["@ + tagged_kind(s) + "] "@
            + tagged_message(s),
{
}

/// A single string class stands for exactly itself, as the one-element
/// array of it does.
pub proof fn lemma_single_class(c: &str, a: [&str; 1])
    requires
        a@[0]@ == c@,
    ensures
        c.condition_classes().len() == 1,
        c.condition_classes()[0] == c@,
        c.condition_classes() == a.condition_classes(),
{
    assert(a.condition_classes() =~= seq![c@]);
}

/// Giving an error a single string class appends exactly that class to the
/// ones it had.
pub proof fn lemma_class_appends_one(before: Seq<Seq<char>>, after: Seq<Seq<char>>, c: &str)
    requires
        after == before + c.condition_classes(),
    ensures
        after.len() == before.len() + 1,
        after.last() == c@,
        after.drop_last() == before,
{
    assert(after.drop_last() =~= before);
}
/// A single owned class, or a reference to one, stands for exactly itself.
pub proof fn lemma_single_owned_class(c: String)
    ensures
        c.condition_classes() == seq![c@],
        (&c).condition_classes() == seq![c@],
{
}
} // verus!
