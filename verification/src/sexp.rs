//! Owned model of an R object (`SEXP`).
//!
//! An R object is a typed payload plus a set of named attributes. The model
//! keeps R's own representation of the payload: logical and integer vectors
//! are `i32` with `i32::MIN` as `NA`, double vectors are kept as their IEEE-754
//! bit patterns (so `NA_real_` stays distinguishable from other NaNs), and a
//! character vector element is `None` for `NA_character_`.
//!
//! Attribute names are unique (setting an attribute replaces the previous
//! value, setting it to `NULL` removes it), which the type invariant records.
use crate::text::str_eq;
use vstd::prelude::*;

verus! {

/// R's object type tags.
#[derive(Debug, Clone, Copy, PartialEq, Eq, Structural)]
pub enum SEXPTYPE {
    NILSXP,
    SYMSXP,
    LISTSXP,
    CLOSXP,
    ENVSXP,
    PROMSXP,
    LANGSXP,
    SPECIALSXP,
    BUILTINSXP,
    CHARSXP,
    LGLSXP,
    INTSXP,
    REALSXP,
    CPLXSXP,
    STRSXP,
    DOTSXP,
    ANYSXP,
    VECSXP,
    EXPRSXP,
    BCODESXP,
    EXTPTRSXP,
    WEAKREFSXP,
    RAWSXP,
    S4SXP,
}

/// `NA_integer_`.
pub const NA_INTEGER: i32 = -2147483648i32;

/// `NA` of a logical vector.
pub const NA_LOGICAL: i32 = -2147483648i32;

/// Bit pattern of `NA_real_` (a NaN whose low word is 1954).
pub const NA_REAL_BITS: u64 = 0x7FF0_0000_0000_07A2u64;

impl SEXPTYPE {
    /// The tag's name as `{:?}` prints it.
    pub open spec fn spec_name(self) -> Seq<char> {
        match self {
            SEXPTYPE::NILSXP => "NILSXP"@,
            SEXPTYPE::SYMSXP => "SYMSXP"@,
            SEXPTYPE::LISTSXP => "LISTSXP"@,
            SEXPTYPE::CLOSXP => "CLOSXP"@,
            SEXPTYPE::ENVSXP => "ENVSXP"@,
            SEXPTYPE::PROMSXP => "PROMSXP"@,
            SEXPTYPE::LANGSXP => "LANGSXP"@,
            SEXPTYPE::SPECIALSXP => "SPECIALSXP"@,
            SEXPTYPE::BUILTINSXP => "BUILTINSXP"@,
            SEXPTYPE::CHARSXP => "CHARSXP"@,
            SEXPTYPE::LGLSXP => "LGLSXP"@,
            SEXPTYPE::INTSXP => "INTSXP"@,
            SEXPTYPE::REALSXP => "REALSXP"@,
            SEXPTYPE::CPLXSXP => "CPLXSXP"@,
            SEXPTYPE::STRSXP => "STRSXP"@,
            SEXPTYPE::DOTSXP => "DOTSXP"@,
            SEXPTYPE::ANYSXP => "ANYSXP"@,
            SEXPTYPE::VECSXP => "VECSXP"@,
            SEXPTYPE::EXPRSXP => "EXPRSXP"@,
            SEXPTYPE::BCODESXP => "BCODESXP"@,
            SEXPTYPE::EXTPTRSXP => "EXTPTRSXP"@,
            SEXPTYPE::WEAKREFSXP => "WEAKREFSXP"@,
            SEXPTYPE::RAWSXP => "RAWSXP"@,
            SEXPTYPE::S4SXP => "S4SXP"@,
        }
    }

    /// The tag's name as `{:?}` prints it.
    pub fn name(self) -> (r: &'static str)
        ensures
            r@ == self.spec_name(),
    {
        match self {
            SEXPTYPE::NILSXP => "NILSXP",
            SEXPTYPE::SYMSXP => "SYMSXP",
            SEXPTYPE::LISTSXP => "LISTSXP",
            SEXPTYPE::CLOSXP => "CLOSXP",
            SEXPTYPE::ENVSXP => "ENVSXP",
            SEXPTYPE::PROMSXP => "PROMSXP",
            SEXPTYPE::LANGSXP => "LANGSXP",
            SEXPTYPE::SPECIALSXP => "SPECIALSXP",
            SEXPTYPE::BUILTINSXP => "BUILTINSXP",
            SEXPTYPE::CHARSXP => "CHARSXP",
            SEXPTYPE::LGLSXP => "LGLSXP",
            SEXPTYPE::INTSXP => "INTSXP",
            SEXPTYPE::REALSXP => "REALSXP",
            SEXPTYPE::CPLXSXP => "CPLXSXP",
            SEXPTYPE::STRSXP => "STRSXP",
            SEXPTYPE::DOTSXP => "DOTSXP",
            SEXPTYPE::ANYSXP => "ANYSXP",
            SEXPTYPE::VECSXP => "VECSXP",
            SEXPTYPE::EXPRSXP => "EXPRSXP",
            SEXPTYPE::BCODESXP => "BCODESXP",
            SEXPTYPE::EXTPTRSXP => "EXTPTRSXP",
            SEXPTYPE::WEAKREFSXP => "WEAKREFSXP",
            SEXPTYPE::RAWSXP => "RAWSXP",
            SEXPTYPE::S4SXP => "S4SXP",
        }
    }
}

/// An element of a logical vector: `1` is `TRUE`, `0` is `FALSE`, and
/// [`NA_LOGICAL`] is `NA`.
#[derive(Debug, Clone, Copy, PartialEq, Eq, Structural)]
pub struct RLogical(pub i32);

impl RLogical {
    /// `TRUE`.
    pub fn r_true() -> (r: RLogical)
        ensures
            r.0 == 1,
    {
        RLogical(1)
    }

    /// `FALSE`.
    pub fn r_false() -> (r: RLogical)
        ensures
            r.0 == 0,
    {
        RLogical(0)
    }

    /// `NA`.
    pub fn na() -> (r: RLogical)
        ensures
            r.0 == NA_LOGICAL,
    {
        RLogical(NA_LOGICAL)
    }

    /// The stored `i32`.
    pub fn to_i32(self) -> (r: i32)
        ensures
            r == self.0,
    {
        self.0
    }

    /// Whether this is `NA`.
    pub fn is_na(self) -> (r: bool)
        ensures
            r == (self.0 == NA_LOGICAL),
    {
        self.0 == NA_LOGICAL
    }

    /// `TRUE` or `FALSE` from a `bool`.
    pub fn from_bool(b: bool) -> (r: RLogical)
        ensures
            r.0 == (if b { 1i32 } else { 0i32 }),
    {
        if b {
            RLogical(1)
        } else {
            RLogical(0)
        }
    }
}

/// The payload of an R object.
#[derive(Debug, PartialEq)]
pub enum SexpData {
    /// `NULL`.
    Nil,
    /// `LGLSXP`: `1` is `TRUE`, `0` is `FALSE`, [`NA_LOGICAL`] is `NA`.
    Logical(Vec<i32>),
    /// `INTSXP`: [`NA_INTEGER`] is `NA`.
    Integer(Vec<i32>),
    /// `REALSXP`, each element as its IEEE-754 bits.
    Real(Vec<u64>),
    /// `RAWSXP`.
    Raw(Vec<u8>),
    /// `STRSXP`: `None` is `NA_character_`.
    Character(Vec<Option<String>>),
    /// `VECSXP` (generic list).
    List(Vec<Sexp>),
    /// `LISTSXP` (pairlist); names live in the `names` attribute.
    PairList(Vec<Sexp>),
    /// `SYMSXP` with its print name.
    Symbol(String),
    /// `ENVSXP` of one of R's fixed environments, by its identity.
    Environment(u64),
    /// Any other object, known only by its type (environments, closures,
    /// external pointers, ...).
    Opaque(SEXPTYPE),
}

/// One named attribute.
#[derive(Debug, PartialEq)]
pub struct Attribute {
    pub(crate) name: String,
    pub(crate) value: Sexp,
}

/// An R object: payload and attributes.
#[derive(Debug, PartialEq)]
pub struct Sexp {
    pub(crate) data: SexpData,
    pub(crate) attrs: Vec<Attribute>,
}

/// The types that carry a payload of their own in [`SexpData`]; the rest can
/// only be [`SexpData::Opaque`].
pub open spec fn is_payload_type(t: SEXPTYPE) -> bool {
    ||| t == SEXPTYPE::NILSXP
    ||| t == SEXPTYPE::LGLSXP
    ||| t == SEXPTYPE::INTSXP
    ||| t == SEXPTYPE::REALSXP
    ||| t == SEXPTYPE::RAWSXP
    ||| t == SEXPTYPE::STRSXP
    ||| t == SEXPTYPE::VECSXP
    ||| t == SEXPTYPE::LISTSXP
    ||| t == SEXPTYPE::SYMSXP
}

/// Executable form of [`is_payload_type`].
pub fn payload_type(t: SEXPTYPE) -> (r: bool)
    ensures
        r == is_payload_type(t),
{
    match t {
        SEXPTYPE::NILSXP | SEXPTYPE::LGLSXP | SEXPTYPE::INTSXP | SEXPTYPE::REALSXP
        | SEXPTYPE::RAWSXP | SEXPTYPE::STRSXP | SEXPTYPE::VECSXP | SEXPTYPE::LISTSXP
        | SEXPTYPE::SYMSXP => true,
        _ => false,
    }
}

/// A copy of the elements of `v`.
pub fn copy_slice<T: Copy>(v: &[T]) -> (r: Vec<T>)
    ensures
        r@ == v@,
{
    let mut r: Vec<T> = Vec::new();
    let mut i: usize = 0;
    while i < v.len()
        invariant
            i <= v@.len(),
            r@ == v@.subrange(0, i as int),
        decreases v@.len() - i,
    {
        r.push(v[i]);
        i = i + 1;
    }
    proof {
        assert(v@.subrange(0, v@.len() as int) =~= v@);
    }
    r
}

/// Text with no NUL character (what a C string can hold).
pub open spec fn no_nul_text(s: Seq<char>) -> bool {
    forall|i: int| 0 <= i < s.len() ==> s[i] != '\0'
}

/// The view of one character-vector element: `None` for `NA_character_`.
pub open spec fn opt_str_view(o: Option<String>) -> Option<Seq<char>> {
    match o {
        Some(s) => Some(s@),
        None => None,
    }
}

/// The view of a character vector: `None` for `NA_character_`.
pub open spec fn opt_strs_view(v: Seq<Option<String>>) -> Seq<Option<Seq<char>>> {
    v.map_values(|o: Option<String>| opt_str_view(o))
}

/// The name of element `i` of `s`, from its `names` attribute (`None` when
/// there is none or it is `NA`).
pub open spec fn name_at(s: Sexp, i: int) -> Option<Seq<char>> {
    match s.attr("names"@) {
        Some(n) => if n.stype() == SEXPTYPE::STRSXP && 0 <= i < n.strs().len() {
            n.strs()[i]
        } else {
            None
        },
        None => None,
    }
}

/// No two attributes share a name.
spec fn distinct_names(attrs: Seq<Attribute>) -> bool {
    forall|i: int, j: int| 0 <= i < j < attrs.len() ==> attrs[i].name@ != attrs[j].name@
}

/// First position in `attrs` whose name is `name`.
spec fn attr_pos(attrs: Seq<Attribute>, name: Seq<char>, i: int) -> bool {
    &&& 0 <= i < attrs.len()
    &&& attrs[i].name@ == name
}

impl Sexp {
    #[verifier::type_invariant]
    closed spec fn inv(self) -> bool {
        &&& distinct_names(self.attrs@)
        &&& forall|i: int| 0 <= i < self.attrs@.len() ==> !(self.attrs@[i].value.data is Nil)
    }

    /// The object's type.
    pub closed spec fn stype(self) -> SEXPTYPE {
        match self.data {
            SexpData::Nil => SEXPTYPE::NILSXP,
            SexpData::Logical(_) => SEXPTYPE::LGLSXP,
            SexpData::Integer(_) => SEXPTYPE::INTSXP,
            SexpData::Real(_) => SEXPTYPE::REALSXP,
            SexpData::Raw(_) => SEXPTYPE::RAWSXP,
            SexpData::Character(_) => SEXPTYPE::STRSXP,
            SexpData::List(_) => SEXPTYPE::VECSXP,
            SexpData::PairList(_) => SEXPTYPE::LISTSXP,
            SexpData::Symbol(_) => SEXPTYPE::SYMSXP,
            SexpData::Environment(_) => SEXPTYPE::ENVSXP,
            SexpData::Opaque(t) => if is_payload_type(t) {
                SEXPTYPE::ANYSXP
            } else {
                t
            },
        }
    }

    /// `xlength()`: element count of a vector, 0 for `NULL`, 1 otherwise.
    pub closed spec fn slen(self) -> nat {
        match self.data {
            SexpData::Nil => 0,
            SexpData::Logical(v) => v@.len(),
            SexpData::Integer(v) => v@.len(),
            SexpData::Real(v) => v@.len(),
            SexpData::Raw(v) => v@.len(),
            SexpData::Character(v) => v@.len(),
            SexpData::List(v) => v@.len(),
            SexpData::PairList(v) => v@.len(),
            SexpData::Symbol(_) => 1,
            SexpData::Environment(_) => 1,
            SexpData::Opaque(_) => 1,
        }
    }

    /// Elements of a logical or integer vector (empty for other types).
    pub closed spec fn ints(self) -> Seq<i32> {
        match self.data {
            SexpData::Logical(v) => v@,
            SexpData::Integer(v) => v@,
            _ => Seq::empty(),
        }
    }

    /// Elements of a double vector as bits (empty for other types).
    pub closed spec fn reals(self) -> Seq<u64> {
        match self.data {
            SexpData::Real(v) => v@,
            _ => Seq::empty(),
        }
    }

    /// Elements of a raw vector (empty for other types).
    pub closed spec fn raws(self) -> Seq<u8> {
        match self.data {
            SexpData::Raw(v) => v@,
            _ => Seq::empty(),
        }
    }

    /// Elements of a character vector (empty for other types).
    pub closed spec fn str_elems(self) -> Seq<Option<String>> {
        match self.data {
            SexpData::Character(v) => v@,
            _ => Seq::empty(),
        }
    }

    /// Elements of a character vector as text (empty for other types).
    pub open spec fn strs(self) -> Seq<Option<Seq<char>>> {
        opt_strs_view(self.str_elems())
    }

    /// Elements of a list or pairlist (empty for other types).
    pub closed spec fn elems(self) -> Seq<Sexp> {
        match self.data {
            SexpData::List(v) => v@,
            SexpData::PairList(v) => v@,
            _ => Seq::empty(),
        }
    }

    /// Print name of a symbol (empty for other types).
    pub closed spec fn sym(self) -> Seq<char> {
        match self.data {
            SexpData::Symbol(s) => s@,
            _ => Seq::empty(),
        }
    }

    /// Identity of one of R's fixed environments (`None` for other objects).
    pub closed spec fn env_id(self) -> Option<u64> {
        match self.data {
            SexpData::Environment(id) => Some(id),
            _ => None,
        }
    }

    /// The attribute named `name`, if set.
    pub closed spec fn attr(self, name: Seq<char>) -> Option<Sexp> {
        if exists|i: int| attr_pos(self.attrs@, name, i) {
            Some(self.attrs@[choose|i: int| attr_pos(self.attrs@, name, i)].value)
        } else {
            None
        }
    }

    /// Number of attributes set.
    pub closed spec fn attr_count(self) -> nat {
        self.attrs@.len()
    }

    /// The payload of `self` agrees with `other` (type, elements) whatever
    /// the attributes.
    pub open spec fn same_payload(self, other: Sexp) -> bool {
        &&& self.stype() == other.stype()
        &&& self.slen() == other.slen()
        &&& self.ints() == other.ints()
        &&& self.reals() == other.reals()
        &&& self.raws() == other.raws()
        &&& self.strs() == other.strs()
        &&& self.elems() == other.elems()
        &&& self.sym() == other.sym()
    }

    /// A fresh object has no attributes.
    pub open spec fn bare(self) -> bool {
        self.attr_count() == 0
    }

    /// An object without attributes has no attribute of any name.
    pub proof fn lemma_bare_attrs(self)
        requires
            self.bare(),
        ensures
            forall|n: Seq<char>| #[trigger] self.attr(n) is None,
    {
    }

    /// A payload-only object never has the type of another payload kind.
    pub proof fn lemma_type_consistent(self)
        ensures
            self.stype() == SEXPTYPE::NILSXP ==> self.slen() == 0,
            self.stype() != SEXPTYPE::INTSXP && self.stype() != SEXPTYPE::LGLSXP ==> self.ints()
                == Seq::<i32>::empty(),
            self.stype() != SEXPTYPE::VECSXP && self.stype() != SEXPTYPE::LISTSXP ==> self.elems()
                == Seq::<Sexp>::empty(),
            self.stype() != SEXPTYPE::STRSXP ==> self.str_elems() == Seq::<Option<String>>::empty(),
            self.stype() != SEXPTYPE::STRSXP ==> self.strs() == Seq::<Option<Seq<char>>>::empty(),
            self.stype() != SEXPTYPE::REALSXP ==> self.reals() == Seq::<u64>::empty(),
            self.stype() != SEXPTYPE::RAWSXP ==> self.raws() == Seq::<u8>::empty(),
            self.stype() == SEXPTYPE::INTSXP || self.stype() == SEXPTYPE::LGLSXP ==> self.slen()
                == self.ints().len(),
            self.stype() == SEXPTYPE::VECSXP || self.stype() == SEXPTYPE::LISTSXP ==> self.slen()
                == self.elems().len(),
            self.stype() == SEXPTYPE::STRSXP ==> self.slen() == self.str_elems().len(),
            self.stype() == SEXPTYPE::STRSXP ==> self.slen() == self.strs().len(),
            self.stype() == SEXPTYPE::REALSXP ==> self.slen() == self.reals().len(),
            self.stype() == SEXPTYPE::RAWSXP ==> self.slen() == self.raws().len(),
    {
        assert(opt_strs_view(Seq::<Option<String>>::empty()) =~= Seq::empty());
    }

    fn from_data(data: SexpData) -> (r: Sexp)
        requires
            match data {
                SexpData::Opaque(t) => !is_payload_type(t),
                _ => true,
            },
        ensures
            r.data == data,
            r.attrs@.len() == 0,
    {
        Sexp { data, attrs: Vec::new() }
    }

    /// `R_NilValue`.
    pub fn nil() -> (r: Sexp)
        ensures
            r.stype() == SEXPTYPE::NILSXP,
            r.slen() == 0,
            r.bare(),
    {
        Sexp::from_data(SexpData::Nil)
    }

    /// A logical vector with the given elements.
    pub fn logical(v: Vec<i32>) -> (r: Sexp)
        ensures
            r.stype() == SEXPTYPE::LGLSXP,
            r.ints() == v@,
            r.slen() == v@.len(),
            r.bare(),
    {
        Sexp::from_data(SexpData::Logical(v))
    }

    /// An integer vector with the given elements.
    pub fn integer(v: Vec<i32>) -> (r: Sexp)
        ensures
            r.stype() == SEXPTYPE::INTSXP,
            r.ints() == v@,
            r.slen() == v@.len(),
            r.bare(),
    {
        Sexp::from_data(SexpData::Integer(v))
    }

    /// A double vector whose elements have the given bit patterns.
    pub fn real_bits(v: Vec<u64>) -> (r: Sexp)
        ensures
            r.stype() == SEXPTYPE::REALSXP,
            r.reals() == v@,
            r.slen() == v@.len(),
            r.bare(),
    {
        Sexp::from_data(SexpData::Real(v))
    }

    /// A raw vector.
    pub fn raw(v: Vec<u8>) -> (r: Sexp)
        ensures
            r.stype() == SEXPTYPE::RAWSXP,
            r.raws() == v@,
            r.slen() == v@.len(),
            r.bare(),
    {
        Sexp::from_data(SexpData::Raw(v))
    }

    /// A character vector (`None` is `NA_character_`).
    pub fn character(v: Vec<Option<String>>) -> (r: Sexp)
        ensures
            r.stype() == SEXPTYPE::STRSXP,
            r.str_elems() == v@,
            r.strs() == opt_strs_view(v@),
            r.slen() == v@.len(),
            r.bare(),
    {
        Sexp::from_data(SexpData::Character(v))
    }

    /// A generic list (`VECSXP`) holding the given elements.
    pub fn list(v: Vec<Sexp>) -> (r: Sexp)
        ensures
            r.stype() == SEXPTYPE::VECSXP,
            r.elems() == v@,
            r.slen() == v@.len(),
            r.bare(),
    {
        Sexp::from_data(SexpData::List(v))
    }

    /// A pairlist (`LISTSXP`) holding the given elements.
    pub fn pairlist(v: Vec<Sexp>) -> (r: Sexp)
        ensures
            r.stype() == SEXPTYPE::LISTSXP,
            r.elems() == v@,
            r.slen() == v@.len(),
            r.bare(),
    {
        Sexp::from_data(SexpData::PairList(v))
    }

    /// A symbol with the given print name.
    pub fn symbol(name: String) -> (r: Sexp)
        ensures
            r.stype() == SEXPTYPE::SYMSXP,
            r.sym() == name@,
            r.slen() == 1,
            r.bare(),
    {
        Sexp::from_data(SexpData::Symbol(name))
    }

    /// The fixed environment with identity `id`.
    pub fn environment(id: u64) -> (r: Sexp)
        ensures
            r.stype() == SEXPTYPE::ENVSXP,
            r.env_id() == Some(id),
            r.slen() == 1,
            r.bare(),
    {
        Sexp::from_data(SexpData::Environment(id))
    }

    /// An object known only by its type (an environment, a closure, ...).
    pub fn opaque(t: SEXPTYPE) -> (r: Sexp)
        requires
            !is_payload_type(t),
        ensures
            r.stype() == t,
            r.slen() == 1,
            r.bare(),
    {
        Sexp::from_data(SexpData::Opaque(t))
    }

    /// A length-one integer vector.
    pub fn scalar_integer(x: i32) -> (r: Sexp)
        ensures
            r.stype() == SEXPTYPE::INTSXP,
            r.ints() == seq![x],
            r.slen() == 1,
            r.bare(),
    {
        let mut v = Vec::new();
        v.push(x);
        Sexp::integer(v)
    }

    /// A length-one logical vector.
    pub fn scalar_logical(x: i32) -> (r: Sexp)
        ensures
            r.stype() == SEXPTYPE::LGLSXP,
            r.ints() == seq![x],
            r.slen() == 1,
            r.bare(),
    {
        let mut v = Vec::new();
        v.push(x);
        Sexp::logical(v)
    }

    /// A length-one raw vector.
    pub fn scalar_raw(x: u8) -> (r: Sexp)
        ensures
            r.stype() == SEXPTYPE::RAWSXP,
            r.raws() == seq![x],
            r.slen() == 1,
            r.bare(),
    {
        let mut v = Vec::new();
        v.push(x);
        Sexp::raw(v)
    }

    /// A length-one character vector (`None` is `NA_character_`).
    pub fn scalar_string(x: Option<String>) -> (r: Sexp)
        ensures
            r.stype() == SEXPTYPE::STRSXP,
            r.strs() == seq![opt_str_view(x)],
            r.slen() == 1,
            r.bare(),
    {
        let mut v = Vec::new();
        v.push(x);
        let r = Sexp::character(v);
        proof {
            assert(opt_strs_view(v@) =~= seq![opt_str_view(x)]);
        }
        r
    }

    /// The object's type (`TYPEOF`).
    pub fn type_of(&self) -> (r: SEXPTYPE)
        ensures
            r == self.stype(),
    {
        match &self.data {
            SexpData::Nil => SEXPTYPE::NILSXP,
            SexpData::Logical(_) => SEXPTYPE::LGLSXP,
            SexpData::Integer(_) => SEXPTYPE::INTSXP,
            SexpData::Real(_) => SEXPTYPE::REALSXP,
            SexpData::Raw(_) => SEXPTYPE::RAWSXP,
            SexpData::Character(_) => SEXPTYPE::STRSXP,
            SexpData::List(_) => SEXPTYPE::VECSXP,
            SexpData::PairList(_) => SEXPTYPE::LISTSXP,
            SexpData::Symbol(_) => SEXPTYPE::SYMSXP,
            SexpData::Environment(_) => SEXPTYPE::ENVSXP,
            SexpData::Opaque(t) => if payload_type(*t) {
                SEXPTYPE::ANYSXP
            } else {
                *t
            },
        }
    }

    /// The object's length (`Rf_xlength`).
    pub fn xlength(&self) -> (r: usize)
        ensures
            r == self.slen(),
    {
        match &self.data {
            SexpData::Nil => 0,
            SexpData::Logical(v) => v.len(),
            SexpData::Integer(v) => v.len(),
            SexpData::Real(v) => v.len(),
            SexpData::Raw(v) => v.len(),
            SexpData::Character(v) => v.len(),
            SexpData::List(v) => v.len(),
            SexpData::PairList(v) => v.len(),
            SexpData::Symbol(_) => 1,
            SexpData::Environment(_) => 1,
            SexpData::Opaque(_) => 1,
        }
    }

    /// Whether this is `NULL`.
    pub fn is_nil(&self) -> (r: bool)
        ensures
            r == (self.stype() == SEXPTYPE::NILSXP),
    {
        matches!(self.data, SexpData::Nil)
    }

    /// Whether this is a generic list (`VECSXP`).
    pub fn is_list(&self) -> (r: bool)
        ensures
            r == (self.stype() == SEXPTYPE::VECSXP),
    {
        matches!(self.data, SexpData::List(_))
    }

    /// The elements of a logical or integer vector.
    pub fn int_slice(&self) -> (r: &[i32])
        ensures
            r@ == self.ints(),
    {
        match &self.data {
            SexpData::Logical(v) => v.as_slice(),
            SexpData::Integer(v) => v.as_slice(),
            _ => &[],
        }
    }

    /// The elements of a double vector, as bits.
    pub fn real_slice(&self) -> (r: &[u64])
        ensures
            r@ == self.reals(),
    {
        match &self.data {
            SexpData::Real(v) => v.as_slice(),
            _ => &[],
        }
    }

    /// The elements of a raw vector.
    pub fn raw_slice(&self) -> (r: &[u8])
        ensures
            r@ == self.raws(),
    {
        match &self.data {
            SexpData::Raw(v) => v.as_slice(),
            _ => &[],
        }
    }

    /// The elements of a character vector.
    pub fn str_slice(&self) -> (r: &[Option<String>])
        ensures
            r@ == self.str_elems(),
    {
        match &self.data {
            SexpData::Character(v) => v.as_slice(),
            _ => &[],
        }
    }

    /// The elements of a list or pairlist.
    pub fn elem_slice(&self) -> (r: &[Sexp])
        ensures
            r@ == self.elems(),
    {
        match &self.data {
            SexpData::List(v) => v.as_slice(),
            SexpData::PairList(v) => v.as_slice(),
            _ => &[],
        }
    }

    /// With unique names, the attribute named `n` is the one at the position
    /// that carries that name.
    proof fn lemma_attr_lookup(s: Sexp, n: Seq<char>)
        requires
            distinct_names(s.attrs@),
        ensures
            forall|i: int| attr_pos(s.attrs@, n, i) ==> s.attr(n) == Some(s.attrs@[i].value),
            (forall|i: int| !attr_pos(s.attrs@, n, i)) ==> s.attr(n) is None,
    {
        if exists|i: int| attr_pos(s.attrs@, n, i) {
            let c = choose|i: int| attr_pos(s.attrs@, n, i);
            assert forall|i: int| attr_pos(s.attrs@, n, i) implies s.attr(n) == Some(
                s.attrs@[i].value,
            ) by {
                if i < c {
                    assert(s.attrs@[i].name@ != s.attrs@[c].name@);
                } else if c < i {
                    assert(s.attrs@[c].name@ != s.attrs@[i].name@);
                }
            }
        }
    }

    /// Position of the attribute named `name`, if any.
    fn attr_index(&self, name: &str) -> (r: Option<usize>)
        ensures
            r matches Some(k) ==> attr_pos(self.attrs@, name@, k as int),
            r is None ==> forall|i: int| !attr_pos(self.attrs@, name@, i),
    {
        let mut i: usize = 0;
        while i < self.attrs.len()
            invariant
                i <= self.attrs@.len(),
                forall|j: int| 0 <= j < i ==> self.attrs@[j].name@ != name@,
            decreases self.attrs@.len() - i,
        {
            if str_eq(self.attrs[i].name.as_str(), name) {
                return Some(i);
            }
            i = i + 1;
        }
        None
    }

    /// The attribute named `name` (`Rf_getAttrib`), `None` when unset.
    pub fn get_attr(&self, name: &str) -> (r: Option<&Sexp>)
        ensures
            r matches Some(v) ==> self.attr(name@) == Some(*v) && v.stype() != SEXPTYPE::NILSXP,
            r is None ==> self.attr(name@) is None,
    {
        proof {
            use_type_invariant(self);
            Sexp::lemma_attr_lookup(*self, name@);
        }
        match self.attr_index(name) {
            Some(k) => Some(&self.attrs[k].value),
            None => None,
        }
    }

    /// Set the attribute named `name` (`Rf_setAttrib`): a `NULL` value
    /// removes it, any other value replaces the previous one.
    pub fn set_attr(&mut self, name: &str, value: Sexp)
        ensures
            final(self).same_payload(*old(self)),
            forall|n: Seq<char>| n != name@ ==> #[trigger] final(self).attr(n) == old(self).attr(n),
            value.stype() == SEXPTYPE::NILSXP ==> final(self).attr(name@) is None,
            value.stype() != SEXPTYPE::NILSXP ==> final(self).attr(name@) == Some(value),
    {
        proof {
            use_type_invariant(&*self);
        }
        let ghost old_attrs = self.attrs@;
        let nil = value.is_nil();
        let found = self.attr_index(name);
        let mut attrs: Vec<Attribute> = Vec::new();
        std::mem::swap(&mut attrs, &mut self.attrs);
        match found {
            Some(k) => {
                if nil {
                    attrs.remove(k);
                    proof {
                        assert forall|i: int, j: int|
                            0 <= i < j < attrs@.len() implies attrs@[i].name@
                            != attrs@[j].name@ by {
                            let oi = if i < k { i } else { i + 1 };
                            let oj = if j < k { j } else { j + 1 };
                            assert(attrs@[i] == old_attrs[oi]);
                            assert(attrs@[j] == old_attrs[oj]);
                        }
                        assert forall|i: int| 0 <= i < attrs@.len() implies !(
                        attrs@[i].value.data is Nil) by {
                            let oi = if i < k { i } else { i + 1 };
                            assert(attrs@[i] == old_attrs[oi]);
                        }
                    }
                } else {
                    attrs.set(k, Attribute { name: name.to_owned(), value });
                    proof {
                        assert(attrs@[k as int].name@ == old_attrs[k as int].name@);
                        assert forall|i: int, j: int|
                            0 <= i < j < attrs@.len() implies attrs@[i].name@
                            != attrs@[j].name@ by {
                            assert(old_attrs[i].name@ != old_attrs[j].name@);
                        }
                        assert(attr_pos(attrs@, name@, k as int));
                    }
                }
            },
            None => {
                if !nil {
                    attrs.push(Attribute { name: name.to_owned(), value });
                    proof {
                        assert forall|i: int, j: int|
                            0 <= i < j < attrs@.len() implies attrs@[i].name@
                            != attrs@[j].name@ by {
                            if j == old_attrs.len() {
                                assert(!attr_pos(old_attrs, name@, i));
                            } else {
                                assert(old_attrs[i].name@ != old_attrs[j].name@);
                            }
                        }
                        assert(attr_pos(attrs@, name@, old_attrs.len() as int));
                    }
                }
            },
        }
        self.attrs = attrs;
        proof {
            let o = *old(self);
            Sexp::lemma_attr_lookup(*self, name@);
            assert forall|n: Seq<char>| n != name@ implies #[trigger] self.attr(n) == o.attr(n) by {
                Sexp::lemma_attr_lookup(*self, n);
                Sexp::lemma_attr_lookup(o, n);
                if exists|i: int| attr_pos(old_attrs, n, i) {
                    let c = choose|i: int| attr_pos(old_attrs, n, i);
                    if self.attrs@.len() < old_attrs.len() {
                        let k = choose|k: int| attr_pos(old_attrs, name@, k);
                        let ni = if c < k { c } else { c - 1 };
                        assert(attr_pos(self.attrs@, n, ni));
                    } else {
                        assert(attr_pos(self.attrs@, n, c));
                    }
                } else {
                    assert forall|i: int| !attr_pos(self.attrs@, n, i) by {
                        if attr_pos(self.attrs@, n, i) {
                            if self.attrs@.len() < old_attrs.len() {
                                let k = choose|k: int| attr_pos(old_attrs, name@, k);
                                let oi = if i < k { i } else { i + 1 };
                                assert(attr_pos(old_attrs, n, oi));
                            } else {
                                assert(attr_pos(old_attrs, n, i));
                            }
                        }
                    }
                }
            }
        }
    }

    /// The elements of a list are structurally smaller than the list, so
    /// definitions may recurse into them.
    pub proof fn lemma_elems_decrease(s: Sexp)
        ensures
            forall|i: int| 0 <= i < s.elems().len() ==> decreases_to!(s => #[trigger] s.elems()[i]),
    {
        match s.data {
            SexpData::List(v) => {
                assert forall|i: int| 0 <= i < v@.len() implies decreases_to!(s => #[trigger] v@[i]) by {
                    assert(decreases_to!(s => s.data));
                    assert(decreases_to!(s.data => v));
                    assert(decreases_to!(v => v@));
                    assert(decreases_to!(v@ => v@[i]));
                }
            },
            SexpData::PairList(v) => {
                assert forall|i: int| 0 <= i < v@.len() implies decreases_to!(s => #[trigger] v@[i]) by {
                    assert(decreases_to!(s => s.data));
                    assert(decreases_to!(s.data => v));
                    assert(decreases_to!(v => v@));
                    assert(decreases_to!(v@ => v@[i]));
                }
            },
            _ => {},
        }
    }

    /// The print name of a symbol.
    pub fn symbol_name(&self) -> (r: Option<&String>)
        ensures
            r is Some <==> self.stype() == SEXPTYPE::SYMSXP,
            r matches Some(s) ==> s@ == self.sym(),
    {
        match &self.data {
            SexpData::Symbol(s) => Some(s),
            _ => None,
        }
    }
}

/// `a` and `b` hold the same R object: same payload, same attributes in the
/// same order, and, element by element and attribute by attribute, the same
/// objects below.
pub closed spec fn sexp_eq(a: Sexp, b: Sexp) -> bool
    decreases a,
{
    &&& a.attrs@.len() == b.attrs@.len()
    &&& forall|i: int|
        #![trigger a.attrs@[i]]
        0 <= i < a.attrs@.len() ==> a.attrs@[i].name@ == b.attrs@[i].name@ && sexp_eq(
            a.attrs@[i].value,
            b.attrs@[i].value,
        )
    &&& match (a.data, b.data) {
        (SexpData::Nil, SexpData::Nil) => true,
        (SexpData::Logical(x), SexpData::Logical(y)) => x@ == y@,
        (SexpData::Integer(x), SexpData::Integer(y)) => x@ == y@,
        (SexpData::Real(x), SexpData::Real(y)) => x@ == y@,
        (SexpData::Raw(x), SexpData::Raw(y)) => x@ == y@,
        (SexpData::Character(x), SexpData::Character(y)) => opt_strs_view(x@) == opt_strs_view(y@),
        (SexpData::List(x), SexpData::List(y)) => x@.len() == y@.len() && forall|i: int|
            0 <= i < x@.len() ==> sexp_eq(#[trigger] x@[i], y@[i]),
        (SexpData::PairList(x), SexpData::PairList(y)) => x@.len() == y@.len() && forall|i: int|
            0 <= i < x@.len() ==> sexp_eq(#[trigger] x@[i], y@[i]),
        (SexpData::Symbol(x), SexpData::Symbol(y)) => x@ == y@,
        (SexpData::Environment(x), SexpData::Environment(y)) => x == y,
        (SexpData::Opaque(x), SexpData::Opaque(y)) => x == y,
        _ => false,
    }
}

impl Sexp {
    /// Objects that hold the same R object have the same type, elements and
    /// attribute names.
    pub proof fn lemma_sexp_eq_payload(a: Sexp, b: Sexp)
        requires
            sexp_eq(a, b),
        ensures
            a.stype() == b.stype(),
            a.slen() == b.slen(),
            a.ints() == b.ints(),
            a.reals() == b.reals(),
            a.raws() == b.raws(),
            a.strs() == b.strs(),
            a.sym() == b.sym(),
            a.env_id() == b.env_id(),
            a.elems().len() == b.elems().len(),
            forall|i: int| 0 <= i < a.elems().len() ==> sexp_eq(#[trigger] a.elems()[i], b.elems()[i]),
            a.attr_count() == b.attr_count(),
    {
        if a.data is Character && b.data is Character {
            let x = a.data->Character_0;
            let y = b.data->Character_0;
            assert(opt_strs_view(x@).len() == x@.len());
            assert(opt_strs_view(y@).len() == y@.len());
        }
    }

    /// Two attribute-free symbols with one print name are the same R object
    /// (R interns symbols).
    pub proof fn lemma_bare_symbols_same(a: Sexp, b: Sexp)
        requires
            a.stype() == SEXPTYPE::SYMSXP,
            b.stype() == SEXPTYPE::SYMSXP,
            a.bare(),
            b.bare(),
            a.sym() == b.sym(),
        ensures
            sexp_eq(a, b),
    {
    }

    /// Two attribute-free fixed environments are the same R object exactly
    /// when they have one identity.
    pub proof fn lemma_bare_environments_same(a: Sexp, b: Sexp)
        requires
            a.env_id() is Some,
            b.env_id() is Some,
            a.bare(),
            b.bare(),
        ensures
            sexp_eq(a, b) <==> a.env_id() == b.env_id(),
    {
        if sexp_eq(a, b) {
            Sexp::lemma_sexp_eq_payload(a, b);
        }
    }

    /// A copy of the whole object, attributes and elements included.
    pub fn deep_clone(&self) -> (r: Sexp)
        ensures
            sexp_eq(*self, r),
            forall|i: int| #[trigger] name_at(r, i) == name_at(*self, i),
        decreases *self,
    {
        proof {
            use_type_invariant(self);
        }
        let mut attrs: Vec<Attribute> = Vec::new();
        let mut i: usize = 0;
        while i < self.attrs.len()
            invariant
                i <= self.attrs@.len(),
                attrs@.len() == i,
                distinct_names(self.attrs@),
                forall|k: int| 0 <= k < self.attrs@.len() ==> !(self.attrs@[k].value.data is Nil),
                forall|k: int|
                    #![trigger self.attrs@[k]]
                    0 <= k < i ==> attrs@[k].name@ == self.attrs@[k].name@ && sexp_eq(
                        self.attrs@[k].value,
                        attrs@[k].value,
                    ) && !(attrs@[k].value.data is Nil),
            decreases self.attrs@.len() - i,
        {
            proof {
                assert(decreases_to!(*self => self.attrs));
                assert(decreases_to!(self.attrs => self.attrs@));
                assert(decreases_to!(self.attrs@ => self.attrs@[i as int]));
                assert(decreases_to!(self.attrs@[i as int] => self.attrs@[i as int].value));
            }
            let value = self.attrs[i].value.deep_clone();
            proof {
                assert(sexp_eq(self.attrs@[i as int].value, value));
                assert(!(value.data is Nil)) by {
                    if value.data is Nil {
                        assert(self.attrs@[i as int].value.data is Nil);
                    }
                }
            }
            attrs.push(Attribute { name: self.attrs[i].name.clone(), value });
            i = i + 1;
        }
        let data = match &self.data {
            SexpData::Nil => SexpData::Nil,
            SexpData::Logical(v) => SexpData::Logical(copy_slice(v.as_slice())),
            SexpData::Integer(v) => SexpData::Integer(copy_slice(v.as_slice())),
            SexpData::Real(v) => SexpData::Real(copy_slice(v.as_slice())),
            SexpData::Raw(v) => SexpData::Raw(copy_slice(v.as_slice())),
            SexpData::Character(v) => {
                let mut out: Vec<Option<String>> = Vec::new();
                let mut k: usize = 0;
                while k < v.len()
                    invariant
                        k <= v@.len(),
                        out@.len() == k,
                        forall|j: int| 0 <= j < k ==> opt_str_view(#[trigger] out@[j]) == opt_str_view(v@[j]),
                    decreases v@.len() - k,
                {
                    let e = match &v[k] {
                        Some(t) => Some(t.clone()),
                        None => None,
                    };
                    out.push(e);
                    k = k + 1;
                }
                proof {
                    assert(opt_strs_view(out@) =~= opt_strs_view(v@));
                }
                SexpData::Character(out)
            },
            SexpData::List(v) => SexpData::List(Sexp::clone_elems(self, v)),
            SexpData::PairList(v) => SexpData::PairList(Sexp::clone_elems(self, v)),
            SexpData::Symbol(name) => SexpData::Symbol(name.clone()),
            SexpData::Environment(id) => SexpData::Environment(*id),
            SexpData::Opaque(t) => SexpData::Opaque(*t),
        };
        proof {
            assert forall|a: int, b: int| 0 <= a < b < attrs@.len() implies attrs@[a].name@
                != attrs@[b].name@ by {
                assert(self.attrs@[a].name@ != self.attrs@[b].name@);
            }
            assert forall|k: int| 0 <= k < attrs@.len() implies !(attrs@[k].value.data is Nil) by {
                assert(self.attrs@[k].name@ == attrs@[k].name@);
            }
        }
        let r = Sexp { data, attrs };
        proof {
            Sexp::lemma_same_attrs_names(*self, r);
        }
        r
    }

    /// Objects whose attributes pair up by position (same names, the same
    /// objects as values) give every element the same name.
    proof fn lemma_same_attrs_names(a: Sexp, b: Sexp)
        requires
            distinct_names(a.attrs@),
            distinct_names(b.attrs@),
            a.attrs@.len() == b.attrs@.len(),
            forall|k: int|
                #![trigger a.attrs@[k]]
                0 <= k < a.attrs@.len() ==> a.attrs@[k].name@ == b.attrs@[k].name@ && sexp_eq(
                    a.attrs@[k].value,
                    b.attrs@[k].value,
                ),
        ensures
            forall|i: int| #[trigger] name_at(b, i) == name_at(a, i),
    {
        let n = "names"@;
        if exists|i: int| attr_pos(a.attrs@, n, i) {
            let i = choose|i: int| attr_pos(a.attrs@, n, i);
            assert(attr_pos(b.attrs@, n, i));
            let j = choose|j: int| attr_pos(b.attrs@, n, j);
            assert(i == j);
            Sexp::lemma_sexp_eq_payload(a.attrs@[i].value, b.attrs@[i].value);
            assert(a.attr(n) == Some(a.attrs@[i].value));
            assert(b.attr(n) == Some(b.attrs@[i].value));
        } else {
            assert forall|j: int| !attr_pos(b.attrs@, n, j) by {
                if attr_pos(b.attrs@, n, j) {
                    assert(attr_pos(a.attrs@, n, j));
                }
            }
            assert(a.attr(n) is None);
            assert(b.attr(n) is None);
        }
    }

    /// Copies of the elements of a list or pairlist `owner`.
    fn clone_elems(owner: &Sexp, v: &Vec<Sexp>) -> (r: Vec<Sexp>)
        requires
            (owner.data matches SexpData::List(w) && w == *v) || (owner.data matches SexpData::PairList(
                w,
            ) && w == *v),
        ensures
            r@.len() == v@.len(),
            forall|i: int| 0 <= i < v@.len() ==> sexp_eq(#[trigger] v@[i], r@[i]),
        decreases *owner, 0int,
    {
        let mut out: Vec<Sexp> = Vec::new();
        let mut i: usize = 0;
        while i < v.len()
            invariant
                i <= v@.len(),
                out@.len() == i,
                (owner.data matches SexpData::List(w) && w == *v) || (owner.data matches SexpData::PairList(
                    w,
                ) && w == *v),
                forall|k: int| 0 <= k < i ==> sexp_eq(#[trigger] v@[k], out@[k]),
            decreases v@.len() - i,
        {
            proof {
                assert(decreases_to!(*owner => owner.data));
                assert(decreases_to!(*v => v@));
                assert(decreases_to!(v@ => v@[i as int]));
                if owner.data is List {
                    assert(decreases_to!(owner.data => owner.data->List_0));
                } else {
                    assert(decreases_to!(owner.data => owner.data->PairList_0));
                }
            }
            out.push(v[i].deep_clone());
            i = i + 1;
        }
        out
    }
}

impl Sexp {
    /// Replace element `i` of a generic list; the attributes stay.
    pub fn set_elem(&mut self, i: usize, v: Sexp)
        requires
            old(self).stype() == SEXPTYPE::VECSXP,
            i < old(self).elems().len(),
        ensures
            final(self).stype() == SEXPTYPE::VECSXP,
            final(self).elems() == old(self).elems().update(i as int, v),
            final(self).slen() == old(self).slen(),
            forall|n: Seq<char>| #[trigger] final(self).attr(n) == old(self).attr(n),
            final(self).attr_count() == old(self).attr_count(),
    {
        proof {
            use_type_invariant(&*self);
        }
        let mut data = SexpData::Nil;
        std::mem::swap(&mut data, &mut self.data);
        match data {
            SexpData::List(mut elems) => {
                elems.set(i, v);
                self.data = SexpData::List(elems);
            },
            other => {
                self.data = other;
            },
        }
    }

    /// The same object as a generic list: a pairlist's elements move into a
    /// list (attributes, names included, stay); a list is kept as it is.
    pub fn into_vecsxp(self) -> (r: Sexp)
        requires
            self.stype() == SEXPTYPE::VECSXP || self.stype() == SEXPTYPE::LISTSXP,
        ensures
            r.stype() == SEXPTYPE::VECSXP,
            r.elems() == self.elems(),
            r.slen() == self.slen(),
            forall|n: Seq<char>| #[trigger] r.attr(n) == self.attr(n),
            r.attr_count() == self.attr_count(),
            self.stype() == SEXPTYPE::VECSXP ==> r == self,
    {
        proof {
            use_type_invariant(&self);
        }
        let Sexp { data, attrs } = self;
        match data {
            SexpData::PairList(elems) => Sexp { data: SexpData::List(elems), attrs },
            other => Sexp { data: other, attrs },
        }
    }
}

impl Sexp {
    /// The name of element `i`, read from the `names` attribute.
    pub fn elem_name(&self, i: usize) -> (r: Option<&String>)
        ensures
            r matches Some(t) ==> name_at(*self, i as int) == Some(t@),
            r is None ==> name_at(*self, i as int) is None,
    {
        match self.get_attr("names") {
            Some(n) => {
                if n.type_of() != SEXPTYPE::STRSXP {
                    return None;
                }
                proof {
                    n.lemma_type_consistent();
                }
                let v = n.str_slice();
                if i < v.len() {
                    proof {
                        assert(opt_strs_view(v@)[i as int] == opt_str_view(v@[i as int]));
                    }
                    match &v[i] {
                        Some(t) => Some(t),
                        None => None,
                    }
                } else {
                    None
                }
            },
            None => None,
        }
    }
}

} // verus!
