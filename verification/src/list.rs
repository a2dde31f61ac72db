//! R generic lists (`VECSXP`): construction from Rust values, element and
//! attribute access, and conversion to and from R objects.
use crate::from_r::{SexpError, SexpErrorView, SexpTypeError, TryFromSexp, type_error_text};
use crate::into_r::{IntoR, is_str_vector, all_present, strs_of};
use crate::sexp::{name_at, opt_str_view, opt_strs_view, sexp_eq, Sexp, SEXPTYPE, NA_INTEGER};
use crate::text::{debug_str, debug_string, str_eq};
use std::convert::Infallible;
use vstd::prelude::*;

verus! {

/// An R list (`VECSXP`).
#[derive(Debug)]
pub struct List(Sexp);

/// A list whose elements are replaced in place.
#[derive(Debug)]
pub struct ListMut(Sexp);

impl View for List {
    type V = Sexp;

    closed spec fn view(&self) -> Sexp {
        self.0
    }
}

impl View for ListMut {
    type V = Sexp;

    closed spec fn view(&self) -> Sexp {
        self.0
    }
}

/// `new` is `old` with attribute `name` set to `value` (`NULL` removes it);
/// payload and the other attributes are unchanged.
pub open spec fn attr_set(old: Sexp, new: Sexp, name: Seq<char>, value: Sexp) -> bool {
    &&& new.same_payload(old)
    &&& forall|n: Seq<char>| n != name ==> #[trigger] new.attr(n) == old.attr(n)
    &&& value.stype() == SEXPTYPE::NILSXP ==> new.attr(name) is None
    &&& value.stype() != SEXPTYPE::NILSXP ==> new.attr(name) == Some(value)
}

/// The attribute `name` as read back: `None` when unset.
pub open spec fn attr_read(s: Sexp, name: Seq<char>, r: Option<&Sexp>) -> bool {
    match r {
        Some(v) => s.attr(name) == Some(*v),
        None => s.attr(name) is None,
    }
}

/// `i` is the first position whose name is `name`.
pub open spec fn first_named(s: Sexp, name: Seq<char>, i: int) -> bool {
    &&& 0 <= i < s.elems().len()
    &&& name_at(s, i) == Some(name)
    &&& forall|k: int| 0 <= k < i ==> name_at(s, k) != Some(name)
}

/// Some element is named `name`.
pub open spec fn has_name(s: Sexp, name: Seq<char>) -> bool {
    exists|i: int| 0 <= i < s.elems().len() && name_at(s, i) == Some(name)
}

/// The list `s` has a dimnames list with an entry at `k`.
pub open spec fn dimnames_readable(s: Sexp, k: int) -> bool {
    s.attr("dimnames"@) matches Some(d) ==> d.stype() == SEXPTYPE::VECSXP && d.elems().len() > k
}

/// Entry `k` of the dimnames: `None` without dimnames or when it is `NULL`.
pub open spec fn dimnames_entry(s: Sexp, k: int, r: Option<&Sexp>) -> bool {
    match s.attr("dimnames"@) {
        Some(d) => if d.elems()[k].stype() == SEXPTYPE::NILSXP {
            r is None
        } else {
            r == Some(&d.elems()[k])
        },
        None => r is None,
    }
}

impl List {
    #[verifier::type_invariant]
    closed spec fn inv(self) -> bool {
        self.0.stype() == SEXPTYPE::VECSXP && self.0.slen() <= isize::MAX
    }

    /// Wrap a `VECSXP`.
    fn wrap(sexp: Sexp) -> (r: List)
        requires
            sexp.stype() == SEXPTYPE::VECSXP,
            sexp.slen() <= isize::MAX,
        ensures
            r@ == sexp,
    {
        List(sexp)
    }

    /// Whether the object is a generic list (always so for a `List`).
    pub fn is_list(&self) -> (r: bool)
        ensures
            r == (self@.stype() == SEXPTYPE::VECSXP),
            r,
    {
        proof {
            use_type_invariant(self);
        }
        self.0.is_list()
    }

    /// The underlying R object.
    pub fn as_sexp(&self) -> (r: &Sexp)
        ensures
            *r == self@,
    {
        &self.0
    }

    /// The underlying R object, by value.
    pub fn into_sexp(self) -> (r: Sexp)
        ensures
            r == self@,
    {
        self.0
    }

    /// Number of elements.
    pub fn len(&self) -> (r: isize)
        ensures
            r == self@.slen(),
            r == self@.elems().len(),
    {
        proof {
            use_type_invariant(self);
            self.0.lemma_type_consistent();
        }
        self.0.xlength() as isize
    }

    /// Whether the list has no elements.
    pub fn is_empty(&self) -> (r: bool)
        ensures
            r == (self@.slen() == 0),
    {
        self.len() == 0
    }

    /// Element `idx`, `None` out of bounds.
    pub fn get(&self, idx: isize) -> (r: Option<&Sexp>)
        ensures
            r is Some <==> 0 <= idx < self@.elems().len(),
            r matches Some(e) ==> *e == self@.elems()[idx as int],
    {
        if idx < 0 || idx >= self.len() {
            return None;
        }
        Some(&self.0.elem_slice()[idx as usize])
    }

    /// Element `idx` converted to `T`; `None` out of bounds or when the
    /// conversion fails.
    pub fn get_index<T: TryFromSexp>(&self, idx: isize) -> (r: Option<T>)
        ensures
            r is Some <==> 0 <= idx < self@.elems().len() && T::accepts(
                self@.elems()[idx as int],
            ),
            r matches Some(v) ==> T::decodes(self@.elems()[idx as int], v),
            r matches Some(v) ==> call_ensures(
                T::try_from_sexp,
                (&self@.elems()[idx as int],),
                Ok::<T, T::Error>(v),
            ),
            r is None && 0 <= idx < self@.elems().len() ==> exists|e: T::Error|
                call_ensures(T::try_from_sexp, (&self@.elems()[idx as int],), Err::<T, T::Error>(e)),
    {
        match self.get(idx) {
            Some(e) => match T::try_from_sexp(e) {
                Ok(v) => Some(v),
                Err(_) => None,
            },
            None => None,
        }
    }

    /// The first element named `name` (`NA` names never match).
    pub fn get_named_sexp(&self, name: &str) -> (r: Option<&Sexp>)
        ensures
            r is Some <==> has_name(self@, name@),
            r matches Some(e) ==> exists|i: int|
                first_named(self@, name@, i) && *e == self@.elems()[i],
    {
        let elems = self.0.elem_slice();
        let mut i: usize = 0;
        while i < elems.len()
            invariant
                elems@ == self@.elems(),
                i <= elems@.len(),
                forall|k: int| 0 <= k < i ==> name_at(self@, k) != Some(name@),
            decreases elems@.len() - i,
        {
            match self.0.elem_name(i) {
                Some(t) => {
                    if str_eq(t.as_str(), name) {
                        proof {
                            assert(first_named(self@, name@, i as int));
                        }
                        return Some(&elems[i]);
                    }
                },
                None => {},
            }
            i = i + 1;
        }
        None
    }

    /// The first element named `name`, converted to `T`; `None` when no
    /// element has that name or the conversion fails.
    pub fn get_named<T: TryFromSexp>(&self, name: &str) -> (r: Option<T>)
        ensures
            r matches Some(v) ==> exists|i: int|
                first_named(self@, name@, i) && T::accepts(self@.elems()[i]) && T::decodes(
                    self@.elems()[i],
                    v,
                ),
            r is None ==> !has_name(self@, name@) || exists|i: int|
                first_named(self@, name@, i) && !T::accepts(self@.elems()[i]),
    {
        match self.get_named_sexp(name) {
            Some(e) => match T::try_from_sexp(e) {
                Ok(v) => Some(v),
                Err(_) => None,
            },
            None => None,
        }
    }

    /// The `names` attribute, if set.
    pub fn names(&self) -> (r: Option<&Sexp>)
        ensures
            attr_read(self@, "names"@, r),
    {
        self.0.get_attr("names")
    }

    /// The `class` attribute, if set.
    pub fn get_class(&self) -> (r: Option<&Sexp>)
        ensures
            attr_read(self@, "class"@, r),
    {
        self.0.get_attr("class")
    }

    /// The `dim` attribute, if set.
    pub fn get_dim(&self) -> (r: Option<&Sexp>)
        ensures
            attr_read(self@, "dim"@, r),
    {
        self.0.get_attr("dim")
    }

    /// The `dimnames` attribute, if set.
    pub fn get_dimnames(&self) -> (r: Option<&Sexp>)
        ensures
            attr_read(self@, "dimnames"@, r),
    {
        self.0.get_attr("dimnames")
    }

    /// The `levels` attribute, if set.
    pub fn get_levels(&self) -> (r: Option<&Sexp>)
        ensures
            attr_read(self@, "levels"@, r),
    {
        self.0.get_attr("levels")
    }

    /// The `tsp` attribute, if set.
    pub fn get_tsp(&self) -> (r: Option<&Sexp>)
        ensures
            attr_read(self@, "tsp"@, r),
    {
        self.0.get_attr("tsp")
    }

    /// Entry `k` of the dimnames list.
    fn dimnames_at(&self, k: usize) -> (r: Option<&Sexp>)
        requires
            dimnames_readable(self@, k as int),
        ensures
            dimnames_entry(self@, k as int, r),
    {
        match self.0.get_attr("dimnames") {
            Some(d) => {
                let e = &d.elem_slice()[k];
                if e.is_nil() {
                    None
                } else {
                    Some(e)
                }
            },
            None => None,
        }
    }

    /// The row names (first dimnames entry), if set.
    pub fn get_rownames(&self) -> (r: Option<&Sexp>)
        requires
            dimnames_readable(self@, 0),
        ensures
            dimnames_entry(self@, 0, r),
    {
        self.dimnames_at(0)
    }

    /// The column names (second dimnames entry), if set.
    pub fn get_colnames(&self) -> (r: Option<&Sexp>)
        requires
            dimnames_readable(self@, 1),
        ensures
            dimnames_entry(self@, 1, r),
    {
        self.dimnames_at(1)
    }

    /// The list with attribute `name` set to `value` (`NULL` removes it).
    fn with_attr(self, name: &str, value: Sexp) -> (r: List)
        ensures
            attr_set(self@, r@, name@, value),
    {
        proof {
            use_type_invariant(&self);
        }
        let List(mut s) = self;
        s.set_attr(name, value);
        List(s)
    }

    /// Set the `names` attribute.
    pub fn set_names(self, names: Sexp) -> (r: List)
        ensures
            attr_set(self@, r@, "names"@, names),
    {
        self.with_attr("names", names)
    }

    /// Set the `class` attribute.
    pub fn set_class(self, class: Sexp) -> (r: List)
        ensures
            attr_set(self@, r@, "class"@, class),
    {
        self.with_attr("class", class)
    }

    /// Set the `dim` attribute.
    pub fn set_dim(self, dim: Sexp) -> (r: List)
        ensures
            attr_set(self@, r@, "dim"@, dim),
    {
        self.with_attr("dim", dim)
    }

    /// Set the `dimnames` attribute.
    pub fn set_dimnames(self, dimnames: Sexp) -> (r: List)
        ensures
            attr_set(self@, r@, "dimnames"@, dimnames),
    {
        self.with_attr("dimnames", dimnames)
    }

    /// Set the `levels` attribute.
    pub fn set_levels(self, levels: Sexp) -> (r: List)
        ensures
            attr_set(self@, r@, "levels"@, levels),
    {
        self.with_attr("levels", levels)
    }

    /// Set the `class` attribute to the given classes.
    pub fn set_class_str(self, classes: &[&str]) -> (r: List)
        ensures
            exists|c: Sexp|
                is_str_vector(c, all_present(strs_of(classes@))) && attr_set(
                    self@,
                    r@,
                    "class"@,
                    c,
                ),
    {
        let c = classes.try_into_sexp();
        match c {
            Ok(c) => self.with_attr("class", c),
            Err(_) => self,
        }
    }

    /// Mark the list as a data frame (`class = "data.frame"`).
    pub fn set_data_frame_class(self) -> (r: List)
        ensures
            exists|c: Sexp|
                is_str_vector(c, seq![Some("data.frame"@)]) && attr_set(self@, r@, "class"@, c),
    {
        let c = crate::cached_class::data_frame_class_sexp();
        self.with_attr("class", c)
    }

    /// Set the `names` attribute to the given names.
    pub fn set_names_str(self, names: &[&str]) -> (r: List)
        ensures
            exists|c: Sexp|
                is_str_vector(c, all_present(strs_of(names@))) && attr_set(
                    self@,
                    r@,
                    "names"@,
                    c,
                ),
    {
        let c = names.try_into_sexp();
        match c {
            Ok(c) => self.with_attr("names", c),
            Err(_) => self,
        }
    }

    /// Set compact integer row names for `n` rows: `c(NA, -n)`.
    pub fn set_row_names_int(self, n: usize) -> (r: List)
        requires
            n <= i32::MAX,
        ensures
            exists|c: Sexp|
                c.stype() == SEXPTYPE::INTSXP && c.ints() == seq![NA_INTEGER, (-(n as int)) as i32]
                    && attr_set(self@, r@, "row.names"@, c),
    {
        let mut v: Vec<i32> = Vec::new();
        v.push(NA_INTEGER);
        v.push(-(n as i32));
        let c = Sexp::integer(v);
        self.with_attr("row.names", c)
    }

    /// Set character row names.
    pub fn set_row_names_str(self, row_names: &[&str]) -> (r: List)
        ensures
            exists|c: Sexp|
                is_str_vector(c, all_present(strs_of(row_names@))) && attr_set(
                    self@,
                    r@,
                    "row.names"@,
                    c,
                ),
    {
        let c = row_names.try_into_sexp();
        match c {
            Ok(c) => self.with_attr("row.names", c),
            Err(_) => self,
        }
    }

    /// Replace element `idx`.
    pub fn set_elt(&mut self, idx: isize, child: Sexp)
        requires
            0 <= idx < old(self)@.elems().len(),
        ensures
            final(self)@.elems() == old(self)@.elems().update(idx as int, child),
            forall|n: Seq<char>| #[trigger] final(self)@.attr(n) == old(self)@.attr(n),
    {
        proof {
            use_type_invariant(&*self);
            self.0.lemma_type_consistent();
        }
        let mut s = Sexp::list(Vec::new());
        std::mem::swap(&mut s, &mut self.0);
        s.set_elem(idx as usize, child);
        *self = List(s);
    }

    /// Replace element `idx` with what `f` builds.
    pub fn set_elt_with<F: FnOnce() -> Sexp>(&mut self, idx: isize, f: F)
        requires
            0 <= idx < old(self)@.elems().len(),
            call_requires(f, ()),
        ensures
            exists|child: Sexp|
                call_ensures(f, (), child) && final(self)@.elems() == old(self)@.elems().update(
                    idx as int,
                    child,
                ),
            forall|n: Seq<char>| #[trigger] final(self)@.attr(n) == old(self)@.attr(n),
    {
        let child = f();
        self.set_elt(idx, child);
    }

    /// A list of the given objects, in order.
    pub fn from_raw_values(values: Vec<Sexp>) -> (r: List)
        requires
            values@.len() <= isize::MAX,
        ensures
            r@.elems() == values@,
            r@.bare(),
    {
        List::wrap(Sexp::list(values))
    }

    /// A list of the converted values, in order.
    pub fn from_values<T: IntoR>(values: Vec<T>) -> (r: List)
        requires
            values@.len() <= isize::MAX,
            forall|i: int| 0 <= i < values@.len() ==> (#[trigger] values@[i]).into_r_ok(),
        ensures
            r@.bare(),
            r@.elems().len() == values@.len(),
            forall|i: int| 0 <= i < values@.len() ==> (#[trigger] values@[i]).converts_to(r@.elems()[i]),
    {
        values.into_list()
    }

    /// A named list of the given objects.
    pub fn from_raw_pairs(pairs: Vec<(String, Sexp)>) -> (r: List)
        requires
            pairs@.len() <= isize::MAX,
        ensures
            r@.elems().len() == pairs@.len(),
            forall|i: int| 0 <= i < pairs@.len() ==> r@.elems()[i] == (#[trigger] pairs@[i]).1,
            forall|i: int|
                0 <= i < pairs@.len() ==> name_at(r@, i) == Some((#[trigger] pairs@[i]).0@),
    {
        let ghost orig = pairs@;
        let mut rest = pairs;
        let total: usize = rest.len();
        let mut values: Vec<Sexp> = Vec::new();
        let mut names: Vec<Option<String>> = Vec::new();
        while rest.len() > 0
            invariant
                values@.len() + rest@.len() == orig.len(),
                names@.len() == values@.len(),
                orig.len() == total,
                rest@ == orig.subrange(values@.len() as int, orig.len() as int),
                forall|i: int| 0 <= i < values@.len() ==> values@[i] == (#[trigger] orig[i]).1,
                forall|i: int|
                    0 <= i < values@.len() ==> opt_str_view(names@[i]) == Some(
                        (#[trigger] orig[i]).0@,
                    ),
            decreases rest@.len(),
        {
            let ghost k = values@.len() as int;
            let (name, value) = rest.remove(0);
            proof {
                assert(orig[k] == (name, value));
                assert(rest@ =~= orig.subrange(k + 1, orig.len() as int));
            }
            values.push(value);
            names.push(Some(name));
        }
        let names_sexp = Sexp::character(names);
        let mut s = Sexp::list(values);
        s.set_attr("names", names_sexp);
        proof {
            assert forall|i: int| 0 <= i < orig.len() implies name_at(s, i) == Some(
                (#[trigger] orig[i]).0@,
            ) by {
                assert(opt_strs_view(names@)[i] == opt_str_view(names@[i]));
            }
        }
        List::wrap(s)
    }

    /// An empty list with an empty `names` attribute (a named empty list).
    pub fn from_raw_pairs_empty() -> (r: List)
        ensures
            r@.elems().len() == 0,
            r@.attr("names"@) matches Some(n) && n.stype() == SEXPTYPE::STRSXP && n.slen() == 0,
    {
        let mut s = Sexp::list(Vec::new());
        s.set_attr("names", Sexp::character(Vec::new()));
        List::wrap(s)
    }

    /// A named list of the converted values.
    pub fn from_pairs<T: IntoR>(pairs: Vec<(String, T)>) -> (r: List)
        requires
            pairs@.len() <= isize::MAX,
            forall|i: int| 0 <= i < pairs@.len() ==> (#[trigger] pairs@[i]).1.into_r_ok(),
        ensures
            r@.elems().len() == pairs@.len(),
            forall|i: int|
                0 <= i < pairs@.len() ==> (#[trigger] pairs@[i]).1.converts_to(r@.elems()[i]),
            forall|i: int|
                0 <= i < pairs@.len() ==> name_at(r@, i) == Some((#[trigger] pairs@[i]).0@),
    {
        let ghost orig = pairs@;
        let mut rest = pairs;
        let total: usize = rest.len();
        let mut raw: Vec<(String, Sexp)> = Vec::new();
        while rest.len() > 0
            invariant
                raw@.len() + rest@.len() == orig.len(),
                orig.len() == total,
                rest@ == orig.subrange(raw@.len() as int, orig.len() as int),
                forall|i: int| 0 <= i < orig.len() ==> (#[trigger] orig[i]).1.into_r_ok(),
                forall|i: int|
                    0 <= i < raw@.len() ==> (#[trigger] orig[i]).1.converts_to(raw@[i].1)
                        && raw@[i].0@ == orig[i].0@,
            decreases rest@.len(),
        {
            let ghost k = raw@.len() as int;
            let (name, value) = rest.remove(0);
            proof {
                assert(orig[k] == (name, value));
                assert(rest@ =~= orig.subrange(k + 1, orig.len() as int));
            }
            let s = value.into_sexp();
            raw.push((name, s));
        }
        let ghost rw = raw@;
        let r = List::from_raw_pairs(raw);
        proof {
            assert forall|i: int| 0 <= i < orig.len() implies (#[trigger] orig[i]).1.converts_to(
                r@.elems()[i],
            ) && name_at(r@, i) == Some(orig[i].0@) by {
                assert(r@.elems()[i] == rw[i].1);
                assert(name_at(r@, i) == Some(rw[i].0@));
            }
        }
        r
    }

    /// The elements gathered into one vector when they are all length-one
    /// vectors of one type among integer, double, logical and character (an
    /// atomic vector, attributes dropped); otherwise a list of them.
    pub fn from_scalars_or_list(elements: Vec<Sexp>) -> (r: Sexp)
        requires
            elements@.len() <= isize::MAX,
        ensures
            scalars_of_one_type(elements@) ==> gathered(elements@, r),
            !scalars_of_one_type(elements@) ==> r.stype() == SEXPTYPE::VECSXP && r.elems()
                == elements@ && r.bare(),
    {
        if elements.len() == 0 {
            return Sexp::list(elements);
        }
        let first_type = elements[0].type_of();
        let mut i: usize = 0;
        let mut same = true;
        while i < elements.len()
            invariant
                i <= elements@.len(),
                elements@.len() > 0,
                first_type == elements@[0].stype(),
                same <==> forall|k: int|
                    0 <= k < i ==> (#[trigger] elements@[k]).slen() == 1 && elements@[k].stype()
                        == first_type,
            decreases elements@.len() - i,
        {
            if !(elements[i].xlength() == 1 && elements[i].type_of() == first_type) {
                same = false;
            }
            i = i + 1;
        }
        if !same {
            return Sexp::list(elements);
        }
        match first_type {
            SEXPTYPE::INTSXP | SEXPTYPE::LGLSXP => {
                let mut v: Vec<i32> = Vec::new();
                let mut k: usize = 0;
                while k < elements.len()
                    invariant
                        k <= elements@.len(),
                        v@.len() == k,
                        forall|j: int|
                            0 <= j < elements@.len() ==> (#[trigger] elements@[j]).slen() == 1
                                && elements@[j].stype() == first_type,
                        first_type == SEXPTYPE::INTSXP || first_type == SEXPTYPE::LGLSXP,
                        forall|j: int| 0 <= j < k ==> v@[j] == (#[trigger] elements@[j]).ints()[0],
                    decreases elements@.len() - k,
                {
                    proof {
                        elements@[k as int].lemma_type_consistent();
                    }
                    v.push(elements[k].int_slice()[0]);
                    k = k + 1;
                }
                if first_type == SEXPTYPE::INTSXP {
                    Sexp::integer(v)
                } else {
                    Sexp::logical(v)
                }
            },
            SEXPTYPE::REALSXP => {
                let mut v: Vec<u64> = Vec::new();
                let mut k: usize = 0;
                while k < elements.len()
                    invariant
                        k <= elements@.len(),
                        v@.len() == k,
                        forall|j: int|
                            0 <= j < elements@.len() ==> (#[trigger] elements@[j]).slen() == 1
                                && elements@[j].stype() == SEXPTYPE::REALSXP,
                        forall|j: int| 0 <= j < k ==> v@[j] == (#[trigger] elements@[j]).reals()[0],
                    decreases elements@.len() - k,
                {
                    proof {
                        elements@[k as int].lemma_type_consistent();
                    }
                    v.push(elements[k].real_slice()[0]);
                    k = k + 1;
                }
                Sexp::real_bits(v)
            },
            SEXPTYPE::STRSXP => {
                let mut v: Vec<Option<String>> = Vec::new();
                let mut k: usize = 0;
                while k < elements.len()
                    invariant
                        k <= elements@.len(),
                        v@.len() == k,
                        forall|j: int|
                            0 <= j < elements@.len() ==> (#[trigger] elements@[j]).slen() == 1
                                && elements@[j].stype() == SEXPTYPE::STRSXP,
                        forall|j: int|
                            0 <= j < k ==> opt_str_view(v@[j]) == (#[trigger] elements@[j]).strs()[0],
                    decreases elements@.len() - k,
                {
                    proof {
                        elements@[k as int].lemma_type_consistent();
                        let e = elements@[k as int];
                        assert(opt_strs_view(e.str_elems())[0] == opt_str_view(e.str_elems()[0]));
                    }
                    let e = match &elements[k].str_slice()[0] {
                        Some(t) => Some(t.clone()),
                        None => None,
                    };
                    v.push(e);
                    k = k + 1;
                }
                let r = Sexp::character(v);
                proof {
                    assert forall|j: int| 0 <= j < elements@.len() implies r.strs()[j]
                        == (#[trigger] elements@[j]).strs()[0] by {
                        assert(opt_strs_view(v@)[j] == opt_str_view(v@[j]));
                    }
                }
                r
            },
            _ => Sexp::list(elements),
        }
    }
}

/// All elements are length-one vectors of the first element's type, which
/// is integer, double, logical or character.
pub open spec fn scalars_of_one_type(e: Seq<Sexp>) -> bool {
    &&& e.len() > 0
    &&& forall|i: int| 0 <= i < e.len() ==> (#[trigger] e[i]).slen() == 1 && e[i].stype() == e[0].stype()
    &&& (e[0].stype() == SEXPTYPE::INTSXP || e[0].stype() == SEXPTYPE::REALSXP || e[0].stype()
        == SEXPTYPE::LGLSXP || e[0].stype() == SEXPTYPE::STRSXP)
}

/// `r` is the one vector gathering the scalar elements `e`.
pub open spec fn gathered(e: Seq<Sexp>, r: Sexp) -> bool {
    &&& r.stype() == e[0].stype()
    &&& r.bare()
    &&& r.slen() == e.len()
    &&& forall|i: int|
        0 <= i < e.len() ==> {
            &&& (r.stype() == SEXPTYPE::INTSXP || r.stype() == SEXPTYPE::LGLSXP) ==> r.ints()[i]
                == (#[trigger] e[i]).ints()[0]
            &&& r.stype() == SEXPTYPE::REALSXP ==> r.reals()[i] == e[i].reals()[0]
            &&& r.stype() == SEXPTYPE::STRSXP ==> r.strs()[i] == e[i].strs()[0]
        }
}

/// Conversion of a Rust collection into an R list.
pub trait IntoList: Sized {
    /// The collections the conversion accepts.
    spec fn into_list_ok(self) -> bool;

    /// `l` is the list `self` converts to.
    spec fn list_of(self, l: List) -> bool;

    /// Convert into a list.
    fn into_list(self) -> (r: List)
        requires
            self.into_list_ok(),
        ensures
            self.list_of(r),
    ;
}

impl<T: IntoR> IntoList for Vec<T> {
    open spec fn into_list_ok(self) -> bool {
        &&& self@.len() <= isize::MAX
        &&& forall|i: int| 0 <= i < self@.len() ==> (#[trigger] self@[i]).into_r_ok()
    }

    open spec fn list_of(self, l: List) -> bool {
        &&& l@.bare()
        &&& l@.elems().len() == self@.len()
        &&& forall|i: int| 0 <= i < self@.len() ==> (#[trigger] self@[i]).converts_to(l@.elems()[i])
    }

    /// An unnamed list of the converted elements, in order.
    fn into_list(self) -> (r: List) {
        let s = crate::into_r::vec_of_into_r_to_list(self);
        proof {
            s.lemma_type_consistent();
        }
        List::wrap(s)
    }
}

/// Fixed-size list construction: a list of `NULL`s whose slots are filled
/// one by one.
pub struct ListBuilder {
    list: Sexp,
}

impl View for ListBuilder {
    type V = Sexp;

    closed spec fn view(&self) -> Sexp {
        self.list
    }
}

impl ListBuilder {
    #[verifier::type_invariant]
    closed spec fn inv(self) -> bool {
        self.list.stype() == SEXPTYPE::VECSXP && self.list.slen() <= isize::MAX
    }

    /// A builder for a list of `len` elements, all `NULL`.
    pub fn new(len: usize) -> (r: ListBuilder)
        requires
            len <= isize::MAX,
        ensures
            r@.stype() == SEXPTYPE::VECSXP,
            r@.bare(),
            r@.elems().len() == len,
            forall|i: int| 0 <= i < len ==> (#[trigger] r@.elems()[i]).stype() == SEXPTYPE::NILSXP,
    {
        let mut v: Vec<Sexp> = Vec::new();
        let mut i: usize = 0;
        while i < len
            invariant
                i <= len,
                v@.len() == i,
                forall|k: int| 0 <= k < i ==> (#[trigger] v@[k]).stype() == SEXPTYPE::NILSXP,
            decreases len - i,
        {
            v.push(Sexp::nil());
            i = i + 1;
        }
        ListBuilder { list: Sexp::list(v) }
    }

    /// Fill slot `idx` with `child`.
    pub fn set(&mut self, idx: isize, child: Sexp)
        requires
            0 <= idx < old(self)@.elems().len(),
        ensures
            final(self)@.elems() == old(self)@.elems().update(idx as int, child),
            forall|n: Seq<char>| #[trigger] final(self)@.attr(n) == old(self)@.attr(n),
    {
        proof {
            use_type_invariant(&*self);
            self.list.lemma_type_consistent();
        }
        let mut s = Sexp::list(Vec::new());
        std::mem::swap(&mut s, &mut self.list);
        s.set_elem(idx as usize, child);
        *self = ListBuilder { list: s };
    }

    /// The list built so far.
    pub fn as_sexp(&self) -> (r: &Sexp)
        ensures
            *r == self@,
    {
        &self.list
    }

    /// Finish as a [`List`].
    pub fn into_list(self) -> (r: List)
        ensures
            r@ == self@,
    {
        proof {
            use_type_invariant(&self);
        }
        List::wrap(self.list)
    }

    /// Finish as an R object.
    pub fn into_sexp(self) -> (r: Sexp)
        ensures
            r == self@,
    {
        self.list
    }

    /// Number of slots.
    pub fn len(&self) -> (r: isize)
        ensures
            r == self@.elems().len(),
    {
        proof {
            use_type_invariant(self);
            self.list.lemma_type_consistent();
        }
        self.list.xlength() as isize
    }

    /// Whether there are no slots.
    pub fn is_empty(&self) -> (r: bool)
        ensures
            r == (self@.elems().len() == 0),
    {
        self.len() == 0
    }
}

/// Conversion of an R list into a Rust collection.
pub trait TryFromList: Sized {
    /// Why a conversion can fail.
    type Error;

    /// The lists this conversion accepts.
    spec fn accepts_list(list: Sexp) -> bool;

    /// Convert the list.
    fn try_from_list(list: List) -> (r: Result<Self, Self::Error>)
        ensures
            r is Ok <==> Self::accepts_list(list@),
    ;
}

impl<T: TryFromSexp<Error = SexpError>> TryFromList for Vec<T> {
    type Error = SexpError;

    open spec fn accepts_list(list: Sexp) -> bool {
        forall|i: int| 0 <= i < list.elems().len() ==> T::accepts(#[trigger] list.elems()[i])
    }

    /// Every element converted, in order; the first element that does not
    /// convert gives the error.
    fn try_from_list(list: List) -> (r: Result<Vec<T>, SexpError>)
        ensures
            r matches Ok(v) ==> v@.len() == list@.elems().len() && forall|i: int|
                0 <= i < v@.len() ==> T::decodes(list@.elems()[i], #[trigger] v@[i]),
    {
        let elems = list.as_sexp().elem_slice();
        let mut out: Vec<T> = Vec::new();
        let mut i: usize = 0;
        while i < elems.len()
            invariant
                elems@ == list@.elems(),
                i <= elems@.len(),
                out@.len() == i,
                forall|k: int| 0 <= k < i ==> T::accepts(#[trigger] elems@[k]),
                forall|k: int| 0 <= k < i ==> T::decodes(elems@[k], #[trigger] out@[k]),
            decreases elems@.len() - i,
        {
            match T::try_from_sexp(&elems[i]) {
                Ok(v) => out.push(v),
                Err(e) => {
                    return Err(e);
                },
            }
            i = i + 1;
        }
        Ok(out)
    }
}

/// Error for a list with two elements under one non-empty name.
#[derive(Debug, Clone)]
pub struct DuplicateNameError {
    /// The repeated name.
    pub name: String,
}

/// Error converting an R object into a [`List`].
#[derive(Debug, Clone)]
pub enum ListFromSexpError {
    /// Neither a list nor a pairlist.
    Type(SexpTypeError),
    /// Two elements share a non-empty name.
    DuplicateName(DuplicateNameError),
}

/// What a [`ListFromSexpError`] says.
pub enum ListFromSexpErrorView {
    Type(SexpTypeError),
    DuplicateName(Seq<char>),
}

impl View for ListFromSexpError {
    type V = ListFromSexpErrorView;

    open spec fn view(&self) -> ListFromSexpErrorView {
        match self {
            ListFromSexpError::Type(e) => ListFromSexpErrorView::Type(*e),
            ListFromSexpError::DuplicateName(d) => ListFromSexpErrorView::DuplicateName(d.name@),
        }
    }
}

/// Text of a [`DuplicateNameError`].
pub open spec fn duplicate_name_text(name: Seq<char>) -> Seq<char> {
    "list has duplicate name: "@ + debug_str(name)
}

impl DuplicateNameError {
    /// The error's message.
    pub fn to_string(&self) -> (r: String)
        ensures
            r@ == duplicate_name_text(self.name@),
    {
        let q = debug_string(self.name.as_str());
        crate::text::join_strs("list has duplicate name: ", q.as_str())
    }
}

impl ListFromSexpError {
    /// The error's message.
    pub fn to_string(&self) -> (r: String)
        ensures
            r@ == match self@ {
                ListFromSexpErrorView::Type(e) => type_error_text(e),
                ListFromSexpErrorView::DuplicateName(n) => duplicate_name_text(n),
            },
    {
        match self {
            ListFromSexpError::Type(e) => e.to_string(),
            ListFromSexpError::DuplicateName(d) => d.to_string(),
        }
    }
}

impl From<SexpTypeError> for ListFromSexpError {
    fn from(e: SexpTypeError) -> (r: Self) {
        ListFromSexpError::Type(e)
    }
}

impl vstd::std_specs::convert::FromSpecImpl<SexpTypeError> for ListFromSexpError {
    open spec fn obeys_from_spec() -> bool {
        true
    }

    open spec fn from_spec(v: SexpTypeError) -> Self {
        ListFromSexpError::Type(v)
    }
}

/// Element `j` carries a non-empty name that an earlier element carries.
pub open spec fn repeats_name(s: Sexp, j: int) -> bool {
    &&& 0 <= j < s.elems().len()
    &&& name_at(s, j) matches Some(t) && t.len() > 0
    &&& exists|i: int| 0 <= i < j && name_at(s, i) == name_at(s, j)
}

/// No two elements share a non-empty name.
pub open spec fn names_unique(s: Sexp) -> bool {
    forall|j: int| !#[trigger] repeats_name(s, j)
}

/// The first position whose name repeats.
pub open spec fn first_repeated_name(s: Sexp, j: int) -> bool {
    repeats_name(s, j) && forall|k: int| 0 <= k < j ==> !#[trigger] repeats_name(s, k)
}

/// Position of the first element whose non-empty name repeats.
fn find_repeated_name(s: &Sexp) -> (r: Option<usize>)
    ensures
        r is None <==> names_unique(*s),
        r matches Some(j) ==> first_repeated_name(*s, j as int),
{
    let n = s.elem_slice().len();
    let mut j: usize = 0;
    while j < n
        invariant
            n == s.elems().len(),
            j <= n,
            forall|k: int| 0 <= k < j ==> !#[trigger] repeats_name(*s, k),
        decreases n - j,
    {
        match s.elem_name(j) {
            Some(t) => {
                if t.as_str().unicode_len() > 0 {
                    let mut i: usize = 0;
                    while i < j
                        invariant
                            n == s.elems().len(),
                            i <= j < n,
                            name_at(*s, j as int) == Some(t@),
                            t@.len() > 0,
                            forall|k: int| 0 <= k < i ==> name_at(*s, k) != Some(t@),
                            forall|k: int| 0 <= k < j ==> !#[trigger] repeats_name(*s, k),
                        decreases j - i,
                    {
                        match s.elem_name(i) {
                            Some(u) => {
                                if str_eq(u.as_str(), t.as_str()) {
                                    proof {
                                        assert(repeats_name(*s, j as int));
                                    }
                                    return Some(j);
                                }
                            },
                            None => {},
                        }
                        i = i + 1;
                    }
                }
            },
            None => {},
        }
        j = j + 1;
    }
    proof {
        assert forall|k: int| !#[trigger] repeats_name(*s, k) by {
            if 0 <= k < n {
            }
        }
    }
    None
}

/// What converting `s` into a [`List`] fails with, if it does.
pub open spec fn list_conversion_error(s: Sexp) -> Option<ListFromSexpErrorView> {
    if s.stype() != SEXPTYPE::VECSXP && s.stype() != SEXPTYPE::LISTSXP {
        Some(
            ListFromSexpErrorView::Type(SexpTypeError { expected: SEXPTYPE::VECSXP, actual: s.stype() }),
        )
    } else if !names_unique(s) {
        let j = choose|j: int| first_repeated_name(s, j);
        Some(ListFromSexpErrorView::DuplicateName(name_at(s, j)->0))
    } else {
        None
    }
}

/// `l` is `s` read as a list: the same elements under the same names (a
/// list is copied as it is, a pairlist's elements move into a list and keep
/// their tags as names).
pub open spec fn list_read_from(s: Sexp, l: Sexp) -> bool {
    &&& l.stype() == SEXPTYPE::VECSXP
    &&& l.elems().len() == s.elems().len()
    &&& forall|i: int| 0 <= i < s.elems().len() ==> sexp_eq(#[trigger] s.elems()[i], l.elems()[i])
    &&& forall|i: int| 0 <= i < s.elems().len() ==> #[trigger] name_at(l, i) == name_at(s, i)
    &&& s.stype() == SEXPTYPE::VECSXP ==> sexp_eq(s, l)
}

impl List {
    /// Read an R list (a pairlist is turned into a list), rejecting other
    /// types and two elements under one non-empty name.
    pub fn try_from_sexp_checked(sexp: &Sexp) -> (r: Result<List, ListFromSexpError>)
        requires
            sexp.slen() <= isize::MAX,
        ensures
            r is Ok <==> list_conversion_error(*sexp) is None,
            r matches Err(e) ==> list_conversion_error(*sexp) == Some(e@),
            r matches Ok(l) ==> list_read_from(*sexp, l@),
    {
        let actual = sexp.type_of();
        if actual != SEXPTYPE::VECSXP && actual != SEXPTYPE::LISTSXP {
            return Err(ListFromSexpError::Type(SexpTypeError { expected: SEXPTYPE::VECSXP, actual }));
        }
        match find_repeated_name(sexp) {
            Some(j) => {
                let name = match sexp.elem_name(j) {
                    Some(t) => t.clone(),
                    None => String::new(),
                };
                proof {
                    let c = choose|c: int| first_repeated_name(*sexp, c);
                    assert(c == j as int) by {
                        if c < j {
                            assert(!repeats_name(*sexp, c));
                        } else if c > j {
                            assert(!repeats_name(*sexp, j as int));
                        }
                    }
                }
                return Err(ListFromSexpError::DuplicateName(DuplicateNameError { name }));
            },
            None => {},
        }
        let copy = sexp.deep_clone();
        proof {
            Sexp::lemma_sexp_eq_payload(*sexp, copy);
            copy.lemma_type_consistent();
            sexp.lemma_type_consistent();
        }
        let l = copy.into_vecsxp();
        proof {
            l.lemma_type_consistent();
            assert forall|i: int| 0 <= i < sexp.elems().len() implies #[trigger] name_at(l, i)
                == name_at(*sexp, i) by {
                assert(l.attr("names"@) == copy.attr("names"@));
                assert(name_at(copy, i) == name_at(*sexp, i));
            }
        }
        Ok(List::wrap(l))
    }
}

/// The error for an object too long to index with an `isize` (never an R
/// object: R lengths fit `R_xlen_t`).
fn too_long(s: &Sexp) -> (r: ListFromSexpError)
    ensures
        r@ == ListFromSexpErrorView::Type(SexpTypeError { expected: SEXPTYPE::VECSXP, actual: s.stype() }),
{
    ListFromSexpError::Type(SexpTypeError { expected: SEXPTYPE::VECSXP, actual: s.type_of() })
}

impl TryFromSexp for List {
    type Error = ListFromSexpError;

    open spec fn accepts(sexp: Sexp) -> bool {
        list_conversion_error(sexp) is None && sexp.slen() <= isize::MAX
    }

    open spec fn decodes(sexp: Sexp, value: List) -> bool {
        list_read_from(sexp, value@)
    }

    /// A list, or a pairlist turned into a list; two elements under one
    /// non-empty name are rejected.
    fn try_from_sexp(sexp: &Sexp) -> (r: Result<List, ListFromSexpError>)
        ensures
            r matches Err(e) ==> list_conversion_error(*sexp) == Some(e@) || sexp.slen()
                > isize::MAX,
    {
        if sexp.xlength() > isize::MAX as usize {
            if sexp.type_of() != SEXPTYPE::VECSXP && sexp.type_of() != SEXPTYPE::LISTSXP {
                return List::try_from_sexp_checked_type(sexp);
            }
            return Err(too_long(sexp));
        }
        List::try_from_sexp_checked(sexp)
    }
}

impl List {
    /// The type error for an object that is neither a list nor a pairlist.
    fn try_from_sexp_checked_type(sexp: &Sexp) -> (r: Result<List, ListFromSexpError>)
        requires
            sexp.stype() != SEXPTYPE::VECSXP && sexp.stype() != SEXPTYPE::LISTSXP,
        ensures
            r matches Err(e) && list_conversion_error(*sexp) == Some(e@),
    {
        Err(ListFromSexpError::Type(SexpTypeError { expected: SEXPTYPE::VECSXP, actual: sexp.type_of() }))
    }
}

impl TryFromSexp for Option<List> {
    type Error = SexpError;

    open spec fn accepts(sexp: Sexp) -> bool {
        sexp.stype() == SEXPTYPE::NILSXP || <List as TryFromSexp>::accepts(sexp)
    }

    open spec fn decodes(sexp: Sexp, value: Option<List>) -> bool {
        if sexp.stype() == SEXPTYPE::NILSXP {
            value is None
        } else {
            value matches Some(l) && list_read_from(sexp, l@)
        }
    }

    /// `NULL` is `None`; anything else converts as a [`List`], its error
    /// reported as an invalid value.
    fn try_from_sexp(sexp: &Sexp) -> (r: Result<Option<List>, SexpError>) {
        if sexp.is_nil() {
            return Ok(None);
        }
        match List::try_from_sexp(sexp) {
            Ok(l) => Ok(Some(l)),
            Err(e) => Err(SexpError::InvalidValue(e.to_string())),
        }
    }
}

impl ListMut {
    #[verifier::type_invariant]
    closed spec fn inv(self) -> bool {
        self.0.stype() == SEXPTYPE::VECSXP
    }

    /// The underlying R object.
    pub fn as_sexp(&self) -> (r: &Sexp)
        ensures
            *r == self@,
    {
        &self.0
    }

    /// Replace element `idx`.
    pub fn set_elt(&mut self, idx: usize, child: Sexp)
        requires
            idx < old(self)@.elems().len(),
        ensures
            final(self)@.elems() == old(self)@.elems().update(idx as int, child),
            forall|n: Seq<char>| #[trigger] final(self)@.attr(n) == old(self)@.attr(n),
    {
        proof {
            use_type_invariant(&*self);
        }
        let mut s = Sexp::list(Vec::new());
        std::mem::swap(&mut s, &mut self.0);
        s.set_elem(idx, child);
        *self = ListMut(s);
    }
}

impl TryFromSexp for ListMut {
    type Error = SexpError;

    open spec fn accepts(sexp: Sexp) -> bool {
        sexp.stype() == SEXPTYPE::VECSXP
    }

    open spec fn decodes(sexp: Sexp, value: ListMut) -> bool {
        sexp_eq(sexp, value@)
    }

    /// A list (`VECSXP`) only.
    fn try_from_sexp(sexp: &Sexp) -> (r: Result<ListMut, SexpError>)
        ensures
            r matches Err(e) ==> e@ == SexpErrorView::Type(
                SexpTypeError { expected: SEXPTYPE::VECSXP, actual: sexp.stype() },
            ),
    {
        let actual = sexp.type_of();
        if actual != SEXPTYPE::VECSXP {
            return Err(SexpError::Type(SexpTypeError { expected: SEXPTYPE::VECSXP, actual }));
        }
        let c = sexp.deep_clone();
        proof {
            Sexp::lemma_sexp_eq_payload(*sexp, c);
        }
        Ok(ListMut(c))
    }
}

impl TryFromSexp for Option<ListMut> {
    type Error = SexpError;

    open spec fn accepts(sexp: Sexp) -> bool {
        sexp.stype() == SEXPTYPE::NILSXP || sexp.stype() == SEXPTYPE::VECSXP
    }

    open spec fn decodes(sexp: Sexp, value: Option<ListMut>) -> bool {
        if sexp.stype() == SEXPTYPE::NILSXP {
            value is None
        } else {
            value matches Some(l) && sexp_eq(sexp, l@)
        }
    }

    /// `NULL` is `None`; anything else converts as a [`ListMut`].
    fn try_from_sexp(sexp: &Sexp) -> (r: Result<Option<ListMut>, SexpError>) {
        if sexp.is_nil() {
            return Ok(None);
        }
        match ListMut::try_from_sexp(sexp) {
            Ok(l) => Ok(Some(l)),
            Err(e) => Err(e),
        }
    }
}

impl IntoR for List {
    type Error = Infallible;

    open spec fn into_r_ok(self) -> bool {
        true
    }

    open spec fn converts_to(self, s: Sexp) -> bool {
        s == self@
    }

    /// The list itself.
    fn try_into_sexp(self) -> (r: Result<Sexp, Infallible>) {
        Ok(self.into_sexp())
    }
}

impl IntoR for ListMut {
    type Error = Infallible;

    open spec fn into_r_ok(self) -> bool {
        true
    }

    open spec fn converts_to(self, s: Sexp) -> bool {
        s == self@
    }

    /// The list itself.
    fn try_into_sexp(self) -> (r: Result<Sexp, Infallible>) {
        let ListMut(s) = self;
        Ok(s)
    }
}

impl IntoR for Vec<List> {
    type Error = Infallible;

    open spec fn into_r_ok(self) -> bool {
        true
    }

    open spec fn converts_to(self, s: Sexp) -> bool {
        &&& s.stype() == SEXPTYPE::VECSXP
        &&& s.bare()
        &&& s.elems().len() == self@.len()
        &&& forall|i: int| 0 <= i < self@.len() ==> s.elems()[i] == (#[trigger] self@[i])@
    }

    /// A list of the lists.
    fn try_into_sexp(self) -> (r: Result<Sexp, Infallible>) {
        Ok(crate::into_r::vec_of_into_r_to_list(self))
    }
}

impl IntoR for Vec<Option<List>> {
    type Error = Infallible;

    open spec fn into_r_ok(self) -> bool {
        true
    }

    open spec fn converts_to(self, s: Sexp) -> bool {
        &&& s.stype() == SEXPTYPE::VECSXP
        &&& s.bare()
        &&& s.elems().len() == self@.len()
        &&& forall|i: int|
            0 <= i < self@.len() ==> match #[trigger] self@[i] {
                Some(l) => s.elems()[i] == l@,
                None => s.elems()[i].stype() == SEXPTYPE::NILSXP,
            }
    }

    /// A list of the lists, `NULL` for each `None`.
    fn try_into_sexp(self) -> (r: Result<Sexp, Infallible>) {
        Ok(crate::into_r::vec_option_of_into_r_to_list(self))
    }
}

/// Reading an attribute back after setting it gives the value set (nothing,
/// for `NULL`); every other attribute reads as it did before.
pub proof fn lemma_attr_read_after_set(
    before: Sexp,
    after: Sexp,
    name: Seq<char>,
    value: Sexp,
    other: Seq<char>,
    r: Option<&Sexp>,
)
    requires
        attr_set(before, after, name, value),
    ensures
        attr_read(after, name, r) ==> (if value.stype() == SEXPTYPE::NILSXP {
            r is None
        } else {
            r == Some(&value)
        }),
        other != name ==> (attr_read(after, other, r) <==> attr_read(before, other, r)),
        after.elems() == before.elems(),
{
}

/// Reading element `idx` back after replacing it gives the new element;
/// every other element, the length and every attribute read as before.
pub proof fn lemma_get_after_set_elt(before: Sexp, after: Sexp, idx: int, child: Sexp, j: int)
    requires
        0 <= idx < before.elems().len(),
        after.elems() == before.elems().update(idx, child),
        forall|n: Seq<char>| #[trigger] after.attr(n) == before.attr(n),
    ensures
        after.elems().len() == before.elems().len(),
        after.elems()[idx] == child,
        0 <= j < before.elems().len() && j != idx ==> after.elems()[j] == before.elems()[j],
        forall|k: int| name_at(after, k) == name_at(before, k),
{
}

/// Looking a name up in a list built from `(name, value)` pairs finds the
/// value of the first pair with that name, and finds nothing when no pair
/// has it.
pub proof fn lemma_lookup_after_from_pairs(
    pairs: Seq<(String, Sexp)>,
    l: Sexp,
    name: Seq<char>,
    i: int,
)
    requires
        l.elems().len() == pairs.len(),
        forall|k: int| 0 <= k < pairs.len() ==> l.elems()[k] == (#[trigger] pairs[k]).1,
        forall|k: int| 0 <= k < pairs.len() ==> name_at(l, k) == Some((#[trigger] pairs[k]).0@),
    ensures
        first_named(l, name, i) <==> (0 <= i < pairs.len() && pairs[i].0@ == name && forall|k: int|
            0 <= k < i ==> (#[trigger] pairs[k]).0@ != name),
        first_named(l, name, i) ==> l.elems()[i] == pairs[i].1,
        has_name(l, name) <==> exists|k: int| 0 <= k < pairs.len() && (#[trigger] pairs[k]).0@ == name,
{
    if has_name(l, name) {
        let k = choose|k: int| 0 <= k < l.elems().len() && name_at(l, k) == Some(name);
        assert(pairs[k].0@ == name);
    }
    if exists|k: int| 0 <= k < pairs.len() && (#[trigger] pairs[k]).0@ == name {
        let k = choose|k: int| 0 <= k < pairs.len() && (#[trigger] pairs[k]).0@ == name;
        assert(name_at(l, k) == Some(name));
    }
    if 0 <= i < pairs.len() && pairs[i].0@ == name && forall|k: int|
        0 <= k < i ==> (#[trigger] pairs[k]).0@ != name {
        assert forall|k: int| 0 <= k < i implies name_at(l, k) != Some(name) by {
            assert(pairs[k].0@ != name);
        }
    }
    if first_named(l, name, i) {
        assert forall|k: int| 0 <= k < i implies (#[trigger] pairs[k]).0@ != name by {
            assert(name_at(l, k) != Some(name));
        }
    }
}

/// A list whose non-empty names are all different reads back, through
/// [`TryFromSexp`], as the same list.
pub proof fn lemma_list_round_trip(s: Sexp, back: List)
    requires
        s.stype() == SEXPTYPE::VECSXP,
        s.slen() <= isize::MAX,
        names_unique(s),
        <List as TryFromSexp>::decodes(s, back),
    ensures
        <List as TryFromSexp>::accepts(s),
        sexp_eq(s, back@),
{
}

/// Among repeated names there is a first position whose name repeats.
proof fn lemma_first_repeat_exists(s: Sexp, j: int)
    requires
        repeats_name(s, j),
    ensures
        exists|f: int| first_repeated_name(s, f),
    decreases j,
{
    if exists|k: int| 0 <= k < j && #[trigger] repeats_name(s, k) {
        let k = choose|k: int| 0 <= k < j && #[trigger] repeats_name(s, k);
        lemma_first_repeat_exists(s, k);
    } else {
        assert(first_repeated_name(s, j));
    }
}

/// A list or pairlist in which two elements, at any positions, carry the
/// same non-empty name is refused as having a duplicate name, and the name
/// it reports is carried by two of its elements.
pub proof fn lemma_any_repeated_name_is_refused(s: Sexp, i: int, j: int)
    requires
        s.stype() == SEXPTYPE::VECSXP || s.stype() == SEXPTYPE::LISTSXP,
        0 <= i < j < s.elems().len(),
        name_at(s, i) == name_at(s, j),
        name_at(s, j) matches Some(t) && t.len() > 0,
    ensures
        list_conversion_error(s) matches Some(ListFromSexpErrorView::DuplicateName(n)) && exists|a: int, b: int|
            0 <= a < b < s.elems().len() && name_at(s, a) == Some(n) && name_at(s, b) == Some(n),
{
    assert(repeats_name(s, j));
    lemma_first_repeat_exists(s, j);
    let f = choose|f: int| first_repeated_name(s, f);
    assert(!names_unique(s));
    let a = choose|a: int| 0 <= a < f && name_at(s, a) == name_at(s, f);
    assert(name_at(s, a) == name_at(s, f));
}
} // verus!
