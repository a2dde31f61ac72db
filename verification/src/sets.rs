//! Sets of narrow integers converted to R integer vectors, each element
//! once and widened: a `BTreeSet` in increasing order, a `HashSet` in its
//! iteration order.
use crate::into_r::IntoR;
use crate::sexp::{Sexp, SEXPTYPE};
use std::collections::{BTreeSet, HashSet};
use std::convert::Infallible;
use vstd::prelude::*;
use vstd::std_specs::cmp::OrdSpec;

verus! {

broadcast use vstd::std_specs::btree::group_btree_axioms, vstd::std_specs::hash::group_hash_axioms,
    vstd::laws_cmp::group_laws_cmp;

/// The keys of a B-tree set of `i8` come in increasing order.
proof fn lemma_increasing_i8_keys(keys: Seq<&i8>)
    requires
        vstd::std_specs::btree::increasing_seq(keys),
    ensures
        forall|i: int, j: int| 0 <= i < j < keys.len() ==> keys.unref()[i] < keys.unref()[j],
{
    assert(vstd::laws_cmp::obeys_cmp::<i8>());
    assert(vstd::laws_cmp::obeys_cmp::<&i8>());
    vstd::std_specs::btree::axiom_increasing_seq_meaning(keys);
    assert forall|i: int, j: int| 0 <= i < j < keys.len() implies keys.unref()[i] < keys.unref()[j] by {
        assert(OrdSpec::cmp_spec(&keys[i], &keys[j]) is Less);
        assert(OrdSpec::cmp_spec(keys[i], keys[j]) is Less);
    }
}

impl IntoR for BTreeSet<i8> {
    type Error = Infallible;

    open spec fn into_r_ok(self) -> bool {
        true
    }

    open spec fn converts_to(self, s: Sexp) -> bool {
        &&& s.stype() == SEXPTYPE::INTSXP
        &&& s.bare()
        &&& exists|keys: Seq<i8>|
            #![trigger keys.to_set()]
            {
                &&& keys.to_set() == self@
                &&& keys.no_duplicates()
                &&& forall|i: int, j: int| 0 <= i < j < keys.len() ==> keys[i] < keys[j]
                &&& s.ints() == keys.map_values(|k: i8| k as i32)
            }
    }

    /// An integer vector of the elements, widened, in increasing order.
    fn try_into_sexp(self) -> (r: Result<Sexp, Infallible>) {
        let mut v: Vec<i32> = Vec::new();
        let ghost keys = vstd::std_specs::iter::IteratorSpec::remaining(
            &vstd::std_specs::btree::spec_btree_keys_iter(&self),
        );
        for x in it: self.iter()
            invariant
                v@ == it.seq().subrange(0, it.index() as int).map_values(|y: &i8| *y as i32),
                it.seq() == keys,
        {
            v.push(*x as i32);
            proof {
                assert(it.seq().subrange(0, it.index() + 1).map_values(|y: &i8| *y as i32)
                    =~= it.seq().subrange(0, it.index() as int).map_values(|y: &i8| *y as i32).push(
                    *x as i32,
                ));
            }
        }
        proof {
            let ks = keys.unref();
            assert(v@ =~= ks.map_values(|k: i8| k as i32));
            assert(ks.to_set() == self@);
            assert(keys.no_duplicates());
            assert(ks.no_duplicates());
            lemma_increasing_i8_keys(keys);
        }
        Ok(Sexp::integer(v))
    }
}

impl IntoR for HashSet<i8> {
    type Error = Infallible;

    open spec fn into_r_ok(self) -> bool {
        true
    }

    open spec fn converts_to(self, s: Sexp) -> bool {
        &&& s.stype() == SEXPTYPE::INTSXP
        &&& s.bare()
        &&& exists|keys: Seq<i8>|
            #![trigger keys.to_set()]
            {
                &&& keys.to_set() == self@
                &&& keys.no_duplicates()
                &&& s.ints() == keys.map_values(|k: i8| k as i32)
            }
    }

    /// An integer vector of the elements, widened, in the set's iteration
    /// order.
    fn try_into_sexp(self) -> (r: Result<Sexp, Infallible>) {
        let mut v: Vec<i32> = Vec::new();
        let ghost keys = vstd::std_specs::iter::IteratorSpec::remaining(
            &vstd::std_specs::hash::spec_hash_keys_iter(&self),
        );
        for x in it: self.iter()
            invariant
                v@ == it.seq().subrange(0, it.index() as int).map_values(|y: &i8| *y as i32),
                it.seq() == keys,
        {
            v.push(*x as i32);
            proof {
                assert(it.seq().subrange(0, it.index() + 1).map_values(|y: &i8| *y as i32)
                    =~= it.seq().subrange(0, it.index() as int).map_values(|y: &i8| *y as i32).push(
                    *x as i32,
                ));
            }
        }
        proof {
            let ks = keys.unref();
            assert(v@ =~= ks.map_values(|k: i8| k as i32));
            assert(ks.to_set() == self@);
            assert(keys.no_duplicates());
            assert(ks.no_duplicates());
        }
        Ok(Sexp::integer(v))
    }
}

/// The keys of a B-tree set of `i16` come in increasing order.
proof fn lemma_increasing_i16_keys(keys: Seq<&i16>)
    requires
        vstd::std_specs::btree::increasing_seq(keys),
    ensures
        forall|i: int, j: int| 0 <= i < j < keys.len() ==> keys.unref()[i] < keys.unref()[j],
{
    assert(vstd::laws_cmp::obeys_cmp::<i16>());
    assert(vstd::laws_cmp::obeys_cmp::<&i16>());
    vstd::std_specs::btree::axiom_increasing_seq_meaning(keys);
    assert forall|i: int, j: int| 0 <= i < j < keys.len() implies keys.unref()[i] < keys.unref()[j] by {
        assert(OrdSpec::cmp_spec(&keys[i], &keys[j]) is Less);
        assert(OrdSpec::cmp_spec(keys[i], keys[j]) is Less);
    }
}

impl IntoR for BTreeSet<i16> {
    type Error = Infallible;

    open spec fn into_r_ok(self) -> bool {
        true
    }

    open spec fn converts_to(self, s: Sexp) -> bool {
        &&& s.stype() == SEXPTYPE::INTSXP
        &&& s.bare()
        &&& exists|keys: Seq<i16>|
            #![trigger keys.to_set()]
            {
                &&& keys.to_set() == self@
                &&& keys.no_duplicates()
                &&& forall|i: int, j: int| 0 <= i < j < keys.len() ==> keys[i] < keys[j]
                &&& s.ints() == keys.map_values(|k: i16| k as i32)
            }
    }

    /// An integer vector of the elements, widened, in increasing order.
    fn try_into_sexp(self) -> (r: Result<Sexp, Infallible>) {
        let mut v: Vec<i32> = Vec::new();
        let ghost keys = vstd::std_specs::iter::IteratorSpec::remaining(
            &vstd::std_specs::btree::spec_btree_keys_iter(&self),
        );
        for x in it: self.iter()
            invariant
                v@ == it.seq().subrange(0, it.index() as int).map_values(|y: &i16| *y as i32),
                it.seq() == keys,
        {
            v.push(*x as i32);
            proof {
                assert(it.seq().subrange(0, it.index() + 1).map_values(|y: &i16| *y as i32)
                    =~= it.seq().subrange(0, it.index() as int).map_values(|y: &i16| *y as i32).push(
                    *x as i32,
                ));
            }
        }
        proof {
            let ks = keys.unref();
            assert(v@ =~= ks.map_values(|k: i16| k as i32));
            assert(ks.to_set() == self@);
            assert(keys.no_duplicates());
            assert(ks.no_duplicates());
            lemma_increasing_i16_keys(keys);
        }
        Ok(Sexp::integer(v))
    }
}

impl IntoR for HashSet<i16> {
    type Error = Infallible;

    open spec fn into_r_ok(self) -> bool {
        true
    }

    open spec fn converts_to(self, s: Sexp) -> bool {
        &&& s.stype() == SEXPTYPE::INTSXP
        &&& s.bare()
        &&& exists|keys: Seq<i16>|
            #![trigger keys.to_set()]
            {
                &&& keys.to_set() == self@
                &&& keys.no_duplicates()
                &&& s.ints() == keys.map_values(|k: i16| k as i32)
            }
    }

    /// An integer vector of the elements, widened, in the set's iteration
    /// order.
    fn try_into_sexp(self) -> (r: Result<Sexp, Infallible>) {
        let mut v: Vec<i32> = Vec::new();
        let ghost keys = vstd::std_specs::iter::IteratorSpec::remaining(
            &vstd::std_specs::hash::spec_hash_keys_iter(&self),
        );
        for x in it: self.iter()
            invariant
                v@ == it.seq().subrange(0, it.index() as int).map_values(|y: &i16| *y as i32),
                it.seq() == keys,
        {
            v.push(*x as i32);
            proof {
                assert(it.seq().subrange(0, it.index() + 1).map_values(|y: &i16| *y as i32)
                    =~= it.seq().subrange(0, it.index() as int).map_values(|y: &i16| *y as i32).push(
                    *x as i32,
                ));
            }
        }
        proof {
            let ks = keys.unref();
            assert(v@ =~= ks.map_values(|k: i16| k as i32));
            assert(ks.to_set() == self@);
            assert(keys.no_duplicates());
            assert(ks.no_duplicates());
        }
        Ok(Sexp::integer(v))
    }
}

/// The keys of a B-tree set of `u16` come in increasing order.
proof fn lemma_increasing_u16_keys(keys: Seq<&u16>)
    requires
        vstd::std_specs::btree::increasing_seq(keys),
    ensures
        forall|i: int, j: int| 0 <= i < j < keys.len() ==> keys.unref()[i] < keys.unref()[j],
{
    assert(vstd::laws_cmp::obeys_cmp::<u16>());
    assert(vstd::laws_cmp::obeys_cmp::<&u16>());
    vstd::std_specs::btree::axiom_increasing_seq_meaning(keys);
    assert forall|i: int, j: int| 0 <= i < j < keys.len() implies keys.unref()[i] < keys.unref()[j] by {
        assert(OrdSpec::cmp_spec(&keys[i], &keys[j]) is Less);
        assert(OrdSpec::cmp_spec(keys[i], keys[j]) is Less);
    }
}

impl IntoR for BTreeSet<u16> {
    type Error = Infallible;

    open spec fn into_r_ok(self) -> bool {
        true
    }

    open spec fn converts_to(self, s: Sexp) -> bool {
        &&& s.stype() == SEXPTYPE::INTSXP
        &&& s.bare()
        &&& exists|keys: Seq<u16>|
            #![trigger keys.to_set()]
            {
                &&& keys.to_set() == self@
                &&& keys.no_duplicates()
                &&& forall|i: int, j: int| 0 <= i < j < keys.len() ==> keys[i] < keys[j]
                &&& s.ints() == keys.map_values(|k: u16| k as i32)
            }
    }

    /// An integer vector of the elements, widened, in increasing order.
    fn try_into_sexp(self) -> (r: Result<Sexp, Infallible>) {
        let mut v: Vec<i32> = Vec::new();
        let ghost keys = vstd::std_specs::iter::IteratorSpec::remaining(
            &vstd::std_specs::btree::spec_btree_keys_iter(&self),
        );
        for x in it: self.iter()
            invariant
                v@ == it.seq().subrange(0, it.index() as int).map_values(|y: &u16| *y as i32),
                it.seq() == keys,
        {
            v.push(*x as i32);
            proof {
                assert(it.seq().subrange(0, it.index() + 1).map_values(|y: &u16| *y as i32)
                    =~= it.seq().subrange(0, it.index() as int).map_values(|y: &u16| *y as i32).push(
                    *x as i32,
                ));
            }
        }
        proof {
            let ks = keys.unref();
            assert(v@ =~= ks.map_values(|k: u16| k as i32));
            assert(ks.to_set() == self@);
            assert(keys.no_duplicates());
            assert(ks.no_duplicates());
            lemma_increasing_u16_keys(keys);
        }
        Ok(Sexp::integer(v))
    }
}

impl IntoR for HashSet<u16> {
    type Error = Infallible;

    open spec fn into_r_ok(self) -> bool {
        true
    }

    open spec fn converts_to(self, s: Sexp) -> bool {
        &&& s.stype() == SEXPTYPE::INTSXP
        &&& s.bare()
        &&& exists|keys: Seq<u16>|
            #![trigger keys.to_set()]
            {
                &&& keys.to_set() == self@
                &&& keys.no_duplicates()
                &&& s.ints() == keys.map_values(|k: u16| k as i32)
            }
    }

    /// An integer vector of the elements, widened, in the set's iteration
    /// order.
    fn try_into_sexp(self) -> (r: Result<Sexp, Infallible>) {
        let mut v: Vec<i32> = Vec::new();
        let ghost keys = vstd::std_specs::iter::IteratorSpec::remaining(
            &vstd::std_specs::hash::spec_hash_keys_iter(&self),
        );
        for x in it: self.iter()
            invariant
                v@ == it.seq().subrange(0, it.index() as int).map_values(|y: &u16| *y as i32),
                it.seq() == keys,
        {
            v.push(*x as i32);
            proof {
                assert(it.seq().subrange(0, it.index() + 1).map_values(|y: &u16| *y as i32)
                    =~= it.seq().subrange(0, it.index() as int).map_values(|y: &u16| *y as i32).push(
                    *x as i32,
                ));
            }
        }
        proof {
            let ks = keys.unref();
            assert(v@ =~= ks.map_values(|k: u16| k as i32));
            assert(ks.to_set() == self@);
            assert(keys.no_duplicates());
            assert(ks.no_duplicates());
        }
        Ok(Sexp::integer(v))
    }
}

} // verus!
