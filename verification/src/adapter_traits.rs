//! Adapter traits that expose common standard-library traits to R.
//!
//! Each trait has a blanket implementation for every type implementing the
//! corresponding standard trait, except [`RIterator`], [`RExtend`] and
//! [`RMakeIter`], which stateful wrapper types implement by hand with
//! interior mutability, since R hands out `&self`.
use crate::text::hex16;
use crate::text::hex16_string;
use std::fmt::{Debug, Display};
use std::collections::hash_map::DefaultHasher;
use std::hash::{Hash, Hasher};
use vstd::prelude::*;
use vstd::std_specs::cmp::OrdSpec;
use vstd::std_specs::cmp::PartialOrdSpec;

verus! {

/// Feed `x` to `hasher` (`Hash::hash`); what it writes is up to `T`'s impl.
#[verifier::external_body]
fn feed_hasher<T: Hash + ?Sized>(x: &T, hasher: &mut DefaultHasher) {
    x.hash(hasher)
}

/// `format!("{:?}", x)`: the text is whatever `T`'s `Debug` impl writes.
#[verifier::external_body]
fn debug_format<T: Debug + ?Sized>(x: &T) -> String {
    format!("{:?}", x)
}

/// `format!("{:#?}", x)`: the text is whatever `T`'s `Debug` impl writes.
#[verifier::external_body]
fn pretty_debug_format<T: Debug + ?Sized>(x: &T) -> String {
    format!("{:#?}", x)
}

/// Adapter for [`std::fmt::Debug`]: string representations for inspection
/// from R.
pub trait RDebug {
    /// Compact debug string (`{:?}`).
    fn debug_str(&self) -> String;

    /// Pretty-printed debug string (`{:#?}`).
    fn debug_str_pretty(&self) -> String;
}

impl<T: Debug> RDebug for T {
    fn debug_str(&self) -> String {
        debug_format(self)
    }

    fn debug_str_pretty(&self) -> String {
        pretty_debug_format(self)
    }
}

/// Adapter for [`std::fmt::Display`]: the user-facing string form.
pub trait RDisplay {
    /// The `Display` rendering.
    fn as_r_string(&self) -> String;
}

impl<T: Display> RDisplay for T {
    /// `ToString::to_string`, which renders through `T`'s `Display` impl.
    fn as_r_string(&self) -> (r: String)
        ensures
            vstd::string::to_string_from_display_ensures::<T>(self, r),
    {
        self.to_string()
    }
}

/// The form of every hash string: 16 lower-case hex digits of some 64-bit
/// digest.
pub open spec fn is_hash_string(s: Seq<char>) -> bool {
    exists|h: u64| s == hex16(h)
}

/// Adapter for [`std::hash::Hash`]: a hash string for deduplication and
/// keys in R.
pub trait RHash {
    /// The value's hash as a 16-character lower-case hex string.
    fn hash(&self) -> (r: String)
        ensures
            is_hash_string(r@),
    ;
}

impl<T: Hash> RHash for T {
    /// Hashes with `DefaultHasher` and renders the digest as `{:016x}`.
    fn hash(&self) -> (r: String) {
        let mut hasher = DefaultHasher::new();
        feed_hasher(self, &mut hasher);
        let digest = hasher.finish();
        let r = hex16_string(digest);
        proof {
            assert(r@ == hex16(digest));
        }
        r
    }
}

/// The number R sees for an ordering: `-1`, `0` or `1`.
pub open spec fn ordering_code(o: std::cmp::Ordering) -> i32 {
    match o {
        std::cmp::Ordering::Less => -1i32,
        std::cmp::Ordering::Equal => 0i32,
        std::cmp::Ordering::Greater => 1i32,
    }
}

/// Adapter for [`std::cmp::Ord`]: three-way comparison as an integer.
pub trait ROrd {
    /// Whether [`order_code`](ROrd::order_code) describes `cmp`.
    spec fn obeys_order_code() -> bool;

    /// The code `cmp` gives for the two values.
    spec fn order_code(&self, other: &Self) -> i32;

    /// `-1` if `self < other`, `0` if equal, `1` if `self > other`.
    fn cmp(&self, other: &Self) -> (r: i32)
        ensures
            -1 <= r <= 1,
            Self::obeys_order_code() ==> r == self.order_code(other),
    ;
}

/// `Ord::cmp` as `-1` / `0` / `1`.
pub fn ord_code<T: Ord + ?Sized>(a: &T, b: &T) -> (r: i32)
    ensures
        -1 <= r <= 1,
        T::obeys_cmp_spec() ==> r == ordering_code(a.cmp_spec(b)),
{
    let o = Ord::cmp(a, b);
    match o {
        std::cmp::Ordering::Less => -1,
        std::cmp::Ordering::Equal => 0,
        std::cmp::Ordering::Greater => 1,
    }
}

impl<T: Ord> ROrd for T {
    open spec fn obeys_order_code() -> bool {
        T::obeys_cmp_spec()
    }

    open spec fn order_code(&self, other: &Self) -> i32 {
        ordering_code(OrdSpec::cmp_spec(self, other))
    }

    /// [`ord_code`] of the two values.
    fn cmp(&self, other: &Self) -> i32 {
        ord_code(self, other)
    }
}

/// Adapter for [`std::cmp::PartialOrd`]: comparison that may be undefined.
pub trait RPartialOrd {
    /// Whether [`partial_order_code`](RPartialOrd::partial_order_code)
    /// describes `partial_cmp`.
    spec fn obeys_partial_order_code() -> bool;

    /// What `partial_cmp` gives for the two values.
    spec fn partial_order_code(&self, other: &Self) -> Option<i32>;

    /// `Some(-1 | 0 | 1)` when the values compare, `None` otherwise (e.g. NaN).
    fn partial_cmp(&self, other: &Self) -> (r: Option<i32>)
        ensures
            r matches Some(c) ==> -1 <= c <= 1,
            Self::obeys_partial_order_code() ==> r == self.partial_order_code(other),
    ;
}

/// `PartialOrd::partial_cmp` as `Some(-1 | 0 | 1)`, `None` kept.
pub fn partial_ord_code<T: PartialOrd + ?Sized>(a: &T, b: &T) -> (r: Option<i32>)
    ensures
        r matches Some(c) ==> -1 <= c <= 1,
        T::obeys_partial_cmp_spec() ==> r == match a.partial_cmp_spec(b) {
            Some(o) => Some(ordering_code(o)),
            None => None,
        },
{
    let o = PartialOrd::partial_cmp(a, b);
    match o {
        Some(std::cmp::Ordering::Less) => Some(-1),
        Some(std::cmp::Ordering::Equal) => Some(0),
        Some(std::cmp::Ordering::Greater) => Some(1),
        None => None,
    }
}

impl<T: PartialOrd> RPartialOrd for T {
    open spec fn obeys_partial_order_code() -> bool {
        T::obeys_partial_cmp_spec()
    }

    open spec fn partial_order_code(&self, other: &Self) -> Option<i32> {
        match PartialOrdSpec::partial_cmp_spec(self, other) {
            Some(o) => Some(ordering_code(o)),
            None => None,
        }
    }

    /// [`partial_ord_code`] of the two values.
    fn partial_cmp(&self, other: &Self) -> Option<i32> {
        partial_ord_code(self, other)
    }
}

/// Adapter for [`Clone`]: an explicit deep copy from R.
pub trait RClone {
    /// A clone of the value.
    fn clone(&self) -> Self where Self: Sized;
}

impl<T: Clone> RClone for T {
    /// `Clone::clone`.
    fn clone(&self) -> (r: Self)
        ensures
            call_ensures(T::clone, (self,), r),
    {
        Clone::clone(self)
    }
}

/// Adapter for [`Default`]: construct the default value from R.
pub trait RDefault {
    /// The default value.
    fn default() -> Self where Self: Sized;
}

impl<T: Default> RDefault for T {
    /// `Default::default`.
    fn default() -> (r: Self)
        ensures
            call_ensures(T::default, (), r),
    {
        T::default()
    }
}

/// Adapter for [`Copy`]: a bitwise copy, and a marker that the type is
/// cheap to copy.
pub trait RCopy {
    /// A copy of the value.
    fn copy(&self) -> Self where Self: Sized;

    /// Always `true` for `Copy` types.
    fn is_copy(&self) -> bool;
}

impl<T: Copy> RCopy for T {
    /// `*self`.
    fn copy(&self) -> (r: Self)
        ensures
            r == *self,
    {
        *self
    }

    fn is_copy(&self) -> (r: bool)
        ensures
            r,
    {
        true
    }
}

/// `max(n, 0)`: how many elements a request for `n` can yield at most.
pub open spec fn nonneg(n: i32) -> int {
    if n > 0 {
        n as int
    } else {
        0
    }
}

/// Adapter for iterators consumed element by element from R.
///
/// There is no blanket impl: `Iterator::next` takes `&mut self` while R
/// hands out `&self`, so implementers keep the iterator behind interior
/// mutability and implement [`next`](RIterator::next) and
/// [`size_hint`](RIterator::size_hint); the other methods are built on
/// `next`.
pub trait RIterator {
    /// The element type.
    type Item;

    /// The next element, `None` once exhausted.
    fn next(&self) -> Option<Self::Item>;

    /// Lower and optional upper bound on the elements left.
    fn size_hint(&self) -> (i64, Option<i64>);

    /// Consume the iterator and count the elements left (saturating at
    /// `i64::MAX`).
    fn count(&self) -> (r: i64)
        ensures
            r >= 0,
        default_ensures
            r > 0 ==> exists|x: Self::Item| call_ensures(Self::next, (self,), Some(x)),
            r < i64::MAX ==> call_ensures(Self::next, (self,), None::<Self::Item>),
    {
        let mut count: i64 = 0;
        loop
            invariant
                count >= 0,
                count > 0 ==> exists|x: Self::Item| call_ensures(Self::next, (self,), Some(x)),
            decreases i64::MAX - count,
        {
            match self.next() {
                Some(_item) => {
                    if count == i64::MAX {
                        return count;
                    }
                    count = count + 1;
                },
                None => {
                    return count;
                },
            }
        }
    }

    /// Take up to `n` elements; fewer when the iterator runs out, none when
    /// `n <= 0`.
    fn collect_n(&self, n: i32) -> (r: Vec<Self::Item>)
        ensures
            r@.len() <= nonneg(n),
        default_ensures
            forall|k: int| 0 <= k < r@.len() ==> call_ensures(Self::next, (self,), Some(#[trigger] r@[k])),
            r@.len() < nonneg(n) ==> call_ensures(Self::next, (self,), None::<Self::Item>),
    {
        let mut result: Vec<Self::Item> = Vec::new();
        let mut i: i32 = 0;
        while i < n
            invariant
                0 <= i,
                result@.len() == i,
                i <= nonneg(n),
                forall|k: int| 0 <= k < result@.len() ==> call_ensures(Self::next, (self,), Some(#[trigger] result@[k])),
            decreases n - i,
        {
            match self.next() {
                Some(item) => result.push(item),
                None => {
                    return result;
                },
            }
            i = i + 1;
        }
        result
    }

    /// Skip up to `n` elements and return how many were skipped.
    fn skip(&self, n: i32) -> (r: i32)
        ensures
            0 <= r <= nonneg(n),
        default_ensures
            r > 0 ==> exists|x: Self::Item| call_ensures(Self::next, (self,), Some(x)),
            r < nonneg(n) ==> call_ensures(Self::next, (self,), None::<Self::Item>),
    {
        let mut skipped: i32 = 0;
        while skipped < n
            invariant
                0 <= skipped <= nonneg(n),
                skipped > 0 ==> exists|x: Self::Item| call_ensures(Self::next, (self,), Some(x)),
            decreases n - skipped,
        {
            match self.next() {
                Some(_item) => {
                    skipped = skipped + 1;
                },
                None => {
                    return skipped;
                },
            }
        }
        skipped
    }

    /// The element `n` positions ahead (0-indexed), consuming the ones
    /// before it; `None` for a negative `n` or when the iterator runs out.
    fn nth(&self, n: i32) -> (r: Option<Self::Item>)
        ensures
            n < 0 ==> r is None,
        default_ensures
            r matches Some(x) ==> call_ensures(Self::next, (self,), Some(x)),
            n >= 0 && r is None ==> call_ensures(Self::next, (self,), None::<Self::Item>),
    {
        if n < 0 {
            return None;
        }
        let mut i: i32 = 0;
        while i < n
            invariant
                0 <= i <= n,
            decreases n - i,
        {
            if self.next().is_none() {
                return None;
            }
            i = i + 1;
        }
        self.next()
    }
}

/// Adapter for collections extended from R.
///
/// No blanket impl: `Extend::extend` takes `&mut self`, so implementers use
/// interior mutability.
pub trait RExtend<T> {
    /// Move `items` into the collection.
    fn extend_from_vec(&self, items: Vec<T>);

    /// Extend with clones of `items` (by way of
    /// [`extend_from_vec`](RExtend::extend_from_vec)).
    fn extend_from_slice(&self, items: &[T]) where T: Clone {
        let mut v: Vec<T> = Vec::new();
        let mut i: usize = 0;
        while i < items.len()
            invariant
                i <= items@.len(),
            decreases items@.len() - i,
        {
            v.push(items[i].clone());
            i = i + 1;
        }
        self.extend_from_vec(v);
    }

    /// The collection's length, `-1` when unknown (the default).
    fn len(&self) -> (r: i64)
        default_ensures
            r == -1,
    {
        -1
    }

    /// Whether [`len`](RExtend::len) is `0`.
    fn is_empty(&self) -> (r: bool)
        default_ensures
            exists|l: i64| call_ensures(Self::len, (self,), l) && r == (l == 0),
    {
        self.len() == 0
    }
}

/// Adapter for collections that hand out fresh iterators.
pub trait RMakeIter<T, I> where I: RIterator<Item = T> {
    /// A new iterator over the collection, independent of earlier ones.
    fn make_iter(&self) -> I;
}

} // verus!
