use miniextendr_api::adapter_traits::{
    ord_code, partial_ord_code, RClone, RCopy, RDebug, RDefault, RDisplay, RExtend, RHash,
    RIterator, RMakeIter, ROrd, RPartialOrd,
};
use std::cell::RefCell;

#[test]
fn test_rdebug() {
    let v = vec![1, 2, 3];
    assert_eq!(v.debug_str(), "[1, 2, 3]");
    assert!(v.debug_str_pretty().contains('\n') || v.debug_str_pretty() == "[1, 2, 3]");
}

#[test]
fn test_rdisplay() {
    let s = "hello";
    assert_eq!(s.as_r_string(), "hello");

    let n = 42i32;
    assert_eq!(n.as_r_string(), "42");
}

#[test]
fn test_rhash() {
    let a = "test";
    let b = "test";
    let c = "other";

    assert_eq!(RHash::hash(&a), RHash::hash(&b));
    assert_ne!(RHash::hash(&a), RHash::hash(&c));
}

#[test]
fn rhash_is_sixteen_lower_hex_digits() {
    let h = RHash::hash(&12345u64);
    assert_eq!(h.len(), 16);
    assert!(h.chars().all(|c| c.is_ascii_digit() || ('a'..='f').contains(&c)));
}

#[test]
fn test_rord() {
    assert_eq!(ROrd::cmp(&1i32, &2), -1);
    assert_eq!(ROrd::cmp(&2i32, &2), 0);
    assert_eq!(ROrd::cmp(&3i32, &2), 1);
}

#[test]
fn ord_code_on_strings() {
    assert_eq!(ord_code("apple", "banana"), -1);
    assert_eq!(ord_code("pear", "pear"), 0);
    assert_eq!(ord_code(&10u8, &3u8), 1);
}

#[test]
fn test_rpartialord() {
    assert_eq!(RPartialOrd::partial_cmp(&1.0f64, &2.0), Some(-1));
    assert_eq!(RPartialOrd::partial_cmp(&2.0f64, &2.0), Some(0));
    assert_eq!(RPartialOrd::partial_cmp(&3.0f64, &2.0), Some(1));
    assert_eq!(RPartialOrd::partial_cmp(&f64::NAN, &1.0), None);
}

#[test]
fn partial_ord_code_on_integers() {
    assert_eq!(partial_ord_code(&-5i64, &5i64), Some(-1));
    assert_eq!(partial_ord_code(&f32::NAN, &f32::NAN), None);
}

#[test]
fn test_rclone() {
    let v = vec![1, 2, 3];
    let cloned = RClone::clone(&v);
    assert_eq!(v, cloned);

    let s = String::from("hello");
    let cloned_s = RClone::clone(&s);
    assert_eq!(s, cloned_s);
}

#[test]
fn test_rdefault() {
    let default_i32: i32 = RDefault::default();
    assert_eq!(default_i32, 0);

    let default_vec: Vec<i32> = RDefault::default();
    assert!(default_vec.is_empty());

    let default_string: String = RDefault::default();
    assert_eq!(default_string, "");

    let default_bool: bool = RDefault::default();
    assert!(!default_bool);
}

#[test]
fn test_rcopy() {
    let x = 42i32;
    let y = RCopy::copy(&x);
    assert_eq!(x, y);
    assert!(x.is_copy());

    let point = (1.0f64, 2.0f64);
    let point2 = RCopy::copy(&point);
    assert_eq!(point, point2);
    assert!(point.is_copy());

    let arr = [1, 2, 3];
    let arr2 = RCopy::copy(&arr);
    assert_eq!(arr, arr2);
}

struct TestIter(RefCell<std::vec::IntoIter<i32>>);

impl TestIter {
    fn new(data: Vec<i32>) -> Self {
        Self(RefCell::new(data.into_iter()))
    }
}

impl RIterator for TestIter {
    type Item = i32;

    fn next(&self) -> Option<Self::Item> {
        self.0.borrow_mut().next()
    }

    fn size_hint(&self) -> (i64, Option<i64>) {
        let (lo, hi) = self.0.borrow().size_hint();
        (lo as i64, hi.map(|h| h as i64))
    }
}

#[test]
fn test_riterator_next() {
    let it = TestIter::new(vec![1, 2, 3]);
    assert_eq!(it.next(), Some(1));
    assert_eq!(it.next(), Some(2));
    assert_eq!(it.next(), Some(3));
    assert_eq!(it.next(), None);
    assert_eq!(it.next(), None);
}

#[test]
fn test_riterator_size_hint() {
    let it = TestIter::new(vec![1, 2, 3, 4, 5]);
    assert_eq!(it.size_hint(), (5, Some(5)));
    it.next();
    assert_eq!(it.size_hint(), (4, Some(4)));
    it.next();
    it.next();
    assert_eq!(it.size_hint(), (2, Some(2)));
}

#[test]
fn test_riterator_count() {
    let it = TestIter::new(vec![1, 2, 3, 4, 5]);
    assert_eq!(it.count(), 5);
    assert_eq!(it.next(), None);
}

#[test]
fn test_riterator_collect_n() {
    let it = TestIter::new(vec![1, 2, 3, 4, 5]);
    let first_three = it.collect_n(3);
    assert_eq!(first_three, vec![1, 2, 3]);
    let remaining = it.collect_n(10);
    assert_eq!(remaining, vec![4, 5]);
}

#[test]
fn riterator_collect_n_negative_takes_nothing() {
    let it = TestIter::new(vec![1, 2]);
    assert_eq!(it.collect_n(-3), Vec::<i32>::new());
    assert_eq!(it.next(), Some(1));
}

#[test]
fn test_riterator_skip() {
    let it = TestIter::new(vec![1, 2, 3, 4, 5]);
    let skipped = it.skip(2);
    assert_eq!(skipped, 2);
    assert_eq!(it.next(), Some(3));

    let skipped = it.skip(10);
    assert_eq!(skipped, 2);
}

#[test]
fn test_riterator_nth() {
    let it = TestIter::new(vec![10, 20, 30, 40, 50]);
    assert_eq!(it.nth(2), Some(30));
    assert_eq!(it.next(), Some(40));

    let it2 = TestIter::new(vec![1, 2, 3]);
    assert_eq!(it2.nth(-1), None);
}

#[test]
fn test_riterator_empty() {
    let it = TestIter::new(vec![]);
    assert_eq!(it.next(), None);
    assert_eq!(it.size_hint(), (0, Some(0)));
    assert_eq!(it.count(), 0);
    assert_eq!(it.collect_n(5), Vec::<i32>::new());
    assert_eq!(it.skip(5), 0);
    assert_eq!(it.nth(0), None);
}

struct TestExtendVec(RefCell<Vec<i32>>);

impl TestExtendVec {
    fn new() -> Self {
        Self(RefCell::new(Vec::new()))
    }

    fn get(&self) -> Vec<i32> {
        Clone::clone(&*self.0.borrow())
    }
}

impl RExtend<i32> for TestExtendVec {
    fn extend_from_vec(&self, items: Vec<i32>) {
        self.0.borrow_mut().extend(items);
    }

    fn len(&self) -> i64 {
        self.0.borrow().len() as i64
    }
}

#[test]
fn test_rextend_basic() {
    let v = TestExtendVec::new();
    assert_eq!(v.get(), Vec::<i32>::new());
    assert_eq!(v.len(), 0);

    v.extend_from_vec(vec![1, 2, 3]);
    assert_eq!(v.get(), vec![1, 2, 3]);
    assert_eq!(v.len(), 3);

    v.extend_from_vec(vec![4, 5]);
    assert_eq!(v.get(), vec![1, 2, 3, 4, 5]);
    assert_eq!(v.len(), 5);
}

#[test]
fn test_rextend_empty() {
    let v = TestExtendVec::new();
    v.extend_from_vec(vec![]);
    assert_eq!(v.get(), Vec::<i32>::new());
    assert_eq!(v.len(), 0);
}

#[test]
fn test_rextend_from_slice() {
    let v = TestExtendVec::new();
    let data = [1, 2, 3];
    v.extend_from_slice(&data);
    assert_eq!(v.get(), vec![1, 2, 3]);
}

struct UnsizedExtend(RefCell<Vec<i32>>);

impl RExtend<i32> for UnsizedExtend {
    fn extend_from_vec(&self, items: Vec<i32>) {
        self.0.borrow_mut().extend(items);
    }
}

#[test]
fn rextend_default_len_is_unknown() {
    let v = UnsizedExtend(RefCell::new(vec![1]));
    assert_eq!(v.len(), -1);
    assert!(!v.is_empty());
}

struct TestCollection(Vec<i32>);

struct TestCollectionIter(RefCell<std::vec::IntoIter<i32>>);

impl RIterator for TestCollectionIter {
    type Item = i32;

    fn next(&self) -> Option<i32> {
        self.0.borrow_mut().next()
    }

    fn size_hint(&self) -> (i64, Option<i64>) {
        let (lo, hi) = self.0.borrow().size_hint();
        (lo as i64, hi.map(|h| h as i64))
    }
}

impl RMakeIter<i32, TestCollectionIter> for TestCollection {
    fn make_iter(&self) -> TestCollectionIter {
        TestCollectionIter(RefCell::new(Clone::clone(&self.0).into_iter()))
    }
}

#[test]
fn test_rmakeiter_basic() {
    let coll = TestCollection(vec![1, 2, 3]);
    let iter = coll.make_iter();

    assert_eq!(iter.next(), Some(1));
    assert_eq!(iter.next(), Some(2));
    assert_eq!(iter.next(), Some(3));
    assert_eq!(iter.next(), None);
}

#[test]
fn test_rmakeiter_independent() {
    let coll = TestCollection(vec![1, 2, 3]);

    let iter1 = coll.make_iter();
    let iter2 = coll.make_iter();

    assert_eq!(iter1.next(), Some(1));
    assert_eq!(iter1.next(), Some(2));

    assert_eq!(iter2.next(), Some(1));
    assert_eq!(iter2.size_hint(), (2, Some(2)));
}
