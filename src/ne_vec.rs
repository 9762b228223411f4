use vstd::prelude::*;

use vstd::std_specs::cmp::PartialEqSpec;
use vstd::std_specs::iter::IteratorSpec;

use crate::kept::kept;

verus! {

/// Like `Vec<T>`, but guaranteed to hold at least one element.
#[derive(Debug, Clone, PartialEq, Eq, Hash)]
pub struct NonEmtpyVec<T> {
    inner: Vec<T>,
}

impl<T> View for NonEmtpyVec<T> {
    type V = Seq<T>;

    closed spec fn view(&self) -> Seq<T> {
        self.inner@
    }
}

/// Relies on `Vec::capacity`: the number of elements the vector can hold
/// without reallocating, which is never less than its length.
#[verifier::external_body]
fn vec_capacity<T>(v: &Vec<T>) -> (r: usize)
    ensures
        r >= v@.len(),
{
    v.capacity()
}

/// Relies on `Vec::reserve_exact`: it changes the capacity, never the elements.
#[verifier::external_body]
fn vec_reserve_exact<T>(v: &mut Vec<T>, additional: usize)
    ensures
        final(v)@ == old(v)@,
{
    v.reserve_exact(additional)
}

/// Relies on `Vec::shrink_to_fit`: it changes the capacity, never the elements.
#[verifier::external_body]
fn vec_shrink_to_fit<T>(v: &mut Vec<T>)
    ensures
        final(v)@ == old(v)@,
{
    v.shrink_to_fit()
}

/// Every answer that `f` may give for `x` is `true`.
pub open spec fn always_true<T, F: FnMut(&T) -> bool>(f: F, x: T) -> bool {
    forall|b: bool| call_ensures(f, (&x,), b) ==> b
}

/// Moves every element of `v` into a new vector in reverse order, so that
/// popping from the result hands them out front to back.
fn take_reversed<T>(v: &mut Vec<T>) -> (r: Vec<T>)
    ensures
        final(v)@.len() == 0,
        r@.len() == old(v)@.len(),
        forall|j: int| 0 <= j < r@.len() ==> r@[j] == old(v)@[old(v)@.len() - 1 - j],
{
    let mut r: Vec<T> = Vec::new();
    let ghost orig = v@;
    while v.len() > 0
        invariant
            v@ == orig.take(v@.len() as int),
            r@.len() + v@.len() == orig.len(),
            forall|j: int| 0 <= j < r@.len() ==> r@[j] == orig[orig.len() - 1 - j],
        decreases v@.len(),
    {
        let x = v.pop().unwrap();
        r.push(x);
    }
    r
}

/// Applies `f` to every element of `v`, front to back.
fn map_vec<T, U, F: FnMut(T) -> U>(v: Vec<T>, f: F) -> (r: Vec<U>)
    requires
        forall|i: int| 0 <= i < v@.len() ==> call_requires(f, (v@[i],)),
    ensures
        r@.len() == v@.len(),
        forall|i: int| 0 <= i < v@.len() ==> call_ensures(f, (v@[i],), #[trigger] r@[i]),
{
    let ghost f0 = f;
    let mut f = f;
    let mut v = v;
    let ghost orig = v@;
    let n = v.len();
    let mut rev = take_reversed(&mut v);
    let mut r: Vec<U> = Vec::new();
    while rev.len() > 0
        invariant
            f == f0,
            orig.len() == n,
            r@.len() + rev@.len() == orig.len(),
            forall|j: int| 0 <= j < rev@.len() ==> rev@[j] == orig[orig.len() - 1 - j],
            forall|j: int| 0 <= j < orig.len() ==> call_requires(f, (orig[j],)),
            forall|j: int| 0 <= j < r@.len() ==> call_ensures(f, (orig[j],), #[trigger] r@[j]),
        decreases rev@.len(),
    {
        let x = rev.pop().unwrap();
        let y = f(x);
        r.push(y);
    }
    r
}

impl<T> NonEmtpyVec<T> {
    /// The invariant of the type: there is at least one element.
    pub open spec fn wf(&self) -> bool {
        self@.len() >= 1
    }

    /// A vector holding `val` alone.
    pub fn new(val: T) -> (r: Self)
        ensures
            r.wf(),
            r@ == seq![val],
    {
        let mut inner: Vec<T> = Vec::new();
        inner.push(val);
        NonEmtpyVec { inner }
    }

    /// A vector holding `val` alone, with room reserved for `capacity`
    /// elements; `capacity` is never zero.
    pub fn with_capacity(capacity: usize, val: T) -> (r: Self)
        requires
            capacity > 0,
        ensures
            r.wf(),
            r@ == seq![val],
    {
        let mut inner: Vec<T> = Vec::with_capacity(capacity);
        inner.push(val);
        NonEmtpyVec { inner }
    }

    /// Wraps `v` without copying it; `None` exactly when `v` is empty.
    pub fn from_vec(v: Vec<T>) -> (r: Option<Self>)
        ensures
            r is Some <==> v@.len() > 0,
            r matches Some(ne) ==> ne.wf() && ne@ == v@,
    {
        if v.is_empty() {
            None
        } else {
            Some(NonEmtpyVec { inner: v })
        }
    }

    /// The number of elements, which is never zero.
    pub fn len(&self) -> (r: usize)
        requires
            self.wf(),
        ensures
            r == self@.len(),
            r >= 1,
    {
        self.inner.len()
    }

    /// The number of elements the vector can hold without reallocating;
    /// never less than its length, so never zero.
    pub fn capacity(&self) -> (r: usize)
        requires
            self.wf(),
        ensures
            r >= self@.len(),
            r >= 1,
    {
        vec_capacity(&self.inner)
    }

    /// Reserves room for at least `additional` more elements.
    pub fn reserve(&mut self, additional: usize)
        requires
            old(self).wf(),
        ensures
            final(self).wf(),
            final(self)@ == old(self)@,
    {
        self.inner.reserve(additional);
    }

    /// Reserves room for exactly `additional` more elements.
    pub fn reserve_exact(&mut self, additional: usize)
        requires
            old(self).wf(),
        ensures
            final(self).wf(),
            final(self)@ == old(self)@,
    {
        vec_reserve_exact(&mut self.inner, additional);
    }

    /// Gives back as much spare capacity as possible.
    pub fn shrink_to_fit(&mut self)
        requires
            old(self).wf(),
        ensures
            final(self).wf(),
            final(self)@ == old(self)@,
    {
        vec_shrink_to_fit(&mut self.inner);
    }

    /// The elements as a slice.
    pub fn as_slice(&self) -> (r: &[T])
        ensures
            r@ == self@,
    {
        self.inner.as_slice()
    }

    /// The elements as a `Vec`.
    pub fn as_vec(&self) -> (r: &Vec<T>)
        ensures
            r@ == self@,
    {
        &self.inner
    }

    /// Unwraps the elements into a plain `Vec`, without copying.
    pub fn into_vec(self) -> (r: Vec<T>)
        ensures
            r@ == self@,
    {
        self.inner
    }

    /// The element at `index`.
    pub fn get(&self, index: usize) -> (r: Option<&T>)
        ensures
            index < self@.len() ==> r == Some(&self@[index as int]),
            index >= self@.len() ==> r is None,
    {
        if index < self.inner.len() {
            Some(&self.inner[index])
        } else {
            None
        }
    }

    /// The first element, which always exists.
    pub fn first(&self) -> (r: &T)
        requires
            self.wf(),
        ensures
            *r == self@[0],
    {
        &self.inner[0]
    }

    /// The last element, which always exists.
    pub fn last(&self) -> (r: &T)
        requires
            self.wf(),
        ensures
            *r == self@.last(),
    {
        &self.inner[self.inner.len() - 1]
    }

    /// Adds `value` at the end.
    pub fn push(&mut self, value: T)
        requires
            old(self).wf(),
        ensures
            final(self).wf(),
            final(self)@ == old(self)@.push(value),
    {
        self.inner.push(value);
    }

    /// Inserts `element` at `index`, shifting the later ones up.
    pub fn insert(&mut self, index: usize, element: T)
        requires
            old(self).wf(),
            index <= old(self)@.len(),
        ensures
            final(self).wf(),
            final(self)@ == old(self)@.insert(index as int, element),
    {
        self.inner.insert(index, element);
    }

    /// Appends clones of the elements of `other`.
    pub fn extend_from_slice(&mut self, other: &[T])
        where
            T: Clone,
        requires
            old(self).wf(),
        ensures
            final(self).wf(),
            final(self)@.len() == old(self)@.len() + other@.len(),
            final(self)@.take(old(self)@.len() as int) == old(self)@,
            forall|i: int|
                0 <= i < other@.len() ==> cloned::<T>(
                    other@[i],
                    #[trigger] final(self)@[old(self)@.len() + i],
                ),
    {
        self.inner.extend_from_slice(other);
    }

    /// Removes and returns the last element, unless it is the only one:
    /// then nothing changes and the result is `None`.
    pub fn pop(&mut self) -> (r: Option<T>)
        requires
            old(self).wf(),
        ensures
            final(self).wf(),
            old(self)@.len() == 1 ==> r is None && final(self)@ == old(self)@,
            old(self)@.len() > 1 ==> r == Some(old(self)@.last()) && final(self)@
                == old(self)@.drop_last(),
    {
        if self.inner.len() < 2 {
            None
        } else {
            self.inner.pop()
        }
    }

    /// Removes the element at `index` and returns it, moving the last
    /// element into its place. The sole element can never be removed.
    pub fn swap_remove(&mut self, index: usize) -> (r: T)
        requires
            old(self).wf(),
            old(self)@.len() > 1,
            index < old(self)@.len(),
        ensures
            final(self).wf(),
            r == old(self)@[index as int],
            final(self)@ == old(self)@.update(index as int, old(self)@.last()).drop_last(),
    {
        self.inner.swap_remove(index)
    }

    /// Removes the element at `index` and returns it, shifting the later
    /// ones down. The sole element can never be removed.
    pub fn remove(&mut self, index: usize) -> (r: T)
        requires
            old(self).wf(),
            old(self)@.len() > 1,
            index < old(self)@.len(),
        ensures
            final(self).wf(),
            r == old(self)@[index as int],
            final(self)@ == old(self)@.remove(index as int),
    {
        self.inner.remove(index)
    }

    /// Keeps the elements for which `f` returns true, in order. Calling it so
    /// that no element would be kept is a contract violation.
    pub fn retain<F>(&mut self, f: F)
        where
            F: FnMut(&T) -> bool,
        requires
            old(self).wf(),
            forall|i: int| 0 <= i < old(self)@.len() ==> call_requires(f, (&old(self)@[i],)),
            exists|i: int| 0 <= i < old(self)@.len() && #[trigger] always_true(f, old(self)@[i]),
        ensures
            final(self).wf(),
            exists|keep: Seq<bool>|
                {
                    &&& keep.len() == old(self)@.len()
                    &&& forall|i: int|
                        0 <= i < keep.len() ==> call_ensures(f, (&old(self)@[i],), keep[i])
                    &&& final(self)@ == kept(old(self)@, keep)
                },
    {
        let ghost f0 = f;
        let mut f = f;
        let ghost orig = self@;
        let n = self.inner.len();
        let mut rev = take_reversed(&mut self.inner);
        let ghost mut keep: Seq<bool> = Seq::empty();
        let mut i: usize = 0;
        while rev.len() > 0
            invariant
                f == f0,
                orig.len() == n,
                i + rev@.len() == orig.len(),
                forall|j: int| 0 <= j < rev@.len() ==> rev@[j] == orig[orig.len() - 1 - j],
                forall|j: int| 0 <= j < orig.len() ==> call_requires(f, (&orig[j],)),
                keep.len() == i,
                forall|j: int| 0 <= j < i ==> call_ensures(f, (&orig[j],), keep[j]),
                self.inner@ == kept(orig.take(i as int), keep),
                forall|j: int|
                    0 <= j < i && #[trigger] always_true(f, orig[j]) ==> self.inner@.len() > 0,
            decreases rev@.len(),
        {
            let x = rev.pop().unwrap();
            assert(x == orig[i as int]);
            let b = f(&x);
            proof {
                let next = orig.take(i + 1);
                assert(next.drop_last() =~= orig.take(i as int));
                assert(keep.push(b).take(i as int) =~= keep);
                keep = keep.push(b);
            }
            if b {
                self.inner.push(x);
            }
            i = i + 1;
        }
        assert(orig.take(orig.len() as int) =~= orig);
        let ghost i0 = choose|i: int| 0 <= i < orig.len() && #[trigger] always_true(f, orig[i]);
        assert(always_true(f, orig[i0]));
        assert(self.inner@.len() > 0);
        assert(forall|j: int| 0 <= j < keep.len() ==> call_ensures(f, (&orig[j],), keep[j]));
        assert(self@ == kept(orig, keep));
    }

    /// Removes each element for which `same_bucket(element, last_kept)`
    /// returns true, where `last_kept` is the nearest earlier element that
    /// stayed. The first element always stays.
    pub fn dedup_by<F>(&mut self, same_bucket: F)
        where
            F: FnMut(&T, &T) -> bool,
        requires
            old(self).wf(),
            forall|i: int, j: int|
                0 <= j < i < old(self)@.len() ==> call_requires(
                    same_bucket,
                    (&old(self)@[i], &old(self)@[j]),
                ),
        ensures
            final(self).wf(),
            exists|keep: Seq<bool>|
                {
                    &&& keep.len() == old(self)@.len()
                    &&& keep[0]
                    &&& forall|i: int|
                        0 < i < keep.len() ==> call_ensures(
                            same_bucket,
                            (&#[trigger] old(self)@[i], &kept(old(self)@.take(i), keep.take(i)).last()),
                            !keep[i],
                        )
                    &&& final(self)@ == kept(old(self)@, keep)
                },
    {
        let ghost f0 = same_bucket;
        let mut same_bucket = same_bucket;
        let ghost orig = self@;
        let n = self.inner.len();
        let mut rev = take_reversed(&mut self.inner);
        let first = rev.pop().unwrap();
        self.inner.push(first);
        let ghost mut keep: Seq<bool> = seq![true];
        let ghost mut last: int = 0;
        let mut i: usize = 1;
        proof {
            reveal_with_fuel(kept, 2);
            assert(orig.take(1).drop_last() =~= Seq::<T>::empty());
        }
        while rev.len() > 0
            invariant
                same_bucket == f0,
                orig.len() == n,
                1 <= i <= n,
                i + rev@.len() == orig.len(),
                forall|j: int| 0 <= j < rev@.len() ==> rev@[j] == orig[orig.len() - 1 - j],
                forall|a: int, b: int|
                    0 <= b < a < orig.len() ==> call_requires(same_bucket, (&orig[a], &orig[b])),
                keep.len() == i,
                keep[0],
                forall|j: int|
                    0 < j < i ==> call_ensures(
                        same_bucket,
                        (&#[trigger] orig[j], &kept(orig.take(j), keep.take(j)).last()),
                        !keep[j],
                    ),
                self.inner@ == kept(orig.take(i as int), keep),
                self.inner@.len() > 0,
                0 <= last < i,
                self.inner@.last() == orig[last],
            decreases rev@.len(),
        {
            let x = rev.pop().unwrap();
            let w = self.inner.len();
            let dup = same_bucket(&x, &self.inner[w - 1]);
            proof {
                let nk = keep.push(!dup);
                assert(orig.take(i + 1).drop_last() =~= orig.take(i as int));
                assert(nk.take(i as int) =~= keep);
                assert forall|j: int| 0 < j <= i implies nk.take(j) =~= keep.take(j) by {}
                assert(kept(orig.take(i as int), nk.take(i as int)) == self.inner@);
                keep = nk;
            }
            if !dup {
                self.inner.push(x);
                proof {
                    last = i as int;
                }
            }
            i = i + 1;
        }
        assert(orig.take(orig.len() as int) =~= orig);
    }

    /// Removes each element whose key equals the key of the nearest earlier
    /// element that stayed. The first element always stays. The keys are
    /// compared with `==`, whose meaning is known for key types that obey
    /// their equality specification.
    pub fn dedup_by_key<F, K>(&mut self, key: F)
        where
            F: FnMut(&T) -> K,
            K: PartialEq<K>,
        requires
            old(self).wf(),
            forall|i: int| 0 <= i < old(self)@.len() ==> call_requires(key, (&old(self)@[i],)),
        ensures
            final(self).wf(),
            exists|keep: Seq<bool>, keys: Seq<K>|
                {
                    &&& keep.len() == old(self)@.len()
                    &&& keys.len() == old(self)@.len()
                    &&& keep[0]
                    &&& forall|i: int|
                        0 <= i < keys.len() ==> call_ensures(key, (&old(self)@[i],), keys[i])
                    &&& K::obeys_eq_spec() ==> forall|i: int|
                        0 < i < keep.len() ==> keep[i] == !(#[trigger] keys[i]).eq_spec(
                            &kept(keys.take(i), keep.take(i)).last(),
                        )
                    &&& final(self)@ == kept(old(self)@, keep)
                },
    {
        let ghost f0 = key;
        let mut key = key;
        let ghost orig = self@;
        let n = self.inner.len();
        let mut rev = take_reversed(&mut self.inner);
        let first = rev.pop().unwrap();
        let mut prev = key(&first);
        self.inner.push(first);
        let ghost mut keep: Seq<bool> = seq![true];
        let ghost mut keys: Seq<K> = seq![prev];
        let mut i: usize = 1;
        proof {
            reveal_with_fuel(kept, 2);
            assert(orig.take(1).drop_last() =~= Seq::<T>::empty());
            assert(keys.take(1).drop_last() =~= Seq::<K>::empty());
            assert(keys.take(1) =~= keys);
        }
        while rev.len() > 0
            invariant
                key == f0,
                orig.len() == n,
                1 <= i <= n,
                i + rev@.len() == orig.len(),
                forall|j: int| 0 <= j < rev@.len() ==> rev@[j] == orig[orig.len() - 1 - j],
                forall|j: int| 0 <= j < orig.len() ==> call_requires(key, (&orig[j],)),
                keep.len() == i,
                keys.len() == i,
                keep[0],
                forall|j: int| 0 <= j < i ==> call_ensures(key, (&orig[j],), keys[j]),
                K::obeys_eq_spec() ==> forall|j: int|
                    0 < j < i ==> keep[j] == !(#[trigger] keys[j]).eq_spec(
                        &kept(keys.take(j), keep.take(j)).last(),
                    ),
                self.inner@ == kept(orig.take(i as int), keep),
                self.inner@.len() > 0,
                kept(keys.take(i as int), keep).len() > 0,
                prev == kept(keys.take(i as int), keep).last(),
            decreases rev@.len(),
        {
            let x = rev.pop().unwrap();
            let k = key(&x);
            let dup = k == prev;
            proof {
                let nk = keep.push(!dup);
                let nkeys = keys.push(k);
                assert(orig.take(i + 1).drop_last() =~= orig.take(i as int));
                assert(nkeys.take(i + 1).drop_last() =~= keys.take(i as int));
                assert(nkeys.take(i as int) =~= keys.take(i as int));
                assert(nkeys.take(i + 1) =~= nkeys);
                assert(nk.take(i as int) =~= keep);
                assert forall|j: int| 0 < j <= i implies nk.take(j) =~= keep.take(j)
                    && nkeys.take(j) =~= keys.take(j) by {}
                keep = nk;
                keys = nkeys;
            }
            if !dup {
                self.inner.push(x);
                prev = k;
            }
            i = i + 1;
        }
        assert(orig.take(orig.len() as int) =~= orig);
    }

    /// Resizes to `new_len`, which is never zero: a shorter length cuts the
    /// tail off, a longer one fills the new places with successive results
    /// of `f`.
    pub fn resize_with<F>(&mut self, new_len: usize, f: F)
        where
            F: FnMut() -> T,
        requires
            old(self).wf(),
            new_len > 0,
            call_requires(f, ()),
        ensures
            final(self).wf(),
            new_len <= old(self)@.len() ==> final(self)@ == old(self)@.take(new_len as int),
            new_len > old(self)@.len() ==> {
                &&& final(self)@.len() == new_len
                &&& final(self)@.take(old(self)@.len() as int) == old(self)@
                &&& forall|i: int|
                    old(self)@.len() <= i < new_len ==> call_ensures(f, (), #[trigger] final(self)@[i])
            },
    {
        if new_len <= self.inner.len() {
            self.inner.truncate(new_len);
            return;
        }
        let ghost f0 = f;
        let mut f = f;
        let ghost orig = self@;
        while self.inner.len() < new_len
            invariant
                f == f0,
                call_requires(f, ()),
                orig.len() < new_len,
                orig.len() <= self.inner@.len() <= new_len,
                self.inner@.take(orig.len() as int) == orig,
                forall|i: int|
                    orig.len() <= i < self.inner@.len() ==> call_ensures(f, (), #[trigger] self.inner@[i]),
            decreases new_len - self.inner@.len(),
        {
            let x = f();
            let ghost before = self.inner@;
            self.inner.push(x);
            assert(self.inner@.take(orig.len() as int) =~= before.take(orig.len() as int));
        }
    }

    /// Resizes to `new_len`, which is never zero: a shorter length cuts the
    /// tail off, a longer one fills the new places with clones of `value`.
    pub fn resize(&mut self, new_len: usize, value: T)
        where
            T: Clone,
        requires
            old(self).wf(),
            new_len > 0,
        ensures
            final(self).wf(),
            new_len <= old(self)@.len() ==> final(self)@ == old(self)@.take(new_len as int),
            new_len > old(self)@.len() ==> {
                &&& final(self)@.len() == new_len
                &&& final(self)@.take(old(self)@.len() as int) == old(self)@
                &&& forall|i: int|
                    old(self)@.len() <= i < new_len ==> cloned::<T>(value, #[trigger] final(self)@[i])
            },
    {
        self.inner.resize(new_len, value);
    }

    /// Moves every element from position `at` on into a new vector, which is
    /// returned; `at` is never zero, so the first element stays.
    pub fn split_off(&mut self, at: usize) -> (r: Vec<T>)
        requires
            old(self).wf(),
            0 < at <= old(self)@.len(),
        ensures
            final(self).wf(),
            final(self)@ == old(self)@.take(at as int),
            r@ == old(self)@.skip(at as int),
    {
        self.inner.split_off(at)
    }

    /// Moves all elements of `other` onto the end of `self`.
    pub fn append(&mut self, other: Self)
        requires
            old(self).wf(),
        ensures
            final(self).wf(),
            final(self)@ == old(self)@ + other@,
    {
        let mut other = other;
        self.inner.append(&mut other.inner);
    }

    /// Moves all elements of `other` onto the end of `self`, leaving `other`
    /// empty.
    pub fn append_vec(&mut self, other: &mut Vec<T>)
        requires
            old(self).wf(),
        ensures
            final(self).wf(),
            final(self)@ == old(self)@ + old(other)@,
            final(other)@.len() == 0,
    {
        self.inner.append(other);
    }

    /// Replaces the elements in `range` with those of `replace_with` and
    /// returns the removed ones, unless that would leave no element at all:
    /// then nothing changes and the result is `None`.
    pub fn splice(&mut self, range: std::ops::Range<usize>, replace_with: Vec<T>) -> (r: Option<
        Vec<T>,
    >)
        requires
            old(self).wf(),
            range.start <= range.end <= old(self)@.len(),
        ensures
            final(self).wf(),
            old(self)@.len() - (range.end - range.start) + replace_with@.len() == 0 ==> r is None
                && final(self)@ == old(self)@,
            old(self)@.len() - (range.end - range.start) + replace_with@.len() > 0 ==> r is Some
                && r->0@ == old(self)@.subrange(range.start as int, range.end as int)
                && final(self)@ == old(self)@.take(range.start as int) + replace_with@
                + old(self)@.skip(range.end as int),
    {
        let start = range.start;
        let end = range.end;
        if end - start == self.inner.len() && replace_with.len() == 0 {
            return None;
        }
        let mut replace_with = replace_with;
        let mut tail = self.inner.split_off(end);
        let removed = self.inner.split_off(start);
        self.inner.append(&mut replace_with);
        self.inner.append(&mut tail);
        Some(removed)
    }

    /// Removes each element equal to the nearest earlier element that
    /// stayed, so that runs of equal elements shrink to one. The elements
    /// are compared with `==`, whose meaning is known for element types that
    /// obey their equality specification.
    pub fn dedup(&mut self)
        where
            T: PartialEq<T>,
        requires
            old(self).wf(),
        ensures
            final(self).wf(),
            exists|keep: Seq<bool>|
                {
                    &&& keep.len() == old(self)@.len()
                    &&& keep[0]
                    &&& T::obeys_eq_spec() ==> forall|i: int|
                        0 < i < keep.len() ==> keep[i] == !(#[trigger] old(self)@[i]).eq_spec(
                            &kept(old(self)@.take(i), keep.take(i)).last(),
                        )
                    &&& final(self)@ == kept(old(self)@, keep)
                },
    {
        let ghost orig = self@;
        let n = self.inner.len();
        let mut rev = take_reversed(&mut self.inner);
        let first = rev.pop().unwrap();
        self.inner.push(first);
        let ghost mut keep: Seq<bool> = seq![true];
        let mut i: usize = 1;
        proof {
            reveal_with_fuel(kept, 2);
            assert(orig.take(1).drop_last() =~= Seq::<T>::empty());
        }
        while rev.len() > 0
            invariant
                orig.len() == n,
                1 <= i <= n,
                i + rev@.len() == orig.len(),
                forall|j: int| 0 <= j < rev@.len() ==> rev@[j] == orig[orig.len() - 1 - j],
                keep.len() == i,
                keep[0],
                T::obeys_eq_spec() ==> forall|j: int|
                    0 < j < i ==> keep[j] == !(#[trigger] orig[j]).eq_spec(
                        &kept(orig.take(j), keep.take(j)).last(),
                    ),
                self.inner@ == kept(orig.take(i as int), keep),
                self.inner@.len() > 0,
            decreases rev@.len(),
        {
            let x = rev.pop().unwrap();
            let w = self.inner.len();
            let dup = x == self.inner[w - 1];
            proof {
                let nk = keep.push(!dup);
                assert(orig.take(i + 1).drop_last() =~= orig.take(i as int));
                assert(nk.take(i as int) =~= keep);
                assert forall|j: int| 0 < j <= i implies nk.take(j) =~= keep.take(j) by {}
                keep = nk;
            }
            if !dup {
                self.inner.push(x);
            }
            i = i + 1;
        }
        assert(orig.take(orig.len() as int) =~= orig);
    }

    /// Appends every item of `iter`, in order.
    pub fn extend<I: Iterator<Item = T>>(&mut self, iter: I)
        requires
            old(self).wf(),
            iter.obeys_prophetic_iter_laws(),
            iter.decrease() is Some,
        ensures
            final(self).wf(),
            final(self)@ == old(self)@ + iter.remaining(),
    {
        let mut iter = iter;
        let ghost start = self@;
        let ghost items = iter.remaining();
        loop
            invariant
                iter.obeys_prophetic_iter_laws(),
                iter.decrease() is Some,
                self@ + iter.remaining() == start + items,
                self@.len() >= start.len(),
            ensures
                self@ == start + items,
            decreases iter.decrease()->0,
        {
            match iter.next() {
                Some(x) => {
                    self.inner.push(x);
                    assert(self@ + iter.remaining() =~= start + items);
                },
                None => {
                    assert(self@ =~= start + items);
                    break ;
                },
            }
        }
    }

    /// Replaces the element at `index` by `value`.
    pub fn set(&mut self, index: usize, value: T)
        requires
            old(self).wf(),
            index < old(self)@.len(),
        ensures
            final(self).wf(),
            final(self)@ == old(self)@.update(index as int, value),
    {
        self.inner.set(index, value);
    }

    /// A new vector holding `f` applied to each element, in order; it has
    /// as many elements as `self`.
    pub fn map<F: FnMut(T) -> U, U>(self, f: F) -> (r: NonEmtpyVec<U>)
        requires
            self.wf(),
            forall|i: int| 0 <= i < self@.len() ==> call_requires(f, (self@[i],)),
        ensures
            r.wf(),
            r@.len() == self@.len(),
            forall|i: int| 0 <= i < self@.len() ==> call_ensures(f, (self@[i],), #[trigger] r@[i]),
    {
        NonEmtpyVec { inner: map_vec(self.inner, f) }
    }

    /// Replaces each element by `f` applied to it; the length is kept.
    pub fn map_in_place<F: FnMut(T) -> T>(&mut self, f: F)
        requires
            old(self).wf(),
            forall|i: int| 0 <= i < old(self)@.len() ==> call_requires(f, (old(self)@[i],)),
        ensures
            final(self).wf(),
            final(self)@.len() == old(self)@.len(),
            forall|i: int|
                0 <= i < old(self)@.len() ==> call_ensures(
                    f,
                    (old(self)@[i],),
                    #[trigger] final(self)@[i],
                ),
    {
        let mut taken: Vec<T> = Vec::new();
        std::mem::swap(&mut taken, &mut self.inner);
        self.inner = map_vec(taken, f);
    }

    /// Keeps the first `len` elements; `len` is never zero.
    pub fn truncate(&mut self, len: usize)
        requires
            old(self).wf(),
            len > 0,
        ensures
            final(self).wf(),
            len <= old(self)@.len() ==> final(self)@ == old(self)@.take(len as int),
            len > old(self)@.len() ==> final(self)@ == old(self)@,
    {
        self.inner.truncate(len);
    }
}

impl NonEmtpyVec<u8> {
    /// Appends the bytes of `buf` and reports how many there were.
    pub fn append_bytes(&mut self, buf: &[u8]) -> (r: std::io::Result<usize>)
        ensures
            final(self)@ == old(self)@ + buf@,
            r is Ok && r->Ok_0 == buf@.len(),
    {
        crate::sink::vec_write(&mut self.inner, buf)
    }
}

impl std::io::Write for NonEmtpyVec<u8> {
    /// Appends all of `buf`, never failing.
    fn write(&mut self, buf: &[u8]) -> (r: std::io::Result<usize>)
        ensures
            final(self)@ == old(self)@ + buf@,
            r is Ok && r->Ok_0 == buf@.len(),
    {
        self.append_bytes(buf)
    }

    /// Appends the bytes of every buffer, in order, never failing.
    fn write_vectored(&mut self, bufs: &[std::io::IoSlice<'_>]) -> (r: std::io::Result<usize>)
        ensures
            r is Ok,
            final(self)@.len() == old(self)@.len() + r->Ok_0,
            final(self)@.take(old(self)@.len() as int) == old(self)@,
    {
        crate::sink::vec_write_vectored(&mut self.inner, bufs)
    }

    /// Nothing is buffered, so there is nothing to do.
    fn flush(&mut self) -> std::io::Result<()> {
        Ok(())
    }
}

impl<T: Default> Default for NonEmtpyVec<T> {
    /// A vector holding one default value.
    fn default() -> (r: Self)
        ensures
            r.wf(),
            r@.len() == 1,
            call_ensures(T::default, (), r@[0]),
    {
        NonEmtpyVec::new(T::default())
    }
}

impl<T> IntoIterator for NonEmtpyVec<T> {
    type Item = T;

    type IntoIter = std::vec::IntoIter<T>;

    /// Hands out the elements by value, front to back.
    fn into_iter(self) -> (r: Self::IntoIter)
        ensures
            vstd::std_specs::vec::into_iter_elts(r) == self@,
    {
        self.inner.into_iter()
    }
}

/// Every container that the operations hand out holds at least one element:
/// each constructor ensures `wf`, and each operation that changes a
/// container requires `wf` before and ensures it after.
pub proof fn lemma_never_empty<T>(v: &NonEmtpyVec<T>)
    requires
        v.wf(),
    ensures
        v@.len() >= 1,
{
}

/// Turning a vector into the container and back gives the same elements, and
/// only an empty vector is refused: the contracts of `from_vec` and
/// `into_vec`, put together.
pub proof fn lemma_from_vec_round_trip<T>(c: Seq<T>, wrapped: Option<NonEmtpyVec<T>>, back: Seq<T>)
    requires
        wrapped is Some <==> c.len() > 0,
        wrapped matches Some(ne) ==> ne.wf() && ne@ == c,
        wrapped matches Some(ne) ==> back == ne@,
    ensures
        c.len() > 0 ==> back == c,
        c.len() == 0 ==> wrapped is None,
{
}

} // verus!
