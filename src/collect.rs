use vstd::prelude::*;
use vstd::std_specs::iter::IteratorSpec;

use crate::ne_vec::NonEmtpyVec;

verus! {

/// Building a value from the items of an iterator, which may fail.
pub trait TryFromIterator<T>: Sized {
    /// Whether `r` is what building from the sequence `items` gives.
    spec fn built_from(items: Seq<T>, r: Option<Self>) -> bool;

    /// `None` when the items do not make a value of `Self`.
    fn try_from_iter<I: Iterator<Item = T>>(iter: I) -> (r: Option<Self>)
        requires
            iter.obeys_prophetic_iter_laws(),
            iter.decrease() is Some,
        ensures
            Self::built_from(iter.remaining(), r),
    ;
}

impl<T> TryFromIterator<T> for NonEmtpyVec<T> {
    /// Some vector holding exactly the items, in order; `None` when there is
    /// none.
    open spec fn built_from(items: Seq<T>, r: Option<Self>) -> bool {
        &&& r is Some <==> items.len() > 0
        &&& r matches Some(ne) ==> ne.wf() && ne@ == items
    }

    /// Collects every item in order; `None` exactly when there is none.
    fn try_from_iter<I: Iterator<Item = T>>(iter: I) -> (r: Option<Self>)
        ensures
            r is Some <==> iter.remaining().len() > 0,
            r matches Some(ne) ==> ne.wf() && ne@ == iter.remaining(),
    {
        let mut iter = iter;
        let ghost items = iter.remaining();
        let mut v: Vec<T> = Vec::new();
        loop
            invariant
                iter.obeys_prophetic_iter_laws(),
                iter.decrease() is Some,
                v@ + iter.remaining() == items,
            ensures
                v@ == items,
            decreases iter.decrease()->0,
        {
            match iter.next() {
                Some(x) => {
                    v.push(x);
                    assert(v@ + iter.remaining() =~= items);
                },
                None => {
                    assert(v@ =~= items);
                    break ;
                },
            }
        }
        NonEmtpyVec::from_vec(v)
    }
}

/// Collecting an iterator into any type that can be built from its items.
pub trait TryCollect: Iterator + Sized {
    /// Builds an `E` from the items, or `None` when `E` refuses them.
    fn try_collect<E: TryFromIterator<Self::Item>>(self) -> (r: Option<E>)
        requires
            self.obeys_prophetic_iter_laws(),
            self.decrease() is Some,
        ensures
            E::built_from(self.remaining(), r),
    {
        E::try_from_iter(self)
    }
}

impl<I: Iterator> TryCollect for I {

}

} // verus!
