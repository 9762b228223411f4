//! A growable vector that always holds at least one element.

mod collect;
mod kept;
mod ne_vec;
mod sink;

pub use collect::{TryCollect, TryFromIterator};
pub use kept::kept;
pub use ne_vec::{always_true, lemma_from_vec_round_trip, lemma_never_empty, NonEmtpyVec};
