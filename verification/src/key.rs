//! Keys of the crate's maps.

use vstd::prelude::*;

verus! {

/// A value that can stand as the key of a map.
///
/// Two values are the same key exactly when their views are equal; the
/// maps of this crate are specified over those views.
pub trait Key: View + Sized {
    /// Whether `self` and `other` are the same key.
    fn same_key(&self, other: &Self) -> (same: bool)
        ensures
            same == (self@ == other@),
    ;
}

impl Key for u64 {
    fn same_key(&self, other: &Self) -> (same: bool) {
        *self == *other
    }
}

impl Key for i64 {
    fn same_key(&self, other: &Self) -> (same: bool) {
        *self == *other
    }
}

impl Key for String {
    fn same_key(&self, other: &Self) -> (same: bool) {
        *self == *other
    }
}

} // verus!
