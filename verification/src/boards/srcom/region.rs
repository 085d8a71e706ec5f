//! Release regions of games.

use vstd::prelude::*;
use crate::key::Key;
use crate::boards::srcom::Link;

verus! {

/// The provider's identifier of a region.
#[derive(Debug)]
pub struct RegionId(pub String);

impl View for RegionId {
    type V = Seq<char>;

    open spec fn view(&self) -> Seq<char> {
        self.0@
    }
}

impl Key for RegionId {
    fn same_key(&self, other: &Self) -> (same: bool) {
        self.0 == other.0
    }
}

impl Clone for RegionId {
    fn clone(&self) -> (copy: Self)
        ensures
            copy == *self,
    {
        RegionId(self.0.clone())
    }
}

/// A release region.
#[derive(Debug)]
pub struct Region {
    pub id: RegionId,
    pub name: String,
    pub links: Vec<Link>,
}

} // verus!
