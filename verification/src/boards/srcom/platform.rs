//! Platforms that games run on.

use vstd::prelude::*;
use crate::key::Key;
use crate::boards::srcom::Link;

verus! {

/// The provider's identifier of a platform.
#[derive(Debug)]
pub struct PlatformId(pub String);

impl View for PlatformId {
    type V = Seq<char>;

    open spec fn view(&self) -> Seq<char> {
        self.0@
    }
}

impl Key for PlatformId {
    fn same_key(&self, other: &Self) -> (same: bool) {
        self.0 == other.0
    }
}

impl Clone for PlatformId {
    fn clone(&self) -> (copy: Self)
        ensures
            copy == *self,
    {
        PlatformId(self.0.clone())
    }
}

/// A platform that games run on.
#[derive(Debug)]
pub struct Platform {
    pub id: PlatformId,
    pub name: String,
    pub released: u16,
    pub links: Option<Vec<Link>>,
}

} // verus!
