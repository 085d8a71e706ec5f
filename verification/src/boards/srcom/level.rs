//! Levels of a game.

use vstd::prelude::*;
use crate::key::Key;
use crate::boards::srcom::Link;

verus! {

/// The provider's identifier of a level.
#[derive(Debug)]
pub struct LevelId(pub String);

impl View for LevelId {
    type V = Seq<char>;

    open spec fn view(&self) -> Seq<char> {
        self.0@
    }
}

impl Key for LevelId {
    fn same_key(&self, other: &Self) -> (same: bool) {
        self.0 == other.0
    }
}

impl Clone for LevelId {
    fn clone(&self) -> (copy: Self)
        ensures
            copy == *self,
    {
        LevelId(self.0.clone())
    }
}

/// A level of a game.
#[derive(Debug)]
pub struct Level {
    pub id: LevelId,
    pub name: String,
    pub weblink: String,
    pub rules: String,
    pub links: Option<Vec<Link>>,
}

} // verus!
