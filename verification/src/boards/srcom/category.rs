//! Categories of a game.

use vstd::prelude::*;
use crate::key::Key;
use std::sync::Arc;
use crate::boards::srcom::Link;

verus! {

/// The provider's identifier of a category.
#[derive(Debug)]
pub struct CategoryId(pub String);

impl View for CategoryId {
    type V = Seq<char>;

    open spec fn view(&self) -> Seq<char> {
        self.0@
    }
}

impl Key for CategoryId {
    fn same_key(&self, other: &Self) -> (same: bool) {
        self.0 == other.0
    }
}

impl Clone for CategoryId {
    fn clone(&self) -> (copy: Self)
        ensures
            copy == *self,
    {
        CategoryId(self.0.clone())
    }
}

/// A category of a game.
#[derive(Debug)]
pub struct Category {
    pub id: CategoryId,
    pub name: String,
    pub weblink: String,
    pub category_type: String,
    pub rules: String,
    pub players: PlayerCount,
    pub miscellaneous: bool,
    pub links: Vec<Link>,
}

/// How many players a category's runs have.
#[derive(Debug, Clone, Copy, PartialEq, Eq, Structural)]
pub enum PlayerCount {
    Exactly(u64),
    UpTo(u64),
}

/// A category, either by its identifier or in full.
#[derive(Debug)]
pub enum CategoryOrId {
    Id(CategoryId),
    Category { data: Arc<Category> },
}

} // verus!
