//! Variables of a game and their values.

use vstd::prelude::*;
use crate::key::Key;
use crate::boards::srcom::Link;
use crate::boards::srcom::category::CategoryId;
use crate::vec_map::VecMap;

verus! {

/// The provider's identifier of a variable.
#[derive(Debug)]
pub struct VariableId(pub String);

impl View for VariableId {
    type V = Seq<char>;

    open spec fn view(&self) -> Seq<char> {
        self.0@
    }
}

impl Key for VariableId {
    fn same_key(&self, other: &Self) -> (same: bool) {
        self.0 == other.0
    }
}

impl Clone for VariableId {
    fn clone(&self) -> (copy: Self)
        ensures
            copy == *self,
    {
        VariableId(self.0.clone())
    }
}

/// The provider's identifier of a value of a variable.
#[derive(Debug)]
pub struct VariableValueId(pub String);

impl View for VariableValueId {
    type V = Seq<char>;

    open spec fn view(&self) -> Seq<char> {
        self.0@
    }
}

impl Key for VariableValueId {
    fn same_key(&self, other: &Self) -> (same: bool) {
        self.0 == other.0
    }
}

impl Clone for VariableValueId {
    fn clone(&self) -> (copy: Self)
        ensures
            copy == *self,
    {
        VariableValueId(self.0.clone())
    }
}

/// A variable: a choice that splits a leaderboard.
#[derive(Debug)]
pub struct Variable {
    pub id: VariableId,
    pub name: String,
    pub category: Option<CategoryId>,
    pub scope: VariableScope,
    pub mandatory: bool,
    pub user_defined: bool,
    pub obsoletes: bool,
    pub values: VariableValues,
    pub is_subcategory: bool,
    pub links: Option<Vec<Link>>,
}

/// One value that a variable can take.
#[derive(Debug)]
pub struct VariableValue {
    pub label: String,
    pub rules: Option<String>,
    pub flags: Option<VariableValueFlags>,
}

/// Where a variable applies.
#[derive(Debug, Clone, Copy, PartialEq, Eq, Structural)]
pub enum VariableScope {
    Global,
    FullGame,
    AllLevels,
    SingleLevel,
}

/// The values of a variable, by their identifiers.
#[derive(Debug)]
pub struct VariableValues {
    pub values: VecMap<VariableValueId, VariableValue>,
    pub default: Option<VariableValueId>,
}

/// Flags of a value.
#[derive(Debug, Clone, Copy)]
pub struct VariableValueFlags {
    pub miscellaneous: Option<bool>,
}

} // verus!
