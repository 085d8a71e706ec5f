//! Rows of the database of linked accounts and role assignments.

use vstd::prelude::*;

verus! {

/// A link between a Discord user and an account elsewhere, as the database
/// holds it.
#[derive(Debug)]
pub struct VerifiedConnection {
    /// The Discord user.
    pub user_id: i64,
    /// The kind of account: `steam` or `srcom`.
    pub connection_type: String,
    /// The account's identifier with its provider.
    pub id: String,
    /// Whether the link has been taken back.
    pub removed: bool,
}

/// A role that was given to a user by hand.
#[derive(Debug, Clone, Copy, PartialEq, Eq, Structural)]
pub struct ManualRoleAssignment {
    pub user_id: i64,
    pub role_id: i64,
}

} // verus!
