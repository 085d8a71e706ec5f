//! Profiles of the puzzle board.

use vstd::prelude::*;

verus! {

/// What the puzzle board shows of a player.
#[derive(Debug)]
pub struct Profile {
    pub board_name: Option<String>,
    pub avatar: Option<String>,
}

/// The answer to a request for one profile.
#[derive(Debug)]
pub struct ProfileResponse {
    pub profile_number: String,
    pub user_data: Profile,
}

} // verus!
