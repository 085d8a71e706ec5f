//! The settings of the program.

use vstd::prelude::*;

verus! {

/// The settings that the program starts with.
#[derive(Debug)]
pub struct Config {
    pub discord_application_id: u64,
    pub discord_bot_token: String,
    pub database_url: String,
}

} // verus!
