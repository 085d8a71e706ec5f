//! The two leaderboard providers.

pub mod cm;
pub mod request;
pub mod srcom;
