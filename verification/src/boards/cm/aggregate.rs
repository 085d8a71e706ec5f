//! Aggregated score boards of the puzzle board.

use vstd::prelude::*;
use std::sync::Arc;
use crate::boards::cm::profile::Profile;
use crate::vec_map::VecMap;

verus! {

/// A player's total on an aggregated board.
#[derive(Debug)]
pub struct AggregatedScoreData {
    pub score: u32,
    pub player_rank: u32,
    pub score_rank: u32,
}

/// One player's line of an aggregated board.
#[derive(Debug)]
pub struct AggregatedPlace {
    pub user_data: Arc<Profile>,
    pub score_data: AggregatedScoreData,
}

/// An aggregated board: each listed player's line, under the player's
/// profile number written in decimal.
#[derive(Debug)]
pub struct AggregatedResponse {
    pub points: VecMap<String, AggregatedPlace>,
}

} // verus!
