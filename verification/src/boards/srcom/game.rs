//! Games.

use vstd::prelude::*;
use crate::key::Key;
use std::sync::Arc;
use crate::boards::srcom::{Link, TimingMethod};
use crate::vec_map::VecMap;

verus! {

/// The provider's identifier of a game.
#[derive(Debug)]
pub struct GameId(pub String);

impl View for GameId {
    type V = Seq<char>;

    open spec fn view(&self) -> Seq<char> {
        self.0@
    }
}

impl Key for GameId {
    fn same_key(&self, other: &Self) -> (same: bool) {
        self.0 == other.0
    }
}

impl Clone for GameId {
    fn clone(&self) -> (copy: Self)
        ensures
            copy == *self,
    {
        GameId(self.0.clone())
    }
}

/// A game, either by its identifier or in full.
#[derive(Debug)]
pub enum GameOrId {
    Id(GameId),
    Game { data: Arc<Game> },
}

/// A game.
#[derive(Debug)]
pub struct Game {
    pub id: GameId,
    pub names: Names,
    pub boosts_received: u64,
    pub boost_distinct_donors: u64,
    pub abbreviation: String,
    pub weblink: String,
    pub discord: Option<String>,
    pub released: u16,
    pub release_date: String,
    pub ruleset: Ruleset,
    pub romhack: bool,
    pub gametypes: Vec<String>,
    pub platforms: Vec<String>,
    pub regions: Vec<String>,
    pub genres: Vec<String>,
    pub engines: Vec<String>,
    pub developers: Vec<String>,
    pub publishers: Vec<String>,
    pub moderators: VecMap<String, ModeratorRole>,
    pub created: Option<String>,
    pub assets: Assets,
    pub links: Option<Vec<Link>>,
}

/// The names of a game.
#[derive(Debug)]
pub struct Names {
    pub international: String,
    pub japanese: Option<String>,
    pub twitch: String,
}

/// What a game asks of its runs.
#[derive(Debug)]
pub struct Ruleset {
    pub show_milliseconds: bool,
    pub require_verification: bool,
    pub require_video: bool,
    pub run_times: Vec<TimingMethod>,
    pub default_time: TimingMethod,
    pub emulators_allowed: bool,
}

/// The images of a game.
#[derive(Debug)]
pub struct Assets {
    pub logo: GameAsset,
    pub cover_tiny: GameAsset,
    pub cover_small: GameAsset,
    pub cover_medium: GameAsset,
    pub cover_large: GameAsset,
    pub icon: GameAsset,
    pub trophy_1st: GameAsset,
    pub trophy_2nd: GameAsset,
    pub trophy_3rd: GameAsset,
    pub trophy_4th: Option<GameAsset>,
    pub background: Option<GameAsset>,
    pub foreground: Option<GameAsset>,
}

/// One image of a game.
#[derive(Debug)]
pub struct GameAsset {
    pub uri: Option<String>,
}

/// The rank of a game's moderator.
#[derive(Debug, Clone, Copy, PartialEq, Eq, Structural)]
pub enum ModeratorRole {
    Moderator,
    SuperModerator,
}

} // verus!
