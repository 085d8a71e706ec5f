//! Runs.

use vstd::prelude::*;
use crate::boards::srcom::Link;
use crate::boards::srcom::category::CategoryId;
use crate::boards::srcom::game::GameId;
use crate::boards::srcom::level::LevelId;
use crate::boards::srcom::platform::PlatformId;
use crate::boards::srcom::region::RegionId;
use crate::boards::srcom::user::UserId;
use crate::boards::srcom::variable::{VariableId, VariableValueId};
use crate::key::Key;
use crate::vec_map::VecMap;

verus! {

/// The provider's identifier of a run.
#[derive(Debug)]
pub struct RunId(pub String);

impl View for RunId {
    type V = Seq<char>;

    open spec fn view(&self) -> Seq<char> {
        self.0@
    }
}

impl Key for RunId {
    fn same_key(&self, other: &Self) -> (same: bool) {
        self.0 == other.0
    }
}

/// A run.
#[derive(Debug)]
pub struct Run {
    pub id: RunId,
    pub weblink: String,
    pub game: GameId,
    pub level: Option<LevelId>,
    pub category: CategoryId,
    pub videos: Option<RunVideos>,
    pub comment: Option<String>,
    pub status: RunStatus,
    pub players: Vec<RunPlayer>,
    pub date: Option<String>,
    pub submitted: Option<String>,
    pub times: RunTimes,
    pub system: RunSystem,
    pub splits: Option<RunSplits>,
    pub values: VecMap<VariableId, VariableValueId>,
    pub links: Option<Vec<Link>>,
}

/// The videos of a run.
#[derive(Debug)]
pub struct RunVideos {
    pub text: Option<String>,
    pub links: Vec<RunVideoLink>,
}

/// A link to a video.
#[derive(Debug)]
pub struct RunVideoLink {
    pub uri: String,
}

/// Whether a run has been examined, and with what outcome.
#[derive(Debug)]
pub enum RunStatus {
    New,
    Verified { examiner: Option<UserId>, verify_date: Option<String> },
    Rejected { examiner: Option<UserId>, reason: Option<String> },
}

/// One player of a run: a user of the board, or a guest known by name only.
#[derive(Debug)]
pub enum RunPlayer {
    User { id: UserId, uri: String },
    Guest { name: String, uri: String },
}

/// The times of a run. Each numeric time is in milliseconds.
#[derive(Debug)]
pub struct RunTimes {
    pub primary: String,
    pub primary_ms: u64,
    pub realtime: Option<String>,
    pub realtime_ms: u64,
    pub realtime_noloads: Option<String>,
    pub realtime_noloads_ms: u64,
    pub ingame: Option<String>,
    pub ingame_ms: u64,
}

/// What a run was played on.
#[derive(Debug)]
pub struct RunSystem {
    pub platform: Option<PlatformId>,
    pub emulated: bool,
    pub region: Option<RegionId>,
}

/// The splits of a run.
#[derive(Debug)]
pub enum RunSplits {
    SplitsIo { uri: String },
}

} // verus!
