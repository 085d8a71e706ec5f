//! Leaderboards, and the search for a user's best run on one.

use vstd::prelude::*;
use std::sync::Arc;
use crate::analyzer::role_definition::PartnerRestriction;
use crate::boards::srcom::{Link, MultipleItemRequest, TimingMethod};
use crate::boards::srcom::category::CategoryOrId;
use crate::boards::srcom::game::GameOrId;
use crate::boards::srcom::level::LevelId;
use crate::boards::srcom::platform::PlatformId;
use crate::boards::srcom::region::RegionId;
use crate::boards::srcom::run::{Run, RunPlayer, RunStatus};
use crate::boards::srcom::user::{User, UserId};
use crate::boards::srcom::variable::{Variable, VariableId, VariableValueId};
use crate::key::Key;
use crate::multikey_hashmap::MultiKeyHashMap;
use crate::share::share;
use crate::vec_map::VecMap;

verus! {

/// A run with its place on a leaderboard. Places count from one; zero marks
/// a run that has no place.
#[derive(Debug)]
pub struct LeaderboardPlace {
    pub place: u64,
    pub run: Run,
}

/// A player of a leaderboard: a user in full, or a guest.
#[derive(Debug)]
pub enum UserOrGuest {
    User(Arc<User>),
    Guest { name: String, links: Option<Vec<Link>> },
}

/// A leaderboard as the provider sends it.
#[derive(Debug)]
pub struct Leaderboard {
    pub weblink: String,
    pub game: GameOrId,
    pub category: CategoryOrId,
    pub level: Option<LevelId>,
    pub platform: Option<PlatformId>,
    pub region: Option<RegionId>,
    pub emulators: Option<bool>,
    pub video_only: bool,
    pub timing: TimingMethod,
    pub values: VecMap<VariableId, VariableValueId>,
    pub runs: RunTable,
    pub links: Option<Vec<Link>>,
    pub players: Option<MultipleItemRequest<UserOrGuest>>,
    pub variables: Option<MultipleItemRequest<Arc<Variable>>>,
}

/// What has been found so far: for a user and a restriction, the position of
/// the best run, or `None` where the user has none.
pub type Answers = Map<(Seq<u8>, Option<PartnerRestriction>), Option<usize>>;

/// Whether `player` is the user `user`.
pub open spec fn plays(player: RunPlayer, user: Seq<u8>) -> bool {
    player matches RunPlayer::User { id, .. } && id@ == user
}

/// Whether `user` is one of the players of `run`.
pub open spec fn has_player(run: Run, user: Seq<u8>) -> bool {
    exists|p: int| 0 <= p < run.players@.len() && plays(#[trigger] run.players@[p], user)
}

/// Whether `entry` counts for `user`: the user played in it, it is verified
/// and it has a place.
pub open spec fn counts(entry: LeaderboardPlace, user: Seq<u8>) -> bool {
    &&& has_player(entry.run, user)
    &&& entry.run.status is Verified
    &&& entry.place != 0
}

/// Whether `user` has a run of their own that counts and is placed strictly
/// better than `place`.
pub open spec fn outranks(places: Seq<LeaderboardPlace>, user: Seq<u8>, place: u64) -> bool {
    exists|j: int| 0 <= j < places.len() && #[trigger] counts(places[j], user) && places[j].place < place
}

/// Whether `player`, as a partner of `user` in a run at `place`, is no
/// obstacle: it is the user, a guest, or a user who does not outrank the run.
pub open spec fn partner_allows(
    places: Seq<LeaderboardPlace>,
    player: RunPlayer,
    user: Seq<u8>,
    place: u64,
) -> bool {
    match player {
        RunPlayer::User { id, .. } => id@ == user || !outranks(places, id@, place),
        RunPlayer::Guest { .. } => true,
    }
}

/// Whether every partner of `user` in the run at position `i` allows it.
pub open spec fn partners_allow(places: Seq<LeaderboardPlace>, i: int, user: Seq<u8>) -> bool {
    forall|p: int|
        0 <= p < places[i].run.players@.len() ==> partner_allows(
            places,
            #[trigger] places[i].run.players@[p],
            user,
            places[i].place,
        )
}

/// Whether the run at position `i` is a candidate for `user` under
/// `restriction`.
pub open spec fn qualifies(
    places: Seq<LeaderboardPlace>,
    i: int,
    user: Seq<u8>,
    restriction: Option<PartnerRestriction>,
) -> bool {
    &&& counts(places[i], user)
    &&& restriction is Some ==> partners_allow(places, i, user)
}

/// Whether position `k` holds the best run of `user` under `restriction`:
/// a candidate with the smallest place, and the first of those with that place.
pub open spec fn is_highest(
    places: Seq<LeaderboardPlace>,
    k: int,
    user: Seq<u8>,
    restriction: Option<PartnerRestriction>,
) -> bool {
    &&& 0 <= k < places.len()
    &&& qualifies(places, k, user, restriction)
    &&& forall|j: int|
        0 <= j < places.len() && #[trigger] qualifies(places, j, user, restriction) ==> places[k].place
            < places[j].place || (places[k].place == places[j].place && k <= j)
}

/// Whether `answer` is the right answer for `user` under `restriction`.
pub open spec fn answers(
    places: Seq<LeaderboardPlace>,
    user: Seq<u8>,
    restriction: Option<PartnerRestriction>,
    answer: Option<usize>,
) -> bool {
    match answer {
        Some(k) => is_highest(places, k as int, user, restriction),
        None => forall|j: int|
            0 <= j < places.len() ==> !#[trigger] qualifies(places, j, user, restriction),
    }
}

/// Whether `entry` is the entry at the position of the best run of `user`
/// under `restriction`.
pub open spec fn is_best_entry(
    places: Seq<LeaderboardPlace>,
    user: Seq<u8>,
    restriction: Option<PartnerRestriction>,
    entry: LeaderboardPlace,
) -> bool {
    exists|k: int| #[trigger] is_highest(places, k, user, restriction) && entry == places[k]
}

/// Whether no run is a candidate for `user` under `restriction`.
pub open spec fn has_no_candidate(
    places: Seq<LeaderboardPlace>,
    user: Seq<u8>,
    restriction: Option<PartnerRestriction>,
) -> bool {
    forall|j: int| 0 <= j < places.len() ==> !#[trigger] qualifies(places, j, user, restriction)
}

/// Whether `best` is the best run of `user` under `restriction`: the entry
/// at the position of the best run, or `None` where no run is a candidate.
pub open spec fn best_run_is(
    places: Seq<LeaderboardPlace>,
    user: Seq<u8>,
    restriction: Option<PartnerRestriction>,
    best: Option<Arc<LeaderboardPlace>>,
) -> bool {
    match best {
        Some(entry) => is_best_entry(places, user, restriction, *entry),
        None => has_no_candidate(places, user, restriction),
    }
}

/// The best run of `user` under `restriction`, or `None` where no run is a
/// candidate.
pub open spec fn spec_best(
    places: Seq<LeaderboardPlace>,
    user: Seq<u8>,
    restriction: Option<PartnerRestriction>,
) -> Option<LeaderboardPlace> {
    if exists|k: int| is_highest(places, k, user, restriction) {
        Some(places[choose|k: int| is_highest(places, k, user, restriction)])
    } else {
        None
    }
}

/// What [`best_run_is`] accepts is the best run.
pub proof fn lemma_best_run(
    places: Seq<LeaderboardPlace>,
    user: Seq<u8>,
    restriction: Option<PartnerRestriction>,
    best: Option<Arc<LeaderboardPlace>>,
)
    requires
        best_run_is(places, user, restriction, best),
    ensures
        spec_best(places, user, restriction) == match best {
            Some(entry) => Some(*entry),
            None => None,
        },
{
    match best {
        Some(entry) => {
            let k = choose|k: int| #[trigger]
                is_highest(places, k, user, restriction) && *entry == places[k];
            let c = choose|c: int| is_highest(places, c, user, restriction);
            assert(qualifies(places, k, user, restriction));
            assert(qualifies(places, c, user, restriction));
            assert(k == c);
        },
        None => {
            if exists|k: int| is_highest(places, k, user, restriction) {
                let c = choose|c: int| is_highest(places, c, user, restriction);
                assert(qualifies(places, c, user, restriction));
            }
        },
    }
}

/// Whether `after` is the leaderboard `before` with, at most, more answers on
/// record.
pub open spec fn same_board(before: Leaderboard, after: Leaderboard) -> bool {
    &&& after == (Leaderboard { runs: after.runs, ..before })
    &&& after.runs@ == before.runs@
}

/// Whether every answer on record is right.
pub open spec fn all_right(places: Seq<LeaderboardPlace>, found: Answers) -> bool {
    forall|u: Seq<u8>, r: Option<PartnerRestriction>| #[trigger]
        found.dom().contains((u, r)) ==> answers(places, u, r, found[(u, r)])
}

/// The entries that a list of shared entries points to.
pub open spec fn entries(places: Seq<Arc<LeaderboardPlace>>) -> Seq<LeaderboardPlace> {
    places.map_values(|p: Arc<LeaderboardPlace>| *p)
}

/// The count after one more scan. It stops at the largest number.
pub open spec fn one_more(scans: u64) -> u64 {
    if scans < u64::MAX {
        (scans + 1) as u64
    } else {
        scans
    }
}

/// There is one right answer only.
pub proof fn lemma_answer_unique(
    places: Seq<LeaderboardPlace>,
    user: Seq<u8>,
    restriction: Option<PartnerRestriction>,
    a: Option<usize>,
    b: Option<usize>,
)
    requires
        answers(places, user, restriction, a),
        answers(places, user, restriction, b),
    ensures
        a == b,
{
    match (a, b) {
        (Some(x), Some(y)) => {
            assert(qualifies(places, x as int, user, restriction));
            assert(qualifies(places, y as int, user, restriction));
        },
        (Some(x), None) => {
            assert(qualifies(places, x as int, user, restriction));
        },
        (None, Some(y)) => {
            assert(qualifies(places, y as int, user, restriction));
        },
        (None, None) => {},
    }
}

/// A user outranks a place exactly when their best unrestricted run does.
proof fn lemma_outranks(places: Seq<LeaderboardPlace>, user: Seq<u8>, place: u64, best: Option<usize>)
    requires
        answers(places, user, None, best),
    ensures
        outranks(places, user, place) <==> (best matches Some(k) && places[k as int].place < place),
{
    match best {
        Some(k) => {
            assert(qualifies(places, k as int, user, None));
            if outranks(places, user, place) {
                let j = choose|j: int|
                    0 <= j < places.len() && #[trigger] counts(places[j], user) && places[j].place
                        < place;
                assert(qualifies(places, j, user, None));
            }
            if places[k as int].place < place {
                assert(counts(places[k as int], user));
            }
        },
        None => {
            if outranks(places, user, place) {
                let j = choose|j: int|
                    0 <= j < places.len() && #[trigger] counts(places[j], user) && places[j].place
                        < place;
                assert(qualifies(places, j, user, None));
            }
        },
    }
}

fn run_has_player(run: &Run, user: &UserId) -> (found: bool)
    ensures
        found == has_player(*run, user@),
{
    let n = run.players.len();
    let mut p: usize = 0;
    while p < n
        invariant
            p <= n,
            n == run.players@.len(),
            forall|q: int| 0 <= q < p ==> !plays(#[trigger] run.players@[q], user@),
        decreases n - p,
    {
        match &run.players[p] {
            RunPlayer::User { id, .. } => {
                if id.same_key(user) {
                    assert(plays(run.players@[p as int], user@));
                    return true;
                }
            },
            RunPlayer::Guest { .. } => {},
        }
        p = p + 1;
    }
    false
}

fn entry_counts(entry: &LeaderboardPlace, user: &UserId) -> (yes: bool)
    ensures
        yes == counts(*entry, user@),
{
    let verified = match &entry.run.status {
        RunStatus::Verified { .. } => true,
        _ => false,
    };
    verified && entry.place != 0 && run_has_player(&entry.run, user)
}

/// Whether `best`, the best candidate among the first `i` entries, gives way
/// to the candidate at `i`.
fn improves(places: &Vec<Arc<LeaderboardPlace>>, best: Option<usize>, i: usize) -> (better: bool)
    requires
        i < places@.len(),
        best matches Some(k) ==> k < i,
    ensures
        better == match best {
            Some(k) => places@[i as int].place < places@[k as int].place,
            None => true,
        },
{
    match best {
        Some(k) => places[i].place < places[k].place,
        None => true,
    }
}

/// Whether `best` is the right answer when only the first `i` entries are
/// looked at.
spec fn best_so_far(
    places: Seq<LeaderboardPlace>,
    i: int,
    user: Seq<u8>,
    restriction: Option<PartnerRestriction>,
    best: Option<usize>,
) -> bool {
    match best {
        Some(k) => {
            &&& 0 <= k < i
            &&& qualifies(places, k as int, user, restriction)
            &&& forall|j: int|
                0 <= j < i && #[trigger] qualifies(places, j, user, restriction) ==> places[k as int].place
                    < places[j].place || (places[k as int].place == places[j].place && k <= j)
        },
        None => forall|j: int| 0 <= j < i ==> !#[trigger] qualifies(places, j, user, restriction),
    }
}

fn scan_unrestricted(places: &Vec<Arc<LeaderboardPlace>>, user: &UserId) -> (best: Option<usize>)
    ensures
        answers(entries(places@), user@, None, best),
{
    let ghost all = entries(places@);
    let mut best: Option<usize> = None;
    let n = places.len();
    let mut i: usize = 0;
    while i < n
        invariant
            i <= n,
            n == places@.len(),
            all == entries(places@),
            best_so_far(all, i as int, user@, None, best),
        decreases n - i,
    {
        assert(all[i as int] == *places@[i as int]);
        if entry_counts(&places[i], user) {
            if improves(places, best, i) {
                best = Some(i);
            }
        }
        i = i + 1;
    }
    best
}

/// The best unrestricted run of `user`, from the record where it is there.
fn highest_unrestricted(
    places: &Vec<Arc<LeaderboardPlace>>,
    found: &mut MultiKeyHashMap<UserId, Option<PartnerRestriction>, Option<usize>>,
    scans: &mut u64,
    user: UserId,
) -> (best: Option<usize>)
    requires
        all_right(entries(places@), old(found)@),
    ensures
        all_right(entries(places@), final(found)@),
        answers(entries(places@), user@, None, best),
        best matches Some(k) ==> k < places@.len(),
        old(found)@.dom().contains((user@, None)) ==> *final(found) == *old(found)
            && *final(scans) == *old(scans),
        !old(found)@.dom().contains((user@, None)) ==> final(found)@ == old(found)@.insert(
            (user@, None),
            best,
        ) && *final(scans) == one_more(*old(scans)),
{
    let none: Option<PartnerRestriction> = None;
    match found.get(&user, &none) {
        Some(known) => {
            return *known;
        },
        None => {},
    }
    let best = scan_unrestricted(places, &user);
    if *scans < u64::MAX {
        *scans = *scans + 1;
    }
    found.insert(user, none, best);
    best
}

/// Whether the partners of `user` in the run at `i` allow it.
fn partners_allow_run(
    places: &Vec<Arc<LeaderboardPlace>>,
    found: &mut MultiKeyHashMap<UserId, Option<PartnerRestriction>, Option<usize>>,
    scans: &mut u64,
    i: usize,
    user: &UserId,
) -> (allowed: bool)
    requires
        i < places@.len(),
        all_right(entries(places@), old(found)@),
    ensures
        all_right(entries(places@), final(found)@),
        allowed == partners_allow(entries(places@), i as int, user@),
        forall|k: (Seq<u8>, Option<PartnerRestriction>)| #[trigger]
            old(found)@.dom().contains(k) ==> final(found)@.dom().contains(k) && final(found)@[k]
                == old(found)@[k],
        forall|k: (Seq<u8>, Option<PartnerRestriction>)| #[trigger]
            final(found)@.dom().contains(k) && !old(found)@.dom().contains(k) ==> k.1 is None,
        *old(scans) <= *final(scans),
{
    let ghost all = entries(places@);
    let run = &places[i].run;
    let place = places[i].place;
    assert(all[i as int] == *places@[i as int]);
    let n = run.players.len();
    let mut allowed = true;
    let mut p: usize = 0;
    while p < n
        invariant
            p <= n,
            i < places@.len(),
            all == entries(places@),
            *run == all[i as int].run,
            place == all[i as int].place,
            n == run.players@.len(),
            all_right(all, found@),
            allowed == (forall|q: int|
                0 <= q < p ==> partner_allows(all, #[trigger] run.players@[q], user@, place)),
            forall|k: (Seq<u8>, Option<PartnerRestriction>)| #[trigger]
                old(found)@.dom().contains(k) ==> found@.dom().contains(k) && found@[k] == old(
                    found,
                )@[k],
            forall|k: (Seq<u8>, Option<PartnerRestriction>)| #[trigger]
                found@.dom().contains(k) && !old(found)@.dom().contains(k) ==> k.1 is None,
            *old(scans) <= *scans,
        decreases n - p,
    {
        let ghost before = allowed;
        let mut this_one = true;
        match &run.players[p] {
            RunPlayer::User { id, .. } => {
                if !id.same_key(user) {
                    let best = highest_unrestricted(places, found, scans, *id);
                    proof {
                        lemma_outranks(all, id@, place, best);
                    }
                    match best {
                        Some(k) => {
                            assert(all[k as int] == *places@[k as int]);
                            if places[k].place < place {
                                this_one = false;
                            }
                        },
                        None => {},
                    }
                }
            },
            RunPlayer::Guest { .. } => {},
        }
        assert(this_one == partner_allows(all, run.players@[p as int], user@, place));
        if !this_one {
            allowed = false;
        }
        p = p + 1;
        proof {
            if before && this_one {
                assert forall|q: int| 0 <= q < p implies partner_allows(
                    all,
                    #[trigger] run.players@[q],
                    user@,
                    place,
                ) by {
                    if q == p - 1 {
                    }
                }
            } else if !this_one {
                assert(!partner_allows(all, run.players@[p - 1], user@, place));
            } else {
                let q = choose|q: int|
                    0 <= q < p - 1 && !partner_allows(all, #[trigger] run.players@[q], user@, place);
                assert(!partner_allows(all, run.players@[q], user@, place));
            }
        }
    }
    allowed
}

/// The best run of `user` of which every partner allows it, from the record
/// where it is there.
fn highest_restricted(
    places: &Vec<Arc<LeaderboardPlace>>,
    found: &mut MultiKeyHashMap<UserId, Option<PartnerRestriction>, Option<usize>>,
    scans: &mut u64,
    user: UserId,
) -> (best: Option<usize>)
    requires
        all_right(entries(places@), old(found)@),
    ensures
        all_right(entries(places@), final(found)@),
        answers(entries(places@), user@, Some(PartnerRestriction::RankGte), best),
        best matches Some(k) ==> k < places@.len(),
        final(found)@.dom().contains((user@, Some(PartnerRestriction::RankGte))),
        old(found)@.dom().contains((user@, Some(PartnerRestriction::RankGte))) ==> *final(found)
            == *old(found) && *final(scans) == *old(scans),
        *old(scans) <= *final(scans),
        forall|k: (Seq<u8>, Option<PartnerRestriction>)| #[trigger]
            old(found)@.dom().contains(k) ==> final(found)@.dom().contains(k) && final(found)@[k]
                == old(found)@[k],
{
    let ghost all = entries(places@);
    let restricted: Option<PartnerRestriction> = Some(PartnerRestriction::RankGte);
    match found.get(&user, &restricted) {
        Some(known) => {
            return *known;
        },
        None => {},
    }
    let mut best: Option<usize> = None;
    let n = places.len();
    let mut i: usize = 0;
    while i < n
        invariant
            i <= n,
            n == places@.len(),
            all == entries(places@),
            restricted == Some(PartnerRestriction::RankGte),
            all_right(all, found@),
            best_so_far(all, i as int, user@, restricted, best),
            !found@.dom().contains((user@, restricted)),
            forall|k: (Seq<u8>, Option<PartnerRestriction>)| #[trigger]
                old(found)@.dom().contains(k) ==> found@.dom().contains(k) && found@[k] == old(
                    found,
                )@[k],
            *old(scans) <= *scans,
        decreases n - i,
    {
        assert(all[i as int] == *places@[i as int]);
        if entry_counts(&places[i], &user) {
            if partners_allow_run(places, found, scans, i, &user) {
                if improves(places, best, i) {
                    best = Some(i);
                }
            }
        }
        i = i + 1;
    }
    if *scans < u64::MAX {
        *scans = *scans + 1;
    }
    found.insert(user, restricted, best);
    best
}

/// The runs of a leaderboard in the order in which the provider lists them,
/// with a record of the best runs that have been looked for.
///
/// Each search for a user's best run is made once: its answer is kept and
/// given again when the same question comes back.
#[derive(Debug)]
pub struct RunTable {
    places: Vec<Arc<LeaderboardPlace>>,
    found: MultiKeyHashMap<UserId, Option<PartnerRestriction>, Option<usize>>,
    scans: u64,
}

impl View for RunTable {
    type V = Seq<LeaderboardPlace>;

    /// The entries, in the provider's order.
    closed spec fn view(&self) -> Seq<LeaderboardPlace> {
        entries(self.places@)
    }
}

impl RunTable {
    #[verifier::type_invariant]
    spec fn record_is_right(self) -> bool {
        all_right(entries(self.places@), self.found@)
    }

    /// Whether the best run of `user` under `restriction` is on record.
    pub closed spec fn is_memoized(
        &self,
        user: Seq<u8>,
        restriction: Option<PartnerRestriction>,
    ) -> bool {
        self.found@.dom().contains((user, restriction))
    }

    /// How many times the entries have been scanned for a best run.
    pub closed spec fn spec_scans(&self) -> u64 {
        self.scans
    }

    /// A table of the given entries, with nothing on record.
    pub fn new(places: Vec<Arc<LeaderboardPlace>>) -> (table: Self)
        ensures
            table@ == entries(places@),
            table.spec_scans() == 0,
            forall|u: Seq<u8>, r: Option<PartnerRestriction>| !table.is_memoized(u, r),
    {
        RunTable { places, found: MultiKeyHashMap::new(), scans: 0 }
    }

    /// The number of entries.
    pub fn len(&self) -> (n: usize)
        ensures
            n == self@.len(),
    {
        self.places.len()
    }

    /// The entry at position `i`.
    pub fn get(&self, i: usize) -> (entry: &Arc<LeaderboardPlace>)
        requires
            i < self@.len(),
        ensures
            **entry == self@[i as int],
    {
        &self.places[i]
    }

    /// How many times the entries have been scanned for a best run.
    pub fn scans(&self) -> (n: u64)
        ensures
            n == self.spec_scans(),
    {
        self.scans
    }

    /// The position of the best run of `user_id` under `partner_restriction`.
    ///
    /// The answer is kept: a question that has been asked before is answered
    /// from the record, and nothing changes.
    pub fn highest_index(
        &mut self,
        user_id: UserId,
        partner_restriction: Option<PartnerRestriction>,
    ) -> (best: Option<usize>)
        ensures
            answers(old(self)@, user_id@, partner_restriction, best),
            best matches Some(k) ==> k < old(self)@.len(),
            final(self)@ == old(self)@,
            final(self).is_memoized(user_id@, partner_restriction),
            old(self).is_memoized(user_id@, partner_restriction) ==> *final(self) == *old(self),
            forall|u: Seq<u8>, r: Option<PartnerRestriction>|
                old(self).is_memoized(u, r) ==> final(self).is_memoized(u, r),
            old(self).spec_scans() <= final(self).spec_scans(),
    {
        proof {
            use_type_invariant(&*self);
        }
        let ghost before = *self;
        let mut taken = RunTable { places: Vec::new(), found: MultiKeyHashMap::new(), scans: 0 };
        std::mem::swap(self, &mut taken);
        let RunTable { places, mut found, mut scans } = taken;
        let best = match partner_restriction {
            Some(restriction) => {
                assert(restriction == PartnerRestriction::RankGte);
                highest_restricted(&places, &mut found, &mut scans, user_id)
            },
            None => highest_unrestricted(&places, &mut found, &mut scans, user_id),
        };
        *self = RunTable { places, found, scans };
        best
    }

    /// The best run of `user_id` under `partner_restriction`: among the runs
    /// that count for the user, the one with the smallest place, and of
    /// several with that place the one listed first.
    pub fn highest(
        &mut self,
        user_id: UserId,
        partner_restriction: Option<PartnerRestriction>,
    ) -> (best: Option<Arc<LeaderboardPlace>>)
        ensures
            best_run_is(old(self)@, user_id@, partner_restriction, best),
            final(self)@ == old(self)@,
            final(self).is_memoized(user_id@, partner_restriction),
            old(self).is_memoized(user_id@, partner_restriction) ==> *final(self) == *old(self),
            forall|u: Seq<u8>, r: Option<PartnerRestriction>|
                old(self).is_memoized(u, r) ==> final(self).is_memoized(u, r),
            old(self).spec_scans() <= final(self).spec_scans(),
    {
        match self.highest_index(user_id, partner_restriction) {
            Some(k) => {
                let entry = share(&self.places[k]);
                assert(is_highest(old(self)@, k as int, user_id@, partner_restriction));
                Some(entry)
            },
            None => None,
        }
    }
}

impl Leaderboard {
    /// The best run of `user_id` on this leaderboard under
    /// `partner_restriction`, or `None` where no run counts for the user.
    ///
    /// A run counts for a user who played in it, if it is verified and has a
    /// place. Under [`PartnerRestriction::RankGte`] it counts only if none of
    /// the other users in it has a run of their own that counts and is placed
    /// strictly better. Of the runs that count the one with the smallest
    /// place is the best; of several with that place, the one listed first.
    pub fn get_highest_run(
        &mut self,
        user_id: UserId,
        partner_restriction: Option<PartnerRestriction>,
    ) -> (best: Option<Arc<LeaderboardPlace>>)
        ensures
            best_run_is(old(self).runs@, user_id@, partner_restriction, best),
            final(self).runs@ == old(self).runs@,
            final(self).runs.is_memoized(user_id@, partner_restriction),
            old(self).runs.is_memoized(user_id@, partner_restriction) ==> *final(self) == *old(
                self,
            ),
            forall|u: Seq<u8>, r: Option<PartnerRestriction>|
                old(self).runs.is_memoized(u, r) ==> final(self).runs.is_memoized(u, r),
            old(self).runs.spec_scans() <= final(self).runs.spec_scans(),
            same_board(*old(self), *final(self)),
    {
        self.runs.highest(user_id, partner_restriction)
    }
}

} // verus!
