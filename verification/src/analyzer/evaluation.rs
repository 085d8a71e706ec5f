//! The evaluation of single requirements against what is cached.

use vstd::prelude::*;
use vstd::string::*;
use std::sync::Arc;
use crate::analyzer::role_definition::{
    CmLeaderboard, PartnerRestriction, RankRequirement, RecentRequirement, RequirementDefinition,
    TimeRequirement, VariableDefinition,
};
use crate::boards::cm::active_profiles::{is_active, lists_profile};
use crate::boards::cm::aggregate::AggregatedResponse;
use crate::boards::cm::profile::Profile;
use crate::boards::srcom::category::CategoryId;
use crate::boards::srcom::game::GameId;
use crate::boards::srcom::user::User;
use crate::boards::srcom::variable::VariableId;
use crate::boards::srcom::variable_map::VariableMap;
use crate::text::{i64_to_string, signed_decimal};
use crate::time::{parse_duration_text, parsed_duration, Duration};
use crate::analyzer::user::{
    describes, fullgame_cause, spec_fullgame_cause, with_detail, CauseView, Failure,
    MetRequirementCause,
};
use crate::boards::cm::{
    spec_active_profiles_request, spec_aggregate_request, spec_profile_request, CmBoardsState,
};
use crate::boards::request::{Lookup, Request, RequestView};
use crate::boards::srcom::leaderboard::{
    lemma_best_run, same_board, spec_best, Leaderboard, LeaderboardPlace,
};
use crate::boards::srcom::user::UserId;
use crate::boards::srcom::{
    entity_request, leaderboard_request, same_boards, spec_entity_request, BoardDefinition,
    BoardKey, SrComBoardsState,
};
use crate::cache::{fresh_value, CachedEntry};
use crate::error::RoleManagerError;
use crate::text::byte_chars;
use crate::time::{
    is_recent, parse_date_text, parse_error_debug_name, parsed_date, spec_is_recent, unix_seconds,
};

verus! {

/// What has to be fetched and stored before an analysis can go on.
#[derive(Debug)]
pub enum Needed {
    Leaderboard(BoardDefinition),
    Aggregate(CmLeaderboard),
    ActiveProfiles(u64),
    Profile(i64),
    User(UserId),
    Game(GameId),
    Category(CategoryId),
    Variable(VariableId),
}

/// What has to be fetched, with its strings as texts.
pub enum NeededView {
    Leaderboard(BoardKey),
    Aggregate(CmLeaderboard),
    ActiveProfiles(u64),
    Profile(i64),
    User(Seq<u8>),
    Game(Seq<char>),
    Category(Seq<char>),
    Variable(Seq<char>),
}

impl View for Needed {
    type V = NeededView;

    open spec fn view(&self) -> NeededView {
        match *self {
            Needed::Leaderboard(def) => NeededView::Leaderboard(def@),
            Needed::Aggregate(board) => NeededView::Aggregate(board),
            Needed::ActiveProfiles(months) => NeededView::ActiveProfiles(months),
            Needed::Profile(id) => NeededView::Profile(id),
            Needed::User(id) => NeededView::User(id@),
            Needed::Game(id) => NeededView::Game(id@),
            Needed::Category(id) => NeededView::Category(id@),
            Needed::Variable(id) => NeededView::Variable(id@),
        }
    }
}

impl Needed {
    /// The request that fetches what is needed.
    pub open spec fn spec_request(&self) -> RequestView {
        match *self {
            Needed::Leaderboard(def) => def.spec_request(),
            Needed::Aggregate(board) => spec_aggregate_request(board),
            Needed::ActiveProfiles(months) => spec_active_profiles_request(months),
            Needed::Profile(id) => spec_profile_request(id),
            Needed::User(id) => spec_entity_request("users"@, byte_chars(id@)),
            Needed::Game(id) => spec_entity_request("games"@, id@),
            Needed::Category(id) => spec_entity_request("categories"@, id@),
            Needed::Variable(id) => spec_entity_request("variables"@, id@),
        }
    }

    /// The request that fetches what is needed.
    pub fn request(&self) -> (request: Request)
        ensures
            request@ == self.spec_request(),
    {
        match self {
            Needed::Leaderboard(def) => leaderboard_request(def),
            Needed::Aggregate(board) => crate::boards::cm::aggregate_request(board),
            Needed::ActiveProfiles(months) => crate::boards::cm::active_profiles_request(*months),
            Needed::Profile(id) => crate::boards::cm::profile_request(*id),
            Needed::User(id) => {
                let text = id.to_string();
                entity_request("users", text.as_str())
            },
            Needed::Game(id) => entity_request("games", id.0.as_str()),
            Needed::Category(id) => entity_request("categories", id.0.as_str()),
            Needed::Variable(id) => entity_request("variables", id.0.as_str()),
        }
    }
}

/// How far a piece of work has come: it is done, or something is needed.
#[derive(Debug)]
pub enum Step<T> {
    Done(T),
    Need(Needed),
}

/// What a piece of work comes to: a result, something that is needed first,
/// or a failure.
pub enum Outcome<T> {
    Done(T),
    Need(NeededView),
    Failed(Failure),
}

/// The runs of the leaderboards that are cached and fresh at `now`.
pub open spec fn fresh_boards(
    cache: Map<BoardKey, CachedEntry<Leaderboard>>,
    ttl: i64,
    now: i64,
) -> Map<BoardKey, Seq<LeaderboardPlace>> {
    Map::new(
        |k: BoardKey| fresh_value(cache, ttl, k, now) is Some,
        |k: BoardKey| cache[k].value.runs@,
    )
}

/// The values that are cached and fresh at `now`.
pub open spec fn fresh_values<K, V>(cache: Map<K, CachedEntry<V>>, ttl: i64, now: i64) -> Map<
    K,
    V,
> {
    Map::new(|k: K| fresh_value(cache, ttl, k, now) is Some, |k: K| cache[k].value)
}

/// More answers on record change nothing in the runs that are fresh.
pub proof fn lemma_same_boards_fresh(
    before: Map<BoardKey, CachedEntry<Leaderboard>>,
    after: Map<BoardKey, CachedEntry<Leaderboard>>,
    ttl: i64,
    now: i64,
)
    requires
        same_boards(before, after),
    ensures
        fresh_boards(before, ttl, now) == fresh_boards(after, ttl, now),
{
    assert(fresh_boards(before, ttl, now) =~= fresh_boards(after, ttl, now)) by {
        assert forall|k: BoardKey| fresh_boards(before, ttl, now).dom().contains(k)
            <==> fresh_boards(after, ttl, now).dom().contains(k) by {
            if before.dom().contains(k) {
                assert(after[k].fetched_at == before[k].fetched_at);
            }
        }
    }
}

/// More answers on record, twice, are more answers on record.
pub proof fn lemma_same_boards_transitive(
    a: Map<BoardKey, CachedEntry<Leaderboard>>,
    b: Map<BoardKey, CachedEntry<Leaderboard>>,
    c: Map<BoardKey, CachedEntry<Leaderboard>>,
)
    requires
        same_boards(a, b),
        same_boards(b, c),
    ensures
        same_boards(a, c),
{
    assert forall|k: BoardKey| #[trigger] a.dom().contains(k) implies c[k].fetched_at
        == a[k].fetched_at && same_board(a[k].value, c[k].value) by {
        assert(b.dom().contains(k));
    }
}

/// What is asked of a run.
#[derive(Debug, Clone, Copy)]
pub enum RunTest {
    /// A place among the first `top`.
    Rank { top: u64 },
    /// A time of no more than `seconds` seconds.
    Time { seconds: i64 },
    /// A date within the last `months` months.
    Recent { months: u64 },
}

/// Whether the run of `entry` passes `test` at `now`. A run without a date
/// is not recent; a date that cannot be read is a failure.
pub open spec fn spec_passes(test: RunTest, entry: LeaderboardPlace, now: i64) -> Result<
    bool,
    Failure,
> {
    match test {
        RunTest::Rank { top } => Ok(entry.place <= top),
        RunTest::Time { seconds } => Ok(entry.run.times.primary_ms <= seconds * 1000),
        RunTest::Recent { months } => match entry.run.date {
            Some(text) => match parsed_date(text@) {
                Some(d) => Ok(spec_is_recent(now, months, unix_seconds(d.0, d.1, d.2))),
                None => Err(Failure::RecentDate { date: text@ }),
            },
            None => Ok(false),
        },
    }
}

/// Whether the run of `entry` passes `test` at `now`.
pub fn passes(test: &RunTest, entry: &LeaderboardPlace, now: i64) -> (passed: Result<
    bool,
    RoleManagerError,
>)
    ensures
        match passed {
            Ok(yes) => spec_passes(*test, *entry, now) == Ok::<bool, Failure>(yes),
            Err(e) => spec_passes(*test, *entry, now) matches Err(failure) && describes(
                failure,
                e.cause@,
            ) && !e.report_via_edit,
        },
{
    match test {
        RunTest::Rank { top } => Ok(entry.place <= *top),
        RunTest::Time { seconds } => Ok(
            (entry.run.times.primary_ms as i128) <= (*seconds as i128) * 1000,
        ),
        RunTest::Recent { months } => {
            match &entry.run.date {
                Some(text) => {
                    match parse_date_text(text.as_str()) {
                        Ok(date) => {
                            let then = crate::time::date_unix_seconds(date);
                            Ok(is_recent(now, *months, then))
                        },
                        Err(error) => {
                            let mut cause = String::from_str(
                                "Speedrun.com provided invalid date: ",
                            );
                            cause.append(text.as_str());
                            cause.append(" (Caused by ");
                            let detail = parse_error_debug_name(&error);
                            cause.append(detail.as_str());
                            cause.append(")");
                            proof {
                                assert(cause@ == with_detail(
                                    "Speedrun.com provided invalid date: "@ + text@
                                        + " (Caused by "@,
                                    detail@,
                                    ")"@,
                                ));
                            }
                            Err(RoleManagerError::new(cause))
                        },
                    }
                },
                None => Ok(false),
            }
        },
    }
}

/// The cause for the first of `accounts` whose best run on `places` under
/// `restriction` passes `test`; `None` where no account has such a run.
pub open spec fn first_passing(
    places: Seq<LeaderboardPlace>,
    accounts: Seq<Seq<u8>>,
    restriction: Option<PartnerRestriction>,
    test: RunTest,
    now: i64,
) -> Result<Option<CauseView>, Failure>
    decreases accounts.len(),
{
    if accounts.len() == 0 {
        Ok(None)
    } else {
        let rest = first_passing(places, accounts.drop_first(), restriction, test, now);
        match spec_best(places, accounts[0], restriction) {
            Some(entry) => match spec_passes(test, entry, now) {
                Ok(yes) => if yes {
                    match spec_fullgame_cause(accounts[0], entry, now) {
                        Ok(cause) => Ok(Some(cause)),
                        Err(failure) => Err(failure),
                    }
                } else {
                    rest
                },
                Err(failure) => Err(failure),
            },
            None => rest,
        }
    }
}

/// What a requirement on runs comes to: nothing without an account, the need
/// of the leaderboard where it is not among `boards`, else what
/// [`first_passing`] finds.
pub open spec fn runs_outcome(
    boards: Map<BoardKey, Seq<LeaderboardPlace>>,
    accounts: Seq<Seq<u8>>,
    key: BoardKey,
    restriction: Option<PartnerRestriction>,
    test: RunTest,
    now: i64,
) -> Outcome<Option<CauseView>> {
    if accounts.len() == 0 {
        Outcome::Done(None)
    } else if !boards.dom().contains(key) {
        Outcome::Need(NeededView::Leaderboard(key))
    } else {
        match first_passing(boards[key], accounts, restriction, test, now) {
            Ok(cause) => Outcome::Done(cause),
            Err(failure) => Outcome::Failed(failure),
        }
    }
}

/// The bytes of each of a list of identifiers.
pub open spec fn user_views(accounts: Seq<UserId>) -> Seq<Seq<u8>> {
    accounts.map_values(|u: UserId| u@)
}

/// The view of a cause that may be none.
pub open spec fn cause_view(cause: Option<MetRequirementCause>) -> Option<CauseView> {
    match cause {
        Some(c) => Some(c@),
        None => None,
    }
}

/// Whether `result` is what the outcome `outcome` asks for.
pub open spec fn cause_step_is(
    result: Result<Step<Option<MetRequirementCause>>, RoleManagerError>,
    outcome: Outcome<Option<CauseView>>,
) -> bool {
    match result {
        Ok(Step::Done(cause)) => outcome == Outcome::Done(cause_view(cause)),
        Ok(Step::Need(needed)) => outcome == Outcome::<Option<CauseView>>::Need(needed@),
        Err(e) => outcome matches Outcome::Failed(failure) && describes(failure, e.cause@)
            && !e.report_via_edit,
    }
}

/// Whether `after` is the state `before` with, at most, more answers on
/// record in its leaderboards.
pub open spec fn same_state(before: &SrComBoardsState, after: &SrComBoardsState) -> bool {
    &&& same_boards(before.cached_boards@, after.cached_boards@)
    &&& after.cached_boards.spec_ttl() == before.cached_boards.spec_ttl()
    &&& after.cached_games == before.cached_games
    &&& after.cached_categories == before.cached_categories
    &&& after.cached_users == before.cached_users
    &&& after.cached_variables == before.cached_variables
}

/// Looks for the first of `accounts` whose best run on the leaderboard that
/// `def` names passes `test`, and cites that run.
pub fn evaluate_runs(
    srcom: &mut SrComBoardsState,
    def: BoardDefinition,
    accounts: &Vec<UserId>,
    restriction: &Option<PartnerRestriction>,
    test: &RunTest,
    now: i64,
) -> (result: Result<Step<Option<MetRequirementCause>>, RoleManagerError>)
    ensures
        same_state(old(srcom), final(srcom)),
        cause_step_is(
            result,
            runs_outcome(
                fresh_boards(old(srcom).cached_boards@, old(srcom).cached_boards.spec_ttl(), now),
                user_views(accounts@),
                def@,
                *restriction,
                *test,
                now,
            ),
        ),
{
    let ghost ttl = srcom.cached_boards.spec_ttl();
    let ghost boards = fresh_boards(srcom.cached_boards@, ttl, now);
    proof {
        assert(srcom.cached_boards@.dom() =~= srcom.cached_boards@.dom());
    }
    let n = accounts.len();
    if n == 0 {
        return Ok(Step::Done(None));
    }
    if srcom.cached_boards.fresh_position(&def, now).is_none() {
        return Ok(Step::Need(Needed::Leaderboard(def)));
    }
    let ghost places = boards[def@];
    let ghost ids = user_views(accounts@);
    let mut i: usize = 0;
    proof {
        assert(ids.skip(0) =~= ids);
    }
    while i < n
        invariant
            i <= n,
            n == accounts@.len(),
            ttl == old(srcom).cached_boards.spec_ttl(),
            boards == fresh_boards(old(srcom).cached_boards@, ttl, now),
            same_state(old(srcom), srcom),
            boards.dom().contains(def@),
            places == boards[def@],
            ids == user_views(accounts@),
            first_passing(places, ids, *restriction, *test, now) == first_passing(
                places,
                ids.skip(i as int),
                *restriction,
                *test,
                now,
            ),
        decreases n - i,
    {
        let ghost before = srcom.cached_boards@;
        proof {
            lemma_same_boards_fresh(old(srcom).cached_boards@, before, ttl, now);
            assert(fresh_boards(before, ttl, now).dom().contains(def@));
            assert(ids.skip(i as int)[0] == accounts@[i as int]@);
            assert(ids.skip(i as int).drop_first() =~= ids.skip(i + 1));
        }
        let found = srcom.highest_run_on(&def, &accounts[i], restriction, now);
        proof {
            lemma_same_boards_transitive(
                old(srcom).cached_boards@,
                before,
                srcom.cached_boards@,
            );
        }
        match found {
            Lookup::Found(best) => {
                proof {
                    lemma_best_run(places, accounts@[i as int]@, *restriction, best);
                }
                match best {
                    Some(entry) => {
                        let passed = match passes(test, &entry, now) {
                            Ok(passed) => passed,
                            Err(e) => {
                                return Err(e);
                            },
                        };
                        if passed {
                            match fullgame_cause(&accounts[i], &entry, now) {
                                Ok(cause) => {
                                    return Ok(Step::Done(Some(cause)));
                                },
                                Err(e) => {
                                    return Err(e);
                                },
                            }
                        }
                    },
                    None => {},
                }
            },
            Lookup::Fetch(_) => {
                proof {
                    assert(false);
                }
                return Ok(Step::Need(Needed::Leaderboard(def)));
            },
        }
        i = i + 1;
    }
    Ok(Step::Done(None))
}

/// The cause for the first of the accounts `steam` whose total on the board
/// `aggregate` is `points` or more; `None` where there is none.
pub open spec fn first_scoring(
    aggregate: AggregatedResponse,
    steam: Seq<i64>,
    board: CmLeaderboard,
    points: u64,
) -> Option<CauseView>
    decreases steam.len(),
{
    if steam.len() == 0 {
        None
    } else {
        let key = signed_decimal(steam[0] as int);
        if aggregate.points@.dom().contains(key) && aggregate.points@[key].score_data.score
            >= points {
            Some(
                CauseView::CmAggregate {
                    steam_id: steam[0],
                    board,
                    points: aggregate.points@[key].score_data.score,
                },
            )
        } else {
            first_scoring(aggregate, steam.drop_first(), board, points)
        }
    }
}

/// The cause for the first of the accounts `steam` that is among the active
/// `profiles`; `None` where there is none.
pub open spec fn first_active(profiles: Seq<String>, steam: Seq<i64>) -> Option<CauseView>
    decreases steam.len(),
{
    if steam.len() == 0 {
        None
    } else if lists_profile(profiles, steam[0]) {
        Some(CauseView::CmActivity { steam_id: steam[0] })
    } else {
        first_active(profiles, steam.drop_first())
    }
}

/// What a requirement on points comes to: nothing without an account, the
/// need of the board where it is not among `aggregates`, else what
/// [`first_scoring`] finds.
pub open spec fn points_outcome(
    aggregates: Map<CmLeaderboard, Arc<AggregatedResponse>>,
    steam: Seq<i64>,
    board: CmLeaderboard,
    points: u64,
) -> Outcome<Option<CauseView>> {
    if steam.len() == 0 {
        Outcome::Done(None)
    } else if !aggregates.dom().contains(board) {
        Outcome::Need(NeededView::Aggregate(board))
    } else {
        Outcome::Done(first_scoring(*aggregates[board], steam, board, points))
    }
}

/// What a requirement on activity on the puzzle board comes to: the need of
/// the list where it is not among `active`, else what [`first_active`] finds.
pub open spec fn activity_outcome(
    active: Map<u64, Arc<Vec<String>>>,
    steam: Seq<i64>,
    months: u64,
) -> Outcome<Option<CauseView>> {
    if !active.dom().contains(months) {
        Outcome::Need(NeededView::ActiveProfiles(months))
    } else {
        Outcome::Done(first_active(active[months]@, steam))
    }
}

/// Looks for the first of the accounts `steam` whose total on `board` is
/// `points` or more, and cites that total.
#[verifier::loop_isolation(false)]
pub fn evaluate_points(
    cm: &CmBoardsState,
    steam: &Vec<i64>,
    board: &CmLeaderboard,
    points: u64,
    now: i64,
) -> (step: Step<Option<MetRequirementCause>>)
    ensures
        cause_step_is(
            Ok(step),
            points_outcome(
                fresh_values(cm.cached_aggregates@, cm.cached_aggregates.spec_ttl(), now),
                steam@,
                *board,
                points,
            ),
        ),
{
    let n = steam.len();
    if n == 0 {
        return Step::Done(None);
    }
    let aggregate = match cm.cached_aggregates.get(board, now) {
        Some(aggregate) => aggregate,
        None => {
            return Step::Need(Needed::Aggregate(*board));
        },
    };
    let mut i: usize = 0;
    proof {
        assert(steam@.skip(0) =~= steam@);
    }
    while i < n
        invariant
            i <= n,
            n == steam@.len(),
            first_scoring(**aggregate, steam@, *board, points) == first_scoring(
                **aggregate,
                steam@.skip(i as int),
                *board,
                points,
            ),
        decreases n - i,
    {
        proof {
            assert(steam@.skip(i as int)[0] == steam@[i as int]);
            assert(steam@.skip(i as int).drop_first() =~= steam@.skip(i + 1));
        }
        let key = i64_to_string(steam[i]);
        match aggregate.points.get(&key) {
            Some(place) => {
                if place.score_data.score as u64 >= points {
                    return Step::Done(
                        Some(
                            MetRequirementCause::CmAggregate {
                                steam_id: steam[i],
                                board: *board,
                                points: place.score_data.score,
                            },
                        ),
                    );
                }
            },
            None => {},
        }
        i = i + 1;
    }
    Step::Done(None)
}

/// Looks for the first of the accounts `steam` that was active on the puzzle
/// board in the last `months` months.
#[verifier::loop_isolation(false)]
pub fn evaluate_activity(cm: &CmBoardsState, steam: &Vec<i64>, months: u64, now: i64) -> (step:
    Step<Option<MetRequirementCause>>)
    ensures
        cause_step_is(
            Ok(step),
            activity_outcome(
                fresh_values(
                    cm.cached_active_profiles@,
                    cm.cached_active_profiles.spec_ttl(),
                    now,
                ),
                steam@,
                months,
            ),
        ),
{
    let profiles = match cm.cached_active_profiles.get(&months, now) {
        Some(profiles) => profiles,
        None => {
            return Step::Need(Needed::ActiveProfiles(months));
        },
    };
    let n = steam.len();
    let mut i: usize = 0;
    proof {
        assert(steam@.skip(0) =~= steam@);
    }
    while i < n
        invariant
            i <= n,
            n == steam@.len(),
            first_active(profiles@, steam@) == first_active(profiles@, steam@.skip(i as int)),
        decreases n - i,
    {
        proof {
            assert(steam@.skip(i as int)[0] == steam@[i as int]);
            assert(steam@.skip(i as int).drop_first() =~= steam@.skip(i + 1));
        }
        if is_active(profiles, steam[i]) {
            return Step::Done(Some(MetRequirementCause::CmActivity { steam_id: steam[i] }));
        }
        i = i + 1;
    }
    Step::Done(None)
}

/// The choice that a list of chosen values makes: each value under its
/// variable, a later one in place of an earlier one for the same variable.
pub open spec fn choice_of(variables: Seq<VariableDefinition>) -> Map<Seq<char>, Seq<char>>
    decreases variables.len(),
{
    if variables.len() == 0 {
        Map::empty()
    } else {
        choice_of(variables.drop_last()).insert(
            variables.last().variable@,
            variables.last().choice@,
        )
    }
}

/// The choice that the values of a requirement make; the empty choice where
/// it names none.
pub open spec fn spec_choice(variables: Option<Vec<VariableDefinition>>) -> Map<
    Seq<char>,
    Seq<char>,
> {
    match variables {
        Some(list) => choice_of(list@),
        None => Map::empty(),
    }
}

/// The full-game leaderboard that a requirement names.
pub open spec fn requirement_board(
    game: GameId,
    category: CategoryId,
    variables: Option<Vec<VariableDefinition>>,
) -> BoardKey {
    BoardKey { game: game@, category: category@, level: None, variables: spec_choice(variables) }
}

/// The full-game leaderboard that a requirement names.
pub fn board_of(
    game: &GameId,
    category: &CategoryId,
    variables: &Option<Vec<VariableDefinition>>,
) -> (def: BoardDefinition)
    ensures
        def@ == requirement_board(*game, *category, *variables),
{
    let mut choice = VariableMap::new();
    match variables {
        Some(list) => {
            let n = list.len();
            let mut i: usize = 0;
            while i < n
                invariant
                    i <= n,
                    n == list@.len(),
                    choice@ == choice_of(list@.take(i as int)),
                decreases n - i,
            {
                proof {
                    assert(list@.take(i + 1).drop_last() =~= list@.take(i as int));
                }
                choice.insert(list[i].variable.clone(), list[i].choice.clone());
                i = i + 1;
            }
            proof {
                assert(list@.take(n as int) =~= list@);
            }
        },
        None => {},
    }
    BoardDefinition { game: game.clone(), category: category.clone(), level: None, variables: choice }
}

/// What is cached and fresh at an instant.
pub struct Snapshot {
    pub boards: Map<BoardKey, Seq<LeaderboardPlace>>,
    pub users: Map<Seq<u8>, Arc<User>>,
    pub aggregates: Map<CmLeaderboard, Arc<AggregatedResponse>>,
    pub active_profiles: Map<u64, Arc<Vec<String>>>,
    pub profiles: Map<i64, Arc<Profile>>,
    pub now: i64,
}

/// What the two states hold that is fresh at `now`.
pub open spec fn snapshot(srcom: &SrComBoardsState, cm: &CmBoardsState, now: i64) -> Snapshot {
    Snapshot {
        boards: fresh_boards(srcom.cached_boards@, srcom.cached_boards.spec_ttl(), now),
        users: fresh_values(srcom.cached_users@, srcom.cached_users.spec_ttl(), now),
        aggregates: fresh_values(cm.cached_aggregates@, cm.cached_aggregates.spec_ttl(), now),
        active_profiles: fresh_values(
            cm.cached_active_profiles@,
            cm.cached_active_profiles.spec_ttl(),
            now,
        ),
        profiles: fresh_values(cm.cached_profiles@, cm.cached_profiles.spec_ttl(), now),
        now,
    }
}

/// More answers on record change nothing in what is fresh.
pub proof fn lemma_same_state_snapshot(
    before: &SrComBoardsState,
    after: &SrComBoardsState,
    cm: &CmBoardsState,
    now: i64,
)
    requires
        same_state(before, after),
    ensures
        snapshot(before, cm, now) == snapshot(after, cm, now),
{
    lemma_same_boards_fresh(
        before.cached_boards@,
        after.cached_boards@,
        before.cached_boards.spec_ttl(),
        now,
    );
}

/// The seconds of the duration that `speedate` reads from `time`.
pub open spec fn duration_seconds(time: Seq<char>) -> Option<int> {
    match parsed_duration(time) {
        Some(d) => Some(
            (Duration {
                positive: d.0,
                day: d.1,
                second: d.2,
                microsecond: d.3,
            }).spec_signed_total_seconds(),
        ),
        None => None,
    }
}

/// What one requirement of the badge named `badge` comes to for a user with
/// the accounts `steam` and `srcom`: the cause by which it is met, or `None`
/// where it is not met.
///
/// A requirement on runs is met by the first account of the speedrunning
/// board whose best run passes; one on the puzzle board by the first steam
/// account that passes. A manual requirement is never met.
pub open spec fn requirement_outcome(
    snap: Snapshot,
    steam: Seq<i64>,
    srcom: Seq<Seq<u8>>,
    badge: Seq<char>,
    requirement: RequirementDefinition,
) -> Outcome<Option<CauseView>> {
    match requirement {
        RequirementDefinition::Manual => Outcome::Done(None),
        RequirementDefinition::Rank(
            RankRequirement::Srcom { game, category, variables, partner, top },
        ) => runs_outcome(
            snap.boards,
            srcom,
            requirement_board(game, category, variables),
            partner,
            RunTest::Rank { top },
            snap.now,
        ),
        RequirementDefinition::Time(
            TimeRequirement::Srcom { game, category, variables, partner, time },
        ) => match duration_seconds(time@) {
            Some(seconds) => runs_outcome(
                snap.boards,
                srcom,
                requirement_board(game, category, variables),
                partner,
                RunTest::Time { seconds: seconds as i64 },
                snap.now,
            ),
            None => Outcome::Failed(Failure::Duration { badge, time: time@ }),
        },
        RequirementDefinition::Points { leaderboard, points } => points_outcome(
            snap.aggregates,
            steam,
            leaderboard,
            points,
        ),
        RequirementDefinition::Recent(
            RecentRequirement::Srcom { game, category, variables, months },
        ) => runs_outcome(
            snap.boards,
            srcom,
            requirement_board(game, category, variables),
            None,
            RunTest::Recent { months },
            snap.now,
        ),
        RequirementDefinition::Recent(RecentRequirement::Cm { months }) => activity_outcome(
            snap.active_profiles,
            steam,
            months,
        ),
    }
}

/// Evaluates one requirement of the badge named `badge` for a user with the
/// accounts `steam` and `srcom`, against what is cached and fresh at `now`.
pub fn evaluate_requirement(
    srcom_boards: &mut SrComBoardsState,
    cm_boards: &CmBoardsState,
    steam: &Vec<i64>,
    srcom: &Vec<UserId>,
    badge: &String,
    requirement: &RequirementDefinition,
    now: i64,
) -> (result: Result<Step<Option<MetRequirementCause>>, RoleManagerError>)
    ensures
        same_state(old(srcom_boards), final(srcom_boards)),
        cause_step_is(
            result,
            requirement_outcome(
                snapshot(old(srcom_boards), cm_boards, now),
                steam@,
                user_views(srcom@),
                badge@,
                *requirement,
            ),
        ),
{
    proof {
        assert(srcom_boards.cached_boards@.dom() =~= srcom_boards.cached_boards@.dom());
    }
    match requirement {
        RequirementDefinition::Manual => Ok(Step::Done(None)),
        RequirementDefinition::Rank(
            RankRequirement::Srcom { game, category, variables, partner, top },
        ) => {
            let def = board_of(game, category, variables);
            evaluate_runs(srcom_boards, def, srcom, partner, &RunTest::Rank { top: *top }, now)
        },
        RequirementDefinition::Time(
            TimeRequirement::Srcom { game, category, variables, partner, time },
        ) => {
            let seconds = match parse_duration_text(time.as_str()) {
                Ok(duration) => duration.signed_total_seconds(),
                Err(error) => {
                    let mut cause = String::from_str("Invalid duration specified in badge ");
                    cause.append(badge.as_str());
                    cause.append(", ");
                    cause.append(time.as_str());
                    cause.append(" (caused by ");
                    let detail = parse_error_debug_name(&error);
                    cause.append(detail.as_str());
                    cause.append(")");
                    proof {
                        assert(cause@ == with_detail(
                            "Invalid duration specified in badge "@ + badge@ + ", "@ + time@
                                + " (caused by "@,
                            detail@,
                            ")"@,
                        ));
                    }
                    return Err(RoleManagerError::new(cause));
                },
            };
            let def = board_of(game, category, variables);
            evaluate_runs(srcom_boards, def, srcom, partner, &RunTest::Time { seconds }, now)
        },
        RequirementDefinition::Points { leaderboard, points } => Ok(
            evaluate_points(cm_boards, steam, leaderboard, *points, now),
        ),
        RequirementDefinition::Recent(
            RecentRequirement::Srcom { game, category, variables, months },
        ) => {
            let def = board_of(game, category, variables);
            let unrestricted: Option<PartnerRestriction> = None;
            evaluate_runs(
                srcom_boards,
                def,
                srcom,
                &unrestricted,
                &RunTest::Recent { months: *months },
                now,
            )
        },
        RequirementDefinition::Recent(RecentRequirement::Cm { months }) => Ok(
            evaluate_activity(cm_boards, steam, *months, now),
        ),
    }
}

} // verus!
