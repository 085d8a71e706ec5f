use std::sync::Arc;

use role_manager::analyzer::evaluation::{Needed, Step};
use role_manager::analyzer::role_definition::{
    BadgeDefinition, CmLeaderboard, PartnerRestriction, RankRequirement, RecentRequirement,
    RequirementDefinition, RoleDefinition, TimeRequirement, VariableDefinition,
};
use role_manager::analyzer::user::{
    analyze_user, analyze_user_at, format_run_time, fullgame_cause, linked_accounts, AnalyzedUser,
    ExternalAccount, MetRequirementCause,
};
use role_manager::boards::cm::aggregate::{AggregatedPlace, AggregatedResponse, AggregatedScoreData};
use role_manager::boards::cm::profile::Profile;
use role_manager::boards::cm::CmBoardsState;
use role_manager::boards::srcom::category::{CategoryId, CategoryOrId};
use role_manager::boards::srcom::game::{GameId, GameOrId};
use role_manager::boards::srcom::leaderboard::{Leaderboard, LeaderboardPlace, RunTable};
use role_manager::boards::srcom::run::{Run, RunId, RunPlayer, RunStatus, RunSystem, RunTimes};
use role_manager::boards::srcom::user::{Names, User, UserId, UserRole};
use role_manager::boards::srcom::variable::{VariableId, VariableValueId};
use role_manager::boards::srcom::variable_map::VariableMap;
use role_manager::boards::srcom::{BoardDefinition, SrComBoardsState, TimingMethod};
use role_manager::model::VerifiedConnection;
use role_manager::time::Date;
use role_manager::vec_map::VecMap;

const NOW: i64 = 1_700_000_000; // 2023-11-14
const DISCORD: u64 = 42;
const U: &str = "userUUUU";
const V: &str = "userVVVV";

fn user(name: &str) -> UserId {
    UserId::try_from(name).unwrap()
}

fn run(id: &str, players: &[&str], date: Option<&str>, ms: u64) -> Run {
    Run {
        id: RunId(id.to_string()),
        weblink: format!("https://www.speedrun.com/run/{}", id),
        game: GameId("G".to_string()),
        level: None,
        category: CategoryId("C".to_string()),
        videos: None,
        comment: None,
        status: RunStatus::Verified { examiner: None, verify_date: None },
        players: players
            .iter()
            .map(|p| RunPlayer::User { id: user(p), uri: format!("https://example.org/{}", p) })
            .collect(),
        date: date.map(|d| d.to_string()),
        submitted: None,
        times: RunTimes {
            primary: "PT".to_string(),
            primary_ms: ms,
            realtime: None,
            realtime_ms: ms,
            realtime_noloads: None,
            realtime_noloads_ms: 0,
            ingame: None,
            ingame_ms: 0,
        },
        system: RunSystem { platform: None, emulated: false, region: None },
        splits: None,
        values: VecMap::new(),
        links: None,
    }
}

fn place(place: u64, run: Run) -> Arc<LeaderboardPlace> {
    Arc::new(LeaderboardPlace { place, run })
}

fn board(places: Vec<Arc<LeaderboardPlace>>) -> Leaderboard {
    Leaderboard {
        weblink: "https://www.speedrun.com/G".to_string(),
        game: GameOrId::Id(GameId("G".to_string())),
        category: CategoryOrId::Id(CategoryId("C".to_string())),
        level: None,
        platform: None,
        region: None,
        emulators: None,
        video_only: false,
        timing: TimingMethod::RealTime,
        values: VecMap::new(),
        runs: RunTable::new(places),
        links: None,
        players: None,
        variables: None,
    }
}

fn definition_gc() -> BoardDefinition {
    BoardDefinition {
        game: GameId("G".to_string()),
        category: CategoryId("C".to_string()),
        level: None,
        variables: VariableMap::new(),
    }
}

fn rank(top: u64, partner: Option<PartnerRestriction>) -> RequirementDefinition {
    RequirementDefinition::Rank(RankRequirement::Srcom {
        game: GameId("G".to_string()),
        category: CategoryId("C".to_string()),
        variables: None,
        partner,
        top,
    })
}

fn time(text: &str) -> RequirementDefinition {
    RequirementDefinition::Time(TimeRequirement::Srcom {
        game: GameId("G".to_string()),
        category: CategoryId("C".to_string()),
        variables: None,
        partner: None,
        time: text.to_string(),
    })
}

fn recent(months: u64) -> RequirementDefinition {
    RequirementDefinition::Recent(RecentRequirement::Srcom {
        game: GameId("G".to_string()),
        category: CategoryId("C".to_string()),
        variables: None,
        months,
    })
}

fn points(leaderboard: CmLeaderboard, points: u64) -> RequirementDefinition {
    RequirementDefinition::Points { leaderboard, points }
}

fn badge(name: &str, requirements: Vec<RequirementDefinition>) -> BadgeDefinition {
    BadgeDefinition { name: name.to_string(), requirements }
}

fn link(kind: &str, id: &str) -> VerifiedConnection {
    VerifiedConnection {
        user_id: DISCORD as i64,
        connection_type: kind.to_string(),
        id: id.to_string(),
        removed: false,
    }
}

fn aggregate(scores: &[(&str, u32)]) -> Arc<AggregatedResponse> {
    let mut points = VecMap::new();
    for (id, score) in scores {
        points.insert(
            id.to_string(),
            AggregatedPlace {
                user_data: Arc::new(Profile { board_name: Some(format!("name of {}", id)), avatar: None }),
                score_data: AggregatedScoreData { score: *score, player_rank: 1, score_rank: 1 },
            },
        );
    }
    Arc::new(AggregatedResponse { points })
}

fn done<'a>(result: Result<Step<AnalyzedUser<'a>>, role_manager::error::RoleManagerError>) -> AnalyzedUser<'a> {
    match result {
        Ok(Step::Done(user)) => user,
        Ok(Step::Need(needed)) => panic!("needed: {:?}", needed),
        Err(e) => panic!("failed: {}", e.cause),
    }
}

fn states() -> (SrComBoardsState, CmBoardsState) {
    (SrComBoardsState::new(900), CmBoardsState::new(900))
}

#[test]
fn a_run_at_place_seven_earns_the_top_ten_badge() {
    let (mut srcom, cm) = states();
    srcom.store_leaderboard(
        definition_gc(),
        board(vec![
            place(12, run("slow", &[U], Some("2023-01-01"), 100_000)),
            place(7, run("best", &[U], Some("2023-02-25"), 83_456)),
            place(1, run("other", &[V], Some("2023-02-25"), 60_000)),
        ]),
        NOW,
    );
    let connections = vec![link("srcom", U)];
    let top10 = RoleDefinition { badges: vec![badge("Top10", vec![rank(10, None)])] };
    let analysis = done(analyze_user_at(DISCORD, &top10, &connections, &mut srcom, &cm, false, NOW));
    assert_eq!(analysis.discord_id, DISCORD);
    assert_eq!(analysis.badges.len(), 1);
    let earned = &analysis.badges[0];
    assert_eq!(earned.index, 0);
    assert_eq!(earned.definition.name, "Top10");
    assert_eq!(earned.met_requirements.len(), 1);
    assert_eq!(earned.met_requirements[0].index, 0);
    match &earned.met_requirements[0].cause {
        MetRequirementCause::FullgameRun { srcom_id, link, rank, time, achieved_on } => {
            assert_eq!(srcom_id.to_string(), U);
            assert_eq!(link, "https://www.speedrun.com/run/best");
            assert_eq!(*rank, 7);
            assert_eq!(time, "1:23.456");
            assert_eq!(*achieved_on, Date { year: 2023, month: 2, day: 25 });
        }
        other => panic!("unexpected cause {:?}", other),
    }
    assert_eq!(
        earned.met_requirements[0].cause.to_string(),
        "[#7 - 1:23.456](https://www.speedrun.com/run/best)"
    );
    let top5 = RoleDefinition { badges: vec![badge("Top10", vec![rank(5, None)])] };
    let analysis = done(analyze_user_at(DISCORD, &top5, &connections, &mut srcom, &cm, false, NOW));
    assert!(analysis.badges.is_empty());
    // the threshold itself is met
    let top7 = RoleDefinition { badges: vec![badge("Top7", vec![rank(7, None)])] };
    let analysis = done(analyze_user_at(DISCORD, &top7, &connections, &mut srcom, &cm, false, NOW));
    assert_eq!(analysis.badges.len(), 1);
    let top6 = RoleDefinition { badges: vec![badge("Top6", vec![rank(6, None)])] };
    let analysis = done(analyze_user_at(DISCORD, &top6, &connections, &mut srcom, &cm, false, NOW));
    assert!(analysis.badges.is_empty());
}

#[test]
fn a_score_of_150_meets_100_points_and_fails_200() {
    let (mut srcom, mut cm) = states();
    cm.store_aggregate(CmLeaderboard::Overall, aggregate(&[("76561198000000001", 150)]), NOW)
        .unwrap();
    let connections = vec![link("steam", "76561198000000001")];
    let meets = RoleDefinition {
        badges: vec![badge("Hundred", vec![points(CmLeaderboard::Overall, 100)])],
    };
    let analysis = done(analyze_user_at(DISCORD, &meets, &connections, &mut srcom, &cm, false, NOW));
    assert_eq!(analysis.badges.len(), 1);
    match &analysis.badges[0].met_requirements[0].cause {
        MetRequirementCause::CmAggregate { steam_id, board, points } => {
            assert_eq!(*steam_id, 76561198000000001);
            assert_eq!(*board, CmLeaderboard::Overall);
            assert_eq!(*points, 150);
        }
        other => panic!("unexpected cause {:?}", other),
    }
    assert_eq!(
        analysis.badges[0].met_requirements[0].cause.to_string(),
        "[Overall - 150](https://board.portal2.sr/profile/76561198000000001)"
    );
    let fails = RoleDefinition {
        badges: vec![badge("TwoHundred", vec![points(CmLeaderboard::Overall, 200)])],
    };
    let analysis = done(analyze_user_at(DISCORD, &fails, &connections, &mut srcom, &cm, false, NOW));
    assert!(analysis.badges.is_empty());
    let exact = RoleDefinition {
        badges: vec![badge("Exact", vec![points(CmLeaderboard::Overall, 150)])],
    };
    let analysis = done(analyze_user_at(DISCORD, &exact, &connections, &mut srcom, &cm, false, NOW));
    assert_eq!(analysis.badges.len(), 1);
    // a threshold beyond thirty-two bits is not cut short
    let huge = RoleDefinition {
        badges: vec![badge("Huge", vec![points(CmLeaderboard::Overall, (1u64 << 32) + 100)])],
    };
    let analysis = done(analyze_user_at(DISCORD, &huge, &connections, &mut srcom, &cm, false, NOW));
    assert!(analysis.badges.is_empty());
}

#[test]
fn a_manual_badge_is_never_earned() {
    let (mut srcom, mut cm) = states();
    srcom.store_leaderboard(definition_gc(), board(vec![place(1, run("r", &[U], None, 1))]), NOW);
    cm.store_aggregate(CmLeaderboard::Overall, aggregate(&[("5", 1_000_000)]), NOW).unwrap();
    let connections = vec![link("srcom", U), link("steam", "5")];
    let definition = RoleDefinition {
        badges: vec![
            badge("ByHand", vec![RequirementDefinition::Manual]),
            badge("Mixed", vec![RequirementDefinition::Manual, rank(1, None)]),
        ],
    };
    assert!(!definition.badges[0].can_autoremove());
    assert!(!definition.badges[1].can_autoremove());
    assert!(badge("Auto", vec![rank(1, None)]).can_autoremove());
    assert!(badge("Empty", vec![]).can_autoremove());
    let analysis = done(analyze_user_at(DISCORD, &definition, &connections, &mut srcom, &cm, false, NOW));
    assert_eq!(analysis.badges.len(), 1);
    assert_eq!(analysis.badges[0].index, 1);
    assert_eq!(analysis.badges[0].met_requirements.len(), 1);
    assert_eq!(analysis.badges[0].met_requirements[0].index, 1);
}

#[test]
fn what_is_not_cached_is_asked_for() {
    let (mut srcom, mut cm) = states();
    let connections = vec![link("srcom", U), link("steam", "5")];
    let definition = RoleDefinition {
        badges: vec![badge(
            "All",
            vec![
                rank(10, None),
                points(CmLeaderboard::Coop, 1),
                RequirementDefinition::Recent(RecentRequirement::Cm { months: 3 }),
            ],
        )],
    };
    match analyze_user_at(DISCORD, &definition, &connections, &mut srcom, &cm, true, NOW) {
        Ok(Step::Need(Needed::Leaderboard(def))) => {
            assert_eq!(def.game.0, "G");
            assert_eq!(def.category.0, "C");
            assert!(def.level.is_none());
            assert_eq!(def.variables.len(), 0);
            srcom.store_leaderboard(def, board(vec![]), NOW);
        }
        other => panic!("unexpected {:?}", other.map(|_| ()).map_err(|e| e.cause)),
    }
    match analyze_user_at(DISCORD, &definition, &connections, &mut srcom, &cm, true, NOW) {
        Ok(Step::Need(needed)) => {
            assert_eq!(needed.request().url, "https://board.portal2.sr/aggregated/coop/json");
            match needed {
                Needed::Aggregate(CmLeaderboard::Coop) => {}
                other => panic!("unexpected {:?}", other),
            }
            cm.store_aggregate(CmLeaderboard::Coop, aggregate(&[]), NOW).unwrap();
        }
        other => panic!("unexpected {:?}", other.map(|_| ()).map_err(|e| e.cause)),
    }
    match analyze_user_at(DISCORD, &definition, &connections, &mut srcom, &cm, true, NOW) {
        Ok(Step::Need(needed)) => {
            let request = needed.request();
            assert_eq!(request.url, "https://board.portal2.sr/api-v2/active-profiles");
            assert_eq!(request.form, vec![("months".to_string(), "3".to_string())]);
            match needed {
                Needed::ActiveProfiles(3) => {}
                other => panic!("unexpected {:?}", other),
            }
            cm.store_active_profiles(3, Arc::new(vec!["5".to_string()]), NOW);
        }
        other => panic!("unexpected {:?}", other.map(|_| ()).map_err(|e| e.cause)),
    }
    match analyze_user_at(DISCORD, &definition, &connections, &mut srcom, &cm, true, NOW) {
        Ok(Step::Need(needed)) => {
            assert_eq!(needed.request().url, "https://board.portal2.sr/profile/5/json");
            match needed {
                Needed::Profile(5) => {}
                other => panic!("unexpected {:?}", other),
            }
            cm.store_profile(5, Arc::new(Profile { board_name: None, avatar: None }), NOW);
        }
        other => panic!("unexpected {:?}", other.map(|_| ()).map_err(|e| e.cause)),
    }
    match analyze_user_at(DISCORD, &definition, &connections, &mut srcom, &cm, true, NOW) {
        Ok(Step::Need(needed)) => {
            assert_eq!(needed.request().url, "https://www.speedrun.com/api/v1/users/userUUUU");
            match needed {
                Needed::User(id) => {
                    srcom.store_user(
                        id,
                        Arc::new(User {
                            id,
                            names: Names { international: "Uvw".to_string(), japanese: None },
                            pronouns: None,
                            weblink: "https://www.speedrun.com/user/Uvw".to_string(),
                            role: UserRole::User,
                            signup: "2020-01-01".to_string(),
                            location: None,
                            twitch: None,
                            hitbox: None,
                            youtube: None,
                            twitter: None,
                            speedrunslive: None,
                            links: None,
                        }),
                        NOW,
                    );
                }
                other => panic!("unexpected {:?}", other),
            }
        }
        other => panic!("unexpected {:?}", other.map(|_| ()).map_err(|e| e.cause)),
    }
    let analysis = done(analyze_user_at(DISCORD, &definition, &connections, &mut srcom, &cm, true, NOW));
    assert_eq!(analysis.badges.len(), 1);
    assert_eq!(analysis.badges[0].met_requirements.len(), 1);
    assert_eq!(analysis.badges[0].met_requirements[0].index, 2);
    assert_eq!(
        analysis.badges[0].met_requirements[0].cause.to_string(),
        "[CM Activity](https://board.portal2.sr/profile/5)"
    );
    assert_eq!(analysis.external_accounts.len(), 2);
    match &analysis.external_accounts[0] {
        ExternalAccount::Cm { username, id } => {
            assert_eq!(username, "5");
            assert_eq!(*id, 5);
        }
        other => panic!("unexpected {:?}", other),
    }
    match &analysis.external_accounts[1] {
        ExternalAccount::Srcom { username, id, link } => {
            assert_eq!(username, "Uvw");
            assert_eq!(id.to_string(), U);
            assert_eq!(link, "https://www.speedrun.com/user/Uvw");
        }
        other => panic!("unexpected {:?}", other),
    }
    // once the entries are stale, they are asked for again
    match analyze_user_at(DISCORD, &definition, &connections, &mut srcom, &cm, true, NOW + 900) {
        Ok(Step::Need(Needed::Leaderboard(_))) => {}
        other => panic!("unexpected {:?}", other.map(|_| ()).map_err(|e| e.cause)),
    }
}

#[test]
fn without_accounts_nothing_is_asked_for_but_the_active_profiles() {
    let (mut srcom, mut cm) = states();
    let none: Vec<VerifiedConnection> = vec![];
    let definition = RoleDefinition {
        badges: vec![badge("All", vec![rank(10, None), recent(6), points(CmLeaderboard::SinglePlayer, 1)])],
    };
    let analysis = done(analyze_user_at(DISCORD, &definition, &none, &mut srcom, &cm, true, NOW));
    assert!(analysis.badges.is_empty());
    assert!(analysis.external_accounts.is_empty());
    let activity = RoleDefinition {
        badges: vec![badge("Active", vec![RequirementDefinition::Recent(RecentRequirement::Cm { months: 6 })])],
    };
    match analyze_user_at(DISCORD, &activity, &none, &mut srcom, &cm, false, NOW) {
        Ok(Step::Need(Needed::ActiveProfiles(6))) => {}
        other => panic!("unexpected {:?}", other.map(|_| ()).map_err(|e| e.cause)),
    }
    cm.store_active_profiles(6, Arc::new(vec![]), NOW);
    let analysis = done(analyze_user_at(DISCORD, &activity, &none, &mut srcom, &cm, false, NOW));
    assert!(analysis.badges.is_empty());
}

#[test]
fn connections_of_others_and_removed_connections_do_not_count() {
    let mut foreign = link("srcom", U);
    foreign.user_id = 43;
    let mut removed = link("steam", "7");
    removed.removed = true;
    let mut negative = link("steam", "8");
    negative.user_id = -42;
    let connections = vec![
        foreign,
        removed,
        negative,
        link("steam", "5"),
        link("srcom", V),
        link("twitch", "whatever"),
        link("steam", "-6"),
        link("srcom", U),
    ];
    let accounts = linked_accounts(DISCORD, &connections).unwrap();
    assert_eq!(accounts.steam_ids, vec![5, -6]);
    let srcom: Vec<String> = accounts.srcom_ids.iter().map(|u| u.to_string()).collect();
    assert_eq!(srcom, vec![V.to_string(), U.to_string()]);
    // a user beyond the range of the database's numbers has no connections
    let none = linked_accounts(u64::MAX, &connections).unwrap();
    assert!(none.steam_ids.is_empty() && none.srcom_ids.is_empty());
}

#[test]
fn an_identifier_that_cannot_be_read_is_an_error() {
    let steam = linked_accounts(DISCORD, &vec![link("steam", "12x")]).unwrap_err();
    assert_eq!(steam.cause, "Database contains steam account with invalid ID: 12x");
    assert!(!steam.report_via_edit);
    let srcom = linked_accounts(DISCORD, &vec![link("srcom", "short")]).unwrap_err();
    assert_eq!(srcom.cause, "SRC ids must be of size 8, found 5");
    // the first failure ends the work
    let both = linked_accounts(DISCORD, &vec![link("srcom", "short"), link("steam", "")]).unwrap_err();
    assert_eq!(both.cause, "SRC ids must be of size 8, found 5");
    // a removed connection is not read at all
    let mut removed = link("steam", "bad");
    removed.removed = true;
    assert!(linked_accounts(DISCORD, &vec![removed]).is_ok());
}

#[test]
fn the_first_account_that_passes_is_cited() {
    let (mut srcom, cm) = states();
    srcom.store_leaderboard(
        definition_gc(),
        board(vec![
            place(20, run("u", &[U], Some("2023-01-01"), 1)),
            place(3, run("v", &[V], Some("2023-01-02"), 2)),
        ]),
        NOW,
    );
    let definition = RoleDefinition { badges: vec![badge("Top10", vec![rank(10, None)])] };
    let analysis = done(analyze_user_at(
        DISCORD,
        &definition,
        &vec![link("srcom", U), link("srcom", V)],
        &mut srcom,
        &cm,
        false,
        NOW,
    ));
    match &analysis.badges[0].met_requirements[0].cause {
        MetRequirementCause::FullgameRun { srcom_id, rank, .. } => {
            assert_eq!(srcom_id.to_string(), V);
            assert_eq!(*rank, 3);
        }
        other => panic!("unexpected cause {:?}", other),
    }
    // without details the accounts are listed under their identifiers
    assert_eq!(analysis.external_accounts.len(), 2);
    match &analysis.external_accounts[0] {
        ExternalAccount::Srcom { username, link, .. } => {
            assert_eq!(username, U);
            assert_eq!(link, U);
        }
        other => panic!("unexpected {:?}", other),
    }
}

#[test]
fn a_run_is_fast_enough_up_to_the_duration() {
    let (mut srcom, cm) = states();
    srcom.store_leaderboard(
        definition_gc(),
        board(vec![place(4, run("r", &[U], Some("2023-01-01"), 90_000))]),
        NOW,
    );
    let connections = vec![link("srcom", U)];
    for (text, met) in [("PT1M30S", true), ("PT1M29S", false), ("PT2M", true), ("00:01:30", true), ("PT1M30.9S", true), ("-PT2M", false)] {
        let definition = RoleDefinition { badges: vec![badge("Fast", vec![time(text)])] };
        let analysis = done(analyze_user_at(DISCORD, &definition, &connections, &mut srcom, &cm, false, NOW));
        assert_eq!(analysis.badges.len() == 1, met, "{}", text);
    }
    // a millisecond over the duration is too slow
    let (mut srcom, cm) = states();
    srcom.store_leaderboard(
        definition_gc(),
        board(vec![place(4, run("r", &[U], Some("2023-01-01"), 90_001))]),
        NOW,
    );
    let definition = RoleDefinition { badges: vec![badge("Fast", vec![time("PT1M30S")])] };
    let analysis = done(analyze_user_at(DISCORD, &definition, &connections, &mut srcom, &cm, false, NOW));
    assert!(analysis.badges.is_empty());
}

#[test]
fn a_time_that_is_no_duration_is_an_error() {
    let (mut srcom, cm) = states();
    let definition = RoleDefinition { badges: vec![badge("Fast", vec![time("soon")])] };
    // the duration is read before any account is looked at
    let none: Vec<VerifiedConnection> = vec![];
    let error = match analyze_user_at(DISCORD, &definition, &none, &mut srcom, &cm, false, NOW) {
        Err(e) => e,
        Ok(_) => panic!("no error"),
    };
    assert_eq!(
        error.cause,
        "Invalid duration specified in badge Fast, soon (caused by DurationInvalidNumber)"
    );
    assert!(!error.report_via_edit);
}

#[test]
fn recency_has_its_edge_at_thirty_days_a_month() {
    let connections = vec![link("srcom", U)];
    // NOW is 2023-11-14T22:13:20Z; six months of thirty days before it is
    // 2023-05-18T22:13:20Z
    for (date, met) in [
        ("2023-11-14", true),
        ("2023-05-20", true),
        ("2023-05-19", true),
        ("2023-05-18", false),
        ("2023-05-17", false),
        ("2020-01-01", false),
    ] {
        let (mut srcom, cm) = states();
        srcom.store_leaderboard(
            definition_gc(),
            board(vec![place(4, run("r", &[U], Some(date), 90_000))]),
            NOW,
        );
        let definition = RoleDefinition { badges: vec![badge("Recent", vec![recent(6)])] };
        let analysis = done(analyze_user_at(DISCORD, &definition, &connections, &mut srcom, &cm, false, NOW));
        assert_eq!(analysis.badges.len() == 1, met, "{}", date);
    }
    // the number of months counts
    let (mut srcom, cm) = states();
    srcom.store_leaderboard(
        definition_gc(),
        board(vec![place(4, run("r", &[U], Some("2023-09-01"), 90_000))]),
        NOW,
    );
    for (months, met) in [(1, false), (2, false), (3, true), (12, true), (0, false)] {
        let definition = RoleDefinition { badges: vec![badge("Recent", vec![recent(months)])] };
        let analysis = done(analyze_user_at(DISCORD, &definition, &connections, &mut srcom, &cm, false, NOW));
        assert_eq!(analysis.badges.len() == 1, met, "{}", months);
    }
}

#[test]
fn a_run_without_a_date_is_not_recent_and_is_cited_with_the_date_of_today() {
    let (mut srcom, cm) = states();
    srcom.store_leaderboard(definition_gc(), board(vec![place(4, run("r", &[U], None, 90_000))]), NOW);
    let connections = vec![link("srcom", U)];
    let definition = RoleDefinition {
        badges: vec![badge("Recent", vec![recent(6)]), badge("Top", vec![rank(4, None)])],
    };
    let analysis = done(analyze_user_at(DISCORD, &definition, &connections, &mut srcom, &cm, false, NOW));
    assert_eq!(analysis.badges.len(), 1);
    assert_eq!(analysis.badges[0].index, 1);
    match &analysis.badges[0].met_requirements[0].cause {
        MetRequirementCause::FullgameRun { achieved_on, .. } => {
            assert_eq!(*achieved_on, Date { year: 2023, month: 11, day: 14 });
        }
        other => panic!("unexpected cause {:?}", other),
    }
}

#[test]
fn a_date_that_cannot_be_read_is_an_error() {
    let entry = LeaderboardPlace { place: 1, run: run("r", &[U], Some("yesterday"), 1) };
    let error = fullgame_cause(&user(U), &entry, NOW).unwrap_err();
    assert_eq!(
        error.cause,
        "Speedrun.com returned an invalid date format: yesterday (caused by too_short)"
    );
    let (mut srcom, cm) = states();
    srcom.store_leaderboard(
        definition_gc(),
        board(vec![place(1, run("r", &[U], Some("2023-13-01"), 1))]),
        NOW,
    );
    let definition = RoleDefinition { badges: vec![badge("Recent", vec![recent(6)])] };
    let error = match analyze_user_at(DISCORD, &definition, &vec![link("srcom", U)], &mut srcom, &cm, false, NOW) {
        Err(e) => e,
        Ok(_) => panic!("no error"),
    };
    assert_eq!(
        error.cause,
        "Speedrun.com provided invalid date: 2023-13-01 (Caused by OutOfRangeMonth)"
    );
}

#[test]
fn times_are_cited_with_milliseconds() {
    assert_eq!(format_run_time(0), "0:00.000");
    assert_eq!(format_run_time(83_456), "1:23.456");
    assert_eq!(format_run_time(59_999), "0:59.999");
    assert_eq!(format_run_time(3_599_999), "59:59.999");
    assert_eq!(format_run_time(3_600_000), "1:00:00.000");
    assert_eq!(format_run_time(3_723_004), "1:02:03.004");
    assert_eq!(format_run_time(360_000_000), "100:00:00.000");
}

#[test]
fn the_place_is_cited_in_thirty_two_bits() {
    let entry = LeaderboardPlace { place: (1u64 << 32) + 9, run: run("r", &[U], Some("2023-01-01"), 1) };
    match fullgame_cause(&user(U), &entry, NOW).unwrap() {
        MetRequirementCause::FullgameRun { rank, .. } => assert_eq!(rank, 9),
        other => panic!("unexpected cause {:?}", other),
    }
}

#[test]
fn causes_are_cited_each_in_its_form() {
    let manual = MetRequirementCause::Manual { assigned_on: "2023-02-25 12:00:00".to_string(), note: None };
    assert_eq!(manual.to_string(), "Assigned 2023-02-25 12:00:00");
    let noted = MetRequirementCause::Manual {
        assigned_on: "2023-02-25 12:00:00".to_string(),
        note: Some("well done".to_string()),
    };
    assert_eq!(noted.to_string(), "Assigned 2023-02-25 12:00:00 - well done");
    let run = MetRequirementCause::CmRun {
        steam_id: 5,
        chapter: "Chapter 1".to_string(),
        chamber: "Portal Gun".to_string(),
        rank: 12,
        time: "0:12.340".to_string(),
        achieved_on: "2023-02-25 12:00:00".to_string(),
    };
    assert_eq!(run.to_string(), "Chapter 1/Portal Gun - #12 - 0:12.340 (2023-02-25 12:00:00)");
    let total = MetRequirementCause::CmAggregate { steam_id: -5, board: CmLeaderboard::Coop, points: 0 };
    assert_eq!(total.to_string(), "[Co-op - 0](https://board.portal2.sr/profile/-5)");
    let single = MetRequirementCause::CmAggregate { steam_id: 1, board: CmLeaderboard::SinglePlayer, points: 9 };
    assert_eq!(single.to_string(), "[SP - 9](https://board.portal2.sr/profile/1)");
}

#[test]
fn the_partner_restriction_reaches_the_analysis() {
    let (mut srcom, cm) = states();
    srcom.store_leaderboard(
        definition_gc(),
        board(vec![
            place(3, run("shared", &[U, V], Some("2023-01-01"), 1)),
            place(1, run("v", &[V], Some("2023-01-01"), 1)),
            place(10, run("u", &[U], Some("2023-01-01"), 1)),
        ]),
        NOW,
    );
    let connections = vec![link("srcom", U)];
    let free = RoleDefinition { badges: vec![badge("Top5", vec![rank(5, None)])] };
    assert_eq!(done(analyze_user_at(DISCORD, &free, &connections, &mut srcom, &cm, false, NOW)).badges.len(), 1);
    let strict = RoleDefinition {
        badges: vec![badge("Top5", vec![rank(5, Some(PartnerRestriction::RankGte))])],
    };
    assert!(done(analyze_user_at(DISCORD, &strict, &connections, &mut srcom, &cm, false, NOW)).badges.is_empty());
}

#[test]
fn the_chosen_values_name_the_board() {
    let (mut srcom, cm) = states();
    let mut choice = VariableMap::new();
    choice.insert(VariableId("b".to_string()), VariableValueId("2".to_string()));
    choice.insert(VariableId("a".to_string()), VariableValueId("1".to_string()));
    srcom.store_leaderboard(
        BoardDefinition {
            game: GameId("G".to_string()),
            category: CategoryId("C".to_string()),
            level: None,
            variables: choice,
        },
        board(vec![place(1, run("r", &[U], Some("2023-01-01"), 1))]),
        NOW,
    );
    let with_values = |pairs: &[(&str, &str)]| RoleDefinition {
        badges: vec![badge(
            "First",
            vec![RequirementDefinition::Rank(RankRequirement::Srcom {
                game: GameId("G".to_string()),
                category: CategoryId("C".to_string()),
                variables: Some(
                    pairs
                        .iter()
                        .map(|(k, v)| VariableDefinition {
                            variable: VariableId(k.to_string()),
                            choice: VariableValueId(v.to_string()),
                        })
                        .collect(),
                ),
                partner: None,
                top: 1,
            })],
        )],
    };
    let connections = vec![link("srcom", U)];
    let definition = with_values(&[("a", "1"), ("b", "2")]);
    assert_eq!(done(analyze_user_at(DISCORD, &definition, &connections, &mut srcom, &cm, false, NOW)).badges.len(), 1);
    let definition = with_values(&[("b", "0"), ("a", "1"), ("b", "2")]);
    assert_eq!(done(analyze_user_at(DISCORD, &definition, &connections, &mut srcom, &cm, false, NOW)).badges.len(), 1);
    let other = with_values(&[("a", "1")]);
    match analyze_user_at(DISCORD, &other, &connections, &mut srcom, &cm, false, NOW) {
        Ok(Step::Need(Needed::Leaderboard(def))) => {
            assert_eq!(def.variables.len(), 1);
            let request = Needed::Leaderboard(def).request();
            assert_eq!(request.query[1], ("var-a".to_string(), "1".to_string()));
        }
        other => panic!("unexpected {:?}", other.map(|_| ()).map_err(|e| e.cause)),
    }
}

#[test]
fn the_clock_gives_the_instant_of_the_analysis() {
    let (mut srcom, cm) = states();
    let now = chrono::Utc::now().timestamp();
    srcom.store_leaderboard(
        definition_gc(),
        board(vec![place(7, run("best", &[U], Some("2023-02-25"), 83_456))]),
        now,
    );
    let connections = vec![link("srcom", U)];
    let top10 = RoleDefinition { badges: vec![badge("Top10", vec![rank(10, None)])] };
    let analysis = done(analyze_user(DISCORD, &top10, &connections, &mut srcom, &cm, false));
    assert_eq!(analysis.badges.len(), 1);
    // what was fetched long ago is stale by the clock
    let (mut srcom, cm) = states();
    srcom.store_leaderboard(definition_gc(), board(vec![]), NOW);
    match analyze_user(DISCORD, &top10, &connections, &mut srcom, &cm, false) {
        Ok(Step::Need(Needed::Leaderboard(_))) => {}
        other => panic!("unexpected {:?}", other.map(|_| ()).map_err(|e| e.cause)),
    }
}

#[test]
fn an_instant_without_a_date_is_an_error() {
    let entry = LeaderboardPlace { place: 1, run: run("r", &[U], None, 1) };
    let error = fullgame_cause(&user(U), &entry, i64::MAX).unwrap_err();
    assert_eq!(error.cause, "Chrono returned an invalid datetime: 9223372036854775807");
    assert!(!error.report_via_edit);
    // a dated run does not ask for the date of the instant
    let dated = LeaderboardPlace { place: 1, run: run("r", &[U], Some("2023-02-25"), 1) };
    assert!(fullgame_cause(&user(U), &dated, i64::MAX).is_ok());
    // the date of an instant long ago
    match fullgame_cause(&user(U), &entry, 0).unwrap() {
        MetRequirementCause::FullgameRun { achieved_on, .. } => {
            assert_eq!(achieved_on, Date { year: 1970, month: 1, day: 1 })
        }
        other => panic!("unexpected cause {:?}", other),
    }
    match fullgame_cause(&user(U), &entry, -1).unwrap() {
        MetRequirementCause::FullgameRun { achieved_on, .. } => {
            assert_eq!(achieved_on, Date { year: 1969, month: 12, day: 31 })
        }
        other => panic!("unexpected cause {:?}", other),
    }
}
