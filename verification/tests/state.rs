use std::sync::Arc;

use role_manager::analyzer::role_definition::{CmLeaderboard, PartnerRestriction};
use role_manager::boards::cm::aggregate::{AggregatedPlace, AggregatedResponse, AggregatedScoreData};
use role_manager::boards::cm::active_profiles::is_active;
use role_manager::boards::cm::profile::Profile;
use role_manager::boards::cm::CmBoardsState;
use role_manager::boards::request::{Lookup, Method};
use role_manager::boards::srcom::category::{Category, CategoryId, CategoryOrId, PlayerCount};
use role_manager::boards::srcom::game::{Assets, Game, GameAsset, GameId, GameOrId, Ruleset};
use role_manager::boards::srcom::leaderboard::{Leaderboard, LeaderboardPlace, RunTable, UserOrGuest};
use role_manager::boards::srcom::level::LevelId;
use role_manager::boards::srcom::run::{Run, RunId, RunPlayer, RunStatus, RunSystem, RunTimes};
use role_manager::boards::srcom::user::{Names, User, UserId, UserRole};
use role_manager::boards::srcom::variable::{
    Variable, VariableId, VariableScope, VariableValue, VariableValueId, VariableValues,
};
use role_manager::boards::srcom::variable_map::VariableMap;
use role_manager::boards::srcom::{BoardDefinition, MultipleItemRequest, SrComBoardsState, TimingMethod};
use role_manager::vec_map::VecMap;

fn asset() -> GameAsset {
    GameAsset { uri: None }
}

fn game(id: &str, name: &str) -> Arc<Game> {
    Arc::new(Game {
        id: GameId(id.to_string()),
        names: role_manager::boards::srcom::game::Names {
            international: name.to_string(),
            japanese: None,
            twitch: name.to_string(),
        },
        boosts_received: 0,
        boost_distinct_donors: 0,
        abbreviation: id.to_string(),
        weblink: format!("https://www.speedrun.com/{}", id),
        discord: None,
        released: 2011,
        release_date: "2011-04-19".to_string(),
        ruleset: Ruleset {
            show_milliseconds: true,
            require_verification: true,
            require_video: false,
            run_times: vec![TimingMethod::RealTime],
            default_time: TimingMethod::RealTime,
            emulators_allowed: false,
        },
        romhack: false,
        gametypes: vec![],
        platforms: vec![],
        regions: vec![],
        genres: vec![],
        engines: vec![],
        developers: vec![],
        publishers: vec![],
        moderators: VecMap::new(),
        created: None,
        assets: Assets {
            logo: asset(),
            cover_tiny: asset(),
            cover_small: asset(),
            cover_medium: asset(),
            cover_large: asset(),
            icon: asset(),
            trophy_1st: asset(),
            trophy_2nd: asset(),
            trophy_3rd: asset(),
            trophy_4th: None,
            background: None,
            foreground: None,
        },
        links: None,
    })
}

fn category(id: &str, name: &str) -> Arc<Category> {
    Arc::new(Category {
        id: CategoryId(id.to_string()),
        name: name.to_string(),
        weblink: "w".to_string(),
        category_type: "per-game".to_string(),
        rules: "".to_string(),
        players: PlayerCount::Exactly(1),
        miscellaneous: false,
        links: vec![],
    })
}

fn user(id: &str, name: &str) -> Arc<User> {
    Arc::new(User {
        id: UserId::try_from(id).unwrap(),
        names: Names { international: name.to_string(), japanese: None },
        pronouns: None,
        weblink: format!("https://www.speedrun.com/user/{}", name),
        role: UserRole::User,
        signup: "2020-01-01".to_string(),
        location: None,
        twitch: None,
        hitbox: None,
        youtube: None,
        twitter: None,
        speedrunslive: None,
        links: None,
    })
}

fn variable(id: &str, name: &str, values: &[(&str, &str)]) -> Arc<Variable> {
    let mut map = VecMap::new();
    for (k, label) in values {
        map.insert(
            VariableValueId(k.to_string()),
            VariableValue { label: label.to_string(), rules: None, flags: None },
        );
    }
    Arc::new(Variable {
        id: VariableId(id.to_string()),
        name: name.to_string(),
        category: None,
        scope: VariableScope::FullGame,
        mandatory: true,
        user_defined: false,
        obsoletes: false,
        values: VariableValues { values: map, default: None },
        is_subcategory: true,
        links: None,
    })
}

fn run(id: &str, player: &str) -> Run {
    Run {
        id: RunId(id.to_string()),
        weblink: format!("https://www.speedrun.com/run/{}", id),
        game: GameId("G".to_string()),
        level: None,
        category: CategoryId("C".to_string()),
        videos: None,
        comment: None,
        status: RunStatus::Verified { examiner: None, verify_date: None },
        players: vec![RunPlayer::User { id: UserId::try_from(player).unwrap(), uri: "u".to_string() }],
        date: None,
        submitted: None,
        times: RunTimes {
            primary: "PT1S".to_string(),
            primary_ms: 1_000,
            realtime: None,
            realtime_ms: 0,
            realtime_noloads: None,
            realtime_noloads_ms: 0,
            ingame: None,
            ingame_ms: 0,
        },
        system: RunSystem { platform: None, emulated: false, region: None },
        splits: None,
        values: VecMap::new(),
        links: None,
    }
}

fn definition() -> BoardDefinition {
    BoardDefinition {
        game: GameId("G".to_string()),
        category: CategoryId("C".to_string()),
        level: None,
        variables: VariableMap::new(),
    }
}

fn full_board() -> Leaderboard {
    Leaderboard {
        weblink: "https://www.speedrun.com/G".to_string(),
        game: GameOrId::Game { data: game("G", "The Game") },
        category: CategoryOrId::Category { data: category("C", "Any%") },
        level: None,
        platform: None,
        region: None,
        emulators: None,
        video_only: false,
        timing: TimingMethod::RealTime,
        values: VecMap::new(),
        runs: RunTable::new(vec![
            Arc::new(LeaderboardPlace { place: 1, run: run("r1", "aaaaaaaa") }),
            Arc::new(LeaderboardPlace { place: 2, run: run("r2", "bbbbbbbb") }),
        ]),
        links: None,
        players: Some(MultipleItemRequest {
            data: vec![
                UserOrGuest::User(user("aaaaaaaa", "Anna")),
                UserOrGuest::Guest { name: "someone".to_string(), links: None },
                UserOrGuest::User(user("bbbbbbbb", "Bert")),
            ],
        }),
        variables: Some(MultipleItemRequest {
            data: vec![variable("v1", "Players", &[("x", "Solo")]), variable("v2", "Glitches", &[])],
        }),
    }
}

fn found<T>(lookup: Lookup<T>) -> T {
    match lookup {
        Lookup::Found(value) => value,
        Lookup::Fetch(request) => panic!("not cached: {}", request.url),
    }
}

fn url<T>(lookup: Lookup<T>) -> String {
    match lookup {
        Lookup::Found(_) => panic!("cached"),
        Lookup::Fetch(request) => {
            assert_eq!(request.method, Method::Get);
            request.url
        }
    }
}

#[test]
fn one_board_fills_five_caches() {
    let mut state = SrComBoardsState::new(900);
    assert_eq!(
        url(state.fetch_leaderboard(GameId("G".to_string()), CategoryId("C".to_string()), 0)),
        "https://www.speedrun.com/api/v1/leaderboards/G/category/C"
    );
    assert_eq!(url(state.fetch_game(GameId("G".to_string()), 0)), "https://www.speedrun.com/api/v1/games/G");
    assert_eq!(
        url(state.fetch_category(CategoryId("C".to_string()), 0)),
        "https://www.speedrun.com/api/v1/categories/C"
    );
    assert_eq!(
        url(state.fetch_user(UserId::try_from("aaaaaaaa").unwrap(), 0)),
        "https://www.speedrun.com/api/v1/users/aaaaaaaa"
    );
    assert_eq!(
        url(state.fetch_variable(VariableId("v1".to_string()), 0)),
        "https://www.speedrun.com/api/v1/variables/v1"
    );
    state.store_leaderboard(definition(), full_board(), 100);
    let board = found(state.fetch_leaderboard(GameId("G".to_string()), CategoryId("C".to_string()), 100));
    assert_eq!(board.runs.len(), 2);
    assert_eq!(found(state.fetch_game(GameId("G".to_string()), 999)).names.international, "The Game");
    assert_eq!(found(state.fetch_category(CategoryId("C".to_string()), 999)).name, "Any%");
    assert_eq!(found(state.fetch_user(UserId::try_from("aaaaaaaa").unwrap(), 999)).names.international, "Anna");
    assert_eq!(found(state.fetch_user(UserId::try_from("bbbbbbbb").unwrap(), 999)).names.international, "Bert");
    assert_eq!(found(state.fetch_variable(VariableId("v1".to_string()), 999)).name, "Players");
    assert_eq!(found(state.fetch_variable(VariableId("v2".to_string()), 999)).name, "Glitches");
    // each entry carries the instant of the fetch
    assert_eq!(url(state.fetch_game(GameId("G".to_string()), 1_000)), "https://www.speedrun.com/api/v1/games/G");
    assert!(matches!(
        state.fetch_leaderboard(GameId("G".to_string()), CategoryId("C".to_string()), 1_000),
        Lookup::Fetch(_)
    ));
    assert!(matches!(state.fetch_user(UserId::try_from("cccccccc").unwrap(), 100), Lookup::Fetch(_)));
}

#[test]
fn a_board_without_embedded_entities_fills_one_cache() {
    let mut state = SrComBoardsState::new(900);
    let mut bare = full_board();
    bare.game = GameOrId::Id(GameId("G".to_string()));
    bare.category = CategoryOrId::Id(CategoryId("C".to_string()));
    bare.players = None;
    bare.variables = None;
    state.store_leaderboard(definition(), bare, 100);
    assert!(matches!(state.fetch_game(GameId("G".to_string()), 100), Lookup::Fetch(_)));
    assert!(matches!(state.fetch_category(CategoryId("C".to_string()), 100), Lookup::Fetch(_)));
    assert!(matches!(state.fetch_user(UserId::try_from("aaaaaaaa").unwrap(), 100), Lookup::Fetch(_)));
    assert!(matches!(state.fetch_variable(VariableId("v1".to_string()), 100), Lookup::Fetch(_)));
    assert!(matches!(
        state.fetch_leaderboard_by_definition(&definition(), 100),
        Lookup::Found(_)
    ));
}

#[test]
fn boards_of_levels_and_of_choices_are_boards_of_their_own() {
    let mut state = SrComBoardsState::new(900);
    state.store_leaderboard(definition(), full_board(), 0);
    let level = LevelId("L".to_string());
    assert_eq!(
        url(state.fetch_leaderboard_with_level(
            GameId("G".to_string()),
            CategoryId("C".to_string()),
            LevelId("L".to_string()),
            0
        )),
        "https://www.speedrun.com/api/v1/leaderboards/G/level/L/C"
    );
    let mut choice = VariableMap::new();
    choice.insert(VariableId("v1".to_string()), VariableValueId("x".to_string()));
    match state.fetch_leaderboard_with_variables(GameId("G".to_string()), CategoryId("C".to_string()), choice, 0) {
        Lookup::Fetch(request) => {
            assert_eq!(request.query.len(), 2);
            assert_eq!(request.query[1], ("var-v1".to_string(), "x".to_string()));
        }
        Lookup::Found(_) => panic!("cached"),
    }
    let mut choice = VariableMap::new();
    choice.insert(VariableId("v1".to_string()), VariableValueId("x".to_string()));
    let def = BoardDefinition {
        game: GameId("G".to_string()),
        category: CategoryId("C".to_string()),
        level: Some(level),
        variables: choice,
    };
    state.store_leaderboard(def, full_board(), 0);
    let mut choice = VariableMap::new();
    choice.insert(VariableId("v1".to_string()), VariableValueId("x".to_string()));
    assert!(matches!(
        state.fetch_leaderboard_with_level_and_variables(
            GameId("G".to_string()),
            CategoryId("C".to_string()),
            LevelId("L".to_string()),
            choice,
            0
        ),
        Lookup::Found(_)
    ));
}

#[test]
fn the_best_run_is_looked_for_on_the_cached_board() {
    let mut state = SrComBoardsState::new(900);
    let a = UserId::try_from("aaaaaaaa").unwrap();
    assert!(matches!(
        state.fetch_user_highest_run(
            &a,
            &None,
            GameId("G".to_string()),
            CategoryId("C".to_string()),
            VariableMap::new(),
            0
        ),
        Lookup::Fetch(_)
    ));
    state.store_leaderboard(definition(), full_board(), 0);
    let best = found(state.fetch_user_highest_run(
        &a,
        &Some(PartnerRestriction::RankGte),
        GameId("G".to_string()),
        CategoryId("C".to_string()),
        VariableMap::new(),
        0,
    ));
    assert_eq!(best.unwrap().run.id.0, "r1");
    let none = found(state.highest_run_on(&definition(), &UserId::try_from("cccccccc").unwrap(), &None, 0));
    assert!(none.is_none());
    // the answers stay with the cached board
    let board = found(state.fetch_leaderboard_by_definition(&definition(), 0));
    assert_eq!(board.runs.scans(), 2);
}

#[test]
fn single_entities_are_stored_and_found() {
    let mut state = SrComBoardsState::new(10);
    state.store_game(GameId("G".to_string()), game("G", "One"), 0);
    state.store_game(GameId("G".to_string()), game("G", "Two"), 5);
    assert_eq!(found(state.fetch_game(GameId("G".to_string()), 12)).names.international, "Two");
    state.store_category(CategoryId("C".to_string()), category("C", "Any%"), 0);
    assert_eq!(found(state.fetch_category(CategoryId("C".to_string()), 9)).name, "Any%");
    state.store_variable(VariableId("v".to_string()), variable("v", "V", &[]), 0);
    assert_eq!(found(state.fetch_variable(VariableId("v".to_string()), 9)).name, "V");
    let id = UserId::try_from("aaaaaaaa").unwrap();
    state.store_user(id, user("aaaaaaaa", "Anna"), 0);
    assert_eq!(found(state.fetch_user(id, 9)).names.international, "Anna");
    assert!(matches!(state.fetch_user(id, 10), Lookup::Fetch(_)));
}

fn aggregate(keys: &[&str]) -> Arc<AggregatedResponse> {
    let mut points = VecMap::new();
    for key in keys {
        points.insert(
            key.to_string(),
            AggregatedPlace {
                user_data: Arc::new(Profile { board_name: Some(format!("name {}", key)), avatar: None }),
                score_data: AggregatedScoreData { score: 1, player_rank: 1, score_rank: 1 },
            },
        );
    }
    Arc::new(AggregatedResponse { points })
}

#[test]
fn an_aggregated_board_fills_the_cache_of_profiles() {
    let mut state = CmBoardsState::new(900);
    assert_eq!(url(state.fetch_aggregate(&CmLeaderboard::Overall, 0)), "https://board.portal2.sr/aggregated/overall/json");
    assert_eq!(url(state.fetch_aggregate(&CmLeaderboard::SinglePlayer, 0)), "https://board.portal2.sr/aggregated/sp/json");
    assert_eq!(url(state.fetch_profile(-7, 0)), "https://board.portal2.sr/profile/-7/json");
    state.store_aggregate(CmLeaderboard::Overall, aggregate(&["11", "22"]), 0).unwrap();
    assert_eq!(found(state.fetch_aggregate(&CmLeaderboard::Overall, 899)).points.len(), 2);
    assert!(matches!(state.fetch_aggregate(&CmLeaderboard::Overall, 900), Lookup::Fetch(_)));
    assert!(matches!(state.fetch_aggregate(&CmLeaderboard::Coop, 0), Lookup::Fetch(_)));
    assert_eq!(found(state.fetch_profile(11, 0)).board_name.as_deref(), Some("name 11"));
    assert_eq!(found(state.fetch_profile(22, 0)).board_name.as_deref(), Some("name 22"));
    assert!(matches!(state.fetch_profile(33, 0), Lookup::Fetch(_)));
}

#[test]
fn a_key_that_is_no_number_ends_the_storing() {
    let mut state = CmBoardsState::new(900);
    let error = state
        .store_aggregate(CmLeaderboard::Coop, aggregate(&["11", "x22", "33"]), 0)
        .unwrap_err();
    assert_eq!(error.cause, "CM Boards provided invalid steam id: x22");
    assert!(!error.report_via_edit);
    // the profile before the bad line is stored, the rest is not
    assert!(matches!(state.fetch_profile(11, 0), Lookup::Found(_)));
    assert!(matches!(state.fetch_profile(33, 0), Lookup::Fetch(_)));
    assert!(matches!(state.fetch_aggregate(&CmLeaderboard::Coop, 0), Lookup::Fetch(_)));
}

#[test]
fn active_profiles_are_kept_by_the_number_of_months() {
    let mut state = CmBoardsState::new(900);
    match state.fetch_active_profiles(6, 0) {
        Lookup::Fetch(request) => {
            assert_eq!(request.method, Method::Post);
            assert_eq!(request.url, "https://board.portal2.sr/api-v2/active-profiles");
            assert_eq!(request.form, vec![("months".to_string(), "6".to_string())]);
            assert!(request.query.is_empty());
        }
        Lookup::Found(_) => panic!("cached"),
    }
    state.store_active_profiles(6, Arc::new(vec!["5".to_string(), "-6".to_string()]), 0);
    let list = found(state.fetch_active_profiles(6, 1));
    assert!(is_active(&list, 5));
    assert!(is_active(&list, -6));
    assert!(!is_active(&list, 6));
    assert!(!is_active(&vec![], 5));
    assert!(matches!(state.fetch_active_profiles(12, 1), Lookup::Fetch(_)));
    state.store_profile(5, Arc::new(Profile { board_name: None, avatar: Some("a".to_string()) }), 0);
    assert_eq!(found(state.fetch_profile(5, 1)).avatar.as_deref(), Some("a"));
}
