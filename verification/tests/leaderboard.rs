use std::sync::Arc;

use role_manager::analyzer::role_definition::PartnerRestriction;
use role_manager::boards::srcom::category::{CategoryId, CategoryOrId};
use role_manager::boards::srcom::game::{GameId, GameOrId};
use role_manager::boards::srcom::leaderboard::{Leaderboard, LeaderboardPlace, RunTable};
use role_manager::boards::srcom::run::{Run, RunId, RunPlayer, RunStatus, RunSystem, RunTimes};
use role_manager::boards::srcom::user::UserId;
use role_manager::boards::srcom::TimingMethod;
use role_manager::vec_map::VecMap;

fn user(name: &str) -> UserId {
    UserId::try_from(name).unwrap()
}

fn verified() -> RunStatus {
    RunStatus::Verified { examiner: None, verify_date: None }
}

fn run(id: &str, status: RunStatus, players: &[&str]) -> Run {
    Run {
        id: RunId(id.to_string()),
        weblink: format!("https://www.speedrun.com/run/{}", id),
        game: GameId("game".to_string()),
        level: None,
        category: CategoryId("category".to_string()),
        videos: None,
        comment: None,
        status,
        players: players
            .iter()
            .map(|p| RunPlayer::User { id: user(p), uri: format!("https://example.org/{}", p) })
            .collect(),
        date: Some("2023-02-25".to_string()),
        submitted: None,
        times: RunTimes {
            primary: "PT1M".to_string(),
            primary_ms: 60_000,
            realtime: None,
            realtime_ms: 0,
            realtime_noloads: None,
            realtime_noloads_ms: 0,
            ingame: None,
            ingame_ms: 0,
        },
        system: RunSystem { platform: None, emulated: false, region: None },
        splits: None,
        values: VecMap::new(),
        links: None,
    }
}

fn place(place: u64, id: &str, status: RunStatus, players: &[&str]) -> Arc<LeaderboardPlace> {
    Arc::new(LeaderboardPlace { place, run: run(id, status, players) })
}

fn board(places: Vec<Arc<LeaderboardPlace>>) -> Leaderboard {
    Leaderboard {
        weblink: "https://www.speedrun.com/game".to_string(),
        game: GameOrId::Id(GameId("game".to_string())),
        category: CategoryOrId::Id(CategoryId("category".to_string())),
        level: None,
        platform: None,
        region: None,
        emulators: None,
        video_only: false,
        timing: TimingMethod::RealTime,
        values: VecMap::new(),
        runs: RunTable::new(places),
        links: None,
        players: None,
        variables: None,
    }
}

const A: &str = "aaaaaaaa";
const B: &str = "bbbbbbbb";
const C: &str = "cccccccc";

#[test]
fn best_run_is_the_lowest_verified_place() {
    let mut lb = board(vec![
        place(5, "r5", verified(), &[A]),
        place(2, "r2", verified(), &[A]),
        place(9, "r9", RunStatus::New, &[A]),
    ]);
    let best = lb.get_highest_run(user(A), None).unwrap();
    assert_eq!(best.place, 2);
    assert_eq!(best.run.id.0, "r2");
}

#[test]
fn unverified_and_rejected_runs_do_not_count() {
    let mut lb = board(vec![
        place(1, "new", RunStatus::New, &[A]),
        place(2, "rejected", RunStatus::Rejected { examiner: None, reason: None }, &[A]),
    ]);
    assert!(lb.get_highest_run(user(A), None).is_none());
    assert!(lb.get_highest_run(user(A), Some(PartnerRestriction::RankGte)).is_none());
}

#[test]
fn runs_without_a_place_do_not_count() {
    let mut lb = board(vec![place(0, "r0", verified(), &[A]), place(7, "r7", verified(), &[A])]);
    assert_eq!(lb.get_highest_run(user(A), None).unwrap().place, 7);
}

#[test]
fn a_user_without_runs_has_no_best_run() {
    let mut lb = board(vec![place(1, "r1", verified(), &[A])]);
    assert!(lb.get_highest_run(user(B), None).is_none());
    let mut empty = board(vec![]);
    assert!(empty.get_highest_run(user(A), None).is_none());
}

#[test]
fn guests_are_no_users() {
    let mut entry = run("r1", verified(), &[]);
    entry.players.push(RunPlayer::Guest { name: A.to_string(), uri: "u".to_string() });
    let mut lb = board(vec![Arc::new(LeaderboardPlace { place: 1, run: entry })]);
    assert!(lb.get_highest_run(user(A), None).is_none());
}

#[test]
fn of_two_runs_with_the_same_place_the_first_is_the_best() {
    let mut lb = board(vec![
        place(3, "first", verified(), &[A]),
        place(3, "second", verified(), &[A]),
    ]);
    assert_eq!(lb.get_highest_run(user(A), None).unwrap().run.id.0, "first");
}

#[test]
fn partner_restriction_rejects_a_run_with_a_better_placed_partner() {
    let mut lb = board(vec![
        place(3, "shared", verified(), &[A, B]),
        place(1, "b_alone", verified(), &[B]),
        place(10, "a_alone", verified(), &[A]),
    ]);
    let restricted = Some(PartnerRestriction::RankGte);
    let for_a = lb.get_highest_run(user(A), restricted).unwrap();
    assert_eq!(for_a.place, 10);
    assert_eq!(for_a.run.id.0, "a_alone");
    let for_b = lb.get_highest_run(user(B), restricted).unwrap();
    assert_eq!(for_b.place, 1);
    assert_eq!(lb.get_highest_run(user(A), None).unwrap().place, 3);
    assert_eq!(lb.get_highest_run(user(B), None).unwrap().place, 1);
}

#[test]
fn partner_restriction_accepts_the_shared_run_for_the_stronger_partner() {
    let mut lb = board(vec![
        place(3, "shared", verified(), &[A, B]),
        place(10, "a_alone", verified(), &[A]),
    ]);
    let restricted = Some(PartnerRestriction::RankGte);
    // the best run of A alone is the shared one, so A does not outrank it
    assert_eq!(lb.get_highest_run(user(B), restricted).unwrap().run.id.0, "shared");
    let mut only_shared_rejected = board(vec![
        place(3, "shared", verified(), &[A, B]),
        place(1, "b_alone", verified(), &[B]),
    ]);
    assert!(only_shared_rejected.get_highest_run(user(A), restricted).is_none());
    assert_eq!(
        only_shared_rejected.get_highest_run(user(B), restricted).unwrap().run.id.0,
        "b_alone"
    );
}

#[test]
fn a_partner_with_the_same_place_does_not_outrank() {
    let mut lb = board(vec![
        place(3, "shared", verified(), &[A, B]),
        place(3, "b_alone", verified(), &[B]),
    ]);
    let best = lb.get_highest_run(user(A), Some(PartnerRestriction::RankGte)).unwrap();
    assert_eq!(best.run.id.0, "shared");
}

#[test]
fn a_closed_loop_of_partners_ends() {
    let mut lb = board(vec![
        place(1, "ab", verified(), &[A, B]),
        place(2, "bc", verified(), &[B, C]),
        place(3, "ca", verified(), &[C, A]),
    ]);
    let restricted = Some(PartnerRestriction::RankGte);
    assert_eq!(lb.get_highest_run(user(A), restricted).unwrap().run.id.0, "ab");
    assert_eq!(lb.get_highest_run(user(B), restricted).unwrap().run.id.0, "ab");
    // C's runs are shared with partners whose own best run is placed better
    assert!(lb.get_highest_run(user(C), restricted).is_none());
    assert_eq!(lb.get_highest_run(user(C), None).unwrap().run.id.0, "bc");
}

#[test]
fn a_repeated_question_is_answered_without_a_scan() {
    let mut lb = board(vec![
        place(5, "r5", verified(), &[A]),
        place(2, "r2", verified(), &[A, B]),
    ]);
    assert_eq!(lb.runs.scans(), 0);
    let first = lb.get_highest_run(user(A), None).unwrap();
    assert_eq!(lb.runs.scans(), 1);
    let second = lb.get_highest_run(user(A), None).unwrap();
    assert_eq!(lb.runs.scans(), 1);
    assert!(Arc::ptr_eq(&first, &second));
    // another question is another scan
    lb.get_highest_run(user(B), None);
    assert_eq!(lb.runs.scans(), 2);
    // the restricted question scans once, and asks for B, which is on record
    lb.get_highest_run(user(A), Some(PartnerRestriction::RankGte));
    assert_eq!(lb.runs.scans(), 3);
    lb.get_highest_run(user(A), Some(PartnerRestriction::RankGte));
    lb.get_highest_run(user(B), None);
    assert_eq!(lb.runs.scans(), 3);
}

#[test]
fn the_restricted_scan_records_the_partners_it_asked_for() {
    let mut lb = board(vec![place(2, "r2", verified(), &[A, B])]);
    lb.get_highest_run(user(A), Some(PartnerRestriction::RankGte));
    // one scan for A under the restriction, one for B without
    assert_eq!(lb.runs.scans(), 2);
    lb.get_highest_run(user(B), None);
    assert_eq!(lb.runs.scans(), 2);
}

#[test]
fn the_table_lists_its_entries_in_order() {
    let lb = board(vec![place(5, "r5", verified(), &[A]), place(2, "r2", verified(), &[A])]);
    assert_eq!(lb.runs.len(), 2);
    assert_eq!(lb.runs.get(0).place, 5);
    assert_eq!(lb.runs.get(1).place, 2);
}

#[test]
fn user_id_has_eight_bytes() {
    assert_eq!(user("abcdefgh").to_string(), "abcdefgh");
    let short = UserId::try_from("abc").unwrap_err();
    assert_eq!(short.cause, "SRC ids must be of size 8, found 3");
    assert!(!short.report_via_edit);
    let long = UserId::try_from("abcdefghi").unwrap_err();
    assert_eq!(long.cause, "SRC ids must be of size 8, found 9");
    // eight bytes, not eight characters
    assert!(UserId::try_from("\u{e9}\u{e9}\u{e9}\u{e9}").is_ok());
    assert_eq!(UserId::try_from("").unwrap_err().cause, "SRC ids must be of size 8, found 0");
}

#[test]
fn the_position_of_the_best_run() {
    let mut table = RunTable::new(vec![
        place(5, "r5", verified(), &[A]),
        place(2, "r2", verified(), &[A, B]),
        place(1, "r1", verified(), &[B]),
    ]);
    assert_eq!(table.highest_index(user(A), None), Some(1));
    assert_eq!(table.highest_index(user(A), Some(PartnerRestriction::RankGte)), Some(0));
    assert_eq!(table.highest_index(user(B), Some(PartnerRestriction::RankGte)), Some(2));
    assert_eq!(table.highest_index(user(C), None), None);
    assert_eq!(table.highest(user(A), None).unwrap().place, 2);
    assert!(table.highest(user(C), Some(PartnerRestriction::RankGte)).is_none());
}
