//! The analysis of one user: which badges the user has earned, and by what.

use vstd::prelude::*;
use vstd::string::*;
use std::sync::Arc;
use crate::analyzer::evaluation::{
    evaluate_requirement, lemma_same_state_snapshot, requirement_outcome, same_state, snapshot,
    user_views, Needed, NeededView, Outcome, Snapshot, Step,
};
use crate::analyzer::role_definition::{
    BadgeDefinition, CmLeaderboard, RequirementDefinition, RoleDefinition,
};
use crate::boards::cm::profile::Profile;
use crate::boards::cm::CmBoardsState;
use crate::boards::srcom::user::User;
use crate::boards::srcom::SrComBoardsState;
use crate::model::VerifiedConnection;
use crate::text::{byte_chars, parse_i64, spec_parse_i64};
use crate::time::clock_seconds;
use crate::boards::srcom::leaderboard::LeaderboardPlace;
use crate::boards::srcom::user::UserId;
use crate::error::RoleManagerError;
use crate::text::{
    decimal, i64_to_string, padded, signed_decimal, u64_to_padded_string, u64_to_string,
};
use crate::time::{
    date_text_of, parse_date_text, parse_error_debug_name, parse_error_name, parsed_date,
    utc_date_text, Date,
};

verus! {

/// An account that a user has linked.
#[derive(Debug)]
#[allow(inconsistent_fields)]
pub enum ExternalAccount {
    Srcom { username: String, id: UserId, link: String },
    Cm { username: String, id: i64 },
}

/// An account that a user has linked, with its strings as texts.
#[allow(inconsistent_fields)]
pub enum ExternalAccountView {
    Srcom { username: Seq<char>, id: Seq<u8>, link: Seq<char> },
    Cm { username: Seq<char>, id: i64 },
}

impl View for ExternalAccount {
    type V = ExternalAccountView;

    open spec fn view(&self) -> ExternalAccountView {
        match *self {
            ExternalAccount::Srcom { username, id, link } => ExternalAccountView::Srcom {
                username: username@,
                id: id@,
                link: link@,
            },
            ExternalAccount::Cm { username, id } => ExternalAccountView::Cm {
                username: username@,
                id,
            },
        }
    }
}

/// Why a requirement counts as met.
#[derive(Debug)]
#[allow(inconsistent_fields)]
pub enum MetRequirementCause {
    /// The badge was given by hand.
    Manual { assigned_on: String, note: Option<String> },
    /// A run on a leaderboard of the speedrunning board.
    FullgameRun { srcom_id: UserId, link: String, rank: u32, time: String, achieved_on: Date },
    /// A total on an aggregated board of the puzzle board.
    CmAggregate { steam_id: i64, board: CmLeaderboard, points: u32 },
    /// A run on the puzzle board.
    CmRun {
        steam_id: i64,
        chapter: String,
        chamber: String,
        rank: u32,
        time: String,
        achieved_on: String,
    },
    /// Recent activity on the puzzle board.
    CmActivity { steam_id: i64 },
}

/// Why a requirement counts as met, with its strings as texts.
#[allow(inconsistent_fields)]
pub enum CauseView {
    Manual { assigned_on: Seq<char>, note: Option<Seq<char>> },
    FullgameRun {
        srcom_id: Seq<u8>,
        link: Seq<char>,
        rank: u32,
        time: Seq<char>,
        achieved_on: Date,
    },
    CmAggregate { steam_id: i64, board: CmLeaderboard, points: u32 },
    CmRun {
        steam_id: i64,
        chapter: Seq<char>,
        chamber: Seq<char>,
        rank: u32,
        time: Seq<char>,
        achieved_on: Seq<char>,
    },
    CmActivity { steam_id: i64 },
}

impl View for MetRequirementCause {
    type V = CauseView;

    open spec fn view(&self) -> CauseView {
        match *self {
            MetRequirementCause::Manual { assigned_on, note } => CauseView::Manual {
                assigned_on: assigned_on@,
                note: match note {
                    Some(text) => Some(text@),
                    None => None,
                },
            },
            MetRequirementCause::FullgameRun {
                srcom_id,
                link,
                rank,
                time,
                achieved_on,
            } => CauseView::FullgameRun {
                srcom_id: srcom_id@,
                link: link@,
                rank,
                time: time@,
                achieved_on,
            },
            MetRequirementCause::CmAggregate { steam_id, board, points } => CauseView::CmAggregate {
                steam_id,
                board,
                points,
            },
            MetRequirementCause::CmRun {
                steam_id,
                chapter,
                chamber,
                rank,
                time,
                achieved_on,
            } => CauseView::CmRun {
                steam_id,
                chapter: chapter@,
                chamber: chamber@,
                rank,
                time: time@,
                achieved_on: achieved_on@,
            },
            MetRequirementCause::CmActivity { steam_id } => CauseView::CmActivity { steam_id },
        }
    }
}

/// The line that cites `cause`.
pub open spec fn cause_text(cause: CauseView) -> Seq<char> {
    match cause {
        CauseView::Manual { assigned_on, note } => match note {
            Some(text) => "Assigned "@ + assigned_on + " - "@ + text,
            None => "Assigned "@ + assigned_on,
        },
        CauseView::FullgameRun { link, rank, time, .. } => "[#"@ + decimal(rank as nat) + " - "@
            + time + "]("@ + link + ")"@,
        CauseView::CmAggregate { steam_id, board, points } => "["@ + board.spec_name() + " - "@
            + decimal(points as nat) + "](https://board.portal2.sr/profile/"@ + signed_decimal(
            steam_id as int,
        ) + ")"@,
        CauseView::CmRun { chapter, chamber, rank, time, achieved_on, .. } => chapter + "/"@
            + chamber + " - #"@ + decimal(rank as nat) + " - "@ + time + " ("@ + achieved_on
            + ")"@,
        CauseView::CmActivity { steam_id } => "[CM Activity](https://board.portal2.sr/profile/"@
            + signed_decimal(steam_id as int) + ")"@,
    }
}

impl MetRequirementCause {
    /// The line that cites the cause.
    pub fn to_string(&self) -> (text: String)
        ensures
            text@ == cause_text(self@),
    {
        match self {
            MetRequirementCause::Manual { assigned_on, note } => {
                let mut text = String::from_str("Assigned ");
                text.append(assigned_on.as_str());
                match note {
                    Some(note_text) => {
                        text.append(" - ");
                        text.append(note_text.as_str());
                    },
                    None => {},
                }
                text
            },
            MetRequirementCause::FullgameRun { link, rank, time, .. } => {
                let mut text = String::from_str("[#");
                let number = u64_to_string(*rank as u64);
                text.append(number.as_str());
                text.append(" - ");
                text.append(time.as_str());
                text.append("](");
                text.append(link.as_str());
                text.append(")");
                text
            },
            MetRequirementCause::CmAggregate { steam_id, board, points } => {
                let mut text = String::from_str("[");
                text.append(board.name());
                text.append(" - ");
                let number = u64_to_string(*points as u64);
                text.append(number.as_str());
                text.append("](https://board.portal2.sr/profile/");
                let id = i64_to_string(*steam_id);
                text.append(id.as_str());
                text.append(")");
                text
            },
            MetRequirementCause::CmRun { chapter, chamber, rank, time, achieved_on, .. } => {
                let mut text = String::from_str(chapter.as_str());
                text.append("/");
                text.append(chamber.as_str());
                text.append(" - #");
                let number = u64_to_string(*rank as u64);
                text.append(number.as_str());
                text.append(" - ");
                text.append(time.as_str());
                text.append(" (");
                text.append(achieved_on.as_str());
                text.append(")");
                text
            },
            MetRequirementCause::CmActivity { steam_id } => {
                let mut text = String::from_str(
                    "[CM Activity](https://board.portal2.sr/profile/",
                );
                let id = i64_to_string(*steam_id);
                text.append(id.as_str());
                text.append(")");
                text
            },
        }
    }
}

/// A requirement that is met, with the cause.
#[derive(Debug)]
pub struct MetRequirement<'a> {
    /// The position of the requirement among the requirements of its badge.
    pub index: usize,
    pub definition: &'a RequirementDefinition,
    pub cause: MetRequirementCause,
}

/// A badge that a user has earned, with the requirements that are met.
#[derive(Debug)]
pub struct AnalyzedUserBadge<'a> {
    /// The position of the badge among the badges of the definition.
    pub index: usize,
    pub definition: &'a BadgeDefinition,
    pub met_requirements: Vec<MetRequirement<'a>>,
}

/// What the analysis of a user has found.
#[derive(Debug)]
pub struct AnalyzedUser<'a> {
    pub discord_id: u64,
    pub external_accounts: Vec<ExternalAccount>,
    pub badges: Vec<AnalyzedUserBadge<'a>>,
}

/// A requirement that is met, with its cause as texts.
pub struct MetRequirementView {
    pub index: int,
    pub definition: RequirementDefinition,
    pub cause: CauseView,
}

/// An earned badge, with its causes as texts.
pub struct BadgeView {
    pub index: int,
    pub definition: BadgeDefinition,
    pub met_requirements: Seq<MetRequirementView>,
}

/// The result of an analysis, with its strings as texts.
pub struct AnalyzedUserView {
    pub discord_id: u64,
    pub external_accounts: Seq<ExternalAccountView>,
    pub badges: Seq<BadgeView>,
}

impl<'a> View for MetRequirement<'a> {
    type V = MetRequirementView;

    open spec fn view(&self) -> MetRequirementView {
        MetRequirementView {
            index: self.index as int,
            definition: *self.definition,
            cause: self.cause@,
        }
    }
}

impl<'a> View for AnalyzedUserBadge<'a> {
    type V = BadgeView;

    open spec fn view(&self) -> BadgeView {
        BadgeView {
            index: self.index as int,
            definition: *self.definition,
            met_requirements: self.met_requirements@.map_values(|m: MetRequirement<'a>| m@),
        }
    }
}

impl<'a> View for AnalyzedUser<'a> {
    type V = AnalyzedUserView;

    open spec fn view(&self) -> AnalyzedUserView {
        AnalyzedUserView {
            discord_id: self.discord_id,
            external_accounts: self.external_accounts@.map_values(|a: ExternalAccount| a@),
            badges: self.badges@.map_values(|b: AnalyzedUserBadge<'a>| b@),
        }
    }
}

/// What can go wrong in an analysis.
pub enum Failure {
    /// A run carries a date that is none.
    RunDate { date: Seq<char> },
    /// The date of today could not be had.
    Today,
    /// A run carries a date that is none, found where recent activity was
    /// looked for.
    RecentDate { date: Seq<char> },
    /// A badge asks for a time that is no duration.
    Duration { badge: Seq<char>, time: Seq<char> },
    /// The database holds a steam account whose identifier is no number.
    SteamId { id: Seq<char> },
    /// The database holds an account of the speedrunning board whose
    /// identifier has not eight bytes but `len`.
    SrcomId { len: nat },
    /// A badge chooses a value that its variable does not have.
    UnknownChoice { choice: Seq<char>, variable: Seq<char> },
}

/// A message in three parts: what stands before the parser's words, the
/// words, and what stands after them.
pub open spec fn with_detail(head: Seq<char>, detail: Seq<char>, tail: Seq<char>) -> Seq<char> {
    head + detail + tail
}

/// Whether `text` is `head`, then some words, then `tail`.
pub open spec fn has_detail(text: Seq<char>, head: Seq<char>, tail: Seq<char>) -> bool {
    exists|detail: Seq<char>| text == #[trigger] with_detail(head, detail, tail)
}

/// Whether `text` is a message for the failure `failure`. Where a message
/// holds what the parser said, that part is free.
pub open spec fn describes(failure: Failure, text: Seq<char>) -> bool {
    match failure {
        Failure::RunDate { date } => has_detail(
            text,
            "Speedrun.com returned an invalid date format: "@ + date + " (caused by "@,
            ")"@,
        ),
        Failure::Today => has_detail(
            text,
            "Chrono returned an invalid datetime: "@,
            Seq::empty(),
        ),
        Failure::RecentDate { date } => has_detail(
            text,
            "Speedrun.com provided invalid date: "@ + date + " (Caused by "@,
            ")"@,
        ),
        Failure::Duration { badge, time } => has_detail(
            text,
            "Invalid duration specified in badge "@ + badge + ", "@ + time + " (caused by "@,
            ")"@,
        ),
        Failure::SteamId { id } => text == "Database contains steam account with invalid ID: "@
            + id,
        Failure::SrcomId { len } => text == crate::boards::srcom::user::wrong_size_message(len),
        Failure::UnknownChoice { choice, variable } => text == "Variable value "@ + choice
            + " is not a choice for variable "@ + variable,
    }
}

/// A time of `ms` milliseconds as it is cited: minutes, seconds and
/// milliseconds, with the hours in front where there are any.
pub open spec fn run_time_text(ms: u64) -> Seq<char> {
    let total = ms / 1000;
    let hours = total / 3600;
    let minutes = (total % 3600) / 60;
    let seconds = total % 60;
    let millis = ms % 1000;
    if hours == 0 {
        decimal(minutes as nat) + ":"@ + padded(seconds as nat, 2) + "."@ + padded(
            millis as nat,
            3,
        )
    } else {
        decimal(hours as nat) + ":"@ + padded(minutes as nat, 2) + ":"@ + padded(
            seconds as nat,
            2,
        ) + "."@ + padded(millis as nat, 3)
    }
}

/// Writes a time of `ms` milliseconds as it is cited.
pub fn format_run_time(ms: u64) -> (text: String)
    ensures
        text@ == run_time_text(ms),
{
    let total = ms / 1000;
    let hours = total / 3600;
    let minutes = (total % 3600) / 60;
    let seconds = total % 60;
    let millis = ms % 1000;
    let mut text;
    if hours == 0 {
        text = u64_to_string(minutes);
    } else {
        text = u64_to_string(hours);
        text.append(":");
        let m = u64_to_padded_string(minutes, 2);
        text.append(m.as_str());
    }
    text.append(":");
    let s = u64_to_padded_string(seconds, 2);
    text.append(s.as_str());
    text.append(".");
    let f = u64_to_padded_string(millis, 3);
    text.append(f.as_str());
    text
}

/// The date on which the run of `place` counts as achieved: the date that
/// the run carries, or the date of the instant `now` where it carries none.
/// `Err` where the date cannot be read.
pub open spec fn spec_achieved_on(place: LeaderboardPlace, now: i64) -> Result<Date, Failure> {
    match place.run.date {
        Some(text) => match parsed_date(text@) {
            Some(d) => Ok(Date { year: d.0, month: d.1, day: d.2 }),
            None => Err(Failure::RunDate { date: text@ }),
        },
        None => match utc_date_text(now) {
            Some(text) => match parsed_date(text) {
                Some(d) => Ok(Date { year: d.0, month: d.1, day: d.2 }),
                None => Err(Failure::Today),
            },
            None => Err(Failure::Today),
        },
    }
}

/// The cause that cites the run of `place` for the user `user`.
pub open spec fn spec_fullgame_cause(user: Seq<u8>, place: LeaderboardPlace, now: i64) -> Result<
    CauseView,
    Failure,
> {
    match spec_achieved_on(place, now) {
        Ok(date) => Ok(
            CauseView::FullgameRun {
                srcom_id: user,
                link: place.run.weblink@,
                rank: (place.place % 0x1_0000_0000) as u32,
                time: run_time_text(place.run.times.primary_ms),
                achieved_on: date,
            },
        ),
        Err(failure) => Err(failure),
    }
}

/// The cause that cites the run of `place` for the user `user`: its place,
/// its time, its link and its date. A run without a date is cited with the
/// date of the instant `now`.
pub fn fullgame_cause(user: &UserId, place: &LeaderboardPlace, now: i64) -> (cause: Result<
    MetRequirementCause,
    RoleManagerError,
>)
    ensures
        match cause {
            Ok(c) => spec_fullgame_cause(user@, *place, now) == Ok::<CauseView, Failure>(c@),
            Err(e) => spec_fullgame_cause(user@, *place, now) matches Err(failure) && describes(
                failure,
                e.cause@,
            ) && !e.report_via_edit,
        },
{
    let date = match &place.run.date {
        Some(d) => {
            match parse_date_text(d.as_str()) {
                Ok(date) => date,
                Err(error) => {
                    let mut cause = String::from_str(
                        "Speedrun.com returned an invalid date format: ",
                    );
                    cause.append(d.as_str());
                    cause.append(" (caused by ");
                    let detail = parse_error_name(&error);
                    cause.append(detail.as_str());
                    cause.append(")");
                    proof {
                        assert(cause@ == with_detail(
                            "Speedrun.com returned an invalid date format: "@ + d@
                                + " (caused by "@,
                            detail@,
                            ")"@,
                        ));
                    }
                    return Err(RoleManagerError::new(cause));
                },
            }
        },
        None => {
            match date_text_of(now) {
                Some(today) => {
                    match parse_date_text(today.as_str()) {
                        Ok(date) => date,
                        Err(error) => {
                            let mut cause = String::from_str(
                                "Chrono returned an invalid datetime: ",
                            );
                            let detail = parse_error_debug_name(&error);
                            cause.append(detail.as_str());
                            proof {
                                assert(cause@ =~= with_detail(
                                    "Chrono returned an invalid datetime: "@,
                                    detail@,
                                    Seq::empty(),
                                ));
                            }
                            return Err(RoleManagerError::new(cause));
                        },
                    }
                },
                None => {
                    let mut cause = String::from_str("Chrono returned an invalid datetime: ");
                    let detail = i64_to_string(now);
                    cause.append(detail.as_str());
                    proof {
                        assert(cause@ =~= with_detail(
                            "Chrono returned an invalid datetime: "@,
                            detail@,
                            Seq::empty(),
                        ));
                    }
                    return Err(RoleManagerError::new(cause));
                },
            }
        },
    };
    let rank: u32 = (place.place % 0x1_0000_0000) as u32;
    Ok(
        MetRequirementCause::FullgameRun {
            srcom_id: *user,
            link: place.run.weblink.clone(),
            rank,
            time: format_run_time(place.run.times.primary_ms),
            achieved_on: date,
        },
    )
}

/// The accounts that a user has linked: the numbers of the steam accounts
/// and the identifiers of the accounts of the speedrunning board, each list
/// in the order of the links.
#[derive(Debug)]
pub struct LinkedAccounts {
    pub steam_ids: Vec<i64>,
    pub srcom_ids: Vec<UserId>,
}

/// The accounts that a user has linked, as plain values.
pub struct AccountsView {
    pub steam: Seq<i64>,
    pub srcom: Seq<Seq<u8>>,
}

impl View for LinkedAccounts {
    type V = AccountsView;

    open spec fn view(&self) -> AccountsView {
        AccountsView { steam: self.steam_ids@, srcom: user_views(self.srcom_ids@) }
    }
}

/// Whether `connection` is a standing link of the user `discord_id`.
pub open spec fn links(connection: VerifiedConnection, discord_id: u64) -> bool {
    !connection.removed && connection.user_id == discord_id
}

/// The accounts `found` with the account of `connection`, where that is a
/// standing link of the user to a steam account or to an account of the
/// speedrunning board. An identifier that cannot be read is a failure.
pub open spec fn with_connection(
    found: AccountsView,
    connection: VerifiedConnection,
    discord_id: u64,
) -> Result<AccountsView, Failure> {
    if !links(connection, discord_id) {
        Ok(found)
    } else if connection.connection_type@ == "steam"@ {
        match spec_parse_i64(connection.id@) {
            Some(number) => Ok(AccountsView { steam: found.steam.push(number), ..found }),
            None => Err(Failure::SteamId { id: connection.id@ }),
        }
    } else if connection.connection_type@ == "srcom"@ {
        let bytes = vstd::utf8::encode_utf8(connection.id@);
        if bytes.len() == 8 {
            Ok(AccountsView { srcom: found.srcom.push(bytes), ..found })
        } else {
            Err(Failure::SrcomId { len: bytes.len() })
        }
    } else {
        Ok(found)
    }
}

/// The accounts `found` with those of the connections from position `i` on.
/// The first failure ends the work.
pub open spec fn accounts_from(
    connections: Seq<VerifiedConnection>,
    discord_id: u64,
    i: int,
    found: AccountsView,
) -> Result<AccountsView, Failure>
    decreases connections.len() - i,
{
    if 0 <= i < connections.len() {
        match with_connection(found, connections[i], discord_id) {
            Ok(more) => accounts_from(connections, discord_id, i + 1, more),
            Err(failure) => Err(failure),
        }
    } else {
        Ok(found)
    }
}

/// The accounts that the user `discord_id` has linked, by `connections`.
pub open spec fn spec_linked_accounts(
    connections: Seq<VerifiedConnection>,
    discord_id: u64,
) -> Result<AccountsView, Failure> {
    accounts_from(
        connections,
        discord_id,
        0,
        AccountsView { steam: Seq::empty(), srcom: Seq::empty() },
    )
}

/// The accounts that the user `discord_id` has linked: of the connections
/// that are the user's and have not been removed, the steam accounts and the
/// accounts of the speedrunning board, in the order of the connections.
pub fn linked_accounts(discord_id: u64, connections: &Vec<VerifiedConnection>) -> (accounts:
    Result<LinkedAccounts, RoleManagerError>)
    ensures
        match accounts {
            Ok(found) => spec_linked_accounts(connections@, discord_id) == Ok::<
                AccountsView,
                Failure,
            >(found@),
            Err(e) => spec_linked_accounts(connections@, discord_id) matches Err(failure)
                && describes(failure, e.cause@) && !e.report_via_edit,
        },
{
    let steam_kind = String::from_str("steam");
    let srcom_kind = String::from_str("srcom");
    let mut steam_ids: Vec<i64> = Vec::new();
    let mut srcom_ids: Vec<UserId> = Vec::new();
    let n = connections.len();
    let mut i: usize = 0;
    proof {
        assert(user_views(srcom_ids@) =~= Seq::empty());
    }
    while i < n
        invariant
            i <= n,
            n == connections@.len(),
            steam_kind@ == "steam"@,
            srcom_kind@ == "srcom"@,
            spec_linked_accounts(connections@, discord_id) == accounts_from(
                connections@,
                discord_id,
                i as int,
                AccountsView { steam: steam_ids@, srcom: user_views(srcom_ids@) },
            ),
        decreases n - i,
    {
        let connection = &connections[i];
        let ghost before = user_views(srcom_ids@);
        if !connection.removed && connection.user_id >= 0 && connection.user_id as u64
            == discord_id {
            if connection.connection_type == steam_kind {
                match parse_i64(connection.id.as_str()) {
                    Some(number) => {
                        steam_ids.push(number);
                    },
                    None => {
                        let mut cause = String::from_str(
                            "Database contains steam account with invalid ID: ",
                        );
                        cause.append(connection.id.as_str());
                        return Err(RoleManagerError::new(cause));
                    },
                }
            } else if connection.connection_type == srcom_kind {
                match UserId::try_from(connection.id.as_str()) {
                    Ok(id) => {
                        srcom_ids.push(id);
                        proof {
                            assert(user_views(srcom_ids@) =~= before.push(id@));
                        }
                    },
                    Err(e) => {
                        return Err(e);
                    },
                }
            }
        }
        i = i + 1;
    }
    Ok(LinkedAccounts { steam_ids, srcom_ids })
}

/// The met requirements `met` with those that are met among the
/// requirements of `badge` from position `j` on. The first need or failure
/// ends the work.
pub open spec fn met_from(
    snap: Snapshot,
    accounts: AccountsView,
    badge: BadgeDefinition,
    j: int,
    met: Seq<MetRequirementView>,
) -> Outcome<Seq<MetRequirementView>>
    decreases badge.requirements@.len() - j,
{
    if 0 <= j < badge.requirements@.len() {
        match requirement_outcome(
            snap,
            accounts.steam,
            accounts.srcom,
            badge.name@,
            badge.requirements@[j],
        ) {
            Outcome::Done(cause) => met_from(
                snap,
                accounts,
                badge,
                j + 1,
                match cause {
                    Some(c) => met.push(
                        MetRequirementView {
                            index: j,
                            definition: badge.requirements@[j],
                            cause: c,
                        },
                    ),
                    None => met,
                },
            ),
            Outcome::Need(needed) => Outcome::Need(needed),
            Outcome::Failed(failure) => Outcome::Failed(failure),
        }
    } else {
        Outcome::Done(met)
    }
}

/// The earned badges `earned` with those that are earned among `badges` from
/// position `i` on: the badges of which a requirement is met, each with all
/// of its requirements that are met. The first need or failure ends the work.
pub open spec fn earned_from(
    snap: Snapshot,
    accounts: AccountsView,
    badges: Seq<BadgeDefinition>,
    i: int,
    earned: Seq<BadgeView>,
) -> Outcome<Seq<BadgeView>>
    decreases badges.len() - i,
{
    if 0 <= i < badges.len() {
        match met_from(snap, accounts, badges[i], 0, Seq::empty()) {
            Outcome::Done(met) => earned_from(
                snap,
                accounts,
                badges,
                i + 1,
                if met.len() > 0 {
                    earned.push(
                        BadgeView { index: i, definition: badges[i], met_requirements: met },
                    )
                } else {
                    earned
                },
            ),
            Outcome::Need(needed) => Outcome::Need(needed),
            Outcome::Failed(failure) => Outcome::Failed(failure),
        }
    } else {
        Outcome::Done(earned)
    }
}

/// The name under which the steam account `id` is listed: its number, or,
/// where details are asked for, the name on its profile if it has one.
pub open spec fn steam_name(profiles: Map<i64, Arc<Profile>>, id: i64, details: bool) -> Outcome<
    Seq<char>,
> {
    if !details {
        Outcome::Done(signed_decimal(id as int))
    } else if !profiles.dom().contains(id) {
        Outcome::Need(NeededView::Profile(id))
    } else {
        match profiles[id].board_name {
            Some(name) => Outcome::Done(name@),
            None => Outcome::Done(signed_decimal(id as int)),
        }
    }
}

/// The accounts `listed` with the steam accounts from position `i` on.
pub open spec fn steam_accounts_from(
    profiles: Map<i64, Arc<Profile>>,
    steam: Seq<i64>,
    details: bool,
    i: int,
    listed: Seq<ExternalAccountView>,
) -> Outcome<Seq<ExternalAccountView>>
    decreases steam.len() - i,
{
    if 0 <= i < steam.len() {
        match steam_name(profiles, steam[i], details) {
            Outcome::Done(username) => steam_accounts_from(
                profiles,
                steam,
                details,
                i + 1,
                listed.push(ExternalAccountView::Cm { username, id: steam[i] }),
            ),
            Outcome::Need(needed) => Outcome::Need(needed),
            Outcome::Failed(failure) => Outcome::Failed(failure),
        }
    } else {
        Outcome::Done(listed)
    }
}

/// The account `id` of the speedrunning board as it is listed: under its
/// identifier, or, where details are asked for, with the user's name and
/// page.
pub open spec fn srcom_account(users: Map<Seq<u8>, Arc<User>>, id: Seq<u8>, details: bool) -> Outcome<
    ExternalAccountView,
> {
    if !details {
        Outcome::Done(
            ExternalAccountView::Srcom { username: byte_chars(id), id, link: byte_chars(id) },
        )
    } else if !users.dom().contains(id) {
        Outcome::Need(NeededView::User(id))
    } else {
        Outcome::Done(
            ExternalAccountView::Srcom {
                username: users[id].names.international@,
                id,
                link: users[id].weblink@,
            },
        )
    }
}

/// The accounts `listed` with the accounts of the speedrunning board from
/// position `i` on.
pub open spec fn srcom_accounts_from(
    users: Map<Seq<u8>, Arc<User>>,
    srcom: Seq<Seq<u8>>,
    details: bool,
    i: int,
    listed: Seq<ExternalAccountView>,
) -> Outcome<Seq<ExternalAccountView>>
    decreases srcom.len() - i,
{
    if 0 <= i < srcom.len() {
        match srcom_account(users, srcom[i], details) {
            Outcome::Done(account) => srcom_accounts_from(
                users,
                srcom,
                details,
                i + 1,
                listed.push(account),
            ),
            Outcome::Need(needed) => Outcome::Need(needed),
            Outcome::Failed(failure) => Outcome::Failed(failure),
        }
    } else {
        Outcome::Done(listed)
    }
}

/// The accounts of a user as they are listed: the steam accounts first, then
/// the accounts of the speedrunning board.
pub open spec fn listed_accounts(snap: Snapshot, accounts: AccountsView, details: bool) -> Outcome<
    Seq<ExternalAccountView>,
> {
    match steam_accounts_from(snap.profiles, accounts.steam, details, 0, Seq::empty()) {
        Outcome::Done(listed) => srcom_accounts_from(
            snap.users,
            accounts.srcom,
            details,
            0,
            listed,
        ),
        Outcome::Need(needed) => Outcome::Need(needed),
        Outcome::Failed(failure) => Outcome::Failed(failure),
    }
}

/// What the analysis of the user `discord_id` comes to, against what is
/// cached and fresh: the user's accounts are read from `connections`, each
/// badge of `definition` is evaluated in turn, and the accounts are listed.
/// The first need or failure ends the work.
pub open spec fn analysis(
    snap: Snapshot,
    connections: Seq<VerifiedConnection>,
    discord_id: u64,
    definition: RoleDefinition,
    details: bool,
) -> Outcome<AnalyzedUserView> {
    match spec_linked_accounts(connections, discord_id) {
        Ok(accounts) => match earned_from(snap, accounts, definition.badges@, 0, Seq::empty()) {
            Outcome::Done(badges) => match listed_accounts(snap, accounts, details) {
                Outcome::Done(external_accounts) => Outcome::Done(
                    AnalyzedUserView { discord_id, external_accounts, badges },
                ),
                Outcome::Need(needed) => Outcome::Need(needed),
                Outcome::Failed(failure) => Outcome::Failed(failure),
            },
            Outcome::Need(needed) => Outcome::Need(needed),
            Outcome::Failed(failure) => Outcome::Failed(failure),
        },
        Err(failure) => Outcome::Failed(failure),
    }
}

/// The views of a list of met requirements.
pub open spec fn met_views<'a>(met: Seq<MetRequirement<'a>>) -> Seq<MetRequirementView> {
    met.map_values(|m: MetRequirement<'a>| m@)
}

/// The views of a list of earned badges.
pub open spec fn badge_views<'a>(badges: Seq<AnalyzedUserBadge<'a>>) -> Seq<BadgeView> {
    badges.map_values(|b: AnalyzedUserBadge<'a>| b@)
}

/// The views of a list of accounts.
pub open spec fn account_views(accounts: Seq<ExternalAccount>) -> Seq<ExternalAccountView> {
    accounts.map_values(|a: ExternalAccount| a@)
}

/// Looks which requirements of `badge` are met.
fn met_requirements<'a>(
    srcom_boards: &mut SrComBoardsState,
    cm_boards: &CmBoardsState,
    accounts: &LinkedAccounts,
    badge: &'a BadgeDefinition,
    now: i64,
) -> (result: Result<Step<Vec<MetRequirement<'a>>>, RoleManagerError>)
    ensures
        same_state(old(srcom_boards), final(srcom_boards)),
        match result {
            Ok(Step::Done(met)) => met_from(
                snapshot(old(srcom_boards), cm_boards, now),
                accounts@,
                *badge,
                0,
                Seq::empty(),
            ) == Outcome::Done(met_views(met@)),
            Ok(Step::Need(needed)) => met_from(
                snapshot(old(srcom_boards), cm_boards, now),
                accounts@,
                *badge,
                0,
                Seq::empty(),
            ) == Outcome::<Seq<MetRequirementView>>::Need(needed@),
            Err(e) => met_from(
                snapshot(old(srcom_boards), cm_boards, now),
                accounts@,
                *badge,
                0,
                Seq::empty(),
            ) matches Outcome::Failed(failure) && describes(failure, e.cause@)
                && !e.report_via_edit,
        },
{
    let ghost snap = snapshot(srcom_boards, cm_boards, now);
    let ghost whole = met_from(snap, accounts@, *badge, 0, Seq::empty());
    let mut met: Vec<MetRequirement<'a>> = Vec::new();
    let n = badge.requirements.len();
    let mut j: usize = 0;
    proof {
        assert(met_views(met@) =~= Seq::empty());
        assert(srcom_boards.cached_boards@.dom() =~= srcom_boards.cached_boards@.dom());
    }
    while j < n
        invariant
            j <= n,
            n == badge.requirements@.len(),
            snap == snapshot(old(srcom_boards), cm_boards, now),
            same_state(old(srcom_boards), srcom_boards),
            whole == met_from(snap, accounts@, *badge, 0, Seq::empty()),
            whole == met_from(snap, accounts@, *badge, j as int, met_views(met@)),
        decreases n - j,
    {
        let ghost before = *srcom_boards;
        let ghost met_before = met_views(met@);
        proof {
            lemma_same_state_snapshot(old(srcom_boards), srcom_boards, cm_boards, now);
        }
        let requirement = &badge.requirements[j];
        let evaluated = evaluate_requirement(
            srcom_boards,
            cm_boards,
            &accounts.steam_ids,
            &accounts.srcom_ids,
            &badge.name,
            requirement,
            now,
        );
        proof {
            crate::analyzer::evaluation::lemma_same_boards_transitive(
                old(srcom_boards).cached_boards@,
                before.cached_boards@,
                srcom_boards.cached_boards@,
            );
        }
        match evaluated {
            Ok(Step::Done(cause)) => {
                match cause {
                    Some(cause) => {
                        met.push(MetRequirement { index: j, definition: requirement, cause });
                        proof {
                            assert(met_views(met@) =~= met_before.push(
                                MetRequirementView {
                                    index: j as int,
                                    definition: *requirement,
                                    cause: cause@,
                                },
                            ));
                        }
                    },
                    None => {},
                }
            },
            Ok(Step::Need(needed)) => {
                return Ok(Step::Need(needed));
            },
            Err(e) => {
                return Err(e);
            },
        }
        j = j + 1;
    }
    Ok(Step::Done(met))
}

/// Looks which badges of `definition` are earned.
fn earned_badges<'a>(
    srcom_boards: &mut SrComBoardsState,
    cm_boards: &CmBoardsState,
    accounts: &LinkedAccounts,
    definition: &'a RoleDefinition,
    now: i64,
) -> (result: Result<Step<Vec<AnalyzedUserBadge<'a>>>, RoleManagerError>)
    ensures
        same_state(old(srcom_boards), final(srcom_boards)),
        match result {
            Ok(Step::Done(badges)) => earned_from(
                snapshot(old(srcom_boards), cm_boards, now),
                accounts@,
                definition.badges@,
                0,
                Seq::empty(),
            ) == Outcome::Done(badge_views(badges@)),
            Ok(Step::Need(needed)) => earned_from(
                snapshot(old(srcom_boards), cm_boards, now),
                accounts@,
                definition.badges@,
                0,
                Seq::empty(),
            ) == Outcome::<Seq<BadgeView>>::Need(needed@),
            Err(e) => earned_from(
                snapshot(old(srcom_boards), cm_boards, now),
                accounts@,
                definition.badges@,
                0,
                Seq::empty(),
            ) matches Outcome::Failed(failure) && describes(failure, e.cause@)
                && !e.report_via_edit,
        },
{
    let ghost snap = snapshot(srcom_boards, cm_boards, now);
    let ghost whole = earned_from(snap, accounts@, definition.badges@, 0, Seq::empty());
    let mut earned: Vec<AnalyzedUserBadge<'a>> = Vec::new();
    let n = definition.badges.len();
    let mut i: usize = 0;
    proof {
        assert(badge_views(earned@) =~= Seq::empty());
        assert(srcom_boards.cached_boards@.dom() =~= srcom_boards.cached_boards@.dom());
    }
    while i < n
        invariant
            i <= n,
            n == definition.badges@.len(),
            snap == snapshot(old(srcom_boards), cm_boards, now),
            same_state(old(srcom_boards), srcom_boards),
            whole == earned_from(snap, accounts@, definition.badges@, 0, Seq::empty()),
            whole == earned_from(
                snap,
                accounts@,
                definition.badges@,
                i as int,
                badge_views(earned@),
            ),
        decreases n - i,
    {
        let ghost before = *srcom_boards;
        let ghost earned_before = badge_views(earned@);
        proof {
            lemma_same_state_snapshot(old(srcom_boards), srcom_boards, cm_boards, now);
        }
        let badge = &definition.badges[i];
        let evaluated = met_requirements(srcom_boards, cm_boards, accounts, badge, now);
        proof {
            crate::analyzer::evaluation::lemma_same_boards_transitive(
                old(srcom_boards).cached_boards@,
                before.cached_boards@,
                srcom_boards.cached_boards@,
            );
        }
        match evaluated {
            Ok(Step::Done(met)) => {
                if met.len() > 0 {
                    let ghost met_view = met_views(met@);
                    earned.push(
                        AnalyzedUserBadge { index: i, definition: badge, met_requirements: met },
                    );
                    proof {
                        assert(badge_views(earned@) =~= earned_before.push(
                            BadgeView {
                                index: i as int,
                                definition: *badge,
                                met_requirements: met_view,
                            },
                        ));
                    }
                }
            },
            Ok(Step::Need(needed)) => {
                return Ok(Step::Need(needed));
            },
            Err(e) => {
                return Err(e);
            },
        }
        i = i + 1;
    }
    Ok(Step::Done(earned))
}

/// Lists the accounts of a user.
#[verifier::loop_isolation(false)]
fn list_accounts(
    srcom_boards: &SrComBoardsState,
    cm_boards: &CmBoardsState,
    accounts: &LinkedAccounts,
    details: bool,
    now: i64,
) -> (step: Step<Vec<ExternalAccount>>)
    ensures
        match step {
            Step::Done(listed) => listed_accounts(
                snapshot(srcom_boards, cm_boards, now),
                accounts@,
                details,
            ) == Outcome::Done(account_views(listed@)),
            Step::Need(needed) => listed_accounts(
                snapshot(srcom_boards, cm_boards, now),
                accounts@,
                details,
            ) == Outcome::<Seq<ExternalAccountView>>::Need(needed@),
        },
{
    let ghost snap = snapshot(srcom_boards, cm_boards, now);
    let ghost steam = accounts.steam_ids@;
    let ghost srcom = user_views(accounts.srcom_ids@);
    let mut listed: Vec<ExternalAccount> = Vec::new();
    proof {
        assert(account_views(listed@) =~= Seq::empty());
    }
    let n = accounts.steam_ids.len();
    let mut i: usize = 0;
    while i < n
        invariant
            i <= n,
            steam_accounts_from(snap.profiles, steam, details, 0, Seq::empty())
                == steam_accounts_from(
                snap.profiles,
                steam,
                details,
                i as int,
                account_views(listed@),
            ),
        decreases n - i,
    {
        let ghost listed_before = account_views(listed@);
        let id = accounts.steam_ids[i];
        let username = if details {
            match cm_boards.cached_profiles.get(&id, now) {
                Some(profile) => match &profile.board_name {
                    Some(name) => name.clone(),
                    None => i64_to_string(id),
                },
                None => {
                    return Step::Need(Needed::Profile(id));
                },
            }
        } else {
            i64_to_string(id)
        };
        listed.push(ExternalAccount::Cm { username, id });
        proof {
            assert(account_views(listed@) =~= listed_before.push(
                ExternalAccountView::Cm { username: username@, id },
            ));
        }
        i = i + 1;
    }
    let ghost after_steam = account_views(listed@);
    let m = accounts.srcom_ids.len();
    let mut k: usize = 0;
    while k < m
        invariant
            k <= m,
            srcom_accounts_from(snap.users, srcom, details, 0, after_steam)
                == srcom_accounts_from(
                snap.users,
                srcom,
                details,
                k as int,
                account_views(listed@),
            ),
        decreases m - k,
    {
        let ghost listed_before = account_views(listed@);
        let id = accounts.srcom_ids[k];
        let account = if details {
            match srcom_boards.cached_users.get(&id, now) {
                Some(user) => ExternalAccount::Srcom {
                    username: user.names.international.clone(),
                    id,
                    link: user.weblink.clone(),
                },
                None => {
                    return Step::Need(Needed::User(id));
                },
            }
        } else {
            ExternalAccount::Srcom { username: id.to_string(), id, link: id.to_string() }
        };
        let ghost account_view = account@;
        listed.push(account);
        proof {
            assert(account_views(listed@) =~= listed_before.push(account_view));
        }
        k = k + 1;
    }
    Step::Done(listed)
}

/// Whether `result` is what the analysis of the user `discord_id` at `now`
/// comes to, and `after` is the state `before` with, at most, more answers
/// on record.
pub open spec fn analyzed_at<'a>(
    result: Result<Step<AnalyzedUser<'a>>, RoleManagerError>,
    before: &SrComBoardsState,
    after: &SrComBoardsState,
    cm_boards: &CmBoardsState,
    discord_id: u64,
    role_definition: &RoleDefinition,
    connections: Seq<VerifiedConnection>,
    details: bool,
    now: i64,
) -> bool {
    let outcome = analysis(
        snapshot(before, cm_boards, now),
        connections,
        discord_id,
        *role_definition,
        details,
    );
    &&& same_state(before, after)
    &&& match result {
        Ok(Step::Done(user)) => outcome == Outcome::Done(user@),
        Ok(Step::Need(needed)) => outcome == Outcome::<AnalyzedUserView>::Need(needed@),
        Err(e) => outcome matches Outcome::Failed(failure) && describes(failure, e.cause@)
            && !e.report_via_edit,
    }
}

/// Analyses the user `discord_id` against what is cached and fresh at `now`.
///
/// Where something is needed that is not cached or not fresh, the analysis
/// stops and says what: the caller fetches it, stores it and calls again.
/// Nothing that is cached changes, but that leaderboards keep the answers to
/// the searches that were made on them.
pub fn analyze_user_at<'a>(
    discord_id: u64,
    role_definition: &'a RoleDefinition,
    connections: &Vec<VerifiedConnection>,
    srcom_boards: &mut SrComBoardsState,
    cm_boards: &CmBoardsState,
    requires_external_details: bool,
    now: i64,
) -> (result: Result<Step<AnalyzedUser<'a>>, RoleManagerError>)
    ensures
        analyzed_at(
            result,
            old(srcom_boards),
            final(srcom_boards),
            cm_boards,
            discord_id,
            role_definition,
            connections@,
            requires_external_details,
            now,
        ),
{
    proof {
        assert(srcom_boards.cached_boards@.dom() =~= srcom_boards.cached_boards@.dom());
    }
    let accounts = match linked_accounts(discord_id, connections) {
        Ok(accounts) => accounts,
        Err(e) => {
            return Err(e);
        },
    };
    let badges = match earned_badges(srcom_boards, cm_boards, &accounts, role_definition, now) {
        Ok(Step::Done(badges)) => badges,
        Ok(Step::Need(needed)) => {
            return Ok(Step::Need(needed));
        },
        Err(e) => {
            return Err(e);
        },
    };
    proof {
        lemma_same_state_snapshot(old(srcom_boards), srcom_boards, cm_boards, now);
    }
    let external_accounts = match list_accounts(
        srcom_boards,
        cm_boards,
        &accounts,
        requires_external_details,
        now,
    ) {
        Step::Done(listed) => listed,
        Step::Need(needed) => {
            return Ok(Step::Need(needed));
        },
    };
    Ok(Step::Done(AnalyzedUser { discord_id, external_accounts, badges }))
}

/// Analyses the user `discord_id` against what is cached and fresh now, by
/// the clock. The result is that of [`analyze_user_at`] for the instant that
/// the clock gave.
pub fn analyze_user<'a>(
    discord_id: u64,
    role_definition: &'a RoleDefinition,
    connections: &Vec<VerifiedConnection>,
    srcom_boards: &mut SrComBoardsState,
    cm_boards: &CmBoardsState,
    requires_external_details: bool,
) -> (result: Result<Step<AnalyzedUser<'a>>, RoleManagerError>)
    ensures
        exists|now: i64| #[trigger]
            analyzed_at(
                result,
                old(srcom_boards),
                final(srcom_boards),
                cm_boards,
                discord_id,
                role_definition,
                connections@,
                requires_external_details,
                now,
            ),
{
    let now = clock_seconds();
    analyze_user_at(
        discord_id,
        role_definition,
        connections,
        srcom_boards,
        cm_boards,
        requires_external_details,
        now,
    )
}

/// Whether a met requirement stands where its index says, in `badge`, and is
/// not manual.
pub open spec fn met_fits(met: MetRequirementView, badge: BadgeDefinition) -> bool {
    &&& 0 <= met.index < badge.requirements@.len()
    &&& met.definition == badge.requirements@[met.index]
    &&& !(met.definition is Manual)
}

/// Whether an earned badge stands where its index says, in `badges`, and has
/// a requirement that is met; and each of its met requirements fits.
pub open spec fn badge_fits(badge: BadgeView, badges: Seq<BadgeDefinition>) -> bool {
    &&& 0 <= badge.index < badges.len()
    &&& badge.definition == badges[badge.index]
    &&& badge.met_requirements.len() > 0
    &&& forall|k: int|
        0 <= k < badge.met_requirements.len() ==> met_fits(
            #[trigger] badge.met_requirements[k],
            badge.definition,
        )
}

/// A manual requirement is never met, whatever is cached.
pub proof fn lemma_manual_never_met(
    snap: Snapshot,
    steam: Seq<i64>,
    srcom: Seq<Seq<u8>>,
    badge: Seq<char>,
)
    ensures
        requirement_outcome(snap, steam, srcom, badge, RequirementDefinition::Manual)
            == Outcome::<Option<CauseView>>::Done(None),
{
}

/// Every requirement that is found met is a requirement of the badge, stands
/// at its index, and is not manual.
pub proof fn lemma_met_fit(
    snap: Snapshot,
    accounts: AccountsView,
    badge: BadgeDefinition,
    j: int,
    met: Seq<MetRequirementView>,
)
    requires
        0 <= j,
        forall|k: int| 0 <= k < met.len() ==> met_fits(#[trigger] met[k], badge),
    ensures
        met_from(snap, accounts, badge, j, met) matches Outcome::Done(all) ==> forall|k: int|
            0 <= k < all.len() ==> met_fits(#[trigger] all[k], badge),
    decreases badge.requirements@.len() - j,
{
    if j < badge.requirements@.len() {
        match requirement_outcome(
            snap,
            accounts.steam,
            accounts.srcom,
            badge.name@,
            badge.requirements@[j],
        ) {
            Outcome::Done(cause) => {
                let next = match cause {
                    Some(c) => met.push(
                        MetRequirementView {
                            index: j,
                            definition: badge.requirements@[j],
                            cause: c,
                        },
                    ),
                    None => met,
                };
                lemma_met_fit(snap, accounts, badge, j + 1, next);
            },
            _ => {},
        }
    }
}

/// Every badge that is found earned is a badge of the definition, stands at
/// its index, and has a requirement that is met and is not manual. So a
/// badge of which every requirement is manual is never earned.
pub proof fn lemma_earned_fit(
    snap: Snapshot,
    accounts: AccountsView,
    badges: Seq<BadgeDefinition>,
    i: int,
    earned: Seq<BadgeView>,
)
    requires
        0 <= i,
        forall|k: int| 0 <= k < earned.len() ==> badge_fits(#[trigger] earned[k], badges),
    ensures
        earned_from(snap, accounts, badges, i, earned) matches Outcome::Done(all) ==> forall|
            k: int,
        |
            0 <= k < all.len() ==> badge_fits(#[trigger] all[k], badges),
    decreases badges.len() - i,
{
    if i < badges.len() {
        lemma_met_fit(snap, accounts, badges[i], 0, Seq::empty());
        match met_from(snap, accounts, badges[i], 0, Seq::empty()) {
            Outcome::Done(met) => {
                let next = if met.len() > 0 {
                    earned.push(BadgeView { index: i, definition: badges[i], met_requirements: met })
                } else {
                    earned
                };
                lemma_earned_fit(snap, accounts, badges, i + 1, next);
            },
            _ => {},
        }
    }
}

/// A badge whose requirements are all manual is not among the badges of any
/// analysis, and it is never taken away automatically if it has a
/// requirement at all.
pub proof fn lemma_manual_badge_never_earned(
    snap: Snapshot,
    connections: Seq<VerifiedConnection>,
    discord_id: u64,
    definition: RoleDefinition,
    details: bool,
    i: int,
)
    requires
        0 <= i < definition.badges@.len(),
        forall|j: int|
            0 <= j < definition.badges@[i].requirements@.len()
                ==> definition.badges@[i].requirements@[j] is Manual,
    ensures
        analysis(snap, connections, discord_id, definition, details) matches Outcome::Done(user)
            ==> forall|k: int| 0 <= k < user.badges.len() ==> (#[trigger] user.badges[k]).index != i,
        definition.badges@[i].requirements@.len() > 0
            ==> !definition.badges@[i].spec_can_autoremove(),
{
    match spec_linked_accounts(connections, discord_id) {
        Ok(accounts) => {
            lemma_earned_fit(snap, accounts, definition.badges@, 0, Seq::empty());
            match earned_from(snap, accounts, definition.badges@, 0, Seq::empty()) {
                Outcome::Done(badges) => {
                    assert forall|k: int| 0 <= k < badges.len() implies (#[trigger] badges[k]).index
                        != i by {
                        assert(badge_fits(badges[k], definition.badges@));
                        if badges[k].index == i {
                            assert(met_fits(badges[k].met_requirements[0], badges[k].definition));
                        }
                    }
                },
                _ => {},
            }
        },
        Err(_) => {},
    }
    if definition.badges@[i].requirements@.len() > 0 {
        assert(definition.badges@[i].requirements@[0] is Manual);
    }
}

} // verus!
