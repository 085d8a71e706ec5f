//! Evaluation of badge definitions against users' linked accounts.

pub mod describe;
pub mod evaluation;
pub mod role_definition;
pub mod user;

use vstd::prelude::*;
use vstd::string::*;
use crate::analyzer::describe::{format_outcome, names, Names};
use crate::analyzer::evaluation::{
    lemma_same_boards_transitive, lemma_same_state_snapshot, same_state, snapshot, Outcome,
    Snapshot, Step,
};
use crate::analyzer::role_definition::{BadgeDefinition, RoleDefinition};
use crate::analyzer::user::{
    analysis, analyze_user_at, describes, AnalyzedUser, AnalyzedUserBadge, AnalyzedUserView,
    BadgeView, ExternalAccount, ExternalAccountView, MetRequirement, MetRequirementView,
};
use crate::boards::cm::CmBoardsState;
use crate::boards::srcom::SrComBoardsState;
use crate::error::RoleManagerError;
use crate::model::VerifiedConnection;
use crate::text::{decimal, join, joined, texts, u64_to_string};

verus! {

/// How often a badge has been earned, and each of its requirements met.
#[derive(Debug)]
pub struct BadgeAnalysis {
    pub count: u32,
    pub requirement_counts: Vec<u32>,
}

/// The counts of a report. Every count stops at the largest number of its
/// type.
pub struct ReportCounts {
    pub total_users: u64,
    pub steam_users: u64,
    pub srcom_users: u64,
    pub badges: Seq<BadgeCounts>,
}

/// The counts of one badge.
pub struct BadgeCounts {
    pub count: u32,
    pub requirements: Seq<u32>,
}

/// What a number of analyses add up to: how many users were analysed, how
/// many of them have linked an account of each provider, and how often each
/// badge was earned and each requirement met.
#[derive(Debug)]
pub struct RoleDefinitionReport {
    pub definition: RoleDefinition,
    pub badge_analyses: Vec<BadgeAnalysis>,
    pub total_users: u64,
    pub steam_users: u64,
    pub srcom_users: u64,
}

/// One more, unless `n` is the largest number.
pub open spec fn next_u32(n: u32) -> u32 {
    if n < u32::MAX {
        (n + 1) as u32
    } else {
        n
    }
}

/// One more, unless `n` is the largest number.
pub open spec fn next_u64(n: u64) -> u64 {
    if n < u64::MAX {
        (n + 1) as u64
    } else {
        n
    }
}

/// The counts of a list of badge analyses.
pub open spec fn badge_counts(analyses: Seq<BadgeAnalysis>) -> Seq<BadgeCounts> {
    analyses.map_values(
        |a: BadgeAnalysis| BadgeCounts { count: a.count, requirements: a.requirement_counts@ },
    )
}

/// The counts without any analysis, for badges with as many requirements
/// each as `badges` have.
pub open spec fn no_counts(badges: Seq<BadgeDefinition>) -> Seq<BadgeCounts> {
    Seq::new(
        badges.len(),
        |i: int|
            BadgeCounts {
                count: 0,
                requirements: Seq::new(badges[i].requirements@.len(), |j: int| 0u32),
            },
    )
}

/// Whether the counts have the shape of `badges`: one for each badge, with
/// one for each of its requirements.
pub open spec fn fits_definition(counts: Seq<BadgeCounts>, badges: Seq<BadgeDefinition>) -> bool {
    &&& counts.len() == badges.len()
    &&& forall|i: int|
        0 <= i < counts.len() ==> (#[trigger] counts[i]).requirements.len()
            == badges[i].requirements@.len()
}

/// The counts of requirements `counts` with one more for each met
/// requirement of `met` from position `j` on. A met requirement whose index
/// names no count is passed over.
pub open spec fn count_met_from(counts: Seq<u32>, met: Seq<MetRequirementView>, j: int) -> Seq<
    u32,
>
    decreases met.len() - j,
{
    if 0 <= j < met.len() {
        let at = met[j].index;
        count_met_from(
            if 0 <= at < counts.len() {
                counts.update(at, next_u32(counts[at]))
            } else {
                counts
            },
            met,
            j + 1,
        )
    } else {
        counts
    }
}

/// The counts of badges `counts` with one more for each earned badge of
/// `badges` from position `i` on, and for each of its met requirements. A
/// badge whose index names no count is passed over.
pub open spec fn count_badges_from(counts: Seq<BadgeCounts>, badges: Seq<BadgeView>, i: int) -> Seq<
    BadgeCounts,
>
    decreases badges.len() - i,
{
    if 0 <= i < badges.len() {
        let at = badges[i].index;
        count_badges_from(
            if 0 <= at < counts.len() {
                counts.update(
                    at,
                    BadgeCounts {
                        count: next_u32(counts[at].count),
                        requirements: count_met_from(
                            counts[at].requirements,
                            badges[i].met_requirements,
                            0,
                        ),
                    },
                )
            } else {
                counts
            },
            badges,
            i + 1,
        )
    } else {
        counts
    }
}

/// Whether one of `accounts` is a steam account.
pub open spec fn has_steam(accounts: Seq<ExternalAccountView>) -> bool {
    exists|i: int| 0 <= i < accounts.len() && #[trigger] accounts[i] is Cm
}

/// Whether one of `accounts` is an account of the speedrunning board.
pub open spec fn has_srcom(accounts: Seq<ExternalAccountView>) -> bool {
    exists|i: int| 0 <= i < accounts.len() && #[trigger] accounts[i] is Srcom
}

/// The counts `counts` with the analysis `user` added.
pub open spec fn recorded(counts: ReportCounts, user: AnalyzedUserView) -> ReportCounts {
    ReportCounts {
        total_users: next_u64(counts.total_users),
        steam_users: if has_steam(user.external_accounts) {
            next_u64(counts.steam_users)
        } else {
            counts.steam_users
        },
        srcom_users: if has_srcom(user.external_accounts) {
            next_u64(counts.srcom_users)
        } else {
            counts.srcom_users
        },
        badges: count_badges_from(counts.badges, user.badges, 0),
    }
}

fn bump_u32(n: u32) -> (next: u32)
    ensures
        next == next_u32(n),
{
    if n < u32::MAX {
        n + 1
    } else {
        n
    }
}

fn bump_u64(n: u64) -> (next: u64)
    ensures
        next == next_u64(n),
{
    if n < u64::MAX {
        n + 1
    } else {
        n
    }
}

fn any_steam(accounts: &Vec<ExternalAccount>) -> (found: bool)
    ensures
        found == has_steam(crate::analyzer::user::account_views(accounts@)),
{
    let n = accounts.len();
    let mut i: usize = 0;
    while i < n
        invariant
            i <= n,
            n == accounts@.len(),
            forall|k: int| 0 <= k < i ==> !(accounts@[k]@ is Cm),
        decreases n - i,
    {
        if let ExternalAccount::Cm { .. } = &accounts[i] {
            assert(crate::analyzer::user::account_views(accounts@)[i as int] is Cm);
            return true;
        }
        i = i + 1;
    }
    false
}

fn any_srcom(accounts: &Vec<ExternalAccount>) -> (found: bool)
    ensures
        found == has_srcom(crate::analyzer::user::account_views(accounts@)),
{
    let n = accounts.len();
    let mut i: usize = 0;
    while i < n
        invariant
            i <= n,
            n == accounts@.len(),
            forall|k: int| 0 <= k < i ==> !(accounts@[k]@ is Srcom),
        decreases n - i,
    {
        if let ExternalAccount::Srcom { .. } = &accounts[i] {
            assert(crate::analyzer::user::account_views(accounts@)[i as int] is Srcom);
            return true;
        }
        i = i + 1;
    }
    false
}

fn count_met<'a>(counts: &mut Vec<u32>, met: &Vec<MetRequirement<'a>>)
    ensures
        final(counts)@ == count_met_from(
            old(counts)@,
            crate::analyzer::user::met_views(met@),
            0,
        ),
        final(counts)@.len() == old(counts)@.len(),
{
    let ghost views = crate::analyzer::user::met_views(met@);
    let n = met.len();
    let mut j: usize = 0;
    while j < n
        invariant
            j <= n,
            n == met@.len(),
            views == crate::analyzer::user::met_views(met@),
            counts@.len() == old(counts)@.len(),
            count_met_from(old(counts)@, views, 0) == count_met_from(counts@, views, j as int),
        decreases n - j,
    {
        let at = met[j].index;
        if at < counts.len() {
            let next = bump_u32(counts[at]);
            counts[at] = next;
        }
        j = j + 1;
    }
}

/// Adds the badges of one analysis to the counts of badges.
fn count_badges<'a>(analyses: &mut Vec<BadgeAnalysis>, badges: &Vec<AnalyzedUserBadge<'a>>)
    ensures
        badge_counts(final(analyses)@) == count_badges_from(
            badge_counts(old(analyses)@),
            crate::analyzer::user::badge_views(badges@),
            0,
        ),
        forall|badges: Seq<BadgeDefinition>|
            fits_definition(badge_counts(old(analyses)@), badges) ==> fits_definition(
                badge_counts(final(analyses)@),
                badges,
            ),
{
    let ghost views = crate::analyzer::user::badge_views(badges@);
    let ghost start = badge_counts(analyses@);
    let n = badges.len();
    let mut i: usize = 0;
    while i < n
        invariant
            i <= n,
            n == badges@.len(),
            views == crate::analyzer::user::badge_views(badges@),
            start == badge_counts(old(analyses)@),
            badge_counts(analyses@).len() == start.len(),
            forall|k: int|
                0 <= k < start.len() ==> (#[trigger] badge_counts(analyses@)[k]).requirements.len()
                    == start[k].requirements.len(),
            count_badges_from(start, views, 0) == count_badges_from(
                badge_counts(analyses@),
                views,
                i as int,
            ),
        decreases n - i,
    {
        let ghost before = badge_counts(analyses@);
        let at = badges[i].index;
        if at < analyses.len() {
            let mut taken = BadgeAnalysis { count: 0, requirement_counts: Vec::new() };
            std::mem::swap(&mut analyses[at], &mut taken);
            let BadgeAnalysis { count, mut requirement_counts } = taken;
            count_met(&mut requirement_counts, &badges[i].met_requirements);
            let updated = BadgeAnalysis { count: bump_u32(count), requirement_counts };
            analyses[at] = updated;
            proof {
                assert(badge_counts(analyses@) =~= before.update(
                    at as int,
                    BadgeCounts {
                        count: next_u32(before[at as int].count),
                        requirements: count_met_from(
                            before[at as int].requirements,
                            views[i as int].met_requirements,
                            0,
                        ),
                    },
                ));
            }
        }
        i = i + 1;
    }
}

impl RoleDefinitionReport {
    /// The counts of the report.
    pub open spec fn counts(&self) -> ReportCounts {
        ReportCounts {
            total_users: self.total_users,
            steam_users: self.steam_users,
            srcom_users: self.srcom_users,
            badges: badge_counts(self.badge_analyses@),
        }
    }

    /// Whether the report has a count for each badge of its definition and
    /// for each requirement of each badge.
    pub open spec fn well_formed(&self) -> bool {
        fits_definition(badge_counts(self.badge_analyses@), self.definition.badges@)
    }

    /// A report on `definition` without any analysis: every count is zero.
    pub fn new(definition: RoleDefinition) -> (report: Self)
        ensures
            report.definition == definition,
            report.total_users == 0,
            report.steam_users == 0,
            report.srcom_users == 0,
            badge_counts(report.badge_analyses@) == no_counts(definition.badges@),
            report.well_formed(),
    {
        let mut badge_analyses: Vec<BadgeAnalysis> = Vec::new();
        let n = definition.badges.len();
        let mut i: usize = 0;
        while i < n
            invariant
                i <= n,
                n == definition.badges@.len(),
                badge_counts(badge_analyses@) == no_counts(definition.badges@).take(i as int),
            decreases n - i,
        {
            let ghost before = badge_counts(badge_analyses@);
            let mut requirement_counts: Vec<u32> = Vec::new();
            let m = definition.badges[i].requirements.len();
            let mut j: usize = 0;
            while j < m
                invariant
                    j <= m,
                    requirement_counts@ == Seq::new(j as nat, |k: int| 0u32),
                decreases m - j,
            {
                requirement_counts.push(0);
                j = j + 1;
                assert(requirement_counts@ =~= Seq::new(j as nat, |k: int| 0u32));
            }
            proof {
                assert(requirement_counts@ =~= no_counts(
                    definition.badges@,
                )[i as int].requirements);
            }
            badge_analyses.push(BadgeAnalysis { count: 0, requirement_counts });
            proof {
                let target = no_counts(definition.badges@).take(i + 1);
                let now = badge_counts(badge_analyses@);
                assert(no_counts(definition.badges@).len() == n);
                assert(before.len() == i);
                assert(now.len() == i + 1);
                assert(now.len() == target.len());
                assert forall|k: int| 0 <= k < now.len() implies now[k] == target[k] by {
                    if k < i {
                        assert(now[k] == before[k]);
                        assert(before[k] == no_counts(definition.badges@).take(i as int)[k]);
                    } else {
                        assert(now[k].requirements == target[k].requirements);
                    }
                }
                assert(now =~= target);
            }
            i = i + 1;
        }
        proof {
            assert(no_counts(definition.badges@).take(n as int) =~= no_counts(
                definition.badges@,
            ));
        }
        RoleDefinitionReport {
            definition,
            badge_analyses,
            total_users: 0,
            steam_users: 0,
            srcom_users: 0,
        }
    }

    /// Adds one analysis to the counts: the user, the providers of which the
    /// user has linked an account, each earned badge and each met
    /// requirement.
    pub fn record<'a>(&mut self, analysis: &AnalyzedUser<'a>)
        ensures
            final(self).counts() == recorded(old(self).counts(), analysis@),
            final(self).definition == old(self).definition,
            old(self).well_formed() ==> final(self).well_formed(),
    {
        self.total_users = bump_u64(self.total_users);
        if any_steam(&analysis.external_accounts) {
            self.steam_users = bump_u64(self.steam_users);
        }
        if any_srcom(&analysis.external_accounts) {
            self.srcom_users = bump_u64(self.srcom_users);
        }
        count_badges(&mut self.badge_analyses, &analysis.badges);
    }
}

/// The counts `counts` with the analyses of the users from position `i`
/// on. The first need or failure ends the work.
pub open spec fn report_from(
    snap: Snapshot,
    definition: RoleDefinition,
    connections: Seq<VerifiedConnection>,
    users: Seq<u64>,
    i: int,
    counts: ReportCounts,
) -> Outcome<ReportCounts>
    decreases users.len() - i,
{
    if 0 <= i < users.len() {
        match analysis(snap, connections, users[i], definition, false) {
            Outcome::Done(user) => report_from(
                snap,
                definition,
                connections,
                users,
                i + 1,
                recorded(counts, user),
            ),
            Outcome::Need(needed) => Outcome::Need(needed),
            Outcome::Failed(failure) => Outcome::Failed(failure),
        }
    } else {
        Outcome::Done(counts)
    }
}

/// What the analysis of all of `users` comes to: the counts of a report.
pub open spec fn full_report(
    snap: Snapshot,
    definition: RoleDefinition,
    connections: Seq<VerifiedConnection>,
    users: Seq<u64>,
) -> Outcome<ReportCounts> {
    report_from(
        snap,
        definition,
        connections,
        users,
        0,
        ReportCounts {
            total_users: 0,
            steam_users: 0,
            srcom_users: 0,
            badges: no_counts(definition.badges@),
        },
    )
}

/// Analyses each of `users` against what is cached and fresh at `now`, and
/// adds the analyses up.
///
/// Where something is needed that is not cached or not fresh, the work stops
/// and says what: the caller fetches it, stores it and calls again.
pub fn full_analysis(
    definition: RoleDefinition,
    connections: &Vec<VerifiedConnection>,
    users: &Vec<u64>,
    srcom_state: &mut SrComBoardsState,
    cm_state: &CmBoardsState,
    now: i64,
) -> (result: Result<Step<RoleDefinitionReport>, RoleManagerError>)
    ensures
        same_state(old(srcom_state), final(srcom_state)),
        match result {
            Ok(Step::Done(report)) => report.definition == definition && report.well_formed()
                && full_report(
                snapshot(old(srcom_state), cm_state, now),
                definition,
                connections@,
                users@,
            ) == Outcome::Done(report.counts()),
            Ok(Step::Need(needed)) => full_report(
                snapshot(old(srcom_state), cm_state, now),
                definition,
                connections@,
                users@,
            ) == Outcome::<ReportCounts>::Need(needed@),
            Err(e) => full_report(
                snapshot(old(srcom_state), cm_state, now),
                definition,
                connections@,
                users@,
            ) matches Outcome::Failed(failure) && describes(failure, e.cause@)
                && !e.report_via_edit,
        },
{
    let ghost snap = snapshot(srcom_state, cm_state, now);
    let ghost whole = full_report(snap, definition, connections@, users@);
    let mut report = RoleDefinitionReport::new(definition);
    let n = users.len();
    let mut i: usize = 0;
    proof {
        assert(srcom_state.cached_boards@.dom() =~= srcom_state.cached_boards@.dom());
    }
    while i < n
        invariant
            i <= n,
            n == users@.len(),
            snap == snapshot(old(srcom_state), cm_state, now),
            same_state(old(srcom_state), srcom_state),
            report.definition == definition,
            report.well_formed(),
            whole == full_report(snap, definition, connections@, users@),
            whole == report_from(
                snap,
                definition,
                connections@,
                users@,
                i as int,
                report.counts(),
            ),
        decreases n - i,
    {
        let ghost before = *srcom_state;
        proof {
            lemma_same_state_snapshot(old(srcom_state), srcom_state, cm_state, now);
        }
        let analyzed = analyze_user_at(
            users[i],
            &report.definition,
            connections,
            srcom_state,
            cm_state,
            false,
            now,
        );
        proof {
            lemma_same_boards_transitive(
                old(srcom_state).cached_boards@,
                before.cached_boards@,
                srcom_state.cached_boards@,
            );
        }
        match analyzed {
            Ok(Step::Done(user)) => {
                report.total_users = bump_u64(report.total_users);
                if any_steam(&user.external_accounts) {
                    report.steam_users = bump_u64(report.steam_users);
                }
                if any_srcom(&user.external_accounts) {
                    report.srcom_users = bump_u64(report.srcom_users);
                }
                count_badges(&mut report.badge_analyses, &user.badges);
            },
            Ok(Step::Need(needed)) => {
                return Ok(Step::Need(needed));
            },
            Err(e) => {
                return Err(e);
            },
        }
        i = i + 1;
    }
    Ok(Step::Done(report))
}

/// The line of a requirement in a summary: its description, and how often it
/// was met among how many times the badge was earned.
pub open spec fn requirement_line(description: Seq<char>, met: u32, earned: u32) -> Seq<char> {
    description + " - **"@ + decimal(met as nat) + "/"@ + decimal(earned as nat) + "**"@
}

/// The lines `lines` with those of the requirements of `badge` from position
/// `j` on.
pub open spec fn lines_from(
    known: Names,
    badge: BadgeDefinition,
    counts: BadgeCounts,
    j: int,
    lines: Seq<Seq<char>>,
) -> Outcome<Seq<Seq<char>>>
    decreases badge.requirements@.len() - j,
{
    if 0 <= j < badge.requirements@.len() {
        match format_outcome(known, badge.requirements@[j]) {
            Outcome::Done(description) => lines_from(
                known,
                badge,
                counts,
                j + 1,
                lines.push(requirement_line(description, counts.requirements[j], counts.count)),
            ),
            Outcome::Need(needed) => Outcome::Need(needed),
            Outcome::Failed(failure) => Outcome::Failed(failure),
        }
    } else {
        Outcome::Done(lines)
    }
}

/// The title of a badge in a summary: its name and how often it was earned.
pub open spec fn badge_title(name: Seq<char>, earned: u32) -> Seq<char> {
    name + " - "@ + decimal(earned as nat)
}

/// The fields `fields` with those of the badges from position `i` on: for
/// each badge its title and the lines of its requirements, one below the
/// other.
pub open spec fn summary_from(
    known: Names,
    badges: Seq<BadgeDefinition>,
    counts: Seq<BadgeCounts>,
    i: int,
    fields: Seq<(Seq<char>, Seq<char>)>,
) -> Outcome<Seq<(Seq<char>, Seq<char>)>>
    decreases badges.len() - i,
{
    if 0 <= i < badges.len() {
        match lines_from(known, badges[i], counts[i], 0, Seq::empty()) {
            Outcome::Done(lines) => summary_from(
                known,
                badges,
                counts,
                i + 1,
                fields.push(
                    (badge_title(badges[i].name@, counts[i].count), joined(lines, "\n"@)),
                ),
            ),
            Outcome::Need(needed) => Outcome::Need(needed),
            Outcome::Failed(failure) => Outcome::Failed(failure),
        }
    } else {
        Outcome::Done(fields)
    }
}

/// The lines of the requirements of one badge.
#[verifier::loop_isolation(false)]
fn requirement_lines(
    badge: &BadgeDefinition,
    summary: &BadgeAnalysis,
    srcom_state: &SrComBoardsState,
    now: i64,
) -> (result: Result<Step<Vec<String>>, RoleManagerError>)
    requires
        summary.requirement_counts@.len() == badge.requirements@.len(),
    ensures
        match result {
            Ok(Step::Done(lines)) => lines_from(
                names(srcom_state, now),
                *badge,
                BadgeCounts { count: summary.count, requirements: summary.requirement_counts@ },
                0,
                Seq::empty(),
            ) == Outcome::Done(texts(lines@)),
            Ok(Step::Need(needed)) => lines_from(
                names(srcom_state, now),
                *badge,
                BadgeCounts { count: summary.count, requirements: summary.requirement_counts@ },
                0,
                Seq::empty(),
            ) == Outcome::<Seq<Seq<char>>>::Need(needed@),
            Err(e) => lines_from(
                names(srcom_state, now),
                *badge,
                BadgeCounts { count: summary.count, requirements: summary.requirement_counts@ },
                0,
                Seq::empty(),
            ) matches Outcome::Failed(failure) && describes(failure, e.cause@)
                && !e.report_via_edit,
        },
{
    let ghost known = names(srcom_state, now);
    let ghost counts = BadgeCounts {
        count: summary.count,
        requirements: summary.requirement_counts@,
    };
    let mut lines: Vec<String> = Vec::new();
    proof {
        assert(texts(lines@) =~= Seq::empty());
    }
    let n = badge.requirements.len();
    let mut j: usize = 0;
    while j < n
        invariant
            j <= n,
            lines_from(known, *badge, counts, 0, Seq::empty()) == lines_from(
                known,
                *badge,
                counts,
                j as int,
                texts(lines@),
            ),
        decreases n - j,
    {
        let ghost before = texts(lines@);
        let description = match badge.requirements[j].format(srcom_state, now) {
            Ok(Step::Done(description)) => description,
            Ok(Step::Need(needed)) => {
                return Ok(Step::Need(needed));
            },
            Err(e) => {
                return Err(e);
            },
        };
        let mut line = description;
        line.append(" - **");
        let met = u64_to_string(summary.requirement_counts[j] as u64);
        line.append(met.as_str());
        line.append("/");
        let earned = u64_to_string(summary.count as u64);
        line.append(earned.as_str());
        line.append("**");
        lines.push(line);
        proof {
            assert(texts(lines@) =~= before.push(line@));
        }
        j = j + 1;
    }
    Ok(Step::Done(lines))
}

impl RoleDefinitionReport {
    /// The summary of the report: for each badge a title and the lines of
    /// its requirements, with the names that are cached and fresh at `now`.
    #[verifier::loop_isolation(false)]
    pub fn badge_summary(&self, srcom_state: &SrComBoardsState, now: i64) -> (result: Result<
        Step<Vec<(String, String)>>,
        RoleManagerError,
    >)
        requires
            self.well_formed(),
        ensures
            match result {
                Ok(Step::Done(fields)) => summary_from(
                    names(srcom_state, now),
                    self.definition.badges@,
                    self.counts().badges,
                    0,
                    Seq::empty(),
                ) == Outcome::Done(crate::boards::request::pair_texts(fields@)),
                Ok(Step::Need(needed)) => summary_from(
                    names(srcom_state, now),
                    self.definition.badges@,
                    self.counts().badges,
                    0,
                    Seq::empty(),
                ) == Outcome::<Seq<(Seq<char>, Seq<char>)>>::Need(needed@),
                Err(e) => summary_from(
                    names(srcom_state, now),
                    self.definition.badges@,
                    self.counts().badges,
                    0,
                    Seq::empty(),
                ) matches Outcome::Failed(failure) && describes(failure, e.cause@)
                    && !e.report_via_edit,
            },
    {
        let ghost known = names(srcom_state, now);
        let ghost counts = self.counts().badges;
        let mut fields: Vec<(String, String)> = Vec::new();
        proof {
            assert(crate::boards::request::pair_texts(fields@) =~= Seq::empty());
        }
        let n = self.definition.badges.len();
        let mut i: usize = 0;
        while i < n
            invariant
                i <= n,
                summary_from(known, self.definition.badges@, counts, 0, Seq::empty())
                    == summary_from(
                    known,
                    self.definition.badges@,
                    counts,
                    i as int,
                    crate::boards::request::pair_texts(fields@),
                ),
            decreases n - i,
        {
            let ghost before = crate::boards::request::pair_texts(fields@);
            let badge = &self.definition.badges[i];
            let summary = &self.badge_analyses[i];
            assert(counts[i as int].requirements == summary.requirement_counts@);
            let lines = match requirement_lines(badge, summary, srcom_state, now) {
                Ok(Step::Done(lines)) => lines,
                Ok(Step::Need(needed)) => {
                    return Ok(Step::Need(needed));
                },
                Err(e) => {
                    return Err(e);
                },
            };
            let mut title = badge.name.clone();
            title.append(" - ");
            let earned = u64_to_string(summary.count as u64);
            title.append(earned.as_str());
            let body = join(&lines, "\n");
            fields.push((title, body));
            proof {
                assert(crate::boards::request::pair_texts(fields@) =~= before.push(
                    (title@, body@),
                ));
            }
            i = i + 1;
        }
        Ok(Step::Done(fields))
    }
}

} // verus!
