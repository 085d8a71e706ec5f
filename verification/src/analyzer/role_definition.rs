//! Badge definitions: what a user has to show to earn a badge.

use vstd::prelude::*;
use vstd::string::*;
use crate::boards::srcom::category::CategoryId;
use crate::boards::srcom::game::GameId;
use crate::boards::srcom::variable::{VariableId, VariableValueId};
use crate::key::Key;
use crate::text::{decimal, u64_to_string};

verus! {

/// The badges of a community, in the order in which they are reported.
#[derive(Debug)]
pub struct RoleDefinition {
    pub badges: Vec<BadgeDefinition>,
}

/// A badge: a name and the requirements of which one has to be met.
#[derive(Debug)]
pub struct BadgeDefinition {
    pub name: String,
    pub requirements: Vec<RequirementDefinition>,
}

impl BadgeDefinition {
    /// Whether none of the requirements is manual.
    pub open spec fn spec_can_autoremove(&self) -> bool {
        forall|i: int| 0 <= i < self.requirements@.len() ==> !(self.requirements@[i] is Manual)
    }

    /// Whether the badge may be taken away automatically: a badge with a
    /// manual requirement never is.
    pub fn can_autoremove(&self) -> (removable: bool)
        ensures
            removable == self.spec_can_autoremove(),
    {
        let n = self.requirements.len();
        let mut i: usize = 0;
        while i < n
            invariant
                i <= n,
                n == self.requirements@.len(),
                forall|j: int| 0 <= j < i ==> !(self.requirements@[j] is Manual),
            decreases n - i,
        {
            if let RequirementDefinition::Manual = self.requirements[i] {
                return false;
            }
            i = i + 1;
        }
        true
    }
}

/// One condition of a badge.
#[derive(Debug)]
pub enum RequirementDefinition {
    /// Granted by hand only.
    Manual,
    /// A run among the best of a leaderboard.
    Rank(RankRequirement),
    /// A run at least as fast as a given time.
    Time(TimeRequirement),
    /// A total on an aggregated board of the puzzle board.
    Points { leaderboard: CmLeaderboard, points: u64 },
    /// Activity within the last months.
    Recent(RecentRequirement),
}

impl RequirementDefinition {
    /// The text of [`Self::short_description`].
    pub open spec fn spec_short_description(&self) -> Seq<char> {
        match *self {
            RequirementDefinition::Manual => "Manual"@,
            RequirementDefinition::Rank(RankRequirement::Srcom { game, top, .. }) => "SRC "@
                + game@ + " Top "@ + decimal(top as nat),
            RequirementDefinition::Time(TimeRequirement::Srcom { game, time, .. }) => "SRC "@
                + game@ + " Sub "@ + time@,
            RequirementDefinition::Points { leaderboard, points } => leaderboard.spec_name()
                + " "@ + decimal(points as nat) + "p"@,
            RequirementDefinition::Recent(RecentRequirement::Srcom { game, .. }) => "SRC "@
                + game@ + " Recent"@,
            RequirementDefinition::Recent(RecentRequirement::Cm { .. }) => "CM Recent"@,
        }
    }

    /// A few words that name the requirement, as the reason of a role change.
    pub fn short_description(&self) -> (text: String)
        ensures
            text@ == self.spec_short_description(),
    {
        match self {
            RequirementDefinition::Manual => String::from_str("Manual"),
            RequirementDefinition::Rank(RankRequirement::Srcom { game, top, .. }) => {
                let mut text = String::from_str("SRC ");
                text.append(game.0.as_str());
                text.append(" Top ");
                let number = u64_to_string(*top);
                text.append(number.as_str());
                text
            },
            RequirementDefinition::Time(TimeRequirement::Srcom { game, time, .. }) => {
                let mut text = String::from_str("SRC ");
                text.append(game.0.as_str());
                text.append(" Sub ");
                text.append(time.as_str());
                text
            },
            RequirementDefinition::Points { leaderboard, points } => {
                let mut text = String::from_str(leaderboard.name());
                text.append(" ");
                let number = u64_to_string(*points);
                text.append(number.as_str());
                text.append("p");
                text
            },
            RequirementDefinition::Recent(RecentRequirement::Srcom { game, .. }) => {
                let mut text = String::from_str("SRC ");
                text.append(game.0.as_str());
                text.append(" Recent");
                text
            },
            RequirementDefinition::Recent(RecentRequirement::Cm { .. }) => String::from_str(
                "CM Recent",
            ),
        }
    }
}

/// The aggregated boards of the puzzle board.
#[derive(Debug, Clone, Copy, PartialEq, Eq, Structural)]
pub enum CmLeaderboard {
    Overall,
    SinglePlayer,
    Coop,
}

impl View for CmLeaderboard {
    type V = CmLeaderboard;

    open spec fn view(&self) -> CmLeaderboard {
        *self
    }
}

impl Key for CmLeaderboard {
    fn same_key(&self, other: &Self) -> (same: bool) {
        *self == *other
    }
}

impl CmLeaderboard {
    /// The name under which the board is shown.
    pub open spec fn spec_name(&self) -> Seq<char> {
        match *self {
            CmLeaderboard::Overall => "Overall"@,
            CmLeaderboard::SinglePlayer => "SP"@,
            CmLeaderboard::Coop => "Co-op"@,
        }
    }

    /// The part of the provider's address that names the board.
    pub open spec fn spec_page(&self) -> Seq<char> {
        match *self {
            CmLeaderboard::Overall => "aggregated/overall"@,
            CmLeaderboard::SinglePlayer => "aggregated/sp"@,
            CmLeaderboard::Coop => "aggregated/coop"@,
        }
    }

    /// The name under which the board is shown.
    pub fn name(&self) -> (text: &'static str)
        ensures
            text@ == self.spec_name(),
    {
        match self {
            CmLeaderboard::Overall => "Overall",
            CmLeaderboard::SinglePlayer => "SP",
            CmLeaderboard::Coop => "Co-op",
        }
    }

    /// The name under which the board is shown, as an owned string.
    pub fn to_string(&self) -> (text: String)
        ensures
            text@ == self.spec_name(),
    {
        String::from_str(self.name())
    }

    /// The part of the provider's address that names the board.
    pub fn page(&self) -> (text: &'static str)
        ensures
            text@ == self.spec_page(),
    {
        match self {
            CmLeaderboard::Overall => "aggregated/overall",
            CmLeaderboard::SinglePlayer => "aggregated/sp",
            CmLeaderboard::Coop => "aggregated/coop",
        }
    }
}

/// The choice of one value of one variable.
#[derive(Debug)]
pub struct VariableDefinition {
    pub variable: VariableId,
    pub choice: VariableValueId,
}

/// The providers.
#[derive(Debug, Clone, Copy, PartialEq, Eq, Structural)]
pub enum Platform {
    Cm,
    Srcom,
}

/// Activity within the last `months` months.
#[derive(Debug)]
pub enum RecentRequirement {
    /// A verified run on a leaderboard of the speedrunning board.
    Srcom {
        game: GameId,
        category: CategoryId,
        variables: Option<Vec<VariableDefinition>>,
        months: u64,
    },
    /// Any activity on the puzzle board.
    Cm { months: u64 },
}

/// A place among the first `top` of a leaderboard.
#[derive(Debug)]
pub enum RankRequirement {
    Srcom {
        game: GameId,
        category: CategoryId,
        variables: Option<Vec<VariableDefinition>>,
        partner: Option<PartnerRestriction>,
        top: u64,
    },
}

/// A run no slower than `time`, a duration in text.
#[derive(Debug)]
pub enum TimeRequirement {
    Srcom {
        game: GameId,
        category: CategoryId,
        variables: Option<Vec<VariableDefinition>>,
        partner: Option<PartnerRestriction>,
        time: String,
    },
}

/// What is asked of the other players of a run.
#[derive(Debug, Clone, Copy, PartialEq, Eq, Structural)]
pub enum PartnerRestriction {
    /// No partner has a run of their own that is placed better than this one.
    RankGte,
}

impl Key for Option<PartnerRestriction> {
    fn same_key(&self, other: &Self) -> (same: bool) {
        match (self, other) {
            (Some(a), Some(b)) => *a == *b,
            (None, None) => true,
            _ => false,
        }
    }
}

/// The choices of a list of chosen values, as texts.
pub open spec fn choice_texts(variables: Seq<VariableDefinition>) -> Seq<(Seq<char>, Seq<char>)> {
    variables.map_values(|v: VariableDefinition| (v.variable@, v.choice@))
}

/// The chosen values of a requirement, as texts.
pub open spec fn chosen_texts(variables: Option<Vec<VariableDefinition>>) -> Option<
    Seq<(Seq<char>, Seq<char>)>,
> {
    match variables {
        Some(list) => Some(choice_texts(list@)),
        None => None,
    }
}

/// A requirement with its strings as texts. Two requirements are the same
/// requirement exactly when they agree in this, wherever they stand.
pub enum RequirementView {
    Manual,
    Rank {
        game: Seq<char>,
        category: Seq<char>,
        variables: Option<Seq<(Seq<char>, Seq<char>)>>,
        partner: Option<PartnerRestriction>,
        top: u64,
    },
    Time {
        game: Seq<char>,
        category: Seq<char>,
        variables: Option<Seq<(Seq<char>, Seq<char>)>>,
        partner: Option<PartnerRestriction>,
        time: Seq<char>,
    },
    Points { leaderboard: CmLeaderboard, points: u64 },
    RecentSrcom {
        game: Seq<char>,
        category: Seq<char>,
        variables: Option<Seq<(Seq<char>, Seq<char>)>>,
        months: u64,
    },
    RecentCm { months: u64 },
}

impl View for RequirementDefinition {
    type V = RequirementView;

    open spec fn view(&self) -> RequirementView {
        match *self {
            RequirementDefinition::Manual => RequirementView::Manual,
            RequirementDefinition::Rank(
                RankRequirement::Srcom { game, category, variables, partner, top },
            ) => RequirementView::Rank {
                game: game@,
                category: category@,
                variables: chosen_texts(variables),
                partner,
                top,
            },
            RequirementDefinition::Time(
                TimeRequirement::Srcom { game, category, variables, partner, time },
            ) => RequirementView::Time {
                game: game@,
                category: category@,
                variables: chosen_texts(variables),
                partner,
                time: time@,
            },
            RequirementDefinition::Points { leaderboard, points } => RequirementView::Points {
                leaderboard,
                points,
            },
            RequirementDefinition::Recent(
                RecentRequirement::Srcom { game, category, variables, months },
            ) => RequirementView::RecentSrcom {
                game: game@,
                category: category@,
                variables: chosen_texts(variables),
                months,
            },
            RequirementDefinition::Recent(RecentRequirement::Cm { months }) => RequirementView::RecentCm {
                months,
            },
        }
    }
}

#[verifier::loop_isolation(false)]
fn same_choices(a: &Option<Vec<VariableDefinition>>, b: &Option<Vec<VariableDefinition>>) -> (same:
    bool)
    ensures
        same == (chosen_texts(*a) == chosen_texts(*b)),
{
    match (a, b) {
        (Some(x), Some(y)) => {
            let n = x.len();
            if n != y.len() {
                proof {
                    assert(choice_texts(x@).len() != choice_texts(y@).len());
                }
                return false;
            }
            let mut i: usize = 0;
            while i < n
                invariant
                    i <= n,
                    n == x@.len(),
                    n == y@.len(),
                    forall|j: int|
                        0 <= j < i ==> choice_texts(x@)[j] == choice_texts(y@)[j],
                decreases n - i,
            {
                if !x[i].variable.same_key(&y[i].variable) || !x[i].choice.same_key(&y[i].choice) {
                    proof {
                        assert(choice_texts(x@)[i as int] != choice_texts(y@)[i as int]);
                    }
                    return false;
                }
                i = i + 1;
            }
            proof {
                assert(choice_texts(x@) =~= choice_texts(y@));
            }
            true
        },
        (None, None) => true,
        _ => false,
    }
}

impl Key for RequirementDefinition {
    fn same_key(&self, other: &Self) -> (same: bool) {
        match (self, other) {
            (RequirementDefinition::Manual, RequirementDefinition::Manual) => true,
            (
                RequirementDefinition::Rank(
                    RankRequirement::Srcom { game, category, variables, partner, top },
                ),
                RequirementDefinition::Rank(
                    RankRequirement::Srcom {
                        game: game2,
                        category: category2,
                        variables: variables2,
                        partner: partner2,
                        top: top2,
                    },
                ),
            ) => {
                game.same_key(game2) && category.same_key(category2) && same_choices(
                    variables,
                    variables2,
                ) && partner.same_key(partner2) && *top == *top2
            },
            (
                RequirementDefinition::Time(
                    TimeRequirement::Srcom { game, category, variables, partner, time },
                ),
                RequirementDefinition::Time(
                    TimeRequirement::Srcom {
                        game: game2,
                        category: category2,
                        variables: variables2,
                        partner: partner2,
                        time: time2,
                    },
                ),
            ) => {
                game.same_key(game2) && category.same_key(category2) && same_choices(
                    variables,
                    variables2,
                ) && partner.same_key(partner2) && time.same_key(time2)
            },
            (
                RequirementDefinition::Points { leaderboard, points },
                RequirementDefinition::Points { leaderboard: leaderboard2, points: points2 },
            ) => *leaderboard == *leaderboard2 && *points == *points2,
            (
                RequirementDefinition::Recent(
                    RecentRequirement::Srcom { game, category, variables, months },
                ),
                RequirementDefinition::Recent(
                    RecentRequirement::Srcom {
                        game: game2,
                        category: category2,
                        variables: variables2,
                        months: months2,
                    },
                ),
            ) => {
                game.same_key(game2) && category.same_key(category2) && same_choices(
                    variables,
                    variables2,
                ) && *months == *months2
            },
            (
                RequirementDefinition::Recent(RecentRequirement::Cm { months }),
                RequirementDefinition::Recent(RecentRequirement::Cm { months: months2 }),
            ) => *months == *months2,
            _ => false,
        }
    }
}

/// The views of a list of requirements.
pub open spec fn requirement_views(requirements: Seq<RequirementDefinition>) -> Seq<
    RequirementView,
> {
    requirements.map_values(|r: RequirementDefinition| r@)
}

/// A badge with its strings as texts. Two badges are the same badge exactly
/// when they agree in this.
pub struct BadgeDefinitionView {
    pub name: Seq<char>,
    pub requirements: Seq<RequirementView>,
}

impl View for BadgeDefinition {
    type V = BadgeDefinitionView;

    open spec fn view(&self) -> BadgeDefinitionView {
        BadgeDefinitionView {
            name: self.name@,
            requirements: requirement_views(self.requirements@),
        }
    }
}

impl Key for BadgeDefinition {
    fn same_key(&self, other: &Self) -> (same: bool) {
        if !self.name.same_key(&other.name) {
            return false;
        }
        let n = self.requirements.len();
        if n != other.requirements.len() {
            proof {
                assert(requirement_views(self.requirements@).len() != requirement_views(
                    other.requirements@,
                ).len());
            }
            return false;
        }
        let mut i: usize = 0;
        while i < n
            invariant
                i <= n,
                n == self.requirements@.len(),
                n == other.requirements@.len(),
                self.name@ == other.name@,
                forall|j: int|
                    0 <= j < i ==> requirement_views(self.requirements@)[j] == requirement_views(
                        other.requirements@,
                    )[j],
            decreases n - i,
        {
            if !self.requirements[i].same_key(&other.requirements[i]) {
                proof {
                    assert(requirement_views(self.requirements@)[i as int] != requirement_views(
                        other.requirements@,
                    )[i as int]);
                }
                return false;
            }
            i = i + 1;
        }
        proof {
            assert(requirement_views(self.requirements@) =~= requirement_views(
                other.requirements@,
            ));
        }
        true
    }
}

} // verus!
