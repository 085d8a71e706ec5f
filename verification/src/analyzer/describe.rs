//! The full description of a requirement, with the names of what it names.

use vstd::prelude::*;
use vstd::string::*;
use std::sync::Arc;
use crate::analyzer::evaluation::{fresh_values, Needed, NeededView, Outcome, Step};
use crate::analyzer::role_definition::{
    PartnerRestriction, RankRequirement, RecentRequirement, RequirementDefinition,
    TimeRequirement, VariableDefinition,
};
use crate::analyzer::user::{describes, Failure};
use crate::boards::srcom::category::{Category, CategoryId};
use crate::boards::srcom::game::{Game, GameId};
use crate::boards::srcom::variable::Variable;
use crate::boards::srcom::SrComBoardsState;
use crate::error::RoleManagerError;
use crate::text::{decimal, join, joined, texts, u64_to_string};

verus! {

/// The games, categories and variables that are known by name.
pub struct Names {
    pub games: Map<Seq<char>, Arc<Game>>,
    pub categories: Map<Seq<char>, Arc<Category>>,
    pub variables: Map<Seq<char>, Arc<Variable>>,
}

/// The names that are cached and fresh at `now`.
pub open spec fn names(srcom: &SrComBoardsState, now: i64) -> Names {
    Names {
        games: fresh_values(srcom.cached_games@, srcom.cached_games.spec_ttl(), now),
        categories: fresh_values(
            srcom.cached_categories@,
            srcom.cached_categories.spec_ttl(),
            now,
        ),
        variables: fresh_values(srcom.cached_variables@, srcom.cached_variables.spec_ttl(), now),
    }
}

/// The words for the value `choice` of `variable`: its label, after the name
/// of the variable where that is asked for. `None` where the variable has no
/// such value.
pub open spec fn choice_text(variable: Variable, choice: Seq<char>, with_name: bool) -> Option<
    Seq<char>,
> {
    if variable.values.values@.dom().contains(choice) {
        let label = variable.values.values@[choice].label@;
        if with_name {
            Some(variable.name@ + "="@ + label)
        } else {
            Some(label)
        }
    } else {
        None
    }
}

/// The words `found` with those for the chosen values from position `i` on.
pub open spec fn choices_from(
    variables: Map<Seq<char>, Arc<Variable>>,
    chosen: Seq<VariableDefinition>,
    with_name: bool,
    i: int,
    found: Seq<Seq<char>>,
) -> Outcome<Seq<Seq<char>>>
    decreases chosen.len() - i,
{
    if 0 <= i < chosen.len() {
        if !variables.dom().contains(chosen[i].variable@) {
            Outcome::Need(NeededView::Variable(chosen[i].variable@))
        } else {
            match choice_text(*variables[chosen[i].variable@], chosen[i].choice@, with_name) {
                Some(words) => choices_from(variables, chosen, with_name, i + 1, found.push(words)),
                None => Outcome::Failed(
                    Failure::UnknownChoice {
                        choice: chosen[i].choice@,
                        variable: chosen[i].variable@,
                    },
                ),
            }
        }
    } else {
        Outcome::Done(found)
    }
}

/// The chosen values of a requirement; none where it names none.
pub open spec fn chosen_values(variables: Option<Vec<VariableDefinition>>) -> Seq<
    VariableDefinition,
> {
    match variables {
        Some(list) => list@,
        None => Seq::empty(),
    }
}

/// The words for a leaderboard: the provider, the game, the category and,
/// in brackets, the chosen values.
pub open spec fn board_words(game: Seq<char>, category: Seq<char>, choices: Seq<Seq<char>>) -> Seq<
    char,
> {
    if choices.len() == 0 {
        "SRC - "@ + game + " - "@ + category
    } else {
        "SRC - "@ + game + " - "@ + category + " ("@ + joined(choices, ","@) + ")"@
    }
}

/// The words for the leaderboard that a requirement names. The game is
/// looked up first, then the category, then the variables in their order.
pub open spec fn board_text(
    names: Names,
    game: Seq<char>,
    category: Seq<char>,
    variables: Option<Vec<VariableDefinition>>,
    with_name: bool,
) -> Outcome<Seq<char>> {
    if !names.games.dom().contains(game) {
        Outcome::Need(NeededView::Game(game))
    } else if !names.categories.dom().contains(category) {
        Outcome::Need(NeededView::Category(category))
    } else {
        match choices_from(names.variables, chosen_values(variables), with_name, 0, Seq::empty()) {
            Outcome::Done(choices) => Outcome::Done(
                board_words(
                    names.games[game].names.international@,
                    names.categories[category].name@,
                    choices,
                ),
            ),
            Outcome::Need(needed) => Outcome::Need(needed),
            Outcome::Failed(failure) => Outcome::Failed(failure),
        }
    }
}

/// The words for a restriction on partners.
pub open spec fn restriction_text(partner: Option<PartnerRestriction>) -> Seq<char> {
    match partner {
        Some(PartnerRestriction::RankGte) => " (partner.rank>=player.rank)"@,
        None => Seq::empty(),
    }
}

/// The outcome `board` with `tail` after its words.
pub open spec fn followed_by(board: Outcome<Seq<char>>, tail: Seq<char>) -> Outcome<Seq<char>> {
    match board {
        Outcome::Done(words) => Outcome::Done(words + tail),
        Outcome::Need(needed) => Outcome::Need(needed),
        Outcome::Failed(failure) => Outcome::Failed(failure),
    }
}

/// The full description of a requirement.
pub open spec fn format_outcome(names: Names, requirement: RequirementDefinition) -> Outcome<
    Seq<char>,
> {
    match requirement {
        RequirementDefinition::Manual => Outcome::Done("Manual"@),
        RequirementDefinition::Rank(
            RankRequirement::Srcom { game, category, variables, partner, top },
        ) => followed_by(
            board_text(names, game@, category@, variables, true),
            " - Top "@ + decimal(top as nat) + restriction_text(partner),
        ),
        RequirementDefinition::Time(
            TimeRequirement::Srcom { game, category, variables, partner, time },
        ) => followed_by(
            board_text(names, game@, category@, variables, false),
            " - Sub "@ + time@ + restriction_text(partner),
        ),
        RequirementDefinition::Points { leaderboard, points } => Outcome::Done(
            "CM - "@ + leaderboard.spec_name() + " - "@ + decimal(points as nat) + " Points"@,
        ),
        RequirementDefinition::Recent(RecentRequirement::Cm { months }) => Outcome::Done(
            "CM - Activity in last "@ + decimal(months as nat) + " months"@,
        ),
        RequirementDefinition::Recent(
            RecentRequirement::Srcom { game, category, variables, months },
        ) => followed_by(
            board_text(names, game@, category@, variables, false),
            " - Activity in last "@ + decimal(months as nat) + " months"@,
        ),
    }
}

/// Whether `result` is what the outcome `outcome` asks for.
pub open spec fn text_step_is(
    result: Result<Step<String>, RoleManagerError>,
    outcome: Outcome<Seq<char>>,
) -> bool {
    match result {
        Ok(Step::Done(text)) => outcome == Outcome::Done(text@),
        Ok(Step::Need(needed)) => outcome == Outcome::<Seq<char>>::Need(needed@),
        Err(e) => outcome matches Outcome::Failed(failure) && describes(failure, e.cause@)
            && !e.report_via_edit,
    }
}

fn restriction_words(partner: &Option<PartnerRestriction>) -> (words: &'static str)
    ensures
        words@ == restriction_text(*partner),
{
    match partner {
        Some(PartnerRestriction::RankGte) => " (partner.rank>=player.rank)",
        None => {
            proof {
                reveal_strlit("");
                assert(""@ =~= Seq::<char>::empty());
            }
            ""
        },
    }
}

/// The words for the leaderboard that a requirement names.
#[verifier::loop_isolation(false)]
fn board_description(
    srcom_state: &SrComBoardsState,
    game: &GameId,
    category: &CategoryId,
    variables: &Option<Vec<VariableDefinition>>,
    with_name: bool,
    now: i64,
) -> (result: Result<Step<String>, RoleManagerError>)
    ensures
        text_step_is(
            result,
            board_text(names(srcom_state, now), game@, category@, *variables, with_name),
        ),
{
    let ghost known = names(srcom_state, now);
    let game_name = match srcom_state.cached_games.get(game, now) {
        Some(found) => &found.names.international,
        None => {
            return Ok(Step::Need(Needed::Game(game.clone())));
        },
    };
    let category_name = match srcom_state.cached_categories.get(category, now) {
        Some(found) => &found.name,
        None => {
            return Ok(Step::Need(Needed::Category(category.clone())));
        },
    };
    let mut found: Vec<String> = Vec::new();
    let ghost chosen = chosen_values(*variables);
    proof {
        assert(texts(found@) =~= Seq::empty());
    }
    match variables {
        Some(list) => {
            let n = list.len();
            let mut i: usize = 0;
            while i < n
                invariant
                    i <= n,
                    n == list@.len(),
                    choices_from(known.variables, chosen, with_name, 0, Seq::empty())
                        == choices_from(known.variables, chosen, with_name, i as int, texts(found@)),
                decreases n - i,
            {
                let ghost before = texts(found@);
                let pair = &list[i];
                let variable = match srcom_state.cached_variables.get(&pair.variable, now) {
                    Some(variable) => variable,
                    None => {
                        return Ok(Step::Need(Needed::Variable(pair.variable.clone())));
                    },
                };
                let words = match variable.values.values.get(&pair.choice) {
                    Some(value) => {
                        if with_name {
                            let mut words = variable.name.clone();
                            words.append("=");
                            words.append(value.label.as_str());
                            words
                        } else {
                            value.label.clone()
                        }
                    },
                    None => {
                        let mut cause = String::from_str("Variable value ");
                        cause.append(pair.choice.0.as_str());
                        cause.append(" is not a choice for variable ");
                        cause.append(pair.variable.0.as_str());
                        return Err(RoleManagerError::new(cause));
                    },
                };
                found.push(words);
                proof {
                    assert(texts(found@) =~= before.push(words@));
                }
                i = i + 1;
            }
        },
        None => {},
    }
    let mut text = String::from_str("SRC - ");
    text.append(game_name.as_str());
    text.append(" - ");
    text.append(category_name.as_str());
    if found.len() > 0 {
        text.append(" (");
        let list = join(&found, ",");
        text.append(list.as_str());
        text.append(")");
    }
    Ok(Step::Done(text))
}

impl RequirementDefinition {
    /// The full description of the requirement, with the names of the game,
    /// the category and the chosen values as they are cached and fresh at
    /// `now`. Where a name is not cached, the description stops and says
    /// what is needed.
    pub fn format(&self, srcom_state: &SrComBoardsState, now: i64) -> (result: Result<
        Step<String>,
        RoleManagerError,
    >)
        ensures
            text_step_is(result, format_outcome(names(srcom_state, now), *self)),
    {
        match self {
            RequirementDefinition::Manual => Ok(Step::Done(String::from_str("Manual"))),
            RequirementDefinition::Rank(
                RankRequirement::Srcom { game, category, variables, partner, top },
            ) => {
                match board_description(srcom_state, game, category, variables, true, now) {
                    Ok(Step::Done(board)) => {
                        let mut text = board;
                        let ghost head = text@;
                        text.append(" - Top ");
                        let number = u64_to_string(*top);
                        text.append(number.as_str());
                        text.append(restriction_words(partner));
                        proof {
                            assert(text@ =~= head + (" - Top "@ + decimal(*top as nat)
                                + restriction_text(*partner)));
                        }
                        Ok(Step::Done(text))
                    },
                    Ok(Step::Need(needed)) => Ok(Step::Need(needed)),
                    Err(e) => Err(e),
                }
            },
            RequirementDefinition::Time(
                TimeRequirement::Srcom { game, category, variables, partner, time },
            ) => {
                match board_description(srcom_state, game, category, variables, false, now) {
                    Ok(Step::Done(board)) => {
                        let mut text = board;
                        let ghost head = text@;
                        text.append(" - Sub ");
                        text.append(time.as_str());
                        text.append(restriction_words(partner));
                        proof {
                            assert(text@ =~= head + (" - Sub "@ + time@ + restriction_text(
                                *partner,
                            )));
                        }
                        Ok(Step::Done(text))
                    },
                    Ok(Step::Need(needed)) => Ok(Step::Need(needed)),
                    Err(e) => Err(e),
                }
            },
            RequirementDefinition::Points { leaderboard, points } => {
                let mut text = String::from_str("CM - ");
                text.append(leaderboard.name());
                text.append(" - ");
                let number = u64_to_string(*points);
                text.append(number.as_str());
                text.append(" Points");
                Ok(Step::Done(text))
            },
            RequirementDefinition::Recent(RecentRequirement::Cm { months }) => {
                let mut text = String::from_str("CM - Activity in last ");
                let number = u64_to_string(*months);
                text.append(number.as_str());
                text.append(" months");
                Ok(Step::Done(text))
            },
            RequirementDefinition::Recent(
                RecentRequirement::Srcom { game, category, variables, months },
            ) => {
                match board_description(srcom_state, game, category, variables, false, now) {
                    Ok(Step::Done(board)) => {
                        let mut text = board;
                        let ghost head = text@;
                        text.append(" - Activity in last ");
                        let number = u64_to_string(*months);
                        text.append(number.as_str());
                        text.append(" months");
                        proof {
                            assert(text@ =~= head + (" - Activity in last "@ + decimal(
                                *months as nat,
                            ) + " months"@));
                        }
                        Ok(Step::Done(text))
                    },
                    Ok(Step::Need(needed)) => Ok(Step::Need(needed)),
                    Err(e) => Err(e),
                }
            },
        }
    }
}

} // verus!
