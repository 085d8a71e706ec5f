//! Which roles a member is to be given, and which are to be taken away.

use vstd::prelude::*;
use vstd::string::*;
use crate::analyzer::user::{
    badge_views, met_views, AnalyzedUser, AnalyzedUserBadge, BadgeView, MetRequirement,
    MetRequirementView,
};
use crate::model::ManualRoleAssignment;
use crate::server::{badge_role_views, BadgeRole, BadgeRoleView};
use crate::text::{join_with, joined, texts};

verus! {

/// A change of a member's roles.
#[derive(Debug)]
pub enum RoleChange {
    /// The role is given, for the badge at position `badge` of the
    /// definition; `reason` names the requirements that are met.
    Add { role_id: u64, badge: usize, reason: String },
    /// The role is taken away, for the badge at position `badge`.
    Remove { role_id: u64, badge: usize },
}

/// A change of a member's roles, as plain values.
pub enum RoleChangeView {
    Add { role_id: u64, badge: int, reason: Seq<char> },
    Remove { role_id: u64, badge: int },
}

impl View for RoleChange {
    type V = RoleChangeView;

    open spec fn view(&self) -> RoleChangeView {
        match *self {
            RoleChange::Add { role_id, badge, reason } => RoleChangeView::Add {
                role_id,
                badge: badge as int,
                reason: reason@,
            },
            RoleChange::Remove { role_id, badge } => RoleChangeView::Remove {
                role_id,
                badge: badge as int,
            },
        }
    }
}

/// The views of a list of changes.
pub open spec fn change_views(changes: Seq<RoleChange>) -> Seq<RoleChangeView> {
    changes.map_values(|c: RoleChange| c@)
}

/// The short descriptions of the met requirements from position `j` on,
/// after `found`.
pub open spec fn descriptions_from(met: Seq<MetRequirementView>, j: int, found: Seq<Seq<char>>) -> Seq<
    Seq<char>,
>
    decreases met.len() - j,
{
    if 0 <= j < met.len() {
        descriptions_from(met, j + 1, found.push(met[j].definition.spec_short_description()))
    } else {
        found
    }
}

/// The reason for which a badge's role is given: the short descriptions of
/// its met requirements, with commas between them.
pub open spec fn short_reason(badge: BadgeView) -> Seq<char> {
    joined(descriptions_from(badge.met_requirements, 0, Seq::empty()), ", "@)
}

/// The role of the badge at position `index` of the definition: that of the
/// first of `valid` from position `k` on which is that badge.
pub open spec fn role_from(valid: Seq<BadgeRoleView>, index: int, k: int) -> Option<u64>
    decreases valid.len() - k,
{
    if 0 <= k < valid.len() {
        if valid[k].index == index {
            Some(valid[k].role_id)
        } else {
            role_from(valid, index, k + 1)
        }
    } else {
        None
    }
}

/// Whether the badge at position `index` of the definition is among the
/// earned `badges`.
pub open spec fn is_earned(badges: Seq<BadgeView>, index: int) -> bool {
    exists|k: int| 0 <= k < badges.len() && (#[trigger] badges[k]).index == index
}

/// Whether the member was given the role by hand.
pub open spec fn manually_assigned(manual: Seq<ManualRoleAssignment>, member: u64, role: u64) -> bool {
    exists|k: int|
        0 <= k < manual.len() && (#[trigger] manual[k]).user_id == member && manual[k].role_id
            == role
}

/// The changes `changes` with the roles to give for the earned badges from
/// position `i` on: the role of each badge that has one which the member
/// lacks.
pub open spec fn adds_from(
    valid: Seq<BadgeRoleView>,
    member_roles: Seq<u64>,
    badges: Seq<BadgeView>,
    i: int,
    changes: Seq<RoleChangeView>,
) -> Seq<RoleChangeView>
    decreases badges.len() - i,
{
    if 0 <= i < badges.len() {
        adds_from(
            valid,
            member_roles,
            badges,
            i + 1,
            match role_from(valid, badges[i].index, 0) {
                Some(role_id) => if member_roles.contains(role_id) {
                    changes
                } else {
                    changes.push(
                        RoleChangeView::Add {
                            role_id,
                            badge: badges[i].index,
                            reason: short_reason(badges[i]),
                        },
                    )
                },
                None => changes,
            },
        )
    } else {
        changes
    }
}

/// Whether the role of `entry` is to be taken away from the member: the
/// badge may be taken away automatically, it is not earned, the member has
/// the role, and it was not given by hand.
pub open spec fn loses(
    entry: BadgeRoleView,
    member_id: u64,
    member_roles: Seq<u64>,
    badges: Seq<BadgeView>,
    manual: Seq<ManualRoleAssignment>,
) -> bool {
    &&& entry.definition.spec_can_autoremove()
    &&& !is_earned(badges, entry.index)
    &&& member_roles.contains(entry.role_id)
    &&& !manually_assigned(manual, member_id, entry.role_id)
}

/// The changes `changes` with the roles to take away for the badges with
/// roles from position `j` on.
pub open spec fn removes_from(
    valid: Seq<BadgeRoleView>,
    member_id: u64,
    member_roles: Seq<u64>,
    badges: Seq<BadgeView>,
    manual: Seq<ManualRoleAssignment>,
    j: int,
    changes: Seq<RoleChangeView>,
) -> Seq<RoleChangeView>
    decreases valid.len() - j,
{
    if 0 <= j < valid.len() {
        removes_from(
            valid,
            member_id,
            member_roles,
            badges,
            manual,
            j + 1,
            if loses(valid[j], member_id, member_roles, badges, manual) {
                changes.push(
                    RoleChangeView::Remove { role_id: valid[j].role_id, badge: valid[j].index },
                )
            } else {
                changes
            },
        )
    } else {
        changes
    }
}

/// The changes that bring the roles of a member in line with an analysis:
/// first the roles to give, in the order of the earned badges, then the
/// roles to take away, in the order of the badges with roles.
pub open spec fn role_changes(
    valid: Seq<BadgeRoleView>,
    member_id: u64,
    member_roles: Seq<u64>,
    badges: Seq<BadgeView>,
    manual: Seq<ManualRoleAssignment>,
) -> Seq<RoleChangeView> {
    removes_from(
        valid,
        member_id,
        member_roles,
        badges,
        manual,
        0,
        adds_from(valid, member_roles, badges, 0, Seq::empty()),
    )
}

fn has_role(roles: &Vec<u64>, role: u64) -> (found: bool)
    ensures
        found == roles@.contains(role),
{
    let n = roles.len();
    let mut i: usize = 0;
    while i < n
        invariant
            i <= n,
            n == roles@.len(),
            forall|k: int| 0 <= k < i ==> roles@[k] != role,
        decreases n - i,
    {
        if roles[i] == role {
            return true;
        }
        i = i + 1;
    }
    false
}

fn role_of<'a>(valid: &Vec<BadgeRole<'a>>, index: usize) -> (role: Option<u64>)
    ensures
        role == role_from(badge_role_views(valid@), index as int, 0),
{
    let ghost views = badge_role_views(valid@);
    let n = valid.len();
    let mut k: usize = 0;
    while k < n
        invariant
            k <= n,
            n == valid@.len(),
            views == badge_role_views(valid@),
            role_from(views, index as int, 0) == role_from(views, index as int, k as int),
        decreases n - k,
    {
        if valid[k].index == index {
            return Some(valid[k].role_id);
        }
        k = k + 1;
    }
    None
}

fn earned<'a>(badges: &Vec<AnalyzedUserBadge<'a>>, index: usize) -> (found: bool)
    ensures
        found == is_earned(badge_views(badges@), index as int),
{
    let n = badges.len();
    let mut k: usize = 0;
    while k < n
        invariant
            k <= n,
            n == badges@.len(),
            forall|j: int| 0 <= j < k ==> badge_views(badges@)[j].index != index,
        decreases n - k,
    {
        if badges[k].index == index {
            assert(badge_views(badges@)[k as int].index == index);
            return true;
        }
        k = k + 1;
    }
    false
}

fn given_by_hand(manual: &Vec<ManualRoleAssignment>, member: u64, role: u64) -> (found: bool)
    ensures
        found == manually_assigned(manual@, member, role),
{
    let n = manual.len();
    let mut k: usize = 0;
    while k < n
        invariant
            k <= n,
            n == manual@.len(),
            forall|j: int|
                0 <= j < k ==> !((#[trigger] manual@[j]).user_id == member && manual@[j].role_id
                    == role),
        decreases n - k,
    {
        let entry = &manual[k];
        if entry.user_id >= 0 && entry.role_id >= 0 && entry.user_id as u64 == member
            && entry.role_id as u64 == role {
            return true;
        }
        k = k + 1;
    }
    false
}

impl<'a> AnalyzedUserBadge<'a> {
    /// The reason for which the badge's role is given: the short
    /// descriptions of the met requirements, with commas between them.
    pub fn short_reason(&self) -> (reason: String)
        ensures
            reason@ == short_reason(self@),
    {
        let ghost met = met_views(self.met_requirements@);
        let mut found: Vec<String> = Vec::new();
        proof {
            assert(texts(found@) =~= Seq::empty());
        }
        let n = self.met_requirements.len();
        let mut j: usize = 0;
        while j < n
            invariant
                j <= n,
                n == self.met_requirements@.len(),
                met == met_views(self.met_requirements@),
                descriptions_from(met, 0, Seq::empty()) == descriptions_from(
                    met,
                    j as int,
                    texts(found@),
                ),
            decreases n - j,
        {
            let ghost before = texts(found@);
            let words = self.met_requirements[j].definition.short_description();
            found.push(words);
            proof {
                assert(texts(found@) =~= before.push(words@));
            }
            j = j + 1;
        }
        join_with(&found, ", ")
    }
}

/// The changes that bring the roles of a member in line with an analysis.
///
/// A role is given for each earned badge that has a role which the member
/// lacks. A role is taken away for each badge with a role that may be taken
/// away automatically and is not earned, if the member has the role and was
/// not given it by hand.
pub fn plan_role_changes<'a>(
    member_id: u64,
    member_roles: &Vec<u64>,
    valid: &Vec<BadgeRole<'a>>,
    analysis: &AnalyzedUser<'a>,
    manual: &Vec<ManualRoleAssignment>,
) -> (changes: Vec<RoleChange>)
    ensures
        change_views(changes@) == role_changes(
            badge_role_views(valid@),
            member_id,
            member_roles@,
            analysis@.badges,
            manual@,
        ),
{
    let ghost valid_views = badge_role_views(valid@);
    let ghost badges = analysis@.badges;
    let mut changes: Vec<RoleChange> = Vec::new();
    proof {
        assert(change_views(changes@) =~= Seq::empty());
    }
    let n = analysis.badges.len();
    let mut i: usize = 0;
    while i < n
        invariant
            i <= n,
            n == analysis.badges@.len(),
            valid_views == badge_role_views(valid@),
            badges == badge_views(analysis.badges@),
            adds_from(valid_views, member_roles@, badges, 0, Seq::empty()) == adds_from(
                valid_views,
                member_roles@,
                badges,
                i as int,
                change_views(changes@),
            ),
        decreases n - i,
    {
        let ghost before = change_views(changes@);
        let badge = &analysis.badges[i];
        match role_of(valid, badge.index) {
            Some(role_id) => {
                if !has_role(member_roles, role_id) {
                    let reason = badge.short_reason();
                    changes.push(RoleChange::Add { role_id, badge: badge.index, reason });
                    proof {
                        assert(change_views(changes@) =~= before.push(
                            RoleChangeView::Add {
                                role_id,
                                badge: badge.index as int,
                                reason: reason@,
                            },
                        ));
                    }
                }
            },
            None => {},
        }
        i = i + 1;
    }
    let ghost adds = change_views(changes@);
    let m = valid.len();
    let mut j: usize = 0;
    while j < m
        invariant
            j <= m,
            m == valid@.len(),
            valid_views == badge_role_views(valid@),
            badges == badge_views(analysis.badges@),
            removes_from(valid_views, member_id, member_roles@, badges, manual@, 0, adds)
                == removes_from(
                valid_views,
                member_id,
                member_roles@,
                badges,
                manual@,
                j as int,
                change_views(changes@),
            ),
        decreases m - j,
    {
        let ghost before = change_views(changes@);
        let entry = &valid[j];
        if entry.definition.can_autoremove() && !earned(&analysis.badges, entry.index)
            && has_role(member_roles, entry.role_id) && !given_by_hand(
            manual,
            member_id,
            entry.role_id,
        ) {
            changes.push(RoleChange::Remove { role_id: entry.role_id, badge: entry.index });
            proof {
                assert(change_views(changes@) =~= before.push(
                    RoleChangeView::Remove { role_id: entry.role_id, badge: entry.index as int },
                ));
            }
        }
        j = j + 1;
    }
    changes
}

} // verus!
