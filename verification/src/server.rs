//! The settings of one server: which role stands for which badge.

use vstd::prelude::*;
use crate::analyzer::role_definition::{BadgeDefinition, RoleDefinition};
use crate::vec_map::VecMap;

verus! {

/// The settings of a server.
#[derive(Debug)]
pub struct ServerConfig {
    /// The role of each badge, by the badge's name.
    pub badge_roles: VecMap<String, u64>,
    /// Whether role changes are only announced and not made.
    pub dry_run: bool,
}

/// A badge of a definition with the role that stands for it.
#[derive(Debug)]
pub struct BadgeRole<'a> {
    /// The position of the badge among the badges of the definition.
    pub index: usize,
    pub definition: &'a BadgeDefinition,
    pub role_id: u64,
}

/// A badge with its role, as plain values.
pub struct BadgeRoleView {
    pub index: int,
    pub definition: BadgeDefinition,
    pub role_id: u64,
}

impl<'a> View for BadgeRole<'a> {
    type V = BadgeRoleView;

    open spec fn view(&self) -> BadgeRoleView {
        BadgeRoleView {
            index: self.index as int,
            definition: *self.definition,
            role_id: self.role_id,
        }
    }
}

/// The views of a list of badges with roles.
pub open spec fn badge_role_views<'a>(roles: Seq<BadgeRole<'a>>) -> Seq<BadgeRoleView> {
    roles.map_values(|r: BadgeRole<'a>| r@)
}

/// The badges with roles `found` with those among `badges` from position `i`
/// on that have a role in `roles`.
pub open spec fn valid_from(
    roles: Map<Seq<char>, u64>,
    badges: Seq<BadgeDefinition>,
    i: int,
    found: Seq<BadgeRoleView>,
) -> Seq<BadgeRoleView>
    decreases badges.len() - i,
{
    if 0 <= i < badges.len() {
        valid_from(
            roles,
            badges,
            i + 1,
            if roles.dom().contains(badges[i].name@) {
                found.push(
                    BadgeRoleView {
                        index: i,
                        definition: badges[i],
                        role_id: roles[badges[i].name@],
                    },
                )
            } else {
                found
            },
        )
    } else {
        found
    }
}

impl Default for ServerConfig {
    /// No roles, and changes are made.
    fn default() -> (config: Self)
        ensures
            config.badge_roles@ == Map::<Seq<char>, u64>::empty(),
            !config.dry_run,
    {
        ServerConfig { badge_roles: VecMap::new(), dry_run: false }
    }
}

impl ServerConfig {
    /// The badges of `definition` that have a role on this server, each with
    /// its role, in the order of the definition.
    pub fn valid_badges<'a>(&self, definition: &'a RoleDefinition) -> (valid: Vec<BadgeRole<'a>>)
        ensures
            badge_role_views(valid@) == valid_from(
                self.badge_roles@,
                definition.badges@,
                0,
                Seq::empty(),
            ),
    {
        let mut valid: Vec<BadgeRole<'a>> = Vec::new();
        proof {
            assert(badge_role_views(valid@) =~= Seq::empty());
        }
        let n = definition.badges.len();
        let mut i: usize = 0;
        while i < n
            invariant
                i <= n,
                n == definition.badges@.len(),
                valid_from(self.badge_roles@, definition.badges@, 0, Seq::empty()) == valid_from(
                    self.badge_roles@,
                    definition.badges@,
                    i as int,
                    badge_role_views(valid@),
                ),
            decreases n - i,
        {
            let ghost before = badge_role_views(valid@);
            let badge = &definition.badges[i];
            match self.badge_roles.get(&badge.name) {
                Some(role_id) => {
                    valid.push(BadgeRole { index: i, definition: badge, role_id: *role_id });
                    proof {
                        assert(badge_role_views(valid@) =~= before.push(
                            BadgeRoleView {
                                index: i as int,
                                definition: *badge,
                                role_id: *role_id,
                            },
                        ));
                    }
                },
                None => {},
            }
            i = i + 1;
        }
        valid
    }
}

} // verus!
