//! The list of recently active profiles of the puzzle board.

use vstd::prelude::*;

verus! {

/// Whether `steam_id`, written in decimal, is one of `profiles`.
pub open spec fn lists_profile(profiles: Seq<String>, steam_id: i64) -> bool {
    exists|i: int|
        0 <= i < profiles.len() && #[trigger] profiles[i]@ == crate::text::signed_decimal(
            steam_id as int,
        )
}

/// Whether the profile numbered `steam_id` is among the active `profiles`.
pub fn is_active(profiles: &Vec<String>, steam_id: i64) -> (active: bool)
    ensures
        active == lists_profile(profiles@, steam_id),
{
    let wanted = crate::text::i64_to_string(steam_id);
    let n = profiles.len();
    let mut i: usize = 0;
    while i < n
        invariant
            i <= n,
            n == profiles@.len(),
            wanted@ == crate::text::signed_decimal(steam_id as int),
            forall|j: int| 0 <= j < i ==> profiles@[j]@ != wanted@,
        decreases n - i,
    {
        if profiles[i] == wanted {
            return true;
        }
        i = i + 1;
    }
    false
}

} // verus!
