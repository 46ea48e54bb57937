//! Leaderboard reconciliation decisions: which users are created,
//! which have their shell totals rewritten, and which are left alone.
//! The history rebuild itself lives with the shell-payout logic.

use vstd::prelude::*;

use crate::models::RawPayout;

verus! {

/// What the leaderboard sweep does with one entry.
#[derive(Debug, Clone, Copy, PartialEq, Eq, Structural)]
pub enum ZenithAction {
    /// The user is not mirrored yet: create the row.
    CreateUser,
    /// The user exists but the stored total is absent or stale:
    /// rewrite it.
    UpdateShells,
    /// The stored total already matches: leave the row alone.
    Nothing,
}

/// Decides one leaderboard entry from the mirrored state: `None`
/// means the user is unknown; `Some(shells)` is the stored total
/// column, itself possibly empty.
pub fn zenith_entry_action(existing: &Option<Option<i32>>, new_shells: i32) -> (r: ZenithAction)
    ensures
        existing is None ==> r == ZenithAction::CreateUser,
        existing is Some ==> {
            let stored = existing->0;
            if stored is Some && stored->0 == new_shells {
                r == ZenithAction::Nothing
            } else {
                r == ZenithAction::UpdateShells
            }
        },
{
    match existing {
        None => ZenithAction::CreateUser,
        Some(stored) => match stored {
            Some(s) => {
                if *s == new_shells {
                    ZenithAction::Nothing
                } else {
                    ZenithAction::UpdateShells
                }
            },
            None => ZenithAction::UpdateShells,
        },
    }
}

/// Whether an entry's payouts are worth a reconstruction pass: only a
/// present, non-empty list is.
pub fn should_process_payouts(payouts: &Option<Vec<RawPayout>>) -> (r: bool)
    ensures
        r == (payouts is Some && payouts->0@.len() > 0),
{
    match payouts {
        Some(list) => list.len() > 0,
        None => false,
    }
}

} // verus!
