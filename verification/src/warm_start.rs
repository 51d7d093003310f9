//! Warm starts carried between receding-horizon replans.

use vstd::prelude::*;

verus! {

/// Take the previous plan's warm start, keeping it only if the ego ended up
/// where that plan predicted (`position_matches`). The stored warm start is
/// consumed either way.
pub fn take_warm<T>(prev: &mut Option<T>, position_matches: bool) -> (warm: Option<T>)
    ensures
        final(prev).is_none(),
        warm == (if position_matches {
            *old(prev)
        } else {
            None
        }),
{
    let taken = prev.take();
    if position_matches {
        taken
    } else {
        None
    }
}

/// Shift a warm-start action sequence one tick forward (the first action has
/// been executed), holding the last action.
pub fn shift_actions<T: Copy>(actions: Vec<T>) -> (shifted: Vec<T>)
    requires
        actions@.len() != 1,
    ensures
        actions@.len() == 0 ==> shifted@.len() == 0,
        actions@.len() > 1 ==> shifted@ == actions@.drop_first().push(actions@.last()),
{
    let mut actions = actions;
    if actions.len() > 0 {
        actions.remove(0);
        let last = actions[actions.len() - 1];
        actions.push(last);
    }
    actions
}

} // verus!
