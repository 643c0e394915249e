//! Tracking the cursor's world position.
//!
//! Each frame brings a batch of cursor-moved events; projecting an event
//! through a camera either yields a world position or fails.  The tracked
//! position is replaced by every successful projection in turn, so the last
//! successful one wins; when none succeeds the old position is kept.  The
//! position itself is engine data this crate never inspects, so the fold is
//! generic in it.

use vstd::prelude::*;

verus! {

/// The value left after applying a batch of optional replacements to
/// `current`, earliest first: the payload of the last `Some`, or `current`
/// itself when the batch holds no `Some`.
pub open spec fn last_update<T>(current: T, updates: Seq<Option<T>>) -> T
    decreases updates.len(),
{
    if updates.len() == 0 {
        current
    } else {
        match updates.last() {
            Some(p) => p,
            None => last_update(current, updates.drop_last()),
        }
    }
}

/// The tracked position never comes out of thin air: after a batch it is
/// either the old position or the payload of one of the batch's successful
/// projections.
pub proof fn lemma_last_update_membership<T>(current: T, updates: Seq<Option<T>>)
    ensures
        last_update(current, updates) == current || updates.contains(
            Some(last_update(current, updates)),
        ),
    decreases updates.len(),
{
    if updates.len() > 0 {
        match updates.last() {
            Some(p) => {
                assert(updates[updates.len() - 1] == Some(p));
            },
            None => {
                lemma_last_update_membership(current, updates.drop_last());
                let r = last_update(current, updates.drop_last());
                if r != current {
                    let i = choose|i: int|
                        0 <= i < updates.drop_last().len() && updates.drop_last()[i] == Some(r);
                    assert(updates[i] == Some(r));
                }
            },
        }
    }
}

/// Folds one frame's batch of projection results over the tracked position:
/// every successful projection replaces it, so the last one wins.
#[verifier::loop_isolation(false)]
pub fn latest_position<T>(current: T, updates: Vec<Option<T>>) -> (r: T)
    ensures
        r == last_update(current, updates@),
{
    let ghost all = updates@;
    let mut rest = updates;
    loop
        invariant
            last_update(current, rest@) == last_update(current, all),
        decreases rest@.len(),
    {
        match rest.pop() {
            Some(u) => {
                match u {
                    Some(p) => {
                        return p;
                    },
                    None => {},
                }
            },
            None => {
                return current;
            },
        }
    }
}

} // verus!
