//! The single-selection model shared by the workspace and client tables:
//! a cursor over a list that moves one step at a time and clamps at both
//! ends instead of wrapping.

use vstd::prelude::*;

verus! {

/// Converts the stored cursor to its mathematical value.
pub open spec fn opt_int(o: Option<usize>) -> Option<int> {
    match o {
        Some(i) => Some(i as int),
        None => None,
    }
}

/// Converts a mathematical cursor back to its stored form.
pub open spec fn from_int(o: Option<int>) -> Option<usize> {
    match o {
        Some(i) => Some(i as usize),
        None => None,
    }
}

/// A cursor is well formed over a list of length `len` when it exists
/// exactly on non-empty lists and stays inside them.
pub open spec fn sel_wf(len: int, sel: Option<int>) -> bool {
    match sel {
        Some(i) => len > 0 && 0 <= i < len,
        None => len == 0,
    }
}

/// The cursor a fresh table starts with: the first item, or none at all.
pub open spec fn sel_init(len: int) -> Option<int> {
    if len > 0 {
        Some(0int)
    } else {
        None
    }
}

/// One step towards the end of a list of length `len`, clamped at the last
/// item.
pub open spec fn sel_down(len: int, sel: Option<int>) -> Option<int> {
    match sel {
        Some(i) => if i + 1 < len {
            Some(i + 1)
        } else {
            Some(i)
        },
        None => None,
    }
}

/// One step towards the start, clamped at the first item.
pub open spec fn sel_up(sel: Option<int>) -> Option<int> {
    match sel {
        Some(i) => if i > 0 {
            Some(i - 1)
        } else {
            Some(i)
        },
        None => None,
    }
}

/// `k` downward steps in a row.
pub open spec fn sel_down_k(len: int, sel: Option<int>, k: nat) -> Option<int>
    decreases k,
{
    if k == 0 {
        sel
    } else {
        sel_down(len, sel_down_k(len, sel, (k - 1) as nat))
    }
}

/// Both moves keep the cursor well formed.
pub proof fn lemma_moves_keep_wf(len: int, sel: Option<int>)
    requires
        sel_wf(len, sel),
    ensures
        sel_wf(len, sel_down(len, sel)),
        sel_wf(len, sel_up(sel)),
{
}

/// On a cursor standing at the first item, moving up changes nothing, no
/// matter how often it is repeated.
pub proof fn lemma_up_from_start_idempotent(len: int)
    requires
        len >= 1,
    ensures
        sel_up(Some(0int)) == Some(0int),
        sel_up(sel_up(Some(0int))) == sel_up(Some(0int)),
{
}

/// From the first item, `k` downward steps land on item `k` while `k` stays
/// inside the list, and on the last item from there on.
pub proof fn lemma_down_walk(len: int, k: nat)
    requires
        len >= 1,
    ensures
        sel_down_k(len, Some(0int), k) == (if k < len {
            Some(k as int)
        } else {
            Some(len - 1)
        }),
    decreases k,
{
    if k > 0 {
        lemma_down_walk(len, (k - 1) as nat);
    }
}

/// From the first item, `len - 1` downward steps reach the last item, and
/// every further step is a no-op there.
pub proof fn lemma_down_reaches_last(len: int)
    requires
        len >= 1,
    ensures
        sel_down_k(len, Some(0int), (len - 1) as nat) == Some(len - 1),
        sel_down(len, Some(len - 1)) == Some(len - 1),
{
    lemma_down_walk(len, (len - 1) as nat);
}

/// On an empty list there is no cursor, and both moves leave that so.
pub proof fn lemma_empty_noop(sel: Option<int>)
    requires
        sel_wf(0, sel),
    ensures
        sel is None,
        sel_down(0, sel) == sel,
        sel_up(sel) == sel,
{
}

} // verus!
