//! The flex-grow distribution pass.
//!
//! Walks parents root-first. When a parent's main axis is the axis being
//! solved, the leftover inner space (after exact-size children and after
//! every flexible child's minimum) is handed out in proportion to the
//! children's flex-grow factors; a child that would exceed its maximum is
//! clamped to it, leaves the pool, and its space is returned for the next
//! round. On the cross axis every child is stretched to the parent's inner
//! space, clamped between its own bounds (a minimum larger than the space
//! wins and overflows). Absolutely positioned children never consume a
//! sibling's space: they resolve against the nearest positioned ancestor.
//!
//! Children whose flex-grow factors sum to zero cannot grow: the pass
//! leaves them at their minimum size.

use vstd::prelude::*;
use vstd::pervasive::VecAdditionalExecFns;

use crate::constraint::{AxisRect, WhConstraint};
use crate::px::{
    div_pos, sat_add, sat_add_spec, sat_mul, sat_mul_spec, sat_sub, sat_sub_spec, Px,
};
use crate::solver::init_parent_ref;
use crate::style::{LayoutAxis, LayoutFlexDirection, LayoutPosition};
use crate::tree::NodeHierarchy;

verus! {

/// The nearest positioned ancestor an absolute child of parent `p` anchors
/// to: `p` itself when `p` is positioned, the root otherwise.
pub open spec fn anchor_of(positions: Seq<LayoutPosition>, p: int) -> int {
    if positions[p] != LayoutPosition::Static {
        p
    } else {
        0
    }
}

/// The inner space of parent `p`: its resolved size minus its padding,
/// resolved against its own parent's available space.
pub open spec fn parent_inner_space(
    state: Seq<AxisRect>,
    tree: NodeHierarchy,
    p: int,
    root_size: int,
) -> int {
    let parent_ref = init_parent_ref(state, tree, p, root_size);
    sat_sub_spec(state[p].total_spec(), state[p].padding_spec(parent_ref))
}

/// The state after the exact-size assignment has run over the first `k`
/// children: each child with an exact constraint is grown (or shrunk) so
/// that its resolved size equals that exact size.
pub open spec fn fix_children_upto(
    state0: Seq<AxisRect>,
    kids: Seq<usize>,
    k: int,
) -> Seq<AxisRect>
    decreases k,
{
    if k <= 0 {
        state0
    } else {
        let c = kids[k - 1] as int;
        let prev = fix_children_upto(state0, kids, k - 1);
        match state0[c].preferred {
            WhConstraint::EqualTo(e) => prev.update(
                c,
                AxisRect {
                    flex_grow_px: sat_sub_spec(e as int, state0[c].min_inner_size_px as int) as Px,
                    ..state0[c]
                },
            ),
            _ => prev,
        }
    }
}

/// The summed exact sizes of the first `k` children that have an exact
/// constraint and are not absolutely positioned.
pub open spec fn sum_fixed_upto(
    state0: Seq<AxisRect>,
    positions: Seq<LayoutPosition>,
    kids: Seq<usize>,
    k: int,
) -> int
    decreases k,
{
    if k <= 0 {
        0
    } else {
        let c = kids[k - 1] as int;
        let rest = sum_fixed_upto(state0, positions, kids, k - 1);
        match state0[c].preferred {
            WhConstraint::EqualTo(e) => if positions[c] != LayoutPosition::Absolute {
                sat_add_spec(rest, e as int)
            } else {
                rest
            },
            _ => rest,
        }
    }
}

/// The size an absolutely positioned child resolves to against the
/// anchor's resolved size: its exact size, or the anchor size clamped into
/// its bounds, or the anchor size when unconstrained.
pub open spec fn absolute_child_size(pref: WhConstraint, anchor_w: int) -> int {
    match pref {
        WhConstraint::EqualTo(e) => e as int,
        WhConstraint::Between(min, max) => if anchor_w > min as int {
            if anchor_w < max as int {
                anchor_w
            } else {
                max as int
            }
        } else {
            min as int
        },
        WhConstraint::Unconstrained => anchor_w,
    }
}

/// The state after the variable-size preparation has run over the first
/// `k` children: every child without an exact constraint is set to its
/// minimum needed space, except absolutely positioned ones, which resolve
/// against the anchor's resolved size.
pub open spec fn var_children_upto(
    state0: Seq<AxisRect>,
    s: Seq<AxisRect>,
    positions: Seq<LayoutPosition>,
    kids: Seq<usize>,
    k: int,
    anchor_w: int,
) -> Seq<AxisRect>
    decreases k,
{
    if k <= 0 {
        s
    } else {
        let c = kids[k - 1] as int;
        let prev = var_children_upto(state0, s, positions, kids, k - 1, anchor_w);
        if state0[c].preferred.is_fixed_constraint_spec() {
            prev
        } else {
            let target = if positions[c] != LayoutPosition::Absolute {
                match state0[c].preferred.min_needed_space_spec() {
                    Some(m) => m,
                    None => 0,
                }
            } else {
                absolute_child_size(state0[c].preferred, anchor_w)
            };
            prev.update(
                c,
                AxisRect {
                    flex_grow_px: sat_sub_spec(target, state0[c].min_inner_size_px as int) as Px,
                    ..state0[c]
                },
            )
        }
    }
}

/// The summed minimum needed space of the first `k` children that are
/// flexible (no exact constraint) and not absolutely positioned.
pub open spec fn sum_var_upto(
    state0: Seq<AxisRect>,
    positions: Seq<LayoutPosition>,
    kids: Seq<usize>,
    k: int,
) -> int
    decreases k,
{
    if k <= 0 {
        0
    } else {
        let c = kids[k - 1] as int;
        let rest = sum_var_upto(state0, positions, kids, k - 1);
        if !state0[c].preferred.is_fixed_constraint_spec() && positions[c]
            != LayoutPosition::Absolute {
            sat_add_spec(
                rest,
                match state0[c].preferred.min_needed_space_spec() {
                    Some(m) => m,
                    None => 0,
                },
            )
        } else {
            rest
        }
    }
}

/// The distribution pool drawn from the first `k` children: the flexible,
/// non-absolutely-positioned ones, in ascending order.
pub open spec fn pool_upto(
    state0: Seq<AxisRect>,
    positions: Seq<LayoutPosition>,
    kids: Seq<usize>,
    k: int,
) -> Seq<usize>
    decreases k,
{
    if k <= 0 {
        Seq::empty()
    } else {
        let c = kids[k - 1] as int;
        let rest = pool_upto(state0, positions, kids, k - 1);
        if !state0[c].preferred.is_fixed_constraint_spec() && positions[c]
            != LayoutPosition::Absolute {
            rest.push(kids[k - 1])
        } else {
            rest
        }
    }
}

/// The summed flex-grow factors of the first `k` pool members.
pub open spec fn sum_grows_upto(grows: Seq<u32>, pool: Seq<usize>, k: int) -> int
    decreases k,
{
    if k <= 0 {
        0
    } else {
        sat_add_spec(sum_grows_upto(grows, pool, k - 1), grows[pool[k - 1] as int] as int)
    }
}

/// Whether growing pool member `c` by its proportional share would exceed
/// its maximum size.
pub open spec fn is_violation(state0: Seq<AxisRect>, grows: Seq<u32>, share: int, c: int) -> bool {
    match state0[c].preferred.max_available_space_spec() {
        Some(m) => sat_add_spec(
            state0[c].total_spec(),
            sat_mul_spec(share, grows[c] as int),
        ) > m,
        None => false,
    }
}

/// The state after the proportional assignment has run over the first `k`
/// pool members: a member that would exceed its maximum is clamped to it,
/// the others are set to their proportional share.
pub open spec fn pool_assign_upto(
    state0: Seq<AxisRect>,
    grows: Seq<u32>,
    pool: Seq<usize>,
    k: int,
    share: int,
) -> Seq<AxisRect>
    decreases k,
{
    if k <= 0 {
        state0
    } else {
        let c = pool[k - 1] as int;
        let prev = pool_assign_upto(state0, grows, pool, k - 1, share);
        let target = if is_violation(state0, grows, share, c) {
            match state0[c].preferred.max_available_space_spec() {
                Some(m) => m,
                None => 0,
            }
        } else {
            sat_mul_spec(share, grows[c] as int)
        };
        prev.update(
            c,
            AxisRect {
                flex_grow_px: sat_sub_spec(target, state0[c].min_inner_size_px as int) as Px,
                ..state0[c]
            },
        )
    }
}

/// Whether any of the first `k` pool members violates its maximum.
pub open spec fn any_violation(
    state0: Seq<AxisRect>,
    grows: Seq<u32>,
    pool: Seq<usize>,
    k: int,
    share: int,
) -> bool {
    exists|j: int| 0 <= j < k && is_violation(state0, grows, share, pool[j] as int)
}

/// The pool members among the first `k` that stay for the next round: the
/// non-violating ones, in order.
pub open spec fn remaining_pool_upto(
    state0: Seq<AxisRect>,
    grows: Seq<u32>,
    pool: Seq<usize>,
    k: int,
    share: int,
) -> Seq<usize>
    decreases k,
{
    if k <= 0 {
        Seq::empty()
    } else {
        let rest = remaining_pool_upto(state0, grows, pool, k - 1, share);
        if is_violation(state0, grows, share, pool[k - 1] as int) {
            rest
        } else {
            rest.push(pool[k - 1])
        }
    }
}

/// The space left after the clamped sizes of the violating members among
/// the first `k` have been taken back out of the pool's budget.
pub open spec fn avail_after_removals_upto(
    state_new: Seq<AxisRect>,
    state0: Seq<AxisRect>,
    grows: Seq<u32>,
    pool: Seq<usize>,
    k: int,
    share: int,
    avail: int,
) -> int
    decreases k,
{
    if k <= 0 {
        avail
    } else {
        let prev = avail_after_removals_upto(state_new, state0, grows, pool, k - 1, share, avail);
        if is_violation(state0, grows, share, pool[k - 1] as int) {
            sat_sub_spec(prev, state_new[pool[k - 1] as int].total_spec())
        } else {
            prev
        }
    }
}

/// The remaining pool is never longer than the pool it came from, and is
/// strictly shorter when some member violates its maximum.
pub proof fn lemma_remaining_pool_len(
    state0: Seq<AxisRect>,
    grows: Seq<u32>,
    pool: Seq<usize>,
    k: int,
    share: int,
)
    requires
        0 <= k <= pool.len(),
    ensures
        remaining_pool_upto(state0, grows, pool, k, share).len() <= k,
        any_violation(state0, grows, pool, k, share) ==> remaining_pool_upto(
            state0,
            grows,
            pool,
            k,
            share,
        ).len() < k,
    decreases k,
{
    if k > 0 {
        lemma_remaining_pool_len(state0, grows, pool, k - 1, share);
        if any_violation(state0, grows, pool, k, share) && !is_violation(
            state0,
            grows,
            share,
            pool[k - 1] as int,
        ) {
            assert(any_violation(state0, grows, pool, k - 1, share));
        }
    }
}

/// The iterative proportional distribution: hand out the available space
/// in proportion to the flex-grow factors, clamp violators to their
/// maximum, return their space to the pool, and repeat until no member
/// violates its maximum, the pool is empty, or no space is left.
pub open spec fn spec_pool_loop(
    state: Seq<AxisRect>,
    grows: Seq<u32>,
    pool: Seq<usize>,
    avail: int,
) -> Seq<AxisRect>
    decreases pool.len(),
    when true
    via spec_pool_loop_decreases
{
    if avail <= 0 || pool.len() == 0 {
        state
    } else {
        let sum = sum_grows_upto(grows, pool, pool.len() as int);
        if sum <= 0 {
            state
        } else {
            let share = avail / sum;
            let ns = pool_assign_upto(state, grows, pool, pool.len() as int, share);
            if !any_violation(state, grows, pool, pool.len() as int, share) {
                ns
            } else {
                let pool2 = remaining_pool_upto(state, grows, pool, pool.len() as int, share);
                let avail2 = avail_after_removals_upto(
                    ns,
                    state,
                    grows,
                    pool,
                    pool.len() as int,
                    share,
                    avail,
                );
                spec_pool_loop(ns, grows, pool2, avail2)
            }
        }
    }
}

#[via_fn]
proof fn spec_pool_loop_decreases(
    state: Seq<AxisRect>,
    grows: Seq<u32>,
    pool: Seq<usize>,
    avail: int,
) {
    if !(avail <= 0 || pool.len() == 0) {
        let sum = sum_grows_upto(grows, pool, pool.len() as int);
        if sum > 0 {
            let share = avail / sum;
            if any_violation(state, grows, pool, pool.len() as int, share) {
                lemma_remaining_pool_len(state, grows, pool, pool.len() as int, share);
            }
        }
    }
}

/// The state after main-axis distribution has run for parent `p`.
pub open spec fn spec_distribute_main(
    state: Seq<AxisRect>,
    tree: NodeHierarchy,
    grows: Seq<u32>,
    positions: Seq<LayoutPosition>,
    p: int,
    root_size: int,
) -> Seq<AxisRect> {
    let kids = tree.children@[p]@;
    let nk = kids.len() as int;
    let inner0 = parent_inner_space(state, tree, p, root_size);
    let s1 = fix_children_upto(state, kids, nk);
    let inner1 = sat_sub_spec(inner0, sum_fixed_upto(state, positions, kids, nk));
    let anchor_w = state[anchor_of(positions, p)].total_spec();
    let s2 = var_children_upto(state, s1, positions, kids, nk, anchor_w);
    let avail = sat_sub_spec(inner1, sum_var_upto(state, positions, kids, nk));
    let pool0 = pool_upto(state, positions, kids, nk);
    spec_pool_loop(s2, grows, pool0, avail)
}

/// The inner space of the anchor node of parent `p`'s absolute children.
pub open spec fn anchor_inner_space(
    state: Seq<AxisRect>,
    tree: NodeHierarchy,
    positions: Seq<LayoutPosition>,
    p: int,
    root_size: int,
) -> int {
    parent_inner_space(state, tree, anchor_of(positions, p), root_size)
}

/// The state after cross-axis stretching has run over the first `k`
/// children of parent `p`: each child fills the parent's inner space,
/// clamped below its maximum, but never below its own minimum; absolute
/// children fill the anchor's inner space instead.
pub open spec fn cross_children_upto(
    state0: Seq<AxisRect>,
    positions: Seq<LayoutPosition>,
    kids: Seq<usize>,
    k: int,
    inner: int,
    anchor_inner: int,
) -> Seq<AxisRect>
    decreases k,
{
    if k <= 0 {
        state0
    } else {
        let c = kids[k - 1] as int;
        let prev = cross_children_upto(state0, positions, kids, k - 1, inner, anchor_inner);
        let space = if positions[c] != LayoutPosition::Absolute {
            inner
        } else {
            anchor_inner
        };
        let min_w = match state0[c].preferred.min_needed_space_spec() {
            Some(m) => m,
            None => 0,
        };
        let target = if min_w > space {
            min_w
        } else {
            match state0[c].preferred.max_available_space_spec() {
                Some(mx) => if mx > space {
                    space
                } else {
                    mx
                },
                None => space,
            }
        };
        prev.update(
            c,
            AxisRect {
                flex_grow_px: sat_sub_spec(target, state0[c].min_inner_size_px as int) as Px,
                ..state0[c]
            },
        )
    }
}

/// The state after cross-axis stretching has run for parent `p`.
pub open spec fn spec_distribute_cross(
    state: Seq<AxisRect>,
    tree: NodeHierarchy,
    positions: Seq<LayoutPosition>,
    p: int,
    root_size: int,
) -> Seq<AxisRect> {
    let kids = tree.children@[p]@;
    let inner = parent_inner_space(state, tree, p, root_size);
    let anchor_inner = anchor_inner_space(state, tree, positions, p, root_size);
    cross_children_upto(state, positions, kids, kids.len() as int, inner, anchor_inner)
}

/// One distribution step for parent `p`: main-axis distribution when `p`'s
/// flex-direction runs along the axis being solved, cross-axis stretching
/// otherwise.
pub open spec fn dist_step(
    state: Seq<AxisRect>,
    tree: NodeHierarchy,
    grows: Seq<u32>,
    positions: Seq<LayoutPosition>,
    directions: Seq<LayoutFlexDirection>,
    axis: LayoutAxis,
    root_size: int,
    p: int,
) -> Seq<AxisRect> {
    if directions[p].axis_spec() == axis {
        spec_distribute_main(state, tree, grows, positions, p, root_size)
    } else {
        spec_distribute_cross(state, tree, positions, p, root_size)
    }
}

/// The root's flex-grow set so that its resolved size is the root size
/// clamped below the root's own maximum.
pub open spec fn root_grow_step(state: Seq<AxisRect>, root_size: int) -> Seq<AxisRect> {
    let root_preferred = match state[0].preferred.max_available_space_spec() {
        Some(mw) => if root_size > mw {
            mw
        } else {
            root_size
        },
        None => root_size,
    };
    state.update(
        0,
        AxisRect {
            flex_grow_px: sat_sub_spec(root_preferred, state[0].min_inner_size_px as int) as Px,
            ..state[0]
        },
    )
}

/// The state after the first `k` parents (in root-first order, restricted
/// to the recalculation set) have distributed space to their children.
pub open spec fn dist_upto(
    state0: Seq<AxisRect>,
    tree: NodeHierarchy,
    grows: Seq<u32>,
    positions: Seq<LayoutPosition>,
    directions: Seq<LayoutFlexDirection>,
    axis: LayoutAxis,
    root_size: int,
    recalc: Seq<bool>,
    k: int,
) -> Seq<AxisRect>
    decreases k,
{
    if k <= 0 {
        state0
    } else {
        let prev = dist_upto(
            state0,
            tree,
            grows,
            positions,
            directions,
            axis,
            root_size,
            recalc,
            k - 1,
        );
        let p = tree.parents_ordered@[k - 1] as int;
        if recalc[p] {
            dist_step(prev, tree, grows, positions, directions, axis, root_size, p)
        } else {
            prev
        }
    }
}

/// The state after the full flex-grow distribution pass.
pub open spec fn spec_apply_flex_grow(
    state0: Seq<AxisRect>,
    tree: NodeHierarchy,
    grows: Seq<u32>,
    positions: Seq<LayoutPosition>,
    directions: Seq<LayoutFlexDirection>,
    axis: LayoutAxis,
    root_size: int,
    recalc: Seq<bool>,
) -> Seq<AxisRect> {
    dist_upto(
        root_grow_step(state0, root_size),
        tree,
        grows,
        positions,
        directions,
        axis,
        root_size,
        recalc,
        tree.parents_ordered@.len() as int,
    )
}

/// The exact-size assignment changes no field but `flex_grow_px`, and
/// leaves children outside the first `k` untouched.
pub proof fn lemma_fix_children_frame(state0: Seq<AxisRect>, kids: Seq<usize>, k: int, i: int)
    requires
        0 <= k,
        0 <= i < state0.len(),
        forall|j: int| 0 <= j < k ==> 0 <= (#[trigger] kids[j] as int) < state0.len(),
    ensures
        fix_children_upto(state0, kids, k).len() == state0.len(),
        fix_children_upto(state0, kids, k)[i].preferred == state0[i].preferred,
        fix_children_upto(state0, kids, k)[i].min_inner_size_px == state0[i].min_inner_size_px,
        (forall|j: int| 0 <= j < k ==> (kids[j] as int) != i) ==> fix_children_upto(
            state0,
            kids,
            k,
        )[i] == state0[i],
        !(state0[i].preferred is EqualTo) ==> fix_children_upto(state0, kids, k)[i] == state0[i],
    decreases k,
{
    if k > 0 {
        lemma_fix_children_frame(state0, kids, k - 1, i);
    }
}

/// The variable-size preparation changes no field but `flex_grow_px`, and
/// leaves children outside the first `k` untouched.
pub proof fn lemma_var_children_frame(
    state0: Seq<AxisRect>,
    s: Seq<AxisRect>,
    positions: Seq<LayoutPosition>,
    kids: Seq<usize>,
    k: int,
    anchor_w: int,
    i: int,
)
    requires
        0 <= k,
        0 <= i < state0.len(),
        s.len() == state0.len(),
        s[i].preferred == state0[i].preferred,
        s[i].min_inner_size_px == state0[i].min_inner_size_px,
        forall|j: int| 0 <= j < k ==> 0 <= (#[trigger] kids[j] as int) < state0.len(),
    ensures
        var_children_upto(state0, s, positions, kids, k, anchor_w).len() == state0.len(),
        var_children_upto(state0, s, positions, kids, k, anchor_w)[i].preferred
            == state0[i].preferred,
        var_children_upto(state0, s, positions, kids, k, anchor_w)[i].min_inner_size_px
            == state0[i].min_inner_size_px,
        (forall|j: int| 0 <= j < k ==> (kids[j] as int) != i) ==> var_children_upto(
            state0,
            s,
            positions,
            kids,
            k,
            anchor_w,
        )[i] == s[i],
        state0[i].preferred is EqualTo ==> var_children_upto(
            state0,
            s,
            positions,
            kids,
            k,
            anchor_w,
        )[i] == s[i],
    decreases k,
{
    if k > 0 {
        lemma_var_children_frame(state0, s, positions, kids, k - 1, anchor_w, i);
    }
}

/// The proportional assignment changes no field but `flex_grow_px`, and
/// leaves pool members outside the first `k` untouched.
pub proof fn lemma_pool_assign_frame(
    state0: Seq<AxisRect>,
    grows: Seq<u32>,
    pool: Seq<usize>,
    k: int,
    share: int,
    i: int,
)
    requires
        0 <= k,
        0 <= i < state0.len(),
        forall|j: int| 0 <= j < k ==> 0 <= (#[trigger] pool[j] as int) < state0.len(),
    ensures
        pool_assign_upto(state0, grows, pool, k, share).len() == state0.len(),
        pool_assign_upto(state0, grows, pool, k, share)[i].preferred == state0[i].preferred,
        pool_assign_upto(state0, grows, pool, k, share)[i].min_inner_size_px
            == state0[i].min_inner_size_px,
        (forall|j: int| 0 <= j < k ==> (pool[j] as int) != i) ==> pool_assign_upto(
            state0,
            grows,
            pool,
            k,
            share,
        )[i] == state0[i],
    decreases k,
{
    if k > 0 {
        lemma_pool_assign_frame(state0, grows, pool, k - 1, share, i);
    }
}

/// Every member of the remaining pool is drawn, in order, from the pool it
/// came from: bounds and strict ascent carry over.
pub proof fn lemma_remaining_pool_sorted(
    state0: Seq<AxisRect>,
    grows: Seq<u32>,
    pool: Seq<usize>,
    k: int,
    share: int,
)
    requires
        0 <= k <= pool.len(),
        forall|j1: int, j2: int|
            0 <= j1 < j2 < pool.len() ==> (pool[j1] as int) < (pool[j2] as int),
    ensures
        forall|j: int|
            0 <= j < remaining_pool_upto(state0, grows, pool, k, share).len() ==> exists|j0: int|
                0 <= j0 < k && pool[j0] == #[trigger] remaining_pool_upto(
                    state0,
                    grows,
                    pool,
                    k,
                    share,
                )[j],
        forall|j1: int, j2: int|
            0 <= j1 < j2 < remaining_pool_upto(state0, grows, pool, k, share).len() ==> (
            remaining_pool_upto(state0, grows, pool, k, share)[j1] as int) < (remaining_pool_upto(
                state0,
                grows,
                pool,
                k,
                share,
            )[j2] as int),
    decreases k,
{
    if k > 0 {
        lemma_remaining_pool_sorted(state0, grows, pool, k - 1, share);
        let prev = remaining_pool_upto(state0, grows, pool, k - 1, share);
        let cur = remaining_pool_upto(state0, grows, pool, k, share);
        if !is_violation(state0, grows, share, pool[k - 1] as int) {
            assert forall|j1: int, j2: int|
                0 <= j1 < j2 < cur.len() implies (cur[j1] as int) < (cur[j2] as int) by {
                if j2 < prev.len() {
                } else {
                    assert(cur[j2] == pool[k - 1]);
                    let j0 = choose|j0: int| 0 <= j0 < k - 1 && pool[j0] == prev[j1];
                    assert((pool[j0] as int) < (pool[k - 1] as int));
                }
            }
        }
    }
}

/// Every pool member is flexible (no exact constraint) and not
/// absolutely positioned.
pub proof fn lemma_pool_upto_members(
    state0: Seq<AxisRect>,
    positions: Seq<LayoutPosition>,
    kids: Seq<usize>,
    k: int,
)
    requires
        0 <= k <= kids.len(),
    ensures
        forall|j: int|
            0 <= j < pool_upto(state0, positions, kids, k).len() ==> !state0[(#[trigger] pool_upto(
                state0,
                positions,
                kids,
                k,
            )[j] as int)].preferred.is_fixed_constraint_spec() && positions[(pool_upto(
                state0,
                positions,
                kids,
                k,
            )[j] as int)] != LayoutPosition::Absolute,
    decreases k,
{
    if k > 0 {
        lemma_pool_upto_members(state0, positions, kids, k - 1);
    }
}

/// Every pool member is drawn, in order, from the children list: bounds
/// and strict ascent carry over.
pub proof fn lemma_pool_upto_sorted(
    state0: Seq<AxisRect>,
    positions: Seq<LayoutPosition>,
    kids: Seq<usize>,
    k: int,
    n: int,
)
    requires
        0 <= k <= kids.len(),
        forall|j: int| 0 <= j < kids.len() ==> (#[trigger] kids[j] as int) < n,
        forall|j1: int, j2: int|
            0 <= j1 < j2 < kids.len() ==> (kids[j1] as int) < (kids[j2] as int),
    ensures
        forall|j: int|
            0 <= j < pool_upto(state0, positions, kids, k).len() ==> exists|j0: int|
                0 <= j0 < k && kids[j0] == #[trigger] pool_upto(state0, positions, kids, k)[j],
        forall|j: int|
            0 <= j < pool_upto(state0, positions, kids, k).len() ==> (#[trigger] pool_upto(
                state0,
                positions,
                kids,
                k,
            )[j] as int) < n,
        forall|j1: int, j2: int|
            0 <= j1 < j2 < pool_upto(state0, positions, kids, k).len() ==> (pool_upto(
                state0,
                positions,
                kids,
                k,
            )[j1] as int) < (pool_upto(state0, positions, kids, k)[j2] as int),
    decreases k,
{
    if k > 0 {
        lemma_pool_upto_sorted(state0, positions, kids, k - 1, n);
        let prev = pool_upto(state0, positions, kids, k - 1);
        let cur = pool_upto(state0, positions, kids, k);
        if cur.len() > prev.len() {
            assert forall|j1: int, j2: int|
                0 <= j1 < j2 < cur.len() implies (cur[j1] as int) < (cur[j2] as int) by {
                if j2 < prev.len() {
                } else {
                    assert(cur[j2] == kids[k - 1]);
                    let j0 = choose|j0: int| 0 <= j0 < k - 1 && kids[j0] == prev[j1];
                    assert((kids[j0] as int) < (kids[k - 1] as int));
                }
            }
        }
    }
}

/// Distributes the main-axis space of parent `p` among its children.
fn distribute_space_along_main_axis(
    state: Vec<AxisRect>,
    tree: &NodeHierarchy,
    grows: &Vec<u32>,
    positions: &Vec<LayoutPosition>,
    p: usize,
    root_size: Px,
) -> (r: Vec<AxisRect>)
    requires
        tree.wf(),
        (p as int) < tree.n(),
        state@.len() == tree.n(),
        grows@.len() == tree.n(),
        positions@.len() == tree.n(),
    ensures
        r@ == spec_distribute_main(state@, *tree, grows@, positions@, p as int, root_size as int),
        r@.len() == tree.n(),
{
    let ghost state0 = state@;
    let ghost kids = tree.children@[p as int]@;
    let mut state = state;

    let parent_ref: Px = if p == 0 {
        root_size
    } else {
        match state[tree.parent[p]].preferred.max_available_space() {
            Some(m) => m,
            None => root_size,
        }
    };
    let inner0: Px = sat_sub(state[p].total(), state[p].get_padding(parent_ref));
    let anchor: usize = if positions[p] != LayoutPosition::Static {
        p
    } else {
        0
    };
    let anchor_w: Px = state[anchor].total();

    let num_kids = tree.children[p].len();

    // Exact-size children: pin them to their exact size; the ones in the
    // regular flow consume that much of the parent's space.
    let mut fixed_sum: Px = 0;
    let mut k: usize = 0;
    while k < num_kids
        invariant
            k <= num_kids,
            num_kids == kids.len(),
            kids == tree.children@[p as int]@,
            tree.wf(),
            (p as int) < tree.n(),
            state0.len() == tree.n(),
            state@.len() == tree.n(),
            positions@.len() == tree.n(),
            state@ == fix_children_upto(state0, kids, k as int),
            fixed_sum as int == sum_fixed_upto(state0, positions@, kids, k as int),
        decreases num_kids - k,
    {
        let c = tree.children[p][k];
        proof {
            lemma_fix_children_frame(state0, kids, k as int, c as int);
        }
        match state[c].preferred {
            WhConstraint::EqualTo(e) => {
                if positions[c] != LayoutPosition::Absolute {
                    fixed_sum = sat_add(fixed_sum, e);
                }
                let grow = sat_sub(e, state[c].min_inner_size_px);
                let rect = AxisRect { flex_grow_px: grow, ..state[c] };
                state.set(c, rect);
            },
            _ => {},
        }
        k += 1;
    }
    let inner1: Px = sat_sub(inner0, fixed_sum);
    let ghost s1 = state@;
    proof {
        assert forall|i: int|
            0 <= i < tree.n() implies s1[i].preferred == state0[i].preferred
            && s1[i].min_inner_size_px == state0[i].min_inner_size_px by {
            lemma_fix_children_frame(state0, kids, kids.len() as int, i);
        }
    }

    // Flexible children: start them at their minimum; absolute ones
    // resolve against the anchor and never join the pool.
    let mut var_sum: Px = 0;
    let mut pool: Vec<usize> = Vec::new();
    let mut k: usize = 0;
    while k < num_kids
        invariant
            k <= num_kids,
            num_kids == kids.len(),
            kids == tree.children@[p as int]@,
            tree.wf(),
            (p as int) < tree.n(),
            state0.len() == tree.n(),
            s1.len() == tree.n(),
            state@.len() == tree.n(),
            positions@.len() == tree.n(),
            s1 == fix_children_upto(state0, kids, kids.len() as int),
            forall|i: int|
                0 <= i < tree.n() ==> s1[i].preferred == state0[i].preferred
                    && s1[i].min_inner_size_px == state0[i].min_inner_size_px,
            state@ == var_children_upto(state0, s1, positions@, kids, k as int, anchor_w as int),
            var_sum as int == sum_var_upto(state0, positions@, kids, k as int),
            pool@ == pool_upto(state0, positions@, kids, k as int),
        decreases num_kids - k,
    {
        let c = tree.children[p][k];
        proof {
            lemma_fix_children_frame(state0, kids, kids.len() as int, c as int);
            lemma_var_children_frame(
                state0,
                s1,
                positions@,
                kids,
                k as int,
                anchor_w as int,
                c as int,
            );
            assert forall|j: int| 0 <= j < k implies (#[trigger] kids[j] as int) != c as int by {
                assert((kids[j] as int) < (kids[k as int] as int));
            }
        }
        if !state[c].preferred.is_fixed_constraint() {
            let target: Px = if positions[c] != LayoutPosition::Absolute {
                let min_w = match state[c].preferred.min_needed_space() {
                    Some(m) => m,
                    None => 0,
                };
                var_sum = sat_add(var_sum, min_w);
                pool.push(c);
                min_w
            } else {
                match state[c].preferred {
                    WhConstraint::EqualTo(e) => e,
                    WhConstraint::Between(min, max) => {
                        if anchor_w > min {
                            if anchor_w < max {
                                anchor_w
                            } else {
                                max
                            }
                        } else {
                            min
                        }
                    },
                    WhConstraint::Unconstrained => anchor_w,
                }
            };
            let grow = sat_sub(target, state[c].min_inner_size_px);
            let rect = AxisRect { flex_grow_px: grow, ..state[c] };
            state.set(c, rect);
        }
        k += 1;
    }
    let mut avail: Px = sat_sub(inner1, var_sum);

    let ghost target_state = spec_distribute_main(
        state0,
        *tree,
        grows@,
        positions@,
        p as int,
        root_size as int,
    );
    proof {
        lemma_pool_upto_sorted(state0, positions@, kids, kids.len() as int, tree.n());
        assert(target_state == spec_pool_loop(state@, grows@, pool@, avail as int));
    }

    // Hand out the leftover space in proportion to the flex-grow factors;
    // clamp violators to their maximum and return their space.
    loop
        invariant_except_break
            spec_pool_loop(state@, grows@, pool@, avail as int) == target_state,
        invariant
            tree.wf(),
            state@.len() == tree.n(),
            grows@.len() == tree.n(),
            forall|j: int| 0 <= j < pool@.len() ==> (pool@[j] as int) < tree.n(),
            forall|j1: int, j2: int|
                0 <= j1 < j2 < pool@.len() ==> (pool@[j1] as int) < (pool@[j2] as int),
        ensures
            state@ == target_state,
            state@.len() == tree.n(),
        decreases pool@.len(),
    {
        if avail <= 0 || pool.len() == 0 {
            proof {
                assert(spec_pool_loop(state@, grows@, pool@, avail as int) == state@);
            }
            break;
        }
        let ghost iter0 = state@;
        let pool_len = pool.len();
        let mut sum: Px = 0;
        let mut j: usize = 0;
        while j < pool_len
            invariant
                j <= pool_len,
                pool_len == pool@.len(),
                grows@.len() == tree.n(),
                forall|jj: int| 0 <= jj < pool@.len() ==> (pool@[jj] as int) < tree.n(),
                sum as int == sum_grows_upto(grows@, pool@, j as int),
            decreases pool_len - j,
        {
            sum = sat_add(sum, grows[pool[j]] as i64);
            j += 1;
        }
        if sum <= 0 {
            proof {
                assert(spec_pool_loop(state@, grows@, pool@, avail as int) == state@);
            }
            break;
        }
        let share: Px = div_pos(avail, sum);

        let mut viols: Vec<bool> = Vec::new();
        let mut j: usize = 0;
        while j < pool_len
            invariant
                j <= pool_len,
                pool_len == pool@.len(),
                tree.wf(),
                iter0.len() == tree.n(),
                state@.len() == tree.n(),
                grows@.len() == tree.n(),
                forall|jj: int| 0 <= jj < pool@.len() ==> (pool@[jj] as int) < tree.n(),
                forall|j1: int, j2: int|
                    0 <= j1 < j2 < pool@.len() ==> (pool@[j1] as int) < (pool@[j2] as int),
                state@ == pool_assign_upto(iter0, grows@, pool@, j as int, share as int),
                viols@.len() == j,
                forall|jj: int|
                    0 <= jj < j ==> viols@[jj] == is_violation(
                        iter0,
                        grows@,
                        share as int,
                        pool@[jj] as int,
                    ),
            decreases pool_len - j,
        {
            let c = pool[j];
            proof {
                lemma_pool_assign_frame(iter0, grows@, pool@, j as int, share as int, c as int);
            }
            let added = sat_mul(share, grows[c] as i64);
            let cur = state[c].total();
            let viol: bool = match state[c].preferred.max_available_space() {
                Some(m) => sat_add(cur, added) > m,
                None => false,
            };
            let target: Px = if viol {
                match state[c].preferred.max_available_space() {
                    Some(m) => m,
                    None => 0,
                }
            } else {
                added
            };
            let grow = sat_sub(target, state[c].min_inner_size_px);
            let rect = AxisRect { flex_grow_px: grow, ..state[c] };
            state.set(c, rect);
            viols.push(viol);
            j += 1;
        }

        let mut new_pool: Vec<usize> = Vec::new();
        let mut new_avail: Px = avail;
        let mut had: bool = false;
        let mut j: usize = 0;
        while j < pool_len
            invariant
                j <= pool_len,
                pool_len == pool@.len(),
                state@.len() == tree.n(),
                viols@.len() == pool_len,
                forall|jj: int| 0 <= jj < pool@.len() ==> (pool@[jj] as int) < tree.n(),
                forall|jj: int|
                    0 <= jj < pool_len ==> viols@[jj] == is_violation(
                        iter0,
                        grows@,
                        share as int,
                        pool@[jj] as int,
                    ),
                new_pool@ == remaining_pool_upto(iter0, grows@, pool@, j as int, share as int),
                new_avail as int == avail_after_removals_upto(
                    state@,
                    iter0,
                    grows@,
                    pool@,
                    j as int,
                    share as int,
                    avail as int,
                ),
                had == any_violation(iter0, grows@, pool@, j as int, share as int),
            decreases pool_len - j,
        {
            let c = pool[j];
            if viols[j] {
                had = true;
                new_avail = sat_sub(new_avail, state[c].total());
            } else {
                new_pool.push(c);
            }
            proof {
                if viols@[j as int] {
                    assert(is_violation(iter0, grows@, share as int, pool@[j as int] as int));
                    assert(any_violation(iter0, grows@, pool@, j + 1, share as int));
                } else if !had {
                    assert forall|jj: int| 0 <= jj < j + 1 implies !is_violation(
                        iter0,
                        grows@,
                        share as int,
                        pool@[jj] as int,
                    ) by {
                        if jj < j {
                            if is_violation(iter0, grows@, share as int, pool@[jj] as int) {
                                assert(any_violation(iter0, grows@, pool@, j as int, share as int));
                            }
                        }
                    }
                }
            }
            j += 1;
        }

        if !had {
            proof {
                assert(state@ == pool_assign_upto(
                    iter0,
                    grows@,
                    pool@,
                    pool_len as int,
                    share as int,
                ));
                assert(spec_pool_loop(iter0, grows@, pool@, avail as int) == state@);
            }
            break;
        }
        proof {
            lemma_remaining_pool_len(iter0, grows@, pool@, pool_len as int, share as int);
            lemma_remaining_pool_sorted(iter0, grows@, pool@, pool_len as int, share as int);
            assert forall|jj: int| 0 <= jj < new_pool@.len() implies (new_pool@[jj] as int)
                < tree.n() by {
                let j0 = choose|j0: int|
                    0 <= j0 < pool_len && pool@[j0] == new_pool@[jj];
            }
            assert(spec_pool_loop(iter0, grows@, pool@, avail as int) == spec_pool_loop(
                state@,
                grows@,
                new_pool@,
                new_avail as int,
            ));
        }
        pool = new_pool;
        avail = new_avail;
    }
    state
}

/// Stretches the children of parent `p` to fill its cross-axis inner
/// space.
fn distribute_space_along_cross_axis(
    state: Vec<AxisRect>,
    tree: &NodeHierarchy,
    positions: &Vec<LayoutPosition>,
    p: usize,
    root_size: Px,
) -> (r: Vec<AxisRect>)
    requires
        tree.wf(),
        (p as int) < tree.n(),
        state@.len() == tree.n(),
        positions@.len() == tree.n(),
    ensures
        r@ == spec_distribute_cross(state@, *tree, positions@, p as int, root_size as int),
        r@.len() == tree.n(),
{
    let ghost state0 = state@;
    let ghost kids = tree.children@[p as int]@;
    let mut state = state;

    let parent_ref: Px = if p == 0 {
        root_size
    } else {
        match state[tree.parent[p]].preferred.max_available_space() {
            Some(m) => m,
            None => root_size,
        }
    };
    let inner: Px = sat_sub(state[p].total(), state[p].get_padding(parent_ref));

    let anchor: usize = if positions[p] != LayoutPosition::Static {
        p
    } else {
        0
    };
    let anchor_ref: Px = if anchor == 0 {
        root_size
    } else {
        match state[tree.parent[anchor]].preferred.max_available_space() {
            Some(m) => m,
            None => root_size,
        }
    };
    let anchor_inner: Px = sat_sub(state[anchor].total(), state[anchor].get_padding(anchor_ref));

    let num_kids = tree.children[p].len();
    let mut k: usize = 0;
    while k < num_kids
        invariant
            k <= num_kids,
            num_kids == kids.len(),
            kids == tree.children@[p as int]@,
            tree.wf(),
            (p as int) < tree.n(),
            state0.len() == tree.n(),
            state@.len() == tree.n(),
            positions@.len() == tree.n(),
            state@ == cross_children_upto(
                state0,
                positions@,
                kids,
                k as int,
                inner as int,
                anchor_inner as int,
            ),
        decreases num_kids - k,
    {
        let c = tree.children[p][k];
        proof {
            lemma_cross_children_frame(
                state0,
                positions@,
                kids,
                k as int,
                inner as int,
                anchor_inner as int,
                c as int,
            );
        }
        let space: Px = if positions[c] != LayoutPosition::Absolute {
            inner
        } else {
            anchor_inner
        };
        let min_w: Px = match state[c].preferred.min_needed_space() {
            Some(m) => m,
            None => 0,
        };
        let target: Px = if min_w > space {
            min_w
        } else {
            match state[c].preferred.max_available_space() {
                Some(mx) => if mx > space {
                    space
                } else {
                    mx
                },
                None => space,
            }
        };
        let grow = sat_sub(target, state[c].min_inner_size_px);
        let rect = AxisRect { flex_grow_px: grow, ..state[c] };
        state.set(c, rect);
        k += 1;
    }
    state
}

/// The cross-axis stretch changes no field but `flex_grow_px`, and leaves
/// children outside the first `k` untouched.
pub proof fn lemma_cross_children_frame(
    state0: Seq<AxisRect>,
    positions: Seq<LayoutPosition>,
    kids: Seq<usize>,
    k: int,
    inner: int,
    anchor_inner: int,
    i: int,
)
    requires
        0 <= k,
        0 <= i < state0.len(),
        forall|j: int| 0 <= j < k ==> 0 <= (#[trigger] kids[j] as int) < state0.len(),
    ensures
        cross_children_upto(state0, positions, kids, k, inner, anchor_inner).len()
            == state0.len(),
        cross_children_upto(state0, positions, kids, k, inner, anchor_inner)[i].preferred
            == state0[i].preferred,
        cross_children_upto(state0, positions, kids, k, inner, anchor_inner)[i].min_inner_size_px
            == state0[i].min_inner_size_px,
        (forall|j: int| 0 <= j < k ==> (kids[j] as int) != i) ==> cross_children_upto(
            state0,
            positions,
            kids,
            k,
            inner,
            anchor_inner,
        )[i] == state0[i],
    decreases k,
{
    if k > 0 {
        lemma_cross_children_frame(state0, positions, kids, k - 1, inner, anchor_inner, i);
    }
}

/// The flex-grow distribution pass: sets the root's growth to fill the
/// viewport (clamped below the root's maximum), then walks parents
/// root-first, restricted to the recalculation set, distributing along the
/// main axis or stretching along the cross axis.
pub fn apply_flex_grow(
    state: Vec<AxisRect>,
    tree: &NodeHierarchy,
    grows: &Vec<u32>,
    positions: &Vec<LayoutPosition>,
    directions: &Vec<LayoutFlexDirection>,
    axis: LayoutAxis,
    root_size: Px,
    recalc: &Vec<bool>,
) -> (r: Vec<AxisRect>)
    requires
        tree.wf(),
        state@.len() == tree.n(),
        grows@.len() == tree.n(),
        positions@.len() == tree.n(),
        directions@.len() == tree.n(),
        recalc@.len() == tree.n(),
    ensures
        r@ == spec_apply_flex_grow(
            state@,
            *tree,
            grows@,
            positions@,
            directions@,
            axis,
            root_size as int,
            recalc@,
        ),
        r@.len() == tree.n(),
{
    let ghost state0 = state@;
    let mut state = state;

    let root_preferred: Px = match state[0].preferred.max_available_space() {
        Some(mw) => if root_size > mw {
            mw
        } else {
            root_size
        },
        None => root_size,
    };
    let root_grow = sat_sub(root_preferred, state[0].min_inner_size_px);
    let root_rect = AxisRect { flex_grow_px: root_grow, ..state[0] };
    state.set(0, root_rect);
    let ghost sroot = state@;
    proof {
        assert(sroot == root_grow_step(state0, root_size as int));
    }

    let num_parents = tree.parents_ordered.len();
    let mut k: usize = 0;
    while k < num_parents
        invariant
            k <= num_parents,
            num_parents == tree.parents_ordered@.len(),
            tree.wf(),
            grows@.len() == tree.n(),
            positions@.len() == tree.n(),
            directions@.len() == tree.n(),
            recalc@.len() == tree.n(),
            state@.len() == tree.n(),
            state@ == dist_upto(
                sroot,
                *tree,
                grows@,
                positions@,
                directions@,
                axis,
                root_size as int,
                recalc@,
                k as int,
            ),
        decreases num_parents - k,
    {
        let p = tree.parents_ordered[k];
        if recalc[p] {
            if directions[p].get_axis() == axis {
                state = distribute_space_along_main_axis(
                    state,
                    tree,
                    grows,
                    positions,
                    p,
                    root_size,
                );
            } else {
                state = distribute_space_along_cross_axis(state, tree, positions, p, root_size);
            }
        }
        k += 1;
    }
    state
}

} // verus!
