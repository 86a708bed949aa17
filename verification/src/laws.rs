//! Global properties of the solver, stated and proved over the pass
//! specifications:
//!
//! - idempotence: two layout results of the same inputs are identical;
//! - constraint satisfaction: an exact-size child resolves to exactly its
//!   size through the whole distribution pass; a flexible child never
//!   exceeds its maximum and never goes below zero; the cross-axis
//!   stretch lands inside the child's bounds;
//! - no negative space: one distribution round hands out at most the
//!   available space, and a pool without maximum constraints ends with
//!   summed sizes within the budget;
//! - absolute exclusion: absolutely positioned children affect neither
//!   the summed minimum sizes (bubble pass) nor the sizes (distribution
//!   pass) nor the start coordinates (position pass) of their siblings in
//!   the regular flow.
//!
//! The arithmetic hypotheses (`SANE_PX`) keep the values far enough from
//! the representation limits that the saturating pixel arithmetic is
//! exact.

use vstd::prelude::*;

use crate::constraint::{AxisRect, WhConstraint};
use crate::distribute::{
    absolute_child_size, anchor_inner_space, anchor_of, any_violation, cross_children_upto,
    fix_children_upto, is_violation, lemma_pool_assign_frame, lemma_pool_upto_members,
    lemma_pool_upto_sorted, lemma_remaining_pool_len, lemma_remaining_pool_sorted,
    parent_inner_space, pool_assign_upto, pool_upto, remaining_pool_upto, spec_distribute_cross,
    spec_distribute_main, spec_pool_loop, sum_fixed_upto, sum_grows_upto, sum_var_upto,
    var_children_upto,
};
use crate::px::{sat_add_spec, sat_sub_spec, Px};
use crate::rects::LayoutRect;
use crate::style::{LayoutPosition, NodeStyle};
use crate::tree::NodeHierarchy;
use crate::{is_layout_of, LayoutInput, LayoutResult};

verus! {

/// A bound under which the solver's saturating pixel arithmetic is exact:
/// every sum or difference of two values below it stays representable.
pub const SANE_PX: Px = 0x1000_0000_0000_0000;

/// The proportional distribution never touches a node outside its pool.
pub proof fn lemma_spec_pool_frame(
    state: Seq<AxisRect>,
    grows: Seq<u32>,
    pool: Seq<usize>,
    avail: int,
    i: int,
)
    requires
        0 <= i < state.len(),
        forall|j: int| 0 <= j < pool.len() ==> 0 <= (#[trigger] pool[j] as int) < state.len(),
        forall|j: int| 0 <= j < pool.len() ==> (#[trigger] pool[j] as int) != i,
        forall|j1: int, j2: int|
            0 <= j1 < j2 < pool.len() ==> (pool[j1] as int) < (pool[j2] as int),
    ensures
        spec_pool_loop(state, grows, pool, avail).len() == state.len(),
        spec_pool_loop(state, grows, pool, avail)[i] == state[i],
    decreases pool.len(),
{
    if !(avail <= 0 || pool.len() == 0) {
        let sum = sum_grows_upto(grows, pool, pool.len() as int);
        if sum > 0 {
            let share = avail / sum;
            let ns = pool_assign_upto(state, grows, pool, pool.len() as int, share);
            lemma_pool_assign_frame(state, grows, pool, pool.len() as int, share, i);
            if any_violation(state, grows, pool, pool.len() as int, share) {
                let pool2 = remaining_pool_upto(state, grows, pool, pool.len() as int, share);
                lemma_remaining_pool_len(state, grows, pool, pool.len() as int, share);
                lemma_remaining_pool_sorted(state, grows, pool, pool.len() as int, share);
                assert forall|j: int| 0 <= j < pool2.len() implies 0 <= (#[trigger] pool2[j] as int)
                    < state.len() && (pool2[j] as int) != i by {
                    let j0 = choose|j0: int| 0 <= j0 < pool.len() && pool[j0] == pool2[j];
                    assert((pool[j0] as int) != i);
                }
                let avail2 = crate::distribute::avail_after_removals_upto(
                    ns,
                    state,
                    grows,
                    pool,
                    pool.len() as int,
                    share,
                    avail,
                );
                lemma_spec_pool_frame(ns, grows, pool2, avail2, i);
            }
        }
    }
}

/// The value the exact-size pass writes at a child with an exact
/// constraint.
pub proof fn lemma_fix_children_at(state0: Seq<AxisRect>, kids: Seq<usize>, k: int, kc: int)
    requires
        0 <= kc < k <= kids.len(),
        forall|j: int| 0 <= j < kids.len() ==> 0 <= (#[trigger] kids[j] as int) < state0.len(),
        forall|j1: int, j2: int|
            0 <= j1 < j2 < kids.len() ==> (kids[j1] as int) < (kids[j2] as int),
    ensures
        ({
            let c = kids[kc] as int;
            match state0[c].preferred {
                WhConstraint::EqualTo(e) => fix_children_upto(state0, kids, k)[c] == AxisRect {
                    flex_grow_px: sat_sub_spec(e as int, state0[c].min_inner_size_px as int) as Px,
                    ..state0[c]
                },
                _ => fix_children_upto(state0, kids, k)[c] == state0[c],
            }
        }),
    decreases k,
{
    let c = kids[kc] as int;
    crate::distribute::lemma_fix_children_frame(state0, kids, k - 1, c);
    if k - 1 > kc {
        lemma_fix_children_at(state0, kids, k - 1, kc);
        assert((kids[kc] as int) < (kids[k - 1] as int));
    } else {
        assert forall|j: int| 0 <= j < k - 1 implies (#[trigger] kids[j] as int) != c by {
            assert((kids[j] as int) < (kids[kc] as int));
        }
    }
}

/// Constraint satisfaction for exact sizes (main axis): a child of `p`
/// whose constraint is `EqualTo(e)` resolves to exactly `e` after the
/// main-axis distribution of `p`, whatever its siblings do, for sizes
/// within the sane range.
pub proof fn lemma_main_axis_exact_child(
    state: Seq<AxisRect>,
    tree: NodeHierarchy,
    grows: Seq<u32>,
    positions: Seq<LayoutPosition>,
    p: int,
    root_size: int,
    kc: int,
    e: Px,
)
    requires
        tree.wf(),
        0 <= p < tree.n(),
        state.len() == tree.n(),
        positions.len() == tree.n(),
        0 <= kc < tree.children@[p]@.len(),
        state[tree.children@[p]@[kc] as int].preferred == WhConstraint::EqualTo(e),
        -SANE_PX <= e <= SANE_PX,
        -SANE_PX <= state[tree.children@[p]@[kc] as int].min_inner_size_px <= SANE_PX,
    ensures
        spec_distribute_main(state, tree, grows, positions, p, root_size)[tree.children@[p]@[kc]
            as int].total_spec() == e,
{
    let kids = tree.children@[p]@;
    let nk = kids.len() as int;
    let c = kids[kc] as int;
    let s1 = fix_children_upto(state, kids, nk);
    lemma_fix_children_at(state, kids, nk, kc);
    crate::distribute::lemma_fix_children_frame(state, kids, nk, c);
    let anchor_w = state[anchor_of(positions, p)].total_spec();
    let s2 = var_children_upto(state, s1, positions, kids, nk, anchor_w);
    crate::distribute::lemma_var_children_frame(state, s1, positions, kids, nk, anchor_w, c);
    let pool0 = pool_upto(state, positions, kids, nk);
    lemma_pool_upto_members(state, positions, kids, nk);
    lemma_pool_upto_sorted(state, positions, kids, nk, tree.n());
    assert forall|j: int| 0 <= j < pool0.len() implies (#[trigger] pool0[j] as int) != c by {
        assert(!state[pool0[j] as int].preferred.is_fixed_constraint_spec());
    }
    let avail = sat_sub_spec(
        sat_sub_spec(
            parent_inner_space(state, tree, p, root_size),
            sum_fixed_upto(state, positions, kids, nk),
        ),
        sum_var_upto(state, positions, kids, nk),
    );
    lemma_spec_pool_frame(s2, grows, pool0, avail, c);
    assert(spec_distribute_main(state, tree, grows, positions, p, root_size)[c] == s1[c]);
}

/// The value the cross-axis stretch writes at a child.
pub proof fn lemma_cross_children_at(
    state0: Seq<AxisRect>,
    positions: Seq<LayoutPosition>,
    kids: Seq<usize>,
    k: int,
    kc: int,
    inner: int,
    anchor_inner: int,
)
    requires
        0 <= kc < k <= kids.len(),
        forall|j: int| 0 <= j < kids.len() ==> 0 <= (#[trigger] kids[j] as int) < state0.len(),
        forall|j1: int, j2: int|
            0 <= j1 < j2 < kids.len() ==> (kids[j1] as int) < (kids[j2] as int),
    ensures
        ({
            let c = kids[kc] as int;
            let space = if positions[c] != LayoutPosition::Absolute {
                inner
            } else {
                anchor_inner
            };
            let min_w = match state0[c].preferred.min_needed_space_spec() {
                Some(m) => m,
                None => 0,
            };
            let target = if min_w > space {
                min_w
            } else {
                match state0[c].preferred.max_available_space_spec() {
                    Some(mx) => if mx > space {
                        space
                    } else {
                        mx
                    },
                    None => space,
                }
            };
            cross_children_upto(state0, positions, kids, k, inner, anchor_inner)[c] == AxisRect {
                flex_grow_px: sat_sub_spec(target, state0[c].min_inner_size_px as int) as Px,
                ..state0[c]
            }
        }),
    decreases k,
{
    let c = kids[kc] as int;
    crate::distribute::lemma_cross_children_frame(
        state0,
        positions,
        kids,
        k - 1,
        inner,
        anchor_inner,
        c,
    );
    if k - 1 > kc {
        lemma_cross_children_at(state0, positions, kids, k - 1, kc, inner, anchor_inner);
        assert((kids[kc] as int) < (kids[k - 1] as int));
    } else {
        assert forall|j: int| 0 <= j < k - 1 implies (#[trigger] kids[j] as int) != c by {
            assert((kids[j] as int) < (kids[kc] as int));
        }
    }
}

/// Constraint satisfaction on the cross axis: after the cross-axis
/// stretch of parent `p`, a child whose constraint is `Between(min, max)`
/// with `0 <= min <= max` resolves into `[min, max]`, and one whose
/// constraint is `EqualTo(e)` resolves to exactly `e`, for sizes within
/// the sane range.
pub proof fn lemma_cross_axis_constraints(
    state: Seq<AxisRect>,
    tree: NodeHierarchy,
    positions: Seq<LayoutPosition>,
    p: int,
    root_size: int,
    kc: int,
)
    requires
        tree.wf(),
        0 <= p < tree.n(),
        state.len() == tree.n(),
        positions.len() == tree.n(),
        0 <= kc < tree.children@[p]@.len(),
        -SANE_PX <= state[tree.children@[p]@[kc] as int].min_inner_size_px <= SANE_PX,
        -SANE_PX <= parent_inner_space(state, tree, p, root_size) <= SANE_PX,
        -SANE_PX <= anchor_inner_space(state, tree, positions, p, root_size) <= SANE_PX,
    ensures
        ({
            let c = tree.children@[p]@[kc] as int;
            let total = spec_distribute_cross(state, tree, positions, p, root_size)[c].total_spec();
            match state[c].preferred {
                WhConstraint::EqualTo(e) => (-SANE_PX <= e <= SANE_PX) ==> total == e,
                WhConstraint::Between(min, max) => (0 <= min <= max <= SANE_PX) ==> min <= total
                    <= max,
                WhConstraint::Unconstrained => true,
            }
        }),
{
    let kids = tree.children@[p]@;
    let nk = kids.len() as int;
    let c = kids[kc] as int;
    let inner = parent_inner_space(state, tree, p, root_size);
    let anchor_inner = anchor_inner_space(state, tree, positions, p, root_size);
    lemma_cross_children_at(state, positions, kids, nk, kc, inner, anchor_inner);
}

/// Idempotence: two layout results of the same tree, styles, viewport and
/// inputs are identical in every output array.
pub proof fn lemma_layout_idempotent(
    r1: LayoutResult,
    r2: LayoutResult,
    tree: NodeHierarchy,
    styles: Seq<NodeStyle>,
    bounds: LayoutRect,
    input: LayoutInput,
)
    requires
        is_layout_of(r1, tree, styles, bounds, input),
        is_layout_of(r2, tree, styles, bounds, input),
    ensures
        r1.rects@ == r2.rects@,
        r1.width_calculated_rects@ == r2.width_calculated_rects@,
        r1.height_calculated_rects@ == r2.height_calculated_rects@,
        r1.solved_pos_x@ == r2.solved_pos_x@,
        r1.solved_pos_y@ == r2.solved_pos_y@,
        r1.scrollable_nodes.overflowing_nodes@ == r2.scrollable_nodes.overflowing_nodes@,
        r1.scrollable_nodes.tags_to_node_ids@ == r2.scrollable_nodes.tags_to_node_ids@,
        r1.layout_positions@ == r2.layout_positions@,
        r1.layout_flex_grows@ == r2.layout_flex_grows@,
        r1.layout_flex_directions@ == r2.layout_flex_directions@,
        r1.layout_justify_contents@ == r2.layout_justify_contents@,
{
}

/// The value the proportional assignment writes at pool member `jc`.
pub proof fn lemma_pool_assign_at(
    state0: Seq<AxisRect>,
    grows: Seq<u32>,
    pool: Seq<usize>,
    k: int,
    jc: int,
    share: int,
)
    requires
        0 <= jc < k <= pool.len(),
        forall|j: int| 0 <= j < pool.len() ==> 0 <= (#[trigger] pool[j] as int) < state0.len(),
        forall|j1: int, j2: int|
            0 <= j1 < j2 < pool.len() ==> (pool[j1] as int) < (pool[j2] as int),
    ensures
        ({
            let c = pool[jc] as int;
            let target = if is_violation(state0, grows, share, c) {
                match state0[c].preferred.max_available_space_spec() {
                    Some(m) => m,
                    None => 0,
                }
            } else {
                crate::px::sat_mul_spec(share, grows[c] as int)
            };
            pool_assign_upto(state0, grows, pool, k, share)[c] == AxisRect {
                flex_grow_px: sat_sub_spec(target, state0[c].min_inner_size_px as int) as Px,
                ..state0[c]
            }
        }),
    decreases k,
{
    let c = pool[jc] as int;
    lemma_pool_assign_frame(state0, grows, pool, k - 1, share, c);
    if k - 1 > jc {
        lemma_pool_assign_at(state0, grows, pool, k - 1, jc, share);
        assert((pool[jc] as int) < (pool[k - 1] as int));
    } else {
        assert forall|j: int| 0 <= j < k - 1 implies (#[trigger] pool[j] as int) != c by {
            assert((pool[j] as int) < (pool[jc] as int));
        }
    }
}

/// The proportional distribution of a pool depends only on the pool
/// members' own data and factors: two states agreeing there give the same
/// results at every member.
pub proof fn lemma_pool_loop_two_state(
    sa: Seq<AxisRect>,
    sb: Seq<AxisRect>,
    grows_a: Seq<u32>,
    grows_b: Seq<u32>,
    pool: Seq<usize>,
    avail: int,
)
    requires
        sa.len() == sb.len(),
        forall|j: int| 0 <= j < pool.len() ==> 0 <= (#[trigger] pool[j] as int) < sa.len(),
        forall|j1: int, j2: int|
            0 <= j1 < j2 < pool.len() ==> (pool[j1] as int) < (pool[j2] as int),
        forall|j: int|
            0 <= j < pool.len() ==> sa[(#[trigger] pool[j] as int)] == sb[(pool[j] as int)],
        forall|j: int|
            0 <= j < pool.len() ==> grows_a[(#[trigger] pool[j] as int)] == grows_b[(
            pool[j] as int)],
    ensures
        forall|j: int|
            0 <= j < pool.len() ==> spec_pool_loop(sa, grows_a, pool, avail)[(#[trigger] pool[j]
                as int)] == spec_pool_loop(sb, grows_b, pool, avail)[(pool[j] as int)],
    decreases pool.len(),
{
    if !(avail <= 0 || pool.len() == 0) {
        lemma_sum_grows_two_state(grows_a, grows_b, pool, pool.len() as int);
        let sum = sum_grows_upto(grows_a, pool, pool.len() as int);
        if sum > 0 {
            let share = avail / sum;
            let nsa = pool_assign_upto(sa, grows_a, pool, pool.len() as int, share);
            let nsb = pool_assign_upto(sb, grows_b, pool, pool.len() as int, share);
            assert forall|j: int| 0 <= j < pool.len() implies nsa[(#[trigger] pool[j] as int)]
                == nsb[(pool[j] as int)] by {
                lemma_pool_assign_at(sa, grows_a, pool, pool.len() as int, j, share);
                lemma_pool_assign_at(sb, grows_b, pool, pool.len() as int, j, share);
            }
            assert forall|j: int|
                0 <= j < pool.len() implies (is_violation(sa, grows_a, share, pool[j] as int)
                == is_violation(sb, grows_b, share, #[trigger] pool[j] as int)) by {}
            lemma_remaining_two_state(sa, sb, grows_a, grows_b, pool, pool.len() as int, share);
            lemma_avail_two_state(
                nsa,
                nsb,
                sa,
                sb,
                grows_a,
                grows_b,
                pool,
                pool.len() as int,
                share,
                avail,
            );
            if any_violation(sa, grows_a, pool, pool.len() as int, share) {
                assert(any_violation(sb, grows_b, pool, pool.len() as int, share));
                let pool2 = remaining_pool_upto(sa, grows_a, pool, pool.len() as int, share);
                lemma_remaining_pool_len(sa, grows_a, pool, pool.len() as int, share);
                lemma_remaining_pool_sorted(sa, grows_a, pool, pool.len() as int, share);
                lemma_pool_assign_frame(sa, grows_a, pool, pool.len() as int, share, 0);
                lemma_pool_assign_frame(sb, grows_b, pool, pool.len() as int, share, 0);
                assert forall|j: int| 0 <= j < pool2.len() implies 0 <= (#[trigger] pool2[j] as int)
                    < nsa.len() && nsa[(pool2[j] as int)] == nsb[(pool2[j] as int)] && grows_a[(
                pool2[j] as int)] == grows_b[(pool2[j] as int)] by {
                    let j0 = choose|j0: int| 0 <= j0 < pool.len() && pool[j0] == pool2[j];
                    assert(nsa[(pool[j0] as int)] == nsb[(pool[j0] as int)]);
                }
                let avail2 = crate::distribute::avail_after_removals_upto(
                    nsa,
                    sa,
                    grows_a,
                    pool,
                    pool.len() as int,
                    share,
                    avail,
                );
                lemma_pool_loop_two_state(nsa, nsb, grows_a, grows_b, pool2, avail2);
                assert forall|j: int|
                    0 <= j < pool.len() implies spec_pool_loop(sa, grows_a, pool, avail)[(
                #[trigger] pool[j] as int)] == spec_pool_loop(sb, grows_b, pool, avail)[(
                pool[j] as int)] by {
                    let c = pool[j] as int;
                    if is_violation(sa, grows_a, share, c) {
                        lemma_not_in_remaining(sa, grows_a, pool, pool.len() as int, share, j);
                        lemma_spec_pool_frame(nsa, grows_a, pool2, avail2, c);
                        lemma_spec_pool_frame(nsb, grows_b, pool2, avail2, c);
                    } else {
                        lemma_in_remaining(sa, grows_a, pool, pool.len() as int, share, j);
                        let j2 = choose|j2: int|
                            0 <= j2 < pool2.len() && pool2[j2] == pool[j];
                    }
                }
            }
        }
    }
}

/// The summed factors of a pool depend only on the members' factors.
pub proof fn lemma_sum_grows_two_state(
    grows_a: Seq<u32>,
    grows_b: Seq<u32>,
    pool: Seq<usize>,
    k: int,
)
    requires
        0 <= k <= pool.len(),
        forall|j: int|
            0 <= j < pool.len() ==> grows_a[(#[trigger] pool[j] as int)] == grows_b[(
            pool[j] as int)],
    ensures
        sum_grows_upto(grows_a, pool, k) == sum_grows_upto(grows_b, pool, k),
    decreases k,
{
    if k > 0 {
        lemma_sum_grows_two_state(grows_a, grows_b, pool, k - 1);
    }
}

/// The surviving pool depends only on the members' data and factors.
pub proof fn lemma_remaining_two_state(
    sa: Seq<AxisRect>,
    sb: Seq<AxisRect>,
    grows_a: Seq<u32>,
    grows_b: Seq<u32>,
    pool: Seq<usize>,
    k: int,
    share: int,
)
    requires
        0 <= k <= pool.len(),
        forall|j: int|
            0 <= j < pool.len() ==> sa[(#[trigger] pool[j] as int)] == sb[(pool[j] as int)],
        forall|j: int|
            0 <= j < pool.len() ==> grows_a[(#[trigger] pool[j] as int)] == grows_b[(
            pool[j] as int)],
    ensures
        remaining_pool_upto(sa, grows_a, pool, k, share) == remaining_pool_upto(
            sb,
            grows_b,
            pool,
            k,
            share,
        ),
        any_violation(sa, grows_a, pool, k, share) == any_violation(sb, grows_b, pool, k, share),
    decreases k,
{
    if k > 0 {
        lemma_remaining_two_state(sa, sb, grows_a, grows_b, pool, k - 1, share);
        if any_violation(sa, grows_a, pool, k, share) && !any_violation(
            sa,
            grows_a,
            pool,
            k - 1,
            share,
        ) {
            assert(is_violation(sa, grows_a, share, pool[k - 1] as int) || any_violation(
                sa,
                grows_a,
                pool,
                k - 1,
                share,
            ));
        }
        if any_violation(sb, grows_b, pool, k, share) && !any_violation(
            sb,
            grows_b,
            pool,
            k - 1,
            share,
        ) {
            assert(is_violation(sb, grows_b, share, pool[k - 1] as int) || any_violation(
                sb,
                grows_b,
                pool,
                k - 1,
                share,
            ));
        }
        if is_violation(sa, grows_a, share, pool[k - 1] as int) {
            assert(any_violation(sa, grows_a, pool, k, share));
            assert(any_violation(sb, grows_b, pool, k, share));
        }
    }
}

/// The budget left after removals depends only on the members' data.
pub proof fn lemma_avail_two_state(
    nsa: Seq<AxisRect>,
    nsb: Seq<AxisRect>,
    sa: Seq<AxisRect>,
    sb: Seq<AxisRect>,
    grows_a: Seq<u32>,
    grows_b: Seq<u32>,
    pool: Seq<usize>,
    k: int,
    share: int,
    avail: int,
)
    requires
        0 <= k <= pool.len(),
        forall|j: int|
            0 <= j < pool.len() ==> sa[(#[trigger] pool[j] as int)] == sb[(pool[j] as int)],
        forall|j: int|
            0 <= j < pool.len() ==> grows_a[(#[trigger] pool[j] as int)] == grows_b[(
            pool[j] as int)],
        forall|j: int|
            0 <= j < pool.len() ==> nsa[(#[trigger] pool[j] as int)] == nsb[(pool[j] as int)],
    ensures
        crate::distribute::avail_after_removals_upto(nsa, sa, grows_a, pool, k, share, avail)
            == crate::distribute::avail_after_removals_upto(
            nsb,
            sb,
            grows_b,
            pool,
            k,
            share,
            avail,
        ),
    decreases k,
{
    if k > 0 {
        lemma_avail_two_state(nsa, nsb, sa, sb, grows_a, grows_b, pool, k - 1, share, avail);
    }
}

/// A violating member does not survive into the next round.
pub proof fn lemma_not_in_remaining(
    state0: Seq<AxisRect>,
    grows: Seq<u32>,
    pool: Seq<usize>,
    k: int,
    share: int,
    jc: int,
)
    requires
        0 <= jc < pool.len(),
        0 <= k <= pool.len(),
        is_violation(state0, grows, share, pool[jc] as int),
        forall|j1: int, j2: int|
            0 <= j1 < j2 < pool.len() ==> (pool[j1] as int) < (pool[j2] as int),
    ensures
        forall|j: int|
            0 <= j < remaining_pool_upto(state0, grows, pool, k, share).len() ==> (
            #[trigger] remaining_pool_upto(state0, grows, pool, k, share)[j] as int) != (
            pool[jc] as int),
    decreases k,
{
    if k > 0 {
        lemma_not_in_remaining(state0, grows, pool, k - 1, share, jc);
        let prev = remaining_pool_upto(state0, grows, pool, k - 1, share);
        let cur = remaining_pool_upto(state0, grows, pool, k, share);
        assert forall|j: int| 0 <= j < cur.len() implies (#[trigger] cur[j] as int) != (
        pool[jc] as int) by {
            if !is_violation(state0, grows, share, pool[k - 1] as int) && j == prev.len() {
                assert(cur[j] == pool[k - 1]);
                if jc == k - 1 {
                    assert(false);
                } else {
                    assert((pool[k - 1] as int) != (pool[jc] as int));
                }
            } else {
                assert(cur[j] == prev[j]);
            }
        }
    }
}

/// A non-violating member survives into the next round.
pub proof fn lemma_in_remaining(
    state0: Seq<AxisRect>,
    grows: Seq<u32>,
    pool: Seq<usize>,
    k: int,
    share: int,
    jc: int,
)
    requires
        0 <= jc < k <= pool.len(),
        !is_violation(state0, grows, share, pool[jc] as int),
    ensures
        exists|j: int|
            0 <= j < remaining_pool_upto(state0, grows, pool, k, share).len()
                && remaining_pool_upto(state0, grows, pool, k, share)[j] == pool[jc],
    decreases k,
{
    if k - 1 > jc {
        lemma_in_remaining(state0, grows, pool, k - 1, share, jc);
        let prev = remaining_pool_upto(state0, grows, pool, k - 1, share);
        let cur = remaining_pool_upto(state0, grows, pool, k, share);
        let j = choose|j: int| 0 <= j < prev.len() && prev[j] == pool[jc];
        assert(cur[j] == pool[jc]);
    } else {
        let prev = remaining_pool_upto(state0, grows, pool, k - 1, share);
        let cur = remaining_pool_upto(state0, grows, pool, k, share);
        assert(cur[prev.len() as int] == pool[jc]);
    }
}

/// The exact-size pass depends only on each child's own data: two states
/// agreeing at the non-absolute children agree there afterwards.
pub proof fn lemma_fix_two_state(
    sa: Seq<AxisRect>,
    sb: Seq<AxisRect>,
    positions: Seq<LayoutPosition>,
    kids: Seq<usize>,
    k: int,
)
    requires
        0 <= k <= kids.len(),
        sa.len() == sb.len(),
        forall|j: int| 0 <= j < kids.len() ==> 0 <= (#[trigger] kids[j] as int) < sa.len(),
        forall|j1: int, j2: int|
            0 <= j1 < j2 < kids.len() ==> (kids[j1] as int) < (kids[j2] as int),
        forall|j: int|
            0 <= j < kids.len() && positions[(#[trigger] kids[j] as int)]
                != LayoutPosition::Absolute ==> sa[(kids[j] as int)] == sb[(kids[j] as int)],
    ensures
        forall|j: int|
            0 <= j < kids.len() && positions[(#[trigger] kids[j] as int)]
                != LayoutPosition::Absolute ==> fix_children_upto(sa, kids, k)[(kids[j] as int)]
                == fix_children_upto(sb, kids, k)[(kids[j] as int)],
    decreases k,
{
    if k > 0 {
        lemma_fix_two_state(sa, sb, positions, kids, k - 1);
        assert forall|j: int|
            0 <= j < kids.len() && positions[(#[trigger] kids[j] as int)]
                != LayoutPosition::Absolute implies fix_children_upto(sa, kids, k)[(
        kids[j] as int)] == fix_children_upto(sb, kids, k)[(kids[j] as int)] by {
            crate::distribute::lemma_fix_children_frame(sa, kids, k - 1, kids[j] as int);
            crate::distribute::lemma_fix_children_frame(sb, kids, k - 1, kids[j] as int);
            if j != k - 1 {
                assert((kids[j] as int) != (kids[k - 1] as int));
            }
        }
    }
}

/// The variable-size preparation depends only on each non-absolute
/// child's own data.
pub proof fn lemma_var_two_state(
    sa0: Seq<AxisRect>,
    sb0: Seq<AxisRect>,
    sa: Seq<AxisRect>,
    sb: Seq<AxisRect>,
    positions: Seq<LayoutPosition>,
    kids: Seq<usize>,
    k: int,
    anchor_wa: int,
    anchor_wb: int,
)
    requires
        0 <= k <= kids.len(),
        sa0.len() == sb0.len(),
        sa.len() == sa0.len(),
        sb.len() == sb0.len(),
        forall|j: int| 0 <= j < kids.len() ==> 0 <= (#[trigger] kids[j] as int) < sa0.len(),
        forall|j1: int, j2: int|
            0 <= j1 < j2 < kids.len() ==> (kids[j1] as int) < (kids[j2] as int),
        forall|j: int|
            0 <= j < kids.len() && positions[(#[trigger] kids[j] as int)]
                != LayoutPosition::Absolute ==> sa0[(kids[j] as int)] == sb0[(kids[j] as int)],
        forall|j: int|
            0 <= j < kids.len() && positions[(#[trigger] kids[j] as int)]
                != LayoutPosition::Absolute ==> sa[(kids[j] as int)] == sb[(kids[j] as int)],
        forall|i: int|
            0 <= i < sa0.len() ==> (#[trigger] sa[i].preferred) == sa0[i].preferred
                && sa[i].min_inner_size_px == sa0[i].min_inner_size_px,
        forall|i: int|
            0 <= i < sb0.len() ==> (#[trigger] sb[i].preferred) == sb0[i].preferred
                && sb[i].min_inner_size_px == sb0[i].min_inner_size_px,
    ensures
        forall|j: int|
            0 <= j < kids.len() && positions[(#[trigger] kids[j] as int)]
                != LayoutPosition::Absolute ==> var_children_upto(
                sa0,
                sa,
                positions,
                kids,
                k,
                anchor_wa,
            )[(kids[j] as int)] == var_children_upto(sb0, sb, positions, kids, k, anchor_wb)[(
            kids[j] as int)],
    decreases k,
{
    if k > 0 {
        lemma_var_two_state(sa0, sb0, sa, sb, positions, kids, k - 1, anchor_wa, anchor_wb);
        assert forall|j: int|
            0 <= j < kids.len() && positions[(#[trigger] kids[j] as int)]
                != LayoutPosition::Absolute implies var_children_upto(
            sa0,
            sa,
            positions,
            kids,
            k,
            anchor_wa,
        )[(kids[j] as int)] == var_children_upto(sb0, sb, positions, kids, k, anchor_wb)[(
        kids[j] as int)] by {
            crate::distribute::lemma_var_children_frame(
                sa0,
                sa,
                positions,
                kids,
                k - 1,
                anchor_wa,
                kids[j] as int,
            );
            crate::distribute::lemma_var_children_frame(
                sb0,
                sb,
                positions,
                kids,
                k - 1,
                anchor_wb,
                kids[j] as int,
            );
            if j != k - 1 {
                assert((kids[j] as int) != (kids[k - 1] as int));
            }
        }
    }
}

/// The consumed sums and the pool of a parent ignore absolutely
/// positioned children entirely.
pub proof fn lemma_sums_two_state(
    sa: Seq<AxisRect>,
    sb: Seq<AxisRect>,
    positions: Seq<LayoutPosition>,
    kids: Seq<usize>,
    k: int,
)
    requires
        0 <= k <= kids.len(),
        forall|j: int|
            0 <= j < kids.len() && positions[(#[trigger] kids[j] as int)]
                != LayoutPosition::Absolute ==> sa[(kids[j] as int)] == sb[(kids[j] as int)],
    ensures
        sum_fixed_upto(sa, positions, kids, k) == sum_fixed_upto(sb, positions, kids, k),
        sum_var_upto(sa, positions, kids, k) == sum_var_upto(sb, positions, kids, k),
        pool_upto(sa, positions, kids, k) == pool_upto(sb, positions, kids, k),
    decreases k,
{
    if k > 0 {
        lemma_sums_two_state(sa, sb, positions, kids, k - 1);
    }
}

/// Absolute exclusion (main axis): the distribution of parent `p` gives
/// its children in the regular flow the same sizes whatever the data and
/// factors of its absolutely positioned children are.
pub proof fn lemma_absolute_exclusion_main(
    sa: Seq<AxisRect>,
    sb: Seq<AxisRect>,
    tree: NodeHierarchy,
    grows_a: Seq<u32>,
    grows_b: Seq<u32>,
    positions: Seq<LayoutPosition>,
    p: int,
    root_size: int,
)
    requires
        tree.wf(),
        0 <= p < tree.n(),
        sa.len() == tree.n(),
        sb.len() == tree.n(),
        positions.len() == tree.n(),
        sa[p] == sb[p],
        sa[crate::relayout::parent_or_root(tree, p)] == sb[crate::relayout::parent_or_root(
            tree,
            p,
        )],
        forall|j: int|
            0 <= j < tree.children@[p]@.len() && positions[(#[trigger] tree.children@[p]@[j]
                as int)] != LayoutPosition::Absolute ==> sa[(tree.children@[p]@[j] as int)] == sb[(
            tree.children@[p]@[j] as int)],
        forall|j: int|
            0 <= j < tree.children@[p]@.len() && positions[(#[trigger] tree.children@[p]@[j]
                as int)] != LayoutPosition::Absolute ==> grows_a[(tree.children@[p]@[j] as int)]
                == grows_b[(tree.children@[p]@[j] as int)],
    ensures
        forall|j: int|
            0 <= j < tree.children@[p]@.len() && positions[(#[trigger] tree.children@[p]@[j]
                as int)] != LayoutPosition::Absolute ==> spec_distribute_main(
                sa,
                tree,
                grows_a,
                positions,
                p,
                root_size,
            )[(tree.children@[p]@[j] as int)] == spec_distribute_main(
                sb,
                tree,
                grows_b,
                positions,
                p,
                root_size,
            )[(tree.children@[p]@[j] as int)],
{
    let kids = tree.children@[p]@;
    let nk = kids.len() as int;
    let s1a = fix_children_upto(sa, kids, nk);
    let s1b = fix_children_upto(sb, kids, nk);
    lemma_fix_two_state(sa, sb, positions, kids, nk);
    let anchor_wa = sa[anchor_of(positions, p)].total_spec();
    let anchor_wb = sb[anchor_of(positions, p)].total_spec();
    let s2a = var_children_upto(sa, s1a, positions, kids, nk, anchor_wa);
    let s2b = var_children_upto(sb, s1b, positions, kids, nk, anchor_wb);
    assert forall|i: int|
        0 <= i < sa.len() implies (#[trigger] s1a[i].preferred) == sa[i].preferred
        && s1a[i].min_inner_size_px == sa[i].min_inner_size_px by {
        crate::distribute::lemma_fix_children_frame(sa, kids, nk, i);
    }
    assert forall|i: int|
        0 <= i < sb.len() implies (#[trigger] s1b[i].preferred) == sb[i].preferred
        && s1b[i].min_inner_size_px == sb[i].min_inner_size_px by {
        crate::distribute::lemma_fix_children_frame(sb, kids, nk, i);
    }
    crate::distribute::lemma_fix_children_frame(sa, kids, nk, p);
    crate::distribute::lemma_fix_children_frame(sb, kids, nk, p);
    crate::distribute::lemma_var_children_frame(sa, s1a, positions, kids, nk, anchor_wa, p);
    crate::distribute::lemma_var_children_frame(sb, s1b, positions, kids, nk, anchor_wb, p);
    lemma_var_two_state(sa, sb, s1a, s1b, positions, kids, nk, anchor_wa, anchor_wb);
    lemma_sums_two_state(sa, sb, positions, kids, nk);
    let pool0 = pool_upto(sa, positions, kids, nk);
    lemma_pool_upto_sorted(sa, positions, kids, nk, tree.n());
    lemma_pool_upto_members(sa, positions, kids, nk);
    let avail = sat_sub_spec(
        sat_sub_spec(
            parent_inner_space(sa, tree, p, root_size),
            sum_fixed_upto(sa, positions, kids, nk),
        ),
        sum_var_upto(sa, positions, kids, nk),
    );
    assert(parent_inner_space(sa, tree, p, root_size) == parent_inner_space(
        sb,
        tree,
        p,
        root_size,
    ));
    assert forall|j: int| 0 <= j < pool0.len() implies s2a[(#[trigger] pool0[j] as int)] == s2b[(
    pool0[j] as int)] && grows_a[(pool0[j] as int)] == grows_b[(pool0[j] as int)] by {
        let j0 = choose|j0: int| 0 <= j0 < nk && kids[j0] == pool0[j];
        assert(positions[(kids[j0] as int)] != LayoutPosition::Absolute);
    }
    lemma_pool_loop_two_state(s2a, s2b, grows_a, grows_b, pool0, avail);
    assert forall|j: int|
        0 <= j < kids.len() && positions[(#[trigger] kids[j] as int)] != LayoutPosition::Absolute
        implies spec_distribute_main(sa, tree, grows_a, positions, p, root_size)[(kids[j] as int)]
        == spec_distribute_main(sb, tree, grows_b, positions, p, root_size)[(kids[j] as int)] by {
        let c = kids[j] as int;
        if sa[c].preferred.is_fixed_constraint_spec() {
            assert forall|jj: int| 0 <= jj < pool0.len() implies (#[trigger] pool0[jj] as int)
                != c by {
                assert(!sa[(pool0[jj] as int)].preferred.is_fixed_constraint_spec());
            }
            lemma_spec_pool_frame(s2a, grows_a, pool0, avail, c);
            lemma_spec_pool_frame(s2b, grows_b, pool0, avail, c);
        } else {
            lemma_pool_member_index(sa, positions, kids, nk, j);
            let jj = choose|jj: int| 0 <= jj < pool0.len() && pool0[jj] == kids[j];
        }
    }
}

/// The non-absolute flexible child at position `jc` of the children list
/// appears in the pool.
pub proof fn lemma_pool_member_index(
    state0: Seq<AxisRect>,
    positions: Seq<LayoutPosition>,
    kids: Seq<usize>,
    k: int,
    jc: int,
)
    requires
        0 <= jc < k <= kids.len(),
        !state0[kids[jc] as int].preferred.is_fixed_constraint_spec(),
        positions[kids[jc] as int] != LayoutPosition::Absolute,
    ensures
        exists|j: int|
            0 <= j < pool_upto(state0, positions, kids, k).len() && pool_upto(
                state0,
                positions,
                kids,
                k,
            )[j] == kids[jc],
    decreases k,
{
    if k - 1 > jc {
        lemma_pool_member_index(state0, positions, kids, k - 1, jc);
        let prev = pool_upto(state0, positions, kids, k - 1);
        let cur = pool_upto(state0, positions, kids, k);
        let j = choose|j: int| 0 <= j < prev.len() && prev[j] == kids[jc];
        assert(cur[j] == kids[jc]);
    } else {
        let prev = pool_upto(state0, positions, kids, k - 1);
        let cur = pool_upto(state0, positions, kids, k);
        assert(cur[prev.len() as int] == kids[jc]);
    }
}

/// The sanity hypothesis the max-bound law needs of a pool member: its
/// stored minimum is in the sane range, its resolved size is nonnegative,
/// and when it has a maximum, that maximum is sane and not yet exceeded.
pub open spec fn pool_member_ok(state: Seq<AxisRect>, c: int) -> bool {
    &&& -SANE_PX <= state[c].min_inner_size_px <= SANE_PX
    &&& state[c].total_spec() >= 0
    &&& match state[c].preferred.max_available_space_spec() {
        Some(m) => 0 <= m <= SANE_PX && state[c].total_spec() <= m,
        None => true,
    }
}

/// Constraint satisfaction for maxima: the proportional distribution
/// never grows a member beyond its maximum size, and never shrinks one
/// below zero.
pub proof fn lemma_pool_loop_respects_max(
    state: Seq<AxisRect>,
    grows: Seq<u32>,
    pool: Seq<usize>,
    avail: int,
)
    requires
        forall|j: int| 0 <= j < pool.len() ==> 0 <= (#[trigger] pool[j] as int) < state.len(),
        forall|j1: int, j2: int|
            0 <= j1 < j2 < pool.len() ==> (pool[j1] as int) < (pool[j2] as int),
        forall|j: int| 0 <= j < pool.len() ==> pool_member_ok(state, #[trigger] pool[j] as int),
    ensures
        forall|j: int|
            0 <= j < pool.len() ==> pool_member_ok(
                spec_pool_loop(state, grows, pool, avail),
                #[trigger] pool[j] as int,
            ),
        forall|j: int|
            0 <= j < pool.len() ==> spec_pool_loop(state, grows, pool, avail)[(#[trigger] pool[j]
                as int)].preferred == state[(pool[j] as int)].preferred,
    decreases pool.len(),
{
    if !(avail <= 0 || pool.len() == 0) {
        let sum = sum_grows_upto(grows, pool, pool.len() as int);
        if sum > 0 {
            let share = avail / sum;
            let ns = pool_assign_upto(state, grows, pool, pool.len() as int, share);
            assert(share >= 0);
            assert forall|j: int| 0 <= j < pool.len() implies pool_member_ok(
                ns,
                #[trigger] pool[j] as int,
            ) && ns[(pool[j] as int)].preferred == state[(pool[j] as int)].preferred by {
                let c = pool[j] as int;
                lemma_pool_assign_at(state, grows, pool, pool.len() as int, j, share);
                let g = grows[c] as int;
                assert(share * g >= 0) by (nonlinear_arith)
                    requires
                        share >= 0,
                        g >= 0,
                ;
                if is_violation(state, grows, share, c) {
                    let m = state[c].preferred.max_available_space_spec()->0;
                    assert(ns[c].total_spec() == m);
                } else {
                    match state[c].preferred.max_available_space_spec() {
                        Some(m) => {
                            let added = crate::px::sat_mul_spec(share, g);
                            assert(added >= 0);
                            assert(sat_add_spec(state[c].total_spec(), added) <= m);
                            assert(ns[c].total_spec() == added);
                        },
                        None => {
                            let added = crate::px::sat_mul_spec(share, g);
                            assert(added >= 0);
                            assert(ns[c].total_spec() >= 0);
                        },
                    }
                }
            }
            lemma_pool_assign_frame(state, grows, pool, pool.len() as int, share, pool[0] as int);
            if any_violation(state, grows, pool, pool.len() as int, share) {
                let pool2 = remaining_pool_upto(state, grows, pool, pool.len() as int, share);
                lemma_remaining_pool_len(state, grows, pool, pool.len() as int, share);
                lemma_remaining_pool_sorted(state, grows, pool, pool.len() as int, share);
                assert forall|j: int| 0 <= j < pool2.len() implies 0 <= (#[trigger] pool2[j] as int)
                    < state.len() && pool_member_ok(ns, pool2[j] as int) by {
                    let j0 = choose|j0: int| 0 <= j0 < pool.len() && pool[j0] == pool2[j];
                    assert(pool_member_ok(ns, pool[j0] as int));
                }
                let avail2 = crate::distribute::avail_after_removals_upto(
                    ns,
                    state,
                    grows,
                    pool,
                    pool.len() as int,
                    share,
                    avail,
                );
                lemma_pool_loop_respects_max(ns, grows, pool2, avail2);
                assert forall|j: int| 0 <= j < pool.len() implies pool_member_ok(
                    spec_pool_loop(state, grows, pool, avail),
                    #[trigger] pool[j] as int,
                ) && spec_pool_loop(state, grows, pool, avail)[(pool[j] as int)].preferred
                    == state[(pool[j] as int)].preferred by {
                    let c = pool[j] as int;
                    if is_violation(state, grows, share, c) {
                        lemma_not_in_remaining(state, grows, pool, pool.len() as int, share, j);
                        lemma_spec_pool_frame(ns, grows, pool2, avail2, c);
                    } else {
                        lemma_in_remaining(state, grows, pool, pool.len() as int, share, j);
                        let j2 = choose|j2: int|
                            0 <= j2 < pool2.len() && pool2[j2] == pool[j];
                        assert(pool_member_ok(spec_pool_loop(ns, grows, pool2, avail2), c));
                        assert(spec_pool_loop(ns, grows, pool2, avail2)[c].preferred
                            == ns[c].preferred);
                    }
                }
            }
        }
    }
}

/// Constraint satisfaction for maxima (main axis): after the main-axis
/// distribution of parent `p`, a flexible child in the regular flow whose
/// constraint carries a sane maximum resolves to at most that maximum,
/// and at least to zero, provided its stored minimum and the least space
/// its constraint demands are sane and nonnegative.
pub proof fn lemma_main_axis_respects_max(
    state: Seq<AxisRect>,
    tree: NodeHierarchy,
    grows: Seq<u32>,
    positions: Seq<LayoutPosition>,
    p: int,
    root_size: int,
    kc: int,
)
    requires
        tree.wf(),
        0 <= p < tree.n(),
        state.len() == tree.n(),
        positions.len() == tree.n(),
        0 <= kc < tree.children@[p]@.len(),
        !state[tree.children@[p]@[kc] as int].preferred.is_fixed_constraint_spec(),
        positions[tree.children@[p]@[kc] as int] != LayoutPosition::Absolute,
        forall|j: int|
            0 <= j < tree.children@[p]@.len() ==> -SANE_PX <= state[(#[trigger] tree.children@[
            p]@[j] as int)].min_inner_size_px <= SANE_PX,
        forall|j: int|
            0 <= j < tree.children@[p]@.len() ==> match state[(#[trigger] tree.children@[p]@[j]
                as int)].preferred.min_needed_space_spec() {
                Some(m) => 0 <= m <= SANE_PX,
                None => true,
            },
        forall|j: int|
            0 <= j < tree.children@[p]@.len() ==> match state[(#[trigger] tree.children@[p]@[j]
                as int)].preferred.max_available_space_spec() {
                Some(m) => 0 <= m <= SANE_PX,
                None => true,
            },
        forall|j: int|
            0 <= j < tree.children@[p]@.len() ==> match (state[(#[trigger] tree.children@[p]@[j]
                as int)].preferred.min_needed_space_spec(), state[(tree.children@[p]@[j]
                as int)].preferred.max_available_space_spec()) {
                (Some(mn), Some(mx)) => mn <= mx,
                _ => true,
            },
    ensures
        ({
            let c = tree.children@[p]@[kc] as int;
            let total = spec_distribute_main(state, tree, grows, positions, p, root_size)[
                c].total_spec();
            &&& total >= 0
            &&& match state[c].preferred.max_available_space_spec() {
                Some(m) => total <= m,
                None => true,
            }
        }),
{
    let kids = tree.children@[p]@;
    let nk = kids.len() as int;
    let c = kids[kc] as int;
    let s1 = fix_children_upto(state, kids, nk);
    let anchor_w = state[anchor_of(positions, p)].total_spec();
    let s2 = var_children_upto(state, s1, positions, kids, nk, anchor_w);
    let pool0 = pool_upto(state, positions, kids, nk);
    lemma_pool_upto_sorted(state, positions, kids, nk, tree.n());
    lemma_pool_upto_members(state, positions, kids, nk);
    crate::distribute::lemma_fix_children_frame(state, kids, nk, p);
    assert forall|i: int|
        0 <= i < state.len() implies (#[trigger] s1[i].preferred) == state[i].preferred
        && s1[i].min_inner_size_px == state[i].min_inner_size_px by {
        crate::distribute::lemma_fix_children_frame(state, kids, nk, i);
    }
    crate::distribute::lemma_var_children_frame(state, s1, positions, kids, nk, anchor_w, p);
    assert forall|j: int| 0 <= j < pool0.len() implies pool_member_ok(
        s2,
        #[trigger] pool0[j] as int,
    ) by {
        let j0 = choose|j0: int| 0 <= j0 < nk && kids[j0] == pool0[j];
        let ci = pool0[j] as int;
        lemma_var_children_at(state, s1, positions, kids, nk, j0, anchor_w);
        let min_w = match state[ci].preferred.min_needed_space_spec() {
            Some(m) => m,
            None => 0,
        };
        assert(s2[ci].total_spec() == min_w);
    }
    let avail = sat_sub_spec(
        sat_sub_spec(
            parent_inner_space(state, tree, p, root_size),
            sum_fixed_upto(state, positions, kids, nk),
        ),
        sum_var_upto(state, positions, kids, nk),
    );
    lemma_pool_loop_respects_max(s2, grows, pool0, avail);
    lemma_pool_member_index(state, positions, kids, nk, kc);
    let jj = choose|jj: int| 0 <= jj < pool0.len() && pool0[jj] == kids[kc];
    assert(pool_member_ok(spec_pool_loop(s2, grows, pool0, avail), c));
    crate::distribute::lemma_var_children_frame(state, s1, positions, kids, nk, anchor_w, c);
    assert(spec_pool_loop(s2, grows, pool0, avail)[c].preferred == s2[c].preferred);
    assert(s2[c].preferred == state[c].preferred);
    assert(spec_distribute_main(state, tree, grows, positions, p, root_size) == spec_pool_loop(
        s2,
        grows,
        pool0,
        avail,
    ));
}

/// The value the variable-size preparation writes at a flexible child.
pub proof fn lemma_var_children_at(
    state0: Seq<AxisRect>,
    s: Seq<AxisRect>,
    positions: Seq<LayoutPosition>,
    kids: Seq<usize>,
    k: int,
    kc: int,
    anchor_w: int,
)
    requires
        0 <= kc < k <= kids.len(),
        s.len() == state0.len(),
        forall|j: int| 0 <= j < kids.len() ==> 0 <= (#[trigger] kids[j] as int) < state0.len(),
        forall|j1: int, j2: int|
            0 <= j1 < j2 < kids.len() ==> (kids[j1] as int) < (kids[j2] as int),
        forall|i: int|
            0 <= i < state0.len() ==> (#[trigger] s[i].preferred) == state0[i].preferred
                && s[i].min_inner_size_px == state0[i].min_inner_size_px,
        !state0[kids[kc] as int].preferred.is_fixed_constraint_spec(),
    ensures
        ({
            let c = kids[kc] as int;
            let target = if positions[c] != LayoutPosition::Absolute {
                match state0[c].preferred.min_needed_space_spec() {
                    Some(m) => m,
                    None => 0,
                }
            } else {
                absolute_child_size(state0[c].preferred, anchor_w)
            };
            var_children_upto(state0, s, positions, kids, k, anchor_w)[c] == AxisRect {
                flex_grow_px: sat_sub_spec(target, state0[c].min_inner_size_px as int) as Px,
                ..state0[c]
            }
        }),
    decreases k,
{
    let c = kids[kc] as int;
    crate::distribute::lemma_var_children_frame(state0, s, positions, kids, k - 1, anchor_w, c);
    if k - 1 > kc {
        lemma_var_children_at(state0, s, positions, kids, k - 1, kc, anchor_w);
        assert((kids[kc] as int) < (kids[k - 1] as int));
    } else {
        assert forall|j: int| 0 <= j < k - 1 implies (#[trigger] kids[j] as int) != c by {
            assert((kids[j] as int) < (kids[kc] as int));
        }
    }
}

/// The space handed out to the first `k` pool members in one round of the
/// proportional distribution.
pub open spec fn added_sum_upto(grows: Seq<u32>, pool: Seq<usize>, k: int, share: int) -> int
    decreases k,
{
    if k <= 0 {
        0
    } else {
        added_sum_upto(grows, pool, k - 1, share) + crate::px::sat_mul_spec(
            share,
            grows[pool[k - 1] as int] as int,
        )
    }
}

/// The prefix sums of the flex-grow factors never exceed the full sum.
pub proof fn lemma_sum_grows_monotone(grows: Seq<u32>, pool: Seq<usize>, k1: int, k2: int)
    requires
        0 <= k1 <= k2 <= pool.len(),
    ensures
        sum_grows_upto(grows, pool, k1) <= sum_grows_upto(grows, pool, k2),
        sum_grows_upto(grows, pool, k1) >= 0,
    decreases k2,
{
    if k2 > 0 {
        if k1 <= k2 - 1 {
            lemma_sum_grows_monotone(grows, pool, k1, k2 - 1);
        } else {
            lemma_sum_grows_monotone(grows, pool, 0, k2 - 1);
        }
    }
}

/// No negative space, per round: one round of the proportional
/// distribution hands out at most the available space. With `share` the
/// available space divided by the summed factors, the summed shares of
/// the first `k` members stay within `share` times their summed factors,
/// and so within the available space, as long as the factor sum does not
/// saturate.
pub proof fn lemma_round_within_budget(
    grows: Seq<u32>,
    pool: Seq<usize>,
    k: int,
    avail: int,
)
    requires
        0 <= k <= pool.len(),
        avail > 0,
        sum_grows_upto(grows, pool, pool.len() as int) > 0,
        sum_grows_upto(grows, pool, pool.len() as int) <= SANE_PX,
    ensures
        added_sum_upto(grows, pool, k, avail / sum_grows_upto(grows, pool, pool.len() as int))
            <= (avail / sum_grows_upto(grows, pool, pool.len() as int)) * sum_grows_upto(
            grows,
            pool,
            k,
        ),
    decreases k,
{
    let sum = sum_grows_upto(grows, pool, pool.len() as int);
    let share = avail / sum;
    vstd::arithmetic::div_mod::lemma_fundamental_div_mod(avail, sum);
    vstd::arithmetic::div_mod::lemma_mod_bound(avail, sum);
    assert(share * sum <= avail);
    assert(share >= 0) by {
        vstd::arithmetic::div_mod::lemma_div_pos_is_pos(avail, sum);
    }
    if k > 0 {
        lemma_round_within_budget(grows, pool, k - 1, avail);
        let g = grows[pool[k - 1] as int] as int;
        lemma_sum_grows_monotone(grows, pool, k - 1, pool.len() as int);
        lemma_sum_grows_monotone(grows, pool, k, pool.len() as int);
        lemma_sum_grows_monotone(grows, pool, 0, k - 1);
        assert(sum_grows_upto(grows, pool, k) == sat_add_spec(
            sum_grows_upto(grows, pool, k - 1),
            g,
        ));
        assert(sum_grows_upto(grows, pool, k) == sum_grows_upto(grows, pool, k - 1) + g);
        assert(share * g <= share * sum && share * g >= 0 && share * sum_grows_upto(
            grows,
            pool,
            k,
        ) == share * sum_grows_upto(grows, pool, k - 1) + share * g) by (nonlinear_arith)
            requires
                share >= 0,
                0 <= g,
                g <= sum,
                sum_grows_upto(grows, pool, k) == sum_grows_upto(grows, pool, k - 1) + g,
        ;
        assert(crate::px::sat_mul_spec(share, g) <= share * g);
        assert(crate::px::sat_mul_spec(share, g) == crate::px::clamp_i64(share * g));
    } else {
        lemma_sum_grows_monotone(grows, pool, 0, pool.len() as int);
    }
}

/// No negative space, per round: the full round hands out at most the
/// available space.
pub proof fn lemma_full_round_within_budget(grows: Seq<u32>, pool: Seq<usize>, avail: int)
    requires
        avail > 0,
        sum_grows_upto(grows, pool, pool.len() as int) > 0,
        sum_grows_upto(grows, pool, pool.len() as int) <= SANE_PX,
    ensures
        added_sum_upto(
            grows,
            pool,
            pool.len() as int,
            avail / sum_grows_upto(grows, pool, pool.len() as int),
        ) <= avail,
{
    let sum = sum_grows_upto(grows, pool, pool.len() as int);
    let share = avail / sum;
    lemma_round_within_budget(grows, pool, pool.len() as int, avail);
    vstd::arithmetic::div_mod::lemma_fundamental_div_mod(avail, sum);
    vstd::arithmetic::div_mod::lemma_mod_bound(avail, sum);
    assert(share * sum <= avail);
}

/// The proportional distribution changes no field but `flex_grow_px`.
pub proof fn lemma_spec_pool_fields(
    state: Seq<AxisRect>,
    grows: Seq<u32>,
    pool: Seq<usize>,
    avail: int,
    i: int,
)
    requires
        0 <= i < state.len(),
        forall|j: int| 0 <= j < pool.len() ==> 0 <= (#[trigger] pool[j] as int) < state.len(),
        forall|j1: int, j2: int|
            0 <= j1 < j2 < pool.len() ==> (pool[j1] as int) < (pool[j2] as int),
    ensures
        spec_pool_loop(state, grows, pool, avail).len() == state.len(),
        spec_pool_loop(state, grows, pool, avail)[i].preferred == state[i].preferred,
        spec_pool_loop(state, grows, pool, avail)[i].min_inner_size_px
            == state[i].min_inner_size_px,
    decreases pool.len(),
{
    if !(avail <= 0 || pool.len() == 0) {
        let sum = sum_grows_upto(grows, pool, pool.len() as int);
        if sum > 0 {
            let share = avail / sum;
            let ns = pool_assign_upto(state, grows, pool, pool.len() as int, share);
            lemma_pool_assign_frame(state, grows, pool, pool.len() as int, share, i);
            if any_violation(state, grows, pool, pool.len() as int, share) {
                let pool2 = remaining_pool_upto(state, grows, pool, pool.len() as int, share);
                lemma_remaining_pool_len(state, grows, pool, pool.len() as int, share);
                lemma_remaining_pool_sorted(state, grows, pool, pool.len() as int, share);
                assert forall|j: int| 0 <= j < pool2.len() implies 0 <= (#[trigger] pool2[j] as int)
                    < state.len() by {
                    let j0 = choose|j0: int| 0 <= j0 < pool.len() && pool[j0] == pool2[j];
                }
                let avail2 = crate::distribute::avail_after_removals_upto(
                    ns,
                    state,
                    grows,
                    pool,
                    pool.len() as int,
                    share,
                    avail,
                );
                lemma_spec_pool_fields(ns, grows, pool2, avail2, i);
            }
        }
    }
}

/// One distribution step changes no field but `flex_grow_px`, anywhere.
pub proof fn lemma_dist_step_fields(
    state: Seq<AxisRect>,
    tree: NodeHierarchy,
    grows: Seq<u32>,
    positions: Seq<LayoutPosition>,
    directions: Seq<crate::style::LayoutFlexDirection>,
    axis: crate::style::LayoutAxis,
    root_size: int,
    p: int,
    i: int,
)
    requires
        tree.wf(),
        0 <= p < tree.n(),
        0 <= i < state.len(),
        state.len() == tree.n(),
    ensures
        crate::distribute::dist_step(
            state,
            tree,
            grows,
            positions,
            directions,
            axis,
            root_size,
            p,
        ).len() == state.len(),
        crate::distribute::dist_step(
            state,
            tree,
            grows,
            positions,
            directions,
            axis,
            root_size,
            p,
        )[i].preferred == state[i].preferred,
        crate::distribute::dist_step(
            state,
            tree,
            grows,
            positions,
            directions,
            axis,
            root_size,
            p,
        )[i].min_inner_size_px == state[i].min_inner_size_px,
{
    let kids = tree.children@[p]@;
    let nk = kids.len() as int;
    if directions[p].axis_spec() == axis {
        let s1 = fix_children_upto(state, kids, nk);
        crate::distribute::lemma_fix_children_frame(state, kids, nk, i);
        let anchor_w = state[anchor_of(positions, p)].total_spec();
        crate::distribute::lemma_var_children_frame(state, s1, positions, kids, nk, anchor_w, i);
        let s2 = var_children_upto(state, s1, positions, kids, nk, anchor_w);
        let pool0 = pool_upto(state, positions, kids, nk);
        lemma_pool_upto_sorted(state, positions, kids, nk, tree.n());
        let avail = sat_sub_spec(
            sat_sub_spec(
                parent_inner_space(state, tree, p, root_size),
                sum_fixed_upto(state, positions, kids, nk),
            ),
            sum_var_upto(state, positions, kids, nk),
        );
        lemma_spec_pool_fields(s2, grows, pool0, avail, i);
    } else {
        crate::distribute::lemma_cross_children_frame(
            state,
            positions,
            kids,
            nk,
            parent_inner_space(state, tree, p, root_size),
            anchor_inner_space(state, tree, positions, p, root_size),
            i,
        );
    }
}

/// One distribution step for parent `p` leaves every node that is not a
/// child of `p` untouched.
pub proof fn lemma_dist_step_frame(
    state: Seq<AxisRect>,
    tree: NodeHierarchy,
    grows: Seq<u32>,
    positions: Seq<LayoutPosition>,
    directions: Seq<crate::style::LayoutFlexDirection>,
    axis: crate::style::LayoutAxis,
    root_size: int,
    p: int,
    i: int,
)
    requires
        tree.wf(),
        0 <= p < tree.n(),
        0 <= i < state.len(),
        state.len() == tree.n(),
        forall|j: int|
            0 <= j < tree.children@[p]@.len() ==> (#[trigger] tree.children@[p]@[j] as int) != i,
    ensures
        crate::distribute::dist_step(
            state,
            tree,
            grows,
            positions,
            directions,
            axis,
            root_size,
            p,
        )[i] == state[i],
{
    let kids = tree.children@[p]@;
    let nk = kids.len() as int;
    if directions[p].axis_spec() == axis {
        let s1 = fix_children_upto(state, kids, nk);
        crate::distribute::lemma_fix_children_frame(state, kids, nk, i);
        let anchor_w = state[anchor_of(positions, p)].total_spec();
        crate::distribute::lemma_var_children_frame(state, s1, positions, kids, nk, anchor_w, i);
        let s2 = var_children_upto(state, s1, positions, kids, nk, anchor_w);
        let pool0 = pool_upto(state, positions, kids, nk);
        lemma_pool_upto_sorted(state, positions, kids, nk, tree.n());
        assert forall|j: int| 0 <= j < pool0.len() implies (#[trigger] pool0[j] as int) != i by {
            let j0 = choose|j0: int| 0 <= j0 < nk && kids[j0] == pool0[j];
        }
        let avail = sat_sub_spec(
            sat_sub_spec(
                parent_inner_space(state, tree, p, root_size),
                sum_fixed_upto(state, positions, kids, nk),
            ),
            sum_var_upto(state, positions, kids, nk),
        );
        lemma_spec_pool_frame(s2, grows, pool0, avail, i);
    } else {
        crate::distribute::lemma_cross_children_frame(
            state,
            positions,
            kids,
            nk,
            parent_inner_space(state, tree, p, root_size),
            anchor_inner_space(state, tree, positions, p, root_size),
            i,
        );
    }
}

/// Constraint satisfaction across the whole distribution pass: a child
/// whose resolved constraint is `EqualTo(e)` and whose parent's main axis
/// is the axis being solved comes out of the full flex-grow pass with
/// exactly `e`, for sizes within the sane range, whenever its parent is
/// in the recalculation set.
pub proof fn lemma_flex_grow_pass_exact_child(
    state0: Seq<AxisRect>,
    tree: NodeHierarchy,
    grows: Seq<u32>,
    positions: Seq<LayoutPosition>,
    directions: Seq<crate::style::LayoutFlexDirection>,
    axis: crate::style::LayoutAxis,
    root_size: int,
    recalc: Seq<bool>,
    p: int,
    kc: int,
    e: Px,
)
    requires
        tree.wf(),
        0 <= p < tree.n(),
        state0.len() == tree.n(),
        positions.len() == tree.n(),
        recalc.len() == tree.n(),
        0 <= kc < tree.children@[p]@.len(),
        state0[tree.children@[p]@[kc] as int].preferred == WhConstraint::EqualTo(e),
        -SANE_PX <= e <= SANE_PX,
        -SANE_PX <= state0[tree.children@[p]@[kc] as int].min_inner_size_px <= SANE_PX,
        recalc[p],
        directions[p].axis_spec() == axis,
    ensures
        crate::distribute::spec_apply_flex_grow(
            state0,
            tree,
            grows,
            positions,
            directions,
            axis,
            root_size,
            recalc,
        )[tree.children@[p]@[kc] as int].total_spec() == e,
{
    let c = tree.children@[p]@[kc] as int;
    let sroot = crate::distribute::root_grow_step(state0, root_size);
    assert(sroot[c].preferred == state0[c].preferred && sroot[c].min_inner_size_px == state0[
        c].min_inner_size_px);
    assert(tree.parents_ordered@.contains(p as usize));
    let idx = choose|idx: int|
        0 <= idx < tree.parents_ordered@.len() && tree.parents_ordered@[idx] == p as usize;
    lemma_dist_upto_exact_child(
        sroot,
        tree,
        grows,
        positions,
        directions,
        axis,
        root_size,
        recalc,
        p,
        kc,
        e,
        idx,
        tree.parents_ordered@.len() as int,
    );
}

/// After the fold has passed parent `p`'s step, the exact child keeps its
/// size to the end of the pass.
pub proof fn lemma_dist_upto_exact_child(
    sroot: Seq<AxisRect>,
    tree: NodeHierarchy,
    grows: Seq<u32>,
    positions: Seq<LayoutPosition>,
    directions: Seq<crate::style::LayoutFlexDirection>,
    axis: crate::style::LayoutAxis,
    root_size: int,
    recalc: Seq<bool>,
    p: int,
    kc: int,
    e: Px,
    idx: int,
    k: int,
)
    requires
        tree.wf(),
        0 <= p < tree.n(),
        sroot.len() == tree.n(),
        positions.len() == tree.n(),
        recalc.len() == tree.n(),
        0 <= kc < tree.children@[p]@.len(),
        sroot[tree.children@[p]@[kc] as int].preferred == WhConstraint::EqualTo(e),
        -SANE_PX <= e <= SANE_PX,
        -SANE_PX <= sroot[tree.children@[p]@[kc] as int].min_inner_size_px <= SANE_PX,
        recalc[p],
        directions[p].axis_spec() == axis,
        0 <= idx < tree.parents_ordered@.len(),
        tree.parents_ordered@[idx] == p as usize,
        idx < k <= tree.parents_ordered@.len(),
    ensures
        crate::distribute::dist_upto(
            sroot,
            tree,
            grows,
            positions,
            directions,
            axis,
            root_size,
            recalc,
            k,
        )[tree.children@[p]@[kc] as int].total_spec() == e,
    decreases k,
{
    let c = tree.children@[p]@[kc] as int;
    let prev = crate::distribute::dist_upto(
        sroot,
        tree,
        grows,
        positions,
        directions,
        axis,
        root_size,
        recalc,
        k - 1,
    );
    lemma_dist_upto_fields(
        sroot,
        tree,
        grows,
        positions,
        directions,
        axis,
        root_size,
        recalc,
        c,
        k - 1,
    );
    if k - 1 == idx {
        lemma_main_axis_exact_child(prev, tree, grows, positions, p, root_size, kc, e);
    } else {
        lemma_dist_upto_exact_child(
            sroot,
            tree,
            grows,
            positions,
            directions,
            axis,
            root_size,
            recalc,
            p,
            kc,
            e,
            idx,
            k - 1,
        );
        let q = tree.parents_ordered@[k - 1] as int;
        if recalc[q] {
            assert(q != p);
            assert forall|j: int|
                0 <= j < tree.children@[q]@.len() implies (#[trigger] tree.children@[q]@[j]
                    as int) != c by {
                assert((tree.parent@[tree.children@[q]@[j] as int] as int) == q);
                assert((tree.parent@[c] as int) == p);
            }
            lemma_dist_step_frame(
                prev,
                tree,
                grows,
                positions,
                directions,
                axis,
                root_size,
                q,
                c,
            );
        }
    }
}

/// The whole distribution fold changes no field but `flex_grow_px`.
pub proof fn lemma_dist_upto_fields(
    sroot: Seq<AxisRect>,
    tree: NodeHierarchy,
    grows: Seq<u32>,
    positions: Seq<LayoutPosition>,
    directions: Seq<crate::style::LayoutFlexDirection>,
    axis: crate::style::LayoutAxis,
    root_size: int,
    recalc: Seq<bool>,
    i: int,
    k: int,
)
    requires
        tree.wf(),
        sroot.len() == tree.n(),
        0 <= i < tree.n(),
        0 <= k <= tree.parents_ordered@.len(),
    ensures
        crate::distribute::dist_upto(
            sroot,
            tree,
            grows,
            positions,
            directions,
            axis,
            root_size,
            recalc,
            k,
        ).len() == tree.n(),
        crate::distribute::dist_upto(
            sroot,
            tree,
            grows,
            positions,
            directions,
            axis,
            root_size,
            recalc,
            k,
        )[i].preferred == sroot[i].preferred,
        crate::distribute::dist_upto(
            sroot,
            tree,
            grows,
            positions,
            directions,
            axis,
            root_size,
            recalc,
            k,
        )[i].min_inner_size_px == sroot[i].min_inner_size_px,
    decreases k,
{
    if k > 0 {
        lemma_dist_upto_fields(
            sroot,
            tree,
            grows,
            positions,
            directions,
            axis,
            root_size,
            recalc,
            i,
            k - 1,
        );
        let q = tree.parents_ordered@[k - 1] as int;
        if recalc[q] {
            let prev = crate::distribute::dist_upto(
                sroot,
                tree,
                grows,
                positions,
                directions,
                axis,
                root_size,
                recalc,
                k - 1,
            );
            lemma_dist_step_fields(
                prev,
                tree,
                grows,
                positions,
                directions,
                axis,
                root_size,
                q,
                i,
            );
        }
    }
}

/// The summed flex bases of a parent's children ignore absolutely
/// positioned children entirely.
pub proof fn lemma_flex_basis_sum_two_state(
    sa: Seq<AxisRect>,
    sb: Seq<AxisRect>,
    positions: Seq<LayoutPosition>,
    kids: Seq<usize>,
    k: int,
    reference: int,
)
    requires
        0 <= k <= kids.len(),
        forall|j: int|
            0 <= j < kids.len() && positions[(#[trigger] kids[j] as int)]
                != LayoutPosition::Absolute ==> sa[(kids[j] as int)] == sb[(kids[j] as int)],
    ensures
        crate::solver::sum_flex_basis_upto(sa, positions, kids, k, reference)
            == crate::solver::sum_flex_basis_upto(sb, positions, kids, k, reference),
    decreases k,
{
    if k > 0 {
        lemma_flex_basis_sum_two_state(sa, sb, positions, kids, k - 1, reference);
    }
}

/// Absolute exclusion (bubble pass): the minimum inner size the bubble
/// pass stores in parent `p` is the same whatever the data of `p`'s
/// absolutely positioned children is.
pub proof fn lemma_absolute_exclusion_bubble(
    sa: Seq<AxisRect>,
    sb: Seq<AxisRect>,
    tree: NodeHierarchy,
    positions: Seq<LayoutPosition>,
    p: int,
)
    requires
        tree.wf(),
        0 <= p < tree.n(),
        sa.len() == tree.n(),
        sb.len() == tree.n(),
        sa[p] == sb[p],
        sa[crate::relayout::parent_or_root(tree, p)] == sb[crate::relayout::parent_or_root(
            tree,
            p,
        )],
        forall|j: int|
            0 <= j < tree.children@[p]@.len() && positions[(#[trigger] tree.children@[p]@[j]
                as int)] != LayoutPosition::Absolute ==> sa[(tree.children@[p]@[j] as int)] == sb[(
            tree.children@[p]@[j] as int)],
    ensures
        crate::solver::bubble_step(sa, tree, positions, p)[p] == crate::solver::bubble_step(
            sb,
            tree,
            positions,
            p,
        )[p],
{
    let kids = tree.children@[p]@;
    let reference = match sa[p].preferred.max_available_space_spec() {
        Some(m) => m,
        None => 0,
    };
    lemma_flex_basis_sum_two_state(sa, sb, positions, kids, kids.len() as int, reference);
}

/// Placing a row ignores absolutely positioned children: the main-axis
/// space they would consume is never counted.
pub proof fn lemma_main_sum_two_state(
    sa: Seq<AxisRect>,
    sb: Seq<AxisRect>,
    positions: Seq<LayoutPosition>,
    kids: Seq<usize>,
    reverse: bool,
    k: int,
    parent_total: int,
)
    requires
        0 <= k <= kids.len(),
        forall|j: int|
            0 <= j < kids.len() && positions[(#[trigger] kids[j] as int)]
                != LayoutPosition::Absolute ==> sa[(kids[j] as int)] == sb[(kids[j] as int)],
    ensures
        crate::position::main_sum_upto(sa, positions, kids, reverse, k, parent_total)
            == crate::position::main_sum_upto(sb, positions, kids, reverse, k, parent_total),
    decreases k,
{
    if k > 0 {
        lemma_main_sum_two_state(sa, sb, positions, kids, reverse, k - 1, parent_total);
    }
}

/// Absolute exclusion (position pass, main axis): the start coordinates
/// of a parent's children in the regular flow are the same whatever the
/// data of its absolutely positioned children is.
pub proof fn lemma_main_pos_two_state(
    pos0a: Seq<Px>,
    pos0b: Seq<Px>,
    sa: Seq<AxisRect>,
    sb: Seq<AxisRect>,
    positions: Seq<LayoutPosition>,
    kids: Seq<usize>,
    reverse: bool,
    k: int,
    p: int,
    justify: crate::style::LayoutJustifyContent,
    parent_x: int,
    parent_inner: int,
    parent_total: int,
)
    requires
        0 <= k <= kids.len(),
        pos0a.len() == pos0b.len(),
        forall|j: int| 0 <= j < kids.len() ==> 0 <= (#[trigger] kids[j] as int) < pos0a.len(),
        forall|j1: int, j2: int|
            0 <= j1 < j2 < kids.len() ==> (kids[j1] as int) < (kids[j2] as int),
        forall|j: int|
            0 <= j < kids.len() && positions[(#[trigger] kids[j] as int)]
                != LayoutPosition::Absolute ==> sa[(kids[j] as int)] == sb[(kids[j] as int)],
    ensures
        forall|j: int|
            0 <= j < kids.len() && (if reverse {
                j >= kids.len() - k
            } else {
                j < k
            }) && positions[(#[trigger] kids[j] as int)] != LayoutPosition::Absolute
                ==> crate::position::main_pos_upto(
                pos0a,
                sa,
                positions,
                kids,
                reverse,
                k,
                p,
                justify,
                parent_x,
                parent_inner,
                parent_total,
            )[(kids[j] as int)] == crate::position::main_pos_upto(
                pos0b,
                sb,
                positions,
                kids,
                reverse,
                k,
                p,
                justify,
                parent_x,
                parent_inner,
                parent_total,
            )[(kids[j] as int)],
    decreases k,
{
    if k > 0 {
        lemma_main_pos_two_state(
            pos0a,
            pos0b,
            sa,
            sb,
            positions,
            kids,
            reverse,
            k - 1,
            p,
            justify,
            parent_x,
            parent_inner,
            parent_total,
        );
        let c = crate::position::child_at(kids, reverse, k - 1);
        lemma_main_sum_two_state(sa, sb, positions, kids, reverse, k - 1, parent_total);
        assert forall|j: int|
            0 <= j < kids.len() && (if reverse {
                j >= kids.len() - k
            } else {
                j < k
            }) && positions[(#[trigger] kids[j] as int)]
                != LayoutPosition::Absolute implies crate::position::main_pos_upto(
            pos0a,
            sa,
            positions,
            kids,
            reverse,
            k,
            p,
            justify,
            parent_x,
            parent_inner,
            parent_total,
        )[(kids[j] as int)] == crate::position::main_pos_upto(
            pos0b,
            sb,
            positions,
            kids,
            reverse,
            k,
            p,
            justify,
            parent_x,
            parent_inner,
            parent_total,
        )[(kids[j] as int)] by {
            crate::position::lemma_main_pos_frame(
                pos0a,
                sa,
                positions,
                kids,
                reverse,
                k - 1,
                p,
                justify,
                parent_x,
                parent_inner,
                parent_total,
                kids[j] as int,
            );
            crate::position::lemma_main_pos_frame(
                pos0b,
                sb,
                positions,
                kids,
                reverse,
                k - 1,
                p,
                justify,
                parent_x,
                parent_inner,
                parent_total,
                kids[j] as int,
            );
            let j0: int = if reverse {
                kids.len() - k
            } else {
                k - 1
            };
            assert(c == kids[j0] as int);
            if j == j0 {
                assert(positions[c] != LayoutPosition::Absolute);
                assert(sa[c] == sb[c]);
            } else {
                if j < j0 {
                    assert((kids[j] as int) < (kids[j0] as int));
                } else {
                    assert((kids[j0] as int) < (kids[j] as int));
                }
            }
        }
    }
}

/// The end-alignment shift moves the children in the regular flow by the
/// same amount in both states.
pub proof fn lemma_shift_two_state(
    pa: Seq<Px>,
    pb: Seq<Px>,
    positions: Seq<LayoutPosition>,
    kids: Seq<usize>,
    k: int,
    diff: int,
)
    requires
        0 <= k <= kids.len(),
        pa.len() == pb.len(),
        forall|j: int| 0 <= j < kids.len() ==> 0 <= (#[trigger] kids[j] as int) < pa.len(),
        forall|j1: int, j2: int|
            0 <= j1 < j2 < kids.len() ==> (kids[j1] as int) < (kids[j2] as int),
        forall|j: int|
            0 <= j < kids.len() && positions[(#[trigger] kids[j] as int)]
                != LayoutPosition::Absolute ==> pa[(kids[j] as int)] == pb[(kids[j] as int)],
    ensures
        forall|j: int|
            0 <= j < kids.len() && positions[(#[trigger] kids[j] as int)]
                != LayoutPosition::Absolute ==> crate::position::shift_upto(
                pa,
                positions,
                kids,
                k,
                diff,
            )[(kids[j] as int)] == crate::position::shift_upto(pb, positions, kids, k, diff)[(
            kids[j] as int)],
    decreases k,
{
    if k > 0 {
        lemma_shift_two_state(pa, pb, positions, kids, k - 1, diff);
        let c = kids[k - 1] as int;
        assert forall|j: int|
            0 <= j < kids.len() && positions[(#[trigger] kids[j] as int)]
                != LayoutPosition::Absolute implies crate::position::shift_upto(
            pa,
            positions,
            kids,
            k,
            diff,
        )[(kids[j] as int)] == crate::position::shift_upto(pb, positions, kids, k, diff)[(
        kids[j] as int)] by {
            crate::position::lemma_shift_len(pa, positions, kids, k - 1, diff);
            crate::position::lemma_shift_len(pb, positions, kids, k - 1, diff);
            if j != k - 1 {
                if j < k - 1 {
                    assert((kids[j] as int) < (kids[k - 1] as int));
                } else {
                    assert((kids[k - 1] as int) < (kids[j] as int));
                }
            }
        }
    }
}

/// Placing a column (cross axis) ignores absolutely positioned children.
pub proof fn lemma_cross_pos_two_state(
    pos0a: Seq<Px>,
    pos0b: Seq<Px>,
    sa: Seq<AxisRect>,
    sb: Seq<AxisRect>,
    positions: Seq<LayoutPosition>,
    kids: Seq<usize>,
    reverse: bool,
    k: int,
    p: int,
    parent_x: int,
    parent_total: int,
)
    requires
        0 <= k <= kids.len(),
        pos0a.len() == pos0b.len(),
        forall|j: int| 0 <= j < kids.len() ==> 0 <= (#[trigger] kids[j] as int) < pos0a.len(),
        forall|j1: int, j2: int|
            0 <= j1 < j2 < kids.len() ==> (kids[j1] as int) < (kids[j2] as int),
        forall|j: int|
            0 <= j < kids.len() && positions[(#[trigger] kids[j] as int)]
                != LayoutPosition::Absolute ==> sa[(kids[j] as int)] == sb[(kids[j] as int)],
    ensures
        forall|j: int|
            0 <= j < kids.len() && (if reverse {
                j >= kids.len() - k
            } else {
                j < k
            }) && positions[(#[trigger] kids[j] as int)] != LayoutPosition::Absolute
                ==> crate::position::cross_pos_upto(
                pos0a,
                sa,
                positions,
                kids,
                reverse,
                k,
                p,
                parent_x,
                parent_total,
            )[(kids[j] as int)] == crate::position::cross_pos_upto(
                pos0b,
                sb,
                positions,
                kids,
                reverse,
                k,
                p,
                parent_x,
                parent_total,
            )[(kids[j] as int)],
    decreases k,
{
    if k > 0 {
        lemma_cross_pos_two_state(
            pos0a,
            pos0b,
            sa,
            sb,
            positions,
            kids,
            reverse,
            k - 1,
            p,
            parent_x,
            parent_total,
        );
        let c = crate::position::child_at(kids, reverse, k - 1);
        assert forall|j: int|
            0 <= j < kids.len() && (if reverse {
                j >= kids.len() - k
            } else {
                j < k
            }) && positions[(#[trigger] kids[j] as int)]
                != LayoutPosition::Absolute implies crate::position::cross_pos_upto(
            pos0a,
            sa,
            positions,
            kids,
            reverse,
            k,
            p,
            parent_x,
            parent_total,
        )[(kids[j] as int)] == crate::position::cross_pos_upto(
            pos0b,
            sb,
            positions,
            kids,
            reverse,
            k,
            p,
            parent_x,
            parent_total,
        )[(kids[j] as int)] by {
            crate::position::lemma_cross_pos_frame(
                pos0a,
                sa,
                positions,
                kids,
                reverse,
                k - 1,
                p,
                parent_x,
                parent_total,
                kids[j] as int,
            );
            crate::position::lemma_cross_pos_frame(
                pos0b,
                sb,
                positions,
                kids,
                reverse,
                k - 1,
                p,
                parent_x,
                parent_total,
                kids[j] as int,
            );
            let j0: int = if reverse {
                kids.len() - k
            } else {
                k - 1
            };
            assert(c == kids[j0] as int);
            if j == j0 {
                assert(positions[c] != LayoutPosition::Absolute);
                assert(sa[c] == sb[c]);
            } else {
                if j < j0 {
                    assert((kids[j] as int) < (kids[j0] as int));
                } else {
                    assert((kids[j0] as int) < (kids[j] as int));
                }
            }
        }
    }
}

/// Absolute exclusion (position pass): one position step for parent `p`
/// gives its children in the regular flow the same start coordinates
/// whatever the data of its absolutely positioned children is.
pub proof fn lemma_absolute_exclusion_positions(
    pos0a: Seq<Px>,
    pos0b: Seq<Px>,
    sa: Seq<AxisRect>,
    sb: Seq<AxisRect>,
    tree: NodeHierarchy,
    positions: Seq<LayoutPosition>,
    directions: Seq<crate::style::LayoutFlexDirection>,
    justifies: Seq<crate::style::LayoutJustifyContent>,
    axis: crate::style::LayoutAxis,
    p: int,
)
    requires
        tree.wf(),
        0 <= p < tree.n(),
        pos0a.len() == tree.n(),
        pos0b.len() == tree.n(),
        sa.len() == tree.n(),
        sb.len() == tree.n(),
        pos0a[p] == pos0b[p],
        sa[p] == sb[p],
        sa[crate::relayout::parent_or_root(tree, p)] == sb[crate::relayout::parent_or_root(
            tree,
            p,
        )],
        forall|j: int|
            0 <= j < tree.children@[p]@.len() && positions[(#[trigger] tree.children@[p]@[j]
                as int)] != LayoutPosition::Absolute ==> sa[(tree.children@[p]@[j] as int)] == sb[(
            tree.children@[p]@[j] as int)],
    ensures
        forall|j: int|
            0 <= j < tree.children@[p]@.len() && positions[(#[trigger] tree.children@[p]@[j]
                as int)] != LayoutPosition::Absolute ==> crate::position::pos_step(
                pos0a,
                sa,
                tree,
                positions,
                directions,
                justifies,
                axis,
                p,
            )[(tree.children@[p]@[j] as int)] == crate::position::pos_step(
                pos0b,
                sb,
                tree,
                positions,
                directions,
                justifies,
                axis,
                p,
            )[(tree.children@[p]@[j] as int)],
{
    let kids = tree.children@[p]@;
    let nk = kids.len() as int;
    let parent_total = sa[p].total_spec();
    let ppw = match tree.parent_of(p) {
        Some(pp) => sa[pp].total_spec(),
        None => 0,
    };
    let pad_s = crate::style::opt_to_pixels_spec(sa[p].padding_start, ppw);
    let pad_e = crate::style::opt_to_pixels_spec(sa[p].padding_end, ppw);
    let parent_x = sat_add_spec(pos0a[p] as int, pad_s);
    let reverse = directions[p].is_reverse_spec();
    if directions[p].axis_spec() == axis {
        let justify = justifies[p];
        let parent_inner = sat_sub_spec(parent_total, sat_add_spec(pad_s, pad_e));
        lemma_main_pos_two_state(
            pos0a,
            pos0b,
            sa,
            sb,
            positions,
            kids,
            reverse,
            nk,
            p,
            justify,
            parent_x,
            parent_inner,
            parent_total,
        );
        let align_end = (!reverse && justify == crate::style::LayoutJustifyContent::End) || (
        reverse && justify == crate::style::LayoutJustifyContent::Start);
        if align_end {
            let placed_a = crate::position::main_pos_upto(
                pos0a,
                sa,
                positions,
                kids,
                reverse,
                nk,
                p,
                justify,
                parent_x,
                parent_inner,
                parent_total,
            );
            let placed_b = crate::position::main_pos_upto(
                pos0b,
                sb,
                positions,
                kids,
                reverse,
                nk,
                p,
                justify,
                parent_x,
                parent_inner,
                parent_total,
            );
            crate::position::lemma_main_pos_frame(
                pos0a,
                sa,
                positions,
                kids,
                reverse,
                nk,
                p,
                justify,
                parent_x,
                parent_inner,
                parent_total,
                p,
            );
            crate::position::lemma_main_pos_frame(
                pos0b,
                sb,
                positions,
                kids,
                reverse,
                nk,
                p,
                justify,
                parent_x,
                parent_inner,
                parent_total,
                p,
            );
            lemma_main_sum_two_state(sa, sb, positions, kids, reverse, nk, parent_total);
            let diff = sat_sub_spec(
                parent_inner,
                crate::position::main_sum_upto(sa, positions, kids, reverse, nk, parent_total),
            );
            lemma_shift_two_state(placed_a, placed_b, positions, kids, nk, diff);
        }
    } else {
        lemma_cross_pos_two_state(
            pos0a,
            pos0b,
            sa,
            sb,
            positions,
            kids,
            reverse,
            nk,
            p,
            parent_x,
            parent_total,
        );
    }
}

/// The summed resolved sizes of the first `k` pool members.
pub open spec fn totals_sum_upto(state: Seq<AxisRect>, pool: Seq<usize>, k: int) -> int
    decreases k,
{
    if k <= 0 {
        0
    } else {
        totals_sum_upto(state, pool, k - 1) + state[pool[k - 1] as int].total_spec()
    }
}

/// Each pool member's factor is at most the factor sum.
pub proof fn lemma_grow_le_sum(grows: Seq<u32>, pool: Seq<usize>, j: int)
    requires
        0 <= j < pool.len(),
        sum_grows_upto(grows, pool, pool.len() as int) <= SANE_PX,
    ensures
        (grows[pool[j] as int] as int) <= sum_grows_upto(grows, pool, pool.len() as int),
{
    lemma_sum_grows_monotone(grows, pool, j, pool.len() as int);
    lemma_sum_grows_monotone(grows, pool, 0, j);
    lemma_sum_grows_monotone(grows, pool, j + 1, pool.len() as int);
    assert(sum_grows_upto(grows, pool, j + 1) == sat_add_spec(
        sum_grows_upto(grows, pool, j),
        grows[pool[j] as int] as int,
    ));
}

/// After one assignment round over members without maximum constraints,
/// the summed sizes of the first `k` members equal the summed shares.
pub proof fn lemma_totals_equal_added(
    state0: Seq<AxisRect>,
    grows: Seq<u32>,
    pool: Seq<usize>,
    k: int,
    share: int,
    avail: int,
)
    requires
        0 <= k <= pool.len(),
        share >= 0,
        avail <= SANE_PX,
        forall|j: int| 0 <= j < pool.len() ==> 0 <= (#[trigger] pool[j] as int) < state0.len(),
        forall|j1: int, j2: int|
            0 <= j1 < j2 < pool.len() ==> (pool[j1] as int) < (pool[j2] as int),
        forall|j: int|
            0 <= j < pool.len() ==> state0[(#[trigger] pool[j]
                as int)].preferred.max_available_space_spec() is None,
        forall|j: int|
            0 <= j < pool.len() ==> -SANE_PX <= state0[(#[trigger] pool[j]
                as int)].min_inner_size_px <= SANE_PX,
        forall|j: int|
            0 <= j < pool.len() ==> 0 <= crate::px::sat_mul_spec(
                share,
                grows[(#[trigger] pool[j] as int)] as int,
            ) <= avail,
    ensures
        totals_sum_upto(
            pool_assign_upto(state0, grows, pool, pool.len() as int, share),
            pool,
            k,
        ) == added_sum_upto(grows, pool, k, share),
    decreases k,
{
    if k > 0 {
        lemma_totals_equal_added(state0, grows, pool, k - 1, share, avail);
        lemma_pool_assign_at(state0, grows, pool, pool.len() as int, k - 1, share);
        let c = pool[k - 1] as int;
        let added = crate::px::sat_mul_spec(share, grows[c] as int);
        assert(!is_violation(state0, grows, share, c));
        let ns = pool_assign_upto(state0, grows, pool, pool.len() as int, share);
        assert(ns[c].flex_grow_px as int == sat_sub_spec(
            added,
            state0[c].min_inner_size_px as int,
        ));
        assert(ns[c].total_spec() == added);
    }
}

/// No negative space (main axis, no maximum constraints): when no pool
/// member carries a maximum size, the proportional distribution finishes
/// in one round and the members' summed resolved sizes never exceed the
/// available space.
pub proof fn lemma_pool_no_max_within_budget(
    state: Seq<AxisRect>,
    grows: Seq<u32>,
    pool: Seq<usize>,
    avail: int,
)
    requires
        avail > 0,
        avail <= SANE_PX,
        sum_grows_upto(grows, pool, pool.len() as int) > 0,
        sum_grows_upto(grows, pool, pool.len() as int) <= SANE_PX,
        forall|j: int| 0 <= j < pool.len() ==> 0 <= (#[trigger] pool[j] as int) < state.len(),
        forall|j1: int, j2: int|
            0 <= j1 < j2 < pool.len() ==> (pool[j1] as int) < (pool[j2] as int),
        forall|j: int|
            0 <= j < pool.len() ==> state[(#[trigger] pool[j]
                as int)].preferred.max_available_space_spec() is None,
        forall|j: int|
            0 <= j < pool.len() ==> -SANE_PX <= state[(#[trigger] pool[j]
                as int)].min_inner_size_px <= SANE_PX,
    ensures
        totals_sum_upto(
            spec_pool_loop(state, grows, pool, avail),
            pool,
            pool.len() as int,
        ) <= avail,
{
    let sum = sum_grows_upto(grows, pool, pool.len() as int);
    let share = avail / sum;
    vstd::arithmetic::div_mod::lemma_fundamental_div_mod(avail, sum);
    vstd::arithmetic::div_mod::lemma_mod_bound(avail, sum);
    assert(share >= 0) by {
        vstd::arithmetic::div_mod::lemma_div_pos_is_pos(avail, sum);
    }
    assert(share * sum <= avail);
    assert forall|j: int| 0 <= j < pool.len() implies 0 <= crate::px::sat_mul_spec(
        share,
        grows[(#[trigger] pool[j] as int)] as int,
    ) <= avail by {
        let g = grows[pool[j] as int] as int;
        lemma_grow_le_sum(grows, pool, j);
        assert(share * g >= 0 && share * g <= share * sum) by (nonlinear_arith)
            requires
                share >= 0,
                0 <= g,
                g <= sum,
        ;
    }
    assert(!any_violation(state, grows, pool, pool.len() as int, share));
    lemma_totals_equal_added(state, grows, pool, pool.len() as int, share, avail);
    lemma_full_round_within_budget(grows, pool, avail);
}

/// Absolute exclusion (cross axis): the cross-axis stretch of parent `p`
/// gives its children in the regular flow the same sizes whatever the
/// data of its absolutely positioned children is.
pub proof fn lemma_absolute_exclusion_cross(
    sa: Seq<AxisRect>,
    sb: Seq<AxisRect>,
    tree: NodeHierarchy,
    positions: Seq<LayoutPosition>,
    p: int,
    root_size: int,
)
    requires
        tree.wf(),
        0 <= p < tree.n(),
        sa.len() == tree.n(),
        sb.len() == tree.n(),
        positions.len() == tree.n(),
        sa[p] == sb[p],
        sa[crate::relayout::parent_or_root(tree, p)] == sb[crate::relayout::parent_or_root(
            tree,
            p,
        )],
        forall|j: int|
            0 <= j < tree.children@[p]@.len() && positions[(#[trigger] tree.children@[p]@[j]
                as int)] != LayoutPosition::Absolute ==> sa[(tree.children@[p]@[j] as int)] == sb[(
            tree.children@[p]@[j] as int)],
    ensures
        forall|j: int|
            0 <= j < tree.children@[p]@.len() && positions[(#[trigger] tree.children@[p]@[j]
                as int)] != LayoutPosition::Absolute ==> spec_distribute_cross(
                sa,
                tree,
                positions,
                p,
                root_size,
            )[(tree.children@[p]@[j] as int)] == spec_distribute_cross(
                sb,
                tree,
                positions,
                p,
                root_size,
            )[(tree.children@[p]@[j] as int)],
{
    let kids = tree.children@[p]@;
    let nk = kids.len() as int;
    let inner_a = parent_inner_space(sa, tree, p, root_size);
    let inner_b = parent_inner_space(sb, tree, p, root_size);
    assert(inner_a == inner_b);
    let anchor_a = anchor_inner_space(sa, tree, positions, p, root_size);
    let anchor_b = anchor_inner_space(sb, tree, positions, p, root_size);
    assert forall|j: int|
        0 <= j < kids.len() && positions[(#[trigger] kids[j] as int)] != LayoutPosition::Absolute
        implies spec_distribute_cross(sa, tree, positions, p, root_size)[(kids[j] as int)]
        == spec_distribute_cross(sb, tree, positions, p, root_size)[(kids[j] as int)] by {
        lemma_cross_children_at(sa, positions, kids, nk, j, inner_a, anchor_a);
        lemma_cross_children_at(sb, positions, kids, nk, j, inner_b, anchor_b);
    }
}

} // verus!
