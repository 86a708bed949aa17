//! The sizing passes: initialisation and the bubble pass.
//!
//! Initialisation resolves every node's preferred constraint (walking
//! parents root-first so each node can resolve percentages against its
//! parent's constraint) and copies the per-axis offsets into the working
//! rectangles. The bubble pass then walks parents deepest-first and stores
//! in each parent the sum of its non-absolutely-positioned children's flex
//! bases, clamped into the parent's own constraint: the parent's minimum
//! inner size.

use vstd::prelude::*;
use vstd::pervasive::VecAdditionalExecFns;

use crate::constraint::{
    resolve_axis, resolve_axis_spec, AxisConfig, AxisOffsets, AxisRect, WhConstraint,
};
use crate::px::{sat_add, sat_add_spec, sat_sub, sat_sub_spec, Px};
use crate::style::LayoutPosition;
use crate::tree::NodeHierarchy;

verus! {

/// An optional pixel value as an optional integer.
pub open spec fn opt_int(o: Option<Px>) -> Option<int> {
    match o {
        Some(v) => Some(v as int),
        None => None,
    }
}

/// A working rectangle before any pass has run.
pub open spec fn default_axis_rect() -> AxisRect {
    AxisRect {
        preferred: WhConstraint::Unconstrained,
        margin_start: None,
        margin_end: None,
        padding_start: None,
        padding_end: None,
        inset_start: None,
        inset_end: None,
        flex_grow_px: 0,
        min_inner_size_px: 0,
    }
}

/// The working rectangle of a node: its resolved constraint and its copied
/// offsets, with no size solved yet.
pub open spec fn mk_axis_rect(
    cfg: AxisConfig,
    off: AxisOffsets,
    content: Option<Px>,
    reference: int,
) -> AxisRect {
    AxisRect {
        preferred: resolve_axis_spec(cfg, opt_int(content), reference),
        margin_start: off.margin_start,
        margin_end: off.margin_end,
        padding_start: off.padding_start,
        padding_end: off.padding_end,
        inset_start: off.inset_start,
        inset_end: off.inset_end,
        flex_grow_px: 0,
        min_inner_size_px: 0,
    }
}

/// The reference length a parent node resolves its own constraint against:
/// its parent's maximum available space, or the root size for the root and
/// for unconstrained grandparents.
pub open spec fn init_parent_ref(
    state: Seq<AxisRect>,
    tree: NodeHierarchy,
    p: int,
    root_size: int,
) -> int {
    match tree.parent_of(p) {
        Some(pp) => match state[pp].preferred.max_available_space_spec() {
            Some(m) => m,
            None => root_size,
        },
        None => root_size,
    }
}

/// The state after initialising the first `k` children of a parent whose
/// resolved constraint yields the reference length `child_ref`.
pub open spec fn init_children_upto(
    state: Seq<AxisRect>,
    cfgs: Seq<AxisConfig>,
    offs: Seq<AxisOffsets>,
    contents: Seq<Option<Px>>,
    kids: Seq<usize>,
    k: int,
    child_ref: int,
) -> Seq<AxisRect>
    decreases k,
{
    if k <= 0 {
        state
    } else {
        let c = kids[k - 1] as int;
        init_children_upto(state, cfgs, offs, contents, kids, k - 1, child_ref).update(
            c,
            mk_axis_rect(cfgs[c], offs[c], contents[c], child_ref),
        )
    }
}

/// One initialisation step: resolve parent `p`'s constraint, then its
/// children's against it.
pub open spec fn init_step(
    state: Seq<AxisRect>,
    tree: NodeHierarchy,
    cfgs: Seq<AxisConfig>,
    offs: Seq<AxisOffsets>,
    contents: Seq<Option<Px>>,
    root_size: int,
    p: int,
) -> Seq<AxisRect> {
    let parent_ref = init_parent_ref(state, tree, p, root_size);
    let rect_p = mk_axis_rect(cfgs[p], offs[p], contents[p], parent_ref);
    let s1 = state.update(p, rect_p);
    let child_ref = match rect_p.preferred.max_available_space_spec() {
        Some(m) => m,
        None => 0,
    };
    init_children_upto(s1, cfgs, offs, contents, tree.children@[p]@, tree.children@[p]@.len() as int, child_ref)
}

/// The state after the first `k` parents have been initialised.
pub open spec fn init_upto(
    tree: NodeHierarchy,
    cfgs: Seq<AxisConfig>,
    offs: Seq<AxisOffsets>,
    contents: Seq<Option<Px>>,
    root_size: int,
    k: int,
) -> Seq<AxisRect>
    decreases k,
{
    if k <= 0 {
        Seq::new(tree.n() as nat, |i: int| default_axis_rect())
    } else {
        init_step(
            init_upto(tree, cfgs, offs, contents, root_size, k - 1),
            tree,
            cfgs,
            offs,
            contents,
            root_size,
            tree.parents_ordered@[k - 1] as int,
        )
    }
}

/// The fully initialised working rectangles for one axis.
pub open spec fn spec_init_axis_rects(
    tree: NodeHierarchy,
    cfgs: Seq<AxisConfig>,
    offs: Seq<AxisOffsets>,
    contents: Seq<Option<Px>>,
    root_size: int,
) -> Seq<AxisRect> {
    init_upto(tree, cfgs, offs, contents, root_size, tree.parents_ordered@.len() as int)
}

/// Builds the per-node working rectangles for one axis: every parent's
/// constraint is resolved against its own parent's available space (the
/// root size at the root), every child's against its parent's resolved
/// constraint.
pub fn init_axis_rects(
    tree: &NodeHierarchy,
    cfgs: &Vec<AxisConfig>,
    offs: &Vec<AxisOffsets>,
    contents: &Vec<Option<Px>>,
    root_size: Px,
) -> (r: Vec<AxisRect>)
    requires
        tree.wf(),
        cfgs@.len() == tree.n(),
        offs@.len() == tree.n(),
        contents@.len() == tree.n(),
    ensures
        r@ == spec_init_axis_rects(*tree, cfgs@, offs@, contents@, root_size as int),
        r@.len() == tree.n(),
{
    let n = tree.len();
    let mut state: Vec<AxisRect> = Vec::new();
    let mut i: usize = 0;
    while i < n
        invariant
            i <= n,
            n == tree.n(),
            state@.len() == i,
            forall|j: int| 0 <= j < i ==> state@[j] == default_axis_rect(),
        decreases n - i,
    {
        state.push(AxisRect {
            preferred: WhConstraint::Unconstrained,
            margin_start: None,
            margin_end: None,
            padding_start: None,
            padding_end: None,
            inset_start: None,
            inset_end: None,
            flex_grow_px: 0,
            min_inner_size_px: 0,
        });
        i += 1;
    }
    proof {
        assert(state@ =~= init_upto(*tree, cfgs@, offs@, contents@, root_size as int, 0));
    }

    let num_parents = tree.parents_ordered.len();
    let mut k: usize = 0;
    while k < num_parents
        invariant
            k <= num_parents,
            num_parents == tree.parents_ordered@.len(),
            tree.wf(),
            cfgs@.len() == tree.n(),
            offs@.len() == tree.n(),
            contents@.len() == tree.n(),
            state@.len() == tree.n(),
            state@ == init_upto(*tree, cfgs@, offs@, contents@, root_size as int, k as int),
        decreases num_parents - k,
    {
        let p = tree.parents_ordered[k];
        let parent_ref: Px = if p == 0 {
            root_size
        } else {
            match state[tree.parent[p]].preferred.max_available_space() {
                Some(m) => m,
                None => root_size,
            }
        };
        let rect_p = AxisRect {
            preferred: resolve_axis(&cfgs[p], contents[p], parent_ref),
            margin_start: offs[p].margin_start,
            margin_end: offs[p].margin_end,
            padding_start: offs[p].padding_start,
            padding_end: offs[p].padding_end,
            inset_start: offs[p].inset_start,
            inset_end: offs[p].inset_end,
            flex_grow_px: 0,
            min_inner_size_px: 0,
        };
        state.set(p, rect_p);
        let child_ref: Px = match rect_p.preferred.max_available_space() {
            Some(m) => m,
            None => 0,
        };
        let ghost s1 = state@;
        let num_kids = tree.children[p].len();
        let mut c: usize = 0;
        while c < num_kids
            invariant
                c <= num_kids,
                num_kids == tree.children@[p as int]@.len(),
                tree.wf(),
                p < tree.n(),
                cfgs@.len() == tree.n(),
                offs@.len() == tree.n(),
                contents@.len() == tree.n(),
                state@.len() == tree.n(),
                state@ == init_children_upto(
                    s1,
                    cfgs@,
                    offs@,
                    contents@,
                    tree.children@[p as int]@,
                    c as int,
                    child_ref as int,
                ),
            decreases num_kids - c,
        {
            let cid = tree.children[p][c];
            let rect_c = AxisRect {
                preferred: resolve_axis(&cfgs[cid], contents[cid], child_ref),
                margin_start: offs[cid].margin_start,
                margin_end: offs[cid].margin_end,
                padding_start: offs[cid].padding_start,
                padding_end: offs[cid].padding_end,
                inset_start: offs[cid].inset_start,
                inset_end: offs[cid].inset_end,
                flex_grow_px: 0,
                min_inner_size_px: 0,
            };
            state.set(cid, rect_c);
            c += 1;
        }
        k += 1;
    }
    state
}

/// The summed flex basis of the first `k` children, skipping absolutely
/// positioned ones.
pub open spec fn sum_flex_basis_upto(
    state: Seq<AxisRect>,
    positions: Seq<LayoutPosition>,
    kids: Seq<usize>,
    k: int,
    reference: int,
) -> int
    decreases k,
{
    if k <= 0 {
        0
    } else {
        let c = kids[k - 1] as int;
        let rest = sum_flex_basis_upto(state, positions, kids, k - 1, reference);
        if positions[c] != LayoutPosition::Absolute {
            sat_add_spec(rest, state[c].flex_basis_spec(reference))
        } else {
            rest
        }
    }
}

/// One bubble step: store in parent `p` the sum of its children's flex
/// bases, clamped into `p`'s own constraint (for an exact constraint the
/// inner size is the exact size minus `p`'s padding).
pub open spec fn bubble_step(
    state: Seq<AxisRect>,
    tree: NodeHierarchy,
    positions: Seq<LayoutPosition>,
    p: int,
) -> Seq<AxisRect> {
    let parent_width = match tree.parent_of(p) {
        Some(pp) => match state[pp].preferred.min_needed_space_spec() {
            Some(m) => m,
            None => 0,
        },
        None => 0,
    };
    let reference = match state[p].preferred.max_available_space_spec() {
        Some(m) => m,
        None => 0,
    };
    let kids = tree.children@[p]@;
    let children_flex_basis = sum_flex_basis_upto(state, positions, kids, kids.len() as int, reference);
    let parent_padding = state[p].padding_spec(parent_width);
    let child_width = match state[p].preferred {
        WhConstraint::Between(min, max) => {
            if children_flex_basis > sat_sub_spec(max as int, parent_padding) {
                max as int
            } else if children_flex_basis < sat_add_spec(min as int, parent_padding) {
                min as int
            } else {
                children_flex_basis
            }
        },
        WhConstraint::EqualTo(exact) => sat_sub_spec(exact as int, parent_padding),
        WhConstraint::Unconstrained => children_flex_basis,
    };
    state.update(p, AxisRect { min_inner_size_px: child_width as Px, ..state[p] })
}

/// The state after the bubble pass has processed the last `k` parents of
/// the deepest-first order.
pub open spec fn bubble_upto(
    state0: Seq<AxisRect>,
    tree: NodeHierarchy,
    positions: Seq<LayoutPosition>,
    k: int,
) -> Seq<AxisRect>
    decreases k,
{
    if k <= 0 {
        state0
    } else {
        bubble_step(
            bubble_upto(state0, tree, positions, k - 1),
            tree,
            positions,
            tree.parents_ordered@[tree.parents_ordered@.len() - k] as int,
        )
    }
}

/// The state after the full bubble pass.
pub open spec fn spec_bubble(
    state0: Seq<AxisRect>,
    tree: NodeHierarchy,
    positions: Seq<LayoutPosition>,
) -> Seq<AxisRect> {
    bubble_upto(state0, tree, positions, tree.parents_ordered@.len() as int)
}

/// The bubble pass: walks parents deepest-first and fills each parent's
/// minimum inner size with its children's summed flex bases clamped into
/// the parent's own constraint. Absolutely positioned children consume no
/// space and are skipped.
pub fn bubble_inner_sizes(
    state: Vec<AxisRect>,
    tree: &NodeHierarchy,
    positions: &Vec<LayoutPosition>,
) -> (r: Vec<AxisRect>)
    requires
        tree.wf(),
        state@.len() == tree.n(),
        positions@.len() == tree.n(),
    ensures
        r@ == spec_bubble(state@, *tree, positions@),
        r@.len() == tree.n(),
{
    let ghost state0 = state@;
    let mut state = state;
    let num_parents = tree.parents_ordered.len();
    let mut k: usize = 0;
    while k < num_parents
        invariant
            k <= num_parents,
            num_parents == tree.parents_ordered@.len(),
            tree.wf(),
            positions@.len() == tree.n(),
            state@.len() == tree.n(),
            state@ == bubble_upto(state0, *tree, positions@, k as int),
        decreases num_parents - k,
    {
        let p = tree.parents_ordered[num_parents - 1 - k];
        let parent_width: Px = if p == 0 {
            0
        } else {
            match state[tree.parent[p]].preferred.min_needed_space() {
                Some(m) => m,
                None => 0,
            }
        };
        let reference: Px = match state[p].preferred.max_available_space() {
            Some(m) => m,
            None => 0,
        };
        let ghost kids = tree.children@[p as int]@;
        let num_kids = tree.children[p].len();
        let mut sum: Px = 0;
        let mut c: usize = 0;
        while c < num_kids
            invariant
                c <= num_kids,
                num_kids == kids.len(),
                kids == tree.children@[p as int]@,
                tree.wf(),
                p < tree.n(),
                positions@.len() == tree.n(),
                state@.len() == tree.n(),
                sum as int == sum_flex_basis_upto(state@, positions@, kids, c as int, reference as int),
            decreases num_kids - c,
        {
            let cid = tree.children[p][c];
            if positions[cid] != LayoutPosition::Absolute {
                sum = sat_add(sum, state[cid].get_flex_basis(reference));
            }
            c += 1;
        }
        let parent_padding = state[p].get_padding(parent_width);
        let child_width: Px = match state[p].preferred {
            WhConstraint::Between(min, max) => {
                if sum > sat_sub(max, parent_padding) {
                    max
                } else if sum < sat_add(min, parent_padding) {
                    min
                } else {
                    sum
                }
            },
            WhConstraint::EqualTo(exact) => sat_sub(exact, parent_padding),
            WhConstraint::Unconstrained => sum,
        };
        let rect_p = AxisRect { min_inner_size_px: child_width, ..state[p] };
        state.set(p, rect_p);
        k += 1;
    }
    state
}

} // verus!
