//! The position resolver.
//!
//! Walks parents root-first and computes each child's absolute start
//! coordinate on one axis. Children in the regular flow accumulate along
//! the parent's main axis per its justify-content (end alignment is
//! applied as a uniform shift after the whole row is placed, since the
//! consumed space is only known then); on the cross axis each child sits
//! at the parent's content-box origin plus its own margin. Absolutely
//! positioned children anchor to the nearest positioned ancestor, from its
//! start inset (preferred) or its end inset. The `space-between`,
//! `space-around` and `space-evenly` alignments are unimplemented and fall
//! back to the parent's position, a known gap kept as it is. The viewport
//! origin is added to every node at the end.

use vstd::prelude::*;
use vstd::pervasive::VecAdditionalExecFns;

use crate::constraint::AxisRect;
use crate::distribute::anchor_of;
use crate::px::{half, half_spec, sat_add, sat_add_spec, sat_sub, sat_sub_spec, Px};
use crate::style::{
    opt_to_pixels, opt_to_pixels_spec, LayoutAxis, LayoutFlexDirection, LayoutJustifyContent,
    LayoutPosition,
};
use crate::tree::NodeHierarchy;

verus! {

/// The processed child at step `j`: document order, or reversed for a
/// reverse flex-direction.
pub open spec fn child_at(kids: Seq<usize>, reverse: bool, j: int) -> int {
    if reverse {
        kids[kids.len() - 1 - j] as int
    } else {
        kids[j] as int
    }
}

/// The start coordinate of an absolutely positioned child `c` of parent
/// `p`: anchored to the end inset when one is set, else to the start
/// inset.
pub open spec fn absolute_pos_spec(
    pos0: Seq<Px>,
    solved: Seq<AxisRect>,
    positions: Seq<LayoutPosition>,
    p: int,
    c: int,
) -> int {
    let cpw = solved[p].total_spec();
    let anchor = anchor_of(positions, p);
    let a_pad_s = opt_to_pixels_spec(solved[anchor].padding_start, cpw);
    let a_pad_e = opt_to_pixels_spec(solved[anchor].padding_end, cpw);
    let anchor_x = sat_add_spec(pos0[anchor] as int, a_pad_s);
    let anchor_inner = sat_sub_spec(solved[anchor].total_spec(), sat_add_spec(a_pad_s, a_pad_e));
    let margin_s = opt_to_pixels_spec(solved[c].margin_start, cpw);
    let margin_e = opt_to_pixels_spec(solved[c].margin_end, cpw);
    match solved[c].inset_end {
        Some(e) => sat_sub_spec(
            sat_sub_spec(
                sat_sub_spec(
                    sat_add_spec(anchor_x, anchor_inner),
                    solved[c].total_spec(),
                ),
                margin_e,
            ),
            e.to_pixels_spec(cpw),
        ),
        None => sat_add_spec(
            sat_add_spec(anchor_x, margin_s),
            match solved[c].inset_start {
                Some(s) => s.to_pixels_spec(cpw),
                None => 0,
            },
        ),
    }
}

/// The main-axis space consumed by the first `k` processed children
/// (their sizes and margins, skipping absolutely positioned ones).
pub open spec fn main_sum_upto(
    solved: Seq<AxisRect>,
    positions: Seq<LayoutPosition>,
    kids: Seq<usize>,
    reverse: bool,
    k: int,
    parent_total: int,
) -> int
    decreases k,
{
    if k <= 0 {
        0
    } else {
        let c = child_at(kids, reverse, k - 1);
        let rest = main_sum_upto(solved, positions, kids, reverse, k - 1, parent_total);
        if positions[c] != LayoutPosition::Absolute {
            let margin_s = opt_to_pixels_spec(solved[c].margin_start, parent_total);
            let margin_e = opt_to_pixels_spec(solved[c].margin_end, parent_total);
            sat_add_spec(
                rest,
                sat_add_spec(sat_add_spec(margin_e, solved[c].total_spec()), margin_s),
            )
        } else {
            rest
        }
    }
}

/// The start coordinate of flow child `c` under the given alignment, when
/// the children placed before it consume `sum` pixels.
pub open spec fn main_child_pos_spec(
    solved: Seq<AxisRect>,
    c: int,
    justify: LayoutJustifyContent,
    parent_x: int,
    parent_inner: int,
    parent_total: int,
    sum: int,
) -> int {
    let margin_s = opt_to_pixels_spec(solved[c].margin_start, parent_total);
    let margin_e = opt_to_pixels_spec(solved[c].margin_end, parent_total);
    match justify {
        LayoutJustifyContent::Start | LayoutJustifyContent::End => sat_add_spec(
            sat_add_spec(parent_x, sum),
            margin_s,
        ),
        LayoutJustifyContent::Center => sat_add_spec(
            parent_x,
            sat_sub_spec(
                half_spec(parent_inner),
                half_spec(sat_add_spec(sat_add_spec(sum, margin_e), solved[c].total_spec())),
            ),
        ),
        LayoutJustifyContent::SpaceBetween
        | LayoutJustifyContent::SpaceAround
        | LayoutJustifyContent::SpaceEvenly => parent_x,
    }
}

/// The positions after the first `k` processed children of parent `p`
/// have been placed along the main axis.
pub open spec fn main_pos_upto(
    pos0: Seq<Px>,
    solved: Seq<AxisRect>,
    positions: Seq<LayoutPosition>,
    kids: Seq<usize>,
    reverse: bool,
    k: int,
    p: int,
    justify: LayoutJustifyContent,
    parent_x: int,
    parent_inner: int,
    parent_total: int,
) -> Seq<Px>
    decreases k,
{
    if k <= 0 {
        pos0
    } else {
        let c = child_at(kids, reverse, k - 1);
        let prev = main_pos_upto(
            pos0,
            solved,
            positions,
            kids,
            reverse,
            k - 1,
            p,
            justify,
            parent_x,
            parent_inner,
            parent_total,
        );
        if positions[c] == LayoutPosition::Absolute {
            prev.update(c, absolute_pos_spec(pos0, solved, positions, p, c) as Px)
        } else {
            let sum = main_sum_upto(solved, positions, kids, reverse, k - 1, parent_total);
            prev.update(
                c,
                main_child_pos_spec(
                    solved,
                    c,
                    justify,
                    parent_x,
                    parent_inner,
                    parent_total,
                    sum,
                ) as Px,
            )
        }
    }
}

/// The positions after the end-alignment shift has been applied to the
/// first `k` children (in document order, skipping absolute ones).
pub open spec fn shift_upto(
    pos: Seq<Px>,
    positions: Seq<LayoutPosition>,
    kids: Seq<usize>,
    k: int,
    diff: int,
) -> Seq<Px>
    decreases k,
{
    if k <= 0 {
        pos
    } else {
        let c = kids[k - 1] as int;
        let prev = shift_upto(pos, positions, kids, k - 1, diff);
        if positions[c] != LayoutPosition::Absolute {
            prev.update(c, sat_add_spec(prev[c] as int, diff) as Px)
        } else {
            prev
        }
    }
}

/// The positions after the first `k` processed children of parent `p`
/// have been placed along the cross axis.
pub open spec fn cross_pos_upto(
    pos0: Seq<Px>,
    solved: Seq<AxisRect>,
    positions: Seq<LayoutPosition>,
    kids: Seq<usize>,
    reverse: bool,
    k: int,
    p: int,
    parent_x: int,
    parent_total: int,
) -> Seq<Px>
    decreases k,
{
    if k <= 0 {
        pos0
    } else {
        let c = child_at(kids, reverse, k - 1);
        let prev = cross_pos_upto(
            pos0,
            solved,
            positions,
            kids,
            reverse,
            k - 1,
            p,
            parent_x,
            parent_total,
        );
        if positions[c] == LayoutPosition::Absolute {
            prev.update(c, absolute_pos_spec(pos0, solved, positions, p, c) as Px)
        } else {
            prev.update(
                c,
                sat_add_spec(parent_x, opt_to_pixels_spec(solved[c].margin_start, parent_total))
                    as Px,
            )
        }
    }
}

/// One position step for parent `p`.
pub open spec fn pos_step(
    pos0: Seq<Px>,
    solved: Seq<AxisRect>,
    tree: NodeHierarchy,
    positions: Seq<LayoutPosition>,
    directions: Seq<LayoutFlexDirection>,
    justifies: Seq<LayoutJustifyContent>,
    axis: LayoutAxis,
    p: int,
) -> Seq<Px> {
    let kids = tree.children@[p]@;
    let nk = kids.len() as int;
    let parent_total = solved[p].total_spec();
    let ppw = match tree.parent_of(p) {
        Some(pp) => solved[pp].total_spec(),
        None => 0,
    };
    let pad_s = opt_to_pixels_spec(solved[p].padding_start, ppw);
    let pad_e = opt_to_pixels_spec(solved[p].padding_end, ppw);
    let parent_x = sat_add_spec(pos0[p] as int, pad_s);
    let reverse = directions[p].is_reverse_spec();
    if directions[p].axis_spec() == axis {
        let justify = justifies[p];
        let parent_inner = sat_sub_spec(parent_total, sat_add_spec(pad_s, pad_e));
        let placed = main_pos_upto(
            pos0,
            solved,
            positions,
            kids,
            reverse,
            nk,
            p,
            justify,
            parent_x,
            parent_inner,
            parent_total,
        );
        let align_end = (!reverse && justify == LayoutJustifyContent::End) || (reverse && justify
            == LayoutJustifyContent::Start);
        if align_end {
            let diff = sat_sub_spec(
                parent_inner,
                main_sum_upto(solved, positions, kids, reverse, nk, parent_total),
            );
            shift_upto(placed, positions, kids, nk, diff)
        } else {
            placed
        }
    } else {
        cross_pos_upto(pos0, solved, positions, kids, reverse, nk, p, parent_x, parent_total)
    }
}

/// The positions after the first `k` parents (restricted to the solve
/// set) have placed their children.
pub open spec fn pos_upto(
    pos0: Seq<Px>,
    solved: Seq<AxisRect>,
    tree: NodeHierarchy,
    positions: Seq<LayoutPosition>,
    directions: Seq<LayoutFlexDirection>,
    justifies: Seq<LayoutJustifyContent>,
    axis: LayoutAxis,
    to_solve: Seq<bool>,
    k: int,
) -> Seq<Px>
    decreases k,
{
    if k <= 0 {
        pos0
    } else {
        let prev = pos_upto(
            pos0,
            solved,
            tree,
            positions,
            directions,
            justifies,
            axis,
            to_solve,
            k - 1,
        );
        let p = tree.parents_ordered@[k - 1] as int;
        if to_solve[p] {
            pos_step(prev, solved, tree, positions, directions, justifies, axis, p)
        } else {
            prev
        }
    }
}

/// The positions after the viewport origin has been added to the first
/// `k` nodes.
pub open spec fn add_origin_upto(pos: Seq<Px>, k: int, origin: int) -> Seq<Px>
    decreases k,
{
    if k <= 0 {
        pos
    } else {
        add_origin_upto(pos, k - 1, origin).update(
            k - 1,
            sat_add_spec(pos[k - 1] as int, origin) as Px,
        )
    }
}

/// The full position pass over one axis.
pub open spec fn spec_get_positions(
    pos0: Seq<Px>,
    solved: Seq<AxisRect>,
    tree: NodeHierarchy,
    positions: Seq<LayoutPosition>,
    directions: Seq<LayoutFlexDirection>,
    justifies: Seq<LayoutJustifyContent>,
    axis: LayoutAxis,
    origin: int,
    to_solve: Seq<bool>,
) -> Seq<Px> {
    add_origin_upto(
        pos_upto(
            pos0,
            solved,
            tree,
            positions,
            directions,
            justifies,
            axis,
            to_solve,
            tree.parents_ordered@.len() as int,
        ),
        tree.n(),
        origin,
    )
}

/// Placing children along the main axis leaves every index outside the
/// children list untouched.
pub proof fn lemma_main_pos_frame(
    pos0: Seq<Px>,
    solved: Seq<AxisRect>,
    positions: Seq<LayoutPosition>,
    kids: Seq<usize>,
    reverse: bool,
    k: int,
    p: int,
    justify: LayoutJustifyContent,
    parent_x: int,
    parent_inner: int,
    parent_total: int,
    i: int,
)
    requires
        0 <= k <= kids.len(),
        0 <= i < pos0.len(),
        forall|j: int| 0 <= j < kids.len() ==> 0 <= (#[trigger] kids[j] as int) < pos0.len(),
    ensures
        main_pos_upto(
            pos0,
            solved,
            positions,
            kids,
            reverse,
            k,
            p,
            justify,
            parent_x,
            parent_inner,
            parent_total,
        ).len() == pos0.len(),
        (forall|j: int| 0 <= j < kids.len() ==> (kids[j] as int) != i) ==> main_pos_upto(
            pos0,
            solved,
            positions,
            kids,
            reverse,
            k,
            p,
            justify,
            parent_x,
            parent_inner,
            parent_total,
        )[i] == pos0[i],
    decreases k,
{
    if k > 0 {
        lemma_main_pos_frame(
            pos0,
            solved,
            positions,
            kids,
            reverse,
            k - 1,
            p,
            justify,
            parent_x,
            parent_inner,
            parent_total,
            i,
        );
    }
}

/// Placing children along the cross axis leaves every index outside the
/// children list untouched.
pub proof fn lemma_cross_pos_frame(
    pos0: Seq<Px>,
    solved: Seq<AxisRect>,
    positions: Seq<LayoutPosition>,
    kids: Seq<usize>,
    reverse: bool,
    k: int,
    p: int,
    parent_x: int,
    parent_total: int,
    i: int,
)
    requires
        0 <= k <= kids.len(),
        0 <= i < pos0.len(),
        forall|j: int| 0 <= j < kids.len() ==> 0 <= (#[trigger] kids[j] as int) < pos0.len(),
    ensures
        cross_pos_upto(pos0, solved, positions, kids, reverse, k, p, parent_x, parent_total).len()
            == pos0.len(),
        (forall|j: int| 0 <= j < kids.len() ==> (kids[j] as int) != i) ==> cross_pos_upto(
            pos0,
            solved,
            positions,
            kids,
            reverse,
            k,
            p,
            parent_x,
            parent_total,
        )[i] == pos0[i],
    decreases k,
{
    if k > 0 {
        lemma_cross_pos_frame(
            pos0,
            solved,
            positions,
            kids,
            reverse,
            k - 1,
            p,
            parent_x,
            parent_total,
            i,
        );
    }
}

/// The shift pass preserves the length, and the origin pass leaves
/// indices at or beyond `k` untouched.
pub proof fn lemma_shift_len(
    pos: Seq<Px>,
    positions: Seq<LayoutPosition>,
    kids: Seq<usize>,
    k: int,
    diff: int,
)
    requires
        0 <= k,
        forall|j: int| 0 <= j < k ==> 0 <= (#[trigger] kids[j] as int) < pos.len(),
    ensures
        shift_upto(pos, positions, kids, k, diff).len() == pos.len(),
    decreases k,
{
    if k > 0 {
        lemma_shift_len(pos, positions, kids, k - 1, diff);
    }
}

/// Adding the origin to the first `k` nodes leaves the rest untouched.
pub proof fn lemma_add_origin_frame(pos: Seq<Px>, k: int, origin: int, i: int)
    requires
        0 <= k <= pos.len(),
        0 <= i < pos.len(),
    ensures
        add_origin_upto(pos, k, origin).len() == pos.len(),
        i >= k ==> add_origin_upto(pos, k, origin)[i] == pos[i],
    decreases k,
{
    if k > 0 {
        lemma_add_origin_frame(pos, k - 1, origin, i);
    }
}

/// The start coordinate of the absolutely positioned child `c` of parent
/// `p`, read against the current positions.
fn absolute_child_position(
    pos: &Vec<Px>,
    solved: &Vec<AxisRect>,
    positions: &Vec<LayoutPosition>,
    p: usize,
    c: usize,
) -> (r: Px)
    requires
        pos@.len() == solved@.len(),
        positions@.len() == solved@.len(),
        (p as int) < solved@.len(),
        (c as int) < solved@.len(),
    ensures
        r as int == absolute_pos_spec(pos@, solved@, positions@, p as int, c as int),
{
    let cpw = solved[p].total();
    let anchor: usize = if positions[p] != LayoutPosition::Static {
        p
    } else {
        0
    };
    let a_pad_s = opt_to_pixels(&solved[anchor].padding_start, cpw);
    let a_pad_e = opt_to_pixels(&solved[anchor].padding_end, cpw);
    let anchor_x = sat_add(pos[anchor], a_pad_s);
    let anchor_inner = sat_sub(solved[anchor].total(), sat_add(a_pad_s, a_pad_e));
    let margin_s = opt_to_pixels(&solved[c].margin_start, cpw);
    let margin_e = opt_to_pixels(&solved[c].margin_end, cpw);
    match solved[c].inset_end {
        Some(e) => sat_sub(
            sat_sub(
                sat_sub(sat_add(anchor_x, anchor_inner), solved[c].total()),
                margin_e,
            ),
            e.to_pixels(cpw),
        ),
        None => {
            let inset_s = match solved[c].inset_start {
                Some(sv) => sv.to_pixels(cpw),
                None => 0,
            };
            sat_add(sat_add(anchor_x, margin_s), inset_s)
        },
    }
}

/// The position pass over one axis: walks parents root-first (restricted
/// to the solve set), placing each parent's children by its
/// flex-direction and alignment, then adds the viewport origin to every
/// node.
pub fn get_axis_positions(
    pos: Vec<Px>,
    solved: &Vec<AxisRect>,
    tree: &NodeHierarchy,
    positions: &Vec<LayoutPosition>,
    directions: &Vec<LayoutFlexDirection>,
    justifies: &Vec<LayoutJustifyContent>,
    axis: LayoutAxis,
    origin: Px,
    to_solve: &Vec<bool>,
) -> (r: Vec<Px>)
    requires
        tree.wf(),
        pos@.len() == tree.n(),
        solved@.len() == tree.n(),
        positions@.len() == tree.n(),
        directions@.len() == tree.n(),
        justifies@.len() == tree.n(),
        to_solve@.len() == tree.n(),
    ensures
        r@ == spec_get_positions(
            pos@,
            solved@,
            *tree,
            positions@,
            directions@,
            justifies@,
            axis,
            origin as int,
            to_solve@,
        ),
        r@.len() == tree.n(),
{
    let ghost pos0_all = pos@;
    let mut pos = pos;
    let num_parents = tree.parents_ordered.len();
    let mut k: usize = 0;
    while k < num_parents
        invariant
            k <= num_parents,
            num_parents == tree.parents_ordered@.len(),
            tree.wf(),
            solved@.len() == tree.n(),
            positions@.len() == tree.n(),
            directions@.len() == tree.n(),
            justifies@.len() == tree.n(),
            to_solve@.len() == tree.n(),
            pos@.len() == tree.n(),
            pos@ == pos_upto(
                pos0_all,
                solved@,
                *tree,
                positions@,
                directions@,
                justifies@,
                axis,
                to_solve@,
                k as int,
            ),
        decreases num_parents - k,
    {
        let p = tree.parents_ordered[k];
        if to_solve[p] {
            let ghost pos_p0 = pos@;
            let ghost kids = tree.children@[p as int]@;
            let parent_total = solved[p].total();
            let ppw: Px = if p == 0 {
                0
            } else {
                solved[tree.parent[p]].total()
            };
            let pad_s = opt_to_pixels(&solved[p].padding_start, ppw);
            let pad_e = opt_to_pixels(&solved[p].padding_end, ppw);
            let parent_x = sat_add(pos[p], pad_s);
            let reverse = directions[p].is_reverse();
            let num_kids = tree.children[p].len();
            if directions[p].get_axis() == axis {
                let justify = justifies[p];
                let parent_inner = sat_sub(parent_total, sat_add(pad_s, pad_e));
                let mut sum: Px = 0;
                let mut j: usize = 0;
                while j < num_kids
                    invariant
                        j <= num_kids,
                        num_kids == kids.len(),
                        kids == tree.children@[p as int]@,
                        tree.wf(),
                        (p as int) < tree.n(),
                        solved@.len() == tree.n(),
                        positions@.len() == tree.n(),
                        pos_p0.len() == tree.n(),
                        pos@.len() == tree.n(),
                        pos@ == main_pos_upto(
                            pos_p0,
                            solved@,
                            positions@,
                            kids,
                            reverse,
                            j as int,
                            p as int,
                            justify,
                            parent_x as int,
                            parent_inner as int,
                            parent_total as int,
                        ),
                        sum as int == main_sum_upto(
                            solved@,
                            positions@,
                            kids,
                            reverse,
                            j as int,
                            parent_total as int,
                        ),
                    decreases num_kids - j,
                {
                    let idx: usize = if reverse {
                        num_kids - 1 - j
                    } else {
                        j
                    };
                    let c = tree.children[p][idx];
                    proof {
                        lemma_main_pos_frame(
                            pos_p0,
                            solved@,
                            positions@,
                            kids,
                            reverse,
                            j as int,
                            p as int,
                            justify,
                            parent_x as int,
                            parent_inner as int,
                            parent_total as int,
                            anchor_of(positions@, p as int),
                        );
                    }
                    if positions[c] == LayoutPosition::Absolute {
                        let x = absolute_child_position(&pos, solved, positions, p, c);
                        pos.set(c, x);
                    } else {
                        let margin_s = opt_to_pixels(&solved[c].margin_start, parent_total);
                        let margin_e = opt_to_pixels(&solved[c].margin_end, parent_total);
                        let x: Px = match justify {
                            LayoutJustifyContent::Start | LayoutJustifyContent::End => sat_add(
                                sat_add(parent_x, sum),
                                margin_s,
                            ),
                            LayoutJustifyContent::Center => sat_add(
                                parent_x,
                                sat_sub(
                                    half(parent_inner),
                                    half(
                                        sat_add(
                                            sat_add(sum, margin_e),
                                            solved[c].total(),
                                        ),
                                    ),
                                ),
                            ),
                            LayoutJustifyContent::SpaceBetween
                            | LayoutJustifyContent::SpaceAround
                            | LayoutJustifyContent::SpaceEvenly => parent_x,
                        };
                        pos.set(c, x);
                        sum = sat_add(sum, sat_add(sat_add(margin_e, solved[c].total()), margin_s));
                    }
                    j += 1;
                }
                let align_end = (!reverse && matches!(justify, LayoutJustifyContent::End)) || (
                reverse && matches!(justify, LayoutJustifyContent::Start));
                if align_end {
                    let diff = sat_sub(parent_inner, sum);
                    let ghost placed = pos@;
                    let mut j: usize = 0;
                    while j < num_kids
                        invariant
                            j <= num_kids,
                            num_kids == kids.len(),
                            kids == tree.children@[p as int]@,
                            tree.wf(),
                            (p as int) < tree.n(),
                            positions@.len() == tree.n(),
                            placed.len() == tree.n(),
                            pos@.len() == tree.n(),
                            pos@ == shift_upto(placed, positions@, kids, j as int, diff as int),
                        decreases num_kids - j,
                    {
                        let c = tree.children[p][j];
                        if positions[c] != LayoutPosition::Absolute {
                            let x = sat_add(pos[c], diff);
                            pos.set(c, x);
                        }
                        j += 1;
                    }
                }
            } else {
                let mut j: usize = 0;
                while j < num_kids
                    invariant
                        j <= num_kids,
                        num_kids == kids.len(),
                        kids == tree.children@[p as int]@,
                        tree.wf(),
                        (p as int) < tree.n(),
                        solved@.len() == tree.n(),
                        positions@.len() == tree.n(),
                        pos_p0.len() == tree.n(),
                        pos@.len() == tree.n(),
                        pos@ == cross_pos_upto(
                            pos_p0,
                            solved@,
                            positions@,
                            kids,
                            reverse,
                            j as int,
                            p as int,
                            parent_x as int,
                            parent_total as int,
                        ),
                    decreases num_kids - j,
                {
                    let idx: usize = if reverse {
                        num_kids - 1 - j
                    } else {
                        j
                    };
                    let c = tree.children[p][idx];
                    proof {
                        lemma_cross_pos_frame(
                            pos_p0,
                            solved@,
                            positions@,
                            kids,
                            reverse,
                            j as int,
                            p as int,
                            parent_x as int,
                            parent_total as int,
                            anchor_of(positions@, p as int),
                        );
                    }
                    if positions[c] == LayoutPosition::Absolute {
                        let x = absolute_child_position(&pos, solved, positions, p, c);
                        pos.set(c, x);
                    } else {
                        let x = sat_add(parent_x, opt_to_pixels(&solved[c].margin_start, parent_total));
                        pos.set(c, x);
                    }
                    j += 1;
                }
            }
        }
        k += 1;
    }

    let n = tree.len();
    let ghost before_origin = pos@;
    let mut i: usize = 0;
    while i < n
        invariant
            i <= n,
            n == tree.n(),
            before_origin.len() == tree.n(),
            pos@.len() == tree.n(),
            pos@ == add_origin_upto(before_origin, i as int, origin as int),
        decreases n - i,
    {
        proof {
            lemma_add_origin_frame(before_origin, i as int, origin as int, i as int);
        }
        let x = sat_add(pos[i], origin);
        pos.set(i, x);
        i += 1;
    }
    pos
}

} // verus!
