//! The incremental relayout driver.
//!
//! Given the previous layout result, the updated style records and the map
//! of changed properties per node, the driver first discards property
//! changes that cannot affect layout (and returns at once when nothing
//! layout-relevant changed and the viewport is unchanged). For each changed
//! node it recomputes only the affected axis configuration, diffs the new
//! preferred constraint against the old one, and marks the parents whose
//! children need new sizes or positions: a preferred-size change touches
//! the node's own children and its siblings; a padding change touches its
//! children only; a margin change its siblings only. The minimum inner
//! sizes are then repaired by propagating each changed node's delta up to
//! the root, each ancestor visited once, and the distribution, position and
//! rectangle passes re-run scoped to the marked sets. The result reports
//! every node whose size may have changed, in ascending order.

use vstd::prelude::*;
use vstd::pervasive::VecAdditionalExecFns;

use crate::constraint::{
    height_config_of, resolve_axis, resolve_axis_spec, width_config_of, AxisRect,
};
use crate::distribute::{apply_flex_grow, spec_apply_flex_grow};
use crate::position::{get_axis_positions, spec_get_positions};
use crate::px::{sat_add, sat_add_spec, sat_sub, sat_sub_spec, Px};
use crate::rects::{position_nodes, spec_position_nodes, LayoutRect};
use crate::scroll::{get_nodes_that_need_scroll_clip, spec_scrolled_nodes};
use crate::solver::opt_int;
use crate::style::{
    flex_direction_or_default, flex_grow_or_default, justify_content_or_default,
    position_or_default, LayoutAxis, LayoutFlexDirection, LayoutJustifyContent, LayoutPosition,
    NodeStyle,
};
use crate::tree::NodeHierarchy;
use crate::{LayoutInput, LayoutResult};

verus! {

/// A CSS property, by kind.
#[derive(Clone, Copy, Debug, PartialEq, Eq, Structural)]
pub enum CssPropertyType {
    Width,
    Height,
    MinWidth,
    MinHeight,
    MaxWidth,
    MaxHeight,
    PaddingLeft,
    PaddingRight,
    PaddingTop,
    PaddingBottom,
    MarginLeft,
    MarginRight,
    MarginTop,
    MarginBottom,
    Position,
    FlexGrow,
    FlexDirection,
    JustifyContent,
    TextColor,
    Opacity,
}

impl CssPropertyType {
    /// Whether a change of this property can move or resize nodes.
    /// Purely visual properties never enter the relayout pipeline.
    pub open spec fn can_trigger_relayout_spec(self) -> bool {
        !(self is TextColor || self is Opacity)
    }

    /// Whether a change of this property can move or resize nodes.
    pub fn can_trigger_relayout(&self) -> (r: bool)
        ensures
            r == self.can_trigger_relayout_spec(),
    {
        match self {
            CssPropertyType::TextColor | CssPropertyType::Opacity => false,
            _ => true,
        }
    }
}

/// The changed properties of one node.
#[derive(Clone, Debug)]
pub struct NodeChanges {
    pub node: usize,
    pub properties: Vec<CssPropertyType>,
}

/// Whether the property list holds the given kind.
pub open spec fn has_prop(props: Seq<CssPropertyType>, t: CssPropertyType) -> bool {
    exists|j: int| 0 <= j < props.len() && props[j] == t
}

/// Whether any property in the list can trigger relayout.
pub open spec fn any_relevant(props: Seq<CssPropertyType>) -> bool {
    exists|j: int| 0 <= j < props.len() && props[j].can_trigger_relayout_spec()
}

/// Whether the whole change map holds no layout-relevant property.
pub open spec fn no_relevant_changes(changes: Seq<NodeChanges>) -> bool {
    forall|k: int| 0 <= k < changes.len() ==> !any_relevant(#[trigger] changes[k].properties@)
}

/// Whether the change map is well-formed against a tree: nodes strictly
/// ascending and in range.
pub open spec fn changes_wf(changes: Seq<NodeChanges>, tree: NodeHierarchy) -> bool {
    &&& forall|k: int| 0 <= k < changes.len() ==> (#[trigger] changes[k].node as int) < tree.n()
    &&& forall|k1: int, k2: int|
        0 <= k1 < k2 < changes.len() ==> (changes[k1].node as int) < (changes[k2].node as int)
}

/// Whether the property list asks for a width-constraint recomputation.
pub open spec fn wants_width(props: Seq<CssPropertyType>) -> bool {
    has_prop(props, CssPropertyType::Width) || has_prop(props, CssPropertyType::MinWidth)
        || has_prop(props, CssPropertyType::MaxWidth)
}

/// Whether the property list asks for a height-constraint recomputation.
pub open spec fn wants_height(props: Seq<CssPropertyType>) -> bool {
    has_prop(props, CssPropertyType::Height) || has_prop(props, CssPropertyType::MinHeight)
        || has_prop(props, CssPropertyType::MaxHeight)
}

/// The per-node layout infos after the changed nodes have been re-read
/// from the new styles.
pub open spec fn refresh_infos_upto(
    positions: Seq<LayoutPosition>,
    grows: Seq<u32>,
    directions: Seq<LayoutFlexDirection>,
    justifies: Seq<LayoutJustifyContent>,
    changes: Seq<NodeChanges>,
    new_styles: Seq<NodeStyle>,
    k: int,
) -> (Seq<LayoutPosition>, Seq<u32>, Seq<LayoutFlexDirection>, Seq<LayoutJustifyContent>)
    decreases k,
{
    if k <= 0 {
        (positions, grows, directions, justifies)
    } else {
        let prev = refresh_infos_upto(
            positions,
            grows,
            directions,
            justifies,
            changes,
            new_styles,
            k - 1,
        );
        if any_relevant(changes[k - 1].properties@) {
            let i = changes[k - 1].node as int;
            (
                prev.0.update(i, position_or_default(new_styles[i].position)),
                prev.1.update(i, flex_grow_or_default(new_styles[i].flex_grow)),
                prev.2.update(i, flex_direction_or_default(new_styles[i].flex_direction)),
                prev.3.update(i, justify_content_or_default(new_styles[i].justify_content)),
            )
        } else {
            prev
        }
    }
}

/// The working data of the diff step: the per-axis rectangles with the
/// changed constraints and offsets written in, the four mark sets, and
/// the changed nodes' old minimum widths to re-bubble.
pub struct DiffState {
    pub width_rects: Seq<AxisRect>,
    pub height_rects: Seq<AxisRect>,
    pub recalc_w: Seq<bool>,
    pub recalc_h: Seq<bool>,
    pub repos_x: Seq<bool>,
    pub repos_y: Seq<bool>,
    pub bubble_w: Seq<(usize, Px)>,
    pub bubble_h: Seq<(usize, Px)>,
}

/// The parent a node's sibling-level marks land on: its parent, or the
/// root for the root itself.
pub open spec fn parent_or_root(tree: NodeHierarchy, i: int) -> int {
    match tree.parent_of(i) {
        Some(p) => p,
        None => 0,
    }
}

/// The least space a constraint demands, zero when unconstrained.
pub open spec fn min_needed_or_zero(c: crate::constraint::WhConstraint) -> int {
    match c.min_needed_space_spec() {
        Some(m) => m,
        None => 0,
    }
}

/// The diff step for one changed node: recompute the affected axis
/// constraints against the stored intrinsic sizes, write changed padding
/// and margins into the working rectangles, and mark the parents whose
/// children need new sizes or positions.
pub open spec fn diff_node(
    s: DiffState,
    tree: NodeHierarchy,
    new_styles: Seq<NodeStyle>,
    preferred_widths: Seq<Option<Px>>,
    preferred_heights: Seq<Option<Px>>,
    bounds: LayoutRect,
    i: int,
    props: Seq<CssPropertyType>,
) -> DiffState {
    let pp = parent_or_root(tree, i);
    let wr0 = s.width_rects[i];
    let hr0 = s.height_rects[i];
    let parent_w = match preferred_widths[pp] {
        Some(v) => v as int,
        None => bounds.width as int,
    };
    let parent_h = match preferred_heights[pp] {
        Some(v) => v as int,
        None => bounds.height as int,
    };
    let new_pref_w = resolve_axis_spec(
        width_config_of(new_styles[i]),
        opt_int(preferred_widths[i]),
        parent_w,
    );
    let w_changed = wants_width(props) && new_pref_w != wr0.preferred;
    let new_pref_h = resolve_axis_spec(
        height_config_of(new_styles[i]),
        opt_int(preferred_heights[i]),
        parent_h,
    );
    let h_changed = wants_height(props) && new_pref_h != hr0.preferred;
    let wr1 = AxisRect {
        preferred: if w_changed {
            new_pref_w
        } else {
            wr0.preferred
        },
        padding_start: if has_prop(props, CssPropertyType::PaddingLeft) {
            new_styles[i].padding_left
        } else {
            wr0.padding_start
        },
        padding_end: if has_prop(props, CssPropertyType::PaddingRight) {
            new_styles[i].padding_right
        } else {
            wr0.padding_end
        },
        margin_start: if has_prop(props, CssPropertyType::MarginLeft) {
            new_styles[i].margin_left
        } else {
            wr0.margin_start
        },
        margin_end: if has_prop(props, CssPropertyType::MarginRight) {
            new_styles[i].margin_right
        } else {
            wr0.margin_end
        },
        ..wr0
    };
    let hr1 = AxisRect {
        preferred: if h_changed {
            new_pref_h
        } else {
            hr0.preferred
        },
        padding_start: if has_prop(props, CssPropertyType::PaddingTop) {
            new_styles[i].padding_top
        } else {
            hr0.padding_start
        },
        padding_end: if has_prop(props, CssPropertyType::PaddingBottom) {
            new_styles[i].padding_bottom
        } else {
            hr0.padding_end
        },
        margin_start: if has_prop(props, CssPropertyType::MarginTop) {
            new_styles[i].margin_top
        } else {
            hr0.margin_start
        },
        margin_end: if has_prop(props, CssPropertyType::MarginBottom) {
            new_styles[i].margin_bottom
        } else {
            hr0.margin_end
        },
        ..hr0
    };
    let padding_x = has_prop(props, CssPropertyType::PaddingLeft) || has_prop(
        props,
        CssPropertyType::PaddingRight,
    );
    let padding_y = has_prop(props, CssPropertyType::PaddingTop) || has_prop(
        props,
        CssPropertyType::PaddingBottom,
    );
    let margin_x = has_prop(props, CssPropertyType::MarginLeft) || has_prop(
        props,
        CssPropertyType::MarginRight,
    );
    let margin_y = has_prop(props, CssPropertyType::MarginTop) || has_prop(
        props,
        CssPropertyType::MarginBottom,
    );
    let recalc_w1 = if w_changed {
        s.recalc_w.update(pp, true).update(i, true)
    } else {
        s.recalc_w
    };
    let recalc_w2 = if padding_x {
        recalc_w1.update(i, true)
    } else {
        recalc_w1
    };
    let recalc_w3 = if margin_x {
        recalc_w2.update(pp, true)
    } else {
        recalc_w2
    };
    let recalc_h1 = if h_changed {
        s.recalc_h.update(pp, true).update(i, true)
    } else {
        s.recalc_h
    };
    let recalc_h2 = if padding_y {
        recalc_h1.update(i, true)
    } else {
        recalc_h1
    };
    let recalc_h3 = if margin_y {
        recalc_h2.update(pp, true)
    } else {
        recalc_h2
    };
    let repos_x1 = if w_changed {
        s.repos_x.update(pp, true)
    } else {
        s.repos_x
    };
    let repos_x2 = if padding_x {
        repos_x1.update(i, true)
    } else {
        repos_x1
    };
    let repos_x3 = if margin_x {
        repos_x2.update(pp, true)
    } else {
        repos_x2
    };
    let repos_y1 = if h_changed {
        s.repos_y.update(pp, true)
    } else {
        s.repos_y
    };
    let repos_y2 = if padding_y {
        repos_y1.update(i, true)
    } else {
        repos_y1
    };
    let repos_y3 = if margin_y {
        repos_y2.update(pp, true)
    } else {
        repos_y2
    };
    DiffState {
        width_rects: s.width_rects.update(i, wr1),
        height_rects: s.height_rects.update(i, hr1),
        recalc_w: recalc_w3,
        recalc_h: recalc_h3,
        repos_x: repos_x3,
        repos_y: repos_y3,
        bubble_w: if w_changed {
            s.bubble_w.push((i as usize, min_needed_or_zero(wr0.preferred) as Px))
        } else {
            s.bubble_w
        },
        bubble_h: if h_changed {
            s.bubble_h.push((i as usize, min_needed_or_zero(hr0.preferred) as Px))
        } else {
            s.bubble_h
        },
    }
}

/// The diff state after the first `k` change entries (layout-irrelevant
/// entries are skipped).
pub open spec fn diff_upto(
    s0: DiffState,
    tree: NodeHierarchy,
    changes: Seq<NodeChanges>,
    new_styles: Seq<NodeStyle>,
    preferred_widths: Seq<Option<Px>>,
    preferred_heights: Seq<Option<Px>>,
    bounds: LayoutRect,
    k: int,
) -> DiffState
    decreases k,
{
    if k <= 0 {
        s0
    } else {
        let prev = diff_upto(
            s0,
            tree,
            changes,
            new_styles,
            preferred_widths,
            preferred_heights,
            bounds,
            k - 1,
        );
        if any_relevant(changes[k - 1].properties@) {
            diff_node(
                prev,
                tree,
                new_styles,
                preferred_widths,
                preferred_heights,
                bounds,
                changes[k - 1].node as int,
                changes[k - 1].properties@,
            )
        } else {
            prev
        }
    }
}

/// The initial diff state: the previous per-axis rectangles, and the
/// root marked for an axis whose root size changed.
pub open spec fn diff_init(
    width_rects: Seq<AxisRect>,
    height_rects: Seq<AxisRect>,
    n: int,
    width_changed: bool,
    height_changed: bool,
) -> DiffState {
    DiffState {
        width_rects,
        height_rects,
        recalc_w: Seq::new(n as nat, |i: int| i == 0 && width_changed),
        recalc_h: Seq::new(n as nat, |i: int| i == 0 && height_changed),
        repos_x: Seq::new(n as nat, |i: int| false),
        repos_y: Seq::new(n as nat, |i: int| false),
        bubble_w: Seq::empty(),
        bubble_h: Seq::empty(),
    }
}

/// The delta accumulation after the first `k` re-bubble entries: each
/// changed node's new minimum width minus its old one lands on its
/// parent, and the parent is marked for recalculation.
pub open spec fn gather_deltas_upto(
    rects: Seq<AxisRect>,
    tree: NodeHierarchy,
    bubble: Seq<(usize, Px)>,
    has_delta: Seq<bool>,
    delta: Seq<Px>,
    recalc: Seq<bool>,
    k: int,
) -> (Seq<bool>, Seq<Px>, Seq<bool>)
    decreases k,
{
    if k <= 0 {
        (has_delta, delta, recalc)
    } else {
        let prev = gather_deltas_upto(rects, tree, bubble, has_delta, delta, recalc, k - 1);
        let i = bubble[k - 1].0 as int;
        let old = bubble[k - 1].1 as int;
        if i != 0 {
            let pp = tree.parent_of(i)->0;
            let change = sat_sub_spec(min_needed_or_zero(rects[i].preferred), old);
            if change != 0 {
                (
                    prev.0.update(pp, true),
                    prev.1.update(pp, sat_add_spec(prev.1[pp] as int, change) as Px),
                    prev.2.update(pp, true),
                )
            } else {
                prev
            }
        } else {
            prev
        }
    }
}

/// The minimum inner sizes after the deltas have been propagated through
/// the last `k` parents of the deepest-first order: each marked parent
/// absorbs its delta and passes it on to its own parent, each ancestor
/// visited once.
pub open spec fn propagate_deltas_upto(
    rects: Seq<AxisRect>,
    tree: NodeHierarchy,
    has_delta: Seq<bool>,
    delta: Seq<Px>,
    recalc: Seq<bool>,
    k: int,
) -> (Seq<AxisRect>, Seq<bool>, Seq<Px>, Seq<bool>)
    decreases k,
{
    if k <= 0 {
        (rects, has_delta, delta, recalc)
    } else {
        let prev = propagate_deltas_upto(rects, tree, has_delta, delta, recalc, k - 1);
        let p = tree.parents_ordered@[tree.parents_ordered@.len() - k] as int;
        if prev.1[p] {
            let amount = prev.2[p] as int;
            let rects1 = prev.0.update(
                p,
                AxisRect {
                    min_inner_size_px: sat_add_spec(
                        prev.0[p].min_inner_size_px as int,
                        amount,
                    ) as Px,
                    ..prev.0[p]
                },
            );
            if p != 0 {
                let pp = tree.parent_of(p)->0;
                (
                    rects1,
                    prev.1.update(pp, true),
                    prev.2.update(pp, sat_add_spec(prev.2[pp] as int, amount) as Px),
                    prev.3.update(pp, true),
                )
            } else {
                (rects1, prev.1, prev.2, prev.3)
            }
        } else {
            prev
        }
    }
}

/// The repaired rectangles and recalculation set of one axis: deltas
/// gathered from the changed nodes, then propagated to the root.
pub open spec fn rebubble_axis(
    rects: Seq<AxisRect>,
    tree: NodeHierarchy,
    bubble: Seq<(usize, Px)>,
    recalc: Seq<bool>,
) -> (Seq<AxisRect>, Seq<bool>) {
    let n = tree.n();
    let zero_has = Seq::new(n as nat, |i: int| false);
    let zero_delta = Seq::new(n as nat, |i: int| 0 as Px);
    let gathered = gather_deltas_upto(
        rects,
        tree,
        bubble,
        zero_has,
        zero_delta,
        recalc,
        bubble.len() as int,
    );
    let propagated = propagate_deltas_upto(
        rects,
        tree,
        gathered.0,
        gathered.1,
        gathered.2,
        tree.parents_ordered@.len() as int,
    );
    (propagated.0, propagated.3)
}

/// Whether node `i`'s size may have changed: it is a marked parent, or a
/// child of one.
pub open spec fn size_changed(
    tree: NodeHierarchy,
    recalc_w: Seq<bool>,
    recalc_h: Seq<bool>,
    i: int,
) -> bool {
    ||| recalc_w[i]
    ||| recalc_h[i]
    ||| (i != 0 && {
        let pp = tree.parent_of(i)->0;
        recalc_w[pp] || recalc_h[pp]
    })
}

/// The ascending list of the first `k` nodes whose size may have
/// changed.
pub open spec fn changed_list_upto(
    tree: NodeHierarchy,
    recalc_w: Seq<bool>,
    recalc_h: Seq<bool>,
    k: int,
) -> Seq<usize>
    decreases k,
{
    if k <= 0 {
        Seq::empty()
    } else {
        let rest = changed_list_upto(tree, recalc_w, recalc_h, k - 1);
        if size_changed(tree, recalc_w, recalc_h, k - 1) {
            rest.push((k - 1) as usize)
        } else {
            rest
        }
    }
}

/// Whether `rn` and `changed` are exactly the incremental relayout of
/// `old` under the new styles, viewport and change map: the per-node
/// infos and axis configurations of the changed nodes re-read, the
/// minimum inner sizes repaired by delta propagation, and the
/// distribution, position, rectangle and scroll passes re-run scoped to
/// the marked sets.
pub open spec fn is_relayout_of(
    rn: LayoutResult,
    changed: Seq<usize>,
    old: LayoutResult,
    tree: NodeHierarchy,
    styles: Seq<NodeStyle>,
    bounds: LayoutRect,
    input: LayoutInput,
    changes: Seq<NodeChanges>,
) -> bool {
    let infos = refresh_infos_upto(
        old.layout_positions@,
        old.layout_flex_grows@,
        old.layout_flex_directions@,
        old.layout_justify_contents@,
        changes,
        styles,
        changes.len() as int,
    );
    let s0 = diff_init(
        old.width_calculated_rects@,
        old.height_calculated_rects@,
        tree.n(),
        bounds.width != old.root_size_width,
        bounds.height != old.root_size_height,
    );
    let d = diff_upto(
        s0,
        tree,
        changes,
        styles,
        old.preferred_widths@,
        old.preferred_heights@,
        bounds,
        changes.len() as int,
    );
    let rw = rebubble_axis(d.width_rects, tree, d.bubble_w, d.recalc_w);
    let rh = rebubble_axis(d.height_rects, tree, d.bubble_h, d.recalc_h);
    let widths = spec_apply_flex_grow(
        rw.0,
        tree,
        infos.1,
        infos.0,
        infos.2,
        LayoutAxis::Horizontal,
        bounds.width as int,
        rw.1,
    );
    let heights = spec_apply_flex_grow(
        rh.0,
        tree,
        infos.1,
        infos.0,
        infos.2,
        LayoutAxis::Vertical,
        bounds.height as int,
        rh.1,
    );
    let pos_x = spec_get_positions(
        old.solved_pos_x@,
        widths,
        tree,
        infos.0,
        infos.2,
        infos.3,
        LayoutAxis::Horizontal,
        bounds.x as int,
        d.repos_x,
    );
    let pos_y = spec_get_positions(
        old.solved_pos_y@,
        heights,
        tree,
        infos.0,
        infos.2,
        infos.3,
        LayoutAxis::Vertical,
        bounds.y as int,
        d.repos_y,
    );
    let changed_set = Seq::new(tree.n() as nat, |i: int| size_changed(tree, rw.1, rh.1, i));
    let rects = spec_position_nodes(
        old.rects@,
        tree,
        styles,
        widths,
        heights,
        pos_x,
        pos_y,
        infos.0,
        input.has_text@,
        changed_set,
        changed_set,
    );
    let scrolled = spec_scrolled_nodes(
        tree,
        rects,
        input.node_hashes@,
        input.tag_ids@,
        old.scrollable_nodes.overflowing_nodes@,
        input.pipeline,
        old.next_scroll_tag as int,
    );
    &&& rn.root_position_x == bounds.x
    &&& rn.root_position_y == bounds.y
    &&& rn.root_size_width == bounds.width
    &&& rn.root_size_height == bounds.height
    &&& rn.layout_positions@ == infos.0
    &&& rn.layout_flex_grows@ == infos.1
    &&& rn.layout_flex_directions@ == infos.2
    &&& rn.layout_justify_contents@ == infos.3
    &&& rn.width_calculated_rects@ == widths
    &&& rn.height_calculated_rects@ == heights
    &&& rn.solved_pos_x@ == pos_x
    &&& rn.solved_pos_y@ == pos_y
    &&& rn.rects@ == rects
    &&& rn.scrollable_nodes.overflowing_nodes@ == scrolled.0
    &&& rn.scrollable_nodes.tags_to_node_ids@ == scrolled.1
    &&& rn.next_scroll_tag as int == scrolled.2
    &&& rn.preferred_widths@ == old.preferred_widths@
    &&& rn.preferred_heights@ == old.preferred_heights@
    &&& changed == changed_list_upto(tree, rw.1, rh.1, tree.n())
}

/// Whether the property list holds the given kind.
fn has_prop_exec(props: &Vec<CssPropertyType>, t: CssPropertyType) -> (r: bool)
    ensures
        r == has_prop(props@, t),
{
    let mut j: usize = 0;
    let mut found: bool = false;
    while j < props.len()
        invariant
            j <= props@.len(),
            found == exists|jj: int| 0 <= jj < j && props@[jj] == t,
        decreases props@.len() - j,
    {
        if props[j] == t {
            found = true;
            proof {
                assert(props@[j as int] == t);
            }
        }
        j += 1;
    }
    found
}

/// Whether any property in the list can trigger relayout.
fn any_relevant_exec(props: &Vec<CssPropertyType>) -> (r: bool)
    ensures
        r == any_relevant(props@),
{
    let mut j: usize = 0;
    let mut found: bool = false;
    while j < props.len()
        invariant
            j <= props@.len(),
            found == exists|jj: int|
                0 <= jj < j && props@[jj].can_trigger_relayout_spec(),
        decreases props@.len() - j,
    {
        if props[j].can_trigger_relayout() {
            found = true;
            proof {
                assert(props@[j as int].can_trigger_relayout_spec());
            }
        }
        j += 1;
    }
    found
}

/// The incremental relayout pass: adjusts an existing layout result to
/// the new styles and viewport, touching only the nodes the changed
/// properties can affect, and returns the adjusted result together with
/// the ascending list of node ids whose size may have changed. When the
/// viewport is unchanged and no change can affect layout, the result is
/// returned untouched with an empty list.
pub fn do_the_relayout(
    root_bounds: LayoutRect,
    layout_result: LayoutResult,
    tree: &NodeHierarchy,
    new_styles: &Vec<NodeStyle>,
    input: &LayoutInput,
    nodes_to_relayout: &Vec<NodeChanges>,
) -> (r: (LayoutResult, Vec<usize>))
    requires
        tree.wf(),
        layout_result.wf(*tree),
        new_styles@.len() == tree.n(),
        input.has_text@.len() == tree.n(),
        input.node_hashes@.len() == tree.n(),
        input.tag_ids@.len() == tree.n(),
        layout_result.next_scroll_tag + tree.parents_ordered@.len() <= u64::MAX,
        changes_wf(nodes_to_relayout@, *tree),
    ensures
        (root_bounds == LayoutRect {
            x: layout_result.root_position_x,
            y: layout_result.root_position_y,
            width: layout_result.root_size_width,
            height: layout_result.root_size_height,
        } && no_relevant_changes(nodes_to_relayout@)) ==> r.0 == layout_result && r.1@
            == Seq::<usize>::empty(),
        !(root_bounds == LayoutRect {
            x: layout_result.root_position_x,
            y: layout_result.root_position_y,
            width: layout_result.root_size_width,
            height: layout_result.root_size_height,
        } && no_relevant_changes(nodes_to_relayout@)) ==> is_relayout_of(
            r.0,
            r.1@,
            layout_result,
            *tree,
            new_styles@,
            root_bounds,
            *input,
            nodes_to_relayout@,
        ),
        r.0.wf(*tree),
{
    let ghost old_result = layout_result;
    let n = tree.len();
    let num_changes = nodes_to_relayout.len();

    let root_unchanged = root_bounds.x == layout_result.root_position_x && root_bounds.y
        == layout_result.root_position_y && root_bounds.width == layout_result.root_size_width
        && root_bounds.height == layout_result.root_size_height;
    let mut any_rel: bool = false;
    let mut k: usize = 0;
    while k < num_changes
        invariant
            k <= num_changes,
            num_changes == nodes_to_relayout@.len(),
            any_rel == exists|kk: int|
                0 <= kk < k && any_relevant(#[trigger] nodes_to_relayout@[kk].properties@),
        decreases num_changes - k,
    {
        if any_relevant_exec(&nodes_to_relayout[k].properties) {
            any_rel = true;
            proof {
                assert(any_relevant(nodes_to_relayout@[k as int].properties@));
            }
        }
        k += 1;
    }
    if root_unchanged && !any_rel {
        proof {
            assert(no_relevant_changes(nodes_to_relayout@));
        }
        return (layout_result, Vec::new());
    }

    let LayoutResult {
        root_position_x: _,
        root_position_y: _,
        root_size_width: old_root_w,
        root_size_height: old_root_h,
        mut layout_positions,
        mut layout_flex_grows,
        mut layout_flex_directions,
        mut layout_justify_contents,
        mut width_calculated_rects,
        mut height_calculated_rects,
        solved_pos_x,
        solved_pos_y,
        rects: old_rects,
        scrollable_nodes: old_scrollable,
        preferred_widths,
        preferred_heights,
        next_scroll_tag,
    } = layout_result;

    // Re-read the layout infos of every changed node from the new styles.
    let mut k: usize = 0;
    while k < num_changes
        invariant
            k <= num_changes,
            num_changes == nodes_to_relayout@.len(),
            tree.wf(),
            new_styles@.len() == tree.n(),
            changes_wf(nodes_to_relayout@, *tree),
            layout_positions@.len() == tree.n(),
            layout_flex_grows@.len() == tree.n(),
            layout_flex_directions@.len() == tree.n(),
            layout_justify_contents@.len() == tree.n(),
            ({
                let infos = refresh_infos_upto(
                    old_result.layout_positions@,
                    old_result.layout_flex_grows@,
                    old_result.layout_flex_directions@,
                    old_result.layout_justify_contents@,
                    nodes_to_relayout@,
                    new_styles@,
                    k as int,
                );
                &&& layout_positions@ == infos.0
                &&& layout_flex_grows@ == infos.1
                &&& layout_flex_directions@ == infos.2
                &&& layout_justify_contents@ == infos.3
            }),
        decreases num_changes - k,
    {
        if any_relevant_exec(&nodes_to_relayout[k].properties) {
            let i = nodes_to_relayout[k].node;
            let s = &new_styles[i];
            layout_positions.set(
                i,
                match s.position {
                    Some(p) => p,
                    None => LayoutPosition::Static,
                },
            );
            layout_flex_grows.set(
                i,
                match s.flex_grow {
                    Some(g) => g,
                    None => 1u32,
                },
            );
            layout_flex_directions.set(
                i,
                match s.flex_direction {
                    Some(d) => d,
                    None => LayoutFlexDirection::Column,
                },
            );
            layout_justify_contents.set(
                i,
                match s.justify_content {
                    Some(j) => j,
                    None => LayoutJustifyContent::Start,
                },
            );
        }
        k += 1;
    }

    // Recompute the affected axis configurations of the changed nodes and
    // mark the parents whose children need new sizes or positions.
    let width_changed = root_bounds.width != old_root_w;
    let height_changed = root_bounds.height != old_root_h;
    let mut recalc_w: Vec<bool> = crate::fill_bool(n, false);
    let mut recalc_h: Vec<bool> = crate::fill_bool(n, false);
    let mut repos_x: Vec<bool> = crate::fill_bool(n, false);
    let mut repos_y: Vec<bool> = crate::fill_bool(n, false);
    if width_changed {
        recalc_w.set(0, true);
    }
    if height_changed {
        recalc_h.set(0, true);
    }
    let mut bubble_w: Vec<(usize, Px)> = Vec::new();
    let mut bubble_h: Vec<(usize, Px)> = Vec::new();
    let ghost s0 = diff_init(
        old_result.width_calculated_rects@,
        old_result.height_calculated_rects@,
        tree.n(),
        width_changed,
        height_changed,
    );
    proof {
        assert(recalc_w@ =~= s0.recalc_w);
        assert(recalc_h@ =~= s0.recalc_h);
        assert(repos_x@ =~= s0.repos_x);
        assert(repos_y@ =~= s0.repos_y);
    }
    let mut k: usize = 0;
    while k < num_changes
        invariant
            k <= num_changes,
            num_changes == nodes_to_relayout@.len(),
            tree.wf(),
            new_styles@.len() == tree.n(),
            preferred_widths@.len() == tree.n(),
            preferred_heights@.len() == tree.n(),
            preferred_widths@ == old_result.preferred_widths@,
            preferred_heights@ == old_result.preferred_heights@,
            changes_wf(nodes_to_relayout@, *tree),
            width_calculated_rects@.len() == tree.n(),
            height_calculated_rects@.len() == tree.n(),
            recalc_w@.len() == tree.n(),
            recalc_h@.len() == tree.n(),
            repos_x@.len() == tree.n(),
            repos_y@.len() == tree.n(),
            ({
                let d = diff_upto(
                    s0,
                    *tree,
                    nodes_to_relayout@,
                    new_styles@,
                    old_result.preferred_widths@,
                    old_result.preferred_heights@,
                    root_bounds,
                    k as int,
                );
                &&& width_calculated_rects@ == d.width_rects
                &&& height_calculated_rects@ == d.height_rects
                &&& recalc_w@ == d.recalc_w
                &&& recalc_h@ == d.recalc_h
                &&& repos_x@ == d.repos_x
                &&& repos_y@ == d.repos_y
                &&& bubble_w@ == d.bubble_w
                &&& bubble_h@ == d.bubble_h
            }),
            forall|kk: int| 0 <= kk < bubble_w@.len() ==> (#[trigger] bubble_w@[kk].0 as int) < tree.n(),
            forall|kk: int| 0 <= kk < bubble_h@.len() ==> (#[trigger] bubble_h@[kk].0 as int) < tree.n(),
        decreases num_changes - k,
    {
        if any_relevant_exec(&nodes_to_relayout[k].properties) {
            let i = nodes_to_relayout[k].node;
            let props = &nodes_to_relayout[k].properties;
            let pp: usize = if i == 0 {
                0
            } else {
                tree.parent[i]
            };
            let wr0 = width_calculated_rects[i];
            let hr0 = height_calculated_rects[i];

            let parent_w: Px = match preferred_widths[pp] {
                Some(v) => v,
                None => root_bounds.width,
            };
            let parent_h: Px = match preferred_heights[pp] {
                Some(v) => v,
                None => root_bounds.height,
            };
            let w_cfg = crate::constraint::AxisConfig {
                exact: new_styles[i].width,
                min: new_styles[i].min_width,
                max: new_styles[i].max_width,
            };
            let h_cfg = crate::constraint::AxisConfig {
                exact: new_styles[i].height,
                min: new_styles[i].min_height,
                max: new_styles[i].max_height,
            };
            let new_pref_w = resolve_axis(&w_cfg, preferred_widths[i], parent_w);
            let new_pref_h = resolve_axis(&h_cfg, preferred_heights[i], parent_h);
            let wants_w = has_prop_exec(props, CssPropertyType::Width) || has_prop_exec(
                props,
                CssPropertyType::MinWidth,
            ) || has_prop_exec(props, CssPropertyType::MaxWidth);
            let wants_h = has_prop_exec(props, CssPropertyType::Height) || has_prop_exec(
                props,
                CssPropertyType::MinHeight,
            ) || has_prop_exec(props, CssPropertyType::MaxHeight);
            let w_ch = wants_w && new_pref_w != wr0.preferred;
            let h_ch = wants_h && new_pref_h != hr0.preferred;

            let pad_l = has_prop_exec(props, CssPropertyType::PaddingLeft);
            let pad_r = has_prop_exec(props, CssPropertyType::PaddingRight);
            let pad_t = has_prop_exec(props, CssPropertyType::PaddingTop);
            let pad_b = has_prop_exec(props, CssPropertyType::PaddingBottom);
            let mar_l = has_prop_exec(props, CssPropertyType::MarginLeft);
            let mar_r = has_prop_exec(props, CssPropertyType::MarginRight);
            let mar_t = has_prop_exec(props, CssPropertyType::MarginTop);
            let mar_b = has_prop_exec(props, CssPropertyType::MarginBottom);

            let wr1 = AxisRect {
                preferred: if w_ch {
                    new_pref_w
                } else {
                    wr0.preferred
                },
                padding_start: if pad_l {
                    new_styles[i].padding_left
                } else {
                    wr0.padding_start
                },
                padding_end: if pad_r {
                    new_styles[i].padding_right
                } else {
                    wr0.padding_end
                },
                margin_start: if mar_l {
                    new_styles[i].margin_left
                } else {
                    wr0.margin_start
                },
                margin_end: if mar_r {
                    new_styles[i].margin_right
                } else {
                    wr0.margin_end
                },
                ..wr0
            };
            let hr1 = AxisRect {
                preferred: if h_ch {
                    new_pref_h
                } else {
                    hr0.preferred
                },
                padding_start: if pad_t {
                    new_styles[i].padding_top
                } else {
                    hr0.padding_start
                },
                padding_end: if pad_b {
                    new_styles[i].padding_bottom
                } else {
                    hr0.padding_end
                },
                margin_start: if mar_t {
                    new_styles[i].margin_top
                } else {
                    hr0.margin_start
                },
                margin_end: if mar_b {
                    new_styles[i].margin_bottom
                } else {
                    hr0.margin_end
                },
                ..hr0
            };
            width_calculated_rects.set(i, wr1);
            height_calculated_rects.set(i, hr1);

            let padding_x = pad_l || pad_r;
            let padding_y = pad_t || pad_b;
            let margin_x = mar_l || mar_r;
            let margin_y = mar_t || mar_b;

            if w_ch {
                recalc_w.set(pp, true);
                recalc_w.set(i, true);
                repos_x.set(pp, true);
                let old_min: Px = match wr0.preferred.min_needed_space() {
                    Some(m) => m,
                    None => 0,
                };
                bubble_w.push((i, old_min));
            }
            if h_ch {
                recalc_h.set(pp, true);
                recalc_h.set(i, true);
                repos_y.set(pp, true);
                let old_min: Px = match hr0.preferred.min_needed_space() {
                    Some(m) => m,
                    None => 0,
                };
                bubble_h.push((i, old_min));
            }
            if padding_x {
                recalc_w.set(i, true);
                repos_x.set(i, true);
            }
            if padding_y {
                recalc_h.set(i, true);
                repos_y.set(i, true);
            }
            if margin_x {
                recalc_w.set(pp, true);
                repos_x.set(pp, true);
            }
            if margin_y {
                recalc_h.set(pp, true);
                repos_y.set(pp, true);
            }
        }
        k += 1;
    }

    // Repair the minimum inner sizes: gather each changed node's delta on
    // its parent, then propagate deepest-first up to the root.
    let ghost d_final = diff_upto(
        s0,
        *tree,
        nodes_to_relayout@,
        new_styles@,
        old_result.preferred_widths@,
        old_result.preferred_heights@,
        root_bounds,
        num_changes as int,
    );
    let (width_calculated_rects, recalc_w) = rebubble_axis_exec(
        width_calculated_rects,
        tree,
        &bubble_w,
        recalc_w,
    );
    let (height_calculated_rects, recalc_h) = rebubble_axis_exec(
        height_calculated_rects,
        tree,
        &bubble_h,
        recalc_h,
    );

    // Re-run the scoped distribution and position passes.
    let width_calculated_rects = apply_flex_grow(
        width_calculated_rects,
        tree,
        &layout_flex_grows,
        &layout_positions,
        &layout_flex_directions,
        LayoutAxis::Horizontal,
        root_bounds.width,
        &recalc_w,
    );
    let height_calculated_rects = apply_flex_grow(
        height_calculated_rects,
        tree,
        &layout_flex_grows,
        &layout_positions,
        &layout_flex_directions,
        LayoutAxis::Vertical,
        root_bounds.height,
        &recalc_h,
    );
    let solved_pos_x = get_axis_positions(
        solved_pos_x,
        &width_calculated_rects,
        tree,
        &layout_positions,
        &layout_flex_directions,
        &layout_justify_contents,
        LayoutAxis::Horizontal,
        root_bounds.x,
        &repos_x,
    );
    let solved_pos_y = get_axis_positions(
        solved_pos_y,
        &height_calculated_rects,
        tree,
        &layout_positions,
        &layout_flex_directions,
        &layout_justify_contents,
        LayoutAxis::Vertical,
        root_bounds.y,
        &repos_y,
    );

    // Collect every node whose size may have changed: the marked parents
    // and their children.
    let mut changed_set: Vec<bool> = Vec::new();
    let mut changed_list: Vec<usize> = Vec::new();
    let mut i: usize = 0;
    while i < n
        invariant
            i <= n,
            n == tree.n(),
            tree.wf(),
            recalc_w@.len() == tree.n(),
            recalc_h@.len() == tree.n(),
            changed_set@.len() == i,
            forall|j: int|
                0 <= j < i ==> changed_set@[j] == size_changed(*tree, recalc_w@, recalc_h@, j),
            changed_list@ == changed_list_upto(*tree, recalc_w@, recalc_h@, i as int),
        decreases n - i,
    {
        let own = recalc_w[i] || recalc_h[i];
        let via_parent: bool = if i != 0 {
            let pp = tree.parent[i];
            recalc_w[pp] || recalc_h[pp]
        } else {
            false
        };
        let ch = own || via_parent;
        changed_set.push(ch);
        if ch {
            changed_list.push(i);
        }
        i += 1;
    }

    // Re-finalise the rectangles of the touched nodes and refresh the
    // scrollable set.
    let rects = position_nodes(
        old_rects,
        tree,
        new_styles,
        &width_calculated_rects,
        &height_calculated_rects,
        &solved_pos_x,
        &solved_pos_y,
        &layout_positions,
        &input.has_text,
        &changed_set,
        &changed_set,
    );
    proof {
        assert(changed_set@ =~= Seq::new(
            tree.n() as nat,
            |i: int|
                size_changed(
                    *tree,
                    rebubble_axis(d_final.width_rects, *tree, d_final.bubble_w, d_final.recalc_w).1,
                    rebubble_axis(
                        d_final.height_rects,
                        *tree,
                        d_final.bubble_h,
                        d_final.recalc_h,
                    ).1,
                    i,
                ),
        ));
    }
    let (scrollable_nodes, next_scroll_tag) = get_nodes_that_need_scroll_clip(
        tree,
        &rects,
        &input.node_hashes,
        &input.tag_ids,
        &old_scrollable,
        input.pipeline,
        next_scroll_tag,
    );

    let new_result = LayoutResult {
        root_position_x: root_bounds.x,
        root_position_y: root_bounds.y,
        root_size_width: root_bounds.width,
        root_size_height: root_bounds.height,
        layout_positions,
        layout_flex_grows,
        layout_flex_directions,
        layout_justify_contents,
        width_calculated_rects,
        height_calculated_rects,
        solved_pos_x,
        solved_pos_y,
        rects,
        scrollable_nodes,
        preferred_widths,
        preferred_heights,
        next_scroll_tag,
    };
    (new_result, changed_list)
}

/// Repairs one axis after the diff step: gathers each changed node's
/// minimum-size delta on its parent, then propagates the deltas
/// deepest-first to the root, marking every touched ancestor for
/// recalculation.
fn rebubble_axis_exec(
    rects: Vec<AxisRect>,
    tree: &NodeHierarchy,
    bubble: &Vec<(usize, Px)>,
    recalc: Vec<bool>,
) -> (r: (Vec<AxisRect>, Vec<bool>))
    requires
        tree.wf(),
        rects@.len() == tree.n(),
        recalc@.len() == tree.n(),
        forall|k: int| 0 <= k < bubble@.len() ==> (#[trigger] bubble@[k].0 as int) < tree.n(),
    ensures
        (r.0@, r.1@) == rebubble_axis(rects@, *tree, bubble@, recalc@),
        r.0@.len() == tree.n(),
        r.1@.len() == tree.n(),
{
    let ghost rects0 = rects@;
    let ghost recalc0 = recalc@;
    let n = tree.len();
    let mut rects = rects;
    let mut recalc = recalc;
    let mut has_delta: Vec<bool> = crate::fill_bool(n, false);
    let mut delta: Vec<Px> = crate::fill_zero_px(n);
    proof {
        assert(has_delta@ =~= Seq::new(tree.n() as nat, |i: int| false));
        assert(delta@ =~= Seq::new(tree.n() as nat, |i: int| 0 as Px));
    }
    let ghost zero_has = has_delta@;
    let ghost zero_delta = delta@;
    let num_bubble = bubble.len();
    let mut k: usize = 0;
    while k < num_bubble
        invariant
            k <= num_bubble,
            num_bubble == bubble@.len(),
            tree.wf(),
            rects@ == rects0,
            rects@.len() == tree.n(),
            has_delta@.len() == tree.n(),
            delta@.len() == tree.n(),
            recalc@.len() == tree.n(),
            forall|kk: int| 0 <= kk < bubble@.len() ==> (#[trigger] bubble@[kk].0 as int) < tree.n(),
            ({
                let g = gather_deltas_upto(
                    rects0,
                    *tree,
                    bubble@,
                    zero_has,
                    zero_delta,
                    recalc0,
                    k as int,
                );
                &&& has_delta@ == g.0
                &&& delta@ == g.1
                &&& recalc@ == g.2
            }),
        decreases num_bubble - k,
    {
        let (i, old) = bubble[k];
        if i != 0 {
            let pp = tree.parent[i];
            let new_min: Px = match rects[i].preferred.min_needed_space() {
                Some(m) => m,
                None => 0,
            };
            let change = sat_sub(new_min, old);
            if change != 0 {
                has_delta.set(pp, true);
                let dv = sat_add(delta[pp], change);
                delta.set(pp, dv);
                recalc.set(pp, true);
            }
        }
        k += 1;
    }

    let ghost gathered = gather_deltas_upto(
        rects0,
        *tree,
        bubble@,
        zero_has,
        zero_delta,
        recalc0,
        num_bubble as int,
    );
    let num_parents = tree.parents_ordered.len();
    let mut k: usize = 0;
    while k < num_parents
        invariant
            k <= num_parents,
            num_parents == tree.parents_ordered@.len(),
            tree.wf(),
            rects@.len() == tree.n(),
            has_delta@.len() == tree.n(),
            delta@.len() == tree.n(),
            recalc@.len() == tree.n(),
            ({
                let pr = propagate_deltas_upto(
                    rects0,
                    *tree,
                    gathered.0,
                    gathered.1,
                    gathered.2,
                    k as int,
                );
                &&& rects@ == pr.0
                &&& has_delta@ == pr.1
                &&& delta@ == pr.2
                &&& recalc@ == pr.3
            }),
        decreases num_parents - k,
    {
        let p = tree.parents_ordered[num_parents - 1 - k];
        if has_delta[p] {
            let amount = delta[p];
            let new_rect = AxisRect {
                min_inner_size_px: sat_add(rects[p].min_inner_size_px, amount),
                ..rects[p]
            };
            rects.set(p, new_rect);
            if p != 0 {
                let pp = tree.parent[p];
                has_delta.set(pp, true);
                let dv = sat_add(delta[pp], amount);
                delta.set(pp, dv);
                recalc.set(pp, true);
            }
        }
        k += 1;
    }
    (rects, recalc)
}

} // verus!
