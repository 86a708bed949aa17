//! A constrained flex-box layout solver.
//!
//! Given a styled node tree (per-node CSS-like box properties) and a viewport
//! rectangle, the solver computes a final pixel rectangle (size and position)
//! for every node: a bubble pass sums children's flex-basis into each parent's
//! minimum inner size, a distribution pass hands leftover space to flexible
//! children (with iterative max-size violation removal), a position pass
//! resolves absolute screen coordinates, and a finalizer merges everything
//! into per-node positioned rectangles with overflow metadata. An incremental
//! relayout entry point re-runs the passes scoped to the nodes a property
//! change can affect.
//!
//! All pixel arithmetic is integral and saturating: a dimension is a whole
//! number of pixels, and every sum, difference and product is clamped into
//! the representable range instead of wrapping.

use vstd::prelude::*;

pub mod px;
pub mod style;
pub mod tree;
pub mod constraint;
pub mod solver;
pub mod distribute;
pub mod position;
pub mod rects;
pub mod scroll;
pub mod relayout;
pub mod laws;

use crate::constraint::{
    height_config_of, height_offsets_of, width_config_of, width_offsets_of, AxisRect,
};
use crate::distribute::{apply_flex_grow, spec_apply_flex_grow};
use crate::position::{get_axis_positions, spec_get_positions};
use crate::px::Px;
use crate::rects::{position_nodes, spec_position_nodes, LayoutRect, PositionedRectangle};
use crate::scroll::{
    get_nodes_that_need_scroll_clip, spec_scrolled_nodes, OverflowingScrollNode, PipelineId,
    ScrolledNodes,
};
use crate::solver::{bubble_inner_sizes, init_axis_rects, spec_bubble, spec_init_axis_rects};
use crate::style::{
    flex_direction_or_default, flex_grow_or_default, get_layout_flex_directions,
    get_layout_flex_grows, get_layout_justify_contents, get_layout_positions,
    justify_content_or_default, position_or_default, LayoutAxis, LayoutFlexDirection,
    LayoutJustifyContent, LayoutPosition, NodeStyle,
};
use crate::tree::NodeHierarchy;

verus! {

/// The position mode of every node, with defaults applied.
pub open spec fn spec_layout_positions(styles: Seq<NodeStyle>) -> Seq<LayoutPosition> {
    Seq::new(styles.len(), |i: int| position_or_default(styles[i].position))
}

/// The flex-grow factor of every node, with defaults applied.
pub open spec fn spec_layout_flex_grows(styles: Seq<NodeStyle>) -> Seq<u32> {
    Seq::new(styles.len(), |i: int| flex_grow_or_default(styles[i].flex_grow))
}

/// The flex-direction of every node, with defaults applied.
pub open spec fn spec_layout_flex_directions(styles: Seq<NodeStyle>) -> Seq<LayoutFlexDirection> {
    Seq::new(styles.len(), |i: int| flex_direction_or_default(styles[i].flex_direction))
}

/// The main-axis alignment of every node, with defaults applied.
pub open spec fn spec_layout_justify_contents(
    styles: Seq<NodeStyle>,
) -> Seq<LayoutJustifyContent> {
    Seq::new(styles.len(), |i: int| justify_content_or_default(styles[i].justify_content))
}

/// A membership set holding every node.
pub open spec fn all_nodes(n: int) -> Seq<bool> {
    Seq::new(n as nat, |i: int| true)
}

/// The solved per-axis rectangles of a full pass over one axis: resolve
/// the constraints, bubble the minimum inner sizes, distribute the
/// leftover space.
pub open spec fn spec_solved_widths(
    tree: NodeHierarchy,
    styles: Seq<NodeStyle>,
    contents: Seq<Option<Px>>,
    root_size: int,
) -> Seq<AxisRect> {
    let cfgs = Seq::new(styles.len(), |i: int| width_config_of(styles[i]));
    let offs = Seq::new(styles.len(), |i: int| width_offsets_of(styles[i]));
    let init = spec_init_axis_rects(tree, cfgs, offs, contents, root_size);
    let bubbled = spec_bubble(init, tree, spec_layout_positions(styles));
    spec_apply_flex_grow(
        bubbled,
        tree,
        spec_layout_flex_grows(styles),
        spec_layout_positions(styles),
        spec_layout_flex_directions(styles),
        LayoutAxis::Horizontal,
        root_size,
        all_nodes(tree.n()),
    )
}

/// The solved vertical rectangles of a full pass.
pub open spec fn spec_solved_heights(
    tree: NodeHierarchy,
    styles: Seq<NodeStyle>,
    contents: Seq<Option<Px>>,
    root_size: int,
) -> Seq<AxisRect> {
    let cfgs = Seq::new(styles.len(), |i: int| height_config_of(styles[i]));
    let offs = Seq::new(styles.len(), |i: int| height_offsets_of(styles[i]));
    let init = spec_init_axis_rects(tree, cfgs, offs, contents, root_size);
    let bubbled = spec_bubble(init, tree, spec_layout_positions(styles));
    spec_apply_flex_grow(
        bubbled,
        tree,
        spec_layout_flex_grows(styles),
        spec_layout_positions(styles),
        spec_layout_flex_directions(styles),
        LayoutAxis::Vertical,
        root_size,
        all_nodes(tree.n()),
    )
}

/// The aggregate result of one layout pass over one document.
#[derive(Clone, Debug)]
pub struct LayoutResult {
    pub root_position_x: Px,
    pub root_position_y: Px,
    pub root_size_width: Px,
    pub root_size_height: Px,
    pub layout_positions: Vec<LayoutPosition>,
    pub layout_flex_grows: Vec<u32>,
    pub layout_flex_directions: Vec<LayoutFlexDirection>,
    pub layout_justify_contents: Vec<LayoutJustifyContent>,
    pub width_calculated_rects: Vec<AxisRect>,
    pub height_calculated_rects: Vec<AxisRect>,
    pub solved_pos_x: Vec<Px>,
    pub solved_pos_y: Vec<Px>,
    pub rects: Vec<PositionedRectangle>,
    pub scrollable_nodes: ScrolledNodes,
    pub preferred_widths: Vec<Option<Px>>,
    pub preferred_heights: Vec<Option<Px>>,
    pub next_scroll_tag: u64,
}

impl LayoutResult {
    /// Whether the result's arrays cover every node of the tree.
    pub open spec fn wf(self, tree: NodeHierarchy) -> bool {
        &&& self.layout_positions@.len() == tree.n()
        &&& self.layout_flex_grows@.len() == tree.n()
        &&& self.layout_flex_directions@.len() == tree.n()
        &&& self.layout_justify_contents@.len() == tree.n()
        &&& self.width_calculated_rects@.len() == tree.n()
        &&& self.height_calculated_rects@.len() == tree.n()
        &&& self.solved_pos_x@.len() == tree.n()
        &&& self.solved_pos_y@.len() == tree.n()
        &&& self.rects@.len() == tree.n()
        &&& self.preferred_widths@.len() == tree.n()
        &&& self.preferred_heights@.len() == tree.n()
    }
}

/// The inputs a layout takes besides the tree and the styles: the
/// per-node intrinsic content sizes, which nodes bear text, the per-node
/// content hashes and existing hit-test tags, and the pipeline identity.
pub struct LayoutInput {
    pub content_widths: Vec<Option<Px>>,
    pub content_heights: Vec<Option<Px>>,
    pub has_text: Vec<bool>,
    pub node_hashes: Vec<u64>,
    pub tag_ids: Vec<Option<u64>>,
    pub pipeline: PipelineId,
    pub tag_seed: u64,
}

impl LayoutInput {
    /// Whether the input arrays cover every node of the tree and the tag
    /// counter cannot run out.
    pub open spec fn wf(self, tree: NodeHierarchy) -> bool {
        &&& self.content_widths@.len() == tree.n()
        &&& self.content_heights@.len() == tree.n()
        &&& self.has_text@.len() == tree.n()
        &&& self.node_hashes@.len() == tree.n()
        &&& self.tag_ids@.len() == tree.n()
        &&& self.tag_seed + tree.parents_ordered@.len() <= u64::MAX
    }
}

/// Whether a layout result is exactly the full pass over the given tree,
/// styles, viewport and inputs.
pub open spec fn is_layout_of(
    r: LayoutResult,
    tree: NodeHierarchy,
    styles: Seq<NodeStyle>,
    bounds: LayoutRect,
    input: LayoutInput,
) -> bool {
    let widths = spec_solved_widths(tree, styles, input.content_widths@, bounds.width as int);
    let heights = spec_solved_heights(tree, styles, input.content_heights@, bounds.height as int);
    let pos_x = spec_get_positions(
        Seq::new(tree.n() as nat, |i: int| 0 as Px),
        widths,
        tree,
        spec_layout_positions(styles),
        spec_layout_flex_directions(styles),
        spec_layout_justify_contents(styles),
        LayoutAxis::Horizontal,
        bounds.x as int,
        all_nodes(tree.n()),
    );
    let pos_y = spec_get_positions(
        Seq::new(tree.n() as nat, |i: int| 0 as Px),
        heights,
        tree,
        spec_layout_positions(styles),
        spec_layout_flex_directions(styles),
        spec_layout_justify_contents(styles),
        LayoutAxis::Vertical,
        bounds.y as int,
        all_nodes(tree.n()),
    );
    let rects = spec_position_nodes(
        Seq::new(tree.n() as nat, |i: int| PositionedRectangle::default_spec()),
        tree,
        styles,
        widths,
        heights,
        pos_x,
        pos_y,
        spec_layout_positions(styles),
        input.has_text@,
        all_nodes(tree.n()),
        all_nodes(tree.n()),
    );
    let scrolled = spec_scrolled_nodes(
        tree,
        rects,
        input.node_hashes@,
        input.tag_ids@,
        Seq::<(usize, OverflowingScrollNode)>::empty(),
        input.pipeline,
        input.tag_seed as int,
    );
    &&& r.root_position_x == bounds.x
    &&& r.root_position_y == bounds.y
    &&& r.root_size_width == bounds.width
    &&& r.root_size_height == bounds.height
    &&& r.layout_positions@ == spec_layout_positions(styles)
    &&& r.layout_flex_grows@ == spec_layout_flex_grows(styles)
    &&& r.layout_flex_directions@ == spec_layout_flex_directions(styles)
    &&& r.layout_justify_contents@ == spec_layout_justify_contents(styles)
    &&& r.width_calculated_rects@ == widths
    &&& r.height_calculated_rects@ == heights
    &&& r.solved_pos_x@ == pos_x
    &&& r.solved_pos_y@ == pos_y
    &&& r.rects@ == rects
    &&& r.scrollable_nodes.overflowing_nodes@ == scrolled.0
    &&& r.scrollable_nodes.tags_to_node_ids@ == scrolled.1
    &&& r.next_scroll_tag as int == scrolled.2
    &&& r.preferred_widths@ == input.content_widths@
    &&& r.preferred_heights@ == input.content_heights@
}

/// Builds a vector of `n` copies of one flag.
pub(crate) fn fill_bool(n: usize, v: bool) -> (r: Vec<bool>)
    ensures
        r@.len() == n,
        forall|i: int| 0 <= i < n ==> r@[i] == v,
{
    let mut out: Vec<bool> = Vec::new();
    let mut i: usize = 0;
    while i < n
        invariant
            i <= n,
            out@.len() == i,
            forall|j: int| 0 <= j < i ==> out@[j] == v,
        decreases n - i,
    {
        out.push(v);
        i += 1;
    }
    out
}

/// Builds a vector of `n` zero lengths.
pub(crate) fn fill_zero_px(n: usize) -> (r: Vec<Px>)
    ensures
        r@.len() == n,
        forall|i: int| 0 <= i < n ==> r@[i] == 0,
{
    let mut out: Vec<Px> = Vec::new();
    let mut i: usize = 0;
    while i < n
        invariant
            i <= n,
            out@.len() == i,
            forall|j: int| 0 <= j < i ==> out@[j] == 0,
        decreases n - i,
    {
        out.push(0);
        i += 1;
    }
    out
}

/// Builds a vector of `n` unresolved rectangles.
fn fill_default_rects(n: usize) -> (r: Vec<PositionedRectangle>)
    ensures
        r@.len() == n,
        forall|i: int| 0 <= i < n ==> r@[i] == PositionedRectangle::default_spec(),
{
    let mut out: Vec<PositionedRectangle> = Vec::new();
    let mut i: usize = 0;
    while i < n
        invariant
            i <= n,
            out@.len() == i,
            forall|j: int| 0 <= j < i ==> out@[j] == PositionedRectangle::default_spec(),
        decreases n - i,
    {
        out.push(PositionedRectangle::default_rect());
        i += 1;
    }
    out
}

/// The full layout pass over one document: extracts the per-node layout
/// properties, solves the two axes (constraint resolution, bubble pass,
/// flex-grow distribution), resolves positions, finalises the
/// rectangles and collects the scrollable nodes.
pub fn do_the_layout_internal(
    tree: &NodeHierarchy,
    styles: &Vec<NodeStyle>,
    bounds: LayoutRect,
    input: &LayoutInput,
) -> (r: LayoutResult)
    requires
        tree.wf(),
        styles@.len() == tree.n(),
        input.wf(*tree),
    ensures
        is_layout_of(r, *tree, styles@, bounds, *input),
{
    let n = tree.len();
    let layout_positions = get_layout_positions(styles);
    let layout_flex_grows = get_layout_flex_grows(styles);
    let layout_flex_directions = get_layout_flex_directions(styles);
    let layout_justify_contents = get_layout_justify_contents(styles);
    proof {
        assert(layout_positions@ =~= spec_layout_positions(styles@));
        assert(layout_flex_grows@ =~= spec_layout_flex_grows(styles@));
        assert(layout_flex_directions@ =~= spec_layout_flex_directions(styles@));
        assert(layout_justify_contents@ =~= spec_layout_justify_contents(styles@));
    }
    let (w_cfg, h_cfg) = crate::constraint::precalculate_wh_config(styles);
    let (w_off, h_off) = crate::constraint::precalculate_all_offsets(styles);
    proof {
        assert(w_cfg@ =~= Seq::new(styles@.len(), |i: int| width_config_of(styles@[i])));
        assert(h_cfg@ =~= Seq::new(styles@.len(), |i: int| height_config_of(styles@[i])));
        assert(w_off@ =~= Seq::new(styles@.len(), |i: int| width_offsets_of(styles@[i])));
        assert(h_off@ =~= Seq::new(styles@.len(), |i: int| height_offsets_of(styles@[i])));
    }
    let everything = fill_bool(n, true);
    proof {
        assert(everything@ =~= all_nodes(tree.n()));
    }

    let width_init = init_axis_rects(tree, &w_cfg, &w_off, &input.content_widths, bounds.width);
    let width_bubbled = bubble_inner_sizes(width_init, tree, &layout_positions);
    let width_calculated_rects = apply_flex_grow(
        width_bubbled,
        tree,
        &layout_flex_grows,
        &layout_positions,
        &layout_flex_directions,
        LayoutAxis::Horizontal,
        bounds.width,
        &everything,
    );

    let height_init = init_axis_rects(tree, &h_cfg, &h_off, &input.content_heights, bounds.height);
    let height_bubbled = bubble_inner_sizes(height_init, tree, &layout_positions);
    let height_calculated_rects = apply_flex_grow(
        height_bubbled,
        tree,
        &layout_flex_grows,
        &layout_positions,
        &layout_flex_directions,
        LayoutAxis::Vertical,
        bounds.height,
        &everything,
    );

    let zeros_x = fill_zero_px(n);
    proof {
        assert(zeros_x@ =~= Seq::new(tree.n() as nat, |i: int| 0 as Px));
    }
    let solved_pos_x = get_axis_positions(
        zeros_x,
        &width_calculated_rects,
        tree,
        &layout_positions,
        &layout_flex_directions,
        &layout_justify_contents,
        LayoutAxis::Horizontal,
        bounds.x,
        &everything,
    );
    let zeros_y = fill_zero_px(n);
    proof {
        assert(zeros_y@ =~= Seq::new(tree.n() as nat, |i: int| 0 as Px));
    }
    let solved_pos_y = get_axis_positions(
        zeros_y,
        &height_calculated_rects,
        tree,
        &layout_positions,
        &layout_flex_directions,
        &layout_justify_contents,
        LayoutAxis::Vertical,
        bounds.y,
        &everything,
    );

    let empty_rects = fill_default_rects(n);
    proof {
        assert(empty_rects@ =~= Seq::new(
            tree.n() as nat,
            |i: int| PositionedRectangle::default_spec(),
        ));
    }
    let rects = position_nodes(
        empty_rects,
        tree,
        styles,
        &width_calculated_rects,
        &height_calculated_rects,
        &solved_pos_x,
        &solved_pos_y,
        &layout_positions,
        &input.has_text,
        &everything,
        &everything,
    );

    let empty_scroll = ScrolledNodes::new_empty();
    let (scrollable_nodes, next_scroll_tag) = get_nodes_that_need_scroll_clip(
        tree,
        &rects,
        &input.node_hashes,
        &input.tag_ids,
        &empty_scroll,
        input.pipeline,
        input.tag_seed,
    );

    let mut preferred_widths: Vec<Option<Px>> = Vec::new();
    let mut preferred_heights: Vec<Option<Px>> = Vec::new();
    let mut i: usize = 0;
    while i < n
        invariant
            i <= n,
            n == tree.n(),
            input.content_widths@.len() == tree.n(),
            input.content_heights@.len() == tree.n(),
            preferred_widths@.len() == i,
            preferred_heights@.len() == i,
            preferred_widths@ == input.content_widths@.take(i as int),
            preferred_heights@ == input.content_heights@.take(i as int),
        decreases n - i,
    {
        preferred_widths.push(input.content_widths[i]);
        preferred_heights.push(input.content_heights[i]);
        proof {
            assert(preferred_widths@ =~= input.content_widths@.take(i + 1));
            assert(preferred_heights@ =~= input.content_heights@.take(i + 1));
        }
        i += 1;
    }
    proof {
        assert(preferred_widths@ =~= input.content_widths@);
        assert(preferred_heights@ =~= input.content_heights@);
    }

    LayoutResult {
        root_position_x: bounds.x,
        root_position_y: bounds.y,
        root_size_width: bounds.width,
        root_size_height: bounds.height,
        layout_positions,
        layout_flex_grows,
        layout_flex_directions,
        layout_justify_contents,
        width_calculated_rects,
        height_calculated_rects,
        solved_pos_x,
        solved_pos_y,
        rects,
        scrollable_nodes,
        preferred_widths,
        preferred_heights,
        next_scroll_tag,
    }
}

} // verus!
