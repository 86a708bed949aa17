use flexlayout::do_the_layout_internal;
use flexlayout::rects::LayoutRect;
use flexlayout::scroll::PipelineId;
use flexlayout::style::{LayoutFlexDirection, NodeStyle, PixelValue};
use flexlayout::tree::NodeHierarchy;
use flexlayout::{LayoutInput, LayoutResult};

fn plain_input(n: usize) -> LayoutInput {
    LayoutInput {
        content_widths: vec![None; n],
        content_heights: vec![None; n],
        has_text: vec![false; n],
        node_hashes: vec![0u64; n],
        tag_ids: vec![None; n],
        pipeline: PipelineId { namespace: 0, id: 1 },
        tag_seed: 100,
    }
}

fn viewport(w: i64, h: i64) -> LayoutRect {
    LayoutRect { x: 0, y: 0, width: w, height: h }
}

fn run(parents: Vec<usize>, styles: Vec<NodeStyle>, w: i64, h: i64) -> LayoutResult {
    let tree = NodeHierarchy::from_parents(&parents).unwrap();
    let input = plain_input(parents.len());
    do_the_layout_internal(&tree, &styles, viewport(w, h), &input)
}

fn size_of(r: &LayoutResult, i: usize) -> (i64, i64) {
    (r.rects[i].size_width, r.rects[i].size_height)
}

fn pos_of(r: &LayoutResult, i: usize) -> (i64, i64) {
    (r.solved_pos_x[i], r.solved_pos_y[i])
}

#[test]
fn single_root_with_exact_size() {
    // Viewport 600x100, one root with width 300 and height 40: one
    // rectangle of 300x40 at the origin.
    let mut root = NodeStyle::empty();
    root.width = Some(PixelValue::Pixels(300));
    root.height = Some(PixelValue::Pixels(40));
    let r = run(vec![0], vec![root], 600, 100);
    assert_eq!(pos_of(&r, 0), (0, 0));
    assert_eq!(size_of(&r, 0), (300, 40));
}

#[test]
fn two_flexible_children_split_evenly() {
    // Parent width 200, two children with flex-grow 1 and no explicit
    // width: both come out 100 wide, at x = 0 and x = 100.
    let mut root = NodeStyle::empty();
    root.width = Some(PixelValue::Pixels(200));
    root.height = Some(PixelValue::Pixels(100));
    root.flex_direction = Some(LayoutFlexDirection::Row);
    let child = NodeStyle::empty();
    let r = run(vec![0, 0, 0], vec![root, child.clone(), child], 200, 100);
    assert_eq!(r.rects[1].size_width, 100);
    assert_eq!(r.rects[2].size_width, 100);
    assert_eq!(r.solved_pos_x[1], 0);
    assert_eq!(r.solved_pos_x[2], 100);
}

#[test]
fn max_width_violation_is_redistributed() {
    // Three children with flex-grow 1 in a 300px row; the first is capped
    // at 50px. The cap's leftover goes back to the others: 50, 125, 125.
    let mut root = NodeStyle::empty();
    root.width = Some(PixelValue::Pixels(300));
    root.height = Some(PixelValue::Pixels(50));
    root.flex_direction = Some(LayoutFlexDirection::Row);
    let mut capped = NodeStyle::empty();
    capped.max_width = Some(PixelValue::Pixels(50));
    let free = NodeStyle::empty();
    let r = run(vec![0, 0, 0, 0], vec![root, capped, free.clone(), free], 300, 50);
    assert_eq!(r.rects[1].size_width, 50);
    assert_eq!(r.rects[2].size_width, 125);
    assert_eq!(r.rects[3].size_width, 125);
}

#[test]
fn layout_twice_is_bit_identical() {
    // Running the full pass twice on the same inputs gives identical
    // output arrays.
    let mut root = NodeStyle::empty();
    root.width = Some(PixelValue::Pixels(300));
    root.height = Some(PixelValue::Pixels(200));
    root.flex_direction = Some(LayoutFlexDirection::Row);
    let mut a = NodeStyle::empty();
    a.max_width = Some(PixelValue::Pixels(70));
    let b = NodeStyle::empty();
    let styles = vec![root, a, b];
    let parents = vec![0, 0, 0];
    let r1 = run(parents.clone(), styles.clone(), 300, 200);
    let r2 = run(parents, styles, 300, 200);
    assert_eq!(r1.rects, r2.rects);
    assert_eq!(r1.solved_pos_x, r2.solved_pos_x);
    assert_eq!(r1.solved_pos_y, r2.solved_pos_y);
    assert_eq!(r1.width_calculated_rects, r2.width_calculated_rects);
    assert_eq!(r1.height_calculated_rects, r2.height_calculated_rects);
}

#[test]
fn absolute_child_does_not_disturb_siblings() {
    // A 200px row with two flexible children splits 100/100 whether or
    // not an absolutely positioned sibling sits between them.
    let mut root = NodeStyle::empty();
    root.width = Some(PixelValue::Pixels(200));
    root.height = Some(PixelValue::Pixels(100));
    root.flex_direction = Some(LayoutFlexDirection::Row);
    let flexible = NodeStyle::empty();
    let mut floating = NodeStyle::empty();
    floating.position = Some(flexlayout::style::LayoutPosition::Absolute);
    floating.width = Some(PixelValue::Pixels(80));
    floating.left = Some(PixelValue::Pixels(5));

    let without = run(
        vec![0, 0, 0],
        vec![root.clone(), flexible.clone(), flexible.clone()],
        200,
        100,
    );
    let with = run(
        vec![0, 0, 0, 0],
        vec![root, floating, flexible.clone(), flexible],
        200,
        100,
    );
    assert_eq!(without.rects[1].size_width, 100);
    assert_eq!(without.rects[2].size_width, 100);
    assert_eq!(with.rects[2].size_width, 100);
    assert_eq!(with.rects[3].size_width, 100);
    assert_eq!(with.solved_pos_x[2], 0);
    assert_eq!(with.solved_pos_x[3], 100);
    // The absolute child anchors to the root at its left inset.
    assert_eq!(with.solved_pos_x[1], 5);
    assert_eq!(with.rects[1].size_width, 80);
}

#[test]
fn exact_child_is_never_flexed() {
    // An exact-width child keeps its width; the flexible sibling takes
    // the rest.
    let mut root = NodeStyle::empty();
    root.width = Some(PixelValue::Pixels(200));
    root.height = Some(PixelValue::Pixels(100));
    root.flex_direction = Some(LayoutFlexDirection::Row);
    let mut fixed = NodeStyle::empty();
    fixed.width = Some(PixelValue::Pixels(50));
    let free = NodeStyle::empty();
    let r = run(vec![0, 0, 0], vec![root, fixed, free], 200, 100);
    assert_eq!(r.rects[1].size_width, 50);
    assert_eq!(r.rects[2].size_width, 150);
    assert_eq!(r.solved_pos_x[1], 0);
    assert_eq!(r.solved_pos_x[2], 50);
}

#[test]
fn end_justified_row_shifts_children() {
    let mut root = NodeStyle::empty();
    root.width = Some(PixelValue::Pixels(200));
    root.height = Some(PixelValue::Pixels(100));
    root.flex_direction = Some(LayoutFlexDirection::Row);
    root.justify_content = Some(flexlayout::style::LayoutJustifyContent::End);
    let mut child = NodeStyle::empty();
    child.width = Some(PixelValue::Pixels(50));
    let r = run(vec![0, 0], vec![root, child], 200, 100);
    assert_eq!(r.solved_pos_x[1], 150);
    assert_eq!(r.rects[1].size_width, 50);
}

#[test]
fn reverse_row_lays_children_backwards() {
    let mut root = NodeStyle::empty();
    root.width = Some(PixelValue::Pixels(200));
    root.height = Some(PixelValue::Pixels(100));
    root.flex_direction = Some(LayoutFlexDirection::RowReverse);
    let mut a = NodeStyle::empty();
    a.width = Some(PixelValue::Pixels(50));
    let mut b = NodeStyle::empty();
    b.width = Some(PixelValue::Pixels(60));
    // Reverse order places the last child first; a reverse row with the
    // default start alignment is then shifted to the end of the line.
    let r = run(vec![0, 0, 0], vec![root, a, b], 200, 100);
    assert_eq!(r.solved_pos_x[2], 90);
    assert_eq!(r.solved_pos_x[1], 150);
}

#[test]
fn cross_axis_stretches_children() {
    // In a row, children without an explicit height fill the parent's
    // height; a max-height caps the stretch.
    let mut root = NodeStyle::empty();
    root.width = Some(PixelValue::Pixels(200));
    root.height = Some(PixelValue::Pixels(120));
    root.flex_direction = Some(LayoutFlexDirection::Row);
    let free = NodeStyle::empty();
    let mut capped = NodeStyle::empty();
    capped.max_height = Some(PixelValue::Pixels(80));
    let r = run(vec![0, 0, 0], vec![root, free, capped], 200, 120);
    assert_eq!(r.rects[1].size_height, 120);
    assert_eq!(r.rects[2].size_height, 80);
}

#[test]
fn overflowing_child_creates_scroll_node() {
    // A 50px-high parent with scrollable vertical overflow and an 80px
    // child records one scrollable node with an 80px content height.
    let mut root = NodeStyle::empty();
    root.width = Some(PixelValue::Pixels(100));
    root.height = Some(PixelValue::Pixels(50));
    root.overflow_y = Some(flexlayout::style::LayoutOverflow::Scroll);
    let mut child = NodeStyle::empty();
    child.height = Some(PixelValue::Pixels(80));
    child.width = Some(PixelValue::Pixels(100));
    let mut input = plain_input(2);
    input.node_hashes = vec![77, 78];
    let tree = NodeHierarchy::from_parents(&vec![0, 0]).unwrap();
    let r = do_the_layout_internal(&tree, &vec![root, child], viewport(100, 50), &input);
    assert_eq!(r.scrollable_nodes.overflowing_nodes.len(), 1);
    let (node, entry) = r.scrollable_nodes.overflowing_nodes[0];
    assert_eq!(node, 0);
    assert_eq!(entry.child_rect.height, 80);
    assert_eq!(entry.child_rect.width, 100);
    assert_eq!(entry.parent_dom_hash, 77);
    assert_eq!(entry.scroll_tag_id, 100);
    assert_eq!(r.next_scroll_tag, 101);
}

#[test]
fn hidden_overflow_creates_no_scroll_node() {
    let mut root = NodeStyle::empty();
    root.width = Some(PixelValue::Pixels(100));
    root.height = Some(PixelValue::Pixels(50));
    root.overflow_y = Some(flexlayout::style::LayoutOverflow::Hidden);
    let mut child = NodeStyle::empty();
    child.height = Some(PixelValue::Pixels(80));
    let r = run(vec![0, 0], vec![root, child], 100, 50);
    assert_eq!(r.scrollable_nodes.overflowing_nodes.len(), 0);
}

#[test]
fn percent_width_resolves_against_parent() {
    let mut root = NodeStyle::empty();
    root.width = Some(PixelValue::Pixels(200));
    root.height = Some(PixelValue::Pixels(100));
    root.flex_direction = Some(LayoutFlexDirection::Row);
    let mut half = NodeStyle::empty();
    half.width = Some(PixelValue::Percent(50));
    let free = NodeStyle::empty();
    let r = run(vec![0, 0, 0], vec![root, half, free], 200, 100);
    assert_eq!(r.rects[1].size_width, 100);
    assert_eq!(r.rects[2].size_width, 100);
}

#[test]
fn intrinsic_content_size_is_adopted() {
    // A node without an explicit width adopts its intrinsic content width
    // when it lies strictly between the bounds.
    let mut root = NodeStyle::empty();
    root.width = Some(PixelValue::Pixels(200));
    root.height = Some(PixelValue::Pixels(100));
    root.flex_direction = Some(LayoutFlexDirection::Row);
    let child = NodeStyle::empty();
    let tree = NodeHierarchy::from_parents(&vec![0, 0]).unwrap();
    let mut input = plain_input(2);
    input.content_widths = vec![None, Some(70)];
    let r = do_the_layout_internal(&tree, &vec![root, child], viewport(200, 100), &input);
    assert_eq!(r.rects[1].size_width, 70);
}

#[test]
fn min_size_wins_over_available_space() {
    // Cross-axis stretch never shrinks a child below its minimum: a
    // min-height larger than the parent's inner space overflows on
    // purpose.
    let mut root = NodeStyle::empty();
    root.width = Some(PixelValue::Pixels(200));
    root.height = Some(PixelValue::Pixels(100));
    root.flex_direction = Some(LayoutFlexDirection::Row);
    let mut tall = NodeStyle::empty();
    tall.min_height = Some(PixelValue::Pixels(150));
    let r = run(vec![0, 0], vec![root, tall], 200, 100);
    assert_eq!(r.rects[1].size_height, 150);
}

#[test]
fn minimum_sizes_may_overflow_the_parent() {
    // Two children whose minimum widths sum past the parent keep their
    // minimums: the parent overflows rather than break the guarantees.
    let mut root = NodeStyle::empty();
    root.width = Some(PixelValue::Pixels(100));
    root.height = Some(PixelValue::Pixels(50));
    root.flex_direction = Some(LayoutFlexDirection::Row);
    let mut wide = NodeStyle::empty();
    wide.min_width = Some(PixelValue::Pixels(80));
    let r = run(vec![0, 0, 0], vec![root, wide.clone(), wide], 100, 50);
    assert_eq!(r.rects[1].size_width, 80);
    assert_eq!(r.rects[2].size_width, 80);
}

#[test]
fn nested_tree_bubbles_and_positions_grandchildren() {
    // Root -> container -> two fixed-height rows: the container fills the
    // viewport, the rows stack below each other.
    let root = NodeStyle::empty();
    let container = NodeStyle::empty();
    let mut row_a = NodeStyle::empty();
    row_a.height = Some(PixelValue::Pixels(30));
    let mut row_b = NodeStyle::empty();
    row_b.height = Some(PixelValue::Pixels(40));
    let r = run(vec![0, 0, 1, 1], vec![root, container, row_a, row_b], 200, 100);
    assert_eq!(r.rects[0].size_height, 100);
    assert_eq!(r.rects[1].size_height, 100);
    assert_eq!(r.rects[2].size_height, 30);
    assert_eq!(r.rects[3].size_height, 40);
    assert_eq!(r.solved_pos_y[2], 0);
    assert_eq!(r.solved_pos_y[3], 30);
    assert_eq!(r.rects[2].size_width, 200);
}

#[test]
fn origin_offsets_every_node() {
    let mut root = NodeStyle::empty();
    root.width = Some(PixelValue::Pixels(100));
    root.height = Some(PixelValue::Pixels(50));
    let mut child = NodeStyle::empty();
    child.width = Some(PixelValue::Pixels(40));
    child.height = Some(PixelValue::Pixels(20));
    let tree = NodeHierarchy::from_parents(&vec![0, 0]).unwrap();
    let input = plain_input(2);
    let bounds = LayoutRect { x: 7, y: 11, width: 100, height: 50 };
    let r = do_the_layout_internal(&tree, &vec![root, child], bounds, &input);
    assert_eq!(pos_of(&r, 0), (7, 11));
    assert_eq!(pos_of(&r, 1), (7, 11));
}

#[test]
fn center_justified_row_centres_children() {
    // One 50px child in a 200px row with centred alignment sits at 75.
    let mut root = NodeStyle::empty();
    root.width = Some(PixelValue::Pixels(200));
    root.height = Some(PixelValue::Pixels(100));
    root.flex_direction = Some(LayoutFlexDirection::Row);
    root.justify_content = Some(flexlayout::style::LayoutJustifyContent::Center);
    let mut child = NodeStyle::empty();
    child.width = Some(PixelValue::Pixels(50));
    let r = run(vec![0, 0], vec![root, child], 200, 100);
    assert_eq!(r.solved_pos_x[1], 75);
}
