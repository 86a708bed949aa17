use flexlayout::constraint::{resolve_axis, AxisConfig, WhConstraint};
use flexlayout::do_the_layout_internal;
use flexlayout::rects::LayoutRect;
use flexlayout::relayout::{do_the_relayout, CssPropertyType, NodeChanges};
use flexlayout::scroll::PipelineId;
use flexlayout::style::{
    get_layout_flex_grows, get_layout_positions, LayoutFlexDirection, LayoutPosition, NodeStyle,
    PixelValue,
};
use flexlayout::tree::NodeHierarchy;
use flexlayout::{LayoutInput, LayoutResult};

fn plain_input(n: usize) -> LayoutInput {
    LayoutInput {
        content_widths: vec![None; n],
        content_heights: vec![None; n],
        has_text: vec![false; n],
        node_hashes: vec![0u64; n],
        tag_ids: vec![None; n],
        pipeline: PipelineId { namespace: 0, id: 1 },
        tag_seed: 100,
    }
}

fn viewport(w: i64, h: i64) -> LayoutRect {
    LayoutRect { x: 0, y: 0, width: w, height: h }
}

fn row_root(w: i64, h: i64) -> NodeStyle {
    let mut s = NodeStyle::empty();
    s.width = Some(PixelValue::Pixels(w));
    s.height = Some(PixelValue::Pixels(h));
    s.flex_direction = Some(LayoutFlexDirection::Row);
    s
}

fn assert_same_geometry(a: &LayoutResult, b: &LayoutResult, n: usize) {
    for i in 0..n {
        assert_eq!(a.rects[i].size_width, b.rects[i].size_width, "width of node {}", i);
        assert_eq!(a.rects[i].size_height, b.rects[i].size_height, "height of node {}", i);
        assert_eq!(a.solved_pos_x[i], b.solved_pos_x[i], "x of node {}", i);
        assert_eq!(a.solved_pos_y[i], b.solved_pos_y[i], "y of node {}", i);
        assert_eq!(a.rects[i].position, b.rects[i].position, "position of node {}", i);
    }
}

#[test]
fn relayout_equals_full_layout_after_width_change() {
    // Changing one child's width and relaying out gives the same
    // geometry as a full layout of the new styles.
    let parents = vec![0, 0, 0];
    let tree = NodeHierarchy::from_parents(&parents).unwrap();
    let input = plain_input(3);
    let old_styles = vec![row_root(200, 100), NodeStyle::empty(), NodeStyle::empty()];
    let first = do_the_layout_internal(&tree, &old_styles, viewport(200, 100), &input);
    assert_eq!(first.rects[1].size_width, 100);

    let mut new_styles = old_styles.clone();
    new_styles[1].width = Some(PixelValue::Pixels(50));
    let changes = vec![NodeChanges { node: 1, properties: vec![CssPropertyType::Width] }];
    let (second, changed) = do_the_relayout(
        viewport(200, 100),
        first,
        &tree,
        &new_styles,
        &input,
        &changes,
    );

    let fresh = do_the_layout_internal(&tree, &new_styles, viewport(200, 100), &input);
    assert_same_geometry(&second, &fresh, 3);
    assert_eq!(second.rects[1].size_width, 50);
    assert_eq!(second.rects[2].size_width, 150);
    assert!(changed.contains(&1));
    assert!(changed.contains(&2));
}

#[test]
fn viewport_change_resizes_children_but_keeps_their_offsets() {
    // A changed root size marks the root's children for resizing but not
    // for repositioning: the new widths match a full layout, while the
    // second child keeps its old offset. This under-invalidation is a
    // known, deliberately kept gap of the incremental driver.
    let parents = vec![0, 0, 0];
    let tree = NodeHierarchy::from_parents(&parents).unwrap();
    let input = plain_input(3);
    let mut root = NodeStyle::empty();
    root.flex_direction = Some(LayoutFlexDirection::Row);
    let styles = vec![root, NodeStyle::empty(), NodeStyle::empty()];
    let first = do_the_layout_internal(&tree, &styles, viewport(200, 100), &input);
    assert_eq!(first.rects[1].size_width, 100);

    let (second, changed) = do_the_relayout(
        viewport(300, 100),
        first,
        &tree,
        &styles,
        &input,
        &Vec::new(),
    );
    let fresh = do_the_layout_internal(&tree, &styles, viewport(300, 100), &input);
    assert_eq!(second.rects[1].size_width, 150);
    assert_eq!(second.rects[2].size_width, 150);
    assert_eq!(fresh.rects[2].size_width, 150);
    // The sizes agree with the full layout; the second child's offset
    // does not, because no reposition mark is set for a root resize.
    assert_eq!(fresh.solved_pos_x[2], 150);
    assert_eq!(second.solved_pos_x[2], 100);
    assert!(changed.contains(&1));
    assert!(changed.contains(&2));
}

#[test]
fn relayout_without_changes_returns_nothing() {
    let parents = vec![0, 0];
    let tree = NodeHierarchy::from_parents(&parents).unwrap();
    let input = plain_input(2);
    let styles = vec![row_root(200, 100), NodeStyle::empty()];
    let first = do_the_layout_internal(&tree, &styles, viewport(200, 100), &input);
    let before = first.rects.clone();
    let (second, changed) = do_the_relayout(
        viewport(200, 100),
        first,
        &tree,
        &styles,
        &input,
        &Vec::new(),
    );
    assert!(changed.is_empty());
    assert_eq!(second.rects, before);
}

#[test]
fn purely_visual_changes_are_filtered_out() {
    // A text-colour change can never move a box: the driver returns at
    // once with nothing to redraw.
    let parents = vec![0, 0];
    let tree = NodeHierarchy::from_parents(&parents).unwrap();
    let input = plain_input(2);
    let styles = vec![row_root(200, 100), NodeStyle::empty()];
    let first = do_the_layout_internal(&tree, &styles, viewport(200, 100), &input);
    let before = first.rects.clone();
    let changes = vec![NodeChanges { node: 1, properties: vec![CssPropertyType::TextColor] }];
    let (second, changed) = do_the_relayout(
        viewport(200, 100),
        first,
        &tree,
        &styles,
        &input,
        &changes,
    );
    assert!(changed.is_empty());
    assert_eq!(second.rects, before);
}

#[test]
fn relayout_after_margin_change_matches_full_layout() {
    let parents = vec![0, 0, 0];
    let tree = NodeHierarchy::from_parents(&parents).unwrap();
    let input = plain_input(3);
    let mut fixed = NodeStyle::empty();
    fixed.width = Some(PixelValue::Pixels(40));
    let old_styles = vec![row_root(200, 100), fixed, NodeStyle::empty()];
    let first = do_the_layout_internal(&tree, &old_styles, viewport(200, 100), &input);

    let mut new_styles = old_styles.clone();
    new_styles[1].margin_left = Some(PixelValue::Pixels(10));
    let changes = vec![NodeChanges { node: 1, properties: vec![CssPropertyType::MarginLeft] }];
    let (second, _changed) = do_the_relayout(
        viewport(200, 100),
        first,
        &tree,
        &new_styles,
        &input,
        &changes,
    );
    let fresh = do_the_layout_internal(&tree, &new_styles, viewport(200, 100), &input);
    assert_same_geometry(&second, &fresh, 3);
    assert_eq!(second.solved_pos_x[1], 10);
}

#[test]
fn max_wins_when_min_exceeds_it() {
    // min-width 100 with max-width 50: the maximum wins, both collapse.
    let mut cfg = AxisConfig { exact: None, min: None, max: None };
    cfg.min = Some(PixelValue::Pixels(100));
    cfg.max = Some(PixelValue::Pixels(50));
    let c = resolve_axis(&cfg, None, 400);
    assert_eq!(c, WhConstraint::Between(50, 50));
}

#[test]
fn exact_size_is_clamped_into_bounds() {
    let cfg = AxisConfig {
        exact: Some(PixelValue::Pixels(500)),
        min: Some(PixelValue::Pixels(10)),
        max: Some(PixelValue::Pixels(200)),
    };
    assert_eq!(resolve_axis(&cfg, None, 400), WhConstraint::EqualTo(200));
    let cfg2 = AxisConfig {
        exact: Some(PixelValue::Pixels(5)),
        min: Some(PixelValue::Pixels(10)),
        max: Some(PixelValue::Pixels(200)),
    };
    assert_eq!(resolve_axis(&cfg2, None, 400), WhConstraint::EqualTo(10));
}

#[test]
fn intrinsic_size_ignored_outside_bounds() {
    let cfg = AxisConfig {
        exact: None,
        min: Some(PixelValue::Pixels(50)),
        max: Some(PixelValue::Pixels(100)),
    };
    assert_eq!(resolve_axis(&cfg, Some(70), 400), WhConstraint::EqualTo(70));
    assert_eq!(resolve_axis(&cfg, Some(120), 400), WhConstraint::Between(50, 100));
    assert_eq!(resolve_axis(&cfg, Some(30), 400), WhConstraint::Between(50, 100));
}

#[test]
fn percent_lengths_resolve_and_round_toward_zero() {
    assert_eq!(PixelValue::Percent(50).to_pixels(201), 100);
    assert_eq!(PixelValue::Percent(50).to_pixels(-201), -100);
    assert_eq!(PixelValue::Pixels(42).to_pixels(999), 42);
}

#[test]
fn tree_rejects_bad_parent_arrays() {
    assert!(NodeHierarchy::from_parents(&Vec::new()).is_none());
    // A node may not point at itself or at a later node.
    assert!(NodeHierarchy::from_parents(&vec![0, 1]).is_none());
    assert!(NodeHierarchy::from_parents(&vec![0, 2, 1]).is_none());
    let t = NodeHierarchy::from_parents(&vec![0, 0, 1, 1]).unwrap();
    assert_eq!(t.children[0], vec![1]);
    assert_eq!(t.children[1], vec![2, 3]);
    assert_eq!(t.parents_ordered, vec![0, 1]);
}

#[test]
fn style_defaults_apply_when_unset() {
    let styles = vec![NodeStyle::empty()];
    assert_eq!(get_layout_flex_grows(&styles), vec![1u32]);
    assert_eq!(get_layout_positions(&styles), vec![LayoutPosition::Static]);
}

#[test]
fn property_kinds_know_what_triggers_relayout() {
    assert!(CssPropertyType::Width.can_trigger_relayout());
    assert!(CssPropertyType::MarginTop.can_trigger_relayout());
    assert!(!CssPropertyType::TextColor.can_trigger_relayout());
    assert!(!CssPropertyType::Opacity.can_trigger_relayout());
}

#[test]
fn text_nodes_get_layout_options_with_solved_width() {
    let parents = vec![0, 0];
    let tree = NodeHierarchy::from_parents(&parents).unwrap();
    let mut input = plain_input(2);
    input.has_text = vec![false, true];
    let mut root = row_root(200, 100);
    root.flex_direction = Some(LayoutFlexDirection::Row);
    let mut text = NodeStyle::empty();
    text.width = Some(PixelValue::Pixels(120));
    text.font_size = Some(PixelValue::Pixels(20));
    let r = do_the_layout_internal(&tree, &vec![root, text], viewport(200, 100), &input);
    let opts = r.rects[1].resolved_text_layout_options.expect("text node has options");
    assert_eq!(opts.max_horizontal_width, Some(120));
    assert_eq!(opts.font_size_px, 20);
    assert!(r.rects[0].resolved_text_layout_options.is_none());
}
