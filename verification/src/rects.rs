//! The rectangle finalizer.
//!
//! Merges the solved sizes and positions with the resolved padding, margin
//! and border widths into one `PositionedRectangle` per node, tagged by its
//! position mode, with per-axis overflow metadata comparing the bounding
//! box of the children against the parent's own rectangle.

use vstd::prelude::*;
use vstd::pervasive::VecAdditionalExecFns;

use crate::constraint::AxisRect;
use crate::px::{
    max_px, max_px_spec, min_px, min_px_spec, sat_add, sat_add_spec, sat_sub, sat_sub_spec, Px,
};
use crate::style::{
    opt_to_pixels, opt_to_pixels_spec, overflow_or_default, LayoutAlignItems,
    LayoutJustifyContent, LayoutOverflow, LayoutPosition, NodeStyle, PixelValue,
    StyleTextAlignmentHorz, StyleTextAlignmentVert,
};
use crate::tree::NodeHierarchy;

verus! {

/// The reference font size for a node whose `font-size` is unset.
pub const DEFAULT_FONT_SIZE_PX: Px = 16;

/// An axis-aligned rectangle in layout space.
#[derive(Clone, Copy, Debug, PartialEq, Eq, Structural)]
pub struct LayoutRect {
    pub x: Px,
    pub y: Px,
    pub width: Px,
    pub height: Px,
}

impl LayoutRect {
    /// The bounding box of two rectangles.
    pub open spec fn union_spec(self, o: LayoutRect) -> LayoutRect {
        let x = min_px_spec(self.x as int, o.x as int);
        let y = min_px_spec(self.y as int, o.y as int);
        let right = max_px_spec(
            sat_add_spec(self.x as int, self.width as int),
            sat_add_spec(o.x as int, o.width as int),
        );
        let bottom = max_px_spec(
            sat_add_spec(self.y as int, self.height as int),
            sat_add_spec(o.y as int, o.height as int),
        );
        LayoutRect {
            x: x as Px,
            y: y as Px,
            width: sat_sub_spec(right, x) as Px,
            height: sat_sub_spec(bottom, y) as Px,
        }
    }

    /// The bounding box of two rectangles.
    pub fn union(&self, o: &LayoutRect) -> (r: LayoutRect)
        ensures
            r == self.union_spec(*o),
    {
        let x = min_px(self.x, o.x);
        let y = min_px(self.y, o.y);
        let right = max_px(sat_add(self.x, self.width), sat_add(o.x, o.width));
        let bottom = max_px(sat_add(self.y, self.height), sat_add(o.y, o.height));
        LayoutRect { x, y, width: sat_sub(right, x), height: sat_sub(bottom, y) }
    }
}

/// Resolved pixel offsets on all four sides.
#[derive(Clone, Copy, Debug, PartialEq, Eq, Structural)]
pub struct ResolvedOffsets {
    pub left: Px,
    pub right: Px,
    pub top: Px,
    pub bottom: Px,
}

impl ResolvedOffsets {
    /// Offsets of zero on every side.
    pub open spec fn zero_spec() -> ResolvedOffsets {
        ResolvedOffsets { left: 0, right: 0, top: 0, bottom: 0 }
    }

    /// Offsets of zero on every side.
    pub fn zero() -> (r: ResolvedOffsets)
        ensures
            r == ResolvedOffsets::zero_spec(),
    {
        ResolvedOffsets { left: 0, right: 0, top: 0, bottom: 0 }
    }
}

/// The raw position insets (`left`/`right`/`top`/`bottom`) of one node.
#[derive(Clone, Copy, Debug, PartialEq, Eq, Structural)]
pub struct LayoutAbsolutePositions {
    pub left: Option<PixelValue>,
    pub right: Option<PixelValue>,
    pub top: Option<PixelValue>,
    pub bottom: Option<PixelValue>,
}

/// The raw border widths of one node.
#[derive(Clone, Copy, Debug, PartialEq, Eq, Structural)]
pub struct LayoutBorderOffsets {
    pub left: Option<PixelValue>,
    pub right: Option<PixelValue>,
    pub top: Option<PixelValue>,
    pub bottom: Option<PixelValue>,
}

/// The raw padding of one node.
#[derive(Clone, Copy, Debug, PartialEq, Eq, Structural)]
pub struct LayoutPaddingOffsets {
    pub left: Option<PixelValue>,
    pub right: Option<PixelValue>,
    pub top: Option<PixelValue>,
    pub bottom: Option<PixelValue>,
}

/// The raw margins of one node.
#[derive(Clone, Copy, Debug, PartialEq, Eq, Structural)]
pub struct LayoutMarginOffsets {
    pub left: Option<PixelValue>,
    pub right: Option<PixelValue>,
    pub top: Option<PixelValue>,
    pub bottom: Option<PixelValue>,
}

/// Four optional lengths resolved against the horizontal scale for the
/// left/right sides and the vertical scale for the top/bottom sides,
/// zero when absent.
pub open spec fn resolve_offsets_spec(
    left: Option<PixelValue>,
    right: Option<PixelValue>,
    top: Option<PixelValue>,
    bottom: Option<PixelValue>,
    parent_scale_x: int,
    parent_scale_y: int,
) -> ResolvedOffsets {
    ResolvedOffsets {
        left: opt_to_pixels_spec(left, parent_scale_x) as Px,
        right: opt_to_pixels_spec(right, parent_scale_x) as Px,
        top: opt_to_pixels_spec(top, parent_scale_y) as Px,
        bottom: opt_to_pixels_spec(bottom, parent_scale_y) as Px,
    }
}

impl LayoutAbsolutePositions {
    /// Resolves the four insets against the parent scales.
    pub fn resolve(&self, parent_scale_x: Px, parent_scale_y: Px) -> (r: ResolvedOffsets)
        ensures
            r == resolve_offsets_spec(
                self.left,
                self.right,
                self.top,
                self.bottom,
                parent_scale_x as int,
                parent_scale_y as int,
            ),
    {
        ResolvedOffsets {
            left: opt_to_pixels(&self.left, parent_scale_x),
            right: opt_to_pixels(&self.right, parent_scale_x),
            top: opt_to_pixels(&self.top, parent_scale_y),
            bottom: opt_to_pixels(&self.bottom, parent_scale_y),
        }
    }
}

impl LayoutBorderOffsets {
    /// Resolves the four border widths against the parent scales.
    pub fn resolve(&self, parent_scale_x: Px, parent_scale_y: Px) -> (r: ResolvedOffsets)
        ensures
            r == resolve_offsets_spec(
                self.left,
                self.right,
                self.top,
                self.bottom,
                parent_scale_x as int,
                parent_scale_y as int,
            ),
    {
        ResolvedOffsets {
            left: opt_to_pixels(&self.left, parent_scale_x),
            right: opt_to_pixels(&self.right, parent_scale_x),
            top: opt_to_pixels(&self.top, parent_scale_y),
            bottom: opt_to_pixels(&self.bottom, parent_scale_y),
        }
    }
}

impl LayoutPaddingOffsets {
    /// Resolves the four paddings against the parent scales.
    pub fn resolve(&self, parent_scale_x: Px, parent_scale_y: Px) -> (r: ResolvedOffsets)
        ensures
            r == resolve_offsets_spec(
                self.left,
                self.right,
                self.top,
                self.bottom,
                parent_scale_x as int,
                parent_scale_y as int,
            ),
    {
        ResolvedOffsets {
            left: opt_to_pixels(&self.left, parent_scale_x),
            right: opt_to_pixels(&self.right, parent_scale_x),
            top: opt_to_pixels(&self.top, parent_scale_y),
            bottom: opt_to_pixels(&self.bottom, parent_scale_y),
        }
    }
}

impl LayoutMarginOffsets {
    /// Resolves the four margins against the parent scales.
    pub fn resolve(&self, parent_scale_x: Px, parent_scale_y: Px) -> (r: ResolvedOffsets)
        ensures
            r == resolve_offsets_spec(
                self.left,
                self.right,
                self.top,
                self.bottom,
                parent_scale_x as int,
                parent_scale_y as int,
            ),
    {
        ResolvedOffsets {
            left: opt_to_pixels(&self.left, parent_scale_x),
            right: opt_to_pixels(&self.right, parent_scale_x),
            top: opt_to_pixels(&self.top, parent_scale_y),
            bottom: opt_to_pixels(&self.bottom, parent_scale_y),
        }
    }
}

/// The border widths of a style record.
pub open spec fn border_offsets_of(s: NodeStyle) -> LayoutBorderOffsets {
    LayoutBorderOffsets {
        left: s.border_left_width,
        right: s.border_right_width,
        top: s.border_top_width,
        bottom: s.border_bottom_width,
    }
}

/// The padding of a style record.
pub open spec fn padding_offsets_of(s: NodeStyle) -> LayoutPaddingOffsets {
    LayoutPaddingOffsets {
        left: s.padding_left,
        right: s.padding_right,
        top: s.padding_top,
        bottom: s.padding_bottom,
    }
}

/// The margins of a style record.
pub open spec fn margin_offsets_of(s: NodeStyle) -> LayoutMarginOffsets {
    LayoutMarginOffsets {
        left: s.margin_left,
        right: s.margin_right,
        top: s.margin_top,
        bottom: s.margin_bottom,
    }
}

/// A node's final position, tagged by its position mode. Each mode keeps
/// the offset from its anchor and the absolute layout-space coordinate,
/// so a later position-mode switch can recover either.
#[derive(Clone, Copy, Debug, PartialEq, Eq, Structural)]
pub enum PositionInfo {
    Static { x_offset: Px, y_offset: Px, static_x_offset: Px, static_y_offset: Px },
    Relative { x_offset: Px, y_offset: Px, static_x_offset: Px, static_y_offset: Px },
    Absolute { x_offset: Px, y_offset: Px, static_x_offset: Px, static_y_offset: Px },
    Fixed { x_offset: Px, y_offset: Px, static_x_offset: Px, static_y_offset: Px },
}

/// Overflow metadata for one axis: the node's overflow mode, with the
/// leftover space on that axis (parent extent minus children extent; a
/// negative amount means the children extend beyond the parent), when the
/// node has children.
#[derive(Clone, Copy, Debug, PartialEq, Eq, Structural)]
pub enum DirectionalOverflowInfo {
    Scroll { amount: Option<Px> },
    Auto { amount: Option<Px> },
    Hidden { amount: Option<Px> },
    Visible { amount: Option<Px> },
}

impl DirectionalOverflowInfo {
    /// The leftover amount, when known.
    pub open spec fn amount_spec(self) -> Option<Px> {
        match self {
            DirectionalOverflowInfo::Scroll { amount } => amount,
            DirectionalOverflowInfo::Auto { amount } => amount,
            DirectionalOverflowInfo::Hidden { amount } => amount,
            DirectionalOverflowInfo::Visible { amount } => amount,
        }
    }

    /// The leftover amount, when known.
    pub fn amount(&self) -> (r: Option<Px>)
        ensures
            r == self.amount_spec(),
    {
        match self {
            DirectionalOverflowInfo::Scroll { amount } => *amount,
            DirectionalOverflowInfo::Auto { amount } => *amount,
            DirectionalOverflowInfo::Hidden { amount } => *amount,
            DirectionalOverflowInfo::Visible { amount } => *amount,
        }
    }

    /// Whether the mode allows scrolling (`scroll` or `auto`).
    pub open spec fn is_scrollable_spec(self) -> bool {
        self is Scroll || self is Auto
    }

    /// Whether the mode allows scrolling (`scroll` or `auto`).
    pub fn is_scrollable(&self) -> (r: bool)
        ensures
            r == self.is_scrollable_spec(),
    {
        match self {
            DirectionalOverflowInfo::Scroll { .. } => true,
            DirectionalOverflowInfo::Auto { .. } => true,
            _ => false,
        }
    }
}

/// Overflow metadata on both axes.
#[derive(Clone, Copy, Debug, PartialEq, Eq, Structural)]
pub struct OverflowInfo {
    pub overflow_x: DirectionalOverflowInfo,
    pub overflow_y: DirectionalOverflowInfo,
}

/// The text layout options handed to the text collaborator for a
/// text-bearing node, fully resolved from its style and solved width.
#[derive(Clone, Copy, Debug, PartialEq, Eq, Structural)]
pub struct TextLayoutOptions {
    pub max_horizontal_width: Option<Px>,
    pub font_size_px: Px,
    pub letter_spacing: Option<Px>,
    pub word_spacing: Option<Px>,
    pub line_height: Option<Px>,
    pub tab_width: Option<Px>,
    pub horz_alignment: StyleTextAlignmentHorz,
    pub vert_alignment: StyleTextAlignmentVert,
}

/// The final per-node output of a layout pass.
#[derive(Clone, Copy, Debug, PartialEq, Eq, Structural)]
pub struct PositionedRectangle {
    pub size_width: Px,
    pub size_height: Px,
    pub position: PositionInfo,
    pub padding: ResolvedOffsets,
    pub margin: ResolvedOffsets,
    pub border_widths: ResolvedOffsets,
    pub resolved_text_layout_options: Option<TextLayoutOptions>,
    pub overflow: OverflowInfo,
}

impl PositionedRectangle {
    /// A rectangle with nothing resolved.
    pub open spec fn default_spec() -> PositionedRectangle {
        PositionedRectangle {
            size_width: 0,
            size_height: 0,
            position: PositionInfo::Static {
                x_offset: 0,
                y_offset: 0,
                static_x_offset: 0,
                static_y_offset: 0,
            },
            padding: ResolvedOffsets::zero_spec(),
            margin: ResolvedOffsets::zero_spec(),
            border_widths: ResolvedOffsets::zero_spec(),
            resolved_text_layout_options: None,
            overflow: OverflowInfo {
                overflow_x: DirectionalOverflowInfo::Visible { amount: None },
                overflow_y: DirectionalOverflowInfo::Visible { amount: None },
            },
        }
    }

    /// A rectangle with nothing resolved.
    pub fn default_rect() -> (r: PositionedRectangle)
        ensures
            r == PositionedRectangle::default_spec(),
    {
        PositionedRectangle {
            size_width: 0,
            size_height: 0,
            position: PositionInfo::Static {
                x_offset: 0,
                y_offset: 0,
                static_x_offset: 0,
                static_y_offset: 0,
            },
            padding: ResolvedOffsets::zero(),
            margin: ResolvedOffsets::zero(),
            border_widths: ResolvedOffsets::zero(),
            resolved_text_layout_options: None,
            overflow: OverflowInfo {
                overflow_x: DirectionalOverflowInfo::Visible { amount: None },
                overflow_y: DirectionalOverflowInfo::Visible { amount: None },
            },
        }
    }
}

/// Overflow metadata on one axis for the given mode and leftover amount.
pub open spec fn directional_overflow_spec(
    mode: LayoutOverflow,
    amount: Option<Px>,
) -> DirectionalOverflowInfo {
    match mode {
        LayoutOverflow::Scroll => DirectionalOverflowInfo::Scroll { amount },
        LayoutOverflow::Auto => DirectionalOverflowInfo::Auto { amount },
        LayoutOverflow::Hidden => DirectionalOverflowInfo::Hidden { amount },
        LayoutOverflow::Visible => DirectionalOverflowInfo::Visible { amount },
    }
}

/// The overflow metadata of a node: for each axis, the node's overflow
/// mode (default visible) tagged with the leftover space between the
/// node's rectangle and its children's bounding box, when one is given.
pub open spec fn get_overflow_spec(
    overflow_x: Option<LayoutOverflow>,
    overflow_y: Option<LayoutOverflow>,
    parent_rect: LayoutRect,
    children_sum_rect: Option<LayoutRect>,
) -> OverflowInfo {
    let ox = overflow_or_default(overflow_x);
    let oy = overflow_or_default(overflow_y);
    match children_sum_rect {
        Some(c) => {
            let amount_x = sat_sub_spec(
                sat_add_spec(parent_rect.width as int, parent_rect.x as int),
                sat_add_spec(c.x as int, c.width as int),
            ) as Px;
            let amount_y = sat_sub_spec(
                sat_add_spec(parent_rect.height as int, parent_rect.y as int),
                sat_add_spec(c.y as int, c.height as int),
            ) as Px;
            OverflowInfo {
                overflow_x: directional_overflow_spec(ox, Some(amount_x)),
                overflow_y: directional_overflow_spec(oy, Some(amount_y)),
            }
        },
        None => OverflowInfo {
            overflow_x: directional_overflow_spec(ox, None),
            overflow_y: directional_overflow_spec(oy, None),
        },
    }
}

/// Computes the overflow metadata of a node from its overflow modes, its
/// own rectangle and its children's bounding box.
pub fn get_overflow(
    overflow_x: &Option<LayoutOverflow>,
    overflow_y: &Option<LayoutOverflow>,
    parent_rect: &LayoutRect,
    children_sum_rect: &Option<LayoutRect>,
) -> (r: OverflowInfo)
    ensures
        r == get_overflow_spec(*overflow_x, *overflow_y, *parent_rect, *children_sum_rect),
{
    let ox = match overflow_x {
        Some(o) => *o,
        None => LayoutOverflow::Visible,
    };
    let oy = match overflow_y {
        Some(o) => *o,
        None => LayoutOverflow::Visible,
    };
    let amounts: (Option<Px>, Option<Px>) = match children_sum_rect {
        Some(c) => {
            let ax = sat_sub(
                sat_add(parent_rect.width, parent_rect.x),
                sat_add(c.x, c.width),
            );
            let ay = sat_sub(
                sat_add(parent_rect.height, parent_rect.y),
                sat_add(c.y, c.height),
            );
            (Some(ax), Some(ay))
        },
        None => (None, None),
    };
    let dx = match ox {
        LayoutOverflow::Scroll => DirectionalOverflowInfo::Scroll { amount: amounts.0 },
        LayoutOverflow::Auto => DirectionalOverflowInfo::Auto { amount: amounts.0 },
        LayoutOverflow::Hidden => DirectionalOverflowInfo::Hidden { amount: amounts.0 },
        LayoutOverflow::Visible => DirectionalOverflowInfo::Visible { amount: amounts.0 },
    };
    let dy = match oy {
        LayoutOverflow::Scroll => DirectionalOverflowInfo::Scroll { amount: amounts.1 },
        LayoutOverflow::Auto => DirectionalOverflowInfo::Auto { amount: amounts.1 },
        LayoutOverflow::Hidden => DirectionalOverflowInfo::Hidden { amount: amounts.1 },
        LayoutOverflow::Visible => DirectionalOverflowInfo::Visible { amount: amounts.1 },
    };
    OverflowInfo { overflow_x: dx, overflow_y: dy }
}

/// The text alignment of a node: `align-items` drives the vertical
/// alignment, `justify-content` the horizontal one, and an explicit
/// `text-align` overrides the horizontal choice. The defaults are left
/// and top.
pub open spec fn determine_text_alignment_spec(
    align_items: Option<LayoutAlignItems>,
    justify_content: Option<LayoutJustifyContent>,
    text_align: Option<StyleTextAlignmentHorz>,
) -> (StyleTextAlignmentHorz, StyleTextAlignmentVert) {
    let vert = match align_items {
        Some(LayoutAlignItems::FlexStart) => StyleTextAlignmentVert::Top,
        Some(LayoutAlignItems::FlexEnd) => StyleTextAlignmentVert::Bottom,
        Some(_) => StyleTextAlignmentVert::Center,
        None => StyleTextAlignmentVert::Top,
    };
    let horz0 = match justify_content {
        Some(LayoutJustifyContent::Start) => StyleTextAlignmentHorz::Left,
        Some(LayoutJustifyContent::End) => StyleTextAlignmentHorz::Right,
        Some(_) => StyleTextAlignmentHorz::Center,
        None => StyleTextAlignmentHorz::Left,
    };
    let horz = match text_align {
        Some(t) => t,
        None => horz0,
    };
    (horz, vert)
}

/// Determines the horizontal and vertical text alignment of a node from
/// its alignment properties.
pub fn determine_text_alignment(
    align_items: Option<LayoutAlignItems>,
    justify_content: Option<LayoutJustifyContent>,
    text_align: Option<StyleTextAlignmentHorz>,
) -> (r: (StyleTextAlignmentHorz, StyleTextAlignmentVert))
    ensures
        r == determine_text_alignment_spec(align_items, justify_content, text_align),
{
    let vert = match align_items {
        Some(LayoutAlignItems::FlexStart) => StyleTextAlignmentVert::Top,
        Some(LayoutAlignItems::FlexEnd) => StyleTextAlignmentVert::Bottom,
        Some(_) => StyleTextAlignmentVert::Center,
        None => StyleTextAlignmentVert::Top,
    };
    let horz0 = match justify_content {
        Some(LayoutJustifyContent::Start) => StyleTextAlignmentHorz::Left,
        Some(LayoutJustifyContent::End) => StyleTextAlignmentHorz::Right,
        Some(_) => StyleTextAlignmentHorz::Center,
        None => StyleTextAlignmentHorz::Left,
    };
    let horz = match text_align {
        Some(t) => t,
        None => horz0,
    };
    (horz, vert)
}

/// The fully resolved text layout options of a text-bearing node: the
/// solved width caps the line width unless the node's horizontal overflow
/// is `auto`; the spacing lengths resolve against their conventional
/// references (letter spacing against zero, word spacing against one);
/// the alignments come from the node's alignment properties.
pub open spec fn text_layout_options_spec(s: NodeStyle, solved_width: int) -> TextLayoutOptions {
    let alignment = determine_text_alignment_spec(s.align_items, s.justify_content, s.text_align);
    TextLayoutOptions {
        max_horizontal_width: if overflow_or_default(s.overflow_x) != LayoutOverflow::Auto {
            Some(solved_width as Px)
        } else {
            None
        },
        font_size_px: (match s.font_size {
            Some(v) => v.to_pixels_spec(DEFAULT_FONT_SIZE_PX as int),
            None => DEFAULT_FONT_SIZE_PX as int,
        }) as Px,
        letter_spacing: match s.letter_spacing {
            Some(v) => Some(v.to_pixels_spec(0) as Px),
            None => None,
        },
        word_spacing: match s.word_spacing {
            Some(v) => Some(v.to_pixels_spec(1) as Px),
            None => None,
        },
        line_height: s.line_height,
        tab_width: s.tab_width,
        horz_alignment: alignment.0,
        vert_alignment: alignment.1,
    }
}

/// Resolves the text layout options of a text-bearing node from its style
/// and its solved width.
pub fn text_layout_options(s: &NodeStyle, solved_width: Px) -> (r: TextLayoutOptions)
    ensures
        r == text_layout_options_spec(*s, solved_width as int),
{
    let alignment = determine_text_alignment(s.align_items, s.justify_content, s.text_align);
    let overflow_is_auto = match s.overflow_x {
        Some(LayoutOverflow::Auto) => true,
        _ => false,
    };
    TextLayoutOptions {
        max_horizontal_width: if !overflow_is_auto {
            Some(solved_width)
        } else {
            None
        },
        font_size_px: match s.font_size {
            Some(v) => v.to_pixels(DEFAULT_FONT_SIZE_PX),
            None => DEFAULT_FONT_SIZE_PX,
        },
        letter_spacing: match s.letter_spacing {
            Some(v) => Some(v.to_pixels(0)),
            None => None,
        },
        word_spacing: match s.word_spacing {
            Some(v) => Some(v.to_pixels(1)),
            None => None,
        },
        line_height: s.line_height,
        tab_width: s.tab_width,
        horz_alignment: alignment.0,
        vert_alignment: alignment.1,
    }
}

/// The position record of a node: static and relative nodes carry offsets
/// from their parent, absolute nodes from the root's position, fixed
/// nodes their screen coordinate; all carry the absolute coordinate too.
pub open spec fn position_info_spec(
    mode: LayoutPosition,
    x: int,
    y: int,
    parent_x: int,
    parent_y: int,
    root_x: int,
    root_y: int,
) -> PositionInfo {
    match mode {
        LayoutPosition::Static => PositionInfo::Static {
            x_offset: sat_sub_spec(x, parent_x) as Px,
            y_offset: sat_sub_spec(y, parent_y) as Px,
            static_x_offset: x as Px,
            static_y_offset: y as Px,
        },
        LayoutPosition::Relative => PositionInfo::Relative {
            x_offset: sat_sub_spec(x, parent_x) as Px,
            y_offset: sat_sub_spec(y, parent_y) as Px,
            static_x_offset: x as Px,
            static_y_offset: y as Px,
        },
        LayoutPosition::Absolute => PositionInfo::Absolute {
            x_offset: sat_sub_spec(x, root_x) as Px,
            y_offset: sat_sub_spec(y, root_y) as Px,
            static_x_offset: x as Px,
            static_y_offset: y as Px,
        },
        LayoutPosition::Fixed => PositionInfo::Fixed {
            x_offset: x as Px,
            y_offset: y as Px,
            static_x_offset: x as Px,
            static_y_offset: y as Px,
        },
    }
}

/// The solved rectangle of node `i` (position and resolved size).
pub open spec fn node_rect_spec(
    widths: Seq<AxisRect>,
    heights: Seq<AxisRect>,
    pos_x: Seq<Px>,
    pos_y: Seq<Px>,
    i: int,
) -> LayoutRect {
    LayoutRect {
        x: pos_x[i],
        y: pos_y[i],
        width: widths[i].total_spec() as Px,
        height: heights[i].total_spec() as Px,
    }
}

/// The bounding box of the first `k` children's solved rectangles.
pub open spec fn children_sum_rect_upto(
    widths: Seq<AxisRect>,
    heights: Seq<AxisRect>,
    pos_x: Seq<Px>,
    pos_y: Seq<Px>,
    kids: Seq<usize>,
    k: int,
) -> Option<LayoutRect>
    decreases k,
{
    if k <= 0 {
        None
    } else {
        let c = kids[k - 1] as int;
        let r = node_rect_spec(widths, heights, pos_x, pos_y, c);
        match children_sum_rect_upto(widths, heights, pos_x, pos_y, kids, k - 1) {
            Some(acc) => Some(acc.union_spec(r)),
            None => Some(r),
        }
    }
}

/// The finalised rectangle of child `c` of parent `p`. `prev_text` is the
/// child's text layout from before the pass, kept when the child's text
/// need not be re-laid-out.
pub open spec fn child_rect_value_spec(
    prev_text: Option<TextLayoutOptions>,
    styles: Seq<NodeStyle>,
    widths: Seq<AxisRect>,
    heights: Seq<AxisRect>,
    pos_x: Seq<Px>,
    pos_y: Seq<Px>,
    positions: Seq<LayoutPosition>,
    has_text: Seq<bool>,
    redraw_text: Seq<bool>,
    p: int,
    c: int,
    root_x: int,
    root_y: int,
) -> PositionedRectangle {
    let pw = widths[p].total_spec();
    let ph = heights[p].total_spec();
    let text = if has_text[c] {
        if redraw_text[c] {
            Some(text_layout_options_spec(styles[c], widths[c].total_spec()))
        } else {
            prev_text
        }
    } else {
        None
    };
    PositionedRectangle {
        size_width: widths[c].total_spec() as Px,
        size_height: heights[c].total_spec() as Px,
        position: position_info_spec(
            positions[c],
            pos_x[c] as int,
            pos_y[c] as int,
            pos_x[p] as int,
            pos_y[p] as int,
            root_x,
            root_y,
        ),
        padding: resolve_offsets_spec(
            styles[c].padding_left,
            styles[c].padding_right,
            styles[c].padding_top,
            styles[c].padding_bottom,
            pw,
            ph,
        ),
        margin: resolve_offsets_spec(
            styles[c].margin_left,
            styles[c].margin_right,
            styles[c].margin_top,
            styles[c].margin_bottom,
            pw,
            ph,
        ),
        border_widths: resolve_offsets_spec(
            styles[c].border_left_width,
            styles[c].border_right_width,
            styles[c].border_top_width,
            styles[c].border_bottom_width,
            pw,
            ph,
        ),
        resolved_text_layout_options: text,
        overflow: get_overflow_spec(
            styles[c].overflow_x,
            styles[c].overflow_y,
            node_rect_spec(widths, heights, pos_x, pos_y, c),
            None,
        ),
    }
}

/// The rectangles after the first `k` children of parent `p` have been
/// finalised.
pub open spec fn rects_children_upto(
    state: Seq<PositionedRectangle>,
    styles: Seq<NodeStyle>,
    widths: Seq<AxisRect>,
    heights: Seq<AxisRect>,
    pos_x: Seq<Px>,
    pos_y: Seq<Px>,
    positions: Seq<LayoutPosition>,
    has_text: Seq<bool>,
    redraw_text: Seq<bool>,
    kids: Seq<usize>,
    k: int,
    p: int,
    root_x: int,
    root_y: int,
) -> Seq<PositionedRectangle>
    decreases k,
{
    if k <= 0 {
        state
    } else {
        let c = kids[k - 1] as int;
        let prev = rects_children_upto(
            state,
            styles,
            widths,
            heights,
            pos_x,
            pos_y,
            positions,
            has_text,
            redraw_text,
            kids,
            k - 1,
            p,
            root_x,
            root_y,
        );
        prev.update(
            c,
            child_rect_value_spec(
                prev[c].resolved_text_layout_options,
                styles,
                widths,
                heights,
                pos_x,
                pos_y,
                positions,
                has_text,
                redraw_text,
                p,
                c,
                root_x,
                root_y,
            ),
        )
    }
}

/// One finalisation step for parent `p`: finalise its children, then its
/// own fields (keeping its text layout).
pub open spec fn rects_step(
    state: Seq<PositionedRectangle>,
    tree: NodeHierarchy,
    styles: Seq<NodeStyle>,
    widths: Seq<AxisRect>,
    heights: Seq<AxisRect>,
    pos_x: Seq<Px>,
    pos_y: Seq<Px>,
    positions: Seq<LayoutPosition>,
    has_text: Seq<bool>,
    redraw_text: Seq<bool>,
    p: int,
) -> Seq<PositionedRectangle> {
    let root_x = pos_x[0] as int;
    let root_y = pos_y[0] as int;
    let kids = tree.children@[p]@;
    let s1 = rects_children_upto(
        state,
        styles,
        widths,
        heights,
        pos_x,
        pos_y,
        positions,
        has_text,
        redraw_text,
        kids,
        kids.len() as int,
        p,
        root_x,
        root_y,
    );
    let pp = match tree.parent_of(p) {
        Some(q) => q,
        None => 0,
    };
    let ppw = widths[pp].total_spec();
    let pph = heights[pp].total_spec();
    let parent_sum_rect = node_rect_spec(widths, heights, pos_x, pos_y, p);
    let children_sum = children_sum_rect_upto(
        widths,
        heights,
        pos_x,
        pos_y,
        kids,
        kids.len() as int,
    );
    s1.update(
        p,
        PositionedRectangle {
            size_width: widths[p].total_spec() as Px,
            size_height: heights[p].total_spec() as Px,
            position: position_info_spec(
                positions[p],
                pos_x[p] as int,
                pos_y[p] as int,
                pos_x[pp] as int,
                pos_y[pp] as int,
                root_x,
                root_y,
            ),
            padding: resolve_offsets_spec(
                styles[p].padding_left,
                styles[p].padding_right,
                styles[p].padding_top,
                styles[p].padding_bottom,
                ppw,
                pph,
            ),
            margin: resolve_offsets_spec(
                styles[p].margin_left,
                styles[p].margin_right,
                styles[p].margin_top,
                styles[p].margin_bottom,
                ppw,
                pph,
            ),
            border_widths: resolve_offsets_spec(
                styles[p].border_left_width,
                styles[p].border_right_width,
                styles[p].border_top_width,
                styles[p].border_bottom_width,
                ppw,
                pph,
            ),
            resolved_text_layout_options: s1[p].resolved_text_layout_options,
            overflow: get_overflow_spec(
                styles[p].overflow_x,
                styles[p].overflow_y,
                parent_sum_rect,
                children_sum,
            ),
        },
    )
}

/// The rectangles after the first `k` parents (restricted to the update
/// set) have been finalised.
pub open spec fn rects_upto(
    state0: Seq<PositionedRectangle>,
    tree: NodeHierarchy,
    styles: Seq<NodeStyle>,
    widths: Seq<AxisRect>,
    heights: Seq<AxisRect>,
    pos_x: Seq<Px>,
    pos_y: Seq<Px>,
    positions: Seq<LayoutPosition>,
    has_text: Seq<bool>,
    redraw_text: Seq<bool>,
    updated: Seq<bool>,
    k: int,
) -> Seq<PositionedRectangle>
    decreases k,
{
    if k <= 0 {
        state0
    } else {
        let prev = rects_upto(
            state0,
            tree,
            styles,
            widths,
            heights,
            pos_x,
            pos_y,
            positions,
            has_text,
            redraw_text,
            updated,
            k - 1,
        );
        let p = tree.parents_ordered@[k - 1] as int;
        if updated[p] {
            rects_step(
                prev,
                tree,
                styles,
                widths,
                heights,
                pos_x,
                pos_y,
                positions,
                has_text,
                redraw_text,
                p,
            )
        } else {
            prev
        }
    }
}

/// The rectangles after the full finalisation pass.
pub open spec fn spec_position_nodes(
    state0: Seq<PositionedRectangle>,
    tree: NodeHierarchy,
    styles: Seq<NodeStyle>,
    widths: Seq<AxisRect>,
    heights: Seq<AxisRect>,
    pos_x: Seq<Px>,
    pos_y: Seq<Px>,
    positions: Seq<LayoutPosition>,
    has_text: Seq<bool>,
    redraw_text: Seq<bool>,
    updated: Seq<bool>,
) -> Seq<PositionedRectangle> {
    rects_upto(
        state0,
        tree,
        styles,
        widths,
        heights,
        pos_x,
        pos_y,
        positions,
        has_text,
        redraw_text,
        updated,
        tree.parents_ordered@.len() as int,
    )
}

/// The rectangle finaliser: merges the solved sizes, positions and
/// offsets of every parent in the update set and of its children into
/// their positioned rectangles, with per-axis overflow metadata.
pub fn position_nodes(
    rects: Vec<PositionedRectangle>,
    tree: &NodeHierarchy,
    styles: &Vec<NodeStyle>,
    widths: &Vec<AxisRect>,
    heights: &Vec<AxisRect>,
    pos_x: &Vec<Px>,
    pos_y: &Vec<Px>,
    positions: &Vec<LayoutPosition>,
    has_text: &Vec<bool>,
    redraw_text: &Vec<bool>,
    updated: &Vec<bool>,
) -> (r: Vec<PositionedRectangle>)
    requires
        tree.wf(),
        rects@.len() == tree.n(),
        styles@.len() == tree.n(),
        widths@.len() == tree.n(),
        heights@.len() == tree.n(),
        pos_x@.len() == tree.n(),
        pos_y@.len() == tree.n(),
        positions@.len() == tree.n(),
        has_text@.len() == tree.n(),
        redraw_text@.len() == tree.n(),
        updated@.len() == tree.n(),
    ensures
        r@ == spec_position_nodes(
            rects@,
            *tree,
            styles@,
            widths@,
            heights@,
            pos_x@,
            pos_y@,
            positions@,
            has_text@,
            redraw_text@,
            updated@,
        ),
        r@.len() == tree.n(),
{
    let ghost state0 = rects@;
    let mut rects = rects;
    let num_parents = tree.parents_ordered.len();
    let mut k: usize = 0;
    while k < num_parents
        invariant
            k <= num_parents,
            num_parents == tree.parents_ordered@.len(),
            tree.wf(),
            styles@.len() == tree.n(),
            widths@.len() == tree.n(),
            heights@.len() == tree.n(),
            pos_x@.len() == tree.n(),
            pos_y@.len() == tree.n(),
            positions@.len() == tree.n(),
            has_text@.len() == tree.n(),
            redraw_text@.len() == tree.n(),
            updated@.len() == tree.n(),
            rects@.len() == tree.n(),
            rects@ == rects_upto(
                state0,
                *tree,
                styles@,
                widths@,
                heights@,
                pos_x@,
                pos_y@,
                positions@,
                has_text@,
                redraw_text@,
                updated@,
                k as int,
            ),
        decreases num_parents - k,
    {
        let p = tree.parents_ordered[k];
        if updated[p] {
            let ghost step0 = rects@;
            let ghost kids = tree.children@[p as int]@;
            let root_x = pos_x[0];
            let root_y = pos_y[0];
            let num_kids = tree.children[p].len();
            let mut j: usize = 0;
            let mut children_sum: Option<LayoutRect> = None;
            while j < num_kids
                invariant
                    j <= num_kids,
                    num_kids == kids.len(),
                    kids == tree.children@[p as int]@,
                    tree.wf(),
                    (p as int) < tree.n(),
                    styles@.len() == tree.n(),
                    widths@.len() == tree.n(),
                    heights@.len() == tree.n(),
                    pos_x@.len() == tree.n(),
                    pos_y@.len() == tree.n(),
                    positions@.len() == tree.n(),
                    has_text@.len() == tree.n(),
                    redraw_text@.len() == tree.n(),
                    step0.len() == tree.n(),
                    rects@.len() == tree.n(),
                    root_x == pos_x@[0],
                    root_y == pos_y@[0],
                    rects@ == rects_children_upto(
                        step0,
                        styles@,
                        widths@,
                        heights@,
                        pos_x@,
                        pos_y@,
                        positions@,
                        has_text@,
                        redraw_text@,
                        kids,
                        j as int,
                        p as int,
                        root_x as int,
                        root_y as int,
                    ),
                    children_sum == children_sum_rect_upto(
                        widths@,
                        heights@,
                        pos_x@,
                        pos_y@,
                        kids,
                        j as int,
                    ),
                decreases num_kids - j,
            {
                let c = tree.children[p][j];
                let child_rect = LayoutRect {
                    x: pos_x[c],
                    y: pos_y[c],
                    width: widths[c].total(),
                    height: heights[c].total(),
                };
                children_sum = match children_sum {
                    Some(acc) => Some(acc.union(&child_rect)),
                    None => Some(child_rect),
                };
                let pw = widths[p].total();
                let ph = heights[p].total();
                let text: Option<TextLayoutOptions> = if has_text[c] {
                    if redraw_text[c] {
                        Some(text_layout_options(&styles[c], widths[c].total()))
                    } else {
                        rects[c].resolved_text_layout_options
                    }
                } else {
                    None
                };
                let mode = positions[c];
                let new_rect = PositionedRectangle {
                    size_width: widths[c].total(),
                    size_height: heights[c].total(),
                    position: match mode {
                        LayoutPosition::Static => PositionInfo::Static {
                            x_offset: sat_sub(pos_x[c], pos_x[p]),
                            y_offset: sat_sub(pos_y[c], pos_y[p]),
                            static_x_offset: pos_x[c],
                            static_y_offset: pos_y[c],
                        },
                        LayoutPosition::Relative => PositionInfo::Relative {
                            x_offset: sat_sub(pos_x[c], pos_x[p]),
                            y_offset: sat_sub(pos_y[c], pos_y[p]),
                            static_x_offset: pos_x[c],
                            static_y_offset: pos_y[c],
                        },
                        LayoutPosition::Absolute => PositionInfo::Absolute {
                            x_offset: sat_sub(pos_x[c], root_x),
                            y_offset: sat_sub(pos_y[c], root_y),
                            static_x_offset: pos_x[c],
                            static_y_offset: pos_y[c],
                        },
                        LayoutPosition::Fixed => PositionInfo::Fixed {
                            x_offset: pos_x[c],
                            y_offset: pos_y[c],
                            static_x_offset: pos_x[c],
                            static_y_offset: pos_y[c],
                        },
                    },
                    padding: LayoutPaddingOffsets {
                        left: styles[c].padding_left,
                        right: styles[c].padding_right,
                        top: styles[c].padding_top,
                        bottom: styles[c].padding_bottom,
                    }.resolve(pw, ph),
                    margin: LayoutMarginOffsets {
                        left: styles[c].margin_left,
                        right: styles[c].margin_right,
                        top: styles[c].margin_top,
                        bottom: styles[c].margin_bottom,
                    }.resolve(pw, ph),
                    border_widths: LayoutBorderOffsets {
                        left: styles[c].border_left_width,
                        right: styles[c].border_right_width,
                        top: styles[c].border_top_width,
                        bottom: styles[c].border_bottom_width,
                    }.resolve(pw, ph),
                    resolved_text_layout_options: text,
                    overflow: get_overflow(
                        &styles[c].overflow_x,
                        &styles[c].overflow_y,
                        &child_rect,
                        &None,
                    ),
                };
                rects.set(c, new_rect);
                j += 1;
            }
            let pp: usize = if p == 0 {
                0
            } else {
                tree.parent[p]
            };
            let ppw = widths[pp].total();
            let pph = heights[pp].total();
            let parent_sum_rect = LayoutRect {
                x: pos_x[p],
                y: pos_y[p],
                width: widths[p].total(),
                height: heights[p].total(),
            };
            let parent_rect = PositionedRectangle {
                size_width: widths[p].total(),
                size_height: heights[p].total(),
                position: match positions[p] {
                    LayoutPosition::Static => PositionInfo::Static {
                        x_offset: sat_sub(pos_x[p], pos_x[pp]),
                        y_offset: sat_sub(pos_y[p], pos_y[pp]),
                        static_x_offset: pos_x[p],
                        static_y_offset: pos_y[p],
                    },
                    LayoutPosition::Relative => PositionInfo::Relative {
                        x_offset: sat_sub(pos_x[p], pos_x[pp]),
                        y_offset: sat_sub(pos_y[p], pos_y[pp]),
                        static_x_offset: pos_x[p],
                        static_y_offset: pos_y[p],
                    },
                    LayoutPosition::Absolute => PositionInfo::Absolute {
                        x_offset: sat_sub(pos_x[p], root_x),
                        y_offset: sat_sub(pos_y[p], root_y),
                        static_x_offset: pos_x[p],
                        static_y_offset: pos_y[p],
                    },
                    LayoutPosition::Fixed => PositionInfo::Fixed {
                        x_offset: pos_x[p],
                        y_offset: pos_y[p],
                        static_x_offset: pos_x[p],
                        static_y_offset: pos_y[p],
                    },
                },
                padding: LayoutPaddingOffsets {
                    left: styles[p].padding_left,
                    right: styles[p].padding_right,
                    top: styles[p].padding_top,
                    bottom: styles[p].padding_bottom,
                }.resolve(ppw, pph),
                margin: LayoutMarginOffsets {
                    left: styles[p].margin_left,
                    right: styles[p].margin_right,
                    top: styles[p].margin_top,
                    bottom: styles[p].margin_bottom,
                }.resolve(ppw, pph),
                border_widths: LayoutBorderOffsets {
                    left: styles[p].border_left_width,
                    right: styles[p].border_right_width,
                    top: styles[p].border_top_width,
                    bottom: styles[p].border_bottom_width,
                }.resolve(ppw, pph),
                resolved_text_layout_options: rects[p].resolved_text_layout_options,
                overflow: get_overflow(
                    &styles[p].overflow_x,
                    &styles[p].overflow_y,
                    &parent_sum_rect,
                    &children_sum,
                ),
            };
            rects.set(p, parent_rect);
        }
        k += 1;
    }
    rects
}

} // verus!
