//! The resolved style model the solver consumes.
//!
//! The caller hands the solver one `NodeStyle` record per node: the already
//! cascaded values of the box properties the layout passes read. A missing
//! property means "use the default": flex-grow defaults to 1, flex-direction
//! to column, justify-content to start, position to static and overflow to
//! visible. The extraction functions below turn the per-node records into the
//! flat per-property arrays the passes iterate over.

use vstd::prelude::*;

use crate::px::{percent_of, percent_of_spec, Px};

verus! {

/// A CSS length: either a fixed number of pixels or a percentage of the
/// reference (usually parent) length.
#[derive(Clone, Copy, Debug, PartialEq, Eq, Structural)]
pub enum PixelValue {
    Pixels(Px),
    Percent(Px),
}

impl PixelValue {
    /// The resolved pixel value of this length against the given reference.
    pub open spec fn to_pixels_spec(self, reference: int) -> int {
        match self {
            PixelValue::Pixels(v) => v as int,
            PixelValue::Percent(p) => percent_of_spec(reference, p as int),
        }
    }

    /// Resolves this length against the given reference length.
    pub fn to_pixels(&self, reference: Px) -> (r: Px)
        ensures
            r as int == self.to_pixels_spec(reference as int),
    {
        match self {
            PixelValue::Pixels(v) => *v,
            PixelValue::Percent(p) => percent_of(reference, *p),
        }
    }
}

/// The resolved pixel value of an optional length, zero when absent.
pub open spec fn opt_to_pixels_spec(v: Option<PixelValue>, reference: int) -> int {
    match v {
        Some(pv) => pv.to_pixels_spec(reference),
        None => 0,
    }
}

/// Resolves an optional length against a reference, zero when absent.
pub fn opt_to_pixels(v: &Option<PixelValue>, reference: Px) -> (r: Px)
    ensures
        r as int == opt_to_pixels_spec(*v, reference as int),
{
    match v {
        Some(pv) => pv.to_pixels(reference),
        None => 0,
    }
}

/// The CSS position mode of a node.
#[derive(Clone, Copy, Debug, PartialEq, Eq, Structural)]
pub enum LayoutPosition {
    Static,
    Relative,
    Absolute,
    Fixed,
}

/// The flex-direction of a container.
#[derive(Clone, Copy, Debug, PartialEq, Eq, Structural)]
pub enum LayoutFlexDirection {
    Row,
    RowReverse,
    Column,
    ColumnReverse,
}

/// One of the two layout axes.
#[derive(Clone, Copy, Debug, PartialEq, Eq, Structural)]
pub enum LayoutAxis {
    Horizontal,
    Vertical,
}

impl LayoutFlexDirection {
    /// The main axis of a container with this flex-direction.
    pub open spec fn axis_spec(self) -> LayoutAxis {
        match self {
            LayoutFlexDirection::Row | LayoutFlexDirection::RowReverse => LayoutAxis::Horizontal,
            LayoutFlexDirection::Column | LayoutFlexDirection::ColumnReverse => LayoutAxis::Vertical,
        }
    }

    /// The main axis of a container with this flex-direction.
    pub fn get_axis(&self) -> (r: LayoutAxis)
        ensures
            r == self.axis_spec(),
    {
        match self {
            LayoutFlexDirection::Row | LayoutFlexDirection::RowReverse => LayoutAxis::Horizontal,
            LayoutFlexDirection::Column | LayoutFlexDirection::ColumnReverse => LayoutAxis::Vertical,
        }
    }

    /// Whether children are laid out in reverse document order.
    pub open spec fn is_reverse_spec(self) -> bool {
        self == LayoutFlexDirection::RowReverse || self == LayoutFlexDirection::ColumnReverse
    }

    /// Whether children are laid out in reverse document order.
    pub fn is_reverse(&self) -> (r: bool)
        ensures
            r == self.is_reverse_spec(),
    {
        match self {
            LayoutFlexDirection::RowReverse | LayoutFlexDirection::ColumnReverse => true,
            _ => false,
        }
    }
}

/// Main-axis alignment of a container's children.
#[derive(Clone, Copy, Debug, PartialEq, Eq, Structural)]
pub enum LayoutJustifyContent {
    Start,
    End,
    Center,
    SpaceBetween,
    SpaceAround,
    SpaceEvenly,
}

/// Overflow behaviour of a node on one axis.
#[derive(Clone, Copy, Debug, PartialEq, Eq, Structural)]
pub enum LayoutOverflow {
    Scroll,
    Auto,
    Hidden,
    Visible,
}

/// Cross-axis alignment of a container's children.
#[derive(Clone, Copy, Debug, PartialEq, Eq, Structural)]
pub enum LayoutAlignItems {
    Stretch,
    Center,
    FlexStart,
    FlexEnd,
}

/// Horizontal text alignment inside a node.
#[derive(Clone, Copy, Debug, PartialEq, Eq, Structural)]
pub enum StyleTextAlignmentHorz {
    Left,
    Center,
    Right,
}

/// Vertical text alignment inside a node.
#[derive(Clone, Copy, Debug, PartialEq, Eq, Structural)]
pub enum StyleTextAlignmentVert {
    Top,
    Center,
    Bottom,
}

/// The resolved style properties of one node that layout reads.
///
/// `None` means the property was not set; each reader applies that
/// property's default.
#[derive(Clone, Debug, PartialEq, Eq, Structural)]
pub struct NodeStyle {
    pub width: Option<PixelValue>,
    pub min_width: Option<PixelValue>,
    pub max_width: Option<PixelValue>,
    pub height: Option<PixelValue>,
    pub min_height: Option<PixelValue>,
    pub max_height: Option<PixelValue>,
    pub padding_left: Option<PixelValue>,
    pub padding_right: Option<PixelValue>,
    pub padding_top: Option<PixelValue>,
    pub padding_bottom: Option<PixelValue>,
    pub margin_left: Option<PixelValue>,
    pub margin_right: Option<PixelValue>,
    pub margin_top: Option<PixelValue>,
    pub margin_bottom: Option<PixelValue>,
    pub border_left_width: Option<PixelValue>,
    pub border_right_width: Option<PixelValue>,
    pub border_top_width: Option<PixelValue>,
    pub border_bottom_width: Option<PixelValue>,
    pub left: Option<PixelValue>,
    pub right: Option<PixelValue>,
    pub top: Option<PixelValue>,
    pub bottom: Option<PixelValue>,
    pub position: Option<LayoutPosition>,
    pub flex_grow: Option<u32>,
    pub flex_direction: Option<LayoutFlexDirection>,
    pub justify_content: Option<LayoutJustifyContent>,
    pub overflow_x: Option<LayoutOverflow>,
    pub overflow_y: Option<LayoutOverflow>,
    pub align_items: Option<LayoutAlignItems>,
    pub text_align: Option<StyleTextAlignmentHorz>,
    pub font_size: Option<PixelValue>,
    pub letter_spacing: Option<PixelValue>,
    pub word_spacing: Option<PixelValue>,
    pub line_height: Option<Px>,
    pub tab_width: Option<Px>,
}

impl NodeStyle {
    /// A style record with every property unset.
    pub fn empty() -> (r: NodeStyle)
        ensures
            r == NodeStyle::empty_spec(),
    {
        NodeStyle {
            width: None,
            min_width: None,
            max_width: None,
            height: None,
            min_height: None,
            max_height: None,
            padding_left: None,
            padding_right: None,
            padding_top: None,
            padding_bottom: None,
            margin_left: None,
            margin_right: None,
            margin_top: None,
            margin_bottom: None,
            border_left_width: None,
            border_right_width: None,
            border_top_width: None,
            border_bottom_width: None,
            left: None,
            right: None,
            top: None,
            bottom: None,
            position: None,
            flex_grow: None,
            flex_direction: None,
            justify_content: None,
            overflow_x: None,
            overflow_y: None,
            align_items: None,
            text_align: None,
            font_size: None,
            letter_spacing: None,
            word_spacing: None,
            line_height: None,
            tab_width: None,
        }
    }

    /// A style record with every property unset.
    pub open spec fn empty_spec() -> NodeStyle {
        NodeStyle {
            width: None,
            min_width: None,
            max_width: None,
            height: None,
            min_height: None,
            max_height: None,
            padding_left: None,
            padding_right: None,
            padding_top: None,
            padding_bottom: None,
            margin_left: None,
            margin_right: None,
            margin_top: None,
            margin_bottom: None,
            border_left_width: None,
            border_right_width: None,
            border_top_width: None,
            border_bottom_width: None,
            left: None,
            right: None,
            top: None,
            bottom: None,
            position: None,
            flex_grow: None,
            flex_direction: None,
            justify_content: None,
            overflow_x: None,
            overflow_y: None,
            align_items: None,
            text_align: None,
            font_size: None,
            letter_spacing: None,
            word_spacing: None,
            line_height: None,
            tab_width: None,
        }
    }
}

/// The default position mode of a node whose `position` is unset.
pub open spec fn position_or_default(v: Option<LayoutPosition>) -> LayoutPosition {
    match v {
        Some(p) => p,
        None => LayoutPosition::Static,
    }
}

/// The default flex-grow factor of a node whose `flex-grow` is unset.
pub open spec fn flex_grow_or_default(v: Option<u32>) -> u32 {
    match v {
        Some(g) => g,
        None => 1u32,
    }
}

/// The default flex-direction of a container whose `flex-direction` is unset.
pub open spec fn flex_direction_or_default(v: Option<LayoutFlexDirection>) -> LayoutFlexDirection {
    match v {
        Some(d) => d,
        None => LayoutFlexDirection::Column,
    }
}

/// The default main-axis alignment of a container whose `justify-content` is
/// unset.
pub open spec fn justify_content_or_default(
    v: Option<LayoutJustifyContent>,
) -> LayoutJustifyContent {
    match v {
        Some(j) => j,
        None => LayoutJustifyContent::Start,
    }
}

/// The default overflow mode of a node whose `overflow` is unset.
pub open spec fn overflow_or_default(v: Option<LayoutOverflow>) -> LayoutOverflow {
    match v {
        Some(o) => o,
        None => LayoutOverflow::Visible,
    }
}

/// The position mode of every node, with the default applied.
pub fn get_layout_positions(styles: &Vec<NodeStyle>) -> (r: Vec<LayoutPosition>)
    ensures
        r@.len() == styles@.len(),
        forall|i: int|
            0 <= i < styles@.len() ==> r@[i] == position_or_default(styles@[i].position),
{
    let mut out: Vec<LayoutPosition> = Vec::new();
    let mut i: usize = 0;
    while i < styles.len()
        invariant
            i <= styles@.len(),
            out@.len() == i,
            forall|j: int| 0 <= j < i ==> out@[j] == position_or_default(styles@[j].position),
        decreases styles@.len() - i,
    {
        let v = match styles[i].position {
            Some(p) => p,
            None => LayoutPosition::Static,
        };
        out.push(v);
        i += 1;
    }
    out
}

/// The flex-grow factor of every node, with the default applied.
pub fn get_layout_flex_grows(styles: &Vec<NodeStyle>) -> (r: Vec<u32>)
    ensures
        r@.len() == styles@.len(),
        forall|i: int|
            0 <= i < styles@.len() ==> r@[i] == flex_grow_or_default(styles@[i].flex_grow),
{
    let mut out: Vec<u32> = Vec::new();
    let mut i: usize = 0;
    while i < styles.len()
        invariant
            i <= styles@.len(),
            out@.len() == i,
            forall|j: int| 0 <= j < i ==> out@[j] == flex_grow_or_default(styles@[j].flex_grow),
        decreases styles@.len() - i,
    {
        let v = match styles[i].flex_grow {
            Some(g) => g,
            None => 1u32,
        };
        out.push(v);
        i += 1;
    }
    out
}

/// The flex-direction of every node, with the default applied.
pub fn get_layout_flex_directions(styles: &Vec<NodeStyle>) -> (r: Vec<LayoutFlexDirection>)
    ensures
        r@.len() == styles@.len(),
        forall|i: int|
            0 <= i < styles@.len() ==> r@[i] == flex_direction_or_default(
                styles@[i].flex_direction,
            ),
{
    let mut out: Vec<LayoutFlexDirection> = Vec::new();
    let mut i: usize = 0;
    while i < styles.len()
        invariant
            i <= styles@.len(),
            out@.len() == i,
            forall|j: int|
                0 <= j < i ==> out@[j] == flex_direction_or_default(styles@[j].flex_direction),
        decreases styles@.len() - i,
    {
        let v = match styles[i].flex_direction {
            Some(d) => d,
            None => LayoutFlexDirection::Column,
        };
        out.push(v);
        i += 1;
    }
    out
}

/// The main-axis alignment of every node, with the default applied.
pub fn get_layout_justify_contents(styles: &Vec<NodeStyle>) -> (r: Vec<LayoutJustifyContent>)
    ensures
        r@.len() == styles@.len(),
        forall|i: int|
            0 <= i < styles@.len() ==> r@[i] == justify_content_or_default(
                styles@[i].justify_content,
            ),
{
    let mut out: Vec<LayoutJustifyContent> = Vec::new();
    let mut i: usize = 0;
    while i < styles.len()
        invariant
            i <= styles@.len(),
            out@.len() == i,
            forall|j: int|
                0 <= j < i ==> out@[j] == justify_content_or_default(styles@[j].justify_content),
        decreases styles@.len() - i,
    {
        let v = match styles[i].justify_content {
            Some(j) => j,
            None => LayoutJustifyContent::Start,
        };
        out.push(v);
        i += 1;
    }
    out
}

} // verus!
