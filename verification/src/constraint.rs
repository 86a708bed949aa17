//! Per-axis size constraints and the preferred-size resolver.
//!
//! A node's raw `width`/`min-width`/`max-width` (or the height family) is
//! reduced to a `WhConstraint`: an exact size, a range, or unconstrained.
//! When both a minimum and a maximum are given and the minimum exceeds the
//! maximum, the maximum wins (both collapse to the maximum). An explicit
//! size is clamped into the resulting range; with no explicit size an
//! intrinsic content size is adopted when it lies strictly between the
//! bounds.

use vstd::prelude::*;

use crate::px::{
    max_px, max_px_spec, min_px, min_px_spec, sat_add, sat_add_spec, Px,
};
use crate::style::{opt_to_pixels, opt_to_pixels_spec, NodeStyle, PixelValue};

verus! {

/// The stand-in for an unbounded maximum size.
pub const UNBOUNDED_PX: Px = 0x7fff_ffff_ffff_ffff;

/// The resolved size constraint of a node on one axis.
#[derive(Clone, Copy, Debug, PartialEq, Eq, Structural)]
pub enum WhConstraint {
    /// Neither an explicit size nor any bound applies.
    Unconstrained,
    /// The node must resolve to exactly this many pixels.
    EqualTo(Px),
    /// The node may resolve to anything in this inclusive range.
    Between(Px, Px),
}

impl WhConstraint {
    /// The least space this constraint demands, none when unconstrained.
    pub open spec fn min_needed_space_spec(self) -> Option<int> {
        match self {
            WhConstraint::Between(min, _) => Some(min as int),
            WhConstraint::EqualTo(exact) => Some(exact as int),
            WhConstraint::Unconstrained => None,
        }
    }

    /// The least space this constraint demands, none when unconstrained.
    pub fn min_needed_space(&self) -> (r: Option<Px>)
        ensures
            match r {
                Some(v) => self.min_needed_space_spec() == Some(v as int),
                None => self.min_needed_space_spec() is None,
            },
    {
        match self {
            WhConstraint::Between(min, _) => Some(*min),
            WhConstraint::EqualTo(exact) => Some(*exact),
            WhConstraint::Unconstrained => None,
        }
    }

    /// The most space this constraint allows, none when unconstrained.
    pub open spec fn max_available_space_spec(self) -> Option<int> {
        match self {
            WhConstraint::Between(_, max) => Some(max as int),
            WhConstraint::EqualTo(exact) => Some(exact as int),
            WhConstraint::Unconstrained => None,
        }
    }

    /// The most space this constraint allows, none when unconstrained.
    pub fn max_available_space(&self) -> (r: Option<Px>)
        ensures
            match r {
                Some(v) => self.max_available_space_spec() == Some(v as int),
                None => self.max_available_space_spec() is None,
            },
    {
        match self {
            WhConstraint::Between(_, max) => Some(*max),
            WhConstraint::EqualTo(exact) => Some(*exact),
            WhConstraint::Unconstrained => None,
        }
    }

    /// Whether this constraint pins the size to one value.
    pub open spec fn is_fixed_constraint_spec(self) -> bool {
        self is EqualTo
    }

    /// Whether this constraint pins the size to one value.
    pub fn is_fixed_constraint(&self) -> (r: bool)
        ensures
            r == self.is_fixed_constraint_spec(),
    {
        match self {
            WhConstraint::EqualTo(_) => true,
            _ => false,
        }
    }
}

/// The raw explicit/min/max sizes of one node on one axis.
#[derive(Clone, Copy, Debug, PartialEq, Eq, Structural)]
pub struct AxisConfig {
    pub exact: Option<PixelValue>,
    pub min: Option<PixelValue>,
    pub max: Option<PixelValue>,
}

/// The margin, padding and position offsets of one node on one axis.
///
/// `start`/`end` are left/right on the horizontal axis and top/bottom on
/// the vertical axis.
#[derive(Clone, Copy, Debug, PartialEq, Eq, Structural)]
pub struct AxisOffsets {
    pub margin_start: Option<PixelValue>,
    pub margin_end: Option<PixelValue>,
    pub padding_start: Option<PixelValue>,
    pub padding_end: Option<PixelValue>,
    pub inset_start: Option<PixelValue>,
    pub inset_end: Option<PixelValue>,
}

/// The solver's working state for one node on one axis.
///
/// The final resolved size of the node on the axis is
/// `min_inner_size_px + flex_grow_px`.
#[derive(Clone, Copy, Debug, PartialEq, Eq, Structural)]
pub struct AxisRect {
    pub preferred: WhConstraint,
    pub margin_start: Option<PixelValue>,
    pub margin_end: Option<PixelValue>,
    pub padding_start: Option<PixelValue>,
    pub padding_end: Option<PixelValue>,
    pub inset_start: Option<PixelValue>,
    pub inset_end: Option<PixelValue>,
    pub flex_grow_px: Px,
    pub min_inner_size_px: Px,
}

impl AxisRect {
    /// The node's resolved size on this axis.
    pub open spec fn total_spec(self) -> int {
        sat_add_spec(self.min_inner_size_px as int, self.flex_grow_px as int)
    }

    /// The node's resolved size on this axis.
    pub fn total(&self) -> (r: Px)
        ensures
            r as int == self.total_spec(),
    {
        sat_add(self.min_inner_size_px, self.flex_grow_px)
    }

    /// The node's summed start and end padding, resolved against the given
    /// reference length.
    pub open spec fn padding_spec(self, reference: int) -> int {
        sat_add_spec(
            opt_to_pixels_spec(self.padding_start, reference),
            opt_to_pixels_spec(self.padding_end, reference),
        )
    }

    /// The node's summed start and end padding, resolved against the given
    /// reference length.
    pub fn get_padding(&self, reference: Px) -> (r: Px)
        ensures
            r as int == self.padding_spec(reference as int),
    {
        sat_add(
            opt_to_pixels(&self.padding_start, reference),
            opt_to_pixels(&self.padding_end, reference),
        )
    }

    /// The node's flex basis on this axis: the least space its constraint
    /// demands plus its margins.
    pub open spec fn flex_basis_spec(self, reference: int) -> int {
        sat_add_spec(
            sat_add_spec(
                match self.preferred.min_needed_space_spec() {
                    Some(v) => v,
                    None => 0,
                },
                opt_to_pixels_spec(self.margin_start, reference),
            ),
            opt_to_pixels_spec(self.margin_end, reference),
        )
    }

    /// The node's flex basis on this axis.
    pub fn get_flex_basis(&self, reference: Px) -> (r: Px)
        ensures
            r as int == self.flex_basis_spec(reference as int),
    {
        let base = match self.preferred.min_needed_space() {
            Some(v) => v,
            None => 0,
        };
        sat_add(
            sat_add(base, opt_to_pixels(&self.margin_start, reference)),
            opt_to_pixels(&self.margin_end, reference),
        )
    }
}

/// The resolved constraint of a node on one axis: the min/max bounds with
/// the max-wins rule applied, an explicit size clamped into them, and an
/// intrinsic content size adopted when no explicit size is set and the
/// intrinsic size lies strictly between the bounds.
pub open spec fn resolve_axis_spec(
    cfg: AxisConfig,
    intrinsic: Option<int>,
    parent: int,
) -> WhConstraint {
    let exact = match cfg.exact {
        Some(v) => Some(v.to_pixels_spec(parent)),
        None => None,
    };
    let mn = match cfg.min {
        Some(v) => Some(v.to_pixels_spec(parent)),
        None => None,
    };
    let mx = match cfg.max {
        Some(v) => Some(v.to_pixels_spec(parent)),
        None => None,
    };
    let amin = if mn is Some && mx is Some {
        if mn->0 < mx->0 {
            mn
        } else {
            mx
        }
    } else {
        mn
    };
    let amax = mx;
    let width = if exact is None && intrinsic is Some && intrinsic->0 > (
    match amin {
        Some(v) => v,
        None => 0,
    }) && (amax is None || intrinsic->0 < amax->0) {
        intrinsic
    } else {
        exact
    };
    match width {
        Some(w) => {
            let lo = match amin {
                Some(v) => max_px_spec(w, v),
                None => w,
            };
            let clamped = match amax {
                Some(v) => min_px_spec(lo, v),
                None => lo,
            };
            WhConstraint::EqualTo(clamped as Px)
        },
        None => {
            match amax {
                Some(mxv) => {
                    let lo = match amin {
                        Some(v) => v,
                        None => 0,
                    };
                    WhConstraint::Between(lo as Px, mxv as Px)
                },
                None => {
                    match amin {
                        Some(mnv) => WhConstraint::Between(mnv as Px, UNBOUNDED_PX),
                        None => WhConstraint::Unconstrained,
                    }
                },
            }
        },
    }
}

/// Resolves a node's explicit/min/max sizes and optional intrinsic content
/// size into a `WhConstraint` against the given parent length.
pub fn resolve_axis(cfg: &AxisConfig, intrinsic: Option<Px>, parent: Px) -> (r: WhConstraint)
    ensures
        r == resolve_axis_spec(
            *cfg,
            match intrinsic {
                Some(v) => Some(v as int),
                None => None,
            },
            parent as int,
        ),
{
    let exact: Option<Px> = match &cfg.exact {
        Some(v) => Some(v.to_pixels(parent)),
        None => None,
    };
    let mn: Option<Px> = match &cfg.min {
        Some(v) => Some(v.to_pixels(parent)),
        None => None,
    };
    let mx: Option<Px> = match &cfg.max {
        Some(v) => Some(v.to_pixels(parent)),
        None => None,
    };
    let amin: Option<Px> = match (mn, mx) {
        (Some(a), Some(b)) => if a < b {
            Some(a)
        } else {
            Some(b)
        },
        _ => mn,
    };
    let amax: Option<Px> = mx;
    let width: Option<Px> = match (exact, intrinsic) {
        (None, Some(p)) => {
            let lo_ok = match amin {
                Some(v) => p > v,
                None => p > 0,
            };
            let hi_ok = match amax {
                Some(v) => p < v,
                None => true,
            };
            if lo_ok && hi_ok {
                Some(p)
            } else {
                None
            }
        },
        _ => exact,
    };
    match width {
        Some(w) => {
            let lo = match amin {
                Some(v) => max_px(w, v),
                None => w,
            };
            let clamped = match amax {
                Some(v) => min_px(lo, v),
                None => lo,
            };
            WhConstraint::EqualTo(clamped)
        },
        None => {
            match amax {
                Some(mxv) => {
                    let lo = match amin {
                        Some(v) => v,
                        None => 0,
                    };
                    WhConstraint::Between(lo, mxv)
                },
                None => {
                    match amin {
                        Some(mnv) => WhConstraint::Between(mnv, UNBOUNDED_PX),
                        None => WhConstraint::Unconstrained,
                    }
                },
            }
        },
    }
}

/// The width-family raw sizes of a style record.
pub open spec fn width_config_of(s: NodeStyle) -> AxisConfig {
    AxisConfig { exact: s.width, min: s.min_width, max: s.max_width }
}

/// The height-family raw sizes of a style record.
pub open spec fn height_config_of(s: NodeStyle) -> AxisConfig {
    AxisConfig { exact: s.height, min: s.min_height, max: s.max_height }
}

/// The horizontal offsets of a style record.
pub open spec fn width_offsets_of(s: NodeStyle) -> AxisOffsets {
    AxisOffsets {
        margin_start: s.margin_left,
        margin_end: s.margin_right,
        padding_start: s.padding_left,
        padding_end: s.padding_right,
        inset_start: s.left,
        inset_end: s.right,
    }
}

/// The vertical offsets of a style record.
pub open spec fn height_offsets_of(s: NodeStyle) -> AxisOffsets {
    AxisOffsets {
        margin_start: s.margin_top,
        margin_end: s.margin_bottom,
        padding_start: s.padding_top,
        padding_end: s.padding_bottom,
        inset_start: s.top,
        inset_end: s.bottom,
    }
}

/// Extracts the per-node width and height size configurations from the
/// style records.
pub fn precalculate_wh_config(styles: &Vec<NodeStyle>) -> (r: (Vec<AxisConfig>, Vec<AxisConfig>))
    ensures
        r.0@.len() == styles@.len(),
        r.1@.len() == styles@.len(),
        forall|i: int| 0 <= i < styles@.len() ==> r.0@[i] == width_config_of(styles@[i]),
        forall|i: int| 0 <= i < styles@.len() ==> r.1@[i] == height_config_of(styles@[i]),
{
    let mut w: Vec<AxisConfig> = Vec::new();
    let mut h: Vec<AxisConfig> = Vec::new();
    let mut i: usize = 0;
    while i < styles.len()
        invariant
            i <= styles@.len(),
            w@.len() == i,
            h@.len() == i,
            forall|j: int| 0 <= j < i ==> w@[j] == width_config_of(styles@[j]),
            forall|j: int| 0 <= j < i ==> h@[j] == height_config_of(styles@[j]),
        decreases styles@.len() - i,
    {
        let s = &styles[i];
        w.push(AxisConfig { exact: s.width, min: s.min_width, max: s.max_width });
        h.push(AxisConfig { exact: s.height, min: s.min_height, max: s.max_height });
        i += 1;
    }
    (w, h)
}

/// Extracts the per-node horizontal and vertical offset records from the
/// style records.
pub fn precalculate_all_offsets(styles: &Vec<NodeStyle>) -> (r: (Vec<AxisOffsets>, Vec<AxisOffsets>))
    ensures
        r.0@.len() == styles@.len(),
        r.1@.len() == styles@.len(),
        forall|i: int| 0 <= i < styles@.len() ==> r.0@[i] == width_offsets_of(styles@[i]),
        forall|i: int| 0 <= i < styles@.len() ==> r.1@[i] == height_offsets_of(styles@[i]),
{
    let mut w: Vec<AxisOffsets> = Vec::new();
    let mut h: Vec<AxisOffsets> = Vec::new();
    let mut i: usize = 0;
    while i < styles.len()
        invariant
            i <= styles@.len(),
            w@.len() == i,
            h@.len() == i,
            forall|j: int| 0 <= j < i ==> w@[j] == width_offsets_of(styles@[j]),
            forall|j: int| 0 <= j < i ==> h@[j] == height_offsets_of(styles@[j]),
        decreases styles@.len() - i,
    {
        let s = &styles[i];
        w.push(AxisOffsets {
            margin_start: s.margin_left,
            margin_end: s.margin_right,
            padding_start: s.padding_left,
            padding_end: s.padding_right,
            inset_start: s.left,
            inset_end: s.right,
        });
        h.push(AxisOffsets {
            margin_start: s.margin_top,
            margin_end: s.margin_bottom,
            padding_start: s.padding_top,
            padding_end: s.padding_bottom,
            inset_start: s.top,
            inset_end: s.bottom,
        });
        i += 1;
    }
    (w, h)
}

} // verus!
