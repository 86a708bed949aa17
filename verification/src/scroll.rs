//! Overflow and scroll detection.
//!
//! After the rectangles are final, every parent whose children's bounding
//! box extends beyond its own bounds on an axis whose overflow mode allows
//! scrolling (`scroll` or `auto`) is recorded as a scrollable node, with a
//! content rectangle of the parent's size grown by the overflow amount.
//! The scroll identity is the node's content hash combined with the
//! pipeline, so a scroll offset survives relayouts while the content is
//! stable; the hit-test tag is the node's existing tag when it has one,
//! else the tag it had in the previous scroll set, else a fresh one drawn
//! from a counter.

use vstd::prelude::*;

use crate::px::{sat_sub, sat_sub_spec, Px};
use crate::rects::{LayoutRect, PositionedRectangle};
use crate::tree::NodeHierarchy;

verus! {

/// The identity of the document a layout belongs to.
#[derive(Clone, Copy, Debug, PartialEq, Eq, Structural)]
pub struct PipelineId {
    pub namespace: u32,
    pub id: u32,
}

/// The externally stable identity of a scrollable node: the hash of the
/// node's content combined with the pipeline.
#[derive(Clone, Copy, Debug, PartialEq, Eq, Structural)]
pub struct ExternalScrollId {
    pub hash: u64,
    pub pipeline: PipelineId,
}

/// One scrollable node: its content rectangle including the overflow, its
/// stable scroll identity, its content hash and its hit-test tag.
#[derive(Clone, Copy, Debug, PartialEq, Eq, Structural)]
pub struct OverflowingScrollNode {
    pub child_rect: LayoutRect,
    pub parent_external_scroll_id: ExternalScrollId,
    pub parent_dom_hash: u64,
    pub scroll_tag_id: u64,
}

/// The scrollable nodes of one layout, by ascending node id, and the map
/// from hit-test tag to node id.
#[derive(Clone, Debug)]
pub struct ScrolledNodes {
    pub overflowing_nodes: Vec<(usize, OverflowingScrollNode)>,
    pub tags_to_node_ids: Vec<(u64, usize)>,
}

impl ScrolledNodes {
    /// An empty scroll set.
    pub fn new_empty() -> (r: ScrolledNodes)
        ensures
            r.overflowing_nodes@ == Seq::<(usize, OverflowingScrollNode)>::empty(),
            r.tags_to_node_ids@ == Seq::<(u64, usize)>::empty(),
    {
        ScrolledNodes { overflowing_nodes: Vec::new(), tags_to_node_ids: Vec::new() }
    }
}

/// Whether the overflow amount (leftover space) says the children extend
/// beyond the parent: a known negative leftover.
pub open spec fn overflows_spec(amount: Option<Px>) -> bool {
    match amount {
        Some(a) => a < 0,
        None => false,
    }
}

/// The content rectangle of a scrollable node: the parent's size grown by
/// the overflow amount on each overflowing scrollable axis, at the
/// origin. `None` when no axis both overflows and allows scrolling.
pub open spec fn scroll_rect_spec(rect: PositionedRectangle) -> Option<LayoutRect> {
    let ox = rect.overflow.overflow_x;
    let oy = rect.overflow.overflow_y;
    let x_over = overflows_spec(ox.amount_spec()) && ox.is_scrollable_spec();
    let y_over = overflows_spec(oy.amount_spec()) && oy.is_scrollable_spec();
    if x_over && y_over {
        Some(
            LayoutRect {
                x: 0,
                y: 0,
                width: sat_sub_spec(rect.size_width as int, ox.amount_spec()->0 as int) as Px,
                height: sat_sub_spec(rect.size_height as int, oy.amount_spec()->0 as int) as Px,
            },
        )
    } else if x_over {
        Some(
            LayoutRect {
                x: 0,
                y: 0,
                width: sat_sub_spec(rect.size_width as int, ox.amount_spec()->0 as int) as Px,
                height: rect.size_height,
            },
        )
    } else if y_over {
        Some(
            LayoutRect {
                x: 0,
                y: 0,
                width: rect.size_width,
                height: sat_sub_spec(rect.size_height as int, oy.amount_spec()->0 as int) as Px,
            },
        )
    } else {
        None
    }
}

/// Computes the content rectangle of a node if it is scrollable.
pub fn scroll_rect(rect: &PositionedRectangle) -> (r: Option<LayoutRect>)
    ensures
        r == scroll_rect_spec(*rect),
{
    let ax = rect.overflow.overflow_x.amount();
    let ay = rect.overflow.overflow_y.amount();
    let x_over = match ax {
        Some(a) => a < 0 && rect.overflow.overflow_x.is_scrollable(),
        None => false,
    };
    let y_over = match ay {
        Some(a) => a < 0 && rect.overflow.overflow_y.is_scrollable(),
        None => false,
    };
    if x_over && y_over {
        let sx = match ax {
            Some(a) => a,
            None => 0,
        };
        let sy = match ay {
            Some(a) => a,
            None => 0,
        };
        Some(
            LayoutRect {
                x: 0,
                y: 0,
                width: sat_sub(rect.size_width, sx),
                height: sat_sub(rect.size_height, sy),
            },
        )
    } else if x_over {
        let sx = match ax {
            Some(a) => a,
            None => 0,
        };
        Some(
            LayoutRect {
                x: 0,
                y: 0,
                width: sat_sub(rect.size_width, sx),
                height: rect.size_height,
            },
        )
    } else if y_over {
        let sy = match ay {
            Some(a) => a,
            None => 0,
        };
        Some(
            LayoutRect {
                x: 0,
                y: 0,
                width: rect.size_width,
                height: sat_sub(rect.size_height, sy),
            },
        )
    } else {
        None
    }
}

/// The tag the previous scroll set gave a node, when it had one.
pub open spec fn prev_tag_spec(
    entries: Seq<(usize, OverflowingScrollNode)>,
    node: int,
    k: int,
) -> Option<u64>
    decreases k,
{
    if k <= 0 {
        None
    } else {
        match prev_tag_spec(entries, node, k - 1) {
            Some(t) => Some(t),
            None => if (entries[k - 1].0 as int) == node {
                Some(entries[k - 1].1.scroll_tag_id)
            } else {
                None
            },
        }
    }
}

/// The hit-test tag of a scrollable node: its own tag, else the tag the
/// previous scroll set gave it, else the next fresh tag (the second
/// result says whether the counter was used).
pub open spec fn tag_for_spec(
    tag: Option<u64>,
    prev: Seq<(usize, OverflowingScrollNode)>,
    node: int,
    next_tag: int,
) -> (u64, bool) {
    match tag {
        Some(t) => (t, false),
        None => match prev_tag_spec(prev, node, prev.len() as int) {
            Some(t) => (t, false),
            None => ((next_tag as u64), true),
        },
    }
}

/// The scroll set after the first `k` parents have been examined, with
/// the next fresh tag value.
pub open spec fn scroll_upto(
    tree: NodeHierarchy,
    rects: Seq<PositionedRectangle>,
    hashes: Seq<u64>,
    tags: Seq<Option<u64>>,
    prev: Seq<(usize, OverflowingScrollNode)>,
    pipeline: PipelineId,
    k: int,
    tag_seed: int,
) -> (Seq<(usize, OverflowingScrollNode)>, Seq<(u64, usize)>, int)
    decreases k,
{
    if k <= 0 {
        (Seq::empty(), Seq::empty(), tag_seed)
    } else {
        let acc = scroll_upto(tree, rects, hashes, tags, prev, pipeline, k - 1, tag_seed);
        let p = tree.parents_ordered@[k - 1] as int;
        match scroll_rect_spec(rects[p]) {
            Some(rect) => {
                let tag_pick = tag_for_spec(tags[p], prev, p, acc.2);
                let node = OverflowingScrollNode {
                    child_rect: rect,
                    parent_external_scroll_id: ExternalScrollId {
                        hash: hashes[p],
                        pipeline,
                    },
                    parent_dom_hash: hashes[p],
                    scroll_tag_id: tag_pick.0,
                };
                (
                    acc.0.push((p as usize, node)),
                    acc.1.push((tag_pick.0, p as usize)),
                    if tag_pick.1 {
                        acc.2 + 1
                    } else {
                        acc.2
                    },
                )
            },
            None => acc,
        }
    }
}

/// The full scroll set of a layout.
pub open spec fn spec_scrolled_nodes(
    tree: NodeHierarchy,
    rects: Seq<PositionedRectangle>,
    hashes: Seq<u64>,
    tags: Seq<Option<u64>>,
    prev: Seq<(usize, OverflowingScrollNode)>,
    pipeline: PipelineId,
    tag_seed: int,
) -> (Seq<(usize, OverflowingScrollNode)>, Seq<(u64, usize)>, int) {
    scroll_upto(
        tree,
        rects,
        hashes,
        tags,
        prev,
        pipeline,
        tree.parents_ordered@.len() as int,
        tag_seed,
    )
}

/// Collects the scrollable nodes: every parent whose children overflow it
/// on a scrollable axis, with its content rectangle, stable scroll
/// identity and hit-test tag. Returns the scroll set and the next fresh
/// tag value.
pub fn get_nodes_that_need_scroll_clip(
    tree: &NodeHierarchy,
    rects: &Vec<PositionedRectangle>,
    hashes: &Vec<u64>,
    tags: &Vec<Option<u64>>,
    prev: &ScrolledNodes,
    pipeline: PipelineId,
    tag_seed: u64,
) -> (r: (ScrolledNodes, u64))
    requires
        tree.wf(),
        rects@.len() == tree.n(),
        hashes@.len() == tree.n(),
        tags@.len() == tree.n(),
        tag_seed + tree.parents_ordered@.len() <= u64::MAX,
    ensures
        ({
            let s = spec_scrolled_nodes(
                *tree,
                rects@,
                hashes@,
                tags@,
                prev.overflowing_nodes@,
                pipeline,
                tag_seed as int,
            );
            &&& r.0.overflowing_nodes@ == s.0
            &&& r.0.tags_to_node_ids@ == s.1
            &&& r.1 as int == s.2
        }),
{
    let mut nodes: Vec<(usize, OverflowingScrollNode)> = Vec::new();
    let mut tag_map: Vec<(u64, usize)> = Vec::new();
    let mut next_tag: u64 = tag_seed;
    let num_parents = tree.parents_ordered.len();
    let mut k: usize = 0;
    while k < num_parents
        invariant
            k <= num_parents,
            num_parents == tree.parents_ordered@.len(),
            tree.wf(),
            rects@.len() == tree.n(),
            hashes@.len() == tree.n(),
            tags@.len() == tree.n(),
            tag_seed + tree.parents_ordered@.len() <= u64::MAX,
            ({
                let s = scroll_upto(
                    *tree,
                    rects@,
                    hashes@,
                    tags@,
                    prev.overflowing_nodes@,
                    pipeline,
                    k as int,
                    tag_seed as int,
                );
                &&& nodes@ == s.0
                &&& tag_map@ == s.1
                &&& next_tag as int == s.2
                &&& s.2 <= tag_seed + k
            }),
        decreases num_parents - k,
    {
        let p = tree.parents_ordered[k];
        match scroll_rect(&rects[p]) {
            Some(rect) => {
                let picked: (u64, bool) = match tags[p] {
                    Some(t) => (t, false),
                    None => {
                        let mut found: Option<u64> = None;
                        let mut j: usize = 0;
                        let plen = prev.overflowing_nodes.len();
                        while j < plen
                            invariant
                                j <= plen,
                                plen == prev.overflowing_nodes@.len(),
                                found == prev_tag_spec(
                                    prev.overflowing_nodes@,
                                    p as int,
                                    j as int,
                                ),
                            decreases plen - j,
                        {
                            if found.is_none() && prev.overflowing_nodes[j].0 == p {
                                found = Some(prev.overflowing_nodes[j].1.scroll_tag_id);
                            }
                            j += 1;
                        }
                        match found {
                            Some(t) => (t, false),
                            None => (next_tag, true),
                        }
                    },
                };
                let node = OverflowingScrollNode {
                    child_rect: rect,
                    parent_external_scroll_id: ExternalScrollId { hash: hashes[p], pipeline },
                    parent_dom_hash: hashes[p],
                    scroll_tag_id: picked.0,
                };
                nodes.push((p, node));
                tag_map.push((picked.0, p));
                if picked.1 {
                    next_tag = next_tag + 1;
                }
            },
            None => {},
        }
        k += 1;
    }
    (ScrolledNodes { overflowing_nodes: nodes, tags_to_node_ids: tag_map }, next_tag)
}

} // verus!
