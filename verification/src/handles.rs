//! Transform handles of selected items: which handle is hovered, pressed or
//! dragged.

use vstd::prelude::*;

verus! {

/// A transform handle. Hit priority: corners, then rotation, then the flip
/// edges.
#[derive(Debug, Clone, Copy, PartialEq, Eq, Structural)]
pub enum Handle {
    NoHandle,
    ResizeTopLeft,
    ResizeTopRight,
    ResizeBottomLeft,
    ResizeBottomRight,
    Rotate,
    /// Horizontal flip (middle of the left and right edges).
    FlipH,
    /// Vertical flip (middle of the top and bottom edges).
    FlipV,
}

/// The handle that a pointer hits, given which handle squares contain it, in
/// the order top-left, top-right, bottom-left, bottom-right corner, rotation,
/// top, bottom, left, right edge middle. Corners come first, then rotation,
/// then (only when `show_flip`) the vertical flip edges, then the horizontal
/// ones.
pub open spec fn handle_hit(hits: Seq<bool>, show_flip: bool) -> Handle {
    if hits[0] {
        Handle::ResizeTopLeft
    } else if hits[1] {
        Handle::ResizeTopRight
    } else if hits[2] {
        Handle::ResizeBottomLeft
    } else if hits[3] {
        Handle::ResizeBottomRight
    } else if hits[4] {
        Handle::Rotate
    } else if show_flip && (hits[5] || hits[6]) {
        Handle::FlipV
    } else if show_flip && (hits[7] || hits[8]) {
        Handle::FlipH
    } else {
        Handle::NoHandle
    }
}

/// The handle of the topmost item that hits one, given each selected item's
/// hit from bottom to top; `None` if none does.
pub open spec fn topmost_hit(hits: Seq<Handle>) -> Handle
    decreases hits.len(),
{
    if hits.len() == 0 {
        Handle::NoHandle
    } else if hits.last() != Handle::NoHandle {
        hits.last()
    } else {
        topmost_hit(hits.drop_last())
    }
}

/// The picked handle names the square that was hit, in the order top-left,
/// top-right, bottom-left, bottom-right corner, rotation, top, bottom, left,
/// right edge middle: a corner square picks that corner's resize handle
/// before anything else, then the rotation square picks rotation, then (only
/// when flips are shown) a top or bottom middle picks the vertical flip and a
/// left or right middle the horizontal flip; no square hit picks nothing.
pub proof fn law_pick_names_the_hit_square(hits: Seq<bool>, show_flip: bool)
    requires
        hits.len() == 9,
    ensures
        hits[0] ==> handle_hit(hits, show_flip) == Handle::ResizeTopLeft,
        !hits[0] && hits[1] ==> handle_hit(hits, show_flip) == Handle::ResizeTopRight,
        !hits[0] && !hits[1] && hits[2] ==> handle_hit(hits, show_flip) == Handle::ResizeBottomLeft,
        !hits[0] && !hits[1] && !hits[2] && hits[3] ==> handle_hit(hits, show_flip) == Handle::ResizeBottomRight,
        !hits[0] && !hits[1] && !hits[2] && !hits[3] && hits[4] ==> handle_hit(hits, show_flip) == Handle::Rotate,
        !hits[0] && !hits[1] && !hits[2] && !hits[3] && !hits[4] && show_flip && (hits[5] || hits[6])
            ==> handle_hit(hits, show_flip) == Handle::FlipV,
        !hits[0] && !hits[1] && !hits[2] && !hits[3] && !hits[4] && show_flip && !hits[5] && !hits[6] && (hits[7] || hits[8])
            ==> handle_hit(hits, show_flip) == Handle::FlipH,
        !hits[0] && !hits[1] && !hits[2] && !hits[3] && !hits[4] && !show_flip
            ==> handle_hit(hits, show_flip) == Handle::NoHandle,
        !hits[0] && !hits[1] && !hits[2] && !hits[3] && !hits[4] && !hits[5] && !hits[6] && !hits[7] && !hits[8]
            ==> handle_hit(hits, show_flip) == Handle::NoHandle,
        handle_hit(hits, show_flip) is FlipH || handle_hit(hits, show_flip) is FlipV ==> show_flip,
{
}

/// The hovered handle is that of the topmost item that hits one: nothing
/// when no item does, else the hit of the last item (bottom to top) whose hit
/// is a handle.
pub proof fn law_hover_is_topmost_hit(hits: Seq<Handle>)
    ensures
        topmost_hit(hits) == Handle::NoHandle <==> forall|i: int| 0 <= i < hits.len() ==> #[trigger] hits[i] == Handle::NoHandle,
        topmost_hit(hits) != Handle::NoHandle ==> exists|i: int| 0 <= i < hits.len() && #[trigger] hits[i] == topmost_hit(hits)
            && forall|j: int| i < j < hits.len() ==> #[trigger] hits[j] == Handle::NoHandle,
    decreases hits.len(),
{
    if hits.len() > 0 {
        let rest = hits.drop_last();
        law_hover_is_topmost_hit(rest);
        let last = hits.len() - 1;
        if hits.last() != Handle::NoHandle {
            assert(hits[last] == topmost_hit(hits));
        } else {
            assert forall|i: int| 0 <= i < rest.len() implies #[trigger] rest[i] == hits[i] by {}
            if topmost_hit(hits) != Handle::NoHandle {
                let i = choose|i: int| 0 <= i < rest.len() && #[trigger] rest[i] == topmost_hit(rest)
                    && forall|j: int| i < j < rest.len() ==> #[trigger] rest[j] == Handle::NoHandle;
                assert(hits[i] == rest[i]);
                assert forall|j: int| i < j < hits.len() implies #[trigger] hits[j] == Handle::NoHandle by {
                    if j < rest.len() {
                        assert(rest[j] == hits[j]);
                    }
                }
            }
            if forall|i: int| 0 <= i < rest.len() ==> #[trigger] rest[i] == Handle::NoHandle {
                assert forall|i: int| 0 <= i < hits.len() implies #[trigger] hits[i] == Handle::NoHandle by {
                    if i < rest.len() {
                        assert(rest[i] == hits[i]);
                    }
                }
            }
            if forall|i: int| 0 <= i < hits.len() ==> #[trigger] hits[i] == Handle::NoHandle {
                assert forall|i: int| 0 <= i < rest.len() implies #[trigger] rest[i] == Handle::NoHandle by {
                    assert(rest[i] == hits[i]);
                }
            }
        }
    }
}

#[derive(Debug, Clone, Copy)]
pub struct TransformHandles {
    pub active_handle: Handle,
    pub hover_handle: Handle,
    pub is_dragging: bool,
}

impl Default for TransformHandles {
    /// No handle active or hovered, no drag.
    fn default() -> (r: Self)
        ensures
            r.active_handle == Handle::NoHandle,
            r.hover_handle == Handle::NoHandle,
            !r.is_dragging,
    {
        TransformHandles { active_handle: Handle::NoHandle, hover_handle: Handle::NoHandle, is_dragging: false }
    }
}

impl TransformHandles {
    /// No handle active or hovered, no drag.
    pub fn new() -> (r: Self)
        ensures
            r.active_handle == Handle::NoHandle,
            r.hover_handle == Handle::NoHandle,
            !r.is_dragging,
    {
        Self::default()
    }

    /// Ends a drag, keeping the active handle so that the next frame's hover
    /// can go on from it.
    pub fn end_drag(&mut self)
        ensures
            !final(self).is_dragging,
            final(self).active_handle == old(self).active_handle,
            final(self).hover_handle == old(self).hover_handle,
    {
        self.is_dragging = false;
    }

    /// The handle hit by a pointer, given which of the nine handle squares
    /// contain it (see [`handle_hit`]).
    pub fn pick(hits: &[bool; 9], show_flip: bool) -> (r: Handle)
        ensures
            r == handle_hit(hits@, show_flip),
            hits@[0] ==> r == Handle::ResizeTopLeft,
            !hits@[0] && hits@[1] ==> r == Handle::ResizeTopRight,
            !hits@[0] && !hits@[1] && hits@[2] ==> r == Handle::ResizeBottomLeft,
            !hits@[0] && !hits@[1] && !hits@[2] && hits@[3] ==> r == Handle::ResizeBottomRight,
            !hits@[0] && !hits@[1] && !hits@[2] && !hits@[3] && hits@[4] ==> r == Handle::Rotate,
    {
        if hits[0] {
            Handle::ResizeTopLeft
        } else if hits[1] {
            Handle::ResizeTopRight
        } else if hits[2] {
            Handle::ResizeBottomLeft
        } else if hits[3] {
            Handle::ResizeBottomRight
        } else if hits[4] {
            Handle::Rotate
        } else if show_flip && (hits[5] || hits[6]) {
            Handle::FlipV
        } else if show_flip && (hits[7] || hits[8]) {
            Handle::FlipH
        } else {
            Handle::NoHandle
        }
    }

    /// Updates only the hovered handle, from each selected item's hit
    /// (bottom to top): the topmost item's hit wins. The active handle is left
    /// alone; a press sets it.
    pub fn set_hover(&mut self, hits: &[Handle])
        ensures
            final(self).hover_handle == topmost_hit(hits@),
            final(self).active_handle == old(self).active_handle,
            final(self).is_dragging == old(self).is_dragging,
    {
        let mut found = Handle::NoHandle;
        let mut i: usize = hits.len();
        proof {
            assert(hits@.take(i as int) == hits@);
        }
        while i > 0 && found == Handle::NoHandle
            invariant
                i <= hits@.len(),
                found == Handle::NoHandle ==> topmost_hit(hits@) == topmost_hit(hits@.take(i as int)),
                found != Handle::NoHandle ==> topmost_hit(hits@) == found,
            decreases i,
        {
            proof {
                assert(hits@.take(i as int).drop_last() == hits@.take(i as int - 1));
            }
            if hits[i - 1] != Handle::NoHandle {
                found = hits[i - 1];
            }
            i = i - 1;
        }
        self.hover_handle = found;
    }
}

} // verus!
