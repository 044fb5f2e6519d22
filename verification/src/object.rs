//! Obstacles: immutable axis-aligned rectangles.

use vstd::prelude::*;
use crate::fixed::OBJECT_LIMIT;
use crate::geometry::{Rect, Vec2};

verus! {

/// An obstacle, given by its top-left corner and its size.
#[derive(Clone, Copy, Debug, PartialEq, Eq, Structural)]
pub struct Object {
    pub position: Vec2,
    pub size: Vec2,
}

impl Object {
    /// Corner and size are small enough for every edge to be computed.
    pub open spec fn wf(self) -> bool {
        self.position.within(OBJECT_LIMIT as int) && self.size.within(OBJECT_LIMIT as int)
    }

    /// The rectangle the obstacle covers.
    pub open spec fn rect(self) -> Rect {
        Rect { x: self.position.x, y: self.position.y, width: self.size.x, height: self.size.y }
    }

    /// An obstacle with its top-left corner at `position`.
    pub fn new(position: Vec2, size: Vec2) -> (o: Object)
        ensures
            o == (Object { position, size }),
    {
        Object { position, size }
    }

    /// The rectangle the obstacle covers.
    pub fn get_rect(&self) -> (r: Rect)
        ensures
            r == self.rect(),
    {
        Rect { x: self.position.x, y: self.position.y, width: self.size.x, height: self.size.y }
    }
}

/// Every obstacle of the list is well formed.
pub open spec fn all_wf(objects: Seq<Object>) -> bool {
    forall|j: int| 0 <= j < objects.len() ==> (#[trigger] objects[j]).wf()
}

} // verus!
