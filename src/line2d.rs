//! A 2D line segment whose thickness stays the same at every zoom level, drawn in the xy
//! plane as two triangles.

use vstd::prelude::*;

verus! {

/// A point on a render target, in physical pixels.
#[derive(Clone, Copy, Debug, PartialEq, Eq, Structural)]
pub struct PhysicalPoint {
    pub x: i32,
    pub y: i32,
}

/// A line segment from `start` to `end`, `thickness` pixels wide.
#[derive(Clone, Debug)]
pub struct Line2D {
    start: PhysicalPoint,
    end: PhysicalPoint,
    thickness: u32,
    positions: Vec<PhysicalPoint>,
    prev_positions: Vec<(PhysicalPoint, i8)>,
}

/// The corners of the two triangles of a segment, in drawing order: bottom right, bottom
/// left, top left, top left, top right, bottom right. The vertex shader pushes each corner
/// sideways by half the thickness.
pub open spec fn segment_positions(start: PhysicalPoint, end: PhysicalPoint) -> Seq<PhysicalPoint> {
    seq![end, start, start, start, end, end]
}

/// For each corner, the point that the vertex shader reads as its neighbour along the
/// segment: the corner plus (`1`) or minus (`-1`) the unit vector from start to end.
pub open spec fn segment_prev_positions(start: PhysicalPoint, end: PhysicalPoint) -> Seq<(PhysicalPoint, i8)> {
    seq![(end, 1i8), (start, 1i8), (start, -1i8), (start, -1i8), (end, -1i8), (end, 1i8)]
}

impl Line2D {
    pub closed spec fn spec_start(&self) -> PhysicalPoint {
        self.start
    }

    pub closed spec fn spec_end(&self) -> PhysicalPoint {
        self.end
    }

    pub closed spec fn spec_thickness(&self) -> u32 {
        self.thickness
    }

    pub closed spec fn wf(&self) -> bool {
        &&& self.thickness > 0
        &&& self.positions@ == segment_positions(self.start, self.end)
        &&& self.prev_positions@ == segment_prev_positions(self.start, self.end)
    }

    /// A segment from `start` to `end`; a segment has a thickness of at least one pixel.
    pub fn new(start: PhysicalPoint, end: PhysicalPoint, thickness: u32) -> (r: Line2D)
        requires
            thickness > 0,
        ensures
            r.wf(),
            r.spec_start() == start,
            r.spec_end() == end,
            r.spec_thickness() == thickness,
    {
        Line2D {
            start,
            end,
            thickness,
            positions: Line2D::positions(start, end),
            prev_positions: Line2D::prev_positions(start, end),
        }
    }

    /// The start point of the line.
    pub fn start(&self) -> (r: PhysicalPoint)
        ensures
            r == self.spec_start(),
    {
        self.start
    }

    /// The end point of the line.
    pub fn end(&self) -> (r: PhysicalPoint)
        ensures
            r == self.spec_end(),
    {
        self.end
    }

    /// The thickness of the line, in pixels.
    pub fn thickness(&self) -> (r: u32)
        ensures
            r == self.spec_thickness(),
    {
        self.thickness
    }

    /// The vertex positions of the two triangles that make up the segment.
    pub fn vertex_positions(&self) -> (r: &Vec<PhysicalPoint>)
        requires
            self.wf(),
        ensures
            r@ == segment_positions(self.spec_start(), self.spec_end()),
    {
        &self.positions
    }

    /// The neighbour positions of the vertices, as corners and signs of the unit direction.
    pub fn vertex_prev_positions(&self) -> (r: &Vec<(PhysicalPoint, i8)>)
        requires
            self.wf(),
        ensures
            r@ == segment_prev_positions(self.spec_start(), self.spec_end()),
    {
        &self.prev_positions
    }

    /// The corners of the two triangles of the segment from `start` to `end`.
    pub fn positions(start: PhysicalPoint, end: PhysicalPoint) -> (r: Vec<PhysicalPoint>)
        ensures
            r@ == segment_positions(start, end),
    {
        let r = vec![end, start, start, start, end, end];
        assert(r@ =~= segment_positions(start, end));
        r
    }

    /// The neighbours of the corners of the segment from `start` to `end`.
    pub fn prev_positions(start: PhysicalPoint, end: PhysicalPoint) -> (r: Vec<(PhysicalPoint, i8)>)
        ensures
            r@ == segment_prev_positions(start, end),
    {
        let r = vec![(end, 1i8), (start, 1i8), (start, -1i8), (start, -1i8), (end, -1i8), (end, 1i8)];
        assert(r@ =~= segment_prev_positions(start, end));
        r
    }

    /// The bounding box of the segment in the xy plane, as its lower and upper corner.
    pub fn aabb(&self) -> (r: (PhysicalPoint, PhysicalPoint))
        ensures
            r.0.x == if self.spec_start().x <= self.spec_end().x { self.spec_start().x } else { self.spec_end().x },
            r.0.y == if self.spec_start().y <= self.spec_end().y { self.spec_start().y } else { self.spec_end().y },
            r.1.x == if self.spec_start().x >= self.spec_end().x { self.spec_start().x } else { self.spec_end().x },
            r.1.y == if self.spec_start().y >= self.spec_end().y { self.spec_start().y } else { self.spec_end().y },
    {
        let min_x = if self.start.x <= self.end.x { self.start.x } else { self.end.x };
        let min_y = if self.start.y <= self.end.y { self.start.y } else { self.end.y };
        let max_x = if self.start.x >= self.end.x { self.start.x } else { self.end.x };
        let max_y = if self.start.y >= self.end.y { self.start.y } else { self.end.y };
        (PhysicalPoint { x: min_x, y: min_y }, PhysicalPoint { x: max_x, y: max_y })
    }
}

} // verus!
