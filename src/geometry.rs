//! Integer plane geometry: points, axis-aligned boxes, bounding circles and
//! the intersection tests between them.
use vstd::prelude::*;

verus! {

/// A point of the play field, in whole field units.
#[derive(Clone, Copy, Debug, PartialEq, Eq, Structural)]
pub struct Point {
    pub x: i32,
    pub y: i32,
}

/// An axis-aligned box given by its center and its half extents.
/// Half extents are unsigned, so they are never negative.
#[derive(Clone, Copy, Debug, PartialEq, Eq, Structural)]
pub struct Aabb {
    pub center: Point,
    pub half_w: u32,
    pub half_h: u32,
}

/// A circle given by its center and its radius.
#[derive(Clone, Copy, Debug, PartialEq, Eq, Structural)]
pub struct BoundingCircle {
    pub center: Point,
    pub radius: u32,
}

/// The shape of a moving object that is tested against boxes.
#[derive(Clone, Copy, Debug, PartialEq, Eq, Structural)]
pub enum Probe {
    Circle(BoundingCircle),
    Rect(Aabb),
}

/// `v` limited to `[lo, hi]` (for `lo <= hi`).
pub open spec fn clamp(v: int, lo: int, hi: int) -> int {
    if v < lo {
        lo
    } else if v > hi {
        hi
    } else {
        v
    }
}

pub open spec fn abs(v: int) -> int {
    if v < 0 {
        -v
    } else {
        v
    }
}

/// Squared euclidean distance between two points.
pub open spec fn dist_sq(ax: int, ay: int, bx: int, by: int) -> int {
    (ax - bx) * (ax - bx) + (ay - by) * (ay - by)
}

impl Aabb {
    pub open spec fn min_x(self) -> int {
        self.center.x - self.half_w
    }

    pub open spec fn max_x(self) -> int {
        self.center.x + self.half_w
    }

    pub open spec fn min_y(self) -> int {
        self.center.y - self.half_h
    }

    pub open spec fn max_y(self) -> int {
        self.center.y + self.half_h
    }

    /// A box that has no width or no height covers nothing.
    pub open spec fn is_degenerate(self) -> bool {
        self.half_w == 0 || self.half_h == 0
    }

    /// First coordinate of the point of the box closest to `p`.
    pub open spec fn closest_x(self, p: Point) -> int {
        clamp(p.x as int, self.min_x(), self.max_x())
    }

    /// Second coordinate of the point of the box closest to `p`.
    pub open spec fn closest_y(self, p: Point) -> int {
        clamp(p.y as int, self.min_y(), self.max_y())
    }

    /// The point of the box closest to `p` (`p` itself when it lies inside).
    pub fn closest_point(&self, p: Point) -> (r: Point)
        ensures
            r.x == self.closest_x(p),
            r.y == self.closest_y(p),
    {
        let lo_x = self.center.x as i64 - self.half_w as i64;
        let hi_x = self.center.x as i64 + self.half_w as i64;
        let lo_y = self.center.y as i64 - self.half_h as i64;
        let hi_y = self.center.y as i64 + self.half_h as i64;
        let x: i64 = if (p.x as i64) < lo_x {
            lo_x
        } else if (p.x as i64) > hi_x {
            hi_x
        } else {
            p.x as i64
        };
        let y: i64 = if (p.y as i64) < lo_y {
            lo_y
        } else if (p.y as i64) > hi_y {
            hi_y
        } else {
            p.y as i64
        };
        Point { x: x as i32, y: y as i32 }
    }

    /// Whether this box and `other` overlap (touching edges count).
    pub fn intersects_box(&self, other: &Aabb) -> (r: bool)
        ensures
            r == boxes_overlap(*self, *other),
    {
        if self.half_w == 0 || self.half_h == 0 || other.half_w == 0 || other.half_h == 0 {
            return false;
        }
        let a_lo_x = self.center.x as i64 - self.half_w as i64;
        let a_hi_x = self.center.x as i64 + self.half_w as i64;
        let a_lo_y = self.center.y as i64 - self.half_h as i64;
        let a_hi_y = self.center.y as i64 + self.half_h as i64;
        let b_lo_x = other.center.x as i64 - other.half_w as i64;
        let b_hi_x = other.center.x as i64 + other.half_w as i64;
        let b_lo_y = other.center.y as i64 - other.half_h as i64;
        let b_hi_y = other.center.y as i64 + other.half_h as i64;
        a_lo_x <= b_hi_x && a_hi_x >= b_lo_x && a_lo_y <= b_hi_y && a_hi_y >= b_lo_y
    }

    /// Whether the circle `c` and this box overlap: the point of the box
    /// closest to the circle's center lies within the radius.
    pub fn intersects_circle(&self, c: &BoundingCircle) -> (r: bool)
        ensures
            r == circle_hits_box(*c, *self),
    {
        if c.radius == 0 || self.half_w == 0 || self.half_h == 0 {
            return false;
        }
        let q = self.closest_point(c.center);
        let dx: i64 = c.center.x as i64 - q.x as i64;
        let dy: i64 = c.center.y as i64 - q.y as i64;
        let ghost (gx, gy) = (dx as int, dy as int);
        assert(gx * gx <= 0x1_0000_0000 * 0x1_0000_0000) by (nonlinear_arith)
            requires
                -0x1_0000_0000 <= gx <= 0x1_0000_0000,
        ;
        assert(gy * gy <= 0x1_0000_0000 * 0x1_0000_0000) by (nonlinear_arith)
            requires
                -0x1_0000_0000 <= gy <= 0x1_0000_0000,
        ;
        assert(0 <= gx * gx && 0 <= gy * gy) by (nonlinear_arith);
        let ghost gr = c.radius as int;
        assert(gr * gr <= 0x1_0000_0000 * 0x1_0000_0000) by (nonlinear_arith)
            requires
                0 <= gr <= 0x1_0000_0000,
        ;
        let rr: i128 = c.radius as i128 * c.radius as i128;
        let d: i128 = dx as i128 * dx as i128 + dy as i128 * dy as i128;
        d <= rr
    }
}

/// Two boxes overlap when neither is degenerate and their extents meet on both axes.
pub open spec fn boxes_overlap(a: Aabb, b: Aabb) -> bool {
    &&& !a.is_degenerate()
    &&& !b.is_degenerate()
    &&& a.min_x() <= b.max_x()
    &&& a.max_x() >= b.min_x()
    &&& a.min_y() <= b.max_y()
    &&& a.max_y() >= b.min_y()
}

/// A circle and a box overlap when neither is degenerate and the point of the
/// box closest to the circle's center is no farther than the radius.
pub open spec fn circle_hits_box(c: BoundingCircle, b: Aabb) -> bool {
    &&& c.radius > 0
    &&& !b.is_degenerate()
    &&& dist_sq(c.center.x as int, c.center.y as int, b.closest_x(c.center), b.closest_y(c.center))
        <= c.radius * c.radius
}

/// Whether a probe of either shape overlaps the box `b`.
pub open spec fn probe_hits(p: Probe, b: Aabb) -> bool {
    match p {
        Probe::Circle(c) => circle_hits_box(c, b),
        Probe::Rect(r) => boxes_overlap(r, b),
    }
}

impl Probe {
    /// Whether this probe overlaps the box `b`.
    pub fn intersects(&self, b: &Aabb) -> (r: bool)
        ensures
            r == probe_hits(*self, *b),
    {
        match self {
            Probe::Circle(c) => b.intersects_circle(c),
            Probe::Rect(r) => r.intersects_box(b),
        }
    }
}

} // verus!
