//! Side-of-impact classification and velocity reflection.
use vstd::prelude::*;
use crate::geometry::{abs, circle_hits_box, probe_hits, Aabb, BoundingCircle, Point, Probe};

verus! {

/// The face of a box that a probe struck.
#[derive(Clone, Copy, Debug, PartialEq, Eq, Structural)]
pub enum Side {
    Left,
    Right,
    Top,
    Bottom,
}

/// A velocity in field units per step.
#[derive(Clone, Copy, Debug, PartialEq, Eq, Structural)]
pub struct Velocity {
    pub x: i32,
    pub y: i32,
}

impl Velocity {
    /// Both components can be negated without leaving `i32`.
    pub open spec fn negatable(self) -> bool {
        self.x > i32::MIN && self.y > i32::MIN
    }
}

/// The side named by the offset from the closest point of the box to the
/// probe's center: the larger magnitude wins, and a tie goes to the vertical axis.
pub open spec fn side_of_offset(dx: int, dy: int) -> Side {
    if abs(dx) > abs(dy) {
        if dx < 0 {
            Side::Left
        } else {
            Side::Right
        }
    } else if dy > 0 {
        Side::Top
    } else {
        Side::Bottom
    }
}

/// What `detect` answers for a probe centered at `center` against box `b`.
pub open spec fn detect_spec(probe: Probe, center: Point, b: Aabb) -> Option<Side> {
    if !probe_hits(probe, b) {
        None
    } else {
        Some(side_of_offset(center.x - b.closest_x(center), center.y - b.closest_y(center)))
    }
}

/// Which side of `obstacle` the probe hit, or `None` when they do not overlap.
pub fn detect(probe: &Probe, probe_center: Point, obstacle: &Aabb) -> (r: Option<Side>)
    ensures
        r == detect_spec(*probe, probe_center, *obstacle),
{
    if !probe.intersects(obstacle) {
        return None;
    }
    let closest = obstacle.closest_point(probe_center);
    let dx: i64 = probe_center.x as i64 - closest.x as i64;
    let dy: i64 = probe_center.y as i64 - closest.y as i64;
    let ax: i64 = if dx < 0 {
        -dx
    } else {
        dx
    };
    let ay: i64 = if dy < 0 {
        -dy
    } else {
        dy
    };
    let side = if ax > ay {
        if dx < 0 {
            Side::Left
        } else {
            Side::Right
        }
    } else if dy > 0 {
        Side::Top
    } else {
        Side::Bottom
    };
    Some(side)
}

/// Which side of `bounding_box` the ball hit, or `None` when they do not overlap.
pub fn ball_collision(ball: &BoundingCircle, bounding_box: &Aabb) -> (r: Option<Side>)
    ensures
        r == detect_spec(Probe::Circle(*ball), ball.center, *bounding_box),
{
    detect(&Probe::Circle(*ball), ball.center, bounding_box)
}

/// The velocity after a hit on `side`: the component across that side is
/// negated only when it still points into the obstacle.
pub open spec fn respond_spec(side: Side, v: Velocity) -> Velocity {
    match side {
        Side::Left => if v.x > 0 {
            Velocity { x: -v.x as i32, y: v.y }
        } else {
            v
        },
        Side::Right => if v.x < 0 {
            Velocity { x: -v.x as i32, y: v.y }
        } else {
            v
        },
        Side::Top => if v.y < 0 {
            Velocity { x: v.x, y: -v.y as i32 }
        } else {
            v
        },
        Side::Bottom => if v.y > 0 {
            Velocity { x: v.x, y: -v.y as i32 }
        } else {
            v
        },
    }
}

/// Reflects `velocity` off a hit on `side`, unless it already points away.
pub fn respond(side: Side, velocity: Velocity) -> (r: Velocity)
    requires
        velocity.negatable(),
    ensures
        r == respond_spec(side, velocity),
        r.negatable(),
{
    let mut reflect_x = false;
    let mut reflect_y = false;
    match side {
        Side::Left => reflect_x = velocity.x > 0,
        Side::Right => reflect_x = velocity.x < 0,
        Side::Top => reflect_y = velocity.y < 0,
        Side::Bottom => reflect_y = velocity.y > 0,
    }
    let mut r = velocity;
    if reflect_x {
        r.x = -r.x;
    }
    if reflect_y {
        r.y = -r.y;
    }
    r
}

/// A circle probe is reported to hit no side exactly when the circle-vs-box
/// test reports no overlap.
pub proof fn lemma_detect_none_iff_no_overlap(c: BoundingCircle, b: Aabb)
    ensures
        detect_spec(Probe::Circle(c), c.center, b) is None <==> !circle_hits_box(c, b),
{
}

/// A circle that overlaps a box while its center lies strictly left of the
/// box, level with it, hit the left side.
pub proof fn lemma_hit_from_left(c: BoundingCircle, b: Aabb)
    requires
        circle_hits_box(c, b),
        c.center.x < b.min_x(),
        b.min_y() <= c.center.y <= b.max_y(),
    ensures
        detect_spec(Probe::Circle(c), c.center, b) == Some(Side::Left),
{
}

/// A circle that overlaps a box while its center lies strictly right of the
/// box, level with it, hit the right side.
pub proof fn lemma_hit_from_right(c: BoundingCircle, b: Aabb)
    requires
        circle_hits_box(c, b),
        c.center.x > b.max_x(),
        b.min_y() <= c.center.y <= b.max_y(),
    ensures
        detect_spec(Probe::Circle(c), c.center, b) == Some(Side::Right),
{
}

/// A circle that overlaps a box while its center lies strictly above the
/// box, within its width, hit the top side.
pub proof fn lemma_hit_from_above(c: BoundingCircle, b: Aabb)
    requires
        circle_hits_box(c, b),
        c.center.y > b.max_y(),
        b.min_x() <= c.center.x <= b.max_x(),
    ensures
        detect_spec(Probe::Circle(c), c.center, b) == Some(Side::Top),
{
}

/// A circle that overlaps a box while its center lies strictly below the
/// box, within its width, hit the bottom side.
pub proof fn lemma_hit_from_below(c: BoundingCircle, b: Aabb)
    requires
        circle_hits_box(c, b),
        c.center.y < b.min_y(),
        b.min_x() <= c.center.x <= b.max_x(),
    ensures
        detect_spec(Probe::Circle(c), c.center, b) == Some(Side::Bottom),
{
}

/// When the offset from the closest point of the box has equal magnitudes on
/// both axes, the hit is on the top side if the offset points up, on the
/// bottom side otherwise, and never on the left or right side.
pub proof fn lemma_tie_goes_vertical(p: Probe, center: Point, b: Aabb)
    requires
        probe_hits(p, b),
        abs(center.x - b.closest_x(center)) == abs(center.y - b.closest_y(center)),
    ensures
        detect_spec(p, center, b) == (if center.y - b.closest_y(center) > 0 {
            Some(Side::Top)
        } else {
            Some(Side::Bottom)
        }),
{
}

/// Whether `v` still carries the probe into the obstacle through `side`.
pub open spec fn moving_into(side: Side, v: Velocity) -> bool {
    match side {
        Side::Left => v.x > 0,
        Side::Right => v.x < 0,
        Side::Top => v.y < 0,
        Side::Bottom => v.y > 0,
    }
}

/// A probe already moving away from the side it hit keeps its velocity.
pub proof fn lemma_respond_keeps_receding(side: Side, v: Velocity)
    requires
        !moving_into(side, v),
    ensures
        respond_spec(side, v) == v,
{
}

/// A probe moving into the side it hit has exactly the component across that
/// side negated, and the other component untouched.
pub proof fn lemma_respond_reflects_approaching(side: Side, v: Velocity)
    requires
        moving_into(side, v),
        v.negatable(),
    ensures
        side == Side::Left || side == Side::Right ==> respond_spec(side, v).x == -v.x
            && respond_spec(side, v).y == v.y,
        side == Side::Top || side == Side::Bottom ==> respond_spec(side, v).y == -v.y
            && respond_spec(side, v).x == v.x,
{
}

/// The signal that at least one collision happened during the current
/// step. It is raised by the collision passes and taken, at most once, by
/// whatever reacts to it (a sound); taking it clears it, so it never
/// carries over to the next step.
#[derive(Clone, Copy, Debug, PartialEq, Eq, Structural)]
pub struct CollisionEvent {
    pub raised: bool,
}

impl CollisionEvent {
    /// A signal that has not been raised.
    pub fn new() -> (r: CollisionEvent)
        ensures
            !r.raised,
    {
        CollisionEvent { raised: false }
    }

    /// Raises the signal.
    pub fn write(&mut self)
        ensures
            final(self).raised,
    {
        self.raised = true;
    }

    /// Takes the signal: returns whether it was raised, and clears it.
    pub fn play_collision_sound(&mut self) -> (play: bool)
        ensures
            play == old(self).raised,
            !final(self).raised,
    {
        let play = self.raised;
        self.raised = false;
        play
    }
}

} // verus!
