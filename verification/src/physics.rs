//! The physics rules of the stage: 2D integer vectors, the central gravity
//! field, and the safety boundary that separates the playable annulus from
//! the gravity well and the void beyond the stage edge.

use vstd::prelude::*;

verus! {

/// A 2D integer vector: a position, a velocity, or an acceleration.
#[derive(Clone, Copy, PartialEq, Eq, Structural, Debug)]
pub struct Point {
    pub x: i64,
    pub y: i64,
}

/// The gravity-field descriptor: when no obstacle is configured the field
/// vanishes everywhere.
#[derive(Clone, Copy, PartialEq, Eq, Structural, Debug)]
pub struct GravityField {
    pub enabled: bool,
}

/// The safety-boundary descriptor: positions with both coordinates inside
/// `inner_radius` sit in the gravity well, positions with either coordinate
/// beyond `outer_radius` sit off the stage; both are forbidden.
#[derive(Clone, Copy, PartialEq, Eq, Structural, Debug)]
pub struct SafetyBoundary {
    pub inner_radius: i64,
    pub outer_radius: i64,
}

pub open spec fn abs_of(x: int) -> int {
    if x < 0 {
        -x
    } else {
        x
    }
}

pub open spec fn sign_of(x: int) -> int {
    if x > 0 {
        1
    } else if x < 0 {
        -1
    } else {
        0
    }
}

/// The gravity acceleration at a position: zero without a field; otherwise a
/// unit pull toward the origin on whichever axis has the larger absolute
/// coordinate, on both axes when they tie.
pub open spec fn gravity_at(field: GravityField, px: int, py: int) -> (int, int) {
    if !field.enabled {
        (0, 0)
    } else {
        (
            if abs_of(px) < abs_of(py) {
                0
            } else {
                -sign_of(px)
            },
            if abs_of(py) < abs_of(px) {
                0
            } else {
                -sign_of(py)
            },
        )
    }
}

/// Whether a position is safe: with no boundary configured every position is
/// safe; otherwise a position is unsafe exactly when both coordinates lie
/// within the inner radius or either coordinate exceeds the outer radius.
pub open spec fn safe_at(boundary: Option<SafetyBoundary>, px: int, py: int) -> bool {
    match boundary {
        Option::None => true,
        Option::Some(b) => !((abs_of(px) <= b.inner_radius && abs_of(py) <= b.inner_radius)
            || abs_of(px) > b.outer_radius || abs_of(py) > b.outer_radius),
    }
}

pub open spec fn clamped(input: int, min_v: int, max_v: int) -> int {
    let upper = if input < max_v {
        input
    } else {
        max_v
    };
    if upper < min_v {
        min_v
    } else {
        upper
    }
}

impl Point {
    pub fn new(x: i64, y: i64) -> (r: Point)
        ensures
            r.x == x,
            r.y == y,
    {
        Point { x, y }
    }
}

fn abs_i64(x: i64) -> (r: i64)
    requires
        x > i64::MIN,
    ensures
        r == abs_of(x as int),
{
    if x < 0 {
        -x
    } else {
        x
    }
}

fn sign_i64(x: i64) -> (r: i64)
    ensures
        r == sign_of(x as int),
{
    if x > 0 {
        1
    } else if x < 0 {
        -1
    } else {
        0
    }
}

/// Returns the gravity acceleration acting at `pos`.
pub fn get_gravity(field: &GravityField, pos: &Point) -> (r: Point)
    requires
        pos.x > i64::MIN,
        pos.y > i64::MIN,
    ensures
        (r.x as int, r.y as int) == gravity_at(*field, pos.x as int, pos.y as int),
{
    if !field.enabled {
        return Point { x: 0, y: 0 };
    }
    let ax = abs_i64(pos.x);
    let ay = abs_i64(pos.y);
    Point {
        x: if ax < ay {
            0
        } else {
            -sign_i64(pos.x)
        },
        y: if ay < ax {
            0
        } else {
            -sign_i64(pos.y)
        },
    }
}

/// Decides whether `pos` is inside the safe region of the stage.
pub fn is_safe(boundary: &Option<SafetyBoundary>, pos: &Point) -> (r: bool)
    requires
        pos.x > i64::MIN,
        pos.y > i64::MIN,
    ensures
        r == safe_at(*boundary, pos.x as int, pos.y as int),
{
    match boundary {
        Option::None => true,
        Option::Some(b) => {
            let ax = abs_i64(pos.x);
            let ay = abs_i64(pos.y);
            if ax <= b.inner_radius && ay <= b.inner_radius {
                false
            } else if ax > b.outer_radius || ay > b.outer_radius {
                false
            } else {
                true
            }
        },
    }
}

/// Restricts `input` to the interval `[min_v, max_v]`.
pub fn clamp(input: i64, min_v: i64, max_v: i64) -> (r: i64)
    ensures
        r == clamped(input as int, min_v as int, max_v as int),
{
    let upper = if input < max_v {
        input
    } else {
        max_v
    };
    if upper < min_v {
        min_v
    } else {
        upper
    }
}

/// The safety boundary partitions positions exactly as stated: inside the
/// inner square is unsafe, beyond the outer square is unsafe, everything
/// else is safe, and with no boundary configured everything is safe.
pub proof fn lemma_safety_boundary(b: SafetyBoundary, px: int, py: int)
    ensures
        (abs_of(px) <= b.inner_radius && abs_of(py) <= b.inner_radius) ==> !safe_at(
            Some(b),
            px,
            py,
        ),
        (abs_of(px) > b.outer_radius || abs_of(py) > b.outer_radius) ==> !safe_at(Some(b), px, py),
        (!(abs_of(px) <= b.inner_radius && abs_of(py) <= b.inner_radius) && abs_of(px)
            <= b.outer_radius && abs_of(py) <= b.outer_radius) ==> safe_at(Some(b), px, py),
        safe_at(Option::<SafetyBoundary>::None, px, py),
{
}

} // verus!
