//! Perspective projection: wall-strip geometry per column and the
//! inverse-perspective row distance used for floor and ceiling texturing.

use vstd::prelude::*;

use crate::fixed::{fdiv, FP};

verus! {

/// The camera eye height, as `CAMERA_HEIGHT_NUM / CAMERA_HEIGHT_DEN` of the
/// screen height.
pub const CAMERA_HEIGHT_NUM: i64 = 1;

/// See [`CAMERA_HEIGHT_NUM`].
pub const CAMERA_HEIGHT_DEN: i64 = 2;

/// The horizon row, as `HORIZON_NUM / HORIZON_DEN` of the screen height.
pub const HORIZON_NUM: i64 = 1;

/// See [`HORIZON_NUM`].
pub const HORIZON_DEN: i64 = 2;

/// Upper bound on the screen width accepted by the renderer.
pub const MAX_SCREEN_W: i64 = 4096;

/// Upper bound on the screen height accepted by the renderer; keeps the
/// floor-row distances strictly decreasing in fixed-point precision.
pub const MAX_SCREEN_H: i64 = 2048;

/// The horizon row of a screen `h` pixels tall.
pub open spec fn spec_horizon(h: int) -> int {
    h * (HORIZON_NUM as int) / (HORIZON_DEN as int)
}

/// The strip height of a wall at perpendicular distance `dist`: screen
/// height over distance, so a wall twice as far is half as tall.
pub open spec fn spec_strip_height(h: int, dist: int) -> int {
    h * (FP as int) * (FP as int) / dist
}

/// The strip top: walls are vertically centered on the mid-screen row.
pub open spec fn spec_strip_top(h: int, dist: int) -> int {
    h * (FP as int) / 2 - spec_strip_height(h, dist) / 2
}

/// Computes the screen-space wall strip for a column whose ray hit at
/// perpendicular distance `dist`: the top edge and the height, both in
/// fixed-point pixels. The strip height is `screen_h / dist` in world
/// terms, and the strip is centered on the mid-screen row.
pub fn wall_strip(screen_h: i64, dist: i64) -> (r: (i64, i64))
    requires
        0 < screen_h <= MAX_SCREEN_H,
        0 < dist,
    ensures
        r.0 == spec_strip_top(screen_h as int, dist as int),
        r.1 == spec_strip_height(screen_h as int, dist as int),
        r.1 >= 0,
{
    let height = fdiv(screen_h * FP * FP, dist);
    proof {
        vstd::arithmetic::div_mod::lemma_div_is_ordered_by_denominator(
            screen_h as int * (FP as int) * (FP as int),
            1,
            dist as int,
        );
        assert(screen_h as int * (FP as int) * (FP as int) / 1 == screen_h as int * (
        FP as int) * (FP as int));
    }
    let top = fdiv(screen_h * FP, 2) - fdiv(height, 2);
    (top, height)
}

/// The floor-row distance: the perspective-correct distance of the world
/// points seen along screen row `y`, which is the camera height over the
/// distance of `y` from the horizon row. Rows at or above the horizon see
/// no floor at all and are excluded.
pub open spec fn spec_row_distance(y: int, h: int) -> Option<int> {
    let hor = spec_horizon(h);
    if y <= hor {
        None
    } else {
        Some((h * (CAMERA_HEIGHT_NUM as int) / (CAMERA_HEIGHT_DEN as int)) * (FP as int) / (y
            - hor))
    }
}

/// Computes the floor-row distance for screen row `y`, or `None` for rows
/// at or above the horizon, whose projected distance would be unbounded.
pub fn row_distance(y: i64, screen_h: i64) -> (r: Option<i64>)
    requires
        0 < screen_h <= MAX_SCREEN_H,
        0 <= y,
    ensures
        (match r {
            Some(d) => spec_row_distance(y as int, screen_h as int) == Some(d as int) && 0 <= d
                <= (MAX_SCREEN_H / 2) * FP,
            None => spec_row_distance(y as int, screen_h as int) is None,
        }),
{
    let hor = fdiv(screen_h * HORIZON_NUM, HORIZON_DEN);
    if y <= hor {
        None
    } else {
        let camh = fdiv(screen_h * CAMERA_HEIGHT_NUM, CAMERA_HEIGHT_DEN);
        let d = fdiv(camh * FP, y - hor);
        proof {
            vstd::arithmetic::div_mod::lemma_div_is_ordered_by_denominator(
                (camh as int) * (FP as int),
                1,
                (y - hor) as int,
            );
            assert((camh as int) * (FP as int) / 1 == (camh as int) * (FP as int));
        }
        Some(d)
    }
}

/// Law: below the horizon the floor-row distance strictly decreases as the
/// screen row moves down, so nearer floor is seen lower on the screen.
/// Holds for every screen height up to [`MAX_SCREEN_H`], the bound that
/// keeps one fixed-point unit of distance between adjacent rows.
pub proof fn lemma_row_distance_strictly_decreases(h: int, y1: int, y2: int)
    requires
        2 <= h <= MAX_SCREEN_H,
        spec_horizon(h) < y1 < y2 < h,
    ensures
        spec_row_distance(y1, h) is Some,
        spec_row_distance(y2, h) is Some,
        spec_row_distance(y1, h)->Some_0 > spec_row_distance(y2, h)->Some_0,
{
    let hor = spec_horizon(h);
    let k = (h * (CAMERA_HEIGHT_NUM as int) / (CAMERA_HEIGHT_DEN as int)) * (FP as int);
    let d1 = y1 - hor;
    let d2 = y2 - hor;
    assert(1 <= d1 < d2 && d2 <= h - 1 - hor);
    assert(k == (h / 2) * (FP as int) && hor == h / 2);
    vstd::arithmetic::div_mod::lemma_fundamental_div_mod(k, d2);
    let q2 = k / d2;
    // The divisors stay small enough that `k >= d1 * d2`, which forces the
    // quotient at the nearer row to be strictly larger.
    assert(k >= (q2 + 1) * d1 && q2 >= 0) by (nonlinear_arith)
        requires
            k == (h / 2) * (FP as int),
            2 <= h <= MAX_SCREEN_H,
            FP == 1024,
            MAX_SCREEN_H == 2048,
            1 <= d1,
            d1 < d2,
            d2 <= h - 1 - h / 2,
            k == d2 * q2 + k % d2,
            0 <= k % d2 < d2,
    ;
    vstd::arithmetic::div_mod::lemma_div_multiples_vanish(q2 + 1, d1);
    vstd::arithmetic::div_mod::lemma_div_is_ordered((q2 + 1) * d1, k, d1);
}

} // verus!
