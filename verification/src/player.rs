//! The camera/player model: pose, rotation, and movement with wall-sliding
//! collision.
//!
//! The pose holds a position, a facing direction and the camera plane, all in
//! fixed-point world units. The camera plane is kept perpendicular to the
//! direction by rotating both vectors with the same rotation matrix; its
//! magnitude encodes the field of view.

use vstd::prelude::*;

use crate::fixed::{fdiv, isqrt, sign, spec_isqrt, FP};
use crate::grid::Grid;

verus! {

/// Bound on every direction and camera-plane component; keeps all later
/// arithmetic far away from `i64` overflow.
pub const VEC_MAX: i64 = 2 * FP;

/// The field-of-view half-extent is `FOV_NUM / FOV_DEN` of a world unit,
/// the magnitude of the camera-plane vector.
pub const FOV_NUM: i64 = 3;

/// See [`FOV_NUM`].
pub const FOV_DEN: i64 = 5;

/// Bound on the components of the direction vector handed to
/// [`Player::new`].
pub const DIR_IN_MAX: i64 = 0x10_0000;

/// The player pose: position, facing direction and camera plane, in
/// fixed-point world units.
pub struct Player {
    pub pos_x: i64,
    pub pos_y: i64,
    pub dir_x: i64,
    pub dir_y: i64,
    pub cam_x: i64,
    pub cam_y: i64,
}

/// One component of the exact rotation of `(x, y)` by the matrix
/// `[[c, -s], [s, c]] / FP`, rounded toward minus infinity.
pub open spec fn rot_x(c: int, s: int, x: int, y: int) -> int {
    (c * x - s * y) / (FP as int)
}

/// See [`rot_x`]; the second component.
pub open spec fn rot_y(c: int, s: int, x: int, y: int) -> int {
    (s * x + c * y) / (FP as int)
}

/// Law: the exact rotation by any `(c, s)` with `c*c + s*s == k*k` scales
/// the squared norm of every vector by exactly `k*k`; with `k == FP` (a
/// fixed-point unit rotation) the norm is preserved, so a normalized
/// direction stays normalized under any number of rotations.
pub proof fn lemma_rotation_preserves_norm(c: int, s: int, x: int, y: int, k: int)
    requires
        c * c + s * s == k * k,
    ensures
        (c * x - s * y) * (c * x - s * y) + (s * x + c * y) * (s * x + c * y) == (k * k) * (x * x
            + y * y),
{
    let a = c * x;
    let b = s * y;
    let d = s * x;
    let e = c * y;
    assert((a - b) * (a - b) + (d + e) * (d + e) == a * a + b * b + d * d + e * e + 2 * (d * e)
        - 2 * (a * b)) by (nonlinear_arith);
    assert(a * b == d * e) by (nonlinear_arith)
        requires
            a == c * x,
            b == s * y,
            d == s * x,
            e == c * y,
    ;
    assert(a * a + d * d == (c * c + s * s) * (x * x)) by (nonlinear_arith)
        requires
            a == c * x,
            d == s * x,
    ;
    assert(b * b + e * e == (c * c + s * s) * (y * y)) by (nonlinear_arith)
        requires
            b == s * y,
            e == c * y,
    ;
    assert((k * k) * (x * x) + (k * k) * (y * y) == (k * k) * (x * x + y * y))
        by (nonlinear_arith);
}

/// Law: the exact rotation scales the dot product of any two vectors by
/// `c*c + s*s`; in particular a camera plane perpendicular to the
/// direction stays perpendicular after both are rotated jointly.
pub proof fn lemma_rotation_preserves_dot(c: int, s: int, x: int, y: int, px: int, py: int)
    ensures
        (c * x - s * y) * (c * px - s * py) + (s * x + c * y) * (s * px + c * py) == (c * c + s
            * s) * (x * px + y * py),
{
    let a = c * x;
    let b = s * y;
    let d = s * x;
    let e = c * y;
    let a2 = c * px;
    let b2 = s * py;
    let d2 = s * px;
    let e2 = c * py;
    assert((a - b) * (a2 - b2) == a * a2 - a * b2 - b * a2 + b * b2) by (nonlinear_arith);
    assert((d + e) * (d2 + e2) == d * d2 + d * e2 + e * d2 + e * e2) by (nonlinear_arith);
    assert(d * e2 == a * b2) by (nonlinear_arith)
        requires
            a == c * x,
            b2 == s * py,
            d == s * x,
            e2 == c * py,
    ;
    assert(e * d2 == b * a2) by (nonlinear_arith)
        requires
            b == s * y,
            a2 == c * px,
            e == c * y,
            d2 == s * px,
    ;
    assert(a * a2 + d * d2 == (c * c + s * s) * (x * px)) by (nonlinear_arith)
        requires
            a == c * x,
            d == s * x,
            a2 == c * px,
            d2 == s * px,
    ;
    assert(b * b2 + e * e2 == (c * c + s * s) * (y * py)) by (nonlinear_arith)
        requires
            b == s * y,
            e == c * y,
            b2 == s * py,
            e2 == c * py,
    ;
    assert((c * c + s * s) * (x * px) + (c * c + s * s) * (y * py) == (c * c + s * s) * (x * px
        + y * py)) by (nonlinear_arith);
}

/// Bounds on the product of two bounded values.
pub proof fn lemma_mul_bounds(a: int, b: int, ka: int, kb: int)
    by (nonlinear_arith)
    requires
        -ka <= a <= ka,
        -kb <= b <= kb,
        0 <= ka,
        0 <= kb,
    ensures
        -(ka * kb) <= a * b <= ka * kb,
        a * a >= 0,
{
}

impl Player {
    /// Well-formedness: direction and camera-plane components are bounded.
    pub open spec fn wf(self) -> bool {
        &&& -VEC_MAX <= self.dir_x <= VEC_MAX
        &&& -VEC_MAX <= self.dir_y <= VEC_MAX
        &&& -VEC_MAX <= self.cam_x <= VEC_MAX
        &&& -VEC_MAX <= self.cam_y <= VEC_MAX
    }

    /// Column of the grid cell the player stands in.
    pub open spec fn cell_x(self) -> int {
        self.pos_x as int / (FP as int)
    }

    /// Row of the grid cell the player stands in.
    pub open spec fn cell_y(self) -> int {
        self.pos_y as int / (FP as int)
    }

    /// The position lies inside the grid.
    pub open spec fn in_grid(self, grid: Grid) -> bool {
        &&& 0 <= self.pos_x && (self.pos_x as int) < grid.spec_width() * (FP as int)
        &&& 0 <= self.pos_y && (self.pos_y as int) < grid.spec_height() * (FP as int)
    }

    /// The inputs [`Player::new`] accepts: a direction at least one world
    /// unit long (so that fixed-point normalization is meaningful) and a
    /// starting position inside the grid.
    pub open spec fn new_accepts(grid: Grid, pos_x: int, pos_y: int, dir_x: int, dir_y: int) -> bool {
        &&& dir_x * dir_x + dir_y * dir_y >= (FP as int) * (FP as int)
        &&& 0 <= pos_x && pos_x < grid.spec_width() * (FP as int)
        &&& 0 <= pos_y && pos_y < grid.spec_height() * (FP as int)
    }

    /// What [`Player::new`] builds: the direction normalized to unit
    /// length, and the camera plane as the perpendicular of the normalized
    /// direction scaled to the field-of-view half-extent.
    pub open spec fn spec_new(pos_x: int, pos_y: int, dir_x: int, dir_y: int) -> Player {
        let l = spec_isqrt(dir_x * dir_x + dir_y * dir_y);
        let ndx = dir_x * (FP as int) / l;
        let ndy = dir_y * (FP as int) / l;
        Player {
            pos_x: pos_x as i64,
            pos_y: pos_y as i64,
            dir_x: ndx as i64,
            dir_y: ndy as i64,
            cam_x: (ndy * (FOV_NUM as int) / (FOV_DEN as int)) as i64,
            cam_y: (-ndx * (FOV_NUM as int) / (FOV_DEN as int)) as i64,
        }
    }

    /// Builds a player pose: the direction vector is normalized on
    /// creation and the camera plane derived as its perpendicular, scaled
    /// to the configured field of view. Returns `None` exactly when the
    /// direction is too short or the position lies outside the grid.
    pub fn new(grid: &Grid, pos_x: i64, pos_y: i64, dir_x: i64, dir_y: i64) -> (p: Option<Player>)
        requires
            grid.wf(),
            -DIR_IN_MAX <= dir_x <= DIR_IN_MAX,
            -DIR_IN_MAX <= dir_y <= DIR_IN_MAX,
        ensures
            (match p {
                Some(pl) => Self::new_accepts(*grid, pos_x as int, pos_y as int, dir_x as int, dir_y as int)
                    && pl == Self::spec_new(pos_x as int, pos_y as int, dir_x as int, dir_y as int)
                    && pl.wf() && pl.in_grid(*grid),
                None => !Self::new_accepts(*grid, pos_x as int, pos_y as int, dir_x as int, dir_y as int),
            }),
    {
        proof {
            lemma_mul_bounds(dir_x as int, dir_x as int, DIR_IN_MAX as int, DIR_IN_MAX as int);
            lemma_mul_bounds(dir_y as int, dir_y as int, DIR_IN_MAX as int, DIR_IN_MAX as int);
        }
        let n2 = dir_x * dir_x + dir_y * dir_y;
        let w = grid.width();
        let h = grid.height();
        if n2 < FP * FP || pos_x < 0 || pos_y < 0 || pos_x >= (w as i64) * FP || pos_y >= (h
            as i64) * FP {
            return None;
        }
        let l = isqrt(n2 as u64);
        proof {
            let li = l as int;
            let ni = n2 as int;
            assert(li >= FP && li <= 0x20_0000 && dir_x <= li && -li <= dir_x && dir_y <= li
                && -li <= dir_y) by (nonlinear_arith)
                requires
                    li >= 0,
                    li * li <= ni < (li + 1) * (li + 1),
                    ni == dir_x * dir_x + dir_y * dir_y,
                    ni >= (FP as int) * (FP as int),
                    -DIR_IN_MAX <= dir_x <= DIR_IN_MAX,
                    -DIR_IN_MAX <= dir_y <= DIR_IN_MAX,
                    FP == 1024,
                    DIR_IN_MAX == 0x10_0000,
            ;
            lemma_mul_bounds(dir_x as int, FP as int, l as int, FP as int);
            lemma_mul_bounds(dir_y as int, FP as int, l as int, FP as int);
            vstd::arithmetic::div_mod::lemma_div_is_ordered(
                -(l as int) * (FP as int),
                dir_x as int * (FP as int),
                l as int,
            );
            vstd::arithmetic::div_mod::lemma_div_is_ordered(
                dir_x as int * (FP as int),
                (l as int) * (FP as int),
                l as int,
            );
            vstd::arithmetic::div_mod::lemma_div_is_ordered(
                -(l as int) * (FP as int),
                dir_y as int * (FP as int),
                l as int,
            );
            vstd::arithmetic::div_mod::lemma_div_is_ordered(
                dir_y as int * (FP as int),
                (l as int) * (FP as int),
                l as int,
            );
            assert((l as int) * (FP as int) / (l as int) == FP as int
                && (-(l as int)) * (FP as int) / (l as int) == -(FP as int))
                by (nonlinear_arith)
                requires
                    l as int >= FP && FP == 1024,
            ;
            assert((-(l as int)) * (FP as int) == -((l as int) * (FP as int)))
                by (nonlinear_arith);
        }
        let ndx = fdiv(dir_x * FP, l as i64);
        let ndy = fdiv(dir_y * FP, l as i64);
        let cam_x = fdiv(ndy * FOV_NUM, FOV_DEN);
        let cam_y = fdiv(-ndx * FOV_NUM, FOV_DEN);
        Some(Player { pos_x, pos_y, dir_x: ndx, dir_y: ndy, cam_x, cam_y })
    }

    /// What [`Player::rotate`] does: both vectors rotated by the same
    /// matrix, or the pose unchanged when a rotated component would leave
    /// the representable range.
    pub open spec fn spec_rotate(self, c: int, s: int) -> Player {
        let ndx = rot_x(c, s, self.dir_x as int, self.dir_y as int);
        let ndy = rot_y(c, s, self.dir_x as int, self.dir_y as int);
        let ncx = rot_x(c, s, self.cam_x as int, self.cam_y as int);
        let ncy = rot_y(c, s, self.cam_x as int, self.cam_y as int);
        if -VEC_MAX <= ndx <= VEC_MAX && -VEC_MAX <= ndy <= VEC_MAX && -VEC_MAX <= ncx <= VEC_MAX
            && -VEC_MAX <= ncy <= VEC_MAX {
            Player {
                pos_x: self.pos_x,
                pos_y: self.pos_y,
                dir_x: ndx as i64,
                dir_y: ndy as i64,
                cam_x: ncx as i64,
                cam_y: ncy as i64,
            }
        } else {
            self
        }
    }

    /// Rotates the direction and the camera plane jointly by the rotation
    /// matrix whose cosine and sine are `c / FP` and `s / FP`.
    ///
    /// The pose is left unchanged in the out-of-range case spelled out by
    /// [`Player::spec_rotate`], which no fixed-point unit rotation of a
    /// well-formed pose reaches in practice.
    pub fn rotate(&mut self, c: i64, s: i64)
        requires
            old(self).wf(),
            -FP <= c <= FP,
            -FP <= s <= FP,
        ensures
            *final(self) == old(self).spec_rotate(c as int, s as int),
            final(self).wf(),
    {
        proof {
            lemma_mul_bounds(c as int, self.dir_x as int, FP as int, VEC_MAX as int);
            lemma_mul_bounds(s as int, self.dir_y as int, FP as int, VEC_MAX as int);
            lemma_mul_bounds(s as int, self.dir_x as int, FP as int, VEC_MAX as int);
            lemma_mul_bounds(c as int, self.dir_y as int, FP as int, VEC_MAX as int);
            lemma_mul_bounds(c as int, self.cam_x as int, FP as int, VEC_MAX as int);
            lemma_mul_bounds(s as int, self.cam_y as int, FP as int, VEC_MAX as int);
            lemma_mul_bounds(s as int, self.cam_x as int, FP as int, VEC_MAX as int);
            lemma_mul_bounds(c as int, self.cam_y as int, FP as int, VEC_MAX as int);
        }
        let ndx = fdiv(c * self.dir_x - s * self.dir_y, FP);
        let ndy = fdiv(s * self.dir_x + c * self.dir_y, FP);
        let ncx = fdiv(c * self.cam_x - s * self.cam_y, FP);
        let ncy = fdiv(s * self.cam_x + c * self.cam_y, FP);
        if -VEC_MAX <= ndx && ndx <= VEC_MAX && -VEC_MAX <= ndy && ndy <= VEC_MAX && -VEC_MAX
            <= ncx && ncx <= VEC_MAX && -VEC_MAX <= ncy && ncy <= VEC_MAX {
            self.dir_x = ndx;
            self.dir_y = ndy;
            self.cam_x = ncx;
            self.cam_y = ncy;
        }
    }

    /// What [`Player::attempt_move`] does: each axis of the candidate
    /// displacement is applied only when the cell one signed unit step
    /// away on that axis (from the cell occupied at call time) is
    /// walkable; an out-of-range destination blocks the axis.
    pub open spec fn spec_move(self, grid: Grid, mx: int, my: int) -> Player {
        let cx = self.cell_x();
        let cy = self.cell_y();
        Player {
            pos_x: if grid.walkable(cx + sign(mx), cy) {
                (self.pos_x + mx) as i64
            } else {
                self.pos_x
            },
            pos_y: if grid.walkable(cx, cy + sign(my)) {
                (self.pos_y + my) as i64
            } else {
                self.pos_y
            },
            dir_x: self.dir_x,
            dir_y: self.dir_y,
            cam_x: self.cam_x,
            cam_y: self.cam_y,
        }
    }

    /// Attempts the candidate displacement `(mx, my)`, decomposed into
    /// independent axis moves so that movement along a free axis continues
    /// even when the other axis is blocked (wall sliding).
    ///
    /// An axis is blocked exactly when the destination cell — the current
    /// cell plus the signed unit step on that axis — is a wall or lies
    /// outside the grid.
    pub fn attempt_move(&mut self, grid: &Grid, mx: i64, my: i64)
        requires
            old(self).wf(),
            grid.wf(),
            old(self).in_grid(*grid),
            -FP <= mx <= FP,
            -FP <= my <= FP,
        ensures
            *final(self) == old(self).spec_move(*grid, mx as int, my as int),
            final(self).wf(),
            final(self).in_grid(*grid),
    {
        proof {
            vstd::arithmetic::div_mod::lemma_fundamental_div_mod(self.pos_x as int, FP as int);
            vstd::arithmetic::div_mod::lemma_fundamental_div_mod(self.pos_y as int, FP as int);
        }
        let cx = fdiv(self.pos_x, FP);
        let cy = fdiv(self.pos_y, FP);
        let sx: i64 = if mx > 0 {
            1
        } else if mx < 0 {
            -1
        } else {
            0
        };
        let sy: i64 = if my > 0 {
            1
        } else if my < 0 {
            -1
        } else {
            0
        };
        if grid.is_walkable(cx + sx, cy) {
            self.pos_x = self.pos_x + mx;
        }
        if grid.is_walkable(cx, cy + sy) {
            self.pos_y = self.pos_y + my;
        }
    }
}

/// The per-frame movement intents supplied by the input source.
#[derive(Clone, Copy, PartialEq, Eq, Structural, Debug)]
pub struct InputState {
    pub forward: bool,
    pub backward: bool,
    pub turn_left: bool,
    pub turn_right: bool,
}

impl Player {
    /// One axis of the candidate displacement for a forward move of
    /// `step` fixed-point units along the facing direction.
    pub open spec fn spec_step_x(self, step: int) -> int {
        self.dir_x * step / (FP as int)
    }

    /// See [`Player::spec_step_x`].
    pub open spec fn spec_step_y(self, step: int) -> int {
        self.dir_y * step / (FP as int)
    }

    /// What [`Player::handle_input`] does: a forward move, a backward
    /// move, a left turn and a right turn, in that order, each applied
    /// only when its intent is set.
    pub open spec fn spec_input(self, grid: Grid, input: InputState, step: int, c: int, s: int) -> Player {
        let p1 = if input.forward {
            self.spec_move(grid, self.spec_step_x(step), self.spec_step_y(step))
        } else {
            self
        };
        let p2 = if input.backward {
            p1.spec_move(grid, -p1.spec_step_x(step), -p1.spec_step_y(step))
        } else {
            p1
        };
        let p3 = if input.turn_left {
            p2.spec_rotate(c, s)
        } else {
            p2
        };
        if input.turn_right {
            p3.spec_rotate(c, -s)
        } else {
            p3
        }
    }

    /// Applies one frame of input intents: moves forward or backward along
    /// the facing direction by `move_step` fixed-point units (with
    /// wall-sliding collision), then turns left or right by the rotation
    /// whose cosine and sine are `c / FP` and `s / FP`.
    pub fn handle_input(&mut self, grid: &Grid, input: InputState, move_step: i64, c: i64, s: i64)
        requires
            old(self).wf(),
            grid.wf(),
            old(self).in_grid(*grid),
            0 <= move_step <= FP / 2,
            -FP <= c <= FP,
            -FP <= s <= FP,
        ensures
            *final(self) == old(self).spec_input(*grid, input, move_step as int, c as int, s as int),
            final(self).wf(),
            final(self).in_grid(*grid),
    {
        if input.forward {
            proof {
                lemma_mul_bounds(self.dir_x as int, move_step as int, VEC_MAX as int, (FP / 2) as int);
                lemma_mul_bounds(self.dir_y as int, move_step as int, VEC_MAX as int, (FP / 2) as int);
            }
            let mx = fdiv(self.dir_x * move_step, FP);
            let my = fdiv(self.dir_y * move_step, FP);
            self.attempt_move(grid, mx, my);
        }
        if input.backward {
            proof {
                lemma_mul_bounds(self.dir_x as int, move_step as int, VEC_MAX as int, (FP / 2) as int);
                lemma_mul_bounds(self.dir_y as int, move_step as int, VEC_MAX as int, (FP / 2) as int);
            }
            let mx = fdiv(self.dir_x * move_step, FP);
            let my = fdiv(self.dir_y * move_step, FP);
            self.attempt_move(grid, -mx, -my);
        }
        if input.turn_left {
            self.rotate(c, s);
        }
        if input.turn_right {
            self.rotate(c, -s);
        }
    }
}

/// Law: wall sliding. Moving diagonally into a corner with both axes
/// independently blocked gives zero net displacement; when exactly one
/// axis is blocked, the displacement falls along the free axis only.
pub proof fn lemma_wall_slide(grid: Grid, p: Player, mx: int, my: int)
    requires
        grid.wf(),
        p.in_grid(grid),
        -FP <= mx <= FP,
        -FP <= my <= FP,
    ensures
        ({
            let q = p.spec_move(grid, mx, my);
            let x_free = grid.walkable(p.cell_x() + sign(mx), p.cell_y());
            let y_free = grid.walkable(p.cell_x(), p.cell_y() + sign(my));
            &&& (!x_free && !y_free) ==> q.pos_x == p.pos_x && q.pos_y == p.pos_y
            &&& (x_free && !y_free) ==> q.pos_x == p.pos_x + mx && q.pos_y == p.pos_y
            &&& (!x_free && y_free) ==> q.pos_x == p.pos_x && q.pos_y == p.pos_y + my
        }),
{
}

/// Law: an attempted move never places the player inside a wall cell, axis
/// by axis. When the player stands on a walkable cell and attempts a
/// displacement of at most one cell per axis, the cell reached by the
/// applied x move (paired with the old row) and by the applied y move
/// (paired with the old column) is walkable; a blocked axis leaves that
/// coordinate unchanged. The one uncovered input is the diagonal pair of
/// the two new coordinates, which may cross into an unchecked corner cell.
pub proof fn lemma_move_stays_outside_walls(grid: Grid, p: Player, mx: int, my: int)
    requires
        grid.wf(),
        p.wf(),
        p.in_grid(grid),
        -FP <= mx <= FP,
        -FP <= my <= FP,
        grid.walkable(p.cell_x(), p.cell_y()),
    ensures
        grid.walkable(p.spec_move(grid, mx, my).cell_x(), p.cell_y()),
        grid.walkable(p.cell_x(), p.spec_move(grid, mx, my).cell_y()),
{
    let q = p.spec_move(grid, mx, my);
    let cx = p.cell_x();
    let cy = p.cell_y();
    vstd::arithmetic::div_mod::lemma_fundamental_div_mod(p.pos_x as int, FP as int);
    vstd::arithmetic::div_mod::lemma_fundamental_div_mod(p.pos_y as int, FP as int);
    if grid.walkable(cx + sign(mx), cy) {
        vstd::arithmetic::div_mod::lemma_fundamental_div_mod(q.pos_x as int, FP as int);
        assert(cx - 1 <= q.cell_x() <= cx + 1);
        assert(mx >= 0 ==> q.cell_x() >= cx);
        assert(mx <= 0 ==> q.cell_x() <= cx);
    }
    if grid.walkable(cx, cy + sign(my)) {
        vstd::arithmetic::div_mod::lemma_fundamental_div_mod(q.pos_y as int, FP as int);
        assert(cy - 1 <= q.cell_y() <= cy + 1);
        assert(my >= 0 ==> q.cell_y() >= cy);
        assert(my <= 0 ==> q.cell_y() <= cy);
    }
}

} // verus!
