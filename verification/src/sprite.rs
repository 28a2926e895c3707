//! The sprite projector: billboarded decorations transformed into screen
//! space through the inverse of the camera basis.

use vstd::prelude::*;

use crate::fixed::{fdiv, sdiv, spec_sdiv, FP};
use crate::player::{lemma_mul_bounds, Player, VEC_MAX};
use crate::projection::{MAX_SCREEN_H, MAX_SCREEN_W};

verus! {

/// The scale constant of sprite projection: a sprite at depth
/// `SPRITE_SCALE` world units is drawn at unit scale.
pub const SPRITE_SCALE: i64 = 2;

/// Depth keys are the negated depth in hundredths of a world unit, so a
/// nearer object carries a larger key and draws on top.
pub const DEPTH_KEY_SCALE: i64 = 100;

/// The screen-X ratio is clamped to this many fixed-point units, a band
/// several screens wide; placements beyond it stay far off screen either
/// way and the composer clips them.
pub const RATIO_LIMIT: i64 = 16 * FP;

/// Bound on world coordinates of the player and of decorations.
pub const WORLD_MAX: i64 = 4096 * 1024;

/// A decoration: a world position, an opaque visual handle into the
/// composer's texture arena, and a facing flag.
#[derive(Clone, Copy, PartialEq, Eq, Structural, Debug)]
pub struct Decoration {
    pub sprite: usize,
    pub pos_x: i64,
    pub pos_y: i64,
    pub facing: bool,
}

impl Decoration {
    /// Builds a decoration.
    pub fn new(sprite: usize, pos_x: i64, pos_y: i64, facing: bool) -> (d: Decoration)
        ensures
            d == (Decoration { sprite, pos_x, pos_y, facing }),
    {
        Decoration { sprite, pos_x, pos_y, facing }
    }

    /// The visual handle.
    pub fn sprite(&self) -> (s: usize)
        ensures
            s == self.sprite,
    {
        self.sprite
    }

    /// The world position.
    pub fn position(&self) -> (p: (i64, i64))
        ensures
            p.0 == self.pos_x,
            p.1 == self.pos_y,
    {
        (self.pos_x, self.pos_y)
    }
}

/// A billboard placement handed to the frame composer.
#[derive(Clone, Copy, PartialEq, Eq, Structural, Debug)]
pub struct SpriteCmd {
    /// The visual handle of the decoration.
    pub sprite: usize,
    /// Screen X of the billboard center, in fixed-point pixels.
    pub screen_x: i64,
    /// Screen Y of the billboard center: the mid-screen row.
    pub screen_y: i64,
    /// Billboard scale in fixed-point units.
    pub scale: i64,
    /// Camera-space depth in fixed-point world units; always positive.
    pub depth: i64,
    /// Depth key for occlusion ordering; nearer sprites get larger keys.
    pub z: i64,
}

/// Determinant of the camera basis `[camera_plane, direction]`, in
/// fixed-point-squared units; zero means the basis is degenerate.
pub open spec fn spec_sprite_det(p: Player) -> int {
    p.cam_x * p.dir_y - p.dir_x * p.cam_y
}

/// Camera-space X of a world point, through the inverse camera basis.
pub open spec fn spec_sprite_tx(p: Player, sx: int, sy: int) -> int
    recommends
        spec_sprite_det(p) != 0,
{
    spec_sdiv((FP as int) * (p.dir_y * (sx - p.pos_x) - p.dir_x * (sy - p.pos_y)), spec_sprite_det(
    p))
}

/// Camera-space depth of a world point, through the inverse camera basis.
pub open spec fn spec_sprite_ty(p: Player, sx: int, sy: int) -> int
    recommends
        spec_sprite_det(p) != 0,
{
    spec_sdiv((FP as int) * (p.cam_x * (sy - p.pos_y) - p.cam_y * (sx - p.pos_x)), spec_sprite_det(
    p))
}

/// What [`project_sprite`] returns: `None` exactly for a degenerate
/// camera basis or a sprite at or behind the camera plane (depth `<= 0`);
/// otherwise the screen placement, scale and depth key of the billboard.
pub open spec fn spec_project_sprite(p: Player, d: Decoration, w: int, h: int) -> Option<
    SpriteCmd,
> {
    let det = spec_sprite_det(p);
    if det == 0 {
        None
    } else {
        let tx = spec_sprite_tx(p, d.pos_x as int, d.pos_y as int);
        let ty = spec_sprite_ty(p, d.pos_x as int, d.pos_y as int);
        if ty <= 0 {
            None
        } else {
            let r0 = tx * (FP as int) / ty;
            let ratio = if r0 > RATIO_LIMIT {
                RATIO_LIMIT as int
            } else if r0 < -RATIO_LIMIT {
                -RATIO_LIMIT as int
            } else {
                r0
            };
            Some(
                SpriteCmd {
                    sprite: d.sprite,
                    screen_x: (w * ((FP as int) + ratio) / 2) as i64,
                    screen_y: (h * (FP as int) / 2) as i64,
                    scale: ((SPRITE_SCALE as int) * (FP as int) * (FP as int) / ty) as i64,
                    depth: ty as i64,
                    z: (-(ty * (DEPTH_KEY_SCALE as int) / (FP as int))) as i64,
                },
            )
        }
    }
}

/// Projects one decoration into screen space via the inverse of the 2x2
/// camera basis `[camera_plane, direction]`. Returns `None` exactly when
/// the basis is degenerate or the sprite sits at or behind the camera
/// plane; a sprite behind the player is never emitted as a placement.
pub fn project_sprite(p: &Player, d: &Decoration, screen_w: i64, screen_h: i64) -> (r: Option<
    SpriteCmd,
>)
    requires
        p.wf(),
        -WORLD_MAX <= p.pos_x <= WORLD_MAX,
        -WORLD_MAX <= p.pos_y <= WORLD_MAX,
        -WORLD_MAX <= d.pos_x <= WORLD_MAX,
        -WORLD_MAX <= d.pos_y <= WORLD_MAX,
        0 < screen_w <= MAX_SCREEN_W,
        0 < screen_h <= MAX_SCREEN_H,
    ensures
        r == spec_project_sprite(*p, *d, screen_w as int, screen_h as int),
        (r is None) == (spec_sprite_det(*p) == 0 || spec_sprite_ty(
            *p,
            d.pos_x as int,
            d.pos_y as int,
        ) <= 0),
        (r matches Some(cmd) ==> cmd.depth > 0),
{
    proof {
        lemma_mul_bounds(p.cam_x as int, p.dir_y as int, VEC_MAX as int, VEC_MAX as int);
        lemma_mul_bounds(p.dir_x as int, p.cam_y as int, VEC_MAX as int, VEC_MAX as int);
    }
    let det = p.cam_x * p.dir_y - p.dir_x * p.cam_y;
    if det == 0 {
        return None;
    }
    let rel_x = d.pos_x - p.pos_x;
    let rel_y = d.pos_y - p.pos_y;
    proof {
        lemma_mul_bounds(p.dir_y as int, rel_x as int, VEC_MAX as int, 2 * WORLD_MAX as int);
        lemma_mul_bounds(p.dir_x as int, rel_y as int, VEC_MAX as int, 2 * WORLD_MAX as int);
        lemma_mul_bounds(p.cam_x as int, rel_y as int, VEC_MAX as int, 2 * WORLD_MAX as int);
        lemma_mul_bounds(p.cam_y as int, rel_x as int, VEC_MAX as int, 2 * WORLD_MAX as int);
    }
    let num_x = FP * (p.dir_y * rel_x - p.dir_x * rel_y);
    let num_y = FP * (p.cam_x * rel_y - p.cam_y * rel_x);
    let tx = sdiv(num_x, det);
    let ty = sdiv(num_y, det);
    if ty <= 0 {
        return None;
    }
    proof {
        lemma_sdiv_bounds(num_x as int, det as int, 0x2000_0000_0000);
        lemma_sdiv_bounds(num_y as int, det as int, 0x2000_0000_0000);
        lemma_mul_bounds(tx as int, FP as int, 0x2000_0000_0001, FP as int);
        lemma_sdiv_bounds(tx as int * FP as int, ty as int, 0x100_0000_0000_0000);
    }
    let r0 = fdiv(tx * FP, ty);
    let ratio = if r0 > RATIO_LIMIT {
        RATIO_LIMIT
    } else if r0 < -RATIO_LIMIT {
        -RATIO_LIMIT
    } else {
        r0
    };
    proof {
        lemma_mul_bounds(
            screen_w as int,
            FP as int + ratio as int,
            MAX_SCREEN_W as int,
            FP as int + RATIO_LIMIT as int,
        );
    }
    let screen_x = fdiv(screen_w * (FP + ratio), 2);
    let screen_y = fdiv(screen_h * FP, 2);
    let scale = fdiv(SPRITE_SCALE * FP * FP, ty);
    proof {
        lemma_mul_bounds(ty as int, DEPTH_KEY_SCALE as int, 0x2000_0000_0000, 100);
        vstd::arithmetic::div_mod::lemma_div_pos_is_pos(
            (ty as int) * (DEPTH_KEY_SCALE as int),
            FP as int,
        );
    }
    let z = -fdiv(ty * DEPTH_KEY_SCALE, FP);
    Some(SpriteCmd { sprite: d.sprite, screen_x, screen_y, scale, depth: ty, z })
}

/// The magnitude of a quotient is no larger than the magnitude bound of
/// its dividend, for any nonzero divisor under sign-normalized division.
pub proof fn lemma_sdiv_bounds(a: int, b: int, k: int)
    requires
        b != 0,
        -k <= a <= k,
        0 <= k,
    ensures
        -k - 1 <= spec_sdiv(a, b) <= k,
{
    if b > 0 {
        vstd::arithmetic::div_mod::lemma_fundamental_div_mod(a, b);
        assert(-k - 1 <= a / b <= k) by (nonlinear_arith)
            requires
                b >= 1,
                -k <= a <= k,
                0 <= k,
                a == b * (a / b) + a % b,
                0 <= a % b < b,
        ;
    } else {
        vstd::arithmetic::div_mod::lemma_fundamental_div_mod(-a, -b);
        assert(-k - 1 <= (-a) / (-b) <= k) by (nonlinear_arith)
            requires
                -b >= 1,
                -k <= -a <= k,
                0 <= k,
                -a == (-b) * ((-a) / (-b)) + (-a) % (-b),
                0 <= (-a) % (-b) < -b,
        ;
    }
}

} // verus!
