//! The per-frame render pass: one wall strip per screen column, floor and
//! ceiling samples per scanline below the horizon, and billboard placements
//! for the decorations. The output is plain draw-command data; a frame
//! composer owns rasterization and presentation.

use vstd::prelude::*;

use crate::fixed::{fdiv, fmod, FP};
use crate::grid::Grid;
use crate::player::{lemma_mul_bounds, InputState, Player, VEC_MAX};
use crate::projection::{
    spec_horizon, spec_row_distance, spec_strip_height, spec_strip_top, row_distance, wall_strip,
    MAX_SCREEN_H, MAX_SCREEN_W, HORIZON_DEN, HORIZON_NUM,
};
use crate::raycast::{cast_ray, spec_cast, RayHit, RAY_MAX};
use crate::sprite::{
    lemma_sdiv_bounds, project_sprite, spec_project_sprite, Decoration, SpriteCmd, WORLD_MAX,
};

verus! {

/// Depth keys are the negated distance in hundredths of a world unit.
pub const WALL_DEPTH_KEY_SCALE: i64 = 100;

/// One wall strip: column `x` textured from texel column `tex_x` of
/// texture `texture`, drawn from fixed-point pixel row `top` with height
/// `height`, ordered by depth key `z`.
#[derive(Clone, Copy, PartialEq, Eq, Structural, Debug)]
pub struct WallCmd {
    pub x: i64,
    pub texture: usize,
    pub tex_x: i64,
    pub top: i64,
    pub height: i64,
    pub z: i64,
}

/// One floor-and-ceiling sample: the texel at `(tex_x, tex_y)` (fixed-point
/// fractions of the texture) drawn at `(x, floor_y)` and mirrored at
/// `(x, ceil_y)`.
#[derive(Clone, Copy, PartialEq, Eq, Structural, Debug)]
pub struct FloorCmd {
    pub x: i64,
    pub floor_y: i64,
    pub ceil_y: i64,
    pub tex_x: i64,
    pub tex_y: i64,
}

/// Everything the frame composer needs to draw one frame.
pub struct Frame {
    pub walls: Vec<WallCmd>,
    pub wall_tops: Vec<i64>,
    pub floors: Vec<FloorCmd>,
    pub sprites: Vec<SpriteCmd>,
}

/// The camera-space offset of screen column `x`: `2x/w - 1` in fixed-point
/// units, spanning `[-FP, FP)` across the screen.
pub open spec fn spec_camera_x(x: int, w: int) -> int {
    2 * x * (FP as int) / w - (FP as int)
}

/// X component of the ray direction for column `x`: the facing direction
/// plus the camera plane scaled by the column's camera-space offset.
pub open spec fn spec_ray_dir_x(p: Player, x: int, w: int) -> int {
    p.dir_x + p.cam_x * spec_camera_x(x, w) / (FP as int)
}

/// See [`spec_ray_dir_x`].
pub open spec fn spec_ray_dir_y(p: Player, x: int, w: int) -> int {
    p.dir_y + p.cam_y * spec_camera_x(x, w) / (FP as int)
}

/// The cast result for screen column `x`.
pub open spec fn spec_column(grid: Grid, p: Player, x: int, w: int) -> Option<RayHit> {
    spec_cast(
        grid,
        p.pos_x as int,
        p.pos_y as int,
        spec_ray_dir_x(p, x, w),
        spec_ray_dir_y(p, x, w),
    )
}

/// The occlusion boundary of column `x`, used to cull floor and ceiling
/// pixels already covered by the wall strip: the strip top in fixed-point
/// pixels; the screen bottom when the column has no hit (nothing covered),
/// and the negated screen bottom when the hit distance is zero (the strip
/// covers the whole column).
pub open spec fn spec_wall_mask(grid: Grid, p: Player, x: int, w: int, h: int) -> int {
    match spec_column(grid, p, x, w) {
        None => h * (FP as int),
        Some(rh) => if rh.perp_dist <= 0 {
            -h * (FP as int)
        } else {
            spec_strip_top(h, rh.perp_dist as int)
        },
    }
}

/// The wall strip drawn for column `x`; meaningful only when the column
/// has a hit at positive distance. The texture identifier is clamped to
/// the composer's texture count `tc`.
pub open spec fn spec_wall_cmd(grid: Grid, p: Player, x: int, w: int, h: int, tc: int) -> WallCmd
    recommends
        spec_column(grid, p, x, w) is Some,
{
    let rh = spec_column(grid, p, x, w)->Some_0;
    WallCmd {
        x: x as i64,
        texture: (if (rh.wall_id as int) < tc {
            rh.wall_id as int
        } else {
            tc - 1
        }) as usize,
        tex_x: rh.tex_x,
        top: spec_strip_top(h, rh.perp_dist as int) as i64,
        height: spec_strip_height(h, rh.perp_dist as int) as i64,
        z: (-(rh.perp_dist as int * (WALL_DEPTH_KEY_SCALE as int) / (FP as int))) as i64,
    }
}

/// The wall strips of the first `n` screen columns, in column order; a
/// column with no hit in range contributes nothing and renders as
/// background.
pub open spec fn spec_wall_cmds(grid: Grid, p: Player, w: int, h: int, tc: int, n: int) -> Seq<
    WallCmd,
>
    decreases n,
{
    if n <= 0 {
        Seq::empty()
    } else {
        spec_wall_cmds(grid, p, w, h, tc, n - 1) + (match spec_column(grid, p, n - 1, w) {
            Some(rh) => if rh.perp_dist > 0 {
                seq![spec_wall_cmd(grid, p, n - 1, w, h, tc)]
            } else {
                Seq::empty()
            },
            None => Seq::empty(),
        })
    }
}

/// The occlusion boundaries of the first `n` screen columns.
pub open spec fn spec_wall_masks(grid: Grid, p: Player, w: int, h: int, n: int) -> Seq<i64>
    decreases n,
{
    if n <= 0 {
        Seq::empty()
    } else {
        spec_wall_masks(grid, p, w, h, n - 1).push(spec_wall_mask(grid, p, n - 1, w, h) as i64)
    }
}

/// Casts one ray per screen column and returns the wall draw commands
/// together with the per-column occlusion boundaries.
#[verifier::loop_isolation(false)]
pub fn render_walls(grid: &Grid, p: &Player, w: i64, h: i64, tc: usize) -> (r: (
    Vec<WallCmd>,
    Vec<i64>,
))
    requires
        grid.wf(),
        p.wf(),
        p.in_grid(*grid),
        0 < w <= MAX_SCREEN_W,
        0 < h <= MAX_SCREEN_H,
        tc >= 1,
    ensures
        r.0@ == spec_wall_cmds(*grid, *p, w as int, h as int, tc as int, w as int),
        r.1@ == spec_wall_masks(*grid, *p, w as int, h as int, w as int),
        r.1@.len() == w,
{
    let mut walls: Vec<WallCmd> = Vec::new();
    let mut masks: Vec<i64> = Vec::new();
    let mut x: i64 = 0;
    while x < w
        invariant
            0 <= x <= w,
            walls@ == spec_wall_cmds(*grid, *p, w as int, h as int, tc as int, x as int),
            masks@ == spec_wall_masks(*grid, *p, w as int, h as int, x as int),
            masks@.len() == x,
        decreases w - x,
    {
        proof {
            vstd::arithmetic::div_mod::lemma_div_multiples_vanish(2 * FP as int, w as int);
            vstd::arithmetic::div_mod::lemma_div_is_ordered(
                2 * x as int * FP as int,
                w as int * (2 * FP as int),
                w as int,
            );
            vstd::arithmetic::div_mod::lemma_div_pos_is_pos(2 * x as int * FP as int, w as int);
            assert(2 * x as int * FP as int <= w as int * (2 * FP as int));
        }
        let camera_x = fdiv(2 * x * FP, w) - FP;
        assert(camera_x == spec_camera_x(x as int, w as int) && -FP <= camera_x <= FP);
        proof {
            lemma_mul_bounds(p.cam_x as int, camera_x as int, VEC_MAX as int, FP as int);
            lemma_mul_bounds(p.cam_y as int, camera_x as int, VEC_MAX as int, FP as int);
            lemma_sdiv_bounds(
                p.cam_x as int * camera_x as int,
                FP as int,
                VEC_MAX as int * FP as int,
            );
            lemma_sdiv_bounds(
                p.cam_y as int * camera_x as int,
                FP as int,
                VEC_MAX as int * FP as int,
            );
            assert(VEC_MAX as int * FP as int / FP as int + 1 <= RAY_MAX as int);
        }
        let rdx = p.dir_x + fdiv(p.cam_x * camera_x, FP);
        let rdy = p.dir_y + fdiv(p.cam_y * camera_x, FP);
        assert(rdx == spec_ray_dir_x(*p, x as int, w as int) && -RAY_MAX <= rdx <= RAY_MAX);
        assert(rdy == spec_ray_dir_y(*p, x as int, w as int) && -RAY_MAX <= rdy <= RAY_MAX);
        let hit = cast_ray(grid, p.pos_x, p.pos_y, rdx, rdy);
        match hit {
            Some(rh) => {
                if rh.perp_dist > 0 {
                    let (top, height) = wall_strip(h, rh.perp_dist);
                    let texture = if rh.wall_id < tc {
                        rh.wall_id
                    } else {
                        tc - 1
                    };
                    proof {
                        lemma_mul_bounds(
                            rh.perp_dist as int,
                            WALL_DEPTH_KEY_SCALE as int,
                            (crate::raycast::SENTINEL as int) * (2
                                + crate::raycast::MAX_DDA_STEPS as int),
                            100,
                        );
                        vstd::arithmetic::div_mod::lemma_div_pos_is_pos(
                            rh.perp_dist as int * (WALL_DEPTH_KEY_SCALE as int),
                            FP as int,
                        );
                    }
                    let z = -fdiv(rh.perp_dist * WALL_DEPTH_KEY_SCALE, FP);
                    walls.push(WallCmd { x, texture, tex_x: rh.tex_x, top, height, z });
                    masks.push(top);
                } else {
                    masks.push(-h * FP);
                }
            },
            None => {
                masks.push(h * FP);
            },
        }
        x = x + 1;
    }
    (walls, masks)
}

/// X component of the leftmost ray of the screen (direction minus camera
/// plane).
pub open spec fn spec_ray_left_x(p: Player) -> int {
    p.dir_x - p.cam_x
}

/// See [`spec_ray_left_x`].
pub open spec fn spec_ray_left_y(p: Player) -> int {
    p.dir_y - p.cam_y
}

/// The per-column step of the floor-space coordinate on row `y`: the row
/// distance times the spread between the rightmost and leftmost rays,
/// divided over the screen width.
pub open spec fn spec_floor_step_x(p: Player, w: int, h: int, y: int) -> int
    recommends
        spec_row_distance(y, h) is Some,
{
    spec_row_distance(y, h)->Some_0 * (2 * p.cam_x) / (w * (FP as int))
}

/// See [`spec_floor_step_x`].
pub open spec fn spec_floor_step_y(p: Player, w: int, h: int, y: int) -> int
    recommends
        spec_row_distance(y, h) is Some,
{
    spec_row_distance(y, h)->Some_0 * (2 * p.cam_y) / (w * (FP as int))
}

/// The floor-space coordinate of the leftmost column on row `y`.
pub open spec fn spec_floor_start_x(p: Player, h: int, y: int) -> int
    recommends
        spec_row_distance(y, h) is Some,
{
    spec_row_distance(y, h)->Some_0 * spec_ray_left_x(p) / (FP as int) - p.pos_x
}

/// See [`spec_floor_start_x`].
pub open spec fn spec_floor_start_y(p: Player, h: int, y: int) -> int
    recommends
        spec_row_distance(y, h) is Some,
{
    spec_row_distance(y, h)->Some_0 * spec_ray_left_y(p) / (FP as int) - p.pos_y
}

/// Whether the floor and ceiling pixel of column `x` on row `y` is
/// visible: it is culled when the column's wall strip already covers it.
pub open spec fn spec_floor_visible(masks: Seq<i64>, h: int, y: int, x: int) -> bool {
    masks[x] >= (h - 1 - y) * (FP as int)
}

/// The floor-and-ceiling sample of column `x` on row `y`: the texture
/// coordinate is the fractional part of the floor-space coordinate, which
/// advances by the per-column step.
pub open spec fn spec_floor_cmd(p: Player, w: int, h: int, y: int, x: int) -> FloorCmd {
    FloorCmd {
        x: x as i64,
        floor_y: y as i64,
        ceil_y: (h - 1 - y) as i64,
        tex_x: ((spec_floor_start_x(p, h, y) + x * spec_floor_step_x(p, w, h, y)) % (
        FP as int)) as i64,
        tex_y: ((spec_floor_start_y(p, h, y) + x * spec_floor_step_y(p, w, h, y)) % (
        FP as int)) as i64,
    }
}

/// The visible samples of the first `n` columns of row `y`.
pub open spec fn spec_floor_row(
    p: Player,
    w: int,
    h: int,
    masks: Seq<i64>,
    y: int,
    n: int,
) -> Seq<FloorCmd>
    decreases n,
{
    if n <= 0 {
        Seq::empty()
    } else {
        spec_floor_row(p, w, h, masks, y, n - 1) + (if spec_floor_visible(masks, h, y, n - 1) {
            seq![spec_floor_cmd(p, w, h, y, n - 1)]
        } else {
            Seq::empty()
        })
    }
}

/// The visible samples of all rows strictly between the horizon and `y`.
pub open spec fn spec_floor_cmds(p: Player, w: int, h: int, masks: Seq<i64>, y: int) -> Seq<
    FloorCmd,
>
    decreases y,
{
    if y <= spec_horizon(h) + 1 || y <= 0 {
        Seq::empty()
    } else {
        spec_floor_cmds(p, w, h, masks, y - 1) + spec_floor_row(p, w, h, masks, y - 1, w)
    }
}

/// Walks every screen row below the horizon and returns the visible floor
/// and ceiling samples, each with its perspective-correct texture
/// coordinate. Rows at or above the horizon are excluded from sampling.
#[verifier::loop_isolation(false)]
pub fn render_floor(p: &Player, w: i64, h: i64, masks: &Vec<i64>) -> (r: Vec<FloorCmd>)
    requires
        p.wf(),
        -WORLD_MAX <= p.pos_x <= WORLD_MAX,
        -WORLD_MAX <= p.pos_y <= WORLD_MAX,
        0 < w <= MAX_SCREEN_W,
        0 < h <= MAX_SCREEN_H,
        masks@.len() == w,
    ensures
        r@ == spec_floor_cmds(*p, w as int, h as int, masks@, h as int),
{
    let mut floors: Vec<FloorCmd> = Vec::new();
    let hor = fdiv(h * HORIZON_NUM, HORIZON_DEN);
    assert(hor == spec_horizon(h as int));
    let mut y = hor + 1;
    while y < h
        invariant
            hor + 1 <= y <= h || y == hor + 1,
            floors@ == spec_floor_cmds(*p, w as int, h as int, masks@, y as int),
        decreases h - y,
    {
        let rd = match row_distance(y, h) {
            Some(d) => d,
            None => 0,
        };
        assert(Some(rd as int) == spec_row_distance(y as int, h as int));
        proof {
            lemma_mul_bounds(rd as int, 2 * p.cam_x as int, 0x10_0000, 2 * VEC_MAX as int);
            lemma_mul_bounds(rd as int, 2 * p.cam_y as int, 0x10_0000, 2 * VEC_MAX as int);
            lemma_sdiv_bounds(
                rd as int * (2 * p.cam_x as int),
                w as int * FP as int,
                0x10_0000 * (2 * VEC_MAX as int),
            );
            lemma_sdiv_bounds(
                rd as int * (2 * p.cam_y as int),
                w as int * FP as int,
                0x10_0000 * (2 * VEC_MAX as int),
            );
            lemma_mul_bounds(rd as int, spec_ray_left_x(*p), 0x10_0000, 2 * VEC_MAX as int);
            lemma_mul_bounds(rd as int, spec_ray_left_y(*p), 0x10_0000, 2 * VEC_MAX as int);
            lemma_sdiv_bounds(
                rd as int * spec_ray_left_x(*p),
                FP as int,
                0x10_0000 * (2 * VEC_MAX as int),
            );
            lemma_sdiv_bounds(
                rd as int * spec_ray_left_y(*p),
                FP as int,
                0x10_0000 * (2 * VEC_MAX as int),
            );
        }
        let step_x = fdiv(rd * (2 * p.cam_x), w * FP);
        let step_y = fdiv(rd * (2 * p.cam_y), w * FP);
        let mut fx = fdiv(rd * (p.dir_x - p.cam_x), FP) - p.pos_x;
        let mut fy = fdiv(rd * (p.dir_y - p.cam_y), FP) - p.pos_y;
        assert(step_x == spec_floor_step_x(*p, w as int, h as int, y as int));
        assert(step_y == spec_floor_step_y(*p, w as int, h as int, y as int));
        assert(fx == spec_floor_start_x(*p, h as int, y as int));
        assert(fy == spec_floor_start_y(*p, h as int, y as int));
        let ghost fx0 = fx as int;
        let ghost fy0 = fy as int;
        let ghost sx = step_x as int;
        let ghost sy = step_y as int;
        let mut x: i64 = 0;
        while x < w
            invariant
                0 <= x <= w,
                fx as int == fx0 + x as int * sx,
                fy as int == fy0 + x as int * sy,
                -0x1_0000_0000_0000 <= fx <= 0x1_0000_0000_0000,
                -0x1_0000_0000_0000 <= fy <= 0x1_0000_0000_0000,
                floors@ == spec_floor_cmds(*p, w as int, h as int, masks@, y as int)
                    + spec_floor_row(*p, w as int, h as int, masks@, y as int, x as int),
            decreases w - x,
        {
            if masks[x as usize] >= (h - 1 - y) * FP {
                let tex_x = fmod(fx, FP);
                let tex_y = fmod(fy, FP);
                floors.push(
                    FloorCmd { x, floor_y: y, ceil_y: h - 1 - y, tex_x, tex_y },
                );
            }
            proof {
                assert((x as int + 1) * sx == x as int * sx + sx) by (nonlinear_arith);
                assert((x as int + 1) * sy == x as int * sy + sy) by (nonlinear_arith);
                assert(-0x2000_0000_0000 <= (x as int + 1) * sx <= 0x2000_0000_0000
                    && -0x2000_0000_0000 <= (x as int + 1) * sy <= 0x2000_0000_0000)
                    by (nonlinear_arith)
                    requires
                        0 <= x as int && x as int + 1 <= 4096,
                        -0x1_0000_0001 <= sx <= 0x1_0000_0001,
                        -0x1_0000_0001 <= sy <= 0x1_0000_0001,
                ;
            }
            fx = fx + step_x;
            fy = fy + step_y;
            x = x + 1;
        }
        y = y + 1;
    }
    floors
}

/// The coordinates of every decoration are bounded, so the sprite
/// projector can transform them without overflow.
pub open spec fn decorations_ok(ds: Seq<Decoration>) -> bool {
    forall|i: int|
        0 <= i < ds.len() ==> -WORLD_MAX <= (#[trigger] ds[i]).pos_x <= WORLD_MAX && -WORLD_MAX
            <= ds[i].pos_y <= WORLD_MAX
}

/// The billboard placements of the first `n` decorations, in order; a
/// decoration at or behind the camera plane contributes nothing.
pub open spec fn spec_sprite_cmds(p: Player, ds: Seq<Decoration>, w: int, h: int, n: int) -> Seq<
    SpriteCmd,
>
    decreases n,
{
    if n <= 0 {
        Seq::empty()
    } else {
        spec_sprite_cmds(p, ds, w, h, n - 1) + (match spec_project_sprite(p, ds[n - 1], w, h) {
            Some(cmd) => seq![cmd],
            None => Seq::empty(),
        })
    }
}

/// Projects every decoration and returns the placements of those in front
/// of the camera plane, in decoration order.
#[verifier::loop_isolation(false)]
pub fn render_sprites(p: &Player, ds: &Vec<Decoration>, w: i64, h: i64) -> (r: Vec<SpriteCmd>)
    requires
        p.wf(),
        -WORLD_MAX <= p.pos_x <= WORLD_MAX,
        -WORLD_MAX <= p.pos_y <= WORLD_MAX,
        decorations_ok(ds@),
        0 < w <= MAX_SCREEN_W,
        0 < h <= MAX_SCREEN_H,
    ensures
        r@ == spec_sprite_cmds(*p, ds@, w as int, h as int, ds@.len() as int),
{
    let mut sprites: Vec<SpriteCmd> = Vec::new();
    let mut i: usize = 0;
    while i < ds.len()
        invariant
            0 <= i <= ds@.len(),
            sprites@ == spec_sprite_cmds(*p, ds@, w as int, h as int, i as int),
        decreases ds@.len() - i,
    {
        match project_sprite(p, &ds[i], w, h) {
            Some(cmd) => {
                sprites.push(cmd);
            },
            None => {},
        }
        i = i + 1;
    }
    sprites
}

/// The whole simulation state: the level grid, the player pose, and the
/// level's decorations. The driver loop calls [`GameState::update`] with
/// the frame's input snapshot, then [`GameState::render`] for the frame's
/// draw commands.
pub struct GameState {
    pub grid: Grid,
    pub player: Player,
    pub decorations: Vec<Decoration>,
}

impl GameState {
    /// Well-formedness: the grid is rectangular, the player is inside it,
    /// and every decoration has bounded coordinates.
    pub open spec fn wf(self) -> bool {
        &&& self.grid.wf()
        &&& self.player.wf()
        &&& self.player.in_grid(self.grid)
        &&& decorations_ok(self.decorations@)
    }

    /// Builds the simulation state; the player direction is normalized on
    /// creation. Returns `None` exactly when the player pose is rejected
    /// (see [`Player::new`]) or a decoration lies out of range.
    #[verifier::loop_isolation(false)]
    pub fn new(
        grid: Grid,
        pos_x: i64,
        pos_y: i64,
        dir_x: i64,
        dir_y: i64,
        decorations: Vec<Decoration>,
    ) -> (r: Option<GameState>)
        requires
            grid.wf(),
            -crate::player::DIR_IN_MAX <= dir_x <= crate::player::DIR_IN_MAX,
            -crate::player::DIR_IN_MAX <= dir_y <= crate::player::DIR_IN_MAX,
        ensures
            (match r {
                Some(gs) => Player::new_accepts(
                    grid,
                    pos_x as int,
                    pos_y as int,
                    dir_x as int,
                    dir_y as int,
                ) && decorations_ok(decorations@) && gs.grid == grid && gs.decorations
                    == decorations && gs.player == Player::spec_new(
                    pos_x as int,
                    pos_y as int,
                    dir_x as int,
                    dir_y as int,
                ) && gs.wf(),
                None => !(Player::new_accepts(
                    grid,
                    pos_x as int,
                    pos_y as int,
                    dir_x as int,
                    dir_y as int,
                ) && decorations_ok(decorations@)),
            }),
    {
        let player = match Player::new(&grid, pos_x, pos_y, dir_x, dir_y) {
            Some(p) => p,
            None => {
                return None;
            },
        };
        let mut i: usize = 0;
        while i < decorations.len()
            invariant
                0 <= i <= decorations@.len(),
                forall|j: int|
                    0 <= j < i ==> -WORLD_MAX <= (#[trigger] decorations@[j]).pos_x <= WORLD_MAX
                        && -WORLD_MAX <= decorations@[j].pos_y <= WORLD_MAX,
            decreases decorations@.len() - i,
        {
            let d = decorations[i];
            if d.pos_x < -WORLD_MAX || d.pos_x > WORLD_MAX || d.pos_y < -WORLD_MAX || d.pos_y
                > WORLD_MAX {
                return None;
            }
            i = i + 1;
        }
        Some(GameState { grid, player, decorations })
    }

    /// Applies one frame of input to the player; the level itself never
    /// changes. See [`Player::handle_input`].
    pub fn update(&mut self, input: InputState, move_step: i64, c: i64, s: i64)
        requires
            old(self).wf(),
            0 <= move_step <= FP / 2,
            -FP <= c <= FP,
            -FP <= s <= FP,
        ensures
            final(self).grid == old(self).grid,
            final(self).decorations == old(self).decorations,
            final(self).player == old(self).player.spec_input(
                old(self).grid,
                input,
                move_step as int,
                c as int,
                s as int,
            ),
            final(self).wf(),
    {
        self.player.handle_input(&self.grid, input, move_step, c, s);
    }

    /// Renders one frame: wall strips per column, the visible floor and
    /// ceiling samples per row below the horizon, and the billboard
    /// placements of the decorations, all as plain draw-command data for
    /// the frame composer. `tex_count` is the composer's wall-texture
    /// count; wall identifiers are clamped to it.
    pub fn render(&self, w: i64, h: i64, tex_count: usize) -> (f: Frame)
        requires
            self.wf(),
            0 < w <= MAX_SCREEN_W,
            0 < h <= MAX_SCREEN_H,
            tex_count >= 1,
        ensures
            f.walls@ == spec_wall_cmds(
                self.grid,
                self.player,
                w as int,
                h as int,
                tex_count as int,
                w as int,
            ),
            f.wall_tops@ == spec_wall_masks(self.grid, self.player, w as int, h as int, w as int),
            f.floors@ == spec_floor_cmds(
                self.player,
                w as int,
                h as int,
                spec_wall_masks(self.grid, self.player, w as int, h as int, w as int),
                h as int,
            ),
            f.sprites@ == spec_sprite_cmds(
                self.player,
                self.decorations@,
                w as int,
                h as int,
                self.decorations@.len() as int,
            ),
    {
        proof {
            assert(self.grid.spec_width() * (FP as int) <= (crate::grid::MAX_DIM as int) * (
            FP as int));
            assert(self.grid.spec_height() * (FP as int) <= (crate::grid::MAX_DIM as int) * (
            FP as int));
        }
        let (walls, masks) = render_walls(&self.grid, &self.player, w, h, tex_count);
        let floors = render_floor(&self.player, w, h, &masks);
        let sprites = render_sprites(&self.player, &self.decorations, w, h);
        Frame { walls, wall_tops: masks, floors, sprites }
    }
}

} // verus!
