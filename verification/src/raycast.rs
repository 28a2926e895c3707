//! The wall caster: grid DDA ray traversal.
//!
//! For each ray the caster walks the grid cell by cell, always advancing
//! along the axis whose accumulated side distance is smaller, until it steps
//! into a wall cell or exhausts the iteration cap. The cap is the designed
//! escape hatch for open or malformed maps: a capped ray reports no hit and
//! the column renders as background.

use vstd::prelude::*;

use crate::fixed::{fdiv, fmod, FP};
use crate::grid::{Grid, Tile};

verus! {

/// Per-axis step distance used when a ray axis component is exactly zero:
/// a very large, finite sentinel instead of a division by zero.
pub const SENTINEL: i64 = 0x4000_0000;

/// Iteration cap of the DDA loop; generous enough for a ray to cross the
/// largest map, and the escape hatch that keeps traversal finite on open
/// maps.
pub const MAX_DDA_STEPS: usize = 16384;

/// Bound on the components of a ray direction vector.
pub const RAY_MAX: i64 = 4 * FP;

/// Texel columns per wall texture.
pub const TEX_SIZE: i64 = 64;

/// Which grid line the ray crossed when it hit: a vertical one (a column
/// boundary, east or west face) or a horizontal one (a row boundary, north
/// or south face). The side selects the texture axis and the shading.
#[derive(Clone, Copy, PartialEq, Eq, Structural, Debug)]
pub enum Side {
    EastWest,
    NorthSouth,
}

/// The result of one wall cast.
#[derive(Clone, Copy, PartialEq, Eq, Structural, Debug)]
pub struct RayHit {
    /// Perpendicular wall distance in fixed-point world units: measured
    /// along the camera's forward axis, which avoids fisheye distortion.
    pub perp_dist: i64,
    /// Which grid line was crossed on the hit.
    pub side: Side,
    /// The wall identifier of the hit cell.
    pub wall_id: usize,
    /// Column of the hit cell.
    pub cell_x: i64,
    /// Row of the hit cell.
    pub cell_y: i64,
    /// Wall-local texture U coordinate: the fractional part of the
    /// wall-space hit coordinate, always in `[0, FP)`.
    pub tex_u: i64,
    /// Texel column in `[0, TEX_SIZE)`, mirrored depending on ray
    /// direction and side so the texture reads consistently from either
    /// face.
    pub tex_x: i64,
}

/// A wall cell sits at `(cx, cy)`.
pub open spec fn is_wall_at(grid: Grid, cx: int, cy: int) -> bool {
    grid.in_bounds(cx, cy) && grid.tile(cx, cy) is Wall
}

/// The wall identifier at `(cx, cy)`.
pub open spec fn wall_id_at(grid: Grid, cx: int, cy: int) -> usize
    recommends
        is_wall_at(grid, cx, cy),
{
    match grid.tile(cx, cy) {
        Tile::Wall(id) => id,
        Tile::Floor => 0,
    }
}

/// Signed unit step of the DDA on one axis.
pub open spec fn spec_ray_step(rd: int) -> int {
    if rd < 0 {
        -1
    } else {
        1
    }
}

/// Per-axis step distance `FP * |1 / rd|` in fixed-point world units, with
/// the sentinel substituted when the component is zero.
pub open spec fn spec_ray_delta(rd: int) -> int {
    if rd == 0 {
        SENTINEL as int
    } else if rd < 0 {
        (FP as int) * (FP as int) / (-rd)
    } else {
        (FP as int) * (FP as int) / rd
    }
}

/// Initial side distance from `pos` to the first grid line on one axis.
pub open spec fn spec_ray_init(pos: int, rd: int) -> int {
    let c = pos / (FP as int);
    let delta = spec_ray_delta(rd);
    if rd < 0 {
        (pos - c * (FP as int)) * delta / (FP as int)
    } else {
        (c * (FP as int) + (FP as int) - pos) * delta / (FP as int)
    }
}

/// Where the DDA stopped: the wall cell, the crossed side, and the
/// accumulated side distance on the hit axis (including the final step).
pub struct DdaStop {
    pub map_x: int,
    pub map_y: int,
    pub side: Side,
    pub dist: int,
}

/// The DDA traversal itself: advance along whichever axis has the smaller
/// accumulated side distance, record the crossed side, and stop in the
/// first wall cell; `None` when `fuel` runs out first.
pub open spec fn spec_dda(
    grid: Grid,
    map_x: int,
    map_y: int,
    step_x: int,
    step_y: int,
    delta_x: int,
    delta_y: int,
    xd: int,
    yd: int,
    fuel: nat,
) -> Option<DdaStop>
    decreases fuel,
{
    if fuel == 0 {
        None
    } else if xd < yd {
        let nxd = xd + delta_x;
        let nmx = map_x + step_x;
        if is_wall_at(grid, nmx, map_y) {
            Some(DdaStop { map_x: nmx, map_y, side: Side::EastWest, dist: nxd })
        } else {
            spec_dda(grid, nmx, map_y, step_x, step_y, delta_x, delta_y, nxd, yd, (fuel
                - 1) as nat)
        }
    } else {
        let nyd = yd + delta_y;
        let nmy = map_y + step_y;
        if is_wall_at(grid, map_x, nmy) {
            Some(DdaStop { map_x, map_y: nmy, side: Side::NorthSouth, dist: nyd })
        } else {
            spec_dda(grid, map_x, nmy, step_x, step_y, delta_x, delta_y, xd, nyd, (fuel
                - 1) as nat)
        }
    }
}

/// Whether the texture U coordinate is mirrored for this hit, so that a
/// wall face reads consistently when viewed from either direction.
pub open spec fn spec_mirrored(side: Side, rdx: int, rdy: int) -> bool {
    (side is EastWest && rdx > 0) || (side is NorthSouth && rdy < 0)
}

/// The full hit record derived from where the DDA stopped: the
/// perpendicular distance drops the final step so it measures the entering
/// distance; the wall-space coordinate is taken on the axis orthogonal to
/// the crossed side, and its fractional part is the texture U.
pub open spec fn spec_hit_record(
    grid: Grid,
    pos_x: int,
    pos_y: int,
    rdx: int,
    rdy: int,
    stop: DdaStop,
) -> RayHit {
    let perp = if stop.side is EastWest {
        stop.dist - spec_ray_delta(rdx)
    } else {
        stop.dist - spec_ray_delta(rdy)
    };
    let wall_pos = if stop.side is EastWest {
        pos_y + perp * rdy / (FP as int)
    } else {
        pos_x + perp * rdx / (FP as int)
    };
    let u = wall_pos % (FP as int);
    let tx = u * (TEX_SIZE as int) / (FP as int);
    RayHit {
        perp_dist: perp as i64,
        side: stop.side,
        wall_id: wall_id_at(grid, stop.map_x, stop.map_y),
        cell_x: stop.map_x as i64,
        cell_y: stop.map_y as i64,
        tex_u: u as i64,
        tex_x: (if spec_mirrored(stop.side, rdx, rdy) {
            TEX_SIZE - 1 - tx
        } else {
            tx
        }) as i64,
    }
}

/// What [`cast_ray`] returns for a ray from `(pos_x, pos_y)` along
/// `(rdx, rdy)`.
pub open spec fn spec_cast(grid: Grid, pos_x: int, pos_y: int, rdx: int, rdy: int) -> Option<
    RayHit,
> {
    let stop = spec_dda(
        grid,
        pos_x / (FP as int),
        pos_y / (FP as int),
        spec_ray_step(rdx),
        spec_ray_step(rdy),
        spec_ray_delta(rdx),
        spec_ray_delta(rdy),
        spec_ray_init(pos_x, rdx),
        spec_ray_init(pos_y, rdy),
        MAX_DDA_STEPS as nat,
    );
    match stop {
        None => None,
        Some(s) => Some(spec_hit_record(grid, pos_x, pos_y, rdx, rdy, s)),
    }
}

/// Induction step for [`lemma_corridor_cast`]: walking a clear column of
/// cells, the DDA keeps stepping rows until it enters the wall row, and
/// the accumulated side distance on arrival is exactly the fixed-point
/// distance from the start to that row's far grid line.
proof fn lemma_corridor_dda(
    grid: Grid,
    cx: int,
    wall_row: int,
    j: int,
    pos_y: int,
    xd0: int,
    fuel: nat,
)
    requires
        0 <= wall_row < j,
        is_wall_at(grid, cx, wall_row),
        forall|i: int| wall_row < i <= j ==> !#[trigger] is_wall_at(grid, cx, i),
        j - wall_row <= fuel,
        pos_y - (wall_row + 1) * (FP as int) <= xd0,
    ensures
        spec_dda(
            grid,
            cx,
            j,
            1,
            -1,
            SENTINEL as int,
            FP as int,
            xd0,
            pos_y - j * (FP as int),
            fuel,
        ) == Some(
            DdaStop {
                map_x: cx,
                map_y: wall_row,
                side: Side::NorthSouth,
                dist: pos_y - wall_row * (FP as int),
            },
        ),
    decreases j - wall_row,
{
    let yd = pos_y - j * (FP as int);
    assert(!(xd0 < yd));
    assert(yd + FP as int == pos_y - (j - 1) * (FP as int));
    if j - 1 == wall_row {
    } else {
        assert(!is_wall_at(grid, cx, j - 1));
        lemma_corridor_dda(grid, cx, wall_row, j - 1, pos_y, xd0, (fuel - 1) as nat);
    }
}

/// Law: a ray cast straight down a clear corridor reports exactly the
/// distance to the wall it enters. For a player column whose cells are
/// walkable from the wall row up to the player's row, the cast along
/// `(0, -FP)` hits that wall with a row-crossing side and a perpendicular
/// distance of exactly `pos_y - (wall_row + 1) * FP`: the fixed-point
/// distance from the player to the wall's near face. (The wall must lie
/// within the sentinel range of the unused axis, under 1024 world units.)
pub proof fn lemma_corridor_cast(grid: Grid, pos_x: int, pos_y: int, wall_row: int)
    requires
        grid.wf(),
        0 <= pos_x && pos_x < grid.spec_width() * (FP as int),
        0 <= pos_y && pos_y < grid.spec_height() * (FP as int),
        0 <= wall_row < pos_y / (FP as int),
        is_wall_at(grid, pos_x / (FP as int), wall_row),
        forall|i: int|
            wall_row < i <= pos_y / (FP as int) ==> !#[trigger] is_wall_at(
                grid,
                pos_x / (FP as int),
                i,
            ),
        pos_y - (wall_row + 1) * (FP as int) < (SENTINEL as int) / (FP as int),
    ensures
        spec_cast(grid, pos_x, pos_y, 0, -(FP as int)) is Some,
        ({
            let rh = spec_cast(grid, pos_x, pos_y, 0, -(FP as int))->Some_0;
            &&& rh.perp_dist == pos_y - (wall_row + 1) * (FP as int)
            &&& rh.side is NorthSouth
            &&& rh.cell_x == pos_x / (FP as int)
            &&& rh.cell_y == wall_row
        }),
{
    let fp = FP as int;
    let cx = pos_x / fp;
    let cy = pos_y / fp;
    vstd::arithmetic::div_mod::lemma_fundamental_div_mod(pos_x, fp);
    vstd::arithmetic::div_mod::lemma_fundamental_div_mod(pos_y, fp);
    assert(spec_ray_delta(-fp) == fp);
    assert(spec_ray_delta(0) == SENTINEL as int);
    assert(spec_ray_step(0) == 1 && spec_ray_step(-fp) == -1);

    // The initial y side distance is the fraction of the player's cell.
    let yfrac = pos_y - cy * fp;
    vstd::arithmetic::div_mod::lemma_div_multiples_vanish(yfrac, fp);
    assert(yfrac * fp == fp * yfrac) by (nonlinear_arith);
    assert(spec_ray_init(pos_y, -fp) == pos_y - cy * fp);

    // The x side distance starts at least a whole sentinel-per-cell away.
    let xfrac = cx * fp + fp - pos_x;
    assert(1 <= xfrac <= fp);
    let xd0 = spec_ray_init(pos_x, 0);
    vstd::arithmetic::div_mod::lemma_div_is_ordered(
        SENTINEL as int,
        xfrac * (SENTINEL as int),
        fp,
    );
    assert((SENTINEL as int) / fp == 0x100000);
    assert(xd0 >= 0x100000);

    // The walk fits in the iteration cap.
    assert(cy < grid.spec_height()) by {
        vstd::arithmetic::div_mod::lemma_div_is_ordered(
            pos_y,
            grid.spec_height() * fp - 1,
            fp,
        );
        vstd::arithmetic::div_mod::lemma_fundamental_div_mod(grid.spec_height() * fp - 1, fp);
        assert((grid.spec_height() * fp - 1) / fp == grid.spec_height() - 1) by (nonlinear_arith)
            requires
                fp == 1024,
                grid.spec_height() * fp - 1 == fp * ((grid.spec_height() * fp - 1) / fp) + (
                grid.spec_height() * fp - 1) % fp,
                0 <= (grid.spec_height() * fp - 1) % fp < fp,
                grid.spec_height() >= 1,
        ;
    }
    assert(cy - wall_row <= MAX_DDA_STEPS as int);

    lemma_corridor_dda(grid, cx, wall_row, cy, pos_y, xd0, MAX_DDA_STEPS as nat);
}

/// Induction step for [`lemma_mirror_opposite_faces`], eastward travel:
/// walking a clear row of cells toward a wall column on the right, the
/// DDA steps columns until it enters the wall column.
proof fn lemma_row_dda_east(
    grid: Grid,
    cy: int,
    wall_col: int,
    j: int,
    pos_x: int,
    yd0: int,
    fuel: nat,
)
    requires
        j < wall_col,
        is_wall_at(grid, wall_col, cy),
        forall|i: int| j < i < wall_col ==> !#[trigger] is_wall_at(grid, i, cy),
        wall_col - j <= fuel,
        wall_col * (FP as int) - pos_x < yd0,
    ensures
        spec_dda(
            grid,
            j,
            cy,
            1,
            1,
            FP as int,
            SENTINEL as int,
            (j + 1) * (FP as int) - pos_x,
            yd0,
            fuel,
        ) == Some(
            DdaStop {
                map_x: wall_col,
                map_y: cy,
                side: Side::EastWest,
                dist: (wall_col + 1) * (FP as int) - pos_x,
            },
        ),
    decreases wall_col - j,
{
    let xd = (j + 1) * (FP as int) - pos_x;
    assert(xd < yd0);
    assert(xd + FP as int == (j + 2) * (FP as int) - pos_x);
    if j + 1 == wall_col {
    } else {
        assert(!is_wall_at(grid, j + 1, cy));
        lemma_row_dda_east(grid, cy, wall_col, j + 1, pos_x, yd0, (fuel - 1) as nat);
    }
}

/// Induction step for [`lemma_mirror_opposite_faces`], westward travel:
/// the symmetric walk toward a wall column on the left.
proof fn lemma_row_dda_west(
    grid: Grid,
    cy: int,
    wall_col: int,
    j: int,
    pos_x: int,
    yd0: int,
    fuel: nat,
)
    requires
        wall_col < j,
        is_wall_at(grid, wall_col, cy),
        forall|i: int| wall_col < i < j ==> !#[trigger] is_wall_at(grid, i, cy),
        j - wall_col <= fuel,
        pos_x - (wall_col + 1) * (FP as int) < yd0,
    ensures
        spec_dda(
            grid,
            j,
            cy,
            -1,
            1,
            FP as int,
            SENTINEL as int,
            pos_x - j * (FP as int),
            yd0,
            fuel,
        ) == Some(
            DdaStop {
                map_x: wall_col,
                map_y: cy,
                side: Side::EastWest,
                dist: pos_x - wall_col * (FP as int),
            },
        ),
    decreases j - wall_col,
{
    let xd = pos_x - j * (FP as int);
    assert(xd < yd0);
    assert(xd + FP as int == pos_x - (j - 1) * (FP as int));
    if j - 1 == wall_col {
    } else {
        assert(!is_wall_at(grid, j - 1, cy));
        lemma_row_dda_west(grid, cy, wall_col, j - 1, pos_x, yd0, (fuel - 1) as nat);
    }
}

/// Law: texture mirroring between opposite wall faces. Two rays cast
/// perpendicular at the same wall slab, one from the west and one from
/// the east (with clear cells in between, within the sentinel range),
/// both hit the slab with the same texture U fraction, the fraction of
/// the wall-space coordinate; and their texel columns are reflections of
/// each other, `TEX_SIZE - 1 - tx` against `tx`, so the wall reads
/// consistently from either side.
pub proof fn lemma_mirror_opposite_faces(
    grid: Grid,
    wall_col: int,
    pos_w: int,
    pos_e: int,
    pos_y: int,
)
    requires
        grid.wf(),
        0 <= pos_w && 0 <= pos_e && 0 <= pos_y,
        pos_y < grid.spec_height() * (FP as int),
        pos_w / (FP as int) < wall_col,
        wall_col < pos_e / (FP as int),
        pos_e < grid.spec_width() * (FP as int),
        is_wall_at(grid, wall_col, pos_y / (FP as int)),
        forall|i: int|
            pos_w / (FP as int) < i < wall_col ==> !#[trigger] is_wall_at(
                grid,
                i,
                pos_y / (FP as int),
            ),
        forall|i: int|
            wall_col < i < pos_e / (FP as int) ==> !#[trigger] is_wall_at(
                grid,
                i,
                pos_y / (FP as int),
            ),
        wall_col * (FP as int) - pos_w < (SENTINEL as int) / (FP as int),
        pos_e - (wall_col + 1) * (FP as int) < (SENTINEL as int) / (FP as int),
    ensures
        spec_cast(grid, pos_w, pos_y, FP as int, 0) is Some,
        spec_cast(grid, pos_e, pos_y, -(FP as int), 0) is Some,
        ({
            let west = spec_cast(grid, pos_w, pos_y, FP as int, 0)->Some_0;
            let east = spec_cast(grid, pos_e, pos_y, -(FP as int), 0)->Some_0;
            &&& west.tex_u == pos_y % (FP as int)
            &&& east.tex_u == pos_y % (FP as int)
            &&& west.tex_x == TEX_SIZE - 1 - east.tex_x
            &&& west.side is EastWest
            &&& east.side is EastWest
            &&& west.cell_x == wall_col && east.cell_x == wall_col
        }),
{
    let fp = FP as int;
    let cy = pos_y / fp;
    let cxw = pos_w / fp;
    let cxe = pos_e / fp;
    vstd::arithmetic::div_mod::lemma_fundamental_div_mod(pos_w, fp);
    vstd::arithmetic::div_mod::lemma_fundamental_div_mod(pos_e, fp);
    vstd::arithmetic::div_mod::lemma_fundamental_div_mod(pos_y, fp);
    assert(spec_ray_delta(fp) == fp && spec_ray_delta(-fp) == fp);
    assert(spec_ray_delta(0) == SENTINEL as int);
    assert(spec_ray_step(fp) == 1 && spec_ray_step(-fp) == -1 && spec_ray_step(0) == 1);

    // Initial side distances along the travel axis.
    let wfrac = cxw * fp + fp - pos_w;
    vstd::arithmetic::div_mod::lemma_div_multiples_vanish(wfrac, fp);
    assert(wfrac * fp == fp * wfrac) by (nonlinear_arith);
    assert(spec_ray_init(pos_w, fp) == (cxw + 1) * fp - pos_w);
    let efrac = pos_e - cxe * fp;
    vstd::arithmetic::div_mod::lemma_div_multiples_vanish(efrac, fp);
    assert(efrac * fp == fp * efrac) by (nonlinear_arith);
    assert(spec_ray_init(pos_e, -fp) == pos_e - cxe * fp);

    // The unused axis starts at least a whole sentinel-per-cell away.
    let yfrac = cy * fp + fp - pos_y;
    assert(1 <= yfrac <= fp);
    let ydw = spec_ray_init(pos_y, 0);
    vstd::arithmetic::div_mod::lemma_div_is_ordered(SENTINEL as int, yfrac * (SENTINEL as int), fp);
    assert((SENTINEL as int) / fp == 0x100000);
    assert(ydw >= 0x100000);

    // Both walks fit in the iteration cap.
    assert(cxe < grid.spec_width()) by {
        vstd::arithmetic::div_mod::lemma_div_is_ordered(pos_e, grid.spec_width() * fp - 1, fp);
        vstd::arithmetic::div_mod::lemma_fundamental_div_mod(grid.spec_width() * fp - 1, fp);
        assert((grid.spec_width() * fp - 1) / fp == grid.spec_width() - 1) by (nonlinear_arith)
            requires
                fp == 1024,
                grid.spec_width() * fp - 1 == fp * ((grid.spec_width() * fp - 1) / fp) + (
                grid.spec_width() * fp - 1) % fp,
                0 <= (grid.spec_width() * fp - 1) % fp < fp,
                grid.spec_width() >= 1,
        ;
    }
    assert(wall_col - cxw <= MAX_DDA_STEPS as int);
    assert(cxe - wall_col <= MAX_DDA_STEPS as int);

    lemma_row_dda_east(grid, cy, wall_col, cxw, pos_w, ydw, MAX_DDA_STEPS as nat);
    lemma_row_dda_west(grid, cy, wall_col, cxe, pos_e, ydw, MAX_DDA_STEPS as nat);

    // Both hit records read the wall-space coordinate off the y axis,
    // whose ray component is zero, so the texture U is the fraction of
    // `pos_y`; only the mirror flag differs between the two faces.
    let stop_w = spec_dda(
        grid,
        cxw,
        cy,
        1,
        1,
        fp,
        SENTINEL as int,
        (cxw + 1) * fp - pos_w,
        ydw,
        MAX_DDA_STEPS as nat,
    )->Some_0;
    let perp_w = stop_w.dist - fp;
    assert(perp_w * 0 == 0);
    vstd::arithmetic::div_mod::lemma_basic_div(0, fp);
    assert(spec_cast(grid, pos_w, pos_y, fp, 0)->Some_0.tex_u == pos_y % fp);
    let stop_e = spec_dda(
        grid,
        cxe,
        cy,
        -1,
        1,
        fp,
        SENTINEL as int,
        pos_e - cxe * fp,
        ydw,
        MAX_DDA_STEPS as nat,
    )->Some_0;
    let perp_e = stop_e.dist - fp;
    assert(perp_e * 0 == 0);
}

/// Casts one ray through the grid by DDA traversal.
///
/// Returns the first wall the ray enters, with its perpendicular distance,
/// crossed side, wall identifier and texture coordinate; `None` when no
/// wall lies within the iteration cap (an open map, or a ray that leaves
/// the grid).
#[verifier::loop_isolation(false)]
pub fn cast_ray(grid: &Grid, pos_x: i64, pos_y: i64, rdx: i64, rdy: i64) -> (h: Option<RayHit>)
    requires
        grid.wf(),
        0 <= pos_x && (pos_x as int) < grid.spec_width() * (FP as int),
        0 <= pos_y && (pos_y as int) < grid.spec_height() * (FP as int),
        -RAY_MAX <= rdx <= RAY_MAX,
        -RAY_MAX <= rdy <= RAY_MAX,
    ensures
        h == spec_cast(*grid, pos_x as int, pos_y as int, rdx as int, rdy as int),
        (match h {
            Some(rh) => is_wall_at(*grid, rh.cell_x as int, rh.cell_y as int) && rh.wall_id
                == wall_id_at(*grid, rh.cell_x as int, rh.cell_y as int) && rh.perp_dist >= 0
                && rh.perp_dist as int <= (SENTINEL as int) * (2 + MAX_DDA_STEPS as int)
                && 0 <= rh.tex_u < FP && 0 <= rh.tex_x < TEX_SIZE,
            None => true,
        }),
{
    let mut map_x = fdiv(pos_x, FP);
    let mut map_y = fdiv(pos_y, FP);

    proof {
        let fp2 = (FP as int) * (FP as int);
        assert forall|a: int| 1 <= a <= RAY_MAX implies 1 <= #[trigger] (fp2 / a) <= fp2 by {
            vstd::arithmetic::div_mod::lemma_div_is_ordered_by_denominator(fp2, 1, a);
            vstd::arithmetic::div_mod::lemma_div_is_ordered_by_denominator(fp2, a, RAY_MAX as int);
            assert(fp2 / 1 == fp2);
            assert(fp2 / (RAY_MAX as int) == 256);
        }
    }
    let delta_x: i64 = if rdx == 0 {
        SENTINEL
    } else if rdx < 0 {
        fdiv(FP * FP, -rdx)
    } else {
        fdiv(FP * FP, rdx)
    };
    let delta_y: i64 = if rdy == 0 {
        SENTINEL
    } else if rdy < 0 {
        fdiv(FP * FP, -rdy)
    } else {
        fdiv(FP * FP, rdy)
    };
    assert(delta_x == spec_ray_delta(rdx as int) && 1 <= delta_x <= SENTINEL);
    assert(delta_y == spec_ray_delta(rdy as int) && 1 <= delta_y <= SENTINEL);

    let step_x: i64 = if rdx < 0 {
        -1
    } else {
        1
    };
    let step_y: i64 = if rdy < 0 {
        -1
    } else {
        1
    };

    proof {
        vstd::arithmetic::div_mod::lemma_fundamental_div_mod(pos_x as int, FP as int);
        vstd::arithmetic::div_mod::lemma_fundamental_div_mod(pos_y as int, FP as int);
    }
    let frac_x: i64 = if rdx < 0 {
        pos_x - map_x * FP
    } else {
        map_x * FP + FP - pos_x
    };
    let frac_y: i64 = if rdy < 0 {
        pos_y - map_y * FP
    } else {
        map_y * FP + FP - pos_y
    };
    assert(0 <= frac_x <= FP && 0 <= frac_y <= FP);
    proof {
        crate::player::lemma_mul_bounds(frac_x as int, delta_x as int, FP as int, SENTINEL as int);
        crate::player::lemma_mul_bounds(frac_y as int, delta_y as int, FP as int, SENTINEL as int);
    }
    let mut xd = fdiv(frac_x * delta_x, FP);
    let mut yd = fdiv(frac_y * delta_y, FP);
    assert(xd == spec_ray_init(pos_x as int, rdx as int) && 0 <= xd <= SENTINEL);
    assert(yd == spec_ray_init(pos_y as int, rdy as int) && 0 <= yd <= SENTINEL);

    let ghost full = spec_dda(
        *grid,
        map_x as int,
        map_y as int,
        step_x as int,
        step_y as int,
        delta_x as int,
        delta_y as int,
        xd as int,
        yd as int,
        MAX_DDA_STEPS as nat,
    );

    let mut steps: usize = 0;
    while steps < MAX_DDA_STEPS
        invariant
            0 <= steps <= MAX_DDA_STEPS,
            0 <= xd && (xd as int) <= (SENTINEL as int) * (1 + steps as int),
            0 <= yd && (yd as int) <= (SENTINEL as int) * (1 + steps as int),
            -(steps as int) <= map_x as int - (pos_x as int / FP as int),
            map_x as int - (pos_x as int / FP as int) <= steps as int,
            -(steps as int) <= map_y as int - (pos_y as int / FP as int),
            map_y as int - (pos_y as int / FP as int) <= steps as int,
            spec_dda(
                *grid,
                map_x as int,
                map_y as int,
                step_x as int,
                step_y as int,
                delta_x as int,
                delta_y as int,
                xd as int,
                yd as int,
                (MAX_DDA_STEPS - steps) as nat,
            ) == full,
        decreases MAX_DDA_STEPS - steps,
    {
        let side: Side;
        if xd < yd {
            xd = xd + delta_x;
            map_x = map_x + step_x;
            side = Side::EastWest;
        } else {
            yd = yd + delta_y;
            map_y = map_y + step_y;
            side = Side::NorthSouth;
        }
        match grid.tile_at(map_x, map_y) {
            Some(Tile::Wall(id)) => {
                let dist = if matches!(side, Side::EastWest) {
                    xd
                } else {
                    yd
                };
                let delta = if matches!(side, Side::EastWest) {
                    delta_x
                } else {
                    delta_y
                };
                let ghost stop = DdaStop {
                    map_x: map_x as int,
                    map_y: map_y as int,
                    side,
                    dist: dist as int,
                };
                assert(full == Some(stop));
                let perp = dist - delta;
                proof {
                    crate::player::lemma_mul_bounds(
                        perp as int,
                        rdy as int,
                        (SENTINEL as int) * (1 + MAX_DDA_STEPS as int),
                        RAY_MAX as int,
                    );
                    crate::player::lemma_mul_bounds(
                        perp as int,
                        rdx as int,
                        (SENTINEL as int) * (1 + MAX_DDA_STEPS as int),
                        RAY_MAX as int,
                    );
                }
                let wall_pos = if matches!(side, Side::EastWest) {
                    pos_y + fdiv(perp * rdy, FP)
                } else {
                    pos_x + fdiv(perp * rdx, FP)
                };
                let u = fmod(wall_pos, FP);
                let tx = fdiv(u * TEX_SIZE, FP);
                let mirrored = (matches!(side, Side::EastWest) && rdx > 0) || (matches!(
                    side,
                    Side::NorthSouth,
                ) && rdy < 0);
                let tex_x = if mirrored {
                    TEX_SIZE - 1 - tx
                } else {
                    tx
                };
                return Some(
                    RayHit {
                        perp_dist: perp,
                        side,
                        wall_id: id,
                        cell_x: map_x,
                        cell_y: map_y,
                        tex_u: u,
                        tex_x,
                    },
                );
            },
            _ => {},
        }
        steps = steps + 1;
    }
    None
}

} // verus!
