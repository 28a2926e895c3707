use raycaster::fixed::FP;
use raycaster::frame::GameState;
use raycaster::grid::parse_map;
use raycaster::player::Player;
use raycaster::projection::{row_distance, wall_strip};
use raycaster::raycast::{cast_ray, Side, TEX_SIZE};
use raycaster::sprite::{project_sprite, Decoration};

fn bordered_room() -> raycaster::grid::Grid {
    let mut s = String::new();
    s.push_str("##########\n");
    for _ in 0..8 {
        s.push_str("#........#\n");
    }
    s.push_str("##########\n");
    parse_map(&s).expect("room map parses")
}

#[test]
fn center_ray_in_the_room_hits_the_north_wall() {
    // A 10x10 bordered square room, player at (3, 3) facing (0, -1): the
    // center-column ray crosses rows until the border and reports a
    // row-crossing hit. Standing exactly on the (3, 3) grid corner, the
    // wall face of the border row lies 2 cells up the forward axis.
    let g = bordered_room();
    let hit = cast_ray(&g, 3 * FP, 3 * FP, 0, -FP).expect("the room is closed");
    assert_eq!(hit.side, Side::NorthSouth);
    assert_eq!(hit.perp_dist, 2 * FP);
    assert_eq!((hit.cell_x, hit.cell_y), (3, 0));
    assert_eq!(hit.wall_id, usize::MAX);
    // Strip height is screen height over distance.
    let (top, height) = wall_strip(360, hit.perp_dist);
    assert_eq!(height, 180 * FP);
    assert_eq!(top, 90 * FP);
}

#[test]
fn corridor_distance_matches_the_cell_count() {
    // A corridor of walls: the ray travels straight down it, and the
    // perpendicular distance equals the distance to the far wall face.
    let g = parse_map("###\n#.#\n#.#\n#.#\n#.#\n###").expect("corridor parses");
    let hit = cast_ray(&g, FP + FP / 2, 4 * FP + FP / 2, 0, -FP).expect("corridor is closed");
    assert_eq!(hit.side, Side::NorthSouth);
    // From y = 4.5 to the wall face at y = 1: 3.5 world units.
    assert_eq!(hit.perp_dist, 3 * FP + FP / 2);
    let (_, height) = wall_strip(360, hit.perp_dist);
    // 360 / 3.5 pixels, in fixed-point floor division.
    assert_eq!(height, 360 * FP * FP / (3 * FP + FP / 2));
}

#[test]
fn ray_with_no_wall_in_range_reports_no_hit() {
    // An open map: all floor, no wall for the ray to enter.
    let g = parse_map("...\n...\n...").expect("open map parses");
    assert!(cast_ray(&g, FP + 512, FP + 512, 0, -FP).is_none());
}

#[test]
fn texture_u_mirrors_between_opposite_faces() {
    // The same wall slab seen from its west and east faces: the texel
    // columns are reflections of each other (one texel short of 1 - u).
    let g = parse_map("#####\n#.#.#\n#####").expect("slab map parses");
    let from_west = cast_ray(&g, FP + 512, FP + 512, FP, 0).expect("hits the slab");
    let from_east = cast_ray(&g, 3 * FP + 512, FP + 512, -FP, 0).expect("hits the slab");
    assert_eq!(from_west.side, Side::EastWest);
    assert_eq!(from_east.side, Side::EastWest);
    assert_eq!((from_west.cell_x, from_west.cell_y), (2, 1));
    assert_eq!((from_east.cell_x, from_east.cell_y), (2, 1));
    assert_eq!(from_west.tex_u, 512);
    assert_eq!(from_east.tex_u, 512);
    assert_eq!(from_east.tex_x, 32);
    assert_eq!(from_west.tex_x, TEX_SIZE - 1 - 32);
    assert!(0 <= from_west.tex_u && from_west.tex_u < FP);
    assert!(0 <= from_west.tex_x && from_west.tex_x < TEX_SIZE);
}

#[test]
fn row_distance_excludes_the_horizon_and_decreases_below_it() {
    // The horizon row of a 360-pixel screen is row 180; rows at or above
    // it see no floor, and the projected distance strictly shrinks as the
    // row moves toward the screen bottom.
    assert!(row_distance(0, 360).is_none());
    assert!(row_distance(180, 360).is_none());
    assert_eq!(row_distance(181, 360), Some(180 * FP));
    assert_eq!(row_distance(270, 360), Some(2 * FP));
    let mut prev = row_distance(181, 360).unwrap();
    let mut y = 182;
    while y < 360 {
        let d = row_distance(y, 360).unwrap();
        assert!(d < prev, "row distance must strictly decrease");
        prev = d;
        y += 1;
    }
}

#[test]
fn sprite_two_units_ahead_projects_to_screen_center_at_unit_scale() {
    let g = bordered_room();
    let p = Player::new(&g, 3 * FP + 512, 3 * FP + 512, 0, -FP).expect("pose accepted");
    let ahead = Decoration::new(7, 3 * FP + 512, FP + 512, false);
    let cmd = project_sprite(&p, &ahead, 640, 360).expect("sprite ahead is emitted");
    assert_eq!(cmd.sprite, 7);
    assert_eq!(cmd.depth, 2 * FP);
    assert_eq!(cmd.scale, FP);
    assert_eq!(cmd.screen_x, 320 * FP);
    assert_eq!(cmd.screen_y, 180 * FP);
    assert_eq!(cmd.z, -200);
}

#[test]
fn sprite_behind_the_player_is_never_emitted() {
    let g = bordered_room();
    let p = Player::new(&g, 3 * FP + 512, 3 * FP + 512, 0, -FP).expect("pose accepted");
    let behind = Decoration::new(7, 3 * FP + 512, 5 * FP + 512, false);
    assert!(project_sprite(&p, &behind, 640, 360).is_none());
}

#[test]
fn rendered_frame_covers_every_column_of_the_closed_room() {
    let g = bordered_room();
    let deco = vec![Decoration::new(0, 3 * FP, 3 * FP - (FP + FP / 2), false)];
    let mut gs = GameState::new(g, 3 * FP, 3 * FP, 0, -FP, deco).expect("state accepted");
    let frame = gs.render(640, 360, 4);
    // Every column of a closed room hits a wall at positive distance.
    assert_eq!(frame.walls.len(), 640);
    assert_eq!(frame.wall_tops.len(), 640);
    let center = &frame.walls[320];
    assert_eq!(center.x, 320);
    // The border symbol is the fallback wall, clamped to the last texture.
    assert_eq!(center.texture, 3);
    assert_eq!(center.top, 90 * FP);
    assert_eq!(center.height, 180 * FP);
    assert_eq!(center.z, -200);
    for wc in &frame.walls {
        assert!(0 <= wc.tex_x && wc.tex_x < TEX_SIZE);
        assert!(wc.texture < 4);
        assert!(wc.height >= 0);
    }
    for fc in &frame.floors {
        assert!(0 <= fc.tex_x && fc.tex_x < FP);
        assert!(0 <= fc.tex_y && fc.tex_y < FP);
        assert!(fc.floor_y > 180 && fc.floor_y < 360);
        assert_eq!(fc.ceil_y, 360 - 1 - fc.floor_y);
    }
    assert!(!frame.floors.is_empty());
    // The decoration 1.5 units ahead is emitted once.
    assert_eq!(frame.sprites.len(), 1);
    assert_eq!(frame.sprites[0].depth, FP + FP / 2);
    // Moving does not disturb the level itself.
    let input = raycaster::player::InputState {
        forward: true,
        backward: false,
        turn_left: false,
        turn_right: false,
    };
    gs.update(input, 64, FP, 0);
    assert_eq!(gs.player.pos_y, 3 * FP - 64);
    assert_eq!(gs.grid.height(), 10);
}
