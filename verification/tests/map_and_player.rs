use raycaster::fixed::{fdiv, fmod, isqrt, FP};
use raycaster::frame::GameState;
use raycaster::grid::{parse_map, MapError, Tile};
use raycaster::player::{InputState, Player};

fn bordered_room() -> raycaster::grid::Grid {
    // A 10x10 room: all-wall border, walkable interior.
    let mut s = String::new();
    s.push_str("##########\n");
    for _ in 0..8 {
        s.push_str("#........#\n");
    }
    s.push_str("##########\n");
    parse_map(&s).expect("room map parses")
}

#[test]
fn fixed_point_division_is_euclidean() {
    assert_eq!(fdiv(7, 2), 3);
    assert_eq!(fdiv(-3, 2), -2);
    assert_eq!(fmod(-3, 2), 1);
    assert_eq!(fmod(7, 2), 1);
}

#[test]
fn integer_square_roots() {
    assert_eq!(isqrt(0), 0);
    assert_eq!(isqrt(2), 1);
    assert_eq!(isqrt(1024 * 1024), 1024);
    assert_eq!(isqrt(1024 * 1024 - 1), 1023);
}

#[test]
fn parse_map_reads_the_symbol_table() {
    let g = parse_map(".SBW?").expect("one-row map parses");
    assert_eq!(g.height(), 1);
    assert_eq!(g.width(), 5);
    assert_eq!(g.tile_at(0, 0), Some(Tile::Floor));
    assert_eq!(g.tile_at(1, 0), Some(Tile::Wall(0)));
    assert_eq!(g.tile_at(2, 0), Some(Tile::Wall(1)));
    assert_eq!(g.tile_at(3, 0), Some(Tile::Wall(2)));
    assert_eq!(g.tile_at(4, 0), Some(Tile::Wall(usize::MAX)));
}

#[test]
fn parse_map_trims_and_strips_carriage_returns() {
    let g = parse_map(" \n##\r\n#.\r\n ").expect("map with CRLF parses");
    assert_eq!(g.height(), 2);
    assert_eq!(g.width(), 2);
    assert_eq!(g.tile_at(1, 1), Some(Tile::Floor));
    assert_eq!(g.tile_at(0, 1), Some(Tile::Wall(usize::MAX)));
}

#[test]
fn parse_map_rejects_ragged_rows() {
    assert!(matches!(parse_map("##\n#"), Err(MapError::Ragged)));
    assert!(matches!(parse_map("#\n##\n#"), Err(MapError::Ragged)));
}

#[test]
fn parse_map_rejects_empty_maps() {
    assert!(matches!(parse_map(""), Err(MapError::Empty)));
    assert!(matches!(parse_map("   \n  \n"), Err(MapError::Empty)));
}

#[test]
fn parse_map_rejects_oversized_maps() {
    let mut row = String::new();
    for _ in 0..4097 {
        row.push('#');
    }
    assert!(matches!(parse_map(&row), Err(MapError::TooLarge)));
}

#[test]
fn map_errors_describe_themselves() {
    assert_eq!(MapError::Empty.describe(), "map file holds no cells");
    assert_eq!(MapError::Ragged.describe(), "map rows have inconsistent lengths");
    assert_eq!(MapError::TooLarge.describe(), "map dimensions are too large");
}

#[test]
fn lookups_out_of_range_fail_closed() {
    let g = bordered_room();
    assert_eq!(g.tile_at(-1, 0), None);
    assert_eq!(g.tile_at(0, 10), None);
    assert!(!g.is_walkable(-1, 5));
    assert!(!g.is_walkable(5, 99));
    assert!(g.is_walkable(5, 5));
    assert!(!g.is_walkable(0, 0));
}

#[test]
fn player_construction_normalizes_the_direction() {
    let g = bordered_room();
    let p = Player::new(&g, 3 * FP, 3 * FP, 0, -5 * FP).expect("pose accepted");
    assert_eq!((p.dir_x, p.dir_y), (0, -FP));
    // Camera plane: perpendicular of the direction, scaled to 3/5.
    assert_eq!((p.cam_x, p.cam_y), (-615, 0));
    // Perpendicular: dot product with the direction is exactly zero here.
    assert_eq!(p.dir_x * p.cam_x + p.dir_y * p.cam_y, 0);
}

#[test]
fn player_construction_rejects_bad_inputs() {
    let g = bordered_room();
    assert!(Player::new(&g, 3 * FP, 3 * FP, 0, 0).is_none());
    assert!(Player::new(&g, -1, 3 * FP, 0, -FP).is_none());
    assert!(Player::new(&g, 3 * FP, 11 * FP, 0, -FP).is_none());
}

#[test]
fn rotation_by_a_quarter_turn_is_exact() {
    let g = bordered_room();
    let mut p = Player::new(&g, 3 * FP, 3 * FP, 0, -FP).expect("pose accepted");
    // cos 90deg = 0, sin 90deg = 1.
    p.rotate(0, FP);
    assert_eq!((p.dir_x, p.dir_y), (FP, 0));
    assert_eq!((p.cam_x, p.cam_y), (0, -615));
    // The squared norm of both vectors is unchanged by the exact turn.
    assert_eq!(p.dir_x * p.dir_x + p.dir_y * p.dir_y, FP * FP);
    assert_eq!(p.cam_x * p.cam_x + p.cam_y * p.cam_y, 615 * 615);
    // Four quarter turns come back to the start.
    p.rotate(0, FP);
    p.rotate(0, FP);
    p.rotate(0, FP);
    assert_eq!((p.dir_x, p.dir_y), (0, -FP));
    assert_eq!((p.cam_x, p.cam_y), (-615, 0));
}

#[test]
fn repeated_small_rotations_stay_in_range() {
    let g = bordered_room();
    let mut p = Player::new(&g, 3 * FP, 3 * FP, 0, -FP).expect("pose accepted");
    // A small turn of about 2.5 degrees: cos and sin in fixed point.
    let (c, s) = (1023, 45);
    for _ in 0..10_000 {
        p.rotate(c, s);
        assert!(p.dir_x.abs() <= 2 * FP && p.dir_y.abs() <= 2 * FP);
        assert!(p.cam_x.abs() <= 2 * FP && p.cam_y.abs() <= 2 * FP);
    }
    // The direction still has a meaningful length after ten thousand
    // rounded turns.
    let n2 = p.dir_x * p.dir_x + p.dir_y * p.dir_y;
    assert!(n2 > 0);
}

#[test]
fn blocked_axis_leaves_the_position_unchanged() {
    let g = bordered_room();
    let mut p = Player::new(&g, 3 * FP + 512, 3 * FP + 512, 0, -FP).expect("pose accepted");
    // Move up against the north border from cell (3, 1): y is blocked.
    p.pos_y = FP + 512;
    p.attempt_move(&g, 0, -600);
    assert_eq!(p.pos_y, FP + 512);
    // Moving away from the wall still works.
    p.attempt_move(&g, 0, 600);
    assert_eq!(p.pos_y, FP + 512 + 600);
}

#[test]
fn diagonal_move_into_a_corner_slides_or_stops() {
    let g = bordered_room();
    // Player in the north-west walkable corner cell (1, 1).
    let mut p = Player::new(&g, FP + 512, FP + 512, 0, -FP).expect("pose accepted");
    // Both axes blocked by the border: zero net displacement.
    p.attempt_move(&g, -300, -300);
    assert_eq!((p.pos_x, p.pos_y), (FP + 512, FP + 512));
    // Only y blocked: slides along the free x axis.
    p.attempt_move(&g, 300, -300);
    assert_eq!((p.pos_x, p.pos_y), (FP + 512 + 300, FP + 512));
}

#[test]
fn input_intents_drive_movement_and_turning() {
    let g = bordered_room();
    let mut gs = GameState::new(g, 3 * FP, 3 * FP, 0, -FP, Vec::new()).expect("state accepted");
    let input = InputState { forward: true, backward: false, turn_left: false, turn_right: false };
    gs.update(input, 100, FP, 0);
    // Facing (0, -1): a forward step of 100 moves only y.
    assert_eq!((gs.player.pos_x, gs.player.pos_y), (3 * FP, 3 * FP - 100));
    let back = InputState { forward: false, backward: true, turn_left: false, turn_right: false };
    gs.update(back, 100, FP, 0);
    assert_eq!((gs.player.pos_x, gs.player.pos_y), (3 * FP, 3 * FP));
    let turn = InputState { forward: false, backward: false, turn_left: true, turn_right: false };
    // Turning with the identity rotation changes nothing.
    gs.update(turn, 0, FP, 0);
    assert_eq!((gs.player.dir_x, gs.player.dir_y), (0, -FP));
}
