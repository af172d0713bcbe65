use munch::actor::reverse_dir;
use munch::actor::Actor;
use munch::actor::Direction;
use munch::config::Config;
use munch::maze::Maze;
use munch::maze::Tile;

fn open_corridor() -> Maze {
    // one horizontal corridor with a respawn cell at its right end
    Config::from_string("
#######
#     R
#######
")
    .unwrap()
    .maze
}

fn closed_cell() -> Maze {
    // a single passable cell walled in on all sides
    let tiles = vec![
        Tile::Wall,
        Tile::Wall,
        Tile::Wall,
        Tile::Wall,
        Tile::Path,
        Tile::Wall,
        Tile::Wall,
        Tile::Wall,
        Tile::Wall,
    ];
    Maze::new(3, 3, tiles, (1, 1))
}

#[test]
fn test_reverse_dir() {
    assert_eq!(reverse_dir(Direction::Up), Direction::Down);
    assert_eq!(reverse_dir(Direction::Down), Direction::Up);
    assert_eq!(reverse_dir(Direction::Left), Direction::Right);
    assert_eq!(reverse_dir(Direction::Right), Direction::Left);
    assert_eq!(reverse_dir(Direction::Still), Direction::Still);
}

#[test]
fn test_progress_stays_inside_cell() {
    let maze = open_corridor();
    let mut munch = Actor::new(1, 1);
    // whatever the tick lengths, progress sits in [0, 1) cells afterwards
    for dt in [1u32, 49, 125, 50, 50, 220, 75, 1000] {
        munch.walk(Direction::Right, &maze, dt);
        assert!(munch.progress < 1000);
    }
}

#[test]
fn test_walk_commits_discrete_cell() {
    let maze = open_corridor();
    let mut munch = Actor::new(1, 1);
    // 4 cells/s at 50 ms per tick: a fifth of a cell per tick
    for _ in 0..4 {
        assert!(!munch.walk(Direction::Right, &maze, 50));
        assert_eq!(munch.get_pos(), (1, 1));
    }
    assert!(munch.walk(Direction::Right, &maze, 50));
    assert_eq!(munch.get_pos(), (2, 1));
    assert_eq!(munch.progress, 0);
}

#[test]
fn test_walk_blocked_by_wall() {
    let maze = closed_cell();
    let mut munch = Actor::new(1, 1);
    assert!(!munch.walk(Direction::Right, &maze, 50));
    // the facing is adopted but no progress accumulates against a wall
    assert_eq!(munch.move_direction, Direction::Right);
    assert_eq!(munch.progress, 0);
    assert_eq!(munch.get_pos(), (1, 1));
}

#[test]
fn test_reversal_permitted_far_from_wall() {
    // facing Down with progress 0.5 and the Up-destination blocked:
    // with offset 0.1 the reversal is permitted, the cell steps one unit
    // along the old facing and the progress is mirrored
    let maze = closed_cell();
    let mut munch = Actor::new(1, 1);
    munch.move_direction = Direction::Down;
    munch.progress = 500;
    munch.walk(Direction::Up, &maze, 25);
    assert_eq!(munch.move_direction, Direction::Up);
    assert_eq!(munch.get_pos(), (1, 2));
    assert_eq!(munch.progress, 1000 - 500 + 200);
}

#[test]
fn test_reversal_blocked_near_wall() {
    // same request with progress 0.1 < 2 * offset: no state change
    let maze = closed_cell();
    let mut munch = Actor::new(1, 1);
    munch.move_direction = Direction::Down;
    munch.progress = 100;
    munch.walk(Direction::Up, &maze, 25);
    assert_eq!(munch.move_direction, Direction::Down);
    assert_eq!(munch.get_pos(), (1, 1));
    assert_eq!(munch.progress, 100);
}

#[test]
fn test_corner_cut_taken() {
    // facing Right with progress 0.05, requesting Up with the
    // Up-destination open: the cut is taken in place
    let maze = Config::from_string("
#####
# # #
#   #
##R##
")
    .unwrap()
    .maze;
    let mut munch = Actor::new(1, 2);
    munch.move_direction = Direction::Right;
    munch.progress = 50;
    munch.walk(Direction::Up, &maze, 25);
    assert_eq!(munch.move_direction, Direction::Up);
    assert_eq!(munch.progress, 0);
    assert_eq!(munch.get_pos(), (1, 2));
}

#[test]
fn test_corner_cut_deferred() {
    // same request with progress 0.2: too far past the intersection, the
    // actor keeps going straight
    let maze = Config::from_string("
#####
# # #
#   #
##R##
")
    .unwrap()
    .maze;
    let mut munch = Actor::new(1, 2);
    munch.move_direction = Direction::Right;
    munch.progress = 200;
    munch.walk(Direction::Up, &maze, 25);
    assert_eq!(munch.move_direction, Direction::Right);
    assert_eq!(munch.progress, 300);
    assert_eq!(munch.get_pos(), (1, 2));
}

#[test]
fn test_draw_pos_interpolates() {
    let mut munch = Actor::new(3, 2);
    assert_eq!(munch.get_draw_pos(), (3000, 2000));
    munch.move_direction = Direction::Left;
    munch.progress = 250;
    assert_eq!(munch.get_draw_pos(), (2750, 2000));
    munch.move_direction = Direction::Down;
    assert_eq!(munch.get_draw_pos(), (3000, 2250));
}

#[test]
fn test_draw_pos_continuous_across_commit() {
    // approaching a commit, the draw position converges on the committed
    // cell's own position
    let maze = open_corridor();
    let mut munch = Actor::new(1, 1);
    for _ in 0..4 {
        munch.walk(Direction::Right, &maze, 50);
    }
    assert_eq!(munch.get_draw_pos(), (1800, 1000));
    munch.walk(Direction::Right, &maze, 50);
    assert_eq!(munch.get_draw_pos(), (2000, 1000));
}

#[test]
fn test_covering_tiles_threshold() {
    let mut munch = Actor::new(2, 1);
    munch.move_direction = Direction::Right;
    munch.progress = 450;
    // at the threshold exactly, only the own cell counts
    assert_eq!(munch.get_covering_tiles(450, 7, 3), vec![(2, 1)]);
    munch.progress = 451;
    assert_eq!(munch.get_covering_tiles(450, 7, 3), vec![(2, 1), (3, 1)]);
    // the lookahead cell wraps toroidally
    let mut at_edge = Actor::new(2, 0);
    at_edge.move_direction = Direction::Up;
    at_edge.progress = 500;
    assert_eq!(at_edge.get_covering_tiles(450, 7, 3), vec![(2, 0), (2, 2)]);
}

#[test]
fn test_walk_wraps_across_torus_seam() {
    // an open row: committing off the left edge re-enters from the right
    let maze = Config::from_string("#####\n     \n##R##")
        .unwrap()
        .maze;
    let mut munch = Actor::new(0, 1);
    // 250 ms at 4 cells/s is one whole cell: commit immediately
    assert!(munch.walk(Direction::Left, &maze, 250));
    assert_eq!(munch.get_pos(), (4, 1));
    assert_eq!(munch.progress, 0);
    assert!(munch.walk(Direction::Left, &maze, 250));
    assert_eq!(munch.get_pos(), (3, 1));
}

#[test]
fn test_still_request_keeps_heading() {
    let maze = open_corridor();
    let mut munch = Actor::new(1, 1);
    munch.walk(Direction::Right, &maze, 50);
    let before = munch;
    // a Still request neither moves nor turns the actor
    assert!(!munch.walk(Direction::Still, &maze, 50));
    assert_eq!(munch, before);
}

#[test]
fn test_walk_no_collisions_ignores_walls() {
    let maze = closed_cell();
    let mut body = Actor::new(1, 1);
    assert!(!body.walk_no_collisions(Direction::Right, &maze, 150));
    assert_eq!(body.progress, 600);
    assert!(body.walk_no_collisions(Direction::Right, &maze, 150));
    // straight through the wall: the decision engine, not the walk,
    // keeps ghosts on passable cells
    assert_eq!(body.get_pos(), (2, 1));
    assert_eq!(body.progress, 0);
}
