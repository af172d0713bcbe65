use munch::actor::Actor;
use munch::actor::Direction;
use munch::config::Config;
use munch::maze::Tile;

#[test]
fn test_maze_to_string() {
    let maze_str = "
#####
# R #
#=#=#
#..*#
#####
";
    let maze = Config::from_string(maze_str).unwrap().maze;
    let maze_display = maze.to_string();
    assert_eq!(maze_display.trim(), maze_str.trim());
}

#[test]
fn test_passability_wraps_toroidally() {
    let maze_str = "
#####
# R.#
#=###
";
    let maze = Config::from_string(maze_str).unwrap().maze;
    // shifting a coordinate by any multiple of the grid size reaches the
    // same tile, for both passability predicates
    for x in 0..5usize {
        for y in 0..3usize {
            assert_eq!(
                maze.is_player_passable(x, y),
                maze.is_player_passable(x + 5, y + 3)
            );
            assert_eq!(
                maze.is_player_passable(x, y),
                maze.is_player_passable(x + 2 * 5, y + 4 * 3)
            );
            assert_eq!(
                maze.is_ghost_passable(x, y),
                maze.is_ghost_passable(x + 3 * 5, y + 3)
            );
        }
    }
    // the pen tile and the respawn tile are ghost-only
    assert!(!maze.is_player_passable(1, 2));
    assert!(maze.is_ghost_passable(1, 2));
    assert!(!maze.is_player_passable(2, 1));
    assert!(maze.is_ghost_passable(2, 1));
    assert!(maze.is_player_passable(3, 1));
    assert!(!maze.is_ghost_passable(0, 0));
}

#[test]
fn test_eat_dots_counts_and_idempotence() {
    let maze_str = "
#####
#..R#
#####
";
    let mut maze = Config::from_string(maze_str).unwrap().maze;
    assert_eq!(maze.n_dots, 2);
    // an actor sitting on the first dot, far from the next cell
    let mut munch = Actor::new(1, 1);
    munch.move_direction = Direction::Right;
    let eaten = maze.eat_dots(&munch);
    assert_eq!(eaten, 1);
    assert_eq!(maze.n_dots, 1);
    assert_eq!(maze.get_tile(1, 1), Some(Tile::Path));
    assert_eq!(maze.get_tile(2, 1), Some(Tile::Dot));
    // the same footprint again finds nothing: no double counting
    let eaten_again = maze.eat_dots(&munch);
    assert_eq!(eaten_again, 0);
    assert_eq!(maze.n_dots, 1);
    // deep enough into the transition, the next cell is in the footprint
    munch.progress = 500;
    let eaten_ahead = maze.eat_dots(&munch);
    assert_eq!(eaten_ahead, 1);
    assert_eq!(maze.n_dots, 0);
    assert_eq!(maze.get_tile(2, 1), Some(Tile::Path));
}

#[test]
fn test_eat_pellets_leaves_grid_unchanged_when_empty() {
    let maze_str = "
#####
# .R#
#####
";
    let mut maze = Config::from_string(maze_str).unwrap().maze;
    let before = maze.to_string();
    let munch = Actor::new(1, 1);
    // no pellet anywhere under the footprint: count zero, grid unchanged
    assert_eq!(maze.eat_power_pellets(&munch), 0);
    assert_eq!(maze.to_string(), before);
    assert_eq!(maze.n_dots, 1);
}

#[test]
fn test_maze_iterator_row_major() {
    let maze_str = "
##
R.
";
    let maze = Config::from_string(maze_str).unwrap().maze;
    let mut it = maze.iter();
    assert_eq!(it.next(), Some(Tile::Wall));
    assert_eq!(it.next(), Some(Tile::Wall));
    assert_eq!(it.next(), Some(Tile::Respawn));
    assert_eq!(it.next(), Some(Tile::Dot));
    assert_eq!(it.next(), None);
    assert_eq!(it.next(), None);
}
