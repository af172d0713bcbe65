use munch::config::Config;
use munch::ghost::Personality;
use munch::maze::Tile;

#[test]
fn test_maze_from_string() {
    let maze_str = "
######
#PM  #
#=#*R#
#.BI #
######
";
    let config_result = Config::from_string(maze_str);
    assert!(config_result.is_ok());
    let config = config_result.unwrap();
    assert_eq!(config.maze.width, 6);
    assert_eq!(config.maze.height, 5);
    assert_eq!(config.maze.get_tile(0, 0), Some(Tile::Wall));
    assert_eq!(config.maze.get_tile(1, 1), Some(Tile::PlayerImpassable));
    assert_eq!(config.maze.get_tile(4, 4), Some(Tile::Wall));
    assert_eq!(config.maze.get_tile(1, 2), Some(Tile::PlayerImpassable));
    assert_eq!(config.player_pos, Some((2, 1)));
    assert_eq!(
        config.ghosts_pos,
        vec![
            (1, 1, Personality::Pinky),
            (2, 3, Personality::Blinky),
            (3, 3, Personality::Inky)
        ]
    );
}

#[test]
fn test_maze_invalid_size() {
    let maze_str = "
#####
####
# # #
";
    let config = Config::from_string(maze_str);
    assert!(config.is_err());
    assert_eq!(
        config.err().unwrap().message(),
        "Inconsistent line length: line 1 has length 5, line 2 has length 4"
    );
}

#[test]
fn test_maze_invalid_character() {
    let maze_str = "
#####
#  *#
# # #
#   #
#@###
";
    let config = Config::from_string(maze_str);
    assert!(config.is_err());
    assert_eq!(
        config.err().unwrap().message(),
        "Error at (1, 4): Unknown tile character '@'"
    );
}

#[test]
fn test_maze_second_respawn() {
    let maze_str = "
#####
#R R#
#####
";
    let config = Config::from_string(maze_str);
    assert!(config.is_err());
    assert_eq!(
        config.err().unwrap().message(),
        "Error at (3, 1): Second respawn tile found"
    );
}

#[test]
fn test_maze_no_respawn() {
    let maze_str = "
#####
#   #
#####
";
    let config = Config::from_string(maze_str);
    assert!(config.is_err());
    assert_eq!(config.err().unwrap().message(), "No respawn tile found");
}

#[test]
fn test_maze_multiple_players() {
    let maze_str = "
#####
#M M#
##R##
#####
";
    let config = Config::from_string(maze_str);
    assert!(config.is_err());
    assert_eq!(
        config.err().unwrap().message(),
        "Multiple player positions found"
    );
}

#[test]
fn test_empty_layout_has_no_respawn() {
    let config = Config::from_string("");
    assert!(config.is_err());
    assert_eq!(config.err().unwrap().message(), "No respawn tile found");
}

#[test]
fn test_single_cell_layout() {
    let config = Config::from_string("R").unwrap();
    assert_eq!(config.maze.width, 1);
    assert_eq!(config.maze.height, 1);
    assert_eq!(config.maze.respawn_point, (0, 0));
    assert_eq!(config.maze.get_tile(0, 0), Some(Tile::Respawn));
    assert_eq!(config.maze.n_dots, 0);
}

#[test]
fn test_maze_respawn_recorded() {
    let maze_str = "
####
#R.#
####
";
    let config = Config::from_string(maze_str).unwrap();
    assert_eq!(config.maze.respawn_point, (1, 1));
    assert_eq!(config.maze.get_tile(1, 1), Some(Tile::Respawn));
    assert_eq!(config.maze.n_dots, 1);
    assert_eq!(config.player_pos, None);
    assert!(config.ghosts_pos.is_empty());
}
