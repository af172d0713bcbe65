use munch::actor::Actor;
use munch::actor::Direction;
use munch::config::Config;
use munch::ghost::get_blinky_target;
use munch::ghost::get_inky_target;
use munch::ghost::get_pinky_target;
use munch::ghost::Personality;
use munch::ghost::Pursuer;
use munch::ghost::PINKY_LOOKAHEAD;

#[test]
fn test_pinky_target() {
    let maze_str = "
###########
#         #
#         #
#        R#
###########
";
    let maze = Config::from_string(maze_str).unwrap().maze;
    let mut munch = Actor::new(4, 1);
    munch.move_direction = Direction::Right;
    let target = get_pinky_target(&munch, &maze);
    assert_eq!(target, (4 + PINKY_LOOKAHEAD, 1));
    munch.move_direction = Direction::Down;
    let target = get_pinky_target(&munch, &maze);
    assert_eq!(target, (4, 3));
}

#[test]
fn test_inky_target() {
    let maze_str = "
###########
#         #
#         #
#         #
#         #
#        R#
###########
";
    let maze = Config::from_string(maze_str).unwrap().maze;
    let mut munch = Actor::new(4, 3);
    munch.move_direction = Direction::Right;
    let blinky_pos = (2, 2);
    let target = get_inky_target(&munch, &maze, blinky_pos);
    assert_eq!(target, (10, 4));
    let mut munch = Actor::new(4, 1);
    munch.move_direction = Direction::Up;
    let blinky_pos = (1, 4);
    let target = get_inky_target(&munch, &maze, blinky_pos);
    assert_eq!(target, (7, 5));
}

#[test]
fn test_blinky_target_ignores_facing() {
    // Blinky always aims at the player's current cell, whatever the facing
    let mut munch = Actor::new(4, 1);
    for dir in [
        Direction::Still,
        Direction::Up,
        Direction::Down,
        Direction::Left,
        Direction::Right,
    ] {
        munch.move_direction = dir;
        munch.progress = 700;
        assert_eq!(get_blinky_target(&munch), (4, 1));
    }
}

#[test]
fn test_decision_engine_heads_for_player() {
    // Blinky at (5, 1) facing Still in a corridor, player at (1, 1): on
    // the first commit the engine turns towards the player
    let maze_str = "
###########
#M   B   R#
###########
";
    let config = Config::from_string(maze_str).unwrap();
    let maze = config.maze;
    let munch = Actor::new(1, 1);
    let mut ghost = Pursuer::new(5, 1, Personality::Blinky);
    ghost.generate_next_tile(&maze, &munch, (5, 1));
    assert_eq!(ghost.actor.move_direction, Direction::Left);
}

#[test]
fn test_decision_engine_dead_end_reverses() {
    // a ghost walled in ahead, left and right of its facing reverses: the
    // one permitted reversal
    let maze_str = "
#####
#.#R#
#.###
#####
";
    let maze = Config::from_string(maze_str).unwrap().maze;
    let munch = Actor::new(3, 1);
    let mut ghost = Pursuer::new(1, 1, Personality::Blinky);
    ghost.actor.move_direction = Direction::Up;
    // from (1, 1) facing Up, the candidates Left, Right and Up are all
    // walls; only the excluded reverse (Down) is open
    ghost.generate_next_tile(&maze, &munch, (1, 1));
    assert_eq!(ghost.actor.move_direction, Direction::Down);
}

#[test]
fn test_clyde_retreats_when_close() {
    let maze_str = "
###########
#R        #
#         #
#         #
#         #
#         #
#         #
#         #
#         #
#         #
###########
";
    let maze = Config::from_string(maze_str).unwrap().maze;
    let mut clyde = Pursuer::new(5, 9, Personality::Clyde);
    // the player one cell away: within the retreat radius, Clyde aims at
    // his corner (0, 10) and so heads left
    let close = Actor::new(5, 8);
    clyde.generate_next_tile(&maze, &close, (1, 1));
    assert_eq!(clyde.actor.move_direction, Direction::Left);
    // the player far away up-right: Clyde chases and heads up
    let mut clyde = Pursuer::new(5, 9, Personality::Clyde);
    let far = Actor::new(9, 1);
    clyde.generate_next_tile(&maze, &far, (1, 1));
    assert_eq!(clyde.actor.move_direction, Direction::Up);
}

#[test]
fn test_scatter_targets_personal_corner() {
    let maze_str = "
###########
#R        #
#         #
#         #
#         #
###########
";
    let maze = Config::from_string(maze_str).unwrap().maze;
    let munch = Actor::new(5, 2);
    // Blinky's scatter corner is the top-right: from the centre he heads
    // right even though the player sits on his cell's left
    let mut blinky = Pursuer::new(5, 3, Personality::Blinky);
    blinky.set_mode_scatter();
    blinky.generate_next_tile(&maze, &munch, (5, 3));
    assert_eq!(blinky.actor.move_direction, Direction::Right);
    // Pinky's corner is the top-left
    let mut pinky = Pursuer::new(5, 3, Personality::Pinky);
    pinky.set_mode_scatter();
    pinky.generate_next_tile(&maze, &munch, (5, 3));
    assert_eq!(pinky.actor.move_direction, Direction::Left);
}

#[test]
fn test_eaten_ghost_homes_to_respawn() {
    let maze_str = "
#######
#R    #
#     #
#     #
#######
";
    let maze = Config::from_string(maze_str).unwrap().maze;
    let munch = Actor::new(5, 3);
    let mut ghost = Pursuer::new(4, 1, Personality::Blinky);
    let was_alive = ghost.eat_ghost();
    assert!(was_alive);
    // eaten and already marked: a second bite reports nothing new
    assert!(!ghost.eat_ghost());
    // an eaten ghost ignores its personality and heads for the respawn
    // cell at (1, 1), here to the left, away from the player
    ghost.generate_next_tile(&maze, &munch, (1, 1));
    assert_eq!(ghost.actor.move_direction, Direction::Left);
}

#[test]
fn test_move_along_path_retargets_on_commit() {
    let maze_str = "
###########
#M   B   R#
###########
";
    let config = Config::from_string(maze_str).unwrap();
    let maze = config.maze;
    let munch = Actor::new(1, 1);
    let mut ghost = Pursuer::new(5, 1, Personality::Blinky);
    ghost.actor.move_direction = Direction::Left;
    // four ticks accumulate progress without a commit or a retarget
    for _ in 0..4 {
        ghost.move_along_path(&maze, &munch, (5, 1), 50);
        assert_eq!(ghost.actor.get_pos(), (5, 1));
    }
    // the fifth commits one cell towards the player
    ghost.move_along_path(&maze, &munch, (5, 1), 50);
    assert_eq!(ghost.actor.get_pos(), (4, 1));
    assert_eq!(ghost.actor.move_direction, Direction::Left);
}
