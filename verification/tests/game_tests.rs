use munch::actor::Direction;
use munch::config::Config;
use munch::game_logic::GameLogic;
use munch::ghost::Mode;
use munch::ghost::Personality;
use munch::ghost::Pursuer;

#[test]
fn test_munch_ghost_collisions() {
    let mut game = GameLogic::new(Config::empty());
    game.munch.set_pos(5, 5);
    game.ghosts.push(Pursuer::new(5, 5, Personality::Blinky));
    assert_eq!(game.munch_ghost_collision(), Some(0));
}

#[test]
fn test_collision_skips_eaten_ghosts() {
    let mut game = GameLogic::new(Config::empty());
    game.munch.set_pos(5, 5);
    let mut eaten = Pursuer::new(5, 5, Personality::Blinky);
    eaten.eat_ghost();
    game.ghosts.push(eaten);
    // an eaten ghost on the player's cell is not collidable
    assert_eq!(game.munch_ghost_collision(), None);
    game.ghosts.push(Pursuer::new(5, 5, Personality::Pinky));
    assert_eq!(game.munch_ghost_collision(), Some(1));
}

#[test]
fn test_player_caught_on_exact_meeting_tick() {
    // player and one Blinky four cells apart in an open corridor, facing
    // each other, with no energised state: the catch lands on the exact
    // tick their discrete cells coincide
    let maze_str = "
###########
#M   B   R#
###########
";
    let config = Config::from_string(maze_str).unwrap();
    let mut game = GameLogic::new(config);
    game.ghosts[0].actor.move_direction = Direction::Left;
    game.handle_movement(Direction::Right);
    // 4 cells/s at 50 ms ticks: one cell per five ticks each; they close
    // two cells per five ticks and coincide at x = 3 on tick ten
    for tick in 1..=10 {
        let rs = game.update(50);
        if tick < 10 {
            assert!(!rs.munch_caught, "caught too early, tick {}", tick);
            assert!(!game.munch_is_dead);
        } else {
            assert!(rs.munch_caught, "not caught on the meeting tick");
            assert!(game.munch_is_dead);
        }
    }
    assert_eq!(game.munch.get_pos(), (3, 1));
    assert_eq!(game.ghosts[0].actor.get_pos(), (3, 1));
}

#[test]
fn test_dot_scoring() {
    let maze_str = "
#####
#M..#
##R##
#####
";
    let config = Config::from_string(maze_str).unwrap();
    let mut game = GameLogic::new(config);
    game.handle_movement(Direction::Right);
    let mut caught_any = false;
    for _ in 0..20 {
        let rs = game.update(50);
        caught_any = caught_any || rs.munch_caught;
    }
    // both dots eaten at ten points each; no pellet, no ghosts, no catch
    assert_eq!(game.score, 20);
    assert_eq!(game.maze.n_dots, 0);
    assert!(!caught_any);
}

#[test]
fn test_pellet_energises_and_ghost_is_eaten() {
    let maze_str = "
######
#M* B#
##R###
######
";
    let config = Config::from_string(maze_str).unwrap();
    let mut game = GameLogic::new(config);
    game.handle_movement(Direction::Right);
    let mut pellet_tick = false;
    let mut ghost_eaten_tick = false;
    for _ in 0..12 {
        let rs = game.update(50);
        if rs.eaten_power_pellet {
            pellet_tick = true;
            // the pellet flips every live ghost to scatter at once
            assert!(game.energised.is_energised);
            assert_eq!(game.ghosts[0].mode, Mode::Scatter);
        }
        if rs.eaten_ghost {
            ghost_eaten_tick = true;
            assert_eq!(game.ghosts[0].mode, Mode::Eaten);
        }
        assert!(!rs.munch_caught);
    }
    assert!(pellet_tick, "the pellet was never eaten");
    assert!(ghost_eaten_tick, "the ghost was never caught");
    // one pellet and one ghost: 50 + 200 points
    assert_eq!(game.score, 250);
    assert!(!game.munch_is_dead);
}

#[test]
fn test_eaten_ghost_respawns_to_chase() {
    let maze_str = "
#####
#M B#
##R##
#####
";
    let config = Config::from_string(maze_str).unwrap();
    let mut game = GameLogic::new(config);
    // park an eaten ghost on the respawn cell: one tick flips it back to
    // the chase
    game.ghosts[0].eat_ghost();
    game.ghosts[0].actor.set_pos(2, 2);
    assert_eq!(game.ghosts[0].mode, Mode::Eaten);
    game.update(50);
    assert_eq!(game.ghosts[0].mode, Mode::Chase);
}

#[test]
fn test_energised_expires_back_to_chase() {
    // the ghost sits in a sealed pocket, so no collision interferes with
    // the countdown
    let maze_str = "
######
#M* ##
##R#B#
######
";
    let config = Config::from_string(maze_str).unwrap();
    let mut game = GameLogic::new(config);
    game.handle_movement(Direction::Right);
    // eat the pellet within the first few ticks
    let mut saw_pellet = false;
    for _ in 0..5 {
        saw_pellet = saw_pellet || game.update(50).eaten_power_pellet;
    }
    assert!(saw_pellet);
    assert_eq!(game.ghosts[0].mode, Mode::Scatter);
    // stop walking and drain the ten-second countdown
    game.handle_movement(Direction::Still);
    for _ in 0..201 {
        game.update(50);
    }
    assert!(!game.energised.is_energised);
    assert_eq!(game.ghosts[0].mode, Mode::Chase);
}
