//! One simulation tick: walk the player, consume pickups, advance the
//! energised timer and broadcast mode changes, move every ghost, and resolve
//! player-ghost collisions. The update order is fixed: the ghosts react to
//! the player's already-updated position and to this tick's pickups.

use crate::actor::spec_footprint;
use crate::actor::spec_walk;
use crate::actor::Actor;
use crate::actor::Direction;
use crate::actor::MAX_TICK_MS;
use crate::actor::MOVEMENT_SPEED;
use crate::config::Config;
use crate::ghost::spec_ghost_move;
use crate::ghost::Mode;
use crate::ghost::Personality;
use crate::ghost::Pursuer;
use crate::maze::spec_eat;
use crate::maze::Maze;
use crate::maze::Tile;
use crate::maze::FOOTPRINT_THRESHOLD;
use vstd::prelude::*;

verus! {

/// How long (in milliseconds) the player stays energised after a pellet.
pub const ENERGISED_TIME_MS: u32 = 10_000;

/// Points for a dot, a power pellet and an eaten ghost.
pub const DOT_SCORE: u32 = 10;

pub const PELLET_SCORE: u32 = 50;

pub const GHOST_SCORE: u32 = 200;

/// Has the player eaten a power pellet recently? While the countdown runs,
/// the ghosts scatter and can be eaten.
#[derive(Debug, Clone, Copy, PartialEq, Eq, Structural)]
pub struct Energised {
    pub is_energised: bool,
    pub timer: u32,
}

/// The energised state after one tick: a fresh pellet restarts the
/// countdown, otherwise the countdown drains by the tick length, and the
/// flag clears once the countdown has reached zero.
pub open spec fn spec_energised_update(e: Energised, pellets: int, dt: u32) -> Energised {
    if pellets > 0 {
        Energised { is_energised: true, timer: ENERGISED_TIME_MS }
    } else if e.timer > 0 {
        Energised {
            is_energised: e.is_energised,
            timer: if e.timer >= dt {
                (e.timer - dt) as u32
            } else {
                0u32
            },
        }
    } else if e.is_energised {
        Energised { is_energised: false, timer: e.timer }
    } else {
        e
    }
}

/// The mode a ghost is switched to when the energised state changes: a
/// fresh pellet sends chasers scattering, an expired countdown sends
/// scatterers back to the chase, and an eaten ghost keeps homing until it
/// respawns.
pub open spec fn spec_mode_after(m: Mode, pellets: int, e: Energised) -> Mode {
    if pellets > 0 {
        if m == Mode::Eaten {
            Mode::Eaten
        } else {
            Mode::Scatter
        }
    } else if e.timer > 0 {
        m
    } else if e.is_energised {
        if m == Mode::Scatter {
            Mode::Chase
        } else {
            m
        }
    } else {
        m
    }
}

/// The whole pack after the mode broadcast.
pub open spec fn spec_broadcast(gs: Seq<Pursuer>, pellets: int, e: Energised) -> Seq<Pursuer> {
    gs.map_values(|g: Pursuer| Pursuer { mode: spec_mode_after(g.mode, pellets, e), ..g })
}

impl Energised {
    pub fn new() -> (e: Energised)
        ensures
            e == (Energised { is_energised: false, timer: 0u32 }),
    {
        Energised { is_energised: false, timer: 0 }
    }

    /// Advance the countdown and broadcast the matching mode change to
    /// every ghost.
    pub fn update(
        &mut self,
        ghosts: &mut Vec<Pursuer>,
        power_pellets_eaten: usize,
        time_delta_ms: u32,
    )
        ensures
            *final(self) == spec_energised_update(
                *old(self),
                power_pellets_eaten as int,
                time_delta_ms,
            ),
            final(ghosts)@ == spec_broadcast(old(ghosts)@, power_pellets_eaten as int, *old(self)),
    {
        let ghost e0 = *self;
        let ghost gs0 = ghosts@;
        if power_pellets_eaten > 0 {
            self.timer = ENERGISED_TIME_MS;
            self.is_energised = true;
            let mut i: usize = 0;
            while i < ghosts.len()
                invariant
                    i <= ghosts@.len(),
                    ghosts@.len() == gs0.len(),
                    power_pellets_eaten > 0,
                    forall|j: int|
                        0 <= j < i ==> ghosts@[j] == (Pursuer {
                            mode: spec_mode_after(gs0[j].mode, power_pellets_eaten as int, e0),
                            ..gs0[j]
                        }),
                    forall|j: int| i <= j < gs0.len() ==> ghosts@[j] == gs0[j],
                decreases gs0.len() - i,
            {
                let mut g = ghosts[i];
                if g.mode != Mode::Eaten {
                    g.set_mode_scatter();
                }
                ghosts[i] = g;
                i = i + 1;
            }
            proof {
                assert(ghosts@ =~= spec_broadcast(gs0, power_pellets_eaten as int, e0));
            }
        } else if self.timer > 0 {
            if self.timer >= time_delta_ms {
                self.timer = self.timer - time_delta_ms;
            } else {
                self.timer = 0;
            }
            proof {
                assert(ghosts@ =~= spec_broadcast(gs0, power_pellets_eaten as int, e0));
            }
        } else if self.is_energised {
            self.is_energised = false;
            let mut i: usize = 0;
            while i < ghosts.len()
                invariant
                    i <= ghosts@.len(),
                    ghosts@.len() == gs0.len(),
                    power_pellets_eaten == 0,
                    e0.timer == 0,
                    e0.is_energised,
                    forall|j: int|
                        0 <= j < i ==> ghosts@[j] == (Pursuer {
                            mode: spec_mode_after(gs0[j].mode, power_pellets_eaten as int, e0),
                            ..gs0[j]
                        }),
                    forall|j: int| i <= j < gs0.len() ==> ghosts@[j] == gs0[j],
                decreases gs0.len() - i,
            {
                let mut g = ghosts[i];
                if g.mode == Mode::Scatter {
                    g.set_mode_chase();
                }
                ghosts[i] = g;
                i = i + 1;
            }
            proof {
                assert(ghosts@ =~= spec_broadcast(gs0, power_pellets_eaten as int, e0));
            }
        } else {
            proof {
                assert(ghosts@ =~= spec_broadcast(gs0, power_pellets_eaten as int, e0));
            }
        }
    }
}

/// The audio- and game-over-relevant events of one tick.
#[derive(Debug, Clone, Copy, PartialEq, Eq, Structural)]
pub struct ReturnState {
    pub eaten_power_pellet: bool,
    pub eaten_ghost: bool,
    pub munch_caught: bool,
}

/// The position of the first Blinky in the pack, or the origin when the
/// pack has none.
pub open spec fn spec_blinky_from(gs: Seq<Pursuer>, i: int) -> (usize, usize)
    decreases gs.len() - i,
{
    if i < 0 || i >= gs.len() {
        (0usize, 0usize)
    } else if gs[i].personality == Personality::Blinky {
        (gs[i].actor.x, gs[i].actor.y)
    } else {
        spec_blinky_from(gs, i + 1)
    }
}

/// The first ghost (from index `i` on) sharing the player's cell, eaten
/// ghosts excepted: they are not collidable.
pub open spec fn spec_collision_from(munch: Actor, gs: Seq<Pursuer>, i: int) -> Option<int>
    decreases gs.len() - i,
{
    if i < 0 || i >= gs.len() {
        None
    } else if gs[i].mode != Mode::Eaten && gs[i].actor.x == munch.x && gs[i].actor.y == munch.y {
        Some(i)
    } else {
        spec_collision_from(munch, gs, i + 1)
    }
}

/// What holds of a found collision index: it names a live ghost on the
/// player's cell.
proof fn lemma_collision_props(munch: Actor, gs: Seq<Pursuer>, i: int, k: int)
    requires
        0 <= i,
        spec_collision_from(munch, gs, i) == Some(k),
    ensures
        i <= k < gs.len(),
        gs[k].mode != Mode::Eaten,
        gs[k].actor.x == munch.x,
        gs[k].actor.y == munch.y,
    decreases gs.len() - i,
{
    if i < gs.len() {
        if !(gs[i].mode != Mode::Eaten && gs[i].actor.x == munch.x && gs[i].actor.y == munch.y) {
            lemma_collision_props(munch, gs, i + 1, k);
        }
    }
}

/// An eaten ghost that has reached the respawn cell rejoins the chase.
pub open spec fn spec_respawn_check(g: Pursuer, respawn: (usize, usize)) -> Pursuer {
    if g.mode == Mode::Eaten && g.actor.x == respawn.0 && g.actor.y == respawn.1 {
        Pursuer { mode: Mode::Chase, ..g }
    } else {
        g
    }
}

/// Saturate at the largest 32-bit value.
pub open spec fn spec_sat_u32(v: int) -> int {
    if v > u32::MAX {
        u32::MAX as int
    } else {
        v
    }
}

/// Everything one tick produces.
pub struct TickOutcome {
    pub munch: Actor,
    pub tiles: Seq<Tile>,
    pub n_dots: int,
    pub ghosts: Seq<Pursuer>,
    pub energised: Energised,
    pub score: int,
    pub munch_is_dead: bool,
    pub events: ReturnState,
}

/// The whole game state.
pub struct GameLogic {
    pub maze: Maze,
    pub munch: Actor,
    pub ghosts: Vec<Pursuer>,
    pub move_direction: Direction,
    pub energised: Energised,
    pub score: u32,
    pub munch_is_dead: bool,
}

/// One tick over the whole game state, in the fixed order: player walk,
/// pickup consumption, energised update with its mode broadcast, ghost
/// movement, collision resolution.
pub open spec fn spec_tick(gl: GameLogic, dt: u32) -> TickOutcome {
    let w = gl.maze.width;
    let h = gl.maze.height;
    let offset = MOVEMENT_SPEED * dt;
    let wr = spec_walk(gl.munch, gl.move_direction, gl.maze.maze@, w, h, offset as int);
    let m1 = wr.0;
    let fp = spec_footprint(m1, FOOTPRINT_THRESHOLD, w, h);
    let dots = spec_eat(gl.maze.maze@, w as int, h as int, fp, Tile::Dot);
    let pellets = spec_eat(dots.0, w as int, h as int, fp, Tile::PowerPellet);
    let e1 = spec_energised_update(gl.energised, pellets.1, dt);
    let gs1 = spec_broadcast(gl.ghosts@, pellets.1, gl.energised);
    let blinky = spec_blinky_from(gs1, 0);
    let respawn = gl.maze.respawn_point;
    let gs2 = gs1.map_values(
        |g: Pursuer|
            spec_respawn_check(
                spec_ghost_move(g, pellets.0, w, h, m1, blinky, respawn, offset as int),
                respawn,
            ),
    );
    let score1 = spec_sat_u32(gl.score + dots.1 * DOT_SCORE + pellets.1 * PELLET_SCORE);
    let events0 = ReturnState {
        eaten_power_pellet: pellets.1 > 0,
        eaten_ghost: false,
        munch_caught: false,
    };
    let base = TickOutcome {
        munch: m1,
        tiles: pellets.0,
        n_dots: gl.maze.n_dots - dots.1,
        ghosts: gs2,
        energised: e1,
        score: score1,
        munch_is_dead: gl.munch_is_dead,
        events: events0,
    };
    match spec_collision_from(m1, gs2, 0) {
        None => base,
        Some(i) => {
            if e1.is_energised {
                TickOutcome {
                    ghosts: gs2.update(i, Pursuer { mode: Mode::Eaten, ..gs2[i] }),
                    score: spec_sat_u32(score1 + GHOST_SCORE),
                    events: ReturnState { eaten_ghost: true, ..events0 },
                    ..base
                }
            } else {
                TickOutcome {
                    munch_is_dead: true,
                    events: ReturnState { munch_caught: true, ..events0 },
                    ..base
                }
            }
        },
    }
}

impl GameLogic {
    /// A coherent game state: a sound maze whose respawn cell is in range,
    /// with every actor on the grid.
    pub open spec fn wf(&self) -> bool {
        &&& self.maze.wf()
        &&& self.maze.respawn_point.0 < self.maze.width
        &&& self.maze.respawn_point.1 < self.maze.height
        &&& self.munch.valid_in(self.maze.width, self.maze.height)
        &&& forall|i: int|
            0 <= i < self.ghosts@.len() ==> (#[trigger] self.ghosts@[i]).actor.valid_in(
                self.maze.width,
                self.maze.height,
            )
    }

    pub fn new(config: Config) -> (g: GameLogic)
        ensures
            g.maze == config.maze,
            g.munch == (Actor {
                x: match config.player_pos {
                    Some(p) => p.0,
                    None => 0usize,
                },
                y: match config.player_pos {
                    Some(p) => p.1,
                    None => 0usize,
                },
                progress: 0u32,
                move_direction: Direction::Still,
            }),
            g.ghosts@.len() == config.ghosts_pos@.len(),
            forall|i: int|
                0 <= i < g.ghosts@.len() ==> g.ghosts@[i] == (Pursuer {
                    actor: Actor {
                        x: (#[trigger] config.ghosts_pos@[i]).0,
                        y: config.ghosts_pos@[i].1,
                        progress: 0u32,
                        move_direction: Direction::Still,
                    },
                    personality: config.ghosts_pos@[i].2,
                    mode: Mode::Chase,
                }),
            g.move_direction == Direction::Still,
            g.energised == (Energised { is_energised: false, timer: 0u32 }),
            g.score == 0,
            !g.munch_is_dead,
            (config.maze.wf() && config.maze.respawn_point.0 < config.maze.width
                && config.maze.respawn_point.1 < config.maze.height && (config.player_pos matches
            Some(p) ==> p.0 < config.maze.width && p.1 < config.maze.height) && (forall|j: int|
                0 <= j < config.ghosts_pos@.len() ==> (#[trigger] config.ghosts_pos@[j]).0
                    < config.maze.width && config.ghosts_pos@[j].1 < config.maze.height))
                ==> g.wf(),
    {
        let munch = match config.player_pos {
            Some((x, y)) => Actor::new(x, y),
            None => Actor::new(0, 0),
        };
        let mut ghosts: Vec<Pursuer> = Vec::new();
        let mut i: usize = 0;
        while i < config.ghosts_pos.len()
            invariant
                i <= config.ghosts_pos@.len(),
                ghosts@.len() == i,
                forall|j: int|
                    0 <= j < i ==> ghosts@[j] == (Pursuer {
                        actor: Actor {
                            x: (#[trigger] config.ghosts_pos@[j]).0,
                            y: config.ghosts_pos@[j].1,
                            progress: 0u32,
                            move_direction: Direction::Still,
                        },
                        personality: config.ghosts_pos@[j].2,
                        mode: Mode::Chase,
                    }),
            decreases config.ghosts_pos@.len() - i,
        {
            let (x, y, personality) = config.ghosts_pos[i];
            ghosts.push(Pursuer::new(x, y, personality));
            i = i + 1;
        }
        proof {
            assert forall|j: int|
                0 <= j < ghosts@.len() implies (#[trigger] ghosts@[j]).actor.x
                == config.ghosts_pos@[j].0 && ghosts@[j].actor.y == config.ghosts_pos@[j].1
                && ghosts@[j].actor.progress == 0 by {
                assert(ghosts@[j] == (Pursuer {
                    actor: Actor {
                        x: config.ghosts_pos@[j].0,
                        y: config.ghosts_pos@[j].1,
                        progress: 0u32,
                        move_direction: Direction::Still,
                    },
                    personality: config.ghosts_pos@[j].2,
                    mode: Mode::Chase,
                }));
            }
        }
        GameLogic {
            maze: config.maze,
            munch,
            ghosts,
            move_direction: Direction::Still,
            energised: Energised::new(),
            score: 0,
            munch_is_dead: false,
        }
    }

    /// Record the player's requested walking direction for the coming
    /// ticks.
    pub fn handle_movement(&mut self, direction: Direction)
        ensures
            *final(self) == (GameLogic { move_direction: direction, ..*old(self) }),
    {
        self.move_direction = direction;
    }

    /// The first ghost sharing the player's cell, eaten ghosts excepted.
    pub fn munch_ghost_collision(&self) -> (r: Option<usize>)
        ensures
            ({
                let c = spec_collision_from(self.munch, self.ghosts@, 0);
                match r {
                    Some(i) => c == Some(i as int) && i < self.ghosts@.len(),
                    None => c is None,
                }
            }),
    {
        let mut i: usize = 0;
        while i < self.ghosts.len()
            invariant
                i <= self.ghosts@.len(),
                spec_collision_from(self.munch, self.ghosts@, 0) == spec_collision_from(
                    self.munch,
                    self.ghosts@,
                    i as int,
                ),
            decreases self.ghosts@.len() - i,
        {
            let g = &self.ghosts[i];
            if !matches!(g.mode, Mode::Eaten) && g.actor.x == self.munch.x && g.actor.y
                == self.munch.y {
                return Some(i);
            }
            i = i + 1;
        }
        None
    }

    /// The first Blinky's position, or the origin without one; on a sound
    /// state the result is always on the grid.
    fn get_blinky_pos(&self) -> (p: (usize, usize))
        ensures
            p == spec_blinky_from(self.ghosts@, 0),
            self.wf() ==> p.0 < self.maze.width && p.1 < self.maze.height,
    {
        let mut i: usize = 0;
        while i < self.ghosts.len()
            invariant
                i <= self.ghosts@.len(),
                spec_blinky_from(self.ghosts@, 0) == spec_blinky_from(self.ghosts@, i as int),
            decreases self.ghosts@.len() - i,
        {
            let g = &self.ghosts[i];
            if matches!(g.personality, Personality::Blinky) {
                return (g.actor.x, g.actor.y);
            }
            i = i + 1;
        }
        (0, 0)
    }

    /// One simulation tick.
    pub fn update(&mut self, time_delta_ms: u32) -> (rs: ReturnState)
        requires
            old(self).wf(),
            time_delta_ms <= MAX_TICK_MS,
        ensures
            final(self).wf(),
            ({
                let o = spec_tick(*old(self), time_delta_ms);
                &&& final(self).maze.width == old(self).maze.width
                &&& final(self).maze.height == old(self).maze.height
                &&& final(self).maze.respawn_point == old(self).maze.respawn_point
                &&& final(self).maze.maze@ == o.tiles
                &&& final(self).maze.n_dots == o.n_dots
                &&& final(self).munch == o.munch
                &&& final(self).ghosts@ == o.ghosts
                &&& final(self).energised == o.energised
                &&& final(self).move_direction == old(self).move_direction
                &&& final(self).score == o.score
                &&& final(self).munch_is_dead == o.munch_is_dead
                &&& rs == o.events
            }),
    {
        let ghost gl0 = *self;
        let ghost w = self.maze.width;
        let ghost h = self.maze.height;
        let ghost offset = (MOVEMENT_SPEED * time_delta_ms) as int;

        // 1. walk the player
        self.munch.walk(self.move_direction, &self.maze, time_delta_ms);

        // 2. consume pickups, advance the energised state, broadcast modes
        let dots_eaten = self.maze.eat_dots(&self.munch);
        let pellets_eaten = self.maze.eat_power_pellets(&self.munch);
        let ghost e0 = self.energised;
        self.energised.update(&mut self.ghosts, pellets_eaten, time_delta_ms);
        let add = (dots_eaten as u32) * DOT_SCORE + (pellets_eaten as u32) * PELLET_SCORE;
        if self.score <= u32::MAX - add {
            self.score = self.score + add;
        } else {
            self.score = u32::MAX;
        }

        // 3. move the ghosts
        let ghost m1 = self.munch;
        let ghost maze2 = self.maze;
        let ghost gs1 = self.ghosts@;
        let ghost e1 = self.energised;
        let ghost score1 = self.score;
        let blinky_pos = self.get_blinky_pos();
        let respawn = self.maze.respawn_point;
        let mut gi: usize = 0;
        while gi < self.ghosts.len()
            invariant
                gi <= gs1.len(),
                self.maze == maze2,
                self.munch == m1,
                self.energised == e1,
                self.score == score1,
                self.move_direction == gl0.move_direction,
                self.munch_is_dead == gl0.munch_is_dead,
                self.ghosts@.len() == gs1.len(),
                maze2.wf(),
                w == maze2.width,
                h == maze2.height,
                respawn == maze2.respawn_point,
                respawn.0 < w,
                respawn.1 < h,
                m1.valid_in(w, h),
                blinky_pos.0 < w,
                blinky_pos.1 < h,
                blinky_pos == spec_blinky_from(gs1, 0),
                offset == (MOVEMENT_SPEED * time_delta_ms) as int,
                time_delta_ms <= MAX_TICK_MS,
                forall|j: int| 0 <= j < gs1.len() ==> (#[trigger] gs1[j]).actor.valid_in(w, h),
                forall|j: int|
                    0 <= j < gi ==> self.ghosts@[j] == spec_respawn_check(
                        spec_ghost_move(gs1[j], maze2.maze@, w, h, m1, blinky_pos, respawn, offset),
                        respawn,
                    ),
                forall|j: int| gi <= j < gs1.len() ==> self.ghosts@[j] == gs1[j],
                forall|j: int|
                    0 <= j < gs1.len() ==> (#[trigger] self.ghosts@[j]).actor.valid_in(w, h),
            decreases gs1.len() - gi,
        {
            let mut g = self.ghosts[gi];
            g.move_along_path(&self.maze, &self.munch, blinky_pos, time_delta_ms);
            if matches!(g.mode, Mode::Eaten) && g.actor.x == respawn.0 && g.actor.y == respawn.1 {
                g.set_mode_chase();
            }
            self.ghosts[gi] = g;
            gi = gi + 1;
        }
        proof {
            assert(self.ghosts@ =~= gs1.map_values(
                |g: Pursuer|
                    spec_respawn_check(
                        spec_ghost_move(g, maze2.maze@, w, h, m1, blinky_pos, respawn, offset),
                        respawn,
                    ),
            ));
        }

        // 4. resolve a player-ghost collision
        let mut eaten_ghost = false;
        let mut munch_caught = false;
        match self.munch_ghost_collision() {
            Some(index) => {
                proof {
                    lemma_collision_props(self.munch, self.ghosts@, 0, index as int);
                }
                if self.energised.is_energised {
                    let mut g = self.ghosts[index];
                    if g.eat_ghost() {
                        if self.score <= u32::MAX - GHOST_SCORE {
                            self.score = self.score + GHOST_SCORE;
                        } else {
                            self.score = u32::MAX;
                        }
                        eaten_ghost = true;
                    }
                    self.ghosts[index] = g;
                } else {
                    self.munch_is_dead = true;
                    munch_caught = true;
                }
            },
            None => {},
        }
        ReturnState { eaten_power_pellet: pellets_eaten > 0, eaten_ghost, munch_caught }
    }
}

} // verus!
