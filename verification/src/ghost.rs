//! The ghosts: four fixed personalities, a shared behavioural mode, and the
//! per-tick decision engine.
//!
//! Targeting is pure: each personality maps the player's state (and, for
//! Inky, Blinky's position) to a target cell. The decision engine walks the
//! ghost straight along its facing and, whenever the discrete cell changes,
//! picks a new facing: among the cardinal directions other than the reverse
//! of the current one, the first whose destination is ghost-passable and
//! minimises squared distance to the target; a dead end forces a reversal.

use crate::actor::next_cell;
use crate::actor::reverse_dir;
use crate::actor::spec_free_walk;
use crate::actor::spec_next_cell;
use crate::actor::spec_reverse_dir;
use crate::actor::Actor;
use crate::actor::Direction;
use crate::actor::MAX_TICK_MS;
use crate::actor::MOVEMENT_SPEED;
use crate::maze::spec_ghost_passable_at;
use crate::maze::Maze;
use crate::maze::Tile;
use vstd::prelude::*;

verus! {

/// Clyde retreats to his corner whenever the player is within this squared
/// distance.
pub const CLYDE_SCATTER_DIST_SQR: u64 = 64;

/// How many cells ahead of the player Pinky aims.
pub const PINKY_LOOKAHEAD: usize = 4;

/// How many cells ahead of the player Inky's pivot point lies.
pub const INKY_LOOKAHEAD: usize = 2;

#[derive(Debug, Clone, Copy, PartialEq, Eq, Structural)]
pub enum Personality {
    Blinky,
    Pinky,
    Inky,
    Clyde,
}

/// Behavioural mode, toggled by the simulation tick rather than by the
/// ghost itself: chasing the player, scattering while the player is
/// energised, or eaten and returning to the respawn cell.
#[derive(Debug, Clone, Copy, PartialEq, Eq, Structural)]
pub enum Mode {
    Chase,
    Scatter,
    Eaten,
}

#[derive(Debug, Clone, Copy, PartialEq, Eq, Structural)]
pub struct Pursuer {
    pub actor: Actor,
    pub personality: Personality,
    pub mode: Mode,
}

/// Squared Euclidean distance between two cells, on raw coordinates.
pub open spec fn spec_dist_sqr(a: (usize, usize), b: (usize, usize)) -> int {
    (a.0 - b.0) * (a.0 - b.0) + (a.1 - b.1) * (a.1 - b.1)
}

fn dist_sqr(a: &(usize, usize), b: &(usize, usize)) -> (d: u64)
    requires
        a.0 <= 0x7fff_ffff,
        a.1 <= 0x7fff_ffff,
        b.0 <= 0x7fff_ffff,
        b.1 <= 0x7fff_ffff,
    ensures
        d == spec_dist_sqr(*a, *b),
{
    let dx: u64 = if a.0 >= b.0 {
        (a.0 - b.0) as u64
    } else {
        (b.0 - a.0) as u64
    };
    let dy: u64 = if a.1 >= b.1 {
        (a.1 - b.1) as u64
    } else {
        (b.1 - a.1) as u64
    };
    proof {
        assert(dx == a.0 - b.0 || dx == b.0 - a.0);
        assert(dy == a.1 - b.1 || dy == b.1 - a.1);
        assert(dx * dx == (a.0 - b.0) * (a.0 - b.0)) by (nonlinear_arith)
            requires
                dx == a.0 - b.0 || dx == b.0 - a.0,
        ;
        assert(dy * dy == (a.1 - b.1) * (a.1 - b.1)) by (nonlinear_arith)
            requires
                dy == a.1 - b.1 || dy == b.1 - a.1,
        ;
        assert(dx * dx <= 0x4000_0000_0000_0000 && dy * dy <= 0x4000_0000_0000_0000)
            by (nonlinear_arith)
            requires
                0 <= dx <= 0x7fff_ffff,
                0 <= dy <= 0x7fff_ffff,
        ;
    }
    dx * dx + dy * dy
}

/// The cell `i` steps from `(x, y)` in `dir`, wrapped toroidally.
pub open spec fn spec_cell_at_offset(
    x: usize,
    y: usize,
    dir: Direction,
    i: int,
    w: usize,
    h: usize,
) -> (usize, usize)
    recommends
        x < w,
        y < h,
        1 <= w,
        1 <= h,
        0 <= i,
{
    match dir {
        Direction::Up => (x, ((y - i) % (h as int)) as usize),
        Direction::Down => (x, ((y + i) % (h as int)) as usize),
        Direction::Left => (((x - i) % (w as int)) as usize, y),
        Direction::Right => (((x + i) % (w as int)) as usize, y),
        Direction::Still => (x, y),
    }
}

/// Subtracting `i` before wrapping equals adding the modulus and
/// subtracting `i`'s remainder: the non-negative form the executable code
/// computes.
proof fn lemma_sub_mod(v: int, i: int, n: int)
    requires
        n >= 1,
        i >= 0,
    ensures
        (v - i) % n == (v + n - i % n) % n,
{
    let m = i % n;
    let q = i / n;
    vstd::arithmetic::div_mod::lemma_fundamental_div_mod(i, n);
    assert(i == q * n + m) by (nonlinear_arith)
        requires
            i == n * q + m,
    ;
    vstd::arithmetic::div_mod::lemma_mod_multiples_vanish(-(q + 1), v + n - m, n);
    assert(n * (-(q + 1)) + (v + n - m) == v - i) by (nonlinear_arith)
        requires
            i == n * q + m,
    ;
}

fn cell_at_offset(x: usize, y: usize, dir: Direction, i: usize, w: usize, h: usize) -> (c: (
    usize,
    usize,
))
    requires
        x < w,
        y < h,
        1 <= w <= 0x7fff_ffff,
        1 <= h <= 0x7fff_ffff,
        i <= 0x7fff_ffff,
    ensures
        c == spec_cell_at_offset(x, y, dir, i as int, w, h),
        c.0 < w,
        c.1 < h,
{
    match dir {
        Direction::Up => {
            let m = i % h;
            let c = (x, (y + h - m) % h);
            proof {
                lemma_sub_mod(y as int, i as int, h as int);
            }
            c
        },
        Direction::Down => (x, (y + i) % h),
        Direction::Left => {
            let m = i % w;
            let c = ((x + w - m) % w, y);
            proof {
                lemma_sub_mod(x as int, i as int, w as int);
            }
            c
        },
        Direction::Right => ((x + i) % w, y),
        Direction::Still => (x, y),
    }
}

/// Blinky directly targets the player's current cell, whatever the player's
/// facing.
pub open spec fn spec_blinky_target(munch: Actor) -> (usize, usize) {
    (munch.x, munch.y)
}

pub fn get_blinky_target(munch: &Actor) -> (t: (usize, usize))
    ensures
        t == spec_blinky_target(*munch),
{
    munch.get_pos()
}

/// The cell up to `i` steps ahead of the player along the player's facing,
/// walking the lookahead back towards the player until a ghost-passable
/// cell is found; the player's own cell is the fallback.
pub open spec fn spec_lookahead_target(
    tiles: Seq<Tile>,
    w: usize,
    h: usize,
    munch: Actor,
    i: int,
) -> (usize, usize)
    decreases i,
{
    if i <= 0 || munch.move_direction == Direction::Still {
        (munch.x, munch.y)
    } else {
        let c = spec_cell_at_offset(munch.x, munch.y, munch.move_direction, i, w, h);
        if spec_ghost_passable_at(tiles, w as int, h as int, c.0 as int, c.1 as int) {
            c
        } else {
            spec_lookahead_target(tiles, w, h, munch, i - 1)
        }
    }
}

fn get_lookahead_target(munch: &Actor, maze: &Maze, lookahead: usize) -> (t: (usize, usize))
    requires
        maze.dims_ok(),
        munch.x < maze.width,
        munch.y < maze.height,
        lookahead <= 0x7fff_ffff,
    ensures
        t == spec_lookahead_target(maze.maze@, maze.width, maze.height, *munch, lookahead as int),
        t.0 < maze.width,
        t.1 < maze.height,
{
    if matches!(munch.move_direction, Direction::Still) {
        return munch.get_pos();
    }
    let mut i: usize = lookahead;
    while i >= 1
        invariant
            maze.dims_ok(),
            munch.x < maze.width,
            munch.y < maze.height,
            munch.move_direction != Direction::Still,
            i <= lookahead <= 0x7fff_ffff,
            spec_lookahead_target(maze.maze@, maze.width, maze.height, *munch, lookahead as int)
                == spec_lookahead_target(maze.maze@, maze.width, maze.height, *munch, i as int),
        decreases i,
    {
        let c = cell_at_offset(
            munch.x,
            munch.y,
            munch.move_direction,
            i,
            maze.width,
            maze.height,
        );
        if maze.is_ghost_passable(c.0, c.1) {
            return c;
        }
        i = i - 1;
    }
    munch.get_pos()
}

/// Pinky aims four cells ahead of the player.
pub fn get_pinky_target(munch: &Actor, maze: &Maze) -> (t: (usize, usize))
    requires
        maze.dims_ok(),
        munch.x < maze.width,
        munch.y < maze.height,
    ensures
        t == spec_lookahead_target(
            maze.maze@,
            maze.width,
            maze.height,
            *munch,
            PINKY_LOOKAHEAD as int,
        ),
        t.0 < maze.width,
        t.1 < maze.height,
{
    get_lookahead_target(munch, maze, PINKY_LOOKAHEAD)
}

/// Inky doubles Blinky's vector to the point two cells ahead of the player:
/// the lookahead point reflected through Blinky, wrapped toroidally.
pub open spec fn spec_inky_target(
    tiles: Seq<Tile>,
    w: usize,
    h: usize,
    munch: Actor,
    blinky: (usize, usize),
) -> (usize, usize) {
    let l = spec_lookahead_target(tiles, w, h, munch, INKY_LOOKAHEAD as int);
    (
        ((2 * l.0 - blinky.0) % (w as int)) as usize,
        ((2 * l.1 - blinky.1) % (h as int)) as usize,
    )
}

pub fn get_inky_target(munch: &Actor, maze: &Maze, blinky_pos: (usize, usize)) -> (t: (
    usize,
    usize,
))
    requires
        maze.dims_ok(),
        munch.x < maze.width,
        munch.y < maze.height,
        blinky_pos.0 < maze.width,
        blinky_pos.1 < maze.height,
    ensures
        t == spec_inky_target(maze.maze@, maze.width, maze.height, *munch, blinky_pos),
        t.0 < maze.width,
        t.1 < maze.height,
{
    let l = get_lookahead_target(munch, maze, INKY_LOOKAHEAD);
    let w64 = maze.width as u64;
    let h64 = maze.height as u64;
    let x = ((2 * (l.0 as u64) + w64 - blinky_pos.0 as u64) % w64) as usize;
    let y = ((2 * (l.1 as u64) + h64 - blinky_pos.1 as u64) % h64) as usize;
    proof {
        vstd::arithmetic::div_mod::lemma_mod_multiples_vanish(
            1,
            2 * l.0 - blinky_pos.0,
            maze.width as int,
        );
        vstd::arithmetic::div_mod::lemma_mod_multiples_vanish(
            1,
            2 * l.1 - blinky_pos.1,
            maze.height as int,
        );
    }
    (x, y)
}

/// The corner each personality retreats to while scattering.
pub open spec fn spec_scatter_target(p: Personality, w: usize, h: usize) -> (usize, usize)
    recommends
        1 <= w,
        1 <= h,
{
    match p {
        Personality::Blinky => ((w - 1) as usize, 0usize),
        Personality::Pinky => (0usize, 0usize),
        Personality::Inky => ((w - 1) as usize, (h - 1) as usize),
        Personality::Clyde => (0usize, (h - 1) as usize),
    }
}

/// Clyde chases the player from afar but breaks off to his scatter corner
/// whenever the player comes within `CLYDE_SCATTER_DIST_SQR`.
pub open spec fn spec_clyde_target(munch: Actor, clyde: Actor, h: usize) -> (usize, usize)
    recommends
        1 <= h,
{
    if spec_dist_sqr((munch.x, munch.y), (clyde.x, clyde.y)) <= CLYDE_SCATTER_DIST_SQR {
        (0usize, (h - 1) as usize)
    } else {
        (munch.x, munch.y)
    }
}

/// The target cell for a ghost's current mode and personality.
pub open spec fn spec_target(
    g: Pursuer,
    tiles: Seq<Tile>,
    w: usize,
    h: usize,
    munch: Actor,
    blinky: (usize, usize),
    respawn: (usize, usize),
) -> (usize, usize) {
    match g.mode {
        Mode::Chase => match g.personality {
            Personality::Blinky => spec_blinky_target(munch),
            Personality::Pinky => spec_lookahead_target(tiles, w, h, munch, PINKY_LOOKAHEAD as int),
            Personality::Inky => spec_inky_target(tiles, w, h, munch, blinky),
            Personality::Clyde => spec_clyde_target(munch, g.actor, h),
        },
        Mode::Scatter => spec_scatter_target(g.personality, w, h),
        Mode::Eaten => respawn,
    }
}

/// The cardinal directions a ghost may consider, in the fixed evaluation
/// order Left, Right, Up, Down, with the reverse of the current facing
/// removed.
pub open spec fn spec_candidates(facing: Direction) -> Seq<Direction> {
    match facing {
        Direction::Still => seq![Direction::Left, Direction::Right, Direction::Up, Direction::Down],
        Direction::Up => seq![Direction::Left, Direction::Right, Direction::Up],
        Direction::Down => seq![Direction::Left, Direction::Right, Direction::Down],
        Direction::Left => seq![Direction::Left, Direction::Up, Direction::Down],
        Direction::Right => seq![Direction::Right, Direction::Up, Direction::Down],
    }
}

/// The first direction among `dirs` whose destination from `pos` is
/// ghost-passable and of minimal squared distance to `target`; ties keep
/// the earlier direction.
pub open spec fn spec_best_dir(
    tiles: Seq<Tile>,
    w: usize,
    h: usize,
    pos: (usize, usize),
    target: (usize, usize),
    dirs: Seq<Direction>,
) -> Option<Direction>
    decreases dirs.len(),
{
    if dirs.len() == 0 {
        None
    } else {
        let best = spec_best_dir(tiles, w, h, pos, target, dirs.drop_last());
        let d = dirs.last();
        let c = spec_next_cell(pos.0, pos.1, d, w, h);
        if spec_ghost_passable_at(tiles, w as int, h as int, c.0 as int, c.1 as int) {
            match best {
                None => Some(d),
                Some(b) => {
                    let cb = spec_next_cell(pos.0, pos.1, b, w, h);
                    if spec_dist_sqr(c, target) < spec_dist_sqr(cb, target) {
                        Some(d)
                    } else {
                        Some(b)
                    }
                },
            }
        } else {
            best
        }
    }
}

/// What the candidate fold chooses: a direction it returns is a candidate
/// whose destination is ghost-passable and of minimal squared distance to
/// the target; it returns none exactly when every candidate is blocked.
pub proof fn lemma_best_dir_characterisation(
    tiles: Seq<Tile>,
    w: usize,
    h: usize,
    pos: (usize, usize),
    target: (usize, usize),
    dirs: Seq<Direction>,
)
    ensures
        ({
            let r = spec_best_dir(tiles, w, h, pos, target, dirs);
            match r {
                Some(b) => {
                    let cb = spec_next_cell(pos.0, pos.1, b, w, h);
                    &&& dirs.contains(b)
                    &&& spec_ghost_passable_at(tiles, w as int, h as int, cb.0 as int, cb.1 as int)
                    &&& forall|j: int|
                        0 <= j < dirs.len() && spec_ghost_passable_at(
                            tiles,
                            w as int,
                            h as int,
                            spec_next_cell(pos.0, pos.1, #[trigger] dirs[j], w, h).0 as int,
                            spec_next_cell(pos.0, pos.1, dirs[j], w, h).1 as int,
                        ) ==> spec_dist_sqr(cb, target) <= spec_dist_sqr(
                            spec_next_cell(pos.0, pos.1, dirs[j], w, h),
                            target,
                        )
                },
                None => forall|j: int|
                    0 <= j < dirs.len() ==> !spec_ghost_passable_at(
                        tiles,
                        w as int,
                        h as int,
                        spec_next_cell(pos.0, pos.1, #[trigger] dirs[j], w, h).0 as int,
                        spec_next_cell(pos.0, pos.1, dirs[j], w, h).1 as int,
                    ),
            }
        }),
    decreases dirs.len(),
{
    if dirs.len() > 0 {
        lemma_best_dir_characterisation(tiles, w, h, pos, target, dirs.drop_last());
        let prefix = dirs.drop_last();
        assert(forall|j: int| 0 <= j < prefix.len() ==> prefix[j] == dirs[j]);
        let r = spec_best_dir(tiles, w, h, pos, target, dirs);
        match r {
            Some(b) => {
                if spec_best_dir(tiles, w, h, pos, target, prefix) == Some(b) {
                    let i = choose|i: int| 0 <= i < prefix.len() && prefix[i] == b;
                    assert(dirs[i] == b);
                } else {
                    assert(dirs[dirs.len() - 1] == b);
                }
            },
            None => {},
        }
    }
}

/// The decision rule of the engine, as stated: at an intersection the ghost
/// adopts a candidate direction whose destination is ghost-passable and of
/// minimal squared distance to the target, and reverses exactly when every
/// candidate is blocked (the dead-end case).
pub proof fn lemma_chosen_dir_correct(
    tiles: Seq<Tile>,
    w: usize,
    h: usize,
    pos: (usize, usize),
    facing: Direction,
    target: (usize, usize),
)
    ensures
        ({
            let cands = spec_candidates(facing);
            let d = spec_chosen_dir(tiles, w, h, pos, facing, target);
            let cd = spec_next_cell(pos.0, pos.1, d, w, h);
            if exists|j: int|
                0 <= j < cands.len() && spec_ghost_passable_at(
                    tiles,
                    w as int,
                    h as int,
                    spec_next_cell(pos.0, pos.1, #[trigger] cands[j], w, h).0 as int,
                    spec_next_cell(pos.0, pos.1, cands[j], w, h).1 as int,
                ) {
                &&& cands.contains(d)
                &&& spec_ghost_passable_at(tiles, w as int, h as int, cd.0 as int, cd.1 as int)
                &&& forall|j: int|
                    0 <= j < cands.len() && spec_ghost_passable_at(
                        tiles,
                        w as int,
                        h as int,
                        spec_next_cell(pos.0, pos.1, #[trigger] cands[j], w, h).0 as int,
                        spec_next_cell(pos.0, pos.1, cands[j], w, h).1 as int,
                    ) ==> spec_dist_sqr(cd, target) <= spec_dist_sqr(
                        spec_next_cell(pos.0, pos.1, cands[j], w, h),
                        target,
                    )
            } else {
                d == spec_reverse_dir(facing)
            }
        }),
{
    lemma_best_dir_characterisation(tiles, w, h, pos, target, spec_candidates(facing));
}

/// The facing a ghost adopts at an intersection: the best candidate
/// direction, or the forced reversal when every candidate is blocked.
pub open spec fn spec_chosen_dir(
    tiles: Seq<Tile>,
    w: usize,
    h: usize,
    pos: (usize, usize),
    facing: Direction,
    target: (usize, usize),
) -> Direction {
    match spec_best_dir(tiles, w, h, pos, target, spec_candidates(facing)) {
        Some(d) => d,
        None => spec_reverse_dir(facing),
    }
}

/// One ghost decision-engine tick: walk straight along the current facing,
/// and on a discrete-cell commit re-run targeting and adopt the chosen
/// facing.
pub open spec fn spec_ghost_move(
    g: Pursuer,
    tiles: Seq<Tile>,
    w: usize,
    h: usize,
    munch: Actor,
    blinky: (usize, usize),
    respawn: (usize, usize),
    offset: int,
) -> Pursuer {
    let r = spec_free_walk(g.actor, g.actor.move_direction, w, h, offset);
    let g1 = Pursuer { actor: r.0, ..g };
    if r.1 {
        let t = spec_target(g1, tiles, w, h, munch, blinky, respawn);
        Pursuer {
            actor: Actor {
                move_direction: spec_chosen_dir(
                    tiles,
                    w,
                    h,
                    (r.0.x, r.0.y),
                    r.0.move_direction,
                    t,
                ),
                ..r.0
            },
            ..g
        }
    } else {
        g1
    }
}

impl Pursuer {
    pub fn new(x: usize, y: usize, personality: Personality) -> (g: Pursuer)
        ensures
            g == (Pursuer { actor: Actor { x, y, progress: 0u32, move_direction: Direction::Still }, personality, mode: Mode::Chase }),
    {
        Pursuer { actor: Actor::new(x, y), personality, mode: Mode::Chase }
    }

    /// Re-run targeting for the current mode and personality and adopt the
    /// chosen facing.
    pub fn generate_next_tile(&mut self, maze: &Maze, munch: &Actor, blinky_pos: (usize, usize))
        requires
            maze.dims_ok(),
            old(self).actor.x < maze.width,
            old(self).actor.y < maze.height,
            munch.x < maze.width,
            munch.y < maze.height,
            blinky_pos.0 < maze.width,
            blinky_pos.1 < maze.height,
            maze.respawn_point.0 < maze.width,
            maze.respawn_point.1 < maze.height,
        ensures
            *final(self) == (Pursuer {
                actor: Actor {
                    move_direction: spec_chosen_dir(
                        maze.maze@,
                        maze.width,
                        maze.height,
                        (old(self).actor.x, old(self).actor.y),
                        old(self).actor.move_direction,
                        spec_target(
                            *old(self),
                            maze.maze@,
                            maze.width,
                            maze.height,
                            *munch,
                            blinky_pos,
                            maze.respawn_point,
                        ),
                    ),
                    ..old(self).actor
                },
                ..*old(self)
            }),
    {
        let target: (usize, usize) = match self.mode {
            Mode::Chase => match self.personality {
                Personality::Blinky => get_blinky_target(munch),
                Personality::Pinky => get_pinky_target(munch, maze),
                Personality::Inky => get_inky_target(munch, maze, blinky_pos),
                Personality::Clyde => self.get_clyde_target(munch, maze),
            },
            Mode::Scatter => {
                // scatter targets are the corners of the maze
                match self.personality {
                    Personality::Blinky => (maze.width - 1, 0),
                    Personality::Pinky => (0, 0),
                    Personality::Inky => (maze.width - 1, maze.height - 1),
                    Personality::Clyde => (0, maze.height - 1),
                }
            },
            Mode::Eaten => maze.respawn_point,
        };
        self.generate_next_tile_with_target(maze, &target);
    }

    /// Adopt the best candidate facing towards `target`, or reverse at a
    /// dead end.
    fn generate_next_tile_with_target(&mut self, maze: &Maze, target: &(usize, usize))
        requires
            maze.dims_ok(),
            old(self).actor.x < maze.width,
            old(self).actor.y < maze.height,
            target.0 < maze.width,
            target.1 < maze.height,
        ensures
            *final(self) == (Pursuer {
                actor: Actor {
                    move_direction: spec_chosen_dir(
                        maze.maze@,
                        maze.width,
                        maze.height,
                        (old(self).actor.x, old(self).actor.y),
                        old(self).actor.move_direction,
                        *target,
                    ),
                    ..old(self).actor
                },
                ..*old(self)
            }),
    {
        let ghost_pos = self.actor.get_pos();
        let facing = self.actor.move_direction;
        let rev = reverse_dir(facing);
        let mut cands: Vec<Direction> = Vec::new();
        if rev != Direction::Left {
            cands.push(Direction::Left);
        }
        if rev != Direction::Right {
            cands.push(Direction::Right);
        }
        if rev != Direction::Up {
            cands.push(Direction::Up);
        }
        if rev != Direction::Down {
            cands.push(Direction::Down);
        }
        proof {
            assert(cands@ =~= spec_candidates(facing));
        }
        let mut best: Option<Direction> = None;
        let mut j: usize = 0;
        proof {
            assert(cands@.take(0) =~= Seq::<Direction>::empty());
        }
        while j < cands.len()
            invariant
                maze.dims_ok(),
                ghost_pos.0 < maze.width,
                ghost_pos.1 < maze.height,
                target.0 < maze.width,
                target.1 < maze.height,
                j <= cands@.len(),
                best == spec_best_dir(
                    maze.maze@,
                    maze.width,
                    maze.height,
                    ghost_pos,
                    *target,
                    cands@.take(j as int),
                ),
            decreases cands@.len() - j,
        {
            proof {
                assert(cands@.take(j + 1).drop_last() =~= cands@.take(j as int));
                assert(cands@.take(j + 1).last() == cands@[j as int]);
            }
            let d = cands[j];
            let c = next_cell(ghost_pos.0, ghost_pos.1, d, maze.width, maze.height);
            if maze.is_ghost_passable(c.0, c.1) {
                match best {
                    None => {
                        best = Some(d);
                    },
                    Some(b) => {
                        let cb = next_cell(ghost_pos.0, ghost_pos.1, b, maze.width, maze.height);
                        if dist_sqr(&c, target) < dist_sqr(&cb, target) {
                            best = Some(d);
                        }
                    },
                }
            }
            j = j + 1;
        }
        proof {
            assert(cands@.take(cands@.len() as int) =~= cands@);
        }
        match best {
            Some(d) => {
                self.actor.move_direction = d;
            },
            None => {
                // no candidate leads anywhere: a true dead end, the one case
                // that permits a reversal
                self.actor.move_direction = rev;
            },
        }
    }

    /// One decision-engine tick: walk straight, and retarget on a commit.
    pub fn move_along_path(
        &mut self,
        maze: &Maze,
        munch: &Actor,
        blinky_pos: (usize, usize),
        time_delta_ms: u32,
    )
        requires
            maze.dims_ok(),
            old(self).actor.valid_in(maze.width, maze.height),
            munch.x < maze.width,
            munch.y < maze.height,
            blinky_pos.0 < maze.width,
            blinky_pos.1 < maze.height,
            maze.respawn_point.0 < maze.width,
            maze.respawn_point.1 < maze.height,
            time_delta_ms <= MAX_TICK_MS,
        ensures
            *final(self) == spec_ghost_move(
                *old(self),
                maze.maze@,
                maze.width,
                maze.height,
                *munch,
                blinky_pos,
                maze.respawn_point,
                (MOVEMENT_SPEED * time_delta_ms) as int,
            ),
            final(self).actor.valid_in(maze.width, maze.height),
    {
        let dir = self.actor.move_direction;
        let changed_discrete_position = self.actor.walk_no_collisions(dir, maze, time_delta_ms);
        if changed_discrete_position {
            self.generate_next_tile(maze, munch, blinky_pos);
        }
    }

    pub fn set_mode_scatter(&mut self)
        ensures
            *final(self) == (Pursuer { mode: Mode::Scatter, ..*old(self) }),
    {
        self.mode = Mode::Scatter;
    }

    pub fn set_mode_chase(&mut self)
        ensures
            *final(self) == (Pursuer { mode: Mode::Chase, ..*old(self) }),
    {
        self.mode = Mode::Chase;
    }

    /// Mark this ghost eaten; reports whether it was not already eaten.
    pub fn eat_ghost(&mut self) -> (r: bool)
        ensures
            *final(self) == (Pursuer { mode: Mode::Eaten, ..*old(self) }),
            r == (old(self).mode != Mode::Eaten),
    {
        if self.mode != Mode::Eaten {
            self.mode = Mode::Eaten;
            true
        } else {
            false
        }
    }

    fn get_clyde_target(&self, munch: &Actor, maze: &Maze) -> (t: (usize, usize))
        requires
            maze.dims_ok(),
            munch.x < maze.width,
            munch.y < maze.height,
            self.actor.x < maze.width,
            self.actor.y < maze.height,
        ensures
            t == spec_clyde_target(*munch, self.actor, maze.height),
            t.0 < maze.width,
            t.1 < maze.height,
    {
        if dist_sqr(&munch.get_pos(), &self.actor.get_pos()) <= CLYDE_SCATTER_DIST_SQR {
            (0, maze.height - 1)
        } else {
            munch.get_pos()
        }
    }
}

} // verus!
