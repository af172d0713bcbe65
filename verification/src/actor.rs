//! The movement automaton shared by the player and the ghosts.
//!
//! An actor sits on a discrete cell `(x, y)` and carries a fractional
//! `progress` towards the next cell in its `move_direction`. Progress is kept
//! in fixed-point milli-cells: `PROGRESS_SCALE` units make up one whole cell,
//! so every threshold below is exact integer arithmetic. A tick advances
//! progress by `MOVEMENT_SPEED * time_delta_ms` milli-cells and commits a
//! discrete step (with toroidal wrap) once a whole cell has been covered.

use crate::maze::Maze;
use crate::maze::spec_player_passable_at;
use crate::maze::Tile;
use vstd::prelude::*;

verus! {

/// Milli-cells per cell: the denominator of the fixed-point progress scale.
pub const PROGRESS_SCALE: u32 = 1000;

/// Walking speed in cells per second. Since progress is measured in
/// milli-cells and the tick length in milliseconds, the per-tick progress
/// offset is exactly `MOVEMENT_SPEED * time_delta_ms`.
pub const MOVEMENT_SPEED: u32 = 4;

/// A turn request may still snap back to the intersection just passed while
/// progress is at most this far beyond it (a tenth of a cell).
pub const TURN_CUT_LIMIT: u32 = 100;

/// Upper bound on a single tick, so the progress arithmetic cannot overflow.
pub const MAX_TICK_MS: u32 = 100_000;

#[derive(Copy, Clone, Eq, PartialEq, Structural, Debug)]
pub enum Direction {
    Still,
    Up,
    Down,
    Left,
    Right,
}

pub open spec fn spec_reverse_dir(dir: Direction) -> Direction {
    match dir {
        Direction::Up => Direction::Down,
        Direction::Down => Direction::Up,
        Direction::Left => Direction::Right,
        Direction::Right => Direction::Left,
        Direction::Still => Direction::Still,
    }
}

pub fn reverse_dir(dir: Direction) -> (r: Direction)
    ensures
        r == spec_reverse_dir(dir),
{
    match dir {
        Direction::Up => Direction::Down,
        Direction::Down => Direction::Up,
        Direction::Left => Direction::Right,
        Direction::Right => Direction::Left,
        Direction::Still => Direction::Still,
    }
}

/// The neighbouring cell one step in `dir` from `(x, y)` on a `w` by `h`
/// torus; standing still names the cell itself.
pub open spec fn spec_next_cell(x: usize, y: usize, dir: Direction, w: usize, h: usize) -> (
    usize,
    usize,
)
    recommends
        x < w,
        y < h,
        1 <= w,
        1 <= h,
{
    match dir {
        Direction::Up => (
            x,
            if y == 0 {
                (h - 1) as usize
            } else {
                (y - 1) as usize
            },
        ),
        Direction::Down => (
            x,
            if y + 1 == h {
                0usize
            } else {
                (y + 1) as usize
            },
        ),
        Direction::Left => (
            if x == 0 {
                (w - 1) as usize
            } else {
                (x - 1) as usize
            },
            y,
        ),
        Direction::Right => (
            if x + 1 == w {
                0usize
            } else {
                (x + 1) as usize
            },
            y,
        ),
        Direction::Still => (x, y),
    }
}

pub(crate) fn next_cell(x: usize, y: usize, dir: Direction, w: usize, h: usize) -> (c: (
    usize,
    usize,
))
    requires
        x < w,
        y < h,
        1 <= w,
        1 <= h,
    ensures
        c == spec_next_cell(x, y, dir, w, h),
        c.0 < w,
        c.1 < h,
{
    match dir {
        Direction::Up => (
            x,
            if y == 0 {
                h - 1
            } else {
                y - 1
            },
        ),
        Direction::Down => (
            x,
            if y + 1 == h {
                0
            } else {
                y + 1
            },
        ),
        Direction::Left => (
            if x == 0 {
                w - 1
            } else {
                x - 1
            },
            y,
        ),
        Direction::Right => (
            if x + 1 == w {
                0
            } else {
                x + 1
            },
            y,
        ),
        Direction::Still => (x, y),
    }
}

/// A walker: the discrete cell it occupies, its fixed-point progress towards
/// the next cell, and the direction it is facing.
#[derive(Copy, Clone, Eq, PartialEq, Structural, Debug)]
pub struct Actor {
    pub x: usize,
    pub y: usize,
    pub progress: u32,
    pub move_direction: Direction,
}

/// The cells an actor occupies: its own cell, plus the cell ahead once
/// progress has passed `threshold`.
pub open spec fn spec_footprint(a: Actor, threshold: u32, w: usize, h: usize) -> Seq<
    (usize, usize),
> {
    let head = seq![(a.x, a.y)];
    if a.progress > threshold && a.move_direction != Direction::Still {
        head.push(spec_next_cell(a.x, a.y, a.move_direction, w, h))
    } else {
        head
    }
}

/// Continuous position in milli-cells, interpolated along the facing.
pub open spec fn spec_draw_pos(a: Actor) -> (int, int) {
    let x = a.x * PROGRESS_SCALE;
    let y = a.y * PROGRESS_SCALE;
    match a.move_direction {
        Direction::Up => (x as int, y - a.progress),
        Direction::Down => (x as int, y + a.progress),
        Direction::Left => (x - a.progress, y as int),
        Direction::Right => (x + a.progress, y as int),
        Direction::Still => (x as int, y as int),
    }
}

/// The movement phase of a player-style walk: arbitrate the requested
/// direction against the current facing and the maze, before any discrete
/// commit. Returns the cell, facing and (unclamped) progress.
pub open spec fn spec_walk_move(
    a: Actor,
    req: Direction,
    tiles: Seq<Tile>,
    w: usize,
    h: usize,
    offset: int,
) -> (usize, usize, Direction, int) {
    let facing = if a.move_direction == Direction::Still {
        req
    } else {
        a.move_direction
    };
    let p = a.progress as int;
    if facing == Direction::Still {
        // still standing and nothing requested
        (a.x, a.y, facing, p)
    } else if req == facing {
        // keep walking while the destination ahead is open
        let n = spec_next_cell(a.x, a.y, facing, w, h);
        if spec_player_passable_at(tiles, w as int, h as int, n.0 as int, n.1 as int) {
            (a.x, a.y, facing, p + offset)
        } else {
            (a.x, a.y, facing, p)
        }
    } else if req == spec_reverse_dir(facing) {
        // 180 degree reversal: permitted when the destination in the new
        // direction is open, or when far enough from the cell boundary that
        // the mirrored progress stays inside the cell
        let n = spec_next_cell(a.x, a.y, req, w, h);
        if spec_player_passable_at(tiles, w as int, h as int, n.0 as int, n.1 as int) || p >= 2
            * offset {
            let c = spec_next_cell(a.x, a.y, facing, w, h);
            (c.0, c.1, req, PROGRESS_SCALE - p + 2 * offset)
        } else {
            (a.x, a.y, facing, p)
        }
    } else if req == Direction::Still {
        (a.x, a.y, facing, p)
    } else {
        // 90 degree turn: cut the corner while close enough to the
        // intersection, otherwise keep straight and drop the request
        let n = spec_next_cell(a.x, a.y, req, w, h);
        if spec_player_passable_at(tiles, w as int, h as int, n.0 as int, n.1 as int) && p
            <= TURN_CUT_LIMIT {
            (a.x, a.y, req, 0)
        } else {
            let f = spec_next_cell(a.x, a.y, facing, w, h);
            if spec_player_passable_at(tiles, w as int, h as int, f.0 as int, f.1 as int) {
                (a.x, a.y, facing, p + offset)
            } else {
                (a.x, a.y, facing, p)
            }
        }
    }
}

/// The commit phase: once a whole cell of progress has accumulated, reset
/// progress and step the discrete cell one unit along the facing, wrapping
/// toroidally. The boolean reports whether the discrete cell was committed.
pub open spec fn spec_commit(
    x: usize,
    y: usize,
    facing: Direction,
    p: int,
    w: usize,
    h: usize,
) -> (Actor, bool) {
    if p >= PROGRESS_SCALE {
        let c = spec_next_cell(x, y, facing, w, h);
        (Actor { x: c.0, y: c.1, progress: 0, move_direction: facing }, true)
    } else {
        (Actor { x, y, progress: p as u32, move_direction: facing }, false)
    }
}

/// One whole player-style tick: movement arbitration followed by the commit.
pub open spec fn spec_walk(
    a: Actor,
    req: Direction,
    tiles: Seq<Tile>,
    w: usize,
    h: usize,
    offset: int,
) -> (Actor, bool) {
    let m = spec_walk_move(a, req, tiles, w, h, offset);
    spec_commit(m.0, m.1, m.2, m.3, w, h)
}

/// One unconstrained tick: face `dir`, accumulate progress, commit. Ghosts
/// walk this way; their direction is chosen by the decision engine instead
/// of the player-style arbitration.
pub open spec fn spec_free_walk(a: Actor, dir: Direction, w: usize, h: usize, offset: int) -> (
    Actor,
    bool,
) {
    spec_commit(a.x, a.y, dir, a.progress + offset, w, h)
}

/// Reversal correctness, permitted case: when the destination in the
/// requested (opposite) direction is blocked but progress is strictly past
/// twice the offset, the walk flips the facing, steps the discrete cell one
/// unit along the *old* facing, and mirrors the progress across the cell
/// boundary, without a same-tick commit.
pub proof fn lemma_reversal_permitted(
    a: Actor,
    req: Direction,
    tiles: Seq<Tile>,
    w: usize,
    h: usize,
    offset: int,
)
    requires
        1 <= w,
        1 <= h,
        a.valid_in(w, h),
        a.move_direction != Direction::Still,
        req == spec_reverse_dir(a.move_direction),
        !spec_player_passable_at(
            tiles,
            w as int,
            h as int,
            spec_next_cell(a.x, a.y, req, w, h).0 as int,
            spec_next_cell(a.x, a.y, req, w, h).1 as int,
        ),
        0 <= offset,
        a.progress > 2 * offset,
    ensures
        ({
            let r = spec_walk(a, req, tiles, w, h, offset);
            &&& r.0.move_direction == req
            &&& (r.0.x, r.0.y) == spec_next_cell(a.x, a.y, a.move_direction, w, h)
            &&& r.0.progress == PROGRESS_SCALE - a.progress + 2 * offset
            &&& r.1 == false
        }),
{
    assert(req != a.move_direction);
    assert(req != Direction::Still);
}

/// Reversal correctness, blocked case: when the destination in the requested
/// direction is blocked and progress has not yet reached twice the offset,
/// the reversal request leaves the actor entirely unchanged.
pub proof fn lemma_reversal_blocked(
    a: Actor,
    req: Direction,
    tiles: Seq<Tile>,
    w: usize,
    h: usize,
    offset: int,
)
    requires
        1 <= w,
        1 <= h,
        a.valid_in(w, h),
        a.move_direction != Direction::Still,
        req == spec_reverse_dir(a.move_direction),
        !spec_player_passable_at(
            tiles,
            w as int,
            h as int,
            spec_next_cell(a.x, a.y, req, w, h).0 as int,
            spec_next_cell(a.x, a.y, req, w, h).1 as int,
        ),
        a.progress < 2 * offset,
    ensures
        spec_walk(a, req, tiles, w, h, offset) == (a, false),
{
    assert(req != a.move_direction);
    assert(req != Direction::Still);
}

/// Corner-cut correctness, cut taken: a quarter-turn request whose
/// destination is open, made while progress is within `TURN_CUT_LIMIT`,
/// snaps progress to zero and adopts the requested facing in place.
pub proof fn lemma_corner_cut_taken(
    a: Actor,
    req: Direction,
    tiles: Seq<Tile>,
    w: usize,
    h: usize,
    offset: int,
)
    requires
        1 <= w,
        1 <= h,
        a.valid_in(w, h),
        a.move_direction != Direction::Still,
        req != Direction::Still,
        req != a.move_direction,
        req != spec_reverse_dir(a.move_direction),
        spec_player_passable_at(
            tiles,
            w as int,
            h as int,
            spec_next_cell(a.x, a.y, req, w, h).0 as int,
            spec_next_cell(a.x, a.y, req, w, h).1 as int,
        ),
        a.progress <= TURN_CUT_LIMIT,
    ensures
        spec_walk(a, req, tiles, w, h, offset) == (
            Actor { x: a.x, y: a.y, progress: 0u32, move_direction: req },
            false,
        ),
{
}

/// Corner-cut correctness, request deferred: too far past the intersection,
/// the actor keeps its old facing and continues straight when the cell ahead
/// is open.
pub proof fn lemma_corner_cut_deferred(
    a: Actor,
    req: Direction,
    tiles: Seq<Tile>,
    w: usize,
    h: usize,
    offset: int,
)
    requires
        1 <= w,
        1 <= h,
        a.valid_in(w, h),
        a.move_direction != Direction::Still,
        req != Direction::Still,
        req != a.move_direction,
        req != spec_reverse_dir(a.move_direction),
        a.progress > TURN_CUT_LIMIT,
        spec_player_passable_at(
            tiles,
            w as int,
            h as int,
            spec_next_cell(a.x, a.y, a.move_direction, w, h).0 as int,
            spec_next_cell(a.x, a.y, a.move_direction, w, h).1 as int,
        ),
        0 <= offset,
        a.progress + offset < PROGRESS_SCALE,
    ensures
        spec_walk(a, req, tiles, w, h, offset) == (
            Actor {
                x: a.x,
                y: a.y,
                progress: (a.progress + offset) as u32,
                move_direction: a.move_direction,
            },
            false,
        ),
{
}

/// Draw-position continuity across a commit: the continuous position of an
/// actor that has covered exactly one whole cell coincides, modulo one full
/// torus revolution, with the position after the discrete commit resets its
/// progress to zero.
pub proof fn lemma_draw_pos_commit_continuous(a: Actor, w: usize, h: usize)
    requires
        a.x < w,
        a.y < h,
        1 <= w,
        1 <= h,
    ensures
        ({
            let before = spec_draw_pos(
                Actor { progress: PROGRESS_SCALE, ..a },
            );
            let after = spec_draw_pos(
                spec_commit(a.x, a.y, a.move_direction, PROGRESS_SCALE as int, w, h).0,
            );
            &&& (after.0 - before.0) % (w * PROGRESS_SCALE) == 0
            &&& (after.1 - before.1) % (h * PROGRESS_SCALE) == 0
        }),
{
    let before = spec_draw_pos(Actor { progress: PROGRESS_SCALE, ..a });
    let after = spec_draw_pos(spec_commit(a.x, a.y, a.move_direction, PROGRESS_SCALE as int, w, h).0);
    let ws = w * PROGRESS_SCALE;
    let hs = h * PROGRESS_SCALE;
    assert(ws % ws == 0 && hs % hs == 0) by (nonlinear_arith)
        requires
            ws >= 1,
            hs >= 1,
    ;
    assert(0int % ws == 0 && 0int % hs == 0) by (nonlinear_arith)
        requires
            ws >= 1,
            hs >= 1,
    ;
    match a.move_direction {
        Direction::Up => {
            if a.y == 0 {
                assert(after.1 - before.1 == hs) by (nonlinear_arith)
                    requires
                        after.1 == (h - 1) * PROGRESS_SCALE,
                        before.1 == a.y * PROGRESS_SCALE - PROGRESS_SCALE,
                        a.y == 0,
                        hs == h * PROGRESS_SCALE,
                ;
            } else {
                assert(after.1 - before.1 == 0) by (nonlinear_arith)
                    requires
                        after.1 == (a.y - 1) * PROGRESS_SCALE,
                        before.1 == a.y * PROGRESS_SCALE - PROGRESS_SCALE,
                ;
            }
        },
        Direction::Down => {
            if a.y + 1 == h {
                assert(after.1 - before.1 == -hs) by (nonlinear_arith)
                    requires
                        after.1 == 0,
                        before.1 == a.y * PROGRESS_SCALE + PROGRESS_SCALE,
                        a.y + 1 == h,
                        hs == h * PROGRESS_SCALE,
                ;
                assert((-hs) % hs == 0) by (nonlinear_arith)
                    requires
                        hs >= 1,
                ;
            } else {
                assert(after.1 - before.1 == 0) by (nonlinear_arith)
                    requires
                        after.1 == (a.y + 1) * PROGRESS_SCALE,
                        before.1 == a.y * PROGRESS_SCALE + PROGRESS_SCALE,
                ;
            }
        },
        Direction::Left => {
            if a.x == 0 {
                assert(after.0 - before.0 == ws) by (nonlinear_arith)
                    requires
                        after.0 == (w - 1) * PROGRESS_SCALE,
                        before.0 == a.x * PROGRESS_SCALE - PROGRESS_SCALE,
                        a.x == 0,
                        ws == w * PROGRESS_SCALE,
                ;
            } else {
                assert(after.0 - before.0 == 0) by (nonlinear_arith)
                    requires
                        after.0 == (a.x - 1) * PROGRESS_SCALE,
                        before.0 == a.x * PROGRESS_SCALE - PROGRESS_SCALE,
                ;
            }
        },
        Direction::Right => {
            if a.x + 1 == w {
                assert(after.0 - before.0 == -ws) by (nonlinear_arith)
                    requires
                        after.0 == 0,
                        before.0 == a.x * PROGRESS_SCALE + PROGRESS_SCALE,
                        a.x + 1 == w,
                        ws == w * PROGRESS_SCALE,
                ;
                assert((-ws) % ws == 0) by (nonlinear_arith)
                    requires
                        ws >= 1,
                ;
            } else {
                assert(after.0 - before.0 == 0) by (nonlinear_arith)
                    requires
                        after.0 == (a.x + 1) * PROGRESS_SCALE,
                        before.0 == a.x * PROGRESS_SCALE + PROGRESS_SCALE,
                ;
            }
        },
        Direction::Still => {},
    }
}

impl Actor {
    /// In range of the grid, with progress strictly inside one cell.
    pub open spec fn valid_in(&self, w: usize, h: usize) -> bool {
        self.x < w && self.y < h && self.progress < PROGRESS_SCALE
    }

    pub fn new(x: usize, y: usize) -> (r: Self)
        ensures
            r == (Actor { x, y, progress: 0u32, move_direction: Direction::Still }),
    {
        Actor { x, y, progress: 0, move_direction: Direction::Still }
    }

    pub fn get_pos(&self) -> (r: (usize, usize))
        ensures
            r == (self.x, self.y),
    {
        (self.x, self.y)
    }

    pub fn set_pos(&mut self, x: usize, y: usize)
        ensures
            *final(self) == (Actor { x, y, ..*old(self) }),
    {
        self.x = x;
        self.y = y;
    }

    /// Continuous position in milli-cells; divide by `PROGRESS_SCALE` for
    /// cell units. Pure query, may run one cell beyond the torus seam.
    pub fn get_draw_pos(&self) -> (r: (i64, i64))
        requires
            self.x <= 0x7fff_ffff,
            self.y <= 0x7fff_ffff,
            self.progress <= PROGRESS_SCALE,
        ensures
            (r.0 as int, r.1 as int) == spec_draw_pos(*self),
    {
        let x = (self.x as i64) * (PROGRESS_SCALE as i64);
        let y = (self.y as i64) * (PROGRESS_SCALE as i64);
        let p = self.progress as i64;
        match self.move_direction {
            Direction::Up => (x, y - p),
            Direction::Down => (x, y + p),
            Direction::Left => (x - p, y),
            Direction::Right => (x + p, y),
            Direction::Still => (x, y),
        }
    }

    /// The cells this actor covers: its own cell, plus the cell ahead once
    /// `progress` exceeds `threshold`. Pickup consumption uses this so an
    /// actor visually overlapping the next cell already eats its contents.
    pub fn get_covering_tiles(&self, threshold: u32, width: usize, height: usize) -> (v: Vec<
        (usize, usize),
    >)
        requires
            self.x < width,
            self.y < height,
            1 <= width,
            1 <= height,
        ensures
            v@ == spec_footprint(*self, threshold, width, height),
    {
        let mut v: Vec<(usize, usize)> = Vec::new();
        v.push((self.x, self.y));
        if self.progress > threshold && !matches!(self.move_direction, Direction::Still) {
            let n = next_cell(self.x, self.y, self.move_direction, width, height);
            v.push(n);
        }
        proof {
            assert(v@ =~= spec_footprint(*self, threshold, width, height));
        }
        v
    }

    /// Walk one tick in the requested direction against the maze's
    /// player-passability, arbitrating same-direction, reversal and turn
    /// requests; returns whether the discrete cell changed.
    pub fn walk(&mut self, direction: Direction, maze: &Maze, time_delta_ms: u32) -> (changed:
        bool)
        requires
            maze.dims_ok(),
            old(self).valid_in(maze.width, maze.height),
            time_delta_ms <= MAX_TICK_MS,
        ensures
            ({
                let r = spec_walk(
                    *old(self),
                    direction,
                    maze.maze@,
                    maze.width,
                    maze.height,
                    (MOVEMENT_SPEED * time_delta_ms) as int,
                );
                *final(self) == r.0 && changed == r.1
            }),
            final(self).valid_in(maze.width, maze.height),
    {
        let offset: u32 = MOVEMENT_SPEED * time_delta_ms;
        if matches!(self.move_direction, Direction::Still) {
            self.move_direction = direction;
        }
        let facing = self.move_direction;
        if matches!(facing, Direction::Still) {
            // still standing and nothing requested
        } else if direction == facing {
            let n = next_cell(self.x, self.y, facing, maze.width, maze.height);
            if maze.is_player_passable(n.0, n.1) {
                self.progress = self.progress + offset;
            }
        } else if direction == reverse_dir(facing) {
            let n = next_cell(self.x, self.y, direction, maze.width, maze.height);
            if maze.is_player_passable(n.0, n.1) || self.progress >= 2 * offset {
                let c = next_cell(self.x, self.y, facing, maze.width, maze.height);
                self.x = c.0;
                self.y = c.1;
                self.progress = PROGRESS_SCALE - self.progress + 2 * offset;
                self.move_direction = direction;
            }
        } else if matches!(direction, Direction::Still) {
            // keep the current heading; nothing new requested
        } else {
            let n = next_cell(self.x, self.y, direction, maze.width, maze.height);
            if maze.is_player_passable(n.0, n.1) && self.progress <= TURN_CUT_LIMIT {
                self.progress = 0;
                self.move_direction = direction;
            } else {
                let f = next_cell(self.x, self.y, facing, maze.width, maze.height);
                if maze.is_player_passable(f.0, f.1) {
                    self.progress = self.progress + offset;
                }
            }
        }
        self.update_discrete_position(maze)
    }

    /// Walk one tick straight along `direction`, ignoring passability; the
    /// ghost decision engine picks directions, so no arbitration applies.
    pub fn walk_no_collisions(&mut self, direction: Direction, maze: &Maze, time_delta_ms: u32) -> (
        changed: bool)
        requires
            maze.dims_ok(),
            old(self).valid_in(maze.width, maze.height),
            time_delta_ms <= MAX_TICK_MS,
        ensures
            ({
                let r = spec_free_walk(
                    *old(self),
                    direction,
                    maze.width,
                    maze.height,
                    (MOVEMENT_SPEED * time_delta_ms) as int,
                );
                *final(self) == r.0 && changed == r.1
            }),
            final(self).valid_in(maze.width, maze.height),
    {
        self.move_direction = direction;
        self.progress = self.progress + MOVEMENT_SPEED * time_delta_ms;
        self.update_discrete_position(maze)
    }

    /// Commit a whole cell of accumulated progress, wrapping toroidally;
    /// reports whether the discrete cell changed.
    fn update_discrete_position(&mut self, maze: &Maze) -> (changed: bool)
        requires
            maze.dims_ok(),
            old(self).x < maze.width,
            old(self).y < maze.height,
        ensures
            ({
                let r = spec_commit(
                    old(self).x,
                    old(self).y,
                    old(self).move_direction,
                    old(self).progress as int,
                    maze.width,
                    maze.height,
                );
                *final(self) == r.0 && changed == r.1
            }),
            final(self).x < maze.width,
            final(self).y < maze.height,
            final(self).progress < PROGRESS_SCALE,
    {
        if self.progress < PROGRESS_SCALE {
            return false;
        }
        self.progress = 0;
        let c = next_cell(self.x, self.y, self.move_direction, maze.width, maze.height);
        self.x = c.0;
        self.y = c.1;
        true
    }
}

} // verus!
