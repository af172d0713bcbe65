//! The toroidal maze grid: tile kinds, passability rules and pickup
//! consumption. Coordinates handed to a lookup are wrapped modulo the grid
//! size, so no lookup is ever out of range.

use crate::actor::spec_footprint;
use crate::actor::Actor;
use vstd::prelude::*;
use vstd::string::StringExecFns;

verus! {

/// Progress threshold (in milli-cells) past which an actor's footprint
/// already includes the cell it is entering.
pub const FOOTPRINT_THRESHOLD: u32 = 450;

/// One cell of the maze.
#[derive(Clone, Copy, PartialEq, Eq, Structural, Debug)]
pub enum Tile {
    Wall,
    Path,
    PlayerImpassable,
    Respawn,
    Dot,
    PowerPellet,
}

/// Tiles the player may stand on.
pub open spec fn spec_player_passable(tile: Tile) -> bool {
    tile == Tile::Path || tile == Tile::Dot || tile == Tile::PowerPellet
}

/// Tiles a ghost may stand on: everything the player may use, plus the
/// player-impassable pen tiles and the respawn cell.
pub open spec fn spec_ghost_passable(tile: Tile) -> bool {
    ||| tile == Tile::Path
    ||| tile == Tile::PlayerImpassable
    ||| tile == Tile::Dot
    ||| tile == Tile::PowerPellet
    ||| tile == Tile::Respawn
}

pub fn player_passable(tile: &Tile) -> (r: bool)
    ensures
        r == spec_player_passable(*tile),
{
    matches!(tile, Tile::Path | Tile::Dot | Tile::PowerPellet)
}

pub fn ghost_passable(tile: &Tile) -> (r: bool)
    ensures
        r == spec_ghost_passable(*tile),
{
    matches!(
        tile,
        Tile::Path | Tile::PlayerImpassable | Tile::Dot | Tile::PowerPellet | Tile::Respawn
    )
}

/// Row-major index of the cell that `(x, y)` wraps to on a `w` by `h` torus.
pub open spec fn spec_wrap_index(w: int, h: int, x: int, y: int) -> int {
    (y % h) * w + (x % w)
}

/// How many entries of `tiles` hold `kind`.
pub open spec fn spec_count_tiles(tiles: Seq<Tile>, kind: Tile) -> int
    decreases tiles.len(),
{
    if tiles.len() == 0 {
        0
    } else {
        spec_count_tiles(tiles.drop_last(), kind) + if tiles.last() == kind {
            1int
        } else {
            0int
        }
    }
}

proof fn lemma_count_tiles_bounds(tiles: Seq<Tile>, kind: Tile)
    ensures
        0 <= spec_count_tiles(tiles, kind) <= tiles.len(),
    decreases tiles.len(),
{
    if tiles.len() > 0 {
        lemma_count_tiles_bounds(tiles.drop_last(), kind);
    }
}

proof fn lemma_count_tiles_update(tiles: Seq<Tile>, i: int, v: Tile, kind: Tile)
    requires
        0 <= i < tiles.len(),
    ensures
        spec_count_tiles(tiles.update(i, v), kind) == spec_count_tiles(tiles, kind) - (
        if tiles[i] == kind {
            1int
        } else {
            0int
        }) + (
        if v == kind {
            1int
        } else {
            0int
        }),
    decreases tiles.len(),
{
    let updated = tiles.update(i, v);
    if i == tiles.len() - 1 {
        assert(updated.drop_last() =~= tiles.drop_last());
    } else {
        assert(updated.drop_last() =~= tiles.drop_last().update(i, v));
        lemma_count_tiles_update(tiles.drop_last(), i, v, kind);
    }
}

/// Consume every `kind` tile under the given cells, left to right: each such
/// tile turns to `Path` and adds one to the count, so a cell that no longer
/// (or never did) hold `kind` contributes nothing.
pub open spec fn spec_eat(
    tiles: Seq<Tile>,
    w: int,
    h: int,
    cells: Seq<(usize, usize)>,
    kind: Tile,
) -> (Seq<Tile>, int)
    decreases cells.len(),
{
    if cells.len() == 0 {
        (tiles, 0int)
    } else {
        let c = cells[0];
        let i = spec_wrap_index(w, h, c.0 as int, c.1 as int);
        if tiles[i] == kind {
            let rest = spec_eat(tiles.update(i, Tile::Path), w, h, cells.drop_first(), kind);
            (rest.0, rest.1 + 1)
        } else {
            spec_eat(tiles, w, h, cells.drop_first(), kind)
        }
    }
}

proof fn lemma_wrap_index_in_range(w: int, h: int, x: int, y: int)
    requires
        w >= 1,
        h >= 1,
    ensures
        0 <= spec_wrap_index(w, h, x, y) < w * h,
{
    let xm = x % w;
    let ym = y % h;
    assert(0 <= xm < w && 0 <= ym < h);
    assert(0 <= ym * w + xm < w * h) by (nonlinear_arith)
        requires
            0 <= xm < w,
            0 <= ym < h,
            w >= 1,
            h >= 1,
    ;
}

/// Consumption removes exactly as many `kind` tiles as it counts, touches no
/// other kind's tally, and keeps the grid's size.
proof fn lemma_eat_effect(tiles: Seq<Tile>, w: int, h: int, cells: Seq<(usize, usize)>, kind: Tile)
    requires
        w >= 1,
        h >= 1,
        tiles.len() == w * h,
        kind != Tile::Path,
    ensures
        ({
            let r = spec_eat(tiles, w, h, cells, kind);
            &&& r.0.len() == tiles.len()
            &&& 0 <= r.1 <= spec_count_tiles(tiles, kind)
            &&& spec_count_tiles(r.0, kind) == spec_count_tiles(tiles, kind) - r.1
            &&& forall|k2: Tile|
                k2 != kind && k2 != Tile::Path ==> spec_count_tiles(r.0, k2) == spec_count_tiles(
                    tiles,
                    k2,
                )
        }),
    decreases cells.len(),
{
    lemma_count_tiles_bounds(tiles, kind);
    if cells.len() > 0 {
        let c = cells[0];
        let i = spec_wrap_index(w, h, c.0 as int, c.1 as int);
        lemma_wrap_index_in_range(w, h, c.0 as int, c.1 as int);
        if tiles[i] == kind {
            let updated = tiles.update(i, Tile::Path);
            assert forall|k2: Tile| k2 != Tile::Path implies spec_count_tiles(updated, k2)
                == spec_count_tiles(tiles, k2) - (if k2 == kind {
                1int
            } else {
                0int
            }) by {
                lemma_count_tiles_update(tiles, i, Tile::Path, k2);
            }
            lemma_eat_effect(updated, w, h, cells.drop_first(), kind);
            let rest = spec_eat(updated, w, h, cells.drop_first(), kind);
            let r = spec_eat(tiles, w, h, cells, kind);
            assert(r == (rest.0, rest.1 + 1));
            assert forall|k2: Tile|
                k2 != kind && k2 != Tile::Path implies spec_count_tiles(r.0, k2)
                == spec_count_tiles(tiles, k2) by {
                assert(spec_count_tiles(rest.0, k2) == spec_count_tiles(updated, k2));
                assert(spec_count_tiles(updated, k2) == spec_count_tiles(tiles, k2));
            }
        } else {
            lemma_eat_effect(tiles, w, h, cells.drop_first(), kind);
        }
    }
}

/// When none of the cells holds `kind`, consumption changes nothing and
/// counts nothing.
pub proof fn lemma_eat_no_matches(
    tiles: Seq<Tile>,
    w: int,
    h: int,
    cells: Seq<(usize, usize)>,
    kind: Tile,
)
    requires
        w >= 1,
        h >= 1,
        tiles.len() == w * h,
        forall|j: int|
            0 <= j < cells.len() ==> tiles[spec_wrap_index(
                w,
                h,
                cells[j].0 as int,
                cells[j].1 as int,
            )] != kind,
    ensures
        spec_eat(tiles, w, h, cells, kind) == (tiles, 0int),
    decreases cells.len(),
{
    if cells.len() > 0 {
        assert(forall|j: int|
            0 <= j < cells.drop_first().len() ==> cells.drop_first()[j] == cells[j + 1]);
        lemma_eat_no_matches(tiles, w, h, cells.drop_first(), kind);
    }
}

/// Consumption never writes `kind`: a position already free of it stays so.
proof fn lemma_eat_preserves_non_kind(
    tiles: Seq<Tile>,
    w: int,
    h: int,
    cells: Seq<(usize, usize)>,
    kind: Tile,
    i: int,
)
    requires
        w >= 1,
        h >= 1,
        tiles.len() == w * h,
        kind != Tile::Path,
        0 <= i < tiles.len(),
        tiles[i] != kind,
    ensures
        spec_eat(tiles, w, h, cells, kind).0[i] != kind,
    decreases cells.len(),
{
    if cells.len() > 0 {
        let c = cells[0];
        let j = spec_wrap_index(w, h, c.0 as int, c.1 as int);
        lemma_wrap_index_in_range(w, h, c.0 as int, c.1 as int);
        if tiles[j] == kind {
            lemma_eat_preserves_non_kind(
                tiles.update(j, Tile::Path),
                w,
                h,
                cells.drop_first(),
                kind,
                i,
            );
        } else {
            lemma_eat_preserves_non_kind(tiles, w, h, cells.drop_first(), kind, i);
        }
    }
}

/// After consumption, every consumed-over cell is free of `kind`.
proof fn lemma_eat_clears(
    tiles: Seq<Tile>,
    w: int,
    h: int,
    cells: Seq<(usize, usize)>,
    kind: Tile,
    j: int,
)
    requires
        w >= 1,
        h >= 1,
        tiles.len() == w * h,
        kind != Tile::Path,
        0 <= j < cells.len(),
    ensures
        spec_eat(tiles, w, h, cells, kind).0[spec_wrap_index(
            w,
            h,
            cells[j].0 as int,
            cells[j].1 as int,
        )] != kind,
    decreases cells.len(),
{
    let c = cells[0];
    let i0 = spec_wrap_index(w, h, c.0 as int, c.1 as int);
    lemma_wrap_index_in_range(w, h, c.0 as int, c.1 as int);
    let after0 = if tiles[i0] == kind {
        tiles.update(i0, Tile::Path)
    } else {
        tiles
    };
    if j == 0 {
        lemma_eat_preserves_non_kind(after0, w, h, cells.drop_first(), kind, i0);
    } else {
        lemma_eat_clears(after0, w, h, cells.drop_first(), kind, j - 1);
    }
}

/// Pickup idempotence: running the same consumption again over the cells a
/// first pass already swept finds nothing, counts zero and leaves the grid
/// unchanged.
pub proof fn lemma_eat_idempotent(
    tiles: Seq<Tile>,
    w: int,
    h: int,
    cells: Seq<(usize, usize)>,
    kind: Tile,
)
    requires
        w >= 1,
        h >= 1,
        tiles.len() == w * h,
        kind != Tile::Path,
    ensures
        ({
            let r = spec_eat(tiles, w, h, cells, kind);
            spec_eat(r.0, w, h, cells, kind) == (r.0, 0int)
        }),
{
    let r = spec_eat(tiles, w, h, cells, kind);
    lemma_eat_effect(tiles, w, h, cells, kind);
    assert forall|j: int| 0 <= j < cells.len() implies r.0[spec_wrap_index(
        w,
        h,
        cells[j].0 as int,
        cells[j].1 as int,
    )] != kind by {
        lemma_eat_clears(tiles, w, h, cells, kind, j);
    }
    lemma_eat_no_matches(r.0, w, h, cells, kind);
}

/// The maze grid. `maze` holds the tiles in row-major order; `n_dots` caches
/// how many `Dot` tiles remain.
#[derive(Debug)]
pub struct Maze {
    pub width: usize,
    pub height: usize,
    pub maze: Vec<Tile>,
    pub respawn_point: (usize, usize),
    pub n_dots: usize,
}

impl Maze {
    /// Positive dimensions that fit comfortably in the distance arithmetic,
    /// with a tile vector of exactly `width * height` entries.
    pub open spec fn dims_ok(&self) -> bool {
        &&& 1 <= self.width <= 0x7fff_ffff
        &&& 1 <= self.height <= 0x7fff_ffff
        &&& self.width * self.height <= usize::MAX
        &&& self.maze@.len() == self.width * self.height
    }

    /// Well-formedness: sound dimensions and an accurate dot count.
    pub open spec fn wf(&self) -> bool {
        &&& self.dims_ok()
        &&& self.n_dots == spec_count_tiles(self.maze@, Tile::Dot)
    }

    /// The tile that `(x, y)` wraps to.
    pub open spec fn spec_tile(&self, x: int, y: int) -> Tile
        recommends
            self.wf(),
    {
        self.maze@[spec_wrap_index(self.width as int, self.height as int, x, y)]
    }

    pub fn new(width: usize, height: usize, maze: Vec<Tile>, respawn_point: (usize, usize)) -> (r:
        Maze)
        requires
            1 <= width <= 0x7fff_ffff,
            1 <= height <= 0x7fff_ffff,
            maze@.len() == width * height,
        ensures
            r.wf(),
            r.width == width,
            r.height == height,
            r.maze@ == maze@,
            r.respawn_point == respawn_point,
            r.n_dots == spec_count_tiles(maze@, Tile::Dot),
    {
        let len = maze.len();
        proof {
            assert(width * height == len);
        }
        let n_dots = count_tiles(&maze, Tile::Dot);
        Maze { width, height, maze, respawn_point, n_dots }
    }

    /// A degenerate zero-sized maze, handy as a stand-in where no grid
    /// lookups will be made. It is not well-formed.
    pub fn empty() -> (r: Maze)
        ensures
            r.width == 0,
            r.height == 0,
            r.maze@.len() == 0,
            r.respawn_point == (0usize, 0usize),
            r.n_dots == 0,
    {
        Maze { width: 0, height: 0, maze: Vec::new(), respawn_point: (0, 0), n_dots: 0 }
    }

    /// An iterator over the tiles in row-major order.
    pub fn iter(&self) -> (it: MazeIterator<'_>)
        ensures
            it.maze == self,
            it.current == 0,
    {
        MazeIterator { maze: self, current: 0 }
    }

    /// Row-major index of the wrapped coordinates, always in range.
    fn index(&self, x: usize, y: usize) -> (i: usize)
        requires
            self.dims_ok(),
        ensures
            i == spec_wrap_index(self.width as int, self.height as int, x as int, y as int),
            i < self.maze@.len(),
    {
        let xm = x % self.width;
        let ym = y % self.height;
        proof {
            assert(ym * self.width <= self.width * self.height && ym * self.width + xm
                < self.width * self.height) by (nonlinear_arith)
                requires
                    xm < self.width,
                    ym < self.height,
                    self.width >= 1,
                    self.height >= 1,
            ;
        }
        ym * self.width + xm
    }

    pub fn is_player_passable(&self, x: usize, y: usize) -> (r: bool)
        requires
            self.dims_ok(),
        ensures
            r == spec_player_passable(self.spec_tile(x as int, y as int)),
    {
        let i = self.index(x, y);
        player_passable(&self.maze[i])
    }

    pub fn is_ghost_passable(&self, x: usize, y: usize) -> (r: bool)
        requires
            self.dims_ok(),
        ensures
            r == spec_ghost_passable(self.spec_tile(x as int, y as int)),
    {
        let i = self.index(x, y);
        ghost_passable(&self.maze[i])
    }

    /// Consume the dots under the player's footprint, turning each to
    /// `Path`, and return how many were eaten; the cached dot count drops by
    /// the same amount.
    pub fn eat_dots(&mut self, munch: &Actor) -> (eaten: usize)
        requires
            old(self).wf(),
            munch.x < old(self).width,
            munch.y < old(self).height,
        ensures
            final(self).wf(),
            final(self).width == old(self).width,
            final(self).height == old(self).height,
            final(self).respawn_point == old(self).respawn_point,
            ({
                let fp = spec_footprint(*munch, FOOTPRINT_THRESHOLD, old(self).width, old(self).height);
                let r = spec_eat(
                    old(self).maze@,
                    old(self).width as int,
                    old(self).height as int,
                    fp,
                    Tile::Dot,
                );
                &&& final(self).maze@ == r.0
                &&& eaten == r.1
                &&& eaten <= 2
                &&& final(self).n_dots == old(self).n_dots - r.1
            }),
    {
        let eaten = self.eat_kind(munch, Tile::Dot);
        proof {
            lemma_eat_effect(
                old(self).maze@,
                self.width as int,
                self.height as int,
                spec_footprint(*munch, FOOTPRINT_THRESHOLD, self.width, self.height),
                Tile::Dot,
            );
        }
        self.n_dots = self.n_dots - eaten;
        eaten
    }

    /// Consume the power pellets under the player's footprint, turning each
    /// to `Path`, and return how many were eaten.
    pub fn eat_power_pellets(&mut self, munch: &Actor) -> (eaten: usize)
        requires
            old(self).wf(),
            munch.x < old(self).width,
            munch.y < old(self).height,
        ensures
            final(self).wf(),
            final(self).width == old(self).width,
            final(self).height == old(self).height,
            final(self).respawn_point == old(self).respawn_point,
            final(self).n_dots == old(self).n_dots,
            ({
                let fp = spec_footprint(*munch, FOOTPRINT_THRESHOLD, old(self).width, old(self).height);
                let r = spec_eat(
                    old(self).maze@,
                    old(self).width as int,
                    old(self).height as int,
                    fp,
                    Tile::PowerPellet,
                );
                &&& final(self).maze@ == r.0
                &&& eaten == r.1
                &&& eaten <= 2
            }),
    {
        let eaten = self.eat_kind(munch, Tile::PowerPellet);
        proof {
            lemma_eat_effect(
                old(self).maze@,
                self.width as int,
                self.height as int,
                spec_footprint(*munch, FOOTPRINT_THRESHOLD, self.width, self.height),
                Tile::PowerPellet,
            );
        }
        eaten
    }

    /// Shared sweep: turn every `kind` tile under the footprint to `Path`.
    fn eat_kind(&mut self, munch: &Actor, kind: Tile) -> (eaten: usize)
        requires
            old(self).wf(),
            munch.x < old(self).width,
            munch.y < old(self).height,
            kind == Tile::Dot || kind == Tile::PowerPellet,
        ensures
            final(self).width == old(self).width,
            final(self).height == old(self).height,
            final(self).respawn_point == old(self).respawn_point,
            final(self).n_dots == old(self).n_dots,
            ({
                let fp = spec_footprint(*munch, FOOTPRINT_THRESHOLD, old(self).width, old(self).height);
                let r = spec_eat(
                    old(self).maze@,
                    old(self).width as int,
                    old(self).height as int,
                    fp,
                    kind,
                );
                &&& final(self).maze@ == r.0
                &&& eaten == r.1
                &&& eaten <= 2
            }),
    {
        let covering_tiles = munch.get_covering_tiles(FOOTPRINT_THRESHOLD, self.width, self.height);
        let ghost orig = self.maze@;
        let ghost fp = covering_tiles@;
        let ghost w = self.width as int;
        let ghost h = self.height as int;
        let mut eaten: usize = 0;
        let mut k: usize = 0;
        proof {
            assert(fp.skip(0) =~= fp);
        }
        while k < covering_tiles.len()
            invariant
                k <= fp.len(),
                eaten <= k,
                covering_tiles@ == fp,
                self.width == old(self).width,
                self.height == old(self).height,
                self.respawn_point == old(self).respawn_point,
                self.n_dots == old(self).n_dots,
                self.maze@.len() == orig.len(),
                self.dims_ok(),
                old(self).wf(),
                orig == old(self).maze@,
                w == self.width as int,
                h == self.height as int,
                spec_eat(orig, w, h, fp, kind).0 == spec_eat(self.maze@, w, h, fp.skip(k as int), kind).0,
                spec_eat(orig, w, h, fp, kind).1 == eaten + spec_eat(
                    self.maze@,
                    w,
                    h,
                    fp.skip(k as int),
                    kind,
                ).1,
            decreases fp.len() - k,
        {
            let (x, y) = covering_tiles[k];
            let i = self.index(x, y);
            proof {
                assert(fp.skip(k as int)[0] == fp[k as int]);
                assert(fp.skip(k as int).drop_first() =~= fp.skip(k + 1));
            }
            if self.maze[i] == kind {
                self.maze[i] = Tile::Path;
                eaten = eaten + 1;
            }
            k = k + 1;
        }
        proof {
            assert(fp.skip(fp.len() as int) =~= Seq::<(usize, usize)>::empty());
        }
        eaten
    }

    /// The tile at unwrapped coordinates, or `None` when out of range.
    pub fn get_tile(&self, x: usize, y: usize) -> (r: Option<Tile>)
        requires
            self.dims_ok(),
        ensures
            r == if x < self.width && y < self.height {
                Some(self.spec_tile(x as int, y as int))
            } else {
                None::<Tile>
            },
    {
        if x < self.width && y < self.height {
            proof {
                vstd::arithmetic::div_mod::lemma_small_mod(x as nat, self.width as nat);
                vstd::arithmetic::div_mod::lemma_small_mod(y as nat, self.height as nat);
                assert(y * self.width <= self.width * self.height && y * self.width + x
                    < self.width * self.height) by (nonlinear_arith)
                    requires
                        x < self.width,
                        y < self.height,
                        self.width >= 1,
                        self.height >= 1,
                ;
            }
            Some(self.maze[y * self.width + x])
        } else {
            None
        }
    }
}

/// The character a tile renders as in the textual maze layout.
pub open spec fn spec_tile_char(t: Tile) -> char {
    match t {
        Tile::Wall => '#',
        Tile::Path => ' ',
        Tile::PlayerImpassable => '=',
        Tile::Dot => '.',
        Tile::PowerPellet => '*',
        Tile::Respawn => 'R',
    }
}

/// Row `y` of the rendered maze, terminated by a newline.
pub open spec fn spec_render_row(tiles: Seq<Tile>, w: int, y: int) -> Seq<char> {
    Seq::new(
        (w + 1) as nat,
        |i: int|
            if i < w {
                spec_tile_char(tiles[y * w + i])
            } else {
                '\n'
            },
    )
}

/// The first `rows` rows of the rendered maze.
pub open spec fn spec_render(tiles: Seq<Tile>, w: int, rows: int) -> Seq<char>
    decreases rows,
{
    if rows <= 0 {
        Seq::empty()
    } else {
        spec_render(tiles, w, rows - 1) + spec_render_row(tiles, w, rows - 1)
    }
}

impl Maze {
    /// Render the maze in its textual layout form, one newline-terminated
    /// line per row.
    pub fn to_string(&self) -> (s: String)
        requires
            self.dims_ok(),
        ensures
            s@ == spec_render(self.maze@, self.width as int, self.height as int),
    {
        let ghost w = self.width as int;
        let mut s = String::new();
        let mut y: usize = 0;
        while y < self.height
            invariant
                self.dims_ok(),
                y <= self.height,
                w == self.width as int,
                s@ == spec_render(self.maze@, w, y as int),
            decreases self.height - y,
        {
            let mut x: usize = 0;
            while x < self.width
                invariant
                    self.dims_ok(),
                    y < self.height,
                    x <= self.width,
                    w == self.width as int,
                    s@ == spec_render(self.maze@, w, y as int) + Seq::new(
                        x as nat,
                        |i: int| spec_tile_char(self.maze@[y * w + i]),
                    ),
                decreases self.width - x,
            {
                proof {
                    assert(y * w <= (self.height - 1) * w && y * w + x < w * self.height)
                        by (nonlinear_arith)
                        requires
                            x < self.width,
                            y < self.height,
                            self.width >= 1,
                            self.height >= 1,
                            w == self.width as int,
                    ;
                }
                let i = y * self.width + x;
                let ghost before = s@;
                match self.maze[i] {
                    Tile::Wall => s.append("#"),
                    Tile::Path => s.append(" "),
                    Tile::PlayerImpassable => s.append("="),
                    Tile::Dot => s.append("."),
                    Tile::PowerPellet => s.append("*"),
                    Tile::Respawn => s.append("R"),
                }
                proof {
                    reveal_strlit("#");
                    reveal_strlit(" ");
                    reveal_strlit("=");
                    reveal_strlit(".");
                    reveal_strlit("*");
                    reveal_strlit("R");
                    assert(s@ =~= before + seq![spec_tile_char(self.maze@[y * w + x])]);
                    assert(s@ =~= spec_render(self.maze@, w, y as int) + Seq::new(
                        (x + 1) as nat,
                        |i: int| spec_tile_char(self.maze@[y * w + i]),
                    ));
                }
                x = x + 1;
            }
            let ghost before = s@;
            s.append("\n");
            proof {
                reveal_strlit("\n");
                assert(s@ =~= before + seq!['\n']);
                assert(s@ =~= spec_render(self.maze@, w, y as int) + spec_render_row(
                    self.maze@,
                    w,
                    y as int,
                ));
                assert(s@ =~= spec_render(self.maze@, w, y + 1));
            }
            y = y + 1;
        }
        s
    }
}

/// Walks the maze's tiles in row-major order.
pub struct MazeIterator<'a> {
    pub maze: &'a Maze,
    pub current: usize,
}

impl<'a> MazeIterator<'a> {
    /// The next tile in row-major order, or `None` once past the end.
    pub fn next(&mut self) -> (r: Option<Tile>)
        ensures
            final(self).maze == old(self).maze,
            if old(self).current < old(self).maze.maze@.len() {
                &&& r == Some(old(self).maze.maze@[old(self).current as int])
                &&& final(self).current == old(self).current + 1
            } else {
                &&& r == None::<Tile>
                &&& final(self).current == old(self).current
            },
    {
        if self.current < self.maze.maze.len() {
            let t = self.maze.maze[self.current];
            self.current = self.current + 1;
            Some(t)
        } else {
            None
        }
    }
}

/// Passability of the wrapped cell `(x, y)` on the raw tile sequence; the
/// form the movement and targeting specifications are phrased over.
pub open spec fn spec_player_passable_at(tiles: Seq<Tile>, w: int, h: int, x: int, y: int) -> bool {
    spec_player_passable(tiles[spec_wrap_index(w, h, x, y)])
}

pub open spec fn spec_ghost_passable_at(tiles: Seq<Tile>, w: int, h: int, x: int, y: int) -> bool {
    spec_ghost_passable(tiles[spec_wrap_index(w, h, x, y)])
}

/// Toroidal wrap is invisible to passability: shifting a coordinate by any
/// multiple of the grid size reaches the same tile.
pub proof fn lemma_passable_wrap_invariant(m: Maze, x: int, y: int, kx: int, ky: int)
    requires
        m.wf(),
    ensures
        m.spec_tile(x + kx * m.width, y + ky * m.height) == m.spec_tile(x, y),
{
    let w = m.width as int;
    let h = m.height as int;
    vstd::arithmetic::div_mod::lemma_mod_multiples_vanish(kx, x, w);
    vstd::arithmetic::div_mod::lemma_mod_multiples_vanish(ky, y, h);
    assert(x + kx * w == w * kx + x) by (nonlinear_arith);
    assert(y + ky * h == h * ky + y) by (nonlinear_arith);
    assert((x + kx * w) % w == x % w);
    assert((y + ky * h) % h == y % h);
}

fn count_tiles(tiles: &Vec<Tile>, kind: Tile) -> (n: usize)
    ensures
        n == spec_count_tiles(tiles@, kind),
{
    let mut n: usize = 0;
    let mut i: usize = 0;
    while i < tiles.len()
        invariant
            i <= tiles@.len(),
            n == spec_count_tiles(tiles@.take(i as int), kind),
            n <= i,
        decreases tiles@.len() - i,
    {
        proof {
            assert(tiles@.take(i + 1).drop_last() =~= tiles@.take(i as int));
            assert(tiles@.take(i + 1).last() == tiles@[i as int]);
        }
        if tiles[i] == kind {
            n = n + 1;
        }
        i = i + 1;
    }
    proof {
        assert(tiles@.take(tiles@.len() as int) =~= tiles@);
    }
    n
}

} // verus!
