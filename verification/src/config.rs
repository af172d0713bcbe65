//! Parsing a textual maze layout into a [`Maze`] plus the initial actor
//! placements.
//!
//! The layout is a rectangular block of characters, one tile per character,
//! with `M` marking the player start and `B`, `P`, `I`, `C` marking a ghost
//! start of each personality. Parsing fails with a [`LayoutError`] when rows
//! have unequal width, a character is unrecognised, a second respawn tile or
//! player start appears, or no respawn tile is present.

use crate::ghost::Personality;
use crate::maze::Maze;
use crate::maze::Tile;
use vstd::prelude::*;
use vstd::string::StrSliceExecFns;
use vstd::string::StringExecFns;

verus! {

/// Why a textual layout was rejected.
#[derive(Debug, Clone, Copy, PartialEq, Eq, Structural)]
pub enum LayoutError {
    /// Row `line` (1-based) is `found` characters wide where the first row
    /// is `expected` characters wide.
    InconsistentLineLength { line: usize, expected: usize, found: usize },
    /// The character `c` at `(x, y)` names no tile.
    UnknownTile { x: usize, y: usize, c: char },
    /// A second respawn tile appeared at `(x, y)`.
    SecondRespawn { x: usize, y: usize },
    /// A second player start appeared.
    MultiplePlayers,
    /// The layout holds no respawn tile.
    NoRespawn,
}

/// The tile a layout character stands for, if any. The actor start markers
/// stand on a tile of their own: the player on `Path`, each ghost on the
/// player-impassable pen.
pub open spec fn spec_tile_of_char(c: char) -> Option<Tile> {
    if c == '#' {
        Some(Tile::Wall)
    } else if c == ' ' || c == 'M' {
        Some(Tile::Path)
    } else if c == '=' || c == 'B' || c == 'P' || c == 'I' || c == 'C' {
        Some(Tile::PlayerImpassable)
    } else if c == 'R' {
        Some(Tile::Respawn)
    } else if c == '.' {
        Some(Tile::Dot)
    } else if c == '*' {
        Some(Tile::PowerPellet)
    } else {
        None
    }
}

fn match_maze_char(c: char) -> (r: Option<Tile>)
    ensures
        r == spec_tile_of_char(c),
{
    if c == '#' {
        Some(Tile::Wall)
    } else if c == ' ' || c == 'M' {
        Some(Tile::Path)
    } else if c == '=' || c == 'B' || c == 'P' || c == 'I' || c == 'C' {
        Some(Tile::PlayerImpassable)
    } else if c == 'R' {
        Some(Tile::Respawn)
    } else if c == '.' {
        Some(Tile::Dot)
    } else if c == '*' {
        Some(Tile::PowerPellet)
    } else {
        None
    }
}

/// The ghost personality a layout character spawns, if any.
pub open spec fn spec_ghost_of_char(c: char) -> Option<Personality> {
    if c == 'B' {
        Some(Personality::Blinky)
    } else if c == 'I' {
        Some(Personality::Inky)
    } else if c == 'P' {
        Some(Personality::Pinky)
    } else if c == 'C' {
        Some(Personality::Clyde)
    } else {
        None
    }
}

pub open spec fn spec_is_space(c: char) -> bool {
    c == ' ' || c == '\n' || c == '\t' || c == '\r'
}

fn is_space(c: char) -> (r: bool)
    ensures
        r == spec_is_space(c),
{
    c == ' ' || c == '\n' || c == '\t' || c == '\r'
}

/// How many whitespace characters the sequence starts with.
pub open spec fn spec_leading_spaces(s: Seq<char>) -> int
    decreases s.len(),
{
    if s.len() == 0 || !spec_is_space(s[0]) {
        0
    } else {
        1 + spec_leading_spaces(s.drop_first())
    }
}

/// How many whitespace characters the sequence ends with.
pub open spec fn spec_trailing_spaces(s: Seq<char>) -> int
    decreases s.len(),
{
    if s.len() == 0 || !spec_is_space(s.last()) {
        0
    } else {
        1 + spec_trailing_spaces(s.drop_last())
    }
}

/// The sequence with surrounding whitespace removed.
pub open spec fn spec_trim(s: Seq<char>) -> Seq<char> {
    let a = spec_leading_spaces(s);
    if a == s.len() {
        Seq::empty()
    } else {
        s.subrange(a, s.len() - spec_trailing_spaces(s))
    }
}

/// A prefix of spaces followed by a non-space (or the end) pins down the
/// leading-space count.
proof fn lemma_leading_spaces_is(s: Seq<char>, k: int)
    requires
        0 <= k <= s.len(),
        forall|i: int| 0 <= i < k ==> spec_is_space(s[i]),
        k == s.len() || !spec_is_space(s[k]),
    ensures
        spec_leading_spaces(s) == k,
    decreases s.len(),
{
    if k > 0 {
        let t = s.drop_first();
        assert(forall|i: int| 0 <= i < k - 1 ==> t[i] == s[i + 1]);
        lemma_leading_spaces_is(t, k - 1);
    }
}

/// A suffix of spaces preceded by a non-space (or the start) pins down the
/// trailing-space count.
proof fn lemma_trailing_spaces_is(s: Seq<char>, k: int)
    requires
        0 <= k <= s.len(),
        forall|i: int| s.len() - k <= i < s.len() ==> spec_is_space(s[i]),
        k == s.len() || !spec_is_space(s[s.len() - k - 1]),
    ensures
        spec_trailing_spaces(s) == k,
    decreases s.len(),
{
    if k > 0 {
        let t = s.drop_last();
        lemma_trailing_spaces_is(t, k - 1);
    }
}

/// Split on newlines: always at least one line, with a trailing newline
/// contributing one empty final line.
pub open spec fn spec_split_lines(s: Seq<char>) -> Seq<Seq<char>>
    decreases s.len(),
{
    if s.len() == 0 {
        seq![Seq::empty()]
    } else {
        let rest = spec_split_lines(s.drop_last());
        let c = s.last();
        if c == '\n' {
            rest.push(Seq::empty())
        } else {
            rest.update(rest.len() - 1, rest.last().push(c))
        }
    }
}

/// Splitting yields at least one line; every line is at most as long as the
/// input, and there are at most `len + 1` lines.
proof fn lemma_split_lines_bounds(s: Seq<char>)
    ensures
        1 <= spec_split_lines(s).len() <= s.len() + 1,
        forall|j: int|
            0 <= j < spec_split_lines(s).len() ==> #[trigger] spec_split_lines(s)[j].len()
                <= s.len(),
    decreases s.len(),
{
    if s.len() > 0 {
        lemma_split_lines_bounds(s.drop_last());
    }
}

/// The state a layout scan accumulates: the tiles pushed so far in row-major
/// order, the respawn cell, the player start and the ghost starts seen.
pub struct ParseState {
    pub tiles: Seq<Tile>,
    pub respawn: Option<(usize, usize)>,
    pub player: Option<(usize, usize)>,
    pub ghosts: Seq<(usize, usize, Personality)>,
}

/// Scan a single layout cell.
pub open spec fn spec_parse_cell(st: ParseState, c: char, x: int, y: int) -> Result<
    ParseState,
    LayoutError,
> {
    match spec_tile_of_char(c) {
        None => Err(LayoutError::UnknownTile { x: x as usize, y: y as usize, c }),
        Some(tile) => {
            if c == 'R' && st.respawn is Some {
                Err(LayoutError::SecondRespawn { x: x as usize, y: y as usize })
            } else if c == 'M' && st.player is Some {
                Err(LayoutError::MultiplePlayers)
            } else {
                Ok(
                    ParseState {
                        tiles: st.tiles.push(tile),
                        respawn: if c == 'R' {
                            Some((x as usize, y as usize))
                        } else {
                            st.respawn
                        },
                        player: if c == 'M' {
                            Some((x as usize, y as usize))
                        } else {
                            st.player
                        },
                        ghosts: match spec_ghost_of_char(c) {
                            Some(p) => st.ghosts.push((x as usize, y as usize, p)),
                            None => st.ghosts,
                        },
                    },
                )
            }
        },
    }
}

/// Scan row `y` from column `x` on.
pub open spec fn spec_parse_row(st: ParseState, line: Seq<char>, x: int, y: int) -> Result<
    ParseState,
    LayoutError,
>
    decreases line.len() - x,
{
    if x < 0 || x >= line.len() {
        Ok(st)
    } else {
        match spec_parse_cell(st, line[x], x, y) {
            Err(e) => Err(e),
            Ok(st2) => spec_parse_row(st2, line, x + 1, y),
        }
    }
}

/// Scan the rows from `y` on, rejecting any row not `width` wide.
pub open spec fn spec_parse_rows(
    st: ParseState,
    lines: Seq<Seq<char>>,
    width: int,
    y: int,
) -> Result<ParseState, LayoutError>
    decreases lines.len() - y,
{
    if y < 0 || y >= lines.len() {
        Ok(st)
    } else {
        let line = lines[y];
        if line.len() != width {
            Err(
                LayoutError::InconsistentLineLength {
                    line: (y + 1) as usize,
                    expected: width as usize,
                    found: line.len() as usize,
                },
            )
        } else {
            match spec_parse_row(st, line, 0, y) {
                Err(e) => Err(e),
                Ok(st2) => spec_parse_rows(st2, lines, width, y + 1),
            }
        }
    }
}

/// The whole layout scan: every row as wide as the first, every character
/// recognised, at most one respawn and player start each, and at least one
/// respawn.
pub open spec fn spec_parse(lines: Seq<Seq<char>>) -> Result<ParseState, LayoutError> {
    let st0 = ParseState {
        tiles: Seq::empty(),
        respawn: None,
        player: None,
        ghosts: Seq::empty(),
    };
    match spec_parse_rows(st0, lines, lines[0].len() as int, 0) {
        Err(e) => Err(e),
        Ok(st) => if st.respawn is None {
            Err(LayoutError::NoRespawn)
        } else {
            Ok(st)
        },
    }
}

pub open spec fn spec_digit_char(d: int) -> char {
    if d == 0 {
        '0'
    } else if d == 1 {
        '1'
    } else if d == 2 {
        '2'
    } else if d == 3 {
        '3'
    } else if d == 4 {
        '4'
    } else if d == 5 {
        '5'
    } else if d == 6 {
        '6'
    } else if d == 7 {
        '7'
    } else if d == 8 {
        '8'
    } else {
        '9'
    }
}

/// The decimal digits of a non-negative number.
pub open spec fn spec_decimal(n: int) -> Seq<char>
    decreases n,
{
    if n < 10 {
        seq![spec_digit_char(n)]
    } else {
        spec_decimal(n / 10).push(spec_digit_char(n % 10))
    }
}

/// Relies on `String::push`: appends exactly the given character.
#[verifier::external_body]
fn push_char(s: &mut String, c: char)
    ensures
        final(s)@ == old(s)@.push(c),
{
    s.push(c);
}

fn digit_char(d: usize) -> (c: char)
    requires
        d < 10,
    ensures
        c == spec_digit_char(d as int),
{
    match d {
        0 => '0',
        1 => '1',
        2 => '2',
        3 => '3',
        4 => '4',
        5 => '5',
        6 => '6',
        7 => '7',
        8 => '8',
        _ => '9',
    }
}

/// Render a number in decimal.
fn push_decimal(s: &mut String, n: usize)
    ensures
        final(s)@ == old(s)@ + spec_decimal(n as int),
    decreases n,
{
    if n < 10 {
        push_char(s, digit_char(n));
    } else {
        push_decimal(s, n / 10);
        push_char(s, digit_char(n % 10));
        proof {
            assert(s@ =~= old(s)@ + spec_decimal(n as int));
        }
    }
}

/// The rejection message a [`LayoutError`] renders as.
pub open spec fn spec_message(e: LayoutError) -> Seq<char> {
    match e {
        LayoutError::InconsistentLineLength { line, expected, found } => {
            "Inconsistent line length: line 1 has length "@ + spec_decimal(expected as int)
                + ", line "@ + spec_decimal(line as int) + " has length "@ + spec_decimal(
                found as int,
            )
        },
        LayoutError::UnknownTile { x, y, c } => {
            "Error at ("@ + spec_decimal(x as int) + ", "@ + spec_decimal(y as int)
                + "): Unknown tile character '"@ + seq![c] + "'"@
        },
        LayoutError::SecondRespawn { x, y } => {
            "Error at ("@ + spec_decimal(x as int) + ", "@ + spec_decimal(y as int)
                + "): Second respawn tile found"@
        },
        LayoutError::MultiplePlayers => "Multiple player positions found"@,
        LayoutError::NoRespawn => "No respawn tile found"@,
    }
}

impl LayoutError {
    /// A human-readable description of the rejection.
    pub fn message(&self) -> (s: String)
        ensures
            s@ == spec_message(*self),
    {
        let mut s = String::new();
        match *self {
            LayoutError::InconsistentLineLength { line, expected, found } => {
                s.append("Inconsistent line length: line 1 has length ");
                push_decimal(&mut s, expected);
                s.append(", line ");
                push_decimal(&mut s, line);
                s.append(" has length ");
                push_decimal(&mut s, found);
                proof {
                    assert(s@ =~= spec_message(*self));
                }
            },
            LayoutError::UnknownTile { x, y, c } => {
                s.append("Error at (");
                push_decimal(&mut s, x);
                s.append(", ");
                push_decimal(&mut s, y);
                s.append("): Unknown tile character '");
                push_char(&mut s, c);
                s.append("'");
                proof {
                    assert(s@ =~= spec_message(*self));
                }
            },
            LayoutError::SecondRespawn { x, y } => {
                s.append("Error at (");
                push_decimal(&mut s, x);
                s.append(", ");
                push_decimal(&mut s, y);
                s.append("): Second respawn tile found");
                proof {
                    assert(s@ =~= spec_message(*self));
                }
            },
            LayoutError::MultiplePlayers => {
                s.append("Multiple player positions found");
                proof {
                    assert(s@ =~= spec_message(*self));
                }
            },
            LayoutError::NoRespawn => {
                s.append("No respawn tile found");
                proof {
                    assert(s@ =~= spec_message(*self));
                }
            },
        }
        s
    }
}

/// A parsed layout: the maze plus the player and ghost starting cells.
pub struct Config {
    pub maze: Maze,
    pub player_pos: Option<(usize, usize)>,
    pub ghosts_pos: Vec<(usize, usize, Personality)>,
}

/// The views of a sequence of character vectors.
pub open spec fn spec_views(lv: Seq<Vec<char>>) -> Seq<Seq<char>> {
    lv.map_values(|v: Vec<char>| v@)
}

/// The row scan followed by the remaining rows: the continuation the
/// parsing loop is at once it has handled the first `x` cells of row `y`.
pub open spec fn spec_parse_from(
    st: ParseState,
    lines: Seq<Seq<char>>,
    width: int,
    x: int,
    y: int,
) -> Result<ParseState, LayoutError> {
    match spec_parse_row(st, lines[y], x, y) {
        Err(e) => Err(e),
        Ok(st2) => spec_parse_rows(st2, lines, width, y + 1),
    }
}

impl Config {
    /// Parse a textual maze layout. The surrounding whitespace is trimmed,
    /// the rest is split into newline-separated rows and scanned row-major;
    /// the first offending cell (in scan order) decides the error.
    pub fn from_string(s: &str) -> (r: Result<Config, LayoutError>)
        requires
            s@.len() < 0x7fff_ffff,
        ensures
            ({
                let lines = spec_split_lines(spec_trim(s@));
                match r {
                    Ok(config) => {
                        &&& spec_parse(lines) is Ok
                        &&& ({
                            let st = spec_parse(lines)->Ok_0;
                            &&& config.maze.wf()
                            &&& config.maze.width == lines[0].len()
                            &&& config.maze.height == lines.len()
                            &&& config.maze.maze@ == st.tiles
                            &&& st.respawn == Some(config.maze.respawn_point)
                            &&& config.maze.respawn_point.0 < config.maze.width
                            &&& config.maze.respawn_point.1 < config.maze.height
                            &&& config.player_pos == st.player
                            &&& config.ghosts_pos@ == st.ghosts
                            &&& (config.player_pos matches Some(p) ==> p.0 < config.maze.width
                                && p.1 < config.maze.height)
                            &&& forall|j: int|
                                0 <= j < config.ghosts_pos@.len() ==> (
                                #[trigger] config.ghosts_pos@[j]).0 < config.maze.width
                                    && config.ghosts_pos@[j].1 < config.maze.height
                        })
                    },
                    Err(e) => spec_parse(lines) == Err::<ParseState, LayoutError>(e),
                }
            }),
    {
        let n = s.unicode_len();
        let mut start: usize = 0;
        while start < n && is_space(s.get_char(start))
            invariant
                start <= n,
                n == s@.len(),
                forall|i: int| 0 <= i < start ==> spec_is_space(s@[i]),
            decreases n - start,
        {
            start = start + 1;
        }
        let mut end: usize = n;
        while end > start && is_space(s.get_char(end - 1))
            invariant
                start <= end <= n,
                n == s@.len(),
                forall|i: int| 0 <= i < start ==> spec_is_space(s@[i]),
                start == n || !spec_is_space(s@[start as int]),
                forall|i: int| end <= i < n ==> spec_is_space(s@[i]),
            decreases end,
        {
            end = end - 1;
        }
        let ghost trimmed = s@.subrange(start as int, end as int);
        proof {
            if start == n {
                lemma_leading_spaces_is(s@, n as int);
                assert(trimmed =~= spec_trim(s@));
            } else {
                lemma_leading_spaces_is(s@, start as int);
                lemma_trailing_spaces_is(s@, n - end);
                assert(trimmed =~= spec_trim(s@));
            }
        }
        let mut lines_vec: Vec<Vec<char>> = Vec::new();
        let mut cur: Vec<char> = Vec::new();
        let mut i: usize = start;
        proof {
            assert(s@.subrange(start as int, start as int) =~= Seq::<char>::empty());
            assert(spec_views(lines_vec@).push(cur@) =~= seq![Seq::<char>::empty()]);
        }
        while i < end
            invariant
                start <= i <= end <= n,
                n == s@.len(),
                spec_split_lines(s@.subrange(start as int, i as int)) == spec_views(
                    lines_vec@,
                ).push(cur@),
            decreases end - i,
        {
            let c = s.get_char(i);
            let ghost prefix = s@.subrange(start as int, i as int);
            proof {
                assert(s@.subrange(start as int, i + 1).drop_last() =~= prefix);
                assert(s@.subrange(start as int, i + 1).last() == s@[i as int]);
            }
            if c == '\n' {
                lines_vec.push(cur);
                cur = Vec::new();
                proof {
                    assert(spec_views(lines_vec@).push(cur@) =~= spec_split_lines(
                        s@.subrange(start as int, i + 1),
                    ));
                }
            } else {
                let ghost old_views = spec_views(lines_vec@);
                let ghost old_cur = cur@;
                cur.push(c);
                proof {
                    assert(old_views.push(old_cur).update(
                        old_views.push(old_cur).len() - 1,
                        old_views.push(old_cur).last().push(c),
                    ) =~= old_views.push(cur@));
                    assert(spec_views(lines_vec@).push(cur@) =~= spec_split_lines(
                        s@.subrange(start as int, i + 1),
                    ));
                }
            }
            i = i + 1;
        }
        lines_vec.push(cur);
        let ghost lines = spec_views(lines_vec@);
        proof {
            assert(lines =~= spec_split_lines(trimmed));
            assert(lines.len() >= 1 && lines[0] == lines_vec@[0]@);
        }
        let width = lines_vec[0].len();
        let ghost st0 = ParseState {
            tiles: Seq::empty(),
            respawn: None,
            player: None,
            ghosts: Seq::empty(),
        };
        let mut tiles: Vec<Tile> = Vec::new();
        let mut respawn: Option<(usize, usize)> = None;
        let mut player_pos: Option<(usize, usize)> = None;
        let mut ghosts_pos: Vec<(usize, usize, Personality)> = Vec::new();
        let mut y: usize = 0;
        while y < lines_vec.len()
            invariant
                st0 == (ParseState {
                    tiles: Seq::<Tile>::empty(),
                    respawn: None::<(usize, usize)>,
                    player: None::<(usize, usize)>,
                    ghosts: Seq::<(usize, usize, Personality)>::empty(),
                }),
                y <= lines_vec@.len(),
                lines == spec_views(lines_vec@),
                lines == spec_split_lines(spec_trim(s@)),
                lines.len() == lines_vec@.len(),
                width == lines[0].len(),
                tiles@.len() == y * width,
                respawn matches Some(p) ==> p.0 < width && p.1 < y && tiles@.len() > 0,
                player_pos matches Some(p) ==> p.0 < width && p.1 < y,
                forall|j: int|
                    0 <= j < ghosts_pos@.len() ==> (#[trigger] ghosts_pos@[j]).0 < width
                        && ghosts_pos@[j].1 < y,
                spec_parse_rows(st0, lines, width as int, 0) == spec_parse_rows(
                    ParseState {
                        tiles: tiles@,
                        respawn,
                        player: player_pos,
                        ghosts: ghosts_pos@,
                    },
                    lines,
                    width as int,
                    y as int,
                ),
            decreases lines_vec@.len() - y,
        {
            let ghost st_row = ParseState {
                tiles: tiles@,
                respawn,
                player: player_pos,
                ghosts: ghosts_pos@,
            };
            proof {
                assert(lines[y as int] == lines_vec@[y as int]@);
            }
            if lines_vec[y].len() != width {
                proof {
                    assert(spec_parse(lines) == Err::<ParseState, LayoutError>(
                        LayoutError::InconsistentLineLength {
                            line: (y + 1) as usize,
                            expected: width,
                            found: lines_vec@[y as int]@.len() as usize,
                        },
                    ));
                }
                return Err(
                    LayoutError::InconsistentLineLength {
                        line: y + 1,
                        expected: width,
                        found: lines_vec[y].len(),
                    },
                );
            }
            proof {
                assert(spec_parse_rows(st_row, lines, width as int, y as int) == spec_parse_from(
                    st_row,
                    lines,
                    width as int,
                    0,
                    y as int,
                ));
            }
            let mut x: usize = 0;
            while x < lines_vec[y].len()
                invariant
                    st0 == (ParseState {
                        tiles: Seq::<Tile>::empty(),
                        respawn: None::<(usize, usize)>,
                        player: None::<(usize, usize)>,
                        ghosts: Seq::<(usize, usize, Personality)>::empty(),
                    }),
                    y < lines_vec@.len(),
                    x <= lines_vec@[y as int]@.len(),
                    lines == spec_views(lines_vec@),
                    lines == spec_split_lines(spec_trim(s@)),
                    lines.len() == lines_vec@.len(),
                    width == lines[0].len(),
                    lines[y as int].len() == width,
                    tiles@.len() == y * width + x,
                    respawn matches Some(p) ==> p.0 < width && p.1 <= y && tiles@.len() > 0,
                    player_pos matches Some(p) ==> p.0 < width && p.1 <= y,
                    forall|j: int|
                        0 <= j < ghosts_pos@.len() ==> (#[trigger] ghosts_pos@[j]).0 < width
                            && ghosts_pos@[j].1 <= y,
                    spec_parse_rows(st0, lines, width as int, 0) == spec_parse_from(
                        ParseState {
                            tiles: tiles@,
                            respawn,
                            player: player_pos,
                            ghosts: ghosts_pos@,
                        },
                        lines,
                        width as int,
                        x as int,
                        y as int,
                    ),
                decreases lines_vec@[y as int]@.len() - x,
            {
                let c = lines_vec[y][x];
                proof {
                    assert(lines[y as int] == lines_vec@[y as int]@);
                    assert(lines[y as int][x as int] == c);
                }
                match match_maze_char(c) {
                    None => {
                        proof {
                            assert(spec_parse(lines) == Err::<ParseState, LayoutError>(
                                LayoutError::UnknownTile { x, y, c },
                            ));
                        }
                        return Err(LayoutError::UnknownTile { x, y, c });
                    },
                    Some(tile) => {
                        if c == 'R' {
                            if respawn.is_some() {
                                proof {
                                    assert(spec_parse(lines) == Err::<ParseState, LayoutError>(
                                        LayoutError::SecondRespawn { x, y },
                                    ));
                                }
                                return Err(LayoutError::SecondRespawn { x, y });
                            }
                            respawn = Some((x, y));
                        }
                        if c == 'M' {
                            if player_pos.is_some() {
                                proof {
                                    assert(spec_parse(lines) == Err::<ParseState, LayoutError>(
                                        LayoutError::MultiplePlayers,
                                    ));
                                }
                                return Err(LayoutError::MultiplePlayers);
                            }
                            player_pos = Some((x, y));
                        }
                        tiles.push(tile);
                        if c == 'B' {
                            ghosts_pos.push((x, y, Personality::Blinky));
                        } else if c == 'I' {
                            ghosts_pos.push((x, y, Personality::Inky));
                        } else if c == 'P' {
                            ghosts_pos.push((x, y, Personality::Pinky));
                        } else if c == 'C' {
                            ghosts_pos.push((x, y, Personality::Clyde));
                        }
                    },
                }
                x = x + 1;
            }
            proof {
                assert((y + 1) * width == y * width + width) by (nonlinear_arith);
            }
            y = y + 1;
        }
        let height = lines_vec.len();
        match respawn {
            None => Err(LayoutError::NoRespawn),
            Some(rp) => {
                proof {
                    lemma_split_lines_bounds(spec_trim(s@));
                    assert(spec_trim(s@).len() <= s@.len());
                    assert(lines[0].len() <= spec_trim(s@).len());
                    assert(width >= 1) by {
                        if width == 0 {
                            assert(tiles@.len() == height * 0);
                            assert(tiles@.len() == 0) by (nonlinear_arith)
                                requires
                                    tiles@.len() == height * 0,
                            ;
                        }
                    }
                    assert(tiles@.len() == width * height) by (nonlinear_arith)
                        requires
                            tiles@.len() == height * width,
                    ;
                }
                let maze = Maze::new(width, height, tiles, rp);
                Ok(Config { maze, player_pos, ghosts_pos })
            },
        }
    }

    /// A degenerate empty configuration around the empty maze.
    pub fn empty() -> (c: Config)
        ensures
            c.maze.width == 0,
            c.maze.height == 0,
            c.maze.maze@.len() == 0,
            c.player_pos is None,
            c.ghosts_pos@ == Seq::<(usize, usize, Personality)>::empty(),
    {
        Config { maze: Maze::empty(), player_pos: None, ghosts_pos: Vec::new() }
    }
}

} // verus!
