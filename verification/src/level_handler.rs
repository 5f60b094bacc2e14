use std::collections::HashMap;
use vstd::prelude::*;
use vstd::std_specs::hash::group_hash_axioms;
use vstd::std_specs::iter::IteratorSpec;
use vstd::string::group_string_axioms;

use crate::actor::{Actor, ActorView};
use crate::constants::{GROUND_TILE_HEIGHT, GROUND_TILE_WIDTH, WORLD_LIMIT};
use crate::primitives::{Aabb, Dimensions, Rect, RectExt, Vec2, Vector};

verus! {

/// A kind of tile: the character that stands for it in a level's text and the
/// cell of the tile sheet that shows it.
#[derive(Debug, PartialEq, Clone, Copy)]
pub struct TileType {
    pub name: &'static str,
    pub char: char,
    /// Column in the tile sheet, counted from the left, starting at 0.
    pub x: usize,
    /// Row in the tile sheet, counted from the top, starting at 0.
    pub y: usize,
}

impl TileType {
    pub fn new(name: &'static str, char: char, x: usize, y: usize) -> (tile: TileType)
        ensures
            tile == (TileType { name, char, x, y }),
    {
        TileType { name, char, x, y }
    }
}

/// The mathematical value of a [`LevelTiles`]: the tile that stands for an
/// empty cell, and the tile of each character that has one.
pub struct TileTable {
    pub empty: TileType,
    pub tile_map: Map<char, TileType>,
}

impl TileTable {
    /// The tile that `c` stands for, if any.
    pub open spec fn lookup(self, c: char) -> Option<TileType> {
        if self.tile_map.contains_key(c) {
            Some(self.tile_map[c])
        } else {
            None
        }
    }

    /// The tiles of the game.
    pub open spec fn standard() -> TileTable {
        let empty = TileType { name: "EMPTY", char: ' ', x: 0, y: 0 };
        TileTable {
            empty,
            tile_map: Map::<char, TileType>::empty().insert(' ', empty).insert(
                '#',
                TileType { name: "GROUND", char: '#', x: 11, y: 1 },
            ).insert('^', TileType { name: "TOP", char: '^', x: 1, y: 0 }).insert(
                'v',
                TileType { name: "BOTTOM", char: 'v', x: 8, y: 4 },
            ).insert('<', TileType { name: "LEFT", char: '<', x: 0, y: 1 }).insert(
                '>',
                TileType { name: "RIGHT", char: '>', x: 3, y: 1 },
            ).insert('H', TileType { name: "LEFT_RIGHT", char: 'H', x: 4, y: 1 }).insert(
                '\u{250c}',
                TileType { name: "TOP_LEFT", char: '\u{250c}', x: 0, y: 0 },
            ).insert(
                '\u{2510}',
                TileType { name: "TOP_RIGHT", char: '\u{2510}', x: 2, y: 0 },
            ).insert('=', TileType { name: "TOP_BOTTOM", char: '=', x: 1, y: 4 }).insert(
                '\u{2514}',
                TileType { name: "BOTTOM_LEFT", char: '\u{2514}', x: 7, y: 4 },
            ).insert(
                '\u{2518}',
                TileType { name: "BOTTOM_RIGHT", char: '\u{2518}', x: 9, y: 4 },
            ).insert(
                '\u{251c}',
                TileType { name: "TOP_BOTTOM_LEFT", char: '\u{251c}', x: 0, y: 4 },
            ).insert(
                '\u{2524}',
                TileType { name: "TOP_BOTTOM_RIGHT", char: '\u{2524}', x: 2, y: 4 },
            ).insert(
                '\u{252c}',
                TileType { name: "TOP_RIGHT_LEFT", char: '\u{252c}', x: 4, y: 0 },
            ).insert(
                '\u{2534}',
                TileType { name: "BOTTOM_RIGHT_LEFT", char: '\u{2534}', x: 8, y: 4 },
            ).insert('\u{253c}', TileType { name: "ALL_BORDERS", char: '\u{253c}', x: 5, y: 2 }),
        }
    }
}

/// The number of a character is the character itself: no two characters
/// share one.
proof fn lemma_char_code(c: char)
    ensures
        (c as u32) as int == c as int,
{
}

/// The tiles that a level's text can name, found by their character.
pub struct LevelTiles {
    empty: TileType,
    tile_map: HashMap<u32, TileType>,
}

impl View for LevelTiles {
    type V = TileTable;

    closed spec fn view(&self) -> TileTable {
        TileTable {
            empty: self.empty,
            tile_map: Map::new(
                |c: char| self.tile_map@.contains_key(c as u32),
                |c: char| self.tile_map@[c as u32],
            ),
        }
    }
}

impl LevelTiles {
    /// The tiles of the game: the empty tile for a blank, the plain ground
    /// tile for `#`, and one tile for each way in which a ground block can
    /// border on open space.
    pub fn new() -> (tiles: LevelTiles)
        ensures
            tiles@ == TileTable::standard(),
    {
        broadcast use group_hash_axioms;

        let empty = TileType::new("EMPTY", ' ', 0, 0);
        let mut tile_map: HashMap<u32, TileType> = HashMap::new();
        Self::register(&mut tile_map, empty);
        Self::register(&mut tile_map, TileType::new("GROUND", '#', 11, 1));
        Self::register(&mut tile_map, TileType::new("TOP", '^', 1, 0));
        Self::register(&mut tile_map, TileType::new("BOTTOM", 'v', 8, 4));
        Self::register(&mut tile_map, TileType::new("LEFT", '<', 0, 1));
        Self::register(&mut tile_map, TileType::new("RIGHT", '>', 3, 1));
        Self::register(&mut tile_map, TileType::new("LEFT_RIGHT", 'H', 4, 1));
        Self::register(&mut tile_map, TileType::new("TOP_LEFT", '\u{250c}', 0, 0));
        Self::register(&mut tile_map, TileType::new("TOP_RIGHT", '\u{2510}', 2, 0));
        Self::register(&mut tile_map, TileType::new("TOP_BOTTOM", '=', 1, 4));
        Self::register(&mut tile_map, TileType::new("BOTTOM_LEFT", '\u{2514}', 7, 4));
        Self::register(&mut tile_map, TileType::new("BOTTOM_RIGHT", '\u{2518}', 9, 4));
        Self::register(&mut tile_map, TileType::new("TOP_BOTTOM_LEFT", '\u{251c}', 0, 4));
        Self::register(&mut tile_map, TileType::new("TOP_BOTTOM_RIGHT", '\u{2524}', 2, 4));
        Self::register(&mut tile_map, TileType::new("TOP_RIGHT_LEFT", '\u{252c}', 4, 0));
        Self::register(&mut tile_map, TileType::new("BOTTOM_RIGHT_LEFT", '\u{2534}', 8, 4));
        Self::register(&mut tile_map, TileType::new("ALL_BORDERS", '\u{253c}', 5, 2));
        let tiles = LevelTiles { empty, tile_map };
        assert forall|c: char|
            tiles@.tile_map.contains_key(c) == TileTable::standard().tile_map.contains_key(
                c,
            ) by {
            lemma_char_code(c);
        }
        assert(tiles@.tile_map =~= TileTable::standard().tile_map);
        tiles
    }

    /// Enters `tile` under its character.
    fn register(tile_map: &mut HashMap<u32, TileType>, tile: TileType)
        ensures
            final(tile_map)@ == old(tile_map)@.insert(tile.char as u32, tile),
    {
        broadcast use group_hash_axioms;

        tile_map.insert(tile.char as u32, tile);
    }

    /// The tile that `char` stands for, or `None` where the character has no
    /// tile.
    pub fn for_char(&self, char: char) -> (tile: Option<TileType>)
        ensures
            tile == self@.lookup(char),
    {
        broadcast use group_hash_axioms;

        let code: u32 = char as u32;
        match self.tile_map.get(&code) {
            Some(tile) => Some(*tile),
            None => None,
        }
    }

    /// The tile of an empty cell.
    pub fn empty(&self) -> (tile: TileType)
        ensures
            tile == self@.empty,
    {
        self.empty
    }
}

/// Why a level could not be built.
#[derive(Debug, Clone, Copy, PartialEq, Eq, Structural)]
pub enum LevelError {
    /// The level's text holds a character that stands for no tile.
    UnknownTile(char),
    /// The width or the height of a tile is not positive.
    InvalidTileSize,
    /// The level is wider or higher than the world limit.
    TooLarge,
}

/// The first character of `text` that stands for no tile.
pub open spec fn first_unknown(table: TileTable, text: Seq<char>) -> Option<char>
    decreases text.len(),
{
    if text.len() == 0 {
        None
    } else {
        match first_unknown(table, text.drop_last()) {
            Some(c) => Some(c),
            None => if table.lookup(text.last()) is None {
                Some(text.last())
            } else {
                None
            },
        }
    }
}

/// The tile of column `i` of a row read from `line`: the tile of the `i`-th
/// character, and the empty tile past the end of the line.
pub open spec fn cell(table: TileTable, line: Seq<char>, i: int) -> TileType {
    if 0 <= i < line.len() {
        match table.lookup(line[i]) {
            Some(tile) => tile,
            None => table.empty,
        }
    } else {
        table.empty
    }
}

/// The characters of `line` that a row of `width` cells is read from.
pub open spec fn used_part(line: Seq<char>, width: nat) -> Seq<char> {
    if line.len() <= width {
        line
    } else {
        line.take(width as int)
    }
}

/// The row of `width` tiles that `line` stands for. Characters past the
/// width are not looked at.
pub open spec fn parse_row(table: TileTable, line: Seq<char>, width: nat) -> Result<
    Seq<TileType>,
    LevelError,
> {
    match first_unknown(table, used_part(line, width)) {
        Some(c) => Err(LevelError::UnknownTile(c)),
        None => Ok(Seq::new(width, |i: int| cell(table, line, i))),
    }
}

/// The rows that `lines` stand for, or the error of the first line that has
/// one.
pub open spec fn parse_grid(table: TileTable, lines: Seq<Seq<char>>, width: nat) -> Result<
    Seq<Seq<TileType>>,
    LevelError,
>
    decreases lines.len(),
{
    if lines.len() == 0 {
        Ok(Seq::empty())
    } else {
        match parse_grid(table, lines.drop_last(), width) {
            Err(e) => Err(e),
            Ok(rows) => match parse_row(table, lines.last(), width) {
                Err(e) => Err(e),
                Ok(row) => Ok(rows.push(row)),
            },
        }
    }
}

/// The ground blocks of one row of tiles, from left to right. The row lies
/// at height `y` of the grid, counted from the bottom. An empty tile gives
/// no block.
pub open spec fn row_actors(row: Seq<TileType>, y: int, size: Vector) -> Seq<ActorView>
    decreases row.len(),
{
    if row.len() == 0 {
        Seq::empty()
    } else {
        let before = row_actors(row.drop_last(), y, size);
        let tile = row.last();
        if tile.char == ' ' {
            before
        } else {
            before.push(ActorView::ground(tile.x, tile.y, row.len() - 1, y, size))
        }
    }
}

/// The ground blocks of the first rows of a grid of `height` rows, row by
/// row. The first row is the top of the level: it lies at height
/// `height - 1`.
pub open spec fn grid_actors(rows: Seq<Seq<TileType>>, height: int, size: Vector) -> Seq<
    ActorView,
>
    decreases rows.len(),
{
    if rows.len() == 0 {
        Seq::empty()
    } else {
        grid_actors(rows.drop_last(), height, size) + row_actors(
            rows.last(),
            height - rows.len(),
            size,
        )
    }
}

/// The texts of a list of strings.
pub open spec fn texts(lines: Seq<String>) -> Seq<Seq<char>> {
    lines.map_values(|line: String| line@)
}

/// The rows of a grid of tiles.
pub open spec fn rows_of(grid: Seq<Vec<TileType>>) -> Seq<Seq<TileType>> {
    grid.map_values(|row: Vec<TileType>| row@)
}

/// The values of a list of actors.
pub open spec fn views(actors: Seq<Actor>) -> Seq<ActorView> {
    actors.map_values(|a: Actor| a@)
}

/// The first `count` of `items`, or all of them where there are fewer.
pub open spec fn first_of<T>(items: Seq<T>, count: nat) -> Seq<T> {
    if items.len() <= count {
        items
    } else {
        items.take(count as int)
    }
}

/// A character without a tile in the first part of a text is the first such
/// character of any longer part.
pub proof fn lemma_first_unknown_stays(table: TileTable, text: Seq<char>, k: int)
    requires
        0 <= k <= text.len(),
        first_unknown(table, text.take(k)) is Some,
    ensures
        first_unknown(table, text) == first_unknown(table, text.take(k)),
    decreases text.len() - k,
{
    if k < text.len() {
        assert(text.take(k + 1).drop_last() =~= text.take(k));
        lemma_first_unknown_stays(table, text, k + 1);
    } else {
        assert(text.take(k) =~= text);
    }
}

/// An error in the first lines of a text is the error of any longer part.
pub proof fn lemma_parse_grid_error_stays(
    table: TileTable,
    lines: Seq<Seq<char>>,
    width: nat,
    k: int,
)
    requires
        0 <= k <= lines.len(),
        parse_grid(table, lines.take(k), width) is Err,
    ensures
        parse_grid(table, lines, width) == parse_grid(table, lines.take(k), width),
    decreases lines.len() - k,
{
    if k < lines.len() {
        assert(lines.take(k + 1).drop_last() =~= lines.take(k));
        lemma_parse_grid_error_stays(table, lines, width, k + 1);
    } else {
        assert(lines.take(k) =~= lines);
    }
}

/// Turns the text of a level into tiles, and tiles into ground blocks.
pub struct LevelBuilder {}

impl LevelBuilder {
    /// Reads the first `height` lines of a level's text as rows of `width`
    /// tiles each. Fails on the first character without a tile.
    pub fn load_level(
        lines: &Vec<String>,
        tiles: &LevelTiles,
        width: usize,
        height: usize,
    ) -> (level: Result<Vec<Vec<TileType>>, LevelError>)
        ensures
            match level {
                Ok(grid) => parse_grid(tiles@, first_of(texts(lines@), height as nat), width as nat)
                    == Ok::<Seq<Seq<TileType>>, LevelError>(rows_of(grid@)),
                Err(e) => parse_grid(tiles@, first_of(texts(lines@), height as nat), width as nat)
                    == Err::<Seq<Seq<TileType>>, LevelError>(e),
            },
    {
        let count: usize = if lines.len() <= height {
            lines.len()
        } else {
            height
        };
        let ghost used = first_of(texts(lines@), height as nat);
        let mut level: Vec<Vec<TileType>> = Vec::new();
        let mut y: usize = 0;
        assert(rows_of(level@) =~= Seq::<Seq<TileType>>::empty());
        while y < count
            invariant
                y <= count,
                count == used.len(),
                count <= lines.len(),
                used == first_of(texts(lines@), height as nat),
                level.len() == y,
                parse_grid(tiles@, used.take(y as int), width as nat) == Ok::<
                    Seq<Seq<TileType>>,
                    LevelError,
                >(rows_of(level@)),
            decreases count - y,
        {
            proof {
                assert(used.take(y + 1).drop_last() =~= used.take(y as int));
                assert(used.take(y + 1).last() == lines@[y as int]@);
            }
            match Self::read_row(tiles, lines[y].as_str(), width) {
                Ok(row) => {
                    let ghost before = rows_of(level@);
                    level.push(row);
                    assert(rows_of(level@) =~= before.push(row@));
                },
                Err(e) => {
                    proof {
                        lemma_parse_grid_error_stays(tiles@, used, width as nat, y + 1);
                    }
                    return Err(e);
                },
            }
            y += 1;
        }
        assert(used.take(y as int) =~= used);
        Ok(level)
    }

    /// The ground blocks of a grid of tiles that is as high as the level,
    /// row by row from the top, each row from the left. The first row of
    /// the grid is the top of the level and the last row lies at height 0.
    pub fn create_actors(level: &Vec<Vec<TileType>>, size: Dimensions) -> (actors: Vec<Actor>)
        requires
            size.x > 0,
            size.y > 0,
            level.len() * size.y <= WORLD_LIMIT,
            forall|r: int|
                0 <= r < level.len() ==> (#[trigger] level[r]).len() * size.x <= WORLD_LIMIT,
        ensures
            views(actors@) == grid_actors(rows_of(level@), level.len() as int, size@),
    {
        Self::place_actors(level, level.len(), size)
    }

    /// The ground blocks of the rows of tiles at the top of a level of
    /// `height` rows, row by row from the top, each row from the left. The
    /// first row of the grid is the top of the level, at height
    /// `height - 1`; rows that the grid does not hold are empty.
    pub fn place_actors(level: &Vec<Vec<TileType>>, height: usize, size: Dimensions) -> (actors:
        Vec<Actor>)
        requires
            size.x > 0,
            size.y > 0,
            level.len() <= height,
            height * size.y <= WORLD_LIMIT,
            forall|r: int|
                0 <= r < level.len() ==> (#[trigger] level[r]).len() * size.x <= WORLD_LIMIT,
        ensures
            views(actors@) == grid_actors(rows_of(level@), height as int, size@),
    {
        let ghost rows = rows_of(level@);
        let mut actors: Vec<Actor> = Vec::new();
        let mut y: usize = 0;
        assert(views(actors@) =~= Seq::<ActorView>::empty());
        while y < level.len()
            invariant
                y <= level.len(),
                level.len() <= height,
                rows == rows_of(level@),
                size.x > 0,
                size.y > 0,
                height * size.y <= WORLD_LIMIT,
                forall|r: int|
                    0 <= r < level.len() ==> (#[trigger] level[r]).len() * size.x <= WORLD_LIMIT,
                views(actors@) == grid_actors(rows.take(y as int), height as int, size@),
            decreases level.len() - y,
        {
            let row = &level[y];
            let world_y: usize = height - y - 1;
            let ghost done = views(actors@);
            let mut x: usize = 0;
            proof {
                assert(rows.take(y + 1).drop_last() =~= rows.take(y as int));
                assert(rows.take(y + 1).last() == row@);
                assert(row@.take(0) =~= Seq::<TileType>::empty());
                assert(done + Seq::<ActorView>::empty() =~= done);
                assert((world_y + 1) * size.y <= height * size.y) by (nonlinear_arith)
                    requires
                        world_y + 1 <= height,
                        size.y > 0,
                ;
            }
            while x < row.len()
                invariant
                    x <= row.len(),
                    size.x > 0,
                    size.y > 0,
                    (world_y + 1) * size.y <= WORLD_LIMIT,
                    row.len() * size.x <= WORLD_LIMIT,
                    views(actors@) == done + row_actors(row@.take(x as int), world_y as int, size@),
                decreases row.len() - x,
            {
                proof {
                    assert(row@.take(x + 1).drop_last() =~= row@.take(x as int));
                    assert(row@.take(x + 1).last() == row[x as int]);
                    assert((x + 1) * size.x <= row.len() * size.x) by (nonlinear_arith)
                        requires
                            x + 1 <= row.len(),
                            size.x > 0,
                    ;
                }
                match Self::create_tile(&row[x], x, world_y, size) {
                    Some(actor) => {
                        let ghost before = views(actors@);
                        actors.push(actor);
                        proof {
                            assert(views(actors@) =~= before.push(actor@));
                            assert(done + row_actors(row@.take(x + 1), world_y as int, size@)
                                =~= (done + row_actors(
                                row@.take(x as int),
                                world_y as int,
                                size@,
                            )).push(actor@));
                        }
                    },
                    None => {},
                }
                x += 1;
            }
            assert(row@.take(x as int) =~= row@);
            y += 1;
        }
        assert(rows.take(y as int) =~= rows);
        actors
    }

    /// The ground block of a tile at column `x` and height `y` of the grid,
    /// or nothing for the empty tile.
    pub fn create_tile(tile: &TileType, x: usize, y: usize, size: Dimensions) -> (actor: Option<
        Actor,
    >)
        requires
            size.x > 0,
            size.y > 0,
            (x + 1) * size.x <= WORLD_LIMIT,
            (y + 1) * size.y <= WORLD_LIMIT,
        ensures
            tile.char == ' ' ==> actor is None,
            tile.char != ' ' ==> actor is Some && actor.unwrap()@ == ActorView::ground(
                tile.x,
                tile.y,
                x as int,
                y as int,
                size@,
            ) && actor.unwrap().wf(),
    {
        match tile.char {
            ' ' => None,
            _ => Some(Actor::create_ground(tile, x, y, size)),
        }
    }

    /// Reads one line of a level's text as a row of exactly `width` tiles:
    /// characters past the width are dropped, and a short line is filled up
    /// with empty tiles. Fails on the first character, of those read, that
    /// stands for no tile.
    pub fn read_row(tiles: &LevelTiles, line: &str, width: usize) -> (row: Result<
        Vec<TileType>,
        LevelError,
    >)
        ensures
            match row {
                Ok(r) => parse_row(tiles@, line@, width as nat) == Ok::<Seq<TileType>, LevelError>(
                    r@,
                ),
                Err(e) => parse_row(tiles@, line@, width as nat) == Err::<
                    Seq<TileType>,
                    LevelError,
                >(e),
            },
    {
        broadcast use group_string_axioms;

        let ghost used = used_part(line@, width as nat);
        let mut row: Vec<TileType> = Vec::new();
        let mut chars = line.chars();
        let mut at_end = false;
        while row.len() < width && !at_end
            invariant
                row.len() <= width,
                row.len() <= line@.len(),
                used == used_part(line@, width as nat),
                chars.remaining() == line@.skip(row.len() as int),
                at_end ==> row.len() == line@.len(),
                first_unknown(tiles@, line@.take(row.len() as int)) is None,
                forall|i: int| 0 <= i < row.len() ==> row[i] == cell(tiles@, line@, i),
            decreases width - row.len() + (if at_end { 0int } else { 1int }),
        {
            let ghost n = row.len() as int;
            match chars.next() {
                Some(c) => {
                    proof {
                        assert(line@.skip(n)[0] == line@[n]);
                        assert(line@.skip(n).drop_first() =~= line@.skip(n + 1));
                        assert(line@.take(n + 1).drop_last() =~= line@.take(n));
                        assert(line@.take(n + 1).last() == c);
                    }
                    match tiles.for_char(c) {
                        Some(tile) => {
                            row.push(tile);
                        },
                        None => {
                            proof {
                                assert(used.take(n + 1) =~= line@.take(n + 1));
                                lemma_first_unknown_stays(tiles@, used, n + 1);
                            }
                            return Err(LevelError::UnknownTile(c));
                        },
                    }
                },
                None => {
                    at_end = true;
                },
            }
        }
        assert(line@.take(row.len() as int) =~= used);
        while row.len() < width
            invariant
                row.len() <= width,
                row.len() < width ==> row.len() >= line@.len(),
                forall|i: int| 0 <= i < row.len() ==> row[i] == cell(tiles@, line@, i),
            decreases width - row.len(),
        {
            row.push(tiles.empty());
        }
        assert(row@ =~= Seq::new(width as nat, |i: int| cell(tiles@, line@, i)));
        Ok(row)
    }
}

/// The test that picks the actors whose bounding box overlaps `probe`.
pub open spec fn hit_by(probe: Aabb) -> spec_fn(ActorView) -> bool {
    |a: ActorView| a.bbox.overlaps(probe)
}

/// The mathematical value of a [`LevelHandler`]: the ground blocks in their
/// order, and the rectangle that the level covers.
pub struct LevelView {
    pub actors: Seq<ActorView>,
    pub bbox: Aabb,
}

impl LevelView {
    /// The level starts at the origin and is no larger than the world limit,
    /// and every ground block is well formed and lies inside the level.
    pub open spec fn wf(self) -> bool {
        &&& self.bbox.x == 0
        &&& self.bbox.y == 0
        &&& 0 <= self.bbox.w <= WORLD_LIMIT
        &&& 0 <= self.bbox.h <= WORLD_LIMIT
        &&& forall|i: int|
            0 <= i < self.actors.len() ==> (#[trigger] self.actors[i]).wf()
                && self.actors[i].bbox.within(self.bbox)
    }

    /// The ground blocks that a query for `probe` returns, in their order in
    /// the level: none where `probe` misses the level's rectangle, else
    /// those whose bounding box overlaps `probe`.
    pub open spec fn collisions(self, probe: Aabb) -> Seq<ActorView> {
        if self.bbox.overlaps(probe) {
            self.actors.filter(hit_by(probe))
        } else {
            Seq::empty()
        }
    }

    /// Whether `probe` overlaps the level's rectangle and the bounding box
    /// of some ground block.
    pub open spec fn collides_with(self, probe: Aabb) -> bool {
        self.bbox.overlaps(probe) && exists|i: int|
            0 <= i < self.actors.len() && (#[trigger] self.actors[i]).bbox.overlaps(probe)
    }

    /// The level that `lines` describe: `width` columns and `height` rows of
    /// cells of size `size`, with a ground block in each cell whose tile is
    /// not the empty one. The first line is the top row of the level,
    /// whatever the number of lines: lines that are missing at the end
    /// stand for empty rows at the bottom, and lines past the height are
    /// not read.
    pub open spec fn build(lines: Seq<Seq<char>>, width: nat, height: nat, size: Vector) -> Result<
        LevelView,
        LevelError,
    > {
        if size.x <= 0 || size.y <= 0 {
            Err(LevelError::InvalidTileSize)
        } else if width * size.x > WORLD_LIMIT || height * size.y > WORLD_LIMIT {
            Err(LevelError::TooLarge)
        } else {
            match parse_grid(TileTable::standard(), first_of(lines, height), width) {
                Err(e) => Err(e),
                Ok(rows) => Ok(
                    LevelView {
                        actors: grid_actors(rows, height as int, size),
                        bbox: Aabb { x: 0, y: 0, w: width * size.x, h: height * size.y },
                    },
                ),
            }
        }
    }
}

/// The values of a list of borrowed actors.
pub open spec fn ref_views(actors: Seq<&Actor>) -> Seq<ActorView> {
    actors.map_values(|a: &Actor| a@)
}

/// A grid that was read has one row for each line, each of the width asked
/// for.
pub proof fn lemma_parse_grid_shape(table: TileTable, lines: Seq<Seq<char>>, width: nat)
    requires
        parse_grid(table, lines, width) is Ok,
    ensures
        parse_grid(table, lines, width).unwrap().len() == lines.len(),
        forall|r: int|
            0 <= r < lines.len() ==> (#[trigger] parse_grid(table, lines, width).unwrap()[r]).len()
                == width,
    decreases lines.len(),
{
    if lines.len() > 0 {
        lemma_parse_grid_shape(table, lines.drop_last(), width);
    }
}

/// The ground blocks of a row are well formed and lie inside every
/// rectangle that starts at the origin and covers the row's cells.
pub proof fn lemma_row_actors_placed(row: Seq<TileType>, y: int, size: Vector, extent: Aabb)
    requires
        size.x > 0,
        size.y > 0,
        0 <= y,
        extent.x == 0,
        extent.y == 0,
        row.len() * size.x <= extent.w <= WORLD_LIMIT,
        (y + 1) * size.y <= extent.h <= WORLD_LIMIT,
    ensures
        forall|i: int|
            0 <= i < row_actors(row, y, size).len() ==> (#[trigger] row_actors(
                row,
                y,
                size,
            )[i]).wf() && row_actors(row, y, size)[i].bbox.within(extent),
    decreases row.len(),
{
    if row.len() > 0 {
        let x = row.len() - 1;
        assert(x * size.x <= row.len() * size.x && x * size.x + size.x == row.len() * size.x
            && 0 <= x * size.x) by (nonlinear_arith)
            requires
                x == row.len() - 1,
                x >= 0,
                size.x > 0,
        ;
        assert(y * size.y + size.y == (y + 1) * size.y && 0 <= y * size.y) by (nonlinear_arith)
            requires
                y >= 0,
                size.y > 0,
        ;
        lemma_row_actors_placed(row.drop_last(), y, size, extent);
    }
}

/// The ground blocks of a grid are well formed and lie inside every
/// rectangle that starts at the origin and covers the grid's cells.
pub proof fn lemma_grid_actors_placed(
    rows: Seq<Seq<TileType>>,
    height: int,
    size: Vector,
    extent: Aabb,
)
    requires
        size.x > 0,
        size.y > 0,
        rows.len() <= height,
        extent.x == 0,
        extent.y == 0,
        forall|r: int| 0 <= r < rows.len() ==> (#[trigger] rows[r]).len() * size.x <= extent.w,
        0 <= extent.w <= WORLD_LIMIT,
        height * size.y <= extent.h <= WORLD_LIMIT,
    ensures
        forall|i: int|
            0 <= i < grid_actors(rows, height, size).len() ==> (#[trigger] grid_actors(
                rows,
                height,
                size,
            )[i]).wf() && grid_actors(rows, height, size)[i].bbox.within(extent),
    decreases rows.len(),
{
    if rows.len() > 0 {
        let y = height - rows.len();
        assert((y + 1) * size.y <= height * size.y) by (nonlinear_arith)
            requires
                y + 1 <= height,
                size.y > 0,
        ;
        lemma_grid_actors_placed(rows.drop_last(), height, size, extent);
        lemma_row_actors_placed(rows.last(), y, size, extent);
    }
}

/// The static geometry of a level: its ground blocks, and the rectangle that
/// the whole level covers, by which a query that misses the level is
/// answered at once.
pub struct LevelHandler {
    pub actors: Vec<Actor>,
    bbox: Rect,
}

impl View for LevelHandler {
    type V = LevelView;

    closed spec fn view(&self) -> LevelView {
        LevelView { actors: views(self.actors@), bbox: self.bbox@ }
    }
}

impl LevelHandler {
    /// See [`LevelView::wf`].
    pub open spec fn wf(&self) -> bool {
        self@.wf()
    }

    /// Whether the level is well formed.
    pub fn is_valid(&self) -> (ok: bool)
        ensures
            ok == self.wf(),
    {
        if !(self.bbox.x == 0 && self.bbox.y == 0 && 0 <= self.bbox.w && self.bbox.w
            <= WORLD_LIMIT && 0 <= self.bbox.h && self.bbox.h <= WORLD_LIMIT) {
            return false;
        }
        let mut i: usize = 0;
        while i < self.actors.len()
            invariant
                i <= self.actors.len(),
                self.bbox.x == 0,
                self.bbox.y == 0,
                0 <= self.bbox.w <= WORLD_LIMIT,
                0 <= self.bbox.h <= WORLD_LIMIT,
                forall|j: int|
                    0 <= j < i ==> (#[trigger] self@.actors[j]).wf() && self@.actors[j].bbox.within(
                        self@.bbox,
                    ),
            decreases self.actors.len() - i,
        {
            let a = &self.actors[i];
            assert(self@.actors[i as int] == a@);
            if !(a.is_valid() && 0 <= a.bbox.x && a.bbox.x + a.bbox.w <= self.bbox.w && 0
                <= a.bbox.y && a.bbox.y + a.bbox.h <= self.bbox.h) {
                return false;
            }
            i += 1;
        }
        true
    }

    /// Builds the level that `lines` describe, with cells of the size of a
    /// ground tile.
    pub fn new(lines: &Vec<String>, width: usize, height: usize) -> (level: Result<
        LevelHandler,
        LevelError,
    >)
        ensures
            match level {
                Ok(l) => LevelView::build(
                    texts(lines@),
                    width as nat,
                    height as nat,
                    Vector { x: GROUND_TILE_WIDTH as int, y: GROUND_TILE_HEIGHT as int },
                ) == Ok::<LevelView, LevelError>(l@) && l.wf(),
                Err(e) => LevelView::build(
                    texts(lines@),
                    width as nat,
                    height as nat,
                    Vector { x: GROUND_TILE_WIDTH as int, y: GROUND_TILE_HEIGHT as int },
                ) == Err::<LevelView, LevelError>(e),
            },
    {
        Self::with_tile_size(
            lines,
            width,
            height,
            Vec2 { x: GROUND_TILE_WIDTH, y: GROUND_TILE_HEIGHT },
        )
    }

    /// Builds the level that `lines` describe, with cells of the size
    /// `size`. Fails where a tile has no positive size, where the level
    /// would be larger than the world limit, and where the text holds a
    /// character that stands for no tile.
    pub fn with_tile_size(
        lines: &Vec<String>,
        width: usize,
        height: usize,
        size: Dimensions,
    ) -> (level: Result<LevelHandler, LevelError>)
        ensures
            match level {
                Ok(l) => LevelView::build(texts(lines@), width as nat, height as nat, size@)
                    == Ok::<LevelView, LevelError>(l@) && l.wf(),
                Err(e) => LevelView::build(texts(lines@), width as nat, height as nat, size@)
                    == Err::<LevelView, LevelError>(e),
            },
    {
        if size.x <= 0 || size.y <= 0 {
            return Err(LevelError::InvalidTileSize);
        }
        proof {
            assert(0 <= width * size.x <= 0xffff_ffff_ffff_ffff * 0x7fff_ffff_ffff_ffff)
                by (nonlinear_arith)
                requires
                    0 <= width <= 0xffff_ffff_ffff_ffff,
                    0 < size.x <= 0x7fff_ffff_ffff_ffff,
            ;
            assert(0 <= height * size.y <= 0xffff_ffff_ffff_ffff * 0x7fff_ffff_ffff_ffff)
                by (nonlinear_arith)
                requires
                    0 <= height <= 0xffff_ffff_ffff_ffff,
                    0 < size.y <= 0x7fff_ffff_ffff_ffff,
            ;
        }
        let level_w: i128 = width as i128 * size.x as i128;
        let level_h: i128 = height as i128 * size.y as i128;
        if level_w > WORLD_LIMIT as i128 || level_h > WORLD_LIMIT as i128 {
            return Err(LevelError::TooLarge);
        }
        let tiles = LevelTiles::new();
        let grid = match LevelBuilder::load_level(lines, &tiles, width, height) {
            Ok(grid) => grid,
            Err(e) => {
                return Err(e);
            },
        };
        proof {
            let used = first_of(texts(lines@), height as nat);
            lemma_parse_grid_shape(tiles@, used, width as nat);
            assert(grid.len() <= height);
            assert forall|r: int| 0 <= r < grid.len() implies (#[trigger] grid[r]).len()
                == width by {
                assert(rows_of(grid@)[r] == grid[r]@);
            }
            assert(0 <= width * size.x && 0 <= height * size.y) by (nonlinear_arith)
                requires
                    size.x > 0,
                    size.y > 0,
            ;
        }
        let actors = LevelBuilder::place_actors(&grid, height, size);
        let level = LevelHandler {
            actors,
            bbox: Rect { x: 0, y: 0, w: level_w as i64, h: level_h as i64 },
        };
        proof {
            let rows = rows_of(grid@);
            assert forall|r: int| 0 <= r < rows.len() implies (#[trigger] rows[r]).len() * size.x
                <= level@.bbox.w by {
                assert(rows[r] == grid[r]@);
            }
            lemma_grid_actors_placed(rows, height as int, size@, level@.bbox);
        }
        Ok(level)
    }

    /// The ground blocks whose bounding box overlaps `bbox`, in their order
    /// in the level. Nothing is looked at where `bbox` misses the level's
    /// rectangle.
    pub fn get_collisions(&self, bbox: &Rect) -> (hits: Vec<&Actor>)
        ensures
            ref_views(hits@) == self@.collisions(bbox@),
    {
        let mut hits: Vec<&Actor> = Vec::new();
        if !self.bbox.collides_with(bbox) {
            assert(ref_views(hits@) =~= Seq::<ActorView>::empty());
            return hits;
        }
        let ghost all = views(self.actors@);
        let ghost test = hit_by(bbox@);
        let mut i: usize = 0;
        proof {
            reveal(Seq::filter);
            assert(all.take(0).filter(test) =~= Seq::<ActorView>::empty());
            assert(ref_views(hits@) =~= Seq::<ActorView>::empty());
        }
        while i < self.actors.len()
            invariant
                i <= self.actors.len(),
                all == views(self.actors@),
                test == hit_by(bbox@),
                ref_views(hits@) == all.take(i as int).filter(test),
            decreases self.actors.len() - i,
        {
            let a = &self.actors[i];
            let ghost before = ref_views(hits@);
            proof {
                reveal(Seq::filter);
                assert(all.take(i + 1).drop_last() =~= all.take(i as int));
                assert(all.take(i + 1).last() == a@);
            }
            if a.bbox.collides_with(bbox) {
                hits.push(a);
                assert(ref_views(hits@) =~= before.push(a@));
            }
            i += 1;
        }
        assert(all.take(i as int) =~= all);
        hits
    }

    /// Whether `bbox` overlaps the bounding box of a ground block. Nothing
    /// is looked at where `bbox` misses the level's rectangle.
    pub fn collides_with(&self, bbox: &Rect) -> (hit: bool)
        ensures
            hit == self@.collides_with(bbox@),
    {
        if !self.bbox.collides_with(bbox) {
            return false;
        }
        let mut i: usize = 0;
        while i < self.actors.len()
            invariant
                i <= self.actors.len(),
                self.bbox@.overlaps(bbox@),
                forall|j: int| 0 <= j < i ==> !(#[trigger] self@.actors[j]).bbox.overlaps(bbox@),
            decreases self.actors.len() - i,
        {
            if self.actors[i].bbox.collides_with(bbox) {
                assert(self@.actors[i as int] == self.actors[i as int]@);
                assert(0 <= i < self@.actors.len() && self@.actors[i as int].bbox.overlaps(bbox@));
                return true;
            }
            i += 1;
        }
        false
    }
}

/// A query answers with exactly the ground blocks that overlap the probe:
/// for a well-formed level, the test against the level's rectangle leaves
/// none of them out.
pub proof fn lemma_collisions_complete(level: LevelView, probe: Aabb)
    requires
        level.wf(),
    ensures
        level.collisions(probe) == level.actors.filter(hit_by(probe)),
        level.collides_with(probe) <==> exists|i: int|
            0 <= i < level.actors.len() && (#[trigger] level.actors[i]).bbox.overlaps(probe),
        level.collides_with(probe) <==> level.collisions(probe).len() > 0,
{
    broadcast use vstd::seq_lib::group_filter_ensures;

    let hits = level.actors.filter(hit_by(probe));
    if hits.len() > 0 {
        let a = hits[0];
        assert(hit_by(probe)(a));
        assert(hits.contains(a));
        lemma_filter_member(level.actors, hit_by(probe), a);
        let i = choose|i: int| 0 <= i < level.actors.len() && level.actors[i] == a;
        assert(level.actors[i].bbox.overlaps(probe));
        assert(level.bbox.overlaps(probe));
    }
    if exists|i: int|
        0 <= i < level.actors.len() && (#[trigger] level.actors[i]).bbox.overlaps(probe) {
        let i = choose|i: int|
            0 <= i < level.actors.len() && (#[trigger] level.actors[i]).bbox.overlaps(probe);
        assert(hit_by(probe)(level.actors[i]));
        assert(hits.contains(level.actors[i]));
        assert(level.actors[i].bbox.within(level.bbox));
        assert(level.bbox.overlaps(probe));
    }
    if !level.bbox.overlaps(probe) {
        assert(hits =~= Seq::<ActorView>::empty());
    }
}

/// What a query answers with are ground blocks of the level that overlap
/// the probe; in a well-formed level they are well formed and lie inside
/// the level.
pub proof fn lemma_collisions_are_hits(level: LevelView, probe: Aabb)
    ensures
        forall|i: int|
            0 <= i < level.collisions(probe).len() ==> {
                &&& (#[trigger] level.collisions(probe)[i]).bbox.overlaps(probe)
                &&& level.actors.contains(level.collisions(probe)[i])
                &&& level.wf() ==> level.collisions(probe)[i].wf() && level.collisions(
                    probe,
                )[i].bbox.within(level.bbox)
            },
{
    let hits = level.collisions(probe);
    assert forall|i: int| 0 <= i < hits.len() implies {
        &&& (#[trigger] hits[i]).bbox.overlaps(probe)
        &&& level.actors.contains(hits[i])
        &&& level.wf() ==> hits[i].wf() && hits[i].bbox.within(level.bbox)
    } by {
        assert(level.actors.filter(hit_by(probe)).contains(hits[i]));
        lemma_filter_member(level.actors, hit_by(probe), hits[i]);
        let j = choose|j: int| 0 <= j < level.actors.len() && level.actors[j] == hits[i];
        assert(hit_by(probe)(hits[i]));
        if level.wf() {
            assert(level.actors[j].wf());
        }
    }
}

/// Whatever a filter lets through is an element of the sequence.
pub proof fn lemma_filter_member<T>(s: Seq<T>, test: spec_fn(T) -> bool, x: T)
    requires
        s.filter(test).contains(x),
    ensures
        s.contains(x),
        test(x),
    decreases s.len(),
{
    reveal(Seq::filter);
    if s.len() > 0 {
        let rest = s.drop_last().filter(test);
        if rest.contains(x) {
            lemma_filter_member(s.drop_last(), test, x);
            let i = choose|i: int| 0 <= i < s.drop_last().len() && s.drop_last()[i] == x;
            assert(s[i] == x);
        } else {
            let j = choose|j: int| 0 <= j < s.filter(test).len() && s.filter(test)[j] == x;
            assert(test(s.last()));
            assert(s.filter(test) == rest.push(s.last()));
            if j < rest.len() {
                assert(rest[j] == x);
                assert(rest.contains(x));
            }
            assert(s[s.len() - 1] == x);
        }
    }
}

} // verus!
