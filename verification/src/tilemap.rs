//! The level: a grid of tiles, read from a picture in text, and the boxes
//! that its tiles put into the world.

use vstd::prelude::*;
use crate::collider::Collider;
use crate::math::{Vec2, Vec3};

verus! {

/// The side of a tile in units.
pub const TILE_SIZE: i32 = 32;

/// Half the side of a tile.
pub const TILE_HALF: i32 = 16;

/// The largest width and height of a level that is read from text: 2^20
/// tiles.
pub const PREFAB_LIMIT: i32 = 0x10_0000;

/// What a tile is made of.
#[derive(Clone, Copy, Debug, PartialEq, Eq, Structural)]
pub enum TileType {
    Empty,
    Platform,
    Ladder,
    Solid,
    Lava,
}

/// The picture that stands for a tile.
#[derive(Clone, Copy, Debug, PartialEq, Eq, Structural)]
pub enum TileTexture {
    Lava,
    Ladder,
    Edge,
    WallLeft,
    WallMid,
    WallRight,
}

/// A grid of tiles. The tile at column `x` and row `y` is at index
/// `y * width + x`; row zero is the lowest. `position` is the lower left
/// corner of the grid.
#[derive(Debug, PartialEq, Eq)]
pub struct TileMap {
    pub position: Vec3,
    pub width: i32,
    pub height: i32,
    pub tile_size: i32,
    pub tiles: Vec<TileType>,
    pub starting_positions: Vec<Vec2>,
}

/// `a / b` rounded towards zero.
pub open spec fn toward_zero(a: int, b: int) -> int
    recommends
        b > 0,
{
    if a >= 0 {
        a / b
    } else {
        -((-a) / b)
    }
}

/// Whether a character of a level text stands for a tile: line ends and
/// blanks do not.
pub open spec fn is_cell(c: char) -> bool {
    c != '\r' && c != '\n' && c != ' '
}

/// The characters of a level text that stand for tiles, in their order.
pub open spec fn cells_of(text: Seq<char>) -> Seq<char>
    decreases text.len(),
{
    if text.len() == 0 {
        Seq::empty()
    } else if is_cell(text.last()) {
        cells_of(text.drop_last()).push(text.last())
    } else {
        cells_of(text.drop_last())
    }
}

/// The tile that a character of a level text stands for. A place where a
/// player starts is empty, and so is whatever the character is not known.
pub open spec fn tile_of(c: char) -> TileType {
    if c == '^' {
        TileType::Lava
    } else if c == '=' {
        TileType::Platform
    } else if c == '|' {
        TileType::Ladder
    } else if c == '#' {
        TileType::Solid
    } else {
        TileType::Empty
    }
}

/// The lower left corner of a level of `width` by `height` tiles that is
/// centred on the origin: half its extent, less half a unit, to the lower
/// left of it, which on the grid is one unit less than half its extent.
pub open spec fn centered(width: int, height: int) -> Vec3 {
    Vec3 {
        x: (1 - width * TILE_HALF) as i32,
        y: (1 - height * TILE_HALF) as i32,
        z: 1,
    }
}

/// The place of the tile at column `x` and row `y` of a grid at `position`
/// with tiles of side `tile_size`.
pub open spec fn place_of(position: Vec3, tile_size: int, x: int, y: int) -> Vec2 {
    Vec2 { x: (x * tile_size + position.x) as i32, y: (y * tile_size + position.y) as i32 }
}

/// The places where players start according to the first `count` cells of a
/// level text, in the order of the text, which gives the highest row first.
pub open spec fn starts_of(cells: Seq<char>, width: int, height: int, count: int) -> Seq<Vec2>
    decreases count,
{
    if count <= 0 {
        Seq::empty()
    } else {
        let before = starts_of(cells, width, height, count - 1);
        let k = count - 1;
        if cells[k] == 'X' {
            before.push(
                place_of(
                    centered(width, height),
                    TILE_SIZE as int,
                    k % width,
                    height - 1 - k / width,
                ),
            )
        } else {
            before
        }
    }
}

/// Whether a level of `width` by `height` tiles can be read from `text`:
/// the size is within `PREFAB_LIMIT`, and the text has a cell for every
/// tile.
pub open spec fn prefab_fits(text: Seq<char>, width: int, height: int) -> bool {
    &&& 0 <= width <= PREFAB_LIMIT
    &&& 0 <= height <= PREFAB_LIMIT
    &&& width * height <= cells_of(text).len()
}

/// What a grid of tiles holds.
pub struct TileGrid {
    pub position: Vec3,
    pub width: int,
    pub height: int,
    pub tile_size: int,
    pub tiles: Seq<TileType>,
    pub starting_positions: Seq<Vec2>,
}

impl TileGrid {
    /// The grid has as many tiles as its width and height say, and its
    /// tiles have a side.
    pub open spec fn wf(self) -> bool {
        &&& self.width >= 0
        &&& self.height >= 0
        &&& self.tile_size > 0
        &&& self.tiles.len() == self.width * self.height
    }

    /// Column `x` and row `y` are on the grid.
    pub open spec fn on_grid(self, x: int, y: int) -> bool {
        0 <= x < self.width && 0 <= y < self.height
    }

    /// The tile at column `x` and row `y`. Everything off the grid is solid.
    pub open spec fn tile_at(self, x: int, y: int) -> TileType {
        if self.on_grid(x, y) {
            self.tiles[y * self.width + x]
        } else {
            TileType::Solid
        }
    }

    /// The empty grid of `width` by `height` tiles at `position`, with four
    /// places to start at the origin.
    pub open spec fn blank(position: Vec3, width: int, height: int) -> TileGrid {
        TileGrid {
            position,
            width,
            height,
            tile_size: TILE_SIZE as int,
            tiles: Seq::new((width * height) as nat, |i: int| TileType::Empty),
            starting_positions: Seq::new(4, |i: int| Vec2 { x: 0, y: 0 }),
        }
    }

    /// The grid is small and near enough to the origin that every tile has
    /// a representable place: position, width and height in units are
    /// within 2^29.
    pub open spec fn placeable(self) -> bool {
        &&& -0x2000_0000 <= self.position.x <= 0x2000_0000
        &&& -0x2000_0000 <= self.position.y <= 0x2000_0000
        &&& self.width * self.tile_size <= 0x2000_0000
        &&& self.height * self.tile_size <= 0x2000_0000
    }

    /// The place of the tile at `index`.
    pub open spec fn place(self, index: int) -> Vec2 {
        place_of(self.position, self.tile_size, index % self.width, index / self.width)
    }

    /// The picture of the solid tile at `index`, which depends on its
    /// neighbours in the row: a wall that goes on to the right of a solid
    /// tile is its middle, or its right end where nothing solid follows; a
    /// wall that begins is its left end, or its middle where nothing solid
    /// follows. Whether a wall begins after a solid tile at the end of the
    /// row before is decided as if rows were 32 tiles long.
    pub open spec fn wall_texture(self, index: int) -> TileTexture {
        let goes_on = index > 0 && (index - 1) / self.width == index / self.width
            && self.tiles[index - 1] == TileType::Solid;
        let ends_row = index % self.width == self.width - 1;
        if goes_on {
            if !ends_row && self.tiles[index + 1] == TileType::Solid {
                TileTexture::WallMid
            } else {
                TileTexture::WallRight
            }
        } else if index == 0 || (index - 1) / 32 != index / 32 || self.tiles[index - 1]
            != TileType::Solid {
            if ends_row || self.tiles[index + 1] != TileType::Solid {
                TileTexture::WallMid
            } else {
                TileTexture::WallLeft
            }
        } else {
            TileTexture::WallMid
        }
    }

    /// The picture of the tile at `index`; an empty tile has none.
    pub open spec fn texture(self, index: int) -> Option<TileTexture> {
        match self.tiles[index] {
            TileType::Empty => None,
            TileType::Lava => Some(TileTexture::Lava),
            TileType::Ladder => Some(TileTexture::Ladder),
            TileType::Platform => Some(TileTexture::Edge),
            TileType::Solid => Some(self.wall_texture(index)),
        }
    }

    /// The box that the tile at `index` puts into the world. Solid tiles
    /// and lava are solid boxes of the size of a tile; a platform is a box
    /// one unit high either side of the lower edge of its tile, centred on
    /// the corner of the tile, that is open below; ladders and empty tiles
    /// have no box.
    pub open spec fn collider(self, index: int) -> Option<Collider> {
        let place = self.place(index);
        let corner = Vec3 { x: place.x, y: place.y, z: 0 };
        let half = Vec2 { x: TILE_HALF, y: TILE_HALF };
        match self.tiles[index] {
            TileType::Empty => None,
            TileType::Ladder => None,
            TileType::Platform => Some(
                Collider {
                    center: place,
                    half: Vec2 { x: TILE_HALF, y: 1 },
                    top: true,
                    bottom: false,
                    left: true,
                    right: true,
                },
            ),
            TileType::Lava => Some(Collider::at_corner(corner, half)),
            TileType::Solid => Some(Collider::at_corner(corner, half)),
        }
    }

    /// The boxes of the first `count` tiles, in the order of the tiles.
    pub open spec fn colliders(self, count: int) -> Seq<Collider>
        decreases count,
    {
        if count <= 0 {
            Seq::empty()
        } else {
            match self.collider(count - 1) {
                Some(collider) => self.colliders(count - 1).push(collider),
                None => self.colliders(count - 1),
            }
        }
    }

    /// The level of `width` by `height` tiles that `text` shows, centred on
    /// the origin. The text gives the rows from the highest to the lowest,
    /// each from left to right.
    pub open spec fn prefab(text: Seq<char>, width: int, height: int) -> TileGrid {
        TileGrid {
            position: centered(width, height),
            width,
            height,
            tile_size: TILE_SIZE as int,
            tiles: Seq::new(
                (width * height) as nat,
                |i: int| tile_of(cells_of(text)[(height - 1 - i / width) * width + i % width]),
            ),
            starting_positions: starts_of(cells_of(text), width, height, width * height),
        }
    }
}

impl View for TileMap {
    type V = TileGrid;

    open spec fn view(&self) -> TileGrid {
        TileGrid {
            position: self.position,
            width: self.width as int,
            height: self.height as int,
            tile_size: self.tile_size as int,
            tiles: self.tiles@,
            starting_positions: self.starting_positions@,
        }
    }
}

/// On a grid `width` wide, the tile at `index` is in column
/// `index % width` of row `index / width`, and that row is on a grid that
/// holds the index.
pub proof fn lemma_index_on_grid(index: int, width: int, height: int)
    requires
        0 <= index < width * height,
        width >= 0,
        height >= 0,
    ensures
        width > 0,
        0 <= index % width < width,
        0 <= index / width < height,
        index == (index / width) * width + index % width,
        index % width != width - 1 ==> index + 1 < width * height,
        0 <= (height - 1 - index / width) * width + index % width < width * height,
{
    assert(width > 0) by (nonlinear_arith)
        requires
            0 <= index < width * height,
            width >= 0,
    ;
    let row = index / width;
    let column = index % width;
    vstd::arithmetic::div_mod::lemma_fundamental_div_mod(index, width);
    vstd::arithmetic::div_mod::lemma_mod_bound(index, width);
    assert(width * row == row * width) by (nonlinear_arith);
    assert(0 <= row < height) by (nonlinear_arith)
        requires
            index == row * width + column,
            0 <= column < width,
            0 <= index < width * height,
    ;
    assert((row + 1) * width <= height * width) by (nonlinear_arith)
        requires
            row + 1 <= height,
            width > 0,
    ;
    assert((row + 1) * width == row * width + width) by (nonlinear_arith);
    assert(height * width == width * height) by (nonlinear_arith);
    let mirrored = height - 1 - row;
    assert(0 <= mirrored * width && (mirrored + 1) * width <= height * width
        && (mirrored + 1) * width == mirrored * width + width) by (nonlinear_arith)
        requires
            0 <= mirrored < height,
            width > 0,
    ;
}

/// Column `x` of row `y` is the tile at index `y * width + x`.
pub proof fn lemma_grid_index(x: int, y: int, width: int, height: int)
    by (nonlinear_arith)
    requires
        0 <= x < width,
        0 <= y < height,
    ensures
        0 <= y * width + x < width * height,
        (y * width + x) / width == y,
        (y * width + x) % width == x,
{
}

/// A level that is read from text has at column `x` of row `y` the tile
/// that the text shows at column `x` of its line `height - 1 - y`: the
/// first line of the text is the highest row.
pub proof fn lemma_prefab_tile(text: Seq<char>, width: int, height: int, x: int, y: int)
    requires
        0 <= x < width,
        0 <= y < height,
    ensures
        TileGrid::prefab(text, width, height).wf(),
        TileGrid::prefab(text, width, height).tile_at(x, y) == tile_of(
            cells_of(text)[(height - 1 - y) * width + x],
        ),
{
    lemma_grid_index(x, y, width, height);
}

/// Finds the tile that a character of a level text stands for.
fn tile_for(c: char) -> (r: TileType)
    ensures
        r == tile_of(c),
{
    if c == '^' {
        TileType::Lava
    } else if c == '=' {
        TileType::Platform
    } else if c == '|' {
        TileType::Ladder
    } else if c == '#' {
        TileType::Solid
    } else {
        TileType::Empty
    }
}

/// Picks the characters of a level text that stand for tiles.
fn cells(text: &str) -> (r: Vec<char>)
    ensures
        r@ == cells_of(text@),
{
    let mut kept: Vec<char> = Vec::new();
    let count = text.unicode_len();
    let mut i: usize = 0;
    while i < count
        invariant
            count == text@.len(),
            i <= count,
            kept@ == cells_of(text@.take(i as int)),
        decreases count - i,
    {
        let c = text.get_char(i);
        proof {
            assert(text@.take(i + 1).drop_last() == text@.take(i as int));
            assert(text@.take(i + 1).last() == c);
        }
        if c != '\r' && c != '\n' && c != ' ' {
            kept.push(c);
        }
        i = i + 1;
    }
    proof {
        assert(text@.take(count as int) == text@);
    }
    kept
}

/// Makes `count` empty tiles.
fn empty_tiles(count: usize) -> (r: Vec<TileType>)
    ensures
        r@ == Seq::new(count as nat, |i: int| TileType::Empty),
{
    let mut tiles: Vec<TileType> = Vec::new();
    let mut i: usize = 0;
    while i < count
        invariant
            i <= count,
            tiles@.len() == i,
            forall|k: int| 0 <= k < i ==> tiles@[k] == TileType::Empty,
        decreases count - i,
    {
        tiles.push(TileType::Empty);
        i = i + 1;
    }
    proof {
        assert(tiles@ =~= Seq::new(count as nat, |i: int| TileType::Empty));
    }
    tiles
}

/// Makes the four places to start that a grid has before any are known.
fn no_starts() -> (r: Vec<Vec2>)
    ensures
        r@ == Seq::new(4, |i: int| Vec2 { x: 0, y: 0 }),
{
    let mut starts: Vec<Vec2> = Vec::new();
    starts.push(Vec2::zero());
    starts.push(Vec2::zero());
    starts.push(Vec2::zero());
    starts.push(Vec2::zero());
    proof {
        assert(starts@ =~= Seq::new(4, |i: int| Vec2 { x: 0, y: 0 }));
    }
    starts
}

impl Default for TileMap {
    /// The grid without tiles at the origin.
    fn default() -> (r: TileMap)
        ensures
            r@ == TileGrid::blank(Vec3 { x: 0, y: 0, z: 0 }, 0, 0),
    {
        let tiles = empty_tiles(0);
        TileMap {
            position: Vec3::zero(),
            width: 0,
            height: 0,
            tile_size: TILE_SIZE,
            tiles,
            starting_positions: no_starts(),
        }
    }
}

impl TileMap {
    /// An empty grid of `width` by `height` tiles at the origin.
    pub fn new(width: i32, height: i32) -> (r: TileMap)
        requires
            width >= 0,
            height >= 0,
            width * height <= usize::MAX,
        ensures
            r@ == TileGrid::blank(Vec3 { x: 0, y: 0, z: 0 }, width as int, height as int),
            r@.wf(),
    {
        TileMap::from_position(Vec3::zero(), width, height)
    }

    /// An empty grid of `width` by `height` tiles whose lower left corner
    /// is at `position`.
    pub fn from_position(position: Vec3, width: i32, height: i32) -> (r: TileMap)
        requires
            width >= 0,
            height >= 0,
            width * height <= usize::MAX,
        ensures
            r@ == TileGrid::blank(position, width as int, height as int),
            r@.wf(),
    {
        let tiles = empty_tiles((width as usize) * (height as usize));
        TileMap {
            position,
            width,
            height,
            tile_size: TILE_SIZE,
            tiles,
            starting_positions: no_starts(),
        }
    }

    /// Whether a level of the width `prefab.1` and the height `prefab.2`
    /// can be read from the text `prefab.0`.
    pub fn fits_prefab(prefab: (&str, i32, i32)) -> (r: bool)
        ensures
            r == prefab_fits(prefab.0@, prefab.1 as int, prefab.2 as int),
    {
        let (text, width, height) = prefab;
        if width < 0 || width > PREFAB_LIMIT || height < 0 || height > PREFAB_LIMIT {
            return false;
        }
        let given = cells(text);
        assert(width * height <= 0x100_0000_0000) by (nonlinear_arith)
            requires
                0 <= width <= 0x10_0000,
                0 <= height <= 0x10_0000,
        ;
        (width as u64) * (height as u64) <= given.len() as u64
    }

    /// Reads a level from text: `prefab.0` shows its rows from the highest
    /// to the lowest, `prefab.1` is its width and `prefab.2` its height.
    ///
    /// In the text `-` is an empty tile, `^` lava, `=` a platform, `|` a
    /// ladder, `#` a solid tile and `X` an empty tile where a player
    /// starts; any other character but a blank or a line end is an empty
    /// tile too.
    pub fn from_prefab(prefab: (&str, i32, i32)) -> (r: TileMap)
        requires
            prefab_fits(prefab.0@, prefab.1 as int, prefab.2 as int),
        ensures
            r@ == TileGrid::prefab(prefab.0@, prefab.1 as int, prefab.2 as int),
            r@.wf(),
            r@.placeable(),
    {
        let (text, width, height) = prefab;
        let given = cells(text);
        let position = Vec3 { x: 1 - width * TILE_HALF, y: 1 - height * TILE_HALF, z: 1 };
        assert(width * TILE_SIZE <= 0x2000_0000 && height * TILE_SIZE <= 0x2000_0000);
        let w: usize = width as usize;
        let h: usize = height as usize;
        let available: usize = given.len();
        assert(w * h == width * height) by (nonlinear_arith)
            requires
                w == width,
                h == height,
        ;
        assert(w * h <= available);
        let count: usize = w * h;
        let mut tiles: Vec<TileType> = Vec::new();
        let mut i: usize = 0;
        while i < count
            invariant
                count == w * h,
                w == width,
                h == height,
                count <= given@.len(),
                i <= count,
                tiles@.len() == i,
                width >= 0,
                height >= 0,
                forall|k: int|
                    #![trigger tiles@[k]]
                    0 <= k < i ==> tiles@[k] == tile_of(
                        given@[(height - 1 - k / (width as int)) * width + k % (width as int)],
                    ),
            decreases count - i,
        {
            proof {
                lemma_index_on_grid(i as int, width as int, height as int);
            }
            let source: usize = (h - 1 - i / w) * w + i % w;
            tiles.push(tile_for(given[source]));
            i = i + 1;
        }
        let mut starting_positions: Vec<Vec2> = Vec::new();
        let mut k: usize = 0;
        while k < count
            invariant
                count == w * h,
                w == width,
                h == height,
                0 <= width <= PREFAB_LIMIT,
                0 <= height <= PREFAB_LIMIT,
                count <= given@.len(),
                k <= count,
                position == centered(width as int, height as int),
                starting_positions@ == starts_of(given@, width as int, height as int, k as int),
            decreases count - k,
        {
            proof {
                lemma_index_on_grid(k as int, width as int, height as int);
            }
            if given[k] == 'X' {
                let x: i32 = (k % w) as i32;
                let y: i32 = height - 1 - (k / w) as i32;
                starting_positions.push(
                    Vec2 { x: x * TILE_SIZE + position.x, y: y * TILE_SIZE + position.y },
                );
            }
            k = k + 1;
        }
        proof {
            assert(tiles@ =~= TileGrid::prefab(text@, width as int, height as int).tiles);
        }
        TileMap { position, width, height, tile_size: TILE_SIZE, tiles, starting_positions }
    }

    /// The column of the tile that holds the place `x`, rounded towards
    /// the column of the corner of the grid.
    pub fn tile_x_at_point(&self, x: i32) -> (r: i32)
        requires
            self.tile_size > 0,
            i32::MIN <= x - self.position.x <= i32::MAX,
        ensures
            r == toward_zero(x - self.position.x, self.tile_size as int),
    {
        TileMap::whole_tiles(x - self.position.x, self.tile_size)
    }

    /// The row of the tile that holds the place `y`, rounded towards the
    /// row of the corner of the grid.
    pub fn tile_y_at_point(&self, y: i32) -> (r: i32)
        requires
            self.tile_size > 0,
            i32::MIN <= y - self.position.y <= i32::MAX,
        ensures
            r == toward_zero(y - self.position.y, self.tile_size as int),
    {
        TileMap::whole_tiles(y - self.position.y, self.tile_size)
    }

    /// How many whole tiles of side `tile_size` make up `distance`.
    fn whole_tiles(distance: i32, tile_size: i32) -> (r: i32)
        requires
            tile_size > 0,
        ensures
            r == toward_zero(distance as int, tile_size as int),
    {
        if distance >= 0 {
            distance / tile_size
        } else {
            let back: i64 = -(distance as i64);
            let tiles: i64 = back / (tile_size as i64);
            assert(0 <= tiles <= back) by (nonlinear_arith)
                requires
                    back >= 0,
                    tile_size > 0,
                    tiles == back as int / tile_size as int,
            ;
            (-tiles) as i32
        }
    }

    /// The column and row of the tile that holds `point`.
    pub fn tile_at_point(&self, point: Vec2) -> (r: Vec2)
        requires
            self.tile_size > 0,
            i32::MIN <= point.x - self.position.x <= i32::MAX,
            i32::MIN <= point.y - self.position.y <= i32::MAX,
        ensures
            r.x == toward_zero(point.x - self.position.x, self.tile_size as int),
            r.y == toward_zero(point.y - self.position.y, self.tile_size as int),
    {
        Vec2 { x: self.tile_x_at_point(point.x), y: self.tile_y_at_point(point.y) }
    }

    /// The place of the lower left corner of the tile at column `tile_x`
    /// and row `tile_y`.
    pub fn tile_position(&self, tile_x: i32, tile_y: i32) -> (r: Vec2)
        requires
            i32::MIN <= tile_x * self.tile_size + self.position.x <= i32::MAX,
            i32::MIN <= tile_y * self.tile_size + self.position.y <= i32::MAX,
        ensures
            r == place_of(self.position, self.tile_size as int, tile_x as int, tile_y as int),
    {
        proof {
            crate::math::lemma_product_bound(
                tile_x as int,
                self.tile_size as int,
                0x8000_0000,
                0x8000_0000,
            );
            crate::math::lemma_product_bound(
                tile_y as int,
                self.tile_size as int,
                0x8000_0000,
                0x8000_0000,
            );
        }
        let x: i64 = (tile_x as i64) * (self.tile_size as i64) + self.position.x as i64;
        let y: i64 = (tile_y as i64) * (self.tile_size as i64) + self.position.y as i64;
        Vec2 { x: x as i32, y: y as i32 }
    }

    /// The index of the tile at column `x` and row `y`.
    pub fn tile_index(&self, x: i32, y: i32) -> (r: usize)
        requires
            0 <= y * self.width + x <= usize::MAX,
        ensures
            r == y * self.width + x,
    {
        proof {
            crate::math::lemma_product_bound(
                y as int,
                self.width as int,
                0x8000_0000,
                0x8000_0000,
            );
        }
        let index: i64 = (y as i64) * (self.width as i64) + x as i64;
        index as usize
    }

    /// The tile at column `x` and row `y`; off the grid everything is
    /// solid.
    pub fn tile(&self, x: i32, y: i32) -> (r: TileType)
        requires
            self@.wf(),
        ensures
            r == self@.tile_at(x as int, y as int),
    {
        if x < 0 || x >= self.width || y < 0 || y >= self.height {
            TileType::Solid
        } else {
            let count: usize = self.tiles.len();
            proof {
                lemma_grid_index(x as int, y as int, self.width as int, self.height as int);
                assert(y * self.width + x < count);
            }
            self.tiles[self.tile_index(x, y)]
        }
    }

    /// Whether nothing can pass the tile at column `x` and row `y`: it is
    /// solid or lava.
    pub fn is_obstacle(&self, x: i32, y: i32) -> (r: bool)
        requires
            self@.wf(),
        ensures
            r == (self@.tile_at(x as int, y as int) == TileType::Solid || self@.tile_at(
                x as int,
                y as int,
            ) == TileType::Lava),
    {
        let tile = self.tile(x, y);
        tile == TileType::Solid || tile == TileType::Lava
    }

    pub fn is_platform(&self, x: i32, y: i32) -> (r: bool)
        requires
            self@.wf(),
        ensures
            r == (self@.tile_at(x as int, y as int) == TileType::Platform),
    {
        self.tile(x, y) == TileType::Platform
    }

    pub fn is_ladder(&self, x: i32, y: i32) -> (r: bool)
        requires
            self@.wf(),
        ensures
            r == (self@.tile_at(x as int, y as int) == TileType::Ladder),
    {
        self.tile(x, y) == TileType::Ladder
    }

    /// Whether the tile at column `x` and row `y` is on the grid and solid.
    pub fn is_ground(&self, x: i32, y: i32) -> (r: bool)
        requires
            self@.wf(),
        ensures
            r == (self@.on_grid(x as int, y as int) && self@.tile_at(x as int, y as int)
                == TileType::Solid),
    {
        if x < 0 || x >= self.width || y < 0 || y >= self.height {
            false
        } else {
            self.tile(x, y) == TileType::Solid
        }
    }

    pub fn is_empty(&self, x: i32, y: i32) -> (r: bool)
        requires
            self@.wf(),
        ensures
            r == (self@.tile_at(x as int, y as int) == TileType::Empty),
    {
        self.tile(x, y) == TileType::Empty
    }
}

impl TileTexture {
    /// How much the picture is enlarged when it is drawn: lava is drawn as
    /// it is, everything else at twice its size.
    pub fn sprite_scale(&self) -> (r: i32)
        ensures
            r == (if *self == TileTexture::Lava { 1i32 } else { 2i32 }),
    {
        match self {
            TileTexture::Lava => 1,
            _ => 2,
        }
    }
}

impl TileMap {
    /// Whether the grid has as many tiles as its width and height say and
    /// every tile has a representable place.
    pub fn is_ready(&self) -> (r: bool)
        ensures
            r == (self@.wf() && self@.placeable()),
    {
        if self.width < 0 || self.height < 0 || self.tile_size <= 0 {
            return false;
        }
        let limit: i64 = 0x2000_0000;
        let count: u64 = self.tiles.len() as u64;
        proof {
            crate::math::lemma_product_bound(
                self.width as int,
                self.height as int,
                0x8000_0000,
                0x8000_0000,
            );
            crate::math::lemma_product_bound(
                self.width as int,
                self.tile_size as int,
                0x8000_0000,
                0x8000_0000,
            );
            crate::math::lemma_product_bound(
                self.height as int,
                self.tile_size as int,
                0x8000_0000,
                0x8000_0000,
            );
        }
        let tiles: i64 = (self.width as i64) * (self.height as i64);
        if tiles < 0 || tiles as u64 != count {
            return false;
        }
        let x: i64 = self.position.x as i64;
        let y: i64 = self.position.y as i64;
        let across: i64 = (self.width as i64) * (self.tile_size as i64);
        let up: i64 = (self.height as i64) * (self.tile_size as i64);
        -limit <= x && x <= limit && -limit <= y && y <= limit && across <= limit && up <= limit
    }

    /// The place of the tile at `index`.
    fn place_at(&self, index: usize) -> (r: Vec2)
        requires
            self@.wf(),
            self@.placeable(),
            index < self.tiles@.len(),
        ensures
            r == self@.place(index as int),
            -0x2000_0000 <= r.x <= 0x4000_0000,
            -0x2000_0000 <= r.y <= 0x4000_0000,
    {
        proof {
            lemma_index_on_grid(index as int, self.width as int, self.height as int);
            let column = index as int % self.width as int;
            let row = index as int / self.width as int;
            let side = self.tile_size as int;
            assert(0 <= column * side <= self.width * side && 0 <= row * side <= self.height
                * side) by (nonlinear_arith)
                requires
                    0 <= column < self.width,
                    0 <= row < self.height,
                    side > 0,
            ;
        }
        let width: usize = self.width as usize;
        self.tile_position((index % width) as i32, (index / width) as i32)
    }

    /// Chooses the picture of the solid tile at `index`.
    fn wall_texture_at(&self, index: usize) -> (r: TileTexture)
        requires
            self@.wf(),
            index < self.tiles@.len(),
        ensures
            r == self@.wall_texture(index as int),
    {
        proof {
            lemma_index_on_grid(index as int, self.width as int, self.height as int);
        }
        let width: usize = self.width as usize;
        let count: usize = self.tiles.len();
        let ends_row: bool = index % width == width - 1;
        assert(!ends_row ==> index + 1 < count);
        let goes_on: bool = index > 0 && (index - 1) / width == index / width
            && self.tiles[index - 1] == TileType::Solid;
        if goes_on {
            if !ends_row && self.tiles[index + 1] == TileType::Solid {
                TileTexture::WallMid
            } else {
                TileTexture::WallRight
            }
        } else if index == 0 || (index - 1) / 32 != index / 32 || self.tiles[index - 1]
            != TileType::Solid {
            if ends_row || self.tiles[index + 1] != TileType::Solid {
                TileTexture::WallMid
            } else {
                TileTexture::WallLeft
            }
        } else {
            TileTexture::WallMid
        }
    }

    /// The picture of the tile at `index`, if it has one.
    pub fn texture_at(&self, index: usize) -> (r: Option<TileTexture>)
        requires
            self@.wf(),
            index < self.tiles@.len(),
        ensures
            r == self@.texture(index as int),
    {
        match self.tiles[index] {
            TileType::Empty => None,
            TileType::Lava => Some(TileTexture::Lava),
            TileType::Ladder => Some(TileTexture::Ladder),
            TileType::Platform => Some(TileTexture::Edge),
            TileType::Solid => Some(self.wall_texture_at(index)),
        }
    }

    /// The box that the tile at `index` puts into the world, if it puts
    /// one.
    pub fn collider_at(&self, index: usize) -> (r: Option<Collider>)
        requires
            self@.wf(),
            self@.placeable(),
            index < self.tiles@.len(),
        ensures
            r == self@.collider(index as int),
            r matches Some(collider) ==> collider.wf() && !collider.degenerate(),
    {
        let place = self.place_at(index);
        let half = Vec2 { x: TILE_HALF, y: TILE_HALF };
        match self.tiles[index] {
            TileType::Empty => None,
            TileType::Ladder => None,
            TileType::Platform => Some(
                Collider {
                    center: place,
                    half: Vec2 { x: TILE_HALF, y: 1 },
                    top: true,
                    bottom: false,
                    left: true,
                    right: true,
                },
            ),
            TileType::Lava => Some(
                Collider::from_position(Vec3 { x: place.x, y: place.y, z: 0 }, half),
            ),
            TileType::Solid => Some(
                Collider::from_position(Vec3 { x: place.x, y: place.y, z: 0 }, half),
            ),
        }
    }

    /// The boxes that the tiles put into the world, in the order of the
    /// tiles.
    pub fn colliders(&self) -> (r: Vec<Collider>)
        requires
            self@.wf(),
            self@.placeable(),
        ensures
            r@ == self@.colliders(self.tiles@.len() as int),
            forall|i: int| 0 <= i < r@.len() ==> (#[trigger] r@[i]).wf(),
    {
        let mut found: Vec<Collider> = Vec::new();
        let mut i: usize = 0;
        while i < self.tiles.len()
            invariant
                self@.wf(),
                self@.placeable(),
                i <= self.tiles@.len(),
                found@ == self@.colliders(i as int),
                forall|k: int| 0 <= k < found@.len() ==> (#[trigger] found@[k]).wf(),
            decreases self.tiles@.len() - i,
        {
            if let Some(collider) = self.collider_at(i) {
                found.push(collider);
            }
            i = i + 1;
        }
        found
    }
}

/// The level that the game is played on, 48 tiles wide and 16 high, as text.
pub const DEFAULT_MAP: &'static str = "
------------------------------------------------
------------------------------------------------
------------------------------------------------
------------------------------------------------
-------------#####------------------------------
---------------------====---------==------------
-----------------------------###----------------
---------------#----##----#-------==------------
---------------#----------#---------------------
---------------####====####----#--==------------
--------------X----------------#----------------
----------###########################-----------
------------------------------------------------
----===---------------------------------===-----
------------------------------------------------
^^^^^^^^^^^^^^^^^^^^^^^^^^^^^^^^^^^^^^^^^^^^^^^^
";

/// The width of the level that the game is played on.
pub const DEFAULT_MAP_WIDTH: i32 = 48;

/// The height of the level that the game is played on.
pub const DEFAULT_MAP_HEIGHT: i32 = 16;

/// The level that `build_default_map` builds: the one that `DEFAULT_MAP`
/// shows, or an empty grid of its size at the origin should the text not
/// have a cell for every tile.
pub open spec fn default_grid() -> TileGrid {
    if prefab_fits(DEFAULT_MAP@, DEFAULT_MAP_WIDTH as int, DEFAULT_MAP_HEIGHT as int) {
        TileGrid::prefab(DEFAULT_MAP@, DEFAULT_MAP_WIDTH as int, DEFAULT_MAP_HEIGHT as int)
    } else {
        TileGrid::blank(
            Vec3 { x: 0, y: 0, z: 0 },
            DEFAULT_MAP_WIDTH as int,
            DEFAULT_MAP_HEIGHT as int,
        )
    }
}

/// Builds the level that the game is played on.
pub fn build_default_map() -> (r: TileMap)
    ensures
        r@ == default_grid(),
        r@.wf(),
{
    if TileMap::fits_prefab((DEFAULT_MAP, DEFAULT_MAP_WIDTH, DEFAULT_MAP_HEIGHT)) {
        TileMap::from_prefab((DEFAULT_MAP, DEFAULT_MAP_WIDTH, DEFAULT_MAP_HEIGHT))
    } else {
        TileMap::new(DEFAULT_MAP_WIDTH, DEFAULT_MAP_HEIGHT)
    }
}

/// The place in units of a place given in tiles.
pub fn normalize_pos(pos: Vec2) -> (r: Vec2)
    requires
        i32::MIN <= pos.x * TILE_SIZE <= i32::MAX,
        i32::MIN <= pos.y * TILE_SIZE <= i32::MAX,
    ensures
        r == (Vec2 { x: (pos.x * TILE_SIZE) as i32, y: (pos.y * TILE_SIZE) as i32 }),
{
    Vec2 { x: pos.x * TILE_SIZE, y: pos.y * TILE_SIZE }
}

} // verus!
