use vstd::prelude::*;

verus! {

/// Number of values a channel can take.
pub const CHANNEL: u32 = 256;

/// Tiles per row of the canvas; the canvas is `TILES_PER_ROW` x `TILES_PER_ROW` tiles.
pub const TILES_PER_ROW: u32 = 16;

/// Width and height of the canvas in pixels.
pub const CANVAS_SIDE: u32 = 4096;

/// An exact 24-bit color, one byte per channel.
#[derive(Clone, Copy, Debug, PartialEq, Eq, Structural, Hash, PartialOrd, Ord)]
pub struct HPixel {
    pub r: u8,
    pub g: u8,
    pub b: u8,
}

impl HPixel {
    /// The canonical integer encoding `r + g*256 + b*65536`.
    pub open spec fn packed(self) -> int {
        self.r as int + self.g as int * 256 + self.b as int * 65536
    }

    /// The color whose channels are the three low bytes of `n`.
    pub open spec fn of_packed(n: int) -> HPixel {
        HPixel { r: (n % 256) as u8, g: ((n / 256) % 256) as u8, b: ((n / 65536) % 256) as u8 }
    }

    /// Tile column chosen by the blue channel.
    pub open spec fn tile_col(self) -> int {
        self.b as int % 16
    }

    /// Tile row chosen by the blue channel.
    pub open spec fn tile_row(self) -> int {
        self.b as int / 16
    }

    /// Horizontal pixel position: red is the offset inside the tile.
    pub open spec fn coord_x(self) -> int {
        self.r as int + self.tile_col() * 256
    }

    /// Vertical pixel position: green is the offset inside the tile.
    pub open spec fn coord_y(self) -> int {
        self.g as int + self.tile_row() * 256
    }

    /// The pixel at which this color is drawn.
    pub open spec fn coordinate(self) -> (u32, u32) {
        (self.coord_x() as u32, self.coord_y() as u32)
    }

    /// The color drawn at pixel `(x, y)`.
    pub open spec fn at_coordinate(x: int, y: int) -> HPixel {
        HPixel { r: (x % 256) as u8, g: (y % 256) as u8, b: (x / 256 + (y / 256) * 16) as u8 }
    }

    /// Decodes the three low bytes of `color_packed`; higher bits are ignored.
    pub fn from_packed(color_packed: u32) -> (c: HPixel)
        ensures
            c == HPixel::of_packed(color_packed as int),
    {
        HPixel {
            r: (color_packed % 256) as u8,
            g: ((color_packed / 256) % 256) as u8,
            b: ((color_packed / 65536) % 256) as u8,
        }
    }

    pub fn new(r: u8, g: u8, b: u8) -> (c: HPixel)
        ensures
            c == (HPixel { r, g, b }),
    {
        HPixel { r, g, b }
    }

    /// The canonical 24-bit encoding of this color.
    pub fn to_packed(&self) -> (n: u32)
        ensures
            n as int == self.packed(),
            n < 0x1000000,
    {
        self.r as u32 + self.g as u32 * 256 + self.b as u32 * 65536
    }
}

/// Remainder and quotient of `l` by `r`.
pub fn mod_div(l: u32, r: u32) -> (res: (u32, u32))
    requires
        r > 0,
    ensures
        res == (l % r, l / r),
{
    (l % r, l / r)
}

/// Remainder of `l` by `rd` and quotient of `l` by `rm`.
pub fn mod_div_s(l: u32, rd: u32, rm: u32) -> (res: (u32, u32))
    requires
        rd > 0,
        rm > 0,
    ensures
        res == (l % rd, l / rm),
{
    (l % rd, l / rm)
}

/// The pixel at which `col` is drawn: the blue channel picks one of the
/// 16x16 tiles, red and green the position inside it.
pub fn coordify(col: HPixel) -> (res: (u32, u32))
    ensures
        res == col.coordinate(),
        res.0 < CANVAS_SIDE,
        res.1 < CANVAS_SIDE,
{
    let (w, h) = mod_div(col.b as u32, TILES_PER_ROW);
    (col.r as u32 + w * CHANNEL, col.g as u32 + h * CHANNEL)
}

/// Decoding the encoding of a 24-bit integer gives the integer back.
pub proof fn lemma_pack_of_unpack(n: int)
    requires
        0 <= n < 0x1000000,
    ensures
        HPixel::of_packed(n).packed() == n,
{
}

/// Encoding a color and decoding the result gives the color back.
pub proof fn lemma_unpack_of_pack(c: HPixel)
    ensures
        HPixel::of_packed(c.packed()) == c,
{
}

/// Distinct colors are drawn at distinct pixels.
pub proof fn lemma_coordinate_injective(c1: HPixel, c2: HPixel)
    requires
        c1 != c2,
    ensures
        c1.coordinate() != c2.coordinate(),
{
}

/// Every pixel of the canvas is the coordinate of exactly one color.
pub proof fn lemma_coordinate_onto(x: int, y: int)
    requires
        0 <= x < CANVAS_SIDE,
        0 <= y < CANVAS_SIDE,
    ensures
        HPixel::at_coordinate(x, y).coordinate() == (x as u32, y as u32),
        forall|c: HPixel| #[trigger] c.coordinate() == (x as u32, y as u32) ==> c
            == HPixel::at_coordinate(x, y),
{
}

/// Raising blue by one, from a value that does not end a tile row, moves a
/// color one tile to the right: same tile row, same position inside the tile.
pub proof fn lemma_tile_locality(c1: HPixel, c2: HPixel)
    requires
        c1.r == c2.r,
        c1.g == c2.g,
        c2.b == c1.b + 1,
        c1.b % 16 != 15,
    ensures
        c2.tile_col() == c1.tile_col() + 1,
        c2.tile_row() == c1.tile_row(),
        c2.coord_x() == c1.coord_x() + 256,
        c2.coord_y() == c1.coord_y(),
{
}

} // verus!
