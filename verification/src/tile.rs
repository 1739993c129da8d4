//! The tile: four edge flags, their 4-bit code, the tile's symmetries, and the
//! tile as text and as a drawing.

use crate::drawing::drawable;
use crate::drawing::edge_path;
use crate::drawing::filled_path;
use crate::drawing::frame;
use crate::drawing::framed;
use crate::drawing::triangle;
use crate::vector::data_close;
use crate::vector::data_line_by;
use crate::vector::data_move_to;
use crate::vector::data_new;
use crate::vector::data_strokes;
use crate::vector::document_markup;
use crate::vector::group_add_path;
use crate::vector::group_markup;
use crate::vector::group_new;
use crate::vector::Markup;
use svg::node::element::Group;
use svg::Document;
use vstd::prelude::*;
use vstd::string::StringExecFns;

verus! {

/// One edge of a tile, seen as a bit position in the tile's code.
#[derive(Clone, Copy, Debug, PartialEq, Eq, Structural)]
pub enum PosBit {
    TOP,
    LEFT,
    BOTTOM,
    RIGHT,
}

impl PosBit {
    /// The weight of this edge's bit: 1, 2, 4 or 8.
    pub open spec fn weight(self) -> u8 {
        match self {
            PosBit::TOP => 1,
            PosBit::LEFT => 2,
            PosBit::BOTTOM => 4,
            PosBit::RIGHT => 8,
        }
    }

    /// Whether this edge's bit is set in `v`, whatever the other bits of `v` are.
    pub open spec fn set_in(self, v: u8) -> bool {
        match self {
            PosBit::TOP => v % 2 == 1,
            PosBit::LEFT => (v / 2) % 2 == 1,
            PosBit::BOTTOM => (v / 4) % 2 == 1,
            PosBit::RIGHT => (v / 8) % 2 == 1,
        }
    }

    /// The mask that selects this edge's bit.
    pub fn value(&self) -> (mask: u8)
        ensures
            mask == self.weight(),
    {
        match *self {
            PosBit::TOP => {
                assert(0b0001u8 << 0 == 1) by (bit_vector);
                0b0001 << 0
            },
            PosBit::LEFT => {
                assert(0b0001u8 << 1 == 2) by (bit_vector);
                0b0001 << 1
            },
            PosBit::BOTTOM => {
                assert(0b0001u8 << 2 == 4) by (bit_vector);
                0b0001 << 2
            },
            PosBit::RIGHT => {
                assert(0b0001u8 << 3 == 8) by (bit_vector);
                0b0001 << 3
            },
        }
    }

    /// Tests this edge's bit in `v`; bits above the fourth are ignored.
    pub fn bit_on(&self, v: u8) -> (on: bool)
        ensures
            on == self.set_in(v),
    {
        match *self {
            PosBit::TOP => {
                assert(((v >> 0) & 1 == 1) == (v % 2 == 1)) by (bit_vector);
                v >> 0 & 1 == 1
            },
            PosBit::LEFT => {
                assert(((v >> 1) & 1 == 1) == ((v / 2) % 2 == 1)) by (bit_vector);
                v >> 1 & 1 == 1
            },
            PosBit::BOTTOM => {
                assert(((v >> 2) & 1 == 1) == ((v / 4) % 2 == 1)) by (bit_vector);
                v >> 2 & 1 == 1
            },
            PosBit::RIGHT => {
                assert(((v >> 3) & 1 == 1) == ((v / 8) % 2 == 1)) by (bit_vector);
                v >> 3 & 1 == 1
            },
        }
    }
}

/// Why a tile could not be had.
#[derive(Clone, Copy, Debug, PartialEq, Eq, Structural)]
pub enum TileError {
    /// The code has a bit set above the four edge bits.
    InvalidCode,
    /// The grid has no cell at the row and column asked for.
    IndexOutOfRange,
}

/// Draws one boolean through `rand::random`, which gives `true` or `false` with
/// probability one half each. Nothing is claimed of the value that comes back.
#[verifier::external_body]
fn random_bool() -> bool {
    rand::random::<bool>()
}

/// A square tile with an on/off flag on each of its four edges.
///
/// Any of the sixteen combinations is a tile; there is nothing more to a tile
/// than its flags.
#[derive(Clone, Copy, Debug, PartialEq, Eq, Structural)]
pub struct Tile {
    pub top: bool,
    pub left: bool,
    pub bottom: bool,
    pub right: bool,
}

impl Tile {
    /// The tile that `code` stands for: bit 0 is the top edge, bit 1 the left,
    /// bit 2 the bottom, bit 3 the right.
    pub open spec fn decode(code: u8) -> Tile {
        Tile {
            top: PosBit::TOP.set_in(code),
            left: PosBit::LEFT.set_in(code),
            bottom: PosBit::BOTTOM.set_in(code),
            right: PosBit::RIGHT.set_in(code),
        }
    }

    /// The 4-bit code of this tile: the sum of the weights of the edges that are on.
    pub open spec fn code(self) -> u8 {
        ((if self.top { 1int } else { 0 }) + (if self.left { 2int } else { 0 })
            + (if self.bottom { 4int } else { 0 }) + (if self.right { 8int } else { 0 })) as u8
    }

    /// What `transpose` gives.
    pub open spec fn spec_transpose(&self) -> Tile {
        Tile { top: self.left, left: self.top, bottom: self.right, right: self.bottom }
    }

    /// What `reflect_v` gives.
    pub open spec fn spec_reflect_v(&self) -> Tile {
        Tile { top: self.top, left: self.right, bottom: self.bottom, right: self.left }
    }

    /// What `reflect_h` gives.
    pub open spec fn spec_reflect_h(&self) -> Tile {
        Tile { top: self.bottom, left: self.left, bottom: self.top, right: self.right }
    }

    /// What `constrain` gives: this tile with each edge that has a neighbour
    /// replaced by the edge of the neighbour that faces it.
    pub open spec fn spec_constrain(
        &self,
        top_tile: Option<&Tile>,
        left_tile: Option<&Tile>,
        bottom_tile: Option<&Tile>,
        right_tile: Option<&Tile>,
    ) -> Tile {
        Tile {
            top: match top_tile {
                Some(t) => t.bottom,
                None => self.top,
            },
            left: match left_tile {
                Some(t) => t.right,
                None => self.left,
            },
            bottom: match bottom_tile {
                Some(t) => t.top,
                None => self.bottom,
            },
            right: match right_tile {
                Some(t) => t.left,
                None => self.right,
            },
        }
    }

    /// Whether this tile agrees with each neighbour given on the edge they share.
    pub open spec fn fits(
        &self,
        top_tile: Option<&Tile>,
        left_tile: Option<&Tile>,
        bottom_tile: Option<&Tile>,
        right_tile: Option<&Tile>,
    ) -> bool {
        &&& top_tile matches Some(t) ==> self.top == t.bottom
        &&& left_tile matches Some(t) ==> self.left == t.right
        &&& bottom_tile matches Some(t) ==> self.bottom == t.top
        &&& right_tile matches Some(t) ==> self.right == t.left
    }

    /// The tile with the four edges given.
    pub fn new(top: bool, left: bool, bottom: bool, right: bool) -> (tile: Self)
        ensures
            tile == (Tile { top, left, bottom, right }),
    {
        Tile { top, left, bottom, right }
    }

    /// A tile whose four edges are drawn independently, each on or off with equal
    /// chance. Which tile comes back is left to chance.
    pub fn new_random() -> Self {
        Tile::new(random_bool(), random_bool(), random_bool(), random_bool())
    }

    /// A tile that fits the neighbours given: an edge with a neighbour equals the
    /// neighbour's facing edge, an edge without one is drawn at random.
    pub fn new_with_constraints(
        top_tile: Option<&Tile>,
        left_tile: Option<&Tile>,
        bottom_tile: Option<&Tile>,
        right_tile: Option<&Tile>,
    ) -> (tile: Self)
        ensures
            tile.fits(top_tile, left_tile, bottom_tile, right_tile),
    {
        Tile::new_random().constrain(top_tile, left_tile, bottom_tile, right_tile)
    }

    /// Decodes a 4-bit code. A code above 15 is rejected; its high bits are never
    /// masked away.
    pub fn from_bits(bits: u8) -> (decoded: Result<Self, TileError>)
        ensures
            bits <= 15 ==> decoded == Ok::<Tile, TileError>(Tile::decode(bits)),
            bits > 15 ==> decoded == Err::<Tile, TileError>(TileError::InvalidCode),
    {
        let all: u8 = PosBit::TOP.value() + PosBit::LEFT.value() + PosBit::BOTTOM.value()
            + PosBit::RIGHT.value();
        if bits > all {
            return Err(TileError::InvalidCode);
        }
        let top = PosBit::TOP.bit_on(bits);
        let left = PosBit::LEFT.bit_on(bits);
        let bottom = PosBit::BOTTOM.bit_on(bits);
        let right = PosBit::RIGHT.bit_on(bits);
        Ok(Tile::new(top, left, bottom, right))
    }

    /// The tile mirrored across its main diagonal: top and left change places,
    /// and so do bottom and right.
    #[verifier::when_used_as_spec(spec_transpose)]
    pub fn transpose(&self) -> (tile: Self)
        ensures
            tile == self.spec_transpose(),
    {
        Tile::new(self.left, self.top, self.right, self.bottom)
    }

    /// The tile mirrored across the vertical axis: left and right change places.
    #[verifier::when_used_as_spec(spec_reflect_v)]
    pub fn reflect_v(&self) -> (tile: Self)
        ensures
            tile == self.spec_reflect_v(),
    {
        Tile::new(self.top, self.right, self.bottom, self.left)
    }

    /// The tile mirrored across the horizontal axis: top and bottom change places.
    #[verifier::when_used_as_spec(spec_reflect_h)]
    pub fn reflect_h(&self) -> (tile: Self)
        ensures
            tile == self.spec_reflect_h(),
    {
        Tile::new(self.bottom, self.left, self.top, self.right)
    }

    /// Encodes the tile; the inverse of `from_bits` on the codes 0 to 15.
    pub fn to_bits(&self) -> (bits: u8)
        ensures
            bits == self.code(),
            bits <= 15,
    {
        let mut bits: u8 = 0;
        if self.top {
            bits += PosBit::TOP.value();
        }
        if self.left {
            bits += PosBit::LEFT.value();
        }
        if self.bottom {
            bits += PosBit::BOTTOM.value();
        }
        if self.right {
            bits += PosBit::RIGHT.value();
        }
        bits
    }

    /// Fits this tile to its neighbours: an edge with a neighbour takes the value
    /// of the neighbour's facing edge, an edge without one keeps its own.
    #[verifier::when_used_as_spec(spec_constrain)]
    pub fn constrain(
        &self,
        top_tile: Option<&Tile>,
        left_tile: Option<&Tile>,
        bottom_tile: Option<&Tile>,
        right_tile: Option<&Tile>,
    ) -> (tile: Self)
        ensures
            tile == self.spec_constrain(top_tile, left_tile, bottom_tile, right_tile),
    {
        let top = match top_tile {
            Some(t) => t.bottom,
            None => self.top,
        };
        let left = match left_tile {
            Some(t) => t.right,
            None => self.left,
        };
        let bottom = match bottom_tile {
            Some(t) => t.top,
            None => self.bottom,
        };
        let right = match right_tile {
            Some(t) => t.left,
            None => self.right,
        };
        Tile::new(top, left, bottom, right)
    }
}

/// The glyph of an edge that is on, and of a corner between two such edges.
pub const FULL: char = '\u{25A0}';

/// The glyph of a corner with one of its two edges on, and of the centre of a
/// tile with any edge on.
pub const SMALL: char = '\u{25AA}';

/// The glyph of a cell that nothing reaches.
pub const HOLLOW: char = '\u{25CC}';

/// The glyph in the middle of a side of the block.
pub open spec fn edge_glyph(on: bool) -> char {
    if on {
        FULL
    } else {
        HOLLOW
    }
}

/// The glyph in a corner of the block, between the two edges that meet there.
pub open spec fn corner_glyph(a: bool, b: bool) -> char {
    if a && b {
        FULL
    } else if a || b {
        SMALL
    } else {
        HOLLOW
    }
}

impl Tile {
    /// The glyph at `row`, `col` of the tile's 3 by 3 block.
    pub open spec fn glyph_cell(&self, row: int, col: int) -> char {
        if row == 0 {
            if col == 0 {
                corner_glyph(self.top, self.left)
            } else if col == 1 {
                edge_glyph(self.top)
            } else {
                corner_glyph(self.top, self.right)
            }
        } else if row == 1 {
            if col == 0 {
                edge_glyph(self.left)
            } else if col == 1 {
                if self.top || self.left || self.bottom || self.right {
                    SMALL
                } else {
                    HOLLOW
                }
            } else {
                edge_glyph(self.right)
            }
        } else {
            if col == 0 {
                corner_glyph(self.bottom, self.left)
            } else if col == 1 {
                edge_glyph(self.bottom)
            } else {
                corner_glyph(self.bottom, self.right)
            }
        }
    }

    /// Line `row` of the block: its three glyphs, each followed by a space.
    pub open spec fn glyph_line(&self, row: int) -> Seq<char> {
        seq![
            self.glyph_cell(row, 0),
            ' ',
            self.glyph_cell(row, 1),
            ' ',
            self.glyph_cell(row, 2),
            ' ',
        ]
    }

    /// The whole block: its three lines, each closed by a line break.
    pub open spec fn glyph(&self) -> Seq<char> {
        self.glyph_line(0) + seq!['\n'] + self.glyph_line(1) + seq!['\n'] + self.glyph_line(2)
            + seq!['\n']
    }

    /// The tile as text: a block of three lines of three glyphs, picked by the
    /// tile's code.
    pub fn to_string(&self) -> (text: String)
        ensures
            text@ == self.glyph(),
    {
        let code = self.to_bits();
        let block: &'static str = match code {
            0b0000 => {
                proof {
                    reveal_strlit("\u{25CC} \u{25CC} \u{25CC} \n\u{25CC} \u{25CC} \u{25CC} \n\u{25CC} \u{25CC} \u{25CC} \n");
                }
                "\u{25CC} \u{25CC} \u{25CC} \n\u{25CC} \u{25CC} \u{25CC} \n\u{25CC} \u{25CC} \u{25CC} \n"
            },
            0b0001 => {
                proof {
                    reveal_strlit("\u{25AA} \u{25A0} \u{25AA} \n\u{25CC} \u{25AA} \u{25CC} \n\u{25CC} \u{25CC} \u{25CC} \n");
                }
                "\u{25AA} \u{25A0} \u{25AA} \n\u{25CC} \u{25AA} \u{25CC} \n\u{25CC} \u{25CC} \u{25CC} \n"
            },
            0b0010 => {
                proof {
                    reveal_strlit("\u{25AA} \u{25CC} \u{25CC} \n\u{25A0} \u{25AA} \u{25CC} \n\u{25AA} \u{25CC} \u{25CC} \n");
                }
                "\u{25AA} \u{25CC} \u{25CC} \n\u{25A0} \u{25AA} \u{25CC} \n\u{25AA} \u{25CC} \u{25CC} \n"
            },
            0b0011 => {
                proof {
                    reveal_strlit("\u{25A0} \u{25A0} \u{25AA} \n\u{25A0} \u{25AA} \u{25CC} \n\u{25AA} \u{25CC} \u{25CC} \n");
                }
                "\u{25A0} \u{25A0} \u{25AA} \n\u{25A0} \u{25AA} \u{25CC} \n\u{25AA} \u{25CC} \u{25CC} \n"
            },
            0b0100 => {
                proof {
                    reveal_strlit("\u{25CC} \u{25CC} \u{25CC} \n\u{25CC} \u{25AA} \u{25CC} \n\u{25AA} \u{25A0} \u{25AA} \n");
                }
                "\u{25CC} \u{25CC} \u{25CC} \n\u{25CC} \u{25AA} \u{25CC} \n\u{25AA} \u{25A0} \u{25AA} \n"
            },
            0b0101 => {
                proof {
                    reveal_strlit("\u{25AA} \u{25A0} \u{25AA} \n\u{25CC} \u{25AA} \u{25CC} \n\u{25AA} \u{25A0} \u{25AA} \n");
                }
                "\u{25AA} \u{25A0} \u{25AA} \n\u{25CC} \u{25AA} \u{25CC} \n\u{25AA} \u{25A0} \u{25AA} \n"
            },
            0b0110 => {
                proof {
                    reveal_strlit("\u{25AA} \u{25CC} \u{25CC} \n\u{25A0} \u{25AA} \u{25CC} \n\u{25A0} \u{25A0} \u{25AA} \n");
                }
                "\u{25AA} \u{25CC} \u{25CC} \n\u{25A0} \u{25AA} \u{25CC} \n\u{25A0} \u{25A0} \u{25AA} \n"
            },
            0b0111 => {
                proof {
                    reveal_strlit("\u{25A0} \u{25A0} \u{25AA} \n\u{25A0} \u{25AA} \u{25CC} \n\u{25A0} \u{25A0} \u{25AA} \n");
                }
                "\u{25A0} \u{25A0} \u{25AA} \n\u{25A0} \u{25AA} \u{25CC} \n\u{25A0} \u{25A0} \u{25AA} \n"
            },
            0b1000 => {
                proof {
                    reveal_strlit("\u{25CC} \u{25CC} \u{25AA} \n\u{25CC} \u{25AA} \u{25A0} \n\u{25CC} \u{25CC} \u{25AA} \n");
                }
                "\u{25CC} \u{25CC} \u{25AA} \n\u{25CC} \u{25AA} \u{25A0} \n\u{25CC} \u{25CC} \u{25AA} \n"
            },
            0b1001 => {
                proof {
                    reveal_strlit("\u{25AA} \u{25A0} \u{25A0} \n\u{25CC} \u{25AA} \u{25A0} \n\u{25CC} \u{25CC} \u{25AA} \n");
                }
                "\u{25AA} \u{25A0} \u{25A0} \n\u{25CC} \u{25AA} \u{25A0} \n\u{25CC} \u{25CC} \u{25AA} \n"
            },
            0b1010 => {
                proof {
                    reveal_strlit("\u{25AA} \u{25CC} \u{25AA} \n\u{25A0} \u{25AA} \u{25A0} \n\u{25AA} \u{25CC} \u{25AA} \n");
                }
                "\u{25AA} \u{25CC} \u{25AA} \n\u{25A0} \u{25AA} \u{25A0} \n\u{25AA} \u{25CC} \u{25AA} \n"
            },
            0b1011 => {
                proof {
                    reveal_strlit("\u{25A0} \u{25A0} \u{25A0} \n\u{25A0} \u{25AA} \u{25A0} \n\u{25AA} \u{25CC} \u{25AA} \n");
                }
                "\u{25A0} \u{25A0} \u{25A0} \n\u{25A0} \u{25AA} \u{25A0} \n\u{25AA} \u{25CC} \u{25AA} \n"
            },
            0b1100 => {
                proof {
                    reveal_strlit("\u{25CC} \u{25CC} \u{25AA} \n\u{25CC} \u{25AA} \u{25A0} \n\u{25AA} \u{25A0} \u{25A0} \n");
                }
                "\u{25CC} \u{25CC} \u{25AA} \n\u{25CC} \u{25AA} \u{25A0} \n\u{25AA} \u{25A0} \u{25A0} \n"
            },
            0b1101 => {
                proof {
                    reveal_strlit("\u{25AA} \u{25A0} \u{25A0} \n\u{25CC} \u{25AA} \u{25A0} \n\u{25AA} \u{25A0} \u{25A0} \n");
                }
                "\u{25AA} \u{25A0} \u{25A0} \n\u{25CC} \u{25AA} \u{25A0} \n\u{25AA} \u{25A0} \u{25A0} \n"
            },
            0b1110 => {
                proof {
                    reveal_strlit("\u{25AA} \u{25CC} \u{25AA} \n\u{25A0} \u{25AA} \u{25A0} \n\u{25A0} \u{25A0} \u{25A0} \n");
                }
                "\u{25AA} \u{25CC} \u{25AA} \n\u{25A0} \u{25AA} \u{25A0} \n\u{25A0} \u{25A0} \u{25A0} \n"
            },
            _ => {
                proof {
                    reveal_strlit("\u{25A0} \u{25A0} \u{25A0} \n\u{25A0} \u{25AA} \u{25A0} \n\u{25A0} \u{25A0} \u{25A0} \n");
                }
                "\u{25A0} \u{25A0} \u{25A0} \n\u{25A0} \u{25AA} \u{25A0} \n\u{25A0} \u{25A0} \u{25A0} \n"
            },
        };
        assert(block@ =~= self.glyph());
        String::from_str(block)
    }
}

impl Tile {
    /// The tile as a drawing: a group of four triangles, for the top, left, bottom
    /// and right edge in this order, each between its edge and the centre of the
    /// tile and filled by the colour of its edge.
    pub open spec fn drawing(&self, x: int, y: int, size: int) -> Markup {
        Markup::bare("g"@).with_child(
            filled_path(self.top, triangle(PosBit::TOP, x, y, size)),
        ).with_child(filled_path(self.left, triangle(PosBit::LEFT, x, y, size))).with_child(
            filled_path(self.bottom, triangle(PosBit::BOTTOM, x, y, size)),
        ).with_child(filled_path(self.right, triangle(PosBit::RIGHT, x, y, size)))
    }

    /// Draws the tile with its top left corner at the origin given, `(0, 0)` by
    /// default, and with the size given, 30 by default.
    pub fn to_svg(
        &self,
        origin_x: Option<i32>,
        origin_y: Option<i32>,
        tile_size: Option<i32>,
    ) -> (group: Group)
        requires
            drawable(
                origin_x.unwrap_or(0) as int,
                origin_y.unwrap_or(0) as int,
                tile_size.unwrap_or(30) as int,
            ),
        ensures
            group_markup(group) == self.drawing(
                origin_x.unwrap_or(0) as int,
                origin_y.unwrap_or(0) as int,
                tile_size.unwrap_or(30) as int,
            ),
    {
        let origin_x = origin_x.unwrap_or(0);
        let origin_y = origin_y.unwrap_or(0);
        let tile_size = tile_size.unwrap_or(30);

        let half_tile_size = tile_size / 2;

        let tile_as_bit = self.to_bits();
        proof {
            lemma_encode_then_decode(*self);
        }
        let data_top = data_close(
            data_line_by(
                data_line_by(
                    data_move_to(data_new(), origin_x, origin_y),
                    half_tile_size,
                    half_tile_size,
                ),
                half_tile_size,
                -half_tile_size,
            ),
        );
        let path_top = edge_path(PosBit::TOP.bit_on(tile_as_bit), data_top);

        let data_left = data_close(
            data_line_by(
                data_line_by(
                    data_move_to(data_new(), origin_x, origin_y + tile_size),
                    half_tile_size,
                    -half_tile_size,
                ),
                -half_tile_size,
                -half_tile_size,
            ),
        );
        let path_left = edge_path(PosBit::LEFT.bit_on(tile_as_bit), data_left);

        let data_bottom = data_close(
            data_line_by(
                data_line_by(
                    data_move_to(data_new(), origin_x + tile_size, origin_y + tile_size),
                    -half_tile_size,
                    -half_tile_size,
                ),
                -half_tile_size,
                half_tile_size,
            ),
        );
        let path_bottom = edge_path(PosBit::BOTTOM.bit_on(tile_as_bit), data_bottom);

        let data_right = data_close(
            data_line_by(
                data_line_by(
                    data_move_to(data_new(), origin_x + tile_size, origin_y),
                    -half_tile_size,
                    half_tile_size,
                ),
                half_tile_size,
                half_tile_size,
            ),
        );
        let path_right = edge_path(PosBit::RIGHT.bit_on(tile_as_bit), data_right);

        proof {
            let (x, y, size) = (origin_x as int, origin_y as int, tile_size as int);
            assert(data_strokes(data_top) =~= triangle(PosBit::TOP, x, y, size));
            assert(data_strokes(data_left) =~= triangle(PosBit::LEFT, x, y, size));
            assert(data_strokes(data_bottom) =~= triangle(PosBit::BOTTOM, x, y, size));
            assert(data_strokes(data_right) =~= triangle(PosBit::RIGHT, x, y, size));
        }
        group_add_path(
            group_add_path(group_add_path(group_add_path(group_new(), path_top), path_left), path_bottom),
            path_right,
        )
    }

    /// The tile drawn at the origin with the size given, 30 by default, as a
    /// document as wide and as high as the tile.
    pub fn to_document(&self, tile_size: Option<i32>) -> (document: Document)
        requires
            drawable(0, 0, tile_size.unwrap_or(30) as int),
        ensures
            document_markup(document) == framed(
                tile_size.unwrap_or(30) as int,
                tile_size.unwrap_or(30) as int,
                self.drawing(0, 0, tile_size.unwrap_or(30) as int),
            ),
    {
        let tile_size = tile_size.unwrap_or(30);
        let tile_svg = self.to_svg(Some(0), Some(0), Some(tile_size));
        frame(tile_size, tile_size, tile_svg)
    }
}

/// The block of a tile is 21 glyphs long, and its three lines stand in it at
/// 0, 7 and 14, six glyphs each.
pub proof fn lemma_glyph_lines(tile: Tile)
    ensures
        tile.glyph().len() == 21,
        tile.glyph().subrange(0, 6) == tile.glyph_line(0),
        tile.glyph().subrange(7, 13) == tile.glyph_line(1),
        tile.glyph().subrange(14, 20) == tile.glyph_line(2),
{
    assert(tile.glyph().subrange(0, 6) =~= tile.glyph_line(0));
    assert(tile.glyph().subrange(7, 13) =~= tile.glyph_line(1));
    assert(tile.glyph().subrange(14, 20) =~= tile.glyph_line(2));
}

/// Decoding a code and encoding the tile again gives the code back, for every
/// code from 0 to 15.
pub proof fn lemma_decode_then_encode(code: u8)
    requires
        code <= 15,
    ensures
        Tile::decode(code).code() == code,
{
}

/// Encoding a tile and decoding the code again gives the tile back.
pub proof fn lemma_encode_then_decode(tile: Tile)
    ensures
        tile.code() <= 15,
        Tile::decode(tile.code()) == tile,
{
}

/// Each of the three symmetries undoes itself.
pub proof fn lemma_symmetries_are_involutions(tile: Tile)
    ensures
        tile.spec_reflect_v().spec_reflect_v() == tile,
        tile.spec_reflect_h().spec_reflect_h() == tile,
        tile.spec_transpose().spec_transpose() == tile,
{
}

} // verus!
