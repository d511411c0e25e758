//! Artwork as a grid of terminal cells, each of which shows two pixels.

use std::sync::Arc;

use vstd::prelude::*;

verus! {

/// The widest artwork, in cells.
pub const MAX_CELL_WIDTH: u16 = 256;

/// The highest artwork, in cells.
pub const MAX_CELL_HEIGHT: u16 = 256;

/// The most cells that artwork may take.
pub const MAX_OUTPUT_CELLS: usize = 16_384;

/// The width of the artwork panel's picture, in cells.
pub const PRODUCTION_ARTWORK_WIDTH: u16 = 21;

/// The height of the artwork panel's picture, in cells.
pub const PRODUCTION_ARTWORK_HEIGHT: u16 = 8;

/// A size in terminal cells.
#[derive(Clone, Copy, Debug, Eq, PartialEq, Structural)]
pub struct CellSize {
    pub width: u16,
    pub height: u16,
}

impl CellSize {
    pub fn new(width: u16, height: u16) -> (size: Self)
        ensures
            size == (CellSize { width, height }),
    {
        CellSize { width, height }
    }

    /// The size of the picture in the artwork panel.
    pub fn production() -> (size: Self)
        ensures
            size == (CellSize {
                width: PRODUCTION_ARTWORK_WIDTH,
                height: PRODUCTION_ARTWORK_HEIGHT,
            }),
    {
        CellSize { width: PRODUCTION_ARTWORK_WIDTH, height: PRODUCTION_ARTWORK_HEIGHT }
    }

    /// Whether artwork may have the size: not empty and within all limits.
    pub open spec fn drawable(self) -> bool {
        &&& 0 < self.width <= MAX_CELL_WIDTH
        &&& 0 < self.height <= MAX_CELL_HEIGHT
        &&& self.width * self.height <= MAX_OUTPUT_CELLS
    }

    /// Whether artwork may have the size.
    pub fn is_drawable(&self) -> (drawable: bool)
        ensures
            drawable == self.drawable(),
    {
        if self.width == 0 || self.height == 0 || self.width > MAX_CELL_WIDTH || self.height
            > MAX_CELL_HEIGHT {
            return false;
        }
        let width: usize = self.width as usize;
        let height: usize = self.height as usize;
        assert(width * height <= 256 * 256) by (nonlinear_arith)
            requires
                0 <= width <= 256,
                0 <= height <= 256,
        ;
        width * height <= MAX_OUTPUT_CELLS
    }
}

/// A color of a picture.
#[derive(Clone, Copy, Debug, Eq, PartialEq, Structural)]
pub struct RgbColor {
    pub red: u8,
    pub green: u8,
    pub blue: u8,
}

impl RgbColor {
    pub fn red(&self) -> (value: u8)
        ensures
            value == self.red,
    {
        self.red
    }

    pub fn green(&self) -> (value: u8)
        ensures
            value == self.green,
    {
        self.green
    }

    pub fn blue(&self) -> (value: u8)
        ensures
            value == self.blue,
    {
        self.blue
    }
}

/// A cell of a picture: its upper and its lower pixel.
#[derive(Clone, Copy, Debug, Eq, PartialEq, Structural)]
pub struct ArtworkCell {
    pub foreground: RgbColor,
    pub background: RgbColor,
}

impl ArtworkCell {
    pub fn foreground(&self) -> (color: RgbColor)
        ensures
            color == self.foreground,
    {
        self.foreground
    }

    pub fn background(&self) -> (color: RgbColor)
        ensures
            color == self.background,
    {
        self.background
    }
}

/// A picture made of cells, row by row.
#[derive(Debug, Eq, PartialEq)]
pub struct ArtworkGrid {
    size: CellSize,
    cells: Vec<ArtworkCell>,
}

/// What stands in the place of a picture that is not there.
#[derive(Clone, Copy, Debug, Eq, PartialEq, Structural)]
pub struct ArtworkFallback;

impl ArtworkFallback {
    pub fn icon(&self) -> (icon: &'static str)
        ensures
            icon@ == "♪"@,
    {
        "♪"
    }

    pub fn metadata(&self) -> (text: &'static str)
        ensures
            text@ == "Artwork unavailable"@,
    {
        "Artwork unavailable"
    }
}

/// What is shown as artwork.
#[derive(Debug, Eq, PartialEq)]
pub enum ArtworkPresentation {
    Grid(Arc<ArtworkGrid>),
    Fallback(ArtworkFallback),
}

impl ArtworkPresentation {
    /// There is no picture.
    pub fn unavailable() -> (presentation: Self)
        ensures
            presentation == ArtworkPresentation::Fallback(ArtworkFallback),
    {
        ArtworkPresentation::Fallback(ArtworkFallback)
    }
}

impl Clone for ArtworkPresentation {
    fn clone(&self) -> (copy: Self)
        ensures
            copy == *self,
    {
        match self {
            ArtworkPresentation::Grid(grid) => ArtworkPresentation::Grid(Arc::clone(grid)),
            ArtworkPresentation::Fallback(fallback) => ArtworkPresentation::Fallback(*fallback),
        }
    }
}

/// Why a picture could not be made.
#[derive(Clone, Copy, Debug, Eq, PartialEq, Structural)]
pub enum ArtworkError {
    /// The size is empty or over a limit.
    InvalidSize,
    /// The number of bytes does not fit the size.
    WrongByteCount,
}

impl ArtworkGrid {
    pub closed spec fn cell_size(self) -> CellSize {
        self.size
    }

    pub closed spec fn cell_seq(self) -> Seq<ArtworkCell> {
        self.cells@
    }

    /// What every grid keeps: one cell for each place.
    pub open spec fn wf(self) -> bool {
        self.cell_seq().len() == self.cell_size().width * self.cell_size().height
    }

    pub fn width(&self) -> (width: u16)
        ensures
            width == self.cell_size().width,
    {
        self.size.width
    }

    pub fn height(&self) -> (height: u16)
        ensures
            height == self.cell_size().height,
    {
        self.size.height
    }

    pub fn cells(&self) -> (cells: &[ArtworkCell])
        ensures
            cells@ == self.cell_seq(),
    {
        self.cells.as_slice()
    }

    /// The cell in column `column` of row `row`.
    pub fn cell(&self, column: u16, row: u16) -> (cell: Option<ArtworkCell>)
        requires
            self.wf(),
        ensures
            cell == if column < self.cell_size().width && row < self.cell_size().height {
                Some(self.cell_seq()[row * self.cell_size().width + column])
            } else {
                None
            },
    {
        if column >= self.size.width || row >= self.size.height {
            return None;
        }
        let width: usize = self.size.width as usize;
        proof {
            lemma_cell_index(
                column as int,
                row as int,
                self.size.width as int,
                self.size.height as int,
            );
            lemma_cell_count(self.size.width as int, self.size.height as int);
        }
        Some(self.cells[row as usize * width + column as usize])
    }
}

proof fn lemma_cell_index(column: int, row: int, width: int, height: int)
    by (nonlinear_arith)
    requires
        0 <= column < width,
        0 <= row < height,
    ensures
        0 <= row * width <= row * width + column < width * height,
{
}

proof fn lemma_cell_count(width: int, height: int)
    by (nonlinear_arith)
    requires
        0 <= width <= 0xffff,
        0 <= height <= 0xffff,
    ensures
        0 <= width * height <= 0xffff * 0xffff,
{
}

/// The color of the pixel in column `column` of pixel row `row`.
pub open spec fn pixel(bytes: Seq<u8>, width: int, column: int, row: int) -> RgbColor {
    let at = (row * width + column) * 3;
    RgbColor { red: bytes[at], green: bytes[at + 1], blue: bytes[at + 2] }
}

/// The cell in column `column` of row `row`: it shows two pixel rows.
pub open spec fn frame_cell(bytes: Seq<u8>, width: int, column: int, row: int) -> ArtworkCell {
    ArtworkCell {
        foreground: pixel(bytes, width, column, row * 2),
        background: pixel(bytes, width, column, row * 2 + 1),
    }
}

proof fn lemma_pixel_index(width: int, height: int, column: int, row: int)
    by (nonlinear_arith)
    requires
        0 <= column < width <= 256,
        0 <= row < height <= 256,
    ensures
        0 <= (row * 2 * width + column) * 3,
        (row * 2 * width + column) * 3 + 2 < width * height * 6,
        0 <= ((row * 2 + 1) * width + column) * 3,
        ((row * 2 + 1) * width + column) * 3 + 2 < width * height * 6,
        0 <= row * 2 * width,
        0 <= (row * 2 + 1) * width,
        row * 2 * width <= (row * 2 + 1) * width,
        width * height * 6 <= 393_216,
        row * width + column < width * height,
{
}

/// Reads a frame of 24-bit pixels, two pixel rows for each row of cells.
pub fn decode_rgb_frame(bytes: &[u8], size: CellSize) -> (decoded: Result<ArtworkGrid, ArtworkError>)
    ensures
        match decoded {
            Ok(grid) => {
                &&& size.drawable()
                &&& bytes@.len() == size.width * size.height * 6
                &&& grid.wf()
                &&& grid.cell_size() == size
                &&& forall|column: int, row: int|
                    0 <= column < size.width && 0 <= row < size.height
                        ==> #[trigger] grid.cell_seq()[row * size.width + column] == frame_cell(
                        bytes@,
                        size.width as int,
                        column,
                        row,
                    )
            },
            Err(ArtworkError::InvalidSize) => !size.drawable(),
            Err(ArtworkError::WrongByteCount) => size.drawable() && bytes@.len() != size.width
                * size.height * 6,
        },
{
    if !size.is_drawable() {
        return Err(ArtworkError::InvalidSize);
    }
    let width: usize = size.width as usize;
    let height: usize = size.height as usize;
    assert(width * height <= 256 * 256) by (nonlinear_arith)
        requires
            0 <= width <= 256,
            0 <= height <= 256,
    ;
    if bytes.len() != width * height * 6 {
        return Err(ArtworkError::WrongByteCount);
    }
    let mut cells: Vec<ArtworkCell> = Vec::new();
    let mut row: usize = 0;
    assert(0 * width == 0);
    while row < height
        invariant
            row <= height <= 256,
            width <= 256,
            width == size.width,
            height == size.height,
            bytes@.len() == width * height * 6,
            cells@.len() == row * width,
            forall|c: int, r: int|
                #![trigger cells@[r * width + c]]
                0 <= c < width && 0 <= r < row ==> cells@[r * width + c] == frame_cell(
                    bytes@,
                    width as int,
                    c,
                    r,
                ),
        decreases height - row,
    {
        let mut column: usize = 0;
        let ghost base = cells@.len() as int;
        while column < width
            invariant
                column <= width <= 256,
                row < height <= 256,
                bytes@.len() == width * height * 6,
                base == row * width,
                cells@.len() == base + column,
                forall|c: int, r: int|
                    #![trigger cells@[r * width + c]]
                    0 <= c < width && 0 <= r && (r < row || (r == row && c < column)) ==> cells@[r
                        * width + c] == frame_cell(bytes@, width as int, c, r),
            decreases width - column,
        {
            proof {
                lemma_pixel_index(width as int, height as int, column as int, row as int);
            }
            let upper: usize = (row * 2 * width + column) * 3;
            let lower: usize = ((row * 2 + 1) * width + column) * 3;
            let cell = ArtworkCell {
                foreground: RgbColor {
                    red: bytes[upper],
                    green: bytes[upper + 1],
                    blue: bytes[upper + 2],
                },
                background: RgbColor {
                    red: bytes[lower],
                    green: bytes[lower + 1],
                    blue: bytes[lower + 2],
                },
            };
            let ghost before = cells@;
            cells.push(cell);
            proof {
                assert forall|c: int, r: int|
                    #![trigger cells@[r * width + c]]
                    0 <= c < width && 0 <= r && (r < row || (r == row && c < column
                        + 1)) implies cells@[r * width + c] == frame_cell(
                    bytes@,
                    width as int,
                    c,
                    r,
                ) by {
                    if r < row || c < column {
                        lemma_earlier_cell(c, r, column as int, row as int, width as int);
                        assert(cells@[r * width + c] == before[r * width + c]);
                    } else {
                        assert(cells@[row * width + column] == cell);
                    }
                }
            }
            column = column + 1;
        }
        assert(base + width == (row + 1) * width) by (nonlinear_arith)
            requires
                base == row * width,
        ;
        row = row + 1;
    }
    assert(height * width == width * height) by (nonlinear_arith);
    let grid = ArtworkGrid { size, cells };
    Ok(grid)
}

proof fn lemma_earlier_cell(c: int, r: int, column: int, row: int, width: int)
    by (nonlinear_arith)
    requires
        0 <= c < width,
        0 <= r,
        0 <= column <= width,
        r < row || (r == row && c < column),
    ensures
        0 <= r * width + c < row * width + column,
{
}

} // verus!
