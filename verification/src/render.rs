//! The magnified raster image of a generation.
//!
//! Every cell is drawn as a square of `CELL_SIZE` x `CELL_SIZE` pixels in the
//! colour of its state. The image is a sequence of bytes, four to a pixel in
//! the order red, green, blue, alpha, the pixels row by row.

use crate::grid::{cell_index, ScreenBuf, CELLS, HEIGHT, WIDTH};
use crate::palette::{channel, colour_of, palette};
use vstd::prelude::*;

verus! {

/// Side of the square of pixels that shows one cell.
pub const CELL_SIZE: usize = 4;

/// Number of pixels in a row of the image.
pub const IMAGE_WIDTH: usize = WIDTH * CELL_SIZE;

/// Number of rows of pixels of the image.
pub const IMAGE_HEIGHT: usize = HEIGHT * CELL_SIZE;

/// Number of bytes of the image.
pub const IMAGE_BYTES: usize = IMAGE_WIDTH * IMAGE_HEIGHT * 4;

/// The offset in the image of the first byte of the pixel `(px, py)`.
pub open spec fn pixel_offset(px: int, py: int) -> int {
    (py * IMAGE_WIDTH as int + px) * 4
}

/// The row-major index of the cell that the pixel `(px, py)` shows.
pub open spec fn pixel_cell(px: int, py: int) -> int {
    (py / CELL_SIZE as int) * WIDTH as int + px / CELL_SIZE as int
}

/// The byte at offset `i` of the image of `cells`.
pub open spec fn image_byte(cells: Seq<u8>, i: int) -> u8 {
    let pixel = i / 4;
    channel(
        palette(cells[pixel_cell(pixel % IMAGE_WIDTH as int, pixel / IMAGE_WIDTH as int)]),
        i % 4,
    )
}

/// The image of a generation.
pub open spec fn rendered(cells: Seq<u8>) -> Seq<u8> {
    Seq::new(IMAGE_BYTES as nat, |i: int| image_byte(cells, i))
}

/// The image has four bytes for each pixel of each cell, and the square of
/// a cell is of one colour, that of the cell's state, up to its borders: the
/// pixel at `(dx, dy)` within the square of the cell at column `x` and row
/// `y` holds the four channels of that colour.
pub proof fn lemma_cell_block_uniform(cells: Seq<u8>, x: int, y: int, dx: int, dy: int, k: int)
    requires
        0 <= x < WIDTH,
        0 <= y < HEIGHT,
        0 <= dx < CELL_SIZE,
        0 <= dy < CELL_SIZE,
        0 <= k < 4,
    ensures
        rendered(cells).len() == WIDTH * CELL_SIZE * HEIGHT * CELL_SIZE * 4,
        0 <= pixel_offset(x * CELL_SIZE + dx, y * CELL_SIZE + dy) + k < rendered(cells).len(),
        rendered(cells)[pixel_offset(x * CELL_SIZE + dx, y * CELL_SIZE + dy) + k] == channel(
            palette(cells[y * WIDTH + x]),
            k,
        ),
{
}

/// Whether the pixel `(px, py)` is drawn once the rows of cells above `y`,
/// the cells left of `x` in row `y`, the rows of pixels above `dy` in cell
/// `(x, y)` and the pixels left of `dx` in that row are.
spec fn drawn(px: int, py: int, x: int, y: int, dx: int, dy: int) -> bool {
    ||| py < y * CELL_SIZE
    ||| (py < (y + 1) * CELL_SIZE && px < x * CELL_SIZE)
    ||| (x * CELL_SIZE <= px < (x + 1) * CELL_SIZE && y * CELL_SIZE <= py < y * CELL_SIZE + dy)
    ||| (py == y * CELL_SIZE + dy && x * CELL_SIZE <= px < x * CELL_SIZE + dx)
}

/// Whether every drawn pixel of `data` holds what the image of `cells` holds.
spec fn drawn_so_far(data: Seq<u8>, cells: Seq<u8>, x: int, y: int, dx: int, dy: int) -> bool {
    &&& data.len() == IMAGE_BYTES
    &&& forall|i: int|
        0 <= i < IMAGE_BYTES && drawn(
            (i / 4) % IMAGE_WIDTH as int,
            (i / 4) / IMAGE_WIDTH as int,
            x,
            y,
            dx,
            dy,
        ) ==> #[trigger] data[i] == image_byte(cells, i)
}

impl ScreenBuf {
    /// Draws this generation: an image of `IMAGE_WIDTH` x `IMAGE_HEIGHT`
    /// pixels in which every cell is a square of one colour.
    pub fn to_color_buffer(&self) -> (data: Vec<u8>)
        ensures
            data@ == rendered(self@),
    {
        let mut data = vec![0u8; IMAGE_BYTES];  // RGBA format
        for y in 0..HEIGHT
            invariant
                drawn_so_far(data@, self@, 0, y as int, 0, 0),
        {
            for x in 0..WIDTH
                invariant
                    y < HEIGHT,
                    drawn_so_far(data@, self@, x as int, y as int, 0, 0),
            {
                let color = colour_of(self.value_at(x as i32, y as i32));
                assert(cell_index(x as int, y as int) == y * WIDTH + x);
                for dy in 0..CELL_SIZE
                    invariant
                        y < HEIGHT,
                        x < WIDTH,
                        color == palette(self@[y * WIDTH + x]),
                        drawn_so_far(data@, self@, x as int, y as int, 0, dy as int),
                {
                    for dx in 0..CELL_SIZE
                        invariant
                            y < HEIGHT,
                            x < WIDTH,
                            dy < CELL_SIZE,
                            color == palette(self@[y * WIDTH + x]),
                            drawn_so_far(data@, self@, x as int, y as int, dx as int, dy as int),
                    {
                        let index = ((y * CELL_SIZE + dy) * WIDTH * CELL_SIZE + (x * CELL_SIZE
                            + dx)) * 4;
                        data[index] = color.r;
                        data[index + 1] = color.g;
                        data[index + 2] = color.b;
                        data[index + 3] = color.a;
                    }
                }
            }
        }
        assert(data@ =~= rendered(self@));
        data
    }
}

} // verus!
