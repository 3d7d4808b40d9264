//! The packed cell buffer of the torus.
//!
//! A buffer holds one two-bit state for every cell of a `WIDTH` x `HEIGHT`
//! torus, four cells to a byte. Its mathematical model is the sequence of the
//! cell states in row-major order: the state of cell `(x, y)` stands at
//! index `y * WIDTH + x`.

use vstd::prelude::*;

verus! {

/// Number of columns of the torus.
pub const WIDTH: usize = 256;

/// Number of rows of the torus.
pub const HEIGHT: usize = 256;

/// Number of cells of the torus.
pub const CELLS: usize = WIDTH * HEIGHT;

/// Number of bytes that hold the cells, four cells to a byte.
pub const BYTES: usize = CELLS / 4;

/// The column or row that a coordinate of any magnitude denotes on an axis
/// of `size` cells: its Euclidean remainder, which is never negative.
pub open spec fn wrap(v: int, size: int) -> int {
    v % size
}

/// The row-major index of the cell that `(x, y)` denotes on the torus.
pub open spec fn cell_index(x: int, y: int) -> int {
    wrap(y, HEIGHT as int) * WIDTH as int + wrap(x, WIDTH as int)
}

/// The two-bit field of `byte` that starts at bit `shift`.
pub open spec fn unpack(byte: u8, shift: u8) -> u8 {
    (byte >> shift) & 3u8
}

/// The bit at which the field of the cell with row-major index `i` starts
/// within its byte.
pub open spec fn shift_of(i: int) -> u8 {
    ((i % 4) * 2) as u8
}

/// The states of the eight cells around `(x, y)`, row by row from the upper
/// left, the centre left out.
pub open spec fn neighbourhood(cells: Seq<u8>, x: int, y: int) -> Seq<u8> {
    seq![
        cells[cell_index(x - 1, y - 1)],
        cells[cell_index(x, y - 1)],
        cells[cell_index(x + 1, y - 1)],
        cells[cell_index(x - 1, y)],
        cells[cell_index(x + 1, y)],
        cells[cell_index(x - 1, y + 1)],
        cells[cell_index(x, y + 1)],
        cells[cell_index(x + 1, y + 1)],
    ]
}

/// The cells of a buffer in which every cell is in state 0.
pub open spec fn blank_cells() -> Seq<u8> {
    Seq::new(CELLS as nat, |i: int| 0u8)
}

/// A generation of the automaton: one two-bit state per cell.
#[derive(Clone)]
pub struct ScreenBuf([u8; BYTES]);

impl View for ScreenBuf {
    type V = Seq<u8>;

    /// The cell states in row-major order.
    closed spec fn view(&self) -> Seq<u8> {
        Seq::new(CELLS as nat, |i: int| self.field(i))
    }
}

proof fn lemma_field_in_range(byte: u8, shift: u8)
    by (bit_vector)
    ensures
        (byte >> shift) & 3u8 <= 3u8,
{
}

proof fn lemma_field_of_zero(shift: u8)
    by (bit_vector)
    ensures
        (0u8 >> shift) & 3u8 == 0u8,
{
}

/// Masking a state to its low two bits takes its remainder by four, and so
/// keeps a state that is in `0..=3`.
pub proof fn lemma_low_bits(state: u8)
    by (bit_vector)
    ensures
        state & 3u8 == state % 4u8,
        state & 3u8 <= 3u8,
        state <= 3u8 ==> state & 3u8 == state,
{
}

/// Writing a field replaces that field by the low two bits of `state` and
/// keeps the three other fields of the byte.
proof fn lemma_write_field(byte: u8, shift: u8, state: u8)
    by (bit_vector)
    requires
        shift == 0u8 || shift == 2u8 || shift == 4u8 || shift == 6u8,
    ensures
        ({
            let written = (byte & !(3u8 << shift)) | ((state & 3u8) << shift);
            &&& (written >> shift) & 3u8 == state & 3u8
            &&& shift != 0u8 ==> (written >> 0u8) & 3u8 == (byte >> 0u8) & 3u8
            &&& shift != 2u8 ==> (written >> 2u8) & 3u8 == (byte >> 2u8) & 3u8
            &&& shift != 4u8 ==> (written >> 4u8) & 3u8 == (byte >> 4u8) & 3u8
            &&& shift != 6u8 ==> (written >> 6u8) & 3u8 == (byte >> 6u8) & 3u8
        }),
{
}

/// A byte is determined by its four fields.
proof fn lemma_fields_determine_byte(a: u8, b: u8)
    by (bit_vector)
    requires
        (a >> 0u8) & 3u8 == (b >> 0u8) & 3u8,
        (a >> 2u8) & 3u8 == (b >> 2u8) & 3u8,
        (a >> 4u8) & 3u8 == (b >> 4u8) & 3u8,
        (a >> 6u8) & 3u8 == (b >> 6u8) & 3u8,
    ensures
        a == b,
{
}

/// Reduces a coordinate onto an axis of `size` cells.
fn wrap_onto(v: i32, size: usize) -> (r: usize)
    requires
        0 < size <= 0x4000_0000,
    ensures
        r == wrap(v as int, size as int),
        r < size,
{
    v.checked_rem_euclid(size as i32).unwrap() as usize
}

/// Moving away from a wrapped coordinate leads to the same place on the
/// axis as moving away from the coordinate itself.
pub proof fn lemma_wrap_offset(v: int, d: int, size: int)
    requires
        0 < size,
    ensures
        wrap(wrap(v, size) + d, size) == wrap(v + d, size),
{
    vstd::arithmetic::div_mod::lemma_add_mod_noop_right(d, v, size);
}

/// Coordinates of any magnitude denote a cell of the torus, the same one as
/// their Euclidean remainders do; coordinates within the grid denote the
/// cell at their own row and column.
pub proof fn lemma_wrap_correct(x: int, y: int)
    ensures
        0 <= wrap(x, WIDTH as int) < WIDTH,
        0 <= wrap(y, HEIGHT as int) < HEIGHT,
        0 <= cell_index(x, y) < CELLS,
        cell_index(x, y) == cell_index(wrap(x, WIDTH as int), wrap(y, HEIGHT as int)),
        0 <= x < WIDTH && 0 <= y < HEIGHT ==> cell_index(x, y) == y * WIDTH + x,
{
}

/// Two pairs of coordinates denote the same cell exactly if they agree in
/// column and in row after wrapping.
pub proof fn lemma_same_cell(x: int, y: int, u: int, v: int)
    ensures
        cell_index(x, y) == cell_index(u, v) <==> wrap(x, WIDTH as int) == wrap(u, WIDTH as int)
            && wrap(y, HEIGHT as int) == wrap(v, HEIGHT as int),
{
}

/// The cell at an offset from a wrapped centre is the cell at that offset
/// from the centre itself.
pub proof fn lemma_wrapped_centre(x: int, y: int, dx: int, dy: int)
    ensures
        cell_index(wrap(x, WIDTH as int) + dx, wrap(y, HEIGHT as int) + dy) == cell_index(
            x + dx,
            y + dy,
        ),
{
    lemma_wrap_offset(x, dx, WIDTH as int);
    lemma_wrap_offset(y, dy, HEIGHT as int);
}

impl ScreenBuf {
    /// The field that holds the cell with row-major index `i`.
    spec fn field(&self, i: int) -> u8 {
        unpack(self.0@[i / 4], shift_of(i))
    }

    /// The state of the cell that `(x, y)` denotes on the torus.
    pub open spec fn cell(&self, x: int, y: int) -> u8 {
        self@[cell_index(x, y)]
    }

    /// Every buffer holds `CELLS` states, each of them in `0..=3`.
    pub proof fn lemma_states_in_range(&self)
        ensures
            self@.len() == CELLS,
            forall|i: int| 0 <= i < CELLS ==> #[trigger] self@[i] <= 3,
    {
        assert forall|i: int| 0 <= i < CELLS implies #[trigger] self@[i] <= 3 by {
            lemma_field_in_range(self.0@[i / 4], shift_of(i));
        }
    }

    /// Two buffers that hold the same cell states are the same buffer: no
    /// bit of the storage lies outside the cells.
    pub proof fn lemma_cells_determine_buffer(&self, other: &ScreenBuf)
        requires
            self@ == other@,
        ensures
            *self == *other,
    {
        assert forall|k: int| 0 <= k < BYTES implies self.0[k] == other.0[k] by {
            assert forall|j: int| 4 * k <= j < 4 * k + 4 implies self.field(j) == other.field(
                j,
            ) by {
                assert(self@[j] == self.field(j));
                assert(other@[j] == other.field(j));
            }
            assert(self.field(4 * k) == other.field(4 * k));
            assert(self.field(4 * k + 1) == other.field(4 * k + 1));
            assert(self.field(4 * k + 2) == other.field(4 * k + 2));
            assert(self.field(4 * k + 3) == other.field(4 * k + 3));
            lemma_fields_determine_byte(self.0@[k], other.0@[k]);
        }
        assert(self.0 =~= other.0);
    }

    /// Reading a cell gives the same state at `(x, y)` as at the wrapped
    /// coordinates: the grid has no edge.
    pub proof fn lemma_read_wraps(&self, x: int, y: int)
        ensures
            self.cell(x, y) == self.cell(wrap(x, WIDTH as int), wrap(y, HEIGHT as int)),
            self.cell(x, y) == self.cell(x + WIDTH, y),
            self.cell(x, y) == self.cell(x, y + HEIGHT),
            self.cell(x, y) <= 3,
    {
        lemma_wrap_correct(x, y);
        self.lemma_states_in_range();
    }

    /// After a state in `0..=3` is written to `(x, y)`, reading `(x, y)`
    /// gives that state back, and a read at `(u, v)`, where that is another
    /// cell of the torus, gives what it gave before.
    pub proof fn lemma_write_then_read(
        &self,
        written: &ScreenBuf,
        x: int,
        y: int,
        state: u8,
        u: int,
        v: int,
    )
        requires
            state <= 3,
            written@ == self@.update(cell_index(x, y), state & 3),
        ensures
            written.cell(x, y) == state,
            wrap(u, WIDTH as int) != wrap(x, WIDTH as int) || wrap(v, HEIGHT as int) != wrap(
                y,
                HEIGHT as int,
            ) ==> written.cell(u, v) == self.cell(u, v),
    {
        lemma_low_bits(state);
        lemma_wrap_correct(x, y);
        lemma_wrap_correct(u, v);
        lemma_same_cell(x, y, u, v);
        self.lemma_states_in_range();
    }

    /// A write of any byte stores its low two bits and nothing else: the
    /// cell written then holds the remainder of `state` by four, and every
    /// other cell, those that share its byte among them, holds what it held.
    pub proof fn lemma_write_is_masked(&self, written: &ScreenBuf, x: int, y: int, state: u8)
        requires
            written@ == self@.update(cell_index(x, y), state & 3),
        ensures
            written.cell(x, y) == state % 4,
            forall|i: int|
                0 <= i < CELLS && i != cell_index(x, y) ==> #[trigger] written@[i] == self@[i],
    {
        lemma_low_bits(state);
        lemma_wrap_correct(x, y);
        self.lemma_states_in_range();
    }

    /// A buffer in which every cell is in state 0.
    pub fn new() -> (buf: Self)
        ensures
            buf@ == blank_cells(),
    {
        let buf = ScreenBuf([0; BYTES]);
        proof {
            assert forall|i: int| 0 <= i < CELLS implies #[trigger] buf@[i] == 0u8 by {
                lemma_field_of_zero(shift_of(i));
            }
            assert(buf@ =~= blank_cells());
        }
        buf
    }

    /// Stores the low two bits of `state` in the cell that `(x, y)` denotes
    /// on the torus, and leaves every other cell as it was.
    pub fn set(&mut self, x: i32, y: i32, state: u8)
        ensures
            final(self)@ == old(self)@.update(cell_index(x as int, y as int), state & 3),
            state <= 3 ==> final(self)@ == old(self)@.update(
                cell_index(x as int, y as int),
                state,
            ),
    {
        let x = wrap_onto(x, WIDTH);
        let y = wrap_onto(y, HEIGHT);

        let index = y * WIDTH + x;
        let byte = index / 4;
        let shift = ((index % 4) * 2) as u8;  // 2 bits per state
        let before = self.0[byte];
        let written = (before & !(3u8 << shift)) | ((state & 3u8) << shift);
        self.0[byte] = written;
        proof {
            let target = index as int;
            lemma_low_bits(state);
            lemma_write_field(before, shift, state);
            assert forall|i: int| 0 <= i < CELLS implies #[trigger] self@[i] == old(self)@.update(
                target,
                state & 3,
            )[i] by {
                if i / 4 == byte as int {
                    assert(shift_of(i) == 0u8 || shift_of(i) == 2u8 || shift_of(i) == 4u8
                        || shift_of(i) == 6u8);
                    assert(shift_of(i) == shift <==> i == target);
                }
            }
            assert(self@ =~= old(self)@.update(target, state & 3));
        }
    }

    /// The state of the cell that `(x, y)` denotes on the torus.
    pub fn value_at(&self, x: i32, y: i32) -> (state: u8)
        ensures
            state == self@[cell_index(x as int, y as int)],
            state <= 3,
    {
        let x = wrap_onto(x, WIDTH);
        let y = wrap_onto(y, HEIGHT);

        let index = y * WIDTH + x;
        let byte = index / 4;
        let shift = ((index % 4) * 2) as u8;  // 2 bits per state
        proof {
            lemma_field_in_range(self.0@[byte as int], shift);
        }
        (self.0[byte] >> shift) & 3u8
    }

    /// The states of the eight cells around `(x, y)` on the torus, row by
    /// row from the upper left.
    pub fn neighbours(&self, x: i32, y: i32) -> (around: [u8; 8])
        ensures
            around@ == neighbourhood(self@, x as int, y as int),
    {
        // The wrapped centre stands for the same cell and keeps the eight
        // offsets far from the limits of `i32`.
        let cx = wrap_onto(x, WIDTH) as i32;
        let cy = wrap_onto(y, HEIGHT) as i32;
        let around = [
            self.value_at(cx - 1, cy - 1),
            self.value_at(cx, cy - 1),
            self.value_at(cx + 1, cy - 1),
            self.value_at(cx - 1, cy),
            self.value_at(cx + 1, cy),
            self.value_at(cx - 1, cy + 1),
            self.value_at(cx, cy + 1),
            self.value_at(cx + 1, cy + 1),
        ];
        proof {
            lemma_wrapped_centre(x as int, y as int, -1, -1);
            lemma_wrapped_centre(x as int, y as int, 0, -1);
            lemma_wrapped_centre(x as int, y as int, 1, -1);
            lemma_wrapped_centre(x as int, y as int, -1, 0);
            lemma_wrapped_centre(x as int, y as int, 1, 0);
            lemma_wrapped_centre(x as int, y as int, -1, 1);
            lemma_wrapped_centre(x as int, y as int, 0, 1);
            lemma_wrapped_centre(x as int, y as int, 1, 1);
            assert(around@ =~= neighbourhood(self@, x as int, y as int));
        }
        around
    }
}

} // verus!
