//! The automaton with its two buffers.
//!
//! The engine owns the generation on show and a second buffer of the same
//! size. A step writes the next generation into the second buffer and then
//! exchanges the two, so that every cell of a step is computed from the
//! generation before it.

use crate::grid::{blank_cells, cell_index, ScreenBuf, HEIGHT, WIDTH};
use crate::render::rendered;
use crate::rule::next_generation;
use vstd::prelude::*;

verus! {

/// The cells of the reference seed: two live cells side by side in the
/// middle row, every other cell dead.
pub open spec fn seed_cells() -> Seq<u8> {
    blank_cells().update(cell_index(WIDTH as int / 2, HEIGHT as int / 2), 1u8).update(
        cell_index(WIDTH as int / 2 - 1, HEIGHT as int / 2),
        1u8,
    )
}

/// The reference seed.
pub fn reference_seed() -> (seed: ScreenBuf)
    ensures
        seed@ == seed_cells(),
{
    let mut seed = ScreenBuf::new();
    seed.set(WIDTH as i32 / 2, HEIGHT as i32 / 2, 1);
    seed.set(WIDTH as i32 / 2 - 1, HEIGHT as i32 / 2, 1);
    seed
}

/// A running automaton: the current generation and the buffer that the next
/// one is written to.
pub struct Automaton {
    current: ScreenBuf,
    next: ScreenBuf,
}

impl View for Automaton {
    type V = Seq<u8>;

    /// The cell states of the current generation, in row-major order.
    closed spec fn view(&self) -> Seq<u8> {
        self.current@
    }
}

impl Automaton {
    /// The cell states that the second buffer holds: those of the generation
    /// before the current one, once a step has been made.
    pub closed spec fn spare(&self) -> Seq<u8> {
        self.next@
    }

    /// An automaton whose current generation is `seed`; its second buffer
    /// is blank.
    pub fn initialize(seed: ScreenBuf) -> (engine: Self)
        ensures
            engine@ == seed@,
            engine.spare() == blank_cells(),
    {
        Automaton { current: seed, next: ScreenBuf::new() }
    }

    /// The current generation.
    pub fn current(&self) -> (grid: &ScreenBuf)
        ensures
            grid@ == self@,
    {
        &self.current
    }

    /// The image of the current generation.
    pub fn render(&self) -> (data: Vec<u8>)
        ensures
            data@ == rendered(self@),
    {
        self.current.to_color_buffer()
    }

    /// Advances the automaton by one generation, and keeps the generation
    /// that it leaves in the second buffer.
    pub fn step(&mut self)
        ensures
            final(self)@ == next_generation(old(self)@),
            final(self).spare() == old(self)@,
    {
        self.current.tick(&mut self.next);
        std::mem::swap(&mut self.current, &mut self.next);
    }
}

} // verus!
