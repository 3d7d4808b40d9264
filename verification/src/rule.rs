//! The transition rule and the step from one generation to the next.
//!
//! A cell is dead (0), alive (1), dying (2) or refractory (3). A dead cell
//! comes alive with exactly two live neighbours; a live cell stays alive with
//! three, four or five of them and starts dying otherwise; a dying cell turns
//! refractory and a refractory cell dies, whatever stands around them.

use crate::grid::{
    blank_cells, cell_index, lemma_wrap_correct, lemma_wrapped_centre, neighbourhood, wrap,
    ScreenBuf, CELLS, HEIGHT, WIDTH,
};
use vstd::prelude::*;

verus! {

/// The state a cell takes in the next generation, given its present state
/// and how many of its eight neighbours are alive.
pub open spec fn next_state(state: u8, live: int) -> u8 {
    if state == 0 {
        if live == 2 {
            1u8
        } else {
            0u8
        }
    } else if state == 1 {
        if 3 <= live <= 5 {
            1u8
        } else {
            2u8
        }
    } else if state == 2 {
        3u8
    } else {
        0u8
    }
}

/// How many of the given states are the live state.
pub open spec fn live_count(states: Seq<u8>) -> int
    decreases states.len(),
{
    if states.len() == 0 {
        0
    } else {
        live_count(states.drop_last()) + if states.last() == 1 {
            1int
        } else {
            0int
        }
    }
}

/// How many of the eight cells around `(x, y)` are alive.
pub open spec fn live_neighbours(cells: Seq<u8>, x: int, y: int) -> int {
    live_count(neighbourhood(cells, x, y))
}

/// The generation that follows `cells`: every cell takes the state that the
/// rule gives for its present state and its live neighbours in `cells`.
pub open spec fn next_generation(cells: Seq<u8>) -> Seq<u8> {
    Seq::new(
        CELLS as nat,
        |i: int| next_state(cells[i], live_neighbours(cells, i % WIDTH as int, i / WIDTH as int)),
    )
}

/// The generation reached from `cells` after `steps` steps.
pub open spec fn generation(cells: Seq<u8>, steps: nat) -> Seq<u8>
    decreases steps,
{
    if steps == 0 {
        cells
    } else {
        next_generation(generation(cells, (steps - 1) as nat))
    }
}

/// The rule gives one state in `0..=3` for every state and every count, and
/// for the states and counts that occur it is this table.
pub proof fn lemma_rule_table(state: u8, live: int)
    ensures
        next_state(state, live) <= 3,
        state == 0 && live == 2 ==> next_state(state, live) == 1,
        state == 0 && live != 2 ==> next_state(state, live) == 0,
        state == 1 && (live == 3 || live == 4 || live == 5) ==> next_state(state, live) == 1,
        state == 1 && !(live == 3 || live == 4 || live == 5) ==> next_state(state, live) == 2,
        state == 2 ==> next_state(state, live) == 3,
        state == 3 ==> next_state(state, live) == 0,
{
}

/// Among states of which none is the live state, the count is zero.
pub proof fn lemma_live_count_of_none(states: Seq<u8>)
    requires
        forall|i: int| 0 <= i < states.len() ==> states[i] != 1,
    ensures
        live_count(states) == 0,
    decreases states.len(),
{
    if states.len() > 0 {
        lemma_live_count_of_none(states.drop_last());
    }
}

/// In the next generation the cell at `(x, y)`, for coordinates of any
/// magnitude, holds what the rule gives for its state and its live
/// neighbours in the generation before: no state of the new generation has
/// a part in it.
pub proof fn lemma_next_reads_prior(cells: Seq<u8>, x: int, y: int)
    ensures
        next_generation(cells).len() == CELLS,
        next_generation(cells)[cell_index(x, y)] == next_state(
            cells[cell_index(x, y)],
            live_neighbours(cells, x, y),
        ),
{
    let i = cell_index(x, y);
    lemma_wrap_correct(x, y);
    assert(i % WIDTH as int == wrap(x, WIDTH as int));
    assert(i / WIDTH as int == wrap(y, HEIGHT as int));
    lemma_wrapped_centre(x, y, -1, -1);
    lemma_wrapped_centre(x, y, 0, -1);
    lemma_wrapped_centre(x, y, 1, -1);
    lemma_wrapped_centre(x, y, -1, 0);
    lemma_wrapped_centre(x, y, 1, 0);
    lemma_wrapped_centre(x, y, -1, 1);
    lemma_wrapped_centre(x, y, 0, 1);
    lemma_wrapped_centre(x, y, 1, 1);
    assert(neighbourhood(cells, i % WIDTH as int, i / WIDTH as int) =~= neighbourhood(
        cells,
        x,
        y,
    ));
}

/// Two buffers into which the same generation was stepped are equal,
/// whatever either of them held before.
pub proof fn lemma_tick_deterministic(source: &ScreenBuf, first: &ScreenBuf, second: &ScreenBuf)
    requires
        first@ == next_generation(source@),
        second@ == next_generation(source@),
    ensures
        *first == *second,
{
    first.lemma_cells_determine_buffer(second);
}

/// No cell of the blank grid has a live neighbour.
pub proof fn lemma_blank_has_no_live_neighbours(x: int, y: int)
    ensures
        live_neighbours(blank_cells(), x, y) == 0,
{
    let around = neighbourhood(blank_cells(), x, y);
    lemma_wrap_correct(x - 1, y - 1);
    lemma_wrap_correct(x, y - 1);
    lemma_wrap_correct(x + 1, y - 1);
    lemma_wrap_correct(x - 1, y);
    lemma_wrap_correct(x + 1, y);
    lemma_wrap_correct(x - 1, y + 1);
    lemma_wrap_correct(x, y + 1);
    lemma_wrap_correct(x + 1, y + 1);
    assert(around =~= seq![0u8, 0u8, 0u8, 0u8, 0u8, 0u8, 0u8, 0u8]);
    lemma_live_count_of_none(around);
}

/// A grid without a live cell stays as it is: the blank grid after any
/// number of steps is the blank grid.
pub proof fn lemma_blank_stays_blank(steps: nat)
    ensures
        generation(blank_cells(), steps) == blank_cells(),
    decreases steps,
{
    if steps > 0 {
        lemma_blank_stays_blank((steps - 1) as nat);
        assert forall|i: int| 0 <= i < CELLS implies #[trigger] next_generation(blank_cells())[i]
            == 0u8 by {
            lemma_blank_has_no_live_neighbours(i % WIDTH as int, i / WIDTH as int);
        }
        assert(next_generation(blank_cells()) =~= blank_cells());
    }
}

/// Applies the transition rule to one cell.
pub fn transition(state: u8, live: usize) -> (next: u8)
    requires
        state <= 3,
    ensures
        next == next_state(state, live as int),
        next <= 3,
{
    if state == 0 {
        if live == 2 {
            1
        } else {
            0
        }
    } else if state == 1 {
        if live == 3 || live == 4 || live == 5 {
            1
        } else {
            2
        }
    } else if state == 2 {
        3
    } else {
        0
    }
}

/// Counts the live cells of a neighbourhood.
pub fn count_live(around: &[u8; 8]) -> (live: usize)
    ensures
        live == live_count(around@),
        live <= 8,
{
    let mut live: usize = 0;
    for i in 0..8usize
        invariant
            live == live_count(around@.take(i as int)),
            live <= i,
    {
        assert(around@.take(i + 1).drop_last() =~= around@.take(i as int));
        if around[i] == 1 {
            live += 1;
        }
    }
    assert(around@.take(8) =~= around@);
    live
}

impl ScreenBuf {
    /// Writes the generation that follows this one into `next_buf`. Every
    /// cell is read from this buffer only, so no cell's new state has a part
    /// in another cell's, and what `next_buf` held before has none either.
    pub fn tick(&self, next_buf: &mut ScreenBuf)
        ensures
            final(next_buf)@ == next_generation(self@),
    {
        proof {
            next_buf.lemma_states_in_range();
        }
        for y in 0..HEIGHT as i32
            invariant
                next_buf@.len() == CELLS,
                forall|i: int|
                    0 <= i < y * WIDTH ==> next_buf@[i] == #[trigger] next_generation(self@)[i],
        {
            for x in 0..WIDTH as i32
                invariant
                    0 <= y < HEIGHT,
                    next_buf@.len() == CELLS,
                    forall|i: int|
                        0 <= i < y * WIDTH + x ==> next_buf@[i] == #[trigger] next_generation(
                            self@,
                        )[i],
            {
                let neighbours = self.neighbours(x, y);
                let count = count_live(&neighbours);
                let cell = self.value_at(x, y);
                let next = transition(cell, count);
                assert(cell_index(x as int, y as int) == y * WIDTH + x);
                next_buf.set(x, y, next);
            }
        }
        assert(next_buf@ =~= next_generation(self@));
    }
}

} // verus!
