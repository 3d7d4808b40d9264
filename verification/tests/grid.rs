use starwars_ca::grid::{ScreenBuf, BYTES, CELLS, HEIGHT, WIDTH};

const W: i32 = WIDTH as i32;
const H: i32 = HEIGHT as i32;

#[test]
fn dimensions_are_the_reference_configuration() {
    assert_eq!(WIDTH, 256);
    assert_eq!(HEIGHT, 256);
    assert_eq!(CELLS, 65536);
    assert_eq!(BYTES, 16384);
}

#[test]
fn new_grid_is_all_zero() {
    let grid = ScreenBuf::new();
    for y in 0..H {
        for x in 0..W {
            assert_eq!(grid.value_at(x, y), 0);
        }
    }
}

#[test]
fn get_wraps_negative_column() {
    let mut grid = ScreenBuf::new();
    grid.set(W - 1, 0, 2);
    assert_eq!(grid.value_at(-1, 0), 2);
    assert_eq!(grid.value_at(-1, 0), grid.value_at(W - 1, 0));
}

#[test]
fn get_wraps_negative_row() {
    let mut grid = ScreenBuf::new();
    grid.set(5, H - 1, 3);
    assert_eq!(grid.value_at(5, -1), 3);
    assert_eq!(grid.value_at(5, -1 - H), 3);
}

#[test]
fn get_wraps_past_the_far_edges() {
    let mut grid = ScreenBuf::new();
    grid.set(0, 0, 1);
    grid.set(7, 9, 2);
    assert_eq!(grid.value_at(W, 0), 1);
    assert_eq!(grid.value_at(0, H), 1);
    assert_eq!(grid.value_at(W, H), 1);
    assert_eq!(grid.value_at(7 + 3 * W, 9 + 5 * H), 2);
    assert_eq!(grid.value_at(7 - 3 * W, 9 - 5 * H), 2);
}

#[test]
fn get_wraps_at_the_limits_of_the_coordinate_type() {
    let mut grid = ScreenBuf::new();
    // i32::MIN is a multiple of 256; i32::MAX is one less than one.
    grid.set(i32::MIN, i32::MAX, 3);
    assert_eq!(grid.value_at(0, H - 1), 3);
    assert_eq!(grid.value_at(i32::MIN, i32::MAX), 3);
    assert_eq!(grid.value_at(1, H - 1), 0);
}

#[test]
fn set_wraps_like_get() {
    let mut grid = ScreenBuf::new();
    grid.set(-3, -4, 1);
    assert_eq!(grid.value_at(W - 3, H - 4), 1);
    grid.set(W + 10, 2 * H + 20, 2);
    assert_eq!(grid.value_at(10, 20), 2);
}

#[test]
fn set_then_get_round_trips_every_state() {
    let mut grid = ScreenBuf::new();
    for state in 0..4u8 {
        for &(x, y) in &[(0, 0), (1, 0), (2, 0), (3, 0), (255, 255), (128, 17), (-1, -1)] {
            grid.set(x, y, state);
            assert_eq!(grid.value_at(x, y), state);
        }
    }
}

#[test]
fn set_leaves_all_other_cells_unchanged() {
    let mut grid = ScreenBuf::new();
    for y in 0..H {
        for x in 0..W {
            grid.set(x, y, ((x + 3 * y) % 4) as u8);
        }
    }
    grid.set(100, 50, 1);
    for y in 0..H {
        for x in 0..W {
            let expected = if (x, y) == (100, 50) { 1 } else { ((x + 3 * y) % 4) as u8 };
            assert_eq!(grid.value_at(x, y), expected);
        }
    }
}

#[test]
fn set_masks_wide_state_to_two_bits() {
    let mut grid = ScreenBuf::new();
    grid.set(9, 9, 0xFF);
    assert_eq!(grid.value_at(9, 9), 3);
    grid.set(9, 9, 0b0000_0110);
    assert_eq!(grid.value_at(9, 9), 2);
    grid.set(9, 9, 4);
    assert_eq!(grid.value_at(9, 9), 0);
    grid.set(9, 9, 0b1111_1101);
    assert_eq!(grid.value_at(9, 9), 1);
}

#[test]
fn set_does_not_touch_cells_in_the_same_byte() {
    // Cells 8..12 of row 0 share one byte.
    for slot in 0..4 {
        let mut grid = ScreenBuf::new();
        for other in 0..4 {
            grid.set(8 + other, 0, (other as u8 + 1) % 4);
        }
        grid.set(8 + slot, 0, 0xFF);
        for other in 0..4 {
            let expected = if other == slot { 3 } else { (other as u8 + 1) % 4 };
            assert_eq!(grid.value_at(8 + other, 0), expected);
        }
        grid.set(8 + slot, 0, 0xFC);
        for other in 0..4 {
            let expected = if other == slot { 0 } else { (other as u8 + 1) % 4 };
            assert_eq!(grid.value_at(8 + other, 0), expected);
        }
    }
}

#[test]
fn set_overwrites_previous_state() {
    let mut grid = ScreenBuf::new();
    grid.set(4, 4, 3);
    grid.set(4, 4, 1);
    assert_eq!(grid.value_at(4, 4), 1);
    grid.set(4, 4, 0);
    assert_eq!(grid.value_at(4, 4), 0);
}

#[test]
fn neighbours_are_in_row_major_order() {
    let mut grid = ScreenBuf::new();
    grid.set(9, 19, 1);
    grid.set(10, 19, 2);
    grid.set(11, 19, 3);
    grid.set(9, 20, 3);
    grid.set(10, 20, 1);
    grid.set(11, 20, 2);
    grid.set(9, 21, 2);
    grid.set(10, 21, 3);
    grid.set(11, 21, 1);
    assert_eq!(grid.neighbours(10, 20), [1, 2, 3, 3, 2, 2, 3, 1]);
}

#[test]
fn neighbours_leave_out_the_centre() {
    let mut grid = ScreenBuf::new();
    grid.set(30, 30, 1);
    assert_eq!(grid.neighbours(30, 30), [0; 8]);
    assert_eq!(grid.neighbours(31, 31), [1, 0, 0, 0, 0, 0, 0, 0]);
    assert_eq!(grid.neighbours(29, 29), [0, 0, 0, 0, 0, 0, 0, 1]);
}

#[test]
fn neighbours_wrap_around_the_corner() {
    let mut grid = ScreenBuf::new();
    grid.set(W - 1, H - 1, 1);
    grid.set(0, H - 1, 2);
    grid.set(1, H - 1, 3);
    grid.set(W - 1, 0, 3);
    grid.set(1, 0, 1);
    grid.set(W - 1, 1, 2);
    grid.set(0, 1, 1);
    grid.set(1, 1, 3);
    assert_eq!(grid.neighbours(0, 0), [1, 2, 3, 3, 1, 2, 1, 3]);
    assert_eq!(grid.neighbours(W, H), [1, 2, 3, 3, 1, 2, 1, 3]);
    assert_eq!(grid.neighbours(-W, -H), [1, 2, 3, 3, 1, 2, 1, 3]);
}

#[test]
fn neighbours_at_the_limits_of_the_coordinate_type() {
    let mut grid = ScreenBuf::new();
    grid.set(W - 1, H - 2, 1);
    grid.set(1, 0, 2);
    // (i32::MIN, i32::MAX) is the cell (0, H - 1).
    assert_eq!(grid.neighbours(i32::MIN, i32::MAX), [1, 0, 0, 0, 0, 0, 0, 2]);
    assert_eq!(grid.neighbours(0, H - 1), [1, 0, 0, 0, 0, 0, 0, 2]);
}

#[test]
fn clone_holds_the_same_cells_and_is_independent() {
    let mut grid = ScreenBuf::new();
    grid.set(1, 2, 3);
    let copy = grid.clone();
    grid.set(1, 2, 1);
    assert_eq!(copy.value_at(1, 2), 3);
    assert_eq!(grid.value_at(1, 2), 1);
    assert_eq!(copy.value_at(0, 0), 0);
}
