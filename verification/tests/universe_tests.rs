use game_of_life::{Universe, UniverseError};

/// Read cell `idx` out of the bit-packed block buffer.
fn bit(words: &[u32], idx: usize) -> bool {
    (words[idx / 32] >> (idx % 32)) & 1 == 1
}

/// The alive cells of `u` as `(row, col)` pairs, in row-major order.
fn alive_cells(u: &Universe) -> Vec<(u32, u32)> {
    let w = u.width() as usize;
    let h = u.height() as usize;
    let words = u.get_cells();
    let mut out = Vec::new();
    for row in 0..h {
        for col in 0..w {
            if bit(words, row * w + col) {
                out.push((row as u32, col as u32));
            }
        }
    }
    out
}

/// A fresh all-dead universe of the given dimensions.
fn empty_universe(width: u32, height: u32) -> Universe {
    let mut u = Universe::new();
    u.set_width(width).unwrap();
    u.set_height(height).unwrap();
    u
}

#[test]
fn new_has_default_dimensions() {
    let u = Universe::new();
    assert_eq!(u.width(), 32);
    assert_eq!(u.height(), 32);
}

#[test]
fn new_seeds_every_cell_deterministically() {
    let u = Universe::new();
    let words = u.get_cells();
    for i in 0..(32 * 32) {
        assert_eq!(bit(words, i), i % 2 == 0 || i % 7 == 0, "cell {}", i);
    }
}

#[test]
fn cells_and_get_cells_agree() {
    let u = Universe::new();
    assert_eq!(u.get_cells(), u.cells());
}

#[test]
fn get_cells_has_one_bit_per_cell() {
    let u = empty_universe(6, 6);
    // 36 cells fit in two 32-bit blocks.
    assert_eq!(u.get_cells().len(), 2);
}

#[test]
fn set_width_is_destructive() {
    let mut u = Universe::new();
    u.set_cell(0, 0, true);
    u.set_width(6).unwrap();
    assert_eq!(u.width(), 6);
    assert_eq!(u.height(), 32);
    assert!(alive_cells(&u).is_empty());
}

#[test]
fn set_height_is_destructive() {
    let mut u = Universe::new();
    u.set_cell(3, 3, true);
    u.set_height(6).unwrap();
    assert_eq!(u.width(), 32);
    assert_eq!(u.height(), 6);
    assert!(alive_cells(&u).is_empty());
}

#[test]
fn set_width_zero_is_rejected() {
    let mut u = empty_universe(4, 4);
    u.set_cell(1, 1, true);
    assert_eq!(u.set_width(0), Err(UniverseError::InvalidDimension));
    assert_eq!(u.width(), 4);
    assert_eq!(u.height(), 4);
    assert_eq!(alive_cells(&u), vec![(1, 1)]);
}

#[test]
fn set_height_zero_is_rejected() {
    let mut u = empty_universe(4, 4);
    u.set_cell(2, 3, true);
    assert_eq!(u.set_height(0), Err(UniverseError::InvalidDimension));
    assert_eq!(u.width(), 4);
    assert_eq!(u.height(), 4);
    assert_eq!(alive_cells(&u), vec![(2, 3)]);
}

#[test]
fn clear_kills_every_cell() {
    let mut u = Universe::new();
    u.clear();
    assert!(alive_cells(&u).is_empty());
    assert_eq!(u.width(), 32);
    assert_eq!(u.height(), 32);
}

#[test]
fn clear_twice_equals_clear_once() {
    let mut once = Universe::new();
    once.clear();
    let mut twice = Universe::new();
    twice.clear();
    twice.clear();
    assert_eq!(once.get_cells(), twice.get_cells());
    assert!(alive_cells(&twice).is_empty());
}

#[test]
fn set_cells_is_additive() {
    let mut u = empty_universe(6, 6);
    u.set_cell(0, 0, true);
    u.set_cells(&[(2, 3), (4, 1)]).unwrap();
    assert_eq!(alive_cells(&u), vec![(0, 0), (2, 3), (4, 1)]);
}

#[test]
fn set_cells_out_of_bounds_is_rejected_whole() {
    let mut u = empty_universe(6, 6);
    u.set_cell(1, 1, true);
    let r = u.set_cells(&[(2, 2), (6, 0)]);
    assert_eq!(r, Err(UniverseError::OutOfBounds));
    // The call is rejected as a whole: not even the in-range pair was set.
    assert_eq!(alive_cells(&u), vec![(1, 1)]);
}

#[test]
fn set_cell_writes_both_states() {
    let mut u = empty_universe(5, 5);
    u.set_cell(2, 4, true);
    assert_eq!(alive_cells(&u), vec![(2, 4)]);
    u.set_cell(2, 4, false);
    assert!(alive_cells(&u).is_empty());
}

#[test]
fn set_cell_wraps_coordinates() {
    let mut u = empty_universe(5, 7);
    // row 9 wraps to 2 (mod 7 rows), col 11 wraps to 1 (mod 5 columns).
    u.set_cell(9, 11, true);
    assert_eq!(alive_cells(&u), vec![(2, 1)]);
}

#[test]
fn toggle_cell_flips_state() {
    let mut u = empty_universe(4, 4);
    u.toggle_cell(1, 2);
    assert_eq!(alive_cells(&u), vec![(1, 2)]);
    u.toggle_cell(1, 2);
    assert!(alive_cells(&u).is_empty());
}

#[test]
fn toggle_at_height_matches_toggle_at_zero() {
    let h = 6;
    let w = 4;
    let mut wrapped = empty_universe(w, h);
    wrapped.toggle_cell(h, 0);
    let mut plain = empty_universe(w, h);
    plain.toggle_cell(0, 0);
    assert_eq!(wrapped.get_cells(), plain.get_cells());
    assert_eq!(alive_cells(&wrapped), vec![(0, 0)]);
}

#[test]
fn randomize_takes_one_draw_per_cell() {
    let mut u = empty_universe(4, 4);
    let mut draws = vec![false; 16];
    draws[0] = true;
    draws[5] = true;
    draws[15] = true;
    u.randomize(&draws);
    assert_eq!(alive_cells(&u), vec![(0, 0), (1, 1), (3, 3)]);
}

#[test]
fn tick_glider_fixture() {
    let mut u = empty_universe(6, 6);
    u.set_cells(&[(1, 2), (2, 3), (3, 1), (3, 2), (3, 3)]).unwrap();
    u.tick();
    assert_eq!(alive_cells(&u), vec![(2, 1), (2, 3), (3, 2), (3, 3), (4, 2)]);
}

#[test]
fn test_tick() {
    let mut input_universe = empty_universe(6, 6);
    input_universe.set_cells(&[(1, 2), (2, 3), (3, 1), (3, 2), (3, 3)]).unwrap();
    input_universe.tick();

    let mut expected_universe = empty_universe(6, 6);
    expected_universe.set_cells(&[(2, 1), (2, 3), (3, 2), (3, 3), (4, 2)]).unwrap();

    assert_eq!(&input_universe.get_cells(), &expected_universe.get_cells());
}

#[test]
fn tick_blinker_uses_a_snapshot() {
    // A horizontal blinker must become a vertical one. An in-place update
    // would let the newly born (1, 2) feed the count of (2, 1) and keep it
    // alive, so the exact expected set rules that out.
    let mut u = empty_universe(6, 6);
    u.set_cells(&[(2, 1), (2, 2), (2, 3)]).unwrap();
    u.tick();
    assert_eq!(alive_cells(&u), vec![(1, 2), (2, 2), (3, 2)]);
}

#[test]
fn tick_counts_neighbors_across_the_edge() {
    // A blinker on the bottom row: the cell (0, 2) sees its three live
    // neighbors across the wrapped edge and is born.
    let mut u = empty_universe(6, 6);
    u.set_cells(&[(5, 1), (5, 2), (5, 3)]).unwrap();
    u.tick();
    assert_eq!(alive_cells(&u), vec![(0, 2), (4, 2), (5, 2)]);
}

#[test]
fn tick_is_deterministic() {
    let mut a = Universe::new();
    let mut b = Universe::new();
    a.tick();
    b.tick();
    assert_eq!(a.get_cells(), b.get_cells());
    assert_eq!(a.width(), b.width());
    assert_eq!(a.height(), b.height());
}

#[test]
fn tick_keeps_dimensions() {
    let mut u = empty_universe(7, 3);
    u.tick();
    assert_eq!(u.width(), 7);
    assert_eq!(u.height(), 3);
}

#[test]
fn tick_on_empty_grid_stays_empty() {
    let mut u = empty_universe(6, 6);
    u.tick();
    assert!(alive_cells(&u).is_empty());
}

#[test]
fn block_is_still_life() {
    let mut u = empty_universe(6, 6);
    u.set_cells(&[(1, 1), (1, 2), (2, 1), (2, 2)]).unwrap();
    u.tick();
    assert_eq!(alive_cells(&u), vec![(1, 1), (1, 2), (2, 1), (2, 2)]);
}
