use game_of_life::{Cell, OutOfBounds, Universe};

fn blank(width: u32, height: u32) -> Universe {
    let mut universe = Universe::new();
    universe.set_width(width);
    universe.set_height(height);
    universe
}

fn alive_positions(universe: &Universe) -> Vec<(u32, u32)> {
    let width = universe.width();
    let mut found = Vec::new();
    for (index, cell) in universe.get_cells().iter().enumerate() {
        if *cell == Cell::Alive {
            found.push((index as u32 / width, index as u32 % width));
        }
    }
    found
}

#[test]
fn new_universe_is_64_by_64() {
    let universe = Universe::new();
    assert_eq!(universe.width(), 64);
    assert_eq!(universe.height(), 64);
    assert_eq!(universe.get_cells().len(), 64 * 64);
}

#[test]
fn new_universe_has_the_fixed_seed() {
    let universe = Universe::new();
    let cells = universe.get_cells();
    for (index, cell) in cells.iter().enumerate() {
        let expected = if index % 2 == 0 || index % 7 == 0 {
            Cell::Alive
        } else {
            Cell::Dead
        };
        assert_eq!(*cell, expected, "cell {}", index);
    }
    assert_eq!(cells[0], Cell::Alive);
    assert_eq!(cells[1], Cell::Dead);
    assert_eq!(cells[7], Cell::Alive);
    assert_eq!(cells[9], Cell::Dead);
}

#[test]
fn new_universe_is_reproducible() {
    assert_eq!(Universe::new().get_cells(), Universe::new().get_cells());
}

#[test]
fn set_width_resets_every_cell() {
    let mut universe = Universe::new();
    universe.set_width(10);
    assert_eq!(universe.width(), 10);
    assert_eq!(universe.height(), 64);
    assert_eq!(universe.get_cells().len(), 640);
    assert!(universe.get_cells().iter().all(|cell| *cell == Cell::Dead));
}

#[test]
fn set_height_resets_every_cell() {
    let mut universe = Universe::new();
    universe.set_height(3);
    assert_eq!(universe.width(), 64);
    assert_eq!(universe.height(), 3);
    assert_eq!(universe.get_cells().len(), 192);
    assert!(universe.get_cells().iter().all(|cell| *cell == Cell::Dead));
}

#[test]
fn zero_is_a_valid_dimension() {
    let mut universe = Universe::new();
    universe.set_width(0);
    assert_eq!(universe.width(), 0);
    assert_eq!(universe.get_cells().len(), 0);
    universe.tick();
    assert_eq!(universe.get_cells().len(), 0);
    assert_eq!(universe.toggle_cell(0, 0), Err(OutOfBounds { row: 0, column: 0 }));
    universe.set_height(0);
    universe.set_width(5);
    assert_eq!(universe.get_cells().len(), 0);
    universe.tick();
    assert_eq!(universe.get_cells().len(), 0);
    assert_eq!(universe.render(), "");
}

#[test]
fn toggle_cell_flips_one_cell() {
    let mut universe = blank(4, 3);
    assert_eq!(universe.toggle_cell(1, 2), Ok(()));
    assert_eq!(alive_positions(&universe), vec![(1, 2)]);
    assert_eq!(universe.get_cells()[1 * 4 + 2], Cell::Alive);
    assert_eq!(universe.toggle_cell(1, 2), Ok(()));
    assert_eq!(alive_positions(&universe), vec![]);
}

#[test]
fn toggle_cell_rejects_positions_off_the_grid() {
    let mut universe = Universe::new();
    let before = universe.get_cells().to_vec();
    let (width, height) = (universe.width(), universe.height());
    assert_eq!(universe.toggle_cell(height, 0), Err(OutOfBounds { row: height, column: 0 }));
    assert_eq!(universe.get_cells(), &before[..]);
    assert_eq!(universe.toggle_cell(0, width), Err(OutOfBounds { row: 0, column: width }));
    assert_eq!(universe.get_cells(), &before[..]);
    assert_eq!(
        universe.toggle_cell(u32::MAX, u32::MAX),
        Err(OutOfBounds { row: u32::MAX, column: u32::MAX })
    );
    assert_eq!(universe.get_cells(), &before[..]);
}

#[test]
fn set_cells_makes_named_cells_alive() {
    let mut universe = blank(5, 5);
    assert_eq!(universe.set_cells(&[(0, 0), (2, 3), (4, 4), (2, 3)]), Ok(()));
    assert_eq!(alive_positions(&universe), vec![(0, 0), (2, 3), (4, 4)]);
    assert_eq!(universe.set_cells(&[(2, 3), (1, 1)]), Ok(()));
    assert_eq!(alive_positions(&universe), vec![(0, 0), (1, 1), (2, 3), (4, 4)]);
    assert_eq!(universe.set_cells(&[]), Ok(()));
    assert_eq!(alive_positions(&universe), vec![(0, 0), (1, 1), (2, 3), (4, 4)]);
}

#[test]
fn set_cells_is_all_or_nothing() {
    let mut universe = blank(6, 4);
    let height = universe.height();
    assert_eq!(
        universe.set_cells(&[(0, 0), (height, 0)]),
        Err(OutOfBounds { row: height, column: 0 })
    );
    assert_eq!(universe.get_cells()[0], Cell::Dead);
    assert_eq!(alive_positions(&universe), vec![]);

    universe.toggle_cell(0, 0).unwrap();
    assert_eq!(
        universe.set_cells(&[(0, 0), (1, 1), (height, 0), (2, 2)]),
        Err(OutOfBounds { row: height, column: 0 })
    );
    assert_eq!(universe.get_cells()[0], Cell::Alive);
    assert_eq!(alive_positions(&universe), vec![(0, 0)]);
}

#[test]
fn set_cells_reports_the_first_pair_off_the_grid() {
    let mut universe = blank(3, 3);
    assert_eq!(
        universe.set_cells(&[(1, 1), (0, 3), (7, 7)]),
        Err(OutOfBounds { row: 0, column: 3 })
    );
    assert_eq!(alive_positions(&universe), vec![]);
}

#[test]
fn block_is_a_still_life() {
    let mut universe = blank(6, 6);
    let block = vec![(2, 2), (2, 3), (3, 2), (3, 3)];
    universe.set_cells(&block).unwrap();
    for _ in 0..10 {
        universe.tick();
        assert_eq!(alive_positions(&universe), block);
    }
}

#[test]
fn block_across_the_corner_is_a_still_life() {
    let mut universe = blank(4, 4);
    universe.set_cells(&[(3, 3), (3, 0), (0, 3), (0, 0)]).unwrap();
    let before = universe.get_cells().to_vec();
    for _ in 0..4 {
        universe.tick();
        assert_eq!(universe.get_cells(), &before[..]);
    }
}

#[test]
fn blinker_has_period_two() {
    let mut universe = blank(5, 5);
    universe.set_cells(&[(2, 1), (2, 2), (2, 3)]).unwrap();
    universe.tick();
    assert_eq!(alive_positions(&universe), vec![(1, 2), (2, 2), (3, 2)]);
    universe.tick();
    assert_eq!(alive_positions(&universe), vec![(2, 1), (2, 2), (2, 3)]);
}

#[test]
fn blinker_on_the_top_row_wraps_to_the_bottom() {
    let mut universe = blank(6, 5);
    universe.set_cells(&[(0, 1), (0, 2), (0, 3)]).unwrap();
    universe.tick();
    assert_eq!(alive_positions(&universe), vec![(0, 2), (1, 2), (4, 2)]);
    universe.tick();
    assert_eq!(alive_positions(&universe), vec![(0, 1), (0, 2), (0, 3)]);
}

#[test]
fn glider_moves_one_cell_diagonally_in_four_ticks() {
    let mut universe = blank(8, 8);
    universe.set_cells(&[(0, 1), (1, 2), (2, 0), (2, 1), (2, 2)]).unwrap();
    for _ in 0..4 {
        universe.tick();
    }
    assert_eq!(alive_positions(&universe), vec![(1, 2), (2, 3), (3, 1), (3, 2), (3, 3)]);
}

#[test]
fn tick_is_a_function_of_the_state() {
    let mut first = Universe::new();
    let mut second = Universe::new();
    for _ in 0..5 {
        first.tick();
        second.tick();
        assert_eq!(first.get_cells(), second.get_cells());
    }
}

#[test]
fn tick_keeps_the_shape() {
    let mut universe = Universe::new();
    universe.tick();
    assert_eq!(universe.width(), 64);
    assert_eq!(universe.height(), 64);
    assert_eq!(universe.get_cells().len(), 64 * 64);
}

#[test]
fn neighbours_are_counted_across_the_corner() {
    let mut universe = blank(3, 3);
    universe.set_cells(&[(0, 0)]).unwrap();
    assert_eq!(universe.live_neighbor_count(2, 2), Ok(1));
    assert_eq!(universe.live_neighbor_count(1, 1), Ok(1));
    assert_eq!(universe.live_neighbor_count(0, 0), Ok(0));
    assert_eq!(universe.live_neighbor_count(0, 2), Ok(1));
    assert_eq!(universe.live_neighbor_count(2, 0), Ok(1));
}

#[test]
fn neighbours_on_a_full_grid() {
    let mut universe = blank(4, 4);
    let mut all = Vec::new();
    for row in 0..4 {
        for column in 0..4 {
            all.push((row, column));
        }
    }
    universe.set_cells(&all).unwrap();
    for row in 0..4 {
        for column in 0..4 {
            assert_eq!(universe.live_neighbor_count(row, column), Ok(8));
        }
    }
    universe.tick();
    assert_eq!(alive_positions(&universe), vec![]);
}

#[test]
fn a_lone_cell_on_a_one_by_one_grid_is_its_own_eight_neighbours() {
    let mut universe = blank(1, 1);
    universe.toggle_cell(0, 0).unwrap();
    assert_eq!(universe.live_neighbor_count(0, 0), Ok(8));
    universe.tick();
    assert_eq!(universe.get_cells(), &[Cell::Dead][..]);
}

#[test]
fn live_neighbor_count_rejects_positions_off_the_grid() {
    let universe = blank(3, 2);
    assert_eq!(universe.live_neighbor_count(2, 0), Err(OutOfBounds { row: 2, column: 0 }));
    assert_eq!(universe.live_neighbor_count(0, 3), Err(OutOfBounds { row: 0, column: 3 }));
    assert_eq!(universe.live_neighbor_count(1, 2), Ok(0));
}

#[test]
fn render_writes_one_line_per_row() {
    let mut universe = blank(3, 2);
    universe.set_cells(&[(0, 1), (1, 0), (1, 2)]).unwrap();
    assert_eq!(universe.render(), "\u{25FB}\u{25FC}\u{25FB}\n\u{25FC}\u{25FB}\u{25FC}\n");
}

#[test]
fn render_of_a_grid_without_columns_is_blank_lines() {
    let universe = blank(0, 3);
    assert_eq!(universe.render(), "\n\n\n");
}

#[test]
fn lonely_and_crowded_cells_die() {
    let mut universe = blank(5, 5);
    universe.set_cells(&[(2, 2)]).unwrap();
    universe.tick();
    assert_eq!(alive_positions(&universe), vec![]);

    universe.set_cells(&[(1, 1), (1, 2), (1, 3), (2, 1), (2, 2)]).unwrap();
    assert_eq!(universe.live_neighbor_count(2, 2), Ok(4));
    universe.tick();
    assert_eq!(universe.get_cells()[2 * 5 + 2], Cell::Dead);
}

#[test]
fn to_bytes_encodes_dead_as_zero_and_alive_as_one() {
    let mut universe = blank(2, 2);
    universe.set_cells(&[(0, 1), (1, 0)]).unwrap();
    assert_eq!(universe.to_bytes(), vec![0, 1, 1, 0]);
    assert_eq!(blank(0, 7).to_bytes(), Vec::<u8>::new());
}

#[test]
fn buffer_always_holds_width_times_height_cells_of_zero_or_one() {
    fn check(universe: &Universe) {
        let expected = universe.width() as usize * universe.height() as usize;
        assert_eq!(universe.get_cells().len(), expected);
        assert_eq!(universe.to_bytes().len(), expected);
        assert!(universe.to_bytes().iter().all(|byte| *byte <= 1));
    }
    let mut universe = Universe::new();
    check(&universe);
    universe.tick();
    check(&universe);
    universe.set_width(7);
    check(&universe);
    universe.set_height(5);
    check(&universe);
    universe.toggle_cell(4, 6).unwrap();
    check(&universe);
    assert!(universe.toggle_cell(5, 6).is_err());
    check(&universe);
    universe.set_cells(&[(0, 0), (1, 1), (4, 6)]).unwrap();
    check(&universe);
    assert!(universe.set_cells(&[(0, 0), (0, 7)]).is_err());
    check(&universe);
    universe.tick();
    check(&universe);
    universe.set_height(0);
    check(&universe);
    universe.tick();
    check(&universe);
}

#[test]
fn blinker_turns_on_the_smallest_grid_that_holds_it() {
    let mut universe = blank(4, 4);
    universe.set_cells(&[(1, 0), (1, 1), (1, 2)]).unwrap();
    universe.tick();
    assert_eq!(alive_positions(&universe), vec![(0, 1), (1, 1), (2, 1)]);
    universe.tick();
    assert_eq!(alive_positions(&universe), vec![(1, 0), (1, 1), (1, 2)]);
}

#[test]
fn blinker_across_the_right_edge_turns_about_its_middle() {
    let mut universe = blank(5, 5);
    universe.set_cells(&[(2, 3), (2, 4), (2, 0)]).unwrap();
    universe.tick();
    assert_eq!(alive_positions(&universe), vec![(1, 4), (2, 4), (3, 4)]);
    universe.tick();
    assert_eq!(alive_positions(&universe), vec![(2, 0), (2, 3), (2, 4)]);
}

#[test]
fn block_is_a_still_life_on_a_three_by_three_torus() {
    let mut universe = blank(3, 3);
    let block = vec![(0, 0), (0, 1), (1, 0), (1, 1)];
    universe.set_cells(&block).unwrap();
    for _ in 0..3 {
        universe.tick();
        assert_eq!(alive_positions(&universe), block);
    }
}

#[test]
fn a_neighbour_on_a_two_wide_grid_counts_on_both_sides() {
    let mut universe = blank(2, 3);
    universe.set_cells(&[(1, 0)]).unwrap();
    assert_eq!(universe.live_neighbor_count(1, 1), Ok(2));
    assert_eq!(universe.live_neighbor_count(0, 1), Ok(2));
    assert_eq!(universe.live_neighbor_count(0, 0), Ok(1));
    assert_eq!(universe.live_neighbor_count(1, 0), Ok(0));
}

#[test]
fn toggle_cell_twice_restores_the_grid() {
    let mut universe = Universe::new();
    let before = universe.get_cells().to_vec();
    universe.toggle_cell(10, 20).unwrap();
    assert_ne!(universe.get_cells(), &before[..]);
    assert_eq!(universe.get_cells()[10 * 64 + 20], Cell::Dead);
    universe.toggle_cell(10, 20).unwrap();
    assert_eq!(universe.get_cells(), &before[..]);
}

#[test]
fn first_generation_after_the_seed() {
    let mut universe = Universe::new();
    universe.tick();
    let cells = universe.get_cells();
    let seed = |row: i64, column: i64| -> u8 {
        let index = row.rem_euclid(64) * 64 + column.rem_euclid(64);
        (index % 2 == 0 || index % 7 == 0) as u8
    };
    for row in 0..64i64 {
        for column in 0..64i64 {
            let mut count = 0;
            for (dr, dc) in [(-1, -1), (-1, 0), (-1, 1), (0, -1), (0, 1), (1, -1), (1, 0), (1, 1)] {
                count += seed(row + dr, column + dc);
            }
            let expected = if count == 3 || (count == 2 && seed(row, column) == 1) {
                Cell::Alive
            } else {
                Cell::Dead
            };
            assert_eq!(cells[(row * 64 + column) as usize], expected, "({}, {})", row, column);
        }
    }
}
