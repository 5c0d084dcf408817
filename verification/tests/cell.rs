use game_of_life::Cell;

#[test]
fn cells_are_encoded_as_zero_and_one() {
    assert_eq!(Cell::Dead.to_byte(), 0);
    assert_eq!(Cell::Alive.to_byte(), 1);
}

#[test]
fn only_zero_and_one_decode() {
    assert_eq!(Cell::from_byte(0), Some(Cell::Dead));
    assert_eq!(Cell::from_byte(1), Some(Cell::Alive));
    for byte in 2..=255u8 {
        assert_eq!(Cell::from_byte(byte), None);
    }
}

#[test]
fn decoding_undoes_encoding() {
    for cell in [Cell::Dead, Cell::Alive] {
        assert_eq!(Cell::from_byte(cell.to_byte()), Some(cell));
    }
}

#[test]
fn toggled_is_the_other_state() {
    assert_eq!(Cell::Dead.toggled(), Cell::Alive);
    assert_eq!(Cell::Alive.toggled(), Cell::Dead);
}

#[test]
fn live_cell_survives_with_two_or_three_neighbours() {
    for count in 0..=8u8 {
        let expected = if count == 2 || count == 3 {
            Cell::Alive
        } else {
            Cell::Dead
        };
        assert_eq!(Cell::Alive.evolve(count), expected, "{} neighbours", count);
    }
}

#[test]
fn dead_cell_is_born_with_exactly_three_neighbours() {
    for count in 0..=8u8 {
        let expected = if count == 3 {
            Cell::Alive
        } else {
            Cell::Dead
        };
        assert_eq!(Cell::Dead.evolve(count), expected, "{} neighbours", count);
    }
}

#[test]
fn glyphs_are_the_two_squares() {
    assert_eq!(Cell::Dead.glyph_str(), "\u{25FB}");
    assert_eq!(Cell::Alive.glyph_str(), "\u{25FC}");
}
