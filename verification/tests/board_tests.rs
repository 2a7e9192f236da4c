use connect_four::board::{Board, DropError, Selector};
use connect_four::piece::{Cell, Piece, PieceDef, Player};

fn plain_def() -> PieceDef {
    PieceDef::new("X", "O", ".")
}

fn marked(glyph: &str) -> String {
    format!(
        "\u{1b}[38;2;65;72;104m\u{2039}\u{1b}[m({})\u{1b}[38;2;65;72;104m\u{203a}\u{1b}[m",
        glyph
    )
}

#[test]
fn test_dimensions_clamped() {
    let b = Board::new(7, 6);
    assert_eq!(b.width(), 7);
    assert_eq!(b.height(), 6);

    let low = Board::new(0, 0);
    assert_eq!(low.width(), 1);
    assert_eq!(low.height(), 1);

    let high = Board::new(25, 99);
    assert_eq!(high.width(), 20);
    assert_eq!(high.height(), 20);

    let mixed = Board::new(1, 20);
    assert_eq!(mixed.width(), 1);
    assert_eq!(mixed.height(), 20);
}

#[test]
fn test_fresh_board_all_empty() {
    let b = Board::new(7, 6);
    assert_eq!(b.cells.len(), 6);
    for row in &b.cells {
        assert_eq!(row.len(), 7);
        for cell in row {
            assert!(cell.is_empty());
            assert_eq!(*cell, Cell::Empty);
        }
    }
}

#[test]
fn test_drop_lands_on_bottom_row() {
    let mut b = Board::new(7, 6);
    b.selector_reset();
    let r = b.drop_piece(Piece::Reg(Player::P1));
    assert!(r.is_ok());
    assert_eq!(b.cells[5][0], Cell::Occupied(Player::P1));
    for i in 0..5 {
        assert!(b.cells[i][0].is_empty());
    }
}

#[test]
fn test_drop_stacks_upward() {
    let mut b = Board::new(7, 6);
    b.selector_reset();
    for k in 0..6 {
        let mark = if k % 2 == 0 { Player::P1 } else { Player::P2 };
        let r = b.drop_piece(Piece::Reg(mark));
        assert!(r.is_ok());
        // with k pieces already in the column, the new one lands at height-1-k
        assert_eq!(b.cells[5 - k][0], Cell::Occupied(mark));
    }
}

#[test]
fn test_drop_leaves_other_cells_unchanged() {
    let mut b = Board::new(7, 6);
    b.selector_reset();
    b.drop_piece(Piece::Reg(Player::P1)).unwrap();
    let before = b.cells.clone();
    b.drop_piece(Piece::Reg(Player::P2)).unwrap();
    for i in 0..6 {
        for j in 0..7 {
            if i == 4 && j == 0 {
                assert_eq!(b.cells[i][j], Cell::Occupied(Player::P2));
            } else {
                assert_eq!(b.cells[i][j], before[i][j]);
            }
        }
    }
}

#[test]
fn test_full_column_rejected_and_unchanged() {
    let mut b = Board::new(7, 6);
    b.selector_reset();
    for _ in 0..6 {
        assert!(b.drop_piece(Piece::Reg(Player::P1)).is_ok());
    }
    let before = b.cells.clone();
    let r = b.drop_piece(Piece::Reg(Player::P2));
    assert_eq!(r, Err(DropError::FullColumn));
    assert_eq!(b.cells, before);
}

#[test]
fn test_full_column_of_height_one() {
    let mut b = Board::new(3, 1);
    b.selector_reset();
    assert!(b.drop_piece(Piece::Reg(Player::P2)).is_ok());
    assert_eq!(b.drop_piece(Piece::Reg(Player::P1)), Err(DropError::FullColumn));
    assert_eq!(b.cells[0][0], Cell::Occupied(Player::P2));
}

#[test]
fn test_selector_starts_at_one_and_shifts() {
    let mut b = Board::new(7, 6);
    assert_eq!(b.selector.pos, 1);
    b.selector_shr();
    assert_eq!(b.selector.pos, 2);
    b.selector_shl();
    assert_eq!(b.selector.pos, 1);
}

#[test]
fn test_selector_shl_converges_to_zero() {
    let mut b = Board::new(7, 6);
    for _ in 0..4 {
        b.selector_shr();
    }
    for _ in 0..10 {
        b.selector_shl();
        assert!(b.selector.pos <= 6);
    }
    assert_eq!(b.selector.pos, 0);
}

#[test]
fn test_selector_shr_converges_to_last_column() {
    let mut b = Board::new(7, 6);
    for _ in 0..10 {
        b.selector_shr();
        assert!(b.selector.pos <= 6);
    }
    assert_eq!(b.selector.pos, 6);
}

#[test]
fn test_selector_shl_clamped_at_zero() {
    let mut b = Board::new(7, 6);
    b.selector_reset();
    assert_eq!(b.selector.pos, 0);
    b.selector_shl();
    assert_eq!(b.selector.pos, 0);
}

#[test]
fn test_selector_reset_from_any_position() {
    let mut b = Board::new(7, 6);
    for _ in 0..5 {
        b.selector_shr();
    }
    assert_eq!(b.selector.pos, 6);
    b.selector_reset();
    assert_eq!(b.selector.pos, 0);
    b.selector_reset();
    assert_eq!(b.selector.pos, 0);
}

#[test]
fn test_selector_new_clamps_start() {
    let s = Selector::new(5, 3);
    assert_eq!(s.pos, 3);
    assert_eq!(s.max, 3);
    let t = Selector::new(2, 6);
    assert_eq!(t.pos, 2);
    assert_eq!(t.max, 6);
}

#[test]
fn test_selector_width_one_board() {
    let mut b = Board::new(1, 6);
    assert_eq!(b.selector.pos, 0);
    b.selector_shr();
    assert_eq!(b.selector.pos, 0);
    b.selector_shl();
    assert_eq!(b.selector.pos, 0);
}

#[test]
fn test_render_line_count_and_shape() {
    let b = Board::new(7, 6);
    let lines = b.write(Piece::Reg(Player::P1), plain_def());
    assert_eq!(lines.len(), 6 + 3);
    for i in 1..=6 {
        assert_eq!(lines[i], "| . | . | . | . | . | . | . |");
    }
    assert_eq!(lines[7], "+---+---+---+---+---+---+---+");
    assert_eq!(lines[8], "");
}

#[test]
fn test_render_selector_row() {
    let mut b = Board::new(7, 6);
    b.selector_reset();
    b.selector_shr();
    b.selector_shr();
    let lines = b.write(Piece::Reg(Player::P2), plain_def());
    let expected = format!("{}{}{}", "    ".repeat(2), marked("O"), "    ".repeat(4));
    assert_eq!(lines[0], expected);
}

#[test]
fn test_render_example_two_drops_in_column_three() {
    let mut b = Board::new(7, 6);
    b.selector_shr();
    b.selector_shr();
    assert_eq!(b.selector.pos, 3);
    b.drop_piece(Piece::Reg(Player::P1)).unwrap();
    b.drop_piece(Piece::Reg(Player::P2)).unwrap();
    let lines = b.write(Piece::Reg(Player::P1), plain_def());
    // selector row marks column 3
    let expected_sel = format!("{}{}{}", "    ".repeat(3), marked("X"), "    ".repeat(3));
    assert_eq!(lines[0], expected_sel);
    // bottom grid row holds player one's glyph in column 3
    assert_eq!(lines[6], "| . | . | . | X | . | . | . |");
    // second-from-bottom row holds player two's glyph in column 3
    assert_eq!(lines[5], "| . | . | . | O | . | . | . |");
    // everything above stays empty
    for i in 1..=4 {
        assert_eq!(lines[i], "| . | . | . | . | . | . | . |");
    }
}

#[test]
fn test_render_passes_glyphs_through_verbatim() {
    let def = PieceDef::new("\u{1b}[31m*\u{1b}[m", "o", " ");
    let mut b = Board::new(2, 2);
    b.selector_reset();
    b.drop_piece(Piece::Reg(Player::P1)).unwrap();
    let lines = b.write(Piece::Reg(Player::P2), def);
    assert_eq!(lines[2], "| \u{1b}[31m*\u{1b}[m |   |");
    assert_eq!(lines[1], "|   |   |");
}

#[test]
fn test_entire_height_counts_frame_lines() {
    let b = Board::new(7, 6);
    assert_eq!(b.get_entire_height(), 9);
    let lines = b.write(Piece::Reg(Player::P1), plain_def());
    assert_eq!(lines.len(), b.get_entire_height());
}

#[test]
fn test_reset_board_escape_sequence() {
    let b = Board::new(7, 6);
    assert_eq!(b.reset_board(), "\u{1b}[9A");
    let small = Board::new(2, 3);
    assert_eq!(small.reset_board(), "\u{1b}[6A");
    let tall = Board::new(4, 20);
    assert_eq!(tall.reset_board(), "\u{1b}[23A");
}

#[test]
fn test_selector_write_direct() {
    let s = Selector::new(0, 2);
    let line = s.write(Piece::Reg(Player::P1), plain_def());
    assert_eq!(line, format!("{}        ", marked("X")));
}

#[test]
fn test_player_alternates() {
    assert_eq!(Player::P1.next(), Player::P2);
    assert_eq!(Player::P2.next(), Player::P1);
    assert_eq!(Player::P1.next().next(), Player::P1);
}

#[test]
fn test_cell_and_piece_glyphs() {
    let def = plain_def();
    assert_eq!(Cell::Empty.write(def), ".");
    assert_eq!(Cell::Occupied(Player::P1).write(def), "X");
    assert_eq!(Cell::Occupied(Player::P2).write(def), "O");
    assert_eq!(Piece::Reg(Player::P1).write(def), "X");
    assert_eq!(Piece::Reg(Player::P2).write(def), "O");
    assert!(Cell::Empty.is_empty());
    assert!(!Cell::Occupied(Player::P1).is_empty());
}
