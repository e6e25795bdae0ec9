//! Boards as text, pieces on boards.
use tetro_tui::game::{Board, Orientation, Piece, Tetromino};
use tetro_tui::settings::{NewGameSettings, GREY_TILE};

fn empty() -> Board {
    [[None; 10]; 27]
}

#[test]
fn the_bottom_row_comes_first() {
    let board = NewGameSettings::decode_board("O  OOO   OXX  XXX XX");
    let rows: Vec<String> = board
        .iter()
        .take(3)
        .map(|row| row.iter().map(|tile| if tile.is_some() { '#' } else { '.' }).collect())
        .collect();
    assert_eq!(rows, vec!["#..###...#", "##..###.##", ".........."]);
    assert_eq!(board[0][0], Some(GREY_TILE));
}

#[test]
fn newlines_and_missing_places_do_not_count() {
    let board = NewGameSettings::decode_board("X\n X\n\nX");
    assert_eq!(&board[0][..5], &[Some(254), None, Some(254), Some(254), None]);
    assert_eq!(NewGameSettings::decode_board(""), empty());
    assert_eq!(NewGameSettings::decode_board("\n\n  "), empty());
}

#[test]
fn what_lies_beyond_the_board_is_ignored() {
    let text: String = "x".repeat(300);
    let board = NewGameSettings::decode_board(&text);
    assert!(board.iter().all(|row| row.iter().all(|tile| *tile == Some(254))));
}

#[test]
fn a_board_is_written_up_to_its_last_tile() {
    let mut board = empty();
    assert_eq!(NewGameSettings::encode_board(&board), "");
    board[0][1] = Some(3);
    assert_eq!(NewGameSettings::encode_board(&board), " X");
    board[1][0] = Some(7);
    assert_eq!(NewGameSettings::encode_board(&board), " X        X");
}

#[test]
fn writing_and_reading_keep_the_filled_places() {
    let mut board = empty();
    board[0][9] = Some(1);
    board[2][4] = Some(254);
    board[26][9] = Some(9);
    let back = NewGameSettings::decode_board(&NewGameSettings::encode_board(&board));
    for y in 0..27 {
        for x in 0..10 {
            assert_eq!(back[y][x], board[y][x].map(|_| 254));
        }
    }
    assert_eq!(NewGameSettings::encode_board(&back), NewGameSettings::encode_board(&board));
}

#[test]
fn tiles_of_every_piece_match_the_engine() {
    for t in 0..7 {
        for o in 0..4 {
            let piece = Piece {
                tetromino: Tetromino::VARIANTS[t],
                orientation: Orientation::VARIANTS[o],
                position: (3, 5),
            };
            let engine = falling_tetromino_engine::Piece {
                tetromino: falling_tetromino_engine::Tetromino::VARIANTS[t],
                orientation: falling_tetromino_engine::Orientation::VARIANTS[o],
                position: (3, 5),
            };
            let expected: Vec<_> =
                engine.tiles().iter().map(|(place, kind)| (*place, kind.get())).collect();
            assert_eq!(piece.tiles().to_vec(), expected);
        }
    }
}

#[test]
fn a_turned_piece_has_its_tiles_where_they_belong() {
    let piece =
        Piece { tetromino: Tetromino::J, orientation: Orientation::E, position: (4, 10) };
    assert_eq!(piece.tiles(), [((4, 10), 7), ((5, 12), 7), ((4, 11), 7), ((4, 12), 7)]);
    assert!(piece.is_wf());
    let outside = Piece { position: (9, 0), ..piece };
    assert!(outside.is_wf());
    let last = (usize::MAX - 26) / 2;
    assert!(Piece { position: (last - 1, 0), ..piece }.is_wf());
    assert!(!Piece { position: (last, 0), ..piece }.is_wf());
    let far = Piece { position: (usize::MAX, 0), ..piece };
    assert!(!far.is_wf());
}

#[test]
fn a_piece_lands_on_what_lies_below() {
    let piece = Piece { tetromino: Tetromino::T, orientation: Orientation::N, position: (3, 20) };
    assert_eq!(piece.landed(&empty()).position, (3, 0));
    let mut board = empty();
    board[6][4] = Some(2);
    assert_eq!(piece.landed(&board).position, (3, 7));
    board[20][3] = Some(2);
    assert_eq!(piece.landed(&board).position, (3, 7));
    board[19][5] = Some(2);
    assert_eq!(piece.landed(&board), piece);
}

#[test]
fn upright_minos_match_the_engine() {
    for t in 0..7 {
        assert_eq!(
            tetro_tui::engine::minos_upright(Tetromino::VARIANTS[t]),
            falling_tetromino_engine::Tetromino::VARIANTS[t]
                .minos(falling_tetromino_engine::Orientation::N)
        );
        assert_eq!(
            Tetromino::VARIANTS[t].tiletypeid(),
            falling_tetromino_engine::Tetromino::VARIANTS[t].tiletypeid().get()
        );
    }
}
