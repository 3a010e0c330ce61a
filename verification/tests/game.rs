use checkers::board::{Board, Position, SubmoveError};
use checkers::game::Game;
use checkers::moves::Submove;
use checkers::piece::Piece;
use checkers::player::Player;

#[test]
fn do_submove_move() {
    let mut g = Game::new();
    let submove = Submove::new(Position::new(5, 0), Position::new(4, 1));
    let b = Board::from_str(
        "-b-b-b-b\
         b-b-b-b-\
         -b-b-b--\
         ------b-\
         --------\
         w-w-w-w-\
         -w-w-w-w\
         w-w-w-w-",
    )
    .unwrap();
    g.do_submove(&submove).unwrap();
    assert_eq!(
        g,
        Game {
            board: b,
            player: Player::White,
            selected: None,
            hilighted: Vec::new(),
            nmoves: 1,
        }
    );
}

#[test]
fn do_submove_rejects_occupied_destination() {
    let mut g = Game::new();
    let r = g.do_submove(&Submove::new(Position::new(6, 1), Position::new(6, 1)));
    assert_eq!(r, Err(SubmoveError::DestinationOccupied(Position::new(6, 1))));
    assert_eq!(g, Game::new());
}

#[test]
fn do_submove_rejects_empty_source() {
    let mut g = Game::new();
    let r = g.do_submove(&Submove::new(Position::new(0, 0), Position::new(4, 4)));
    assert_eq!(r, Err(SubmoveError::NoPieceAtSource(Position::new(0, 0))));
    assert_eq!(g, Game::new());
}

#[test]
fn do_submove_rejects_opponent_piece() {
    let mut g = Game::new();
    let r = g.do_submove(&Submove::new(Position::new(2, 1), Position::new(3, 0)));
    assert_eq!(
        r,
        Err(SubmoveError::PieceNotOwnedByPlayer(
            Player::Black,
            Position::new(2, 1)
        ))
    );
    assert_eq!(g, Game::new());
}

#[test]
fn do_submove_rejects_backward_step() {
    let mut g = Game::new();
    g.board = Board::from_str(
        "--------\
         --------\
         --------\
         ---b----\
         --------\
         --------\
         --------\
         --------",
    )
    .unwrap();
    let r = g.do_submove(&Submove::new(Position::new(3, 3), Position::new(4, 4)));
    assert_eq!(
        r,
        Err(SubmoveError::IllegalForwardDirection(
            Position::new(3, 3),
            Position::new(4, 4)
        ))
    );
    assert_eq!(g.board.at(&Position::new(3, 3)), Some(Piece::black()));
    assert_eq!(g.player, Player::Black);
}

#[test]
fn do_submove_jump_captures_midpoint() {
    let mut g = Game::new();
    g.board = Board::from_str(
        "--------\
         --------\
         --------\
         --w-----\
         -b------\
         --------\
         --------\
         --------",
    )
    .unwrap();
    let submove = Submove::new(Position::new(4, 1), Position::new(2, 3));
    g.do_submove(&submove).unwrap();
    // The jump spends no action of the turn: Black stays to move and the
    // board keeps its orientation.
    assert_eq!(g.player, Player::Black);
    assert_eq!(g.board.at(&Position::new(4, 1)), None);
    assert_eq!(g.board.at(&Position::new(3, 2)), None);
    assert_eq!(g.board.at(&Position::new(2, 3)), Some(Piece::black()));
    assert_eq!(g.board.count_pieces(Player::White), 0);
}

#[test]
fn do_submove_jump_to_back_row_promotes() {
    let mut g = Game::new();
    g.board = Board::from_str(
        "--------\
         --w-----\
         -b------\
         --------\
         --------\
         --------\
         --------\
         --------",
    )
    .unwrap();
    let submove = Submove::new(Position::new(2, 1), Position::new(0, 3));
    g.do_submove(&submove).unwrap();
    assert_eq!(g.player, Player::Black);
    assert_eq!(g.board.at(&Position::new(0, 3)), Some(Piece::black_king()));
    assert_eq!(g.board.at(&Position::new(1, 2)), None);
    assert_eq!(g.board.at(&Position::new(2, 1)), None);
}

#[test]
fn do_submove_step_to_back_row_promotes_then_flips() {
    let mut g = Game::new();
    g.board = Board::from_str(
        "--------\
         b-------\
         --------\
         --------\
         --------\
         --------\
         --------\
         --------",
    )
    .unwrap();
    let submove = Submove::new(Position::new(1, 0), Position::new(0, 1));
    g.do_submove(&submove).unwrap();
    // The step ends the turn: White comes to move and the board is
    // mirrored, so the new king sits at the mirrored cell of (0, 1).
    assert_eq!(g.player, Player::White);
    assert_eq!(g.nmoves, 1);
    assert_eq!(g.board.at(&Position::new(7, 6)), Some(Piece::black_king()));
}

#[test]
fn do_submove_king_already_kinged_stays_king() {
    let mut g = Game::new();
    g.board = Board::from_str(
        "--------\
         B-------\
         --------\
         --------\
         --------\
         --------\
         --------\
         --------",
    )
    .unwrap();
    let submove = Submove::new(Position::new(1, 0), Position::new(0, 1));
    g.do_submove(&submove).unwrap();
    assert_eq!(g.board.at(&Position::new(7, 6)), Some(Piece::black_king()));
}

#[test]
fn game_validate_submove_exists() {
    let g = Game::new();
    assert_eq!(
        g.validate_submove(&Submove::new(Position::new(0, 0), Position::new(0, 0))),
        Err(SubmoveError::NoPieceAtSource(Position::new(0, 0)))
    );
}

#[test]
fn game_validate_submove_empty() {
    let g = Game::new();
    assert_eq!(
        g.validate_submove(&Submove::new(Position::new(6, 1), Position::new(6, 1))),
        Err(SubmoveError::DestinationOccupied(Position::new(6, 1)))
    );
}

#[test]
fn game_validate_submove_ok() {
    let g = Game::new();
    assert_eq!(
        g.validate_submove(&Submove::new(Position::new(7, 0), Position::new(0, 0))),
        Ok(true)
    );
}

#[test]
fn win_condition_black() {
    let mut g = Game::new();
    g.board = Board::from_str(
        "--------\
         --------\
         --------\
         --------\
         --------\
         b-b-b-b-\
         -b-b-b-b\
         b-b-b-b-",
    )
    .unwrap();
    assert_eq!(g.win_condition(), Some(Player::Black));
}

#[test]
fn win_condition_white_after_removals() {
    let mut g = Game::new();
    for row in 5..8usize {
        for col in 0..8usize {
            g.board.remove(&Position::new(row, col));
        }
    }
    assert_eq!(g.board.count_pieces(Player::Black), 0);
    assert_eq!(g.board.count_pieces(Player::White), 12);
    assert_eq!(g.win_condition(), Some(Player::White));
}

#[test]
fn win_condition_none() {
    let g = Game::new();
    assert_eq!(g.win_condition(), None);
}

#[test]
fn gen_submoves_move() {
    let mut g = Game::new();
    g.gen_submoves(Position::new(5, 0));
    assert_eq!(g.hilighted, vec![Position::new(4, 1)]);
}

#[test]
fn gen_submoves_corner_plain_only() {
    let mut g = Game::new();
    g.board = Board::from_str(
        "--------\
         --------\
         --------\
         --------\
         --------\
         --------\
         --------\
         b-------",
    )
    .unwrap();
    g.gen_submoves(Position::new(7, 0));
    assert_eq!(g.hilighted, vec![Position::new(6, 1)]);
    for p in g.hilighted.iter() {
        assert!(p.0 < 8 && p.1 < 8);
        assert_eq!(g.board.at(p), None);
    }
}

#[test]
fn gen_submoves_jump_candidate() {
    let mut g = Game::new();
    g.board = Board::from_str(
        "--------\
         --------\
         --------\
         --w-----\
         -b------\
         --------\
         --------\
         --------",
    )
    .unwrap();
    g.gen_submoves(Position::new(4, 1));
    // The empty forward-left neighbour is a plain candidate; the occupied
    // forward-right neighbour yields a jump candidate behind it.
    assert_eq!(g.hilighted, vec![Position::new(3, 0), Position::new(2, 3)]);
}

#[test]
fn gen_submoves_king_all_diagonals() {
    let mut g = Game::new();
    g.board = Board::from_str(
        "--------\
         --------\
         --------\
         ---B----\
         --------\
         --------\
         --------\
         --------",
    )
    .unwrap();
    g.gen_submoves(Position::new(3, 3));
    assert_eq!(
        g.hilighted,
        vec![
            Position::new(2, 2),
            Position::new(2, 4),
            Position::new(4, 2),
            Position::new(4, 4),
        ]
    );
}

#[test]
fn select_own_piece_highlights() {
    let mut g = Game::new();
    g.select(Position::new(5, 0));
    assert_eq!(g.selected, Some(Position::new(5, 0)));
    assert_eq!(g.hilighted, vec![Position::new(4, 1)]);
}

#[test]
fn select_empty_clears() {
    let mut g = Game::new();
    g.select(Position::new(5, 0));
    g.select(Position::new(4, 0));
    assert_eq!(g.selected, None);
    assert!(g.hilighted.is_empty());
}

#[test]
fn select_opponent_piece_clears() {
    let mut g = Game::new();
    g.select(Position::new(5, 0));
    g.select(Position::new(2, 1));
    assert_eq!(g.selected, None);
    assert!(g.hilighted.is_empty());
}
