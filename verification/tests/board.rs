use checkers::board::{Board, Position, SubmoveError};
use checkers::moves::Submove;
use checkers::player::Player;

#[test]
fn from_pass() {
    let s = "-w-w-w-w\
             w-w-w-w-\
             -w-w-w-w\
             --------\
             --------\
             b-b-b-b-\
             -b-b-b-b\
             b-b-b-b-";
    let b = Board::from_str(s).unwrap();
    assert_eq!(Board::new(), b);
}

#[test]
fn from_invalid_char() {
    assert_eq!(Board::from_str("x"), None);
}

#[test]
fn from_wrong_length() {
    assert_eq!(Board::from_str("-w-w"), None);
    assert_eq!(Board::from_str(""), None);
}

#[test]
fn count_pieces() {
    assert_eq!(Board::new().count_pieces(Player::Black), 12);
}

#[test]
fn count_pieces_white() {
    assert_eq!(Board::new().count_pieces(Player::White), 12);
}

#[test]
fn starting_layout_not_kinged() {
    let b = Board::new();
    for row in 0..8usize {
        for col in 0..8usize {
            match b.at(&Position::new(row, col)) {
                Some(piece) => {
                    assert!(piece == checkers::piece::Piece::white() || piece == checkers::piece::Piece::black());
                }
                None => {}
            }
        }
    }
}

#[test]
fn norm() {
    let s = "-b-b-b-b\
             b-b-b-b-\
             -b-b-b-b\
             --------\
             --------\
             w-w-w-w-\
             -w-w-w-w\
             w-w-w-w-";
    let b = Board::from_str(s).unwrap();
    let norm = Board::new().norm(Player::White);
    assert_eq!(b, norm);
}

#[test]
fn norm_black_is_identity() {
    let b = Board::new();
    assert_eq!(b.norm(Player::Black), b);
}

#[test]
fn flip_matches_norm_white() {
    let mut b = Board::new();
    let mirrored = Board::new().norm(Player::White);
    b.flip();
    assert_eq!(b, mirrored);
}

#[test]
fn board_validate_submove_exists() {
    let b = Board::new();
    assert_eq!(
        b.validate_submove(
            &Submove::new(Position::new(0, 0), Position::new(0, 0)),
            Player::Black
        ),
        Err(SubmoveError::NoPieceAtSource(Position::new(0, 0)))
    );
}

#[test]
fn board_validate_submove_empty() {
    let b = Board::new();
    assert_eq!(
        b.validate_submove(
            &Submove::new(Position::new(6, 1), Position::new(6, 1)),
            Player::Black
        ),
        Err(SubmoveError::DestinationOccupied(Position::new(6, 1)))
    );
}

#[test]
fn board_validate_submove_ok() {
    let b = Board::new();
    assert_eq!(
        b.validate_submove(
            &Submove::new(Position::new(5, 0), Position::new(4, 1)),
            Player::Black
        ),
        Ok(true)
    );
}

#[test]
fn validate_submove_not_owned() {
    let b = Board::new();
    assert_eq!(
        b.validate_submove(
            &Submove::new(Position::new(2, 1), Position::new(3, 0)),
            Player::Black
        ),
        Err(SubmoveError::PieceNotOwnedByPlayer(
            Player::Black,
            Position::new(2, 1)
        ))
    );
}

#[test]
fn validate_submove_backward() {
    let s = "--------\
             --------\
             --------\
             ---b----\
             --------\
             --------\
             --------\
             --------";
    let b = Board::from_str(s).unwrap();
    assert_eq!(
        b.validate_submove(
            &Submove::new(Position::new(3, 3), Position::new(4, 4)),
            Player::Black
        ),
        Err(SubmoveError::IllegalForwardDirection(
            Position::new(3, 3),
            Position::new(4, 4)
        ))
    );
}

#[test]
fn validate_submove_king_backward_ok() {
    let s = "--------\
             --------\
             --------\
             ---B----\
             --------\
             --------\
             --------\
             --------";
    let b = Board::from_str(s).unwrap();
    assert_eq!(
        b.validate_submove(
            &Submove::new(Position::new(3, 3), Position::new(4, 4)),
            Player::Black
        ),
        Ok(true)
    );
}

#[test]
fn display() {
    let b = Board::new();
    println!("board::tests::display():\n{}", b.render());
}

#[test]
fn render_starting_board() {
    let b = Board::new();
    assert_eq!(
        b.render(),
        "·w·w·w·w\nw·w·w·w·\n·w·w·w·w\n········\n········\nb·b·b·b·\n·b·b·b·b\nb·b·b·b·\n"
    );
}

#[test]
fn text_round_trip() {
    let b = Board::new();
    let again = Board::from_str(&b.render()).unwrap();
    assert_eq!(again, b);
}

#[test]
fn text_round_trip_kings() {
    let s = "W-------\
             --------\
             --------\
             ---B----\
             --------\
             ----w---\
             --------\
             -------b";
    let b = Board::from_str(s).unwrap();
    let again = Board::from_str(&b.render()).unwrap();
    assert_eq!(again, b);
}

#[test]
fn place_and_remove() {
    let mut b = Board::new();
    let p = Position::new(4, 3);
    assert_eq!(b.at(&p), None);
    b.place(checkers::piece::Piece::black_king(), &p);
    assert_eq!(b.at(&p), Some(checkers::piece::Piece::black_king()));
    b.remove(&p);
    assert_eq!(b.at(&p), None);
}

#[test]
fn position_add() {
    let a = Position::new(1, 0);
    let b = Position::new(1, 2);
    let c = Position::new(2, 2);
    assert_eq!(a.add(b), c);
}

#[test]
fn position_sub() {
    let a = Position::new(2, 2);
    let b = Position::new(1, 1);
    assert_eq!(a.sub(b), Position::new(1, 1));
}
