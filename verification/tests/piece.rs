use checkers::piece::Piece;
use checkers::player::Player;

#[test]
fn white() {
    assert_eq!(Piece::white(), Piece::Normal(Player::White));
}

#[test]
fn black() {
    assert_eq!(Piece::black(), Piece::Normal(Player::Black));
}

#[test]
fn black_king() {
    assert_eq!(Piece::black_king(), Piece::King(Player::Black));
}

#[test]
fn white_king() {
    assert_eq!(Piece::white_king(), Piece::King(Player::White));
}

#[test]
fn player() {
    let piece = Piece::King(Player::Black);
    assert_eq!(piece.player(), Player::Black);
}
