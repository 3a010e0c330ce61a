use checkers::player::Player;

#[test]
fn switch_white() {
    assert_eq!(Player::White.switch(), Player::Black);
}

#[test]
fn switch_black() {
    assert_eq!(Player::Black.switch(), Player::White);
}
