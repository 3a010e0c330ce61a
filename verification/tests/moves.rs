use checkers::board::Position;
use checkers::moves::Submove;

#[test]
fn submove_add() {
    let a = Submove::new(Position::new(0, 0), Position::new(1, 1));
    let b = Submove::new(Position::new(1, 1), Position::new(0, 0));
    let c = Submove::new(Position::new(1, 1), Position::new(1, 1));
    assert_eq!(a.add(b), c);
}

#[test]
fn submove_sub() {
    assert_eq!(
        Submove::new(Position::new(2, 2), Position::new(2, 2)).sub(Submove::new(
            Position::new(1, 1),
            Position::new(1, 1)
        )),
        Submove::new(Position::new(1, 1), Position::new(1, 1))
    );
}
