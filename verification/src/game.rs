//! Game state and orchestration: turn order, selection and highlight state,
//! candidate-move generation, move application with capture and promotion,
//! and win detection.

use vstd::prelude::*;

use crate::board::Board;
use crate::board::Position;
use crate::board::SubmoveError;
use crate::board::count_player;
use crate::board::lemma_count_after_update;
use crate::board::lemma_count_mirrored;
use crate::board::mirrored;
use crate::board::starting_board;
use crate::board::validate_spec;
use crate::moves::Submove;
use crate::piece::Piece;
use crate::player::Player;

verus! {

/// The plain-move candidate one step from `p` in direction `(dr, dc)`: the
/// neighbouring cell itself, provided it is on the board and empty.
pub open spec fn plain_cand(b: Seq<Option<Piece>>, p: Position, dr: int, dc: int) -> Seq<
    Position,
> {
    let r = p.0 + dr;
    let c = p.1 + dc;
    if 0 <= r < 8 && 0 <= c < 8 && b[r * 8 + c] is None {
        seq![Position((p.0 + dr) as usize, (p.1 + dc) as usize)]
    } else {
        Seq::empty()
    }
}

/// The jump candidate over the neighbour of `p` in direction `(dr, dc)`:
/// the landing cell two steps out, provided the neighbour holds an opposing
/// piece and the landing cell is on the board and empty.
pub open spec fn jump_cand(
    b: Seq<Option<Piece>>,
    player: Player,
    p: Position,
    dr: int,
    dc: int,
) -> Seq<Position> {
    let nr = p.0 + dr;
    let nc = p.1 + dc;
    let lr = p.0 + 2 * dr;
    let lc = p.1 + 2 * dc;
    if 0 <= nr < 8 && 0 <= nc < 8 && (match b[nr * 8 + nc] {
        Some(q) => q.owner() == player.opponent(),
        None => false,
    }) && 0 <= lr < 8 && 0 <= lc < 8 && b[lr * 8 + lc] is None {
        seq![Position((p.0 + 2 * dr) as usize, (p.1 + 2 * dc) as usize)]
    } else {
        Seq::empty()
    }
}

/// Every candidate destination from `p` for `player` on `b`, in generation
/// order: plain moves first, then jumps. A normal piece looks only at its
/// two forward diagonals (toward row 0); a king at all four.
pub open spec fn submove_candidates(b: Seq<Option<Piece>>, player: Player, p: Position) -> Seq<
    Position,
> {
    match b[p.cell()] {
        None => Seq::empty(),
        Some(Piece::Normal(_)) => plain_cand(b, p, -1, -1) + plain_cand(b, p, -1, 1) + jump_cand(
            b,
            player,
            p,
            -1,
            -1,
        ) + jump_cand(b, player, p, -1, 1),
        Some(Piece::King(_)) => plain_cand(b, p, -1, -1) + plain_cand(b, p, -1, 1) + plain_cand(
            b,
            p,
            1,
            -1,
        ) + plain_cand(b, p, 1, 1) + jump_cand(b, player, p, -1, -1) + jump_cand(
            b,
            player,
            p,
            -1,
            1,
        ) + jump_cand(b, player, p, 1, -1) + jump_cand(b, player, p, 1, 1),
    }
}

/// Whether `s` travels more than one cell in some direction, which makes it
/// a jump rather than a plain step.
pub open spec fn is_jump(s: Submove) -> bool {
    let dr = s.to.0 - s.from.0;
    let dc = s.to.1 - s.from.1;
    dr > 1 || dr < -1 || dc > 1 || dc < -1
}

/// The unit direction of a nonzero displacement.
pub open spec fn sign(d: int) -> int {
    if d > 0 {
        1
    } else {
        -1
    }
}

/// The cell one unit step from the source of `s` toward its destination:
/// where a jumped-over piece sits.
pub open spec fn jump_mid(s: Submove) -> Position {
    Position(
        (s.from.0 + sign(s.to.0 - s.from.0)) as usize,
        (s.from.1 + sign(s.to.1 - s.from.1)) as usize,
    )
}

/// The piece that lands on the destination of `s`: a king of the moving
/// player when the destination is row 0 — promotion, whatever the prior
/// rank — and otherwise the piece from the source cell unchanged.
pub open spec fn moved_piece(b: Seq<Option<Piece>>, s: Submove, player: Player) -> Option<
    Piece,
> {
    if s.to.0 == 0 {
        Some(Piece::King(player))
    } else {
        b[s.from.cell()]
    }
}

/// The cell sequence after applying `s` for `player` to `b`, before any
/// turn-boundary flip: the source is emptied, the midpoint is emptied too
/// when `s` is a jump, and the moved (possibly promoted) piece lands on the
/// destination.
pub open spec fn applied_board(b: Seq<Option<Piece>>, s: Submove, player: Player) -> Seq<
    Option<Piece>,
> {
    let b1 = b.update(s.from.cell(), None);
    let b2 = if is_jump(s) {
        b1.update(jump_mid(s).cell(), None)
    } else {
        b1
    };
    b2.update(s.to.cell(), moved_piece(b, s, player))
}

/// Every plain-move candidate lies on the board and names an empty cell.
proof fn lemma_plain_cand_sound(b: Seq<Option<Piece>>, p: Position, dr: int, dc: int)
    requires
        b.len() == 64,
    ensures
        forall|j: int|
            0 <= j < plain_cand(b, p, dr, dc).len() ==> (#[trigger] plain_cand(b, p, dr, dc)[j]).in_bounds()
                && b[plain_cand(b, p, dr, dc)[j].cell()] is None,
{
}

/// Every jump candidate lies on the board and names an empty cell.
proof fn lemma_jump_cand_sound(b: Seq<Option<Piece>>, player: Player, p: Position, dr: int, dc: int)
    requires
        b.len() == 64,
    ensures
        forall|j: int|
            0 <= j < jump_cand(b, player, p, dr, dc).len() ==> (#[trigger] jump_cand(
                b,
                player,
                p,
                dr,
                dc,
            )[j]).in_bounds() && b[jump_cand(b, player, p, dr, dc)[j].cell()] is None,
{
}

/// Every destination that submove generation yields lies on the board and
/// names an empty cell: whatever direction it came from, a candidate can be
/// landed on.
pub proof fn lemma_candidates_land_empty(
    b: Seq<Option<Piece>>,
    player: Player,
    p: Position,
    i: int,
)
    requires
        b.len() == 64,
        p.in_bounds(),
        0 <= i < submove_candidates(b, player, p).len(),
    ensures
        submove_candidates(b, player, p)[i].in_bounds(),
        b[submove_candidates(b, player, p)[i].cell()] is None,
{
    let cands = submove_candidates(b, player, p);
    match b[p.cell()] {
        None => {},
        Some(Piece::Normal(_)) => {
            let c1 = plain_cand(b, p, -1, -1);
            let c2 = plain_cand(b, p, -1, 1);
            let c3 = jump_cand(b, player, p, -1, -1);
            let c4 = jump_cand(b, player, p, -1, 1);
            lemma_plain_cand_sound(b, p, -1, -1);
            lemma_plain_cand_sound(b, p, -1, 1);
            lemma_jump_cand_sound(b, player, p, -1, -1);
            lemma_jump_cand_sound(b, player, p, -1, 1);
            if i < c1.len() {
                assert(cands[i] == c1[i]);
            } else if i < c1.len() + c2.len() {
                assert(cands[i] == c2[i - c1.len()]);
            } else if i < c1.len() + c2.len() + c3.len() {
                assert(cands[i] == c3[i - c1.len() - c2.len()]);
            } else {
                assert(cands[i] == c4[i - c1.len() - c2.len() - c3.len()]);
            }
        },
        Some(Piece::King(_)) => {
            let c1 = plain_cand(b, p, -1, -1);
            let c2 = plain_cand(b, p, -1, 1);
            let c3 = plain_cand(b, p, 1, -1);
            let c4 = plain_cand(b, p, 1, 1);
            let c5 = jump_cand(b, player, p, -1, -1);
            let c6 = jump_cand(b, player, p, -1, 1);
            let c7 = jump_cand(b, player, p, 1, -1);
            let c8 = jump_cand(b, player, p, 1, 1);
            lemma_plain_cand_sound(b, p, -1, -1);
            lemma_plain_cand_sound(b, p, -1, 1);
            lemma_plain_cand_sound(b, p, 1, -1);
            lemma_plain_cand_sound(b, p, 1, 1);
            lemma_jump_cand_sound(b, player, p, -1, -1);
            lemma_jump_cand_sound(b, player, p, -1, 1);
            lemma_jump_cand_sound(b, player, p, 1, -1);
            lemma_jump_cand_sound(b, player, p, 1, 1);
            let n1 = c1.len() as int;
            let n2 = n1 + c2.len();
            let n3 = n2 + c3.len();
            let n4 = n3 + c4.len();
            let n5 = n4 + c5.len();
            let n6 = n5 + c6.len();
            let n7 = n6 + c7.len();
            if i < n1 {
                assert(cands[i] == c1[i]);
            } else if i < n2 {
                assert(cands[i] == c2[i - n1]);
            } else if i < n3 {
                assert(cands[i] == c3[i - n2]);
            } else if i < n4 {
                assert(cands[i] == c4[i - n3]);
            } else if i < n5 {
                assert(cands[i] == c5[i - n4]);
            } else if i < n6 {
                assert(cands[i] == c6[i - n5]);
            } else if i < n7 {
                assert(cands[i] == c7[i - n6]);
            } else {
                assert(cands[i] == c8[i - n7]);
            }
        },
    }
}

/// A jump empties the mover's source cell and the jumped-over midpoint
/// cell, and lands the moved piece on the destination.
pub proof fn lemma_jump_capture(b: Seq<Option<Piece>>, s: Submove, player: Player)
    requires
        b.len() == 64,
        s.from.in_bounds(),
        s.to.in_bounds(),
        b[s.from.cell()] is Some,
        is_jump(s),
        s.from.0 != s.to.0,
        s.from.1 != s.to.1,
    ensures
        jump_mid(s).in_bounds(),
        applied_board(b, s, player)[s.from.cell()] is None,
        applied_board(b, s, player)[jump_mid(s).cell()] is None,
        applied_board(b, s, player)[s.to.cell()] == moved_piece(b, s, player),
        moved_piece(b, s, player) is Some,
        forall|j: int|
            0 <= j < 64 && j != s.from.cell() && j != jump_mid(s).cell() && j != s.to.cell()
                ==> applied_board(b, s, player)[j] == b[j],
{
    let dr = s.to.0 - s.from.0;
    let dc = s.to.1 - s.from.1;
    let mid = jump_mid(s);
    assert(0 <= s.from.0 + sign(dr) < 8);
    assert(0 <= s.from.1 + sign(dc) < 8);
    assert(mid.cell() != s.to.cell()) by {
        if dr > 1 || dr < -1 {
            assert(mid.0 != s.to.0);
        } else {
            assert(dc > 1 || dc < -1);
            assert(mid.1 != s.to.1);
        }
    }
    assert(s.from.cell() != s.to.cell());
}

/// A plain step relocates the moved piece and captures nothing: the source
/// is emptied, the piece lands on the destination, and every other cell
/// keeps its contents.
pub proof fn lemma_plain_step(b: Seq<Option<Piece>>, s: Submove, player: Player)
    requires
        b.len() == 64,
        s.from.in_bounds(),
        s.to.in_bounds(),
        b[s.from.cell()] is Some,
        !is_jump(s),
        s.from != s.to,
    ensures
        applied_board(b, s, player)[s.from.cell()] is None,
        applied_board(b, s, player)[s.to.cell()] == moved_piece(b, s, player),
        moved_piece(b, s, player) is Some,
        forall|j: int|
            0 <= j < 64 && j != s.from.cell() && j != s.to.cell() ==> applied_board(b, s, player)[j]
                == b[j],
{
    assert(s.from.cell() != s.to.cell());
}

/// A plain step that passes the stored-orientation check relocates the
/// moved piece and captures nothing: the destination the check found empty
/// receives the piece from the source, the source is emptied, every other
/// cell keeps its contents, and both players' piece counts survive the move
/// — and the turn-ending mirror — unchanged.
pub proof fn lemma_validated_step_no_capture(b: Seq<Option<Piece>>, s: Submove, player: Player)
    requires
        b.len() == 64,
        s.from.in_bounds(),
        s.to.in_bounds(),
        validate_spec(b, s, player) == Ok::<bool, SubmoveError>(true),
        !is_jump(s),
        s.from != s.to,
        s.to.0 != 0,
    ensures
        applied_board(b, s, player)[s.from.cell()] is None,
        applied_board(b, s, player)[s.to.cell()] == b[s.from.cell()],
        forall|j: int|
            0 <= j < 64 && j != s.from.cell() && j != s.to.cell() ==> applied_board(b, s, player)[j]
                == b[j],
        forall|p: Player|
            count_player(#[trigger] applied_board(b, s, player), p) == count_player(b, p),
        forall|p: Player|
            count_player(mirrored(#[trigger] applied_board(b, s, player)), p) == count_player(
                b,
                p,
            ),
{
    lemma_plain_step(b, s, player);
    let m = applied_board(b, s, player);
    let b1 = b.update(s.from.cell(), None);
    assert(s.from.cell() != s.to.cell());
    assert forall|p: Player| count_player(m, p) == count_player(b, p) by {
        lemma_count_after_update(b, s.from.cell(), None, p);
        lemma_count_after_update(b1, s.to.cell(), moved_piece(b, s, player), p);
        assert(b1[s.to.cell()] == b[s.to.cell()]);
    }
    assert forall|p: Player| count_player(mirrored(m), p) == count_player(b, p) by {
        lemma_count_mirrored(m, p);
    }
}

/// A piece that reaches row 0 lands as a king of the moving player,
/// whatever its rank was before the move.
pub proof fn lemma_promotion(b: Seq<Option<Piece>>, s: Submove, player: Player)
    requires
        b.len() == 64,
        s.from.in_bounds(),
        s.to.in_bounds(),
        s.to.0 == 0,
        is_jump(s) ==> s.from.0 != s.to.0 && s.from.1 != s.to.1,
    ensures
        applied_board(b, s, player)[s.to.cell()] == Some(Piece::King(player)),
{
    if is_jump(s) {
        assert(0 <= s.from.0 + sign(s.to.0 - s.from.0) < 8);
        assert(0 <= s.from.1 + sign(s.to.1 - s.from.1) < 8);
    }
}

/// A session of checkers: the board in the canonical orientation of the
/// player to move, that player, the current selection and its candidate
/// destinations, and the actions left in the turn.
#[derive(Debug, PartialEq)]
pub struct Game {
    pub board: Board,
    pub player: Player,
    pub selected: Option<Position>,
    pub hilighted: Vec<Position>,
    pub nmoves: u8,
}

impl Game {
    /// Whether the session state is well formed: the board has its 64 cells
    /// and at least one action is left in the turn.
    pub open spec fn wf(self) -> bool {
        self.board.wf() && self.nmoves >= 1
    }

    /// Starts a session: standard starting board, Black to move, nothing
    /// selected, one action in the turn.
    pub fn new() -> (r: Game)
        ensures
            r.wf(),
            r.board@ == starting_board(),
            r.player == Player::Black,
            r.selected is None,
            r.hilighted@ == Seq::<Position>::empty(),
            r.nmoves == 1,
    {
        Game {
            board: Board::new(),
            player: Player::Black,
            selected: None,
            hilighted: Vec::new(),
            nmoves: 1,
        }
    }

    /// Checks `s` for the player whose turn it is.
    pub fn validate_submove(&self, s: &Submove) -> (r: Result<bool, SubmoveError>)
        requires
            self.wf(),
            s.from.in_bounds(),
            s.to.in_bounds(),
        ensures
            r == validate_spec(self.board.norm_view(self.player), *s, self.player),
    {
        self.board.validate_submove(s, self.player)
    }

    /// Reports the winner: a player whose opponent has no pieces left wins.
    /// A player with pieces but no legal move is not detected.
    pub fn win_condition(&self) -> (r: Option<Player>)
        requires
            self.wf(),
        ensures
            r == Some(Player::White) <==> count_player(self.board@, Player::Black) == 0,
            r == Some(Player::Black) <==> (count_player(self.board@, Player::Black) != 0
                && count_player(self.board@, Player::White) == 0),
            r is None <==> (count_player(self.board@, Player::Black) != 0 && count_player(
                self.board@,
                Player::White,
            ) != 0),
    {
        if self.board.count_pieces(Player::Black) == 0 {
            Some(Player::White)
        } else if self.board.count_pieces(Player::White) == 0 {
            Some(Player::Black)
        } else {
            None
        }
    }

    /// Appends the plain-move candidate from `p` in direction `(dr, dc)`, if
    /// there is one, to the highlighted destinations.
    fn push_plain(&mut self, p: Position, dr: i32, dc: i32)
        requires
            old(self).wf(),
            p.in_bounds(),
            dr == -1 || dr == 1,
            dc == -1 || dc == 1,
        ensures
            final(self).wf(),
            final(self).board == old(self).board,
            final(self).player == old(self).player,
            final(self).selected == old(self).selected,
            final(self).nmoves == old(self).nmoves,
            final(self).hilighted@ == old(self).hilighted@ + plain_cand(
                old(self).board@,
                p,
                dr as int,
                dc as int,
            ),
    {
        let r = p.0 as i32 + dr;
        let c = p.1 as i32 + dc;
        if r >= 0 && r < 8 && c >= 0 && c < 8 {
            let dest = Position::new(r as usize, c as usize);
            if self.board.at(&dest).is_none() {
                self.hilighted.push(dest);
                proof {
                    assert(self.hilighted@ =~= old(self).hilighted@ + plain_cand(
                        old(self).board@,
                        p,
                        dr as int,
                        dc as int,
                    ));
                }
            } else {
                proof {
                    assert(self.hilighted@ =~= old(self).hilighted@ + plain_cand(
                        old(self).board@,
                        p,
                        dr as int,
                        dc as int,
                    ));
                }
            }
        } else {
            proof {
                assert(self.hilighted@ =~= old(self).hilighted@ + plain_cand(
                    old(self).board@,
                    p,
                    dr as int,
                    dc as int,
                ));
            }
        }
    }

    /// Appends the jump candidate over the neighbour of `p` in direction
    /// `(dr, dc)`, if there is one, to the highlighted destinations.
    fn push_jump(&mut self, p: Position, dr: i32, dc: i32)
        requires
            old(self).wf(),
            p.in_bounds(),
            dr == -1 || dr == 1,
            dc == -1 || dc == 1,
        ensures
            final(self).wf(),
            final(self).board == old(self).board,
            final(self).player == old(self).player,
            final(self).selected == old(self).selected,
            final(self).nmoves == old(self).nmoves,
            final(self).hilighted@ == old(self).hilighted@ + jump_cand(
                old(self).board@,
                old(self).player,
                p,
                dr as int,
                dc as int,
            ),
    {
        let ghost cand = jump_cand(old(self).board@, old(self).player, p, dr as int, dc as int);
        let nr = p.0 as i32 + dr;
        let nc = p.1 as i32 + dc;
        let lr = p.0 as i32 + 2 * dr;
        let lc = p.1 as i32 + 2 * dc;
        let mut taken = false;
        if nr >= 0 && nr < 8 && nc >= 0 && nc < 8 {
            let neighbour = Position::new(nr as usize, nc as usize);
            match self.board.at(&neighbour) {
                Some(q) => {
                    if q.player() == self.player.switch() && lr >= 0 && lr < 8 && lc >= 0 && lc
                        < 8 {
                        let landing = Position::new(lr as usize, lc as usize);
                        if self.board.at(&landing).is_none() {
                            self.hilighted.push(landing);
                            taken = true;
                        }
                    }
                },
                None => {},
            }
        }
        proof {
            if taken {
                assert(self.hilighted@ =~= old(self).hilighted@ + cand);
            } else {
                assert(cand =~= Seq::<Position>::empty());
                assert(self.hilighted@ =~= old(self).hilighted@ + cand);
            }
        }
    }

    /// Appends every candidate destination from `p` for the player whose
    /// turn it is — plain moves first, then jumps — to the highlighted
    /// destinations. Nothing else changes.
    pub fn gen_submoves(&mut self, p: Position)
        requires
            old(self).wf(),
            p.in_bounds(),
        ensures
            final(self).wf(),
            final(self).board == old(self).board,
            final(self).player == old(self).player,
            final(self).selected == old(self).selected,
            final(self).nmoves == old(self).nmoves,
            final(self).hilighted@ == old(self).hilighted@ + submove_candidates(
                old(self).board@,
                old(self).player,
                p,
            ),
    {
        let ghost h0 = old(self).hilighted@;
        let ghost b0 = old(self).board@;
        let ghost pl = old(self).player;
        match self.board.at(&p) {
            None => {
                proof {
                    assert(h0 + submove_candidates(b0, pl, p) =~= h0);
                }
            },
            Some(Piece::Normal(_)) => {
                self.push_plain(p, -1, -1);
                self.push_plain(p, -1, 1);
                self.push_jump(p, -1, -1);
                self.push_jump(p, -1, 1);
                proof {
                    let c1 = plain_cand(b0, p, -1, -1);
                    let c2 = plain_cand(b0, p, -1, 1);
                    let c3 = jump_cand(b0, pl, p, -1, -1);
                    let c4 = jump_cand(b0, pl, p, -1, 1);
                    vstd::seq_lib::lemma_concat_associative(h0, c1, c2);
                    vstd::seq_lib::lemma_concat_associative(h0, c1 + c2, c3);
                    vstd::seq_lib::lemma_concat_associative(h0, (c1 + c2) + c3, c4);
                }
            },
            Some(Piece::King(_)) => {
                self.push_plain(p, -1, -1);
                self.push_plain(p, -1, 1);
                self.push_plain(p, 1, -1);
                self.push_plain(p, 1, 1);
                self.push_jump(p, -1, -1);
                self.push_jump(p, -1, 1);
                self.push_jump(p, 1, -1);
                self.push_jump(p, 1, 1);
                proof {
                    let c1 = plain_cand(b0, p, -1, -1);
                    let c2 = plain_cand(b0, p, -1, 1);
                    let c3 = plain_cand(b0, p, 1, -1);
                    let c4 = plain_cand(b0, p, 1, 1);
                    let c5 = jump_cand(b0, pl, p, -1, -1);
                    let c6 = jump_cand(b0, pl, p, -1, 1);
                    let c7 = jump_cand(b0, pl, p, 1, -1);
                    let c8 = jump_cand(b0, pl, p, 1, 1);
                    vstd::seq_lib::lemma_concat_associative(h0, c1, c2);
                    vstd::seq_lib::lemma_concat_associative(h0, c1 + c2, c3);
                    vstd::seq_lib::lemma_concat_associative(h0, (c1 + c2) + c3, c4);
                    vstd::seq_lib::lemma_concat_associative(h0, ((c1 + c2) + c3) + c4, c5);
                    vstd::seq_lib::lemma_concat_associative(h0, (((c1 + c2) + c3) + c4) + c5, c6);
                    vstd::seq_lib::lemma_concat_associative(
                        h0,
                        ((((c1 + c2) + c3) + c4) + c5) + c6,
                        c7,
                    );
                    vstd::seq_lib::lemma_concat_associative(
                        h0,
                        (((((c1 + c2) + c3) + c4) + c5) + c6) + c7,
                        c8,
                    );
                }
            },
        }
    }

    /// Clears the highlights; then, when `p` holds a piece of the player
    /// whose turn it is, selects it and computes its candidate
    /// destinations, and otherwise clears the selection.
    pub fn select(&mut self, p: Position)
        requires
            old(self).wf(),
            p.in_bounds(),
        ensures
            final(self).wf(),
            final(self).board == old(self).board,
            final(self).player == old(self).player,
            final(self).nmoves == old(self).nmoves,
            (match old(self).board@[p.cell()] {
                Some(piece) => if piece.owner() == old(self).player {
                    final(self).selected == Some(p) && final(self).hilighted@
                        == submove_candidates(old(self).board@, old(self).player, p)
                } else {
                    final(self).selected is None && final(self).hilighted@ == Seq::<
                        Position,
                    >::empty()
                },
                None => final(self).selected is None && final(self).hilighted@ == Seq::<
                    Position,
                >::empty(),
            }),
    {
        self.hilighted.clear();
        match self.board.at(&p) {
            Some(v) => {
                if v.player() == self.player {
                    self.selected = Some(p);
                    self.gen_submoves(p);
                    proof {
                        assert(self.hilighted@ =~= submove_candidates(
                            old(self).board@,
                            old(self).player,
                            p,
                        ));
                    }
                } else {
                    self.selected = None;
                }
            },
            None => {
                self.selected = None;
            },
        }
    }

    /// Checks `s` for the player whose turn it is and applies it only when
    /// the check passes, atomically: a rejected submove returns the first
    /// failing check's error and changes nothing. The check reads the board
    /// exactly as stored, the same orientation the application writes —
    /// canonical for the player to move. On success the source is emptied;
    /// a jump also empties the midpoint cell, while a plain step spends one
    /// action of the turn; a piece landing on row 0 is promoted. When the
    /// turn's actions run out, the other player comes to move, the board is
    /// flipped into that player's orientation, and the action budget is
    /// reset to one.
    pub fn do_submove(&mut self, s: &Submove) -> (r: Result<bool, SubmoveError>)
        requires
            old(self).wf(),
            s.from.in_bounds(),
            s.to.in_bounds(),
            is_jump(*s) ==> s.from.0 != s.to.0 && s.from.1 != s.to.1,
        ensures
            final(self).wf(),
            r == validate_spec(old(self).board@, *s, old(self).player),
            final(self).selected == old(self).selected,
            final(self).hilighted == old(self).hilighted,
            r is Err ==> *final(self) == *old(self),
            r is Ok ==> ({
                let b2 = applied_board(old(self).board@, *s, old(self).player);
                let nm: int = if is_jump(*s) {
                    old(self).nmoves as int
                } else {
                    old(self).nmoves - 1
                };
                if nm == 0 {
                    final(self).player == old(self).player.opponent() && final(self).board@
                        == mirrored(b2) && final(self).nmoves == 1
                } else {
                    final(self).player == old(self).player && final(self).board@ == b2
                        && final(self).nmoves == nm
                }
            }),
    {
        match self.board.check_submove(s, self.player) {
            Err(e) => {
                return Err(e);
            },
            Ok(_) => {},
        }
        let piece = self.board.at(&s.from).unwrap();
        self.board.remove(&s.from);
        let dr = s.to.0 as i32 - s.from.0 as i32;
        let dc = s.to.1 as i32 - s.from.1 as i32;
        if dr > 1 || dr < -1 || dc > 1 || dc < -1 {
            let sr: i32 = if dr > 0 {
                1
            } else {
                -1
            };
            let sc: i32 = if dc > 0 {
                1
            } else {
                -1
            };
            assert(0 <= s.from.0 as i32 + sr < 8);
            assert(0 <= s.from.1 as i32 + sc < 8);
            let mid = Position::new((s.from.0 as i32 + sr) as usize, (s.from.1 as i32 + sc) as usize);
            assert(mid == jump_mid(*s));
            self.board.remove(&mid);
        } else {
            self.nmoves = self.nmoves - 1;
        }
        if s.to.0 == 0 {
            self.board.place(Piece::King(self.player), &s.to);
        } else {
            self.board.place(piece, &s.to);
        }
        if self.nmoves == 0 {
            self.player = self.player.switch();
            self.board.flip();
            self.nmoves = 1;
        }
        Ok(true)
    }
}

} // verus!
