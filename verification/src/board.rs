//! The 8x8 board: cell access, the starting layout, piece counting,
//! perspective handling and per-submove legality checks.
//!
//! The board is stored in the canonical orientation of the player whose turn
//! it is: that player's pieces sit near the high row indices and move toward
//! row 0. `norm` produces a read-only mirrored copy for reasoning from the
//! other orientation; `flip` mirrors the stored board in place at a turn
//! boundary.

use vstd::prelude::*;

use crate::moves::Submove;
use crate::piece::Piece;
use crate::player::Player;

verus! {

/// A (row, column) coordinate on the board.
#[derive(Copy, Clone, Debug, PartialEq, Eq, Structural)]
pub struct Position(pub usize, pub usize);

impl Position {
    /// Whether both coordinates lie on the 8x8 board.
    pub open spec fn in_bounds(self) -> bool {
        self.0 < 8 && self.1 < 8
    }

    /// The row-major cell index of this position.
    pub open spec fn cell(self) -> int {
        self.0 * 8 + self.1
    }

    pub fn new(x: usize, y: usize) -> (r: Self)
        ensures
            r == Position(x, y),
    {
        Position(x, y)
    }

    /// Component-wise sum, used to step from a cell toward a neighbour.
    pub fn add(self, other: Position) -> (r: Position)
        requires
            self.0 + other.0 <= usize::MAX,
            self.1 + other.1 <= usize::MAX,
        ensures
            r.0 == self.0 + other.0,
            r.1 == self.1 + other.1,
    {
        Position(self.0 + other.0, self.1 + other.1)
    }

    /// Component-wise difference.
    pub fn sub(self, other: Position) -> (r: Position)
        requires
            other.0 <= self.0,
            other.1 <= self.1,
        ensures
            r.0 == self.0 - other.0,
            r.1 == self.1 - other.1,
    {
        Position(self.0 - other.0, self.1 - other.1)
    }
}

/// The contents of the starting board at row-major cell index `i`: pieces sit
/// on the cells whose row and column indices have an odd sum, white in the
/// top three rows, black in the bottom three, and nobody is kinged.
pub open spec fn start_cell(i: int) -> Option<Piece> {
    let row = i / 8;
    let col = i % 8;
    if (row + col) % 2 == 1 {
        if row < 3 {
            Some(Piece::Normal(Player::White))
        } else if row >= 5 {
            Some(Piece::Normal(Player::Black))
        } else {
            None
        }
    } else {
        None
    }
}

/// The starting layout as a sequence of 64 cells.
pub open spec fn starting_board() -> Seq<Option<Piece>> {
    Seq::new(64, |i: int| start_cell(i))
}

/// `b` mirrored top-to-bottom and left-to-right. On a row-major 8x8 board
/// that is exactly the reversal of the cell sequence.
pub open spec fn mirrored(b: Seq<Option<Piece>>) -> Seq<Option<Piece>> {
    Seq::new(b.len(), |i: int| b[b.len() - 1 - i])
}

/// What one cell contributes to `p`'s piece count.
pub open spec fn count_cell(cell: Option<Piece>, p: Player) -> nat {
    match cell {
        Some(piece) => if piece.owner() == p {
            1nat
        } else {
            0nat
        },
        None => 0nat,
    }
}

/// The number of live pieces in `b` that belong to `p`.
pub open spec fn count_player(b: Seq<Option<Piece>>, p: Player) -> nat
    decreases b.len(),
{
    if b.len() == 0 {
        0
    } else {
        count_player(b.drop_last(), p) + count_cell(b.last(), p)
    }
}

/// The display glyph of one cell: `w`/`b` for normal pieces, `W`/`B` for
/// kings, a middle dot for an empty cell.
pub open spec fn glyph(cell: Option<Piece>) -> char {
    match cell {
        None => '·',
        Some(Piece::Normal(Player::White)) => 'w',
        Some(Piece::Normal(Player::Black)) => 'b',
        Some(Piece::King(Player::White)) => 'W',
        Some(Piece::King(Player::Black)) => 'B',
    }
}

/// Whether `c` denotes a cell in the board text format. `-` and the middle
/// dot both denote an empty cell.
pub open spec fn is_glyph(c: char) -> bool {
    c == 'w' || c == 'W' || c == 'b' || c == 'B' || c == '-' || c == '·'
}

/// The cell denoted by the glyph `c`.
pub open spec fn unglyph(c: char) -> Option<Piece> {
    if c == 'w' {
        Some(Piece::Normal(Player::White))
    } else if c == 'W' {
        Some(Piece::King(Player::White))
    } else if c == 'b' {
        Some(Piece::Normal(Player::Black))
    } else if c == 'B' {
        Some(Piece::King(Player::Black))
    } else {
        None
    }
}

/// Reads a cell sequence out of board text, row-major: glyphs become cells
/// in order, newlines are skipped, and any other character spoils the whole
/// text.
pub open spec fn parse_glyphs(s: Seq<char>) -> Option<Seq<Option<Piece>>>
    decreases s.len(),
{
    if s.len() == 0 {
        Some(Seq::empty())
    } else {
        match parse_glyphs(s.drop_last()) {
            None => None,
            Some(cells) => {
                let c = s.last();
                if c == '\n' {
                    Some(cells)
                } else if is_glyph(c) {
                    Some(cells.push(unglyph(c)))
                } else {
                    None
                }
            },
        }
    }
}

/// The text of row `r` of the cell sequence `b`: eight glyphs and a newline.
pub open spec fn row_text(b: Seq<Option<Piece>>, r: int) -> Seq<char> {
    Seq::new(8, |c: int| glyph(b[8 * r + c])).push('\n')
}

/// The text of the first `r` rows of the cell sequence `b`.
pub open spec fn rows_text(b: Seq<Option<Piece>>, r: int) -> Seq<char>
    decreases r,
{
    if r <= 0 {
        Seq::empty()
    } else {
        rows_text(b, r - 1) + row_text(b, r - 1)
    }
}

/// The display text of a whole board: eight newline-terminated rows.
pub open spec fn board_text(b: Seq<Option<Piece>>) -> Seq<char> {
    rows_text(b, 8)
}

/// Why a submove was rejected, tagged with the offending position(s). All
/// positions are read in the moving player's normalized orientation.
#[derive(Copy, Clone, Debug, PartialEq, Eq, Structural)]
pub enum SubmoveError {
    /// The source cell is empty.
    NoPieceAtSource(Position),
    /// The destination cell is occupied.
    DestinationOccupied(Position),
    /// The source cell holds the opponent's piece.
    PieceNotOwnedByPlayer(Player, Position),
    /// A normal piece must move toward decreasing row index.
    IllegalForwardDirection(Position, Position),
}

/// The outcome of checking `s` for `player` on the normalized cell sequence
/// `nb`: `Ok(true)`, or the first failing check in order — source occupied,
/// destination empty, source owned by the player, and (for normal pieces)
/// the move decreasing the row index.
pub open spec fn validate_spec(
    nb: Seq<Option<Piece>>,
    s: Submove,
    player: Player,
) -> Result<bool, SubmoveError> {
    match nb[s.from.cell()] {
        None => Err(SubmoveError::NoPieceAtSource(s.from)),
        Some(piece) => if nb[s.to.cell()] is Some {
            Err(SubmoveError::DestinationOccupied(s.to))
        } else if piece.owner() != player {
            Err(SubmoveError::PieceNotOwnedByPlayer(player, s.from))
        } else if piece.is_king() || s.from.0 > s.to.0 {
            Ok(true)
        } else {
            Err(SubmoveError::IllegalForwardDirection(s.from, s.to))
        },
    }
}

/// Reversing the cell sequence is the same as mirroring the grid: the cell
/// at (row, col) of the mirrored board is the cell at (7 - row, 7 - col) of
/// the original, the composition of a row reversal with a per-row reversal.
pub proof fn lemma_mirrored_cells(b: Seq<Option<Piece>>, row: int, col: int)
    requires
        b.len() == 64,
        0 <= row < 8,
        0 <= col < 8,
    ensures
        mirrored(b)[row * 8 + col] == b[(7 - row) * 8 + (7 - col)],
{
}

/// Rewriting one cell trades its old contribution to a count for the new
/// one and leaves the rest untouched: emptying a player's cell lowers that
/// player's count by one and no other, so emptying every cell that holds a
/// player's pieces drives that player's count to zero.
pub proof fn lemma_count_after_update(b: Seq<Option<Piece>>, i: int, v: Option<Piece>, p: Player)
    requires
        0 <= i < b.len(),
    ensures
        count_player(b.update(i, v), p) == count_player(b, p) - count_cell(b[i], p) + count_cell(
            v,
            p,
        ),
    decreases b.len(),
{
    if i == b.len() - 1 {
        assert(b.update(i, v).drop_last() =~= b.drop_last());
        assert(b.update(i, v).last() == v);
    } else {
        assert(b.update(i, v).drop_last() =~= b.drop_last().update(i, v));
        assert(b.update(i, v).last() == b.last());
        lemma_count_after_update(b.drop_last(), i, v, p);
    }
}

/// Counting distributes over concatenation.
proof fn lemma_count_concat(a: Seq<Option<Piece>>, c: Seq<Option<Piece>>, p: Player)
    ensures
        count_player(a + c, p) == count_player(a, p) + count_player(c, p),
    decreases c.len(),
{
    if c.len() == 0 {
        assert(a + c =~= a);
    } else {
        assert((a + c).drop_last() =~= a + c.drop_last());
        assert((a + c).last() == c.last());
        lemma_count_concat(a, c.drop_last(), p);
    }
}

/// Mirroring the board moves every piece but loses none: both players keep
/// their counts through a `flip` or a `norm`.
pub proof fn lemma_count_mirrored(b: Seq<Option<Piece>>, p: Player)
    ensures
        count_player(mirrored(b), p) == count_player(b, p),
    decreases b.len(),
{
    if b.len() == 0 {
        assert(mirrored(b) =~= b);
    } else {
        let head = seq![b.last()];
        assert(mirrored(b) =~= head + mirrored(b.drop_last()));
        lemma_count_concat(head, mirrored(b.drop_last()), p);
        lemma_count_mirrored(b.drop_last(), p);
        assert(head.drop_last() =~= Seq::<Option<Piece>>::empty());
        assert(count_player(Seq::<Option<Piece>>::empty(), p) == 0);
        assert(count_player(head, p) == count_cell(b.last(), p));
    }
}

/// A text that parses at all keeps parsing to nothing when extended: once a
/// prefix is spoiled, the whole text is spoiled.
proof fn lemma_parse_glyphs_prefix_none(s: Seq<char>, i: int)
    requires
        0 <= i <= s.len(),
        parse_glyphs(s.subrange(0, i)) is None,
    ensures
        parse_glyphs(s) is None,
    decreases s.len() - i,
{
    if i == s.len() {
        assert(s.subrange(0, i) =~= s);
    } else {
        assert(s.subrange(0, i + 1).drop_last() =~= s.subrange(0, i));
        lemma_parse_glyphs_prefix_none(s, i + 1);
    }
}

/// Every glyph reads back as the cell it was written for.
proof fn lemma_glyph_inverse(cell: Option<Piece>)
    ensures
        is_glyph(glyph(cell)),
        glyph(cell) != '\n',
        unglyph(glyph(cell)) == cell,
{
}

/// Appending the first `c` glyphs of row `r` to parsed text appends the
/// corresponding cells to what it parses to.
proof fn lemma_parse_row(
    b: Seq<Option<Piece>>,
    r: int,
    c: int,
    t: Seq<char>,
    cells: Seq<Option<Piece>>,
)
    requires
        b.len() == 64,
        0 <= r < 8,
        0 <= c <= 8,
        parse_glyphs(t) == Some(cells),
    ensures
        parse_glyphs(t + Seq::new(c as nat, |j: int| glyph(b[8 * r + j]))) == Some(
            cells + b.subrange(8 * r, 8 * r + c),
        ),
    decreases c,
{
    if c == 0 {
        assert(t + Seq::new(0, |j: int| glyph(b[8 * r + j])) =~= t);
        assert(cells + b.subrange(8 * r, 8 * r) =~= cells);
    } else {
        lemma_parse_row(b, r, c - 1, t, cells);
        let t1 = t + Seq::new((c - 1) as nat, |j: int| glyph(b[8 * r + j]));
        let t2 = t + Seq::new(c as nat, |j: int| glyph(b[8 * r + j]));
        assert(t2.drop_last() =~= t1);
        assert(t2.last() == glyph(b[8 * r + c - 1]));
        lemma_glyph_inverse(b[8 * r + c - 1]);
        assert((cells + b.subrange(8 * r, 8 * r + c - 1)).push(b[8 * r + c - 1]) =~= cells
            + b.subrange(8 * r, 8 * r + c));
    }
}

/// The text of the first `r` rows parses back to the first `8 * r` cells.
proof fn lemma_parse_rows(b: Seq<Option<Piece>>, r: int)
    requires
        b.len() == 64,
        0 <= r <= 8,
    ensures
        parse_glyphs(rows_text(b, r)) == Some(b.subrange(0, 8 * r)),
    decreases r,
{
    if r == 0 {
        assert(b.subrange(0, 0) =~= Seq::<Option<Piece>>::empty());
    } else {
        lemma_parse_rows(b, r - 1);
        lemma_parse_row(b, r - 1, 8, rows_text(b, r - 1), b.subrange(0, 8 * (r - 1)));
        let glyphs = Seq::new(8, |j: int| glyph(b[8 * (r - 1) + j]));
        assert(b.subrange(0, 8 * (r - 1)) + b.subrange(8 * (r - 1), 8 * r) =~= b.subrange(
            0,
            8 * r,
        ));
        assert(rows_text(b, r).drop_last() =~= rows_text(b, r - 1) + glyphs);
        assert(rows_text(b, r).last() == '\n');
    }
}

/// The display text of any full board parses back to exactly that board:
/// the text format round-trips.
pub proof fn lemma_text_round_trip(b: Seq<Option<Piece>>)
    requires
        b.len() == 64,
    ensures
        parse_glyphs(board_text(b)) == Some(b),
{
    lemma_parse_rows(b, 8);
    assert(b.subrange(0, 64) =~= b);
}

/// The one-character text of one cell.
fn glyph_str(cell: Option<Piece>) -> (g: &'static str)
    ensures
        g@ == seq![glyph(cell)],
{
    match cell {
        None => {
            proof {
                reveal_strlit("·");
                assert("·"@ =~= seq![glyph(cell)]);
            }
            "·"
        },
        Some(Piece::Normal(Player::White)) => {
            proof {
                reveal_strlit("w");
                assert("w"@ =~= seq![glyph(cell)]);
            }
            "w"
        },
        Some(Piece::Normal(Player::Black)) => {
            proof {
                reveal_strlit("b");
                assert("b"@ =~= seq![glyph(cell)]);
            }
            "b"
        },
        Some(Piece::King(Player::White)) => {
            proof {
                reveal_strlit("W");
                assert("W"@ =~= seq![glyph(cell)]);
            }
            "W"
        },
        Some(Piece::King(Player::Black)) => {
            proof {
                reveal_strlit("B");
                assert("B"@ =~= seq![glyph(cell)]);
            }
            "B"
        },
    }
}

/// An 8x8 grid of cells, each empty or holding one piece, stored row-major.
#[derive(Debug, Clone, PartialEq)]
pub struct Board {
    pub board: Vec<Option<Piece>>,
}

impl View for Board {
    type V = Seq<Option<Piece>>;

    open spec fn view(&self) -> Seq<Option<Piece>> {
        self.board@
    }
}

/// Copies the 64 cells of `v` in order.
fn copied_cells(v: &Vec<Option<Piece>>) -> (r: Vec<Option<Piece>>)
    ensures
        r@ == v@,
{
    let mut r: Vec<Option<Piece>> = Vec::new();
    let mut i: usize = 0;
    while i < v.len()
        invariant
            i <= v@.len(),
            r@ == v@.subrange(0, i as int),
        decreases v@.len() - i,
    {
        r.push(v[i]);
        assert(r@ =~= v@.subrange(0, i + 1 as int));
        i = i + 1;
    }
    assert(r@ =~= v@);
    r
}

/// Copies the 64 cells of `v` in reverse order, which mirrors the board both
/// top-to-bottom and left-to-right.
fn mirrored_cells(v: &Vec<Option<Piece>>) -> (r: Vec<Option<Piece>>)
    requires
        v@.len() == 64,
    ensures
        r@ == mirrored(v@),
{
    let mut r: Vec<Option<Piece>> = Vec::new();
    let mut i: usize = 0;
    while i < 64
        invariant
            i <= 64,
            v@.len() == 64,
            r@.len() == i,
            forall|j: int| 0 <= j < i ==> r@[j] == v@[63 - j],
        decreases 64 - i,
    {
        r.push(v[63 - i]);
        i = i + 1;
    }
    assert(r@ =~= mirrored(v@));
    r
}

impl Board {
    /// Whether the grid has exactly the 64 cells of an 8x8 board.
    pub open spec fn wf(self) -> bool {
        self@.len() == 64
    }

    /// Builds the standard starting board in Black's canonical orientation:
    /// Black's twelve men in rows 5 to 7, White's twelve in rows 0 to 2.
    pub fn new() -> (r: Board)
        ensures
            r.wf(),
            r@ == starting_board(),
    {
        let mut cells: Vec<Option<Piece>> = Vec::new();
        let mut i: usize = 0;
        while i < 64
            invariant
                i <= 64,
                cells@.len() == i,
                forall|j: int| 0 <= j < i ==> cells@[j] == start_cell(j),
            decreases 64 - i,
        {
            let row = i / 8;
            let col = i % 8;
            let cell: Option<Piece> = if (row + col) % 2 == 1 {
                if row < 3 {
                    Some(Piece::white())
                } else if row >= 5 {
                    Some(Piece::black())
                } else {
                    None
                }
            } else {
                None
            };
            cells.push(cell);
            i = i + 1;
        }
        let r = Board { board: cells };
        assert(r@ =~= starting_board());
        r
    }

    /// Returns the board as read from `p`'s perspective: an unchanged copy
    /// for Black, a mirrored copy for White. The receiver is never mutated.
    pub fn norm(&self, p: Player) -> (r: Board)
        requires
            self.wf(),
        ensures
            r.wf(),
            r@ == self.norm_view(p),
    {
        match p {
            Player::White => Board { board: mirrored_cells(&self.board) },
            Player::Black => Board { board: copied_cells(&self.board) },
        }
    }

    /// The cell sequence as seen from `p`'s perspective.
    pub open spec fn norm_view(self, p: Player) -> Seq<Option<Piece>> {
        match p {
            Player::White => mirrored(self@),
            Player::Black => self@,
        }
    }

    /// Mirrors the board in place: the turn-transition operation that keeps
    /// the stored orientation canonical for the player about to move.
    pub fn flip(&mut self)
        requires
            old(self).wf(),
        ensures
            final(self).wf(),
            final(self)@ == mirrored(old(self)@),
    {
        self.board = mirrored_cells(&self.board);
    }

    /// The contents of the cell at `p`.
    pub fn at(&self, p: &Position) -> (r: Option<Piece>)
        requires
            self.wf(),
            p.in_bounds(),
        ensures
            r == self@[p.cell()],
    {
        self.board[p.0 * 8 + p.1]
    }

    /// Empties the cell at `p` unconditionally.
    pub fn remove(&mut self, p: &Position)
        requires
            old(self).wf(),
            p.in_bounds(),
        ensures
            final(self).wf(),
            final(self)@ == old(self)@.update(p.cell(), None),
    {
        self.board.set(p.0 * 8 + p.1, None);
    }

    /// Puts `x` in the cell at `p` unconditionally, replacing any occupant.
    pub fn place(&mut self, x: Piece, p: &Position)
        requires
            old(self).wf(),
            p.in_bounds(),
        ensures
            final(self).wf(),
            final(self)@ == old(self)@.update(p.cell(), Some(x)),
    {
        self.board.set(p.0 * 8 + p.1, Some(x));
    }

    /// Counts the live pieces on the board that belong to `p`.
    pub fn count_pieces(&self, p: Player) -> (r: usize)
        requires
            self.wf(),
        ensures
            r == count_player(self@, p),
    {
        let mut count: usize = 0;
        let mut i: usize = 0;
        while i < 64
            invariant
                i <= 64,
                self.wf(),
                count == count_player(self@.subrange(0, i as int), p),
                count <= i,
            decreases 64 - i,
        {
            proof {
                assert(self@.subrange(0, i + 1 as int).drop_last() =~= self@.subrange(
                    0,
                    i as int,
                ));
                assert(self@.subrange(0, i + 1 as int).last() == self@[i as int]);
            }
            match self.board[i] {
                Some(piece) => {
                    if piece.player() == p {
                        count = count + 1;
                    }
                },
                None => {},
            }
            i = i + 1;
        }
        proof {
            assert(self@.subrange(0, 64) =~= self@);
        }
        count
    }

    /// Renders the board as eight newline-terminated rows of one glyph per
    /// cell, the same format `from_str` reads.
    pub fn render(&self) -> (r: String)
        requires
            self.wf(),
        ensures
            r@ == board_text(self@),
    {
        let mut out = String::new();
        let mut row: usize = 0;
        while row < 8
            invariant
                self.wf(),
                row <= 8,
                out@ == rows_text(self@, row as int),
            decreases 8 - row,
        {
            let mut col: usize = 0;
            proof {
                assert(out@ =~= rows_text(self@, row as int) + Seq::new(
                    0,
                    |j: int| glyph(self@[8 * row + j]),
                ));
            }
            while col < 8
                invariant
                    self.wf(),
                    row < 8,
                    col <= 8,
                    out@ == rows_text(self@, row as int) + Seq::new(
                        col as nat,
                        |j: int| glyph(self@[8 * row + j]),
                    ),
                decreases 8 - col,
            {
                let g = glyph_str(self.board[row * 8 + col]);
                out.append(g);
                proof {
                    assert(out@ =~= rows_text(self@, row as int) + Seq::new(
                        (col + 1) as nat,
                        |j: int| glyph(self@[8 * row + j]),
                    ));
                }
                col = col + 1;
            }
            out.append("\n");
            proof {
                reveal_strlit("\n");
                assert(out@ =~= rows_text(self@, row as int + 1));
            }
            row = row + 1;
        }
        out
    }

    /// Reads a board out of its text form: glyphs for the 64 cells in
    /// row-major order, with newlines allowed anywhere and skipped. Yields
    /// `None` when the text holds any other character or does not come to
    /// exactly 64 cells.
    pub fn from_str(s: &str) -> (r: Option<Board>)
        ensures
            (match r {
                Some(b) => b.wf() && parse_glyphs(s@) == Some(b@),
                None => (match parse_glyphs(s@) {
                    Some(cells) => cells.len() != 64,
                    None => true,
                }),
            }),
    {
        let n = s.unicode_len();
        let mut cells: Vec<Option<Piece>> = Vec::new();
        let mut i: usize = 0;
        while i < n
            invariant
                i <= n,
                n == s@.len(),
                parse_glyphs(s@.subrange(0, i as int)) == Some(cells@),
            decreases n - i,
        {
            let c = s.get_char(i);
            proof {
                assert(s@.subrange(0, i + 1).drop_last() =~= s@.subrange(0, i as int));
                assert(s@.subrange(0, i + 1).last() == s@[i as int]);
            }
            if c == '\n' {
                // a row boundary carries no cell
            } else if c == 'w' {
                cells.push(Some(Piece::white()));
            } else if c == 'W' {
                cells.push(Some(Piece::white_king()));
            } else if c == 'b' {
                cells.push(Some(Piece::black()));
            } else if c == 'B' {
                cells.push(Some(Piece::black_king()));
            } else if c == '-' || c == '·' {
                cells.push(None);
            } else {
                proof {
                    lemma_parse_glyphs_prefix_none(s@, i + 1);
                }
                return None;
            }
            i = i + 1;
        }
        proof {
            assert(s@.subrange(0, n as int) =~= s@);
        }
        if cells.len() == 64 {
            Some(Board { board: cells })
        } else {
            None
        }
    }

    /// Checks a submove for `player` against this board exactly as stored,
    /// with no normalization: the orientation that `mutate` and the move
    /// application write. Returns `Ok(true)` or the first failing check: a
    /// piece must exist at the source, the destination must be empty, the
    /// piece must belong to `player`, and a normal piece must move toward
    /// decreasing row index.
    pub fn check_submove(&self, s: &Submove, player: Player) -> (r: Result<bool, SubmoveError>)
        requires
            self.wf(),
            s.from.in_bounds(),
            s.to.in_bounds(),
        ensures
            r == validate_spec(self@, *s, player),
    {
        let source = self.at(&s.from);
        match source {
            None => Err(SubmoveError::NoPieceAtSource(s.from)),
            Some(piece) => {
                if self.at(&s.to).is_some() {
                    Err(SubmoveError::DestinationOccupied(s.to))
                } else if piece.player() != player {
                    Err(SubmoveError::PieceNotOwnedByPlayer(player, s.from))
                } else {
                    match piece {
                        Piece::King(_) => Ok(true),
                        Piece::Normal(_) => {
                            if s.from.0 > s.to.0 {
                                Ok(true)
                            } else {
                                Err(SubmoveError::IllegalForwardDirection(s.from, s.to))
                            }
                        },
                    }
                }
            },
        }
    }

    /// Checks a submove for `player` against this board read in `player`'s
    /// normalized orientation — the read-side form, for reasoning from
    /// either player's point of view on a board that is not re-oriented for
    /// that player. Same checks and errors as `check_submove`.
    pub fn validate_submove(&self, s: &Submove, player: Player) -> (r: Result<
        bool,
        SubmoveError,
    >)
        requires
            self.wf(),
            s.from.in_bounds(),
            s.to.in_bounds(),
        ensures
            r == validate_spec(self.norm_view(player), *s, player),
            self.norm_view(player)[s.from.cell()] is None <==> r == Err::<bool, SubmoveError>(
                SubmoveError::NoPieceAtSource(s.from),
            ),
            (self.norm_view(player)[s.from.cell()] is Some && self.norm_view(player)[s.to.cell()]
                is Some) <==> r == Err::<bool, SubmoveError>(
                SubmoveError::DestinationOccupied(s.to),
            ),
    {
        let nb = self.norm(player);
        nb.check_submove(s, player)
    }

    /// Relocates the piece at the source of `s` to its destination,
    /// clearing both cells first. No legality check: pure application.
    pub fn mutate(&mut self, s: &Submove)
        requires
            old(self).wf(),
            s.from.in_bounds(),
            s.to.in_bounds(),
            old(self)@[s.from.cell()] is Some,
        ensures
            final(self).wf(),
            final(self)@ == old(self)@.update(s.from.cell(), None).update(
                s.to.cell(),
                old(self)@[s.from.cell()],
            ),
    {
        let piece = self.at(&s.from).unwrap();
        self.remove(&s.from);
        self.remove(&s.to);
        self.place(piece, &s.to);
        proof {
            assert(self@ =~= old(self)@.update(s.from.cell(), None).update(
                s.to.cell(),
                old(self)@[s.from.cell()],
            ));
        }
    }
}

} // verus!
