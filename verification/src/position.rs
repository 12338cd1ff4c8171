//! Positions of the game, as the `chess` crate represents and plays them.
//!
//! A `chess::Board` is opaque here. What the search needs to know of one is
//! given names below, and each call into the crate is a small function whose
//! contract ties its result to those names. Nothing in this module is proved
//! about the crate itself: the contracts of those functions are its word,
//! taken on trust.

use vstd::prelude::*;
use crate::pieces::{Man, PieceKind, Side};
use crate::placement::{men_of, Placement, SQUARES};

verus! {

/// A board of the `chess` crate.
#[verifier::external_type_specification]
#[verifier::external_body]
pub struct ExBoard(chess::Board);

/// A move of the `chess` crate.
#[verifier::external_type_specification]
#[verifier::external_body]
pub struct ExChessMove(chess::ChessMove);

/// Whether the game goes on at a position, and how it ended if not.
#[derive(Clone, Copy, Debug, PartialEq, Eq, Structural)]
pub enum GameStatus {
    Ongoing,
    Stalemate,
    Checkmate,
}

/// The most men one side can have: the sixteen it starts with.
pub const MAX_MEN: usize = 16;

/// What `chess::Board::piece_on` reports for a square of a board.
pub uninterp spec fn piece_at(board: chess::Board, square: int) -> Option<PieceKind>;

/// What `chess::Board::color_on` reports for a square of a board.
pub uninterp spec fn color_at(board: chess::Board, square: int) -> Option<Side>;

/// What `chess::Board::is_sane` answers for a board.
pub uninterp spec fn passes_sanity_check(board: chess::Board) -> bool;

/// What `chess::Board::status` reports for a board.
pub uninterp spec fn status_of(board: chess::Board) -> GameStatus;

/// The moves that `chess::MoveGen::new_legal` yields for a board, in the
/// order in which it yields them.
pub uninterp spec fn legal_moves_of(board: chess::Board) -> Seq<chess::ChessMove>;

/// The board that `chess::Board::make_move_new` returns for a board and a
/// move.
pub uninterp spec fn position_after(board: chess::Board, mv: chess::ChessMove) -> chess::Board;

/// The man that counts for a square of a board. An occupied square counts
/// for White if the board reports it as White's, and for Black otherwise.
pub open spec fn occupant(board: chess::Board, square: int) -> Option<Man> {
    match piece_at(board, square) {
        Some(kind) => Some(
            Man {
                kind,
                side: if color_at(board, square) == Some(Side::White) {
                    Side::White
                } else {
                    Side::Black
                },
            },
        ),
        None => None,
    }
}

/// The men of a board, square by square.
pub open spec fn placement_of(board: chess::Board) -> Seq<Option<Man>> {
    Seq::new(SQUARES as nat, |square: int| occupant(board, square))
}

/// The boards that the search accepts: those that pass the sanity check of
/// the `chess` crate and on which neither side has more than sixteen men.
/// Every position of a real game is one of them. A legal move need not lead
/// from one to another, so every board is tested before it is searched.
pub open spec fn well_formed(board: chess::Board) -> bool {
    &&& passes_sanity_check(board)
    &&& men_of(placement_of(board), Side::White) <= MAX_MEN
    &&& men_of(placement_of(board), Side::Black) <= MAX_MEN
}

/// Calls `chess::Board::piece_on` for the square with the given index and
/// hands back the kind of man it reports, if any.
#[verifier::external_body]
fn piece_on(board: &chess::Board, square: u8) -> (piece: Option<PieceKind>)
    requires
        square < SQUARES,
    ensures
        piece == piece_at(*board, square as int),
{
    match board.piece_on(chess::ALL_SQUARES[square as usize]) {
        Some(chess::Piece::Pawn) => Some(PieceKind::Pawn),
        Some(chess::Piece::Knight) => Some(PieceKind::Knight),
        Some(chess::Piece::Bishop) => Some(PieceKind::Bishop),
        Some(chess::Piece::Rook) => Some(PieceKind::Rook),
        Some(chess::Piece::Queen) => Some(PieceKind::Queen),
        Some(chess::Piece::King) => Some(PieceKind::King),
        None => None,
    }
}

/// Calls `chess::Board::color_on` for the square with the given index and
/// hands back the side it reports, if any.
#[verifier::external_body]
fn color_on(board: &chess::Board, square: u8) -> (color: Option<Side>)
    requires
        square < SQUARES,
    ensures
        color == color_at(*board, square as int),
{
    match board.color_on(chess::ALL_SQUARES[square as usize]) {
        Some(chess::Color::White) => Some(Side::White),
        Some(chess::Color::Black) => Some(Side::Black),
        None => None,
    }
}

/// Calls `chess::Board::is_sane`, the crate's own check that a board makes
/// sense: one king each, no square held twice, the side that just moved not
/// in check, castling rights that match the rooks and kings.
#[verifier::external_body]
fn is_sane(board: &chess::Board) -> (sane: bool)
    ensures
        sane == passes_sanity_check(*board),
{
    board.is_sane()
}

/// Calls `chess::Board::status`. The crate answers by counting the moves of
/// its generator, which it can only do for a well-formed board: the game is
/// ongoing exactly where the generator yields a move.
#[verifier::external_body]
fn board_status(board: &chess::Board) -> (status: GameStatus)
    requires
        well_formed(*board),
    ensures
        status == status_of(*board),
        status == GameStatus::Ongoing <==> legal_moves_of(*board).len() > 0,
{
    match board.status() {
        chess::BoardStatus::Ongoing => GameStatus::Ongoing,
        chess::BoardStatus::Stalemate => GameStatus::Stalemate,
        chess::BoardStatus::Checkmate => GameStatus::Checkmate,
    }
}

/// Collects what `chess::MoveGen::new_legal` yields. The generator keeps one
/// entry per man that can move in a buffer sized for a real game, and looks
/// up the mover's king: hence the demand for a well-formed board.
#[verifier::external_body]
fn generate_legal_moves(board: &chess::Board) -> (moves: Vec<chess::ChessMove>)
    requires
        well_formed(*board),
    ensures
        moves@ == legal_moves_of(*board),
{
    chess::MoveGen::new_legal(board).collect()
}

/// Calls `chess::Board::make_move_new` with a move that the generator gave
/// for this very board; the crate leaves the result of any other move
/// undefined. Nothing is claimed of the board that comes back but its name:
/// it need not be well formed. Where the square behind a pawn that may be
/// taken en passant is occupied, the generator still yields the capture, and
/// the crate then plays it over the man that stands there.
#[verifier::external_body]
fn make_move(board: &chess::Board, mv: chess::ChessMove) -> (next: chess::Board)
    requires
        well_formed(*board),
        legal_moves_of(*board).contains(mv),
    ensures
        next == position_after(*board, mv),
{
    board.make_move_new(mv)
}

/// Reads the men of a board, square by square.
pub fn read_placement(board: &chess::Board) -> (placement: Placement)
    ensures
        placement@ == placement_of(*board),
{
    let mut placement: Placement = Placement::empty();
    let mut square: u8 = 0;
    while square < 64
        invariant
            square <= 64,
            placement@ == Seq::new(
                SQUARES as nat,
                |k: int| if k < square { occupant(*board, k) } else { None },
            ),
        decreases 64 - square,
    {
        let content: Option<Man> = match piece_on(board, square) {
            Some(kind) => {
                let side: Side = match color_on(board, square) {
                    Some(Side::White) => Side::White,
                    _ => Side::Black,
                };
                Some(Man { kind, side })
            },
            None => None,
        };
        placement = placement.put(square, content);
        square += 1;
    }
    placement
}

/// A position to search from: a board of the `chess` crate that is known to
/// be well formed.
#[derive(Clone, Copy)]
pub struct Position {
    board: chess::Board,
}

impl View for Position {
    type V = chess::Board;

    closed spec fn view(&self) -> chess::Board {
        self.board
    }
}

impl Position {
    /// The board of a position is always well formed.
    #[verifier::type_invariant]
    pub open spec fn wf(&self) -> bool {
        well_formed(self@)
    }

    /// Accepts a board as a position if it is well formed.
    pub fn new(board: chess::Board) -> (position: Option<Position>)
        ensures
            position is Some <==> well_formed(board),
            position matches Some(p) ==> p@ == board,
    {
        let placement: Placement = read_placement(&board);
        if placement.men(Side::White) <= MAX_MEN && placement.men(Side::Black) <= MAX_MEN
            && is_sane(&board) {
            Some(Position { board })
        } else {
            None
        }
    }

    /// The board of the position.
    pub fn board(&self) -> (board: chess::Board)
        ensures
            board == self@,
            well_formed(board),
    {
        proof {
            use_type_invariant(self);
        }
        self.board
    }

    /// Whether the game goes on, as the `chess` crate sees it: it does
    /// exactly where there is a legal move.
    pub fn status(&self) -> (status: GameStatus)
        ensures
            status == status_of(self@),
            status == GameStatus::Ongoing <==> legal_moves_of(self@).len() > 0,
    {
        proof {
            use_type_invariant(self);
        }
        board_status(&self.board)
    }

    /// The legal moves, in the order in which the `chess` crate generates
    /// them.
    pub fn legal_moves(&self) -> (moves: Vec<chess::ChessMove>)
        ensures
            moves@ == legal_moves_of(self@),
    {
        proof {
            use_type_invariant(self);
        }
        generate_legal_moves(&self.board)
    }

    /// Plays one of the legal moves. Gives the position after it, or, where
    /// the board after it is not well formed, that board: it cannot be
    /// searched any further.
    pub(crate) fn after(&self, mv: chess::ChessMove) -> (next: Result<Position, chess::Board>)
        requires
            legal_moves_of(self@).contains(mv),
        ensures
            match next {
                Ok(position) => position@ == position_after(self@, mv) && well_formed(position@),
                Err(board) => board == position_after(self@, mv) && !well_formed(board),
            },
    {
        proof {
            use_type_invariant(self);
        }
        let board: chess::Board = make_move(&self.board, mv);
        match Position::new(board) {
            Some(position) => Ok(position),
            None => Err(board),
        }
    }
}

} // verus!
