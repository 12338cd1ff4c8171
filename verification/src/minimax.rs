//! Depth-limited minimax over the positions of the game, without pruning.

use vstd::prelude::*;
use crate::evaluate::{evaluate_board, evaluation, lemma_evaluation_bounds, MAX_EVALUATION};
use crate::position::{
    legal_moves_of, position_after, status_of, well_formed, GameStatus, Position,
};

verus! {

/// The score that a player holds before having looked at any move: the
/// lowest score there is for the maximizer, the highest for the minimizer,
/// so that every score of a real move is at least as good.
pub open spec fn no_move_score(maximizing: bool) -> int {
    if maximizing {
        i32::MIN as int
    } else {
        i32::MAX as int
    }
}

/// The better of two scores for a player: the larger for the maximizer, the
/// smaller for the minimizer.
pub open spec fn better_of(a: int, b: int, maximizing: bool) -> int {
    if maximizing {
        if a >= b {
            a
        } else {
            b
        }
    } else {
        if a <= b {
            a
        } else {
            b
        }
    }
}

/// The minimax value of a board searched `depth` plies deep, for the player
/// to move there being the maximizer or the minimizer.
///
/// With no depth left, or where the game is over, it is the static score.
/// Otherwise it is the best, for the mover, of the values of the boards
/// after each legal move, searched one ply less deep with the roles swapped.
pub open spec fn minimax_value(board: chess::Board, depth: nat, maximizing: bool) -> int
    decreases depth, 0nat,
{
    if depth == 0 || status_of(board) != GameStatus::Ongoing {
        evaluation(board)
    } else {
        best_reply(board, legal_moves_of(board).len(), (depth - 1) as nat, maximizing)
    }
}

/// The best, for the mover, of the values of the boards after the first
/// `count` legal moves of `board`, each searched `depth` plies deep from the
/// opponent's side. With no move to look at it is the mover's starting
/// score.
pub open spec fn best_reply(board: chess::Board, count: nat, depth: nat, maximizing: bool) -> int
    decreases depth, count + 2,
{
    if count == 0 {
        no_move_score(maximizing)
    } else {
        better_of(
            best_reply(board, (count - 1) as nat, depth, maximizing),
            reply_value(board, count - 1, depth, maximizing),
            maximizing,
        )
    }
}

/// What the legal move of `board` with the given index is worth to the
/// search. Where the board after it is well formed, that is its value
/// searched `depth` plies deep from the opponent's side. A board that is not
/// well formed cannot be searched: it counts for its static score.
pub open spec fn reply_value(board: chess::Board, index: int, depth: nat, maximizing: bool) -> int
    decreases depth, 1nat,
{
    let next = position_after(board, legal_moves_of(board)[index]);
    if well_formed(next) {
        minimax_value(next, depth, !maximizing)
    } else {
        evaluation(next)
    }
}

/// With no depth left, the value of a board is its static score, whoever is
/// to move.
pub proof fn lemma_depth_zero_is_evaluation(board: chess::Board, maximizing: bool)
    ensures
        minimax_value(board, 0, maximizing) == evaluation(board),
{
}

/// Where the game is over, the value of a board is its static score at any
/// depth.
pub proof fn lemma_finished_game_is_evaluation(board: chess::Board, depth: nat, maximizing: bool)
    requires
        status_of(board) != GameStatus::Ongoing,
    ensures
        minimax_value(board, depth, maximizing) == evaluation(board),
{
}

/// The scores that a search can come up with: a material balance, or one of
/// the two starting scores.
pub open spec fn is_score(value: int) -> bool {
    ||| -MAX_EVALUATION <= value <= MAX_EVALUATION
    ||| value == i32::MIN
    ||| value == i32::MAX
}

/// Every minimax value is a score, and so fits in an `i32`.
pub proof fn lemma_minimax_value_is_score(board: chess::Board, depth: nat, maximizing: bool)
    ensures
        is_score(minimax_value(board, depth, maximizing)),
        i32::MIN <= minimax_value(board, depth, maximizing) <= i32::MAX,
    decreases depth, 0nat,
{
    if depth == 0 || status_of(board) != GameStatus::Ongoing {
        lemma_evaluation_bounds(board);
    } else {
        lemma_best_reply_is_score(
            board,
            legal_moves_of(board).len(),
            (depth - 1) as nat,
            maximizing,
        );
    }
}

/// The best reply value over any number of moves is a score.
pub proof fn lemma_best_reply_is_score(board: chess::Board, count: nat, depth: nat, maximizing: bool)
    ensures
        is_score(best_reply(board, count, depth, maximizing)),
        i32::MIN <= best_reply(board, count, depth, maximizing) <= i32::MAX,
    decreases depth, count + 2,
{
    if count > 0 {
        lemma_best_reply_is_score(board, (count - 1) as nat, depth, maximizing);
        lemma_reply_value_is_score(board, count - 1, depth, maximizing);
    }
}

/// What a move is worth is a score.
pub proof fn lemma_reply_value_is_score(board: chess::Board, index: int, depth: nat, maximizing: bool)
    ensures
        is_score(reply_value(board, index, depth, maximizing)),
        i32::MIN <= reply_value(board, index, depth, maximizing) <= i32::MAX,
    decreases depth, 1nat,
{
    let next = position_after(board, legal_moves_of(board)[index]);
    if well_formed(next) {
        lemma_minimax_value_is_score(next, depth, !maximizing);
    } else {
        lemma_evaluation_bounds(next);
    }
}

/// The best reply value is what its name says: no move among those looked
/// at does better for the mover, and if any move was looked at, the value is
/// that of one of them. The starting score shows only where there is no
/// move.
pub proof fn lemma_best_reply_is_best(board: chess::Board, count: nat, depth: nat, maximizing: bool)
    ensures
        forall|j: int|
            0 <= j < count ==> if maximizing {
                #[trigger] reply_value(board, j, depth, maximizing) <= best_reply(
                    board,
                    count,
                    depth,
                    maximizing,
                )
            } else {
                reply_value(board, j, depth, maximizing) >= best_reply(
                    board,
                    count,
                    depth,
                    maximizing,
                )
            },
        count > 0 ==> exists|j: int|
            0 <= j < count && best_reply(board, count, depth, maximizing) == #[trigger] reply_value(
                board,
                j,
                depth,
                maximizing,
            ),
        count == 0 ==> best_reply(board, count, depth, maximizing) == no_move_score(maximizing),
    decreases count,
{
    if count > 0 {
        lemma_best_reply_is_best(board, (count - 1) as nat, depth, maximizing);
        lemma_reply_value_is_score(board, count - 1, depth, maximizing);
        let last = reply_value(board, count - 1, depth, maximizing);
        let best = best_reply(board, count, depth, maximizing);
        if best == last {
            assert(0 <= count - 1 < count && best == reply_value(
                board,
                count - 1,
                depth,
                maximizing,
            ));
        } else {
            assert(count - 1 > 0);
            let j = choose|j: int|
                0 <= j < count - 1 && best_reply(board, (count - 1) as nat, depth, maximizing)
                    == #[trigger] reply_value(board, j, depth, maximizing);
            assert(0 <= j < count && best == reply_value(board, j, depth, maximizing));
        }
    }
}

/// The better of two scores for a player.
pub fn better(a: i32, b: i32, maximizing: bool) -> (best: i32)
    ensures
        best == better_of(a as int, b as int, maximizing),
{
    if maximizing {
        if a >= b {
            a
        } else {
            b
        }
    } else {
        if a <= b {
            a
        } else {
            b
        }
    }
}

/// Searches a position `depth` plies deep and returns its minimax value.
/// `maximizing` says whether the player to move wants the score high or low.
///
/// The value is always a material balance: where the game goes on there is
/// a move to take the place of the starting score.
pub fn minimax(position: &Position, depth: u32, maximizing: bool) -> (score: i32)
    ensures
        score == minimax_value(position@, depth as nat, maximizing),
        -MAX_EVALUATION <= score <= MAX_EVALUATION,
    decreases depth, 0nat,
{
    if depth == 0 || position.status() != GameStatus::Ongoing {
        return evaluate_board(&position.board());
    }
    let moves: Vec<chess::ChessMove> = position.legal_moves();
    let mut best: i32 = if maximizing {
        i32::MIN
    } else {
        i32::MAX
    };
    let mut i: usize = 0;
    while i < moves.len()
        invariant
            depth > 0,
            i <= moves.len(),
            moves@ == legal_moves_of(position@),
            best == best_reply(position@, i as nat, (depth - 1) as nat, maximizing),
            i == 0 ==> best == no_move_score(maximizing),
            i > 0 ==> -MAX_EVALUATION <= best <= MAX_EVALUATION,
        decreases moves.len() - i,
    {
        let score: i32 = reply(position, &moves, i, depth - 1, !maximizing);
        assert(best_reply(position@, (i + 1) as nat, (depth - 1) as nat, maximizing) == better_of(
            best as int,
            score as int,
            maximizing,
        ));
        best = better(best, score, maximizing);
        i += 1;
    }
    best
}

/// Plays the move with the given index and returns what it is worth: the
/// value of the position after it, searched `depth` plies deep with the
/// opponent to move as the maximizer or the minimizer, or the static score
/// of a board that cannot be searched.
pub(crate) fn reply(
    position: &Position,
    moves: &Vec<chess::ChessMove>,
    index: usize,
    depth: u32,
    opponent_maximizing: bool,
) -> (score: i32)
    requires
        moves@ == legal_moves_of(position@),
        index < moves.len(),
    ensures
        score == reply_value(position@, index as int, depth as nat, !opponent_maximizing),
        -MAX_EVALUATION <= score <= MAX_EVALUATION,
    decreases depth, 1nat,
{
    let mv: chess::ChessMove = moves[index];
    assert(moves@[index as int] == mv && moves@.contains(mv));
    match position.after(mv) {
        Ok(next) => minimax(&next, depth, opponent_maximizing),
        Err(board) => evaluate_board(&board),
    }
}

} // verus!
