//! Static evaluation of a board: its material balance.

use vstd::prelude::*;
use crate::placement::{lemma_material_bounds, lemma_recoloured_negates_material, material, recoloured};
use crate::position::{placement_of, read_placement};

verus! {

/// No board is worth more to either side than a queen on every square.
pub const MAX_EVALUATION: i32 = 57600;

/// The static score of a board: the value of White's men less the value of
/// Black's. Whose turn it is and whether the game is over play no part.
pub open spec fn evaluation(board: chess::Board) -> int {
    material(placement_of(board))
}

/// The static score stays far from the ends of the `i32` range.
pub proof fn lemma_evaluation_bounds(board: chess::Board)
    ensures
        -MAX_EVALUATION <= evaluation(board) <= MAX_EVALUATION,
{
    lemma_material_bounds(placement_of(board));
    assert(placement_of(board).len() == 64);
}

/// Two boards that hold the same men on the same squares, but with the
/// colours swapped, have opposite scores.
pub proof fn lemma_evaluation_antisymmetric(board: chess::Board, mirror: chess::Board)
    requires
        placement_of(mirror) == recoloured(placement_of(board)),
    ensures
        evaluation(board) == -evaluation(mirror),
{
    lemma_recoloured_negates_material(placement_of(board));
}

/// Evaluates a board statically: positive favours White, negative Black.
pub fn evaluate_board(board: &chess::Board) -> (score: i32)
    ensures
        score == evaluation(*board),
        -MAX_EVALUATION <= score <= MAX_EVALUATION,
{
    proof {
        lemma_evaluation_bounds(*board);
    }
    read_placement(board).material()
}

} // verus!
