//! Iterative deepening: the best first move, searched one ply deeper at a
//! time for as long as the time budget lasts.

use vstd::prelude::*;
use std::time::{Duration, Instant};
use crate::clock::{as_nanos, budget_spent, elapsed_since, nanos_of, now};
use crate::evaluate::MAX_EVALUATION;
use crate::minimax::{best_reply, better_of, minimax_value, reply, reply_value};
use crate::position::{legal_moves_of, status_of, GameStatus, Position};

verus! {

/// The score of the root move with the given index in a search of `depth`
/// plies: the value of the board after it, searched one ply less deep, with
/// the opponent as the minimizer. The root player is the maximizer whichever
/// colour it plays.
pub open spec fn root_score(board: chess::Board, index: int, depth: nat) -> int {
    reply_value(board, index, (depth - 1) as nat, true)
}

/// The score to beat after the choice made so far: the score of the chosen
/// move, or the lowest score there is while none is chosen.
pub open spec fn score_to_beat(board: chess::Board, choice: Option<int>, depth: nat) -> int {
    match choice {
        Some(index) => root_score(board, index, depth),
        None => i32::MIN as int,
    }
}

/// The index of the move chosen among the first `count` root moves in a
/// search of `depth` plies. A move replaces the choice made before it only
/// if it scores strictly higher.
pub open spec fn root_choice(board: chess::Board, count: nat, depth: nat) -> Option<int>
    decreases count,
{
    if count == 0 {
        None
    } else {
        let earlier = root_choice(board, (count - 1) as nat, depth);
        if root_score(board, count - 1, depth) > score_to_beat(board, earlier, depth) {
            Some(count - 1)
        } else {
            earlier
        }
    }
}

/// The move chosen at the root in a search of `depth` plies, with its score.
pub open spec fn root_pick(board: chess::Board, depth: nat) -> Option<(chess::ChessMove, int)> {
    match root_choice(board, legal_moves_of(board).len(), depth) {
        Some(index) => Some((legal_moves_of(board)[index], root_score(board, index, depth))),
        None => None,
    }
}

/// The mathematical content of a `SearchResult`.
pub struct SearchModel {
    pub best_move: Option<chess::ChessMove>,
    pub best_score: int,
    pub depth_reached: nat,
}

/// What a search has found so far.
#[derive(Clone, Copy, Debug)]
pub struct SearchResult {
    /// The best move of the deepest search completed that chose one.
    pub best_move: Option<chess::ChessMove>,
    /// The score of that move, or the lowest score there is without one.
    pub best_score: i32,
    /// How many depths have been searched to the end.
    pub depth_reached: u32,
}

impl View for SearchResult {
    type V = SearchModel;

    open spec fn view(&self) -> SearchModel {
        SearchModel {
            best_move: self.best_move,
            best_score: self.best_score as int,
            depth_reached: self.depth_reached as nat,
        }
    }
}

/// The result of a search before any depth is completed.
pub open spec fn nothing_found() -> SearchModel {
    SearchModel { best_move: None, best_score: i32::MIN as int, depth_reached: 0 }
}

/// The result after one more depth is completed: the move chosen at that
/// depth with its score, or the earlier move and score if that depth chose
/// none.
pub open spec fn deepened(board: chess::Board, earlier: SearchModel) -> SearchModel {
    let depth = earlier.depth_reached + 1;
    match root_pick(board, depth) {
        Some((mv, score)) => SearchModel {
            best_move: Some(mv),
            best_score: score,
            depth_reached: depth,
        },
        None => SearchModel {
            best_move: earlier.best_move,
            best_score: earlier.best_score,
            depth_reached: depth,
        },
    }
}

/// The result after the depths 1 to `depths` have each been searched to the
/// end.
pub open spec fn outcome(board: chess::Board, depths: nat) -> SearchModel
    decreases depths,
{
    if depths == 0 {
        nothing_found()
    } else {
        deepened(board, outcome(board, (depths - 1) as nat))
    }
}

/// The move chosen among the first `count` root moves is the first of those
/// with the highest score, and it scores above the lowest score there is.
/// None is chosen only if no move scores above that.
pub proof fn lemma_root_choice_is_first_best(board: chess::Board, count: nat, depth: nat)
    ensures
        match root_choice(board, count, depth) {
            Some(best) => {
                &&& 0 <= best < count
                &&& root_score(board, best, depth) > i32::MIN
                &&& forall|j: int|
                    0 <= j < count ==> root_score(board, j, depth) <= root_score(
                        board,
                        best,
                        depth,
                    )
                &&& forall|j: int|
                    0 <= j < best ==> root_score(board, j, depth) < root_score(board, best, depth)
            },
            None => forall|j: int| 0 <= j < count ==> root_score(board, j, depth) <= i32::MIN,
        },
    decreases count,
{
    if count > 0 {
        lemma_root_choice_is_first_best(board, (count - 1) as nat, depth);
    }
}

/// The score of the move chosen among the first `count` root moves is the
/// best reply value that minimax finds for the maximizer over those moves.
pub proof fn lemma_root_choice_scores_best_reply(board: chess::Board, count: nat, depth: nat)
    ensures
        score_to_beat(board, root_choice(board, count, depth), depth) == best_reply(
            board,
            count,
            (depth - 1) as nat,
            true,
        ),
    decreases count,
{
    if count > 0 {
        lemma_root_choice_scores_best_reply(board, (count - 1) as nat, depth);
        assert(best_reply(board, count, (depth - 1) as nat, true) == better_of(
            best_reply(board, (count - 1) as nat, (depth - 1) as nat, true),
            reply_value(board, count - 1, (depth - 1) as nat, true),
            true,
        ));
    }
}

/// While the game goes on, the score of the move chosen at the root is the
/// minimax value of the root position for the maximizer.
pub proof fn lemma_root_pick_scores_minimax_value(board: chess::Board, depth: nat)
    requires
        depth >= 1,
        status_of(board) == GameStatus::Ongoing,
    ensures
        root_pick(board, depth) matches Some(pick) ==> pick.1 == minimax_value(board, depth, true),
{
    lemma_root_choice_scores_best_reply(board, legal_moves_of(board).len(), depth);
}

/// A search always counts the depths it has completed.
pub proof fn lemma_outcome_counts_depths(board: chess::Board, depths: nat)
    ensures
        outcome(board, depths).depth_reached == depths,
    decreases depths,
{
    if depths > 0 {
        lemma_outcome_counts_depths(board, (depths - 1) as nat);
    }
}

/// The result reports the deepest completed depth, never a shallower one:
/// if the search of the last depth chose a move, the result holds that move
/// and its score.
pub proof fn lemma_deepest_depth_decides(board: chess::Board, depths: nat)
    requires
        depths >= 1,
    ensures
        outcome(board, depths).depth_reached == depths,
        root_pick(board, depths) matches Some(pick) ==> {
            &&& outcome(board, depths).best_move == Some(pick.0)
            &&& outcome(board, depths).best_score == pick.1
        },
{
    lemma_outcome_counts_depths(board, (depths - 1) as nat);
}

/// From a position without legal moves no search finds a move, however deep
/// it goes.
pub proof fn lemma_no_moves_nothing_found(board: chess::Board, depths: nat)
    requires
        legal_moves_of(board).len() == 0,
    ensures
        outcome(board, depths).best_move is None,
        outcome(board, depths).best_score == i32::MIN,
    decreases depths,
{
    if depths > 0 {
        lemma_no_moves_nothing_found(board, (depths - 1) as nat);
    }
}

/// Searching the same position to the same number of depths twice gives the
/// same move and the same score.
pub proof fn lemma_search_is_deterministic(
    board: chess::Board,
    depths: nat,
    first: SearchResult,
    second: SearchResult,
)
    requires
        first@ == outcome(board, depths),
        second@ == outcome(board, depths),
    ensures
        first.best_move == second.best_move,
        first.best_score == second.best_score,
        first.depth_reached == second.depth_reached,
{
}

/// Searches the root moves of a position `depth` plies deep and returns the
/// first of those that score highest, with its score. The replies are
/// searched with the opponent as the minimizer. Returns nothing exactly
/// where there is no legal move.
pub fn best_root_move(position: &Position, depth: u32) -> (pick: Option<(chess::ChessMove, i32)>)
    requires
        depth >= 1,
    ensures
        match pick {
            Some((mv, score)) => {
                &&& root_pick(position@, depth as nat) == Some((mv, score as int))
                &&& -MAX_EVALUATION <= score <= MAX_EVALUATION
            },
            None => root_pick(position@, depth as nat) is None,
        },
        pick is Some <==> legal_moves_of(position@).len() > 0,
{
    let moves: Vec<chess::ChessMove> = position.legal_moves();
    let mut best_move: Option<chess::ChessMove> = None;
    let mut best_score: i32 = i32::MIN;
    let mut i: usize = 0;
    while i < moves.len()
        invariant
            depth >= 1,
            i <= moves.len(),
            moves@ == legal_moves_of(position@),
            best_score == score_to_beat(
                position@,
                root_choice(position@, i as nat, depth as nat),
                depth as nat,
            ),
            match root_choice(position@, i as nat, depth as nat) {
                Some(index) => 0 <= index < i && best_move == Some(moves@[index]),
                None => best_move is None,
            },
            best_move is Some <==> i > 0,
            i > 0 ==> -MAX_EVALUATION <= best_score <= MAX_EVALUATION,
        decreases moves.len() - i,
    {
        let mv: chess::ChessMove = moves[i];
        let score: i32 = reply(position, &moves, i, depth - 1, false);
        assert(score == root_score(position@, i as int, depth as nat));
        if score > best_score {
            best_score = score;
            best_move = Some(mv);
        }
        i += 1;
    }
    match best_move {
        Some(mv) => Some((mv, best_score)),
        None => None,
    }
}

impl SearchResult {
    /// The result of a search before any depth is completed.
    pub fn new() -> (result: SearchResult)
        ensures
            result@ == nothing_found(),
    {
        SearchResult { best_move: None, best_score: i32::MIN, depth_reached: 0 }
    }
}

/// Searches one depth more than `earlier` has completed and returns the
/// result after it.
pub fn search_next_depth(position: &Position, earlier: SearchResult) -> (result: SearchResult)
    requires
        earlier.depth_reached < u32::MAX,
    ensures
        result@ == deepened(position@, earlier@),
        result.best_move is Some <==> legal_moves_of(position@).len() > 0
            || earlier.best_move is Some,
        root_pick(position@, result.depth_reached as nat) is Some <==> legal_moves_of(
            position@,
        ).len() > 0,
{
    let depth: u32 = earlier.depth_reached + 1;
    match best_root_move(position, depth) {
        Some((mv, score)) => SearchResult {
            best_move: Some(mv),
            best_score: score,
            depth_reached: depth,
        },
        None => SearchResult {
            best_move: earlier.best_move,
            best_score: earlier.best_score,
            depth_reached: depth,
        },
    }
}

/// Whether a result holds just what the search of `depths` plies chose at
/// the root: that move and its score, or no move if it chose none.
pub open spec fn decided_at(result: SearchModel, board: chess::Board, depths: nat) -> bool {
    match root_pick(board, depths) {
        Some((mv, score)) => result.best_move == Some(mv) && result.best_score == score,
        None => result.best_move is None,
    }
}

/// Iterative deepening without a clock: searches the depths 1 to
/// `max_depth`, each to the end. It finds a move exactly where there is a
/// legal move and a depth to search, and the move is the one that the
/// deepest search chose.
pub fn search_to_depth(position: &Position, max_depth: u32) -> (result: SearchResult)
    ensures
        result@ == outcome(position@, max_depth as nat),
        result.best_move is Some <==> max_depth >= 1 && legal_moves_of(position@).len() > 0,
        max_depth >= 1 ==> decided_at(result@, position@, max_depth as nat),
{
    let mut result: SearchResult = SearchResult::new();
    while result.depth_reached < max_depth
        invariant
            result.depth_reached <= max_depth,
            result@ == outcome(position@, result.depth_reached as nat),
            result.best_move is Some <==> result.depth_reached >= 1 && legal_moves_of(
                position@,
            ).len() > 0,
            result.depth_reached >= 1 ==> decided_at(
                result@,
                position@,
                result.depth_reached as nat,
            ),
        decreases max_depth - result.depth_reached,
    {
        proof {
            lemma_outcome_counts_depths(position@, result.depth_reached as nat);
        }
        result = search_next_depth(position, result);
        proof {
            lemma_deepest_depth_decides(position@, result.depth_reached as nat);
        }
    }
    result
}

/// One round of iterative deepening, given the clock reading taken before
/// it: nothing if the time gone by has reached the limit, and otherwise the
/// result after searching one depth more than `earlier` has completed.
pub fn deepen_once(
    position: &Position,
    earlier: SearchResult,
    elapsed_nanos: u128,
    limit_nanos: u128,
) -> (next: Option<SearchResult>)
    requires
        earlier.depth_reached < u32::MAX,
    ensures
        next is None <==> elapsed_nanos >= limit_nanos,
        next matches Some(result) ==> {
            &&& result@ == deepened(position@, earlier@)
            &&& result.best_move is Some <==> legal_moves_of(position@).len() > 0
                || earlier.best_move is Some
            &&& root_pick(position@, result.depth_reached as nat) is Some <==> legal_moves_of(
                position@,
            ).len() > 0
        },
{
    if budget_spent(elapsed_nanos, limit_nanos) {
        None
    } else {
        Some(search_next_depth(position, earlier))
    }
}

/// What a search under a time budget found, and how it got there.
pub struct TimedSearch {
    /// The result after the last depth that was completed.
    pub result: SearchResult,
    /// The result after each completed depth, shallowest first.
    pub progress: Vec<SearchResult>,
    /// Whether the clock stopped the search before it reached its depth.
    pub timed_out: bool,
}

/// Iterative deepening under a time budget. Before each depth the clock is
/// read, and the search stops if the budget is used up; a depth once begun
/// is searched to the end. Whatever the clock says, the result is that of
/// all the depths that were completed, and with a budget of zero none is.
/// It holds a move exactly where a depth was completed and there is a legal
/// move, and the move is the one that the deepest completed search chose.
pub fn find_best_move_within(position: &Position, max_depth: u32, time_limit: Duration) -> (search:
    TimedSearch)
    ensures
        search.progress@.len() <= max_depth,
        search.timed_out <==> search.progress@.len() < max_depth,
        search.result@ == outcome(position@, search.progress@.len()),
        search.result.best_move is Some <==> search.progress@.len() >= 1 && legal_moves_of(
            position@,
        ).len() > 0,
        search.progress@.len() >= 1 ==> decided_at(
            search.result@,
            position@,
            search.progress@.len(),
        ),
        forall|k: int|
            0 <= k < search.progress@.len() ==> (#[trigger] search.progress@[k])@ == outcome(
                position@,
                (k + 1) as nat,
            ),
        nanos_of(time_limit) == 0 ==> search.progress@.len() == 0,
{
    let limit: u128 = as_nanos(&time_limit);
    let start: Instant = now();
    let mut result: SearchResult = SearchResult::new();
    let mut progress: Vec<SearchResult> = Vec::new();
    let mut timed_out: bool = false;
    while result.depth_reached < max_depth
        invariant_except_break
            !timed_out,
        invariant
            limit == nanos_of(time_limit),
            result.depth_reached <= max_depth,
            progress@.len() == result.depth_reached,
            result@ == outcome(position@, result.depth_reached as nat),
            result.best_move is Some <==> result.depth_reached >= 1 && legal_moves_of(
                position@,
            ).len() > 0,
            result.depth_reached >= 1 ==> decided_at(
                result@,
                position@,
                result.depth_reached as nat,
            ),
            forall|k: int|
                0 <= k < progress@.len() ==> (#[trigger] progress@[k])@ == outcome(
                    position@,
                    (k + 1) as nat,
                ),
            limit == 0 ==> progress@.len() == 0,
        ensures
            timed_out <==> result.depth_reached < max_depth,
        decreases max_depth - result.depth_reached,
    {
        let elapsed: Duration = elapsed_since(&start);
        proof {
            lemma_outcome_counts_depths(position@, result.depth_reached as nat);
        }
        match deepen_once(position, result, as_nanos(&elapsed), limit) {
            Some(deeper) => {
                result = deeper;
                progress.push(deeper);
                proof {
                    lemma_deepest_depth_decides(position@, result.depth_reached as nat);
                }
            },
            None => {
                timed_out = true;
                break ;
            },
        }
    }
    TimedSearch { result, progress, timed_out }
}

/// Finds the best move of a position by iterative deepening to at most
/// `max_depth` plies within `time_limit`. Returns the move of the deepest
/// search that was completed, or nothing if there is no legal move or no
/// time for even the first depth.
pub fn find_best_move_iteratively(position: &Position, max_depth: u32, time_limit: Duration) -> (best:
    Option<chess::ChessMove>)
    ensures
        exists|depths: nat|
            depths <= max_depth && best == (#[trigger] outcome(position@, depths)).best_move,
        nanos_of(time_limit) == 0 ==> best is None,
        legal_moves_of(position@).len() == 0 ==> best is None,
{
    let search: TimedSearch = find_best_move_within(position, max_depth, time_limit);
    proof {
        let depths: nat = search.progress@.len();
        assert(search.result.best_move == outcome(position@, depths).best_move);
        if legal_moves_of(position@).len() == 0 {
            lemma_no_moves_nothing_found(position@, depths);
        }
    }
    search.result.best_move
}

} // verus!
