//! Which man stands on which square, and the material balance of that.

use vstd::prelude::*;
use crate::pieces::{Man, Side, MAX_PIECE_VALUE};

verus! {

/// The number of squares of the board.
pub const SQUARES: usize = 64;

/// What one square contributes to the balance: nothing if it is empty, the
/// worth of the man on it otherwise.
pub open spec fn square_worth(content: Option<Man>) -> int {
    match content {
        Some(man) => man.worth(),
        None => 0,
    }
}

/// The material balance of a row of squares: the sum of what each square is
/// worth to White.
pub open spec fn material(squares: Seq<Option<Man>>) -> int
    decreases squares.len(),
{
    if squares.len() == 0 {
        0
    } else {
        material(squares.drop_last()) + square_worth(squares.last())
    }
}

/// Whether a square holds a man of the given side.
pub open spec fn held_by(content: Option<Man>, side: Side) -> bool {
    content matches Some(man) && man.side == side
}

/// How many squares of the row hold a man of the given side.
pub open spec fn men_of(squares: Seq<Option<Man>>, side: Side) -> nat
    decreases squares.len(),
{
    if squares.len() == 0 {
        0
    } else if held_by(squares.last(), side) {
        men_of(squares.drop_last(), side) + 1
    } else {
        men_of(squares.drop_last(), side)
    }
}

/// The content of a square after the two sides trade colours.
pub open spec fn recoloured_square(content: Option<Man>) -> Option<Man> {
    match content {
        Some(man) => Some(man.recoloured()),
        None => None,
    }
}

/// The same arrangement with the colours of all men swapped.
pub open spec fn recoloured(squares: Seq<Option<Man>>) -> Seq<Option<Man>> {
    Seq::new(squares.len(), |i: int| recoloured_square(squares[i]))
}

/// The balance of a row of squares is bounded by the value of a queen on
/// every square.
pub proof fn lemma_material_bounds(squares: Seq<Option<Man>>)
    ensures
        -MAX_PIECE_VALUE * squares.len() <= material(squares) <= MAX_PIECE_VALUE * squares.len(),
    decreases squares.len(),
{
    if squares.len() > 0 {
        lemma_material_bounds(squares.drop_last());
    }
}

/// Swapping the colours of all men negates the material balance.
pub proof fn lemma_recoloured_negates_material(squares: Seq<Option<Man>>)
    ensures
        material(recoloured(squares)) == -material(squares),
    decreases squares.len(),
{
    if squares.len() > 0 {
        lemma_recoloured_negates_material(squares.drop_last());
        assert(recoloured(squares).drop_last() =~= recoloured(squares.drop_last()));
    }
}

/// A snapshot of the board: for each of the 64 squares, the man on it.
///
/// Squares are numbered rank by rank from White's side: 0 is a1, 7 is h1,
/// 63 is h8.
pub struct Placement {
    squares: Vec<Option<Man>>,
}

impl View for Placement {
    type V = Seq<Option<Man>>;

    closed spec fn view(&self) -> Seq<Option<Man>> {
        self.squares@
    }
}

impl Placement {
    /// A placement always has one entry per square.
    #[verifier::type_invariant]
    pub open spec fn wf(&self) -> bool {
        self@.len() == SQUARES
    }

    /// The board with no man on it.
    pub fn empty() -> (placement: Placement)
        ensures
            placement@ == Seq::new(SQUARES as nat, |i: int| None::<Man>),
    {
        let mut squares: Vec<Option<Man>> = Vec::new();
        let mut i: usize = 0;
        while i < SQUARES
            invariant
                i <= SQUARES,
                squares@ == Seq::new(i as nat, |k: int| None::<Man>),
            decreases SQUARES - i,
        {
            squares.push(None);
            i += 1;
        }
        Placement { squares }
    }

    /// The content of one square.
    pub fn get(&self, square: u8) -> (content: Option<Man>)
        requires
            square < SQUARES,
        ensures
            self@.len() == SQUARES,
            content == self@[square as int],
    {
        proof {
            use_type_invariant(self);
        }
        self.squares[square as usize]
    }

    /// The placement with `content` on one square in place of what was there.
    pub fn put(self, square: u8, content: Option<Man>) -> (placement: Placement)
        requires
            square < SQUARES,
        ensures
            self@.len() == SQUARES,
            placement@ == self@.update(square as int, content),
    {
        proof {
            use_type_invariant(&self);
        }
        let mut squares: Vec<Option<Man>> = self.squares;
        squares.set(square as usize, content);
        Placement { squares }
    }

    /// The material balance: the value of White's men less the value of
    /// Black's.
    pub fn material(&self) -> (score: i32)
        ensures
            score == material(self@),
    {
        proof {
            use_type_invariant(self);
        }
        let mut score: i32 = 0;
        let mut i: usize = 0;
        while i < SQUARES
            invariant
                i <= SQUARES,
                self.squares@.len() == SQUARES,
                score == material(self.squares@.take(i as int)),
                -900 * i <= score <= 900 * i,
            decreases SQUARES - i,
        {
            let value: i32 = match self.squares[i] {
                Some(man) => man.signed_value(),
                None => 0,
            };
            proof {
                let next = self.squares@.take(i + 1);
                assert(next.drop_last() =~= self.squares@.take(i as int));
                assert(next.last() == self.squares@[i as int]);
            }
            score = score + value;
            i += 1;
        }
        assert(self.squares@.take(SQUARES as int) =~= self.squares@);
        score
    }

    /// How many men the given side has on the board.
    pub fn men(&self, side: Side) -> (count: usize)
        ensures
            count == men_of(self@, side),
            count <= SQUARES,
    {
        proof {
            use_type_invariant(self);
        }
        let mut count: usize = 0;
        let mut i: usize = 0;
        while i < SQUARES
            invariant
                i <= SQUARES,
                self.squares@.len() == SQUARES,
                count == men_of(self.squares@.take(i as int), side),
                count <= i,
            decreases SQUARES - i,
        {
            proof {
                let next = self.squares@.take(i + 1);
                assert(next.drop_last() =~= self.squares@.take(i as int));
                assert(next.last() == self.squares@[i as int]);
            }
            match self.squares[i] {
                Some(man) => {
                    if man.side == side {
                        count += 1;
                    }
                },
                None => {},
            }
            i += 1;
        }
        assert(self.squares@.take(SQUARES as int) =~= self.squares@);
        count
    }

    /// The same placement with the colours of all men swapped.
    pub fn mirrored(&self) -> (placement: Placement)
        ensures
            placement@ == recoloured(self@),
    {
        proof {
            use_type_invariant(self);
        }
        let mut squares: Vec<Option<Man>> = Vec::new();
        let mut i: usize = 0;
        while i < SQUARES
            invariant
                i <= SQUARES,
                self.squares@.len() == SQUARES,
                squares@ == recoloured(self.squares@).take(i as int),
            decreases SQUARES - i,
        {
            let content: Option<Man> = match self.squares[i] {
                Some(man) => Some(man.swap_side()),
                None => None,
            };
            squares.push(content);
            i += 1;
        }
        assert(recoloured(self.squares@).take(SQUARES as int) =~= recoloured(self.squares@));
        Placement { squares }
    }
}

} // verus!
