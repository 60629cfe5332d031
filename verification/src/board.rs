use vstd::prelude::*;

verus! {

/// Traversal sense on the 16-slot ring. `CW` steps from slot `i` to `i + 1`
/// (wrapping from 15 back to 0); `CCW` steps from `i` to `i - 1` (wrapping
/// from 0 up to 15). The same successor function is used by both players on
/// their own board half, and it is fixed for a whole game.
#[derive(Copy, Clone, PartialEq, Eq, Structural, Debug)]
pub enum Direction {
    CW,
    CCW,
}

/// Win-rule variant. `Normal` requires the loser to have no slot with two or
/// more stones; `Easy` additionally treats an empty front row (slots 8..16,
/// every count exactly zero) as a loss.
#[derive(Copy, Clone, PartialEq, Eq, Structural, Debug)]
pub enum Mode {
    Normal,
    Easy,
}

/// Which of the two players a turn belongs to.
#[derive(Copy, Clone, PartialEq, Eq, Structural, Debug)]
pub enum PlayerPosition {
    FIRST,
    SECOND,
}

/// Successor of `index` on the 16-slot ring, in the given direction.
pub open spec fn next_index_spec(direction: Direction, index: int) -> int {
    match direction {
        Direction::CW => if index == 15 {
            0
        } else {
            index + 1
        },
        Direction::CCW => if index == 0 {
            15
        } else {
            index - 1
        },
    }
}

/// The opponent's front-row slot directly opposite front-row slot `index`.
pub open spec fn mirror_index(index: int) -> int {
    (15 - index) + 8
}

/// Total number of stones on a board half.
pub open spec fn sum_board(board: Seq<u8>) -> int
    decreases board.len(),
{
    if board.len() == 0 {
        0
    } else {
        sum_board(board.drop_last()) + board.last()
    }
}

/// Every slot holds fewer than two stones, so no move can start.
pub open spec fn all_slots_below_two(board: Seq<u8>) -> bool {
    forall|i: int| 0 <= i < 16 ==> board[i] < 2
}

/// Every front-row slot (8..16) is exactly empty.
pub open spec fn front_row_empty(board: Seq<u8>) -> bool {
    forall|i: int| 8 <= i < 16 ==> board[i] == 0
}

/// Loss condition on one board half. Under `Normal`, a player has lost when
/// no slot holds two or more stones (no legal move exists). Under `Easy`, a
/// player has additionally lost when the front row is entirely empty; a
/// front-row slot holding exactly one stone does not count as empty.
pub open spec fn spec_has_lost(mode: Mode, board: Seq<u8>) -> bool {
    all_slots_below_two(board) || (mode is Easy && front_row_empty(board))
}

/// Some slot can legally start a move (it holds at least two stones).
pub open spec fn has_legal_start(board: Seq<u8>) -> bool {
    exists|i: int| 0 <= i < 16 && board[i] >= 2
}

/// Stepping clockwise and then counter-clockwise (or the other way round)
/// from any ring index returns to that index: the two directions are inverse
/// successor functions.
pub proof fn lemma_direction_inverse(index: int)
    requires
        0 <= index < 16,
    ensures
        next_index_spec(Direction::CCW, next_index_spec(Direction::CW, index)) == index,
        next_index_spec(Direction::CW, next_index_spec(Direction::CCW, index)) == index,
{
}

/// The mirror of every front-row index is itself a front-row index, and
/// mirroring twice returns to the index mirrored first.
pub proof fn lemma_mirror_involution(index: int)
    requires
        8 <= index < 16,
    ensures
        8 <= mirror_index(index) < 16,
        mirror_index(mirror_index(index)) == index,
{
}

pub proof fn lemma_sum_nonneg(board: Seq<u8>)
    ensures
        sum_board(board) >= 0,
    decreases board.len(),
{
    if board.len() > 0 {
        lemma_sum_nonneg(board.drop_last());
    }
}

/// A single slot never holds more stones than the whole half does.
pub proof fn lemma_sum_elem(board: Seq<u8>, i: int)
    requires
        0 <= i < board.len(),
    ensures
        board[i] <= sum_board(board),
    decreases board.len(),
{
    lemma_sum_nonneg(board.drop_last());
    if i < board.len() - 1 {
        lemma_sum_elem(board.drop_last(), i);
    }
}

/// Replacing one slot changes the total by exactly the difference.
pub proof fn lemma_sum_update(board: Seq<u8>, i: int, v: u8)
    requires
        0 <= i < board.len(),
    ensures
        sum_board(board.update(i, v)) == sum_board(board) - board[i] + v,
    decreases board.len(),
{
    let updated = board.update(i, v);
    if i == board.len() - 1 {
        assert(updated.drop_last() =~= board.drop_last());
    } else {
        assert(updated.drop_last() =~= board.drop_last().update(i, v));
        lemma_sum_update(board.drop_last(), i, v);
    }
}

pub proof fn lemma_sum_const(board: Seq<u8>, v: u8)
    requires
        forall|i: int| 0 <= i < board.len() ==> board[i] == v,
    ensures
        sum_board(board) == board.len() * v,
    decreases board.len(),
{
    if board.len() > 0 {
        lemma_sum_const(board.drop_last(), v);
        assert(board.len() * v == (board.len() - 1) * v + v) by (nonlinear_arith);
    }
}

/// One player's side of the game: a display name, a numeric tag used to
/// attribute results, and the sixteen slot counts of the owned board half.
/// Slots 0..8 are the back row; slots 8..16 are the capture-eligible front
/// row.
#[derive(Clone, Debug)]
pub struct Player {
    pub name: String,
    pub tag: usize,
    pub board_half: Vec<u8>,
}

impl Player {
    /// The board half holds exactly sixteen slots.
    pub open spec fn wf(&self) -> bool {
        self.board_half@.len() == 16
    }

    /// A freshly seeded player: every slot starts with two stones.
    pub fn new(name: &str, tag: usize) -> (player: Self)
        ensures
            player.wf(),
            player.name@ == name@,
            player.tag == tag,
            forall|i: int| 0 <= i < 16 ==> player.board_half@[i] == 2,
            sum_board(player.board_half@) == 32,
    {
        let board_half: Vec<u8> = vec![2u8; 16];
        proof {
            assert(forall|i: int| 0 <= i < 16 ==> board_half@[i] == 2);
            lemma_sum_const(board_half@, 2);
        }
        Player { name: name.to_owned(), tag, board_half }
    }

    pub fn name(&self) -> (r: &str)
        ensures
            r@ == self.name@,
    {
        self.name.as_str()
    }

    pub fn tag(&self) -> (r: usize)
        ensures
            r == self.tag,
    {
        self.tag
    }

    pub fn read_board(&self) -> (r: &Vec<u8>)
        ensures
            r@ == self.board_half@,
    {
        &self.board_half
    }

    /// A move may start from `index` only if that slot holds at least two
    /// stones.
    pub fn is_valid_index(&self, index: usize) -> (r: bool)
        requires
            self.wf(),
            index < 16,
        ensures
            r == (self.board_half@[index as int] >= 2),
    {
        self.board_half[index] > 1
    }

    /// Whether this player has lost under the given mode.
    pub fn has_lost(&self, mode: Mode) -> (r: bool)
        requires
            self.wf(),
        ensures
            r == spec_has_lost(mode, self.board_half@),
    {
        board_has_lost(mode, &self.board_half)
    }
}

impl Direction {
    /// Executable ring successor; agrees with `next_index_spec`.
    pub fn next_index(&self, index: usize) -> (r: usize)
        requires
            index < 16,
        ensures
            r < 16,
            r as int == next_index_spec(*self, index as int),
    {
        match self {
            Direction::CW => {
                if index == 15 {
                    0
                } else {
                    index + 1
                }
            },
            Direction::CCW => {
                if index == 0 {
                    15
                } else {
                    index - 1
                }
            },
        }
    }
}

/// An independent copy of a board half, for dry runs against hypothetical
/// moves that must not touch live game state.
pub(crate) fn clone_board(board: &Vec<u8>) -> (r: Vec<u8>)
    ensures
        r@ == board@,
{
    let r = board.clone();
    proof {
        assert(r@ =~= board@);
    }
    r
}

/// Executable loss check on a raw board half; agrees with `spec_has_lost`.
pub(crate) fn board_has_lost(mode: Mode, board: &Vec<u8>) -> (r: bool)
    requires
        board@.len() == 16,
    ensures
        r == spec_has_lost(mode, board@),
{
    let mut all_low = true;
    let mut i: usize = 0;
    while i < 16
        invariant
            i <= 16,
            board@.len() == 16,
            all_low == (forall|j: int| 0 <= j < i ==> board@[j] < 2),
        decreases 16 - i,
    {
        if board[i] >= 2 {
            all_low = false;
        }
        i += 1;
    }
    if all_low {
        return true;
    }
    if mode == Mode::Easy {
        let mut empty = true;
        let mut k: usize = 8;
        while k < 16
            invariant
                8 <= k <= 16,
                board@.len() == 16,
                empty == (forall|j: int| 8 <= j < k ==> board@[j] == 0),
            decreases 16 - k,
        {
            if board[k] != 0 {
                empty = false;
            }
            k += 1;
        }
        return empty;
    }
    false
}

} // verus!
