use vstd::prelude::*;

use crate::board::board_has_lost;
use crate::board::lemma_sum_elem;
use crate::board::lemma_sum_nonneg;
use crate::board::lemma_sum_update;
use crate::board::mirror_index;
use crate::board::next_index_spec;
use crate::board::spec_has_lost;
use crate::board::sum_board;
use crate::board::Direction;
use crate::board::Mode;

verus! {

/// Outcome of one resolved move, each variant carrying the total number of
/// stones captured from the opponent during that move. `Ongoing`: the game
/// continues. `Lost`: the mover ended the move in a losing position. `Won`:
/// a capture left the opponent in a losing position, ending the move at once.
#[derive(Copy, Clone, PartialEq, Eq, Structural, Debug)]
pub enum MoveResult {
    Ongoing(u8),
    Lost(u8),
    Won(u8),
}

/// Upper bound on the number of sowing steps a single move is allowed to
/// take. Relay captures re-sow swept stones, and on rare boards the relay
/// chain never settles; every engine entry point therefore resolves a move
/// only when it ends within this many steps. Real games settle in a few
/// hundred steps at most.
pub const STEP_CAP: u64 = 1_000_000;

/// Mid-move sowing state: the slot that just received a stone, the stones
/// remaining in hand, the stones captured so far, and both board halves.
pub struct SowState {
    pub idx: int,
    pub hand: int,
    pub stolen: int,
    pub mover: Seq<u8>,
    pub opp: Seq<u8>,
}

/// Final state of a resolved move: both board halves, the capture total, and
/// whether the move ended by winning (opponent lost mid-move) or left the
/// mover in a losing position.
pub struct SowEnd {
    pub mover: Seq<u8>,
    pub opp: Seq<u8>,
    pub stolen: int,
    pub won: bool,
    pub lost: bool,
}

impl SowEnd {
    /// The `MoveResult` value this end state is reported as.
    pub open spec fn to_result(self) -> MoveResult {
        if self.won {
            MoveResult::Won(self.stolen as u8)
        } else if self.lost {
            MoveResult::Lost(self.stolen as u8)
        } else {
            MoveResult::Ongoing(self.stolen as u8)
        }
    }
}

/// Result of one sowing step: either the move goes on, or a capture just
/// reduced the opponent to a losing position and the move ends at once.
pub enum SowStep {
    Advance(SowState),
    Victory(SowEnd),
}

/// One step of move resolution, taken with at least one stone in hand: drop
/// a stone into the next slot along `direction`; if it was the last stone in
/// hand and its slot now holds two or more stones, relay by lifting that
/// slot, and, when the slot lies in the front row, capture the opponent's
/// mirrored slot (under `Normal` also its paired back-row slot) into the
/// hand. A capture that leaves the opponent in a losing position ends the
/// move immediately as a win.
pub open spec fn sow_step(direction: Direction, mode: Mode, s: SowState) -> SowStep {
    let i = next_index_spec(direction, s.idx);
    let sown = s.mover.update(i, (s.mover[i] + 1) as u8);
    let h = s.hand - 1;
    if h == 0 && sown[i] >= 2 {
        let lift = sown[i] as int;
        let lifted = sown.update(i, 0);
        if 8 <= i < 16 {
            let oi = mirror_index(i);
            let steal = if mode is Easy {
                s.opp[oi] as int
            } else {
                s.opp[oi] as int + s.opp[15 - oi] as int
            };
            let swept = if mode is Easy {
                s.opp.update(oi, 0)
            } else {
                s.opp.update(oi, 0).update(15 - oi, 0)
            };
            let stolen = s.stolen + steal;
            if spec_has_lost(mode, swept) {
                SowStep::Victory(
                    SowEnd { mover: lifted, opp: swept, stolen, won: true, lost: false },
                )
            } else {
                SowStep::Advance(
                    SowState { idx: i, hand: lift + steal, stolen, mover: lifted, opp: swept },
                )
            }
        } else {
            SowStep::Advance(
                SowState { idx: i, hand: lift, stolen: s.stolen, mover: lifted, opp: s.opp },
            )
        }
    } else {
        SowStep::Advance(SowState { idx: i, hand: h, stolen: s.stolen, mover: sown, opp: s.opp })
    }
}

/// End state of a move whose hand has emptied without a relay: the boards
/// stand as they are, and the mover has lost exactly when the loss condition
/// now holds on their own half.
pub open spec fn settle(mode: Mode, s: SowState) -> SowEnd {
    SowEnd {
        mover: s.mover,
        opp: s.opp,
        stolen: s.stolen,
        won: false,
        lost: spec_has_lost(mode, s.mover),
    }
}

/// Iterated move resolution: step until the hand empties or a capture wins,
/// for at most `fuel` steps. `None` means the move did not settle within
/// `fuel` steps.
pub open spec fn sow_run(direction: Direction, mode: Mode, s: SowState, fuel: nat) -> Option<SowEnd>
    decreases fuel,
{
    if s.hand <= 0 {
        Some(settle(mode, s))
    } else if fuel == 0 {
        None
    } else {
        match sow_step(direction, mode, s) {
            SowStep::Victory(e) => Some(e),
            SowStep::Advance(s2) => sow_run(direction, mode, s2, (fuel - 1) as nat),
        }
    }
}

/// The state a move starts from: all stones of the starting slot are lifted
/// into the hand and that slot is zeroed.
pub open spec fn start_state(mover: Seq<u8>, opp: Seq<u8>, start: int) -> SowState {
    SowState {
        idx: start,
        hand: mover[start] as int,
        stolen: 0,
        mover: mover.update(start, 0),
        opp,
    }
}

/// The move starting at `start` settles within the engine's step bound.
pub open spec fn move_ends(
    direction: Direction,
    mode: Mode,
    mover: Seq<u8>,
    opp: Seq<u8>,
    start: int,
) -> bool {
    sow_run(direction, mode, start_state(mover, opp, start), STEP_CAP as nat) is Some
}

/// The unique end state of the move starting at `start`, meaningful when
/// `move_ends` holds.
pub open spec fn move_end(
    direction: Direction,
    mode: Mode,
    mover: Seq<u8>,
    opp: Seq<u8>,
    start: int,
) -> SowEnd {
    sow_run(direction, mode, start_state(mover, opp, start), STEP_CAP as nat)->0
}

/// Facts that hold of every settled run: board sizes are preserved; stones
/// captured so far plus stones still on the opponent's half is invariant (a
/// capture only moves stones from the opponent into the hand); when the move
/// does not end in a win, the combined stones of both halves and the hand
/// are conserved, and the reported loss flag agrees with the loss condition
/// on the mover's final half; a win leaves the opponent in a losing
/// position; and a move that neither wins nor starts from a lost opponent
/// leaves the opponent not lost.
pub proof fn lemma_run_facts(direction: Direction, mode: Mode, s: SowState, fuel: nat)
    requires
        sow_run(direction, mode, s, fuel) is Some,
        s.mover.len() == 16,
        s.opp.len() == 16,
        s.hand >= 0,
        0 <= s.idx < 16,
        sum_board(s.mover) + sum_board(s.opp) + s.hand <= 255,
    ensures
        ({
            let e = sow_run(direction, mode, s, fuel)->0;
            &&& e.mover.len() == 16
            &&& e.opp.len() == 16
            &&& e.stolen >= s.stolen
            &&& e.stolen + sum_board(e.opp) == s.stolen + sum_board(s.opp)
            &&& !e.won ==> sum_board(e.mover) + sum_board(e.opp) == sum_board(s.mover)
                + sum_board(s.opp) + s.hand
            &&& e.won ==> sum_board(e.mover) + sum_board(e.opp) <= sum_board(s.mover)
                + sum_board(s.opp) + s.hand
            &&& e.won ==> spec_has_lost(mode, e.opp)
            &&& !e.won ==> e.lost == spec_has_lost(mode, e.mover)
            &&& !e.won && !spec_has_lost(mode, s.opp) ==> !spec_has_lost(mode, e.opp)
        }),
    decreases fuel,
{
    if s.hand <= 0 {
        // settles in place
    } else {
        let i = next_index_spec(direction, s.idx);
        let sown = s.mover.update(i, (s.mover[i] + 1) as u8);
        assert(0 <= i < 16);
        lemma_sum_elem(s.mover, i);
        lemma_sum_nonneg(s.mover);
        lemma_sum_nonneg(s.opp);
        assert(s.mover[i] + 1 <= 255);
        lemma_sum_update(s.mover, i, (s.mover[i] + 1) as u8);
        match sow_step(direction, mode, s) {
            SowStep::Victory(e) => {
                let lifted = sown.update(i, 0);
                lemma_sum_update(sown, i, 0);
                let oi = mirror_index(i);
                lemma_sum_update(s.opp, oi, 0);
                if !(mode is Easy) {
                    lemma_sum_update(s.opp.update(oi, 0), 15 - oi, 0);
                }
            },
            SowStep::Advance(s2) => {
                if s.hand - 1 == 0 && sown[i] >= 2 {
                    lemma_sum_update(sown, i, 0);
                    if 8 <= i < 16 {
                        let oi = mirror_index(i);
                        lemma_sum_update(s.opp, oi, 0);
                        if !(mode is Easy) {
                            lemma_sum_update(s.opp.update(oi, 0), 15 - oi, 0);
                        }
                    }
                }
                lemma_run_facts(direction, mode, s2, (fuel - 1) as nat);
            },
        }
    }
}

/// Stones are only relocated, never created: a legal move that settles
/// without winning leaves the combined stone count of the two board halves
/// exactly as it was. A winning move ends with the stones still in hand out
/// of play, so the combined count can only have decreased.
pub proof fn lemma_move_conserves_stones(
    direction: Direction,
    mode: Mode,
    mover: Seq<u8>,
    opp: Seq<u8>,
    start: int,
)
    requires
        mover.len() == 16,
        opp.len() == 16,
        0 <= start < 16,
        mover[start] >= 2,
        sum_board(mover) + sum_board(opp) <= 255,
        move_ends(direction, mode, mover, opp, start),
    ensures
        ({
            let e = move_end(direction, mode, mover, opp, start);
            &&& !e.won ==> sum_board(e.mover) + sum_board(e.opp) == sum_board(mover)
                + sum_board(opp)
            &&& e.won ==> sum_board(e.mover) + sum_board(e.opp) <= sum_board(mover)
                + sum_board(opp)
        }),
{
    lemma_sum_update(mover, start, 0);
    lemma_run_facts(direction, mode, start_state(mover, opp, start), STEP_CAP as nat);
}

/// Two stones of one board half together never exceed the half's total.
proof fn lemma_sum_two_elems(board: Seq<u8>, i: int, j: int)
    requires
        0 <= i < board.len(),
        0 <= j < board.len(),
        i != j,
    ensures
        board[i] + board[j] <= sum_board(board),
{
    lemma_sum_update(board, i, 0);
    lemma_sum_elem(board.update(i, 0), j);
    lemma_sum_nonneg(board);
}

/// Executable move resolution over two raw board halves. Lifts the starting
/// slot and sows along `direction`, relaying and capturing as `sow_step`
/// describes, for at most `STEP_CAP` steps. Returns `None`, with the boards
/// left mid-move, exactly when the move does not settle within the bound;
/// otherwise returns the settled outcome with the boards in their final
/// state.
#[verifier::loop_isolation(false)]
pub(crate) fn sow_core(
    direction: Direction,
    mode: Mode,
    start: usize,
    mover: &mut Vec<u8>,
    opp: &mut Vec<u8>,
) -> (r: Option<MoveResult>)
    requires
        old(mover)@.len() == 16,
        old(opp)@.len() == 16,
        start < 16,
        old(mover)@[start as int] >= 2,
        sum_board(old(mover)@) + sum_board(old(opp)@) <= 255,
    ensures
        final(mover)@.len() == 16,
        final(opp)@.len() == 16,
        ({
            let outcome = sow_run(
                direction,
                mode,
                start_state(old(mover)@, old(opp)@, start as int),
                STEP_CAP as nat,
            );
            match r {
                Some(res) => {
                    &&& outcome is Some
                    &&& final(mover)@ == outcome->0.mover
                    &&& final(opp)@ == outcome->0.opp
                    &&& res == outcome->0.to_result()
                },
                None => outcome is None,
            }
        }),
{
    let ghost init = start_state(old(mover)@, old(opp)@, start as int);
    let ghost total = sum_board(old(mover)@) + sum_board(old(opp)@);
    let ghost opp_total = sum_board(old(opp)@);
    proof {
        lemma_sum_nonneg(old(mover)@);
        lemma_sum_nonneg(old(opp)@);
        lemma_sum_update(old(mover)@, start as int, 0);
        lemma_sum_elem(old(mover)@, start as int);
    }

    let mut index = start;
    let mut hand: u8 = mover[index];
    mover[index] = 0;
    let mut total_steal: u8 = 0;
    let mut fuel: u64 = STEP_CAP;
    let ghost mut st = init;

    while hand > 0
        invariant
            mover@.len() == 16,
            opp@.len() == 16,
            index < 16,
            st == (SowState {
                idx: index as int,
                hand: hand as int,
                stolen: total_steal as int,
                mover: mover@,
                opp: opp@,
            }),
            fuel <= STEP_CAP,
            sow_run(direction, mode, init, STEP_CAP as nat) == sow_run(
                direction,
                mode,
                st,
                fuel as nat,
            ),
            sum_board(mover@) + sum_board(opp@) + hand == total,
            total_steal + sum_board(opp@) == opp_total,
            0 <= opp_total <= 255,
            0 <= total <= 255,
        decreases fuel,
    {
        if fuel == 0 {
            return None;
        }
        let ghost pre = st;
        let ghost fuel0 = fuel;
        fuel = fuel - 1;

        index = direction.next_index(index);
        hand = hand - 1;
        let cur = mover[index];
        proof {
            lemma_sum_elem(mover@, index as int);
            lemma_sum_nonneg(opp@);
            lemma_sum_update(mover@, index as int, (cur + 1) as u8);
        }
        mover[index] = cur + 1;

        if hand == 0 && mover[index] >= 2 {
            hand = mover[index];
            proof {
                lemma_sum_elem(mover@, index as int);
                lemma_sum_update(mover@, index as int, 0);
            }
            mover[index] = 0;

            if index >= 8 {
                let opponent_index = (15 - index) + 8;
                let steal: u8;
                match mode {
                    Mode::Easy => {
                        steal = opp[opponent_index];
                        proof {
                            lemma_sum_update(opp@, opponent_index as int, 0);
                        }
                        opp[opponent_index] = 0;
                    },
                    Mode::Normal => {
                        let opponent_2nd_index = 15 - opponent_index;
                        let near = opp[opponent_index];
                        let far = opp[opponent_2nd_index];
                        proof {
                            lemma_sum_two_elems(opp@, opponent_index as int, opponent_2nd_index as int);
                            lemma_sum_update(opp@, opponent_index as int, 0);
                            lemma_sum_update(
                                opp@.update(opponent_index as int, 0),
                                opponent_2nd_index as int,
                                0,
                            );
                        }
                        steal = near + far;
                        opp[opponent_index] = 0;
                        opp[opponent_2nd_index] = 0;
                    },
                }
                proof {
                    lemma_sum_nonneg(opp@);
                    lemma_sum_nonneg(mover@);
                }
                total_steal = total_steal + steal;
                hand = hand + steal;

                if board_has_lost(mode, opp) {
                    proof {
                        let e = SowEnd {
                            mover: mover@,
                            opp: opp@,
                            stolen: total_steal as int,
                            won: true,
                            lost: false,
                        };
                        assert(sow_step(direction, mode, pre) == SowStep::Victory(e));
                        assert(sow_run(direction, mode, pre, fuel0 as nat) == Some(e));
                    }
                    return Some(MoveResult::Won(total_steal));
                }
            }
        }

        proof {
            st = SowState {
                idx: index as int,
                hand: hand as int,
                stolen: total_steal as int,
                mover: mover@,
                opp: opp@,
            };
            assert(sow_step(direction, mode, pre) == SowStep::Advance(st));
            assert(sow_run(direction, mode, pre, fuel0 as nat) == sow_run(
                direction,
                mode,
                st,
                fuel as nat,
            ));
        }
    }

    proof {
        assert(sow_run(direction, mode, st, fuel as nat) == Some(settle(mode, st)));
    }
    if board_has_lost(mode, mover) {
        Some(MoveResult::Lost(total_steal))
    } else {
        Some(MoveResult::Ongoing(total_steal))
    }
}

} // verus!
