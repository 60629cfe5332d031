use vstd::prelude::*;

use crate::board::clone_board;
use crate::board::lemma_sum_nonneg;
use crate::board::lemma_sum_update;
use crate::engine::lemma_run_facts;
use crate::engine::sow_core;
use crate::engine::start_state;
use crate::engine::MoveResult;
use crate::engine::STEP_CAP;
use crate::game::Agent;
use crate::game::Game;

verus! {

/// Rank given to a simulated move that wins outright. Captured totals fit in
/// one byte, so this value outranks every possible capture count: a winning
/// move always beats a merely large steal.
pub const WIN_PRIORITY: u16 = 256;

/// The rank of starting the active player's move at `index`: the simulated
/// capture total, with a winning simulation forced to `WIN_PRIORITY`.
/// Meaningful when `game.viable_at(index)` holds.
pub open spec fn candidate_priority(game: Game, index: int) -> int {
    if game.end_at(index).won {
        WIN_PRIORITY as int
    } else {
        game.end_at(index).stolen
    }
}

/// A greedy lookahead strategy: it dry-runs every viable starting slot
/// against private copies of both boards and picks the slot with the
/// strictly greatest rank, a winning simulation outranking every capture
/// count and ties going to the lowest index.
pub struct MaximizeAgent;

impl Default for MaximizeAgent {
    fn default() -> (r: Self)
        ensures
            r == (MaximizeAgent {}),
    {
        MaximizeAgent {}
    }
}

impl MaximizeAgent {
    /// The viable starting slot of greatest rank; every viable slot ranks no
    /// higher, and every viable slot below the returned one ranks strictly
    /// lower, so the lowest index wins ties.
    #[verifier::loop_isolation(false)]
    pub fn best_index(game: &Game) -> (index: usize)
        requires
            game.wf(),
            game.playable(),
        ensures
            game.viable_at(index as int),
            forall|j: int| #[trigger]
                game.viable_at(j) ==> candidate_priority(*game, j) <= candidate_priority(
                    *game,
                    index as int,
                ),
            forall|j: int| #[trigger]
                game.viable_at(j) && j < index as int ==> candidate_priority(*game, j)
                    < candidate_priority(*game, index as int),
    {
        let direction = game.direction;
        let mode = game.mode;
        let mover = game.get_current_player();
        let opponent = game.get_opponent_player();

        let mut best: usize = 0;
        let mut best_priority: u16 = 0;
        let mut found = false;

        let mut i: usize = 0;
        while i < 16
            invariant
                i <= 16,
                !found ==> forall|j: int| 0 <= j < i ==> !game.viable_at(j),
                found ==> game.viable_at(best as int) && (best as int) < i && candidate_priority(
                    *game,
                    best as int,
                ) == best_priority as int,
                found ==> forall|j: int|
                    0 <= j < i && #[trigger] game.viable_at(j) ==> candidate_priority(*game, j)
                        <= best_priority as int,
                found ==> forall|j: int|
                    0 <= j < best as int && #[trigger] game.viable_at(j) ==> candidate_priority(
                        *game,
                        j,
                    ) < best_priority as int,
            decreases 16 - i,
        {
            if mover.is_valid_index(i) {
                let mut mover_board = clone_board(&mover.board_half);
                let mut opponent_board = clone_board(&opponent.board_half);
                match sow_core(direction, mode, i, &mut mover_board, &mut opponent_board) {
                    Some(simulated) => {
                        proof {
                            assert(game.viable_at(i as int));
                            lemma_sum_update(mover.board_half@, i as int, 0);
                            lemma_run_facts(
                                direction,
                                mode,
                                start_state(mover.board_half@, opponent.board_half@, i as int),
                                STEP_CAP as nat,
                            );
                            lemma_sum_nonneg(game.end_at(i as int).opp);
                            lemma_sum_nonneg(opponent.board_half@);
                            lemma_sum_nonneg(mover.board_half@);
                            assert(0 <= game.end_at(i as int).stolen <= 255);
                        }
                        let priority: u16 = match simulated {
                            MoveResult::Won(_) => WIN_PRIORITY,
                            MoveResult::Lost(stones) => stones as u16,
                            MoveResult::Ongoing(stones) => stones as u16,
                        };
                        proof {
                            assert(priority as int == candidate_priority(*game, i as int));
                        }
                        if !found || priority > best_priority {
                            found = true;
                            best = i;
                            best_priority = priority;
                        }
                    },
                    None => {
                        proof {
                            assert(!game.viable_at(i as int));
                        }
                    },
                }
            } else {
                proof {
                    assert(!game.viable_at(i as int));
                }
            }
            i += 1;
        }
        proof {
            if !found {
                let w = choose|j: int| game.viable_at(j);
                assert(game.viable_at(w));
                assert(false);
            }
        }
        best
    }
}

impl Agent for MaximizeAgent {
    fn pick_index(&mut self, game: &Game) -> (index: usize) {
        Self::best_index(game)
    }
}

} // verus!
