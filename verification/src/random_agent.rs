use vstd::prelude::*;

use rand::Rng;

use crate::board::clone_board;
use crate::engine::sow_core;
use crate::game::Agent;
use crate::game::Game;
use vstd::pervasive::unreached;

verus! {

/// How many uniform samples the strategy draws before it falls back to a
/// deterministic scan; the fallback keeps the choice total even when the
/// sampler is persistently unlucky.
pub const SAMPLE_LIMIT: usize = 64;

/// A strategy that samples starting slots uniformly at random and plays the
/// first one that can legally start a settling move.
pub struct RandomAgent;

impl Default for RandomAgent {
    fn default() -> (r: Self)
        ensures
            r == (RandomAgent {}),
    {
        RandomAgent {}
    }
}

/// Relies on rand::Rng::gen_range over rand::thread_rng: the sampled value
/// lies in the given half-open range, here 0..16. Nothing more is assumed of
/// the sample.
#[verifier::external_body]
fn random_index_below_16() -> (r: usize)
    ensures
        r < 16,
{
    rand::thread_rng().gen_range(0..16)
}

impl Agent for RandomAgent {
    #[verifier::loop_isolation(false)]
    fn pick_index(&mut self, game: &Game) -> (index: usize) {
        let direction = game.direction;
        let mode = game.mode;
        let mover = game.get_current_player();
        let opponent = game.get_opponent_player();

        let mut tries: usize = 0;
        while tries < SAMPLE_LIMIT
            invariant
                tries <= SAMPLE_LIMIT,
            decreases SAMPLE_LIMIT - tries,
        {
            let candidate = random_index_below_16();
            if mover.is_valid_index(candidate) {
                let mut mover_board = clone_board(&mover.board_half);
                let mut opponent_board = clone_board(&opponent.board_half);
                match sow_core(direction, mode, candidate, &mut mover_board, &mut opponent_board) {
                    Some(_) => {
                        proof {
                            assert(game.viable_at(candidate as int));
                        }
                        return candidate;
                    },
                    None => {},
                }
            }
            tries += 1;
        }

        let mut i: usize = 0;
        while i < 16
            invariant
                i <= 16,
                forall|j: int| 0 <= j < i ==> !game.viable_at(j),
            decreases 16 - i,
        {
            if mover.is_valid_index(i) {
                let mut mover_board = clone_board(&mover.board_half);
                let mut opponent_board = clone_board(&opponent.board_half);
                match sow_core(direction, mode, i, &mut mover_board, &mut opponent_board) {
                    Some(_) => {
                        proof {
                            assert(game.viable_at(i as int));
                        }
                        return i;
                    },
                    None => {},
                }
            }
            i += 1;
        }
        proof {
            let w = choose|j: int| game.viable_at(j);
            assert(game.viable_at(w));
            assert(false);
        }
        unreached()
    }
}

} // verus!
