use vstd::prelude::*;

use crate::board::clone_board;
use crate::board::has_legal_start;
use crate::board::lemma_sum_update;
use crate::board::spec_has_lost;
use crate::board::sum_board;
use crate::board::Direction;
use crate::board::Mode;
use crate::board::Player;
use crate::board::PlayerPosition;
use crate::engine::lemma_run_facts;
use crate::engine::move_end;
use crate::engine::move_ends;
use crate::engine::sow_core;
use crate::engine::start_state;
use crate::engine::MoveResult;
use crate::engine::SowEnd;
use crate::engine::STEP_CAP;
use vstd::pervasive::unreached;

verus! {

/// Upper bound on the number of turns a game is allowed to run before the
/// sequencer abandons it as unresolved. Finished games take far fewer turns;
/// the bound exists because two agents could in principle shuttle stones
/// forever.
pub const TURN_CAP: usize = 1_000_000;

/// Terminal value of a finished game: the two players, moved out of the
/// game in their final state, and the turn count the game ended on.
pub struct GameResult {
    pub winner: Player,
    pub loser: Player,
    pub turn_count: usize,
}

/// The turn sequencer: a fixed direction and mode, a turn counter starting
/// at one, and exclusive ownership of both players. Player one is active on
/// odd turn counts, player two on even ones.
pub struct Game {
    pub direction: Direction,
    pub mode: Mode,
    pub turn_count: usize,
    pub player1: Player,
    pub player2: Player,
}

/// The capability interface every decision source implements: asked once per
/// turn, with the game already reflecting whose turn it is, it returns the
/// index of the slot the active player's move starts from. The returned slot
/// must be a legal, resolvable starting point; implementations validate or
/// retry internally before returning.
pub trait Agent {
    fn pick_index(&mut self, game: &Game) -> (index: usize)
        requires
            game.wf(),
            game.playable(),
        ensures
            game.viable_at(index as int),
    ;
}

impl Game {
    /// Both board halves hold sixteen slots, and the two halves together
    /// never carry more stones than one slot can count.
    pub open spec fn wf(&self) -> bool {
        &&& self.player1.wf()
        &&& self.player2.wf()
        &&& sum_board(self.player1.board_half@) + sum_board(self.player2.board_half@) <= 255
    }

    /// Player one is active exactly on odd turn counts.
    pub open spec fn first_is_active(&self) -> bool {
        self.turn_count % 2 == 1
    }

    pub open spec fn active_player(&self) -> Player {
        if self.first_is_active() {
            self.player1
        } else {
            self.player2
        }
    }

    pub open spec fn opponent_player(&self) -> Player {
        if self.first_is_active() {
            self.player2
        } else {
            self.player1
        }
    }

    /// `index` can start the active player's move: it is on the board, its
    /// slot holds at least two stones, and the move settles within the
    /// engine's step bound.
    pub open spec fn viable_at(&self, index: int) -> bool {
        &&& 0 <= index < 16
        &&& self.active_player().board_half@[index] >= 2
        &&& move_ends(
            self.direction,
            self.mode,
            self.active_player().board_half@,
            self.opponent_player().board_half@,
            index,
        )
    }

    /// The active player has at least one viable starting slot.
    pub open spec fn playable(&self) -> bool {
        exists|i: int| self.viable_at(i)
    }

    /// The settled end state of the active player's move from `index`,
    /// meaningful when `viable_at(index)` holds.
    pub open spec fn end_at(&self, index: int) -> SowEnd {
        move_end(
            self.direction,
            self.mode,
            self.active_player().board_half@,
            self.opponent_player().board_half@,
            index,
        )
    }

    /// A fresh game on turn one, so player one moves first.
    pub fn new(direction: Direction, mode: Mode, player1: Player, player2: Player) -> (game: Self)
        ensures
            game == (Game { direction, mode, turn_count: 1usize, player1, player2 }),
            game.first_is_active(),
    {
        Game { direction, mode, turn_count: 1, player1, player2 }
    }

    /// Whose turn it is, as a pure function of turn-count parity.
    pub fn turn(&self) -> (r: PlayerPosition)
        ensures
            r == (if self.first_is_active() {
                PlayerPosition::FIRST
            } else {
                PlayerPosition::SECOND
            }),
    {
        if self.turn_count % 2 == 1 {
            PlayerPosition::FIRST
        } else {
            PlayerPosition::SECOND
        }
    }

    /// Position of the active player; same parity rule as `turn`.
    pub fn current_player_position(&self) -> (r: PlayerPosition)
        ensures
            r == (if self.first_is_active() {
                PlayerPosition::FIRST
            } else {
                PlayerPosition::SECOND
            }),
    {
        self.turn()
    }

    /// Advance to the next turn; used once per completed move.
    pub fn next_turn(&mut self)
        requires
            old(self).turn_count < usize::MAX,
        ensures
            final(self).turn_count == old(self).turn_count + 1,
            final(self).direction == old(self).direction,
            final(self).mode == old(self).mode,
            final(self).player1 == old(self).player1,
            final(self).player2 == old(self).player2,
    {
        self.turn_count = self.turn_count + 1;
    }

    pub fn get_current_player(&self) -> (r: &Player)
        ensures
            *r == self.active_player(),
    {
        if self.turn_count % 2 == 1 {
            &self.player1
        } else {
            &self.player2
        }
    }

    pub fn get_opponent_player(&self) -> (r: &Player)
        ensures
            *r == self.opponent_player(),
    {
        if self.turn_count % 2 == 1 {
            &self.player2
        } else {
            &self.player1
        }
    }

    /// The active player and the opponent as two non-aliased mutable
    /// borrows, selected by turn parity; the engine takes the pair so that
    /// it never indexes one shared array by a player number.
    pub fn get_mut_current_and_opponent_player(&mut self) -> (r: (&mut Player, &mut Player))
        ensures
            *r.0 == old(self).active_player(),
            *r.1 == old(self).opponent_player(),
            final(self).direction == old(self).direction,
            final(self).mode == old(self).mode,
            final(self).turn_count == old(self).turn_count,
            old(self).first_is_active() ==> final(self).player1 == *final(r.0)
                && final(self).player2 == *final(r.1),
            !old(self).first_is_active() ==> final(self).player1 == *final(r.1)
                && final(self).player2 == *final(r.0),
    {
        if self.turn_count % 2 == 1 {
            (&mut self.player1, &mut self.player2)
        } else {
            (&mut self.player2, &mut self.player1)
        }
    }

    /// The active player has lost under the game's mode.
    pub fn game_over(&self) -> (r: bool)
        requires
            self.wf(),
        ensures
            r == spec_has_lost(self.mode, self.active_player().board_half@),
    {
        let mode = self.mode;
        self.get_current_player().has_lost(mode)
    }

    /// The active player holds some slot able to start a move.
    #[verifier::loop_isolation(false)]
    pub fn move_possible(&self) -> (r: bool)
        requires
            self.wf(),
        ensures
            r == has_legal_start(self.active_player().board_half@),
    {
        let mover = self.get_current_player();
        let mut i: usize = 0;
        while i < 16
            invariant
                i <= 16,
                forall|j: int| 0 <= j < i ==> mover.board_half@[j] < 2,
            decreases 16 - i,
        {
            if mover.is_valid_index(i) {
                return true;
            }
            i += 1;
        }
        false
    }

    /// Current standing: player two has won exactly when player one has
    /// lost; otherwise player one stands as winner.
    pub fn get_winner(&self) -> (r: (&Player, PlayerPosition))
        requires
            self.wf(),
        ensures
            spec_has_lost(self.mode, self.player1.board_half@) ==> *r.0 == self.player2 && r.1
                == PlayerPosition::SECOND,
            !spec_has_lost(self.mode, self.player1.board_half@) ==> *r.0 == self.player1 && r.1
                == PlayerPosition::FIRST,
    {
        if self.player1.has_lost(self.mode) {
            (&self.player2, PlayerPosition::SECOND)
        } else {
            (&self.player1, PlayerPosition::FIRST)
        }
    }

    /// Resolve one move from `index`: lift the starting slot and sow along
    /// `direction`, relaying and capturing as the rules say, on two
    /// explicitly passed, non-aliased players. Run against independent board
    /// copies this is a pure dry run; run on the live pair it applies the
    /// move. The outcome reports the stones captured; conservation and the
    /// loss-condition readings below hold of every settled move.
    pub fn steal_dry_run(
        index: usize,
        direction: Direction,
        mode: Mode,
        player: &mut Player,
        opponent: &mut Player,
    ) -> (r: MoveResult)
        requires
            old(player).wf(),
            old(opponent).wf(),
            index < 16,
            old(player).board_half@[index as int] >= 2,
            sum_board(old(player).board_half@) + sum_board(old(opponent).board_half@) <= 255,
            move_ends(
                direction,
                mode,
                old(player).board_half@,
                old(opponent).board_half@,
                index as int,
            ),
        ensures
            ({
                let e = move_end(
                    direction,
                    mode,
                    old(player).board_half@,
                    old(opponent).board_half@,
                    index as int,
                );
                &&& final(player).board_half@ == e.mover
                &&& final(opponent).board_half@ == e.opp
                &&& r == e.to_result()
            }),
            final(player).wf(),
            final(opponent).wf(),
            final(player).name == old(player).name,
            final(player).tag == old(player).tag,
            final(opponent).name == old(opponent).name,
            final(opponent).tag == old(opponent).tag,
            !(r is Won) ==> sum_board(final(player).board_half@) + sum_board(
                final(opponent).board_half@,
            ) == sum_board(old(player).board_half@) + sum_board(old(opponent).board_half@),
            sum_board(final(player).board_half@) + sum_board(final(opponent).board_half@)
                <= sum_board(old(player).board_half@) + sum_board(old(opponent).board_half@),
            r is Won ==> spec_has_lost(mode, final(opponent).board_half@),
            r is Lost ==> spec_has_lost(mode, final(player).board_half@),
            r is Ongoing ==> !spec_has_lost(mode, final(player).board_half@),
            !(r is Won) && !spec_has_lost(mode, old(opponent).board_half@) ==> !spec_has_lost(
                mode,
                final(opponent).board_half@,
            ),
    {
        proof {
            lemma_sum_update(old(player).board_half@, index as int, 0);
            lemma_run_facts(
                direction,
                mode,
                start_state(old(player).board_half@, old(opponent).board_half@, index as int),
                STEP_CAP as nat,
            );
        }
        let r = sow_core(direction, mode, index, &mut player.board_half, &mut opponent.board_half);
        match r {
            Some(res) => res,
            None => unreached(),
        }
    }

    /// Run one turn: ask the agent for a starting slot, then apply the move
    /// to the live player pair selected by turn parity. The turn counter is
    /// left for the sequencer to advance. The move applied is exactly the
    /// settled move from some slot the agent could legally pick.
    pub fn make_move<A: Agent>(&mut self, agent: &mut A) -> (r: MoveResult)
        requires
            old(self).wf(),
            old(self).playable(),
        ensures
            final(self).wf(),
            final(self).direction == old(self).direction,
            final(self).mode == old(self).mode,
            final(self).turn_count == old(self).turn_count,
            final(self).player1.name == old(self).player1.name,
            final(self).player1.tag == old(self).player1.tag,
            final(self).player2.name == old(self).player2.name,
            final(self).player2.tag == old(self).player2.tag,
            exists|i: int|
                #![auto]
                {
                    &&& old(self).viable_at(i)
                    &&& final(self).active_player().board_half@ == old(self).end_at(i).mover
                    &&& final(self).opponent_player().board_half@ == old(self).end_at(i).opp
                    &&& r == old(self).end_at(i).to_result()
                },
            !(r is Won) ==> sum_board(final(self).player1.board_half@) + sum_board(
                final(self).player2.board_half@,
            ) == sum_board(old(self).player1.board_half@) + sum_board(
                old(self).player2.board_half@,
            ),
            sum_board(final(self).player1.board_half@) + sum_board(final(self).player2.board_half@)
                <= sum_board(old(self).player1.board_half@) + sum_board(
                old(self).player2.board_half@,
            ),
            r is Won ==> spec_has_lost(old(self).mode, final(self).opponent_player().board_half@),
            r is Lost ==> spec_has_lost(old(self).mode, final(self).active_player().board_half@),
            r is Ongoing ==> !spec_has_lost(
                old(self).mode,
                final(self).active_player().board_half@,
            ),
            !(r is Won) && !spec_has_lost(old(self).mode, old(self).opponent_player().board_half@)
                ==> !spec_has_lost(old(self).mode, final(self).opponent_player().board_half@),
    {
        let index = agent.pick_index(self);
        let direction = self.direction;
        let mode = self.mode;
        let (mover, opponent) = self.get_mut_current_and_opponent_player();
        let r = Game::steal_dry_run(index, direction, mode, mover, opponent);
        proof {
            assert(old(self).viable_at(index as int));
        }
        r
    }

    /// Whether the active player's move may start at `index`: the slot holds
    /// at least two stones and the move settles within the engine's step
    /// bound. Callers that obtain an index from outside validate with this
    /// before handing it to the engine.
    pub fn can_move_from(&self, index: usize) -> (r: bool)
        requires
            self.wf(),
            index < 16,
        ensures
            r == self.viable_at(index as int),
    {
        let direction = self.direction;
        let mode = self.mode;
        let mover = self.get_current_player();
        let opponent = self.get_opponent_player();
        if !mover.is_valid_index(index) {
            return false;
        }
        let mut mover_board = clone_board(&mover.board_half);
        let mut opponent_board = clone_board(&opponent.board_half);
        match sow_core(direction, mode, index, &mut mover_board, &mut opponent_board) {
            Some(_) => true,
            None => false,
        }
    }

    /// First viable starting slot of the active player, scanning upward, or
    /// `None` when no slot can start a settling move.
    #[verifier::loop_isolation(false)]
    fn find_viable_index(&self) -> (r: Option<usize>)
        requires
            self.wf(),
        ensures
            match r {
                Some(i) => self.viable_at(i as int),
                None => !self.playable(),
            },
    {
        let mut i: usize = 0;
        while i < 16
            invariant
                i <= 16,
                forall|j: int| 0 <= j < i ==> !self.viable_at(j),
            decreases 16 - i,
        {
            if self.can_move_from(i) {
                return Some(i);
            }
            i += 1;
        }
        proof {
            assert(forall|j: int| !self.viable_at(j));
        }
        None
    }

    /// Play the game out: each turn, the active agent picks a slot and the
    /// move is applied; a `Won` outcome ends the game for the active player,
    /// a `Lost` outcome attributes the win to the opponent (a move that both
    /// captures the opponent out and leaves the mover's own half lost counts
    /// as the mover's win, since the capture ends the move first), and
    /// anything else advances the turn counter by exactly one. A position
    /// that leaves the active player no viable move, or a game that has
    /// already outlived the turn budget, yields `None` before any agent is
    /// consulted; a returned result ends within the budget, its loser is in
    /// a losing position, its winner and loser are the two players handed
    /// in, and no stones were created along the way.
    #[verifier::loop_isolation(false)]
    pub fn play<A1: Agent, A2: Agent>(self, agent1: &mut A1, agent2: &mut A2) -> (r: Option<
        GameResult,
    >)
        requires
            self.wf(),
        ensures
            !self.playable() || self.turn_count >= TURN_CAP ==> r is None,
            match r {
                Some(result) => {
                    &&& self.playable()
                    &&& spec_has_lost(self.mode, result.loser.board_half@)
                    &&& result.turn_count >= self.turn_count
                    &&& result.turn_count < TURN_CAP
                    &&& sum_board(result.winner.board_half@) + sum_board(result.loser.board_half@)
                        <= sum_board(self.player1.board_half@) + sum_board(
                        self.player2.board_half@,
                    )
                    &&& (result.winner.name == self.player1.name && result.winner.tag
                        == self.player1.tag && result.loser.name == self.player2.name
                        && result.loser.tag == self.player2.tag) || (result.winner.name
                        == self.player2.name && result.winner.tag == self.player2.tag
                        && result.loser.name == self.player1.name && result.loser.tag
                        == self.player1.tag)
                },
                None => true,
            },
    {
        if self.turn_count >= TURN_CAP {
            return None;
        }
        match self.find_viable_index() {
            Some(_) => {},
            None => {
                return None;
            },
        }
        let mut game = self;
        while game.turn_count < TURN_CAP
            invariant
                game.wf(),
                game.direction == self.direction,
                game.mode == self.mode,
                game.turn_count >= self.turn_count,
                game.player1.name == self.player1.name,
                game.player1.tag == self.player1.tag,
                game.player2.name == self.player2.name,
                game.player2.tag == self.player2.tag,
                sum_board(game.player1.board_half@) + sum_board(game.player2.board_half@)
                    <= sum_board(self.player1.board_half@) + sum_board(self.player2.board_half@),
            decreases TURN_CAP - game.turn_count,
        {
            match game.find_viable_index() {
                Some(_) => {},
                None => {
                    return None;
                },
            }
            let first_active = game.turn_count % 2 == 1;
            let move_result = if first_active {
                game.make_move(agent1)
            } else {
                game.make_move(agent2)
            };
            match move_result {
                MoveResult::Won(_) => {
                    let Game { player1, player2, turn_count, .. } = game;
                    let (winner, loser) = if first_active {
                        (player1, player2)
                    } else {
                        (player2, player1)
                    };
                    return Some(GameResult { winner, loser, turn_count });
                },
                MoveResult::Lost(_) => {
                    let Game { player1, player2, turn_count, .. } = game;
                    let (winner, loser) = if first_active {
                        (player2, player1)
                    } else {
                        (player1, player2)
                    };
                    return Some(GameResult { winner, loser, turn_count });
                },
                MoveResult::Ongoing(_) => {
                    game.next_turn();
                },
            }
        }
        None
    }
}

/// Turn parity: a game on turn count one has player one active, and one
/// completed move later — the count higher by exactly one — the other player
/// is active; the active side never repeats or skips.
pub proof fn lemma_turn_alternation(before: Game, after: Game)
    requires
        after.turn_count == before.turn_count + 1,
    ensures
        before.turn_count == 1 ==> before.first_is_active(),
        after.first_is_active() <==> !before.first_is_active(),
{
}

} // verus!
