//! A two-player sowing-and-capture board game on a 16-slot ring, with chained
//! relay captures, mode-dependent loss detection, a turn sequencer, and a
//! small family of decision agents that drive moves through one capability
//! interface.

mod board;
mod engine;
mod game;
mod maximize_agent;
mod random_agent;

pub use board::all_slots_below_two;
pub use board::front_row_empty;
pub use board::has_legal_start;
pub use board::lemma_direction_inverse;
pub use board::lemma_mirror_involution;
pub use board::mirror_index;
pub use board::next_index_spec;
pub use board::spec_has_lost;
pub use board::sum_board;
pub use board::Direction;
pub use board::Mode;
pub use board::Player;
pub use board::PlayerPosition;

pub use engine::lemma_move_conserves_stones;
pub use engine::lemma_run_facts;
pub use engine::move_end;
pub use engine::move_ends;
pub use engine::settle;
pub use engine::sow_run;
pub use engine::sow_step;
pub use engine::start_state;
pub use engine::MoveResult;
pub use engine::SowEnd;
pub use engine::SowState;
pub use engine::SowStep;
pub use engine::STEP_CAP;

pub use game::lemma_turn_alternation;
pub use game::Agent;
pub use game::Game;
pub use game::GameResult;
pub use game::TURN_CAP;

pub use maximize_agent::candidate_priority;
pub use maximize_agent::MaximizeAgent;
pub use maximize_agent::WIN_PRIORITY;

pub use random_agent::RandomAgent;
pub use random_agent::SAMPLE_LIMIT;
