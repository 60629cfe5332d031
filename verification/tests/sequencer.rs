use bao::{Agent, Direction, Game, MaximizeAgent, Mode, Player, PlayerPosition, TURN_CAP};

fn player_with_board(name: &str, tag: usize, board: Vec<u8>) -> Player {
    Player { name: name.to_string(), tag, board_half: board }
}

/// Replays a fixed list of starting slots, one per turn.
struct ScriptAgent {
    moves: Vec<usize>,
    at: usize,
}

impl Agent for ScriptAgent {
    fn pick_index(&mut self, _game: &Game) -> usize {
        let index = self.moves[self.at];
        self.at += 1;
        index
    }
}

#[test]
fn fresh_player_is_fully_seeded() {
    let player = Player::new("Player 1", 0);
    assert_eq!(player.name(), "Player 1");
    assert_eq!(player.tag(), 0);
    assert_eq!(player.read_board(), &vec![2; 16]);
}

#[test]
fn fresh_game_starts_on_turn_one_with_player_one() {
    let game = Game::new(
        Direction::CW,
        Mode::Easy,
        Player::new("Player 1", 0),
        Player::new("Player 2", 1),
    );
    assert_eq!(game.turn_count, 1);
    assert_eq!(game.turn(), PlayerPosition::FIRST);
    assert_eq!(game.current_player_position(), PlayerPosition::FIRST);
    assert_eq!(game.get_current_player().tag(), 0);
    assert_eq!(game.get_opponent_player().tag(), 1);
}

#[test]
fn turn_alternates_with_each_completed_move() {
    let mut game = Game::new(
        Direction::CW,
        Mode::Easy,
        Player::new("Player 1", 0),
        Player::new("Player 2", 1),
    );
    assert_eq!(game.turn(), PlayerPosition::FIRST);
    game.next_turn();
    assert_eq!(game.turn_count, 2);
    assert_eq!(game.turn(), PlayerPosition::SECOND);
    assert_eq!(game.get_current_player().tag(), 1);
    game.next_turn();
    assert_eq!(game.turn_count, 3);
    assert_eq!(game.turn(), PlayerPosition::FIRST);
}

#[test]
fn direction_successors_are_inverse() {
    for index in 0..16usize {
        let forward = Direction::CW.next_index(index);
        assert_eq!(Direction::CCW.next_index(forward), index);
        let backward = Direction::CCW.next_index(index);
        assert_eq!(Direction::CW.next_index(backward), index);
    }
    assert_eq!(Direction::CW.next_index(15), 0);
    assert_eq!(Direction::CCW.next_index(0), 15);
}

#[test]
fn empty_front_row_loses_only_under_easy() {
    // Back row full, front row empty: lost under Easy, not under Normal.
    let player = player_with_board(
        "P",
        0,
        vec![2, 2, 2, 2, 2, 2, 2, 2, 0, 0, 0, 0, 0, 0, 0, 0],
    );
    assert!(player.has_lost(Mode::Easy));
    assert!(!player.has_lost(Mode::Normal));
}

#[test]
fn single_stone_front_slot_does_not_count_as_empty() {
    // A front-row slot holding exactly one stone keeps the Easy loss
    // condition from firing, though no slot can start a move.
    let player = player_with_board(
        "P",
        0,
        vec![2, 2, 2, 2, 2, 2, 2, 2, 1, 0, 0, 0, 0, 0, 0, 0],
    );
    assert!(!player.has_lost(Mode::Easy));
    assert!(!player.has_lost(Mode::Normal));
}

#[test]
fn all_slots_below_two_lose_in_both_modes() {
    let player = player_with_board(
        "P",
        0,
        vec![1, 1, 0, 1, 0, 0, 1, 1, 1, 0, 1, 0, 0, 1, 1, 1],
    );
    assert!(player.has_lost(Mode::Easy));
    assert!(player.has_lost(Mode::Normal));
}

#[test]
fn validity_needs_at_least_two_stones() {
    let player = player_with_board(
        "P",
        0,
        vec![0, 1, 2, 3, 0, 0, 0, 0, 0, 0, 0, 0, 0, 0, 0, 0],
    );
    assert!(!player.is_valid_index(0));
    assert!(!player.is_valid_index(1));
    assert!(player.is_valid_index(2));
    assert!(player.is_valid_index(3));
}

#[test]
fn move_possible_and_game_over_read_the_active_player() {
    let stuck = player_with_board("P1", 0, vec![1; 16]);
    let ready = Player::new("P2", 1);
    let game = Game::new(Direction::CW, Mode::Normal, stuck, ready);
    assert!(!game.move_possible());
    assert!(game.game_over());

    let (winner, position) = game.get_winner();
    assert_eq!(winner.tag(), 1);
    assert_eq!(position, PlayerPosition::SECOND);
}

#[test]
fn mutable_player_pair_follows_turn_parity() {
    let mut game = Game::new(
        Direction::CW,
        Mode::Easy,
        Player::new("Player 1", 0),
        Player::new("Player 2", 1),
    );
    {
        let (mover, opponent) = game.get_mut_current_and_opponent_player();
        assert_eq!(mover.tag(), 0);
        assert_eq!(opponent.tag(), 1);
        mover.board_half[0] = 7;
    }
    assert_eq!(game.player1.read_board()[0], 7);
    game.next_turn();
    {
        let (mover, opponent) = game.get_mut_current_and_opponent_player();
        assert_eq!(mover.tag(), 1);
        assert_eq!(opponent.tag(), 0);
    }
}

#[test]
fn can_move_from_accepts_only_loaded_slots() {
    let mover = player_with_board(
        "Mover",
        0,
        vec![2, 1, 0, 0, 0, 0, 0, 0, 0, 0, 0, 0, 0, 0, 0, 3],
    );
    let opponent = Player::new("Opponent", 1);
    let game = Game::new(Direction::CW, Mode::Normal, mover, opponent);
    assert!(game.can_move_from(0));
    assert!(!game.can_move_from(1));
    assert!(!game.can_move_from(2));
    assert!(game.can_move_from(15));
}

#[test]
fn scripted_win_produces_result_on_turn_one() {
    // One scripted move relays from slot 15 and sweeps the opponent's only
    // stones, so player one wins on the opening turn.
    let mover = player_with_board(
        "Mover",
        0,
        vec![0, 0, 0, 0, 0, 0, 0, 0, 0, 0, 0, 0, 0, 2, 0, 1],
    );
    let opponent = player_with_board(
        "Opponent",
        1,
        vec![0, 0, 0, 0, 0, 0, 0, 2, 3, 0, 0, 0, 0, 0, 0, 0],
    );
    let game = Game::new(Direction::CW, Mode::Normal, mover, opponent);
    let mut script1 = ScriptAgent { moves: vec![13], at: 0 };
    let mut script2 = ScriptAgent { moves: vec![], at: 0 };

    let result = game.play(&mut script1, &mut script2).expect("game should resolve");

    assert_eq!(result.winner.tag(), 0);
    assert_eq!(result.loser.tag(), 1);
    assert_eq!(result.turn_count, 1);
    assert_eq!(result.loser.read_board(), &vec![0; 16]);
}

#[test]
fn replaying_a_script_gives_identical_results() {
    // The same sequence of chosen indices against freshly seeded boards
    // yields bit-identical boards and the same outcome sequence, every time.
    let script = [
        (true, 0usize),
        (false, 3),
        (true, 0),
        (false, 4),
        (true, 2),
        (false, 0),
        (true, 7),
        (false, 4),
    ];
    let run = || {
        let mut player1 = Player::new("Player 1", 0);
        let mut player2 = Player::new("Player 2", 1);
        let mut log = Vec::new();
        for &(first_moves, index) in script.iter() {
            let result = if first_moves {
                Game::steal_dry_run(index, Direction::CW, Mode::Normal, &mut player1, &mut player2)
            } else {
                Game::steal_dry_run(index, Direction::CW, Mode::Normal, &mut player2, &mut player1)
            };
            log.push((result, player1.read_board().clone(), player2.read_board().clone()));
        }
        log
    };

    let first = run();
    let second = run();
    assert_eq!(first, second);
    let (_, last_board1, last_board2) = first.last().unwrap().clone();
    assert_eq!(last_board1, vec![1, 1, 0, 2, 1, 2, 1, 1, 5, 1, 2, 7, 7, 0, 0, 2]);
    assert_eq!(last_board2, vec![1, 2, 1, 2, 1, 3, 2, 1, 2, 1, 0, 5, 5, 1, 1, 3]);
}

#[test]
fn play_reports_an_unplayable_position() {
    // The active player holds no slot with two stones, so no move can start
    // and the sequencer gives the game up without consulting an agent.
    let stuck = player_with_board("P1", 0, vec![1; 16]);
    let ready = Player::new("P2", 1);
    let game = Game::new(Direction::CW, Mode::Normal, stuck, ready);
    let mut agent1 = MaximizeAgent::default();
    let mut agent2 = MaximizeAgent::default();
    assert!(game.play(&mut agent1, &mut agent2).is_none());
}

#[test]
fn play_reports_an_exhausted_turn_budget() {
    // A game that has already reached the turn budget is given up before any
    // agent is consulted, whatever the boards hold.
    let game = Game {
        direction: Direction::CW,
        mode: Mode::Easy,
        turn_count: TURN_CAP,
        player1: Player::new("P1", 0),
        player2: Player::new("P2", 1),
    };
    let mut agent1 = MaximizeAgent::default();
    let mut agent2 = MaximizeAgent::default();
    assert!(game.play(&mut agent1, &mut agent2).is_none());
}

#[test]
fn maximize_self_play_is_deterministic() {
    // Two greedy agents play the whole game; replaying from the same seeding
    // reproduces the same winner, length, and final boards.
    let run = || {
        let game = Game::new(
            Direction::CW,
            Mode::Easy,
            Player::new("Player 1", 0),
            Player::new("Player 2", 1),
        );
        let mut agent1 = MaximizeAgent::default();
        let mut agent2 = MaximizeAgent::default();
        game.play(&mut agent1, &mut agent2).expect("greedy self-play should resolve")
    };

    let first = run();
    let second = run();
    assert_eq!(first.winner.tag(), 0);
    assert_eq!(first.winner.tag(), second.winner.tag());
    assert_eq!(first.turn_count, second.turn_count);
    assert_eq!(first.winner.read_board(), second.winner.read_board());
    assert_eq!(first.loser.read_board(), second.loser.read_board());
}
