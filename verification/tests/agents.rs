use bao::{Agent, Direction, Game, MaximizeAgent, Mode, Player, RandomAgent};

fn player_with_board(name: &str, tag: usize, board: Vec<u8>) -> Player {
    Player { name: name.to_string(), tag, board_half: board }
}

#[test]
fn maximize_picks_the_largest_capture() {
    // Starting at slot 13 captures four stones; the only other legal start,
    // slot 6, captures nothing. The greedy agent must return 13.
    let mover = player_with_board(
        "Mover",
        0,
        vec![0, 0, 0, 0, 0, 0, 4, 0, 0, 0, 0, 0, 0, 2, 0, 1],
    );
    let opponent = player_with_board(
        "Opponent",
        1,
        vec![2, 0, 0, 0, 0, 0, 0, 0, 4, 2, 0, 0, 0, 0, 0, 0],
    );
    let game = Game::new(Direction::CW, Mode::Easy, mover, opponent);

    assert_eq!(MaximizeAgent::best_index(&game), 13);
    let mut agent = MaximizeAgent::default();
    assert_eq!(agent.pick_index(&game), 13);
}

#[test]
fn maximize_prefers_winning_over_bigger_capture() {
    // Slot 1 captures three stones without winning; slot 5 captures only two
    // but reduces the opponent to a losing position. The winning move must
    // outrank the larger capture.
    let mover = player_with_board(
        "Mover",
        0,
        vec![0, 2, 0, 1, 0, 3, 0, 0, 5, 1, 0, 0, 4, 1, 0, 0],
    );
    let opponent = player_with_board(
        "Opponent",
        1,
        vec![2, 1, 0, 0, 0, 1, 0, 0, 0, 0, 0, 0, 0, 0, 1, 0],
    );
    let game = Game::new(Direction::CW, Mode::Normal, mover, opponent);

    assert_eq!(MaximizeAgent::best_index(&game), 5);
}

#[test]
fn maximize_breaks_ties_toward_the_lowest_index() {
    // Both legal starts capture nothing; the first viable index wins the
    // tie.
    let mover = player_with_board(
        "Mover",
        0,
        vec![0, 0, 0, 2, 0, 0, 0, 0, 0, 0, 2, 0, 0, 0, 0, 4],
    );
    let opponent = player_with_board("Opponent", 1, vec![2; 16]);
    let game = Game::new(Direction::CW, Mode::Normal, mover, opponent);

    assert_eq!(MaximizeAgent::best_index(&game), 3);
}

#[test]
fn random_agent_returns_a_legal_index() {
    let game = Game::new(
        Direction::CW,
        Mode::Easy,
        Player::new("Player 1", 0),
        Player::new("Player 2", 1),
    );
    let mut agent = RandomAgent::default();
    for _ in 0..32 {
        let index = agent.pick_index(&game);
        assert!(index < 16);
        assert!(game.get_current_player().read_board()[index] >= 2);
    }
}

#[test]
fn random_agent_finds_the_only_legal_index() {
    // With a single viable slot the sampler, or its deterministic fallback,
    // must land on it.
    let mover = player_with_board(
        "Mover",
        0,
        vec![0, 0, 0, 0, 0, 0, 0, 0, 0, 0, 0, 2, 1, 1, 0, 0],
    );
    let opponent = player_with_board("Opponent", 1, vec![2; 16]);
    let game = Game::new(Direction::CW, Mode::Normal, mover, opponent);
    let mut agent = RandomAgent::default();
    for _ in 0..8 {
        assert_eq!(agent.pick_index(&game), 11);
    }
}
