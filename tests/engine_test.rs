use three_mens_morris::board::Player;
use three_mens_morris::error::GameError;
use three_mens_morris::move_def::Move;
use three_mens_morris::referee::Referee;
use three_mens_morris::state::State;
use three_mens_morris::stupid_bot::StupidBot;

fn mv(text: &str) -> Move {
    Move::string_to_move(&String::from(text)).unwrap()
}

fn count(s: &State, v: u8) -> u8 {
    s.board.iter().flatten().filter(|&&x| x == v).count() as u8
}

fn placed_out() -> State {
    // One on a1 b2 c1, Two on b1 a3 c3; nothing left to place; One to move.
    let mut s = State::new();
    for text in ["a1", "b1", "b2", "a3", "c1", "c3"] {
        assert_eq!(s.apply(&mv(text)), Ok(()));
    }
    s
}

#[test]
fn first_placement_on_a1() {
    let mut s = State::new();
    assert_eq!(s.apply(&mv("a1")), Ok(()));
    assert_eq!(s.player_one_remaining, 2);
    assert_eq!(s.player_two_remaining, 3);
    assert_eq!(s.board[0][0], 1);
    assert_eq!(s.turn, Player::Two);
    assert_eq!(s.moves, vec![mv("a1")]);
}

#[test]
fn top_row_of_the_first_player_wins() {
    let s = State {
        turn: Player::Two,
        player_one_remaining: 0,
        player_two_remaining: 0,
        board: [[1, 1, 1], [0, 0, 0], [0, 0, 0]],
        moves: Vec::new(),
    };
    assert_eq!(s.check_win(), Some(Player::One));
    let same_board_other_turn = State { turn: Player::One, ..s };
    assert_eq!(same_board_other_turn.check_win(), Some(Player::One));
}

#[test]
fn win_detection_on_columns_diagonals_and_none() {
    let mut s = State::new();
    assert_eq!(s.check_win(), None);
    s.board = [[0, 2, 0], [0, 2, 0], [0, 2, 0]];
    assert_eq!(s.check_win(), Some(Player::Two));
    s.board = [[0, 0, 1], [0, 1, 0], [1, 0, 0]];
    assert_eq!(s.check_win(), Some(Player::One));
    s.board = [[1, 2, 1], [2, 1, 2], [2, 1, 2]];
    assert_eq!(s.check_win(), None);
}

#[test]
fn both_lines_complete_names_the_player_who_moved_last() {
    let mut s = State::new();
    s.board = [[1, 1, 1], [2, 2, 2], [0, 0, 0]];
    s.turn = Player::One;
    assert_eq!(s.check_win(), Some(Player::Two));
    s.turn = Player::Two;
    assert_eq!(s.check_win(), Some(Player::One));
}

#[test]
fn win_is_reported_again_after_play_continues() {
    let mut s = State::new();
    for text in ["a1", "a2", "b1", "b2", "c1"] {
        assert_eq!(s.apply(&mv(text)), Ok(()));
    }
    assert_eq!(s.check_win(), Some(Player::One));
    assert_eq!(s.apply(&mv("c3")), Ok(()));
    assert_eq!(s.check_win(), Some(Player::One));
}

#[test]
fn corner_to_centre_is_a_drawn_line() {
    assert!(Referee::is_valid_move(0, 0, 1, 1));
    let mut s = placed_out();
    s.board = [[1, 2, 0], [0, 0, 2], [1, 1, 2]];
    assert_eq!(s.apply(&mv("a1b2")), Ok(()));
    assert_eq!(s.board[1][1], 1);
    assert_eq!(s.board[0][0], 0);
}

#[test]
fn undrawn_diagonal_is_refused() {
    let mut s = State {
        turn: Player::One,
        player_one_remaining: 0,
        player_two_remaining: 0,
        board: [[0, 1, 2], [0, 2, 1], [1, 2, 0]],
        moves: Vec::new(),
    };
    let before = s.clone();
    assert_eq!(
        s.apply(&mv("b1a2")),
        Err(GameError::NotAdjacent { row: 0, col: 1, new_row: 1, new_col: 0 })
    );
    assert_eq!(s.board, before.board);
    assert_eq!(s.turn, before.turn);
    assert!(s.moves.is_empty());
    assert_eq!(
        s.apply(&mv("b1a1")),
        Ok(())
    );
}

#[test]
fn relocating_with_a_piece_still_to_place() {
    let mut s = State::new();
    for text in ["a1", "b1", "c1", "a3", "b3"] {
        assert_eq!(s.apply(&mv(text)), Ok(()));
    }
    assert_eq!(s.player_two_remaining, 1);
    assert_eq!(s.turn, Player::Two);
    assert_eq!(s.apply(&mv("b1b2")), Err(GameError::PiecesStillUnplaced { player: Player::Two }));
    assert_eq!(s.player_two_remaining, 1);
    assert_eq!(s.turn, Player::Two);
    assert_eq!(s.moves.len(), 5);
}

#[test]
fn threats_of_two_in_the_top_row() {
    let board = [[1, 1, 0], [0, 0, 0], [0, 0, 0]];
    let threats = Referee::get_checkmate_positions(&board);
    assert_eq!(threats, vec![(Player::One, 0, 2)]);
}

#[test]
fn threats_for_both_players_and_a_shared_cell() {
    let board = [[1, 1, 0], [2, 0, 1], [2, 0, 1]];
    assert_eq!(
        Referee::get_checkmate_positions(&board),
        vec![(Player::One, 0, 2), (Player::One, 1, 1)]
    );
    let board = [[2, 0, 0], [2, 1, 0], [0, 1, 0]];
    assert_eq!(
        Referee::get_checkmate_positions(&board),
        vec![(Player::One, 0, 1), (Player::Two, 2, 0)]
    );
    assert_eq!(Referee::get_checkmate_positions(&[[0; 3]; 3]), vec![]);
    assert_eq!(Referee::get_checkmate_positions(&[[1, 2, 1], [1, 2, 2], [2, 1, 1]]), vec![]);
}

#[test]
fn adjacency_is_symmetric_on_every_pair() {
    for a in 0..9 {
        for b in 0..9 {
            let (r1, c1, r2, c2) = (a / 3, a % 3, b / 3, b % 3);
            assert_eq!(Referee::is_valid_move(r1, c1, r2, c2), Referee::is_valid_move(r2, c2, r1, c1));
        }
    }
}

#[test]
fn adjacency_table() {
    assert!(!Referee::is_valid_move(1, 1, 1, 1));
    assert!(!Referee::is_valid_move(0, 0, 0, 2));
    assert!(!Referee::is_valid_move(0, 1, 1, 2));
    assert!(!Referee::is_valid_move(1, 2, 2, 1));
    assert!(!Referee::is_valid_move(2, 1, 1, 0));
    assert!(!Referee::is_valid_move(2, 2, 3, 3));
    assert!(Referee::is_valid_move(0, 2, 1, 1));
    assert!(Referee::is_valid_move(1, 0, 0, 0));
    assert_eq!(
        Referee::neighbors(1, 1),
        vec![(0, 0), (0, 1), (0, 2), (1, 0), (1, 2), (2, 0), (2, 1), (2, 2)]
    );
    assert_eq!(Referee::neighbors(0, 1), vec![(0, 0), (0, 2), (1, 1)]);
    assert_eq!(Referee::neighbors(2, 2), vec![(1, 1), (1, 2), (2, 1)]);
    assert_eq!(Referee::neighbors(3, 0), vec![]);
}

#[test]
fn every_placement_and_relocation_text_round_trips() {
    let cols = ['a', 'b', 'c', 'A', 'B', 'C'];
    for &c in &cols {
        for r in 1..=3u8 {
            let m = Move { col: c, row: r, new_col: None, new_row: None };
            assert_eq!(Move::string_to_move(&m.print()), Ok(m));
            for &nc in &cols {
                for nr in 1..=3u8 {
                    let m = Move { col: c, row: r, new_col: Some(nc), new_row: Some(nr) };
                    assert_eq!(Move::string_to_move(&m.print()), Ok(m));
                }
            }
        }
    }
}

#[test]
fn move_text_and_parse_errors() {
    assert_eq!(mv("c2").print(), "c2");
    assert_eq!(mv("a1c3").print(), "a1c3");
    assert_eq!(Move::new().print(), "a0");
    assert_eq!(
        Move { col: 'b', row: 200, new_col: Some('c'), new_row: Some(17) }.print(),
        "b200c17"
    );
    assert_eq!(mv("B3"), Move { col: 'B', row: 3, new_col: None, new_row: None });
    for bad in ["", "a", "a4", "d1", "a1b", "a1b2c", "1a", "a1 b2", "a1d2", "é1", "aa"] {
        assert_eq!(
            Move::string_to_move(&String::from(bad)),
            Err(GameError::MalformedCoordinate),
            "{}",
            bad
        );
    }
}

#[test]
fn coordinate_conversions() {
    let m = mv("b3");
    assert_eq!(m.as_coord(), Ok((2, 1, None, None)));
    assert_eq!(m.new_as_coord(), (2, 1));
    assert_eq!(m.move_as_coord(), (3, 3));
    assert!(m.is_new_move());
    let m = mv("C1a2");
    assert_eq!(m.as_coord(), Ok((0, 2, Some(1), Some(0))));
    assert_eq!(m.move_as_coord(), (1, 0));
    assert!(!m.is_new_move());
    assert_eq!(Move::new().as_coord(), Err(()));
    assert_eq!(Move::new().new_as_coord(), (3, 3));
    assert_eq!(Move::coord_to_new_move(&2, &0), Ok(mv("a3")));
    assert_eq!(Move::coord_to_new_move(&3, &0), Err(()));
    assert_eq!(Move::coord_to_move(&0, &0, &1, &2), Ok(mv("a1c2")));
    assert_eq!(Move::coord_to_move(&0, &0, &1, &5), Err(()));
    assert_eq!(Move::place_new_piece(&1, &1), mv("b2"));
    assert_eq!(Move::move_piece(&2, &2, &1, &1), mv("c3b2"));
}

#[test]
fn each_rule_breach_has_its_error() {
    let mut s = State::new();
    assert_eq!(s.apply(&mv("b2")), Ok(()));
    assert_eq!(s.apply(&mv("b2")), Err(GameError::CellOccupied { row: 1, col: 1 }));
    assert_eq!(s.apply(&mv("a1b1")), Err(GameError::NoPieceToMove { row: 0, col: 0 }));
    assert_eq!(
        s.apply(&mv("b2a1")),
        Err(GameError::NotOwnedByPlayer { row: 1, col: 1, player: Player::Two })
    );
    assert_eq!(s.apply(&Move::new()), Err(GameError::MalformedCoordinate));
    assert_eq!(
        s.apply(&Move { col: 'a', row: 1, new_col: Some('b'), new_row: None }),
        Err(GameError::MalformedCoordinate)
    );

    let mut s = placed_out();
    assert_eq!(s.apply(&mv("a2")), Err(GameError::NoPiecesRemaining { player: Player::One }));
    assert_eq!(s.apply(&mv("a1b1")), Err(GameError::CellOccupied { row: 0, col: 1 }));
    assert_eq!(s.apply(&mv("a1a2")), Ok(()));
    assert_eq!(s.turn, Player::Two);
}

#[test]
fn failed_apply_changes_nothing() {
    let mut s = placed_out();
    let before = s.clone();
    for text in ["a2", "a1b1", "b1b3", "a2a1", "a1c2"] {
        assert!(s.apply(&mv(text)).is_err());
        assert_eq!(s.board, before.board);
        assert_eq!(s.turn, before.turn);
        assert_eq!(s.player_one_remaining, before.player_one_remaining);
        assert_eq!(s.player_two_remaining, before.player_two_remaining);
        assert_eq!(s.moves, before.moves);
    }
}

#[test]
fn turn_alternates_and_pieces_are_conserved_over_a_random_game() {
    let bot = StupidBot::new(String::from("bot"));
    for _ in 0..20 {
        let mut s = State::new();
        for _ in 0..40 {
            let p = s.turn;
            let m = match bot.choose_move(&s, p) {
                Ok(m) => m,
                Err(e) => {
                    assert_eq!(e, GameError::NoLegalMove);
                    break;
                }
            };
            assert_eq!(s.apply(&m), Ok(()));
            assert_eq!(s.turn, p.other());
            assert_eq!(count(&s, 1) + s.player_one_remaining, 3);
            assert_eq!(count(&s, 2) + s.player_two_remaining, 3);
        }
    }
}

#[test]
fn chosen_placement_and_slide_are_legal() {
    let bot = StupidBot::new(String::from("bot"));
    let s = State::new();
    for _ in 0..30 {
        let m = bot.choose_move(&s, Player::One).unwrap();
        assert!(m.is_new_move());
        let mut t = s.clone();
        assert_eq!(t.apply(&m), Ok(()));
    }
    let s = State {
        turn: Player::One,
        player_one_remaining: 0,
        player_two_remaining: 0,
        board: [[1, 2, 0], [2, 2, 0], [1, 1, 0]],
        moves: Vec::new(),
    };
    for _ in 0..30 {
        assert_eq!(bot.choose_move(&s, Player::One), Ok(mv("b3c3")));
    }
}

#[test]
fn no_legal_move_when_blocked_or_full() {
    let bot = StupidBot::new(String::from("bot"));
    let stuck = State {
        turn: Player::One,
        player_one_remaining: 0,
        player_two_remaining: 0,
        board: [[1, 1, 2], [1, 2, 0], [2, 0, 0]],
        moves: Vec::new(),
    };
    assert_eq!(bot.choose_move(&stuck, Player::One), Err(GameError::NoLegalMove));
    let mut free = stuck.clone();
    free.board[0][2] = 0;
    assert_eq!(bot.choose_move(&free, Player::One).map(|m| m.print()), Ok(String::from("b1c1")));
    let full = State {
        turn: Player::One,
        player_one_remaining: 1,
        player_two_remaining: 0,
        board: [[1, 2, 1], [2, 1, 2], [2, 1, 2]],
        moves: Vec::new(),
    };
    assert_eq!(bot.choose_move(&full, Player::One), Err(GameError::NoLegalMove));
}

#[test]
fn compact_state_record() {
    let mut s = State::new();
    assert_eq!(s.get_state(), "1,3,3,0,0,0,0,0,0,0,0,0");
    assert_eq!(s.apply(&mv("b1")), Ok(()));
    assert_eq!(s.apply(&mv("c3")), Ok(()));
    assert_eq!(s.apply(&mv("a2")), Ok(()));
    assert_eq!(s.get_state(), "2,1,2,0,1,0,1,0,0,0,0,2");
    assert_eq!(s.remaining(Player::One), 1);
    assert_eq!(s.remaining(Player::Two), 2);
}
