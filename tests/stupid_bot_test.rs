use three_mens_morris::stupid_bot::StupidBot;
use three_mens_morris::types::{Move, OngoingGame};

const BOT_ID: &str = "036d2541-b81f-40f9-baf6-8cd8a1d589c9";

#[test]
fn test_place_random_new_piece_as_player_one() {
    let stupid_bot = StupidBot::new(String::from(BOT_ID));
    let mut state = OngoingGame {
        _id: String::from("f5715476-8808-498e-aa3e-d9c48487b602"),
        player_one: stupid_bot.get_id(),
        player_two: String::from("90663371-5330-45bd-90d2-41dd2496ab1e"),
        whose_turn: stupid_bot.get_id(),
        player_one_remaining: 3,
        player_two_remaining: 3,
        board: [[0; 3]; 3],
        moves: Vec::new(),
    };
    let _ = stupid_bot.place_random_new_piece(&mut state);

    assert_eq!(state.player_one_remaining, 2);
    assert!(!state.moves.is_empty());
    assert_ne!(state.board, [[0; 3]; 3]);
}

#[test]
fn test_place_random_new_piece_as_player_two() {
    let stupid_bot = StupidBot::new(String::from(BOT_ID));
    let mut state = OngoingGame {
        _id: String::from("f5715476-8808-498e-aa3e-d9c48487b602"),
        player_one: String::from("90663371-5330-45bd-90d2-41dd2496ab1e"),
        player_two: stupid_bot.get_id(),
        whose_turn: stupid_bot.get_id(),
        player_one_remaining: 2,
        player_two_remaining: 3,
        board: [[0; 3]; 3],
        moves: Vec::new(),
    };
    state.moves.push(Move { col: 'c', row: 3, new_col: None, new_row: None });
    state.board[1][1] = 1;
    let expected_board_b4 = state.board.clone();
    let _ = stupid_bot.place_random_new_piece(&mut state);

    println!("{}", state.player_two_remaining);
    println!("{}", state.moves.len());
    println!("{}", state.flatten_board());
    assert_eq!(state.player_two_remaining, 2);
    assert_eq!(state.moves.len(), 2);
    assert_ne!(state.board, expected_board_b4);
}

fn game_with_bot_first(bot: &StupidBot) -> OngoingGame {
    let mut g = OngoingGame::new();
    g._id = String::from("f5715476-8808-498e-aa3e-d9c48487b602");
    g.player_one = bot.get_id();
    g.player_two = String::from("90663371-5330-45bd-90d2-41dd2496ab1e");
    g.whose_turn = bot.get_id();
    g
}

#[test]
fn bot_placement_passes_turn_and_logs_a_placement_on_an_empty_cell() {
    let bot = StupidBot::new(String::from(BOT_ID));
    let mut g = game_with_bot_first(&bot);
    g.board[0][0] = 2;
    assert_eq!(bot.place_random_new_piece(&mut g), Ok(()));
    assert_eq!(g.whose_turn, "90663371-5330-45bd-90d2-41dd2496ab1e");
    assert_eq!(g.player_two_remaining, 3);
    let m = g.moves[0];
    assert!(m.is_new_move());
    let (r, c) = m.new_as_coord();
    assert!((r, c) != (0, 0));
    assert_eq!(g.board[r][c], 1);
    assert_eq!(g.board[0][0], 2);
}

#[test]
fn bot_refuses_to_place_out_of_turn_or_without_pieces() {
    let bot = StupidBot::new(String::from(BOT_ID));
    let mut g = game_with_bot_first(&bot);
    g.whose_turn = g.player_two.clone();
    assert_eq!(bot.place_random_new_piece(&mut g), Err(()));
    assert_eq!(g.player_one_remaining, 3);
    assert!(g.moves.is_empty());

    let mut g = game_with_bot_first(&bot);
    g.player_one_remaining = 0;
    assert_eq!(bot.place_random_new_piece(&mut g), Err(()));
    assert_eq!(g.board, [[0; 3]; 3]);

    let mut stranger = game_with_bot_first(&bot);
    stranger.player_one = String::from("someone");
    stranger.whose_turn = String::from(BOT_ID);
    assert_eq!(bot.place_random_new_piece(&mut stranger), Err(()));

    let mut full = game_with_bot_first(&bot);
    full.board = [[1, 2, 1], [2, 1, 2], [2, 1, 2]];
    assert_eq!(bot.place_random_new_piece(&mut full), Err(()));
    assert!(full.moves.is_empty());
}

#[test]
fn determine_piece_follows_the_seat() {
    let bot = StupidBot::new(String::from(BOT_ID));
    let mut g = game_with_bot_first(&bot);
    assert_eq!(bot.determine_piece(&g), 1);
    std::mem::swap(&mut g.player_one, &mut g.player_two);
    assert_eq!(bot.determine_piece(&g), 2);
    assert_eq!(bot.get_id(), BOT_ID);
}

#[test]
fn slides_of_one_piece() {
    let bot = StupidBot::new(String::from(BOT_ID));
    let mut g = game_with_bot_first(&bot);
    g.board = [[1, 0, 0], [0, 2, 0], [0, 0, 0]];
    assert_eq!(
        bot.get_all_valid_moves(&0, &0, &g),
        Ok(vec![(0, 0, 0, 1), (0, 0, 1, 0)])
    );
    assert_eq!(bot.get_all_valid_moves(&1, &1, &g), Err(()));
    g.board = [[1, 2, 0], [2, 2, 0], [0, 0, 0]];
    assert_eq!(bot.get_all_valid_moves(&0, &0, &g), Err(()));
}

#[test]
fn pieces_linked_to_a_cell() {
    let bot = StupidBot::new(String::from(BOT_ID));
    let mut g = game_with_bot_first(&bot);
    g.board = [[1, 1, 0], [1, 0, 2], [0, 1, 0]];
    assert_eq!(
        StupidBot::get_valid_moves_to_position(1, 1, 1, &g),
        vec![(0, 0), (0, 1), (1, 0), (2, 1)]
    );
    assert_eq!(StupidBot::get_valid_moves_to_position(1, 2, 0, &g), vec![(1, 0), (2, 1)]);
    assert_eq!(StupidBot::get_valid_moves_to_position(2, 0, 2, &g), vec![(1, 2)]);
}

#[test]
fn random_slide_is_one_of_the_bot_slides() {
    let bot = StupidBot::new(String::from(BOT_ID));
    let mut g = game_with_bot_first(&bot);
    g.board = [[1, 2, 0], [2, 2, 0], [1, 1, 0]];
    for _ in 0..50 {
        let t = bot.get_random_valid_move(&g).unwrap();
        assert_eq!(t, (2, 1, 2, 2));
    }
    g.board = [[1, 2, 0], [2, 2, 0], [0, 0, 0]];
    assert_eq!(bot.get_random_valid_move(&g), Err(()));
}
