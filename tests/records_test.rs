use three_mens_morris::move_def::Move;
use three_mens_morris::types::{GameHistory, MovePayload, NewGamePayload, OngoingGame};

fn sample_game() -> OngoingGame {
    let mut g = OngoingGame::new();
    g._id = String::from("f5715476-8808-498e-aa3e-d9c48487b602");
    g.player_one = String::from("alice");
    g.player_two = String::from("bob");
    g.whose_turn = String::from("alice");
    g
}

#[test]
fn new_game_record_is_empty() {
    let g = OngoingGame::new();
    assert_eq!(g._id, "");
    assert_eq!(g.whose_turn, "");
    assert_eq!(g.player_one_remaining, 3);
    assert_eq!(g.player_two_remaining, 3);
    assert_eq!(g.board, [[0; 3]; 3]);
    assert!(g.moves.is_empty());
}

#[test]
fn record_text_forms() {
    let mut g = sample_game();
    g.board = [[1, 0, 2], [0, 1, 0], [0, 0, 2]];
    g.player_one_remaining = 1;
    assert_eq!(g.flatten_board(), "102010002");
    assert_eq!(g.get_state(), "alice,1,3,1,0,2,0,1,0,0,0,2");
    assert_eq!(g.get_id(), "f5715476-8808-498e-aa3e-d9c48487b602");
    assert_eq!(g.get_player_one(), "alice");
}

#[test]
fn turn_passes_between_the_two_players() {
    let mut g = sample_game();
    g.update_turn();
    assert_eq!(g.whose_turn, "bob");
    g.update_turn();
    assert_eq!(g.whose_turn, "alice");
    g.whose_turn = String::from("nobody");
    g.update_turn();
    assert_eq!(g.whose_turn, "alice");
    assert_eq!(g.player_two, "bob");
}

#[test]
fn move_payload_code_length() {
    let ok = MovePayload::new(String::from("alice"), String::from("a1b2")).unwrap();
    assert_eq!(ok.user_id, "alice");
    assert_eq!(ok.move_code, "a1b2");
    assert!(MovePayload::new(String::from("alice"), String::from("a1")).is_ok());
    assert_eq!(
        MovePayload::new(String::from("alice"), String::from("a")).err(),
        Some("move_code must be 2 to 4 characters long")
    );
    assert!(MovePayload::new(String::from("alice"), String::from("a1b2c")).is_err());
    assert!(MovePayload::new(String::from("alice"), String::from("ééé")).is_err());
    assert!(MovePayload::new(String::from("alice"), String::from("é")).is_ok());
}

#[test]
fn plain_records_hold_their_fields() {
    let h = GameHistory {
        _id: String::from("g"),
        player_one: String::from("alice"),
        player_two: String::from("bob"),
        winner: String::from("alice"),
        moves: vec![('a', '1'), ('b', '2')],
    };
    assert_eq!(h.moves.len(), 2);
    let p = NewGamePayload { user_id: String::from("alice") };
    assert_eq!(p.user_id, "alice");
    let m = Move::new();
    assert_eq!(m, Move { col: 'a', row: 0, new_col: None, new_row: None });
}
