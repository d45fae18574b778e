//! Rule engine for Three Men's Morris: board topology, moves and their text
//! form, the game state with its legality checks and win detection, the
//! threat scan, and a random-move opponent.
pub mod board;
pub mod error;
pub mod move_def;
pub mod referee;
pub mod state;
pub mod stupid_bot;
pub mod text;
pub mod types;
