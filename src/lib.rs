pub mod lemmas;
pub mod rules;
pub mod state;

pub use rules::{check_winner, DRAW, EMPTY};
pub use state::{get_game_state, make_move, reset_game, GameState, MoveError};
