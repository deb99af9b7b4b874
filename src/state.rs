use vstd::prelude::*;

use crate::rules::{
    check_winner, is_full, is_mark, next_player, winner_of, DRAW, EMPTY,
};

use crate::lemmas::{lemma_initial_wf, lemma_move_keeps_wf, step};

verus! {

/// Why a move was refused.
#[derive(Clone, Copy, Debug, PartialEq, Eq, Structural)]
pub enum MoveError {
    /// The position is off the board, or its cell is already taken.
    InvalidMove,
    /// The game already has a winner or ended in a draw.
    GameOver,
}

impl MoveError {
    /// The text shown to a player for this error.
    pub fn message(&self) -> (r: &'static str)
        ensures
            r@ == match self {
                MoveError::InvalidMove => "Invalid move"@,
                MoveError::GameOver => "Game over"@,
            },
    {
        proof {
            reveal_strlit("Invalid move");
            reveal_strlit("Game over");
        }
        match self {
            MoveError::InvalidMove => "Invalid move",
            MoveError::GameOver => "Game over",
        }
    }
}

/// The whole state of one game: the nine cells (`' '`, `'X'` or `'O'`), row by
/// row from the top left; whose turn it is; whether the game has ended; and,
/// once it has, the winning mark or `'D'` for a draw.
#[derive(Clone, Copy, Debug, PartialEq, Eq)]
pub struct GameState {
    pub board: [char; 9],
    pub current_player: char,
    pub game_over: bool,
    pub winner: Option<char>,
}

/// The mathematical value of a `GameState`.
pub struct GameView {
    pub board: Seq<char>,
    pub current_player: char,
    pub game_over: bool,
    pub winner: Option<char>,
}

impl View for GameState {
    type V = GameView;

    open spec fn view(&self) -> GameView {
        GameView {
            board: self.board@,
            current_player: self.current_player,
            game_over: self.game_over,
            winner: self.winner,
        }
    }
}

/// The state a game starts in: all cells empty, X to move, not over.
pub open spec fn initial_view() -> GameView {
    GameView {
        board: Seq::new(9, |i: int| EMPTY),
        current_player: 'X',
        game_over: false,
        winner: None,
    }
}

/// Whether a move at `position` is accepted in `s`.
pub open spec fn move_allowed(s: GameView, position: int) -> bool {
    !s.game_over && 0 <= position < 9 && s.board[position] == EMPTY
}

/// The state after the player to move marks `position`: the first complete
/// line decides the winner; else a full board is a draw; else the turn passes
/// and the rest stays as it was.
pub open spec fn after_move(s: GameView, position: int) -> GameView {
    let board = s.board.update(position, s.current_player);
    match winner_of(board) {
        Some(w) => GameView { board, current_player: s.current_player, game_over: true, winner: Some(w) },
        None => if is_full(board) {
            GameView { board, current_player: s.current_player, game_over: true, winner: Some(DRAW) }
        } else {
            GameView {
                board,
                current_player: next_player(s.current_player),
                game_over: s.game_over,
                winner: s.winner,
            }
        },
    }
}

impl GameView {
    /// The state is one a game can be in: nine cells of empty or a mark, a mark
    /// to move, and `game_over` and `winner` in step with the board: no line
    /// and free cells while the game runs; once over, the mark of the first
    /// complete line, or a draw on a full board with no line.
    pub open spec fn wf(self) -> bool {
        &&& self.board.len() == 9
        &&& forall|i: int| 0 <= i < 9 ==> #[trigger] self.board[i] == EMPTY || is_mark(self.board[i])
        &&& is_mark(self.current_player)
        &&& self.game_over <==> self.winner is Some
        &&& !self.game_over ==> winner_of(self.board) is None && !is_full(self.board)
        &&& self.game_over ==> {
            ||| winner_of(self.board) is Some && self.winner == winner_of(self.board)
            ||| winner_of(self.board) is None && is_full(self.board) && self.winner == Some(DRAW)
        }
    }
}

impl Default for GameState {
    /// A fresh game.
    fn default() -> (r: GameState)
        ensures
            r@ == initial_view(),
            r@.wf(),
    {
        proof {
            lemma_initial_wf();
        }
        let r = GameState { board: [EMPTY; 9], current_player: 'X', game_over: false, winner: None };
        assert(r.board@ =~= initial_view().board);
        r
    }
}

/// Whether some cell of `b` is empty.
fn has_empty(b: &[char; 9]) -> (r: bool)
    ensures
        r == !is_full(b@),
{
    let mut i: usize = 0;
    while i < 9
        invariant
            i <= 9,
            forall|j: int| 0 <= j < i ==> b@[j] != EMPTY,
        decreases 9 - i,
    {
        if b[i] == EMPTY {
            return true;
        }
        i = i + 1;
    }
    false
}

/// Marks `position` for the player to move and settles the outcome. A game
/// that is over refuses with `GameOver`; else a position off the board or on
/// a taken cell refuses with `InvalidMove`. A refused move changes nothing;
/// an accepted one returns a copy of the new state.
pub fn make_move(game: &mut GameState, position: usize) -> (r: Result<GameState, MoveError>)
    ensures
        old(game)@.game_over ==> r == Err::<GameState, MoveError>(MoveError::GameOver),
        !old(game)@.game_over && !move_allowed(old(game)@, position as int)
            ==> r == Err::<GameState, MoveError>(MoveError::InvalidMove),
        r is Err ==> *final(game) == *old(game),
        move_allowed(old(game)@, position as int) ==> r == Ok::<GameState, MoveError>(*final(game)),
        move_allowed(old(game)@, position as int) ==> final(game)@ == after_move(
            old(game)@,
            position as int,
        ),
        old(game)@.wf() ==> final(game)@.wf(),
        final(game)@ == step(old(game)@, position as int),
{
    if game.game_over {
        return Err(MoveError::GameOver);
    }
    if position >= 9 || game.board[position] != EMPTY {
        return Err(MoveError::InvalidMove);
    }
    let ghost before = game@;
    game.board[position] = game.current_player;
    assert(game.board@ =~= before.board.update(position as int, before.current_player));
    match check_winner(&game.board) {
        Some(w) => {
            game.winner = Some(w);
            game.game_over = true;
        },
        None => {
            if !has_empty(&game.board) {
                game.winner = Some(DRAW);
                game.game_over = true;
            } else {
                game.current_player = if game.current_player == 'X' { 'O' } else { 'X' };
            }
        },
    }
    proof {
        if before.wf() {
            lemma_move_keeps_wf(before, position as int);
        }
    }
    Ok(*game)
}

/// A copy of the current state.
pub fn get_game_state(game: &GameState) -> (r: GameState)
    ensures
        r == *game,
{
    *game
}

/// Replaces the state with a fresh game and returns a copy of it.
pub fn reset_game(game: &mut GameState) -> (r: GameState)
    ensures
        final(game)@ == initial_view(),
        r == *final(game),
{
    *game = GameState::default();
    *game
}

} // verus!
