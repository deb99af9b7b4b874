use vstd::prelude::*;

use crate::rules::{
    is_full, is_mark, lemma_winner_from, line_cells, line_complete, next_player, winner_from,
    winner_of, DRAW, EMPTY,
};
use crate::state::{after_move, initial_view, move_allowed, GameView};

verus! {

/// What one call of `make_move` does to the state: an accepted move is
/// played, a refused one leaves the state as it was.
pub open spec fn step(s: GameView, position: int) -> GameView {
    if move_allowed(s, position) {
        after_move(s, position)
    } else {
        s
    }
}

/// The state after `make_move` is called with each of `moves` in turn.
pub open spec fn play(s: GameView, moves: Seq<int>) -> GameView
    decreases moves.len(),
{
    if moves.len() == 0 {
        s
    } else {
        play(step(s, moves[0]), moves.drop_first())
    }
}

/// A fresh game is a state a game can be in.
pub proof fn lemma_initial_wf()
    ensures
        initial_view().wf(),
{
    let b = initial_view().board;
    lemma_winner_from(b, 0);
    assert(forall|j: int| 0 <= j < 8 ==> !#[trigger] line_complete(b, j)) by {
        assert forall|j: int| 0 <= j < 8 implies !#[trigger] line_complete(b, j) by {
            assert(b[line_cells(j).0] == EMPTY);
        }
    }
    assert(b[0] == EMPTY);
}

/// If a line is complete after `c` is written at `p` but was not before, the
/// line passes through `p` and its mark is `c`.
proof fn lemma_new_line(b: Seq<char>, p: int, c: char, k: int)
    requires
        b.len() == 9,
        0 <= p < 9,
        0 <= k < 8,
        !line_complete(b, k),
        line_complete(b.update(p, c), k),
    ensures
        b.update(p, c)[line_cells(k).0] == c,
{
}

/// A move that completes a line wins the game for the player who made it:
/// in any reachable state, if after marking `position` some line `k` holds
/// three equal marks, the game is over and the winner is the mover.
pub proof fn lemma_completing_line_wins(s: GameView, position: int, k: int)
    requires
        s.wf(),
        move_allowed(s, position),
        0 <= k < 8,
        line_complete(s.board.update(position, s.current_player), k),
    ensures
        after_move(s, position).game_over,
        after_move(s, position).winner == Some(s.current_player),
{
    let nb = s.board.update(position, s.current_player);
    lemma_winner_from(s.board, 0);
    lemma_winner_from(nb, 0);
    assert(!line_complete(nb, k) || winner_of(nb) is Some);
    let j = choose|j: int|
        0 <= j < 8 && #[trigger] line_complete(nb, j) && winner_from(nb, 0) == Some(
            nb[line_cells(j).0],
        );
    assert(!line_complete(s.board, j));
    lemma_new_line(s.board, position, s.current_player, j);
}

/// A move that fills the last cell without completing any line ends the game
/// in a draw.
pub proof fn lemma_full_board_draws(s: GameView, position: int)
    requires
        move_allowed(s, position),
        is_full(s.board.update(position, s.current_player)),
        forall|k: int|
            0 <= k < 8 ==> !#[trigger] line_complete(s.board.update(position, s.current_player), k),
    ensures
        after_move(s, position).game_over,
        after_move(s, position).winner == Some(DRAW),
{
    lemma_winner_from(s.board.update(position, s.current_player), 0);
}

/// An accepted move keeps the state one a game can be in.
pub proof fn lemma_move_keeps_wf(s: GameView, position: int)
    requires
        s.wf(),
        move_allowed(s, position),
    ensures
        after_move(s, position).wf(),
{
    let nb = s.board.update(position, s.current_player);
    assert forall|i: int| 0 <= i < 9 implies #[trigger] nb[i] == EMPTY || is_mark(nb[i]) by {
        if i != position {
            assert(s.board[i] == EMPTY || is_mark(s.board[i]));
        }
    }
}

/// Turns alternate: after an accepted move that does not end the game the
/// other player is to move; a move that ends it leaves the mover in place.
pub proof fn lemma_turns_alternate(s: GameView, position: int)
    requires
        move_allowed(s, position),
    ensures
        !after_move(s, position).game_over ==> after_move(s, position).current_player
            == next_player(s.current_player),
        after_move(s, position).game_over ==> after_move(s, position).current_player
            == s.current_player,
{
}

/// Once the game is over, no sequence of moves changes anything.
pub proof fn lemma_over_is_frozen(s: GameView, moves: Seq<int>)
    requires
        s.game_over,
    ensures
        play(s, moves) == s,
    decreases moves.len(),
{
    if moves.len() > 0 {
        lemma_over_is_frozen(s, moves.drop_first());
    }
}

/// An occupied cell keeps its mark through one call of `make_move`.
proof fn lemma_step_keeps_marks(s: GameView, position: int)
    requires
        s.board.len() == 9,
    ensures
        step(s, position).board.len() == 9,
        forall|i: int|
            0 <= i < 9 && s.board[i] != EMPTY ==> #[trigger] step(s, position).board[i]
                == s.board[i],
{
}

/// Marks are never overwritten: through any sequence of calls of
/// `make_move`, every cell that held a mark still holds the same mark.
pub proof fn lemma_marks_stay(s: GameView, moves: Seq<int>)
    requires
        s.board.len() == 9,
    ensures
        play(s, moves).board.len() == 9,
        forall|i: int|
            0 <= i < 9 && s.board[i] != EMPTY ==> #[trigger] play(s, moves).board[i]
                == s.board[i],
    decreases moves.len(),
{
    if moves.len() > 0 {
        let t = step(s, moves[0]);
        lemma_step_keeps_marks(s, moves[0]);
        lemma_marks_stay(t, moves.drop_first());
        assert forall|i: int|
            0 <= i < 9 && s.board[i] != EMPTY implies #[trigger] play(s, moves).board[i]
                == s.board[i] by {
            assert(t.board[i] == s.board[i]);
        }
    }
}

} // verus!
