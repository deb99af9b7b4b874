use vstd::prelude::*;

verus! {

/// The character of an empty cell.
pub const EMPTY: char = ' ';

/// The character that `winner` holds when the board filled up with no line.
pub const DRAW: char = 'D';

/// Whether `c` is a mark a player can place.
pub open spec fn is_mark(c: char) -> bool {
    c == 'X' || c == 'O'
}

/// The player who moves after `p`.
pub open spec fn next_player(p: char) -> char {
    if p == 'X' {
        'O'
    } else {
        'X'
    }
}

/// The three cells of line `k`: rows top to bottom, then columns left to
/// right, then the diagonal from the top left and the one from the top right.
pub open spec fn line_cells(k: int) -> (int, int, int) {
    if k == 0 {
        (0, 1, 2)
    } else if k == 1 {
        (3, 4, 5)
    } else if k == 2 {
        (6, 7, 8)
    } else if k == 3 {
        (0, 3, 6)
    } else if k == 4 {
        (1, 4, 7)
    } else if k == 5 {
        (2, 5, 8)
    } else if k == 6 {
        (0, 4, 8)
    } else {
        (2, 4, 6)
    }
}

/// Whether line `k` of `b` holds three equal marks.
pub open spec fn line_complete(b: Seq<char>, k: int) -> bool {
    let (x, y, z) = line_cells(k);
    b[x] != EMPTY && b[x] == b[y] && b[y] == b[z]
}

/// The mark of the first complete line of `b` from line `k` on.
pub open spec fn winner_from(b: Seq<char>, k: int) -> Option<char>
    decreases 8 - k,
{
    if k >= 8 {
        None
    } else if line_complete(b, k) {
        Some(b[line_cells(k).0])
    } else {
        winner_from(b, k + 1)
    }
}

/// The mark of the first complete line of `b`, if there is one.
pub open spec fn winner_of(b: Seq<char>) -> Option<char> {
    winner_from(b, 0)
}

/// Whether no cell of `b` is empty.
pub open spec fn is_full(b: Seq<char>) -> bool {
    forall|i: int| 0 <= i < 9 ==> b[i] != EMPTY
}

/// No line from `k` on is complete exactly when `winner_from(b, k)` is `None`;
/// when it is `Some(w)`, some line from `k` on is complete with mark `w`.
pub proof fn lemma_winner_from(b: Seq<char>, k: int)
    requires
        0 <= k <= 8,
    ensures
        winner_from(b, k) is None <==> forall|j: int| k <= j < 8 ==> !#[trigger] line_complete(b, j),
        winner_from(b, k) is Some ==> exists|j: int|
            k <= j < 8 && #[trigger] line_complete(b, j) && winner_from(b, k) == Some(
                b[line_cells(j).0],
            ),
    decreases 8 - k,
{
    if k < 8 {
        lemma_winner_from(b, k + 1);
    }
}

/// The cells of line `k`, `k < 8`.
fn line_at(k: usize) -> (r: (usize, usize, usize))
    requires
        k < 8,
    ensures
        r.0 as int == line_cells(k as int).0,
        r.1 as int == line_cells(k as int).1,
        r.2 as int == line_cells(k as int).2,
{
    if k == 0 {
        (0, 1, 2)
    } else if k == 1 {
        (3, 4, 5)
    } else if k == 2 {
        (6, 7, 8)
    } else if k == 3 {
        (0, 3, 6)
    } else if k == 4 {
        (1, 4, 7)
    } else if k == 5 {
        (2, 5, 8)
    } else if k == 6 {
        (0, 4, 8)
    } else {
        (2, 4, 6)
    }
}

/// The mark of the first line of `b` that holds three equal marks, checking
/// rows, then columns, then diagonals; `None` when no line is complete.
pub fn check_winner(b: &[char; 9]) -> (r: Option<char>)
    ensures
        r == winner_of(b@),
{
    let mut k: usize = 0;
    while k < 8
        invariant
            k <= 8,
            winner_of(b@) == winner_from(b@, k as int),
        decreases 8 - k,
    {
        let (x, y, z) = line_at(k);
        if b[x] != EMPTY && b[x] == b[y] && b[y] == b[z] {
            return Some(b[x]);
        }
        k = k + 1;
    }
    None
}

} // verus!
