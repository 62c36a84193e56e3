//! The board model: the nine-cell grid as a sequence of symbols, symbol
//! counts, and the win/draw verdict a board receives.

use vstd::prelude::*;

verus! {

/// Status of a game: running, or one of the three terminal outcomes.
#[derive(Clone, Copy, Debug, PartialEq, Eq, Structural)]
pub enum GameStatus {
    RUNNING,
    XWon,
    OWon,
    DRAW,
}

/// The three symbols a board cell may hold: a cross, a nought, or empty.
pub open spec fn valid_cell(c: char) -> bool {
    c == 'X' || c == 'O' || c == '-'
}

/// Every cell of the sequence holds one of the three symbols.
pub open spec fn symbols_ok(b: Seq<char>) -> bool {
    forall|i: int| 0 <= i < b.len() ==> valid_cell(#[trigger] b[i])
}

/// A well-formed board: nine cells, row-major, each a valid symbol.
pub open spec fn board_ok(b: Seq<char>) -> bool {
    b.len() == 9 && symbols_ok(b)
}

/// The opposing sign: 'O' for 'X' and 'X' for anything else.
pub open spec fn other_sign(c: char) -> char {
    if c == 'X' {
        'O'
    } else {
        'X'
    }
}

/// Number of occurrences of the symbol `c` in `s`.
pub open spec fn count(s: Seq<char>, c: char) -> nat
    decreases s.len(),
{
    if s.len() == 0 {
        0
    } else {
        count(s.drop_last(), c) + if s.last() == c {
            1nat
        } else {
            0nat
        }
    }
}

/// A symbol occurs no more often than there are cells.
pub proof fn lemma_count_le_len(s: Seq<char>, c: char)
    ensures
        count(s, c) <= s.len(),
    decreases s.len(),
{
    if s.len() > 0 {
        lemma_count_le_len(s.drop_last(), c);
    }
}

/// A symbol is absent exactly when no cell holds it.
pub proof fn lemma_count_zero(s: Seq<char>, c: char)
    ensures
        count(s, c) == 0 <==> (forall|i: int| 0 <= i < s.len() ==> s[i] != c),
    decreases s.len(),
{
    if s.len() > 0 {
        lemma_count_zero(s.drop_last(), c);
        assert(forall|i: int| 0 <= i < s.len() - 1 ==> s[i] == s.drop_last()[i]);
        assert(s.last() == s[s.len() - 1]);
    }
}

/// How overwriting one cell changes a symbol's count.
pub proof fn lemma_count_update(s: Seq<char>, i: int, c: char, d: char)
    requires
        0 <= i < s.len(),
    ensures
        count(s.update(i, c), d) as int == count(s, d) + (if c == d {
            1int
        } else {
            0int
        }) - (if s[i] == d {
            1int
        } else {
            0int
        }),
    decreases s.len(),
{
    let t = s.update(i, c);
    if i == s.len() - 1 {
        assert(t.drop_last() =~= s.drop_last());
        assert(t.last() == c);
    } else {
        assert(t.drop_last() =~= s.drop_last().update(i, c));
        assert(t.last() == s.last());
        assert(s.drop_last()[i] == s[i]);
        lemma_count_update(s.drop_last(), i, c, d);
    }
}

/// On a board of valid symbols the three counts partition the cells.
pub proof fn lemma_count_partition(s: Seq<char>)
    requires
        symbols_ok(s),
    ensures
        count(s, 'X') + count(s, 'O') + count(s, '-') == s.len(),
    decreases s.len(),
{
    if s.len() > 0 {
        assert(forall|i: int| 0 <= i < s.len() - 1 ==> s.drop_last()[i] == s[i]);
        assert(symbols_ok(s.drop_last()));
        lemma_count_partition(s.drop_last());
        assert(valid_cell(s[s.len() - 1]));
    }
}

/// Extending a prefix by one cell extends its count by that cell.
pub proof fn lemma_count_take_step(s: Seq<char>, i: int, c: char)
    requires
        0 <= i < s.len(),
    ensures
        count(s.take(i + 1), c) == count(s.take(i), c) + if s[i] == c {
            1nat
        } else {
            0nat
        },
{
    assert(s.take(i + 1).drop_last() =~= s.take(i));
    assert(s.take(i + 1).last() == s[i]);
}

/// Counts the cells of `b` holding the symbol `c`.
pub fn count_cells(b: &Vec<char>, c: char) -> (n: usize)
    ensures
        n as nat == count(b@, c),
{
    let mut n: usize = 0;
    let mut i: usize = 0;
    while i < b.len()
        invariant
            i <= b@.len(),
            n as nat == count(b@.take(i as int), c),
            n <= i,
        decreases b@.len() - i,
    {
        proof {
            lemma_count_take_step(b@, i as int, c);
            lemma_count_le_len(b@.take(i as int), c);
        }
        if b[i] == c {
            n = n + 1;
        }
        i = i + 1;
    }
    proof {
        assert(b@.take(b@.len() as int) =~= b@);
    }
    n
}

/// Checks that every cell of `b` holds one of the three symbols.
pub fn symbols_valid(b: &Vec<char>) -> (ok: bool)
    ensures
        ok == symbols_ok(b@),
{
    let mut i: usize = 0;
    while i < b.len()
        invariant
            i <= b@.len(),
            forall|k: int| 0 <= k < i ==> valid_cell(#[trigger] b@[k]),
        decreases b@.len() - i,
    {
        let c = b[i];
        if !(c == 'X' || c == 'O' || c == '-') {
            return false;
        }
        i = i + 1;
    }
    true
}

/// Cells `i`, `j` and `k` all hold the symbol `c`.
pub open spec fn three_in_line(b: Seq<char>, i: int, j: int, k: int, c: char) -> bool {
    b[i] == c && b[j] == c && b[k] == c
}

/// Some row holds three of the symbol `c`.
pub open spec fn row_win(b: Seq<char>, c: char) -> bool {
    ||| three_in_line(b, 0, 1, 2, c)
    ||| three_in_line(b, 3, 4, 5, c)
    ||| three_in_line(b, 6, 7, 8, c)
}

/// Verdict of one line: cells `i`, `j` and `k` agree on 'X' or on 'O'.
pub open spec fn line_verdict(b: Seq<char>, i: int, j: int, k: int) -> Option<GameStatus> {
    if b[i] == b[j] && b[i] == b[k] {
        if b[i] == 'X' {
            Some(GameStatus::XWon)
        } else if b[i] == 'O' {
            Some(GameStatus::OWon)
        } else {
            None
        }
    } else {
        None
    }
}

/// The rows' outcome; a line of crosses outranks a line of noughts.
pub open spec fn row_verdict(b: Seq<char>) -> Option<GameStatus> {
    if row_win(b, 'X') {
        Some(GameStatus::XWon)
    } else if row_win(b, 'O') {
        Some(GameStatus::OWon)
    } else {
        None
    }
}

/// The columns' outcome, leftmost aligned column deciding.
pub open spec fn col_verdict(b: Seq<char>) -> Option<GameStatus> {
    if line_verdict(b, 0, 3, 6) is Some {
        line_verdict(b, 0, 3, 6)
    } else if line_verdict(b, 1, 4, 7) is Some {
        line_verdict(b, 1, 4, 7)
    } else {
        line_verdict(b, 2, 5, 8)
    }
}

/// The diagonals' outcome, the main diagonal deciding over the anti-diagonal.
pub open spec fn diag_verdict(b: Seq<char>) -> Option<GameStatus> {
    if line_verdict(b, 0, 4, 8) is Some {
        line_verdict(b, 0, 4, 8)
    } else {
        line_verdict(b, 2, 4, 6)
    }
}

/// No cell of the board is empty.
pub open spec fn board_full(b: Seq<char>) -> bool {
    forall|i: int| 0 <= i < b.len() ==> #[trigger] b[i] != '-'
}

/// The verdict win/draw detection reaches on `b`: rows (X before O), then
/// columns, then diagonals, then a draw on a full board; `None` while the
/// game can still go on.
pub open spec fn board_verdict(b: Seq<char>) -> Option<GameStatus> {
    if row_verdict(b) is Some {
        row_verdict(b)
    } else if col_verdict(b) is Some {
        col_verdict(b)
    } else if diag_verdict(b) is Some {
        diag_verdict(b)
    } else if board_full(b) {
        Some(GameStatus::DRAW)
    } else {
        None
    }
}

} // verus!
