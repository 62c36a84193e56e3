//! The game engine: creation with starting-board validation and sign
//! assignment, win/draw detection, and move application with the automated
//! opponent's response.

use vstd::prelude::*;
use vstd::pervasive::unreached;
use crate::board::{
    board_ok, board_verdict, count, count_cells, lemma_count_partition, lemma_count_take_step,
    lemma_count_update, lemma_count_zero, other_sign, symbols_ok, symbols_valid, GameStatus,
};
use crate::ids::fresh_game_id;
use crate::rng::random_below;
use crate::store::PlayerList;

verus! {

/// Why a game could not be created.
#[derive(Clone, Copy, Debug, PartialEq, Eq, Structural)]
pub enum GameError {
    /// The proposed board has the wrong length or an illegal symbol.
    InvalidBoard,
    /// The proposed board has legal symbols but an impossible starting
    /// configuration.
    InvalidStartingBoard,
}

/// An acceptable starting configuration: at most one stone of each sign,
/// and not one of each at once.
pub open spec fn start_ok(b: Seq<char>) -> bool {
    count(b, 'X') <= 1 && count(b, 'O') <= 1 && !(count(b, 'X') == 1 && count(b, 'O') == 1)
}

/// How creation completes a starting board `b` into the board of the new
/// game `g`, and which sign the human player is assigned.
///
/// On an all-empty board the engine places a random first sign on a random
/// cell and hands the human the other sign; on a board holding one stone
/// the human owns that stone's sign and the engine answers with one stone
/// of the other sign on a random empty cell.
pub open spec fn engine_completion(b: Seq<char>, g: Game, human: char) -> bool {
    if count(b, 'X') == 0 && count(b, 'O') == 0 {
        &&& (human == 'X' || human == 'O')
        &&& exists|i: int|
            0 <= i < 9 && b[i] == '-' && g.spec_board() == b.update(i, other_sign(human))
    } else if count(b, 'X') == 1 && count(b, 'O') == 0 {
        &&& human == 'X'
        &&& exists|i: int| 0 <= i < 9 && b[i] == '-' && g.spec_board() == b.update(i, 'O')
    } else {
        &&& human == 'O'
        &&& exists|i: int| 0 <= i < 9 && b[i] == '-' && g.spec_board() == b.update(i, 'X')
    }
}

/// `nb` is `b0` with exactly one formerly empty cell now holding `sign`:
/// every other cell keeps its exact symbol.
pub open spec fn single_placement(b0: Seq<char>, nb: Seq<char>, sign: char) -> bool {
    exists|i: int| 0 <= i < b0.len() && b0[i] == '-' && nb == b0.update(i, sign)
}

/// When a proposed board `nb` is accepted as a move by `sign` on the
/// current board `b0`: the game still runs and the proposal is the current
/// board with exactly one stone of `sign` placed into a previously empty
/// cell. A proposal that alters any other cell — even one whose aggregate
/// symbol counts still fit — is rejected.
pub open spec fn move_accepted(b0: Seq<char>, st: GameStatus, nb: Seq<char>, sign: char) -> bool {
    &&& st == GameStatus::RUNNING
    &&& single_placement(b0, nb, sign)
}

/// One game: an identifier fixed at creation, the nine-cell board, and the
/// current status.
pub struct Game {
    id: String,
    board: Vec<char>,
    status: GameStatus,
}

/// The mathematical content of a game record.
pub ghost struct GameView {
    pub id: Seq<char>,
    pub board: Seq<char>,
    pub status: GameStatus,
}

impl View for Game {
    type V = GameView;

    closed spec fn view(&self) -> GameView {
        GameView { id: self.id@, board: self.board@, status: self.status }
    }
}

impl Clone for Game {
    /// An exact snapshot of the game record.
    fn clone(&self) -> (r: Self)
        ensures
            r@ == self@,
    {
        Game { id: self.id.clone(), board: clone_board(&self.board), status: self.status }
    }
}

impl Game {
    /// Creates a new game from a candidate starting board.
    ///
    /// A board of the wrong shape is rejected with `InvalidBoard`, and one
    /// of legal symbols but an impossible starting configuration with
    /// `InvalidStartingBoard`. On success the engine completes the opening
    /// as `engine_completion` describes, registers the human player's sign
    /// in `player_list`, and returns the running game under a fresh
    /// identifier.
    pub fn new(board: Vec<char>, player_list: &mut PlayerList) -> (r: Result<Game, GameError>)
        requires
            old(player_list).wf(),
        ensures
            final(player_list).wf(),
            (r == Err::<Game, GameError>(GameError::InvalidBoard)) <==> !board_ok(board@),
            (r == Err::<Game, GameError>(GameError::InvalidStartingBoard)) <==> (board_ok(board@)
                && !start_ok(board@)),
            r is Ok <==> (board_ok(board@) && start_ok(board@)),
            r is Err ==> *final(player_list) == *old(player_list),
            r is Ok ==> ({
                let g = r->Ok_0;
                &&& g.spec_status() == GameStatus::RUNNING
                &&& g.wf()
                &&& g.spec_id().len() == 36
                &&& exists|human: char|
                    #[trigger] engine_completion(board@, g, human) && final(player_list)@ == old(
                        player_list,
                    )@.insert(g.spec_id(), human)
                &&& (count(board@, 'X') == 0 && count(board@, 'O') == 0) ==> (count(
                    g.spec_board(),
                    '-',
                ) == 8 && count(g.spec_board(), 'X') + count(g.spec_board(), 'O') == 1)
                &&& (count(board@, 'X') == 1 && count(board@, 'O') == 0) ==> (count(
                    g.spec_board(),
                    'X',
                ) == 1 && count(g.spec_board(), 'O') == 1)
                &&& (count(board@, 'X') == 0 && count(board@, 'O') == 1) ==> (count(
                    g.spec_board(),
                    'X',
                ) == 1 && count(g.spec_board(), 'O') == 1)
            }),
    {
        let id = fresh_game_id();
        // Validating board size
        if board.len() != 9 {
            return Err(GameError::InvalidBoard);
        }
        // Correct characters
        if !symbols_valid(&board) {
            return Err(GameError::InvalidBoard);
        }
        let x_count = count_cells(&board, 'X');
        let o_count = count_cells(&board, 'O');
        // Checking if there's a valid number of characters to start the game
        if x_count > 1 || o_count > 1 || (x_count == 1 && o_count == 1) {
            return Err(GameError::InvalidStartingBoard);
        }
        if x_count == 0 && o_count == 0 {
            // The board started empty: a random sign makes the first move
            // on a random cell, and the human player is assigned the other.
            proof {
                lemma_count_zero(board@, 'X');
                lemma_count_zero(board@, 'O');
                lemma_count_partition(board@);
            }
            let spot = random_below(9);
            let coin = random_below(2);
            let first_sign: char = if coin == 0 {
                'O'
            } else {
                'X'
            };
            let player_move: char = if coin == 0 {
                'X'
            } else {
                'O'
            };
            let mut new_board = board;
            new_board.set(spot, first_sign);
            let game = Game { id: id.clone(), board: new_board, status: GameStatus::RUNNING };
            proof {
                lemma_count_update(board@, spot as int, first_sign, '-');
                lemma_count_update(board@, spot as int, first_sign, 'X');
                lemma_count_update(board@, spot as int, first_sign, 'O');
                assert(board@[spot as int] == '-');
                assert(game.spec_board() == board@.update(spot as int, other_sign(player_move)));
                assert(engine_completion(board@, game, player_move));
            }
            player_list.insert(id, player_move);
            return Ok(game);
        }
        if x_count == 1 && o_count == 0 {
            // The human player opened with X: the engine answers with O.
            proof {
                lemma_count_partition(board@);
            }
            let new_board = make_computer_move(&board, 'O');
            let game = Game { id: id.clone(), board: new_board, status: GameStatus::RUNNING };
            proof {
                let i = choose|i: int|
                    0 <= i < 9 && board@[i] == '-' && game.spec_board() == board@.update(i, 'O');
                lemma_count_update(board@, i, 'O', 'X');
                lemma_count_update(board@, i, 'O', 'O');
                assert(engine_completion(board@, game, 'X'));
            }
            player_list.insert(id, 'X');
            return Ok(game);
        }
        // The board holds one O and no X: the human player owns O and the
        // engine answers with X.
        proof {
            lemma_count_partition(board@);
        }
        let new_board = make_computer_move(&board, 'X');
        let game = Game { id: id.clone(), board: new_board, status: GameStatus::RUNNING };
        proof {
            let i = choose|i: int|
                0 <= i < 9 && board@[i] == '-' && game.spec_board() == board@.update(i, 'X');
            lemma_count_update(board@, i, 'X', 'X');
            lemma_count_update(board@, i, 'X', 'O');
            assert(engine_completion(board@, game, 'O'));
        }
        player_list.insert(id, 'O');
        Ok(game)
    }

    /// The identifier, as a sequence of characters.
    pub open spec fn spec_id(&self) -> Seq<char> {
        self@.id
    }

    /// The board, as a sequence of cell symbols.
    pub open spec fn spec_board(&self) -> Seq<char> {
        self@.board
    }

    /// The current status.
    pub open spec fn spec_status(&self) -> GameStatus {
        self@.status
    }

    /// A game whose board is well formed.
    pub open spec fn wf(&self) -> bool {
        board_ok(self.spec_board())
    }

    /// Checks that the stored board is well formed: nine cells, each one
    /// of the three symbols. A caller about to submit a move can test the
    /// engine's expectation on the stored record with this.
    pub fn is_well_formed(&self) -> (r: bool)
        ensures
            r == self.wf(),
    {
        self.board.len() == 9 && symbols_valid(&self.board)
    }

    /// The current board, nine cells in row-major order.
    pub fn get_board(&self) -> (b: &Vec<char>)
        ensures
            b@ == self.spec_board(),
    {
        &self.board
    }

    /// Replaces the board. Does NOT validate the board.
    pub fn set_board(&mut self, board: Vec<char>)
        ensures
            final(self).spec_board() == board@,
            final(self).spec_id() == old(self).spec_id(),
            final(self).spec_status() == old(self).spec_status(),
    {
        self.board = board;
    }

    /// The current status of the game.
    pub fn get_status(&self) -> (s: GameStatus)
        ensures
            s == self.spec_status(),
    {
        self.status
    }

    /// The identifier of the game, generated at creation, never changed.
    pub fn get_id(&self) -> (id: &String)
        ensures
            id@ == self.spec_id(),
    {
        &self.id
    }

    /// Sets the status of the game.
    fn set_status(&mut self, game_status: GameStatus)
        ensures
            final(self).spec_status() == game_status,
            final(self).spec_id() == old(self).spec_id(),
            final(self).spec_board() == old(self).spec_board(),
    {
        self.status = game_status;
    }

    /// Checks the board for a win or a draw and, when one is found, moves
    /// the status to the terminal value; the verdict is a function of the
    /// board alone. Returns whether a terminal condition was found.
    pub fn check_win_conditions(&mut self) -> (won: bool)
        requires
            old(self).spec_board().len() == 9,
        ensures
            final(self).spec_id() == old(self).spec_id(),
            final(self).spec_board() == old(self).spec_board(),
            match board_verdict(old(self).spec_board()) {
                Some(st) => won && final(self).spec_status() == st,
                None => !won && final(self).spec_status() == old(self).spec_status(),
            },
    {
        // Rows holding three crosses, top to bottom.
        if self.board[0] == 'X' && self.board[1] == 'X' && self.board[2] == 'X' {
            self.set_status(GameStatus::XWon);
            return true;
        }
        if self.board[3] == 'X' && self.board[4] == 'X' && self.board[5] == 'X' {
            self.set_status(GameStatus::XWon);
            return true;
        }
        if self.board[6] == 'X' && self.board[7] == 'X' && self.board[8] == 'X' {
            self.set_status(GameStatus::XWon);
            return true;
        }
        // Rows holding three noughts.
        if self.board[0] == 'O' && self.board[1] == 'O' && self.board[2] == 'O' {
            self.set_status(GameStatus::OWon);
            return true;
        }
        if self.board[3] == 'O' && self.board[4] == 'O' && self.board[5] == 'O' {
            self.set_status(GameStatus::OWon);
            return true;
        }
        if self.board[6] == 'O' && self.board[7] == 'O' && self.board[8] == 'O' {
            self.set_status(GameStatus::OWon);
            return true;
        }
        // Columns, left to right.
        if self.board[0] == self.board[3] && self.board[0] == self.board[6] {
            if self.board[0] == 'X' {
                self.set_status(GameStatus::XWon);
                return true;
            }
            if self.board[0] == 'O' {
                self.set_status(GameStatus::OWon);
                return true;
            }
        }
        if self.board[1] == self.board[4] && self.board[1] == self.board[7] {
            if self.board[1] == 'X' {
                self.set_status(GameStatus::XWon);
                return true;
            }
            if self.board[1] == 'O' {
                self.set_status(GameStatus::OWon);
                return true;
            }
        }
        if self.board[2] == self.board[5] && self.board[2] == self.board[8] {
            if self.board[2] == 'X' {
                self.set_status(GameStatus::XWon);
                return true;
            }
            if self.board[2] == 'O' {
                self.set_status(GameStatus::OWon);
                return true;
            }
        }
        // The two diagonals.
        if self.board[0] == self.board[4] && self.board[0] == self.board[8] {
            if self.board[0] == 'X' {
                self.set_status(GameStatus::XWon);
                return true;
            }
            if self.board[0] == 'O' {
                self.set_status(GameStatus::OWon);
                return true;
            }
        }
        if self.board[2] == self.board[4] && self.board[2] == self.board[6] {
            if self.board[2] == 'X' {
                self.set_status(GameStatus::XWon);
                return true;
            }
            if self.board[2] == 'O' {
                self.set_status(GameStatus::OWon);
                return true;
            }
        }
        // No line is aligned: a full board is a draw.
        if self.board[0] != '-' && self.board[1] != '-' && self.board[2] != '-'
            && self.board[3] != '-' && self.board[4] != '-' && self.board[5] != '-'
            && self.board[6] != '-' && self.board[7] != '-' && self.board[8] != '-' {
            self.set_status(GameStatus::DRAW);
            return true;
        }
        false
    }

    /// Accepts a proposed board as the human player's move and, while the
    /// game still runs afterwards, answers with the opponent's sign on one
    /// random empty cell; win/draw detection runs after each placement.
    /// Returns whether the human move was accepted; a rejected move leaves
    /// the game entirely unchanged.
    pub fn make_move(&mut self, new_board: Vec<char>, player_list: &PlayerList) -> (accepted:
        bool)
        requires
            old(self).wf(),
            player_list.wf(),
            player_list@.contains_key(old(self).spec_id()),
            player_list@[old(self).spec_id()] == 'X' || player_list@[old(self).spec_id()] == 'O',
        ensures
            final(self).spec_id() == old(self).spec_id(),
            final(self).wf(),
            accepted == move_accepted(
                old(self).spec_board(),
                old(self).spec_status(),
                new_board@,
                player_list@[old(self).spec_id()],
            ),
            !accepted ==> *final(self) == *old(self),
            accepted ==> ({
                let sign = player_list@[old(self).spec_id()];
                let opp = other_sign(sign);
                let nb = new_board@;
                match board_verdict(nb) {
                    Some(st) => final(self).spec_board() == nb && final(self).spec_status() == st,
                    None => exists|i: int|
                        {
                            &&& 0 <= i < 9
                            &&& nb[i] == '-'
                            &&& final(self).spec_board() == nb.update(i, opp)
                            &&& final(self).spec_status() == (match board_verdict(
                                nb.update(i, opp),
                            ) {
                                Some(st2) => st2,
                                None => GameStatus::RUNNING,
                            })
                        },
                }
            }),
            accepted ==> count(final(self).spec_board(), '-') as int == (match board_verdict(
                new_board@,
            ) {
                Some(_) => count(old(self).spec_board(), '-') - 1,
                None => count(old(self).spec_board(), '-') - 2,
            }),
            (accepted && board_verdict(new_board@) is None) ==> count(
                final(self).spec_board(),
                other_sign(player_list@[old(self).spec_id()]),
            ) == count(new_board@, other_sign(player_list@[old(self).spec_id()])) + 1,
    {
        let player_move: char = match player_list.sign_of(&self.id) {
            Some(c) => c,
            None => {
                proof {
                    assert(false);
                }
                unreached()
            },
        };
        match self.status {
            GameStatus::RUNNING => {},
            _ => {
                // The game is over: no move is accepted.
                return false;
            },
        }
        // The proposal must be the current board plus one stone of the
        // human player's sign on an empty cell, with no other cell altered.
        if !is_single_placement(&self.board, &new_board, player_move) {
            return false;
        }
        proof {
            let b0 = old(self).spec_board();
            let i = choose|i: int|
                0 <= i < b0.len() && b0[i] == '-' && new_board@ == b0.update(i, player_move);
            lemma_count_update(b0, i, player_move, '-');
            assert(symbols_ok(new_board@));
        }
        // The move is valid: the proposed board becomes the current board
        self.set_board(new_board);
        let won = self.check_win_conditions();
        let computer_sign: char = if player_move == 'X' {
            'O'
        } else {
            'X'
        };
        if !won {
            // The game goes on: the engine makes its counter move.
            proof {
                lemma_count_zero(new_board@, '-');
            }
            let updated = make_computer_move(&self.board, computer_sign);
            self.set_board(updated);
            proof {
                let nb = new_board@;
                let i = choose|i: int|
                    0 <= i < 9 && nb[i] == '-' && self.spec_board() == nb.update(i, computer_sign);
                lemma_count_update(nb, i, computer_sign, '-');
                lemma_count_update(nb, i, computer_sign, other_sign(player_move));
            }
        }
        // Checking win conditions again after the engine's move
        self.check_win_conditions();
        true
    }
}

/// Checks cell by cell that `nb` is `b0` with exactly one formerly empty
/// cell now holding `sign`.
fn is_single_placement(b0: &Vec<char>, nb: &Vec<char>, sign: char) -> (r: bool)
    requires
        b0@.len() == 9,
        sign == 'X' || sign == 'O',
    ensures
        r == single_placement(b0@, nb@, sign),
{
    if nb.len() != 9 {
        return false;
    }
    let mut place: Option<usize> = None;
    let mut i: usize = 0;
    while i < 9
        invariant
            i <= 9,
            b0@.len() == 9,
            nb@.len() == 9,
            match place {
                Some(p) => (p as int) < i && b0@[p as int] == '-' && nb@[p as int] == sign
                    && (forall|k: int| 0 <= k < i && k != p as int ==> nb@[k] == b0@[k]),
                None => forall|k: int| 0 <= k < i ==> nb@[k] == b0@[k],
            },
        decreases 9 - i,
    {
        let a = b0[i];
        let b = nb[i];
        if a != b {
            if !(a == '-' && b == sign) {
                // an occupied cell changed, or the wrong sign appeared
                return false;
            }
            match place {
                Some(_) => {
                    // a second cell changed
                    return false;
                },
                None => {
                    place = Some(i);
                },
            }
        }
        i = i + 1;
    }
    match place {
        Some(p) => {
            proof {
                assert(nb@ =~= b0@.update(p as int, sign));
            }
            true
        },
        None => {
            // no cell changed at all: not a placement
            proof {
                assert(nb@ =~= b0@);
            }
            false
        },
    }
}

/// Places `computer_sign` on a uniformly random empty cell of the board,
/// returning the updated board.
fn make_computer_move(current_board: &Vec<char>, computer_sign: char) -> (r: Vec<char>)
    requires
        current_board@.len() == 9,
        count(current_board@, '-') > 0,
    ensures
        r@.len() == current_board@.len(),
        exists|i: int|
            0 <= i < 9 && current_board@[i] == '-' && r@ == current_board@.update(
                i,
                computer_sign,
            ),
{
    // Collecting the indices of the open positions
    let mut empty_spaces: Vec<usize> = Vec::new();
    let mut i: usize = 0;
    while i < current_board.len()
        invariant
            current_board@.len() == 9,
            i <= 9,
            empty_spaces@.len() == count(current_board@.take(i as int), '-'),
            forall|k: int|
                0 <= k < empty_spaces@.len() ==> (#[trigger] empty_spaces@[k]) < 9
                    && current_board@[empty_spaces@[k] as int] == '-',
        decreases 9 - i,
    {
        proof {
            lemma_count_take_step(current_board@, i as int, '-');
        }
        if current_board[i] == '-' {
            empty_spaces.push(i);
        }
        i = i + 1;
    }
    proof {
        assert(current_board@.take(9) =~= current_board@);
    }
    // Choosing one open slot uniformly at random and placing the sign there
    let random_choice = random_below(empty_spaces.len());
    let index_to_be_replaced = empty_spaces[random_choice];
    let mut updated = clone_board(current_board);
    updated.set(index_to_be_replaced, computer_sign);
    updated
}

/// Win and draw detection is a function of the board alone: two game
/// instances holding equal boards receive equal verdicts, however they
/// were constructed and however their random sources differ.
pub proof fn lemma_detection_deterministic(g1: Game, g2: Game)
    requires
        g1.spec_board() == g2.spec_board(),
    ensures
        board_verdict(g1.spec_board()) == board_verdict(g2.spec_board()),
{
}

/// An exact copy of a board.
fn clone_board(b: &Vec<char>) -> (r: Vec<char>)
    ensures
        r@ == b@,
{
    let mut r: Vec<char> = Vec::new();
    let mut i: usize = 0;
    while i < b.len()
        invariant
            i <= b@.len(),
            r@ =~= b@.take(i as int),
        decreases b@.len() - i,
    {
        r.push(b[i]);
        i = i + 1;
    }
    proof {
        assert(b@.take(b@.len() as int) =~= b@);
    }
    r
}

} // verus!
