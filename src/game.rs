use vstd::prelude::*;

use crate::board::{
    board_wf, clear_lines, clear_score, cleared, complete_count, empty_row, grid, lemma_cleared_wf,
    fits, lock_piece, locked, new_board, ROWS,
};
use crate::piece::{fresh, lemma_drop_row_bounds, lemma_landing_fits, Tetrimino, NUM_KINDS};

verus! {

/// Total lines a player must have cleared to leave `level` (1-based); 200
/// from level 10 on.
pub open spec fn lines_threshold(level: u32) -> u32 {
    match level {
        1 => 20,
        2 => 40,
        3 => 60,
        4 => 80,
        5 => 100,
        6 => 120,
        7 => 140,
        8 => 160,
        9 => 180,
        _ => 200,
    }
}

/// Milliseconds between two gravity steps at `level` (1-based); 190 from
/// level 10 on.
pub open spec fn gravity_ms(level: u32) -> u32 {
    match level {
        1 => 1000,
        2 => 850,
        3 => 700,
        4 => 600,
        5 => 500,
        6 => 400,
        7 => 300,
        8 => 250,
        9 => 221,
        _ => 190,
    }
}

/// Total lines a player must have cleared to leave `level`.
pub fn level_lines(level: u32) -> (n: u32)
    ensures
        n == lines_threshold(level),
{
    match level {
        1 => 20,
        2 => 40,
        3 => 60,
        4 => 80,
        5 => 100,
        6 => 120,
        7 => 140,
        8 => 160,
        9 => 180,
        _ => 200,
    }
}

/// Milliseconds between two gravity steps at `level`.
pub fn level_time(level: u32) -> (ms: u32)
    ensures
        ms == gravity_ms(level),
{
    match level {
        1 => 1000,
        2 => 850,
        3 => 700,
        4 => 600,
        5 => 500,
        6 => 400,
        7 => 300,
        8 => 250,
        9 => 221,
        _ => 190,
    }
}

/// `a + b`, or `u32::MAX` where the sum does not fit.
pub open spec fn add_capped(a: u32, b: int) -> u32 {
    if a + b > u32::MAX {
        u32::MAX
    } else {
        (a + b) as u32
    }
}

/// Line count and level after one more line: the count grows by one (it
/// stays at `u32::MAX` once there), and the level grows by one when the count
/// passes the threshold of the current level (and the level fits in 32 bits).
pub open spec fn after_line(lines: u32, level: u32) -> (u32, u32) {
    let l = add_capped(lines, 1);
    if level < u32::MAX && l > lines_threshold(level) {
        (l, (level + 1) as u32)
    } else {
        (l, level)
    }
}

/// Line count and level after `k` more lines.
pub open spec fn after_lines(lines: u32, level: u32, k: nat) -> (u32, u32)
    decreases k,
{
    if k == 0 {
        (lines, level)
    } else {
        let prev = after_lines(lines, level, (k - 1) as nat);
        after_line(prev.0, prev.1)
    }
}

/// Counting lines never lowers the count nor the level.
pub proof fn lemma_after_lines(lines: u32, level: u32, k: nat)
    ensures
        after_lines(lines, level, k).0 >= lines,
        level <= after_lines(lines, level, k).1,
    decreases k,
{
    if k > 0 {
        lemma_after_lines(lines, level, (k - 1) as nat);
    }
}

/// What a player can do with the falling piece. Gravity is a `Down` that the
/// clock asks for.
#[derive(Clone, Copy, Debug, PartialEq, Eq, Structural)]
pub enum Move {
    Left,
    Right,
    Down,
    Rotate,
    Drop,
}

/// A game: the board, the falling piece, the next piece and the counters.
pub struct Tetris {
    pub game_over: bool,
    pub game_map: Vec<Vec<u8>>,
    pub current_level: u32,
    pub score: u32,
    pub nb_lines: u32,
    pub current_piece: Option<Tetrimino>,
    pub next_piece: Option<Tetrimino>,
}

/// `p` moved by (`dx`, `dy`) where it fits there, else `p` as it is.
pub open spec fn shifted(p: Tetrimino, g: Seq<Seq<u8>>, dx: int, dy: int) -> Tetrimino {
    if p.can_shift(g, dx, dy) {
        p.at((p.x + dx) as isize, (p.y + dy) as usize)
    } else {
        p
    }
}

/// `p` in its next rotation state where that fits, else `p` as it is.
pub open spec fn rotated(p: Tetrimino, g: Seq<Seq<u8>>) -> Tetrimino {
    if fits(g, p.kind, p.next_state(), p.x as int, p.y as int) {
        p.turned()
    } else {
        p
    }
}

/// Score, line count and level never go down from `old` to `new`.
pub open spec fn progressed(old: Tetris, new: Tetris) -> bool {
    &&& old.score <= new.score
    &&& old.nb_lines <= new.nb_lines
    &&& old.current_level <= new.current_level
}

/// `new` is `old` once its falling piece (if any) is locked into the board,
/// the piece has earned the current level in points, complete rows are
/// cleared and scored, and the cleared lines are counted.
pub open spec fn settled(old: Tetris, new: Tetris) -> bool {
    let g1 = match old.current_piece {
        Some(p) => locked(old.board(), p),
        None => old.board(),
    };
    let s1 = match old.current_piece {
        Some(p) => add_capped(old.score, old.current_level as int),
        None => old.score,
    };
    &&& new.board() == cleared(g1)
    &&& new.score == add_capped(s1, clear_score(g1, old.current_level))
    &&& (new.nb_lines, new.current_level) == after_lines(
        old.nb_lines,
        old.current_level,
        complete_count(g1) as nat,
    )
    &&& new.current_piece is None
    &&& new.next_piece == old.next_piece
    &&& new.game_over == old.game_over
}

impl Tetris {
    /// The board as rows of cell values.
    pub open spec fn board(self) -> Seq<Seq<u8>> {
        grid(&self.game_map)
    }

    /// The board has its shape, the level is in the table, the falling piece
    /// fits where it stands, and a finished game has no falling piece.
    pub open spec fn wf(self) -> bool {
        &&& board_wf(self.board())
        &&& 1 <= self.current_level
        &&& (self.current_piece matches Some(p) ==> p.wf() && p.fits_on(self.board()))
        &&& (self.next_piece matches Some(p) ==> p.wf())
        &&& (self.game_over ==> self.current_piece is None)
    }

    /// `self` with `p` as the falling piece.
    pub open spec fn with_piece(self, p: Tetrimino) -> Tetris {
        Tetris { current_piece: Some(p), ..self }
    }

    /// A game on an empty board at level 1, with no piece yet.
    pub fn new() -> (t: Tetris)
        ensures
            t.wf(),
            t.board() == Seq::new(ROWS as nat, |i: int| empty_row()),
            !t.game_over,
            t.current_level == 1,
            t.score == 0,
            t.nb_lines == 0,
            t.current_piece is None,
            t.next_piece is None,
    {
        Tetris {
            game_over: false,
            game_map: new_board(),
            current_level: 1,
            score: 0,
            nb_lines: 0,
            current_piece: None,
            next_piece: None,
        }
    }

    /// A new game whose first piece will be of shape `next_kind`.
    pub fn start(next_kind: u8) -> (t: Tetris)
        requires
            next_kind < NUM_KINDS,
        ensures
            t.wf(),
            t.board() == Seq::new(ROWS as nat, |i: int| empty_row()),
            !t.game_over,
            t.current_level == 1,
            t.score == 0,
            t.nb_lines == 0,
            t.current_piece is None,
            t.next_piece == Some(fresh(next_kind)),
    {
        let mut t = Tetris::new();
        t.next_piece = Some(Tetrimino::new(next_kind));
        t
    }

    /// Adds `to_add` points; the score stays at `u32::MAX` once there.
    pub fn update_score(&mut self, to_add: u64)
        ensures
            *final(self) == (Tetris { score: add_capped(old(self).score, to_add as int), ..*old(self) }),
            progressed(*old(self), *final(self)),
    {
        if to_add > (u32::MAX - self.score) as u64 {
            self.score = u32::MAX;
        } else {
            self.score = self.score + to_add as u32;
        }
    }

    /// Goes up one level.
    pub fn increase_level(&mut self)
        requires
            old(self).current_level < u32::MAX,
        ensures
            *final(self) == (Tetris { current_level: (old(self).current_level + 1) as u32, ..*old(self) }),
            progressed(*old(self), *final(self)),
    {
        self.current_level += 1;
    }

    /// Counts one more cleared line, and goes up a level when the count
    /// passes the threshold of the current level.
    pub fn increase_line(&mut self)
        ensures
            (final(self).nb_lines, final(self).current_level) == after_line(
                old(self).nb_lines,
                old(self).current_level,
            ),
            *final(self) == (Tetris {
                nb_lines: final(self).nb_lines,
                current_level: final(self).current_level,
                ..*old(self)
            }),
            progressed(*old(self), *final(self)),
    {
        if self.nb_lines < u32::MAX {
            self.nb_lines += 1;
        }
        if self.current_level < u32::MAX && self.nb_lines > level_lines(self.current_level) {
            self.increase_level();
        }
    }

    /// Clears the complete rows, scores them at the current level and counts
    /// them as cleared lines.
    pub fn check_lines(&mut self)
        requires
            board_wf(old(self).board()),
            1 <= old(self).current_level,
        ensures
            board_wf(final(self).board()),
            1 <= final(self).current_level,
            old(self).wf() && old(self).current_piece is None ==> final(self).wf(),
            final(self).board() == cleared(old(self).board()),
            final(self).score == add_capped(
                old(self).score,
                clear_score(old(self).board(), old(self).current_level),
            ),
            (final(self).nb_lines, final(self).current_level) == after_lines(
                old(self).nb_lines,
                old(self).current_level,
                complete_count(old(self).board()) as nat,
            ),
            final(self).current_piece == old(self).current_piece,
            final(self).next_piece == old(self).next_piece,
            final(self).game_over == old(self).game_over,
            progressed(*old(self), *final(self)),
    {
        let ghost g0 = self.board();
        let ghost l0 = self.nb_lines;
        let ghost lv0 = self.current_level;
        proof {
            lemma_cleared_wf(g0);
        }
        let (removed, delta) = clear_lines(&mut self.game_map, self.current_level);
        self.update_score(delta);
        let mut i: u32 = 0;
        while i < removed
            invariant
                i <= removed,
                removed == complete_count(g0),
                1 <= lv0,
                (self.nb_lines, self.current_level) == after_lines(l0, lv0, i as nat),
                self.board() == cleared(g0),
                self.score == add_capped(old(self).score, clear_score(g0, lv0)),
                self.current_piece == old(self).current_piece,
                self.next_piece == old(self).next_piece,
                self.game_over == old(self).game_over,
            decreases removed - i,
        {
            proof {
                lemma_after_lines(l0, lv0, i as nat);
            }
            self.increase_line();
            i += 1;
        }
        proof {
            lemma_after_lines(l0, lv0, removed as nat);
        }
    }

    /// Locks the falling piece (if any) into the board, scores it at the
    /// current level, clears complete rows and leaves no falling piece. Cells
    /// of the piece that fall outside the board are skipped.
    pub fn make_permanent(&mut self)
        requires
            board_wf(old(self).board()),
            1 <= old(self).current_level,
            old(self).current_piece matches Some(p) ==> p.wf(),
        ensures
            board_wf(final(self).board()),
            1 <= final(self).current_level,
            old(self).wf() ==> final(self).wf(),
            settled(*old(self), *final(self)),
            progressed(*old(self), *final(self)),
    {
        let mut to_add: u64 = 0;
        if let Some(piece) = self.current_piece {
            lock_piece(&mut self.game_map, &piece);
            to_add = self.current_level as u64;
        }
        self.update_score(to_add);
        self.check_lines();
        self.current_piece = None;
    }

    /// Brings the next piece into play when no piece is falling and the game
    /// is not over. If it does not fit where it appears, the game is over: the
    /// piece is dropped and the board is left as it is. Otherwise a piece of
    /// shape `fresh_kind` becomes the next one.
    pub fn spawn(&mut self, fresh_kind: u8)
        requires
            old(self).wf(),
            fresh_kind < NUM_KINDS,
        ensures
            final(self).wf(),
            progressed(*old(self), *final(self)),
            ({
                let o = *old(self);
                match (o.game_over, o.current_piece, o.next_piece) {
                    (false, None, Some(p)) => if p.fits_on(o.board()) {
                        *final(self) == (Tetris {
                            current_piece: Some(p),
                            next_piece: Some(fresh(fresh_kind)),
                            ..o
                        })
                    } else {
                        *final(self) == (Tetris { game_over: true, next_piece: None, ..o })
                    },
                    _ => *final(self) == o,
                }
            }),
    {
        if self.game_over || self.current_piece.is_some() {
            return;
        }
        match self.next_piece {
            Some(piece) => {
                if piece.test_current_position(&self.game_map) {
                    self.current_piece = Some(piece);
                    self.next_piece = Some(Tetrimino::new(fresh_kind));
                } else {
                    self.next_piece = None;
                    self.game_over = true;
                }
            },
            None => {},
        }
    }

    /// Plays `mv` on the falling piece. `Left`, `Right` and `Rotate` change it
    /// only where the result fits. `Down` moves it one row where that fits and
    /// locks it otherwise. `Drop` lets it fall as far as it goes and locks it.
    /// Returns whether the piece was locked. Without a falling piece nothing
    /// changes.
    pub fn apply(&mut self, mv: Move) -> (done: bool)
        requires
            old(self).wf(),
        ensures
            final(self).wf(),
            progressed(*old(self), *final(self)),
            ({
                let o = *old(self);
                let g = o.board();
                match o.current_piece {
                    None => *final(self) == o && !done,
                    Some(p) => match mv {
                        Move::Left => !done && *final(self) == o.with_piece(shifted(p, g, -1, 0)),
                        Move::Right => !done && *final(self) == o.with_piece(shifted(p, g, 1, 0)),
                        Move::Rotate => !done && *final(self) == o.with_piece(rotated(p, g)),
                        Move::Down => if p.can_shift(g, 0, 1) {
                            !done && *final(self) == o.with_piece(shifted(p, g, 0, 1))
                        } else {
                            done && settled(o, *final(self))
                        },
                        Move::Drop => done && settled(
                            o.with_piece(p.at(p.x, p.landing(g) as usize)),
                            *final(self),
                        ),
                    },
                }
            }),
    {
        let ghost g = self.board();
        let mut piece = match self.current_piece {
            Some(p) => p,
            None => {
                return false;
            },
        };
        proof {
            lemma_drop_row_bounds(g, piece.kind, piece.current_state, piece.x as int, piece.y as int);
        }
        match mv {
            Move::Left => {
                piece.try_move(&self.game_map, -1, 0);
                self.current_piece = Some(piece);
                false
            },
            Move::Right => {
                piece.try_move(&self.game_map, 1, 0);
                self.current_piece = Some(piece);
                false
            },
            Move::Rotate => {
                piece.try_rotate(&self.game_map);
                self.current_piece = Some(piece);
                false
            },
            Move::Down => {
                if piece.try_move(&self.game_map, 0, 1) {
                    self.current_piece = Some(piece);
                    false
                } else {
                    self.make_permanent();
                    true
                }
            },
            Move::Drop => {
                proof {
                    lemma_landing_fits(g, piece);
                }
                piece.hard_drop(&self.game_map);
                self.current_piece = Some(piece);
                self.make_permanent();
                true
            },
        }
    }

    /// Ends the game: the falling piece is dropped without being locked and
    /// the counters stay as they are.
    pub fn end_game(&mut self)
        requires
            old(self).wf(),
        ensures
            final(self).wf(),
            *final(self) == (Tetris { game_over: true, current_piece: None, ..*old(self) }),
            progressed(*old(self), *final(self)),
    {
        self.current_piece = None;
        self.game_over = true;
    }

    /// Once the game is over, starts a new one whose next piece has shape
    /// `next_kind`; before that, does nothing.
    pub fn restart(&mut self, next_kind: u8)
        requires
            old(self).wf(),
            next_kind < NUM_KINDS,
        ensures
            final(self).wf(),
            old(self).game_over ==> {
                &&& final(self).board() == Seq::new(ROWS as nat, |i: int| empty_row())
                &&& !final(self).game_over
                &&& final(self).current_level == 1
                &&& final(self).score == 0
                &&& final(self).nb_lines == 0
                &&& final(self).current_piece is None
                &&& final(self).next_piece == Some(fresh(next_kind))
            },
            !old(self).game_over ==> *final(self) == *old(self),
    {
        if self.game_over {
            *self = Tetris::start(next_kind);
        }
    }

    /// Whether `elapsed_ms` milliseconds since the last descent are more than
    /// the gravity interval of the current level.
    pub fn is_time_over(&self, elapsed_ms: u64) -> (b: bool)
        ensures
            b == (elapsed_ms > gravity_ms(self.current_level)),
    {
        elapsed_ms > level_time(self.current_level) as u64
    }
}

} // verus!
