use vstd::prelude::*;

use crate::board::{board_wf, can_place, fits, grid, ROWS};

verus! {

/// Number of distinct tetrimino shapes.
pub const NUM_KINDS: u8 = 7;

/// Every rotation state is drawn inside a 4x4 box. Cell (row, col) of a state
/// is bit `4 * row + col` of its mask.
pub const BOX: usize = 4;

pub const I_0: u16 = 0x000F;
pub const I_1: u16 = 0x2222;
pub const J_0: u16 = 0x0017;
pub const J_1: u16 = 0x0223;
pub const J_2: u16 = 0x0740;
pub const J_3: u16 = 0x0311;
pub const L_0: u16 = 0x0047;
pub const L_1: u16 = 0x0322;
pub const L_2: u16 = 0x0710;
pub const L_3: u16 = 0x0113;
pub const O_0: u16 = 0x0033;
pub const S_0: u16 = 0x0036;
pub const S_1: u16 = 0x0462;
pub const Z_0: u16 = 0x0063;
pub const Z_1: u16 = 0x0264;
pub const T_0: u16 = 0x0027;
pub const T_1: u16 = 0x0232;
pub const T_2: u16 = 0x0072;
pub const T_3: u16 = 0x0262;

/// How many rotation states the shape `kind` has (I, J, L, O, S, Z, T).
pub open spec fn num_states(kind: u8) -> u8 {
    match kind {
        0 => 2,
        1 => 4,
        2 => 4,
        3 => 1,
        4 => 2,
        5 => 2,
        _ => 4,
    }
}

/// The bitmap of rotation state `state` of shape `kind`.
pub open spec fn state_mask(kind: u8, state: u8) -> u16 {
    match (kind, state) {
        (0, 0) => I_0,
        (0, _) => I_1,
        (1, 0) => J_0,
        (1, 1) => J_1,
        (1, 2) => J_2,
        (1, _) => J_3,
        (2, 0) => L_0,
        (2, 1) => L_1,
        (2, 2) => L_2,
        (2, _) => L_3,
        (3, _) => O_0,
        (4, 0) => S_0,
        (4, _) => S_1,
        (5, 0) => Z_0,
        (5, _) => Z_1,
        (_, 0) => T_0,
        (_, 1) => T_1,
        (_, 2) => T_2,
        (_, _) => T_3,
    }
}

/// Whether cell (`r`, `c`) of the 4x4 box of a rotation state is occupied.
pub open spec fn occupied(kind: u8, state: u8, r: int, c: int) -> bool {
    &&& 0 <= r < BOX
    &&& 0 <= c < BOX
    &&& (state_mask(kind, state) >> ((4 * r + c) as u16)) & 1u16 == 1u16
}

/// The material id written into the board for a locked piece of shape `kind`.
pub open spec fn material(kind: u8) -> u8 {
    (kind + 1) as u8
}

/// Number of rotation states of a shape.
#[verifier::when_used_as_spec(num_states)]
pub fn state_count(kind: u8) -> (n: u8)
    ensures
        n == num_states(kind),
        1 <= n <= 4,
{
    match kind {
        0 => 2,
        1 => 4,
        2 => 4,
        3 => 1,
        4 => 2,
        5 => 2,
        _ => 4,
    }
}

/// The bitmap of one rotation state.
pub fn rotation_mask(kind: u8, state: u8) -> (m: u16)
    ensures
        m == state_mask(kind, state),
{
    match (kind, state) {
        (0, 0) => I_0,
        (0, _) => I_1,
        (1, 0) => J_0,
        (1, 1) => J_1,
        (1, 2) => J_2,
        (1, _) => J_3,
        (2, 0) => L_0,
        (2, 1) => L_1,
        (2, 2) => L_2,
        (2, _) => L_3,
        (3, _) => O_0,
        (4, 0) => S_0,
        (4, _) => S_1,
        (5, 0) => Z_0,
        (5, _) => Z_1,
        (_, 0) => T_0,
        (_, 1) => T_1,
        (_, 2) => T_2,
        (_, _) => T_3,
    }
}

/// Whether cell (`r`, `c`) of a rotation state is occupied.
pub fn is_occupied(kind: u8, state: u8, r: usize, c: usize) -> (b: bool)
    requires
        r < BOX,
        c < BOX,
    ensures
        b == occupied(kind, state, r as int, c as int),
{
    let mask = rotation_mask(kind, state);
    let bit = (4 * r + c) as u16;
    (mask >> bit) & 1u16 == 1u16
}

/// A live piece: its shape, its rotation state and the board position of the
/// top-left corner of its 4x4 box.
#[derive(Clone, Copy, Debug, PartialEq, Eq, Structural)]
pub struct Tetrimino {
    pub kind: u8,
    pub current_state: u8,
    pub x: isize,
    pub y: usize,
}

/// A new piece of shape `kind`: first rotation state, box corner at column 4
/// of the top row.
pub open spec fn fresh(kind: u8) -> Tetrimino {
    Tetrimino { kind, current_state: 0, x: 4, y: 0 }
}

impl Tetrimino {
    /// A piece names an existing shape and one of its rotation states.
    pub open spec fn wf(&self) -> bool {
        &&& self.kind < NUM_KINDS
        &&& self.current_state < num_states(self.kind)
    }

    /// Cell (`r`, `c`) of the piece's 4x4 box is occupied.
    pub open spec fn occupies(&self, r: int, c: int) -> bool {
        occupied(self.kind, self.current_state, r, c)
    }

    /// A fresh piece of shape `kind` in its first rotation state, at the
    /// spawn position near the top middle of the board.
    pub fn new(kind: u8) -> (p: Tetrimino)
        requires
            kind < NUM_KINDS,
        ensures
            p.wf(),
            p == fresh(kind),
    {
        Tetrimino { kind, current_state: 0, x: 4, y: 0 }
    }

    /// The material id of this piece.
    pub fn material(&self) -> (m: u8)
        requires
            self.wf(),
        ensures
            m == material(self.kind),
            1 <= m <= NUM_KINDS,
    {
        self.kind + 1
    }
}

/// The row where a piece at (`x`, `y`) comes to rest when it falls straight
/// down one row at a time.
pub open spec fn drop_row(g: Seq<Seq<u8>>, kind: u8, state: u8, x: int, y: int) -> int
    decreases ROWS - y,
{
    if y + 1 < ROWS && fits(g, kind, state, x, y + 1) {
        drop_row(g, kind, state, x, y + 1)
    } else {
        y
    }
}

/// A piece never lands above where it starts, nor below the last row unless
/// it starts there.
pub proof fn lemma_drop_row_bounds(g: Seq<Seq<u8>>, kind: u8, state: u8, x: int, y: int)
    ensures
        y <= drop_row(g, kind, state, x, y),
        drop_row(g, kind, state, x, y) <= if y < ROWS { (ROWS - 1) as int } else { y },
    decreases ROWS - y,
{
    if y + 1 < ROWS && fits(g, kind, state, x, y + 1) {
        lemma_drop_row_bounds(g, kind, state, x, y + 1);
    }
}

/// A piece that fits where it stands still fits where it lands.
pub proof fn lemma_landing_fits(g: Seq<Seq<u8>>, p: Tetrimino)
    requires
        p.fits_on(g),
    ensures
        fits(g, p.kind, p.current_state, p.x as int, p.landing(g)),
{
    lemma_drop_row_fits(g, p.kind, p.current_state, p.x as int, p.y as int);
}

/// Falling keeps a piece where it fits.
pub proof fn lemma_drop_row_fits(g: Seq<Seq<u8>>, kind: u8, state: u8, x: int, y: int)
    requires
        fits(g, kind, state, x, y),
    ensures
        fits(g, kind, state, x, drop_row(g, kind, state, x, y)),
    decreases ROWS - y,
{
    if y + 1 < ROWS && fits(g, kind, state, x, y + 1) {
        lemma_drop_row_fits(g, kind, state, x, y + 1);
    }
}

impl Tetrimino {
    /// The piece fits the board where it stands.
    pub open spec fn fits_on(&self, g: Seq<Seq<u8>>) -> bool {
        fits(g, self.kind, self.current_state, self.x as int, self.y as int)
    }

    /// The rotation state that follows the current one.
    pub open spec fn next_state(&self) -> u8 {
        ((self.current_state + 1) % (num_states(self.kind) as int)) as u8
    }

    /// The same piece with the corner of its box at (`x`, `y`).
    pub open spec fn at(self, x: isize, y: usize) -> Tetrimino {
        Tetrimino { x, y, ..self }
    }

    /// The same piece in its next rotation state.
    pub open spec fn turned(self) -> Tetrimino {
        Tetrimino { current_state: self.next_state(), ..self }
    }

    /// Moving by (`dx`, `dy`) gives a position that the types can hold and
    /// where the piece fits.
    pub open spec fn can_shift(self, g: Seq<Seq<u8>>, dx: int, dy: int) -> bool {
        &&& isize::MIN <= self.x + dx <= isize::MAX
        &&& 0 <= self.y + dy <= usize::MAX
        &&& fits(g, self.kind, self.current_state, self.x + dx, self.y + dy)
    }

    /// The row where the piece comes to rest if it falls straight down.
    pub open spec fn landing(self, g: Seq<Seq<u8>>) -> int {
        drop_row(g, self.kind, self.current_state, self.x as int, self.y as int)
    }

    /// Whether the piece fits the board where it stands.
    pub fn test_current_position(&self, m: &Vec<Vec<u8>>) -> (b: bool)
        requires
            board_wf(grid(m)),
        ensures
            b == self.fits_on(grid(m)),
    {
        can_place(m, self.kind, self.current_state, self.x, self.y)
    }

    /// Moves the corner of the piece to (`new_x`, `new_y`) if it fits there.
    pub fn change_position(&mut self, m: &Vec<Vec<u8>>, new_x: isize, new_y: usize) -> (b: bool)
        requires
            board_wf(grid(m)),
        ensures
            b == fits(grid(m), old(self).kind, old(self).current_state, new_x as int, new_y as int),
            b ==> *final(self) == old(self).at(new_x, new_y),
            !b ==> *final(self) == *old(self),
    {
        if can_place(m, self.kind, self.current_state, new_x, new_y) {
            self.x = new_x;
            self.y = new_y;
            true
        } else {
            false
        }
    }

    /// Moves the piece by (`dx`, `dy`) if it fits there; otherwise leaves it
    /// as it was.
    pub fn try_move(&mut self, m: &Vec<Vec<u8>>, dx: isize, dy: isize) -> (b: bool)
        requires
            board_wf(grid(m)),
        ensures
            b == old(self).can_shift(grid(m), dx as int, dy as int),
            b ==> *final(self) == old(self).at((old(self).x + dx) as isize, (old(self).y + dy) as usize),
            !b ==> *final(self) == *old(self),
    {
        let nx = self.x.checked_add(dx);
        let ny = self.y.checked_add_signed(dy);
        match (nx, ny) {
            (Some(nx), Some(ny)) => self.change_position(m, nx, ny),
            _ => false,
        }
    }

    /// Turns the piece to its next rotation state if that state fits where
    /// the piece stands; otherwise leaves it as it was. No other position is
    /// tried.
    pub fn try_rotate(&mut self, m: &Vec<Vec<u8>>) -> (b: bool)
        requires
            board_wf(grid(m)),
            old(self).wf(),
        ensures
            b == fits(grid(m), old(self).kind, old(self).next_state(), old(self).x as int, old(self).y as int),
            b ==> *final(self) == old(self).turned(),
            !b ==> *final(self) == *old(self),
            final(self).wf(),
    {
        let count = state_count(self.kind);
        let next = (self.current_state + 1) % count;
        if can_place(m, self.kind, next, self.x, self.y) {
            self.current_state = next;
            true
        } else {
            false
        }
    }

    /// Lets the piece fall row by row while the row below fits, and returns
    /// the row where it stops.
    pub fn hard_drop(&mut self, m: &Vec<Vec<u8>>) -> (y: usize)
        requires
            board_wf(grid(m)),
        ensures
            *final(self) == old(self).at(old(self).x, old(self).landing(grid(m)) as usize),
            y == final(self).y,
            old(self).y <= y,
    {
        let ghost start = *self;
        proof {
            lemma_drop_row_bounds(grid(m), self.kind, self.current_state, self.x as int, self.y as int);
        }
        loop
            invariant
                board_wf(grid(m)),
                self.kind == start.kind,
                self.current_state == start.current_state,
                self.x == start.x,
                start.y <= self.y,
                start.landing(grid(m)) <= usize::MAX,
                self.landing(grid(m)) == start.landing(grid(m)),
            ensures
                self.kind == start.kind,
                self.current_state == start.current_state,
                self.x == start.x,
                self.y == start.landing(grid(m)),
            decreases usize::MAX - self.y,
        {
            if self.y >= ROWS - 1 || !self.try_move(m, 0, 1) {
                assert(self.landing(grid(m)) == self.y);
                break;
            }
        }
        self.y
    }
}

} // verus!
