use vstd::prelude::*;

use crate::piece::{is_occupied, material, occupied, Tetrimino, BOX};

verus! {

/// Height of the board, in rows. Row 0 is the top one.
pub const ROWS: usize = 16;

/// Width of the board, in cells.
pub const COLS: usize = 10;

/// The board as a sequence of rows of cell values (0 is empty).
pub open spec fn grid(m: &Vec<Vec<u8>>) -> Seq<Seq<u8>> {
    m@.map_values(|row: Vec<u8>| row@)
}

/// A board has exactly `ROWS` rows of exactly `COLS` cells.
pub open spec fn board_wf(g: Seq<Seq<u8>>) -> bool {
    &&& g.len() == ROWS
    &&& forall|i: int| 0 <= i < g.len() ==> #[trigger] g[i].len() == COLS
}

/// Cell (`r`, `c`) of the piece's box, placed with its corner at (`x`, `y`),
/// is either free in the box or lands on an empty cell inside the board.
pub open spec fn cell_ok(g: Seq<Seq<u8>>, kind: u8, state: u8, x: int, y: int, r: int, c: int) -> bool {
    occupied(kind, state, r, c) ==> {
        &&& 0 <= x + c < COLS
        &&& 0 <= y + r < ROWS
        &&& g[y + r][x + c] == 0
    }
}

/// Rotation state `state` of shape `kind` can stand with its corner at (`x`, `y`).
pub open spec fn fits(g: Seq<Seq<u8>>, kind: u8, state: u8, x: int, y: int) -> bool {
    forall|r: int, c: int| #[trigger] cell_ok(g, kind, state, x, y, r, c)
}

/// The board after the cells of `p` are written into it; cells of the piece
/// that fall outside the board are dropped.
pub open spec fn locked(g: Seq<Seq<u8>>, p: Tetrimino) -> Seq<Seq<u8>> {
    Seq::new(
        g.len(),
        |i: int|
            Seq::new(
                g[i].len(),
                |j: int|
                    if p.occupies(i - p.y, j - p.x) {
                        material(p.kind)
                    } else {
                        g[i][j]
                    },
            ),
    )
}

/// A row is complete when none of its cells is empty.
pub open spec fn complete(row: Seq<u8>) -> bool {
    forall|j: int| 0 <= j < row.len() ==> row[j] != 0
}

/// The rows that are not complete, in their order.
pub open spec fn kept_rows(g: Seq<Seq<u8>>) -> Seq<Seq<u8>>
    decreases g.len(),
{
    if g.len() == 0 {
        Seq::empty()
    } else {
        let k = kept_rows(g.drop_last());
        if complete(g.last()) {
            k
        } else {
            k.push(g.last())
        }
    }
}

/// A row of `COLS` empty cells.
pub open spec fn empty_row() -> Seq<u8> {
    Seq::new(COLS as nat, |j: int| 0u8)
}

/// Number of complete rows.
pub open spec fn complete_count(g: Seq<Seq<u8>>) -> int {
    g.len() - kept_rows(g).len()
}

/// The board once complete rows are removed and empty rows are put on top
/// until it has `ROWS` rows again.
pub open spec fn cleared(g: Seq<Seq<u8>>) -> Seq<Seq<u8>> {
    Seq::new((ROWS - kept_rows(g).len()) as nat, |i: int| empty_row()) + kept_rows(g)
}

/// Points for clearing `g` at `level`: `level` per complete row, and 1000 more
/// when no row is left before the refill.
pub open spec fn clear_score(g: Seq<Seq<u8>>, level: u32) -> int {
    complete_count(g) * level + if kept_rows(g).len() == 0 {
        1000int
    } else {
        0int
    }
}

/// Only rows of `g` are kept, none of them complete, and they keep the
/// board's width.
pub proof fn lemma_kept_rows(g: Seq<Seq<u8>>)
    ensures
        kept_rows(g).len() <= g.len(),
        forall|i: int| 0 <= i < kept_rows(g).len() ==> !complete(#[trigger] kept_rows(g)[i]),
        (forall|i: int| 0 <= i < g.len() ==> #[trigger] g[i].len() == COLS) ==> (forall|i: int|
            0 <= i < kept_rows(g).len() ==> #[trigger] kept_rows(g)[i].len() == COLS),
    decreases g.len(),
{
    if g.len() > 0 {
        lemma_kept_rows(g.drop_last());
        if forall|i: int| 0 <= i < g.len() ==> #[trigger] g[i].len() == COLS {
            assert forall|i: int| 0 <= i < g.drop_last().len() implies #[trigger] g.drop_last()[i].len()
                == COLS by {
                assert(g.drop_last()[i] == g[i]);
            }
        }
    }
}

/// A board without a complete row keeps all its rows.
pub proof fn lemma_kept_rows_none_complete(g: Seq<Seq<u8>>)
    requires
        forall|i: int| 0 <= i < g.len() ==> !complete(#[trigger] g[i]),
    ensures
        kept_rows(g) == g,
    decreases g.len(),
{
    if g.len() > 0 {
        assert forall|i: int| 0 <= i < g.drop_last().len() implies !complete(
            #[trigger] g.drop_last()[i],
        ) by {
            assert(g.drop_last()[i] == g[i]);
        }
        lemma_kept_rows_none_complete(g.drop_last());
        assert(!complete(g[g.len() - 1]));
        assert(g.drop_last().push(g.last()) =~= g);
    }
}

/// The cleared board is well formed again.
pub proof fn lemma_cleared_wf(g: Seq<Seq<u8>>)
    requires
        board_wf(g),
    ensures
        board_wf(cleared(g)),
        kept_rows(g).len() <= ROWS,
{
    lemma_kept_rows(g);
    let c = cleared(g);
    let n = (ROWS - kept_rows(g).len()) as int;
    assert forall|i: int| 0 <= i < c.len() implies #[trigger] c[i].len() == COLS by {
        if i >= n {
            assert(c[i] == kept_rows(g)[i - n]);
        }
    }
}

/// A placement is refused as soon as one occupied cell of the piece falls
/// outside the board's columns, below its last row, or on a filled cell.
pub proof fn lemma_can_place_rejects(g: Seq<Seq<u8>>, kind: u8, state: u8, x: int, y: int, r: int, c: int)
    requires
        occupied(kind, state, r, c),
        !(0 <= x + c < COLS) || !(0 <= y + r < ROWS) || g[y + r][x + c] != 0,
    ensures
        !fits(g, kind, state, x, y),
{
    assert(!cell_ok(g, kind, state, x, y, r, c));
}

/// Clearing a cleared board changes nothing and is worth nothing: once no row
/// is complete, clearing removes no row and scores no point.
pub proof fn lemma_clear_lines_idempotent(g: Seq<Seq<u8>>, level: u32)
    requires
        board_wf(g),
    ensures
        cleared(cleared(g)) == cleared(g),
        complete_count(cleared(g)) == 0,
        clear_score(cleared(g), level) == 0,
{
    lemma_cleared_wf(g);
    lemma_kept_rows(g);
    let c = cleared(g);
    let n = (ROWS - kept_rows(g).len()) as int;
    assert forall|i: int| 0 <= i < c.len() implies !complete(#[trigger] c[i]) by {
        if i < n {
            assert(c[i] == empty_row());
            assert(c[i][0] == 0);
        } else {
            assert(c[i] == kept_rows(g)[i - n]);
        }
    }
    lemma_kept_rows_none_complete(c);
    assert(cleared(c) =~= c);
}

/// Whether every cell of a row is filled.
pub fn row_complete(row: &Vec<u8>) -> (b: bool)
    ensures
        b == complete(row@),
{
    let mut j: usize = 0;
    while j < row.len()
        invariant
            j <= row.len(),
            forall|k: int| 0 <= k < j ==> row@[k] != 0,
        decreases row.len() - j,
    {
        if row[j] == 0 {
            return false;
        }
        j += 1;
    }
    true
}

/// A row of `COLS` empty cells.
pub fn new_row() -> (row: Vec<u8>)
    ensures
        row@ == empty_row(),
{
    let mut row: Vec<u8> = Vec::new();
    let mut j: usize = 0;
    while j < COLS
        invariant
            j <= COLS,
            row@ == Seq::new(j as nat, |k: int| 0u8),
        decreases COLS - j,
    {
        row.push(0);
        j += 1;
        assert(row@ =~= Seq::new(j as nat, |k: int| 0u8));
    }
    row
}

/// An empty board.
pub fn new_board() -> (m: Vec<Vec<u8>>)
    ensures
        grid(&m) == Seq::new(ROWS as nat, |i: int| empty_row()),
        board_wf(grid(&m)),
{
    let mut m: Vec<Vec<u8>> = Vec::new();
    let mut i: usize = 0;
    while i < ROWS
        invariant
            i <= ROWS,
            m@.len() == i,
            forall|k: int| 0 <= k < i ==> (#[trigger] m@[k])@ == empty_row(),
        decreases ROWS - i,
    {
        let row = new_row();
        m.push(row);
        i += 1;
    }
    assert(grid(&m) =~= Seq::new(ROWS as nat, |k: int| empty_row()));
    m
}

/// Whether rotation state `state` of shape `kind` can stand with the corner
/// of its box at (`x`, `y`): every occupied cell must fall inside the board on
/// an empty cell.
pub fn can_place(m: &Vec<Vec<u8>>, kind: u8, state: u8, x: isize, y: usize) -> (b: bool)
    requires
        board_wf(grid(m)),
    ensures
        b == fits(grid(m), kind, state, x as int, y as int),
{
    let ghost g = grid(m);
    let mut r: usize = 0;
    while r < BOX
        invariant
            r <= BOX,
            g == grid(m),
            board_wf(g),
            forall|rr: int, cc: int|
                0 <= rr < r ==> #[trigger] cell_ok(g, kind, state, x as int, y as int, rr, cc),
        decreases BOX - r,
    {
        let mut c: usize = 0;
        while c < BOX
            invariant
                r < BOX,
                c <= BOX,
                g == grid(m),
                board_wf(g),
                forall|rr: int, cc: int|
                    0 <= rr < r ==> #[trigger] cell_ok(g, kind, state, x as int, y as int, rr, cc),
                forall|cc: int|
                    0 <= cc < c ==> #[trigger] cell_ok(g, kind, state, x as int, y as int, r as int, cc),
            decreases BOX - c,
        {
            if is_occupied(kind, state, r, c) {
                if y >= ROWS || r >= ROWS - y || x >= COLS as isize || x < -(BOX as isize) {
                    assert(!cell_ok(g, kind, state, x as int, y as int, r as int, c as int));
                    return false;
                }
                let col = x + c as isize;
                if col < 0 || col >= COLS as isize {
                    assert(!cell_ok(g, kind, state, x as int, y as int, r as int, c as int));
                    return false;
                }
                assert(g[(y + r) as int] == m@[(y + r) as int]@);
                if m[y + r][col as usize] != 0 {
                    assert(!cell_ok(g, kind, state, x as int, y as int, r as int, c as int));
                    return false;
                }
            }
            c += 1;
        }
        assert forall|rr: int, cc: int| 0 <= rr < r + 1 implies #[trigger] cell_ok(
            g,
            kind,
            state,
            x as int,
            y as int,
            rr,
            cc,
        ) by {
            if rr == r && !(0 <= cc < BOX) {
                assert(!occupied(kind, state, rr, cc));
            }
        }
        r += 1;
    }
    assert forall|rr: int, cc: int| #[trigger] cell_ok(g, kind, state, x as int, y as int, rr, cc) by {
        if !(0 <= rr < BOX) {
            assert(!occupied(kind, state, rr, cc));
        }
    }
    true
}

/// Cell (`r`, `c`) of a 4x4 box comes before (`r2`, `c2`) in row-major order.
pub open spec fn before(r: int, c: int, r2: int, c2: int) -> bool {
    r < r2 || (r == r2 && c < c2)
}

/// Writes the material of `p` into every board cell that one of its occupied
/// cells covers. Cells outside the board are skipped.
pub fn lock_piece(m: &mut Vec<Vec<u8>>, p: &Tetrimino)
    requires
        board_wf(grid(old(m))),
        p.wf(),
    ensures
        grid(final(m)) == locked(grid(old(m)), *p),
        board_wf(grid(final(m))),
{
    let ghost g0 = grid(m);
    let id = p.material();
    proof {
        assert forall|i: int| 0 <= i < ROWS implies (#[trigger] m@[i])@ == g0[i] by {}
    }
    let mut r: usize = 0;
    while r < BOX
        invariant
            r <= BOX,
            p.wf(),
            id == material(p.kind),
            board_wf(g0),
            m@.len() == ROWS,
            forall|i: int| 0 <= i < ROWS ==> (#[trigger] m@[i])@.len() == COLS,
            forall|i: int, j: int|
                0 <= i < ROWS && 0 <= j < COLS ==> (#[trigger] m@[i]@[j]) == if p.occupies(i - p.y, j - p.x)
                    && before(i - p.y, j - p.x, r as int, 0) {
                    id
                } else {
                    g0[i][j]
                },
        decreases BOX - r,
    {
        let mut c: usize = 0;
        while c < BOX
            invariant
                r < BOX,
                c <= BOX,
                p.wf(),
                id == material(p.kind),
                board_wf(g0),
                m@.len() == ROWS,
                forall|i: int| 0 <= i < ROWS ==> (#[trigger] m@[i])@.len() == COLS,
                forall|i: int, j: int|
                    0 <= i < ROWS && 0 <= j < COLS ==> (#[trigger] m@[i]@[j]) == if p.occupies(i - p.y, j - p.x)
                        && before(i - p.y, j - p.x, r as int, c as int) {
                        id
                    } else {
                        g0[i][j]
                    },
            decreases BOX - c,
        {
            if is_occupied(p.kind, p.current_state, r, c) && p.y < ROWS && r < ROWS - p.y && p.x
                < COLS as isize && p.x >= -(BOX as isize) {
                let col = p.x + c as isize;
                if 0 <= col && col < COLS as isize {
                    let row = p.y + r;
                    m[row][col as usize] = id;
                }
            }
            c += 1;
        }
        r += 1;
    }
    assert(grid(m) =~~= locked(g0, *p));
}

/// Removes every complete row, then puts empty rows on top until the board
/// has `ROWS` rows again. Returns the number of rows removed and the points
/// they are worth at `level`.
pub fn clear_lines(m: &mut Vec<Vec<u8>>, level: u32) -> (res: (u32, u64))
    requires
        board_wf(grid(old(m))),
    ensures
        grid(final(m)) == cleared(grid(old(m))),
        board_wf(grid(final(m))),
        res.0 == complete_count(grid(old(m))),
        res.1 == clear_score(grid(old(m)), level),
{
    let ghost g0 = grid(m);
    proof {
        lemma_cleared_wf(g0);
    }
    let mut y: usize = 0;
    let mut removed: u32 = 0;
    let ghost mut p: int = 0;
    while y < m.len()
        invariant
            board_wf(g0),
            0 <= p <= ROWS,
            y <= p,
            removed == p - y,
            y == kept_rows(g0.take(p)).len(),
            grid(m) == kept_rows(g0.take(p)) + g0.skip(p),
        decreases m.len() - y,
    {
        proof {
            assert(g0.take(p + 1).drop_last() =~= g0.take(p));
            assert(grid(m)[y as int] == g0[p]);
        }
        let full = row_complete(&m[y]);
        let ghost before_m = grid(m);
        proof {
            assert(g0.take(p + 1).last() == g0[p]);
            assert(g0.skip(p) =~= seq![g0[p]] + g0.skip(p + 1));
        }
        if full {
            m.remove(y);
            removed += 1;
            proof {
                assert(grid(m) =~= before_m.remove(y as int));
                assert(kept_rows(g0.take(p + 1)) == kept_rows(g0.take(p)));
                assert(grid(m) =~= kept_rows(g0.take(p + 1)) + g0.skip(p + 1));
            }
        } else {
            y += 1;
            proof {
                assert(kept_rows(g0.take(p + 1)) == kept_rows(g0.take(p)).push(g0[p]));
                assert(grid(m) =~= kept_rows(g0.take(p + 1)) + g0.skip(p + 1));
            }
        }
        proof {
            p = p + 1;
        }
    }
    proof {
        assert(p == ROWS);
        assert(g0.take(p) =~= g0);
        assert(grid(m) =~= kept_rows(g0));
    }
    assert(removed as u64 * level as u64 <= 16 * 0xffff_ffffu64) by (nonlinear_arith)
        requires
            removed <= 16,
    ;
    let mut score: u64 = removed as u64 * level as u64;
    if m.len() == 0 {
        score = score + 1000;
    }
    let ghost kept = grid(m);
    let mut k: usize = 0;
    while m.len() < ROWS
        invariant
            kept == kept_rows(g0),
            kept.len() <= ROWS,
            m@.len() == k + kept.len(),
            m@.len() <= ROWS,
            grid(m) == Seq::new(k as nat, |i: int| empty_row()) + kept,
        decreases ROWS - m.len(),
    {
        let row = new_row();
        let ghost prev = grid(m);
        m.insert(0, row);
        k += 1;
        assert(grid(m) =~= seq![empty_row()] + prev);
        assert(grid(m) =~= Seq::new(k as nat, |i: int| empty_row()) + kept);
    }
    assert(grid(m) =~= cleared(g0));
    (removed, score)
}

} // verus!
