//! Generation of the bounded square neighbourhood around a grid position.
//!
//! The neighbourhood of a center `c` with radius `w` on a `size x size` grid
//! is every position at Chebyshev distance at most `w` from `c`, clipped to
//! the grid and excluding `c` itself.  The order of the produced sequence is
//! row-major and fully determined by the inputs, since the evaluation order
//! of candidates is observable by the driver.  Near the boundary the
//! neighbourhood is clipped, never wrapped or padded; both axes are clipped
//! by the same rule.

use vstd::prelude::*;

use crate::field::valid_pos;
use crate::field::Position;

verus! {

/// One row of the neighbourhood: positions `(i, j)` for `j` in
/// `[j_lo, j_hi)`, in increasing order of `j`, excluding the center `c`.
pub open spec fn row_seq(i: usize, j_lo: int, j_hi: int, c: Position) -> Seq<Position>
    decreases j_hi - j_lo,
{
    if j_lo >= j_hi {
        Seq::empty()
    } else if i == c.0 && j_lo == c.1 {
        row_seq(i, j_lo + 1, j_hi, c)
    } else {
        seq![(i, j_lo as usize)] + row_seq(i, j_lo + 1, j_hi, c)
    }
}

/// The rows `i` in `[i_lo, i_hi)` of the neighbourhood, concatenated in
/// increasing order of `i` (row-major order overall).
pub open spec fn box_seq(i_lo: int, i_hi: int, j_lo: int, j_hi: int, c: Position) -> Seq<
    Position,
>
    decreases i_hi - i_lo,
{
    if i_lo >= i_hi {
        Seq::empty()
    } else {
        row_seq(i_lo as usize, j_lo, j_hi, c) + box_seq(i_lo + 1, i_hi, j_lo, j_hi, c)
    }
}

/// Lower clipped bound of the coordinate band `[x - w, x + w]`.
pub open spec fn band_lo(x: usize, w: usize) -> int {
    if x >= w {
        x - w
    } else {
        0
    }
}

/// Exclusive upper clipped bound of the coordinate band `[x - w, x + w]`.
pub open spec fn band_hi(x: usize, w: usize, s: usize) -> int {
    if x + w + 1 <= s {
        x + w + 1
    } else {
        s as int
    }
}

/// The full neighbourhood sequence of center `c`, radius `w`, grid size `s`.
pub open spec fn neighbourhood_seq(c: Position, w: usize, s: usize) -> Seq<Position> {
    box_seq(band_lo(c.0, w), band_hi(c.0, w, s), band_lo(c.1, w), band_hi(c.1, w, s), c)
}

/// Chebyshev distance between two grid positions.
pub open spec fn chebyshev(a: Position, b: Position) -> int {
    let dx = if a.0 >= b.0 {
        a.0 - b.0
    } else {
        b.0 - a.0
    };
    let dy = if a.1 >= b.1 {
        a.1 - b.1
    } else {
        b.1 - a.1
    };
    if dx >= dy {
        dx
    } else {
        dy
    }
}

/// Membership in the neighbourhood, stated directly: on the grid, within
/// Chebyshev distance `w` of the center, and not the center itself.
pub open spec fn in_neighbourhood(c: Position, w: usize, s: usize, p: Position) -> bool {
    valid_pos(p, s) && chebyshev(p, c) <= w && p != c
}

/// Appending one more column to a row of the neighbourhood.
proof fn lemma_row_snoc(i: usize, j_lo: int, j: int, c: Position)
    requires
        j_lo <= j <= usize::MAX,
    ensures
        row_seq(i, j_lo, j + 1, c) == row_seq(i, j_lo, j, c) + (if i == c.0 && j == c.1 {
            Seq::<Position>::empty()
        } else {
            seq![(i, j as usize)]
        }),
    decreases j - j_lo,
{
    let tail = if i == c.0 && j == c.1 {
        Seq::<Position>::empty()
    } else {
        seq![(i, j as usize)]
    };
    if j_lo == j {
        assert(row_seq(i, j_lo, j, c) == Seq::<Position>::empty());
        assert(row_seq(i, j + 1, j + 1, c) == Seq::<Position>::empty());
        if i == c.0 && j == c.1 {
            assert(row_seq(i, j, j + 1, c) == row_seq(i, j + 1, j + 1, c));
        } else {
            assert(row_seq(i, j, j + 1, c) == seq![(i, j as usize)] + row_seq(i, j + 1, j + 1, c));
        }
        assert(row_seq(i, j_lo, j + 1, c) =~= row_seq(i, j_lo, j, c) + tail);
    } else {
        lemma_row_snoc(i, j_lo + 1, j, c);
        if i == c.0 && j_lo == c.1 {
            assert(row_seq(i, j_lo, j + 1, c) == row_seq(i, j_lo + 1, j + 1, c));
            assert(row_seq(i, j_lo, j, c) == row_seq(i, j_lo + 1, j, c));
        } else {
            assert(row_seq(i, j_lo, j + 1, c) == seq![(i, j_lo as usize)] + row_seq(
                i,
                j_lo + 1,
                j + 1,
                c,
            ));
            assert(row_seq(i, j_lo, j, c) == seq![(i, j_lo as usize)] + row_seq(
                i,
                j_lo + 1,
                j,
                c,
            ));
        }
        assert(row_seq(i, j_lo, j + 1, c) =~= row_seq(i, j_lo, j, c) + tail);
    }
}

/// Appending one more row to the neighbourhood box.
proof fn lemma_box_snoc(i_lo: int, i: int, j_lo: int, j_hi: int, c: Position)
    requires
        i_lo <= i <= usize::MAX,
    ensures
        box_seq(i_lo, i + 1, j_lo, j_hi, c) == box_seq(i_lo, i, j_lo, j_hi, c) + row_seq(
            i as usize,
            j_lo,
            j_hi,
            c,
        ),
    decreases i - i_lo,
{
    if i_lo == i {
        assert(box_seq(i_lo, i, j_lo, j_hi, c) == Seq::<Position>::empty());
        assert(box_seq(i_lo, i + 1, j_lo, j_hi, c) == row_seq(i_lo as usize, j_lo, j_hi, c)
            + box_seq(i_lo + 1, i + 1, j_lo, j_hi, c));
        assert(box_seq(i_lo + 1, i + 1, j_lo, j_hi, c) == Seq::<Position>::empty());
        assert(box_seq(i_lo, i + 1, j_lo, j_hi, c) =~= box_seq(i_lo, i, j_lo, j_hi, c)
            + row_seq(i as usize, j_lo, j_hi, c));
    } else {
        lemma_box_snoc(i_lo + 1, i, j_lo, j_hi, c);
        assert(box_seq(i_lo, i + 1, j_lo, j_hi, c) == row_seq(i_lo as usize, j_lo, j_hi, c)
            + box_seq(i_lo + 1, i + 1, j_lo, j_hi, c));
        assert(box_seq(i_lo, i, j_lo, j_hi, c) == row_seq(i_lo as usize, j_lo, j_hi, c)
            + box_seq(i_lo + 1, i, j_lo, j_hi, c));
        assert(box_seq(i_lo, i + 1, j_lo, j_hi, c) =~= box_seq(i_lo, i, j_lo, j_hi, c)
            + row_seq(i as usize, j_lo, j_hi, c));
    }
}

/// What a row of the neighbourhood contains.
proof fn lemma_row_contains(i: usize, j_lo: int, j_hi: int, c: Position, p: Position)
    requires
        0 <= j_lo,
        j_hi <= usize::MAX,
    ensures
        row_seq(i, j_lo, j_hi, c).contains(p) <==> (p.0 == i && j_lo <= p.1 < j_hi && p != c),
    decreases j_hi - j_lo,
{
    if j_lo >= j_hi {
    } else {
        lemma_row_contains(i, j_lo + 1, j_hi, c, p);
        let rest = row_seq(i, j_lo + 1, j_hi, c);
        if i == c.0 && j_lo == c.1 {
        } else {
            let whole = seq![(i, j_lo as usize)] + rest;
            assert(row_seq(i, j_lo, j_hi, c) == whole);
            if p.0 == i && j_lo <= p.1 < j_hi && p != c {
                if p.1 == j_lo {
                    assert(whole[0] == p);
                    assert(whole.contains(p));
                } else {
                    let k = choose|k: int| 0 <= k < rest.len() && rest[k] == p;
                    assert(whole[k + 1] == p);
                    assert(whole.contains(p));
                }
            }
            if whole.contains(p) {
                let k = choose|k: int| 0 <= k < whole.len() && whole[k] == p;
                if k == 0 {
                    assert(p == (i, j_lo as usize));
                } else {
                    assert(rest[k - 1] == p);
                    assert(rest.contains(p));
                }
            }
        }
    }
}

/// What the neighbourhood box contains.
proof fn lemma_box_contains(i_lo: int, i_hi: int, j_lo: int, j_hi: int, c: Position, p: Position)
    requires
        0 <= i_lo,
        i_hi <= usize::MAX,
        0 <= j_lo,
        j_hi <= usize::MAX,
    ensures
        box_seq(i_lo, i_hi, j_lo, j_hi, c).contains(p) <==> (i_lo <= p.0 < i_hi && j_lo <= p.1
            < j_hi && p != c),
    decreases i_hi - i_lo,
{
    if i_lo >= i_hi {
    } else {
        lemma_box_contains(i_lo + 1, i_hi, j_lo, j_hi, c, p);
        lemma_row_contains(i_lo as usize, j_lo, j_hi, c, p);
        let row = row_seq(i_lo as usize, j_lo, j_hi, c);
        let rest = box_seq(i_lo + 1, i_hi, j_lo, j_hi, c);
        let whole = row + rest;
        assert(box_seq(i_lo, i_hi, j_lo, j_hi, c) == whole);
        if i_lo <= p.0 < i_hi && j_lo <= p.1 < j_hi && p != c {
            if p.0 == i_lo {
                let k = choose|k: int| 0 <= k < row.len() && row[k] == p;
                assert(whole[k] == p);
                assert(whole.contains(p));
            } else {
                let k = choose|k: int| 0 <= k < rest.len() && rest[k] == p;
                assert(whole[row.len() + k] == p);
                assert(whole.contains(p));
            }
        }
        if whole.contains(p) {
            let k = choose|k: int| 0 <= k < whole.len() && whole[k] == p;
            if k < row.len() {
                assert(row[k] == p);
                assert(row.contains(p));
            } else {
                assert(rest[k - row.len()] == p);
                assert(rest.contains(p));
            }
        }
    }
}

/// Length of a row of the neighbourhood.
proof fn lemma_row_len(i: usize, j_lo: int, j_hi: int, c: Position)
    ensures
        row_seq(i, j_lo, j_hi, c).len() == if j_lo >= j_hi {
            0int
        } else {
            (j_hi - j_lo) - (if i == c.0 && j_lo <= c.1 < j_hi {
                1int
            } else {
                0int
            })
        },
    decreases j_hi - j_lo,
{
    if j_lo >= j_hi {
    } else {
        lemma_row_len(i, j_lo + 1, j_hi, c);
    }
}

/// Length of the neighbourhood box.
proof fn lemma_box_len(i_lo: int, i_hi: int, j_lo: int, j_hi: int, c: Position)
    requires
        0 <= i_lo <= usize::MAX,
        i_hi <= usize::MAX,
    ensures
        box_seq(i_lo, i_hi, j_lo, j_hi, c).len() == if i_lo >= i_hi || j_lo >= j_hi {
            0int
        } else {
            (i_hi - i_lo) * (j_hi - j_lo) - (if i_lo <= c.0 < i_hi && j_lo <= c.1 < j_hi {
                1int
            } else {
                0int
            })
        },
    decreases i_hi - i_lo,
{
    if i_lo >= i_hi {
    } else {
        lemma_box_len(i_lo + 1, i_hi, j_lo, j_hi, c);
        lemma_row_len(i_lo as usize, j_lo, j_hi, c);
        let row = row_seq(i_lo as usize, j_lo, j_hi, c);
        let rest = box_seq(i_lo + 1, i_hi, j_lo, j_hi, c);
        assert(box_seq(i_lo, i_hi, j_lo, j_hi, c) == row + rest);
        assert(box_seq(i_lo, i_hi, j_lo, j_hi, c).len() == row.len() + rest.len());
        let rows = i_hi - i_lo;
        let cols = j_hi - j_lo;
        if j_lo >= j_hi {
            assert(row.len() == 0);
            assert(rest.len() == 0);
        } else if i_lo + 1 >= i_hi {
            assert(rest.len() == 0);
            assert(rows == 1);
            assert(1 * cols == cols) by (nonlinear_arith);
        } else {
            assert((rows - 1) * cols + cols == rows * cols) by (nonlinear_arith);
            assert(rest.len() == (rows - 1) * cols - (if i_lo + 1 <= c.0 < i_hi && j_lo <= c.1
                < j_hi {
                1int
            } else {
                0int
            }));
        }
    }
}

/// The neighbourhood holds exactly the clipped Chebyshev ball minus the
/// center, and its size is at most `(2w + 1)^2 - 1`, with equality when the
/// center is at least `w` away from every edge of the grid.
pub proof fn lemma_neighbourhood_properties(c: Position, w: usize, s: usize)
    requires
        valid_pos(c, s),
    ensures
        forall|p: Position| #[trigger]
            neighbourhood_seq(c, w, s).contains(p) <==> in_neighbourhood(c, w, s, p),
        neighbourhood_seq(c, w, s).len() <= (2 * (w as int) + 1) * (2 * (w as int) + 1) - 1,
        (w <= c.0 && c.0 + w < s && w <= c.1 && c.1 + w < s) ==> neighbourhood_seq(c, w, s).len()
            == (2 * (w as int) + 1) * (2 * (w as int) + 1) - 1,
{
    let i_lo = band_lo(c.0, w);
    let i_hi = band_hi(c.0, w, s);
    let j_lo = band_lo(c.1, w);
    let j_hi = band_hi(c.1, w, s);
    assert forall|p: Position| #[trigger]
        neighbourhood_seq(c, w, s).contains(p) <==> in_neighbourhood(c, w, s, p) by {
        lemma_box_contains(i_lo, i_hi, j_lo, j_hi, c, p);
    }
    lemma_box_len(i_lo, i_hi, j_lo, j_hi, c);
    let rows = i_hi - i_lo;
    let cols = j_hi - j_lo;
    assert(1 <= rows <= 2 * (w as int) + 1);
    assert(1 <= cols <= 2 * (w as int) + 1);
    assert(rows * cols <= (2 * (w as int) + 1) * (2 * (w as int) + 1)) by (nonlinear_arith)
        requires
            1 <= rows <= 2 * (w as int) + 1,
            1 <= cols <= 2 * (w as int) + 1,
    ;
    if w <= c.0 && c.0 + w < s && w <= c.1 && c.1 + w < s {
        assert(rows == 2 * (w as int) + 1);
        assert(cols == 2 * (w as int) + 1);
    }
}

/// On a grid with at least two cells in each axis, no neighbourhood of
/// positive radius is empty.
pub proof fn lemma_neighbourhood_nonempty(c: Position, w: usize, s: usize)
    requires
        valid_pos(c, s),
        w >= 1,
        s >= 2,
    ensures
        neighbourhood_seq(c, w, s).len() > 0,
{
    let i_lo = band_lo(c.0, w);
    let i_hi = band_hi(c.0, w, s);
    let j_lo = band_lo(c.1, w);
    let j_hi = band_hi(c.1, w, s);
    lemma_box_len(i_lo, i_hi, j_lo, j_hi, c);
    let rows = i_hi - i_lo;
    let cols = j_hi - j_lo;
    assert(rows >= 2);
    assert(cols >= 1);
    assert(rows * cols >= 2) by (nonlinear_arith)
        requires
            rows >= 2,
            cols >= 1,
    ;
}

/// Computes the neighbourhood of `c` with radius `w` on a `s x s` grid, in
/// row-major order.
pub fn neighbours(c: Position, w: usize, s: usize) -> (r: Vec<Position>)
    requires
        valid_pos(c, s),
    ensures
        r@ == neighbourhood_seq(c, w, s),
{
    let mut r: Vec<Position> = Vec::new();
    let x_lo: usize = if c.0 >= w {
        c.0 - w
    } else {
        0
    };
    let x_hi: usize = if w < s - c.0 {
        c.0 + w + 1
    } else {
        s
    };
    let y_lo: usize = if c.1 >= w {
        c.1 - w
    } else {
        0
    };
    let y_hi: usize = if w < s - c.1 {
        c.1 + w + 1
    } else {
        s
    };
    assert(x_lo == band_lo(c.0, w) && x_hi == band_hi(c.0, w, s));
    assert(y_lo == band_lo(c.1, w) && y_hi == band_hi(c.1, w, s));
    let mut i: usize = x_lo;
    while i < x_hi
        invariant
            x_lo <= i <= x_hi,
            x_hi <= usize::MAX,
            y_lo <= y_hi <= usize::MAX,
            r@ == box_seq(x_lo as int, i as int, y_lo as int, y_hi as int, c),
        decreases x_hi - i,
    {
        let mut j: usize = y_lo;
        while j < y_hi
            invariant
                x_lo <= i < x_hi,
                x_hi <= usize::MAX,
                y_lo <= j <= y_hi <= usize::MAX,
                r@ == box_seq(x_lo as int, i as int, y_lo as int, y_hi as int, c) + row_seq(
                    i,
                    y_lo as int,
                    j as int,
                    c,
                ),
            decreases y_hi - j,
        {
            proof {
                lemma_row_snoc(i, y_lo as int, j as int, c);
            }
            if i != c.0 || j != c.1 {
                r.push((i, j));
                assert(r@ =~= box_seq(x_lo as int, i as int, y_lo as int, y_hi as int, c)
                    + row_seq(i, y_lo as int, j as int + 1, c));
            } else {
                assert(r@ =~= box_seq(x_lo as int, i as int, y_lo as int, y_hi as int, c)
                    + row_seq(i, y_lo as int, j as int + 1, c));
            }
            j += 1;
        }
        proof {
            lemma_box_snoc(x_lo as int, i as int, y_lo as int, y_hi as int, c);
        }
        assert(r@ =~= box_seq(x_lo as int, i as int + 1, y_lo as int, y_hi as int, c));
        i += 1;
    }
    r
}

} // verus!
