//! The center-outward spiral enumeration of pixel coordinates, with a proof
//! that the spiral visits every offset of the integer lattice exactly once:
//! its first `(2r+1)^2` offsets are precisely the offsets of Chebyshev
//! distance at most `r` from the origin, for every `r`.

use vstd::prelude::*;

verus! {

/// Absolute value of a mathematical integer.
pub open spec fn iabs(x: int) -> int {
    if x < 0 {
        -x
    } else {
        x
    }
}

/// The Chebyshev radius of an offset: the index of the square ring of the
/// spiral on which the offset lies.
pub open spec fn ring(p: (int, int)) -> int {
    if iabs(p.0) >= iabs(p.1) {
        iabs(p.0)
    } else {
        iabs(p.1)
    }
}

/// One step of the square-ring spiral walk: from an offset `(row, column)`
/// to the offset visited next.  The walk starts at the origin and traces
/// each square ring with one continuous edge walk: up the right edge, left
/// along the top, down the left edge, right along the bottom, and then one
/// more step right onto the next ring.  The case analysis is total: every
/// offset of the lattice falls under exactly one arm.
pub open spec fn spiral_step(p: (int, int)) -> (int, int) {
    let r = p.0;
    let c = p.1;
    if r == 0 && c == 0 {
        (r, c + 1)  // go right
    } else if r == c && c > 0 {
        (r, c + 1)  // go right
    } else if r == c {
        (r + 1, c)  // go down
    } else if r == -c && c > 0 {
        (r, c - 1)  // go left
    } else if r == -c {
        (r, c + 1)  // go right
    } else if c > 0 && c > iabs(r) {
        (r - 1, c)  // go up
    } else if c < 0 && -c > iabs(r) {
        (r + 1, c)  // go down
    } else if r > 0 && r > iabs(c) {
        (r, c + 1)  // go right
    } else {
        (r, c - 1)  // go left; here r < 0 and -r > iabs(c)
    }
}

/// The offset that the spiral visits `n` steps after the origin.
pub open spec fn spiral_at(n: nat) -> (int, int)
    decreases n,
{
    if n == 0 {
        (0, 0)
    } else {
        spiral_step(spiral_at((n - 1) as nat))
    }
}

/// The position of an offset along the spiral, in closed form.  Ring `k > 0`
/// occupies positions `(2k-1)^2` through `(2k-1)^2 + 8k - 1`: 2k positions
/// on the right edge walked upward, then 2k on the top edge walked leftward,
/// then 2k on the left edge walked downward, then 2k on the bottom edge
/// walked rightward.
pub open spec fn spiral_index(p: (int, int)) -> int {
    let k = ring(p);
    let base = (2 * k - 1) * (2 * k - 1);
    if k == 0 {
        0
    } else if p.1 == k && p.0 < k {
        base + (k - 1 - p.0)
    } else if p.0 == -k {
        base + 2 * k + (k - 1 - p.1)
    } else if p.1 == -k {
        base + 4 * k + (k - 1 + p.0)
    } else {
        base + 6 * k + (k - 1 + p.1)
    }
}

/// The offset that the spiral visits just before `p`, for `p` other than
/// the origin.
pub open spec fn spiral_prev(p: (int, int)) -> (int, int) {
    let k = ring(p);
    if p.1 == k && p.0 == k - 1 {
        (p.0, p.0)  // the ring was entered by the step right from (k-1, k-1)
    } else if p.1 == k && p.0 < k {
        (p.0 + 1, p.1)  // moving up the right edge
    } else if p.0 == -k {
        (p.0, p.1 + 1)  // moving left along the top edge
    } else if p.1 == -k {
        (p.0 - 1, p.1)  // moving down the left edge
    } else {
        (p.0, p.1 - 1)  // moving right along the bottom edge; here p.0 == k
    }
}

/// Each spiral step advances the closed-form position by one.
proof fn lemma_step_index(p: (int, int))
    ensures
        spiral_index(spiral_step(p)) == spiral_index(p) + 1,
{
    let r = p.0;
    let c = p.1;
    let k = ring(p);
    let q = spiral_step(p);
    if r == c && c > 0 {
        // (k, k) -> (k, k + 1): from the last position of ring k to the
        // first position of ring k + 1
        assert(ring(q) == k + 1);
        assert((2 * (k + 1) - 1) * (2 * (k + 1) - 1) == (2 * k - 1) * (2 * k - 1) + 8 * k)
            by (nonlinear_arith);
    }
}

/// A spiral position is never negative, and is zero only at the origin.
proof fn lemma_index_nonneg(p: (int, int))
    ensures
        spiral_index(p) >= 0,
        p != (0int, 0int) ==> spiral_index(p) >= 1,
{
    let k = ring(p);
    if k > 0 {
        assert((2 * k - 1) * (2 * k - 1) >= 1) by (nonlinear_arith)
            requires
                k > 0,
        ;
    }
}

/// The spiral step goes from `spiral_prev(p)` to `p`.
proof fn lemma_step_prev(p: (int, int))
    requires
        p != (0int, 0int),
    ensures
        spiral_step(spiral_prev(p)) == p,
{
}

/// Starting from the origin, following the spiral for `spiral_index(p)`
/// steps arrives exactly at `p`.
proof fn lemma_at_index(p: (int, int))
    ensures
        spiral_at(spiral_index(p) as nat) == p,
    decreases spiral_index(p),
{
    lemma_index_nonneg(p);
    if p != (0int, 0int) {
        let q = spiral_prev(p);
        lemma_step_prev(p);
        lemma_step_index(q);
        lemma_index_nonneg(q);
        assert(spiral_index(p) == spiral_index(q) + 1);
        lemma_at_index(q);
        assert(spiral_at(spiral_index(p) as nat) == spiral_step(spiral_at(spiral_index(q) as nat)));
    }
}

/// Following the spiral for `n` steps arrives at an offset whose closed-form
/// position is exactly `n`.
proof fn lemma_index_at(n: nat)
    ensures
        spiral_index(spiral_at(n)) == n,
    decreases n,
{
    if n > 0 {
        lemma_index_at((n - 1) as nat);
        lemma_step_index(spiral_at((n - 1) as nat));
    }
}

/// The closed-form position of an offset, bounded by its ring: ring `k > 0`
/// occupies positions `(2k-1)^2` through `(2k-1)^2 + 8k - 1`.
proof fn lemma_index_ring_bounds(p: (int, int))
    ensures
        ring(p) == 0 ==> spiral_index(p) == 0,
        ring(p) > 0 ==> (2 * ring(p) - 1) * (2 * ring(p) - 1) <= spiral_index(p) <= (2 * ring(p)
            - 1) * (2 * ring(p) - 1) + 8 * ring(p) - 1,
{
}

proof fn lemma_odd_square_monotonic(a: int, b: int)
    by (nonlinear_arith)
    requires
        0 <= a <= b,
    ensures
        (2 * a + 1) * (2 * a + 1) <= (2 * b + 1) * (2 * b + 1),
{
}

/// Spiral completeness, part 1: each of the first `(2r+1)^2` offsets of the
/// spiral lies within Chebyshev distance `r` of the origin.
pub proof fn lemma_spiral_in_ball(r: int, n: nat)
    requires
        0 <= r,
        n < (2 * r + 1) * (2 * r + 1),
    ensures
        ring(spiral_at(n)) <= r,
{
    let p = spiral_at(n);
    let k = ring(p);
    lemma_index_at(n);
    lemma_index_ring_bounds(p);
    if k > r {
        // the position of p would be at least (2k-1)^2 >= (2r+1)^2 > n
        lemma_odd_square_monotonic(r, k - 1);
        assert(false);
    }
}

/// Spiral completeness, part 2: every offset within Chebyshev distance `r`
/// of the origin appears among the first `(2r+1)^2` offsets of the spiral,
/// namely at position `spiral_index(p)`.
pub proof fn lemma_spiral_covers(r: int, p: (int, int))
    requires
        0 <= r,
        ring(p) <= r,
    ensures
        0 <= spiral_index(p) < (2 * r + 1) * (2 * r + 1),
        spiral_at(spiral_index(p) as nat) == p,
{
    lemma_index_nonneg(p);
    lemma_at_index(p);
    lemma_index_ring_bounds(p);
    let k = ring(p);
    if k == 0 {
        assert(1 <= (2 * r + 1) * (2 * r + 1)) by (nonlinear_arith)
            requires
                r >= 0,
        ;
    } else {
        // the position is at most (2k-1)^2 + 8k - 1 == (2k+1)^2 - 1
        assert((2 * k - 1) * (2 * k - 1) + 8 * k == (2 * k + 1) * (2 * k + 1)) by (nonlinear_arith);
        lemma_odd_square_monotonic(k, r);
    }
}

/// Spiral completeness, part 3: the spiral never visits an offset twice.
pub proof fn lemma_spiral_no_repeats(m: nat, n: nat)
    requires
        spiral_at(m) == spiral_at(n),
    ensures
        m == n,
{
    lemma_index_at(m);
    lemma_index_at(n);
}

/// An enumerator of pixel coordinates that starts at
/// `(start_row, start_column)` and walks outward along the square spiral.
/// The offsets it produces, in order, are `spiral_at(0)`, `spiral_at(1)`,
/// and so on, each shifted by the starting coordinate.
pub struct RowAndColumnIterator {
    pub started: bool,
    pub start_row: isize,
    pub start_column: isize,
    pub row: isize,
    pub column: isize,
}

impl RowAndColumnIterator {
    /// A fresh enumerator centered on `(start_row, start_column)`.
    pub fn new(start_row: isize, start_column: isize) -> (it: Self)
        ensures
            it == (RowAndColumnIterator {
                started: false,
                start_row: start_row,
                start_column: start_column,
                row: 0,
                column: 0,
            }),
    {
        Self { started: false, start_row: start_row, start_column: start_column, row: 0, column: 0 }
    }

    /// Advances to the next offset of the spiral (the origin itself on the
    /// first call) and returns it shifted by `(start_row, start_column)`.
    /// The preconditions only keep the machine arithmetic in range; the case
    /// analysis itself is total, so no state of the walk is ever stuck.
    pub fn next(&mut self) -> (coordinate: (isize, isize))
        requires
            old(self).started ==> isize::MIN < old(self).row < isize::MAX,
            old(self).started ==> isize::MIN < old(self).column < isize::MAX,
            old(self).started ==> isize::MIN <= old(self).row - 1 + old(self).start_row,
            old(self).started ==> old(self).row + 1 + old(self).start_row <= isize::MAX,
            old(self).started ==> isize::MIN <= old(self).column - 1 + old(self).start_column,
            old(self).started ==> old(self).column + 1 + old(self).start_column <= isize::MAX,
        ensures
            final(self).started,
            final(self).start_row == old(self).start_row,
            final(self).start_column == old(self).start_column,
            !old(self).started ==> final(self).row == 0 && final(self).column == 0,
            old(self).started ==> (final(self).row as int, final(self).column as int)
                == spiral_step((old(self).row as int, old(self).column as int)),
            coordinate.0 == final(self).row + final(self).start_row,
            coordinate.1 == final(self).column + final(self).start_column,
    {
        if !self.started {
            self.row = 0;
            self.column = 0;
            self.started = true;
        } else {
            let row = self.row;
            let column = self.column;
            if row == 0 && column == 0 {
                self.column = column + 1;  // go right
            } else if row == column {
                if column > 0 {
                    self.column = column + 1;  // go right
                } else {
                    self.row = row + 1;  // go down
                }
            } else if row == -column {
                if column > 0 {
                    self.column = column - 1;  // go left
                } else {
                    self.column = column + 1;  // go right
                }
            } else if column > 0 && column > row && column > -row {
                self.row = row - 1;  // go up
            } else if column < 0 && -column > row && -column > -row {
                self.row = row + 1;  // go down
            } else if row > 0 && row > column && row > -column {
                self.column = column + 1;  // go right
            } else {
                self.column = column - 1;  // go left
            }
        }

        (self.row + self.start_row, self.column + self.start_column)
    }
}

} // verus!
