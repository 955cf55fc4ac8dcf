//! The pixel-production order of one render pass: the spiral walk is seeded
//! at the window's center pixel, offsets that fall outside the window are
//! skipped, and the pass produces each window pixel exactly once.  The
//! spiral completeness theorem bounds how far the walk can run before the
//! next in-window pixel appears, which is what makes the skipping loop
//! terminate.

use vstd::prelude::*;

verus! {

use crate::spiral::{
    lemma_spiral_covers,
    lemma_spiral_in_ball,
    lemma_spiral_no_repeats,
    ring,
    spiral_at,
    spiral_index,
    RowAndColumnIterator,
};

/// Whether `p` is a pixel coordinate of a `width` by `height` window.
pub open spec fn in_window(width: int, height: int, p: (int, int)) -> bool {
    0 <= p.0 < height && 0 <= p.1 < width
}

/// The absolute pixel coordinate that position `n` of the spiral reaches
/// when the walk is seeded at the window's center pixel.
pub open spec fn pixel_at(width: int, height: int, n: nat) -> (int, int) {
    let offset = spiral_at(n);
    (offset.0 + height / 2, offset.1 + width / 2)
}

/// Whether position `n` of the spiral lands inside the window.
pub open spec fn hits_window(width: int, height: int, n: nat) -> bool {
    in_window(width, height, pixel_at(width, height, n))
}

/// How many of the first `n` spiral positions land inside the window.
pub open spec fn hits_before(width: int, height: int, n: nat) -> int
    decreases n,
{
    if n == 0 {
        0
    } else {
        hits_before(width, height, (n - 1) as nat) + if hits_window(
            width,
            height,
            (n - 1) as nat,
        ) {
            1int
        } else {
            0int
        }
    }
}

/// Every spiral position up to this bound has been taken by the time the
/// whole window is produced: the window fits inside the Chebyshev ball of
/// radius `width + height` around the seed, and the first
/// `(2(width+height)+1)^2` positions of the spiral cover that ball.
pub open spec fn search_bound(width: int, height: int) -> int {
    (2 * (width + height) + 1) * (2 * (width + height) + 1)
}

/// The set of pixel coordinates of the window.
pub open spec fn window_cells(width: int, height: int) -> Set<(int, int)> {
    Set::new(|p: (int, int)| in_window(width, height, p))
}

/// The set of spiral positions below `n` that land inside the window.
pub open spec fn hit_positions(width: int, height: int, n: int) -> Set<int> {
    Set::new(|i: int| 0 <= i < n && hits_window(width, height, i as nat))
}

proof fn lemma_hits_before_monotonic(width: int, height: int, m: nat, n: nat)
    requires
        m <= n,
    ensures
        hits_before(width, height, m) <= hits_before(width, height, n),
    decreases n,
{
    if m < n {
        lemma_hits_before_monotonic(width, height, m, (n - 1) as nat);
    }
}

proof fn lemma_hits_before_is_len(width: int, height: int, n: nat)
    ensures
        hit_positions(width, height, n as int).finite(),
        hit_positions(width, height, n as int).len() == hits_before(width, height, n),
        hits_before(width, height, n) >= 0,
    decreases n,
{
    broadcast use vstd::set::group_set_axioms;

    if n == 0 {
        assert(hit_positions(width, height, 0) =~= Set::empty());
    } else {
        let m = (n - 1) as nat;
        lemma_hits_before_is_len(width, height, m);
        if hits_window(width, height, m) {
            assert(hit_positions(width, height, n as int) =~= hit_positions(
                width,
                height,
                m as int,
            ).insert(m as int));
        } else {
            assert(hit_positions(width, height, n as int) =~= hit_positions(
                width,
                height,
                m as int,
            ));
        }
    }
}

proof fn lemma_window_cells_size(width: int, height: int)
    requires
        0 <= width,
        0 <= height,
    ensures
        window_cells(width, height).finite(),
        window_cells(width, height).len() == width * height,
    decreases height,
{
    broadcast use vstd::set::group_set_axioms;

    if height == 0 {
        assert(window_cells(width, 0) =~= Set::empty());
    } else {
        lemma_window_cells_size(width, height - 1);
        let last_row = Set::new(|p: (int, int)| p.0 == height - 1 && 0 <= p.1 < width);
        let to_cell = |c: int| (height - 1, c);
        vstd::set_lib::lemma_int_range(0, width);
        assert forall|p: (int, int)| last_row.contains(p) implies vstd::set_lib::set_int_range(
            0,
            width,
        ).map(to_cell).contains(p) by {
            assert(vstd::set_lib::set_int_range(0, width).contains(p.1) && p == to_cell(p.1));
        }
        assert(vstd::set_lib::set_int_range(0, width).map(to_cell) =~= last_row);
        vstd::set_lib::lemma_map_size(
            vstd::set_lib::set_int_range(0, width),
            last_row,
            to_cell,
        );
        assert(window_cells(width, height - 1).disjoint(last_row));
        vstd::set_lib::lemma_set_disjoint_lens(window_cells(width, height - 1), last_row);
        assert(window_cells(width, height - 1) + last_row =~= window_cells(width, height));
        assert(width * (height - 1) + width == width * height) by (nonlinear_arith);
    }
}

/// By the time the spiral has run through `search_bound` positions, every
/// pixel of the window has appeared exactly once among them.
proof fn lemma_all_hits_found(width: int, height: int)
    requires
        1 <= width,
        1 <= height,
    ensures
        hits_before(width, height, search_bound(width, height) as nat) == width * height,
{
    broadcast use vstd::set::group_set_axioms;

    let radius = width + height;
    let bound = search_bound(width, height);
    let cells = window_cells(width, height);
    let hits = hit_positions(width, height, bound);
    let to_position = |p: (int, int)| spiral_index((p.0 - height / 2, p.1 - width / 2));

    // Every window cell's offset from the seed lies within the ball of
    // radius `width + height`, so `lemma_spiral_covers` applies to it.
    assert forall|p: (int, int)| cells.contains(p) implies {
        &&& ring((p.0 - height / 2, p.1 - width / 2)) <= radius
        &&& 0 <= #[trigger] to_position(p) < bound
        &&& spiral_at(to_position(p) as nat) == (p.0 - height / 2, p.1 - width / 2)
    } by {
        let offset = (p.0 - height / 2, p.1 - width / 2);
        lemma_spiral_covers(radius, offset);
    }

    // The map from a window cell to its spiral position is injective.
    assert forall|p1: (int, int), p2: (int, int)|
        cells.contains(p1) && cells.contains(p2) && #[trigger] to_position(p1)
            == #[trigger] to_position(p2) implies p1 == p2 by {
        let o1 = (p1.0 - height / 2, p1.1 - width / 2);
        let o2 = (p2.0 - height / 2, p2.1 - width / 2);
        lemma_spiral_covers(radius, o1);
        lemma_spiral_covers(radius, o2);
        assert(o1 == o2);
    }

    // The hit positions below the bound are exactly the images of the
    // window cells.
    assert forall|i: int| hits.contains(i) implies cells.map(to_position).contains(i) by {
        let p = pixel_at(width, height, i as nat);
        let offset = spiral_at(i as nat);
        assert(cells.contains(p));
        lemma_spiral_covers(radius, offset);
        lemma_spiral_no_repeats(spiral_index(offset) as nat, i as nat);
        assert(to_position(p) == i);
    }
    assert forall|i: int| cells.map(to_position).contains(i) implies hits.contains(i) by {
        let p = choose|p: (int, int)| cells.contains(p) && i == to_position(p);
        assert(spiral_at(i as nat) == (p.0 - height / 2, p.1 - width / 2));
        assert(pixel_at(width, height, i as nat) == p);
    }
    assert(cells.map(to_position) =~= hits);

    lemma_window_cells_size(width, height);
    vstd::set_lib::lemma_map_size(cells, hits, to_position);
    lemma_hits_before_is_len(width, height, bound as nat);
}

/// While fewer than `width * height` window pixels have been produced, the
/// walk cannot have gone past `search_bound` positions.
proof fn lemma_unfinished_walk_is_short(width: int, height: int, n: nat)
    requires
        1 <= width,
        1 <= height,
        hits_before(width, height, n) < width * height,
    ensures
        n < search_bound(width, height),
{
    lemma_all_hits_found(width, height);
    if n >= search_bound(width, height) {
        lemma_unfinished_walk_nonneg(width, height);
        lemma_hits_before_monotonic(width, height, search_bound(width, height) as nat, n);
    }
}

proof fn lemma_unfinished_walk_nonneg(width: int, height: int)
    requires
        1 <= width,
        1 <= height,
    ensures
        search_bound(width, height) >= 0,
{
    assert((2 * (width + height) + 1) * (2 * (width + height) + 1) >= 0) by (nonlinear_arith);
}

/// One render pass's supply of pixel coordinates: the spiral walk seeded at
/// the window's center pixel, with offsets that fall outside the window
/// skipped.  Calling `next_pixel` `width * height` times produces every
/// pixel of the window exactly once, in spiral order.
pub struct RenderPass {
    pub iterator: RowAndColumnIterator,
    pub width: usize,
    pub height: usize,
    pub pixels_produced: usize,
    pub steps: Ghost<nat>,
}

impl RenderPass {
    /// The pass's invariant: the walk is seeded at the window's center
    /// pixel, `steps` counts the spiral positions taken so far, the
    /// iterator stands on the offset of the last position taken, and
    /// `pixels_produced` counts the positions that landed inside the
    /// window.  The numeric bounds keep the buffer length and the walk's
    /// coordinates within the machine's integer ranges.
    pub open spec fn wf(self) -> bool {
        &&& 1 <= self.width
        &&& 1 <= self.height
        &&& self.width * self.height <= usize::MAX
        &&& 2 * (self.width + self.height) + 2 <= isize::MAX
        &&& self.iterator.start_row == self.height as int / 2
        &&& self.iterator.start_column == self.width as int / 2
        &&& self.iterator.started <==> self.steps@ != 0
        &&& self.iterator.started ==> (self.iterator.row as int, self.iterator.column as int)
            == spiral_at((self.steps@ - 1) as nat)
        &&& self.pixels_produced == hits_before(self.width as int, self.height as int, self.steps@)
    }

    /// A fresh pass over a `width` by `height` window.
    pub fn new(width: usize, height: usize) -> (pass: Self)
        requires
            1 <= width,
            1 <= height,
            width * height <= usize::MAX,
            2 * (width + height) + 2 <= isize::MAX,
        ensures
            pass.wf(),
            pass.width == width,
            pass.height == height,
            pass.pixels_produced == 0,
            pass.steps@ == 0,
    {
        Self {
            iterator: RowAndColumnIterator::new((height / 2) as isize, (width / 2) as isize),
            width,
            height,
            pixels_produced: 0,
            steps: Ghost(0nat),
        }
    }

    /// Advances the walk to its next position inside the window and returns
    /// that pixel coordinate.  The positions skipped on the way are exactly
    /// the ones that fall outside the window, so the result is the first
    /// in-window position at or after the walk's previous position; the
    /// spiral completeness theorem bounds the search, which is why the
    /// skipping loop terminates.
    pub fn next_pixel(&mut self) -> (coordinate: (usize, usize))
        requires
            old(self).wf(),
            old(self).pixels_produced < old(self).width * old(self).height,
        ensures
            final(self).wf(),
            final(self).width == old(self).width,
            final(self).height == old(self).height,
            final(self).pixels_produced == old(self).pixels_produced + 1,
            final(self).steps@ > old(self).steps@,
            coordinate.0 < old(self).height,
            coordinate.1 < old(self).width,
            (coordinate.0 as int, coordinate.1 as int) == pixel_at(
                old(self).width as int,
                old(self).height as int,
                (final(self).steps@ - 1) as nat,
            ),
            hits_window(
                old(self).width as int,
                old(self).height as int,
                (final(self).steps@ - 1) as nat,
            ),
            forall|i: nat|
                old(self).steps@ <= i < final(self).steps@ - 1 ==> !hits_window(
                    old(self).width as int,
                    old(self).height as int,
                    i,
                ),
    {
        loop
            invariant
                self.wf(),
                self.width == old(self).width,
                self.height == old(self).height,
                self.pixels_produced == old(self).pixels_produced,
                self.pixels_produced < self.width * self.height,
                self.steps@ >= old(self).steps@,
                forall|i: nat|
                    old(self).steps@ <= i < self.steps@ ==> !hits_window(
                        self.width as int,
                        self.height as int,
                        i,
                    ),
            decreases search_bound(self.width as int, self.height as int) - self.steps@,
        {
            proof {
                lemma_unfinished_walk_is_short(
                    self.width as int,
                    self.height as int,
                    self.steps@,
                );
                if self.iterator.started {
                    lemma_spiral_in_ball(
                        (self.width + self.height) as int,
                        (self.steps@ - 1) as nat,
                    );
                }
            }
            let ghost previous_steps = self.steps@;
            let (row, column) = self.iterator.next();
            proof {
                self.steps@ = previous_steps + 1;
                assert((self.iterator.row as int, self.iterator.column as int) == spiral_at(
                    previous_steps,
                ));
            }
            if row >= 0 && column >= 0 && (row as usize) < self.height && (column as usize)
                < self.width {
                self.pixels_produced = self.pixels_produced + 1;
                return (row as usize, column as usize);
            }
        }
    }
}

} // verus!
