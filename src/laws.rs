//! Properties of the transition rule, stated over cell matrices and proved.

use crate::grid::{
    bit, height_of, lemma_wrap_step, live_neighbors, neighbor, next_state, successor, valid,
    width_of, wrap,
};
use vstd::prelude::*;

verus! {

/// A pattern of live cells on the unbounded plane, by `(row, column)`.
pub type Pattern = spec_fn(int, int) -> bool;

/// Whether the live cells of `c` are exactly those of the pattern `p`.
pub open spec fn shows(c: Seq<Seq<bool>>, p: Pattern) -> bool {
    forall|y: int, x: int|
        0 <= y < height_of(c) && 0 <= x < width_of(c) ==> #[trigger] c[y][x] == p(y, x)
}

/// Whether every cell of `p` keeps clear of the first and last row and
/// column of `c`, so that no neighbourhood of a cell of `c` reaches `p`
/// by wrapping around.
pub open spec fn clear_of_edges(c: Seq<Seq<bool>>, p: Pattern) -> bool {
    forall|y: int, x: int|
        #[trigger] p(y, x) ==> 1 <= y <= height_of(c) - 2 && 1 <= x <= width_of(c) - 2
}

/// Number of live cells of `p` among the eight neighbours of `(y, x)` on the
/// unbounded plane.
pub open spec fn plane_neighbors(p: Pattern, y: int, x: int) -> int {
    bit(p(y - 1, x - 1)) + bit(p(y - 1, x)) + bit(p(y - 1, x + 1)) + bit(p(y, x - 1)) + bit(
        p(y, x + 1),
    ) + bit(p(y + 1, x - 1)) + bit(p(y + 1, x)) + bit(p(y + 1, x + 1))
}

/// The successor of a valid matrix is valid and has the same width and
/// height.
pub proof fn lemma_step_keeps_dimensions(c: Seq<Seq<bool>>)
    requires
        valid(c),
    ensures
        valid(successor(c)),
        width_of(successor(c)) == width_of(c),
        height_of(successor(c)) == height_of(c),
{
    let s = successor(c);
    assert(s[0].len() == width_of(c));
    assert forall|y: int| 0 <= y < s.len() implies #[trigger] s[y].len() == s[0].len() by {}
}

/// The transition is a function of the present generation alone: equal
/// generations have equal successors.
pub proof fn lemma_step_deterministic(a: Seq<Seq<bool>>, b: Seq<Seq<bool>>)
    requires
        a == b,
    ensures
        successor(a) == successor(b),
{
}

/// The rule as a table over the neighbour count `n`: a live cell dies with
/// fewer than two or more than three live neighbours and survives with two
/// or three; a dead cell is born with exactly three and stays dead otherwise.
pub proof fn lemma_rule_table(n: int)
    requires
        0 <= n <= 8,
    ensures
        n <= 1 ==> !next_state(true, n),
        2 <= n <= 3 ==> next_state(true, n),
        4 <= n ==> !next_state(true, n),
        n == 3 ==> next_state(false, n),
        n != 3 ==> !next_state(false, n),
{
}

/// The corner cell `(0, 0)` is a neighbour of the three other corners, by
/// wrapping around: when it is alive, it adds one to each of their counts.
pub proof fn lemma_corner_wraps(c: Seq<Seq<bool>>)
    requires
        valid(c),
        c[0][0],
    ensures
        wrap(height_of(c) - 1, 1, height_of(c)) == 0,
        wrap(width_of(c) - 1, 1, width_of(c)) == 0,
        neighbor(c, height_of(c) - 1, width_of(c) - 1, 1, 1) == 1,
        neighbor(c, height_of(c) - 1, 0, 1, 0) == 1,
        neighbor(c, 0, width_of(c) - 1, 0, 1) == 1,
        live_neighbors(c, height_of(c) - 1, width_of(c) - 1) >= 1,
        live_neighbors(c, height_of(c) - 1, 0) >= 1,
        live_neighbors(c, 0, width_of(c) - 1) >= 1,
{
    let h = height_of(c);
    let w = width_of(c);
    lemma_wrap_step(h - 1, 1, h);
    lemma_wrap_step(w - 1, 1, w);
    lemma_wrap_step(0, 0, h);
    lemma_wrap_step(0, 0, w);
    lemma_neighbors_bounded(c, h - 1, w - 1);
    lemma_neighbors_bounded(c, h - 1, 0);
    lemma_neighbors_bounded(c, 0, w - 1);
}

/// Every neighbour of a cell in range lies in range, so each term of the count
/// is 0 or 1.
proof fn lemma_neighbors_bounded(c: Seq<Seq<bool>>, y: int, x: int)
    requires
        valid(c),
        0 <= y < height_of(c),
        0 <= x < width_of(c),
    ensures
        0 <= live_neighbors(c, y, x) <= 8,
{
}

/// On a one-by-one grid all eight neighbours of the single cell are the
/// cell itself: a live cell counts eight live neighbours and dies, a dead
/// cell stays dead.
pub proof fn lemma_single_cell(c: Seq<Seq<bool>>)
    requires
        valid(c),
        height_of(c) == 1,
        width_of(c) == 1,
    ensures
        forall|d: int| -1 <= d <= 1 ==> #[trigger] wrap(0, d, 1) == 0,
        live_neighbors(c, 0, 0) == 8 * bit(c[0][0]),
        !successor(c)[0][0],
{
    assert forall|d: int| -1 <= d <= 1 implies #[trigger] wrap(0, d, 1) == 0 by {
        lemma_wrap_step(0, d, 1);
    }
}

/// A two-by-two block with its top left cell at `(r, k)`.
pub open spec fn block(r: int, k: int) -> Pattern {
    |y: int, x: int| (y == r || y == r + 1) && (x == k || x == k + 1)
}

/// Three cells in row `r`, centred on column `k`.
pub open spec fn bar_across(r: int, k: int) -> Pattern {
    |y: int, x: int| y == r && k - 1 <= x <= k + 1
}

/// Three cells in column `k`, centred on row `r`.
pub open spec fn bar_down(r: int, k: int) -> Pattern {
    |y: int, x: int| x == k && r - 1 <= y <= r + 1
}

/// Where a pattern keeps clear of the edges, one generation takes a matrix
/// showing it to one showing `q`, provided that `q` is what the rule makes of
/// `p` on the unbounded plane at every cell of the matrix.
proof fn lemma_step_shows(c: Seq<Seq<bool>>, p: Pattern, q: Pattern)
    requires
        valid(c),
        shows(c, p),
        clear_of_edges(c, p),
        forall|y: int, x: int|
            0 <= y < height_of(c) && 0 <= x < width_of(c) ==> #[trigger] q(y, x) == next_state(
                p(y, x),
                plane_neighbors(p, y, x),
            ),
    ensures
        valid(successor(c)),
        height_of(successor(c)) == height_of(c),
        width_of(successor(c)) == width_of(c),
        shows(successor(c), q),
{
    lemma_step_keeps_dimensions(c);
    assert forall|y: int, x: int|
        0 <= y < height_of(successor(c)) && 0 <= x < width_of(successor(c)) implies #[trigger] successor(
        c,
    )[y][x] == q(y, x) by {
        lemma_count_on_plane(c, p, y, x);
        assert(c[y][x] == p(y, x));
        assert(q(y, x) == next_state(p(y, x), plane_neighbors(p, y, x)));
    }
}

/// Two matrices of the same size that show the same pattern are equal.
proof fn lemma_shows_unique(a: Seq<Seq<bool>>, b: Seq<Seq<bool>>, p: Pattern)
    requires
        valid(a),
        valid(b),
        height_of(a) == height_of(b),
        width_of(a) == width_of(b),
        shows(a, p),
        shows(b, p),
    ensures
        a == b,
{
    assert forall|y: int| 0 <= y < a.len() implies #[trigger] a[y] == b[y] by {
        assert(a[y].len() == b[y].len());
        assert forall|x: int| 0 <= x < a[y].len() implies a[y][x] == b[y][x] by {
            assert(a[y][x] == p(y, x));
            assert(b[y][x] == p(y, x));
        }
        assert(a[y] =~= b[y]);
    }
    assert(a =~= b);
}

/// A two-by-two block of live cells with dead cells all round, clear of the
/// edges, is left unchanged by a step.
pub proof fn lemma_block_still(c: Seq<Seq<bool>>, r: int, k: int)
    requires
        valid(c),
        1 <= r,
        r + 1 <= height_of(c) - 2,
        1 <= k,
        k + 1 <= width_of(c) - 2,
        shows(c, block(r, k)),
    ensures
        successor(c) == c,
{
    let p = block(r, k);
    assert forall|y: int, x: int| 0 <= y < height_of(c) && 0 <= x < width_of(c) implies #[trigger] p(
        y,
        x,
    ) == next_state(p(y, x), plane_neighbors(p, y, x)) by {}
    lemma_step_shows(c, p, p);
    lemma_shows_unique(successor(c), c, p);
}

/// A horizontal bar of three live cells, clear of the edges with room for
/// the vertical bar through its middle, turns into that vertical bar after
/// one step and back into the horizontal bar after a second.
pub proof fn lemma_bar_oscillates(c: Seq<Seq<bool>>, r: int, k: int)
    requires
        valid(c),
        2 <= r <= height_of(c) - 3,
        2 <= k <= width_of(c) - 3,
        shows(c, bar_across(r, k)),
    ensures
        shows(successor(c), bar_down(r, k)),
        successor(successor(c)) == c,
{
    let p = bar_across(r, k);
    let q = bar_down(r, k);
    assert forall|y: int, x: int| 0 <= y < height_of(c) && 0 <= x < width_of(c) implies #[trigger] q(
        y,
        x,
    ) == next_state(p(y, x), plane_neighbors(p, y, x)) by {}
    lemma_step_shows(c, p, q);
    let s = successor(c);
    assert forall|y: int, x: int| 0 <= y < height_of(s) && 0 <= x < width_of(s) implies #[trigger] p(
        y,
        x,
    ) == next_state(q(y, x), plane_neighbors(q, y, x)) by {}
    lemma_step_shows(s, q, p);
    lemma_step_keeps_dimensions(s);
    lemma_shows_unique(successor(s), c, p);
}

/// Where a pattern keeps clear of the edges, the toroidal count of a matrix
/// showing it equals the count on the unbounded plane.
proof fn lemma_count_on_plane(c: Seq<Seq<bool>>, p: Pattern, y: int, x: int)
    requires
        valid(c),
        shows(c, p),
        clear_of_edges(c, p),
        0 <= y < height_of(c),
        0 <= x < width_of(c),
    ensures
        live_neighbors(c, y, x) == plane_neighbors(p, y, x),
{
    let h = height_of(c);
    let w = width_of(c);
    lemma_wrap_step(y, -1, h);
    lemma_wrap_step(y, 0, h);
    lemma_wrap_step(y, 1, h);
    lemma_wrap_step(x, -1, w);
    lemma_wrap_step(x, 0, w);
    lemma_wrap_step(x, 1, w);
    assert forall|dy: int, dx: int| -1 <= dy <= 1 && -1 <= dx <= 1 implies #[trigger] neighbor(
        c,
        y,
        x,
        dy,
        dx,
    ) == bit(p(y + dy, x + dx)) by {
        lemma_wrap_step(y, dy, h);
        lemma_wrap_step(x, dx, w);
        let wy = wrap(y, dy, h);
        let wx = wrap(x, dx, w);
        assert(c[wy][wx] == p(wy, wx));
        if p(wy, wx) != p(y + dy, x + dx) {
            if p(wy, wx) {
                assert(1 <= wy <= h - 2 && 1 <= wx <= w - 2);
            } else {
                assert(1 <= y + dy <= h - 2 && 1 <= x + dx <= w - 2);
            }
        }
    }
    assert(neighbor(c, y, x, -1, -1) == bit(p(y - 1, x - 1)));
    assert(neighbor(c, y, x, -1, 0) == bit(p(y - 1, x + 0)));
    assert(neighbor(c, y, x, -1, 1) == bit(p(y - 1, x + 1)));
    assert(neighbor(c, y, x, 0, -1) == bit(p(y + 0, x - 1)));
    assert(neighbor(c, y, x, 0, 1) == bit(p(y + 0, x + 1)));
    assert(neighbor(c, y, x, 1, -1) == bit(p(y + 1, x - 1)));
    assert(neighbor(c, y, x, 1, 0) == bit(p(y + 1, x + 0)));
    assert(neighbor(c, y, x, 1, 1) == bit(p(y + 1, x + 1)));
}

} // verus!
