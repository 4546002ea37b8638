//! Facts about moves and routes on the model of a grid.

use crate::arena::grid::{adjacent, manhattan, neighbour, Cell, GridView};
use vstd::prelude::*;

verus! {

/// The cell at in-range coordinates.
pub open spec fn cell_at(at: (int, int)) -> Cell {
    Cell { x: at.0 as u32, y: at.1 as u32 }
}

/// A cell is a successor of another exactly if it shares an edge with it and
/// is free.
pub proof fn lemma_step_is_free_neighbour(v: GridView, a: Cell, b: Cell)
    requires
        v.wf(),
    ensures
        v.step(a, b) <==> adjacent(a, b) && v.free(b),
{
    reveal(GridView::step);
    let s0 = v.open_at(neighbour(a, 0));
    let s1 = v.open_at(neighbour(a, 1));
    let s2 = v.open_at(neighbour(a, 2));
    let s3 = v.open_at(neighbour(a, 3));
    let all = s0 + s1 + s2 + s3;
    assert(all == v.successors(a));
    if all.contains(b) {
        let i = choose|i: int| 0 <= i < all.len() && all[i] == b;
        assert(s0.contains(b) || s1.contains(b) || s2.contains(b) || s3.contains(b)) by {
            if i < s0.len() {
                assert(s0[i] == b);
            } else if i < s0.len() + s1.len() {
                assert(s1[i - s0.len()] == b);
            } else if i < s0.len() + s1.len() + s2.len() {
                assert(s2[i - s0.len() - s1.len()] == b);
            } else {
                assert(s3[i - s0.len() - s1.len() - s2.len()] == b);
            }
        }
        assert(adjacent(a, b) && v.free(b)) by {
            if s0.contains(b) {
                assert(s0[0] == b);
            } else if s1.contains(b) {
                assert(s1[0] == b);
            } else if s2.contains(b) {
                assert(s2[0] == b);
            } else {
                assert(s3[0] == b);
            }
        }
    }
    if adjacent(a, b) && v.free(b) {
        let k: int = if b.y == a.y + 1 {
            0
        } else if b.x == a.x + 1 {
            1
        } else if b.y == a.y - 1 {
            2
        } else {
            3
        };
        assert(cell_at(neighbour(a, k)) == b);
        assert(v.open_at(neighbour(a, k)) == seq![b]);
        if k == 0 {
            assert(all[0] == b);
        } else if k == 1 {
            assert(all[s0.len() as int] == b);
        } else if k == 2 {
            assert(all[(s0.len() + s1.len()) as int] == b);
        } else {
            assert(all[(s0.len() + s1.len() + s2.len()) as int] == b);
        }
    }
}

/// A route stays a route when cells are freed: on a grid of the same size
/// whose blocked cells are among those of `v`.
pub proof fn lemma_route_survives_freeing(v: GridView, w: GridView, p: Seq<Cell>, from: Cell, to: Cell)
    requires
        v.wf(),
        w.wf(),
        w.size == v.size,
        w.blocked.subset_of(v.blocked),
        v.is_route(p, from, to),
    ensures
        w.is_route(p, from, to),
{
    assert forall|i: int| 0 <= i < p.len() - 1 implies w.step(#[trigger] p[i], p[i + 1]) by {
        assert(v.step(p[i], p[i + 1]));
        lemma_step_is_free_neighbour(v, p[i], p[i + 1]);
        lemma_step_is_free_neighbour(w, p[i], p[i + 1]);
    }
}

/// Every cell of a route but the first is free.
pub proof fn lemma_route_cells_are_free(v: GridView, p: Seq<Cell>, from: Cell, to: Cell, i: int)
    requires
        v.wf(),
        v.is_route(p, from, to),
        1 <= i < p.len(),
    ensures
        v.free(p[i]),
        adjacent(p[i - 1], p[i]),
{
    assert(v.step(p[i - 1], p[i - 1 + 1]));
    lemma_step_is_free_neighbour(v, p[i - 1], p[i]);
}

/// The rest of a route, after its first cell, is a route from its second
/// cell.
pub proof fn lemma_route_tail(v: GridView, p: Seq<Cell>, from: Cell, to: Cell)
    requires
        v.is_route(p, from, to),
        p.len() >= 2,
    ensures
        v.is_route(p.subrange(1, p.len() as int), p[1], to),
        v.step(from, p[1]),
{
    let q = p.subrange(1, p.len() as int);
    assert(v.step(p[0int], p[0int + 1]));
    assert forall|i: int| 0 <= i < q.len() - 1 implies v.step(#[trigger] q[i], q[i + 1]) by {
        assert(v.step(p[i + 1], p[i + 1 + 1]));
    }
}

/// What is left of a shortest route after its first cell is a shortest
/// route from its second cell.
pub proof fn lemma_shortest_route_tail(v: GridView, p: Seq<Cell>, from: Cell, to: Cell)
    requires
        v.is_shortest_route(p, from, to),
        p.len() >= 2,
    ensures
        v.is_shortest_route(p.subrange(1, p.len() as int), p[1], to),
{
    lemma_route_tail(v, p, from, to);
    let rest = p.subrange(1, p.len() as int);
    assert forall|q: Seq<Cell>| #[trigger] v.is_route(q, p[1], to) implies rest.len() <= q.len() by {
        lemma_route_prepend(v, from, q, p[1], to);
        assert(v.is_route(seq![from] + q, from, to));
    }
}

/// A move in front of a route gives a route.
pub proof fn lemma_route_prepend(v: GridView, a: Cell, p: Seq<Cell>, from: Cell, to: Cell)
    requires
        v.is_route(p, from, to),
        v.step(a, from),
    ensures
        v.is_route(seq![a] + p, a, to),
{
    let q = seq![a] + p;
    assert forall|i: int| 0 <= i < q.len() - 1 implies v.step(#[trigger] q[i], q[i + 1]) by {
        if i > 0 {
            assert(q[i] == p[i - 1]);
            assert(v.step(p[i - 1], p[i - 1 + 1]));
        }
    }
}

/// No route is shorter than the count of orthogonal steps between its ends
/// allows: it has at least that many cells, and one more.
pub proof fn law_route_at_least_manhattan(v: GridView, p: Seq<Cell>, from: Cell, to: Cell)
    requires
        v.wf(),
        v.is_route(p, from, to),
    ensures
        p.len() >= manhattan(from, to) + 1,
    decreases p.len(),
{
    if p.len() >= 2 {
        lemma_route_tail(v, p, from, to);
        lemma_step_is_free_neighbour(v, from, p[1]);
        law_route_at_least_manhattan(v, p.subrange(1, p.len() as int), p[1], to);
    }
}

/// The neighbour of `from` that lies one step nearer to `to`: along the
/// columns first, then along the rows.
pub open spec fn toward(from: Cell, to: Cell) -> Cell {
    if from.x < to.x {
        Cell { x: (from.x + 1) as u32, y: from.y }
    } else if from.x > to.x {
        Cell { x: (from.x - 1) as u32, y: from.y }
    } else if from.y < to.y {
        Cell { x: from.x, y: (from.y + 1) as u32 }
    } else if from.y > to.y {
        Cell { x: from.x, y: (from.y - 1) as u32 }
    } else {
        from
    }
}

/// The route that walks along the columns, then along the rows.
pub open spec fn straight_route(from: Cell, to: Cell) -> Seq<Cell>
    decreases manhattan(from, to),
{
    if from == to {
        seq![from]
    } else {
        seq![from] + straight_route(toward(from, to), to)
    }
}

/// On a grid without blocked cells the straight route is a route, and it has
/// one cell more than there are orthogonal steps between its ends.
pub proof fn lemma_straight_route(v: GridView, from: Cell, to: Cell)
    requires
        v.wf(),
        v.blocked =~= Set::<Cell>::empty(),
        v.in_bounds(from),
        v.in_bounds(to),
    ensures
        v.is_route(straight_route(from, to), from, to),
        straight_route(from, to).len() == manhattan(from, to) + 1,
    decreases manhattan(from, to),
{
    if from != to {
        let next = toward(from, to);
        lemma_straight_route(v, next, to);
        lemma_step_is_free_neighbour(v, from, next);
        lemma_route_prepend(v, from, straight_route(next, to), next, to);
    }
}

/// On a grid without blocked cells every cell of the grid is reached from
/// every other, and a shortest route between two of them has exactly one
/// cell more than there are orthogonal steps between them.
pub proof fn law_open_grid_distance(v: GridView, p: Seq<Cell>, from: Cell, to: Cell)
    requires
        v.wf(),
        v.blocked =~= Set::<Cell>::empty(),
        v.in_bounds(from),
        v.in_bounds(to),
    ensures
        v.reachable(from, to),
        v.is_shortest_route(p, from, to) ==> p.len() == manhattan(from, to) + 1,
{
    lemma_straight_route(v, from, to);
    if v.is_shortest_route(p, from, to) {
        law_route_at_least_manhattan(v, p, from, to);
        assert(v.is_route(straight_route(from, to), from, to));
    }
}

/// A sequence that starts outside a set and is inside it at `n` enters it
/// somewhere before.
proof fn lemma_crossing(p: Seq<Cell>, inside: Set<Cell>, n: int) -> (i: int)
    requires
        0 <= n < p.len(),
        !inside.contains(p[0]),
        inside.contains(p[n]),
    ensures
        0 <= i < n,
        !inside.contains(p[i]),
        inside.contains(p[i + 1]),
    decreases n,
{
    if !inside.contains(p[n - 1]) {
        n - 1
    } else {
        lemma_crossing(p, inside, n - 1)
    }
}

/// A barrier seals what it encloses: if `to` lies in a set of cells and
/// `from` outside it, and no free cell of the set shares an edge with a cell
/// outside, then no route leads from `from` to `to`.
pub proof fn law_barrier_blocks_routes(v: GridView, inside: Set<Cell>, from: Cell, to: Cell)
    requires
        v.wf(),
        !inside.contains(from),
        inside.contains(to),
        forall|a: Cell, b: Cell|
            !inside.contains(a) && inside.contains(b) && #[trigger] adjacent(a, b) ==> !v.free(b),
    ensures
        !v.reachable(from, to),
{
    if v.reachable(from, to) {
        let p = choose|p: Seq<Cell>| v.is_route(p, from, to);
        let i = lemma_crossing(p, inside, p.len() - 1);
        lemma_route_cells_are_free(v, p, from, to, i + 1);
        assert(adjacent(p[i], p[i + 1]));
    }
}

/// A cell without successors is sealed: every neighbour of it is blocked or
/// off the grid, so no route reaches it, but from itself or from a cell that
/// shares an edge with it.
pub proof fn law_walled_cell_unreachable(v: GridView, from: Cell, to: Cell)
    requires
        v.wf(),
        v.successors(to).len() == 0,
        from != to,
        !adjacent(from, to),
    ensures
        !v.reachable(from, to),
{
    let inside = Set::new(|c: Cell| c == to || adjacent(c, to));
    assert forall|a: Cell, b: Cell|
        !inside.contains(a) && inside.contains(b) && #[trigger] adjacent(a, b) implies !v.free(
        b,
    ) by {
        assert(b != to);
        lemma_step_is_free_neighbour(v, to, b);
        assert(!v.step(to, b)) by {
            reveal(GridView::step);
        }
    }
    law_barrier_blocks_routes(v, inside, from, to);
}

/// A blocked cell is reached from no other cell.
pub proof fn law_blocked_cell_unreachable(v: GridView, from: Cell, to: Cell)
    requires
        v.wf(),
        !v.free(to),
        from != to,
    ensures
        !v.reachable(from, to),
{
    law_barrier_blocks_routes(v, set![to], from, to);
}

/// Where a route comes to the same cell twice, the cells in between can be
/// left out.
proof fn lemma_route_cut(v: GridView, p: Seq<Cell>, from: Cell, to: Cell, lo: int, hi: int) -> (q: Seq<Cell>)
    requires
        v.is_route(p, from, to),
        0 <= lo < hi < p.len(),
        p[lo] == p[hi],
    ensures
        v.is_route(q, from, to),
        q.len() < p.len(),
{
    let head = p.subrange(0, lo + 1);
    let rest = p.subrange(hi + 1, p.len() as int);
    let q = head + rest;
    assert(q.len() == p.len() - (hi - lo));
    assert forall|k: int| 0 <= k < q.len() - 1 implies v.step(#[trigger] q[k], q[k + 1]) by {
        if k < lo {
            assert(q[k] == p[k]);
            assert(q[k + 1] == p[k + 1]);
            assert(v.step(p[k], p[k + 1]));
        } else if k == lo {
            assert(q[k] == p[hi]);
            assert(q[k + 1] == rest[0]);
            assert(q[k + 1] == p[hi + 1]);
            assert(v.step(p[hi], p[hi + 1]));
        } else {
            let m = k + hi - lo;
            assert(q[k] == rest[k - lo - 1]);
            assert(q[k + 1] == rest[k - lo]);
            assert(q[k] == p[m]);
            assert(q[k + 1] == p[m + 1]);
            assert(v.step(p[m], p[m + 1]));
        }
    }
    assert(q[0] == p[0]);
    if hi + 1 == p.len() {
        assert(q[q.len() - 1] == p[lo]);
    } else {
        assert(q[q.len() - 1] == rest[rest.len() - 1]);
    }
    q
}

/// A shortest route enters no cell twice.
pub proof fn lemma_shortest_route_has_no_repeats(v: GridView, p: Seq<Cell>, from: Cell, to: Cell)
    requires
        v.is_shortest_route(p, from, to),
    ensures
        p.no_duplicates(),
{
    assert forall|i: int, j: int| 0 <= i < p.len() && 0 <= j < p.len() && i != j implies p[i]
        != p[j] by {
        if p[i] == p[j] {
            let q = if i < j {
                lemma_route_cut(v, p, from, to, i, j)
            } else {
                lemma_route_cut(v, p, from, to, j, i)
            };
            assert(v.is_route(q, from, to));
        }
    }
}

/// How many of the four edges of the grid the cell `c` lies on.
pub open spec fn borders_touched(v: GridView, c: Cell) -> nat {
    let west: nat = if c.x == 0 { 1 } else { 0 };
    let east: nat = if c.x + 1 == v.size { 1 } else { 0 };
    let south: nat = if c.y == 0 { 1 } else { 0 };
    let north: nat = if c.y + 1 == v.size { 1 } else { 0 };
    west + east + south + north
}

/// Where every neighbour of `c` on the grid is free, `c` has four successors
/// less one for each edge of the grid that it lies on. With at least two
/// cells along an edge that is two at a corner, three elsewhere on an edge,
/// and four inside.
pub proof fn law_successor_count(v: GridView, c: Cell)
    requires
        v.wf(),
        v.in_bounds(c),
        forall|b: Cell| #[trigger] adjacent(c, b) && v.in_bounds(b) ==> v.free(b),
    ensures
        v.successors(c).len() == 4 - borders_touched(v, c),
        v.size >= 2 && (c.x == 0 || c.x + 1 == v.size) && (c.y == 0 || c.y + 1 == v.size)
            ==> v.successors(c).len() == 2,
        v.size >= 2 && ((c.x == 0 || c.x + 1 == v.size) != (c.y == 0 || c.y + 1 == v.size))
            ==> v.successors(c).len() == 3,
        0 < c.x && c.x + 1 < v.size && 0 < c.y && c.y + 1 < v.size ==> v.successors(c).len() == 4,
{
    assert forall|k: int| 0 <= k < 4 implies (#[trigger] v.open_at(neighbour(c, k))).len() == (if 0
        <= neighbour(c, k).0 < v.size && 0 <= neighbour(c, k).1 < v.size {
        1nat
    } else {
        0nat
    }) by {
        let at = neighbour(c, k);
        if 0 <= at.0 < v.size && 0 <= at.1 < v.size {
            assert(adjacent(c, cell_at(at)));
        }
    }
    assert(v.open_at(neighbour(c, 0)).len() == (if c.y + 1 == v.size { 0nat } else { 1nat }));
    assert(v.open_at(neighbour(c, 1)).len() == (if c.x + 1 == v.size { 0nat } else { 1nat }));
    assert(v.open_at(neighbour(c, 2)).len() == (if c.y == 0 { 0nat } else { 1nat }));
    assert(v.open_at(neighbour(c, 3)).len() == (if c.x == 0 { 0nat } else { 1nat }));
}

/// A cell has at most four successors, each of them free and sharing an edge
/// with it, and none twice.
pub proof fn law_successors_are_free_neighbours(v: GridView, c: Cell)
    requires
        v.wf(),
    ensures
        v.successors(c).len() <= 4,
        v.successors(c).no_duplicates(),
        forall|b: Cell| #[trigger] v.successors(c).contains(b) <==> adjacent(c, b) && v.free(b),
{
    assert forall|b: Cell| #[trigger] v.successors(c).contains(b) <==> adjacent(c, b) && v.free(
        b,
    ) by {
        reveal(GridView::step);
        lemma_step_is_free_neighbour(v, c, b);
    }
    let s = v.successors(c);
    let s0 = v.open_at(neighbour(c, 0));
    let s1 = v.open_at(neighbour(c, 1));
    let s2 = v.open_at(neighbour(c, 2));
    let s3 = v.open_at(neighbour(c, 3));
    assert(s == s0 + s1 + s2 + s3);
    assert forall|i: int, j: int| 0 <= i < s.len() && 0 <= j < s.len() && i != j implies s[i]
        != s[j] by {
        lemma_piece_of(v, c, i);
        lemma_piece_of(v, c, j);
    }
}

/// The direction in which the `i`-th successor of `c` lies: successors come
/// in the order of the directions, one at most for each.
pub open spec fn direction_of(v: GridView, c: Cell, i: int) -> int {
    let n0 = v.open_at(neighbour(c, 0)).len();
    let n1 = v.open_at(neighbour(c, 1)).len();
    let n2 = v.open_at(neighbour(c, 2)).len();
    if i < n0 {
        0
    } else if i < n0 + n1 {
        1
    } else if i < n0 + n1 + n2 {
        2
    } else {
        3
    }
}

proof fn lemma_piece_of(v: GridView, c: Cell, i: int)
    requires
        v.wf(),
        0 <= i < v.successors(c).len(),
    ensures
        v.successors(c)[i] == cell_at(neighbour(c, direction_of(v, c, i))),
        0 <= neighbour(c, direction_of(v, c, i)).0 < v.size,
        0 <= neighbour(c, direction_of(v, c, i)).1 < v.size,
        forall|j: int| 0 <= j < i ==> direction_of(v, c, j) < direction_of(v, c, i),
{
    let s0 = v.open_at(neighbour(c, 0));
    let s1 = v.open_at(neighbour(c, 1));
    let s2 = v.open_at(neighbour(c, 2));
    let s3 = v.open_at(neighbour(c, 3));
    assert(v.successors(c) == s0 + s1 + s2 + s3);
}

} // verus!
