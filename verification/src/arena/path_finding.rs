//! Shortest routes across the grid, by breadth-first search.

use crate::arena::grid::{adjacent, manhattan, Cell, Grid};
use crate::arena::routes::{
    law_blocked_cell_unreachable, law_open_grid_distance, law_walled_cell_unreachable,
    lemma_route_tail, lemma_shortest_route_has_no_repeats, lemma_shortest_route_tail,
    lemma_step_is_free_neighbour,
};
use vstd::prelude::*;

verus! {

/// The route that the breadth-first search finds from `from` to `to` on a
/// grid of edge length `size` with the cells `blocked` blocked, or `None`
/// where it finds none. Among shortest routes the search picks by the order
/// in which a cell's successors come.
pub uninterp spec fn bfs_route(size: nat, blocked: Set<Cell>, from: Cell, to: Cell) -> Option<
    Seq<Cell>,
>;

/// Calls `pathfinding::directed::bfs::bfs` with `from` as the start, the
/// grid's `successors` as the expansion and "is `to`" as the test for
/// success.
///
/// Believed of it, as its documentation has it: what it returns depends on
/// these alone; a route that it returns begins with `from`, ends with `to`,
/// moves from each cell to one of that cell's successors, and is a shortest
/// one among all such; and it returns `None` only where no such route
/// exists.
#[verifier::external_body]
fn bfs_search(grid: &Grid, from: &Cell, to: &Cell) -> (found: Option<Vec<Cell>>)
    requires
        grid.wf(),
    ensures
        found matches Some(p) ==> bfs_route(grid@.size, grid@.blocked, *from, *to) == Some(p@),
        found is None ==> bfs_route(grid@.size, grid@.blocked, *from, *to) is None,
        found matches Some(p) ==> grid@.is_shortest_route(p@, *from, *to),
        found is None ==> !grid@.reachable(*from, *to),
{
    pathfinding::directed::bfs::bfs(from, |p| grid.successors(p), |p| p.is(to))
}

/// The cell that follows the first on a route: its second cell, if the route
/// has one.
pub open spec fn second_cell(route: Option<Seq<Cell>>) -> Option<Cell> {
    match route {
        Some(p) => if p.len() >= 2 {
            Some(p[1])
        } else {
            None
        },
        None => None,
    }
}

/// The second cell of a route, if there is a route and it has two cells.
pub fn next_on_route(route: &Option<Vec<Cell>>) -> (next: Option<Cell>)
    ensures
        next == second_cell(
            match *route {
                Some(p) => Some(p@),
                None => None,
            },
        ),
{
    match route {
        Some(p) => {
            if p.len() >= 2 {
                Some(p[1])
            } else {
                None
            }
        },
        None => None,
    }
}

/// A shortest route from `from` to `to`, both cells included, or `None` if
/// `to` cannot be reached. A cell reaches itself by the route that holds it
/// alone. `from` may be blocked or off the grid: the search starts with its
/// successors.
pub fn find_path(grid: &Grid, from: &Cell, to: &Cell) -> (found: Option<Vec<Cell>>)
    requires
        grid.wf(),
    ensures
        found is Some <==> grid@.reachable(*from, *to),
        found matches Some(p) ==> {
            &&& bfs_route(grid@.size, grid@.blocked, *from, *to) == Some(p@)
            &&& grid@.is_shortest_route(p@, *from, *to)
            &&& p@.no_duplicates()
            &&& forall|i: int| 1 <= i < p@.len() ==> grid@.free(#[trigger] p@[i])
            &&& forall|i: int| 1 <= i < p@.len() ==> adjacent(p@[i - 1], #[trigger] p@[i])
        },
        found is None ==> bfs_route(grid@.size, grid@.blocked, *from, *to) is None,
        // Without blocked cells the route is as short as the grid allows.
        grid@.blocked =~= Set::<Cell>::empty() && grid@.in_bounds(*from) && grid@.in_bounds(*to)
            ==> found is Some && found->0@.len() == manhattan(*from, *to) + 1,
        // A sealed or blocked cell is not reached.
        *from != *to && !grid@.free(*to) ==> found is None,
        *from != *to && !adjacent(*from, *to) && grid@.successors(*to).len() == 0 ==> found is None,
{
    let found = bfs_search(grid, from, to);
    proof {
        grid.lemma_view_wf();
        if found is Some {
            let p = found->0@;
            lemma_shortest_route_has_no_repeats(grid@, p, *from, *to);
            assert forall|i: int| 1 <= i < p.len() implies grid@.free(#[trigger] p[i]) && adjacent(
                p[i - 1],
                p[i],
            ) by {
                assert(grid@.step(p[i - 1], p[i - 1 + 1]));
                lemma_step_is_free_neighbour(grid@, p[i - 1], p[i]);
            }
        }
        if grid@.blocked =~= Set::<Cell>::empty() && grid@.in_bounds(*from) && grid@.in_bounds(
            *to,
        ) {
            law_open_grid_distance(
                grid@,
                if found is Some {
                    found->0@
                } else {
                    Seq::empty()
                },
                *from,
                *to,
            );
        }
        if *from != *to && !grid@.free(*to) {
            law_blocked_cell_unreachable(grid@, *from, *to);
        }
        if *from != *to && !adjacent(*from, *to) && grid@.successors(*to).len() == 0 {
            law_walled_cell_unreachable(grid@, *from, *to);
        }
    }
    found
}

/// The cell to move to next on the way from `from` to `to`: the second cell
/// of the route that `find_path` returns. `None` if `to` cannot be reached,
/// and if `from` is `to`.
pub fn find_next_step(grid: &Grid, from: &Cell, to: &Cell) -> (next: Option<Cell>)
    requires
        grid.wf(),
    ensures
        next == second_cell(bfs_route(grid@.size, grid@.blocked, *from, *to)),
        next is Some <==> *from != *to && grid@.reachable(*from, *to),
        next matches Some(c) ==> adjacent(*from, c) && grid@.free(c) && grid@.reachable(c, *to),
        // The step leads one cell nearer: what is left of a shortest route
        // is a shortest route.
        next matches Some(c) ==> exists|p: Seq<Cell>|
            #![trigger grid@.is_shortest_route(p, *from, *to)]
            p.len() >= 2 && p[1] == c && grid@.is_shortest_route(p, *from, *to)
                && grid@.is_shortest_route(p.subrange(1, p.len() as int), c, *to),
{
    let found = find_path(grid, from, to);
    let next = next_on_route(&found);
    proof {
        grid.lemma_view_wf();
        if found is Some {
            let p = found->0@;
            if p.len() >= 2 {
                lemma_route_tail(grid@, p, *from, *to);
                lemma_shortest_route_tail(grid@, p, *from, *to);
                lemma_step_is_free_neighbour(grid@, *from, p[1]);
                assert(*from != *to) by {
                    if *from == *to {
                        assert(p[0] == p[p.len() - 1]);
                    }
                }
            } else {
                assert(p[0] == p[p.len() - 1]);
            }
        } else {
            if *from == *to {
                assert(grid@.is_route(seq![*from], *from, *to));
            }
        }
    }
    next
}

/// A shortest route from `current` to the grid's goal.
pub fn path_finding(grid: &Grid, current: Cell) -> (found: Option<Vec<Cell>>)
    requires
        grid.wf(),
    ensures
        found is Some <==> grid@.reachable(current, grid@.goal),
        found matches Some(p) ==> {
            &&& bfs_route(grid@.size, grid@.blocked, current, grid@.goal) == Some(p@)
            &&& grid@.is_shortest_route(p@, current, grid@.goal)
            &&& p@.no_duplicates()
        },
        found is None ==> bfs_route(grid@.size, grid@.blocked, current, grid@.goal) is None,
{
    let goal = grid.goal();
    find_path(grid, &current, &goal)
}

/// The next cell on the way from `current` to the grid's goal.
pub fn path_mob_finding(grid: &Grid, current: Cell) -> (next: Option<Cell>)
    requires
        grid.wf(),
    ensures
        next == second_cell(bfs_route(grid@.size, grid@.blocked, current, grid@.goal)),
        next is Some <==> current != grid@.goal && grid@.reachable(current, grid@.goal),
        next matches Some(c) ==> adjacent(current, c) && grid@.free(c) && grid@.reachable(
            c,
            grid@.goal,
        ),
{
    let goal = grid.goal();
    find_next_step(grid, &current, &goal)
}

} // verus!
