//! Building on the grid and clearing it again, so that a route from `start`
//! to `goal` is never lost.

use crate::arena::grid::{Cell, Grid, GridView};
use crate::arena::path_finding::find_path;
use crate::arena::routes::lemma_route_survives_freeing;
use vstd::prelude::*;

verus! {

/// Why a request to build was turned down.
#[derive(Clone, Copy, Debug, PartialEq, Eq, Hash, Structural)]
pub enum BuildRejected {
    /// The cell does not lie on the grid.
    OutOfBounds,
    /// The cell is blocked already.
    Occupied,
    /// The cell is `start` or `goal`.
    Endpoint,
    /// With the cell blocked no route would lead from `start` to `goal`.
    NoRoute,
}

/// A request to clear a cell that does not lie on the grid.
#[derive(Clone, Copy, Debug, PartialEq, Eq, Hash, Structural)]
pub struct OutOfBounds;

/// A request that changes the grid.
pub enum Operation {
    Build { cell: Cell, owner: Option<u64> },
    Remove { cell: Cell },
}

impl GridView {
    /// Why building on `c` is turned down, or `None` where it is accepted.
    /// The first reason that applies is given, in the order of
    /// `BuildRejected`.
    pub open spec fn build_verdict(self, c: Cell) -> Option<BuildRejected> {
        if !self.in_bounds(c) {
            Some(BuildRejected::OutOfBounds)
        } else if self.blocked.contains(c) {
            Some(BuildRejected::Occupied)
        } else if c == self.start || c == self.goal {
            Some(BuildRejected::Endpoint)
        } else if !self.occupy(c, None).reachable(self.start, self.goal) {
            Some(BuildRejected::NoRoute)
        } else {
            None
        }
    }

    /// The grid after a request to build on `c` for `owner`: with `c`
    /// blocked where the request is accepted, unchanged where it is not.
    pub open spec fn build(self, c: Cell, owner: Option<u64>) -> GridView {
        if self.build_verdict(c) is None {
            self.occupy(c, owner)
        } else {
            self
        }
    }

    /// The grid after a request to clear `c`.
    pub open spec fn remove(self, c: Cell) -> GridView {
        if self.in_bounds(c) {
            self.vacate(c)
        } else {
            self
        }
    }

    pub open spec fn apply(self, op: Operation) -> GridView {
        match op {
            Operation::Build { cell, owner } => self.build(cell, owner),
            Operation::Remove { cell } => self.remove(cell),
        }
    }

    /// The grid after the requests `ops`, one after the other.
    pub open spec fn apply_all(self, ops: Seq<Operation>) -> GridView
        decreases ops.len(),
    {
        if ops.len() == 0 {
            self
        } else {
            self.apply_all(ops.drop_last()).apply(ops.last())
        }
    }
}

/// Whom a cell is blocked for does not matter to the routes.
pub proof fn lemma_owner_is_no_obstacle(v: GridView, c: Cell, owner: Option<u64>, from: Cell, to: Cell)
    ensures
        v.occupy(c, owner).reachable(from, to) == v.occupy(c, None).reachable(from, to),
{
    let a = v.occupy(c, owner);
    let b = v.occupy(c, None);
    assert forall|x: Cell, y: Cell| a.step(x, y) == b.step(x, y) by {
        reveal(GridView::step);
    }
    if a.reachable(from, to) {
        let p = choose|p: Seq<Cell>| a.is_route(p, from, to);
        assert(b.is_route(p, from, to));
    }
    if b.reachable(from, to) {
        let p = choose|p: Seq<Cell>| b.is_route(p, from, to);
        assert(a.is_route(p, from, to));
    }
}

/// A request to build on a cell off the grid, on a blocked cell, on `start`
/// or on `goal` is turned down and leaves the grid as it was, as does every
/// request that is turned down.
pub proof fn law_rejected_build_changes_nothing(v: GridView, c: Cell, owner: Option<u64>)
    ensures
        !v.in_bounds(c) || v.blocked.contains(c) || c == v.start || c == v.goal
            ==> v.build_verdict(c) is Some,
        v.build_verdict(c) is Some ==> v.build(c, owner) == v,
        !v.in_bounds(c) <==> v.build_verdict(c) == Some(BuildRejected::OutOfBounds),
        v.in_bounds(c) && v.blocked.contains(c) <==> v.build_verdict(c) == Some(
            BuildRejected::Occupied,
        ),
        v.free(c) && (c == v.start || c == v.goal) <==> v.build_verdict(c) == Some(
            BuildRejected::Endpoint,
        ),
{
}

/// A request to build keeps the invariant of play, whether it is accepted
/// or not.
pub proof fn law_build_keeps_route(v: GridView, c: Cell, owner: Option<u64>)
    requires
        v.routable(),
    ensures
        v.build(c, owner).routable(),
        v.build_verdict(c) is Some ==> v.build(c, owner) == v,
{
    if v.build_verdict(c) is None {
        lemma_owner_is_no_obstacle(v, c, owner, v.start, v.goal);
    }
}

/// A request to clear a cell keeps the invariant of play.
pub proof fn law_remove_keeps_route(v: GridView, c: Cell)
    requires
        v.routable(),
    ensures
        v.remove(c).routable(),
{
    if v.in_bounds(c) {
        let p = choose|p: Seq<Cell>| v.is_route(p, v.start, v.goal);
        lemma_route_survives_freeing(v, v.vacate(c), p, v.start, v.goal);
    }
}

/// Whatever is requested, and in whatever order: if a route led from `start`
/// to `goal` before, one does after every request.
pub proof fn law_operations_keep_route(v: GridView, ops: Seq<Operation>)
    requires
        v.routable(),
    ensures
        forall|k: int| 0 <= k <= ops.len() ==> (#[trigger] v.apply_all(ops.take(k))).routable(),
        v.apply_all(ops).routable(),
    decreases ops.len(),
{
    if ops.len() > 0 {
        let before = ops.drop_last();
        law_operations_keep_route(v, before);
        match ops.last() {
            Operation::Build { cell, owner } => law_build_keeps_route(
                v.apply_all(before),
                cell,
                owner,
            ),
            Operation::Remove { cell } => law_remove_keeps_route(v.apply_all(before), cell),
        }
        assert forall|k: int| 0 <= k <= ops.len() implies (#[trigger] v.apply_all(
            ops.take(k),
        )).routable() by {
            if k < ops.len() {
                assert(ops.take(k) == before.take(k));
            } else {
                assert(ops.take(k) == ops);
            }
        }
    } else {
        assert forall|k: int| 0 <= k <= ops.len() implies (#[trigger] v.apply_all(
            ops.take(k),
        )).routable() by {
            assert(ops.take(k) == ops);
        }
    }
}

impl Grid {
    /// Blocks `cell` for `owner` unless that is turned down: the cell is
    /// marked, a route from `start` to `goal` is searched, and the mark is
    /// taken back where there is none. A request that is turned down leaves
    /// the grid as it was.
    pub fn request_build(&mut self, cell: &Cell, owner: Option<u64>) -> (r: Result<
        (),
        BuildRejected,
    >)
        requires
            old(self).wf(),
        ensures
            final(self).wf(),
            r == (match old(self)@.build_verdict(*cell) {
                Some(why) => Err::<(), BuildRejected>(why),
                None => Ok(()),
            }),
            final(self)@ == old(self)@.build(*cell, owner),
            r is Err ==> final(self)@ == old(self)@,
            !old(self)@.in_bounds(*cell) || old(self)@.blocked.contains(*cell) || *cell == old(
                self,
            )@.start || *cell == old(self)@.goal ==> r is Err,
            r is Ok ==> final(self)@ == old(self)@.occupy(*cell, owner) && final(self)@.reachable(
                final(self)@.start,
                final(self)@.goal,
            ),
            old(self)@.routable() ==> final(self)@.routable(),
    {
        proof {
            self.lemma_view_wf();
        }
        if !self.in_bounds(cell) {
            return Err(BuildRejected::OutOfBounds);
        }
        if self.is_occupied(cell) {
            return Err(BuildRejected::Occupied);
        }
        let start = self.start();
        let goal = self.goal();
        if cell.is(&start) || cell.is(&goal) {
            return Err(BuildRejected::Endpoint);
        }
        self.set_occupied(cell, owner);
        proof {
            lemma_owner_is_no_obstacle(old(self)@, *cell, owner, start, goal);
        }
        if find_path(self, &start, &goal).is_none() {
            self.remove_occupied(cell);
            proof {
                assert(final(self)@.blocked =~= old(self)@.blocked);
                assert(final(self)@.owners =~= old(self)@.owners);
            }
            return Err(BuildRejected::NoRoute);
        }
        proof {
            self.lemma_view_wf();
        }
        Ok(())
    }

    /// Frees `cell` and forgets its owner, whom it returns. Nothing is
    /// checked: freeing a cell closes no route.
    pub fn request_remove(&mut self, cell: &Cell) -> (r: Result<Option<u64>, OutOfBounds>)
        requires
            old(self).wf(),
        ensures
            final(self).wf(),
            r is Err <==> !old(self)@.in_bounds(*cell),
            r matches Ok(owner) ==> owner == (if old(self)@.owners.dom().contains(*cell) {
                Some(old(self)@.owners[*cell])
            } else {
                None
            }),
            final(self)@ == old(self)@.remove(*cell),
            old(self)@.routable() ==> final(self)@.routable(),
    {
        if !self.in_bounds(cell) {
            return Err(OutOfBounds);
        }
        let owner = self.get_tower(*cell);
        self.remove_occupied(cell);
        proof {
            old(self).lemma_view_wf();
            if old(self)@.routable() {
                law_remove_keeps_route(old(self)@, *cell);
            }
        }
        Ok(owner)
    }
}

} // verus!
