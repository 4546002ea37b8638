//! The occupancy grid and its mathematical model.

use crate::arena::routes::law_open_grid_distance;
use vstd::prelude::*;

verus! {

/// One square of the grid, addressed by column `x` and row `y`.
#[derive(Clone, Copy, Debug, PartialEq, Eq, PartialOrd, Ord, Hash, Structural)]
pub struct Cell {
    pub x: u32,
    pub y: u32,
}

impl Cell {
    pub fn new(x: u32, y: u32) -> (c: Cell)
        ensures
            c == (Cell { x, y }),
    {
        Cell { x, y }
    }

    /// Whether this is the cell `other`.
    pub fn is(&self, other: &Cell) -> (b: bool)
        ensures
            b == (*self == *other),
    {
        self.x == other.x && self.y == other.y
    }
}

/// A cell given by two machine-sized indices.
#[derive(Clone, Copy, Debug, PartialEq, Eq, PartialOrd, Ord, Hash, Default, Structural)]
pub struct Pos(pub usize, pub usize);

impl From<Pos> for Cell {
    /// The cell of the same indices, each cut down to the low 32 bits.
    fn from(pos: Pos) -> (c: Cell) {
        Cell { x: #[verifier::truncate] (pos.0 as u32), y: #[verifier::truncate] (pos.1 as u32) }
    }
}

impl vstd::std_specs::convert::FromSpecImpl<Pos> for Cell {
    open spec fn obeys_from_spec() -> bool {
        true
    }

    open spec fn from_spec(pos: Pos) -> Cell {
        Cell { x: pos.0 as u32, y: pos.1 as u32 }
    }
}

/// The number of orthogonal steps between two cells on an open grid.
pub open spec fn manhattan(a: Cell, b: Cell) -> nat {
    let dx = if a.x >= b.x { a.x - b.x } else { b.x - a.x };
    let dy = if a.y >= b.y { a.y - b.y } else { b.y - a.y };
    (dx + dy) as nat
}

/// Two cells that share an edge.
pub open spec fn adjacent(a: Cell, b: Cell) -> bool {
    manhattan(a, b) == 1
}

/// The coordinates next to `c` in the direction `k`: up, right, down, left
/// for 0, 1, 2, 3. They may fall outside every grid.
pub open spec fn neighbour(c: Cell, k: int) -> (int, int) {
    if k == 0 {
        (c.x as int, c.y + 1)
    } else if k == 1 {
        (c.x + 1, c.y as int)
    } else if k == 2 {
        (c.x as int, c.y - 1)
    } else {
        (c.x - 1, c.y as int)
    }
}

/// What a grid is, as mathematics: its edge length, the set of cells that
/// block traversal, who owns which blocked cell, and the two fixed endpoints.
pub struct GridView {
    pub size: nat,
    pub blocked: Set<Cell>,
    pub owners: Map<Cell, u64>,
    pub start: Cell,
    pub goal: Cell,
}

impl GridView {
    pub open spec fn in_bounds(self, c: Cell) -> bool {
        c.x < self.size && c.y < self.size
    }

    /// A cell that can be walked onto.
    pub open spec fn free(self, c: Cell) -> bool {
        self.in_bounds(c) && !self.blocked.contains(c)
    }

    /// Only cells of the grid block, and only blocked cells have an owner.
    pub open spec fn wf(self) -> bool {
        &&& self.size <= u32::MAX
        &&& forall|c: Cell| #[trigger] self.blocked.contains(c) ==> self.in_bounds(c)
        &&& forall|c: Cell| #[trigger] self.owners.dom().contains(c) ==> self.blocked.contains(c)
    }

    /// One move: from `a` onto one of its successors. Nothing is asked of `a`
    /// itself, which may be blocked or lie off the grid.
    #[verifier::opaque]
    pub open spec fn step(self, a: Cell, b: Cell) -> bool {
        self.successors(a).contains(b)
    }

    /// `p` leads from `from` to `to` by moves of the grid.
    pub open spec fn is_route(self, p: Seq<Cell>, from: Cell, to: Cell) -> bool {
        &&& p.len() >= 1
        &&& p[0] == from
        &&& p[p.len() - 1] == to
        &&& forall|i: int| 0 <= i < p.len() - 1 ==> self.step(#[trigger] p[i], p[i + 1])
    }

    pub open spec fn reachable(self, from: Cell, to: Cell) -> bool {
        exists|p: Seq<Cell>| self.is_route(p, from, to)
    }

    /// A route than which none is shorter.
    pub open spec fn is_shortest_route(self, p: Seq<Cell>, from: Cell, to: Cell) -> bool {
        &&& self.is_route(p, from, to)
        &&& forall|q: Seq<Cell>| #[trigger] self.is_route(q, from, to) ==> p.len() <= q.len()
    }

    /// The cell at the coordinates `at`, alone in a sequence, if it is a
    /// free cell of the grid; else the empty sequence.
    pub open spec fn open_at(self, at: (int, int)) -> Seq<Cell> {
        if 0 <= at.0 < self.size && 0 <= at.1 < self.size && !self.blocked.contains(
            Cell { x: at.0 as u32, y: at.1 as u32 },
        ) {
            seq![Cell { x: at.0 as u32, y: at.1 as u32 }]
        } else {
            Seq::empty()
        }
    }

    /// The free neighbours of `c`, in the order up, right, down, left.
    pub open spec fn successors(self, c: Cell) -> Seq<Cell> {
        self.open_at(neighbour(c, 0)) + self.open_at(neighbour(c, 1)) + self.open_at(
            neighbour(c, 2),
        ) + self.open_at(neighbour(c, 3))
    }

    /// The grid with `c` blocked and its owner set to `owner`.
    pub open spec fn occupy(self, c: Cell, owner: Option<u64>) -> GridView {
        GridView {
            blocked: self.blocked.insert(c),
            owners: match owner {
                Some(id) => self.owners.insert(c, id),
                None => self.owners.remove(c),
            },
            ..self
        }
    }

    /// The grid with `c` free and without an owner.
    pub open spec fn vacate(self, c: Cell) -> GridView {
        GridView { blocked: self.blocked.remove(c), owners: self.owners.remove(c), ..self }
    }

    /// The grid with no cell blocked.
    pub open spec fn cleared(self) -> GridView {
        GridView { blocked: Set::empty(), owners: Map::empty(), ..self }
    }

    /// Both endpoints lie on the grid and differ.
    pub open spec fn has_endpoints(self) -> bool {
        &&& self.in_bounds(self.start)
        &&& self.in_bounds(self.goal)
        &&& self.start != self.goal
    }

    /// The invariant of play: the endpoints are valid and free, and a route
    /// leads from `start` to `goal`.
    pub open spec fn routable(self) -> bool {
        &&& self.wf()
        &&& self.has_endpoints()
        &&& self.free(self.start)
        &&& self.free(self.goal)
        &&& self.reachable(self.start, self.goal)
    }
}

/// The occupancy grid: `size` by `size` cells, each free or blocked, a
/// blocked cell possibly with an owner, and two fixed endpoints.
#[derive(Debug)]
pub struct Grid {
    grid: Vec<Vec<bool>>,
    grid_size: u32,
    grid_enemy_start: Cell,
    grid_enemy_end: Cell,
    grid_towers: Vec<Vec<Option<u64>>>,
}

impl View for Grid {
    type V = GridView;

    closed spec fn view(&self) -> GridView {
        GridView {
            size: self.grid_size as nat,
            blocked: Set::new(
                |c: Cell|
                    c.x < self.grid_size && c.y < self.grid_size && self.grid@[c.x as int]@[c.y as int],
            ),
            owners: Map::new(
                |c: Cell|
                    c.x < self.grid_size && c.y < self.grid_size
                        && self.grid_towers@[c.x as int]@[c.y as int] is Some,
                |c: Cell| self.grid_towers@[c.x as int]@[c.y as int]->0,
            ),
            start: self.grid_enemy_start,
            goal: self.grid_enemy_end,
        }
    }
}

impl Grid {
    /// Both matrices are `size` by `size`, and only blocked cells have an
    /// owner.
    pub closed spec fn wf(&self) -> bool {
        &&& self.grid@.len() == self.grid_size
        &&& self.grid_towers@.len() == self.grid_size
        &&& forall|i: int|
            0 <= i < self.grid_size ==> (#[trigger] self.grid@[i])@.len() == self.grid_size
        &&& forall|i: int|
            0 <= i < self.grid_size ==> (#[trigger] self.grid_towers@[i])@.len() == self.grid_size
        &&& forall|i: int, j: int|
            0 <= i < self.grid_size && 0 <= j < self.grid_size && (
            #[trigger] self.grid_towers@[i]@[j]) is Some ==> self.grid@[i]@[j]
    }

    /// A well-formed grid has a well-formed model.
    pub proof fn lemma_view_wf(&self)
        requires
            self.wf(),
        ensures
            self@.wf(),
    {
    }

    /// An all-free grid of `size` by `size` cells. Its endpoints lie on the
    /// middle row, at the far columns: `start` at the last column, `goal` at
    /// the first. With fewer than two cells along an edge the endpoints
    /// coincide and the grid is not fit for routing.
    pub fn new(size: u32) -> (g: Grid)
        ensures
            g.wf(),
            g@.size == size,
            g@.blocked == Set::<Cell>::empty(),
            g@.owners == Map::<Cell, u64>::empty(),
            g@.start == (Cell { x: if size == 0 { 0 } else { (size - 1) as u32 }, y: size / 2 }),
            g@.goal == (Cell { x: 0, y: size / 2 }),
            size >= 2 ==> g@.routable(),
    {
        let last: u32 = if size == 0 { 0 } else { size - 1 };
        let g = Grid {
            grid: blank_rows(size as usize),
            grid_size: size,
            grid_enemy_start: Cell { x: last, y: size / 2 },
            grid_enemy_end: Cell { x: 0, y: size / 2 },
            grid_towers: ownerless_rows(size as usize),
        };
        proof {
            assert(g@.blocked =~= Set::<Cell>::empty());
            assert(g@.owners =~= Map::<Cell, u64>::empty());
            if size >= 2 {
                law_open_grid_distance(g@, Seq::empty(), g@.start, g@.goal);
            }
        }
        g
    }

    /// An all-free grid with the given endpoints, or `None` unless both lie
    /// on the grid and differ.
    pub fn with_endpoints(size: u32, start: Cell, goal: Cell) -> (r: Option<Grid>)
        ensures
            r is Some <==> start.x < size && start.y < size && goal.x < size && goal.y < size
                && start != goal,
            r matches Some(g) ==> {
                &&& g.wf()
                &&& g@.size == size
                &&& g@.blocked == Set::<Cell>::empty()
                &&& g@.owners == Map::<Cell, u64>::empty()
                &&& g@.start == start
                &&& g@.goal == goal
                &&& g@.routable()
            },
    {
        if start.x >= size || start.y >= size || goal.x >= size || goal.y >= size {
            return None;
        }
        if start.x == goal.x && start.y == goal.y {
            return None;
        }
        let g = Grid {
            grid: blank_rows(size as usize),
            grid_size: size,
            grid_enemy_start: start,
            grid_enemy_end: goal,
            grid_towers: ownerless_rows(size as usize),
        };
        proof {
            assert(g@.blocked =~= Set::<Cell>::empty());
            assert(g@.owners =~= Map::<Cell, u64>::empty());
            law_open_grid_distance(g@, Seq::empty(), start, goal);
        }
        Some(g)
    }

    /// Frees every cell and forgets every owner.
    pub fn set_grid(&mut self)
        requires
            old(self).wf(),
        ensures
            final(self).wf(),
            final(self)@ == old(self)@.cleared(),
    {
        self.grid = blank_rows(self.grid_size as usize);
        self.grid_towers = ownerless_rows(self.grid_size as usize);
        proof {
            assert(final(self)@.blocked =~= Set::<Cell>::empty());
            assert(final(self)@.owners =~= Map::<Cell, u64>::empty());
        }
    }

    /// A copy of the occupancy matrix, indexed by column, then row.
    pub fn get_grid(&self) -> (m: Vec<Vec<bool>>)
        requires
            self.wf(),
        ensures
            m@.len() == self@.size,
            forall|x: int| 0 <= x < self@.size ==> (#[trigger] m@[x])@.len() == self@.size,
            forall|x: int, y: int|
                0 <= x < self@.size && 0 <= y < self@.size ==> (#[trigger] m@[x]@[y])
                    == self@.blocked.contains(Cell { x: x as u32, y: y as u32 }),
    {
        let n: usize = self.grid_size as usize;
        let mut m: Vec<Vec<bool>> = Vec::new();
        let mut x: usize = 0;
        while x < n
            invariant
                self.wf(),
                n == self.grid_size,
                x <= n,
                m@.len() == x,
                forall|i: int| 0 <= i < x ==> (#[trigger] m@[i])@ == self.grid@[i]@,
            decreases n - x,
        {
            let mut row: Vec<bool> = Vec::new();
            let mut y: usize = 0;
            while y < n
                invariant
                    self.wf(),
                    n == self.grid_size,
                    x < n,
                    y <= n,
                    row@.len() == y,
                    forall|j: int| 0 <= j < y ==> (#[trigger] row@[j]) == self.grid@[x as int]@[j],
                decreases n - y,
            {
                row.push(self.grid[x][y]);
                y += 1;
            }
            assert(row@ =~= self.grid@[x as int]@);
            m.push(row);
            x += 1;
        }
        m
    }

    /// The edge length, as the number of columns.
    pub fn width(&self) -> (n: u32)
        ensures
            n == self@.size,
    {
        self.grid_size
    }

    /// The edge length, as the number of rows.
    pub fn height(&self) -> (n: u32)
        ensures
            n == self@.size,
    {
        self.grid_size
    }

    /// Appends the cell at `(x, y)` to `out` if it lies on the grid and is
    /// free.
    fn push_open(&self, out: &mut Vec<Cell>, x: i64, y: i64)
        requires
            self.wf(),
        ensures
            final(out)@ == old(out)@ + self@.open_at((x as int, y as int)),
    {
        let n: i64 = self.grid_size as i64;
        if 0 <= x && x < n && 0 <= y && y < n {
            if !self.grid[x as usize][y as usize] {
                out.push(Cell { x: x as u32, y: y as u32 });
                assert(final(out)@ =~= old(out)@ + self@.open_at((x as int, y as int)));
                return ;
            }
        }
        assert(final(out)@ =~= old(out)@ + self@.open_at((x as int, y as int)));
    }

    /// The free neighbours of `pos`, in the order up, right, down, left.
    /// `pos` itself may be blocked or lie off the grid.
    pub fn successors(&self, pos: &Cell) -> (next: Vec<Cell>)
        requires
            self.wf(),
        ensures
            next@ == self@.successors(*pos),
    {
        let mut next: Vec<Cell> = Vec::new();
        let x: i64 = pos.x as i64;
        let y: i64 = pos.y as i64;
        self.push_open(&mut next, x, y + 1);
        self.push_open(&mut next, x + 1, y);
        self.push_open(&mut next, x, y - 1);
        self.push_open(&mut next, x - 1, y);
        assert(next@ =~= self@.successors(*pos));
        next
    }

    pub fn get_grid_size(&self) -> (n: u32)
        ensures
            n == self@.size,
    {
        self.grid_size
    }

    pub fn start(&self) -> (c: Cell)
        ensures
            c == self@.start,
    {
        self.grid_enemy_start
    }

    pub fn goal(&self) -> (c: Cell)
        ensures
            c == self@.goal,
    {
        self.grid_enemy_end
    }

    pub fn in_bounds(&self, pos: &Cell) -> (b: bool)
        ensures
            b == self@.in_bounds(*pos),
    {
        pos.x < self.grid_size && pos.y < self.grid_size
    }

    pub fn get(&self, x: u32, y: u32) -> (b: bool)
        requires
            self.wf(),
            self@.in_bounds(Cell { x, y }),
        ensures
            b == self@.blocked.contains(Cell { x, y }),
    {
        self.grid[x as usize][y as usize]
    }

    pub fn is_occupied(&self, pos: &Cell) -> (b: bool)
        requires
            self.wf(),
            self@.in_bounds(*pos),
        ensures
            b == self@.blocked.contains(*pos),
    {
        self.grid[pos.x as usize][pos.y as usize]
    }

    pub fn get_tower(&self, pos: Cell) -> (owner: Option<u64>)
        requires
            self.wf(),
            self@.in_bounds(pos),
        ensures
            owner == if self@.owners.dom().contains(pos) {
                Some(self@.owners[pos])
            } else {
                None
            },
    {
        self.grid_towers[pos.x as usize][pos.y as usize]
    }

    pub fn set_occupied(&mut self, pos: &Cell, owner: Option<u64>)
        requires
            old(self).wf(),
            old(self)@.in_bounds(*pos),
        ensures
            final(self).wf(),
            final(self)@ == old(self)@.occupy(*pos, owner),
    {
        self.grid[pos.x as usize][pos.y as usize] = true;
        self.grid_towers[pos.x as usize][pos.y as usize] = owner;
        proof {
            assert(final(self)@.blocked =~= old(self)@.occupy(*pos, owner).blocked);
            assert(final(self)@.owners =~= old(self)@.occupy(*pos, owner).owners);
        }
    }

    pub fn remove_occupied(&mut self, pos: &Cell)
        requires
            old(self).wf(),
            old(self)@.in_bounds(*pos),
        ensures
            final(self).wf(),
            final(self)@ == old(self)@.vacate(*pos),
    {
        self.grid[pos.x as usize][pos.y as usize] = false;
        self.grid_towers[pos.x as usize][pos.y as usize] = None;
        proof {
            assert(final(self)@.blocked =~= old(self)@.vacate(*pos).blocked);
            assert(final(self)@.owners =~= old(self)@.vacate(*pos).owners);
        }
    }
}

/// `n` rows of `n` free cells.
fn blank_rows(n: usize) -> (rows: Vec<Vec<bool>>)
    ensures
        rows@.len() == n,
        forall|i: int| 0 <= i < n ==> (#[trigger] rows@[i])@.len() == n,
        forall|i: int, j: int| 0 <= i < n && 0 <= j < n ==> !(#[trigger] rows@[i]@[j]),
{
    let mut rows: Vec<Vec<bool>> = Vec::new();
    let mut i: usize = 0;
    while i < n
        invariant
            i <= n,
            rows@.len() == i,
            forall|k: int| 0 <= k < i ==> (#[trigger] rows@[k])@.len() == n,
            forall|k: int, j: int| 0 <= k < i && 0 <= j < n ==> !(#[trigger] rows@[k]@[j]),
        decreases n - i,
    {
        let mut row: Vec<bool> = Vec::new();
        let mut j: usize = 0;
        while j < n
            invariant
                j <= n,
                row@.len() == j,
                forall|k: int| 0 <= k < j ==> !(#[trigger] row@[k]),
            decreases n - j,
        {
            row.push(false);
            j += 1;
        }
        rows.push(row);
        i += 1;
    }
    rows
}

/// `n` rows of `n` cells without an owner.
fn ownerless_rows(n: usize) -> (rows: Vec<Vec<Option<u64>>>)
    ensures
        rows@.len() == n,
        forall|i: int| 0 <= i < n ==> (#[trigger] rows@[i])@.len() == n,
        forall|i: int, j: int| 0 <= i < n && 0 <= j < n ==> (#[trigger] rows@[i]@[j]) is None,
{
    let mut rows: Vec<Vec<Option<u64>>> = Vec::new();
    let mut i: usize = 0;
    while i < n
        invariant
            i <= n,
            rows@.len() == i,
            forall|k: int| 0 <= k < i ==> (#[trigger] rows@[k])@.len() == n,
            forall|k: int, j: int| 0 <= k < i && 0 <= j < n ==> (#[trigger] rows@[k]@[j]) is None,
        decreases n - i,
    {
        let mut row: Vec<Option<u64>> = Vec::new();
        let mut j: usize = 0;
        while j < n
            invariant
                j <= n,
                row@.len() == j,
                forall|k: int| 0 <= k < j ==> (#[trigger] row@[k]) is None,
            decreases n - j,
        {
            row.push(None);
            j += 1;
        }
        rows.push(row);
        i += 1;
    }
    rows
}

} // verus!
