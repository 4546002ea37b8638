//! Graphs in compressed sparse row form.

use vstd::prelude::*;

verus! {

/// What is wrong with the description of a graph.
#[derive(Debug)]
pub enum GraphError {
    /// Invalid edge
    InvalidEdge,
    /// Invalid node
    InvalidNode,
    /// The edges are not sorted
    UnsortedEdges,
}

pub type GraphResult<T> = Result<T, GraphError>;

/// A number that names a node or counts edges.
pub trait Idx: Copy + core::ops::Add<Output = Self> + core::ops::Sub<Output = Self> + core::ops::Div<
    Output = Self,
> + core::ops::Mul<Output = Self> + Ord + core::fmt::Debug + Send + Sync + Sized + 'static {
    /// The number as an integer.
    spec fn value(self) -> int;

    /// The largest number of the type.
    spec fn limit() -> int;

    /// The number `value`, which has to be one of the type.
    fn new(value: usize) -> (idx: Self)
        requires
            value <= Self::limit(),
        ensures
            idx.value() == value,
    ;

    /// The number as a machine index: itself where it is one, and cut down
    /// to the machine's bits where it is not.
    fn index(self) -> (i: usize)
        ensures
            i == self.value() as usize,
    ;

    fn zero() -> (idx: Self)
        ensures
            idx.value() == 0,
    ;

    /// Returns the number and leaves the next one in its place.
    fn get_and_increment(this: &mut Self) -> (before: Self)
        requires
            old(this).value() < Self::limit(),
        ensures
            before == *old(this),
            final(this).value() == old(this).value() + 1,
    ;
}

impl Idx for u8 {
    open spec fn value(self) -> int {
        self as int
    }

    open spec fn limit() -> int {
        u8::MAX as int
    }

    fn new(value: usize) -> (idx: u8) {
        value as u8
    }

    fn index(self) -> (i: usize) {
        #[verifier::truncate]
        (self as usize)
    }

    fn zero() -> (idx: u8) {
        0
    }

    fn get_and_increment(this: &mut u8) -> (before: u8) {
        let value = *this;
        *this += 1;
        value
    }
}

impl Idx for u16 {
    open spec fn value(self) -> int {
        self as int
    }

    open spec fn limit() -> int {
        u16::MAX as int
    }

    fn new(value: usize) -> (idx: u16) {
        value as u16
    }

    fn index(self) -> (i: usize) {
        #[verifier::truncate]
        (self as usize)
    }

    fn zero() -> (idx: u16) {
        0
    }

    fn get_and_increment(this: &mut u16) -> (before: u16) {
        let value = *this;
        *this += 1;
        value
    }
}

impl Idx for u32 {
    open spec fn value(self) -> int {
        self as int
    }

    open spec fn limit() -> int {
        u32::MAX as int
    }

    fn new(value: usize) -> (idx: u32) {
        value as u32
    }

    fn index(self) -> (i: usize) {
        #[verifier::truncate]
        (self as usize)
    }

    fn zero() -> (idx: u32) {
        0
    }

    fn get_and_increment(this: &mut u32) -> (before: u32) {
        let value = *this;
        *this += 1;
        value
    }
}

impl Idx for u64 {
    open spec fn value(self) -> int {
        self as int
    }

    open spec fn limit() -> int {
        u64::MAX as int
    }

    fn new(value: usize) -> (idx: u64) {
        value as u64
    }

    fn index(self) -> (i: usize) {
        #[verifier::truncate]
        (self as usize)
    }

    fn zero() -> (idx: u64) {
        0
    }

    fn get_and_increment(this: &mut u64) -> (before: u64) {
        let value = *this;
        *this += 1;
        value
    }
}

impl Idx for usize {
    open spec fn value(self) -> int {
        self as int
    }

    open spec fn limit() -> int {
        usize::MAX as int
    }

    fn new(value: usize) -> (idx: usize) {
        value as usize
    }

    fn index(self) -> (i: usize) {
        #[verifier::truncate]
        (self as usize)
    }

    fn zero() -> (idx: usize) {
        0
    }

    fn get_and_increment(this: &mut usize) -> (before: usize) {
        let value = *this;
        *this += 1;
        value
    }
}

impl Idx for i8 {
    open spec fn value(self) -> int {
        self as int
    }

    open spec fn limit() -> int {
        i8::MAX as int
    }

    fn new(value: usize) -> (idx: i8) {
        value as i8
    }

    fn index(self) -> (i: usize) {
        #[verifier::truncate]
        (self as usize)
    }

    fn zero() -> (idx: i8) {
        0
    }

    fn get_and_increment(this: &mut i8) -> (before: i8) {
        let value = *this;
        *this += 1;
        value
    }
}

impl Idx for i16 {
    open spec fn value(self) -> int {
        self as int
    }

    open spec fn limit() -> int {
        i16::MAX as int
    }

    fn new(value: usize) -> (idx: i16) {
        value as i16
    }

    fn index(self) -> (i: usize) {
        #[verifier::truncate]
        (self as usize)
    }

    fn zero() -> (idx: i16) {
        0
    }

    fn get_and_increment(this: &mut i16) -> (before: i16) {
        let value = *this;
        *this += 1;
        value
    }
}

impl Idx for i32 {
    open spec fn value(self) -> int {
        self as int
    }

    open spec fn limit() -> int {
        i32::MAX as int
    }

    fn new(value: usize) -> (idx: i32) {
        value as i32
    }

    fn index(self) -> (i: usize) {
        #[verifier::truncate]
        (self as usize)
    }

    fn zero() -> (idx: i32) {
        0
    }

    fn get_and_increment(this: &mut i32) -> (before: i32) {
        let value = *this;
        *this += 1;
        value
    }
}

impl Idx for i64 {
    open spec fn value(self) -> int {
        self as int
    }

    open spec fn limit() -> int {
        i64::MAX as int
    }

    fn new(value: usize) -> (idx: i64) {
        value as i64
    }

    fn index(self) -> (i: usize) {
        #[verifier::truncate]
        (self as usize)
    }

    fn zero() -> (idx: i64) {
        0
    }

    fn get_and_increment(this: &mut i64) -> (before: i64) {
        let value = *this;
        *this += 1;
        value
    }
}

impl Idx for isize {
    open spec fn value(self) -> int {
        self as int
    }

    open spec fn limit() -> int {
        isize::MAX as int
    }

    fn new(value: usize) -> (idx: isize) {
        value as isize
    }

    fn index(self) -> (i: usize) {
        #[verifier::truncate]
        (self as usize)
    }

    fn zero() -> (idx: isize) {
        0
    }

    fn get_and_increment(this: &mut isize) -> (before: isize) {
        let value = *this;
        *this += 1;
        value
    }
}

/// An edge as seen from one of its ends: the node at the other end, and the
/// value of the edge.
#[derive(Debug, PartialEq, Eq)]
pub struct Target<NI, EV> {
    /// Target node id
    pub target: NI,
    /// Edge value
    pub value: EV,
}

impl<NI, EV> Target<NI, EV> {
    /// Create a new weighted edge
    pub fn new(target: NI, value: EV) -> (t: Self)
        ensures
            t == (Target { target, value }),
    {
        Self { target, value }
    }
}

/// A graph with a number of nodes and of edges.
pub trait Graph<NI: Idx> {
    /// The number of nodes.
    spec fn nodes(&self) -> int;

    /// The number of edges.
    spec fn edges(&self) -> int;

    /// Get the node count
    fn node_count(&self) -> (n: NI)
        ensures
            n.value() == self.nodes(),
    ;

    /// Get the edge count
    fn edge_count(&self) -> (n: NI)
        ensures
            n.value() == self.edges(),
    ;
}

/// A graph whose nodes have neighbours.
pub trait UndirectedNeighbor<NI: Idx> {
    /// The neighbours of `node`.
    fn neighbors(&self, node: NI) -> &[NI];
}

/// A graph whose nodes have neighbours, each at the end of an edge with a
/// value.
pub trait UndirectNeighborWithValues<NI: Idx, EV> {
    /// The neighbours of `node`, each with the value of the edge to it.
    /// `node` has to be a number that can be a machine index.
    fn neighbors_with_values(&self, node: NI) -> &[Target<NI, EV>]
        requires
            0 <= node.value() <= usize::MAX,
    ;
}

/// A graph whose nodes carry values.
pub trait NodeValue<NI: Idx, NV> {
    /// Whether `node` is a node that carries a value.
    spec fn has_value(&self, node: NI) -> bool;

    /// The value of `node`.
    fn node_value(&self, node: NI) -> &NV
        requires
            self.has_value(node),
    ;
}

/// The neighbours that the node `n` has by the edges that leave it, in the
/// order of the edges.
pub open spec fn out_targets<NI: Idx, EV>(edges: Seq<(NI, NI, EV)>, n: int) -> Seq<Target<NI, EV>>
    decreases edges.len(),
{
    if edges.len() == 0 {
        Seq::empty()
    } else {
        let before = out_targets(edges.drop_last(), n);
        let e = edges.last();
        if e.0.value() == n {
            before.push(Target { target: e.1, value: e.2 })
        } else {
            before
        }
    }
}

/// The neighbours that the node `n` has by the edges that enter it, in the
/// order of the edges.
pub open spec fn in_targets<NI: Idx, EV>(edges: Seq<(NI, NI, EV)>, n: int) -> Seq<Target<NI, EV>>
    decreases edges.len(),
{
    if edges.len() == 0 {
        Seq::empty()
    } else {
        let before = in_targets(edges.drop_last(), n);
        let e = edges.last();
        if e.1.value() == n {
            before.push(Target { target: e.0, value: e.2 })
        } else {
            before
        }
    }
}

/// The neighbours of the node `n`: first those by the edges that leave it,
/// then those by the edges that enter it.
pub open spec fn neighbours<NI: Idx, EV>(edges: Seq<(NI, NI, EV)>, n: int) -> Seq<Target<NI, EV>> {
    out_targets(edges, n) + in_targets(edges, n)
}

/// The number of ends of edges at the node `n`.
pub open spec fn degree<NI: Idx, EV>(edges: Seq<(NI, NI, EV)>, n: int) -> nat {
    neighbours(edges, n).len()
}

/// The number of ends of edges at the nodes before `n`.
pub open spec fn offset_of<NI: Idx, EV>(edges: Seq<(NI, NI, EV)>, n: int) -> nat
    decreases n,
{
    if n <= 0 {
        0
    } else {
        offset_of(edges, n - 1) + degree(edges, n - 1)
    }
}

/// Every end of every edge is one of the first `nodes` nodes.
pub open spec fn ends_within<NI: Idx, EV>(edges: Seq<(NI, NI, EV)>, nodes: int) -> bool {
    forall|i: int|
        0 <= i < edges.len() ==> 0 <= (#[trigger] edges[i]).0.value() < nodes && 0
            <= edges[i].1.value() < nodes
}

/// The sum of the first `i` numbers of `d`.
pub open spec fn prefix_sum<NI: Idx>(d: Seq<NI>, i: int) -> int
    decreases i,
{
    if i <= 0 {
        0
    } else {
        prefix_sum(d, i - 1) + d[i - 1].value()
    }
}

proof fn lemma_targets_step<NI: Idx, EV>(edges: Seq<(NI, NI, EV)>, k: int, n: int)
    requires
        0 <= k < edges.len(),
    ensures
        out_targets(edges.take(k + 1), n) == if edges[k].0.value() == n {
            out_targets(edges.take(k), n).push(Target { target: edges[k].1, value: edges[k].2 })
        } else {
            out_targets(edges.take(k), n)
        },
        in_targets(edges.take(k + 1), n) == if edges[k].1.value() == n {
            in_targets(edges.take(k), n).push(Target { target: edges[k].0, value: edges[k].2 })
        } else {
            in_targets(edges.take(k), n)
        },
{
    assert(edges.take(k + 1).drop_last() == edges.take(k));
    assert(edges.take(k + 1).last() == edges[k]);
}

proof fn lemma_targets_grow<NI: Idx, EV>(edges: Seq<(NI, NI, EV)>, k: int, n: int)
    requires
        0 <= k <= edges.len(),
    ensures
        out_targets(edges.take(k), n).len() <= out_targets(edges, n).len(),
        in_targets(edges.take(k), n).len() <= in_targets(edges, n).len(),
        out_targets(edges.take(k), n).len() <= k,
        in_targets(edges.take(k), n).len() <= k,
        k < edges.len() && edges[k].0.value() == n ==> out_targets(edges.take(k), n).len()
            < out_targets(edges, n).len(),
        k < edges.len() && edges[k].1.value() == n ==> in_targets(edges.take(k), n).len()
            < in_targets(edges, n).len(),
    decreases edges.len() - k,
{
    if k < edges.len() {
        lemma_targets_step(edges, k, n);
        lemma_targets_grow(edges, k + 1, n);
        if k > 0 {
            lemma_targets_prefix_len(edges, k, n);
        }
    } else {
        assert(edges.take(k) == edges);
        lemma_targets_prefix_len(edges, k, n);
    }
}

proof fn lemma_targets_prefix_len<NI: Idx, EV>(edges: Seq<(NI, NI, EV)>, k: int, n: int)
    requires
        0 <= k <= edges.len(),
    ensures
        out_targets(edges.take(k), n).len() <= k,
        in_targets(edges.take(k), n).len() <= k,
    decreases k,
{
    if k > 0 {
        lemma_targets_prefix_len(edges, k - 1, n);
        lemma_targets_step(edges, k - 1, n);
    }
}

/// How many of the two ends of an edge are among the first `n` nodes.
spec fn hits<NI: Idx, EV>(e: (NI, NI, EV), n: int) -> nat {
    let a: nat = if 0 <= e.0.value() < n { 1 } else { 0 };
    let b: nat = if 0 <= e.1.value() < n { 1 } else { 0 };
    a + b
}

proof fn lemma_offset_last<NI: Idx, EV>(edges: Seq<(NI, NI, EV)>, n: int)
    requires
        edges.len() > 0,
    ensures
        offset_of(edges, n) == offset_of(edges.drop_last(), n) + hits(edges.last(), n),
    decreases n,
{
    if n > 0 {
        lemma_offset_last(edges, n - 1);
    }
}

proof fn lemma_offset_grows<NI: Idx, EV>(edges: Seq<(NI, NI, EV)>, a: int, b: int)
    requires
        a <= b,
    ensures
        offset_of(edges, a) <= offset_of(edges, b),
    decreases b - a,
{
    if a < b {
        lemma_offset_grows(edges, a, b - 1);
    }
}

proof fn lemma_prefix_sum_grows<NI: Idx>(d: Seq<NI>, a: int, b: int)
    requires
        a <= b <= d.len(),
        forall|i: int| 0 <= i < d.len() ==> 0 <= (#[trigger] d[i]).value(),
    ensures
        prefix_sum(d, a) <= prefix_sum(d, b),
        0 <= prefix_sum(d, a),
    decreases b - a,
{
    if a < b {
        lemma_prefix_sum_grows(d, a, b - 1);
    } else {
        lemma_prefix_sum_nonneg(d, a);
    }
}

proof fn lemma_prefix_sum_nonneg<NI: Idx>(d: Seq<NI>, a: int)
    requires
        a <= d.len(),
        forall|i: int| 0 <= i < d.len() ==> 0 <= (#[trigger] d[i]).value(),
    ensures
        0 <= prefix_sum(d, a),
    decreases a,
{
    if a > 0 {
        lemma_prefix_sum_nonneg(d, a - 1);
    }
}

proof fn lemma_prefix_sum_is_offset<NI: Idx, EV>(edges: Seq<(NI, NI, EV)>, d: Seq<NI>, i: int)
    requires
        0 <= i <= d.len(),
        forall|n: int| 0 <= n < d.len() ==> (#[trigger] d[n]).value() == degree(edges, n),
    ensures
        prefix_sum(d, i) == offset_of(edges, i),
    decreases i,
{
    if i > 0 {
        lemma_prefix_sum_is_offset(edges, d, i - 1);
    }
}

/// The neighbours of the node `m` fill the row from its place to the place
/// of the next node, and the places go up to that of `count`.
proof fn lemma_region<NI: Idx, EV>(edges: Seq<(NI, NI, EV)>, m: int, count: int)
    requires
        0 <= m < count,
    ensures
        offset_of(edges, m + 1) == offset_of(edges, m) + out_targets(edges, m).len() + in_targets(
            edges,
            m,
        ).len(),
        offset_of(edges, m + 1) <= offset_of(edges, count),
{
    lemma_offset_grows(edges, m + 1, count);
}

/// The row after the `k`-th edge has been entered at its start: what was
/// entered for the edges before it stays, and the new entry follows them.
proof fn lemma_scatter_out<NI: Idx, EV>(
    all: Seq<(NI, NI, EV)>,
    count: int,
    k: int,
    before: Seq<Target<NI, EV>>,
    after: Seq<Target<NI, EV>>,
)
    requires
        0 <= k < all.len(),
        ends_within(all, count),
        before.len() == offset_of(all, count),
        forall|m: int, j: int|
            0 <= m < count && 0 <= j < out_targets(all.take(k), m).len() ==> before[offset_of(all, m)
                + j] == #[trigger] out_targets(all.take(k), m)[j],
        after == before.update(
            (offset_of(all, all[k].0.value()) + out_targets(all.take(k), all[k].0.value()).len()) as int,
            Target { target: all[k].1, value: all[k].2 },
        ),
    ensures
        offset_of(all, all[k].0.value()) + out_targets(all.take(k), all[k].0.value()).len()
            < before.len(),
        forall|m: int, j: int|
            0 <= m < count && 0 <= j < out_targets(all.take(k + 1), m).len() ==> after[offset_of(
                all,
                m,
            ) + j] == #[trigger] out_targets(all.take(k + 1), m)[j],
{
    let s = all[k].0.value();
    let p = offset_of(all, s) + out_targets(all.take(k), s).len();
    lemma_targets_grow(all, k, s);
    lemma_region(all, s, count);
    assert forall|m: int, j: int|
        0 <= m < count && 0 <= j < out_targets(all.take(k + 1), m).len() implies after[offset_of(
        all,
        m,
    ) + j] == #[trigger] out_targets(all.take(k + 1), m)[j] by {
        lemma_targets_step(all, k, m);
        lemma_targets_grow(all, k, m);
        lemma_targets_grow(all, k + 1, m);
        lemma_region(all, m, count);
        let pos = offset_of(all, m) + j;
        if m == s && j == out_targets(all.take(k), s).len() {
            assert(pos == p);
        } else {
            assert(j < out_targets(all.take(k), m).len());
            if m < s {
                lemma_offset_grows(all, m + 1, s);
            } else if m > s {
                lemma_offset_grows(all, s + 1, m);
            }
            assert(pos != p);
            assert(before[pos] == out_targets(all.take(k), m)[j]);
        }
    }
}

/// The row after the `k`-th edge has been entered at its end.
proof fn lemma_scatter_in<NI: Idx, EV>(
    all: Seq<(NI, NI, EV)>,
    count: int,
    k: int,
    before: Seq<Target<NI, EV>>,
    after: Seq<Target<NI, EV>>,
)
    requires
        0 <= k < all.len(),
        ends_within(all, count),
        before.len() == offset_of(all, count),
        forall|m: int, j: int|
            0 <= m < count && 0 <= j < out_targets(all, m).len() ==> before[offset_of(all, m) + j]
                == #[trigger] out_targets(all, m)[j],
        forall|m: int, j: int|
            0 <= m < count && 0 <= j < in_targets(all.take(k), m).len() ==> before[offset_of(all, m)
                + out_targets(all, m).len() + j] == #[trigger] in_targets(all.take(k), m)[j],
        after == before.update(
            (offset_of(all, all[k].1.value()) + out_targets(all, all[k].1.value()).len()
                + in_targets(all.take(k), all[k].1.value()).len()) as int,
            Target { target: all[k].0, value: all[k].2 },
        ),
    ensures
        offset_of(all, all[k].1.value()) + out_targets(all, all[k].1.value()).len() + in_targets(
            all.take(k),
            all[k].1.value(),
        ).len() < before.len(),
        forall|m: int, j: int|
            0 <= m < count && 0 <= j < out_targets(all, m).len() ==> after[offset_of(all, m) + j]
                == #[trigger] out_targets(all, m)[j],
        forall|m: int, j: int|
            0 <= m < count && 0 <= j < in_targets(all.take(k + 1), m).len() ==> after[offset_of(
                all,
                m,
            ) + out_targets(all, m).len() + j] == #[trigger] in_targets(all.take(k + 1), m)[j],
{
    let t = all[k].1.value();
    let p = offset_of(all, t) + out_targets(all, t).len() + in_targets(all.take(k), t).len();
    lemma_targets_grow(all, k, t);
    lemma_region(all, t, count);
    assert forall|m: int, j: int|
        0 <= m < count && 0 <= j < out_targets(all, m).len() implies after[offset_of(all, m) + j]
        == #[trigger] out_targets(all, m)[j] by {
        lemma_region(all, m, count);
        let pos = offset_of(all, m) + j;
        if m < t {
            lemma_offset_grows(all, m + 1, t);
        } else if m > t {
            lemma_offset_grows(all, t + 1, m);
        }
        assert(pos != p);
        assert(before[pos] == out_targets(all, m)[j]);
    }
    assert forall|m: int, j: int|
        0 <= m < count && 0 <= j < in_targets(all.take(k + 1), m).len() implies after[offset_of(
        all,
        m,
    ) + out_targets(all, m).len() + j] == #[trigger] in_targets(all.take(k + 1), m)[j] by {
        lemma_targets_step(all, k, m);
        lemma_targets_grow(all, k, m);
        lemma_targets_grow(all, k + 1, m);
        lemma_region(all, m, count);
        let pos = offset_of(all, m) + out_targets(all, m).len() + j;
        if m == t && j == in_targets(all.take(k), t).len() {
            assert(pos == p);
        } else {
            assert(j < in_targets(all.take(k), m).len());
            if m < t {
                lemma_offset_grows(all, m + 1, t);
            } else if m > t {
                lemma_offset_grows(all, t + 1, m);
            }
            assert(pos != p);
            assert(before[pos] == in_targets(all.take(k), m)[j]);
        }
    }
}

/// The edges of a graph, each from a node to a node and with a value.
pub trait Edges {
    /// Node id
    type NI: Idx;

    /// Edge value
    type EV;

    /// The edges, in their order.
    spec fn edge_seq(&self) -> Seq<(Self::NI, Self::NI, Self::EV)>;

    /// Get the edges
    fn edges(&self) -> (list: Vec<(Self::NI, Self::NI, Self::EV)>)
        ensures
            list@ == self.edge_seq(),
    ;

    /// Get the maximum node id: an end of an edge than whose index that of
    /// no end is larger. There has to be an edge.
    fn max_node_id(&self) -> (max: Self::NI)
        requires
            self.edge_seq().len() > 0,
        ensures
            forall|i: int|
                0 <= i < self.edge_seq().len() ==> (#[trigger] self.edge_seq()[i]).0.value() as usize
                    <= max.value() as usize && self.edge_seq()[i].1.value() as usize
                    <= max.value() as usize,
            exists|i: int|
                0 <= i < self.edge_seq().len() && (max == (#[trigger] self.edge_seq()[i]).0 || max
                    == self.edge_seq()[i].1),
    ;

    /// Get the degrees: for each of the first `node` nodes the number of
    /// ends of edges at it. Every end has to be one of these nodes, and
    /// the ends have to be no more than the type counts.
    fn degrees(&self, node: Self::NI) -> (degrees: Vec<Self::NI>)
        requires
            0 <= node.value() <= usize::MAX,
            ends_within(self.edge_seq(), node.value()),
            2 * self.edge_seq().len() <= Self::NI::limit(),
        ensures
            degrees@.len() == node.value(),
            forall|n: int|
                0 <= n < node.value() ==> (#[trigger] degrees@[n]).value() == degree(
                    self.edge_seq(),
                    n,
                ),
    {
        let count = node.index();
        let mut degrees: Vec<Self::NI> = Vec::new();
        let mut i: usize = 0;
        while i < count
            invariant
                i <= count,
                degrees@.len() == i,
                forall|n: int| 0 <= n < i ==> (#[trigger] degrees@[n]).value() == 0,
            decreases count - i,
        {
            degrees.push(Self::NI::zero());
            i += 1;
        }
        let edges = self.edges();
        let mut k: usize = 0;
        while k < edges.len()
            invariant
                k <= edges@.len(),
                edges@ == self.edge_seq(),
                count == node.value(),
                ends_within(edges@, node.value()),
                2 * edges@.len() <= Self::NI::limit(),
                degrees@.len() == count,
                forall|n: int|
                    0 <= n < count ==> (#[trigger] degrees@[n]).value() == out_targets(
                        edges@.take(k as int),
                        n,
                    ).len(),
            decreases edges@.len() - k,
        {
            let src = edges[k].0;
            proof {
                lemma_targets_grow(edges@, k as int, src.value());
                assert forall|n: int| 0 <= n < count implies #[trigger] out_targets(
                    edges@.take(k + 1),
                    n,
                ).len() == out_targets(edges@.take(k as int), n).len() + (if n == src.value() {
                    1int
                } else {
                    0int
                }) by {
                    lemma_targets_step(edges@, k as int, n);
                }
            }
            Self::NI::get_and_increment(&mut degrees[src.index()]);
            k += 1;
        }
        proof {
            assert(edges@.take(edges@.len() as int) == edges@);
        }
        let mut k: usize = 0;
        while k < edges.len()
            invariant
                k <= edges@.len(),
                edges@ == self.edge_seq(),
                count == node.value(),
                ends_within(edges@, node.value()),
                2 * edges@.len() <= Self::NI::limit(),
                degrees@.len() == count,
                forall|n: int|
                    0 <= n < count ==> (#[trigger] degrees@[n]).value() == out_targets(edges@, n).len()
                        + in_targets(edges@.take(k as int), n).len(),
            decreases edges@.len() - k,
        {
            let dst = edges[k].1;
            proof {
                lemma_targets_grow(edges@, k as int, dst.value());
                lemma_targets_grow(edges@, edges@.len() as int, dst.value());
                assert(edges@.take(edges@.len() as int) == edges@);
                assert forall|n: int| 0 <= n < count implies #[trigger] in_targets(
                    edges@.take(k + 1),
                    n,
                ).len() == in_targets(edges@.take(k as int), n).len() + (if n == dst.value() {
                    1int
                } else {
                    0int
                }) by {
                    lemma_targets_step(edges@, k as int, n);
                }
            }
            Self::NI::get_and_increment(&mut degrees[dst.index()]);
            k += 1;
        }
        proof {
            assert(edges@.take(edges@.len() as int) == edges@);
        }
        degrees
    }
}

/// A list of edges
pub struct EdgeList<NI: Idx, EV> {
    list: Vec<(NI, NI, EV)>,
}

impl<NI: Idx, EV> View for EdgeList<NI, EV> {
    type V = Seq<(NI, NI, EV)>;

    closed spec fn view(&self) -> Seq<(NI, NI, EV)> {
        self.list@
    }
}

impl<NI: Idx, EV> EdgeList<NI, EV> {
    /// Create a new edge list
    pub fn new(list: Vec<(NI, NI, EV)>) -> (edges: Self)
        ensures
            edges@ == list@,
    {
        Self { list }
    }
}

impl<NI: Idx> EdgeList<NI, ()> {
    /// Create a new unweighted edge list
    pub fn new_unweighted(list: Vec<(NI, NI)>) -> (edges: Self)
        ensures
            edges@.len() == list@.len(),
            forall|i: int|
                0 <= i < list@.len() ==> (#[trigger] edges@[i]) == (list@[i].0, list@[i].1, ()),
    {
        let mut weighted: Vec<(NI, NI, ())> = Vec::new();
        let mut i: usize = 0;
        while i < list.len()
            invariant
                i <= list@.len(),
                weighted@.len() == i,
                forall|j: int|
                    0 <= j < i ==> (#[trigger] weighted@[j]) == (list@[j].0, list@[j].1, ()),
            decreases list@.len() - i,
        {
            weighted.push((list[i].0, list[i].1, ()));
            i += 1;
        }
        Self { list: weighted }
    }
}

impl<NI: Idx, EV: Copy> Edges for EdgeList<NI, EV> {
    type NI = NI;

    type EV = EV;

    closed spec fn edge_seq(&self) -> Seq<(NI, NI, EV)> {
        self.list@
    }

    fn edges(&self) -> (list: Vec<(NI, NI, EV)>) {
        let mut list: Vec<(NI, NI, EV)> = Vec::new();
        let mut i: usize = 0;
        while i < self.list.len()
            invariant
                i <= self.list@.len(),
                list@ == self.list@.take(i as int),
            decreases self.list@.len() - i,
        {
            list.push(self.list[i]);
            assert(self.list@.take(i + 1) == self.list@.take(i as int).push(self.list@[i as int]));
            i += 1;
        }
        assert(self.list@.take(self.list@.len() as int) == self.list@);
        list
    }

    fn max_node_id(&self) -> (max: NI) {
        let mut max = self.list[0].0;
        let ghost mut at: int = 0;
        let mut i: usize = 0;
        while i < self.list.len()
            invariant
                i <= self.list@.len(),
                0 <= at < self.list@.len(),
                max == self.list@[at].0 || max == self.list@[at].1,
                forall|j: int|
                    0 <= j < i ==> (#[trigger] self.list@[j]).0.value() as usize <= max.value() as usize
                        && self.list@[j].1.value() as usize <= max.value() as usize,
            decreases self.list@.len() - i,
        {
            let (src, dst, _) = self.list[i];
            if src.index() > max.index() {
                max = src;
                proof {
                    at = i as int;
                }
            }
            if dst.index() > max.index() {
                max = dst;
                proof {
                    at = i as int;
                }
            }
            i += 1;
        }
        max
    }
}

/// The sums of the numbers of `degrees` before each place, and at the end
/// the sum of them all. There has to be a number, none may be negative,
/// and the sum of all has to be a number of the type.
pub fn sum<NI: Idx>(degrees: &Vec<NI>) -> (sums: Vec<NI>)
    requires
        degrees@.len() > 0,
        forall|i: int| 0 <= i < degrees@.len() ==> 0 <= (#[trigger] degrees@[i]).value(),
        prefix_sum(degrees@, degrees@.len() as int) <= NI::limit(),
        prefix_sum(degrees@, degrees@.len() as int) <= usize::MAX,
    ensures
        sums@.len() == degrees@.len() + 1,
        forall|i: int| 0 <= i <= degrees@.len() ==> (#[trigger] sums@[i]).value() == prefix_sum(
            degrees@,
            i,
        ),
{
    let mut sums: Vec<NI> = Vec::new();
    let mut total: usize = 0;
    let mut i: usize = 0;
    while i < degrees.len()
        invariant
            i <= degrees@.len(),
            sums@.len() == i,
            total == prefix_sum(degrees@, i as int),
            forall|i: int| 0 <= i < degrees@.len() ==> 0 <= (#[trigger] degrees@[i]).value(),
            prefix_sum(degrees@, degrees@.len() as int) <= NI::limit(),
            prefix_sum(degrees@, degrees@.len() as int) <= usize::MAX,
            forall|j: int| 0 <= j < i ==> (#[trigger] sums@[j]).value() == prefix_sum(degrees@, j),
        decreases degrees@.len() - i,
    {
        proof {
            lemma_prefix_sum_grows(degrees@, i as int, degrees@.len() as int);
            lemma_prefix_sum_grows(degrees@, i + 1, degrees@.len() as int);
        }
        sums.push(NI::new(total));
        total = total + degrees[i].index();
        i += 1;
    }
    sums.push(NI::new(total));
    sums
}

/// A graph in compressed sparse row form: the neighbours of all nodes in
/// one row, node after node, and for each node the place where its
/// neighbours begin.
pub struct CSRGraph<Index: Idx, NI, EV> {
    offsets: Vec<Index>,
    targets: Vec<Target<NI, EV>>,
}

impl<Index: Idx, NI, EV> CSRGraph<Index, NI, EV> {
    /// The places where neighbours begin go up from node to node, from the
    /// start of the row to its end, and the nodes and the ends of edges are
    /// no more than the type counts.
    #[verifier::type_invariant]
    spec fn inv(&self) -> bool {
        &&& self.offsets@.len() >= 1
        &&& self.offsets@.len() - 1 <= Index::limit()
        &&& self.offsets@[0].value() == 0
        &&& self.offsets@[self.offsets@.len() - 1].value() == self.targets@.len()
        &&& self.targets@.len() <= Index::limit()
        &&& forall|i: int, j: int|
            0 <= i <= j < self.offsets@.len() ==> (#[trigger] self.offsets@[i]).value() <= (
            #[trigger] self.offsets@[j]).value()
    }

    /// The number of nodes.
    pub closed spec fn nodes(&self) -> int {
        self.offsets@.len() - 1
    }

    /// The number of ends of edges: two for each edge.
    pub closed spec fn ends(&self) -> int {
        self.targets@.len() as int
    }

    /// The neighbours of the node `n`, each with the value of the edge to
    /// it.
    pub closed spec fn targets_of(&self, n: int) -> Seq<Target<NI, EV>> {
        self.targets@.subrange(self.offsets@[n].value(), self.offsets@[n + 1].value())
    }

    /// The neighbours of `node`, each with the value of the edge to it.
    /// `node` has to be a node of the graph.
    pub fn targets_with_values(&self, node: Index) -> (targets: &[Target<NI, EV>])
        requires
            0 <= node.value() < self.nodes(),
        ensures
            targets@ == self.targets_of(node.value()),
    {
        proof {
            use_type_invariant(self);
        }
        let nodes = self.offsets.len() - 1;
        let len = self.targets.len();
        let at = node.index();
        assert(at == node.value());
        assert(self.offsets@[at as int].value() <= self.offsets@[at + 1].value());
        assert(self.offsets@[at + 1].value() <= self.offsets@[nodes as int].value());
        assert(self.offsets@[0].value() <= self.offsets@[at as int].value());
        let from = self.offsets[at].index();
        let to = self.offsets[at + 1].index();
        &self.targets[from..to]
    }

    /// The number of nodes.
    pub fn node_count(&self) -> (n: Index)
        ensures
            n.value() == self.nodes(),
    {
        proof {
            use_type_invariant(self);
        }
        Index::new(self.offsets.len() - 1)
    }

    /// The number of ends of edges: twice the number of edges.
    pub fn edge_count(&self) -> (n: Index)
        ensures
            n.value() == self.ends(),
    {
        proof {
            use_type_invariant(self);
        }
        Index::new(self.targets.len())
    }

    /// The graph of the edges `edge_list` on the nodes before `node_count`:
    /// each node has as neighbours the ends of the edges that leave it, in
    /// the order of the edges, and then the starts of the edges that enter
    /// it.
    ///
    /// There has to be a node, every end of an edge has to be a node, and
    /// the nodes and the ends have to be no more than the types count.
    pub fn from_sorted_edges<E>(edge_list: &E, node_count: NI) -> (graph: GraphResult<Self>) where
        NI: Idx,
        E: Edges<NI = NI, EV = EV>,
        EV: Copy,

        requires
            1 <= node_count.value() <= usize::MAX,
            node_count.value() <= Index::limit(),
            ends_within(edge_list.edge_seq(), node_count.value()),
            2 * edge_list.edge_seq().len() <= NI::limit(),
            2 * edge_list.edge_seq().len() <= Index::limit(),
            2 * edge_list.edge_seq().len() <= usize::MAX,
        ensures
            graph matches Ok(g) && {
                &&& g.nodes() == node_count.value()
                &&& g.ends() == 2 * edge_list.edge_seq().len()
                &&& forall|n: int|
                    0 <= n < node_count.value() ==> #[trigger] g.targets_of(n) == neighbours(
                        edge_list.edge_seq(),
                        n,
                    )
            },
    {
        let count = node_count.index();
        let degrees = edge_list.degrees(node_count);
        let ghost all = edge_list.edge_seq();
        proof {
            lemma_prefix_sum_is_offset(all, degrees@, count as int);
            lemma_offset_total(all, count as int);
        }
        let mut offsets = sum(&degrees);
        let edge_count = offsets[count].index();
        let edges = edge_list.edges();
        proof {
            assert forall|n: int| 0 <= n <= count implies (#[trigger] offsets@[n]).value()
                == offset_of(all, n) by {
                lemma_prefix_sum_is_offset(all, degrees@, n);
            }
        }
        let mut targets: Vec<Target<NI, EV>> = Vec::new();
        let mut i: usize = 0;
        while i < edge_count
            invariant
                i <= edge_count,
                targets@.len() == i,
                edges@ == all,
                edge_count > 0 ==> edges@.len() > 0,
            decreases edge_count - i,
        {
            targets.push(Target::new(edges[0].1, edges[0].2));
            i += 1;
        }
        let mut k: usize = 0;
        while k < edges.len()
            invariant
                k <= edges@.len(),
                edges@ == all,
                count == node_count.value(),
                ends_within(all, count as int),
                edge_count == offset_of(all, count as int),
                edge_count <= NI::limit(),
                offsets@.len() == count + 1,
                targets@.len() == edge_count,
                forall|m: int|
                    0 <= m < count ==> (#[trigger] offsets@[m]).value() == offset_of(all, m)
                        + out_targets(all.take(k as int), m).len(),
                forall|m: int, j: int|
                    0 <= m < count && 0 <= j < out_targets(all.take(k as int), m).len()
                        ==> targets@[offset_of(all, m) + j] == #[trigger] out_targets(
                        all.take(k as int),
                        m,
                    )[j],
            decreases edges@.len() - k,
        {
            let (s, t, v) = edges[k];
            let ghost before = targets@;
            proof {
                lemma_scatter_out(
                    all,
                    count as int,
                    k as int,
                    before,
                    before.update(
                        (offset_of(all, s.value()) + out_targets(
                            all.take(k as int),
                            s.value(),
                        ).len()) as int,
                        Target { target: t, value: v },
                    ),
                );
            }
            let offset = NI::get_and_increment(&mut offsets[s.index()]);
            targets[offset.index()] = Target::new(t, v);
            proof {
                assert forall|m: int| 0 <= m < count implies (#[trigger] offsets@[m]).value()
                    == offset_of(all, m) + out_targets(all.take(k + 1), m).len() by {
                    lemma_targets_step(all, k as int, m);
                }
            }
            k += 1;
        }
        proof {
            assert(all.take(all.len() as int) == all);
        }
        let mut k: usize = 0;
        while k < edges.len()
            invariant
                k <= edges@.len(),
                edges@ == all,
                count == node_count.value(),
                ends_within(all, count as int),
                edge_count == offset_of(all, count as int),
                edge_count <= NI::limit(),
                offsets@.len() == count + 1,
                targets@.len() == edge_count,
                forall|m: int|
                    0 <= m < count ==> (#[trigger] offsets@[m]).value() == offset_of(all, m)
                        + out_targets(all, m).len() + in_targets(all.take(k as int), m).len(),
                forall|m: int, j: int|
                    0 <= m < count && 0 <= j < out_targets(all, m).len() ==> targets@[offset_of(
                        all,
                        m,
                    ) + j] == #[trigger] out_targets(all, m)[j],
                forall|m: int, j: int|
                    0 <= m < count && 0 <= j < in_targets(all.take(k as int), m).len()
                        ==> targets@[offset_of(all, m) + out_targets(all, m).len() + j]
                        == #[trigger] in_targets(all.take(k as int), m)[j],
            decreases edges@.len() - k,
        {
            let (s, t, v) = edges[k];
            let ghost before = targets@;
            proof {
                lemma_scatter_in(
                    all,
                    count as int,
                    k as int,
                    before,
                    before.update(
                        (offset_of(all, t.value()) + out_targets(all, t.value()).len()
                            + in_targets(all.take(k as int), t.value()).len()) as int,
                        Target { target: s, value: v },
                    ),
                );
            }
            let offset = NI::get_and_increment(&mut offsets[t.index()]);
            targets[offset.index()] = Target::new(s, v);
            proof {
                assert forall|m: int| 0 <= m < count implies (#[trigger] offsets@[m]).value()
                    == offset_of(all, m) + out_targets(all, m).len() + in_targets(
                    all.take(k + 1),
                    m,
                ).len() by {
                    lemma_targets_step(all, k as int, m);
                }
            }
            k += 1;
        }
        proof {
            assert(all.take(all.len() as int) == all);
        }
        let mut shifted: Vec<Index> = Vec::new();
        shifted.push(Index::zero());
        let mut i: usize = 0;
        while i < count
            invariant
                i <= count,
                offsets@.len() == count + 1,
                shifted@.len() == i + 1,
                edge_count == offset_of(all, count as int),
                edge_count <= Index::limit(),
                forall|m: int|
                    0 <= m < count ==> (#[trigger] offsets@[m]).value() == offset_of(all, m + 1),
                forall|m: int| 0 <= m <= i ==> (#[trigger] shifted@[m]).value() == offset_of(all, m),
            decreases count - i,
        {
            proof {
                lemma_offset_grows(all, i + 1, count as int);
            }
            shifted.push(Index::new(offsets[i].index()));
            i += 1;
        }
        proof {
            assert forall|a: int, b: int| 0 <= a <= b < shifted@.len() implies (
            #[trigger] shifted@[a]).value() <= (#[trigger] shifted@[b]).value() by {
                lemma_offset_grows(all, a, b);
            }
        }
        let graph = Self { offsets: shifted, targets };
        proof {
            assert forall|n: int| 0 <= n < node_count.value() implies #[trigger] graph.targets_of(n)
                == neighbours(all, n) by {
                let got = graph.targets_of(n);
                let want = neighbours(all, n);
                lemma_offset_grows(all, n + 1, count as int);
                assert(got.len() == want.len());
                assert forall|j: int| 0 <= j < got.len() implies got[j] == want[j] by {
                    if j < out_targets(all, n).len() {
                        assert(targets@[offset_of(all, n) + j] == out_targets(all, n)[j]);
                    } else {
                        let r = j - out_targets(all, n).len();
                        assert(targets@[offset_of(all, n) + out_targets(all, n).len() + r]
                            == in_targets(all, n)[r]);
                    }
                }
                assert(got =~= want);
            }
        }
        Ok(graph)
    }
}

impl<Index: Idx, NI> CSRGraph<Index, NI, ()> {
    /// The neighbours of `node`, which has to be a node of the graph.
    pub fn targets(&self, node: Index) -> (targets: Vec<&NI>)
        requires
            0 <= node.value() < self.nodes(),
        ensures
            targets@.len() == self.targets_of(node.value()).len(),
            forall|i: int|
                0 <= i < targets@.len() ==> *(#[trigger] targets@[i]) == self.targets_of(
                    node.value(),
                )[i].target,
    {
        let with_values = self.targets_with_values(node);
        let mut targets: Vec<&NI> = Vec::new();
        let mut i: usize = 0;
        while i < with_values.len()
            invariant
                i <= with_values@.len(),
                targets@.len() == i,
                forall|j: int| 0 <= j < i ==> *(#[trigger] targets@[j]) == with_values@[j].target,
            decreases with_values@.len() - i,
        {
            targets.push(&with_values[i].target);
            i += 1;
        }
        targets
    }
}

/// Where every end of every edge is among the first `n` nodes, these have
/// two ends for each edge.
proof fn lemma_offset_total<NI: Idx, EV>(edges: Seq<(NI, NI, EV)>, n: int)
    requires
        ends_within(edges, n),
    ensures
        offset_of(edges, n) == 2 * edges.len(),
    decreases edges.len(), n,
{
    if edges.len() == 0 {
        if n > 0 {
            lemma_offset_empty(edges, n);
        }
    } else {
        lemma_offset_last(edges, n);
        assert(ends_within(edges.drop_last(), n)) by {
            assert forall|i: int| 0 <= i < edges.drop_last().len() implies 0 <= (
            #[trigger] edges.drop_last()[i]).0.value() < n && 0 <= edges.drop_last()[i].1.value()
                < n by {
                assert(edges.drop_last()[i] == edges[i]);
            }
        }
        lemma_offset_total(edges.drop_last(), n);
        assert(edges.last() == edges[edges.len() - 1]);
    }
}

proof fn lemma_offset_empty<NI: Idx, EV>(edges: Seq<(NI, NI, EV)>, n: int)
    requires
        edges.len() == 0,
    ensures
        offset_of(edges, n) == 0,
    decreases n,
{
    if n > 0 {
        lemma_offset_empty(edges, n - 1);
    }
}

/// Node values
pub struct NodeValues<NV> {
    values: Vec<NV>,
}

impl<NV> View for NodeValues<NV> {
    type V = Seq<NV>;

    closed spec fn view(&self) -> Seq<NV> {
        self.values@
    }
}

impl<NV> NodeValues<NV> {
    /// Create a new node values
    pub fn new(values: Vec<NV>) -> (node_values: Self)
        ensures
            node_values@ == values@,
    {
        Self { values }
    }

    /// The number of values.
    pub fn len(&self) -> (n: usize)
        ensures
            n == self@.len(),
    {
        self.values.len()
    }

    /// The value of the node `node`, which has to be one that has a value.
    pub fn get(&self, node: usize) -> (value: &NV)
        requires
            node < self@.len(),
        ensures
            *value == self@[node as int],
    {
        &self.values[node]
    }
}

/// A graph without directions whose nodes carry values.
pub struct UndirectedCSRGraph<NI: Idx, NV = (), EV = ()> {
    csr: CSRGraph<NI, NI, EV>,
    node_values: NodeValues<NV>,
}

impl<NI: Idx, NV, EV> UndirectedCSRGraph<NI, NV, EV> {
    /// The rows of the graph.
    pub closed spec fn rows(&self) -> CSRGraph<NI, NI, EV> {
        self.csr
    }

    /// The values of the nodes.
    pub closed spec fn values(&self) -> Seq<NV> {
        self.node_values@
    }

    /// Create a new graph
    pub fn new(csr: CSRGraph<NI, NI, EV>, node_values: NodeValues<NV>) -> (graph: Self)
        ensures
            graph.rows() == csr,
            graph.values() == node_values@,
    {
        Self { csr, node_values }
    }

    /// The number of nodes that carry a value.
    pub fn value_count(&self) -> (n: usize)
        ensures
            n == self.values().len(),
    {
        self.node_values.len()
    }
}

impl<NI: Idx, NV, EV> Graph<NI> for UndirectedCSRGraph<NI, NV, EV> {
    open spec fn nodes(&self) -> int {
        self.rows().nodes()
    }

    open spec fn edges(&self) -> int {
        self.rows().ends() / 2
    }

    fn node_count(&self) -> (n: NI) {
        self.csr.node_count()
    }

    fn edge_count(&self) -> (n: NI) {
        proof {
            use_type_invariant(&self.csr);
        }
        let len = self.csr.targets.len();
        let ends = self.csr.edge_count();
        NI::new(ends.index() / 2)
    }
}

impl<NI: Idx, NV, EV> UndirectNeighborWithValues<NI, EV> for UndirectedCSRGraph<NI, NV, EV> {
    /// The neighbours of `node`, each with the value of the edge to it;
    /// none where `node` is no node of the graph.
    fn neighbors_with_values(&self, node: NI) -> (targets: &[Target<NI, EV>])
        ensures
            targets@ == if 0 <= node.value() < self.rows().nodes() {
                self.rows().targets_of(node.value())
            } else {
                Seq::empty()
            },
    {
        proof {
            use_type_invariant(&self.csr);
        }
        if node.index() >= self.csr.offsets.len() - 1 {
            return &self.csr.targets[0..0];
        }
        self.csr.targets_with_values(node)
    }
}

impl<NI: Idx, NV, EV> NodeValue<NI, NV> for UndirectedCSRGraph<NI, NV, EV> {
    open spec fn has_value(&self, node: NI) -> bool {
        0 <= node.value() < self.values().len()
    }

    fn node_value(&self, node: NI) -> (value: &NV)
        ensures
            *value == self.values()[node.value()],
    {
        let len = self.node_values.values.len();
        self.node_values.get(node.index())
    }
}

} // verus!
