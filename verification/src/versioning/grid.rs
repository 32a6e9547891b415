//! The edit graph of two lists: its nodes are the pairs `(column, row)` with
//! `0 <= column <= |prev|` and `0 <= row <= |next|`, its edges the moves of
//! an edit script.

use crate::value::{items_view, Intermediate, IntermediateView};
use crate::versioning::graph::{
    connects, graph_add_edge, graph_add_node, graph_edges, graph_nodes, graph_with_capacity,
    is_path, EditGraph,
};
use vstd::prelude::*;

verus! {

/// The kind of a move in the edit graph.
#[derive(Debug, Clone, Copy, PartialEq, Eq, Structural)]
pub enum EdgeKind {
    /// Diagonal move over two equal items.
    Unchanged,
    /// Diagonal move over two different items.
    Changed,
    /// Vertical move: an item of the new list is added.
    Added,
    /// Horizontal move: an item of the old list is removed.
    Removed,
}

/// Cost of adding an item.
pub const COST_ADDED: usize = 8;

/// Cost of removing an item.
pub const COST_REMOVED: usize = 9;

/// Cost of keeping an item.
pub const COST_UNCHANGED: usize = 10;

/// Cost of changing an item.
pub const COST_CHANGED: usize = 11;

impl EdgeKind {
    /// The cost of a move of this kind.
    pub open spec fn cost_spec(self) -> usize {
        match self {
            EdgeKind::Added => COST_ADDED,
            EdgeKind::Removed => COST_REMOVED,
            EdgeKind::Unchanged => COST_UNCHANGED,
            EdgeKind::Changed => COST_CHANGED,
        }
    }

    /// The cost of a move of this kind.
    pub fn cost(&self) -> (r: usize)
        ensures
            r == self.cost_spec(),
    {
        match self {
            EdgeKind::Added => COST_ADDED,
            EdgeKind::Removed => COST_REMOVED,
            EdgeKind::Unchanged => COST_UNCHANGED,
            EdgeKind::Changed => COST_CHANGED,
        }
    }

    /// The kind of move that has the given cost, if there is one.
    pub fn from_cost(cost: usize) -> (r: Option<EdgeKind>)
        ensures
            match r {
                Some(kind) => kind.cost_spec() == cost,
                None => cost != COST_ADDED && cost != COST_REMOVED && cost != COST_UNCHANGED
                    && cost != COST_CHANGED,
            },
    {
        if cost == COST_ADDED {
            Some(EdgeKind::Added)
        } else if cost == COST_REMOVED {
            Some(EdgeKind::Removed)
        } else if cost == COST_UNCHANGED {
            Some(EdgeKind::Unchanged)
        } else if cost == COST_CHANGED {
            Some(EdgeKind::Changed)
        } else {
            None
        }
    }
}

/// Whether the edit graph of lists of lengths `n` and `m` can be held: the
/// graph indexes its nodes and edges by `u32`, and sums path costs in `usize`.
#[verifier::opaque]
pub open spec fn grid_fits(n: nat, m: nat) -> bool {
    &&& counts_fit(n, m)
    &&& COST_CHANGED * ((n + 1) * (m + 1)) <= usize::MAX
}

/// The counts of nodes and edges of the grid are within `u32`.
pub open spec fn counts_fit(n: nat, m: nat) -> bool {
    &&& (n + 1) * (m + 1) <= u32::MAX
    &&& n * (m + 1) + (n + 1) * m + n * m <= u32::MAX
}

/// Index of the node at `(col, row)` in a grid with `n + 1` columns.
pub open spec fn node_at(n: nat, col: int, row: int) -> int {
    row * (n + 1) + col
}

/// Location `(column, row)` of the node with index `k`.
pub open spec fn location_of(n: nat, k: int) -> (usize, usize) {
    ((k % (n + 1) as int) as usize, (k / (n + 1) as int) as usize)
}

/// The nodes of the grid, row by row.
#[verifier::opaque]
pub open spec fn grid_nodes(n: nat, m: nat) -> Seq<(usize, usize)> {
    Seq::new((n + 1) * (m + 1), |k: int| location_of(n, k))
}

/// The `k`-th horizontal edge: rows in order, in each row the columns in
/// order. It removes the item of its column.
pub open spec fn horizontal_edge(n: nat, k: int) -> (usize, usize, usize) {
    let row = k / n as int;
    let col = k % n as int;
    (node_at(n, col, row) as usize, node_at(n, col + 1, row) as usize, COST_REMOVED)
}

/// The `k`-th vertical edge: columns in order, in each column the rows in
/// order. It adds the item of its row.
pub open spec fn vertical_edge(n: nat, m: nat, k: int) -> (usize, usize, usize) {
    let col = k / m as int;
    let row = k % m as int;
    (node_at(n, col, row) as usize, node_at(n, col, row + 1) as usize, COST_ADDED)
}

/// Cost of the diagonal move over `prev[col]` and `next[row]`.
pub open spec fn diagonal_cost(
    prev: Seq<IntermediateView>,
    next: Seq<IntermediateView>,
    col: int,
    row: int,
) -> usize {
    if prev[col] == next[row] {
        COST_UNCHANGED
    } else {
        COST_CHANGED
    }
}

/// The `k`-th diagonal edge: columns in order, in each column the rows in
/// order.
pub open spec fn diagonal_edge(
    prev: Seq<IntermediateView>,
    next: Seq<IntermediateView>,
    k: int,
) -> (usize, usize, usize) {
    let n = prev.len();
    let m = next.len();
    let col = k / m as int;
    let row = k % m as int;
    (
        node_at(n, col, row) as usize,
        node_at(n, col + 1, row + 1) as usize,
        diagonal_cost(prev, next, col, row),
    )
}

/// The horizontal edges of the grid.
#[verifier::opaque]
pub open spec fn horizontal_edges(n: nat, m: nat) -> Seq<(usize, usize, usize)> {
    Seq::new(n * (m + 1), |k: int| horizontal_edge(n, k))
}

/// The vertical edges of the grid.
#[verifier::opaque]
pub open spec fn vertical_edges(n: nat, m: nat) -> Seq<(usize, usize, usize)> {
    Seq::new((n + 1) * m, |k: int| vertical_edge(n, m, k))
}

/// The diagonal edges of the grid.
#[verifier::opaque]
pub open spec fn diagonal_edges(prev: Seq<IntermediateView>, next: Seq<IntermediateView>) -> Seq<
    (usize, usize, usize),
> {
    Seq::new(prev.len() * next.len(), |k: int| diagonal_edge(prev, next, k))
}

/// The edges of the edit graph of `prev` and `next`, in the order in which
/// they are added: horizontal, vertical, diagonal.
pub open spec fn grid_edges(prev: Seq<IntermediateView>, next: Seq<IntermediateView>) -> Seq<
    (usize, usize, usize),
> {
    horizontal_edges(prev.len(), next.len()) + vertical_edges(prev.len(), next.len())
        + diagonal_edges(prev, next)
}

/// Division and remainder of `outer * d + inner`.
pub proof fn lemma_cell(d: int, outer: int, inner: int)
    requires
        d > 0,
        0 <= inner < d,
        0 <= outer,
    ensures
        (outer * d + inner) / d == outer,
        (outer * d + inner) % d == inner,
{
    vstd::arithmetic::div_mod::lemma_fundamental_div_mod_converse(
        outer * d + inner,
        d,
        outer,
        inner,
    );
}

/// A cell of a table with `count` lines of `d` cells lies below `count * d`.
pub proof fn lemma_cell_bound(d: int, outer: int, inner: int, count: int)
    requires
        0 <= inner < d,
        0 <= outer < count,
    ensures
        0 <= outer * d + inner < count * d,
        0 <= outer * d <= count * d,
{
    assert(outer * d + d <= count * d) by (nonlinear_arith)
        requires
            outer + 1 <= count,
            d > 0,
    ;
    assert(0 <= outer * d) by (nonlinear_arith)
        requires
            0 <= outer,
            d > 0,
    ;
}

/// The line and the cell of an index below `count * d`.
pub proof fn lemma_cell_of(d: int, k: int, count: int)
    requires
        d > 0,
        0 <= k < count * d,
    ensures
        0 <= k / d < count,
        0 <= k % d < d,
        k == (k / d) * d + k % d,
{
    vstd::arithmetic::div_mod::lemma_fundamental_div_mod(k, d);
    vstd::arithmetic::div_mod::lemma_mod_bound(k, d);
    let q = k / d;
    assert(q * d == d * q) by (nonlinear_arith);
    assert(q >= 0) by (nonlinear_arith)
        requires
            q * d + k % d == k,
            0 <= k % d < d,
            k >= 0,
            d > 0,
    ;
    assert(q < count) by (nonlinear_arith)
        requires
            q * d + k % d == k,
            0 <= k % d < d,
            k < count * d,
            d > 0,
    ;
}

/// Bounds that follow from a bound on the count of nodes.
pub proof fn lemma_grid_bounds(n: nat, m: nat)
    requires
        (n + 1) * (m + 1) <= u32::MAX,
    ensures
        n + 1 <= u32::MAX,
        m + 1 <= u32::MAX,
        n * (m + 1) <= (n + 1) * (m + 1),
        (n + 1) * m <= (n + 1) * (m + 1),
        m * (n + 1) <= (n + 1) * (m + 1),
        n * m <= (n + 1) * (m + 1),
        (m + 1) * (n + 1) == (n + 1) * (m + 1),
{
    assert(n + 1 <= (n + 1) * (m + 1)) by (nonlinear_arith);
    assert(m + 1 <= (n + 1) * (m + 1)) by (nonlinear_arith);
    assert(n * (m + 1) <= (n + 1) * (m + 1)) by (nonlinear_arith);
    assert((n + 1) * m <= (n + 1) * (m + 1)) by (nonlinear_arith);
    assert(m * (n + 1) <= (n + 1) * (m + 1)) by (nonlinear_arith);
    assert(n * m <= (n + 1) * (m + 1)) by (nonlinear_arith);
    assert((m + 1) * (n + 1) == (n + 1) * (m + 1)) by (nonlinear_arith);
}

/// What an edge of the edit graph is: a move from a node of the grid to its
/// right neighbour, to the node below it, or to the node right below it, with
/// the cost of its kind.
#[verifier::opaque]
pub open spec fn is_grid_move(
    prev: Seq<IntermediateView>,
    next: Seq<IntermediateView>,
    edge: (usize, usize, usize),
) -> bool {
    let n = prev.len() as int;
    let m = next.len() as int;
    let cols = n + 1;
    let a = edge.0 as int;
    let b = edge.1 as int;
    let col = a % cols;
    let row = a / cols;
    &&& 0 <= a < cols * (m + 1)
    &&& 0 <= b < cols * (m + 1)
    &&& 0 <= col <= n
    &&& 0 <= row <= m
    &&& a == row * cols + col
    &&& {
        ||| (b == a + 1 && edge.2 == COST_REMOVED && col < n && b / cols == row && b % cols == col
            + 1)
        ||| (b == a + cols && edge.2 == COST_ADDED && row < m && b / cols == row + 1 && b % cols
            == col)
        ||| (b == a + cols + 1 && edge.2 == diagonal_cost(prev, next, col, row) && col < n && row
            < m && b / cols == row + 1 && b % cols == col + 1)
    }
}

/// Every edge of the edit graph is a move of the grid.
pub proof fn lemma_grid_edge(prev: Seq<IntermediateView>, next: Seq<IntermediateView>, e: int)
    requires
        prev.len() >= 1,
        next.len() >= 1,
        grid_fits(prev.len(), next.len()),
        0 <= e < grid_edges(prev, next).len(),
    ensures
        is_grid_move(prev, next, grid_edges(prev, next)[e]),
{
    reveal(grid_fits);
    reveal(horizontal_edges);
    reveal(vertical_edges);
    reveal(diagonal_edges);
    reveal(is_grid_move);
    let n = prev.len() as int;
    let m = next.len() as int;
    let cols = n + 1;
    let rows = m + 1;
    lemma_grid_bounds(prev.len(), next.len());
    let h = horizontal_edges(prev.len(), next.len());
    let v = vertical_edges(prev.len(), next.len());
    let d = diagonal_edges(prev, next);
    assert(rows * cols == cols * rows) by (nonlinear_arith);
    assert(rows * n == n * rows) by (nonlinear_arith);
    if e < h.len() {
        let row = e / n;
        let col = e % n;
        lemma_cell_of(n, e, rows);
        lemma_cell(cols, row, col);
        lemma_cell(cols, row, col + 1);
        lemma_cell_bound(cols, row, col, rows);
        lemma_cell_bound(cols, row, col + 1, rows);
        assert(grid_edges(prev, next)[e] == horizontal_edge(prev.len(), e));
    } else if e < h.len() + v.len() {
        let k = e - h.len();
        let col = k / m;
        let row = k % m;
        lemma_cell_of(m, k, cols);
        lemma_cell(cols, row, col);
        lemma_cell(cols, row + 1, col);
        lemma_cell_bound(cols, row, col, rows);
        lemma_cell_bound(cols, row + 1, col, rows);
        assert((row + 1) * cols == row * cols + cols) by (nonlinear_arith);
        assert(grid_edges(prev, next)[e] == vertical_edge(prev.len(), next.len(), k));
    } else {
        let k = e - h.len() - v.len();
        let col = k / m;
        let row = k % m;
        lemma_cell_of(m, k, n);
        lemma_cell(cols, row, col);
        lemma_cell(cols, row + 1, col + 1);
        lemma_cell_bound(cols, row, col, rows);
        lemma_cell_bound(cols, row + 1, col + 1, rows);
        assert((row + 1) * cols == row * cols + cols) by (nonlinear_arith);
        assert(grid_edges(prev, next)[e] == diagonal_edge(prev, next, k));
    }
}

/// The path along the border of the grid: through the first row to its end,
/// then down the last column.
pub open spec fn border_path(n: nat, m: nat) -> Seq<usize> {
    Seq::new(
        n + m + 1,
        |k: int|
            if k <= n {
                k as usize
            } else {
                ((k - n) * (n + 1) + n) as usize
            },
    )
}

/// The last node of the edit graph can be reached from the first: the border
/// path leads there.
pub proof fn lemma_grid_connected(prev: Seq<IntermediateView>, next: Seq<IntermediateView>)
    requires
        prev.len() >= 1,
        next.len() >= 1,
        grid_fits(prev.len(), next.len()),
    ensures
        is_path(
            grid_edges(prev, next),
            border_path(prev.len(), next.len()),
            0,
            ((prev.len() + 1) * (next.len() + 1) - 1) as usize,
        ),
{
    reveal(grid_fits);
    reveal(horizontal_edges);
    reveal(vertical_edges);
    reveal(diagonal_edges);
    let n = prev.len() as int;
    let m = next.len() as int;
    let cols = n + 1;
    let rows = m + 1;
    let edges = grid_edges(prev, next);
    let path = border_path(prev.len(), next.len());
    lemma_grid_bounds(prev.len(), next.len());
    assert(rows * cols == cols * rows) by (nonlinear_arith);
    assert(m * cols + n == cols * rows - 1) by (nonlinear_arith)
        requires
            cols == n + 1,
            rows == m + 1,
    ;
    assert(n * rows >= n) by (nonlinear_arith)
        requires
            rows >= 1,
            n >= 0,
    ;
    assert(cols * m == n * m + m) by (nonlinear_arith)
        requires
            cols == n + 1,
    ;
    assert(n * rows == n * (m + 1)) by (nonlinear_arith)
        requires
            rows == m + 1,
    ;
    assert forall|k: int| 0 <= k < path.len() - 1 implies connects(
        edges,
        #[trigger] path[k],
        path[k + 1],
    ) by {
        if k < n {
            lemma_cell(n, 0, k);
            lemma_cell_bound(cols, 0, k + 1, rows);
            assert(0 * n + k == k);
            assert(0 * cols + k == k) by (nonlinear_arith);
            assert(0 * cols + (k + 1) == k + 1) by (nonlinear_arith);
            assert(edges[k] == horizontal_edge(prev.len(), k));
            assert(edges[k].0 == path[k] && edges[k].1 == path[k + 1]);
        } else {
            let r = k - n;
            let j = n * m + r;
            lemma_cell(m, n, r);
            lemma_cell_bound(cols, r, n, rows);
            lemma_cell_bound(cols, r + 1, n, rows);
            let e = n * rows + j;
            assert(edges[e] == vertical_edge(prev.len(), next.len(), j));
            assert(r * (n + 1) + n == r * cols + n);
            assert((r + 1) * (n + 1) + n == (r + 1) * cols + n);
            if r == 0 {
                assert(0 * cols + n == n) by (nonlinear_arith);
            }
            assert(edges[e].0 == path[k] && edges[e].1 == path[k + 1]);
        }
    }
    assert(path[path.len() - 1] == (m * (n + 1) + n) as usize);
}

/// Adds the nodes of the grid, row by row.
fn add_grid_nodes(g: &mut EditGraph, n: usize, m: usize)
    requires
        graph_nodes(*old(g)).len() == 0,
        (n + 1) * (m + 1) <= u32::MAX,
    ensures
        graph_nodes(*final(g)) == grid_nodes(n as nat, m as nat),
        graph_nodes(*final(g)).len() == (n + 1) * (m + 1),
        graph_edges(*final(g)) == graph_edges(*old(g)),
{
    proof {
        lemma_grid_bounds(n as nat, m as nat);
    }
    let cols: usize = n + 1;
    let rows: usize = m + 1;
    let mut row: usize = 0;
    while row < rows
        invariant
            cols == n + 1,
            rows == m + 1,
            cols * rows <= u32::MAX,
            row <= rows,
            graph_nodes(*g).len() == row * cols,
            forall|k: int|
                0 <= k < graph_nodes(*g).len() ==> #[trigger] graph_nodes(*g)[k] == location_of(
                    n as nat,
                    k,
                ),
            graph_edges(*g) == graph_edges(*old(g)),
        decreases rows - row,
    {
        let mut col: usize = 0;
        while col < cols
            invariant
                cols == n + 1,
                rows == m + 1,
                cols * rows <= u32::MAX,
                row < rows,
                col <= cols,
                graph_nodes(*g).len() == row * cols + col,
                forall|k: int|
                    0 <= k < graph_nodes(*g).len() ==> #[trigger] graph_nodes(*g)[k]
                        == location_of(n as nat, k),
                graph_edges(*g) == graph_edges(*old(g)),
            decreases cols - col,
        {
            proof {
                lemma_cell_bound(cols as int, row as int, col as int, rows as int);
                lemma_cell(cols as int, row as int, col as int);
                assert(rows * cols == cols * rows) by (nonlinear_arith);
            }
            graph_add_node(g, (col, row));
            col += 1;
        }
        proof {
            assert((row + 1) * cols == row * cols + cols) by (nonlinear_arith);
        }
        row += 1;
    }
    proof {
        assert(rows * cols == (n + 1) * (m + 1)) by (nonlinear_arith)
            requires
                cols == n + 1,
                rows == m + 1,
        ;
        reveal(grid_nodes);
        assert(graph_nodes(*g) =~= grid_nodes(n as nat, m as nat));
    }
}

/// Adds the horizontal edges: one from each node to its right neighbour.
fn add_horizontal_edges(g: &mut EditGraph, n: usize, m: usize)
    requires
        n >= 1,
        counts_fit(n as nat, m as nat),
        graph_nodes(*old(g)).len() == (n + 1) * (m + 1),
        graph_edges(*old(g)).len() == 0,
    ensures
        graph_nodes(*final(g)) == graph_nodes(*old(g)),
        graph_edges(*final(g)) == horizontal_edges(n as nat, m as nat),
{
    proof {
        lemma_grid_bounds(n as nat, m as nat);
    }
    let cols: usize = n + 1;
    let rows: usize = m + 1;
    let mut row: usize = 0;
    while row < rows
        invariant
            n >= 1,
            cols == n + 1,
            rows == m + 1,
            counts_fit(n as nat, m as nat),
            row <= rows,
            graph_nodes(*g) == graph_nodes(*old(g)),
            graph_nodes(*g).len() == (n + 1) * (m + 1),
            graph_edges(*g).len() == row * n,
            forall|k: int|
                0 <= k < graph_edges(*g).len() ==> #[trigger] graph_edges(*g)[k]
                    == horizontal_edge(n as nat, k),
        decreases rows - row,
    {
        let mut col: usize = 0;
        while col < n
            invariant
                n >= 1,
                cols == n + 1,
                rows == m + 1,
                counts_fit(n as nat, m as nat),
                row < rows,
                col <= n,
                graph_nodes(*g) == graph_nodes(*old(g)),
                graph_nodes(*g).len() == (n + 1) * (m + 1),
                graph_edges(*g).len() == row * n + col,
                forall|k: int|
                    0 <= k < graph_edges(*g).len() ==> #[trigger] graph_edges(*g)[k]
                        == horizontal_edge(n as nat, k),
            decreases n - col,
        {
            proof {
                lemma_cell_bound(n as int, row as int, col as int, rows as int);
                lemma_cell(n as int, row as int, col as int);
                lemma_cell_bound(cols as int, row as int, col as int + 1, rows as int);
                assert(rows * cols == (n + 1) * (m + 1)) by (nonlinear_arith)
                    requires
                        cols == n + 1,
                        rows == m + 1,
                ;
                assert(rows * n == n * (m + 1)) by (nonlinear_arith)
                    requires
                        rows == m + 1,
                ;
            }
            let from = row * cols + col;
            graph_add_edge(g, from, from + 1, COST_REMOVED);
            col += 1;
        }
        proof {
            assert((row + 1) * n == row * n + n) by (nonlinear_arith);
        }
        row += 1;
    }
    proof {
        assert(rows * n == n * (m + 1)) by (nonlinear_arith)
            requires
                rows == m + 1,
        ;
        reveal(horizontal_edges);
        assert(graph_edges(*g) =~= horizontal_edges(n as nat, m as nat));
    }
}

/// Adds the vertical edges: one from each node to the node below it.
fn add_vertical_edges(g: &mut EditGraph, n: usize, m: usize)
    requires
        m >= 1,
        counts_fit(n as nat, m as nat),
        graph_nodes(*old(g)).len() == (n + 1) * (m + 1),
        graph_edges(*old(g)) == horizontal_edges(n as nat, m as nat),
    ensures
        graph_nodes(*final(g)) == graph_nodes(*old(g)),
        graph_edges(*final(g)) == horizontal_edges(n as nat, m as nat) + vertical_edges(
            n as nat,
            m as nat,
        ),
{
    proof {
        lemma_grid_bounds(n as nat, m as nat);
    }
    let cols: usize = n + 1;
    let rows: usize = m + 1;
    let ghost base = horizontal_edges(n as nat, m as nat);
    proof {
        reveal(horizontal_edges);
        assert(base.len() == n * (m + 1));
    }
    let mut col: usize = 0;
    while col < cols
        invariant
            base.len() == n * (m + 1),
            m >= 1,
            cols == n + 1,
            rows == m + 1,
            counts_fit(n as nat, m as nat),
            base == horizontal_edges(n as nat, m as nat),
            col <= cols,
            graph_nodes(*g) == graph_nodes(*old(g)),
            graph_nodes(*g).len() == (n + 1) * (m + 1),
            graph_edges(*g).len() == base.len() + col * m,
            forall|k: int| 0 <= k < base.len() ==> #[trigger] graph_edges(*g)[k] == base[k],
            forall|k: int|
                0 <= k < col * m ==> #[trigger] graph_edges(*g)[base.len() + k] == vertical_edge(
                    n as nat,
                    m as nat,
                    k,
                ),
        decreases cols - col,
    {
        let mut row: usize = 0;
        while row < m
            invariant
                base.len() == n * (m + 1),
                m >= 1,
                cols == n + 1,
                rows == m + 1,
                counts_fit(n as nat, m as nat),
                base == horizontal_edges(n as nat, m as nat),
                col < cols,
                row <= m,
                graph_nodes(*g) == graph_nodes(*old(g)),
                graph_nodes(*g).len() == (n + 1) * (m + 1),
                graph_edges(*g).len() == base.len() + col * m + row,
                forall|k: int| 0 <= k < base.len() ==> #[trigger] graph_edges(*g)[k] == base[k],
                forall|k: int|
                    0 <= k < col * m + row ==> #[trigger] graph_edges(*g)[base.len() + k]
                        == vertical_edge(n as nat, m as nat, k),
            decreases m - row,
        {
            proof {
                lemma_cell_bound(m as int, col as int, row as int, cols as int);
                lemma_cell(m as int, col as int, row as int);
                lemma_cell_bound(cols as int, row as int, col as int, rows as int);
                lemma_cell_bound(cols as int, row as int + 1, col as int, rows as int);
                assert(rows * cols == (n + 1) * (m + 1)) by (nonlinear_arith)
                    requires
                        cols == n + 1,
                        rows == m + 1,
                ;
                assert(cols * m == (n + 1) * m) by (nonlinear_arith)
                    requires
                        cols == n + 1,
                ;
                assert((row + 1) * cols == row * cols + cols) by (nonlinear_arith);
            }
            let from = row * cols + col;
            let to = (row + 1) * cols + col;
            let ghost before = graph_edges(*g);
            graph_add_edge(g, from, to, COST_ADDED);
            proof {
                assert forall|k: int| 0 <= k < col * m + row + 1 implies #[trigger] graph_edges(
                    *g,
                )[base.len() + k] == vertical_edge(n as nat, m as nat, k) by {
                    if k < col * m + row {
                        assert(graph_edges(*g)[base.len() + k] == before[base.len() + k]);
                    }
                }
            }
            row += 1;
        }
        proof {
            assert((col + 1) * m == col * m + m) by (nonlinear_arith);
        }
        col += 1;
    }
    proof {
        assert(cols * m == (n + 1) * m) by (nonlinear_arith)
            requires
                cols == n + 1,
        ;
        reveal(vertical_edges);
        let whole = base + vertical_edges(n as nat, m as nat);
        assert forall|k: int| 0 <= k < whole.len() implies graph_edges(*g)[k] == whole[k] by {
            if k >= base.len() {
                assert(graph_edges(*g)[base.len() + (k - base.len())] == vertical_edge(
                    n as nat,
                    m as nat,
                    k - base.len(),
                ));
            }
        }
        assert(graph_edges(*g) =~= whole);
    }
}

/// Adds the diagonal edges: one from each node to the node right below it,
/// costed by whether the two items that it passes are equal.
fn add_diagonal_edges(g: &mut EditGraph, prev: &[Intermediate], next: &[Intermediate])
    requires
        prev@.len() >= 1,
        next@.len() >= 1,
        counts_fit(prev@.len(), next@.len()),
        graph_nodes(*old(g)).len() == (prev@.len() + 1) * (next@.len() + 1),
        graph_edges(*old(g)) == horizontal_edges(prev@.len(), next@.len()) + vertical_edges(
            prev@.len(),
            next@.len(),
        ),
    ensures
        graph_nodes(*final(g)) == graph_nodes(*old(g)),
        graph_edges(*final(g)) == grid_edges(items_view(prev@), items_view(next@)),
{
    let n: usize = prev.len();
    let m: usize = next.len();
    proof {
        lemma_grid_bounds(n as nat, m as nat);
    }
    let cols: usize = n + 1;
    let rows: usize = m + 1;
    let ghost pv = items_view(prev@);
    let ghost nv = items_view(next@);
    let ghost base = horizontal_edges(n as nat, m as nat) + vertical_edges(n as nat, m as nat);
    proof {
        reveal(horizontal_edges);
        reveal(vertical_edges);
        assert(base.len() == n * (m + 1) + (n + 1) * m);
    }
    let mut col: usize = 0;
    while col < n
        invariant
            base.len() == n * (m + 1) + (n + 1) * m,
            n == prev@.len(),
            m == next@.len(),
            n >= 1,
            m >= 1,
            cols == n + 1,
            rows == m + 1,
            pv == items_view(prev@),
            nv == items_view(next@),
            counts_fit(n as nat, m as nat),
            base == horizontal_edges(n as nat, m as nat) + vertical_edges(n as nat, m as nat),
            col <= n,
            graph_nodes(*g) == graph_nodes(*old(g)),
            graph_nodes(*g).len() == (n + 1) * (m + 1),
            graph_edges(*g).len() == base.len() + col * m,
            forall|k: int| 0 <= k < base.len() ==> #[trigger] graph_edges(*g)[k] == base[k],
            forall|k: int|
                0 <= k < col * m ==> #[trigger] graph_edges(*g)[base.len() + k] == diagonal_edge(
                    pv,
                    nv,
                    k,
                ),
        decreases n - col,
    {
        let mut row: usize = 0;
        while row < m
            invariant
                base.len() == n * (m + 1) + (n + 1) * m,
                n == prev@.len(),
                m == next@.len(),
                n >= 1,
                m >= 1,
                cols == n + 1,
                rows == m + 1,
                pv == items_view(prev@),
                nv == items_view(next@),
                counts_fit(n as nat, m as nat),
                base == horizontal_edges(n as nat, m as nat) + vertical_edges(n as nat, m as nat),
                col < n,
                row <= m,
                graph_nodes(*g) == graph_nodes(*old(g)),
                graph_nodes(*g).len() == (n + 1) * (m + 1),
                graph_edges(*g).len() == base.len() + col * m + row,
                forall|k: int| 0 <= k < base.len() ==> #[trigger] graph_edges(*g)[k] == base[k],
                forall|k: int|
                    0 <= k < col * m + row ==> #[trigger] graph_edges(*g)[base.len() + k]
                        == diagonal_edge(pv, nv, k),
            decreases m - row,
        {
            proof {
                lemma_cell_bound(m as int, col as int, row as int, n as int);
                lemma_cell(m as int, col as int, row as int);
                lemma_cell_bound(cols as int, row as int, col as int, rows as int);
                lemma_cell_bound(cols as int, row as int + 1, col as int + 1, rows as int);
                assert(rows * cols == (n + 1) * (m + 1)) by (nonlinear_arith)
                    requires
                        cols == n + 1,
                        rows == m + 1,
                ;
                assert((row + 1) * cols == row * cols + cols) by (nonlinear_arith);
                assert(pv[col as int] == prev@[col as int]@);
                assert(nv[row as int] == next@[row as int]@);
            }
            let from = row * cols + col;
            let to = (row + 1) * cols + col + 1;
            let cost = if prev[col].eq_tree(&next[row]) {
                COST_UNCHANGED
            } else {
                COST_CHANGED
            };
            let ghost before = graph_edges(*g);
            graph_add_edge(g, from, to, cost);
            proof {
                assert forall|k: int| 0 <= k < col * m + row + 1 implies #[trigger] graph_edges(
                    *g,
                )[base.len() + k] == diagonal_edge(pv, nv, k) by {
                    if k < col * m + row {
                        assert(graph_edges(*g)[base.len() + k] == before[base.len() + k]);
                    }
                }
            }
            row += 1;
        }
        proof {
            assert((col + 1) * m == col * m + m) by (nonlinear_arith);
        }
        col += 1;
    }
    proof {
        reveal(diagonal_edges);
        let whole = grid_edges(pv, nv);
        assert(pv.len() == n && nv.len() == m);
        assert forall|k: int| 0 <= k < whole.len() implies graph_edges(*g)[k] == whole[k] by {
            if k >= base.len() {
                assert(graph_edges(*g)[base.len() + (k - base.len())] == diagonal_edge(
                    pv,
                    nv,
                    k - base.len(),
                ));
            }
        }
        assert(graph_edges(*g) =~= whole);
    }
}

/// Tests whether the edit graph of lists of lengths `n` and `m` can be held.
pub fn grid_is_within_limits(n: usize, m: usize) -> (r: bool)
    ensures
        r == grid_fits(n as nat, m as nat),
{
    proof {
        reveal(grid_fits);
    }
    if n >= 0xffff_ffff || m >= 0xffff_ffff {
        proof {
            reveal(grid_fits);
            assert((n + 1) * (m + 1) > u32::MAX) by (nonlinear_arith)
                requires
                    n >= 0xffff_ffff || m >= 0xffff_ffff,
                    n >= 0,
                    m >= 0,
            ;
        }
        return false;
    }
    let cols: u128 = n as u128 + 1;
    let rows: u128 = m as u128 + 1;
    let wide_n: u128 = n as u128;
    let wide_m: u128 = m as u128;
    proof {
        assert(cols * rows <= 0x1_0000_0000 * 0x1_0000_0000) by (nonlinear_arith)
            requires
                cols <= 0x1_0000_0000,
                rows <= 0x1_0000_0000,
        ;
        assert(wide_n * rows <= 0x1_0000_0000 * 0x1_0000_0000) by (nonlinear_arith)
            requires
                wide_n <= 0x1_0000_0000,
                rows <= 0x1_0000_0000,
        ;
        assert(cols * wide_m <= 0x1_0000_0000 * 0x1_0000_0000) by (nonlinear_arith)
            requires
                cols <= 0x1_0000_0000,
                wide_m <= 0x1_0000_0000,
        ;
        assert(wide_n * wide_m <= 0x1_0000_0000 * 0x1_0000_0000) by (nonlinear_arith)
            requires
                wide_n <= 0x1_0000_0000,
                wide_m <= 0x1_0000_0000,
        ;
    }
    let nodes: u128 = cols * rows;
    let edges: u128 = wide_n * rows + cols * wide_m + wide_n * wide_m;
    let limit: u128 = 0xffff_ffff;
    proof {
        reveal(grid_fits);
    }
    nodes <= limit && edges <= limit && 11 * nodes <= usize::MAX as u128
}

/// Builds the edit graph of two lists that are not empty.
pub fn build_edit_graph(prev: &[Intermediate], next: &[Intermediate]) -> (g: EditGraph)
    requires
        prev@.len() >= 1,
        next@.len() >= 1,
        grid_fits(prev@.len(), next@.len()),
    ensures
        graph_nodes(g) == grid_nodes(prev@.len(), next@.len()),
        graph_edges(g) == grid_edges(items_view(prev@), items_view(next@)),
{
    let n: usize = prev.len();
    let m: usize = next.len();
    proof {
        reveal(grid_fits);
        assert(counts_fit(n as nat, m as nat));
        lemma_grid_bounds(n as nat, m as nat);
        assert(n * (m + 1) >= 0 && (n + 1) * m >= 0 && n * m >= 0) by (nonlinear_arith)
            requires
                n >= 0,
                m >= 0,
        ;
    }
    let cols: usize = n + 1;
    let rows: usize = m + 1;
    let mut graph = graph_with_capacity(cols * rows, n * rows + m * cols + n * m);
    add_grid_nodes(&mut graph, n, m);
    add_horizontal_edges(&mut graph, n, m);
    add_vertical_edges(&mut graph, n, m);
    add_diagonal_edges(&mut graph, prev, next);
    graph
}

} // verus!
