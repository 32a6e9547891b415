//! Computing the change between two trees.

use crate::value::{entries_view, fields_view, items_view, Intermediate, IntermediateView};
use crate::versioning::change::{
    map_changes_view, seq_changes_view, struct_changes_view, Change, ChangeView,
};
use crate::versioning::graph::{
    astar_path, connects, graph_astar, graph_edge_weight, graph_edges, graph_find_edge,
    graph_node_weight, graph_nodes, is_cheapest_path, is_path, EditGraph,
};
use crate::versioning::grid::{
    build_edit_graph, diagonal_edges, grid_edges, grid_fits, grid_is_within_limits, grid_nodes,
    horizontal_edges, is_grid_move, lemma_cell, lemma_grid_bounds, lemma_grid_connected,
    lemma_grid_edge,
    vertical_edges, EdgeKind, COST_ADDED, COST_CHANGED, COST_REMOVED, COST_UNCHANGED,
};
use crate::versioning::optimize::{optimize_spec, DiffOptimizationHint, DiffOptions};
use crate::error::ErrorView;
use crate::versioning::keyed::{
    changed_with, keys_aligned, lemma_keyed_patch, lemma_map_patch_is_keyed,
    lemma_position_found, lemma_struct_patch_is_keyed,
};
use crate::versioning::patch::{
    find_entry, find_field, patch_map_from, patch_seq_from, patch_spec, patch_struct_from,
    position_of,
};
use crate::versioning::replay::{
    lemma_list_state_ends, lemma_replay_added, lemma_replay_all_added, lemma_replay_all_removed,
    lemma_replay_changed, lemma_replay_push, lemma_replay_removed, lemma_replay_unchanged,
    list_state,
};
use vstd::prelude::*;

verus! {

/// The entries `(key, Added(value))` for the entries of `next[k..]` whose key
/// does not occur in `prev`, in the order of `next`.
pub open spec fn added_from<K>(
    prev: Seq<(K, IntermediateView)>,
    next: Seq<(K, IntermediateView)>,
    k: int,
) -> Seq<(K, ChangeView)>
    decreases next.len() - k,
{
    if k < 0 || k >= next.len() {
        Seq::empty()
    } else if position_of(prev, next[k].0).is_none() {
        seq![(next[k].0, ChangeView::Added(next[k].1))] + added_from(prev, next, k + 1)
    } else {
        added_from(prev, next, k + 1)
    }
}

/// The entries `(key, Removed)` for the entries of `prev[k..]` whose key does
/// not occur in `next`, in the order of `prev`.
pub open spec fn removed_from<K>(
    prev: Seq<(K, IntermediateView)>,
    next: Seq<(K, IntermediateView)>,
    k: int,
) -> Seq<(K, ChangeView)>
    decreases prev.len() - k,
{
    if k < 0 || k >= prev.len() {
        Seq::empty()
    } else if position_of(next, prev[k].0).is_none() {
        seq![(prev[k].0, ChangeView::Removed)] + removed_from(prev, next, k + 1)
    } else {
        removed_from(prev, next, k + 1)
    }
}

/// The change from `prev` to `next` under the given optimization hint.
///
/// Equal trees give `Same`. Otherwise single content, lists and keyed
/// entries are compared part by part, every other pair of trees gives
/// `Changed(next)`, and the optimization policy is applied to the outcome.
pub open spec fn diff_spec(
    prev: IntermediateView,
    next: IntermediateView,
    hint: DiffOptimizationHint,
) -> ChangeView
    decreases prev, 0int, 0int,
{
    if prev == next {
        ChangeView::Same
    } else {
        optimize_spec(
            match prev {
                IntermediateView::Option(Some(p)) => match next {
                    IntermediateView::Option(Some(n)) => ChangeView::PartialChange(
                        Box::new(diff_spec(*p, *n, hint)),
                    ),
                    _ => ChangeView::Changed(next),
                },
                IntermediateView::NewTypeStruct(p) => match next {
                    IntermediateView::NewTypeStruct(n) => ChangeView::PartialChange(
                        Box::new(diff_spec(*p, *n, hint)),
                    ),
                    _ => ChangeView::Changed(next),
                },
                IntermediateView::NewTypeVariant(pn, p) => match next {
                    IntermediateView::NewTypeVariant(nn, n) => if pn != nn {
                        ChangeView::Changed(next)
                    } else {
                        ChangeView::PartialChange(Box::new(diff_spec(*p, *n, hint)))
                    },
                    _ => ChangeView::Changed(next),
                },
                IntermediateView::Sequence(p) => match next {
                    IntermediateView::Sequence(n) => list_diff_spec(p, n, hint, next),
                    _ => ChangeView::Changed(next),
                },
                IntermediateView::Tuple(p) => match next {
                    IntermediateView::Tuple(n) => list_diff_spec(p, n, hint, next),
                    _ => ChangeView::Changed(next),
                },
                IntermediateView::TupleStruct(p) => match next {
                    IntermediateView::TupleStruct(n) => list_diff_spec(p, n, hint, next),
                    _ => ChangeView::Changed(next),
                },
                IntermediateView::Mapping(p) => match next {
                    IntermediateView::Mapping(n) => ChangeView::PartialMap(
                        added_from(p, n, 0) + removed_from(p, n, 0) + map_changed_from(
                            p,
                            n,
                            hint,
                            0,
                        ),
                    ),
                    _ => ChangeView::Changed(next),
                },
                IntermediateView::Struct(p) => match next {
                    IntermediateView::Struct(n) => ChangeView::PartialStruct(
                        added_from(p, n, 0) + removed_from(p, n, 0) + struct_changed_from(
                            p,
                            n,
                            hint,
                            0,
                        ),
                    ),
                    _ => ChangeView::Changed(next),
                },
                IntermediateView::StructVariant(pn, p) => match next {
                    IntermediateView::StructVariant(nn, n) => if pn != nn {
                        ChangeView::Changed(next)
                    } else {
                        ChangeView::PartialStruct(
                            added_from(p, n, 0) + removed_from(p, n, 0) + struct_changed_from(
                                p,
                                n,
                                hint,
                                0,
                            ),
                        )
                    },
                    _ => ChangeView::Changed(next),
                },
                _ => ChangeView::Changed(next),
            },
            prev,
            next,
            hint,
        )
    }
}

/// Whether the lists `prev` and `next` can be aligned: one of them is empty,
/// or their edit graph can be held.
pub open spec fn can_align(n: nat, m: nat) -> bool {
    n == 0 || m == 0 || grid_fits(n, m)
}

/// The change between two lists of one kind: their alignment, or the whole
/// new list where the edit graph cannot be held.
pub open spec fn list_diff_spec(
    prev: Seq<IntermediateView>,
    next: Seq<IntermediateView>,
    hint: DiffOptimizationHint,
    whole: IntermediateView,
) -> ChangeView
    decreases prev, 2int, 0int,
{
    if can_align(prev.len(), next.len()) {
        ChangeView::PartialSeq(sequence_diff_spec(prev, next, hint))
    } else {
        ChangeView::Changed(whole)
    }
}

/// Whether the search through the edit graph of `prev` and `next` finds a
/// path from the first node to the last, and that path costs no more than
/// any other.
pub open spec fn found_cheapest_path(
    prev: Seq<IntermediateView>,
    next: Seq<IntermediateView>,
) -> bool {
    let last = (((prev.len() + 1) * (next.len() + 1)) - 1) as usize;
    match astar_path(grid_edges(prev, next), (prev.len() + 1) * (next.len() + 1), 0, last) {
        Some(path) => is_cheapest_path(grid_edges(prev, next), path, 0, last),
        None => false,
    }
}

/// The edit script that turns `prev` into `next`: additions only where `prev`
/// is empty, removals at the front only where `next` is empty, and otherwise
/// the script along the path that the cheapest path search finds through the
/// edit graph, from its first node to its last.
pub open spec fn sequence_diff_spec(
    prev: Seq<IntermediateView>,
    next: Seq<IntermediateView>,
    hint: DiffOptimizationHint,
) -> Seq<(int, ChangeView)>
    decreases prev, 1int, 0int,
{
    if prev.len() == 0 && next.len() == 0 {
        Seq::empty()
    } else if prev.len() == 0 {
        Seq::new(next.len(), |i: int| (i, ChangeView::Added(next[i])))
    } else if next.len() == 0 {
        Seq::new(prev.len(), |i: int| (0int, ChangeView::Removed))
    } else {
        match astar_path(
            grid_edges(prev, next),
            (prev.len() + 1) * (next.len() + 1),
            0,
            (((prev.len() + 1) * (next.len() + 1)) - 1) as usize,
        ) {
            Some(path) => walk_spec(prev, next, hint, path, 0),
            None => Seq::empty(),
        }
    }
}

/// What the move from node `a` to node `b` of the edit graph emits. The
/// position of an edit is the row of the node that the move leaves. A move to
/// the right removes at the position; a move down adds the item of the row; a
/// diagonal move over equal items emits nothing, and over different items
/// emits their change.
#[verifier::opaque]
pub open spec fn move_spec(
    prev: Seq<IntermediateView>,
    next: Seq<IntermediateView>,
    hint: DiffOptimizationHint,
    a: int,
    b: int,
) -> Option<(int, ChangeView)>
    decreases prev, 0int, 0int,
{
    let cols = prev.len() + 1;
    let col = a % cols as int;
    let row = a / cols as int;
    if b == a + 1 {
        Some((row, ChangeView::Removed))
    } else if b == a + cols {
        Some((row, ChangeView::Added(next[row])))
    } else if 0 <= col < prev.len() && 0 <= row < next.len() && prev[col] != next[row] {
        Some(
            (
                row,
                optimize_spec(diff_spec(prev[col], next[row], hint), prev[col], next[row], hint),
            ),
        )
    } else {
        None
    }
}

/// The edit script along `path[k..]`, a sequence of node indices of the edit
/// graph: what its moves emit, in order.
pub open spec fn walk_spec(
    prev: Seq<IntermediateView>,
    next: Seq<IntermediateView>,
    hint: DiffOptimizationHint,
    path: Seq<usize>,
    k: int,
) -> Seq<(int, ChangeView)>
    decreases prev, 0int, path.len() - k + 1,
{
    if k < 0 || k + 1 >= path.len() {
        Seq::empty()
    } else {
        let rest = walk_spec(prev, next, hint, path, k + 1);
        match move_spec(prev, next, hint, path[k] as int, path[k + 1] as int) {
            Some(item) => seq![item] + rest,
            None => rest,
        }
    }
}

/// The entries `(key, change)` for the entries of `prev[k..]` whose key
/// occurs in `next` with another value, in the order of `prev`; none for a
/// key whose change would be `Same`.
pub open spec fn map_changed_from(
    prev: Seq<(IntermediateView, IntermediateView)>,
    next: Seq<(IntermediateView, IntermediateView)>,
    hint: DiffOptimizationHint,
    k: int,
) -> Seq<(IntermediateView, ChangeView)>
    decreases prev, 0int, prev.len() - k,
{
    if k < 0 || k >= prev.len() {
        Seq::empty()
    } else {
        let rest = map_changed_from(prev, next, hint, k + 1);
        match position_of(next, prev[k].0) {
            Some(j) => {
                let d = diff_spec(prev[k].1, next[j].1, hint);
                if prev[k].1 != next[j].1 && d != ChangeView::Same {
                    seq![(prev[k].0, d)] + rest
                } else {
                    rest
                }
            },
            None => rest,
        }
    }
}

/// The entries `(name, change)` for the fields of `prev[k..]` whose name
/// occurs in `next` with another value, in the order of `prev`; none for a
/// name whose change would be `Same`.
pub open spec fn struct_changed_from(
    prev: Seq<(Seq<char>, IntermediateView)>,
    next: Seq<(Seq<char>, IntermediateView)>,
    hint: DiffOptimizationHint,
    k: int,
) -> Seq<(Seq<char>, ChangeView)>
    decreases prev, 0int, prev.len() - k,
{
    if k < 0 || k >= prev.len() {
        Seq::empty()
    } else {
        let rest = struct_changed_from(prev, next, hint, k + 1);
        match position_of(next, prev[k].0) {
            Some(j) => {
                let d = diff_spec(prev[k].1, next[j].1, hint);
                if prev[k].1 != next[j].1 && d != ChangeView::Same {
                    seq![(prev[k].0, d)] + rest
                } else {
                    rest
                }
            },
            None => rest,
        }
    }
}

/// Whether the keys of `prev` and `next` are aligned wherever their
/// difference compares two maps or two structs: no key occurs twice in
/// either, and the new entries hold the keys that stay, in their old order,
/// followed by the new keys. Trees without maps and structs always are.
pub open spec fn reconcilable(prev: IntermediateView, next: IntermediateView) -> bool
    decreases prev, 0int,
{
    if prev == next {
        true
    } else {
        match prev {
            IntermediateView::Option(Some(p)) => match next {
                IntermediateView::Option(Some(n)) => reconcilable(*p, *n),
                _ => true,
            },
            IntermediateView::NewTypeStruct(p) => match next {
                IntermediateView::NewTypeStruct(n) => reconcilable(*p, *n),
                _ => true,
            },
            IntermediateView::NewTypeVariant(pn, p) => match next {
                IntermediateView::NewTypeVariant(nn, n) => pn != nn || reconcilable(*p, *n),
                _ => true,
            },
            IntermediateView::Sequence(p) => match next {
                IntermediateView::Sequence(n) => lists_reconcilable(p, n),
                _ => true,
            },
            IntermediateView::Tuple(p) => match next {
                IntermediateView::Tuple(n) => lists_reconcilable(p, n),
                _ => true,
            },
            IntermediateView::TupleStruct(p) => match next {
                IntermediateView::TupleStruct(n) => lists_reconcilable(p, n),
                _ => true,
            },
            IntermediateView::Mapping(p) => match next {
                IntermediateView::Mapping(n) => keys_aligned(p, n) && entries_reconcilable(p, n),
                _ => true,
            },
            IntermediateView::Struct(p) => match next {
                IntermediateView::Struct(n) => keys_aligned(p, n) && fields_reconcilable(p, n),
                _ => true,
            },
            IntermediateView::StructVariant(pn, p) => match next {
                IntermediateView::StructVariant(nn, n) => pn != nn || (keys_aligned(p, n)
                    && fields_reconcilable(p, n)),
                _ => true,
            },
            _ => true,
        }
    }
}

/// Whether every old item is reconcilable with every new item.
pub open spec fn lists_reconcilable(
    prev: Seq<IntermediateView>,
    next: Seq<IntermediateView>,
) -> bool
    decreases prev, 1int,
{
    forall|i: int, j: int|
        0 <= i < prev.len() && 0 <= j < next.len() ==> reconcilable(
            #[trigger] prev[i],
            #[trigger] next[j],
        )
}

/// Whether the values of every key of a map that stays are reconcilable.
pub open spec fn entries_reconcilable(
    prev: Seq<(IntermediateView, IntermediateView)>,
    next: Seq<(IntermediateView, IntermediateView)>,
) -> bool
    decreases prev, 1int,
{
    forall|i: int, j: int|
        0 <= i < prev.len() && 0 <= j < next.len() && (#[trigger] prev[i]).0 == (
        #[trigger] next[j]).0 ==> reconcilable(prev[i].1, next[j].1)
}

/// Whether the values of every field of a struct that stays are
/// reconcilable.
pub open spec fn fields_reconcilable(
    prev: Seq<(Seq<char>, IntermediateView)>,
    next: Seq<(Seq<char>, IntermediateView)>,
) -> bool
    decreases prev, 1int,
{
    forall|i: int, j: int|
        0 <= i < prev.len() && 0 <= j < next.len() && (#[trigger] prev[i]).0 == (
        #[trigger] next[j]).0 ==> reconcilable(prev[i].1, next[j].1)
}

/// The list between the old and the new one when the alignment stands at the
/// node `a` of the edit graph.
pub open spec fn path_state(
    prev: Seq<IntermediateView>,
    next: Seq<IntermediateView>,
    a: int,
) -> Seq<IntermediateView> {
    list_state(prev, next, a % (prev.len() + 1) as int, a / (prev.len() + 1) as int)
}

/// What a move emits, as a script.
pub open spec fn emission(item: Option<(int, ChangeView)>) -> Seq<(int, ChangeView)> {
    match item {
        Some(edit) => seq![edit],
        None => Seq::empty(),
    }
}

/// One step of the edit script along a path.
pub proof fn lemma_walk_step(
    prev: Seq<IntermediateView>,
    next: Seq<IntermediateView>,
    hint: DiffOptimizationHint,
    path: Seq<usize>,
    k: int,
)
    requires
        0 <= k,
        k + 1 < path.len(),
    ensures
        walk_spec(prev, next, hint, path, k) == match move_spec(
            prev,
            next,
            hint,
            path[k] as int,
            path[k + 1] as int,
        ) {
            Some(item) => seq![item] + walk_spec(prev, next, hint, path, k + 1),
            None => walk_spec(prev, next, hint, path, k + 1),
        },
{
    reveal(move_spec);
}

/// The count of nodes of the grid.
pub proof fn lemma_node_count(n: nat, m: nat)
    requires
        grid_fits(n, m),
    ensures
        grid_nodes(n, m).len() == (n + 1) * (m + 1),
        1 <= (n + 1) * (m + 1) <= u32::MAX,
        n + 1 <= u32::MAX,
        m + 1 <= u32::MAX,
{
    reveal(grid_fits);
    reveal(grid_nodes);
    lemma_grid_bounds(n, m);
    assert((n + 1) * (m + 1) >= 1) by (nonlinear_arith);
}

/// What the `e`-th edge of the edit graph is, and what the move along it
/// emits.
pub proof fn lemma_edge_move(
    pv: Seq<IntermediateView>,
    nv: Seq<IntermediateView>,
    hint: DiffOptimizationHint,
    e: int,
)
    requires
        pv.len() >= 1,
        nv.len() >= 1,
        grid_fits(pv.len(), nv.len()),
        0 <= e < grid_edges(pv, nv).len(),
    ensures
        ({
            let edge = grid_edges(pv, nv)[e];
            let cols = (pv.len() + 1) as int;
            let a = edge.0 as int;
            let b = edge.1 as int;
            let row = a / cols;
            let col = a % cols;
            let nodes = grid_nodes(pv.len(), nv.len());
            &&& nodes.len() == (pv.len() + 1) * (nv.len() + 1)
            &&& nodes.len() <= u32::MAX
            &&& grid_edges(pv, nv).len() <= u32::MAX
            &&& 0 <= a < nodes.len()
            &&& 0 <= b < nodes.len()
            &&& nodes[a] == (col as usize, row as usize)
            &&& 0 <= row <= nv.len()
            &&& 0 <= col <= pv.len()
            &&& edge.2 * nodes.len() <= usize::MAX
            &&& (edge.2 == COST_REMOVED || edge.2 == COST_ADDED || edge.2 == COST_UNCHANGED
                || edge.2 == COST_CHANGED)
            &&& edge.2 == COST_REMOVED ==> col < pv.len() && b / cols == row && b % cols == col + 1
                && move_spec(pv, nv, hint, a, b) == Some((row, ChangeView::Removed))
            &&& edge.2 == COST_ADDED ==> row < nv.len() && b / cols == row + 1 && b % cols == col
                && move_spec(
                pv,
                nv,
                hint,
                a,
                b,
            ) == Some((row, ChangeView::Added(nv[row])))
            &&& edge.2 == COST_UNCHANGED ==> col < pv.len() && row < nv.len() && pv[col] == nv[row]
                && b / cols == row + 1 && b % cols == col + 1 && move_spec(pv, nv, hint, a, b)
                == None::<(int, ChangeView)>
            &&& edge.2 == COST_CHANGED ==> col < pv.len() && row < nv.len() && pv[col] != nv[row]
                && b / cols == row + 1 && b % cols == col + 1 && move_spec(pv, nv, hint, a, b)
                == Some(
                (
                    row,
                    optimize_spec(diff_spec(pv[col], nv[row], hint), pv[col], nv[row], hint),
                ),
            )
        }),
{
    reveal(grid_fits);
    reveal(grid_nodes);
    reveal(horizontal_edges);
    reveal(vertical_edges);
    reveal(diagonal_edges);
    reveal(is_grid_move);
    reveal(move_spec);
    lemma_grid_edge(pv, nv, e);
    lemma_grid_bounds(pv.len(), nv.len());
    let edge = grid_edges(pv, nv)[e];
    let count = (pv.len() + 1) * (nv.len() + 1);
    assert(edge.2 * count <= COST_CHANGED * count) by (nonlinear_arith)
        requires
            edge.2 <= COST_CHANGED,
            count >= 0,
    ;
}

/// The move along the `e`-th edge of the edit graph takes the list from the
/// state at its source to the state at its target, given that the change of
/// a diagonal move over different items turns the old item into the new one.
pub proof fn lemma_step_replay(
    pv: Seq<IntermediateView>,
    nv: Seq<IntermediateView>,
    hint: DiffOptimizationHint,
    e: int,
)
    requires
        pv.len() >= 1,
        nv.len() >= 1,
        grid_fits(pv.len(), nv.len()),
        0 <= e < grid_edges(pv, nv).len(),
        ({
            let edge = grid_edges(pv, nv)[e];
            let cols = (pv.len() + 1) as int;
            let col = edge.0 as int % cols;
            let row = edge.0 as int / cols;
            edge.2 == COST_CHANGED ==> patch_spec(
                optimize_spec(diff_spec(pv[col], nv[row], hint), pv[col], nv[row], hint),
                pv[col],
            ) == Ok::<Option<IntermediateView>, ErrorView>(Some(nv[row]))
        }),
    ensures
        ({
            let edge = grid_edges(pv, nv)[e];
            let a = edge.0 as int;
            let b = edge.1 as int;
            patch_seq_from(emission(move_spec(pv, nv, hint, a, b)), 0, path_state(pv, nv, a))
                == Ok::<Seq<IntermediateView>, ErrorView>(path_state(pv, nv, b))
        }),
{
    lemma_edge_move(pv, nv, hint, e);
    let edge = grid_edges(pv, nv)[e];
    let cols = (pv.len() + 1) as int;
    let a = edge.0 as int;
    let col = a % cols;
    let row = a / cols;
    if edge.2 == COST_REMOVED {
        lemma_replay_removed(pv, nv, col, row);
    } else if edge.2 == COST_ADDED {
        lemma_replay_added(pv, nv, col, row);
    } else if edge.2 == COST_UNCHANGED {
        lemma_replay_unchanged(pv, nv, col, row);
    } else {
        lemma_replay_changed(
            pv,
            nv,
            col,
            row,
            optimize_spec(diff_spec(pv[col], nv[row], hint), pv[col], nv[row], hint),
        );
    }
}

/// The changed values of a map diff are those of the keyed rules.
pub proof fn lemma_map_changed_is_keyed(
    prev: Seq<(IntermediateView, IntermediateView)>,
    next: Seq<(IntermediateView, IntermediateView)>,
    hint: DiffOptimizationHint,
    k: int,
)
    ensures
        map_changed_from(prev, next, hint, k) == changed_with(
            prev,
            next,
            |a: IntermediateView, b: IntermediateView| diff_spec(a, b, hint),
            k,
        ),
    decreases prev.len() - k,
{
    reveal(move_spec);
    if 0 <= k < prev.len() {
        lemma_map_changed_is_keyed(prev, next, hint, k + 1);
    }
}

/// The changed values of a struct diff are those of the keyed rules.
pub proof fn lemma_struct_changed_is_keyed(
    prev: Seq<(Seq<char>, IntermediateView)>,
    next: Seq<(Seq<char>, IntermediateView)>,
    hint: DiffOptimizationHint,
    k: int,
)
    ensures
        struct_changed_from(prev, next, hint, k) == changed_with(
            prev,
            next,
            |a: IntermediateView, b: IntermediateView| diff_spec(a, b, hint),
            k,
        ),
    decreases prev.len() - k,
{
    reveal(move_spec);
    if 0 <= k < prev.len() {
        lemma_struct_changed_is_keyed(prev, next, hint, k + 1);
    }
}

/// Whether the change of the value of the `i`-th old entry, if the diff
/// holds one, turns the old value into the new one.
pub open spec fn entry_fits<K>(
    prev: Seq<(K, IntermediateView)>,
    next: Seq<(K, IntermediateView)>,
    hint: DiffOptimizationHint,
    i: int,
) -> bool {
    match position_of(next, prev[i].0) {
        Some(j) => prev[i].1 != next[j].1 && reconcilable(prev[i].1, next[j].1) ==> patch_spec(
            diff_spec(prev[i].1, next[j].1, hint),
            prev[i].1,
        ) == Ok::<Option<IntermediateView>, ErrorView>(Some(next[j].1)),
        None => true,
    }
}

/// Applying a map diff to the old entries gives the new entries, where the
/// keys are aligned and the change of every value that stays fits.
pub proof fn lemma_map_diff_patches(
    prev: Seq<(IntermediateView, IntermediateView)>,
    next: Seq<(IntermediateView, IntermediateView)>,
    hint: DiffOptimizationHint,
)
    requires
        keys_aligned(prev, next),
        entries_reconcilable(prev, next),
        forall|i: int| 0 <= i < prev.len() ==> entry_fits(prev, next, hint, i),
    ensures
        patch_map_from(
            added_from(prev, next, 0) + removed_from(prev, next, 0) + map_changed_from(
                prev,
                next,
                hint,
                0,
            ),
            0,
            prev,
        ) == Ok::<Seq<(IntermediateView, IntermediateView)>, ErrorView>(next),
{
    let change = |a: IntermediateView, b: IntermediateView| diff_spec(a, b, hint);
    assert forall|i: int, j: int|
        0 <= i < prev.len() && 0 <= j < next.len() && (#[trigger] prev[i]).0 == (
        #[trigger] next[j]).0 && prev[i].1 != next[j].1 implies patch_spec(
        change(prev[i].1, next[j].1),
        prev[i].1,
    ) == Ok::<Option<IntermediateView>, ErrorView>(Some(next[j].1)) by {
        assert(entry_fits(prev, next, hint, i));
        lemma_position_found(next, prev[i].0, 0);
        let found = position_of(next, prev[i].0);
        assert(found.is_some());
        let at = found.unwrap();
        if at < j {
            assert(next[at].0 != next[j].0);
        }
        assert(at == j);
    }
    lemma_keyed_patch(prev, next, change);
    lemma_map_changed_is_keyed(prev, next, hint, 0);
    lemma_map_patch_is_keyed(
        added_from(prev, next, 0) + removed_from(prev, next, 0) + map_changed_from(
            prev,
            next,
            hint,
            0,
        ),
        0,
        prev,
    );
}

/// Applying a struct diff to the old fields gives the new fields, where the
/// names are aligned and the change of every value that stays fits.
pub proof fn lemma_struct_diff_patches(
    prev: Seq<(Seq<char>, IntermediateView)>,
    next: Seq<(Seq<char>, IntermediateView)>,
    hint: DiffOptimizationHint,
)
    requires
        keys_aligned(prev, next),
        fields_reconcilable(prev, next),
        forall|i: int| 0 <= i < prev.len() ==> entry_fits(prev, next, hint, i),
    ensures
        patch_struct_from(
            added_from(prev, next, 0) + removed_from(prev, next, 0) + struct_changed_from(
                prev,
                next,
                hint,
                0,
            ),
            0,
            prev,
        ) == Ok::<Seq<(Seq<char>, IntermediateView)>, ErrorView>(next),
{
    let change = |a: IntermediateView, b: IntermediateView| diff_spec(a, b, hint);
    assert forall|i: int, j: int|
        0 <= i < prev.len() && 0 <= j < next.len() && (#[trigger] prev[i]).0 == (
        #[trigger] next[j]).0 && prev[i].1 != next[j].1 implies patch_spec(
        change(prev[i].1, next[j].1),
        prev[i].1,
    ) == Ok::<Option<IntermediateView>, ErrorView>(Some(next[j].1)) by {
        assert(entry_fits(prev, next, hint, i));
        lemma_position_found(next, prev[i].0, 0);
        let found = position_of(next, prev[i].0);
        assert(found.is_some());
        let at = found.unwrap();
        if at < j {
            assert(next[at].0 != next[j].0);
        }
        assert(at == j);
    }
    lemma_keyed_patch(prev, next, change);
    lemma_struct_changed_is_keyed(prev, next, hint, 0);
    lemma_struct_patch_is_keyed(
        added_from(prev, next, 0) + removed_from(prev, next, 0) + struct_changed_from(
            prev,
            next,
            hint,
            0,
        ),
        0,
        prev,
    );
}

/// The keyed changes of a map: additions, then removals, then changed values.
pub fn diff_entries(
    prev: &Vec<(Intermediate, Intermediate)>,
    next: &Vec<(Intermediate, Intermediate)>,
    options: &DiffOptions,
) -> (r: Vec<(Intermediate, Change)>)
    ensures
        map_changes_view(r@) == added_from(entries_view(prev@), entries_view(next@), 0)
            + removed_from(entries_view(prev@), entries_view(next@), 0) + map_changed_from(
            entries_view(prev@),
            entries_view(next@),
            options.optimization_hint,
            0,
        ),
        keys_aligned(entries_view(prev@), entries_view(next@)) && entries_reconcilable(
            entries_view(prev@),
            entries_view(next@),
        ) ==> patch_map_from(map_changes_view(r@), 0, entries_view(prev@)) == Ok::<
            Seq<(IntermediateView, IntermediateView)>,
            ErrorView,
        >(entries_view(next@)),
    decreases prev, 0int,
{
    let ghost pv = entries_view(prev@);
    let ghost nv = entries_view(next@);
    let ghost hint = options.optimization_hint;
    let mut result: Vec<(Intermediate, Change)> = Vec::new();
    let mut i: usize = 0;
    while i < next.len()
        invariant
            i <= next@.len(),
            pv == entries_view(prev@),
            nv == entries_view(next@),
            map_changes_view(result@) + added_from(pv, nv, i as int) == added_from(pv, nv, 0),
        decreases next@.len() - i,
    {
        let ghost before = map_changes_view(result@);
        proof {
            assert(nv[i as int] == (next@[i as int].0@, next@[i as int].1@));
        }
        if find_entry(prev, &next[i].0).is_none() {
            result.push((next[i].0.clone(), Change::Added(next[i].1.clone())));
            proof {
                let item = (nv[i as int].0, ChangeView::Added(nv[i as int].1));
                assert(map_changes_view(result@) =~= before.push(item));
                assert(before.push(item) + added_from(pv, nv, i + 1) =~= before + (seq![item]
                    + added_from(pv, nv, i + 1)));
            }
        }
        i += 1;
    }
    proof {
        assert(map_changes_view(result@) =~= added_from(pv, nv, 0));
    }
    let mut i: usize = 0;
    while i < prev.len()
        invariant
            i <= prev@.len(),
            pv == entries_view(prev@),
            nv == entries_view(next@),
            map_changes_view(result@) + removed_from(pv, nv, i as int) == added_from(pv, nv, 0)
                + removed_from(pv, nv, 0),
        decreases prev@.len() - i,
    {
        let ghost before = map_changes_view(result@);
        proof {
            assert(pv[i as int] == (prev@[i as int].0@, prev@[i as int].1@));
        }
        if find_entry(next, &prev[i].0).is_none() {
            result.push((prev[i].0.clone(), Change::Removed));
            proof {
                let item = (pv[i as int].0, ChangeView::Removed);
                assert(map_changes_view(result@) =~= before.push(item));
                assert(before.push(item) + removed_from(pv, nv, i + 1) =~= before + (seq![item]
                    + removed_from(pv, nv, i + 1)));
            }
        }
        i += 1;
    }
    proof {
        assert(map_changes_view(result@) =~= added_from(pv, nv, 0) + removed_from(pv, nv, 0));
    }
    let ghost head = added_from(pv, nv, 0) + removed_from(pv, nv, 0);
    let mut i: usize = 0;
    while i < prev.len()
        invariant
            i <= prev@.len(),
            pv == entries_view(prev@),
            nv == entries_view(next@),
            hint == options.optimization_hint,
            head == added_from(pv, nv, 0) + removed_from(pv, nv, 0),
            map_changes_view(result@) + map_changed_from(pv, nv, hint, i as int) == head
                + map_changed_from(pv, nv, hint, 0),
            forall|t: int| 0 <= t < i ==> entry_fits(pv, nv, hint, t),
        decreases prev@.len() - i,
    {
        let ghost before = map_changes_view(result@);
        proof {
            assert(pv[i as int] == (prev@[i as int].0@, prev@[i as int].1@));
        }
        if let Some(j) = find_entry(next, &prev[i].0) {
            proof {
                assert(nv[j as int] == (next@[j as int].0@, next@[j as int].1@));
            }
            if !prev[i].1.eq_tree(&next[j].1) {
                let diff = Change::difference(&prev[i].1, &next[j].1, options);
                if !diff.is_same() {
                    let ghost d = diff@;
                    result.push((prev[i].0.clone(), diff));
                    proof {
                        let item = (pv[i as int].0, d);
                        assert(map_changes_view(result@) =~= before.push(item));
                        assert(before.push(item) + map_changed_from(pv, nv, hint, i + 1)
                            =~= before + (seq![item] + map_changed_from(pv, nv, hint, i + 1)));
                    }
                }
            }
        }
        i += 1;
    }
    proof {
        assert(map_changes_view(result@) =~= head + map_changed_from(pv, nv, hint, 0));
        if keys_aligned(pv, nv) && entries_reconcilable(pv, nv) {
            lemma_map_diff_patches(pv, nv, hint);
        }
    }
    result
}

/// The keyed changes of named fields: additions, then removals, then changed
/// values.
pub fn diff_fields(
    prev: &Vec<(String, Intermediate)>,
    next: &Vec<(String, Intermediate)>,
    options: &DiffOptions,
) -> (r: Vec<(String, Change)>)
    ensures
        struct_changes_view(r@) == added_from(fields_view(prev@), fields_view(next@), 0)
            + removed_from(fields_view(prev@), fields_view(next@), 0) + struct_changed_from(
            fields_view(prev@),
            fields_view(next@),
            options.optimization_hint,
            0,
        ),
        keys_aligned(fields_view(prev@), fields_view(next@)) && fields_reconcilable(
            fields_view(prev@),
            fields_view(next@),
        ) ==> patch_struct_from(struct_changes_view(r@), 0, fields_view(prev@)) == Ok::<
            Seq<(Seq<char>, IntermediateView)>,
            ErrorView,
        >(fields_view(next@)),
    decreases prev, 0int,
{
    let ghost pv = fields_view(prev@);
    let ghost nv = fields_view(next@);
    let ghost hint = options.optimization_hint;
    let mut result: Vec<(String, Change)> = Vec::new();
    let mut i: usize = 0;
    while i < next.len()
        invariant
            i <= next@.len(),
            pv == fields_view(prev@),
            nv == fields_view(next@),
            struct_changes_view(result@) + added_from(pv, nv, i as int) == added_from(pv, nv, 0),
        decreases next@.len() - i,
    {
        let ghost before = struct_changes_view(result@);
        proof {
            assert(nv[i as int] == (next@[i as int].0@, next@[i as int].1@));
        }
        if find_field(prev, &next[i].0).is_none() {
            result.push((next[i].0.clone(), Change::Added(next[i].1.clone())));
            proof {
                let item = (nv[i as int].0, ChangeView::Added(nv[i as int].1));
                assert(struct_changes_view(result@) =~= before.push(item));
                assert(before.push(item) + added_from(pv, nv, i + 1) =~= before + (seq![item]
                    + added_from(pv, nv, i + 1)));
            }
        }
        i += 1;
    }
    proof {
        assert(struct_changes_view(result@) =~= added_from(pv, nv, 0));
    }
    let mut i: usize = 0;
    while i < prev.len()
        invariant
            i <= prev@.len(),
            pv == fields_view(prev@),
            nv == fields_view(next@),
            struct_changes_view(result@) + removed_from(pv, nv, i as int) == added_from(pv, nv, 0)
                + removed_from(pv, nv, 0),
        decreases prev@.len() - i,
    {
        let ghost before = struct_changes_view(result@);
        proof {
            assert(pv[i as int] == (prev@[i as int].0@, prev@[i as int].1@));
        }
        if find_field(next, &prev[i].0).is_none() {
            result.push((prev[i].0.clone(), Change::Removed));
            proof {
                let item = (pv[i as int].0, ChangeView::Removed);
                assert(struct_changes_view(result@) =~= before.push(item));
                assert(before.push(item) + removed_from(pv, nv, i + 1) =~= before + (seq![item]
                    + removed_from(pv, nv, i + 1)));
            }
        }
        i += 1;
    }
    proof {
        assert(struct_changes_view(result@) =~= added_from(pv, nv, 0) + removed_from(pv, nv, 0));
    }
    let ghost head = added_from(pv, nv, 0) + removed_from(pv, nv, 0);
    let mut i: usize = 0;
    while i < prev.len()
        invariant
            i <= prev@.len(),
            pv == fields_view(prev@),
            nv == fields_view(next@),
            hint == options.optimization_hint,
            head == added_from(pv, nv, 0) + removed_from(pv, nv, 0),
            struct_changes_view(result@) + struct_changed_from(pv, nv, hint, i as int) == head
                + struct_changed_from(pv, nv, hint, 0),
            forall|t: int| 0 <= t < i ==> entry_fits(pv, nv, hint, t),
        decreases prev@.len() - i,
    {
        let ghost before = struct_changes_view(result@);
        proof {
            assert(pv[i as int] == (prev@[i as int].0@, prev@[i as int].1@));
        }
        if let Some(j) = find_field(next, &prev[i].0) {
            proof {
                assert(nv[j as int] == (next@[j as int].0@, next@[j as int].1@));
            }
            if !prev[i].1.eq_tree(&next[j].1) {
                let diff = Change::difference(&prev[i].1, &next[j].1, options);
                if !diff.is_same() {
                    let ghost d = diff@;
                    result.push((prev[i].0.clone(), diff));
                    proof {
                        let item = (pv[i as int].0, d);
                        assert(struct_changes_view(result@) =~= before.push(item));
                        assert(before.push(item) + struct_changed_from(pv, nv, hint, i + 1)
                            =~= before + (seq![item] + struct_changed_from(pv, nv, hint, i + 1)));
                    }
                }
            }
        }
        i += 1;
    }
    proof {
        assert(struct_changes_view(result@) =~= head + struct_changed_from(pv, nv, hint, 0));
        if keys_aligned(pv, nv) && fields_reconcilable(pv, nv) {
            lemma_struct_diff_patches(pv, nv, hint);
        }
    }
    result
}

/// The change between two lists of one kind.
fn diff_lists(
    prev: &Vec<Intermediate>,
    next: &Vec<Intermediate>,
    whole: &Intermediate,
    options: &DiffOptions,
) -> (r: Change)
    ensures
        r@ == list_diff_spec(
            items_view(prev@),
            items_view(next@),
            options.optimization_hint,
            whole@,
        ),
        match r@ {
            ChangeView::PartialSeq(script) => lists_reconcilable(
                items_view(prev@),
                items_view(next@),
            ) ==> patch_seq_from(script, 0, items_view(prev@)) == Ok::<
                Seq<IntermediateView>,
                ErrorView,
            >(items_view(next@)),
            other => other == ChangeView::Changed(whole@),
        },
    decreases prev, 2int,
{
    if prev.len() == 0 || next.len() == 0 || grid_is_within_limits(prev.len(), next.len()) {
        Change::PartialSeq(Change::sequence_difference(prev.as_slice(), next.as_slice(), options))
    } else {
        Change::Changed(whole.clone())
    }
}

impl Change {
    /// Whether this change is `Same`.
    pub fn is_same(&self) -> (r: bool)
        ensures
            r == (self@ == ChangeView::Same),
    {
        match self {
            Change::Same => true,
            _ => false,
        }
    }

    /// Computes the change that turns `prev` into `next`.
    pub fn difference(prev: &Intermediate, next: &Intermediate, options: &DiffOptions) -> (r:
        Change)
        ensures
            r@ == diff_spec(prev@, next@, options.optimization_hint),
            reconcilable(prev@, next@) ==> patch_spec(r@, prev@) == Ok::<
                Option<IntermediateView>,
                ErrorView,
            >(Some(next@)),
        decreases prev, 3int,
    {
        if prev.eq_tree(next) {
            return Change::Same;
        }
        let raw = match prev {
            Intermediate::Option(Some(p)) => match next {
                Intermediate::Option(Some(n)) => Change::PartialChange(
                    Box::new(Change::difference(p, n, options)),
                ),
                _ => Change::Changed(next.clone()),
            },
            Intermediate::NewTypeStruct(p) => match next {
                Intermediate::NewTypeStruct(n) => Change::PartialChange(
                    Box::new(Change::difference(p, n, options)),
                ),
                _ => Change::Changed(next.clone()),
            },
            Intermediate::NewTypeVariant(pn, p) => match next {
                Intermediate::NewTypeVariant(nn, n) => if *pn != *nn {
                    Change::Changed(next.clone())
                } else {
                    Change::PartialChange(Box::new(Change::difference(p, n, options)))
                },
                _ => Change::Changed(next.clone()),
            },
            Intermediate::Sequence(p) => match next {
                Intermediate::Sequence(n) => diff_lists(p, n, next, options),
                _ => Change::Changed(next.clone()),
            },
            Intermediate::Tuple(p) => match next {
                Intermediate::Tuple(n) => diff_lists(p, n, next, options),
                _ => Change::Changed(next.clone()),
            },
            Intermediate::TupleStruct(p) => match next {
                Intermediate::TupleStruct(n) => diff_lists(p, n, next, options),
                _ => Change::Changed(next.clone()),
            },
            Intermediate::Mapping(p) => match next {
                Intermediate::Mapping(n) => Change::PartialMap(diff_entries(p, n, options)),
                _ => Change::Changed(next.clone()),
            },
            Intermediate::Struct(p) => match next {
                Intermediate::Struct(n) => Change::PartialStruct(diff_fields(p, n, options)),
                _ => Change::Changed(next.clone()),
            },
            Intermediate::StructVariant(pn, p) => match next {
                Intermediate::StructVariant(nn, n) => if *pn != *nn {
                    Change::Changed(next.clone())
                } else {
                    Change::PartialStruct(diff_fields(p, n, options))
                },
                _ => Change::Changed(next.clone()),
            },
            _ => Change::Changed(next.clone()),
        };
        proof {
            assert(raw@ == ChangeView::Changed(next@) || (reconcilable(prev@, next@)
                ==> patch_spec(raw@, prev@) == Ok::<Option<IntermediateView>, ErrorView>(
                Some(next@),
            )));
        }
        raw.optimize(prev, next, options.optimization_hint)
    }

    /// Aligns two lists: computes the edit script that turns `prev` into
    /// `next` at the least cost, where adding costs 8, removing 9, keeping 10
    /// and changing 11.
    pub fn sequence_difference(
        prev: &[Intermediate],
        next: &[Intermediate],
        options: &DiffOptions,
    ) -> (r: Vec<(usize, Change)>)
        requires
            can_align(prev@.len(), next@.len()),
        ensures
            seq_changes_view(r@) == sequence_diff_spec(
                items_view(prev@),
                items_view(next@),
                options.optimization_hint,
            ),
            lists_reconcilable(items_view(prev@), items_view(next@)) ==> patch_seq_from(
                seq_changes_view(r@),
                0,
                items_view(prev@),
            ) == Ok::<Seq<IntermediateView>, ErrorView>(items_view(next@)),
            prev@.len() > 0 && next@.len() > 0 ==> found_cheapest_path(
                items_view(prev@),
                items_view(next@),
            ),
        decreases prev@, 1int, 0int,
    {
        if prev.len() == 0 && next.len() == 0 {
            let r: Vec<(usize, Change)> = Vec::new();
            proof {
                assert(seq_changes_view(r@) =~= Seq::empty());
                assert(items_view(prev@) =~= items_view(next@));
            }
            return r;
        } else if prev.len() == 0 {
            let ghost nv = items_view(next@);
            let mut r: Vec<(usize, Change)> = Vec::new();
            let mut i: usize = 0;
            while i < next.len()
                invariant
                    i <= next@.len(),
                    nv == items_view(next@),
                    r@.len() == i,
                    forall|j: int|
                        0 <= j < i ==> (#[trigger] r@[j]).0 == j && r@[j].1@ == ChangeView::Added(
                            nv[j],
                        ),
                decreases next@.len() - i,
            {
                r.push((i, Change::Added(next[i].clone())));
                i += 1;
            }
            proof {
                assert(seq_changes_view(r@) =~= Seq::new(
                    nv.len(),
                    |i: int| (i, ChangeView::Added(nv[i])),
                ));
                lemma_replay_all_added(nv, 0);
                assert(nv.subrange(0, 0) =~= items_view(prev@));
            }
            return r;
        } else if next.len() == 0 {
            let mut r: Vec<(usize, Change)> = Vec::new();
            let mut i: usize = 0;
            while i < prev.len()
                invariant
                    i <= prev@.len(),
                    r@.len() == i,
                    forall|j: int|
                        0 <= j < i ==> (#[trigger] r@[j]).0 == 0 && r@[j].1@ == ChangeView::Removed,
                decreases prev@.len() - i,
            {
                r.push((0, Change::Removed));
                i += 1;
            }
            proof {
                let pv = items_view(prev@);
                assert(seq_changes_view(r@) =~= Seq::new(
                    pv.len(),
                    |i: int| (0int, ChangeView::Removed),
                ));
                lemma_replay_all_removed(pv, 0);
                assert(pv.subrange(0, pv.len() as int) =~= pv);
                assert(items_view(next@) =~= Seq::empty());
            }
            return r;
        }
        let ghost pv = items_view(prev@);
        let ghost nv = items_view(next@);
        let graph = build_edit_graph(prev, next);
        proof {
            lemma_node_count(prev@.len(), next@.len());
        }
        let last: usize = (prev.len() + 1) * (next.len() + 1) - 1;
        proof {
            assert forall|e: int| 0 <= e < graph_edges(graph).len() implies (
            #[trigger] graph_edges(graph)[e]).2 * graph_nodes(graph).len() <= usize::MAX by {
                lemma_edge_move(pv, nv, options.optimization_hint, e);
            }
            lemma_node_count(prev@.len(), next@.len());
        }
        proof {
            let cols = prev@.len() + 1;
            assert(last as int == next@.len() * cols + prev@.len()) by (nonlinear_arith)
                requires
                    last as int == (prev@.len() + 1) * (next@.len() + 1) - 1,
                    cols == prev@.len() + 1,
            ;
            lemma_cell(cols as int, next@.len() as int, prev@.len() as int);
            lemma_list_state_ends(pv, nv);
            assert(path_state(pv, nv, last as int) == nv);
        }
        match graph_astar(&graph, 0, last) {
            Some(path) => Change::edit_script(&graph, prev, next, options, path.as_slice()),
            None => {
                let r: Vec<(usize, Change)> = Vec::new();
                proof {
                    assert(seq_changes_view(r@) =~= Seq::empty());
                    lemma_grid_connected(pv, nv);
                }
                r
            },
        }
    }

    /// Turns a path through the edit graph of `prev` and `next` into an edit
    /// script. `path` holds node indices, starts at the first node and
    /// follows edges of the graph.
    pub fn edit_script(
        graph: &EditGraph,
        prev: &[Intermediate],
        next: &[Intermediate],
        options: &DiffOptions,
        path: &[usize],
    ) -> (r: Vec<(usize, Change)>)
        requires
            prev@.len() >= 1,
            next@.len() >= 1,
            grid_fits(prev@.len(), next@.len()),
            graph_nodes(*graph) == grid_nodes(prev@.len(), next@.len()),
            graph_edges(*graph) == grid_edges(items_view(prev@), items_view(next@)),
            path@.len() >= 1,
            is_path(graph_edges(*graph), path@, 0, path@[path@.len() - 1]),
        ensures
            seq_changes_view(r@) == walk_spec(
                items_view(prev@),
                items_view(next@),
                options.optimization_hint,
                path@,
                0,
            ),
            lists_reconcilable(items_view(prev@), items_view(next@)) ==> patch_seq_from(
                seq_changes_view(r@),
                0,
                items_view(prev@),
            ) == Ok::<Seq<IntermediateView>, ErrorView>(
                path_state(items_view(prev@), items_view(next@), path@[path@.len() - 1] as int),
            ),
        decreases prev@, 0int, 1int,
    {
        let ghost pv = items_view(prev@);
        let ghost nv = items_view(next@);
        let ghost hint = options.optimization_hint;
        let ghost cols = prev@.len() + 1;
        let mut result: Vec<(usize, Change)> = Vec::new();
        let mut pos: usize = 0;
        let mut k: usize = 0;
        proof {
            assert(seq_changes_view(result@) =~= Seq::empty());
            assert(seq_changes_view(result@) + walk_spec(pv, nv, hint, path@, 0) =~= walk_spec(
                pv,
                nv,
                hint,
                path@,
                0,
            ));
            lemma_list_state_ends(pv, nv);
            assert(path_state(pv, nv, 0) == pv);
        }
        while k < path.len() - 1
            invariant
                prev@.len() >= 1,
                next@.len() >= 1,
                grid_fits(prev@.len(), next@.len()),
                graph_nodes(*graph) == grid_nodes(prev@.len(), next@.len()),
                graph_edges(*graph) == grid_edges(items_view(prev@), items_view(next@)),
                is_path(graph_edges(*graph), path@, 0, path@[path@.len() - 1]),
                pv == items_view(prev@),
                nv == items_view(next@),
                hint == options.optimization_hint,
                cols == prev@.len() + 1,
                k < path@.len(),
                pos as int == path@[k as int] as int / cols as int,
                seq_changes_view(result@) + walk_spec(pv, nv, hint, path@, k as int) == walk_spec(
                    pv,
                    nv,
                    hint,
                    path@,
                    0,
                ),
                lists_reconcilable(pv, nv) ==> patch_seq_from(seq_changes_view(result@), 0, pv)
                    == Ok::<Seq<IntermediateView>, ErrorView>(
                    path_state(pv, nv, path@[k as int] as int),
                ),
            decreases path@.len() - k,
        {
            let ghost before = seq_changes_view(result@);
            let ghost rest = walk_spec(pv, nv, hint, path@, k + 1);
            proof {
                assert(connects(graph_edges(*graph), path@[k as int], path@[k + 1]));
            }
            let step = Change::edit_step(graph, prev, next, options, path[k], path[k + 1], pos);
            pos = step.1;
            let ghost emitted_here = move_spec(
                pv,
                nv,
                hint,
                path@[k as int] as int,
                path@[k + 1] as int,
            );
            proof {
                lemma_walk_step(pv, nv, hint, path@, k as int);
            }
            match step.0 {
                Some(emitted) => {
                    let ghost item = (emitted.0 as int, emitted.1@);
                    result.push(emitted);
                    proof {
                        assert(emitted_here == Some(item));
                        assert(seq_changes_view(result@) =~= before.push(item));
                        assert(before.push(item) + rest =~= before + (seq![item] + rest));
                        lemma_replay_push(before, item, pv);
                    }
                },
                None => {
                    proof {
                        assert(emitted_here.is_none());
                    }
                },
            }
            k += 1;
        }
        proof {
            assert(seq_changes_view(result@) + Seq::<(int, ChangeView)>::empty()
                =~= seq_changes_view(result@));
        }
        result
    }

    /// Takes one move along the edit graph, from node `a` to node `b`, at the
    /// position `pos`: gives what the move emits, and the position after it.
    pub fn edit_step(
        graph: &EditGraph,
        prev: &[Intermediate],
        next: &[Intermediate],
        options: &DiffOptions,
        a: usize,
        b: usize,
        pos: usize,
    ) -> (r: (Option<(usize, Change)>, usize))
        requires
            prev@.len() >= 1,
            next@.len() >= 1,
            grid_fits(prev@.len(), next@.len()),
            graph_nodes(*graph) == grid_nodes(prev@.len(), next@.len()),
            graph_edges(*graph) == grid_edges(items_view(prev@), items_view(next@)),
            connects(graph_edges(*graph), a, b),
            pos as int == a as int / (prev@.len() + 1) as int,
        ensures
            r.1 as int == b as int / (prev@.len() + 1) as int,
            match r.0 {
                Some(item) => move_spec(
                    items_view(prev@),
                    items_view(next@),
                    options.optimization_hint,
                    a as int,
                    b as int,
                ) == Some((item.0 as int, item.1@)),
                None => move_spec(
                    items_view(prev@),
                    items_view(next@),
                    options.optimization_hint,
                    a as int,
                    b as int,
                ).is_none(),
            },
            lists_reconcilable(items_view(prev@), items_view(next@)) ==> patch_seq_from(
                emission(
                    move_spec(
                        items_view(prev@),
                        items_view(next@),
                        options.optimization_hint,
                        a as int,
                        b as int,
                    ),
                ),
                0,
                path_state(items_view(prev@), items_view(next@), a as int),
            ) == Ok::<Seq<IntermediateView>, ErrorView>(
                path_state(items_view(prev@), items_view(next@), b as int),
            ),
        decreases prev@, 0int, 0int,
    {
        let ghost pv = items_view(prev@);
        let ghost nv = items_view(next@);
        let ghost edges = grid_edges(pv, nv);
        let ghost hint = options.optimization_hint;
        proof {
            let e0 = choose|e: int|
                0 <= e < edges.len() && (#[trigger] edges[e]).0 == a && edges[e].1 == b;
            lemma_edge_move(pv, nv, hint, e0);
        }
        let found = graph_find_edge(graph, a, b);
        let e = match found {
            Some(e) => e,
            None => {
                return (None, pos);
            },
        };
        proof {
            lemma_edge_move(pv, nv, hint, e as int);
        }
        let cost = match graph_edge_weight(graph, e) {
            Some(cost) => cost,
            None => {
                return (None, pos);
            },
        };
        let kind = match EdgeKind::from_cost(cost) {
            Some(kind) => kind,
            None => {
                return (None, pos);
            },
        };
        proof {
            if cost != COST_CHANGED {
                lemma_step_replay(pv, nv, hint, e as int);
            }
        }
        match kind {
            EdgeKind::Unchanged => (None, pos + 1),
            EdgeKind::Changed => {
                proof {
                    assert(graph_edges(*graph)[e as int].0 == a);
                    assert(a < grid_nodes(prev@.len(), next@.len()).len());
                }
                let location = match graph_node_weight(graph, a) {
                    Some(location) => location,
                    None => {
                        return (None, pos);
                    },
                };
                let p = &prev[location.0];
                let n = &next[pos];
                proof {
                    assert(pv[location.0 as int] == p@);
                    assert(nv[pos as int] == n@);
                }
                let diff = Change::difference(p, n, options).optimize(
                    p,
                    n,
                    options.optimization_hint,
                );
                proof {
                    if lists_reconcilable(pv, nv) {
                        assert(reconcilable(pv[location.0 as int], nv[pos as int]));
                        lemma_step_replay(pv, nv, hint, e as int);
                    }
                }
                (Some((pos, diff)), pos + 1)
            },
            EdgeKind::Removed => (Some((pos, Change::Removed)), pos),
            EdgeKind::Added => {
                proof {
                    assert(nv[pos as int] == next@[pos as int]@);
                }
                (Some((pos, Change::Added(next[pos].clone()))), pos + 1)
            },
        }
    }
}

} // verus!