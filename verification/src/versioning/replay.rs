//! Replaying an edit script: what applying the positional changes that an
//! alignment emits does to the old list.

use crate::error::ErrorView;
use crate::value::IntermediateView;
use crate::versioning::change::ChangeView;
use crate::versioning::patch::{patch_seq_from, patch_spec};
use vstd::prelude::*;

verus! {

/// The list between the old and the new one when the alignment stands at
/// column `col` and row `row`: the first `row` items of the new list, then
/// the old list from item `col` on.
pub open spec fn list_state(
    prev: Seq<IntermediateView>,
    next: Seq<IntermediateView>,
    col: int,
    row: int,
) -> Seq<IntermediateView> {
    next.subrange(0, row) + prev.subrange(col, prev.len() as int)
}

/// The alignment starts with the old list and ends with the new one.
pub proof fn lemma_list_state_ends(prev: Seq<IntermediateView>, next: Seq<IntermediateView>)
    ensures
        list_state(prev, next, 0, 0) == prev,
        list_state(prev, next, prev.len() as int, next.len() as int) == next,
{
    assert(list_state(prev, next, 0, 0) =~= prev);
    assert(list_state(prev, next, prev.len() as int, next.len() as int) =~= next);
}

/// Applying `second[j..]` after `first` is applying the tail of the joined
/// script.
pub proof fn lemma_replay_shift(
    first: Seq<(int, ChangeView)>,
    second: Seq<(int, ChangeView)>,
    j: int,
    items: Seq<IntermediateView>,
)
    requires
        0 <= j,
    ensures
        patch_seq_from(first + second, first.len() + j, items) == patch_seq_from(second, j, items),
    decreases second.len() - j,
{
    let joined = first + second;
    if j < second.len() {
        assert(joined[first.len() + j] == second[j]);
        let index = second[j].0;
        match second[j].1 {
            ChangeView::Removed => {
                let after = if 0 <= index < items.len() {
                    items.remove(index)
                } else {
                    items
                };
                lemma_replay_shift(first, second, j + 1, after);
            },
            ChangeView::Changed(v) => {
                let after = if 0 <= index < items.len() {
                    items.update(index, v)
                } else {
                    items
                };
                lemma_replay_shift(first, second, j + 1, after);
            },
            ChangeView::Added(v) => {
                let after = if 0 <= index <= items.len() {
                    items.insert(index, v)
                } else {
                    items
                };
                lemma_replay_shift(first, second, j + 1, after);
            },
            other => {
                if 0 <= index < items.len() {
                    match patch_spec(second[j].1, items[index]) {
                        Ok(Some(p)) => {
                            lemma_replay_shift(first, second, j + 1, items.update(index, p));
                        },
                        Ok(None) => {
                            lemma_replay_shift(first, second, j + 1, items);
                        },
                        Err(e) => {},
                    }
                } else {
                    lemma_replay_shift(first, second, j + 1, items);
                }
            },
        }
    }
}

/// Applying a joined script from position `k` of its first part is applying
/// the rest of the first part and then the second part.
pub proof fn lemma_replay_split(
    first: Seq<(int, ChangeView)>,
    second: Seq<(int, ChangeView)>,
    k: int,
    items: Seq<IntermediateView>,
)
    requires
        0 <= k <= first.len(),
    ensures
        patch_seq_from(first + second, k, items) == match patch_seq_from(first, k, items) {
            Ok(between) => patch_seq_from(second, 0, between),
            Err(e) => Err(e),
        },
    decreases first.len() - k,
{
    let joined = first + second;
    if k == first.len() {
        lemma_replay_shift(first, second, 0, items);
    } else {
        assert(joined[k] == first[k]);
        let index = first[k].0;
        match first[k].1 {
            ChangeView::Removed => {
                let after = if 0 <= index < items.len() {
                    items.remove(index)
                } else {
                    items
                };
                lemma_replay_split(first, second, k + 1, after);
            },
            ChangeView::Changed(v) => {
                let after = if 0 <= index < items.len() {
                    items.update(index, v)
                } else {
                    items
                };
                lemma_replay_split(first, second, k + 1, after);
            },
            ChangeView::Added(v) => {
                let after = if 0 <= index <= items.len() {
                    items.insert(index, v)
                } else {
                    items
                };
                lemma_replay_split(first, second, k + 1, after);
            },
            other => {
                if 0 <= index < items.len() {
                    match patch_spec(first[k].1, items[index]) {
                        Ok(Some(p)) => {
                            lemma_replay_split(first, second, k + 1, items.update(index, p));
                        },
                        Ok(None) => {
                            lemma_replay_split(first, second, k + 1, items);
                        },
                        Err(e) => {},
                    }
                } else {
                    lemma_replay_split(first, second, k + 1, items);
                }
            },
        }
    }
}

/// Applying a script with one more edit is applying the script and then the
/// edit.
pub proof fn lemma_replay_push(
    script: Seq<(int, ChangeView)>,
    edit: (int, ChangeView),
    items: Seq<IntermediateView>,
)
    ensures
        patch_seq_from(script.push(edit), 0, items) == match patch_seq_from(script, 0, items) {
            Ok(between) => patch_seq_from(seq![edit], 0, between),
            Err(e) => Err(e),
        },
{
    assert(script.push(edit) =~= script + seq![edit]);
    lemma_replay_split(script, seq![edit], 0, items);
}

/// A move to the right removes the old item of its column.
pub proof fn lemma_replay_removed(
    prev: Seq<IntermediateView>,
    next: Seq<IntermediateView>,
    col: int,
    row: int,
)
    requires
        0 <= col < prev.len(),
        0 <= row <= next.len(),
    ensures
        patch_seq_from(seq![(row, ChangeView::Removed)], 0, list_state(prev, next, col, row))
            == Ok::<Seq<IntermediateView>, ErrorView>(list_state(prev, next, col + 1, row)),
{
    let script = seq![(row, ChangeView::Removed)];
    let before = list_state(prev, next, col, row);
    assert(before.remove(row) =~= list_state(prev, next, col + 1, row));
    assert(patch_seq_from(script, 1, before.remove(row)) == Ok::<
        Seq<IntermediateView>,
        ErrorView,
    >(before.remove(row)));
}

/// A move down adds the new item of its row.
pub proof fn lemma_replay_added(
    prev: Seq<IntermediateView>,
    next: Seq<IntermediateView>,
    col: int,
    row: int,
)
    requires
        0 <= col <= prev.len(),
        0 <= row < next.len(),
    ensures
        patch_seq_from(
            seq![(row, ChangeView::Added(next[row]))],
            0,
            list_state(prev, next, col, row),
        ) == Ok::<Seq<IntermediateView>, ErrorView>(list_state(prev, next, col, row + 1)),
{
    let script = seq![(row, ChangeView::Added(next[row]))];
    let before = list_state(prev, next, col, row);
    assert(before.insert(row, next[row]) =~= list_state(prev, next, col, row + 1));
    assert(patch_seq_from(script, 1, before.insert(row, next[row])) == Ok::<
        Seq<IntermediateView>,
        ErrorView,
    >(before.insert(row, next[row])));
}

/// A diagonal move over equal items leaves the list as it is.
pub proof fn lemma_replay_unchanged(
    prev: Seq<IntermediateView>,
    next: Seq<IntermediateView>,
    col: int,
    row: int,
)
    requires
        0 <= col < prev.len(),
        0 <= row < next.len(),
        prev[col] == next[row],
    ensures
        list_state(prev, next, col, row) == list_state(prev, next, col + 1, row + 1),
{
    assert(list_state(prev, next, col, row) =~= list_state(prev, next, col + 1, row + 1));
}

/// A diagonal move over different items puts the new item in the place of
/// the old one, given a change that turns the old item into the new one.
pub proof fn lemma_replay_changed(
    prev: Seq<IntermediateView>,
    next: Seq<IntermediateView>,
    col: int,
    row: int,
    change: ChangeView,
)
    requires
        0 <= col < prev.len(),
        0 <= row < next.len(),
        patch_spec(change, prev[col]) == Ok::<Option<IntermediateView>, ErrorView>(
            Some(next[row]),
        ),
    ensures
        patch_seq_from(seq![(row, change)], 0, list_state(prev, next, col, row)) == Ok::<
            Seq<IntermediateView>,
            ErrorView,
        >(list_state(prev, next, col + 1, row + 1)),
{
    let script = seq![(row, change)];
    let before = list_state(prev, next, col, row);
    let after = before.update(row, next[row]);
    assert(before[row] == prev[col]);
    assert(after =~= list_state(prev, next, col + 1, row + 1));
    assert(patch_seq_from(script, 1, after) == Ok::<Seq<IntermediateView>, ErrorView>(after));
    assert(script[0] == (row, change));
}

/// Adding every item of the new list at its position turns the empty list
/// into the new list.
pub proof fn lemma_replay_all_added(next: Seq<IntermediateView>, k: int)
    requires
        0 <= k <= next.len(),
    ensures
        patch_seq_from(
            Seq::new(next.len(), |i: int| (i, ChangeView::Added(next[i]))),
            k,
            next.subrange(0, k),
        ) == Ok::<Seq<IntermediateView>, ErrorView>(next),
    decreases next.len() - k,
{
    let script = Seq::new(next.len(), |i: int| (i, ChangeView::Added(next[i])));
    if k < next.len() {
        assert(script[k] == (k, ChangeView::Added(next[k])));
        assert(next.subrange(0, k).insert(k, next[k]) =~= next.subrange(0, k + 1));
        lemma_replay_all_added(next, k + 1);
    } else {
        assert(next.subrange(0, k) =~= next);
    }
}

/// Removing the first item once for every item of the old list empties it.
pub proof fn lemma_replay_all_removed(prev: Seq<IntermediateView>, k: int)
    requires
        0 <= k <= prev.len(),
    ensures
        patch_seq_from(
            Seq::new(prev.len(), |i: int| (0int, ChangeView::Removed)),
            k,
            prev.subrange(k, prev.len() as int),
        ) == Ok::<Seq<IntermediateView>, ErrorView>(Seq::empty()),
    decreases prev.len() - k,
{
    let script = Seq::new(prev.len(), |i: int| (0int, ChangeView::Removed));
    if k < prev.len() {
        assert(script[k] == (0int, ChangeView::Removed));
        assert(prev.subrange(k, prev.len() as int).remove(0) =~= prev.subrange(
            k + 1,
            prev.len() as int,
        ));
        lemma_replay_all_removed(prev, k + 1);
    } else {
        assert(prev.subrange(k, prev.len() as int) =~= Seq::empty());
    }
}

} // verus!
