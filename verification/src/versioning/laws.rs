//! What holds of the changes that `difference` computes, whatever path the
//! alignment of lists takes.

use crate::error::ErrorView;
use crate::size::measured;
use crate::value::IntermediateView;
use crate::versioning::change::ChangeView;
use crate::versioning::difference::{
    added_from, diff_spec, list_diff_spec, lists_reconcilable, map_changed_from, move_spec,
    reconcilable, removed_from, struct_changed_from,
};
use crate::versioning::optimize::{change_bytesize, threshold, DiffOptimizationHint};
use crate::versioning::patch::patch_spec;
use vstd::prelude::*;

verus! {

/// The change between a tree and itself is `Same`, under every optimization
/// hint, and applying `Same` gives the tree back.
pub proof fn lemma_diff_identity(a: IntermediateView, hint: DiffOptimizationHint)
    ensures
        diff_spec(a, a, hint) == ChangeView::Same,
        patch_spec(ChangeView::Same, a) == Ok::<Option<IntermediateView>, ErrorView>(Some(a)),
{
}

/// Whether no entry of a list of keyed changes is `Same`.
pub open spec fn no_same_entry<K>(list: Seq<(K, ChangeView)>) -> bool {
    forall|i: int| 0 <= i < list.len() ==> (#[trigger] list[i]).1 != ChangeView::Same
}

/// Two lists without `Same` give one without `Same`.
pub proof fn lemma_no_same_concat<K>(a: Seq<(K, ChangeView)>, b: Seq<(K, ChangeView)>)
    requires
        no_same_entry(a),
        no_same_entry(b),
    ensures
        no_same_entry(a + b),
{
    assert forall|i: int| 0 <= i < (a + b).len() implies (#[trigger] (a + b)[i]).1
        != ChangeView::Same by {
        if i < a.len() {
            assert((a + b)[i] == a[i]);
        } else {
            assert((a + b)[i] == b[i - a.len()]);
        }
    }
}

/// The additions of a keyed change hold no `Same`.
pub proof fn lemma_added_no_same<K>(
    prev: Seq<(K, IntermediateView)>,
    next: Seq<(K, IntermediateView)>,
    k: int,
)
    ensures
        no_same_entry(added_from(prev, next, k)),
    decreases next.len() - k,
{
    if 0 <= k < next.len() {
        lemma_added_no_same(prev, next, k + 1);
    }
}

/// The removals of a keyed change hold no `Same`.
pub proof fn lemma_removed_no_same<K>(
    prev: Seq<(K, IntermediateView)>,
    next: Seq<(K, IntermediateView)>,
    k: int,
)
    ensures
        no_same_entry(removed_from(prev, next, k)),
    decreases prev.len() - k,
{
    if 0 <= k < prev.len() {
        lemma_removed_no_same(prev, next, k + 1);
    }
}

/// The changed values of a map change hold no `Same`.
pub proof fn lemma_map_changed_no_same(
    prev: Seq<(IntermediateView, IntermediateView)>,
    next: Seq<(IntermediateView, IntermediateView)>,
    hint: DiffOptimizationHint,
    k: int,
)
    ensures
        no_same_entry(map_changed_from(prev, next, hint, k)),
    decreases prev.len() - k,
{
    if 0 <= k < prev.len() {
        lemma_map_changed_no_same(prev, next, hint, k + 1);
    }
}

/// The changed values of a struct change hold no `Same`.
pub proof fn lemma_struct_changed_no_same(
    prev: Seq<(Seq<char>, IntermediateView)>,
    next: Seq<(Seq<char>, IntermediateView)>,
    hint: DiffOptimizationHint,
    k: int,
)
    ensures
        no_same_entry(struct_changed_from(prev, next, hint, k)),
    decreases prev.len() - k,
{
    if 0 <= k < prev.len() {
        lemma_struct_changed_no_same(prev, next, hint, k + 1);
    }
}

/// A keyed change never holds an entry for a key whose change is `Same`:
/// every entry of a `PartialMap` or `PartialStruct` that `difference`
/// computes is an addition, a removal or a change other than `Same`.
pub proof fn lemma_keyed_diff_omits_same(
    prev: IntermediateView,
    next: IntermediateView,
    hint: DiffOptimizationHint,
)
    ensures
        match diff_spec(prev, next, hint) {
            ChangeView::PartialMap(list) => no_same_entry(list),
            ChangeView::PartialStruct(list) => no_same_entry(list),
            _ => true,
        },
{
    reveal(move_spec);
    if prev == next {
        return ;
    }
    let d = diff_spec(prev, next, hint);
    match prev {
        IntermediateView::Mapping(p) => match next {
            IntermediateView::Mapping(n) => {
                let list = added_from(p, n, 0) + removed_from(p, n, 0) + map_changed_from(
                    p,
                    n,
                    hint,
                    0,
                );
                lemma_added_no_same(p, n, 0);
                lemma_removed_no_same(p, n, 0);
                lemma_map_changed_no_same(p, n, hint, 0);
                lemma_no_same_concat(added_from(p, n, 0), removed_from(p, n, 0));
                lemma_no_same_concat(
                    added_from(p, n, 0) + removed_from(p, n, 0),
                    map_changed_from(p, n, hint, 0),
                );
                assert(d == ChangeView::PartialMap(list) || d == ChangeView::Changed(next));
            },
            _ => {
                assert(d == ChangeView::Changed(next));
            },
        },
        IntermediateView::Struct(p) => match next {
            IntermediateView::Struct(n) => {
                let list = added_from(p, n, 0) + removed_from(p, n, 0) + struct_changed_from(
                    p,
                    n,
                    hint,
                    0,
                );
                lemma_added_no_same(p, n, 0);
                lemma_removed_no_same(p, n, 0);
                lemma_struct_changed_no_same(p, n, hint, 0);
                lemma_no_same_concat(added_from(p, n, 0), removed_from(p, n, 0));
                lemma_no_same_concat(
                    added_from(p, n, 0) + removed_from(p, n, 0),
                    struct_changed_from(p, n, hint, 0),
                );
                assert(d == ChangeView::PartialStruct(list) || d == ChangeView::Changed(next));
            },
            _ => {
                assert(d == ChangeView::Changed(next));
            },
        },
        IntermediateView::StructVariant(pn, p) => match next {
            IntermediateView::StructVariant(nn, n) => {
                let list = added_from(p, n, 0) + removed_from(p, n, 0) + struct_changed_from(
                    p,
                    n,
                    hint,
                    0,
                );
                lemma_added_no_same(p, n, 0);
                lemma_removed_no_same(p, n, 0);
                lemma_struct_changed_no_same(p, n, hint, 0);
                lemma_no_same_concat(added_from(p, n, 0), removed_from(p, n, 0));
                lemma_no_same_concat(
                    added_from(p, n, 0) + removed_from(p, n, 0),
                    struct_changed_from(p, n, hint, 0),
                );
                assert(d == ChangeView::PartialStruct(list) || d == ChangeView::Changed(next));
            },
            _ => {
                assert(d == ChangeView::Changed(next));
            },
        },
        IntermediateView::Option(Some(p)) => match next {
            IntermediateView::Option(Some(n)) => {
                assert(d is PartialChange || d == ChangeView::Changed(next));
            },
            _ => {
                assert(d == ChangeView::Changed(next));
            },
        },
        IntermediateView::NewTypeStruct(p) => match next {
            IntermediateView::NewTypeStruct(n) => {
                assert(d is PartialChange || d == ChangeView::Changed(next));
            },
            _ => {
                assert(d == ChangeView::Changed(next));
            },
        },
        IntermediateView::NewTypeVariant(pn, p) => match next {
            IntermediateView::NewTypeVariant(nn, n) => {
                assert(d is PartialChange || d == ChangeView::Changed(next));
            },
            _ => {
                assert(d == ChangeView::Changed(next));
            },
        },
        IntermediateView::Sequence(p) => match next {
            IntermediateView::Sequence(n) => {
                let raw = list_diff_spec(p, n, hint, next);
                assert(raw is PartialSeq || raw == ChangeView::Changed(next));
                assert(d is PartialSeq || d == ChangeView::Changed(next));
            },
            _ => {
                assert(d == ChangeView::Changed(next));
            },
        },
        IntermediateView::Tuple(p) => match next {
            IntermediateView::Tuple(n) => {
                let raw = list_diff_spec(p, n, hint, next);
                assert(raw is PartialSeq || raw == ChangeView::Changed(next));
                assert(d is PartialSeq || d == ChangeView::Changed(next));
            },
            _ => {
                assert(d == ChangeView::Changed(next));
            },
        },
        IntermediateView::TupleStruct(p) => match next {
            IntermediateView::TupleStruct(n) => {
                let raw = list_diff_spec(p, n, hint, next);
                assert(raw is PartialSeq || raw == ChangeView::Changed(next));
                assert(d is PartialSeq || d == ChangeView::Changed(next));
            },
            _ => {
                assert(d == ChangeView::Changed(next));
            },
        },
        _ => {
            assert(d == ChangeView::Changed(next));
        },
    }
}

/// Whether a tree holds no map, no struct and no struct variant.
pub open spec fn keyless(tree: IntermediateView) -> bool
    decreases tree, 0int,
{
    match tree {
        IntermediateView::Option(Some(v)) => keyless(*v),
        IntermediateView::NewTypeStruct(v) => keyless(*v),
        IntermediateView::NewTypeVariant(_, v) => keyless(*v),
        IntermediateView::Sequence(v) => all_keyless(v),
        IntermediateView::Tuple(v) => all_keyless(v),
        IntermediateView::TupleStruct(v) => all_keyless(v),
        IntermediateView::TupleVariant(_, v) => all_keyless(v),
        IntermediateView::Mapping(_) => false,
        IntermediateView::Struct(_) => false,
        IntermediateView::StructVariant(_, _) => false,
        _ => true,
    }
}

/// Whether every tree of a list is keyless.
pub open spec fn all_keyless(list: Seq<IntermediateView>) -> bool
    decreases list, 1int,
{
    forall|i: int| 0 <= i < list.len() ==> keyless(#[trigger] list[i])
}

/// A tree without maps and structs is reconcilable with every tree: the
/// change from it to any tree, applied to it, gives that tree.
pub proof fn lemma_keyless_is_reconcilable(prev: IntermediateView, next: IntermediateView)
    requires
        keyless(prev),
    ensures
        reconcilable(prev, next),
    decreases prev, 0int,
{
    if prev == next {
        return ;
    }
    match prev {
        IntermediateView::Option(Some(p)) => match next {
            IntermediateView::Option(Some(n)) => {
                lemma_keyless_is_reconcilable(*p, *n);
            },
            _ => {},
        },
        IntermediateView::NewTypeStruct(p) => match next {
            IntermediateView::NewTypeStruct(n) => {
                lemma_keyless_is_reconcilable(*p, *n);
            },
            _ => {},
        },
        IntermediateView::NewTypeVariant(pn, p) => match next {
            IntermediateView::NewTypeVariant(nn, n) => {
                lemma_keyless_is_reconcilable(*p, *n);
            },
            _ => {},
        },
        IntermediateView::Sequence(p) => match next {
            IntermediateView::Sequence(n) => {
                lemma_keyless_lists_are_reconcilable(p, n);
            },
            _ => {},
        },
        IntermediateView::Tuple(p) => match next {
            IntermediateView::Tuple(n) => {
                lemma_keyless_lists_are_reconcilable(p, n);
            },
            _ => {},
        },
        IntermediateView::TupleStruct(p) => match next {
            IntermediateView::TupleStruct(n) => {
                lemma_keyless_lists_are_reconcilable(p, n);
            },
            _ => {},
        },
        _ => {},
    }
}

/// Lists of trees without maps and structs are reconcilable with every list.
pub proof fn lemma_keyless_lists_are_reconcilable(
    prev: Seq<IntermediateView>,
    next: Seq<IntermediateView>,
)
    requires
        all_keyless(prev),
    ensures
        lists_reconcilable(prev, next),
    decreases prev, 1int,
{
    assert forall|i: int, j: int| 0 <= i < prev.len() && 0 <= j < next.len() implies reconcilable(
        #[trigger] prev[i],
        #[trigger] next[j],
    ) by {
        lemma_keyless_is_reconcilable(prev[i], next[j]);
    }
}

/// Under a hint that sets a threshold, the change that `difference` computes
/// is `Same`, or the whole new tree, or no larger than the threshold.
pub proof fn lemma_diff_within_threshold(
    prev: IntermediateView,
    next: IntermediateView,
    hint: DiffOptimizationHint,
)
    ensures
        match threshold(hint, prev, next) {
            Some(limit) => {
                let change = diff_spec(prev, next, hint);
                change == ChangeView::Same || change == ChangeView::Changed(next) || measured(
                    change_bytesize(change),
                ) <= limit
            },
            None => true,
        },
{
}

/// A size-optimized change is never larger than the whole new tree as a
/// change, wherever the threshold of the hint is no larger than that.
pub proof fn lemma_optimized_diff_size(
    prev: IntermediateView,
    next: IntermediateView,
    hint: DiffOptimizationHint,
)
    requires
        threshold(hint, prev, next) matches Some(limit) && limit <= measured(
            change_bytesize(ChangeView::Changed(next)),
        ),
    ensures
        measured(change_bytesize(diff_spec(prev, next, hint))) <= measured(
            change_bytesize(ChangeView::Changed(next)),
        ),
{
    lemma_diff_within_threshold(prev, next, hint);
}

/// Under the hint `SizeTarget` a change is never larger than the whole new
/// tree as a change.
pub proof fn lemma_size_target_diff_size(prev: IntermediateView, next: IntermediateView)
    ensures
        measured(change_bytesize(diff_spec(prev, next, DiffOptimizationHint::SizeTarget)))
            <= measured(change_bytesize(ChangeView::Changed(next))),
{
    lemma_optimized_diff_size(prev, next, DiffOptimizationHint::SizeTarget);
}

} // verus!
