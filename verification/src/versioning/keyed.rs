//! Replaying a keyed change: what applying the additions, removals and
//! changed values that a keyed diff emits does to the old entries.

use crate::error::ErrorView;
use crate::value::IntermediateView;
use crate::versioning::change::ChangeView;
use crate::versioning::difference::{added_from, removed_from};
use crate::versioning::patch::{
    patch_map_from, patch_spec, patch_struct_from, position_from, position_of,
};
use vstd::prelude::*;

verus! {

/// Whether some entry has the key `key`.
pub open spec fn has_key<K, V>(entries: Seq<(K, V)>, key: K) -> bool {
    exists|i: int| 0 <= i < entries.len() && (#[trigger] entries[i]).0 == key
}

/// Whether no key occurs twice.
pub open spec fn distinct_keys<K, V>(entries: Seq<(K, V)>) -> bool {
    forall|i: int, j: int|
        0 <= i < j < entries.len() ==> (#[trigger] entries[i]).0 != (#[trigger] entries[j]).0
}

/// A lookup finds nothing where no entry from `from` on has the key.
pub proof fn lemma_position_none<K, V>(entries: Seq<(K, V)>, key: K, from: int)
    requires
        0 <= from,
        forall|i: int| from <= i < entries.len() ==> (#[trigger] entries[i]).0 != key,
    ensures
        position_from(entries, key, from).is_none(),
    decreases entries.len() - from,
{
    if from < entries.len() {
        lemma_position_none(entries, key, from + 1);
    }
}

/// A lookup finds the first entry with the key.
pub proof fn lemma_position_at<K, V>(entries: Seq<(K, V)>, key: K, from: int, at: int)
    requires
        0 <= from <= at < entries.len(),
        entries[at].0 == key,
        forall|i: int| from <= i < at ==> (#[trigger] entries[i]).0 != key,
    ensures
        position_from(entries, key, from) == Some(at),
    decreases at - from,
{
    if from < at {
        lemma_position_at(entries, key, from + 1, at);
    }
}

/// What a lookup finds is the first entry with the key, and what it misses
/// is in no entry.
pub proof fn lemma_position_found<K, V>(entries: Seq<(K, V)>, key: K, from: int)
    requires
        0 <= from,
    ensures
        match position_from(entries, key, from) {
            Some(at) => from <= at < entries.len() && entries[at].0 == key && forall|i: int|
                from <= i < at ==> (#[trigger] entries[i]).0 != key,
            None => forall|i: int| from <= i < entries.len() ==> (#[trigger] entries[i]).0 != key,
        },
    decreases entries.len() - from,
{
    if from < entries.len() {
        lemma_position_found(entries, key, from + 1);
    }
}

/// Applies the keyed changes `changes[k..]`, in order, to `entries`; the
/// rules are those of maps and of structs alike.
pub open spec fn patch_keyed_from<K>(
    changes: Seq<(K, ChangeView)>,
    k: int,
    entries: Seq<(K, IntermediateView)>,
) -> Result<Seq<(K, IntermediateView)>, ErrorView>
    decreases changes.len() - k,
{
    if k < 0 || k >= changes.len() {
        Ok(entries)
    } else {
        match patch_keyed_step(changes[k], entries) {
            Ok(after) => patch_keyed_from(changes, k + 1, after),
            Err(e) => Err(e),
        }
    }
}

/// Applies one keyed change to `entries`.
pub open spec fn patch_keyed_step<K>(
    change: (K, ChangeView),
    entries: Seq<(K, IntermediateView)>,
) -> Result<Seq<(K, IntermediateView)>, ErrorView> {
    let found = position_of(entries, change.0);
    match change.1 {
        ChangeView::Removed => Ok(
            match found {
                Some(i) => entries.remove(i),
                None => entries,
            },
        ),
        ChangeView::Changed(v) => Ok(
            match found {
                Some(i) => entries.update(i, (entries[i].0, v)),
                None => entries,
            },
        ),
        ChangeView::Added(v) => Ok(
            match found {
                Some(i) => entries.update(i, (entries[i].0, v)),
                None => entries.push((change.0, v)),
            },
        ),
        other => match found {
            Some(i) => match patch_spec(change.1, entries[i].1) {
                Ok(Some(p)) => Ok(entries.update(i, (entries[i].0, p))),
                Ok(None) => Ok(entries),
                Err(e) => Err(e),
            },
            None => Ok(entries),
        },
    }
}

/// The changes of a map are applied by the keyed rules.
pub proof fn lemma_map_patch_is_keyed(
    changes: Seq<(IntermediateView, ChangeView)>,
    k: int,
    entries: Seq<(IntermediateView, IntermediateView)>,
)
    ensures
        patch_map_from(changes, k, entries) == patch_keyed_from(changes, k, entries),
    decreases changes.len() - k,
{
    if 0 <= k < changes.len() {
        match patch_keyed_step(changes[k], entries) {
            Ok(after) => {
                lemma_map_patch_is_keyed(changes, k + 1, after);
            },
            Err(e) => {},
        }
    }
}

/// The changes of a struct are applied by the keyed rules.
pub proof fn lemma_struct_patch_is_keyed(
    changes: Seq<(Seq<char>, ChangeView)>,
    k: int,
    entries: Seq<(Seq<char>, IntermediateView)>,
)
    ensures
        patch_struct_from(changes, k, entries) == patch_keyed_from(changes, k, entries),
    decreases changes.len() - k,
{
    if 0 <= k < changes.len() {
        match patch_keyed_step(changes[k], entries) {
            Ok(after) => {
                lemma_struct_patch_is_keyed(changes, k + 1, after);
            },
            Err(e) => {},
        }
    }
}

/// Applying `second[j..]` after `first` is applying the tail of the joined
/// changes.
pub proof fn lemma_keyed_shift<K>(
    first: Seq<(K, ChangeView)>,
    second: Seq<(K, ChangeView)>,
    j: int,
    entries: Seq<(K, IntermediateView)>,
)
    requires
        0 <= j,
    ensures
        patch_keyed_from(first + second, first.len() + j, entries) == patch_keyed_from(
            second,
            j,
            entries,
        ),
    decreases second.len() - j,
{
    if j < second.len() {
        assert((first + second)[first.len() + j] == second[j]);
        match patch_keyed_step(second[j], entries) {
            Ok(after) => {
                lemma_keyed_shift(first, second, j + 1, after);
            },
            Err(e) => {},
        }
    }
}

/// Applying joined changes from position `k` of their first part is applying
/// the rest of the first part and then the second part.
pub proof fn lemma_keyed_split<K>(
    first: Seq<(K, ChangeView)>,
    second: Seq<(K, ChangeView)>,
    k: int,
    entries: Seq<(K, IntermediateView)>,
)
    requires
        0 <= k <= first.len(),
    ensures
        patch_keyed_from(first + second, k, entries) == match patch_keyed_from(first, k, entries) {
            Ok(between) => patch_keyed_from(second, 0, between),
            Err(e) => Err(e),
        },
    decreases first.len() - k,
{
    if k == first.len() {
        lemma_keyed_shift(first, second, 0, entries);
    } else {
        assert((first + second)[k] == first[k]);
        match patch_keyed_step(first[k], entries) {
            Ok(after) => {
                lemma_keyed_split(first, second, k + 1, after);
            },
            Err(e) => {},
        }
    }
}

/// Applying one change and then others is applying them all.
pub proof fn lemma_keyed_cons<K>(
    change: (K, ChangeView),
    rest: Seq<(K, ChangeView)>,
    entries: Seq<(K, IntermediateView)>,
)
    ensures
        patch_keyed_from(seq![change] + rest, 0, entries) == match patch_keyed_step(
            change,
            entries,
        ) {
            Ok(after) => patch_keyed_from(rest, 0, after),
            Err(e) => Err(e),
        },
{
    let one = seq![change];
    lemma_keyed_split(one, rest, 0, entries);
    assert(one[0] == change);
    match patch_keyed_step(change, entries) {
        Ok(after) => {
            assert(patch_keyed_from(one, 1, after) == Ok::<Seq<(K, IntermediateView)>, ErrorView>(
                after,
            ));
        },
        Err(e) => {},
    }
}

/// The entries of `next[k..]` whose key does not occur in `prev`.
pub open spec fn additions<K>(
    prev: Seq<(K, IntermediateView)>,
    next: Seq<(K, IntermediateView)>,
    k: int,
) -> Seq<(K, IntermediateView)>
    decreases next.len() - k,
{
    if k < 0 || k >= next.len() {
        Seq::empty()
    } else if position_of(prev, next[k].0).is_none() {
        seq![next[k]] + additions(prev, next, k + 1)
    } else {
        additions(prev, next, k + 1)
    }
}

/// The entries of `prev[k..]` whose key occurs in `next`.
pub open spec fn kept_old<K>(
    prev: Seq<(K, IntermediateView)>,
    next: Seq<(K, IntermediateView)>,
    k: int,
) -> Seq<(K, IntermediateView)>
    decreases prev.len() - k,
{
    if k < 0 || k >= prev.len() {
        Seq::empty()
    } else if position_of(next, prev[k].0).is_some() {
        seq![prev[k]] + kept_old(prev, next, k + 1)
    } else {
        kept_old(prev, next, k + 1)
    }
}

/// The keys of `prev[k..]` that occur in `next`, each with its value in
/// `next`.
pub open spec fn kept_new<K>(
    prev: Seq<(K, IntermediateView)>,
    next: Seq<(K, IntermediateView)>,
    k: int,
) -> Seq<(K, IntermediateView)>
    decreases prev.len() - k,
{
    if k < 0 || k >= prev.len() {
        Seq::empty()
    } else {
        match position_of(next, prev[k].0) {
            Some(j) => seq![(prev[k].0, next[j].1)] + kept_new(prev, next, k + 1),
            None => kept_new(prev, next, k + 1),
        }
    }
}

/// Whether the keys of `prev` and `next` are aligned: no key occurs twice in
/// either, and `next` holds the keys that it shares with `prev`, in the order
/// of `prev`, followed by its own new keys.
pub open spec fn keys_aligned<K>(
    prev: Seq<(K, IntermediateView)>,
    next: Seq<(K, IntermediateView)>,
) -> bool {
    &&& distinct_keys(prev)
    &&& distinct_keys(next)
    &&& kept_new(prev, next, 0) + additions(prev, next, 0) == next
}

/// The additions of a keyed diff append the new entries.
pub proof fn lemma_apply_added<K>(
    prev: Seq<(K, IntermediateView)>,
    next: Seq<(K, IntermediateView)>,
    k: int,
    entries: Seq<(K, IntermediateView)>,
)
    requires
        0 <= k <= next.len(),
        distinct_keys(next),
        forall|j: int|
            k <= j < next.len() && position_of(prev, (#[trigger] next[j]).0).is_none() ==> !has_key(
                entries,
                next[j].0,
            ),
    ensures
        patch_keyed_from(added_from(prev, next, k), 0, entries) == Ok::<
            Seq<(K, IntermediateView)>,
            ErrorView,
        >(entries + additions(prev, next, k)),
    decreases next.len() - k,
{
    if k == next.len() {
        assert(entries + additions(prev, next, k) =~= entries);
    } else if position_of(prev, next[k].0).is_none() {
        let change = (next[k].0, ChangeView::Added(next[k].1));
        let rest = added_from(prev, next, k + 1);
        lemma_keyed_cons(change, rest, entries);
        assert(!has_key(entries, next[k].0));
        lemma_position_none(entries, next[k].0, 0);
        let after = entries.push(next[k]);
        assert(patch_keyed_step(change, entries) == Ok::<Seq<(K, IntermediateView)>, ErrorView>(
            after,
        ));
        assert forall|j: int|
            k + 1 <= j < next.len() && position_of(prev, (#[trigger] next[j]).0).is_none()
            implies !has_key(after, next[j].0) by {
            assert(!has_key(entries, next[j].0));
            assert(next[k].0 != next[j].0);
        }
        lemma_apply_added(prev, next, k + 1, after);
        assert(after + additions(prev, next, k + 1) =~= entries + additions(prev, next, k));
    } else {
        lemma_apply_added(prev, next, k + 1, entries);
    }
}

/// The removals of a keyed diff delete the old entries whose key is gone.
pub proof fn lemma_apply_removed<K>(
    prev: Seq<(K, IntermediateView)>,
    next: Seq<(K, IntermediateView)>,
    k: int,
    head: Seq<(K, IntermediateView)>,
    tail: Seq<(K, IntermediateView)>,
)
    requires
        0 <= k <= prev.len(),
        distinct_keys(prev),
        forall|i: int| k <= i < prev.len() ==> !has_key(head, (#[trigger] prev[i]).0),
    ensures
        patch_keyed_from(
            removed_from(prev, next, k),
            0,
            head + prev.subrange(k, prev.len() as int) + tail,
        ) == Ok::<Seq<(K, IntermediateView)>, ErrorView>(head + kept_old(prev, next, k) + tail),
    decreases prev.len() - k,
{
    let state = head + prev.subrange(k, prev.len() as int) + tail;
    if k == prev.len() {
        assert(state =~= head + kept_old(prev, next, k) + tail);
    } else if position_of(next, prev[k].0).is_none() {
        let change = (prev[k].0, ChangeView::Removed);
        let rest = removed_from(prev, next, k + 1);
        lemma_keyed_cons(change, rest, state);
        assert(!has_key(head, prev[k].0));
        assert(state[head.len() as int] == prev[k]);
        assert forall|i: int| 0 <= i < head.len() implies (#[trigger] state[i]).0 != prev[k].0 by {
            assert(state[i] == head[i]);
        }
        lemma_position_at(state, prev[k].0, 0, head.len() as int);
        let after = head + prev.subrange(k + 1, prev.len() as int) + tail;
        assert(state.remove(head.len() as int) =~= after);
        lemma_apply_removed(prev, next, k + 1, head, tail);
    } else {
        let grown = head.push(prev[k]);
        assert forall|i: int| k + 1 <= i < prev.len() implies !has_key(
            grown,
            (#[trigger] prev[i]).0,
        ) by {
            assert(!has_key(head, prev[i].0));
            assert(prev[k].0 != prev[i].0);
        }
        lemma_apply_removed(prev, next, k + 1, grown, tail);
        assert(grown + prev.subrange(k + 1, prev.len() as int) + tail =~= state);
        assert(grown + kept_old(prev, next, k + 1) + tail =~= head + kept_old(prev, next, k)
            + tail);
    }
}

/// The entries `(key, change)` for the entries of `prev[k..]` whose key
/// occurs in `next` with another value, where `change(old, new)` is the
/// change between the two values; none for a key whose change is `Same`.
pub open spec fn changed_with<K>(
    prev: Seq<(K, IntermediateView)>,
    next: Seq<(K, IntermediateView)>,
    change: spec_fn(IntermediateView, IntermediateView) -> ChangeView,
    k: int,
) -> Seq<(K, ChangeView)>
    decreases prev.len() - k,
{
    if k < 0 || k >= prev.len() {
        Seq::empty()
    } else {
        let rest = changed_with(prev, next, change, k + 1);
        match position_of(next, prev[k].0) {
            Some(j) => {
                let d = change(prev[k].1, next[j].1);
                if prev[k].1 != next[j].1 && d != ChangeView::Same {
                    seq![(prev[k].0, d)] + rest
                } else {
                    rest
                }
            },
            None => rest,
        }
    }
}

/// Whether `change(old, new)` turns the old value into the new one for every
/// key that `prev` and `next` share with different values.
pub open spec fn changes_fit<K>(
    prev: Seq<(K, IntermediateView)>,
    next: Seq<(K, IntermediateView)>,
    change: spec_fn(IntermediateView, IntermediateView) -> ChangeView,
) -> bool {
    forall|i: int, j: int|
        0 <= i < prev.len() && 0 <= j < next.len() && (#[trigger] prev[i]).0 == (
        #[trigger] next[j]).0 && prev[i].1 != next[j].1 ==> patch_spec(
            change(prev[i].1, next[j].1),
            prev[i].1,
        ) == Ok::<Option<IntermediateView>, ErrorView>(Some(next[j].1))
}

/// The changed values of a keyed diff put the new value in the place of the
/// old one for every key that stays.
pub proof fn lemma_apply_changed<K>(
    prev: Seq<(K, IntermediateView)>,
    next: Seq<(K, IntermediateView)>,
    change: spec_fn(IntermediateView, IntermediateView) -> ChangeView,
    k: int,
    head: Seq<(K, IntermediateView)>,
    tail: Seq<(K, IntermediateView)>,
)
    requires
        0 <= k <= prev.len(),
        distinct_keys(prev),
        changes_fit(prev, next, change),
        forall|i: int| k <= i < prev.len() ==> !has_key(head, (#[trigger] prev[i]).0),
    ensures
        patch_keyed_from(
            changed_with(prev, next, change, k),
            0,
            head + kept_old(prev, next, k) + tail,
        ) == Ok::<Seq<(K, IntermediateView)>, ErrorView>(head + kept_new(prev, next, k) + tail),
    decreases prev.len() - k,
{
    let state = head + kept_old(prev, next, k) + tail;
    if k == prev.len() {
        assert(state =~= head + kept_new(prev, next, k) + tail);
    } else {
        let key = prev[k].0;
        lemma_position_found(next, key, 0);
        match position_of(next, key) {
            None => {
                lemma_apply_changed(prev, next, change, k + 1, head, tail);
            },
            Some(j) => {
                let d = change(prev[k].1, next[j].1);
                let target = (key, next[j].1);
                let grown = head.push(target);
                assert forall|i: int| k + 1 <= i < prev.len() implies !has_key(
                    grown,
                    (#[trigger] prev[i]).0,
                ) by {
                    assert(!has_key(head, prev[i].0));
                    assert(prev[k].0 != prev[i].0);
                }
                lemma_apply_changed(prev, next, change, k + 1, grown, tail);
                assert(grown + kept_new(prev, next, k + 1) + tail =~= head + kept_new(
                    prev,
                    next,
                    k,
                ) + tail);
                let after = grown + kept_old(prev, next, k + 1) + tail;
                if prev[k].1 == next[j].1 {
                    assert(after =~= state);
                } else {
                    assert(prev[k].0 == next[j].0);
                    assert(patch_spec(d, prev[k].1) == Ok::<Option<IntermediateView>, ErrorView>(
                        Some(next[j].1),
                    ));
                    assert(d != ChangeView::Same);
                    let edit = (key, d);
                    let rest = changed_with(prev, next, change, k + 1);
                    lemma_keyed_cons(edit, rest, state);
                    assert(!has_key(head, key));
                    assert(state[head.len() as int] == prev[k]);
                    assert forall|i: int| 0 <= i < head.len() implies (#[trigger] state[i]).0
                        != key by {
                        assert(state[i] == head[i]);
                    }
                    lemma_position_at(state, key, 0, head.len() as int);
                    assert(state.update(head.len() as int, target) =~= after);
                    assert(patch_keyed_step(edit, state) == Ok::<
                        Seq<(K, IntermediateView)>,
                        ErrorView,
                    >(after));
                }
            },
        }
    }
}

/// Applying the additions, the removals and the changed values of a keyed
/// diff to the old entries gives the new entries, where the keys are aligned
/// and each change of a value turns the old value into the new one.
pub proof fn lemma_keyed_patch<K>(
    prev: Seq<(K, IntermediateView)>,
    next: Seq<(K, IntermediateView)>,
    change: spec_fn(IntermediateView, IntermediateView) -> ChangeView,
)
    requires
        keys_aligned(prev, next),
        changes_fit(prev, next, change),
    ensures
        patch_keyed_from(
            added_from(prev, next, 0) + removed_from(prev, next, 0) + changed_with(
                prev,
                next,
                change,
                0,
            ),
            0,
            prev,
        ) == Ok::<Seq<(K, IntermediateView)>, ErrorView>(next),
{
    let added = added_from(prev, next, 0);
    let removed = removed_from(prev, next, 0);
    let changed = changed_with(prev, next, change, 0);
    let new_entries = additions(prev, next, 0);
    let none = Seq::<(K, IntermediateView)>::empty();
    assert forall|j: int|
        0 <= j < next.len() && position_of(prev, (#[trigger] next[j]).0).is_none() implies !has_key(
        prev,
        next[j].0,
    ) by {
        lemma_position_found(prev, next[j].0, 0);
    }
    lemma_apply_added(prev, next, 0, prev);
    assert(none + prev.subrange(0, prev.len() as int) + new_entries =~= prev + new_entries);
    lemma_apply_removed(prev, next, 0, none, new_entries);
    lemma_apply_changed(prev, next, change, 0, none, new_entries);
    assert(none + kept_new(prev, next, 0) + new_entries =~= next);
    lemma_keyed_split(added, removed, 0, prev);
    lemma_keyed_split(added + removed, changed, 0, prev);
}

} // verus!
