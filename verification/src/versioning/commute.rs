//! Composing keyed changes: two lists of keyed changes that touch different
//! keys can be applied in either order, unless both append new keys.

use crate::error::ErrorView;
use crate::value::IntermediateView;
use crate::versioning::change::ChangeView;
use crate::versioning::keyed::{
    lemma_map_patch_is_keyed, lemma_position_at, lemma_position_found, lemma_position_none,
    lemma_struct_patch_is_keyed, patch_keyed_from, patch_keyed_step,
};
use crate::versioning::patch::{patch_spec, position_of};
use vstd::prelude::*;

verus! {

/// What a keyed change does to the entry of its key.
pub enum KeyedAction {
    /// The entries stay as they are.
    Keep,
    /// The value of the entry is replaced.
    Replace(IntermediateView),
    /// The entry is deleted.
    Delete,
    /// A new entry is appended.
    Append(IntermediateView),
}

/// The value that stands under `key`.
pub open spec fn lookup<K>(entries: Seq<(K, IntermediateView)>, key: K) -> Option<
    IntermediateView,
> {
    match position_of(entries, key) {
        Some(i) => Some(entries[i].1),
        None => None,
    }
}

/// What `change` does to an entry, given the value that stands under its key.
pub open spec fn action_of(change: ChangeView, old: Option<IntermediateView>) -> Result<
    KeyedAction,
    ErrorView,
> {
    match change {
        ChangeView::Removed => Ok(
            match old {
                Some(_) => KeyedAction::Delete,
                None => KeyedAction::Keep,
            },
        ),
        ChangeView::Changed(v) => Ok(
            match old {
                Some(_) => KeyedAction::Replace(v),
                None => KeyedAction::Keep,
            },
        ),
        ChangeView::Added(v) => Ok(
            match old {
                Some(_) => KeyedAction::Replace(v),
                None => KeyedAction::Append(v),
            },
        ),
        other => match old {
            Some(value) => match patch_spec(change, value) {
                Ok(Some(p)) => Ok(KeyedAction::Replace(p)),
                Ok(None) => Ok(KeyedAction::Keep),
                Err(e) => Err(e),
            },
            None => Ok(KeyedAction::Keep),
        },
    }
}

/// The entries after `action` on the entry of `key`.
pub open spec fn perform<K>(
    action: KeyedAction,
    key: K,
    entries: Seq<(K, IntermediateView)>,
) -> Seq<(K, IntermediateView)> {
    match action {
        KeyedAction::Keep => entries,
        KeyedAction::Replace(v) => match position_of(entries, key) {
            Some(i) => entries.update(i, (entries[i].0, v)),
            None => entries,
        },
        KeyedAction::Delete => match position_of(entries, key) {
            Some(i) => entries.remove(i),
            None => entries,
        },
        KeyedAction::Append(v) => entries.push((key, v)),
    }
}

/// Applying a keyed change is performing its action.
pub proof fn lemma_step_is_action<K>(
    change: (K, ChangeView),
    entries: Seq<(K, IntermediateView)>,
)
    ensures
        patch_keyed_step(change, entries) == match action_of(change.1, lookup(entries, change.0)) {
            Ok(action) => Ok::<Seq<(K, IntermediateView)>, ErrorView>(
                perform(action, change.0, entries),
            ),
            Err(e) => Err(e),
        },
{
}

/// Replacing a value moves no key.
pub proof fn lemma_position_update<K>(
    entries: Seq<(K, IntermediateView)>,
    at: int,
    value: IntermediateView,
    key: K,
)
    requires
        0 <= at < entries.len(),
    ensures
        position_of(entries.update(at, (entries[at].0, value)), key) == position_of(entries, key),
{
    let after = entries.update(at, (entries[at].0, value));
    lemma_position_found(entries, key, 0);
    match position_of(entries, key) {
        Some(i) => {
            assert forall|j: int| 0 <= j < i implies (#[trigger] after[j]).0 != key by {
                assert(entries[j].0 != key);
            }
            lemma_position_at(after, key, 0, i);
        },
        None => {
            assert forall|j: int| 0 <= j < after.len() implies (#[trigger] after[j]).0 != key by {
                assert(entries[j].0 != key);
            }
            lemma_position_none(after, key, 0);
        },
    }
}

/// Appending an entry with another key moves no key.
pub proof fn lemma_position_push<K>(
    entries: Seq<(K, IntermediateView)>,
    entry: (K, IntermediateView),
    key: K,
)
    requires
        entry.0 != key,
    ensures
        position_of(entries.push(entry), key) == position_of(entries, key),
{
    let after = entries.push(entry);
    lemma_position_found(entries, key, 0);
    match position_of(entries, key) {
        Some(i) => {
            assert forall|j: int| 0 <= j < i implies (#[trigger] after[j]).0 != key by {
                assert(entries[j].0 != key);
            }
            assert(after[i] == entries[i]);
            lemma_position_at(after, key, 0, i);
        },
        None => {
            assert forall|j: int| 0 <= j < after.len() implies (#[trigger] after[j]).0 != key by {
                if j < entries.len() {
                    assert(entries[j].0 != key);
                }
            }
            lemma_position_none(after, key, 0);
        },
    }
}

/// Deleting an entry with another key moves the later keys up by one.
pub proof fn lemma_position_remove<K>(entries: Seq<(K, IntermediateView)>, at: int, key: K)
    requires
        0 <= at < entries.len(),
        entries[at].0 != key,
    ensures
        position_of(entries.remove(at), key) == match position_of(entries, key) {
            Some(i) => Some(
                if i < at {
                    i
                } else {
                    i - 1
                },
            ),
            None => None,
        },
        match position_of(entries, key) {
            Some(i) => i != at,
            None => true,
        },
{
    let after = entries.remove(at);
    lemma_position_found(entries, key, 0);
    match position_of(entries, key) {
        Some(i) => {
            let moved = if i < at {
                i
            } else {
                i - 1
            };
            assert forall|j: int| 0 <= j < moved implies (#[trigger] after[j]).0 != key by {
                if j < at {
                    assert(entries[j].0 != key);
                } else {
                    assert(entries[j + 1].0 != key);
                }
            }
            assert(after[moved] == entries[i]);
            lemma_position_at(after, key, 0, moved);
        },
        None => {
            assert forall|j: int| 0 <= j < after.len() implies (#[trigger] after[j]).0 != key by {
                if j < at {
                    assert(entries[j].0 != key);
                } else {
                    assert(entries[j + 1].0 != key);
                }
            }
            lemma_position_none(after, key, 0);
        },
    }
}

/// An action on one key leaves the value under every other key as it is.
pub proof fn lemma_lookup_after<K>(
    action: KeyedAction,
    key: K,
    entries: Seq<(K, IntermediateView)>,
    other: K,
)
    requires
        key != other,
    ensures
        lookup(perform(action, key, entries), other) == lookup(entries, other),
{
    lemma_position_found(entries, key, 0);
    lemma_position_found(entries, other, 0);
    match action {
        KeyedAction::Keep => {},
        KeyedAction::Replace(v) => match position_of(entries, key) {
            Some(i) => {
                lemma_position_update(entries, i, v, other);
            },
            None => {},
        },
        KeyedAction::Delete => match position_of(entries, key) {
            Some(i) => {
                lemma_position_remove(entries, i, other);
            },
            None => {},
        },
        KeyedAction::Append(v) => {
            lemma_position_push(entries, (key, v), other);
        },
    }
}

/// Two actions on different keys give the same entries in either order,
/// unless both append.
pub proof fn lemma_perform_commute<K>(
    first: KeyedAction,
    first_key: K,
    second: KeyedAction,
    second_key: K,
    entries: Seq<(K, IntermediateView)>,
)
    requires
        first_key != second_key,
        !(first is Append && second is Append),
    ensures
        perform(second, second_key, perform(first, first_key, entries)) == perform(
            first,
            first_key,
            perform(second, second_key, entries),
        ),
{
    let after_first = perform(first, first_key, entries);
    let after_second = perform(second, second_key, entries);
    lemma_position_found(entries, first_key, 0);
    lemma_position_found(entries, second_key, 0);
    let at_first = position_of(entries, first_key);
    let at_second = position_of(entries, second_key);
    match first {
        KeyedAction::Keep => {},
        KeyedAction::Replace(v) => match at_first {
            Some(i) => {
                lemma_position_update(entries, i, v, second_key);
            },
            None => {},
        },
        KeyedAction::Delete => match at_first {
            Some(i) => {
                lemma_position_remove(entries, i, second_key);
            },
            None => {},
        },
        KeyedAction::Append(v) => {
            lemma_position_push(entries, (first_key, v), second_key);
        },
    }
    match second {
        KeyedAction::Keep => {},
        KeyedAction::Replace(v) => match at_second {
            Some(i) => {
                lemma_position_update(entries, i, v, first_key);
            },
            None => {},
        },
        KeyedAction::Delete => match at_second {
            Some(i) => {
                lemma_position_remove(entries, i, first_key);
            },
            None => {},
        },
        KeyedAction::Append(v) => {
            lemma_position_push(entries, (second_key, v), first_key);
        },
    }
    assert(perform(second, second_key, after_first) =~= perform(first, first_key, after_second));
}

/// Two keyed changes on different keys that both apply give the same entries
/// in either order, unless both append a new key.
pub proof fn lemma_step_commute<K>(
    first: (K, ChangeView),
    second: (K, ChangeView),
    entries: Seq<(K, IntermediateView)>,
)
    requires
        first.0 != second.0,
        patch_keyed_step(first, entries).is_ok(),
        patch_keyed_step(second, entries).is_ok(),
        !(second.1 is Added),
    ensures
        patch_keyed_step(second, patch_keyed_step(first, entries)->Ok_0).is_ok(),
        patch_keyed_step(second, patch_keyed_step(first, entries)->Ok_0) == patch_keyed_step(
            first,
            patch_keyed_step(second, entries)->Ok_0,
        ),
{
    lemma_step_is_action(first, entries);
    lemma_step_is_action(second, entries);
    let first_action = action_of(first.1, lookup(entries, first.0))->Ok_0;
    let second_action = action_of(second.1, lookup(entries, second.0))->Ok_0;
    let after_first = perform(first_action, first.0, entries);
    let after_second = perform(second_action, second.0, entries);
    lemma_lookup_after(first_action, first.0, entries, second.0);
    lemma_lookup_after(second_action, second.0, entries, first.0);
    lemma_step_is_action(second, after_first);
    lemma_step_is_action(first, after_second);
    lemma_perform_commute(first_action, first.0, second_action, second.0, entries);
}

/// Whether no change of the list is an addition.
pub open spec fn no_additions<K>(changes: Seq<(K, ChangeView)>) -> bool {
    forall|i: int| 0 <= i < changes.len() ==> !((#[trigger] changes[i]).1 is Added)
}

/// Whether no key of `first` is a key of `second`.
pub open spec fn keys_apart<K>(first: Seq<(K, ChangeView)>, second: Seq<(K, ChangeView)>) -> bool {
    forall|i: int, j: int|
        0 <= i < first.len() && 0 <= j < second.len() ==> (#[trigger] first[i]).0 != (
        #[trigger] second[j]).0
}

/// One change that is no addition can be applied before or after a list of
/// changes on other keys.
pub proof fn lemma_step_past_list<K>(
    change: (K, ChangeView),
    list: Seq<(K, ChangeView)>,
    k: int,
    entries: Seq<(K, IntermediateView)>,
)
    requires
        0 <= k,
        !(change.1 is Added),
        forall|i: int| 0 <= i < list.len() ==> (#[trigger] list[i]).0 != change.0,
        patch_keyed_from(list, k, entries).is_ok(),
        patch_keyed_step(change, entries).is_ok(),
    ensures
        patch_keyed_step(change, patch_keyed_from(list, k, entries)->Ok_0).is_ok(),
        patch_keyed_from(list, k, patch_keyed_step(change, entries)->Ok_0) == patch_keyed_step(
            change,
            patch_keyed_from(list, k, entries)->Ok_0,
        ),
    decreases list.len() - k,
{
    if k < list.len() {
        let after = patch_keyed_step(list[k], entries)->Ok_0;
        lemma_step_commute(list[k], change, entries);
        lemma_step_past_list(change, list, k + 1, after);
    }
}

/// The changes `second[j..]`, none of them an addition, can be applied before
/// or after the changes of `first`, which touch other keys.
pub proof fn lemma_lists_commute<K>(
    first: Seq<(K, ChangeView)>,
    second: Seq<(K, ChangeView)>,
    j: int,
    entries: Seq<(K, IntermediateView)>,
)
    requires
        0 <= j,
        keys_apart(first, second),
        no_additions(second),
        patch_keyed_from(first, 0, entries).is_ok(),
        patch_keyed_from(second, j, entries).is_ok(),
    ensures
        patch_keyed_from(second, j, patch_keyed_from(first, 0, entries)->Ok_0).is_ok(),
        patch_keyed_from(second, j, patch_keyed_from(first, 0, entries)->Ok_0)
            == patch_keyed_from(first, 0, patch_keyed_from(second, j, entries)->Ok_0),
    decreases second.len() - j,
{
    if j < second.len() {
        let change = second[j];
        let middle = patch_keyed_step(change, entries)->Ok_0;
        assert forall|i: int| 0 <= i < first.len() implies (#[trigger] first[i]).0
            != change.0 by {
            assert(first[i].0 != second[j].0);
        }
        lemma_step_past_list(change, first, 0, entries);
        lemma_lists_commute(first, second, j + 1, middle);
    }
}

/// Composability: two lists of keyed changes that touch different keys and
/// both apply to the same entries give the same entries in either order,
/// where at most one of them appends new keys.
pub proof fn lemma_disjoint_changes_commute<K>(
    base: Seq<(K, IntermediateView)>,
    first: Seq<(K, ChangeView)>,
    second: Seq<(K, ChangeView)>,
)
    requires
        keys_apart(first, second),
        no_additions(first) || no_additions(second),
        patch_keyed_from(first, 0, base).is_ok(),
        patch_keyed_from(second, 0, base).is_ok(),
    ensures
        patch_keyed_from(second, 0, patch_keyed_from(first, 0, base)->Ok_0).is_ok(),
        patch_keyed_from(second, 0, patch_keyed_from(first, 0, base)->Ok_0) == patch_keyed_from(
            first,
            0,
            patch_keyed_from(second, 0, base)->Ok_0,
        ),
{
    if no_additions(second) {
        lemma_lists_commute(first, second, 0, base);
    } else {
        assert(keys_apart(second, first));
        lemma_lists_commute(second, first, 0, base);
    }
}

/// Composability of changes to a struct: two changes of fields with
/// different names that both apply to `base` can be applied in either order,
/// where at most one of them adds fields.
pub proof fn lemma_struct_changes_commute(
    base: Seq<(Seq<char>, IntermediateView)>,
    first: Seq<(Seq<char>, ChangeView)>,
    second: Seq<(Seq<char>, ChangeView)>,
)
    requires
        keys_apart(first, second),
        no_additions(first) || no_additions(second),
        patch_spec(ChangeView::PartialStruct(first), IntermediateView::Struct(base)).is_ok(),
        patch_spec(ChangeView::PartialStruct(second), IntermediateView::Struct(base)).is_ok(),
    ensures
        ({
            let after_first = patch_spec(
                ChangeView::PartialStruct(first),
                IntermediateView::Struct(base),
            )->Ok_0->Some_0;
            let after_second = patch_spec(
                ChangeView::PartialStruct(second),
                IntermediateView::Struct(base),
            )->Ok_0->Some_0;
            patch_spec(ChangeView::PartialStruct(second), after_first).is_ok() && patch_spec(
                ChangeView::PartialStruct(second),
                after_first,
            ) == patch_spec(ChangeView::PartialStruct(first), after_second)
        }),
{
    lemma_struct_patch_is_keyed(first, 0, base);
    lemma_struct_patch_is_keyed(second, 0, base);
    lemma_disjoint_changes_commute(base, first, second);
    lemma_struct_patch_is_keyed(second, 0, patch_keyed_from(first, 0, base)->Ok_0);
    lemma_struct_patch_is_keyed(first, 0, patch_keyed_from(second, 0, base)->Ok_0);
}

/// Composability of changes to a map: two changes of entries with different
/// keys that both apply to `base` can be applied in either order, where at
/// most one of them adds entries.
pub proof fn lemma_map_changes_commute(
    base: Seq<(IntermediateView, IntermediateView)>,
    first: Seq<(IntermediateView, ChangeView)>,
    second: Seq<(IntermediateView, ChangeView)>,
)
    requires
        keys_apart(first, second),
        no_additions(first) || no_additions(second),
        patch_spec(ChangeView::PartialMap(first), IntermediateView::Mapping(base)).is_ok(),
        patch_spec(ChangeView::PartialMap(second), IntermediateView::Mapping(base)).is_ok(),
    ensures
        ({
            let after_first = patch_spec(
                ChangeView::PartialMap(first),
                IntermediateView::Mapping(base),
            )->Ok_0->Some_0;
            let after_second = patch_spec(
                ChangeView::PartialMap(second),
                IntermediateView::Mapping(base),
            )->Ok_0->Some_0;
            patch_spec(ChangeView::PartialMap(second), after_first).is_ok() && patch_spec(
                ChangeView::PartialMap(second),
                after_first,
            ) == patch_spec(ChangeView::PartialMap(first), after_second)
        }),
{
    lemma_map_patch_is_keyed(first, 0, base);
    lemma_map_patch_is_keyed(second, 0, base);
    lemma_disjoint_changes_commute(base, first, second);
    lemma_map_patch_is_keyed(second, 0, patch_keyed_from(first, 0, base)->Ok_0);
    lemma_map_patch_is_keyed(first, 0, patch_keyed_from(second, 0, base)->Ok_0);
}

} // verus!
