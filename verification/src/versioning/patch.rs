//! Applying a change to a tree.

use crate::error::{Error, ErrorView};
use crate::value::{
    clone_entries, clone_fields, clone_items, entries_view, fields_view, items_view, Intermediate,
    IntermediateView,
};
use crate::versioning::change::{
    map_changes_view, seq_changes_view, struct_changes_view, Change, ChangeView,
};
use vstd::prelude::*;

verus! {

/// Position of the first entry at or after `start` whose key is `key`.
pub open spec fn position_from<K, V>(entries: Seq<(K, V)>, key: K, start: int) -> Option<int>
    decreases entries.len() - start,
{
    if start < 0 || start >= entries.len() {
        None
    } else if entries[start].0 == key {
        Some(start)
    } else {
        position_from(entries, key, start + 1)
    }
}

/// Position of the first entry whose key is `key`: lookup is by first match.
pub open spec fn position_of<K, V>(entries: Seq<(K, V)>, key: K) -> Option<int> {
    position_from(entries, key, 0)
}

/// What applying `change` to `value` gives: `Ok(None)` when the value is
/// removed, an error when the change does not fit the shape of the value.
pub open spec fn patch_spec(change: ChangeView, value: IntermediateView) -> Result<
    Option<IntermediateView>,
    ErrorView,
>
    decreases change, 0int,
{
    match change {
        ChangeView::Same => Ok(Some(value)),
        ChangeView::Removed => Ok(None),
        ChangeView::Changed(v) => Ok(Some(v)),
        ChangeView::Added(_) => Err(ErrorView::CannotAdd(value)),
        ChangeView::PartialChange(inner) => match value {
            IntermediateView::Option(Some(content)) => match patch_spec(*inner, *content) {
                Ok(Some(p)) => Ok(Some(IntermediateView::Option(Some(Box::new(p))))),
                Ok(None) => Err(ErrorView::NotPartial(value)),
                Err(e) => Err(e),
            },
            IntermediateView::NewTypeStruct(content) => match patch_spec(*inner, *content) {
                Ok(Some(p)) => Ok(Some(IntermediateView::NewTypeStruct(Box::new(p)))),
                Ok(None) => Err(ErrorView::NotPartial(value)),
                Err(e) => Err(e),
            },
            IntermediateView::NewTypeVariant(name, content) => match patch_spec(*inner, *content) {
                Ok(Some(p)) => Ok(Some(IntermediateView::NewTypeVariant(name, Box::new(p)))),
                Ok(None) => Err(ErrorView::NotPartial(value)),
                Err(e) => Err(e),
            },
            _ => Err(ErrorView::NotPartial(value)),
        },
        ChangeView::PartialSeq(changes) => match value {
            IntermediateView::Sequence(items) => match patch_seq_from(changes, 0, items) {
                Ok(r) => Ok(Some(IntermediateView::Sequence(r))),
                Err(e) => Err(e),
            },
            IntermediateView::Tuple(items) => match patch_seq_from(changes, 0, items) {
                Ok(r) => Ok(Some(IntermediateView::Tuple(r))),
                Err(e) => Err(e),
            },
            IntermediateView::TupleStruct(items) => match patch_seq_from(changes, 0, items) {
                Ok(r) => Ok(Some(IntermediateView::TupleStruct(r))),
                Err(e) => Err(e),
            },
            _ => Err(ErrorView::NotSeq(value)),
        },
        ChangeView::PartialMap(changes) => match value {
            IntermediateView::Mapping(entries) => match patch_map_from(changes, 0, entries) {
                Ok(r) => Ok(Some(IntermediateView::Mapping(r))),
                Err(e) => Err(e),
            },
            _ => Err(ErrorView::NotMap(value)),
        },
        ChangeView::PartialStruct(changes) => match value {
            IntermediateView::Struct(fields) => match patch_struct_from(changes, 0, fields) {
                Ok(r) => Ok(Some(IntermediateView::Struct(r))),
                Err(e) => Err(e),
            },
            IntermediateView::StructVariant(name, fields) => match patch_struct_from(
                changes,
                0,
                fields,
            ) {
                Ok(r) => Ok(Some(IntermediateView::StructVariant(name, r))),
                Err(e) => Err(e),
            },
            _ => Err(ErrorView::NotStruct(value)),
        },
    }
}

/// Applies the positional changes `changes[k..]`, in order, to `items`.
///
/// `Removed` deletes at the index, `Changed` replaces in place, `Added`
/// inserts at the index, any other change is applied to the item at the
/// index. An edit whose index lies outside the list leaves it as it is.
pub open spec fn patch_seq_from(
    changes: Seq<(int, ChangeView)>,
    k: int,
    items: Seq<IntermediateView>,
) -> Result<Seq<IntermediateView>, ErrorView>
    decreases changes, changes.len() - k,
{
    if k < 0 || k >= changes.len() {
        Ok(items)
    } else {
        let index = changes[k].0;
        match changes[k].1 {
            ChangeView::Removed => patch_seq_from(
                changes,
                k + 1,
                if 0 <= index < items.len() {
                    items.remove(index)
                } else {
                    items
                },
            ),
            ChangeView::Changed(v) => patch_seq_from(
                changes,
                k + 1,
                if 0 <= index < items.len() {
                    items.update(index, v)
                } else {
                    items
                },
            ),
            ChangeView::Added(v) => patch_seq_from(
                changes,
                k + 1,
                if 0 <= index <= items.len() {
                    items.insert(index, v)
                } else {
                    items
                },
            ),
            other => if 0 <= index < items.len() {
                match patch_spec(changes[k].1, items[index]) {
                    Ok(Some(p)) => patch_seq_from(changes, k + 1, items.update(index, p)),
                    Ok(None) => patch_seq_from(changes, k + 1, items),
                    Err(e) => Err(e),
                }
            } else {
                patch_seq_from(changes, k + 1, items)
            },
        }
    }
}

/// Applies the changes keyed by map key `changes[k..]`, in order, to `entries`.
///
/// `Removed` deletes the first entry with the key, `Changed` replaces its
/// value, `Added` replaces its value or appends a new entry, any other change
/// is applied to its value. An edit on a missing key, but for `Added`, leaves
/// the entries as they are.
pub open spec fn patch_map_from(
    changes: Seq<(IntermediateView, ChangeView)>,
    k: int,
    entries: Seq<(IntermediateView, IntermediateView)>,
) -> Result<Seq<(IntermediateView, IntermediateView)>, ErrorView>
    decreases changes, changes.len() - k,
{
    if k < 0 || k >= changes.len() {
        Ok(entries)
    } else {
        let key = changes[k].0;
        let found = position_of(entries, key);
        match changes[k].1 {
            ChangeView::Removed => patch_map_from(
                changes,
                k + 1,
                match found {
                    Some(i) => entries.remove(i),
                    None => entries,
                },
            ),
            ChangeView::Changed(v) => patch_map_from(
                changes,
                k + 1,
                match found {
                    Some(i) => entries.update(i, (entries[i].0, v)),
                    None => entries,
                },
            ),
            ChangeView::Added(v) => patch_map_from(
                changes,
                k + 1,
                match found {
                    Some(i) => entries.update(i, (entries[i].0, v)),
                    None => entries.push((key, v)),
                },
            ),
            other => match found {
                Some(i) => match patch_spec(changes[k].1, entries[i].1) {
                    Ok(Some(p)) => patch_map_from(
                        changes,
                        k + 1,
                        entries.update(i, (entries[i].0, p)),
                    ),
                    Ok(None) => patch_map_from(changes, k + 1, entries),
                    Err(e) => Err(e),
                },
                None => patch_map_from(changes, k + 1, entries),
            },
        }
    }
}

/// Applies the changes keyed by field name `changes[k..]`, in order, to `entries`.
///
/// `Removed` deletes the first entry with the key, `Changed` replaces its
/// value, `Added` replaces its value or appends a new entry, any other change
/// is applied to its value. An edit on a missing key, but for `Added`, leaves
/// the entries as they are.
pub open spec fn patch_struct_from(
    changes: Seq<(Seq<char>, ChangeView)>,
    k: int,
    entries: Seq<(Seq<char>, IntermediateView)>,
) -> Result<Seq<(Seq<char>, IntermediateView)>, ErrorView>
    decreases changes, changes.len() - k,
{
    if k < 0 || k >= changes.len() {
        Ok(entries)
    } else {
        let key = changes[k].0;
        let found = position_of(entries, key);
        match changes[k].1 {
            ChangeView::Removed => patch_struct_from(
                changes,
                k + 1,
                match found {
                    Some(i) => entries.remove(i),
                    None => entries,
                },
            ),
            ChangeView::Changed(v) => patch_struct_from(
                changes,
                k + 1,
                match found {
                    Some(i) => entries.update(i, (entries[i].0, v)),
                    None => entries,
                },
            ),
            ChangeView::Added(v) => patch_struct_from(
                changes,
                k + 1,
                match found {
                    Some(i) => entries.update(i, (entries[i].0, v)),
                    None => entries.push((key, v)),
                },
            ),
            other => match found {
                Some(i) => match patch_spec(changes[k].1, entries[i].1) {
                    Ok(Some(p)) => patch_struct_from(
                        changes,
                        k + 1,
                        entries.update(i, (entries[i].0, p)),
                    ),
                    Ok(None) => patch_struct_from(changes, k + 1, entries),
                    Err(e) => Err(e),
                },
                None => patch_struct_from(changes, k + 1, entries),
            },
        }
    }
}

/// Model of the outcome of a patch.
pub open spec fn outcome_view(r: Result<Option<Intermediate>, Error>) -> Result<
    Option<IntermediateView>,
    ErrorView,
> {
    match r {
        Ok(Some(v)) => Ok(Some(v@)),
        Ok(None) => Ok(None),
        Err(e) => Err(e@),
    }
}

/// Finds the first map entry whose key equals `key`.
pub fn find_entry(entries: &Vec<(Intermediate, Intermediate)>, key: &Intermediate) -> (r: Option<
    usize,
>)
    ensures
        match r {
            Some(i) => position_of(entries_view(entries@), key@) == Some(i as int) && i
                < entries@.len() && entries@[i as int].0@ == key@,
            None => position_of(entries_view(entries@), key@).is_none(),
        },
{
    let ghost ev = entries_view(entries@);
    let mut i: usize = 0;
    while i < entries.len()
        invariant
            i <= entries@.len(),
            ev == entries_view(entries@),
            position_of(ev, key@) == position_from(ev, key@, i as int),
        decreases entries@.len() - i,
    {
        proof {
            assert(ev[i as int].0 == entries@[i as int].0@);
        }
        if entries[i].0.eq_tree(key) {
            return Some(i);
        }
        i += 1;
    }
    None
}

/// Finds the first field whose name equals `key`.
pub fn find_field(fields: &Vec<(String, Intermediate)>, key: &String) -> (r: Option<usize>)
    ensures
        match r {
            Some(i) => position_of(fields_view(fields@), key@) == Some(i as int) && i
                < fields@.len() && fields@[i as int].0@ == key@,
            None => position_of(fields_view(fields@), key@).is_none(),
        },
{
    let ghost fv = fields_view(fields@);
    let mut i: usize = 0;
    while i < fields.len()
        invariant
            i <= fields@.len(),
            fv == fields_view(fields@),
            position_of(fv, key@) == position_from(fv, key@, i as int),
        decreases fields@.len() - i,
    {
        proof {
            assert(fv[i as int].0 == fields@[i as int].0@);
        }
        if fields[i].0 == *key {
            return Some(i);
        }
        i += 1;
    }
    None
}

/// Applies positional changes, in order, to a copy of `items`.
pub fn patch_items(items: &[Intermediate], changes: &[(usize, Change)]) -> (r: Result<
    Vec<Intermediate>,
    Error,
>)
    ensures
        match r {
            Ok(v) => patch_seq_from(seq_changes_view(changes@), 0, items_view(items@)) == Ok::<
                Seq<IntermediateView>,
                ErrorView,
            >(items_view(v@)),
            Err(e) => patch_seq_from(seq_changes_view(changes@), 0, items_view(items@)) == Err::<
                Seq<IntermediateView>,
                ErrorView,
            >(e@),
        },
    decreases changes@,
{
    let ghost cv = seq_changes_view(changes@);
    let ghost start = items_view(items@);
    let mut result = clone_items(items);
    let mut k: usize = 0;
    while k < changes.len()
        invariant
            k <= changes@.len(),
            cv == seq_changes_view(changes@),
            start == items_view(items@),
            patch_seq_from(cv, 0, start) == patch_seq_from(cv, k as int, items_view(result@)),
        decreases changes@.len() - k,
    {
        let index = changes[k].0;
        let ghost before = items_view(result@);
        proof {
            assert(cv[k as int] == (index as int, changes@[k as int].1.model()));
        }
        match &changes[k].1 {
            Change::Removed => {
                if index < result.len() {
                    result.remove(index);
                    proof {
                        assert(items_view(result@) =~= before.remove(index as int));
                    }
                }
            },
            Change::Changed(v) => {
                if index < result.len() {
                    result.set(index, v.clone());
                    proof {
                        assert(items_view(result@) =~= before.update(index as int, v@));
                    }
                }
            },
            Change::Added(v) => {
                if index <= result.len() {
                    result.insert(index, v.clone());
                    proof {
                        assert(items_view(result@) =~= before.insert(index as int, v@));
                    }
                }
            },
            change => {
                if index < result.len() {
                    proof {
                        assert(before[index as int] == result@[index as int]@);
                    }
                    match change.patch(&result[index]) {
                        Ok(Some(patched)) => {
                            let ghost p = patched@;
                            result.set(index, patched);
                            proof {
                                assert(items_view(result@) =~= before.update(index as int, p));
                            }
                        },
                        Ok(None) => {},
                        Err(e) => {
                            return Err(e);
                        },
                    }
                }
            },
        }
        k += 1;
    }
    Ok(result)
}

/// Applies changes keyed by map key, in order, to a copy of `entries`.
pub fn patch_entries(entries: &[(Intermediate, Intermediate)], changes: &[(Intermediate, Change)]) -> (r:
    Result<Vec<(Intermediate, Intermediate)>, Error>)
    ensures
        match r {
            Ok(v) => patch_map_from(map_changes_view(changes@), 0, entries_view(entries@)) == Ok::<
                Seq<(IntermediateView, IntermediateView)>,
                ErrorView,
            >(entries_view(v@)),
            Err(e) => patch_map_from(map_changes_view(changes@), 0, entries_view(entries@)) == Err::<
                Seq<(IntermediateView, IntermediateView)>,
                ErrorView,
            >(e@),
        },
    decreases changes@,
{
    let ghost cv = map_changes_view(changes@);
    let ghost start = entries_view(entries@);
    let mut result = clone_entries(entries);
    let mut k: usize = 0;
    while k < changes.len()
        invariant
            k <= changes@.len(),
            cv == map_changes_view(changes@),
            start == entries_view(entries@),
            patch_map_from(cv, 0, start) == patch_map_from(cv, k as int, entries_view(result@)),
        decreases changes@.len() - k,
    {
        let key = &changes[k].0;
        let ghost before = entries_view(result@);
        proof {
            assert(cv[k as int] == (key@, changes@[k as int].1.model()));
        }
        let found = find_entry(&result, key);
        match &changes[k].1 {
            Change::Removed => {
                if let Some(i) = found {
                    result.remove(i);
                    proof {
                        assert(entries_view(result@) =~= before.remove(i as int));
                    }
                }
            },
            Change::Changed(v) => {
                if let Some(i) = found {
                    let name = result[i].0.clone();
                    result.set(i, (name, v.clone()));
                    proof {
                        assert(entries_view(result@) =~= before.update(
                            i as int,
                            (before[i as int].0, v@),
                        ));
                    }
                }
            },
            Change::Added(v) => {
                if let Some(i) = found {
                    let name = result[i].0.clone();
                    result.set(i, (name, v.clone()));
                    proof {
                        assert(entries_view(result@) =~= before.update(
                            i as int,
                            (before[i as int].0, v@),
                        ));
                    }
                } else {
                    result.push((key.clone(), v.clone()));
                    proof {
                        assert(entries_view(result@) =~= before.push((key@, v@)));
                    }
                }
            },
            change => {
                if let Some(i) = found {
                    proof {
                        assert(before[i as int].1 == result@[i as int].1@);
                    }
                    match change.patch(&result[i].1) {
                        Ok(Some(patched)) => {
                            let ghost p = patched@;
                            let name = result[i].0.clone();
                            result.set(i, (name, patched));
                            proof {
                                assert(entries_view(result@) =~= before.update(
                                    i as int,
                                    (before[i as int].0, p),
                                ));
                            }
                        },
                        Ok(None) => {},
                        Err(e) => {
                            return Err(e);
                        },
                    }
                }
            },
        }
        k += 1;
    }
    Ok(result)
}

/// Applies changes keyed by field name, in order, to a copy of `fields`.
pub fn patch_fields(fields: &[(String, Intermediate)], changes: &[(String, Change)]) -> (r: Result<
    Vec<(String, Intermediate)>,
    Error,
>)
    ensures
        match r {
            Ok(v) => patch_struct_from(struct_changes_view(changes@), 0, fields_view(fields@))
                == Ok::<Seq<(Seq<char>, IntermediateView)>, ErrorView>(fields_view(v@)),
            Err(e) => patch_struct_from(struct_changes_view(changes@), 0, fields_view(fields@))
                == Err::<Seq<(Seq<char>, IntermediateView)>, ErrorView>(e@),
        },
    decreases changes@,
{
    let ghost cv = struct_changes_view(changes@);
    let ghost start = fields_view(fields@);
    let mut result = clone_fields(fields);
    let mut k: usize = 0;
    while k < changes.len()
        invariant
            k <= changes@.len(),
            cv == struct_changes_view(changes@),
            start == fields_view(fields@),
            patch_struct_from(cv, 0, start) == patch_struct_from(
                cv,
                k as int,
                fields_view(result@),
            ),
        decreases changes@.len() - k,
    {
        let key = &changes[k].0;
        let ghost before = fields_view(result@);
        proof {
            assert(cv[k as int] == (key@, changes@[k as int].1.model()));
        }
        let found = find_field(&result, key);
        match &changes[k].1 {
            Change::Removed => {
                if let Some(i) = found {
                    result.remove(i);
                    proof {
                        assert(fields_view(result@) =~= before.remove(i as int));
                    }
                }
            },
            Change::Changed(v) => {
                if let Some(i) = found {
                    let name = result[i].0.clone();
                    result.set(i, (name, v.clone()));
                    proof {
                        assert(fields_view(result@) =~= before.update(
                            i as int,
                            (before[i as int].0, v@),
                        ));
                    }
                }
            },
            Change::Added(v) => {
                if let Some(i) = found {
                    let name = result[i].0.clone();
                    result.set(i, (name, v.clone()));
                    proof {
                        assert(fields_view(result@) =~= before.update(
                            i as int,
                            (before[i as int].0, v@),
                        ));
                    }
                } else {
                    result.push((key.clone(), v.clone()));
                    proof {
                        assert(fields_view(result@) =~= before.push((key@, v@)));
                    }
                }
            },
            change => {
                if let Some(i) = found {
                    proof {
                        assert(before[i as int].1 == result@[i as int].1@);
                    }
                    match change.patch(&result[i].1) {
                        Ok(Some(patched)) => {
                            let ghost p = patched@;
                            let name = result[i].0.clone();
                            result.set(i, (name, patched));
                            proof {
                                assert(fields_view(result@) =~= before.update(
                                    i as int,
                                    (before[i as int].0, p),
                                ));
                            }
                        },
                        Ok(None) => {},
                        Err(e) => {
                            return Err(e);
                        },
                    }
                }
            },
        }
        k += 1;
    }
    Ok(result)
}

impl Change {
    /// Applies this change to `value`, giving a new tree; `Ok(None)` means
    /// that the value was removed.
    pub fn patch(&self, value: &Intermediate) -> (r: Result<Option<Intermediate>, Error>)
        ensures
            outcome_view(r) == patch_spec(self@, value@),
        decreases self,
    {
        match self {
            Change::Same => Ok(Some(value.clone())),
            Change::Removed => Ok(None),
            Change::Changed(v) => Ok(Some(v.clone())),
            Change::Added(_) => Err(Error::CannotAdd(value.clone())),
            Change::PartialChange(change) => match value {
                Intermediate::Option(Some(v)) => match change.patch(v) {
                    Ok(Some(p)) => Ok(Some(Intermediate::Option(Some(Box::new(p))))),
                    Ok(None) => Err(Error::NotPartial(value.clone())),
                    Err(e) => Err(e),
                },
                Intermediate::NewTypeStruct(v) => match change.patch(v) {
                    Ok(Some(p)) => Ok(Some(Intermediate::NewTypeStruct(Box::new(p)))),
                    Ok(None) => Err(Error::NotPartial(value.clone())),
                    Err(e) => Err(e),
                },
                Intermediate::NewTypeVariant(n, v) => match change.patch(v) {
                    Ok(Some(p)) => Ok(Some(Intermediate::NewTypeVariant(n.clone(), Box::new(p)))),
                    Ok(None) => Err(Error::NotPartial(value.clone())),
                    Err(e) => Err(e),
                },
                _ => Err(Error::NotPartial(value.clone())),
            },
            Change::PartialSeq(changes) => match value {
                Intermediate::Sequence(v) => match patch_items(v.as_slice(), changes.as_slice()) {
                    Ok(r) => Ok(Some(Intermediate::Sequence(r))),
                    Err(e) => Err(e),
                },
                Intermediate::Tuple(v) => match patch_items(v.as_slice(), changes.as_slice()) {
                    Ok(r) => Ok(Some(Intermediate::Tuple(r))),
                    Err(e) => Err(e),
                },
                Intermediate::TupleStruct(v) => match patch_items(
                    v.as_slice(),
                    changes.as_slice(),
                ) {
                    Ok(r) => Ok(Some(Intermediate::TupleStruct(r))),
                    Err(e) => Err(e),
                },
                _ => Err(Error::NotSeq(value.clone())),
            },
            Change::PartialMap(changes) => match value {
                Intermediate::Mapping(v) => match patch_entries(v.as_slice(), changes.as_slice()) {
                    Ok(r) => Ok(Some(Intermediate::Mapping(r))),
                    Err(e) => Err(e),
                },
                _ => Err(Error::NotMap(value.clone())),
            },
            Change::PartialStruct(changes) => match value {
                Intermediate::Struct(v) => match patch_fields(v.as_slice(), changes.as_slice()) {
                    Ok(r) => Ok(Some(Intermediate::Struct(r))),
                    Err(e) => Err(e),
                },
                Intermediate::StructVariant(n, v) => match patch_fields(
                    v.as_slice(),
                    changes.as_slice(),
                ) {
                    Ok(r) => Ok(Some(Intermediate::StructVariant(n.clone(), r))),
                    Err(e) => Err(e),
                },
                _ => Err(Error::NotStruct(value.clone())),
            },
        }
    }
}

impl Intermediate {
    /// Applies `change` to this tree in place. Where the change cannot be
    /// applied, or removes the value, the tree stays as it is.
    pub fn patch_change(&mut self, change: &Change)
        ensures
            final(self)@ == match patch_spec(change@, old(self)@) {
                Ok(Some(v)) => v,
                _ => old(self)@,
            },
    {
        match change.patch(self) {
            Ok(Some(v)) => {
                *self = v;
            },
            _ => {},
        }
    }
}

} // verus!
