//! Building changes step by step.

use crate::value::Intermediate;
use crate::versioning::change::{
    map_changes_view, seq_changes_view, struct_changes_view, Change, ChangeView,
};
use crate::versioning::patch::{position_from, position_of};
use vstd::prelude::*;

verus! {

/// The keyed changes with `change` put under `key`: in place of the change of
/// the first entry with that key, or as a new entry at the end.
pub open spec fn with_keyed_change<K>(
    list: Seq<(K, ChangeView)>,
    key: K,
    change: ChangeView,
) -> Seq<(K, ChangeView)> {
    match position_of(list, key) {
        Some(i) => list.update(i, (list[i].0, change)),
        None => list.push((key, change)),
    }
}

/// Finds the first edit whose key equals `key`.
pub fn find_map_change(list: &Vec<(Intermediate, Change)>, key: &Intermediate) -> (r: Option<usize>)
    ensures
        match r {
            Some(i) => position_of(map_changes_view(list@), key@) == Some(i as int) && i
                < list@.len() && list@[i as int].0@ == key@,
            None => position_of(map_changes_view(list@), key@).is_none(),
        },
{
    let ghost lv = map_changes_view(list@);
    let mut i: usize = 0;
    while i < list.len()
        invariant
            i <= list@.len(),
            lv == map_changes_view(list@),
            position_of(lv, key@) == position_from(lv, key@, i as int),
        decreases list@.len() - i,
    {
        proof {
            assert(lv[i as int].0 == list@[i as int].0@);
        }
        if list[i].0.eq_tree(key) {
            return Some(i);
        }
        i += 1;
    }
    None
}

/// Finds the first edit whose field name equals `name`.
pub fn find_struct_change(list: &Vec<(String, Change)>, name: &String) -> (r: Option<usize>)
    ensures
        match r {
            Some(i) => position_of(struct_changes_view(list@), name@) == Some(i as int) && i
                < list@.len() && list@[i as int].0@ == name@,
            None => position_of(struct_changes_view(list@), name@).is_none(),
        },
{
    let ghost lv = struct_changes_view(list@);
    let mut i: usize = 0;
    while i < list.len()
        invariant
            i <= list@.len(),
            lv == struct_changes_view(list@),
            position_of(lv, name@) == position_from(lv, name@, i as int),
        decreases list@.len() - i,
    {
        proof {
            assert(lv[i as int].0 == list@[i as int].0@);
        }
        if list[i].0 == *name {
            return Some(i);
        }
        i += 1;
    }
    None
}

impl Change {
    /// No change.
    pub fn same() -> (r: Change)
        ensures
            r@ == ChangeView::Same,
    {
        Change::Same
    }

    /// The removal of a value.
    pub fn removed() -> (r: Change)
        ensures
            r@ == ChangeView::Removed,
    {
        Change::Removed
    }

    /// The replacement of a value by `value`.
    pub fn changed(value: Intermediate) -> (r: Change)
        ensures
            r@ == ChangeView::Changed(value@),
    {
        Change::Changed(value)
    }

    /// The addition of `value`.
    pub fn added(value: Intermediate) -> (r: Change)
        ensures
            r@ == ChangeView::Added(value@),
    {
        Change::Added(value)
    }

    /// A change of single content.
    pub fn partial_change(change: Change) -> (r: Change)
        ensures
            r@ == ChangeView::PartialChange(Box::new(change@)),
    {
        Change::PartialChange(Box::new(change))
    }

    /// A change of a list, without edits yet.
    pub fn partial_seq() -> (r: Change)
        ensures
            r@ == ChangeView::PartialSeq(Seq::empty()),
    {
        let r = Change::PartialSeq(Vec::new());
        proof {
            assert(seq_changes_view(Seq::<(usize, Change)>::empty()) =~= Seq::empty());
        }
        r
    }

    /// A change of a map, without edits yet.
    pub fn partial_map() -> (r: Change)
        ensures
            r@ == ChangeView::PartialMap(Seq::empty()),
    {
        let r = Change::PartialMap(Vec::new());
        proof {
            assert(map_changes_view(Seq::<(Intermediate, Change)>::empty()) =~= Seq::empty());
        }
        r
    }

    /// A change of a struct, without edits yet.
    pub fn partial_struct() -> (r: Change)
        ensures
            r@ == ChangeView::PartialStruct(Seq::empty()),
    {
        let r = Change::PartialStruct(Vec::new());
        proof {
            assert(struct_changes_view(Seq::<(String, Change)>::empty()) =~= Seq::empty());
        }
        r
    }

    /// Appends the edit `(index, change)` to a change of a list; any other
    /// change stays as it is.
    pub fn partial_seq_item(self, index: usize, change: Change) -> (r: Change)
        ensures
            r@ == match self@ {
                ChangeView::PartialSeq(l) => ChangeView::PartialSeq(
                    l.push((index as int, change@)),
                ),
                other => other,
            },
    {
        match self {
            Change::PartialSeq(mut v) => {
                let ghost before = seq_changes_view(v@);
                let ghost item = (index as int, change@);
                v.push((index, change));
                proof {
                    assert(seq_changes_view(v@) =~= before.push(item));
                }
                Change::PartialSeq(v)
            },
            other => other,
        }
    }

    /// Sets the change of `key` in a change of a map: in place of the change
    /// that stood under the key, or as a new edit at the end. Any other
    /// change stays as it is.
    pub fn partial_map_item(self, key: Intermediate, change: Change) -> (r: Change)
        ensures
            r@ == match self@ {
                ChangeView::PartialMap(l) => ChangeView::PartialMap(
                    with_keyed_change(l, key@, change@),
                ),
                other => other,
            },
    {
        match self {
            Change::PartialMap(mut v) => {
                let ghost before = map_changes_view(v@);
                let ghost c = change@;
                let found = find_map_change(&v, &key);
                match found {
                    Some(at) => {
                        proof {
                            assert(before[at as int].0 == v@[at as int].0@);
                        }
                        v.set(at, (key, change));
                        proof {
                            assert(map_changes_view(v@) =~= before.update(
                                at as int,
                                (before[at as int].0, c),
                            ));
                        }
                    },
                    None => {
                        let ghost pair = (key@, c);
                        v.push((key, change));
                        proof {
                            assert(map_changes_view(v@) =~= before.push(pair));
                        }
                    },
                }
                Change::PartialMap(v)
            },
            other => other,
        }
    }

    /// Sets the change of the field `name` in a change of a struct: in place
    /// of the change that stood under the name, or as a new edit at the end.
    /// Any other change stays as it is.
    pub fn partial_struct_item(self, name: &str, change: Change) -> (r: Change)
        ensures
            r@ == match self@ {
                ChangeView::PartialStruct(l) => ChangeView::PartialStruct(
                    with_keyed_change(l, name@, change@),
                ),
                other => other,
            },
    {
        match self {
            Change::PartialStruct(mut v) => {
                let ghost before = struct_changes_view(v@);
                let ghost c = change@;
                let owned: String = name.to_owned();
                let found = find_struct_change(&v, &owned);
                match found {
                    Some(at) => {
                        proof {
                            assert(before[at as int].0 == v@[at as int].0@);
                        }
                        v.set(at, (owned, change));
                        proof {
                            assert(struct_changes_view(v@) =~= before.update(
                                at as int,
                                (before[at as int].0, c),
                            ));
                        }
                    },
                    None => {
                        let ghost pair = (name@, c);
                        v.push((owned, change));
                        proof {
                            assert(struct_changes_view(v@) =~= before.push(pair));
                        }
                    },
                }
                Change::PartialStruct(v)
            },
            other => other,
        }
    }
}

} // verus!
