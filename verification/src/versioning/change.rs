//! The description of a delta between two trees.

use crate::value::{Intermediate, IntermediateView};
use vstd::prelude::*;

verus! {

/// Mathematical model of a [`Change`].
pub enum ChangeView {
    Same,
    Removed,
    Changed(IntermediateView),
    Added(IntermediateView),
    PartialChange(Box<ChangeView>),
    PartialSeq(Seq<(int, ChangeView)>),
    PartialMap(Seq<(IntermediateView, ChangeView)>),
    PartialStruct(Seq<(Seq<char>, ChangeView)>),
}

/// Information about change between two intermediate data.
#[derive(Debug)]
pub enum Change {
    /// Values are same.
    Same,
    /// Value was removed.
    Removed,
    /// Value was entirely changed.
    Changed(Intermediate),
    /// Value was added.
    Added(Intermediate),
    /// Value was partially changed.
    PartialChange(Box<Change>),
    /// Sequence of values was partially changed: `(index, change)`.
    PartialSeq(Vec<(usize, Change)>),
    /// Map of key-values was partially changed: `(key, change)`.
    PartialMap(Vec<(Intermediate, Change)>),
    /// Structure with field-value was partially changed: `(field, change)`.
    PartialStruct(Vec<(String, Change)>),
}

/// Model of a list of positional changes.
pub open spec fn seq_changes_view(v: Seq<(usize, Change)>) -> Seq<(int, ChangeView)>
    decreases v,
{
    Seq::new(
        v.len(),
        |i: int|
            if 0 <= i < v.len() {
                (v[i].0 as int, v[i].1.model())
            } else {
                (0, ChangeView::Same)
            },
    )
}

/// Model of a list of changes keyed by map key.
pub open spec fn map_changes_view(v: Seq<(Intermediate, Change)>) -> Seq<
    (IntermediateView, ChangeView),
>
    decreases v,
{
    Seq::new(
        v.len(),
        |i: int|
            if 0 <= i < v.len() {
                (v[i].0@, v[i].1.model())
            } else {
                (IntermediateView::Unit, ChangeView::Same)
            },
    )
}

/// Model of a list of changes keyed by field name.
pub open spec fn struct_changes_view(v: Seq<(String, Change)>) -> Seq<(Seq<char>, ChangeView)>
    decreases v,
{
    Seq::new(
        v.len(),
        |i: int|
            if 0 <= i < v.len() {
                (v[i].0@, v[i].1.model())
            } else {
                (Seq::empty(), ChangeView::Same)
            },
    )
}

impl Change {
    /// The model of this change.
    pub open spec fn model(&self) -> ChangeView
        decreases self,
    {
        match self {
            Change::Same => ChangeView::Same,
            Change::Removed => ChangeView::Removed,
            Change::Changed(v) => ChangeView::Changed(v@),
            Change::Added(v) => ChangeView::Added(v@),
            Change::PartialChange(c) => ChangeView::PartialChange(Box::new(c.model())),
            Change::PartialSeq(v) => ChangeView::PartialSeq(seq_changes_view(v@)),
            Change::PartialMap(v) => ChangeView::PartialMap(map_changes_view(v@)),
            Change::PartialStruct(v) => ChangeView::PartialStruct(struct_changes_view(v@)),
        }
    }
}

impl View for Change {
    type V = ChangeView;

    open spec fn view(&self) -> ChangeView {
        self.model()
    }
}

/// Copies a list of positional changes.
pub fn clone_seq_changes(v: &[(usize, Change)]) -> (r: Vec<(usize, Change)>)
    ensures
        seq_changes_view(r@) == seq_changes_view(v@),
    decreases v@,
{
    let mut r: Vec<(usize, Change)> = Vec::with_capacity(v.len());
    let mut i: usize = 0;
    while i < v.len()
        invariant
            i <= v@.len(),
            r@.len() == i,
            forall|j: int|
                0 <= j < i ==> (#[trigger] r@[j]).0 == v@[j].0 && r@[j].1.model()
                    == v@[j].1.model(),
        decreases v@.len() - i,
    {
        let c = v[i].1.clone_change();
        r.push((v[i].0, c));
        i += 1;
    }
    proof {
        assert(seq_changes_view(r@) =~= seq_changes_view(v@));
    }
    r
}

/// Copies a list of changes keyed by map key.
pub fn clone_map_changes(v: &[(Intermediate, Change)]) -> (r: Vec<(Intermediate, Change)>)
    ensures
        map_changes_view(r@) == map_changes_view(v@),
    decreases v@,
{
    let mut r: Vec<(Intermediate, Change)> = Vec::with_capacity(v.len());
    let mut i: usize = 0;
    while i < v.len()
        invariant
            i <= v@.len(),
            r@.len() == i,
            forall|j: int|
                0 <= j < i ==> (#[trigger] r@[j]).0@ == v@[j].0@ && r@[j].1.model()
                    == v@[j].1.model(),
        decreases v@.len() - i,
    {
        let k = v[i].0.clone();
        let c = v[i].1.clone_change();
        r.push((k, c));
        i += 1;
    }
    proof {
        assert(map_changes_view(r@) =~= map_changes_view(v@));
    }
    r
}

/// Copies a list of changes keyed by field name.
pub fn clone_struct_changes(v: &[(String, Change)]) -> (r: Vec<(String, Change)>)
    ensures
        struct_changes_view(r@) == struct_changes_view(v@),
    decreases v@,
{
    let mut r: Vec<(String, Change)> = Vec::with_capacity(v.len());
    let mut i: usize = 0;
    while i < v.len()
        invariant
            i <= v@.len(),
            r@.len() == i,
            forall|j: int|
                0 <= j < i ==> (#[trigger] r@[j]).0@ == v@[j].0@ && r@[j].1.model()
                    == v@[j].1.model(),
        decreases v@.len() - i,
    {
        let k = v[i].0.clone();
        let c = v[i].1.clone_change();
        r.push((k, c));
        i += 1;
    }
    proof {
        assert(struct_changes_view(r@) =~= struct_changes_view(v@));
    }
    r
}

/// Compares two lists of positional changes.
pub fn eq_seq_changes(a: &[(usize, Change)], b: &[(usize, Change)]) -> (r: bool)
    ensures
        r == (seq_changes_view(a@) == seq_changes_view(b@)),
    decreases a@,
{
    if a.len() != b.len() {
        proof {
            assert(seq_changes_view(a@).len() != seq_changes_view(b@).len());
        }
        return false;
    }
    let mut i: usize = 0;
    while i < a.len()
        invariant
            i <= a@.len(),
            a@.len() == b@.len(),
            forall|j: int|
                0 <= j < i ==> (#[trigger] a@[j]).0 == b@[j].0 && a@[j].1.model()
                    == b@[j].1.model(),
        decreases a@.len() - i,
    {
        if a[i].0 != b[i].0 || !a[i].1.eq_change(&b[i].1) {
            proof {
                assert(seq_changes_view(a@)[i as int] != seq_changes_view(b@)[i as int]);
            }
            return false;
        }
        i += 1;
    }
    proof {
        assert(seq_changes_view(a@) =~= seq_changes_view(b@));
    }
    true
}

/// Compares two lists of changes keyed by map key.
pub fn eq_map_changes(a: &[(Intermediate, Change)], b: &[(Intermediate, Change)]) -> (r: bool)
    ensures
        r == (map_changes_view(a@) == map_changes_view(b@)),
    decreases a@,
{
    if a.len() != b.len() {
        proof {
            assert(map_changes_view(a@).len() != map_changes_view(b@).len());
        }
        return false;
    }
    let mut i: usize = 0;
    while i < a.len()
        invariant
            i <= a@.len(),
            a@.len() == b@.len(),
            forall|j: int|
                0 <= j < i ==> (#[trigger] a@[j]).0@ == b@[j].0@ && a@[j].1.model()
                    == b@[j].1.model(),
        decreases a@.len() - i,
    {
        if !a[i].0.eq_tree(&b[i].0) || !a[i].1.eq_change(&b[i].1) {
            proof {
                assert(map_changes_view(a@)[i as int] != map_changes_view(b@)[i as int]);
            }
            return false;
        }
        i += 1;
    }
    proof {
        assert(map_changes_view(a@) =~= map_changes_view(b@));
    }
    true
}

/// Compares two lists of changes keyed by field name.
pub fn eq_struct_changes(a: &[(String, Change)], b: &[(String, Change)]) -> (r: bool)
    ensures
        r == (struct_changes_view(a@) == struct_changes_view(b@)),
    decreases a@,
{
    if a.len() != b.len() {
        proof {
            assert(struct_changes_view(a@).len() != struct_changes_view(b@).len());
        }
        return false;
    }
    let mut i: usize = 0;
    while i < a.len()
        invariant
            i <= a@.len(),
            a@.len() == b@.len(),
            forall|j: int|
                0 <= j < i ==> (#[trigger] a@[j]).0@ == b@[j].0@ && a@[j].1.model()
                    == b@[j].1.model(),
        decreases a@.len() - i,
    {
        if a[i].0 != b[i].0 || !a[i].1.eq_change(&b[i].1) {
            proof {
                assert(struct_changes_view(a@)[i as int] != struct_changes_view(b@)[i as int]);
            }
            return false;
        }
        i += 1;
    }
    proof {
        assert(struct_changes_view(a@) =~= struct_changes_view(b@));
    }
    true
}

impl Change {
    /// Copies the change.
    pub fn clone_change(&self) -> (r: Change)
        ensures
            r@ == self@,
        decreases self,
    {
        match self {
            Change::Same => Change::Same,
            Change::Removed => Change::Removed,
            Change::Changed(v) => Change::Changed(v.clone()),
            Change::Added(v) => Change::Added(v.clone()),
            Change::PartialChange(c) => Change::PartialChange(Box::new(c.clone_change())),
            Change::PartialSeq(v) => Change::PartialSeq(clone_seq_changes(v.as_slice())),
            Change::PartialMap(v) => Change::PartialMap(clone_map_changes(v.as_slice())),
            Change::PartialStruct(v) => Change::PartialStruct(clone_struct_changes(v.as_slice())),
        }
    }

    /// Structural equality of changes.
    pub fn eq_change(&self, other: &Change) -> (r: bool)
        ensures
            r == (self@ == other@),
        decreases self,
    {
        match self {
            Change::Same => match other {
                Change::Same => true,
                _ => false,
            },
            Change::Removed => match other {
                Change::Removed => true,
                _ => false,
            },
            Change::Changed(a) => match other {
                Change::Changed(b) => a.eq_tree(b),
                _ => false,
            },
            Change::Added(a) => match other {
                Change::Added(b) => a.eq_tree(b),
                _ => false,
            },
            Change::PartialChange(a) => match other {
                Change::PartialChange(b) => a.eq_change(b),
                _ => false,
            },
            Change::PartialSeq(a) => match other {
                Change::PartialSeq(b) => eq_seq_changes(a.as_slice(), b.as_slice()),
                _ => false,
            },
            Change::PartialMap(a) => match other {
                Change::PartialMap(b) => eq_map_changes(a.as_slice(), b.as_slice()),
                _ => false,
            },
            Change::PartialStruct(a) => match other {
                Change::PartialStruct(b) => eq_struct_changes(a.as_slice(), b.as_slice()),
                _ => false,
            },
        }
    }
}

impl Clone for Change {
    fn clone(&self) -> (r: Self)
        ensures
            r@ == self@,
    {
        self.clone_change()
    }
}

impl PartialEq for Change {
    fn eq(&self, other: &Self) -> (r: bool) {
        self.eq_change(other)
    }
}

impl vstd::std_specs::cmp::PartialEqSpecImpl for Change {
    open spec fn obeys_eq_spec() -> bool {
        true
    }

    open spec fn eq_spec(&self, other: &Self) -> bool {
        self@ == other@
    }
}

} // verus!
