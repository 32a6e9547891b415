//! The size estimate of a tree: structural overhead of every node plus the
//! payload of owned text and bytes. It serves the diff heuristics and is no
//! count of encoded bytes.

use crate::value::{Intermediate, IntermediateView};
use vstd::prelude::*;

verus! {

/// Structural overhead of one node of a tree.
pub open spec fn node_size() -> nat {
    vstd::layout::size_of::<Intermediate>()
}

/// Payload size of a text: the length of its UTF-8 encoding.
pub open spec fn text_size(s: Seq<char>) -> nat {
    vstd::utf8::encode_utf8(s).len()
}

/// A size as the library measures it: sums stop at the largest `usize`.
pub open spec fn measured(n: nat) -> usize {
    if n > usize::MAX {
        usize::MAX
    } else {
        n as usize
    }
}

/// Size estimate of a tree.
pub open spec fn bytesize(v: IntermediateView) -> nat
    decreases v, 0int,
{
    node_size() + match v {
        IntermediateView::String(s) => text_size(s),
        IntermediateView::Bytes(b) => b.len(),
        IntermediateView::Option(Some(x)) => bytesize(*x),
        IntermediateView::UnitVariant(n) => text_size(n),
        IntermediateView::NewTypeStruct(x) => bytesize(*x),
        IntermediateView::NewTypeVariant(n, x) => text_size(n) + bytesize(*x),
        IntermediateView::Sequence(s) => items_size(s, 0),
        IntermediateView::Tuple(s) => items_size(s, 0),
        IntermediateView::TupleStruct(s) => items_size(s, 0),
        IntermediateView::TupleVariant(n, s) => text_size(n) + items_size(s, 0),
        IntermediateView::Mapping(e) => entries_size(e, 0),
        IntermediateView::Struct(f) => fields_size(f, 0),
        IntermediateView::StructVariant(n, f) => text_size(n) + fields_size(f, 0),
        _ => 0,
    }
}

/// Sum of the sizes of `s[k..]`.
pub open spec fn items_size(s: Seq<IntermediateView>, k: int) -> nat
    decreases s, s.len() - k,
{
    if k < 0 || k >= s.len() {
        0
    } else {
        bytesize(s[k]) + items_size(s, k + 1)
    }
}

/// Sum of the sizes of the keys and values of `s[k..]`.
pub open spec fn entries_size(s: Seq<(IntermediateView, IntermediateView)>, k: int) -> nat
    decreases s, s.len() - k,
{
    if k < 0 || k >= s.len() {
        0
    } else {
        bytesize(s[k].0) + bytesize(s[k].1) + entries_size(s, k + 1)
    }
}

/// Sum of the sizes of the names and values of `s[k..]`.
pub open spec fn fields_size(s: Seq<(Seq<char>, IntermediateView)>, k: int) -> nat
    decreases s, s.len() - k,
{
    if k < 0 || k >= s.len() {
        0
    } else {
        text_size(s[k].0) + bytesize(s[k].1) + fields_size(s, k + 1)
    }
}

/// Payload size of a text, in bytes.
pub fn string_bytesize(v: &String) -> (r: usize)
    ensures
        r as nat == text_size(v@),
{
    v.as_str().as_bytes().len()
}

/// Measured sum of the sizes of a list of trees.
pub fn items_bytesize(v: &[Intermediate]) -> (r: usize)
    ensures
        r == measured(items_size(crate::value::items_view(v@), 0)),
    decreases v@,
{
    let ghost s = crate::value::items_view(v@);
    let mut acc: usize = 0;
    let mut i: usize = 0;
    while i < v.len()
        invariant
            i <= v@.len(),
            s == crate::value::items_view(v@),
            items_size(s, 0) >= items_size(s, i as int),
            acc == measured((items_size(s, 0) - items_size(s, i as int)) as nat),
        decreases v@.len() - i,
    {
        proof {
            assert(s[i as int] == v@[i as int]@);
        }
        acc = acc.saturating_add(v[i].total_bytesize());
        i += 1;
    }
    acc
}

/// Measured sum of the sizes of a list of map entries.
pub fn entries_bytesize(v: &[(Intermediate, Intermediate)]) -> (r: usize)
    ensures
        r == measured(entries_size(crate::value::entries_view(v@), 0)),
    decreases v@,
{
    let ghost s = crate::value::entries_view(v@);
    let mut acc: usize = 0;
    let mut i: usize = 0;
    while i < v.len()
        invariant
            i <= v@.len(),
            s == crate::value::entries_view(v@),
            entries_size(s, 0) >= entries_size(s, i as int),
            acc == measured((entries_size(s, 0) - entries_size(s, i as int)) as nat),
        decreases v@.len() - i,
    {
        proof {
            assert(s[i as int] == (v@[i as int].0@, v@[i as int].1@));
        }
        acc = acc.saturating_add(v[i].0.total_bytesize());
        acc = acc.saturating_add(v[i].1.total_bytesize());
        i += 1;
    }
    acc
}

/// Measured sum of the sizes of a list of named fields.
pub fn fields_bytesize(v: &[(String, Intermediate)]) -> (r: usize)
    ensures
        r == measured(fields_size(crate::value::fields_view(v@), 0)),
    decreases v@,
{
    let ghost s = crate::value::fields_view(v@);
    let mut acc: usize = 0;
    let mut i: usize = 0;
    while i < v.len()
        invariant
            i <= v@.len(),
            s == crate::value::fields_view(v@),
            fields_size(s, 0) >= fields_size(s, i as int),
            acc == measured((fields_size(s, 0) - fields_size(s, i as int)) as nat),
        decreases v@.len() - i,
    {
        proof {
            assert(s[i as int] == (v@[i as int].0@, v@[i as int].1@));
        }
        acc = acc.saturating_add(string_bytesize(&v[i].0));
        acc = acc.saturating_add(v[i].1.total_bytesize());
        i += 1;
    }
    acc
}

impl Intermediate {
    /// The size estimate of this tree, stopping at the largest `usize`.
    pub fn total_bytesize(&self) -> (r: usize)
        ensures
            r == measured(bytesize(self@)),
        decreases self,
    {
        let own = core::mem::size_of::<Intermediate>();
        let payload = match self {
            Intermediate::String(v) => string_bytesize(v),
            Intermediate::Bytes(v) => v.len(),
            Intermediate::Option(Some(v)) => v.total_bytesize(),
            Intermediate::UnitVariant(n) => string_bytesize(n),
            Intermediate::NewTypeStruct(v) => v.total_bytesize(),
            Intermediate::NewTypeVariant(n, v) => string_bytesize(n).saturating_add(
                v.total_bytesize(),
            ),
            Intermediate::Sequence(v) => items_bytesize(v.as_slice()),
            Intermediate::Tuple(v) => items_bytesize(v.as_slice()),
            Intermediate::TupleStruct(v) => items_bytesize(v.as_slice()),
            Intermediate::TupleVariant(n, v) => string_bytesize(n).saturating_add(
                items_bytesize(v.as_slice()),
            ),
            Intermediate::Mapping(v) => entries_bytesize(v.as_slice()),
            Intermediate::Struct(v) => fields_bytesize(v.as_slice()),
            Intermediate::StructVariant(n, v) => string_bytesize(n).saturating_add(
                fields_bytesize(v.as_slice()),
            ),
            _ => 0,
        };
        own.saturating_add(payload)
    }
}

} // verus!
