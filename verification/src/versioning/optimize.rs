//! The size estimate of a change, and the policy that replaces a change by a
//! full replacement when it is too large.

use crate::size::{bytesize, measured, string_bytesize, text_size};
use crate::value::{Intermediate, IntermediateView};
use crate::versioning::change::{
    map_changes_view, seq_changes_view, struct_changes_view, Change, ChangeView,
};
use vstd::prelude::*;

verus! {

/// Optimization hint used in calculating change between two intermediate data.
#[derive(Debug, Clone, Copy, PartialEq, Eq, Structural)]
pub enum DiffOptimizationHint {
    /// Don't assume any optimization.
    Default,
    /// Put entire new object if change information size is greater than source (old) size.
    SizeSource,
    /// Put entire new object if change information size is greater than target (new) size.
    SizeTarget,
    /// Put entire new object if change information size is greater than bytesize threshold.
    SizeValue(usize),
    /// Put entire new object if change information size is greater than this
    /// percentage of the source size. The threshold is in percent; a value
    /// above 100 counts as 100.
    SizePercentage(u8),
}

impl Default for DiffOptimizationHint {
    fn default() -> (r: Self)
        ensures
            r == DiffOptimizationHint::Default,
    {
        DiffOptimizationHint::Default
    }
}

/// Change calculation options.
#[derive(Debug, Clone, Copy, PartialEq, Eq, Structural)]
pub struct DiffOptions {
    /// Optimization hint.
    pub optimization_hint: DiffOptimizationHint,
}

impl Default for DiffOptions {
    fn default() -> (r: Self)
        ensures
            r.optimization_hint == DiffOptimizationHint::Default,
    {
        DiffOptions { optimization_hint: DiffOptimizationHint::Default }
    }
}

impl DiffOptions {
    /// The same options with the given optimization hint.
    pub fn optimization_hint(self, hint: DiffOptimizationHint) -> (r: Self)
        ensures
            r.optimization_hint == hint,
    {
        DiffOptions { optimization_hint: hint }
    }
}

/// Structural overhead of one node of a change.
pub open spec fn change_node_size() -> nat {
    vstd::layout::size_of::<Change>()
}

/// Structural overhead of one position in a list of positional changes.
pub open spec fn index_size() -> nat {
    vstd::layout::size_of::<usize>()
}

/// Size estimate of a change.
pub open spec fn change_bytesize(c: ChangeView) -> nat
    decreases c, 0int,
{
    change_node_size() + match c {
        ChangeView::Changed(v) => bytesize(v),
        ChangeView::Added(v) => bytesize(v),
        ChangeView::PartialChange(inner) => change_bytesize(*inner),
        ChangeView::PartialSeq(l) => seq_changes_size(l, 0),
        ChangeView::PartialMap(l) => map_changes_size(l, 0),
        ChangeView::PartialStruct(l) => struct_changes_size(l, 0),
        _ => 0,
    }
}

/// Sum of the sizes of the positional changes `l[k..]`.
pub open spec fn seq_changes_size(l: Seq<(int, ChangeView)>, k: int) -> nat
    decreases l, l.len() - k,
{
    if k < 0 || k >= l.len() {
        0
    } else {
        index_size() + change_bytesize(l[k].1) + seq_changes_size(l, k + 1)
    }
}

/// Sum of the sizes of the keys and changes of `l[k..]`.
pub open spec fn map_changes_size(l: Seq<(IntermediateView, ChangeView)>, k: int) -> nat
    decreases l, l.len() - k,
{
    if k < 0 || k >= l.len() {
        0
    } else {
        bytesize(l[k].0) + change_bytesize(l[k].1) + map_changes_size(l, k + 1)
    }
}

/// Sum of the sizes of the names and changes of `l[k..]`.
pub open spec fn struct_changes_size(l: Seq<(Seq<char>, ChangeView)>, k: int) -> nat
    decreases l, l.len() - k,
{
    if k < 0 || k >= l.len() {
        0
    } else {
        text_size(l[k].0) + change_bytesize(l[k].1) + struct_changes_size(l, k + 1)
    }
}

/// Measured sum of the sizes of a list of positional changes.
pub fn seq_changes_bytesize(v: &[(usize, Change)]) -> (r: usize)
    ensures
        r == measured(seq_changes_size(seq_changes_view(v@), 0)),
    decreases v@,
{
    let ghost s = seq_changes_view(v@);
    let mut acc: usize = 0;
    let mut i: usize = 0;
    while i < v.len()
        invariant
            i <= v@.len(),
            s == seq_changes_view(v@),
            seq_changes_size(s, 0) >= seq_changes_size(s, i as int),
            acc == measured((seq_changes_size(s, 0) - seq_changes_size(s, i as int)) as nat),
        decreases v@.len() - i,
    {
        proof {
            assert(s[i as int] == (v@[i as int].0 as int, v@[i as int].1@));
        }
        acc = acc.saturating_add(core::mem::size_of::<usize>());
        acc = acc.saturating_add(v[i].1.total_bytesize());
        i += 1;
    }
    acc
}

/// Measured sum of the sizes of a list of changes keyed by map key.
pub fn map_changes_bytesize(v: &[(Intermediate, Change)]) -> (r: usize)
    ensures
        r == measured(map_changes_size(map_changes_view(v@), 0)),
    decreases v@,
{
    let ghost s = map_changes_view(v@);
    let mut acc: usize = 0;
    let mut i: usize = 0;
    while i < v.len()
        invariant
            i <= v@.len(),
            s == map_changes_view(v@),
            map_changes_size(s, 0) >= map_changes_size(s, i as int),
            acc == measured((map_changes_size(s, 0) - map_changes_size(s, i as int)) as nat),
        decreases v@.len() - i,
    {
        proof {
            assert(s[i as int] == (v@[i as int].0@, v@[i as int].1@));
        }
        acc = acc.saturating_add(v[i].0.total_bytesize());
        acc = acc.saturating_add(v[i].1.total_bytesize());
        i += 1;
    }
    acc
}

/// Measured sum of the sizes of a list of changes keyed by field name.
pub fn struct_changes_bytesize(v: &[(String, Change)]) -> (r: usize)
    ensures
        r == measured(struct_changes_size(struct_changes_view(v@), 0)),
    decreases v@,
{
    let ghost s = struct_changes_view(v@);
    let mut acc: usize = 0;
    let mut i: usize = 0;
    while i < v.len()
        invariant
            i <= v@.len(),
            s == struct_changes_view(v@),
            struct_changes_size(s, 0) >= struct_changes_size(s, i as int),
            acc == measured((struct_changes_size(s, 0) - struct_changes_size(s, i as int)) as nat),
        decreases v@.len() - i,
    {
        proof {
            assert(s[i as int] == (v@[i as int].0@, v@[i as int].1@));
        }
        acc = acc.saturating_add(string_bytesize(&v[i].0));
        acc = acc.saturating_add(v[i].1.total_bytesize());
        i += 1;
    }
    acc
}

/// The given percentage of a size, rounded down; a percentage above 100
/// counts as 100.
pub open spec fn percent_of(size: usize, percent: u8) -> usize {
    ((size as int) * (if percent > 100 {
        100int
    } else {
        percent as int
    }) / 100) as usize
}

/// The size above which a change from `source` to `target` is replaced by the
/// whole target, if the hint sets one.
pub open spec fn threshold(
    hint: DiffOptimizationHint,
    source: IntermediateView,
    target: IntermediateView,
) -> Option<usize> {
    match hint {
        DiffOptimizationHint::Default => None,
        DiffOptimizationHint::SizeSource => Some(measured(bytesize(source))),
        DiffOptimizationHint::SizeTarget => Some(measured(bytesize(target))),
        DiffOptimizationHint::SizeValue(t) => Some(t),
        DiffOptimizationHint::SizePercentage(p) => Some(
            percent_of(measured(bytesize(source)), p),
        ),
    }
}

/// The change that the policy keeps: `change` itself, or the whole target
/// where the measured size of `change` exceeds the threshold.
pub open spec fn optimize_spec(
    change: ChangeView,
    source: IntermediateView,
    target: IntermediateView,
    hint: DiffOptimizationHint,
) -> ChangeView {
    match threshold(hint, source, target) {
        None => change,
        Some(t) => if measured(change_bytesize(change)) > t {
            ChangeView::Changed(target)
        } else {
            change
        },
    }
}

/// Computes the given percentage of a size.
pub fn scale_percent(size: usize, percent: u8) -> (r: usize)
    ensures
        r == percent_of(size, percent),
{
    let p: u128 = if percent > 100 {
        100
    } else {
        percent as u128
    };
    let wide: u128 = size as u128;
    assert(wide * p <= wide * 100) by (nonlinear_arith)
        requires
            p <= 100,
    ;
    let scaled: u128 = wide * p / 100;
    scaled as usize
}

impl Change {
    /// The size estimate of this change, stopping at the largest `usize`.
    pub fn total_bytesize(&self) -> (r: usize)
        ensures
            r == measured(change_bytesize(self@)),
        decreases self,
    {
        let own = core::mem::size_of::<Change>();
        let payload = match self {
            Change::Changed(v) => v.total_bytesize(),
            Change::Added(v) => v.total_bytesize(),
            Change::PartialChange(c) => c.total_bytesize(),
            Change::PartialSeq(l) => seq_changes_bytesize(l.as_slice()),
            Change::PartialMap(l) => map_changes_bytesize(l.as_slice()),
            Change::PartialStruct(l) => struct_changes_bytesize(l.as_slice()),
            _ => 0,
        };
        own.saturating_add(payload)
    }

    /// Applies the optimization policy: keeps this change, or replaces it by
    /// the whole target where it is larger than the hint allows.
    pub fn optimize(
        self,
        source: &Intermediate,
        target: &Intermediate,
        hint: DiffOptimizationHint,
    ) -> (r: Change)
        ensures
            r@ == optimize_spec(self@, source@, target@, hint),
    {
        let limit = match hint {
            DiffOptimizationHint::Default => {
                return self;
            },
            DiffOptimizationHint::SizeSource => source.total_bytesize(),
            DiffOptimizationHint::SizeTarget => target.total_bytesize(),
            DiffOptimizationHint::SizeValue(t) => t,
            DiffOptimizationHint::SizePercentage(p) => scale_percent(source.total_bytesize(), p),
        };
        if self.total_bytesize() > limit {
            Change::Changed(target.clone())
        } else {
            self
        }
    }
}

} // verus!
