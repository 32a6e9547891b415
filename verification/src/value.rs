//! The value model: a closed recursive union with one case per encodable shape.

use vstd::prelude::*;

verus! {

/// Mathematical model of an [`Intermediate`] tree.
///
/// Two trees are equal exactly when their models are equal: same case, same
/// payload, and recursively equal children in the same order.
pub enum IntermediateView {
    Unit,
    Bool(bool),
    I8(i8),
    I16(i16),
    I32(i32),
    I64(i64),
    I128(i128),
    U8(u8),
    U16(u16),
    U32(u32),
    U64(u64),
    U128(u128),
    F32(u32),
    F64(u64),
    Char(char),
    String(Seq<char>),
    Bytes(Seq<u8>),
    Option(Option<Box<IntermediateView>>),
    UnitStruct,
    UnitVariant(Seq<char>),
    NewTypeStruct(Box<IntermediateView>),
    NewTypeVariant(Seq<char>, Box<IntermediateView>),
    Sequence(Seq<IntermediateView>),
    Tuple(Seq<IntermediateView>),
    TupleStruct(Seq<IntermediateView>),
    TupleVariant(Seq<char>, Seq<IntermediateView>),
    Mapping(Seq<(IntermediateView, IntermediateView)>),
    Struct(Seq<(Seq<char>, IntermediateView)>),
    StructVariant(Seq<char>, Seq<(Seq<char>, IntermediateView)>),
}

/// Intermediate data representation.
///
/// Floating point payloads are held as their IEEE-754 bit patterns, so that
/// equality of trees is plain structural equality.
#[derive(Debug)]
pub enum Intermediate {
    /// Unit value: `()`.
    Unit,
    /// Bool value: `true`.
    Bool(bool),
    /// 8-bit signed integer value.
    I8(i8),
    /// 16-bit signed integer value.
    I16(i16),
    /// 32-bit signed integer value.
    I32(i32),
    /// 64-bit signed integer value.
    I64(i64),
    /// 128-bit signed integer value.
    I128(i128),
    /// 8-bit unsigned integer value.
    U8(u8),
    /// 16-bit unsigned integer value.
    U16(u16),
    /// 32-bit unsigned integer value.
    U32(u32),
    /// 64-bit unsigned integer value.
    U64(u64),
    /// 128-bit unsigned integer value.
    U128(u128),
    /// 32-bit floating point value, as its bit pattern.
    F32(u32),
    /// 64-bit floating point value, as its bit pattern.
    F64(u64),
    /// Single character value: `'@'`.
    Char(char),
    /// String value: `"Hello World!"`.
    String(String),
    /// Bytes buffer.
    Bytes(Vec<u8>),
    /// Option value: `Some(42)`.
    Option(Option<Box<Intermediate>>),
    /// Structure: `struct Foo;`.
    UnitStruct,
    /// Enum unit variant: `enum Foo { Bar }`.
    UnitVariant(String),
    /// Newtype struct: `struct Foo(bool);`.
    NewTypeStruct(Box<Intermediate>),
    /// Enum newtype variant: `enum Foo { Bar(bool) }`.
    NewTypeVariant(String, Box<Intermediate>),
    /// Sequence/list: `Vec<usize>`, `[usize]`.
    Sequence(Vec<Intermediate>),
    /// Tuple: `(bool, char)`.
    Tuple(Vec<Intermediate>),
    /// Tuple struct: `struct Foo(bool, char)`.
    TupleStruct(Vec<Intermediate>),
    /// Tuple variant: `enum Foo { Bar(bool, char) }`.
    TupleVariant(String, Vec<Intermediate>),
    /// Map: entries `(key, value)`, looked up by first match.
    Mapping(Vec<(Intermediate, Intermediate)>),
    /// Struct: fields `(name, value)`.
    Struct(Vec<(String, Intermediate)>),
    /// Enum struct variant: variant name and fields `(name, value)`.
    StructVariant(String, Vec<(String, Intermediate)>),
}

/// Model of a list of trees.
pub open spec fn items_view(v: Seq<Intermediate>) -> Seq<IntermediateView>
    decreases v,
{
    Seq::new(v.len(), |i: int| if 0 <= i < v.len() { v[i].model() } else { IntermediateView::Unit })
}

/// Model of a list of map entries.
pub open spec fn entries_view(v: Seq<(Intermediate, Intermediate)>) -> Seq<
    (IntermediateView, IntermediateView),
>
    decreases v,
{
    Seq::new(
        v.len(),
        |i: int|
            if 0 <= i < v.len() {
                (v[i].0.model(), v[i].1.model())
            } else {
                (IntermediateView::Unit, IntermediateView::Unit)
            },
    )
}

/// Model of a list of named fields.
pub open spec fn fields_view(v: Seq<(String, Intermediate)>) -> Seq<(Seq<char>, IntermediateView)>
    decreases v,
{
    Seq::new(
        v.len(),
        |i: int|
            if 0 <= i < v.len() {
                (v[i].0@, v[i].1.model())
            } else {
                (Seq::empty(), IntermediateView::Unit)
            },
    )
}

impl Intermediate {
    /// The model of this tree.
    pub open spec fn model(&self) -> IntermediateView
        decreases self,
    {
        match self {
            Intermediate::Unit => IntermediateView::Unit,
            Intermediate::Bool(v) => IntermediateView::Bool(*v),
            Intermediate::I8(v) => IntermediateView::I8(*v),
            Intermediate::I16(v) => IntermediateView::I16(*v),
            Intermediate::I32(v) => IntermediateView::I32(*v),
            Intermediate::I64(v) => IntermediateView::I64(*v),
            Intermediate::I128(v) => IntermediateView::I128(*v),
            Intermediate::U8(v) => IntermediateView::U8(*v),
            Intermediate::U16(v) => IntermediateView::U16(*v),
            Intermediate::U32(v) => IntermediateView::U32(*v),
            Intermediate::U64(v) => IntermediateView::U64(*v),
            Intermediate::U128(v) => IntermediateView::U128(*v),
            Intermediate::F32(v) => IntermediateView::F32(*v),
            Intermediate::F64(v) => IntermediateView::F64(*v),
            Intermediate::Char(v) => IntermediateView::Char(*v),
            Intermediate::String(v) => IntermediateView::String(v@),
            Intermediate::Bytes(v) => IntermediateView::Bytes(v@),
            Intermediate::Option(None) => IntermediateView::Option(None),
            Intermediate::Option(Some(v)) => IntermediateView::Option(Some(Box::new(v.model()))),
            Intermediate::UnitStruct => IntermediateView::UnitStruct,
            Intermediate::UnitVariant(n) => IntermediateView::UnitVariant(n@),
            Intermediate::NewTypeStruct(v) => IntermediateView::NewTypeStruct(Box::new(v.model())),
            Intermediate::NewTypeVariant(n, v) => IntermediateView::NewTypeVariant(
                n@,
                Box::new(v.model()),
            ),
            Intermediate::Sequence(v) => IntermediateView::Sequence(items_view(v@)),
            Intermediate::Tuple(v) => IntermediateView::Tuple(items_view(v@)),
            Intermediate::TupleStruct(v) => IntermediateView::TupleStruct(items_view(v@)),
            Intermediate::TupleVariant(n, v) => IntermediateView::TupleVariant(n@, items_view(v@)),
            Intermediate::Mapping(v) => IntermediateView::Mapping(entries_view(v@)),
            Intermediate::Struct(v) => IntermediateView::Struct(fields_view(v@)),
            Intermediate::StructVariant(n, v) => IntermediateView::StructVariant(
                n@,
                fields_view(v@),
            ),
        }
    }
}

/// Copies a list of trees.
pub fn clone_items(v: &[Intermediate]) -> (r: Vec<Intermediate>)
    ensures
        items_view(r@) == items_view(v@),
        r@.len() == v@.len(),
    decreases v@,
{
    let mut r: Vec<Intermediate> = Vec::with_capacity(v.len());
    let mut i: usize = 0;
    while i < v.len()
        invariant
            i <= v@.len(),
            r@.len() == i,
            forall|j: int| 0 <= j < i ==> (#[trigger] r@[j]).model() == v@[j].model(),
        decreases v@.len() - i,
    {
        proof {
            assert(items_view(v@)[i as int] == v@[i as int].model());
        }
        r.push(v[i].clone_tree());
        i += 1;
    }
    proof {
        assert(items_view(r@) =~= items_view(v@));
    }
    r
}

/// Copies a list of map entries.
pub fn clone_entries(v: &[(Intermediate, Intermediate)]) -> (r: Vec<(Intermediate, Intermediate)>)
    ensures
        entries_view(r@) == entries_view(v@),
        r@.len() == v@.len(),
    decreases v@,
{
    let mut r: Vec<(Intermediate, Intermediate)> = Vec::with_capacity(v.len());
    let mut i: usize = 0;
    while i < v.len()
        invariant
            i <= v@.len(),
            r@.len() == i,
            forall|j: int|
                0 <= j < i ==> (#[trigger] r@[j]).0.model() == v@[j].0.model() && r@[j].1.model()
                    == v@[j].1.model(),
        decreases v@.len() - i,
    {
        proof {
            assert(entries_view(v@)[i as int] == (v@[i as int].0.model(), v@[i as int].1.model()));
        }
        let k = v[i].0.clone_tree();
        let x = v[i].1.clone_tree();
        r.push((k, x));
        i += 1;
    }
    proof {
        assert(entries_view(r@) =~= entries_view(v@));
    }
    r
}

/// Copies a list of named fields.
pub fn clone_fields(v: &[(String, Intermediate)]) -> (r: Vec<(String, Intermediate)>)
    ensures
        fields_view(r@) == fields_view(v@),
        r@.len() == v@.len(),
    decreases v@,
{
    let mut r: Vec<(String, Intermediate)> = Vec::with_capacity(v.len());
    let mut i: usize = 0;
    while i < v.len()
        invariant
            i <= v@.len(),
            r@.len() == i,
            forall|j: int|
                0 <= j < i ==> (#[trigger] r@[j]).0@ == v@[j].0@ && r@[j].1.model()
                    == v@[j].1.model(),
        decreases v@.len() - i,
    {
        proof {
            assert(fields_view(v@)[i as int] == (v@[i as int].0@, v@[i as int].1.model()));
        }
        let k = v[i].0.clone();
        let x = v[i].1.clone_tree();
        r.push((k, x));
        i += 1;
    }
    proof {
        assert(fields_view(r@) =~= fields_view(v@));
    }
    r
}

impl Intermediate {
    /// Copies the tree.
    pub fn clone_tree(&self) -> (r: Intermediate)
        ensures
            r@ == self@,
        decreases self,
    {
        match self {
            Intermediate::Unit => Intermediate::Unit,
            Intermediate::Bool(v) => Intermediate::Bool(*v),
            Intermediate::I8(v) => Intermediate::I8(*v),
            Intermediate::I16(v) => Intermediate::I16(*v),
            Intermediate::I32(v) => Intermediate::I32(*v),
            Intermediate::I64(v) => Intermediate::I64(*v),
            Intermediate::I128(v) => Intermediate::I128(*v),
            Intermediate::U8(v) => Intermediate::U8(*v),
            Intermediate::U16(v) => Intermediate::U16(*v),
            Intermediate::U32(v) => Intermediate::U32(*v),
            Intermediate::U64(v) => Intermediate::U64(*v),
            Intermediate::U128(v) => Intermediate::U128(*v),
            Intermediate::F32(v) => Intermediate::F32(*v),
            Intermediate::F64(v) => Intermediate::F64(*v),
            Intermediate::Char(v) => Intermediate::Char(*v),
            Intermediate::String(v) => Intermediate::String(v.clone()),
            Intermediate::Bytes(v) => Intermediate::Bytes(v.clone()),
            Intermediate::Option(None) => Intermediate::Option(None),
            Intermediate::Option(Some(v)) => Intermediate::Option(Some(Box::new(v.clone_tree()))),
            Intermediate::UnitStruct => Intermediate::UnitStruct,
            Intermediate::UnitVariant(n) => Intermediate::UnitVariant(n.clone()),
            Intermediate::NewTypeStruct(v) => Intermediate::NewTypeStruct(Box::new(v.clone_tree())),
            Intermediate::NewTypeVariant(n, v) => Intermediate::NewTypeVariant(
                n.clone(),
                Box::new(v.clone_tree()),
            ),
            Intermediate::Sequence(v) => Intermediate::Sequence(clone_items(v.as_slice())),
            Intermediate::Tuple(v) => Intermediate::Tuple(clone_items(v.as_slice())),
            Intermediate::TupleStruct(v) => Intermediate::TupleStruct(clone_items(v.as_slice())),
            Intermediate::TupleVariant(n, v) => Intermediate::TupleVariant(
                n.clone(),
                clone_items(v.as_slice()),
            ),
            Intermediate::Mapping(v) => Intermediate::Mapping(clone_entries(v.as_slice())),
            Intermediate::Struct(v) => Intermediate::Struct(clone_fields(v.as_slice())),
            Intermediate::StructVariant(n, v) => Intermediate::StructVariant(
                n.clone(),
                clone_fields(v.as_slice()),
            ),
        }
    }
}

/// Compares two lists of trees, item by item and in order.
pub fn eq_items(a: &[Intermediate], b: &[Intermediate]) -> (r: bool)
    ensures
        r == (items_view(a@) == items_view(b@)),
    decreases a@,
{
    if a.len() != b.len() {
        proof {
            assert(items_view(a@).len() != items_view(b@).len());
        }
        return false;
    }
    let mut i: usize = 0;
    while i < a.len()
        invariant
            i <= a@.len(),
            a@.len() == b@.len(),
            forall|j: int| 0 <= j < i ==> (#[trigger] a@[j]).model() == b@[j].model(),
        decreases a@.len() - i,
    {
        if !a[i].eq_tree(&b[i]) {
            proof {
                assert(items_view(a@)[i as int] != items_view(b@)[i as int]);
            }
            return false;
        }
        i += 1;
    }
    proof {
        assert(items_view(a@) =~= items_view(b@));
    }
    true
}

/// Compares two lists of map entries, entry by entry and in order.
pub fn eq_entries(a: &[(Intermediate, Intermediate)], b: &[(Intermediate, Intermediate)]) -> (r:
    bool)
    ensures
        r == (entries_view(a@) == entries_view(b@)),
    decreases a@,
{
    if a.len() != b.len() {
        proof {
            assert(entries_view(a@).len() != entries_view(b@).len());
        }
        return false;
    }
    let mut i: usize = 0;
    while i < a.len()
        invariant
            i <= a@.len(),
            a@.len() == b@.len(),
            forall|j: int|
                0 <= j < i ==> (#[trigger] a@[j]).0.model() == b@[j].0.model() && a@[j].1.model()
                    == b@[j].1.model(),
        decreases a@.len() - i,
    {
        if !a[i].0.eq_tree(&b[i].0) || !a[i].1.eq_tree(&b[i].1) {
            proof {
                assert(entries_view(a@)[i as int] != entries_view(b@)[i as int]);
            }
            return false;
        }
        i += 1;
    }
    proof {
        assert(entries_view(a@) =~= entries_view(b@));
    }
    true
}

/// Compares two lists of named fields, field by field and in order.
pub fn eq_fields(a: &[(String, Intermediate)], b: &[(String, Intermediate)]) -> (r: bool)
    ensures
        r == (fields_view(a@) == fields_view(b@)),
    decreases a@,
{
    if a.len() != b.len() {
        proof {
            assert(fields_view(a@).len() != fields_view(b@).len());
        }
        return false;
    }
    let mut i: usize = 0;
    while i < a.len()
        invariant
            i <= a@.len(),
            a@.len() == b@.len(),
            forall|j: int|
                0 <= j < i ==> (#[trigger] a@[j]).0@ == b@[j].0@ && a@[j].1.model()
                    == b@[j].1.model(),
        decreases a@.len() - i,
    {
        if a[i].0 != b[i].0 || !a[i].1.eq_tree(&b[i].1) {
            proof {
                assert(fields_view(a@)[i as int] != fields_view(b@)[i as int]);
            }
            return false;
        }
        i += 1;
    }
    proof {
        assert(fields_view(a@) =~= fields_view(b@));
    }
    true
}

impl Intermediate {
    /// Structural equality: same case, same payload, equal children in the
    /// same order.
    pub fn eq_tree(&self, other: &Intermediate) -> (r: bool)
        ensures
            r == (self@ == other@),
        decreases self,
    {
        match self {
            Intermediate::Unit => match other {
                Intermediate::Unit => true,
                _ => false,
            },
            Intermediate::Bool(a) => match other {
                Intermediate::Bool(b) => *a == *b,
                _ => false,
            },
            Intermediate::I8(a) => match other {
                Intermediate::I8(b) => *a == *b,
                _ => false,
            },
            Intermediate::I16(a) => match other {
                Intermediate::I16(b) => *a == *b,
                _ => false,
            },
            Intermediate::I32(a) => match other {
                Intermediate::I32(b) => *a == *b,
                _ => false,
            },
            Intermediate::I64(a) => match other {
                Intermediate::I64(b) => *a == *b,
                _ => false,
            },
            Intermediate::I128(a) => match other {
                Intermediate::I128(b) => *a == *b,
                _ => false,
            },
            Intermediate::U8(a) => match other {
                Intermediate::U8(b) => *a == *b,
                _ => false,
            },
            Intermediate::U16(a) => match other {
                Intermediate::U16(b) => *a == *b,
                _ => false,
            },
            Intermediate::U32(a) => match other {
                Intermediate::U32(b) => *a == *b,
                _ => false,
            },
            Intermediate::U64(a) => match other {
                Intermediate::U64(b) => *a == *b,
                _ => false,
            },
            Intermediate::U128(a) => match other {
                Intermediate::U128(b) => *a == *b,
                _ => false,
            },
            Intermediate::F32(a) => match other {
                Intermediate::F32(b) => *a == *b,
                _ => false,
            },
            Intermediate::F64(a) => match other {
                Intermediate::F64(b) => *a == *b,
                _ => false,
            },
            Intermediate::Char(a) => match other {
                Intermediate::Char(b) => *a == *b,
                _ => false,
            },
            Intermediate::String(a) => match other {
                Intermediate::String(b) => *a == *b,
                _ => false,
            },
            Intermediate::Bytes(a) => match other {
                Intermediate::Bytes(b) => eq_bytes(a.as_slice(), b.as_slice()),
                _ => false,
            },
            Intermediate::Option(None) => match other {
                Intermediate::Option(None) => true,
                _ => false,
            },
            Intermediate::Option(Some(a)) => match other {
                Intermediate::Option(Some(b)) => a.eq_tree(b),
                _ => false,
            },
            Intermediate::UnitStruct => match other {
                Intermediate::UnitStruct => true,
                _ => false,
            },
            Intermediate::UnitVariant(a) => match other {
                Intermediate::UnitVariant(b) => *a == *b,
                _ => false,
            },
            Intermediate::NewTypeStruct(a) => match other {
                Intermediate::NewTypeStruct(b) => a.eq_tree(b),
                _ => false,
            },
            Intermediate::NewTypeVariant(n, a) => match other {
                Intermediate::NewTypeVariant(m, b) => *n == *m && a.eq_tree(b),
                _ => false,
            },
            Intermediate::Sequence(a) => match other {
                Intermediate::Sequence(b) => eq_items(a.as_slice(), b.as_slice()),
                _ => false,
            },
            Intermediate::Tuple(a) => match other {
                Intermediate::Tuple(b) => eq_items(a.as_slice(), b.as_slice()),
                _ => false,
            },
            Intermediate::TupleStruct(a) => match other {
                Intermediate::TupleStruct(b) => eq_items(a.as_slice(), b.as_slice()),
                _ => false,
            },
            Intermediate::TupleVariant(n, a) => match other {
                Intermediate::TupleVariant(m, b) => *n == *m && eq_items(a.as_slice(), b.as_slice()),
                _ => false,
            },
            Intermediate::Mapping(a) => match other {
                Intermediate::Mapping(b) => eq_entries(a.as_slice(), b.as_slice()),
                _ => false,
            },
            Intermediate::Struct(a) => match other {
                Intermediate::Struct(b) => eq_fields(a.as_slice(), b.as_slice()),
                _ => false,
            },
            Intermediate::StructVariant(n, a) => match other {
                Intermediate::StructVariant(m, b) => *n == *m && eq_fields(a.as_slice(), b.as_slice()),
                _ => false,
            },
        }
    }
}

/// Compares two byte buffers.
pub fn eq_bytes(a: &[u8], b: &[u8]) -> (r: bool)
    ensures
        r == (a@ == b@),
{
    if a.len() != b.len() {
        return false;
    }
    let mut i: usize = 0;
    while i < a.len()
        invariant
            i <= a@.len(),
            a@.len() == b@.len(),
            forall|j: int| 0 <= j < i ==> a@[j] == b@[j],
        decreases a@.len() - i,
    {
        if a[i] != b[i] {
            return false;
        }
        i += 1;
    }
    proof {
        assert(a@ =~= b@);
    }
    true
}

impl PartialEq for Intermediate {
    fn eq(&self, other: &Self) -> (r: bool) {
        self.eq_tree(other)
    }
}

impl Eq for Intermediate {

}

impl vstd::std_specs::cmp::PartialEqSpecImpl for Intermediate {
    open spec fn obeys_eq_spec() -> bool {
        true
    }

    open spec fn eq_spec(&self, other: &Self) -> bool {
        self@ == other@
    }
}

impl Clone for Intermediate {
    fn clone(&self) -> (r: Self)
        ensures
            r@ == self@,
    {
        self.clone_tree()
    }
}

impl View for Intermediate {
    type V = IntermediateView;

    open spec fn view(&self) -> IntermediateView {
        self.model()
    }
}

} // verus!
