//! Building trees step by step, and reading a tree as one of its cases.

use crate::value::{entries_view, fields_view, items_view, Intermediate, IntermediateView};
use vstd::prelude::*;

verus! {

/// The tree with one more item: on a list or a tuple variant the item is
/// appended, any other tree stays as it is.
pub open spec fn with_item(tree: IntermediateView, value: IntermediateView) -> IntermediateView {
    match tree {
        IntermediateView::Sequence(s) => IntermediateView::Sequence(s.push(value)),
        IntermediateView::Tuple(s) => IntermediateView::Tuple(s.push(value)),
        IntermediateView::TupleStruct(s) => IntermediateView::TupleStruct(s.push(value)),
        IntermediateView::TupleVariant(n, s) => IntermediateView::TupleVariant(n, s.push(value)),
        _ => tree,
    }
}

/// The tree with one more entry: on a map the entry is appended, any other
/// tree stays as it is.
pub open spec fn with_property(
    tree: IntermediateView,
    key: IntermediateView,
    value: IntermediateView,
) -> IntermediateView {
    match tree {
        IntermediateView::Mapping(s) => IntermediateView::Mapping(s.push((key, value))),
        _ => tree,
    }
}

/// The tree with one more field: on a struct or a struct variant the field is
/// appended, any other tree stays as it is.
pub open spec fn with_field(
    tree: IntermediateView,
    key: Seq<char>,
    value: IntermediateView,
) -> IntermediateView {
    match tree {
        IntermediateView::Struct(s) => IntermediateView::Struct(s.push((key, value))),
        IntermediateView::StructVariant(n, s) => IntermediateView::StructVariant(
            n,
            s.push((key, value)),
        ),
        _ => tree,
    }
}

impl Default for Intermediate {
    fn default() -> (r: Self)
        ensures
            r@ == IntermediateView::Unit,
    {
        Intermediate::Unit
    }
}

impl Intermediate {
    /// A unit struct.
    pub fn unit_struct() -> (r: Intermediate)
        ensures
            r@ == IntermediateView::UnitStruct,
    {
        Intermediate::UnitStruct
    }

    /// A unit variant of the given name.
    pub fn unit_variant(name: &str) -> (r: Intermediate)
        ensures
            r@ == IntermediateView::UnitVariant(name@),
    {
        Intermediate::UnitVariant(name.to_owned())
    }

    /// A newtype struct with the given content.
    pub fn newtype_struct(value: Intermediate) -> (r: Intermediate)
        ensures
            r@ == IntermediateView::NewTypeStruct(Box::new(value@)),
    {
        Intermediate::NewTypeStruct(Box::new(value))
    }

    /// A newtype variant of the given name with the given content.
    pub fn newtype_variant(name: &str, value: Intermediate) -> (r: Intermediate)
        ensures
            r@ == IntermediateView::NewTypeVariant(name@, Box::new(value@)),
    {
        Intermediate::NewTypeVariant(name.to_owned(), Box::new(value))
    }

    /// An empty sequence.
    pub fn seq() -> (r: Intermediate)
        ensures
            r@ == IntermediateView::Sequence(Seq::empty()),
    {
        let r = Intermediate::Sequence(Vec::new());
        proof {
            assert(items_view(Seq::<Intermediate>::empty()) =~= Seq::empty());
        }
        r
    }

    /// An empty tuple.
    pub fn tuple() -> (r: Intermediate)
        ensures
            r@ == IntermediateView::Tuple(Seq::empty()),
    {
        let r = Intermediate::Tuple(Vec::new());
        proof {
            assert(items_view(Seq::<Intermediate>::empty()) =~= Seq::empty());
        }
        r
    }

    /// An empty tuple struct.
    pub fn tuple_struct() -> (r: Intermediate)
        ensures
            r@ == IntermediateView::TupleStruct(Seq::empty()),
    {
        let r = Intermediate::TupleStruct(Vec::new());
        proof {
            assert(items_view(Seq::<Intermediate>::empty()) =~= Seq::empty());
        }
        r
    }

    /// An empty tuple variant of the given name.
    pub fn tuple_variant(name: &str) -> (r: Intermediate)
        ensures
            r@ == IntermediateView::TupleVariant(name@, Seq::empty()),
    {
        let r = Intermediate::TupleVariant(name.to_owned(), Vec::new());
        proof {
            assert(items_view(Seq::<Intermediate>::empty()) =~= Seq::empty());
        }
        r
    }

    /// An empty map.
    pub fn map() -> (r: Intermediate)
        ensures
            r@ == IntermediateView::Mapping(Seq::empty()),
    {
        let r = Intermediate::Mapping(Vec::new());
        proof {
            assert(entries_view(Seq::<(Intermediate, Intermediate)>::empty()) =~= Seq::empty());
        }
        r
    }

    /// An empty struct.
    pub fn struct_type() -> (r: Intermediate)
        ensures
            r@ == IntermediateView::Struct(Seq::empty()),
    {
        let r = Intermediate::Struct(Vec::new());
        proof {
            assert(fields_view(Seq::<(String, Intermediate)>::empty()) =~= Seq::empty());
        }
        r
    }

    /// An empty struct variant of the given name.
    pub fn struct_variant(name: &str) -> (r: Intermediate)
        ensures
            r@ == IntermediateView::StructVariant(name@, Seq::empty()),
    {
        let r = Intermediate::StructVariant(name.to_owned(), Vec::new());
        proof {
            assert(fields_view(Seq::<(String, Intermediate)>::empty()) =~= Seq::empty());
        }
        r
    }

    /// Appends an item to a list or tuple variant in progress.
    pub fn item(self, value: Intermediate) -> (r: Intermediate)
        ensures
            r@ == with_item(self@, value@),
    {
        match self {
            Intermediate::Sequence(mut v) => {
                let ghost before = items_view(v@);
                v.push(value);
                proof {
                    assert(items_view(v@) =~= before.push(value@));
                }
                Intermediate::Sequence(v)
            },
            Intermediate::Tuple(mut v) => {
                let ghost before = items_view(v@);
                v.push(value);
                proof {
                    assert(items_view(v@) =~= before.push(value@));
                }
                Intermediate::Tuple(v)
            },
            Intermediate::TupleStruct(mut v) => {
                let ghost before = items_view(v@);
                v.push(value);
                proof {
                    assert(items_view(v@) =~= before.push(value@));
                }
                Intermediate::TupleStruct(v)
            },
            Intermediate::TupleVariant(n, mut v) => {
                let ghost before = items_view(v@);
                v.push(value);
                proof {
                    assert(items_view(v@) =~= before.push(value@));
                }
                Intermediate::TupleVariant(n, v)
            },
            other => other,
        }
    }

    /// Appends an entry to a map in progress.
    pub fn property(self, key: Intermediate, value: Intermediate) -> (r: Intermediate)
        ensures
            r@ == with_property(self@, key@, value@),
    {
        match self {
            Intermediate::Mapping(mut v) => {
                let ghost before = entries_view(v@);
                let ghost pair = (key@, value@);
                v.push((key, value));
                proof {
                    assert(entries_view(v@) =~= before.push(pair));
                }
                Intermediate::Mapping(v)
            },
            other => other,
        }
    }

    /// Appends a field to a struct or struct variant in progress.
    pub fn field(self, key: &str, value: Intermediate) -> (r: Intermediate)
        ensures
            r@ == with_field(self@, key@, value@),
    {
        match self {
            Intermediate::Struct(mut v) => {
                let ghost before = fields_view(v@);
                let ghost pair = (key@, value@);
                v.push((key.to_owned(), value));
                proof {
                    assert(fields_view(v@) =~= before.push(pair));
                }
                Intermediate::Struct(v)
            },
            Intermediate::StructVariant(n, mut v) => {
                let ghost before = fields_view(v@);
                let ghost pair = (key@, value@);
                v.push((key.to_owned(), value));
                proof {
                    assert(fields_view(v@) =~= before.push(pair));
                }
                Intermediate::StructVariant(n, v)
            },
            other => other,
        }
    }

    /// The unit, if this is one.
    pub fn as_unit(&self) -> (r: Option<()>)
        ensures
            r.is_some() == (self@ == IntermediateView::Unit),
    {
        match self {
            Intermediate::Unit => Some(()),
            _ => None,
        }
    }

    /// The payload of the case `Bool`: the value, if this is that case.
    pub fn as_bool(&self) -> (r: Option<bool>)
        ensures
            r == match self@ {
                IntermediateView::Bool(v) => Some(v),
                _ => None,
            },
    {
        match self {
            Intermediate::Bool(v) => Some(*v),
            _ => None,
        }
    }

    /// The payload of the case `I8`: the value, if this is that case.
    pub fn as_i8(&self) -> (r: Option<i8>)
        ensures
            r == match self@ {
                IntermediateView::I8(v) => Some(v),
                _ => None,
            },
    {
        match self {
            Intermediate::I8(v) => Some(*v),
            _ => None,
        }
    }

    /// The payload of the case `I16`: the value, if this is that case.
    pub fn as_i16(&self) -> (r: Option<i16>)
        ensures
            r == match self@ {
                IntermediateView::I16(v) => Some(v),
                _ => None,
            },
    {
        match self {
            Intermediate::I16(v) => Some(*v),
            _ => None,
        }
    }

    /// The payload of the case `I32`: the value, if this is that case.
    pub fn as_i32(&self) -> (r: Option<i32>)
        ensures
            r == match self@ {
                IntermediateView::I32(v) => Some(v),
                _ => None,
            },
    {
        match self {
            Intermediate::I32(v) => Some(*v),
            _ => None,
        }
    }

    /// The payload of the case `I64`: the value, if this is that case.
    pub fn as_i64(&self) -> (r: Option<i64>)
        ensures
            r == match self@ {
                IntermediateView::I64(v) => Some(v),
                _ => None,
            },
    {
        match self {
            Intermediate::I64(v) => Some(*v),
            _ => None,
        }
    }

    /// The payload of the case `I128`: the value, if this is that case.
    pub fn as_i128(&self) -> (r: Option<i128>)
        ensures
            r == match self@ {
                IntermediateView::I128(v) => Some(v),
                _ => None,
            },
    {
        match self {
            Intermediate::I128(v) => Some(*v),
            _ => None,
        }
    }

    /// The payload of the case `U8`: the value, if this is that case.
    pub fn as_u8(&self) -> (r: Option<u8>)
        ensures
            r == match self@ {
                IntermediateView::U8(v) => Some(v),
                _ => None,
            },
    {
        match self {
            Intermediate::U8(v) => Some(*v),
            _ => None,
        }
    }

    /// The payload of the case `U16`: the value, if this is that case.
    pub fn as_u16(&self) -> (r: Option<u16>)
        ensures
            r == match self@ {
                IntermediateView::U16(v) => Some(v),
                _ => None,
            },
    {
        match self {
            Intermediate::U16(v) => Some(*v),
            _ => None,
        }
    }

    /// The payload of the case `U32`: the value, if this is that case.
    pub fn as_u32(&self) -> (r: Option<u32>)
        ensures
            r == match self@ {
                IntermediateView::U32(v) => Some(v),
                _ => None,
            },
    {
        match self {
            Intermediate::U32(v) => Some(*v),
            _ => None,
        }
    }

    /// The payload of the case `U64`: the value, if this is that case.
    pub fn as_u64(&self) -> (r: Option<u64>)
        ensures
            r == match self@ {
                IntermediateView::U64(v) => Some(v),
                _ => None,
            },
    {
        match self {
            Intermediate::U64(v) => Some(*v),
            _ => None,
        }
    }

    /// The payload of the case `U128`: the value, if this is that case.
    pub fn as_u128(&self) -> (r: Option<u128>)
        ensures
            r == match self@ {
                IntermediateView::U128(v) => Some(v),
                _ => None,
            },
    {
        match self {
            Intermediate::U128(v) => Some(*v),
            _ => None,
        }
    }

    /// The payload of the case `F32`: the bit pattern of the float, if this is that case.
    pub fn as_f32(&self) -> (r: Option<u32>)
        ensures
            r == match self@ {
                IntermediateView::F32(v) => Some(v),
                _ => None,
            },
    {
        match self {
            Intermediate::F32(v) => Some(*v),
            _ => None,
        }
    }

    /// The payload of the case `F64`: the bit pattern of the float, if this is that case.
    pub fn as_f64(&self) -> (r: Option<u64>)
        ensures
            r == match self@ {
                IntermediateView::F64(v) => Some(v),
                _ => None,
            },
    {
        match self {
            Intermediate::F64(v) => Some(*v),
            _ => None,
        }
    }

    /// The payload of the case `Char`: the value, if this is that case.
    pub fn as_char(&self) -> (r: Option<char>)
        ensures
            r == match self@ {
                IntermediateView::Char(v) => Some(v),
                _ => None,
            },
    {
        match self {
            Intermediate::Char(v) => Some(*v),
            _ => None,
        }
    }

    /// The text, if this is a string.
    pub fn as_str(&self) -> (r: Option<&str>)
        ensures
            match self@ {
                IntermediateView::String(v) => r.is_some() && r.unwrap()@ == v,
                _ => r.is_none(),
            },
    {
        match self {
            Intermediate::String(v) => Some(v.as_str()),
            _ => None,
        }
    }

    /// The bytes, if this is a byte buffer.
    pub fn as_bytes(&self) -> (r: Option<&[u8]>)
        ensures
            match self@ {
                IntermediateView::Bytes(v) => r.is_some() && r.unwrap()@ == v,
                _ => r.is_none(),
            },
    {
        match self {
            Intermediate::Bytes(v) => Some(v.as_slice()),
            _ => None,
        }
    }

    /// The items, if this is the case `Sequence`.
    pub fn as_seq(&self) -> (r: Option<&[Intermediate]>)
        ensures
            match self@ {
                IntermediateView::Sequence(v) => r.is_some() && items_view(r.unwrap()@) == v,
                _ => r.is_none(),
            },
    {
        match self {
            Intermediate::Sequence(v) => Some(v.as_slice()),
            _ => None,
        }
    }

    /// The items, if this is the case `Tuple`.
    pub fn as_tuple(&self) -> (r: Option<&[Intermediate]>)
        ensures
            match self@ {
                IntermediateView::Tuple(v) => r.is_some() && items_view(r.unwrap()@) == v,
                _ => r.is_none(),
            },
    {
        match self {
            Intermediate::Tuple(v) => Some(v.as_slice()),
            _ => None,
        }
    }

    /// The items, if this is the case `TupleStruct`.
    pub fn as_tuple_struct(&self) -> (r: Option<&[Intermediate]>)
        ensures
            match self@ {
                IntermediateView::TupleStruct(v) => r.is_some() && items_view(r.unwrap()@) == v,
                _ => r.is_none(),
            },
    {
        match self {
            Intermediate::TupleStruct(v) => Some(v.as_slice()),
            _ => None,
        }
    }

    /// The entries, if this is a map.
    pub fn as_map(&self) -> (r: Option<&[(Intermediate, Intermediate)]>)
        ensures
            match self@ {
                IntermediateView::Mapping(v) => r.is_some() && entries_view(r.unwrap()@) == v,
                _ => r.is_none(),
            },
    {
        match self {
            Intermediate::Mapping(v) => Some(v.as_slice()),
            _ => None,
        }
    }

    /// The fields, if this is a struct.
    pub fn as_struct(&self) -> (r: Option<&[(String, Intermediate)]>)
        ensures
            match self@ {
                IntermediateView::Struct(v) => r.is_some() && fields_view(r.unwrap()@) == v,
                _ => r.is_none(),
            },
    {
        match self {
            Intermediate::Struct(v) => Some(v.as_slice()),
            _ => None,
        }
    }

    /// The content, if this is a present option.
    pub fn as_option(&self) -> (r: Option<&Intermediate>)
        ensures
            match self@ {
                IntermediateView::Option(Some(v)) => r.is_some() && r.unwrap()@ == *v,
                _ => r.is_none(),
            },
    {
        match self {
            Intermediate::Option(Some(v)) => Some(v),
            _ => None,
        }
    }

    /// The name, if this is a unit variant.
    pub fn as_unit_variant(&self) -> (r: Option<&str>)
        ensures
            match self@ {
                IntermediateView::UnitVariant(n) => r.is_some() && r.unwrap()@ == n,
                _ => r.is_none(),
            },
    {
        match self {
            Intermediate::UnitVariant(n) => Some(n.as_str()),
            _ => None,
        }
    }

    /// The content, if this is a newtype struct.
    pub fn as_new_type_struct(&self) -> (r: Option<&Intermediate>)
        ensures
            match self@ {
                IntermediateView::NewTypeStruct(v) => r.is_some() && r.unwrap()@ == *v,
                _ => r.is_none(),
            },
    {
        match self {
            Intermediate::NewTypeStruct(v) => Some(v),
            _ => None,
        }
    }

    /// The name and the content, if this is a newtype variant.
    pub fn as_new_type_variant(&self) -> (r: Option<(&str, &Intermediate)>)
        ensures
            match self@ {
                IntermediateView::NewTypeVariant(n, v) => r.is_some() && r.unwrap().0@ == n
                    && r.unwrap().1@ == *v,
                _ => r.is_none(),
            },
    {
        match self {
            Intermediate::NewTypeVariant(n, v) => Some((n.as_str(), v)),
            _ => None,
        }
    }

    /// The name and the items, if this is a tuple variant.
    pub fn as_tuple_variant(&self) -> (r: Option<(&str, &[Intermediate])>)
        ensures
            match self@ {
                IntermediateView::TupleVariant(n, v) => r.is_some() && r.unwrap().0@ == n
                    && items_view(r.unwrap().1@) == v,
                _ => r.is_none(),
            },
    {
        match self {
            Intermediate::TupleVariant(n, v) => Some((n.as_str(), v.as_slice())),
            _ => None,
        }
    }

    /// The name and the fields, if this is a struct variant.
    pub fn as_struct_variant(&self) -> (r: Option<(&str, &[(String, Intermediate)])>)
        ensures
            match self@ {
                IntermediateView::StructVariant(n, v) => r.is_some() && r.unwrap().0@ == n
                    && fields_view(r.unwrap().1@) == v,
                _ => r.is_none(),
            },
    {
        match self {
            Intermediate::StructVariant(n, v) => Some((n.as_str(), v.as_slice())),
            _ => None,
        }
    }
}

} // verus!
