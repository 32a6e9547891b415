//! The encode bridge: what each call of an encoder becomes in a tree. A
//! scalar call gives the matching case at once; a compound call opens a
//! gatherer that takes the children in order and wraps them at its end.

use crate::error::Error;
use crate::value::{entries_view, fields_view, items_view, Intermediate, IntermediateView};
use vstd::prelude::*;

verus! {

/// The encoder into trees.
#[derive(Debug, Clone, Copy)]
pub struct Serializer;

/// Gathers the items of a sequence.
#[derive(Debug)]
pub struct SeqSerializer {
    pub values: Vec<Intermediate>,
}

/// Gathers the items of a tuple.
#[derive(Debug)]
pub struct TupleSerializer {
    pub values: Vec<Intermediate>,
}

/// Gathers the items of a tuple struct.
#[derive(Debug)]
pub struct TupleStructSerializer {
    pub values: Vec<Intermediate>,
}

/// Gathers the items of a tuple variant.
#[derive(Debug)]
pub struct TupleVariantSerializer {
    pub variant: String,
    pub values: Vec<Intermediate>,
}

/// Gathers the entries of a map.
#[derive(Debug)]
pub struct MapSerializer {
    pub values: Vec<(Intermediate, Intermediate)>,
}

/// Gathers the fields of a struct.
#[derive(Debug)]
pub struct StructSerializer {
    pub values: Vec<(String, Intermediate)>,
}

/// Gathers the fields of a struct variant.
#[derive(Debug)]
pub struct StructVariantSerializer {
    pub variant: String,
    pub values: Vec<(String, Intermediate)>,
}

/// A list with room for `len` items.
fn sized_list(len: usize) -> (r: Vec<Intermediate>)
    ensures
        r@.len() == 0,
{
    Vec::with_capacity(len)
}

impl Serializer {
    /// A text.
    pub fn serialize_str(&self, v: &str) -> (r: Intermediate)
        ensures
            r@ == IntermediateView::String(v@),
    {
        Intermediate::String(v.to_owned())
    }

    /// A byte buffer.
    pub fn serialize_bytes(&self, v: &[u8]) -> (r: Intermediate)
        ensures
            r@ == IntermediateView::Bytes(v@),
    {
        Intermediate::Bytes(vstd::slice::slice_to_vec(v))
    }

    /// An absent option.
    pub fn serialize_none(&self) -> (r: Intermediate)
        ensures
            r@ == IntermediateView::Option(None),
    {
        Intermediate::Option(None)
    }

    /// A present option with the given content.
    pub fn serialize_some(&self, value: Intermediate) -> (r: Intermediate)
        ensures
            r@ == IntermediateView::Option(Some(Box::new(value@))),
    {
        Intermediate::Option(Some(Box::new(value)))
    }

    /// The unit.
    pub fn serialize_unit(&self) -> (r: Intermediate)
        ensures
            r@ == IntermediateView::Unit,
    {
        Intermediate::Unit
    }

    /// A unit struct.
    pub fn serialize_unit_struct(&self) -> (r: Intermediate)
        ensures
            r@ == IntermediateView::UnitStruct,
    {
        Intermediate::UnitStruct
    }

    /// A unit variant.
    pub fn serialize_unit_variant(&self, variant: &str) -> (r: Intermediate)
        ensures
            r@ == IntermediateView::UnitVariant(variant@),
    {
        Intermediate::UnitVariant(variant.to_owned())
    }

    /// A newtype struct with the given content.
    pub fn serialize_newtype_struct(&self, value: Intermediate) -> (r: Intermediate)
        ensures
            r@ == IntermediateView::NewTypeStruct(Box::new(value@)),
    {
        Intermediate::NewTypeStruct(Box::new(value))
    }

    /// A newtype variant with the given content.
    pub fn serialize_newtype_variant(&self, variant: &str, value: Intermediate) -> (r:
        Intermediate)
        ensures
            r@ == IntermediateView::NewTypeVariant(variant@, Box::new(value@)),
    {
        Intermediate::NewTypeVariant(variant.to_owned(), Box::new(value))
    }

    /// Opens a sequence; `len` is the count of items where it is known.
    pub fn serialize_seq(&self, len: Option<usize>) -> (r: SeqSerializer)
        ensures
            r.values@.len() == 0,
    {
        SeqSerializer {
            values: match len {
                Some(len) => sized_list(len),
                None => Vec::new(),
            },
        }
    }

    /// Opens a tuple of `len` items.
    pub fn serialize_tuple(&self, len: usize) -> (r: TupleSerializer)
        ensures
            r.values@.len() == 0,
    {
        TupleSerializer { values: sized_list(len) }
    }

    /// Opens a tuple struct of `len` items.
    pub fn serialize_tuple_struct(&self, len: usize) -> (r: TupleStructSerializer)
        ensures
            r.values@.len() == 0,
    {
        TupleStructSerializer { values: sized_list(len) }
    }

    /// Opens a tuple variant of `len` items.
    pub fn serialize_tuple_variant(&self, variant: &str, len: usize) -> (r:
        TupleVariantSerializer)
        ensures
            r.variant@ == variant@,
            r.values@.len() == 0,
    {
        TupleVariantSerializer { variant: variant.to_owned(), values: sized_list(len) }
    }

    /// Opens a map; `len` is the count of entries where it is known.
    pub fn serialize_map(&self, len: Option<usize>) -> (r: MapSerializer)
        ensures
            r.values@.len() == 0,
    {
        MapSerializer {
            values: match len {
                Some(len) => Vec::with_capacity(len),
                None => Vec::new(),
            },
        }
    }

    /// Opens a struct of `len` fields.
    pub fn serialize_struct(&self, len: usize) -> (r: StructSerializer)
        ensures
            r.values@.len() == 0,
    {
        StructSerializer { values: Vec::with_capacity(len) }
    }

    /// Opens a struct variant of `len` fields.
    pub fn serialize_struct_variant(&self, variant: &str, len: usize) -> (r:
        StructVariantSerializer)
        ensures
            r.variant@ == variant@,
            r.values@.len() == 0,
    {
        StructVariantSerializer { variant: variant.to_owned(), values: Vec::with_capacity(len) }
    }
}

impl SeqSerializer {
    /// Takes the next item.
    pub fn serialize_element(&mut self, value: Intermediate)
        ensures
            items_view(final(self).values@) == items_view(old(self).values@).push(value@),
    {
        self.values.push(value);
        proof {
            assert(items_view(self.values@) =~= items_view(old(self).values@).push(value@));
        }
    }

    /// Wraps the items into a sequence.
    pub fn end(self) -> (r: Intermediate)
        ensures
            r@ == IntermediateView::Sequence(items_view(self.values@)),
    {
        Intermediate::Sequence(self.values)
    }
}

impl TupleSerializer {
    /// Takes the next item.
    pub fn serialize_element(&mut self, value: Intermediate)
        ensures
            items_view(final(self).values@) == items_view(old(self).values@).push(value@),
    {
        self.values.push(value);
        proof {
            assert(items_view(self.values@) =~= items_view(old(self).values@).push(value@));
        }
    }

    /// Wraps the items into a tuple.
    pub fn end(self) -> (r: Intermediate)
        ensures
            r@ == IntermediateView::Tuple(items_view(self.values@)),
    {
        Intermediate::Tuple(self.values)
    }
}

impl TupleStructSerializer {
    /// Takes the next item.
    pub fn serialize_field(&mut self, value: Intermediate)
        ensures
            items_view(final(self).values@) == items_view(old(self).values@).push(value@),
    {
        self.values.push(value);
        proof {
            assert(items_view(self.values@) =~= items_view(old(self).values@).push(value@));
        }
    }

    /// Wraps the items into a tuple struct.
    pub fn end(self) -> (r: Intermediate)
        ensures
            r@ == IntermediateView::TupleStruct(items_view(self.values@)),
    {
        Intermediate::TupleStruct(self.values)
    }
}

impl TupleVariantSerializer {
    /// Takes the next item.
    pub fn serialize_field(&mut self, value: Intermediate)
        ensures
            final(self).variant == old(self).variant,
            items_view(final(self).values@) == items_view(old(self).values@).push(value@),
    {
        self.values.push(value);
        proof {
            assert(items_view(self.values@) =~= items_view(old(self).values@).push(value@));
        }
    }

    /// Wraps the items into a tuple variant.
    pub fn end(self) -> (r: Intermediate)
        ensures
            r@ == IntermediateView::TupleVariant(self.variant@, items_view(self.values@)),
    {
        Intermediate::TupleVariant(self.variant, self.values)
    }
}

impl MapSerializer {
    /// Takes the key of the next entry; its value is the unit until
    /// `serialize_value` sets it.
    pub fn serialize_key(&mut self, key: Intermediate)
        ensures
            entries_view(final(self).values@) == entries_view(old(self).values@).push(
                (key@, IntermediateView::Unit),
            ),
    {
        self.values.push((key, Intermediate::Unit));
        proof {
            assert(entries_view(self.values@) =~= entries_view(old(self).values@).push(
                (key@, IntermediateView::Unit),
            ));
        }
    }

    /// Sets the value of the entry whose key came last. Without such an
    /// entry the value is refused as a missing map entry.
    pub fn serialize_value(&mut self, value: Intermediate) -> (r: Result<(), Error>)
        ensures
            old(self).values@.len() > 0 ==> r.is_ok() && entries_view(final(self).values@)
                == entries_view(old(self).values@).update(
                old(self).values@.len() - 1,
                (entries_view(old(self).values@)[old(self).values@.len() - 1].0, value@),
            ),
            old(self).values@.len() == 0 ==> (r matches Err(Error::ExpectedMapEntry))
                && final(self).values@ == old(self).values@,
    {
        match self.values.pop() {
            Some(entry) => {
                let ghost before = entries_view(old(self).values@);
                self.values.push((entry.0, value));
                proof {
                    assert(entries_view(self.values@) =~= before.update(
                        old(self).values@.len() - 1,
                        (before[old(self).values@.len() - 1].0, value@),
                    ));
                }
                Ok(())
            },
            None => Err(Error::ExpectedMapEntry),
        }
    }

    /// Takes the next entry.
    pub fn serialize_entry(&mut self, key: Intermediate, value: Intermediate)
        ensures
            entries_view(final(self).values@) == entries_view(old(self).values@).push(
                (key@, value@),
            ),
    {
        self.values.push((key, value));
        proof {
            assert(entries_view(self.values@) =~= entries_view(old(self).values@).push(
                (key@, value@),
            ));
        }
    }

    /// Wraps the entries into a map.
    pub fn end(self) -> (r: Intermediate)
        ensures
            r@ == IntermediateView::Mapping(entries_view(self.values@)),
    {
        Intermediate::Mapping(self.values)
    }
}

impl StructSerializer {
    /// Takes the next field.
    pub fn serialize_field(&mut self, key: &str, value: Intermediate)
        ensures
            fields_view(final(self).values@) == fields_view(old(self).values@).push(
                (key@, value@),
            ),
    {
        self.values.push((key.to_owned(), value));
        proof {
            assert(fields_view(self.values@) =~= fields_view(old(self).values@).push(
                (key@, value@),
            ));
        }
    }

    /// Wraps the fields into a struct.
    pub fn end(self) -> (r: Intermediate)
        ensures
            r@ == IntermediateView::Struct(fields_view(self.values@)),
    {
        Intermediate::Struct(self.values)
    }
}

impl StructVariantSerializer {
    /// Takes the next field.
    pub fn serialize_field(&mut self, key: &str, value: Intermediate)
        ensures
            final(self).variant == old(self).variant,
            fields_view(final(self).values@) == fields_view(old(self).values@).push(
                (key@, value@),
            ),
    {
        self.values.push((key.to_owned(), value));
        proof {
            assert(fields_view(self.values@) =~= fields_view(old(self).values@).push(
                (key@, value@),
            ));
        }
    }

    /// Wraps the fields into a struct variant.
    pub fn end(self) -> (r: Intermediate)
        ensures
            r@ == IntermediateView::StructVariant(self.variant@, fields_view(self.values@)),
    {
        Intermediate::StructVariant(self.variant, self.values)
    }
}

} // verus!
