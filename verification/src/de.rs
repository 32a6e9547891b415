//! Decoding decisions: how a tree is read when a consumer asks for a shape.
//!
//! In exact mode a tree is read as the shape that it has. In interpretive
//! mode other readings are tried first: a text or a single keyed entry as a
//! variant of an enum, and single content as the content of a newtype.

use crate::error::Error;
use crate::value::{entries_view, fields_view, items_view, Intermediate, IntermediateView};
use vstd::prelude::*;

verus! {

/// How strictly a tree is read.
#[derive(Debug, Clone, Copy, PartialEq, Eq, Structural)]
pub enum DeserializeMode {
    /// The tree must have the shape that is asked for.
    Exact,
    /// Other readings of the tree are tried before failing.
    Interpret,
}

impl Default for DeserializeMode {
    fn default() -> (r: Self)
        ensures
            r == DeserializeMode::Interpret,
    {
        DeserializeMode::Interpret
    }
}

/// The named content of a struct variant: entries of a map, or fields.
#[derive(Debug)]
pub enum StructContent<'a> {
    Entries(&'a [(Intermediate, Intermediate)]),
    Fields(&'a [(String, Intermediate)]),
}

/// Model of a [`StructContent`].
pub enum StructContentView {
    Entries(Seq<(IntermediateView, IntermediateView)>),
    Fields(Seq<(Seq<char>, IntermediateView)>),
}

impl<'a> View for StructContent<'a> {
    type V = StructContentView;

    open spec fn view(&self) -> StructContentView {
        match *self {
            StructContent::Entries(v) => StructContentView::Entries(entries_view(v@)),
            StructContent::Fields(v) => StructContentView::Fields(fields_view(v@)),
        }
    }
}

/// A tree read as a variant of an enum.
#[derive(Debug)]
pub enum EnumDeserializer<'a> {
    Unit { name: &'a String },
    NewType { name: &'a String, content: &'a Intermediate, mode: DeserializeMode },
    Tuple { name: &'a String, content: &'a [Intermediate], mode: DeserializeMode },
    Struct { name: &'a String, content: StructContent<'a>, mode: DeserializeMode },
}

/// Model of an [`EnumDeserializer`]: the name of the variant and its content.
pub enum VariantView {
    Unit { name: Seq<char> },
    NewType { name: Seq<char>, content: IntermediateView, mode: DeserializeMode },
    Tuple { name: Seq<char>, content: Seq<IntermediateView>, mode: DeserializeMode },
    Struct { name: Seq<char>, content: StructContentView, mode: DeserializeMode },
}

impl<'a> View for EnumDeserializer<'a> {
    type V = VariantView;

    open spec fn view(&self) -> VariantView {
        match *self {
            EnumDeserializer::Unit { name } => VariantView::Unit { name: name@ },
            EnumDeserializer::NewType { name, content, mode } => VariantView::NewType {
                name: name@,
                content: content@,
                mode,
            },
            EnumDeserializer::Tuple { name, content, mode } => VariantView::Tuple {
                name: name@,
                content: items_view(content@),
                mode,
            },
            EnumDeserializer::Struct { name, content, mode } => VariantView::Struct {
                name: name@,
                content: content@,
                mode,
            },
        }
    }
}

/// The name of a variant.
pub open spec fn variant_name(v: VariantView) -> Seq<char> {
    match v {
        VariantView::Unit { name } => name,
        VariantView::NewType { name, content, mode } => name,
        VariantView::Tuple { name, content, mode } => name,
        VariantView::Struct { name, content, mode } => name,
    }
}

impl<'a> EnumDeserializer<'a> {
    /// The name of the variant.
    pub fn name(&self) -> (r: &'a String)
        ensures
            r@ == variant_name(self@),
    {
        match self {
            EnumDeserializer::Unit { name } => name,
            EnumDeserializer::NewType { name, .. } => name,
            EnumDeserializer::Tuple { name, .. } => name,
            EnumDeserializer::Struct { name, .. } => name,
        }
    }

    /// Reads the variant as one without content.
    pub fn unit_variant(self) -> (r: Result<(), Error>)
        ensures
            match self@ {
                VariantView::Unit { name } => r.is_ok(),
                _ => r matches Err(Error::ExpectedUnitVariant),
            },
    {
        match self {
            EnumDeserializer::Unit { .. } => Ok(()),
            _ => Err(Error::ExpectedUnitVariant),
        }
    }

    /// Reads the variant as one with single content.
    pub fn newtype_variant(self) -> (r: Result<Deserializer<'a>, Error>)
        ensures
            match self@ {
                VariantView::NewType { name, content, mode } => r matches Ok(found)
                    && found.input@ == content && found.mode == mode,
                _ => r matches Err(Error::ExpectedNewTypeVariant),
            },
    {
        match self {
            EnumDeserializer::NewType { content, mode, .. } => Ok(
                Deserializer { input: content, mode },
            ),
            _ => Err(Error::ExpectedNewTypeVariant),
        }
    }

    /// Reads the variant as one with positional content.
    pub fn tuple_variant(self) -> (r: Result<SeqDeserializer<'a>, Error>)
        ensures
            match self@ {
                VariantView::Tuple { name, content, mode } => r matches Ok(found) && items_view(
                    found.values@,
                ) == content && found.index == 0 && found.mode == mode,
                _ => r matches Err(Error::ExpectedTupleVariant),
            },
    {
        match self {
            EnumDeserializer::Tuple { content, mode, .. } => Ok(
                SeqDeserializer { values: content, index: 0, mode },
            ),
            _ => Err(Error::ExpectedTupleVariant),
        }
    }

    /// Reads the variant as one with named content.
    pub fn struct_variant(self) -> (r: Result<(StructContent<'a>, DeserializeMode), Error>)
        ensures
            match self@ {
                VariantView::Struct { name, content, mode } => r matches Ok(found) && found.0@
                    == content && found.1 == mode,
                _ => r matches Err(Error::ExpectedStructVariant),
            },
    {
        match self {
            EnumDeserializer::Struct { content, mode, .. } => Ok((content, mode)),
            _ => Err(Error::ExpectedStructVariant),
        }
    }
}

/// A cursor over the items of a list.
#[derive(Debug)]
pub struct SeqDeserializer<'a> {
    pub values: &'a [Intermediate],
    pub index: usize,
    pub mode: DeserializeMode,
}

impl<'a> SeqDeserializer<'a> {
    /// The next item, if one is left; the cursor moves past it.
    pub fn next_element(&mut self) -> (r: Option<Deserializer<'a>>)
        ensures
            final(self).values@ == old(self).values@,
            final(self).mode == old(self).mode,
            old(self).index < old(self).values@.len() ==> (r matches Some(d) && *d.input == old(
                self,
            ).values@[old(self).index as int] && d.mode == old(self).mode && final(self).index
                == old(self).index + 1),
            old(self).index >= old(self).values@.len() ==> r.is_none() && final(self).index
                == old(self).index,
    {
        if self.index < self.values.len() {
            let value = &self.values[self.index];
            self.index = self.index + 1;
            Some(Deserializer { input: value, mode: self.mode })
        } else {
            None
        }
    }
}

/// A cursor over the entries of a map.
#[derive(Debug)]
pub struct MapDeserializer<'a> {
    pub values: &'a [(Intermediate, Intermediate)],
    pub index: usize,
    pub mode: DeserializeMode,
}

impl<'a> MapDeserializer<'a> {
    /// The key of the current entry, if one is left; the cursor stays.
    pub fn next_key(&self) -> (r: Option<Deserializer<'a>>)
        ensures
            self.index < self.values@.len() ==> (r matches Some(d) && *d.input
                == self.values@[self.index as int].0 && d.mode == self.mode),
            self.index >= self.values@.len() ==> r.is_none(),
    {
        if self.index < self.values.len() {
            Some(Deserializer { input: &self.values[self.index].0, mode: self.mode })
        } else {
            None
        }
    }

    /// The value of the current entry; the cursor moves past the entry.
    pub fn next_value(&mut self) -> (r: Result<Deserializer<'a>, Error>)
        ensures
            final(self).values@ == old(self).values@,
            final(self).mode == old(self).mode,
            old(self).index < old(self).values@.len() ==> (r matches Ok(d) && *d.input == old(
                self,
            ).values@[old(self).index as int].1 && d.mode == old(self).mode && final(self).index
                == old(self).index + 1),
            old(self).index >= old(self).values@.len() ==> (r matches Err(Error::ExpectedMapEntry)
                && final(self).index == old(self).index),
    {
        if self.index < self.values.len() {
            let value = &self.values[self.index].1;
            self.index = self.index + 1;
            Ok(Deserializer { input: value, mode: self.mode })
        } else {
            Err(Error::ExpectedMapEntry)
        }
    }

    /// The current entry, if one is left; the cursor moves past it.
    pub fn next_entry(&mut self) -> (r: Option<(Deserializer<'a>, Deserializer<'a>)>)
        ensures
            final(self).values@ == old(self).values@,
            final(self).mode == old(self).mode,
            old(self).index < old(self).values@.len() ==> (r matches Some(e) && *e.0.input == old(
                self,
            ).values@[old(self).index as int].0 && *e.1.input == old(self).values@[old(
                self,
            ).index as int].1 && e.0.mode == old(self).mode && e.1.mode == old(self).mode
                && final(self).index == old(self).index + 1),
            old(self).index >= old(self).values@.len() ==> r.is_none() && final(self).index
                == old(self).index,
    {
        if self.index < self.values.len() {
            let key = &self.values[self.index].0;
            let value = &self.values[self.index].1;
            self.index = self.index + 1;
            Some(
                (
                    Deserializer { input: key, mode: self.mode },
                    Deserializer { input: value, mode: self.mode },
                ),
            )
        } else {
            None
        }
    }
}

/// A cursor over the fields of a struct.
#[derive(Debug)]
pub struct StructDeserializer<'a> {
    pub values: &'a [(String, Intermediate)],
    pub index: usize,
    pub mode: DeserializeMode,
}

impl<'a> StructDeserializer<'a> {
    /// The name of the current field, if one is left; the cursor stays.
    pub fn next_key(&self) -> (r: Option<&'a String>)
        ensures
            self.index < self.values@.len() ==> (r matches Some(k) && *k
                == self.values@[self.index as int].0),
            self.index >= self.values@.len() ==> r.is_none(),
    {
        if self.index < self.values.len() {
            Some(&self.values[self.index].0)
        } else {
            None
        }
    }

    /// The value of the current field; the cursor moves past the field.
    pub fn next_value(&mut self) -> (r: Result<Deserializer<'a>, Error>)
        ensures
            final(self).values@ == old(self).values@,
            final(self).mode == old(self).mode,
            old(self).index < old(self).values@.len() ==> (r matches Ok(d) && *d.input == old(
                self,
            ).values@[old(self).index as int].1 && d.mode == old(self).mode && final(self).index
                == old(self).index + 1),
            old(self).index >= old(self).values@.len() ==> (r matches Err(
                Error::ExpectedStructField,
            ) && final(self).index == old(self).index),
    {
        if self.index < self.values.len() {
            let value = &self.values[self.index].1;
            self.index = self.index + 1;
            Ok(Deserializer { input: value, mode: self.mode })
        } else {
            Err(Error::ExpectedStructField)
        }
    }

    /// The current field, if one is left; the cursor moves past it.
    pub fn next_entry(&mut self) -> (r: Option<(&'a String, Deserializer<'a>)>)
        ensures
            final(self).values@ == old(self).values@,
            final(self).mode == old(self).mode,
            old(self).index < old(self).values@.len() ==> (r matches Some(e) && *e.0 == old(
                self,
            ).values@[old(self).index as int].0 && *e.1.input == old(self).values@[old(
                self,
            ).index as int].1 && e.1.mode == old(self).mode && final(self).index == old(
                self,
            ).index + 1),
            old(self).index >= old(self).values@.len() ==> r.is_none() && final(self).index
                == old(self).index,
    {
        if self.index < self.values.len() {
            let key = &self.values[self.index].0;
            let value = &self.values[self.index].1;
            self.index = self.index + 1;
            Some((key, Deserializer { input: value, mode: self.mode }))
        } else {
            None
        }
    }
}

/// What a tree is read as when any shape is accepted.
#[derive(Debug)]
pub enum Reading<'a> {
    /// A value without content: the unit or a unit struct.
    Unit,
    /// A scalar, a text or a byte buffer: the tree itself holds it.
    Scalar(&'a Intermediate),
    /// An absent option.
    Absent,
    /// A present option and its content.
    Present(Deserializer<'a>),
    /// A newtype struct and its content.
    NewType(Deserializer<'a>),
    /// A variant of an enum.
    Variant(EnumDeserializer<'a>),
    /// A list.
    List(SeqDeserializer<'a>),
    /// A map.
    Entries(MapDeserializer<'a>),
    /// A struct.
    Fields(StructDeserializer<'a>),
}

/// Model of a [`Reading`].
pub enum ReadingView {
    Unit,
    Scalar(IntermediateView),
    Absent,
    Present(IntermediateView),
    NewType(IntermediateView),
    Variant(VariantView),
    List(Seq<IntermediateView>),
    Entries(Seq<(IntermediateView, IntermediateView)>),
    Fields(Seq<(Seq<char>, IntermediateView)>),
}

impl<'a> Reading<'a> {
    /// Whether the cursors of this reading stand at the start, in `mode`.
    pub open spec fn fresh(&self, mode: DeserializeMode) -> bool {
        match *self {
            Reading::Present(d) => d.mode == mode,
            Reading::NewType(d) => d.mode == mode,
            Reading::List(c) => c.index == 0 && c.mode == mode,
            Reading::Entries(c) => c.index == 0 && c.mode == mode,
            Reading::Fields(c) => c.index == 0 && c.mode == mode,
            _ => true,
        }
    }
}

impl<'a> View for Reading<'a> {
    type V = ReadingView;

    open spec fn view(&self) -> ReadingView {
        match *self {
            Reading::Unit => ReadingView::Unit,
            Reading::Scalar(v) => ReadingView::Scalar(v@),
            Reading::Absent => ReadingView::Absent,
            Reading::Present(d) => ReadingView::Present(d.input@),
            Reading::NewType(d) => ReadingView::NewType(d.input@),
            Reading::Variant(v) => ReadingView::Variant(v@),
            Reading::List(c) => ReadingView::List(items_view(c.values@)),
            Reading::Entries(c) => ReadingView::Entries(entries_view(c.values@)),
            Reading::Fields(c) => ReadingView::Fields(fields_view(c.values@)),
        }
    }
}

/// What `value` is read as when any shape is accepted, in `mode`.
pub open spec fn any_reading(value: IntermediateView, mode: DeserializeMode) -> ReadingView {
    match value {
        IntermediateView::Unit => ReadingView::Unit,
        IntermediateView::UnitStruct => ReadingView::Unit,
        IntermediateView::Option(None) => ReadingView::Absent,
        IntermediateView::Option(Some(v)) => ReadingView::Present(*v),
        IntermediateView::UnitVariant(n) => ReadingView::Variant(VariantView::Unit { name: n }),
        IntermediateView::NewTypeStruct(v) => ReadingView::NewType(*v),
        IntermediateView::NewTypeVariant(n, v) => ReadingView::Variant(
            VariantView::NewType { name: n, content: *v, mode },
        ),
        IntermediateView::Sequence(v) => ReadingView::List(v),
        IntermediateView::Tuple(v) => ReadingView::List(v),
        IntermediateView::TupleStruct(v) => ReadingView::List(v),
        IntermediateView::TupleVariant(n, v) => ReadingView::Variant(
            VariantView::Tuple { name: n, content: v, mode },
        ),
        IntermediateView::Mapping(v) => ReadingView::Entries(v),
        IntermediateView::Struct(v) => ReadingView::Fields(v),
        IntermediateView::StructVariant(n, v) => ReadingView::Variant(
            VariantView::Struct { name: n, content: StructContentView::Fields(v), mode },
        ),
        _ => ReadingView::Scalar(value),
    }
}

/// How a tree is read when a newtype is asked for.
#[derive(Debug)]
pub enum NewTypeReading<'a> {
    /// The content of the newtype is this tree.
    Content(Deserializer<'a>),
    /// The tree is read as the shape that it has.
    Any,
}

/// The content that `value` gives where a newtype is asked for; `None` where
/// the tree is read as the shape that it has.
pub open spec fn newtype_reading(value: IntermediateView, mode: DeserializeMode) -> Option<
    IntermediateView,
> {
    if mode == DeserializeMode::Interpret {
        match value {
            IntermediateView::Option(Some(v)) => Some(*v),
            IntermediateView::Option(None) => None,
            IntermediateView::NewTypeStruct(v) => Some(*v),
            IntermediateView::NewTypeVariant(_, v) => Some(*v),
            IntermediateView::Sequence(v) => single_item(v),
            IntermediateView::Tuple(v) => single_item(v),
            IntermediateView::TupleStruct(v) => single_item(v),
            IntermediateView::TupleVariant(_, v) => single_item(v),
            IntermediateView::Mapping(v) => if v.len() == 1 {
                Some(v[0].1)
            } else {
                None
            },
            IntermediateView::Struct(v) => if v.len() == 1 {
                Some(v[0].1)
            } else {
                None
            },
            IntermediateView::StructVariant(_, v) => if v.len() == 1 {
                Some(v[0].1)
            } else {
                None
            },
            _ => Some(value),
        }
    } else {
        None
    }
}

/// The item of a list of one item.
pub open spec fn single_item(v: Seq<IntermediateView>) -> Option<IntermediateView> {
    if v.len() == 1 {
        Some(v[0])
    } else {
        None
    }
}

/// Whether `name` is one of `variants`.
pub open spec fn is_variant(variants: Seq<&str>, name: Seq<char>) -> bool {
    exists|i: int| 0 <= i < variants.len() && (#[trigger] variants[i])@ == name
}

/// Tests whether `name` is one of `variants`.
pub fn contains_variant(variants: &[&str], name: &String) -> (r: bool)
    ensures
        r == is_variant(variants@, name@),
{
    let mut i: usize = 0;
    while i < variants.len()
        invariant
            i <= variants@.len(),
            forall|j: int| 0 <= j < i ==> (#[trigger] variants@[j])@ != name@,
        decreases variants@.len() - i,
    {
        let candidate: String = variants[i].to_owned();
        if candidate == *name {
            return true;
        }
        i += 1;
    }
    false
}

/// The variant that a single entry `name: value` stands for: tuple-like for a
/// list, struct-like for a map or a struct, and single content otherwise.
pub open spec fn entry_variant(name: Seq<char>, value: IntermediateView, mode: DeserializeMode) -> VariantView {
    match value {
        IntermediateView::Sequence(v) => VariantView::Tuple { name, content: v, mode },
        IntermediateView::Tuple(v) => VariantView::Tuple { name, content: v, mode },
        IntermediateView::TupleStruct(v) => VariantView::Tuple { name, content: v, mode },
        IntermediateView::Mapping(v) => VariantView::Struct {
            name,
            content: StructContentView::Entries(v),
            mode,
        },
        IntermediateView::Struct(v) => VariantView::Struct {
            name,
            content: StructContentView::Fields(v),
            mode,
        },
        _ => VariantView::NewType { name, content: value, mode },
    }
}

/// The variant that `value` is read as where an enum with the given variant
/// names is asked for; `None` where the tree is read as the shape that it
/// has.
pub open spec fn enum_reading(
    value: IntermediateView,
    variants: Seq<&str>,
    mode: DeserializeMode,
) -> Option<VariantView> {
    if mode == DeserializeMode::Interpret {
        match value {
            IntermediateView::String(v) => Some(VariantView::Unit { name: v }),
            IntermediateView::Mapping(v) => if v.len() == 1 {
                match v[0].0 {
                    IntermediateView::String(k) => if is_variant(variants, k) {
                        Some(entry_variant(k, v[0].1, mode))
                    } else {
                        None
                    },
                    _ => None,
                }
            } else {
                None
            },
            IntermediateView::Struct(v) => if v.len() == 1 && is_variant(variants, v[0].0) {
                Some(entry_variant(v[0].0, v[0].1, mode))
            } else {
                None
            },
            _ => None,
        }
    } else {
        None
    }
}

/// How a tree is read when an option is asked for.
#[derive(Debug)]
pub enum OptionReading<'a> {
    /// The option is present, with this content.
    Present(Deserializer<'a>),
    /// The option is absent.
    Absent,
    /// The tree is read as the shape that it has.
    Any,
}

/// Model of an [`OptionReading`].
pub enum OptionReadingView {
    Present(IntermediateView),
    Absent,
    Any,
}

/// How `value` is read where an option is asked for: an option gives its
/// content or nothing; any other tree counts as present in interpretive
/// mode, and is read as the shape that it has in exact mode.
pub open spec fn option_reading(value: IntermediateView, mode: DeserializeMode) -> OptionReadingView {
    match value {
        IntermediateView::Option(Some(v)) => OptionReadingView::Present(*v),
        IntermediateView::Option(None) => OptionReadingView::Absent,
        _ => if mode == DeserializeMode::Interpret {
            OptionReadingView::Present(value)
        } else {
            OptionReadingView::Any
        },
    }
}

/// In exact mode every tree is read as the shape that it has: no reading as
/// a variant, as the content of a newtype or as a present option is tried.
pub proof fn lemma_exact_mode_reads_shape(value: IntermediateView, variants: Seq<&str>)
    ensures
        enum_reading(value, variants, DeserializeMode::Exact).is_none(),
        newtype_reading(value, DeserializeMode::Exact).is_none(),
        !(value is Option) ==> option_reading(value, DeserializeMode::Exact)
            == OptionReadingView::Any,
{
}

/// Reads a single entry `name: value` as a variant.
pub fn variant_of_entry<'a>(name: &'a String, value: &'a Intermediate, mode: DeserializeMode) -> (r:
    EnumDeserializer<'a>)
    ensures
        r@ == entry_variant(name@, value@, mode),
{
    match value {
        Intermediate::Sequence(v) => EnumDeserializer::Tuple { name, content: v.as_slice(), mode },
        Intermediate::Tuple(v) => EnumDeserializer::Tuple { name, content: v.as_slice(), mode },
        Intermediate::TupleStruct(v) => EnumDeserializer::Tuple {
            name,
            content: v.as_slice(),
            mode,
        },
        Intermediate::Mapping(v) => EnumDeserializer::Struct {
            name,
            content: StructContent::Entries(v.as_slice()),
            mode,
        },
        Intermediate::Struct(v) => EnumDeserializer::Struct {
            name,
            content: StructContent::Fields(v.as_slice()),
            mode,
        },
        _ => EnumDeserializer::NewType { name, content: value, mode },
    }
}

/// A tree together with the mode in which it is read.
#[derive(Debug)]
pub struct Deserializer<'a> {
    pub input: &'a Intermediate,
    pub mode: DeserializeMode,
}

impl<'a> Deserializer<'a> {
    /// Reads `input` in the given mode.
    pub fn from_intermediate(input: &'a Intermediate, mode: DeserializeMode) -> (r: Deserializer<
        'a,
    >)
        ensures
            r.input == input,
            r.mode == mode,
    {
        Deserializer { input, mode }
    }

    /// Reads the tree as the shape that it has.
    pub fn deserialize_any(&self) -> (r: Reading<'a>)
        ensures
            r@ == any_reading(self.input@, self.mode),
            r.fresh(self.mode),
    {
        let mode = self.mode;
        match self.input {
            Intermediate::Unit => Reading::Unit,
            Intermediate::UnitStruct => Reading::Unit,
            Intermediate::Option(None) => Reading::Absent,
            Intermediate::Option(Some(v)) => Reading::Present(Deserializer { input: v, mode }),
            Intermediate::UnitVariant(n) => Reading::Variant(EnumDeserializer::Unit { name: n }),
            Intermediate::NewTypeStruct(v) => Reading::NewType(Deserializer { input: v, mode }),
            Intermediate::NewTypeVariant(n, v) => Reading::Variant(
                EnumDeserializer::NewType { name: n, content: v, mode },
            ),
            Intermediate::Sequence(v) => Reading::List(
                SeqDeserializer { values: v.as_slice(), index: 0, mode },
            ),
            Intermediate::Tuple(v) => Reading::List(
                SeqDeserializer { values: v.as_slice(), index: 0, mode },
            ),
            Intermediate::TupleStruct(v) => Reading::List(
                SeqDeserializer { values: v.as_slice(), index: 0, mode },
            ),
            Intermediate::TupleVariant(n, v) => Reading::Variant(
                EnumDeserializer::Tuple { name: n, content: v.as_slice(), mode },
            ),
            Intermediate::Mapping(v) => Reading::Entries(
                MapDeserializer { values: v.as_slice(), index: 0, mode },
            ),
            Intermediate::Struct(v) => Reading::Fields(
                StructDeserializer { values: v.as_slice(), index: 0, mode },
            ),
            Intermediate::StructVariant(n, v) => Reading::Variant(
                EnumDeserializer::Struct {
                    name: n,
                    content: StructContent::Fields(v.as_slice()),
                    mode,
                },
            ),
            _ => Reading::Scalar(self.input),
        }
    }

    /// Reads the tree where a newtype struct is asked for. In interpretive
    /// mode the content of an option, of a newtype, or the single item of a
    /// list, map or struct is taken as the content of the newtype, and a
    /// scalar is taken as the content itself.
    pub fn deserialize_newtype_struct(&self) -> (r: NewTypeReading<'a>)
        ensures
            match r {
                NewTypeReading::Content(d) => newtype_reading(self.input@, self.mode) == Some(
                    d.input@,
                ) && d.mode == self.mode,
                NewTypeReading::Any => newtype_reading(self.input@, self.mode).is_none(),
            },
    {
        let mode = self.mode;
        if mode == DeserializeMode::Interpret {
            match self.input {
                Intermediate::Option(Some(v)) => {
                    return NewTypeReading::Content(Deserializer { input: v, mode });
                },
                Intermediate::Option(None) => {},
                Intermediate::NewTypeStruct(v) => {
                    return NewTypeReading::Content(Deserializer { input: v, mode });
                },
                Intermediate::NewTypeVariant(_, v) => {
                    return NewTypeReading::Content(Deserializer { input: v, mode });
                },
                Intermediate::Sequence(v) => {
                    proof {
                        assert(items_view(v@).len() == v@.len());
                        if v@.len() >= 1 {
                            assert(items_view(v@)[0] == v@[0]@);
                        }
                    }
                    if v.len() == 1 {
                        return NewTypeReading::Content(Deserializer { input: &v[0], mode });
                    }
                },
                Intermediate::Tuple(v) => {
                    proof {
                        assert(items_view(v@).len() == v@.len());
                        if v@.len() >= 1 {
                            assert(items_view(v@)[0] == v@[0]@);
                        }
                    }
                    if v.len() == 1 {
                        return NewTypeReading::Content(Deserializer { input: &v[0], mode });
                    }
                },
                Intermediate::TupleStruct(v) => {
                    proof {
                        assert(items_view(v@).len() == v@.len());
                        if v@.len() >= 1 {
                            assert(items_view(v@)[0] == v@[0]@);
                        }
                    }
                    if v.len() == 1 {
                        return NewTypeReading::Content(Deserializer { input: &v[0], mode });
                    }
                },
                Intermediate::TupleVariant(_, v) => {
                    proof {
                        assert(items_view(v@).len() == v@.len());
                        if v@.len() >= 1 {
                            assert(items_view(v@)[0] == v@[0]@);
                        }
                    }
                    if v.len() == 1 {
                        return NewTypeReading::Content(Deserializer { input: &v[0], mode });
                    }
                },
                Intermediate::Mapping(v) => {
                    proof {
                        assert(entries_view(v@).len() == v@.len());
                        if v@.len() >= 1 {
                            assert(entries_view(v@)[0] == (v@[0].0@, v@[0].1@));
                        }
                    }
                    if v.len() == 1 {
                        return NewTypeReading::Content(Deserializer { input: &v[0].1, mode });
                    }
                },
                Intermediate::Struct(v) => {
                    proof {
                        assert(fields_view(v@).len() == v@.len());
                        if v@.len() >= 1 {
                            assert(fields_view(v@)[0] == (v@[0].0@, v@[0].1@));
                        }
                    }
                    if v.len() == 1 {
                        return NewTypeReading::Content(Deserializer { input: &v[0].1, mode });
                    }
                },
                Intermediate::StructVariant(_, v) => {
                    proof {
                        assert(fields_view(v@).len() == v@.len());
                        if v@.len() >= 1 {
                            assert(fields_view(v@)[0] == (v@[0].0@, v@[0].1@));
                        }
                    }
                    if v.len() == 1 {
                        return NewTypeReading::Content(Deserializer { input: &v[0].1, mode });
                    }
                },
                _ => {
                    return NewTypeReading::Content(Deserializer { input: self.input, mode });
                },
            }
        }
        NewTypeReading::Any
    }

    /// Reads the tree where an enum with the given variant names is asked
    /// for. In interpretive mode a text is read as a variant without content,
    /// and a map or struct with a single entry whose name is one of
    /// `variants` as that variant. `None` means that the tree is read as the
    /// shape that it has.
    pub fn deserialize_enum(&self, variants: &[&str]) -> (r: Option<EnumDeserializer<'a>>)
        ensures
            match r {
                Some(v) => enum_reading(self.input@, variants@, self.mode) == Some(v@),
                None => enum_reading(self.input@, variants@, self.mode).is_none(),
            },
    {
        if self.mode == DeserializeMode::Interpret {
            match self.input {
                Intermediate::String(v) => {
                    return Some(EnumDeserializer::Unit { name: v });
                },
                Intermediate::Mapping(v) => {
                    proof {
                        assert(entries_view(v@).len() == v@.len());
                        if v@.len() >= 1 {
                            assert(entries_view(v@)[0] == (v@[0].0@, v@[0].1@));
                        }
                    }
                    if v.len() == 1 {
                        if let Intermediate::String(k) = &v[0].0 {
                            if contains_variant(variants, k) {
                                return Some(variant_of_entry(k, &v[0].1, self.mode));
                            }
                        }
                    }
                },
                Intermediate::Struct(v) => {
                    proof {
                        assert(fields_view(v@).len() == v@.len());
                        if v@.len() >= 1 {
                            assert(fields_view(v@)[0] == (v@[0].0@, v@[0].1@));
                        }
                    }
                    if v.len() == 1 {
                        if contains_variant(variants, &v[0].0) {
                            return Some(variant_of_entry(&v[0].0, &v[0].1, self.mode));
                        }
                    }
                },
                _ => {},
            }
        }
        None
    }

    /// Reads the tree where an option is asked for. In interpretive mode a
    /// tree that is no option counts as present.
    pub fn deserialize_option(&self) -> (r: OptionReading<'a>)
        ensures
            match r {
                OptionReading::Present(d) => option_reading(self.input@, self.mode)
                    == OptionReadingView::Present(d.input@) && d.mode == self.mode,
                OptionReading::Absent => option_reading(self.input@, self.mode)
                    == OptionReadingView::Absent,
                OptionReading::Any => option_reading(self.input@, self.mode)
                    == OptionReadingView::Any,
            },
    {
        match self.input {
            Intermediate::Option(Some(v)) => OptionReading::Present(
                Deserializer { input: v, mode: self.mode },
            ),
            Intermediate::Option(None) => OptionReading::Absent,
            _ => {
                if self.mode == DeserializeMode::Interpret {
                    OptionReading::Present(Deserializer { input: self.input, mode: self.mode })
                } else {
                    OptionReading::Any
                }
            },
        }
    }
}

} // verus!
