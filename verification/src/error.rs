//! Failures returned by decoding and patching.

use crate::value::{Intermediate, IntermediateView};
use vstd::prelude::*;

verus! {

/// Mathematical model of an [`Error`].
pub enum ErrorView {
    Message(Seq<char>),
    ExpectedMapEntry,
    ExpectedStructField,
    ExpectedUnitVariant,
    ExpectedNewTypeVariant,
    ExpectedTupleVariant,
    ExpectedStructVariant,
    NotPartial(IntermediateView),
    NotSeq(IntermediateView),
    NotTuple(IntermediateView),
    NotMap(IntermediateView),
    NotStruct(IntermediateView),
    CannotAdd(IntermediateView),
    CannotRemove(IntermediateView),
    InvalidSize(IntermediateView, usize, usize),
}

/// A failure of decoding or patching. Patch failures carry the offending
/// value.
#[derive(Debug)]
pub enum Error {
    /// A message passed through from a numeric or text conversion.
    Message(String),
    /// No reading of the value yields a map entry.
    ExpectedMapEntry,
    /// No reading of the value yields a struct field.
    ExpectedStructField,
    /// No reading of the value yields a unit variant.
    ExpectedUnitVariant,
    /// No reading of the value yields a newtype variant.
    ExpectedNewTypeVariant,
    /// No reading of the value yields a tuple variant.
    ExpectedTupleVariant,
    /// No reading of the value yields a struct variant.
    ExpectedStructVariant,
    /// A content change was applied to a value without single content.
    NotPartial(Intermediate),
    /// A positional change was applied to a value that is no list.
    NotSeq(Intermediate),
    /// The value is not a tuple.
    NotTuple(Intermediate),
    /// A keyed change was applied to a value without keyed entries.
    NotMap(Intermediate),
    /// The value is not a struct.
    NotStruct(Intermediate),
    /// An addition was applied at the root.
    CannotAdd(Intermediate),
    /// A removal was applied where nothing can be removed.
    CannotRemove(Intermediate),
    /// The value has the wrong size: `(value, old size, new size)`.
    InvalidSize(Intermediate, usize, usize),
}

impl View for Error {
    type V = ErrorView;

    open spec fn view(&self) -> ErrorView {
        match self {
            Error::Message(m) => ErrorView::Message(m@),
            Error::ExpectedMapEntry => ErrorView::ExpectedMapEntry,
            Error::ExpectedStructField => ErrorView::ExpectedStructField,
            Error::ExpectedUnitVariant => ErrorView::ExpectedUnitVariant,
            Error::ExpectedNewTypeVariant => ErrorView::ExpectedNewTypeVariant,
            Error::ExpectedTupleVariant => ErrorView::ExpectedTupleVariant,
            Error::ExpectedStructVariant => ErrorView::ExpectedStructVariant,
            Error::NotPartial(v) => ErrorView::NotPartial(v@),
            Error::NotSeq(v) => ErrorView::NotSeq(v@),
            Error::NotTuple(v) => ErrorView::NotTuple(v@),
            Error::NotMap(v) => ErrorView::NotMap(v@),
            Error::NotStruct(v) => ErrorView::NotStruct(v@),
            Error::CannotAdd(v) => ErrorView::CannotAdd(v@),
            Error::CannotRemove(v) => ErrorView::CannotRemove(v@),
            Error::InvalidSize(v, a, b) => ErrorView::InvalidSize(v@, *a, *b),
        }
    }
}

/// The text that describes a failure.
pub open spec fn message_of(e: ErrorView) -> Seq<char> {
    match e {
        ErrorView::Message(m) => m,
        ErrorView::ExpectedMapEntry => "expected map entry"@,
        ErrorView::ExpectedStructField => "expected struct field"@,
        ErrorView::ExpectedUnitVariant => "expected unit variant"@,
        ErrorView::ExpectedNewTypeVariant => "expected newtype variant"@,
        ErrorView::ExpectedTupleVariant => "expected tuple variant"@,
        ErrorView::ExpectedStructVariant => "expected struct variant"@,
        ErrorView::NotPartial(_) => "value is not a partial"@,
        ErrorView::NotSeq(_) => "value is not a sequence"@,
        ErrorView::NotTuple(_) => "value is not a tuple"@,
        ErrorView::NotMap(_) => "value is not a map"@,
        ErrorView::NotStruct(_) => "value is not a struct"@,
        ErrorView::CannotAdd(_) => "cannot add value here"@,
        ErrorView::CannotRemove(_) => "cannot remove value here"@,
        ErrorView::InvalidSize(_, _, _) => "invalid size here"@,
    }
}

impl Error {
    /// The text that describes this failure.
    pub fn message(&self) -> (r: String)
        ensures
            r@ == message_of(self@),
    {
        match self {
            Error::Message(m) => m.clone(),
            Error::ExpectedMapEntry => "expected map entry".to_owned(),
            Error::ExpectedStructField => "expected struct field".to_owned(),
            Error::ExpectedUnitVariant => "expected unit variant".to_owned(),
            Error::ExpectedNewTypeVariant => "expected newtype variant".to_owned(),
            Error::ExpectedTupleVariant => "expected tuple variant".to_owned(),
            Error::ExpectedStructVariant => "expected struct variant".to_owned(),
            Error::NotPartial(_) => "value is not a partial".to_owned(),
            Error::NotSeq(_) => "value is not a sequence".to_owned(),
            Error::NotTuple(_) => "value is not a tuple".to_owned(),
            Error::NotMap(_) => "value is not a map".to_owned(),
            Error::NotStruct(_) => "value is not a struct".to_owned(),
            Error::CannotAdd(_) => "cannot add value here".to_owned(),
            Error::CannotRemove(_) => "cannot remove value here".to_owned(),
            Error::InvalidSize(_, _, _) => "invalid size here".to_owned(),
        }
    }
}

impl Clone for Error {
    fn clone(&self) -> (r: Self)
        ensures
            r@ == self@,
    {
        match self {
            Error::Message(m) => Error::Message(m.clone()),
            Error::ExpectedMapEntry => Error::ExpectedMapEntry,
            Error::ExpectedStructField => Error::ExpectedStructField,
            Error::ExpectedUnitVariant => Error::ExpectedUnitVariant,
            Error::ExpectedNewTypeVariant => Error::ExpectedNewTypeVariant,
            Error::ExpectedTupleVariant => Error::ExpectedTupleVariant,
            Error::ExpectedStructVariant => Error::ExpectedStructVariant,
            Error::NotPartial(v) => Error::NotPartial(v.clone()),
            Error::NotSeq(v) => Error::NotSeq(v.clone()),
            Error::NotTuple(v) => Error::NotTuple(v.clone()),
            Error::NotMap(v) => Error::NotMap(v.clone()),
            Error::NotStruct(v) => Error::NotStruct(v.clone()),
            Error::CannotAdd(v) => Error::CannotAdd(v.clone()),
            Error::CannotRemove(v) => Error::CannotRemove(v.clone()),
            Error::InvalidSize(v, a, b) => Error::InvalidSize(v.clone(), *a, *b),
        }
    }
}

} // verus!
