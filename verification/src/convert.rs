//! Conversions of plain values into trees.

use crate::value::{Intermediate, IntermediateView};
use vstd::prelude::*;
use vstd::std_specs::convert::FromSpecImpl;

verus! {

impl From<()> for Intermediate {
    fn from(v: ()) -> (r: Self) {
        Intermediate::Unit
    }
}

impl FromSpecImpl<()> for Intermediate {
    open spec fn obeys_from_spec() -> bool {
        true
    }

    open spec fn from_spec(v: ()) -> Self {
        Intermediate::Unit
    }
}

impl From<bool> for Intermediate {
    fn from(v: bool) -> (r: Self) {
        Intermediate::Bool(v)
    }
}

impl FromSpecImpl<bool> for Intermediate {
    open spec fn obeys_from_spec() -> bool {
        true
    }

    open spec fn from_spec(v: bool) -> Self {
        Intermediate::Bool(v)
    }
}

impl From<i8> for Intermediate {
    fn from(v: i8) -> (r: Self) {
        Intermediate::I8(v)
    }
}

impl FromSpecImpl<i8> for Intermediate {
    open spec fn obeys_from_spec() -> bool {
        true
    }

    open spec fn from_spec(v: i8) -> Self {
        Intermediate::I8(v)
    }
}

impl From<i16> for Intermediate {
    fn from(v: i16) -> (r: Self) {
        Intermediate::I16(v)
    }
}

impl FromSpecImpl<i16> for Intermediate {
    open spec fn obeys_from_spec() -> bool {
        true
    }

    open spec fn from_spec(v: i16) -> Self {
        Intermediate::I16(v)
    }
}

impl From<i32> for Intermediate {
    fn from(v: i32) -> (r: Self) {
        Intermediate::I32(v)
    }
}

impl FromSpecImpl<i32> for Intermediate {
    open spec fn obeys_from_spec() -> bool {
        true
    }

    open spec fn from_spec(v: i32) -> Self {
        Intermediate::I32(v)
    }
}

impl From<i64> for Intermediate {
    fn from(v: i64) -> (r: Self) {
        Intermediate::I64(v)
    }
}

impl FromSpecImpl<i64> for Intermediate {
    open spec fn obeys_from_spec() -> bool {
        true
    }

    open spec fn from_spec(v: i64) -> Self {
        Intermediate::I64(v)
    }
}

impl From<i128> for Intermediate {
    fn from(v: i128) -> (r: Self) {
        Intermediate::I128(v)
    }
}

impl FromSpecImpl<i128> for Intermediate {
    open spec fn obeys_from_spec() -> bool {
        true
    }

    open spec fn from_spec(v: i128) -> Self {
        Intermediate::I128(v)
    }
}

impl From<u8> for Intermediate {
    fn from(v: u8) -> (r: Self) {
        Intermediate::U8(v)
    }
}

impl FromSpecImpl<u8> for Intermediate {
    open spec fn obeys_from_spec() -> bool {
        true
    }

    open spec fn from_spec(v: u8) -> Self {
        Intermediate::U8(v)
    }
}

impl From<u16> for Intermediate {
    fn from(v: u16) -> (r: Self) {
        Intermediate::U16(v)
    }
}

impl FromSpecImpl<u16> for Intermediate {
    open spec fn obeys_from_spec() -> bool {
        true
    }

    open spec fn from_spec(v: u16) -> Self {
        Intermediate::U16(v)
    }
}

impl From<u32> for Intermediate {
    fn from(v: u32) -> (r: Self) {
        Intermediate::U32(v)
    }
}

impl FromSpecImpl<u32> for Intermediate {
    open spec fn obeys_from_spec() -> bool {
        true
    }

    open spec fn from_spec(v: u32) -> Self {
        Intermediate::U32(v)
    }
}

impl From<u64> for Intermediate {
    fn from(v: u64) -> (r: Self) {
        Intermediate::U64(v)
    }
}

impl FromSpecImpl<u64> for Intermediate {
    open spec fn obeys_from_spec() -> bool {
        true
    }

    open spec fn from_spec(v: u64) -> Self {
        Intermediate::U64(v)
    }
}

impl From<u128> for Intermediate {
    fn from(v: u128) -> (r: Self) {
        Intermediate::U128(v)
    }
}

impl FromSpecImpl<u128> for Intermediate {
    open spec fn obeys_from_spec() -> bool {
        true
    }

    open spec fn from_spec(v: u128) -> Self {
        Intermediate::U128(v)
    }
}

impl From<char> for Intermediate {
    fn from(v: char) -> (r: Self) {
        Intermediate::Char(v)
    }
}

impl FromSpecImpl<char> for Intermediate {
    open spec fn obeys_from_spec() -> bool {
        true
    }

    open spec fn from_spec(v: char) -> Self {
        Intermediate::Char(v)
    }
}

impl From<String> for Intermediate {
    fn from(v: String) -> (r: Self) {
        Intermediate::String(v)
    }
}

impl FromSpecImpl<String> for Intermediate {
    open spec fn obeys_from_spec() -> bool {
        true
    }

    open spec fn from_spec(v: String) -> Self {
        Intermediate::String(v)
    }
}

impl From<Vec<u8>> for Intermediate {
    fn from(v: Vec<u8>) -> (r: Self) {
        Intermediate::Bytes(v)
    }
}

impl FromSpecImpl<Vec<u8>> for Intermediate {
    open spec fn obeys_from_spec() -> bool {
        true
    }

    open spec fn from_spec(v: Vec<u8>) -> Self {
        Intermediate::Bytes(v)
    }
}

impl From<Vec<Intermediate>> for Intermediate {
    fn from(v: Vec<Intermediate>) -> (r: Self) {
        Intermediate::Sequence(v)
    }
}

impl FromSpecImpl<Vec<Intermediate>> for Intermediate {
    open spec fn obeys_from_spec() -> bool {
        true
    }

    open spec fn from_spec(v: Vec<Intermediate>) -> Self {
        Intermediate::Sequence(v)
    }
}

impl From<isize> for Intermediate {
    fn from(v: isize) -> (r: Self) {
        Intermediate::I64(v as i64)
    }
}

impl FromSpecImpl<isize> for Intermediate {
    open spec fn obeys_from_spec() -> bool {
        true
    }

    open spec fn from_spec(v: isize) -> Self {
        Intermediate::I64(v as i64)
    }
}

impl From<usize> for Intermediate {
    fn from(v: usize) -> (r: Self) {
        Intermediate::U64(v as u64)
    }
}

impl FromSpecImpl<usize> for Intermediate {
    open spec fn obeys_from_spec() -> bool {
        true
    }

    open spec fn from_spec(v: usize) -> Self {
        Intermediate::U64(v as u64)
    }
}

impl From<&str> for Intermediate {
    fn from(v: &str) -> (r: Self)
        ensures
            r@ == IntermediateView::String(v@),
    {
        Intermediate::String(v.to_owned())
    }
}

impl FromSpecImpl<&str> for Intermediate {
    open spec fn obeys_from_spec() -> bool {
        false
    }

    open spec fn from_spec(v: &str) -> Self {
        Intermediate::Unit
    }
}

impl From<Option<Intermediate>> for Intermediate {
    fn from(v: Option<Intermediate>) -> (r: Self) {
        match v {
            Some(content) => Intermediate::Option(Some(Box::new(content))),
            None => Intermediate::Option(None),
        }
    }
}

impl FromSpecImpl<Option<Intermediate>> for Intermediate {
    open spec fn obeys_from_spec() -> bool {
        true
    }

    open spec fn from_spec(v: Option<Intermediate>) -> Self {
        match v {
            Some(content) => Intermediate::Option(Some(Box::new(content))),
            None => Intermediate::Option(None),
        }
    }
}

impl From<Result<Intermediate, Intermediate>> for Intermediate {
    fn from(v: Result<Intermediate, Intermediate>) -> (r: Self)
        ensures
            r@ == match v {
                Ok(content) => IntermediateView::NewTypeVariant("Ok"@, Box::new(content@)),
                Err(content) => IntermediateView::NewTypeVariant("Err"@, Box::new(content@)),
            },
    {
        match v {
            Ok(content) => Intermediate::NewTypeVariant("Ok".to_owned(), Box::new(content)),
            Err(content) => Intermediate::NewTypeVariant("Err".to_owned(), Box::new(content)),
        }
    }
}

impl FromSpecImpl<Result<Intermediate, Intermediate>> for Intermediate {
    open spec fn obeys_from_spec() -> bool {
        false
    }

    open spec fn from_spec(v: Result<Intermediate, Intermediate>) -> Self {
        Intermediate::Unit
    }
}

} // verus!
