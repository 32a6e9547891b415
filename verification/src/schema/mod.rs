//! Descriptions of the shape of types.

pub mod grammar;
pub mod id;
pub mod parse;
pub mod types;

pub use id::{SchemaId, SchemaIdContainer, SchemaIdTree};
pub use types::{
    Schema, SchemaIntermediate, SchemaPackage, SchemaType, SchemaTypeArrayOrSlice, SchemaTypeEnum,
    SchemaTypeEnumVariant, SchemaTypeInstance, SchemaTypeStruct, SchemaTypeTuple,
};
