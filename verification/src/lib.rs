//! A host-independent tree representation of encodable values, together with
//! a structural diff and patch engine over such trees.

pub mod builder;
pub mod convert;
pub mod de;
pub mod error;
pub mod schema;
pub mod ser;
pub mod size;
pub mod text;
pub mod value;
pub mod versioning;

pub use crate::de::DeserializeMode;
pub use crate::error::Error;
pub use crate::schema::{SchemaIdContainer, SchemaIntermediate, SchemaPackage};
pub use crate::text::{TextConfig, TextConfigStyle};
pub use crate::value::Intermediate;
pub use crate::versioning::{Change, DiffOptimizationHint, DiffOptions};
