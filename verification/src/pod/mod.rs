//! Pods: typed values in their binary interchange format.

pub mod builder;
pub mod canonical;
pub mod deserialize;
pub mod frames;
pub mod iter;
pub mod laws;
pub mod model;
pub mod padding;
pub mod parser;
mod private;
pub mod reader;
pub mod roundtrip;
pub mod serialize;
pub mod value;
pub mod wire;

pub use canonical::{CanonicalFixedSizedPod, FixedSizedPod};
pub use reader::Pod;
pub use value::{ChoiceValue, Object, Property, Value, ValueArray};
pub use crate::utils::flags::PropertyFlags;
