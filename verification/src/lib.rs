//! Typed values and their self-describing binary interchange format ("pods"):
//! a reader over borrowed bytes, a builder with back-patched container
//! frames, and a serializer/deserializer pair for a tree of values.

pub mod arith;
pub mod channel;
pub mod param;
pub mod pod;
pub mod state;
pub mod utils;
