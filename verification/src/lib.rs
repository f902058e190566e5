//! A structured-value serialization framework: a format-agnostic token
//! model, a shape registry describing record, enumeration and tagged-union
//! types, a generic encoder and decoder driven by those shapes, and a small
//! set of custom codec hooks that override the generic behaviour for
//! particular fields or types.

pub mod codec;
pub mod decode;
pub mod encode;
pub mod error;
pub mod hooks;
pub mod laws;
pub mod shape;
pub mod text;
pub mod token;
pub mod value;
