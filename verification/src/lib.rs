//! Helpers for generating destructuring match patterns over struct and enum
//! definitions.
//!
//! Given a structural description of a user-defined type, this library
//! synthesizes, for every variant, a match-arm pattern that binds each field
//! to a fresh, positionally named local, and hands the caller one
//! [`BindingInfo`] record per field so that repetitive field-wise code
//! (serialization, hashing, summation, ...) can be emitted uniformly over
//! unit, tuple and named field shapes.

pub mod binding;
pub mod descriptor;
pub mod idents;
pub mod options;
pub mod pattern;
pub mod substructs;
pub mod tokens;

pub use binding::BindingInfo;
pub use descriptor::Body;
pub use descriptor::Field;
pub use descriptor::FieldShape;
pub use descriptor::TypeDescriptor;
pub use descriptor::Variant;
pub use idents::binding_ident;
pub use options::BindOpts;
pub use options::BindStyle;
pub use pattern::match_pattern;
pub use substructs::each_field;
pub use substructs::match_substructs;
pub use tokens::Tokens;
