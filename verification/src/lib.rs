//! Default-value synthesis for bit-packed records.
//!
//! A record packs its logical fields contiguously into one fixed-width
//! unsigned integer; each field occupies a statically known number of bits
//! at a statically known offset. Given a fully resolved schema of field
//! types (scalars of a given bit width, fixed-size arrays, tuples, and
//! nested records), this crate computes the single packed integer that
//! represents "every field at its default value", together with the
//! auxiliary bounds required of the record's generic type parameters.

pub mod assemble;
pub mod bounds;
pub mod laws;
pub mod schema;
pub mod synth;
