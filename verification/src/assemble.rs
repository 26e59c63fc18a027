//! The record assembler and the top-level entry point.
//!
//! The assembler folds the per-field contributions of one record into a
//! single packed value (bit-OR reduction, empty field list gives 0), wraps
//! it in the record's storage width, and attaches the injected generic
//! bounds. The entry point additionally rejects sum-type inputs with a
//! user-facing error; that and an internal invariant breach are the only
//! failure modes, and the closed field-shape set rules the latter out here.

use crate::bounds::{bounds_for, inject_bounds, ParamBound};
use crate::schema::{
    lemma_fields_default_bounded, record_default, wf_record, wf_shape, RecordSchema, RecordShape,
};
use crate::synth::assemble_fields;
use vstd::arithmetic::power2::{lemma2_to64, pow2};
use vstd::prelude::*;

verus! {

/// Why default synthesis can fail for a top-level input.
#[derive(Clone, Copy, Debug, PartialEq, Eq, Structural)]
pub enum SynthError {
    /// The input is a sum type rather than a product-type record; the
    /// caller must use the sum-type default mechanism instead.
    UnsupportedShape,
}

impl SynthError {
    /// The corrective instruction shown to the user for this error.
    pub fn message(&self) -> (m: &'static str)
        ensures
            m@ == "use derive(Default) for enums"@,
    {
        "use derive(Default) for enums"
    }
}

/// A record's synthesized default instance: the packed value, the width of
/// the storage integer it lives in, and the auxiliary bounds required of
/// the record's generic type parameters.
#[derive(Debug)]
pub struct DefaultRecord {
    pub value: u64,
    pub width: u64,
    pub bounds: Vec<ParamBound>,
}

/// Assemble the default instance of one record: synthesize every field's
/// contribution in declaration order with one shared offset accumulator
/// starting at zero, bit-OR-reduce them, and attach the injected generic
/// bounds. The result is exactly the record's packed default value, and it
/// fits the declared storage width.
pub fn assemble_record(rec: &RecordSchema) -> (r: DefaultRecord)
    requires
        wf_record(*rec),
    ensures
        (r.value as nat) == record_default(*rec),
        (r.value as nat) < pow2(rec.storage_width as nat),
        r.width == rec.storage_width,
        bounds_for(rec.params@, r.bounds@),
{
    let (value, _total) = assemble_fields(&rec.fields, 0);
    proof {
        lemma2_to64();
        lemma_fields_default_bounded(rec.fields@);
        assert((value as nat) == record_default(*rec)) by (nonlinear_arith)
            requires
                (value as nat) == record_default(*rec) * pow2(0),
                pow2(0) == 1,
        ;
    }
    let bounds = inject_bounds(&rec.params);
    DefaultRecord { value, width: rec.storage_width, bounds }
}

/// Synthesize the default instance for a top-level shape. A product-type
/// record always succeeds and yields its packed default; a sum type is
/// rejected with `UnsupportedShape`, and nothing else ever fails.
pub fn synthesize_default(shape: &RecordShape) -> (r: Result<DefaultRecord, SynthError>)
    requires
        wf_shape(*shape),
    ensures
        match *shape {
            RecordShape::Product(rec) => r matches Ok(d) && (d.value as nat) == record_default(rec)
                && (d.value as nat) < pow2(rec.storage_width as nat) && d.width
                == rec.storage_width && bounds_for(rec.params@, d.bounds@),
            RecordShape::Sum => r matches Err(e) && e == SynthError::UnsupportedShape,
        },
{
    match shape {
        RecordShape::Product(rec) => Ok(assemble_record(rec)),
        RecordShape::Sum => Err(SynthError::UnsupportedShape),
    }
}

} // verus!
