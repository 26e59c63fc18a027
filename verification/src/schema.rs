//! The field-type tree of a record schema, its mathematical model, and the
//! field-shape classifier.
//!
//! A schema arrives here fully resolved: every scalar's bit width and
//! default value are already known. `width_of` gives the number of bits a
//! field occupies; `default_of` gives the field's default contribution as
//! placed at bit offset zero. Both are defined over the tree exactly as the
//! synthesis algorithm consumes it.

use vstd::arithmetic::power2::{lemma_pow2_adds, lemma_pow2_pos, pow2};
use vstd::prelude::*;

verus! {

/// The type of one field of a bit-packed record.
///
/// A scalar occupies `width` bits and defaults to `default`. An array lays
/// `len` copies of its element type side by side; its length is deliberately
/// uncapped. A tuple lays its elements side by side and may be empty. A
/// composite nests another record, which behaves like a scalar whose width
/// is the nested record's total width and whose default is the nested
/// record's packed default value.
pub enum FieldType {
    Scalar { width: u64, default: u64 },
    Array { elem: Box<FieldType>, len: usize },
    Tuple { elems: Vec<FieldType> },
    Composite { record: Box<RecordSchema> },
}

/// A product-type record: an ordered field list, the names of its generic
/// type parameters, and the bit width of its underlying storage integer.
pub struct RecordSchema {
    pub fields: Vec<FieldType>,
    pub params: Vec<String>,
    pub storage_width: u64,
}

/// The top-level shape of a type asking for a synthesized default: either
/// a product-type record, which this crate handles, or a sum type, which
/// it rejects with a user-facing configuration error.
pub enum RecordShape {
    Product(RecordSchema),
    Sum,
}

/// Well-formedness of a top-level shape: a product record must satisfy
/// `wf_record`; a sum type carries nothing and is rejected before its
/// contents would matter.
pub open spec fn wf_shape(s: RecordShape) -> bool {
    match s {
        RecordShape::Product(r) => wf_record(r),
        RecordShape::Sum => true,
    }
}

/// The closed set of shapes the classifier dispatches over.
#[derive(Clone, Copy, Debug, PartialEq, Eq, Structural)]
pub enum FieldShape {
    Scalar,
    Array,
    Tuple,
    Composite,
}

/// Number of bits a field of type `t` occupies in the packed integer.
pub open spec fn width_of(t: FieldType) -> nat
    decreases t,
{
    match t {
        FieldType::Scalar { width, .. } => width as nat,
        FieldType::Array { elem, len } => (len as nat) * width_of(*elem),
        FieldType::Tuple { elems } => fields_width(elems@),
        FieldType::Composite { record } => fields_width(record.fields@),
    }
}

/// Total bit width of a field list: the sum of its fields' widths.
pub open spec fn fields_width(s: Seq<FieldType>) -> nat
    decreases s,
{
    if s.len() == 0 {
        0
    } else {
        fields_width(s.drop_last()) + width_of(s.last())
    }
}

/// The default contribution of a field of type `t`, as placed at bit
/// offset zero. Placing the field at offset `k` multiplies this value by
/// `pow2(k)`, which is what a left shift by `k` computes.
pub open spec fn default_of(t: FieldType) -> nat
    decreases t,
{
    match t {
        FieldType::Scalar { default, .. } => default as nat,
        FieldType::Array { elem, len } => array_default(
            default_of(*elem),
            width_of(*elem),
            len as nat,
        ),
        FieldType::Tuple { elems } => fields_default(elems@),
        FieldType::Composite { record } => fields_default(record.fields@),
    }
}

/// Default value of `n` copies of an element with default `d` and width
/// `w`, laid out contiguously from offset zero: copy `i` sits at offset
/// `i * w`.
pub open spec fn array_default(d: nat, w: nat, n: nat) -> nat
    decreases n,
{
    if n == 0 {
        0
    } else {
        array_default(d, w, (n - 1) as nat) + d * pow2(((n - 1) as nat) * w)
    }
}

/// Packed default value of a field list: each field's default placed at the
/// cumulative width of the fields before it.
pub open spec fn fields_default(s: Seq<FieldType>) -> nat
    decreases s,
{
    if s.len() == 0 {
        0
    } else {
        fields_default(s.drop_last()) + default_of(s.last()) * pow2(
            fields_width(s.drop_last()),
        )
    }
}

/// Well-formedness of one field type: scalar widths are positive and each
/// scalar's default value fits in its width; the condition is applied
/// recursively through arrays, tuples and nested records.
pub open spec fn wf_field(t: FieldType) -> bool
    decreases t,
{
    match t {
        FieldType::Scalar { width, default } => 1 <= width && (default as nat) < pow2(
            width as nat,
        ),
        FieldType::Array { elem, .. } => wf_field(*elem),
        FieldType::Tuple { elems } => wf_fields(elems@),
        FieldType::Composite { record } => wf_record(*record),
    }
}

/// Well-formedness of a field list.
pub open spec fn wf_fields(s: Seq<FieldType>) -> bool
    decreases s,
{
    if s.len() == 0 {
        true
    } else {
        wf_fields(s.drop_last()) && wf_field(s.last())
    }
}

/// Well-formedness of a record schema: every field is well formed, the
/// fields' widths sum to the declared storage width (guaranteed upstream by
/// the layout engine), and the storage integer is at most 64 bits wide.
pub open spec fn wf_record(r: RecordSchema) -> bool
    decreases r,
{
    &&& wf_fields(r.fields@)
    &&& fields_width(r.fields@) == r.storage_width as nat
    &&& r.storage_width <= 64
}

/// Total bit width of a record.
pub open spec fn record_width(r: RecordSchema) -> nat {
    fields_width(r.fields@)
}

/// Packed default value of a record: its fields' defaults at their declared
/// offsets, starting from offset zero.
pub open spec fn record_default(r: RecordSchema) -> nat {
    fields_default(r.fields@)
}

impl FieldType {
    /// The shape of this field type, as a spec-level value.
    pub open spec fn shape(self) -> FieldShape {
        match self {
            FieldType::Scalar { .. } => FieldShape::Scalar,
            FieldType::Array { .. } => FieldShape::Array,
            FieldType::Tuple { .. } => FieldShape::Tuple,
            FieldType::Composite { .. } => FieldShape::Composite,
        }
    }
}

/// A well-formed field's default value fits in the field's width: the bits
/// of `default_of(t)` all lie below bit `width_of(t)`.
pub proof fn lemma_default_bounded(t: FieldType)
    requires
        wf_field(t),
    ensures
        default_of(t) < pow2(width_of(t)),
    decreases t,
{
    match t {
        FieldType::Scalar { .. } => {},
        FieldType::Array { elem, len } => {
            lemma_default_bounded(*elem);
            lemma_array_default_bounded(default_of(*elem), width_of(*elem), len as nat);
        },
        FieldType::Tuple { elems } => {
            lemma_fields_default_bounded(elems@);
        },
        FieldType::Composite { record } => {
            assert(wf_record(*record));
            lemma_fields_default_bounded(record.fields@);
        },
    }
}

/// The packed default of `n` contiguous copies of an element fits in the
/// array's total width `n * w`.
pub proof fn lemma_array_default_bounded(d: nat, w: nat, n: nat)
    requires
        d < pow2(w),
    ensures
        array_default(d, w, n) < pow2(n * w),
    decreases n,
{
    if n == 0 {
        lemma_pow2_pos(0);
    } else {
        let m: nat = (n - 1) as nat;
        lemma_array_default_bounded(d, w, m);
        lemma_pow2_adds(w, m * w);
        lemma_pow2_pos(m * w);
        let p: nat = pow2(m * w);
        let q: nat = pow2(w);
        assert(n * w == w + m * w) by (nonlinear_arith)
            requires
                n == m + 1,
        ;
        assert(array_default(d, w, m) + d * p < q * p) by (nonlinear_arith)
            requires
                array_default(d, w, m) < p,
                d < q,
                p > 0,
        ;
    }
}

/// The packed default of a field list fits in the list's total width.
pub proof fn lemma_fields_default_bounded(s: Seq<FieldType>)
    requires
        wf_fields(s),
    ensures
        fields_default(s) < pow2(fields_width(s)),
    decreases s,
{
    if s.len() == 0 {
        lemma_pow2_pos(0);
    } else {
        lemma_fields_default_bounded(s.drop_last());
        lemma_default_bounded(s.last());
        let p: nat = pow2(fields_width(s.drop_last()));
        let q: nat = pow2(width_of(s.last()));
        lemma_pow2_adds(fields_width(s.drop_last()), width_of(s.last()));
        lemma_pow2_pos(fields_width(s.drop_last()));
        assert(fields_default(s.drop_last()) + default_of(s.last()) * p < p * q)
            by (nonlinear_arith)
            requires
                fields_default(s.drop_last()) < p,
                default_of(s.last()) < q,
                p > 0,
        ;
    }
}

/// Walking a well-formed field list front to back: every prefix is well
/// formed, prefix widths never exceed the total, and extending a prefix by
/// the next field grows its width by exactly that field's width.
pub proof fn lemma_fields_prefix(s: Seq<FieldType>, i: int)
    requires
        wf_fields(s),
        0 <= i <= s.len(),
    ensures
        wf_fields(s.take(i)),
        fields_width(s.take(i)) <= fields_width(s),
        i < s.len() ==> wf_field(s[i]) && fields_width(s.take(i)) + width_of(s[i])
            == fields_width(s.take(i + 1)),
    decreases s.len() - i,
{
    if i == s.len() {
        assert(s.take(i) =~= s);
    } else {
        lemma_fields_prefix(s, i + 1);
        assert(s.take(i + 1).drop_last() =~= s.take(i));
        assert(s.take(i + 1).last() == s[i]);
    }
}

/// Field-type classifier: dispatches one field's type to exactly one of the
/// four shapes. The shape set is closed, so classification is total; a
/// field-type tree can hold no other shape, and the internal-invariant
/// failure of an open shape set cannot arise.
pub fn classify(t: &FieldType) -> (s: FieldShape)
    ensures
        s == t.shape(),
{
    match t {
        FieldType::Scalar { .. } => FieldShape::Scalar,
        FieldType::Array { .. } => FieldShape::Array,
        FieldType::Tuple { .. } => FieldShape::Tuple,
        FieldType::Composite { .. } => FieldShape::Composite,
    }
}

} // verus!
