//! Packing laws: the bit-OR reading of the synthesized default values.
//!
//! The specification functions in `schema` describe packed defaults as
//! sums of shifted field defaults. Because every placement is disjoint,
//! those sums are equally the bit-OR folds that the synthesizer computes;
//! the lemmas here state that reading, field by field and array element by
//! array element, together with the tuple edge cases and the equivalence
//! of a nested record with a scalar of the same width and default.

use crate::schema::{
    array_default, default_of, fields_default, fields_width, lemma_array_default_bounded,
    lemma_default_bounded, lemma_fields_default_bounded, record_default, record_width, wf_field,
    wf_fields, width_of, FieldType,
};
use crate::synth::lemma_disjoint_or_is_add;
use crate::schema::lemma_fields_prefix;
use vstd::arithmetic::div_mod::{
    lemma_fundamental_div_mod_converse_div, lemma_hoist_over_denominator,
    lemma_mod_multiples_basic, lemma_mod_multiples_vanish, lemma_small_mod,
};
use vstd::arithmetic::power2::{
    lemma2_to64, lemma2_to64_rest, lemma_pow2_adds, lemma_pow2_pos, lemma_pow2_strictly_increases,
    pow2,
};
use vstd::prelude::*;

verus! {

/// The bit-OR fold of a field list's contributions, each field's default
/// placed at `off` plus the cumulative width of the fields before it.
pub open spec fn or_pack(s: Seq<FieldType>, off: nat) -> u64
    decreases s,
{
    if s.len() == 0 {
        0u64
    } else {
        or_pack(s.drop_last(), off) | ((default_of(s.last()) * pow2(
            off + fields_width(s.drop_last()),
        )) as u64)
    }
}

/// The bit-OR fold of `n` copies of an array element's default, copy `i`
/// placed at `off + i * w`.
pub open spec fn or_array(d: nat, w: nat, n: nat, off: nat) -> u64
    decreases n,
{
    if n == 0 {
        0u64
    } else {
        or_array(d, w, (n - 1) as nat, off) | ((d * pow2(off + ((n - 1) as nat) * w)) as u64)
    }
}

/// A packed field list equals the bit-OR of each field's shifted default:
/// placing a well-formed field list at offset `off` yields a value that
/// fits in 64 bits and is exactly the bit-OR of `default << offset_i` over
/// all fields, where `offset_i` is `off` plus the cumulative width of the
/// fields before field `i`. In particular this holds for records with only
/// scalar fields.
pub proof fn lemma_packed_is_field_or(s: Seq<FieldType>, off: nat)
    requires
        wf_fields(s),
        off + fields_width(s) <= 64,
    ensures
        fields_default(s) * pow2(off) < pow2(64),
        (fields_default(s) * pow2(off)) as u64 == or_pack(s, off),
    decreases s,
{
    lemma2_to64();
    lemma2_to64_rest();
    lemma_pow2_pos(off);
    if s.len() == 0 {
        assert(fields_default(s) * pow2(off) == 0) by (nonlinear_arith)
            requires
                fields_default(s) == 0,
        ;
    } else {
        let bl = s.drop_last();
        let t = s.last();
        let wbl: nat = fields_width(bl);
        let wt: nat = width_of(t);
        let d: nat = default_of(t);
        lemma_packed_is_field_or(bl, off);
        lemma_default_bounded(t);
        lemma_fields_default_bounded(bl);
        lemma_pow2_adds(off, wbl);
        lemma_pow2_adds(off + wbl, wt);
        lemma_fields_default_bounded(s);
        lemma_pow2_adds(off, wbl + wt);
        if off + wbl + wt < 64 {
            lemma_pow2_strictly_increases(off + wbl + wt, 64);
        }
        let a: nat = fields_default(bl) * pow2(off);
        let c: nat = d * pow2(off + wbl);
        assert(a < pow2(off + wbl) && c < pow2(off + wbl) * pow2(wt)) by (nonlinear_arith)
            requires
                a == fields_default(bl) * pow2(off),
                fields_default(bl) < pow2(wbl),
                pow2(off) > 0,
                pow2(off + wbl) == pow2(off) * pow2(wbl),
                c == d * pow2(off + wbl),
                d < pow2(wt),
                pow2(off + wbl) > 0,
        ;
        assert(fields_default(s) * pow2(off) == a + c) by (nonlinear_arith)
            requires
                fields_default(s) == fields_default(bl) + d * pow2(wbl),
                a == fields_default(bl) * pow2(off),
                c == d * pow2(off + wbl),
                pow2(off + wbl) == pow2(off) * pow2(wbl),
        ;
        let au: u64 = a as u64;
        let cu: u64 = c as u64;
        if cu == 0 {
            assert(au | cu == au) by (bit_vector)
                requires
                    cu == 0u64,
            ;
        } else {
            // a zero-width last field would force a zero contribution,
            // so here the field is at least one bit wide
            assert(d >= 1) by (nonlinear_arith)
                requires
                    c == d * pow2(off + wbl),
                    c != 0,
            ;
            assert(wt >= 1);
            lemma_mod_multiples_basic(d as int, pow2(off + wbl) as int);
            lemma_disjoint_or_is_add(au, cu, off + wbl);
        }
    }
}

/// An array field's contribution equals the bit-OR of `n` copies of the
/// element's shifted default, copy `i` placed at `off + i * w`; the length
/// `n` is not capped. The contribution fits in 64 bits whenever the
/// array's total width does.
pub proof fn lemma_array_is_element_or(d: nat, w: nat, n: nat, off: nat)
    requires
        d < pow2(w),
        off + n * w <= 64,
    ensures
        array_default(d, w, n) * pow2(off) < pow2(64),
        (array_default(d, w, n) * pow2(off)) as u64 == or_array(d, w, n, off),
    decreases n,
{
    lemma2_to64();
    lemma2_to64_rest();
    lemma_pow2_pos(off);
    if n == 0 {
        assert(array_default(d, w, n) * pow2(off) == 0) by (nonlinear_arith)
            requires
                array_default(d, w, n) == 0,
        ;
    } else {
        let m: nat = (n - 1) as nat;
        assert(m * w + w == n * w) by (nonlinear_arith)
            requires
                n == m + 1,
        ;
        lemma_array_is_element_or(d, w, m, off);
        lemma_array_default_bounded(d, w, m);
        lemma_array_default_bounded(d, w, n);
        lemma_pow2_adds(off, m * w);
        lemma_pow2_adds(off + m * w, w);
        lemma_pow2_adds(off, n * w);
        if off + n * w < 64 {
            lemma_pow2_strictly_increases(off + n * w, 64);
        }
        let a: nat = array_default(d, w, m) * pow2(off);
        let c: nat = d * pow2(off + m * w);
        assert(a < pow2(off + m * w) && c < pow2(off + m * w) * pow2(w)) by (nonlinear_arith)
            requires
                a == array_default(d, w, m) * pow2(off),
                array_default(d, w, m) < pow2(m * w),
                pow2(off) > 0,
                pow2(off + m * w) == pow2(off) * pow2(m * w),
                c == d * pow2(off + m * w),
                d < pow2(w),
                pow2(off + m * w) > 0,
        ;
        assert(array_default(d, w, n) * pow2(off) == a + c) by (nonlinear_arith)
            requires
                array_default(d, w, n) == array_default(d, w, m) + d * pow2(m * w),
                a == array_default(d, w, m) * pow2(off),
                c == d * pow2(off + m * w),
                pow2(off + m * w) == pow2(off) * pow2(m * w),
        ;
        let au: u64 = a as u64;
        let cu: u64 = c as u64;
        if cu == 0 {
            assert(au | cu == au) by (bit_vector)
                requires
                    cu == 0u64,
            ;
        } else {
            assert(d >= 1) by (nonlinear_arith)
                requires
                    c == d * pow2(off + m * w),
                    c != 0,
            ;
            assert(w >= 1);
            lemma_mod_multiples_basic(d as int, pow2(off + m * w) as int);
            lemma_disjoint_or_is_add(au, cu, off + m * w);
        }
    }
}

/// An array field's contribution equals the bit-OR of its element's
/// shifted default contribution at each of the `len` sequential slots,
/// whatever the length; stated over the field itself.
pub proof fn lemma_array_law(t: FieldType, off: nat)
    requires
        t matches FieldType::Array { .. },
        wf_field(t),
        off + width_of(t) <= 64,
    ensures
        t matches FieldType::Array { elem, len } ==> {
            &&& default_of(t) * pow2(off) < pow2(64)
            &&& (default_of(t) * pow2(off)) as u64 == or_array(
                default_of(*elem),
                width_of(*elem),
                len as nat,
                off,
            )
        },
{
    match t {
        FieldType::Array { elem, len } => {
            lemma_default_bounded(*elem);
            lemma_array_is_element_or(default_of(*elem), width_of(*elem), len as nat, off);
        },
        _ => {},
    }
}

/// Tuple contributions: a zero-element tuple contributes exactly 0 and
/// consumes 0 offset bits, and a non-empty tuple's contribution is the
/// bit-OR of its elements' shifted defaults at sequential offsets.
pub proof fn lemma_tuple_law(t: FieldType, off: nat)
    requires
        t matches FieldType::Tuple { .. },
        wf_field(t),
        off + width_of(t) <= 64,
    ensures
        t matches FieldType::Tuple { elems } ==> {
            &&& elems@.len() == 0 ==> default_of(t) == 0 && width_of(t) == 0
            &&& default_of(t) * pow2(off) < pow2(64)
            &&& (default_of(t) * pow2(off)) as u64 == or_pack(elems@, off)
        },
{
    match t {
        FieldType::Tuple { elems } => {
            lemma_packed_is_field_or(elems@, off);
            if elems@.len() == 0 {
                assert(fields_width(elems@) == 0);
            }
        },
        _ => {},
    }
}

/// A nested record behaves exactly like a scalar field of the nested
/// record's total bit width whose default is the nested record's packed
/// default: its width and its contribution at every offset coincide with
/// that scalar's. Together with `lemma_fields_congruent` this lets any
/// composite field be replaced by such a scalar without changing the
/// enclosing record's packed default.
pub proof fn lemma_composite_acts_as_scalar(c: FieldType)
    requires
        c matches FieldType::Composite { .. },
    ensures
        c matches FieldType::Composite { record } ==> width_of(c) == record_width(*record)
            && default_of(c) == record_default(*record),
{
}

/// Bit offset of field `i` of a field list: the cumulative width of the
/// fields before it.
pub open spec fn offset_of(s: Seq<FieldType>, i: int) -> nat {
    fields_width(s.take(i))
}

/// The packed default decomposes field by field: shifting the packed value
/// right by field `i`'s declared offset and masking to field `i`'s width
/// (here: dividing by `pow2(offset)` and reducing modulo `pow2(width)`)
/// recovers exactly field `i`'s own default value.
pub proof fn lemma_field_extraction(s: Seq<FieldType>, i: int)
    requires
        wf_fields(s),
        0 <= i < s.len(),
    ensures
        fields_default(s) / pow2(offset_of(s, i)) % pow2(width_of(s[i])) == default_of(s[i]),
    decreases s,
{
    let bl = s.drop_last();
    let t = s.last();
    let x: nat = fields_default(s);
    let a: nat = fields_default(bl);
    let wbl: nat = fields_width(bl);
    let d: nat = default_of(t);
    lemma_fields_default_bounded(bl);
    lemma_default_bounded(t);
    lemma_pow2_pos(wbl);
    if i == s.len() - 1 {
        assert(s.take(i) =~= bl);
        lemma_fundamental_div_mod_converse_div(x as int, pow2(wbl) as int, d as int, a as int);
        lemma_small_mod(d, pow2(width_of(t)));
    } else {
        lemma_field_extraction(bl, i);
        assert(bl.take(i) =~= s.take(i));
        assert(bl[i] == s[i]);
        let oi: nat = offset_of(s, i);
        let wi: nat = width_of(s[i]);
        lemma_fields_prefix(bl, i);
        lemma_fields_prefix(bl, i + 1);
        assert(oi + wi <= wbl);
        lemma_pow2_pos(oi);
        lemma_pow2_pos(wi);
        let e1: nat = (wbl - oi) as nat;
        let e2: nat = (wbl - oi - wi) as nat;
        lemma_pow2_adds(oi, e1);
        lemma_pow2_adds(wi, e2);
        let j: nat = d * pow2(e1);
        assert(x == a + j * pow2(oi)) by (nonlinear_arith)
            requires
                x == a + d * pow2(wbl),
                pow2(wbl) == pow2(oi) * pow2(e1),
                j == d * pow2(e1),
        ;
        lemma_hoist_over_denominator(a as int, j as int, pow2(oi));
        let q: nat = d * pow2(e2);
        assert(j == pow2(wi) * q) by (nonlinear_arith)
            requires
                j == d * pow2(e1),
                pow2(e1) == pow2(wi) * pow2(e2),
                q == d * pow2(e2),
        ;
        lemma_mod_multiples_vanish(q as int, (a / pow2(oi)) as int, pow2(wi) as int);
    }
}

/// Synthesis is idempotent: any two synthesis passes over the same record
/// schema that meet the assembler's contract produce the identical packed
/// value. The result is a pure function of the schema; no hidden state
/// leaks between calls.
pub proof fn lemma_default_idempotent(rec: crate::schema::RecordSchema, v1: u64, v2: u64)
    requires
        (v1 as nat) == record_default(rec),
        (v2 as nat) == record_default(rec),
    ensures
        v1 == v2,
{
}

/// A record's packed default depends only on each field's width and
/// default contribution: replacing fields by others with the same widths
/// and defaults (for instance a nested record by the matching scalar)
/// leaves the total width and the packed default unchanged.
pub proof fn lemma_fields_congruent(s1: Seq<FieldType>, s2: Seq<FieldType>)
    requires
        s1.len() == s2.len(),
        forall|i: int|
            0 <= i < s1.len() ==> #[trigger] width_of(s1[i]) == width_of(s2[i]) && default_of(
                s1[i],
            ) == default_of(s2[i]),
    ensures
        fields_width(s1) == fields_width(s2),
        fields_default(s1) == fields_default(s2),
    decreases s1,
{
    if s1.len() != 0 {
        assert forall|i: int|
            0 <= i < s1.drop_last().len() implies #[trigger] width_of(s1.drop_last()[i])
            == width_of(s2.drop_last()[i]) && default_of(s1.drop_last()[i]) == default_of(
            s2.drop_last()[i],
        ) by {
            assert(s1.drop_last()[i] == s1[i]);
            assert(s2.drop_last()[i] == s2[i]);
        }
        lemma_fields_congruent(s1.drop_last(), s2.drop_last());
        assert(width_of(s1.last()) == width_of(s2.last()) && default_of(s1.last()) == default_of(
            s2.last(),
        )) by {
            assert(s1.last() == s1[s1.len() - 1]);
        }
    }
}

} // verus!
