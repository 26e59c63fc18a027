//! The recursive default-value synthesizer.
//!
//! `synth_field` produces one field's contribution to the record's packed
//! value and advances the running bit offset; `assemble_fields` folds a
//! whole field list with one shared offset accumulator, bit-OR-reducing the
//! contributions. Because every field is placed at the cumulative width of
//! the fields before it, the contributions occupy disjoint bit ranges and
//! the bit-OR reduction equals the arithmetic sum that the specification
//! functions describe; `lemma_disjoint_or_is_add` carries that argument.

use crate::schema::{
    array_default, default_of, fields_default, fields_width, lemma_array_default_bounded,
    lemma_default_bounded, lemma_fields_default_bounded, lemma_fields_prefix, wf_field, wf_fields,
    width_of, FieldType,
};
use vstd::arithmetic::div_mod::{lemma_mod_multiples_basic, lemma_small_mod};
use vstd::arithmetic::power2::{
    lemma2_to64, lemma2_to64_rest, lemma_pow2_adds, lemma_pow2_pos, lemma_pow2_strictly_increases,
    pow2,
};
use vstd::bits::{
    lemma_u64_low_bits_mask_is_mod, lemma_u64_pow2_no_overflow, lemma_u64_shl_is_mul,
    low_bits_mask,
};
use vstd::prelude::*;

verus! {

/// Two values with bits in disjoint ranges combine the same way under
/// bit-OR and addition: if `a` lies entirely below bit `k` and `b` has no
/// bits below `k`, then `a | b == a + b`, and in particular the sum does
/// not overflow.
pub proof fn lemma_disjoint_or_is_add(a: u64, b: u64, k: nat)
    requires
        k < 64,
        (a as nat) < pow2(k),
        (b as nat) % pow2(k) == 0,
    ensures
        a | b == a + b,
{
    lemma_u64_pow2_no_overflow(k);
    let m: u64 = low_bits_mask(k) as u64;
    lemma_u64_low_bits_mask_is_mod(a, k);
    lemma_u64_low_bits_mask_is_mod(b, k);
    lemma_small_mod(a as nat, pow2(k));
    assert(a & m == a);
    assert(b & m == 0);
    assert((a & m == a && b & m == 0) ==> (a | b == a + b)) by (bit_vector);
}

/// Placing a `w`-bit value at bit offset `off` is multiplication by
/// `pow2(off)`, stays within `off + w` bits, and is computed exactly by a
/// left shift.
proof fn lemma_place_bits(d: u64, off: u64, w: nat)
    requires
        1 <= w,
        off + w <= 64,
        (d as nat) < pow2(w),
    ensures
        (d as nat) * pow2(off as nat) < pow2((off + w) as nat),
        pow2((off + w) as nat) <= pow2(64),
        d << off == (d as nat) * pow2(off as nat),
{
    lemma_pow2_adds(off as nat, w);
    lemma_pow2_pos(off as nat);
    let p: nat = pow2(off as nat);
    let q: nat = pow2(w);
    assert((d as nat) * p < p * q) by (nonlinear_arith)
        requires
            (d as nat) < q,
            p > 0,
    ;
    if off + w < 64 {
        lemma_pow2_strictly_increases((off + w) as nat, 64);
    }
    lemma2_to64();
    lemma2_to64_rest();
    lemma_u64_shl_is_mul(d, off);
}

/// Synthesize the packed contribution of one field placed at bit offset
/// `offset`, returning the contribution and the advanced offset. The
/// contribution is the field's default value shifted to its place; the
/// offset advances by exactly the field's bit width.
#[verifier::loop_isolation(false)]
pub fn synth_field(t: &FieldType, offset: u64) -> (r: (u64, u64))
    requires
        wf_field(*t),
        offset + width_of(*t) <= 64,
    ensures
        (r.0 as nat) == default_of(*t) * pow2(offset as nat),
        (r.1 as nat) == offset + width_of(*t),
    decreases *t,
{
    match t {
        FieldType::Scalar { width, default } => {
            proof {
                lemma_place_bits(*default, offset, *width as nat);
            }
            (*default << offset, offset + *width)
        },
        FieldType::Array { elem, len } => {
            let ghost d: nat = default_of(**elem);
            let ghost w: nat = width_of(**elem);
            let mut acc: u64 = 0;
            let mut off: u64 = offset;
            let mut i: usize = 0;
            proof {
                lemma_pow2_pos(offset as nat);
                assert(array_default(d, w, 0) * pow2(offset as nat) == 0) by (nonlinear_arith)
                    requires
                        array_default(d, w, 0) == 0,
                ;
            }
            while i < *len
                invariant
                    wf_field(**elem),
                    d == default_of(**elem),
                    w == width_of(**elem),
                    i <= *len,
                    offset + (*len as nat) * w <= 64,
                    (off as nat) == offset + (i as nat) * w,
                    (acc as nat) == array_default(d, w, i as nat) * pow2(offset as nat),
                decreases *len - i,
            {
                proof {
                    assert((i as nat) * w + w <= (*len as nat) * w) by (nonlinear_arith)
                        requires
                            (i as nat) < (*len as nat),
                    ;
                }
                let (c, off2) = synth_field(elem, off);
                proof {
                    let p: nat = pow2(offset as nat);
                    let pi: nat = pow2((i as nat) * w);
                    lemma_pow2_adds(offset as nat, (i as nat) * w);
                    lemma_default_bounded(**elem);
                    lemma_array_default_bounded(d, w, i as nat);
                    if c == 0 {
                        assert(acc | c == acc) by (bit_vector)
                            requires
                                c == 0u64,
                        ;
                    } else {
                        // a zero default or a zero width would make the
                        // contribution zero, so here the element is at
                        // least one bit wide and the offset is below 64
                        assert(d >= 1) by (nonlinear_arith)
                            requires
                                (c as nat) == d * (p * pi),
                                c != 0,
                        ;
                        lemma2_to64();
                        assert(w >= 1);
                        assert((acc as nat) < p * pi) by (nonlinear_arith)
                            requires
                                (acc as nat) == array_default(d, w, i as nat) * p,
                                array_default(d, w, i as nat) < pi,
                                p > 0,
                        ;
                        lemma_mod_multiples_basic(d as int, pow2(off as nat) as int);
                        lemma_disjoint_or_is_add(acc, c, off as nat);
                    }
                    assert(acc + c == array_default(d, w, (i + 1) as nat) * p) by (nonlinear_arith)
                        requires
                            (acc as nat) == array_default(d, w, i as nat) * p,
                            (c as nat) == d * (p * pi),
                            array_default(d, w, (i + 1) as nat) == array_default(d, w, i as nat)
                                + d * pi,
                    ;
                    assert((off2 as nat) == offset + ((i + 1) as nat) * w) by (nonlinear_arith)
                        requires
                            (off2 as nat) == offset + (i as nat) * w + w,
                    ;
                }
                acc = acc | c;
                off = off2;
                i = i + 1;
            }
            proof {
                assert((off as nat) == offset + width_of(*t)) by (nonlinear_arith)
                    requires
                        (off as nat) == offset + (*len as nat) * w,
                        width_of(*t) == (*len as nat) * w,
                ;
            }
            (acc, off)
        },
        FieldType::Tuple { elems } => assemble_fields(elems, offset),
        FieldType::Composite { record } => {
            proof {
                assert(crate::schema::wf_record(**record));
            }
            let (v, w) = assemble_fields(&record.fields, 0);
            proof {
                lemma2_to64();
                lemma_fields_default_bounded(record.fields@);
                assert((v as nat) == fields_default(record.fields@)) by (nonlinear_arith)
                    requires
                        (v as nat) == fields_default(record.fields@) * pow2(0),
                        pow2(0) == 1,
                ;
            }
            if w == 0 {
                // a zero-width nested record packs to zero and consumes no bits
                proof {
                    assert(default_of(*t) * pow2(offset as nat) == 0) by (nonlinear_arith)
                        requires
                            default_of(*t) == 0,
                    ;
                }
                (v, offset)
            } else {
                proof {
                    lemma_place_bits(v, offset, w as nat);
                }
                (v << offset, offset + w)
            }
        },
    }
}

/// Assemble a field list: visit the fields in declaration order, thread one
/// offset accumulator across them starting at `offset`, and bit-OR-reduce
/// their contributions (an empty list yields 0). Returns the packed value
/// and the final offset.
#[verifier::loop_isolation(false)]
pub fn assemble_fields(fields: &Vec<FieldType>, offset: u64) -> (r: (u64, u64))
    requires
        wf_fields(fields@),
        offset + fields_width(fields@) <= 64,
    ensures
        (r.0 as nat) == fields_default(fields@) * pow2(offset as nat),
        (r.1 as nat) == offset + fields_width(fields@),
    decreases fields@,
{
    let ghost s: Seq<FieldType> = fields@;
    let mut acc: u64 = 0;
    let mut off: u64 = offset;
    let mut j: usize = 0;
    proof {
        lemma_pow2_pos(offset as nat);
        assert(s.take(0) =~= Seq::<FieldType>::empty());
        assert(fields_default(s.take(0)) * pow2(offset as nat) == 0) by (nonlinear_arith)
            requires
                fields_default(s.take(0)) == 0,
        ;
    }
    while j < fields.len()
        invariant
            wf_fields(s),
            s == fields@,
            offset + fields_width(s) <= 64,
            j <= s.len(),
            (off as nat) == offset + fields_width(s.take(j as int)),
            (acc as nat) == fields_default(s.take(j as int)) * pow2(offset as nat),
        decreases fields.len() - j,
    {
        proof {
            lemma_fields_prefix(s, j as int);
            lemma_fields_prefix(s, j as int + 1);
            assert(s.take(j as int + 1).drop_last() =~= s.take(j as int));
            assert(s.take(j as int + 1).last() == s[j as int]);
        }
        let (c, off2) = synth_field(&fields[j], off);
        proof {
            let tj: Seq<FieldType> = s.take(j as int);
            let p: nat = pow2(offset as nat);
            let ptj: nat = pow2(fields_width(tj));
            lemma_pow2_adds(offset as nat, fields_width(tj));
            lemma_default_bounded(s[j as int]);
            lemma_fields_default_bounded(tj);
            if c == 0 {
                assert(acc | c == acc) by (bit_vector)
                    requires
                        c == 0u64,
                ;
            } else {
                assert(default_of(s[j as int]) >= 1) by (nonlinear_arith)
                    requires
                        (c as nat) == default_of(s[j as int]) * (p * ptj),
                        c != 0,
                ;
                lemma2_to64();
                assert(width_of(s[j as int]) >= 1);
                assert((acc as nat) < p * ptj) by (nonlinear_arith)
                    requires
                        (acc as nat) == fields_default(tj) * p,
                        fields_default(tj) < ptj,
                        p > 0,
                ;
                lemma_mod_multiples_basic(default_of(s[j as int]) as int, pow2(off as nat) as int);
                lemma_disjoint_or_is_add(acc, c, off as nat);
            }
            assert(acc + c == fields_default(s.take(j as int + 1)) * p) by (nonlinear_arith)
                requires
                    (acc as nat) == fields_default(tj) * p,
                    (c as nat) == default_of(s[j as int]) * (p * ptj),
                    fields_default(s.take(j as int + 1)) == fields_default(tj) + default_of(
                        s[j as int],
                    ) * ptj,
            ;
        }
        acc = acc | c;
        off = off2;
        j = j + 1;
    }
    proof {
        assert(s.take(s.len() as int) =~= s);
    }
    (acc, off)
}

} // verus!
