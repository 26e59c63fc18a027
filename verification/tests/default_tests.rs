use default_bits::assemble::{assemble_record, synthesize_default, SynthError};
use default_bits::bounds::{inject_bounds, Capability};
use default_bits::schema::{classify, FieldShape, FieldType, RecordSchema, RecordShape};
use default_bits::synth::{assemble_fields, synth_field};

fn scalar(width: u64, default: u64) -> FieldType {
    FieldType::Scalar { width, default }
}

fn array(elem: FieldType, len: usize) -> FieldType {
    FieldType::Array { elem: Box::new(elem), len }
}

fn tuple(elems: Vec<FieldType>) -> FieldType {
    FieldType::Tuple { elems }
}

fn composite(record: RecordSchema) -> FieldType {
    FieldType::Composite { record: Box::new(record) }
}

fn record(fields: Vec<FieldType>, storage_width: u64) -> RecordSchema {
    RecordSchema { fields, params: Vec::new(), storage_width }
}

#[test]
fn all_zero_defaults_pack_to_zero() {
    // a: 3-bit scalar, b: array of 2 elements of a 2-bit scalar,
    // c: tuple of (4-bit scalar, empty tuple); total width 3 + 4 + 4 = 11,
    // all defaults zero, so the packed default is zero at every offset
    let fields = vec![
        scalar(3, 0),
        array(scalar(2, 0), 2),
        tuple(vec![scalar(4, 0), tuple(Vec::new())]),
    ];
    let (value, width) = assemble_fields(&fields, 0);
    assert_eq!(value, 0);
    assert_eq!(width, 11);
    let rec = record(fields, 11);
    let out = assemble_record(&rec);
    assert_eq!(out.value, 0);
    assert_eq!(out.width, 11);
}

#[test]
fn scalar_contribution_is_shifted_default() {
    // a 2-bit scalar with default 3 placed at offset 5 contributes 3 << 5
    let (contribution, offset) = synth_field(&scalar(2, 3), 5);
    assert_eq!(contribution, 96);
    assert_eq!(offset, 7);
}

#[test]
fn scalar_fields_pack_at_cumulative_offsets() {
    let rec = record(vec![scalar(4, 0xA), scalar(8, 0xCD)], 12);
    let out = assemble_record(&rec);
    assert_eq!(out.value, 0xCDA);
}

#[test]
fn array_elements_pack_at_sequential_offsets() {
    // three 2-bit elements, default 1 each: 1 | 1 << 2 | 1 << 4
    let (value, offset) = synth_field(&array(scalar(2, 1), 3), 0);
    assert_eq!(value, 0b010101);
    assert_eq!(offset, 6);
}

#[test]
fn array_length_is_not_capped_at_32() {
    // 64 one-bit elements, default 1 each, fill the whole storage integer
    let rec = record(vec![array(scalar(1, 1), 64)], 64);
    let out = assemble_record(&rec);
    assert_eq!(out.value, u64::MAX);
    assert_eq!(out.width, 64);
}

#[test]
fn empty_tuple_contributes_nothing() {
    let (value, offset) = synth_field(&tuple(Vec::new()), 7);
    assert_eq!(value, 0);
    assert_eq!(offset, 7);
}

#[test]
fn tuple_elements_pack_at_sequential_offsets() {
    // (2-bit default 3, 3-bit default 5) at offset 1: 3 << 1 | 5 << 3
    let t = tuple(vec![scalar(2, 3), scalar(3, 5)]);
    let (value, offset) = synth_field(&t, 1);
    assert_eq!(value, (3 << 1) | (5 << 3));
    assert_eq!(offset, 6);
}

#[test]
fn nested_record_acts_like_a_scalar_of_its_width() {
    let nested = record(vec![scalar(3, 5)], 3);
    let with_composite = record(vec![scalar(2, 1), composite(nested)], 5);
    let with_scalar = record(vec![scalar(2, 1), scalar(3, 5)], 5);
    let a = assemble_record(&with_composite);
    let b = assemble_record(&with_scalar);
    assert_eq!(a.value, b.value);
    assert_eq!(a.value, 1 | (5 << 2));
}

#[test]
fn synthesis_is_idempotent() {
    let rec = record(vec![scalar(4, 9), array(scalar(2, 2), 5), scalar(1, 1)], 15);
    let first = assemble_record(&rec);
    let second = assemble_record(&rec);
    assert_eq!(first.value, second.value);
    assert_eq!(first.width, second.width);
}

#[test]
fn empty_record_packs_to_zero() {
    let rec = record(Vec::new(), 0);
    let out = assemble_record(&rec);
    assert_eq!(out.value, 0);
    assert_eq!(out.width, 0);
}

#[test]
fn product_record_succeeds() {
    let shape = RecordShape::Product(record(vec![scalar(3, 4)], 3));
    let out = synthesize_default(&shape).unwrap();
    assert_eq!(out.value, 4);
    assert_eq!(out.width, 3);
}

#[test]
fn sum_type_is_rejected() {
    let out = synthesize_default(&RecordShape::Sum);
    assert_eq!(out.unwrap_err(), SynthError::UnsupportedShape);
}

#[test]
fn unsupported_shape_message_directs_to_enum_mechanism() {
    assert_eq!(SynthError::UnsupportedShape.message(), "use derive(Default) for enums");
}

#[test]
fn every_parameter_gets_the_inspect_bound() {
    let params = vec!["T".to_string(), "U".to_string()];
    let bounds = inject_bounds(&params);
    assert_eq!(bounds.len(), 2);
    assert_eq!(bounds[0].param, "T");
    assert_eq!(bounds[0].capability, Capability::Inspect);
    assert_eq!(bounds[1].param, "U");
    assert_eq!(bounds[1].capability, Capability::Inspect);
}

#[test]
fn generic_record_carries_its_bounds() {
    let rec = RecordSchema {
        fields: vec![scalar(8, 0x5A)],
        params: vec!["M".to_string()],
        storage_width: 8,
    };
    let out = assemble_record(&rec);
    assert_eq!(out.value, 0x5A);
    assert_eq!(out.bounds.len(), 1);
    assert_eq!(out.bounds[0].param, "M");
    assert_eq!(out.bounds[0].capability, Capability::Inspect);
}

#[test]
fn classifier_covers_the_closed_shape_set() {
    assert_eq!(classify(&scalar(1, 0)), FieldShape::Scalar);
    assert_eq!(classify(&array(scalar(1, 0), 4)), FieldShape::Array);
    assert_eq!(classify(&tuple(Vec::new())), FieldShape::Tuple);
    assert_eq!(classify(&composite(record(Vec::new(), 0))), FieldShape::Composite);
}

#[test]
fn deeply_nested_structures_pack_exactly() {
    // array of 2 tuples, each (1-bit default 1, nested record of one
    // 2-bit scalar default 2): element pattern is 1 | 2 << 1 = 0b101,
    // element width 3, so the array packs 0b101101
    let nested = record(vec![scalar(2, 2)], 2);
    let element = tuple(vec![scalar(1, 1), composite(nested)]);
    let rec = record(vec![array(element, 2)], 6);
    let out = assemble_record(&rec);
    assert_eq!(out.value, 0b101101);
    assert_eq!(out.width, 6);
}
