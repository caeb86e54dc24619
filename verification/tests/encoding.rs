use object_encoder::encoder::{EncodeError, ObjectEncoder};

#[test]
fn it_works() {
}

#[test]
fn nil_and_bools_compact() {
    let mut e = ObjectEncoder::new();
    e.emit_nil().unwrap();
    assert_eq!(e.output(), "null");

    let mut e = ObjectEncoder::new();
    e.emit_bool(true).unwrap();
    assert_eq!(e.output(), "true");

    let mut e = ObjectEncoder::new();
    e.emit_bool(false).unwrap();
    assert_eq!(e.output(), "false");
}

#[test]
fn unsigned_tokens() {
    let mut e = ObjectEncoder::new();
    e.emit_u8(0).unwrap();
    e.emit_u16(65535).unwrap();
    e.emit_u32(4294967295).unwrap();
    e.emit_u64(u64::MAX).unwrap();
    e.emit_usize(12345).unwrap();
    assert_eq!(e.output(), "06553542949672951844674407370955161512345");
}

#[test]
fn signed_tokens() {
    let mut e = ObjectEncoder::new();
    e.emit_i8(-128).unwrap();
    assert_eq!(e.output(), "-128");

    let mut e = ObjectEncoder::new();
    e.emit_i64(i64::MIN).unwrap();
    assert_eq!(e.output(), "-9223372036854775808");

    let mut e = ObjectEncoder::new();
    e.emit_i64(i64::MAX).unwrap();
    assert_eq!(e.output(), "9223372036854775807");

    let mut e = ObjectEncoder::new();
    e.emit_i32(0).unwrap();
    e.emit_i16(-7).unwrap();
    e.emit_isize(42).unwrap();
    assert_eq!(e.output(), "0-742");
}

#[test]
fn string_escaping() {
    let mut e = ObjectEncoder::new();
    e.emit_str("a\"b\\c").unwrap();
    assert_eq!(e.output(), "\"a\\\"b\\\\c\"");

    let mut e = ObjectEncoder::new();
    e.emit_str("\u{8}\t\n\u{c}\r").unwrap();
    assert_eq!(e.output(), "\"\\b\\t\\n\\f\\r\"");

    let mut e = ObjectEncoder::new();
    e.emit_str("\u{1}\u{1f}\u{7f}").unwrap();
    assert_eq!(e.output(), "\"\\u0001\\u001f\\u007f\"");

    let mut e = ObjectEncoder::new();
    e.emit_str("déjà vu ✓").unwrap();
    assert_eq!(e.output(), "\"déjà vu ✓\"");
}

#[test]
fn char_escaping() {
    let mut e = ObjectEncoder::new();
    e.emit_char('x').unwrap();
    assert_eq!(e.output(), "\"x\"");

    let mut e = ObjectEncoder::new();
    e.emit_char('\n').unwrap();
    assert_eq!(e.output(), "\"\\n\"");

    let mut e = ObjectEncoder::new();
    e.emit_char('"').unwrap();
    assert_eq!(e.output(), "\"\\\"\"");
}

#[test]
fn strings_are_valid_map_keys() {
    let mut e = ObjectEncoder::new();
    e.emit_map_begin(1).unwrap();
    e.emit_map_elt_key_begin(0).unwrap();
    let r = e.emit_str("k");
    e.emit_map_elt_key_end();
    r.unwrap();
    e.emit_map_elt_val_begin().unwrap();
    e.emit_bool(true).unwrap();
    e.emit_map_end(1).unwrap();
    assert_eq!(e.output(), "{\"k\":true}");
}

#[test]
fn zero_field_variant_is_bare_string() {
    let mut e = ObjectEncoder::new();
    e.emit_enum_variant_begin("Solo", 0).unwrap();
    e.emit_enum_variant_end(0).unwrap();
    assert_eq!(e.output(), "\"Solo\"");
}

#[test]
fn variant_with_fields_compact() {
    let mut e = ObjectEncoder::new();
    e.emit_enum_variant_begin("Pair", 2).unwrap();
    e.emit_enum_variant_arg_begin(0).unwrap();
    e.emit_u64(1).unwrap();
    e.emit_enum_variant_arg_begin(1).unwrap();
    e.emit_u64(2).unwrap();
    e.emit_enum_variant_end(2).unwrap();
    assert_eq!(e.output(), "{\"variant\":\"Pair\",\"fields\":[1,2]}");
}

#[test]
fn variant_with_fields_pretty() {
    let mut e = ObjectEncoder::new_pretty(2);
    e.emit_enum_variant_begin("Pair", 2).unwrap();
    e.emit_enum_variant_arg_begin(0).unwrap();
    e.emit_u64(1).unwrap();
    e.emit_enum_variant_arg_begin(1).unwrap();
    e.emit_u64(2).unwrap();
    e.emit_enum_variant_end(2).unwrap();
    assert_eq!(
        e.output(),
        "{\n  \"variant\": \"Pair\",\n  \"fields\": [\n    1,\n    2\n  ]\n}"
    );
    assert_eq!(e.current_indent(), 0);
}

#[test]
fn struct_like_variant_discards_field_names() {
    let mut e = ObjectEncoder::new();
    e.emit_enum_struct_variant_begin("Kangaroo", 2).unwrap();
    e.emit_enum_struct_variant_field_begin("age", 0).unwrap();
    e.emit_u64(34).unwrap();
    e.emit_enum_struct_variant_field_begin("name", 1).unwrap();
    e.emit_str("William").unwrap();
    e.emit_enum_variant_end(2).unwrap();
    assert_eq!(e.output(), "{\"variant\":\"Kangaroo\",\"fields\":[34,\"William\"]}");
}

#[test]
fn empty_composites() {
    let mut e = ObjectEncoder::new();
    e.emit_seq_begin(0).unwrap();
    e.emit_seq_end(0).unwrap();
    assert_eq!(e.output(), "[]");

    let mut e = ObjectEncoder::new();
    e.emit_struct_begin("Empty", 0).unwrap();
    e.emit_struct_end(0).unwrap();
    assert_eq!(e.output(), "{}");

    let mut e = ObjectEncoder::new();
    e.emit_map_begin(0).unwrap();
    e.emit_map_end(0).unwrap();
    assert_eq!(e.output(), "{}");
}

#[test]
fn empty_composites_pretty_add_no_whitespace() {
    let mut e = ObjectEncoder::new_pretty(4);
    e.emit_seq_begin(0).unwrap();
    e.emit_seq_end(0).unwrap();
    assert_eq!(e.output(), "[]");
    assert_eq!(e.current_indent(), 0);

    let mut e = ObjectEncoder::new_pretty(4);
    e.emit_map_begin(0).unwrap();
    e.emit_map_end(0).unwrap();
    assert_eq!(e.output(), "{}");
    assert_eq!(e.current_indent(), 0);
}

#[test]
fn bool_and_nil_rejected_as_map_keys() {
    let mut e = ObjectEncoder::new();
    e.emit_map_begin(2).unwrap();
    e.emit_map_elt_key_begin(0).unwrap();
    let r = e.emit_bool(true);
    e.emit_map_elt_key_end();
    assert_eq!(r, Err(EncodeError::BadMapKey));

    // the failed key did not leak the flag into the sibling key
    e.emit_map_elt_key_begin(0).unwrap();
    let r = e.emit_nil();
    e.emit_map_elt_key_end();
    assert_eq!(r, Err(EncodeError::BadMapKey));

    e.emit_map_elt_key_begin(0).unwrap();
    let r = e.emit_str("ok");
    e.emit_map_elt_key_end();
    r.unwrap();
    e.emit_map_elt_val_begin().unwrap();
    e.emit_u64(1).unwrap();
    e.emit_map_end(2).unwrap();
    assert_eq!(e.output(), "{\"ok\":1}");
}

#[test]
fn composites_rejected_as_map_keys() {
    let mut e = ObjectEncoder::new();
    e.emit_map_begin(1).unwrap();
    e.emit_map_elt_key_begin(0).unwrap();
    assert_eq!(e.emit_seq_begin(1), Err(EncodeError::BadMapKey));
    assert_eq!(e.emit_map_begin(1), Err(EncodeError::BadMapKey));
    assert_eq!(e.emit_struct_begin("S", 1), Err(EncodeError::BadMapKey));
    assert_eq!(e.emit_tuple_begin(2), Err(EncodeError::BadMapKey));
    assert_eq!(e.emit_tuple_struct_begin("T", 2), Err(EncodeError::BadMapKey));
    assert_eq!(e.emit_enum_variant_begin("V", 1), Err(EncodeError::BadMapKey));
    assert_eq!(e.emit_enum_struct_variant_begin("V", 0), Err(EncodeError::BadMapKey));
    assert_eq!(e.emit_option(), Err(EncodeError::BadMapKey));
    assert_eq!(e.emit_option_none(), Err(EncodeError::BadMapKey));
    assert_eq!(e.emit_option_some(), Err(EncodeError::BadMapKey));
    e.emit_map_elt_key_end();
}

#[test]
fn fieldless_variant_allowed_as_map_key() {
    let mut e = ObjectEncoder::new();
    e.emit_map_begin(1).unwrap();
    e.emit_map_elt_key_begin(0).unwrap();
    let r = e.emit_enum_variant_begin("Solo", 0);
    e.emit_map_elt_key_end();
    r.unwrap();
    e.emit_map_elt_val_begin().unwrap();
    e.emit_u64(1).unwrap();
    e.emit_map_end(1).unwrap();
    assert_eq!(e.output(), "{\"Solo\":1}");
}

#[test]
fn integer_map_keys_are_enquoted() {
    let mut e = ObjectEncoder::new();
    e.emit_map_begin(2).unwrap();
    e.emit_map_elt_key_begin(0).unwrap();
    let r = e.emit_u64(7);
    e.emit_map_elt_key_end();
    r.unwrap();
    e.emit_map_elt_val_begin().unwrap();
    e.emit_bool(false).unwrap();
    e.emit_map_elt_key_begin(1).unwrap();
    let r = e.emit_i64(-3);
    e.emit_map_elt_key_end();
    r.unwrap();
    e.emit_map_elt_val_begin().unwrap();
    e.emit_bool(true).unwrap();
    e.emit_map_end(2).unwrap();
    assert_eq!(e.output(), "{\"7\":false,\"-3\":true}");
}

#[test]
fn number_token_null_as_value_and_key() {
    // a non-finite number's token, as the caller's formatter produces it
    let mut e = ObjectEncoder::new();
    e.emit_number_token("null").unwrap();
    assert_eq!(e.output(), "null");

    let mut e = ObjectEncoder::new();
    e.emit_map_begin(1).unwrap();
    e.emit_map_elt_key_begin(0).unwrap();
    let r = e.emit_number_token("null");
    e.emit_map_elt_key_end();
    r.unwrap();
    e.emit_map_elt_val_begin().unwrap();
    e.emit_number_token("2.5").unwrap();
    e.emit_map_end(1).unwrap();
    assert_eq!(e.output(), "{\"null\":2.5}");
}

#[test]
fn struct_compact() {
    let mut e = ObjectEncoder::new();
    e.emit_struct_begin("Rec", 2).unwrap();
    e.emit_struct_field_begin("a", 0).unwrap();
    e.emit_u64(1).unwrap();
    e.emit_struct_field_begin("b", 1).unwrap();
    e.emit_str("x").unwrap();
    e.emit_struct_end(2).unwrap();
    assert_eq!(e.output(), "{\"a\":1,\"b\":\"x\"}");
}

#[test]
fn struct_pretty() {
    let mut e = ObjectEncoder::new_pretty(2);
    e.emit_struct_begin("Rec", 2).unwrap();
    e.emit_struct_field_begin("a", 0).unwrap();
    e.emit_u64(1).unwrap();
    e.emit_struct_field_begin("b", 1).unwrap();
    e.emit_str("x").unwrap();
    e.emit_struct_end(2).unwrap();
    assert_eq!(e.output(), "{\n  \"a\": 1,\n  \"b\": \"x\"\n}");
    assert_eq!(e.current_indent(), 0);
}

#[test]
fn sequence_compact() {
    let mut e = ObjectEncoder::new();
    e.emit_seq_begin(3).unwrap();
    for i in 0..3usize {
        e.emit_seq_elt_begin(i).unwrap();
        e.emit_u64(i as u64 + 1).unwrap();
    }
    e.emit_seq_end(3).unwrap();
    assert_eq!(e.output(), "[1,2,3]");
}

#[test]
fn sequence_pretty() {
    let mut e = ObjectEncoder::new_pretty(2);
    e.emit_seq_begin(2).unwrap();
    e.emit_seq_elt_begin(0).unwrap();
    e.emit_u64(1).unwrap();
    e.emit_seq_elt_begin(1).unwrap();
    e.emit_u64(2).unwrap();
    e.emit_seq_end(2).unwrap();
    assert_eq!(e.output(), "[\n  1,\n  2\n]");
}

#[test]
fn tuples_reuse_sequence_framing() {
    let mut e = ObjectEncoder::new();
    e.emit_tuple_begin(2).unwrap();
    e.emit_tuple_arg_begin(0).unwrap();
    e.emit_u64(1).unwrap();
    e.emit_tuple_arg_begin(1).unwrap();
    e.emit_str("two").unwrap();
    e.emit_seq_end(2).unwrap();
    assert_eq!(e.output(), "[1,\"two\"]");

    let mut e = ObjectEncoder::new();
    e.emit_tuple_struct_begin("Wrapper", 1).unwrap();
    e.emit_tuple_struct_arg_begin(0).unwrap();
    e.emit_u64(9).unwrap();
    e.emit_seq_end(1).unwrap();
    assert_eq!(e.output(), "[9]");
}

#[test]
fn options_add_no_wrapping_syntax() {
    let mut e = ObjectEncoder::new();
    e.emit_option().unwrap();
    e.emit_option_none().unwrap();
    assert_eq!(e.output(), "null");

    let mut e = ObjectEncoder::new();
    e.emit_option().unwrap();
    e.emit_option_some().unwrap();
    e.emit_u64(5).unwrap();
    assert_eq!(e.output(), "5");
}

#[test]
fn map_pretty() {
    let mut e = ObjectEncoder::new_pretty(2);
    e.emit_map_begin(1).unwrap();
    e.emit_map_elt_key_begin(0).unwrap();
    let r = e.emit_str("k");
    e.emit_map_elt_key_end();
    r.unwrap();
    e.emit_map_elt_val_begin().unwrap();
    e.emit_u64(1).unwrap();
    e.emit_map_end(1).unwrap();
    assert_eq!(e.output(), "{\n  \"k\": 1\n}");
}

#[test]
fn balanced_nesting_restores_indent() {
    let mut e = ObjectEncoder::new_pretty(3);
    assert_eq!(e.current_indent(), 0);
    e.emit_seq_begin(1).unwrap();
    assert_eq!(e.current_indent(), 3);
    e.emit_seq_elt_begin(0).unwrap();
    e.emit_struct_begin("Inner", 1).unwrap();
    assert_eq!(e.current_indent(), 6);
    e.emit_struct_field_begin("v", 0).unwrap();
    e.emit_u64(0).unwrap();
    e.emit_struct_end(1).unwrap();
    assert_eq!(e.current_indent(), 3);
    e.emit_seq_end(1).unwrap();
    assert_eq!(e.current_indent(), 0);
}

#[test]
fn nested_structures_compact() {
    let mut e = ObjectEncoder::new();
    e.emit_struct_begin("Outer", 2).unwrap();
    e.emit_struct_field_begin("items", 0).unwrap();
    e.emit_seq_begin(2).unwrap();
    e.emit_seq_elt_begin(0).unwrap();
    e.emit_option_none().unwrap();
    e.emit_seq_elt_begin(1).unwrap();
    e.emit_option_some().unwrap();
    e.emit_char('z').unwrap();
    e.emit_seq_end(2).unwrap();
    e.emit_struct_field_begin("tag", 1).unwrap();
    e.emit_enum_variant_begin("Solo", 0).unwrap();
    e.emit_enum_variant_end(0).unwrap();
    e.emit_struct_end(2).unwrap();
    assert_eq!(e.output(), "{\"items\":[null,\"z\"],\"tag\":\"Solo\"}");
}

#[test]
fn empty_composite_nested_in_pretty_struct() {
    let mut e = ObjectEncoder::new_pretty(2);
    e.emit_struct_begin("Rec", 1).unwrap();
    e.emit_struct_field_begin("a", 0).unwrap();
    e.emit_seq_begin(0).unwrap();
    e.emit_seq_end(0).unwrap();
    e.emit_struct_end(1).unwrap();
    assert_eq!(e.output(), "{\n  \"a\": []\n}");
}

#[test]
fn pretty_map_integer_key() {
    let mut e = ObjectEncoder::new_pretty(2);
    e.emit_map_begin(1).unwrap();
    e.emit_map_elt_key_begin(0).unwrap();
    let r = e.emit_u64(7);
    e.emit_map_elt_key_end();
    r.unwrap();
    e.emit_map_elt_val_begin().unwrap();
    e.emit_bool(true).unwrap();
    e.emit_map_end(1).unwrap();
    assert_eq!(e.output(), "{\n  \"7\": true\n}");
}

#[test]
fn into_output_hands_text_over() {
    let mut e = ObjectEncoder::new();
    e.emit_u64(11).unwrap();
    let s = e.into_output();
    assert_eq!(s, "11");
}
