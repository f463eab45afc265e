use bevis::absorb_tag;
use bevis::Frame;
use bevis::encode_to_vec;
use bevis::tag_width;

#[test]
fn integers_encode_little_endian() {
    assert_eq!(encode_to_vec(&0x0102u16), vec![0x02, 0x01]);
    assert_eq!(encode_to_vec(&7u32), vec![7, 0, 0, 0]);
    assert_eq!(
        encode_to_vec(&0x0102030405060708u64),
        vec![8, 7, 6, 5, 4, 3, 2, 1]
    );
    let mut one_u128 = vec![1u8];
    one_u128.extend(std::iter::repeat(0u8).take(15));
    assert_eq!(encode_to_vec(&1u128), one_u128);
    assert_eq!(encode_to_vec(&0u8), vec![0]);
    assert_eq!(encode_to_vec(&255u8), vec![255]);
}

#[test]
fn signed_integers_encode_twos_complement() {
    assert_eq!(encode_to_vec(&-1i8), vec![0xff]);
    assert_eq!(encode_to_vec(&-2i16), vec![0xfe, 0xff]);
    assert_eq!(encode_to_vec(&-1i32), vec![0xff, 0xff, 0xff, 0xff]);
    assert_eq!(
        encode_to_vec(&i64::MIN),
        vec![0, 0, 0, 0, 0, 0, 0, 0x80]
    );
    assert_eq!(encode_to_vec(&-1i128), vec![0xff; 16]);
    assert_eq!(encode_to_vec(&5i32), vec![5, 0, 0, 0]);
}

#[test]
fn booleans_and_unit() {
    assert_eq!(encode_to_vec(&true), vec![1]);
    assert_eq!(encode_to_vec(&false), vec![0]);
    assert_eq!(encode_to_vec(&()), Vec::<u8>::new());
}

#[test]
fn lengths_are_64_bit_little_endian() {
    assert_eq!(encode_to_vec(&5usize), vec![5, 0, 0, 0, 0, 0, 0, 0]);
}

#[test]
fn strings_are_length_prefixed_bytes() {
    let mut expected = vec![3, 0, 0, 0, 0, 0, 0, 0];
    expected.extend(b"abc");
    assert_eq!(encode_to_vec(&"abc"), expected);
    assert_eq!(encode_to_vec(&""), vec![0; 8]);
}

#[test]
fn sequences_are_length_prefixed() {
    let s: Vec<u16> = vec![0x0102, 0x0304];
    let mut expected = vec![2, 0, 0, 0, 0, 0, 0, 0];
    expected.extend([0x02, 0x01, 0x04, 0x03]);
    assert_eq!(encode_to_vec(&s), expected);
    let empty: Vec<u16> = Vec::new();
    assert_eq!(encode_to_vec(&empty), vec![0; 8]);
}

#[test]
fn options_carry_presence_tag() {
    assert_eq!(encode_to_vec(&Option::<u8>::None), vec![0]);
    assert_eq!(encode_to_vec(&Some(9u8)), vec![1, 9]);
    assert_eq!(encode_to_vec(&Some(0x0102u16)), vec![1, 0x02, 0x01]);
}

#[test]
fn arrays_encode_without_length() {
    let a: [u8; 3] = [1, 2, 3];
    assert_eq!(encode_to_vec(&a), vec![1, 2, 3]);
    let b: [u16; 2] = [0x0102, 0x0304];
    assert_eq!(encode_to_vec(&b), vec![0x02, 0x01, 0x04, 0x03]);
}

#[test]
fn products_concatenate_component_encodings() {
    let pair: (u16, bool) = (0x0102, true);
    assert_eq!(encode_to_vec(&pair), vec![0x02, 0x01, 1]);
}

#[test]
fn tagged_unions_encode_index_then_fields() {
    assert_eq!(encode_to_vec(&Frame::Empty), vec![0]);
    assert_eq!(encode_to_vec(&Frame::Word(7)), vec![1, 7, 0, 0, 0]);
    assert_eq!(
        encode_to_vec(&Frame::Pair(2, Some(true))),
        vec![2, 2, 0, 0, 0, 0, 0, 0, 0, 1, 1]
    );
    assert_eq!(
        encode_to_vec(&Frame::Pair(0, None)),
        vec![2, 0, 0, 0, 0, 0, 0, 0, 0, 0]
    );
}

#[test]
fn encoding_is_deterministic() {
    let v: Vec<u32> = vec![1, 2, 3, 0xdead_beef];
    let once = encode_to_vec(&v);
    let twice = encode_to_vec(&v);
    assert_eq!(once, twice);
}

#[test]
fn length_prefix_round_trip() {
    let s: Vec<u16> = vec![7, 9, 11];
    let mut manual = encode_to_vec(&(s.len() as u64));
    for elem in &s {
        manual.extend(encode_to_vec(elem));
    }
    assert_eq!(encode_to_vec(&s), manual);
}

#[test]
fn tag_width_follows_variant_count() {
    assert_eq!(tag_width(1), 1);
    assert_eq!(tag_width(2), 1);
    assert_eq!(tag_width(256), 1);
    assert_eq!(tag_width(257), 2);
    assert_eq!(tag_width(65536), 2);
    assert_eq!(tag_width(65537), 4);
    assert_eq!(tag_width(0x1_0000_0000), 4);
    assert_eq!(tag_width(0x1_0000_0001), 8);
}

#[test]
fn variant_tags_use_type_level_width() {
    let mut sink: Vec<u8> = Vec::new();
    absorb_tag(&mut sink, 2, 1);
    assert_eq!(sink, vec![1]);

    let mut sink: Vec<u8> = Vec::new();
    absorb_tag(&mut sink, 300, 0);
    assert_eq!(sink, vec![0, 0]);

    let mut sink: Vec<u8> = Vec::new();
    absorb_tag(&mut sink, 300, 299);
    assert_eq!(sink, vec![0x2b, 0x01]);

    let mut sink: Vec<u8> = Vec::new();
    absorb_tag(&mut sink, 70000, 5);
    assert_eq!(sink, vec![5, 0, 0, 0]);
}
