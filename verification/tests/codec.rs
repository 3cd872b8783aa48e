use musli_wire::de::{
    decode_bool, decode_bytes, decode_i64, decode_tag, decode_u32, decode_u64, decode_u8,
    skip_value,
};
use musli_wire::en::{
    encode_bool, encode_bytes, encode_i64, encode_sequence_header, encode_u32, encode_u64,
    encode_u8, IntMode, LenMode,
};
use musli_wire::encoding::{decode, encode, from_slice, to_vec, to_writer, WireEncoding};
use musli_wire::error::Error;
use musli_wire::value::{SequenceBuilder, SequenceEncoder};
use musli_wire::fixed::ByteOrder;
use musli_wire::tag::{Kind, Tag, DATA_MASK};

#[test]
fn tag_byte_identity() {
    for b in 0..=255u8 {
        assert_eq!(Tag::from_byte(b).byte(), b);
    }
}

#[test]
fn tag_data_embeds_small_values_only() {
    for kind in [Kind::Pack, Kind::Prefix, Kind::Sequence, Kind::Continuation] {
        assert_eq!(Tag::new(kind, 0).data(), Some(0));
        assert_eq!(Tag::new(kind, 30).data(), Some(30));
        assert_eq!(Tag::new(kind, 62).data(), Some(62));
        assert_eq!(Tag::new(kind, DATA_MASK).data(), None);
        assert_eq!(Tag::new(kind, 200).data(), None);
        assert_eq!(Tag::new(kind, 9).kind(), kind);
        assert_eq!(Tag::empty(kind).data(), None);
    }
    let (t, embedded) = Tag::with_len(Kind::Prefix, 17);
    assert!(embedded);
    assert_eq!(t, Tag::new(Kind::Prefix, 17));
    let (t, embedded) = Tag::with_len(Kind::Prefix, 63);
    assert!(!embedded);
    assert_eq!(t.data(), None);
    let (t, embedded) = Tag::with_byte(Kind::Continuation, 62);
    assert!(embedded);
    assert_eq!(t.data_raw(), 62);
}

#[test]
fn small_u64_fits_in_one_byte() {
    let mut out = Vec::new();
    encode_u64(&mut out, IntMode::Variable, 42);
    assert_eq!(out, vec![0xc0 | 42]);
    let mut pos = 0usize;
    assert_eq!(decode_u64(&out, &mut pos, IntMode::Variable), Ok(42));
    assert_eq!(pos, 1);
}

#[test]
fn large_u64_round_trips_through_continuation_bytes() {
    for v in [63u64, 127, 128, 300, 0xffff, 0xdead_beef, u64::MAX] {
        let mut out = Vec::new();
        encode_u64(&mut out, IntMode::Variable, v);
        assert_eq!(out[0], 0xff);
        let mut pos = 0usize;
        assert_eq!(decode_u64(&out, &mut pos, IntMode::Variable), Ok(v));
        assert_eq!(pos, out.len());
    }
}

#[test]
fn continuation_encoding_of_the_maximum_value() {
    let mut out = Vec::new();
    encode_u64(&mut out, IntMode::Variable, u64::MAX);
    assert_eq!(
        out,
        vec![0xff, 0xff, 0xff, 0xff, 0xff, 0xff, 0xff, 0xff, 0xff, 0xff, 0x01]
    );
}

#[test]
fn truncated_continuation_fails_with_buffer_exhausted() {
    let data = [0xffu8, 0x80, 0x80];
    let mut pos = 0usize;
    assert_eq!(
        decode_u64(&data, &mut pos, IntMode::Variable),
        Err(Error::BufferExhausted)
    );
    assert_eq!(pos, 0);
}

#[test]
fn oversized_continuation_fails_with_integer_overflow() {
    let mut data = vec![0xffu8];
    data.extend(std::iter::repeat(0x81).take(10));
    data.push(0x01);
    let mut pos = 0usize;
    assert_eq!(
        decode_u64(&data, &mut pos, IntMode::Variable),
        Err(Error::IntegerOverflow)
    );
    assert_eq!(pos, 0);
}

#[test]
fn u32_wider_than_target_fails_with_integer_overflow() {
    let mut out = Vec::new();
    encode_u64(&mut out, IntMode::Variable, u32::MAX as u64 + 1);
    let mut pos = 0usize;
    assert_eq!(
        decode_u32(&out, &mut pos, IntMode::Variable),
        Err(Error::IntegerOverflow)
    );
}

#[test]
fn wrong_kind_fails_with_kind_mismatch() {
    let mut out = Vec::new();
    encode_bytes(&mut out, LenMode::Variable, &[1, 2, 3]);
    let mut pos = 0usize;
    assert_eq!(
        decode_u64(&out, &mut pos, IntMode::Variable),
        Err(Error::KindMismatch)
    );
    assert_eq!(pos, 0);
}

#[test]
fn fixed_u32_is_a_prefix_of_four_raw_bytes() {
    let mut out = Vec::new();
    encode_u32(&mut out, IntMode::Fixed(ByteOrder::Big), 0x01020304);
    assert_eq!(out, vec![0x40 | 4, 1, 2, 3, 4]);
    let mut pos = 0usize;
    assert_eq!(
        decode_u32(&out, &mut pos, IntMode::Fixed(ByteOrder::Big)),
        Ok(0x01020304)
    );

    let mut le = Vec::new();
    encode_u32(&mut le, IntMode::Fixed(ByteOrder::Little), 0x01020304);
    assert_eq!(le, vec![0x40 | 4, 4, 3, 2, 1]);
}

#[test]
fn fixed_u64_round_trips_in_both_byte_orders() {
    for order in [ByteOrder::Big, ByteOrder::Little] {
        let mut out = Vec::new();
        encode_u64(&mut out, IntMode::Fixed(order), 0x0102030405060708);
        assert_eq!(out.len(), 9);
        let mut pos = 0usize;
        assert_eq!(
            decode_u64(&out, &mut pos, IntMode::Fixed(order)),
            Ok(0x0102030405060708)
        );
    }
}

#[test]
fn zigzag_keeps_small_magnitudes_short() {
    let mut out = Vec::new();
    encode_i64(&mut out, IntMode::Variable, -1);
    assert_eq!(out, vec![0xc0 | 1]);

    for v in [0i64, -1, 1, -31, 31, -1000, 1000, i64::MIN, i64::MAX] {
        let mut out = Vec::new();
        encode_i64(&mut out, IntMode::Variable, v);
        let mut pos = 0usize;
        assert_eq!(decode_i64(&out, &mut pos, IntMode::Variable), Ok(v));
        assert_eq!(pos, out.len());
    }
}

#[test]
fn u8_and_bool_round_trip() {
    for v in [0u8, 1, 62, 63, 255] {
        let mut out = Vec::new();
        encode_u8(&mut out, IntMode::Variable, v);
        let mut pos = 0usize;
        assert_eq!(decode_u8(&out, &mut pos, IntMode::Variable), Ok(v));
    }
    for v in [true, false] {
        let mut out = Vec::new();
        encode_bool(&mut out, v);
        assert_eq!(out.len(), 1);
        let mut pos = 0usize;
        assert_eq!(decode_bool(&out, &mut pos), Ok(v));
    }
}

#[test]
fn bytes_embed_short_lengths_and_spill_long_ones() {
    let mut out = Vec::new();
    encode_bytes(&mut out, LenMode::Variable, &[]);
    assert_eq!(out, vec![0x40]);

    let payload = vec![5u8; 62];
    let mut out = Vec::new();
    encode_bytes(&mut out, LenMode::Variable, &payload);
    assert_eq!(out.len(), 63);
    assert_eq!(out[0], 0x40 | 62);

    let payload = vec![5u8; 63];
    let mut out = Vec::new();
    encode_bytes(&mut out, LenMode::Variable, &payload);
    assert_eq!(out.len(), 65);
    assert_eq!(out[0], 0x40 | 63);
    assert_eq!(out[1], 63);
    let mut pos = 0usize;
    assert_eq!(decode_bytes(&out, &mut pos, LenMode::Variable), Ok(payload));
}

#[test]
fn bytes_shorter_than_claimed_fail_with_buffer_exhausted() {
    let payload = vec![9u8; 40];
    let mut out = Vec::new();
    encode_bytes(&mut out, LenMode::Variable, &payload);
    let mut pos = 0usize;
    assert_eq!(
        decode_bytes(&out[..20], &mut pos, LenMode::Variable),
        Err(Error::BufferExhausted)
    );
    assert_eq!(pos, 0);
}

#[test]
fn fixed_length_modes_spill_lengths_at_full_width() {
    let payload = vec![3u8; 70];
    let mut out = Vec::new();
    encode_bytes(&mut out, LenMode::Fixed32, &payload);
    assert_eq!(out.len(), 1 + 4 + 70);
    assert_eq!(&out[..5], &[0x40 | 63, 0, 0, 0, 70]);
    let mut pos = 0usize;
    assert_eq!(decode_bytes(&out, &mut pos, LenMode::Fixed32), Ok(payload));

    let payload = vec![3u8; 70];
    let mut out = Vec::new();
    encode_bytes(&mut out, LenMode::Fixed64, &payload);
    assert_eq!(out.len(), 1 + 8 + 70);
    let mut pos = 0usize;
    assert_eq!(decode_bytes(&out, &mut pos, LenMode::Fixed64), Ok(payload));
}

#[test]
fn skip_passes_over_nested_sequences() {
    let mut out = Vec::new();
    encode_sequence_header(&mut out, LenMode::Variable, 3);
    encode_u64(&mut out, IntMode::Variable, 500);
    encode_bytes(&mut out, LenMode::Variable, &[1, 2, 3]);
    {
        encode_sequence_header(&mut out, LenMode::Variable, 2);
        encode_bool(&mut out, true);
        encode_u64(&mut out, IntMode::Variable, 7);
    }
    encode_u32(&mut out, IntMode::Variable, 11);

    let mut pos = 0usize;
    skip_value(&out, &mut pos, LenMode::Variable).unwrap();
    assert_eq!(decode_u32(&out, &mut pos, IntMode::Variable), Ok(11));
    assert_eq!(pos, out.len());
}

#[test]
fn skip_reports_truncation_inside_nested_values() {
    let mut out = Vec::new();
    encode_sequence_header(&mut out, LenMode::Variable, 2);
    encode_u64(&mut out, IntMode::Variable, 500);
    encode_bytes(&mut out, LenMode::Variable, &[1, 2, 3]);

    let mut pos = 0usize;
    assert_eq!(
        skip_value(&out[..out.len() - 1], &mut pos, LenMode::Variable),
        Err(Error::BufferExhausted)
    );
    assert_eq!(pos, 0);
}

#[test]
fn decode_tag_reads_one_byte() {
    let data = [0x81u8, 0x07];
    let mut pos = 0usize;
    let t = decode_tag(&data, &mut pos).unwrap();
    assert_eq!(t.kind(), Kind::Sequence);
    assert_eq!(t.data_raw(), 1);
    assert_eq!(pos, 1);
}

#[test]
fn default_configuration_round_trips_scalars() {
    assert_eq!(from_slice::<u32>(&to_vec(&77u32)), Ok(77));
    assert_eq!(from_slice::<u64>(&to_vec(&u64::MAX)), Ok(u64::MAX));
    assert_eq!(from_slice::<i64>(&to_vec(&-12345i64)), Ok(-12345));
    assert_eq!(from_slice::<i32>(&to_vec(&i32::MIN)), Ok(i32::MIN));
    assert_eq!(from_slice::<u8>(&to_vec(&200u8)), Ok(200));
    assert_eq!(from_slice::<bool>(&to_vec(&true)), Ok(true));

    let mut sink = Vec::new();
    to_writer(&mut sink, &77u32);
    assert_eq!(sink, to_vec(&77u32));

    let mut sink = Vec::new();
    encode(&mut sink, &true);
    encode(&mut sink, &5u64);
    assert_eq!(decode::<bool>(&sink), Ok(true));
    assert_eq!(decode::<u64>(&sink[1..]), Ok(5));
}

#[test]
fn configurations_must_match_between_producer_and_consumer() {
    let fixed = WireEncoding::new().with_fixed_integers_be();
    let bytes = fixed.to_vec(&0x01020304u32);
    assert_eq!(fixed.from_slice::<u32>(&bytes), Ok(0x01020304));
    assert_eq!(
        WireEncoding::new().from_slice::<u32>(&bytes),
        Err(Error::KindMismatch)
    );

    let le = WireEncoding::new().with_fixed_integers_le();
    let be = WireEncoding::new().with_fixed_integers_be();
    assert_ne!(le.to_vec(&0x01020304u32), be.to_vec(&0x01020304u32));

    let cfg = WireEncoding::new()
        .with_variable_integers()
        .with_fixed_lengths()
        .with_variable_lengths()
        .with_fixed_lengths64()
        .with_fixed_integers()
        .with_fixed_integers_ne()
        .with_variable_integers();
    let bytes = cfg.to_vec(&9u64);
    assert_eq!(cfg.decode::<u64>(&bytes), Ok(9));
}

#[test]
fn sequence_builder_writes_header_then_elements() {
    let mut seq = SequenceBuilder::new();
    seq.push(&1u32, IntMode::Variable, LenMode::Variable);
    seq.push(&true, IntMode::Variable, LenMode::Variable);
    seq.push(&-2i64, IntMode::Variable, LenMode::Variable);
    let mut out = Vec::new();
    seq.end_sequence(&mut out, LenMode::Variable);
    assert_eq!(out, vec![0x80 | 3, 0xc0 | 1, 0xc0 | 1, 0xc0 | 3]);

    let mut pos = 0usize;
    assert_eq!(
        musli_wire::de::decode_sequence_header(&out, &mut pos, LenMode::Variable),
        Ok(3)
    );
    assert_eq!(decode_u32(&out, &mut pos, IntMode::Variable), Ok(1));
    assert_eq!(decode_bool(&out, &mut pos), Ok(true));
    assert_eq!(decode_i64(&out, &mut pos, IntMode::Variable), Ok(-2));
    assert_eq!(pos, out.len());
}

#[test]
fn options_round_trip_through_every_configuration() {
    assert_eq!(
        from_slice::<Option<u32>>(&to_vec(&Some(10u32))),
        Ok(Some(10))
    );
    assert_eq!(from_slice::<Option<u32>>(&to_vec(&None::<u32>)), Ok(None));
    assert_eq!(to_vec(&None::<u32>), vec![0x80]);
    assert_eq!(to_vec(&Some(10u32)), vec![0x80 | 1, 0xc0 | 10]);

    let cfg = WireEncoding::new().with_fixed_integers_le();
    let bytes = cfg.to_vec(&Some(0x01020304u32));
    assert_eq!(cfg.from_slice::<Option<u32>>(&bytes), Ok(Some(0x01020304)));
}
