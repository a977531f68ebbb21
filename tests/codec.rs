use kafka_lite::codec::{
    is_valid_uuid, nil_uuid, read_compact_nullable_string, read_compact_string, read_i16,
    read_i32, read_i64, read_i8, read_nullable_string, read_tag_buffer, read_u16, read_u32,
    read_u32_array, read_u64, read_u8, read_uuid, read_uvarint, read_zzvarint, uuid_from_bytes,
    uuid_to_bytes, write_compact_nullable_string, write_compact_string, write_i16, write_i32,
    write_i64, write_i8, write_nullable_string, write_tag_buffer, write_u16, write_u32,
    write_u32_array, write_u64, write_u8, write_uuid, write_uvarint, write_zzvarint,
    CompactNullableString, DecodeError, NullableString, Uuid,
};

#[test]
fn fixed_width_round_trip() {
    let mut out = Vec::new();
    write_i8(&mut out, -3);
    write_u8(&mut out, 200);
    write_i16(&mut out, -2);
    write_u16(&mut out, 0xbeef);
    write_i32(&mut out, -123_456);
    write_u32(&mut out, 0xdead_beef);
    write_i64(&mut out, i64::MIN);
    write_u64(&mut out, u64::MAX - 1);
    assert_eq!(&out[0..6], &[0xfd, 200, 0xff, 0xfe, 0xbe, 0xef]);
    assert_eq!(read_i8(&out, 0), Ok((-3, 1)));
    assert_eq!(read_u8(&out, 1), Ok((200, 2)));
    assert_eq!(read_i16(&out, 2), Ok((-2, 4)));
    assert_eq!(read_u16(&out, 4), Ok((0xbeef, 6)));
    assert_eq!(read_i32(&out, 6), Ok((-123_456, 10)));
    assert_eq!(read_u32(&out, 10), Ok((0xdead_beef, 14)));
    assert_eq!(read_i64(&out, 14), Ok((i64::MIN, 22)));
    assert_eq!(read_u64(&out, 22), Ok((u64::MAX - 1, 30)));
}

#[test]
fn fixed_width_truncated() {
    assert_eq!(read_i32(&[1, 2, 3], 0), Err(DecodeError::Truncated));
    assert_eq!(read_u16(&[1, 2, 3], 2), Err(DecodeError::Truncated));
    assert_eq!(read_u8(&[], 0), Err(DecodeError::Truncated));
    assert_eq!(read_u8(&[1], 5), Err(DecodeError::Truncated));
}

#[test]
fn uvarint_encoding_and_round_trip() {
    let mut out = Vec::new();
    write_uvarint(&mut out, 300);
    assert_eq!(out, vec![0xac, 0x02]);
    assert_eq!(read_uvarint(&out, 0), Ok((300, 2)));
    let mut big = Vec::new();
    write_uvarint(&mut big, u64::MAX);
    assert_eq!(big.len(), 10);
    assert_eq!(big[9], 1);
    assert_eq!(read_uvarint(&big, 0), Ok((u64::MAX, 10)));
    let mut zero = Vec::new();
    write_uvarint(&mut zero, 0);
    assert_eq!(zero, vec![0]);
}

#[test]
fn uvarint_errors() {
    assert_eq!(read_uvarint(&[0x80, 0x80], 0), Err(DecodeError::Truncated));
    assert_eq!(read_uvarint(&[0xff; 12], 0), Err(DecodeError::BadVarint));
    let mut ten = vec![0xffu8; 9];
    ten.push(0x02);
    assert_eq!(read_uvarint(&ten, 0), Err(DecodeError::BadVarint));
}

#[test]
fn zigzag_encoding_is_minimal_and_round_trips() {
    for (v, bytes) in [
        (0i64, vec![0u8]),
        (-1, vec![1]),
        (1, vec![2]),
        (-64, vec![0x7f]),
        (64, vec![0x80, 0x01]),
    ] {
        let mut out = Vec::new();
        write_zzvarint(&mut out, v);
        assert_eq!(out, bytes);
        assert_eq!(read_zzvarint(&out, 0), Ok((v, bytes.len())));
    }
    for v in [i64::MIN, i64::MAX] {
        let mut out = Vec::new();
        write_zzvarint(&mut out, v);
        assert_eq!(out.len(), 10);
        assert_eq!(read_zzvarint(&out, 0), Ok((v, 10)));
    }
}

#[test]
fn compact_nullable_string_round_trip() {
    let mut out = Vec::new();
    write_compact_nullable_string(&mut out, &CompactNullableString(None));
    write_compact_nullable_string(&mut out, &CompactNullableString(Some("héllo".to_string())));
    assert_eq!(out[0], 0);
    assert_eq!(out[1], 7);
    let (a, p) = read_compact_nullable_string(&out, 0).unwrap();
    assert_eq!(a.0, None);
    let (b, q) = read_compact_nullable_string(&out, p).unwrap();
    assert_eq!(b.0, Some("héllo".to_string()));
    assert_eq!(q, out.len());
}

#[test]
fn compact_string_round_trip_and_refusals() {
    let mut out = Vec::new();
    write_compact_string(&mut out, &"topic".to_string());
    assert_eq!(out, vec![6, b't', b'o', b'p', b'i', b'c']);
    let (s, q) = read_compact_string(&out, 0).unwrap();
    assert_eq!(s, "topic");
    assert_eq!(q, 6);
    assert_eq!(read_compact_string(&[1], 0).unwrap_err(), DecodeError::EmptyString);
    assert_eq!(read_compact_string(&[0], 0).unwrap_err(), DecodeError::EmptyString);
    assert_eq!(read_compact_string(&[5, b'a'], 0).unwrap_err(), DecodeError::Truncated);
    assert_eq!(
        read_compact_nullable_string(&[3, 0xff, 0xfe], 0).unwrap_err(),
        DecodeError::InvalidUtf8
    );
}

#[test]
fn nullable_string_round_trip() {
    let mut out = Vec::new();
    write_nullable_string(&mut out, &NullableString(None));
    write_nullable_string(&mut out, &NullableString(Some("kafka-cli".to_string())));
    write_nullable_string(&mut out, &NullableString(Some(String::new())));
    assert_eq!(&out[0..4], &[0xff, 0xff, 0x00, 0x09]);
    let (a, p) = read_nullable_string(&out, 0).unwrap();
    assert_eq!(a.0, None);
    let (b, p) = read_nullable_string(&out, p).unwrap();
    assert_eq!(b.0, Some("kafka-cli".to_string()));
    let (c, p) = read_nullable_string(&out, p).unwrap();
    assert_eq!(c.0, Some(String::new()));
    assert_eq!(p, out.len());
    assert_eq!(read_nullable_string(&[0xff, 0xfe], 0).unwrap_err(), DecodeError::BadLength);
}

#[test]
fn tag_buffer_accepts_only_zero() {
    let mut out = Vec::new();
    write_tag_buffer(&mut out);
    assert_eq!(out, vec![0]);
    assert_eq!(read_tag_buffer(&out, 0), Ok(((), 1)));
    assert_eq!(read_tag_buffer(&[1], 0), Err(DecodeError::TaggedFields));
    assert_eq!(read_tag_buffer(&[], 0), Err(DecodeError::Truncated));
}

#[test]
fn uuid_text_form() {
    let bytes: Vec<u8> = (0..16).collect();
    let (u, q) = read_uuid(&bytes, 0).unwrap();
    assert_eq!(u.0, "00010203-0405-0607-0809-0a0b0c0d0e0f");
    assert_eq!(q, 16);
    let mut out = Vec::new();
    write_uuid(&mut out, &u);
    assert_eq!(out, bytes);
    assert_eq!(uuid_from_bytes(&bytes).0, u.0);
    assert_eq!(nil_uuid().0, "00000000-0000-0000-0000-000000000000");
}

#[test]
fn uuid_text_decodes() {
    let u = Uuid("00000000-0000-4000-8000-000000000091".to_string());
    let b = uuid_to_bytes(&u).unwrap();
    assert_eq!(b, vec![0, 0, 0, 0, 0, 0, 0x40, 0, 0x80, 0, 0, 0, 0, 0, 0, 0x91]);
    let upper = Uuid("ABCDEF01-2345-6789-ABCD-EF0123456789".to_string());
    assert_eq!(uuid_to_bytes(&upper).unwrap()[0], 0xab);
    assert!(is_valid_uuid(&u));
    assert_eq!(uuid_to_bytes(&Uuid("not-a-uuid".to_string())), Err(DecodeError::BadUuid));
    assert_eq!(
        uuid_to_bytes(&Uuid("0000000g-0000-4000-8000-000000000091".to_string())),
        Err(DecodeError::BadUuid)
    );
    assert!(!is_valid_uuid(&Uuid("0123".to_string())));
}

#[test]
fn u32_array_round_trip() {
    let mut out = Vec::new();
    write_u32_array(&mut out, &vec![1, 2, 0xffff_ffff]);
    assert_eq!(out[0], 4);
    assert_eq!(read_u32_array(&out, 0), Ok((vec![1, 2, 0xffff_ffff], 13)));
    assert_eq!(read_u32_array(&[0], 0), Ok((vec![], 1)));
    assert_eq!(read_u32_array(&[3, 0, 0, 0, 1], 0), Err(DecodeError::Truncated));
}
