//! Concrete instances of the library's laws and edge cases.

use prost_uuid_bytes::{DecodeFailure, Error, ProstUuid, Variant, WireType, PROTO_FILE};

fn sample_bytes() -> [u8; 16] {
    [
        0x6b, 0xa7, 0xb8, 0x10, 0x9d, 0xad, 0x11, 0xd1, 0x80, 0xb4, 0x00, 0xc0, 0x4f, 0xd4, 0x30,
        0xc8,
    ]
}

#[test]
fn encoding_is_key_length_and_bytes() {
    let id = ProstUuid::from_bytes(sample_bytes());
    let mut expected = vec![0x0a, 0x10];
    expected.extend_from_slice(&sample_bytes());
    assert_eq!(id.encode_to_vec(), expected);
    let mut buf = vec![0xee];
    id.encode_raw(&mut buf);
    assert_eq!(buf.len(), 19);
    assert_eq!(buf[0], 0xee);
    assert_eq!(&buf[1..], &expected[..]);
}

#[test]
fn round_trip_of_every_byte_pattern() {
    for v in [0u8, 1, 0x7f, 0x80, 0xfe, 0xff] {
        let id = ProstUuid::from_bytes([v; 16]);
        assert_eq!(ProstUuid::decode(&id.encode_to_vec()).unwrap(), id);
    }
}

#[test]
fn empty_input_decodes_to_nil() {
    assert_eq!(ProstUuid::decode(&[]).unwrap(), ProstUuid::nil());
}

#[test]
fn last_one_wins_with_two_fields() {
    let a = ProstUuid::from_bytes([1; 16]);
    let b = ProstUuid::from_bytes([2; 16]);
    let mut wire = a.encode_to_vec();
    wire.extend(b.encode_to_vec());
    assert_eq!(ProstUuid::decode(&wire).unwrap(), b);
}

#[test]
fn wrong_length_with_a_multi_byte_varint() {
    // declared length 300 = 0xac 0x02
    let wire = [0x0a, 0xac, 0x02, 0, 0, 0];
    match ProstUuid::decode(&wire).unwrap_err() {
        DecodeFailure::Uuid(e) => assert_eq!(e, Error::InvalidLength(300)),
        other => panic!("{other:?}"),
    }
}

#[test]
fn every_truncation_inside_the_bytes_underflows() {
    let wire = ProstUuid::from_bytes(sample_bytes()).encode_to_vec();
    for k in 2..18 {
        assert!(
            matches!(
                ProstUuid::decode(&wire[..k]).unwrap_err(),
                DecodeFailure::BufferUnderflow
            ),
            "k {k}"
        );
    }
    // cut after the key: the length varint is missing
    assert!(matches!(
        ProstUuid::decode(&wire[..1]).unwrap_err(),
        DecodeFailure::LengthVarint(_)
    ));
}

#[test]
fn wrong_wire_types_for_field_one() {
    // keys 0x08 (varint), 0x09 (64-bit), 0x0b (start group), 0x0c (end group), 0x0d (32-bit)
    for key in [0x08u8, 0x09, 0x0b, 0x0c, 0x0d] {
        let wire = [key, 0x10, 0, 0, 0, 0, 0, 0, 0, 0];
        assert!(
            matches!(
                ProstUuid::decode(&wire).unwrap_err(),
                DecodeFailure::WireType(_)
            ),
            "key {key:#x}"
        );
    }
}

#[test]
fn invalid_keys_are_refused() {
    // field number 0
    assert!(matches!(
        ProstUuid::decode(&[0x02, 0x00]).unwrap_err(),
        DecodeFailure::Key(_)
    ));
    // wire type 6
    assert!(matches!(
        ProstUuid::decode(&[0x0e]).unwrap_err(),
        DecodeFailure::Key(_)
    ));
    // unterminated varint
    assert!(matches!(
        ProstUuid::decode(&[0x8a]).unwrap_err(),
        DecodeFailure::Key(_)
    ));
}

#[test]
fn merge_field_reports_the_rest() {
    let mut id = ProstUuid::nil();
    let mut input = vec![0x10];
    input.extend_from_slice(&sample_bytes());
    input.extend_from_slice(&[1, 2, 3]);
    let ctx = prost::encoding::DecodeContext::default();
    let rest = id.merge_field(1, WireType::LengthDelimited, &input, ctx).unwrap();
    assert_eq!(rest, &[1, 2, 3]);
    assert_eq!(id.as_bytes(), &sample_bytes());

    // an unknown varint field is skipped and leaves the value alone
    let mut id = ProstUuid::max();
    let ctx = prost::encoding::DecodeContext::default();
    let rest = id.merge_field(5, WireType::Varint, &[0x96, 0x01, 7], ctx).unwrap();
    assert_eq!(rest, &[7]);
    assert_eq!(id, ProstUuid::max());

    // a 32-bit field needs four bytes
    let ctx = prost::encoding::DecodeContext::default();
    assert!(id.merge_field(5, WireType::ThirtyTwoBit, &[1, 2, 3], ctx).is_err());
    assert_eq!(id, ProstUuid::max());
}

#[test]
fn encoded_len_is_eighteen_for_every_value() {
    for id in [ProstUuid::nil(), ProstUuid::max(), ProstUuid::from_bytes(sample_bytes())] {
        assert_eq!(id.encoded_len(), 18);
        assert_eq!(id.encode_to_vec().len(), id.encoded_len());
    }
}

#[test]
fn text_round_trip_and_forms() {
    let id = ProstUuid::from_bytes(sample_bytes());
    let text = id.to_string();
    assert_eq!(text, "6ba7b810-9dad-11d1-80b4-00c04fd430c8");
    assert_eq!(ProstUuid::parse_str(&text).unwrap(), id);
    assert_eq!(ProstUuid::nil().to_string(), "00000000-0000-0000-0000-000000000000");
    assert_eq!(ProstUuid::max().to_string(), "ffffffff-ffff-ffff-ffff-ffffffffffff");
    assert_eq!(
        ProstUuid::parse_str("URN:UUID:6ba7b810-9dad-11d1-80b4-00c04fd430c8").unwrap(),
        id
    );
    for bad in [
        "",
        "6ba7b810-9dad-11d1-80b4-00c04fd430c",
        "6ba7b810x9dad-11d1-80b4-00c04fd430c8",
        "6ba7b810-9dad-11d1-80b4-00c04fd430cg",
        "{6ba7b810-9dad-11d1-80b4-00c04fd430c8",
        "urn:uuix:6ba7b810-9dad-11d1-80b4-00c04fd430c8",
        "6ba7b8109dad11d180b400c04fd430c",
    ] {
        assert!(ProstUuid::parse_str(bad).is_err(), "{bad}");
    }
}

#[test]
fn conversions_are_inverse() {
    let id = ProstUuid::from_bytes(sample_bytes());
    assert_eq!(id.into_bytes(), sample_bytes());
    assert_eq!(ProstUuid::new(id.into_inner()), id);
    assert_eq!(ProstUuid::from_slice(id.as_bytes()).unwrap(), id);
    assert_ne!(ProstUuid::nil(), ProstUuid::max());
}

#[test]
fn proto_file_declares_the_message() {
    assert!(PROTO_FILE.contains("package uuid;"));
    assert!(PROTO_FILE.contains("message Uuid {"));
    assert!(PROTO_FILE.contains("bytes value = 1;"));
}

#[test]
fn unknown_scalar_fields_are_skipped() {
    let b = ProstUuid::from_bytes(sample_bytes());
    let mut wire = Vec::new();
    prost::encoding::fixed64::encode(3, &7, &mut wire); // 64-bit
    prost::encoding::fixed32::encode(4, &7, &mut wire); // 32-bit
    prost::encoding::bytes::encode(5, &vec![1u8, 2, 3], &mut wire); // length-delimited
    prost::encoding::uint64::encode(6, &u64::MAX, &mut wire); // ten-byte varint
    b.encode_raw(&mut wire);
    assert_eq!(ProstUuid::decode(&wire).unwrap(), b);
    // a length-delimited unknown field that runs past the end is refused
    assert!(matches!(
        ProstUuid::decode(&[0x2a, 0x05, 1, 2]).unwrap_err(),
        DecodeFailure::Skip(_)
    ));
}

#[test]
fn distinct_errors_have_distinct_messages() {
    let errors = [
        Error::InvalidLength(1),
        Error::InvalidLength(10),
        Error::InvalidLength(100),
        Error::InvalidVariant(Variant::NCS),
        Error::InvalidVariant(Variant::RFC4122),
        Error::InvalidVariant(Variant::Microsoft),
        Error::InvalidVariant(Variant::Future),
        Error::InvalidVersion(1),
        Error::InvalidVersion(10),
    ];
    for (i, a) in errors.iter().enumerate() {
        for (j, b) in errors.iter().enumerate() {
            assert_eq!(i == j, a.to_string() == b.to_string(), "{a:?} {b:?}");
        }
    }
}

#[test]
fn unknown_groups_are_skipped_and_stray_end_groups_refused() {
    let b = ProstUuid::from_bytes(sample_bytes());
    // field 5 as a group holding a varint field 1, then the UUID
    let mut wire = vec![0x2b, 0x08, 0x01, 0x2c];
    b.encode_raw(&mut wire);
    assert_eq!(ProstUuid::decode(&wire).unwrap(), b);
    // an end-group key without its start
    assert!(matches!(
        ProstUuid::decode(&[0x2c]).unwrap_err(),
        DecodeFailure::Skip(_)
    ));
    // a group that never ends
    assert!(matches!(
        ProstUuid::decode(&[0x2b, 0x08, 0x01]).unwrap_err(),
        DecodeFailure::Skip(_)
    ));
}
