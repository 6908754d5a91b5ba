use prost_uuid_bytes::{Error, ProstUuid, Variant};
use uuid::Uuid;

#[test]
fn well_formed_uuids_pass() {
    let ok = [
        ProstUuid::nil(),
        ProstUuid::max(),
        ProstUuid::from(Uuid::new_v4()),
        ProstUuid::from(Uuid::now_v7()),
        "6ba7b810-9dad-11d1-80b4-00c04fd430c8".parse::<ProstUuid>().unwrap(), // v1
        ProstUuid::from(Uuid::new_v3(&Uuid::NAMESPACE_DNS, b"example.com")),
        ProstUuid::from(Uuid::new_v5(&Uuid::NAMESPACE_DNS, b"example.com")),
        ProstUuid::from(Uuid::new_v8([0x42; 16])),
    ];
    for id in ok {
        assert_eq!(id.validate_rfc9562(), Ok(()), "{}", id.to_string());
        assert!(id.is_rfc9562());
    }
}

fn with_bits(variant_byte: u8, version_nibble: u8) -> ProstUuid {
    let mut b = [0x5a; 16];
    b[6] = (version_nibble << 4) | (b[6] & 0x0f);
    b[8] = variant_byte;
    ProstUuid::from_bytes(b)
}

#[test]
fn bad_variants_fail() {
    let cases = [
        (0x00, Variant::NCS),
        (0x7f, Variant::NCS),
        (0xc0, Variant::Microsoft),
        (0xdf, Variant::Microsoft),
        (0xe0, Variant::Future),
        (0xff, Variant::Future),
    ];
    for (byte, variant) in cases {
        let id = with_bits(byte, 4);
        assert_eq!(
            id.validate_rfc9562(),
            Err(Error::InvalidVariant(variant)),
            "{}",
            id.to_string()
        );
        assert!(!id.is_rfc9562());
    }
}

#[test]
fn bad_versions_fail() {
    for v in [0u8, 9, 10, 15] {
        let id = with_bits(0x80, v);
        assert_eq!(
            id.validate_rfc9562(),
            Err(Error::InvalidVersion(v as usize)),
            "{}",
            id.to_string()
        );
    }
    for v in 1..=8u8 {
        assert!(with_bits(0xbf, v).is_rfc9562(), "v{v}");
    }
}

#[test]
fn from_slice_variants() {
    let good = Uuid::new_v4();
    assert_eq!(
        ProstUuid::from_slice(good.as_bytes()).unwrap(),
        ProstUuid::from(good)
    );
    assert_eq!(
        ProstUuid::from_slice_strict(good.as_bytes()).unwrap(),
        ProstUuid::from(good)
    );
    assert_eq!(ProstUuid::from_slice(&[0; 3]), Err(Error::InvalidLength(3)));
    assert_eq!(
        ProstUuid::from_slice_strict(&[0; 17]),
        Err(Error::InvalidLength(17))
    );
    let ncs = [0u8; 16].map(|_| 0x11);
    assert!(ProstUuid::from_slice(&ncs).is_ok());
    assert_eq!(
        ProstUuid::from_slice_strict(&ncs),
        Err(Error::InvalidVariant(Variant::NCS))
    );
}

#[test]
fn error_messages() {
    assert_eq!(
        Error::InvalidLength(3).to_string(),
        "invalid UUID length: expected 16 bytes, got 3"
    );
    assert_eq!(
        Error::InvalidVariant(Variant::NCS).to_string(),
        "invalid UUID variant: NCS (expected RFC 9562)"
    );
    assert_eq!(
        Error::InvalidVersion(9).to_string(),
        "invalid UUID version: 9 (expected 1 through 8)"
    );
}

#[test]
fn strict_accepts_nil_and_max_and_rejects_each_variant() {
    assert_eq!(ProstUuid::from_slice_strict(&[0; 16]), Ok(ProstUuid::nil()));
    assert_eq!(ProstUuid::from_slice_strict(&[0xff; 16]), Ok(ProstUuid::max()));
    // a single non-zero byte makes a value that is neither nil nor max
    let mut b = [0u8; 16];
    b[15] = 1;
    assert_eq!(
        ProstUuid::from_bytes(b).validate_rfc9562(),
        Err(Error::InvalidVariant(Variant::NCS))
    );
    let mut b = [0xffu8; 16];
    b[0] = 0xfe;
    assert_eq!(
        ProstUuid::from_bytes(b).validate_rfc9562(),
        Err(Error::InvalidVariant(Variant::Future))
    );
    // version 15 with the RFC variant
    assert_eq!(with_bits(0x80, 15).validate_rfc9562(), Err(Error::InvalidVersion(15)));
    assert_eq!(with_bits(0xa0, 8).validate_rfc9562(), Ok(()));
}

#[test]
fn error_messages_for_every_variant_and_large_numbers() {
    assert_eq!(
        Error::InvalidVariant(Variant::RFC4122).to_string(),
        "invalid UUID variant: RFC4122 (expected RFC 9562)"
    );
    assert_eq!(
        Error::InvalidVariant(Variant::Microsoft).to_string(),
        "invalid UUID variant: Microsoft (expected RFC 9562)"
    );
    assert_eq!(
        Error::InvalidVariant(Variant::Future).to_string(),
        "invalid UUID variant: Future (expected RFC 9562)"
    );
    assert_eq!(
        Error::InvalidLength(0).to_string(),
        "invalid UUID length: expected 16 bytes, got 0"
    );
    assert_eq!(
        Error::InvalidLength(1234567).to_string(),
        "invalid UUID length: expected 16 bytes, got 1234567"
    );
    assert_eq!(
        Error::InvalidVersion(10).to_string(),
        "invalid UUID version: 10 (expected 1 through 8)"
    );
}
