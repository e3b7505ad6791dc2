use uuid::{ParseError, Uuid, UuidVariant, UuidVersion};

const SAMPLE: [u8; 16] = [
    0xa1, 0xa2, 0xa3, 0xa4, 0xb1, 0xb2, 0xc1, 0xc2, 0xd1, 0xd2, 0xd3, 0xd4, 0xd5, 0xd6, 0xd7, 0xd8,
];

fn with_octet(i: usize, v: u8) -> Uuid {
    let mut b = SAMPLE;
    b[i] = v;
    Uuid::from_bytes(&b).unwrap()
}

#[test]
fn formats_match_the_documented_layouts() {
    let u = Uuid::from_bytes(&SAMPLE).unwrap();
    assert_eq!(u.to_simple_string(), "a1a2a3a4b1b2c1c2d1d2d3d4d5d6d7d8");
    assert_eq!(u.to_string(), "a1a2a3a4b1b2c1c2d1d2d3d4d5d6d7d8");
    assert_eq!(u.to_hyphenated_string(), "a1a2a3a4-b1b2-c1c2-d1d2-d3d4d5d6d7d8");
    assert_eq!(u.to_urn_string(), "urn:uuid:a1a2a3a4-b1b2-c1c2-d1d2-d3d4d5d6d7d8");
}

#[test]
fn string_table_forms_round_trip() {
    let s = "936da01f9abd4d9d80c702af85c822a8";
    assert_eq!(Uuid::parse_str(s).unwrap().to_simple_string(), s);
    let h = "550e8400-e29b-41d4-a716-446655440000";
    assert_eq!(Uuid::parse_str(h).unwrap().to_hyphenated_string(), h);
    let n = "urn:uuid:f9168c5e-ceb2-4faa-b6bf-329bf39fa1e4";
    assert_eq!(Uuid::parse_str(n).unwrap().to_urn_string(), n);
}

#[test]
fn every_form_parses_back() {
    let u = Uuid::parse_str("67e55044-10b1-426f-9247-bb680e5fe0c8").unwrap();
    for s in [u.to_simple_string(), u.to_hyphenated_string(), u.to_urn_string()] {
        assert!(Uuid::parse_str(&s).unwrap() == u);
    }
    let nil = Uuid::nil();
    for s in [nil.to_simple_string(), nil.to_hyphenated_string(), nil.to_urn_string()] {
        assert!(Uuid::parse_str(&s).unwrap() == nil);
    }
}

#[test]
fn formatting_twice_gives_the_same_text() {
    let u = Uuid::from_bytes(&SAMPLE).unwrap();
    let c = u;
    assert_eq!(u.to_simple_string(), c.to_simple_string());
    assert_eq!(u.to_hyphenated_string(), u.to_hyphenated_string());
    assert_eq!(u.to_urn_string(), c.to_urn_string());
}

#[test]
fn parsing_ignores_the_case_of_digits() {
    let upper = Uuid::parse_str("F9168C5E-CEB2-4faa-B6BF-329BF39FA1E4").unwrap();
    let lower = Uuid::parse_str("f9168c5e-ceb2-4faa-b6bf-329bf39fa1e4").unwrap();
    assert!(upper == lower);
    assert_eq!(
        upper.as_bytes(),
        &[0xf9, 0x16, 0x8c, 0x5e, 0xce, 0xb2, 0x4f, 0xaa, 0xb6, 0xbf, 0x32, 0x9b, 0xf3, 0x9f, 0xa1, 0xe4]
    );
}

#[test]
fn random_bytes_are_tagged_exactly() {
    let ones = Uuid::from_random_bytes([0xff; 16]);
    let mut want = [0xff; 16];
    want[6] = 0x4f;
    want[8] = 0xbf;
    assert_eq!(ones.as_bytes(), &want);

    let zeros = Uuid::from_random_bytes([0; 16]);
    let mut want = [0; 16];
    want[6] = 0x40;
    want[8] = 0x80;
    assert_eq!(zeros.as_bytes(), &want);
    assert!(!zeros.is_nil());
    assert!(zeros.get_version() == Some(UuidVersion::Random));
    assert!(zeros.get_variant() == Some(UuidVariant::RFC4122));
    assert_eq!(zeros.get_version_num(), 4);
}

#[test]
fn generated_uuids_are_tagged_and_not_nil() {
    for _ in 0..50 {
        let u = Uuid::new_v4();
        assert!(u.get_version() == Some(UuidVersion::Random));
        assert!(u.get_variant() == Some(UuidVariant::RFC4122));
        assert!(!u.is_nil());
    }
    assert!(Uuid::nil().is_nil());
    assert!(Uuid::default() == Uuid::nil());
}

#[test]
fn variant_classification() {
    assert!(with_octet(8, 0x00).get_variant() == Some(UuidVariant::NCS));
    assert!(with_octet(8, 0x70).get_variant() == Some(UuidVariant::NCS));
    assert!(with_octet(8, 0x80).get_variant() == Some(UuidVariant::RFC4122));
    assert!(with_octet(8, 0xa8).get_variant() == Some(UuidVariant::RFC4122));
    assert!(with_octet(8, 0xc0).get_variant() == Some(UuidVariant::Microsoft));
    assert!(with_octet(8, 0xdf).get_variant() == Some(UuidVariant::Microsoft));
    assert!(with_octet(8, 0xe0).get_variant() == Some(UuidVariant::Future));
    assert!(with_octet(8, 0xff).get_variant() == Some(UuidVariant::Future));
}

#[test]
fn version_field_values() {
    let codes = [
        (0x10, Some(UuidVersion::Mac)),
        (0x2f, Some(UuidVersion::Dce)),
        (0x30, Some(UuidVersion::Md5)),
        (0x45, Some(UuidVersion::Random)),
        (0x50, Some(UuidVersion::Sha1)),
        (0x00, None),
        (0x60, None),
        (0xf3, None),
    ];
    for (octet, want) in codes {
        let u = with_octet(6, octet);
        assert!(u.get_version() == want);
        assert_eq!(u.get_version_num(), (octet >> 4) as usize);
    }
}

#[test]
fn from_bytes_needs_sixteen() {
    assert!(Uuid::from_bytes(&SAMPLE[..15]).is_none());
    assert!(Uuid::from_bytes(&[0u8; 17]).is_none());
    assert!(Uuid::from_bytes(&[]).is_none());
    assert!(Uuid::from_bytes(&SAMPLE).is_some());
}

#[test]
fn from_fields_pads_and_truncates_the_tail() {
    let short = Uuid::from_fields(0x01020304, 0x0506, 0x0708, &[0x09, 0x0a]);
    assert_eq!(short.to_simple_string(), "0102030405060708090a000000000000");
    let long = Uuid::from_fields(0, 0xffff, 1, &[1, 2, 3, 4, 5, 6, 7, 8, 9, 10]);
    assert_eq!(long.to_simple_string(), "00000000ffff00010102030405060708");
}

#[test]
fn parse_errors_in_order() {
    assert_eq!(
        Uuid::parse_str("F9168C5E-CEB2-4faa-B6BF-329BF39FA1E45").unwrap_err(),
        ParseError::InvalidLength(37)
    );
    assert_eq!(Uuid::parse_str("").unwrap_err(), ParseError::InvalidLength(0));
    assert_eq!(
        Uuid::parse_str("67e5504410b1426f9247bb680e5fe0c8aaaa").unwrap_err(),
        ParseError::InvalidLength(36)
    );
    assert_eq!(
        Uuid::parse_str("67e55044-10b1-426f-92470bb680e5fe0c8").unwrap_err(),
        ParseError::InvalidGroups(4)
    );
    assert_eq!(
        Uuid::parse_str("67e55044-10b1-626f-9247-bb680e5fe0c8").unwrap_err(),
        ParseError::InvalidVersion('6')
    );
    assert_eq!(
        Uuid::parse_str("67e55044-10b1-A26f-9247-bb680e5fe0c8").unwrap_err(),
        ParseError::InvalidVersion('A')
    );
    assert_eq!(
        Uuid::parse_str("67e5504-410b1-426f-9247-bb680e5fe0c8").unwrap_err(),
        ParseError::InvalidGroupLength(0, 7, 8)
    );
    assert_eq!(
        Uuid::parse_str("67e55044-10b1-426f-9247-bb680e5fe0cX").unwrap_err(),
        ParseError::InvalidCharacter('X', 35)
    );
}

#[test]
fn urn_prefix_offsets_and_lengths() {
    assert_eq!(
        Uuid::parse_str("urn:uuid:67e55044-10b1-426f-9247-bb680e5fe0cX").unwrap_err(),
        ParseError::InvalidCharacter('X', 35)
    );
    assert_eq!(
        Uuid::parse_str("xrn:uuid:67e55044-10b1-426f-9247-bb680e5fe0c8").unwrap_err(),
        ParseError::InvalidCharacter('x', 0)
    );
    assert_eq!(
        Uuid::parse_str("urn:uuid:67e5504410b1426f9247bb680e5fe0c8").unwrap_err(),
        ParseError::InvalidLength(41)
    );
    let u = Uuid::parse_str("urn:uuid:67e55044-40b1-426f-9247-bb680e5fe0c8").unwrap();
    assert_eq!(u.to_hyphenated_string(), "67e55044-40b1-426f-9247-bb680e5fe0c8");
}

#[test]
fn nil_skips_the_version_check_only_when_all_zero() {
    assert!(Uuid::parse_str("00000000-0000-0000-0000-000000000000").unwrap().is_nil());
    assert_eq!(
        Uuid::parse_str("00000000-0000-0000-0000-000000000001").unwrap_err(),
        ParseError::InvalidVersion('0')
    );
}

#[test]
fn non_ascii_characters_are_reported() {
    assert_eq!(
        Uuid::parse_str("67e550\u{e9}410b1426f9247bb680e5fe0cd").unwrap_err(),
        ParseError::InvalidCharacter('\u{e9}', 6)
    );
}

#[test]
fn from_str_parses() {
    let u: Uuid = "67e55044-10b1-426f-9247-bb680e5fe0c8".parse().unwrap();
    assert_eq!(u.to_simple_string(), "67e5504410b1426f9247bb680e5fe0c8");
    let e = "nope".parse::<Uuid>().unwrap_err();
    assert_eq!(e, ParseError::InvalidLength(4));
}

#[test]
fn error_messages() {
    assert_eq!(
        ParseError::InvalidLength(31).to_string(),
        "Invalid length; expecting 32, 36 or 45 chars, found 31"
    );
    assert_eq!(
        ParseError::InvalidCharacter('X', 6).to_string(),
        "Invalid character; found `X` (0x58) at offset 6"
    );
    assert_eq!(
        ParseError::InvalidCharacter('\u{1}', 0).to_string(),
        "Invalid character; found `\u{1}` (0x01) at offset 0"
    );
    assert_eq!(
        ParseError::InvalidCharacter('\u{20ac}', 12).to_string(),
        "Invalid character; found `\u{20ac}` (0x20ac) at offset 12"
    );
    assert_eq!(
        ParseError::InvalidGroups(2).to_string(),
        "Malformed; wrong number of groups: expected 1 or 5, found 2"
    );
    assert_eq!(
        ParseError::InvalidGroupLength(3, 5, 4).to_string(),
        "Malformed; length of group 3 was 5, expecting 4"
    );
    assert_eq!(
        ParseError::InvalidVersion('6').to_string(),
        "Invalid version; expecting 1, 2, 3, 4, or 5, found 6"
    );
    assert_eq!(
        ParseError::InvalidLength(1234567).to_string(),
        "Invalid length; expecting 32, 36 or 45 chars, found 1234567"
    );
}
