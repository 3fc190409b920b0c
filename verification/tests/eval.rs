//! Transforms, encodings and advert predicates.

use camera_config::index::eval::{
    advert_capture_encodings, advert_matches, advert_scope, apply_transforms, decode_bytes,
    encode_uint, eval_predicate, hex_lower, payload_holds, scope_string_to_bytes, yaml_literal_to_bytes,
    BleAdvertFacts,
};
use camera_config::index::{
    AdvertByteSource, AdvertCapture, AdvertPredicate, BitsAssertion, BleAdvertSignature,
    ByteAssertion, Confidence, Encoding, LocalNamePredicate, MfgDataPredicate, PayloadPredicate,
    SuggestsBlock, Transform,
};
use camera_config::name_map::NameMap;
use camera_config::yaml::{Yaml, YamlNumber};
use std::collections::BTreeMap;

fn sig(require: AdvertPredicate, capture: Vec<AdvertCapture>) -> BleAdvertSignature {
    BleAdvertSignature {
        require,
        capture,
        scope: NameMap::new(),
        suggests: SuggestsBlock {
            connection: "ble".into(),
            confidence: Confidence::High,
        },
        discoverable: true,
        reconnect: None,
    }
}

fn mfg(company_id: Option<u16>, payload: PayloadPredicate) -> AdvertPredicate {
    AdvertPredicate::ManufacturerData(MfgDataPredicate {
        company_id,
        payload,
    })
}

#[test]
fn advert_capture_encodings_keys_each_capture_by_its_encoding() {
    let cap = |name: &str, encoding| AdvertCapture {
        source: AdvertByteSource::ManufacturerData,
        at: 1,
        length: Some(4),
        transform: vec![],
        encoding,
        name: name.into(),
    };
    let s = sig(
        mfg(Some(1), PayloadPredicate::default()),
        vec![
            cap("pairingKeyBytes", Encoding::Ascii),
            cap("idNumber", Encoding::U32),
        ],
    );
    let enc: BTreeMap<_, _> = advert_capture_encodings(&s).into_iter().collect();
    assert_eq!(enc.get("pairingKeyBytes"), Some(&Encoding::Ascii));
    assert_eq!(enc.get("idNumber"), Some(&Encoding::U32));
    assert_eq!(enc.len(), 2, "only captures carry an encoding");
}

#[test]
fn absent_fields_evaluate_false_and_not_inverts() {
    let facts = BleAdvertFacts::default();
    let name_pred = || {
        AdvertPredicate::LocalName(LocalNamePredicate {
            prefix: Some("GFX".into()),
            ..Default::default()
        })
    };
    assert!(!advert_matches(&sig(name_pred(), vec![]), &facts));
    assert!(advert_matches(
        &sig(AdvertPredicate::Not(Box::new(name_pred())), vec![]),
        &facts
    ));
    assert!(!advert_matches(
        &sig(mfg(None, PayloadPredicate::default()), vec![]),
        &facts
    ));
    assert!(!advert_matches(
        &sig(
            AdvertPredicate::TxPower {
                min: Some(-100),
                max: None
            },
            vec![]
        ),
        &facts
    ));
}

#[test]
fn combinators_and_bits_assertions() {
    let facts = BleAdvertFacts {
        service_uuids: vec!["0000de00-3dd4-4255-8d62-6dc7b9bd5561".into()],
        manufacturer_data: Some((0x012D, vec![0x21, 0b0000_0110, 0x07])),
        local_name: Some("ILCE-7M4".into()),
        tx_power: Some(-59),
        ..Default::default()
    };
    let svc = AdvertPredicate::ServiceUuids {
        contains: "0000DE00-3DD4-4255-8D62-6DC7B9BD5561".into(),
    };
    assert!(advert_matches(&sig(svc, vec![]), &facts));
    let bits = || {
        mfg(
            Some(0x012D),
            PayloadPredicate {
                assert_bits: vec![BitsAssertion {
                    offset: 1,
                    mask: 0x06,
                    equals: 0x06,
                }],
                ..Default::default()
            },
        )
    };
    assert!(advert_matches(&sig(bits(), vec![]), &facts));
    let wrong_byte = || {
        mfg(
            Some(0x012D),
            PayloadPredicate {
                assert_byte: vec![ByteAssertion {
                    index: 0,
                    equals: 0x99,
                }],
                ..Default::default()
            },
        )
    };
    assert!(advert_matches(
        &sig(
            AdvertPredicate::Any(vec![wrong_byte(), bits()]),
            vec![]
        ),
        &facts
    ));
    assert!(!advert_matches(
        &sig(AdvertPredicate::All(vec![wrong_byte(), bits()]), vec![]),
        &facts
    ));
    let oob = mfg(
        None,
        PayloadPredicate {
            assert_bits: vec![BitsAssertion {
                offset: 2,
                mask: 0xFFFF,
                equals: 0,
            }],
            ..Default::default()
        },
    );
    assert!(!advert_matches(&sig(oob, vec![]), &facts));
    assert!(advert_matches(
        &sig(
            AdvertPredicate::TxPower {
                min: Some(-70),
                max: Some(-50)
            },
            vec![]
        ),
        &facts
    ));
    assert!(advert_matches(
        &sig(
            AdvertPredicate::LocalName(LocalNamePredicate {
                prefix: Some("ILCE".into()),
                ..Default::default()
            }),
            vec![]
        ),
        &facts
    ));
}

#[test]
fn captures_pull_from_sources_through_transform_chains() {
    let facts = BleAdvertFacts {
        manufacturer_data: Some((0x01A9, vec![0x01, 0x34, 0x12, 0xAA])),
        local_name: Some("Canon EOS R5".into()),
        ad_records: vec![(0x21, vec![0x10, 0x20, 0x30])],
        ..Default::default()
    };
    let s = sig(
        mfg(Some(0x01A9), PayloadPredicate::default()),
        vec![
            AdvertCapture {
                source: AdvertByteSource::ManufacturerData,
                at: 1,
                length: Some(2),
                transform: vec![Transform::ReverseBytes],
                encoding: Encoding::U16Le,
                name: "usbId".into(),
            },
            AdvertCapture {
                source: AdvertByteSource::RawAdRecord { ad_type: 0x21 },
                at: 1,
                length: None,
                transform: vec![],
                encoding: Encoding::Bytes,
                name: "rawTail".into(),
            },
            AdvertCapture {
                source: AdvertByteSource::LocalName,
                at: 0,
                length: Some(5),
                transform: vec![],
                encoding: Encoding::Ascii,
                name: "brand".into(),
            },
            AdvertCapture {
                source: AdvertByteSource::ManufacturerData,
                at: 10,
                length: Some(1),
                transform: vec![],
                encoding: Encoding::U8,
                name: "missing".into(),
            },
            AdvertCapture {
                source: AdvertByteSource::ServiceData {
                    uuid: "FE2C".into(),
                },
                at: 0,
                length: None,
                transform: vec![],
                encoding: Encoding::Bytes,
                name: "absent".into(),
            },
        ],
    );
    let scope: BTreeMap<String, String> = advert_scope(&s, &facts).into_iter().collect();
    assert_eq!(scope.get("usbId").map(String::as_str), Some("13330"));
    assert_eq!(scope.get("rawTail").map(String::as_str), Some("2030"));
    assert_eq!(scope.get("brand").map(String::as_str), Some("Canon"));
    assert!(!scope.contains_key("missing"));
    assert!(!scope.contains_key("absent"));
}

#[test]
fn bit_or_reads_le_and_reemits_at_input_width() {
    let input = 0x0000_1234u32.to_le_bytes();
    let out = apply_transforms(&input, &[Transform::BitOr(0x2000_0000)]).unwrap();
    assert_eq!(out, 0x2000_1234u32.to_le_bytes());
}

#[test]
fn bit_ops_fail_beyond_8_bytes() {
    assert!(apply_transforms(&[0u8; 9], &[Transform::BitAnd(0xFF)]).is_none());
    assert!(apply_transforms(&[], &[Transform::BitOr(1)]).is_none());
}

#[test]
fn slice_and_drop_prefix_window() {
    let input = [0xAA, 0xBB, 0xCC, 0xDD];
    assert_eq!(
        apply_transforms(
            &input,
            &[Transform::Slice {
                at: 1,
                length: Some(2)
            }]
        ),
        Some(vec![0xBB, 0xCC])
    );
    assert_eq!(
        apply_transforms(&input, &[Transform::DropPrefix(3)]),
        Some(vec![0xDD])
    );
    assert_eq!(
        apply_transforms(
            &input,
            &[Transform::Slice {
                at: 2,
                length: None
            }]
        ),
        Some(vec![0xCC, 0xDD])
    );
    assert!(apply_transforms(
        &input,
        &[Transform::Slice {
            at: 3,
            length: Some(2)
        }]
    )
    .is_none());
    assert!(apply_transforms(&input, &[Transform::DropPrefix(5)]).is_none());
    assert_eq!(
        apply_transforms(&input, &[Transform::DropPrefix(4)]),
        Some(vec![])
    );
}

#[test]
fn reverse_bytes() {
    assert_eq!(
        apply_transforms(&[1, 2, 3], &[Transform::ReverseBytes]),
        Some(vec![3, 2, 1])
    );
}

#[test]
fn append_nul_emits_one_explicit_c_string_terminator() {
    assert_eq!(
        apply_transforms(b"Pixel 8", &[Transform::AppendNul]),
        Some(b"Pixel 8\0".to_vec())
    );
}

#[test]
fn pad_right_extends_to_exact_width_without_truncation() {
    let mut expected = b"SnapBridge".to_vec();
    expected.resize(32, 0);
    assert_eq!(
        apply_transforms(
            b"SnapBridge",
            &[Transform::PadRight {
                length: 32,
                byte: 0,
            }]
        ),
        Some(expected)
    );
    assert_eq!(
        apply_transforms(
            &[1, 2, 3],
            &[Transform::PadRight {
                length: 3,
                byte: 0xff,
            }]
        ),
        Some(vec![1, 2, 3])
    );
    assert!(
        apply_transforms(&[1, 2, 3, 4], &[Transform::PadRight { length: 3, byte: 0 }])
            .is_none()
    );
    assert!(
        apply_transforms(
            &[],
            &[Transform::PadRight {
                length: usize::MAX,
                byte: 0,
            }]
        )
        .is_none(),
        "programmatically constructed transforms must keep the same allocation ceiling"
    );
}

#[test]
fn encode_uint_matches_the_declared_width_and_order() {
    assert_eq!(encode_uint(0x78, Encoding::U8), Some(vec![0x78]));
    assert_eq!(encode_uint(0xffff, Encoding::U16Le), Some(vec![0xff, 0xff]));
    assert_eq!(encode_uint(1, Encoding::U16Le), Some(vec![0x01, 0x00]));
    assert_eq!(encode_uint(1, Encoding::U16Be), Some(vec![0x00, 0x01]));
    assert_eq!(encode_uint(120, Encoding::U32Le), Some(vec![0x78, 0, 0, 0]));
    assert_eq!(encode_uint(120, Encoding::U32Be), Some(vec![0, 0, 0, 0x78]));
    let bytes = encode_uint(258, Encoding::U16Le).unwrap();
    assert_eq!(
        decode_bytes(&bytes, Encoding::U16Le).as_deref(),
        Some("258")
    );
    assert_eq!(encode_uint(1, Encoding::Utf8), None);
    assert_eq!(encode_uint(1, Encoding::BytesRaw), None);
}

#[test]
fn utf8_cstring_decode_stops_at_first_nul() {
    let padded = b"FUJIFILM-GFX100II-0C3E\0\0\0\0\0\0\0\0\0\0";
    assert_eq!(
        decode_bytes(padded, Encoding::Utf8Cstring).as_deref(),
        Some("FUJIFILM-GFX100II-0C3E"),
    );
    assert_eq!(
        decode_bytes(padded, Encoding::Utf8).as_deref(),
        Some("FUJIFILM-GFX100II-0C3E\0\0\0\0\0\0\0\0\0\0"),
    );
    assert_eq!(
        decode_bytes(b"open", Encoding::Utf8Cstring).as_deref(),
        Some("open"),
    );
    assert_eq!(
        decode_bytes(&[0xff, 0x00, 0x41], Encoding::Utf8Cstring),
        None
    );
    assert_eq!(
        scope_string_to_bytes("FUJIFILM-GFX100II-0C3E", Some(Encoding::Utf8Cstring)).as_deref(),
        Some(&b"FUJIFILM-GFX100II-0C3E"[..]),
    );
}

#[test]
fn uuid_from_bytes_canonical_uppercase() {
    let input: [u8; 16] = [
        0xAF, 0x85, 0x4C, 0x2E, 0xB2, 0x14, 0x45, 0x8E, 0x97, 0xE2, 0x91, 0x2C, 0x4E, 0xCF,
        0x2C, 0xB8,
    ];
    let out = apply_transforms(&input, &[Transform::UuidFromBytes]).unwrap();
    assert_eq!(
        std::str::from_utf8(&out).unwrap(),
        "AF854C2E-B214-458E-97E2-912C4ECF2CB8"
    );
    assert!(apply_transforms(&[0u8; 15], &[Transform::UuidFromBytes]).is_none());
}

#[test]
fn assert_bits_huge_offset_is_false_not_panic() {
    let pred = PayloadPredicate {
        assert_bits: vec![BitsAssertion {
            offset: usize::MAX,
            mask: 0xFF,
            equals: 0,
        }],
        ..Default::default()
    };
    assert!(!payload_holds(&pred, &[0x01, 0x02, 0x03]));
}

#[test]
fn bits_mask_and_shift() {
    let out = apply_transforms(
        &[0b1010_1100],
        &[Transform::Bits {
            mask: 0b0000_1100,
            shift: 2,
        }],
    )
    .unwrap();
    assert_eq!(out, vec![0b11]);
}

#[test]
fn chain_applies_in_order() {
    let input = [0x01, 0x02, 0x03, 0x04];
    let out = apply_transforms(
        &input,
        &[
            Transform::ReverseBytes,
            Transform::Slice {
                at: 0,
                length: Some(2),
            },
        ],
    )
    .unwrap();
    assert_eq!(out, vec![0x04, 0x03]);
}

#[test]
fn empty_chain_is_identity() {
    assert_eq!(apply_transforms(&[7, 8], &[]), Some(vec![7, 8]));
}

#[test]
fn a_joined_chain_does_what_its_parts_do_in_turn() {
    let input = [9, 8, 7, 6, 5];
    let first = vec![Transform::DropPrefix(1), Transform::ReverseBytes];
    let second = vec![Transform::BitAnd(0x00ff_ffff), Transform::AppendNul];
    let joined = vec![
        Transform::DropPrefix(1),
        Transform::ReverseBytes,
        Transform::BitAnd(0x00ff_ffff),
        Transform::AppendNul,
    ];
    let between = apply_transforms(&input, &first).unwrap();
    assert_eq!(between, vec![5, 6, 7, 8]);
    assert_eq!(apply_transforms(&input, &joined), apply_transforms(&between, &second));
    assert_eq!(apply_transforms(&input, &joined), Some(vec![5, 6, 7, 0, 0]));
}

#[test]
fn reversing_twice_gives_the_bytes_back() {
    assert_eq!(
        apply_transforms(&[1, 2, 3], &[Transform::ReverseBytes, Transform::ReverseBytes]),
        Some(vec![1, 2, 3])
    );
}

#[test]
fn every_encoding_decodes() {
    assert_eq!(decode_bytes(&[0xaf, 0x01], Encoding::Bytes).as_deref(), Some("af01"));
    assert_eq!(decode_bytes(&[0xaf, 0x01], Encoding::BytesRaw).as_deref(), Some("af01"));
    assert_eq!(decode_bytes(&[0xaf, 0x01], Encoding::BytesLe).as_deref(), Some("af01"));
    assert_eq!(decode_bytes(&[0xaf, 0x01], Encoding::BytesBe).as_deref(), Some("af01"));
    assert_eq!(decode_bytes(&[200], Encoding::U8).as_deref(), Some("200"));
    assert_eq!(decode_bytes(&[1, 2], Encoding::U8), None);
    assert_eq!(decode_bytes(&[1, 2], Encoding::U16Be).as_deref(), Some("258"));
    assert_eq!(decode_bytes(&[1, 0, 0, 0], Encoding::U32).as_deref(), Some("1"));
    assert_eq!(
        decode_bytes(&[0xff, 0xff, 0xff, 0xff], Encoding::U32Le).as_deref(),
        Some("4294967295")
    );
    assert_eq!(decode_bytes(&[0, 0, 1, 0], Encoding::U32Be).as_deref(), Some("256"));
    assert_eq!(decode_bytes(&[0x41, 0x80], Encoding::Ascii), None);
    assert_eq!(decode_bytes(&[0x41, 0x42], Encoding::Ascii).as_deref(), Some("AB"));
    assert_eq!(decode_bytes(&[0xc3, 0xa9], Encoding::Utf8).as_deref(), Some("\u{e9}"));
    assert_eq!(decode_bytes(&[0xc3], Encoding::Utf8), None);
    assert_eq!(hex_lower(&[0x00, 0xfe]), "00fe");
}

#[test]
fn scope_texts_become_bytes() {
    assert_eq!(scope_string_to_bytes("0x0A0b", None), Some(vec![10, 11]));
    assert_eq!(scope_string_to_bytes("ABCDE", None), Some(b"ABCDE".to_vec()));
    assert_eq!(scope_string_to_bytes("", None), Some(vec![]));
    assert_eq!(scope_string_to_bytes("0x", None), Some(b"0x".to_vec()));
    assert_eq!(scope_string_to_bytes("cafe", Some(Encoding::Utf8)), Some(b"cafe".to_vec()));
    assert_eq!(scope_string_to_bytes("cafe", Some(Encoding::BytesRaw)), Some(vec![0xca, 0xfe]));
    assert_eq!(scope_string_to_bytes("258", Some(Encoding::U16Be)), Some(vec![1, 2]));
    assert_eq!(scope_string_to_bytes("256", Some(Encoding::U8)), None);
    assert_eq!(scope_string_to_bytes("+7", Some(Encoding::U8)), Some(vec![7]));
    assert_eq!(scope_string_to_bytes("seven", Some(Encoding::U32)), None);
}

#[test]
fn literals_become_bytes() {
    let number = |n: u64| Yaml::Number(YamlNumber::Unsigned(n));
    let text = |s: &str| Yaml::String(s.into());
    assert_eq!(yaml_literal_to_bytes(&text(" 0x0102 "), None), Some(vec![1, 2]));
    assert_eq!(yaml_literal_to_bytes(&text("open"), None), None);
    assert_eq!(
        yaml_literal_to_bytes(&text("open"), Some(Encoding::Utf8)),
        Some(b"open".to_vec())
    );
    assert_eq!(
        yaml_literal_to_bytes(&number(0x12345), Some(Encoding::U16Le)),
        Some(vec![0x45, 0x23])
    );
    assert_eq!(yaml_literal_to_bytes(&number(1), None), None);
    assert_eq!(
        yaml_literal_to_bytes(&Yaml::Sequence(vec![number(1), number(255)]), None),
        Some(vec![1, 255])
    );
    assert_eq!(yaml_literal_to_bytes(&Yaml::Sequence(vec![number(256)]), None), None);
    assert_eq!(yaml_literal_to_bytes(&Yaml::Null, Some(Encoding::U8)), None);
    let tagged = Yaml::Tagged { tag: "byte".into(), value: Box::new(number(7)) };
    assert_eq!(yaml_literal_to_bytes(&Yaml::Sequence(vec![tagged]), None), Some(vec![7]));
}

#[test]
fn service_data_and_raw_records_are_searched() {
    let facts = BleAdvertFacts {
        service_data: vec![("FE2C".into(), vec![1]), ("fe2c".into(), vec![1, 2])],
        ad_records: vec![(0x16, vec![9]), (0x16, vec![9, 9])],
        ..Default::default()
    };
    let two = || PayloadPredicate { length: Some(2), ..Default::default() };
    assert!(advert_matches(
        &sig(AdvertPredicate::ServiceData { uuid: "Fe2C".into(), payload: two() }, vec![]),
        &facts
    ));
    assert!(advert_matches(
        &sig(AdvertPredicate::RawAdRecord { ad_type: 0x16, payload: two() }, vec![]),
        &facts
    ));
    assert!(!advert_matches(
        &sig(AdvertPredicate::RawAdRecord { ad_type: 0x17, payload: two() }, vec![]),
        &facts
    ));
    let long = PayloadPredicate { min_length: Some(3), ..Default::default() };
    assert!(!payload_holds(&long, &[1, 2]));
    assert!(payload_holds(&long, &[1, 2, 3]));
}

#[test]
fn local_names_are_compared_whole_by_prefix_or_by_part() {
    let facts = BleAdvertFacts { local_name: Some("GFX100-0C3E".into()), ..Default::default() };
    let named = |equals: Option<&str>, prefix: Option<&str>, contains: Option<&str>| {
        sig(
            AdvertPredicate::LocalName(LocalNamePredicate {
                equals: equals.map(String::from),
                prefix: prefix.map(String::from),
                contains: contains.map(String::from),
            }),
            vec![],
        )
    };
    assert!(advert_matches(&named(Some("GFX100-0C3E"), None, None), &facts));
    assert!(!advert_matches(&named(Some("GFX100"), None, None), &facts));
    assert!(advert_matches(&named(None, Some("GFX"), None), &facts));
    assert!(!advert_matches(&named(None, Some("0C3E"), None), &facts));
    assert!(advert_matches(&named(None, None, Some("100-")), &facts));
    assert!(advert_matches(&named(None, None, Some("")), &facts));
    assert!(!advert_matches(&named(None, None, Some("XT5")), &facts));
    assert!(!advert_matches(&named(None, None, None), &facts));
}

#[test]
fn literal_scope_comes_before_captures() {
    let mut s = sig(
        mfg(None, PayloadPredicate::default()),
        vec![AdvertCapture {
            source: AdvertByteSource::ManufacturerData,
            at: 0,
            length: Some(1),
            transform: vec![],
            encoding: Encoding::U8,
            name: "first".into(),
        }],
    );
    s.scope.insert("style".into(), "red".into());
    let facts = BleAdvertFacts { manufacturer_data: Some((1, vec![5, 6])), ..Default::default() };
    assert_eq!(
        advert_scope(&s, &facts),
        vec![("style".to_string(), "red".to_string()), ("first".to_string(), "5".to_string())]
    );
}

#[test]
fn a_shift_past_the_last_bit_fails_the_chain() {
    let bits = |shift: u32| [Transform::Bits { mask: u64::MAX, shift }];
    assert_eq!(apply_transforms(&[0x80; 8], &bits(63)), Some(vec![1, 0, 0, 0, 0, 0, 0, 0]));
    assert_eq!(apply_transforms(&[0xff], &bits(64)), None);
    assert_eq!(apply_transforms(&[0xff], &bits(u32::MAX)), None);
}

#[test]
fn any_entry_can_meet_a_predicate() {
    let payload = |length: usize| PayloadPredicate { length: Some(length), ..Default::default() };
    let facts = BleAdvertFacts {
        manufacturer_data: None,
        service_uuids: vec!["180A".into(), "fd5f".into()],
        service_data: vec![("FD5F".into(), vec![1]), ("fd5f".into(), vec![1, 2])],
        local_name: None,
        tx_power: Some(-4),
        ad_records: vec![(0x16, vec![1]), (0x16, vec![1, 2, 3])],
    };
    let met = |p: &AdvertPredicate| eval_predicate(p, &facts);
    assert!(met(&AdvertPredicate::ServiceUuids { contains: "FD5F".into() }));
    assert!(!met(&AdvertPredicate::ServiceUuids { contains: "fe00".into() }));
    let service = |n| AdvertPredicate::ServiceData { uuid: "Fd5f".into(), payload: payload(n) };
    assert!(met(&service(2)));
    assert!(!met(&service(3)));
    let raw = |n| AdvertPredicate::RawAdRecord { ad_type: 0x16, payload: payload(n) };
    assert!(met(&raw(3)));
    assert!(!met(&raw(2)));
    let power = |min, max| AdvertPredicate::TxPower { min, max };
    assert!(met(&power(Some(-4), Some(-4))));
    assert!(!met(&power(Some(-3), None)));
    assert!(!met(&power(None, Some(-5))));
    let name = || {
        AdvertPredicate::LocalName(LocalNamePredicate {
            equals: None,
            prefix: Some(String::new()),
            contains: None,
        })
    };
    assert!(!met(&name()));
    assert!(met(&AdvertPredicate::Any(vec![name(), service(2)])));
    assert!(!met(&AdvertPredicate::All(vec![name(), service(2)])));
    assert!(met(&AdvertPredicate::All(vec![raw(1), raw(3)])));
}
