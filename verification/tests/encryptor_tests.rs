use csfle::b64::base64_uuid;
use csfle::codec::{decode_value, encode_value};
use csfle::document::{Binary, BinarySubtype, Bson, Document};
use csfle::encryptor::{equality_query_matches, Algorithm, Entropy, QueryType};
use csfle::error::CsfleKind;
use csfle::error::ErrorKind;
use csfle::explicit::{decrypt, encrypt, EncryptKey};
use csfle::keyvault::KeyVault;
use csfle::provider::{KmsProvider, KmsProviderConfig, KmsProviderRegistry};

fn local_registry() -> KmsProviderRegistry {
    let mut creds = Document::new();
    creds.insert(
        "key".to_string(),
        Bson::Binary(Binary {
            subtype: BinarySubtype::Generic,
            bytes: (0u8..96).collect(),
        }),
    );
    KmsProviderRegistry {
        entries: vec![KmsProviderConfig {
            provider: KmsProvider::Local,
            credentials: creds,
            tls: None,
            endpoint: None,
        }],
    }
}

fn vault_with_key(alt_names: Vec<String>) -> (KeyVault, Vec<u8>, KmsProviderRegistry) {
    let registry = local_registry();
    let mut vault = KeyVault::new();
    let id = csfle::datakey::create_data_key(
        &mut vault,
        &registry,
        alt_names,
        None,
        (10u8..74).collect(),
        vec![7u8; 16],
        1000,
    )
    .expect("creating a data key should succeed");
    (vault, id, registry)
}

fn entropy(seed: u8, draw: u64) -> Entropy {
    Entropy {
        iv: vec![seed; 16],
        slot_draw: draw,
    }
}

#[test]
fn roundtrip_every_algorithm() {
    let (vault, id, registry) = vault_with_key(vec![]);
    let key = EncryptKey::Id(id);
    let cases: Vec<(Algorithm, Option<i64>, Bson)> = vec![
        (Algorithm::Random, None, Bson::String("hello".to_string())),
        (Algorithm::Deterministic, None, Bson::String("hello".to_string())),
        (Algorithm::Indexed, Some(4), Bson::String("hello".to_string())),
        (Algorithm::Unindexed, None, Bson::String("hello".to_string())),
        (Algorithm::Random, None, Bson::Int32(-7)),
        (Algorithm::Deterministic, None, Bson::Int64(1 << 40)),
        (Algorithm::Random, None, Bson::Boolean(true)),
        (
            Algorithm::Unindexed,
            None,
            Bson::Binary(Binary {
                subtype: BinarySubtype::Generic,
                bytes: vec![1, 2, 3],
            }),
        ),
    ];
    for (algorithm, cf, value) in cases {
        let payload = encrypt(
            &vault,
            &registry,
            &value,
            &key,
            algorithm,
            cf,
            None,
            &entropy(9, 3),
        )
        .expect("encryption should succeed");
        assert_eq!(payload.subtype, BinarySubtype::Encrypted);
        let back = decrypt(&vault, &registry, &payload.bytes).expect("decryption should succeed");
        assert_eq!(back, value);
    }
}

#[test]
fn deterministic_is_byte_identical_across_calls() {
    let (vault, id, registry) = vault_with_key(vec![]);
    let key = EncryptKey::Id(id);
    let value = Bson::String("test".to_string());
    let one = encrypt(
        &vault,
        &registry,
        &value,
        &key,
        Algorithm::Deterministic,
        None,
        None,
        &entropy(1, 1),
    )
    .unwrap();
    let two = encrypt(
        &vault,
        &registry,
        &value,
        &key,
        Algorithm::Deterministic,
        None,
        None,
        &entropy(200, 999),
    )
    .unwrap();
    assert_eq!(one.bytes, two.bytes);
}

#[test]
fn random_differs_across_calls_with_fresh_randomness() {
    let (vault, id, registry) = vault_with_key(vec![]);
    let key = EncryptKey::Id(id);
    let value = Bson::String("test".to_string());
    let one = encrypt(
        &vault,
        &registry,
        &value,
        &key,
        Algorithm::Random,
        None,
        None,
        &entropy(1, 0),
    )
    .unwrap();
    let two = encrypt(
        &vault,
        &registry,
        &value,
        &key,
        Algorithm::Random,
        None,
        None,
        &entropy(2, 0),
    )
    .unwrap();
    assert_ne!(one.bytes, two.bytes);
}

#[test]
fn zero_contention_always_occupies_slot_zero() {
    let (vault, id, registry) = vault_with_key(vec![]);
    let key = EncryptKey::Id(id);
    let value = Bson::String("encrypted indexed value".to_string());
    let mut first_token: Option<Vec<u8>> = None;
    for draw in [0u64, 1, 17, 123456789] {
        let payload = encrypt(
            &vault,
            &registry,
            &value,
            &key,
            Algorithm::Indexed,
            Some(0),
            None,
            &entropy(3, draw),
        )
        .unwrap();
        // The slot token stands at a fixed offset; the slot the draw landed
        // in is its first eight bytes.
        let token = payload.bytes[33..57].to_vec();
        assert_eq!(&token[0..8], &[0u8; 8], "slot must be zero");
        match &first_token {
            None => first_token = Some(token),
            Some(t) => assert_eq!(t, &token, "same slot, same token"),
        }
    }
}

#[test]
fn query_fanout_over_contention_slots() {
    let (vault, id, registry) = vault_with_key(vec![]);
    let key = EncryptKey::Id(id);
    let value = Bson::String("encrypted indexed value".to_string());
    let mut stored: Vec<Vec<u8>> = Vec::new();
    for draw in 0u64..10 {
        let payload = encrypt(
            &vault,
            &registry,
            &value,
            &key,
            Algorithm::Indexed,
            Some(9),
            None,
            &entropy(4, draw),
        )
        .unwrap();
        stored.push(payload.bytes);
    }
    let wide_query = encrypt(
        &vault,
        &registry,
        &value,
        &key,
        Algorithm::Indexed,
        Some(9),
        Some(QueryType::Equality),
        &entropy(5, 0),
    )
    .unwrap();
    let narrow_query = encrypt(
        &vault,
        &registry,
        &value,
        &key,
        Algorithm::Indexed,
        Some(0),
        Some(QueryType::Equality),
        &entropy(6, 0),
    )
    .unwrap();
    let wide_hits = stored
        .iter()
        .filter(|s| equality_query_matches(s, &wide_query.bytes))
        .count();
    let narrow_hits = stored
        .iter()
        .filter(|s| equality_query_matches(s, &narrow_query.bytes))
        .count();
    // A query built with the insert's contention factor reaches every insert.
    assert_eq!(wide_hits, 10);
    // One built with factor zero reaches only the slot-zero inserts.
    assert_eq!(narrow_hits, 1);
    // A different value under the same key is never reached.
    let other_query = encrypt(
        &vault,
        &registry,
        &Bson::String("another value".to_string()),
        &key,
        Algorithm::Indexed,
        Some(9),
        Some(QueryType::Equality),
        &entropy(7, 0),
    )
    .unwrap();
    let other_hits = stored
        .iter()
        .filter(|s| equality_query_matches(s, &other_query.bytes))
        .count();
    assert_eq!(other_hits, 0);
}

#[test]
fn tampered_ciphertext_is_rejected_as_validation_failure() {
    let (vault, id, registry) = vault_with_key(vec![]);
    let key = EncryptKey::Id(id);
    let value = Bson::String("hello".to_string());
    for algorithm in [
        Algorithm::Random,
        Algorithm::Deterministic,
        Algorithm::Indexed,
        Algorithm::Unindexed,
    ] {
        let cf = if matches!(algorithm, Algorithm::Indexed) {
            Some(2)
        } else {
            None
        };
        let payload = encrypt(
            &vault,
            &registry,
            &value,
            &key,
            algorithm,
            cf,
            None,
            &entropy(8, 5),
        )
        .unwrap();
        let mut tampered = payload.bytes.clone();
        let last = tampered.last_mut().unwrap();
        *last = last.wrapping_add(1);
        let err = decrypt(&vault, &registry, &tampered).unwrap_err();
        assert!(err.is_csfle_error());
        assert!(matches!(
            err.kind,
            ErrorKind::Csfle {
                kind: CsfleKind::Validation,
                ..
            }
        ));
    }
}

#[test]
fn alt_name_reference_resolves_to_the_same_key() {
    let (vault, _id, registry) = vault_with_key(vec!["local".to_string()]);
    let value = Bson::String("string0".to_string());
    let by_name = encrypt(
        &vault,
        &registry,
        &value,
        &EncryptKey::AltName("local".to_string()),
        Algorithm::Deterministic,
        None,
        None,
        &entropy(1, 0),
    )
    .unwrap();
    let id = vault.find_by_alt_name(&"local".to_string()).unwrap().id.clone();
    let by_id = encrypt(
        &vault,
        &registry,
        &value,
        &EncryptKey::Id(id),
        Algorithm::Deterministic,
        None,
        None,
        &entropy(1, 0),
    )
    .unwrap();
    assert_eq!(by_name.bytes, by_id.bytes);
}

#[test]
fn unknown_key_reference_is_key_not_found() {
    let (vault, _id, registry) = vault_with_key(vec![]);
    let err = encrypt(
        &vault,
        &registry,
        &Bson::String("x".to_string()),
        &EncryptKey::Id(vec![0u8; 16]),
        Algorithm::Random,
        None,
        None,
        &entropy(1, 0),
    )
    .unwrap_err();
    assert!(matches!(err.kind, ErrorKind::KeyNotFound { .. }));
}

#[test]
fn already_encrypted_values_and_bad_options_are_rejected() {
    let (vault, id, registry) = vault_with_key(vec![]);
    let key = EncryptKey::Id(id);
    let ciphertext_value = Bson::Binary(Binary {
        subtype: BinarySubtype::Encrypted,
        bytes: vec![1, 2, 3],
    });
    let err = encrypt(
        &vault,
        &registry,
        &ciphertext_value,
        &key,
        Algorithm::Random,
        None,
        None,
        &entropy(1, 0),
    )
    .unwrap_err();
    assert!(matches!(
        err.kind,
        ErrorKind::Csfle {
            kind: CsfleKind::IncompatibleValue,
            ..
        }
    ));

    // A boolean cannot be encrypted with an equality-preserving algorithm.
    let err = encrypt(
        &vault,
        &registry,
        &Bson::Boolean(true),
        &key,
        Algorithm::Deterministic,
        None,
        None,
        &entropy(1, 0),
    )
    .unwrap_err();
    assert!(matches!(
        err.kind,
        ErrorKind::Csfle {
            kind: CsfleKind::IncompatibleValue,
            ..
        }
    ));

    // The indexed algorithm needs a contention factor; others refuse one.
    let err = encrypt(
        &vault,
        &registry,
        &Bson::Int32(5),
        &key,
        Algorithm::Indexed,
        None,
        None,
        &entropy(1, 0),
    )
    .unwrap_err();
    assert!(matches!(
        err.kind,
        ErrorKind::Csfle {
            kind: CsfleKind::InvalidOptions,
            ..
        }
    ));
    let err = encrypt(
        &vault,
        &registry,
        &Bson::Int32(5),
        &key,
        Algorithm::Random,
        Some(3),
        None,
        &entropy(1, 0),
    )
    .unwrap_err();
    assert!(matches!(
        err.kind,
        ErrorKind::Csfle {
            kind: CsfleKind::InvalidOptions,
            ..
        }
    ));
}

#[test]
fn wire_layout_of_a_payload() {
    let (vault, id, registry) = vault_with_key(vec![]);
    let key = EncryptKey::Id(id.clone());
    let value = Bson::Int32(1);
    let payload = encrypt(
        &vault,
        &registry,
        &value,
        &key,
        Algorithm::Random,
        None,
        None,
        &entropy(0xAB, 0),
    )
    .unwrap();
    let w = &payload.bytes;
    assert_eq!(w[0], 1, "algorithm tag byte");
    assert_eq!(&w[1..17], id.as_slice(), "embedded key id");
    assert_eq!(&w[17..33], &[0xAB; 16], "embedded IV");
    // tag(1) + key id(16) + IV(16) + enciphered 5-byte body + tag(16)
    assert_eq!(w.len(), 1 + 16 + 16 + 5 + 16);
}

#[test]
fn value_codec_exact_bytes() {
    assert_eq!(encode_value(&Bson::Int32(1)), vec![1, 1, 0, 0, 0]);
    assert_eq!(
        encode_value(&Bson::Int64(-2)),
        vec![2, 254, 255, 255, 255, 255, 255, 255, 255]
    );
    assert_eq!(encode_value(&Bson::Boolean(true)), vec![3, 1]);
    assert_eq!(
        encode_value(&Bson::String("hi".to_string())),
        vec![4, b'h', b'i']
    );
    assert_eq!(encode_value(&Bson::Null), vec![6]);
    assert_eq!(decode_value(&[1, 1, 0, 0, 0]), Some(Bson::Int32(1)));
    assert_eq!(decode_value(&[3, 7]), None, "a boolean byte must be 0 or 1");
    assert_eq!(decode_value(&[4, 0xFF]), None, "string bytes must be UTF-8");
    assert_eq!(decode_value(&[]), None);
}

#[test]
fn base64_uuid_decodes_key_ids() {
    let b = base64_uuid("AAAAAAAAAAAAAAAAAAAAAA==").unwrap();
    assert_eq!(b.subtype, BinarySubtype::Uuid);
    assert_eq!(b.bytes, vec![0u8; 16]);
    let b = base64_uuid("LOCALAAAAAAAAAAAAAAAAA==").unwrap();
    assert_eq!(b.bytes.len(), 16);
    assert!(base64_uuid("not base64!").is_err());
    assert_eq!(
        csfle::b64::parse_key_id_base64("AAAAAAAAAAAAAAAAAAAAAA=="),
        Some(vec![0u8; 16])
    );
    assert_eq!(csfle::b64::parse_key_id_base64("AAAA"), None);
}

#[test]
fn decrypt_failures_name_their_cause() {
    let (vault, id, registry) = vault_with_key(vec![]);
    let payload = encrypt(
        &vault,
        &registry,
        &Bson::String("hello".to_string()),
        &EncryptKey::Id(id),
        Algorithm::Random,
        None,
        None,
        &entropy(1, 0),
    )
    .unwrap();

    // A payload too short to carry a key id is malformed.
    let err = decrypt(&vault, &registry, &[1, 2, 3]).unwrap_err();
    assert!(matches!(
        err.kind,
        ErrorKind::Csfle {
            kind: CsfleKind::Malformed,
            ..
        }
    ));

    // A payload naming a key that no record carries is key-not-found.
    let empty_vault = KeyVault::new();
    let err = decrypt(&empty_vault, &registry, &payload.bytes).unwrap_err();
    assert!(matches!(err.kind, ErrorKind::KeyNotFound { .. }));

    // A payload with an unknown algorithm tag is malformed.
    let mut bad = payload.bytes.clone();
    bad[0] = 9;
    let err = decrypt(&vault, &registry, &bad).unwrap_err();
    assert!(matches!(
        err.kind,
        ErrorKind::Csfle {
            kind: CsfleKind::Malformed,
            ..
        }
    ));
}
