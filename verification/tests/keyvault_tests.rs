use csfle::datakey::{build_master_key_descriptor, create_data_key};
use csfle::document::{Binary, BinarySubtype, Bson, Document};
use csfle::error::write_err_code;
use csfle::keyvault::KeyVault;
use csfle::provider::{kms_endpoint, KmsProvider, KmsProviderConfig, KmsProviderRegistry, MasterKey};

fn local_registry() -> KmsProviderRegistry {
    let mut creds = Document::new();
    creds.insert(
        "key".to_string(),
        Bson::Binary(Binary {
            subtype: BinarySubtype::Generic,
            bytes: vec![0x5A; 96],
        }),
    );
    KmsProviderRegistry {
        entries: vec![KmsProviderConfig {
            provider: KmsProvider::Local,
            credentials: creds,
            tls: None,
            endpoint: None,
        }],
    }
}

fn new_key(vault: &mut KeyVault, registry: &KmsProviderRegistry, names: Vec<String>, seed: u8) -> Result<Vec<u8>, csfle::error::Error> {
    create_data_key(
        vault,
        registry,
        names,
        None,
        vec![seed; 64],
        vec![seed; 16],
        1000,
    )
}

#[test]
fn duplicate_alt_name_on_create_is_write_error_11000() {
    let registry = local_registry();
    let mut vault = KeyVault::new();

    // Succeeds
    new_key(&mut vault, &registry, vec!["abc".to_string()], 1).unwrap();
    // Fails: duplicate key
    let err = new_key(&mut vault, &registry, vec!["abc".to_string()], 2).unwrap_err();
    assert_eq!(Some(11000), write_err_code(&err), "unexpected error: {:?}", err);
    // Fails: one name given twice in a single request
    let err = new_key(
        &mut vault,
        &registry,
        vec!["def".to_string(), "def".to_string()],
        3,
    )
    .unwrap_err();
    assert_eq!(Some(11000), write_err_code(&err));
    // The failed writes left nothing behind.
    assert!(vault.find_by_alt_name(&"def".to_string()).is_none());
}

#[test]
fn add_key_alt_name_semantics() {
    let registry = local_registry();
    let mut vault = KeyVault::new();
    let key = new_key(&mut vault, &registry, vec!["def".to_string()], 1).unwrap();

    // Succeeds
    let new_key_id = new_key(&mut vault, &registry, vec![], 2).unwrap();
    vault
        .add_key_alt_name(&new_key_id, &"abc".to_string(), 2000)
        .unwrap();
    // Still succeeds, has alt name; the prior record comes back.
    let prev_key = vault
        .add_key_alt_name(&new_key_id, &"abc".to_string(), 3000)
        .unwrap()
        .unwrap();
    assert_eq!(prev_key.key_alt_names, vec!["abc".to_string()]);
    // Fails: adding the alt name used for `key` to `new_key_id`
    let err = vault
        .add_key_alt_name(&new_key_id, &"def".to_string(), 4000)
        .unwrap_err();
    assert_eq!(Some(11000), write_err_code(&err), "unexpected error: {:?}", err);
    // Succeeds: re-adding the alt name already on `key`
    let prev_key = vault
        .add_key_alt_name(&key, &"def".to_string(), 5000)
        .unwrap()
        .unwrap();
    assert_eq!(prev_key.key_alt_names, vec!["def".to_string()]);
    // An id that matches nothing updates nothing.
    assert!(vault
        .add_key_alt_name(&vec![9u8; 16], &"zzz".to_string(), 6000)
        .unwrap()
        .is_none());
}

#[test]
fn duplicate_key_id_is_write_error_11000() {
    let registry = local_registry();
    let mut vault = KeyVault::new();
    new_key(&mut vault, &registry, vec![], 1).unwrap();
    let err = new_key(&mut vault, &registry, vec![], 1).unwrap_err();
    assert_eq!(Some(11000), write_err_code(&err));
}

#[test]
fn custom_key_material_gives_deterministic_ciphertext() {
    // Two vaults, two keys created from the same supplied key material:
    // deterministic encryption under them is byte-identical.
    let registry = local_registry();
    let material: Vec<u8> = (0u8..96).collect();
    let mut payloads: Vec<Vec<u8>> = Vec::new();
    for _ in 0..2 {
        let mut vault = KeyVault::new();
        let id = create_data_key(
            &mut vault,
            &registry,
            vec![],
            Some(material.clone()),
            vec![0xEE; 64],
            vec![3; 16],
            1000,
        )
        .unwrap();
        let payload = csfle::explicit::encrypt(
            &vault,
            &registry,
            &Bson::String("test".to_string()),
            &csfle::explicit::EncryptKey::Id(id),
            csfle::encryptor::Algorithm::Deterministic,
            None,
            None,
            &csfle::encryptor::Entropy {
                iv: vec![0; 16],
                slot_draw: 0,
            },
        )
        .unwrap();
        payloads.push(payload.bytes);
    }
    assert_eq!(payloads[0], payloads[1]);
}

#[test]
fn delete_removes_the_record() {
    let registry = local_registry();
    let mut vault = KeyVault::new();
    let id = new_key(&mut vault, &registry, vec!["gone".to_string()], 1).unwrap();
    assert!(vault.find_by_id(&id).is_some());
    assert!(vault.delete(&id));
    assert!(vault.find_by_id(&id).is_none());
    assert!(!vault.delete(&id));
}

#[test]
fn every_vault_write_uses_majority_write_concern() {
    let registry = local_registry();
    let mut vault = KeyVault::new();
    let id = new_key(&mut vault, &registry, vec![], 1).unwrap();
    let _ = vault.add_key_alt_name(&id, &"n".to_string(), 2000);
    let _ = vault.delete(&id);
    assert!(!vault.writes.is_empty());
    for w in &vault.writes {
        assert!(w.majority);
    }
}

#[test]
fn master_key_descriptor_names_the_provider() {
    let mk = MasterKey::Aws {
        region: "us-east-1".to_string(),
        key: "arn:aws:kms:us-east-1:0:key/k".to_string(),
        endpoint: None,
    };
    let d = build_master_key_descriptor(&mk);
    match d.get(&"provider".to_string()) {
        Some(Bson::String(s)) => assert_eq!(s, "aws"),
        other => panic!("unexpected provider entry: {:?}", other),
    }
    match d.get(&"region".to_string()) {
        Some(Bson::String(s)) => assert_eq!(s, "us-east-1"),
        other => panic!("unexpected region entry: {:?}", other),
    }
    let local = build_master_key_descriptor(&MasterKey::Local);
    match local.get(&"provider".to_string()) {
        Some(Bson::String(s)) => assert_eq!(s, "local"),
        other => panic!("unexpected provider entry: {:?}", other),
    }
}

#[test]
fn endpoint_selection_prefers_the_explicit_endpoint() {
    let aws_default = MasterKey::Aws {
        region: "us-east-1".to_string(),
        key: "k".to_string(),
        endpoint: None,
    };
    assert_eq!(
        kms_endpoint(&aws_default, None),
        Some("kms.us-east-1.amazonaws.com".to_string())
    );
    let aws_override = MasterKey::Aws {
        region: "us-east-1".to_string(),
        key: "k".to_string(),
        endpoint: Some("kms.us-east-1.amazonaws.com:443".to_string()),
    };
    assert_eq!(
        kms_endpoint(&aws_override, None),
        Some("kms.us-east-1.amazonaws.com:443".to_string())
    );
    assert_eq!(kms_endpoint(&MasterKey::Local, None), None);
    let kmip = MasterKey::Kmip {
        key_id: Some("1".to_string()),
        endpoint: None,
    };
    let provider_default = "localhost:5698".to_string();
    assert_eq!(
        kms_endpoint(&kmip, Some(&provider_default)),
        Some("localhost:5698".to_string())
    );
}

#[test]
fn missing_provider_is_a_configuration_error() {
    let registry = local_registry();
    let err = registry.resolve(KmsProvider::Gcp).unwrap_err();
    assert!(matches!(
        err.kind,
        csfle::error::ErrorKind::Configuration { .. }
    ));
}
