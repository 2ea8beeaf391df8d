use csfle::clients::{
    allocate_clients, insert_and_find_plan, ok_pred, CommandFailedEvent, CommandSucceededEvent,
    DeadlockExpectation, DecryptionEventsHandler, PoolHandle,
};
use csfle::document::{Binary, BinarySubtype, Bson, Document};
use csfle::encryptor::Algorithm;
use csfle::error::write_err_code;
use csfle::explicit::EncryptKey;
use csfle::keyvault::KeyVault;
use csfle::pipeline::{
    check_not_view, encrypt_marked, next_state, process_reply, resolve_schema,
    select_marking_capability, split_insert_batches, AutoEncryptionOptions, CollectionInfo,
    FieldMarking, MarkingCapability, PipelineState, SchemaSource,
};
use csfle::provider::{KmsProvider, KmsProviderConfig, KmsProviderRegistry};

fn options() -> AutoEncryptionOptions {
    AutoEncryptionOptions {
        bypass_auto_encryption: false,
        bypass_query_analysis: false,
        schema_map: Vec::new(),
        encrypted_fields_map: Vec::new(),
        crypt_shared_lib_path: None,
        disable_crypt_shared: false,
        mongocryptd_bypass_spawn: false,
    }
}

fn local_setup() -> (KeyVault, Vec<u8>, KmsProviderRegistry) {
    let mut creds = Document::new();
    creds.insert(
        "key".to_string(),
        Bson::Binary(Binary {
            subtype: BinarySubtype::Generic,
            bytes: vec![0x11; 96],
        }),
    );
    let registry = KmsProviderRegistry {
        entries: vec![KmsProviderConfig {
            provider: KmsProvider::Local,
            credentials: creds,
            tls: None,
            endpoint: None,
        }],
    };
    let mut vault = KeyVault::new();
    let id = csfle::datakey::create_data_key(
        &mut vault,
        &registry,
        vec![],
        None,
        vec![0x22; 64],
        vec![0x33; 16],
        1000,
    )
    .unwrap();
    (vault, id, registry)
}

#[test]
fn views_are_prohibited() {
    let info = CollectionInfo {
        is_view: true,
        validator: None,
    };
    let err = check_not_view(&info, false).unwrap_err();
    assert!(err.is_csfle_error());
    match err.kind {
        csfle::error::ErrorKind::Csfle { message, .. } => {
            assert!(message.contains("cannot auto encrypt a view"), "unexpected error: {}", message);
        }
        other => panic!("unexpected error kind: {:?}", other),
    }
    // Bypassing auto-encryption issues no markings, so a view is fine.
    assert!(check_not_view(&info, true).is_ok());
    let plain = CollectionInfo {
        is_view: false,
        validator: None,
    };
    assert!(check_not_view(&plain, false).is_ok());
}

#[test]
fn oversize_documents_split_into_their_own_batches() {
    // Two documents whose encrypted form individually exceeds the 2 MiB
    // logical limit produce two separate insert batches.
    let sizes = vec![2_097_152 - 2_000, 2_097_152 - 2_000];
    let batches = split_insert_batches(&sizes).unwrap();
    assert_eq!(batches, vec![vec![0], vec![1]]);

    // Small documents share one batch.
    let sizes = vec![100, 200, 300];
    let batches = split_insert_batches(&sizes).unwrap();
    assert_eq!(batches, vec![vec![0, 1, 2]]);

    // A run of small documents splits exactly where the budget runs out.
    let sizes = vec![1_000_000, 1_000_000, 1_000_000];
    let batches = split_insert_batches(&sizes).unwrap();
    assert_eq!(batches, vec![vec![0, 1], vec![2]]);

    // A document whose estimated encrypted form exceeds the hard limit
    // fails as an oversize write error, even though its raw size is under
    // 16 MiB.
    let sizes = vec![100, 16_776_000];
    let err = split_insert_batches(&sizes).unwrap_err();
    assert_eq!(write_err_code(&err), Some(10334));

    // One document whose estimate lands exactly on the hard limit still
    // goes through, alone.
    let sizes = vec![16_777_216 - 2_000];
    let batches = split_insert_batches(&sizes).unwrap();
    assert_eq!(batches, vec![vec![0]]);
}

#[test]
fn deadlock_case_internal_key_vault_client() {
    // Pool capacity 1, no dedicated key-vault client, auto-encryption on:
    // exactly two independently pooled handles, and the observed command
    // order is listCollections(db), find(keyvault), insert(db), find(db).
    let alloc = allocate_clients(false, false);
    assert_eq!(alloc.owned_clients, 2);
    assert_eq!(alloc.key_vault_pool, PoolHandle::InternalKeyVaultClient);
    let plan = insert_and_find_plan(&alloc, false);
    let observed: Vec<csfle::clients::CommandStartedEvent> =
        plan.iter().map(|p| p.event.clone()).collect();
    let expectations = vec![
        DeadlockExpectation {
            command: "listCollections".to_string(),
            db: "db".to_string(),
        },
        DeadlockExpectation {
            command: "find".to_string(),
            db: "keyvault".to_string(),
        },
        DeadlockExpectation {
            command: "insert".to_string(),
            db: "db".to_string(),
        },
        DeadlockExpectation {
            command: "find".to_string(),
            db: "db".to_string(),
        },
    ];
    for (i, expected) in expectations.iter().enumerate() {
        assert!(expected.matches(&observed[i]), "command {} out of order", i);
        expected.assert_matches_any("encrypted", &observed);
    }
    // No command that runs while a data-pool connection is held draws from
    // the data pool.
    for p in plan.iter() {
        if p.nested_in_data_op {
            assert_ne!(p.pool, PoolHandle::DataClient);
        }
    }
}

#[test]
fn deadlock_case_dedicated_and_bypass() {
    let dedicated = allocate_clients(true, false);
    assert_eq!(dedicated.owned_clients, 1);
    assert_eq!(dedicated.key_vault_pool, PoolHandle::DedicatedKeyVaultClient);

    let bypass = allocate_clients(false, true);
    assert_eq!(bypass.owned_clients, 1);
    assert_eq!(bypass.key_vault_pool, PoolHandle::DataClient);
    let plan = insert_and_find_plan(&bypass, true);
    assert_eq!(plan.len(), 2);
    assert_eq!(plan[0].event.command_name, "find");
    assert_eq!(plan[0].event.db, "db");
    assert_eq!(plan[1].event.command_name, "find");
    assert_eq!(plan[1].event.db, "keyvault");
    assert!(!plan[1].nested_in_data_op);
}

#[test]
fn marking_capability_selection() {
    // The in-process library takes precedence and spawns nothing.
    let mut opts = options();
    opts.crypt_shared_lib_path = Some("/lib/crypt_shared.so".to_string());
    match select_marking_capability(&opts) {
        MarkingCapability::SharedLibrary(p) => assert_eq!(p, "/lib/crypt_shared.so"),
        other => panic!("unexpected capability: {:?}", other),
    }

    // Disabling the library falls back to the helper process.
    opts.disable_crypt_shared = true;
    match select_marking_capability(&opts) {
        MarkingCapability::HelperProcess { spawn } => assert!(spawn),
        other => panic!("unexpected capability: {:?}", other),
    }

    // Spawning can be bypassed: a running helper is used instead.
    opts.mongocryptd_bypass_spawn = true;
    match select_marking_capability(&opts) {
        MarkingCapability::HelperProcess { spawn } => assert!(!spawn),
        other => panic!("unexpected capability: {:?}", other),
    }

    // Bypassing auto-encryption or query analysis needs no marking at all.
    let mut opts = options();
    opts.bypass_auto_encryption = true;
    assert!(matches!(
        select_marking_capability(&opts),
        MarkingCapability::NotNeeded
    ));
    let mut opts = options();
    opts.bypass_query_analysis = true;
    assert!(matches!(
        select_marking_capability(&opts),
        MarkingCapability::NotNeeded
    ));
}

#[test]
fn pipeline_state_order() {
    let opts = options();
    let mut s = PipelineState::Idle;
    let mut seen = vec![s];
    for _ in 0..7 {
        s = next_state(s, &opts);
        seen.push(s);
    }
    assert_eq!(
        seen,
        vec![
            PipelineState::Idle,
            PipelineState::ResolveSchema,
            PipelineState::Mark,
            PipelineState::Encrypt,
            PipelineState::Send,
            PipelineState::Receive,
            PipelineState::Decrypt,
            PipelineState::Done,
        ]
    );
    let mut opts = options();
    opts.bypass_auto_encryption = true;
    assert_eq!(next_state(PipelineState::Idle, &opts), PipelineState::Send);
    let mut opts = options();
    opts.bypass_query_analysis = true;
    assert_eq!(
        next_state(PipelineState::ResolveSchema, &opts),
        PipelineState::Encrypt
    );
}

#[test]
fn schema_resolution_precedence() {
    let mut schema = Document::new();
    schema.insert("bsonType".to_string(), Bson::String("object".to_string()));
    let mut validator = Document::new();
    validator.insert("v".to_string(), Bson::Int32(1));
    let mut fields = Document::new();
    fields.insert("fields".to_string(), Bson::Null);

    let mut opts = options();
    opts.schema_map = vec![("db.coll".to_string(), schema.clone())];
    opts.encrypted_fields_map = vec![("db.coll".to_string(), fields.clone())];
    let info = CollectionInfo {
        is_view: false,
        validator: Some(validator.clone()),
    };

    // The local schema map wins over everything.
    match resolve_schema(&opts, &"db.coll".to_string(), &info) {
        SchemaSource::LocalMap(d) => assert_eq!(d, schema),
        other => panic!("unexpected source: {:?}", other),
    }
    // Without a local entry the server validator wins.
    opts.schema_map = Vec::new();
    match resolve_schema(&opts, &"db.coll".to_string(), &info) {
        SchemaSource::ServerValidator(d) => assert_eq!(d, validator),
        other => panic!("unexpected source: {:?}", other),
    }
    // Then the encrypted-fields map.
    let bare = CollectionInfo {
        is_view: false,
        validator: None,
    };
    match resolve_schema(&opts, &"db.coll".to_string(), &bare) {
        SchemaSource::EncryptedFields(d) => assert_eq!(d, fields),
        other => panic!("unexpected source: {:?}", other),
    }
    // A namespace in none of them is unschemaed.
    opts.encrypted_fields_map = Vec::new();
    assert!(matches!(
        resolve_schema(&opts, &"db.coll".to_string(), &bare),
        SchemaSource::Unschemaed
    ));
}

#[test]
fn marked_insert_roundtrip_and_raw_telemetry() {
    let (vault, id, registry) = local_setup();
    let mut command = Document::new();
    command.insert("encrypted".to_string(), Bson::String("test".to_string()));
    command.insert("unencrypted".to_string(), Bson::Int32(1));
    let markings = vec![FieldMarking {
        field: "encrypted".to_string(),
        key: EncryptKey::Id(id),
        algorithm: Algorithm::Random,
        contention_factor: None,
    }];
    let entropies = vec![
        csfle::encryptor::Entropy {
            iv: vec![0x44; 16],
            slot_draw: 0,
        },
        csfle::encryptor::Entropy {
            iv: vec![0x55; 16],
            slot_draw: 0,
        },
    ];
    let sent = encrypt_marked(&vault, &registry, &command, &markings, &entropies).unwrap();
    // The marked field left the process as ciphertext, the other as given.
    match sent.get(&"encrypted".to_string()) {
        Some(Bson::Binary(b)) => assert_eq!(b.subtype, BinarySubtype::Encrypted),
        other => panic!("marked field was not encrypted: {:?}", other),
    }
    assert_eq!(sent.get(&"unencrypted".to_string()), Some(&Bson::Int32(1)));

    // The reply comes back as sent; telemetry keeps the ciphertext while the
    // caller sees the decrypted document.
    let (telemetry, decrypted) = process_reply(&vault, &registry, &sent);
    match telemetry.get(&"encrypted".to_string()) {
        Some(Bson::Binary(b)) => assert_eq!(b.subtype, BinarySubtype::Encrypted),
        other => panic!("telemetry lost the raw reply: {:?}", other),
    }
    let decrypted = decrypted.unwrap();
    assert_eq!(
        decrypted.get(&"encrypted".to_string()),
        Some(&Bson::String("test".to_string()))
    );
    assert_eq!(decrypted.get(&"unencrypted".to_string()), Some(&Bson::Int32(1)));
}

#[test]
fn reply_with_tampered_ciphertext_fails_after_telemetry() {
    let (vault, id, registry) = local_setup();
    let mut command = Document::new();
    command.insert("encrypted".to_string(), Bson::String("test".to_string()));
    let markings = vec![FieldMarking {
        field: "encrypted".to_string(),
        key: EncryptKey::Id(id),
        algorithm: Algorithm::Random,
        contention_factor: None,
    }];
    let entropies = vec![csfle::encryptor::Entropy {
        iv: vec![0x66; 16],
        slot_draw: 0,
    }];
    let sent = encrypt_marked(&vault, &registry, &command, &markings, &entropies).unwrap();
    let mut reply = Document::new();
    match sent.get(&"encrypted".to_string()) {
        Some(Bson::Binary(b)) => {
            let mut bytes = b.bytes.clone();
            let last = bytes.last_mut().unwrap();
            *last = last.wrapping_add(1);
            reply.insert(
                "encrypted".to_string(),
                Bson::Binary(Binary {
                    subtype: BinarySubtype::Encrypted,
                    bytes,
                }),
            );
        }
        other => panic!("marked field was not encrypted: {:?}", other),
    }
    let (telemetry, decrypted) = process_reply(&vault, &registry, &reply);
    // Telemetry reflects the wire bytes even though decryption failed.
    assert!(matches!(
        telemetry.get(&"encrypted".to_string()),
        Some(Bson::Binary(_))
    ));
    let err = decrypted.unwrap_err();
    assert!(err.is_csfle_error());
}

#[test]
fn marking_an_already_encrypted_field_fails() {
    let (vault, id, registry) = local_setup();
    let mut command = Document::new();
    command.insert(
        "encrypted_placeholder".to_string(),
        Bson::Binary(Binary {
            subtype: BinarySubtype::Encrypted,
            bytes: vec![1, 2, 3],
        }),
    );
    let markings = vec![FieldMarking {
        field: "encrypted_placeholder".to_string(),
        key: EncryptKey::Id(id),
        algorithm: Algorithm::Random,
        contention_factor: None,
    }];
    let entropies = vec![csfle::encryptor::Entropy {
        iv: vec![0x77; 16],
        slot_draw: 0,
    }];
    let err = encrypt_marked(&vault, &registry, &command, &markings, &entropies).unwrap_err();
    assert!(err.is_csfle_error());
}

#[test]
fn decryption_events_handler_records_aggregate_events() {
    let arc = DecryptionEventsHandler::new();
    assert!(arc.succeeded.is_none() && arc.failed.is_none());
    let mut h = std::sync::Arc::try_unwrap(arc).ok().unwrap();
    h.handle_command_succeeded_event(CommandSucceededEvent {
        command_name: "aggregate".to_string(),
        reply: Document::new(),
    });
    assert!(h.succeeded.is_some());
    h.handle_command_failed_event(CommandFailedEvent {
        command_name: "find".to_string(),
    });
    assert!(h.failed.is_none());
    h.handle_command_failed_event(CommandFailedEvent {
        command_name: "aggregate".to_string(),
    });
    assert!(h.failed.is_some());
}

#[test]
fn ok_pred_treats_errors_as_no_match() {
    assert!(ok_pred(Ok(true)));
    assert!(!ok_pred(Ok(false)));
    assert!(!ok_pred(Err(csfle::error::Error::new(
        csfle::error::ErrorKind::Network {
            message: "boom".to_string()
        },
        None,
    ))));
}
