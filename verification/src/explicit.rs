//! Single-value encrypt and decrypt against the key vault: key-reference
//! resolution, local unwrap of the data-encryption key, and the cipher calls.
//!
//! These are the in-process paths: the local provider performs no network
//! call. A key wrapped by a remote provider is unwrapped by the caller's KMS
//! transport, and the value then goes through
//! [`crate::encryptor::encrypt_with_dek`] and
//! [`crate::encryptor::decrypt_with_dek`] directly.

use vstd::prelude::*;

use crate::datakey::{spec_local_kek, unwrap_local_dek};
use crate::document::{Binary, Bson, BsonV};
use crate::encryptor::{
    decrypt_with_dek, encrypt_with_dek, spec_wire_key_id, wire_key_id, Algorithm, Entropy,
    QueryType,
};
use crate::error::{CsfleKind, Error, ErrorKind};
use crate::keyvault::{spec_find_by_id, spec_name_owner, DataKeyDocV, DataKeyDocument, KeyVault};
use crate::provider::{KmsProviderRegistry, MasterKey};
use crate::KEY_ID_LEN;

verus! {

/// A reference to a data key: by id or by alt-name.
#[derive(Debug)]
pub enum EncryptKey {
    Id(Vec<u8>),
    AltName(String),
}

/// Index of the record a key reference resolves to.
pub open spec fn spec_resolve_key(docs: Seq<DataKeyDocV>, key_ref: EncryptKey) -> Option<int> {
    match key_ref {
        EncryptKey::Id(id) => spec_find_by_id(docs, id@),
        EncryptKey::AltName(name) => spec_name_owner(docs, name@),
    }
}

/// Resolves a key reference against the vault; an unresolved reference is a
/// key-not-found error.
pub fn resolve_key<'a>(vault: &'a KeyVault, key_ref: &EncryptKey) -> (r: Result<
    &'a DataKeyDocument,
    Error,
>)
    ensures
        match r {
            Ok(d) => spec_resolve_key(vault@, *key_ref) matches Some(i) && d@ == vault@[i],
            Err(e) => spec_resolve_key(vault@, *key_ref) is None && e.kind matches
                ErrorKind::KeyNotFound { .. },
        },
{
    let found = match key_ref {
        EncryptKey::Id(id) => vault.find_by_id(id.as_slice()),
        EncryptKey::AltName(name) => vault.find_by_alt_name(name),
    };
    match found {
        Some(d) => Ok(d),
        None => {
            let msg: &str = "no data key matches the given reference";
            Err(
                Error {
                    kind: ErrorKind::KeyNotFound { message: msg.to_owned() },
                    labels: Vec::new(),
                },
            )
        },
    }
}

/// The data-encryption key of record `i`, when it is a well-formed local
/// wrap under the registry's local key-encryption key.
pub open spec fn spec_local_dek(
    entries: Seq<crate::provider::KmsProviderConfig>,
    d: DataKeyDocV,
) -> Option<Seq<u8>> {
    if !(d.master_key is Local) {
        None
    } else {
        match spec_local_kek(entries) {
            None => None,
            Some(kek) => match crate::crypto::spec_unwrap_dek(kek, d.key_material) {
                None => None,
                Some(dek) => if dek.len() > 0 {
                    Some(dek)
                } else {
                    None
                },
            },
        }
    }
}

/// Unwraps the data-encryption key of a record that the local provider
/// wrapped; a record wrapped by a remote provider is refused here, since
/// unwrapping it takes that provider's network protocol.
pub fn unwrap_dek_for(registry: &KmsProviderRegistry, doc: &DataKeyDocument) -> (r: Result<
    Vec<u8>,
    Error,
>)
    ensures
        match r {
            Ok(dek) => spec_local_dek(registry.entries@, doc@) == Some(dek@) && dek@.len() > 0,
            Err(_) => spec_local_dek(registry.entries@, doc@) is None,
        },
{
    if !matches!(doc.master_key, MasterKey::Local) {
        let msg: &str = "data key is wrapped by a remote KMS provider";
        return Err(
            Error {
                kind: ErrorKind::Configuration { message: msg.to_owned() },
                labels: Vec::new(),
            },
        );
    }
    let dek = match unwrap_local_dek(registry, doc) {
        Ok(d) => d,
        Err(e) => {
            return Err(e);
        },
    };
    if dek.len() == 0 {
        let msg: &str = "data-key material failed validation";
        return Err(
            Error {
                kind: ErrorKind::Csfle { kind: CsfleKind::Malformed, message: msg.to_owned() },
                labels: Vec::new(),
            },
        );
    }
    Ok(dek)
}

/// Encrypts one value against the vault: resolves the key reference, unwraps
/// the data-encryption key in process, and builds the payload — or, with a
/// query type, the equality-query payload — exactly as the model states.
pub fn encrypt(
    vault: &KeyVault,
    registry: &KmsProviderRegistry,
    value: &Bson,
    key_ref: &EncryptKey,
    algorithm: Algorithm,
    contention_factor: Option<i64>,
    query_type: Option<QueryType>,
    entropy: &Entropy,
) -> (r: Result<Binary, Error>)
    requires
        crate::keyvault::spec_vault_wf(vault@),
        entropy.iv@.len() == crate::crypto::IV_LEN,
    ensures
        match r {
            Ok(b) => {
                &&& spec_resolve_key(vault@, *key_ref) matches Some(i)
                &&& spec_local_dek(registry.entries@, vault@[i]) matches Some(dek)
                &&& crate::encryptor::spec_encrypt_call_valid(
                    algorithm,
                    value@,
                    contention_factor,
                    query_type,
                )
                &&& b@.subtype == crate::document::BinarySubtype::Encrypted
                &&& if algorithm is Indexed && query_type is Some {
                    b@.bytes == crate::encryptor::spec_query_payload(
                        value@,
                        dek,
                        vault@[i].id,
                        contention_factor.unwrap(),
                    )
                } else {
                    b@.bytes == crate::encryptor::spec_encrypt(
                        value@,
                        dek,
                        vault@[i].id,
                        algorithm,
                        contention_factor,
                        entropy.iv@,
                        entropy.slot_draw,
                    )
                }
            },
            Err(e) => {
                (spec_resolve_key(vault@, *key_ref) is None && e.kind matches
                ErrorKind::KeyNotFound { .. }) || (spec_resolve_key(vault@, *key_ref) matches Some(
                    i,
                ) && spec_local_dek(registry.entries@, vault@[i]) is None) || !crate::encryptor::spec_encrypt_call_valid(
                    algorithm,
                    value@,
                    contention_factor,
                    query_type,
                )
            },
        },
{
    let doc = match resolve_key(vault, key_ref) {
        Ok(d) => d,
        Err(e) => {
            return Err(e);
        },
    };
    let dek = match unwrap_dek_for(registry, doc) {
        Ok(d) => d,
        Err(e) => {
            return Err(e);
        },
    };
    proof {
        let i = spec_resolve_key(vault@, *key_ref).unwrap();
        match key_ref {
            EncryptKey::Id(id) => crate::keyvault::lemma_find_by_id_props(vault@, id@),
            EncryptKey::AltName(name) => crate::keyvault::lemma_name_owner_props(vault@, name@),
        }
        assert(0 <= i < vault@.len());
        assert(crate::keyvault::spec_doc_wf(vault@[i]));
        assert(doc.id@.len() == KEY_ID_LEN);
    }
    encrypt_with_dek(
        value,
        dek.as_slice(),
        doc.id.as_slice(),
        algorithm,
        contention_factor,
        query_type,
        entropy,
    )
}

/// Decrypts one payload against the vault: reads the embedded key id,
/// resolves it (key-not-found when no record matches), unwraps the
/// data-encryption key in process, and rejects any tampered payload with a
/// validation error — plaintext is never returned unauthenticated. Payloads
/// of all four algorithms are accepted.
pub fn decrypt(vault: &KeyVault, registry: &KmsProviderRegistry, wire: &[u8]) -> (r: Result<
    Bson,
    Error,
>)
    ensures
        match r {
            Ok(v) => {
                &&& wire@.len() >= 1 + KEY_ID_LEN
                &&& spec_find_by_id(vault@, spec_wire_key_id(wire@)) matches Some(i)
                &&& spec_local_dek(registry.entries@, vault@[i]) matches Some(dek)
                &&& crate::encryptor::spec_decrypt(wire@, dek) == Ok::<BsonV, CsfleKind>(v@)
            },
            Err(e) => {
                (wire@.len() < 1 + KEY_ID_LEN && (e.kind matches ErrorKind::Csfle {
                    kind: CsfleKind::Malformed,
                    ..
                })) || (spec_find_by_id(vault@, spec_wire_key_id(wire@)) is None && (e.kind matches
                ErrorKind::KeyNotFound { .. })) || (spec_find_by_id(
                    vault@,
                    spec_wire_key_id(wire@),
                ) matches Some(i) && spec_local_dek(registry.entries@, vault@[i]) is None) || (
                spec_find_by_id(vault@, spec_wire_key_id(wire@)) matches Some(i) && spec_local_dek(
                    registry.entries@,
                    vault@[i],
                ) matches Some(dek) && crate::encryptor::spec_decrypt(wire@, dek) matches Err(k)
                    && (e.kind matches ErrorKind::Csfle { kind, .. } && kind == k))
            },
        },
{
    let id = match wire_key_id(wire) {
        Some(id) => id,
        None => {
            let msg: &str = "payload too short to carry a key id";
            return Err(
                Error {
                    kind: ErrorKind::Csfle { kind: CsfleKind::Malformed, message: msg.to_owned() },
                    labels: Vec::new(),
                },
            );
        },
    };
    let doc = match vault.find_by_id(id.as_slice()) {
        Some(d) => d,
        None => {
            let msg: &str = "no data key matches the id inside the payload";
            return Err(
                Error {
                    kind: ErrorKind::KeyNotFound { message: msg.to_owned() },
                    labels: Vec::new(),
                },
            );
        },
    };
    let dek = match unwrap_dek_for(registry, doc) {
        Ok(d) => d,
        Err(e) => {
            return Err(e);
        },
    };
    decrypt_with_dek(wire, dek.as_slice())
}

} // verus!
