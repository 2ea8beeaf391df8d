//! Data-key management: building master-key descriptors, wrapping the
//! data-encryption key, and persisting the data-key record.
//!
//! The local provider wraps in process and performs no network call. For the
//! remote providers the manager builds the wrap request; the caller's
//! transport performs the round trip and hands the wrapped bytes back to
//! [`create_data_key_wrapped`], which persists them.

use vstd::prelude::*;

use crate::crypto::{copy_range, spec_unwrap_dek, spec_wrap_dek, unwrap_dek, wrap_dek};
use crate::document::{Bson, BsonV, Document};
use crate::error::{CsfleKind, Error, ErrorKind, spec_write_err_code, DUPLICATE_KEY_CODE};
use crate::keyvault::{
    clone_master_key, spec_doc_wf, spec_find_by_id, spec_name_owner, spec_vault_wf, DataKeyDocV,
    DataKeyDocument, KeyVault, VaultCommand, VaultWrite,
};
use crate::provider::{
    kms_endpoint, spec_kms_endpoint, spec_master_key_provider, spec_registry_find, KmsProvider,
    KmsProviderRegistry, MasterKey,
};
use crate::document::spec_doc_get;
use crate::KEY_ID_LEN;

verus! {

/// The descriptor document persisted for a master key: the provider name
/// and the provider-specific addressing fields, in a fixed order.
pub open spec fn spec_master_key_descriptor(mk: MasterKey) -> Seq<(Seq<char>, BsonV)> {
    match mk {
        MasterKey::Aws { region, key, endpoint } => {
            let base = seq![
                ("provider"@, BsonV::String("aws"@)),
                ("region"@, BsonV::String(region@)),
                ("key"@, BsonV::String(key@)),
            ];
            match endpoint {
                Some(e) => base.push(("endpoint"@, BsonV::String(e@))),
                None => base,
            }
        },
        MasterKey::Azure { key_vault_endpoint, key_name, key_version } => {
            let base = seq![
                ("provider"@, BsonV::String("azure"@)),
                ("keyVaultEndpoint"@, BsonV::String(key_vault_endpoint@)),
                ("keyName"@, BsonV::String(key_name@)),
            ];
            match key_version {
                Some(v) => base.push(("keyVersion"@, BsonV::String(v@))),
                None => base,
            }
        },
        MasterKey::Gcp { project_id, location, key_ring, key_name, key_version, endpoint } => {
            let base = seq![
                ("provider"@, BsonV::String("gcp"@)),
                ("projectId"@, BsonV::String(project_id@)),
                ("location"@, BsonV::String(location@)),
                ("keyRing"@, BsonV::String(key_ring@)),
                ("keyName"@, BsonV::String(key_name@)),
            ];
            let with_version = match key_version {
                Some(v) => base.push(("keyVersion"@, BsonV::String(v@))),
                None => base,
            };
            match endpoint {
                Some(e) => with_version.push(("endpoint"@, BsonV::String(e@))),
                None => with_version,
            }
        },
        MasterKey::Local => seq![("provider"@, BsonV::String("local"@))],
        MasterKey::Kmip { key_id, endpoint } => {
            let base = seq![("provider"@, BsonV::String("kmip"@))];
            let with_id = match key_id {
                Some(k) => base.push(("keyId"@, BsonV::String(k@))),
                None => base,
            };
            match endpoint {
                Some(e) => with_id.push(("endpoint"@, BsonV::String(e@))),
                None => with_id,
            }
        },
    }
}

fn push_string_field(d: &mut Document, name: &str, value: &String)
    ensures
        final(d)@ =~= old(d)@.push((name@, BsonV::String(value@))),
{
    d.insert(name.to_owned(), Bson::String(value.clone()));
}

/// Builds the master-key descriptor document.
pub fn build_master_key_descriptor(mk: &MasterKey) -> (r: Document)
    ensures
        r@ =~= spec_master_key_descriptor(*mk),
{
    let mut d = Document::new();
    match mk {
        MasterKey::Aws { region, key, endpoint } => {
            let aws: &str = "aws";
            d.insert("provider".to_owned(), Bson::String(aws.to_owned()));
            push_string_field(&mut d, "region", region);
            push_string_field(&mut d, "key", key);
            match endpoint {
                Some(e) => push_string_field(&mut d, "endpoint", e),
                None => {},
            }
        },
        MasterKey::Azure { key_vault_endpoint, key_name, key_version } => {
            let azure: &str = "azure";
            d.insert("provider".to_owned(), Bson::String(azure.to_owned()));
            push_string_field(&mut d, "keyVaultEndpoint", key_vault_endpoint);
            push_string_field(&mut d, "keyName", key_name);
            match key_version {
                Some(v) => push_string_field(&mut d, "keyVersion", v),
                None => {},
            }
        },
        MasterKey::Gcp { project_id, location, key_ring, key_name, key_version, endpoint } => {
            let gcp: &str = "gcp";
            d.insert("provider".to_owned(), Bson::String(gcp.to_owned()));
            push_string_field(&mut d, "projectId", project_id);
            push_string_field(&mut d, "location", location);
            push_string_field(&mut d, "keyRing", key_ring);
            push_string_field(&mut d, "keyName", key_name);
            match key_version {
                Some(v) => push_string_field(&mut d, "keyVersion", v),
                None => {},
            }
            match endpoint {
                Some(e) => push_string_field(&mut d, "endpoint", e),
                None => {},
            }
        },
        MasterKey::Local => {
            let local: &str = "local";
            d.insert("provider".to_owned(), Bson::String(local.to_owned()));
        },
        MasterKey::Kmip { key_id, endpoint } => {
            let kmip: &str = "kmip";
            d.insert("provider".to_owned(), Bson::String(kmip.to_owned()));
            match key_id {
                Some(k) => push_string_field(&mut d, "keyId", k),
                None => {},
            }
            match endpoint {
                Some(e) => push_string_field(&mut d, "endpoint", e),
                None => {},
            }
        },
    }
    d
}

/// The local provider's key-encryption key, as the registry configures it:
/// the bytes of the `key` credential.
pub open spec fn spec_local_kek(entries: Seq<crate::provider::KmsProviderConfig>) -> Option<
    Seq<u8>,
> {
    match spec_registry_find(entries, KmsProvider::Local) {
        None => None,
        Some(i) => match spec_doc_get(entries[i].credentials@, "key"@) {
            Some(BsonV::Binary(b)) => if b.bytes.len() > 0 {
                Some(b.bytes)
            } else {
                None
            },
            _ => None,
        },
    }
}

/// Reads the local key-encryption key out of the registry. Fails as a
/// configuration error when the local provider or its `key` credential is
/// missing; the error carries no credential bytes.
pub fn local_kek(registry: &KmsProviderRegistry) -> (r: Result<Vec<u8>, Error>)
    ensures
        match r {
            Ok(k) => spec_local_kek(registry.entries@) == Some(k@) && k@.len() > 0,
            Err(e) => spec_local_kek(registry.entries@) is None && e.kind matches
                ErrorKind::Configuration { .. },
        },
{
    let missing: &str = "local KMS provider has no usable key material configured";
    let config = match registry.resolve(KmsProvider::Local) {
        Ok(c) => c,
        Err(e) => {
            return Err(
                Error {
                    kind: ErrorKind::Configuration { message: missing.to_owned() },
                    labels: Vec::new(),
                },
            );
        },
    };
    let name: String = {
        let k: &str = "key";
        k.to_owned()
    };
    match config.credentials.get(&name) {
        Some(Bson::Binary(b)) => {
            if b.bytes.len() > 0 {
                Ok(copy_range(b.bytes.as_slice(), 0, b.bytes.len()))
            } else {
                Err(
                    Error {
                        kind: ErrorKind::Configuration { message: missing.to_owned() },
                        labels: Vec::new(),
                    },
                )
            }
        },
        _ => Err(
            Error {
                kind: ErrorKind::Configuration { message: missing.to_owned() },
                labels: Vec::new(),
            },
        ),
    }
}

/// A wrap request for a remote KMS: where to send it and what to wrap.
/// The caller's transport carries it over TLS per the provider's protocol.
#[derive(Debug)]
pub struct KmsWrapRequest {
    pub provider: KmsProvider,
    pub endpoint: String,
    pub plaintext_dek: Vec<u8>,
}

/// Builds the KMS wrap request for a remote master key: the provider must be
/// configured, and the endpoint is resolved with the master key's explicit
/// endpoint overriding the provider default.
pub fn build_kms_wrap_request(
    registry: &KmsProviderRegistry,
    master_key: &MasterKey,
    dek: Vec<u8>,
) -> (r: Result<KmsWrapRequest, Error>)
    requires
        !(master_key is Local),
    ensures
        match r {
            Ok(req) => {
                &&& spec_registry_find(registry.entries@, spec_master_key_provider(*master_key))
                    matches Some(i)
                &&& req.provider == spec_master_key_provider(*master_key)
                &&& req.plaintext_dek@ == dek@
                &&& spec_kms_endpoint(*master_key, registry.entries@[i].endpoint) == Some(
                    req.endpoint@,
                )
            },
            Err(e) => {
                &&& e.kind matches ErrorKind::Configuration { .. }
                &&& match spec_registry_find(
                    registry.entries@,
                    spec_master_key_provider(*master_key),
                ) {
                    None => true,
                    Some(i) => spec_kms_endpoint(*master_key, registry.entries@[i].endpoint)
                        is None,
                }
            },
        },
{
    let provider = master_key.provider();
    let config = match registry.resolve(provider) {
        Ok(c) => c,
        Err(e) => {
            return Err(e);
        },
    };
    let endpoint = match kms_endpoint(master_key, config.endpoint.as_ref()) {
        Some(e) => e,
        None => {
            let msg: &str = "no endpoint can be resolved for the requested KMS provider";
            return Err(
                Error {
                    kind: ErrorKind::Configuration { message: msg.to_owned() },
                    labels: Vec::new(),
                },
            );
        },
    };
    Ok(KmsWrapRequest { provider, endpoint, plaintext_dek: dek })
}

/// True when two of the names are the same.
fn has_duplicate_name(names: &Vec<String>) -> (r: bool)
    ensures
        r == exists|i: int, j: int|
            0 <= i < j < names@.len() && #[trigger] names@[i]@ == #[trigger] names@[j]@,
{
    let mut i: usize = 0;
    while i < names.len()
        invariant
            0 <= i <= names@.len(),
            forall|x: int, y: int|
                0 <= x < y < names@.len() && x < i ==> #[trigger] names@[x]@ != #[trigger] names@[y]@,
        decreases names@.len() - i,
    {
        let mut j: usize = i + 1;
        while j < names.len()
            invariant
                0 <= i < j <= names@.len(),
                forall|y: int| i < y < j ==> #[trigger] names@[y]@ != names@[i as int]@,
            decreases names@.len() - j,
        {
            if names[i].eq(&names[j]) {
                return true;
            }
            j += 1;
        }
        i += 1;
    }
    false
}

/// True when persisting a record with this id and these alt-names collides
/// with the vault's unique indexes: one of the names given twice, a taken
/// id, or a name some record already carries.
pub open spec fn spec_create_collides(
    docs: Seq<DataKeyDocV>,
    id: Seq<u8>,
    names: Seq<Seq<char>>,
) -> bool {
    ||| exists|i: int, j: int| 0 <= i < j < names.len() && #[trigger] names[i] == #[trigger] names[j]
    ||| !(spec_find_by_id(docs, id) is None)
    ||| exists|n: Seq<char>| #[trigger] names.contains(n) && !(spec_name_owner(docs, n) is None)
}

/// Persists a data-key record from already wrapped key material. The write
/// succeeds exactly when nothing collides; every collision — a taken id, a
/// taken alt-name, or one name given twice — is the storage layer's
/// duplicate-key write error, code 11000, never pre-checked away.
pub fn create_data_key_wrapped(
    vault: &mut KeyVault,
    master_key: &MasterKey,
    key_alt_names: Vec<String>,
    wrapped: Vec<u8>,
    id: Vec<u8>,
    now: u64,
) -> (r: Result<Vec<u8>, Error>)
    requires
        spec_vault_wf(old(vault)@),
        id@.len() == KEY_ID_LEN,
        wrapped@.len() > 0,
    ensures
        spec_vault_wf(final(vault)@),
        match r {
            Ok(rid) => {
                &&& !spec_create_collides(
                    old(vault)@,
                    id@,
                    key_alt_names@.map_values(|s: String| s@),
                )
                &&& rid@ == id@
                &&& final(vault)@ == old(vault)@.push(
                    DataKeyDocV {
                        id: id@,
                        key_material: wrapped@,
                        creation_date: now,
                        update_date: now,
                        master_key: *master_key,
                        key_alt_names: key_alt_names@.map_values(|s: String| s@),
                    },
                )
                &&& final(vault).writes@ == old(vault).writes@.push(
                    VaultCommand { write: VaultWrite::Insert, majority: true },
                )
            },
            Err(e) => {
                &&& spec_create_collides(
                    old(vault)@,
                    id@,
                    key_alt_names@.map_values(|s: String| s@),
                )
                &&& spec_write_err_code(e.kind) == Some(DUPLICATE_KEY_CODE)
                &&& final(vault)@ == old(vault)@
            },
        },
{
    let ghost names = key_alt_names@.map_values(|s: String| s@);
    if has_duplicate_name(&key_alt_names) {
        proof {
            let (i, j) = choose|i: int, j: int|
                0 <= i < j < key_alt_names@.len() && #[trigger] key_alt_names@[i]@
                    == #[trigger] key_alt_names@[j]@;
            assert(names[i] == names[j]);
        }
        return Err(crate::error::duplicate_key_error());
    }
    proof {
        assert forall|i: int, j: int|
            0 <= i < j < names.len() implies #[trigger] names[i] != #[trigger] names[j] by {
            assert(names[i] == key_alt_names@[i]@);
            assert(names[j] == key_alt_names@[j]@);
        }
    }
    let rid = copy_range(id.as_slice(), 0, id.len());
    proof {
        assert(id@.subrange(0, id@.len() as int) =~= id@);
    }
    let doc = DataKeyDocument {
        id,
        key_material: wrapped,
        creation_date: now,
        update_date: now,
        master_key: clone_master_key(master_key),
        key_alt_names,
    };
    proof {
        assert(spec_doc_wf(doc@)) by {
            assert forall|x: int, y: int|
                0 <= x < y < doc@.key_alt_names.len() implies #[trigger] doc@.key_alt_names[x]
                != #[trigger] doc@.key_alt_names[y] by {
                assert(doc@.key_alt_names[x] == doc.key_alt_names@[x]@);
                assert(doc@.key_alt_names[y] == doc.key_alt_names@[y]@);
            }
        }
    }
    match vault.insert(doc) {
        Ok(()) => Ok(rid),
        Err(e) => Err(e),
    }
}

/// Creates a data key under the local provider, in process: picks the
/// supplied key material as the data-encryption key when given (for
/// deterministic test vectors), the caller's fresh bytes otherwise; wraps it
/// under the configured local key-encryption key; and persists the record
/// with majority write concern. Alt-name collisions surface as duplicate-key
/// write errors, code 11000.
pub fn create_data_key(
    vault: &mut KeyVault,
    registry: &KmsProviderRegistry,
    key_alt_names: Vec<String>,
    key_material: Option<Vec<u8>>,
    fresh_dek: Vec<u8>,
    id: Vec<u8>,
    now: u64,
) -> (r: Result<Vec<u8>, Error>)
    requires
        spec_vault_wf(old(vault)@),
        id@.len() == KEY_ID_LEN,
        match key_material {
            Some(m) => m@.len() > 0,
            None => fresh_dek@.len() > 0,
        },
    ensures
        spec_vault_wf(final(vault)@),
        match r {
            Ok(rid) => {
                &&& spec_local_kek(registry.entries@) matches Some(kek)
                &&& rid@ == id@
                &&& final(vault)@ == old(vault)@.push(
                    DataKeyDocV {
                        id: id@,
                        key_material: spec_wrap_dek(
                            kek,
                            match key_material {
                                Some(m) => m@,
                                None => fresh_dek@,
                            },
                        ),
                        creation_date: now,
                        update_date: now,
                        master_key: MasterKey::Local,
                        key_alt_names: key_alt_names@.map_values(|s: String| s@),
                    },
                )
                &&& final(vault).writes@ == old(vault).writes@.push(
                    VaultCommand { write: VaultWrite::Insert, majority: true },
                )
                &&& !spec_create_collides(
                    old(vault)@,
                    id@,
                    key_alt_names@.map_values(|s: String| s@),
                )
            },
            Err(e) => {
                &&& final(vault)@ == old(vault)@
                &&& if spec_local_kek(registry.entries@) is None {
                    e.kind matches ErrorKind::Configuration { .. }
                } else {
                    spec_write_err_code(e.kind) == Some(DUPLICATE_KEY_CODE)
                        && spec_create_collides(
                        old(vault)@,
                        id@,
                        key_alt_names@.map_values(|s: String| s@),
                    )
                }
            },
        },
{
    let kek = match local_kek(registry) {
        Ok(k) => k,
        Err(e) => {
            return Err(e);
        },
    };
    let dek: Vec<u8> = match key_material {
        Some(m) => m,
        None => fresh_dek,
    };
    let wrapped = wrap_dek(kek.as_slice(), dek.as_slice());
    proof {
        assert(spec_wrap_dek(kek@, dek@).len() >= 32);
    }
    create_data_key_wrapped(vault, &MasterKey::Local, key_alt_names, wrapped, id, now)
}

/// Unwraps the data-encryption key of a locally wrapped record. Tampered or
/// truncated key material is rejected as malformed, never returned.
pub fn unwrap_local_dek(registry: &KmsProviderRegistry, doc: &DataKeyDocument) -> (r: Result<
    Vec<u8>,
    Error,
>)
    ensures
        match r {
            Ok(dek) => {
                &&& spec_local_kek(registry.entries@) matches Some(kek) && spec_unwrap_dek(
                    kek,
                    doc@.key_material,
                ) == Some(dek@)
                &&& dek@.len() == doc@.key_material.len() - 32
            },
            Err(e) => if spec_local_kek(registry.entries@) is None {
                e.kind matches ErrorKind::Configuration { .. }
            } else {
                spec_local_kek(registry.entries@) matches Some(kek) && spec_unwrap_dek(
                    kek,
                    doc@.key_material,
                ) is None && e.kind matches ErrorKind::Csfle { kind: CsfleKind::Malformed, .. }
            },
        },
{
    let kek = match local_kek(registry) {
        Ok(k) => k,
        Err(e) => {
            return Err(e);
        },
    };
    match unwrap_dek(kek.as_slice(), doc.key_material.as_slice()) {
        Some(dek) => Ok(dek),
        None => {
            let msg: &str = "data-key material failed validation";
            Err(
                Error {
                    kind: ErrorKind::Csfle { kind: CsfleKind::Malformed, message: msg.to_owned() },
                    labels: Vec::new(),
                },
            )
        },
    }
}

} // verus!
