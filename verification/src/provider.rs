//! KMS providers, master keys, and the provider registry.
//!
//! The registry is an immutable configuration object built once and passed by
//! reference; endpoint selection is a pure function of the master-key variant,
//! with an explicit endpoint always overriding the provider default.

use vstd::prelude::*;

use crate::document::Document;
use crate::error::{Error, ErrorKind};

verus! {

/// The key-management services a master key can live in.
#[derive(Clone, Copy, Debug, PartialEq, Eq, Structural)]
pub enum KmsProvider {
    Aws,
    Azure,
    Gcp,
    Local,
    Kmip,
}

/// The name of a provider as configuration spells it.
pub open spec fn spec_provider_name(p: KmsProvider) -> Seq<char> {
    match p {
        KmsProvider::Aws => "aws"@,
        KmsProvider::Azure => "azure"@,
        KmsProvider::Gcp => "gcp"@,
        KmsProvider::Local => "local"@,
        KmsProvider::Kmip => "kmip"@,
    }
}

impl KmsProvider {
    /// The provider's configuration name.
    pub fn name(&self) -> (r: String)
        ensures
            r@ == spec_provider_name(*self),
    {
        match self {
            KmsProvider::Aws => {
                let s: &str = "aws";
                s.to_owned()
            },
            KmsProvider::Azure => {
                let s: &str = "azure";
                s.to_owned()
            },
            KmsProvider::Gcp => {
                let s: &str = "gcp";
                s.to_owned()
            },
            KmsProvider::Local => {
                let s: &str = "local";
                s.to_owned()
            },
            KmsProvider::Kmip => {
                let s: &str = "kmip";
                s.to_owned()
            },
        }
    }

    /// The provider a configuration name denotes, if any.
    pub fn from_name(name: &String) -> (r: Option<KmsProvider>)
        ensures
            match r {
                Some(p) => name@ == spec_provider_name(p),
                None => forall|p: KmsProvider| name@ != spec_provider_name(p),
            },
    {
        let aws: &str = "aws";
        let azure: &str = "azure";
        let gcp: &str = "gcp";
        let local: &str = "local";
        let kmip: &str = "kmip";
        let r = if name.eq(&aws.to_owned()) {
            Some(KmsProvider::Aws)
        } else if name.eq(&azure.to_owned()) {
            Some(KmsProvider::Azure)
        } else if name.eq(&gcp.to_owned()) {
            Some(KmsProvider::Gcp)
        } else if name.eq(&local.to_owned()) {
            Some(KmsProvider::Local)
        } else if name.eq(&kmip.to_owned()) {
            Some(KmsProvider::Kmip)
        } else {
            None
        };
        proof {
            if r is None {
                assert forall|p: KmsProvider| name@ != spec_provider_name(p) by {
                    match p {
                        KmsProvider::Aws => {},
                        KmsProvider::Azure => {},
                        KmsProvider::Gcp => {},
                        KmsProvider::Local => {},
                        KmsProvider::Kmip => {},
                    }
                }
            }
        }
        r
    }
}

/// TLS material for one provider's endpoint: file locations only, consumed
/// by the transport outside this library.
#[derive(Clone, Debug, PartialEq)]
pub struct TlsOptions {
    pub ca_file_path: Option<String>,
    pub cert_key_file_path: Option<String>,
}

/// Per-provider configuration: the credential document, optional TLS
/// material, and an optional endpoint override.
#[derive(Clone, Debug, PartialEq)]
pub struct KmsProviderConfig {
    pub provider: KmsProvider,
    pub credentials: Document,
    pub tls: Option<TlsOptions>,
    pub endpoint: Option<String>,
}

/// The immutable table of configured providers.
#[derive(Debug)]
pub struct KmsProviderRegistry {
    pub entries: Vec<KmsProviderConfig>,
}

/// Index of the first entry for `p`, if any.
pub open spec fn spec_registry_find(entries: Seq<KmsProviderConfig>, p: KmsProvider) -> Option<int>
    decreases entries.len(),
{
    if entries.len() == 0 {
        None
    } else if entries[0].provider == p {
        Some(0)
    } else {
        match spec_registry_find(entries.drop_first(), p) {
            Some(i) => Some(i + 1),
            None => None,
        }
    }
}

impl KmsProviderRegistry {
    /// Resolves a provider to its configuration. The error names the
    /// provider and nothing else: no credential reaches an error message.
    pub fn resolve(&self, provider: KmsProvider) -> (r: Result<&KmsProviderConfig, Error>)
        ensures
            match r {
                Ok(c) => {
                    &&& spec_registry_find(self.entries@, provider) matches Some(i) && *c
                        == self.entries@[i]
                    &&& c.provider == provider
                },
                Err(e) => {
                    &&& spec_registry_find(self.entries@, provider) is None
                    &&& e.kind matches ErrorKind::Configuration { message } && message@
                        == "no configuration for the requested KMS provider"@
                },
            },
    {
        let ghost all = self.entries@;
        let mut i: usize = 0;
        proof {
            assert(all.skip(0) =~= all);
        }
        while i < self.entries.len()
            invariant
                0 <= i <= all.len(),
                all == self.entries@,
                spec_registry_find(all, provider) == match spec_registry_find(
                    all.skip(i as int),
                    provider,
                ) {
                    Some(j) => Some(j + i),
                    None => None::<int>,
                },
            decreases all.len() - i,
        {
            proof {
                assert(all.skip(i as int)[0] == all[i as int]);
                assert(all.skip(i as int).drop_first() =~= all.skip(i + 1));
            }
            if matches!(
                (self.entries[i].provider, provider),
                (KmsProvider::Aws, KmsProvider::Aws)
                | (KmsProvider::Azure, KmsProvider::Azure)
                | (KmsProvider::Gcp, KmsProvider::Gcp)
                | (KmsProvider::Local, KmsProvider::Local)
                | (KmsProvider::Kmip, KmsProvider::Kmip)
            ) {
                proof {
                    assert(all[i as int].provider == provider);
                    assert(spec_registry_find(all.skip(i as int), provider) == Some(0int));
                }
                return Ok(&self.entries[i]);
            }
            proof {
                assert(all[i as int].provider != provider);
            }
            i += 1;
        }
        proof {
            assert(all.skip(i as int).len() == 0);
        }
        let msg: &str = "no configuration for the requested KMS provider";
        Err(
            Error {
                kind: ErrorKind::Configuration { message: msg.to_owned() },
                labels: Vec::new(),
            },
        )
    }
}

/// A master key: the provider-specific addressing of one key-encryption key.
#[derive(Clone, Debug, PartialEq)]
pub enum MasterKey {
    Aws { region: String, key: String, endpoint: Option<String> },
    Azure { key_vault_endpoint: String, key_name: String, key_version: Option<String> },
    Gcp {
        project_id: String,
        location: String,
        key_ring: String,
        key_name: String,
        key_version: Option<String>,
        endpoint: Option<String>,
    },
    Local,
    Kmip { key_id: Option<String>, endpoint: Option<String> },
}

impl MasterKey {
    /// The provider this master key lives in.
    pub fn provider(&self) -> (r: KmsProvider)
        ensures
            r == spec_master_key_provider(*self),
    {
        match self {
            MasterKey::Aws { .. } => KmsProvider::Aws,
            MasterKey::Azure { .. } => KmsProvider::Azure,
            MasterKey::Gcp { .. } => KmsProvider::Gcp,
            MasterKey::Local => KmsProvider::Local,
            MasterKey::Kmip { .. } => KmsProvider::Kmip,
        }
    }
}

/// The provider of a master key.
pub open spec fn spec_master_key_provider(mk: MasterKey) -> KmsProvider {
    match mk {
        MasterKey::Aws { .. } => KmsProvider::Aws,
        MasterKey::Azure { .. } => KmsProvider::Azure,
        MasterKey::Gcp { .. } => KmsProvider::Gcp,
        MasterKey::Local => KmsProvider::Local,
        MasterKey::Kmip { .. } => KmsProvider::Kmip,
    }
}

/// The endpoint a KMS call for `mk` goes to: an explicit endpoint on the
/// master key always wins; otherwise the provider's own default (derived
/// from the region for AWS, fixed for GCP, the registry's override for
/// KMIP); the local provider makes no call at all.
pub open spec fn spec_kms_endpoint(mk: MasterKey, provider_default: Option<String>) -> Option<
    Seq<char>,
> {
    match mk {
        MasterKey::Aws { region, endpoint, .. } => match endpoint {
            Some(e) => Some(e@),
            None => Some("kms."@ + region@ + ".amazonaws.com"@),
        },
        MasterKey::Azure { key_vault_endpoint, .. } => Some(key_vault_endpoint@),
        MasterKey::Gcp { endpoint, .. } => match endpoint {
            Some(e) => Some(e@),
            None => Some("cloudkms.googleapis.com"@),
        },
        MasterKey::Local => None,
        MasterKey::Kmip { endpoint, .. } => match endpoint {
            Some(e) => Some(e@),
            None => match provider_default {
                Some(d) => Some(d@),
                None => None,
            },
        },
    }
}

/// Resolves the endpoint of a KMS call, exactly as [`spec_kms_endpoint`]
/// states it.
pub fn kms_endpoint(mk: &MasterKey, provider_default: Option<&String>) -> (r: Option<String>)
    ensures
        ({
            let pd = match provider_default {
                Some(d) => Some(*d),
                None => None::<String>,
            };
            match r {
                Some(s) => spec_kms_endpoint(*mk, pd) == Some(s@),
                None => spec_kms_endpoint(*mk, pd) is None,
            }
        }),
{
    match mk {
        MasterKey::Aws { region, endpoint, .. } => match endpoint {
            Some(e) => Some(e.clone()),
            None => {
                let prefix: &str = "kms.";
                let suffix: &str = ".amazonaws.com";
                let mut s = prefix.to_owned();
                s.append(region.as_str());
                s.append(suffix);
                Some(s)
            },
        },
        MasterKey::Azure { key_vault_endpoint, .. } => Some(key_vault_endpoint.clone()),
        MasterKey::Gcp { endpoint, .. } => match endpoint {
            Some(e) => Some(e.clone()),
            None => {
                let d: &str = "cloudkms.googleapis.com";
                Some(d.to_owned())
            },
        },
        MasterKey::Local => None,
        MasterKey::Kmip { endpoint, .. } => match endpoint {
            Some(e) => Some(e.clone()),
            None => match provider_default {
                Some(d) => Some(d.clone()),
                None => None,
            },
        },
    }
}

} // verus!
