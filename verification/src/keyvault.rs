//! The key-vault collection: data-key documents, the unique partial index on
//! alt-names, and the write operations the engine issues against it.
//!
//! The vault model plays the storage layer's part: uniqueness of alt-names is
//! enforced here, at write time, exactly as the unique partial index enforces
//! it — never pre-checked by callers. Every write carries majority write
//! concern, so a key is durable before any ciphertext references it.

use vstd::prelude::*;

use crate::crypto::{bytes_eq, copy_range};
use crate::error::{duplicate_key_error, spec_write_err_code, Error, DUPLICATE_KEY_CODE};
use crate::provider::MasterKey;
use crate::KEY_ID_LEN;

verus! {

/// A persisted data-key record.
#[derive(Debug)]
pub struct DataKeyDocument {
    /// 128-bit UUID of the key.
    pub id: Vec<u8>,
    /// The wrapped data-encryption key.
    pub key_material: Vec<u8>,
    /// When the record was created.
    pub creation_date: u64,
    /// When the record was last changed.
    pub update_date: u64,
    /// Where the wrapping key-encryption key lives.
    pub master_key: MasterKey,
    /// Alternate names; unique across the whole vault.
    pub key_alt_names: Vec<String>,
}

/// Mathematical image of a data-key record.
pub struct DataKeyDocV {
    pub id: Seq<u8>,
    pub key_material: Seq<u8>,
    pub creation_date: u64,
    pub update_date: u64,
    pub master_key: MasterKey,
    pub key_alt_names: Seq<Seq<char>>,
}

impl View for DataKeyDocument {
    type V = DataKeyDocV;

    open spec fn view(&self) -> DataKeyDocV {
        DataKeyDocV {
            id: self.id@,
            key_material: self.key_material@,
            creation_date: self.creation_date,
            update_date: self.update_date,
            master_key: self.master_key,
            key_alt_names: self.key_alt_names@.map_values(|s: String| s@),
        }
    }
}

/// Well-formedness of one record: a proper key id, non-empty key material,
/// and no alt-name listed twice.
pub open spec fn spec_doc_wf(d: DataKeyDocV) -> bool {
    &&& d.id.len() == KEY_ID_LEN
    &&& d.key_material.len() > 0
    &&& forall|i: int, j: int|
        0 <= i < j < d.key_alt_names.len() ==> #[trigger] d.key_alt_names[i]
            != #[trigger] d.key_alt_names[j]
}

/// Index of the first record with this id.
pub open spec fn spec_find_by_id(docs: Seq<DataKeyDocV>, id: Seq<u8>) -> Option<int>
    decreases docs.len(),
{
    if docs.len() == 0 {
        None
    } else if docs[0].id == id {
        Some(0)
    } else {
        match spec_find_by_id(docs.drop_first(), id) {
            Some(i) => Some(i + 1),
            None => None,
        }
    }
}

/// Index of the first record carrying this alt-name.
pub open spec fn spec_name_owner(docs: Seq<DataKeyDocV>, name: Seq<char>) -> Option<int>
    decreases docs.len(),
{
    if docs.len() == 0 {
        None
    } else if docs[0].key_alt_names.contains(name) {
        Some(0)
    } else {
        match spec_name_owner(docs.drop_first(), name) {
            Some(i) => Some(i + 1),
            None => None,
        }
    }
}

/// What a found index means, and what `None` means.
pub proof fn lemma_find_by_id_props(docs: Seq<DataKeyDocV>, id: Seq<u8>)
    ensures
        match spec_find_by_id(docs, id) {
            Some(i) => 0 <= i < docs.len() && docs[i].id == id,
            None => forall|k: int| 0 <= k < docs.len() ==> #[trigger] docs[k].id != id,
        },
    decreases docs.len(),
{
    if docs.len() > 0 && docs[0].id != id {
        lemma_find_by_id_props(docs.drop_first(), id);
        match spec_find_by_id(docs.drop_first(), id) {
            Some(i) => {
                assert(docs[i + 1] == docs.drop_first()[i]);
            },
            None => {
                assert forall|k: int| 0 <= k < docs.len() implies #[trigger] docs[k].id != id by {
                    if k > 0 {
                        assert(docs[k] == docs.drop_first()[k - 1]);
                    }
                }
            },
        }
    }
}

/// What an owning index means, and what `None` means.
pub proof fn lemma_name_owner_props(docs: Seq<DataKeyDocV>, name: Seq<char>)
    ensures
        match spec_name_owner(docs, name) {
            Some(i) => 0 <= i < docs.len() && docs[i].key_alt_names.contains(name),
            None => forall|k: int|
                0 <= k < docs.len() ==> !(#[trigger] docs[k].key_alt_names.contains(name)),
        },
    decreases docs.len(),
{
    if docs.len() > 0 && !docs[0].key_alt_names.contains(name) {
        lemma_name_owner_props(docs.drop_first(), name);
        match spec_name_owner(docs.drop_first(), name) {
            Some(i) => {
                assert(docs[i + 1] == docs.drop_first()[i]);
            },
            None => {
                assert forall|k: int| 0 <= k < docs.len() implies !(#[trigger] docs[k].key_alt_names.contains(
                    name,
                )) by {
                    if k > 0 {
                        assert(docs[k] == docs.drop_first()[k - 1]);
                    }
                }
            },
        }
    }
}

/// Well-formedness of the whole vault: every record well-formed, ids unique,
/// and no alt-name on two records.
pub open spec fn spec_vault_wf(docs: Seq<DataKeyDocV>) -> bool {
    &&& forall|i: int| 0 <= i < docs.len() ==> spec_doc_wf(#[trigger] docs[i])
    &&& forall|i: int, j: int|
        0 <= i < j < docs.len() ==> (#[trigger] docs[i]).id != (#[trigger] docs[j]).id
    &&& forall|i: int, j: int, n: Seq<char>|
        #![trigger docs[i].key_alt_names.contains(n), docs[j].key_alt_names.contains(n)]
        0 <= i < docs.len() && 0 <= j < docs.len() && i != j && docs[i].key_alt_names.contains(n)
            ==> !docs[j].key_alt_names.contains(n)
}

/// The writes the vault accepts; reads are free-form queries.
#[derive(Clone, Copy, Debug, PartialEq, Eq, Structural)]
pub enum VaultWrite {
    Insert,
    Update,
    Delete,
    CreateIndex,
}

/// One write command as issued, with its write concern.
#[derive(Clone, Copy, Debug, PartialEq, Eq, Structural)]
pub struct VaultCommand {
    pub write: VaultWrite,
    pub majority: bool,
}

/// The key-vault collection together with the log of writes issued to it.
#[derive(Debug)]
pub struct KeyVault {
    pub docs: Vec<DataKeyDocument>,
    pub writes: Vec<VaultCommand>,
}

impl View for KeyVault {
    type V = Seq<DataKeyDocV>;

    open spec fn view(&self) -> Seq<DataKeyDocV> {
        self.docs@.map_values(|d: DataKeyDocument| d@)
    }
}

/// True when `d` carries alt-name `name`.
fn doc_has_alt_name(d: &DataKeyDocument, name: &String) -> (r: bool)
    ensures
        r == d@.key_alt_names.contains(name@),
{
    let ghost names = d@.key_alt_names;
    let mut i: usize = 0;
    while i < d.key_alt_names.len()
        invariant
            names == d@.key_alt_names,
            names.len() == d.key_alt_names@.len(),
            0 <= i <= names.len(),
            forall|k: int| 0 <= k < i ==> names[k] != name@,
        decreases names.len() - i,
    {
        proof {
            assert(names[i as int] == d.key_alt_names@[i as int]@);
        }
        if d.key_alt_names[i].eq(name) {
            proof {
                assert(names.contains(name@));
            }
            return true;
        }
        i += 1;
    }
    false
}

impl KeyVault {
    /// An empty vault; its unique partial index on alt-names stands from the
    /// start.
    pub fn new() -> (r: KeyVault)
        ensures
            r@ =~= Seq::<DataKeyDocV>::empty(),
            r.writes@ =~= Seq::<VaultCommand>::empty(),
            spec_vault_wf(r@),
    {
        KeyVault { docs: Vec::new(), writes: Vec::new() }
    }

    /// Looks a record up by key id.
    pub fn find_by_id(&self, id: &[u8]) -> (r: Option<&DataKeyDocument>)
        ensures
            match r {
                Some(d) => spec_find_by_id(self@, id@) matches Some(i) && d@ == self@[i],
                None => spec_find_by_id(self@, id@) is None,
            },
    {
        let ghost all = self@;
        let mut i: usize = 0;
        proof {
            assert(all.skip(0) =~= all);
        }
        while i < self.docs.len()
            invariant
                all == self@,
                all.len() == self.docs@.len(),
                0 <= i <= all.len(),
                spec_find_by_id(all, id@) == match spec_find_by_id(all.skip(i as int), id@) {
                    Some(j) => Some(j + i),
                    None => None::<int>,
                },
            decreases all.len() - i,
        {
            proof {
                assert(all[i as int] == self.docs@[i as int]@);
                assert(all.skip(i as int)[0] == all[i as int]);
                assert(all.skip(i as int).drop_first() =~= all.skip(i + 1));
            }
            if bytes_eq(self.docs[i].id.as_slice(), id) {
                return Some(&self.docs[i]);
            }
            i += 1;
        }
        proof {
            assert(all.skip(i as int).len() == 0);
        }
        None
    }

    /// Looks a record up by alt-name.
    pub fn find_by_alt_name(&self, name: &String) -> (r: Option<&DataKeyDocument>)
        ensures
            match r {
                Some(d) => spec_name_owner(self@, name@) matches Some(i) && d@ == self@[i],
                None => spec_name_owner(self@, name@) is None,
            },
    {
        let ghost all = self@;
        let mut i: usize = 0;
        proof {
            assert(all.skip(0) =~= all);
        }
        while i < self.docs.len()
            invariant
                all == self@,
                all.len() == self.docs@.len(),
                0 <= i <= all.len(),
                spec_name_owner(all, name@) == match spec_name_owner(all.skip(i as int), name@) {
                    Some(j) => Some(j + i),
                    None => None::<int>,
                },
            decreases all.len() - i,
        {
            proof {
                assert(all[i as int] == self.docs@[i as int]@);
                assert(all.skip(i as int)[0] == all[i as int]);
                assert(all.skip(i as int).drop_first() =~= all.skip(i + 1));
            }
            if doc_has_alt_name(&self.docs[i], name) {
                return Some(&self.docs[i]);
            }
            i += 1;
        }
        proof {
            assert(all.skip(i as int).len() == 0);
        }
        None
    }

    /// Index of the record carrying `name`, if any.
    fn owner_of_name(&self, name: &String) -> (r: Option<usize>)
        ensures
            match r {
                Some(i) => spec_name_owner(self@, name@) == Some(i as int),
                None => spec_name_owner(self@, name@) is None,
            },
    {
        let ghost all = self@;
        let mut i: usize = 0;
        proof {
            assert(all.skip(0) =~= all);
        }
        while i < self.docs.len()
            invariant
                all == self@,
                all.len() == self.docs@.len(),
                0 <= i <= all.len(),
                spec_name_owner(all, name@) == match spec_name_owner(all.skip(i as int), name@) {
                    Some(j) => Some(j + i),
                    None => None::<int>,
                },
            decreases all.len() - i,
        {
            proof {
                assert(all[i as int] == self.docs@[i as int]@);
                assert(all.skip(i as int)[0] == all[i as int]);
                assert(all.skip(i as int).drop_first() =~= all.skip(i + 1));
            }
            if doc_has_alt_name(&self.docs[i], name) {
                return Some(i);
            }
            i += 1;
        }
        proof {
            assert(all.skip(i as int).len() == 0);
        }
        None
    }

    /// True when some alt-name of `doc` is already owned by a vault record.
    fn any_name_taken(&self, doc: &DataKeyDocument) -> (r: bool)
        ensures
            r == exists|n: Seq<char>|
                doc@.key_alt_names.contains(n) && !(spec_name_owner(self@, n) is None),
    {
        let ghost names = doc@.key_alt_names;
        let mut i: usize = 0;
        while i < doc.key_alt_names.len()
            invariant
                names == doc@.key_alt_names,
                names.len() == doc.key_alt_names@.len(),
                0 <= i <= names.len(),
                forall|k: int| 0 <= k < i ==> spec_name_owner(self@, #[trigger] names[k]) is None,
            decreases names.len() - i,
        {
            proof {
                assert(names[i as int] == doc.key_alt_names@[i as int]@);
            }
            if self.owner_of_name(&doc.key_alt_names[i]).is_some() {
                proof {
                    assert(names.contains(names[i as int]));
                }
                return true;
            }
            i += 1;
        }
        proof {
            if exists|n: Seq<char>|
                names.contains(n) && !(spec_name_owner(self@, n) is None) {
                let n = choose|n: Seq<char>|
                    names.contains(n) && !(spec_name_owner(self@, n) is None);
                let k = choose|k: int| 0 <= k < names.len() && names[k] == n;
                assert(spec_name_owner(self@, names[k]) is None);
            }
        }
        false
    }

    /// Inserts a fresh data-key record with majority write concern.
    ///
    /// The write succeeds exactly when neither the id nor any alt-name of the
    /// record is already present; a collision is reported by the storage
    /// layer's unique index as a duplicate-key write error, code 11000.
    pub fn insert(&mut self, doc: DataKeyDocument) -> (r: Result<(), Error>)
        requires
            spec_vault_wf(old(self)@),
            spec_doc_wf(doc@),
        ensures
            spec_vault_wf(final(self)@),
            final(self).writes@ == old(self).writes@.push(
                VaultCommand { write: VaultWrite::Insert, majority: true },
            ),
            match r {
                Ok(()) => {
                    &&& spec_find_by_id(old(self)@, doc@.id) is None
                    &&& forall|n: Seq<char>|
                        #[trigger] doc@.key_alt_names.contains(n) ==> spec_name_owner(
                            old(self)@,
                            n,
                        ) is None
                    &&& final(self)@ == old(self)@.push(doc@)
                },
                Err(e) => {
                    &&& !(spec_find_by_id(old(self)@, doc@.id) is None) || exists|n: Seq<char>|
                        #[trigger] doc@.key_alt_names.contains(n) && !(spec_name_owner(
                            old(self)@,
                            n,
                        ) is None)
                    &&& spec_write_err_code(e.kind) == Some(DUPLICATE_KEY_CODE)
                    &&& final(self)@ == old(self)@
                },
            },
    {
        self.writes.push(VaultCommand { write: VaultWrite::Insert, majority: true });
        let id_taken = self.find_by_id(doc.id.as_slice()).is_some();
        if id_taken || self.any_name_taken(&doc) {
            return Err(duplicate_key_error());
        }
        let ghost olddocs = self@;
        self.docs.push(doc);
        proof {
            assert(self@ =~= olddocs.push(doc@));
            lemma_vault_wf_push(olddocs, doc@);
        }
        Ok(())
    }

    /// Issues the creation of the unique partial index on alt-names, with
    /// majority write concern. The model enforces that uniqueness on every
    /// write, so the records are untouched; the command is recorded as
    /// issued.
    pub fn ensure_unique_alt_name_index(&mut self)
        ensures
            final(self)@ == old(self)@,
            final(self).writes@ == old(self).writes@.push(
                VaultCommand { write: VaultWrite::CreateIndex, majority: true },
            ),
    {
        self.writes.push(VaultCommand { write: VaultWrite::CreateIndex, majority: true });
    }

    /// Removes the record with this id, if present.
    pub fn delete(&mut self, id: &[u8]) -> (found: bool)
        requires
            spec_vault_wf(old(self)@),
        ensures
            spec_vault_wf(final(self)@),
            final(self).writes@ == old(self).writes@.push(
                VaultCommand { write: VaultWrite::Delete, majority: true },
            ),
            match spec_find_by_id(old(self)@, id@) {
                Some(i) => found && final(self)@ == old(self)@.remove(i),
                None => !found && final(self)@ == old(self)@,
            },
    {
        self.writes.push(VaultCommand { write: VaultWrite::Delete, majority: true });
        let ghost all = self@;
        let mut i: usize = 0;
        proof {
            assert(all.skip(0) =~= all);
        }
        while i < self.docs.len()
            invariant
                all == self@,
                all == old(self)@,
                spec_vault_wf(all),
                self.writes@ == old(self).writes@.push(
                    VaultCommand { write: VaultWrite::Delete, majority: true },
                ),
                all.len() == self.docs@.len(),
                0 <= i <= all.len(),
                spec_find_by_id(all, id@) == match spec_find_by_id(all.skip(i as int), id@) {
                    Some(j) => Some(j + i),
                    None => None::<int>,
                },
            decreases all.len() - i,
        {
            proof {
                assert(all[i as int] == self.docs@[i as int]@);
                assert(all.skip(i as int)[0] == all[i as int]);
                assert(all.skip(i as int).drop_first() =~= all.skip(i + 1));
            }
            if bytes_eq(self.docs[i].id.as_slice(), id) {
                self.docs.remove(i);
                proof {
                    assert(self@ =~= all.remove(i as int));
                    lemma_vault_wf_remove(all, i as int);
                }
                return true;
            }
            i += 1;
        }
        proof {
            assert(all.skip(i as int).len() == 0);
        }
        false
    }
}

/// Copies an optional string, keeping its value.
fn clone_opt_string(o: &Option<String>) -> (r: Option<String>)
    ensures
        r == *o,
{
    match o {
        Some(s) => Some(s.clone()),
        None => None,
    }
}

/// Copies a master key, keeping its value.
pub fn clone_master_key(mk: &MasterKey) -> (r: MasterKey)
    ensures
        r == *mk,
{
    match mk {
        MasterKey::Aws { region, key, endpoint } => MasterKey::Aws {
            region: region.clone(),
            key: key.clone(),
            endpoint: clone_opt_string(endpoint),
        },
        MasterKey::Azure { key_vault_endpoint, key_name, key_version } => MasterKey::Azure {
            key_vault_endpoint: key_vault_endpoint.clone(),
            key_name: key_name.clone(),
            key_version: clone_opt_string(key_version),
        },
        MasterKey::Gcp { project_id, location, key_ring, key_name, key_version, endpoint } => MasterKey::Gcp {
            project_id: project_id.clone(),
            location: location.clone(),
            key_ring: key_ring.clone(),
            key_name: key_name.clone(),
            key_version: clone_opt_string(key_version),
            endpoint: clone_opt_string(endpoint),
        },
        MasterKey::Local => MasterKey::Local,
        MasterKey::Kmip { key_id, endpoint } => MasterKey::Kmip {
            key_id: clone_opt_string(key_id),
            endpoint: clone_opt_string(endpoint),
        },
    }
}

/// Copies a list of strings, keeping its values.
fn clone_strings(v: &Vec<String>) -> (r: Vec<String>)
    ensures
        r@ =~= v@,
{
    let mut out: Vec<String> = Vec::new();
    let mut i: usize = 0;
    while i < v.len()
        invariant
            0 <= i <= v@.len(),
            out@ =~= v@.subrange(0, i as int),
        decreases v@.len() - i,
    {
        out.push(v[i].clone());
        proof {
            assert(v@.subrange(0, i as int).push(v@[i as int]) =~= v@.subrange(0, i + 1));
        }
        i += 1;
    }
    proof {
        assert(v@.subrange(0, v@.len() as int) =~= v@);
    }
    out
}

/// Copies a data-key record, keeping its whole image.
pub fn clone_doc(d: &DataKeyDocument) -> (r: DataKeyDocument)
    ensures
        r@ == d@,
{
    let r = DataKeyDocument {
        id: copy_range(d.id.as_slice(), 0, d.id.len()),
        key_material: copy_range(d.key_material.as_slice(), 0, d.key_material.len()),
        creation_date: d.creation_date,
        update_date: d.update_date,
        master_key: clone_master_key(&d.master_key),
        key_alt_names: clone_strings(&d.key_alt_names),
    };
    proof {
        assert(d.id@.subrange(0, d.id@.len() as int) =~= d.id@);
        assert(d.key_material@.subrange(0, d.key_material@.len() as int) =~= d.key_material@);
        assert(r@.key_alt_names =~= d@.key_alt_names);
    }
    r
}

impl KeyVault {
    /// Adds an alt-name to the key with this id, atomically, with majority
    /// write concern, and yields the record as it stood before the update.
    ///
    /// Re-adding a name the same key already carries is an idempotent no-op
    /// that still yields the prior record; a name carried by a different key
    /// is rejected by the unique index as a duplicate-key write error, code
    /// 11000; an id that matches no record updates nothing and yields
    /// nothing.
    pub fn add_key_alt_name(&mut self, key_id: &[u8], name: &String, now: u64) -> (r: Result<
        Option<DataKeyDocument>,
        Error,
    >)
        requires
            spec_vault_wf(old(self)@),
        ensures
            spec_vault_wf(final(self)@),
            final(self).writes@ == old(self).writes@.push(
                VaultCommand { write: VaultWrite::Update, majority: true },
            ),
            match r {
                Ok(None) => spec_find_by_id(old(self)@, key_id@) is None && final(self)@ == old(
                    self,
                )@,
                Ok(Some(prior)) => spec_find_by_id(old(self)@, key_id@) matches Some(i) && prior@
                    == old(self)@[i] && if old(self)@[i].key_alt_names.contains(name@) {
                    final(self)@ == old(self)@
                } else {
                    spec_name_owner(old(self)@, name@) is None && final(self)@ == old(
                        self,
                    )@.update(
                        i,
                        DataKeyDocV {
                            update_date: now,
                            key_alt_names: old(self)@[i].key_alt_names.push(name@),
                            ..old(self)@[i]
                        },
                    )
                },
                Err(e) => {
                    &&& spec_find_by_id(old(self)@, key_id@) matches Some(i)
                        && !old(self)@[i].key_alt_names.contains(name@)
                    &&& spec_name_owner(old(self)@, name@) is Some
                    &&& spec_write_err_code(e.kind) == Some(DUPLICATE_KEY_CODE)
                    &&& final(self)@ == old(self)@
                },
            },
    {
        self.writes.push(VaultCommand { write: VaultWrite::Update, majority: true });
        let ghost all = self@;
        let mut at: usize = 0;
        let mut found = false;
        proof {
            assert(all.skip(0) =~= all);
        }
        while at < self.docs.len() && !found
            invariant
                all == self@,
                all.len() == self.docs@.len(),
                0 <= at <= all.len(),
                !found ==> spec_find_by_id(all, key_id@) == match spec_find_by_id(
                    all.skip(at as int),
                    key_id@,
                ) {
                    Some(j) => Some(j + at),
                    None => None::<int>,
                },
                found ==> spec_find_by_id(all, key_id@) == Some(at as int) && at < all.len(),
            decreases all.len() - at, (if found {
                0int
            } else {
                1int
            }),
        {
            proof {
                assert(all[at as int] == self.docs@[at as int]@);
                assert(all.skip(at as int)[0] == all[at as int]);
                assert(all.skip(at as int).drop_first() =~= all.skip(at + 1));
            }
            if bytes_eq(self.docs[at].id.as_slice(), key_id) {
                found = true;
            } else {
                at += 1;
            }
        }
        if !found {
            proof {
                assert(all.skip(at as int).len() == 0);
            }
            return Ok(None);
        }
        if doc_has_alt_name(&self.docs[at], name) {
            proof {
                assert(all[at as int] == self.docs@[at as int]@);
            }
            return Ok(Some(clone_doc(&self.docs[at])));
        }
        proof {
            assert(all[at as int] == self.docs@[at as int]@);
        }
        if self.owner_of_name(name).is_some() {
            return Err(duplicate_key_error());
        }
        let prior = clone_doc(&self.docs[at]);
        let mut doc = self.docs.remove(at);
        doc.key_alt_names.push(name.clone());
        doc.update_date = now;
        let ghost newdoc = doc@;
        self.docs.insert(at, doc);
        proof {
            assert(newdoc.key_alt_names =~= all[at as int].key_alt_names.push(name@));
            assert(newdoc == DataKeyDocV {
                update_date: now,
                key_alt_names: all[at as int].key_alt_names.push(name@),
                ..all[at as int]
            });
            assert(self@ =~= all.update(at as int, newdoc));
            lemma_vault_wf_add_name(all, at as int, name@, now);
        }
        Ok(Some(prior))
    }
}

/// Adding an unowned name to one record keeps the vault well-formed.
proof fn lemma_vault_wf_add_name(docs: Seq<DataKeyDocV>, at: int, n: Seq<char>, now: u64)
    requires
        spec_vault_wf(docs),
        0 <= at < docs.len(),
        spec_name_owner(docs, n) is None,
    ensures
        spec_vault_wf(
            docs.update(
                at,
                DataKeyDocV {
                    update_date: now,
                    key_alt_names: docs[at].key_alt_names.push(n),
                    ..docs[at]
                },
            ),
        ),
{
    let d = DataKeyDocV {
        update_date: now,
        key_alt_names: docs[at].key_alt_names.push(n),
        ..docs[at]
    };
    let post = docs.update(at, d);
    lemma_name_owner_props(docs, n);
    assert(!docs[at].key_alt_names.contains(n));
    assert forall|i: int| 0 <= i < post.len() implies spec_doc_wf(#[trigger] post[i]) by {
        if i != at {
            assert(post[i] == docs[i]);
        } else {
            assert(spec_doc_wf(docs[at]));
            let names = d.key_alt_names;
            assert forall|x: int, y: int| 0 <= x < y < names.len() implies #[trigger] names[x]
                != #[trigger] names[y] by {
                if y < names.len() - 1 {
                    assert(names[x] == docs[at].key_alt_names[x]);
                    assert(names[y] == docs[at].key_alt_names[y]);
                } else {
                    assert(names[y] == n);
                    assert(names[x] == docs[at].key_alt_names[x]);
                    assert(docs[at].key_alt_names.contains(docs[at].key_alt_names[x]));
                }
            }
        }
    }
    assert forall|i: int, j: int| 0 <= i < j < post.len() implies (#[trigger] post[i]).id != (
    #[trigger] post[j]).id by {
        assert(post[i].id == docs[i].id && post[j].id == docs[j].id);
    }
    assert forall|i: int, j: int, m: Seq<char>|
        #![trigger post[i].key_alt_names.contains(m), post[j].key_alt_names.contains(m)]
        0 <= i < post.len() && 0 <= j < post.len() && i != j && post[i].key_alt_names.contains(
            m,
        ) implies !post[j].key_alt_names.contains(m) by {
        lemma_name_owner_props(docs, m);
        if i == at {
            if post[i].key_alt_names.contains(m) {
                if m == n {
                    assert(!docs[j].key_alt_names.contains(m));
                } else {
                    let x = choose|x: int|
                        0 <= x < post[i].key_alt_names.len() && post[i].key_alt_names[x] == m;
                    assert(docs[at].key_alt_names[x] == m);
                    assert(docs[at].key_alt_names.contains(m));
                    assert(post[j].key_alt_names == docs[j].key_alt_names);
                }
            }
        } else if j == at {
            assert(post[i].key_alt_names == docs[i].key_alt_names);
            if post[j].key_alt_names.contains(m) {
                let x = choose|x: int|
                    0 <= x < post[j].key_alt_names.len() && post[j].key_alt_names[x] == m;
                if x < docs[at].key_alt_names.len() {
                    assert(docs[at].key_alt_names.contains(m));
                    assert(!docs[i].key_alt_names.contains(m));
                } else {
                    assert(m == n);
                }
            } else {
            }
        } else {
            assert(post[i].key_alt_names == docs[i].key_alt_names);
            assert(post[j].key_alt_names == docs[j].key_alt_names);
        }
    }
}

/// Pushing a collision-free record keeps the vault well-formed.
proof fn lemma_vault_wf_push(docs: Seq<DataKeyDocV>, d: DataKeyDocV)
    requires
        spec_vault_wf(docs),
        spec_doc_wf(d),
        spec_find_by_id(docs, d.id) is None,
        forall|n: Seq<char>|
            #[trigger] d.key_alt_names.contains(n) ==> spec_name_owner(docs, n) is None,
    ensures
        spec_vault_wf(docs.push(d)),
{
    let post = docs.push(d);
    lemma_find_by_id_props(docs, d.id);
    assert forall|i: int| 0 <= i < post.len() implies spec_doc_wf(#[trigger] post[i]) by {
        if i < docs.len() {
            assert(post[i] == docs[i]);
        }
    }
    assert forall|i: int, j: int| 0 <= i < j < post.len() implies (#[trigger] post[i]).id != (
    #[trigger] post[j]).id by {
        if j < docs.len() {
            assert(post[i] == docs[i] && post[j] == docs[j]);
        } else {
            assert(post[j] == d);
            assert(post[i] == docs[i]);
        }
    }
    assert forall|i: int, j: int, n: Seq<char>|
        #![trigger post[i].key_alt_names.contains(n), post[j].key_alt_names.contains(n)]
        0 <= i < post.len() && 0 <= j < post.len() && i != j && post[i].key_alt_names.contains(
            n,
        ) implies !post[j].key_alt_names.contains(n) by {
        if i < docs.len() && j < docs.len() {
            assert(post[i] == docs[i] && post[j] == docs[j]);
        } else if i < docs.len() && j == docs.len() {
            assert(post[i] == docs[i] && post[j] == d);
            if post[j].key_alt_names.contains(n) {
                lemma_name_owner_props(docs, n);
            }
        } else {
            assert(post[i] == d && post[j] == docs[j]);
            lemma_name_owner_props(docs, n);
        }
    }
}

/// Removing a record keeps the vault well-formed.
proof fn lemma_vault_wf_remove(docs: Seq<DataKeyDocV>, at: int)
    requires
        spec_vault_wf(docs),
        0 <= at < docs.len(),
    ensures
        spec_vault_wf(docs.remove(at)),
{
    let post = docs.remove(at);
    let ghost back = |k: int|
        if k < at {
            k
        } else {
            k + 1
        };
    assert forall|i: int| 0 <= i < post.len() implies spec_doc_wf(#[trigger] post[i]) by {
        assert(post[i] == docs[back(i)]);
    }
    assert forall|i: int, j: int| 0 <= i < j < post.len() implies (#[trigger] post[i]).id != (
    #[trigger] post[j]).id by {
        assert(post[i] == docs[back(i)] && post[j] == docs[back(j)]);
    }
    assert forall|i: int, j: int, n: Seq<char>|
        #![trigger post[i].key_alt_names.contains(n), post[j].key_alt_names.contains(n)]
        0 <= i < post.len() && 0 <= j < post.len() && i != j && post[i].key_alt_names.contains(
            n,
        ) implies !post[j].key_alt_names.contains(n) by {
        assert(post[i] == docs[back(i)] && post[j] == docs[back(j)]);
    }
}

} // verus!
