//! The auto-encryption pipeline: its states, schema resolution and cache,
//! the marking capability chosen once at construction, per-field encryption
//! of a marked command, view protection, and insert batch splitting.

use vstd::prelude::*;

use crate::document::{clone_document, Binary, BinarySubtype, BinaryV, Bson, BsonV, Document};
use crate::encryptor::{spec_encrypt_call_valid, Algorithm, Entropy};
use crate::error::{
    oversize_document_error, CsfleKind, Error, ErrorKind, OVERSIZE_DOCUMENT_CODE,
};
use crate::explicit::{encrypt, spec_local_dek, spec_resolve_key, EncryptKey};
use crate::keyvault::{spec_vault_wf, KeyVault};
use crate::provider::KmsProviderRegistry;

verus! {

/// Per-document logical limit a batch estimate must stay under.
pub const MAX_BATCH_DOC_BYTES: usize = 2097152;

/// Hard per-document limit: above it the write fails instead of splitting.
pub const MAX_DOCUMENT_BYTES: usize = 16777216;

/// Allowance added to a document's pre-encryption size for the growth
/// ciphertext causes.
pub const ENCRYPTION_OVERHEAD_BYTES: usize = 2000;

/// Configuration of one auto-encrypting client.
#[derive(Debug)]
pub struct AutoEncryptionOptions {
    /// Skip outbound encryption entirely; replies are still decrypted.
    pub bypass_auto_encryption: bool,
    /// Skip the marking step; values are sent as given.
    pub bypass_query_analysis: bool,
    /// Local per-namespace schemas; they take precedence over the server's.
    pub schema_map: Vec<(String, Document)>,
    /// Per-namespace encrypted-fields maps for queryable encryption.
    pub encrypted_fields_map: Vec<(String, Document)>,
    /// Path of the in-process marking library, when one is available.
    pub crypt_shared_lib_path: Option<String>,
    /// Refuse the in-process library even when available.
    pub disable_crypt_shared: bool,
    /// Do not spawn the out-of-process helper; connect to a running one.
    pub mongocryptd_bypass_spawn: bool,
}

/// How marking is performed: chosen once at construction, never re-decided
/// per call.
#[derive(Debug)]
pub enum MarkingCapability {
    /// No marking happens at all: outbound encryption or query analysis is
    /// bypassed, so no helper is contacted and none is spawned.
    NotNeeded,
    /// The in-process shared library at this path; nothing is spawned.
    SharedLibrary(String),
    /// The out-of-process helper; `spawn` says whether this client starts it.
    HelperProcess { spawn: bool },
}

/// True when the chosen capability spawns a helper process.
pub open spec fn spec_capability_spawns(c: MarkingCapability) -> bool {
    c matches MarkingCapability::HelperProcess { spawn: true }
}

/// Chooses the marking capability: none when marking is bypassed; the
/// in-process library when configured and not disabled (it takes precedence);
/// otherwise the helper process, spawned unless spawning is bypassed.
pub fn select_marking_capability(opts: &AutoEncryptionOptions) -> (r: MarkingCapability)
    ensures
        opts.bypass_auto_encryption || opts.bypass_query_analysis ==> r is NotNeeded,
        !opts.bypass_auto_encryption && !opts.bypass_query_analysis ==> match opts.crypt_shared_lib_path {
            Some(p) => if opts.disable_crypt_shared {
                r == (MarkingCapability::HelperProcess { spawn: !opts.mongocryptd_bypass_spawn })
            } else {
                r matches MarkingCapability::SharedLibrary(q) && q@ == p@
            },
            None => r == (MarkingCapability::HelperProcess {
                spawn: !opts.mongocryptd_bypass_spawn,
            }),
        },
        spec_capability_spawns(r) ==> !opts.bypass_auto_encryption && !opts.bypass_query_analysis
            && !opts.mongocryptd_bypass_spawn && (opts.disable_crypt_shared
            || opts.crypt_shared_lib_path is None),
{
    if opts.bypass_auto_encryption || opts.bypass_query_analysis {
        return MarkingCapability::NotNeeded;
    }
    if !opts.disable_crypt_shared {
        match &opts.crypt_shared_lib_path {
            Some(p) => {
                return MarkingCapability::SharedLibrary(p.clone());
            },
            None => {},
        }
    }
    MarkingCapability::HelperProcess { spawn: !opts.mongocryptd_bypass_spawn }
}

/// The pipeline's states, outbound then inbound.
#[derive(Clone, Copy, Debug, PartialEq, Eq, Structural)]
pub enum PipelineState {
    Idle,
    ResolveSchema,
    Mark,
    Encrypt,
    Send,
    Receive,
    Decrypt,
    Done,
}

/// The state after `s`: bypassing auto-encryption goes straight from idle to
/// the send, bypassing query analysis skips the marking step, and a reply is
/// always scanned for ciphertext before it is done.
pub open spec fn spec_next_state(s: PipelineState, opts: AutoEncryptionOptions) -> PipelineState {
    match s {
        PipelineState::Idle => if opts.bypass_auto_encryption {
            PipelineState::Send
        } else {
            PipelineState::ResolveSchema
        },
        PipelineState::ResolveSchema => if opts.bypass_query_analysis {
            PipelineState::Encrypt
        } else {
            PipelineState::Mark
        },
        PipelineState::Mark => PipelineState::Encrypt,
        PipelineState::Encrypt => PipelineState::Send,
        PipelineState::Send => PipelineState::Receive,
        PipelineState::Receive => PipelineState::Decrypt,
        PipelineState::Decrypt => PipelineState::Done,
        PipelineState::Done => PipelineState::Done,
    }
}

/// Steps the pipeline once.
pub fn next_state(s: PipelineState, opts: &AutoEncryptionOptions) -> (r: PipelineState)
    ensures
        r == spec_next_state(s, *opts),
{
    match s {
        PipelineState::Idle => if opts.bypass_auto_encryption {
            PipelineState::Send
        } else {
            PipelineState::ResolveSchema
        },
        PipelineState::ResolveSchema => if opts.bypass_query_analysis {
            PipelineState::Encrypt
        } else {
            PipelineState::Mark
        },
        PipelineState::Mark => PipelineState::Encrypt,
        PipelineState::Encrypt => PipelineState::Send,
        PipelineState::Send => PipelineState::Receive,
        PipelineState::Receive => PipelineState::Decrypt,
        PipelineState::Decrypt => PipelineState::Done,
        PipelineState::Done => PipelineState::Done,
    }
}

/// What the target collection looks like on the server, as its listing
/// reports it.
#[derive(Debug)]
pub struct CollectionInfo {
    /// The namespace resolves to a view over another collection.
    pub is_view: bool,
    /// The collection's validator schema, when it has one.
    pub validator: Option<Document>,
}

/// Rejects auto-encryption against a view before any write is issued: field
/// markings cannot be scoped to a view's underlying pipeline.
pub fn check_not_view(info: &CollectionInfo, bypass_auto_encryption: bool) -> (r: Result<
    (),
    Error,
>)
    ensures
        match r {
            Ok(()) => !info.is_view || bypass_auto_encryption,
            Err(e) => {
                &&& info.is_view && !bypass_auto_encryption
                &&& e.kind matches ErrorKind::Csfle { kind: CsfleKind::View, message } && message@
                    == "cannot auto encrypt a view"@
            },
        },
{
    if info.is_view && !bypass_auto_encryption {
        let msg: &str = "cannot auto encrypt a view";
        return Err(
            Error {
                kind: ErrorKind::Csfle { kind: CsfleKind::View, message: msg.to_owned() },
                labels: Vec::new(),
            },
        );
    }
    Ok(())
}

/// Where the schema used for marking came from.
#[derive(Debug)]
pub enum SchemaSource {
    /// From the client's own schema map.
    LocalMap(Document),
    /// From the server collection's validator.
    ServerValidator(Document),
    /// From the encrypted-fields map of a queryable-encryption collection.
    EncryptedFields(Document),
    /// The namespace has no schema: nothing is marked.
    Unschemaed,
}

/// Which source resolution picks: the local schema map first, then the
/// server validator, then the encrypted-fields map.
pub open spec fn spec_schema_choice(
    has_local: bool,
    has_validator: bool,
    has_encrypted_fields: bool,
) -> int {
    if has_local {
        0
    } else if has_validator {
        1
    } else if has_encrypted_fields {
        2
    } else {
        3
    }
}

/// Index of the first entry for `ns` in a namespace map.
pub open spec fn spec_map_find(entries: Seq<(Seq<char>, Document)>, ns: Seq<char>) -> Option<int>
    decreases entries.len(),
{
    if entries.len() == 0 {
        None
    } else if entries[0].0 == ns {
        Some(0)
    } else {
        match spec_map_find(entries.drop_first(), ns) {
            Some(i) => Some(i + 1),
            None => None,
        }
    }
}

/// Looks a namespace up in a namespace map.
fn map_find<'a>(entries: &'a Vec<(String, Document)>, ns: &String) -> (r: Option<&'a Document>)
    ensures
        match r {
            Some(d) => spec_map_find(
                entries@.map_values(|e: (String, Document)| (e.0@, e.1)),
                ns@,
            ) matches Some(i) && *d == entries@.map_values(|e: (String, Document)| (e.0@, e.1))[i].1,
            None => spec_map_find(entries@.map_values(|e: (String, Document)| (e.0@, e.1)), ns@)
                is None,
        },
{
    let ghost all = entries@.map_values(|e: (String, Document)| (e.0@, e.1));
    let mut i: usize = 0;
    proof {
        assert(all.skip(0) =~= all);
    }
    while i < entries.len()
        invariant
            all == entries@.map_values(|e: (String, Document)| (e.0@, e.1)),
            all.len() == entries@.len(),
            0 <= i <= all.len(),
            spec_map_find(all, ns@) == match spec_map_find(all.skip(i as int), ns@) {
                Some(j) => Some(j + i),
                None => None::<int>,
            },
        decreases all.len() - i,
    {
        proof {
            assert(all[i as int] == (entries@[i as int].0@, entries@[i as int].1));
            assert(all.skip(i as int)[0] == all[i as int]);
            assert(all.skip(i as int).drop_first() =~= all.skip(i + 1));
        }
        if entries[i].0.eq(ns) {
            return Some(&entries[i].1);
        }
        i += 1;
    }
    proof {
        assert(all.skip(i as int).len() == 0);
    }
    None
}

/// Estimated batch weight of a document: its size plus the allowance for
/// ciphertext growth.
pub open spec fn spec_est(size: usize) -> int {
    size + ENCRYPTION_OVERHEAD_BYTES
}

/// Total estimated weight of one batch.
pub open spec fn spec_batch_est(sizes: Seq<usize>, batch: Seq<usize>) -> int
    decreases batch.len(),
{
    if batch.len() == 0 {
        0
    } else {
        (if 0 <= batch[0] < sizes.len() {
            spec_est(sizes[batch[0] as int])
        } else {
            0
        }) + spec_batch_est(sizes, batch.drop_first())
    }
}

/// All indices of all batches, in order.
pub open spec fn spec_flatten(bs: Seq<Seq<usize>>) -> Seq<usize>
    decreases bs.len(),
{
    if bs.len() == 0 {
        Seq::empty()
    } else {
        bs[0] + spec_flatten(bs.drop_first())
    }
}

proof fn lemma_flatten_push(bs: Seq<Seq<usize>>, b: Seq<usize>)
    ensures
        spec_flatten(bs.push(b)) == spec_flatten(bs) + b,
    decreases bs.len(),
{
    let p = bs.push(b);
    assert(p.len() == bs.len() + 1);
    if bs.len() == 0 {
        assert(p.drop_first() =~= Seq::<Seq<usize>>::empty());
        assert(p[0] == b);
        assert(spec_flatten(p) == b + spec_flatten(Seq::<Seq<usize>>::empty()));
        assert(spec_flatten(p) =~= spec_flatten(bs) + b);
        assert(spec_flatten(p) == spec_flatten(bs) + b);
    } else {
        assert(p.drop_first() =~= bs.drop_first().push(b));
        lemma_flatten_push(bs.drop_first(), b);
        assert(p[0] == bs[0]);
        assert(spec_flatten(p) == bs[0] + (spec_flatten(bs.drop_first()) + b));
        assert(spec_flatten(p) =~= spec_flatten(bs) + b);
        assert(spec_flatten(p) == spec_flatten(bs) + b);
    }
}

proof fn lemma_batch_est_push(sizes: Seq<usize>, batch: Seq<usize>, x: usize)
    ensures
        spec_batch_est(sizes, batch.push(x)) == spec_batch_est(sizes, batch) + (if 0 <= x
            < sizes.len() {
            spec_est(sizes[x as int])
        } else {
            0
        }),
    decreases batch.len(),
{
    let p = batch.push(x);
    assert(p.len() == batch.len() + 1);
    if batch.len() == 0 {
        assert(p.drop_first() =~= Seq::<usize>::empty());
        assert(p[0] == x);
        assert(spec_batch_est(sizes, p.drop_first()) == 0);
    } else {
        assert(p.drop_first() =~= batch.drop_first().push(x));
        lemma_batch_est_push(sizes, batch.drop_first(), x);
        assert(p[0] == batch[0]);
    }
}

/// Appending index `i` to a run that lists `0 .. i` lists `0 .. i + 1`.
proof fn lemma_indices_extend(f: Seq<usize>, c: Seq<usize>, i: usize)
    requires
        f + c == Seq::new(i as nat, |t: int| t as usize),
    ensures
        f + c.push(i) == Seq::new((i + 1) as nat, |t: int| t as usize),
{
    let before = f + c;
    let after = f + c.push(i);
    assert(before.len() == i);
    assert(after.len() == i + 1);
    assert forall|t: int| 0 <= t < i + 1 implies after[t] == Seq::new(
        (i + 1) as nat,
        |t: int| t as usize,
    )[t] by {
        if t < f.len() {
            assert(after[t] == f[t]);
            assert(before[t] == f[t]);
        } else if t < i {
            assert(after[t] == c.push(i)[t - f.len()]);
            assert(c.push(i)[t - f.len()] == c[t - f.len()]);
            assert(before[t] == c[t - f.len()]);
        } else {
            assert(after[t] == c.push(i)[c.len() as int]);
        }
    }
    assert(after =~= Seq::new((i + 1) as nat, |t: int| t as usize));
}

/// Splits an ordered run of documents, given by their serialized sizes, into
/// insert batches.
///
/// Membership is estimated from each document's size plus the fixed
/// ciphertext allowance against the per-document logical limit, so a
/// document whose encrypted form would exceed that limit stands in a batch
/// of its own; batches are greedy: a batch is closed only when the next
/// document does not fit. A document whose estimated encrypted form exceeds
/// the hard limit fails the whole write as an oversize-document write error
/// instead of being split further.
#[verifier::rlimit(100)]
pub fn split_insert_batches(sizes: &Vec<usize>) -> (r: Result<Vec<Vec<usize>>, Error>)
    ensures
        match r {
            Ok(batches) => {
                let bs = batches@.map_values(|b: Vec<usize>| b@);
                &&& forall|k: int| 0 <= k < sizes@.len() ==> spec_est(#[trigger] sizes@[k])
                    <= MAX_DOCUMENT_BYTES
                &&& spec_flatten(bs) =~= Seq::new(sizes@.len(), |k: int| k as usize)
                &&& forall|b: int| 0 <= b < bs.len() ==> (#[trigger] bs[b]).len() > 0
                &&& forall|b: int|
                    0 <= b < bs.len() && (#[trigger] bs[b]).len() > 1 ==> spec_batch_est(
                        sizes@,
                        bs[b],
                    ) <= MAX_BATCH_DOC_BYTES
                &&& forall|b: int, j: int|
                    0 <= b < bs.len() && 0 <= j < (#[trigger] bs[b]).len() ==> 0 <= #[trigger] bs[b][j]
                        < sizes@.len()
                &&& forall|b: int, j: int|
                    0 <= b < bs.len() && 0 <= j < (#[trigger] bs[b]).len() && bs[b].len() > 1
                        ==> spec_est(sizes@[#[trigger] bs[b][j] as int]) <= MAX_BATCH_DOC_BYTES
                &&& forall|b: int|
                    0 <= b < bs.len() - 1 ==> spec_batch_est(sizes@, #[trigger] bs[b]) + spec_est(
                        sizes@[bs[b + 1][0] as int],
                    ) > MAX_BATCH_DOC_BYTES
            },
            Err(e) => {
                &&& exists|k: int| 0 <= k < sizes@.len() && spec_est(#[trigger] sizes@[k])
                    > MAX_DOCUMENT_BYTES
                &&& e.kind matches ErrorKind::Write(crate::error::WriteFailure::WriteError(w))
                    && w.code == OVERSIZE_DOCUMENT_CODE
            },
        },
{
    let n = sizes.len();
    let mut k: usize = 0;
    while k < n
        invariant
            n == sizes@.len(),
            0 <= k <= n,
            forall|t: int| 0 <= t < k ==> spec_est(#[trigger] sizes@[t]) <= MAX_DOCUMENT_BYTES,
        decreases n - k,
    {
        if sizes[k] > MAX_DOCUMENT_BYTES - ENCRYPTION_OVERHEAD_BYTES {
            return Err(oversize_document_error());
        }
        k += 1;
    }
    let mut acc: Vec<Vec<usize>> = Vec::new();
    let mut cur: Vec<usize> = Vec::new();
    let mut cur_bytes: usize = 0;
    let mut i: usize = 0;
    while i < n
        invariant
            n == sizes@.len(),
            0 <= i <= n,
            forall|t: int| 0 <= t < n ==> spec_est(#[trigger] sizes@[t]) <= MAX_DOCUMENT_BYTES,
            cur_bytes == spec_batch_est(sizes@, cur@),
            cur@.len() == 0 ==> cur_bytes == 0,
            cur@.len() > 0 ==> cur_bytes <= MAX_DOCUMENT_BYTES,
            cur@.len() > 1 ==> cur_bytes <= MAX_BATCH_DOC_BYTES,
            forall|j: int| 0 <= j < cur@.len() ==> 0 <= #[trigger] cur@[j] < i,
            forall|j: int|
                0 <= j < cur@.len() && cur@.len() > 1 ==> spec_est(
                    sizes@[#[trigger] cur@[j] as int],
                ) <= MAX_BATCH_DOC_BYTES,
            cur@.len() == 0 ==> acc@.len() == 0,
            cur@.len() == 1 ==> cur_bytes == spec_est(sizes@[cur@[0] as int]),
            spec_flatten(acc@.map_values(|b: Vec<usize>| b@)) + cur@ == Seq::new(
                i as nat,
                |t: int| t as usize,
            ),
            ({
                let bs = acc@.map_values(|b: Vec<usize>| b@);
                &&& forall|b: int| 0 <= b < bs.len() ==> (#[trigger] bs[b]).len() > 0
                &&& forall|b: int|
                    0 <= b < bs.len() && (#[trigger] bs[b]).len() > 1 ==> spec_batch_est(
                        sizes@,
                        bs[b],
                    ) <= MAX_BATCH_DOC_BYTES
                &&& forall|b: int, j: int|
                    0 <= b < bs.len() && 0 <= j < (#[trigger] bs[b]).len() ==> 0 <= #[trigger] bs[b][j]
                        < sizes@.len()
                &&& forall|b: int, j: int|
                    0 <= b < bs.len() && 0 <= j < (#[trigger] bs[b]).len() && bs[b].len() > 1
                        ==> spec_est(sizes@[#[trigger] bs[b][j] as int]) <= MAX_BATCH_DOC_BYTES
                &&& forall|b: int|
                    0 <= b < bs.len() - 1 ==> spec_batch_est(sizes@, #[trigger] bs[b]) + spec_est(
                        sizes@[bs[b + 1][0] as int],
                    ) > MAX_BATCH_DOC_BYTES
                &&& (bs.len() > 0 && cur@.len() > 0 ==> spec_batch_est(sizes@, bs[bs.len() - 1])
                    + spec_est(sizes@[cur@[0] as int]) > MAX_BATCH_DOC_BYTES)
            }),
        decreases n - i,
    {
        let e = sizes[i] + ENCRYPTION_OVERHEAD_BYTES;
        let ghost oldcur = cur@;
        let ghost oldacc = acc@.map_values(|b: Vec<usize>| b@);
        if cur.len() == 0 {
            cur.push(i);
            cur_bytes = e;
            proof {
                lemma_batch_est_push(sizes@, oldcur, i);
                lemma_indices_extend(spec_flatten(oldacc), oldcur, i);
            }
        } else if cur_bytes <= MAX_BATCH_DOC_BYTES && e <= MAX_BATCH_DOC_BYTES && cur_bytes + e
            <= MAX_BATCH_DOC_BYTES {
            cur.push(i);
            cur_bytes = cur_bytes + e;
            proof {
                lemma_batch_est_push(sizes@, oldcur, i);
                lemma_indices_extend(spec_flatten(oldacc), oldcur, i);
                assert forall|j: int|
                    0 <= j < cur@.len() && cur@.len() > 1 implies spec_est(
                    sizes@[#[trigger] cur@[j] as int],
                ) <= MAX_BATCH_DOC_BYTES by {
                    if j < oldcur.len() {
                        assert(cur@[j] == oldcur[j]);
                    } else {
                        assert(cur@[j] == i as usize);
                    }
                }
            }
        } else {
            let full = cur;
            acc.push(full);
            cur = Vec::new();
            cur.push(i);
            cur_bytes = e;
            proof {
                let bs = acc@.map_values(|b: Vec<usize>| b@);
                assert(bs =~= oldacc.push(oldcur));
                lemma_flatten_push(oldacc, oldcur);
                assert(spec_flatten(bs) =~= spec_flatten(oldacc) + oldcur);
                assert(cur@ =~= Seq::<usize>::empty().push(i as usize));
                lemma_batch_est_push(sizes@, Seq::<usize>::empty(), i);
                lemma_indices_extend(spec_flatten(oldacc) + oldcur, Seq::<usize>::empty(), i);
                assert(spec_flatten(oldacc) + oldcur + Seq::<usize>::empty() =~= spec_flatten(
                    oldacc,
                ) + oldcur);
                assert(spec_flatten(bs) + cur@ =~= (spec_flatten(oldacc) + oldcur)
                    + Seq::<usize>::empty().push(i as usize));
                assert(spec_flatten(bs) + cur@ == Seq::new((i + 1) as nat, |t: int| t as usize));
                assert forall|b: int| 0 <= b < bs.len() - 1 implies spec_batch_est(
                    sizes@,
                    #[trigger] bs[b],
                ) + spec_est(sizes@[bs[b + 1][0] as int]) > MAX_BATCH_DOC_BYTES by {
                    if b < oldacc.len() - 1 {
                        assert(bs[b] == oldacc[b] && bs[b + 1] == oldacc[b + 1]);
                    } else {
                        assert(bs[b] == oldacc[b] && bs[b + 1] == oldcur);
                    }
                }
            }
        }
        i += 1;
    }
    if cur.len() > 0 {
        let ghost oldacc = acc@.map_values(|b: Vec<usize>| b@);
        let ghost oldcur = cur@;
        acc.push(cur);
        proof {
            let bs = acc@.map_values(|b: Vec<usize>| b@);
            assert(bs =~= oldacc.push(oldcur));
            lemma_flatten_push(oldacc, oldcur);
            assert(spec_flatten(bs) =~= Seq::new(n as nat, |t: int| t as usize));
            assert forall|b: int| 0 <= b < bs.len() - 1 implies spec_batch_est(
                sizes@,
                #[trigger] bs[b],
            ) + spec_est(sizes@[bs[b + 1][0] as int]) > MAX_BATCH_DOC_BYTES by {
                if b < oldacc.len() - 1 {
                    assert(bs[b] == oldacc[b] && bs[b + 1] == oldacc[b + 1]);
                } else {
                    assert(bs[b] == oldacc[b] && bs[b + 1] == oldcur);
                }
            }
        }
    } else {
        proof {
            assert(spec_flatten(acc@.map_values(|b: Vec<usize>| b@)) + cur@ =~= spec_flatten(
                acc@.map_values(|b: Vec<usize>| b@),
            ));
        }
    }
    Ok(acc)
}

/// Resolves the schema for one namespace, in the stated precedence order:
/// the local schema map, then the server validator, then the
/// encrypted-fields map; a namespace in none of them is unschemaed.
/// True when `r` is the source resolution picks for `ns` under the given
/// options and server-reported collection info.
pub open spec fn spec_resolution_picks(
    opts: AutoEncryptionOptions,
    ns: Seq<char>,
    server_info: CollectionInfo,
    r: SchemaSource,
) -> bool {
    let smap = opts.schema_map@.map_values(|e: (String, Document)| (e.0@, e.1));
    let fmap = opts.encrypted_fields_map@.map_values(|e: (String, Document)| (e.0@, e.1));
    let local = spec_map_find(smap, ns);
    let fields = spec_map_find(fmap, ns);
    let c = spec_schema_choice(local is Some, server_info.validator is Some, fields is Some);
    if c == 0 {
        r matches SchemaSource::LocalMap(d) && d@ == smap[local.unwrap()].1@
    } else if c == 1 {
        r matches SchemaSource::ServerValidator(d) && (server_info.validator matches Some(v) && d@
            == v@)
    } else if c == 2 {
        r matches SchemaSource::EncryptedFields(d) && d@ == fmap[fields.unwrap()].1@
    } else {
        r is Unschemaed
    }
}

pub fn resolve_schema(
    opts: &AutoEncryptionOptions,
    ns: &String,
    server_info: &CollectionInfo,
) -> (r: SchemaSource)
    ensures
        spec_resolution_picks(*opts, ns@, *server_info, r),
{
    match map_find(&opts.schema_map, ns) {
        Some(d) => {
            return SchemaSource::LocalMap(clone_document(d));
        },
        None => {},
    }
    match &server_info.validator {
        Some(d) => {
            return SchemaSource::ServerValidator(clone_document(d));
        },
        None => {},
    }
    match map_find(&opts.encrypted_fields_map, ns) {
        Some(d) => {
            return SchemaSource::EncryptedFields(clone_document(d));
        },
        None => {},
    }
    SchemaSource::Unschemaed
}

/// Value equality of two schema sources: same origin, same document image.
pub open spec fn spec_source_eqv(a: SchemaSource, b: SchemaSource) -> bool {
    match (a, b) {
        (SchemaSource::LocalMap(x), SchemaSource::LocalMap(y)) => x@ == y@,
        (SchemaSource::ServerValidator(x), SchemaSource::ServerValidator(y)) => x@ == y@,
        (SchemaSource::EncryptedFields(x), SchemaSource::EncryptedFields(y)) => x@ == y@,
        (SchemaSource::Unschemaed, SchemaSource::Unschemaed) => true,
        _ => false,
    }
}

/// Copies a schema source, keeping its value.
pub fn clone_schema_source(s: &SchemaSource) -> (r: SchemaSource)
    ensures
        spec_source_eqv(r, *s),
{
    match s {
        SchemaSource::LocalMap(d) => SchemaSource::LocalMap(clone_document(d)),
        SchemaSource::ServerValidator(d) => SchemaSource::ServerValidator(clone_document(d)),
        SchemaSource::EncryptedFields(d) => SchemaSource::EncryptedFields(clone_document(d)),
        SchemaSource::Unschemaed => SchemaSource::Unschemaed,
    }
}

/// Index of the cache entry for `ns`, if one is filled.
pub open spec fn spec_cache_find(entries: Seq<(Seq<char>, SchemaSource)>, ns: Seq<char>) -> Option<
    int,
>
    decreases entries.len(),
{
    if entries.len() == 0 {
        None
    } else if entries[0].0 == ns {
        Some(0)
    } else {
        match spec_cache_find(entries.drop_first(), ns) {
            Some(i) => Some(i + 1),
            None => None,
        }
    }
}

/// The per-namespace schema cache, filled once per namespace for the
/// pipeline's lifetime. Population is idempotent — a second resolver racing
/// on the same namespace stores the same choice — and no lock is held across
/// the network fetch that produces the collection info.
#[derive(Debug)]
pub struct SchemaCache {
    pub entries: Vec<(String, SchemaSource)>,
}

/// Image of the cache: namespaces with their sources.
pub open spec fn spec_cache_view(c: SchemaCache) -> Seq<(Seq<char>, SchemaSource)> {
    c.entries@.map_values(|e: (String, SchemaSource)| (e.0@, e.1))
}

impl SchemaCache {
    /// An empty cache.
    pub fn new() -> (r: SchemaCache)
        ensures
            spec_cache_view(r) =~= Seq::<(Seq<char>, SchemaSource)>::empty(),
    {
        SchemaCache { entries: Vec::new() }
    }

    /// The cached source for `ns`, when the namespace was resolved before.
    pub fn lookup(&self, ns: &String) -> (r: Option<&SchemaSource>)
        ensures
            match r {
                Some(s) => spec_cache_find(spec_cache_view(*self), ns@) matches Some(i) && *s
                    == spec_cache_view(*self)[i].1,
                None => spec_cache_find(spec_cache_view(*self), ns@) is None,
            },
    {
        let ghost all = spec_cache_view(*self);
        let mut i: usize = 0;
        proof {
            assert(all.skip(0) =~= all);
        }
        while i < self.entries.len()
            invariant
                all == spec_cache_view(*self),
                all.len() == self.entries@.len(),
                0 <= i <= all.len(),
                spec_cache_find(all, ns@) == match spec_cache_find(all.skip(i as int), ns@) {
                    Some(j) => Some(j + i),
                    None => None::<int>,
                },
            decreases all.len() - i,
        {
            proof {
                assert(all[i as int] == (self.entries@[i as int].0@, self.entries@[i as int].1));
                assert(all.skip(i as int)[0] == all[i as int]);
                assert(all.skip(i as int).drop_first() =~= all.skip(i + 1));
            }
            if self.entries[i].0.eq(ns) {
                return Some(&self.entries[i].1);
            }
            i += 1;
        }
        proof {
            assert(all.skip(i as int).len() == 0);
        }
        None
    }

    /// Resolves the schema for `ns`, reusing the cached choice when the
    /// namespace was resolved before and caching it otherwise.
    pub fn resolve_cached(
        &mut self,
        opts: &AutoEncryptionOptions,
        ns: &String,
        server_info: &CollectionInfo,
    ) -> (r: SchemaSource)
        ensures
            spec_cache_find(spec_cache_view(*final(self)), ns@) is Some,
            match spec_cache_find(spec_cache_view(*old(self)), ns@) {
                Some(i) => *final(self) == *old(self) && spec_source_eqv(
                    r,
                    spec_cache_view(*old(self))[i].1,
                ),
                None => exists|stored: SchemaSource|
                    spec_source_eqv(r, stored) && spec_resolution_picks(
                        *opts,
                        ns@,
                        *server_info,
                        stored,
                    ) && spec_cache_view(*final(self)) =~= spec_cache_view(*old(self)).push(
                        (ns@, stored),
                    ),
            },
    {
        match self.lookup(ns) {
            Some(s) => {
                return clone_schema_source(s);
            },
            None => {},
        }
        let resolved = resolve_schema(opts, ns, server_info);
        let ghost oldview = spec_cache_view(*self);
        let copy = clone_schema_source(&resolved);
        let ghost stored = resolved;
        self.entries.push((ns.clone(), resolved));
        proof {
            assert(spec_cache_view(*self) =~= oldview.push((ns@, stored)));
            lemma_cache_find_push(oldview, ns@, stored);
        }
        copy
    }
}

proof fn lemma_cache_find_push(entries: Seq<(Seq<char>, SchemaSource)>, ns: Seq<char>, s: SchemaSource)
    ensures
        spec_cache_find(entries.push((ns, s)), ns) is Some,
    decreases entries.len(),
{
    let p = entries.push((ns, s));
    if entries.len() == 0 {
        assert(p[0] == (ns, s));
    } else {
        if p[0].0 != ns {
            assert(p.drop_first() =~= entries.drop_first().push((ns, s)));
            lemma_cache_find_push(entries.drop_first(), ns, s);
        }
    }
}

/// One marking the helper identified: which field to encrypt, with which
/// key and algorithm.
#[derive(Debug)]
pub struct FieldMarking {
    pub field: String,
    pub key: EncryptKey,
    pub algorithm: Algorithm,
    pub contention_factor: Option<i64>,
}

/// Index of the first marking for `name`, if any.
pub open spec fn spec_marking_for(ms: Seq<FieldMarking>, name: Seq<char>) -> Option<int>
    decreases ms.len(),
{
    if ms.len() == 0 {
        None
    } else if ms[0].field@ == name {
        Some(0)
    } else {
        match spec_marking_for(ms.drop_first(), name) {
            Some(i) => Some(i + 1),
            None => None,
        }
    }
}

fn marking_for<'a>(ms: &'a Vec<FieldMarking>, name: &String) -> (r: Option<&'a FieldMarking>)
    ensures
        match r {
            Some(m) => spec_marking_for(ms@, name@) matches Some(i) && *m == ms@[i],
            None => spec_marking_for(ms@, name@) is None,
        },
{
    let ghost all = ms@;
    let mut i: usize = 0;
    proof {
        assert(all.skip(0) =~= all);
    }
    while i < ms.len()
        invariant
            all == ms@,
            0 <= i <= all.len(),
            spec_marking_for(all, name@) == match spec_marking_for(all.skip(i as int), name@) {
                Some(j) => Some(j + i),
                None => None::<int>,
            },
        decreases all.len() - i,
    {
        proof {
            assert(all.skip(i as int)[0] == all[i as int]);
            assert(all.skip(i as int).drop_first() =~= all.skip(i + 1));
        }
        if ms[i].field.eq(name) {
            return Some(&ms[i]);
        }
        i += 1;
    }
    proof {
        assert(all.skip(i as int).len() == 0);
    }
    None
}

/// Applies the encryptor to every marked field of a command document: each
/// marked leaf is replaced by its ciphertext payload under the marking's key
/// and algorithm, unmarked leaves pass through untouched, and a marked field
/// that cannot be encrypted — unresolved key, remote-wrapped key, or an
/// inapplicable value such as already-encrypted ciphertext — fails the whole
/// command.
pub fn encrypt_marked(
    vault: &KeyVault,
    registry: &KmsProviderRegistry,
    doc: &Document,
    markings: &Vec<FieldMarking>,
    entropies: &Vec<Entropy>,
) -> (r: Result<Document, Error>)
    requires
        spec_vault_wf(vault@),
        entropies@.len() == doc@.len(),
        forall|j: int| 0 <= j < entropies@.len() ==> (#[trigger] entropies@[j]).iv@.len()
            == crate::crypto::IV_LEN,
    ensures
        match r {
            Ok(out) => {
                &&& out@.len() == doc@.len()
                &&& forall|j: int|
                    0 <= j < doc@.len() ==> (#[trigger] out@[j]).0 == doc@[j].0 && match spec_marking_for(
                        markings@,
                        doc@[j].0,
                    ) {
                        None => out@[j].1 == doc@[j].1,
                        Some(m) => {
                            &&& spec_resolve_key(vault@, markings@[m].key) matches Some(i)
                            &&& spec_local_dek(registry.entries@, vault@[i]) matches Some(dek)
                            &&& out@[j].1 == BsonV::Binary(
                                (BinaryV {
                                    subtype: BinarySubtype::Encrypted,
                                    bytes: crate::encryptor::spec_encrypt(
                                        doc@[j].1,
                                        dek,
                                        vault@[i].id,
                                        markings@[m].algorithm,
                                        markings@[m].contention_factor,
                                        entropies@[j].iv@,
                                        entropies@[j].slot_draw,
                                    ),
                                }),
                            )
                        },
                    }
            },
            Err(_) => exists|j: int|
                0 <= j < doc@.len() && (#[trigger] spec_marking_for(markings@, doc@[j].0) matches
                Some(m) && {
                    ||| spec_resolve_key(vault@, markings@[m].key) is None
                    ||| (spec_resolve_key(vault@, markings@[m].key) matches Some(i)
                        && spec_local_dek(registry.entries@, vault@[i]) is None)
                    ||| !spec_encrypt_call_valid(
                        markings@[m].algorithm,
                        doc@[j].1,
                        markings@[m].contention_factor,
                        None,
                    )
                }),
        },
{
    let mut out = Document::new();
    let mut j: usize = 0;
    while j < doc.entries.len()
        invariant
            spec_vault_wf(vault@),
            doc@.len() == doc.entries@.len(),
            entropies@.len() == doc@.len(),
            forall|t: int| 0 <= t < entropies@.len() ==> (#[trigger] entropies@[t]).iv@.len()
                == crate::crypto::IV_LEN,
            0 <= j <= doc@.len(),
            out@.len() == j,
            forall|t: int|
                0 <= t < j ==> (#[trigger] out@[t]).0 == doc@[t].0 && match spec_marking_for(
                    markings@,
                    doc@[t].0,
                ) {
                    None => out@[t].1 == doc@[t].1,
                    Some(m) => {
                        &&& spec_resolve_key(vault@, markings@[m].key) matches Some(i)
                        &&& spec_local_dek(registry.entries@, vault@[i]) matches Some(dek)
                        &&& out@[t].1 == BsonV::Binary(
                            (BinaryV {
                                subtype: BinarySubtype::Encrypted,
                                bytes: crate::encryptor::spec_encrypt(
                                    doc@[t].1,
                                    dek,
                                    vault@[i].id,
                                    markings@[m].algorithm,
                                    markings@[m].contention_factor,
                                    entropies@[t].iv@,
                                    entropies@[t].slot_draw,
                                ),
                            }),
                        )
                    },
                },
        decreases doc@.len() - j,
    {
        proof {
            assert(doc@[j as int] == (doc.entries@[j as int].0@, doc.entries@[j as int].1@));
        }
        let name = doc.entries[j].0.clone();
        match marking_for(markings, &doc.entries[j].0) {
            None => {
                let value = crate::document::clone_bson(&doc.entries[j].1);
                out.insert(name, value);
            },
            Some(m) => {
                let payload = match encrypt(
                    vault,
                    registry,
                    &doc.entries[j].1,
                    &m.key,
                    m.algorithm,
                    m.contention_factor,
                    None,
                    &entropies[j],
                ) {
                    Ok(p) => p,
                    Err(e) => {
                        proof {
                            let mi = spec_marking_for(markings@, doc@[j as int].0).unwrap();
                            assert(markings@[mi] == *m);
                        }
                        return Err(e);
                    },
                };
                out.insert(name, Bson::Binary(payload));
            },
        }
        j += 1;
    }
    Ok(out)
}

/// What a ciphertext leaf of a reply decrypts to through the vault, when
/// everything about it resolves.
pub open spec fn spec_leaf_decrypts(
    docs: Seq<crate::keyvault::DataKeyDocV>,
    entries: Seq<crate::provider::KmsProviderConfig>,
    bytes: Seq<u8>,
) -> Option<BsonV> {
    if bytes.len() < 1 + crate::KEY_ID_LEN {
        None
    } else {
        match crate::keyvault::spec_find_by_id(
            docs,
            crate::encryptor::spec_wire_key_id(bytes),
        ) {
            None => None,
            Some(i) => match spec_local_dek(entries, docs[i]) {
                None => None,
                Some(dek) => match crate::encryptor::spec_decrypt(bytes, dek) {
                    Ok(v) => Some(v),
                    Err(_) => None,
                },
            },
        }
    }
}

/// Processes a command reply: the first component is the reply exactly as it
/// came off the wire — what command-succeeded telemetry records, ciphertext
/// and all — and the second decrypts every ciphertext leaf in place, or
/// reports the first failure after that telemetry value already stands.
pub fn process_reply(
    vault: &KeyVault,
    registry: &KmsProviderRegistry,
    reply: &Document,
) -> (r: (Document, Result<Document, Error>))
    ensures
        r.0@ == reply@,
        match r.1 {
            Ok(out) => {
                &&& out@.len() == reply@.len()
                &&& forall|j: int|
                    0 <= j < reply@.len() ==> (#[trigger] out@[j]).0 == reply@[j].0 && match reply@[j].1 {
                        BsonV::Binary(b) => if b.subtype == BinarySubtype::Encrypted {
                            spec_leaf_decrypts(vault@, registry.entries@, b.bytes) == Some(
                                out@[j].1,
                            )
                        } else {
                            out@[j].1 == reply@[j].1
                        },
                        _ => out@[j].1 == reply@[j].1,
                    }
            },
            Err(_) => exists|j: int|
                0 <= j < reply@.len() && ((#[trigger] reply@[j].1) matches BsonV::Binary(b)
                    && b.subtype == BinarySubtype::Encrypted && spec_leaf_decrypts(
                    vault@,
                    registry.entries@,
                    b.bytes,
                ) is None),
        },
{
    let telemetry = clone_document(reply);
    let mut out = Document::new();
    let mut j: usize = 0;
    while j < reply.entries.len()
        invariant
            telemetry@ == reply@,
            reply@.len() == reply.entries@.len(),
            0 <= j <= reply@.len(),
            out@.len() == j,
            forall|t: int|
                0 <= t < j ==> (#[trigger] out@[t]).0 == reply@[t].0 && match reply@[t].1 {
                    BsonV::Binary(b) => if b.subtype == BinarySubtype::Encrypted {
                        spec_leaf_decrypts(vault@, registry.entries@, b.bytes) == Some(out@[t].1)
                    } else {
                        out@[t].1 == reply@[t].1
                    },
                    _ => out@[t].1 == reply@[t].1,
                },
        decreases reply@.len() - j,
    {
        proof {
            assert(reply@[j as int] == (reply.entries@[j as int].0@, reply.entries@[j as int].1@));
        }
        let name = reply.entries[j].0.clone();
        match &reply.entries[j].1 {
            Bson::Binary(b) => {
                if matches!(b.subtype, BinarySubtype::Encrypted) {
                    match crate::explicit::decrypt(vault, registry, b.bytes.as_slice()) {
                        Ok(v) => {
                            out.insert(name, v);
                        },
                        Err(e) => {
                            proof {
                                assert(reply@[j as int].1 matches BsonV::Binary(bb) && bb.subtype
                                    == BinarySubtype::Encrypted && spec_leaf_decrypts(
                                    vault@,
                                    registry.entries@,
                                    bb.bytes,
                                ) is None);
                            }
                            return (telemetry, Err(e));
                        },
                    }
                } else {
                    let value = crate::document::clone_bson(&reply.entries[j].1);
                    out.insert(name, value);
                }
            },
            _ => {
                let value = crate::document::clone_bson(&reply.entries[j].1);
                out.insert(name, value);
            },
        }
        j += 1;
    }
    (telemetry, Ok(out))
}

} // verus!
