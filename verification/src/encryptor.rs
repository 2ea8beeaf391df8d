//! Single-value encryption: the four algorithms, the ciphertext wire format,
//! and the equality-search tokens of the indexed algorithm.
//!
//! Wire layout of a stored payload: an algorithm tag byte, the 16-byte id of
//! the data key, the 16-byte IV, for the indexed algorithm a 24-byte slot
//! token, the enciphered value bytes, and a 16-byte integrity tag over all
//! preceding bytes. A query payload carries its own tag byte, the key id,
//! the contention factor, and one slot token per reachable slot.

use vstd::prelude::*;
use vstd::bytes::*;

use crate::codec::{decode_value, encode_value, spec_decode_value, spec_value_bytes};
use crate::crypto::{
    bytes_eq, copy_range, extend_bytes, mac_tag, spec_mac_tag, spec_xor_stream, xor_stream, IV_LEN,
    TAG_LEN,
};
use crate::document::{Binary, BinarySubtype, Bson, BsonV};
use crate::error::{CsfleKind, Error, ErrorKind};
use crate::KEY_ID_LEN;

verus! {

/// The four encryption algorithms.
#[derive(Clone, Copy, Debug, PartialEq, Eq, Structural)]
pub enum Algorithm {
    /// Fresh IV on every call; no equality search.
    Random,
    /// IV derived from the key and the plaintext: byte-stable per input.
    Deterministic,
    /// Queryable encryption with contention slots and equality tokens.
    Indexed,
    /// Queryable-encryption payload without a search token.
    Unindexed,
}

/// The query shapes an indexed payload can be built for.
#[derive(Clone, Copy, Debug, PartialEq, Eq, Structural)]
pub enum QueryType {
    Equality,
}

/// Caller-supplied randomness for one encryption call: the IV used by the
/// non-deterministic algorithms, and the draw that picks a contention slot.
pub struct Entropy {
    pub iv: Vec<u8>,
    pub slot_draw: u64,
}

/// Wire tag byte of each algorithm.
pub open spec fn spec_alg_tag(a: Algorithm) -> u8 {
    match a {
        Algorithm::Random => 1,
        Algorithm::Deterministic => 2,
        Algorithm::Indexed => 3,
        Algorithm::Unindexed => 4,
    }
}

/// Wire tag byte of an equality-query payload.
pub const QUERY_PAYLOAD_TAG: u8 = 5;

/// Bytes of a slot token: the slot number and a keyed tag.
pub const TOKEN_LEN: usize = 24;

/// True when a value may be encrypted at all: ciphertext may not be
/// re-encrypted, and null carries no information worth a payload.
pub open spec fn spec_value_encryptable(v: BsonV) -> bool {
    match v {
        BsonV::Binary(b) => b.subtype != BinarySubtype::Encrypted,
        BsonV::Null => false,
        _ => true,
    }
}

/// True when `a` applies to `v`: the equality-preserving algorithms reject
/// the low-cardinality boolean type.
pub open spec fn spec_algorithm_accepts(a: Algorithm, v: BsonV) -> bool {
    spec_value_encryptable(v) && match a {
        Algorithm::Deterministic | Algorithm::Indexed => !(v is Boolean),
        _ => true,
    }
}

/// True when the per-call options fit the algorithm: only the indexed
/// algorithm takes a contention factor (required, non-negative) and a query
/// type.
pub open spec fn spec_options_valid(a: Algorithm, cf: Option<i64>, qt: Option<QueryType>) -> bool {
    match a {
        Algorithm::Indexed => cf matches Some(c) && c >= 0,
        _ => cf is None && qt is None,
    }
}

/// True when the whole encryption call is valid.
pub open spec fn spec_encrypt_call_valid(
    a: Algorithm,
    v: BsonV,
    cf: Option<i64>,
    qt: Option<QueryType>,
) -> bool {
    spec_algorithm_accepts(a, v) && spec_options_valid(a, cf, qt)
}

/// The slot a draw lands in: one of the `cf + 1` reachable slots.
pub open spec fn spec_slot(draw: u64, cf: i64) -> u64
    recommends
        cf >= 0,
{
    draw % (((cf as int) + 1) as u64)
}

/// The equality-search token of `(dek, plain, slot)`: the slot number
/// followed by a keyed tag over the slot and the plaintext.
pub open spec fn spec_token(dek: Seq<u8>, plain: Seq<u8>, slot: u64) -> Seq<u8>
    recommends
        dek.len() > 0,
{
    spec_u64_to_le_bytes(slot) + spec_mac_tag(dek, spec_u64_to_le_bytes(slot) + plain)
}

/// The IV an encryption call uses: derived from key and plaintext for the
/// deterministic algorithm, the caller's randomness otherwise.
pub open spec fn spec_iv(a: Algorithm, dek: Seq<u8>, plain: Seq<u8>, iv_in: Seq<u8>) -> Seq<u8>
    recommends
        dek.len() > 0,
{
    if a is Deterministic {
        spec_mac_tag(dek, plain)
    } else {
        iv_in
    }
}

/// Length of everything before the enciphered value bytes.
pub open spec fn spec_header_len(a: Algorithm) -> int {
    if a is Indexed {
        1 + KEY_ID_LEN + IV_LEN + TOKEN_LEN
    } else {
        1 + KEY_ID_LEN + IV_LEN
    }
}

/// The stored ciphertext payload of one encryption call.
pub open spec fn spec_encrypt(
    v: BsonV,
    dek: Seq<u8>,
    key_id: Seq<u8>,
    a: Algorithm,
    cf: Option<i64>,
    iv_in: Seq<u8>,
    draw: u64,
) -> Seq<u8>
    recommends
        dek.len() > 0,
        key_id.len() == KEY_ID_LEN,
        iv_in.len() == IV_LEN,
{
    let plain = spec_value_bytes(v);
    let iv = spec_iv(a, dek, plain, iv_in);
    let mid = if a is Indexed {
        spec_token(dek, plain, spec_slot(draw, cf.unwrap()))
    } else {
        Seq::<u8>::empty()
    };
    let pre = seq![spec_alg_tag(a)] + key_id + iv + mid + spec_xor_stream(dek, iv, plain);
    pre + spec_mac_tag(dek, pre)
}

/// Tokens of all slots `0 ..= cf`, concatenated.
pub open spec fn spec_query_tokens(dek: Seq<u8>, plain: Seq<u8>, cf: i64) -> Seq<u8>
    recommends
        dek.len() > 0,
        cf >= 0,
    decreases cf,
{
    if cf <= 0 {
        spec_token(dek, plain, 0)
    } else {
        spec_query_tokens(dek, plain, (cf - 1) as i64) + spec_token(dek, plain, cf as u64)
    }
}

/// The equality-query payload for `(v, key, cf)`: it reaches every slot up
/// to `cf`.
pub open spec fn spec_query_payload(v: BsonV, dek: Seq<u8>, key_id: Seq<u8>, cf: i64) -> Seq<u8>
    recommends
        dek.len() > 0,
        key_id.len() == KEY_ID_LEN,
        cf >= 0,
{
    seq![QUERY_PAYLOAD_TAG] + key_id + spec_u64_to_le_bytes(cf as u64) + spec_query_tokens(
        dek,
        spec_value_bytes(v),
        cf,
    )
}

/// What decrypting a payload with a given key yields: the value, or the
/// reason the payload is rejected. Total on all byte strings.
pub open spec fn spec_decrypt(w: Seq<u8>, dek: Seq<u8>) -> Result<BsonV, CsfleKind>
    recommends
        dek.len() > 0,
{
    if w.len() < 1 {
        Err(CsfleKind::Malformed)
    } else if !(1 <= w[0] <= 4) {
        Err(CsfleKind::Malformed)
    } else {
        let hl = if w[0] == 3 {
            1 + KEY_ID_LEN + IV_LEN + TOKEN_LEN
        } else {
            1 + KEY_ID_LEN + IV_LEN
        };
        if w.len() < hl + TAG_LEN + 1 {
            Err(CsfleKind::Malformed)
        } else {
            let pre = w.subrange(0, w.len() - TAG_LEN);
            let mac = w.subrange(w.len() - TAG_LEN, w.len() as int);
            if mac != spec_mac_tag(dek, pre) {
                Err(CsfleKind::Validation)
            } else {
                let iv = w.subrange(1 + KEY_ID_LEN, 1 + KEY_ID_LEN + IV_LEN);
                let ct = w.subrange(hl as int, w.len() - TAG_LEN);
                match spec_decode_value(spec_xor_stream(dek, iv, ct)) {
                    Some(v) => Ok(v),
                    None => Err(CsfleKind::Malformed),
                }
            }
        }
    }
}

/// The data-key id a payload names.
pub open spec fn spec_wire_key_id(w: Seq<u8>) -> Seq<u8>
    recommends
        w.len() >= 1 + KEY_ID_LEN,
{
    w.subrange(1, 1 + KEY_ID_LEN)
}

/// Builds the token of `(dek, plain, slot)`.
fn make_token(dek: &[u8], plain: &[u8], slot: u64) -> (r: Vec<u8>)
    requires
        dek@.len() > 0,
    ensures
        r@ =~= spec_token(dek@, plain@, slot),
        r@.len() == TOKEN_LEN,
{
    proof {
        lemma_auto_spec_u64_to_from_le_bytes();
    }
    let slot_bytes = u64_to_le_bytes(slot);
    let mut input: Vec<u8> = Vec::new();
    extend_bytes(&mut input, slot_bytes.as_slice());
    extend_bytes(&mut input, plain);
    let tag = mac_tag(dek, input.as_slice());
    let mut out: Vec<u8> = Vec::new();
    extend_bytes(&mut out, slot_bytes.as_slice());
    extend_bytes(&mut out, tag.as_slice());
    proof {
        assert(input@ =~= spec_u64_to_le_bytes(slot) + plain@);
        assert(out@ =~= spec_token(dek@, plain@, slot));
    }
    out
}

/// Encrypts one value with an already unwrapped data key.
///
/// On every valid call the payload is exactly the one the model states:
/// byte-stable for the deterministic algorithm, embedding the caller's IV
/// otherwise, and carrying the slot picked by the caller's draw for the
/// indexed algorithm. With a query type the result is the equality-query
/// payload instead. Invalid options and inapplicable value types are
/// rejected exactly as stated.
pub fn encrypt_with_dek(
    value: &Bson,
    dek: &[u8],
    key_id: &[u8],
    algorithm: Algorithm,
    contention_factor: Option<i64>,
    query_type: Option<QueryType>,
    entropy: &Entropy,
) -> (r: Result<Binary, Error>)
    requires
        dek@.len() > 0,
        key_id@.len() == KEY_ID_LEN,
        entropy.iv@.len() == IV_LEN,
    ensures
        match r {
            Ok(b) => {
                &&& spec_encrypt_call_valid(algorithm, value@, contention_factor, query_type)
                &&& b@.subtype == BinarySubtype::Encrypted
                &&& if algorithm is Indexed && query_type is Some {
                    b@.bytes == spec_query_payload(
                        value@,
                        dek@,
                        key_id@,
                        contention_factor.unwrap(),
                    )
                } else {
                    b@.bytes == spec_encrypt(
                        value@,
                        dek@,
                        key_id@,
                        algorithm,
                        contention_factor,
                        entropy.iv@,
                        entropy.slot_draw,
                    )
                }
            },
            Err(e) => {
                &&& !spec_encrypt_call_valid(algorithm, value@, contention_factor, query_type)
                &&& if !spec_options_valid(algorithm, contention_factor, query_type) {
                    e.kind matches ErrorKind::Csfle { kind: CsfleKind::InvalidOptions, .. }
                } else {
                    e.kind matches ErrorKind::Csfle { kind: CsfleKind::IncompatibleValue, .. }
                }
            },
        },
{
    let options_ok = match algorithm {
        Algorithm::Indexed => match contention_factor {
            Some(c) => c >= 0,
            None => false,
        },
        _ => contention_factor.is_none() && query_type.is_none(),
    };
    if !options_ok {
        let msg: &str = "options do not fit the algorithm";
        return Err(
            Error {
                kind: ErrorKind::Csfle { kind: CsfleKind::InvalidOptions, message: msg.to_owned() },
                labels: Vec::new(),
            },
        );
    }
    let value_ok = match value {
        Bson::Binary(b) => !matches!(b.subtype, BinarySubtype::Encrypted),
        Bson::Null => false,
        Bson::Boolean(_) => !matches!(algorithm, Algorithm::Deterministic | Algorithm::Indexed),
        _ => true,
    };
    if !value_ok {
        let msg: &str = "algorithm does not apply to this value type";
        return Err(
            Error {
                kind: ErrorKind::Csfle {
                    kind: CsfleKind::IncompatibleValue,
                    message: msg.to_owned(),
                },
                labels: Vec::new(),
            },
        );
    }
    let plain = encode_value(value);
    if matches!(algorithm, Algorithm::Indexed) && query_type.is_some() {
        let cf = match contention_factor {
            Some(c) => c,
            None => 0,
        };
        let mut out: Vec<u8> = Vec::new();
        out.push(QUERY_PAYLOAD_TAG);
        extend_bytes(&mut out, key_id);
        proof {
            lemma_auto_spec_u64_to_from_le_bytes();
        }
        let cf_bytes = u64_to_le_bytes(cf as u64);
        extend_bytes(&mut out, cf_bytes.as_slice());
        let mut k: i64 = 0;
        let first = make_token(dek, plain.as_slice(), 0);
        extend_bytes(&mut out, first.as_slice());
        proof {
            assert(out@ =~= seq![QUERY_PAYLOAD_TAG] + key_id@ + spec_u64_to_le_bytes(cf as u64)
                + spec_query_tokens(dek@, plain@, 0));
        }
        while k < cf
            invariant
                dek@.len() > 0,
                0 <= k <= cf,
                out@ == seq![QUERY_PAYLOAD_TAG] + key_id@ + spec_u64_to_le_bytes(cf as u64)
                    + spec_query_tokens(dek@, plain@, k),
            decreases cf - k,
        {
            let next = make_token(dek, plain.as_slice(), (k + 1) as u64);
            extend_bytes(&mut out, next.as_slice());
            proof {
                assert(out@ =~= seq![QUERY_PAYLOAD_TAG] + key_id@ + spec_u64_to_le_bytes(cf as u64)
                    + (spec_query_tokens(dek@, plain@, k) + spec_token(
                    dek@,
                    plain@,
                    (k + 1) as u64,
                )));
            }
            k = k + 1;
        }
        proof {
            assert(out@ == spec_query_payload(value@, dek@, key_id@, cf));
        }
        return Ok(Binary { subtype: BinarySubtype::Encrypted, bytes: out });
    }
    // Stored payload.
    let iv: Vec<u8> = if matches!(algorithm, Algorithm::Deterministic) {
        mac_tag(dek, plain.as_slice())
    } else {
        copy_range(entropy.iv.as_slice(), 0, entropy.iv.len())
    };
    proof {
        assert(entropy.iv@.subrange(0, entropy.iv@.len() as int) =~= entropy.iv@);
        assert(iv@ == spec_iv(algorithm, dek@, plain@, entropy.iv@));
    }
    let mut pre: Vec<u8> = Vec::new();
    pre.push(
        match algorithm {
            Algorithm::Random => 1,
            Algorithm::Deterministic => 2,
            Algorithm::Indexed => 3,
            Algorithm::Unindexed => 4,
        },
    );
    extend_bytes(&mut pre, key_id);
    extend_bytes(&mut pre, iv.as_slice());
    if matches!(algorithm, Algorithm::Indexed) {
        let cf = match contention_factor {
            Some(c) => c,
            None => 0,
        };
        let slot = entropy.slot_draw % ((cf as u64) + 1);
        let token = make_token(dek, plain.as_slice(), slot);
        extend_bytes(&mut pre, token.as_slice());
    }
    let ct = xor_stream(dek, iv.as_slice(), plain.as_slice());
    extend_bytes(&mut pre, ct.as_slice());
    let tag = mac_tag(dek, pre.as_slice());
    let mut out = pre;
    let ghost pre_view = out@;
    extend_bytes(&mut out, tag.as_slice());
    proof {
        let mid = if algorithm is Indexed {
            spec_token(
                dek@,
                plain@,
                spec_slot(entropy.slot_draw, contention_factor.unwrap()),
            )
        } else {
            Seq::<u8>::empty()
        };
        assert(pre_view =~= seq![spec_alg_tag(algorithm)] + key_id@ + iv@ + mid + spec_xor_stream(
            dek@,
            iv@,
            plain@,
        ));
        assert(out@ =~= pre_view + spec_mac_tag(dek@, pre_view));
        assert(out@ == spec_encrypt(
            value@,
            dek@,
            key_id@,
            algorithm,
            contention_factor,
            entropy.iv@,
            entropy.slot_draw,
        ));
    }
    Ok(Binary { subtype: BinarySubtype::Encrypted, bytes: out })
}

/// Decrypts one payload with an already unwrapped data key: parses the wire
/// form, recomputes and compares the integrity tag before anything is read,
/// and decodes the value. The result is exactly what the model states, for
/// every byte string; a tag mismatch is always surfaced as a validation
/// error and never as plaintext.
pub fn decrypt_with_dek(wire: &[u8], dek: &[u8]) -> (r: Result<Bson, Error>)
    requires
        dek@.len() > 0,
    ensures
        match r {
            Ok(v) => spec_decrypt(wire@, dek@) == Ok::<BsonV, CsfleKind>(v@),
            Err(e) => {
                &&& spec_decrypt(wire@, dek@) is Err
                &&& e.kind matches ErrorKind::Csfle { kind, .. } && Err::<BsonV, CsfleKind>(kind)
                    == spec_decrypt(wire@, dek@)
            },
        },
{
    let n = wire.len();
    if n < 1 || wire[0] < 1 || wire[0] > 4 {
        let msg: &str = "not a ciphertext payload";
        return Err(
            Error {
                kind: ErrorKind::Csfle { kind: CsfleKind::Malformed, message: msg.to_owned() },
                labels: Vec::new(),
            },
        );
    }
    let hl: usize = if wire[0] == 3 {
        1 + KEY_ID_LEN + IV_LEN + TOKEN_LEN
    } else {
        1 + KEY_ID_LEN + IV_LEN
    };
    if n < hl + TAG_LEN + 1 {
        let msg: &str = "ciphertext payload too short";
        return Err(
            Error {
                kind: ErrorKind::Csfle { kind: CsfleKind::Malformed, message: msg.to_owned() },
                labels: Vec::new(),
            },
        );
    }
    let pre = copy_range(wire, 0, n - TAG_LEN);
    let mac = copy_range(wire, n - TAG_LEN, n);
    let expected = mac_tag(dek, pre.as_slice());
    if !bytes_eq(mac.as_slice(), expected.as_slice()) {
        let msg: &str = "ciphertext integrity validation failure";
        return Err(
            Error {
                kind: ErrorKind::Csfle { kind: CsfleKind::Validation, message: msg.to_owned() },
                labels: Vec::new(),
            },
        );
    }
    let iv = copy_range(wire, 1 + KEY_ID_LEN, 1 + KEY_ID_LEN + IV_LEN);
    let ct = copy_range(wire, hl, n - TAG_LEN);
    let plain = xor_stream(dek, iv.as_slice(), ct.as_slice());
    match decode_value(plain.as_slice()) {
        Some(v) => Ok(v),
        None => {
            let msg: &str = "decrypted bytes encode no value";
            Err(
                Error {
                    kind: ErrorKind::Csfle { kind: CsfleKind::Malformed, message: msg.to_owned() },
                    labels: Vec::new(),
                },
            )
        },
    }
}

/// Every value encodes to at least one byte.
pub proof fn lemma_value_bytes_nonempty(v: BsonV)
    ensures
        spec_value_bytes(v).len() >= 1,
{
}

/// Decrypting a payload with the key that produced it yields the original
/// value, whichever of the four algorithms built the payload.
pub proof fn lemma_decrypt_of_encrypt(
    v: BsonV,
    dek: Seq<u8>,
    key_id: Seq<u8>,
    a: Algorithm,
    cf: Option<i64>,
    iv_in: Seq<u8>,
    draw: u64,
)
    requires
        dek.len() > 0,
        key_id.len() == KEY_ID_LEN,
        iv_in.len() == IV_LEN,
        spec_algorithm_accepts(a, v),
        a is Indexed ==> (cf matches Some(c) && c >= 0),
    ensures
        spec_decrypt(spec_encrypt(v, dek, key_id, a, cf, iv_in, draw), dek) == Ok::<
            BsonV,
            crate::error::CsfleKind,
        >(v),
{
    lemma_auto_spec_u64_to_from_le_bytes();
    let plain = spec_value_bytes(v);
    lemma_value_bytes_nonempty(v);
    let iv = spec_iv(a, dek, plain, iv_in);
    assert(iv.len() == IV_LEN);
    let mid = if a is Indexed {
        spec_token(dek, plain, spec_slot(draw, cf.unwrap()))
    } else {
        Seq::<u8>::empty()
    };
    let ct = spec_xor_stream(dek, iv, plain);
    let pre = seq![spec_alg_tag(a)] + key_id + iv + mid + ct;
    let mac = spec_mac_tag(dek, pre);
    let w = pre + mac;
    let hl = spec_header_len(a);
    assert(pre.len() == hl + plain.len());
    assert(w[0] == spec_alg_tag(a));
    assert(1 <= w[0] <= 4);
    assert((w[0] == 3) == (a is Indexed));
    assert(w.len() >= hl + TAG_LEN + 1);
    assert(w.subrange(0, w.len() - TAG_LEN) =~= pre);
    assert(w.subrange(w.len() - TAG_LEN, w.len() as int) =~= mac);
    assert(w.subrange(1 + KEY_ID_LEN, 1 + KEY_ID_LEN + IV_LEN) =~= iv);
    assert(w.subrange(hl as int, w.len() - TAG_LEN) =~= ct);
    crate::crypto::lemma_xor_stream_involution(dek, iv, plain);
    crate::codec::lemma_value_roundtrip(v);
}

/// Deterministic encryption is a function of the value and the key alone:
/// repeated calls yield byte-identical payloads whatever randomness arrives.
pub proof fn lemma_deterministic_stable(
    v: BsonV,
    dek: Seq<u8>,
    key_id: Seq<u8>,
    iv1: Seq<u8>,
    draw1: u64,
    iv2: Seq<u8>,
    draw2: u64,
)
    ensures
        spec_encrypt(v, dek, key_id, Algorithm::Deterministic, None, iv1, draw1) == spec_encrypt(
            v,
            dek,
            key_id,
            Algorithm::Deterministic,
            None,
            iv2,
            draw2,
        ),
{
}

/// Payloads of the IV-embedding algorithms differ whenever the supplied IVs
/// differ: repeated calls with fresh randomness never repeat a payload.
pub proof fn lemma_distinct_iv_distinct_payload(
    v: BsonV,
    dek: Seq<u8>,
    key_id: Seq<u8>,
    a: Algorithm,
    cf: Option<i64>,
    iv1: Seq<u8>,
    draw1: u64,
    iv2: Seq<u8>,
    draw2: u64,
)
    requires
        dek.len() > 0,
        key_id.len() == KEY_ID_LEN,
        iv1.len() == IV_LEN,
        iv2.len() == IV_LEN,
        iv1 != iv2,
        !(a is Deterministic),
    ensures
        spec_encrypt(v, dek, key_id, a, cf, iv1, draw1) != spec_encrypt(
            v,
            dek,
            key_id,
            a,
            cf,
            iv2,
            draw2,
        ),
{
    let w1 = spec_encrypt(v, dek, key_id, a, cf, iv1, draw1);
    let w2 = spec_encrypt(v, dek, key_id, a, cf, iv2, draw2);
    lemma_auto_spec_u64_to_from_le_bytes();
    assert(w1.subrange(1 + KEY_ID_LEN, 1 + KEY_ID_LEN + IV_LEN) =~= iv1);
    assert(w2.subrange(1 + KEY_ID_LEN, 1 + KEY_ID_LEN + IV_LEN) =~= iv2);
    if w1 == w2 {
        assert(iv1 =~= iv2);
    }
}

/// A draw always lands in one of the `cf + 1` slots, and with a contention
/// factor of zero it always lands in slot zero.
pub proof fn lemma_slot_in_range(draw: u64, cf: i64)
    requires
        cf >= 0,
    ensures
        0 <= spec_slot(draw, cf) <= cf,
        cf == 0 ==> spec_slot(draw, cf) == 0,
{
    vstd::arithmetic::div_mod::lemma_mod_bound(draw as int, (cf + 1) as int);
}

/// Changing the last byte of a payload makes decryption reject it with a
/// validation error: the stored tag no longer matches the recomputed one.
pub proof fn lemma_tampered_payload_rejected(
    v: BsonV,
    dek: Seq<u8>,
    key_id: Seq<u8>,
    a: Algorithm,
    cf: Option<i64>,
    iv_in: Seq<u8>,
    draw: u64,
    b: u8,
)
    requires
        dek.len() > 0,
        key_id.len() == KEY_ID_LEN,
        iv_in.len() == IV_LEN,
        spec_algorithm_accepts(a, v),
        a is Indexed ==> (cf matches Some(c) && c >= 0),
        b != spec_encrypt(v, dek, key_id, a, cf, iv_in, draw).last(),
    ensures
        spec_decrypt(
            spec_encrypt(v, dek, key_id, a, cf, iv_in, draw).update(
                spec_encrypt(v, dek, key_id, a, cf, iv_in, draw).len() - 1,
                b,
            ),
            dek,
        ) == Err::<BsonV, crate::error::CsfleKind>(crate::error::CsfleKind::Validation),
{
    lemma_auto_spec_u64_to_from_le_bytes();
    let plain = spec_value_bytes(v);
    lemma_value_bytes_nonempty(v);
    let iv = spec_iv(a, dek, plain, iv_in);
    let mid = if a is Indexed {
        spec_token(dek, plain, spec_slot(draw, cf.unwrap()))
    } else {
        Seq::<u8>::empty()
    };
    let ct = spec_xor_stream(dek, iv, plain);
    let pre = seq![spec_alg_tag(a)] + key_id + iv + mid + ct;
    let mac = spec_mac_tag(dek, pre);
    let w = pre + mac;
    let n = w.len() as int;
    let hl = spec_header_len(a);
    let t = w.update(n - 1, b);
    assert(t.len() == n);
    assert(t[0] == w[0]);
    assert(w[0] == spec_alg_tag(a));
    assert((t[0] == 3) == (a is Indexed));
    assert(t.len() >= hl + TAG_LEN + 1);
    assert(t.subrange(0, n - TAG_LEN) =~= pre);
    let stored = t.subrange(n - TAG_LEN, n);
    assert(stored[TAG_LEN - 1] == b);
    assert(w.last() == mac[TAG_LEN - 1]);
    assert(stored != spec_mac_tag(dek, pre));
}

/// Number of slot tokens a query payload carries.
pub open spec fn spec_query_token_count(q: Seq<u8>) -> int {
    (q.len() - 25) / 24
}

/// Token `k` of a query payload.
pub open spec fn spec_query_token_at(q: Seq<u8>, k: int) -> Seq<u8> {
    q.subrange(25 + 24 * k, 25 + 24 * k + 24)
}

/// Token of a stored indexed payload.
pub open spec fn spec_stored_token(w: Seq<u8>) -> Seq<u8>
    recommends
        w.len() >= 57,
{
    w.subrange(33, 57)
}

/// True when an equality query payload reaches a stored indexed payload:
/// both name the same data key and the stored slot token is one of the
/// tokens the query fans out over.
pub open spec fn spec_query_matches(stored: Seq<u8>, query: Seq<u8>) -> bool {
    &&& stored.len() >= 74
    &&& stored[0] == 3
    &&& query.len() >= 49
    &&& query[0] == QUERY_PAYLOAD_TAG
    &&& spec_wire_key_id(stored) == spec_wire_key_id(query)
    &&& exists|k: int|
        0 <= k < spec_query_token_count(query) && spec_stored_token(stored)
            == #[trigger] spec_query_token_at(query, k)
}

/// Decides whether an equality query payload reaches a stored payload,
/// exactly as the server-side index would.
pub fn equality_query_matches(stored: &[u8], query: &[u8]) -> (r: bool)
    ensures
        r == spec_query_matches(stored@, query@),
{
    if stored.len() < 74 || stored[0] != 3 {
        return false;
    }
    if query.len() < 49 || query[0] != QUERY_PAYLOAD_TAG {
        return false;
    }
    let sid = copy_range(stored, 1, 1 + KEY_ID_LEN);
    let qid = copy_range(query, 1, 1 + KEY_ID_LEN);
    if !bytes_eq(sid.as_slice(), qid.as_slice()) {
        return false;
    }
    let st = copy_range(stored, 33, 57);
    let n = query.len();
    let count = (n - 25) / 24;
    proof {
        vstd::arithmetic::div_mod::lemma_fundamental_div_mod(query@.len() - 25, 24);
        vstd::arithmetic::div_mod::lemma_mod_bound(query@.len() - 25, 24);
    }
    let mut k: usize = 0;
    while k < count
        invariant
            stored@.len() >= 74,
            stored@[0] == 3,
            query@.len() >= 49,
            query@[0] == QUERY_PAYLOAD_TAG,
            spec_wire_key_id(stored@) == spec_wire_key_id(query@),
            n == query@.len(),
            count == spec_query_token_count(query@),
            24 * count <= query@.len() - 25,
            st@ == spec_stored_token(stored@),
            0 <= k <= count,
            forall|j: int| 0 <= j < k ==> spec_stored_token(stored@) != #[trigger] spec_query_token_at(
                query@,
                j,
            ),
        decreases count - k,
    {
        proof {
            assert(24 * (k as int) + 24 <= 24 * (count as int)) by (nonlinear_arith)
                requires
                    (k as int) < (count as int),
            ;
            assert(25 + 24 * (k as int) + 24 <= query@.len());
        }
        let tok = copy_range(query, 25 + 24 * k, 25 + 24 * k + 24);
        if bytes_eq(st.as_slice(), tok.as_slice()) {
            proof {
                assert(spec_stored_token(stored@) == spec_query_token_at(query@, k as int));
            }
            return true;
        }
        k += 1;
    }
    false
}

/// Length and chunking of the query token run.
pub proof fn lemma_query_tokens_at(dek: Seq<u8>, plain: Seq<u8>, cf: i64, k: int)
    requires
        dek.len() > 0,
        cf >= 0,
        0 <= k <= cf,
    ensures
        spec_query_tokens(dek, plain, cf).len() == 24 * (cf + 1),
        spec_query_tokens(dek, plain, cf).subrange(24 * k, 24 * k + 24) == spec_token(
            dek,
            plain,
            k as u64,
        ),
    decreases cf,
{
    lemma_auto_spec_u64_to_from_le_bytes();
    if cf == 0 {
        assert(spec_query_tokens(dek, plain, cf) == spec_token(dek, plain, 0));
        assert(spec_token(dek, plain, 0).len() == 24);
        assert(spec_query_tokens(dek, plain, cf).subrange(0, 24) =~= spec_token(dek, plain, 0));
    } else {
        let prev = spec_query_tokens(dek, plain, (cf - 1) as i64);
        let t = spec_token(dek, plain, cf as u64);
        assert(t.len() == 24);
        lemma_query_tokens_at(dek, plain, (cf - 1) as i64, if k < cf {
            k
        } else {
            0
        });
        assert(prev.len() == 24 * cf);
        if k < cf {
            assert((prev + t).subrange(24 * k, 24 * k + 24) =~= prev.subrange(24 * k, 24 * k + 24));
            lemma_query_tokens_at(dek, plain, (cf - 1) as i64, k);
        } else {
            assert((prev + t).subrange(24 * k, 24 * k + 24) =~= t);
        }
    }
}

/// Two slot tokens are equal exactly when their slots are equal.
pub proof fn lemma_token_slot_injective(dek: Seq<u8>, plain: Seq<u8>, s1: u64, s2: u64)
    requires
        dek.len() > 0,
    ensures
        (spec_token(dek, plain, s1) == spec_token(dek, plain, s2)) == (s1 == s2),
{
    lemma_auto_spec_u64_to_from_le_bytes();
    if spec_token(dek, plain, s1) == spec_token(dek, plain, s2) {
        assert(spec_token(dek, plain, s1).subrange(0, 8) =~= spec_u64_to_le_bytes(s1));
        assert(spec_token(dek, plain, s2).subrange(0, 8) =~= spec_u64_to_le_bytes(s2));
        assert(spec_u64_to_le_bytes(s1) == spec_u64_to_le_bytes(s2));
        assert(s1 == s2);
    }
}

/// An equality query reaches a stored indexed payload for the same value and
/// key exactly when the stored slot is within the query's fan-out: a query
/// built with the insert's contention factor finds every insert, one built
/// with a smaller factor finds only the slots it covers.
pub proof fn lemma_indexed_query_fanout(
    v: BsonV,
    dek: Seq<u8>,
    key_id: Seq<u8>,
    cf_i: i64,
    draw: u64,
    iv_in: Seq<u8>,
    cf_q: i64,
)
    requires
        dek.len() > 0,
        key_id.len() == KEY_ID_LEN,
        iv_in.len() == IV_LEN,
        cf_i >= 0,
        cf_q >= 0,
        spec_algorithm_accepts(Algorithm::Indexed, v),
    ensures
        ({
            let stored = spec_encrypt(v, dek, key_id, Algorithm::Indexed, Some(cf_i), iv_in, draw);
            let query = spec_query_payload(v, dek, key_id, cf_q);
            spec_query_matches(stored, query) == (spec_slot(draw, cf_i) <= cf_q)
        }),
{
    lemma_auto_spec_u64_to_from_le_bytes();
    let plain = spec_value_bytes(v);
    lemma_value_bytes_nonempty(v);
    let s = spec_slot(draw, cf_i);
    lemma_slot_in_range(draw, cf_i);
    let iv = iv_in;
    let mid = spec_token(dek, plain, s);
    let ct = spec_xor_stream(dek, iv, plain);
    let pre = seq![spec_alg_tag(Algorithm::Indexed)] + key_id + iv + mid + ct;
    let stored = pre + spec_mac_tag(dek, pre);
    let query = spec_query_payload(v, dek, key_id, cf_q);
    let run = spec_query_tokens(dek, plain, cf_q);
    lemma_query_tokens_at(dek, plain, cf_q, 0);
    assert(query.len() == 25 + 24 * (cf_q + 1));
    assert(stored.len() >= 74);
    assert(stored[0] == 3);
    assert(query[0] == QUERY_PAYLOAD_TAG);
    assert(spec_wire_key_id(stored) =~= key_id);
    assert(spec_wire_key_id(query) =~= key_id);
    assert(spec_stored_token(stored) =~= mid);
    assert(spec_query_token_count(query) == cf_q + 1) by {
        vstd::arithmetic::div_mod::lemma_fundamental_div_mod(query.len() - 25, 24);
        assert((24 * (cf_q + 1)) / 24 == cf_q + 1) by {
            vstd::arithmetic::div_mod::lemma_div_multiples_vanish(cf_q + 1, 24);
        }
    }
    assert forall|k: int| 0 <= k <= cf_q implies spec_query_token_at(query, k) == spec_token(
        dek,
        plain,
        k as u64,
    ) by {
        lemma_query_tokens_at(dek, plain, cf_q, k);
        assert(spec_query_token_at(query, k) =~= run.subrange(24 * k, 24 * k + 24));
    }
    if s <= cf_q {
        let k = s as int;
        assert(spec_stored_token(stored) == spec_query_token_at(query, k));
        assert(spec_query_matches(stored, query));
    }
    if spec_query_matches(stored, query) {
        let k = choose|k: int|
            0 <= k < spec_query_token_count(query) && spec_stored_token(stored)
                == #[trigger] spec_query_token_at(query, k);
        assert(spec_token(dek, plain, s) == spec_token(dek, plain, k as u64));
        lemma_token_slot_injective(dek, plain, s, k as u64);
        assert(s == k as u64);
    }
}

/// Reads the data-key id out of a payload.
pub fn wire_key_id(wire: &[u8]) -> (r: Option<Vec<u8>>)
    ensures
        match r {
            Some(id) => wire@.len() >= 1 + KEY_ID_LEN && id@ == spec_wire_key_id(wire@),
            None => wire@.len() < 1 + KEY_ID_LEN,
        },
{
    if wire.len() >= 1 + KEY_ID_LEN {
        Some(copy_range(wire, 1, 1 + KEY_ID_LEN))
    } else {
        None
    }
}

} // verus!
