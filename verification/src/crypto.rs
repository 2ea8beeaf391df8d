//! Cipher model used by the encryptor.
//!
//! The engine delegates real AEAD primitives to an external library; what the
//! contracts need from a cipher is stated here and implemented as a verified
//! keystream cipher with a keyed tag: encryption and decryption are exact
//! inverses, the IV is recoverable from the payload, and a payload is accepted
//! only when its tag matches the one recomputed from the key and the bytes.

use vstd::prelude::*;

verus! {

/// Number of bytes in an initialization vector.
pub const IV_LEN: usize = 16;

/// Number of bytes in an integrity tag.
pub const TAG_LEN: usize = 16;

/// Keystream byte `i` for the given key and IV.
pub open spec fn spec_ks_byte(dek: Seq<u8>, iv: Seq<u8>, i: int) -> u8
    recommends
        dek.len() > 0,
        iv.len() > 0,
        i >= 0,
{
    (dek[i % dek.len() as int] ^ iv[i % iv.len() as int]) ^ ((i % 256) as u8)
}

/// `data` combined with the keystream of `(dek, iv)`; its own inverse.
pub open spec fn spec_xor_stream(dek: Seq<u8>, iv: Seq<u8>, data: Seq<u8>) -> Seq<u8>
    recommends
        dek.len() > 0,
        iv.len() > 0,
{
    Seq::new(data.len(), |i: int| data[i] ^ spec_ks_byte(dek, iv, i))
}

/// One step of the tag accumulator.
pub open spec fn spec_mac_step(acc: u8, b: u8, j: u8) -> u8 {
    (((acc as int) * 31 + (b as int) + (j as int)) % 256) as u8
}

/// Tag accumulator for lane `j` after folding the first `i` bytes of `data`.
pub open spec fn spec_mac_acc(dek: Seq<u8>, data: Seq<u8>, j: u8, i: int) -> u8
    recommends
        dek.len() > 0,
        0 <= i <= data.len(),
    decreases i,
{
    if i <= 0 {
        dek[(j as int) % (dek.len() as int)] ^ j
    } else {
        spec_mac_step(spec_mac_acc(dek, data, j, i - 1), data[i - 1], j)
    }
}

/// Byte `j` of the keyed tag of `data`.
pub open spec fn spec_mac_byte(dek: Seq<u8>, data: Seq<u8>, j: u8) -> u8
    recommends
        dek.len() > 0,
{
    spec_mac_acc(dek, data, j, data.len() as int)
}

/// The keyed tag: [`TAG_LEN`] bytes, a function of the key and the data alone.
pub open spec fn spec_mac_tag(dek: Seq<u8>, data: Seq<u8>) -> Seq<u8>
    recommends
        dek.len() > 0,
{
    Seq::new(TAG_LEN as nat, |j: int| spec_mac_byte(dek, data, j as u8))
}

proof fn lemma_xor_cancel(a: u8, b: u8)
    ensures
        (a ^ b) ^ b == a,
{
    assert((a ^ b) ^ b == a) by (bit_vector);
}

/// The keystream combination undoes itself.
pub proof fn lemma_xor_stream_involution(dek: Seq<u8>, iv: Seq<u8>, data: Seq<u8>)
    requires
        dek.len() > 0,
        iv.len() > 0,
    ensures
        spec_xor_stream(dek, iv, spec_xor_stream(dek, iv, data)) =~= data,
{
    let once = spec_xor_stream(dek, iv, data);
    let twice = spec_xor_stream(dek, iv, once);
    assert forall|i: int| 0 <= i < data.len() implies twice[i] == data[i] by {
        lemma_xor_cancel(data[i], spec_ks_byte(dek, iv, i));
    }
}

/// Keystream byte `i`, computed as the model states it.
pub fn ks_byte(dek: &[u8], iv: &[u8], i: usize) -> (r: u8)
    requires
        dek@.len() > 0,
        iv@.len() > 0,
    ensures
        r == spec_ks_byte(dek@, iv@, i as int),
{
    (dek[i % dek.len()] ^ iv[i % iv.len()]) ^ ((i % 256) as u8)
}

/// Applies the keystream of `(dek, iv)` to `data`.
pub fn xor_stream(dek: &[u8], iv: &[u8], data: &[u8]) -> (r: Vec<u8>)
    requires
        dek@.len() > 0,
        iv@.len() > 0,
    ensures
        r@ =~= spec_xor_stream(dek@, iv@, data@),
{
    let mut out: Vec<u8> = Vec::new();
    let mut i: usize = 0;
    while i < data.len()
        invariant
            dek@.len() > 0,
            iv@.len() > 0,
            0 <= i <= data@.len(),
            out@.len() == i,
            forall|k: int| 0 <= k < i ==> out@[k] == data@[k] ^ spec_ks_byte(dek@, iv@, k),
        decreases data@.len() - i,
    {
        let b = data[i] ^ ks_byte(dek, iv, i);
        out.push(b);
        i += 1;
    }
    out
}

/// The keyed tag of `data`, computed as the model states it.
pub fn mac_tag(dek: &[u8], data: &[u8]) -> (r: Vec<u8>)
    requires
        dek@.len() > 0,
    ensures
        r@ =~= spec_mac_tag(dek@, data@),
{
    let mut out: Vec<u8> = Vec::new();
    let mut j: usize = 0;
    while j < TAG_LEN
        invariant
            dek@.len() > 0,
            0 <= j <= TAG_LEN,
            out@.len() == j,
            forall|t: int| 0 <= t < j ==> out@[t] == spec_mac_byte(dek@, data@, t as u8),
        decreases TAG_LEN - j,
    {
        let jb = j as u8;
        let mut acc: u8 = dek[j % dek.len()] ^ jb;
        proof {
            assert((j as u8) as int == j as int) by {
                assert(j < 16);
            }
            assert(acc == spec_mac_acc(dek@, data@, jb, 0));
        }
        let mut i: usize = 0;
        while i < data.len()
            invariant
                dek@.len() > 0,
                0 <= i <= data@.len(),
                jb == j as u8,
                acc == spec_mac_acc(dek@, data@, jb, i as int),
            decreases data@.len() - i,
        {
            let wide: u32 = (acc as u32) * 31 + (data[i] as u32) + (jb as u32);
            acc = (wide % 256) as u8;
            proof {
                assert(acc == spec_mac_step(spec_mac_acc(dek@, data@, jb, i as int), data@[i as int], jb));
            }
            i += 1;
        }
        out.push(acc);
        j += 1;
    }
    out
}

/// A wrapped data-encryption key: IV, enciphered key bytes, and a tag over
/// both, all under the key-encryption key.
pub open spec fn spec_wrap_dek(kek: Seq<u8>, dek: Seq<u8>) -> Seq<u8>
    recommends
        kek.len() > 0,
{
    let iv = spec_mac_tag(kek, dek);
    let pre = iv + spec_xor_stream(kek, iv, dek);
    pre + spec_mac_tag(kek, pre)
}

/// What unwrapping yields: the key bytes, or nothing when the material is
/// too short or its tag does not match. Total on all byte strings.
pub open spec fn spec_unwrap_dek(kek: Seq<u8>, wrapped: Seq<u8>) -> Option<Seq<u8>>
    recommends
        kek.len() > 0,
{
    if wrapped.len() < IV_LEN + TAG_LEN {
        None
    } else {
        let pre = wrapped.subrange(0, wrapped.len() - TAG_LEN);
        let tag = wrapped.subrange(wrapped.len() - TAG_LEN, wrapped.len() as int);
        if tag != spec_mac_tag(kek, pre) {
            None
        } else {
            let iv = wrapped.subrange(0, IV_LEN as int);
            let ct = wrapped.subrange(IV_LEN as int, wrapped.len() - TAG_LEN);
            Some(spec_xor_stream(kek, iv, ct))
        }
    }
}

/// Unwrapping undoes wrapping.
pub proof fn lemma_unwrap_of_wrap(kek: Seq<u8>, dek: Seq<u8>)
    requires
        kek.len() > 0,
    ensures
        spec_unwrap_dek(kek, spec_wrap_dek(kek, dek)) == Some(dek),
{
    let iv = spec_mac_tag(kek, dek);
    let ct = spec_xor_stream(kek, iv, dek);
    let pre = iv + ct;
    let w = pre + spec_mac_tag(kek, pre);
    assert(w.len() == IV_LEN + dek.len() + TAG_LEN);
    assert(w.subrange(0, w.len() - TAG_LEN) =~= pre);
    assert(w.subrange(w.len() - TAG_LEN, w.len() as int) =~= spec_mac_tag(kek, pre));
    assert(w.subrange(0, IV_LEN as int) =~= iv);
    assert(w.subrange(IV_LEN as int, w.len() - TAG_LEN) =~= ct);
    lemma_xor_stream_involution(kek, iv, dek);
    assert(spec_xor_stream(kek, iv, ct) =~= dek);
}

/// Wraps a data-encryption key under a key-encryption key.
pub fn wrap_dek(kek: &[u8], dek: &[u8]) -> (r: Vec<u8>)
    requires
        kek@.len() > 0,
    ensures
        r@ == spec_wrap_dek(kek@, dek@),
{
    let iv = mac_tag(kek, dek);
    let ct = xor_stream(kek, iv.as_slice(), dek);
    let mut pre: Vec<u8> = Vec::new();
    extend_bytes(&mut pre, iv.as_slice());
    extend_bytes(&mut pre, ct.as_slice());
    let tag = mac_tag(kek, pre.as_slice());
    let ghost pre_view = pre@;
    let mut out = pre;
    extend_bytes(&mut out, tag.as_slice());
    proof {
        assert(pre_view =~= spec_mac_tag(kek@, dek@) + spec_xor_stream(
            kek@,
            spec_mac_tag(kek@, dek@),
            dek@,
        ));
        assert(out@ =~= pre_view + spec_mac_tag(kek@, pre_view));
    }
    out
}

/// Unwraps a data-encryption key; rejects tampered or truncated material.
pub fn unwrap_dek(kek: &[u8], wrapped: &[u8]) -> (r: Option<Vec<u8>>)
    requires
        kek@.len() > 0,
    ensures
        match r {
            Some(dek) => spec_unwrap_dek(kek@, wrapped@) == Some(dek@),
            None => spec_unwrap_dek(kek@, wrapped@) is None,
        },
{
    let n = wrapped.len();
    if n < IV_LEN + TAG_LEN {
        return None;
    }
    let pre = copy_range(wrapped, 0, n - TAG_LEN);
    let tag = copy_range(wrapped, n - TAG_LEN, n);
    let expected = mac_tag(kek, pre.as_slice());
    if !bytes_eq(tag.as_slice(), expected.as_slice()) {
        return None;
    }
    let iv = copy_range(wrapped, 0, IV_LEN);
    let ct = copy_range(wrapped, IV_LEN, n - TAG_LEN);
    Some(xor_stream(kek, iv.as_slice(), ct.as_slice()))
}

/// Compares two byte strings.
pub fn bytes_eq(a: &[u8], b: &[u8]) -> (r: bool)
    ensures
        r == (a@ =~= b@),
{
    if a.len() != b.len() {
        return false;
    }
    let mut i: usize = 0;
    while i < a.len()
        invariant
            a@.len() == b@.len(),
            0 <= i <= a@.len(),
            forall|k: int| 0 <= k < i ==> a@[k] == b@[k],
        decreases a@.len() - i,
    {
        if a[i] != b[i] {
            return false;
        }
        i += 1;
    }
    true
}

/// Appends all of `src` to `dst`.
pub fn extend_bytes(dst: &mut Vec<u8>, src: &[u8])
    ensures
        final(dst)@ =~= old(dst)@ + src@,
{
    let mut i: usize = 0;
    while i < src.len()
        invariant
            0 <= i <= src@.len(),
            dst@ =~= old(dst)@ + src@.subrange(0, i as int),
        decreases src@.len() - i,
    {
        dst.push(src[i]);
        proof {
            assert(old(dst)@ + src@.subrange(0, i as int) + seq![src@[i as int]] =~= old(dst)@
                + src@.subrange(0, i + 1));
        }
        i += 1;
    }
    proof {
        assert(src@.subrange(0, src@.len() as int) =~= src@);
    }
}

/// Copies `src[from..to]` out as a fresh vector.
pub fn copy_range(src: &[u8], from: usize, to: usize) -> (r: Vec<u8>)
    requires
        0 <= from <= to <= src@.len(),
    ensures
        r@ =~= src@.subrange(from as int, to as int),
{
    let mut out: Vec<u8> = Vec::new();
    let mut i: usize = from;
    while i < to
        invariant
            from <= i <= to <= src@.len(),
            out@ =~= src@.subrange(from as int, i as int),
        decreases to - i,
    {
        out.push(src[i]);
        proof {
            assert(src@.subrange(from as int, i as int) + seq![src@[i as int]] =~= src@.subrange(
                from as int,
                i + 1,
            ));
        }
        i += 1;
    }
    out
}

} // verus!
