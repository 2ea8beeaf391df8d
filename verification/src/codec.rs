//! Byte encoding of leaf values, used as the plaintext inside a ciphertext
//! payload. The encoding is injective and its decoder rejects every byte
//! string that no value encodes to.

use vstd::prelude::*;
use vstd::bytes::*;
use vstd::utf8::*;

use crate::document::{Binary, BinarySubtype, BinaryV, Bson, BsonV};
use crate::crypto::{copy_range, extend_bytes};
use crate::strutil::{utf8_to_string, validate_utf8};

verus! {

/// Wire byte of a binary subtype.
pub open spec fn spec_subtype_byte(st: BinarySubtype) -> u8 {
    match st {
        BinarySubtype::Generic => 0,
        BinarySubtype::Uuid => 4,
        BinarySubtype::Encrypted => 6,
    }
}

/// Binary subtype of a wire byte.
pub open spec fn spec_byte_subtype(b: u8) -> Option<BinarySubtype> {
    if b == 0 {
        Some(BinarySubtype::Generic)
    } else if b == 4 {
        Some(BinarySubtype::Uuid)
    } else if b == 6 {
        Some(BinarySubtype::Encrypted)
    } else {
        None
    }
}

/// The byte encoding of a value: a type byte followed by the value's data.
pub open spec fn spec_value_bytes(v: BsonV) -> Seq<u8> {
    match v {
        BsonV::Int32(x) => seq![1u8] + spec_u32_to_le_bytes(x as u32),
        BsonV::Int64(x) => seq![2u8] + spec_u64_to_le_bytes(x as u64),
        BsonV::Boolean(b) => seq![
            3u8,
            if b {
                1u8
            } else {
                0u8
            },
        ],
        BsonV::String(s) => seq![4u8] + encode_utf8(s),
        BsonV::Binary(b) => seq![5u8, spec_subtype_byte(b.subtype)] + b.bytes,
        BsonV::Null => seq![6u8],
    }
}

/// The value a byte string encodes, or `None` when it encodes no value.
pub open spec fn spec_decode_value(body: Seq<u8>) -> Option<BsonV> {
    if body.len() == 0 {
        None
    } else if body[0] == 1 {
        if body.len() == 5 {
            Some(BsonV::Int32(spec_u32_from_le_bytes(body.skip(1)) as i32))
        } else {
            None
        }
    } else if body[0] == 2 {
        if body.len() == 9 {
            Some(BsonV::Int64(spec_u64_from_le_bytes(body.skip(1)) as i64))
        } else {
            None
        }
    } else if body[0] == 3 {
        if body.len() == 2 && (body[1] == 0 || body[1] == 1) {
            Some(BsonV::Boolean(body[1] == 1))
        } else {
            None
        }
    } else if body[0] == 4 {
        if valid_utf8(body.skip(1)) {
            Some(BsonV::String(decode_utf8(body.skip(1))))
        } else {
            None
        }
    } else if body[0] == 5 {
        if body.len() >= 2 && spec_byte_subtype(body[1]) is Some {
            Some(
                BsonV::Binary(
                    BinaryV { subtype: spec_byte_subtype(body[1]).unwrap(), bytes: body.skip(2) },
                ),
            )
        } else {
            None
        }
    } else if body[0] == 6 {
        if body.len() == 1 {
            Some(BsonV::Null)
        } else {
            None
        }
    } else {
        None
    }
}

/// Decoding undoes encoding: every value comes back from its own bytes.
pub proof fn lemma_value_roundtrip(v: BsonV)
    ensures
        spec_decode_value(spec_value_bytes(v)) == Some(v),
{
    let body = spec_value_bytes(v);
    match v {
        BsonV::Int32(x) => {
            lemma_auto_spec_u32_to_from_le_bytes();
            assert(body.skip(1) =~= spec_u32_to_le_bytes(x as u32));
            assert(((x as u32) as i32) == x) by (bit_vector);
        },
        BsonV::Int64(x) => {
            lemma_auto_spec_u64_to_from_le_bytes();
            assert(body.skip(1) =~= spec_u64_to_le_bytes(x as u64));
            assert(((x as u64) as i64) == x) by (bit_vector);
        },
        BsonV::Boolean(b) => {},
        BsonV::String(s) => {
            assert(body.skip(1) =~= encode_utf8(s));
            encode_utf8_valid_utf8(s);
            encode_utf8_decode_utf8(s);
        },
        BsonV::Binary(b) => {
            assert(body.skip(2) =~= b.bytes);
        },
        BsonV::Null => {},
    }
}

/// Encodes `v` as bytes.
pub fn encode_value(v: &Bson) -> (r: Vec<u8>)
    ensures
        r@ =~= spec_value_bytes(v@),
{
    let mut out: Vec<u8> = Vec::new();
    match v {
        Bson::Int32(x) => {
            out.push(1);
            let b = u32_to_le_bytes(*x as u32);
            extend_bytes(&mut out, b.as_slice());
        },
        Bson::Int64(x) => {
            out.push(2);
            let b = u64_to_le_bytes(*x as u64);
            extend_bytes(&mut out, b.as_slice());
        },
        Bson::Boolean(b) => {
            out.push(3);
            out.push(if *b {
                1
            } else {
                0
            });
        },
        Bson::String(s) => {
            out.push(4);
            extend_bytes(&mut out, s.as_str().as_bytes());
        },
        Bson::Binary(b) => {
            out.push(5);
            out.push(
                match b.subtype {
                    BinarySubtype::Generic => 0,
                    BinarySubtype::Uuid => 4,
                    BinarySubtype::Encrypted => 6,
                },
            );
            extend_bytes(&mut out, b.bytes.as_slice());
        },
        Bson::Null => {
            out.push(6);
        },
    }
    out
}

/// Decodes a byte string back into a value; returns `None` on every byte
/// string that no value encodes to.
pub fn decode_value(body: &[u8]) -> (r: Option<Bson>)
    ensures
        match r {
            Some(v) => spec_decode_value(body@) == Some(v@),
            None => spec_decode_value(body@) is None,
        },
{
    if body.len() == 0 {
        return None;
    }
    let t = body[0];
    if t == 1 {
        if body.len() == 5 {
            let data = copy_range(body, 1, 5);
            let x = u32_from_le_bytes(data.as_slice());
            Some(Bson::Int32(x as i32))
        } else {
            None
        }
    } else if t == 2 {
        if body.len() == 9 {
            let data = copy_range(body, 1, 9);
            let x = u64_from_le_bytes(data.as_slice());
            Some(Bson::Int64(x as i64))
        } else {
            None
        }
    } else if t == 3 {
        if body.len() == 2 && (body[1] == 0 || body[1] == 1) {
            Some(Bson::Boolean(body[1] == 1))
        } else {
            None
        }
    } else if t == 4 {
        let data = copy_range(body, 1, body.len());
        if validate_utf8(data.as_slice()) {
            let s = utf8_to_string(data.as_slice());
            Some(Bson::String(s))
        } else {
            None
        }
    } else if t == 5 {
        if body.len() >= 2 {
            let st = if body[1] == 0 {
                Some(BinarySubtype::Generic)
            } else if body[1] == 4 {
                Some(BinarySubtype::Uuid)
            } else if body[1] == 6 {
                Some(BinarySubtype::Encrypted)
            } else {
                None
            };
            match st {
                Some(subtype) => {
                    let bytes = copy_range(body, 2, body.len());
                    Some(Bson::Binary(Binary { subtype, bytes }))
                },
                None => None,
            }
        } else {
            None
        }
    } else if t == 6 {
        if body.len() == 1 {
            Some(Bson::Null)
        } else {
            None
        }
    } else {
        None
    }
}

} // verus!
