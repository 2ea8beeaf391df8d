//! Client-side field-level encryption engine.
//!
//! The library models the engine's data and decisions as verified code:
//! the single-value encryptor with its four algorithms, the key vault with
//! its alt-name uniqueness rule, data-key management, the auto-encryption
//! pipeline with batch splitting and view protection, and the internal
//! client allocation that avoids pool self-deadlock.

pub mod b64;
pub mod clients;
pub mod codec;
pub mod crypto;
pub mod datakey;
pub mod document;
pub mod encryptor;
pub mod error;
pub mod explicit;
pub mod keyvault;
pub mod pipeline;
pub mod provider;
pub mod readpref;
pub mod strutil;
pub mod trace;

use vstd::prelude::*;

verus! {

/// Number of bytes in a data-key id (a 128-bit UUID).
pub const KEY_ID_LEN: usize = 16;

} // verus!

