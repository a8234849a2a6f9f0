//! The signing keypair as a fixed 64-byte value, and a handle that shares one
//! keypair between holders behind a lock.

use std::sync::{Arc, Mutex};
use vstd::prelude::*;

use crate::hex_text::{decode_hex, encode_hex, hex_decoding, hex_encoding, is_hex_text};

verus! {

/// Length of a keypair's canonical binary form.
pub const KEYPAIR_LEN: usize = 64;

/// Length of each half of a keypair: the private seed, then the public key.
pub const HALF_LEN: usize = 32;

/// A signing keypair: 32 private bytes followed by the 32-byte public key.
#[derive(Clone, Copy, Debug)]
pub struct Keypair {
    bytes: [u8; 64],
}

impl View for Keypair {
    type V = Seq<u8>;

    closed spec fn view(&self) -> Seq<u8> {
        self.bytes@
    }
}

/// Relies on `borsh::from_slice` for `[u8; 64]`: it reads the 64 bytes in
/// order and fails when the input holds fewer or more; its error is kept as
/// text.
#[verifier::external_body]
fn deserialize_pair(data: &[u8]) -> (r: Result<[u8; 64], String>)
    ensures
        r is Ok <==> data@.len() == KEYPAIR_LEN,
        r matches Ok(a) ==> a@ == data@,
{
    match borsh::from_slice::<[u8; 64]>(data) {
        Ok(a) => Ok(a),
        Err(e) => Err(e.to_string()),
    }
}

/// Relies on `borsh::to_vec` for `[u8; 64]`: the 64 bytes in order, with no
/// length prefix. Writing into a `Vec` does not fail.
#[verifier::external_body]
fn serialize_pair(a: &[u8; 64]) -> (r: Vec<u8>)
    ensures
        r@ == a@,
{
    borsh::to_vec(a).unwrap()
}

impl Keypair {
    /// A keypair's view is always its 64 bytes.
    pub proof fn lemma_len(&self)
        ensures
            self@.len() == KEYPAIR_LEN,
    {
        broadcast use vstd::array::group_array_axioms;
    }

    /// Reads a keypair from its canonical binary form: exactly 64 bytes.
    pub fn try_from_slice(data: &[u8]) -> (r: Result<Keypair, String>)
        ensures
            r is Ok <==> data@.len() == KEYPAIR_LEN,
            r matches Ok(k) ==> k@ == data@,
    {
        match deserialize_pair(data) {
            Ok(bytes) => Ok(Keypair { bytes }),
            Err(e) => Err(e),
        }
    }

    /// The canonical binary form.
    pub fn to_bytes(&self) -> (r: Vec<u8>)
        ensures
            r@ == self@,
            r@.len() == KEYPAIR_LEN,
    {
        proof { self.lemma_len(); }
        serialize_pair(&self.bytes)
    }

    /// The canonical binary form as lowercase hexadecimal text.
    pub fn to_hex(&self) -> (r: String)
        ensures
            r@ == hex_encoding(self@),
    {
        let b = self.to_bytes();
        encode_hex(b.as_slice())
    }

    /// Reads a keypair from hexadecimal text of its 64 bytes, in either case.
    pub fn from_hex(s: &str) -> (r: Result<Keypair, String>)
        ensures
            r is Ok <==> is_hex_text(s@) && hex_decoding(s@).len() == KEYPAIR_LEN,
            r matches Ok(k) ==> k@ == hex_decoding(s@),
    {
        match decode_hex(s) {
            Ok(v) => Keypair::try_from_slice(v.as_slice()),
            Err(e) => Err(e),
        }
    }

    /// The public half.
    pub fn public(&self) -> (r: Vec<u8>)
        ensures
            r@ == self@.subrange(HALF_LEN as int, KEYPAIR_LEN as int),
    {
        proof { self.lemma_len(); }
        let mut r: Vec<u8> = Vec::with_capacity(HALF_LEN);
        let mut i: usize = HALF_LEN;
        while i < KEYPAIR_LEN
            invariant
                HALF_LEN <= i <= KEYPAIR_LEN,
                self@.len() == KEYPAIR_LEN,
                r@ == self@.subrange(HALF_LEN as int, i as int),
            decreases KEYPAIR_LEN - i,
        {
            r.push(self.bytes[i]);
            i = i + 1;
        }
        r
    }
}

/// `std::sync::Mutex`, held opaque: its value is read and written only
/// through the wrappers below.
#[verifier::external_type_specification]
#[verifier::external_body]
#[verifier::reject_recursive_types(T)]
pub struct ExMutex<T: ?Sized>(Mutex<T>);

/// Relies on `Mutex::new`.
#[verifier::external_body]
fn new_lock(k: Keypair) -> (r: Mutex<Keypair>) {
    Mutex::new(k)
}

/// Relies on `Mutex::lock`: the value as the last writer left it. A lock
/// poisoned by a panicking holder still holds a whole keypair, since every
/// write replaces it in one assignment.
#[verifier::external_body]
fn read_locked(m: &Mutex<Keypair>) -> (r: Keypair) {
    match m.lock() {
        Ok(guard) => *guard,
        Err(poisoned) => *poisoned.into_inner(),
    }
}

/// Relies on `Mutex::lock`: replaces the value while the lock is held.
#[verifier::external_body]
fn write_locked(m: &Mutex<Keypair>, k: Keypair) {
    match m.lock() {
        Ok(mut guard) => *guard = k,
        Err(poisoned) => *poisoned.into_inner() = k,
    }
}

/// Relies on `Arc::clone`: the result points to the same allocation.
#[verifier::external_body]
fn share(a: &Arc<Mutex<Keypair>>) -> (r: Arc<Mutex<Keypair>>)
    ensures
        r == *a,
{
    Arc::clone(a)
}

/// A keypair shared between holders. Clones refer to the same keypair; each
/// access takes the lock for its whole duration, so a reader sees a keypair
/// as some write left it, never a mix of two.
#[derive(Debug)]
pub struct AtomicKeypair(Arc<Mutex<Keypair>>);

impl AtomicKeypair {
    /// A new handle that holds `k` alone.
    pub fn from_keypair(k: Keypair) -> (r: AtomicKeypair) {
        AtomicKeypair(Arc::new(new_lock(k)))
    }

    /// Another handle on the same keypair.
    pub fn share(&self) -> (r: AtomicKeypair)
        ensures
            r == *self,
    {
        AtomicKeypair(share(&self.0))
    }

    /// A copy of the keypair as it stands now.
    pub fn keypair(&self) -> (r: Keypair) {
        read_locked(&self.0)
    }

    /// Replaces the keypair for every holder of the handle.
    pub fn set(&self, k: Keypair) {
        write_locked(&self.0, k)
    }

    /// The public key of the pair as it stands now.
    pub fn public(&self) -> (r: Vec<u8>)
        ensures
            r@.len() == HALF_LEN,
    {
        let k = self.keypair();
        proof { k.lemma_len(); }
        k.public()
    }

    /// The canonical binary form of the keypair as it stands now.
    pub fn to_bytes(&self) -> (r: Vec<u8>)
        ensures
            r@.len() == KEYPAIR_LEN,
    {
        self.keypair().to_bytes()
    }
}

impl From<Keypair> for AtomicKeypair {
    fn from(k: Keypair) -> (r: AtomicKeypair) {
        AtomicKeypair::from_keypair(k)
    }
}

impl vstd::std_specs::convert::FromSpecImpl<Keypair> for AtomicKeypair {
    open spec fn obeys_from_spec() -> bool {
        false
    }

    open spec fn from_spec(k: Keypair) -> AtomicKeypair {
        arbitrary()
    }
}

impl Clone for AtomicKeypair {
    fn clone(&self) -> (r: AtomicKeypair)
        ensures
            r == *self,
    {
        self.share()
    }
}

} // verus!
