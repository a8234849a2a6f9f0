//! The encrypted envelope: a fresh salt followed by the authenticated
//! encryption of a keypair under a key derived from a password and that salt.

use orion::{aead, kdf};
use vstd::prelude::*;

use crate::hex_text::{decode_hex, encode_hex, hex_decoding, hex_encoding, is_hex_text};
use crate::keypair::{Keypair, KEYPAIR_LEN};

verus! {

/// Length of the key-derivation salt, the default of the derivation function.
pub const SALT_LEN: usize = 16;

/// Length of the derived symmetric key.
pub const KEY_LEN: usize = 32;

/// Bytes that sealing adds to the plaintext: a 24-byte nonce and a 16-byte tag.
pub const SEAL_OVERHEAD: usize = 40;

/// Passes of the key-derivation function.
pub const KDF_ITERATIONS: u32 = 3;

/// Memory of the key-derivation function, in KiB.
pub const KDF_MEMORY: u32 = 65536;

/// Length of an envelope that holds one keypair.
pub const ENVELOPE_LEN: usize = 120;

/// A password the derivation function accepts: not empty, and no longer in
/// bytes than a `u32` counts.
pub open spec fn valid_password(p: Seq<char>) -> bool {
    0 < p.len() <= 0x3fff_ffff
}

/// The key that Argon2i derives from a password and a salt, with the given
/// passes, memory in KiB and output length.
pub uninterp spec fn argon2i_key(
    salt: Seq<u8>,
    password: Seq<char>,
    iterations: u32,
    memory: u32,
    length: u32,
) -> Seq<u8>;

/// The key that encrypts a keypair: Argon2i with this library's cost.
pub open spec fn derived_key(salt: Seq<u8>, password: Seq<char>) -> Seq<u8> {
    argon2i_key(salt, password, KDF_ITERATIONS, KDF_MEMORY, KEY_LEN as u32)
}

/// What authenticated decryption of `sealed` under `key` gives: the plaintext,
/// or nothing when the tag does not match or the input is too short.
pub uninterp spec fn opened(key: Seq<u8>, sealed: Seq<u8>) -> Option<Seq<u8>>;

/// Relies on `orion::kdf::Salt::default`: a fresh random salt of its default
/// length.
#[verifier::external_body]
fn new_salt() -> (r: Vec<u8>)
    ensures
        r@.len() == SALT_LEN,
{
    kdf::Salt::default().as_ref().to_vec()
}

/// Relies on `orion::kdf::derive_key` (Argon2i): a key of `length` bytes. It
/// fails only on a salt shorter than 8 bytes, fewer than 3 passes, less than
/// 8 KiB, a length under 4, or a password that `Password::from_slice` refuses
/// (empty), all of which `requires` leaves out.
#[verifier::external_body]
fn derive_key(salt: &[u8], password: &str, iterations: u32, memory: u32, length: u32) -> (r: Vec<u8>)
    requires
        8 <= salt@.len() <= 0xffff_ffff,
        valid_password(password@),
        iterations >= 3,
        memory >= 8,
        length >= 4,
    ensures
        r@ == argon2i_key(salt@, password@, iterations, memory, length),
        r@.len() == length,
{
    let salt = kdf::Salt::from_slice(salt).unwrap();
    let password = kdf::Password::from_slice(password.as_bytes()).unwrap();
    let key = kdf::derive_key(&password, &salt, iterations, memory, length).unwrap();
    key.unprotected_as_bytes().to_vec()
}

/// Relies on `orion::aead::seal` (XChaCha20-Poly1305 with a random nonce): the
/// output is the nonce, the ciphertext and the tag, and `aead::open` under the
/// same key gives the plaintext back. It fails only on an empty plaintext.
#[verifier::external_body]
fn seal(key: &[u8], plaintext: &[u8]) -> (r: Vec<u8>)
    requires
        key@.len() == KEY_LEN,
        plaintext@.len() > 0,
        plaintext@.len() + SEAL_OVERHEAD <= usize::MAX,
    ensures
        r@.len() == plaintext@.len() + SEAL_OVERHEAD,
        opened(key@, r@) == Some(plaintext@),
{
    let key = aead::SecretKey::from_slice(key).unwrap();
    aead::seal(&key, plaintext).unwrap()
}

/// Relies on `orion::aead::open`: the plaintext when the tag checks out under
/// the key, an error otherwise.
#[verifier::external_body]
fn open(key: &[u8], sealed: &[u8]) -> (r: Option<Vec<u8>>)
    requires
        key@.len() == KEY_LEN,
    ensures
        r matches Some(p) ==> opened(key@, sealed@) == Some(p@),
        r is None ==> opened(key@, sealed@) is None,
{
    let key = aead::SecretKey::from_slice(key).unwrap();
    aead::open(&key, sealed).ok()
}

/// Why an encrypted keypair could not be had.
#[derive(Clone, Copy, Debug, PartialEq, Eq)]
pub enum DecryptionError {
    /// The envelope is too short to hold a salt.
    BadSalt,
    /// Authenticated decryption failed: a wrong password or corrupted data.
    DecryptionError,
    /// Decryption succeeded but did not give a keypair.
    DeserializingError,
    /// The caller asked not to decrypt.
    NotDecrypting,
}

/// An envelope that holds `keypair` for `password`: a salt, then a sealed
/// keypair that opens under the key derived from that salt and the password.
pub open spec fn seals(envelope: Seq<u8>, keypair: Seq<u8>, password: Seq<char>) -> bool {
    &&& envelope.len() == ENVELOPE_LEN
    &&& opened(
        derived_key(envelope.subrange(0, SALT_LEN as int), password),
        envelope.subrange(SALT_LEN as int, envelope.len() as int),
    ) == Some(keypair)
}

/// What decrypting `envelope` with `password` gives: the keypair bytes, or
/// the first error met.
pub open spec fn decryption(envelope: Seq<u8>, password: Seq<char>) -> Result<Seq<u8>, DecryptionError> {
    if envelope.len() < SALT_LEN {
        Err(DecryptionError::BadSalt)
    } else {
        match opened(
            derived_key(envelope.subrange(0, SALT_LEN as int), password),
            envelope.subrange(SALT_LEN as int, envelope.len() as int),
        ) {
            None => Err(DecryptionError::DecryptionError),
            Some(p) => if p.len() == KEYPAIR_LEN {
                Ok(p)
            } else {
                Err(DecryptionError::DeserializingError)
            },
        }
    }
}

/// An encrypted keypair: the salt followed by the sealed keypair bytes.
#[derive(Debug)]
pub struct EncryptedKeypair(Vec<u8>);

impl View for EncryptedKeypair {
    type V = Seq<u8>;

    closed spec fn view(&self) -> Seq<u8> {
        self.0@
    }
}

impl EncryptedKeypair {
    /// Encrypts a keypair under `password` with a fresh salt.
    pub fn new(keypair: &Keypair, password: &str) -> (r: EncryptedKeypair)
        requires
            valid_password(password@),
        ensures
            seals(r@, keypair@, password@),
    {
        let salt = new_salt();
        let key = derive_key(salt.as_slice(), password, KDF_ITERATIONS, KDF_MEMORY, KEY_LEN as u32);
        let data = keypair.to_bytes();
        let sealed = seal(key.as_slice(), data.as_slice());
        let mut envelope = salt;
        let mut i: usize = 0;
        while i < sealed.len()
            invariant
                0 <= i <= sealed@.len(),
                sealed@.len() == ENVELOPE_LEN - SALT_LEN,
                envelope@.len() == SALT_LEN + i,
                envelope@.subrange(0, SALT_LEN as int) == salt@,
                envelope@.subrange(SALT_LEN as int, envelope@.len() as int) == sealed@.subrange(0, i as int),
            decreases sealed@.len() - i,
        {
            envelope.push(sealed[i]);
            i = i + 1;
            assert(envelope@.subrange(SALT_LEN as int, envelope@.len() as int) =~= sealed@.subrange(0, i as int));
            assert(envelope@.subrange(0, SALT_LEN as int) =~= salt@);
        }
        assert(sealed@.subrange(0, sealed@.len() as int) =~= sealed@);
        EncryptedKeypair(envelope)
    }

    /// Wraps envelope bytes as they were stored.
    pub fn from_bytes(bytes: Vec<u8>) -> (r: EncryptedKeypair)
        ensures
            r@ == bytes@,
    {
        EncryptedKeypair(bytes)
    }

    /// The envelope bytes.
    pub fn as_bytes(&self) -> (r: &[u8])
        ensures
            r@ == self@,
    {
        self.0.as_slice()
    }

    /// The envelope as lowercase hexadecimal text.
    pub fn to_hex(&self) -> (r: String)
        ensures
            r@ == hex_encoding(self@),
    {
        encode_hex(self.0.as_slice())
    }

    /// Reads an envelope from hexadecimal text of either case.
    pub fn from_hex(s: &str) -> (r: Result<EncryptedKeypair, String>)
        ensures
            r is Ok <==> is_hex_text(s@),
            r matches Ok(e) ==> e@ == hex_decoding(s@),
    {
        match decode_hex(s) {
            Ok(v) => Ok(EncryptedKeypair(v)),
            Err(e) => Err(e),
        }
    }

    /// Decrypts the keypair with `password`.
    pub fn decrypt(&self, password: &str) -> (r: Result<Keypair, DecryptionError>)
        requires
            valid_password(password@),
        ensures
            match r {
                Ok(k) => decryption(self@, password@) == Ok::<Seq<u8>, DecryptionError>(k@),
                Err(e) => decryption(self@, password@) == Err::<Seq<u8>, DecryptionError>(e),
            },
    {
        if self.0.len() < SALT_LEN {
            return Err(DecryptionError::BadSalt);
        }
        let (salt, sealed) = self.0.as_slice().split_at(SALT_LEN);
        let key = derive_key(salt, password, KDF_ITERATIONS, KDF_MEMORY, KEY_LEN as u32);
        match open(key.as_slice(), sealed) {
            None => Err(DecryptionError::DecryptionError),
            Some(data) => match Keypair::try_from_slice(data.as_slice()) {
                Ok(k) => Ok(k),
                Err(_) => Err(DecryptionError::DeserializingError),
            },
        }
    }
}

/// An envelope made for a keypair and a password decrypts with that password
/// to the keypair.
pub proof fn lemma_password_round_trip(envelope: Seq<u8>, keypair: Seq<u8>, password: Seq<char>)
    requires
        seals(envelope, keypair, password),
        keypair.len() == KEYPAIR_LEN,
    ensures
        decryption(envelope, password) == Ok::<Seq<u8>, DecryptionError>(keypair),
{
}

/// Two envelopes made for one keypair and one password, whatever salts they
/// drew, decrypt to the same keypair.
pub proof fn lemma_envelopes_agree(first: Seq<u8>, second: Seq<u8>, keypair: Seq<u8>, password: Seq<char>)
    requires
        seals(first, keypair, password),
        seals(second, keypair, password),
        keypair.len() == KEYPAIR_LEN,
    ensures
        decryption(first, password) == decryption(second, password),
        decryption(first, password) == Ok::<Seq<u8>, DecryptionError>(keypair),
{
    lemma_password_round_trip(first, keypair, password);
    lemma_password_round_trip(second, keypair, password);
}

} // verus!
