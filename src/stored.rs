//! A keypair as it is stored: raw or encrypted, with a text form that tells
//! the two apart by a prefix.

use vstd::prelude::*;
use vstd::string::*;

use crate::envelope::{decryption, seals, valid_password, DecryptionError, EncryptedKeypair};
use crate::hex_text::{hex_decoding, hex_encoding, is_hex_text, lemma_encoding_is_hex, lemma_hex_round_trip};
use crate::keypair::{AtomicKeypair, Keypair, KEYPAIR_LEN};

verus! {

/// Prefix of the text of an encrypted keypair.
pub const ENCRYPTED_KEY_PREFIX: &'static str = "encrypted:";

/// Prefix of the text of a raw keypair.
pub const UNENCRYPTED_KEY_PREFIX: &'static str = "unencrypted:";

/// Whether `s` begins with `p`.
pub open spec fn starts_with(s: Seq<char>, p: Seq<char>) -> bool {
    p.len() <= s.len() && s.subrange(0, p.len() as int) == p
}

/// Whether `s` begins with one of the two prefixes.
pub open spec fn has_known_prefix(s: Seq<char>) -> bool {
    starts_with(s, UNENCRYPTED_KEY_PREFIX@) || starts_with(s, ENCRYPTED_KEY_PREFIX@)
}

/// The text of a stored keypair: the prefix of its kind, then the hexadecimal
/// text of its bytes (the keypair, or the envelope).
pub open spec fn stored_text(encrypted: bool, bytes: Seq<u8>) -> Seq<char> {
    if encrypted {
        ENCRYPTED_KEY_PREFIX@ + hex_encoding(bytes)
    } else {
        UNENCRYPTED_KEY_PREFIX@ + hex_encoding(bytes)
    }
}

/// What a text holds, if it is the text of a stored keypair: whether it is
/// encrypted, and its bytes. The raw prefix is tried first.
pub open spec fn text_form(s: Seq<char>) -> Option<(bool, Seq<u8>)> {
    if starts_with(s, UNENCRYPTED_KEY_PREFIX@) {
        let rest = s.skip(UNENCRYPTED_KEY_PREFIX@.len() as int);
        if is_hex_text(rest) && hex_decoding(rest).len() == KEYPAIR_LEN {
            Some((false, hex_decoding(rest)))
        } else {
            None
        }
    } else if starts_with(s, ENCRYPTED_KEY_PREFIX@) {
        let rest = s.skip(ENCRYPTED_KEY_PREFIX@.len() as int);
        if is_hex_text(rest) {
            Some((true, hex_decoding(rest)))
        } else {
            None
        }
    } else {
        None
    }
}

/// Why a text is not that of a stored keypair.
#[derive(Debug, PartialEq, Eq)]
pub enum DeserializeStoredKeypairError {
    /// A prefix is there but what follows does not parse; says why.
    InvalidStoredKeypairString(String),
    /// Neither prefix is there.
    MissingPrefix,
}

/// Whether `s` begins with `p`, compared character by character.
fn starts_with_text(s: &str, p: &str) -> (r: bool)
    ensures
        r == starts_with(s@, p@),
{
    let n = p.unicode_len();
    let m = s.unicode_len();
    if n > m {
        return false;
    }
    let mut i: usize = 0;
    while i < n
        invariant
            n == p@.len(),
            n <= m == s@.len(),
            i <= n,
            s@.subrange(0, i as int) == p@.subrange(0, i as int),
        decreases n - i,
    {
        if s.get_char(i) != p.get_char(i) {
            assert(s@.subrange(0, n as int)[i as int] != p@[i as int]);
            return false;
        }
        i = i + 1;
        assert(s@.subrange(0, i as int) =~= p@.subrange(0, i as int));
    }
    assert(p@.subrange(0, n as int) =~= p@);
    true
}

/// Whether `s` is an encrypted keypair that holds some keypair for `password`.
pub open spec fn encrypts_some_keypair(s: StoredKeypair, password: Seq<char>) -> bool {
    match s {
        StoredKeypair::Encrypted(e) => exists|k: Seq<u8>|
            k.len() == KEYPAIR_LEN && #[trigger] seals(e@, k, password),
        StoredKeypair::Raw(_) => false,
    }
}

/// What reading a stored keypair may give: a raw keypair its own handle; an
/// encrypted one `NotDecrypting` unless `decrypt` is set, and otherwise what
/// decryption with `password` gives.
pub open spec fn unwraps_to(
    s: StoredKeypair,
    decrypt: bool,
    password: Seq<char>,
    r: Result<AtomicKeypair, DecryptionError>,
) -> bool {
    match s {
        StoredKeypair::Raw(h) => r == Ok::<AtomicKeypair, DecryptionError>(h),
        StoredKeypair::Encrypted(e) => if !decrypt {
            r == Err::<AtomicKeypair, DecryptionError>(DecryptionError::NotDecrypting)
        } else {
            match r {
                Ok(_) => decryption(e@, password) is Ok,
                Err(x) => decryption(e@, password) == Err::<Seq<u8>, DecryptionError>(x),
            }
        },
    }
}

/// A keypair kept in a wallet.
#[derive(Debug)]
pub enum StoredKeypair {
    /// An encrypted keypair.
    Encrypted(EncryptedKeypair),
    /// A raw keypair, shared with whoever holds the handle.
    Raw(AtomicKeypair),
}

impl StoredKeypair {
    /// Prepares a keypair for storage: encrypted under `password` if one is
    /// given, raw otherwise. Hands back the handle, which stays usable.
    pub fn new(keypair: AtomicKeypair, password: Option<String>) -> (r: (StoredKeypair, AtomicKeypair))
        requires
            password matches Some(p) ==> valid_password(p@),
        ensures
            r.1 == keypair,
            password is None ==> r.0 == StoredKeypair::Raw(keypair),
            password matches Some(p) ==> encrypts_some_keypair(r.0, p@),
    {
        match password {
            Some(password) => {
                let k = keypair.keypair();
                proof { k.lemma_len(); }
                let encrypted = EncryptedKeypair::new(&k, password.as_str());
                let r = StoredKeypair::Encrypted(encrypted);
                assert(k@.len() == KEYPAIR_LEN && seals(encrypted@, k@, password@));
                assert(r matches StoredKeypair::Encrypted(e) && e@ == encrypted@);
                assert(seals(r->Encrypted_0@, k@, password@));
                (r, keypair)
            },
            None => (StoredKeypair::Raw(keypair.clone()), keypair),
        }
    }

    /// Whether reading the keypair with this `decrypt` asks for a password.
    pub fn needs_password(&self, decrypt: bool) -> (r: bool)
        ensures
            r == (decrypt && self is Encrypted),
    {
        decrypt && self.is_encrypted()
    }

    /// The keypair behind a handle. A raw keypair gives its own handle; an
    /// encrypted one is decrypted with `password` only when `decrypt` is set.
    pub fn get(&self, decrypt: bool, password: &str) -> (r: Result<AtomicKeypair, DecryptionError>)
        requires
            (decrypt && self is Encrypted) ==> valid_password(password@),
        ensures
            unwraps_to(*self, decrypt, password@, r),
    {
        match self {
            StoredKeypair::Encrypted(encrypted) => {
                if decrypt {
                    match encrypted.decrypt(password) {
                        Ok(k) => Ok(AtomicKeypair::from_keypair(k)),
                        Err(e) => Err(e),
                    }
                } else {
                    Err(DecryptionError::NotDecrypting)
                }
            },
            StoredKeypair::Raw(keypair) => Ok(keypair.clone()),
        }
    }

    /// Whether the keypair is stored encrypted.
    pub fn is_encrypted(&self) -> (r: bool)
        ensures
            r == (self is Encrypted),
    {
        match self {
            StoredKeypair::Encrypted(_) => true,
            StoredKeypair::Raw(_) => false,
        }
    }

    /// The text form. A raw keypair is written as it stands when this is
    /// called.
    pub fn encode(&self) -> (r: String)
        ensures
            self matches StoredKeypair::Encrypted(e) ==> r@ == stored_text(true, e@),
            self is Raw ==> exists|k: Seq<u8>| k.len() == KEYPAIR_LEN && r@ == #[trigger] stored_text(false, k),
    {
        match self {
            StoredKeypair::Encrypted(encrypted) => {
                let mut r = String::from_str(ENCRYPTED_KEY_PREFIX);
                let hex = encrypted.to_hex();
                r.append(hex.as_str());
                r
            },
            StoredKeypair::Raw(raw) => {
                let k = raw.keypair();
                proof { k.lemma_len(); }
                let mut r = String::from_str(UNENCRYPTED_KEY_PREFIX);
                let hex = k.to_hex();
                r.append(hex.as_str());
                assert(r@ == stored_text(false, k@));
                r
            },
        }
    }

    /// Reads the text form. A raw keypair comes behind a new handle.
    pub fn decode(s: &str) -> (r: Result<StoredKeypair, DeserializeStoredKeypairError>)
        ensures
            r is Ok <==> text_form(s@) is Some,
            r matches Ok(StoredKeypair::Encrypted(e)) ==> text_form(s@) == Some((true, e@)),
            r matches Ok(StoredKeypair::Raw(_)) ==> text_form(s@) matches Some((false, _)),
            r matches Err(DeserializeStoredKeypairError::MissingPrefix) <==> !has_known_prefix(s@),
    {
        if starts_with_text(s, UNENCRYPTED_KEY_PREFIX) {
            let rest = s.substring_char(UNENCRYPTED_KEY_PREFIX.unicode_len(), s.unicode_len());
            assert(rest@ == s@.skip(UNENCRYPTED_KEY_PREFIX@.len() as int));
            match Keypair::from_hex(rest) {
                Ok(k) => Ok(StoredKeypair::Raw(AtomicKeypair::from_keypair(k))),
                Err(e) => Err(DeserializeStoredKeypairError::InvalidStoredKeypairString(e)),
            }
        } else if starts_with_text(s, ENCRYPTED_KEY_PREFIX) {
            let rest = s.substring_char(ENCRYPTED_KEY_PREFIX.unicode_len(), s.unicode_len());
            assert(rest@ == s@.skip(ENCRYPTED_KEY_PREFIX@.len() as int));
            match EncryptedKeypair::from_hex(rest) {
                Ok(e) => Ok(StoredKeypair::Encrypted(e)),
                Err(e) => Err(DeserializeStoredKeypairError::InvalidStoredKeypairString(e)),
            }
        } else {
            Err(DeserializeStoredKeypairError::MissingPrefix)
        }
    }
}

/// A keypair stored without a password reads back as the very handle that
/// was stored, whether or not decryption is asked for.
pub proof fn lemma_raw_round_trip(
    h: AtomicKeypair,
    decrypt: bool,
    password: Seq<char>,
    r: Result<AtomicKeypair, DecryptionError>,
)
    requires
        unwraps_to(StoredKeypair::Raw(h), decrypt, password, r),
    ensures
        r == Ok::<AtomicKeypair, DecryptionError>(h),
{
}

/// Reading an encrypted keypair without asking to decrypt always fails with
/// `NotDecrypting`, whatever the password.
pub proof fn lemma_decline_to_decrypt(
    e: EncryptedKeypair,
    password: Seq<char>,
    r: Result<AtomicKeypair, DecryptionError>,
)
    requires
        unwraps_to(StoredKeypair::Encrypted(e), false, password, r),
    ensures
        r == Err::<AtomicKeypair, DecryptionError>(DecryptionError::NotDecrypting),
{
}

/// Reading back the text of a stored keypair gives the same kind and the same
/// bytes.
pub proof fn lemma_text_round_trip(encrypted: bool, bytes: Seq<u8>)
    requires
        !encrypted ==> bytes.len() == KEYPAIR_LEN,
    ensures
        text_form(stored_text(encrypted, bytes)) == Some((encrypted, bytes)),
{
    reveal_strlit("encrypted:");
    reveal_strlit("unencrypted:");
    let h = hex_encoding(bytes);
    lemma_encoding_is_hex(bytes);
    lemma_hex_round_trip(bytes);
    let t = stored_text(encrypted, bytes);
    if encrypted {
        assert(t.subrange(0, 10) =~= ENCRYPTED_KEY_PREFIX@);
        assert(t.skip(10) =~= h);
        assert(t[0] == 'e');
        assert(UNENCRYPTED_KEY_PREFIX@[0] == 'u');
        if starts_with(t, UNENCRYPTED_KEY_PREFIX@) {
            assert(t.subrange(0, 12)[0] == t[0]);
        }
    } else {
        assert(t.subrange(0, 12) =~= UNENCRYPTED_KEY_PREFIX@);
        assert(t.skip(12) =~= h);
    }
}

/// Text without either prefix never reads as a stored keypair.
pub proof fn lemma_prefix_rejection(s: Seq<char>)
    requires
        !has_known_prefix(s),
    ensures
        text_form(s) is None,
{
}

} // verus!
