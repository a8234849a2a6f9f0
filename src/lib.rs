//! Signing keypairs protected at rest: optional password encryption and a
//! prefixed text form for storage in configuration files.

mod envelope;
mod hex_text;
mod keypair;
mod stored;

pub use envelope::{
    argon2i_key, decryption, derived_key, lemma_envelopes_agree, lemma_password_round_trip,
    opened, seals, valid_password, DecryptionError, EncryptedKeypair, ENVELOPE_LEN, KEY_LEN,
    SALT_LEN, SEAL_OVERHEAD,
};
pub use hex_text::{hex_decoding, hex_encoding, is_hex_text};
pub use keypair::{AtomicKeypair, Keypair, HALF_LEN, KEYPAIR_LEN};
pub use stored::{
    encrypts_some_keypair, has_known_prefix, lemma_decline_to_decrypt, lemma_prefix_rejection,
    lemma_raw_round_trip, lemma_text_round_trip, starts_with, stored_text, text_form, unwraps_to,
    DeserializeStoredKeypairError, StoredKeypair, ENCRYPTED_KEY_PREFIX, UNENCRYPTED_KEY_PREFIX,
};
