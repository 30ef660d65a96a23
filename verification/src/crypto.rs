//! Keys: the hardware identity key (HIK) of a device, an X25519 pair, and the
//! personal network key (PNK) of a user, which devices hand each other
//! encrypted.

use crate::encoding::{
    base64_bytes, base64_bytes_have_their_text, base64_text, base64_text_is_read_back,
    base64_text_is_unambiguous,
};
use crate::keychain::{LoadError, PNK_ACCOUNT};
use crate::outside::{
    aead_opened, aead_sealed, base64_decode, base64_encode, base64_fault, open, public_of_secret,
    random_key, random_nonce, random_secret, seal, shared_secret, wipe, wipe_key,
    x25519_public, x25519_shared,
};
use crate::text::{decimal, decimal_of, join2};
use vstd::prelude::*;

verus! {

/// The account under which the secret half of the HIK is stored.
pub const HIK_ACCOUNT: &'static str = "hardware_identity_key";

/// The account under which the version of the HIK is stored.
pub const HIK_VERSION_ACCOUNT: &'static str = "hardware_identity_version";

/// The length in bytes of every key.
pub const KEY_LEN: usize = 32;

/// The length in bytes of a nonce.
pub const NONCE_LEN: usize = 12;

/// The length in bytes of a wrapped PNK: nonce, key and tag.
pub const WRAPPED_LEN: usize = 60;

/// What can go wrong with keys.
#[derive(Debug)]
pub enum CryptoError {
    /// The secure storage failed; its message.
    Keychain(String),
    /// A stored key has the wrong form; what is wrong.
    KeyFormat(String),
    EncryptionFailed,
    DecryptionFailed,
}

impl CryptoError {
    /// The text that `message` gives.
    pub open spec fn message_text(&self) -> Seq<char> {
        match self {
            CryptoError::Keychain(m) => "Keychain error: "@ + m@,
            CryptoError::KeyFormat(m) => "Key format error: "@ + m@,
            CryptoError::EncryptionFailed => "Encryption failed"@,
            CryptoError::DecryptionFailed => "Decryption failed"@,
        }
    }

    /// The error in words.
    pub fn message(&self) -> (r: String)
        ensures
            r@ == self.message_text(),
            match self {
                CryptoError::Keychain(m) => r@ == "Keychain error: "@ + m@,
                CryptoError::KeyFormat(m) => r@ == "Key format error: "@ + m@,
                CryptoError::EncryptionFailed => r@ == "Encryption failed"@,
                CryptoError::DecryptionFailed => r@ == "Decryption failed"@,
            },
    {
        match self {
            CryptoError::Keychain(m) => join2("Keychain error: ", m),
            CryptoError::KeyFormat(m) => join2("Key format error: ", m),
            CryptoError::EncryptionFailed => "Encryption failed".to_owned(),
            CryptoError::DecryptionFailed => "Decryption failed".to_owned(),
        }
    }
}

/// A failure of the secure storage, from its message.
impl From<String> for CryptoError {
    fn from(message: String) -> (r: Self) {
        CryptoError::Keychain(message)
    }
}

impl vstd::std_specs::convert::FromSpecImpl<String> for CryptoError {
    open spec fn obeys_from_spec() -> bool {
        true
    }

    open spec fn from_spec(message: String) -> CryptoError {
        CryptoError::Keychain(message)
    }
}

/// An X25519 public key.
#[derive(Clone, Copy, Debug)]
pub struct PublicKey {
    pub bytes: [u8; 32],
}

/// An X25519 secret key, erased from memory when dropped.
pub struct StaticSecret {
    pub bytes: [u8; 32],
}

impl Drop for StaticSecret {
    fn drop(&mut self)
        opens_invariants none
        no_unwind
    {
        wipe_key(&mut self.bytes);
    }
}

impl Clone for StaticSecret {
    fn clone(&self) -> (r: Self)
        ensures
            r == *self,
    {
        StaticSecret { bytes: self.bytes }
    }
}

/// The array that holds the same 32 bytes.
pub(crate) fn key_array(bytes: &[u8]) -> (r: [u8; 32])
    requires
        bytes@.len() == KEY_LEN,
    ensures
        r@ == bytes@,
{
    let mut out: [u8; 32] = [0; 32];
    let mut i: usize = 0;
    while i < KEY_LEN
        invariant
            i <= KEY_LEN,
            bytes@.len() == KEY_LEN,
            forall|k: int| 0 <= k < i ==> out@[k] == bytes@[k],
        decreases KEY_LEN - i,
    {
        out[i] = bytes[i];
        i += 1;
    }
    assert(out@ =~= bytes@);
    out
}

/// The array that holds the same 12 bytes.
fn nonce_array(bytes: &[u8]) -> (r: [u8; 12])
    requires
        bytes@.len() == NONCE_LEN,
    ensures
        r@ == bytes@,
{
    let mut out: [u8; 12] = [0; 12];
    let mut i: usize = 0;
    while i < NONCE_LEN
        invariant
            i <= NONCE_LEN,
            bytes@.len() == NONCE_LEN,
            forall|k: int| 0 <= k < i ==> out@[k] == bytes@[k],
        decreases NONCE_LEN - i,
    {
        out[i] = bytes[i];
        i += 1;
    }
    assert(out@ =~= bytes@);
    out
}

// ---- Personal network key -----------------------------------------------

/// A user's personal network key: 32 bytes for ChaCha20-Poly1305, erased from
/// memory when dropped.
pub struct PersonalNetworkKey(pub [u8; 32]);

impl Drop for PersonalNetworkKey {
    fn drop(&mut self)
        opens_invariants none
        no_unwind
    {
        wipe_key(&mut self.0);
    }
}

/// A key wrapped under a shared secret: the nonce, then the key encrypted with
/// it.
pub open spec fn wrapped_key(key: Seq<u8>, shared: Seq<u8>, nonce: Seq<u8>) -> Seq<u8> {
    nonce + aead_sealed(shared, nonce, key)
}

/// The key that a wrapped key holds under a shared secret, if it holds one.
/// Only 60 bytes can: 12 of nonce, 32 of key and 16 of tag.
pub open spec fn unwrapped_key(wrapped: Seq<u8>, shared: Seq<u8>) -> Option<Seq<u8>> {
    if wrapped.len() == WRAPPED_LEN {
        aead_opened(
            shared,
            wrapped.take(NONCE_LEN as int),
            wrapped.skip(NONCE_LEN as int),
        )
    } else {
        None
    }
}

/// Whether the holder of the secret behind `target` gets `key` out of `wrapped`
/// when told the public key of `sender`.
pub open spec fn reaches(wrapped: Seq<u8>, target: Seq<u8>, sender: Seq<u8>, key: Seq<u8>) -> bool {
    forall|recipient: Seq<u8>|
        recipient.len() == KEY_LEN && #[trigger] x25519_public(recipient) == target
            ==> unwrapped_key(wrapped, x25519_shared(recipient, x25519_public(sender))) == Some(key)
}

impl PersonalNetworkKey {
    /// A fresh random key.
    pub fn new_random() -> (r: Self)
        ensures
            r.0@.len() == KEY_LEN,
    {
        PersonalNetworkKey(random_key())
    }

    /// The key encrypted to `target_public` by the holder of `sender_secret`,
    /// under the given nonce.
    pub fn wrap_with_nonce(
        &self,
        target_public: &PublicKey,
        sender_secret: &StaticSecret,
        nonce: [u8; 12],
    ) -> (r: Result<Vec<u8>, CryptoError>)
        ensures
            r is Ok,
            r->Ok_0@ == wrapped_key(
                self.0@,
                x25519_shared(sender_secret.bytes@, target_public.bytes@),
                nonce@,
            ),
            r->Ok_0@.len() == WRAPPED_LEN,
            r->Ok_0@.take(12) == nonce@,
            r->Ok_0@.skip(12) == aead_sealed(
                x25519_shared(sender_secret.bytes@, target_public.bytes@),
                nonce@,
                self.0@,
            ),
            unwrapped_key(r->Ok_0@, x25519_shared(sender_secret.bytes@, target_public.bytes@))
                == Some(self.0@),
            reaches(r->Ok_0@, target_public.bytes@, sender_secret.bytes@, self.0@),
    {
        let shared = shared_secret(&sender_secret.bytes, &target_public.bytes);
        match seal(&shared, &nonce, self.0.as_slice()) {
            Ok(mut ciphertext) => {
                let ghost sealed = ciphertext@;
                let mut result: Vec<u8> = Vec::new();
                result.extend_from_slice(nonce.as_slice());
                assert(result@ =~= nonce@);
                result.append(&mut ciphertext);
                assert(result@ == nonce@ + sealed);
                assert(result@.take(NONCE_LEN as int) =~= nonce@);
                assert(result@.skip(NONCE_LEN as int) =~= sealed);
                Ok(result)
            },
            Err(_) => Err(CryptoError::EncryptionFailed),
        }
    }

    /// The key encrypted to `target_public` by the holder of `sender_secret`,
    /// under a fresh random nonce.
    pub fn wrap(&self, target_public: &PublicKey, sender_secret: &StaticSecret) -> (r: Result<
        Vec<u8>,
        CryptoError,
    >)
        ensures
            r is Ok,
            exists|nonce: Seq<u8>|
                nonce.len() == NONCE_LEN && r->Ok_0@ == #[trigger] wrapped_key(
                    self.0@,
                    x25519_shared(sender_secret.bytes@, target_public.bytes@),
                    nonce,
                ),
            r->Ok_0@.len() == WRAPPED_LEN,
            r->Ok_0@.skip(12) == aead_sealed(
                x25519_shared(sender_secret.bytes@, target_public.bytes@),
                r->Ok_0@.take(12),
                self.0@,
            ),
            unwrapped_key(r->Ok_0@, x25519_shared(sender_secret.bytes@, target_public.bytes@))
                == Some(self.0@),
            reaches(r->Ok_0@, target_public.bytes@, sender_secret.bytes@, self.0@),
    {
        let nonce = random_nonce();
        self.wrap_with_nonce(target_public, sender_secret, nonce)
    }

    /// The key that `sender_public`'s holder wrapped for the holder of
    /// `recipient_secret`.
    pub fn unwrap(
        wrapped: &[u8],
        sender_public: &PublicKey,
        recipient_secret: &StaticSecret,
    ) -> (r: Result<Self, CryptoError>)
        ensures
            match r {
                Ok(key) => unwrapped_key(
                    wrapped@,
                    x25519_shared(recipient_secret.bytes@, sender_public.bytes@),
                ) == Some(key.0@),
                Err(e) => e is DecryptionFailed && unwrapped_key(
                    wrapped@,
                    x25519_shared(recipient_secret.bytes@, sender_public.bytes@),
                ) is None,
            },
            r is Ok <==> wrapped@.len() == 60 && aead_opened(
                x25519_shared(recipient_secret.bytes@, sender_public.bytes@),
                wrapped@.take(12),
                wrapped@.skip(12),
            ) is Some,
            r matches Ok(key) ==> aead_opened(
                x25519_shared(recipient_secret.bytes@, sender_public.bytes@),
                wrapped@.take(12),
                wrapped@.skip(12),
            ) == Some(key.0@),
    {
        if wrapped.len() != WRAPPED_LEN {
            return Err(CryptoError::DecryptionFailed);
        }
        let shared = shared_secret(&recipient_secret.bytes, &sender_public.bytes);
        let (head, ciphertext) = wrapped.split_at(NONCE_LEN);
        let nonce = nonce_array(head);
        match open(&shared, &nonce, ciphertext) {
            Ok(plaintext) => Ok(PersonalNetworkKey(key_array(plaintext.as_slice()))),
            Err(_) => Err(CryptoError::DecryptionFailed),
        }
    }

    /// The key in base64.
    pub fn as_base64(&self) -> (r: String)
        ensures
            r@ == base64_text(self.0@),
            base64_bytes(r@) == Some(self.0@),
    {
        proof {
            base64_text_is_read_back(self.0@);
        }
        base64_encode(self.0.as_slice())
    }
}

// ---- Hardware identity --------------------------------------------------

/// An X25519 pair, whose halves belong together.
pub struct KeyPair {
    secret: StaticSecret,
    public: PublicKey,
}

impl KeyPair {
    /// The halves belong together.
    #[verifier::type_invariant]
    pub open spec fn halves_fit(self) -> bool {
        self.public_half().bytes@ == x25519_public(self.secret_key().bytes@)
    }

    /// The secret half.
    pub closed spec fn secret_key(&self) -> StaticSecret {
        self.secret
    }

    /// The public half.
    pub closed spec fn public_half(&self) -> PublicKey {
        self.public
    }

    /// The pair of a secret.
    pub fn of_secret(secret: StaticSecret) -> (r: Self)
        ensures
            r.secret_key() == secret,
            r.public_half().bytes@ == x25519_public(secret.bytes@),
    {
        let public = PublicKey { bytes: public_of_secret(&secret.bytes) };
        KeyPair { secret, public }
    }
}

impl Clone for KeyPair {
    fn clone(&self) -> (r: Self)
        ensures
            r == *self,
    {
        proof {
            use_type_invariant(self);
        }
        KeyPair { secret: self.secret.clone(), public: self.public }
    }
}

/// A device's hardware identity: an X25519 pair and its version.
pub struct HardwareIdentity {
    pub pair: KeyPair,
    pub version: u32,
}

impl HardwareIdentity {
    /// The secret half.
    pub open spec fn secret_key(&self) -> StaticSecret {
        self.pair.secret_key()
    }

    /// The secret half, as bytes.
    pub open spec fn secret_bytes(&self) -> Seq<u8> {
        self.pair.secret_key().bytes@
    }

    /// The public half, as bytes.
    pub open spec fn public_bytes(&self) -> Seq<u8> {
        self.pair.public_half().bytes@
    }

    /// The two halves belong together. Every pair outside of proofs has that.
    pub open spec fn wf(&self) -> bool {
        self.pair.halves_fit()
    }

    /// The identity that has the given secret and version.
    fn of_secret(secret: StaticSecret, version: u32) -> (r: Self)
        ensures
            r.wf(),
            r.secret_bytes() == secret.bytes@,
            r.version == version,
    {
        HardwareIdentity { pair: KeyPair::of_secret(secret), version }
    }

    /// The public half in base64, the form in which devices publish it.
    pub fn export_public_hik(&self) -> (r: String)
        ensures
            r@ == base64_text(self.public_bytes()),
            base64_bytes(r@) == Some(self.public_bytes()),
    {
        proof {
            base64_text_is_read_back(self.public_bytes());
        }
        base64_encode(self.pair.public.bytes.as_slice())
    }

    /// The public half.
    pub fn public_key(&self) -> (r: &PublicKey)
        ensures
            *r == self.pair.public_half(),
    {
        &self.pair.public
    }

    /// The secret half.
    pub fn secret(&self) -> (r: &StaticSecret)
        ensures
            *r == self.secret_key(),
    {
        &self.pair.secret
    }
}

impl Clone for HardwareIdentity {
    fn clone(&self) -> (r: Self)
        ensures
            r == *self,
    {
        HardwareIdentity { pair: self.pair.clone(), version: self.version }
    }
}

/// The four bytes in which a version is stored, the lowest first.
pub open spec fn version_bytes(version: u32) -> Seq<u8> {
    seq![
        (version % 256) as u8,
        (version / 0x100 % 256) as u8,
        (version / 0x1_0000 % 256) as u8,
        (version / 0x100_0000 % 256) as u8,
    ]
}

/// The version that stored bytes hold, zero where they are too few.
pub open spec fn version_in(bytes: Seq<u8>) -> int {
    if bytes.len() >= 4 {
        bytes[0] + 0x100 * bytes[1] + 0x1_0000 * bytes[2] + 0x100_0000 * bytes[3]
    } else {
        0
    }
}

/// The version that a read of the stored version gives, zero where it failed.
pub open spec fn loaded_version(stored: Result<Vec<u8>, LoadError>) -> int {
    match stored {
        Ok(bytes) => version_in(bytes@),
        Err(_) => 0,
    }
}

/// The version after `version`; the highest has none and stays.
pub open spec fn next_version(version: u32) -> u32 {
    if version == u32::MAX {
        version
    } else {
        (version + 1) as u32
    }
}

/// What to do after the stored secret was asked for.
pub enum IdentityPlan {
    /// It is there: read what is stored under `HIK_VERSION_ACCOUNT`, and give
    /// the outcome to `StoredSecret::finish`.
    LoadVersion(StoredSecret),
    /// There is none: save this new identity.
    Save(UnsavedIdentity),
}

/// A secret that was read from storage, its version still to come.
pub struct StoredSecret {
    secret: StaticSecret,
}

impl StoredSecret {
    /// The secret, as bytes.
    pub closed spec fn secret_bytes(&self) -> Seq<u8> {
        self.secret.bytes@
    }

    /// The identity, from what a read of its version gave.
    pub fn finish(self, stored_version: Result<Vec<u8>, LoadError>) -> (r: HardwareIdentity)
        ensures
            r.wf(),
            r.secret_bytes() == self.secret_bytes(),
            r.version == loaded_version(stored_version),
            match stored_version {
                Ok(b) => r.version == version_in(b@),
                Err(_) => r.version == 0,
            },
    {
        let version = HardwareIdentity::load_version(stored_version);
        HardwareIdentity::of_secret(self.secret, version)
    }
}

/// A new identity of which nothing is stored yet. Its `secret_to_store` goes
/// under `HIK_ACCOUNT`, and the outcome to `secret_stored`.
pub struct UnsavedIdentity {
    identity: HardwareIdentity,
}

impl UnsavedIdentity {
    /// The identity to be.
    pub closed spec fn identity(&self) -> HardwareIdentity {
        self.identity
    }

    /// The bytes to store under `HIK_ACCOUNT`.
    pub fn secret_to_store(&self) -> (r: Vec<u8>)
        ensures
            r@ == self.identity().secret_bytes(),
    {
        let mut out: Vec<u8> = Vec::new();
        out.extend_from_slice(self.identity.secret().bytes.as_slice());
        assert(out@ =~= self.identity.secret_bytes());
        out
    }

    /// Goes on, or fails, as storing the secret did.
    pub fn secret_stored(self, stored: Result<(), String>) -> (r: Result<UnsavedVersion, CryptoError>)
        ensures
            match stored {
                Ok(_) => r is Ok && r->Ok_0.identity() == self.identity(),
                Err(e) => r == Err::<UnsavedVersion, CryptoError>(CryptoError::Keychain(e)),
            },
    {
        match stored {
            Ok(_) => Ok(UnsavedVersion { identity: self.identity }),
            Err(e) => Err(CryptoError::from(e)),
        }
    }
}

/// A new identity of which the secret is stored. Its `version_to_store` goes
/// under `HIK_VERSION_ACCOUNT`, and the outcome to `version_stored`.
pub struct UnsavedVersion {
    identity: HardwareIdentity,
}

impl UnsavedVersion {
    /// The identity to be.
    pub closed spec fn identity(&self) -> HardwareIdentity {
        self.identity
    }

    /// The bytes to store under `HIK_VERSION_ACCOUNT`.
    pub fn version_to_store(&self) -> (r: Vec<u8>)
        ensures
            r@ == version_bytes(self.identity().version),
            version_in(r@) == self.identity().version,
    {
        HardwareIdentity::store_version(self.identity.version)
    }

    /// The identity, or the failure of storing its version.
    pub fn version_stored(self, stored: Result<(), String>) -> (r: Result<
        HardwareIdentity,
        CryptoError,
    >)
        ensures
            match stored {
                Ok(_) => r == Ok::<HardwareIdentity, CryptoError>(self.identity()),
                Err(e) => r == Err::<HardwareIdentity, CryptoError>(CryptoError::Keychain(e)),
            },
    {
        match stored {
            Ok(_) => Ok(self.identity),
            Err(e) => Err(CryptoError::from(e)),
        }
    }
}

impl HardwareIdentity {
    /// What to do after reading what is stored under `HIK_ACCOUNT`: load the
    /// rest of the stored identity, or make a new one of version zero where none
    /// is stored. Where the read failed, nothing is made, so that a stored
    /// identity is never replaced because it could not be read.
    pub fn load_or_generate(stored: Result<Vec<u8>, LoadError>) -> (r: Result<
        IdentityPlan,
        CryptoError,
    >)
        ensures
            match stored {
                Ok(bytes) => if bytes@.len() == KEY_LEN {
                    &&& r matches Ok(IdentityPlan::LoadVersion(found))
                    &&& found.secret_bytes() == bytes@
                } else {
                    &&& r matches Err(CryptoError::KeyFormat(m))
                    &&& m@ == "Invalid HIK length in keychain"@
                },
                Err(LoadError::NotFound(_)) => {
                    &&& r matches Ok(IdentityPlan::Save(new))
                    &&& new.identity().wf()
                    &&& new.identity().version == 0
                },
                Err(LoadError::Failed(e)) => r == Err::<IdentityPlan, CryptoError>(
                    CryptoError::Keychain(e),
                ),
            },
    {
        match stored {
            Ok(bytes) => {
                if bytes.len() != KEY_LEN {
                    return Err(CryptoError::KeyFormat("Invalid HIK length in keychain".to_owned()));
                }
                let secret = StaticSecret { bytes: key_array(bytes.as_slice()) };
                let mut tmp = bytes;
                wipe(&mut tmp);
                Ok(IdentityPlan::LoadVersion(StoredSecret { secret }))
            },
            Err(LoadError::NotFound(_)) => Ok(IdentityPlan::Save(Self::generate_and_store(0))),
            Err(LoadError::Failed(e)) => Err(CryptoError::from(e)),
        }
    }

    /// The identity of the given secret and version, to be saved.
    pub fn generated(secret: [u8; 32], version: u32) -> (r: UnsavedIdentity)
        ensures
            r.identity().wf(),
            r.identity().secret_bytes() == secret@,
            r.identity().version == version,
    {
        UnsavedIdentity { identity: Self::of_secret(StaticSecret { bytes: secret }, version) }
    }

    /// A new identity with a random secret, to be saved.
    pub fn generate_and_store(version: u32) -> (r: UnsavedIdentity)
        ensures
            r.identity().wf(),
            r.identity().version == version,
    {
        Self::generated(random_secret(), version)
    }

    /// The version, from what a read of the stored one gave: zero where it
    /// failed or gave too few bytes.
    pub fn load_version(stored: Result<Vec<u8>, LoadError>) -> (r: u32)
        ensures
            r == loaded_version(stored),
            match stored {
                Ok(b) => if b@.len() >= 4 {
                    r == b@[0] + 256 * (b@[1] + 256 * (b@[2] + 256 * b@[3]))
                } else {
                    r == 0
                },
                Err(_) => r == 0,
            },
    {
        match stored {
            Ok(b) => {
                if b.len() < 4 {
                    0
                } else {
                    b[0] as u32 + 0x100 * (b[1] as u32) + 0x1_0000 * (b[2] as u32) + 0x100_0000 * (
                    b[3] as u32)
                }
            },
            Err(_) => 0,
        }
    }

    /// The bytes to store for a version.
    pub fn store_version(v: u32) -> (r: Vec<u8>)
        ensures
            r@ == version_bytes(v),
            r@.len() == 4,
            v == r@[0] + 256 * (r@[1] + 256 * (r@[2] + 256 * r@[3])),
    {
        let mut out: Vec<u8> = Vec::new();
        out.push((v % 256) as u8);
        out.push((v / 0x100 % 256) as u8);
        out.push((v / 0x1_0000 % 256) as u8);
        out.push((v / 0x100_0000 % 256) as u8);
        assert(out@ =~= version_bytes(v));
        out
    }

    /// The identity to follow this one, to be saved.
    pub fn begin_rotation(&self) -> (r: UnsavedIdentity)
        ensures
            r.identity().wf(),
            r.identity().version == next_version(self.version),
            r.identity().version == if self.version < u32::MAX {
                self.version + 1
            } else {
                u32::MAX as int
            },
    {
        Self::generate_and_store(self.version.saturating_add(1))
    }

    /// Takes on the identity that was begun by `begin_rotation`, once it is
    /// saved, and gives the public key that it replaces. Where saving failed
    /// nothing changes.
    pub fn rotate(&mut self, saved: Result<HardwareIdentity, CryptoError>) -> (r: Result<
        PublicKey,
        CryptoError,
    >)
        ensures
            match saved {
                Ok(new) => {
                    &&& r is Ok
                    &&& r->Ok_0.bytes@ == old(self).public_bytes()
                    &&& *final(self) == new
                },
                Err(e) => r == Err::<PublicKey, CryptoError>(e) && *final(self) == *old(self),
            },
    {
        match saved {
            Ok(new_identity) => {
                let old_public = *self.public_key();
                *self = new_identity;
                Ok(old_public)
            },
            Err(e) => Err(e),
        }
    }
}

// ---- Published identities -----------------------------------------------

/// Why a published public key cannot be used.
#[derive(Debug)]
pub enum HikError {
    /// It is not base64; the decoder's message.
    Encoding(String),
    /// It is not 32 bytes long; its length.
    Length(usize),
}

impl HikError {
    /// The text that `message` gives.
    pub open spec fn message_text(&self) -> Seq<char> {
        match self {
            HikError::Encoding(m) => m@,
            HikError::Length(n) => "invalid HIK length: "@ + decimal_of(*n as nat),
        }
    }

    /// The error in words.
    pub fn message(&self) -> (r: String)
        ensures
            r@ == self.message_text(),
            match self {
                HikError::Encoding(m) => r@ == m@,
                HikError::Length(n) => r@ == "invalid HIK length: "@ + decimal_of(*n as nat),
            },
    {
        match self {
            HikError::Encoding(m) => m.clone(),
            HikError::Length(n) => join2("invalid HIK length: ", &decimal(*n as u64)),
        }
    }
}

/// The public key that a text publishes, if it publishes one.
pub open spec fn published_key(text: Seq<char>) -> Option<Seq<u8>> {
    match base64_bytes(text) {
        Some(bytes) => if bytes.len() == KEY_LEN {
            Some(bytes)
        } else {
            None
        },
        None => None,
    }
}

/// The public key of the given bytes, if they are of its length.
pub fn public_key_of(bytes: &[u8]) -> (r: Result<PublicKey, HikError>)
    ensures
        match r {
            Ok(key) => key.bytes@ == bytes@,
            Err(e) => bytes@.len() != KEY_LEN && e == HikError::Length(bytes@.len() as usize),
        },
{
    if bytes.len() != KEY_LEN {
        return Err(HikError::Length(bytes.len()));
    }
    Ok(PublicKey { bytes: key_array(bytes) })
}

/// The public key that a device published as `b64`.
pub fn parse_public_hik(b64: &str) -> (r: Result<PublicKey, HikError>)
    ensures
        match r {
            Ok(key) => {
                &&& published_key(b64@) == Some(key.bytes@)
                &&& base64_text(key.bytes@) == b64@
            },
            Err(HikError::Encoding(m)) => base64_bytes(b64@) is None && m@ == base64_fault(b64@),
            Err(HikError::Length(n)) => {
                &&& base64_bytes(b64@) is Some
                &&& base64_bytes(b64@)->0.len() == n
                &&& n != KEY_LEN
            },
        },
        r is Ok <==> exists|key: Seq<u8>| key.len() == 32 && #[trigger] base64_text(key) == b64@,
{
    match base64_decode(b64) {
        Ok(bytes) => {
            let r = public_key_of(bytes.as_slice());
            proof {
                base64_bytes_have_their_text(b64@, bytes@);
                if let Ok(key) = r {
                    assert(key.bytes@.len() == 32);
                    assert(published_key(b64@) == Some(key.bytes@));
                }
                if exists|key: Seq<u8>| key.len() == 32 && #[trigger] base64_text(key) == b64@ {
                    let key = choose|key: Seq<u8>|
                        key.len() == 32 && #[trigger] base64_text(key) == b64@;
                    base64_text_is_unambiguous(key, bytes@);
                }
            }
            r
        },
        Err(e) => Err(HikError::Encoding(e)),
    }
}

// ---- Laws ---------------------------------------------------------------

/// A text publishes a public key exactly when it is the base64 text of the
/// key's 32 bytes. So what a device exports is parsed as its public key, and
/// what is parsed is exported as the same text.
pub proof fn published_key_has_its_text(text: Seq<char>, key: Seq<u8>)
    ensures
        published_key(text) == Some(key) <==> key.len() == KEY_LEN && base64_text(key) == text,
{
    base64_bytes_have_their_text(text, key);
}

/// A wrapped key is opened exactly when its 48 bytes behind the 12 of the nonce
/// decrypt with it, and then gives what they decrypt to.
pub proof fn wrapped_key_opens_as_it_decrypts(wrapped: Seq<u8>, shared: Seq<u8>)
    ensures
        wrapped.len() == 60 ==> unwrapped_key(wrapped, shared) == aead_opened(
            shared,
            wrapped.take(12),
            wrapped.skip(12),
        ),
        wrapped.len() != 60 ==> unwrapped_key(wrapped, shared) is None,
{
}

/// The three accounts of the agent are three, so that no secret is stored over
/// another.
pub proof fn accounts_differ()
    ensures
        HIK_ACCOUNT@ == "hardware_identity_key"@,
        HIK_VERSION_ACCOUNT@ == "hardware_identity_version"@,
        HIK_ACCOUNT@ != HIK_VERSION_ACCOUNT@,
        HIK_ACCOUNT@ != PNK_ACCOUNT@,
        HIK_VERSION_ACCOUNT@ != PNK_ACCOUNT@,
{
    reveal_strlit("hardware_identity_key");
    reveal_strlit("hardware_identity_version");
    reveal_strlit("pnk");
    assert(HIK_ACCOUNT@.len() == 21);
    assert(HIK_VERSION_ACCOUNT@.len() == 25);
    assert(PNK_ACCOUNT@.len() == 3);
}

/// A stored version is read back as it was.
pub proof fn stored_version_is_read_back(version: u32)
    ensures
        version_bytes(version).len() == 4,
        version_in(version_bytes(version)) == version,
{
}

/// A rotation never lowers the version, and raises it unless it is the highest.
pub proof fn rotation_raises_version(version: u32)
    ensures
        next_version(version) >= version,
        version < u32::MAX ==> next_version(version) == version + 1,
{
}

} // verus!
