//! The functions of other crates, and of the standard library, that the agent
//! computes with. Nothing here is proved: each contract is what the called
//! function's source or documentation shows.

use crate::encoding::base64_text;
use crate::identifier::{uuid_of, uuid_text};
use crate::keychain::utf16_of;
use crate::paths::{begins_with_two_separators, names_file, slash_name, stem_of, windows_name};
use crate::text::{is_ascii_text, lower_ascii, occurs};
use base64::engine::general_purpose::STANDARD;
use base64::Engine;
use chacha20poly1305::aead::{Aead, AeadCore, KeyInit};
use chacha20poly1305::ChaCha20Poly1305;
use rand::RngCore;
use vstd::prelude::*;
use vstd::utf8::{decode_utf8, encode_utf8, valid_utf8};
use x25519_dalek::{PublicKey, StaticSecret};
use zeroize::Zeroize;

verus! {

// ---- X25519 -------------------------------------------------------------

/// The X25519 public key of a 32-byte secret.
pub uninterp spec fn x25519_public(secret: Seq<u8>) -> Seq<u8>;

/// The X25519 shared secret of a 32-byte secret and a 32-byte public key.
pub uninterp spec fn x25519_shared(secret: Seq<u8>, public: Seq<u8>) -> Seq<u8>;

/// `PublicKey::from(&StaticSecret)` of `x25519_dalek`, between byte arrays.
#[verifier::external_body]
pub(crate) fn public_of_secret(secret: &[u8; 32]) -> (r: [u8; 32])
    ensures
        r@ == x25519_public(secret@),
{
    PublicKey::from(&StaticSecret::from(*secret)).to_bytes()
}

/// `StaticSecret::diffie_hellman` of `x25519_dalek`, between byte arrays.
/// Besides naming the result, the contract says what a Diffie-Hellman exchange
/// is for: whoever holds the secret behind `public` computes the same bytes
/// from the public key of `secret`.
#[verifier::external_body]
pub(crate) fn shared_secret(secret: &[u8; 32], public: &[u8; 32]) -> (r: [u8; 32])
    ensures
        r@ == x25519_shared(secret@, public@),
        forall|other: Seq<u8>|
            other.len() == 32 && #[trigger] x25519_public(other) == public@ ==> r@
                == x25519_shared(other, x25519_public(secret@)),
{
    StaticSecret::from(*secret).diffie_hellman(&PublicKey::from(*public)).to_bytes()
}

/// `StaticSecret::random_from_rng` of `x25519_dalek` on the operating system's
/// generator: 32 bytes, of which nothing more is known.
#[verifier::external_body]
pub(crate) fn random_secret() -> (r: [u8; 32]) {
    StaticSecret::random_from_rng(rand::rngs::OsRng).to_bytes()
}

// ---- ChaCha20-Poly1305 --------------------------------------------------

/// The error that `chacha20poly1305` gives on a failed operation.
#[verifier::external_type_specification]
#[verifier::external_body]
pub struct ExAeadError(chacha20poly1305::Error);

/// The longest message, in bytes, that one nonce can encrypt.
pub const MAX_MESSAGE: u64 = 0x3f_ffff_ff80;

/// The length in bytes of the tag that follows the encrypted message.
pub const TAG_LEN: usize = 16;

/// A message encrypted under a 32-byte key and a 12-byte nonce, its tag behind
/// it.
pub uninterp spec fn aead_sealed(key: Seq<u8>, nonce: Seq<u8>, message: Seq<u8>) -> Seq<u8>;

/// The message that `sealed` holds under the key and nonce, if the tag fits.
pub uninterp spec fn aead_opened(key: Seq<u8>, nonce: Seq<u8>, sealed: Seq<u8>) -> Option<Seq<u8>>;

/// `Aead::encrypt` of `ChaCha20Poly1305`, without associated data. It fails on
/// over-long messages alone, adds a tag of 16 bytes, and what it gives
/// decrypts to the message under the same key and nonce.
#[verifier::external_body]
pub(crate) fn seal(key: &[u8; 32], nonce: &[u8; 12], message: &[u8]) -> (r: Result<
    Vec<u8>,
    chacha20poly1305::Error,
>)
    requires
        message@.len() <= MAX_MESSAGE,
    ensures
        r is Ok,
        r->Ok_0@ == aead_sealed(key@, nonce@, message@),
        r->Ok_0@.len() == message@.len() + TAG_LEN,
        aead_opened(key@, nonce@, r->Ok_0@) == Some(message@),
{
    ChaCha20Poly1305::new(key.into()).encrypt(nonce.into(), message)
}

/// `Aead::decrypt` of `ChaCha20Poly1305`, without associated data. A message
/// that it gives is as long as the input without its tag.
#[verifier::external_body]
pub(crate) fn open(key: &[u8; 32], nonce: &[u8; 12], sealed: &[u8]) -> (r: Result<
    Vec<u8>,
    chacha20poly1305::Error,
>)
    requires
        sealed@.len() <= MAX_MESSAGE,
    ensures
        match r {
            Ok(message) => aead_opened(key@, nonce@, sealed@) == Some(message@) && message@.len()
                + TAG_LEN == sealed@.len(),
            Err(_) => aead_opened(key@, nonce@, sealed@) is None,
        },
{
    ChaCha20Poly1305::new(key.into()).decrypt(nonce.into(), sealed)
}

/// `AeadCore::generate_nonce` of `ChaCha20Poly1305` on the operating system's
/// generator: 12 bytes, of which nothing more is known.
#[verifier::external_body]
pub(crate) fn random_nonce() -> (r: [u8; 12]) {
    ChaCha20Poly1305::generate_nonce(&mut chacha20poly1305::aead::OsRng).into()
}

// ---- rand, zeroize ------------------------------------------------------

/// `RngCore::fill_bytes` of `rand` on the operating system's generator: 32
/// bytes, of which nothing more is known.
#[verifier::external_body]
pub(crate) fn random_key() -> (r: [u8; 32]) {
    let mut key = [0u8; 32];
    rand::rngs::OsRng.fill_bytes(&mut key);
    key
}

/// `Zeroize::zeroize` on a byte vector: its memory is overwritten and it is
/// left empty.
#[verifier::external_body]
pub(crate) fn wipe(bytes: &mut Vec<u8>)
    ensures
        final(bytes)@.len() == 0,
{
    bytes.zeroize();
}

/// `Zeroize::zeroize` on a key: every byte becomes zero.
#[verifier::external_body]
pub(crate) fn wipe_key(key: &mut [u8; 32])
    ensures
        forall|i: int| 0 <= i < 32 ==> final(key)@[i] == 0,
    opens_invariants none
    no_unwind
{
    key.zeroize();
}

// ---- base64 -------------------------------------------------------------

/// `Engine::encode` of `base64` with its `STANDARD` engine: the standard
/// alphabet, with padding.
#[verifier::external_body]
pub(crate) fn base64_encode(bytes: &[u8]) -> (r: String)
    requires
        (bytes@.len() + 2) / 3 * 4 <= usize::MAX,
    ensures
        r@ == base64_text(bytes@),
{
    STANDARD.encode(bytes)
}

/// The message of the error that decoding a text gives.
pub uninterp spec fn base64_fault(text: Seq<char>) -> Seq<char>;

/// `Engine::decode` of `base64` with its `STANDARD` engine, its error as a
/// message. The engine demands all padding and allows no bits behind the last
/// byte, so it takes the texts that encoding gives and no others.
#[verifier::external_body]
pub(crate) fn base64_decode(text: &str) -> (r: Result<Vec<u8>, String>)
    ensures
        match r {
            Ok(bytes) => base64_text(bytes@) == text@,
            Err(e) => e@ == base64_fault(text@) && forall|bytes: Seq<u8>| #[trigger]
                base64_text(bytes) != text@,
        },
{
    match STANDARD.decode(text) {
        Ok(bytes) => Ok(bytes),
        Err(e) => Err(e.to_string()),
    }
}

// ---- uuid ---------------------------------------------------------------

/// `Uuid::from_u128` and `Uuid`'s `Display`, from `uuid`: the hyphenated form.
#[verifier::external_body]
pub(crate) fn uuid_to_text(id: u128) -> (r: String)
    ensures
        r@ == uuid_text(id),
{
    uuid::Uuid::from_u128(id).to_string()
}

/// `Uuid::parse_str` of `uuid`: the number of the 32 digits in any of the four
/// forms that it knows.
#[verifier::external_body]
pub(crate) fn uuid_from_text(text: &str) -> (r: Option<u128>)
    ensures
        r == uuid_of(text@),
{
    match uuid::Uuid::parse_str(text) {
        Ok(id) => Some(id.as_u128()),
        Err(_) => None,
    }
}

// ---- urlencoding --------------------------------------------------------

/// The bytes that stand for themselves in a percent-encoded text: the ASCII
/// letters and digits, and `-`, `.`, `_`, `~`.
pub open spec fn is_unreserved(b: u8) -> bool {
    ||| 0x30 <= b <= 0x39
    ||| 0x41 <= b <= 0x5a
    ||| 0x61 <= b <= 0x7a
    ||| b == 0x2d
    ||| b == 0x2e
    ||| b == 0x5f
    ||| b == 0x7e
}

/// The upper-case hexadecimal digit of a number below sixteen.
pub open spec fn upper_hex(n: int) -> char {
    if n < 10 {
        ('0' as int + n) as char
    } else {
        ('A' as int - 10 + n) as char
    }
}

/// One byte, percent-encoded.
pub open spec fn percent_byte(b: u8) -> Seq<char> {
    if is_unreserved(b) {
        seq![b as char]
    } else {
        seq!['%', upper_hex(b as int / 16), upper_hex(b as int % 16)]
    }
}

/// Bytes, percent-encoded one after the other.
pub open spec fn percent_encoded(bytes: Seq<u8>) -> Seq<char>
    decreases bytes.len(),
{
    if bytes.len() == 0 {
        Seq::empty()
    } else {
        percent_byte(bytes.first()) + percent_encoded(bytes.drop_first())
    }
}

/// `urlencoding::encode`: the UTF-8 bytes of the text, percent-encoded.
#[verifier::external_body]
pub(crate) fn url_encode(text: &str) -> (r: String)
    ensures
        r@ == percent_encoded(encode_utf8(text@)),
{
    urlencoding::encode(text).into_owned()
}

// ---- reqwest ------------------------------------------------------------

/// The bytes that an HTTP header value may hold: all but the control
/// characters, of which the tab is allowed.
pub open spec fn is_header_byte(b: u8) -> bool {
    b >= 32 && b != 127 || b == 9
}

/// Whether a text can stand as the value of an HTTP header.
pub open spec fn fits_header(text: Seq<char>) -> bool {
    forall|i: int|
        0 <= i < encode_utf8(text).len() ==> is_header_byte(#[trigger] encode_utf8(text)[i])
}

/// `HeaderValue::from_str`, which `reqwest` has from `http`: whether the text
/// can stand as a header value.
#[verifier::external_body]
pub(crate) fn is_header_value(text: &str) -> (r: bool)
    ensures
        r == fits_header(text@),
{
    reqwest::header::HeaderValue::from_str(text).is_ok()
}

// ---- std ----------------------------------------------------------------

/// The error that `std::str::from_utf8` gives.
#[verifier::external_type_specification]
#[verifier::external_body]
pub struct ExUtf8Error(core::str::Utf8Error);

/// `std::str::from_utf8` succeeds on UTF-8 alone, and keeps the bytes.
pub assume_specification[ core::str::from_utf8 ](v: &[u8]) -> (r: Result<
    &str,
    core::str::Utf8Error,
>)
    ensures
        match r {
            Ok(text) => valid_utf8(v@) && text@ == decode_utf8(v@),
            Err(_) => !valid_utf8(v@),
        },
;

/// Bytes read as UTF-8, with what is not UTF-8 replaced.
pub uninterp spec fn lossy_text(bytes: Seq<u8>) -> Seq<char>;

/// `String::from_utf8_lossy`. On UTF-8 it is the text that the bytes encode.
#[verifier::external_body]
pub(crate) fn utf8_lossy(bytes: &[u8]) -> (r: String)
    ensures
        r@ == lossy_text(bytes@),
        valid_utf8(bytes@) ==> r@ == decode_utf8(bytes@),
{
    String::from_utf8_lossy(bytes).into_owned()
}

/// `Path::file_stem`, of a path that is text: the stem of its last component, or
/// nothing where that is no name. Components are separated by `/`, and on
/// Windows by `\\` too, so of a path that holds both kinds the contract leaves
/// open which of the two last parts the stem is of.
#[verifier::external_body]
pub(crate) fn file_stem(path: &str) -> (r: Option<String>)
    ensures
        r matches Some(stem) ==> occurs(path@, stem@) && (begins_with_two_separators(path@)
            || !stem@.contains('/')),
        names_file(path@) ==> r is Some && (r->0@ == stem_of(slash_name(path@)) || r->0@ == stem_of(
            windows_name(path@),
        )),
        path@.len() == 0 || slash_name(path@) == seq!['.', '.'] && !begins_with_two_separators(
            path@,
        ) ==> r is None,
{
    match std::path::Path::new(path).file_stem() {
        Some(stem) => Some(stem.to_string_lossy().into_owned()),
        None => None,
    }
}

/// UTF-16 code units read as text, with what is not UTF-16 replaced.
pub uninterp spec fn utf16_lossy_text(units: Seq<u16>) -> Seq<char>;

/// `String::from_utf16_lossy`. On the code units of a text it is that text.
#[verifier::external_body]
pub(crate) fn utf16_lossy(units: &[u16]) -> (r: String)
    ensures
        r@ == utf16_lossy_text(units@),
        forall|text: Seq<char>| #[trigger] utf16_of(text) == units@ ==> r@ == text,
{
    String::from_utf16_lossy(units)
}

/// A text in Unicode lower case.
pub uninterp spec fn lowercase_of(text: Seq<char>) -> Seq<char>;

/// `str::to_lowercase`. Of ASCII text it changes the letters `A` to `Z` alone.
pub assume_specification[ str::to_lowercase ](text: &str) -> (r: String)
    ensures
        r@ == lowercase_of(text@),
        is_ascii_text(text@) ==> r@ == lower_ascii(text@),
;

} // verus!
