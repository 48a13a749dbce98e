//! Selectable encryption of file contents.
//!
//! - `none`              : no encryption
//! - `aes256gcm`         : AES-256-GCM
//! - `chacha20poly1305`  : ChaCha20-Poly1305
//!
//! Keys are derived from a password with Argon2id and a salt per backup set.
//! A sealed message is `[nonce (12 bytes)] ++ [ciphertext ++ tag]`; files are
//! stored as a sequence of such messages, one per chunk (see `stream`), or,
//! in sets written by earlier versions, as one message for the whole file.
use vstd::prelude::*;

use aes_gcm::aead::generic_array::GenericArray;
use aes_gcm::aead::{Aead, Payload};
use aes_gcm::KeyInit;
use rand::RngCore;

use crate::error::BackupError;
use vstd::slice::slice_subrange;
use vstd::utf8::encode_utf8;
use crate::text::{
    all_ascii, ascii_lower, ascii_lowercase, chars_of, is_all_ascii, is_white, lowercased, str_eq,
    string_of, to_lowercase, trim_chars, trim_end_spec, trim_spec, trim_start_spec,
};

verus! {

/// The encryption applied to file contents.
#[derive(Clone, Copy, PartialEq, Eq, Structural, Debug)]
pub enum Cipher {
    /// No encryption (named `none`).
    Plain,
    Aes256Gcm,
    ChaCha20Poly1305,
}

/// The cipher that a normalized (trimmed, lower-cased) name selects.
pub open spec fn cipher_of_name(t: Seq<char>) -> Option<Cipher> {
    if t == ""@ || t == "none"@ {
        Some(Cipher::Plain)
    } else if t == "aes"@ || t == "aes256gcm"@ || t == "aes-256-gcm"@ {
        Some(Cipher::Aes256Gcm)
    } else if t == "chacha"@ || t == "chacha20"@ || t == "chacha20poly1305"@ {
        Some(Cipher::ChaCha20Poly1305)
    } else {
        None
    }
}

/// The normalized form of a cipher name: trimmed, then lower-cased. ASCII text
/// is lower-cased letter by letter; other text by the Unicode rules.
pub open spec fn normalized_name(s: Seq<char>) -> Seq<char> {
    let t = trim_spec(s);
    if all_ascii(t) {
        t.map_values(|c: char| ascii_lower(c))
    } else {
        lowercased(t)
    }
}

/// The canonical name of a cipher.
pub open spec fn cipher_name(c: Cipher) -> Seq<char> {
    match c {
        Cipher::Plain => "none"@,
        Cipher::Aes256Gcm => "aes256gcm"@,
        Cipher::ChaCha20Poly1305 => "chacha20poly1305"@,
    }
}

impl Cipher {
    /// Parses a cipher name; surrounding white space and letter case are ignored.
    pub fn parse(s: &str) -> (r: Result<Cipher, BackupError>)
        ensures
            match cipher_of_name(normalized_name(s@)) {
                Some(c) => r == Ok::<Cipher, BackupError>(c),
                None => r matches Err(BackupError::UnknownCipher(t)) && t@ == normalized_name(s@),
            },
    {
        let chars = chars_of(s);
        let t = trim_chars(chars.as_slice());
        let lower: String = if is_all_ascii(t.as_slice()) {
            string_of(ascii_lowercase(t.as_slice()).as_slice())
        } else {
            to_lowercase(string_of(t.as_slice()).as_str())
        };
        let l = lower.as_str();
        if str_eq(l, "") || str_eq(l, "none") {
            Ok(Cipher::Plain)
        } else if str_eq(l, "aes") || str_eq(l, "aes256gcm") || str_eq(l, "aes-256-gcm") {
            Ok(Cipher::Aes256Gcm)
        } else if str_eq(l, "chacha") || str_eq(l, "chacha20") || str_eq(l, "chacha20poly1305") {
            Ok(Cipher::ChaCha20Poly1305)
        } else {
            Err(BackupError::UnknownCipher(lower))
        }
    }

    /// The canonical name of the cipher, as stored in a manifest.
    pub fn name(&self) -> (r: &'static str)
        ensures
            r@ == cipher_name(*self),
    {
        match self {
            Cipher::Plain => "none",
            Cipher::Aes256Gcm => "aes256gcm",
            Cipher::ChaCha20Poly1305 => "chacha20poly1305",
        }
    }
}

/// Parsing the canonical name of a cipher gives back that cipher.
pub proof fn lemma_parse_name_roundtrip(c: Cipher)
    ensures
        cipher_of_name(normalized_name(cipher_name(c))) == Some(c),
{
    reveal_strlit("none");
    reveal_strlit("aes256gcm");
    reveal_strlit("chacha20poly1305");
    reveal_strlit("");
    reveal_strlit("aes");
    reveal_strlit("aes-256-gcm");
    reveal_strlit("chacha");
    reveal_strlit("chacha20");
    let n = cipher_name(c);
    assert(!is_white(n[0]));
    assert(n.len() > 0);
    assert(trim_start_spec(n) == n);
    assert(!is_white(n.last()));
    assert(trim_end_spec(n) == n);
    assert(all_ascii(n));
    assert(n.map_values(|c: char| ascii_lower(c)) =~= n);
}

} // verus!

verus! {

/// Argon2id memory cost in KiB (19 MiB).
pub const DEFAULT_M_COST: u32 = 19_456;
/// Argon2id number of passes.
pub const DEFAULT_T_COST: u32 = 2;
/// Argon2id degree of parallelism.
pub const DEFAULT_P_COST: u32 = 1;

/// Largest parallelism that Argon2 accepts.
pub const ARGON2_MAX_P_COST: u32 = 0xFF_FFFF;
/// Largest plaintext, in bytes, that AES-256-GCM encrypts.
pub const AES_GCM_P_MAX: u64 = 0x10_0000_0000;
/// Largest ciphertext body (without tag), in bytes, that AES-256-GCM decrypts.
pub const AES_GCM_C_MAX: u64 = 0x10_0000_0010;
/// The longest associated data AES-256-GCM accepts (2^36 bytes).
pub const AES_GCM_A_MAX: u64 = 0x10_0000_0000;
/// ChaCha20-Poly1305 refuses a message of this many 64-byte blocks or more.
pub const CHACHA_MAX_BLOCKS: u64 = 0xFFFF_FFFF;
/// Longest message, in bytes, whose ChaCha20 keystream fits after the block
/// that keys Poly1305 (`(2^32 - 2) * 64`); a longer one that is not refused
/// runs out of keystream.
pub const CHACHA_MAX_LEN: u64 = 0x3F_FFFF_FF80;

/// Length of the nonce that starts every encrypted blob.
pub const NONCE_LEN: usize = 12;
/// Length of the authentication tag that ends every ciphertext.
pub const TAG_LEN: usize = 16;

#[verifier::external_type_specification]
#[verifier::external_body]
pub struct ExAeadError(aes_gcm::Error);

#[verifier::external_type_specification]
#[verifier::external_body]
pub struct ExArgon2Error(argon2::Error);

#[verifier::external_type_specification]
#[verifier::external_body]
pub struct ExRandError(rand::Error);

/// Whether Argon2 accepts these cost parameters (`argon2::Params::new`).
pub open spec fn argon2_params_ok(m: u32, t: u32, p: u32) -> bool {
    &&& m >= 8
    &&& m >= p * 8
    &&& t >= 1
    &&& p >= 1
    &&& p <= ARGON2_MAX_P_COST
}

/// The 32-byte Argon2id (version 0x13) output for a password, salt and costs.
pub uninterp spec fn argon2id_output(password: Seq<u8>, salt: Seq<u8>, m: u32, t: u32, p: u32) -> Seq<u8>;

/// AES-256-GCM encryption (ciphertext ++ tag) of a plaintext under a key, nonce
/// and associated data.
pub uninterp spec fn aes256gcm_sealed(key: Seq<u8>, nonce: Seq<u8>, aad: Seq<u8>, plaintext: Seq<u8>) -> Seq<u8>;

/// AES-256-GCM authenticated decryption of ciphertext ++ tag with associated
/// data; `None` when refused.
pub uninterp spec fn aes256gcm_opened(key: Seq<u8>, nonce: Seq<u8>, aad: Seq<u8>, ciphertext: Seq<u8>) -> Option<Seq<u8>>;

/// ChaCha20-Poly1305 encryption (ciphertext ++ tag) of a plaintext under a key,
/// nonce and associated data.
pub uninterp spec fn chacha20poly1305_sealed(key: Seq<u8>, nonce: Seq<u8>, aad: Seq<u8>, plaintext: Seq<u8>) -> Seq<u8>;

/// ChaCha20-Poly1305 authenticated decryption of ciphertext ++ tag with
/// associated data; `None` when refused.
pub uninterp spec fn chacha20poly1305_opened(key: Seq<u8>, nonce: Seq<u8>, aad: Seq<u8>, ciphertext: Seq<u8>) -> Option<Seq<u8>>;

/// Fills `buf` from the operating system's random number generator with
/// `rand::rngs::OsRng::try_fill_bytes`, which returns an error (and does not
/// panic) when the operating system cannot deliver randomness. Whether it
/// succeeds, and the bytes it writes, depend on the machine: nothing is
/// claimed of either, only that `buf` keeps its length.
#[verifier::external_body]
fn fill_random(buf: &mut [u8]) -> (r: Result<(), rand::Error>)
    ensures
        final(buf)@.len() == old(buf)@.len(),
{
    rand::rngs::OsRng.try_fill_bytes(buf)
}

/// Runs Argon2id, version 0x13, with a 32-byte output: `argon2::Params::new`,
/// `argon2::Argon2::new` and `Argon2::hash_password_into`. As their source
/// shows, it succeeds exactly when the costs are accepted and the salt has
/// 8 to 2^32-1 bytes and the password at most 2^32-1 bytes; the key is then
/// `argon2id_output` of the inputs. It allocates `m` KiB; whether the machine
/// has that memory is not stated.
#[verifier::external_body]
fn argon2id_hash(password: &[u8], salt: &[u8], m: u32, t: u32, p: u32) -> (r: Result<[u8; 32], argon2::Error>)
    requires
        p <= ARGON2_MAX_P_COST,
    ensures
        r is Ok <==> (argon2_params_ok(m, t, p) && 8 <= salt@.len() <= 0xFFFF_FFFF
            && password@.len() <= 0xFFFF_FFFF),
        r matches Ok(k) ==> k@ == argon2id_output(password@, salt@, m, t, p),
{
    let params = argon2::Params::new(m, t, p, Some(32))?;
    let a2 = argon2::Argon2::new(argon2::Algorithm::Argon2id, argon2::Version::V0x13, params);
    let mut key = [0u8; 32];
    a2.hash_password_into(password, salt, &mut key)?;
    Ok(key)
}

/// Encrypts with `Aes256Gcm::encrypt` (with associated data `aad`). As the aes-gcm
/// source shows, it succeeds exactly when the plaintext and the associated
/// data have at most 2^36 bytes each, and the result is the plaintext's
/// length plus a 16-byte tag. It is claimed, as AEAD correctness, that
/// decrypting the result under the same key, nonce and associated data gives
/// back the plaintext.
#[verifier::external_body]
fn aes256gcm_encrypt(key: &[u8; 32], nonce: &[u8; 12], aad: &[u8], plaintext: &[u8]) -> (r: Result<Vec<u8>, aes_gcm::Error>)
    ensures
        r is Ok <==> (plaintext@.len() <= AES_GCM_P_MAX && aad@.len() <= AES_GCM_A_MAX),
        r matches Ok(c) ==> c@ == aes256gcm_sealed(key@, nonce@, aad@, plaintext@),
        r matches Ok(c) ==> c@.len() == plaintext@.len() + TAG_LEN,
        r matches Ok(c) ==> aes256gcm_opened(key@, nonce@, aad@, c@) == Some(plaintext@),
{
    let c = aes_gcm::Aes256Gcm::new(GenericArray::from_slice(&key[..]));
    c.encrypt(GenericArray::from_slice(&nonce[..]), Payload { msg: plaintext, aad })
}

/// Decrypts with `Aes256Gcm::decrypt` (with associated data `aad`); the result is
/// `aes256gcm_opened` of the inputs.
#[verifier::external_body]
fn aes256gcm_decrypt(key: &[u8; 32], nonce: &[u8; 12], aad: &[u8], ciphertext: &[u8]) -> (r: Result<Vec<u8>, aes_gcm::Error>)
    ensures
        r is Ok <==> aes256gcm_opened(key@, nonce@, aad@, ciphertext@) is Some,
        r matches Ok(p) ==> aes256gcm_opened(key@, nonce@, aad@, ciphertext@) == Some(p@),
{
    let c = aes_gcm::Aes256Gcm::new(GenericArray::from_slice(&key[..]));
    c.decrypt(GenericArray::from_slice(&nonce[..]), Payload { msg: ciphertext, aad })
}

/// Whether ChaCha20-Poly1305 handles a message of `len` bytes without
/// panicking: either its keystream suffices (the counter starts at block 1,
/// after the Poly1305 key block) or the message is refused outright for
/// having 2^32-1 blocks or more.
pub open spec fn chacha_len_ok(len: int) -> bool {
    len <= CHACHA_MAX_LEN || len / 64 >= CHACHA_MAX_BLOCKS
}

/// Encrypts with `ChaCha20Poly1305::encrypt` (with associated data `aad`). As the
/// chacha20poly1305 source shows, it refuses a plaintext of 2^32-1 blocks of
/// 64 bytes or more, and it panics (keystream exhausted) on lengths between
/// `CHACHA_MAX_LEN` and that limit, which `requires` leaves out; otherwise
/// the result is the plaintext's length plus a 16-byte tag. It is claimed, as
/// AEAD correctness, that decrypting the result under the same key, nonce and
/// associated data gives back the plaintext.
#[verifier::external_body]
fn chacha20poly1305_encrypt(key: &[u8; 32], nonce: &[u8; 12], aad: &[u8], plaintext: &[u8]) -> (r: Result<Vec<u8>, aes_gcm::Error>)
    requires
        chacha_len_ok(plaintext@.len() as int),
    ensures
        r is Ok <==> plaintext@.len() / 64 < CHACHA_MAX_BLOCKS,
        r matches Ok(c) ==> c@ == chacha20poly1305_sealed(key@, nonce@, aad@, plaintext@),
        r matches Ok(c) ==> c@.len() == plaintext@.len() + TAG_LEN,
        r matches Ok(c) ==> chacha20poly1305_opened(key@, nonce@, aad@, c@) == Some(plaintext@),
{
    let c = chacha20poly1305::ChaCha20Poly1305::new(GenericArray::from_slice(&key[..]));
    c.encrypt(GenericArray::from_slice(&nonce[..]), Payload { msg: plaintext, aad })
}

/// Decrypts with `ChaCha20Poly1305::decrypt` (with associated data `aad`); the result
/// is `chacha20poly1305_opened` of the inputs. An authentic message body
/// (ciphertext without its tag) of a length that `chacha_len_ok` refuses
/// would exhaust the keystream and panic, so `requires` leaves it out.
#[verifier::external_body]
fn chacha20poly1305_decrypt(key: &[u8; 32], nonce: &[u8; 12], aad: &[u8], ciphertext: &[u8]) -> (r: Result<Vec<u8>, aes_gcm::Error>)
    requires
        ciphertext@.len() < TAG_LEN || chacha_len_ok(ciphertext@.len() - TAG_LEN),
    ensures
        r is Ok <==> chacha20poly1305_opened(key@, nonce@, aad@, ciphertext@) is Some,
        r matches Ok(p) ==> chacha20poly1305_opened(key@, nonce@, aad@, ciphertext@) == Some(p@),
{
    let c = chacha20poly1305::ChaCha20Poly1305::new(GenericArray::from_slice(&key[..]));
    c.decrypt(GenericArray::from_slice(&nonce[..]), Payload { msg: ciphertext, aad })
}

/// A fresh random 16-byte salt from the operating system.
pub fn random_salt() -> (r: Result<[u8; 16], BackupError>)
    ensures
        r matches Ok(s) ==> s@.len() == 16,
        r is Err ==> r matches Err(BackupError::Random),
{
    let mut s = [0u8; 16];
    match fill_random(&mut s) {
        Ok(()) => Ok(s),
        Err(_) => Err(BackupError::Random),
    }
}


/// The ciphertext ++ tag that `cipher` produces for a plaintext.
pub open spec fn sealed(cipher: Cipher, key: Seq<u8>, nonce: Seq<u8>, aad: Seq<u8>, plaintext: Seq<u8>) -> Seq<u8> {
    match cipher {
        Cipher::Aes256Gcm => aes256gcm_sealed(key, nonce, aad, plaintext),
        Cipher::ChaCha20Poly1305 => chacha20poly1305_sealed(key, nonce, aad, plaintext),
        Cipher::Plain => plaintext,
    }
}

/// The plaintext that `cipher` recovers from ciphertext ++ tag, if it authenticates.
pub open spec fn opened(cipher: Cipher, key: Seq<u8>, nonce: Seq<u8>, aad: Seq<u8>, ciphertext: Seq<u8>) -> Option<Seq<u8>> {
    match cipher {
        Cipher::Aes256Gcm => aes256gcm_opened(key, nonce, aad, ciphertext),
        Cipher::ChaCha20Poly1305 => chacha20poly1305_opened(key, nonce, aad, ciphertext),
        Cipher::Plain => Some(ciphertext),
    }
}

/// Whether `cipher` accepts a plaintext of `len` bytes.
pub open spec fn plaintext_fits(cipher: Cipher, len: nat) -> bool {
    match cipher {
        Cipher::Aes256Gcm => len <= AES_GCM_P_MAX,
        Cipher::ChaCha20Poly1305 => len / 64 < CHACHA_MAX_BLOCKS,
        Cipher::Plain => false,
    }
}

/// Whether `encrypt` can handle a plaintext of `len` bytes with `cipher`
/// (ChaCha20-Poly1305 panics on a narrow band of huge lengths).
pub open spec fn encrypt_len_ok(cipher: Cipher, len: int) -> bool {
    cipher == Cipher::ChaCha20Poly1305 ==> chacha_len_ok(len)
}

/// Whether `decrypt` can handle a blob of `len` bytes with `cipher`.
pub open spec fn decrypt_len_ok(cipher: Cipher, len: int) -> bool {
    cipher == Cipher::ChaCha20Poly1305 && len >= NONCE_LEN + TAG_LEN ==> chacha_len_ok(len - NONCE_LEN - TAG_LEN)
}

/// Whether `encrypt` handles a plaintext of `len` bytes with `cipher`.
pub fn encrypt_handles(cipher: Cipher, len: usize) -> (r: bool)
    ensures
        r == encrypt_len_ok(cipher, len as int),
{
    match cipher {
        Cipher::ChaCha20Poly1305 => (len as u64) <= CHACHA_MAX_LEN || (len as u64) / 64 >= CHACHA_MAX_BLOCKS,
        _ => true,
    }
}

/// Whether `decrypt` handles a blob of `len` bytes with `cipher`.
pub fn decrypt_handles(cipher: Cipher, len: usize) -> (r: bool)
    ensures
        r == decrypt_len_ok(cipher, len as int),
{
    match cipher {
        Cipher::ChaCha20Poly1305 => {
            if len < NONCE_LEN + TAG_LEN {
                true
            } else {
                let body = (len - NONCE_LEN - TAG_LEN) as u64;
                body <= CHACHA_MAX_LEN || body / 64 >= CHACHA_MAX_BLOCKS
            }
        },
        _ => true,
    }
}

/// What `decrypt` returns for a blob `[nonce] ++ [ciphertext ++ tag]`.
pub open spec fn decrypt_spec(cipher: Cipher, key: Seq<u8>, blob: Seq<u8>) -> Result<Seq<u8>, BackupError> {
    decrypt_ad_spec(cipher, key, Seq::empty(), blob)
}

/// What `decrypt_with_ad` returns for a blob `[nonce] ++ [ciphertext ++ tag]`
/// and associated data.
pub open spec fn decrypt_ad_spec(cipher: Cipher, key: Seq<u8>, aad: Seq<u8>, blob: Seq<u8>) -> Result<Seq<u8>, BackupError> {
    if blob.len() < NONCE_LEN {
        Err(BackupError::BlobTooShort)
    } else if cipher == Cipher::Plain {
        Err(BackupError::DecryptNoCipher)
    } else {
        match opened(cipher, key, blob.take(NONCE_LEN as int), aad, blob.skip(NONCE_LEN as int)) {
            Some(p) => Ok(p),
            None => Err(BackupError::DecryptFailed),
        }
    }
}

/// Encrypts `plaintext` under a fresh random nonce; the blob is
/// `[nonce (12 bytes)] ++ [ciphertext ++ tag]`. Decrypting the blob with the
/// same cipher and key gives back the plaintext. It fails with
/// `BackupError::Random` when no nonce can be drawn.
pub fn encrypt(cipher: Cipher, key: &[u8; 32], plaintext: &[u8]) -> (r: Result<Vec<u8>, BackupError>)
    requires
        encrypt_len_ok(cipher, plaintext@.len() as int),
    ensures
        cipher == Cipher::Plain ==> r matches Err(BackupError::EncryptNoCipher),
        cipher != Cipher::Plain && r is Ok ==> plaintext_fits(cipher, plaintext@.len()),
        cipher != Cipher::Plain && plaintext_fits(cipher, plaintext@.len())
            ==> r is Ok || r->Err_0 is Random,
        cipher != Cipher::Plain && !plaintext_fits(cipher, plaintext@.len())
            ==> r is Err && (r->Err_0 is EncryptFailed || r->Err_0 is Random),
        r matches Ok(blob) ==> {
            &&& blob@.len() == NONCE_LEN + plaintext@.len() + TAG_LEN
            &&& blob@.skip(NONCE_LEN as int) == sealed(cipher, key@, blob@.take(NONCE_LEN as int), Seq::empty(), plaintext@)
            &&& decrypt_spec(cipher, key@, blob@) == Ok::<Seq<u8>, BackupError>(plaintext@)
        },
{
    let none: Vec<u8> = Vec::new();
    assert(none@ =~= Seq::<u8>::empty());
    encrypt_with_ad(cipher, key, none.as_slice(), plaintext)
}

/// Encrypts `plaintext` with associated data `aad` under a fresh random
/// nonce; the blob is `[nonce (12 bytes)] ++ [ciphertext ++ tag]`, and it
/// decrypts back only with the same cipher, key and associated data.
pub fn encrypt_with_ad(cipher: Cipher, key: &[u8; 32], aad: &[u8], plaintext: &[u8]) -> (r: Result<Vec<u8>, BackupError>)
    requires
        encrypt_len_ok(cipher, plaintext@.len() as int),
        aad@.len() <= AES_GCM_A_MAX,
    ensures
        cipher == Cipher::Plain ==> r matches Err(BackupError::EncryptNoCipher),
        cipher != Cipher::Plain && r is Ok ==> plaintext_fits(cipher, plaintext@.len()),
        cipher != Cipher::Plain && plaintext_fits(cipher, plaintext@.len())
            ==> r is Ok || r->Err_0 is Random,
        cipher != Cipher::Plain && !plaintext_fits(cipher, plaintext@.len())
            ==> r is Err && (r->Err_0 is EncryptFailed || r->Err_0 is Random),
        r matches Ok(blob) ==> {
            &&& blob@.len() == NONCE_LEN + plaintext@.len() + TAG_LEN
            &&& blob@.skip(NONCE_LEN as int) == sealed(cipher, key@, blob@.take(NONCE_LEN as int), aad@, plaintext@)
            &&& decrypt_ad_spec(cipher, key@, aad@, blob@) == Ok::<Seq<u8>, BackupError>(plaintext@)
        },
{
    if cipher == Cipher::Plain {
        return Err(BackupError::EncryptNoCipher);
    }
    let mut nonce = [0u8; 12];
    if fill_random(&mut nonce).is_err() {
        return Err(BackupError::Random);
    }
    let ct = match cipher {
        Cipher::Aes256Gcm => match aes256gcm_encrypt(key, &nonce, aad, plaintext) {
            Ok(c) => c,
            Err(_) => return Err(BackupError::EncryptFailed),
        },
        Cipher::ChaCha20Poly1305 => match chacha20poly1305_encrypt(key, &nonce, aad, plaintext) {
            Ok(c) => c,
            Err(_) => return Err(BackupError::EncryptFailed),
        },
        Cipher::Plain => return Err(BackupError::EncryptNoCipher),
    };
    let mut out: Vec<u8> = Vec::new();
    let mut i: usize = 0;
    while i < 12
        invariant
            0 <= i <= 12,
            nonce@.len() == 12,
            out@ == nonce@.take(i as int),
        decreases 12 - i,
    {
        out.push(nonce[i]);
        assert(nonce@.take(i + 1) == nonce@.take(i as int).push(nonce@[i as int]));
        i = i + 1;
    }
    let mut j: usize = 0;
    while j < ct.len()
        invariant
            j <= ct@.len(),
            out@ == nonce@ + ct@.take(j as int),
        decreases ct@.len() - j,
    {
        out.push(ct[j]);
        assert(ct@.take(j + 1) == ct@.take(j as int).push(ct@[j as int]));
        j = j + 1;
    }
    assert(ct@.take(ct@.len() as int) == ct@);
    assert(out@.take(12) == nonce@);
    assert(out@.skip(12) == ct@);
    Ok(out)
}

/// Decrypts a blob `[nonce (12 bytes)] ++ [ciphertext ++ tag]`.
pub fn decrypt(cipher: Cipher, key: &[u8; 32], blob: &[u8]) -> (r: Result<Vec<u8>, BackupError>)
    requires
        decrypt_len_ok(cipher, blob@.len() as int),
    ensures
        match decrypt_spec(cipher, key@, blob@) {
            Ok(p) => r matches Ok(v) && v@ == p,
            Err(e) => r matches Err(e2) && e2 == e,
        },
{
    let none: Vec<u8> = Vec::new();
    assert(none@ =~= Seq::<u8>::empty());
    decrypt_with_ad(cipher, key, none.as_slice(), blob)
}

/// Decrypts a blob `[nonce (12 bytes)] ++ [ciphertext ++ tag]` sealed with
/// associated data `aad`.
pub fn decrypt_with_ad(cipher: Cipher, key: &[u8; 32], aad: &[u8], blob: &[u8]) -> (r: Result<Vec<u8>, BackupError>)
    requires
        decrypt_len_ok(cipher, blob@.len() as int),
    ensures
        match decrypt_ad_spec(cipher, key@, aad@, blob@) {
            Ok(p) => r matches Ok(v) && v@ == p,
            Err(e) => r matches Err(e2) && e2 == e,
        },
{
    if blob.len() < 12 {
        return Err(BackupError::BlobTooShort);
    }
    let mut nonce = [0u8; 12];
    let mut i: usize = 0;
    while i < 12
        invariant
            0 <= i <= 12,
            blob@.len() >= 12,
            nonce@.len() == 12,
            forall|k: int| 0 <= k < i ==> nonce@[k] == blob@[k],
        decreases 12 - i,
    {
        nonce[i] = blob[i];
        i = i + 1;
    }
    assert(nonce@ == blob@.take(12));
    let ct = slice_subrange(blob, 12, blob.len());
    assert(ct@ == blob@.skip(12));
    let pt = match cipher {
        Cipher::Aes256Gcm => aes256gcm_decrypt(key, &nonce, aad, ct),
        Cipher::ChaCha20Poly1305 => chacha20poly1305_decrypt(key, &nonce, aad, ct),
        Cipher::Plain => return Err(BackupError::DecryptNoCipher),
    };
    match pt {
        Ok(p) => Ok(p),
        Err(_) => Err(BackupError::DecryptFailed),
    }
}

/// What `derive_key` returns for a password, salt and costs.
pub open spec fn derive_key_spec(passphrase: Seq<char>, salt: Seq<u8>, m: u32, t: u32, p: u32) -> Result<Seq<u8>, BackupError> {
    if !argon2_params_ok(m, t, p) {
        Err(BackupError::KdfParams)
    } else if 8 <= salt.len() <= 0xFFFF_FFFF && encode_utf8(passphrase).len() <= 0xFFFF_FFFF {
        Ok(argon2id_output(encode_utf8(passphrase), salt, m, t, p))
    } else {
        Err(BackupError::Kdf)
    }
}

/// Derives the 256-bit key from a password with Argon2id (memory `m` KiB,
/// `t` passes, parallelism `p`).
pub fn derive_key(passphrase: &str, salt: &[u8], m: u32, t: u32, p: u32) -> (r: Result<[u8; 32], BackupError>)
    ensures
        match derive_key_spec(passphrase@, salt@, m, t, p) {
            Ok(k) => r matches Ok(key) && key@ == k,
            Err(e) => r matches Err(e2) && e2 == e,
        },
{
    if p > ARGON2_MAX_P_COST {
        return Err(BackupError::KdfParams);
    }
    let pw = passphrase.as_bytes();
    match argon2id_hash(pw, salt, m, t, p) {
        Ok(k) => Ok(k),
        Err(_) => {
            if m < 8 || (m as u64) < (p as u64) * 8 || t < 1 || p < 1 {
                Err(BackupError::KdfParams)
            } else {
                Err(BackupError::Kdf)
            }
        }
    }
}

/// Deriving twice from the same password, salt and costs gives the same result.
pub proof fn lemma_derive_key_deterministic(
    pass1: Seq<char>, salt1: Seq<u8>, pass2: Seq<char>, salt2: Seq<u8>, m: u32, t: u32, p: u32,
)
    requires
        pass1 == pass2,
        salt1 == salt2,
    ensures
        derive_key_spec(pass1, salt1, m, t, p) == derive_key_spec(pass2, salt2, m, t, p),
{
}

} // verus!
