//! Manifest: metadata of every file of a backup set, plus the key-derivation
//! parameters of an encrypted set.
use vstd::prelude::*;

use crate::error::BackupError;
use crate::textmap::TextMap;

verus! {

/// The file name of the manifest inside a backup set (a hidden JSON file).
pub open spec fn manifest_file_name() -> Seq<char> {
    let stem = ".backuptool-manifest"@;
    stem + ".json"@
}

/// The file name of the manifest inside a backup set.
pub fn manifest_name() -> (r: String)
    ensures
        r@ == manifest_file_name(),
{
    let stem = ".backuptool-manifest";
    crate::text::concat2(stem, ".json")
}

/// Entry kind; stored as `"file"` / `"symlink"` / `"dir"`.
#[derive(Clone, Copy, PartialEq, Eq, Structural, Debug)]
pub enum Kind {
    File,
    Symlink,
    Dir,
}

/// Metadata recorded for one file, symbolic link or directory.
#[derive(Clone, Debug)]
pub struct FileMeta {
    pub size: u64,
    pub mtime: i64,
    pub mode: u32,
    pub uid: u32,
    pub gid: u32,
    pub kind: Kind,
    /// Target of a symbolic link (empty for files).
    pub target: String,
    /// BLAKE3 of the contents (hex), when checksums are in use.
    pub blake3: Option<String>,
}

impl FileMeta {
    /// A copy of this metadata.
    pub fn duplicate(&self) -> (r: FileMeta)
        ensures
            r == *self,
    {
        FileMeta {
            size: self.size,
            mtime: self.mtime,
            mode: self.mode,
            uid: self.uid,
            gid: self.gid,
            kind: self.kind,
            target: self.target.clone(),
            blake3: match &self.blake3 {
                Some(h) => Some(h.clone()),
                None => None,
            },
        }
    }
}

/// Parameters of the Argon2id key derivation of an encrypted set.
#[derive(Clone, Debug)]
pub struct KdfParams {
    /// Always `"argon2id"`.
    pub algo: String,
    /// The salt, standard base64.
    pub salt_b64: String,
    pub m_cost: u32,
    pub t_cost: u32,
    pub p_cost: u32,
}

/// The map from relative path to metadata, kept in key order (the order of a
/// `BTreeMap<String, FileMeta>`).
pub type FileMap = TextMap<FileMeta>;

} // verus!

verus! {

/// A backup set's manifest.
pub struct Manifest {
    pub version: u32,
    pub set: String,
    pub host: String,
    /// Local time of the run, `%Y-%m-%dT%H:%M:%S`.
    pub created: String,
    pub use_checksum: bool,
    /// `"none"`, `"aes256gcm"` or `"chacha20poly1305"`.
    pub cipher: String,
    pub kdf: Option<KdfParams>,
    pub files: FileMap,
}

impl Manifest {
    pub open spec fn wf(&self) -> bool {
        self.files.wf()
    }
}

#[verifier::external_type_specification]
#[verifier::external_body]
pub struct ExDecodeError(base64::DecodeError);

/// Whether the padded base64 text of `len` bytes has a size that a buffer
/// can have (at most `isize::MAX` bytes).
pub open spec fn base64_fits(len: nat) -> bool {
    len / 3 * 4 + 4 <= isize::MAX
}

/// Standard base64 (with padding) of a byte sequence.
pub uninterp spec fn base64_encoded(bytes: Seq<u8>) -> Seq<char>;

/// The bytes that standard base64 text decodes to; `None` when it is not
/// canonical standard base64.
pub uninterp spec fn base64_decoded(text: Seq<char>) -> Option<Seq<u8>>;

/// Encodes with `base64::engine::general_purpose::STANDARD.encode`. The result
/// is `base64_encoded` of the input, and decoding it gives back the input. The
/// encoded text (4 characters per 3 bytes, padded) must fit in memory's
/// address range, or the crate panics on the buffer size; `requires` says so.
#[verifier::external_body]
fn base64_encode(bytes: &[u8]) -> (r: String)
    requires
        base64_fits(bytes@.len()),
    ensures
        r@ == base64_encoded(bytes@),
        base64_decoded(r@) == Some(bytes@),
{
    base64::Engine::encode(&base64::engine::general_purpose::STANDARD, bytes)
}

/// Decodes with `base64::engine::general_purpose::STANDARD.decode`; the result
/// is `base64_decoded` of the text.
#[verifier::external_body]
fn base64_decode(text: &str) -> (r: Result<Vec<u8>, base64::DecodeError>)
    ensures
        r is Ok <==> base64_decoded(text@) is Some,
        r matches Ok(v) ==> base64_decoded(text@) == Some(v@),
{
    base64::Engine::decode(&base64::engine::general_purpose::STANDARD, text)
}

impl KdfParams {
    /// Argon2id parameters for a salt and costs (the salt stored as base64).
    pub fn argon2id(salt: &[u8], m_cost: u32, t_cost: u32, p_cost: u32) -> (k: KdfParams)
        requires
            base64_fits(salt@.len()),
        ensures
            k.algo@ == "argon2id"@,
            base64_decoded(k.salt_b64@) == Some(salt@),
            k.m_cost == m_cost,
            k.t_cost == t_cost,
            k.p_cost == p_cost,
    {
        KdfParams {
            algo: "argon2id".to_owned(),
            salt_b64: base64_encode(salt),
            m_cost,
            t_cost,
            p_cost,
        }
    }

    /// The salt, decoded from base64.
    pub fn salt(&self) -> (r: Result<Vec<u8>, BackupError>)
        ensures
            match base64_decoded(self.salt_b64@) {
                Some(s) => r matches Ok(v) && v@ == s,
                None => r matches Err(BackupError::SaltEncoding),
            },
    {
        match base64_decode(self.salt_b64.as_str()) {
            Ok(v) => Ok(v),
            Err(_) => Err(BackupError::SaltEncoding),
        }
    }
}

} // verus!
