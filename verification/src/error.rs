use vstd::prelude::*;

verus! {

/// Every way an operation of the library can fail.
#[derive(Debug)]
pub enum BackupError {
    /// A cipher name that is none of the accepted spellings (the trimmed,
    /// lower-cased text is kept).
    UnknownCipher(String),
    /// The Argon2 cost parameters are out of range.
    KdfParams,
    /// Argon2 refused the password or the salt.
    Kdf,
    /// `encrypt` was asked to use `Cipher::Plain`.
    EncryptNoCipher,
    /// `decrypt` was asked to use `Cipher::Plain`.
    DecryptNoCipher,
    /// The operating system could not deliver random bytes for a salt or nonce.
    Random,
    /// The AEAD refused the plaintext (it is longer than the cipher allows).
    EncryptFailed,
    /// An encrypted blob shorter than its nonce.
    BlobTooShort,
    /// Authentication failed (wrong password or damaged data).
    DecryptFailed,
    /// The salt in the manifest is not valid base64.
    SaltEncoding,
    /// An encrypted set needs a password and none was given.
    PasswordMissing,
    /// An encrypted set's manifest has no KDF parameters.
    KdfMissing,
    /// `scope=config` was given without source paths.
    ScopeNeedsPaths,
    /// No home directory root is known for this platform.
    NoHomeRoot,
    /// No user data folder could be found automatically.
    NoAutoSources,
    /// A scope keyword other than home, config, disk or auto (the keyword is kept).
    UnknownScope(String),
    /// A restored or verified file's BLAKE3 differs from the manifest.
    HashMismatch,
    /// A restored or verified file's size differs from the manifest.
    SizeMismatch,
    /// A symbolic link points elsewhere than the manifest says.
    SymlinkMismatch,
    /// An exclusion pattern is not a valid glob (the pattern is kept).
    BadPattern(String),
    /// The exclusion patterns could not be combined into one matcher.
    PatternSet,
    /// The destination is on the same device as this source (the source is kept).
    SameDevice(String),
    /// The destination has less free space than the data needs.
    NotEnoughSpace { need: u64, have: u64 },
    /// The copy phase of an evacuation had this many errors.
    CopyErrors(u64),
    /// The verify phase of an evacuation had this many failures.
    VerifyErrors(u64),
    /// A clone tool this library cannot build a command for (the name is kept).
    UnknownCloneTool(String),
    /// An empty command line.
    EmptyCommand,
    /// Volume snapshots exist only on Windows.
    VssUnsupported,
    /// The snapshot script failed, typically for want of Administrator rights
    /// (the drive and the script's trimmed error output are kept).
    VssFailed { volume: String, detail: String },
    /// The snapshot script printed no `ID|DEVICE` line (its trimmed output is kept).
    VssUnexpectedOutput(String),
    /// The snapshot script's `ID|DEVICE` line had an empty id or device.
    VssUnparsable,
}

} // verus!
