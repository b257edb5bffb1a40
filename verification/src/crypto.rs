//! The passphrase-derived cipher: a key is derived from a passphrase with
//! SHA-256, and data is sealed with AES-256-GCM. A sealed buffer (a frame)
//! is the nonce followed by the ciphertext and its tag. A frame may be
//! sealed with a label: bytes that are not part of the frame, and without
//! which it does not open. A stream is cut in chunks of `PLAIN_CHUNK_LEN`
//! bytes, each sealed in a frame of its own and labelled with its place;
//! the last frame is always shorter than a full one, which marks the end.

use aes_gcm::aead::{Aead, Payload};
use aes_gcm::{Aes256Gcm, KeyInit};
use sha2::{Digest, Sha256};
use vstd::prelude::*;
use vstd::slice::*;
use zeroize::Zeroize;

verus! {

/// Length of a derived key, in bytes.
pub const KEY_LEN: usize = 32;

/// Length of the nonce at the start of a frame.
pub const IV_LEN: usize = 12;

/// Length of the authentication tag at the end of a frame.
pub const TAG_LEN: usize = 16;

/// Bytes that a frame adds to what it seals: the nonce and the tag.
pub const FRAME_OVERHEAD: usize = 28;

/// Length of the plaintext chunks of a stream; only the last is shorter.
pub const PLAIN_CHUNK_LEN: usize = 128_000;

/// Length of a full frame of a stream.
pub const ENCRYPTED_CHUNK_LEN: usize = 128_028;

/// The longest plaintext that AES-GCM seals under one nonce.
pub const MAX_PLAIN_LEN: u64 = 0xF_FFFF_FFE0;

/// The longest label that AES-GCM takes.
pub const MAX_LABEL_LEN: u64 = 0x1FFF_FFFF_FFFF_FFFF;

/// The SHA-256 digest of `data`.
pub uninterp spec fn sha256(data: Seq<u8>) -> Seq<u8>;

/// The AES-256-GCM ciphertext of `plain` under `key` and `nonce`, with
/// `label` as associated data, followed by its tag.
pub uninterp spec fn aead_seal(key: Seq<u8>, nonce: Seq<u8>, label: Seq<u8>, plain: Seq<u8>) -> Seq<
    u8,
>;

/// What AES-256-GCM recovers from `sealed` under `key` and `nonce`, with
/// `label` as associated data, or `None` where the tag does not
/// authenticate the two.
pub uninterp spec fn aead_open(key: Seq<u8>, nonce: Seq<u8>, label: Seq<u8>, sealed: Seq<u8>) -> Option<
    Seq<u8>,
>;

/// The error of the `aead` crate, which says nothing of its cause.
#[verifier::external_type_specification]
#[verifier::external_body]
pub struct ExAeadError(aes_gcm::Error);

/// The error of the `getrandom` crate.
#[verifier::external_type_specification]
#[verifier::external_body]
pub struct ExRandomError(getrandom::Error);

/// Why a cipher operation failed.
#[derive(Clone, Copy, Debug, PartialEq, Eq, Structural)]
pub enum CryptoError {
    /// No usable key can be derived: the passphrase is empty.
    InvalidKey,
    /// The cipher or the random source could not do its work.
    CipherFailure,
    /// The data was sealed under another key, or is corrupt or truncated.
    AuthenticationFailure,
    /// A stream was handed a chunk that is too long, or one after its last.
    InvalidChunk,
}

/// A key derived from a passphrase.
pub struct DerivedKey {
    bytes: [u8; 32],
}

/// The cipher of one operation, which owns the key derived for it.
pub struct Crypto {
    key: DerivedKey,
}

/// The key that a passphrase gives.
pub open spec fn spec_derive_key(passphrase: Seq<u8>) -> Seq<u8> {
    sha256(passphrase)
}

/// The frame that holds `plain` sealed under `key` and the nonce `iv`,
/// with `label`.
pub open spec fn spec_seal(key: Seq<u8>, iv: Seq<u8>, label: Seq<u8>, plain: Seq<u8>) -> Seq<u8> {
    iv + aead_seal(key, iv, label, plain)
}

/// What a frame holds that was sealed with `label`, or `None` where it is
/// too short or not authentic with that label.
pub open spec fn spec_open(key: Seq<u8>, label: Seq<u8>, frame: Seq<u8>) -> Option<Seq<u8>> {
    if frame.len() < IV_LEN + TAG_LEN {
        None
    } else {
        aead_open(key, frame.take(IV_LEN as int), label, frame.skip(IV_LEN as int))
    }
}

/// `frame` is `plain` sealed under `key` with `label`, with some nonce.
pub open spec fn is_sealed(key: Seq<u8>, label: Seq<u8>, plain: Seq<u8>, frame: Seq<u8>) -> bool {
    &&& frame.len() == plain.len() + FRAME_OVERHEAD
    &&& spec_open(key, label, frame) == Some(plain)
}

/// The frame that holds `plain` sealed under `key` and the nonce `iv`,
/// with no label.
pub open spec fn spec_frame(key: Seq<u8>, iv: Seq<u8>, plain: Seq<u8>) -> Seq<u8> {
    spec_seal(key, iv, Seq::empty(), plain)
}

/// What a frame without label holds, or `None` where it is too short or
/// not authentic.
pub open spec fn spec_decrypt(key: Seq<u8>, frame: Seq<u8>) -> Option<Seq<u8>> {
    spec_open(key, Seq::empty(), frame)
}

/// `frame` is `plain` sealed under `key` with no label, with some nonce.
pub open spec fn is_frame_of(key: Seq<u8>, plain: Seq<u8>, frame: Seq<u8>) -> bool {
    is_sealed(key, Seq::empty(), plain, frame)
}

/// `Sha256::digest` of the `sha2` crate: the result is the SHA-256 digest of
/// the input, 32 bytes long.
#[verifier::external_body]
fn sha256_digest(data: &[u8]) -> (digest: [u8; 32])
    ensures
        digest@ == sha256(data@),
{
    Sha256::digest(data).into()
}

/// `Aead::encrypt` of `Aes256Gcm`, with the label as associated data. It
/// fails exactly where the plaintext is longer than `MAX_PLAIN_LEN` or the
/// label longer than `MAX_LABEL_LEN`. Otherwise it returns the ciphertext
/// followed by the 16 bytes of the tag, and `Aead::decrypt` with the same
/// key, nonce and label recovers the plaintext from it.
#[verifier::external_body]
fn aead_encrypt(key: &[u8; 32], nonce: &[u8; 12], label: &[u8], plain: &[u8]) -> (r: Result<
    Vec<u8>,
    aes_gcm::Error,
>)
    ensures
        r is Ok <==> (plain@.len() <= MAX_PLAIN_LEN && label@.len() <= MAX_LABEL_LEN),
        r matches Ok(sealed) ==> {
            &&& sealed@ == aead_seal(key@, nonce@, label@, plain@)
            &&& sealed@.len() == plain@.len() + TAG_LEN
            &&& aead_open(key@, nonce@, label@, sealed@) == Some(plain@)
        },
{
    Aes256Gcm::new(&(*key).into()).encrypt(&(*nonce).into(), Payload { msg: plain, aad: label })
}

/// `Aead::decrypt` of `Aes256Gcm`, with the label as associated data. It
/// fails where the input is shorter than a tag or the tag does not
/// authenticate input and label; what it returns is 16 bytes shorter than
/// the input.
#[verifier::external_body]
fn aead_decrypt(key: &[u8; 32], nonce: &[u8; 12], label: &[u8], sealed: &[u8]) -> (r: Result<
    Vec<u8>,
    aes_gcm::Error,
>)
    ensures
        match r {
            Ok(plain) => aead_open(key@, nonce@, label@, sealed@) == Some(plain@) && plain@.len()
                + TAG_LEN == sealed@.len(),
            Err(_) => aead_open(key@, nonce@, label@, sealed@) is None,
        },
{
    Aes256Gcm::new(&(*key).into()).decrypt(&(*nonce).into(), Payload { msg: sealed, aad: label })
}

/// `getrandom::fill` on a buffer of the length of a nonce: the bytes come
/// from the operating system's random source, which may fail.
#[verifier::external_body]
pub(crate) fn random_nonce() -> (r: Result<[u8; 12], getrandom::Error>) {
    let mut nonce = [0u8; 12];
    getrandom::fill(&mut nonce).map(|_| nonce)
}

/// `Zeroize::zeroize` on the bytes of a key: every byte is overwritten
/// with zero, by writes that the compiler does not remove.
#[verifier::external_body]
fn wipe_bytes(bytes: &mut [u8; 32])
    ensures
        forall|i: int| 0 <= i < KEY_LEN ==> #[trigger] final(bytes)@[i] == 0u8,
    opens_invariants none
    no_unwind
{
    bytes.zeroize()
}

/// The nonce that a slice of the right length holds.
fn nonce_of(iv: &[u8]) -> (nonce: [u8; 12])
    requires
        iv@.len() == IV_LEN,
    ensures
        nonce@ == iv@,
{
    let mut nonce = [0u8; 12];
    let mut i: usize = 0;
    while i < IV_LEN
        invariant
            i <= IV_LEN,
            iv@.len() == IV_LEN,
            forall|k: int| 0 <= k < i ==> nonce@[k] == iv@[k],
        decreases IV_LEN - i,
    {
        nonce[i] = iv[i];
        i += 1;
    }
    assert(nonce@ =~= iv@);
    nonce
}

impl View for DerivedKey {
    type V = Seq<u8>;

    closed spec fn view(&self) -> Seq<u8> {
        self.bytes@
    }
}

impl DerivedKey {
    /// The bytes of the key.
    pub fn as_bytes(&self) -> (bytes: &[u8; 32])
        ensures
            bytes@ == self@,
    {
        &self.bytes
    }

    /// Overwrites the key with zeros.
    pub fn wipe(&mut self)
        ensures
            final(self)@.len() == KEY_LEN,
            forall|i: int| 0 <= i < KEY_LEN ==> #[trigger] final(self)@[i] == 0u8,
    {
        wipe_bytes(&mut self.bytes);
    }

}

impl Drop for DerivedKey {
    /// The key is overwritten with zeros when it goes out of use.
    fn drop(&mut self)
        opens_invariants none
        no_unwind
    {
        wipe_bytes(&mut self.bytes);
    }
}

/// The same passphrase always gives the same key.
pub proof fn lemma_derive_key_deterministic(first: Seq<u8>, second: Seq<u8>)
    requires
        first == second,
    ensures
        spec_derive_key(first) == spec_derive_key(second),
{
}

/// Derives the key of a passphrase.
pub fn derive_key(passphrase: &[u8]) -> (key: DerivedKey)
    ensures
        key@ == spec_derive_key(passphrase@),
        key@.len() == KEY_LEN,
{
    DerivedKey { bytes: sha256_digest(passphrase) }
}

impl Crypto {
    /// The key that this cipher seals and opens with.
    pub closed spec fn key(&self) -> Seq<u8> {
        self.key@
    }

    /// The cipher for a passphrase. An empty passphrase gives no key.
    pub fn new(passphrase: &[u8]) -> (r: Result<Crypto, CryptoError>)
        ensures
            match r {
                Ok(crypto) => {
                    &&& passphrase@.len() >= 1
                    &&& crypto.key() == spec_derive_key(passphrase@)
                    &&& crypto.key().len() == KEY_LEN
                },
                Err(e) => passphrase@.len() == 0 && e == CryptoError::InvalidKey,
            },
    {
        if passphrase.len() == 0 {
            return Err(CryptoError::InvalidKey);
        }
        Ok(Crypto { key: derive_key(passphrase) })
    }

    /// Overwrites the key with zeros; the cipher is of no use afterwards.
    pub fn wipe(&mut self)
        ensures
            final(self).key().len() == KEY_LEN,
            forall|i: int| 0 <= i < KEY_LEN ==> #[trigger] final(self).key()[i] == 0u8,
    {
        self.key.wipe();
    }

    /// Seals `plain` with `label` in a frame under the given nonce.
    pub fn seal_with_iv(&self, plain: &[u8], iv: &[u8], label: &[u8]) -> (r: Result<
        Vec<u8>,
        CryptoError,
    >)
        requires
            iv@.len() == IV_LEN,
        ensures
            match r {
                Ok(frame) => {
                    &&& plain@.len() <= MAX_PLAIN_LEN
                    &&& label@.len() <= MAX_LABEL_LEN
                    &&& frame@ == spec_seal(self.key(), iv@, label@, plain@)
                    &&& is_sealed(self.key(), label@, plain@, frame@)
                },
                Err(e) => (plain@.len() > MAX_PLAIN_LEN || label@.len() > MAX_LABEL_LEN) && e
                    == CryptoError::CipherFailure,
            },
    {
        match aead_encrypt(self.key.as_bytes(), &nonce_of(iv), label, plain) {
            Ok(sealed) => {
                let mut frame: Vec<u8> = Vec::new();
                frame.extend_from_slice(iv);
                frame.extend_from_slice(sealed.as_slice());
                proof {
                    assert(frame@ =~= iv@ + sealed@);
                    assert(frame@.take(IV_LEN as int) =~= iv@);
                    assert(frame@.skip(IV_LEN as int) =~= sealed@);
                }
                Ok(frame)
            },
            Err(_) => Err(CryptoError::CipherFailure),
        }
    }

    /// Seals `plain` with `label` in a frame under a fresh random nonce.
    pub fn seal(&self, plain: &[u8], label: &[u8]) -> (r: Result<Vec<u8>, CryptoError>)
        ensures
            match r {
                Ok(frame) => {
                    &&& plain@.len() <= MAX_PLAIN_LEN
                    &&& label@.len() <= MAX_LABEL_LEN
                    &&& is_sealed(self.key(), label@, plain@, frame@)
                },
                Err(e) => e == CryptoError::CipherFailure,
            },
    {
        match random_nonce() {
            Ok(iv) => self.seal_with_iv(plain, iv.as_slice(), label),
            Err(_) => Err(CryptoError::CipherFailure),
        }
    }

    /// Opens a frame that was sealed with `label`.
    pub fn open(&self, frame: &[u8], label: &[u8]) -> (r: Result<Vec<u8>, CryptoError>)
        ensures
            match r {
                Ok(plain) => spec_open(self.key(), label@, frame@) == Some(plain@) && plain@.len()
                    + FRAME_OVERHEAD == frame@.len(),
                Err(e) => spec_open(self.key(), label@, frame@) is None && e
                    == CryptoError::AuthenticationFailure,
            },
    {
        if frame.len() < IV_LEN + TAG_LEN {
            return Err(CryptoError::AuthenticationFailure);
        }
        let iv = slice_subrange(frame, 0, IV_LEN);
        let sealed = slice_subrange(frame, IV_LEN, frame.len());
        match aead_decrypt(self.key.as_bytes(), &nonce_of(iv), label, sealed) {
            Ok(plain) => Ok(plain),
            Err(_) => Err(CryptoError::AuthenticationFailure),
        }
    }

    /// Seals `plain` in a frame under the given nonce, with no label.
    pub fn encrypt_with_iv(&self, plain: &[u8], iv: &[u8]) -> (r: Result<Vec<u8>, CryptoError>)
        requires
            iv@.len() == IV_LEN,
        ensures
            match r {
                Ok(frame) => {
                    &&& plain@.len() <= MAX_PLAIN_LEN
                    &&& frame@ == spec_frame(self.key(), iv@, plain@)
                    &&& is_frame_of(self.key(), plain@, frame@)
                },
                Err(e) => plain@.len() > MAX_PLAIN_LEN && e == CryptoError::CipherFailure,
            },
    {
        let label: Vec<u8> = Vec::new();
        self.seal_with_iv(plain, iv, label.as_slice())
    }

    /// Seals `plain` in a frame under a fresh random nonce, with no label.
    pub fn encrypt(&self, plain: &[u8]) -> (r: Result<Vec<u8>, CryptoError>)
        ensures
            match r {
                Ok(frame) => plain@.len() <= MAX_PLAIN_LEN && is_frame_of(
                    self.key(),
                    plain@,
                    frame@,
                ),
                Err(e) => e == CryptoError::CipherFailure,
            },
    {
        let label: Vec<u8> = Vec::new();
        self.seal(plain, label.as_slice())
    }

    /// Opens a frame that was sealed with no label.
    pub fn decrypt(&self, frame: &[u8]) -> (r: Result<Vec<u8>, CryptoError>)
        ensures
            match r {
                Ok(plain) => spec_decrypt(self.key(), frame@) == Some(plain@) && plain@.len()
                    + FRAME_OVERHEAD == frame@.len(),
                Err(e) => spec_decrypt(self.key(), frame@) is None && e
                    == CryptoError::AuthenticationFailure,
            },
    {
        let label: Vec<u8> = Vec::new();
        self.open(frame, label.as_slice())
    }
}

} // verus!
