//! Custody of the RSA key pair: loading with a passphrase, encryption and
//! decryption of short texts.
use crate::base64::{base64_decode, base64_encode, decode, encode, lemma_base64_round_trip};
use openssl::error::ErrorStack;
use openssl::pkey::{Private, Public};
use openssl::rsa::{Padding, Rsa};
use secstr::{SecStr, SecVec};
use vstd::prelude::*;
use vstd::utf8::{decode_utf8, encode_utf8, valid_utf8};
use zeroize::Zeroize;

verus! {

#[verifier::external_type_specification]
#[verifier::external_body]
#[verifier::reject_recursive_types(T)]
pub struct ExRsa<T>(Rsa<T>);

#[verifier::external_type_specification]
#[verifier::external_body]
pub struct ExPrivate(Private);

#[verifier::external_type_specification]
#[verifier::external_body]
pub struct ExPublic(Public);

#[verifier::external_type_specification]
#[verifier::external_body]
pub struct ExErrorStack(ErrorStack);

#[verifier::external_type_specification]
#[verifier::external_body]
#[verifier::reject_recursive_types(T)]
pub struct ExSecVec<T: Sized + Copy>(SecVec<T>);

/// Smallest accepted modulus, in bytes (2048 bits).
pub const MIN_RSA_MODULUS_SIZE: u32 = 256;

/// Bytes that PKCS#1 v1.5 padding adds to a plaintext.
pub const PKCS1_PADDING_OVERHEAD: u32 = 11;

/// What can go wrong while loading or using the key pair.
#[derive(PartialEq, Eq, Structural, Debug, Clone, Copy)]
pub enum CustodyError {
    /// No passphrase has been supplied.
    PassphraseNotSet,
    /// The private key could not be opened with the passphrase.
    InvalidPassphrase,
    /// A key file does not hold a key that can be read.
    CorruptKeyFile,
    /// The public modulus is under the minimum size.
    KeyTooWeak,
    /// The key needed for the operation has not been loaded.
    KeyNotLoaded,
    /// The plaintext is too long for the key, or encryption failed.
    EncryptionFailed,
    /// The ciphertext is not base64.
    MalformedCiphertext,
    /// The ciphertext could not be decrypted.
    DecryptionFailed,
    /// The decrypted bytes are not UTF-8 text.
    NonUtf8Plaintext,
}

impl CustodyError {
    /// A short text for the operator or the client.
    pub fn message(&self) -> &'static str {
        match self {
            CustodyError::PassphraseNotSet => "Password not set, inform system administrator",
            CustodyError::InvalidPassphrase => "Cannot load rsa keys!",
            CustodyError::CorruptKeyFile => "Cannot load rsa keys!",
            CustodyError::KeyTooWeak => "RSA key size too small",
            CustodyError::KeyNotLoaded => "RSA key is not set!",
            CustodyError::EncryptionFailed => "Could not rsa encrypt given value",
            CustodyError::MalformedCiphertext => "Could not base64 decode given value",
            CustodyError::DecryptionFailed => "Could not rsa decrypt given value",
            CustodyError::NonUtf8Plaintext => "Could not convert decrypted data to utf8",
        }
    }
}

/// Whether an encrypted PEM private key opens with a passphrase, and then the
/// size in bytes of its modulus.
pub uninterp spec fn private_pem_modulus(pem: Seq<u8>, passphrase: Seq<u8>) -> Option<u32>;

/// The modulus size in bytes of the RSA public key that a PEM text holds, or
/// `None` where it holds none.
pub uninterp spec fn public_pem_modulus(pem: Seq<u8>) -> Option<u32>;

/// PKCS#1 v1.5 decryption of `ct` with the private key that `pem` holds under
/// `passphrase`: the plaintext followed by zero bytes up to the modulus size,
/// or `None` where decryption fails.
pub uninterp spec fn pkcs1_decrypt_of(pem: Seq<u8>, passphrase: Seq<u8>, ct: Seq<u8>) -> Option<
    Seq<u8>,
>;

/// A private key, with its modulus size and the PEM text and passphrase it was
/// opened from. Only `open_private_key` makes one.
pub struct PrivateKey {
    key: Rsa<Private>,
    modulus: u32,
    pem: Ghost<Seq<u8>>,
    passphrase: Ghost<Seq<u8>>,
}

impl PrivateKey {
    pub closed spec fn pem(&self) -> Seq<u8> {
        self.pem@
    }

    pub closed spec fn passphrase(&self) -> Seq<u8> {
        self.passphrase@
    }

    pub closed spec fn modulus(&self) -> u32 {
        self.modulus
    }
}

/// A public key with its modulus size. Only `open_public_key` makes one.
pub struct PublicKey {
    key: Rsa<Public>,
    modulus: u32,
}

impl PublicKey {
    pub closed spec fn modulus(&self) -> u32 {
        self.modulus
    }
}

/// Relies on Rsa::private_key_from_pem_passphrase, which parses an encrypted
/// PEM private key, and on RsaRef::size for the modulus of the key it opened.
/// It panics on a passphrase with a NUL byte (CString::new) and on a PEM longer
/// than c_int::MAX (MemBioSlice::new).
#[verifier::external_body]
fn parse_private_key(pem: &[u8], passphrase: &[u8]) -> (r: Result<(Rsa<Private>, u32), ErrorStack>)
    requires
        pem@.len() <= i32::MAX,
        !passphrase@.contains(0u8),
    ensures
        r is Ok <==> private_pem_modulus(pem@, passphrase@) is Some,
        r matches Ok((_, size)) ==> private_pem_modulus(pem@, passphrase@) == Some(size),
{
    match Rsa::private_key_from_pem_passphrase(pem, passphrase) {
        Ok(key) => {
            let size = key.size();
            Ok((key, size))
        },
        Err(e) => Err(e),
    }
}

/// Relies on Rsa::public_key_from_pem, which parses a PEM public key, and on
/// RsaRef::size for the modulus of the key it read. It panics on a PEM longer
/// than c_int::MAX (MemBioSlice::new).
#[verifier::external_body]
fn parse_public_key(pem: &[u8]) -> (r: Result<(Rsa<Public>, u32), ErrorStack>)
    requires
        pem@.len() <= i32::MAX,
    ensures
        r is Ok <==> public_pem_modulus(pem@) is Some,
        r matches Ok((_, size)) ==> public_pem_modulus(pem@) == Some(size),
{
    match Rsa::public_key_from_pem(pem) {
        Ok(key) => {
            let size = key.size();
            Ok((key, size))
        },
        Err(e) => Err(e),
    }
}

/// Relies on RsaRef::public_encrypt with PKCS#1 v1.5 padding, into a buffer
/// of the modulus size (as `open_public_key` recorded it from RsaRef::size),
/// which that function requires and fills. The padding is random.
#[verifier::external_body]
fn rsa_public_encrypt(key: &PublicKey, from: &[u8]) -> (r: Result<Vec<u8>, ErrorStack>)
    requires
        from@.len() <= i32::MAX,
    ensures
        r matches Ok(v) ==> v@.len() == key.modulus(),
{
    let mut to = vec![0u8; key.modulus as usize];
    key.key.public_encrypt(from, &mut to, Padding::PKCS1).map(|_| to)
}

/// Relies on RsaRef::private_decrypt with PKCS#1 v1.5 padding, into a zeroed
/// buffer of the modulus size (as `open_private_key` recorded it from
/// RsaRef::size), which that function requires. The key is the one that
/// `key.pem()` holds under `key.passphrase()`, as `open_private_key` recorded;
/// a key parsed from a private PEM has its private parts.
#[verifier::external_body]
fn rsa_private_decrypt(key: &PrivateKey, from: &[u8]) -> (r: Result<Vec<u8>, ErrorStack>)
    requires
        from@.len() <= i32::MAX,
    ensures
        r is Ok <==> pkcs1_decrypt_of(key.pem(), key.passphrase(), from@) is Some,
        r matches Ok(v) ==> pkcs1_decrypt_of(key.pem(), key.passphrase(), from@) == Some(v@),
{
    let mut to = vec![0u8; key.modulus as usize];
    key.key.private_decrypt(from, &mut to, Padding::PKCS1).map(|_| to)
}

/// Opens an encrypted PEM private key with a passphrase.
fn open_private_key(pem: &[u8], passphrase: &[u8]) -> (r: Option<PrivateKey>)
    requires
        pem@.len() <= i32::MAX,
        !passphrase@.contains(0u8),
    ensures
        r is Some <==> private_pem_modulus(pem@, passphrase@) is Some,
        r matches Some(k) ==> k.pem() == pem@ && k.passphrase() == passphrase@ && Some(
            k.modulus(),
        ) == private_pem_modulus(pem@, passphrase@),
{
    match parse_private_key(pem, passphrase) {
        Ok((key, modulus)) => Some(
            PrivateKey { key, modulus, pem: Ghost(pem@), passphrase: Ghost(passphrase@) },
        ),
        Err(_) => None,
    }
}

/// Reads a PEM public key.
fn open_public_key(pem: &[u8]) -> (r: Option<PublicKey>)
    requires
        pem@.len() <= i32::MAX,
    ensures
        r is Some <==> public_pem_modulus(pem@) is Some,
        r matches Some(k) ==> Some(k.modulus()) == public_pem_modulus(pem@),
{
    match parse_public_key(pem) {
        Ok((key, modulus)) => Some(PublicKey { key, modulus }),
        Err(_) => None,
    }
}

/// Relies on SecVec::unsecure: borrows the secret bytes.
#[verifier::external_body]
fn secret_bytes(secret: &SecStr) -> (r: &[u8]) {
    secret.unsecure()
}

/// Relies on Zeroize for Vec: overwrites the bytes with zeros and clears it.
#[verifier::external_body]
fn erase(buf: &mut Vec<u8>)
    ensures
        final(buf)@.len() == 0,
{
    buf.zeroize();
}

/// Relies on std::str::from_utf8: the text is returned exactly when the
/// bytes are UTF-8.
#[verifier::external_body]
fn utf8_text(b: &[u8]) -> (r: Option<&str>)
    ensures
        r is Some <==> valid_utf8(b@),
        r matches Some(s) ==> s@ == decode_utf8(b@),
{
    std::str::from_utf8(b).ok()
}

/// Removes the zero bytes at the end.
pub open spec fn trim_trailing_nul(p: Seq<u8>) -> Seq<u8>
    decreases p.len(),
{
    if p.len() > 0 && p.last() == 0 {
        trim_trailing_nul(p.drop_last())
    } else {
        p
    }
}

/// The text that padded decrypted bytes stand for.
pub open spec fn plaintext_of(p: Seq<u8>) -> Option<Seq<char>> {
    if valid_utf8(trim_trailing_nul(p)) {
        Some(decode_utf8(trim_trailing_nul(p)))
    } else {
        None
    }
}

/// The UTF-8 bytes of a text do not end with a zero byte.
pub open spec fn no_trailing_nul(b: Seq<u8>) -> bool {
    b.len() == 0 || b.last() != 0
}

pub open spec fn all_zero(z: Seq<u8>) -> bool {
    forall|i: int| 0 <= i < z.len() ==> z[i] == 0
}

/// The ciphertext text that the bytes `ct` are sent as.
pub open spec fn ciphertext_text(ct: Seq<u8>) -> Seq<char> {
    decode_utf8(base64_encode(ct))
}

/// The longest plaintext that a key with this modulus can encrypt.
pub open spec fn plaintext_ceiling(modulus: u32) -> int {
    modulus - PKCS1_PADDING_OVERHEAD
}

/// Whether `len` bytes fit under the PKCS#1 v1.5 ceiling of a modulus.
pub fn plaintext_fits(len: usize, modulus: u32) -> (r: bool)
    ensures
        r == (len <= plaintext_ceiling(modulus)),
{
    modulus >= PKCS1_PADDING_OVERHEAD && len as u64 <= (modulus - PKCS1_PADDING_OVERHEAD) as u64
}

/// Whether a modulus of this size is accepted.
pub fn check_modulus_size(size: u32) -> (r: Result<(), CustodyError>)
    ensures
        r is Ok <==> size >= MIN_RSA_MODULUS_SIZE,
        r is Err ==> r == Err::<(), CustodyError>(CustodyError::KeyTooWeak),
{
    if size < MIN_RSA_MODULUS_SIZE {
        Err(CustodyError::KeyTooWeak)
    } else {
        Ok(())
    }
}

fn contains_nul(b: &[u8]) -> (r: bool)
    ensures
        r == b@.contains(0u8),
{
    let mut i: usize = 0;
    while i < b.len()
        invariant
            i <= b@.len(),
            forall|k: int| 0 <= k < i ==> b@[k] != 0,
        decreases b@.len() - i,
    {
        if b[i] == 0 {
            assert(b@[i as int] == 0);
            return true;
        }
        i = i + 1;
    }
    false
}

/// Turns the zero-padded bytes that decryption gives into text: the zero
/// bytes at the end are dropped, and the rest must be UTF-8.
pub fn plaintext_from_padded(p: &[u8]) -> (r: Result<String, CustodyError>)
    ensures
        match plaintext_of(p@) {
            Some(t) => r matches Ok(s) && s@ == t,
            None => r == Err::<String, CustodyError>(CustodyError::NonUtf8Plaintext),
        },
{
    let mut hi: usize = p.len();
    assert(p@.subrange(0, p@.len() as int) =~= p@);
    while hi > 0 && p[hi - 1] == 0
        invariant
            hi <= p@.len(),
            trim_trailing_nul(p@.subrange(0, hi as int)) == trim_trailing_nul(p@),
        decreases hi,
    {
        assert(p@.subrange(0, hi as int).drop_last() =~= p@.subrange(0, hi as int - 1));
        hi = hi - 1;
    }
    let mut kept: Vec<u8> = Vec::with_capacity(hi);
    let mut i: usize = 0;
    while i < hi
        invariant
            i <= hi <= p@.len(),
            kept@ =~= p@.subrange(0, i as int),
        decreases hi - i,
    {
        kept.push(p[i]);
        i = i + 1;
    }
    assert(trim_trailing_nul(kept@) == kept@);
    let r = match utf8_text(kept.as_slice()) {
        Some(t) => Ok(t.to_owned()),
        None => Err(CustodyError::NonUtf8Plaintext),
    };
    erase(&mut kept);
    r
}

proof fn lemma_trim_padded(b: Seq<u8>, z: Seq<u8>)
    requires
        no_trailing_nul(b),
        all_zero(z),
    ensures
        trim_trailing_nul(b + z) == b,
    decreases z.len(),
{
    let p = b + z;
    if z.len() == 0 {
        assert(p =~= b);
    } else {
        assert(p.last() == z.last());
        assert(p.drop_last() =~= b + z.drop_last());
        lemma_trim_padded(b, z.drop_last());
    }
}

proof fn lemma_ascii_valid_utf8(b: Seq<u8>)
    requires
        forall|i: int| 0 <= i < b.len() ==> b[i] < 128,
    ensures
        valid_utf8(b),
    decreases b.len(),
{
    if b.len() > 0 {
        let rest = b.subrange(1, b.len() as int);
        assert(vstd::utf8::pop_first_scalar(b) == rest);
        lemma_ascii_valid_utf8(rest);
    }
}

proof fn lemma_base64_ascii(ct: Seq<u8>)
    ensures
        valid_utf8(base64_encode(ct)),
        encode_utf8(ciphertext_text(ct)) == base64_encode(ct),
{
    let e = base64_encode(ct);
    assert forall|i: int| 0 <= i < e.len() implies e[i] < 128 by {
        let g = i / 4;
        let r = i % 4;
        if !((r == 2 && 3 * g + 1 >= ct.len()) || (r == 3 && 3 * g + 2 >= ct.len())) {
            assert(crate::base64::alphabet(crate::base64::group_sextet(ct, g, r)) < 128);
        }
    }
    lemma_ascii_valid_utf8(e);
    vstd::utf8::decode_utf8_encode_utf8(e);
}

/// Decryption undoes encryption, as far as this library computes it: the
/// text that `encrypt_str` sends for ciphertext bytes `ct` decodes back to
/// `ct` in `decrypt_str`, and a text that does not end with NUL comes back
/// unchanged from its UTF-8 bytes followed by the zero bytes that fill the
/// decryption buffer.
pub proof fn lemma_plaintext_recovered(x: Seq<char>, z: Seq<u8>, ct: Seq<u8>)
    requires
        no_trailing_nul(encode_utf8(x)),
        all_zero(z),
    ensures
        base64_decode(encode_utf8(ciphertext_text(ct))) == Some(ct),
        plaintext_of(encode_utf8(x) + z) == Some(x),
{
    lemma_trim_padded(encode_utf8(x), z);
    vstd::utf8::encode_utf8_valid_utf8(x);
    vstd::utf8::encode_utf8_decode_utf8(x);
    lemma_base64_ascii(ct);
    lemma_base64_round_trip(ct);
}

/// What loading a key pair from these PEM texts with this passphrase gives.
pub open spec fn load_outcome(private_pem: Seq<u8>, public_pem: Seq<u8>, passphrase: Seq<u8>) -> Result<
    (),
    CustodyError,
> {
    if private_pem.len() > i32::MAX {
        Err(CustodyError::CorruptKeyFile)
    } else if passphrase.contains(0u8) || private_pem_modulus(private_pem, passphrase) is None {
        Err(CustodyError::InvalidPassphrase)
    } else if public_pem.len() > i32::MAX {
        Err(CustodyError::CorruptKeyFile)
    } else {
        match public_pem_modulus(public_pem) {
            None => Err(CustodyError::CorruptKeyFile),
            Some(m) => if m < MIN_RSA_MODULUS_SIZE {
                Err(CustodyError::KeyTooWeak)
            } else {
                Ok(())
            },
        }
    }
}

/// What decrypting the base64 text `text` with the private key that `pem`
/// holds under `passphrase` gives.
pub open spec fn decrypt_outcome(pem: Seq<u8>, passphrase: Seq<u8>, text: Seq<char>) -> Result<
    Seq<char>,
    CustodyError,
> {
    match base64_decode(encode_utf8(text)) {
        None => Err(CustodyError::MalformedCiphertext),
        Some(ct) => if ct.len() > i32::MAX {
            Err(CustodyError::DecryptionFailed)
        } else {
            match pkcs1_decrypt_of(pem, passphrase, ct) {
                None => Err(CustodyError::DecryptionFailed),
                Some(p) => match plaintext_of(p) {
                    Some(t) => Ok(t),
                    None => Err(CustodyError::NonUtf8Plaintext),
                },
            }
        }
    }
}

/// Holds the RSA private and public key for encryption and decryption.
pub struct RsaKeys {
    pub rsa_private_key: Option<PrivateKey>,
    pub rsa_public_key: Option<PublicKey>,
}

impl RsaKeys {
    /// Both keys or neither, and a loaded public modulus of at least the
    /// minimum size.
    pub open spec fn wf(&self) -> bool {
        &&& (self.rsa_private_key is Some <==> self.rsa_public_key is Some)
        &&& (self.rsa_public_key matches Some(k) ==> k.modulus() >= MIN_RSA_MODULUS_SIZE)
    }

    /// No keys loaded.
    pub fn new() -> (r: RsaKeys)
        ensures
            r.rsa_private_key is None,
            r.rsa_public_key is None,
            r.wf(),
    {
        RsaKeys { rsa_private_key: None, rsa_public_key: None }
    }

    /// Installs an opened key pair: both keys, or, for a public modulus under
    /// the minimum, neither.
    fn install_keys(&mut self, private_key: PrivateKey, public_key: PublicKey) -> (r: Result<
        (),
        CustodyError,
    >)
        ensures
            r is Ok <==> public_key.modulus() >= MIN_RSA_MODULUS_SIZE,
            r is Ok ==> final(self).rsa_private_key == Some(private_key)
                && final(self).rsa_public_key == Some(public_key),
            r is Err ==> r == Err::<(), CustodyError>(CustodyError::KeyTooWeak) && *final(self)
                == *old(self),
    {
        match check_modulus_size(public_key.modulus) {
            Ok(()) => {
                self.rsa_private_key = Some(private_key);
                self.rsa_public_key = Some(public_key);
                Ok(())
            },
            Err(e) => Err(e),
        }
    }

    /// Loads the private key from its encrypted PEM text with the passphrase,
    /// and the public key from its PEM text. On any failure the keys held
    /// before stay as they were.
    pub fn read_from_files(
        &mut self,
        rsa_private_key_pem: &str,
        rsa_public_key_pem: &str,
        passphrase: &[u8],
    ) -> (r: Result<(), CustodyError>)
        ensures
            r == load_outcome(
                encode_utf8(rsa_private_key_pem@),
                encode_utf8(rsa_public_key_pem@),
                passphrase@,
            ),
            r is Err ==> *final(self) == *old(self),
            r is Ok ==> final(self).wf(),
            r is Ok ==> (final(self).rsa_private_key matches Some(k) && k.pem() == encode_utf8(
                rsa_private_key_pem@,
            ) && k.passphrase() == passphrase@),
            r is Ok ==> (final(self).rsa_public_key matches Some(k) && Some(k.modulus())
                == public_pem_modulus(encode_utf8(rsa_public_key_pem@))),
    {
        let private_pem = rsa_private_key_pem.as_bytes();
        let public_pem = rsa_public_key_pem.as_bytes();
        if private_pem.len() > i32::MAX as usize {
            return Err(CustodyError::CorruptKeyFile);
        }
        if contains_nul(passphrase) {
            return Err(CustodyError::InvalidPassphrase);
        }
        let private_key = match open_private_key(private_pem, passphrase) {
            Some(k) => k,
            None => {
                return Err(CustodyError::InvalidPassphrase);
            },
        };
        if public_pem.len() > i32::MAX as usize {
            return Err(CustodyError::CorruptKeyFile);
        }
        let public_key = match open_public_key(public_pem) {
            Some(k) => k,
            None => {
                return Err(CustodyError::CorruptKeyFile);
            },
        };
        match self.install_keys(private_key, public_key) {
            Ok(()) => Ok(()),
            Err(e) => Err(e),
        }
    }

    /// Loads the key pair with the passphrase handed over from its cell, which
    /// is consumed (and its memory overwritten) whatever the outcome.
    pub fn load_rsa_keys(
        &mut self,
        passphrase: Option<SecStr>,
        rsa_private_key_pem: &str,
        rsa_public_key_pem: &str,
    ) -> (r: Result<(), CustodyError>)
        ensures
            passphrase is None ==> r == Err::<(), CustodyError>(CustodyError::PassphraseNotSet),
            passphrase is Some ==> exists|b: Seq<u8>|
                r == #[trigger] load_outcome(
                    encode_utf8(rsa_private_key_pem@),
                    encode_utf8(rsa_public_key_pem@),
                    b,
                ),
            passphrase is Some && encode_utf8(rsa_private_key_pem@).len() > i32::MAX ==> r
                == Err::<(), CustodyError>(CustodyError::CorruptKeyFile),
            r is Err ==> *final(self) == *old(self),
            r is Ok ==> final(self).wf(),
            r is Ok ==> (final(self).rsa_private_key matches Some(k) && k.pem() == encode_utf8(
                rsa_private_key_pem@,
            )),
            r is Ok ==> (final(self).rsa_public_key matches Some(k) && Some(k.modulus())
                == public_pem_modulus(encode_utf8(rsa_public_key_pem@))),
    {
        match passphrase {
            Some(secret) => {
                let bytes = secret_bytes(&secret);
                let r = self.read_from_files(rsa_private_key_pem, rsa_public_key_pem, bytes);
                assert(r == load_outcome(
                    encode_utf8(rsa_private_key_pem@),
                    encode_utf8(rsa_public_key_pem@),
                    bytes@,
                ));
                r
            },
            None => Err(CustodyError::PassphraseNotSet),
        }
    }

    /// Encrypts the UTF-8 bytes of a text with the public key (PKCS#1 v1.5)
    /// and returns the ciphertext, one modulus long, as base64 text.
    pub fn encrypt_str(&self, plaintext_data: &str) -> (r: Result<String, CustodyError>)
        ensures
            self.rsa_public_key is None ==> r == Err::<String, CustodyError>(
                CustodyError::KeyNotLoaded,
            ),
            self.rsa_public_key matches Some(k) ==> ((encode_utf8(plaintext_data@).len()
                > plaintext_ceiling(k.modulus()) || encode_utf8(plaintext_data@).len() > i32::MAX)
                ==> r == Err::<String, CustodyError>(CustodyError::EncryptionFailed)),
            self.rsa_public_key is Some && r is Err ==> r == Err::<String, CustodyError>(
                CustodyError::EncryptionFailed,
            ),
            self.rsa_public_key matches Some(k) ==> (r matches Ok(s) ==> exists|ct: Seq<u8>|
                ct.len() == k.modulus() && #[trigger] ciphertext_text(ct) == s@),
    {
        let public_key = match &self.rsa_public_key {
            Some(k) => k,
            None => {
                return Err(CustodyError::KeyNotLoaded);
            },
        };
        let data = plaintext_data.as_bytes();
        if data.len() > i32::MAX as usize || !plaintext_fits(data.len(), public_key.modulus) {
            return Err(CustodyError::EncryptionFailed);
        }
        let ciphertext = match rsa_public_encrypt(public_key, data) {
            Ok(c) => c,
            Err(_) => {
                return Err(CustodyError::EncryptionFailed);
            },
        };
        if ciphertext.len() > usize::MAX / 2 {
            return Err(CustodyError::EncryptionFailed);
        }
        let text = encode(ciphertext.as_slice());
        proof {
            lemma_base64_ascii(ciphertext@);
        }
        match utf8_text(text.as_slice()) {
            Some(t) => {
                let s = t.to_owned();
                assert(ciphertext_text(ciphertext@) == s@);
                Ok(s)
            },
            None => Err(CustodyError::EncryptionFailed),
        }
    }

    /// Decodes base64 text, decrypts it with the private key (PKCS#1 v1.5),
    /// and returns the text that the decrypted bytes hold, without the zero
    /// bytes at its end.
    pub fn decrypt_str(&self, encrypted_data: &str) -> (r: Result<String, CustodyError>)
        ensures
            self.rsa_private_key is None ==> r == Err::<String, CustodyError>(
                CustodyError::KeyNotLoaded,
            ),
            self.rsa_private_key matches Some(k) ==> match decrypt_outcome(
                k.pem(),
                k.passphrase(),
                encrypted_data@,
            ) {
                Ok(t) => r matches Ok(s) && s@ == t,
                Err(e) => r == Err::<String, CustodyError>(e),
            },
    {
        let private_key = match &self.rsa_private_key {
            Some(k) => k,
            None => {
                return Err(CustodyError::KeyNotLoaded);
            },
        };
        let raw_data = match decode(encrypted_data.as_bytes()) {
            Some(b) => b,
            None => {
                return Err(CustodyError::MalformedCiphertext);
            },
        };
        if raw_data.len() > i32::MAX as usize {
            return Err(CustodyError::DecryptionFailed);
        }
        let mut padded = match rsa_private_decrypt(private_key, raw_data.as_slice()) {
            Ok(p) => p,
            Err(_) => {
                return Err(CustodyError::DecryptionFailed);
            },
        };
        let r = plaintext_from_padded(padded.as_slice());
        erase(&mut padded);
        r
    }
}

impl Default for RsaKeys {
    fn default() -> (r: Self)
        ensures
            r.rsa_private_key is None,
            r.rsa_public_key is None,
            r.wf(),
    {
        Self::new()
    }
}

/// Holds the passphrase for the RSA private key.
pub struct RsaPrivateKeyPassword {
    pub rsa_private_key_password: Option<SecStr>,
}

impl RsaPrivateKeyPassword {
    /// No passphrase set.
    pub fn new() -> (r: RsaPrivateKeyPassword)
        ensures
            r.rsa_private_key_password is None,
    {
        RsaPrivateKeyPassword { rsa_private_key_password: None }
    }

    /// Stores the passphrase that an administrator supplied.
    pub fn set_rsa_password(&mut self, passphrase: SecStr)
        ensures
            final(self).rsa_private_key_password == Some(passphrase),
    {
        self.rsa_private_key_password = Some(passphrase);
    }

    /// Hands the passphrase over for one use and leaves the cell empty.
    pub fn take_rsa_password(&mut self) -> (r: Option<SecStr>)
        ensures
            r == old(self).rsa_private_key_password,
            final(self).rsa_private_key_password is None,
    {
        self.rsa_private_key_password.take()
    }

    /// Empties the cell; the dropped passphrase overwrites its memory.
    pub fn clear_rsa_password(&mut self)
        ensures
            final(self).rsa_private_key_password is None,
    {
        self.rsa_private_key_password = None;
    }
}

} // verus!
