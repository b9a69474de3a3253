use lmtyas_custody::base64::decode;
use lmtyas_custody::rsa_functions::{
    check_modulus_size, plaintext_fits, plaintext_from_padded, CustodyError, RsaKeys,
    RsaPrivateKeyPassword,
};
use openssl::rsa::Rsa;
use openssl::symm::Cipher;
use secstr::SecStr;

const PASSPHRASE: &str = "correct horse battery staple";

fn key_pair_pem(bits: u32, passphrase: &str) -> (String, String) {
    let rsa = Rsa::generate(bits).unwrap();
    let private_pem = rsa
        .private_key_to_pem_passphrase(Cipher::aes_256_cbc(), passphrase.as_bytes())
        .unwrap();
    let public_pem = rsa.public_key_to_pem().unwrap();
    (
        String::from_utf8(private_pem).unwrap(),
        String::from_utf8(public_pem).unwrap(),
    )
}

fn secret(s: &str) -> SecStr {
    SecStr::from(s)
}

fn loaded_keys() -> RsaKeys {
    let (private_pem, public_pem) = key_pair_pem(2048, PASSPHRASE);
    let mut keys = RsaKeys::new();
    keys.read_from_files(&private_pem, &public_pem, PASSPHRASE.as_bytes())
        .unwrap();
    keys
}

#[test]
fn encrypt_then_decrypt_hello() {
    let keys = loaded_keys();
    let encrypted = keys.encrypt_str("hello").unwrap();
    assert_ne!(encrypted, "hello");
    // 256 bytes of ciphertext are 344 base64 characters
    assert_eq!(encrypted.len(), 344);
    assert_eq!(decode(encrypted.as_bytes()).unwrap().len(), 256);
    assert_eq!(keys.decrypt_str(&encrypted).unwrap(), "hello");
}

#[test]
fn encrypt_300_bytes_fails() {
    let keys = loaded_keys();
    let long = "a".repeat(300);
    assert_eq!(keys.encrypt_str(&long), Err(CustodyError::EncryptionFailed));
}

#[test]
fn encrypt_at_the_ceiling() {
    let keys = loaded_keys();
    let at_ceiling = "b".repeat(245);
    let encrypted = keys.encrypt_str(&at_ceiling).unwrap();
    assert_eq!(keys.decrypt_str(&encrypted).unwrap(), at_ceiling);
    let over = "b".repeat(246);
    assert_eq!(keys.encrypt_str(&over), Err(CustodyError::EncryptionFailed));
}

#[test]
fn round_trip_of_several_texts() {
    let keys = loaded_keys();
    for text in ["", "x", "grüße, 世界", "line one\nline two", "{\"secret\":\"42\"}"] {
        let encrypted = keys.encrypt_str(text).unwrap();
        assert_eq!(keys.decrypt_str(&encrypted).unwrap(), text);
    }
}

#[test]
fn two_encryptions_differ_and_both_decrypt() {
    let keys = loaded_keys();
    let first = keys.encrypt_str("same text").unwrap();
    let second = keys.encrypt_str("same text").unwrap();
    assert_ne!(first, second);
    assert_eq!(keys.decrypt_str(&first).unwrap(), "same text");
    assert_eq!(keys.decrypt_str(&second).unwrap(), "same text");
}

#[test]
fn wrong_passphrase_is_refused() {
    let (private_pem, public_pem) = key_pair_pem(2048, PASSPHRASE);
    let mut keys = RsaKeys::new();
    let r = keys.read_from_files(&private_pem, &public_pem, b"wrong");
    assert_eq!(r, Err(CustodyError::InvalidPassphrase));
    assert!(keys.rsa_private_key.is_none());
    assert!(keys.rsa_public_key.is_none());
}

#[test]
fn passphrase_with_nul_is_refused() {
    let (private_pem, public_pem) = key_pair_pem(2048, PASSPHRASE);
    let mut keys = RsaKeys::new();
    let r = keys.read_from_files(&private_pem, &public_pem, b"bad\0pass");
    assert_eq!(r, Err(CustodyError::InvalidPassphrase));
}

#[test]
fn corrupt_public_key_is_refused() {
    let (private_pem, _) = key_pair_pem(2048, PASSPHRASE);
    let mut keys = RsaKeys::new();
    let r = keys.read_from_files(&private_pem, "not a key", PASSPHRASE.as_bytes());
    assert_eq!(r, Err(CustodyError::CorruptKeyFile));
    assert!(keys.rsa_private_key.is_none());
}

#[test]
fn weak_key_is_refused_and_old_pair_kept() {
    let mut keys = loaded_keys();
    let encrypted = keys.encrypt_str("kept").unwrap();
    let (weak_private, weak_public) = key_pair_pem(1024, PASSPHRASE);
    let r = keys.read_from_files(&weak_private, &weak_public, PASSPHRASE.as_bytes());
    assert_eq!(r, Err(CustodyError::KeyTooWeak));
    assert_eq!(keys.decrypt_str(&encrypted).unwrap(), "kept");
}

#[test]
fn weak_key_on_empty_custodian_leaves_it_empty() {
    let (weak_private, weak_public) = key_pair_pem(1024, PASSPHRASE);
    let mut keys = RsaKeys::new();
    let r = keys.read_from_files(&weak_private, &weak_public, PASSPHRASE.as_bytes());
    assert_eq!(r, Err(CustodyError::KeyTooWeak));
    assert!(keys.rsa_private_key.is_none());
    assert!(keys.rsa_public_key.is_none());
}

#[test]
fn text_with_leading_nul_round_trips() {
    let keys = loaded_keys();
    let text = "\0\0abc";
    let encrypted = keys.encrypt_str(text).unwrap();
    assert_eq!(keys.decrypt_str(&encrypted).unwrap(), text);
}

#[test]
fn corrupt_private_key_is_refused() {
    let (_, public_pem) = key_pair_pem(2048, PASSPHRASE);
    let mut keys = RsaKeys::new();
    let r = keys.read_from_files("garbage", &public_pem, PASSPHRASE.as_bytes());
    assert_eq!(r, Err(CustodyError::InvalidPassphrase));
    assert!(keys.rsa_private_key.is_none());
}

#[test]
fn operations_before_load_fail_key_not_loaded() {
    let keys = RsaKeys::new();
    assert_eq!(keys.encrypt_str("hello"), Err(CustodyError::KeyNotLoaded));
    assert_eq!(keys.decrypt_str("aGVsbG8="), Err(CustodyError::KeyNotLoaded));
    assert_eq!(keys.decrypt_str("%%%"), Err(CustodyError::KeyNotLoaded));
}

#[test]
fn decrypt_of_non_base64_is_malformed() {
    let keys = loaded_keys();
    assert_eq!(keys.decrypt_str("not base64!"), Err(CustodyError::MalformedCiphertext));
    assert_eq!(keys.decrypt_str("abc"), Err(CustodyError::MalformedCiphertext));
}

#[test]
fn decrypt_of_wrong_ciphertext_fails() {
    let keys = loaded_keys();
    assert_eq!(keys.decrypt_str("aGVsbG8="), Err(CustodyError::DecryptionFailed));
}

#[test]
fn load_without_passphrase_fails() {
    let (private_pem, public_pem) = key_pair_pem(2048, PASSPHRASE);
    let mut keys = RsaKeys::new();
    assert_eq!(
        keys.load_rsa_keys(None, &private_pem, &public_pem),
        Err(CustodyError::PassphraseNotSet)
    );
    assert!(keys.rsa_private_key.is_none());
}

#[test]
fn passphrase_cell_is_empty_after_load() {
    let (private_pem, public_pem) = key_pair_pem(2048, PASSPHRASE);
    let mut cell = RsaPrivateKeyPassword::new();
    let mut keys = RsaKeys::new();
    cell.set_rsa_password(secret(PASSPHRASE));
    let r = keys.load_rsa_keys(cell.take_rsa_password(), &private_pem, &public_pem);
    assert_eq!(r, Ok(()));
    assert!(cell.rsa_private_key_password.is_none());
    cell.set_rsa_password(secret("wrong"));
    let r = keys.load_rsa_keys(cell.take_rsa_password(), &private_pem, &public_pem);
    assert_eq!(r, Err(CustodyError::InvalidPassphrase));
    assert!(cell.rsa_private_key_password.is_none());
    // the pair loaded first is still there
    let encrypted = keys.encrypt_str("still loaded").unwrap();
    assert_eq!(keys.decrypt_str(&encrypted).unwrap(), "still loaded");
}

#[test]
fn clear_password_keeps_keys() {
    let keys = loaded_keys();
    let mut cell = RsaPrivateKeyPassword::new();
    cell.set_rsa_password(secret(PASSPHRASE));
    cell.clear_rsa_password();
    assert!(cell.rsa_private_key_password.is_none());
    cell.clear_rsa_password();
    assert!(cell.rsa_private_key_password.is_none());
    assert!(keys.encrypt_str("x").is_ok());
}

#[test]
fn padded_plaintext_is_trimmed() {
    assert_eq!(plaintext_from_padded(b"hello\0\0\0").unwrap(), "hello");
    assert_eq!(plaintext_from_padded(b"\0\0hi\0").unwrap(), "\0\0hi");
    assert_eq!(plaintext_from_padded(b"a\0b\0").unwrap(), "a\0b");
    assert_eq!(plaintext_from_padded(b"\0\0\0").unwrap(), "");
    assert_eq!(plaintext_from_padded(b"").unwrap(), "");
}

#[test]
fn padded_plaintext_must_be_utf8() {
    assert_eq!(
        plaintext_from_padded(&[0x66, 0xff, 0x00]),
        Err(CustodyError::NonUtf8Plaintext)
    );
}

#[test]
fn plaintext_ceiling_of_a_2048_bit_key() {
    assert!(plaintext_fits(245, 256));
    assert!(!plaintext_fits(246, 256));
    assert!(!plaintext_fits(300, 256));
    assert!(plaintext_fits(0, 11));
    assert!(!plaintext_fits(0, 10));
}

#[test]
fn modulus_minimum() {
    assert_eq!(check_modulus_size(256), Ok(()));
    assert_eq!(check_modulus_size(512), Ok(()));
    assert_eq!(check_modulus_size(128), Err(CustodyError::KeyTooWeak));
    assert_eq!(check_modulus_size(255), Err(CustodyError::KeyTooWeak));
}

#[test]
fn error_messages() {
    assert_eq!(
        CustodyError::PassphraseNotSet.message(),
        "Password not set, inform system administrator"
    );
    assert_eq!(CustodyError::KeyTooWeak.message(), "RSA key size too small");
    assert_eq!(
        CustodyError::MalformedCiphertext.message(),
        "Could not base64 decode given value"
    );
}
