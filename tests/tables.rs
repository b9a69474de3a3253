use lmtyas_custody::base64::{decode, encode};
use lmtyas_custody::configuration::{ConfigurationError, ConfigurationFile, Imprint, Target};
use lmtyas_custody::sessions::{AuthError, SessionTable};
use lmtyas_custody::verification::{OidcVerificationData, VerificationError, VerificationTable};

fn admins() -> Vec<String> {
    vec!["alice".to_string()]
}

#[test]
fn base64_known_values() {
    assert_eq!(encode(b""), b"".to_vec());
    assert_eq!(encode(b"f"), b"Zg==".to_vec());
    assert_eq!(encode(b"fo"), b"Zm8=".to_vec());
    assert_eq!(encode(b"foo"), b"Zm9v".to_vec());
    assert_eq!(encode(b"hello"), b"aGVsbG8=".to_vec());
    assert_eq!(encode(&[0xfb, 0xff]), b"+/8=".to_vec());
    assert_eq!(decode(b"aGVsbG8="), Some(b"hello".to_vec()));
    assert_eq!(decode(b"Zm9vYmFy"), Some(b"foobar".to_vec()));
    assert_eq!(decode(b""), Some(Vec::new()));
}

#[test]
fn base64_rejects_malformed() {
    assert_eq!(decode(b"abc"), None);
    assert_eq!(decode(b"ab!="), None);
    assert_eq!(decode(b"a==="), None);
    assert_eq!(decode(b"=abc"), None);
}

#[test]
fn base64_round_trip_all_lengths() {
    let data: Vec<u8> = (0..=255u8).collect();
    for n in 0..data.len() {
        assert_eq!(decode(&encode(&data[..n])), Some(data[..n].to_vec()));
    }
}

#[test]
fn session_lookup_and_logout() {
    let mut t = SessionTable::new(admins(), 60);
    t.login("tok".to_string(), "bob".to_string(), 1000);
    let u = t.lookup(&"tok".to_string(), 1060).unwrap();
    assert_eq!(u.user_name, "bob");
    assert!(!u.is_admin);
    assert_eq!(u.expires_at, 1060);
    assert!(t.lookup(&"other".to_string(), 1000).is_none());
    assert!(t.logout(&"tok".to_string()));
    assert!(!t.logout(&"tok".to_string()));
    assert!(t.lookup(&"tok".to_string(), 1000).is_none());
}

#[test]
fn expired_session_rejected_before_sweep() {
    let mut t = SessionTable::new(admins(), 60);
    t.login("tok".to_string(), "bob".to_string(), 1000);
    assert!(t.lookup(&"tok".to_string(), 1061).is_none());
    assert_eq!(
        t.authorize(Some(&"tok".to_string()), 1061, false).err(),
        Some(AuthError::NotAuthenticated)
    );
    // not swept: a keep-alive cannot revive it either
    assert!(!t.keep_alive(&"tok".to_string(), 1061));
}

#[test]
fn keep_alive_extends_the_session() {
    let mut t = SessionTable::new(admins(), 60);
    t.login("tok".to_string(), "bob".to_string(), 1000);
    assert!(t.keep_alive(&"tok".to_string(), 1050));
    assert_eq!(t.lookup(&"tok".to_string(), 1110).unwrap().expires_at, 1110);
    assert!(t.lookup(&"tok".to_string(), 1111).is_none());
}

#[test]
fn sweep_removes_only_expired_sessions() {
    let mut t = SessionTable::new(admins(), 60);
    t.login("old".to_string(), "bob".to_string(), 1000);
    t.login("new".to_string(), "carol".to_string(), 1100);
    t.sweep(1100);
    assert!(!t.logout(&"old".to_string()));
    assert_eq!(t.lookup(&"new".to_string(), 1100).unwrap().user_name, "carol");
}

#[test]
fn gate_checks_token_and_admin() {
    let mut t = SessionTable::new(admins(), 60);
    t.login("a".to_string(), "alice".to_string(), 0);
    t.login("b".to_string(), "bob".to_string(), 0);
    assert_eq!(t.authorize(None, 0, false).err(), Some(AuthError::NotAuthenticated));
    assert_eq!(
        t.authorize(Some(&"zzz".to_string()), 0, false).err(),
        Some(AuthError::NotAuthenticated)
    );
    assert_eq!(t.authorize(Some(&"b".to_string()), 0, false).unwrap().user_name, "bob");
    assert_eq!(
        t.authorize(Some(&"b".to_string()), 0, true).err(),
        Some(AuthError::NotAdministrator)
    );
    let admin = t.authorize(Some(&"a".to_string()), 0, true).unwrap();
    assert!(admin.is_admin);
    assert!(t.is_admin(&"alice".to_string()));
    assert!(!t.is_admin(&"Alice".to_string()));
}

#[test]
fn login_again_replaces_the_session() {
    let mut t = SessionTable::new(admins(), 10);
    t.login("tok".to_string(), "bob".to_string(), 0);
    t.login("tok".to_string(), "alice".to_string(), 100);
    let u = t.lookup(&"tok".to_string(), 105).unwrap();
    assert_eq!(u.user_name, "alice");
    assert!(u.is_admin);
    assert!(t.logout(&"tok".to_string()));
    assert!(!t.logout(&"tok".to_string()));
}

#[test]
fn session_expiry_saturates() {
    let mut t = SessionTable::new(admins(), i64::MAX);
    t.login("tok".to_string(), "bob".to_string(), 10);
    assert_eq!(t.lookup(&"tok".to_string(), i64::MAX).unwrap().expires_at, i64::MAX);
}

fn record(nonce: &str, expires_at: i64) -> OidcVerificationData {
    OidcVerificationData {
        nonce: nonce.to_string(),
        issuer: "https://idp.example".to_string(),
        expires_at,
    }
}

#[test]
fn verification_record_consumed_once() {
    let mut t = VerificationTable::new();
    t.store("id1".to_string(), record("n1", 100));
    let r = t.callback(&"id1".to_string(), &"n1".to_string(), 50).unwrap();
    assert_eq!(r.issuer, "https://idp.example");
    assert_eq!(
        t.callback(&"id1".to_string(), &"n1".to_string(), 50).err(),
        Some(VerificationError::UnknownRecord)
    );
}

#[test]
fn verification_record_removed_on_failed_callback() {
    let mut t = VerificationTable::new();
    t.store("id1".to_string(), record("n1", 100));
    assert_eq!(
        t.callback(&"id1".to_string(), &"wrong".to_string(), 50).err(),
        Some(VerificationError::NonceMismatch)
    );
    assert_eq!(
        t.callback(&"id1".to_string(), &"n1".to_string(), 50).err(),
        Some(VerificationError::UnknownRecord)
    );
    t.store("id2".to_string(), record("n2", 100));
    assert_eq!(
        t.callback(&"id2".to_string(), &"n2".to_string(), 101).err(),
        Some(VerificationError::Expired)
    );
}

#[test]
fn verification_sweep() {
    let mut t = VerificationTable::new();
    t.store("a".to_string(), record("n", 10));
    t.store("b".to_string(), record("n", 20));
    t.sweep(15);
    assert_eq!(
        t.callback(&"a".to_string(), &"n".to_string(), 0).err(),
        Some(VerificationError::UnknownRecord)
    );
    assert!(t.callback(&"b".to_string(), &"n".to_string(), 0).is_ok());
}

fn config(fqdn: &str) -> ConfigurationFile {
    ConfigurationFile {
        web_bind_address: "127.0.0.1:8844".to_string(),
        ssl_private_key_file: "key.pem".to_string(),
        ssl_certificate_chain_file: "chain.pem".to_string(),
        rsa_private_key_file: "rsa_private.pem".to_string(),
        rsa_public_key_file: "rsa_public.pem".to_string(),
        secret_directory: "output/secrets".to_string(),
        admin_accounts: admins(),
        max_authrequest_age_seconds: 300,
        max_cookie_age_seconds: 60,
        fqdn: fqdn.to_string(),
        login_hint: "Benutzername".to_string(),
        mail_hint: None,
        imprint: Imprint { href: "https://www.example.com".to_string(), target: Target::Blank },
    }
}

#[test]
fn domain_of_fqdn() {
    assert_eq!(config("127.0.0.1:8844").get_domain(), "127.0.0.1");
    assert_eq!(config("example.com").get_domain(), "example.com");
    assert_eq!(config("a:b:c").get_domain(), "a");
    assert_eq!(config(":443").get_domain(), "");
    assert_eq!(config("").get_domain(), "");
}

#[test]
fn missing_key_files_stop_startup() {
    assert_eq!(ConfigurationFile::check_rsa_key_files(true, true), Ok(()));
    assert_eq!(
        ConfigurationFile::check_rsa_key_files(false, true),
        Err(ConfigurationError::MissingRsaPrivateKeyFile)
    );
    assert_eq!(
        ConfigurationFile::check_rsa_key_files(true, false),
        Err(ConfigurationError::MissingRsaPublicKeyFile)
    );
    assert_eq!(
        ConfigurationFile::check_rsa_key_files(false, false),
        Err(ConfigurationError::MissingRsaPrivateKeyFile)
    );
}
