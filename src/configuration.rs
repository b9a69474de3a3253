//! The service configuration and the checks made on it at startup.
use vstd::prelude::*;

verus! {

/// Cipher suites accepted by the TLS listener: the TLS 1.3 AEAD suites and
/// the ECDHE / DHE suites with GCM or ChaCha20-Poly1305 for TLS 1.2.
pub const CIPHER_LIST: &'static str = "TLS_AES_128_GCM_SHA256:TLS_AES_256_GCM_SHA384:TLS_CHACHA20_POLY1305_SHA256:ECDHE-ECDSA-AES128-GCM-SHA256:ECDHE-RSA-AES128-GCM-SHA256:ECDHE-ECDSA-AES256-GCM-SHA384:ECDHE-RSA-AES256-GCM-SHA384:ECDHE-ECDSA-CHACHA20-POLY1305:ECDHE-RSA-CHACHA20-POLY1305:DHE-RSA-AES128-GCM-SHA256:DHE-RSA-AES256-GCM-SHA384";

/// Valid targets for opening the link to the imprint page.
#[derive(Clone, Copy, Debug, PartialEq, Eq, Structural)]
pub enum Target {
    Blank,
    _Self,
    Parent,
    Top,
}

/// Link information for the imprint page.
#[derive(Clone, Debug)]
pub struct Imprint {
    pub href: String,
    pub target: Target,
}

/// The entries of the configuration file.
#[derive(Clone, Debug)]
pub struct ConfigurationFile {
    pub web_bind_address: String,
    pub ssl_private_key_file: String,
    pub ssl_certificate_chain_file: String,
    pub rsa_private_key_file: String,
    pub rsa_public_key_file: String,
    pub secret_directory: String,
    pub admin_accounts: Vec<String>,
    pub max_authrequest_age_seconds: i64,
    pub max_cookie_age_seconds: i64,
    pub fqdn: String,
    pub login_hint: String,
    pub mail_hint: Option<String>,
    pub imprint: Imprint,
}

/// Why a configuration cannot be used.
#[derive(Clone, Copy, Debug, PartialEq, Eq, Structural)]
pub enum ConfigurationError {
    /// The RSA private key file named in the configuration does not exist.
    MissingRsaPrivateKeyFile,
    /// The RSA public key file named in the configuration does not exist.
    MissingRsaPublicKeyFile,
}

/// `d` is the part of `f` before its first `:`, or all of `f` when it has none.
pub open spec fn is_domain_part(f: Seq<char>, d: Seq<char>) -> bool {
    &&& d.len() <= f.len()
    &&& d == f.subrange(0, d.len() as int)
    &&& !d.contains(':')
    &&& (d.len() == f.len() || f[d.len() as int] == ':')
}

impl ConfigurationFile {
    /// The domain part of the stored fqdn, which has the form
    /// `<domain>` or `<domain>:<port>`.
    pub fn get_domain(&self) -> (r: String)
        ensures
            is_domain_part(self.fqdn@, r@),
    {
        let fqdn = self.fqdn.as_str();
        let n = fqdn.unicode_len();
        let mut i: usize = 0;
        while i < n && fqdn.get_char(i) != ':'
            invariant
                n == fqdn@.len(),
                i <= n,
                forall|j: int| 0 <= j < i ==> fqdn@[j] != ':',
            decreases n - i,
        {
            i = i + 1;
        }
        let d = fqdn.substring_char(0, i).to_owned();
        proof {
            if d@.contains(':') {
                let j = choose|j: int| 0 <= j < d@.len() && d@[j] == ':';
                assert(fqdn@[j] == ':');
            }
        }
        d
    }

    /// The service must not start when an RSA key file is missing: the keys
    /// are read later, once an administrator supplies the passphrase.
    pub fn check_rsa_key_files(private_key_file_exists: bool, public_key_file_exists: bool) -> (r:
        Result<(), ConfigurationError>)
        ensures
            !private_key_file_exists ==> r == Err::<(), ConfigurationError>(
                ConfigurationError::MissingRsaPrivateKeyFile,
            ),
            private_key_file_exists && !public_key_file_exists ==> r == Err::<
                (),
                ConfigurationError,
            >(ConfigurationError::MissingRsaPublicKeyFile),
            private_key_file_exists && public_key_file_exists ==> r is Ok,
    {
        if !private_key_file_exists {
            Err(ConfigurationError::MissingRsaPrivateKeyFile)
        } else if !public_key_file_exists {
            Err(ConfigurationError::MissingRsaPublicKeyFile)
        } else {
            Ok(())
        }
    }
}

} // verus!
