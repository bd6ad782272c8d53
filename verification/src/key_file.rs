//! The local key file that holds the key-encryption key of the history
//! store, and the choices made when the store's keys are set up.

use vstd::prelude::*;
use crate::error::AppError;
use crate::keyring::{decode_data_key, generate_data_key};
use crate::primitives::base64_bytes;

verus! {

/// The key file's name once it is in use.
pub const KEY_FILE_NAME: &'static str = "synchalo.key";

/// The key file's name while the store it protects is being set up.
pub const PENDING_KEY_FILE_NAME: &'static str = ".synchalo.key.pending";

/// The text the key file starts with.
pub const KEY_FILE_MAGIC: &'static str = "SYNCHALO-LOCAL-KEY-V1\n";

/// The key file's length: the magic text, a source byte and the key.
pub const KEY_FILE_BYTES: usize = 55;

/// Where the key in the key file came from.
#[derive(Debug, Clone, Copy, PartialEq, Eq, Structural)]
pub enum LocalKeySource {
    /// Generated for a new store.
    Fresh,
    /// Moved from the system keychain, where an earlier version kept it.
    KeychainMigration,
}

/// The byte that records a source in the key file.
pub open spec fn source_byte(source: LocalKeySource) -> u8 {
    match source {
        LocalKeySource::Fresh => 1,
        LocalKeySource::KeychainMigration => 2,
    }
}

/// The source a byte of the key file records, if any.
pub open spec fn source_of_byte(b: u8) -> Option<LocalKeySource> {
    if b == 1 {
        Some(LocalKeySource::Fresh)
    } else if b == 2 {
        Some(LocalKeySource::KeychainMigration)
    } else {
        None
    }
}

/// The key file as read, and whether it was the pending one.
#[derive(Debug, Clone)]
pub struct LocalKeyFile {
    pub key: [u8; 32],
    pub source: LocalKeySource,
    pub pending: bool,
}

/// The bytes of the magic text.
pub open spec fn magic_bytes() -> Seq<u8> {
    KEY_FILE_MAGIC@.map_values(|c: char| c as u8)
}

/// The content of a key file.
pub open spec fn key_file_content(key: Seq<u8>, source: LocalKeySource) -> Seq<u8> {
    magic_bytes() + seq![source_byte(source)] + key
}

fn magic() -> (m: Vec<u8>)
    ensures
        m@ == magic_bytes(),
        m@.len() == 22,
{
    proof {
        reveal_strlit("SYNCHALO-LOCAL-KEY-V1\n");
    }
    let v: Vec<u8> = vec![
        83u8, 89, 78, 67, 72, 65, 76, 79, 45, 76, 79, 67, 65, 76, 45, 75, 69, 89, 45, 86, 49, 10,
    ];
    assert(v@ =~= magic_bytes());
    v
}

/// The content of a key file for `key` from `source`.
pub fn encode_key_file(key: &[u8; 32], source: LocalKeySource) -> (bytes: Vec<u8>)
    ensures
        bytes@ == key_file_content(key@, source),
        bytes@.len() == KEY_FILE_BYTES,
{
    let mut bytes = magic();
    let b: u8 = match source {
        LocalKeySource::Fresh => 1,
        LocalKeySource::KeychainMigration => 2,
    };
    bytes.push(b);
    let mut i: usize = 0;
    let ghost head = bytes@;
    while i < 32
        invariant
            i <= 32,
            head == magic_bytes() + seq![source_byte(source)],
            bytes@ == head + key@.subrange(0, i as int),
        decreases 32 - i,
    {
        bytes.push(key[i]);
        i = i + 1;
        assert(bytes@ =~= head + key@.subrange(0, i as int));
    }
    assert(key@.subrange(0, 32) =~= key@);
    bytes
}

/// Reads the content of a key file: it must be the magic text, a known
/// source byte and a 32-byte key, and nothing more.
pub fn parse_key_file(bytes: &[u8], pending: bool) -> (r: Result<LocalKeyFile, AppError>)
    ensures
        bytes@.len() != KEY_FILE_BYTES || bytes@.subrange(0, 22) != magic_bytes() ==> (r matches Err(
            AppError::Storage(m),
        ) && m@ == "invalid local key file"@),
        bytes@.len() == KEY_FILE_BYTES && bytes@.subrange(0, 22) == magic_bytes() ==> match source_of_byte(
            bytes@[22],
        ) {
            Some(s) => r matches Ok(f) && f.source == s && f.key@ == bytes@.subrange(23, 55) && f.pending
                == pending,
            None => r matches Err(AppError::Storage(m)) && m@ == "invalid local key source"@,
        },
{
    let m = magic();
    if bytes.len() != KEY_FILE_BYTES {
        return Err(AppError::Storage(String::from_str("invalid local key file")));
    }
    let mut i: usize = 0;
    while i < 22
        invariant
            i <= 22,
            bytes@.len() == KEY_FILE_BYTES,
            m@ == magic_bytes(),
            m@.len() == 22,
            forall|j: int| 0 <= j < i ==> bytes@[j] == m@[j],
        decreases 22 - i,
    {
        if bytes[i] != m[i] {
            proof {
                assert(bytes@.subrange(0, 22)[i as int] != magic_bytes()[i as int]);
            }
            return Err(AppError::Storage(String::from_str("invalid local key file")));
        }
        i = i + 1;
    }
    assert(bytes@.subrange(0, 22) =~= magic_bytes());
    let source = match bytes[22] {
        1u8 => LocalKeySource::Fresh,
        2u8 => LocalKeySource::KeychainMigration,
        _ => return Err(AppError::Storage(String::from_str("invalid local key source"))),
    };
    let mut key = [0u8; 32];
    let mut k: usize = 0;
    while k < 32
        invariant
            k <= 32,
            bytes@.len() == KEY_FILE_BYTES,
            forall|j: int| 0 <= j < k ==> key@[j] == bytes@[23 + j],
        decreases 32 - k,
    {
        key[k] = bytes[23 + k];
        k = k + 1;
    }
    assert(key@ =~= bytes@.subrange(23, 55));
    Ok(LocalKeyFile { key, source, pending })
}

/// A key file written for a key reads back as that key, from the same
/// source.
pub proof fn lemma_key_file_round_trip(key: Seq<u8>, source: LocalKeySource)
    requires
        key.len() == 32,
    ensures
        key_file_content(key, source).len() == KEY_FILE_BYTES,
        key_file_content(key, source).subrange(0, 22) == magic_bytes(),
        source_of_byte(key_file_content(key, source)[22]) == Some(source),
        key_file_content(key, source).subrange(23, 55) == key,
{
    reveal_strlit("SYNCHALO-LOCAL-KEY-V1\n");
    let c = key_file_content(key, source);
    assert(magic_bytes().len() == 22);
    assert(c.subrange(0, 22) =~= magic_bytes());
    assert(c.subrange(23, 55) =~= key);
}

/// Which key file to read: the one in use if present (`Some(false)`), else
/// the pending one (`Some(true)`), else none.
pub fn key_file_to_read(final_exists: bool, pending_exists: bool) -> (r: Option<bool>)
    ensures
        final_exists ==> r == Some(false),
        !final_exists && pending_exists ==> r == Some(true),
        !final_exists && !pending_exists ==> r is None,
{
    if final_exists {
        Some(false)
    } else if pending_exists {
        Some(true)
    } else {
        None
    }
}

/// Refuses to put the pending key file in use when one is already in use.
pub fn check_finalize(final_exists: bool) -> (r: Result<(), AppError>)
    ensures
        final_exists ==> (r matches Err(AppError::Storage(m)) && m@
            == "local key already finalized while a migration key is pending"@),
        !final_exists ==> r is Ok,
{
    if final_exists {
        Err(AppError::Storage(String::from_str("local key already finalized while a migration key is pending")))
    } else {
        Ok(())
    }
}

/// How the store's keys are set up at start.
#[derive(Debug, Clone, Copy, PartialEq, Eq, Structural)]
pub enum KeyBootstrapPlan {
    /// Use the key file; `load_legacy_key` when a migration from the
    /// keychain is still pending.
    UseKeyFile { load_legacy_key: bool },
    /// An existing store without key file: take its keys from the keychain.
    MigrateFromKeychain,
    /// No store yet: generate a new key.
    Fresh,
}

/// The setup: the key file when there is one (with the keychain's legacy
/// data key while its migration is pending), else the keychain for an
/// existing store, else a fresh key.
pub fn key_bootstrap_plan(key_file: Option<(LocalKeySource, bool)>, database_exists: bool) -> (plan:
    KeyBootstrapPlan)
    ensures
        match key_file {
            Some((source, pending)) => plan == KeyBootstrapPlan::UseKeyFile {
                load_legacy_key: pending && source == LocalKeySource::KeychainMigration,
            },
            None => if database_exists {
                plan == KeyBootstrapPlan::MigrateFromKeychain
            } else {
                plan == KeyBootstrapPlan::Fresh
            },
        },
{
    match key_file {
        Some((source, pending)) => KeyBootstrapPlan::UseKeyFile {
            load_legacy_key: pending && source == LocalKeySource::KeychainMigration,
        },
        None => if database_exists {
            KeyBootstrapPlan::MigrateFromKeychain
        } else {
            KeyBootstrapPlan::Fresh
        },
    }
}

/// Where the transport credentials come from when the store has none yet.
#[derive(Debug, Clone, Copy, PartialEq, Eq, Structural)]
pub enum CredentialSource {
    Keychain,
    Generate,
}

/// The source of missing transport credentials: the keychain during a
/// migration, fresh ones for a new store or a store without identity; a
/// store that has an identity but lost its credentials is an error.
pub fn missing_credentials_source(pending_source: Option<LocalKeySource>, has_identity: bool) -> (r: Result<
    CredentialSource,
    AppError,
>)
    ensures
        pending_source == Some(LocalKeySource::KeychainMigration) ==> r == Ok::<
            CredentialSource,
            AppError,
        >(CredentialSource::Keychain),
        pending_source == Some(LocalKeySource::Fresh) ==> r == Ok::<CredentialSource, AppError>(
            CredentialSource::Generate,
        ),
        pending_source is None && !has_identity ==> r == Ok::<CredentialSource, AppError>(
            CredentialSource::Generate,
        ),
        pending_source is None && has_identity ==> (r matches Err(AppError::Storage(m)) && m@
            == "encrypted transport credentials are missing"@),
{
    match pending_source {
        Some(LocalKeySource::KeychainMigration) => Ok(CredentialSource::Keychain),
        Some(LocalKeySource::Fresh) => Ok(CredentialSource::Generate),
        None => if !has_identity {
            Ok(CredentialSource::Generate)
        } else {
            Err(AppError::Storage(String::from_str("encrypted transport credentials are missing")))
        },
    }
}

/// The outcome of looking a secret up in the system keychain.
#[derive(Debug, Clone)]
pub enum SecretLookup {
    Found(String),
    Missing,
    Failed(String),
}

/// The error a keychain failure reports.
pub open spec fn keychain_error_text(message: Seq<char>) -> Seq<char> {
    "keychain migration failed: "@ + message
}

fn keychain_error(message: &str) -> (e: AppError)
    ensures
        e matches AppError::Storage(m) && m@ == keychain_error_text(message@),
{
    AppError::Storage(crate::text::concat2("keychain migration failed: ", message))
}

/// The optional legacy data key in the keychain.
pub fn optional_legacy_key(lookup: SecretLookup) -> (r: Result<Option<[u8; 32]>, AppError>)
    ensures
        match lookup {
            SecretLookup::Found(text) => match base64_bytes(text@) {
                Some(b) => if b.len() == 32 {
                    r matches Ok(Some(k)) && k@ == b
                } else {
                    r matches Err(AppError::Crypto)
                },
                None => r matches Err(AppError::Crypto),
            },
            SecretLookup::Missing => r matches Ok(None),
            SecretLookup::Failed(m) => r matches Err(AppError::Storage(t)) && t@ == keychain_error_text(m@),
        },
{
    match lookup {
        SecretLookup::Found(text) => {
            let key = decode_data_key(text.as_str())?;
            Ok(Some(key))
        },
        SecretLookup::Missing => Ok(None),
        SecretLookup::Failed(m) => Err(keychain_error(m.as_str())),
    }
}

/// The keys an existing store without key file takes from the keychain:
/// the stored key-encryption key and the legacy data key if there is one;
/// or, when no key-encryption key was stored, a fresh one with the legacy
/// data key, which must then exist.
pub fn keychain_key_material(kek: SecretLookup, legacy: SecretLookup) -> (r: Result<
    ([u8; 32], Option<[u8; 32]>),
    AppError,
>)
    ensures
        kek matches SecretLookup::Failed(m) ==> (r matches Err(AppError::Storage(t)) && t@
            == keychain_error_text(m@)),
        kek matches SecretLookup::Found(text) ==> match base64_bytes(text@) {
            Some(b) => if b.len() == 32 {
                match legacy {
                    SecretLookup::Failed(m) => r matches Err(AppError::Storage(t)) && t@ == keychain_error_text(m@),
                    SecretLookup::Missing => r matches Ok((k, None)) && k@ == b,
                    SecretLookup::Found(l) => match base64_bytes(l@) {
                        Some(lb) => if lb.len() == 32 {
                            r matches Ok((k, Some(lk))) && k@ == b && lk@ == lb
                        } else {
                            r matches Err(AppError::Crypto)
                        },
                        None => r matches Err(AppError::Crypto),
                    },
                }
            } else {
                r matches Err(AppError::Crypto)
            },
            None => r matches Err(AppError::Crypto),
        },
        kek is Missing ==> match legacy {
            SecretLookup::Missing => r matches Err(AppError::Storage(t)) && t@
                == "existing database key is unavailable"@,
            SecretLookup::Failed(m) => r matches Err(AppError::Storage(t)) && t@ == keychain_error_text(m@),
            SecretLookup::Found(l) => match base64_bytes(l@) {
                Some(lb) => if lb.len() == 32 {
                    (r matches Ok((_, Some(lk))) && lk@ == lb) || r matches Err(AppError::Crypto)
                } else {
                    r matches Err(AppError::Crypto)
                },
                None => r matches Err(AppError::Crypto),
            },
        },
{
    match kek {
        SecretLookup::Found(text) => {
            let key = decode_data_key(text.as_str())?;
            let legacy_key = optional_legacy_key(legacy)?;
            Ok((key, legacy_key))
        },
        SecretLookup::Missing => {
            let legacy_key = match optional_legacy_key(legacy)? {
                Some(k) => k,
                None => return Err(AppError::Storage(String::from_str("existing database key is unavailable"))),
            };
            let fresh = generate_data_key()?;
            Ok((fresh, Some(legacy_key)))
        },
        SecretLookup::Failed(m) => Err(keychain_error(m.as_str())),
    }
}

} // verus!
