//! Stores the user's encryption secret in the OS credential store (macOS Keychain, Windows
//! Credential Manager, Linux Secret Service backed by keyutils) through the `keyring` crate,
//! instead of the plaintext key-value store. Where the build has no credential store that
//! keeps secrets beyond the process, the secret is not handed over and the caller keeps it
//! in the key-value store. What the store answers depends on the machine, so nothing is
//! claimed of it; every store and load returns a record of the service, account and secret
//! that were handed to the store, as the calls echo them back.

use keyring::Entry;
use vstd::prelude::*;

use crate::text::{decimal_text, push_decimal};

verus! {

#[verifier::external_type_specification]
#[verifier::external_body]
pub struct ExKeyringEntry(keyring::Entry);

#[verifier::external_type_specification]
#[verifier::external_body]
pub struct ExKeyringError(keyring::Error);

/// The credential store service under which secrets are kept.
pub const KEYCHAIN_SERVICE: &'static str = "appflowy";

/// How long the credential store that `keyring` uses by default keeps what it is given.
#[derive(Debug, Clone, Copy, PartialEq, Eq, Structural)]
pub enum StorePersistence {
    /// Kept in the entry object only (the mock store of builds without a platform store).
    EntryOnly,
    /// Kept in process memory.
    ProcessOnly,
    /// Kept until the machine reboots (kernel keyutils alone).
    UntilReboot,
    /// Kept until deleted (Keychain, Credential Manager, Secret Service).
    UntilDelete,
    /// A kind that this library does not know.
    Unknown,
}

/// Why the credential store did not take a secret, with the store's own words.
#[derive(Debug, Clone, PartialEq, Eq)]
pub enum SecureStorageError {
    /// This build has no credential store that keeps secrets beyond the process.
    Unavailable,
    /// The credential store refused the entry for the user.
    Entry(String),
    /// The credential store refused to store the secret.
    Store(String),
}

/// Calls `CredentialBuilderApi::persistence` of `keyring::default::default_credential_builder()`
/// (the store `Entry::new` uses unless a caller installs another builder) and tells its
/// variants apart. Which store a build uses is the build's: nothing is claimed of it.
#[verifier::external_body]
fn keyring_default_persistence() -> (persistence: StorePersistence) {
    match keyring::default::default_credential_builder().persistence() {
        keyring::credential::CredentialPersistence::EntryOnly => StorePersistence::EntryOnly,
        keyring::credential::CredentialPersistence::ProcessOnly => StorePersistence::ProcessOnly,
        keyring::credential::CredentialPersistence::UntilReboot => StorePersistence::UntilReboot,
        keyring::credential::CredentialPersistence::UntilDelete => StorePersistence::UntilDelete,
        _ => StorePersistence::Unknown,
    }
}

/// Calls `keyring::Entry::new(service, user)` and hands back, beside its result, copies of
/// the service and user that were handed to it. Whether the platform store accepts the
/// entry depends on the machine: nothing is claimed of that result.
#[verifier::external_body]
fn keyring_entry(service: &str, user: &str) -> (made: (Result<Entry, keyring::Error>, String, String))
    ensures
        made.1@ == service@,
        made.2@ == user@,
{
    (Entry::new(service, user), service.to_owned(), user.to_owned())
}

/// Calls `keyring::Entry::set_password` and hands back, beside its result, a copy of the
/// password that was handed to it. The outcome depends on the machine: nothing is claimed
/// of it.
#[verifier::external_body]
fn keyring_set_password(entry: &Entry, password: &str) -> (set: (Result<(), keyring::Error>, String))
    ensures
        set.1@ == password@,
{
    (entry.set_password(password), password.to_owned())
}

/// Calls `keyring::Entry::get_password`. What the store holds depends on the machine:
/// nothing is claimed of it.
#[verifier::external_body]
fn keyring_get_password(entry: &Entry) -> (password: Result<String, keyring::Error>) {
    entry.get_password()
}

/// Calls `Display::fmt` of `keyring::Error` (through `format!`): the store's description of
/// a failure. Nothing is claimed of the text.
#[verifier::external_body]
fn keyring_error_text(error: &keyring::Error) -> (text: String) {
    format!("{}", error)
}

/// The service name under which secrets are kept: `appflowy`.
pub open spec fn keychain_service_text() -> Seq<char> {
    KEYCHAIN_SERVICE@
}

/// The account name of a user's secret: `encrypt_secret:<uid>`.
pub open spec fn keychain_account_text(uid: int) -> Seq<char> {
    "encrypt_secret:"@ + decimal_text(uid)
}

/// The account name of a user's secret in the credential store.
pub fn keychain_account(uid: i64) -> (account: String)
    ensures
        account@ == keychain_account_text(uid as int),
{
    let mut account = <String as StringExecFns>::from_str("encrypt_secret:");
    push_decimal(&mut account, uid);
    account
}

/// The credential store entry of a user's secret, with the service and account that were
/// handed to the store: service `appflowy`, account `encrypt_secret:<uid>`.
fn entry(uid: i64) -> (made: (Result<Entry, keyring::Error>, String, String))
    ensures
        made.1@ == keychain_service_text(),
        made.2@ == keychain_account_text(uid as int),
{
    let account = keychain_account(uid);
    keyring_entry(KEYCHAIN_SERVICE, account.as_str())
}

/// One store of a secret, as values: the persistence of the store, the service and account
/// and secret handed to it (where nothing was handed, the ones meant), and its answer.
pub struct SecretOfferModel {
    pub persistence: StorePersistence,
    pub service: Seq<char>,
    pub account: Seq<char>,
    pub secret: Seq<char>,
    pub outcome: Result<(), SecureStorageError>,
    pub accepted: bool,
}

/// The record of one store of a secret in the credential store. Only
/// `store_encrypt_secret` builds one.
pub struct SecretOffer {
    persistence: StorePersistence,
    service: String,
    account: String,
    secret: String,
    outcome: Result<(), SecureStorageError>,
}

impl View for SecretOffer {
    type V = SecretOfferModel;

    closed spec fn view(&self) -> SecretOfferModel {
        SecretOfferModel {
            persistence: self.persistence,
            service: self.service@,
            account: self.account@,
            secret: self.secret@,
            outcome: self.outcome,
            accepted: self.outcome is Ok,
        }
    }
}

impl SecretOffer {
    /// How long the store that was used keeps secrets.
    pub fn persistence(&self) -> (persistence: &StorePersistence)
        ensures
            *persistence == self@.persistence,
    {
        &self.persistence
    }

    /// Whether the credential store took the secret.
    pub fn accepted(&self) -> (accepted: bool)
        ensures
            accepted == self@.accepted,
    {
        self.outcome.is_ok()
    }

    /// The account the secret was stored under.
    pub fn account(&self) -> (account: &String)
        ensures
            account@ == self@.account,
    {
        &self.account
    }

    /// The service the secret was stored under.
    pub fn service(&self) -> (service: &String)
        ensures
            service@ == self@.service,
    {
        &self.service
    }

    /// The secret that was stored.
    pub fn secret(&self) -> (secret: &String)
        ensures
            secret@ == self@.secret,
    {
        &self.secret
    }

    /// The store's answer.
    pub fn outcome(&self) -> (outcome: &Result<(), SecureStorageError>)
        ensures
            *outcome == self@.outcome,
            outcome is Ok <==> self@.accepted,
    {
        &self.outcome
    }
}

/// One load of a secret, as values: the persistence of the store, the service and account
/// handed to it (where nothing was handed, the ones meant), and the secret found, if any.
pub struct SecretLookupModel {
    pub persistence: StorePersistence,
    pub service: Seq<char>,
    pub account: Seq<char>,
    pub secret: Option<Seq<char>>,
}

/// The record of one load from the credential store. Only `load_encrypt_secret` builds one.
pub struct SecretLookup {
    persistence: StorePersistence,
    service: String,
    account: String,
    secret: Option<String>,
}

impl View for SecretLookup {
    type V = SecretLookupModel;

    closed spec fn view(&self) -> SecretLookupModel {
        SecretLookupModel {
            persistence: self.persistence,
            service: self.service@,
            account: self.account@,
            secret: match self.secret {
                Some(s) => Some(s@),
                None => None,
            },
        }
    }
}

impl SecretLookup {
    /// The account the lookup was made under.
    pub fn account(&self) -> (account: &String)
        ensures
            account@ == self@.account,
    {
        &self.account
    }

    /// The service the lookup was made under.
    pub fn service(&self) -> (service: &String)
        ensures
            service@ == self@.service,
    {
        &self.service
    }

    /// The secret found, if any.
    pub fn secret(&self) -> (secret: Option<String>)
        ensures
            match secret {
                Some(s) => self@.secret == Some(s@),
                None => self@.secret is None,
            },
    {
        match &self.secret {
            Some(s) => Some(s.clone()),
            None => None,
        }
    }
}

/// Stores the user's secret in the OS credential store under service `appflowy` and
/// account `encrypt_secret:<uid>`, and returns the record of what was handed to the store
/// and its answer. A build whose store does not keep secrets until they are deleted hands
/// nothing over and answers `Unavailable`.
pub fn store_encrypt_secret(uid: i64, secret: &str) -> (offer: SecretOffer)
    ensures
        offer@.service == keychain_service_text(),
        offer@.account == keychain_account_text(uid as int),
        offer@.secret == secret@,
        offer@.persistence != StorePersistence::UntilDelete ==> offer@.outcome == Err::<(), SecureStorageError>(
            SecureStorageError::Unavailable,
        ),
        offer@.persistence == StorePersistence::UntilDelete ==> offer@.outcome != Err::<(), SecureStorageError>(
            SecureStorageError::Unavailable,
        ),
{
    let persistence = keyring_default_persistence();
    if persistence != StorePersistence::UntilDelete {
        return SecretOffer {
            persistence,
            service: KEYCHAIN_SERVICE.to_owned(),
            account: keychain_account(uid),
            secret: secret.to_owned(),
            outcome: Err(SecureStorageError::Unavailable),
        };
    }
    let (made, service, account) = entry(uid);
    match made {
        Err(e) => SecretOffer {
            persistence,
            service,
            account,
            secret: secret.to_owned(),
            outcome: Err(SecureStorageError::Entry(keyring_error_text(&e))),
        },
        Ok(entry) => {
            let (set, handed) = keyring_set_password(&entry, secret);
            let outcome = match set {
                Ok(()) => Ok(()),
                Err(e) => Err(SecureStorageError::Store(keyring_error_text(&e))),
            };
            SecretOffer { persistence, service, account, secret: handed, outcome }
        },
    }
}

/// Loads the user's secret from the OS credential store under service `appflowy` and
/// account `encrypt_secret:<uid>`, and returns the record of what was asked and what was
/// found. A build whose store does not keep secrets until they are deleted asks nothing
/// and finds nothing.
pub fn load_encrypt_secret(uid: i64) -> (lookup: SecretLookup)
    ensures
        lookup@.service == keychain_service_text(),
        lookup@.account == keychain_account_text(uid as int),
        lookup@.persistence != StorePersistence::UntilDelete ==> lookup@.secret is None,
{
    let persistence = keyring_default_persistence();
    if persistence != StorePersistence::UntilDelete {
        return SecretLookup {
            persistence,
            service: KEYCHAIN_SERVICE.to_owned(),
            account: keychain_account(uid),
            secret: None,
        };
    }
    let (made, service, account) = entry(uid);
    let secret = match made {
        Err(_) => None,
        Ok(entry) => match keyring_get_password(&entry) {
            Ok(secret) => Some(secret),
            Err(_) => None,
        },
    };
    SecretLookup { persistence, service, account, secret }
}

} // verus!
