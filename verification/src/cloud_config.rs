//! The user's cloud configuration and the decisions that keep its encryption secret out of
//! the key-value store: before a write the secret moves to the OS credential store where it
//! is available, and after a read it is filled back in (or, for a secret that predates the
//! credential store, moved there). The key-value store itself is driven by the caller.

use vstd::prelude::*;

use crate::secure_storage::{
    keychain_account, keychain_account_text, keychain_service_text, load_encrypt_secret,
    store_encrypt_secret, KEYCHAIN_SERVICE,
    SecretLookup, SecretLookupModel, SecretOffer, SecretOfferModel,
};
use crate::text::{decimal_text, push_decimal};

verus! {

/// A user's cloud configuration.
#[derive(Debug, Clone)]
pub struct UserCloudConfig {
    pub enable_sync: bool,
    pub enable_encrypt: bool,
    pub encrypt_secret: String,
}

/// A cloud configuration as values.
pub struct CloudConfigModel {
    pub enable_sync: bool,
    pub enable_encrypt: bool,
    pub encrypt_secret: Seq<char>,
}

impl View for UserCloudConfig {
    type V = CloudConfigModel;

    open spec fn view(&self) -> CloudConfigModel {
        CloudConfigModel {
            enable_sync: self.enable_sync,
            enable_encrypt: self.enable_encrypt,
            encrypt_secret: self.encrypt_secret@,
        }
    }
}

/// The configuration with another secret.
pub open spec fn with_secret(config: CloudConfigModel, secret: Seq<char>) -> CloudConfigModel {
    CloudConfigModel { encrypt_secret: secret, ..config }
}

/// The copy of a configuration that goes to the key-value store, given whether the
/// credential store took its secret: the secret is left out only where it was non-empty
/// and the credential store took it.
pub open spec fn stored_form(config: CloudConfigModel, secret_in_credential_store: bool) -> CloudConfigModel {
    if config.encrypt_secret.len() > 0 && secret_in_credential_store {
        with_secret(config, Seq::empty())
    } else {
        config
    }
}

/// The configuration given back after a read from the key-value store, given what the
/// credential store holds: an empty secret is filled in from it where it holds one.
pub open spec fn restored_form(config: CloudConfigModel, loaded: Option<Seq<char>>) -> CloudConfigModel {
    if config.encrypt_secret.len() == 0 {
        match loaded {
            Some(secret) => with_secret(config, secret),
            None => config,
        }
    } else {
        config
    }
}

/// The copy written back to the key-value store after a read, given whether the credential
/// store took the secret: a configuration read with its secret, once the credential store
/// took it, is written back without it; otherwise nothing is written.
pub open spec fn migration_write(config: CloudConfigModel, secret_in_credential_store: bool) -> Option<CloudConfigModel> {
    if config.encrypt_secret.len() > 0 && secret_in_credential_store {
        Some(with_secret(config, Seq::empty()))
    } else {
        None
    }
}

/// The view of an optional configuration.
pub open spec fn opt_config(c: Option<UserCloudConfig>) -> Option<CloudConfigModel> {
    match c {
        Some(c) => Some(c@),
        None => None,
    }
}

impl UserCloudConfig {
    /// A configuration with sync on, encryption off, and the given secret.
    pub fn new(encrypt_secret: String) -> (config: Self)
        ensures
            config.enable_sync,
            !config.enable_encrypt,
            config.encrypt_secret@ == encrypt_secret@,
    {
        UserCloudConfig { enable_sync: true, enable_encrypt: false, encrypt_secret }
    }

    /// The configuration with another secret.
    pub fn with_encrypt_secret(&self, encrypt_secret: String) -> (config: Self)
        ensures
            config@ == with_secret(self@, encrypt_secret@),
    {
        UserCloudConfig {
            enable_sync: self.enable_sync,
            enable_encrypt: self.enable_encrypt,
            encrypt_secret,
        }
    }
}

/// The key under which a user's cloud configuration is kept: `af_user_cloud_config:<uid>`.
pub open spec fn cloud_config_key(uid: int) -> Seq<char> {
    "af_user_cloud_config:"@ + decimal_text(uid)
}

/// The key under which a user's cloud configuration is kept in the key-value store.
pub fn cache_key_for_cloud_config(uid: i64) -> (key: String)
    ensures
        key@ == cloud_config_key(uid as int),
{
    let mut key = <String as StringExecFns>::from_str("af_user_cloud_config:");
    push_decimal(&mut key, uid);
    key
}

/// The offer settled this configuration's secret: the credential store took this very
/// (non-empty) secret under this user's service and account.
pub open spec fn offer_settles(uid: int, config: CloudConfigModel, offer: SecretOfferModel) -> bool {
    &&& config.encrypt_secret.len() > 0
    &&& offer.accepted
    &&& offer.service == keychain_service_text()
    &&& offer.account == keychain_account_text(uid)
    &&& offer.secret == config.encrypt_secret
}

/// What a lookup found for this user: its secret, where it was made under this user's
/// service and account.
pub open spec fn secret_found(uid: int, lookup: SecretLookupModel) -> Option<Seq<char>> {
    if lookup.service == keychain_service_text() && lookup.account == keychain_account_text(uid) {
        lookup.secret
    } else {
        None
    }
}

/// Whether the offer settled the configuration's secret for this user.
fn settles(uid: i64, config: &UserCloudConfig, offer: &SecretOffer) -> (settled: bool)
    ensures
        settled == offer_settles(uid as int, config@, offer@),
{
    !config.encrypt_secret.as_str().is_empty() && offer.accepted() && *offer.service()
        == KEYCHAIN_SERVICE.to_owned() && *offer.account() == keychain_account(uid) && *offer.secret()
        == config.encrypt_secret
}

/// The copy of `config` for the key-value store: without the secret exactly where the
/// given offer settled it for this user.
pub fn config_for_kv_store(uid: i64, config: &UserCloudConfig, offer: Option<&SecretOffer>) -> (stored: UserCloudConfig)
    ensures
        stored@ == stored_form(
            config@,
            match offer {
                Some(o) => offer_settles(uid as int, config@, o@),
                None => false,
            },
        ),
{
    let settled = match offer {
        Some(o) => settles(uid, config, o),
        None => false,
    };
    if settled {
        config.with_encrypt_secret(String::new())
    } else {
        config.with_encrypt_secret(config.encrypt_secret.clone())
    }
}

/// Offers a non-empty secret of `config` to the credential store under this user's account
/// and returns the copy for the key-value store (without the secret where the store took
/// it, unchanged otherwise) together with the record of the offer. An empty secret is not
/// offered.
pub fn prepare_cloud_config_for_kv_store(uid: i64, config: &UserCloudConfig) -> (prepared: (UserCloudConfig, Option<SecretOffer>))
    ensures
        prepared.1 is None <==> config@.encrypt_secret.len() == 0,
        prepared.1 matches Some(o) ==> o@.service == keychain_service_text() && o@.account
            == keychain_account_text(uid as int) && o@.secret == config@.encrypt_secret,
        prepared.0@ == stored_form(
            config@,
            match prepared.1 {
                Some(o) => o@.accepted,
                None => false,
            },
        ),
{
    if config.encrypt_secret.as_str().is_empty() {
        (config_for_kv_store(uid, config, None), None)
    } else {
        let offer = store_encrypt_secret(uid, config.encrypt_secret.as_str());
        let stored = config_for_kv_store(uid, config, Some(&offer));
        (stored, Some(offer))
    }
}

/// The configuration given back after a read: an empty secret is filled in from what the
/// lookup found under this user's account.
pub fn config_with_loaded_secret(uid: i64, config: UserCloudConfig, lookup: &SecretLookup) -> (restored: UserCloudConfig)
    ensures
        restored@ == restored_form(config@, secret_found(uid as int, lookup@)),
{
    if config.encrypt_secret.as_str().is_empty() && *lookup.service() == KEYCHAIN_SERVICE.to_owned()
        && *lookup.account() == keychain_account(uid) {
        match lookup.secret() {
            Some(secret) => config.with_encrypt_secret(secret),
            None => config,
        }
    } else {
        config
    }
}

/// The copy to write back after a read: the configuration without its secret, exactly
/// where the offer settled that secret for this user.
pub fn config_to_write_back(uid: i64, config: &UserCloudConfig, offer: &SecretOffer) -> (write: Option<UserCloudConfig>)
    ensures
        opt_config(write) == migration_write(config@, offer_settles(uid as int, config@, offer@)),
{
    if settles(uid, config, offer) {
        Some(config.with_encrypt_secret(String::new()))
    } else {
        None
    }
}

/// The one call to the credential store that settling a configuration read from the
/// key-value store makes.
pub enum CredentialStoreCall {
    /// The secret was looked up (the configuration held none).
    Lookup(SecretLookup),
    /// The secret was offered (the configuration still held it).
    Offer(SecretOffer),
}

/// Settles a configuration just read from the key-value store: an empty secret is looked
/// up in the credential store under this user's account and filled in; a secret that is
/// still there is offered to the credential store, and where the store took it the copy
/// without it is to be written back. Returns the configuration to give back, the copy to
/// write back, if any, and the record of the credential store call.
pub fn resolve_stored_cloud_config(uid: i64, config: UserCloudConfig) -> (resolved: (UserCloudConfig, Option<UserCloudConfig>, CredentialStoreCall))
    ensures
        config@.encrypt_secret.len() == 0 ==> (resolved.2 matches CredentialStoreCall::Lookup(l)
            && l@.service == keychain_service_text() && l@.account == keychain_account_text(uid as int)
            && resolved.0@ == restored_form(
            config@,
            l@.secret,
        ) && resolved.1 is None),
        config@.encrypt_secret.len() > 0 ==> (resolved.2 matches CredentialStoreCall::Offer(o)
            && o@.service == keychain_service_text() && o@.account == keychain_account_text(uid as int)
            && o@.secret == config@.encrypt_secret && resolved.0@ == config@ && opt_config(resolved.1) == migration_write(config@, o@.accepted)),
{
    if config.encrypt_secret.as_str().is_empty() {
        let lookup = load_encrypt_secret(uid);
        let restored = config_with_loaded_secret(uid, config, &lookup);
        (restored, None, CredentialStoreCall::Lookup(lookup))
    } else {
        let offer = store_encrypt_secret(uid, config.encrypt_secret.as_str());
        let write = config_to_write_back(uid, &config, &offer);
        (config, write, CredentialStoreCall::Offer(offer))
    }
}

/// Law: the copy for the key-value store goes without the secret exactly when the
/// configuration has a secret and the credential store took that very secret under this
/// user's service and account; otherwise it is the configuration itself. Nothing but the
/// secret changes.
pub proof fn lemma_kv_copy_scrubbed_exactly_when_stored(uid: int, config: CloudConfigModel, offer: SecretOfferModel)
    ensures
        ({
            let taken = config.encrypt_secret.len() > 0 && offer.accepted && offer.service
                == "appflowy"@ && offer.account == "encrypt_secret:"@ + decimal_text(uid) && offer.secret
                == config.encrypt_secret;
            let stored = stored_form(config, offer_settles(uid, config, offer));
            &&& stored.enable_sync == config.enable_sync
            &&& stored.enable_encrypt == config.enable_encrypt
            &&& taken ==> stored.encrypt_secret == Seq::<char>::empty()
            &&& !taken ==> stored.encrypt_secret == config.encrypt_secret
        }),
{
}

/// Law: the copy that a save keeps in the key-value store (given whether the credential
/// store took the secret) goes without the secret exactly when there was one and the store
/// took it; nothing but the secret changes.
pub proof fn lemma_saved_copy(config: CloudConfigModel, accepted: bool)
    ensures
        stored_form(config, accepted).enable_sync == config.enable_sync,
        stored_form(config, accepted).enable_encrypt == config.enable_encrypt,
        config.encrypt_secret.len() > 0 && accepted ==> stored_form(config, accepted).encrypt_secret
            == Seq::<char>::empty(),
        !(config.encrypt_secret.len() > 0 && accepted) ==> stored_form(config, accepted).encrypt_secret
            == config.encrypt_secret,
{
}

/// Law: after a read of a configuration that still holds its secret, the copy without the
/// secret is written back exactly when the credential store took that very secret under
/// this user's service and account; otherwise nothing is written back.
pub proof fn lemma_write_back_exactly_when_stored(uid: int, config: CloudConfigModel, offer: SecretOfferModel)
    ensures
        ({
            let taken = config.encrypt_secret.len() > 0 && offer.accepted && offer.service
                == "appflowy"@ && offer.account == "encrypt_secret:"@ + decimal_text(uid) && offer.secret
                == config.encrypt_secret;
            let write = migration_write(config, offer_settles(uid, config, offer));
            &&& taken ==> write == Some(
                CloudConfigModel {
                    enable_sync: config.enable_sync,
                    enable_encrypt: config.enable_encrypt,
                    encrypt_secret: Seq::<char>::empty(),
                },
            )
            &&& !taken ==> write is None
        }),
{
}

/// Law: a read that stored a present secret writes back the copy without it exactly when
/// the credential store took it; nothing is written back otherwise, nor for a
/// configuration without a secret.
pub proof fn lemma_migration_write(config: CloudConfigModel, accepted: bool)
    ensures
        config.encrypt_secret.len() > 0 && accepted ==> migration_write(config, accepted) == Some(
            CloudConfigModel {
                enable_sync: config.enable_sync,
                enable_encrypt: config.enable_encrypt,
                encrypt_secret: Seq::<char>::empty(),
            },
        ),
        !(config.encrypt_secret.len() > 0 && accepted) ==> migration_write(config, accepted) is None,
{
}

/// Law: after a read, an empty secret is filled in from what a lookup under this user's
/// service and account found; a present secret, or a lookup elsewhere or finding nothing,
/// leaves the configuration as read.
pub proof fn lemma_restored_copy(uid: int, config: CloudConfigModel, lookup: SecretLookupModel)
    ensures
        ({
            let here = lookup.service == "appflowy"@ && lookup.account == "encrypt_secret:"@ + decimal_text(uid);
            let restored = restored_form(config, secret_found(uid, lookup));
            &&& restored.enable_sync == config.enable_sync
            &&& restored.enable_encrypt == config.enable_encrypt
            &&& (config.encrypt_secret.len() == 0 && here && lookup.secret is Some) ==> restored.encrypt_secret
                == lookup.secret->0
            &&& !(config.encrypt_secret.len() == 0 && here && lookup.secret is Some) ==> restored.encrypt_secret
                == config.encrypt_secret
        }),
{
}

/// Law: the key-value copy goes without the secret only where the configuration had none
/// or the offer settled it (the credential store took that very secret under this user's
/// account); otherwise the copy is the configuration itself.
pub proof fn lemma_secret_leaves_only_when_settled(uid: int, config: CloudConfigModel, offer: SecretOfferModel)
    ensures
        ({
            let stored = stored_form(config, offer_settles(uid, config, offer));
            &&& stored.encrypt_secret.len() == 0 ==> config.encrypt_secret.len() == 0 || offer_settles(
                uid,
                config,
                offer,
            )
            &&& !offer_settles(uid, config, offer) ==> stored == config
        }),
{
}

/// Law: if the offer settled the configuration's secret, and a later lookup under this
/// user's account finds the secret that was offered, then filling the stored copy back in
/// gives the configuration itself. (That the store gives back what it took is the
/// hypothesis here, not something this library can check.)
pub proof fn lemma_settled_secret_restored(
    uid: int,
    config: CloudConfigModel,
    offer: SecretOfferModel,
    lookup: SecretLookupModel,
)
    requires
        offer_settles(uid, config, offer),
        lookup.service == keychain_service_text(),
        lookup.account == keychain_account_text(uid),
        lookup.secret == Some(offer.secret),
    ensures
        restored_form(stored_form(config, true), secret_found(uid, lookup)) == config,
{
    assert(with_secret(config, config.encrypt_secret) == config);
}

/// What a read of the key-value copy `kv` gives back and writes back, as
/// `resolve_stored_cloud_config` states it, given the record of the lookup it made (for an
/// empty secret) or of the store it made (otherwise).
pub open spec fn read_outcome(kv: CloudConfigModel, lookup: SecretLookupModel, offer: SecretOfferModel) -> (CloudConfigModel, Option<CloudConfigModel>) {
    if kv.encrypt_secret.len() == 0 {
        (restored_form(kv, lookup.secret), None)
    } else {
        (kv, migration_write(kv, offer.accepted))
    }
}

/// The key-value copy after a read: the written-back copy, or the one read.
pub open spec fn kv_after_read(kv: CloudConfigModel, write: Option<CloudConfigModel>) -> CloudConfigModel {
    match write {
        Some(w) => w,
        None => kv,
    }
}

/// Law: save, then read. The save stores the secret (as `store_encrypt_secret` states the
/// record) and keeps the copy `prepare_cloud_config_for_kv_store` gives; if the credential
/// store gives back a secret it took, and holds none for a configuration saved without one,
/// then the read gives the saved configuration back.
pub proof fn lemma_save_then_read(
    config: CloudConfigModel,
    offer: SecretOfferModel,
    lookup: SecretLookupModel,
    later_offer: SecretOfferModel,
)
    requires
        offer.secret == config.encrypt_secret,
        offer.accepted ==> lookup.secret == Some(offer.secret),
        config.encrypt_secret.len() == 0 ==> lookup.secret is None,
    ensures
        read_outcome(
            stored_form(config, config.encrypt_secret.len() > 0 && offer.accepted),
            lookup,
            later_offer,
        ).0 == config,
{
    assert(with_secret(config, config.encrypt_secret) == config);
}

/// Law: two reads agree. Whatever the first read writes back, a second read gives back the
/// same configuration, if the credential store gives back a secret it took and otherwise
/// finds the same as before.
pub proof fn lemma_two_reads_agree(
    kv: CloudConfigModel,
    first_lookup: SecretLookupModel,
    first_offer: SecretOfferModel,
    second_lookup: SecretLookupModel,
    second_offer: SecretOfferModel,
)
    requires
        first_offer.secret == kv.encrypt_secret,
        kv.encrypt_secret.len() > 0 && first_offer.accepted ==> second_lookup.secret == Some(first_offer.secret),
        kv.encrypt_secret.len() == 0 ==> second_lookup.secret == first_lookup.secret,
    ensures
        ({
            let first = read_outcome(kv, first_lookup, first_offer);
            read_outcome(kv_after_read(kv, first.1), second_lookup, second_offer).0 == first.0
        }),
{
    assert(with_secret(kv, kv.encrypt_secret) == kv);
    assert(with_secret(with_secret(kv, Seq::empty()), kv.encrypt_secret) == kv);
}

/// Law: a configuration read with its secret is given back unchanged, whatever the
/// credential store holds, and what is written back differs from it in the secret alone.
pub proof fn lemma_read_keeps_present_secret(config: CloudConfigModel, loaded: Option<Seq<char>>, accepted: bool)
    requires
        config.encrypt_secret.len() > 0,
    ensures
        restored_form(config, loaded) == config,
        migration_write(config, accepted) matches Some(w) ==> w == with_secret(config, Seq::empty()),
{
}

} // verus!
