use flowy_encryption::cloud_config::{
    cache_key_for_cloud_config, config_for_kv_store, config_to_write_back,
    config_with_loaded_secret, prepare_cloud_config_for_kv_store, resolve_stored_cloud_config,
    CredentialStoreCall, UserCloudConfig,
};
use flowy_encryption::secure_storage::{
    keychain_account, load_encrypt_secret, store_encrypt_secret, SecureStorageError,
    StorePersistence,
};
use flowy_encryption::text::push_decimal;

fn config(secret: &str) -> UserCloudConfig {
    UserCloudConfig::new(secret.to_string())
}

#[test]
fn cache_key_text() {
    assert_eq!(cache_key_for_cloud_config(42), "af_user_cloud_config:42");
    assert_eq!(cache_key_for_cloud_config(0), "af_user_cloud_config:0");
    assert_eq!(cache_key_for_cloud_config(-7), "af_user_cloud_config:-7");
    assert_eq!(
        cache_key_for_cloud_config(i64::MIN),
        "af_user_cloud_config:-9223372036854775808"
    );
}

#[test]
fn keychain_account_text() {
    assert_eq!(keychain_account(5), "encrypt_secret:5");
    assert_eq!(keychain_account(i64::MAX), "encrypt_secret:9223372036854775807");
}

#[test]
fn decimal_matches_display() {
    for n in [0i64, 9, 10, 99, 100, 12345, -1, -10, i64::MAX, i64::MIN] {
        let mut s = String::from("x");
        push_decimal(&mut s, n);
        assert_eq!(s, format!("x{}", n));
    }
}

#[test]
fn new_config_defaults() {
    let c = config("s");
    assert!(c.enable_sync);
    assert!(!c.enable_encrypt);
    assert_eq!(c.encrypt_secret, "s");
}

#[test]
fn offer_and_lookup_records() {
    let offer = store_encrypt_secret(911_000_001, "secret-a");
    assert_eq!(offer.service(), "appflowy");
    assert_eq!(offer.account(), "encrypt_secret:911000001");
    assert_eq!(offer.secret(), "secret-a");
    assert_eq!(offer.accepted(), offer.outcome().is_ok());
    let lookup = load_encrypt_secret(911_000_001);
    assert_eq!(lookup.service(), "appflowy");
    assert_eq!(lookup.account(), "encrypt_secret:911000001");
    if offer.accepted() {
        assert_eq!(lookup.secret(), Some("secret-a".to_string()));
    }
}

#[test]
fn kv_copy_without_offer_keeps_secret() {
    assert_eq!(config_for_kv_store(1, &config("secret"), None).encrypt_secret, "secret");
    assert_eq!(config_for_kv_store(1, &config(""), None).encrypt_secret, "");
    let c = UserCloudConfig { enable_sync: false, enable_encrypt: true, encrypt_secret: "x".to_string() };
    let stored = config_for_kv_store(1, &c, None);
    assert!(!stored.enable_sync);
    assert!(stored.enable_encrypt);
}

#[test]
fn kv_copy_scrubbed_only_for_matching_accepted_offer() {
    let uid = 911_000_002;
    let offer = store_encrypt_secret(uid, "secret-b");
    let stored = config_for_kv_store(uid, &config("secret-b"), Some(&offer));
    let expected = if offer.accepted() { "" } else { "secret-b" };
    assert_eq!(stored.encrypt_secret, expected);
    // An offer of another secret, or under another user's account, never scrubs.
    assert_eq!(config_for_kv_store(uid, &config("other"), Some(&offer)).encrypt_secret, "other");
    assert_eq!(config_for_kv_store(uid + 1, &config("secret-b"), Some(&offer)).encrypt_secret, "secret-b");
}

#[test]
fn prepare_offers_only_non_empty_secret() {
    let uid = 911_000_003;
    let (stored, offer) = prepare_cloud_config_for_kv_store(uid, &config(""));
    assert!(offer.is_none());
    assert_eq!(stored.encrypt_secret, "");
    let (stored, offer) = prepare_cloud_config_for_kv_store(uid, &config("secret-c"));
    let offer = offer.unwrap();
    assert_eq!(offer.secret(), "secret-c");
    assert_eq!(offer.account(), "encrypt_secret:911000003");
    let expected = if offer.accepted() { "" } else { "secret-c" };
    assert_eq!(stored.encrypt_secret, expected);
}

#[test]
fn loaded_secret_fills_only_empty_and_only_for_this_user() {
    let uid = 911_000_004;
    let lookup = load_encrypt_secret(uid);
    let found = lookup.secret();
    let restored = config_with_loaded_secret(uid, config(""), &lookup);
    assert_eq!(restored.encrypt_secret, found.clone().unwrap_or_default());
    let kept = config_with_loaded_secret(uid, config("mine"), &lookup);
    assert_eq!(kept.encrypt_secret, "mine");
    let other_user = config_with_loaded_secret(uid + 1, config(""), &lookup);
    assert_eq!(other_user.encrypt_secret, "");
}

#[test]
fn write_back_only_after_settled_offer() {
    let uid = 911_000_005;
    let offer = store_encrypt_secret(uid, "legacy");
    let write = config_to_write_back(uid, &config("legacy"), &offer);
    if offer.accepted() {
        assert_eq!(write.unwrap().encrypt_secret, "");
    } else {
        assert!(write.is_none());
    }
    assert!(config_to_write_back(uid, &config("different"), &offer).is_none());
}

#[test]
fn resolve_makes_the_right_call() {
    let uid = 911_000_006;
    let (restored, write, call) = resolve_stored_cloud_config(uid, config(""));
    assert!(write.is_none());
    match call {
        CredentialStoreCall::Lookup(l) => {
            assert_eq!(l.account(), "encrypt_secret:911000006");
            assert_eq!(restored.encrypt_secret, l.secret().unwrap_or_default());
        },
        CredentialStoreCall::Offer(_) => panic!("an empty secret is looked up, not offered"),
    }
    let (restored, write, call) = resolve_stored_cloud_config(uid, config("kept"));
    assert_eq!(restored.encrypt_secret, "kept");
    match call {
        CredentialStoreCall::Offer(o) => {
            assert_eq!(o.secret(), "kept");
            assert_eq!(write.is_some(), o.accepted());
        },
        CredentialStoreCall::Lookup(_) => panic!("a present secret is offered, not looked up"),
    }
}

#[test]
fn credential_store_read_after_write() {
    let uid = 987_654_321;
    if store_encrypt_secret(uid, "v2$abc$AAAAAAAAAAAAAAAAAAAAAA==").accepted() {
        assert_eq!(
            load_encrypt_secret(uid).secret(),
            Some("v2$abc$AAAAAAAAAAAAAAAAAAAAAA==".to_string())
        );
    }
}

#[test]
fn store_without_durable_store_is_unavailable() {
    let offer = store_encrypt_secret(911_000_007, "secret-d");
    let persistence = *offer.persistence();
    if persistence != StorePersistence::UntilDelete {
        assert_eq!(offer.outcome(), &Err(SecureStorageError::Unavailable));
        assert_eq!(load_encrypt_secret(911_000_007).secret(), None);
    } else {
        assert_ne!(offer.outcome(), &Err(SecureStorageError::Unavailable));
    }
}
