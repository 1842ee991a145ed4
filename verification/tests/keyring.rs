use keyring::attrs::default_identity_mapper;
use keyring::macos::{delete_password, get_password, platform, set_password};
use keyring::{CredentialStore, Error, ErrorCause, KeyringError, Platform, PlatformIdentity};

#[test]
fn test_basic() {
    let password_1 = "大根";
    let password_2 = "0xE5A4A7E6A0B9"; // Above in hex string
    let map = default_identity_mapper(Platform::MacOs, "test-service", "test-user");

    let mut store = CredentialStore::new();
    set_password(&mut store, &map, password_1).unwrap();
    let response_1 = get_password(&store, &map).unwrap();
    assert_eq!(
        response_1, password_1,
        "Stored and retrieved passwords don't match"
    );

    set_password(&mut store, &map, password_2).unwrap();
    let response_2 = get_password(&store, &map).unwrap();
    assert_eq!(
        response_2, password_2,
        "Stored and retrieved passwords don't match"
    );

    delete_password(&mut store, &map).unwrap();
    assert!(
        get_password(&store, &map).is_err(),
        "Able to read a deleted password"
    )
}

#[test]
fn scenario_full_lifecycle() {
    let map = default_identity_mapper(Platform::MacOs, "test-service", "test-user");
    let mut store = CredentialStore::new();

    assert!(set_password(&mut store, &map, "大根").is_ok());
    assert_eq!(get_password(&store, &map).unwrap(), "大根");
    assert!(set_password(&mut store, &map, "0xE5A4A7E6A0B9").is_ok());
    assert_eq!(get_password(&store, &map).unwrap(), "0xE5A4A7E6A0B9");
    assert!(delete_password(&mut store, &map).is_ok());
    let err = get_password(&store, &map).unwrap_err();
    assert_eq!(err.kind, KeyringError::NoEntry);
}

#[test]
fn overwrite_leaves_second_secret() {
    let map = default_identity_mapper(Platform::MacOs, "svc", "user");
    let mut store = CredentialStore::new();
    set_password(&mut store, &map, "first").unwrap();
    set_password(&mut store, &map, "second").unwrap();
    assert_eq!(get_password(&store, &map).unwrap(), "second");
}

#[test]
fn distinct_identities_do_not_collide() {
    let map_a = default_identity_mapper(Platform::MacOs, "svc", "alice");
    let map_b = default_identity_mapper(Platform::MacOs, "svc", "bob");
    let mut store = CredentialStore::new();
    set_password(&mut store, &map_a, "a-secret").unwrap();
    set_password(&mut store, &map_b, "b-secret").unwrap();
    assert_eq!(get_password(&store, &map_a).unwrap(), "a-secret");
    assert_eq!(get_password(&store, &map_b).unwrap(), "b-secret");
    delete_password(&mut store, &map_a).unwrap();
    assert_eq!(get_password(&store, &map_b).unwrap(), "b-secret");
}

#[test]
fn delete_of_absent_fails_with_no_entry() {
    let map = default_identity_mapper(Platform::MacOs, "svc", "user");
    let mut store = CredentialStore::new();
    let err = delete_password(&mut store, &map).unwrap_err();
    assert_eq!(err.kind, KeyringError::NoEntry);
    assert_eq!(err.cause, None);
}

#[test]
fn get_of_absent_fails_with_no_entry() {
    let map = default_identity_mapper(Platform::MacOs, "svc", "user");
    let store = CredentialStore::new();
    let err = get_password(&store, &map).unwrap_err();
    assert_eq!(err.kind, KeyringError::NoEntry);
}

#[test]
fn mismatched_identity_is_rejected_by_every_operation() {
    let win = default_identity_mapper(Platform::Windows, "svc", "user");
    let linux = default_identity_mapper(Platform::Linux, "svc", "user");
    let mut store = CredentialStore::new();
    for map in [&win, &linux] {
        let err = set_password(&mut store, map, "secret").unwrap_err();
        assert_eq!(err.kind, KeyringError::BadIdentityMapPlatform);
        let err = get_password(&store, map).unwrap_err();
        assert_eq!(err.kind, KeyringError::BadIdentityMapPlatform);
        let err = delete_password(&mut store, map).unwrap_err();
        assert_eq!(err.kind, KeyringError::BadIdentityMapPlatform);
    }
    // No native write happened: the matching identity still finds nothing.
    let mac = default_identity_mapper(Platform::MacOs, "svc", "user");
    let err = get_password(&store, &mac).unwrap_err();
    assert_eq!(err.kind, KeyringError::NoEntry);
}

#[test]
fn non_utf8_stored_bytes_fail_with_encoding_error() {
    let map = default_identity_mapper(Platform::MacOs, "svc", "user");
    let mut store = CredentialStore::new();
    // Another tool sharing the facility stored raw bytes that are not UTF-8:
    // a lone leading byte of a three-byte sequence.
    store.write(&"svc".to_string(), &"user".to_string(), vec![0xE5, 0xA4]);
    let err = get_password(&store, &map).unwrap_err();
    assert_eq!(err.kind, KeyringError::BadEncoding);
    assert_eq!(err.cause, Some(ErrorCause::Encoding { valid_up_to: 0 }));
}

#[test]
fn encoding_error_reports_valid_prefix_length() {
    let map = default_identity_mapper(Platform::MacOs, "svc", "user");
    let mut store = CredentialStore::new();
    store.write(&"svc".to_string(), &"user".to_string(), vec![b'o', b'k', 0xFF]);
    let err = get_password(&store, &map).unwrap_err();
    assert_eq!(err.kind, KeyringError::BadEncoding);
    assert_eq!(err.cause, Some(ErrorCause::Encoding { valid_up_to: 2 }));
}

#[test]
fn utf8_secret_round_trips_through_raw_bytes() {
    // The same address written with the raw UTF-8 bytes of a secret reads
    // back as that secret: the store holds the encoding, not the text.
    let map = default_identity_mapper(Platform::MacOs, "svc", "user");
    let mut store = CredentialStore::new();
    store.write(
        &"svc".to_string(),
        &"user".to_string(),
        vec![0xE5, 0xA4, 0xA7, 0xE6, 0xA0, 0xB9],
    );
    assert_eq!(get_password(&store, &map).unwrap(), "大根");
}

#[test]
fn platform_reports_the_active_backend() {
    assert_eq!(platform(), Platform::MacOs);
}

#[test]
fn identity_mapper_builds_each_variant() {
    match default_identity_mapper(Platform::MacOs, "svc", "user") {
        PlatformIdentity::Mac(c) => {
            assert_eq!(c.service, "svc");
            assert_eq!(c.account, "user");
        }
        other => panic!("expected the keychain variant, got {:?}", other),
    }
    match default_identity_mapper(Platform::Windows, "svc", "user") {
        PlatformIdentity::Win(c) => {
            assert_eq!(c.username, "user");
            assert_eq!(c.target_name, "svc.user");
        }
        other => panic!("expected the vault variant, got {:?}", other),
    }
    match default_identity_mapper(Platform::Linux, "svc", "user") {
        PlatformIdentity::Linux(c) => {
            assert_eq!(c.service, "svc");
            assert_eq!(c.account, "user");
        }
        other => panic!("expected the secret-service variant, got {:?}", other),
    }
}

#[test]
fn error_constructors_keep_kind_and_cause() {
    let e = Error::new_from_platform(KeyringError::NoStorage, -25300);
    assert_eq!(e.kind, KeyringError::NoStorage);
    assert_eq!(e.cause, Some(ErrorCause::Platform { code: -25300 }));

    let e = Error::new_from_platform(KeyringError::PlatformFailure, 7);
    assert_eq!(e.kind, KeyringError::PlatformFailure);
    assert_eq!(e.cause, Some(ErrorCause::Platform { code: 7 }));

    let e = Error::new_from_encoding(3);
    assert_eq!(e.kind, KeyringError::BadEncoding);
    assert_eq!(e.cause, Some(ErrorCause::Encoding { valid_up_to: 3 }));

    let e = Error::from(KeyringError::BadIdentityMapPlatform);
    assert_eq!(e.kind, KeyringError::BadIdentityMapPlatform);
    assert_eq!(e.cause, None);
}

#[test]
fn error_messages_name_each_kind() {
    assert_eq!(
        Error::from(KeyringError::NoStorage).message(),
        "the secure storage facility could not be opened"
    );
    assert_eq!(
        Error::from(KeyringError::NoEntry).message(),
        "no secret is stored for this identity"
    );
    assert_eq!(
        Error::from(KeyringError::BadEncoding).message(),
        "the stored secret is not valid UTF-8"
    );
    assert_eq!(
        Error::from(KeyringError::PlatformFailure).message(),
        "the platform storage facility reported a failure"
    );
    assert_eq!(
        Error::from(KeyringError::BadIdentityMapPlatform).message(),
        "the identity does not match the active platform"
    );
}

#[test]
fn empty_service_account_and_secret_are_allowed() {
    let map = default_identity_mapper(Platform::MacOs, "", "");
    let mut store = CredentialStore::new();
    set_password(&mut store, &map, "").unwrap();
    assert_eq!(get_password(&store, &map).unwrap(), "");
    delete_password(&mut store, &map).unwrap();
    assert_eq!(
        get_password(&store, &map).unwrap_err().kind,
        KeyringError::NoEntry
    );
}
