use b2upload::credentials::{get_saved_secret_keys, B2Credentials, SecretRead, SecretWrite};
use b2upload::error::PipelineError;
use b2upload::settings::{config_key, Settings};
use b2upload::storage::{has_connection_config, has_settings, save_settings, zeroize_secrets_in_map};

fn stored_bundle() -> B2Credentials {
    B2Credentials {
        key_id: "id-1".to_string(),
        app_key: "key-1".to_string(),
        folder_1_token: "tok-1".to_string(),
        folder_2_token: "tok-2".to_string(),
        token_secret: "sign-1".to_string(),
    }
}

fn settings_of(pairs: &[(&str, &str)]) -> Settings {
    let mut settings = Settings::new();
    for (k, v) in pairs {
        settings.insert(k.to_string(), v.to_string());
    }
    settings
}

fn fields(bundle: &B2Credentials) -> [String; 5] {
    [
        bundle.key_id.clone(),
        bundle.app_key.clone(),
        bundle.folder_1_token.clone(),
        bundle.folder_2_token.clone(),
        bundle.token_secret.clone(),
    ]
}

#[test]
fn settings_insert_and_get() {
    let mut settings = Settings::new();
    assert_eq!(settings.len(), 0);
    assert_eq!(settings.get("DOMAIN"), None);
    assert!(!settings.contains_key("DOMAIN"));
    settings.insert("DOMAIN".to_string(), "cdn.example.com".to_string());
    settings.insert("BUCKET_NAME".to_string(), "bucket".to_string());
    assert_eq!(settings.len(), 2);
    assert_eq!(settings.get("DOMAIN"), Some("cdn.example.com"));
    assert_eq!(settings.get("BUCKET_NAME"), Some("bucket"));
    assert_eq!(settings.get("domain"), None);
    assert!(settings.contains_key("BUCKET_NAME"));
}

#[test]
fn settings_insert_replaces_value() {
    let mut settings = settings_of(&[("A", "1"), ("B", "2"), ("C", "3")]);
    settings.insert("B".to_string(), "two".to_string());
    assert_eq!(settings.len(), 3);
    assert_eq!(settings.get("A"), Some("1"));
    assert_eq!(settings.get("B"), Some("two"));
    assert_eq!(settings.get("C"), Some("3"));
    let mut keys: Vec<String> = settings.entries().iter().map(|e| e.0.clone()).collect();
    keys.sort();
    assert_eq!(keys, vec!["A".to_string(), "B".to_string(), "C".to_string()]);
}

#[test]
fn settings_wipe_value_empties_one_entry() {
    let mut settings = settings_of(&[("A", "1"), ("B", "2")]);
    settings.wipe_value("A");
    assert_eq!(settings.get("A"), Some(""));
    assert_eq!(settings.get("B"), Some("2"));
    settings.wipe_value("Z");
    assert_eq!(settings.len(), 2);
    assert_eq!(settings.get("Z"), None);
}

#[test]
fn config_keys_are_the_allow_list() {
    for key in [
        "DOMAIN",
        "BUCKET_NAME",
        "S3_ENDPOINT",
        "FOLDER_1",
        "FOLDER_2",
        "DATE_FOLDERS",
        "UUID_FILENAMES",
        "OVERWRITE_UPLOADS",
        "TOKEN_MODE",
        "DEFAULT_TTL",
        "NOTIFICATIONS",
    ] {
        assert!(config_key(key), "{}", key);
    }
    for key in [
        "B2_APPLICATION_KEY_ID",
        "B2_APPLICATION_KEY",
        "FOLDER_1_TOKEN",
        "FOLDER_2_TOKEN",
        "TOKEN_SECRET",
        "domain",
        "",
        "FOLDER_3",
    ] {
        assert!(!config_key(key), "{}", key);
    }
}

#[test]
fn merge_with_all_blank_fields_keeps_stored_secrets() {
    let stored = stored_bundle();
    let blank = settings_of(&[
        ("B2_APPLICATION_KEY_ID", ""),
        ("B2_APPLICATION_KEY", ""),
        ("FOLDER_1_TOKEN", ""),
        ("FOLDER_2_TOKEN", ""),
        ("TOKEN_SECRET", ""),
        ("DOMAIN", "cdn.example.com"),
    ]);
    let kept = stored.merged_with(&blank);
    assert_eq!(fields(&kept), fields(&stored));
}

#[test]
fn merge_with_absent_fields_keeps_stored_secrets() {
    let stored = stored_bundle();
    let kept = stored.merged_with(&Settings::new());
    assert_eq!(fields(&kept), fields(&stored));
}

#[test]
fn merge_takes_submitted_values() {
    let stored = stored_bundle();
    let values = settings_of(&[("B2_APPLICATION_KEY", "key-2"), ("TOKEN_SECRET", "sign-2"), ("FOLDER_1_TOKEN", "")]);
    let kept = stored.merged_with(&values);
    assert_eq!(kept.key_id, "id-1");
    assert_eq!(kept.app_key, "key-2");
    assert_eq!(kept.folder_1_token, "tok-1");
    assert_eq!(kept.folder_2_token, "tok-2");
    assert_eq!(kept.token_secret, "sign-2");
}

#[test]
fn merge_twice_is_merge_once() {
    let stored = stored_bundle();
    let values = settings_of(&[("B2_APPLICATION_KEY_ID", "id-2"), ("FOLDER_2_TOKEN", "")]);
    let once = stored.merged_with(&values);
    let twice = once.merged_with(&values);
    assert_eq!(fields(&once), fields(&twice));
}

#[test]
fn save_with_blank_secrets_leaves_bundle_unchanged() {
    let stored = stored_bundle();
    let mut values = settings_of(&[
        ("B2_APPLICATION_KEY_ID", ""),
        ("B2_APPLICATION_KEY", ""),
        ("FOLDER_1_TOKEN", ""),
        ("FOLDER_2_TOKEN", ""),
        ("TOKEN_SECRET", ""),
        ("BUCKET_NAME", "b"),
    ]);
    let saved = save_settings(&mut values, &stored);
    assert_eq!(fields(&saved.credentials), fields(&stored));
    assert_eq!(saved.config.len(), 1);
    assert_eq!(saved.config.get("BUCKET_NAME"), Some("b"));
}

#[test]
fn save_parts_config_from_secrets_and_wipes_the_submission() {
    let stored = B2Credentials::empty();
    let mut values = settings_of(&[
        ("DOMAIN", "cdn.example.com"),
        ("B2_APPLICATION_KEY_ID", "id-9"),
        ("B2_APPLICATION_KEY", "key-9"),
        ("S3_ENDPOINT", "s3.us-west-004.backblazeb2.com"),
        ("TOKEN_SECRET", "sign-9"),
        ("UNKNOWN_KEY", "x"),
        ("TOKEN_MODE", "dynamic"),
    ]);
    let saved = save_settings(&mut values, &stored);
    assert_eq!(saved.config.len(), 3);
    assert_eq!(saved.config.get("DOMAIN"), Some("cdn.example.com"));
    assert_eq!(saved.config.get("S3_ENDPOINT"), Some("s3.us-west-004.backblazeb2.com"));
    assert_eq!(saved.config.get("TOKEN_MODE"), Some("dynamic"));
    assert_eq!(saved.config.get("UNKNOWN_KEY"), None);
    assert_eq!(saved.config.get("B2_APPLICATION_KEY"), None);
    assert_eq!(saved.config.get("TOKEN_SECRET"), None);
    assert_eq!(saved.credentials.key_id, "id-9");
    assert_eq!(saved.credentials.app_key, "key-9");
    assert_eq!(saved.credentials.folder_1_token, "");
    assert_eq!(saved.credentials.token_secret, "sign-9");
    // The submitted secrets are gone, the rest is as it was.
    assert_eq!(values.len(), 7);
    assert_eq!(values.get("B2_APPLICATION_KEY_ID"), Some(""));
    assert_eq!(values.get("B2_APPLICATION_KEY"), Some(""));
    assert_eq!(values.get("TOKEN_SECRET"), Some(""));
    assert_eq!(values.get("DOMAIN"), Some("cdn.example.com"));
    assert_eq!(values.get("UNKNOWN_KEY"), Some("x"));
}

#[test]
fn zeroize_secrets_in_map_wipes_only_secrets() {
    let mut values = settings_of(&[
        ("B2_APPLICATION_KEY_ID", "a"),
        ("B2_APPLICATION_KEY", "b"),
        ("FOLDER_1_TOKEN", "c"),
        ("FOLDER_2_TOKEN", "d"),
        ("TOKEN_SECRET", "e"),
        ("FOLDER_1", "docs"),
    ]);
    zeroize_secrets_in_map(&mut values);
    for key in ["B2_APPLICATION_KEY_ID", "B2_APPLICATION_KEY", "FOLDER_1_TOKEN", "FOLDER_2_TOKEN", "TOKEN_SECRET"] {
        assert_eq!(values.get(key), Some(""), "{}", key);
    }
    assert_eq!(values.get("FOLDER_1"), Some("docs"));
    assert_eq!(values.len(), 6);
}

#[test]
fn zeroize_secrets_in_map_adds_no_keys() {
    let mut values = settings_of(&[("FOLDER_1", "docs")]);
    zeroize_secrets_in_map(&mut values);
    assert_eq!(values.len(), 1);
    assert_eq!(values.get("TOKEN_SECRET"), None);
}

#[test]
fn load_of_absent_entry_is_the_empty_bundle() {
    let bundle = B2Credentials::load(SecretRead::Absent);
    let bundle = match bundle {
        Ok(b) => b,
        Err(e) => panic!("{}", e.message()),
    };
    assert_eq!(fields(&bundle), fields(&B2Credentials::empty()));
    assert!(bundle.key_id.is_empty());
    assert!(bundle.app_key.is_empty());
    assert!(bundle.folder_1_token.is_empty());
    assert!(bundle.folder_2_token.is_empty());
    assert!(bundle.token_secret.is_empty());
}

#[test]
fn load_of_stored_bundle_is_that_bundle() {
    let bundle = B2Credentials::load(SecretRead::Stored(stored_bundle()));
    match bundle {
        Ok(b) => assert_eq!(fields(&b), fields(&stored_bundle())),
        Err(e) => panic!("{}", e.message()),
    }
}

#[test]
fn load_of_malformed_data_is_secrets_corrupt() {
    match B2Credentials::load(SecretRead::Malformed("expected value at line 1 column 1".to_string())) {
        Ok(_) => panic!("corrupt secrets were accepted"),
        Err(e) => {
            assert_eq!(e, PipelineError::SecretsCorrupt("expected value at line 1 column 1".to_string()));
            assert_eq!(e.message(), "Secrets parse error: expected value at line 1 column 1");
        }
    }
}

#[test]
fn load_of_failed_read_is_keyring_error() {
    match B2Credentials::load(SecretRead::Failed("locked".to_string())) {
        Ok(_) => panic!("a failed read was accepted"),
        Err(e) => {
            assert_eq!(e, PipelineError::KeyringError("Keyring read error: locked".to_string()));
            assert_eq!(e.message(), "Keyring read error: locked");
        }
    }
    match B2Credentials::load(SecretRead::Unavailable("no backend".to_string())) {
        Ok(_) => panic!("an unavailable store was accepted"),
        Err(e) => assert_eq!(e.message(), "no backend"),
    }
}

#[test]
fn saved_secret_keys_names_present_fields_in_order() {
    assert_eq!(
        get_saved_secret_keys(&stored_bundle()),
        vec![
            "B2_APPLICATION_KEY_ID".to_string(),
            "B2_APPLICATION_KEY".to_string(),
            "FOLDER_1_TOKEN".to_string(),
            "FOLDER_2_TOKEN".to_string(),
            "TOKEN_SECRET".to_string(),
        ]
    );
    assert_eq!(get_saved_secret_keys(&B2Credentials::empty()), Vec::<String>::new());
    let partial = B2Credentials {
        key_id: String::new(),
        app_key: "k".to_string(),
        folder_1_token: String::new(),
        folder_2_token: String::new(),
        token_secret: "s".to_string(),
    };
    assert_eq!(
        get_saved_secret_keys(&partial),
        vec!["B2_APPLICATION_KEY".to_string(), "TOKEN_SECRET".to_string()]
    );
}

#[test]
fn saved_secret_keys_never_holds_a_value() {
    let keys = get_saved_secret_keys(&stored_bundle());
    for value in fields(&stored_bundle()) {
        assert!(!keys.contains(&value));
    }
}

#[test]
fn has_settings_needs_connection_keys_and_key_pair() {
    let config = settings_of(&[("DOMAIN", "d"), ("BUCKET_NAME", "b"), ("S3_ENDPOINT", "e")]);
    assert!(has_connection_config(&config));
    assert!(has_settings(&config, &stored_bundle()));
    assert!(!has_settings(&config, &B2Credentials::empty()));
    let no_app_key = B2Credentials {
        key_id: "id".to_string(),
        app_key: String::new(),
        folder_1_token: String::new(),
        folder_2_token: String::new(),
        token_secret: String::new(),
    };
    assert!(!has_settings(&config, &no_app_key));
}

#[test]
fn has_settings_rejects_missing_or_empty_connection_keys() {
    let creds = stored_bundle();
    let missing = settings_of(&[("DOMAIN", "d"), ("BUCKET_NAME", "b")]);
    assert!(!has_connection_config(&missing));
    assert!(!has_settings(&missing, &creds));
    let empty = settings_of(&[("DOMAIN", "d"), ("BUCKET_NAME", ""), ("S3_ENDPOINT", "e")]);
    assert!(!has_connection_config(&empty));
    assert!(!has_settings(&empty, &creds));
    assert!(!has_settings(&Settings::new(), &creds));
}

#[test]
fn save_of_written_bundle_succeeds() {
    assert_eq!(B2Credentials::save(SecretWrite::Written), Ok(()));
}

#[test]
fn save_of_failed_write_is_keyring_error() {
    let failed = B2Credentials::save(SecretWrite::Failed("denied".to_string()));
    assert_eq!(failed, Err(PipelineError::KeyringError("Keyring set error: denied".to_string())));
    assert_eq!(failed.unwrap_err().message(), "Keyring set error: denied");
}

#[test]
fn save_hands_on_other_failures_as_they_are() {
    let unavailable = B2Credentials::save(SecretWrite::Unavailable("no backend".to_string()));
    assert_eq!(unavailable.unwrap_err().message(), "no backend");
    let unencodable = B2Credentials::save(SecretWrite::Unencodable("key must be a string".to_string()));
    assert_eq!(unencodable.unwrap_err().message(), "key must be a string");
}
