use relay_setup::cipher::Cipher;
use relay_setup::errors::Error;
use relay_setup::install::input_shadowsocks;
use relay_setup::install::input_xray;
use relay_setup::install::validate;
use relay_setup::version::Version;

#[test]
fn test_cipher_fmt() {
    assert_eq!(Cipher::Aes256Gcm.as_str(), "aes-256-gcm");
    assert_eq!(Cipher::Chacha20IetfPoly1305.as_str(), "chacha20-ietf-poly1305");
    assert_eq!(Cipher::Aes128Gcm.as_str(), "aes-128-gcm");

    let mut m = serde_json::Map::new();
    m.insert(
        "value".to_string(),
        serde_json::Value::String(Cipher::Aes128Gcm.variant_name().to_string()),
    );
    assert_eq!(
        serde_json::to_string(&serde_json::Value::Object(m)).unwrap(),
        "{\"value\":\"Aes128Gcm\"}"
    );
}

#[test]
fn version_parse_and_prefix() {
    let v = Version::from_str("v1.8.4").unwrap();
    assert_eq!(v.as_string(), "1.8.4");
    assert_eq!(v.as_prefixed(), "v1.8.4");

    let bare = Version::from_str("1.14.3").unwrap();
    assert_eq!(bare.as_prefixed(), "v1.14.3");

    let padded = Version::from_str("v01.002").unwrap();
    assert_eq!(padded.as_string(), "01.002");
}

#[test]
fn version_rejects_bad_parts() {
    assert!(matches!(Version::from_str("1.x.3"), Err(Error::InvalidVersion)));
    assert!(matches!(Version::from_str(""), Err(Error::InvalidVersion)));
    assert!(matches!(Version::from_str("v"), Err(Error::InvalidVersion)));
    assert!(matches!(Version::from_str("1..2"), Err(Error::InvalidVersion)));
    assert!(matches!(Version::from_str("1.2."), Err(Error::InvalidVersion)));
    assert!(matches!(
        Version::from_str("99999999999999999999"),
        Err(Error::InvalidVersion)
    ));
    assert!(Version::from_str("4294967295").is_ok());
    assert!(matches!(Version::from_str("4294967296"), Err(Error::InvalidVersion)));
}

#[test]
fn validators_follow_the_rules() {
    assert!(validate::validate_net_port(1));
    assert!(validate::validate_net_port(65535));
    assert!(!validate::validate_net_port(0));
    assert!(!validate::validate_net_port(65536));

    assert!(validate::validate_empty_string("x"));
    assert!(!validate::validate_empty_string(""));

    assert!(validate::validate_simple_email("a@b"));
    assert!(validate::validate_simple_email("abc"));
    assert!(!validate::validate_simple_email("ab"));
    assert!(validate::validate_simple_email("a@"));
}

#[test]
fn xray_input_overlay_prefers_arguments() {
    let kept = input_xray::DataInput {
        api: true,
        api_port: 9000,
        domain: Some("old.example".to_string()),
        domain_renew_url: None,
        zerossl_email: Some("old@example.com".to_string()),
        add_users_count: 3,
        add_user_ids: vec!["x".to_string()],
    };
    let args = input_xray::InstallArgs {
        api: false,
        api_port: 7000,
        domain: Some("new.example".to_string()),
        domain_renew_url: Some("https://renew.example".to_string()),
        zerossl_email: None,
        add_users_count: 1,
        add_user_ids: vec![],
    };
    let merged = kept.update_from_args(args);
    assert_eq!(merged.api, false);
    assert_eq!(merged.api_port, 7000);
    assert_eq!(merged.domain.as_deref(), Some("new.example"));
    assert_eq!(merged.domain_renew_url.as_deref(), Some("https://renew.example"));
    assert_eq!(merged.zerossl_email.as_deref(), Some("old@example.com"));
    assert_eq!(merged.add_users_count, 1);
    assert!(merged.add_user_ids.is_empty());

    let done = merged.complete().unwrap();
    assert_eq!(done.domain, "new.example");
    assert_eq!(done.zerossl_email, "old@example.com");

    let unfinished = input_xray::DataInput::new();
    assert!(unfinished.complete().is_none());
}

#[test]
fn shadowsocks_input_overlay_prefers_arguments() {
    let kept = input_shadowsocks::DataInput {
        server_port: Some(8388),
        server_password: None,
        cipher: Some(Cipher::Aes256Gcm),
        version: None,
    };
    let args = input_shadowsocks::InstallArgs {
        port: None,
        password: Some("hunter2".to_string()),
        cipher: Some(Cipher::Aes128Gcm),
        version: Some(Version::from_str("v1.14.3").unwrap()),
    };
    let merged = kept.update_from_args(args);
    assert_eq!(merged.server_port, Some(8388));
    assert_eq!(merged.server_password.as_deref(), Some("hunter2"));
    assert!(matches!(merged.cipher, Some(Cipher::Aes128Gcm)));
    let done = merged.complete().unwrap();
    assert_eq!(done.server_port, 8388);
    assert_eq!(done.version.as_prefixed(), "v1.14.3");
}

#[test]
fn parse_add_users_lines() {
    let text = "# Place each UUID on its own line, e.g.\n# af068bb5-ec48-46ff-bdc4-80344bb5f5c7\n# Lines starting with \"#\" are ignored\n";
    assert!(input_xray::parse_add_users_file(text).is_empty());

    let text = "  abc  \r\ndef\n# comment\n\nghi";
    let ids = input_xray::parse_add_users_file(text);
    assert_eq!(ids, vec!["abc".to_string(), "def".to_string(), "".to_string(), "ghi".to_string()]);

    assert!(input_xray::parse_add_users_file("").is_empty());
}

#[test]
fn legacy_state_actions() {
    let undo = relay_setup::state::Undo::new("rust");
    assert_eq!(undo.ss_type, "rust");
    let install = relay_setup::state::Install::new("rust", "8388", "pw", "aes-256-gcm");
    assert_eq!(install.server_port, "8388");
    let action = relay_setup::state::Action::Install(install);
    assert!(action.get_install().is_some());
    let action = relay_setup::state::Action::Undo(undo);
    assert!(action.get_install().is_none());
}

#[test]
fn error_messages_name_the_failure() {
    assert_eq!(
        Error::MissingDownloadDir.message(),
        "invalid state: no download_dir"
    );
    assert_eq!(Error::MissingCertDir.message(), "invalid state: no cert_dir");
    assert!(Error::MissingDownloadDir.is_state_consistency());
    assert!(Error::MissingCertDir.is_state_consistency());
    assert!(!Error::DigestMismatch.is_state_consistency());
    assert_eq!(
        Error::StateDecode.message(),
        "failed to deserialize install state"
    );
    assert_eq!(
        Error::InvalidVersion.message(),
        "invalid number part in version"
    );
}

#[test]
fn install_args_duplicate_is_exact() {
    let args = input_xray::Install {
        api: true,
        api_port: 9001,
        domain: "example.com".to_string(),
        domain_renew_url: Some("https://renew.example".to_string()),
        zerossl_email: "operator@example.com".to_string(),
        add_users_count: 3,
        add_user_ids: vec!["a".to_string(), "b".to_string()],
    };
    let copy = args.duplicate();
    assert_eq!(copy.api, args.api);
    assert_eq!(copy.api_port, args.api_port);
    assert_eq!(copy.domain, args.domain);
    assert_eq!(copy.domain_renew_url, args.domain_renew_url);
    assert_eq!(copy.zerossl_email, args.zerossl_email);
    assert_eq!(copy.add_users_count, args.add_users_count);
    assert_eq!(copy.add_user_ids, args.add_user_ids);
}
