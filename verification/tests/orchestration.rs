use relay_setup::errors::Error;
use relay_setup::install::input_xray::Install;
use relay_setup::install::state::InstallState;
use relay_setup::install::steps::InstallStep;
use relay_setup::install::xray;
use relay_setup::install::{check_requirements, RequirementCheck};
use relay_setup::version::Version;

fn sample_args(renew: bool) -> Install {
    Install {
        api: true,
        api_port: 8085,
        domain: "example.com".to_string(),
        domain_renew_url: if renew {
            Some("https://renew.example/cb?token=7".to_string())
        } else {
            None
        },
        zerossl_email: "operator@example.com".to_string(),
        add_users_count: 2,
        add_user_ids: vec!["id \"quoted\"".to_string(), "tab\there".to_string()],
    }
}

fn states_equal(a: &InstallState, b: &InstallState) {
    assert_eq!(a.args.api, b.args.api);
    assert_eq!(a.args.api_port, b.args.api_port);
    assert_eq!(a.args.domain, b.args.domain);
    assert_eq!(a.args.domain_renew_url, b.args.domain_renew_url);
    assert_eq!(a.args.zerossl_email, b.args.zerossl_email);
    assert_eq!(a.args.add_users_count, b.args.add_users_count);
    assert_eq!(a.args.add_user_ids, b.args.add_user_ids);
    assert_eq!(a.home_dir, b.home_dir);
    assert_eq!(a.home_dir_str, b.home_dir_str);
    assert_eq!(a.download_dir, b.download_dir);
    assert_eq!(a.cert_dir, b.cert_dir);
}

#[test]
fn state_round_trips_with_dirs_unset() {
    let st = InstallState::new(sample_args(false), "/root".to_string());
    assert!(st.download_dir.is_none());
    assert!(st.cert_dir.is_none());
    let text = st.to_json();
    let back = InstallState::from_json(&text).unwrap();
    states_equal(&st, &back);
}

#[test]
fn state_round_trips_with_dirs_set() {
    let mut st = InstallState::new(sample_args(true), "/home/op".to_string());
    st.set_download_dir("/home/op/artifacts/1.8.4".to_string());
    st.set_cert_dir("/home/op/xray-cert".to_string());
    let text = st.to_json();
    let back = InstallState::from_json(&text).unwrap();
    states_equal(&st, &back);
    assert_eq!(back.download_dir.as_deref(), Some("/home/op/artifacts/1.8.4"));
    assert_eq!(back.cert_dir.as_deref(), Some("/home/op/xray-cert"));
}

#[test]
fn state_round_trips_odd_characters() {
    let mut args = sample_args(true);
    args.domain = "weird\\domain\n\"x\"\u{1}".to_string();
    args.add_user_ids = vec!["\u{0}\u{1f}".to_string(), "ünïcødé 你好".to_string()];
    let st = InstallState::new(args, "/r\too\nt".to_string());
    let text = st.to_json();
    let back = InstallState::from_json(&text).unwrap();
    states_equal(&st, &back);
}

#[test]
fn state_decode_rejects_garbage() {
    assert!(matches!(InstallState::from_json(""), Err(Error::StateDecode)));
    assert!(matches!(
        InstallState::from_json("{\"args\":{}}"),
        Err(Error::StateDecode)
    ));
    let st = InstallState::new(sample_args(false), "/root".to_string());
    let mut text = st.to_json();
    text.push('x');
    assert!(matches!(InstallState::from_json(&text), Err(Error::StateDecode)));
}

#[test]
fn state_dirs_appear_after_their_steps() {
    let mut st = InstallState::new(sample_args(false), "/root".to_string());
    assert!(matches!(st.require_download_dir(), Err(Error::MissingDownloadDir)));
    assert!(matches!(st.require_cert_dir(), Err(Error::MissingCertDir)));

    st.set_download_dir("/root/artifacts/1.8.4".to_string());
    assert_eq!(st.require_download_dir().unwrap(), "/root/artifacts/1.8.4");
    assert!(matches!(st.require_cert_dir(), Err(Error::MissingCertDir)));
    assert!(st.cert_dir.is_none());

    st.set_cert_dir("/root/xray-cert".to_string());
    assert_eq!(st.require_cert_dir().unwrap(), "/root/xray-cert");
    assert_eq!(st.require_download_dir().unwrap(), "/root/artifacts/1.8.4");

    let reloaded = InstallState::from_json(&st.to_json()).unwrap();
    assert_eq!(reloaded.download_dir.as_deref(), Some("/root/artifacts/1.8.4"));
    assert_eq!(reloaded.cert_dir.as_deref(), Some("/root/xray-cert"));
}

#[test]
fn steps_are_ordered_and_named() {
    let steps = InstallStep::values();
    assert_eq!(steps.len(), 5);
    let names: Vec<&str> = steps.iter().map(|s| s.as_str()).collect();
    assert_eq!(
        names,
        vec![
            "download-binary",
            "install-binary",
            "configure-firewall",
            "configure-certificate",
            "configure-remainder",
        ]
    );
    for s in steps.iter() {
        assert!(matches!(InstallStep::from_str(s.as_str()), Some(t) if t == *s));
    }
    assert!(InstallStep::from_str("configure-else").is_none());
    assert!(InstallStep::from_str("").is_none());

    assert!(!InstallStep::DownloadBinary.needs_elevation());
    assert!(InstallStep::InstallBinary.needs_elevation());
    assert!(InstallStep::ConfigureFirewall.needs_elevation());
    assert!(!InstallStep::ConfigureCertificate.needs_elevation());
    assert!(InstallStep::ConfigureRemainder.needs_elevation());
}

#[test]
fn requirement_check_lists_missing() {
    let all = vec![
        RequirementCheck { name: "wget".to_string(), present: true },
        RequirementCheck { name: "unzip".to_string(), present: true },
    ];
    assert!(check_requirements(&all).is_ok());

    let some = vec![
        RequirementCheck { name: "wget".to_string(), present: false },
        RequirementCheck { name: "unzip".to_string(), present: true },
        RequirementCheck { name: "ufw".to_string(), present: false },
    ];
    match check_requirements(&some) {
        Err(Error::MissingPrerequisites(names)) => {
            assert_eq!(names, vec!["wget".to_string(), "ufw".to_string()]);
        }
        other => panic!("expected missing prerequisites, got {:?}", other.is_ok()),
    }
}

#[test]
fn download_addresses_are_exact() {
    let v = Version::from_str("v1.8.4").unwrap();
    assert_eq!(
        xray::download_url(&v),
        "https://github.com/XTLS/Xray-core/releases/download/v1.8.4/Xray-linux-64.zip"
    );
    assert_eq!(
        xray::digest_url(&v),
        "https://github.com/XTLS/Xray-core/releases/download/v1.8.4/Xray-linux-64.zip.dgst"
    );
    assert_eq!(xray::archive_filename(), "Xray-linux-64.zip");
    assert_eq!(
        xray::download_dir_path("/root/artifacts", &v),
        "/root/artifacts/1.8.4"
    );
}

#[test]
fn digest_mismatch_stops_the_flow() {
    // The digest file does not contain the locally computed hash: the
    // download step reports the verification error and nothing proceeds.
    let dgst = "SHA2-512 (Xray-linux-64.zip) = 00aa11bb\n";
    assert!(matches!(
        xray::check_digest(dgst, "ffee9988"),
        Err(Error::DigestMismatch)
    ));
    assert!(xray::check_digest(dgst, "00aa11bb").is_ok());
}

#[test]
fn first_token_reads_the_hash() {
    assert_eq!(
        xray::first_token("deadbeef  Xray-linux-64.zip").as_deref(),
        Some("deadbeef")
    );
    assert_eq!(xray::first_token("  \t\nabc").as_deref(), Some("abc"));
    assert!(xray::first_token("   \t ").is_none());
    assert!(xray::first_token("").is_none());
}

#[test]
fn step_paths_are_fixed() {
    assert_eq!(xray::state_file_path(), "/tmp/xray-install-state.json");
    assert_eq!(xray::xray_bin_path(), "/usr/local/bin/xray");
    assert_eq!(xray::xray_etc_dir(), "/usr/local/etc/xray");
    assert_eq!(xray::xray_share_dir(), "/usr/local/share/xray");
    assert_eq!(xray::data_files(), vec!["geoip.dat".to_string(), "geosite.dat".to_string()]);
    assert_eq!(xray::firewall_ports(), vec![22, 80, 443]);
    assert_eq!(xray::cert_dir_path("/home/op"), "/home/op/xray-cert");
    assert_eq!(xray::acme_bin_path("/home/op"), "/home/op/.acme.sh/acme.sh");
    let reqs = xray::required_executables();
    assert_eq!(reqs.len(), 8);
    assert!(reqs.contains(&"sha512sum".to_string()));
    assert!(reqs.contains(&"unzip".to_string()));
}
