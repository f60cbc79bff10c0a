use relay_setup::cipher::Cipher;
use relay_setup::install::input_shadowsocks::Install;
use relay_setup::install::shadowsocks;
use relay_setup::version::Version;

fn sample_install() -> Install {
    Install {
        server_port: 8388,
        server_password: "hunter2".to_string(),
        cipher: Cipher::Aes256Gcm,
        version: Version::from_str("v1.14.3").unwrap(),
    }
}

#[test]
fn ss_release_addresses_are_exact() {
    let v = Version::from_str("v1.14.3").unwrap();
    assert_eq!(
        shadowsocks::archive_filename(&v),
        "shadowsocks-v1.14.3.x86_64-unknown-linux-gnu.tar.xz"
    );
    assert_eq!(
        shadowsocks::download_url(&v),
        "https://github.com/shadowsocks/shadowsocks-rust/releases/download/v1.14.3/shadowsocks-v1.14.3.x86_64-unknown-linux-gnu.tar.xz"
    );
}

#[test]
fn ss_config_renders_exactly() {
    let install = sample_install();
    assert_eq!(
        shadowsocks::render_server_config(&install),
        "{\"server\":\"0.0.0.0\",\"server_port\":8388,\"password\":\"hunter2\",\"method\":\"aes-256-gcm\"}"
    );
    assert_eq!(
        shadowsocks::render_client_config("203.0.113.9", &install),
        "{\"server\":\"203.0.113.9\",\"server_port\":8388,\"local_port\":1080,\"password\":\"hunter2\",\"method\":\"aes-256-gcm\"}"
    );
}

#[test]
fn ss_marker_detection() {
    assert!(shadowsocks::is_config_already_modified(
        "net.core.rmem_max=1\n# shadowsocks tweaks\nnet.ipv4.tcp_fastopen=3\n"
    ));
    assert!(!shadowsocks::is_config_already_modified("net.core.rmem_max=1\n"));
    assert!(!shadowsocks::is_config_already_modified(""));
}

#[test]
fn ss_requirement_lists() {
    let install = shadowsocks::install_required_executables();
    assert_eq!(
        install,
        vec!["wget", "sha256sum", "tar", "systemctl", "cp", "sysctl", "ufw"]
            .into_iter()
            .map(String::from)
            .collect::<Vec<_>>()
    );
    let update = shadowsocks::update_required_executables();
    assert_eq!(update.len(), 5);
    assert!(!update.contains(&"ufw".to_string()));
}
