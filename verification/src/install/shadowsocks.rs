//! The computed parts of the shadowsocks install, update and uninstall
//! flows: release addresses, archive names, the rendered server and client
//! configurations, and the check that a system file was already amended.
//! Running the tools, fetching releases and writing files stay with the
//! binary.

use vstd::prelude::*;

use crate::install::input_shadowsocks::Install;
use crate::jsontext::{enc_str, write_lit, write_quoted_str};
use crate::text::{chars_of, contains_exec, contains_seq, dec_str, string_of};
use crate::version::Version;

verus! {

/// The base of every release download address.
pub open spec fn ss_release_url_base() -> Seq<char> {
    "https://github.com/shadowsocks/shadowsocks-rust/releases/download"@
}

/// The archive name of a release.
pub open spec fn ss_archive_name_of(version: Seq<char>) -> Seq<char> {
    "shadowsocks-v"@ + version + ".x86_64-unknown-linux-gnu.tar.xz"@
}

/// The archive filename of a release.
pub fn archive_filename(version: &Version) -> (r: String)
    ensures
        r@ == ss_archive_name_of(version@),
{
    let mut out: Vec<char> = Vec::new();
    write_lit(&mut out, "shadowsocks-v");
    let mut vs = chars_of(version.as_string().as_str());
    out.append(&mut vs);
    write_lit(&mut out, ".x86_64-unknown-linux-gnu.tar.xz");
    proof {
        assert(out@ =~= ss_archive_name_of(version@));
    }
    string_of(&out)
}

/// The download address of a release archive.
pub fn download_url(version: &Version) -> (r: String)
    ensures
        r@ == ss_release_url_base() + seq!['/', 'v'] + version@ + seq!['/'] + ss_archive_name_of(
            version@,
        ),
{
    let mut out: Vec<char> = Vec::new();
    write_lit(&mut out, "https://github.com/shadowsocks/shadowsocks-rust/releases/download");
    out.push('/');
    out.push('v');
    let mut vs = chars_of(version.as_string().as_str());
    out.append(&mut vs);
    out.push('/');
    let mut an = chars_of(archive_filename(version).as_str());
    out.append(&mut an);
    proof {
        assert(out@ =~= ss_release_url_base() + seq!['/', 'v'] + version@ + seq!['/']
            + ss_archive_name_of(version@));
    }
    string_of(&out)
}

/// The marker this tool leaves in system files it has amended.
pub open spec fn configs_check_header() -> Seq<char> {
    "# shadowsocks tweaks"@
}

/// Whether a system file already carries this tool's marker: amended files
/// are not amended twice.
pub fn is_config_already_modified(contents: &str) -> (r: bool)
    ensures
        r == contains_seq(contents@, configs_check_header()),
{
    let cs = chars_of(contents);
    let h = chars_of("# shadowsocks tweaks");
    contains_exec(&cs, &h)
}

/// The server configuration the relay daemon reads.
pub open spec fn server_config_text(port: u32, password: Seq<char>, method: Seq<char>) -> Seq<
    char,
> {
    "{\"server\":\"0.0.0.0\",\"server_port\":"@ + dec_str(port as int) + ",\"password\":"@
        + enc_str(password) + ",\"method\":"@ + enc_str(method) + "}"@
}

/// The rendered server configuration of an install.
pub fn render_server_config(install: &Install) -> (r: String)
    ensures
        r@ == server_config_text(
            install.server_port,
            install.server_password@,
            crate::cipher::cipher_name(install.cipher),
        ),
{
    let mut out: Vec<char> = Vec::new();
    write_lit(&mut out, "{\"server\":\"0.0.0.0\",\"server_port\":");
    crate::jsontext::write_u64(&mut out, install.server_port as u64);
    write_lit(&mut out, ",\"password\":");
    write_quoted_str(&mut out, install.server_password.as_str());
    write_lit(&mut out, ",\"method\":");
    write_quoted_str(&mut out, install.cipher.as_str());
    write_lit(&mut out, "}");
    proof {
        assert(out@ =~= server_config_text(
            install.server_port,
            install.server_password@,
            crate::cipher::cipher_name(install.cipher),
        ));
    }
    string_of(&out)
}

/// The client configuration printed for the operator.
pub open spec fn client_config_text(
    server: Seq<char>,
    port: u32,
    password: Seq<char>,
    method: Seq<char>,
) -> Seq<char> {
    "{\"server\":"@ + enc_str(server) + ",\"server_port\":"@ + dec_str(port as int)
        + ",\"local_port\":1080,\"password\":"@ + enc_str(password) + ",\"method\":"@ + enc_str(
        method,
    ) + "}"@
}

/// The rendered client configuration: the server address the binary
/// discovered, and the install parameters.
pub fn render_client_config(server_ip: &str, install: &Install) -> (r: String)
    ensures
        r@ == client_config_text(
            server_ip@,
            install.server_port,
            install.server_password@,
            crate::cipher::cipher_name(install.cipher),
        ),
{
    let mut out: Vec<char> = Vec::new();
    write_lit(&mut out, "{\"server\":");
    write_quoted_str(&mut out, server_ip);
    write_lit(&mut out, ",\"server_port\":");
    crate::jsontext::write_u64(&mut out, install.server_port as u64);
    write_lit(&mut out, ",\"local_port\":1080,\"password\":");
    write_quoted_str(&mut out, install.server_password.as_str());
    write_lit(&mut out, ",\"method\":");
    write_quoted_str(&mut out, install.cipher.as_str());
    write_lit(&mut out, "}");
    proof {
        assert(out@ =~= client_config_text(
            server_ip@,
            install.server_port,
            install.server_password@,
            crate::cipher::cipher_name(install.cipher),
        ));
    }
    string_of(&out)
}

/// The executables the install flow requires on the system.
pub fn install_required_executables() -> (r: Vec<String>)
    ensures
        r@.len() == 7,
        r@[0]@ == "wget"@,
        r@[1]@ == "sha256sum"@,
        r@[2]@ == "tar"@,
        r@[3]@ == "systemctl"@,
        r@[4]@ == "cp"@,
        r@[5]@ == "sysctl"@,
        r@[6]@ == "ufw"@,
{
    let mut v: Vec<String> = Vec::new();
    v.push("wget".to_owned());
    v.push("sha256sum".to_owned());
    v.push("tar".to_owned());
    v.push("systemctl".to_owned());
    v.push("cp".to_owned());
    v.push("sysctl".to_owned());
    v.push("ufw".to_owned());
    v
}

/// The executables the update flow requires on the system.
pub fn update_required_executables() -> (r: Vec<String>)
    ensures
        r@.len() == 5,
        r@[0]@ == "wget"@,
        r@[1]@ == "sha256sum"@,
        r@[2]@ == "tar"@,
        r@[3]@ == "systemctl"@,
        r@[4]@ == "cp"@,
{
    let mut v: Vec<String> = Vec::new();
    v.push("wget".to_owned());
    v.push("sha256sum".to_owned());
    v.push("tar".to_owned());
    v.push("systemctl".to_owned());
    v.push("cp".to_owned());
    v
}

} // verus!
