//! The per-step decisions of the Xray install flow: what to download and
//! where, how to verify it, which paths and ports each step touches, and the
//! assembly of every file the final step writes. Running the external tools
//! themselves is the binary's job; everything computed here is verified.

use vstd::prelude::*;

use crate::errors::Error;
use crate::install::input_xray::Install;
use crate::install::template::{
    binding_views, subst_pairs, substitute_checked, token_prefix, TokenBinding,
};
use crate::install::xray_config::{
    render_base, render_main, render_routing, wf, base_fragment_name, main_fragment_name,
    routing_fragment_name, Client, XrayConfig,
};
use crate::jsontext::write_lit;
use crate::text::{chars_of, contains_exec, contains_seq, dec_str, string_of};
use crate::version::Version;

verus! {

/// The base of every release download address.
pub open spec fn release_url_base() -> Seq<char> {
    "https://github.com/XTLS/Xray-core/releases/download"@
}

/// The release archive filename.
pub open spec fn archive_name() -> Seq<char> {
    "Xray-linux-64.zip"@
}

/// The address a release archive is fetched from.
pub open spec fn download_url_of(version: Seq<char>) -> Seq<char> {
    release_url_base() + seq!['/', 'v'] + version + seq!['/'] + archive_name()
}

/// The release archive filename.
pub fn archive_filename() -> (r: &'static str)
    ensures
        r@ == archive_name(),
{
    "Xray-linux-64.zip"
}

/// The download address of a release.
pub fn download_url(version: &Version) -> (r: String)
    ensures
        r@ == download_url_of(version@),
{
    let mut out: Vec<char> = Vec::new();
    write_lit(&mut out, "https://github.com/XTLS/Xray-core/releases/download");
    out.push('/');
    out.push('v');
    let mut vs = chars_of(version.as_string().as_str());
    out.append(&mut vs);
    out.push('/');
    write_lit(&mut out, "Xray-linux-64.zip");
    proof {
        assert(out@ =~= download_url_of(version@));
    }
    string_of(&out)
}

/// The address of the detached digest beside a release archive.
pub fn digest_url(version: &Version) -> (r: String)
    ensures
        r@ == download_url_of(version@) + ".dgst"@,
{
    let mut out: Vec<char> = chars_of(download_url(version).as_str());
    write_lit(&mut out, ".dgst");
    string_of(&out)
}

/// The version-specific directory the archive is downloaded into.
pub fn download_dir_path(current_dir: &str, version: &Version) -> (r: String)
    ensures
        r@ == current_dir@ + seq!['/'] + version@,
{
    let mut out: Vec<char> = chars_of(current_dir);
    out.push('/');
    let mut vs = chars_of(version.as_string().as_str());
    out.append(&mut vs);
    string_of(&out)
}

/// Whitespace as the digest tool prints it.
pub open spec fn is_space(c: char) -> bool {
    c == ' ' || c == '\t' || c == '\n' || c == '\r' || c == '\u{b}' || c == '\u{c}'
}

/// The length of the leading run of non-whitespace characters.
pub open spec fn nonspace_run(s: Seq<char>) -> int
    decreases s.len(),
{
    if s.len() > 0 && !is_space(s[0]) {
        1 + nonspace_run(s.drop_first())
    } else {
        0
    }
}

/// The first whitespace-separated token, if the text has one.
pub open spec fn first_token_of(s: Seq<char>) -> Option<Seq<char>>
    decreases s.len(),
{
    if s.len() == 0 {
        Option::None
    } else if is_space(s[0]) {
        first_token_of(s.drop_first())
    } else {
        Option::Some(s.subrange(0, nonspace_run(s)))
    }
}

proof fn lemma_nonspace_run_char(s: Seq<char>, k: int)
    requires
        0 <= k <= s.len(),
        forall|i: int| 0 <= i < k ==> !is_space(#[trigger] s[i]),
        k < s.len() ==> is_space(s[k]),
    ensures
        nonspace_run(s) == k,
    decreases k,
{
    if k == 0 {
    } else {
        assert(!is_space(s[0]));
        lemma_nonspace_run_char(s.drop_first(), k - 1);
        assert(forall|i: int| 0 <= i < s.len() - 1 ==> s.drop_first()[i] == #[trigger] s[i + 1]);
    }
}

pub(crate) fn is_space_exec(c: char) -> (r: bool)
    ensures
        r == is_space(c),
{
    c == ' ' || c == '\t' || c == '\n' || c == '\r' || c == '\u{b}' || c == '\u{c}'
}

/// The first whitespace-separated token of the text: how the locally
/// computed hash is read out of the digest tool's output.
pub fn first_token(s: &str) -> (r: Option<String>)
    ensures
        match r {
            Some(t) => first_token_of(s@) == Option::Some(t@),
            None => first_token_of(s@) is None,
        },
{
    let cs = chars_of(s);
    let mut i: usize = 0;
    proof {
        assert(cs@.skip(0) =~= cs@);
    }
    while i < cs.len() && is_space_exec(cs[i])
        invariant
            i <= cs@.len(),
            cs@ == s@,
            first_token_of(s@) == first_token_of(cs@.skip(i as int)),
        decreases cs@.len() - i,
    {
        proof {
            assert(cs@.skip(i as int)[0] == cs@[i as int]);
            assert(cs@.skip(i as int).drop_first() =~= cs@.skip(i as int + 1));
        }
        i = i + 1;
    }
    let ghost rem = cs@.skip(i as int);
    if i == cs.len() {
        return None;
    }
    proof {
        assert(rem[0] == cs@[i as int]);
    }
    let mut j: usize = i;
    while j < cs.len() && !is_space_exec(cs[j])
        invariant
            i <= j <= cs@.len(),
            cs@ == s@,
            forall|k: int| i <= k < j ==> !is_space(#[trigger] cs@[k]),
        decreases cs@.len() - j,
    {
        j = j + 1;
    }
    proof {
        assert(forall|k: int| 0 <= k < rem.len() ==> rem[k] == #[trigger] cs@[i + k]);
        lemma_nonspace_run_char(rem, j - i);
        assert(rem.subrange(0, j - i) =~= cs@.subrange(i as int, j as int));
    }
    let token = crate::text::chars_of(s);
    let mut out: Vec<char> = Vec::new();
    let mut k = i;
    while k < j
        invariant
            i <= k <= j <= cs@.len(),
            token@ == cs@,
            out@ == cs@.subrange(i as int, k as int),
        decreases j - k,
    {
        out.push(token[k]);
        k = k + 1;
        proof {
            assert(out@ =~= cs@.subrange(i as int, k as int));
        }
    }
    Some(string_of(&out))
}

/// Accepts exactly when the published digest text contains the locally
/// computed hash; otherwise the verification error, and no install proceeds
/// from unverified material.
pub fn check_digest(dgst: &str, hash: &str) -> (r: Result<(), Error>)
    ensures
        match r {
            Result::Ok(()) => contains_seq(dgst@, hash@),
            Result::Err(e) => !contains_seq(dgst@, hash@) && e is DigestMismatch,
        },
{
    let d = chars_of(dgst);
    let h = chars_of(hash);
    if contains_exec(&d, &h) {
        Ok(())
    } else {
        Err(Error::DigestMismatch)
    }
}

/// The home-relative directory the certificate step installs into.
pub fn cert_dir_path(home: &str) -> (r: String)
    ensures
        r@ == home@ + "/xray-cert"@,
{
    let mut out: Vec<char> = chars_of(home);
    write_lit(&mut out, "/xray-cert");
    string_of(&out)
}

/// The ACME client executable under the operator's home.
pub fn acme_bin_path(home: &str) -> (r: String)
    ensures
        r@ == home@ + "/.acme.sh/acme.sh"@,
{
    let mut out: Vec<char> = chars_of(home);
    write_lit(&mut out, "/.acme.sh/acme.sh");
    string_of(&out)
}

/// The fixed set of ports the firewall step opens.
pub fn firewall_ports() -> (r: Vec<u32>)
    ensures
        r@ == seq![22u32, 80u32, 443u32],
{
    let mut v: Vec<u32> = Vec::new();
    v.push(22);
    v.push(80);
    v.push(443);
    proof {
        assert(v@ =~= seq![22u32, 80u32, 443u32]);
    }
    v
}

/// The executables the download step requires on the system.
pub fn required_executables() -> (r: Vec<String>)
    ensures
        r@.len() == 8,
        r@[0]@ == "chmod"@,
        r@[1]@ == "nginx"@,
        r@[2]@ == "sh"@,
        r@[3]@ == "sha512sum"@,
        r@[4]@ == "systemctl"@,
        r@[5]@ == "ufw"@,
        r@[6]@ == "unzip"@,
        r@[7]@ == "wget"@,
{
    let mut v: Vec<String> = Vec::new();
    v.push("chmod".to_owned());
    v.push("nginx".to_owned());
    v.push("sh".to_owned());
    v.push("sha512sum".to_owned());
    v.push("systemctl".to_owned());
    v.push("ufw".to_owned());
    v.push("unzip".to_owned());
    v.push("wget".to_owned());
    v
}

/// The well-known path of the persisted install state.
pub fn state_file_path() -> (r: &'static str)
    ensures
        r@ == "/tmp/xray-install-state.json"@,
{
    "/tmp/xray-install-state.json"
}

/// The final location of the proxy executable.
pub fn xray_bin_path() -> (r: &'static str)
    ensures
        r@ == "/usr/local/bin/xray"@,
{
    "/usr/local/bin/xray"
}

/// The configuration directory the fragments are written into.
pub fn xray_etc_dir() -> (r: &'static str)
    ensures
        r@ == "/usr/local/etc/xray"@,
{
    "/usr/local/etc/xray"
}

/// The directory the auxiliary data files move into.
pub fn xray_share_dir() -> (r: &'static str)
    ensures
        r@ == "/usr/local/share/xray"@,
{
    "/usr/local/share/xray"
}

/// The auxiliary data files the install step moves beside the binary.
pub fn data_files() -> (r: Vec<String>)
    ensures
        r@.len() == 2,
        r@[0]@ == "geoip.dat"@,
        r@[1]@ == "geosite.dat"@,
{
    let mut v: Vec<String> = Vec::new();
    v.push("geoip.dat".to_owned());
    v.push("geosite.dat".to_owned());
    v
}

/// The connection address printed for one provisioned client.
pub open spec fn user_link_of(id: Seq<char>, domain: Seq<char>) -> Seq<char> {
    "vless://"@ + id + "@"@ + domain
        + ":443/?type=tcp&encryption=none&flow=xtls-rprx-vision&security=tls&fp=chrome#xray"@
}

/// The connection address of one client.
pub fn user_link(id: &str, domain: &str) -> (r: String)
    ensures
        r@ == user_link_of(id@, domain@),
{
    let mut out: Vec<char> = Vec::new();
    write_lit(&mut out, "vless://");
    let mut idc = chars_of(id);
    out.append(&mut idc);
    write_lit(&mut out, "@");
    let mut dc = chars_of(domain);
    out.append(&mut dc);
    write_lit(
        &mut out,
        ":443/?type=tcp&encryption=none&flow=xtls-rprx-vision&security=tls&fp=chrome#xray",
    );
    proof {
        assert(out@ =~= user_link_of(id@, domain@));
    }
    string_of(&out)
}

/// The service unit that runs the proxy.
pub open spec fn xray_service_template() -> Seq<char> {
    "[Unit]\nDescription=Xray Service\nAfter=network.target nss-lookup.target\n\n[Service]\nUser=root\nExecStart=VAR_XRAY_BIN run -confdir VAR_XRAY_ETC_DIR\nRestart=on-failure\n\n[Install]\nWantedBy=multi-user.target\n"@
}

pub fn xray_service_template_str() -> (r: &'static str)
    ensures
        r@ == xray_service_template(),
{
    "[Unit]\nDescription=Xray Service\nAfter=network.target nss-lookup.target\n\n[Service]\nUser=root\nExecStart=VAR_XRAY_BIN run -confdir VAR_XRAY_ETC_DIR\nRestart=on-failure\n\n[Install]\nWantedBy=multi-user.target\n"
}

/// The reverse-proxy configuration that serves plain web traffic behind the
/// relay's fallback.
pub open spec fn nginx_conf_template() -> Seq<char> {
    "user www-data;\nworker_processes auto;\n\nevents {\n    worker_connections 768;\n}\n\nhttp {\n    server {\n        listen 127.0.0.1:8080;\n        server_name VAR_DOMAIN;\n        root /var/www/html;\n    }\n}\n"@
}

pub fn nginx_conf_template_str() -> (r: &'static str)
    ensures
        r@ == nginx_conf_template(),
{
    "user www-data;\nworker_processes auto;\n\nevents {\n    worker_connections 768;\n}\n\nhttp {\n    server {\n        listen 127.0.0.1:8080;\n        server_name VAR_DOMAIN;\n        root /var/www/html;\n    }\n}\n"
}

/// The certificate-renewal script dropped beside the certificates.
pub open spec fn acme_renew_template() -> Seq<char> {
    "#!/bin/sh\nVAR_HOME/.acme.sh/acme.sh --install-cert -d VAR_DOMAIN --ecc --fullchain-file VAR_HOME/xray-cert/xray.crt --key-file VAR_HOME/xray-cert/xray.key\nchmod +r VAR_HOME/xray-cert/xray.key\nsystemctl restart VAR_VLESS_INBOUND_TAG\n"@
}

pub fn acme_renew_template_str() -> (r: &'static str)
    ensures
        r@ == acme_renew_template(),
{
    "#!/bin/sh\nVAR_HOME/.acme.sh/acme.sh --install-cert -d VAR_DOMAIN --ecc --fullchain-file VAR_HOME/xray-cert/xray.crt --key-file VAR_HOME/xray-cert/xray.key\nchmod +r VAR_HOME/xray-cert/xray.key\nsystemctl restart VAR_VLESS_INBOUND_TAG\n"
}

/// The cron entry that re-runs certificate renewal.
pub open spec fn cert_renew_cron_template() -> Seq<char> {
    "0 3 * * 6 root sh VAR_HOME/xray-cert/renew.sh\n"@
}

pub fn cert_renew_cron_template_str() -> (r: &'static str)
    ensures
        r@ == cert_renew_cron_template(),
{
    "0 3 * * 6 root sh VAR_HOME/xray-cert/renew.sh\n"
}

/// The cron entry that calls the domain-renewal callback.
pub open spec fn domain_renew_cron_template() -> Seq<char> {
    "0 2 * * * root curl -s VAR_DOMAIN_RENEW_URL\n"@
}

pub fn domain_renew_cron_template_str() -> (r: &'static str)
    ensures
        r@ == domain_renew_cron_template(),
{
    "0 2 * * * root curl -s VAR_DOMAIN_RENEW_URL\n"
}

/// The placeholder bindings of one install: the home directory, the domain,
/// the renewal callback (or its fixed absent marker), the client inbound
/// tag, the proxy binary, the API port, and the configuration directory.
pub open spec fn bindings_of(a: crate::install::input_xray::InstallV, home: Seq<char>) -> Seq<
    (Seq<char>, Seq<char>),
> {
    seq![
        ("VAR_HOME"@, home),
        (
            "VAR_DOMAIN_RENEW_URL"@,
            match a.domain_renew_url {
                Option::Some(u) => u,
                Option::None => "NOT_SET"@,
            },
        ),
        ("VAR_DOMAIN"@, a.domain),
        ("VAR_VLESS_INBOUND_TAG"@, "vless"@),
        ("VAR_XRAY_BIN"@, "/usr/local/bin/xray"@),
        ("VAR_XRAY_API_PORT"@, dec_str(a.api_port as int)),
        ("VAR_XRAY_ETC_DIR"@, "/usr/local/etc/xray"@),
    ]
}

/// The binding list of one install, names first.
pub fn template_vars(args: &Install, home: &str) -> (r: Vec<TokenBinding>)
    ensures
        binding_views(r@) == bindings_of(args@, home@),
        forall|i: int| 0 <= i < r@.len() ==> (#[trigger] r@[i]).name@.len() > 0,
{
    let mut v: Vec<TokenBinding> = Vec::new();
    v.push(TokenBinding { name: "VAR_HOME".to_owned(), value: home.to_owned() });
    // The renewal-URL token carries the domain token as a prefix, so it must
    // be substituted first or it would never see its own value.
    v.push(
        TokenBinding {
            name: "VAR_DOMAIN_RENEW_URL".to_owned(),
            value: match &args.domain_renew_url {
                Some(u) => u.clone(),
                None => "NOT_SET".to_owned(),
            },
        },
    );
    v.push(TokenBinding { name: "VAR_DOMAIN".to_owned(), value: args.domain.clone() });
    v.push(TokenBinding { name: "VAR_VLESS_INBOUND_TAG".to_owned(), value: "vless".to_owned() });
    v.push(
        TokenBinding { name: "VAR_XRAY_BIN".to_owned(), value: "/usr/local/bin/xray".to_owned() },
    );
    v.push(
        TokenBinding {
            name: "VAR_XRAY_API_PORT".to_owned(),
            value: string_of(&crate::text::fmt_u64(args.api_port as u64)),
        },
    );
    v.push(
        TokenBinding {
            name: "VAR_XRAY_ETC_DIR".to_owned(),
            value: "/usr/local/etc/xray".to_owned(),
        },
    );
    proof {
        reveal_strlit("VAR_HOME");
        reveal_strlit("VAR_DOMAIN");
        reveal_strlit("VAR_DOMAIN_RENEW_URL");
        reveal_strlit("VAR_VLESS_INBOUND_TAG");
        reveal_strlit("VAR_XRAY_BIN");
        reveal_strlit("VAR_XRAY_API_PORT");
        reveal_strlit("VAR_XRAY_ETC_DIR");
        assert(binding_views(v@) =~= bindings_of(args@, home@));
    }
    v
}

/// One file the final step writes: where, under what name, with what text.
pub struct OutputFile {
    pub dir: String,
    pub name: String,
    pub content: String,
}

/// The directory generated cron entries go into.
pub fn cron_dir() -> (r: &'static str)
    ensures
        r@ == "/etc/cron.d"@,
{
    "/etc/cron.d"
}

/// The directory the service unit goes into.
pub fn systemd_dir() -> (r: &'static str)
    ensures
        r@ == "/etc/systemd/system"@,
{
    "/etc/systemd/system"
}

/// The directory the reverse-proxy configuration goes into.
pub fn nginx_dir() -> (r: &'static str)
    ensures
        r@ == "/etc/nginx"@,
{
    "/etc/nginx"
}

/// Every file the final configuration step writes, in order: the three
/// configuration fragments under the service's configuration directory, the
/// service unit, the reverse-proxy configuration, the renewal script beside
/// the certificates, the certificate-renewal cron entry, and, exactly when a
/// renewal callback was supplied, the domain-renewal cron entry. Assembly
/// succeeds exactly when no placeholder token survives in any of them.
pub fn assemble_output(args: &Install, cert_dir: &str, home: &str, cfg: &XrayConfig) -> (r: Result<
    Vec<OutputFile>,
    Error,
>)
    requires
        wf(cfg@),
    ensures
        ({
            let b = bindings_of(args@, home@);
            match r {
                Result::Ok(files) => {
                    &&& files@.len() == (if args@.domain_renew_url is Some {
                        8int
                    } else {
                        7int
                    })
                    &&& files@[0].dir@ == "/usr/local/etc/xray"@ && files@[0].name@
                        == routing_fragment_name() && files@[0].content@ == render_routing(cfg@)
                    &&& files@[1].dir@ == "/usr/local/etc/xray"@ && files@[1].name@
                        == base_fragment_name() && files@[1].content@ == render_base(cfg@)
                    &&& files@[2].dir@ == "/usr/local/etc/xray"@ && files@[2].name@
                        == main_fragment_name() && files@[2].content@ == render_main(cfg@)
                    &&& files@[3].dir@ == "/etc/systemd/system"@ && files@[3].name@
                        == "xray.service"@ && files@[3].content@ == subst_pairs(
                        xray_service_template(),
                        b,
                    )
                    &&& files@[4].dir@ == "/etc/nginx"@ && files@[4].name@ == "nginx.conf"@
                        && files@[4].content@ == subst_pairs(nginx_conf_template(), b)
                    &&& files@[5].dir@ == cert_dir@ && files@[5].name@ == "renew.sh"@
                        && files@[5].content@ == subst_pairs(acme_renew_template(), b)
                    &&& files@[6].dir@ == "/etc/cron.d"@ && files@[6].name@ == "cert-renew"@
                        && files@[6].content@ == subst_pairs(cert_renew_cron_template(), b)
                    &&& args@.domain_renew_url is Some ==> files@[7].dir@ == "/etc/cron.d"@
                        && files@[7].name@ == "domain-renew"@ && files@[7].content@ == subst_pairs(
                        domain_renew_cron_template(),
                        b,
                    )
                    &&& forall|k: int|
                        0 <= k < files@.len() ==> !contains_seq(
                            (#[trigger] files@[k]).content@,
                            token_prefix(),
                        )
                },
                Result::Err(e) => {
                    &&& e is UnresolvedToken
                    &&& {
                        ||| contains_seq(render_routing(cfg@), token_prefix())
                        ||| contains_seq(render_base(cfg@), token_prefix())
                        ||| contains_seq(render_main(cfg@), token_prefix())
                        ||| contains_seq(subst_pairs(xray_service_template(), b), token_prefix())
                        ||| contains_seq(subst_pairs(nginx_conf_template(), b), token_prefix())
                        ||| contains_seq(subst_pairs(acme_renew_template(), b), token_prefix())
                        ||| contains_seq(subst_pairs(cert_renew_cron_template(), b), token_prefix())
                        ||| (args@.domain_renew_url is Some && contains_seq(
                            subst_pairs(domain_renew_cron_template(), b),
                            token_prefix(),
                        ))
                    }
                },
            }
        }),
{
    let vars = template_vars(args, home);
    let mut fragments = cfg.render_fragments();
    let f0 = fragments.remove(0);
    let f1 = fragments.remove(0);
    let f2 = fragments.remove(0);
    if crate::install::template::contains_token(f0.content.as_str()) {
        return Err(Error::UnresolvedToken);
    }
    if crate::install::template::contains_token(f1.content.as_str()) {
        return Err(Error::UnresolvedToken);
    }
    if crate::install::template::contains_token(f2.content.as_str()) {
        return Err(Error::UnresolvedToken);
    }
    let service = match substitute_checked(xray_service_template_str(), &vars) {
        Ok(s) => s,
        Err(e) => {
            return Err(e);
        },
    };
    let nginx = match substitute_checked(nginx_conf_template_str(), &vars) {
        Ok(s) => s,
        Err(e) => {
            return Err(e);
        },
    };
    let renew_sh = match substitute_checked(acme_renew_template_str(), &vars) {
        Ok(s) => s,
        Err(e) => {
            return Err(e);
        },
    };
    let cert_cron = match substitute_checked(cert_renew_cron_template_str(), &vars) {
        Ok(s) => s,
        Err(e) => {
            return Err(e);
        },
    };
    let mut files: Vec<OutputFile> = Vec::new();
    files.push(OutputFile { dir: xray_etc_dir().to_owned(), name: f0.name, content: f0.content });
    files.push(OutputFile { dir: xray_etc_dir().to_owned(), name: f1.name, content: f1.content });
    files.push(OutputFile { dir: xray_etc_dir().to_owned(), name: f2.name, content: f2.content });
    files.push(
        OutputFile {
            dir: systemd_dir().to_owned(),
            name: "xray.service".to_owned(),
            content: service,
        },
    );
    files.push(
        OutputFile { dir: nginx_dir().to_owned(), name: "nginx.conf".to_owned(), content: nginx },
    );
    files.push(
        OutputFile { dir: cert_dir.to_owned(), name: "renew.sh".to_owned(), content: renew_sh },
    );
    files.push(
        OutputFile {
            dir: cron_dir().to_owned(),
            name: "cert-renew".to_owned(),
            content: cert_cron,
        },
    );
    if args.domain_renew_url.is_some() {
        let domain_cron = match substitute_checked(domain_renew_cron_template_str(), &vars) {
            Ok(s) => s,
            Err(e) => {
                return Err(e);
            },
        };
        files.push(
            OutputFile {
                dir: cron_dir().to_owned(),
                name: "domain-renew".to_owned(),
                content: domain_cron,
            },
        );
    }
    Ok(files)
}

/// One connection address per provisioned client, in client order.
pub fn user_links(users: &Vec<Client>, domain: &str) -> (r: Vec<String>)
    ensures
        r@.len() == users@.len(),
        forall|k: int|
            0 <= k < r@.len() ==> (#[trigger] r@[k])@ == user_link_of(users@[k]@.id, domain@),
{
    let mut r: Vec<String> = Vec::new();
    let mut i: usize = 0;
    while i < users.len()
        invariant
            i <= users@.len(),
            r@.len() == i,
            forall|k: int|
                0 <= k < i ==> (#[trigger] r@[k])@ == user_link_of(users@[k]@.id, domain@),
        decreases users@.len() - i,
    {
        r.push(user_link(users[i].id.as_str(), domain));
        i = i + 1;
    }
    r
}

} // verus!
