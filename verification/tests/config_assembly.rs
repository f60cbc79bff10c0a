use relay_setup::errors::Error;
use relay_setup::install::input_xray::Install;
use relay_setup::install::template::{substitute, substitute_checked, TokenBinding};
use relay_setup::install::xray::{assemble_output, template_vars, user_link, user_links};
use relay_setup::install::xray_config::XrayConfig;

fn args_with(count: usize, ids: Vec<String>, renew: bool) -> Install {
    Install {
        api: false,
        api_port: 8085,
        domain: "example.com".to_string(),
        domain_renew_url: if renew {
            Some("https://renew.example/cb".to_string())
        } else {
            None
        },
        zerossl_email: "operator@example.com".to_string(),
        add_users_count: count,
        add_user_ids: ids,
    }
}

fn is_uuid_shaped(id: &str) -> bool {
    let cs: Vec<char> = id.chars().collect();
    cs.len() == 36 && cs[8] == '-' && cs[13] == '-' && cs[18] == '-' && cs[23] == '-'
}

#[test]
fn explicit_ids_take_precedence_over_count() {
    // Explicit identifiers supplied with a requested count of five: the
    // count is ignored and only the two identifiers are provisioned.
    let args = args_with(5, vec!["a".to_string(), "b".to_string()], false);
    let mut cfg = XrayConfig::new(args.api, args.api_port, "/root/xray-cert");
    cfg.add_configured_users(&args);
    let users = cfg.users();
    assert_eq!(users.len(), 2);
    assert_eq!(users[0].id, "a");
    assert_eq!(users[1].id, "b");
    assert_eq!(users[0].flow(), "xtls-rprx-vision");
    assert_eq!(users[1].flow(), "xtls-rprx-vision");
}

#[test]
fn requested_count_gives_fresh_distinct_users() {
    let args = args_with(4, vec![], false);
    let mut cfg = XrayConfig::new(args.api, args.api_port, "/root/xray-cert");
    cfg.add_configured_users(&args);
    let users = cfg.users();
    assert_eq!(users.len(), 4);
    for u in users.iter() {
        assert!(is_uuid_shaped(&u.id));
        assert_eq!(u.flow(), "xtls-rprx-vision");
    }
    for i in 0..users.len() {
        for j in 0..i {
            assert_ne!(users[i].id, users[j].id);
        }
    }

    let none = args_with(0, vec![], false);
    let mut empty = XrayConfig::new(none.api, none.api_port, "/root/xray-cert");
    empty.add_configured_users(&none);
    assert_eq!(empty.users().len(), 0);
}

#[test]
fn fresh_users_and_printed_links() {
    // Domain example.com, API disabled, requested count two, no explicit
    // identifiers: two fresh UUID clients and one printed address each.
    let args = args_with(2, vec![], false);
    let mut cfg = XrayConfig::new(args.api, args.api_port, "/root/xray-cert");
    cfg.add_configured_users(&args);
    let users = cfg.users();
    assert_eq!(users.len(), 2);
    assert_ne!(users[0].id, users[1].id);
    let links = user_links(users, &args.domain);
    assert_eq!(links.len(), 2);
    for (u, l) in users.iter().zip(links.iter()) {
        assert!(is_uuid_shaped(&u.id));
        assert_eq!(u.flow(), "xtls-rprx-vision");
        assert_eq!(
            l,
            &format!(
                "vless://{}@example.com:443/?type=tcp&encryption=none&flow=xtls-rprx-vision&security=tls&fp=chrome#xray",
                u.id
            )
        );
    }
    assert_eq!(
        user_link("abc", "host.example"),
        "vless://abc@host.example:443/?type=tcp&encryption=none&flow=xtls-rprx-vision&security=tls&fp=chrome#xray"
    );
}

#[test]
fn fragment_names_sort_priority_first() {
    // The fragment carrying the priority API routing rule must sort
    // strictly before the fragments carrying the general rules and the
    // client inbound, by filename comparison alone, with and without API.
    for api in [true, false] {
        let cfg = XrayConfig::new(api, 8085, "/root/xray-cert");
        let frags = cfg.render_fragments();
        assert_eq!(frags.len(), 3);
        assert!(frags[0].name < frags[1].name);
        assert!(frags[1].name < frags[2].name);
        assert!(frags[0].name < frags[2].name);
        let api_rule = "{\"inboundTag\":[\"api\"],\"outboundTag\":\"api\"}";
        assert_eq!(frags[0].content.contains(api_rule), api);
        assert!(frags[0].content.contains("geoip:private"));
        assert!(frags[2].content.contains("\"tag\":\"vless\""));
        assert_eq!(frags[2].content.contains("\"tag\":\"api\""), api);
    }
}

#[test]
fn client_list_serializes_as_absent_when_empty() {
    let mut cfg = XrayConfig::new(false, 8085, "/root/xray-cert");
    let before = cfg.render_fragments();
    assert!(!before[2].content.contains("clients"));

    cfg.add_user_with_id("a");
    let after = cfg.render_fragments();
    assert!(after[2].content.contains(
        "\"clients\":[{\"id\":\"a\",\"flow\":\"xtls-rprx-vision\"}]"
    ));
}

#[test]
fn config_references_certificate_files() {
    let cfg = XrayConfig::new(false, 8085, "/home/op/xray-cert");
    let frags = cfg.render_fragments();
    assert!(frags[2].content.contains("\"certificateFile\":\"/home/op/xray-cert/xray.crt\""));
    assert!(frags[2].content.contains("\"keyFile\":\"/home/op/xray-cert/xray.key\""));
}

#[test]
fn substitution_replaces_every_occurrence() {
    let vars = vec![
        TokenBinding { name: "VAR_A".to_string(), value: "one".to_string() },
        TokenBinding { name: "VAR_B".to_string(), value: "two".to_string() },
    ];
    assert_eq!(substitute("VAR_A/VAR_B/VAR_A", &vars), "one/two/one");
    assert_eq!(
        substitute_checked("VAR_A and VAR_B", &vars).unwrap(),
        "one and two"
    );
    assert!(matches!(
        substitute_checked("VAR_A VAR_UNKNOWN", &vars),
        Err(Error::UnresolvedToken)
    ));
}

#[test]
fn assembled_files_are_token_free() {
    // After assembly, scanning every written file for the placeholder
    // prefix finds nothing.
    let args = args_with(1, vec![], true);
    let mut cfg = XrayConfig::new(args.api, args.api_port, "/home/op/xray-cert");
    cfg.add_configured_users(&args);
    let files = assemble_output(&args, "/home/op/xray-cert", "/home/op", &cfg).unwrap();
    assert_eq!(files.len(), 8);
    for f in files.iter() {
        assert!(!f.content.contains("VAR_"), "token left in {}", f.name);
    }
    assert_eq!(files[0].name, "00-routing.json");
    assert_eq!(files[1].name, "05-base.json");
    assert_eq!(files[2].name, "10-main.json");
    assert_eq!(files[3].name, "xray.service");
    assert_eq!(files[3].dir, "/etc/systemd/system");
    assert_eq!(files[4].name, "nginx.conf");
    assert!(files[4].content.contains("server_name example.com;"));
    assert_eq!(files[5].name, "renew.sh");
    assert_eq!(files[5].dir, "/home/op/xray-cert");
    assert!(files[5].content.contains("/home/op/.acme.sh/acme.sh"));
    assert_eq!(files[6].name, "cert-renew");
    assert_eq!(files[7].name, "domain-renew");
    assert!(files[7].content.contains("https://renew.example/cb"));

    let plain = args_with(1, vec![], false);
    let mut cfg2 = XrayConfig::new(plain.api, plain.api_port, "/home/op/xray-cert");
    cfg2.add_configured_users(&plain);
    let files2 = assemble_output(&plain, "/home/op/xray-cert", "/home/op", &cfg2).unwrap();
    assert_eq!(files2.len(), 7);
}

#[test]
fn assembly_refuses_leftover_tokens() {
    // A domain that itself looks like a placeholder leaves the prefix in a
    // written file, which assembly must treat as an error.
    let mut args = args_with(1, vec![], false);
    args.domain = "VAR_BROKEN".to_string();
    let mut cfg = XrayConfig::new(args.api, args.api_port, "/home/op/xray-cert");
    cfg.add_configured_users(&args);
    assert!(matches!(
        assemble_output(&args, "/home/op/xray-cert", "/home/op", &cfg),
        Err(Error::UnresolvedToken)
    ));
}

#[test]
fn template_vars_carry_the_install() {
    let args = args_with(0, vec![], false);
    let vars = template_vars(&args, "/home/op");
    let names: Vec<&str> = vars.iter().map(|b| b.name.as_str()).collect();
    assert_eq!(
        names,
        vec![
            "VAR_HOME",
            "VAR_DOMAIN_RENEW_URL",
            "VAR_DOMAIN",
            "VAR_VLESS_INBOUND_TAG",
            "VAR_XRAY_BIN",
            "VAR_XRAY_API_PORT",
            "VAR_XRAY_ETC_DIR",
        ]
    );
    assert_eq!(vars[0].value, "/home/op");
    assert_eq!(vars[1].value, "NOT_SET");
    assert_eq!(vars[2].value, "example.com");
    assert_eq!(vars[5].value, "8085");
}
