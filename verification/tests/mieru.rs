use vps_cli::utils::OperationReport;
use vps_cli::mieru::{
    build_client_config, build_simple_link, check_mita_action, check_package_digest,
    check_protocol, check_standard_link, client_helper, compute_sha256, default_tag,
    default_username, detect_package_info, format_uri_host, insert_node, install_package_args,
    links_file, mita_config, mita_status_report, new_node, parse_port, random_b64url,
    resolve_protocol, selected_nodes, short_hex, strip_ip_brackets, ProtocolChoice,
    add_node_outcome, secret_gate, SecretGate, SecretView,
};

#[test]
fn simple_link_contains_expected_scheme() {
    let link = build_simple_link("user", "pass", "1.2.3.4", 8443, "TCP");
    assert!(link.starts_with("mierus://"));
    assert!(link.contains("port=8443"));
    assert!(link.contains("protocol=TCP"));
}

#[test]
fn client_config_prefers_ip_address_for_ip_hosts() {
    let config = build_client_config("1.2.3.4", 8443, "TCP", "user", "pass", true);
    assert_eq!(config.profiles[0].servers[0].ip_address.as_deref(), Some("1.2.3.4"));
    assert!(config.profiles[0].servers[0].domain_name.is_none());
}

#[test]
fn client_config_uses_domain_name_for_domain_hosts() {
    let config = build_client_config("example.com", 8443, "TCP", "user", "pass", false);
    assert_eq!(
        config.profiles[0].servers[0].domain_name.as_deref(),
        Some("example.com")
    );
    assert!(config.profiles[0].servers[0].ip_address.is_none());
}

#[test]
fn simple_link_brackets_ipv6_hosts() {
    assert_eq!(
        build_simple_link("u", "p", "2001:db8::1", 2000, "UDP"),
        "mierus://u:p@[2001:db8::1]?profile=default&mtu=1400&multiplexing=MULTIPLEXING_HIGH&handshake-mode=HANDSHAKE_STANDARD&port=2000&protocol=UDP"
    );
    assert_eq!(format_uri_host("[2001:db8::1]"), "[2001:db8::1]");
    assert_eq!(strip_ip_brackets(" [2001:db8::1] "), "2001:db8::1");
}

#[test]
fn ports_above_1024_only() {
    assert_eq!(parse_port("8443").unwrap(), 8443);
    assert_eq!(parse_port("1024").unwrap_err().message, "mieru/mita 端口范围必须为 1025-65535");
    assert_eq!(parse_port("http").unwrap_err().message, "端口必须为数字");
    assert_eq!(parse_port("70000").unwrap_err().message, "端口必须为数字");
}

#[test]
fn protocols_are_uppercased_and_checked() {
    assert!(matches!(resolve_protocol(Some("udp"), false), ProtocolChoice::Chosen(ref p) if p == "UDP"));
    assert!(matches!(resolve_protocol(None, true), ProtocolChoice::Ask));
    assert!(matches!(resolve_protocol(None, false), ProtocolChoice::Chosen(ref p) if p == "TCP"));
    assert!(check_protocol("TCP").is_ok());
    assert!(check_protocol("QUIC").is_err());
}

#[test]
fn generated_names_fall_back_to_the_clock() {
    assert_eq!(short_hex(Some("a1b2\n"), 255), "a1b2");
    assert_eq!(short_hex(Some("  "), 255), "ff");
    assert_eq!(short_hex(None, 0), "0");
    assert_eq!(random_b64url(Some("ab+/c=\nde"), 0, 24), "ab-_cde");
    assert_eq!(random_b64url(Some("abcdef"), 0, 4), "abcd");
    assert_eq!(random_b64url(None, 42, 24), "seed-42");
    assert_eq!(default_username("ab12"), "u_ab12");
    assert_eq!(default_tag("Tcp", 8443, "abc"), "mieru-tcp-8443-abc");
}

#[test]
fn nodes_clash_on_tag_or_binding() {
    let mut nodes = Vec::new();
    insert_node(&mut nodes, new_node("a", "example.com", 8443, "TCP", "u", "p", false, "1")).unwrap();
    assert!(insert_node(&mut nodes, new_node("a", "example.com", 9000, "UDP", "u", "p", false, "1")).is_err());
    assert!(insert_node(&mut nodes, new_node("b", "example.com", 8443, "TCP", "u", "p", false, "1")).is_err());
    insert_node(&mut nodes, new_node("b", "example.com", 8443, "UDP", "v", "q", false, "1")).unwrap();
    assert_eq!(nodes.len(), 2);
    let config = mita_config(&nodes);
    assert_eq!(config.port_bindings[1].protocol, "UDP");
    assert_eq!(config.users[1].name, "v");
    assert_eq!(
        links_file(&nodes),
        format!("1. [a] TCP\n   {}\n2. [b] UDP\n   {}\n", nodes[0].link, nodes[1].link)
    );
    assert_eq!(selected_nodes(&nodes, Some("b")), vec![1]);
    assert_eq!(selected_nodes(&nodes, None), vec![0, 1]);
    assert!(selected_nodes(&nodes, Some("c")).is_empty());
}

#[test]
fn packages_follow_architecture_and_installer() {
    let info = detect_package_info("3.32.0", "x86_64", true, false).unwrap();
    assert_eq!(info.package, "mita_3.32.0_amd64.deb");
    assert_eq!(
        info.url,
        "https://github.com/enfein/mieru/releases/download/v3.32.0/mita_3.32.0_amd64.deb"
    );
    let info = detect_package_info("3.32.0", "aarch64", false, true).unwrap();
    assert_eq!(info.package, "mita-3.32.0-1.arm64.rpm");
    assert_eq!(info.installer, "rpm");
    assert!(detect_package_info("3.32.0", "riscv64", true, true).is_err());
    assert!(detect_package_info("3.32.0", "x86_64", false, false).is_err());
    assert_eq!(install_package_args("rpm", "/tmp/p.rpm").unwrap(), vec!["-Uvh", "/tmp/p.rpm"]);
    assert!(install_package_args("apk", "/tmp/p").is_err());
}

#[test]
fn client_helper_paths() {
    let helper = client_helper("linux", "aarch64").unwrap();
    assert_eq!(helper.binary, "/tmp/vps-cli-mieru-helper/3.32.0/arm64/mieru");
    assert_eq!(
        helper.url,
        "https://github.com/enfein/mieru/releases/download/v3.32.0/mieru_3.32.0_linux_arm64.tar.gz"
    );
    assert!(client_helper("macos", "aarch64").is_err());
    assert_eq!(check_standard_link(" mieru://abc \n").unwrap(), "mieru://abc");
    assert!(check_standard_link("mierus://abc").is_err());
}

#[test]
fn digests_and_status() {
    assert_eq!(
        compute_sha256(b"abc"),
        "ba7816bf8f01cfea414140de5dae2223b00361a396177a9cb410ff61f20015ad"
    );
    assert!(check_package_digest("ABCD", "abcd").is_ok());
    assert!(check_package_digest("abcd", "abce").is_err());
    let (service, client, report) = mita_status_report(Some(""), None);
    assert_eq!(service, "unknown");
    assert_eq!(client, "");
    assert_eq!(report.warnings.len(), 1);
    assert!(check_mita_action("start").is_ok());
    assert!(check_mita_action("restart").is_err());
}

#[test]
fn uri_host_round_trips_through_bracket_stripping() {
    for host in ["2001:db8::1", "example.com", "1.2.3.4", "fe80::1%eth0"] {
        assert_eq!(strip_ip_brackets(&format_uri_host(host)), host);
    }
    assert_eq!(format_uri_host("2001:db8::1"), "[2001:db8::1]");
}

#[test]
fn add_node_reports_where_secrets_are_not_the_secrets() {
    let node = new_node("t1", "example.com", 2000, "TCP", "u", "p", false, "0");
    let mut report = OperationReport::default();
    let added = add_node_outcome(&node, false, false, &mut report);
    assert_eq!((added.tag.as_str(), added.protocol.as_str(), added.port, added.host.as_str()), ("t1", "TCP", 2000, "example.com"));
    assert!(added.next_steps.is_none());
    assert_eq!(report.sensitive, None);
    assert!(report.warnings.is_empty());
    assert_eq!(added.next.len(), 3);

    let mut report = OperationReport::default();
    let added = add_node_outcome(&node, false, true, &mut report);
    let steps = added.next_steps.expect("next steps");
    assert_eq!(steps.show_simple_links, "vps-cli mieru show-simple-links --show-secrets");
    assert_eq!(steps.show_standard_links, "vps-cli mieru show-standard-links --show-secrets");
    assert_eq!(report.sensitive, Some(true));
    assert_eq!(report.warnings, vec!["已按独立命令拆分敏感输出；请使用 `show-simple-links` 或 `show-standard-links` 查看链接。".to_string()]);

    let mut report = OperationReport::default();
    let added = add_node_outcome(&node, true, false, &mut report);
    assert!(added.next_steps.is_some());
    assert_eq!(report.sensitive, None);
    assert_eq!(added.next[0].cmd, "vps-cli mieru add-node --confirm");
}

#[test]
fn secrets_need_their_flag() {
    match secret_gate(SecretView::SimpleLinks, false) {
        SecretGate::Hidden { tips, next } => {
            assert_eq!(tips, vec!["如需查看 simple 分享链接，请显式传入 --show-secrets".to_string()]);
            assert_eq!(next[0].cmd, "vps-cli mieru show-simple-links --show-secrets");
        }
        other => panic!("unexpected {:?}", other),
    }
    match secret_gate(SecretView::Config, true) {
        SecretGate::Shown { report } => {
            assert_eq!(report.sensitive, Some(true));
            assert_eq!(report.warnings, vec!["完整配置包含凭据与端口绑定，不应贴入公开日志。".to_string()]);
        }
        other => panic!("unexpected {:?}", other),
    }
    match secret_gate(SecretView::Links, true) {
        SecretGate::Shown { report } => assert_eq!(report.warnings.len(), 2),
        other => panic!("unexpected {:?}", other),
    }
    match secret_gate(SecretView::StandardLinks, false) {
        SecretGate::Hidden { tips, .. } => assert_eq!(tips, vec!["如需查看标准分享链接，请显式传入 --show-secrets".to_string()]),
        other => panic!("unexpected {:?}", other),
    }
}
