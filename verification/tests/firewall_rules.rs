use vps_cli::firewall::{
    filter_entries, parse_iptables_rules, parse_nft_ruleset, parse_ufw_status,
    render_entries_table, render_human_table, render_plain_tsv, FirewallPortEntry,
    FirewallPortsOutput,
};

fn entry(port: &str, protocol: &str, family: &str, action: &str) -> FirewallPortEntry {
    FirewallPortEntry {
        port: port.into(),
        protocol: protocol.into(),
        family: family.into(),
        action: action.into(),
    }
}

#[test]
fn parse_ufw_status_supports_multiport_and_ipv6() {
    let output = r#"Status: active

To                         Action      From
--                         ------      ----
22/tcp                     ALLOW       Anywhere
80,443/tcp                 ALLOW       Anywhere
60000:61000/udp            ALLOW       Anywhere
22/tcp (v6)                ALLOW       Anywhere (v6)
"#;

    let entries = parse_ufw_status(output);
    assert!(entries.contains(&entry("22", "tcp", "ipv4", "ALLOW")));
    assert!(entries.contains(&entry("443", "tcp", "ipv4", "ALLOW")));
    assert!(entries.contains(&entry("60000-61000", "udp", "ipv4", "ALLOW")));
    assert!(entries.contains(&entry("22", "tcp", "ipv6", "ALLOW")));
}

#[test]
fn parse_nft_ruleset_supports_sets_and_ranges() {
    let output = r#"table inet filter {
    chain input {
        tcp dport 22 accept
        udp dport { 53, 67 } accept
        tcp dport 60000-61000 accept
    }
}"#;

    let entries = parse_nft_ruleset(output);
    assert!(entries.contains(&entry("22", "tcp", "inet", "ACCEPT")));
    assert!(entries.contains(&entry("53", "udp", "inet", "ACCEPT")));
    assert!(entries.contains(&entry("60000-61000", "tcp", "inet", "ACCEPT")));
}

#[test]
fn parse_iptables_rules_supports_multiport_and_filtering() {
    let output = r#"-P INPUT ACCEPT
-A INPUT -p tcp -m tcp --dport 22 -j ACCEPT
-A INPUT -p tcp -m multiport --dports 80,443 -j ACCEPT
-A INPUT -p udp -m udp --dport 60000:61000 -j ACCEPT
"#;

    let filtered = filter_entries(parse_iptables_rules(output, "ipv4"), Some(443));
    assert_eq!(filtered, vec![entry("443", "tcp", "ipv4", "ACCEPT")]);

    let range_filtered = filter_entries(parse_iptables_rules(output, "ipv4"), Some(60001));
    assert_eq!(
        range_filtered,
        vec![entry("60000-61000", "udp", "ipv4", "ACCEPT")]
    );
}

#[test]
fn render_human_table_contains_summary_and_rows() {
    let data = FirewallPortsOutput {
        backend: "ufw".into(),
        filter_port: Some(443),
        entry_count: 2,
        entries: vec![
            entry("22", "tcp", "ipv4", "ALLOW"),
            entry("443", "tcp", "ipv6", "ALLOW"),
        ],
    };

    let rendered = render_human_table(&data);
    assert!(rendered.contains("防火墙: ufw"));
    assert!(rendered.contains("筛选端口: 443"));
    assert!(rendered.contains("匹配规则: 2"));
    assert!(rendered.contains("端口"));
    assert!(rendered.contains("443"));
    assert!(rendered.contains("ipv6"));
}

#[test]
fn render_entries_table_handles_empty_rows() {
    let rendered = render_entries_table(&[]);
    assert!(rendered.contains("端口"));
    assert!(rendered.contains("未匹配到开放规则"));
}

#[test]
fn render_plain_tsv_uses_header_and_tab_separators() {
    let data = FirewallPortsOutput {
        backend: "ufw".into(),
        filter_port: None,
        entry_count: 1,
        entries: vec![entry("443", "tcp", "ipv4", "ALLOW")],
    };

    let rendered = render_plain_tsv(&data);
    assert!(rendered.starts_with("port\tprotocol\tfamily\taction\tbackend"));
    assert!(rendered.contains("\n443\ttcp\tipv4\tALLOW\tufw"));
    assert!(!rendered.contains("filter_port:"));
}

#[test]
fn firewall_render_plain_tsv_keeps_header_when_empty() {
    let data = FirewallPortsOutput {
        backend: "iptables".into(),
        filter_port: Some(1234),
        entry_count: 0,
        entries: vec![],
    };

    assert_eq!(
        render_plain_tsv(&data),
        "port\tprotocol\tfamily\taction\tbackend"
    );
}

#[test]
fn entries_table_pads_columns_to_byte_widths() {
    let rendered = render_entries_table(&[entry("22", "tcp", "ipv4", "ALLOW")]);
    let expected = "端口      协议      地址族        动作    \n------  ------  ---------  ------\n22      tcp     ipv4       ALLOW ";
    assert_eq!(rendered, expected);
}

#[test]
fn filter_entries_sorts_and_removes_repetitions() {
    let entries = vec![
        entry("443", "tcp", "ipv4", "ALLOW"),
        entry("22", "tcp", "ipv4", "ALLOW"),
        entry("443", "tcp", "ipv4", "ALLOW"),
        entry("22", "udp", "ipv4", "ALLOW"),
    ];
    assert_eq!(
        filter_entries(entries, None),
        vec![
            entry("22", "tcp", "ipv4", "ALLOW"),
            entry("22", "udp", "ipv4", "ALLOW"),
            entry("443", "tcp", "ipv4", "ALLOW"),
        ]
    );
}
