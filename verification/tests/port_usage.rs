use vps_cli::port::{
    filter_entries, parse_lsof_output, parse_ss_output, render_human_table, render_plain_tsv,
    PortUsageEntry, PortUsageOutput,
};

fn usage(protocol: &str, port: u16, pid: Option<u32>, process: Option<&str>) -> PortUsageEntry {
    PortUsageEntry {
        protocol: protocol.into(),
        state: "LISTEN".into(),
        local_address: format!("127.0.0.1:{port}"),
        port,
        pid,
        process: process.map(|p| p.to_string()),
    }
}

#[test]
fn parse_ss_output_extracts_process_and_port() {
    let stdout = r#"tcp LISTEN 0 4096 127.0.0.1:8080 0.0.0.0:* users:(("python3",pid=9527,fd=3))
udp UNCONN 0 0 0.0.0.0:5353 0.0.0.0:* users:(("mdns",pid=7,fd=5))"#;

    let entries = parse_ss_output(stdout);

    assert_eq!(entries.len(), 2);
    assert_eq!(entries[0].protocol, "tcp");
    assert_eq!(entries[0].port, 8080);
    assert_eq!(entries[0].pid, Some(9527));
    assert_eq!(entries[0].process.as_deref(), Some("python3"));
    assert_eq!(entries[1].protocol, "udp");
    assert_eq!(entries[1].port, 5353);
}

#[test]
fn parse_lsof_output_extracts_listener_rows() {
    let stdout = r#"COMMAND   PID USER   FD   TYPE             DEVICE SIZE/OFF NODE NAME
Python   9527 user    3u  IPv4 0x123456789abcdef0      0t0  TCP 127.0.0.1:8080 (LISTEN)
dnsmasq   777 root    5u  IPv4 0xfedcba9876543210      0t0  UDP *:53"#;

    let entries = parse_lsof_output(stdout);

    assert_eq!(entries.len(), 2);
    assert_eq!(entries[0].protocol, "tcp");
    assert_eq!(entries[0].state, "LISTEN");
    assert_eq!(entries[0].port, 8080);
    assert_eq!(entries[0].process.as_deref(), Some("Python"));
    assert_eq!(entries[1].protocol, "udp");
    assert_eq!(entries[1].state, "UNCONN");
    assert_eq!(entries[1].port, 53);
}

#[test]
fn port_render_plain_tsv_keeps_header_when_empty() {
    let data = PortUsageOutput {
        backend: "ss".into(),
        filter_port: None,
        listening_only: true,
        entry_count: 0,
        entries: vec![],
    };

    assert_eq!(
        render_plain_tsv(&data),
        "protocol\tstate\tlocal_address\tport\tpid\tprocess\tbackend"
    );
}

#[test]
fn port_render_plain_tsv_leaves_missing_fields_empty() {
    let data = PortUsageOutput {
        backend: "lsof".into(),
        filter_port: Some(53),
        listening_only: false,
        entry_count: 1,
        entries: vec![usage("udp", 53, None, None)],
    };

    assert_eq!(
        render_plain_tsv(&data),
        "protocol\tstate\tlocal_address\tport\tpid\tprocess\tbackend\nudp\tLISTEN\t127.0.0.1:53\t53\t\t\tlsof"
    );
}

#[test]
fn port_filter_keeps_first_of_repeated_entries() {
    let entries = vec![
        usage("tcp", 80, Some(1), Some("nginx")),
        usage("tcp", 22, Some(2), Some("sshd")),
        usage("tcp", 80, Some(1), Some("nginx")),
        usage("udp", 80, None, None),
    ];
    let kept = filter_entries(entries.clone(), Some(80));
    assert_eq!(kept.len(), 2);
    assert_eq!(kept[0], entries[0]);
    assert_eq!(kept[1], entries[3]);
    let all = filter_entries(entries.clone(), None);
    assert_eq!(all.len(), 3);
}

#[test]
fn port_human_table_shows_scope_and_dashes() {
    let data = PortUsageOutput {
        backend: "ss".into(),
        filter_port: None,
        listening_only: true,
        entry_count: 1,
        entries: vec![usage("tcp", 22, None, None)],
    };
    let text = render_human_table(&data);
    let lines: Vec<&str> = text.lines().collect();
    assert_eq!(lines[0], "查询工具: ss");
    assert_eq!(lines[1], "筛选端口: 全部");
    assert_eq!(lines[2], "连接范围: 仅监听");
    assert_eq!(lines[3], "匹配记录: 1");
    assert_eq!(lines[6], "tcp     LISTEN  127.0.0.1:22  22      -    -     ");
}
