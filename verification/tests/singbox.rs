use vps_cli::safety::ConfirmationGate;
use vps_cli::singbox::{
    check_download_digest, confirm_gate, detect_arch, download_url, extracted_dir_name,
    find_extracted_dir, next_node_id, node_listing, node_removal_index, outbounds_to_tag,
    service_args, service_outcome, service_unit, ServiceOutcome, FieldValue, NodeFileShape, Outbound,
};

fn outbound(tag: Option<&str>, kind: Option<&str>) -> Outbound {
    Outbound {
        is_object: true,
        tag: match tag {
            Some(t) => FieldValue::Text(t.into()),
            None => FieldValue::Absent,
        },
        kind: match kind {
            Some(k) => FieldValue::Text(k.into()),
            None => FieldValue::Absent,
        },
        protocol: FieldValue::Absent,
    }
}

#[test]
fn releases_follow_architecture() {
    assert_eq!(detect_arch("x86_64").as_deref(), Some("amd64"));
    assert_eq!(detect_arch("i686").as_deref(), Some("386"));
    assert_eq!(detect_arch("riscv64"), None);
    assert_eq!(
        download_url("latest", "arm64"),
        "https://github.com/SagerNet/sing-box/releases/latest/download/sing-box-linux-arm64.tar.gz"
    );
    assert_eq!(
        download_url("1.9.0", "amd64"),
        "https://github.com/SagerNet/sing-box/releases/download/v1.9.0/sing-box-1.9.0-linux-amd64.tar.gz"
    );
    assert_eq!(extracted_dir_name("1.9.0", "amd64"), "sing-box-1.9.0-linux-amd64");
    let names = vec!["sing-box.tar.gz".to_string(), "x".to_string()];
    assert_eq!(find_extracted_dir(&names), Some(0));
    assert_eq!(find_extracted_dir(&vec!["x".to_string()]), None);
    assert!(check_download_digest("ABC", "abc").is_ok());
    assert_eq!(
        check_download_digest("abd", "abc").unwrap_err().message,
        "SHA256 校验失败: 期待 abc, 计算得 abd"
    );
    assert!(service_unit().contains("ExecStart=/usr/local/bin/sing-box run -c /etc/sing-box/config.json"));
}

#[test]
fn writing_commands_need_confirmation() {
    assert!(matches!(confirm_gate(false, true, false, "x"), ConfirmationGate::Proceed));
    assert!(matches!(confirm_gate(true, false, false, "x"), ConfirmationGate::Ask));
    match confirm_gate(false, false, false, "非交互模式删除节点必须使用 --confirm") {
        ConfirmationGate::Refuse(e) => assert_eq!(e.message, "非交互模式删除节点必须使用 --confirm"),
        _ => panic!("expected a refusal"),
    }
}

#[test]
fn service_actions() {
    assert_eq!(service_args("status").unwrap(), vec!["is-active", "sing-box"]);
    assert_eq!(service_args("restart").unwrap(), vec!["restart", "sing-box"]);
    assert!(service_args("reload").is_err());
}

#[test]
fn nodes_get_ids_and_tags() {
    assert_eq!(next_node_id(2), "node3");
    let items = vec![outbound(Some("a"), None), outbound(None, None)];
    assert_eq!(outbounds_to_tag(NodeFileShape::Array, &items).unwrap(), vec![false, true]);
    assert!(outbounds_to_tag(NodeFileShape::Other, &items).is_err());
}

#[test]
fn listing_and_removal() {
    let mut other = outbound(None, None);
    other.protocol = FieldValue::Text("vless".into());
    let outbounds = vec![outbound(Some("direct"), Some("direct")), other, outbound(Some("b"), None)];
    let listed = node_listing(&outbounds, None);
    assert_eq!(listed.len(), 3);
    assert_eq!(listed[1].id, "2");
    assert_eq!(listed[1].kind, "vless");
    assert_eq!(listed[2].kind, "unknown");
    assert_eq!(node_listing(&outbounds, Some(1)).len(), 1);
    assert_eq!(node_removal_index("2", &outbounds), Some(1));
    assert_eq!(node_removal_index("0", &outbounds), None);
    assert_eq!(node_removal_index("4", &outbounds), None);
    assert_eq!(node_removal_index("b", &outbounds), Some(2));
    assert_eq!(node_removal_index("missing", &outbounds), None);
    assert_eq!(node_removal_index("", &outbounds), None);
}

#[test]
fn service_unit_is_the_systemd_unit_file() {
    assert_eq!(
        service_unit(),
        "[Unit]
Description=sing-box service
After=network.target

[Service]
Type=simple
User=sing-box
ExecStart=/usr/local/bin/sing-box run -c /etc/sing-box/config.json
Restart=on-failure
LimitNOFILE=1048576

[Install]
WantedBy=multi-user.target
"
    );
    assert!(!service_unit().contains('\\'));
}

#[test]
fn service_actions_report_or_fail() {
    match service_outcome("status", true, " active\n").unwrap() {
        ServiceOutcome::Status { state, next_action, next_cmd } => {
            assert_eq!(state, "active");
            assert_eq!((next_action.as_str(), next_cmd.as_str()), ("restart", "vps-cli singbox restart"));
        }
        other => panic!("unexpected {:?}", other),
    }
    match service_outcome("status", false, "inactive").unwrap() {
        ServiceOutcome::Status { state, .. } => assert_eq!(state, "unknown"),
        other => panic!("unexpected {:?}", other),
    }
    match service_outcome("stop", true, "").unwrap() {
        ServiceOutcome::Done { key, message, next_action, next_cmd } => {
            assert_eq!(key, "stopped");
            assert_eq!(message, "已停止 sing-box 服务");
            assert_eq!((next_action.as_str(), next_cmd.as_str()), ("start", "vps-cli singbox start"));
        }
        other => panic!("unexpected {:?}", other),
    }
    match service_outcome("start", true, "").unwrap() {
        ServiceOutcome::Done { key, next_cmd, .. } => {
            assert_eq!(key, "started");
            assert_eq!(next_cmd, "vps-cli singbox status");
        }
        other => panic!("unexpected {:?}", other),
    }
    let err = service_outcome("restart", false, "").unwrap_err();
    assert_eq!(err.message, "重启 sing-box 服务失败");
    assert_eq!(err.code, 1);
    assert_eq!(service_outcome("start", false, "").unwrap_err().message, "启动 sing-box 服务失败");
    assert_eq!(service_outcome("reload", true, "").unwrap_err().message, "未知操作");
}
