use vps_cli::reclaim::{
    backup_candidate_paths, backup_label, candidate_descriptions, collect_candidates,
    dedup_candidates, is_benign_systemctl_stderr, normalized_trusttunnel_dir, proxy_cleanup_job,
    proxy_paths, proxy_service_units, rollback_error, rollback_steps, sanitize_path,
    systemctl_failure_warning, web_cleanup_job, web_server_paths, BackupEntry, Candidate,
    CandidateKind,
};
use vps_cli::utils::{CliError, OperationReport};

#[test]
fn benign_systemctl_missing_unit_messages_are_ignored() {
    assert!(is_benign_systemctl_stderr(
        "Failed to reset failed state of unit sing-box.service: Unit sing-box.service not loaded."
    ));
    assert!(is_benign_systemctl_stderr(
        "Failed to disable unit: Unit file sing-box.service does not exist."
    ));
    assert!(is_benign_systemctl_stderr(
        "Unit sing-box.service could not be found."
    ));
}

#[test]
fn unexpected_systemctl_errors_are_not_ignored() {
    assert!(!is_benign_systemctl_stderr(
        "Failed to connect to bus: No such file or directory"
    ));
}

#[test]
fn systemctl_warning_names_the_command() {
    let args = vec!["stop".to_string(), "xray".to_string()];
    assert_eq!(
        systemctl_failure_warning(&args, "  Access denied\n"),
        Some("警告: `systemctl stop xray` 失败: Access denied".to_string())
    );
    assert_eq!(systemctl_failure_warning(&args, "Unit xray.service NOT LOADED."), None);
    assert_eq!(systemctl_failure_warning(&args, "   "), None);
}

#[test]
fn trusttunnel_dir_defaults() {
    assert_eq!(normalized_trusttunnel_dir(None), "/opt/trusttunnel");
    assert_eq!(normalized_trusttunnel_dir(Some("  ")), "/opt/trusttunnel");
    assert_eq!(normalized_trusttunnel_dir(Some(".")), "/opt/trusttunnel");
    assert_eq!(normalized_trusttunnel_dir(Some(" /opt ")), "/opt/trusttunnel");
    assert_eq!(normalized_trusttunnel_dir(Some(" /srv/tt ")), "/srv/tt");
}

#[test]
fn sanitize_path_flattens_separators() {
    assert_eq!(sanitize_path("/etc/sing-box/config.json"), "etc_sing-box_config.json");
    assert_eq!(sanitize_path("///"), "root");
    assert_eq!(sanitize_path("/"), "root");
    assert_eq!(backup_label("proxy-cleanup", "/etc/xray"), "proxy-cleanup-etc_xray");
}

fn path(p: &str) -> Candidate {
    Candidate { kind: CandidateKind::Path, name: None, path: Some(p.to_string()) }
}

#[test]
fn dedup_sorts_and_keeps_first_of_each_key() {
    let service = Candidate {
        kind: CandidateKind::Service,
        name: Some("xray.service".into()),
        path: Some("/etc/xray".into()),
    };
    let items = vec![path("/var/log/xray"), service.clone(), path("/etc/xray"), path("/etc/v2ray")];
    let out = dedup_candidates(items);
    let keys: Vec<&str> = out.iter().map(|c| c.path.as_deref().unwrap()).collect();
    assert_eq!(keys, vec!["/etc/v2ray", "/etc/xray", "/var/log/xray"]);
    assert_eq!(out[1].kind, CandidateKind::Service);
}

#[test]
fn collected_candidates_have_unit_files() {
    let units = vec!["xray.service".to_string()];
    let paths = vec!["/etc/xray".to_string(), "/usr/local/bin/xray".to_string()];
    let out = collect_candidates(&units, &paths);
    assert_eq!(out.len(), 3);
    assert_eq!(out[0].path.as_deref(), Some("/etc/systemd/system/xray.service"));
    assert_eq!(out[0].name.as_deref(), Some("xray.service"));
    assert_eq!(
        candidate_descriptions(&out),
        vec![
            "service xray.service (/etc/systemd/system/xray.service)".to_string(),
            "path /etc/xray".to_string(),
            "path /usr/local/bin/xray".to_string(),
        ]
    );
    assert_eq!(
        backup_candidate_paths(&out),
        vec![
            "/etc/systemd/system/xray.service".to_string(),
            "/etc/xray".to_string(),
            "/usr/local/bin/xray".to_string(),
        ]
    );
}

#[test]
fn candidate_lists_match_servers() {
    assert_eq!(proxy_service_units().len(), 4);
    assert_eq!(proxy_paths().len(), 11);
    assert_eq!(web_server_paths("nginx")[0], "/etc/nginx");
    assert_eq!(web_server_paths("caddy")[2], "/usr/bin/caddy");
    assert!(web_server_paths("apache").is_empty());
}

#[test]
fn cleanup_texts_count_candidates() {
    assert_eq!(proxy_cleanup_job(3).prompt, "将尝试删除 3 个代理候选路径/服务，确认继续？");
    let job = web_cleanup_job("nginx", 2);
    assert_eq!(job.prompt, "将尝试清理 nginx 的 2 个候选路径/服务，确认继续？");
    assert_eq!(job.backup_prefix, "nginx-cleanup");
}

#[test]
fn rollback_restores_latest_first() {
    let entries = vec![
        BackupEntry { original_path: "/a".into(), backup_path: Some("/b/a.1.bak".into()) },
        BackupEntry { original_path: "/missing".into(), backup_path: None },
        BackupEntry { original_path: "/c".into(), backup_path: Some("/b/c.1.bak".into()) },
    ];
    assert_eq!(
        rollback_steps(&entries),
        vec![
            ("/b/c.1.bak".to_string(), "/c".to_string()),
            ("/b/a.1.bak".to_string(), "/a".to_string()),
        ]
    );
}

#[test]
fn rollback_error_reports_both_failures() {
    let mut report = OperationReport::default();
    let err = rollback_error(CliError::new("删除失败"), Ok(()), &mut report, "已恢复");
    assert_eq!(err.message, "删除失败");
    assert_eq!(err.warnings, vec!["已恢复".to_string()]);
    assert_eq!(report.rolled_back, Some(true));

    let mut report = OperationReport::default();
    let err = rollback_error(
        CliError::new("删除失败"),
        Err(CliError::new("恢复失败")),
        &mut report,
        "已恢复",
    );
    assert_eq!(err.message, "删除失败；回滚失败: 恢复失败");
    assert_eq!(err.warnings, vec!["已恢复 回滚阶段再次失败: 恢复失败".to_string()]);
    assert_eq!(report.rolled_back, Some(true));
}
