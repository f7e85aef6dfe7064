use vps_cli::trusttunnel::{
    export_binary_check,
    command_failed, config_path_summary, detected_binaries, export_args, export_outcome,
    first_toml_string_value_in, install_plan, installer_common_args, journal_args,
    missing_service_guidance, non_empty_text, normalized_install_dir, parse_toml_string_assignment,
    parse_toml_string_literal, required_value, resolve_credentials_path, credentials_path_in,
    service_file_needs_update, should_inline_deeplink, status_report, wizard_run, ExportOptions,
    ExportedContent, RequiredValue, WizardRun,
};
use vps_cli::utils::OutputFormat;

#[test]
fn parse_toml_string_assignment_extracts_value() {
    assert_eq!(
        parse_toml_string_assignment(r#"hostname = "vpn.example.com""#, "hostname"),
        Some("vpn.example.com".into())
    );
    assert_eq!(
        parse_toml_string_assignment(r#"username = "user1""#, "username"),
        Some("user1".into())
    );
}

#[test]
fn only_deeplink_is_inlined_by_default() {
    assert!(should_inline_deeplink("deeplink"));
    assert!(!should_inline_deeplink("toml"));
}

#[test]
fn toml_lines_that_are_not_string_assignments_are_skipped() {
    assert_eq!(parse_toml_string_assignment("# hostname = \"x\"", "hostname"), None);
    assert_eq!(parse_toml_string_assignment("hostnames = \"x\"", "hostname"), None);
    assert_eq!(parse_toml_string_assignment("port = 443", "port"), None);
    assert_eq!(parse_toml_string_assignment("  key=\"a\" # note", "key"), Some("a".into()));
    assert_eq!(parse_toml_string_literal("\"unterminated"), None);
    assert_eq!(parse_toml_string_literal("\"\""), Some(String::new()));
}

#[test]
fn first_hostname_wins() {
    let hosts = r#"
[[main_hosts]]
hostname = "vpn.example.com"

[[ping_hosts]]
hostname = "ping.example.com"
"#;
    assert_eq!(
        first_toml_string_value_in(hosts, "hostname").as_deref(),
        Some("vpn.example.com")
    );
    assert_eq!(first_toml_string_value_in(hosts, "username"), None);
}

#[test]
fn credentials_path_follows_settings_directory() {
    assert_eq!(
        resolve_credentials_path("/opt/trusttunnel/vpn.toml", None),
        "/opt/trusttunnel/credentials.toml"
    );
    assert_eq!(
        resolve_credentials_path("/srv/config/vpn.toml", Some("creds.toml")),
        "/srv/config/creds.toml"
    );
    assert_eq!(
        resolve_credentials_path("/srv/config/vpn.toml", Some("/etc/tt/creds.toml")),
        "/etc/tt/creds.toml"
    );
    assert_eq!(resolve_credentials_path("vpn.toml", None), "credentials.toml");
}

#[test]
fn install_dir_and_paths() {
    assert_eq!(normalized_install_dir(Some("/opt")), "/opt/trusttunnel");
    let paths = config_path_summary("/srv/tt/");
    assert_eq!(paths.vpn, "/srv/tt/vpn.toml");
    assert_eq!(paths.service_template, "/srv/tt/trusttunnel.service.template");
    assert_eq!(paths.systemd_service, "/etc/systemd/system/trusttunnel.service");
    assert_eq!(
        detected_binaries("/opt/trusttunnel", true, false, true),
        vec![
            "/opt/trusttunnel/trusttunnel_endpoint".to_string(),
            "/opt/trusttunnel/trusttunnel.service.template".to_string(),
        ]
    );
}

#[test]
fn installer_answers_yes_when_nobody_can() {
    assert_eq!(
        installer_common_args("/opt/trusttunnel", Some("1.0.33")),
        vec!["-o", "/opt/trusttunnel", "-V", "1.0.33"]
    );
    let plan = install_plan("/opt/trusttunnel", None, false, false);
    assert_eq!(plan.script_args, vec!["-o", "/opt/trusttunnel", "-a", "y"]);
    assert_eq!(plan.warnings.len(), 1);
    let plan = install_plan("/opt/trusttunnel", None, false, true);
    assert_eq!(plan.script_args, vec!["-o", "/opt/trusttunnel"]);
    assert!(plan.warnings.is_empty());
    let plan = install_plan("/opt/trusttunnel", None, true, false);
    assert!(plan.warnings.is_empty());
}

#[test]
fn export_arguments_in_order() {
    let options = ExportOptions {
        name: Some("home".into()),
        dns_upstreams: vec!["1.1.1.1".into(), "8.8.8.8".into()],
        generate_client_random_prefix: true,
        client_random_prefix: None,
        prefix_length: Some("4".into()),
        prefix_percent: None,
        prefix_mask: None,
    };
    assert_eq!(
        export_args("vpn.toml", "hosts.toml", "demo", "example.com:443", "deeplink", &options),
        vec![
            "vpn.toml", "hosts.toml", "-c", "demo", "-a", "example.com:443", "--format",
            "deeplink", "--name", "home", "--dns-upstream", "1.1.1.1", "--dns-upstream",
            "8.8.8.8", "--generate-client-random-prefix", "--prefix-length", "4",
        ]
    );
}

#[test]
fn exported_secrets_are_hidden_unless_asked() {
    let (content, report) = export_outcome("toml", false, "secret\n");
    assert!(matches!(content, ExportedContent::Hidden { .. }));
    assert_eq!(report.sensitive, None);
    let (content, report) = export_outcome("deeplink", false, " tt://link \n");
    assert!(matches!(content, ExportedContent::Link(ref l) if l == "tt://link"));
    assert_eq!(report.sensitive, Some(true));
    let (content, _) = export_outcome("deeplink", true, "tt://link");
    assert!(matches!(content, ExportedContent::Content(ref c) if c == "tt://link"));
}

#[test]
fn required_values_are_asked_or_refused() {
    assert!(matches!(required_value(Some("demo".into()), "客户端", false), RequiredValue::Given(ref v) if v == "demo"));
    assert!(matches!(required_value(Some("  ".into()), "客户端", true), RequiredValue::Ask));
    match required_value(None, "客户端", false) {
        RequiredValue::Missing(e) => assert_eq!(e.message, "缺少必需参数：客户端"),
        _ => panic!("expected an error"),
    }
}

#[test]
fn command_failures_prefer_error_output() {
    assert_eq!(command_failed("安装失败", "out", " err ").message, "安装失败: err");
    assert_eq!(command_failed("安装失败", " out ", " ").message, "安装失败: out");
    assert_eq!(command_failed("安装失败", "", "").message, "安装失败: 命令未返回更多信息");
    assert_eq!(non_empty_text(" \n"), None);
    assert_eq!(non_empty_text(" ok\n"), Some("ok".into()));
}

#[test]
fn wizard_and_service_decisions() {
    assert_eq!(wizard_run(true, false, "/x", false, OutputFormat::Json, false).unwrap(), WizardRun::PrintPaths);
    assert!(wizard_run(false, false, "/x", true, OutputFormat::Human, false).is_err());
    assert!(wizard_run(false, true, "/x", false, OutputFormat::Human, false).is_err());
    assert_eq!(wizard_run(false, true, "/x", true, OutputFormat::Human, false).unwrap(), WizardRun::Interactive);
    assert_eq!(wizard_run(false, true, "/x", true, OutputFormat::Json, false).unwrap(), WizardRun::Captured);
    assert_eq!(wizard_run(false, true, "/x", false, OutputFormat::Human, true).unwrap(), WizardRun::Captured);

    let (status, report) = status_report(true, "active\n", "", false, true);
    assert_eq!(status, "active");
    assert_eq!(report.warnings, vec![missing_service_guidance("/opt/trusttunnel", true)]);
    assert!(missing_service_guidance("/opt/trusttunnel", false).contains("/opt/trusttunnel/trusttunnel.service.template"));

    assert!(service_file_needs_update(None, b"x"));
    assert!(!service_file_needs_update(Some(b"x"), b"x"));
    assert!(service_file_needs_update(Some(b"y"), b"x"));

    assert!(journal_args(None, true, false).is_err());
    assert_eq!(
        journal_args(Some("20"), true, true).unwrap(),
        vec!["-u", "trusttunnel", "-n", "20", "--no-pager", "-f"]
    );
}

#[test]
fn credentials_path_in_settings_directory() {
    assert_eq!(credentials_path_in(Some("/srv/config"), None), "/srv/config/credentials.toml");
    assert_eq!(credentials_path_in(Some("/srv/config"), Some("c.toml")), "/srv/config/c.toml");
    assert_eq!(credentials_path_in(Some("/srv/config"), Some("/etc/c.toml")), "/etc/c.toml");
    assert_eq!(credentials_path_in(None, None), "./credentials.toml");
    assert_eq!(credentials_path_in(Some(""), Some("c.toml")), "c.toml");
}

#[test]
fn export_needs_the_server_binary() {
    assert!(export_binary_check(true, "/opt/trusttunnel/trusttunnel_endpoint").is_ok());
    assert_eq!(
        export_binary_check(false, "/opt/trusttunnel/trusttunnel_endpoint").unwrap_err().message,
        "未找到 trusttunnel_endpoint，请先执行 `vps-cli trusttunnel install`：/opt/trusttunnel/trusttunnel_endpoint"
    );
}
