use vps_cli::setup_ssh::{
    answer_question, apply_failure, authorized_keys_content, check_public_key_text,
    effective_values, expect_effective, firewall_open_args, home_from_getent, next_question,
    parse_port, port_probe_commands, render_managed_config, root_and_ubuntu,
    sshd_supports_keyword, start_interview, validate_plan, verify_effective_config,
    unexpected_value_error, with_include_directive, apply_steps, ssh_restore_steps, RestoreStep, PlanAnswer, PlanQuestion, SetupPlan,
};
use vps_cli::utils::{CliError, OperationReport};

fn empty_plan() -> SetupPlan {
    SetupPlan {
        port: None,
        user: None,
        pubkey_file: None,
        rotate_authorized_key: false,
        skip_pubkey: false,
        allow_users: None,
        disable_root_login: false,
        disable_password_auth: false,
        write_hardening: false,
    }
}

#[test]
fn ssh_ports_start_at_1024() {
    assert_eq!(parse_port("2222").unwrap(), 2222);
    assert_eq!(parse_port("1024").unwrap(), 1024);
    assert_eq!(parse_port("22").unwrap_err().message, "端口必须在 1024-65535 之间");
    assert_eq!(parse_port("ssh").unwrap_err().message, "端口必须为数字");
}

#[test]
fn plans_are_checked_in_order() {
    let mut plan = empty_plan();
    plan.port = Some(2222);
    assert_eq!(
        validate_plan(&plan, true, false, Ok(())).unwrap_err().message,
        "端口 2222 已被其他服务占用"
    );
    plan.user = Some("bad user".into());
    assert_eq!(
        validate_plan(&plan, false, false, Ok(())).unwrap_err().message,
        "用户名只能包含字母、数字、下划线或短横线"
    );
    plan.user = Some("deploy_1".into());
    plan.pubkey_file = Some("/tmp/key.pub".into());
    assert_eq!(
        validate_plan(&plan, false, false, Ok(())).unwrap_err().message,
        "公钥文件不存在: /tmp/key.pub"
    );
    assert_eq!(
        validate_plan(&plan, false, true, Err(CliError::new("公钥文件为空"))).unwrap_err().message,
        "公钥文件为空"
    );
    plan.rotate_authorized_key = true;
    plan.allow_users = Some("admin ops".into());
    assert_eq!(
        validate_plan(&plan, false, true, Ok(())).unwrap_err().message,
        "AllowUsers 必须包含本次替换公钥的用户 deploy_1"
    );
    plan.allow_users = Some("admin deploy_1".into());
    assert!(validate_plan(&plan, false, true, Ok(())).is_ok());
    let mut plan = empty_plan();
    plan.rotate_authorized_key = true;
    assert_eq!(
        validate_plan(&plan, false, false, Ok(())).unwrap_err().message,
        "启用 --rotate-authorized-key 时必须同时提供 --pubkey-file"
    );
    let mut plan = empty_plan();
    plan.pubkey_file = Some("/k".into());
    assert_eq!(
        validate_plan(&plan, false, true, Ok(())).unwrap_err().message,
        "指定 --pubkey-file 时必须同时提供 --user"
    );
}

#[test]
fn only_ed25519_and_ecdsa_keys() {
    assert!(check_public_key_text("ssh-ed25519 AAAA user@host\n").is_ok());
    assert!(check_public_key_text("ecdsa-sha2-nistp256 AAAA").is_ok());
    assert_eq!(check_public_key_text("ssh-rsa AAAA").unwrap_err().message, "仅允许 ssh-ed25519 或 ECDSA 公钥");
    assert_eq!(check_public_key_text(" \n").unwrap_err().message, "公钥文件为空");
}

#[test]
fn interview_asks_only_what_is_open() {
    let mut plan = empty_plan();
    plan.port = Some(2222);
    plan.disable_root_login = true;
    let mut iv = start_interview();
    assert_eq!(next_question(&mut iv, &plan), Some(PlanQuestion::User));
    answer_question(&mut iv, &mut plan, PlanAnswer::Text("deploy".into())).unwrap();
    assert_eq!(next_question(&mut iv, &plan), Some(PlanQuestion::ReplaceKey));
    answer_question(&mut iv, &mut plan, PlanAnswer::YesNo(true)).unwrap();
    assert_eq!(next_question(&mut iv, &plan), Some(PlanQuestion::KeyPath));
    answer_question(&mut iv, &mut plan, PlanAnswer::Text("/root/key.pub".into())).unwrap();
    assert!(plan.rotate_authorized_key);
    assert_eq!(next_question(&mut iv, &plan), Some(PlanQuestion::SetAllowUsers));
    answer_question(&mut iv, &mut plan, PlanAnswer::YesNo(false)).unwrap();
    assert_eq!(next_question(&mut iv, &plan), Some(PlanQuestion::DisablePasswordAuth));
    answer_question(&mut iv, &mut plan, PlanAnswer::YesNo(true)).unwrap();
    assert_eq!(next_question(&mut iv, &plan), Some(PlanQuestion::WriteHardening));
    answer_question(&mut iv, &mut plan, PlanAnswer::YesNo(true)).unwrap();
    assert_eq!(next_question(&mut iv, &plan), None);
    assert_eq!(plan.user.as_deref(), Some("deploy"));
    assert!(plan.disable_password_auth && plan.write_hardening);
}

#[test]
fn interview_rejects_a_bad_port() {
    let mut plan = empty_plan();
    let mut iv = start_interview();
    assert_eq!(next_question(&mut iv, &plan), Some(PlanQuestion::Port));
    assert!(answer_question(&mut iv, &mut plan, PlanAnswer::Text("80".into())).is_err());
    assert_eq!(plan.port, None);
}

#[test]
fn managed_config_lists_the_plan() {
    let mut plan = empty_plan();
    plan.port = Some(2222);
    plan.disable_password_auth = true;
    plan.allow_users = Some(" deploy ".into());
    assert_eq!(
        render_managed_config(&plan, true, false),
        "# vps-cli managed configuration\nPort 2222\nPasswordAuthentication no\nKbdInteractiveAuthentication no\nAllowUsers deploy\n"
    );
}

#[test]
fn effective_configuration_is_checked() {
    let effective = "port 2222\npermitrootlogin no\npasswordauthentication no\nallowusers deploy admin\n";
    assert_eq!(effective_values(effective, "allowusers"), vec!["deploy admin".to_string()]);
    assert!(expect_effective(effective, "permitrootlogin", "no").is_ok());
    assert_eq!(
        expect_effective(effective, "usedns", "no").unwrap_err().message,
        "usedns 未按预期生效，期望 no，当前 []"
    );
    assert_eq!(
        expect_effective(effective, "port", "22").unwrap_err().message,
        "port 未按预期生效，期望 22，当前 [\"2222\"]"
    );
    let mut plan = empty_plan();
    plan.port = Some(2222);
    plan.disable_root_login = true;
    plan.disable_password_auth = true;
    plan.allow_users = Some("deploy".into());
    assert!(verify_effective_config(&plan, effective, false, false).is_ok());
    plan.allow_users = Some("deploy ops".into());
    assert_eq!(
        verify_effective_config(&plan, effective, false, false).unwrap_err().message,
        "AllowUsers 未包含预期用户 ops"
    );
    plan.port = Some(2022);
    assert_eq!(
        verify_effective_config(&plan, effective, false, false).unwrap_err().message,
        "Port 未按预期生效，期望 2022"
    );
    assert!(sshd_supports_keyword("kbdinteractiveauthentication no\n", "KbdInteractiveAuthentication"));
    assert!(!sshd_supports_keyword("port 22\n", "ChallengeResponseAuthentication"));
}

#[test]
fn include_directive_is_added_once() {
    assert_eq!(with_include_directive("Port 22\n  Include /etc/ssh/sshd_config.d/*.conf\n"), None);
    assert_eq!(
        with_include_directive("Port 22"),
        Some("Port 22\nInclude /etc/ssh/sshd_config.d/*.conf\n".to_string())
    );
}

#[test]
fn authorized_keys_append_or_replace() {
    assert_eq!(authorized_keys_content("new\n", Some("old"), false), "old\nnew\n");
    assert_eq!(authorized_keys_content("new\n", Some("old\n"), false), "old\nnew\n");
    assert_eq!(authorized_keys_content("new\n", Some("old\n"), true), "new\n");
    assert_eq!(authorized_keys_content("new\n", None, false), "new\n");
    assert_eq!(authorized_keys_content("new\n", Some(""), false), "new\n");
}

#[test]
fn machine_checks_and_commands() {
    assert_eq!(home_from_getent(true, "/home/deploy\n", "deploy").unwrap(), "/home/deploy");
    assert_eq!(home_from_getent(true, "\n", "x").unwrap_err().message, "用户 x 的主目录为空");
    assert!(home_from_getent(false, "", "x").is_err());
    assert!(root_and_ubuntu(true, "NAME=\"Ubuntu\"").is_ok());
    assert!(root_and_ubuntu(false, "NAME=\"Ubuntu\"").is_err());
    assert!(root_and_ubuntu(true, "NAME=\"Debian\"").is_err());
    assert_eq!(port_probe_commands(2222)[0], "ss -tuln | grep -w ':2222'");
    let (ufw, fwd) = firewall_open_args(2222);
    assert_eq!(ufw, vec!["allow", "2222/tcp"]);
    assert_eq!(fwd, vec!["--permanent", "--add-port=2222/tcp"]);
    let mut report = OperationReport::default();
    let err = apply_failure(CliError::new("sshd -t 校验失败: x"), &mut report);
    assert_eq!(report.rolled_back, Some(true));
    assert_eq!(err.warnings, vec!["校验或重载失败，已尝试自动恢复 SSH 配置。".to_string()]);
}

#[test]
fn unexpected_values_are_named_in_the_error() {
    let err = unexpected_value_error("port", "2222", "[\"22\"]");
    assert_eq!(err.message, "port 未按预期生效，期望 2222，当前 [\"22\"]");
    assert_eq!(err.code, 1);
}

#[test]
fn include_directive_twice_changes_nothing() {
    for contents in ["Port 22", "Port 22\n", "", "# comment\r\nPort 22\r\n"] {
        let once = with_include_directive(contents).expect("include added");
        assert!(once.ends_with("Include /etc/ssh/sshd_config.d/*.conf\n"));
        assert_eq!(with_include_directive(&once), None);
    }
}

#[test]
fn apply_steps_follow_the_plan() {
    let mut plan = empty_plan();
    let steps = apply_steps(&plan);
    assert!(steps.ensure_user.is_none());
    assert!(steps.install_key.is_none());
    assert!(!steps.probe_keywords);
    assert_eq!(steps.changed_files, vec!["/etc/ssh/sshd_config.d/vps-cli.conf".to_string()]);
    assert_eq!(steps.open_port, None);

    plan.pubkey_file = Some("/root/new.pub".into());
    let steps = apply_steps(&plan);
    assert!(steps.install_key.is_none());
    assert_eq!(steps.changed_files, vec!["/etc/ssh/sshd_config.d/vps-cli.conf".to_string(), "/root/new.pub".to_string()]);

    plan.user = Some("deploy".into());
    plan.rotate_authorized_key = true;
    plan.disable_password_auth = true;
    plan.port = Some(2222);
    let steps = apply_steps(&plan);
    assert_eq!(steps.ensure_user.as_deref(), Some("deploy"));
    let key = steps.install_key.expect("key installed");
    assert_eq!((key.user.as_str(), key.key_file.as_str(), key.replace), ("deploy", "/root/new.pub", true));
    assert!(steps.probe_keywords);
    assert_eq!(steps.open_port, Some(2222));
}

#[test]
fn restore_puts_back_what_was_backed_up() {
    let steps = ssh_restore_steps(&None, &None, &None);
    assert_eq!(steps.len(), 1);
    assert!(matches!(steps[0], RestoreStep::RemoveManaged));

    let steps = ssh_restore_steps(
        &Some("/b/main".into()),
        &Some("/b/managed".into()),
        &Some(("/b/keys".into(), "/home/deploy/.ssh/authorized_keys".into())),
    );
    let pairs: Vec<(String, String)> = steps
        .into_iter()
        .map(|s| match s {
            RestoreStep::Restore { backup, target } => (backup, target),
            RestoreStep::RemoveManaged => ("-".into(), "-".into()),
        })
        .collect();
    assert_eq!(
        pairs,
        vec![
            ("/b/main".to_string(), "/etc/ssh/sshd_config".to_string()),
            ("/b/managed".to_string(), "/etc/ssh/sshd_config.d/vps-cli.conf".to_string()),
            ("/b/keys".to_string(), "/home/deploy/.ssh/authorized_keys".to_string()),
        ]
    );
}
