use vps_cli::self_update::{
    check_digest, compare_versions, is_release_version, normalize_release_version,
    permission_hint_error, plan_upgrade, release_arch_name, release_archive_url,
    resolve_latest_release_version, verify_archive_checksum, version_info, UpgradeStep,
};

#[test]
fn version_compare_works() {
    assert_eq!(compare_versions("0.1.0", "0.1.0").unwrap(), 0);
    assert_eq!(compare_versions("0.1.0", "0.2.0").unwrap(), -1);
    assert_eq!(compare_versions("1.2.0", "1.1.9").unwrap(), 1);
}

#[test]
fn release_url_matches_arch() {
    assert_eq!(
        release_archive_url("0.1.0", "amd64"),
        "https://github.com/gray0128/sh/releases/download/v0.1.0/vps-cli-linux-amd64.tar.gz"
    );
}

#[test]
fn release_version_validation_rejects_invalid_values() {
    assert!(normalize_release_version("v0.1.0").is_ok());
    assert!(normalize_release_version("latest").is_err());
}

#[test]
fn normalize_strips_whitespace_and_leading_v() {
    assert_eq!(normalize_release_version("  vv1.20.3\n").unwrap(), "1.20.3");
    let err = normalize_release_version("1.2").unwrap_err();
    assert_eq!(err.message, "不是合法的 release 版本号：1.2，应为 x.y.z");
    assert!(is_release_version("+1.0.0"));
    assert!(!is_release_version("1..0"));
    assert!(!is_release_version("1.0.0.0"));
    assert!(!is_release_version("1.0.x"));
}

#[test]
fn version_order_is_antisymmetric_and_numeric() {
    assert_eq!(compare_versions("0.10.0", "0.9.9").unwrap(), 1);
    assert_eq!(compare_versions("0.9.9", "0.10.0").unwrap(), -1);
    assert_eq!(compare_versions("v2.0.0", "2.0.0").unwrap(), 0);
    let err = compare_versions("bad", "1.0.0").unwrap_err();
    assert_eq!(err.message, "不是合法的 release 版本号：bad，应为 x.y.z");
    let err = compare_versions("1.0.0", "nope").unwrap_err();
    assert_eq!(err.message, "不是合法的 release 版本号：nope，应为 x.y.z");
}

#[test]
fn release_arch_follows_platform() {
    assert_eq!(release_arch_name("linux", "x86_64").unwrap(), "amd64");
    assert_eq!(release_arch_name("linux", "aarch64").unwrap(), "arm64");
    assert_eq!(
        release_arch_name("linux", "riscv64").unwrap_err().message,
        "当前架构暂不支持自动升级：riscv64"
    );
    assert_eq!(
        release_arch_name("macos", "aarch64").unwrap_err().message,
        "当前仅为 Linux 提供 vps-cli release 安装包"
    );
}

#[test]
fn latest_release_falls_back_to_default() {
    assert_eq!(resolve_latest_release_version(None).unwrap(), "0.1.0");
    assert_eq!(resolve_latest_release_version(Some("v0.3.1")).unwrap(), "0.3.1");
    assert!(resolve_latest_release_version(Some("nightly")).is_err());
}

#[test]
fn version_info_reports_package_or_warning() {
    let (info, report) = version_info("0.1.0", "0.2.0", "linux", "x86_64");
    assert_eq!(info.arch.as_deref(), Some("amd64"));
    assert_eq!(
        info.download_url.as_deref(),
        Some("https://github.com/gray0128/sh/releases/download/v0.2.0/vps-cli-linux-amd64.tar.gz")
    );
    assert!(report.warnings.is_empty());
    let (info, report) = version_info("0.1.0", "0.2.0", "macos", "aarch64");
    assert!(info.arch.is_none());
    assert!(info.download_url.is_none());
    assert_eq!(report.warnings.len(), 1);
}

#[test]
fn upgrade_plan_covers_each_step() {
    match plan_upgrade("0.1.0", "0.2.0", true, "linux", "x86_64").unwrap() {
        UpgradeStep::Check { upgrade_available, download_url, checksum_url, .. } => {
            assert!(upgrade_available);
            assert_eq!(
                checksum_url,
                format!("{}.sha256", download_url)
            );
        }
        _ => panic!("expected a check report"),
    }
    assert!(matches!(
        plan_upgrade("0.2.0", "0.2.0", false, "linux", "x86_64").unwrap(),
        UpgradeStep::UpToDate { .. }
    ));
    assert!(matches!(
        plan_upgrade("0.1.0", "0.2.0", false, "linux", "aarch64").unwrap(),
        UpgradeStep::Install { .. }
    ));
    match plan_upgrade("0.1.0", "0.2.0", true, "macos", "aarch64").unwrap() {
        UpgradeStep::Unsupported { warning, .. } => {
            assert_eq!(warning, "当前仅为 Linux 提供 vps-cli release 安装包")
        }
        _ => panic!("expected an unsupported report"),
    }
    assert!(plan_upgrade("0.1.0", "0.2.0", false, "macos", "aarch64").is_err());
    assert_eq!(
        plan_upgrade("dev", "0.2.0", false, "linux", "x86_64").unwrap_err().message,
        "当前构建版本 dev 不是可识别的 release 版本，无法判断升级关系"
    );
}

#[test]
fn checksum_compares_lowercased_first_word() {
    // SHA-256 of the empty input.
    let empty = "E3B0C44298FC1C149AFBF4C8996FB92427AE41E4649B934CA495991B7852B855  vps-cli.tar.gz\n";
    assert!(verify_archive_checksum(&[], empty).is_ok());
    let err = verify_archive_checksum(b"abc", empty).unwrap_err();
    assert_eq!(
        err.message,
        "release 包 SHA256 校验失败：期望 e3b0c44298fc1c149afbf4c8996fb92427ae41e4649b934ca495991b7852b855，实际 ba7816bf8f01cfea414140de5dae2223b00361a396177a9cb410ff61f20015ad"
    );
    assert_eq!(
        verify_archive_checksum(&[], "  \n").unwrap_err().message,
        "release SHA256 文件内容为空"
    );
}

#[test]
fn check_digest_uses_lowercase_hex() {
    assert!(check_digest(&[0x00, 0xab, 0x0f, 0xf0], "00AB0FF0").is_ok());
    assert!(check_digest(&[0x00, 0xab], "00ab0f").is_err());
}

#[test]
fn permission_hint_only_for_denied_access() {
    let e = permission_hint_error("替换当前可执行文件失败", "Permission denied (os error 13)", true);
    assert_eq!(e.message, "替换当前可执行文件失败: Permission denied (os error 13)");
    assert_eq!(e.suggestions.len(), 1);
    let e = permission_hint_error("写入升级临时文件失败", "No space left on device", false);
    assert!(e.suggestions.is_empty());
}
