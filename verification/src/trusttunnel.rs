//! TrustTunnel: the arguments of its installer and of its configuration
//! export, the paths of an installation, reading `key = "value"` lines of
//! its TOML files, and what the commands around its systemd service decide.
use vstd::prelude::*;

use crate::paths::{is_absolute, join_path, parent_of, path_join, path_parent};
use crate::reclaim::{normalized_trusttunnel_dir, trusttunnel_dir};
use crate::split::{find_char, find_char_in, lines, lines_of, split_once, split_once_char};
use crate::text::{
    append, append_str, chars_eq, chars_of, opt_view, slice_chars, str_eq, string_of, trim,
    trim_chars, views,
};
use crate::utils::{texts, CliError, OperationReport, OutputFormat};

verus! {

// ---------------------------------------------------------------------------
// TOML values
// ---------------------------------------------------------------------------

/// The string of a TOML basic string literal at the start of `v`: what
/// follows the opening `"` up to the next `"`.
pub open spec fn toml_string_literal(v: Seq<char>) -> Option<Seq<char>> {
    if v.len() > 0 && v[0] == '"' {
        match find_char(v.drop_first(), '"') {
            Some(e) => Some(v.drop_first().take(e)),
            None => None,
        }
    } else {
        None
    }
}

/// The value of a line `key = "value"`: nothing for a blank line, a comment,
/// a line without `=`, another key, or a value that is not a string.
pub open spec fn toml_string_assignment(line: Seq<char>, key: Seq<char>) -> Option<Seq<char>> {
    let t = trim(line);
    if t.len() == 0 || t[0] == '#' {
        None
    } else {
        match split_once(t, '=') {
            Some((lhs, rhs)) => if trim(lhs) == key {
                toml_string_literal(trim(rhs))
            } else {
                None
            },
            None => None,
        }
    }
}

/// The value of the first line of `ls` that assigns a string to `key`.
pub open spec fn first_toml_value(ls: Seq<Seq<char>>, key: Seq<char>) -> Option<Seq<char>>
    decreases ls.len(),
{
    if ls.len() == 0 {
        None
    } else {
        match toml_string_assignment(ls[0], key) {
            Some(v) => Some(v),
            None => first_toml_value(ls.drop_first(), key),
        }
    }
}

/// The string of a TOML basic string literal at the start of `value`.
pub fn parse_toml_string_literal(value: &str) -> (r: Option<String>)
    ensures
        opt_view(r) == toml_string_literal(value@),
{
    let v = chars_of(value);
    if v.len() == 0 || v[0] != '"' {
        return None;
    }
    let rest = slice_chars(&v, 1, v.len());
    assert(rest@ =~= value@.drop_first());
    proof {
        crate::split::lemma_find_char_bound(rest@, '"');
    }
    match find_char_in(&rest, '"') {
        Some(e) => Some(string_of(&slice_chars(&rest, 0, e))),
        None => None,
    }
}

fn toml_assignment_chars(line: &Vec<char>, key: &Vec<char>) -> (r: Option<String>)
    ensures
        opt_view(r) == toml_string_assignment(line@, key@),
{
    let t = trim_chars(line);
    if t.len() == 0 || t[0] == '#' {
        return None;
    }
    match split_once_char(&t, '=') {
        Some((lhs, rhs)) => {
            if chars_eq(&trim_chars(&lhs), key) {
                parse_toml_string_literal(string_of(&trim_chars(&rhs)).as_str())
            } else {
                None
            }
        },
        None => None,
    }
}

/// The value of a line `key = "value"` (see [`toml_string_assignment`]).
pub fn parse_toml_string_assignment(line: &str, key: &str) -> (r: Option<String>)
    ensures
        opt_view(r) == toml_string_assignment(line@, key@),
{
    toml_assignment_chars(&chars_of(line), &chars_of(key))
}

/// The value of the first line of `content` that assigns a string to `key`.
pub fn first_toml_string_value_in(content: &str, key: &str) -> (r: Option<String>)
    ensures
        opt_view(r) == first_toml_value(lines(content@), key@),
{
    let ls = lines_of(&chars_of(content));
    let k = chars_of(key);
    let ghost lv = views(ls@);
    let n = ls.len();
    let mut i: usize = 0;
    assert(lv.skip(0) =~= lv);
    while i < n
        invariant
            n == ls@.len(),
            lv == views(ls@),
            lv == lines(content@),
            k@ == key@,
            i <= n,
            first_toml_value(lv, key@) == first_toml_value(lv.skip(i as int), key@),
        decreases n - i,
    {
        assert(lv.skip(i as int)[0] == ls@[i as int]@);
        assert(lv.skip(i as int).drop_first() =~= lv.skip(i + 1));
        match toml_assignment_chars(&ls[i], &k) {
            Some(v) => {
                return Some(v);
            },
            None => {},
        }
        i = i + 1;
    }
    None
}

// ---------------------------------------------------------------------------
// Paths of an installation
// ---------------------------------------------------------------------------

/// The installation directory for the `--output-dir` / `--install-dir`
/// value `value`: the value trimmed, or `/opt/trusttunnel` when it is
/// absent, empty, `.` or `/opt`.
pub fn normalized_install_dir(value: Option<&str>) -> (r: String)
    ensures
        r@ == trusttunnel_dir(
            match value {
                Some(v) => Some(v@),
                None => None,
            },
        ),
{
    normalized_trusttunnel_dir(value)
}

/// The server binary of the installation in `install_dir`.
pub fn trusttunnel_binary_path(install_dir: &str) -> (r: String)
    ensures
        r@ == join_path(install_dir@, "trusttunnel_endpoint"@),
{
    path_join(install_dir, "trusttunnel_endpoint")
}

/// The setup wizard of the installation in `install_dir`.
pub fn trusttunnel_wizard_path(install_dir: &str) -> (r: String)
    ensures
        r@ == join_path(install_dir@, "setup_wizard"@),
{
    path_join(install_dir, "setup_wizard")
}

/// The systemd unit template of the installation in `install_dir`.
pub fn trusttunnel_service_template_path(install_dir: &str) -> (r: String)
    ensures
        r@ == join_path(install_dir@, "trusttunnel.service.template"@),
{
    path_join(install_dir, "trusttunnel.service.template")
}

/// The systemd unit file of TrustTunnel.
pub open spec fn service_file() -> Seq<char> {
    "/etc/systemd/system/trusttunnel.service"@
}

/// The configuration files of an installation.
#[derive(Debug)]
pub struct ConfigPaths {
    pub vpn: String,
    pub hosts: String,
    pub credentials: String,
    pub rules: String,
    pub service_template: String,
    pub systemd_service: String,
}

/// The configuration files of the installation in `install_dir`.
pub fn config_path_summary(install_dir: &str) -> (r: ConfigPaths)
    ensures
        r.vpn@ == join_path(install_dir@, "vpn.toml"@),
        r.hosts@ == join_path(install_dir@, "hosts.toml"@),
        r.credentials@ == join_path(install_dir@, "credentials.toml"@),
        r.rules@ == join_path(install_dir@, "rules.toml"@),
        r.service_template@ == join_path(install_dir@, "trusttunnel.service.template"@),
        r.systemd_service@ == service_file(),
{
    ConfigPaths {
        vpn: path_join(install_dir, "vpn.toml"),
        hosts: path_join(install_dir, "hosts.toml"),
        credentials: path_join(install_dir, "credentials.toml"),
        rules: path_join(install_dir, "rules.toml"),
        service_template: trusttunnel_service_template_path(install_dir),
        systemd_service: "/etc/systemd/system/trusttunnel.service".to_owned(),
    }
}

/// Where the credentials file is for settings in the directory `base` (the
/// current directory when there is none): the configured path, relative to
/// that directory unless absolute, else `credentials.toml` there.
pub open spec fn credentials_path_from(base: Option<Seq<char>>, configured: Option<Seq<char>>) -> Seq<
    char,
> {
    let dir = match base {
        Some(b) => b,
        None => "."@,
    };
    match configured {
        Some(p) => if is_absolute(p) {
            p
        } else {
            join_path(dir, p)
        },
        None => join_path(dir, "credentials.toml"@),
    }
}

/// Where the credentials file of the settings file `settings` is: see
/// [`credentials_path_from`], in the directory that holds the settings.
pub open spec fn credentials_path(settings: Seq<char>, configured: Option<Seq<char>>) -> Seq<char> {
    credentials_path_from(path_parent(settings), configured)
}

/// Where the credentials file is for settings in the directory `base` (see
/// [`credentials_path_from`]).
pub fn credentials_path_in(base: Option<&str>, configured: Option<&str>) -> (r: String)
    ensures
        r@ == credentials_path_from(
            match base {
                Some(b) => Some(b@),
                None => None,
            },
            match configured {
                Some(c) => Some(c@),
                None => None,
            },
        ),
{
    let dir = match base {
        Some(b) => b,
        None => ".",
    };
    match configured {
        Some(p) => {
            let pc = chars_of(p);
            if pc.len() > 0 && pc[0] == '/' {
                p.to_owned()
            } else {
                path_join(dir, p)
            }
        },
        None => path_join(dir, "credentials.toml"),
    }
}

/// Where the credentials file of the settings file `settings_path` is, given
/// the `credentials_file` value that the settings hold (if any).
pub fn resolve_credentials_path(settings_path: &str, configured: Option<&str>) -> (r: String)
    ensures
        r@ == credentials_path(
            settings_path@,
            match configured {
                Some(c) => Some(c@),
                None => None,
            },
        ),
{
    let base = parent_of(settings_path);
    match base {
        Some(b) => credentials_path_in(Some(b.as_str()), configured),
        None => credentials_path_in(None, configured),
    }
}

/// The paths among the binary, the wizard and the unit template of the
/// installation in `install_dir` that exist, as told by the three flags.
pub fn detected_binaries(
    install_dir: &str,
    binary_exists: bool,
    wizard_exists: bool,
    template_exists: bool,
) -> (r: Vec<String>)
    ensures
        texts(r@) == (if binary_exists {
            seq![join_path(install_dir@, "trusttunnel_endpoint"@)]
        } else {
            seq![]
        }) + (if wizard_exists {
            seq![join_path(install_dir@, "setup_wizard"@)]
        } else {
            seq![]
        }) + (if template_exists {
            seq![join_path(install_dir@, "trusttunnel.service.template"@)]
        } else {
            seq![]
        }),
{
    let mut out: Vec<String> = Vec::new();
    let ghost e: Seq<Seq<char>> = seq![];
    if binary_exists {
        out.push(trusttunnel_binary_path(install_dir));
    }
    let ghost a = texts(out@);
    if wizard_exists {
        out.push(trusttunnel_wizard_path(install_dir));
    }
    let ghost b = texts(out@);
    if template_exists {
        out.push(trusttunnel_service_template_path(install_dir));
    }
    assert(texts(out@) =~= (if binary_exists {
        seq![join_path(install_dir@, "trusttunnel_endpoint"@)]
    } else {
        e
    }) + (if wizard_exists {
        seq![join_path(install_dir@, "setup_wizard"@)]
    } else {
        e
    }) + (if template_exists {
        seq![join_path(install_dir@, "trusttunnel.service.template"@)]
    } else {
        e
    }));
    out
}

// ---------------------------------------------------------------------------
// Installing
// ---------------------------------------------------------------------------

fn push_text(v: &mut Vec<String>, s: &str)
    ensures
        texts(final(v)@) == texts(old(v)@).push(s@),
{
    let ghost before = texts(v@);
    v.push(s.to_owned());
    assert(texts(v@) =~= before.push(s@));
}

/// The installer arguments for the directory and the optional version.
pub open spec fn installer_arguments(output_dir: Seq<char>, version: Option<Seq<char>>) -> Seq<
    Seq<char>,
> {
    seq!["-o"@, output_dir] + match version {
        Some(v) => seq!["-V"@, v],
        None => seq![],
    }
}

/// The installer arguments that install into `output_dir`, at `version`
/// when one is given.
pub fn installer_common_args(output_dir: &str, version: Option<&str>) -> (r: Vec<String>)
    ensures
        texts(r@) == installer_arguments(
            output_dir@,
            match version {
                Some(v) => Some(v@),
                None => None,
            },
        ),
{
    let mut args: Vec<String> = Vec::new();
    push_text(&mut args, "-o");
    push_text(&mut args, output_dir);
    if let Some(v) = version {
        push_text(&mut args, "-V");
        push_text(&mut args, v);
    }
    args
}

/// How `install` runs the installer: its arguments, and the warnings for
/// the report.
#[derive(Debug)]
pub struct InstallPlan {
    pub script_args: Vec<String>,
    pub warnings: Vec<String>,
}

/// The warning when the installer is told to answer yes because nobody can.
pub open spec fn implied_yes_warning() -> Seq<char> {
    "当前为非交互模式，已自动向官方安装脚本传入 `-a y`。"@
}

/// How `install` runs the installer: it answers yes itself when asked to, or
/// when the session is not interactive (and then says so).
pub fn install_plan(output_dir: &str, version: Option<&str>, auto_yes: bool, interactive: bool) -> (r:
    InstallPlan)
    ensures
        texts(r.script_args@) == installer_arguments(
            output_dir@,
            match version {
                Some(v) => Some(v@),
                None => None,
            },
        ) + if auto_yes || !interactive {
            seq!["-a"@, "y"@]
        } else {
            seq![]
        },
        texts(r.warnings@) == if !interactive && !auto_yes {
            seq![implied_yes_warning()]
        } else {
            seq![]
        },
{
    let mut args = installer_common_args(output_dir, version);
    let ghost base = texts(args@);
    if auto_yes || !interactive {
        push_text(&mut args, "-a");
        push_text(&mut args, "y");
    }
    assert(texts(args@) =~= base + if auto_yes || !interactive {
        seq!["-a"@, "y"@]
    } else {
        seq![]
    });
    let mut warnings: Vec<String> = Vec::new();
    if !interactive && !auto_yes {
        push_text(&mut warnings, "当前为非交互模式，已自动向官方安装脚本传入 `-a y`。");
    }
    assert(texts(warnings@) =~= if !interactive && !auto_yes {
        seq![implied_yes_warning()]
    } else {
        seq![]
    });
    InstallPlan { script_args: args, warnings }
}

// ---------------------------------------------------------------------------
// Command output and errors
// ---------------------------------------------------------------------------

/// The output of a command trimmed, or nothing when that is empty.
pub fn non_empty_text(text: &str) -> (r: Option<String>)
    ensures
        opt_view(r) == if trim(text@).len() == 0 {
            None
        } else {
            Some(trim(text@))
        },
{
    let t = trim_chars(&chars_of(text));
    if t.len() == 0 {
        None
    } else {
        Some(string_of(&t))
    }
}

/// What a failed command said: its error output, else its output, else a
/// note that it said nothing (each trimmed).
pub open spec fn failure_detail(stdout: Seq<char>, stderr: Seq<char>) -> Seq<char> {
    if trim(stderr).len() > 0 {
        trim(stderr)
    } else if trim(stdout).len() > 0 {
        trim(stdout)
    } else {
        "命令未返回更多信息"@
    }
}

/// The error for a failed command: `prefix: detail` (see
/// [`failure_detail`]).
pub fn command_failed(prefix: &str, stdout: &str, stderr: &str) -> (r: CliError)
    ensures
        r.message@ == prefix@ + ": "@ + failure_detail(stdout@, stderr@),
        r.suggestions@.len() == 0,
        r.warnings@.len() == 0,
        r.code == 1,
{
    let out = trim_chars(&chars_of(stdout));
    let err = trim_chars(&chars_of(stderr));
    let mut m = chars_of(prefix);
    append_str(&mut m, ": ");
    if err.len() > 0 {
        append(&mut m, &err);
    } else if out.len() > 0 {
        append(&mut m, &out);
    } else {
        append_str(&mut m, "命令未返回更多信息");
    }
    CliError::from_message(string_of(&m))
}

/// What tells the user how to get the systemd unit of the installation in
/// `install_dir`, depending on whether its unit template exists.
pub open spec fn service_guidance(install_dir: Seq<char>, template_exists: bool) -> Seq<char> {
    let template = join_path(install_dir, "trusttunnel.service.template"@);
    if template_exists {
        "未检测到 systemd 服务文件 /etc/systemd/system/trusttunnel.service。请先执行 `vps-cli trusttunnel setup-wizard`，CLI 会将模板 "@
            + template + " 安装为 systemd 服务。"@
    } else {
        "未检测到 systemd 服务文件 /etc/systemd/system/trusttunnel.service，且未找到服务模板 "@
            + template
            + "。请先执行 `vps-cli trusttunnel install`，再执行 `vps-cli trusttunnel setup-wizard`。"@
    }
}

/// How to get the systemd unit of the installation in `install_dir` (see
/// [`service_guidance`]).
pub fn missing_service_guidance(install_dir: &str, template_exists: bool) -> (r: String)
    ensures
        r@ == service_guidance(install_dir@, template_exists),
{
    let template = trusttunnel_service_template_path(install_dir);
    let mut m: Vec<char>;
    if template_exists {
        m = chars_of(
            "未检测到 systemd 服务文件 /etc/systemd/system/trusttunnel.service。请先执行 `vps-cli trusttunnel setup-wizard`，CLI 会将模板 ",
        );
        append_str(&mut m, template.as_str());
        append_str(&mut m, " 安装为 systemd 服务。");
    } else {
        m = chars_of(
            "未检测到 systemd 服务文件 /etc/systemd/system/trusttunnel.service，且未找到服务模板 ",
        );
        append_str(&mut m, template.as_str());
        append_str(
            &mut m,
            "。请先执行 `vps-cli trusttunnel install`，再执行 `vps-cli trusttunnel setup-wizard`。",
        );
    }
    string_of(&m)
}

/// A value that a command needs: given, to be asked for, or missing.
#[derive(Debug)]
pub enum RequiredValue {
    Given(String),
    Ask,
    Missing(CliError),
}

/// A value that a command needs: the given value when it is not blank, else
/// asked for in an interactive session, else an error naming `prompt`.
pub fn required_value(value: Option<String>, prompt: &str, interactive: bool) -> (r: RequiredValue)
    ensures
        (value matches Some(v) && trim(v@).len() > 0) ==> (r matches RequiredValue::Given(x) && x@
            == value->0@),
        !(value matches Some(v) && trim(v@).len() > 0) && interactive ==> r is Ask,
        !(value matches Some(v) && trim(v@).len() > 0) && !interactive ==> (r matches RequiredValue::Missing(
            e,
        ) && e.message@ == "缺少必需参数："@ + prompt@),
{
    match value {
        Some(v) => {
            if trim_chars(&chars_of(v.as_str())).len() > 0 {
                return RequiredValue::Given(v);
            }
        },
        None => {},
    }
    if interactive {
        RequiredValue::Ask
    } else {
        let mut m = chars_of("缺少必需参数：");
        append_str(&mut m, prompt);
        RequiredValue::Missing(CliError::from_message(string_of(&m)))
    }
}

/// Whether `export-config` prints the exported link itself: only for the
/// `deeplink` format.
pub fn should_inline_deeplink(export_format: &str) -> (r: bool)
    ensures
        r == (export_format@ == "deeplink"@),
{
    str_eq(export_format, "deeplink")
}

// ---------------------------------------------------------------------------
// Exporting a client configuration
// ---------------------------------------------------------------------------

/// The optional arguments of `export-config` that go to the exporter.
#[derive(Debug)]
pub struct ExportOptions {
    pub name: Option<String>,
    pub dns_upstreams: Vec<String>,
    pub generate_client_random_prefix: bool,
    pub client_random_prefix: Option<String>,
    pub prefix_length: Option<String>,
    pub prefix_percent: Option<String>,
    pub prefix_mask: Option<String>,
}

/// `flag value` when there is a value.
pub open spec fn optional_flag(flag: Seq<char>, v: Option<Seq<char>>) -> Seq<Seq<char>> {
    match v {
        Some(x) => seq![flag, x],
        None => seq![],
    }
}

/// `flag value` for each value, in order.
pub open spec fn repeated_flag(flag: Seq<char>, vs: Seq<Seq<char>>) -> Seq<Seq<char>>
    decreases vs.len(),
{
    if vs.len() == 0 {
        seq![]
    } else {
        repeated_flag(flag, vs.drop_last()) + seq![flag, vs.last()]
    }
}

/// The exporter arguments for the settings and hosts files, the client, its
/// address, the format and the options.
pub open spec fn export_arguments(
    settings: Seq<char>,
    hosts: Seq<char>,
    client: Seq<char>,
    address: Seq<char>,
    format: Seq<char>,
    o: ExportOptions,
) -> Seq<Seq<char>> {
    seq![settings, hosts, "-c"@, client, "-a"@, address, "--format"@, format] + optional_flag(
        "--name"@,
        opt_view(o.name),
    ) + repeated_flag("--dns-upstream"@, texts(o.dns_upstreams@)) + (if o.generate_client_random_prefix {
        seq!["--generate-client-random-prefix"@]
    } else {
        seq![]
    }) + optional_flag("--client-random-prefix"@, opt_view(o.client_random_prefix))
        + optional_flag("--prefix-length"@, opt_view(o.prefix_length)) + optional_flag(
        "--prefix-percent"@,
        opt_view(o.prefix_percent),
    ) + optional_flag("--prefix-mask"@, opt_view(o.prefix_mask))
}

fn push_optional(args: &mut Vec<String>, flag: &str, v: &Option<String>)
    ensures
        texts(final(args)@) == texts(old(args)@) + optional_flag(flag@, opt_view(*v)),
{
    let ghost before = texts(args@);
    if let Some(x) = v {
        push_text(args, flag);
        push_text(args, x.as_str());
    }
    assert(texts(args@) =~= before + optional_flag(flag@, opt_view(*v)));
}

/// The arguments of the exporter of the server binary (see
/// [`export_arguments`]).
pub fn export_args(
    settings: &str,
    hosts: &str,
    client: &str,
    address: &str,
    format: &str,
    options: &ExportOptions,
) -> (r: Vec<String>)
    ensures
        texts(r@) == export_arguments(settings@, hosts@, client@, address@, format@, *options),
{
    let mut args: Vec<String> = Vec::new();
    push_text(&mut args, settings);
    push_text(&mut args, hosts);
    push_text(&mut args, "-c");
    push_text(&mut args, client);
    push_text(&mut args, "-a");
    push_text(&mut args, address);
    push_text(&mut args, "--format");
    push_text(&mut args, format);
    assert(texts(args@) =~= seq![
        settings@,
        hosts@,
        "-c"@,
        client@,
        "-a"@,
        address@,
        "--format"@,
        format@,
    ]);
    push_optional(&mut args, "--name", &options.name);
    let ghost head = texts(args@);
    let ups = &options.dns_upstreams;
    let n = ups.len();
    for i in 0..n
        invariant
            n == ups@.len(),
            texts(args@) == head + repeated_flag("--dns-upstream"@, texts(ups@).take(i as int)),
    {
        push_text(&mut args, "--dns-upstream");
        push_text(&mut args, ups[i].as_str());
        assert(texts(ups@).take(i + 1).drop_last() =~= texts(ups@).take(i as int));
        assert(texts(args@) =~= head + repeated_flag("--dns-upstream"@, texts(ups@).take(i + 1)));
    }
    assert(texts(ups@).take(n as int) =~= texts(ups@));
    let ghost mid = texts(args@);
    if options.generate_client_random_prefix {
        push_text(&mut args, "--generate-client-random-prefix");
    }
    assert(texts(args@) =~= mid + (if options.generate_client_random_prefix {
        seq!["--generate-client-random-prefix"@]
    } else {
        seq![]
    }));
    push_optional(&mut args, "--client-random-prefix", &options.client_random_prefix);
    push_optional(&mut args, "--prefix-length", &options.prefix_length);
    push_optional(&mut args, "--prefix-percent", &options.prefix_percent);
    push_optional(&mut args, "--prefix-mask", &options.prefix_mask);
    args
}

/// What `export-config` shows of the exported configuration.
#[derive(Debug)]
pub enum ExportedContent {
    /// The whole configuration, because the secrets were asked for.
    Content(String),
    /// The deeplink, shown by default.
    Link(String),
    /// Nothing; the preview says how to see it.
    Hidden { preview: String },
}

/// What `export-config` shows of the exporter's output `stdout` for the
/// format `export_format`, with the report: the trimmed output as content
/// when the secrets were asked for, as the link for a deeplink, hidden
/// otherwise; shown output is marked sensitive with a warning.
pub fn export_outcome(export_format: &str, show_secrets: bool, stdout: &str) -> (r: (
    ExportedContent,
    OperationReport,
))
    ensures
        show_secrets ==> {
            &&& r.0 matches ExportedContent::Content(c) && c@ == trim(stdout@)
            &&& r.1.sensitive == Some(true)
            &&& texts(r.1.warnings@) == seq!["当前输出包含敏感配置内容，不应贴入公开日志。"@]
        },
        !show_secrets && export_format@ == "deeplink"@ ==> {
            &&& r.0 matches ExportedContent::Link(c) && c@ == trim(stdout@)
            &&& r.1.sensitive == Some(true)
            &&& texts(r.1.warnings@) == seq![
                "当前输出已直接包含 TrustTunnel deeplink，请勿贴入公开日志。"@,
            ]
        },
        !show_secrets && export_format@ != "deeplink"@ ==> {
            &&& r.0 matches ExportedContent::Hidden { preview } && preview@
                == "已隐藏，请显式传入 --show-secrets 查看"@
            &&& r.1.sensitive is None
            &&& r.1.warnings@.len() == 0
        },
        r.1.changed_files@.len() == 0,
        r.1.backups@.len() == 0,
        r.1.rolled_back is None,
{
    let mut report = OperationReport::default();
    let content = string_of(&trim_chars(&chars_of(stdout)));
    if show_secrets {
        report.sensitive = Some(true);
        push_text(&mut report.warnings, "当前输出包含敏感配置内容，不应贴入公开日志。");
        (ExportedContent::Content(content), report)
    } else if should_inline_deeplink(export_format) {
        report.sensitive = Some(true);
        push_text(&mut report.warnings, "当前输出已直接包含 TrustTunnel deeplink，请勿贴入公开日志。");
        (ExportedContent::Link(content), report)
    } else {
        (
            ExportedContent::Hidden { preview: "已隐藏，请显式传入 --show-secrets 查看".to_owned() },
            report,
        )
    }
}

// ---------------------------------------------------------------------------
// The setup wizard, the service and its logs
// ---------------------------------------------------------------------------

/// How `setup-wizard` goes on.
#[derive(Debug, PartialEq, Eq, Structural)]
pub enum WizardRun {
    /// Only show the configuration paths.
    PrintPaths,
    /// Run the wizard attached to the terminal.
    Interactive,
    /// Run the wizard with its output captured.
    Captured,
}

/// How `setup-wizard` goes on: show the paths when asked to; refuse when the
/// wizard at `wizard_path` is missing, or when nobody can answer it and no
/// arguments were passed through; run it on the terminal in an interactive
/// session with human output, captured otherwise.
pub fn wizard_run(
    print_paths: bool,
    wizard_exists: bool,
    wizard_path: &str,
    interactive: bool,
    format: OutputFormat,
    has_wizard_args: bool,
) -> (r: Result<WizardRun, CliError>)
    ensures
        print_paths ==> r == Ok::<WizardRun, CliError>(WizardRun::PrintPaths),
        !print_paths && !wizard_exists ==> (r matches Err(e) && e.message@
            == "未找到 setup_wizard，请先执行 `vps-cli trusttunnel install`："@ + wizard_path@),
        !print_paths && wizard_exists && !interactive && !has_wizard_args ==> (r matches Err(e)
            && e.message@ == "非交互模式下执行 setup-wizard 需要在 `--` 后透传官方非交互参数"@),
        !print_paths && wizard_exists && (interactive || has_wizard_args) ==> r
            == Ok::<WizardRun, CliError>(
            if interactive && format != OutputFormat::Json {
                WizardRun::Interactive
            } else {
                WizardRun::Captured
            },
        ),
{
    if print_paths {
        return Ok(WizardRun::PrintPaths);
    }
    if !wizard_exists {
        let mut m = chars_of("未找到 setup_wizard，请先执行 `vps-cli trusttunnel install`：");
        append_str(&mut m, wizard_path);
        return Err(CliError::from_message(string_of(&m)));
    }
    if !interactive && !has_wizard_args {
        return Err(CliError::new("非交互模式下执行 setup-wizard 需要在 `--` 后透传官方非交互参数"));
    }
    if interactive && format != OutputFormat::Json {
        Ok(WizardRun::Interactive)
    } else {
        Ok(WizardRun::Captured)
    }
}

/// The error when the wizard finished but its systemd unit could not be
/// installed.
pub fn wizard_service_error(err: &CliError) -> (r: CliError)
    ensures
        r.message@ == "setup_wizard 已完成，但安装 systemd 服务文件失败: "@ + err.message@,
        r.code == 1,
{
    let mut m = chars_of("setup_wizard 已完成，但安装 systemd 服务文件失败: ");
    append_str(&mut m, err.message.as_str());
    CliError::from_message(string_of(&m))
}

/// Whether the unit file must be (re)written from the template: when there
/// is no unit file or it differs from the template.
pub fn service_file_needs_update(existing: Option<&[u8]>, template: &[u8]) -> (r: bool)
    ensures
        r == match existing {
            Some(e) => e@ != template@,
            None => true,
        },
{
    match existing {
        None => true,
        Some(e) => {
            if e.len() != template.len() {
                return true;
            }
            let n = e.len();
            for i in 0..n
                invariant
                    n == e@.len() == template@.len(),
                    existing matches Some(x) && x@ == e@,
                    forall|k: int| 0 <= k < i ==> e@[k] == template@[k],
            {
                if e[i] != template[i] {
                    assert(e@[i as int] != template@[i as int]);
                    return true;
                }
            }
            assert(e@ =~= template@);
            false
        },
    }
}

/// What `status` reports: the state that `systemctl is-active` printed
/// (`unknown` when it failed) and the report, warning with its error output
/// and, when the unit file is missing, with how to get it.
pub fn status_report(
    is_active_ok: bool,
    stdout: &str,
    stderr: &str,
    service_exists: bool,
    template_exists: bool,
) -> (r: (String, OperationReport))
    ensures
        r.0@ == if is_active_ok {
            trim(stdout@)
        } else {
            "unknown"@
        },
        texts(r.1.warnings@) == (if trim(stderr@).len() > 0 {
            seq![trim(stderr@)]
        } else {
            seq![]
        }) + (if !service_exists {
            seq![service_guidance("/opt/trusttunnel"@, template_exists)]
        } else {
            seq![]
        }),
        r.1.changed_files@.len() == 0,
        r.1.backups@.len() == 0,
        r.1.rolled_back is None,
        r.1.sensitive is None,
{
    let status = if is_active_ok {
        string_of(&trim_chars(&chars_of(stdout)))
    } else {
        "unknown".to_owned()
    };
    let mut report = OperationReport::default();
    let err = trim_chars(&chars_of(stderr));
    if err.len() > 0 {
        let ghost before = texts(report.warnings@);
        let w = string_of(&err);
        let ghost wv = w@;
        report.warnings.push(w);
        assert(texts(report.warnings@) =~= before.push(wv));
    }
    let ghost mid = texts(report.warnings@);
    if !service_exists {
        let g = missing_service_guidance("/opt/trusttunnel", template_exists);
        let ghost gv = g@;
        report.warnings.push(g);
        assert(texts(report.warnings@) =~= mid.push(gv));
    }
    assert(texts(report.warnings@) =~= (if trim(stderr@).len() > 0 {
        seq![trim(stderr@)]
    } else {
        seq![]
    }) + (if !service_exists {
        seq![service_guidance("/opt/trusttunnel"@, template_exists)]
    } else {
        seq![]
    }));
    (status, report)
}

/// Whether `start`, `stop` or `restart` may run: only when the unit file
/// exists; otherwise an error telling how to get it.
pub fn service_action_check(service_exists: bool, template_exists: bool) -> (r: Result<(), CliError>)
    ensures
        service_exists ==> r is Ok,
        !service_exists ==> (r matches Err(e) && e.message@ == service_guidance(
            "/opt/trusttunnel"@,
            template_exists,
        )),
{
    if service_exists {
        Ok(())
    } else {
        Err(CliError::from_message(missing_service_guidance("/opt/trusttunnel", template_exists)))
    }
}

/// The error when `systemctl <action>` failed with the given output.
pub fn service_action_failed(action: &str, stdout: &str, stderr: &str) -> (r: CliError)
    ensures
        r.message@ == "TrustTunnel 服务 "@ + action@ + " 失败"@ + ": "@ + failure_detail(
            stdout@,
            stderr@,
        ),
        r.code == 1,
{
    let mut p = chars_of("TrustTunnel 服务 ");
    append_str(&mut p, action);
    append_str(&mut p, " 失败");
    command_failed(string_of(&p).as_str(), stdout, stderr)
}

/// The `journalctl` arguments of `logs`: the last `lines` lines (100 by
/// default) of the unit, following them when asked; following needs an
/// interactive session.
pub fn journal_args(lines: Option<&str>, follow: bool, interactive: bool) -> (r: Result<
    Vec<String>,
    CliError,
>)
    ensures
        follow && !interactive ==> (r matches Err(e) && e.message@ == "--follow 仅适用于交互环境"@),
        !(follow && !interactive) ==> (r matches Ok(a) && texts(a@) == seq![
            "-u"@,
            "trusttunnel"@,
            "-n"@,
            match lines {
                Some(l) => l@,
                None => "100"@,
            },
            "--no-pager"@,
        ] + if follow {
            seq!["-f"@]
        } else {
            seq![]
        }),
{
    if follow && !interactive {
        return Err(CliError::new("--follow 仅适用于交互环境"));
    }
    let mut a: Vec<String> = Vec::new();
    push_text(&mut a, "-u");
    push_text(&mut a, "trusttunnel");
    push_text(&mut a, "-n");
    match lines {
        Some(l) => push_text(&mut a, l),
        None => push_text(&mut a, "100"),
    }
    push_text(&mut a, "--no-pager");
    let ghost base = texts(a@);
    if follow {
        push_text(&mut a, "-f");
    }
    assert(texts(a@) =~= base + if follow {
        seq!["-f"@]
    } else {
        seq![]
    });
    Ok(a)
}

/// Whether `export-config` can run: only when the server binary at
/// `binary_path` exists; otherwise an error telling to install it first.
pub fn export_binary_check(binary_exists: bool, binary_path: &str) -> (r: Result<(), CliError>)
    ensures
        binary_exists ==> r is Ok,
        !binary_exists ==> (r matches Err(e) && e.message@
            == "未找到 trusttunnel_endpoint，请先执行 `vps-cli trusttunnel install`："@ + binary_path@
            && e.code == 1),
{
    if binary_exists {
        return Ok(());
    }
    let mut m = chars_of("未找到 trusttunnel_endpoint，请先执行 `vps-cli trusttunnel install`：");
    append_str(&mut m, binary_path);
    Err(CliError::from_message(string_of(&m)))
}

} // verus!
