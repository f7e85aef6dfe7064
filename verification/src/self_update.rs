//! Release versions and self upgrade: version numbers and their order, the
//! release download address, the upgrade decision and the archive checksum.
use vstd::prelude::*;

use crate::num::{decimal, lemma_decimal_digits, lemma_parse_decimal, parse_u64, parse_u64_chars, parse_uint};
use crate::split::{join, lemma_split_on_ends, lemma_split_on_join, split_chars, split_on};
use crate::split::{words, words_of};
use crate::text::{
    append, append_str, chars_eq, chars_of, is_digit, is_ws, str_eq, strip_leading,
    strip_leading_chars, string_of, to_lowercase, trim, trim_chars, trim_end, trim_start,
    unicode_lowercase,
};
use crate::utils::{CliError, OperationReport};
use sha2::{Digest, Sha256};

verus! {

// ---------------------------------------------------------------------------
// Version numbers
// ---------------------------------------------------------------------------

/// One dot separated piece of a release version: a `u64` in decimal.
pub open spec fn release_part(p: Seq<char>) -> bool {
    p.len() > 0 && parse_u64(p) is Some
}

/// Whether `v` is a release version `x.y.z`: exactly three dot separated
/// pieces, each a `u64` in decimal.
pub open spec fn is_release(v: Seq<char>) -> bool {
    let parts = split_on(v, '.');
    parts.len() == 3 && forall|i: int| 0 <= i < 3 ==> release_part(#[trigger] parts[i])
}

/// The text of a version with surrounding whitespace and leading `v`s
/// removed.
pub open spec fn normalized(v: Seq<char>) -> Seq<char> {
    strip_leading(trim(v), 'v')
}

/// The numbers of a release version.
pub open spec fn version_numbers(v: Seq<char>) -> Seq<u64> {
    split_on(v, '.').map_values(
        |p: Seq<char>|
            match parse_u64(p) {
                Some(n) => n,
                None => 0,
            },
    )
}

/// Compares two lists of numbers position by position over their common
/// length: -1 when the first differing number of `a` is smaller, 1 when it is
/// larger, 0 when there is no difference.
pub open spec fn numbers_order(a: Seq<u64>, b: Seq<u64>) -> int
    decreases a.len(),
{
    if a.len() == 0 || b.len() == 0 {
        0
    } else if a[0] < b[0] {
        -1
    } else if a[0] > b[0] {
        1
    } else {
        numbers_order(a.drop_first(), b.drop_first())
    }
}

/// The order of two release versions, each given as it was written.
pub open spec fn version_order(left: Seq<char>, right: Seq<char>) -> int {
    numbers_order(version_numbers(normalized(left)), version_numbers(normalized(right)))
}

/// The message for text that is not a release version.
pub open spec fn invalid_version_message(v: Seq<char>) -> Seq<char> {
    "不是合法的 release 版本号："@ + v + "，应为 x.y.z"@
}

/// Whether `value` is a release version `x.y.z`.
pub fn is_release_version(value: &str) -> (r: bool)
    ensures
        r == is_release(value@),
{
    let chars = chars_of(value);
    let parts = split_chars(&chars, '.');
    let ghost pv = split_on(value@, '.');
    if parts.len() != 3 {
        return false;
    }
    let mut i: usize = 0;
    while i < 3
        invariant
            parts@.len() == 3,
            pv == split_on(value@, '.'),
            crate::text::views(parts@) == pv,
            i <= 3,
            forall|j: int| 0 <= j < i ==> release_part(#[trigger] pv[j]),
        decreases 3 - i,
    {
        assert(pv[i as int] == parts@[i as int]@);
        if parts[i].len() == 0 {
            return false;
        }
        if parse_u64_chars(&parts[i]).is_none() {
            return false;
        }
        i = i + 1;
    }
    true
}

/// The release version `value` with surrounding whitespace and leading `v`s
/// removed; an error when what remains is not a release version.
pub fn normalize_release_version(value: &str) -> (r: Result<String, CliError>)
    ensures
        match r {
            Ok(s) => is_release(normalized(value@)) && s@ == normalized(value@),
            Err(e) => !is_release(normalized(value@)) && e.message@ == invalid_version_message(
                value@,
            ),
        },
{
    let chars = chars_of(value);
    let n = strip_leading_chars(&trim_chars(&chars), 'v');
    let s = string_of(&n);
    if is_release_version(s.as_str()) {
        Ok(s)
    } else {
        let mut m = chars_of("不是合法的 release 版本号：");
        append_str(&mut m, value);
        append_str(&mut m, "，应为 x.y.z");
        Err(CliError::from_message(string_of(&m)))
    }
}

/// The numbers of a release version.
fn version_numbers_of(v: &str) -> (r: Vec<u64>)
    requires
        is_release(v@),
    ensures
        r@ == version_numbers(v@),
        r@.len() == 3,
{
    let chars = chars_of(v);
    let parts = split_chars(&chars, '.');
    let ghost pv = split_on(v@, '.');
    let mut out: Vec<u64> = Vec::new();
    let mut i: usize = 0;
    while i < 3
        invariant
            parts@.len() == 3,
            pv == split_on(v@, '.'),
            pv.len() == 3,
            crate::text::views(parts@) == pv,
            forall|j: int| 0 <= j < 3 ==> release_part(#[trigger] pv[j]),
            i <= 3,
            out@ =~= version_numbers(v@).take(i as int),
        decreases 3 - i,
    {
        assert(pv[i as int] == parts@[i as int]@);
        assert(release_part(pv[i as int]));
        let n = match parse_u64_chars(&parts[i]) {
            Some(n) => n,
            None => 0,
        };
        out.push(n);
        assert(version_numbers(v@).take(i + 1) =~= version_numbers(v@).take(i as int).push(n));
        i = i + 1;
    }
    assert(version_numbers(v@).take(3) =~= version_numbers(v@));
    out
}

/// Compares two release versions: -1 when `left` is older, 1 when it is
/// newer, 0 when they are the same; an error when either is not a release
/// version (`left` is checked first).
pub fn compare_versions(left: &str, right: &str) -> (r: Result<i32, CliError>)
    ensures
        match r {
            Ok(c) => {
                &&& is_release(normalized(left@))
                &&& is_release(normalized(right@))
                &&& c == version_order(left@, right@)
            },
            Err(e) => if !is_release(normalized(left@)) {
                e.message@ == invalid_version_message(left@)
            } else {
                !is_release(normalized(right@)) && e.message@ == invalid_version_message(right@)
            },
        },
{
    let l = match normalize_release_version(left) {
        Ok(s) => s,
        Err(e) => return Err(e),
    };
    let rt = match normalize_release_version(right) {
        Ok(s) => s,
        Err(e) => return Err(e),
    };
    let a = version_numbers_of(l.as_str());
    let b = version_numbers_of(rt.as_str());
    let mut i: usize = 0;
    assert(a@.skip(0) =~= a@);
    assert(b@.skip(0) =~= b@);
    while i < 3
        invariant
            a@.len() == 3,
            b@.len() == 3,
            a@ == version_numbers(normalized(left@)),
            b@ == version_numbers(normalized(right@)),
            is_release(normalized(left@)),
            is_release(normalized(right@)),
            i <= 3,
            numbers_order(a@, b@) == numbers_order(a@.skip(i as int), b@.skip(i as int)),
        decreases 3 - i,
    {
        assert(a@.skip(i as int).drop_first() =~= a@.skip(i + 1));
        assert(b@.skip(i as int).drop_first() =~= b@.skip(i + 1));
        if a[i] < b[i] {
            return Ok(-1);
        }
        if a[i] > b[i] {
            return Ok(1);
        }
        i = i + 1;
    }
    Ok(0)
}

// ---------------------------------------------------------------------------
// Release packages
// ---------------------------------------------------------------------------

/// The download address of the release archive of `version` for `arch`.
pub open spec fn archive_url(version: Seq<char>, arch: Seq<char>) -> Seq<char> {
    "https://github.com/gray0128/sh/releases/download/v"@ + version + "/vps-cli-linux-"@ + arch
        + ".tar.gz"@
}

/// The address of the checksum file of the archive at `url`.
pub open spec fn checksum_url(url: Seq<char>) -> Seq<char> {
    url + ".sha256"@
}

/// The release package name for the machine `os`/`arch` (as
/// `std::env::consts` names them), or why there is none.
pub open spec fn release_arch(os: Seq<char>, arch: Seq<char>) -> Result<Seq<char>, Seq<char>> {
    if os != "linux"@ {
        Err("当前仅为 Linux 提供 vps-cli release 安装包"@)
    } else if arch == "x86_64"@ {
        Ok("amd64"@)
    } else if arch == "aarch64"@ {
        Ok("arm64"@)
    } else {
        Err("当前架构暂不支持自动升级："@ + arch)
    }
}

/// The download address of the release archive of `version` for `arch`.
pub fn release_archive_url(version: &str, arch: &str) -> (r: String)
    ensures
        r@ == archive_url(version@, arch@),
{
    let mut v = chars_of("https://github.com/gray0128/sh/releases/download/v");
    append_str(&mut v, version);
    append_str(&mut v, "/vps-cli-linux-");
    append_str(&mut v, arch);
    append_str(&mut v, ".tar.gz");
    string_of(&v)
}

/// The release package name for the machine `os`/`arch`; an error when no
/// release package is built for it.
pub fn release_arch_name(os: &str, arch: &str) -> (r: Result<String, CliError>)
    ensures
        match r {
            Ok(a) => release_arch(os@, arch@) == Ok::<Seq<char>, Seq<char>>(a@),
            Err(e) => release_arch(os@, arch@) == Err::<Seq<char>, Seq<char>>(e.message@),
        },
{
    if !str_eq(os, "linux") {
        return Err(CliError::new("当前仅为 Linux 提供 vps-cli release 安装包"));
    }
    if str_eq(arch, "x86_64") {
        Ok("amd64".to_owned())
    } else if str_eq(arch, "aarch64") {
        Ok("arm64".to_owned())
    } else {
        let mut m = chars_of("当前架构暂不支持自动升级：");
        append_str(&mut m, arch);
        Err(CliError::from_message(string_of(&m)))
    }
}

/// The release to fall back on when the latest one cannot be asked for.
pub open spec fn default_release() -> Seq<char> {
    "0.1.0"@
}

/// The latest release version: the tag that the release service answered
/// with, normalized, or the default release when it gave no answer.
pub fn resolve_latest_release_version(fetched_tag: Option<&str>) -> (r: Result<String, CliError>)
    ensures
        fetched_tag is None ==> (r matches Ok(v) && v@ == default_release()),
        fetched_tag matches Some(t) ==> match r {
            Ok(v) => is_release(normalized(t@)) && v@ == normalized(t@),
            Err(e) => !is_release(normalized(t@)) && e.message@ == invalid_version_message(t@),
        },
{
    match fetched_tag {
        Some(t) => normalize_release_version(t),
        None => Ok("0.1.0".to_owned()),
    }
}

/// What `version` reports.
#[derive(Debug)]
pub struct VersionInfo {
    pub current_version: String,
    pub latest_release_version: String,
    pub binary: String,
    pub platform: String,
    pub arch: Option<String>,
    pub download_url: Option<String>,
    pub requires_root_hint: String,
}

/// The warning of `version` on a machine without a release package.
pub open spec fn no_package_warning() -> Seq<char> {
    "当前平台没有对应的 Linux release 包；如需升级，请在目标 Linux VPS 上执行。"@
}

/// What `version` reports for the build `current` on the machine `os`/`arch`
/// when `latest` is the latest release: the package name and download
/// address when there is a package, else a warning.
pub fn version_info(current: &str, latest: &str, os: &str, arch: &str) -> (r: (
    VersionInfo,
    OperationReport,
))
    ensures
        r.0.current_version@ == current@,
        r.0.latest_release_version@ == latest@,
        r.0.binary@ == "vps-cli"@,
        r.0.platform@ == os@,
        r.0.requires_root_hint@
            == "大部分管理命令需要 root；自升级若目标路径不可写，也需要 sudo 或 root。"@,
        match release_arch(os@, arch@) {
            Ok(a) => {
                &&& r.0.arch matches Some(x) && x@ == a
                &&& r.0.download_url matches Some(u) && u@ == archive_url(latest@, a)
                &&& r.1.warnings@.len() == 0
            },
            Err(_) => {
                &&& r.0.arch is None
                &&& r.0.download_url is None
                &&& r.1.warnings@.len() == 1
                &&& r.1.warnings@[0]@ == no_package_warning()
            },
        },
        r.1.changed_files@.len() == 0,
        r.1.backups@.len() == 0,
        r.1.rolled_back is None,
        r.1.sensitive is None,
{
    let mut report = OperationReport::default();
    let (arch_name, url) = match release_arch_name(os, arch) {
        Ok(a) => {
            let u = release_archive_url(latest, a.as_str());
            (Some(a), Some(u))
        },
        Err(_) => {
            report.warnings.push(
                "当前平台没有对应的 Linux release 包；如需升级，请在目标 Linux VPS 上执行。".to_owned(),
            );
            (None, None)
        },
    };
    let info = VersionInfo {
        current_version: current.to_owned(),
        latest_release_version: latest.to_owned(),
        binary: "vps-cli".to_owned(),
        platform: os.to_owned(),
        arch: arch_name,
        download_url: url,
        requires_root_hint: "大部分管理命令需要 root；自升级若目标路径不可写，也需要 sudo 或 root。".to_owned(),
    };
    (info, report)
}

// ---------------------------------------------------------------------------
// The upgrade decision
// ---------------------------------------------------------------------------

/// What `upgrade` does next.
#[derive(Debug)]
pub enum UpgradeStep {
    /// `--check` on a machine without a release package: report that, with
    /// the reason as a warning.
    Unsupported { current: String, target: String, warning: String },
    /// `--check`: whether the target is newer, and where it would come from.
    Check {
        current: String,
        target: String,
        upgrade_available: bool,
        download_url: String,
        checksum_url: String,
    },
    /// The current version is not older than the target: nothing to do.
    UpToDate { current: String, target: String },
    /// Download the archive and its checksum, verify it, and install it.
    Install { current: String, target: String, download_url: String, checksum_url: String },
}

/// The message for a build whose own version is not a release version.
pub open spec fn unknown_build_message(v: Seq<char>) -> Seq<char> {
    "当前构建版本 "@ + v + " 不是可识别的 release 版本，无法判断升级关系"@
}

/// What `upgrade` does for the build `current` asked to go to the release
/// `desired`, with `--check` or not, on the machine `os`/`arch`.
pub fn plan_upgrade(current: &str, desired: &str, check_only: bool, os: &str, arch: &str) -> (r:
    Result<UpgradeStep, CliError>)
    ensures
        !is_release(current@) ==> (r matches Err(e) && e.message@ == unknown_build_message(
            current@,
        )),
        is_release(current@) && !is_release(normalized(desired@)) ==> (r matches Err(e)
            && e.message@ == invalid_version_message(desired@)),
        is_release(current@) && is_release(normalized(desired@)) ==> match release_arch(
            os@,
            arch@,
        ) {
            Err(m) => if check_only {
                r matches Ok(UpgradeStep::Unsupported { current: c, target: t, warning: w }) && c@
                    == current@ && t@ == desired@ && w@ == m
            } else {
                r matches Err(e) && e.message@ == m
            },
            Ok(a) => {
                let url = archive_url(desired@, a);
                let older = version_order(current@, desired@) < 0;
                if check_only {
                    r matches Ok(
                        UpgradeStep::Check {
                            current: c,
                            target: t,
                            upgrade_available: up,
                            download_url: d,
                            checksum_url: k,
                        },
                    ) && c@ == current@ && t@ == desired@ && up == older && d@ == url && k@
                        == checksum_url(url)
                } else if !older {
                    r matches Ok(UpgradeStep::UpToDate { current: c, target: t }) && c@ == current@
                        && t@ == desired@
                } else {
                    r matches Ok(
                        UpgradeStep::Install {
                            current: c,
                            target: t,
                            download_url: d,
                            checksum_url: k,
                        },
                    ) && c@ == current@ && t@ == desired@ && d@ == url && k@ == checksum_url(url)
                }
            },
        },
{
    if !is_release_version(current) {
        let mut m = chars_of("当前构建版本 ");
        append_str(&mut m, current);
        append_str(&mut m, " 不是可识别的 release 版本，无法判断升级关系");
        return Err(CliError::from_message(string_of(&m)));
    }
    proof {
        lemma_release_is_normal(current@);
    }
    let order = match compare_versions(current, desired) {
        Ok(c) => c,
        Err(e) => return Err(e),
    };
    let arch_name = match release_arch_name(os, arch) {
        Ok(a) => a,
        Err(e) => {
            if check_only {
                return Ok(
                    UpgradeStep::Unsupported {
                        current: current.to_owned(),
                        target: desired.to_owned(),
                        warning: e.message,
                    },
                );
            }
            return Err(e);
        },
    };
    let url = release_archive_url(desired, arch_name.as_str());
    let mut k = chars_of(url.as_str());
    append_str(&mut k, ".sha256");
    let sums = string_of(&k);
    if check_only {
        Ok(
            UpgradeStep::Check {
                current: current.to_owned(),
                target: desired.to_owned(),
                upgrade_available: order < 0,
                download_url: url,
                checksum_url: sums,
            },
        )
    } else if order >= 0 {
        Ok(UpgradeStep::UpToDate { current: current.to_owned(), target: desired.to_owned() })
    } else {
        Ok(
            UpgradeStep::Install {
                current: current.to_owned(),
                target: desired.to_owned(),
                download_url: url,
                checksum_url: sums,
            },
        )
    }
}

// ---------------------------------------------------------------------------
// Checksums and errors
// ---------------------------------------------------------------------------

/// What SHA-256 (FIPS 180-4) gives for `data`.
pub uninterp spec fn sha256(data: Seq<u8>) -> Seq<u8>;

/// `sha2::Sha256` fed with `data` and finalized: the SHA-256 digest of
/// `data`, which is 32 bytes long.
#[verifier::external_body]
pub(crate) fn sha256_digest(data: &[u8]) -> (r: Vec<u8>)
    ensures
        r@ == sha256(data@),
        r@.len() == 32,
{
    let mut hasher = Sha256::new();
    hasher.update(data);
    hasher.finalize().to_vec()
}

/// The lowercase hexadecimal digit of `n` (below 16).
pub open spec fn hex_digit(n: int) -> char {
    if n < 10 {
        (48 + n) as char
    } else {
        (87 + n) as char
    }
}

/// Each byte as two lowercase hexadecimal digits, the high half first.
pub open spec fn lower_hex(bytes: Seq<u8>) -> Seq<char>
    decreases bytes.len(),
{
    if bytes.len() == 0 {
        seq![]
    } else {
        let b = bytes.last();
        lower_hex(bytes.drop_last()) + seq![hex_digit((b / 16) as int), hex_digit((b % 16) as int)]
    }
}

/// `hex::encode`: each byte as two lowercase hexadecimal digits, the high
/// half first.
#[verifier::external_body]
pub(crate) fn hex_encode(data: &[u8]) -> (r: String)
    ensures
        r@ == lower_hex(data@),
{
    hex::encode(data)
}

/// The first whitespace separated word of `s`, empty when there is none.
pub open spec fn first_word(s: Seq<char>) -> Seq<char> {
    if words(s).len() > 0 {
        words(s)[0]
    } else {
        seq![]
    }
}

/// The digest that a checksum file announces: its first word, lowercased.
pub open spec fn announced_digest(text: Seq<char>) -> Seq<char> {
    unicode_lowercase(trim(first_word(text)))
}

/// The message for a digest that differs from the announced one.
pub open spec fn digest_mismatch_message(expected: Seq<char>, actual: Seq<char>) -> Seq<char> {
    "release 包 SHA256 校验失败：期望 "@ + expected + "，实际 "@ + actual
}

/// The message for a checksum file without a digest.
pub open spec fn empty_checksum_message() -> Seq<char> {
    "release SHA256 文件内容为空"@
}

/// Checks the digest `digest` of a downloaded archive against the checksum
/// file `checksum_text`: `Ok` when the file announces a digest and it is
/// `digest` in lowercase hexadecimal.
pub fn check_digest(digest: &[u8], checksum_text: &str) -> (r: Result<(), CliError>)
    ensures
        ({
            let expected = announced_digest(checksum_text@);
            let actual = lower_hex(digest@);
            match r {
                Ok(_) => expected.len() > 0 && expected == actual,
                Err(e) => if expected.len() == 0 {
                    e.message@ == empty_checksum_message()
                } else {
                    expected != actual && e.message@ == digest_mismatch_message(expected, actual)
                },
            }
        }),
{
    let ws = words_of(&chars_of(checksum_text));
    let first = if ws.len() > 0 {
        ws[0].clone()
    } else {
        Vec::new()
    };
    assert(first@ == first_word(checksum_text@));
    let expected = to_lowercase(string_of(&trim_chars(&first)).as_str());
    let e = chars_of(expected.as_str());
    if e.len() == 0 {
        return Err(CliError::new("release SHA256 文件内容为空"));
    }
    let actual = hex_encode(digest);
    let a = chars_of(actual.as_str());
    if !chars_eq(&e, &a) {
        let mut m = chars_of("release 包 SHA256 校验失败：期望 ");
        append(&mut m, &e);
        append_str(&mut m, "，实际 ");
        append(&mut m, &a);
        return Err(CliError::from_message(string_of(&m)));
    }
    Ok(())
}

/// Checks a downloaded archive against its checksum file: `Ok` when the file
/// announces a digest and it is the SHA-256 digest of `archive` in lowercase
/// hexadecimal.
pub fn verify_archive_checksum(archive: &[u8], checksum_text: &str) -> (r: Result<(), CliError>)
    ensures
        ({
            let expected = announced_digest(checksum_text@);
            let actual = lower_hex(sha256(archive@));
            match r {
                Ok(_) => expected.len() > 0 && expected == actual,
                Err(e) => if expected.len() == 0 {
                    e.message@ == empty_checksum_message()
                } else {
                    expected != actual && e.message@ == digest_mismatch_message(expected, actual)
                },
            }
        }),
{
    let digest = sha256_digest(archive);
    check_digest(digest.as_slice(), checksum_text)
}

/// The hint given when a file could not be written for lack of permission.
pub open spec fn permission_hint() -> Seq<char> {
    "当前可执行文件路径不可写；如果安装在 /usr/local/bin 等系统目录，请使用 sudo 或 root 运行升级。"@
}

/// The error for a failed file operation: `prefix: error_text`, with a hint
/// to run as root when the failure was a denied permission.
pub fn permission_hint_error(prefix: &str, error_text: &str, permission_denied: bool) -> (r:
    CliError)
    ensures
        r.message@ == prefix@ + ": "@ + error_text@,
        permission_denied ==> r.suggestions@.len() == 1 && r.suggestions@[0]@ == permission_hint(),
        !permission_denied ==> r.suggestions@.len() == 0,
        r.warnings@.len() == 0,
        r.code == 1,
{
    let mut m = chars_of(prefix);
    append_str(&mut m, ": ");
    append_str(&mut m, error_text);
    let mut err = CliError::from_message(string_of(&m));
    if permission_denied {
        err.suggestions.push(
            "当前可执行文件路径不可写；如果安装在 /usr/local/bin 等系统目录，请使用 sudo 或 root 运行升级。".to_owned(),
        );
    }
    err
}

// ---------------------------------------------------------------------------
// Laws of the version order
// ---------------------------------------------------------------------------

/// Every list of numbers compares equal to itself.
pub proof fn lemma_numbers_order_reflexive(a: Seq<u64>)
    ensures
        numbers_order(a, a) == 0,
    decreases a.len(),
{
    if a.len() > 0 {
        lemma_numbers_order_reflexive(a.drop_first());
    }
}

/// Swapping the two sides negates the comparison.
pub proof fn lemma_numbers_order_antisymmetric(a: Seq<u64>, b: Seq<u64>)
    ensures
        numbers_order(a, b) == -numbers_order(b, a),
    decreases a.len(),
{
    if a.len() > 0 && b.len() > 0 {
        lemma_numbers_order_antisymmetric(a.drop_first(), b.drop_first());
    }
}

/// On lists of one length, older than older is older.
pub proof fn lemma_numbers_order_transitive(a: Seq<u64>, b: Seq<u64>, c: Seq<u64>)
    requires
        a.len() == b.len(),
        b.len() == c.len(),
        numbers_order(a, b) == -1,
        numbers_order(b, c) == -1,
    ensures
        numbers_order(a, c) == -1,
    decreases a.len(),
{
    if a.len() > 0 && a[0] == b[0] && b[0] == c[0] {
        lemma_numbers_order_transitive(a.drop_first(), b.drop_first(), c.drop_first());
    }
}

/// Every release version compares equal to itself.
pub proof fn lemma_version_order_reflexive(v: Seq<char>)
    ensures
        version_order(v, v) == 0,
{
    lemma_numbers_order_reflexive(version_numbers(normalized(v)));
}

/// Comparing two versions the other way round gives the opposite answer.
pub proof fn lemma_version_order_antisymmetric(left: Seq<char>, right: Seq<char>)
    ensures
        version_order(left, right) == -version_order(right, left),
{
    lemma_numbers_order_antisymmetric(
        version_numbers(normalized(left)),
        version_numbers(normalized(right)),
    );
}

/// If `a` is older than `b` and `b` older than `c`, then `a` is older than
/// `c`.
pub proof fn lemma_version_order_transitive(a: Seq<char>, b: Seq<char>, c: Seq<char>)
    requires
        is_release(normalized(a)),
        is_release(normalized(b)),
        is_release(normalized(c)),
        version_order(a, b) == -1,
        version_order(b, c) == -1,
    ensures
        version_order(a, c) == -1,
{
    lemma_numbers_order_transitive(
        version_numbers(normalized(a)),
        version_numbers(normalized(b)),
        version_numbers(normalized(c)),
    );
}

/// Text that parses as a `u64` starts with `+` or a digit and ends with a
/// digit.
proof fn lemma_parse_u64_ends(p: Seq<char>)
    requires
        parse_u64(p) is Some,
    ensures
        p.len() > 0,
        p[0] == '+' || is_digit(p[0]),
        is_digit(p.last()),
{
    let d = if p.len() > 0 && p[0] == '+' {
        p.drop_first()
    } else {
        p
    };
    assert(parse_uint(p, 0xffff_ffff_ffff_ffff) is Some);
    assert(is_digit(d[d.len() - 1]));
    assert(is_digit(d[0]));
}

/// A release version has no surrounding whitespace and no leading `v`:
/// normalizing it gives it back unchanged.
pub proof fn lemma_release_is_normal(v: Seq<char>)
    requires
        is_release(v),
    ensures
        normalized(v) == v,
{
    let parts = split_on(v, '.');
    lemma_split_on_ends(v, '.');
    assert(release_part(parts[0]));
    assert(release_part(parts[2]));
    lemma_parse_u64_ends(parts[0]);
    lemma_parse_u64_ends(parts[2]);
    assert(v[0] == parts[0][0]);
    assert(parts.last() == parts[2]);
    assert(v.last() == parts[2].last());
    assert(trim_start(v) == v);
    assert(trim_end(v) == v);
    assert(strip_leading(v, 'v') == v);
}

/// Normalizing a version twice gives what normalizing it once gives.
pub proof fn lemma_normalized_idempotent(v: Seq<char>)
    requires
        is_release(normalized(v)),
    ensures
        normalized(normalized(v)) == normalized(v),
{
    lemma_release_is_normal(normalized(v));
}

/// The release version `x.y.z` written in decimal.
pub open spec fn release_text(x: u64, y: u64, z: u64) -> Seq<char> {
    decimal(x as nat) + "."@ + decimal(y as nat) + "."@ + decimal(z as nat)
}

/// Comparing triples of numbers: by the first, then the second, then the
/// third; -1 when the first triple is older, 1 when newer, 0 when equal.
pub open spec fn triple_order(a: (u64, u64, u64), b: (u64, u64, u64)) -> int {
    if a.0 != b.0 {
        if a.0 < b.0 {
            -1
        } else {
            1
        }
    } else if a.1 != b.1 {
        if a.1 < b.1 {
            -1
        } else {
            1
        }
    } else if a.2 != b.2 {
        if a.2 < b.2 {
            -1
        } else {
            1
        }
    } else {
        0
    }
}

/// `x.y.z` written in decimal is a release version, already normal, whose
/// numbers are `x`, `y` and `z`.
proof fn lemma_release_text_numbers(x: u64, y: u64, z: u64)
    ensures
        is_release(release_text(x, y, z)),
        normalized(release_text(x, y, z)) == release_text(x, y, z),
        version_numbers(release_text(x, y, z)) == seq![x, y, z],
{
    reveal_strlit(".");
    let dx = decimal(x as nat);
    let dy = decimal(y as nat);
    let dz = decimal(z as nat);
    lemma_decimal_digits(x as nat);
    lemma_decimal_digits(y as nat);
    lemma_decimal_digits(z as nat);
    lemma_parse_decimal(x as nat, 0xffff_ffff_ffff_ffff);
    lemma_parse_decimal(y as nat, 0xffff_ffff_ffff_ffff);
    lemma_parse_decimal(z as nat, 0xffff_ffff_ffff_ffff);
    let parts = seq![dx, dy, dz];
    assert forall|i: int, k: int| 0 <= i < parts.len() && 0 <= k < parts[i].len() implies #[trigger] parts[i][k] != '.' by {
        if i == 0 {
            assert(is_digit(dx[k]));
        } else if i == 1 {
            assert(is_digit(dy[k]));
        } else {
            assert(is_digit(dz[k]));
        }
    }
    let sep = seq!['.'];
    assert(parts.drop_last().drop_last() =~= seq![dx]);
    assert(join(seq![dx], sep) == dx);
    assert(parts.drop_last() =~= seq![dx, dy]);
    assert(join(seq![dx, dy], sep) == dx + sep + dy);
    assert(join(parts, sep) == dx + sep + dy + sep + dz);
    assert(release_text(x, y, z) =~= join(parts, sep));
    lemma_split_on_join(parts, '.');
    let v = release_text(x, y, z);
    assert(split_on(v, '.') == parts);
    assert(release_part(parts[0]));
    assert(release_part(parts[1]));
    assert(release_part(parts[2]));
    assert(is_release(v));
    lemma_release_is_normal(v);
    assert(version_numbers(v) =~= seq![x, y, z]);
}

/// Release versions are ordered by their numbers, the major first, then the
/// minor, then the patch: `x.y.a` is older than `x.y.b` when `a < b`, and a
/// difference in an earlier number decides before any later one.
pub proof fn lemma_release_order_is_lexicographic(a: (u64, u64, u64), b: (u64, u64, u64))
    ensures
        version_order(release_text(a.0, a.1, a.2), release_text(b.0, b.1, b.2)) == triple_order(a, b),
{
    lemma_release_text_numbers(a.0, a.1, a.2);
    lemma_release_text_numbers(b.0, b.1, b.2);
    let na = seq![a.0, a.1, a.2];
    let nb = seq![b.0, b.1, b.2];
    assert(na.drop_first() =~= seq![a.1, a.2]);
    assert(nb.drop_first() =~= seq![b.1, b.2]);
    assert(na.drop_first().drop_first() =~= seq![a.2]);
    assert(nb.drop_first().drop_first() =~= seq![b.2]);
    assert(na.drop_first().drop_first().drop_first() =~= Seq::<u64>::empty());
    assert(nb.drop_first().drop_first().drop_first() =~= Seq::<u64>::empty());
    let e = Seq::<u64>::empty();
    assert(seq![a.2].drop_first() =~= e);
    assert(seq![b.2].drop_first() =~= e);
    assert(numbers_order(e, e) == 0);
    assert(seq![a.1, a.2].drop_first() =~= seq![a.2]);
    assert(seq![b.1, b.2].drop_first() =~= seq![b.2]);
    assert(numbers_order(seq![a.2], seq![b.2]) == triple_order((0, 0, a.2), (0, 0, b.2)));
    assert(numbers_order(seq![a.1, a.2], seq![b.1, b.2]) == triple_order((0, a.1, a.2), (0, b.1, b.2)));
    assert(numbers_order(na, nb) == triple_order(a, b));
}

} // verus!
