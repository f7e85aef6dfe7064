//! Reclaiming a machine: which proxy and web server leftovers are removal
//! candidates, how they are listed and backed up, how `systemctl` failures
//! are judged, and how a failed removal is rolled back.
use vstd::prelude::*;

use crate::order::{
    compare_chars, insert_sorted_unique, lemma_seq_lt_irreflexive, lemma_seq_lt_total,
    lemma_seq_lt_transitive, lemma_strictly_sorted_unique, seq_lt, strictly_sorted,
};
use crate::num::{decimal, decimal_chars};
use crate::split::{contains, contains_str, join, join_chars};
use crate::text::{
    append, append_str, chars_of, lower_ascii, opt_view, strip_leading, strip_leading_chars,
    string_of, to_lower_ascii, trim, trim_chars, views,
};
use crate::utils::{texts, CliError, OperationReport};

verus! {

// ---------------------------------------------------------------------------
// Paths and names
// ---------------------------------------------------------------------------

/// The default TrustTunnel installation directory.
pub open spec fn trusttunnel_default_dir() -> Seq<char> {
    "/opt/trusttunnel"@
}

/// The TrustTunnel installation directory for the `--output-dir` value
/// `value`: the value trimmed, or the default directory when it is absent,
/// empty, `.` or `/opt`.
pub open spec fn trusttunnel_dir(value: Option<Seq<char>>) -> Seq<char> {
    let raw = match value {
        Some(v) => trim(v),
        None => trusttunnel_default_dir(),
    };
    if raw.len() == 0 || raw == "."@ || raw == "/opt"@ {
        trusttunnel_default_dir()
    } else {
        raw
    }
}

/// The TrustTunnel installation directory for the `--output-dir` value
/// `value` (see [`trusttunnel_dir`]).
pub fn normalized_trusttunnel_dir(value: Option<&str>) -> (r: String)
    ensures
        r@ == trusttunnel_dir(
            match value {
                Some(v) => Some(v@),
                None => None,
            },
        ),
{
    let raw = match value {
        Some(v) => trim_chars(&chars_of(v)),
        None => chars_of("/opt/trusttunnel"),
    };
    let s = string_of(&raw);
    if raw.len() == 0 || crate::text::str_eq(s.as_str(), ".") || crate::text::str_eq(
        s.as_str(),
        "/opt",
    ) {
        "/opt/trusttunnel".to_owned()
    } else {
        s
    }
}

/// A path as one component of a backup name: leading `/` removed, the
/// other `/` replaced by `_`, and `root` for the root directory itself.
pub open spec fn sanitized_path(path: Seq<char>) -> Seq<char> {
    let s = strip_leading(path, '/').map_values(|c: char| if c == '/' { '_' } else { c });
    if s.len() == 0 {
        "root"@
    } else {
        s
    }
}

/// A sanitized path is never empty and holds no `/`, so it stays one
/// component of the backup name.
pub proof fn lemma_sanitized_path_is_one_component(path: Seq<char>)
    ensures
        sanitized_path(path).len() > 0,
        !sanitized_path(path).contains('/'),
{
    let s = strip_leading(path, '/').map_values(|c: char| if c == '/' { '_' } else { c });
    if s.len() == 0 {
        reveal_strlit("root");
        assert(!"root"@.contains('/')) by {
            assert forall|i: int| 0 <= i < "root"@.len() implies "root"@[i] != '/' by {}
        }
    } else {
        assert forall|i: int| 0 <= i < s.len() implies s[i] != '/' by {}
    }
}

/// A path as one component of a backup name (see [`sanitized_path`]).
pub fn sanitize_path(path: &str) -> (r: String)
    ensures
        r@ == sanitized_path(path@),
{
    let stripped = strip_leading_chars(&chars_of(path), '/');
    let mut out: Vec<char> = Vec::new();
    let n = stripped.len();
    for i in 0..n
        invariant
            n == stripped@.len(),
            out@ =~= stripped@.take(i as int).map_values(|c: char| if c == '/' { '_' } else { c }),
    {
        let c = stripped[i];
        out.push(if c == '/' { '_' } else { c });
        assert(stripped@.take(i + 1) =~= stripped@.take(i as int).push(c));
    }
    assert(stripped@.take(n as int) =~= stripped@);
    if out.len() == 0 {
        "root".to_owned()
    } else {
        string_of(&out)
    }
}

/// The name prefix of the backup of `path` made by the command whose backups
/// start with `prefix`.
pub fn backup_label(prefix: &str, path: &str) -> (r: String)
    ensures
        r@ == prefix@ + "-"@ + sanitized_path(path@),
{
    let mut v = chars_of(prefix);
    append_str(&mut v, "-");
    append_str(&mut v, sanitize_path(path).as_str());
    string_of(&v)
}

// ---------------------------------------------------------------------------
// systemctl
// ---------------------------------------------------------------------------

/// Whether the error output of `systemctl` only says that the unit does not
/// exist (compared case-insensitively after trimming).
pub open spec fn benign_systemctl_stderr(stderr: Seq<char>) -> bool {
    let s = lower_ascii(trim(stderr));
    ||| contains(s, "not loaded"@)
    ||| contains(s, "could not be found"@)
    ||| contains(s, "does not exist"@)
    ||| contains(s, "no files found for"@)
}

/// Whether the error output of `systemctl` only says that the unit does not
/// exist.
pub fn is_benign_systemctl_stderr(stderr: &str) -> (r: bool)
    ensures
        r == benign_systemctl_stderr(stderr@),
{
    let s = to_lower_ascii(&trim_chars(&chars_of(stderr)));
    contains_str(&s, "not loaded") || contains_str(&s, "could not be found") || contains_str(
        &s,
        "does not exist",
    ) || contains_str(&s, "no files found for")
}

/// The warning for a failed `systemctl` run with arguments `args` and error
/// output `stderr`: none when the error output is empty or only says that the
/// unit does not exist.
pub open spec fn systemctl_warning(args: Seq<Seq<char>>, stderr: Seq<char>) -> Option<Seq<char>> {
    if trim(stderr).len() > 0 && !benign_systemctl_stderr(stderr) {
        Some("警告: `systemctl "@ + join(args, " "@) + "` 失败: "@ + trim(stderr))
    } else {
        None
    }
}

/// The warning to print for a failed `systemctl` run (see
/// [`systemctl_warning`]).
pub fn systemctl_failure_warning(args: &Vec<String>, stderr: &str) -> (r: Option<String>)
    ensures
        opt_view(r) == systemctl_warning(texts(args@), stderr@),
{
    let t = trim_chars(&chars_of(stderr));
    if t.len() == 0 || is_benign_systemctl_stderr(stderr) {
        return None;
    }
    let mut parts: Vec<Vec<char>> = Vec::new();
    let n = args.len();
    for i in 0..n
        invariant
            n == args@.len(),
            views(parts@) =~= texts(args@).take(i as int),
    {
        let ghost before = views(parts@);
        let c = chars_of(args[i].as_str());
        let ghost cv = c@;
        parts.push(c);
        assert(views(parts@) =~= before.push(cv));
        assert(texts(args@).take(i + 1) =~= texts(args@).take(i as int).push(args@[i as int]@));
    }
    assert(texts(args@).take(n as int) =~= texts(args@));
    let mut m = chars_of("警告: `systemctl ");
    append(&mut m, &join_chars(&parts, &chars_of(" ")));
    append_str(&mut m, "` 失败: ");
    append(&mut m, &t);
    Some(string_of(&m))
}

/// The `systemctl` runs that stop, disable and reset the unit `name`, in
/// that order.
pub fn stop_disable_service(name: &str) -> (r: Vec<Vec<String>>)
    ensures
        r@.len() == 3,
        texts(r@[0]@) == seq!["stop"@, name@],
        texts(r@[1]@) == seq!["disable"@, name@],
        texts(r@[2]@) == seq!["reset-failed"@, name@],
{
    let mut out: Vec<Vec<String>> = Vec::new();
    out.push(two_args("stop", name));
    out.push(two_args("disable", name));
    out.push(two_args("reset-failed", name));
    out
}

fn two_args(a: &str, b: &str) -> (r: Vec<String>)
    ensures
        texts(r@) == seq![a@, b@],
{
    let mut v: Vec<String> = Vec::new();
    v.push(a.to_owned());
    v.push(b.to_owned());
    assert(texts(v@) =~= seq![a@, b@]);
    v
}

// ---------------------------------------------------------------------------
// Rolling back
// ---------------------------------------------------------------------------

/// A path that a command backed up before removing it, and where the backup
/// went (none when the path did not exist).
#[derive(Debug)]
pub struct BackupEntry {
    pub original_path: String,
    pub backup_path: Option<String>,
}

/// The restores that undo a command: for each backup that was made, latest
/// first, the pair (backup, original path).
pub open spec fn restore_plan(entries: Seq<BackupEntry>) -> Seq<(Seq<char>, Seq<char>)>
    decreases entries.len(),
{
    if entries.len() == 0 {
        seq![]
    } else {
        let e = entries.last();
        let rest = restore_plan(entries.drop_last());
        match e.backup_path {
            Some(b) => seq![(b@, e.original_path@)] + rest,
            None => rest,
        }
    }
}

/// The contents of a list of pairs of strings.
pub open spec fn pair_texts(v: Seq<(String, String)>) -> Seq<(Seq<char>, Seq<char>)> {
    v.map_values(|p: (String, String)| (p.0@, p.1@))
}

/// The restores that undo a command (see [`restore_plan`]).
pub fn rollback_steps(entries: &[BackupEntry]) -> (r: Vec<(String, String)>)
    ensures
        pair_texts(r@) == restore_plan(entries@),
{
    let mut out: Vec<(String, String)> = Vec::new();
    let n = entries.len();
    let mut i: usize = 0;
    while i < n
        invariant
            n == entries@.len(),
            i <= n,
            pair_texts(out@) =~= restore_plan(entries@.take(i as int)),
        decreases n - i,
    {
        let e = &entries[i];
        assert(entries@.take(i + 1).drop_last() =~= entries@.take(i as int));
        assert(entries@.take(i + 1).last() == *e);
        if let Some(b) = &e.backup_path {
            let ghost before = pair_texts(out@);
            out.insert(0, (b.clone(), e.original_path.clone()));
            assert(pair_texts(out@) =~= seq![(b@, e.original_path@)] + before);
        }
        i = i + 1;
    }
    assert(entries@.take(n as int) =~= entries@);
    out
}

/// The error of a command whose removal failed with `err` and which then
/// restored its backups with outcome `rollback`. Either way the report says
/// that it rolled back. When the restores worked, the error keeps its message
/// and carries `warning`; when they failed too, the message tells both
/// failures and the error carries all warnings of the report.
pub fn rollback_error(
    err: CliError,
    rollback: Result<(), CliError>,
    report: &mut OperationReport,
    warning: &str,
) -> (r: CliError)
    ensures
        final(report).rolled_back == Some(true),
        final(report).changed_files == old(report).changed_files,
        final(report).backups == old(report).backups,
        final(report).sensitive == old(report).sensitive,
        match rollback {
            Ok(_) => {
                &&& texts(final(report).warnings@) == texts(old(report).warnings@).push(warning@)
                &&& r.message@ == err.message@
                &&& texts(r.warnings@) == seq![warning@]
                &&& r.suggestions == err.suggestions
                &&& r.code == err.code
            },
            Err(re) => {
                &&& texts(final(report).warnings@) == texts(old(report).warnings@).push(
                    warning@ + " 回滚阶段再次失败: "@ + re.message@,
                )
                &&& r.message@ == err.message@ + "；回滚失败: "@ + re.message@
                &&& texts(r.warnings@) == texts(final(report).warnings@)
                &&& r.suggestions@.len() == 0
                &&& r.code == 1
            },
        },
{
    report.rolled_back = Some(true);
    match rollback {
        Ok(()) => {
            let ghost before = report.warnings@;
            report.warnings.push(warning.to_owned());
            assert(texts(report.warnings@) =~= texts(before).push(warning@));
            let mut ws: Vec<String> = Vec::new();
            ws.push(warning.to_owned());
            assert(texts(ws@) =~= seq![warning@]);
            err.with_warnings(ws)
        },
        Err(re) => {
            let mut w = chars_of(warning);
            append_str(&mut w, " 回滚阶段再次失败: ");
            append_str(&mut w, re.message.as_str());
            let ghost before = report.warnings@;
            let ws = string_of(&w);
            let ghost wv = ws@;
            report.warnings.push(ws);
            assert(texts(report.warnings@) =~= texts(before).push(wv));
            let mut m = chars_of(err.message.as_str());
            append_str(&mut m, "；回滚失败: ");
            append_str(&mut m, re.message.as_str());
            let all = crate::utils::clone_strings(&report.warnings);
            CliError::from_message(string_of(&m)).with_warnings(all)
        },
    }
}

// ---------------------------------------------------------------------------
// Removal candidates
// ---------------------------------------------------------------------------

/// What a removal candidate is.
#[derive(Debug, Clone, Copy, PartialEq, Eq, Structural)]
pub enum CandidateKind {
    /// A systemd unit (with its unit file).
    Service,
    /// A file or directory.
    Path,
}

/// A leftover that a cleanup may remove: a systemd unit with its unit file,
/// or a path.
#[derive(Debug, Clone)]
pub struct Candidate {
    pub kind: CandidateKind,
    pub name: Option<String>,
    pub path: Option<String>,
}

/// The contents of a [`Candidate`].
pub struct CandidateView {
    pub kind: CandidateKind,
    pub name: Option<Seq<char>>,
    pub path: Option<Seq<char>>,
}

impl View for Candidate {
    type V = CandidateView;

    open spec fn view(&self) -> CandidateView {
        CandidateView { kind: self.kind, name: opt_view(self.name), path: opt_view(self.path) }
    }
}

pub open spec fn candidates_view(v: Seq<Candidate>) -> Seq<CandidateView> {
    v.map_values(|c: Candidate| c@)
}

/// What candidates are ordered and told apart by: the path, else the name,
/// else nothing.
pub open spec fn candidate_key(c: CandidateView) -> Seq<char> {
    match c.path {
        Some(p) => p,
        None => match c.name {
            Some(n) => n,
            None => seq![],
        },
    }
}

/// Keys strictly increasing along `s`.
pub open spec fn keys_increasing(s: Seq<CandidateView>) -> bool {
    forall|a: int, b: int|
        0 <= a < b < s.len() ==> seq_lt(candidate_key(#[trigger] s[a]), candidate_key(#[trigger] s[b]))
}

/// `x` is the first candidate of `s` with its key.
pub open spec fn first_with_its_key(s: Seq<CandidateView>, x: CandidateView) -> bool {
    exists|j: int|
        #![trigger s[j]]
        0 <= j < s.len() && s[j] == x && forall|k: int|
            0 <= k < j ==> candidate_key(#[trigger] s[k]) != candidate_key(x)
}

/// Some candidate of `s` has the key `key`.
pub open spec fn key_present(s: Seq<CandidateView>, key: Seq<char>) -> bool {
    exists|k: int| 0 <= k < s.len() && candidate_key(#[trigger] s[k]) == key
}

/// `out` is `input` sorted by key with only the first candidate of each key
/// kept (a stable sort followed by removing consecutive repetitions of a
/// key).
pub open spec fn deduplicated(out: Seq<CandidateView>, input: Seq<CandidateView>) -> bool {
    &&& keys_increasing(out)
    &&& forall|k: int| 0 <= k < out.len() ==> first_with_its_key(input, #[trigger] out[k])
    &&& forall|j: int| 0 <= j < input.len() ==> key_present(out, candidate_key(#[trigger] input[j]))
}

fn clone_opt(o: &Option<String>) -> (r: Option<String>)
    ensures
        opt_view(r) == opt_view(*o),
{
    match o {
        Some(s) => Some(s.clone()),
        None => None,
    }
}

fn copy_candidate(c: &Candidate) -> (r: Candidate)
    ensures
        r@ == c@,
{
    Candidate { kind: c.kind, name: clone_opt(&c.name), path: clone_opt(&c.path) }
}

fn candidate_key_chars(c: &Candidate) -> (r: Vec<char>)
    ensures
        r@ == candidate_key(c@),
{
    match &c.path {
        Some(p) => chars_of(p.as_str()),
        None => match &c.name {
            Some(n) => chars_of(n.as_str()),
            None => Vec::new(),
        },
    }
}

proof fn lemma_key_absent(out: Seq<CandidateView>, p: int, key: Seq<char>)
    requires
        keys_increasing(out),
        0 <= p <= out.len(),
        forall|k: int| 0 <= k < p ==> seq_lt(candidate_key(#[trigger] out[k]), key),
        p < out.len() ==> seq_lt(key, candidate_key(out[p])),
    ensures
        !key_present(out, key),
{
    if key_present(out, key) {
        let m = choose|m: int| 0 <= m < out.len() && candidate_key(#[trigger] out[m]) == key;
        if m < p {
            lemma_seq_lt_irreflexive(key);
        } else if m == p {
            lemma_seq_lt_irreflexive(key);
        } else {
            assert(seq_lt(candidate_key(out[p]), candidate_key(out[m])));
            lemma_seq_lt_transitive(key, candidate_key(out[p]), candidate_key(out[m]));
            lemma_seq_lt_irreflexive(key);
        }
    }
}

proof fn lemma_insert_keeps_increasing(out: Seq<CandidateView>, p: int, x: CandidateView)
    requires
        keys_increasing(out),
        0 <= p <= out.len(),
        forall|k: int| 0 <= k < p ==> seq_lt(candidate_key(#[trigger] out[k]), candidate_key(x)),
        p < out.len() ==> seq_lt(candidate_key(x), candidate_key(out[p])),
    ensures
        keys_increasing(out.insert(p, x)),
{
    let s2 = out.insert(p, x);
    assert forall|a: int, b: int| 0 <= a < b < s2.len() implies seq_lt(
        candidate_key(#[trigger] s2[a]),
        candidate_key(#[trigger] s2[b]),
    ) by {
        if b < p {
            assert(s2[a] == out[a] && s2[b] == out[b]);
        } else if b == p {
            assert(s2[a] == out[a]);
        } else if a < p {
            assert(s2[a] == out[a]);
            assert(s2[b] == out[b - 1]);
            if a < b - 1 {
                assert(seq_lt(candidate_key(out[a]), candidate_key(out[b - 1])));
            }
        } else if a == p {
            assert(s2[b] == out[b - 1]);
            if b - 1 > p {
                assert(seq_lt(candidate_key(out[p]), candidate_key(out[b - 1])));
                lemma_seq_lt_transitive(
                    candidate_key(x),
                    candidate_key(out[p]),
                    candidate_key(out[b - 1]),
                );
            }
        } else {
            assert(s2[a] == out[a - 1] && s2[b] == out[b - 1]);
            assert(seq_lt(candidate_key(out[a - 1]), candidate_key(out[b - 1])));
        }
    }
}

/// Sorts the candidates by key and keeps only the first candidate of each
/// key.
pub fn dedup_candidates(items: Vec<Candidate>) -> (r: Vec<Candidate>)
    ensures
        deduplicated(candidates_view(r@), candidates_view(items@)),
{
    let ghost s = candidates_view(items@);
    let mut out: Vec<Candidate> = Vec::new();
    let n = items.len();
    for i in 0..n
        invariant
            n == items@.len(),
            s == candidates_view(items@),
            deduplicated(candidates_view(out@), s.take(i as int)),
    {
        let e = &items[i];
        let ek = candidate_key_chars(e);
        let ghost t = s.take(i as int);
        let ghost t2 = s.take(i + 1);
        assert(t2 =~= t.push(e@));
        let ghost so = candidates_view(out@);
        let len = out.len();
        let mut p: usize = 0;
        while p < len && compare_chars(&candidate_key_chars(&out[p]), &ek) < 0
            invariant
                len == out@.len(),
                so == candidates_view(out@),
                p <= len,
                ek@ == candidate_key(e@),
                forall|k: int| 0 <= k < p ==> seq_lt(candidate_key(#[trigger] so[k]), ek@),
            decreases len - p,
        {
            p = p + 1;
        }
        let dup = p < len && compare_chars(&candidate_key_chars(&out[p]), &ek) == 0;
        assert forall|k: int| 0 <= k < so.len() implies first_with_its_key(t2, #[trigger] so[k]) by {
            assert(first_with_its_key(t, so[k]));
            let j = choose|j: int|
                #![trigger t[j]]
                0 <= j < t.len() && t[j] == so[k] && forall|m: int|
                    0 <= m < j ==> candidate_key(#[trigger] t[m]) != candidate_key(so[k]);
            assert(t2[j] == t[j]);
            assert forall|m: int| 0 <= m < j implies candidate_key(#[trigger] t2[m])
                != candidate_key(so[k]) by {
                assert(t2[m] == t[m]);
            }
        }
        if dup {
            assert forall|j: int| 0 <= j < t2.len() implies key_present(
                so,
                candidate_key(#[trigger] t2[j]),
            ) by {
                if j < t.len() {
                    assert(t2[j] == t[j]);
                    assert(key_present(so, candidate_key(t[j])));
                } else {
                    assert(candidate_key(so[p as int]) == candidate_key(t2[j]));
                }
            }
        } else {
            proof {
                if p < len {
                    lemma_seq_lt_total(candidate_key(so[p as int]), ek@);
                }
                lemma_key_absent(so, p as int, ek@);
                lemma_insert_keeps_increasing(so, p as int, e@);
            }
            out.insert(p, copy_candidate(e));
            let ghost s2 = candidates_view(out@);
            assert(s2 =~= so.insert(p as int, e@));
            assert forall|k: int| 0 <= k < s2.len() implies first_with_its_key(t2, #[trigger] s2[k]) by {
                if k < p {
                    assert(s2[k] == so[k]);
                    assert(first_with_its_key(t2, so[k]));
                } else if k == p {
                    assert(t2[i as int] == e@);
                    assert forall|m: int| 0 <= m < i implies candidate_key(#[trigger] t2[m])
                        != candidate_key(e@) by {
                        assert(t2[m] == t[m]);
                        assert(key_present(so, candidate_key(t[m])));
                    }
                } else {
                    assert(s2[k] == so[k - 1]);
                    assert(first_with_its_key(t2, so[k - 1]));
                }
            }
            assert forall|j: int| 0 <= j < t2.len() implies key_present(
                s2,
                candidate_key(#[trigger] t2[j]),
            ) by {
                if j < t.len() {
                    assert(t2[j] == t[j]);
                    assert(key_present(so, candidate_key(t[j])));
                    let m = choose|m: int|
                        0 <= m < so.len() && candidate_key(#[trigger] so[m]) == candidate_key(t[j]);
                    if m < p {
                        assert(s2[m] == so[m]);
                    } else {
                        assert(s2[m + 1] == so[m]);
                    }
                } else {
                    assert(s2[p as int] == e@);
                }
            }
        }
    }
    assert(s.take(n as int) =~= s);
    out
}

/// The keys of the candidates, in order.
pub open spec fn candidate_keys(s: Seq<CandidateView>) -> Seq<Seq<char>> {
    s.map_values(|c: CandidateView| candidate_key(c))
}

/// Deduplicating what deduplication gave changes nothing.
pub proof fn lemma_dedup_idempotent(
    once: Seq<CandidateView>,
    twice: Seq<CandidateView>,
    input: Seq<CandidateView>,
)
    requires
        deduplicated(once, input),
        deduplicated(twice, once),
    ensures
        twice == once,
{
    let ko = candidate_keys(once);
    let kt = candidate_keys(twice);
    assert forall|a: int, b: int| 0 <= a < b < ko.len() implies seq_lt(#[trigger] ko[a], #[trigger] ko[b]) by {
        assert(seq_lt(candidate_key(once[a]), candidate_key(once[b])));
    }
    assert forall|a: int, b: int| 0 <= a < b < kt.len() implies seq_lt(#[trigger] kt[a], #[trigger] kt[b]) by {
        assert(seq_lt(candidate_key(twice[a]), candidate_key(twice[b])));
    }
    assert forall|x: Seq<char>| kt.contains(x) <==> ko.contains(x) by {
        if kt.contains(x) {
            let k = choose|k: int| 0 <= k < kt.len() && kt[k] == x;
            assert(first_with_its_key(once, twice[k]));
            let j = choose|j: int|
                #![trigger once[j]]
                0 <= j < once.len() && once[j] == twice[k] && forall|m: int|
                    0 <= m < j ==> candidate_key(#[trigger] once[m]) != candidate_key(twice[k]);
            assert(ko[j] == x);
        }
        if ko.contains(x) {
            let j = choose|j: int| 0 <= j < ko.len() && ko[j] == x;
            assert(key_present(twice, candidate_key(once[j])));
            let k = choose|k: int| 0 <= k < twice.len() && candidate_key(#[trigger] twice[k]) == x;
            assert(kt[k] == x);
        }
    }
    lemma_strictly_sorted_unique(kt, ko);
    assert forall|k: int| 0 <= k < twice.len() implies #[trigger] twice[k] == once[k] by {
        assert(first_with_its_key(once, twice[k]));
        let j = choose|j: int|
            #![trigger once[j]]
            0 <= j < once.len() && once[j] == twice[k] && forall|m: int|
                0 <= m < j ==> candidate_key(#[trigger] once[m]) != candidate_key(twice[k]);
        assert(kt[k] == ko[k]);
        assert(ko[j] == kt[k]);
        if j < k {
            assert(seq_lt(ko[j], ko[k]));
            lemma_seq_lt_irreflexive(ko[k]);
        } else if j > k {
            assert(seq_lt(ko[k], ko[j]));
            lemma_seq_lt_irreflexive(ko[k]);
        }
    }
    assert(twice =~= once);
}

/// The candidate for the systemd unit `unit`, with its unit file.
pub open spec fn service_candidate(unit: Seq<char>) -> CandidateView {
    CandidateView {
        kind: CandidateKind::Service,
        name: Some(unit),
        path: Some("/etc/systemd/system/"@ + unit),
    }
}

/// The candidate for the path `path`.
pub open spec fn path_candidate(path: Seq<char>) -> CandidateView {
    CandidateView { kind: CandidateKind::Path, name: None, path: Some(path) }
}

/// The candidates for the units `units` and the paths `paths`, in that
/// order, before deduplication.
pub open spec fn raw_candidates(units: Seq<Seq<char>>, paths: Seq<Seq<char>>) -> Seq<
    CandidateView,
> {
    units.map_values(|u: Seq<char>| service_candidate(u)) + paths.map_values(
        |p: Seq<char>| path_candidate(p),
    )
}

/// The removal candidates for the units `units` that systemd knows and the
/// paths `paths` that exist: sorted by key, one per key.
pub fn collect_candidates(units: &Vec<String>, paths: &Vec<String>) -> (r: Vec<Candidate>)
    ensures
        deduplicated(candidates_view(r@), raw_candidates(texts(units@), texts(paths@))),
{
    let mut raw: Vec<Candidate> = Vec::new();
    let ghost us = texts(units@);
    let ghost ps = texts(paths@);
    let n = units.len();
    for i in 0..n
        invariant
            n == units@.len(),
            us == texts(units@),
            candidates_view(raw@) =~= us.take(i as int).map_values(
                |u: Seq<char>| service_candidate(u),
            ),
    {
        let mut path = chars_of("/etc/systemd/system/");
        append_str(&mut path, units[i].as_str());
        let c = Candidate {
            kind: CandidateKind::Service,
            name: Some(units[i].clone()),
            path: Some(string_of(&path)),
        };
        let ghost before = candidates_view(raw@);
        raw.push(c);
        assert(candidates_view(raw@) =~= before.push(service_candidate(us[i as int])));
        assert(us.take(i + 1) =~= us.take(i as int).push(us[i as int]));
    }
    assert(us.take(n as int) =~= us);
    let ghost first = candidates_view(raw@);
    let m = paths.len();
    for i in 0..m
        invariant
            m == paths@.len(),
            ps == texts(paths@),
            first == us.map_values(|u: Seq<char>| service_candidate(u)),
            candidates_view(raw@) =~= first + ps.take(i as int).map_values(
                |p: Seq<char>| path_candidate(p),
            ),
    {
        let c = Candidate { kind: CandidateKind::Path, name: None, path: Some(paths[i].clone()) };
        let ghost before = candidates_view(raw@);
        raw.push(c);
        assert(candidates_view(raw@) =~= before.push(path_candidate(ps[i as int])));
        assert(ps.take(i + 1) =~= ps.take(i as int).push(ps[i as int]));
    }
    assert(ps.take(m as int) =~= ps);
    dedup_candidates(raw)
}

fn strings_of(items: &[&str]) -> (r: Vec<String>)
    ensures
        r@.len() == items@.len(),
        forall|i: int| 0 <= i < items@.len() ==> (#[trigger] r@[i])@ == items@[i]@,
{
    let mut out: Vec<String> = Vec::new();
    let n = items.len();
    for i in 0..n
        invariant
            n == items@.len(),
            out@.len() == i,
            forall|k: int| 0 <= k < i ==> (#[trigger] out@[k])@ == items@[k]@,
    {
        out.push(items[i].to_owned());
    }
    out
}

/// The proxy units that `cleanup-proxies` looks for.
pub fn proxy_service_units() -> (r: Vec<String>)
    ensures
        texts(r@) == seq![
            "sing-box.service"@,
            "xray.service"@,
            "v2ray.service"@,
            "v2ray@server.service"@,
        ],
{
    let r = strings_of(&["sing-box.service", "xray.service", "v2ray.service", "v2ray@server.service"]);
    assert(texts(r@) =~= seq![
        "sing-box.service"@,
        "xray.service"@,
        "v2ray.service"@,
        "v2ray@server.service"@,
    ]);
    r
}

/// The proxy paths that `cleanup-proxies` looks for.
pub fn proxy_paths() -> (r: Vec<String>)
    ensures
        texts(r@) == seq![
            "/etc/sing-box"@,
            "/usr/local/bin/sing-box"@,
            "/usr/local/bin/xray"@,
            "/usr/local/bin/v2ray"@,
            "/etc/xray"@,
            "/etc/v2ray"@,
            "/var/log/sing-box"@,
            "/var/log/xray"@,
            "/var/log/v2ray"@,
            "/usr/local/etc/xray"@,
            "/usr/local/etc/v2ray"@,
        ],
{
    let r = strings_of(
        &[
            "/etc/sing-box",
            "/usr/local/bin/sing-box",
            "/usr/local/bin/xray",
            "/usr/local/bin/v2ray",
            "/etc/xray",
            "/etc/v2ray",
            "/var/log/sing-box",
            "/var/log/xray",
            "/var/log/v2ray",
            "/usr/local/etc/xray",
            "/usr/local/etc/v2ray",
        ],
    );
    assert(texts(r@) =~= seq![
        "/etc/sing-box"@,
        "/usr/local/bin/sing-box"@,
        "/usr/local/bin/xray"@,
        "/usr/local/bin/v2ray"@,
        "/etc/xray"@,
        "/etc/v2ray"@,
        "/var/log/sing-box"@,
        "/var/log/xray"@,
        "/var/log/v2ray"@,
        "/usr/local/etc/xray"@,
        "/usr/local/etc/v2ray"@,
    ]);
    r
}

/// The unit of the web server `name`.
pub fn web_server_unit(name: &str) -> (r: String)
    ensures
        r@ == name@ + ".service"@,
{
    let mut v = chars_of(name);
    append_str(&mut v, ".service");
    string_of(&v)
}

/// The paths of the web server `name` (`nginx` or `caddy`) that its cleanup
/// looks for; none for another server.
pub fn web_server_paths(name: &str) -> (r: Vec<String>)
    ensures
        name@ == "nginx"@ ==> texts(r@) == seq![
            "/etc/nginx"@,
            "/var/log/nginx"@,
            "/usr/sbin/nginx"@,
            "/usr/local/nginx"@,
        ],
        name@ == "caddy"@ ==> texts(r@) == seq![
            "/etc/caddy"@,
            "/var/log/caddy"@,
            "/usr/bin/caddy"@,
            "/usr/local/bin/caddy"@,
        ],
        name@ != "nginx"@ && name@ != "caddy"@ ==> r@.len() == 0,
{
    if crate::text::str_eq(name, "nginx") {
        assert("nginx"@ != "caddy"@) by {
            reveal_strlit("nginx");
            reveal_strlit("caddy");
            assert("nginx"@[0] != "caddy"@[0]);
        }
        let r = strings_of(&["/etc/nginx", "/var/log/nginx", "/usr/sbin/nginx", "/usr/local/nginx"]);
        assert(texts(r@) =~= seq![
            "/etc/nginx"@,
            "/var/log/nginx"@,
            "/usr/sbin/nginx"@,
            "/usr/local/nginx"@,
        ]);
        r
    } else if crate::text::str_eq(name, "caddy") {
        let r = strings_of(&["/etc/caddy", "/var/log/caddy", "/usr/bin/caddy", "/usr/local/bin/caddy"]);
        assert(texts(r@) =~= seq![
            "/etc/caddy"@,
            "/var/log/caddy"@,
            "/usr/bin/caddy"@,
            "/usr/local/bin/caddy"@,
        ]);
        r
    } else {
        Vec::new()
    }
}

/// How a candidate is listed before a cleanup.
pub open spec fn candidate_description(c: CandidateView) -> Seq<char> {
    match c.kind {
        CandidateKind::Service => "service "@ + match c.name {
            Some(n) => n,
            None => "<unknown>"@,
        } + " ("@ + match c.path {
            Some(p) => p,
            None => "<unknown>"@,
        } + ")"@,
        CandidateKind::Path => match c.path {
            Some(p) => "path "@ + p,
            None => "path <unknown>"@,
        },
    }
}

/// How the candidates are listed before a cleanup, one line each.
pub fn candidate_descriptions(candidates: &[Candidate]) -> (r: Vec<String>)
    ensures
        texts(r@) == candidates_view(candidates@).map_values(
            |c: CandidateView| candidate_description(c),
        ),
{
    let ghost cs = candidates_view(candidates@);
    let mut out: Vec<String> = Vec::new();
    let n = candidates.len();
    for i in 0..n
        invariant
            n == candidates@.len(),
            cs == candidates_view(candidates@),
            texts(out@) =~= cs.take(i as int).map_values(
                |c: CandidateView| candidate_description(c),
            ),
    {
        let c = &candidates[i];
        let d = match c.kind {
            CandidateKind::Service => {
                let mut v = chars_of("service ");
                match &c.name {
                    Some(x) => append_str(&mut v, x.as_str()),
                    None => append_str(&mut v, "<unknown>"),
                }
                append_str(&mut v, " (");
                match &c.path {
                    Some(x) => append_str(&mut v, x.as_str()),
                    None => append_str(&mut v, "<unknown>"),
                }
                append_str(&mut v, ")");
                v
            },
            CandidateKind::Path => match &c.path {
                Some(x) => {
                    let mut v = chars_of("path ");
                    append_str(&mut v, x.as_str());
                    v
                },
                None => chars_of("path <unknown>"),
            },
        };
        assert(d@ == candidate_description(cs[i as int]));
        let ghost before = texts(out@);
        out.push(string_of(&d));
        assert(texts(out@) =~= before.push(d@));
        assert(cs.take(i + 1) =~= cs.take(i as int).push(cs[i as int]));
    }
    assert(cs.take(n as int) =~= cs);
    out
}

/// Some candidate of `cs` has the path `path`.
pub open spec fn has_path(cs: Seq<CandidateView>, path: Seq<char>) -> bool {
    exists|j: int| 0 <= j < cs.len() && (#[trigger] cs[j]).path == Some(path)
}

/// The paths of the candidates to back up before a cleanup: sorted, each
/// once.
pub fn backup_candidate_paths(candidates: &[Candidate]) -> (r: Vec<String>)
    ensures
        strictly_sorted(texts(r@)),
        forall|x: Seq<char>|
            #![trigger texts(r@).contains(x)]
            texts(r@).contains(x) <==> has_path(candidates_view(candidates@), x),
{
    let ghost cs = candidates_view(candidates@);
    let mut out: Vec<String> = Vec::new();
    let n = candidates.len();
    for i in 0..n
        invariant
            n == candidates@.len(),
            cs == candidates_view(candidates@),
            strictly_sorted(texts(out@)),
            forall|x: Seq<char>|
                #![trigger texts(out@).contains(x)]
                texts(out@).contains(x) <==> has_path(cs.take(i as int), x),
    {
        let ghost t = cs.take(i as int);
        let ghost t2 = cs.take(i + 1);
        assert(t2 =~= t.push(cs[i as int]));
        let ghost before = texts(out@);
        match &candidates[i].path {
            Some(p) => {
                insert_sorted_unique(&mut out, p.clone());
            },
            None => {},
        }
        assert forall|x: Seq<char>| #![trigger texts(out@).contains(x)] texts(out@).contains(x)
            <==> has_path(t2, x) by {
            if has_path(t2, x) {
                let j = choose|j: int| 0 <= j < t2.len() && (#[trigger] t2[j]).path == Some(x);
                if j < t.len() {
                    assert(t[j] == t2[j]);
                    assert(has_path(t, x));
                }
            }
            if has_path(t, x) {
                let j = choose|j: int| 0 <= j < t.len() && (#[trigger] t[j]).path == Some(x);
                assert(t2[j] == t[j]);
            }
            if cs[i as int].path == Some(x) {
                assert(t2[i as int] == cs[i as int]);
            }
        }
    }
    assert(cs.take(n as int) =~= cs);
    out
}

// ---------------------------------------------------------------------------
// Cleanups and removals
// ---------------------------------------------------------------------------

/// The texts of a cleanup of removal candidates.
#[derive(Debug)]
pub struct CleanupJob {
    /// The title of the list of candidates shown before asking.
    pub title: String,
    /// The confirmation question.
    pub prompt: String,
    /// The warning recorded once the cleanup goes ahead.
    pub warning: String,
    /// Where the names of the backups start.
    pub backup_prefix: String,
    /// The warning when removing a candidate fails.
    pub failure_warning: String,
    /// The warning when `systemctl daemon-reload` fails afterwards.
    pub reload_warning: String,
}

/// The texts of `cleanup-proxies` for `count` candidates.
pub fn proxy_cleanup_job(count: usize) -> (r: CleanupJob)
    ensures
        r.title@ == "即将清理的代理候选项"@,
        r.prompt@ == "将尝试删除 "@ + decimal(count as nat) + " 个代理候选路径/服务，确认继续？"@,
        r.warning@ == "cleanup-proxies 已展示候选项，请确认删除范围无误。"@,
        r.backup_prefix@ == "proxy-cleanup"@,
        r.failure_warning@ == "清理代理候选项失败，已尝试恢复已删除文件。"@,
        r.reload_warning@ == reload_failure_warning(),
{
    let mut prompt = chars_of("将尝试删除 ");
    append(&mut prompt, &decimal_chars(count as u64));
    append_str(&mut prompt, " 个代理候选路径/服务，确认继续？");
    CleanupJob {
        title: "即将清理的代理候选项".to_owned(),
        prompt: string_of(&prompt),
        warning: "cleanup-proxies 已展示候选项，请确认删除范围无误。".to_owned(),
        backup_prefix: "proxy-cleanup".to_owned(),
        failure_warning: "清理代理候选项失败，已尝试恢复已删除文件。".to_owned(),
        reload_warning: "重载 systemd 失败，已尝试恢复已删除文件。".to_owned(),
    }
}

/// The texts of the cleanup of the web server `name` for `count` candidates.
pub fn web_cleanup_job(name: &str, count: usize) -> (r: CleanupJob)
    ensures
        r.title@ == "即将清理的 "@ + name@ + " 候选项"@,
        r.prompt@ == "将尝试清理 "@ + name@ + " 的 "@ + decimal(count as nat)
            + " 个候选路径/服务，确认继续？"@,
        r.warning@ == "cleanup-"@ + name@ + " 已展示候选项，请确认删除范围无误。"@,
        r.backup_prefix@ == name@ + "-cleanup"@,
        r.failure_warning@ == "清理 Web 服务候选项失败，已尝试恢复已删除文件。"@,
        r.reload_warning@ == reload_failure_warning(),
{
    let mut title = chars_of("即将清理的 ");
    append_str(&mut title, name);
    append_str(&mut title, " 候选项");
    let mut prompt = chars_of("将尝试清理 ");
    append_str(&mut prompt, name);
    append_str(&mut prompt, " 的 ");
    append(&mut prompt, &decimal_chars(count as u64));
    append_str(&mut prompt, " 个候选路径/服务，确认继续？");
    let mut warning = chars_of("cleanup-");
    append_str(&mut warning, name);
    append_str(&mut warning, " 已展示候选项，请确认删除范围无误。");
    let mut prefix = chars_of(name);
    append_str(&mut prefix, "-cleanup");
    CleanupJob {
        title: string_of(&title),
        prompt: string_of(&prompt),
        warning: string_of(&warning),
        backup_prefix: string_of(&prefix),
        failure_warning: "清理 Web 服务候选项失败，已尝试恢复已删除文件。".to_owned(),
        reload_warning: "重载 systemd 失败，已尝试恢复已删除文件。".to_owned(),
    }
}

/// The warning when `systemctl daemon-reload` fails after removals.
pub open spec fn reload_failure_warning() -> Seq<char> {
    "重载 systemd 失败，已尝试恢复已删除文件。"@
}

/// One step of an uninstall, after the backups.
#[derive(Debug)]
pub enum RemovalStep {
    /// Stop, disable and reset a systemd unit; failures only warn.
    StopService(String),
    /// Remove a path if it exists; when that fails, roll back and report the
    /// warning.
    Remove { path: String, failure_warning: String },
}

/// The contents of a [`RemovalStep`].
pub enum RemovalStepView {
    StopService(Seq<char>),
    Remove(Seq<char>, Seq<char>),
}

impl View for RemovalStep {
    type V = RemovalStepView;

    open spec fn view(&self) -> RemovalStepView {
        match self {
            RemovalStep::StopService(u) => RemovalStepView::StopService(u@),
            RemovalStep::Remove { path, failure_warning } => RemovalStepView::Remove(
                path@,
                failure_warning@,
            ),
        }
    }
}

pub open spec fn steps_view(v: Seq<RemovalStep>) -> Seq<RemovalStepView> {
    v.map_values(|s: RemovalStep| s@)
}

/// An uninstall: the confirmation question, the paths backed up first (with
/// the start of their backup names), the steps, and the paths reported as
/// changed once `systemctl daemon-reload` has run.
#[derive(Debug)]
pub struct RemovalJob {
    pub prompt: String,
    pub backup_prefix: String,
    pub backup_paths: Vec<String>,
    pub steps: Vec<RemovalStep>,
    pub changed_files: Vec<String>,
    pub reload_warning: String,
}

fn stop_step(unit: &str) -> (r: RemovalStep)
    ensures
        r@ == RemovalStepView::StopService(unit@),
{
    RemovalStep::StopService(unit.to_owned())
}

fn remove_step(path: &str, failure_warning: &str) -> (r: RemovalStep)
    ensures
        r@ == RemovalStepView::Remove(path@, failure_warning@),
{
    RemovalStep::Remove { path: path.to_owned(), failure_warning: failure_warning.to_owned() }
}

fn push_step(v: &mut Vec<RemovalStep>, s: RemovalStep)
    ensures
        steps_view(final(v)@) == steps_view(old(v)@).push(s@),
{
    let ghost before = steps_view(v@);
    let ghost sv = s@;
    v.push(s);
    assert(steps_view(v@) =~= before.push(sv));
}

fn push_text(v: &mut Vec<String>, s: &str)
    ensures
        texts(final(v)@) == texts(old(v)@).push(s@),
{
    let ghost before = texts(v@);
    v.push(s.to_owned());
    assert(texts(v@) =~= before.push(s@));
}

/// `singbox-uninstall`: removes the sing-box binary and unit file and keeps
/// the configuration.
pub fn singbox_uninstall_job() -> (r: RemovalJob)
    ensures
        r.prompt@ == "这将停止 sing-box 服务并删除二进制与 systemd 服务，确认继续？"@,
        r.backup_prefix@ == "singbox-uninstall"@,
        texts(r.backup_paths@) == seq![
            "/usr/local/bin/sing-box"@,
            "/etc/systemd/system/sing-box.service"@,
        ],
        steps_view(r.steps@) == seq![
            RemovalStepView::StopService("sing-box"@),
            RemovalStepView::Remove(
                "/usr/local/bin/sing-box"@,
                "卸载 sing-box 失败，已尝试恢复已删除文件。"@,
            ),
            RemovalStepView::Remove(
                "/etc/systemd/system/sing-box.service"@,
                "卸载 sing-box 失败，已尝试恢复已删除文件。"@,
            ),
        ],
        texts(r.changed_files@) == seq![
            "/usr/local/bin/sing-box"@,
            "/etc/systemd/system/sing-box.service"@,
        ],
        r.reload_warning@ == reload_failure_warning(),
{
    let mut backups: Vec<String> = Vec::new();
    push_text(&mut backups, "/usr/local/bin/sing-box");
    push_text(&mut backups, "/etc/systemd/system/sing-box.service");
    let mut steps: Vec<RemovalStep> = Vec::new();
    push_step(&mut steps, stop_step("sing-box"));
    push_step(
        &mut steps,
        remove_step("/usr/local/bin/sing-box", "卸载 sing-box 失败，已尝试恢复已删除文件。"),
    );
    push_step(
        &mut steps,
        remove_step(
            "/etc/systemd/system/sing-box.service",
            "卸载 sing-box 失败，已尝试恢复已删除文件。",
        ),
    );
    let mut changed: Vec<String> = Vec::new();
    push_text(&mut changed, "/usr/local/bin/sing-box");
    push_text(&mut changed, "/etc/systemd/system/sing-box.service");
    RemovalJob {
        prompt: "这将停止 sing-box 服务并删除二进制与 systemd 服务，确认继续？".to_owned(),
        backup_prefix: "singbox-uninstall".to_owned(),
        backup_paths: backups,
        steps,
        changed_files: changed,
        reload_warning: "重载 systemd 失败，已尝试恢复已删除文件。".to_owned(),
    }
}

/// `singbox-purge`: removes the sing-box binary, unit file and
/// configuration directory.
pub fn singbox_purge_job() -> (r: RemovalJob)
    ensures
        r.prompt@ == "危险操作：这将删除 vps-cli 托管的 sing-box 配置、元数据与服务文件，确认继续？"@,
        r.backup_prefix@ == "singbox-purge"@,
        texts(r.backup_paths@) == seq![
            "/usr/local/bin/sing-box"@,
            "/etc/systemd/system/sing-box.service"@,
            "/etc/sing-box"@,
        ],
        steps_view(r.steps@) == seq![
            RemovalStepView::StopService("sing-box"@),
            RemovalStepView::Remove(
                "/usr/local/bin/sing-box"@,
                "清理 sing-box 托管文件失败，已尝试恢复已删除文件。"@,
            ),
            RemovalStepView::Remove(
                "/etc/systemd/system/sing-box.service"@,
                "清理 sing-box 托管文件失败，已尝试恢复已删除文件。"@,
            ),
            RemovalStepView::Remove(
                "/etc/sing-box"@,
                "清理 sing-box 托管文件失败，已尝试恢复已删除文件。"@,
            ),
        ],
        texts(r.changed_files@) == seq![
            "/usr/local/bin/sing-box"@,
            "/etc/systemd/system/sing-box.service"@,
            "/etc/sing-box"@,
        ],
        r.reload_warning@ == reload_failure_warning(),
{
    let w = "清理 sing-box 托管文件失败，已尝试恢复已删除文件。";
    let mut backups: Vec<String> = Vec::new();
    push_text(&mut backups, "/usr/local/bin/sing-box");
    push_text(&mut backups, "/etc/systemd/system/sing-box.service");
    push_text(&mut backups, "/etc/sing-box");
    let mut steps: Vec<RemovalStep> = Vec::new();
    push_step(&mut steps, stop_step("sing-box"));
    push_step(&mut steps, remove_step("/usr/local/bin/sing-box", w));
    push_step(&mut steps, remove_step("/etc/systemd/system/sing-box.service", w));
    push_step(&mut steps, remove_step("/etc/sing-box", w));
    let mut changed: Vec<String> = Vec::new();
    push_text(&mut changed, "/usr/local/bin/sing-box");
    push_text(&mut changed, "/etc/systemd/system/sing-box.service");
    push_text(&mut changed, "/etc/sing-box");
    RemovalJob {
        prompt: "危险操作：这将删除 vps-cli 托管的 sing-box 配置、元数据与服务文件，确认继续？".to_owned(),
        backup_prefix: "singbox-purge".to_owned(),
        backup_paths: backups,
        steps,
        changed_files: changed,
        reload_warning: "重载 systemd 失败，已尝试恢复已删除文件。".to_owned(),
    }
}

/// `mieru-uninstall`: removes the mita unit files and the managed state
/// directory (the package itself is removed afterwards).
pub fn mieru_uninstall_job() -> (r: RemovalJob)
    ensures
        r.prompt@ == "这将删除 mita/mieru 服务端包、服务文件和托管状态，确认继续？"@,
        r.backup_prefix@ == "mieru-uninstall"@,
        texts(r.backup_paths@) == seq![
            "/etc/mieru-managed"@,
            "/etc/systemd/system/mita.service"@,
            "/lib/systemd/system/mita.service"@,
            "/usr/lib/systemd/system/mita.service"@,
        ],
        steps_view(r.steps@) == seq![
            RemovalStepView::StopService("mita"@),
            RemovalStepView::Remove(
                "/etc/systemd/system/mita.service"@,
                "卸载 mieru 托管文件失败，已尝试恢复已删除文件。"@,
            ),
            RemovalStepView::Remove(
                "/lib/systemd/system/mita.service"@,
                "卸载 mieru 托管文件失败，已尝试恢复已删除文件。"@,
            ),
            RemovalStepView::Remove(
                "/usr/lib/systemd/system/mita.service"@,
                "卸载 mieru 托管文件失败，已尝试恢复已删除文件。"@,
            ),
            RemovalStepView::Remove(
                "/etc/mieru-managed"@,
                "卸载 mieru 托管文件失败，已尝试恢复已删除文件。"@,
            ),
        ],
        texts(r.changed_files@) == seq![
            "/etc/mieru-managed"@,
            "/etc/systemd/system/mita.service"@,
            "/lib/systemd/system/mita.service"@,
            "/usr/lib/systemd/system/mita.service"@,
        ],
        r.reload_warning@ == reload_failure_warning(),
{
    let w = "卸载 mieru 托管文件失败，已尝试恢复已删除文件。";
    let mut backups: Vec<String> = Vec::new();
    push_text(&mut backups, "/etc/mieru-managed");
    push_text(&mut backups, "/etc/systemd/system/mita.service");
    push_text(&mut backups, "/lib/systemd/system/mita.service");
    push_text(&mut backups, "/usr/lib/systemd/system/mita.service");
    let mut steps: Vec<RemovalStep> = Vec::new();
    push_step(&mut steps, stop_step("mita"));
    push_step(&mut steps, remove_step("/etc/systemd/system/mita.service", w));
    push_step(&mut steps, remove_step("/lib/systemd/system/mita.service", w));
    push_step(&mut steps, remove_step("/usr/lib/systemd/system/mita.service", w));
    push_step(&mut steps, remove_step("/etc/mieru-managed", w));
    let mut changed: Vec<String> = Vec::new();
    push_text(&mut changed, "/etc/mieru-managed");
    push_text(&mut changed, "/etc/systemd/system/mita.service");
    push_text(&mut changed, "/lib/systemd/system/mita.service");
    push_text(&mut changed, "/usr/lib/systemd/system/mita.service");
    RemovalJob {
        prompt: "这将删除 mita/mieru 服务端包、服务文件和托管状态，确认继续？".to_owned(),
        backup_prefix: "mieru-uninstall".to_owned(),
        backup_paths: backups,
        steps,
        changed_files: changed,
        reload_warning: "重载 systemd 失败，已尝试恢复已删除文件。".to_owned(),
    }
}

/// `trusttunnel-purge`: removes the TrustTunnel installation directory
/// `output_dir` and its unit file.
pub fn trusttunnel_purge_job(output_dir: &str) -> (r: RemovalJob)
    ensures
        r.prompt@ == "危险操作：这将删除 TrustTunnel 安装目录与 systemd 文件，确认继续？"@,
        r.backup_prefix@ == "trusttunnel-purge"@,
        texts(r.backup_paths@) == seq![output_dir@, "/etc/systemd/system/trusttunnel.service"@],
        steps_view(r.steps@) == seq![
            RemovalStepView::StopService("trusttunnel"@),
            RemovalStepView::Remove(
                output_dir@,
                "清理 TrustTunnel 安装目录失败，已尝试恢复已删除文件。"@,
            ),
            RemovalStepView::Remove(
                "/etc/systemd/system/trusttunnel.service"@,
                "清理 TrustTunnel systemd 文件失败，已尝试恢复已删除文件。"@,
            ),
        ],
        texts(r.changed_files@) == seq![output_dir@, "/etc/systemd/system/trusttunnel.service"@],
        r.reload_warning@ == reload_failure_warning(),
{
    let mut backups: Vec<String> = Vec::new();
    push_text(&mut backups, output_dir);
    push_text(&mut backups, "/etc/systemd/system/trusttunnel.service");
    let mut steps: Vec<RemovalStep> = Vec::new();
    push_step(&mut steps, stop_step("trusttunnel"));
    push_step(
        &mut steps,
        remove_step(output_dir, "清理 TrustTunnel 安装目录失败，已尝试恢复已删除文件。"),
    );
    push_step(
        &mut steps,
        remove_step(
            "/etc/systemd/system/trusttunnel.service",
            "清理 TrustTunnel systemd 文件失败，已尝试恢复已删除文件。",
        ),
    );
    let mut changed: Vec<String> = Vec::new();
    push_text(&mut changed, output_dir);
    push_text(&mut changed, "/etc/systemd/system/trusttunnel.service");
    RemovalJob {
        prompt: "危险操作：这将删除 TrustTunnel 安装目录与 systemd 文件，确认继续？".to_owned(),
        backup_prefix: "trusttunnel-purge".to_owned(),
        backup_paths: backups,
        steps,
        changed_files: changed,
        reload_warning: "重载 systemd 失败，已尝试恢复已删除文件。".to_owned(),
    }
}

/// The warning of `trusttunnel-uninstall` when the unit file is still there
/// afterwards.
pub fn trusttunnel_leftover_warning() -> (r: String)
    ensures
        r@ == "卸载后仍检测到 systemd 文件 /etc/systemd/system/trusttunnel.service，如需彻底删除请执行 `vps-cli trusttunnel purge --confirm` 或 `vps-cli reclaim trusttunnel-purge --confirm`。"@,
{
    "卸载后仍检测到 systemd 文件 /etc/systemd/system/trusttunnel.service，如需彻底删除请执行 `vps-cli trusttunnel purge --confirm` 或 `vps-cli reclaim trusttunnel-purge --confirm`。".to_owned()
}

/// The arguments of the TrustTunnel installer that uninstall from
/// `output_dir` without asking.
pub fn trusttunnel_uninstall_args(output_dir: &str) -> (r: Vec<String>)
    ensures
        texts(r@) == seq!["-u"@, "-o"@, output_dir@, "-a"@, "y"@],
{
    let mut v: Vec<String> = Vec::new();
    push_text(&mut v, "-u");
    push_text(&mut v, "-o");
    push_text(&mut v, output_dir);
    push_text(&mut v, "-a");
    push_text(&mut v, "y");
    v
}

} // verus!
