//! sing-box: the release download for a machine, the confirmation of its
//! writing commands, and the bookkeeping of its outbound nodes (new node
//! ids and tags, the node listing, and which node a removal means).
use vstd::prelude::*;

use crate::num::{all_digits, decimal, decimal_chars, parse_usize, parse_usize_chars};
use crate::safety::ConfirmationGate;
use crate::text::{
    append, append_str, chars_eq, chars_of, is_digit, opt_view, starts_with, starts_with_str,
    str_eq, string_of, to_lowercase, trim, trim_chars, unicode_lowercase,
};
use crate::utils::{texts, CliError};

verus! {

// ---------------------------------------------------------------------------
// Installing
// ---------------------------------------------------------------------------

/// The release architecture name for a machine architecture (as
/// `std::env::consts::ARCH` names it).
pub open spec fn release_arch(arch: Seq<char>) -> Option<Seq<char>> {
    if arch == "x86_64"@ || arch == "amd64"@ {
        Some("amd64"@)
    } else if arch == "aarch64"@ {
        Some("arm64"@)
    } else if arch == "armv7"@ {
        Some("armv7"@)
    } else if arch == "i386"@ || arch == "i686"@ {
        Some("386"@)
    } else {
        None
    }
}

/// sing-box is released for every machine that the mita packages and the
/// vps-cli releases are built for, under the same architecture name (so an
/// x86_64 or aarch64 VPS that can upgrade vps-cli or install mita can
/// install sing-box too), and every name it gives is one that sing-box
/// publishes: `amd64`, `arm64`, `armv7` or `386`.
pub proof fn lemma_release_arch_covers_other_releases(arch: Seq<char>, unsupported: Seq<char>)
    ensures
        crate::mieru::package_arch(arch, unsupported) matches Ok(n) ==> release_arch(arch) == Some(n),
        crate::self_update::release_arch("linux"@, arch) matches Ok(n) ==> release_arch(arch) == Some(n),
        release_arch(arch) matches Some(n) ==> (n == "amd64"@ || n == "arm64"@ || n == "armv7"@ || n
            == "386"@),
{
    if arch == "aarch64"@ {
        reveal_strlit("aarch64");
        reveal_strlit("amd64");
        assert("aarch64"@.len() != "amd64"@.len());
    }
}

/// Every architecture that sing-box publishes a release for is reached:
/// some machine architecture maps to each of `amd64`, `arm64`, `armv7` and
/// `386`.
pub proof fn lemma_release_arch_reaches_every_release()
    ensures
        exists|a: Seq<char>| release_arch(a) == Some("amd64"@),
        exists|a: Seq<char>| release_arch(a) == Some("arm64"@),
        exists|a: Seq<char>| release_arch(a) == Some("armv7"@),
        exists|a: Seq<char>| release_arch(a) == Some("386"@),
{
    reveal_strlit("x86_64");
    reveal_strlit("amd64");
    reveal_strlit("aarch64");
    reveal_strlit("armv7");
    reveal_strlit("i386");
    reveal_strlit("i686");
    assert("aarch64"@.len() != "x86_64"@.len() && "aarch64"@.len() != "amd64"@.len());
    assert("armv7"@.len() != "x86_64"@.len() && "armv7"@.len() != "aarch64"@.len());
    assert("armv7"@[1] != "amd64"@[1]);
    assert("i386"@.len() != "x86_64"@.len() && "i386"@.len() != "amd64"@.len() && "i386"@.len()
        != "aarch64"@.len() && "i386"@.len() != "armv7"@.len());
    assert(release_arch("x86_64"@) == Some("amd64"@));
    assert(release_arch("aarch64"@) == Some("arm64"@));
    assert(release_arch("armv7"@) == Some("armv7"@));
    assert(release_arch("i386"@) == Some("386"@));
}

/// The release architecture name for a machine architecture, if sing-box
/// is built for it.
pub fn detect_arch(arch: &str) -> (r: Option<String>)
    ensures
        opt_view(r) == release_arch(arch@),
{
    if str_eq(arch, "x86_64") || str_eq(arch, "amd64") {
        Some("amd64".to_owned())
    } else if str_eq(arch, "aarch64") {
        Some("arm64".to_owned())
    } else if str_eq(arch, "armv7") {
        Some("armv7".to_owned())
    } else if str_eq(arch, "i386") || str_eq(arch, "i686") {
        Some("386".to_owned())
    } else {
        None
    }
}

/// The download address of the sing-box release `version` (`latest` for
/// the newest) for the release architecture `arch`.
pub open spec fn release_url(version: Seq<char>, arch: Seq<char>) -> Seq<char> {
    if version == "latest"@ {
        "https://github.com/SagerNet/sing-box/releases/latest/download/sing-box-linux-"@ + arch
            + ".tar.gz"@
    } else {
        "https://github.com/SagerNet/sing-box/releases/download/v"@ + version + "/sing-box-"@
            + version + "-linux-"@ + arch + ".tar.gz"@
    }
}

/// The download address of a sing-box release (see [`release_url`]).
pub fn download_url(version: &str, arch: &str) -> (r: String)
    ensures
        r@ == release_url(version@, arch@),
{
    if str_eq(version, "latest") {
        let mut v = chars_of("https://github.com/SagerNet/sing-box/releases/latest/download/sing-box-linux-");
        append_str(&mut v, arch);
        append_str(&mut v, ".tar.gz");
        string_of(&v)
    } else {
        let mut v = chars_of("https://github.com/SagerNet/sing-box/releases/download/v");
        append_str(&mut v, version);
        append_str(&mut v, "/sing-box-");
        append_str(&mut v, version);
        append_str(&mut v, "-linux-");
        append_str(&mut v, arch);
        append_str(&mut v, ".tar.gz");
        string_of(&v)
    }
}

/// The directory that a versioned release archive unpacks into.
pub fn extracted_dir_name(version: &str, arch: &str) -> (r: String)
    ensures
        r@ == "sing-box-"@ + version@ + "-linux-"@ + arch@,
{
    let mut v = chars_of("sing-box-");
    append_str(&mut v, version);
    append_str(&mut v, "-linux-");
    append_str(&mut v, arch);
    string_of(&v)
}

/// Among the names of what the archive of the newest release unpacked
/// into, the position of the first that starts with `sing-box`.
pub fn find_extracted_dir(names: &Vec<String>) -> (r: Option<usize>)
    ensures
        match r {
            Some(i) => i < names@.len() && starts_with(names@[i as int]@, "sing-box"@) && forall|k: int|
                0 <= k < i ==> !starts_with(#[trigger] names@[k]@, "sing-box"@),
            None => forall|k: int|
                0 <= k < names@.len() ==> !starts_with(#[trigger] names@[k]@, "sing-box"@),
        },
{
    let n = names.len();
    for i in 0..n
        invariant
            n == names@.len(),
            forall|k: int| 0 <= k < i ==> !starts_with(#[trigger] names@[k]@, "sing-box"@),
    {
        if starts_with_str(&chars_of(names[i].as_str()), "sing-box") {
            return Some(i);
        }
    }
    None
}

/// Checks a downloaded archive's digest against the expected one, both
/// compared in lowercase.
pub fn check_download_digest(computed: &str, expected: &str) -> (r: Result<(), CliError>)
    ensures
        r is Ok <==> unicode_lowercase(computed@) == unicode_lowercase(expected@),
        r matches Err(e) ==> e.message@ == "SHA256 校验失败: 期待 "@ + expected@ + ", 计算得 "@
            + computed@,
{
    let a = to_lowercase(computed);
    let b = to_lowercase(expected);
    if chars_eq(&chars_of(a.as_str()), &chars_of(b.as_str())) {
        Ok(())
    } else {
        let mut m = chars_of("SHA256 校验失败: 期待 ");
        append_str(&mut m, expected);
        append_str(&mut m, ", 计算得 ");
        append_str(&mut m, computed);
        Err(CliError::from_message(string_of(&m)))
    }
}

/// The confirmation of a writing sing-box command: a dry run or `--confirm`
/// goes on, an interactive session asks, anything else is refused with
/// `refusal`.
pub fn confirm_gate(interactive: bool, confirmed: bool, dry_run: bool, refusal: &str) -> (r:
    ConfirmationGate)
    ensures
        (confirmed || dry_run) ==> r is Proceed,
        !confirmed && !dry_run && interactive ==> r is Ask,
        !confirmed && !dry_run && !interactive ==> (r matches ConfirmationGate::Refuse(e)
            && e.message@ == refusal@),
{
    if confirmed || dry_run {
        ConfirmationGate::Proceed
    } else if interactive {
        ConfirmationGate::Ask
    } else {
        ConfirmationGate::Refuse(CliError::new(refusal))
    }
}

/// The systemd unit of sing-box.
pub fn service_unit() -> (r: String)
    ensures
        r@ == "[Unit]\nDescription=sing-box service\nAfter=network.target\n\n[Service]\nType=simple\nUser=sing-box\nExecStart=/usr/local/bin/sing-box run -c /etc/sing-box/config.json\nRestart=on-failure\nLimitNOFILE=1048576\n\n[Install]\nWantedBy=multi-user.target\n"@,
{
    "[Unit]\nDescription=sing-box service\nAfter=network.target\n\n[Service]\nType=simple\nUser=sing-box\nExecStart=/usr/local/bin/sing-box run -c /etc/sing-box/config.json\nRestart=on-failure\nLimitNOFILE=1048576\n\n[Install]\nWantedBy=multi-user.target\n".to_owned()
}

/// The `systemctl` arguments of a service action: `status` asks whether the
/// unit is active; `start`, `stop` and `restart` do that.
pub fn service_args(action: &str) -> (r: Result<Vec<String>, CliError>)
    ensures
        action@ == "status"@ ==> (r matches Ok(a) && texts(a@) == seq!["is-active"@, "sing-box"@]),
        (action@ == "start"@ || action@ == "stop"@ || action@ == "restart"@) ==> (r matches Ok(a)
            && texts(a@) == seq![action@, "sing-box"@]),
        !(action@ == "status"@ || action@ == "start"@ || action@ == "stop"@ || action@
            == "restart"@) ==> (r matches Err(e) && e.message@ == "未知操作"@),
{
    let first = if str_eq(action, "status") {
        assert("status"@ != "start"@ && "status"@ != "stop"@ && "status"@ != "restart"@) by {
            reveal_strlit("status");
            reveal_strlit("start");
            reveal_strlit("stop");
            reveal_strlit("restart");
            assert("status"@[3] != "start"@[3]);
            assert("status"@.len() != "stop"@.len());
            assert("status"@.len() != "restart"@.len());
        }
        "is-active".to_owned()
    } else if str_eq(action, "start") || str_eq(action, "stop") || str_eq(action, "restart") {
        action.to_owned()
    } else {
        return Err(CliError::new("未知操作"));
    };
    let mut v: Vec<String> = Vec::new();
    v.push(first);
    v.push("sing-box".to_owned());
    assert(texts(v@) =~= seq![v@[0]@, "sing-box"@]);
    Ok(v)
}

/// The data key that reports a done service action.
pub open spec fn done_key(action: Seq<char>) -> Seq<char> {
    if action == "start"@ {
        "started"@
    } else if action == "stop"@ {
        "stopped"@
    } else {
        "restarted"@
    }
}

/// The suggested next command after a service action: the status after a
/// start or restart, a start after a stop, a restart after a status query.
pub open spec fn next_step(action: Seq<char>) -> Seq<char> {
    if action == "status"@ {
        "vps-cli singbox restart"@
    } else if action == "stop"@ {
        "vps-cli singbox start"@
    } else {
        "vps-cli singbox status"@
    }
}

/// The name of the suggested next action (see [`next_step`]).
pub open spec fn next_action(action: Seq<char>) -> Seq<char> {
    if action == "status"@ {
        "restart"@
    } else if action == "stop"@ {
        "start"@
    } else {
        "status"@
    }
}

/// What a done service action reports.
pub open spec fn done_message(action: Seq<char>) -> Seq<char> {
    if action == "start"@ {
        "已启动 sing-box 服务"@
    } else if action == "stop"@ {
        "已停止 sing-box 服务"@
    } else {
        "已重启 sing-box 服务"@
    }
}

/// The error of a failed service action.
pub open spec fn failed_message(action: Seq<char>) -> Seq<char> {
    if action == "start"@ {
        "启动 sing-box 服务失败"@
    } else if action == "stop"@ {
        "停止 sing-box 服务失败"@
    } else {
        "重启 sing-box 服务失败"@
    }
}

/// What a sing-box service command reports once `systemctl` has run.
#[derive(Debug)]
pub enum ServiceOutcome {
    /// The state of the unit, with the suggested next action and command.
    Status { state: String, next_action: String, next_cmd: String },
    /// A start, stop or restart succeeded: the data key that reports it, the
    /// message, and the suggested next action and command.
    Done { key: String, message: String, next_action: String, next_cmd: String },
}

/// What a service command reports, given whether `systemctl` succeeded and
/// what it printed: the trimmed state for `status` (`unknown` when
/// `systemctl` failed); for `start`, `stop` and `restart`, the done report
/// when it succeeded and an error when it failed; an error for any other
/// action.
pub fn service_outcome(action: &str, success: bool, stdout: &str) -> (r: Result<
    ServiceOutcome,
    CliError,
>)
    ensures
        action@ == "status"@ ==> (r matches Ok(ServiceOutcome::Status { state, next_action: a, next_cmd })
            && state@ == (if success {
            trim(stdout@)
        } else {
            "unknown"@
        }) && a@ == next_action(action@) && next_cmd@ == next_step(action@)),
        (action@ == "start"@ || action@ == "stop"@ || action@ == "restart"@) && success ==> (r matches Ok(
            ServiceOutcome::Done { key, message, next_action: a, next_cmd },
        ) && key@ == done_key(action@) && message@ == done_message(action@) && a@ == next_action(
            action@,
        ) && next_cmd@ == next_step(action@)),
        (action@ == "start"@ || action@ == "stop"@ || action@ == "restart"@) && !success ==> (r matches Err(
            e,
        ) && e.message@ == failed_message(action@) && e.code == 1),
        !(action@ == "status"@ || action@ == "start"@ || action@ == "stop"@ || action@
            == "restart"@) ==> (r matches Err(e) && e.message@ == "未知操作"@),
{
    if str_eq(action, "status") {
        assert("status"@ != "start"@ && "status"@ != "stop"@ && "status"@ != "restart"@) by {
            reveal_strlit("status");
            reveal_strlit("start");
            reveal_strlit("stop");
            reveal_strlit("restart");
            assert("status"@[3] != "start"@[3]);
            assert("status"@.len() != "stop"@.len());
            assert("status"@.len() != "restart"@.len());
        }
        let state = if success {
            string_of(&trim_chars(&chars_of(stdout)))
        } else {
            "unknown".to_owned()
        };
        return Ok(
            ServiceOutcome::Status {
                state,
                next_action: "restart".to_owned(),
                next_cmd: "vps-cli singbox restart".to_owned(),
            },
        );
    }
    let is_start = str_eq(action, "start");
    let is_stop = str_eq(action, "stop");
    let is_restart = str_eq(action, "restart");
    if !(is_start || is_stop || is_restart) {
        return Err(CliError::new("未知操作"));
    }
    if !success {
        let m = if is_start {
            "启动 sing-box 服务失败"
        } else if is_stop {
            "停止 sing-box 服务失败"
        } else {
            "重启 sing-box 服务失败"
        };
        return Err(CliError::new(m));
    }
    if is_start {
        assert("start"@ != "stop"@) by {
            reveal_strlit("start");
            reveal_strlit("stop");
            assert("start"@.len() != "stop"@.len());
        }
        Ok(
            ServiceOutcome::Done {
                key: "started".to_owned(),
                message: "已启动 sing-box 服务".to_owned(),
                next_action: "status".to_owned(),
                next_cmd: "vps-cli singbox status".to_owned(),
            },
        )
    } else if is_stop {
        Ok(
            ServiceOutcome::Done {
                key: "stopped".to_owned(),
                message: "已停止 sing-box 服务".to_owned(),
                next_action: "start".to_owned(),
                next_cmd: "vps-cli singbox start".to_owned(),
            },
        )
    } else {
        Ok(
            ServiceOutcome::Done {
                key: "restarted".to_owned(),
                message: "已重启 sing-box 服务".to_owned(),
                next_action: "status".to_owned(),
                next_cmd: "vps-cli singbox status".to_owned(),
            },
        )
    }
}

// ---------------------------------------------------------------------------
// Outbound nodes
// ---------------------------------------------------------------------------

/// What a field of a JSON object holds, as far as the node bookkeeping
/// reads it.
#[derive(Debug)]
pub enum FieldValue {
    /// The object has no such field.
    Absent,
    /// The field holds a string.
    Text(String),
    /// The field holds something else.
    Other,
}

/// What the node bookkeeping reads of one outbound of the configuration:
/// whether it is a JSON object, and its `tag`, `type` and `protocol`
/// fields.
#[derive(Debug)]
pub struct Outbound {
    pub is_object: bool,
    pub tag: FieldValue,
    pub kind: FieldValue,
    pub protocol: FieldValue,
}

/// The id of a node added when there are `count` outbounds: `node<count+1>`.
pub open spec fn new_node_id(count: nat) -> Seq<char> {
    "node"@ + decimal(count + 1)
}

/// The id of a node added when there are `count` outbounds.
pub fn next_node_id(count: usize) -> (r: String)
    requires
        count < u64::MAX,
    ensures
        r@ == new_node_id(count as nat),
{
    let mut v = chars_of("node");
    append(&mut v, &decimal_chars(count as u64 + 1));
    string_of(&v)
}

/// What the node file of `add-node` holds at its top.
#[derive(Debug, Clone, Copy, PartialEq, Eq, Structural)]
pub enum NodeFileShape {
    Array,
    Object,
    Other,
}

/// Which of the new outbounds get the new id as their tag: the objects
/// without a `tag` field; an error when the node file is neither an object
/// nor an array.
pub fn outbounds_to_tag(shape: NodeFileShape, items: &Vec<Outbound>) -> (r: Result<Vec<bool>, CliError>)
    ensures
        shape == NodeFileShape::Other ==> (r matches Err(e) && e.message@
            == "节点配置文件格式不正确，应为 JSON 对象或数组"@),
        shape != NodeFileShape::Other ==> (r matches Ok(v) && v@.len() == items@.len() && forall|i: int|
            0 <= i < items@.len() ==> (#[trigger] v@[i]) == (items@[i].is_object
                && items@[i].tag is Absent)),
{
    if shape == NodeFileShape::Other {
        return Err(CliError::new("节点配置文件格式不正确，应为 JSON 对象或数组"));
    }
    let mut v: Vec<bool> = Vec::new();
    let n = items.len();
    for i in 0..n
        invariant
            n == items@.len(),
            v@.len() == i,
            forall|k: int| 0 <= k < i ==> (#[trigger] v@[k]) == (items@[k].is_object && items@[k].tag is Absent),
    {
        let absent = match items[i].tag {
            FieldValue::Absent => true,
            _ => false,
        };
        v.push(items[i].is_object && absent);
    }
    Ok(v)
}

/// The id of an outbound in the listing: its tag when that is a string,
/// else its position counted from 1.
pub open spec fn listed_id(o: Outbound, position: nat) -> Seq<char> {
    match o.tag {
        FieldValue::Text(t) => t@,
        _ => decimal(position),
    }
}

/// The type of an outbound in the listing: its `type` field, or its
/// `protocol` field when there is no `type`, when that is a string;
/// `unknown` otherwise.
pub open spec fn listed_type(o: Outbound) -> Seq<char> {
    let f = match o.kind {
        FieldValue::Absent => o.protocol,
        _ => o.kind,
    };
    match f {
        FieldValue::Text(t) => t@,
        _ => "unknown"@,
    }
}

/// A node of the listing: its id and type.
#[derive(Debug)]
pub struct ListedNode {
    pub id: String,
    pub kind: String,
}

/// The listing of `list-nodes`: the id and type of each outbound (see
/// [`listed_id`] and [`listed_type`]), the first `limit` of them when a
/// limit is given.
pub fn node_listing(outbounds: &Vec<Outbound>, limit: Option<usize>) -> (r: Vec<ListedNode>)
    requires
        outbounds@.len() < u64::MAX,
    ensures
        r@.len() == match limit {
            Some(l) => if l < outbounds@.len() {
                l as nat
            } else {
                outbounds@.len()
            },
            None => outbounds@.len(),
        },
        forall|i: int|
            0 <= i < r@.len() ==> (#[trigger] r@[i]).id@ == listed_id(outbounds@[i], (i + 1) as nat)
                && r@[i].kind@ == listed_type(outbounds@[i]),
{
    let n = outbounds.len();
    let m = match limit {
        Some(l) => if l < n {
            l
        } else {
            n
        },
        None => n,
    };
    let mut out: Vec<ListedNode> = Vec::new();
    for i in 0..m
        invariant
            m <= n,
            n == outbounds@.len(),
            n < u64::MAX,
            out@.len() == i,
            forall|k: int|
                0 <= k < i ==> (#[trigger] out@[k]).id@ == listed_id(outbounds@[k], (k + 1) as nat)
                    && out@[k].kind@ == listed_type(outbounds@[k]),
    {
        let o = &outbounds[i];
        let id = match &o.tag {
            FieldValue::Text(t) => t.clone(),
            _ => string_of(&decimal_chars((i + 1) as u64)),
        };
        let f = match &o.kind {
            FieldValue::Absent => &o.protocol,
            _ => &o.kind,
        };
        let kind = match f {
            FieldValue::Text(t) => t.clone(),
            _ => "unknown".to_owned(),
        };
        out.push(ListedNode { id, kind });
    }
    out
}

/// Which outbound `remove-node --id <id>` removes: for an id of digits only,
/// the outbound at that position counted from 1 (none when out of range or
/// too large a number); otherwise the first outbound whose tag is the id.
pub open spec fn removal_index(id: Seq<char>, tags: Seq<Option<Seq<char>>>) -> Option<int> {
    if all_digits(id) {
        match parse_usize(id) {
            Some(n) => if 0 < n && n <= tags.len() {
                Some(n - 1)
            } else {
                None
            },
            None => None,
        }
    } else if exists|i: int| 0 <= i < tags.len() && tags[i] == Some(id) {
        Some(choose|i: int| 0 <= i < tags.len() && tags[i] == Some(id) && forall|k: int|
            0 <= k < i ==> tags[k] != Some(id))
    } else {
        None
    }
}

/// The string tags of the outbounds (none where the tag is not a string).
pub open spec fn string_tags(outbounds: Seq<Outbound>) -> Seq<Option<Seq<char>>> {
    outbounds.map_values(
        |o: Outbound|
            match o.tag {
                FieldValue::Text(t) => Some(t@),
                _ => None,
            },
    )
}

/// Which outbound `remove-node --id <id>` removes (see [`removal_index`]).
pub fn node_removal_index(id: &str, outbounds: &Vec<Outbound>) -> (r: Option<usize>)
    ensures
        match r {
            Some(i) => removal_index(id@, string_tags(outbounds@)) == Some(i as int),
            None => removal_index(id@, string_tags(outbounds@)) is None,
        },
{
    let ghost tags = string_tags(outbounds@);
    let idc = chars_of(id);
    let n = idc.len();
    let mut digits = true;
    for i in 0..n
        invariant
            n == idc@.len(),
            idc@ == id@,
            digits <==> forall|k: int| 0 <= k < i ==> is_digit(#[trigger] idc@[k]),
    {
        if !('0' <= idc[i] && idc[i] <= '9') {
            digits = false;
        }
    }
    if digits {
        return match parse_usize_chars(&idc) {
            Some(k) => {
                if 0 < k && k <= outbounds.len() {
                    Some(k - 1)
                } else {
                    None
                }
            },
            None => None,
        };
    }
    let m = outbounds.len();
    for i in 0..m
        invariant
            m == outbounds@.len(),
            tags == string_tags(outbounds@),
            idc@ == id@,
            !all_digits(id@),
            forall|k: int| 0 <= k < i ==> tags[k] != Some(id@),
    {
        let hit = match &outbounds[i].tag {
            FieldValue::Text(t) => str_eq(t.as_str(), id),
            _ => false,
        };
        if hit {
            assert(tags[i as int] == Some(id@));
            let ghost j = choose|j: int| 0 <= j < tags.len() && tags[j] == Some(id@) && forall|k: int|
                0 <= k < j ==> tags[k] != Some(id@);
            assert(j == i) by {
                if j < i {
                    assert(tags[j] != Some(id@));
                } else if j > i {
                    assert(tags[i as int] != Some(id@));
                }
            }
            return Some(i);
        }
        assert(tags[i as int] != Some(id@));
    }
    None
}

} // verus!
