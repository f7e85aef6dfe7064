//! Port usage: parsing the listings of `ss` and `lsof`, filtering them by
//! port, and rendering them.
use vstd::prelude::*;

use crate::num::{
    decimal, decimal_chars, lemma_decimal_digits, lemma_port_round_trip, parse_u16, parse_u16_chars,
    parse_u32, parse_u32_chars,
};
use crate::split::{
    contains, contains_str, find_char, find_char_in, find_sub, find_sub_in, join, join_chars,
    lemma_split_on_append_plain, lines, lines_of, split_chars, split_on, split_once_str, split_once_sub, words, words_of,
};
use crate::table::{render_table, render_table_chars, rows_view};
use crate::text::{
    append, append_str, chars_eq, chars_of, is_ascii_digit, is_digit, slice_chars, starts_with,
    starts_with_str, string_of, to_lowercase, trim, trim_chars, unicode_lowercase, views,
};
use crate::utils::CliError;

verus! {

/// One socket of the port listing.
#[derive(Debug, Clone, PartialEq, Eq)]
pub struct PortUsageEntry {
    pub protocol: String,
    pub state: String,
    pub local_address: String,
    pub port: u16,
    pub pid: Option<u32>,
    pub process: Option<String>,
}

/// The contents of a [`PortUsageEntry`].
pub struct PortUsage {
    pub protocol: Seq<char>,
    pub state: Seq<char>,
    pub local_address: Seq<char>,
    pub port: u16,
    pub pid: Option<u32>,
    pub process: Option<Seq<char>>,
}

impl View for PortUsageEntry {
    type V = PortUsage;

    open spec fn view(&self) -> PortUsage {
        PortUsage {
            protocol: self.protocol@,
            state: self.state@,
            local_address: self.local_address@,
            port: self.port,
            pid: self.pid,
            process: match self.process {
                Some(p) => Some(p@),
                None => None,
            },
        }
    }
}

pub open spec fn usages(v: Seq<PortUsageEntry>) -> Seq<PortUsage> {
    v.map_values(|e: PortUsageEntry| e@)
}

/// The port of a local address: what follows its last `:`, as a port number.
pub open spec fn extract_port(local_address: Seq<char>) -> Option<u16> {
    parse_u16(split_on(local_address, ':').last())
}

/// The port of a local address is the decimal number after its last `:`,
/// whatever colons the host part before it holds (an IPv6 address such as
/// `[::]` or `[fe80::1%eth0]` holds several).
pub proof fn lemma_port_after_last_colon(host: Seq<char>, port: u16)
    ensures
        extract_port(host + ":"@ + decimal(port as nat)) == Some(port),
{
    reveal_strlit(":");
    let x = host + ":"@;
    let d = decimal(port as nat);
    lemma_decimal_digits(port as nat);
    assert forall|k: int| 0 <= k < d.len() implies d[k] != ':' by {
        assert(is_digit(d[k]));
    }
    assert(x.last() == ':');
    assert(x.drop_last() =~= host);
    assert(split_on(x, ':') == split_on(host, ':').push(seq![]));
    lemma_split_on_append_plain(x, d, ':');
    assert(Seq::<char>::empty() + d =~= d);
    lemma_port_round_trip(port);
}

/// The leading decimal digits of `s`.
pub open spec fn digit_prefix(s: Seq<char>) -> Seq<char>
    decreases s.len(),
{
    if s.len() > 0 && is_digit(s[0]) {
        seq![s[0]] + digit_prefix(s.drop_first())
    } else {
        seq![]
    }
}

/// The process name (between the first two `"`) and the pid (the digits
/// after the first `pid=`) of the process column of `ss`.
pub open spec fn ss_process(value: Seq<char>) -> (Option<Seq<char>>, Option<u32>) {
    let process = match find_char(value, '"') {
        None => None,
        Some(start) => {
            let rest = value.skip(start + 1);
            match find_char(rest, '"') {
                None => None,
                Some(end) => Some(rest.take(end)),
            }
        },
    };
    let pid = match find_sub(value, "pid="@) {
        None => None,
        Some(idx) => parse_u32(digit_prefix(value.skip(idx + "pid="@.len()))),
    };
    (process, pid)
}

/// The socket of one line of `ss -H -n -p`: protocol, state, receive and
/// send queues, local address, peer address, then the process column.
pub open spec fn ss_line_usage(line: Seq<char>) -> Option<PortUsage> {
    let f = words(line);
    if f.len() < 5 {
        None
    } else {
        let local = f[4];
        match extract_port(local) {
            None => None,
            Some(port) => {
                let info = join(
                    if f.len() > 6 {
                        f.skip(6)
                    } else {
                        seq![]
                    },
                    " "@,
                );
                let (process, pid) = ss_process(info);
                Some(
                    PortUsage {
                        protocol: f[0],
                        state: f[1],
                        local_address: local,
                        port,
                        pid,
                        process,
                    },
                )
            },
        }
    }
}

/// The sockets listed by `ss`, in order.
pub open spec fn ss_usages(output: Seq<char>) -> Seq<PortUsage> {
    lines(output).filter_map(|l: Seq<char>| ss_line_usage(l))
}

/// The part of `s` before the first `->`, or all of it.
pub open spec fn before_arrow(s: Seq<char>) -> Seq<char> {
    match split_once_sub(s, "->"@) {
        Some((a, _)) => a,
        None => s,
    }
}

/// The socket of one line of `lsof -nP`: command, pid, user, fd, type,
/// device, size, node (the protocol) and the name, which holds the local
/// address and, in parentheses, the state.
pub open spec fn lsof_line_usage(line: Seq<char>) -> Option<PortUsage> {
    if trim(line).len() == 0 || starts_with(line, "COMMAND"@) {
        None
    } else {
        let cols = words(line);
        if cols.len() < 9 {
            None
        } else {
            match parse_u32(cols[1]) {
                None => None,
                Some(pid) => {
                    let protocol = unicode_lowercase(cols[7]);
                    let descriptor = join(cols.skip(8), " "@);
                    let name_fields = words(descriptor);
                    if name_fields.len() == 0 {
                        None
                    } else {
                        let local = before_arrow(name_fields[0]);
                        match extract_port(local) {
                            None => None,
                            Some(port) => {
                                let parts = split_on(descriptor, '(');
                                let state = if parts.len() >= 2 {
                                    split_on(parts[1], ')')[0]
                                } else if protocol == "udp"@ {
                                    "UNCONN"@
                                } else {
                                    "UNKNOWN"@
                                };
                                Some(
                                    PortUsage {
                                        protocol,
                                        state,
                                        local_address: local,
                                        port,
                                        pid: Some(pid),
                                        process: Some(cols[0]),
                                    },
                                )
                            },
                        }
                    }
                },
            }
        }
    }
}

/// The sockets listed by `lsof`, in order.
pub open spec fn lsof_usages(output: Seq<char>) -> Seq<PortUsage> {
    lines(output).filter_map(|l: Seq<char>| lsof_line_usage(l))
}

/// The port of a local address (see [`extract_port`]).
pub fn extract_port_chars(local_address: &Vec<char>) -> (r: Option<u16>)
    ensures
        r == extract_port(local_address@),
{
    let pieces = split_chars(local_address, ':');
    let last = &pieces[pieces.len() - 1];
    parse_u16_chars(last)
}

/// The leading decimal digits of `s`.
pub fn digit_prefix_chars(s: &Vec<char>) -> (r: Vec<char>)
    ensures
        r@ == digit_prefix(s@),
{
    let n = s.len();
    let mut i: usize = 0;
    while i < n && is_ascii_digit(s[i])
        invariant
            n == s@.len(),
            i <= n,
            forall|k: int| 0 <= k < i ==> is_digit(#[trigger] s@[k]),
        decreases n - i,
    {
        i = i + 1;
    }
    proof {
        lemma_digit_prefix(s@, i as int);
    }
    slice_chars(s, 0, i)
}

proof fn lemma_digit_prefix(s: Seq<char>, i: int)
    requires
        0 <= i <= s.len(),
        forall|k: int| 0 <= k < i ==> is_digit(#[trigger] s[k]),
        i == s.len() || !is_digit(s[i]),
    ensures
        digit_prefix(s) == s.subrange(0, i),
    decreases i,
{
    if i > 0 {
        let t = s.drop_first();
        assert forall|k: int| 0 <= k < i - 1 implies is_digit(#[trigger] t[k]) by {
            assert(t[k] == s[k + 1]);
        }
        if i < s.len() {
            assert(t[i - 1] == s[i]);
        }
        lemma_digit_prefix(t, i - 1);
        assert(s.subrange(0, i) =~= seq![s[0]] + t.subrange(0, i - 1));
    } else {
        assert(s.subrange(0, 0) =~= Seq::<char>::empty());
    }
}

/// The process name and pid of the process column of `ss` (see [`ss_process`]).
pub fn parse_ss_process(value: &str) -> (r: (Option<String>, Option<u32>))
    ensures
        ss_process(value@) == (
            match r.0 {
                Some(p) => Some(p@),
                None => None,
            },
            r.1,
        ),
{
    let v = chars_of(value);
    let n = v.len();
    let process = match find_char_in(&v, '"') {
        None => None,
        Some(start) => {
            proof {
                crate::split::lemma_find_char_bound(v@, '"');
            }
            let rest = slice_chars(&v, start + 1, n);
            assert(rest@ =~= v@.skip(start + 1));
            match find_char_in(&rest, '"') {
                None => None,
                Some(end) => {
                    proof {
                        crate::split::lemma_find_char_bound(rest@, '"');
                    }
                    let p = slice_chars(&rest, 0, end);
                    assert(p@ =~= rest@.take(end as int));
                    Some(string_of(&p))
                },
            }
        },
    };
    let marker = chars_of("pid=");
    let pid = match find_sub_in(&v, &marker) {
        None => None,
        Some(idx) => {
            proof {
                crate::split::lemma_find_sub_bound(v@, marker@, 0);
            }
            let tail = slice_chars(&v, idx + marker.len(), n);
            assert(tail@ =~= v@.skip(idx + "pid="@.len()));
            parse_u32_chars(&digit_prefix_chars(&tail))
        },
    };
    (process, pid)
}

/// The socket of one line of `ss` (see [`ss_line_usage`]).
pub fn ss_line_entry(line: &Vec<char>) -> (r: Option<PortUsageEntry>)
    ensures
        match r {
            Some(e) => ss_line_usage(line@) == Some(e@),
            None => ss_line_usage(line@) is None,
        },
{
    let f = words_of(line);
    let ghost fv = views(f@);
    if f.len() < 5 {
        return None;
    }
    let local = &f[4];
    let port = match extract_port_chars(local) {
        Some(p) => p,
        None => return None,
    };
    let mut rest: Vec<Vec<char>> = Vec::new();
    let n = f.len();
    let mut k: usize = 6;
    while k < n
        invariant
            n == f@.len(),
            6 <= k,
            n > 6 ==> k <= n,
            fv == views(f@),
            n > 6 ==> views(rest@) =~= fv.subrange(6, k as int),
            n <= 6 ==> rest@.len() == 0,
        decreases n - k,
    {
        let ghost before = views(rest@);
        let c = f[k].clone();
        let ghost cv = c@;
        rest.push(c);
        assert(views(rest@) =~= before.push(cv));
        assert(fv.subrange(6, k + 1) =~= fv.subrange(6, k as int).push(fv[k as int]));
        k = k + 1;
    }
    assert(views(rest@) =~= (if fv.len() > 6 {
        fv.skip(6)
    } else {
        seq![]
    }));
    let info = join_chars(&rest, &chars_of(" "));
    let info_s = string_of(&info);
    let (process, pid) = parse_ss_process(info_s.as_str());
    Some(
        PortUsageEntry {
            protocol: string_of(&f[0]),
            state: string_of(&f[1]),
            local_address: string_of(local),
            port,
            pid,
            process,
        },
    )
}

/// Parses the output of `ss -H -n -p` into its sockets, in order.
pub fn parse_ss_output(stdout: &str) -> (r: Vec<PortUsageEntry>)
    ensures
        usages(r@) == ss_usages(stdout@),
{
    let text = chars_of(stdout);
    let ls = lines_of(&text);
    let ghost lv = views(ls@);
    let mut out: Vec<PortUsageEntry> = Vec::new();
    let n = ls.len();
    for i in 0..n
        invariant
            n == ls@.len(),
            lv == views(ls@),
            lv == lines(stdout@),
            usages(out@) == lv.take(i as int).filter_map(|l: Seq<char>| ss_line_usage(l)),
    {
        proof {
            lv.lemma_filter_map_take_succ(|l: Seq<char>| ss_line_usage(l), i as int);
        }
        let ghost before = usages(out@);
        match ss_line_entry(&ls[i]) {
            Some(e) => {
                let ghost ev = e@;
                out.push(e);
                assert(usages(out@) =~= before + seq![ev]);
            },
            None => {
                assert(before + Seq::<PortUsage>::empty() =~= before);
            },
        }
    }
    assert(lv.take(n as int) =~= lv);
    out
}

/// The part of `s` before the first `->`, or all of it.
pub fn before_arrow_chars(s: &Vec<char>) -> (r: Vec<char>)
    ensures
        r@ == before_arrow(s@),
{
    match split_once_str(s, &chars_of("->")) {
        Some((a, _)) => a,
        None => s.clone(),
    }
}

/// The socket of one line of `lsof` (see [`lsof_line_usage`]).
pub fn lsof_line_entry(line: &Vec<char>) -> (r: Option<PortUsageEntry>)
    ensures
        match r {
            Some(e) => lsof_line_usage(line@) == Some(e@),
            None => lsof_line_usage(line@) is None,
        },
{
    if trim_chars(line).len() == 0 || starts_with_str(line, "COMMAND") {
        return None;
    }
    let cols = words_of(line);
    let ghost cv = views(cols@);
    let n = cols.len();
    if n < 9 {
        return None;
    }
    let pid = match parse_u32_chars(&cols[1]) {
        Some(p) => p,
        None => return None,
    };
    let protocol = to_lowercase(string_of(&cols[7]).as_str());
    let mut tail: Vec<Vec<char>> = Vec::new();
    let mut k: usize = 8;
    while k < n
        invariant
            n == cols@.len(),
            8 <= k <= n,
            cv == views(cols@),
            views(tail@) =~= cv.subrange(8, k as int),
        decreases n - k,
    {
        let ghost before = views(tail@);
        let c = cols[k].clone();
        let ghost c_v = c@;
        tail.push(c);
        assert(views(tail@) =~= before.push(c_v));
        assert(cv.subrange(8, k + 1) =~= cv.subrange(8, k as int).push(cv[k as int]));
        k = k + 1;
    }
    assert(views(tail@) =~= cv.skip(8));
    let descriptor = join_chars(&tail, &chars_of(" "));
    let name_fields = words_of(&descriptor);
    if name_fields.len() == 0 {
        return None;
    }
    let local = before_arrow_chars(&name_fields[0]);
    let port = match extract_port_chars(&local) {
        Some(p) => p,
        None => return None,
    };
    let parts = split_chars(&descriptor, '(');
    let state: Vec<char> = if parts.len() >= 2 {
        let inner = split_chars(&parts[1], ')');
        inner[0].clone()
    } else if chars_eq(&chars_of(protocol.as_str()), &chars_of("udp")) {
        chars_of("UNCONN")
    } else {
        chars_of("UNKNOWN")
    };
    Some(
        PortUsageEntry {
            protocol,
            state: string_of(&state),
            local_address: string_of(&local),
            port,
            pid: Some(pid),
            process: Some(string_of(&cols[0])),
        },
    )
}

/// Parses the output of `lsof -nP -i...` into its sockets, in order.
pub fn parse_lsof_output(stdout: &str) -> (r: Vec<PortUsageEntry>)
    ensures
        usages(r@) == lsof_usages(stdout@),
{
    let text = chars_of(stdout);
    let ls = lines_of(&text);
    let ghost lv = views(ls@);
    let mut out: Vec<PortUsageEntry> = Vec::new();
    let n = ls.len();
    for i in 0..n
        invariant
            n == ls@.len(),
            lv == views(ls@),
            lv == lines(stdout@),
            usages(out@) == lv.take(i as int).filter_map(|l: Seq<char>| lsof_line_usage(l)),
    {
        proof {
            lv.lemma_filter_map_take_succ(|l: Seq<char>| lsof_line_usage(l), i as int);
        }
        let ghost before = usages(out@);
        match lsof_line_entry(&ls[i]) {
            Some(e) => {
                let ghost ev = e@;
                out.push(e);
                assert(usages(out@) =~= before + seq![ev]);
            },
            None => {
                assert(before + Seq::<PortUsage>::empty() =~= before);
            },
        }
    }
    assert(lv.take(n as int) =~= lv);
    out
}

// ---------------------------------------------------------------------------
// Filtering
// ---------------------------------------------------------------------------

/// The sockets on `filter_port` (all of them without a filter), each kept
/// at its first occurrence only.
pub open spec fn filter_usages(s: Seq<PortUsage>, filter_port: Option<u16>) -> Seq<PortUsage>
    decreases s.len(),
{
    if s.len() == 0 {
        seq![]
    } else {
        let prev = filter_usages(s.drop_last(), filter_port);
        let e = s.last();
        if (filter_port matches Some(p) && e.port != p) || prev.contains(e) {
            prev
        } else {
            prev.push(e)
        }
    }
}

/// A copy of an entry.
pub fn copy_usage(e: &PortUsageEntry) -> (r: PortUsageEntry)
    ensures
        r@ == e@,
{
    PortUsageEntry {
        protocol: e.protocol.clone(),
        state: e.state.clone(),
        local_address: e.local_address.clone(),
        port: e.port,
        pid: e.pid,
        process: match &e.process {
            Some(p) => Some(p.clone()),
            None => None,
        },
    }
}

/// Whether an entry passes the port filter.
pub open spec fn passes_port(u: PortUsage, filter_port: Option<u16>) -> bool {
    !(filter_port matches Some(p) && u.port != p)
}

/// No entry occurs twice.
pub open spec fn no_repeats(s: Seq<PortUsage>) -> bool {
    forall|i: int, j: int| 0 <= i < j < s.len() ==> s[i] != s[j]
}

/// What the filter keeps passes the filter and occurs once.
pub proof fn lemma_filter_usages_shape(s: Seq<PortUsage>, filter_port: Option<u16>)
    ensures
        no_repeats(filter_usages(s, filter_port)),
        forall|k: int|
            0 <= k < filter_usages(s, filter_port).len() ==> passes_port(
                #[trigger] filter_usages(s, filter_port)[k],
                filter_port,
            ),
    decreases s.len(),
{
    if s.len() > 0 {
        lemma_filter_usages_shape(s.drop_last(), filter_port);
        let prev = filter_usages(s.drop_last(), filter_port);
        let e = s.last();
        if !((filter_port matches Some(p) && e.port != p) || prev.contains(e)) {
            let t = prev.push(e);
            assert forall|i: int, j: int| 0 <= i < j < t.len() implies t[i] != t[j] by {
                if j == prev.len() {
                    assert(t[i] == prev[i]);
                    assert(!prev.contains(e));
                } else {
                    assert(t[i] == prev[i] && t[j] == prev[j]);
                }
            }
            assert forall|k: int| 0 <= k < t.len() implies passes_port(#[trigger] t[k], filter_port) by {
                if k < prev.len() {
                    assert(t[k] == prev[k]);
                }
            }
        }
    }
}

/// A list that passes the filter and has no repetitions is left as it is.
pub proof fn lemma_filter_usages_keeps(t: Seq<PortUsage>, filter_port: Option<u16>)
    requires
        no_repeats(t),
        forall|k: int| 0 <= k < t.len() ==> passes_port(#[trigger] t[k], filter_port),
    ensures
        filter_usages(t, filter_port) == t,
    decreases t.len(),
{
    if t.len() > 0 {
        let init = t.drop_last();
        assert forall|k: int| 0 <= k < init.len() implies passes_port(#[trigger] init[k], filter_port) by {
            assert(init[k] == t[k]);
        }
        assert forall|i: int, j: int| 0 <= i < j < init.len() implies init[i] != init[j] by {
            assert(init[i] == t[i] && init[j] == t[j]);
        }
        lemma_filter_usages_keeps(init, filter_port);
        assert(passes_port(t[t.len() - 1], filter_port));
        assert(!init.contains(t.last())) by {
            if init.contains(t.last()) {
                let k = choose|k: int| 0 <= k < init.len() && init[k] == t.last();
                assert(t[k] == t[t.len() - 1]);
            }
        }
        assert(init.push(t.last()) =~= t);
    }
}

/// Filtering a second time with the same port changes nothing.
pub proof fn lemma_filter_usages_idempotent(s: Seq<PortUsage>, filter_port: Option<u16>)
    ensures
        filter_usages(filter_usages(s, filter_port), filter_port) == filter_usages(s, filter_port),
{
    lemma_filter_usages_shape(s, filter_port);
    lemma_filter_usages_keeps(filter_usages(s, filter_port), filter_port);
}

/// Whether two entries are equal.
pub fn same_usage(a: &PortUsageEntry, b: &PortUsageEntry) -> (r: bool)
    ensures
        r == (a@ == b@),
{
    let procs = match (&a.process, &b.process) {
        (Some(x), Some(y)) => *x == *y,
        (None, None) => true,
        _ => false,
    };
    let pids = match (a.pid, b.pid) {
        (Some(x), Some(y)) => x == y,
        (None, None) => true,
        _ => false,
    };
    a.protocol == b.protocol && a.state == b.state && a.local_address == b.local_address && a.port
        == b.port && pids && procs
}

/// Keeps the entries on `filter_port` (all of them when there is no filter),
/// dropping later repetitions of an entry.
pub fn filter_entries(entries: Vec<PortUsageEntry>, filter_port: Option<u16>) -> (r: Vec<
    PortUsageEntry,
>)
    ensures
        usages(r@) == filter_usages(usages(entries@), filter_port),
{
    let ghost s = usages(entries@);
    let mut out: Vec<PortUsageEntry> = Vec::new();
    let n = entries.len();
    for i in 0..n
        invariant
            n == entries@.len(),
            s == usages(entries@),
            usages(out@) == filter_usages(s.take(i as int), filter_port),
    {
        let e = &entries[i];
        assert(s.take(i + 1).drop_last() =~= s.take(i as int));
        assert(s.take(i + 1).last() == e@);
        let wanted = match filter_port {
            Some(p) => e.port == p,
            None => true,
        };
        if wanted {
            let m = out.len();
            let mut found = false;
            let mut k: usize = 0;
            while k < m
                invariant
                    m == out@.len(),
                    k <= m,
                    found <==> exists|j: int| 0 <= j < k && usages(out@)[j] == e@,
                decreases m - k,
            {
                let same = same_usage(&out[k], e);
                assert(usages(out@)[k as int] == out@[k as int]@);
                if same {
                    found = true;
                }
                k = k + 1;
            }
            assert(found <==> usages(out@).contains(e@));
            if !found {
                let ghost before = usages(out@);
                out.push(copy_usage(e));
                assert(usages(out@) =~= before.push(e@));
            }
        }
    }
    assert(s.take(n as int) =~= s);
    out
}

// ---------------------------------------------------------------------------
// Output
// ---------------------------------------------------------------------------

/// What `port usage` reports.
pub struct PortUsageOutput {
    pub backend: String,
    pub filter_port: Option<u16>,
    pub listening_only: bool,
    pub entry_count: usize,
    pub entries: Vec<PortUsageEntry>,
}

pub open spec fn opt_text(o: Option<Seq<char>>, absent: Seq<char>) -> Seq<char> {
    match o {
        Some(t) => t,
        None => absent,
    }
}

pub open spec fn opt_decimal(o: Option<u32>, absent: Seq<char>) -> Seq<char> {
    match o {
        Some(v) => decimal(v as nat),
        None => absent,
    }
}

/// One tab separated line of the plain output; a missing pid or process is
/// left empty.
pub open spec fn usage_tsv_row(u: PortUsage, backend: Seq<char>) -> Seq<char> {
    join(
        seq![
            u.protocol,
            u.state,
            u.local_address,
            decimal(u.port as nat),
            opt_decimal(u.pid, seq![]),
            opt_text(u.process, seq![]),
            backend,
        ],
        "\t"@,
    )
}

/// The plain output: a header line, then one tab separated line per entry.
pub open spec fn usage_tsv(backend: Seq<char>, entries: Seq<PortUsage>) -> Seq<char> {
    join(
        seq!["protocol\tstate\tlocal_address\tport\tpid\tprocess\tbackend"@] + entries.map_values(
            |u: PortUsage| usage_tsv_row(u, backend),
        ),
        "\n"@,
    )
}

/// The cells of one entry in the table; a missing pid or process shows `-`.
pub open spec fn usage_cells(u: PortUsage) -> Seq<Seq<char>> {
    seq![
        u.protocol,
        u.state,
        u.local_address,
        decimal(u.port as nat),
        opt_decimal(u.pid, "-"@),
        opt_text(u.process, "-"@),
    ]
}

pub open spec fn usage_headers() -> Seq<Seq<char>> {
    seq!["协议"@, "状态"@, "本地地址"@, "端口"@, "PID"@, "进程"@]
}

pub open spec fn usage_defaults() -> Seq<usize> {
    seq![2, 2, 4, 2, 2, 2]
}

/// The entries as a table (columns protocol, state, local address, port,
/// pid, process), or a note when there is none.
pub open spec fn usage_entries_table(entries: Seq<PortUsage>) -> Seq<char> {
    render_table(
        usage_headers(),
        usage_defaults(),
        entries.map_values(|u: PortUsage| usage_cells(u)),
        "无匹配记录"@,
    )
}

/// The human readable output: tool, port filter, scope and number of
/// entries, then the entries table.
pub open spec fn usage_human(
    backend: Seq<char>,
    filter_port: Option<u16>,
    listening_only: bool,
    entry_count: usize,
    entries: Seq<PortUsage>,
) -> Seq<char> {
    join(
        seq![
            "查询工具: "@ + backend,
            "筛选端口: "@ + match filter_port {
                Some(p) => decimal(p as nat),
                None => "全部"@,
            },
            "连接范围: "@ + if listening_only {
                "仅监听"@
            } else {
                "全部连接"@
            },
            "匹配记录: "@ + decimal(entry_count as nat),
            usage_entries_table(entries),
        ],
        "\n"@,
    )
}

fn opt_decimal_chars(o: Option<u32>, absent: &str) -> (r: Vec<char>)
    ensures
        r@ == opt_decimal(o, absent@),
{
    match o {
        Some(v) => decimal_chars(v as u64),
        None => chars_of(absent),
    }
}

fn opt_text_chars(o: &Option<String>, absent: &str) -> (r: Vec<char>)
    ensures
        r@ == opt_text(
            match o {
                Some(p) => Some(p@),
                None => None,
            },
            absent@,
        ),
{
    match o {
        Some(p) => chars_of(p.as_str()),
        None => chars_of(absent),
    }
}

fn push_cell(v: &mut Vec<Vec<char>>, c: Vec<char>)
    ensures
        views(final(v)@) == views(old(v)@).push(c@),
{
    let ghost before = views(v@);
    let ghost cv = c@;
    v.push(c);
    assert(views(v@) =~= before.push(cv));
}

fn usage_cells_of(e: &PortUsageEntry) -> (r: Vec<Vec<char>>)
    ensures
        views(r@) == usage_cells(e@),
        r@.len() == 6,
{
    let mut v: Vec<Vec<char>> = Vec::new();
    push_cell(&mut v, chars_of(e.protocol.as_str()));
    push_cell(&mut v, chars_of(e.state.as_str()));
    push_cell(&mut v, chars_of(e.local_address.as_str()));
    push_cell(&mut v, decimal_chars(e.port as u64));
    push_cell(&mut v, opt_decimal_chars(e.pid, "-"));
    push_cell(&mut v, opt_text_chars(&e.process, "-"));
    assert(views(v@) =~= usage_cells(e@));
    v
}

/// The entries as a table (see [`usage_entries_table`]).
pub fn render_entries_table(entries: &[PortUsageEntry]) -> (r: String)
    ensures
        r@ == usage_entries_table(usages(entries@)),
{
    let mut headers: Vec<Vec<char>> = Vec::new();
    push_cell(&mut headers, chars_of("协议"));
    push_cell(&mut headers, chars_of("状态"));
    push_cell(&mut headers, chars_of("本地地址"));
    push_cell(&mut headers, chars_of("端口"));
    push_cell(&mut headers, chars_of("PID"));
    push_cell(&mut headers, chars_of("进程"));
    assert(views(headers@) =~= usage_headers());
    let mut defaults: Vec<usize> = Vec::new();
    defaults.push(2);
    defaults.push(2);
    defaults.push(4);
    defaults.push(2);
    defaults.push(2);
    defaults.push(2);
    assert(defaults@ =~= usage_defaults());
    let ghost s = usages(entries@);
    let mut rows: Vec<Vec<Vec<char>>> = Vec::new();
    let n = entries.len();
    for i in 0..n
        invariant
            n == entries@.len(),
            s == usages(entries@),
            forall|k: int| 0 <= k < rows@.len() ==> (#[trigger] rows@[k])@.len() == 6,
            rows_view(rows@) =~= s.take(i as int).map_values(|u: PortUsage| usage_cells(u)),
    {
        let cells = usage_cells_of(&entries[i]);
        let ghost before = rows_view(rows@);
        let ghost cv = views(cells@);
        rows.push(cells);
        assert(rows_view(rows@) =~= before.push(cv));
        assert(s.take(i + 1) =~= s.take(i as int).push(s[i as int]));
    }
    assert(s.take(n as int) =~= s);
    let note = chars_of("无匹配记录");
    string_of(&render_table_chars(&headers, &defaults, &rows, &note))
}

/// The plain output (see [`usage_tsv`]).
pub fn render_plain_tsv(data: &PortUsageOutput) -> (r: String)
    ensures
        r@ == usage_tsv(data.backend@, usages(data.entries@)),
{
    let ghost s = usages(data.entries@);
    let ghost backend = data.backend@;
    let mut lines: Vec<Vec<char>> = Vec::new();
    push_cell(&mut lines, chars_of("protocol\tstate\tlocal_address\tport\tpid\tprocess\tbackend"));
    let ghost head = views(lines@);
    assert(head =~= seq!["protocol\tstate\tlocal_address\tport\tpid\tprocess\tbackend"@]);
    let tab = chars_of("\t");
    let n = data.entries.len();
    for i in 0..n
        invariant
            n == data.entries@.len(),
            s == usages(data.entries@),
            backend == data.backend@,
            tab@ == "\t"@,
            views(lines@) =~= head + s.take(i as int).map_values(
                |u: PortUsage| usage_tsv_row(u, backend),
            ),
    {
        let e = &data.entries[i];
        let mut cells: Vec<Vec<char>> = Vec::new();
        push_cell(&mut cells, chars_of(e.protocol.as_str()));
        push_cell(&mut cells, chars_of(e.state.as_str()));
        push_cell(&mut cells, chars_of(e.local_address.as_str()));
        push_cell(&mut cells, decimal_chars(e.port as u64));
        push_cell(&mut cells, opt_decimal_chars(e.pid, ""));
        push_cell(&mut cells, opt_text_chars(&e.process, ""));
        push_cell(&mut cells, chars_of(data.backend.as_str()));
        assert(""@ =~= Seq::<char>::empty()) by {
            reveal_strlit("");
        }
        let row = join_chars(&cells, &tab);
        assert(views(cells@) =~= seq![
            e@.protocol,
            e@.state,
            e@.local_address,
            decimal(e@.port as nat),
            opt_decimal(e@.pid, seq![]),
            opt_text(e@.process, seq![]),
            backend,
        ]);
        push_cell(&mut lines, row);
        assert(s.take(i + 1) =~= s.take(i as int).push(e@));
    }
    assert(s.take(n as int) =~= s);
    let nl = chars_of("\n");
    string_of(&join_chars(&lines, &nl))
}

/// The human readable output (see [`usage_human`]).
pub fn render_human_table(data: &PortUsageOutput) -> (r: String)
    ensures
        r@ == usage_human(
            data.backend@,
            data.filter_port,
            data.listening_only,
            data.entry_count,
            usages(data.entries@),
        ),
{
    let mut l1 = chars_of("查询工具: ");
    append_str(&mut l1, data.backend.as_str());
    let mut l2 = chars_of("筛选端口: ");
    match data.filter_port {
        Some(p) => append(&mut l2, &decimal_chars(p as u64)),
        None => append_str(&mut l2, "全部"),
    }
    let mut l3 = chars_of("连接范围: ");
    if data.listening_only {
        append_str(&mut l3, "仅监听");
    } else {
        append_str(&mut l3, "全部连接");
    }
    let mut l4 = chars_of("匹配记录: ");
    append(&mut l4, &decimal_chars(data.entry_count as u64));
    let table = render_entries_table(data.entries.as_slice());
    let mut lines: Vec<Vec<char>> = Vec::new();
    push_cell(&mut lines, l1);
    push_cell(&mut lines, l2);
    push_cell(&mut lines, l3);
    push_cell(&mut lines, l4);
    push_cell(&mut lines, chars_of(table.as_str()));
    assert(views(lines@) =~= seq![
        "查询工具: "@ + data.backend@,
        "筛选端口: "@ + match data.filter_port {
            Some(p) => decimal(p as nat),
            None => "全部"@,
        },
        "连接范围: "@ + if data.listening_only {
            "仅监听"@
        } else {
            "全部连接"@
        },
        "匹配记录: "@ + decimal(data.entry_count as nat),
        usage_entries_table(usages(data.entries@)),
    ]);
    let nl = chars_of("\n");
    string_of(&join_chars(&lines, &nl))
}

// ---------------------------------------------------------------------------
// Queries
// ---------------------------------------------------------------------------

/// Parses a `--port` value: a number from 1 to 65535.
pub fn parse_port(value: &str) -> (r: Result<u16, CliError>)
    ensures
        match parse_u16(value@) {
            None => r matches Err(e) && e.message@ == "端口必须为数字"@,
            Some(0) => r matches Err(e) && e.message@ == "端口范围必须为 1-65535"@,
            Some(p) => r == Ok::<u16, CliError>(p),
        },
{
    match parse_u16_chars(&chars_of(value)) {
        None => Err(CliError::new("端口必须为数字")),
        Some(0) => Err(CliError::new("端口范围必须为 1-65535")),
        Some(p) => Ok(p),
    }
}

/// The arguments of `ss`: no header, numeric, with processes, listening
/// sockets only or all of them, TCP and UDP.
pub fn ss_args(listening_only: bool) -> (r: Vec<&'static str>)
    ensures
        r@.map_values(|a: &str| a@) == seq![
            "-H"@,
            "-n"@,
            "-p"@,
            if listening_only {
                "-l"@
            } else {
                "-a"@
            },
            "-t"@,
            "-u"@,
        ],
{
    let mut args: Vec<&'static str> = Vec::new();
    args.push("-H");
    args.push("-n");
    args.push("-p");
    if listening_only {
        args.push("-l");
    } else {
        args.push("-a");
    }
    args.push("-t");
    args.push("-u");
    assert(args@.map_values(|a: &str| a@) =~= seq![
        "-H"@,
        "-n"@,
        "-p"@,
        if listening_only {
            "-l"@
        } else {
            "-a"@
        },
        "-t"@,
        "-u"@,
    ]);
    args
}

/// The arguments of `lsof`: numeric, the filtered port or all TCP and UDP
/// sockets, and listening TCP sockets only when asked.
pub open spec fn lsof_args_spec(filter_port: Option<u16>, listening_only: bool) -> Seq<Seq<char>> {
    seq!["-nP"@] + match filter_port {
        Some(p) => seq!["-i"@, ":"@ + decimal(p as nat)],
        None => seq!["-iTCP"@, "-iUDP"@],
    } + if listening_only {
        seq!["-sTCP:LISTEN"@]
    } else {
        seq![]
    }
}

pub open spec fn strings_view(v: Seq<String>) -> Seq<Seq<char>> {
    v.map_values(|s: String| s@)
}

fn push_string(v: &mut Vec<String>, s: String)
    ensures
        strings_view(final(v)@) == strings_view(old(v)@).push(s@),
{
    let ghost before = strings_view(v@);
    let ghost sv = s@;
    v.push(s);
    assert(strings_view(v@) =~= before.push(sv));
}

/// The arguments of `lsof` (see [`lsof_args_spec`]).
pub fn lsof_args(filter_port: Option<u16>, listening_only: bool) -> (r: Vec<String>)
    ensures
        strings_view(r@) == lsof_args_spec(filter_port, listening_only),
{
    let mut args: Vec<String> = Vec::new();
    push_string(&mut args, "-nP".to_owned());
    match filter_port {
        Some(p) => {
            push_string(&mut args, "-i".to_owned());
            let mut v = chars_of(":");
            append(&mut v, &decimal_chars(p as u64));
            push_string(&mut args, string_of(&v));
        },
        None => {
            push_string(&mut args, "-iTCP".to_owned());
            push_string(&mut args, "-iUDP".to_owned());
        },
    }
    if listening_only {
        push_string(&mut args, "-sTCP:LISTEN".to_owned());
    }
    assert(strings_view(args@) =~= lsof_args_spec(filter_port, listening_only));
    args
}

/// What a run of `ss` gives: the filtered sockets when it succeeded;
/// otherwise nothing, and a warning carrying its trimmed error output when
/// there is any.
pub fn ss_outcome(
    success: bool,
    stdout: &str,
    stderr: &str,
    filter_port: Option<u16>,
    warnings: &mut Vec<String>,
) -> (r: Option<Vec<PortUsageEntry>>)
    ensures
        success ==> (r matches Some(v) && usages(v@) == filter_usages(
            ss_usages(stdout@),
            filter_port,
        ) && final(warnings)@ == old(warnings)@),
        !success ==> r is None,
        !success && trim(stderr@).len() > 0 ==> strings_view(final(warnings)@) == strings_view(
            old(warnings)@,
        ).push("ss 查询失败，回退到 lsof: "@ + trim(stderr@)),
        !success && trim(stderr@).len() == 0 ==> final(warnings)@ == old(warnings)@,
{
    if !success {
        let detail = trim_chars(&chars_of(stderr));
        if detail.len() > 0 {
            let mut msg = chars_of("ss 查询失败，回退到 lsof: ");
            append(&mut msg, &detail);
            push_string(warnings, string_of(&msg));
        }
        return None;
    }
    Some(filter_entries(parse_ss_output(stdout), filter_port))
}

/// What a run of `lsof` gives: a failure with empty output is an error,
/// unless it only says a file was missing; otherwise the filtered sockets
/// (lsof exits non-zero when nothing matched).
pub fn lsof_outcome(success: bool, stdout: &str, stderr: &str, filter_port: Option<u16>) -> (r:
    Result<Vec<PortUsageEntry>, CliError>)
    ensures
        (!success && trim(stdout@).len() == 0 && !contains(stderr@, "No such file"@)) ==> (r matches Err(
            e,
        ) && e.message@ == "执行 lsof 查询失败: "@ + trim(stderr@)),
        !(!success && trim(stdout@).len() == 0 && !contains(stderr@, "No such file"@)) ==> (r matches Ok(
            v,
        ) && usages(v@) == filter_usages(lsof_usages(stdout@), filter_port)),
{
    let out_v = chars_of(stdout);
    let err_v = chars_of(stderr);
    if !success && trim_chars(&out_v).len() == 0 && !contains_str(&err_v, "No such file") {
        let mut msg = chars_of("执行 lsof 查询失败: ");
        append(&mut msg, &trim_chars(&err_v));
        return Err(CliError::from_message(string_of(&msg)));
    }
    Ok(filter_entries(parse_lsof_output(stdout), filter_port))
}

/// The tools in the order they are tried, and the error when neither is
/// available.
pub fn no_port_tool_error() -> (r: CliError)
    ensures
        r.message@ == "未找到可用的端口查询工具，请安装 ss 或 lsof 后重试"@,
{
    CliError::new("未找到可用的端口查询工具，请安装 ss 或 lsof 后重试")
}

} // verus!
