//! Open ports of the host firewall: parsing the rule listings of `ufw`,
//! `nftables` and `iptables`, filtering them by port, and rendering them.
use vstd::prelude::*;

use crate::num::{decimal, decimal_chars, lemma_decimal_digits, parse_u16, parse_u16_chars};
use crate::utils::{texts, CliError};
use crate::table::{column_width, column_width_of, format_row, table_row};
use crate::order::{
    compare_chars, lemma_seq_lt_irreflexive, lemma_seq_lt_total, lemma_seq_lt_transitive, seq_lt,
};
use crate::split::{
    contains, contains_str, find_char, find_char_in, join, join_chars, lemma_rfind_char_before_plain,
    lemma_split_on_join, lines, lines_of, rsplit_once,
    rsplit_once_char, split_chars, split_on, split_once, split_once_char, split_once_str,
    split_once_sub, words, words_of,
};
use crate::text::{
    append, append_str, chars_eq, chars_of, is_ws, trim_end, trim_start, trim_start_chars, ends_with, is_ascii_digit, is_digit, lower_ascii, slice_chars,
    starts_with, starts_with_str, string_of, strip_leading, strip_leading_chars, strip_trailing,
    strip_trailing_chars, to_lower_ascii, trim, trim_chars, views,
};

verus! {

/// One open-port rule of the firewall.
#[derive(Debug, Clone, PartialEq, Eq)]
pub struct FirewallPortEntry {
    pub port: String,
    pub protocol: String,
    pub family: String,
    pub action: String,
}

/// The contents of a [`FirewallPortEntry`].
pub struct FirewallRule {
    pub port: Seq<char>,
    pub protocol: Seq<char>,
    pub family: Seq<char>,
    pub action: Seq<char>,
}

impl View for FirewallPortEntry {
    type V = FirewallRule;

    open spec fn view(&self) -> FirewallRule {
        FirewallRule {
            port: self.port@,
            protocol: self.protocol@,
            family: self.family@,
            action: self.action@,
        }
    }
}

pub open spec fn rules(v: Seq<FirewallPortEntry>) -> Seq<FirewallRule> {
    v.map_values(|e: FirewallPortEntry| e@)
}

pub open spec fn rule(
    port: Seq<char>,
    protocol: Seq<char>,
    family: Seq<char>,
    action: Seq<char>,
) -> FirewallRule {
    FirewallRule { port, protocol, family, action }
}

/// One rule per port spec, all with the same protocol, family and action.
pub open spec fn rules_for(
    ports: Seq<Seq<char>>,
    protocol: Seq<char>,
    family: Seq<char>,
    action: Seq<char>,
) -> Seq<FirewallRule> {
    ports.map_values(|p: Seq<char>| rule(p, protocol, family, action))
}

// ---------------------------------------------------------------------------
// Port specs
// ---------------------------------------------------------------------------

pub open spec fn replace_char(s: Seq<char>, from: char, to: char) -> Seq<char> {
    s.map_values(|c: char| if c == from { to } else { c })
}

pub open spec fn is_port_spec_char(c: char) -> bool {
    is_digit(c) || c == '-'
}

/// A port or a port range as written in a rule, with `:` ranges written
/// with `-`; `None` when it is empty or holds anything but digits and `-`.
pub open spec fn normalize_port_spec(value: Seq<char>) -> Option<Seq<char>> {
    let n = replace_char(strip_trailing(strip_leading(trim(value), ','), ','), ':', '-');
    if n.len() == 0 {
        None
    } else if forall|i: int| 0 <= i < n.len() ==> is_port_spec_char(#[trigger] n[i]) {
        Some(n)
    } else {
        None
    }
}

/// The comma separated port specs of `value` that normalize.
pub open spec fn split_port_specs(value: Seq<char>) -> Seq<Seq<char>> {
    split_on(value, ',').filter_map(|p: Seq<char>| normalize_port_spec(p))
}

/// Whether the port spec `spec` (a port or a range `start-end`) covers `port`.
pub open spec fn port_spec_matches(spec: Seq<char>, port: u16) -> bool {
    match split_once(spec, '-') {
        Some((a, b)) => match (parse_u16(a), parse_u16(b)) {
            (Some(start), Some(end)) => start <= port && port <= end,
            _ => false,
        },
        None => parse_u16(spec) == Some(port),
    }
}

pub fn normalize_port_spec_chars(value: &Vec<char>) -> (r: Option<Vec<char>>)
    ensures
        match r {
            Some(v) => normalize_port_spec(value@) == Some(v@),
            None => normalize_port_spec(value@) is None,
        },
{
    let t = trim_chars(value);
    let a = strip_leading_chars(&t, ',');
    let b = strip_trailing_chars(&a, ',');
    let mut n: Vec<char> = Vec::new();
    let len = b.len();
    for i in 0..len
        invariant
            len == b@.len(),
            n@ =~= replace_char(b@.take(i as int), ':', '-'),
    {
        let c = b[i];
        if c == ':' {
            n.push('-');
        } else {
            n.push(c);
        }
        assert(b@.take(i + 1) =~= b@.take(i as int).push(c));
    }
    assert(b@.take(len as int) =~= b@);
    if len == 0 {
        return None;
    }
    for i in 0..len
        invariant
            len == n@.len(),
            n@ == replace_char(strip_trailing(strip_leading(trim(value@), ','), ','), ':', '-'),
            forall|k: int| 0 <= k < i ==> is_port_spec_char(#[trigger] n@[k]),
    {
        let c = n[i];
        if !(is_ascii_digit(c) || c == '-') {
            assert(!is_port_spec_char(n@[i as int]));
            return None;
        }
    }
    Some(n)
}

/// `split(',')` followed by [`normalize_port_spec`] on each piece.
pub fn split_port_specs_chars(value: &Vec<char>) -> (r: Vec<Vec<char>>)
    ensures
        views(r@) == split_port_specs(value@),
{
    let pieces = split_chars(value, ',');
    let ghost p = views(pieces@);
    let mut out: Vec<Vec<char>> = Vec::new();
    let n = pieces.len();
    for i in 0..n
        invariant
            n == pieces@.len(),
            p == views(pieces@),
            p == split_on(value@, ','),
            views(out@) == p.take(i as int).filter_map(|q: Seq<char>| normalize_port_spec(q)),
    {
        proof {
            p.lemma_filter_map_take_succ(|q: Seq<char>| normalize_port_spec(q), i as int);
        }
        let ghost od = views(out@);
        match normalize_port_spec_chars(&pieces[i]) {
            Some(v) => {
                let ghost vv = v@;
                out.push(v);
                assert(views(out@) =~= od + seq![vv]);
            },
            None => {
                assert(od + Seq::<Seq<char>>::empty() =~= od);
            },
        }
    }
    assert(p.take(n as int) =~= p);
    out
}

/// Whether the port spec `spec` (a port or a range `start-end`) covers `port`.
pub fn port_spec_matches_chars(spec: &Vec<char>, port: u16) -> (r: bool)
    ensures
        r == port_spec_matches(spec@, port),
{
    match split_once_char(spec, '-') {
        Some((a, b)) => {
            match (parse_u16_chars(&a), parse_u16_chars(&b)) {
                (Some(start), Some(end)) => start <= port && port <= end,
                _ => false,
            }
        },
        None => match parse_u16_chars(spec) {
            Some(v) => v == port,
            None => false,
        },
    }
}

/// Entries for the given ports, all with the same protocol, family and action.
pub fn entries_for(
    ports: &Vec<Vec<char>>,
    protocol: &Vec<char>,
    family: &Vec<char>,
    action: &Vec<char>,
) -> (r: Vec<FirewallPortEntry>)
    ensures
        rules(r@) == rules_for(views(ports@), protocol@, family@, action@),
{
    let mut out: Vec<FirewallPortEntry> = Vec::new();
    let n = ports.len();
    for i in 0..n
        invariant
            n == ports@.len(),
            rules(out@) =~= rules_for(views(ports@.take(i as int)), protocol@, family@, action@),
    {
        let e = FirewallPortEntry {
            port: string_of(&ports[i]),
            protocol: string_of(protocol),
            family: string_of(family),
            action: string_of(action),
        };
        let ghost before = out@;
        assert(e@ == rule(ports@[i as int]@, protocol@, family@, action@));
        out.push(e);
        assert(ports@.take(i + 1) =~= ports@.take(i as int).push(ports@[i as int]));
        assert(views(ports@.take(i + 1)) =~= views(ports@.take(i as int)).push(ports@[i as int]@));
        assert(rules(out@) =~= rules(before).push(e@));
    }
    assert(ports@.take(n as int) =~= ports@);
    out
}

// ---------------------------------------------------------------------------
// ufw
// ---------------------------------------------------------------------------

/// The rules of one line of `ufw status`.
pub open spec fn ufw_line_rules(line: Seq<char>) -> Seq<FirewallRule> {
    let t = trim(line);
    if t.len() == 0 || starts_with(t, "Status:"@) || starts_with(t, "To "@) || starts_with(
        t,
        "--"@,
    ) {
        seq![]
    } else {
        let parts = words(t);
        if parts.len() < 2 {
            seq![]
        } else {
            let v6 = parts[1] == "(v6)"@;
            let ai: int = if v6 {
                2
            } else {
                1
            };
            let family = if v6 {
                "ipv6"@
            } else {
                "ipv4"@
            };
            if ai >= parts.len() {
                seq![]
            } else {
                let action = parts[ai];
                if action != "ALLOW"@ && action != "LIMIT"@ {
                    seq![]
                } else {
                    let target = if ends_with(parts[0], "(v6)"@) {
                        trim(parts[0].take(parts[0].len() - "(v6)"@.len()))
                    } else {
                        parts[0]
                    };
                    match rsplit_once(target, '/') {
                        None => seq![],
                        Some((spec, proto)) => rules_for(
                            split_port_specs(spec),
                            lower_ascii(proto),
                            family,
                            action,
                        ),
                    }
                }
            }
        }
    }
}

/// Whether a trimmed line of `ufw status` is blank or one of its headers.
pub open spec fn ufw_header(t: Seq<char>) -> bool {
    t.len() == 0 || starts_with(t, "Status:"@) || starts_with(t, "To "@) || starts_with(t, "--"@)
}

/// The rules with their action set to `action`.
pub open spec fn with_action(rs: Seq<FirewallRule>, action: Seq<char>) -> Seq<FirewallRule> {
    rs.map_values(|r: FirewallRule| rule(r.port, r.protocol, r.family, action))
}

/// A `LIMIT` rule of ufw opens its ports just as an `ALLOW` rule does: two
/// lines that read the same but for the action word at position `k` (after
/// the target, and after `(v6)` for IPv6 rules), one `ALLOW` and one
/// `LIMIT`, list the same ports, protocols and families, each with its own
/// action.
pub proof fn lemma_ufw_limit_lists_like_allow(allow_line: Seq<char>, limit_line: Seq<char>, k: int)
    requires
        !ufw_header(trim(allow_line)),
        !ufw_header(trim(limit_line)),
        k == 1 || k == 2,
        words(trim(allow_line)).len() > k,
        words(trim(allow_line))[k] == "ALLOW"@,
        (k == 2) == (words(trim(allow_line))[1] == "(v6)"@),
        words(trim(limit_line)) == words(trim(allow_line)).update(k, "LIMIT"@),
    ensures
        ufw_line_rules(limit_line) == with_action(ufw_line_rules(allow_line), "LIMIT"@),
{
    reveal_strlit("ALLOW");
    reveal_strlit("LIMIT");
    reveal_strlit("(v6)");
    assert("ALLOW"@[0] != "(v6)"@[0]);
    assert("LIMIT"@[0] != "(v6)"@[0]);
    assert("LIMIT"@[0] != "ALLOW"@[0]);
    let wa = words(trim(allow_line));
    let wl = words(trim(limit_line));
    assert(wl[0] == wa[0]);
    assert(wl[1] == "(v6)"@ <==> wa[1] == "(v6)"@);
    let target = if ends_with(wa[0], "(v6)"@) {
        trim(wa[0].take(wa[0].len() - "(v6)"@.len()))
    } else {
        wa[0]
    };
    match rsplit_once(target, '/') {
        None => {},
        Some((spec, proto)) => {
            let fam = if wa[1] == "(v6)"@ {
                "ipv6"@
            } else {
                "ipv4"@
            };
            let specs = split_port_specs(spec);
            assert(rules_for(specs, lower_ascii(proto), fam, "LIMIT"@) =~= with_action(
                rules_for(specs, lower_ascii(proto), fam, "ALLOW"@),
                "LIMIT"@,
            ));
        },
    }
    assert(with_action(Seq::<FirewallRule>::empty(), "LIMIT"@) =~= Seq::<FirewallRule>::empty());
}

/// A ufw rule for one numbered port, `<port>/<proto> ALLOW ...` or
/// `<port>/<proto> LIMIT ...`, lists exactly that port as open: one IPv4
/// rule with the protocol in lowercase and the rule's action.
pub proof fn lemma_ufw_port_rule_is_listed(line: Seq<char>, port: u16, proto: Seq<char>)
    requires
        !ufw_header(trim(line)),
        words(trim(line)).len() >= 2,
        words(trim(line))[0] == decimal(port as nat) + "/"@ + proto,
        words(trim(line))[1] == "ALLOW"@ || words(trim(line))[1] == "LIMIT"@,
        forall|k: int| 0 <= k < proto.len() ==> proto[k] != '/',
        !ends_with(words(trim(line))[0], "(v6)"@),
    ensures
        ufw_line_rules(line) == seq![
            rule(decimal(port as nat), lower_ascii(proto), "ipv4"@, words(trim(line))[1]),
        ],
{
    reveal_strlit("ALLOW");
    reveal_strlit("LIMIT");
    reveal_strlit("(v6)");
    reveal_strlit("/");
    assert("ALLOW"@[0] != "(v6)"@[0]);
    assert("LIMIT"@[0] != "(v6)"@[0]);
    let w = words(trim(line));
    let d = decimal(port as nat);
    lemma_decimal_digits(port as nat);
    assert(w[0] =~= d + seq!['/'] + proto);
    lemma_rfind_char_before_plain(d, '/', proto);
    assert(w[0].take(d.len() as int) =~= d);
    assert(w[0].skip(d.len() + 1int) =~= proto);
    assert(rsplit_once(w[0], '/') == Some((d, proto)));
    // The port spec is the number itself.
    assert forall|i: int, k: int| 0 <= i < seq![d].len() && 0 <= k < seq![d][i].len() implies #[trigger] seq![d][i][k] != ',' by {
        assert(is_digit(d[k]));
    }
    lemma_split_on_join(seq![d], ',');
    assert(join(seq![d], seq![',']) == d);
    assert(split_on(d, ',') == seq![d]);
    assert(!is_ws(d[0]));
    assert(!is_ws(d.last()));
    assert(trim_start(d) == d);
    assert(trim_end(d) == d);
    assert(trim(d) == d);
    assert(strip_leading(d, ',') == d);
    assert(strip_trailing(d, ',') == d);
    assert(replace_char(d, ':', '-') =~= d);
    assert forall|i: int| 0 <= i < d.len() implies is_port_spec_char(#[trigger] d[i]) by {
        assert(is_digit(d[i]));
    }
    assert(normalize_port_spec(d) == Some(d));
    assert(seq![d].drop_last() =~= Seq::<Seq<char>>::empty());
    assert(split_port_specs(d) =~= seq![d]) by {
        reveal_with_fuel(Seq::filter_map, 2);
    }
    assert(rules_for(seq![d], lower_ascii(proto), "ipv4"@, w[1]) =~= seq![
        rule(d, lower_ascii(proto), "ipv4"@, w[1]),
    ]);
}

/// The rules listed by `ufw status`, line by line.
pub open spec fn ufw_status_rules(output: Seq<char>) -> Seq<FirewallRule> {
    lines(output).flat_map(|l: Seq<char>| ufw_line_rules(l))
}

/// The entries of one line of `ufw status`.
pub fn ufw_line_entries(line: &Vec<char>) -> (r: Vec<FirewallPortEntry>)
    ensures
        rules(r@) == ufw_line_rules(line@),
{
    let t = trim_chars(line);
    if t.len() == 0 || starts_with_str(&t, "Status:") || starts_with_str(&t, "To ")
        || starts_with_str(&t, "--") {
        return Vec::new();
    }
    let parts = words_of(&t);
    if parts.len() < 2 {
        return Vec::new();
    }
    let v6_marker = chars_of("(v6)");
    let v6 = chars_eq(&parts[1], &v6_marker);
    let ai: usize = if v6 {
        2
    } else {
        1
    };
    let family = if v6 {
        chars_of("ipv6")
    } else {
        chars_of("ipv4")
    };
    if ai >= parts.len() {
        return Vec::new();
    }
    let action = &parts[ai];
    if !chars_eq(action, &chars_of("ALLOW")) && !chars_eq(action, &chars_of("LIMIT")) {
        return Vec::new();
    }
    let target0 = &parts[0];
    let target = if ends_with_chars_v6(target0, &v6_marker) {
        trim_chars(&slice_chars(target0, 0, target0.len() - v6_marker.len()))
    } else {
        target0.clone()
    };
    match rsplit_once_char(&target, '/') {
        None => Vec::new(),
        Some((spec, proto)) => {
            let ports = split_port_specs_chars(&spec);
            let protocol = to_lower_ascii(&proto);
            entries_for(&ports, &protocol, &family, action)
        },
    }
}

fn ends_with_chars_v6(s: &Vec<char>, p: &Vec<char>) -> (r: bool)
    ensures
        r == ends_with(s@, p@),
        r ==> p@.len() <= s@.len(),
{
    crate::text::ends_with_chars(s, p)
}

/// Parses the output of `ufw status` into one entry per open port spec.
pub fn parse_ufw_status(output: &str) -> (r: Vec<FirewallPortEntry>)
    ensures
        rules(r@) == ufw_status_rules(output@),
{
    let text = chars_of(output);
    let ls = lines_of(&text);
    let ghost lv = views(ls@);
    let mut out: Vec<FirewallPortEntry> = Vec::new();
    let n = ls.len();
    for i in 0..n
        invariant
            n == ls@.len(),
            lv == views(ls@),
            lv == lines(output@),
            rules(out@) == lv.take(i as int).flat_map(|l: Seq<char>| ufw_line_rules(l)),
    {
        proof {
            lv.lemma_flat_map_take_append(|l: Seq<char>| ufw_line_rules(l), i as int);
        }
        let mut more = ufw_line_entries(&ls[i]);
        let ghost before = out@;
        let ghost m = more@;
        out.append(&mut more);
        assert(rules(out@) =~= rules(before) + rules(m));
    }
    assert(lv.take(n as int) =~= lv);
    out
}

// ---------------------------------------------------------------------------
// nftables
// ---------------------------------------------------------------------------

/// The port specs after `dport` in an nft rule: a set `{ a, b }` or one token.
pub open spec fn extract_nft_port_specs(line: Seq<char>) -> Option<Seq<Seq<char>>> {
    match split_once_sub(line, "dport"@) {
        None => None,
        Some((_, tail0)) => {
            let tail = trim_start(tail0);
            if tail.len() > 0 && tail[0] == '{' {
                let rest = tail.drop_first();
                match find_char(rest, '}') {
                    None => None,
                    Some(end) => {
                        let ports = split_port_specs(rest.take(end));
                        if ports.len() == 0 {
                            None
                        } else {
                            Some(ports)
                        }
                    },
                }
            } else {
                let ws = words(tail);
                if ws.len() == 0 {
                    None
                } else {
                    match normalize_port_spec(ws[0]) {
                        Some(p) => Some(seq![p]),
                        None => None,
                    }
                }
            }
        },
    }
}

/// The protocol of an accepting nft rule line, when it names tcp or udp.
pub open spec fn nft_protocol(t: Seq<char>) -> Option<Seq<char>> {
    if starts_with(t, "tcp "@) || contains(t, " tcp "@) {
        Some("tcp"@)
    } else if starts_with(t, "udp "@) || contains(t, " udp "@) {
        Some("udp"@)
    } else {
        None
    }
}

/// The rules of one (trimmed) line of `nft list ruleset` inside a table of
/// the given family.
pub open spec fn nft_line_rules(family: Seq<char>, t: Seq<char>) -> Seq<FirewallRule> {
    if !contains(t, "accept"@) || !contains(t, "dport"@) {
        seq![]
    } else {
        match nft_protocol(t) {
            None => seq![],
            Some(p) => match extract_nft_port_specs(t) {
                None => seq![],
                Some(specs) => rules_for(specs, p, family, "ACCEPT"@),
            },
        }
    }
}

/// The family in force and the rules found after the given lines: a
/// `table <family> ...` line sets the family of the rules that follow.
pub open spec fn nft_scan(ls: Seq<Seq<char>>) -> (Seq<char>, Seq<FirewallRule>)
    decreases ls.len(),
{
    if ls.len() == 0 {
        ("unknown"@, seq![])
    } else {
        let (family, found) = nft_scan(ls.drop_last());
        let t = trim(ls.last());
        if starts_with(t, "table "@) {
            let parts = words(t);
            (
                if parts.len() >= 2 {
                    parts[1]
                } else {
                    family
                },
                found,
            )
        } else {
            (family, found + nft_line_rules(family, t))
        }
    }
}

/// The rules listed by `nft list ruleset`.
pub open spec fn nft_ruleset_rules(output: Seq<char>) -> Seq<FirewallRule> {
    nft_scan(lines(output)).1
}

pub fn extract_nft_port_specs_chars(line: &Vec<char>) -> (r: Option<Vec<Vec<char>>>)
    ensures
        match r {
            Some(v) => extract_nft_port_specs(line@) == Some(views(v@)),
            None => extract_nft_port_specs(line@) is None,
        },
{
    let marker = chars_of("dport");
    let (_, tail0) = match split_once_str(line, &marker) {
        Some(x) => x,
        None => return None,
    };
    let tail = trim_start_chars(&tail0);
    if tail.len() > 0 && tail[0] == '{' {
        let rest = slice_chars(&tail, 1, tail.len());
        assert(rest@ =~= tail@.drop_first());
        let end = match find_char_in(&rest, '}') {
            Some(e) => e,
            None => return None,
        };
        proof {
            crate::split::lemma_find_char_bound(rest@, '}');
        }
        let inside = slice_chars(&rest, 0, end);
        assert(inside@ =~= rest@.take(end as int));
        let ports = split_port_specs_chars(&inside);
        if ports.len() == 0 {
            None
        } else {
            Some(ports)
        }
    } else {
        let ws = words_of(&tail);
        if ws.len() == 0 {
            return None;
        }
        match normalize_port_spec_chars(&ws[0]) {
            Some(p) => {
                let mut v: Vec<Vec<char>> = Vec::new();
                let ghost pv = p@;
                v.push(p);
                assert(views(v@) =~= seq![pv]);
                Some(v)
            },
            None => None,
        }
    }
}

/// The entries of one trimmed line of `nft list ruleset`.
pub fn nft_line_entries(family: &Vec<char>, t: &Vec<char>) -> (r: Vec<FirewallPortEntry>)
    ensures
        rules(r@) == nft_line_rules(family@, t@),
{
    if !contains_str(t, "accept") || !contains_str(t, "dport") {
        return Vec::new();
    }
    let protocol = if starts_with_str(t, "tcp ") || contains_str(t, " tcp ") {
        chars_of("tcp")
    } else if starts_with_str(t, "udp ") || contains_str(t, " udp ") {
        chars_of("udp")
    } else {
        return Vec::new();
    };
    match extract_nft_port_specs_chars(t) {
        None => Vec::new(),
        Some(specs) => entries_for(&specs, &protocol, family, &chars_of("ACCEPT")),
    }
}

/// Parses the output of `nft list ruleset` into one entry per accepted
/// destination port spec.
pub fn parse_nft_ruleset(output: &str) -> (r: Vec<FirewallPortEntry>)
    ensures
        rules(r@) == nft_ruleset_rules(output@),
{
    let text = chars_of(output);
    let ls = lines_of(&text);
    let ghost lv = views(ls@);
    let mut out: Vec<FirewallPortEntry> = Vec::new();
    let mut family = chars_of("unknown");
    let n = ls.len();
    assert(lv.take(0) =~= Seq::<Seq<char>>::empty());
    for i in 0..n
        invariant
            n == ls@.len(),
            lv == views(ls@),
            lv == lines(output@),
            nft_scan(lv.take(i as int)) == (family@, rules(out@)),
    {
        assert(lv.take(i + 1).drop_last() =~= lv.take(i as int));
        assert(lv.take(i + 1).last() == ls@[i as int]@);
        let t = trim_chars(&ls[i]);
        if starts_with_str(&t, "table ") {
            let parts = words_of(&t);
            if parts.len() >= 2 {
                family = parts[1].clone();
            }
        } else {
            let mut more = nft_line_entries(&family, &t);
            let ghost before = out@;
            let ghost m = more@;
            out.append(&mut more);
            assert(rules(out@) =~= rules(before) + rules(m));
        }
    }
    assert(lv.take(n as int) =~= lv);
    out
}

// ---------------------------------------------------------------------------
// iptables
// ---------------------------------------------------------------------------

/// The first whitespace separated token after `flag ` in `line`.
pub open spec fn extract_flag_value(line: Seq<char>, flag: Seq<char>) -> Option<Seq<char>> {
    match split_once_sub(line, flag + " "@) {
        None => None,
        Some((_, tail)) => {
            let ws = words(tail);
            if ws.len() == 0 {
                None
            } else {
                Some(ws[0])
            }
        },
    }
}

/// The rules of one line of `iptables -S INPUT`.
pub open spec fn iptables_line_rules(line: Seq<char>, family: Seq<char>) -> Seq<FirewallRule> {
    let t = trim(line);
    if !starts_with(t, "-A INPUT "@) || !contains(t, " -j ACCEPT"@) {
        seq![]
    } else {
        match extract_flag_value(t, "-p"@) {
            None => seq![],
            Some(proto) => if proto != "tcp"@ && proto != "udp"@ {
                seq![]
            } else {
                let specs = match extract_flag_value(t, "--dport"@) {
                    Some(v) => Some(seq![v]),
                    None => match extract_flag_value(t, "--dports"@) {
                        Some(v) => Some(split_on(v, ',')),
                        None => None,
                    },
                };
                match specs {
                    None => seq![],
                    Some(ss) => rules_for(
                        ss.filter_map(|q: Seq<char>| normalize_port_spec(q)),
                        proto,
                        family,
                        "ACCEPT"@,
                    ),
                }
            },
        }
    }
}

/// The rules listed by `iptables -S INPUT` (or `ip6tables`), for the given family.
pub open spec fn iptables_rules(output: Seq<char>, family: Seq<char>) -> Seq<FirewallRule> {
    lines(output).flat_map(|l: Seq<char>| iptables_line_rules(l, family))
}

/// The first whitespace separated token after `flag ` in `line`.
pub fn extract_flag_value_chars(line: &Vec<char>, flag: &str) -> (r: Option<Vec<char>>)
    ensures
        match r {
            Some(v) => extract_flag_value(line@, flag@) == Some(v@),
            None => extract_flag_value(line@, flag@) is None,
        },
{
    let mut marker = chars_of(flag);
    append_str(&mut marker, " ");
    match split_once_str(line, &marker) {
        None => None,
        Some((_, tail)) => {
            let ws = words_of(&tail);
            if ws.len() == 0 {
                None
            } else {
                Some(ws[0].clone())
            }
        },
    }
}

/// The normalized port specs among `specs`.
pub fn normalize_all(specs: &Vec<Vec<char>>) -> (r: Vec<Vec<char>>)
    ensures
        views(r@) == views(specs@).filter_map(|q: Seq<char>| normalize_port_spec(q)),
{
    let ghost p = views(specs@);
    let mut out: Vec<Vec<char>> = Vec::new();
    let n = specs.len();
    for i in 0..n
        invariant
            n == specs@.len(),
            p == views(specs@),
            views(out@) == p.take(i as int).filter_map(|q: Seq<char>| normalize_port_spec(q)),
    {
        proof {
            p.lemma_filter_map_take_succ(|q: Seq<char>| normalize_port_spec(q), i as int);
        }
        let ghost od = views(out@);
        match normalize_port_spec_chars(&specs[i]) {
            Some(v) => {
                let ghost vv = v@;
                out.push(v);
                assert(views(out@) =~= od + seq![vv]);
            },
            None => {
                assert(od + Seq::<Seq<char>>::empty() =~= od);
            },
        }
    }
    assert(p.take(n as int) =~= p);
    out
}

/// The entries of one line of `iptables -S INPUT`.
pub fn iptables_line_entries(line: &Vec<char>, family: &Vec<char>) -> (r: Vec<FirewallPortEntry>)
    ensures
        rules(r@) == iptables_line_rules(line@, family@),
{
    let t = trim_chars(line);
    if !starts_with_str(&t, "-A INPUT ") || !contains_str(&t, " -j ACCEPT") {
        return Vec::new();
    }
    let proto = match extract_flag_value_chars(&t, "-p") {
        Some(p) => p,
        None => return Vec::new(),
    };
    if !chars_eq(&proto, &chars_of("tcp")) && !chars_eq(&proto, &chars_of("udp")) {
        return Vec::new();
    }
    let specs: Vec<Vec<char>> = match extract_flag_value_chars(&t, "--dport") {
        Some(v) => {
            let mut one: Vec<Vec<char>> = Vec::new();
            let ghost vv = v@;
            one.push(v);
            assert(views(one@) =~= seq![vv]);
            one
        },
        None => match extract_flag_value_chars(&t, "--dports") {
            Some(v) => split_chars(&v, ','),
            None => return Vec::new(),
        },
    };
    let ports = normalize_all(&specs);
    entries_for(&ports, &proto, family, &chars_of("ACCEPT"))
}

/// Parses the output of `iptables -S INPUT` (or `ip6tables -S INPUT`) into
/// one entry per accepted destination port spec, all of the given family.
pub fn parse_iptables_rules(output: &str, family: &str) -> (r: Vec<FirewallPortEntry>)
    ensures
        rules(r@) == iptables_rules(output@, family@),
{
    let text = chars_of(output);
    let fam = chars_of(family);
    let ls = lines_of(&text);
    let ghost lv = views(ls@);
    let mut out: Vec<FirewallPortEntry> = Vec::new();
    let n = ls.len();
    for i in 0..n
        invariant
            n == ls@.len(),
            lv == views(ls@),
            lv == lines(output@),
            fam@ == family@,
            rules(out@) == lv.take(i as int).flat_map(
                |l: Seq<char>| iptables_line_rules(l, family@),
            ),
    {
        proof {
            lv.lemma_flat_map_take_append(|l: Seq<char>| iptables_line_rules(l, family@), i as int);
        }
        let mut more = iptables_line_entries(&ls[i], &fam);
        let ghost before = out@;
        let ghost m = more@;
        out.append(&mut more);
        assert(rules(out@) =~= rules(before) + rules(m));
    }
    assert(lv.take(n as int) =~= lv);
    out
}

// ---------------------------------------------------------------------------
// Filtering and ordering
// ---------------------------------------------------------------------------

/// The order of entries: by port, then protocol, family and action.
pub open spec fn rule_lt(a: FirewallRule, b: FirewallRule) -> bool {
    ||| seq_lt(a.port, b.port)
    ||| a.port == b.port && seq_lt(a.protocol, b.protocol)
    ||| a.port == b.port && a.protocol == b.protocol && seq_lt(a.family, b.family)
    ||| a.port == b.port && a.protocol == b.protocol && a.family == b.family && seq_lt(
        a.action,
        b.action,
    )
}

/// Strictly increasing in [`rule_lt`], hence without repetitions.
pub open spec fn sorted_rules(s: Seq<FirewallRule>) -> bool {
    forall|i: int, j: int| 0 <= i < j < s.len() ==> rule_lt(#[trigger] s[i], #[trigger] s[j])
}

/// Whether a rule is kept by the port filter.
pub open spec fn port_filter_ok(r: FirewallRule, filter_port: Option<u16>) -> bool {
    match filter_port {
        None => true,
        Some(p) => port_spec_matches(r.port, p),
    }
}

pub proof fn lemma_rule_lt_irreflexive(a: FirewallRule)
    ensures
        !rule_lt(a, a),
{
    lemma_seq_lt_irreflexive(a.port);
    lemma_seq_lt_irreflexive(a.protocol);
    lemma_seq_lt_irreflexive(a.family);
    lemma_seq_lt_irreflexive(a.action);
}

pub proof fn lemma_rule_lt_transitive(a: FirewallRule, b: FirewallRule, c: FirewallRule)
    ensures
        rule_lt(a, b) && rule_lt(b, c) ==> rule_lt(a, c),
{
    lemma_seq_lt_transitive(a.port, b.port, c.port);
    lemma_seq_lt_transitive(a.protocol, b.protocol, c.protocol);
    lemma_seq_lt_transitive(a.family, b.family, c.family);
    lemma_seq_lt_transitive(a.action, b.action, c.action);
}

pub proof fn lemma_rule_lt_total(a: FirewallRule, b: FirewallRule)
    ensures
        a != b ==> rule_lt(a, b) || rule_lt(b, a),
{
    lemma_seq_lt_total(a.port, b.port);
    lemma_seq_lt_total(a.protocol, b.protocol);
    lemma_seq_lt_total(a.family, b.family);
    lemma_seq_lt_total(a.action, b.action);
}

pub proof fn lemma_rule_lt_asymmetric(a: FirewallRule, b: FirewallRule)
    ensures
        rule_lt(a, b) ==> !rule_lt(b, a),
{
    lemma_rule_lt_transitive(a, b, a);
    lemma_rule_lt_irreflexive(a);
}

/// A copy of an entry.
pub fn copy_entry(e: &FirewallPortEntry) -> (r: FirewallPortEntry)
    ensures
        r@ == e@,
{
    FirewallPortEntry {
        port: e.port.clone(),
        protocol: e.protocol.clone(),
        family: e.family.clone(),
        action: e.action.clone(),
    }
}

/// Three-way comparison of two entries in the order [`rule_lt`].
pub fn compare_entries(a: &FirewallPortEntry, b: &FirewallPortEntry) -> (r: i8)
    ensures
        r < 0 <==> rule_lt(a@, b@),
        r == 0 <==> a@ == b@,
        r > 0 <==> rule_lt(b@, a@),
{
    proof {
        lemma_rule_lt_asymmetric(a@, b@);
        lemma_rule_lt_irreflexive(a@);
    }
    let c1 = compare_chars(&chars_of(a.port.as_str()), &chars_of(b.port.as_str()));
    if c1 != 0 {
        return c1;
    }
    let c2 = compare_chars(&chars_of(a.protocol.as_str()), &chars_of(b.protocol.as_str()));
    if c2 != 0 {
        return c2;
    }
    let c3 = compare_chars(&chars_of(a.family.as_str()), &chars_of(b.family.as_str()));
    if c3 != 0 {
        return c3;
    }
    let c4 = compare_chars(&chars_of(a.action.as_str()), &chars_of(b.action.as_str()));
    if c4 == 0 {
        assert(a@ == b@);
    }
    c4
}

/// `out` is what the filter gives for `input`: strictly increasing, and
/// holding exactly the rules of `input` that the port filter keeps.
pub open spec fn filtered_rules(
    out: Seq<FirewallRule>,
    input: Seq<FirewallRule>,
    filter_port: Option<u16>,
) -> bool {
    &&& sorted_rules(out)
    &&& forall|x: FirewallRule|
        #![trigger out.contains(x)]
        out.contains(x) <==> (input.contains(x) && port_filter_ok(x, filter_port))
}

/// Two strictly increasing lists of the same rules are the same list.
pub proof fn lemma_sorted_rules_unique(a: Seq<FirewallRule>, b: Seq<FirewallRule>)
    requires
        sorted_rules(a),
        sorted_rules(b),
        forall|x: FirewallRule| a.contains(x) <==> b.contains(x),
    ensures
        a == b,
    decreases a.len(),
{
    if a.len() == 0 {
        if b.len() > 0 {
            assert(b.contains(b[0]));
        }
        assert(a =~= b);
    } else {
        assert(a.contains(a[0]));
        assert(b.contains(a[0]));
        assert(b.contains(b[0]));
        assert(a.contains(b[0]));
        let k = choose|k: int| 0 <= k < a.len() && a[k] == b[0];
        let m = choose|m: int| 0 <= m < b.len() && b[m] == a[0];
        if k > 0 && m > 0 {
            assert(rule_lt(a[0], a[k]));
            assert(rule_lt(b[0], b[m]));
            lemma_rule_lt_asymmetric(a[0], b[0]);
        }
        if k > 0 && m == 0 {
            assert(rule_lt(a[0], a[k]));
            lemma_rule_lt_irreflexive(a[0]);
        }
        if k == 0 && m > 0 {
            assert(rule_lt(b[0], b[m]));
            lemma_rule_lt_irreflexive(b[0]);
        }
        assert(a[0] == b[0]);
        let a1 = a.drop_first();
        let b1 = b.drop_first();
        assert forall|i: int, j: int| 0 <= i < j < a1.len() implies rule_lt(
            #[trigger] a1[i],
            #[trigger] a1[j],
        ) by {
            assert(a1[i] == a[i + 1] && a1[j] == a[j + 1]);
        }
        assert forall|i: int, j: int| 0 <= i < j < b1.len() implies rule_lt(
            #[trigger] b1[i],
            #[trigger] b1[j],
        ) by {
            assert(b1[i] == b[i + 1] && b1[j] == b[j + 1]);
        }
        assert forall|x: FirewallRule| a1.contains(x) <==> b1.contains(x) by {
            if a1.contains(x) {
                let i = choose|i: int| 0 <= i < a1.len() && a1[i] == x;
                assert(a[i + 1] == x);
                assert(rule_lt(a[0], a[i + 1]));
                lemma_rule_lt_irreflexive(x);
                assert(b.contains(x));
                let j = choose|j: int| 0 <= j < b.len() && b[j] == x;
                assert(j != 0);
                assert(b1[j - 1] == x);
            }
            if b1.contains(x) {
                let i = choose|i: int| 0 <= i < b1.len() && b1[i] == x;
                assert(b[i + 1] == x);
                assert(rule_lt(b[0], b[i + 1]));
                lemma_rule_lt_irreflexive(x);
                assert(a.contains(x));
                let j = choose|j: int| 0 <= j < a.len() && a[j] == x;
                assert(j != 0);
                assert(a1[j - 1] == x);
            }
        }
        lemma_sorted_rules_unique(a1, b1);
        assert(a =~= seq![a[0]] + a1);
        assert(b =~= seq![b[0]] + b1);
    }
}

/// Filtering what the filter gave, with the same port, gives it back: the
/// filter's result is determined by its input, and a second pass keeps
/// everything.
pub proof fn lemma_filter_entries_idempotent(
    once: Seq<FirewallRule>,
    twice: Seq<FirewallRule>,
    input: Seq<FirewallRule>,
    filter_port: Option<u16>,
)
    requires
        filtered_rules(once, input, filter_port),
        filtered_rules(twice, once, filter_port),
    ensures
        twice == once,
{
    assert forall|x: FirewallRule| twice.contains(x) <==> once.contains(x) by {
        if once.contains(x) {
            assert(input.contains(x) && port_filter_ok(x, filter_port));
        }
    }
    lemma_sorted_rules_unique(twice, once);
}

/// Keeps the entries whose port spec covers `filter_port` (all of them when
/// there is no filter), without repetitions, in increasing order.
pub fn filter_entries(entries: Vec<FirewallPortEntry>, filter_port: Option<u16>) -> (r: Vec<
    FirewallPortEntry,
>)
    ensures
        filtered_rules(rules(r@), rules(entries@), filter_port),
{
    let mut out: Vec<FirewallPortEntry> = Vec::new();
    let n = entries.len();
    for i in 0..n
        invariant
            n == entries@.len(),
            sorted_rules(rules(out@)),
            forall|x: FirewallRule|
                #![trigger rules(out@).contains(x)]
                rules(out@).contains(x) <==> (rules(entries@.take(i as int)).contains(x)
                    && port_filter_ok(x, filter_port)),
    {
        let e = &entries[i];
        assert(rules(entries@.take(i + 1)) =~= rules(entries@.take(i as int)).push(e@));
        let keep = match filter_port {
            None => true,
            Some(p) => port_spec_matches_chars(&chars_of(e.port.as_str()), p),
        };
        assert(keep == port_filter_ok(e@, filter_port));
        let ghost s_old = rules(out@);
        let ghost t = rules(entries@.take(i as int));
        assert(forall|x: FirewallRule|
            s_old.contains(x) <==> (t.contains(x) && port_filter_ok(x, filter_port)));
        if keep {
            let len = out.len();
            let mut p: usize = 0;
            while p < len && compare_entries(&out[p], e) < 0
                invariant
                    len == out@.len(),
                    p <= len,
                    forall|k: int| 0 <= k < p ==> rule_lt(#[trigger] rules(out@)[k], e@),
                decreases len - p,
            {
                p = p + 1;
            }
            let dup = p < len && compare_entries(&out[p], e) == 0;
            if !dup {
                let ghost s = rules(out@);
                proof {
                    if p < len {
                        lemma_rule_lt_total(s[p as int], e@);
                    }
                }
                out.insert(p, copy_entry(e));
                let ghost s2 = rules(out@);
                assert(s2 =~= s.insert(p as int, e@));
                assert forall|a: int, b: int| 0 <= a < b < s2.len() implies rule_lt(
                    #[trigger] s2[a],
                    #[trigger] s2[b],
                ) by {
                    if b < p {
                        assert(s[a] == s2[a] && s[b] == s2[b]);
                    } else if b == p {
                        assert(s2[a] == s[a]);
                    } else if a < p {
                        assert(s2[b] == s[b - 1]);
                        assert(rule_lt(s[a], s[b - 1]));
                    } else if a == p {
                        assert(s2[b] == s[b - 1]);
                        assert(rule_lt(e@, s[p as int]));
                        if b - 1 > p {
                            assert(rule_lt(s[p as int], s[b - 1]));
                            lemma_rule_lt_transitive(e@, s[p as int], s[b - 1]);
                        }
                    } else {
                        assert(s2[a] == s[a - 1] && s2[b] == s[b - 1]);
                        assert(rule_lt(s[a - 1], s[b - 1]));
                    }
                }
                assert forall|x: FirewallRule| s2.contains(x) <==> (x == e@ || s.contains(x)) by {
                    if s.contains(x) {
                        let k = choose|k: int| 0 <= k < s.len() && s[k] == x;
                        if k < p {
                            assert(s2[k] == x);
                        } else {
                            assert(s2[k + 1] == x);
                        }
                    }
                    if x == e@ {
                        assert(s2[p as int] == x);
                    }
                    if s2.contains(x) && x != e@ {
                        let k = choose|k: int| 0 <= k < s2.len() && s2[k] == x;
                        if k < p {
                            assert(s[k] == x);
                        } else {
                            assert(k != p);
                            assert(s[k - 1] == x);
                        }
                    }
                }
            } else {
                assert(rules(out@)[p as int] == e@);
                assert(s_old.contains(e@));
            }
        }
        assert(forall|x: FirewallRule|
            rules(out@).contains(x) <==> (s_old.contains(x) || (keep && x == e@)));
        assert forall|x: FirewallRule|
            rules(out@).contains(x) <==> (rules(entries@.take(i + 1)).contains(x)
                && port_filter_ok(x, filter_port)) by {
            assert(s_old.contains(x) <==> (t.contains(x) && port_filter_ok(x, filter_port)));
            assert(rules(out@).contains(x) <==> (s_old.contains(x) || (keep && x == e@)));
            if t.push(e@).contains(x) && x != e@ {
                let k = choose|k: int| 0 <= k < t.push(e@).len() && t.push(e@)[k] == x;
                assert(t[k] == x);
            }
            if t.contains(x) {
                let k = choose|k: int| 0 <= k < t.len() && t[k] == x;
                assert(t.push(e@)[k] == x);
            }
            if x == e@ {
                assert(t.push(e@)[t.len() as int] == x);
            }
        }
    }
    assert(entries@.take(n as int) =~= entries@);
    out
}

// ---------------------------------------------------------------------------
// Output
// ---------------------------------------------------------------------------

/// What `firewall ports` reports.
pub struct FirewallPortsOutput {
    pub backend: String,
    pub filter_port: Option<u16>,
    pub entry_count: usize,
    pub entries: Vec<FirewallPortEntry>,
}

/// One tab separated line of the plain output.
pub open spec fn tsv_row(r: FirewallRule, backend: Seq<char>) -> Seq<char> {
    join(seq![r.port, r.protocol, r.family, r.action, backend], "\t"@)
}

/// The plain output: a header line, then one tab separated line per entry.
pub open spec fn firewall_tsv(backend: Seq<char>, entries: Seq<FirewallRule>) -> Seq<char> {
    join(
        seq!["port\tprotocol\tfamily\taction\tbackend"@] + entries.map_values(
            |r: FirewallRule| tsv_row(r, backend),
        ),
        "\n"@,
    )
}

/// The column widths of the entries table.
pub open spec fn firewall_widths(entries: Seq<FirewallRule>) -> Seq<usize> {
    seq![
        column_width(entries.map_values(|r: FirewallRule| r.port), 2, "端口"@),
        column_width(entries.map_values(|r: FirewallRule| r.protocol), 2, "协议"@),
        column_width(entries.map_values(|r: FirewallRule| r.family), 2, "地址族"@),
        column_width(entries.map_values(|r: FirewallRule| r.action), 2, "动作"@),
    ]
}

/// The entries as a table: a header, a line of dashes, then one line per
/// entry, or a note when there is none.
pub open spec fn firewall_entries_table(entries: Seq<FirewallRule>) -> Seq<char> {
    let w = firewall_widths(entries);
    let header = table_row(seq!["端口"@, "协议"@, "地址族"@, "动作"@], w, ' ');
    let dashes = table_row(seq![seq![], seq![], seq![], seq![]], w, '-');
    let body = if entries.len() == 0 {
        seq!["未匹配到开放规则"@]
    } else {
        entries.map_values(
            |r: FirewallRule| table_row(seq![r.port, r.protocol, r.family, r.action], w, ' '),
        )
    };
    join(seq![header, dashes] + body, "\n"@)
}

/// The human readable output: backend, port filter and number of entries,
/// then the entries table.
pub open spec fn firewall_human(
    backend: Seq<char>,
    filter_port: Option<u16>,
    entry_count: usize,
    entries: Seq<FirewallRule>,
) -> Seq<char> {
    join(
        seq![
            "防火墙: "@ + backend,
            "筛选端口: "@ + match filter_port {
                Some(p) => decimal(p as nat),
                None => "全部"@,
            },
            "匹配规则: "@ + decimal(entry_count as nat),
            firewall_entries_table(entries),
        ],
        "\n"@,
    )
}

fn field_column(entries: &[FirewallPortEntry], k: u8) -> (r: Vec<Vec<char>>)
    requires
        k < 4,
    ensures
        views(r@) == rules(entries@).map_values(
            |e: FirewallRule|
                if k == 0 {
                    e.port
                } else if k == 1 {
                    e.protocol
                } else if k == 2 {
                    e.family
                } else {
                    e.action
                },
        ),
{
    let mut out: Vec<Vec<char>> = Vec::new();
    let n = entries.len();
    for i in 0..n
        invariant
            n == entries@.len(),
            k < 4,
            views(out@) =~= rules(entries@.take(i as int)).map_values(
                |e: FirewallRule|
                    if k == 0 {
                        e.port
                    } else if k == 1 {
                        e.protocol
                    } else if k == 2 {
                        e.family
                    } else {
                        e.action
                    },
            ),
    {
        let e = &entries[i];
        let s = if k == 0 {
            &e.port
        } else if k == 1 {
            &e.protocol
        } else if k == 2 {
            &e.family
        } else {
            &e.action
        };
        let v = chars_of(s.as_str());
        let ghost before = views(out@);
        let ghost vv = v@;
        out.push(v);
        assert(views(out@) =~= before.push(vv));
        assert(rules(entries@.take(i + 1)) =~= rules(entries@.take(i as int)).push(e@));
    }
    assert(entries@.take(n as int) =~= entries@);
    out
}

fn firewall_widths_of(entries: &[FirewallPortEntry]) -> (r: Vec<usize>)
    ensures
        r@ == firewall_widths(rules(entries@)),
{
    let ghost s = rules(entries@);
    let ports = field_column(entries, 0);
    let protocols = field_column(entries, 1);
    let families = field_column(entries, 2);
    let actions = field_column(entries, 3);
    assert(views(ports@) =~= s.map_values(|r: FirewallRule| r.port));
    assert(views(protocols@) =~= s.map_values(|r: FirewallRule| r.protocol));
    assert(views(families@) =~= s.map_values(|r: FirewallRule| r.family));
    assert(views(actions@) =~= s.map_values(|r: FirewallRule| r.action));
    let mut w: Vec<usize> = Vec::new();
    w.push(column_width_of(&ports, 2, "端口"));
    w.push(column_width_of(&protocols, 2, "协议"));
    w.push(column_width_of(&families, 2, "地址族"));
    w.push(column_width_of(&actions, 2, "动作"));
    assert(w@ =~= firewall_widths(s));
    w
}

fn four_cells(a: Vec<char>, b: Vec<char>, c: Vec<char>, d: Vec<char>) -> (r: Vec<Vec<char>>)
    ensures
        views(r@) == seq![a@, b@, c@, d@],
{
    let ghost (av, bv, cv, dv) = (a@, b@, c@, d@);
    let mut v: Vec<Vec<char>> = Vec::new();
    v.push(a);
    v.push(b);
    v.push(c);
    v.push(d);
    assert(views(v@) =~= seq![av, bv, cv, dv]);
    v
}

/// The entries as a table (see [`firewall_entries_table`]).
pub fn render_entries_table(entries: &[FirewallPortEntry]) -> (r: String)
    ensures
        r@ == firewall_entries_table(rules(entries@)),
{
    let ghost s = rules(entries@);
    let w = firewall_widths_of(entries);
    let header_cells = four_cells(
        chars_of("端口"),
        chars_of("协议"),
        chars_of("地址族"),
        chars_of("动作"),
    );
    let dash_cells = four_cells(Vec::new(), Vec::new(), Vec::new(), Vec::new());
    assert(views(header_cells@).len() == 4 && views(dash_cells@).len() == 4);
    assert(views(dash_cells@) =~= seq![seq![], seq![], seq![], seq![]]);
    let mut lines: Vec<Vec<char>> = Vec::new();
    let hr = format_row(&header_cells, &w, ' ');
    let dr = format_row(&dash_cells, &w, '-');
    let ghost hv = hr@;
    let ghost dv = dr@;
    lines.push(hr);
    lines.push(dr);
    let ghost head = views(lines@);
    assert(head =~= seq![hv, dv]);
    let n = entries.len();
    if n == 0 {
        let note = chars_of("未匹配到开放规则");
        let ghost nv = note@;
        lines.push(note);
        assert(views(lines@) =~= head + seq![nv]);
    } else {
        for i in 0..n
            invariant
                n == entries@.len(),
                s == rules(entries@),
                w@ == firewall_widths(s),
                views(lines@) =~= head + s.take(i as int).map_values(
                    |r: FirewallRule|
                        table_row(seq![r.port, r.protocol, r.family, r.action], w@, ' '),
                ),
        {
            let e = &entries[i];
            let cells = four_cells(
                chars_of(e.port.as_str()),
                chars_of(e.protocol.as_str()),
                chars_of(e.family.as_str()),
                chars_of(e.action.as_str()),
            );
            assert(views(cells@).len() == 4);
            let row = format_row(&cells, &w, ' ');
            let ghost before = views(lines@);
            let ghost rv = row@;
            lines.push(row);
            assert(views(lines@) =~= before.push(rv));
            assert(s.take(i + 1) =~= s.take(i as int).push(e@));
        }
        assert(s.take(n as int) =~= s);
    }
    let nl = chars_of("\n");
    string_of(&join_chars(&lines, &nl))
}

/// The plain output (see [`firewall_tsv`]).
pub fn render_plain_tsv(data: &FirewallPortsOutput) -> (r: String)
    ensures
        r@ == firewall_tsv(data.backend@, rules(data.entries@)),
{
    let ghost s = rules(data.entries@);
    let ghost backend = data.backend@;
    let mut lines: Vec<Vec<char>> = Vec::new();
    let h = chars_of("port\tprotocol\tfamily\taction\tbackend");
    let ghost hv = h@;
    lines.push(h);
    let ghost head = views(lines@);
    assert(head =~= seq![hv]);
    let tab = chars_of("\t");
    let n = data.entries.len();
    for i in 0..n
        invariant
            n == data.entries@.len(),
            s == rules(data.entries@),
            backend == data.backend@,
            tab@ == "\t"@,
            views(lines@) =~= head + s.take(i as int).map_values(
                |r: FirewallRule| tsv_row(r, backend),
            ),
    {
        let e = &data.entries[i];
        let mut cells = four_cells(
            chars_of(e.port.as_str()),
            chars_of(e.protocol.as_str()),
            chars_of(e.family.as_str()),
            chars_of(e.action.as_str()),
        );
        let ghost cv = views(cells@);
        let b = chars_of(data.backend.as_str());
        let ghost bv = b@;
        cells.push(b);
        assert(views(cells@) =~= cv.push(bv));
        let row = join_chars(&cells, &tab);
        assert(views(cells@) =~= seq![e@.port, e@.protocol, e@.family, e@.action, backend]);
        let ghost before = views(lines@);
        let ghost rv = row@;
        lines.push(row);
        assert(views(lines@) =~= before.push(rv));
        assert(s.take(i + 1) =~= s.take(i as int).push(e@));
    }
    assert(s.take(n as int) =~= s);
    let nl = chars_of("\n");
    string_of(&join_chars(&lines, &nl))
}

/// The human readable output (see [`firewall_human`]).
pub fn render_human_table(data: &FirewallPortsOutput) -> (r: String)
    ensures
        r@ == firewall_human(
            data.backend@,
            data.filter_port,
            data.entry_count,
            rules(data.entries@),
        ),
{
    let mut l1 = chars_of("防火墙: ");
    append_str(&mut l1, data.backend.as_str());
    let mut l2 = chars_of("筛选端口: ");
    match data.filter_port {
        Some(p) => append(&mut l2, &decimal_chars(p as u64)),
        None => append_str(&mut l2, "全部"),
    }
    let mut l3 = chars_of("匹配规则: ");
    append(&mut l3, &decimal_chars(data.entry_count as u64));
    let table = render_entries_table(data.entries.as_slice());
    let l4 = chars_of(table.as_str());
    let ghost parts = seq![l1@, l2@, l3@, l4@];
    assert(parts =~= seq![
        "防火墙: "@ + data.backend@,
        "筛选端口: "@ + match data.filter_port {
            Some(p) => decimal(p as nat),
            None => "全部"@,
        },
        "匹配规则: "@ + decimal(data.entry_count as nat),
        firewall_entries_table(rules(data.entries@)),
    ]);
    let lines = four_cells(l1, l2, l3, l4);
    let nl = chars_of("\n");
    string_of(&join_chars(&lines, &nl))
}

// ---------------------------------------------------------------------------
// Queries
// ---------------------------------------------------------------------------

/// Parses a `--port` value: a number from 1 to 65535.
pub fn parse_port(value: &str) -> (r: Result<u16, CliError>)
    ensures
        match parse_u16(value@) {
            None => r matches Err(e) && e.message@ == "端口必须为数字"@,
            Some(0) => r matches Err(e) && e.message@ == "端口范围必须为 1-65535"@,
            Some(p) => r == Ok::<u16, CliError>(p),
        },
{
    match parse_u16_chars(&chars_of(value)) {
        None => Err(CliError::new("端口必须为数字")),
        Some(0) => Err(CliError::new("端口范围必须为 1-65535")),
        Some(p) => Ok(p),
    }
}

fn push_warning(warnings: &mut Vec<String>, w: Vec<char>)
    ensures
        texts(final(warnings)@) == texts(old(warnings)@).push(w@),
{
    let ghost before = texts(warnings@);
    let s = string_of(&w);
    warnings.push(s);
    assert(texts(warnings@) =~= before.push(w@));
}

fn warn_with_detail(warnings: &mut Vec<String>, prefix: &str, stderr: &str)
    ensures
        trim(stderr@).len() > 0 ==> texts(final(warnings)@) == texts(old(warnings)@).push(
            prefix@ + trim(stderr@),
        ),
        trim(stderr@).len() == 0 ==> final(warnings)@ == old(warnings)@,
{
    let detail = trim_chars(&chars_of(stderr));
    if detail.len() > 0 {
        let mut m = chars_of(prefix);
        append(&mut m, &detail);
        push_warning(warnings, m);
    }
}

/// What `ufw status` gives: the filtered rules when ufw is active;
/// otherwise nothing, with a warning that says why (its error output, that
/// it is inactive, or that its status was not understood).
pub fn ufw_outcome(
    success: bool,
    stdout: &str,
    stderr: &str,
    filter_port: Option<u16>,
    warnings: &mut Vec<String>,
) -> (r: Option<Vec<FirewallPortEntry>>)
    ensures
        !success ==> r is None && (trim(stderr@).len() > 0 ==> texts(final(warnings)@) == texts(
            old(warnings)@,
        ).push("ufw status 执行失败，继续检查其它防火墙: "@ + trim(stderr@))) && (trim(stderr@).len()
            == 0 ==> final(warnings)@ == old(warnings)@),
        success && contains(stdout@, "Status: inactive"@) ==> r is None && texts(final(warnings)@)
            == texts(old(warnings)@).push("检测到 ufw 已安装但未启用，继续检查 nftables/iptables"@),
        success && !contains(stdout@, "Status: inactive"@) && contains(stdout@, "Status: active"@)
            ==> (r matches Some(v) && filtered_rules(rules(v@), ufw_status_rules(stdout@), filter_port))
            && final(warnings)@ == old(warnings)@,
        success && !contains(stdout@, "Status: inactive"@) && !contains(stdout@, "Status: active"@)
            ==> r is None && texts(final(warnings)@) == texts(old(warnings)@).push(
            "无法识别 ufw 状态输出，继续检查 nftables/iptables"@,
        ),
{
    if !success {
        warn_with_detail(warnings, "ufw status 执行失败，继续检查其它防火墙: ", stderr);
        return None;
    }
    let out = chars_of(stdout);
    if contains_str(&out, "Status: inactive") {
        push_warning(warnings, chars_of("检测到 ufw 已安装但未启用，继续检查 nftables/iptables"));
        return None;
    }
    if contains_str(&out, "Status: active") {
        return Some(filter_entries(parse_ufw_status(stdout), filter_port));
    }
    push_warning(warnings, chars_of("无法识别 ufw 状态输出，继续检查 nftables/iptables"));
    None
}

/// What `nft list ruleset` gives: the filtered rules when it found any;
/// otherwise nothing, with a warning (its error output, or that no open
/// port was found).
pub fn nft_outcome(
    success: bool,
    stdout: &str,
    stderr: &str,
    filter_port: Option<u16>,
    warnings: &mut Vec<String>,
) -> (r: Option<Vec<FirewallPortEntry>>)
    ensures
        !success ==> r is None && (trim(stderr@).len() > 0 ==> texts(final(warnings)@) == texts(
            old(warnings)@,
        ).push("nft list ruleset 执行失败，继续检查 iptables: "@ + trim(stderr@))) && (trim(stderr@).len()
            == 0 ==> final(warnings)@ == old(warnings)@),
        success && nft_ruleset_rules(stdout@).len() == 0 ==> r is None && texts(final(warnings)@)
            == texts(old(warnings)@).push("未在 nftables 中识别到开放端口规则，继续检查 iptables"@),
        success && nft_ruleset_rules(stdout@).len() > 0 ==> (r matches Some(v) && filtered_rules(
            rules(v@),
            nft_ruleset_rules(stdout@),
            filter_port,
        )) && final(warnings)@ == old(warnings)@,
{
    if !success {
        warn_with_detail(warnings, "nft list ruleset 执行失败，继续检查 iptables: ", stderr);
        return None;
    }
    let all = parse_nft_ruleset(stdout);
    if all.len() == 0 {
        push_warning(warnings, chars_of("未在 nftables 中识别到开放端口规则，继续检查 iptables"));
        return None;
    }
    Some(filter_entries(all, filter_port))
}

/// A run of `iptables -S INPUT` or `ip6tables -S INPUT`: whether it
/// succeeded, and its output and error output.
pub struct TableRun {
    pub success: bool,
    pub stdout: String,
    pub stderr: String,
}

/// The rules of an `iptables`/`ip6tables` run, none when it failed.
pub open spec fn run_rules(run: Option<TableRun>, family: Seq<char>) -> Seq<FirewallRule> {
    match run {
        Some(t) => if t.success {
            iptables_rules(t.stdout@, family)
        } else {
            seq![]
        },
        None => seq![],
    }
}

/// The warning of a failed run.
pub open spec fn run_warning(run: Option<TableRun>, prefix: Seq<char>) -> Seq<Seq<char>> {
    match run {
        Some(t) => if !t.success && trim(t.stderr@).len() > 0 {
            seq![prefix + trim(t.stderr@)]
        } else {
            seq![]
        },
        None => seq![],
    }
}

fn add_run(
    all: &mut Vec<FirewallPortEntry>,
    run: &Option<TableRun>,
    family: &str,
    prefix: &str,
    warnings: &mut Vec<String>,
)
    ensures
        rules(final(all)@) == rules(old(all)@) + run_rules(*run, family@),
        texts(final(warnings)@) == texts(old(warnings)@) + run_warning(*run, prefix@),
{
    let ghost wb = texts(warnings@);
    let ghost ab = rules(all@);
    match run {
        Some(t) => {
            if t.success {
                let mut got = parse_iptables_rules(t.stdout.as_str(), family);
                let ghost gv = rules(got@);
                all.append(&mut got);
                assert(rules(all@) =~= ab + gv);
            } else {
                warn_with_detail(warnings, prefix, t.stderr.as_str());
            }
        },
        None => {},
    }
    assert(rules(all@) =~= ab + run_rules(*run, family@));
    assert(texts(warnings@) =~= wb + run_warning(*run, prefix@));
}

/// What `iptables` and `ip6tables` give (`None` for a tool that is not
/// installed): nothing when neither is installed; otherwise the filtered
/// rules of the runs that succeeded (IPv4 then IPv6), with a warning for
/// each failed run that said why.
pub fn iptables_outcome(
    ipv4: Option<TableRun>,
    ipv6: Option<TableRun>,
    filter_port: Option<u16>,
    warnings: &mut Vec<String>,
) -> (r: Option<Vec<FirewallPortEntry>>)
    ensures
        texts(final(warnings)@) == texts(old(warnings)@) + run_warning(ipv4, "iptables 查询失败: "@)
            + run_warning(ipv6, "ip6tables 查询失败: "@),
        ipv4 is None && ipv6 is None ==> r is None,
        !(ipv4 is None && ipv6 is None) ==> (r matches Some(v) && filtered_rules(
            rules(v@),
            run_rules(ipv4, "ipv4"@) + run_rules(ipv6, "ipv6"@),
            filter_port,
        )),
{
    let available = ipv4.is_some() || ipv6.is_some();
    let mut all: Vec<FirewallPortEntry> = Vec::new();
    add_run(&mut all, &ipv4, "ipv4", "iptables 查询失败: ", warnings);
    add_run(&mut all, &ipv6, "ipv6", "ip6tables 查询失败: ", warnings);
    assert(rules(all@) =~= run_rules(ipv4, "ipv4"@) + run_rules(ipv6, "ipv6"@));
    if !available {
        return None;
    }
    Some(filter_entries(all, filter_port))
}

/// The error when none of ufw, nftables and iptables gave rules.
pub fn no_firewall_error() -> (r: CliError)
    ensures
        r.message@ == "未检测到可查询的防火墙规则，请确认系统已安装并启用 ufw、nftables 或 iptables"@,
{
    CliError::new("未检测到可查询的防火墙规则，请确认系统已安装并启用 ufw、nftables 或 iptables")
}

} // verus!
