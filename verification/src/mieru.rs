//! mieru / mita: validating a node's port and protocol, its share link and
//! client configuration, generated names and passwords, the node list and
//! the server configuration built from it, and the mita package and client
//! helper downloads.
use vstd::prelude::*;

use crate::num::{decimal, decimal_chars, decimal_string, parse_u16, parse_u16_chars};
use crate::safety::current_timestamp;
use crate::self_update::{hex_digit, hex_encode, lower_hex, sha256, sha256_digest};
use crate::split::{contains, contains_str};
use crate::text::{
    append, append_str, chars_eq, chars_of, opt_view, starts_with, starts_with_str, str_eq,
    is_ws, strip_leading, strip_leading_chars, strip_trailing, strip_trailing_chars, string_of,
    to_lowercase, to_uppercase, trim, trim_chars, trim_end, trim_start, unicode_lowercase,
    unicode_uppercase,
};
use crate::utils::{crumb, crumb_texts, texts, Breadcrumb, CliError, OperationReport};

verus! {

// ---------------------------------------------------------------------------
// Ports, protocols and hosts
// ---------------------------------------------------------------------------

/// The port of a node: a `u16` in decimal, at least 1025.
pub open spec fn mieru_port(value: Seq<char>) -> Result<u16, Seq<char>> {
    match parse_u16(value) {
        None => Err("端口必须为数字"@),
        Some(p) => if p < 1025 {
            Err("mieru/mita 端口范围必须为 1025-65535"@)
        } else {
            Ok(p)
        },
    }
}

/// The port of a node (see [`mieru_port`]).
pub fn parse_port(value: &str) -> (r: Result<u16, CliError>)
    ensures
        match r {
            Ok(p) => mieru_port(value@) == Ok::<u16, Seq<char>>(p),
            Err(e) => mieru_port(value@) == Err::<u16, Seq<char>>(e.message@),
        },
{
    match parse_u16_chars(&chars_of(value)) {
        None => Err(CliError::new("端口必须为数字")),
        Some(p) => {
            if p < 1025 {
                Err(CliError::new("mieru/mita 端口范围必须为 1025-65535"))
            } else {
                Ok(p)
            }
        },
    }
}

/// How the protocol of a new node is settled.
#[derive(Debug)]
pub enum ProtocolChoice {
    /// The protocol that was given, uppercased, or `TCP` by default.
    Chosen(String),
    /// Ask the user to pick `TCP` or `UDP`.
    Ask,
}

/// The protocol of a new node: the given one uppercased; without one, asked
/// for in an interactive session and `TCP` otherwise.
pub fn resolve_protocol(value: Option<&str>, interactive: bool) -> (r: ProtocolChoice)
    ensures
        value matches Some(v) ==> (r matches ProtocolChoice::Chosen(p) && p@ == unicode_uppercase(
            v@,
        )),
        value is None && interactive ==> r is Ask,
        value is None && !interactive ==> (r matches ProtocolChoice::Chosen(p) && p@ == "TCP"@),
{
    match value {
        Some(v) => ProtocolChoice::Chosen(to_uppercase(v)),
        None => {
            if interactive {
                ProtocolChoice::Ask
            } else {
                ProtocolChoice::Chosen("TCP".to_owned())
            }
        },
    }
}

/// Only `TCP` and `UDP` are protocols of mieru.
pub fn check_protocol(protocol: &str) -> (r: Result<(), CliError>)
    ensures
        r is Ok <==> (protocol@ == "TCP"@ || protocol@ == "UDP"@),
        r matches Err(e) ==> e.message@ == "mieru 协议仅支持 TCP 或 UDP"@,
{
    if str_eq(protocol, "TCP") || str_eq(protocol, "UDP") {
        Ok(())
    } else {
        Err(CliError::new("mieru 协议仅支持 TCP 或 UDP"))
    }
}

/// A host as it stands in a URI: an IPv6 address (it holds `:`) in square
/// brackets unless it has them already.
pub open spec fn uri_host(host: Seq<char>) -> Seq<char> {
    if contains(host, ":"@) && !starts_with(host, "["@) {
        "["@ + host + "]"@
    } else {
        host
    }
}

/// A host as it stands in a URI (see [`uri_host`]).
pub fn format_uri_host(host: &str) -> (r: String)
    ensures
        r@ == uri_host(host@),
{
    let h = chars_of(host);
    if contains_str(&h, ":") && !starts_with_str(&h, "[") {
        let mut v = chars_of("[");
        append(&mut v, &h);
        append_str(&mut v, "]");
        string_of(&v)
    } else {
        host.to_owned()
    }
}

/// A host trimmed and without the square brackets around an IPv6 address.
pub open spec fn bare_host(host: Seq<char>) -> Seq<char> {
    strip_trailing(strip_leading(trim(host), '['), ']')
}

/// A host trimmed and without square brackets (see [`bare_host`]).
pub fn strip_ip_brackets(host: &str) -> (r: String)
    ensures
        r@ == bare_host(host@),
{
    string_of(&strip_trailing_chars(&strip_leading_chars(&trim_chars(&chars_of(host)), '['), ']'))
}

/// Whether a host is written plainly: not blank at either end, and not
/// already in square brackets at either end.
pub open spec fn plain_host(host: Seq<char>) -> bool {
    host.len() > 0 && !is_ws(host[0]) && !is_ws(host.last()) && host[0] != '[' && host.last()
        != ']'
}

/// The host that a share link carries gives back the host it was made
/// from: taking the square brackets off the host as written in the URI
/// yields the plain host again, for IPv6 addresses and names alike.
pub proof fn lemma_uri_host_round_trip(host: Seq<char>)
    requires
        plain_host(host),
    ensures
        bare_host(uri_host(host)) == host,
{
    reveal_strlit("[");
    reveal_strlit("]");
    let u = uri_host(host);
    if contains(host, ":"@) && !starts_with(host, "["@) {
        let inner = host + "]"@;
        assert(u =~= "["@ + inner);
        assert(u[0] == '[');
        assert(u.last() == ']');
        assert(!is_ws('['));
        assert(!is_ws(']'));
        assert(trim_start(u) == u);
        assert(trim_end(u) == u);
        assert(u.drop_first() =~= inner);
        assert(inner[0] == host[0]);
        assert(strip_leading(inner, '[') == inner);
        assert(strip_leading(u, '[') == inner);
        assert(inner.drop_last() =~= host);
        assert(strip_trailing(host, ']') == host);
        assert(strip_trailing(inner, ']') == host);
    } else {
        assert(u == host);
        assert(trim_start(u) == u);
        assert(trim_end(u) == u);
        assert(strip_leading(host, '[') == host);
        assert(strip_trailing(host, ']') == host);
    }
}

/// The simple share link of a node.
pub open spec fn simple_link(
    username: Seq<char>,
    password: Seq<char>,
    host: Seq<char>,
    port: u16,
    protocol: Seq<char>,
) -> Seq<char> {
    "mierus://"@ + username + ":"@ + password + "@"@ + uri_host(host)
        + "?profile=default&mtu=1400&multiplexing=MULTIPLEXING_HIGH&handshake-mode=HANDSHAKE_STANDARD&port="@
        + decimal(port as nat) + "&protocol="@ + protocol
}

/// The simple share link of a node (see [`simple_link`]).
pub fn build_simple_link(username: &str, password: &str, host: &str, port: u16, protocol: &str) -> (r:
    String)
    ensures
        r@ == simple_link(username@, password@, host@, port, protocol@),
{
    let mut v = chars_of("mierus://");
    append_str(&mut v, username);
    append_str(&mut v, ":");
    append_str(&mut v, password);
    append_str(&mut v, "@");
    append_str(&mut v, format_uri_host(host).as_str());
    append_str(
        &mut v,
        "?profile=default&mtu=1400&multiplexing=MULTIPLEXING_HIGH&handshake-mode=HANDSHAKE_STANDARD&port=",
    );
    append(&mut v, &decimal_chars(port as u64));
    append_str(&mut v, "&protocol=");
    append_str(&mut v, protocol);
    string_of(&v)
}

// ---------------------------------------------------------------------------
// Generated names and secrets
// ---------------------------------------------------------------------------

/// `format!("{:x}", n)`: lowercase hexadecimal without leading zeros.
pub open spec fn hex_number(n: nat) -> Seq<char>
    decreases n,
{
    if n < 16 {
        seq![hex_digit(n as int)]
    } else {
        hex_number(n / 16) + seq![hex_digit((n % 16) as int)]
    }
}

fn hex_char(d: u64) -> (r: char)
    requires
        d < 16,
    ensures
        r == hex_digit(d as int),
{
    let b: u8 = d as u8;
    if b < 10 {
        (48u8 + b) as char
    } else {
        (87u8 + b) as char
    }
}

fn hex_number_chars(n: u64) -> (r: Vec<char>)
    ensures
        r@ == hex_number(n as nat),
    decreases n,
{
    if n < 16 {
        let mut v: Vec<char> = Vec::new();
        v.push(hex_char(n));
        assert(v@ =~= seq![hex_digit(n as int)]);
        v
    } else {
        let mut v = hex_number_chars(n / 16);
        let ghost before = v@;
        v.push(hex_char(n % 16));
        assert(v@ =~= before + seq![hex_digit((n % 16) as int)]);
        v
    }
}

/// A short random hexadecimal string: what `openssl rand -hex` printed
/// (`output`, trimmed) when that is not empty, else the current time
/// `timestamp` in hexadecimal.
pub open spec fn random_hex(output: Option<Seq<char>>, timestamp: u64) -> Seq<char> {
    match output {
        Some(o) => if trim(o).len() > 0 {
            trim(o)
        } else {
            hex_number(timestamp as nat)
        },
        None => hex_number(timestamp as nat),
    }
}

/// A short random hexadecimal string (see [`random_hex`]).
pub fn short_hex(output: Option<&str>, timestamp: u64) -> (r: String)
    ensures
        r@ == random_hex(
            match output {
                Some(o) => Some(o@),
                None => None,
            },
            timestamp,
        ),
{
    match output {
        Some(o) => {
            let t = trim_chars(&chars_of(o));
            if t.len() > 0 {
                return string_of(&t);
            }
        },
        None => {},
    }
    string_of(&hex_number_chars(timestamp))
}

/// Base64 text made URL safe: `+` becomes `-`, `/` becomes `_`, and `=` and
/// line breaks are dropped.
pub open spec fn url_safe(s: Seq<char>) -> Seq<char>
    decreases s.len(),
{
    if s.len() == 0 {
        seq![]
    } else {
        let rest = url_safe(s.drop_last());
        let c = s.last();
        if c == '=' || c == '\n' {
            rest
        } else if c == '+' {
            rest.push('-')
        } else if c == '/' {
            rest.push('_')
        } else {
            rest.push(c)
        }
    }
}

/// A random URL-safe secret of at most `length` characters, made from what
/// `openssl rand -base64 48` printed (`output`), or from `seed-<timestamp>`
/// when it printed nothing usable.
pub open spec fn random_secret(output: Option<Seq<char>>, timestamp: u64, length: nat) -> Seq<char> {
    let raw = match output {
        Some(o) => o,
        None => "seed-"@ + decimal(timestamp as nat),
    };
    let u = url_safe(raw);
    if u.len() <= length {
        u
    } else {
        u.take(length as int)
    }
}

/// A random URL-safe secret (see [`random_secret`]).
pub fn random_b64url(output: Option<&str>, timestamp: u64, length: usize) -> (r: String)
    ensures
        r@ == random_secret(
            match output {
                Some(o) => Some(o@),
                None => None,
            },
            timestamp,
            length as nat,
        ),
{
    let raw = match output {
        Some(o) => chars_of(o),
        None => {
            let mut v = chars_of("seed-");
            append(&mut v, &decimal_chars(timestamp));
            v
        },
    };
    let mut u: Vec<char> = Vec::new();
    let n = raw.len();
    for i in 0..n
        invariant
            n == raw@.len(),
            u@ == url_safe(raw@.take(i as int)),
    {
        let c = raw[i];
        assert(raw@.take(i + 1).drop_last() =~= raw@.take(i as int));
        assert(raw@.take(i + 1).last() == c);
        if c == '=' || c == '\n' {
        } else if c == '+' {
            u.push('-');
        } else if c == '/' {
            u.push('_');
        } else {
            u.push(c);
        }
    }
    assert(raw@.take(n as int) =~= raw@);
    if u.len() <= length {
        string_of(&u)
    } else {
        string_of(&crate::text::slice_chars(&u, 0, length))
    }
}

/// The default user name of a node: `u_` and a short random hex string.
pub fn default_username(random: &str) -> (r: String)
    ensures
        r@ == "u_"@ + random@,
{
    let mut v = chars_of("u_");
    append_str(&mut v, random);
    string_of(&v)
}

/// The default tag of a node: `mieru-<protocol in lowercase>-<port>-<random>`.
pub fn default_tag(protocol: &str, port: u16, random: &str) -> (r: String)
    ensures
        r@ == "mieru-"@ + unicode_lowercase(protocol@) + "-"@ + decimal(port as nat) + "-"@ + random@,
{
    let mut v = chars_of("mieru-");
    append_str(&mut v, to_lowercase(protocol).as_str());
    append_str(&mut v, "-");
    append(&mut v, &decimal_chars(port as u64));
    append_str(&mut v, "-");
    append_str(&mut v, random);
    string_of(&v)
}

/// When a node was created: the current time in seconds, in decimal.
pub fn iso_now() -> (r: String)
    ensures
        exists|t: u64| r@ == decimal(t as nat),
{
    let t = current_timestamp();
    decimal_string(t)
}

/// The SHA-256 digest of a downloaded package in lowercase hexadecimal.
pub fn compute_sha256(data: &[u8]) -> (r: String)
    ensures
        r@ == lower_hex(sha256(data@)),
{
    let d = sha256_digest(data);
    hex_encode(d.as_slice())
}

/// Checks a package's digest against the expected one, both compared in
/// lowercase.
pub fn check_package_digest(actual: &str, expected: &str) -> (r: Result<(), CliError>)
    ensures
        r is Ok <==> unicode_lowercase(actual@) == unicode_lowercase(expected@),
        r matches Err(e) ==> e.message@ == "mita 安装包 SHA256 校验失败：期望 "@ + expected@
            + "，实际 "@ + actual@,
{
    let a = to_lowercase(actual);
    let b = to_lowercase(expected);
    if chars_eq(&chars_of(a.as_str()), &chars_of(b.as_str())) {
        Ok(())
    } else {
        let mut m = chars_of("mita 安装包 SHA256 校验失败：期望 ");
        append_str(&mut m, expected);
        append_str(&mut m, "，实际 ");
        append_str(&mut m, actual);
        Err(CliError::from_message(string_of(&m)))
    }
}

// ---------------------------------------------------------------------------
// Client configuration and nodes
// ---------------------------------------------------------------------------

/// A port with its protocol.
#[derive(Debug)]
pub struct PortBinding {
    pub port: u16,
    pub protocol: String,
}

/// The server entry of a client profile: the address (an IP address or a
/// domain name) and its port bindings.
#[derive(Debug)]
pub struct ClientServer {
    pub ip_address: Option<String>,
    pub domain_name: Option<String>,
    pub port_bindings: Vec<PortBinding>,
}

/// A user name with its password.
#[derive(Debug)]
pub struct ClientUser {
    pub name: String,
    pub password: String,
}

/// A client profile.
#[derive(Debug)]
pub struct ClientProfile {
    pub profile_name: String,
    pub user: ClientUser,
    pub servers: Vec<ClientServer>,
    pub mtu: u32,
    pub multiplexing_level: String,
    pub handshake_mode: String,
}

/// The configuration of a mieru client.
#[derive(Debug)]
pub struct ClientConfig {
    pub profiles: Vec<ClientProfile>,
    pub active_profile: String,
    pub rpc_port: u16,
    pub socks5_port: u16,
    pub logging_level: String,
    pub socks5_listen_lan: bool,
}

/// Whether `c` is the client configuration of a node: one `default`
/// profile with the user, one server reached by IP address (brackets
/// removed) when `host_is_ip`, else by domain name, on `port`/`protocol`;
/// MTU 1400, high multiplexing, the standard handshake, RPC port 8964,
/// SOCKS5 port 1080 on loopback, `INFO` logging.
pub open spec fn is_client_config(
    c: ClientConfig,
    host: Seq<char>,
    port: u16,
    protocol: Seq<char>,
    username: Seq<char>,
    password: Seq<char>,
    host_is_ip: bool,
) -> bool {
    &&& c.profiles@.len() == 1
    &&& c.profiles@[0].profile_name@ == "default"@
    &&& c.profiles@[0].user.name@ == username
    &&& c.profiles@[0].user.password@ == password
    &&& c.profiles@[0].servers@.len() == 1
    &&& host_is_ip ==> (c.profiles@[0].servers@[0].ip_address matches Some(a) && a@ == bare_host(
        host,
    )) && c.profiles@[0].servers@[0].domain_name is None
    &&& !host_is_ip ==> (c.profiles@[0].servers@[0].domain_name matches Some(d) && d@ == host)
        && c.profiles@[0].servers@[0].ip_address is None
    &&& c.profiles@[0].servers@[0].port_bindings@.len() == 1
    &&& c.profiles@[0].servers@[0].port_bindings@[0].port == port
    &&& c.profiles@[0].servers@[0].port_bindings@[0].protocol@ == protocol
    &&& c.profiles@[0].mtu == 1400
    &&& c.profiles@[0].multiplexing_level@ == "MULTIPLEXING_HIGH"@
    &&& c.profiles@[0].handshake_mode@ == "HANDSHAKE_STANDARD"@
    &&& c.active_profile@ == "default"@
    &&& c.rpc_port == 8964
    &&& c.socks5_port == 1080
    &&& c.logging_level@ == "INFO"@
    &&& !c.socks5_listen_lan
}

/// The client configuration of a node (see [`is_client_config`]).
pub fn build_client_config(
    host: &str,
    port: u16,
    protocol: &str,
    username: &str,
    password: &str,
    host_is_ip: bool,
) -> (r: ClientConfig)
    ensures
        is_client_config(r, host@, port, protocol@, username@, password@, host_is_ip),
{
    let mut bindings: Vec<PortBinding> = Vec::new();
    bindings.push(PortBinding { port, protocol: protocol.to_owned() });
    let server = if host_is_ip {
        ClientServer {
            ip_address: Some(strip_ip_brackets(host)),
            domain_name: None,
            port_bindings: bindings,
        }
    } else {
        ClientServer { ip_address: None, domain_name: Some(host.to_owned()), port_bindings: bindings }
    };
    let mut servers: Vec<ClientServer> = Vec::new();
    servers.push(server);
    let profile = ClientProfile {
        profile_name: "default".to_owned(),
        user: ClientUser { name: username.to_owned(), password: password.to_owned() },
        servers,
        mtu: 1400,
        multiplexing_level: "MULTIPLEXING_HIGH".to_owned(),
        handshake_mode: "HANDSHAKE_STANDARD".to_owned(),
    };
    let mut profiles: Vec<ClientProfile> = Vec::new();
    profiles.push(profile);
    ClientConfig {
        profiles,
        active_profile: "default".to_owned(),
        rpc_port: 8964,
        socks5_port: 1080,
        logging_level: "INFO".to_owned(),
        socks5_listen_lan: false,
    }
}

/// A node managed by this tool.
#[derive(Debug)]
pub struct MieruNode {
    pub node_type: String,
    pub tag: String,
    pub host: String,
    pub port: u16,
    pub protocol: String,
    pub username: String,
    pub password: String,
    pub link: String,
    pub client: ClientConfig,
    pub created_at: String,
}

/// A new node with its share link and client configuration.
pub fn new_node(
    tag: &str,
    host: &str,
    port: u16,
    protocol: &str,
    username: &str,
    password: &str,
    host_is_ip: bool,
    created_at: &str,
) -> (r: MieruNode)
    ensures
        r.node_type@ == "mieru"@,
        r.tag@ == tag@,
        r.host@ == host@,
        r.port == port,
        r.protocol@ == protocol@,
        r.username@ == username@,
        r.password@ == password@,
        r.link@ == simple_link(username@, password@, host@, port, protocol@),
        is_client_config(r.client, host@, port, protocol@, username@, password@, host_is_ip),
        r.created_at@ == created_at@,
{
    MieruNode {
        node_type: "mieru".to_owned(),
        tag: tag.to_owned(),
        host: host.to_owned(),
        port,
        protocol: protocol.to_owned(),
        username: username.to_owned(),
        password: password.to_owned(),
        link: build_simple_link(username, password, host, port, protocol),
        client: build_client_config(host, port, protocol, username, password, host_is_ip),
        created_at: created_at.to_owned(),
    }
}

/// Whether an existing node clashes with a new one: the same tag, or the
/// same port with the same protocol.
pub open spec fn clashes(n: MieruNode, tag: Seq<char>, port: u16, protocol: Seq<char>) -> bool {
    n.tag@ == tag || (n.port == port && n.protocol@ == protocol)
}

/// Adds `node` to `nodes` unless a node there clashes with it (see
/// [`clashes`]); then `nodes` is left as it was and an error says so.
pub fn insert_node(nodes: &mut Vec<MieruNode>, node: MieruNode) -> (r: Result<(), CliError>)
    ensures
        r is Err <==> exists|i: int|
            0 <= i < old(nodes)@.len() && clashes(
                #[trigger] old(nodes)@[i],
                node.tag@,
                node.port,
                node.protocol@,
            ),
        r is Ok ==> final(nodes)@ == old(nodes)@.push(node),
        r is Err ==> final(nodes)@ == old(nodes)@,
        r matches Err(e) ==> e.message@ == "该标签或端口/协议组合已存在"@,
{
    let n = nodes.len();
    for i in 0..n
        invariant
            n == nodes@.len(),
            nodes@ == old(nodes)@,
            forall|k: int|
                0 <= k < i ==> !clashes(#[trigger] nodes@[k], node.tag@, node.port, node.protocol@),
    {
        let same_tag = str_eq(nodes[i].tag.as_str(), node.tag.as_str());
        let same_binding = nodes[i].port == node.port && str_eq(
            nodes[i].protocol.as_str(),
            node.protocol.as_str(),
        );
        if same_tag || same_binding {
            return Err(CliError::new("该标签或端口/协议组合已存在"));
        }
    }
    nodes.push(node);
    Ok(())
}

/// No two nodes clash: tags differ, and so do port/protocol pairs.
pub open spec fn no_clashes(nodes: Seq<MieruNode>) -> bool {
    forall|i: int, j: int|
        #![trigger nodes[i], nodes[j]]
        0 <= i < j < nodes.len() ==> !clashes(nodes[i], nodes[j].tag@, nodes[j].port, nodes[j].protocol@)
}

/// Adding a node keeps the node list free of clashes: a node is only added
/// when nothing clashes with it.
pub proof fn lemma_insert_keeps_no_clashes(before: Seq<MieruNode>, node: MieruNode)
    requires
        no_clashes(before),
        !exists|i: int|
            0 <= i < before.len() && clashes(#[trigger] before[i], node.tag@, node.port, node.protocol@),
    ensures
        no_clashes(before.push(node)),
{
    let after = before.push(node);
    assert forall|i: int, j: int| #![trigger after[i], after[j]] 0 <= i < j < after.len() implies !clashes(
        after[i],
        after[j].tag@,
        after[j].port,
        after[j].protocol@,
    ) by {
        assert(after[i] == before[i]);
        if j < before.len() {
            assert(after[j] == before[j]);
        } else {
            assert(after[j] == node);
            assert(!clashes(before[i], node.tag@, node.port, node.protocol@));
        }
    }
}

/// The server configuration that mita applies for the nodes: one port
/// binding and one user per node, `INFO` logging, MTU 1400.
#[derive(Debug)]
pub struct MitaConfig {
    pub port_bindings: Vec<PortBinding>,
    pub users: Vec<ClientUser>,
    pub logging_level: String,
    pub mtu: u32,
}

/// The server configuration for the nodes (see [`MitaConfig`]).
pub fn mita_config(nodes: &[MieruNode]) -> (r: MitaConfig)
    ensures
        r.port_bindings@.len() == nodes@.len(),
        r.users@.len() == nodes@.len(),
        forall|i: int|
            0 <= i < nodes@.len() ==> (#[trigger] r.port_bindings@[i]).port == nodes@[i].port
                && r.port_bindings@[i].protocol@ == nodes@[i].protocol@,
        forall|i: int|
            0 <= i < nodes@.len() ==> (#[trigger] r.users@[i]).name@ == nodes@[i].username@
                && r.users@[i].password@ == nodes@[i].password@,
        r.logging_level@ == "INFO"@,
        r.mtu == 1400,
{
    let mut bindings: Vec<PortBinding> = Vec::new();
    let mut users: Vec<ClientUser> = Vec::new();
    let n = nodes.len();
    for i in 0..n
        invariant
            n == nodes@.len(),
            bindings@.len() == i,
            users@.len() == i,
            forall|k: int|
                0 <= k < i ==> (#[trigger] bindings@[k]).port == nodes@[k].port
                    && bindings@[k].protocol@ == nodes@[k].protocol@,
            forall|k: int|
                0 <= k < i ==> (#[trigger] users@[k]).name@ == nodes@[k].username@
                    && users@[k].password@ == nodes@[k].password@,
    {
        bindings.push(PortBinding { port: nodes[i].port, protocol: nodes[i].protocol.clone() });
        users.push(
            ClientUser { name: nodes[i].username.clone(), password: nodes[i].password.clone() },
        );
    }
    MitaConfig { port_bindings: bindings, users, logging_level: "INFO".to_owned(), mtu: 1400 }
}

/// The entry of the `i`-th node (counted from 1) in the links file.
pub open spec fn link_entry(number: nat, n: MieruNode) -> Seq<char> {
    decimal(number) + ". ["@ + n.tag@ + "] "@ + n.protocol@ + "\n   "@ + n.link@ + "\n"@
}

/// The links file for the first nodes of a list.
pub open spec fn links_text(nodes: Seq<MieruNode>) -> Seq<char>
    decreases nodes.len(),
{
    if nodes.len() == 0 {
        seq![]
    } else {
        links_text(nodes.drop_last()) + link_entry(nodes.len(), nodes.last())
    }
}

/// The links file: for each node, numbered from 1, its tag and protocol,
/// then its share link on an indented line.
pub fn links_file(nodes: &[MieruNode]) -> (r: String)
    requires
        nodes@.len() < u64::MAX,
    ensures
        r@ == links_text(nodes@),
{
    let mut v: Vec<char> = Vec::new();
    let n = nodes.len();
    for i in 0..n
        invariant
            n == nodes@.len(),
            n < u64::MAX,
            v@ == links_text(nodes@.take(i as int)),
    {
        let node = &nodes[i];
        assert(nodes@.take(i + 1).drop_last() =~= nodes@.take(i as int));
        assert(nodes@.take(i + 1).last() == *node);
        append(&mut v, &decimal_chars((i + 1) as u64));
        append_str(&mut v, ". [");
        append_str(&mut v, node.tag.as_str());
        append_str(&mut v, "] ");
        append_str(&mut v, node.protocol.as_str());
        append_str(&mut v, "\n   ");
        append_str(&mut v, node.link.as_str());
        append_str(&mut v, "\n");
    }
    assert(nodes@.take(n as int) =~= nodes@);
    string_of(&v)
}

/// Whether a `--id` selects the node: it names the node's tag, or there is
/// none.
pub open spec fn node_selected(n: MieruNode, id: Option<Seq<char>>) -> bool {
    match id {
        Some(t) => n.tag@ == t,
        None => true,
    }
}

/// The positions of the nodes that a `--id` selects (see [`node_selected`]),
/// in order.
pub fn selected_nodes(nodes: &[MieruNode], id: Option<&str>) -> (r: Vec<usize>)
    ensures
        forall|k: int| 0 <= k < r@.len() ==> (#[trigger] r@[k]) < nodes@.len(),
        forall|a: int, b: int| 0 <= a < b < r@.len() ==> #[trigger] r@[a] < #[trigger] r@[b],
        forall|i: int|
            #![trigger nodes@[i]]
            0 <= i < nodes@.len() ==> (r@.contains(i as usize) <==> node_selected(
                nodes@[i],
                match id {
                    Some(t) => Some(t@),
                    None => None,
                },
            )),
{
    let ghost idv = match id {
        Some(t) => Some(t@),
        None => None,
    };
    let mut out: Vec<usize> = Vec::new();
    let n = nodes.len();
    for i in 0..n
        invariant
            n == nodes@.len(),
            idv == match id {
                Some(t) => Some(t@),
                None => None::<Seq<char>>,
            },
            forall|k: int| 0 <= k < out@.len() ==> (#[trigger] out@[k]) < i,
            forall|a: int, b: int| 0 <= a < b < out@.len() ==> #[trigger] out@[a] < #[trigger] out@[b],
            forall|j: int|
                #![trigger nodes@[j]]
                0 <= j < i ==> (out@.contains(j as usize) <==> node_selected(nodes@[j], idv)),
    {
        let keep = match id {
            Some(t) => str_eq(nodes[i].tag.as_str(), t),
            None => true,
        };
        assert(keep == node_selected(nodes@[i as int], idv));
        let ghost before = out@;
        if keep {
            out.push(i);
        }
        assert forall|j: int| #![trigger nodes@[j]] 0 <= j < i + 1 implies (out@.contains(j as usize)
            <==> node_selected(nodes@[j], idv)) by {
            if out@.contains(j as usize) {
                let k = choose|k: int| 0 <= k < out@.len() && out@[k] == j as usize;
                if k < before.len() {
                    assert(before[k] == j as usize);
                    assert(before.contains(j as usize));
                }
            }
            if j < i && before.contains(j as usize) {
                let k = choose|k: int| 0 <= k < before.len() && before[k] == j as usize;
                assert(out@[k] == j as usize);
            }
            if j == i && keep {
                assert(out@[before.len() as int] == i);
            }
            if j == i && before.contains(j as usize) {
                let k = choose|k: int| 0 <= k < before.len() && before[k] == j as usize;
                assert(before[k] < i);
            }
        }
    }
    out
}

// ---------------------------------------------------------------------------
// Packages, the client helper, status
// ---------------------------------------------------------------------------

/// The mita package for a machine: its file name, download address, and
/// the installer that installs it.
#[derive(Debug)]
pub struct PackageInfo {
    pub package: String,
    pub url: String,
    pub installer: String,
}

/// The package architecture name for a machine architecture (as
/// `std::env::consts::ARCH` names it), or why there is none.
pub open spec fn package_arch(arch: Seq<char>, unsupported: Seq<char>) -> Result<Seq<char>, Seq<char>> {
    if arch == "x86_64"@ || arch == "amd64"@ {
        Ok("amd64"@)
    } else if arch == "aarch64"@ {
        Ok("arm64"@)
    } else {
        Err(unsupported + arch)
    }
}

fn package_arch_of(arch: &str, unsupported: &str) -> (r: Result<String, CliError>)
    ensures
        match r {
            Ok(a) => package_arch(arch@, unsupported@) == Ok::<Seq<char>, Seq<char>>(a@),
            Err(e) => package_arch(arch@, unsupported@) == Err::<Seq<char>, Seq<char>>(e.message@),
        },
{
    if str_eq(arch, "x86_64") || str_eq(arch, "amd64") {
        Ok("amd64".to_owned())
    } else if str_eq(arch, "aarch64") {
        Ok("arm64".to_owned())
    } else {
        let mut m = chars_of(unsupported);
        append_str(&mut m, arch);
        Err(CliError::from_message(string_of(&m)))
    }
}

/// The mita package of `version` for the machine architecture `arch`: a
/// `.deb` where `dpkg` is present, else an `.rpm` where `rpm` is present.
pub fn detect_package_info(version: &str, arch: &str, has_dpkg: bool, has_rpm: bool) -> (r: Result<
    PackageInfo,
    CliError,
>)
    ensures
        match package_arch(arch@, "当前架构暂不支持 mita 安装包："@) {
            Err(m) => r matches Err(e) && e.message@ == m,
            Ok(a) => if has_dpkg {
                r matches Ok(p) && p.package@ == "mita_"@ + version@ + "_"@ + a + ".deb"@
                    && p.url@ == "https://github.com/enfein/mieru/releases/download/v"@ + version@
                    + "/"@ + p.package@ && p.installer@ == "dpkg"@
            } else if has_rpm {
                r matches Ok(p) && p.package@ == "mita-"@ + version@ + "-1."@ + a + ".rpm"@
                    && p.url@ == "https://github.com/enfein/mieru/releases/download/v"@ + version@
                    + "/"@ + p.package@ && p.installer@ == "rpm"@
            } else {
                r matches Err(e) && e.message@ == "未检测到 dpkg 或 rpm，无法安装 mita"@
            },
        },
{
    let a = match package_arch_of(arch, "当前架构暂不支持 mita 安装包：") {
        Ok(a) => a,
        Err(e) => return Err(e),
    };
    let (pkg, installer) = if has_dpkg {
        let mut p = chars_of("mita_");
        append_str(&mut p, version);
        append_str(&mut p, "_");
        append_str(&mut p, a.as_str());
        append_str(&mut p, ".deb");
        (string_of(&p), "dpkg")
    } else if has_rpm {
        let mut p = chars_of("mita-");
        append_str(&mut p, version);
        append_str(&mut p, "-1.");
        append_str(&mut p, a.as_str());
        append_str(&mut p, ".rpm");
        (string_of(&p), "rpm")
    } else {
        return Err(CliError::new("未检测到 dpkg 或 rpm，无法安装 mita"));
    };
    let mut u = chars_of("https://github.com/enfein/mieru/releases/download/v");
    append_str(&mut u, version);
    append_str(&mut u, "/");
    append_str(&mut u, pkg.as_str());
    Ok(PackageInfo { package: pkg, url: string_of(&u), installer: installer.to_owned() })
}

/// The arguments that install a mita package file with its installer.
pub fn install_package_args(installer: &str, package_path: &str) -> (r: Result<Vec<String>, CliError>)
    ensures
        installer@ == "dpkg"@ ==> (r matches Ok(a) && texts(a@) == seq!["-i"@, package_path@]),
        installer@ == "rpm"@ ==> (r matches Ok(a) && texts(a@) == seq!["-Uvh"@, package_path@]),
        installer@ != "dpkg"@ && installer@ != "rpm"@ ==> (r matches Err(e) && e.message@
            == "未知安装器"@),
{
    let flag = if str_eq(installer, "dpkg") {
        assert("dpkg"@ != "rpm"@) by {
            reveal_strlit("dpkg");
            reveal_strlit("rpm");
            assert("dpkg"@.len() != "rpm"@.len());
        }
        "-i"
    } else if str_eq(installer, "rpm") {
        "-Uvh"
    } else {
        return Err(CliError::new("未知安装器"));
    };
    let mut v: Vec<String> = Vec::new();
    v.push(flag.to_owned());
    v.push(package_path.to_owned());
    assert(texts(v@) =~= seq![flag@, package_path@]);
    Ok(v)
}

/// The version of the mieru client used to export standard share links.
pub open spec fn client_helper_version() -> Seq<char> {
    "3.32.0"@
}

/// Where the mieru client helper for the machine `os`/`arch` is cached and
/// downloaded from.
#[derive(Debug)]
pub struct ClientHelper {
    pub cache_dir: String,
    pub binary: String,
    pub archive: String,
    pub url: String,
}

/// The mieru client helper for the machine `os`/`arch`; the architecture
/// is checked first, then that the machine runs Linux.
pub fn client_helper(os: &str, arch: &str) -> (r: Result<ClientHelper, CliError>)
    ensures
        match package_arch(arch@, "当前架构暂不支持导出标准 mieru 分享链接："@) {
            Err(m) => r matches Err(e) && e.message@ == m,
            Ok(a) => if os@ != "linux"@ {
                r matches Err(e) && e.message@ == "当前仅支持在 Linux VPS 上导出标准 mieru 分享链接"@
            } else {
                r matches Ok(h) && h.cache_dir@ == "/tmp/vps-cli-mieru-helper/"@
                    + client_helper_version() + "/"@ + a && h.binary@ == h.cache_dir@ + "/mieru"@
                    && h.archive@ == h.cache_dir@ + "/mieru.tar.gz"@ && h.url@
                    == "https://github.com/enfein/mieru/releases/download/v"@
                    + client_helper_version() + "/mieru_"@ + client_helper_version() + "_linux_"@
                    + a + ".tar.gz"@
            },
        },
{
    let a = match package_arch_of(arch, "当前架构暂不支持导出标准 mieru 分享链接：") {
        Ok(a) => a,
        Err(e) => return Err(e),
    };
    if !str_eq(os, "linux") {
        return Err(CliError::new("当前仅支持在 Linux VPS 上导出标准 mieru 分享链接"));
    }
    let mut dir = chars_of("/tmp/vps-cli-mieru-helper/");
    append_str(&mut dir, "3.32.0");
    append_str(&mut dir, "/");
    append_str(&mut dir, a.as_str());
    let mut bin = dir.clone();
    append_str(&mut bin, "/mieru");
    let mut archive = dir.clone();
    append_str(&mut archive, "/mieru.tar.gz");
    let mut url = chars_of("https://github.com/enfein/mieru/releases/download/v");
    append_str(&mut url, "3.32.0");
    append_str(&mut url, "/mieru_");
    append_str(&mut url, "3.32.0");
    append_str(&mut url, "_linux_");
    append_str(&mut url, a.as_str());
    append_str(&mut url, ".tar.gz");
    Ok(
        ClientHelper {
            cache_dir: string_of(&dir),
            binary: string_of(&bin),
            archive: string_of(&archive),
            url: string_of(&url),
        },
    )
}

/// Checks what `mieru export config` printed: the trimmed output must be a
/// `mieru://` link.
pub fn check_standard_link(output: &str) -> (r: Result<String, CliError>)
    ensures
        starts_with(trim(output@), "mieru://"@) ==> (r matches Ok(l) && l@ == trim(output@)),
        !starts_with(trim(output@), "mieru://"@) ==> (r matches Err(e) && e.message@
            == "导出的标准分享链接格式不正确"@),
{
    let t = trim_chars(&chars_of(output));
    if starts_with_str(&t, "mieru://") {
        Ok(string_of(&t))
    } else {
        Err(CliError::new("导出的标准分享链接格式不正确"))
    }
}

/// What `status` reports: the systemd state (`unknown` when `systemctl`
/// could not run or printed nothing) and what `mita status` printed, with a
/// warning when `mita` could not run.
pub fn mita_status_report(systemd_output: Option<&str>, mita_output: Option<&str>) -> (r: (
    String,
    String,
    OperationReport,
))
    ensures
        r.0@ == match systemd_output {
            Some(o) => if trim(o@).len() > 0 {
                trim(o@)
            } else {
                "unknown"@
            },
            None => "unknown"@,
        },
        r.1@ == match mita_output {
            Some(o) => trim(o@),
            None => seq![],
        },
        texts(r.2.warnings@) == match mita_output {
            Some(_) => seq![],
            None => seq!["未检测到 mita 命令，或无法读取 mita status。"@],
        },
        r.2.changed_files@.len() == 0,
        r.2.backups@.len() == 0,
        r.2.sensitive is None,
        r.2.rolled_back is None,
{
    let service = match systemd_output {
        Some(o) => {
            let t = trim_chars(&chars_of(o));
            if t.len() > 0 {
                string_of(&t)
            } else {
                "unknown".to_owned()
            }
        },
        None => "unknown".to_owned(),
    };
    let mut report = OperationReport::default();
    let client = match mita_output {
        Some(o) => string_of(&trim_chars(&chars_of(o))),
        None => {
            report.warnings.push("未检测到 mita 命令，或无法读取 mita status。".to_owned());
            assert(texts(report.warnings@) =~= seq!["未检测到 mita 命令，或无法读取 mita status。"@]);
            String::new()
        },
    };
    assert(match mita_output {
        Some(_) => texts(report.warnings@) =~= seq![],
        None => true,
    });
    (service, client, report)
}

/// Only `start` and `stop` are actions on mita.
pub fn check_mita_action(action: &str) -> (r: Result<(), CliError>)
    ensures
        r is Ok <==> (action@ == "start"@ || action@ == "stop"@),
        r matches Err(e) ==> e.message@ == "未知操作"@,
{
    if str_eq(action, "start") || str_eq(action, "stop") {
        Ok(())
    } else {
        Err(CliError::new("未知操作"))
    }
}

/// The report after the nodes were written and applied: the three managed
/// files changed, and the backups that were made of the node list and the
/// server configuration.
pub fn apply_report(nodes_backup: &Option<String>, config_backup: &Option<String>) -> (r:
    OperationReport)
    ensures
        texts(r.changed_files@) == seq![
            "/etc/mieru-managed/nodes.json"@,
            "/etc/mieru-managed/links.txt"@,
            "/etc/mieru-managed/mita_config.json"@,
        ],
        r.backups@ == (match nodes_backup {
            Some(b) => seq![*b],
            None => seq![],
        }) + (match config_backup {
            Some(b) => seq![*b],
            None => seq![],
        }),
        r.warnings@.len() == 0,
        r.rolled_back is None,
        r.sensitive is None,
{
    let mut report = OperationReport::default();
    report.changed_files.push("/etc/mieru-managed/nodes.json".to_owned());
    report.changed_files.push("/etc/mieru-managed/links.txt".to_owned());
    report.changed_files.push("/etc/mieru-managed/mita_config.json".to_owned());
    assert(texts(report.changed_files@) =~= seq![
        "/etc/mieru-managed/nodes.json"@,
        "/etc/mieru-managed/links.txt"@,
        "/etc/mieru-managed/mita_config.json"@,
    ]);
    crate::safety::append_backup(&mut report, nodes_backup);
    crate::safety::append_backup(&mut report, config_backup);
    assert(report.backups@ =~= (match nodes_backup {
        Some(b) => seq![*b],
        None => seq![],
    }) + (match config_backup {
        Some(b) => seq![*b],
        None => seq![],
    }));
    report
}


// ---------------------------------------------------------------------------
// What the commands show
// ---------------------------------------------------------------------------

fn push_item(v: &mut Vec<String>, s: &str)
    ensures
        texts(final(v)@) == texts(old(v)@).push(s@),
{
    let ghost before = texts(v@);
    v.push(s.to_owned());
    assert(texts(v@) =~= before.push(s@));
}

fn push_crumb(v: &mut Vec<Breadcrumb>, action: &str, cmd: &str)
    ensures
        crumb_texts(final(v)@) == crumb_texts(old(v)@).push((action@, cmd@)),
{
    let ghost before = crumb_texts(v@);
    v.push(crumb(action, cmd));
    assert(crumb_texts(v@) =~= before.push((action@, cmd@)));
}

/// The command that shows the simple share links.
pub open spec fn simple_links_cmd() -> Seq<char> {
    "vps-cli mieru show-simple-links --show-secrets"@
}

/// The command that shows the standard share links.
pub open spec fn standard_links_cmd() -> Seq<char> {
    "vps-cli mieru show-standard-links --show-secrets"@
}

/// The warning of `add-node --show-secrets`: the links are shown by their
/// own commands.
pub open spec fn split_output_warning() -> Seq<char> {
    "已按独立命令拆分敏感输出；请使用 `show-simple-links` 或 `show-standard-links` 查看链接。"@
}

/// The commands that show a node's secrets.
#[derive(Debug)]
pub struct NextSteps {
    pub show_simple_links: String,
    pub show_standard_links: String,
}

/// What `add-node` reports of the node it added (or would add, in a dry
/// run): never its password, link or client configuration, only where they
/// can be seen.
#[derive(Debug)]
pub struct AddedNode {
    pub tag: String,
    pub protocol: String,
    pub port: u16,
    pub host: String,
    /// The commands that show the secrets; given in a dry run and when the
    /// secrets were asked for.
    pub next_steps: Option<NextSteps>,
    /// The suggested next commands.
    pub next: Vec<Breadcrumb>,
}

/// What `add-node` reports of `node`, and how its report changes: asking for
/// the secrets marks the output sensitive and, once the node was written,
/// warns that the links are shown by their own commands.
pub fn add_node_outcome(node: &MieruNode, dry_run: bool, show_secrets: bool, report: &mut OperationReport) -> (r:
    AddedNode)
    ensures
        r.tag@ == node.tag@,
        r.protocol@ == node.protocol@,
        r.port == node.port,
        r.host@ == node.host@,
        (dry_run || show_secrets) <==> r.next_steps is Some,
        r.next_steps matches Some(n) ==> n.show_simple_links@ == simple_links_cmd()
            && n.show_standard_links@ == standard_links_cmd(),
        dry_run ==> crumb_texts(r.next@) == seq![
            ("执行写入"@, "vps-cli mieru add-node --confirm"@),
            ("查看 simple 链接"@, simple_links_cmd()),
        ],
        !dry_run ==> crumb_texts(r.next@) == seq![
            ("查看节点"@, "vps-cli mieru list-nodes"@),
            ("查看 simple 链接"@, simple_links_cmd()),
            ("查看标准链接"@, standard_links_cmd()),
        ],
        final(report).sensitive == if show_secrets {
            Some(true)
        } else {
            old(report).sensitive
        },
        texts(final(report).warnings@) == texts(old(report).warnings@) + if show_secrets && !dry_run {
            seq![split_output_warning()]
        } else {
            seq![]
        },
        final(report).changed_files == old(report).changed_files,
        final(report).backups == old(report).backups,
        final(report).rolled_back == old(report).rolled_back,
{
    let ghost before = texts(report.warnings@);
    if show_secrets {
        report.sensitive = Some(true);
        if !dry_run {
            push_item(
                &mut report.warnings,
                "已按独立命令拆分敏感输出；请使用 `show-simple-links` 或 `show-standard-links` 查看链接。",
            );
        }
    }
    assert(texts(report.warnings@) =~= before + if show_secrets && !dry_run {
        seq![split_output_warning()]
    } else {
        seq![]
    });
    let next_steps = if dry_run || show_secrets {
        Some(
            NextSteps {
                show_simple_links: "vps-cli mieru show-simple-links --show-secrets".to_owned(),
                show_standard_links: "vps-cli mieru show-standard-links --show-secrets".to_owned(),
            },
        )
    } else {
        None
    };
    let mut next: Vec<Breadcrumb> = Vec::new();
    if dry_run {
        push_crumb(&mut next, "执行写入", "vps-cli mieru add-node --confirm");
        push_crumb(&mut next, "查看 simple 链接", "vps-cli mieru show-simple-links --show-secrets");
    } else {
        push_crumb(&mut next, "查看节点", "vps-cli mieru list-nodes");
        push_crumb(&mut next, "查看 simple 链接", "vps-cli mieru show-simple-links --show-secrets");
        push_crumb(&mut next, "查看标准链接", "vps-cli mieru show-standard-links --show-secrets");
    }
    AddedNode {
        tag: node.tag.clone(),
        protocol: node.protocol.clone(),
        port: node.port,
        host: node.host.clone(),
        next_steps,
        next,
    }
}

/// The commands that can show secrets.
#[derive(Debug, Clone, Copy, PartialEq, Eq, Structural)]
pub enum SecretView {
    /// `show-links`: simple links with client configurations.
    Links,
    /// `show-simple-links`.
    SimpleLinks,
    /// `show-standard-links`.
    StandardLinks,
    /// `show-config`: the server configuration.
    Config,
}

/// The tips of the safe view of a command.
pub open spec fn hidden_tips(kind: SecretView) -> Seq<Seq<char>> {
    match kind {
        SecretView::Links => seq![
            "如需查看 simple 分享链接，请使用 `vps-cli mieru show-simple-links --show-secrets`"@,
            "如需查看标准分享链接，请使用 `vps-cli mieru show-standard-links --show-secrets`"@,
        ],
        SecretView::SimpleLinks => seq!["如需查看 simple 分享链接，请显式传入 --show-secrets"@],
        SecretView::StandardLinks => seq!["如需查看标准分享链接，请显式传入 --show-secrets"@],
        SecretView::Config => seq!["如需查看完整配置，请显式传入 --sensitive"@],
    }
}

/// The suggested next commands of the safe view of a command.
pub open spec fn hidden_crumbs(kind: SecretView) -> Seq<(Seq<char>, Seq<char>)> {
    match kind {
        SecretView::Links => seq![
            ("显示 simple 链接"@, simple_links_cmd()),
            ("显示标准链接"@, standard_links_cmd()),
        ],
        SecretView::SimpleLinks => seq![("显示 simple 链接"@, simple_links_cmd())],
        SecretView::StandardLinks => seq![("显示标准链接"@, standard_links_cmd())],
        SecretView::Config => seq![("查看完整配置"@, "vps-cli mieru show-config --sensitive"@)],
    }
}

/// The warnings of a command that shows secrets.
pub open spec fn shown_warnings(kind: SecretView) -> Seq<Seq<char>> {
    match kind {
        SecretView::Links => seq![
            "当前输出包含敏感凭据，不应贴入公开日志。"@,
            "当前命令是兼容入口，会同时返回 simple 链接和客户端 JSON；如需标准分享链接，请使用 `vps-cli mieru show-standard-links --show-secrets`。"@,
        ],
        SecretView::SimpleLinks => seq!["当前输出包含敏感凭据，不应贴入公开日志。"@],
        SecretView::StandardLinks => seq!["当前输出包含完整标准分享链接，不应贴入公开日志。"@],
        SecretView::Config => seq!["完整配置包含凭据与端口绑定，不应贴入公开日志。"@],
    }
}

/// Whether a command shows its secrets.
#[derive(Debug)]
pub enum SecretGate {
    /// Only the safe view, with tips and next commands on how to see more.
    Hidden { tips: Vec<String>, next: Vec<Breadcrumb> },
    /// The secrets, under a report marked sensitive with its warnings.
    Shown { report: OperationReport },
}

/// Whether a command shows its secrets: only when they were asked for
/// (`--show-secrets`, or `--sensitive` for the configuration), and then the
/// output is marked sensitive with the command's warnings; otherwise the safe
/// view with its tips and next commands.
pub fn secret_gate(kind: SecretView, show: bool) -> (r: SecretGate)
    ensures
        !show ==> (r matches SecretGate::Hidden { tips, next } && texts(tips@) == hidden_tips(kind)
            && crumb_texts(next@) == hidden_crumbs(kind)),
        show ==> (r matches SecretGate::Shown { report } && report.sensitive == Some(true)
            && texts(report.warnings@) == shown_warnings(kind) && report.changed_files@.len() == 0
            && report.backups@.len() == 0 && report.rolled_back is None),
{
    if !show {
        let mut tips: Vec<String> = Vec::new();
        let mut next: Vec<Breadcrumb> = Vec::new();
        match kind {
            SecretView::Links => {
                push_item(
                    &mut tips,
                    "如需查看 simple 分享链接，请使用 `vps-cli mieru show-simple-links --show-secrets`",
                );
                push_item(
                    &mut tips,
                    "如需查看标准分享链接，请使用 `vps-cli mieru show-standard-links --show-secrets`",
                );
                push_crumb(&mut next, "显示 simple 链接", "vps-cli mieru show-simple-links --show-secrets");
                push_crumb(&mut next, "显示标准链接", "vps-cli mieru show-standard-links --show-secrets");
            },
            SecretView::SimpleLinks => {
                push_item(&mut tips, "如需查看 simple 分享链接，请显式传入 --show-secrets");
                push_crumb(&mut next, "显示 simple 链接", "vps-cli mieru show-simple-links --show-secrets");
            },
            SecretView::StandardLinks => {
                push_item(&mut tips, "如需查看标准分享链接，请显式传入 --show-secrets");
                push_crumb(&mut next, "显示标准链接", "vps-cli mieru show-standard-links --show-secrets");
            },
            SecretView::Config => {
                push_item(&mut tips, "如需查看完整配置，请显式传入 --sensitive");
                push_crumb(&mut next, "查看完整配置", "vps-cli mieru show-config --sensitive");
            },
        }
        assert(texts(tips@) =~= hidden_tips(kind));
        assert(crumb_texts(next@) =~= hidden_crumbs(kind));
        return SecretGate::Hidden { tips, next };
    }
    let mut report = OperationReport::default();
    report.sensitive = Some(true);
    match kind {
        SecretView::Links => {
            push_item(&mut report.warnings, "当前输出包含敏感凭据，不应贴入公开日志。");
            push_item(
                &mut report.warnings,
                "当前命令是兼容入口，会同时返回 simple 链接和客户端 JSON；如需标准分享链接，请使用 `vps-cli mieru show-standard-links --show-secrets`。",
            );
        },
        SecretView::SimpleLinks => {
            push_item(&mut report.warnings, "当前输出包含敏感凭据，不应贴入公开日志。");
        },
        SecretView::StandardLinks => {
            push_item(&mut report.warnings, "当前输出包含完整标准分享链接，不应贴入公开日志。");
        },
        SecretView::Config => {
            push_item(&mut report.warnings, "完整配置包含凭据与端口绑定，不应贴入公开日志。");
        },
    }
    assert(texts(report.warnings@) =~= shown_warnings(kind));
    SecretGate::Shown { report }
}

} // verus!
