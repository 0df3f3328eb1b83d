//! Proxy configuration: parsing of proxy URLs and of the system settings that
//! the operating system reports, and the decision of which proxy to use.
//!
//! Three modes are offered: `system` (detect the OS proxy, fall back to a
//! direct connection), `direct` (never use a proxy) and `custom` (a
//! user-supplied `http(s)://` or `socks5://` URL). Reading the system settings
//! (running `scutil`/`reg`, reading environment variables) is left to the
//! caller, which hands the text it read to the functions below.
use vstd::prelude::*;
use crate::text;
use crate::text::{
    append, chars_of, concat, eq, find_at, find_char, format_decimal, lead_ws_len, parse_unsigned,
    rfind_char_at, split_char_at, starts_with_at, string_of, to_lowercase_at, to_vec, trail_ws_len,
    trim_at,
};

verus! {

/// Mathematical model of a proxy endpoint.
pub struct ProxyEndpoint {
    pub scheme: Seq<char>,
    pub host: Seq<char>,
    pub port: u16,
}

/// A parsed proxy endpoint.
#[derive(Debug, Clone, PartialEq, Eq)]
pub struct ProxyConfig {
    pub scheme: String,
    pub host: String,
    pub port: u16,
}

impl View for ProxyConfig {
    type V = ProxyEndpoint;

    open spec fn view(&self) -> ProxyEndpoint {
        ProxyEndpoint { scheme: self.scheme@, host: self.host@, port: self.port }
    }
}

/// `scheme://host:port`
pub open spec fn endpoint_url(e: ProxyEndpoint) -> Seq<char> {
    e.scheme + "://"@ + e.host + ":"@ + text::decimal(e.port as nat)
}

impl ProxyConfig {
    pub fn url(&self) -> (r: String)
        ensures
            r@ == endpoint_url(self@),
    {
        let mut v = chars_of(self.scheme.as_str());
        append(&mut v, &chars_of("://"));
        append(&mut v, &chars_of(self.host.as_str()));
        append(&mut v, &chars_of(":"));
        append(&mut v, &format_decimal(self.port as u64));
        string_of(&v)
    }
}

/// Model of a detection result.
pub struct DetectionView {
    pub proxy: Option<ProxyEndpoint>,
    pub warning: Option<Seq<char>>,
}

/// Result of a system-proxy detection run.
#[derive(Debug, Clone)]
pub struct Detection {
    pub proxy: Option<ProxyConfig>,
    /// Warning code for the UI ("pac_unsupported" | "parse_failed"), or None.
    pub warning: Option<&'static str>,
}

impl View for Detection {
    type V = DetectionView;

    open spec fn view(&self) -> DetectionView {
        DetectionView {
            proxy: match self.proxy {
                Some(p) => Some(p@),
                None => None,
            },
            warning: match self.warning {
                Some(w) => Some(w@),
                None => None,
            },
        }
    }
}

impl Detection {
    /// No proxy and no warning.
    pub fn none() -> (d: Detection)
        ensures
            d@.proxy is None,
            d@.warning is None,
    {
        Detection { proxy: None, warning: None }
    }
}

/// Status reported to the frontend.
/// A proxy endpoint names a host.
pub open spec fn endpoint_valid(e: ProxyEndpoint) -> bool {
    e.host.len() > 0
}

/// A detection result: a proxy that names a host, or one of the warnings
/// `pac_unsupported` and `parse_failed` with no proxy beside it, or nothing.
pub open spec fn detection_valid(d: DetectionView) -> bool {
    &&& d.proxy matches Some(p) ==> endpoint_valid(p)
    &&& d.warning matches Some(w) ==> (w == "pac_unsupported"@ || w == "parse_failed"@) && d.proxy is None
}

pub open spec fn opt_endpoint_valid(p: Option<ProxyEndpoint>) -> bool {
    p matches Some(e) ==> endpoint_valid(e)
}

#[derive(Debug, Clone)]
pub struct ProxyStatus {
    /// "system" | "direct" | "custom"
    pub mode: String,
    /// Effective proxy URL, or None when direct.
    pub url: Option<String>,
    /// Warning code, or None.
    pub warning: Option<String>,
}

// ---------------------------------------------------------------------------
// host:port
// ---------------------------------------------------------------------------

/// Splits a trimmed, non-empty `host:port` or `[ipv6]:port` into the host
/// and port texts.
pub open spec fn host_port_parts(a: Seq<char>) -> Option<(Seq<char>, Seq<char>)> {
    if a.len() > 0 && a[0] == '[' {
        let rest = a.drop_first();
        match text::find(rest, seq![']']) {
            None => None,
            Some(end) => {
                let after = rest.skip(end + 1);
                if after.len() > 0 && after[0] == ':' {
                    Some((rest.take(end), after.drop_first()))
                } else {
                    None
                }
            },
        }
    } else {
        match text::rfind_char(a, ':') {
            None => None,
            Some(idx) => Some((a.take(idx), a.skip(idx + 1))),
        }
    }
}

pub open spec fn spec_split_host_port(addr: Seq<char>) -> Option<(Seq<char>, u16)> {
    let a = text::trim(addr);
    if a.len() == 0 {
        None
    } else {
        match host_port_parts(a) {
            None => None,
            Some((host, port)) => if host.len() == 0 {
                None
            } else {
                match text::parse_bounded(port, 65535) {
                    Some(p) => Some((host, p as u16)),
                    None => None,
                }
            },
        }
    }
}

fn split_host_port_chars(addr: &[char]) -> (r: Option<(Vec<char>, u16)>)
    ensures
        r matches Some((h, p)) ==> spec_split_host_port(addr@) == Some((h@, p)),
        r is None ==> spec_split_host_port(addr@) is None,
{
    let a = trim_at(addr);
    if a.len() == 0 {
        return None;
    }
    let (host, port_str): (&[char], &[char]) = if a[0] == '[' {
        let rest = &a[1..a.len()];
        assert(rest@ == a@.drop_first());
        let end = match find_char(rest, ']') {
            Some(e) => e,
            None => return None,
        };
        let after = &rest[end + 1..rest.len()];
        assert(after@ =~= rest@.skip(end + 1));
        if after.len() > 0 && after[0] == ':' {
            assert(rest@.subrange(0, end as int) =~= rest@.take(end as int));
            assert(after@.subrange(1, after@.len() as int) =~= after@.drop_first());
            (&rest[0..end], &after[1..after.len()])
        } else {
            return None;
        }
    } else {
        let idx = match rfind_char_at(a, ':') {
            Some(i) => i,
            None => return None,
        };
        assert(a@.subrange(0, idx as int) =~= a@.take(idx as int));
        assert(a@.subrange(idx + 1, a@.len() as int) =~= a@.skip(idx + 1));
        (&a[0..idx], &a[idx + 1..a.len()])
    };
    if host.len() == 0 {
        return None;
    }
    match parse_unsigned(port_str, 65535) {
        Some(p) => Some((to_vec(host), p as u16)),
        None => None,
    }
}

/// Split `host:port` into its parts, supporting IPv6 (`[::1]:7890`).
pub fn split_host_port(addr: &str) -> (r: Option<(String, u16)>)
    ensures
        r matches Some((h, p)) ==> spec_split_host_port(addr@) == Some((h@, p)),
        r is None ==> spec_split_host_port(addr@) is None,
{
    match split_host_port_chars(&chars_of(addr)) {
        Some((h, p)) => Some((string_of(&h), p)),
        None => None,
    }
}

/// Formatting a host and a port as `host:port`, or `[host]:port` for an
/// IPv6 host, and splitting the text again gives them back.
pub proof fn law_split_host_port_round_trip(h: Seq<char>, h6: Seq<char>, p: u16)
    requires
        h.len() > 0,
        !text::is_ws(h[0]),
        h[0] != '[',
        h6.len() > 0,
        forall|i: int| 0 <= i < h6.len() ==> h6[i] != ']',
    ensures
        spec_split_host_port(h + ":"@ + text::decimal(p as nat)) == Some((h, p)),
        spec_split_host_port("["@ + h6 + "]:"@ + text::decimal(p as nat)) == Some((h6, p)),
{
    reveal_strlit(":");
    reveal_strlit("[");
    reveal_strlit("]:");
    let d = text::decimal(p as nat);
    text::lemma_decimal_digits(p as nat);
    text::lemma_parse_decimal(p as nat, 65535);
    assert(text::is_ascii_digit(d.last()));

    let a = h + ":"@ + d;
    text::lemma_trim_unchanged(a);
    text::lemma_rfind_char_append(h + ":"@, d, ':');
    assert((h + ":"@).drop_last() =~= h);
    assert(a.take(h.len() as int) =~= h);
    assert(a.skip(h.len() as int + 1) =~= d);

    let b = "["@ + h6 + "]:"@ + d;
    assert(b[0] == '[');
    text::lemma_trim_unchanged(b);
    let rest = b.drop_first();
    assert(rest =~= h6 + "]:"@ + d);
    assert(rest.subrange(h6.len() as int, h6.len() as int + 1) =~= seq![']']);
    assert forall|j: int| 0 <= j < h6.len() implies !text::occurs_at(rest, seq![']'], j) by {
        if text::occurs_at(rest, seq![']'], j) {
            assert(rest.subrange(j, j + 1)[0] == rest[j]);
            assert(rest[j] == h6[j]);
        }
    }
    text::lemma_find_from_some(rest, seq![']'], 0, h6.len() as int);
    assert(rest.take(h6.len() as int) =~= h6);
    assert(rest.skip(h6.len() as int + 1).drop_first() =~= d);
}

// ---------------------------------------------------------------------------
// Proxy URLs
// ---------------------------------------------------------------------------

/// `socks://` is an alias of `socks5://`.
pub open spec fn normalize_scheme(s: Seq<char>) -> Seq<char> {
    if s == "socks"@ {
        "socks5"@
    } else {
        s
    }
}

pub open spec fn spec_parse_proxy_url(value: Seq<char>, default_scheme: Seq<char>) -> Option<
    ProxyEndpoint,
> {
    let v = text::trim(value);
    if v.len() == 0 {
        None
    } else {
        let scheme = match text::find(v, "://"@) {
            Some(idx) => normalize_scheme(text::lowercase(text::trim(v.take(idx)))),
            None => default_scheme,
        };
        let rest = match text::find(v, "://"@) {
            Some(idx) => text::trim(v.skip(idx + 3)),
            None => v,
        };
        match spec_split_host_port(rest) {
            Some((host, port)) => Some(ProxyEndpoint { scheme, host, port }),
            None => None,
        }
    }
}

fn make_config(scheme: &[char], host: &[char], port: u16) -> (c: ProxyConfig)
    ensures
        c@ == (ProxyEndpoint { scheme: scheme@, host: host@, port }),
{
    ProxyConfig { scheme: string_of(scheme), host: string_of(host), port }
}

/// Parse a proxy URL like `http://127.0.0.1:7890`, `socks5://host:1080` or a
/// bare `host:port` (assumed `default_scheme`). `socks://` is normalized to
/// `socks5://`.
pub fn parse_proxy_url(value: &str, default_scheme: &str) -> (r: Option<ProxyConfig>)
    ensures
        r matches Some(c) ==> endpoint_valid(c@),
        r matches Some(c) ==> spec_parse_proxy_url(value@, default_scheme@) == Some(c@),
        r is None ==> spec_parse_proxy_url(value@, default_scheme@) is None,
{
    let all = chars_of(value);
    let v = trim_at(&all);
    if v.len() == 0 {
        return None;
    }
    let sep = chars_of("://");
    let (scheme, rest): (Vec<char>, &[char]) = match find_at(v, &sep) {
        Some(idx) => {
            proof {
                reveal_strlit("://");
                text::lemma_find_from_props(v@, sep@, 0);
            }
            let raw = to_lowercase_at(trim_at(&v[0..idx]));
            assert(v@.subrange(0, idx as int) =~= v@.take(idx as int));
            let socks = chars_of("socks");
            let scheme = if eq(&raw, &socks) {
                chars_of("socks5")
            } else {
                raw
            };
            assert(v@.subrange(idx + 3, v@.len() as int) =~= v@.skip(idx + 3));
            (scheme, trim_at(&v[idx + 3..v.len()]))
        },
        None => (chars_of(default_scheme), v),
    };
    match split_host_port_chars(rest) {
        Some((host, port)) => Some(make_config(&scheme, &host, port)),
        None => None,
    }
}

/// A character a URL scheme may hold: lower-case ASCII letters, digits,
/// `+`, `-` and `.`.
pub open spec fn scheme_char(c: char) -> bool {
    ('a' <= c && c <= 'z') || ('0' <= c && c <= '9') || c == '+' || c == '-' || c == '.'
}

/// A proxy written as a URL (`ProxyConfig::url`) parses back to itself,
/// whatever the default scheme, when its scheme is made of scheme
/// characters and is not the `socks` alias, and its host does not start
/// with white space or `[`. The parser lower-cases the scheme with
/// `str::to_lowercase`, which leaves such a scheme unchanged (ASCII text is
/// mapped character by character, see `to_lowercase_at`); that is the last
/// premise.
pub proof fn law_parse_proxy_url_round_trip(e: ProxyEndpoint, default_scheme: Seq<char>)
    requires
        e.scheme.len() > 0,
        forall|i: int| 0 <= i < e.scheme.len() ==> scheme_char(#[trigger] e.scheme[i]),
        e.scheme != "socks"@,
        text::lowercase(e.scheme) == e.scheme,
        e.host.len() > 0,
        !text::is_ws(e.host[0]),
        e.host[0] != '[',
    ensures
        spec_parse_proxy_url(endpoint_url(e), default_scheme) == Some(e),
{
    reveal_strlit("://");
    reveal_strlit(":");
    let sep = "://"@;
    let d = text::decimal(e.port as nat);
    text::lemma_decimal_digits(e.port as nat);
    assert(text::is_ascii_digit(d.last()));
    let hp = e.host + ":"@ + d;
    let u = endpoint_url(e);
    assert(u =~= e.scheme + sep + hp);
    assert(u[0] == e.scheme[0]);
    assert(u.last() == d.last());
    text::lemma_trim_unchanged(u);
    let n = e.scheme.len() as int;
    assert(u.subrange(n, n + 3) =~= sep);
    assert forall|j: int| 0 <= j < n implies !text::occurs_at(u, sep, j) by {
        if text::occurs_at(u, sep, j) {
            assert(u.subrange(j, j + 3)[0] == u[j]);
            assert(u[j] == e.scheme[j]);
            assert(scheme_char(e.scheme[j]));
        }
    }
    text::lemma_find_from_some(u, sep, 0, n);
    assert(u.take(n) =~= e.scheme);
    assert(e.scheme[0] == e.scheme[0] && scheme_char(e.scheme[n - 1]));
    text::lemma_trim_unchanged(e.scheme);
    assert(u.skip(n + 3) =~= hp);
    assert(hp[0] == e.host[0]);
    assert(hp.last() == d.last());
    text::lemma_trim_unchanged(hp);
    law_split_host_port_round_trip(e.host, seq!['a'], e.port);
}

/// Parse a `host:port` (or `[ipv6]:port`) pair with an assumed scheme.
pub open spec fn spec_parse_addr(addr: Seq<char>, scheme: Seq<char>) -> Option<ProxyEndpoint> {
    match spec_split_host_port(addr) {
        Some((host, port)) => Some(ProxyEndpoint { scheme, host, port }),
        None => None,
    }
}

fn parse_addr_chars(addr: &[char], scheme: &[char]) -> (r: Option<ProxyConfig>)
    ensures
        r matches Some(c) ==> spec_parse_addr(addr@, scheme@) == Some(c@),
        r is None ==> spec_parse_addr(addr@, scheme@) is None,
{
    match split_host_port_chars(addr) {
        Some((host, port)) => Some(make_config(scheme, &host, port)),
        None => None,
    }
}

/// Parse a `host:port` (or `[ipv6]:port`) pair with an assumed scheme.
pub fn parse_addr(addr: &str, scheme: &str) -> (r: Option<ProxyConfig>)
    ensures
        r matches Some(c) ==> endpoint_valid(c@),
        r matches Some(c) ==> spec_parse_addr(addr@, scheme@) == Some(c@),
        r is None ==> spec_parse_addr(addr@, scheme@) is None,
{
    parse_addr_chars(&chars_of(addr), &chars_of(scheme))
}

/// Every address that `first_for_proto` picks names a host.
proof fn lemma_first_for_proto_valid(
    entries: Seq<(Option<Seq<char>>, Seq<char>)>,
    proto: Option<Seq<char>>,
    scheme: Seq<char>,
)
    ensures
        opt_endpoint_valid(first_for_proto(entries, proto, scheme)),
    decreases entries.len(),
{
    if entries.len() > 0 {
        lemma_first_for_proto_valid(entries.drop_first(), proto, scheme);
    }
}

/// Every proxy that a `ProxyServer` value gives names a host.
pub proof fn lemma_proxy_server_valid(server: Seq<char>)
    ensures
        opt_endpoint_valid(spec_parse_proxy_server(server)),
{
    let s = text::trim(server);
    if s.len() > 0 {
        let e = server_entries(text::split_char(s, ';'));
        lemma_first_for_proto_valid(e, Some("https"@), "https"@);
        lemma_first_for_proto_valid(e, Some("http"@), "http"@);
        lemma_first_for_proto_valid(e, Some("socks"@), "socks5"@);
        lemma_first_for_proto_valid(e, None, "http"@);
    }
}

// ---------------------------------------------------------------------------
// WinINET `ProxyServer` values
// ---------------------------------------------------------------------------

/// One `;`-separated entry of a `ProxyServer` value: an optional protocol
/// (lower-cased) and an address.
pub open spec fn server_entry(part: Seq<char>) -> (Option<Seq<char>>, Seq<char>) {
    match text::find(part, seq!['=']) {
        Some(eq) => (Some(text::lowercase(text::trim(part.take(eq)))), text::trim(part.skip(eq + 1))),
        None => (None, part),
    }
}

/// The entries of the parts, skipping blank parts.
pub open spec fn server_entries(parts: Seq<Seq<char>>) -> Seq<(Option<Seq<char>>, Seq<char>)>
    decreases parts.len(),
{
    if parts.len() == 0 {
        seq![]
    } else {
        let p = text::trim(parts[0]);
        let rest = server_entries(parts.drop_first());
        if p.len() == 0 {
            rest
        } else {
            seq![server_entry(p)] + rest
        }
    }
}

/// The first entry for protocol `proto` whose address parses.
pub open spec fn first_for_proto(
    entries: Seq<(Option<Seq<char>>, Seq<char>)>,
    proto: Option<Seq<char>>,
    scheme: Seq<char>,
) -> Option<ProxyEndpoint>
    decreases entries.len(),
{
    if entries.len() == 0 {
        None
    } else if entries[0].0 == proto && spec_parse_addr(entries[0].1, scheme) is Some {
        spec_parse_addr(entries[0].1, scheme)
    } else {
        first_for_proto(entries.drop_first(), proto, scheme)
    }
}

/// `https` entries first, then `http`, then `socks` (as `socks5`), then a
/// bare `host:port` (as `http`).
pub open spec fn spec_parse_proxy_server(server: Seq<char>) -> Option<ProxyEndpoint> {
    let s = text::trim(server);
    if s.len() == 0 {
        None
    } else {
        let e = server_entries(text::split_char(s, ';'));
        let https = first_for_proto(e, Some("https"@), "https"@);
        let http = first_for_proto(e, Some("http"@), "http"@);
        let socks = first_for_proto(e, Some("socks"@), "socks5"@);
        let bare = first_for_proto(e, None, "http"@);
        if https is Some {
            https
        } else if http is Some {
            http
        } else if socks is Some {
            socks
        } else {
            bare
        }
    }
}

struct ServerEntry {
    proto: Option<Vec<char>>,
    addr: Vec<char>,
}

spec fn entry_view(e: ServerEntry) -> (Option<Seq<char>>, Seq<char>) {
    (
        match e.proto {
            Some(p) => Some(p@),
            None => None,
        },
        e.addr@,
    )
}

fn build_entries(parts: &Vec<Vec<char>>) -> (r: Vec<ServerEntry>)
    ensures
        r@.len() == server_entries(parts@.map_values(|p: Vec<char>| p@)).len(),
        forall|k: int|
            0 <= k < r@.len() ==> entry_view(#[trigger] r@[k]) == server_entries(
                parts@.map_values(|p: Vec<char>| p@),
            )[k],
{
    let ghost all = parts@.map_values(|p: Vec<char>| p@);
    let mut out: Vec<ServerEntry> = Vec::new();
    let mut i: usize = parts.len();
    // Built from the back so that each step prepends one entry.
    let ghost mut acc: Seq<(Option<Seq<char>>, Seq<char>)> = seq![];
    assert(all.skip(i as int) =~= seq![]);
    while i > 0
        invariant
            i <= parts.len(),
            all == parts@.map_values(|p: Vec<char>| p@),
            acc == server_entries(all.skip(i as int)),
            out@.len() == acc.len(),
            forall|k: int| 0 <= k < out@.len() ==> entry_view(#[trigger] out@[k]) == acc[acc.len() - 1 - k],
        decreases i,
    {
        i -= 1;
        let part = trim_at(&parts[i]);
        proof {
            assert(all.skip(i as int).drop_first() =~= all.skip(i + 1));
            assert(all.skip(i as int)[0] == parts@[i as int]@);
        }
        if part.len() > 0 {
            let entry = match find_char(part, '=') {
                Some(eq) => {
                    let proto = to_lowercase_at(trim_at(&part[0..eq]));
                    let addr = to_vec(trim_at(&part[eq + 1..part.len()]));
                    proof {
                        assert(part@.subrange(0, eq as int) =~= part@.take(eq as int));
                        assert(part@.subrange(eq + 1, part@.len() as int) =~= part@.skip(eq + 1));
                    }
                    ServerEntry { proto: Some(proto), addr }
                },
                None => ServerEntry { proto: None, addr: to_vec(part) },
            };
            assert(entry_view(entry) == server_entry(part@));
            out.push(entry);
            proof {
                let old_acc = acc;
                acc = seq![server_entry(part@)] + old_acc;
                assert forall|k: int| 0 <= k < out@.len() implies entry_view(#[trigger] out@[k])
                    == acc[acc.len() - 1 - k] by {
                    if k < out@.len() - 1 {
                        assert(acc[acc.len() - 1 - k] == old_acc[old_acc.len() - 1 - k]);
                    }
                }
            }
        }
    }
    // Reverse into front-to-back order.
    let mut r: Vec<ServerEntry> = Vec::new();
    let mut j: usize = out.len();
    assert(all.skip(0) =~= all);
    while j > 0
        invariant
            j <= out@.len(),
            out@.len() == acc.len(),
            acc == server_entries(all),
            all == parts@.map_values(|p: Vec<char>| p@),
            forall|k: int| 0 <= k < out@.len() ==> entry_view(#[trigger] out@[k]) == acc[acc.len() - 1 - k],
            r@.len() == out@.len() - j,
            forall|k: int| 0 <= k < r@.len() ==> entry_view(#[trigger] r@[k]) == acc[k],
        decreases j,
    {
        j -= 1;
        let e = ServerEntry {
            proto: match &out[j].proto {
                Some(p) => Some(to_vec(p)),
                None => None,
            },
            addr: to_vec(&out[j].addr),
        };
        assert(entry_view(e) == entry_view(out@[j as int]));
        r.push(e);
    }
    r
}

fn first_for_proto_exec(entries: &Vec<ServerEntry>, proto: Option<&[char]>, scheme: &[char]) -> (r:
    Option<ProxyConfig>)
    ensures
        ({
            let ev = entries@.map_values(|e: ServerEntry| entry_view(e));
            let pv = match proto {
                Some(p) => Some(p@),
                None => None,
            };
            &&& r matches Some(c) ==> first_for_proto(ev, pv, scheme@) == Some(c@)
            &&& r is None ==> first_for_proto(ev, pv, scheme@) is None
        }),
{
    let ghost ev = entries@.map_values(|e: ServerEntry| entry_view(e));
    let ghost pv = match proto {
        Some(p) => Some(p@),
        None => None::<Seq<char>>,
    };
    let mut i: usize = 0;
    assert(ev.skip(0) =~= ev);
    while i < entries.len()
        invariant
            i <= entries.len(),
            ev == entries@.map_values(|e: ServerEntry| entry_view(e)),
            pv == (match proto {
                Some(p) => Some(p@),
                None => None::<Seq<char>>,
            }),
            first_for_proto(ev, pv, scheme@) == first_for_proto(ev.skip(i as int), pv, scheme@),
        decreases entries.len() - i,
    {
        proof {
            assert(ev.skip(i as int).drop_first() =~= ev.skip(i + 1));
            assert(ev.skip(i as int)[0] == entry_view(entries@[i as int]));
        }
        let e = &entries[i];
        let same = match (&e.proto, proto) {
            (Some(a), Some(b)) => eq(a, b),
            (None, None) => true,
            _ => false,
        };
        assert(same == (entry_view(*e).0 == pv));
        if same {
            if let Some(c) = parse_addr_chars(&e.addr, scheme) {
                return Some(c);
            }
        }
        i += 1;
    }
    None
}

/// Parse a WinINET `ProxyServer` value: a bare `host:port`, or a per-protocol
/// list such as `http=host:p;https=host:p;socks=host:p`.
pub fn parse_proxy_server(server: &str) -> (r: Option<ProxyConfig>)
    ensures
        r matches Some(c) ==> endpoint_valid(c@),
        r matches Some(c) ==> spec_parse_proxy_server(server@) == Some(c@),
        r is None ==> spec_parse_proxy_server(server@) is None,
{
    proof {
        lemma_proxy_server_valid(server@);
    }
    let all = chars_of(server);
    let s = trim_at(&all);
    if s.len() == 0 {
        return None;
    }
    let parts = split_char_at(s, ';');
    proof {
        assert(parts@.map_values(|p: Vec<char>| p@) =~= text::split_char(s@, ';'));
    }
    let entries = build_entries(&parts);
    proof {
        assert(entries@.map_values(|e: ServerEntry| entry_view(e)) =~= server_entries(
            text::split_char(s@, ';'),
        ));
    }
    let https = chars_of("https");
    let http = chars_of("http");
    let socks = chars_of("socks");
    let socks5 = chars_of("socks5");
    if let Some(c) = first_for_proto_exec(&entries, Some(https.as_slice()), &https) {
        return Some(c);
    }
    if let Some(c) = first_for_proto_exec(&entries, Some(http.as_slice()), &http) {
        return Some(c);
    }
    if let Some(c) = first_for_proto_exec(&entries, Some(socks.as_slice()), &socks5) {
        return Some(c);
    }
    first_for_proto_exec(&entries, None, &http)
}

// ---------------------------------------------------------------------------
// `scutil --proxy` output (macOS)
// ---------------------------------------------------------------------------

/// The value of `key : value` in `scutil --proxy` output: the rest of the
/// line after the first `"<key> : "`, trimmed; None when absent or blank.
pub open spec fn spec_kv(text: Seq<char>, key: Seq<char>) -> Option<Seq<char>> {
    let marker = key + " : "@;
    match text::find(text, marker) {
        None => None,
        Some(idx) => {
            let rest = text.skip(idx + marker.len());
            let line = match text::find(rest, seq!['\n']) {
                Some(e) => rest.take(e),
                None => rest,
            };
            let val = text::trim(line);
            if val.len() == 0 {
                None
            } else {
                Some(val)
            }
        },
    }
}

/// Extract `key : value` from `scutil --proxy` output.
pub fn kv<'a>(text: &'a str, key: &str) -> (r: Option<&'a str>)
    ensures
        r matches Some(v) ==> spec_kv(text@, key@) == Some(v@),
        r is None ==> spec_kv(text@, key@) is None,
{
    let t = chars_of(text);
    let marker = concat(&chars_of(key), &chars_of(" : "));
    let idx = match find_at(&t, &marker) {
        Some(i) => i,
        None => return None,
    };
    proof {
        text::lemma_find_from_props(t@, marker@, 0);
        assert(text::occurs_at(t@, marker@, idx as int));
        assert(idx + marker@.len() <= t@.len());
    }
    let tl = t.len();
    let ml = marker.len();
    assert(idx + ml <= tl);
    let start = idx + ml;
    let rest = &t[start..t.len()];
    let end = match find_char(rest, '\n') {
        Some(e) => e,
        None => rest.len(),
    };
    let line = &rest[0..end];
    let a = lead_ws_len(line);
    let tail = &line[a..line.len()];
    let b = trail_ws_len(tail);
    proof {
        assert(rest@ =~= t@.skip(start as int));
        if end < rest@.len() {
            assert(line@ =~= rest@.take(end as int));
        } else {
            assert(line@ =~= rest@);
        }
        assert(tail@ =~= line@.skip(a as int));
    }
    if b == tail.len() {
        assert(text::trim(line@) =~= Seq::<char>::empty());
        return None;
    }
    let v = text.substring_char(start + a, start + end - b);
    proof {
        assert(v@ =~= text::trim(line@));
    }
    Some(v)
}

pub open spec fn kv_is_one(text: Seq<char>, key: Seq<char>) -> bool {
    spec_kv(text, key) == Some("1"@)
}

/// A static proxy of one kind, when enabled with a host and a valid port.
pub open spec fn scutil_entry(
    text: Seq<char>,
    enable: Seq<char>,
    host_key: Seq<char>,
    port_key: Seq<char>,
    scheme: Seq<char>,
) -> Option<ProxyEndpoint> {
    if kv_is_one(text, enable) {
        match (spec_kv(text, host_key), spec_kv(text, port_key)) {
            (Some(h), Some(p)) => match text::parse_bounded(p, 65535) {
                Some(n) => Some(ProxyEndpoint { scheme, host: h, port: n as u16 }),
                None => None,
            },
            _ => None,
        }
    } else {
        None
    }
}

/// A PAC configuration without a static proxy is reported as
/// `pac_unsupported`; otherwise the first enabled static proxy among HTTP,
/// HTTPS and SOCKS (as `socks5`) is used.
pub open spec fn spec_scutil_detection(text: Seq<char>) -> Option<DetectionView> {
    let has_static = kv_is_one(text, "HTTPEnable"@) || kv_is_one(text, "HTTPSEnable"@) || kv_is_one(
        text,
        "SOCKSEnable"@,
    );
    let http = scutil_entry(text, "HTTPEnable"@, "HTTPProxy"@, "HTTPPort"@, "http"@);
    let https = scutil_entry(text, "HTTPSEnable"@, "HTTPSProxy"@, "HTTPSPort"@, "https"@);
    let socks = scutil_entry(text, "SOCKSEnable"@, "SOCKSProxy"@, "SOCKSPort"@, "socks5"@);
    if kv_is_one(text, "ProxyAutoConfigEnable"@) && !has_static {
        Some(DetectionView { proxy: None, warning: Some("pac_unsupported"@) })
    } else if http is Some {
        Some(DetectionView { proxy: http, warning: None })
    } else if https is Some {
        Some(DetectionView { proxy: https, warning: None })
    } else if socks is Some {
        Some(DetectionView { proxy: socks, warning: None })
    } else {
        None
    }
}

/// `scutil` reports a static proxy of one kind: enabled (`1`), with a
/// host and a port number that fits in 16 bits.
pub open spec fn scutil_reports(text: Seq<char>, enable: Seq<char>, host_key: Seq<char>, port_key: Seq<char>, host: Seq<char>, port: u16) -> bool {
    &&& spec_kv(text, enable) == Some("1"@)
    &&& spec_kv(text, host_key) == Some(host)
    &&& exists|p: Seq<char>| spec_kv(text, port_key) == Some(p) && text::parse_bounded(p, 65535) == Some(port as nat)
}

/// Every enabled static proxy is detected, HTTP before HTTPS before SOCKS
/// (as `socks5`): when `scutil` reports one, the detection names the
/// first one reported, with its host and port.
pub proof fn law_scutil_static_proxy_detected(text: Seq<char>, host: Seq<char>, port: u16)
    ensures
        scutil_reports(text, "HTTPEnable"@, "HTTPProxy"@, "HTTPPort"@, host, port) ==> spec_scutil_detection(text)
            == Some(DetectionView { proxy: Some(ProxyEndpoint { scheme: "http"@, host, port }), warning: None }),
        (!exists|h: Seq<char>, p: u16| scutil_reports(text, "HTTPEnable"@, "HTTPProxy"@, "HTTPPort"@, h, p))
            && scutil_reports(text, "HTTPSEnable"@, "HTTPSProxy"@, "HTTPSPort"@, host, port) ==> spec_scutil_detection(text)
            == Some(DetectionView { proxy: Some(ProxyEndpoint { scheme: "https"@, host, port }), warning: None }),
        (!exists|h: Seq<char>, p: u16| scutil_reports(text, "HTTPEnable"@, "HTTPProxy"@, "HTTPPort"@, h, p))
            && (!exists|h: Seq<char>, p: u16| scutil_reports(text, "HTTPSEnable"@, "HTTPSProxy"@, "HTTPSPort"@, h, p))
            && scutil_reports(text, "SOCKSEnable"@, "SOCKSProxy"@, "SOCKSPort"@, host, port) ==> spec_scutil_detection(text)
            == Some(DetectionView { proxy: Some(ProxyEndpoint { scheme: "socks5"@, host, port }), warning: None }),
{
    lemma_scutil_entry_reports(text, "HTTPEnable"@, "HTTPProxy"@, "HTTPPort"@, "http"@);
    lemma_scutil_entry_reports(text, "HTTPSEnable"@, "HTTPSProxy"@, "HTTPSPort"@, "https"@);
    lemma_scutil_entry_reports(text, "SOCKSEnable"@, "SOCKSProxy"@, "SOCKSPort"@, "socks5"@);
}

/// `scutil_entry` names exactly the proxy `scutil` reports.
proof fn lemma_scutil_entry_reports(text: Seq<char>, enable: Seq<char>, host_key: Seq<char>, port_key: Seq<char>, scheme: Seq<char>)
    ensures
        forall|h: Seq<char>, p: u16| #[trigger] scutil_reports(text, enable, host_key, port_key, h, p) ==> scutil_entry(
            text,
            enable,
            host_key,
            port_key,
            scheme,
        ) == Some(ProxyEndpoint { scheme, host: h, port: p }),
        scutil_entry(text, enable, host_key, port_key, scheme) matches Some(e) ==> scutil_reports(
            text,
            enable,
            host_key,
            port_key,
            e.host,
            e.port,
        ) && e.scheme == scheme,
{
    assert forall|h: Seq<char>, p: u16| #[trigger] scutil_reports(text, enable, host_key, port_key, h, p) implies scutil_entry(
        text,
        enable,
        host_key,
        port_key,
        scheme,
    ) == Some(ProxyEndpoint { scheme, host: h, port: p }) by {
        let ps = choose|ps: Seq<char>| spec_kv(text, port_key) == Some(ps) && text::parse_bounded(ps, 65535) == Some(p as nat);
        assert((p as nat) as u16 == p);
    }
    if let Some(e) = scutil_entry(text, enable, host_key, port_key, scheme) {
        let ps = spec_kv(text, port_key)->0;
        let n = text::parse_bounded(ps, 65535)->0;
        assert(n <= 65535);
        assert((n as u16) as nat == n);
        assert(spec_kv(text, port_key) == Some(ps) && text::parse_bounded(ps, 65535) == Some(e.port as nat));
    }
}

fn is_one(v: Option<&str>) -> (r: bool)
    ensures
        r == (v matches Some(x) && x@ == "1"@),
{
    match v {
        Some(x) => eq(&chars_of(x), &chars_of("1")),
        None => false,
    }
}

fn scutil_entry_exec(text: &str, enable: &str, host_key: &str, port_key: &str, scheme: &str) -> (r:
    Option<ProxyConfig>)
    ensures
        r matches Some(c) ==> scutil_entry(text@, enable@, host_key@, port_key@, scheme@) == Some(
            c@,
        ),
        r is None ==> scutil_entry(text@, enable@, host_key@, port_key@, scheme@) is None,
{
    if !is_one(kv(text, enable)) {
        return None;
    }
    match (kv(text, host_key), kv(text, port_key)) {
        (Some(h), Some(p)) => match parse_unsigned(&chars_of(p), 65535) {
            Some(n) => Some(make_config(&chars_of(scheme), &chars_of(h), n as u16)),
            None => None,
        },
        _ => None,
    }
}

/// The detection that `scutil --proxy` output describes (macOS); None when
/// it describes neither a PAC setup nor an enabled static proxy.
pub fn detection_from_scutil(text: &str) -> (r: Option<Detection>)
    ensures
        r matches Some(d) ==> detection_valid(d@),
        r matches Some(d) ==> spec_scutil_detection(text@) == Some(d@),
        r is None ==> spec_scutil_detection(text@) is None,
{
    let has_static = is_one(kv(text, "HTTPEnable")) || is_one(kv(text, "HTTPSEnable")) || is_one(
        kv(text, "SOCKSEnable"),
    );
    if is_one(kv(text, "ProxyAutoConfigEnable")) && !has_static {
        return Some(Detection { proxy: None, warning: Some("pac_unsupported") });
    }
    if let Some(c) = scutil_entry_exec(text, "HTTPEnable", "HTTPProxy", "HTTPPort", "http") {
        return Some(Detection { proxy: Some(c), warning: None });
    }
    if let Some(c) = scutil_entry_exec(text, "HTTPSEnable", "HTTPSProxy", "HTTPSPort", "https") {
        return Some(Detection { proxy: Some(c), warning: None });
    }
    if let Some(c) = scutil_entry_exec(text, "SOCKSEnable", "SOCKSProxy", "SOCKSPort", "socks5") {
        return Some(Detection { proxy: Some(c), warning: None });
    }
    None
}

// ---------------------------------------------------------------------------
// Windows registry
// ---------------------------------------------------------------------------

/// The registry settings describe a proxy only when `ProxyEnable` is `0x1`
/// and a `ProxyServer` value is present; an unparsable value is reported as
/// `parse_failed`.
pub open spec fn spec_windows_detection(enable: Option<Seq<char>>, server: Option<Seq<char>>) -> Option<
    DetectionView,
> {
    match enable {
        None => None,
        Some(e) => if text::trim(e) != "0x1"@ {
            None
        } else {
            match server {
                None => None,
                Some(s) => match spec_parse_proxy_server(s) {
                    Some(p) => Some(DetectionView { proxy: Some(p), warning: None }),
                    None => Some(DetectionView { proxy: None, warning: Some("parse_failed"@) }),
                },
            }
        },
    }
}

pub open spec fn opt_view(o: Option<&str>) -> Option<Seq<char>> {
    match o {
        Some(s) => Some(s@),
        None => None,
    }
}

/// Windows: the decision taken from the WinINET registry values
/// `ProxyEnable` and `ProxyServer` (as `reg query` printed them).
pub fn detect_windows_registry(enable: Option<&str>, server: Option<&str>) -> (r: Option<Detection>)
    ensures
        r matches Some(d) ==> detection_valid(d@),
        r matches Some(d) ==> spec_windows_detection(opt_view(enable), opt_view(server)) == Some(
            d@,
        ),
        r is None ==> spec_windows_detection(opt_view(enable), opt_view(server)) is None,
{
    let e = match enable {
        Some(e) => e,
        None => return None,
    };
    let e_chars = chars_of(e);
    if !eq(trim_at(&e_chars), &chars_of("0x1")) {
        return None;
    }
    let s = match server {
        Some(s) => s,
        None => return None,
    };
    match parse_proxy_server(s) {
        Some(p) => Some(Detection { proxy: Some(p), warning: None }),
        None => Some(Detection { proxy: None, warning: Some("parse_failed") }),
    }
}

/// The words of `s`, as `str::split_whitespace` yields them.
pub open spec fn words(s: Seq<char>) -> Seq<Seq<char>>
    decreases s.len(),
{
    let t = text::trim_start(s);
    if t.len() == 0 {
        seq![]
    } else {
        let w = text::lead_run(t, |c: char| !text::is_ws(c));
        proof {
            text::lemma_lead_run_facts(s, text::ws_pred());
            text::lemma_lead_run_facts(t, |c: char| !text::is_ws(c));
        }
        if w == 0 {
            seq![]
        } else {
            seq![t.take(w as int)] + words(t.skip(w as int))
        }
    }
}

/// The value that `reg query <key> /v <value>` printed: the third word of
/// the first line that starts with `value` (after trimming) and has three
/// words.
pub open spec fn spec_reg_query_value(output: Seq<char>, value: Seq<char>) -> Option<Seq<char>> {
    first_reg_value(text::lines(output), value)
}

pub open spec fn first_reg_value(lines: Seq<Seq<char>>, value: Seq<char>) -> Option<Seq<char>>
    decreases lines.len(),
{
    if lines.len() == 0 {
        None
    } else {
        let t = text::trim(lines[0]);
        if text::starts_with(t, value) && words(t).len() >= 3 {
            Some(words(t)[2])
        } else {
            first_reg_value(lines.drop_first(), value)
        }
    }
}

proof fn lemma_words_nonempty(t: Seq<char>)
    requires
        t.len() > 0,
        !text::is_ws(t[0]),
    ensures
        text::lead_run(t, |c: char| !text::is_ws(c)) > 0,
{
}

/// The first three words of `s`, as many as there are.
fn first_words(s: &[char]) -> (r: Vec<Vec<char>>)
    ensures
        r@.len() == if words(s@).len() < 3 { words(s@).len() } else { 3 },
        forall|k: int| 0 <= k < r@.len() ==> #[trigger] r@[k]@ == words(s@)[k],
{
    let mut out: Vec<Vec<char>> = Vec::new();
    let mut rest: &[char] = s;
    let ghost mut done: Seq<Seq<char>> = seq![];
    while out.len() < 3
        invariant
            out@.len() == done.len(),
            out@.len() <= 3,
            forall|k: int| 0 <= k < out@.len() ==> #[trigger] out@[k]@ == done[k],
            words(s@) == done + words(rest@),
        ensures
            out@.len() == done.len(),
            out@.len() <= 3,
            forall|k: int| 0 <= k < out@.len() ==> #[trigger] out@[k]@ == done[k],
            words(s@) == done + words(rest@),
            out@.len() == 3 || words(rest@).len() == 0,
        decreases rest@.len(),
    {
        let a = lead_ws_len(rest);
        let t = &rest[a..rest.len()];
        assert(t@ == text::trim_start(rest@));
        if t.len() == 0 {
            assert(words(rest@) =~= Seq::<Seq<char>>::empty());
            assert(done + words(rest@) =~= done);
            break;
        }
        let mut w: usize = 0;
        while w < t.len() && !crate::text::is_whitespace(t[w])
            invariant
                w <= t.len(),
                forall|j: int| 0 <= j < w ==> !text::is_ws(#[trigger] t@[j]),
            decreases t.len() - w,
        {
            w += 1;
        }
        proof {
            text::lemma_lead_run(t@, |c: char| !text::is_ws(c), w as int);
            text::lemma_lead_run_facts(rest@, text::ws_pred());
            lemma_words_nonempty(t@);
        }
        out.push(to_vec(&t[0..w]));
        proof {
            assert(t@.subrange(0, w as int) =~= t@.take(w as int));
            assert(t@.subrange(w as int, t@.len() as int) =~= t@.skip(w as int));
            let old_done = done;
            done = done.push(t@.take(w as int));
            assert(old_done + (seq![t@.take(w as int)] + words(t@.skip(w as int))) =~= done + words(
                t@.skip(w as int),
            ));
        }
        rest = &t[w..t.len()];
    }
    proof {
        if out@.len() == 3 {
            assert(words(s@).len() >= 3);
            assert forall|k: int| 0 <= k < 3 implies #[trigger] words(s@)[k] == done[k] by {
                assert((done + words(rest@))[k] == done[k]);
            }
        } else {
            assert(words(s@) =~= done);
        }
    }
    out
}

/// The value printed by `reg query <key> /v <value>` (its output given as
/// text).
pub fn reg_query_value(output: &str, value: &str) -> (r: Option<String>)
    ensures
        r matches Some(v) ==> spec_reg_query_value(output@, value@) == Some(v@),
        r is None ==> spec_reg_query_value(output@, value@) is None,
{
    let o = chars_of(output);
    let v = chars_of(value);
    let ls = crate::text::lines_at(&o);
    let ghost all = ls@.map_values(|l: Vec<char>| l@);
    proof {
        assert(all =~= text::lines(o@));
        assert(all.skip(0) =~= all);
    }
    let mut i: usize = 0;
    while i < ls.len()
        invariant
            i <= ls.len(),
            all == ls@.map_values(|l: Vec<char>| l@),
            spec_reg_query_value(output@, value@) == first_reg_value(all.skip(i as int), value@),
            v@ == value@,
        decreases ls.len() - i,
    {
        proof {
            assert(all.skip(i as int).drop_first() =~= all.skip(i + 1));
            assert(all.skip(i as int)[0] == ls@[i as int]@);
        }
        let t = trim_at(&ls[i]);
        if starts_with_at(t, &v) {
            let ws = first_words(t);
            if ws.len() >= 3 {
                return Some(string_of(&ws[2]));
            }
        }
        i += 1;
    }
    None
}

// ---------------------------------------------------------------------------
// Environment variables and the `sysproxy` fallback
// ---------------------------------------------------------------------------

/// The first of the variables, in the order `HTTPS_PROXY`, `https_proxy`,
/// `HTTP_PROXY`, `http_proxy`, `ALL_PROXY`, `all_proxy`, that holds a
/// parsable proxy; `HTTPS_*` assume `https`, the others `http`.
pub open spec fn spec_env_proxy(vars: Seq<(Option<Seq<char>>, Seq<char>)>) -> Option<ProxyEndpoint>
    decreases vars.len(),
{
    if vars.len() == 0 {
        None
    } else {
        match vars[0].0 {
            Some(v) => match spec_parse_proxy_url(v, vars[0].1) {
                Some(p) => Some(p),
                None => spec_env_proxy(vars.drop_first()),
            },
            None => spec_env_proxy(vars.drop_first()),
        }
    }
}

pub open spec fn env_vars_view(
    https_upper: Option<&str>,
    https_lower: Option<&str>,
    http_upper: Option<&str>,
    http_lower: Option<&str>,
    all_upper: Option<&str>,
    all_lower: Option<&str>,
) -> Seq<(Option<Seq<char>>, Seq<char>)> {
    seq![
        (opt_view(https_upper), "https"@),
        (opt_view(https_lower), "https"@),
        (opt_view(http_upper), "http"@),
        (opt_view(http_lower), "http"@),
        (opt_view(all_upper), "http"@),
        (opt_view(all_lower), "http"@),
    ]
}

/// Whether entry `j` of the variables holds a proxy that parses.
pub open spec fn env_parsable_at(vars: Seq<(Option<Seq<char>>, Seq<char>)>, j: int) -> bool {
    vars[j].0 matches Some(v) && spec_parse_proxy_url(v, vars[j].1) is Some
}

/// The environment gives the first variable that holds a parsable proxy,
/// read with that variable's scheme; nothing when none does.
pub proof fn law_env_first_parsable(vars: Seq<(Option<Seq<char>>, Seq<char>)>, k: int)
    ensures
        0 <= k < vars.len() && env_parsable_at(vars, k) && (forall|j: int|
            0 <= j < k ==> !#[trigger] env_parsable_at(vars, j)) ==> spec_env_proxy(vars)
            == spec_parse_proxy_url(vars[k].0->0, vars[k].1),
        (forall|j: int| 0 <= j < vars.len() ==> !#[trigger] env_parsable_at(vars, j))
            ==> spec_env_proxy(vars) is None,
    decreases vars.len(),
{
    if vars.len() > 0 {
        let r = vars.drop_first();
        law_env_first_parsable(r, k - 1);
        if 0 < k < vars.len() && env_parsable_at(vars, k) && (forall|j: int|
            0 <= j < k ==> !#[trigger] env_parsable_at(vars, j)) {
            assert(r[k - 1] == vars[k]);
            assert(env_parsable_at(r, k - 1));
            assert(!env_parsable_at(vars, 0));
            assert forall|j: int| 0 <= j < k - 1 implies !#[trigger] env_parsable_at(r, j) by {
                assert(r[j] == vars[j + 1]);
                assert(!env_parsable_at(vars, j + 1));
            }
        }
        if forall|j: int| 0 <= j < vars.len() ==> !#[trigger] env_parsable_at(vars, j) {
            assert(!env_parsable_at(vars, 0));
            assert forall|j: int| 0 <= j < r.len() implies !#[trigger] env_parsable_at(r, j) by {
                assert(r[j] == vars[j + 1]);
                assert(!env_parsable_at(vars, j + 1));
            }
        }
    }
}

/// `HTTPS_PROXY` comes first and is read as `https`; `all_proxy` comes
/// last and is read as `http`.
pub proof fn law_env_variable_order(
    https_upper: Option<&str>,
    https_lower: Option<&str>,
    http_upper: Option<&str>,
    http_lower: Option<&str>,
    all_upper: Option<&str>,
    all_lower: Option<&str>,
)
    ensures
        https_upper matches Some(v) && spec_parse_proxy_url(v@, "https"@) is Some ==> spec_env_proxy(
            env_vars_view(https_upper, https_lower, http_upper, http_lower, all_upper, all_lower),
        ) == spec_parse_proxy_url(https_upper->0@, "https"@),
        https_upper is None && https_lower is None && http_upper is None && http_lower is None && all_upper is None
            ==> spec_env_proxy(env_vars_view(https_upper, https_lower, http_upper, http_lower, all_upper, all_lower)) == match all_lower {
            Some(v) => spec_parse_proxy_url(v@, "http"@),
            None => None,
        },
{
    let vars = env_vars_view(https_upper, https_lower, http_upper, http_lower, all_upper, all_lower);
    law_env_first_parsable(vars, 0);
    if https_upper is None && https_lower is None && http_upper is None && http_lower is None && all_upper is None {
        law_env_first_parsable(vars, 5);
    }
}

fn env_try(v: Option<&str>, scheme: &str) -> (r: Option<ProxyConfig>)
    ensures
        r matches Some(c) ==> (opt_view(v) matches Some(x) && spec_parse_proxy_url(x, scheme@)
            == Some(c@)),
        r is None ==> (opt_view(v) matches Some(x) ==> spec_parse_proxy_url(x, scheme@) is None),
{
    match v {
        Some(x) => parse_proxy_url(x, scheme),
        None => None,
    }
}

/// `HTTP(S)_PROXY` / `ALL_PROXY` environment variables (their values given).
pub fn detect_from_env(
    https_upper: Option<&str>,
    https_lower: Option<&str>,
    http_upper: Option<&str>,
    http_lower: Option<&str>,
    all_upper: Option<&str>,
    all_lower: Option<&str>,
) -> (r: Option<ProxyConfig>)
    ensures
        ({
            let vars = env_vars_view(
                https_upper,
                https_lower,
                http_upper,
                http_lower,
                all_upper,
                all_lower,
            );
            &&& r matches Some(c) ==> spec_env_proxy(vars) == Some(c@)
            &&& r is None ==> spec_env_proxy(vars) is None
        }),
        r matches Some(c) ==> endpoint_valid(c@),
{
    let ghost vars = env_vars_view(https_upper, https_lower, http_upper, http_lower, all_upper, all_lower);
    proof {
        reveal_with_fuel(spec_env_proxy, 7);
        assert(vars.drop_first() =~= vars.subrange(1, 6));
        assert(vars.subrange(1, 6).drop_first() =~= vars.subrange(2, 6));
        assert(vars.subrange(2, 6).drop_first() =~= vars.subrange(3, 6));
        assert(vars.subrange(3, 6).drop_first() =~= vars.subrange(4, 6));
        assert(vars.subrange(4, 6).drop_first() =~= vars.subrange(5, 6));
        assert(vars.subrange(5, 6).drop_first() =~= Seq::<(Option<Seq<char>>, Seq<char>)>::empty());
    }
    if let Some(c) = env_try(https_upper, "https") {
        return Some(c);
    }
    if let Some(c) = env_try(https_lower, "https") {
        return Some(c);
    }
    if let Some(c) = env_try(http_upper, "http") {
        return Some(c);
    }
    if let Some(c) = env_try(http_lower, "http") {
        return Some(c);
    }
    if let Some(c) = env_try(all_upper, "http") {
        return Some(c);
    }
    env_try(all_lower, "http")
}

/// What the `sysproxy` crate reported, taken as an HTTP proxy when enabled
/// with a host and a non-zero port.
pub fn proxy_from_sysproxy(enable: bool, host: &str, port: u16) -> (r: Option<ProxyConfig>)
    ensures
        r matches Some(c) ==> (enable && host@.len() > 0 && port != 0 && c@ == (ProxyEndpoint {
            scheme: "http"@,
            host: host@,
            port,
        })),
        r is None ==> !(enable && host@.len() > 0 && port != 0),
{
    let h = chars_of(host);
    if !enable || h.len() == 0 || port == 0 {
        return None;
    }
    Some(make_config(&chars_of("http"), &h, port))
}

/// The OS-specific detection first, then the environment, then the
/// `sysproxy` fallback; no proxy otherwise.
pub fn detect_system_proxy(
    platform: Option<Detection>,
    env: Option<ProxyConfig>,
    sysproxy: Option<ProxyConfig>,
) -> (d: Detection)
    ensures
        platform matches Some(p) ==> d@ == p@,
        platform is None && env is Some ==> d@ == (DetectionView {
            proxy: Some(env->0@),
            warning: None,
        }),
        platform is None && env is None && sysproxy is Some ==> d@ == (DetectionView {
            proxy: Some(sysproxy->0@),
            warning: None,
        }),
        platform is None && env is None && sysproxy is None ==> d@.proxy is None
            && d@.warning is None,
        (platform matches Some(p) ==> detection_valid(p@)) && (env matches Some(e) ==> endpoint_valid(e@))
            && (sysproxy matches Some(x) ==> endpoint_valid(x@)) ==> detection_valid(d@),
{
    if let Some(p) = platform {
        return p;
    }
    if let Some(e) = env {
        return Detection { proxy: Some(e), warning: None };
    }
    if let Some(s) = sysproxy {
        return Detection { proxy: Some(s), warning: None };
    }
    Detection::none()
}

// ---------------------------------------------------------------------------
// Applying the user's choice
// ---------------------------------------------------------------------------

/// The warning reported when the HTTP client refused a proxy URL.
pub fn proxy_rejection_warning(cfg: &ProxyConfig, error: &str) -> (w: String)
    ensures
        text::starts_with(cfg.scheme@, "socks"@) ==> w@ == "socks_unsupported"@,
        !text::starts_with(cfg.scheme@, "socks"@) ==> w@ == "invalid_proxy: "@ + error@,
{
    if starts_with_at(&chars_of(cfg.scheme.as_str()), &chars_of("socks")) {
        "socks_unsupported".to_string()
    } else {
        string_of(&concat(&chars_of("invalid_proxy: "), &chars_of(error)))
    }
}

/// Proxy settings submitted from the Settings page.
#[derive(Debug, Clone)]
pub struct ProxySettings {
    /// "system" | "direct" | "custom"
    pub mode: String,
    pub custom_proxy: Option<String>,
}

/// What applying the settings requires.
#[derive(Debug, Clone)]
pub enum ProxyPlan {
    /// No proxy.
    Direct,
    /// The user's proxy.
    Custom(ProxyConfig),
    /// Detect the system proxy.
    System,
}

/// The plan for the submitted settings, or the error shown to the user.
pub fn plan_proxy_settings(settings: &ProxySettings) -> (r: Result<ProxyPlan, String>)
    ensures
        settings.mode@ == "direct"@ ==> r matches Ok(ProxyPlan::Direct),
        settings.mode@ == "system"@ ==> r matches Ok(ProxyPlan::System),
        settings.mode@ == "custom"@ ==> ({
            let raw = text::trim(
                match settings.custom_proxy {
                    Some(c) => c@,
                    None => Seq::<char>::empty(),
                },
            );
            &&& raw.len() == 0 ==> (r matches Err(e) && e@ == "自定义代理地址不能为空"@)
            &&& (raw.len() > 0 && spec_parse_proxy_url(raw, "http"@) is None) ==> (r matches Err(e)
                && e@ == "无法解析自定义代理地址: "@ + raw)
            &&& raw.len() > 0 ==> (spec_parse_proxy_url(raw, "http"@) matches Some(p) ==> (
            r matches Ok(ProxyPlan::Custom(c)) && c@ == p))
        }),
        (settings.mode@ != "direct"@ && settings.mode@ != "system"@ && settings.mode@
            != "custom"@) ==> (r matches Err(e) && e@ == "未知的代理模式: "@ + settings.mode@),
{
    proof {
        reveal_strlit("direct");
        reveal_strlit("custom");
        reveal_strlit("system");
        assert("system"@[0] != "custom"@[0]);
        assert("system"@[0] != "direct"@[0]);
        assert("custom"@[0] != "direct"@[0]);
    }
    let mode = chars_of(settings.mode.as_str());
    if eq(&mode, &chars_of("direct")) {
        Ok(ProxyPlan::Direct)
    } else if eq(&mode, &chars_of("custom")) {
        let raw_all = match &settings.custom_proxy {
            Some(c) => chars_of(c.as_str()),
            None => Vec::new(),
        };
        let raw = trim_at(&raw_all);
        if raw.len() == 0 {
            return Err("自定义代理地址不能为空".to_string());
        }
        let raw_s = string_of(raw);
        match parse_proxy_url(raw_s.as_str(), "http") {
            Some(cfg) => Ok(ProxyPlan::Custom(cfg)),
            None => Err(string_of(&concat(&chars_of("无法解析自定义代理地址: "), raw))),
        }
    } else if eq(&mode, &chars_of("system")) {
        Ok(ProxyPlan::System)
    } else {
        Err(string_of(&concat(&chars_of("未知的代理模式: "), &mode)))
    }
}

/// The status after applying settings: the detection's warning first, then
/// the one from building the client.
pub fn applied_proxy_status(
    mode: &str,
    cfg: Option<&ProxyConfig>,
    warning: Option<String>,
    build_warning: Option<String>,
) -> (s: ProxyStatus)
    ensures
        s.mode@ == mode@,
        cfg matches Some(c) ==> s.url matches Some(u) && u@ == endpoint_url(c@),
        cfg is None ==> s.url is None,
        s.warning == (if warning is Some {
            warning
        } else {
            build_warning
        }),
{
    ProxyStatus {
        mode: mode.to_string(),
        url: match cfg {
            Some(c) => Some(c.url()),
            None => None,
        },
        warning: if warning.is_some() {
            warning
        } else {
            build_warning
        },
    }
}

/// The status at start-up (mode `system`): the client's warning first, then
/// the detection's.
pub fn startup_proxy_status(detection: &Detection, build_warning: Option<String>) -> (s: ProxyStatus)
    ensures
        s.mode@ == "system"@,
        detection.proxy matches Some(c) ==> s.url matches Some(u) && u@ == endpoint_url(c@),
        detection.proxy is None ==> s.url is None,
        build_warning is Some ==> s.warning == build_warning,
        build_warning is None ==> (detection.warning matches Some(w) ==> (s.warning matches Some(
            x) && x@ == w@)),
        build_warning is None && detection.warning is None ==> s.warning is None,
{
    ProxyStatus {
        mode: "system".to_string(),
        url: match &detection.proxy {
            Some(c) => Some(c.url()),
            None => None,
        },
        warning: if build_warning.is_some() {
            build_warning
        } else {
            match detection.warning {
                Some(w) => Some(w.to_string()),
                None => None,
            }
        },
    }
}

/// The last applied status, or `system` without URL or warning before the
/// first apply.
pub fn get_proxy_status(current: Option<ProxyStatus>) -> (s: ProxyStatus)
    ensures
        current matches Some(c) ==> s == c,
        current is None ==> s.mode@ == "system"@ && s.url is None && s.warning is None,
{
    match current {
        Some(c) => c,
        None => ProxyStatus { mode: "system".to_string(), url: None, warning: None },
    }
}

} // verus!
