//! Discovery of the local Syncthing installation: where its config lives, what
//! API key to use, and which URL its GUI is listening on.

use vstd::prelude::*;
use vstd::string::*;
use crate::text::{contains_char, is_prefix, is_ws, join_path, owned, path_join, spec_trim, starts_with, str_eq, trim};
use crate::places;

verus! {

/// Everything needed to talk to the local Syncthing REST API.
#[derive(Debug, Clone)]
pub struct SyncthingConfig {
    pub base_url: String,
    pub api_key: String,
    /// Syncthing's GUI certificate is self-signed, so TLS verification has to be
    /// waived. Only ever true for loopback addresses.
    pub insecure_tls: bool,
}

/// Index of the last occurrence of `c` in `s`.
pub open spec fn last_index_of(s: Seq<char>, c: char) -> Option<int>
    decreases s.len(),
{
    if s.len() == 0 {
        None
    } else if s.last() == c {
        Some(s.len() - 1)
    } else {
        last_index_of(s.drop_last(), c)
    }
}

pub open spec fn is_ascii_digit(c: char) -> bool {
    48 <= (c as u32) <= 57
}

pub open spec fn all_ascii_digits(s: Seq<char>) -> bool {
    forall|i: int| 0 <= i < s.len() ==> is_ascii_digit(#[trigger] s[i])
}

pub open spec fn is_bracket(c: char) -> bool {
    c == '[' || c == ']'
}

pub open spec fn strip_start_brackets(s: Seq<char>) -> Seq<char>
    decreases s.len(),
{
    if s.len() > 0 && is_bracket(s[0]) {
        strip_start_brackets(s.drop_first())
    } else {
        s
    }
}

pub open spec fn strip_end_brackets(s: Seq<char>) -> Seq<char>
    decreases s.len(),
{
    if s.len() > 0 && is_bracket(s.last()) {
        strip_end_brackets(s.drop_last())
    } else {
        s
    }
}

/// `s` with `[` and `]` removed from both ends.
pub open spec fn strip_brackets(s: Seq<char>) -> Seq<char> {
    strip_end_brackets(strip_start_brackets(s))
}

/// The address split into host and port on its last colon, when what follows
/// that colon is a non-empty run of digits; otherwise the whole address with
/// the default port.
pub open spec fn split_host_port(addr: Seq<char>) -> (Seq<char>, Seq<char>) {
    match last_index_of(addr, ':') {
        Some(k) => {
            let p = addr.subrange(k + 1, addr.len() as int);
            if p.len() > 0 && all_ascii_digits(p) {
                (addr.subrange(0, k), p)
            } else {
                (addr, "8384"@)
            }
        },
        None => (addr, "8384"@),
    }
}

/// A host that is a wildcard bind address collapses to loopback.
pub open spec fn connectable_host(host: Seq<char>) -> Seq<char> {
    if host.len() == 0 || host == "0.0.0.0"@ || host == "::"@ {
        "127.0.0.1"@
    } else {
        host
    }
}

pub open spec fn scheme(tls: bool) -> Seq<char> {
    if tls {
        "https"@
    } else {
        "http"@
    }
}

/// The URL for a Syncthing GUI listen address.
pub open spec fn spec_normalise_url(address: Seq<char>, tls: bool) -> Seq<char> {
    let addr = spec_trim(address);
    if addr.len() == 0 {
        scheme(tls) + "://127.0.0.1:8384"@
    } else {
        let (h, port) = split_host_port(addr);
        let host = connectable_host(strip_brackets(h));
        if host.contains(':') {
            scheme(tls) + "://["@ + host + "]:"@ + port
        } else {
            scheme(tls) + "://"@ + host + seq![':'] + port
        }
    }
}

/// The host a listen address connects to, as its URL names it: wildcards
/// and an empty address collapse to loopback.
pub open spec fn listen_host(address: Seq<char>) -> Seq<char> {
    let addr = spec_trim(address);
    if addr.len() == 0 {
        "127.0.0.1"@
    } else {
        connectable_host(strip_brackets(split_host_port(addr).0))
    }
}

/// Index of the first occurrence of `c` in `s`.
pub open spec fn first_index_of(s: Seq<char>, c: char) -> Option<int>
    decreases s.len(),
{
    if s.len() == 0 {
        None
    } else if s[0] == c {
        Some(0)
    } else {
        match first_index_of(s.drop_first(), c) {
            Some(i) => Some(i + 1),
            None => None,
        }
    }
}

/// The authority of a URL whose scheme has been taken off: everything up to
/// the first `/`.
pub open spec fn url_authority(rest: Seq<char>) -> Seq<char> {
    match first_index_of(rest, '/') {
        Some(k) => rest.take(k),
        None => rest,
    }
}

/// The host an `https://` URL names: its authority without a numeric port,
/// and without the brackets of an IPv6 literal.
pub open spec fn https_url_host(url: Seq<char>) -> Seq<char> {
    strip_brackets(split_host_port(url_authority(url.skip(8))).0)
}

/// The loopback hosts: `127.0.0.1`, `::1` and `localhost`.
pub open spec fn is_loopback_host(host: Seq<char>) -> bool {
    host == "127.0.0.1"@ || host == "::1"@ || host == "localhost"@
}

/// Whether the GUI certificate check may be waived for `url`. Syncthing's
/// certificate is self-signed, and over a loopback connection there is
/// nothing meaningful to verify it against; so the check is waived only for
/// an `https://` URL whose host is loopback, and kept for every other host.
pub open spec fn may_waive_tls(url: Seq<char>) -> bool {
    is_prefix("https://"@, url) && is_loopback_host(https_url_host(url))
}

proof fn lemma_strip_start(s: Seq<char>, i: int)
    requires
        0 <= i <= s.len(),
        forall|k: int| 0 <= k < i ==> is_bracket(#[trigger] s[k]),
        i == s.len() || !is_bracket(s[i]),
    ensures
        strip_start_brackets(s) == s.skip(i),
    decreases i,
{
    if i == 0 {
        assert(s.skip(0) =~= s);
    } else {
        let t = s.drop_first();
        assert forall|k: int| 0 <= k < i - 1 implies is_bracket(#[trigger] t[k]) by {
            assert(t[k] == s[k + 1]);
        }
        lemma_strip_start(t, i - 1);
        assert(t.skip(i - 1) =~= s.skip(i));
    }
}

proof fn lemma_strip_end(s: Seq<char>, j: int)
    requires
        0 <= j <= s.len(),
        forall|k: int| j <= k < s.len() ==> is_bracket(#[trigger] s[k]),
        j == 0 || !is_bracket(s[j - 1]),
    ensures
        strip_end_brackets(s) == s.take(j),
    decreases s.len() - j,
{
    if j == s.len() {
        assert(s.take(j) =~= s);
    } else {
        let t = s.drop_last();
        assert forall|k: int| j <= k < t.len() implies is_bracket(#[trigger] t[k]) by {
            assert(t[k] == s[k]);
        }
        lemma_strip_end(t, j);
        assert(t.take(j) =~= s.take(j));
    }
}

/// `s` with `[` and `]` removed from both ends.
fn trim_brackets(s: &str) -> (r: &str)
    ensures
        r@ == strip_brackets(s@),
{
    let n = s.unicode_len();
    let mut i: usize = 0;
    while i < n
        invariant
            n == s@.len(),
            i <= n,
            forall|k: int| 0 <= k < i ==> is_bracket(#[trigger] s@[k]),
        ensures
            i <= n,
            forall|k: int| 0 <= k < i ==> is_bracket(#[trigger] s@[k]),
            i == n || !is_bracket(s@[i as int]),
        decreases n - i,
    {
        let c = s.get_char(i);
        if !(c == '[' || c == ']') {
            break;
        }
        i += 1;
    }
    let mut j: usize = n;
    while j > i
        invariant
            n == s@.len(),
            i <= j <= n,
            forall|k: int| j <= k < n ==> is_bracket(#[trigger] s@[k]),
        ensures
            i <= j <= n,
            forall|k: int| j <= k < n ==> is_bracket(#[trigger] s@[k]),
            j == i || !is_bracket(s@[j - 1]),
        decreases j,
    {
        let c = s.get_char(j - 1);
        if !(c == '[' || c == ']') {
            break;
        }
        j -= 1;
    }
    proof {
        lemma_strip_start(s@, i as int);
        let t = s@.skip(i as int);
        assert forall|k: int| j - i <= k < t.len() implies is_bracket(#[trigger] t[k]) by {
            assert(t[k] == s@[k + i]);
        }
        if j > i {
            assert(t[j - i - 1] == s@[j - 1]);
        }
        lemma_strip_end(t, j - i);
        assert(t.take(j - i) =~= s@.subrange(i as int, j as int));
    }
    s.substring_char(i, j)
}

/// Index of the last `c` in `s`.
fn find_last(s: &str, c: char) -> (r: Option<usize>)
    ensures
        r matches Some(k) ==> last_index_of(s@, c) == Some(k as int) && k < s@.len(),
        r is None ==> last_index_of(s@, c) is None,
{
    let n = s.unicode_len();
    let mut j: usize = n;
    assert(s@.take(n as int) =~= s@);
    while j > 0
        invariant
            n == s@.len(),
            j <= n,
            last_index_of(s@, c) == last_index_of(s@.take(j as int), c),
        decreases j,
    {
        assert(s@.take(j as int).last() == s@[j - 1]);
        if s.get_char(j - 1) == c {
            return Some(j - 1);
        }
        assert(s@.take(j as int).drop_last() =~= s@.take(j - 1));
        j -= 1;
    }
    None
}

fn all_digits(s: &str) -> (r: bool)
    ensures
        r == all_ascii_digits(s@),
{
    let n = s.unicode_len();
    let mut i: usize = 0;
    while i < n
        invariant
            n == s@.len(),
            i <= n,
            forall|k: int| 0 <= k < i ==> is_ascii_digit(#[trigger] s@[k]),
        decreases n - i,
    {
        let x = s.get_char(i) as u32;
        if !(48 <= x && x <= 57) {
            assert(!is_ascii_digit(s@[i as int]));
            return false;
        }
        i += 1;
    }
    true
}

/// Index of the first `c` in `s`.
fn find_first(s: &str, c: char) -> (r: Option<usize>)
    ensures
        r matches Some(k) ==> first_index_of(s@, c) == Some(k as int) && k < s@.len(),
        r is None ==> first_index_of(s@, c) is None,
{
    let n = s.unicode_len();
    let mut i: usize = 0;
    assert(s@.skip(0) =~= s@);
    while i < n
        invariant
            n == s@.len(),
            i <= n,
            first_index_of(s@, c) == match first_index_of(s@.skip(i as int), c) {
                Some(j) => Some(j + i),
                None => None,
            },
        decreases n - i,
    {
        assert(s@.skip(i as int)[0] == s@[i as int]);
        if s.get_char(i) == c {
            return Some(i);
        }
        assert(s@.skip(i as int).drop_first() =~= s@.skip(i + 1));
        i += 1;
    }
    None
}

/// Splits an address into host and port on its last colon, when a numeric
/// port follows it; otherwise the whole address with the default port.
fn split_host_port_of(addr: &str) -> (r: (&str, &str))
    ensures
        (r.0@, r.1@) == split_host_port(addr@),
{
    let n = addr.unicode_len();
    match find_last(addr, ':') {
        Some(k) => {
            let p = addr.substring_char(k + 1, n);
            if p.unicode_len() > 0 && all_digits(p) {
                (addr.substring_char(0, k), p)
            } else {
                (addr, "8384")
            }
        },
        None => (addr, "8384"),
    }
}

/// Whether the GUI certificate check may be waived for `url`: only for an
/// `https://` URL to a loopback host.
pub fn waives_certificate_check(url: &str) -> (r: bool)
    ensures
        r == may_waive_tls(url@),
{
    if !starts_with(url, "https://") {
        return false;
    }
    proof {
        reveal_strlit("https://");
    }
    let n = url.unicode_len();
    let rest = url.substring_char(8, n);
    assert(rest@ =~= url@.skip(8));
    let authority = match find_first(rest, '/') {
        Some(k) => rest.substring_char(0, k),
        None => rest,
    };
    assert(authority@ =~= url_authority(url@.skip(8)));
    let (host, _port) = split_host_port_of(authority);
    let host = trim_brackets(host);
    str_eq(host, "127.0.0.1") || str_eq(host, "::1") || str_eq(host, "localhost")
}

/// Turn a Syncthing listen address into a URL we can actually connect to.
///
/// The config stores a bind address, which may be a wildcard such as `0.0.0.0:8384`
/// or `:8384`. Those are not connectable, so they collapse to loopback.
pub fn normalise_url(address: &str, tls: bool) -> (r: String)
    ensures
        r@ == spec_normalise_url(address@, tls),
{
    let scheme_str = if tls {
        "https"
    } else {
        "http"
    };
    let addr = trim(address);
    let n = addr.unicode_len();
    if n == 0 {
        let mut out = owned(scheme_str);
        out.append("://127.0.0.1:8384");
        return out;
    }
    // Split host from port on the last colon so IPv6 literals survive.
    let (host, port) = split_host_port_of(addr);
    let host = trim_brackets(host);
    let host = if host.unicode_len() == 0 || str_eq(host, "0.0.0.0") || str_eq(host, "::") {
        "127.0.0.1"
    } else {
        host
    };
    let mut out = owned(scheme_str);
    if contains_char(host, ':') {
        out.append("://[");
        out.append(host);
        out.append("]:");
        out.append(port);
    } else {
        out.append("://");
        out.append(host);
        out.push(':');
        out.append(port);
    }
    out
}

/// Whatever the address, the URL uses the scheme that `tls` selects.
pub proof fn law_url_scheme_follows_tls(address: Seq<char>, tls: bool)
    ensures
        is_prefix(scheme(tls) + "://"@, spec_normalise_url(address, tls)),
{
    let u = spec_normalise_url(address, tls);
    let p = scheme(tls) + "://"@;
    let addr = spec_trim(address);
    if addr.len() == 0 {
        assert(u == p + "127.0.0.1:8384"@) by {
            assert(scheme(tls) + "://127.0.0.1:8384"@ =~= p + "127.0.0.1:8384"@) by {
                reveal_strlit("://127.0.0.1:8384");
                reveal_strlit("://");
                reveal_strlit("127.0.0.1:8384");
            }
        }
    } else {
        let (h, port) = split_host_port(addr);
        let host = connectable_host(strip_brackets(h));
        if host.contains(':') {
            assert(u =~= p + ("["@ + host + "]:"@ + port)) by {
                reveal_strlit("://[");
                reveal_strlit("://");
                reveal_strlit("[");
            }
        } else {
            assert(u =~= p + (host + seq![':'] + port));
        }
    }
    assert(u.subrange(0, p.len() as int) =~= p);
}

proof fn lemma_last_index_skips(s: Seq<char>, p: Seq<char>, c: char)
    requires
        forall|k: int| 0 <= k < p.len() ==> p[k] != c,
    ensures
        last_index_of(s + p, c) == last_index_of(s, c),
    decreases p.len(),
{
    if p.len() > 0 {
        assert((s + p).last() == p.last());
        assert((s + p).drop_last() =~= s + p.drop_last());
        lemma_last_index_skips(s, p.drop_last(), c);
    } else {
        assert(s + p =~= s);
    }
}

/// `host:port` with a numeric port splits back into `host` and `port`,
/// whatever colons `host` holds, and is left alone by trimming when nothing
/// around it is whitespace.
proof fn lemma_split_at_port(host: Seq<char>, port: Seq<char>)
    requires
        port.len() > 0,
        all_ascii_digits(port),
    ensures
        split_host_port(host + seq![':'] + port) == (host, port),
{
    let a = host + seq![':'];
    let addr = a + port;
    assert forall|k: int| 0 <= k < port.len() implies port[k] != ':' by {
        assert(is_ascii_digit(port[k]));
    }
    lemma_last_index_skips(a, port, ':');
    assert(a.last() == ':');
    assert(last_index_of(a, ':') == Some(host.len() as int));
    assert(addr.subrange((host.len() + 1) as int, addr.len() as int) =~= port);
    assert(addr.subrange(0, host.len() as int) =~= host);
}

proof fn lemma_host_port(host: Seq<char>, port: Seq<char>)
    requires
        port.len() > 0,
        all_ascii_digits(port),
        host.len() == 0 || !is_ws(host[0]),
    ensures
        split_host_port(host + seq![':'] + port) == (host, port),
        spec_trim(host + seq![':'] + port) == host + seq![':'] + port,
{
    let a = host + seq![':'];
    let addr = a + port;
    lemma_split_at_port(host, port);
    assert(addr[0] == if host.len() == 0 { ':' } else { host[0] });
    assert(is_ascii_digit(port.last()));
    assert(addr[addr.len() - 1] == port.last());
    crate::text::lemma_trim_start_skip(addr, 0);
    assert(addr.skip(0) =~= addr);
    crate::text::lemma_trim_end_take(addr, addr.len() as int);
    assert(addr.take(addr.len() as int) =~= addr);
}

/// A wildcard bind address (an empty host, `0.0.0.0` or `::`, bracketed or
/// not) with a numeric port collapses to loopback on that port.
pub proof fn law_wildcards_become_loopback(host: Seq<char>, port: Seq<char>, tls: bool)
    requires
        port.len() > 0,
        all_ascii_digits(port),
        host.len() == 0 || !is_ws(host[0]),
        strip_brackets(host).len() == 0 || strip_brackets(host) == "0.0.0.0"@ || strip_brackets(host)
            == "::"@,
    ensures
        spec_normalise_url(host + seq![':'] + port, tls) == scheme(tls) + "://127.0.0.1:"@ + port,
{
    lemma_host_port(host, port);
    let addr = host + seq![':'] + port;
    assert(addr.len() > 0);
    let lo = "127.0.0.1"@;
    assert(connectable_host(strip_brackets(host)) == lo);
    reveal_strlit("127.0.0.1");
    reveal_strlit("://");
    reveal_strlit("://127.0.0.1:");
    assert(!lo.contains(':')) by {
        assert forall|k: int| 0 <= k < lo.len() implies lo[k] != ':' by {}
    }
    assert(scheme(tls) + "://"@ + lo + seq![':'] + port =~= scheme(tls) + "://127.0.0.1:"@ + port);
}

/// Any other host, written without brackets or colons, is kept as it is,
/// with its numeric port.
pub proof fn law_explicit_hosts_are_kept(host: Seq<char>, port: Seq<char>, tls: bool)
    requires
        port.len() > 0,
        all_ascii_digits(port),
        host.len() > 0,
        !is_ws(host[0]),
        forall|k: int| 0 <= k < host.len() ==> host[k] != ':' && !is_bracket(#[trigger] host[k]),
        host != "0.0.0.0"@,
    ensures
        spec_normalise_url(host + seq![':'] + port, tls) == scheme(tls) + "://"@ + host + seq![':'] + port,
{
    lemma_host_port(host, port);
    let addr = host + seq![':'] + port;
    assert(addr.len() > 0);
    assert(!is_bracket(host[0]));
    assert(!is_bracket(host.last()));
    assert(strip_start_brackets(host) == host);
    assert(strip_end_brackets(host) == host);
    assert(host != "::"@) by {
        reveal_strlit("::");
        assert(host[0] != ':');
    }
    assert(connectable_host(strip_brackets(host)) == host);
    assert(!host.contains(':'));
}

proof fn lemma_no_slash_first(s: Seq<char>)
    requires
        forall|k: int| 0 <= k < s.len() ==> s[k] != '/',
    ensures
        first_index_of(s, '/') is None,
    decreases s.len(),
{
    if s.len() > 0 {
        lemma_no_slash_first(s.drop_first());
    }
}

/// The port a listen address connects to is a non-empty run of digits.
proof fn lemma_listen_port(addr: Seq<char>)
    ensures
        split_host_port(addr).1.len() > 0,
        all_ascii_digits(split_host_port(addr).1),
{
    reveal_strlit("8384");
}

/// An `https://` URL built for a host without `/` or brackets at its ends
/// names that host again.
proof fn lemma_https_url_host(host: Seq<char>, port: Seq<char>)
    requires
        port.len() > 0,
        all_ascii_digits(port),
        host.len() > 0,
        !is_bracket(host[0]),
        !is_bracket(host.last()),
        forall|k: int| 0 <= k < host.len() ==> host[k] != '/',
    ensures
        https_url_host(
            if host.contains(':') {
                "https"@ + "://["@ + host + "]:"@ + port
            } else {
                "https"@ + "://"@ + host + seq![':'] + port
            },
        ) == host,
{
    reveal_strlit("https");
    reveal_strlit("://[");
    reveal_strlit("://");
    reveal_strlit("]:");
    assert forall|k: int| 0 <= k < port.len() implies port[k] != '/' by {
        assert(is_ascii_digit(port[k]));
    }
    lemma_strip_end(host, host.len() as int);
    assert(host.take(host.len() as int) =~= host);
    if host.contains(':') {
        let url = "https"@ + "://["@ + host + "]:"@ + port;
        let hb = seq!['['] + host + seq![']'];
        let x = hb + seq![':'] + port;
        assert(url.skip(8) =~= x);
        assert forall|k: int| 0 <= k < x.len() implies x[k] != '/' by {
            if 1 <= k <= host.len() {
                assert(x[k] == host[k - 1]);
            } else if k > hb.len() {
                assert(x[k] == port[k - hb.len() - 1]);
            }
        }
        lemma_no_slash_first(x);
        lemma_split_at_port(hb, port);
        assert(hb[0] == '[');
        assert(hb[1] == host[0]);
        lemma_strip_start(hb, 1);
        let t = hb.skip(1);
        assert(t =~= host + seq![']']);
        assert(t[t.len() - 2] == host.last());
        lemma_strip_end(t, t.len() - 1);
        assert(t.take(t.len() - 1) =~= host);
    } else {
        let url = "https"@ + "://"@ + host + seq![':'] + port;
        let x = host + seq![':'] + port;
        assert(url.skip(8) =~= x);
        assert forall|k: int| 0 <= k < x.len() implies x[k] != '/' by {
            if k < host.len() {
                assert(x[k] == host[k]);
            } else if k > host.len() {
                assert(x[k] == port[k - host.len() - 1]);
            }
        }
        lemma_no_slash_first(x);
        lemma_split_at_port(host, port);
        lemma_strip_start(host, 0);
        assert(host.skip(0) =~= host);
    }
}

/// The certificate check is never waived for a plain `http://` URL; whenever
/// it is waived, the URL is `https://` and its host is loopback; and a GUI
/// with TLS on that listens on loopback (or on a wildcard address, which
/// collapses to loopback) does have it waived.
pub proof fn law_tls_waived_only_for_loopback(address: Seq<char>, url: Seq<char>)
    ensures
        !may_waive_tls(spec_normalise_url(address, false)),
        may_waive_tls(url) ==> is_prefix("https://"@, url) && is_loopback_host(https_url_host(url)),
        is_loopback_host(listen_host(address)) ==> may_waive_tls(spec_normalise_url(address, true)),
{
    reveal_strlit("https://");
    reveal_strlit("http://");
    reveal_strlit("http");
    reveal_strlit("://");
    law_url_scheme_follows_tls(address, false);
    let u = spec_normalise_url(address, false);
    assert(("http"@ + "://"@)[4] == ':');
    assert(u[4] == u.subrange(0, 7)[4]);
    let addr = spec_trim(address);
    let h = listen_host(address);
    if is_loopback_host(h) {
        reveal_strlit("127.0.0.1");
        reveal_strlit("::1");
        reveal_strlit("localhost");
        let port: Seq<char> = if addr.len() == 0 {
            "8384"@
        } else {
            split_host_port(addr).1
        };
        reveal_strlit("8384");
        lemma_listen_port(addr);
        assert forall|k: int| 0 <= k < h.len() implies h[k] != '/' by {}
        lemma_https_url_host(h, port);
        let w = spec_normalise_url(address, true);
        law_url_scheme_follows_tls(address, true);
        if addr.len() == 0 {
            reveal_strlit("://127.0.0.1:8384");
            assert(w =~= "https"@ + "://"@ + h + seq![':'] + port);
            assert(!h.contains(':')) by {
                assert forall|k: int| 0 <= k < h.len() implies h[k] != ':' by {}
            }
        } else {
            reveal_strlit("://[");
            reveal_strlit("]:");
            if h.contains(':') {
                assert(w =~= "https"@ + "://["@ + h + "]:"@ + port);
            } else {
                assert(w =~= "https"@ + "://"@ + h + seq![':'] + port);
            }
        }
        reveal_strlit("https");
        assert(scheme(true) + "://"@ =~= "https://"@);
        assert(w.subrange(0, 8) =~= "https://"@);
    }
}

/// A TLS GUI on any other host written plainly, such as `192.168.1.5:8384`,
/// keeps the certificate check.
pub proof fn law_remote_hosts_keep_the_certificate_check(host: Seq<char>, port: Seq<char>)
    requires
        port.len() > 0,
        all_ascii_digits(port),
        host.len() > 0,
        !is_ws(host[0]),
        forall|k: int| 0 <= k < host.len() ==> host[k] != ':' && host[k] != '/' && !is_bracket(
            #[trigger] host[k],
        ),
        host != "0.0.0.0"@,
        !is_loopback_host(host),
    ensures
        !may_waive_tls(spec_normalise_url(host + seq![':'] + port, true)),
{
    law_explicit_hosts_are_kept(host, port, true);
    assert(!host.contains(':'));
    lemma_https_url_host(host, port);
    reveal_strlit("https");
    reveal_strlit("://");
    assert(scheme(true) + "://"@ + host + seq![':'] + port =~= "https"@ + "://"@ + host + seq![':'] + port);
}


/// The list of views of a list of strings.
pub open spec fn string_views(v: Seq<String>) -> Seq<Seq<char>> {
    v.map_values(|s: String| s@)
}

/// Candidate locations for `config.xml`, most preferred first: under
/// `$STHOMEDIR`, then the state directory (the default since Syncthing 1.27),
/// then the config directory, each where it is known.
pub open spec fn spec_candidate_paths(
    sthomedir: Option<Seq<char>>,
    state_dir: Option<Seq<char>>,
    config_dir: Option<Seq<char>>,
) -> Seq<Seq<char>> {
    (match sthomedir {
        Some(h) => seq![path_join(h, "config.xml"@)],
        None => Seq::empty(),
    }) + (match state_dir {
        Some(s) => seq![path_join(s, "syncthing/config.xml"@)],
        None => Seq::empty(),
    }) + (match config_dir {
        Some(c) => seq![path_join(c, "syncthing/config.xml"@)],
        None => Seq::empty(),
    })
}

pub open spec fn str_opt_view(o: Option<&str>) -> Option<Seq<char>> {
    match o {
        Some(s) => Some(s@),
        None => None,
    }
}

pub open spec fn opt_view(o: Option<String>) -> Option<Seq<char>> {
    match o {
        Some(s) => Some(s@),
        None => None,
    }
}

/// Candidate locations for `config.xml` given `$STHOMEDIR` and the user's
/// state and config directories.
pub fn candidate_paths_in(sthomedir: Option<&str>, state_dir: Option<&str>, config_dir: Option<&str>) -> (r: Vec<String>)
    ensures
        string_views(r@) == spec_candidate_paths(
            str_opt_view(sthomedir),
            str_opt_view(state_dir),
            str_opt_view(config_dir),
        ),
{
    let mut paths: Vec<String> = Vec::new();
    if let Some(home) = sthomedir {
        paths.push(join_path(home, "config.xml"));
    }
    if let Some(state) = state_dir {
        paths.push(join_path(state, "syncthing/config.xml"));
    }
    if let Some(config) = config_dir {
        paths.push(join_path(config, "syncthing/config.xml"));
    }
    assert(string_views(paths@) =~= spec_candidate_paths(
        str_opt_view(sthomedir),
        str_opt_view(state_dir),
        str_opt_view(config_dir),
    ));
    paths
}

/// Candidate locations for `config.xml`, given the value of `$STHOMEDIR`;
/// the state and config directories are looked up.
pub fn candidate_paths(sthomedir: Option<&str>) -> (r: Vec<String>)
    ensures
        exists|s: Option<Seq<char>>, c: Option<Seq<char>>|
            string_views(r@) == #[trigger] spec_candidate_paths(
                str_opt_view(sthomedir),
                s,
                c,
            ),
{
    let state = places::state_dir();
    let config = places::config_dir();
    let state_ref: Option<&str> = match &state {
        Some(s) => Some(s.as_str()),
        None => None,
    };
    let config_ref: Option<&str> = match &config {
        Some(s) => Some(s.as_str()),
        None => None,
    };
    let r = candidate_paths_in(sthomedir, state_ref, config_ref);
    assert(string_views(r@) == spec_candidate_paths(
        str_opt_view(sthomedir),
        opt_view(state),
        opt_view(config),
    ));
    r
}

/// The first candidate that exists as a file.
pub open spec fn first_present(candidates: Seq<String>, present: Seq<bool>) -> Option<int>
    decreases candidates.len(),
{
    if candidates.len() == 0 || present.len() == 0 {
        None
    } else if present[0] {
        Some(0)
    } else {
        match first_present(candidates.drop_first(), present.drop_first()) {
            Some(i) => Some(i + 1),
            None => None,
        }
    }
}

/// Locate `config.xml` among `candidates`, where `present[i]` says whether
/// `candidates[i]` is a file; `None` if Syncthing has never been run.
pub fn find_config_file(candidates: &Vec<String>, present: &Vec<bool>) -> (r: Option<String>)
    requires
        candidates@.len() == present@.len(),
    ensures
        match first_present(candidates@, present@) {
            Some(i) => r matches Some(p) && p@ == candidates@[i]@,
            None => r is None,
        },
{
    let n = candidates.len();
    let mut i: usize = 0;
    assert(candidates@.skip(0) =~= candidates@);
    assert(present@.skip(0) =~= present@);
    while i < n
        invariant
            n == candidates@.len(),
            n == present@.len(),
            i <= n,
            forall|k: int| 0 <= k < i ==> !present@[k],
            first_present(candidates@, present@) == match first_present(
                candidates@.skip(i as int),
                present@.skip(i as int),
            ) {
                Some(j) => Some(j + i),
                None => None,
            },
        decreases n - i,
    {
        assert(present@.skip(i as int)[0] == present@[i as int]);
        if present[i] {
            return Some(candidates[i].clone());
        }
        assert(candidates@.skip(i as int).drop_first() =~= candidates@.skip(i + 1));
        assert(present@.skip(i as int).drop_first() =~= present@.skip(i + 1));
        i += 1;
    }
    None
}

/// Declares `roxmltree::Error`, what `roxmltree::Document::parse` returns for
/// text that is not well-formed XML, so that it can be carried in
/// `ConfigError`; nothing inside it is read.
#[verifier::external_type_specification]
#[verifier::external_body]
pub struct ExXmlError(roxmltree::Error);

/// An attribute of an XML node.
#[derive(Debug, Clone)]
pub struct XmlAttribute {
    pub namespace: Option<String>,
    pub name: String,
    pub value: String,
}

/// An XML node as the configuration logic reads it: its local tag name (empty
/// for anything but an element), its attributes and its text.
#[derive(Debug, Clone)]
pub struct XmlNode {
    pub name: String,
    pub attributes: Vec<XmlAttribute>,
    pub text: Option<String>,
}

/// A child node of the document's root element, with its own child nodes.
#[derive(Debug, Clone)]
pub struct XmlSection {
    pub node: XmlNode,
    pub children: Vec<XmlNode>,
}

pub struct XmlAttributeView {
    pub namespace: Option<Seq<char>>,
    pub name: Seq<char>,
    pub value: Seq<char>,
}

pub struct XmlNodeView {
    pub name: Seq<char>,
    pub attributes: Seq<XmlAttributeView>,
    pub text: Option<Seq<char>>,
}

pub struct XmlSectionView {
    pub node: XmlNodeView,
    pub children: Seq<XmlNodeView>,
}

impl View for XmlAttribute {
    type V = XmlAttributeView;

    open spec fn view(&self) -> XmlAttributeView {
        XmlAttributeView { namespace: opt_view(self.namespace), name: self.name@, value: self.value@ }
    }
}

impl View for XmlNode {
    type V = XmlNodeView;

    open spec fn view(&self) -> XmlNodeView {
        XmlNodeView {
            name: self.name@,
            attributes: self.attributes@.map_values(|a: XmlAttribute| a@),
            text: opt_view(self.text),
        }
    }
}

impl View for XmlSection {
    type V = XmlSectionView;

    open spec fn view(&self) -> XmlSectionView {
        XmlSectionView { node: self.node@, children: self.children@.map_values(|n: XmlNode| n@) }
    }
}

/// The child nodes of the root element of the XML document `text`, each with
/// its child nodes, as `roxmltree` parses it; `None` when it does not parse.
pub uninterp spec fn xml_sections(text: Seq<char>) -> Option<Seq<XmlSectionView>>;

/// Parses `text` with `roxmltree::Document::parse` and hands back the root
/// element's child nodes, each with its own child nodes: the local tag name
/// (empty for a node that is not an element), the attributes, and the text
/// `Node::text` gives (an element's first child, when that is text). The
/// result is named `xml_sections`: nothing more is claimed of XML parsing than
/// that it succeeds, and gives the same nodes, exactly when `xml_sections`
/// says so for the same text.
#[verifier::external_body]
fn parse_xml_sections(text: &str) -> (r: Result<Vec<XmlSection>, roxmltree::Error>)
    ensures
        r is Ok <==> xml_sections(text@) is Some,
        r matches Ok(v) ==> v@.map_values(|s: XmlSection| s@) == xml_sections(text@)->0,
{
    let doc = roxmltree::Document::parse(text)?;
    let node = |n: roxmltree::Node| XmlNode {
        name: n.tag_name().name().to_string(),
        attributes: n.attributes().map(|a| XmlAttribute {
            namespace: a.namespace().map(|s| s.to_string()),
            name: a.name().to_string(),
            value: a.value().to_string(),
        }).collect(),
        text: n.text().map(|t| t.to_string()),
    };
    Ok(doc.root_element().children().map(|n| XmlSection { node: node(n), children: n.children().map(node).collect() }).collect())
}

/// Why the configuration could not be read.
#[derive(Debug)]
pub enum ConfigError {
    /// The file is not well-formed XML.
    InvalidXml { path: String, error: roxmltree::Error },
    /// The file has no `<gui>` section.
    NoGuiSection { path: String },
    /// No API key is configured.
    NoApiKey { path: String },
}

/// What the tray says of a configuration error. An XML error is reported as
/// the file that failed to parse; the parser's own message follows it.
pub open spec fn spec_config_message(e: ConfigError) -> Seq<char> {
    match e {
        ConfigError::InvalidXml { path, .. } => "parsing "@ + path@,
        ConfigError::NoGuiSection { path } => "no <gui> section in "@ + path@,
        ConfigError::NoApiKey { path } => "Syncthing config at "@ + path@ + " has no API key set"@,
    }
}

impl ConfigError {
    /// What the tray says of this error.
    pub fn message(&self) -> (r: String)
        ensures
            r@ == spec_config_message(*self),
    {
        match self {
            ConfigError::InvalidXml { path, .. } => {
                let mut out = owned("parsing ");
                out.append(path.as_str());
                out
            },
            ConfigError::NoGuiSection { path } => {
                let mut out = owned("no <gui> section in ");
                out.append(path.as_str());
                out
            },
            ConfigError::NoApiKey { path } => {
                let mut out = owned("Syncthing config at ");
                out.append(path.as_str());
                out.append(" has no API key set");
                out
            },
        }
    }
}

/// `parts` separated by `", "`.
pub open spec fn joined(parts: Seq<Seq<char>>) -> Seq<char>
    decreases parts.len(),
{
    if parts.len() == 0 {
        Seq::empty()
    } else if parts.len() == 1 {
        parts[0]
    } else {
        joined(parts.drop_last()) + ", "@ + parts.last()
    }
}

/// What the tray says when no candidate `config.xml` exists: Syncthing has
/// never been run, and every place looked in is named.
pub fn not_found_message(candidates: &Vec<String>) -> (r: String)
    ensures
        r@ == "no Syncthing config.xml found (looked in "@ + joined(string_views(candidates@)) + ")"@,
{
    let ghost views = string_views(candidates@);
    let prefix = "no Syncthing config.xml found (looked in ";
    let mut out = owned(prefix);
    let n = candidates.len();
    let mut i: usize = 0;
    assert(views.take(0) =~= Seq::<Seq<char>>::empty());
    while i < n
        invariant
            n == candidates@.len(),
            views == string_views(candidates@),
            i <= n,
            out@ == prefix@ + joined(views.take(i as int)),
        decreases n - i,
    {
        assert(views.take(i + 1).drop_last() =~= views.take(i as int));
        assert(views.take(i + 1).last() == candidates@[i as int]@);
        if i > 0 {
            out.append(", ");
        }
        out.append(candidates[i].as_str());
        proof {
            if i == 0 {
                assert(out@ =~= prefix@ + joined(views.take(1)));
            } else {
                assert(out@ =~= prefix@ + joined(views.take(i + 1)));
            }
        }
        i += 1;
    }
    assert(views.take(n as int) =~= views);
    out.push(')');
    proof {
        reveal_strlit(")");
    }
    assert(out@ =~= prefix@ + joined(views) + ")"@);
    out
}

/// The first node named `name`.
pub open spec fn first_named(nodes: Seq<XmlNodeView>, name: Seq<char>) -> Option<XmlNodeView>
    decreases nodes.len(),
{
    if nodes.len() == 0 {
        None
    } else if nodes[0].name == name {
        Some(nodes[0])
    } else {
        first_named(nodes.drop_first(), name)
    }
}

/// The first section whose node is named `name`.
pub open spec fn first_section(sections: Seq<XmlSectionView>, name: Seq<char>) -> Option<XmlSectionView>
    decreases sections.len(),
{
    if sections.len() == 0 {
        None
    } else if sections[0].node.name == name {
        Some(sections[0])
    } else {
        first_section(sections.drop_first(), name)
    }
}

/// The value of the first attribute named `name` with no namespace.
pub open spec fn attribute_value(attrs: Seq<XmlAttributeView>, name: Seq<char>) -> Option<Seq<char>>
    decreases attrs.len(),
{
    if attrs.len() == 0 {
        None
    } else if attrs[0].namespace is None && attrs[0].name == name {
        Some(attrs[0].value)
    } else {
        attribute_value(attrs.drop_first(), name)
    }
}

/// The trimmed text of the first child named `name`, empty when there is no
/// such child or it has no text.
pub open spec fn child_text(children: Seq<XmlNodeView>, name: Seq<char>) -> Seq<char> {
    match first_named(children, name) {
        Some(n) => match n.text {
            Some(t) => spec_trim(t),
            None => Seq::empty(),
        },
        None => Seq::empty(),
    }
}

/// Whether the `<gui>` section has `tls="true"`.
pub open spec fn gui_tls(gui: XmlSectionView) -> bool {
    attribute_value(gui.node.attributes, "tls"@) == Some("true"@)
}

fn find_section<'a>(sections: &'a Vec<XmlSection>, name: &str) -> (r: Option<&'a XmlSection>)
    ensures
        match first_section(sections@.map_values(|s: XmlSection| s@), name@) {
            Some(v) => r matches Some(s) && s@ == v,
            None => r is None,
        },
{
    let ghost views = sections@.map_values(|s: XmlSection| s@);
    let n = sections.len();
    let mut i: usize = 0;
    assert(views.skip(0) =~= views);
    while i < n
        invariant
            n == sections@.len(),
            views == sections@.map_values(|s: XmlSection| s@),
            i <= n,
            first_section(views, name@) == first_section(views.skip(i as int), name@),
        decreases n - i,
    {
        assert(views.skip(i as int)[0] == sections@[i as int]@);
        if str_eq(sections[i].node.name.as_str(), name) {
            return Some(&sections[i]);
        }
        assert(views.skip(i as int).drop_first() =~= views.skip(i + 1));
        i += 1;
    }
    None
}

fn find_node<'a>(nodes: &'a Vec<XmlNode>, name: &str) -> (r: Option<&'a XmlNode>)
    ensures
        match first_named(nodes@.map_values(|n: XmlNode| n@), name@) {
            Some(v) => r matches Some(x) && x@ == v,
            None => r is None,
        },
{
    let ghost views = nodes@.map_values(|n: XmlNode| n@);
    let n = nodes.len();
    let mut i: usize = 0;
    assert(views.skip(0) =~= views);
    while i < n
        invariant
            n == nodes@.len(),
            views == nodes@.map_values(|n: XmlNode| n@),
            i <= n,
            first_named(views, name@) == first_named(views.skip(i as int), name@),
        decreases n - i,
    {
        assert(views.skip(i as int)[0] == nodes@[i as int]@);
        if str_eq(nodes[i].name.as_str(), name) {
            return Some(&nodes[i]);
        }
        assert(views.skip(i as int).drop_first() =~= views.skip(i + 1));
        i += 1;
    }
    None
}

fn find_attribute<'a>(attrs: &'a Vec<XmlAttribute>, name: &str) -> (r: Option<&'a str>)
    ensures
        match attribute_value(attrs@.map_values(|a: XmlAttribute| a@), name@) {
            Some(v) => r matches Some(x) && x@ == v,
            None => r is None,
        },
{
    let ghost views = attrs@.map_values(|a: XmlAttribute| a@);
    let n = attrs.len();
    let mut i: usize = 0;
    assert(views.skip(0) =~= views);
    while i < n
        invariant
            n == attrs@.len(),
            views == attrs@.map_values(|a: XmlAttribute| a@),
            i <= n,
            attribute_value(views, name@) == attribute_value(views.skip(i as int), name@),
        decreases n - i,
    {
        assert(views.skip(i as int)[0] == attrs@[i as int]@);
        let a = &attrs[i];
        if a.namespace.is_none() && str_eq(a.name.as_str(), name) {
            return Some(a.value.as_str());
        }
        assert(views.skip(i as int).drop_first() =~= views.skip(i + 1));
        i += 1;
    }
    None
}

fn child_text_of(children: &Vec<XmlNode>, name: &str) -> (r: String)
    ensures
        r@ == child_text(children@.map_values(|n: XmlNode| n@), name@),
{
    match find_node(children, name) {
        Some(node) => match &node.text {
            Some(t) => owned(trim(t.as_str())),
            None => String::new(),
        },
        None => String::new(),
    }
}

/// The configuration described by the root's sections of `config.xml` at
/// `path`: the `<gui>` section's `address` made connectable, with the scheme
/// its `tls` attribute selects; its `apikey`; and whether the certificate
/// check is waived, which is only for a TLS URL to a loopback host.
pub open spec fn spec_config_from(sections: Seq<XmlSectionView>) -> Option<(Seq<char>, Seq<char>, bool)> {
    match first_section(sections, "gui"@) {
        Some(gui) => {
            let url = spec_normalise_url(child_text(gui.children, "address"@), gui_tls(gui));
            Some((url, child_text(gui.children, "apikey"@), may_waive_tls(url)))
        },
        None => None,
    }
}

/// Reads connection details from the parsed sections of `config.xml`.
pub fn config_from_sections(path: &str, sections: &Vec<XmlSection>) -> (r: Result<SyncthingConfig, ConfigError>)
    ensures
        match spec_config_from(sections@.map_values(|s: XmlSection| s@)) {
            Some((url, key, insecure)) => r matches Ok(c) && c.base_url@ == url && c.api_key@ == key
                && c.insecure_tls == insecure,
            None => r matches Err(ConfigError::NoGuiSection { path: p }) && p@ == path@,
        },
{
    let gui = match find_section(sections, "gui") {
        Some(g) => g,
        None => return Err(ConfigError::NoGuiSection { path: owned(path) }),
    };
    let api_key = child_text_of(&gui.children, "apikey");
    let address = child_text_of(&gui.children, "address");
    let tls = match find_attribute(&gui.node.attributes, "tls") {
        Some(v) => str_eq(v, "true"),
        None => false,
    };
    let base_url = normalise_url(address.as_str(), tls);
    let insecure_tls = waives_certificate_check(base_url.as_str());
    Ok(SyncthingConfig { base_url, api_key, insecure_tls })
}

/// Read connection details from the text of Syncthing's config file at `path`.
pub fn parse(path: &str, text: &str) -> (r: Result<SyncthingConfig, ConfigError>)
    ensures
        match xml_sections(text@) {
            None => r matches Err(ConfigError::InvalidXml { path: p, .. }) && p@ == path@,
            Some(sections) => match spec_config_from(sections) {
                Some((url, key, insecure)) => r matches Ok(c) && c.base_url@ == url && c.api_key@ == key
                    && c.insecure_tls == insecure,
                None => r matches Err(ConfigError::NoGuiSection { path: p }) && p@ == path@,
            },
        },
{
    match parse_xml_sections(text) {
        Ok(sections) => config_from_sections(path, &sections),
        Err(error) => Err(ConfigError::InvalidXml { path: owned(path), error }),
    }
}

/// `s` without trailing `/` characters.
pub open spec fn strip_trailing_slashes(s: Seq<char>) -> Seq<char>
    decreases s.len(),
{
    if s.len() > 0 && s.last() == '/' {
        strip_trailing_slashes(s.drop_last())
    } else {
        s
    }
}

fn trim_trailing_slashes(s: &str) -> (r: &str)
    ensures
        r@ == strip_trailing_slashes(s@),
{
    let n = s.unicode_len();
    let mut j: usize = n;
    assert(s@.take(n as int) =~= s@);
    while j > 0
        invariant
            n == s@.len(),
            j <= n,
            strip_trailing_slashes(s@) == strip_trailing_slashes(s@.take(j as int)),
        ensures
            strip_trailing_slashes(s@) == s@.take(j as int),
        decreases j,
    {
        assert(s@.take(j as int).last() == s@[j - 1]);
        if s.get_char(j - 1) != '/' {
            break;
        }
        assert(s@.take(j as int).drop_last() =~= s@.take(j - 1));
        j -= 1;
    }
    assert(s@.subrange(0, j as int) =~= s@.take(j as int));
    s.substring_char(0, j)
}

/// Applies `SYNCTHING_API_KEY` and `SYNCTHING_URL`, when set, to what
/// `config.xml` at `path` said: the key replaces the configured one; the URL,
/// without trailing slashes, replaces the configured one, and the certificate
/// check is then waived only when it is an `https://` URL to a loopback host.
/// A configuration left
/// with an empty API key is refused.
pub fn apply_overrides(
    cfg: SyncthingConfig,
    api_key: Option<String>,
    url: Option<&str>,
    path: &str,
) -> (r: Result<SyncthingConfig, ConfigError>)
    ensures
        ({
            let key = match api_key {
                Some(k) => k@,
                None => cfg.api_key@,
            };
            let base = match url {
                Some(u) => strip_trailing_slashes(u@),
                None => cfg.base_url@,
            };
            let insecure = match url {
                Some(u) => may_waive_tls(strip_trailing_slashes(u@)),
                None => cfg.insecure_tls,
            };
            if key.len() == 0 {
                r matches Err(ConfigError::NoApiKey { path: p }) && p@ == path@
            } else {
                r matches Ok(c) && c.api_key@ == key && c.base_url@ == base && c.insecure_tls
                    == insecure
            }
        }),
{
    let mut cfg = cfg;
    if let Some(key) = api_key {
        cfg.api_key = key;
    }
    if let Some(u) = url {
        let trimmed = trim_trailing_slashes(u);
        cfg.insecure_tls = waives_certificate_check(trimmed);
        cfg.base_url = owned(trimmed);
    }
    if cfg.api_key.as_str().is_empty() {
        return Err(ConfigError::NoApiKey { path: owned(path) });
    }
    Ok(cfg)
}

} // verus!
