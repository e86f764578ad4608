//! Broker address resolution and the client configuration record.
use vstd::prelude::*;

verus! {

/// Transport variant selected by the address scheme.
#[derive(Debug, Clone, Copy, PartialEq, Eq, Structural)]
pub enum Protocol {
    /// Plain TCP (`tcp://`).
    Tcp,
    /// TCP with TLS (`ssl://`).
    Ssl,
    /// WebSocket (`ws://`).
    Ws,
    /// WebSocket with TLS (`wss://`).
    Wss,
}

/// A resolved broker endpoint.
#[derive(Debug, Clone)]
pub struct ServerInfo {
    pub protocol: Protocol,
    pub host: String,
    pub port: u16,
    pub path: String,
}

/// Mathematical model of an endpoint.
pub struct ServerView {
    pub protocol: Protocol,
    pub host: Seq<char>,
    pub port: u16,
    pub path: Seq<char>,
}

impl View for ServerInfo {
    type V = ServerView;

    open spec fn view(&self) -> ServerView {
        ServerView { protocol: self.protocol, host: self.host@, port: self.port, path: self.path@ }
    }
}

/// Why an address was rejected.
pub enum AddressFault {
    /// The text after the last `:` is not a port number.
    InvalidPort(Seq<char>),
    /// Nothing names the host.
    EmptyHost,
}

/// What `str::trim` makes of a character sequence.
pub uninterp spec fn trimmed(s: Seq<char>) -> Seq<char>;

/// Relies on `str::trim`: strips leading and trailing whitespace; the result
/// depends on the characters alone.
#[verifier::external_body]
fn trim_str<'a>(s: &'a str) -> (r: &'a str)
    ensures
        r@ == trimmed(s@),
{
    s.trim()
}

pub open spec fn starts_with(s: Seq<char>, p: Seq<char>) -> bool {
    p.len() <= s.len() && s.take(p.len() as int) == p
}

pub open spec fn contains(s: Seq<char>, c: char) -> bool {
    exists|i: int| 0 <= i < s.len() && s[i] == c
}

pub open spec fn is_first(s: Seq<char>, c: char, i: int) -> bool {
    0 <= i < s.len() && s[i] == c && forall|j: int| 0 <= j < i ==> s[j] != c
}

pub open spec fn is_last(s: Seq<char>, c: char, i: int) -> bool {
    0 <= i < s.len() && s[i] == c && forall|j: int| i < j < s.len() ==> s[j] != c
}

/// Position of the first `c` in `s` (meaningful when `contains(s, c)`).
pub open spec fn first_index(s: Seq<char>, c: char) -> int {
    choose|i: int| is_first(s, c, i)
}

/// Position of the last `c` in `s` (meaningful when `contains(s, c)`).
pub open spec fn last_index(s: Seq<char>, c: char) -> int {
    choose|i: int| is_last(s, c, i)
}

/// The scheme named by the start of an address, and what follows it.
pub open spec fn split_scheme(s: Seq<char>) -> (Protocol, Seq<char>) {
    if starts_with(s, "ssl://"@) {
        (Protocol::Ssl, s.skip(6))
    } else if starts_with(s, "tcp://"@) {
        (Protocol::Tcp, s.skip(6))
    } else if starts_with(s, "wss://"@) {
        (Protocol::Wss, s.skip(6))
    } else if starts_with(s, "ws://"@) {
        (Protocol::Ws, s.skip(5))
    } else {
        (Protocol::Tcp, s)
    }
}

pub open spec fn default_port(p: Protocol) -> u16 {
    match p {
        Protocol::Tcp => 1883,
        Protocol::Ssl => 8883,
        Protocol::Ws => 8083,
        Protocol::Wss => 8084,
    }
}

pub open spec fn is_digit(c: char) -> bool {
    '0' <= c <= '9'
}

pub open spec fn all_digits(d: Seq<char>) -> bool {
    forall|i: int| 0 <= i < d.len() ==> is_digit(#[trigger] d[i])
}

/// Decimal value of a digit sequence.
pub open spec fn digits_value(d: Seq<char>) -> nat
    decreases d.len(),
{
    if d.len() == 0 {
        0
    } else {
        digits_value(d.drop_last()) * 10 + ((d.last() as int) - ('0' as int)) as nat
    }
}

/// The port that `u16`'s `FromStr` reads from `t`: an optional `+`, then one
/// or more ASCII digits whose value fits in 16 bits.
pub open spec fn port_value(t: Seq<char>) -> Option<u16> {
    let d = if t.len() > 0 && t[0] == '+' { t.drop_first() } else { t };
    if d.len() > 0 && all_digits(d) && digits_value(d) <= 65535 {
        Some(digits_value(d) as u16)
    } else {
        None
    }
}

/// The endpoint that an (already trimmed) address describes.
pub open spec fn parse_address(s: Seq<char>) -> Result<ServerView, AddressFault> {
    let protocol = split_scheme(s).0;
    let rest = split_scheme(s).1;
    let host_port = if contains(rest, '/') { rest.take(first_index(rest, '/')) } else { rest };
    let path = if contains(rest, '/') { rest.skip(first_index(rest, '/')) } else { "/mqtt"@ };
    if contains(host_port, ':') {
        let i = last_index(host_port, ':');
        let port_text = host_port.skip(i + 1);
        match port_value(port_text) {
            None => Err(AddressFault::InvalidPort(port_text)),
            Some(port) => if i == 0 {
                Err(AddressFault::EmptyHost)
            } else {
                Ok(ServerView { protocol, host: host_port.take(i), port, path })
            },
        }
    } else if host_port.len() == 0 {
        Err(AddressFault::EmptyHost)
    } else {
        Ok(ServerView { protocol, host: host_port, port: default_port(protocol), path })
    }
}

/// The message that reports a rejected address.
pub open spec fn fault_message(f: AddressFault) -> Seq<char> {
    match f {
        AddressFault::InvalidPort(t) => "invalid port: "@ + t,
        AddressFault::EmptyHost => "server address must not be empty"@,
    }
}

/// An executable result agrees with the modelled one.
pub open spec fn parse_agrees(
    r: Result<ServerInfo, String>,
    m: Result<ServerView, AddressFault>,
) -> bool {
    match m {
        Ok(v) => r is Ok && r->Ok_0@ == v,
        Err(f) => r is Err && r->Err_0@ == fault_message(f),
    }
}

fn has_prefix(s: &str, s_len: usize, p: &str) -> (r: bool)
    requires
        s_len == s@.len(),
    ensures
        r == starts_with(s@, p@),
{
    let p_len = p.unicode_len();
    if p_len > s_len {
        return false;
    }
    let mut i: usize = 0;
    while i < p_len
        invariant
            i <= p_len <= s_len,
            s_len == s@.len(),
            p_len == p@.len(),
            forall|j: int| 0 <= j < i ==> s@[j] == p@[j],
        decreases p_len - i,
    {
        if s.get_char(i) != p.get_char(i) {
            assert(s@.take(p_len as int)[i as int] != p@[i as int]);
            return false;
        }
        i = i + 1;
    }
    assert(s@.take(p_len as int) =~= p@);
    true
}

/// Position of the first `c` in `s`, if any.
fn find_first(s: &str, s_len: usize, c: char) -> (r: Option<usize>)
    requires
        s_len == s@.len(),
    ensures
        r is Some <==> contains(s@, c),
        r matches Some(i) ==> is_first(s@, c, i as int) && i as int == first_index(s@, c),
{
    let mut i: usize = 0;
    while i < s_len
        invariant
            i <= s_len == s@.len(),
            forall|j: int| 0 <= j < i ==> s@[j] != c,
        decreases s_len - i,
    {
        if s.get_char(i) == c {
            proof {
                let k = first_index(s@, c);
                assert(is_first(s@, c, i as int));
                assert(is_first(s@, c, k));
                assert(k == i as int);
            }
            return Some(i);
        }
        i = i + 1;
    }
    None
}

/// Position of the last `c` in `s`, if any.
fn find_last(s: &str, s_len: usize, c: char) -> (r: Option<usize>)
    requires
        s_len == s@.len(),
    ensures
        r is Some <==> contains(s@, c),
        r matches Some(i) ==> is_last(s@, c, i as int) && i as int == last_index(s@, c),
{
    let mut i: usize = s_len;
    while i > 0
        invariant
            i <= s_len == s@.len(),
            forall|j: int| i <= j < s_len ==> s@[j] != c,
        decreases i,
    {
        if s.get_char(i - 1) == c {
            proof {
                let k = last_index(s@, c);
                assert(is_last(s@, c, i - 1));
                assert(is_last(s@, c, k));
                assert(k == i - 1);
            }
            return Some(i - 1);
        }
        i = i - 1;
    }
    None
}

proof fn lemma_digits_prefix(d: Seq<char>, k: int)
    requires
        0 <= k <= d.len(),
    ensures
        digits_value(d) >= digits_value(d.take(k)),
    decreases d.len(),
{
    if k < d.len() {
        lemma_digits_prefix(d.drop_last(), k);
        assert(d.drop_last().take(k) =~= d.take(k));
    } else {
        assert(d.take(k) =~= d);
    }
}

/// Reads a port number as `u16`'s `FromStr` does.
fn read_port(t: &str) -> (r: Option<u16>)
    ensures
        r == port_value(t@),
{
    let t_len = t.unicode_len();
    let start: usize = if t_len > 0 && t.get_char(0) == '+' { 1 } else { 0 };
    let d = t.substring_char(start, t_len);
    let ghost dv = if t@.len() > 0 && t@[0] == '+' { t@.drop_first() } else { t@ };
    assert(d@ =~= dv);
    let d_len = t_len - start;
    if d_len == 0 {
        return None;
    }
    let mut value: u32 = 0;
    let mut i: usize = 0;
    while i < d_len
        invariant
            i <= d_len == d@.len(),
            d@ == dv,
            dv == (if t@.len() > 0 && t@[0] == '+' { t@.drop_first() } else { t@ }),
            all_digits(d@.take(i as int)),
            value as nat == digits_value(d@.take(i as int)),
            value <= 65535,
        decreases d_len - i,
    {
        let ch = d.get_char(i);
        if !('0' <= ch && ch <= '9') {
            assert(!is_digit(d@[i as int]));
            assert(!all_digits(dv));
            return None;
        }
        let digit = (ch as u32) - ('0' as u32);
        let next = value * 10 + digit;
        assert(d@.take(i + 1).drop_last() =~= d@.take(i as int));
        assert(next as nat == digits_value(d@.take(i + 1)));
        if next > 65535 {
            proof {
                if all_digits(d@) {
                    lemma_digits_prefix(d@, i + 1);
                    assert(digits_value(dv) > 65535);
                }
            }
            return None;
        }
        value = next;
        i = i + 1;
    }
    assert(d@.take(d_len as int) =~= d@);
    Some(value as u16)
}

impl ServerInfo {
    /// Resolves an address that carries no surrounding whitespace:
    /// `[scheme://]host[:port][/path]`.
    pub fn parse_trimmed(url: &str) -> (r: Result<ServerInfo, String>)
        ensures
            parse_agrees(r, parse_address(url@)),
    {
        let len = url.unicode_len();
        let ghost s = url@;
        let (protocol, skip): (Protocol, usize) = if has_prefix(url, len, "ssl://") {
            (Protocol::Ssl, 6)
        } else if has_prefix(url, len, "tcp://") {
            (Protocol::Tcp, 6)
        } else if has_prefix(url, len, "wss://") {
            (Protocol::Wss, 6)
        } else if has_prefix(url, len, "ws://") {
            (Protocol::Ws, 5)
        } else {
            (Protocol::Tcp, 0)
        };
        proof {
            reveal_strlit("ssl://");
            reveal_strlit("tcp://");
            reveal_strlit("wss://");
            reveal_strlit("ws://");
        }
        assert(skip <= len);
        let rest = url.substring_char(skip, len);
        assert(rest@ =~= split_scheme(s).1);
        assert(protocol == split_scheme(s).0);
        let rest_len = len - skip;
        let (host_port, path) = match find_first(rest, rest_len, '/') {
            Some(i) => (rest.substring_char(0, i), String::from_str(rest.substring_char(i, rest_len))),
            None => (rest, String::from_str("/mqtt")),
        };
        assert(host_port@ =~= (if contains(rest@, '/') { rest@.take(first_index(rest@, '/')) } else { rest@ }));
        assert(path@ =~= (if contains(rest@, '/') { rest@.skip(first_index(rest@, '/')) } else { "/mqtt"@ }));
        let hp_len = host_port.unicode_len();
        match find_last(host_port, hp_len, ':') {
            Some(i) => {
                let port_text = host_port.substring_char(i + 1, hp_len);
                assert(port_text@ =~= host_port@.skip(i + 1));
                match read_port(port_text) {
                    None => Err(String::from_str("invalid port: ").concat(port_text)),
                    Some(port) => {
                        if i == 0 {
                            Err(String::from_str("server address must not be empty"))
                        } else {
                            let host = String::from_str(host_port.substring_char(0, i));
                            Ok(ServerInfo { protocol, host, port, path })
                        }
                    },
                }
            },
            None => {
                if hp_len == 0 {
                    Err(String::from_str("server address must not be empty"))
                } else {
                    let port: u16 = match protocol {
                        Protocol::Tcp => 1883,
                        Protocol::Ssl => 8883,
                        Protocol::Ws => 8083,
                        Protocol::Wss => 8084,
                    };
                    Ok(ServerInfo { protocol, host: String::from_str(host_port), port, path })
                }
            },
        }
    }

    /// Resolves a human-supplied broker address, ignoring surrounding
    /// whitespace.
    pub fn parse(url: &str) -> (r: Result<ServerInfo, String>)
        ensures
            parse_agrees(r, parse_address(trimmed(url@))),
    {
        ServerInfo::parse_trimmed(trim_str(url))
    }
}

/// The character of a decimal digit.
pub open spec fn digit_char(d: nat) -> char {
    if d == 0 { '0' } else if d == 1 { '1' } else if d == 2 { '2' } else if d == 3 { '3' }
    else if d == 4 { '4' } else if d == 5 { '5' } else if d == 6 { '6' } else if d == 7 { '7' }
    else if d == 8 { '8' } else { '9' }
}

/// Decimal notation of a number, without leading zeros.
pub open spec fn decimal(n: nat) -> Seq<char>
    decreases n,
{
    if n < 10 {
        seq![digit_char(n)]
    } else {
        decimal(n / 10).push(digit_char(n % 10))
    }
}

/// The scheme that `ws_url` writes for a protocol.
pub open spec fn ws_scheme(p: Protocol) -> Seq<char> {
    if p == Protocol::Wss { "wss"@ } else { "ws"@ }
}

/// `scheme://host:port/path` for an endpoint.
pub open spec fn url_of(v: ServerView) -> Seq<char> {
    ws_scheme(v.protocol) + "://"@ + v.host + ":"@ + decimal(v.port as nat) + v.path
}

fn digit_str(d: u16) -> (r: &'static str)
    requires
        d < 10,
    ensures
        r@ == seq![digit_char(d as nat)],
{
    proof {
        reveal_strlit("0");
        reveal_strlit("1");
        reveal_strlit("2");
        reveal_strlit("3");
        reveal_strlit("4");
        reveal_strlit("5");
        reveal_strlit("6");
        reveal_strlit("7");
        reveal_strlit("8");
        reveal_strlit("9");
    }
    let r = if d == 0 { "0" } else if d == 1 { "1" } else if d == 2 { "2" } else if d == 3 { "3" }
    else if d == 4 { "4" } else if d == 5 { "5" } else if d == 6 { "6" } else if d == 7 { "7" }
    else if d == 8 { "8" } else { "9" };
    assert(r@ =~= seq![digit_char(d as nat)]);
    r
}

/// Decimal notation of `n`.
fn decimal_string(n: u16) -> (r: String)
    ensures
        r@ == decimal(n as nat),
    decreases n,
{
    if n < 10 {
        String::from_str(digit_str(n))
    } else {
        let mut s = decimal_string(n / 10);
        s.append(digit_str(n % 10));
        assert(s@ =~= decimal(n as nat));
        s
    }
}

impl ServerInfo {
    /// The WebSocket URL of this endpoint: `ws://` (or `wss://`),
    /// then `host:port` and the path.
    pub fn ws_url(&self) -> (r: String)
        ensures
            r@ == url_of(self@),
    {
        let scheme = match self.protocol {
            Protocol::Wss => "wss",
            _ => "ws",
        };
        let r = String::from_str(scheme).concat("://").concat(self.host.as_str()).concat(
            ":",
        ).concat(decimal_string(self.port).as_str()).concat(self.path.as_str());
        r
    }
}

/// Connection settings chosen by the user.
#[derive(Debug, Clone)]
pub struct Config {
    /// Broker address, such as `tcp://localhost:1883`.
    pub server: String,
    /// Client identifier; empty lets the broker or the front end pick one.
    pub client_id: String,
    /// Topic filter to subscribe to.
    pub topic: String,
    /// Authentication token; empty means no credentials.
    pub token: String,
}

impl Default for Config {
    fn default() -> (r: Config)
        ensures
            r.server@ == "tcp://localhost:1883"@,
            r.client_id@ == Seq::<char>::empty(),
            r.topic@ == "notice/#"@,
            r.token@ == Seq::<char>::empty(),
    {
        Config {
            server: String::from_str("tcp://localhost:1883"),
            client_id: String::new(),
            topic: String::from_str("notice/#"),
            token: String::new(),
        }
    }
}

impl Config {
    /// Resolves the configured broker address.
    pub fn parse_server(&self) -> (r: Result<ServerInfo, String>)
        ensures
            parse_agrees(r, parse_address(trimmed(self.server@))),
    {
        ServerInfo::parse(self.server.as_str())
    }
}

proof fn lemma_digit_char(d: nat)
    requires
        d < 10,
    ensures
        is_digit(digit_char(d)),
        (digit_char(d) as int) - ('0' as int) == d,
{
}

proof fn lemma_decimal(n: nat)
    ensures
        decimal(n).len() > 0,
        all_digits(decimal(n)),
        digits_value(decimal(n)) == n,
    decreases n,
{
    if n < 10 {
        lemma_digit_char(n);
        assert(decimal(n).drop_last() =~= Seq::<char>::empty());
        assert(digits_value(Seq::<char>::empty()) == 0);
        assert(decimal(n).last() == digit_char(n));
    } else {
        lemma_decimal(n / 10);
        lemma_digit_char(n % 10);
        assert(decimal(n).drop_last() =~= decimal(n / 10));
        assert(decimal(n).last() == digit_char(n % 10));
        assert(n == (n / 10) * 10 + n % 10);
    }
}

/// Writing an endpoint as `scheme://host:port/path` and resolving the text
/// again gives back its host, port and path, and its scheme when that is a
/// WebSocket one (for the TCP variants the URL names `ws`). This holds for
/// every host that is non-empty and holds no `/`, and every path that
/// starts with `/`.
pub proof fn lemma_url_round_trip(v: ServerView)
    requires
        v.host.len() > 0,
        !contains(v.host, '/'),
        v.path.len() > 0,
        v.path[0] == '/',
    ensures
        parse_address(url_of(v)) is Ok,
        parse_address(url_of(v))->Ok_0.host == v.host,
        parse_address(url_of(v))->Ok_0.port == v.port,
        parse_address(url_of(v))->Ok_0.path == v.path,
        v.protocol == Protocol::Ws || v.protocol == Protocol::Wss
            ==> parse_address(url_of(v))->Ok_0.protocol == v.protocol,
{
    reveal_strlit("wss");
    reveal_strlit("ws");
    reveal_strlit("://");
    reveal_strlit(":");
    reveal_strlit("ssl://");
    reveal_strlit("tcp://");
    reveal_strlit("wss://");
    reveal_strlit("ws://");
    let u = url_of(v);
    let dec = decimal(v.port as nat);
    lemma_decimal(v.port as nat);
    let h = v.host.len() as int;
    let hp = v.host + ":"@ + dec;
    let rest = hp + v.path;
    if v.protocol == Protocol::Wss {
        assert(u =~= "wss://"@ + rest);
        assert(u.take(6)[0] == 'w');
        assert(u.take(6)[0] != "ssl://"@[0]);
        assert(u.take(6)[0] != "tcp://"@[0]);
        assert(u.take(6) =~= "wss://"@);
        assert(u.skip(6) =~= rest);
        assert(split_scheme(u) == (Protocol::Wss, rest));
    } else {
        assert(u =~= "ws://"@ + rest);
        assert(u.take(6)[0] == 'w');
        assert(u.take(6)[2] == ':');
        assert(u.take(6)[0] != "ssl://"@[0]);
        assert(u.take(6)[0] != "tcp://"@[0]);
        assert(u.take(6)[2] != "wss://"@[2]);
        assert(u.take(5) =~= "ws://"@);
        assert(u.skip(5) =~= rest);
        assert(split_scheme(u) == (Protocol::Ws, rest));
    }
    let k = hp.len() as int;
    assert forall|j: int| 0 <= j < k implies rest[j] != '/' by {
        if j < h {
            assert(rest[j] == v.host[j]);
        } else if j > h {
            assert(rest[j] == dec[j - h - 1]);
            assert(is_digit(dec[j - h - 1]));
        }
    }
    assert(is_first(rest, '/', k));
    let f = first_index(rest, '/');
    assert(is_first(rest, '/', f));
    assert(f == k);
    assert(rest.take(k) =~= hp);
    assert(rest.skip(k) =~= v.path);
    assert forall|j: int| h < j < hp.len() implies hp[j] != ':' by {
        assert(hp[j] == dec[j - h - 1]);
        assert(is_digit(dec[j - h - 1]));
    }
    assert(is_last(hp, ':', h));
    let l = last_index(hp, ':');
    assert(is_last(hp, ':', l));
    assert(l == h);
    assert(hp.skip(h + 1) =~= dec);
    assert(hp.take(h) =~= v.host);
    assert(is_digit(dec[0]));
    assert(port_value(dec) == Some(v.port));
}

} // verus!
