//! Parsers for the forwarding expressions of the command line:
//! `-L` (local), `-T` (remote), `-R` (legacy remote) and `-H` (HTTP remote).

use vstd::prelude::*;

use crate::config::model::{
    empty_local_binding, empty_remote_binding, local_binding_views, local_forward_of, opt_str,
    remote_binding_views, remote_forward_of, ConfigError, LocalBindingView, LocalForward,
    LocalForwardBinding, LocalForwardView, RemoteBindingView, RemoteForward, RemoteForwardBinding,
    RemoteForwardView,
};
use crate::text::{
    chars_of, find_char, find_index, has_prefix, lemma_find_concat, lemma_find_index,
    lemma_find_none, lemma_rfind_index,
    parse_i32, parse_i32_spec, parse_u16, parse_u16_spec, push_chars, push_str, rfind_char,
    rfind_index, starts_with, string_of, trim, trim_chars,
};

verus! {

// ---------------------------------------------------------------------------
// Relay names
// ---------------------------------------------------------------------------

/// A character of the relay-name class `[0-9A-Za-z/_\-\.]`.
pub open spec fn is_relay_name_char(c: char) -> bool {
    ||| ('0' <= c && c <= '9')
    ||| ('A' <= c && c <= 'Z')
    ||| ('a' <= c && c <= 'z')
    ||| c == '/'
    ||| c == '_'
    ||| c == '-'
    ||| c == '.'
}

/// Whether `s` matches the relay-name pattern `^[0-9A-Za-z/_\-\.]+$`.
pub open spec fn is_relay_name(s: Seq<char>) -> bool {
    s.len() > 0 && forall|i: int| 0 <= i < s.len() ==> is_relay_name_char(#[trigger] s[i])
}

/// Tests a relay name against `^[0-9A-Za-z/_\-\.]+$`.
pub fn relay_name_ok(s: &[char]) -> (r: bool)
    ensures
        r == is_relay_name(s@),
{
    if s.len() == 0 {
        return false;
    }
    let mut i: usize = 0;
    while i < s.len()
        invariant
            i <= s.len(),
            forall|j: int| 0 <= j < i ==> is_relay_name_char(#[trigger] s@[j]),
        decreases s.len() - i,
    {
        let c = s[i];
        let ok = ('0' <= c && c <= '9') || ('A' <= c && c <= 'Z') || ('a' <= c && c <= 'z') || c
            == '/' || c == '_' || c == '-' || c == '.';
        if !ok {
            assert(!is_relay_name_char(s@[i as int]));
            return false;
        }
        i = i + 1;
    }
    true
}

// ---------------------------------------------------------------------------
// Ports
// ---------------------------------------------------------------------------

/// A port such as `29876` or `29876U`: a number in 1..=65535, negated when
/// it carries the UDP suffix `U`/`u`; surrounding whitespace is ignored.
pub open spec fn port_spec(s: Seq<char>) -> Option<int> {
    let t = trim(s);
    if t.len() == 0 {
        None
    } else {
        let udp = t.last() == 'U' || t.last() == 'u';
        let num = if udp {
            t.drop_last()
        } else {
            t
        };
        match parse_i32_spec(num) {
            Some(p) => if 0 < p <= 65535 {
                Some(
                    if udp {
                        -p
                    } else {
                        p
                    },
                )
            } else {
                None
            },
            None => None,
        }
    }
}

/// Reads a port like `29876` or `29876U` (negative for UDP).
pub fn try_parse_port(s: &[char]) -> (r: Option<i32>)
    ensures
        match r {
            Some(p) => port_spec(s@) == Some(p as int),
            None => port_spec(s@) is None,
        },
{
    let t = trim_chars(s);
    if t.len() == 0 {
        return None;
    }
    let last = t[t.len() - 1];
    let udp = last == 'U' || last == 'u';
    let num = if udp {
        &t[0..t.len() - 1]
    } else {
        t
    };
    assert(udp ==> num@ =~= t@.drop_last());
    match parse_i32(num) {
        Some(p) => {
            if p <= 0 || p > 65535 {
                None
            } else if udp {
                Some(-p)
            } else {
                Some(p)
            }
        },
        None => None,
    }
}

/// A port with an optional name, `port/name` or `name/port` (split at the
/// first `/`), or a bare port.
pub open spec fn port_with_name_spec(s: Seq<char>) -> Option<(int, Option<Seq<char>>)> {
    match find_index(s, '/') {
        Some(i) => {
            let left = s.take(i);
            let right = s.skip(i + 1);
            match port_spec(left) {
                Some(p) => Some((p, Some(right))),
                None => match port_spec(right) {
                    Some(p) => Some((p, Some(left))),
                    None => None,
                },
            }
        },
        None => match port_spec(s) {
            Some(p) => Some((p, None)),
            None => None,
        },
    }
}

/// A `Parse` error whose message is `before` + `middle` + `after`.
fn parse_error(before: &str, middle: &[char], after: &str) -> (e: ConfigError)
    ensures
        e matches ConfigError::Parse(m) && m@ == before@ + middle@ + after@,
{
    let mut m: Vec<char> = Vec::new();
    push_str(&mut m, before);
    push_chars(&mut m, middle);
    push_str(&mut m, after);
    ConfigError::Parse(string_of(m.as_slice()))
}

/// A `Parse` error with a fixed message.
fn parse_error_text(msg: &str) -> (e: ConfigError)
    ensures
        e matches ConfigError::Parse(m) && m@ == msg@,
{
    ConfigError::Parse(msg.to_owned())
}

/// Reads a port with an optional `/port_name` (or `port_name/` prefix).
fn parse_port_with_name(s: &[char]) -> (r: Result<(i32, Option<String>), ConfigError>)
    ensures
        match r {
            Ok((p, n)) => port_with_name_spec(s@) == Some((p as int, opt_str(n))),
            Err(e) => port_with_name_spec(s@) is None && e is Parse,
        },
{
    match find_char(s, '/') {
        Some(i) => {
            proof {
                lemma_find_index(s@, '/');
            }
            let n = s.len();
            let left = &s[0..i];
            let right = &s[i + 1..n];
            assert(left@ =~= s@.take(i as int));
            assert(right@ =~= s@.skip(i + 1));
            if let Some(p) = try_parse_port(left) {
                return Ok((p, Some(string_of(right))));
            }
            if let Some(p) = try_parse_port(right) {
                return Ok((p, Some(string_of(left))));
            }
            Err(parse_error("Cannot parse port from '", s, "'"))
        },
        None => {
            match try_parse_port(s) {
                Some(p) => Ok((p, None)),
                None => Err(parse_error("Cannot parse port number from '", s, "'")),
            }
        },
    }
}

// ---------------------------------------------------------------------------
// Local bindings
// ---------------------------------------------------------------------------

/// A local binding with only the socket path set.
pub open spec fn local_socket_binding(s: Seq<char>) -> LocalBindingView {
    LocalBindingView { bind_local_socket: Some(s), ..empty_local_binding() }
}

/// One binding of a `-L` expression: `host:port[/name]`, `port[/name]`,
/// `name/port`, `portU`, or (when no port can be read) a socket path.
pub open spec fn local_binding_spec(input: Seq<char>) -> Option<LocalBindingView> {
    let s = trim(input);
    if s.len() == 0 {
        None
    } else {
        match find_index(s, ':') {
            Some(i) => match port_with_name_spec(s.skip(i + 1)) {
                Some((p, name)) => Some(
                    LocalBindingView {
                        bind_address: Some(s.take(i)),
                        bind_port: p,
                        port_name: name,
                        ..empty_local_binding()
                    },
                ),
                None => None,
            },
            None => match port_with_name_spec(s) {
                None => Some(local_socket_binding(s)),
                Some((p, name)) => if p == 0 {
                    Some(local_socket_binding(s))
                } else {
                    Some(LocalBindingView { bind_port: p, port_name: name, ..empty_local_binding() })
                },
            },
        }
    }
}

/// The first `/` of `a/b`, when `a` has none, is the one after `a`.
proof fn lemma_split_at_first(a: Seq<char>, b: Seq<char>, c: char)
    requires
        !a.contains(c),
    ensures
        find_index(a + (seq![c] + b), c) == Some(a.len() as int),
        (a + (seq![c] + b)).take(a.len() as int) == a,
        (a + (seq![c] + b)).skip(a.len() as int + 1) == b,
{
    let t = seq![c] + b;
    assert(t[0] == c);
    assert(find_index(t, c) == Some(0int));
    lemma_find_concat(a, t, c);
    assert((a + t).take(a.len() as int) =~= a);
    assert((a + t).skip(a.len() as int + 1) =~= b);
}

/// The last `:` of `a:b`, when `b` has none, is the one before `b`.
proof fn lemma_split_at_last(a: Seq<char>, b: Seq<char>, c: char)
    requires
        !b.contains(c),
    ensures
        rfind_index(a + (seq![c] + b), c) == Some(a.len() as int),
        (a + (seq![c] + b)).take(a.len() as int) == a,
        (a + (seq![c] + b)).skip(a.len() as int + 1) == b,
    decreases b.len(),
{
    let s = a + (seq![c] + b);
    if b.len() == 0 {
        assert(s.last() == c);
    } else {
        let b2 = b.drop_last();
        assert(!b2.contains(c)) by {
            assert forall|j: int| 0 <= j < b2.len() implies b2[j] != c by {
                assert(b2[j] == b[j]);
            }
        }
        lemma_split_at_last(a, b2, c);
        assert(s.drop_last() =~= a + (seq![c] + b2));
        assert(s.last() == b.last());
        assert(b[b.len() - 1] == b.last());
    }
    assert(s.take(a.len() as int) =~= a);
    assert(s.skip(a.len() as int + 1) =~= b);
}

/// A port and a name on either side of a `/` read as that port and that
/// name: `port/name`, and `name/port` when the name is no port.
pub proof fn law_port_and_name_read_back(port: Seq<char>, name: Seq<char>)
    requires
        !port.contains('/'),
        port_spec(port) is Some,
    ensures
        port_with_name_spec(port + (seq!['/'] + name)) == Some(
            (port_spec(port).unwrap(), Some(name)),
        ),
        !name.contains('/') && port_spec(name) is None ==> port_with_name_spec(
            name + (seq!['/'] + port),
        ) == Some((port_spec(port).unwrap(), Some(name))),
{
    lemma_split_at_first(port, name, '/');
    if !name.contains('/') {
        lemma_split_at_first(name, port, '/');
    }
}

/// A `-T` binding `name/host:port` binds to that host and port under that
/// port name; `host:port` alone has no port name.
pub proof fn law_remote_binding_keeps_host_port_and_name(
    name: Seq<char>,
    host: Seq<char>,
    port: Seq<char>,
)
    requires
        !name.contains('/'),
        parse_u16_spec(name) is None,
        !host.contains('/'),
        !host.contains(':'),
        !port.contains(':'),
        port_spec(port) is Some,
        trim(host + (seq![':'] + port)) == host + (seq![':'] + port),
        trim(name + (seq!['/'] + (host + (seq![':'] + port)))) == name + (seq!['/'] + (host + (
        seq![':'] + port))),
    ensures
        remote_binding_spec(host + (seq![':'] + port)) == Some(
            RemoteBindingView {
                host: Some(host),
                host_port: port_spec(port).unwrap(),
                port_name: None,
                ..empty_remote_binding()
            },
        ),
        remote_binding_spec(name + (seq!['/'] + (host + (seq![':'] + port)))) == Some(
            RemoteBindingView {
                host: Some(host),
                host_port: port_spec(port).unwrap(),
                port_name: Some(name),
                ..empty_remote_binding()
            },
        ),
{
    let hp = host + (seq![':'] + port);
    lemma_split_at_last(host, port, ':');
    lemma_find_none(host, '/');
    let nh = name + (seq!['/'] + host);
    let whole = name + (seq!['/'] + hp);
    assert(whole =~= nh + (seq![':'] + port));
    lemma_split_at_last(nh, port, ':');
    lemma_split_at_first(name, host, '/');
}

/// A host in front of a port: `host:rest` binds to `host`, with the port
/// and the port name that `rest` gives on its own (so `host:port/name`
/// keeps the name).
pub proof fn law_local_binding_host_keeps_port_and_name(host: Seq<char>, rest: Seq<char>)
    requires
        !host.contains(':'),
        !rest.contains(':'),
        trim(host + (seq![':'] + rest)) == host + (seq![':'] + rest),
        trim(rest) == rest,
        local_binding_spec(rest) matches Some(b) && b.bind_local_socket is None,
    ensures
        local_binding_spec(host + (seq![':'] + rest)) == Some(
            LocalBindingView { bind_address: Some(host), ..local_binding_spec(rest).unwrap() },
        ),
{
    let t = seq![':'] + rest;
    let s = host + t;
    assert(t[0] == ':');
    assert(find_index(t, ':') == Some(0int));
    lemma_find_concat(host, t, ':');
    assert(s.take(host.len() as int) =~= host);
    assert(s.skip(host.len() as int + 1) =~= rest);
    lemma_find_none(rest, ':');
}

/// The bindings of a `;`-separated list, each read by [`local_binding_spec`].
pub open spec fn local_bindings_spec(s: Seq<char>) -> Option<Seq<LocalBindingView>>
    decreases s.len(),
{
    match find_index(s, ';') {
        Some(i) => if 0 <= i < s.len() {
            match local_binding_spec(s.take(i)) {
                Some(b) => match local_bindings_spec(s.skip(i + 1)) {
                    Some(rest) => Some(seq![b] + rest),
                    None => None,
                },
                None => None,
            }
        } else {
            None
        },
        None => match local_binding_spec(s) {
            Some(b) => Some(seq![b]),
            None => None,
        },
    }
}

/// Parses one local binding segment such as `29876`, `127.0.0.1:29876`,
/// `29876/myport`, `29876U`, or `/tmp/mysocket`.
fn parse_local_binding(input: &[char]) -> (r: Result<LocalForwardBinding, ConfigError>)
    ensures
        match r {
            Ok(b) => local_binding_spec(input@) == Some(b@),
            Err(e) => local_binding_spec(input@) is None && e is Parse,
        },
{
    let s = trim_chars(input);
    if s.len() == 0 {
        return Err(parse_error_text("Empty binding in local forward expression"));
    }
    match find_char(s, ':') {
        Some(i) => {
            proof {
                lemma_find_index(s@, ':');
            }
            let host = &s[0..i];
            let port_part = &s[i + 1..s.len()];
            assert(host@ =~= s@.take(i as int));
            assert(port_part@ =~= s@.skip(i + 1));
            let (port, port_name) = parse_port_with_name(port_part)?;
            let mut b = LocalForwardBinding::empty();
            b.bind_address = Some(string_of(host));
            b.bind_port = port;
            b.port_name = port_name;
            Ok(b)
        },
        None => {
            match parse_port_with_name(s) {
                Err(_) => {
                    let mut b = LocalForwardBinding::empty();
                    b.bind_local_socket = Some(string_of(s));
                    Ok(b)
                },
                Ok((port, port_name)) => {
                    let mut b = LocalForwardBinding::empty();
                    if port == 0 {
                        b.bind_local_socket = Some(string_of(s));
                    } else {
                        b.bind_port = port;
                        b.port_name = port_name;
                    }
                    Ok(b)
                },
            }
        },
    }
}

/// Parses the `;`-separated bindings of a `-L` expression.
fn parse_local_bindings(s: &[char]) -> (r: Result<Vec<LocalForwardBinding>, ConfigError>)
    ensures
        match r {
            Ok(v) => local_bindings_spec(s@) == Some(local_binding_views(v@)),
            Err(e) => local_bindings_spec(s@) is None && e is Parse,
        },
{
    let mut acc: Vec<LocalForwardBinding> = Vec::new();
    let mut rest: &[char] = s;
    assert(local_binding_views(acc@) =~= Seq::<LocalBindingView>::empty());
    loop
        invariant
            local_bindings_spec(s@) == match local_bindings_spec(rest@) {
                Some(r) => Some(local_binding_views(acc@) + r),
                None => None,
            },
        decreases rest@.len(),
    {
        proof {
            lemma_find_index(rest@, ';');
        }
        match find_char(rest, ';') {
            Some(i) => {
                let n = rest.len();
                let seg = &rest[0..i];
                let tail = &rest[i + 1..n];
                assert(seg@ =~= rest@.take(i as int));
                assert(tail@ =~= rest@.skip(i + 1));
                let b = parse_local_binding(seg)?;
                let ghost old_acc = acc@;
                acc.push(b);
                proof {
                    assert(local_binding_views(acc@) =~= local_binding_views(old_acc).push(b@));
                    if let Some(r) = local_bindings_spec(tail@) {
                        assert(local_binding_views(old_acc) + (seq![b@] + r) =~= local_binding_views(
                            acc@,
                        ) + r);
                    }
                }
                rest = tail;
            },
            None => {
                let b = parse_local_binding(rest)?;
                let ghost old_acc = acc@;
                acc.push(b);
                assert(local_binding_views(acc@) =~= local_binding_views(old_acc) + seq![b@]);
                return Ok(acc);
            },
        }
    }
}

/// A `-L` expression `[bind_address:]port[/port_name]{;...}:relay_name`,
/// split at its last `:`.
pub open spec fn local_forward_spec(expr: Seq<char>) -> Option<LocalForwardView> {
    let e = trim(expr);
    if e.len() == 0 {
        None
    } else {
        match rfind_index(e, ':') {
            None => None,
            Some(i) => {
                let left = e.take(i);
                let relay = e.skip(i + 1);
                if relay.len() == 0 || !is_relay_name(relay) || left.len() == 0 {
                    None
                } else {
                    match local_bindings_spec(left) {
                        Some(bs) => Some(local_forward_of(relay, bs)),
                        None => None,
                    }
                }
            },
        }
    }
}

/// Parses a `-L` expression: `[bind_address:]port[/port_name]{;...}:relay_name`.
pub fn parse_local_forward(expr: &str) -> (r: Result<LocalForward, ConfigError>)
    ensures
        match r {
            Ok(f) => local_forward_spec(expr@) == Some(f@),
            Err(e) => local_forward_spec(expr@) is None && e is Parse,
        },
{
    let all = chars_of(expr);
    let e = trim_chars(all.as_slice());
    if e.len() == 0 {
        return Err(parse_error_text("Empty local forward expression"));
    }
    let last_colon = match rfind_char(e, ':') {
        Some(i) => i,
        None => {
            return Err(
                parse_error("Invalid local forward expression (no colon separator): '", e, "'"),
            );
        },
    };
    proof {
        lemma_rfind_index(e@, ':');
    }
    let left = &e[0..last_colon];
    let relay = &e[last_colon + 1..e.len()];
    assert(left@ =~= e@.take(last_colon as int));
    assert(relay@ =~= e@.skip(last_colon + 1));
    if relay.len() == 0 {
        return Err(parse_error_text("Empty relay name in local forward expression"));
    }
    if !relay_name_ok(relay) {
        return Err(parse_error("Invalid relay name: '", relay, "'"));
    }
    if left.len() == 0 {
        return Err(parse_error_text("No binding specification in local forward expression"));
    }
    let bindings = parse_local_bindings(left)?;
    let mut f = LocalForward::default();
    f.relay_name = string_of(relay);
    f.bindings = bindings;
    Ok(f)
}

// ---------------------------------------------------------------------------
// Remote bindings
// ---------------------------------------------------------------------------

/// The binding syntax of a remote forwarding expression.
#[derive(Debug, Clone, Copy)]
pub enum RemoteSyntax {
    /// `-T relay_name:[port_name/][host:]hostport{;...}`
    Standard,
    /// `-R relay_name:host:[port_name/]port{;...}`
    Legacy,
    /// `-H relay_name:{http|https}/[host][/path]:hostport{;...}`
    Http,
}

/// A remote binding with only the socket path set.
pub open spec fn remote_socket_binding(s: Seq<char>) -> RemoteBindingView {
    RemoteBindingView { local_socket: Some(s), ..empty_remote_binding() }
}

/// A remote binding with only a port and optional port name set.
pub open spec fn remote_port_binding(p: int, name: Option<Seq<char>>) -> RemoteBindingView {
    RemoteBindingView { host_port: p, port_name: name, ..empty_remote_binding() }
}

/// A colon-free remote binding: `port_name/port`, `port/port_name`, a bare
/// port, or (when no port can be read) a socket path.
pub open spec fn remote_bare_spec(s: Seq<char>) -> RemoteBindingView {
    match find_index(s, '/') {
        Some(i) => {
            let left = s.take(i);
            let right = s.skip(i + 1);
            match port_spec(right) {
                Some(p) => remote_port_binding(p, Some(left)),
                None => match port_spec(left) {
                    Some(p) => remote_port_binding(p, Some(right)),
                    None => remote_socket_binding(s),
                },
            }
        },
        None => match port_spec(s) {
            Some(p) => remote_port_binding(p, None),
            None => remote_socket_binding(s),
        },
    }
}

/// An optional `port_name/` prefix: present when a `/` occurs and the text
/// before it is not a `u16`.
pub open spec fn port_name_prefix_spec(s: Seq<char>) -> (Option<Seq<char>>, Seq<char>) {
    match find_index(s, '/') {
        Some(i) => if parse_u16_spec(s.take(i)) is Some {
            (None, s)
        } else {
            (Some(s.take(i)), s.skip(i + 1))
        },
        None => (None, s),
    }
}

/// One binding of a `-T` expression: `[port_name/][host:]port` split at the
/// last `:`, else a colon-free binding.
pub open spec fn remote_binding_spec(input: Seq<char>) -> Option<RemoteBindingView> {
    let s = trim(input);
    if s.len() == 0 {
        None
    } else {
        match rfind_index(s, ':') {
            Some(i) => match port_spec(s.skip(i + 1)) {
                Some(p) => {
                    let (pn, host) = port_name_prefix_spec(s.take(i));
                    Some(
                        RemoteBindingView {
                            host: Some(host),
                            host_port: p,
                            port_name: pn,
                            ..empty_remote_binding()
                        },
                    )
                },
                None => Some(remote_socket_binding(s)),
            },
            None => Some(remote_bare_spec(s)),
        }
    }
}

/// One binding of a `-R` expression: `host:[port_name/]port` split at the
/// first `:`, else a colon-free binding.
pub open spec fn legacy_binding_spec(input: Seq<char>) -> Option<RemoteBindingView> {
    let s = trim(input);
    if s.len() == 0 {
        None
    } else {
        match find_index(s, ':') {
            Some(i) => match port_with_name_spec(s.skip(i + 1)) {
                Some((p, name)) => Some(
                    RemoteBindingView {
                        host: Some(s.take(i)),
                        host_port: p,
                        port_name: name,
                        ..empty_remote_binding()
                    },
                ),
                None => None,
            },
            None => Some(remote_bare_spec(s)),
        }
    }
}

/// The target of an HTTP binding after its scheme: `[host][/path][:port]`.
pub open spec fn http_target_spec(
    scheme: Seq<char>,
    rest: Seq<char>,
    default_port: int,
) -> RemoteBindingView {
    let (hp, port) = match rfind_index(rest, ':') {
        Some(i) => match parse_i32_spec(rest.skip(i + 1)) {
            Some(p) => if 0 < p <= 65535 {
                (rest.take(i), p)
            } else {
                (rest, default_port)
            },
            None => (rest, default_port),
        },
        None => (rest, default_port),
    };
    let (host, path) = match find_index(hp, '/') {
        Some(j) => (
            if j == 0 {
                None
            } else {
                Some(hp.take(j))
            },
            if hp.skip(j) == seq!['/'] {
                None
            } else {
                Some(hp.skip(j))
            },
        ),
        None => (
            if hp.len() == 0 {
                None
            } else {
                Some(hp)
            },
            None,
        ),
    };
    RemoteBindingView {
        host,
        host_port: port,
        port_name: Some(scheme),
        local_socket: None,
        http: true,
        insecure: false,
        path,
    }
}

/// The target of an HTTP binding in the colon form: `[host][:hostport][/path]`,
/// the path starting at the first `/`.
pub open spec fn http_colon_target_spec(
    scheme: Seq<char>,
    rest: Seq<char>,
    default_port: int,
) -> RemoteBindingView {
    let (hp, path) = match find_index(rest, '/') {
        Some(j) => (
            rest.take(j),
            if rest.skip(j) == seq!['/'] {
                None
            } else {
                Some(rest.skip(j))
            },
        ),
        None => (rest, None),
    };
    let (host, port) = match rfind_index(hp, ':') {
        Some(i) => match parse_i32_spec(hp.skip(i + 1)) {
            Some(p) => if 0 < p <= 65535 {
                (hp.take(i), p)
            } else {
                (hp, default_port)
            },
            None => (hp, default_port),
        },
        None => (hp, default_port),
    };
    RemoteBindingView {
        host: if host.len() == 0 {
            None
        } else {
            Some(host)
        },
        host_port: port,
        port_name: Some(scheme),
        local_socket: None,
        http: true,
        insecure: false,
        path,
    }
}

/// One binding of a `-H` expression: `{http|https}/[host][/path][:hostport]`,
/// or `{http|https}:[host][:hostport][/path]`, the port defaulting to 80 or
/// 443.
pub open spec fn http_binding_spec(input: Seq<char>) -> Option<RemoteBindingView> {
    let s = trim(input);
    if s.len() == 0 {
        None
    } else if has_prefix(s, "https/"@) {
        Some(http_target_spec("https"@, s.skip("https/"@.len() as int), 443))
    } else if has_prefix(s, "http/"@) {
        Some(http_target_spec("http"@, s.skip("http/"@.len() as int), 80))
    } else if has_prefix(s, "https:"@) {
        Some(http_colon_target_spec("https"@, s.skip("https:"@.len() as int), 443))
    } else if has_prefix(s, "http:"@) {
        Some(http_colon_target_spec("http"@, s.skip("http:"@.len() as int), 80))
    } else {
        None
    }
}

/// One remote binding in the given syntax.
pub open spec fn remote_binding_by(k: RemoteSyntax, s: Seq<char>) -> Option<RemoteBindingView> {
    match k {
        RemoteSyntax::Standard => remote_binding_spec(s),
        RemoteSyntax::Legacy => legacy_binding_spec(s),
        RemoteSyntax::Http => http_binding_spec(s),
    }
}

/// The bindings of a `;`-separated list in the given syntax.
pub open spec fn remote_bindings_spec(k: RemoteSyntax, s: Seq<char>) -> Option<
    Seq<RemoteBindingView>,
>
    decreases s.len(),
{
    match find_index(s, ';') {
        Some(i) => if 0 <= i < s.len() {
            match remote_binding_by(k, s.take(i)) {
                Some(b) => match remote_bindings_spec(k, s.skip(i + 1)) {
                    Some(rest) => Some(seq![b] + rest),
                    None => None,
                },
                None => None,
            }
        } else {
            None
        },
        None => match remote_binding_by(k, s) {
            Some(b) => Some(seq![b]),
            None => None,
        },
    }
}

/// A remote expression `relay_name:bindings`, split at its first `:`.
pub open spec fn remote_forward_spec(k: RemoteSyntax, expr: Seq<char>) -> Option<
    RemoteForwardView,
> {
    let e = trim(expr);
    if e.len() == 0 {
        None
    } else {
        match find_index(e, ':') {
            None => None,
            Some(i) => {
                let relay = e.take(i);
                let right = e.skip(i + 1);
                if relay.len() == 0 || !is_relay_name(relay) || right.len() == 0 {
                    None
                } else {
                    match remote_bindings_spec(k, right) {
                        Some(bs) => Some(remote_forward_of(relay, bs)),
                        None => None,
                    }
                }
            },
        }
    }
}

/// A binding holding only a socket path.
fn socket_binding(s: &[char]) -> (b: RemoteForwardBinding)
    ensures
        b@ == remote_socket_binding(s@),
{
    let mut b = RemoteForwardBinding::empty();
    b.local_socket = Some(string_of(s));
    b
}

/// A binding holding only a port and an optional port name.
fn port_binding(p: i32, name: Option<&[char]>) -> (b: RemoteForwardBinding)
    ensures
        b@ == remote_port_binding(
            p as int,
            match name {
                Some(n) => Some(n@),
                None => None,
            },
        ),
{
    let mut b = RemoteForwardBinding::empty();
    b.host_port = p;
    b.port_name = match name {
        Some(n) => Some(string_of(n)),
        None => None,
    };
    b
}

/// Parses a colon-free remote binding.
fn parse_remote_bare(s: &[char]) -> (b: RemoteForwardBinding)
    ensures
        b@ == remote_bare_spec(s@),
{
    match find_char(s, '/') {
        Some(i) => {
            proof {
                lemma_find_index(s@, '/');
            }
            let n = s.len();
            let left = &s[0..i];
            let right = &s[i + 1..n];
            assert(left@ =~= s@.take(i as int));
            assert(right@ =~= s@.skip(i + 1));
            if let Some(p) = try_parse_port(right) {
                return port_binding(p, Some(left));
            }
            if let Some(p) = try_parse_port(left) {
                return port_binding(p, Some(right));
            }
            socket_binding(s)
        },
        None => match try_parse_port(s) {
            Some(p) => port_binding(p, None),
            None => socket_binding(s),
        },
    }
}

/// Splits an optional `port_name/` prefix off `s`: `(Some(port_name), rest)`
/// when a `/` is present and the text before it is not numeric, otherwise
/// `(None, s)`.
fn split_port_name_prefix(s: &[char]) -> (r: (Option<&[char]>, &[char]))
    ensures
        (
            match r.0 {
                Some(n) => Some(n@),
                None => None,
            },
            r.1@,
        ) == port_name_prefix_spec(s@),
{
    match find_char(s, '/') {
        Some(i) => {
            proof {
                lemma_find_index(s@, '/');
            }
            let n = s.len();
            let left = &s[0..i];
            let right = &s[i + 1..n];
            assert(left@ =~= s@.take(i as int));
            assert(right@ =~= s@.skip(i + 1));
            if parse_u16(left).is_some() {
                (None, s)
            } else {
                (Some(left), right)
            }
        },
        None => (None, s),
    }
}

/// Parses one `-T` binding segment: `[port_name/][host:]port_or_socket`.
fn parse_remote_binding(input: &[char]) -> (r: Result<RemoteForwardBinding, ConfigError>)
    ensures
        match r {
            Ok(b) => remote_binding_spec(input@) == Some(b@),
            Err(e) => remote_binding_spec(input@) is None && e is Parse,
        },
{
    let s = trim_chars(input);
    if s.len() == 0 {
        return Err(parse_error_text("Empty binding in remote forward expression"));
    }
    match rfind_char(s, ':') {
        Some(i) => {
            proof {
                lemma_rfind_index(s@, ':');
            }
            let n = s.len();
            let left = &s[0..i];
            let right = &s[i + 1..n];
            assert(left@ =~= s@.take(i as int));
            assert(right@ =~= s@.skip(i + 1));
            match try_parse_port(right) {
                Some(p) => {
                    let (pn, host) = split_port_name_prefix(left);
                    let mut b = RemoteForwardBinding::empty();
                    b.host = Some(string_of(host));
                    b.host_port = p;
                    b.port_name = match pn {
                        Some(x) => Some(string_of(x)),
                        None => None,
                    };
                    Ok(b)
                },
                None => Ok(socket_binding(s)),
            }
        },
        None => Ok(parse_remote_bare(s)),
    }
}

/// Parses one `-R` binding segment: `host:[port_name/]port`,
/// `[port_name/]port` or a socket path.
fn parse_remote_binding_legacy(input: &[char]) -> (r: Result<RemoteForwardBinding, ConfigError>)
    ensures
        match r {
            Ok(b) => legacy_binding_spec(input@) == Some(b@),
            Err(e) => legacy_binding_spec(input@) is None && e is Parse,
        },
{
    let s = trim_chars(input);
    if s.len() == 0 {
        return Err(parse_error_text("Empty binding in remote forward expression"));
    }
    match find_char(s, ':') {
        Some(i) => {
            proof {
                lemma_find_index(s@, ':');
            }
            let n = s.len();
            let host = &s[0..i];
            let port_segment = &s[i + 1..n];
            assert(host@ =~= s@.take(i as int));
            assert(port_segment@ =~= s@.skip(i + 1));
            let (port, port_name) = parse_port_with_name(port_segment)?;
            let mut b = RemoteForwardBinding::empty();
            b.host = Some(string_of(host));
            b.host_port = port;
            b.port_name = port_name;
            Ok(b)
        },
        None => Ok(parse_remote_bare(s)),
    }
}

/// Parses the target of an HTTP binding: `[host][/path][:hostport]`.
fn parse_http_target(scheme: &str, rest: &[char], default_port: i32) -> (b: RemoteForwardBinding)
    ensures
        b@ == http_target_spec(scheme@, rest@, default_port as int),
{
    let mut hp: &[char] = rest;
    let mut port: i32 = default_port;
    match rfind_char(rest, ':') {
        Some(i) => {
            proof {
                lemma_rfind_index(rest@, ':');
            }
            let n = rest.len();
            let maybe_port = &rest[i + 1..n];
            assert(maybe_port@ =~= rest@.skip(i + 1));
            if let Some(p) = parse_i32(maybe_port) {
                if p > 0 && p <= 65535 {
                    hp = &rest[0..i];
                    assert(hp@ =~= rest@.take(i as int));
                    port = p;
                }
            }
        },
        None => {},
    }
    let mut b = RemoteForwardBinding::empty();
    match find_char(hp, '/') {
        Some(j) => {
            proof {
                lemma_find_index(hp@, '/');
            }
            let n = hp.len();
            let h = &hp[0..j];
            let p = &hp[j..n];
            assert(h@ =~= hp@.take(j as int));
            assert(p@ =~= hp@.skip(j as int));
            if h.len() != 0 {
                b.host = Some(string_of(h));
            }
            let is_root = p.len() == 1 && p[0] == '/';
            assert(is_root == (p@ == seq!['/'])) by {
                if p@ == seq!['/'] {
                    assert(p@.len() == 1);
                }
                if is_root {
                    assert(p@ =~= seq!['/']);
                }
            }
            if !is_root {
                b.path = Some(string_of(p));
            }
        },
        None => {
            if hp.len() != 0 {
                b.host = Some(string_of(hp));
            }
        },
    }
    b.host_port = port;
    b.port_name = Some(scheme.to_owned());
    b.http = true;
    b
}

/// Parses the target of an HTTP binding in the colon form:
/// `[host][:hostport][/path]`.
fn parse_http_colon_target(scheme: &str, rest: &[char], default_port: i32) -> (b:
    RemoteForwardBinding)
    ensures
        b@ == http_colon_target_spec(scheme@, rest@, default_port as int),
{
    let mut b = RemoteForwardBinding::empty();
    let n = rest.len();
    let hp: &[char] = match find_char(rest, '/') {
        Some(j) => {
            proof {
                lemma_find_index(rest@, '/');
            }
            let p = &rest[j..n];
            assert(p@ =~= rest@.skip(j as int));
            let is_root = p.len() == 1 && p[0] == '/';
            assert(is_root == (p@ == seq!['/'])) by {
                if p@ == seq!['/'] {
                    assert(p@.len() == 1);
                }
                if is_root {
                    assert(p@ =~= seq!['/']);
                }
            }
            if !is_root {
                b.path = Some(string_of(p));
            }
            let h = &rest[0..j];
            assert(h@ =~= rest@.take(j as int));
            h
        },
        None => rest,
    };
    let mut host: &[char] = hp;
    let mut port: i32 = default_port;
    match rfind_char(hp, ':') {
        Some(i) => {
            proof {
                lemma_rfind_index(hp@, ':');
            }
            let m = hp.len();
            let maybe_port = &hp[i + 1..m];
            assert(maybe_port@ =~= hp@.skip(i + 1));
            if let Some(p) = parse_i32(maybe_port) {
                if p > 0 && p <= 65535 {
                    host = &hp[0..i];
                    assert(host@ =~= hp@.take(i as int));
                    port = p;
                }
            }
        },
        None => {},
    }
    if host.len() != 0 {
        b.host = Some(string_of(host));
    }
    b.host_port = port;
    b.port_name = Some(scheme.to_owned());
    b.http = true;
    b
}

/// Parses a single HTTP binding segment: `{http|https}/[host][/path][:hostport]`
/// or `{http|https}:[host][:hostport][/path]`, the port defaulting to 80 or 443.
pub fn parse_http_binding(input: &str) -> (r: Result<RemoteForwardBinding, ConfigError>)
    ensures
        match r {
            Ok(b) => http_binding_spec(input@) == Some(b@),
            Err(e) => http_binding_spec(input@) is None && e is Parse,
        },
{
    let v = chars_of(input);
    parse_http_binding_chars(v.as_slice())
}

fn parse_http_binding_chars(input: &[char]) -> (r: Result<RemoteForwardBinding, ConfigError>)
    ensures
        match r {
            Ok(b) => http_binding_spec(input@) == Some(b@),
            Err(e) => http_binding_spec(input@) is None && e is Parse,
        },
{
    let s = trim_chars(input);
    if s.len() == 0 {
        return Err(parse_error_text("Empty binding in HTTP forward expression"));
    }
    let https = chars_of("https/");
    let http = chars_of("http/");
    let https_colon = chars_of("https:");
    let http_colon = chars_of("http:");
    if starts_with(s, https.as_slice()) {
        let n = s.len();
        let rest = &s[https.len()..n];
        assert(rest@ =~= s@.skip("https/"@.len() as int));
        Ok(parse_http_target("https", rest, 443))
    } else if starts_with(s, http.as_slice()) {
        let n = s.len();
        let rest = &s[http.len()..n];
        assert(rest@ =~= s@.skip("http/"@.len() as int));
        Ok(parse_http_target("http", rest, 80))
    } else if starts_with(s, https_colon.as_slice()) {
        let n = s.len();
        let rest = &s[https_colon.len()..n];
        assert(rest@ =~= s@.skip("https:"@.len() as int));
        Ok(parse_http_colon_target("https", rest, 443))
    } else if starts_with(s, http_colon.as_slice()) {
        let n = s.len();
        let rest = &s[http_colon.len()..n];
        assert(rest@ =~= s@.skip("http:"@.len() as int));
        Ok(parse_http_colon_target("http", rest, 80))
    } else {
        Err(
            parse_error(
                "HTTP forward binding must start with 'http/', 'https/', 'http:' or 'https:', got '",
                s,
                "'",
            ),
        )
    }
}

/// Parses one remote binding segment in the given syntax.
fn parse_remote_binding_by(k: RemoteSyntax, s: &[char]) -> (r: Result<
    RemoteForwardBinding,
    ConfigError,
>)
    ensures
        match r {
            Ok(b) => remote_binding_by(k, s@) == Some(b@),
            Err(e) => remote_binding_by(k, s@) is None && e is Parse,
        },
{
    match k {
        RemoteSyntax::Standard => parse_remote_binding(s),
        RemoteSyntax::Legacy => parse_remote_binding_legacy(s),
        RemoteSyntax::Http => parse_http_binding_chars(s),
    }
}

/// Parses the `;`-separated bindings of a remote expression.
fn parse_remote_bindings(k: RemoteSyntax, s: &[char]) -> (r: Result<
    Vec<RemoteForwardBinding>,
    ConfigError,
>)
    ensures
        match r {
            Ok(v) => remote_bindings_spec(k, s@) == Some(remote_binding_views(v@)),
            Err(e) => remote_bindings_spec(k, s@) is None && e is Parse,
        },
{
    let mut acc: Vec<RemoteForwardBinding> = Vec::new();
    let mut rest: &[char] = s;
    assert(remote_binding_views(acc@) =~= Seq::<RemoteBindingView>::empty());
    loop
        invariant
            remote_bindings_spec(k, s@) == match remote_bindings_spec(k, rest@) {
                Some(r) => Some(remote_binding_views(acc@) + r),
                None => None,
            },
        decreases rest@.len(),
    {
        proof {
            lemma_find_index(rest@, ';');
        }
        match find_char(rest, ';') {
            Some(i) => {
                let n = rest.len();
                let seg = &rest[0..i];
                let tail = &rest[i + 1..n];
                assert(seg@ =~= rest@.take(i as int));
                assert(tail@ =~= rest@.skip(i + 1));
                let b = parse_remote_binding_by(k, seg)?;
                let ghost old_acc = acc@;
                acc.push(b);
                proof {
                    assert(remote_binding_views(acc@) =~= remote_binding_views(old_acc).push(b@));
                    if let Some(r) = remote_bindings_spec(k, tail@) {
                        assert(remote_binding_views(old_acc) + (seq![b@] + r)
                            =~= remote_binding_views(acc@) + r);
                    }
                }
                rest = tail;
            },
            None => {
                let b = parse_remote_binding_by(k, rest)?;
                let ghost old_acc = acc@;
                acc.push(b);
                assert(remote_binding_views(acc@) =~= remote_binding_views(old_acc) + seq![b@]);
                return Ok(acc);
            },
        }
    }
}

/// Parses a remote expression `relay_name:bindings` in the given syntax.
fn parse_remote_forward_by(k: RemoteSyntax, expr: &str) -> (r: Result<RemoteForward, ConfigError>)
    ensures
        match r {
            Ok(f) => remote_forward_spec(k, expr@) == Some(f@),
            Err(e) => remote_forward_spec(k, expr@) is None && e is Parse,
        },
{
    let is_http = match k {
        RemoteSyntax::Http => true,
        _ => false,
    };
    let all = chars_of(expr);
    let e = trim_chars(all.as_slice());
    if e.len() == 0 {
        return Err(
            parse_error_text(
                if is_http {
                    "Empty HTTP forward expression"
                } else {
                    "Empty remote forward expression"
                },
            ),
        );
    }
    let first_colon = match find_char(e, ':') {
        Some(i) => i,
        None => {
            return Err(
                parse_error(
                    if is_http {
                        "Invalid HTTP forward expression (no colon separator): '"
                    } else {
                        "Invalid remote forward expression (no colon separator): '"
                    },
                    e,
                    "'",
                ),
            );
        },
    };
    proof {
        lemma_find_index(e@, ':');
    }
    let n = e.len();
    let relay = &e[0..first_colon];
    let right = &e[first_colon + 1..n];
    assert(relay@ =~= e@.take(first_colon as int));
    assert(right@ =~= e@.skip(first_colon + 1));
    if relay.len() == 0 {
        return Err(
            parse_error_text(
                if is_http {
                    "Empty relay name in HTTP forward expression"
                } else {
                    "Empty relay name in remote forward expression"
                },
            ),
        );
    }
    if !relay_name_ok(relay) {
        return Err(parse_error("Invalid relay name: '", relay, "'"));
    }
    if right.len() == 0 {
        return Err(
            parse_error_text(
                if is_http {
                    "No binding specification in HTTP forward expression"
                } else {
                    "No binding specification in remote forward expression"
                },
            ),
        );
    }
    let bindings = parse_remote_bindings(k, right)?;
    let mut f = RemoteForward::default();
    f.relay_name = string_of(relay);
    f.bindings = bindings;
    Ok(f)
}

/// Parses a `-T` expression: `relay_name:[port_name/][host:]hostport{;...}`.
pub fn parse_remote_forward(expr: &str) -> (r: Result<RemoteForward, ConfigError>)
    ensures
        match r {
            Ok(f) => remote_forward_spec(RemoteSyntax::Standard, expr@) == Some(f@),
            Err(e) => remote_forward_spec(RemoteSyntax::Standard, expr@) is None && e is Parse,
        },
{
    parse_remote_forward_by(RemoteSyntax::Standard, expr)
}

/// Parses a `-R` expression (legacy format): `relay_name:host:[port_name/]port{;...}`.
pub fn parse_remote_forward_legacy(expr: &str) -> (r: Result<RemoteForward, ConfigError>)
    ensures
        match r {
            Ok(f) => remote_forward_spec(RemoteSyntax::Legacy, expr@) == Some(f@),
            Err(e) => remote_forward_spec(RemoteSyntax::Legacy, expr@) is None && e is Parse,
        },
{
    parse_remote_forward_by(RemoteSyntax::Legacy, expr)
}

/// Parses a `-H` expression: `relay_name:{http|https}/[host][/path]:hostport{;...}`.
pub fn parse_remote_http_forward(expr: &str) -> (r: Result<RemoteForward, ConfigError>)
    ensures
        match r {
            Ok(f) => remote_forward_spec(RemoteSyntax::Http, expr@) == Some(f@),
            Err(e) => remote_forward_spec(RemoteSyntax::Http, expr@) is None && e is Parse,
        },
{
    parse_remote_forward_by(RemoteSyntax::Http, expr)
}

} // verus!
