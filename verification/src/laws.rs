//! What holds of the proxy across its functions: ports read back as they
//! are written, and requests are routed to the host and port they name.
use vstd::prelude::*;
use crate::charclass::is_decimal_digit;
use crate::grammar::{
    all_ascii_digits, is_ascii_digit, authority_of, digits_value, ends_with_scheme_separator, host_of,
    lemma_first_index_absent, lemma_first_index_at, lemma_scheme_end_absent, lemma_scheme_end_at,
    lemma_trailing_digits_start, method_of, parse_u16, port_of, port_text, strip_port,
    trailing_digits_start, unsigned_digits,
};
use crate::http_utils::{
    property_of, Proto, blank_seen, body, header_lookup, header_of, header_properties, is_blank, lowercase,
    request_of, HostView, Method, PayloadView,
};
use crate::tls::utils::{
    address_char, address_run, dot_count, is_ip, lemma_address_run, lemma_address_run_bound,
    lemma_dot_count_monotone,
};
use crate::utils::{byte_hex, dump_entry, hex_upper, nibble_char, text_column};
use crate::proxy::{action_for_request, ClientActionView};
use crate::http_utils::connection_response;
use crate::text::{
    lemma_split_after_piece, lemma_split_nonempty, lemma_split_without_separator, split_on,
};
use crate::utils::{decimal, digit_char, lemma_decimal_digits};

verus! {

/// The decimal numeral of `n` has the value `n`.
proof fn lemma_decimal_value(n: nat)
    ensures
        digits_value(decimal(n)) == n,
    decreases n,
{
    let d = decimal(n);
    let c = digit_char(n % 10);
    assert(c as nat == n % 10 + 48);
    if n >= 10 {
        lemma_decimal_value(n / 10);
        assert(d.drop_last() =~= decimal(n / 10));
        assert(d.last() == c);
        assert((n / 10) * 10 + n % 10 == n);
        assert(digits_value(d) == digits_value(d.drop_last()) * 10 + ((d.last() as nat) - 48) as nat);
        assert(digits_value(d.drop_last()) == n / 10);
        assert(digits_value(d) == n);
    } else {
        assert(d.drop_last() =~= Seq::<char>::empty());
        assert(n % 10 == n);
        assert(digits_value(d.drop_last()) == 0);
        assert(d.last() == c);
        assert(digits_value(d) == digits_value(d.drop_last()) * 10 + ((d.last() as nat) - 48) as nat);
        assert(digits_value(d) == n);
    }
}

/// Ports read back as they are written: the decimal numeral of a port,
/// as the proxy prints it into an address or a reply, parses back to the
/// same port.
pub proof fn law_port_numeral_roundtrip(port: u16)
    ensures
        parse_u16(decimal(port as nat)) == Some(port),
{
    let d = decimal(port as nat);
    lemma_decimal_digits(port as nat);
    lemma_decimal_value(port as nat);
    assert(unsigned_digits(d) == d);
    assert(all_ascii_digits(d));
}

/// A host, a colon and a port numeral of at least two digits: the host
/// is what is left once the port is taken off, and the port text is the
/// numeral.
proof fn lemma_host_and_port(host: Seq<char>, port: u16)
    requires
        forall|k: int| 0 <= k < host.len() ==> host[k] != ':',
        port >= 10,
    ensures
        strip_port(host + seq![':'] + decimal(port as nat)) == host,
        port_text(host + seq![':'] + decimal(port as nat)) == Some(decimal(port as nat)),
{
    let x = host + seq![':'];
    let d = decimal(port as nat);
    let a = x + d;
    lemma_decimal_digits(port as nat);
    assert forall|k: int| 0 <= k < d.len() implies is_decimal_digit(#[trigger] d[k]) by {
        assert('0' <= d[k] <= '9');
    }
    lemma_trailing_digits_start(x, d);
    assert(trailing_digits_start(a) == x.len());
    assert(a[x.len() - 1] == ':');
    assert(a.take(host.len() as int) =~= host);
    assert(a.skip(x.len() as int) =~= d);
}

/// The target `host:port` of a `CONNECT` request names that host and port.
proof fn lemma_connect_target(host: Seq<char>, port: u16)
    requires
        forall|k: int| 0 <= k < host.len() ==> host[k] != ':' && host[k] != '/',
        port >= 10,
    ensures
        host_of(host + seq![':'] + decimal(port as nat)) == host,
        forall|p| port_of(host + seq![':'] + decimal(port as nat), p) == port,
{
    let t = host + seq![':'] + decimal(port as nat);
    lemma_decimal_digits(port as nat);
    assert forall|k: int| 0 <= k < t.len() implies t[k] != '/' by {
        if k >= host.len() + 1 {
            assert(t[k] == decimal(port as nat)[k - host.len() - 1]);
        }
    }
    lemma_scheme_end_absent(t);
    lemma_first_index_absent(t, '/');
    assert(authority_of(t) == t);
    lemma_host_and_port(host, port);
    law_port_numeral_roundtrip(port);
}

/// `CONNECT`, as the characters of a request line.
pub open spec fn connect_word() -> Seq<char> {
    seq!['C', 'O', 'N', 'N', 'E', 'C', 'T']
}

/// A `CONNECT` request for `host:port`, with a version word and whatever
/// follows its request line.
pub open spec fn connect_request(host: Seq<char>, port: u16, version: Seq<char>, rest: Seq<char>) -> Seq<char> {
    connect_word() + seq![' '] + host + seq![':'] + decimal(port as nat) + seq![' '] + version
        + seq!['\n'] + rest
}

/// A request line of three pieces splits into them, and is the first line
/// of a request that continues after it.
proof fn lemma_request_line(
    first: Seq<char>,
    target: Seq<char>,
    version: Seq<char>,
    rest: Seq<char>,
)
    requires
        forall|k: int| 0 <= k < first.len() ==> first[k] != ' ' && first[k] != '\n',
        forall|k: int| 0 <= k < target.len() ==> target[k] != ' ' && target[k] != '\n',
        forall|k: int| 0 <= k < version.len() ==> version[k] != ' ' && version[k] != '\n',
    ensures
        ({
            let line = first + seq![' '] + target + seq![' '] + version;
            &&& split_on(line + seq!['\n'] + rest, '\n')[0] == line
            &&& split_on(line, ' ') == seq![first, target, version]
        }),
{
    let line = first + seq![' '] + target + seq![' '] + version;
    assert forall|k: int| 0 <= k < line.len() implies line[k] != '\n' by {
        if k < first.len() {
        } else if k == first.len() {
        } else if k < first.len() + 1 + target.len() {
            assert(line[k] == target[k - first.len() - 1]);
        } else if k == first.len() + 1 + target.len() {
        } else {
            assert(line[k] == version[k - first.len() - 2 - target.len()]);
        }
    }
    lemma_split_after_piece(line, rest, '\n');
    let tail = target + seq![' '] + version;
    assert(line =~= first + seq![' '] + tail);
    lemma_split_after_piece(first, tail, ' ');
    lemma_split_after_piece(target, version, ' ');
    lemma_split_without_separator(version, ' ');
    assert(split_on(line, ' ') =~= seq![first, target, version]);
}

/// A `CONNECT` request is answered as established and tunnelled to the
/// host and port it names (when TLS decryption is off), whatever header
/// lines and body follow it.
pub proof fn law_connect_is_tunnelled(host: Seq<char>, port: u16, version: Seq<char>, rest: Seq<char>)
    requires
        forall|k: int|
            0 <= k < host.len() ==> host[k] != ':' && host[k] != '/' && host[k] != ' '
                && host[k] != '\n',
        forall|k: int| 0 <= k < version.len() ==> version[k] != ' ' && version[k] != '\n',
        port >= 10,
    ensures
        action_for_request(request_of(connect_request(host, port, version, rest)))
            == (ClientActionView::Tunnel {
            reply: connection_response(200, true),
            host: host,
            port: port,
        }),
{
    let target = host + seq![':'] + decimal(port as nat);
    lemma_decimal_digits(port as nat);
    assert forall|k: int| 0 <= k < target.len() implies target[k] != ' ' && target[k] != '\n' by {
        if k >= host.len() + 1 {
            assert(target[k] == decimal(port as nat)[k - host.len() - 1]);
        }
    }
    lemma_request_line(connect_word(), target, version, rest);
    let line = connect_word() + seq![' '] + target + seq![' '] + version;
    assert(connect_request(host, port, version, rest) =~= line + seq!['\n'] + rest);
    lemma_connect_target(host, port);
    assert(method_of(connect_word()) == Method::CONNECT);
    let h = header_of(line).unwrap();
    assert(h.host == HostView::Domain(host));
    assert(h.port == port);
}


/// `http://`, as characters.
pub open spec fn http_prefix() -> Seq<char> {
    seq!['h', 't', 't', 'p', ':', '/', '/']
}

/// `GET`, as characters.
pub open spec fn get_word() -> Seq<char> {
    seq!['G', 'E', 'T']
}

/// The target `http://host:port/path`.
pub open spec fn http_target(host: Seq<char>, port: u16, path: Seq<char>) -> Seq<char> {
    http_prefix() + host + seq![':'] + decimal(port as nat) + seq!['/'] + path
}

/// A `GET` request for `http://host:port/path`, with a version word and
/// whatever follows its request line.
pub open spec fn get_request(
    host: Seq<char>,
    port: u16,
    path: Seq<char>,
    version: Seq<char>,
    rest: Seq<char>,
) -> Seq<char> {
    get_word() + seq![' '] + http_target(host, port, path) + seq![' '] + version + seq!['\n']
        + rest
}

/// The target `http://host:port/path` names that host and port.
proof fn lemma_http_target(host: Seq<char>, port: u16, path: Seq<char>)
    requires
        forall|k: int| 0 <= k < host.len() ==> host[k] != ':' && host[k] != '/',
        forall|k: int| 0 <= k < path.len() ==> path[k] != ':',
        port >= 10,
    ensures
        host_of(http_target(host, port, path)) == host,
        forall|p| port_of(http_target(host, port, path), p) == port,
{
    let d = decimal(port as nat);
    let t = http_target(host, port, path);
    let r = host + seq![':'] + d + seq!['/'] + path;
    let a = host + seq![':'] + d;
    lemma_decimal_digits(port as nat);
    assert(t =~= http_prefix() + r);
    let colon: int = 7 + host.len() as int;
    assert(t[colon] == ':');
    assert(t[colon + 1] == d[0]);
    assert(t.take(7) =~= http_prefix());
    assert forall|j: int| 7 < j <= t.len() implies !ends_with_scheme_separator(#[trigger] t.take(j)) by {
        let i = j - 3;
        let u = t.take(j);
        assert(u[i] == t[i]);
        assert(u[i + 1] == t[i + 1]);
        if i < 7 {
            assert(t[i + 2] == t[j - 1]);
            if i == 4 {
                assert(t[7] == t[j - 1]);
            }
        } else if i < colon {
            assert(t[i] == host[i - 7]);
        } else if i == colon {
        } else if i < colon + 1 + d.len() {
            assert(t[i] == d[i - colon - 1]);
        } else if i == colon + 1 + d.len() {
        } else {
            assert(t[i] == path[i - colon - 2 - d.len()]);
        }
    }
    lemma_scheme_end_at(t, 7);
    assert(t.skip(7) =~= r);
    let slash: int = host.len() + 1 + d.len() as int;
    assert forall|k: int| 0 <= k < slash implies r[k] != '/' by {
        if k >= host.len() + 1 {
            assert(r[k] == d[k - host.len() - 1]);
        }
    }
    lemma_first_index_at(r, '/', slash);
    assert(r.take(slash) =~= a);
    assert(authority_of(t) == a);
    lemma_host_and_port(host, port);
    law_port_numeral_roundtrip(port);
}

/// A `GET` request for `http://host:port/path` is forwarded as it is to
/// the host and port it names, whatever header lines and body follow it.
pub proof fn law_get_is_forwarded(
    host: Seq<char>,
    port: u16,
    path: Seq<char>,
    version: Seq<char>,
    rest: Seq<char>,
)
    requires
        forall|k: int|
            0 <= k < host.len() ==> host[k] != ':' && host[k] != '/' && host[k] != ' '
                && host[k] != '\n',
        forall|k: int| 0 <= k < path.len() ==> path[k] != ':' && path[k] != ' ' && path[k] != '\n',
        forall|k: int| 0 <= k < version.len() ==> version[k] != ' ' && version[k] != '\n',
        port >= 10,
    ensures
        action_for_request(request_of(get_request(host, port, path, version, rest)))
            == (ClientActionView::Forward { host: host, port: port }),
{
    let d = decimal(port as nat);
    let target = http_target(host, port, path);
    lemma_decimal_digits(port as nat);
    let colon: int = 7 + host.len() as int;
    assert forall|k: int| 0 <= k < target.len() implies target[k] != ' ' && target[k] != '\n' by {
        if k < 7 {
        } else if k < colon {
            assert(target[k] == host[k - 7]);
        } else if k == colon {
        } else if k < colon + 1 + d.len() {
            assert(target[k] == d[k - colon - 1]);
        } else if k == colon + 1 + d.len() {
        } else {
            assert(target[k] == path[k - colon - 2 - d.len()]);
        }
    }
    lemma_request_line(get_word(), target, version, rest);
    let line = get_word() + seq![' '] + target + seq![' '] + version;
    assert(get_request(host, port, path, version, rest) =~= line + seq!['\n'] + rest);
    lemma_http_target(host, port, path);
    assert(method_of(get_word()) == Method::GET);
    let h = header_of(line).unwrap();
    assert(h.host == HostView::Domain(host));
    assert(h.port == port);
}


/// Header names are looked up without regard to case: two names with the
/// same lower-case form find the same value.
pub proof fn law_header_lookup_ignores_case(
    props: Seq<(Seq<char>, Seq<char>)>,
    a: Seq<char>,
    b: Seq<char>,
)
    requires
        lowercase(a) == lowercase(b),
    ensures
        header_lookup(props, a) == header_lookup(props, b),
    decreases props.len(),
{
    if props.len() > 0 {
        law_header_lookup_ignores_case(props.drop_first(), a, b);
    }
}

/// The pieces of a split, each followed by the separator again.
pub open spec fn rejoined(pieces: Seq<Seq<char>>, sep: char) -> Seq<char>
    decreases pieces.len(),
{
    if pieces.len() == 0 {
        Seq::empty()
    } else {
        rejoined(pieces.drop_last(), sep) + pieces.last() + seq![sep]
    }
}

/// Splitting loses nothing: the pieces, each followed by the separator,
/// give back the text followed by the separator.
pub proof fn law_split_rejoins(s: Seq<char>, sep: char)
    ensures
        rejoined(split_on(s, sep), sep) == s + seq![sep],
    decreases s.len(),
{
    if s.len() == 0 {
        let q = split_on(s, sep);
        assert(q.drop_last() =~= Seq::<Seq<char>>::empty());
        assert(rejoined(q.drop_last(), sep) =~= Seq::<char>::empty());
        assert(q.last() =~= Seq::<char>::empty());
        assert(rejoined(q, sep) =~= s + seq![sep]);
    } else {
        let t = s.drop_last();
        law_split_rejoins(t, sep);
        lemma_split_nonempty(t, sep);
        let p = split_on(t, sep);
        let q = split_on(s, sep);
        if s.last() == sep {
            assert(q.drop_last() =~= p);
            assert(rejoined(q, sep) =~= s + seq![sep]);
        } else {
            assert(q.drop_last() =~= p.drop_last());
            assert(q.last() == p.last().push(s.last()));
            let a = rejoined(p.drop_last(), sep) + p.last();
            assert(rejoined(p, sep) == a + seq![sep]);
            assert(a =~= (a + seq![sep]).drop_last());
            assert(t =~= (t + seq![sep]).drop_last());
            assert(a == t);
            assert(rejoined(q, sep) == rejoined(q.drop_last(), sep) + q.last() + seq![sep]);
            assert(rejoined(q, sep) =~= t + seq![s.last()] + seq![sep]);
            assert(t + seq![s.last()] =~= s);
        }
    }
}

/// After the blank line, the lines are the body, each with its line feed.
proof fn lemma_body_after_blank(pieces: Seq<Seq<char>>)
    ensures
        body(seq![seq!['\r']] + pieces) == rejoined(pieces, '\n'),
        header_properties(seq![seq!['\r']] + pieces) == Seq::<(Seq<char>, Seq<char>)>::empty(),
    decreases pieces.len(),
{
    let ls = seq![seq!['\r']] + pieces;
    if pieces.len() == 0 {
        assert(ls.drop_last() =~= Seq::<Seq<char>>::empty());
        assert(is_blank(ls.last()));
        assert(header_properties(ls.drop_last()) =~= Seq::<(Seq<char>, Seq<char>)>::empty());
        assert(!blank_seen(ls.drop_last()));
        assert(body(ls) =~= Seq::<char>::empty());
        assert(rejoined(pieces, '\n') =~= Seq::<char>::empty());
    } else {
        lemma_body_after_blank(pieces.drop_last());
        assert(ls.drop_last() =~= seq![seq!['\r']] + pieces.drop_last());
        assert(is_blank(ls.drop_last()[0]));
        assert(blank_seen(ls.drop_last()));
        assert(ls.last() == pieces.last());
        assert(header_properties(ls) == header_properties(ls.drop_last()));
        assert(body(ls) == body(ls.drop_last()) + ls.last() + seq!['\n']);
    }
}

/// What comes after the blank line is kept as the body, line feeds and
/// all, with one more line feed at its end; no header lines are found
/// where there are none.
pub proof fn law_body_is_kept(first: Seq<char>, content: Seq<char>)
    requires
        forall|k: int| 0 <= k < first.len() ==> first[k] != '\n',
        header_of(first) is Ok,
    ensures
        request_of(first + seq!['\n', '\r', '\n'] + content) == Ok::<PayloadView, crate::http_utils::HttpError>(
            PayloadView {
                http_header: header_of(first).unwrap(),
                headers: Seq::empty(),
                data: content + seq!['\n'],
            },
        ),
{
    let cr = seq!['\r'];
    let rest = cr + seq!['\n'] + content;
    assert(first + seq!['\n', '\r', '\n'] + content =~= first + seq!['\n'] + rest);
    lemma_split_after_piece(first, rest, '\n');
    lemma_split_after_piece(cr, content, '\n');
    let lines = split_on(first + seq!['\n'] + rest, '\n');
    assert(lines.drop_first() =~= seq![cr] + split_on(content, '\n'));
    lemma_body_after_blank(split_on(content, '\n'));
    law_split_rejoins(content, '\n');
}

/// A nibble's digit tells the nibble.
proof fn lemma_nibble_char_injective(x: u8, y: u8)
    requires
        x < 16,
        y < 16,
        nibble_char(x) == nibble_char(y),
    ensures
        x == y,
{
    let cx = nibble_char(x);
    let cy = nibble_char(y);
    assert(cx as u32 == if x > 9 { x + 55 } else { x + 48 });
    assert(cy as u32 == if y > 9 { y + 55 } else { y + 48 });
}

/// A dump shows every byte as it is: different bytes show different hex
/// digits.
pub proof fn law_byte_hex_injective(a: u8, b: u8)
    requires
        byte_hex(a) == byte_hex(b),
    ensures
        a == b,
{
    assert(byte_hex(a)[0] == byte_hex(b)[0]);
    assert(byte_hex(a)[1] == byte_hex(b)[1]);
    lemma_nibble_char_injective(a / 16, b / 16);
    lemma_nibble_char_injective(a % 16, b % 16);
}

/// Dots of a text written in two parts.
proof fn lemma_dot_count_concat(x: Seq<char>, y: Seq<char>)
    ensures
        dot_count(x + y) == dot_count(x) + dot_count(y),
    decreases y.len(),
{
    if y.len() == 0 {
        assert(x + y =~= x);
    } else {
        lemma_dot_count_concat(x, y.drop_last());
        assert((x + y).drop_last() =~= x + y.drop_last());
    }
}

/// ASCII digits hold no dot.
proof fn lemma_digits_no_dots(d: Seq<char>)
    requires
        forall|k: int| 0 <= k < d.len() ==> '0' <= #[trigger] d[k] <= '9',
    ensures
        dot_count(d) == 0,
    decreases d.len(),
{
    if d.len() > 0 {
        lemma_digits_no_dots(d.drop_last());
    }
}

/// A host that starts with three numbers each followed by a dot is taken
/// for an IP address, so its certificate names it by `IP:`.
pub proof fn law_dotted_numbers_are_ip(a: Seq<char>, b: Seq<char>, c: Seq<char>, d: Seq<char>)
    requires
        forall|k: int| 0 <= k < a.len() ==> '0' <= #[trigger] a[k] <= '9',
        forall|k: int| 0 <= k < b.len() ==> '0' <= #[trigger] b[k] <= '9',
        forall|k: int| 0 <= k < c.len() ==> '0' <= #[trigger] c[k] <= '9',
    ensures
        is_ip(a + seq!['.'] + b + seq!['.'] + c + seq!['.'] + d),
{
    let dot = seq!['.'];
    let head = a + dot + b + dot + c + dot;
    let s = head + d;
    let m = head.len() as int;
    assert forall|k: int| 0 <= k < m implies address_char(#[trigger] s[k]) by {
        assert(s[k] == head[k]);
        if k < a.len() {
            assert(head[k] == a[k]);
        } else if k == a.len() {
        } else if k < a.len() + 1 + b.len() {
            assert(head[k] == b[k - a.len() - 1]);
        } else if k == a.len() + 1 + b.len() {
        } else if k < a.len() + 2 + b.len() + c.len() {
            assert(head[k] == c[k - a.len() - 2 - b.len()]);
        } else {
        }
    }
    lemma_address_run(s, m);
    lemma_address_run_bound(s);
    assert(s.take(m) =~= head);
    lemma_digits_no_dots(a);
    lemma_digits_no_dots(b);
    lemma_digits_no_dots(c);
    lemma_dot_count_concat(a, dot);
    lemma_dot_count_concat(a + dot, b);
    lemma_dot_count_concat(a + dot + b, dot);
    lemma_dot_count_concat(a + dot + b + dot, c);
    lemma_dot_count_concat(a + dot + b + dot + c, dot);
    assert(dot_count(dot) == 1) by {
        assert(dot.drop_last() =~= Seq::<char>::empty());
        assert(dot.last() == '.');
        assert(dot_count(dot.drop_last()) == 0);
    }
    lemma_dot_count_monotone(s, m, address_run(s) as int);
}


/// Where a request target names no port, the port is 443 for HTTPS and 80
/// for every other protocol, WebSocket ones included.
pub proof fn law_default_ports(s: Seq<char>, protocol: Proto)
    requires
        authority_of(s).len() == 0 || !is_decimal_digit(authority_of(s).last()),
    ensures
        port_of(s, protocol) == (if protocol == Proto::HTTPS { 443u16 } else { 80u16 }),
        port_of(s, Proto::WS) == port_of(s, Proto::HTTP),
        port_of(s, Proto::WSS) == 80,
        port_of(s, Proto::NULL) == 80,
{
    let a = authority_of(s);
    if a.len() > 0 {
        assert(trailing_digits_start(a) == a.len());
    } else {
        assert(trailing_digits_start(a) == 0);
    }
}

/// `POST`, as characters.
pub open spec fn post_word() -> Seq<char> {
    seq!['P', 'O', 'S', 'T']
}

/// A `POST` request for `http://host:port/path` is forwarded as it is to
/// the host and port it names, whatever header lines and body follow it.
pub proof fn law_post_is_forwarded(
    host: Seq<char>,
    port: u16,
    path: Seq<char>,
    version: Seq<char>,
    rest: Seq<char>,
)
    requires
        forall|k: int|
            0 <= k < host.len() ==> host[k] != ':' && host[k] != '/' && host[k] != ' '
                && host[k] != '\n',
        forall|k: int| 0 <= k < path.len() ==> path[k] != ':' && path[k] != ' ' && path[k] != '\n',
        forall|k: int| 0 <= k < version.len() ==> version[k] != ' ' && version[k] != '\n',
        port >= 10,
    ensures
        action_for_request(
            request_of(
                post_word() + seq![' '] + http_target(host, port, path) + seq![' '] + version
                    + seq!['\n'] + rest,
            ),
        ) == (ClientActionView::Forward { host: host, port: port }),
{
    let d = decimal(port as nat);
    let target = http_target(host, port, path);
    lemma_decimal_digits(port as nat);
    let colon: int = 7 + host.len() as int;
    assert forall|k: int| 0 <= k < target.len() implies target[k] != ' ' && target[k] != '\n' by {
        if k < 7 {
        } else if k < colon {
            assert(target[k] == host[k - 7]);
        } else if k == colon {
        } else if k < colon + 1 + d.len() {
            assert(target[k] == d[k - colon - 1]);
        } else if k == colon + 1 + d.len() {
        } else {
            assert(target[k] == path[k - colon - 2 - d.len()]);
        }
    }
    lemma_request_line(post_word(), target, version, rest);
    let line = post_word() + seq![' '] + target + seq![' '] + version;
    assert(post_word() + seq![' '] + target + seq![' '] + version + seq!['\n'] + rest
        =~= line + seq!['\n'] + rest);
    lemma_http_target(host, port, path);
    assert(method_of(post_word()) == Method::POST);
    let h = header_of(line).unwrap();
    assert(h.host == HostView::Domain(host));
    assert(h.port == port);
}

/// A header lookup finds the value of the first header whose name equals
/// the wanted one once both are in lower case, and finds nothing when no
/// header's name does.
pub proof fn law_header_lookup_finds_first_equal_name(
    props: Seq<(Seq<char>, Seq<char>)>,
    name: Seq<char>,
)
    ensures
        header_lookup(props, name) is None <==> (forall|i: int|
            0 <= i < props.len() ==> lowercase(#[trigger] props[i].0) != lowercase(name)),
        header_lookup(props, name) matches Some(v) ==> exists|i: int|
            0 <= i < props.len() && lowercase(#[trigger] props[i].0) == lowercase(name)
                && props[i].1 == v && forall|j: int|
                0 <= j < i ==> lowercase(#[trigger] props[j].0) != lowercase(name),
    decreases props.len(),
{
    if props.len() > 0 {
        let tail = props.drop_first();
        law_header_lookup_finds_first_equal_name(tail, name);
        if lowercase(props[0].0) == lowercase(name) {
            assert(forall|j: int| 0 <= j < 0 ==> lowercase(#[trigger] props[j].0) != lowercase(name));
        } else {
            assert forall|i: int| 0 <= i < tail.len() implies tail[i] == props[i + 1] by {}
            if forall|i: int| 0 <= i < tail.len() ==> lowercase(#[trigger] tail[i].0) != lowercase(name) {
                assert forall|i: int| 0 <= i < props.len() implies lowercase(#[trigger] props[i].0) != lowercase(name) by {
                    if i > 0 {
                        assert(props[i] == tail[i - 1]);
                    }
                }
            }
            if header_lookup(props, name) is None {
                assert forall|i: int| 0 <= i < tail.len() implies lowercase(#[trigger] tail[i].0) != lowercase(name) by {
                    assert(tail[i] == props[i + 1]);
                }
            }
            if let Some(v) = header_lookup(tail, name) {
                let i = choose|i: int|
                    0 <= i < tail.len() && lowercase(#[trigger] tail[i].0) == lowercase(name)
                        && tail[i].1 == v && forall|j: int|
                        0 <= j < i ==> lowercase(#[trigger] tail[j].0) != lowercase(name);
                assert(props[i + 1] == tail[i]);
                assert forall|j: int| 0 <= j < i + 1 implies lowercase(#[trigger] props[j].0) != lowercase(name) by {
                    if j > 0 {
                        assert(props[j] == tail[j - 1]);
                    }
                }
            }
        }
    }
}

/// Every header line before the blank line that has a name and a value
/// adds its property after those found so far; the blank line and every
/// line after it add none.
pub proof fn law_header_lines_are_kept(lines: Seq<Seq<char>>, line: Seq<char>)
    ensures
        !blank_seen(lines) && !is_blank(line) && property_of(line) is Some ==> header_properties(
            lines.push(line),
        ) == header_properties(lines).push(property_of(line).unwrap()),
        !blank_seen(lines) && !is_blank(line) && property_of(line) is None ==> header_properties(
            lines.push(line),
        ) == header_properties(lines),
        blank_seen(lines) || is_blank(line) ==> header_properties(lines.push(line))
            == header_properties(lines),
        header_properties(lines.push(line)).len() <= header_properties(lines).len() + 1,
{
    assert(lines.push(line).drop_last() =~= lines);
    assert(lines.push(line).last() == line);
}

/// Whether `c` is an upper-case hexadecimal digit.
pub open spec fn is_upper_hex_digit(c: char) -> bool {
    ('0' <= c && c <= '9') || ('A' <= c && c <= 'F')
}

/// The value of an upper-case hexadecimal digit.
pub open spec fn hex_digit_value(c: char) -> nat {
    if '0' <= c && c <= '9' {
        (c as nat - 48) as nat
    } else {
        (c as nat - 55) as nat
    }
}

/// The number that a string of hexadecimal digits writes in base 16.
pub open spec fn hex_value(h: Seq<char>) -> nat
    decreases h.len(),
{
    if h.len() == 0 {
        0
    } else {
        hex_value(h.drop_last()) * 16 + hex_digit_value(h.last())
    }
}

/// Whether `t` ends `s`.
pub open spec fn ends_with(s: Seq<char>, t: Seq<char>) -> bool {
    t.len() <= s.len() && s.skip(s.len() - t.len()) == t
}

/// The hex numeral of `n` is made of upper-case hex digits, starts with a
/// digit other than `0` unless it is `0`, and reads back as `n`.
proof fn lemma_hex_upper(n: nat)
    ensures
        hex_upper(n).len() >= 1,
        forall|k: int| 0 <= k < hex_upper(n).len() ==> is_upper_hex_digit(#[trigger] hex_upper(n)[k]),
        n > 0 ==> hex_upper(n)[0] != '0',
        hex_value(hex_upper(n)) == n,
    decreases n,
{
    let h = hex_upper(n);
    if n < 16 {
        let c = nibble_char(n as u8);
        assert(c as nat == if n > 9 { n + 55 } else { n + 48 });
        assert(h.drop_last() =~= Seq::<char>::empty());
        assert(hex_value(h) == hex_value(h.drop_last()) * 16 + hex_digit_value(h.last()));
    } else {
        lemma_hex_upper(n / 16);
        let c = nibble_char((n % 16) as u8);
        assert(c as nat == if n % 16 > 9 { n % 16 + 55 } else { n % 16 + 48 });
        assert(h.drop_last() =~= hex_upper(n / 16));
        assert(h[0] == hex_upper(n / 16)[0]);
        assert(hex_value(h) == hex_value(h.drop_last()) * 16 + hex_digit_value(h.last()));
        assert((n / 16) * 16 + n % 16 == n);
        assert forall|k: int| 0 <= k < h.len() implies is_upper_hex_digit(#[trigger] h[k]) by {
            if k < h.len() - 1 {
                assert(h[k] == hex_upper(n / 16)[k]);
            }
        }
    }
}

/// Each row of a dump after the first is headed by its byte offset in
/// upper-case hexadecimal: the entry of a byte at a positive multiple of
/// 16 that is not the last ends with a line feed, hex digits that read
/// back as that offset (without leading zeros), a colon and a space.
pub proof fn law_rows_headed_by_hex_offset(data: Seq<u8>, i: int)
    requires
        0 < i < data.len() - 1,
        i % 16 == 0,
    ensures
        exists|h: Seq<char>|
            #![trigger hex_value(h)]
            h.len() >= 1 && h[0] != '0' && (forall|k: int| 0 <= k < h.len() ==> is_upper_hex_digit(#[trigger] h[k]))
                && hex_value(h) == i && ends_with(dump_entry(data, i), seq!['\n'] + h + seq![':', ' ']),
{
    let h = hex_upper(i as nat);
    lemma_hex_upper(i as nat);
    let e = dump_entry(data, i);
    let tail = seq!['\n'] + h + seq![':', ' '];
    assert(e == byte_hex(data[i]) + seq![' '] + text_column(data, i - 16, i) + tail);
    assert(e.skip(e.len() - tail.len()) =~= tail);
    assert(hex_value(h) == i);
}

} // verus!
