//! HTTP request decoding and proxy replies.
use vstd::prelude::*;
use vstd::utf8::{decode_utf8, valid_utf8};
use crate::grammar::{
    header_value, header_value_of, host_name, host_of, method_name, method_of,
    path_of, path_text, port_number, port_of, protocol, protocol_of,
};
use crate::constants::{PROXY_NAME, PROXY_VERSION};
use crate::utils::{decimal, decimal_chars};
use crate::text::{
    chars_of, lemma_split_nonempty, pieces_view, push_char, push_chars, push_str, split_chars,
    split_on, string_of,
};

verus! {

/// Why a request could not be decoded.
#[derive(Debug)]
pub enum HttpError {
    InvalidHttp,
    InvalidHttpHeader,
    InvalidHeaders,
    Other(String),
    Null,
}

/// Request method of the request line.
#[derive(Clone, Copy, Debug, PartialEq, Eq, Structural)]
pub enum Method {
    CONNECT,
    GET,
    POST,
    NULL,
}

impl Default for Method {
    fn default() -> (m: Self)
        ensures
            m == Method::NULL,
    {
        Method::NULL
    }
}

/// Host named by the request target.
#[derive(Clone, Debug)]
pub enum Host {
    domain(String),
    ipv4(String),
    ipv6(String),
    NULL,
}

/// The characters a `Host` holds.
pub enum HostView {
    Domain(Seq<char>),
    Ipv4(Seq<char>),
    Ipv6(Seq<char>),
    Null,
}

impl View for Host {
    type V = HostView;

    open spec fn view(&self) -> HostView {
        match self {
            Host::domain(s) => HostView::Domain(s@),
            Host::ipv4(s) => HostView::Ipv4(s@),
            Host::ipv6(s) => HostView::Ipv6(s@),
            Host::NULL => HostView::Null,
        }
    }
}

impl Default for Host {
    fn default() -> (h: Self)
        ensures
            h@ == HostView::Null,
    {
        Host::NULL
    }
}

/// Protocol named by the scheme of the request target.
#[derive(Clone, Copy, Debug, PartialEq, Eq, Structural)]
pub enum Proto {
    HTTP,
    HTTPS,
    WS,
    WSS,
    NULL,
}

impl Default for Proto {
    fn default() -> (p: Self)
        ensures
            p == Proto::NULL,
    {
        Proto::NULL
    }
}

/// A header line: its name and its value.
#[derive(Clone, Debug)]
pub struct Property(pub String, pub String);

impl View for Property {
    type V = (Seq<char>, Seq<char>);

    open spec fn view(&self) -> (Seq<char>, Seq<char>) {
        (self.0@, self.1@)
    }
}

impl Default for Property {
    fn default() -> (p: Self)
        ensures
            p@ == (Seq::<char>::empty(), Seq::<char>::empty()),
    {
        Property(String::new(), String::new())
    }
}

/// What the request line says.
#[derive(Clone, Debug)]
pub struct Header {
    pub method: Method,
    pub protocol: Proto,
    pub host: Host,
    pub port: u16,
    pub path: String,
    pub version: u8,
}

/// The request line as plain values.
#[verifier::ext_equal]
pub struct HeaderView {
    pub method: Method,
    pub protocol: Proto,
    pub host: HostView,
    pub port: u16,
    pub path: Seq<char>,
    pub version: u8,
}

impl View for Header {
    type V = HeaderView;

    open spec fn view(&self) -> HeaderView {
        HeaderView {
            method: self.method,
            protocol: self.protocol,
            host: self.host@,
            port: self.port,
            path: self.path@,
            version: self.version,
        }
    }
}

/// The request line before anything has been decoded.
pub open spec fn empty_header() -> HeaderView {
    HeaderView {
        method: Method::NULL,
        protocol: Proto::NULL,
        host: HostView::Null,
        port: 0,
        path: Seq::empty(),
        version: 0,
    }
}

impl Default for Header {
    fn default() -> (h: Self)
        ensures
            h@ == empty_header(),
    {
        Header {
            method: Method::default(),
            protocol: Proto::default(),
            host: Host::default(),
            port: 0,
            path: String::new(),
            version: 0,
        }
    }
}

/// A decoded request: request line, header lines and body.
#[derive(Clone, Debug)]
pub struct Payload {
    pub http_header: Header,
    pub headers: Vec<Property>,
    pub data: String,
}

/// A decoded request as plain values.
#[verifier::ext_equal]
pub struct PayloadView {
    pub http_header: HeaderView,
    pub headers: Seq<(Seq<char>, Seq<char>)>,
    pub data: Seq<char>,
}

/// The plain values of a list of header lines.
pub open spec fn properties_view(props: Seq<Property>) -> Seq<(Seq<char>, Seq<char>)> {
    props.map_values(|p: Property| p@)
}

impl View for Payload {
    type V = PayloadView;

    open spec fn view(&self) -> PayloadView {
        PayloadView {
            http_header: self.http_header@,
            headers: properties_view(self.headers@),
            data: self.data@,
        }
    }
}

impl Default for Payload {
    fn default() -> (p: Self)
        ensures
            p@.http_header == empty_header(),
            p@.headers == Seq::<(Seq<char>, Seq<char>)>::empty(),
            p@.data == Seq::<char>::empty(),
    {
        let p = Payload { http_header: Header::default(), headers: Vec::new(), data: String::new() };
        assert(properties_view(p.headers@) =~= Seq::<(Seq<char>, Seq<char>)>::empty());
        p
    }
}


// ---------------------------------------------------------------------
// What a request means
// ---------------------------------------------------------------------

/// What the request line says: its method, and, when it names a target,
/// the target's protocol, host, port and path, and, when it names a
/// version, HTTP/1.1. A request line of more than three space-separated
/// pieces is refused.
pub open spec fn header_of(line: Seq<char>) -> Result<HeaderView, HttpError> {
    let parts = split_on(line, ' ');
    if parts.len() > 3 {
        Err(HttpError::InvalidHttpHeader)
    } else {
        let has_target = parts.len() >= 2;
        let protocol = if has_target { protocol_of(parts[1]) } else { Proto::NULL };
        Ok(HeaderView {
            method: method_of(parts[0]),
            protocol: protocol,
            host: if has_target { HostView::Domain(host_of(parts[1])) } else { HostView::Null },
            port: if has_target { port_of(parts[1], protocol) } else { 0 },
            path: if has_target {
                match path_of(parts[1]) {
                    Some(p) => p,
                    None => Seq::empty(),
                }
            } else {
                Seq::empty()
            },
            version: if parts.len() >= 3 { 0x11 } else { 0 },
        })
    }
}

/// The name and value of a header line: the text before its first colon,
/// and the value found in the text between its first and second colon.
pub open spec fn property_of(line: Seq<char>) -> Option<(Seq<char>, Seq<char>)> {
    let parts = split_on(line, ':');
    if parts.len() > 1 {
        match header_value_of(parts[1]) {
            Some(v) => Some((parts[0], v)),
            None => None,
        }
    } else {
        None
    }
}

/// Whether a line is the blank line (a lone carriage return) that ends the
/// header lines.
pub open spec fn is_blank(line: Seq<char>) -> bool {
    line == seq!['\r']
}

/// Whether one of `lines` is blank.
pub open spec fn blank_seen(lines: Seq<Seq<char>>) -> bool {
    exists|i: int| 0 <= i < lines.len() && is_blank(#[trigger] lines[i])
}

/// The properties of the header lines among `lines` (the lines after the
/// request line): the lines before the first blank one.
pub open spec fn header_properties(lines: Seq<Seq<char>>) -> Seq<(Seq<char>, Seq<char>)>
    decreases lines.len(),
{
    if lines.len() == 0 {
        Seq::empty()
    } else {
        let earlier = header_properties(lines.drop_last());
        if blank_seen(lines.drop_last()) || is_blank(lines.last()) {
            earlier
        } else {
            match property_of(lines.last()) {
                Some(p) => earlier.push(p),
                None => earlier,
            }
        }
    }
}

/// The body among `lines` (the lines after the request line): every line
/// after the first blank one, each ended by a line feed.
pub open spec fn body(lines: Seq<Seq<char>>) -> Seq<char>
    decreases lines.len(),
{
    if lines.len() == 0 {
        Seq::empty()
    } else if blank_seen(lines.drop_last()) {
        body(lines.drop_last()) + lines.last() + seq!['\n']
    } else {
        Seq::empty()
    }
}

/// A request, given as its lines.
pub open spec fn request_of_lines(lines: Seq<Seq<char>>) -> Result<PayloadView, HttpError> {
    match header_of(lines[0]) {
        Err(e) => Err(e),
        Ok(h) => Ok(
            PayloadView {
                http_header: h,
                headers: header_properties(lines.drop_first()),
                data: body(lines.drop_first()),
            },
        ),
    }
}

/// What a request text means.
pub open spec fn request_of(text: Seq<char>) -> Result<PayloadView, HttpError> {
    request_of_lines(split_on(text, '\n'))
}

/// The plain values of a decoding result.
pub open spec fn payload_result_view(r: Result<Payload, HttpError>) -> Result<PayloadView, HttpError> {
    match r {
        Ok(p) => Ok(p@),
        Err(e) => Err(e),
    }
}

// ---------------------------------------------------------------------
// Decoding
// ---------------------------------------------------------------------

/// Sets the host to the domain the request target names.
pub fn enum_host(host: &mut Host, buffer: &[char])
    ensures
        final(host)@ == HostView::Domain(host_of(buffer@)),
{
    let name = host_name(buffer);
    *host = Host::domain(string_of(name.as_slice()));
}

/// Sets the port to the one the request target names, given the protocol
/// already decoded.
pub fn decode_port(header: &mut Header, buffer: &[char])
    ensures
        final(header)@ == (HeaderView { port: port_of(buffer@, old(header).protocol), ..old(header)@ }),
{
    header.port = port_number(buffer, header.protocol);
}

/// Sets the path to the one the request target names, if the path pattern
/// matches; otherwise leaves it.
pub fn decode_path(path: &mut String, buffer: &[char])
    ensures
        final(path)@ == (match path_of(buffer@) {
            Some(p) => p,
            None => old(path)@,
        }),
{
    match path_text(buffer) {
        Some(p) => {
            *path = string_of(p.as_slice());
        },
        None => {},
    }
}

/// Sets the protocol to the one the request target's scheme names.
pub fn decode_protocol(protocol_field: &mut Proto, buffer: &[char])
    ensures
        *final(protocol_field) == protocol_of(buffer@),
{
    *protocol_field = protocol(buffer);
}

/// Sets the method to the one the request line names.
pub fn enum_method(method: &mut Method, string: &[char])
    ensures
        *final(method) == method_of(string@),
{
    *method = method_name(string);
}

/// Sets the version: every version is taken for HTTP/1.1.
pub fn decode_version(version: &mut u8, string: &[char])
    ensures
        *final(version) == 0x11,
{
    *version = 0x11;
}

/// Decodes a request line.
pub fn decode_header(buffer: &[char]) -> (res: Result<Header, HttpError>)
    ensures
        (match res {
            Ok(h) => header_of(buffer@) == Ok::<HeaderView, HttpError>(h@),
            Err(e) => header_of(buffer@) == Err::<HeaderView, HttpError>(e),
        }),
{
    let mut header = Header::default();
    let strings = split_chars(buffer, ' ');
    proof {
        lemma_split_nonempty(buffer@, ' ');
    }
    let ghost parts = split_on(buffer@, ' ');
    assert(strings@[0]@ == parts[0]);
    enum_method(&mut header.method, strings[0].as_slice());
    if strings.len() >= 2 {
        let target = strings[1].as_slice();
        assert(target@ == parts[1]);
        decode_protocol(&mut header.protocol, target);
        enum_host(&mut header.host, target);
        decode_port(&mut header, target);
        decode_path(&mut header.path, target);
    }
    if strings.len() >= 3 {
        decode_version(&mut header.version, strings[2].as_slice());
    }
    if strings.len() > 3 {
        return Err(HttpError::InvalidHttpHeader);
    }
    assert(header_of(buffer@) == Ok::<HeaderView, HttpError>(header@));
    Ok(header)
}


/// Decodes a header line into its name and value, if it has both.
pub fn decode_property(line: &[char]) -> (res: Option<Property>)
    ensures
        (match res {
            Some(p) => property_of(line@) == Some(p@),
            None => property_of(line@) is None,
        }),
{
    let parts = split_chars(line, ':');
    let ghost pieces = split_on(line@, ':');
    if parts.len() > 1 {
        assert(parts@[1]@ == pieces[1]);
        assert(parts@[0]@ == pieces[0]);
        match header_value(parts[1].as_slice()) {
            Some(v) => Some(Property(string_of(parts[0].as_slice()), string_of(v.as_slice()))),
            None => None,
        }
    } else {
        None
    }
}

/// One more line keeps the earlier lines' verdict on the blank line.
proof fn lemma_blank_seen_push(lines: Seq<Seq<char>>, line: Seq<char>)
    ensures
        blank_seen(lines.push(line)) == (blank_seen(lines) || is_blank(line)),
{
    let more = lines.push(line);
    if blank_seen(lines) {
        let i = choose|i: int| 0 <= i < lines.len() && is_blank(#[trigger] lines[i]);
        assert(more[i] == lines[i]);
    }
    if is_blank(line) {
        assert(more[lines.len() as int] == line);
    }
    if blank_seen(more) {
        let i = choose|i: int| 0 <= i < more.len() && is_blank(#[trigger] more[i]);
        if i < lines.len() {
            assert(more[i] == lines[i]);
        }
    }
}

/// Decodes a request text: the request line, the header lines up to the
/// first blank line, and the body after it.
pub fn decode_text(text: &str) -> (res: Result<Payload, HttpError>)
    ensures
        payload_result_view(res) == request_of(text@),
{
    let chars = chars_of(text);
    let lines = split_chars(chars.as_slice(), '\n');
    proof {
        lemma_split_nonempty(text@, '\n');
    }
    let ghost all = split_on(text@, '\n');
    let ghost rest = all.drop_first();
    assert(pieces_view(lines@) == all);
    let http_header = match decode_header(lines[0].as_slice()) {
        Ok(h) => h,
        Err(e) => {
            return Err(e);
        },
    };
    let mut headers: Vec<Property> = Vec::new();
    let mut data = String::new();
    let mut in_body = false;
    let mut i: usize = 1;
    assert(rest.take(0) =~= Seq::<Seq<char>>::empty());
    assert(properties_view(headers@) =~= Seq::<(Seq<char>, Seq<char>)>::empty());
    while i < lines.len()
        invariant
            1 <= i <= lines@.len(),
            pieces_view(lines@) == all,
            rest == all.drop_first(),
            in_body == blank_seen(rest.take(i - 1)),
            properties_view(headers@) == header_properties(rest.take(i - 1)),
            data@ == body(rest.take(i - 1)),
        decreases lines.len() - i,
    {
        let line = lines[i].as_slice();
        let ghost done = rest.take(i - 1);
        let ghost next = rest.take(i as int);
        assert(line@ == rest[i - 1]);
        assert(next =~= done.push(line@));
        assert(next.drop_last() =~= done);
        proof {
            lemma_blank_seen_push(done, line@);
        }
        if in_body {
            push_chars(&mut data, line);
            push_char(&mut data, '\n');
        } else if line.len() == 1 && line[0] == '\r' {
            assert(line@ =~= seq!['\r']);
            in_body = true;
        } else {
            assert(line@.len() == 1 ==> line@[0] != '\r');
            match decode_property(line) {
                Some(p) => {
                    let ghost before = headers@;
                    headers.push(p);
                    assert(properties_view(headers@) =~= properties_view(before).push(p@));
                },
                None => {},
            }
        }
        i = i + 1;
    }
    assert(rest.take(i - 1) =~= rest);
    Ok(Payload { http_header, headers, data })
}

/// Name for what `String::from_utf8_lossy` makes of some bytes.
pub uninterp spec fn utf8_lossy(bytes: Seq<u8>) -> Seq<char>;

/// `String::from_utf8_lossy`: the text of `bytes`, with every invalid
/// sequence replaced by U+FFFD; valid UTF-8 decodes to its own text.
#[verifier::external_body]
fn lossy_text(bytes: &[u8]) -> (s: String)
    ensures
        s@ == utf8_lossy(bytes@),
        valid_utf8(bytes@) ==> s@ == decode_utf8(bytes@),
{
    String::from_utf8_lossy(bytes).into_owned()
}

/// Decodes a request as received: its bytes are read as UTF-8, invalid
/// sequences replaced.
pub fn decode(buffer: &[u8]) -> (res: Result<Payload, HttpError>)
    ensures
        payload_result_view(res) == request_of(utf8_lossy(buffer@)),
        valid_utf8(buffer@) ==> payload_result_view(res) == request_of(decode_utf8(buffer@)),
{
    let text = lossy_text(buffer);
    decode_text(text.as_str())
}


/// Name for what `str::to_lowercase` makes of a text (its lower-case form
/// by the Unicode Lowercase mapping).
pub uninterp spec fn lowercase(s: Seq<char>) -> Seq<char>;

/// `str::to_lowercase`.
#[verifier::external_body]
fn to_lowercase(s: &str) -> (r: String)
    ensures
        r@ == lowercase(s@),
{
    s.to_lowercase()
}

/// The value of the first header whose name equals `name` once both are in
/// lower case.
pub open spec fn header_lookup(props: Seq<(Seq<char>, Seq<char>)>, name: Seq<char>) -> Option<Seq<char>>
    decreases props.len(),
{
    if props.len() == 0 {
        None
    } else if lowercase(props[0].0) == lowercase(name) {
        Some(props[0].1)
    } else {
        header_lookup(props.drop_first(), name)
    }
}

/// The value of the first header named `name`, case ignored.
pub fn get_header_value(headers: Vec<Property>, name: &str) -> (res: Option<String>)
    ensures
        (match res {
            Some(v) => header_lookup(properties_view(headers@), name@) == Some(v@),
            None => header_lookup(properties_view(headers@), name@) is None,
        }),
{
    let ghost props = properties_view(headers@);
    let wanted = to_lowercase(name);
    let mut i: usize = 0;
    assert(props.skip(0) =~= props);
    while i < headers.len()
        invariant
            i <= headers@.len(),
            props == properties_view(headers@),
            wanted@ == lowercase(name@),
            header_lookup(props, name@) == header_lookup(props.skip(i as int), name@),
        decreases headers.len() - i,
    {
        let property = &headers[i];
        assert(props.skip(i as int)[0] == property@);
        assert(props.skip(i as int).drop_first() =~= props.skip(i + 1));
        let candidate = to_lowercase(property.0.as_str());
        if candidate == wanted {
            return Some(property.1.clone());
        }
        i = i + 1;
    }
    None
}

/// The reply to a `CONNECT` request.
pub open spec fn connection_response(status: u16, established: bool) -> Seq<char> {
    "HTTP/1.1 "@ + decimal(status as nat) + " "@ + (if established {
        "Connection established"@
    } else {
        "Connection failed"@
    }) + "\r\n"@ + "Proxy-Agent: "@ + PROXY_NAME@ + "/"@ + PROXY_VERSION@ + "\r\n"@ + "\r\n"@
}

/// The reply to a `CONNECT` request: status line, proxy agent, blank line.
pub fn make_connection_response(status: u16, established: bool) -> (packet: String)
    ensures
        packet@ == connection_response(status, established),
{
    let mut packet = String::new();
    push_str(&mut packet, "HTTP/1.1 ");
    let code = decimal_chars(status as u64);
    push_chars(&mut packet, code.as_slice());
    push_str(&mut packet, " ");
    if established {
        push_str(&mut packet, "Connection established");
    } else {
        push_str(&mut packet, "Connection failed");
    }
    push_str(&mut packet, "\r\n");
    push_str(&mut packet, "Proxy-Agent: ");
    push_str(&mut packet, PROXY_NAME);
    push_str(&mut packet, "/");
    push_str(&mut packet, PROXY_VERSION);
    push_str(&mut packet, "\r\n");
    push_str(&mut packet, "\r\n");
    packet
}

} // verus!
