//! The grammar of the pieces of an HTTP request line: the scheme, host,
//! port and path of a request target, the request method, and the value of
//! a header line.
//!
//! Every piece handled here comes out of a single line of the request, so
//! it holds no line feed.
use vstd::prelude::*;
use crate::http_utils::{Method, Proto};
use crate::text::{chars_eq, slice_chars};
use crate::charclass::{decimal_digit, is_decimal_digit, is_white_space, white_space};


verus! {

/// `o` moved `d` places to the right.
pub open spec fn offset(o: Option<int>, d: int) -> Option<int> {
    match o {
        Some(i) => Some(i + d),
        None => None,
    }
}

/// Index of the first `c` in `s`.
pub open spec fn first_index(s: Seq<char>, c: char) -> Option<int>
    decreases s.len(),
{
    if s.len() == 0 {
        None
    } else if s[0] == c {
        Some(0)
    } else {
        offset(first_index(s.drop_first(), c), 1)
    }
}

/// Index of the last `c` in `s`.
pub open spec fn last_index(s: Seq<char>, c: char) -> Option<int>
    decreases s.len(),
{
    if s.len() == 0 {
        None
    } else if s.last() == c {
        Some(s.len() - 1)
    } else {
        last_index(s.drop_last(), c)
    }
}

/// Whether `c` lies in the character range `A`..=`z`.
pub open spec fn in_letter_range(c: char) -> bool {
    'A' <= c && c <= 'z'
}

/// Index of the first character of `s` outside the range `A`..=`z`.
pub open spec fn first_outside_letters(s: Seq<char>) -> Option<int>
    decreases s.len(),
{
    if s.len() == 0 {
        None
    } else if !in_letter_range(s[0]) {
        Some(0)
    } else {
        offset(first_outside_letters(s.drop_first()), 1)
    }
}

/// Index of the first character of `s` that is not white space.
pub open spec fn first_non_space(s: Seq<char>) -> Option<int>
    decreases s.len(),
{
    if s.len() == 0 {
        None
    } else if !is_white_space(s[0]) {
        Some(0)
    } else {
        offset(first_non_space(s.drop_first()), 1)
    }
}

/// Index of the last character of `s` that is not a carriage return.
pub open spec fn last_non_cr(s: Seq<char>) -> Option<int>
    decreases s.len(),
{
    if s.len() == 0 {
        None
    } else if s.last() != '\r' {
        Some(s.len() - 1)
    } else {
        last_non_cr(s.drop_last())
    }
}

/// Number of decimal digits at the start of `s`.
pub open spec fn leading_digits(s: Seq<char>) -> nat
    decreases s.len(),
{
    if s.len() == 0 || !is_decimal_digit(s[0]) {
        0
    } else {
        1 + leading_digits(s.drop_first())
    }
}

/// Where the run of decimal digits that ends `s` begins.
pub open spec fn trailing_digits_start(s: Seq<char>) -> int
    decreases s.len(),
{
    if s.len() == 0 || !is_decimal_digit(s.last()) {
        s.len() as int
    } else {
        trailing_digits_start(s.drop_last())
    }
}

/// Whether `s` ends with `://`.
pub open spec fn ends_with_scheme_separator(s: Seq<char>) -> bool {
    &&& s.len() >= 3
    &&& s[s.len() - 3] == ':'
    &&& s[s.len() - 2] == '/'
    &&& s[s.len() - 1] == '/'
}

/// The end of the last `://` in `s`.
pub open spec fn scheme_end(s: Seq<char>) -> Option<int>
    decreases s.len(),
{
    if s.len() < 3 {
        None
    } else if ends_with_scheme_separator(s) {
        Some(s.len() as int)
    } else {
        scheme_end(s.drop_last())
    }
}

// ---------------------------------------------------------------------
// Scanning
// ---------------------------------------------------------------------

/// Index of the first `c` in `s`.
pub fn find_first(s: &[char], c: char) -> (r: Option<usize>)
    ensures
        first_index(s@, c) == (match r { Some(i) => Some(i as int), None => None }),
        r matches Some(i) ==> i < s@.len() && s@[i as int] == c,
{
    let mut i: usize = 0;
    assert(s@.skip(0) =~= s@);
    while i < s.len()
        invariant
            i <= s@.len(),
            first_index(s@, c) == offset(first_index(s@.skip(i as int), c), i as int),
        decreases s.len() - i,
    {
        if s[i] == c {
            return Some(i);
        }
        assert(s@.skip(i as int).drop_first() =~= s@.skip(i + 1));
        i = i + 1;
    }
    None
}

/// Index of the last `c` in `s`.
pub fn find_last(s: &[char], c: char) -> (r: Option<usize>)
    ensures
        last_index(s@, c) == (match r { Some(i) => Some(i as int), None => None }),
        r matches Some(i) ==> i < s@.len() && s@[i as int] == c,
{
    let mut j: usize = s.len();
    assert(s@.take(j as int) =~= s@);
    while j > 0
        invariant
            j <= s@.len(),
            last_index(s@, c) == last_index(s@.take(j as int), c),
        decreases j,
    {
        if s[j - 1] == c {
            return Some(j - 1);
        }
        assert(s@.take(j as int).drop_last() =~= s@.take(j - 1));
        j = j - 1;
    }
    None
}

/// Index of the first character of `s` outside `A`..=`z`.
pub fn find_outside_letters(s: &[char]) -> (r: Option<usize>)
    ensures
        first_outside_letters(s@) == (match r { Some(i) => Some(i as int), None => None }),
        r matches Some(i) ==> i < s@.len(),
{
    let mut i: usize = 0;
    assert(s@.skip(0) =~= s@);
    while i < s.len()
        invariant
            i <= s@.len(),
            first_outside_letters(s@) == offset(first_outside_letters(s@.skip(i as int)), i as int),
        decreases s.len() - i,
    {
        if !('A' <= s[i] && s[i] <= 'z') {
            return Some(i);
        }
        assert(s@.skip(i as int).drop_first() =~= s@.skip(i + 1));
        i = i + 1;
    }
    None
}

/// Index of the first character of `s` that is not white space.
pub fn find_non_space(s: &[char]) -> (r: Option<usize>)
    ensures
        first_non_space(s@) == (match r { Some(i) => Some(i as int), None => None }),
        r matches Some(i) ==> i < s@.len(),
{
    let mut i: usize = 0;
    assert(s@.skip(0) =~= s@);
    while i < s.len()
        invariant
            i <= s@.len(),
            first_non_space(s@) == offset(first_non_space(s@.skip(i as int)), i as int),
        decreases s.len() - i,
    {
        if !white_space(s[i]) {
            return Some(i);
        }
        assert(s@.skip(i as int).drop_first() =~= s@.skip(i + 1));
        i = i + 1;
    }
    None
}

/// Index of the last character of `s` that is not a carriage return.
pub fn find_last_non_cr(s: &[char]) -> (r: Option<usize>)
    ensures
        last_non_cr(s@) == (match r { Some(i) => Some(i as int), None => None }),
        r matches Some(i) ==> i < s@.len(),
{
    let mut j: usize = s.len();
    assert(s@.take(j as int) =~= s@);
    while j > 0
        invariant
            j <= s@.len(),
            last_non_cr(s@) == last_non_cr(s@.take(j as int)),
        decreases j,
    {
        if s[j - 1] != '\r' {
            return Some(j - 1);
        }
        assert(s@.take(j as int).drop_last() =~= s@.take(j - 1));
        j = j - 1;
    }
    None
}

/// End of the run of decimal digits that starts at `from`.
pub fn digits_end(s: &[char], from: usize) -> (e: usize)
    requires
        from <= s@.len(),
    ensures
        from <= e <= s@.len(),
        e - from == leading_digits(s@.skip(from as int)),
{
    let mut i: usize = from;
    while i < s.len() && decimal_digit(s[i])
        invariant
            from <= i <= s@.len(),
            leading_digits(s@.skip(from as int)) == (i - from) + leading_digits(s@.skip(i as int)),
        decreases s.len() - i,
    {
        assert(s@.skip(i as int).drop_first() =~= s@.skip(i + 1));
        i = i + 1;
    }
    i
}

/// Start of the run of decimal digits that ends `s`.
pub fn digits_start(s: &[char]) -> (k: usize)
    ensures
        k == trailing_digits_start(s@),
        k <= s@.len(),
{
    let mut j: usize = s.len();
    assert(s@.take(j as int) =~= s@);
    while j > 0 && decimal_digit(s[j - 1])
        invariant
            j <= s@.len(),
            trailing_digits_start(s@) == trailing_digits_start(s@.take(j as int)),
        decreases j,
    {
        assert(s@.take(j as int).drop_last() =~= s@.take(j - 1));
        j = j - 1;
    }
    j
}

/// End of the last `://` in `s`.
pub fn find_scheme_end(s: &[char]) -> (r: Option<usize>)
    ensures
        scheme_end(s@) == (match r { Some(i) => Some(i as int), None => None }),
        r matches Some(e) ==> 3 <= e <= s@.len(),
{
    let mut j: usize = s.len();
    assert(s@.take(j as int) =~= s@);
    while j >= 3
        invariant
            j <= s@.len(),
            scheme_end(s@) == scheme_end(s@.take(j as int)),
        decreases j,
    {
        if s[j - 3] == ':' && s[j - 2] == '/' && s[j - 1] == '/' {
            return Some(j);
        }
        assert(s@.take(j as int).drop_last() =~= s@.take(j - 1));
        j = j - 1;
    }
    None
}


// ---------------------------------------------------------------------
// The request target
// ---------------------------------------------------------------------

/// The scheme of a request target: everything before its first `:`
/// (what the pattern `^([^:]*)` captures).
pub open spec fn scheme_of(s: Seq<char>) -> Seq<char> {
    match first_index(s, ':') {
        Some(i) => s.take(i),
        None => s,
    }
}

/// The protocol a scheme names.
pub open spec fn protocol_of(s: Seq<char>) -> Proto {
    let scheme = scheme_of(s);
    if scheme == seq!['h', 't', 't', 'p', 's'] {
        Proto::HTTPS
    } else if scheme == seq!['h', 't', 't', 'p'] {
        Proto::HTTP
    } else if scheme == seq!['w', 's'] {
        Proto::WS
    } else if scheme == seq!['w', 's', 's'] {
        Proto::WSS
    } else {
        Proto::NULL
    }
}

/// The target without everything up to and including its last `://`
/// (the pattern `^(.*:\/\/)` replaced by nothing).
pub open spec fn strip_scheme(s: Seq<char>) -> Seq<char> {
    match scheme_end(s) {
        Some(e) => s.skip(e),
        None => s,
    }
}

/// The target cut at its first `/` (the pattern `(\/.*)$` replaced by
/// nothing).
pub open spec fn strip_path(s: Seq<char>) -> Seq<char> {
    match first_index(s, '/') {
        Some(i) => s.take(i),
        None => s,
    }
}

/// Host and port part of a request target: no scheme, no path.
pub open spec fn authority_of(s: Seq<char>) -> Seq<char> {
    strip_path(strip_scheme(s))
}

/// `s` without a final `:` and decimal digits (the pattern `(:\d+)$`
/// replaced by nothing).
pub open spec fn strip_port(s: Seq<char>) -> Seq<char> {
    let k = trailing_digits_start(s);
    if 1 <= k < s.len() && s[k - 1] == ':' {
        s.take(k - 1)
    } else {
        s
    }
}

/// The host a request target names.
pub open spec fn host_of(s: Seq<char>) -> Seq<char> {
    strip_port(authority_of(s))
}

/// The text the pattern `([^:.]\d+)$` finds in an authority: a character
/// other than `:` and `.` followed by decimal digits up to the end.
pub open spec fn port_text(a: Seq<char>) -> Option<Seq<char>> {
    let k = trailing_digits_start(a);
    if 1 <= k < a.len() && a[k - 1] != ':' && a[k - 1] != '.' {
        Some(a.skip(k - 1))
    } else if a.len() - k >= 2 {
        Some(a.skip(k))
    } else {
        None
    }
}

/// Whether `c` is one of the ASCII digits `0`..=`9`.
pub open spec fn is_ascii_digit(c: char) -> bool {
    '0' <= c && c <= '9'
}

/// The number that a string of ASCII digits writes in decimal.
pub open spec fn digits_value(d: Seq<char>) -> nat
    decreases d.len(),
{
    if d.len() == 0 {
        0
    } else {
        digits_value(d.drop_last()) * 10 + ((d.last() as nat) - 48) as nat
    }
}

/// `t` without a leading `+`.
pub open spec fn unsigned_digits(t: Seq<char>) -> Seq<char> {
    if t.len() > 0 && t[0] == '+' {
        t.drop_first()
    } else {
        t
    }
}

/// Whether every character of `d` is an ASCII digit.
pub open spec fn all_ascii_digits(d: Seq<char>) -> bool {
    forall|i: int| 0 <= i < d.len() ==> is_ascii_digit(#[trigger] d[i])
}

/// What `str::parse::<u16>` gives for `t`: an optional `+` followed by one
/// or more ASCII digits whose value fits in a `u16`.
pub open spec fn parse_u16(t: Seq<char>) -> Option<u16> {
    let d = unsigned_digits(t);
    if d.len() > 0 && all_ascii_digits(d) && digits_value(d) <= 65535 {
        Some(digits_value(d) as u16)
    } else {
        None
    }
}

/// The port of a protocol when the target names none.
pub open spec fn default_port(protocol: Proto) -> u16 {
    if protocol == Proto::HTTPS {
        443
    } else {
        80
    }
}

/// The port a request target names: the number its port text writes, 0
/// where that is no `u16`, the protocol's port where there is no port text.
pub open spec fn port_of(s: Seq<char>, protocol: Proto) -> u16 {
    match port_text(authority_of(s)) {
        Some(t) => match parse_u16(t) {
            Some(v) => v,
            None => 0,
        },
        None => default_port(protocol),
    }
}

/// Where the pattern `[^.A-z]{1,}(([^.]*)$)` first matches in `s`: at the
/// first character outside `A`..=`z` after the last `.`; the match runs
/// to the end.
pub open spec fn path_match(s: Seq<char>) -> Option<Seq<char>> {
    let p = match last_index(s, '.') {
        Some(i) => i + 1,
        None => 0,
    };
    match first_outside_letters(s.skip(p)) {
        Some(j) => Some(s.skip(p + j)),
        None => None,
    }
}

/// A run of digits never outgrows its text.
pub proof fn lemma_leading_digits_bound(s: Seq<char>)
    ensures
        leading_digits(s) <= s.len(),
    decreases s.len(),
{
    if s.len() > 0 {
        lemma_leading_digits_bound(s.drop_first());
    }
}

/// `t` with every `:` that is followed by decimal digits removed together
/// with those digits (the pattern `:\d+` replaced by nothing throughout).
pub open spec fn remove_port_refs(t: Seq<char>) -> Seq<char>
    decreases t.len(),
{
    if t.len() == 0 {
        t
    } else if t[0] == ':' && leading_digits(t.drop_first()) > 0 {
        proof {
            lemma_leading_digits_bound(t.drop_first());
        }
        remove_port_refs(t.skip(1 + leading_digits(t.drop_first()) as int))
    } else {
        seq![t[0]] + remove_port_refs(t.drop_first())
    }
}

/// The path a request target names, if the path pattern matches.
pub open spec fn path_of(s: Seq<char>) -> Option<Seq<char>> {
    match path_match(s) {
        Some(m) => Some(remove_port_refs(m)),
        None => None,
    }
}

/// The method a request line names.
pub open spec fn method_of(s: Seq<char>) -> Method {
    if s == seq!['P', 'O', 'S', 'T'] {
        Method::POST
    } else if s == seq!['G', 'E', 'T'] {
        Method::GET
    } else if s == seq!['C', 'O', 'N', 'N', 'E', 'C', 'T'] {
        Method::CONNECT
    } else {
        Method::NULL
    }
}

/// The value in the text after a header name's colon: what the pattern
/// `[^\s].*[^\r]` first matches, from the first character that is not
/// white space to the last that is not a carriage return, which must come
/// later.
pub open spec fn header_value_of(v: Seq<char>) -> Option<Seq<char>> {
    match (first_non_space(v), last_non_cr(v)) {
        (Some(i), Some(j)) => if i < j {
            Some(v.subrange(i, j + 1))
        } else {
            None
        },
        _ => None,
    }
}

// ---------------------------------------------------------------------
// Executable grammar
// ---------------------------------------------------------------------

/// Protocol of a request target.
pub fn protocol(s: &[char]) -> (p: Proto)
    ensures
        p == protocol_of(s@),
{
    let scheme = match find_first(s, ':') {
        Some(i) => slice_chars(s, 0, i),
        None => slice_chars(s, 0, s.len()),
    };
    assert(s@.subrange(0, s@.len() as int) =~= s@);
    if chars_eq(scheme.as_slice(), &['h', 't', 't', 'p', 's']) {
        Proto::HTTPS
    } else if chars_eq(scheme.as_slice(), &['h', 't', 't', 'p']) {
        Proto::HTTP
    } else if chars_eq(scheme.as_slice(), &['w', 's']) {
        Proto::WS
    } else if chars_eq(scheme.as_slice(), &['w', 's', 's']) {
        Proto::WSS
    } else {
        Proto::NULL
    }
}


/// The characters an optional character vector holds.
pub open spec fn opt_chars(o: Option<Vec<char>>) -> Option<Seq<char>> {
    match o {
        Some(v) => Some(v@),
        None => None,
    }
}

/// Host and port part of a request target.
pub fn authority(s: &[char]) -> (a: Vec<char>)
    ensures
        a@ == authority_of(s@),
{
    let rest = match find_scheme_end(s) {
        Some(e) => slice_chars(s, e, s.len()),
        None => slice_chars(s, 0, s.len()),
    };
    assert(s@.subrange(0, s@.len() as int) =~= s@);
    assert(strip_scheme(s@) =~= rest@);
    match find_first(rest.as_slice(), '/') {
        Some(i) => slice_chars(rest.as_slice(), 0, i),
        None => rest,
    }
}

/// The host a request target names.
pub fn host_name(s: &[char]) -> (h: Vec<char>)
    ensures
        h@ == host_of(s@),
{
    let a = authority(s);
    let k = digits_start(a.as_slice());
    if 1 <= k && k < a.len() && a[k - 1] == ':' {
        slice_chars(a.as_slice(), 0, k - 1)
    } else {
        a
    }
}

/// What `str::parse::<u16>` gives for the characters `t`.
pub fn parse_port(t: &[char]) -> (r: Option<u16>)
    ensures
        r == parse_u16(t@),
{
    let start: usize = if t.len() > 0 && t[0] == '+' { 1 } else { 0 };
    let ghost d = unsigned_digits(t@);
    assert(d =~= t@.skip(start as int));
    if start >= t.len() {
        return None;
    }
    let mut acc: u32 = 0;
    let mut i: usize = start;
    assert(d.take(0) =~= Seq::<char>::empty());
    while i < t.len()
        invariant
            start <= i <= t@.len(),
            d == t@.skip(start as int),
            d == unsigned_digits(t@),
            forall|k: int| 0 <= k < i - start ==> is_ascii_digit(#[trigger] d[k]),
            acc <= 65536,
            acc < 65536 ==> acc == digits_value(d.take(i - start)),
            acc == 65536 ==> digits_value(d.take(i - start)) >= 65536,
        decreases t.len() - i,
    {
        let c = t[i];
        if !('0' <= c && c <= '9') {
            assert(!is_ascii_digit(d[i - start]));
            return None;
        }
        let dv: u32 = (c as u32) - 48;
        assert(d.take(i - start + 1).drop_last() =~= d.take(i - start));
        if acc < 65536 {
            let x: u32 = acc * 10 + dv;
            acc = if x > 65535 { 65536 } else { x };
        }
        i = i + 1;
    }
    assert(d.take(i - start) =~= d);
    if acc > 65535 {
        None
    } else {
        Some(acc as u16)
    }
}

/// The port a request target names.
pub fn port_number(s: &[char], protocol: Proto) -> (port: u16)
    ensures
        port == port_of(s@, protocol),
{
    let a = authority(s);
    let k = digits_start(a.as_slice());
    let text = if 1 <= k && k < a.len() && a[k - 1] != ':' && a[k - 1] != '.' {
        Some(slice_chars(a.as_slice(), k - 1, a.len()))
    } else if a.len() - k >= 2 {
        Some(slice_chars(a.as_slice(), k, a.len()))
    } else {
        None
    };
    assert(opt_chars(text) == port_text(a@));
    match text {
        Some(t) => match parse_port(t.as_slice()) {
            Some(v) => v,
            None => 0,
        },
        None => if protocol == Proto::HTTPS {
            443
        } else {
            80
        },
    }
}

/// `t` with every `:` that is followed by decimal digits removed together
/// with those digits.
pub fn strip_port_refs(t: &[char]) -> (r: Vec<char>)
    ensures
        r@ == remove_port_refs(t@),
{
    let mut out: Vec<char> = Vec::new();
    let mut i: usize = 0;
    assert(t@.skip(0) =~= t@);
    while i < t.len()
        invariant
            i <= t@.len(),
            out@ + remove_port_refs(t@.skip(i as int)) == remove_port_refs(t@),
        decreases t.len() - i,
    {
        let ghost u = t@.skip(i as int);
        assert(u.drop_first() =~= t@.skip(i + 1));
        if t[i] == ':' && i + 1 < t.len() && decimal_digit(t[i + 1]) {
            let e = digits_end(t, i + 1);
            assert(u.skip(1 + leading_digits(u.drop_first()) as int) =~= t@.skip(e as int));
            i = e;
        } else {
            let ghost before = out@;
            out.push(t[i]);
            assert(out@ + remove_port_refs(t@.skip(i + 1)) =~= before + remove_port_refs(u));
            i = i + 1;
        }
    }
    assert(t@.skip(i as int) =~= Seq::<char>::empty());
    assert(out@ + Seq::<char>::empty() =~= out@);
    out
}

/// The path a request target names, if the path pattern matches.
pub fn path_text(s: &[char]) -> (r: Option<Vec<char>>)
    ensures
        opt_chars(r) == path_of(s@),
{
    let n = s.len();
    let p: usize = match find_last(s, '.') {
        Some(i) => i + 1,
        None => 0,
    };
    let tail = slice_chars(s, p, s.len());
    assert(tail@ =~= s@.skip(p as int));
    match find_outside_letters(tail.as_slice()) {
        Some(j) => {
            let m = slice_chars(s, p + j, s.len());
            assert(m@ =~= s@.skip(p + j));
            Some(strip_port_refs(m.as_slice()))
        },
        None => None,
    }
}

/// The method a request line names.
pub fn method_name(s: &[char]) -> (m: Method)
    ensures
        m == method_of(s@),
{
    if chars_eq(s, &['P', 'O', 'S', 'T']) {
        Method::POST
    } else if chars_eq(s, &['G', 'E', 'T']) {
        Method::GET
    } else if chars_eq(s, &['C', 'O', 'N', 'N', 'E', 'C', 'T']) {
        Method::CONNECT
    } else {
        Method::NULL
    }
}

/// The value in the text after a header name's colon.
pub fn header_value(v: &[char]) -> (r: Option<Vec<char>>)
    ensures
        opt_chars(r) == header_value_of(v@),
{
    let n = v.len();
    match (find_non_space(v), find_last_non_cr(v)) {
        (Some(i), Some(j)) => if i < j {
            Some(slice_chars(v, i, j + 1))
        } else {
            None
        },
        _ => None,
    }
}


// ---------------------------------------------------------------------
// Facts about the scans
// ---------------------------------------------------------------------

/// A character that does not occur has no first index.
pub proof fn lemma_first_index_absent(s: Seq<char>, c: char)
    requires
        forall|k: int| 0 <= k < s.len() ==> s[k] != c,
    ensures
        first_index(s, c) is None,
    decreases s.len(),
{
    if s.len() > 0 {
        lemma_first_index_absent(s.drop_first(), c);
    }
}

/// The first index of a character is where it first occurs.
pub proof fn lemma_first_index_at(s: Seq<char>, c: char, i: int)
    requires
        0 <= i < s.len(),
        s[i] == c,
        forall|k: int| 0 <= k < i ==> s[k] != c,
    ensures
        first_index(s, c) == Some(i),
    decreases i,
{
    if i > 0 {
        lemma_first_index_at(s.drop_first(), c, i - 1);
    }
}

/// Without a `/` there is no `://`.
pub proof fn lemma_scheme_end_absent(s: Seq<char>)
    requires
        forall|k: int| 0 <= k < s.len() ==> s[k] != '/',
    ensures
        scheme_end(s) is None,
    decreases s.len(),
{
    if s.len() >= 3 {
        lemma_scheme_end_absent(s.drop_last());
    }
}

/// The last `://` ends at `e` when one ends there and none ends later.
pub proof fn lemma_scheme_end_at(s: Seq<char>, e: int)
    requires
        3 <= e <= s.len(),
        ends_with_scheme_separator(s.take(e)),
        forall|j: int| e < j <= s.len() ==> !ends_with_scheme_separator(#[trigger] s.take(j)),
    ensures
        scheme_end(s) == Some(e),
    decreases s.len(),
{
    if s.len() > e {
        assert(s.take(s.len() as int) =~= s);
        assert(!ends_with_scheme_separator(s.take(s.len() as int)));
        let t = s.drop_last();
        assert(t.take(e) =~= s.take(e));
        assert forall|j: int| e < j <= t.len() implies !ends_with_scheme_separator(#[trigger] t.take(j)) by {
            assert(t.take(j) =~= s.take(j));
        }
        lemma_scheme_end_at(t, e);
    } else {
        assert(s.take(e) =~= s);
    }
}

/// A run of decimal digits after a text that does not end in one starts
/// right after that text.
pub proof fn lemma_trailing_digits_start(x: Seq<char>, d: Seq<char>)
    requires
        forall|k: int| 0 <= k < d.len() ==> is_decimal_digit(#[trigger] d[k]),
        x.len() == 0 || !is_decimal_digit(x.last()),
    ensures
        trailing_digits_start(x + d) == x.len(),
    decreases d.len(),
{
    if d.len() == 0 {
        assert(x + d =~= x);
    } else {
        assert((x + d).drop_last() =~= x + d.drop_last());
        assert((x + d).last() == d.last());
        lemma_trailing_digits_start(x, d.drop_last());
    }
}

} // verus!
